pub mod error;
pub mod laws;
pub mod scanner;
pub mod util;

use vstd::prelude::*;
pub use error::{LoxError, LoxErrorKind};
pub use scanner::{Literal, Scanner, Token, TokenKind};
pub use util::ternary;
use scanner::{scan, scan_outcome};

verus! {

/// Interpreter session: runs source text through the scanner and remembers
/// whether an error has been reported since the last reset.
pub struct Rlox1 {
    has_error: bool,
}

impl Rlox1 {
    pub fn new() -> (r: Rlox1)
        ensures
            !r.has_error(),
    {
        Rlox1 { has_error: false }
    }

    pub closed spec fn has_error_spec(&self) -> bool {
        self.has_error
    }

    /// Whether an error has been reported.
    #[verifier::when_used_as_spec(has_error_spec)]
    pub fn has_error(&self) -> (r: bool)
        ensures
            r == self.has_error_spec(),
    {
        self.has_error
    }

    /// Forgets earlier errors, as an interactive session does between lines.
    pub fn clear_error(&mut self)
        ensures
            !final(self).has_error(),
    {
        self.has_error = false;
    }

    /// Scans `source`. A lexical error is recorded in the session and returned;
    /// it is up to the caller to present it.
    pub fn run(&mut self, source: &str) -> (r: Result<Vec<Token>, LoxError>)
        requires
            source@.len() < usize::MAX,
        ensures
            scan_outcome(r) == scan(source@),
            final(self).has_error() == (old(self).has_error() || r is Err),
    {
        let mut scanner = Scanner::new(source);
        let r = scanner.scan_tokens();
        if let Err(e) = &r {
            self.error(e.line, e.kind, e.message.as_str());
        }
        r
    }

    /// Records that an error of `kind` with `message` was found on `line`.
    pub fn error(&mut self, line: usize, kind: LoxErrorKind, message: &str)
        ensures
            final(self).has_error(),
    {
        self.has_error = true;
    }
}

} // verus!
