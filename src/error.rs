use vstd::prelude::*;

verus! {

/// The category of a failure reported while processing source text.
#[derive(Debug, Clone, Copy, PartialEq, Eq, Structural)]
pub enum LoxErrorKind {
    LexicalError,
}

/// A failure with its category, a human-readable message and the source line it refers to.
#[derive(Debug)]
pub struct LoxError {
    pub message: String,
    pub line: usize,
    pub kind: LoxErrorKind,
}

/// Mathematical view of a `LoxError`.
pub struct LoxErrorView {
    pub kind: LoxErrorKind,
    pub message: Seq<char>,
    pub line: nat,
}

impl View for LoxError {
    type V = LoxErrorView;

    open spec fn view(&self) -> LoxErrorView {
        LoxErrorView { kind: self.kind, message: self.message@, line: self.line as nat }
    }
}

impl LoxError {
    pub fn new(kind: LoxErrorKind, message: &str, line: usize) -> (r: LoxError)
        ensures
            r.kind == kind,
            r.message@ == message@,
            r.line == line,
    {
        LoxError { kind, message: String::from_str(message), line }
    }
}

} // verus!
