use vstd::prelude::*;
use crate::error::LoxError;
use crate::scanner::{
    is_blank, lex_step, lexical_error, line_end, newlines, operator_kinds, push_token, quote_end, scan,
    scan_from, scan_outcome, single_char_kind, LiteralView, Token, TokenKind, TokenView,
};

verus! {

pub open spec fn is_whitespace(c: char) -> bool {
    is_blank(c) || c == '\n'
}

/// Characters that form a token of one character when not doubled into a comment.
pub open spec fn is_punctuation(c: char) -> bool {
    single_char_kind(c) is Some || c == '/'
}

/// Characters that can start some lexeme.
pub open spec fn is_recognised(c: char) -> bool {
    is_punctuation(c) || operator_kinds(c) is Some || is_whitespace(c) || c == '"'
}

/// Number of characters of `s` that are not whitespace.
pub open spec fn non_whitespace_count(s: Seq<char>) -> nat
    decreases s.len(),
{
    if s.len() == 0 {
        0
    } else {
        (if is_whitespace(s[0]) { 0nat } else { 1nat }) + non_whitespace_count(s.drop_first())
    }
}

/// Text made only of punctuation and whitespace, with no two punctuation characters adjacent.
pub open spec fn spaced_punctuation(src: Seq<char>) -> bool {
    &&& forall|i: int| 0 <= i < src.len() ==> is_punctuation(#[trigger] src[i]) || is_whitespace(src[i])
    &&& forall|i: int|
        0 <= i < src.len() - 1 ==> !(is_punctuation(#[trigger] src[i]) && is_punctuation(src[i + 1]))
}

proof fn lemma_spaced_punctuation_from(src: Seq<char>, pos: nat, line: nat, acc: Seq<TokenView>)
    requires
        spaced_punctuation(src),
        pos <= src.len(),
    ensures
        scan_from(src, pos, line, acc) matches Ok(ts) && ts.len() == acc.len()
            + non_whitespace_count(src.subrange(pos as int, src.len() as int)) + 1,
    decreases src.len() - pos,
{
    let rest = src.subrange(pos as int, src.len() as int);
    if pos < src.len() {
        assert(rest.drop_first() =~= src.subrange(pos + 1 as int, src.len() as int));
        assert(is_punctuation(src[pos as int]) || is_whitespace(src[pos as int]));
        if pos + 1 < src.len() {
            assert(!(is_punctuation(src[pos as int]) && is_punctuation(src[pos + 1 as int])));
        }
        let st = lex_step(src, pos, line)->Ok_0;
        lemma_spaced_punctuation_from(src, pos + 1, st.line, push_token(acc, st.token));
    }
}

/// Text of punctuation separated by whitespace scans to one token per punctuation
/// character, followed by the end-of-input token.
pub proof fn lemma_spaced_punctuation_count(src: Seq<char>)
    requires
        spaced_punctuation(src),
    ensures
        scan(src) matches Ok(ts) && ts.len() == non_whitespace_count(src) + 1,
{
    assert(src.subrange(0, src.len() as int) =~= src);
    lemma_spaced_punctuation_from(src, 0, 1, Seq::empty());
}

proof fn lemma_line_end_is_newline(src: Seq<char>, p: nat)
    requires
        p <= src.len(),
        line_end(src, p) < src.len(),
    ensures
        src[line_end(src, p) as int] == '\n',
    decreases src.len() - p,
{
    if p < src.len() && src[p as int] != '\n' {
        lemma_line_end_is_newline(src, p + 1);
    }
}

/// A line comment produces no token and leaves the line counter as it is; the newline
/// that ends it adds exactly one. Scanning from the comment is scanning from the
/// character after that newline, one line further on.
pub proof fn lemma_comment_then_newline(src: Seq<char>, pos: nat, line: nat, acc: Seq<TokenView>)
    requires
        pos + 1 < src.len(),
        src[pos as int] == '/',
        src[pos + 1 as int] == '/',
        line_end(src, pos + 2) < src.len(),
    ensures
        scan_from(src, pos, line, acc) == scan_from(src, line_end(src, pos + 2) + 1, line + 1, acc),
{
    lemma_line_end_is_newline(src, pos + 2);
    let e = line_end(src, pos + 2);
    assert(scan_from(src, pos, line, acc) == scan_from(src, e, line, acc));
    assert(scan_from(src, e, line, acc) == scan_from(src, e + 1, line + 1, acc));
}

/// A string literal keeps the line on which it starts, and the scan goes on after its
/// closing quote with the line counter raised by the newlines inside it.
pub proof fn lemma_multiline_string(src: Seq<char>, pos: nat, line: nat, acc: Seq<TokenView>)
    requires
        pos < src.len(),
        src[pos as int] == '"',
        quote_end(src, pos + 1) < src.len(),
    ensures
        ({
            let close = quote_end(src, pos + 1);
            let token = TokenView {
                kind: TokenKind::Str,
                lexeme: src.subrange(pos as int, close + 1 as int),
                literal: Some(LiteralView::Str(src.subrange(pos + 1 as int, close as int))),
                line,
            };
            scan_from(src, pos, line, acc) == scan_from(
                src,
                close + 1,
                line + newlines(src.subrange(pos + 1 as int, close as int)),
                acc.push(token),
            )
        }),
{
}

proof fn lemma_quote_end_missing(src: Seq<char>, p: nat)
    requires
        p <= src.len(),
        forall|i: int| p <= i < src.len() ==> src[i] != '"',
    ensures
        quote_end(src, p) == src.len(),
    decreases src.len() - p,
{
    if p < src.len() {
        lemma_quote_end_missing(src, p + 1);
    }
}

/// A quote with no closing quote after it ends the scan with "Unterminated string.",
/// reported on the line where the input ends.
pub proof fn lemma_unterminated_string(src: Seq<char>, pos: nat, line: nat, acc: Seq<TokenView>)
    requires
        pos < src.len(),
        src[pos as int] == '"',
        forall|i: int| pos < i < src.len() ==> src[i] != '"',
    ensures
        scan_from(src, pos, line, acc) == Err::<Seq<TokenView>, _>(
            lexical_error(
                "Unterminated string."@,
                line + newlines(src.subrange(pos + 1 as int, src.len() as int)),
            ),
        ),
{
    lemma_quote_end_missing(src, pos + 1);
}

/// A character that starts no lexeme ends the scan with "Unexpected character.",
/// reported on the line where it stands; no token is returned.
pub proof fn lemma_unexpected_character(src: Seq<char>, pos: nat, line: nat, acc: Seq<TokenView>)
    requires
        pos < src.len(),
        !is_recognised(src[pos as int]),
    ensures
        scan_from(src, pos, line, acc) == Err::<Seq<TokenView>, _>(
            lexical_error("Unexpected character."@, line),
        ),
{
}

/// Scanning is deterministic: two scans of the same text, each by a fresh scanner,
/// give identical outcomes.
pub proof fn lemma_scan_idempotent(
    src: Seq<char>,
    first: Result<Vec<Token>, LoxError>,
    second: Result<Vec<Token>, LoxError>,
)
    requires
        scan_outcome(first) == scan(src),
        scan_outcome(second) == scan(src),
    ensures
        scan_outcome(first) == scan_outcome(second),
{
}

} // verus!
