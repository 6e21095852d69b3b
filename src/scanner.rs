use vstd::prelude::*;
use crate::error::{LoxError, LoxErrorKind, LoxErrorView};

verus! {

/// Classification of a token.
#[derive(Debug, Clone, Copy, PartialEq, Eq, Structural)]
pub enum TokenKind {
    // Single-character tokens.
    LeftParen, RightParen, LeftBrace, RightBrace,
    Comma, Dot, Minus, Plus, Semicolon, Slash, Star,

    // One or two character tokens.
    Bang, BangEqual,
    Equal, EqualEqual,
    Greater, GreaterEqual,
    Less, LessEqual,

    // Literals.
    Identifier, Str, Number,

    // Keywords.
    And, Class, Else, False, Fun, For, If, Nil, Or,
    Print, Return, Super, This, True, Var, While,

    EOF,
}

/// Decoded value carried by a literal token.
#[derive(Debug, Clone)]
pub enum Literal {
    Str(String),
    Identifier(String),
}

/// Mathematical view of a `Literal`.
pub enum LiteralView {
    Str(Seq<char>),
    Identifier(Seq<char>),
}

impl View for Literal {
    type V = LiteralView;

    open spec fn view(&self) -> LiteralView {
        match self {
            Literal::Str(s) => LiteralView::Str(s@),
            Literal::Identifier(s) => LiteralView::Identifier(s@),
        }
    }
}

pub open spec fn literal_view(l: Option<Literal>) -> Option<LiteralView> {
    match l {
        Some(v) => Some(v@),
        None => None,
    }
}

/// A lexeme bundled with its classification, optional literal value and source line.
#[derive(Debug, Clone)]
pub struct Token {
    lexeme: String,
    kind: TokenKind,
    literal: Option<Literal>,
    line: usize,
}

/// Mathematical view of a `Token`.
pub struct TokenView {
    pub kind: TokenKind,
    pub lexeme: Seq<char>,
    pub literal: Option<LiteralView>,
    pub line: nat,
}

impl View for Token {
    type V = TokenView;

    closed spec fn view(&self) -> TokenView {
        TokenView {
            kind: self.kind,
            lexeme: self.lexeme@,
            literal: literal_view(self.literal),
            line: self.line as nat,
        }
    }
}

pub open spec fn token_views(ts: Seq<Token>) -> Seq<TokenView> {
    ts.map_values(|t: Token| t@)
}

/// Mathematical view of the result of a scan.
pub open spec fn scan_outcome(r: Result<Vec<Token>, LoxError>) -> Result<Seq<TokenView>, LoxErrorView> {
    match r {
        Ok(v) => Ok(token_views(v@)),
        Err(e) => Err(e@),
    }
}

// ---------------------------------------------------------------------------
// The lexical grammar, stated over sequences of characters.
// ---------------------------------------------------------------------------

/// Kind of a character that always forms a token on its own.
pub open spec fn single_char_kind(c: char) -> Option<TokenKind> {
    if c == '(' { Some(TokenKind::LeftParen) }
    else if c == ')' { Some(TokenKind::RightParen) }
    else if c == '{' { Some(TokenKind::LeftBrace) }
    else if c == '}' { Some(TokenKind::RightBrace) }
    else if c == ',' { Some(TokenKind::Comma) }
    else if c == '.' { Some(TokenKind::Dot) }
    else if c == '-' { Some(TokenKind::Minus) }
    else if c == '+' { Some(TokenKind::Plus) }
    else if c == ';' { Some(TokenKind::Semicolon) }
    else if c == '*' { Some(TokenKind::Star) }
    else { None }
}

/// For an operator character, its one-character kind and the kind it has when followed by `=`.
pub open spec fn operator_kinds(c: char) -> Option<(TokenKind, TokenKind)> {
    if c == '!' { Some((TokenKind::Bang, TokenKind::BangEqual)) }
    else if c == '=' { Some((TokenKind::Equal, TokenKind::EqualEqual)) }
    else if c == '<' { Some((TokenKind::Less, TokenKind::LessEqual)) }
    else if c == '>' { Some((TokenKind::Greater, TokenKind::GreaterEqual)) }
    else { None }
}

pub open spec fn is_blank(c: char) -> bool {
    c == ' ' || c == '\r' || c == '\t'
}

/// Number of newline characters in `s`.
pub open spec fn newlines(s: Seq<char>) -> nat
    decreases s.len(),
{
    if s.len() == 0 {
        0
    } else {
        newlines(s.drop_last()) + if s.last() == '\n' { 1nat } else { 0nat }
    }
}

/// Index of the first newline at or after `p`, or the length of `src` if there is none.
pub open spec fn line_end(src: Seq<char>, p: nat) -> nat
    decreases src.len() - p,
{
    if p >= src.len() || src[p as int] == '\n' {
        p
    } else {
        line_end(src, p + 1)
    }
}

/// Index of the first `"` at or after `p`, or the length of `src` if there is none.
pub open spec fn quote_end(src: Seq<char>, p: nat) -> nat
    decreases src.len() - p,
{
    if p >= src.len() || src[p as int] == '"' {
        p
    } else {
        quote_end(src, p + 1)
    }
}

pub open spec fn lexical_error(message: Seq<char>, line: nat) -> LoxErrorView {
    LoxErrorView { kind: LoxErrorKind::LexicalError, message, line }
}

/// The outcome of recognising one lexeme: where it ends, the line counter after it,
/// and the token it produces, if any.
pub struct LexStep {
    pub end: nat,
    pub line: nat,
    pub token: Option<TokenView>,
}

pub open spec fn plain_token(src: Seq<char>, pos: nat, end: nat, kind: TokenKind, line: nat) -> TokenView {
    TokenView { kind, lexeme: src.subrange(pos as int, end as int), literal: None, line }
}

/// Recognises the lexeme that starts at `pos` (which must be inside `src`), on line `line`.
pub open spec fn lex_step(src: Seq<char>, pos: nat, line: nat) -> Result<LexStep, LoxErrorView> {
    let c = src[pos as int];
    if single_char_kind(c) is Some {
        Ok(LexStep {
            end: pos + 1,
            line,
            token: Some(plain_token(src, pos, pos + 1, single_char_kind(c)->0, line)),
        })
    } else if operator_kinds(c) is Some {
        let two = pos + 1 < src.len() && src[pos + 1 as int] == '=';
        let end = if two { pos + 2 } else { pos + 1 };
        let (short, long) = operator_kinds(c)->0;
        let kind = if two { long } else { short };
        Ok(LexStep { end, line, token: Some(plain_token(src, pos, end, kind, line)) })
    } else if c == '/' {
        if pos + 1 < src.len() && src[pos + 1 as int] == '/' {
            Ok(LexStep { end: line_end(src, pos + 2), line, token: None })
        } else {
            Ok(LexStep {
                end: pos + 1,
                line,
                token: Some(plain_token(src, pos, pos + 1, TokenKind::Slash, line)),
            })
        }
    } else if is_blank(c) {
        Ok(LexStep { end: pos + 1, line, token: None })
    } else if c == '\n' {
        Ok(LexStep { end: pos + 1, line: line + 1, token: None })
    } else if c == '"' {
        let close = quote_end(src, pos + 1);
        let after = line + newlines(src.subrange(pos + 1 as int, close as int));
        if close >= src.len() {
            Err(lexical_error("Unterminated string."@, after))
        } else {
            Ok(LexStep {
                end: close + 1,
                line: after,
                token: Some(TokenView {
                    kind: TokenKind::Str,
                    lexeme: src.subrange(pos as int, close + 1 as int),
                    literal: Some(LiteralView::Str(src.subrange(pos + 1 as int, close as int))),
                    line,
                }),
            })
        }
    } else {
        Err(lexical_error("Unexpected character."@, line))
    }
}

pub open spec fn push_token(acc: Seq<TokenView>, t: Option<TokenView>) -> Seq<TokenView> {
    match t {
        Some(t) => acc.push(t),
        None => acc,
    }
}

pub open spec fn eof_token(line: nat) -> TokenView {
    TokenView { kind: TokenKind::EOF, lexeme: Seq::empty(), literal: None, line }
}

/// Scanning `src` from `pos` on line `line`, with `acc` already produced: either every
/// token, ending with the end-of-input token, or the first lexical error.
pub open spec fn scan_from(src: Seq<char>, pos: nat, line: nat, acc: Seq<TokenView>) -> Result<
    Seq<TokenView>,
    LoxErrorView,
>
    decreases src.len() - pos,
{
    if pos >= src.len() {
        Ok(acc.push(eof_token(line)))
    } else {
        match lex_step(src, pos, line) {
            Err(e) => Err(e),
            Ok(st) => {
                proof {
                    lemma_lex_step_advances(src, pos, line);
                }
                scan_from(src, st.end, st.line, push_token(acc, st.token))
            },
        }
    }
}

/// The result of scanning the whole of `src`.
pub open spec fn scan(src: Seq<char>) -> Result<Seq<TokenView>, LoxErrorView> {
    scan_from(src, 0, 1, Seq::empty())
}

pub proof fn lemma_line_end_bounds(src: Seq<char>, p: nat)
    requires
        p <= src.len(),
    ensures
        p <= line_end(src, p) <= src.len(),
    decreases src.len() - p,
{
    if p < src.len() && src[p as int] != '\n' {
        lemma_line_end_bounds(src, p + 1);
    }
}

pub proof fn lemma_quote_end_bounds(src: Seq<char>, p: nat)
    requires
        p <= src.len(),
    ensures
        p <= quote_end(src, p) <= src.len(),
    decreases src.len() - p,
{
    if p < src.len() && src[p as int] != '"' {
        lemma_quote_end_bounds(src, p + 1);
    }
}

/// Every recognised lexeme is non-empty and stays inside the source.
pub proof fn lemma_lex_step_advances(src: Seq<char>, pos: nat, line: nat)
    requires
        pos < src.len(),
    ensures
        lex_step(src, pos, line) matches Ok(st) ==> pos < st.end <= src.len(),
{
    if pos + 2 <= src.len() {
        lemma_line_end_bounds(src, pos + 2);
    }
    lemma_quote_end_bounds(src, pos + 1);
}

/// Appending one character adds one to the newline count exactly when it is a newline.
pub proof fn lemma_newlines_extend(s: Seq<char>, a: int, i: int)
    requires
        0 <= a <= i < s.len(),
    ensures
        newlines(s.subrange(a, i + 1)) == newlines(s.subrange(a, i)) + if s[i] == '\n' {
            1nat
        } else {
            0nat
        },
{
    assert(s.subrange(a, i + 1).drop_last() =~= s.subrange(a, i));
}

pub proof fn lemma_newlines_bound(s: Seq<char>)
    ensures
        newlines(s) <= s.len(),
    decreases s.len(),
{
    if s.len() > 0 {
        lemma_newlines_bound(s.drop_last());
    }
}

// ---------------------------------------------------------------------------
// Tokens.
// ---------------------------------------------------------------------------

impl Token {
    pub fn new(kind: TokenKind, lexeme: &str, literal: Option<Literal>, line: usize) -> (r: Token)
        ensures
            r@ == (TokenView {
                kind,
                lexeme: lexeme@,
                literal: literal_view(literal),
                line: line as nat,
            }),
    {
        Token { lexeme: String::from_str(lexeme), kind, literal, line }
    }

    pub fn kind(&self) -> (r: TokenKind)
        ensures
            r == self@.kind,
    {
        self.kind
    }

    pub fn lexeme(&self) -> (r: &str)
        ensures
            r@ == self@.lexeme,
    {
        self.lexeme.as_str()
    }

    pub fn literal(&self) -> (r: &Option<Literal>)
        ensures
            literal_view(*r) == self@.literal,
    {
        &self.literal
    }

    pub fn line(&self) -> (r: usize)
        ensures
            r as nat == self@.line,
    {
        self.line
    }

    fn duplicate(&self) -> (r: Token)
        ensures
            r@ == self@,
    {
        let literal = match &self.literal {
            Some(Literal::Str(s)) => Some(Literal::Str(s.clone())),
            Some(Literal::Identifier(s)) => Some(Literal::Identifier(s.clone())),
            None => None,
        };
        Token { lexeme: self.lexeme.clone(), kind: self.kind, literal, line: self.line }
    }
}

fn copy_tokens(ts: &Vec<Token>) -> (r: Vec<Token>)
    ensures
        token_views(r@) == token_views(ts@),
{
    let mut r: Vec<Token> = Vec::new();
    let mut i: usize = 0;
    while i < ts.len()
        invariant
            i <= ts.len(),
            token_views(r@) == token_views(ts@.subrange(0, i as int)),
        decreases ts.len() - i,
    {
        let t = ts[i].duplicate();
        let ghost before = r@;
        r.push(t);
        proof {
            assert(ts@.subrange(0, i + 1) =~= ts@.subrange(0, i as int).push(ts@[i as int]));
            assert(token_views(r@) =~= token_views(before).push(t@));
            assert(token_views(ts@.subrange(0, i + 1)) =~= token_views(
                ts@.subrange(0, i as int),
            ).push(ts@[i as int]@));
        }
        i += 1;
    }
    assert(ts@.subrange(0, ts@.len() as int) =~= ts@);
    r
}

// ---------------------------------------------------------------------------
// The scanner.
// ---------------------------------------------------------------------------

/// Turns source text into tokens, one lexeme at a time.
pub struct Scanner {
    source: String,
    tokens: Vec<Token>,
    start: usize,
    current: usize,
    line: usize,
    length: usize,
}

/// Mathematical view of a `Scanner`: the source, the tokens produced so far,
/// the index of the next unread character and the line counter.
pub struct ScannerView {
    pub source: Seq<char>,
    pub tokens: Seq<TokenView>,
    pub current: nat,
    pub line: nat,
}

impl View for Scanner {
    type V = ScannerView;

    closed spec fn view(&self) -> ScannerView {
        ScannerView {
            source: self.source@,
            tokens: token_views(self.tokens@),
            current: self.current as nat,
            line: self.line as nat,
        }
    }
}

impl Scanner {
    spec fn cursor_ok(&self) -> bool {
        &&& self.length == self.source@.len()
        &&& self.length < usize::MAX
        &&& self.start <= self.current <= self.length
    }

    /// The cursor lies inside the source and the line counter is one more than the
    /// number of newlines already read.
    pub closed spec fn wf(&self) -> bool {
        &&& self.cursor_ok()
        &&& self.line == 1 + newlines(self.source@.subrange(0, self.current as int))
    }

    pub fn new(source: &str) -> (r: Scanner)
        requires
            source@.len() < usize::MAX,
        ensures
            r.wf(),
            r@ == (ScannerView { source: source@, tokens: Seq::empty(), current: 0, line: 1 }),
    {
        let length = source.unicode_len();
        let r = Scanner {
            source: String::from_str(source),
            tokens: Vec::new(),
            start: 0,
            current: 0,
            line: 1,
            length,
        };
        assert(r.source@.subrange(0, 0) =~= Seq::<char>::empty());
        assert(token_views(r.tokens@) =~= Seq::<TokenView>::empty());
        r
    }

    /// Scans the rest of the source: every token up to the end-of-input token, or
    /// the first lexical error.
    pub fn scan_tokens(&mut self) -> (r: Result<Vec<Token>, LoxError>)
        requires
            old(self).wf(),
        ensures
            final(self).wf(),
            final(self)@.source == old(self)@.source,
            scan_outcome(r) == scan_from(
                old(self)@.source,
                old(self)@.current,
                old(self)@.line,
                old(self)@.tokens,
            ),
    {
        let ghost src = self@.source;
        while !self.is_at_end()
            invariant
                self.wf(),
                self@.source == src,
                src == old(self)@.source,
                scan_from(src, self@.current, self@.line, self@.tokens) == scan_from(
                    src,
                    old(self)@.current,
                    old(self)@.line,
                    old(self)@.tokens,
                ),
            decreases self.length - self.current,
        {
            self.start = self.current;
            proof {
                lemma_lex_step_advances(src, self@.current, self@.line);
            }
            match self.scan_token() {
                Ok(()) => {},
                Err(e) => {
                    return Err(e);
                },
            }
        }
        let eof = Token::new(TokenKind::EOF, "", None, self.line);
        proof {
            reveal_strlit("");
        }
        assert(eof@.lexeme =~= Seq::<char>::empty());
        assert(eof@ == eof_token(self@.line));
        let ghost before = self@.tokens;
        self.tokens.push(eof);
        assert(self@.tokens =~= before.push(eof_token(self@.line)));
        Ok(copy_tokens(&self.tokens))
    }

    fn scan_token(&mut self) -> (r: Result<(), LoxError>)
        requires
            old(self).wf(),
            old(self).start == old(self).current,
            old(self).current < old(self).length,
        ensures
            final(self).wf(),
            final(self)@.source == old(self)@.source,
            match lex_step(old(self)@.source, old(self)@.current, old(self)@.line) {
                Ok(st) => r is Ok && final(self)@.current == st.end && final(self)@.line == st.line
                    && final(self)@.tokens == push_token(old(self)@.tokens, st.token),
                Err(e) => r matches Err(err) && err@ == e,
            },
    {
        let ghost src = self@.source;
        let line = self.line;
        let c = self.advance_current();
        if c == '(' {
            self.add_token(TokenKind::LeftParen, None, line);
        } else if c == ')' {
            self.add_token(TokenKind::RightParen, None, line);
        } else if c == '{' {
            self.add_token(TokenKind::LeftBrace, None, line);
        } else if c == '}' {
            self.add_token(TokenKind::RightBrace, None, line);
        } else if c == ',' {
            self.add_token(TokenKind::Comma, None, line);
        } else if c == '.' {
            self.add_token(TokenKind::Dot, None, line);
        } else if c == '-' {
            self.add_token(TokenKind::Minus, None, line);
        } else if c == '+' {
            self.add_token(TokenKind::Plus, None, line);
        } else if c == ';' {
            self.add_token(TokenKind::Semicolon, None, line);
        } else if c == '*' {
            self.add_token(TokenKind::Star, None, line);
        } else if c == '!' {
            let kind = if self.match_current('=') { TokenKind::BangEqual } else { TokenKind::Bang };
            self.add_token(kind, None, line);
        } else if c == '=' {
            let kind = if self.match_current('=') { TokenKind::EqualEqual } else { TokenKind::Equal };
            self.add_token(kind, None, line);
        } else if c == '<' {
            let kind = if self.match_current('=') { TokenKind::LessEqual } else { TokenKind::Less };
            self.add_token(kind, None, line);
        } else if c == '>' {
            let kind = if self.match_current('=') {
                TokenKind::GreaterEqual
            } else {
                TokenKind::Greater
            };
            self.add_token(kind, None, line);
        } else if c == '/' {
            if self.match_current('/') {
                self.skip_comment();
            } else {
                self.add_token(TokenKind::Slash, None, line);
            }
        } else if c == ' ' || c == '\r' || c == '\t' {
        } else if c == '\n' {
            proof {
                lemma_newlines_bound(src.subrange(0, self.current as int));
            }
            self.line += 1;
        } else if c == '"' {
            return self.string(line);
        } else {
            return Err(LoxError::new(LoxErrorKind::LexicalError, "Unexpected character.", line));
        }
        Ok(())
    }

    /// Consumes the rest of a line comment, up to but not including the newline.
    fn skip_comment(&mut self)
        requires
            old(self).wf(),
            old(self).current <= old(self).length,
        ensures
            final(self).wf(),
            final(self)@.source == old(self)@.source,
            final(self)@.tokens == old(self)@.tokens,
            final(self)@.line == old(self)@.line,
            final(self).start == old(self).start,
            final(self)@.current == line_end(old(self)@.source, old(self)@.current),
    {
        let ghost src = self@.source;
        let ghost from = self@.current;
        while self.lookahead() != '\n' && !self.is_at_end()
            invariant
                self.wf(),
                self@.source == src,
                self@.tokens == old(self)@.tokens,
                self@.line == old(self)@.line,
                self.start == old(self).start,
                from <= self.current,
                line_end(src, self@.current) == line_end(src, from),
            decreases self.length - self.current,
        {
            self.advance_current();
        }
    }

    /// Reads a string literal whose opening quote has just been consumed on line `line`.
    fn string(&mut self, line: usize) -> (r: Result<(), LoxError>)
        requires
            old(self).wf(),
            old(self).current == old(self).start + 1,
            old(self).current <= old(self).length,
            old(self)@.source[old(self).start as int] == '"',
            old(self).line == line,
        ensures
            final(self).wf(),
            final(self)@.source == old(self)@.source,
            ({
                let src = old(self)@.source;
                let close = quote_end(src, old(self)@.current);
                let after = line as nat + newlines(src.subrange(old(self).current as int, close as int));
                if close >= src.len() {
                    r matches Err(err) && err@ == lexical_error("Unterminated string."@, after)
                } else {
                    r is Ok && final(self)@.current == close + 1 && final(self)@.line == after
                        && final(self)@.tokens == old(self)@.tokens.push(
                        TokenView {
                            kind: TokenKind::Str,
                            lexeme: src.subrange(old(self).start as int, close + 1 as int),
                            literal: Some(LiteralView::Str(src.subrange(old(self).current as int, close as int))),
                            line: line as nat,
                        },
                    )
                }
            }),
    {
        let ghost src = self@.source;
        let ghost from = self.current;
        while self.lookahead() != '"' && !self.is_at_end()
            invariant
                self.wf(),
                self@.source == src,
                self@.tokens == old(self)@.tokens,
                self.start == old(self).start,
                from <= self.current,
                quote_end(src, self@.current) == quote_end(src, from as nat),
                self.line == line + newlines(src.subrange(from as int, self.current as int)),
            decreases self.length - self.current,
        {
            proof {
                lemma_newlines_extend(src, from as int, self.current as int);
                lemma_newlines_bound(src.subrange(0, self.current as int));
            }
            if self.lookahead() == '\n' {
                self.line += 1;
            }
            self.advance_current();
        }
        if self.is_at_end() {
            return Err(LoxError::new(LoxErrorKind::LexicalError, "Unterminated string.", self.line));
        }
        self.advance_current();
        let value = self.source.as_str().substring_char(self.start + 1, self.current - 1);
        let value = Literal::Str(String::from_str(value));
        self.add_token(TokenKind::Str, Some(value), line);
        Ok(())
    }

    /// Appends a token whose lexeme runs from `start` to `current`.
    fn add_token(&mut self, kind: TokenKind, literal: Option<Literal>, line: usize)
        requires
            old(self).cursor_ok(),
        ensures
            final(self).source == old(self).source,
            final(self).start == old(self).start,
            final(self).current == old(self).current,
            final(self).line == old(self).line,
            final(self).length == old(self).length,
            final(self)@.tokens == old(self)@.tokens.push(
                TokenView {
                    kind,
                    lexeme: old(self)@.source.subrange(old(self).start as int, old(self).current as int),
                    literal: literal_view(literal),
                    line: line as nat,
                },
            ),
    {
        let text = self.source.as_str().substring_char(self.start, self.current);
        let t = Token::new(kind, text, literal, line);
        self.tokens.push(t);
        assert(token_views(self.tokens@) =~= token_views(old(self).tokens@).push(t@));
    }

    /// Consumes and returns the next character.
    fn advance_current(&mut self) -> (r: char)
        requires
            old(self).cursor_ok(),
            old(self).current < old(self).length,
        ensures
            final(self).cursor_ok(),
            r == old(self)@.source[old(self).current as int],
            final(self).current == old(self).current + 1,
            final(self).source == old(self).source,
            final(self).tokens == old(self).tokens,
            final(self).start == old(self).start,
            final(self).line == old(self).line,
            newlines(final(self)@.source.subrange(0, final(self).current as int)) == newlines(
                old(self)@.source.subrange(0, old(self).current as int),
            ) + if r == '\n' { 1nat } else { 0nat },
    {
        proof {
            lemma_newlines_extend(self@.source, 0, self.current as int);
        }
        self.current += 1;
        self.source.as_str().get_char(self.current - 1)
    }

    /// Consumes the next character only when it is `expected`.
    fn match_current(&mut self, expected: char) -> (r: bool)
        requires
            old(self).cursor_ok(),
        ensures
            final(self).cursor_ok(),
            r == (old(self).current < old(self).length
                && old(self)@.source[old(self).current as int] == expected),
            final(self).current == if r { old(self).current + 1 } else { old(self).current as int },
            final(self).source == old(self).source,
            final(self).tokens == old(self).tokens,
            final(self).start == old(self).start,
            final(self).line == old(self).line,
            r ==> newlines(final(self)@.source.subrange(0, final(self).current as int)) == newlines(
                old(self)@.source.subrange(0, old(self).current as int),
            ) + if expected == '\n' { 1nat } else { 0nat },
    {
        if self.is_at_end() {
            return false;
        }
        proof {
            lemma_newlines_extend(self@.source, 0, self.current as int);
        }
        if self.source.as_str().get_char(self.current) != expected {
            return false;
        }
        self.current += 1;
        true
    }

    /// The next character without consuming it, or `'\0'` at the end of the source.
    fn lookahead(&self) -> (r: char)
        requires
            self.cursor_ok(),
        ensures
            self.current < self.length ==> r == self@.source[self.current as int],
            self.current >= self.length ==> r == '\0',
    {
        if self.is_at_end() {
            return '\0';
        }
        self.source.as_str().get_char(self.current)
    }

    fn is_at_end(&self) -> (r: bool)
        ensures
            r == (self.current >= self.length),
    {
        self.current >= self.length
    }
}

// ---------------------------------------------------------------------------
// Text form of tokens.
// ---------------------------------------------------------------------------

/// Name of a token kind.
pub open spec fn kind_name(k: TokenKind) -> Seq<char> {
    match k {
        TokenKind::LeftParen => "LeftParen"@,
        TokenKind::RightParen => "RightParen"@,
        TokenKind::LeftBrace => "LeftBrace"@,
        TokenKind::RightBrace => "RightBrace"@,
        TokenKind::Comma => "Comma"@,
        TokenKind::Dot => "Dot"@,
        TokenKind::Minus => "Minus"@,
        TokenKind::Plus => "Plus"@,
        TokenKind::Semicolon => "Semicolon"@,
        TokenKind::Slash => "Slash"@,
        TokenKind::Star => "Star"@,
        TokenKind::Bang => "Bang"@,
        TokenKind::BangEqual => "BangEqual"@,
        TokenKind::Equal => "Equal"@,
        TokenKind::EqualEqual => "EqualEqual"@,
        TokenKind::Greater => "Greater"@,
        TokenKind::GreaterEqual => "GreaterEqual"@,
        TokenKind::Less => "Less"@,
        TokenKind::LessEqual => "LessEqual"@,
        TokenKind::Identifier => "Identifier"@,
        TokenKind::Str => "Str"@,
        TokenKind::Number => "Number"@,
        TokenKind::And => "And"@,
        TokenKind::Class => "Class"@,
        TokenKind::Else => "Else"@,
        TokenKind::False => "False"@,
        TokenKind::Fun => "Fun"@,
        TokenKind::For => "For"@,
        TokenKind::If => "If"@,
        TokenKind::Nil => "Nil"@,
        TokenKind::Or => "Or"@,
        TokenKind::Print => "Print"@,
        TokenKind::Return => "Return"@,
        TokenKind::Super => "Super"@,
        TokenKind::This => "This"@,
        TokenKind::True => "True"@,
        TokenKind::Var => "Var"@,
        TokenKind::While => "While"@,
        TokenKind::EOF => "EOF"@,
    }
}

fn kind_str(k: TokenKind) -> (r: &'static str)
    ensures
        r@ == kind_name(k),
{
    match k {
        TokenKind::LeftParen => "LeftParen",
        TokenKind::RightParen => "RightParen",
        TokenKind::LeftBrace => "LeftBrace",
        TokenKind::RightBrace => "RightBrace",
        TokenKind::Comma => "Comma",
        TokenKind::Dot => "Dot",
        TokenKind::Minus => "Minus",
        TokenKind::Plus => "Plus",
        TokenKind::Semicolon => "Semicolon",
        TokenKind::Slash => "Slash",
        TokenKind::Star => "Star",
        TokenKind::Bang => "Bang",
        TokenKind::BangEqual => "BangEqual",
        TokenKind::Equal => "Equal",
        TokenKind::EqualEqual => "EqualEqual",
        TokenKind::Greater => "Greater",
        TokenKind::GreaterEqual => "GreaterEqual",
        TokenKind::Less => "Less",
        TokenKind::LessEqual => "LessEqual",
        TokenKind::Identifier => "Identifier",
        TokenKind::Str => "Str",
        TokenKind::Number => "Number",
        TokenKind::And => "And",
        TokenKind::Class => "Class",
        TokenKind::Else => "Else",
        TokenKind::False => "False",
        TokenKind::Fun => "Fun",
        TokenKind::For => "For",
        TokenKind::If => "If",
        TokenKind::Nil => "Nil",
        TokenKind::Or => "Or",
        TokenKind::Print => "Print",
        TokenKind::Return => "Return",
        TokenKind::Super => "Super",
        TokenKind::This => "This",
        TokenKind::True => "True",
        TokenKind::Var => "Var",
        TokenKind::While => "While",
        TokenKind::EOF => "EOF",
    }
}

/// The quoted form of a text, with special characters escaped.
pub uninterp spec fn debug_quoted(s: Seq<char>) -> Seq<char>;

/// Relies on `<str as core::fmt::Debug>::fmt`, through `format!`, for the quoted and
/// escaped form of `s`; that form depends on the characters of `s` alone.
#[verifier::external_body]
fn quoted(s: &str) -> (r: String)
    ensures
        r@ == debug_quoted(s@),
{
    format!("{:?}", s)
}

/// Text form of an optional literal value.
pub open spec fn literal_text(l: Option<LiteralView>) -> Seq<char> {
    match l {
        None => "None"@,
        Some(LiteralView::Str(s)) => "Some(Str("@ + debug_quoted(s) + "))"@,
        Some(LiteralView::Identifier(s)) => "Some(Identifier("@ + debug_quoted(s) + "))"@,
    }
}

/// Text form of a token: its kind, its lexeme and its literal value, separated by spaces.
pub open spec fn token_text(t: TokenView) -> Seq<char> {
    kind_name(t.kind) + " "@ + t.lexeme + " "@ + literal_text(t.literal)
}

impl Token {
    pub fn to_string(&self) -> (r: String)
        ensures
            r@ == token_text(self@),
    {
        let mut r = String::from_str(kind_str(self.kind));
        r.append(" ");
        r.append(self.lexeme.as_str());
        r.append(" ");
        match &self.literal {
            None => r.append("None"),
            Some(Literal::Str(s)) => {
                r.append("Some(Str(");
                let q = quoted(s.as_str());
                r.append(q.as_str());
                r.append("))");
            },
            Some(Literal::Identifier(s)) => {
                r.append("Some(Identifier(");
                let q = quoted(s.as_str());
                r.append(q.as_str());
                r.append("))");
            },
        }
        r
    }
}

} // verus!
