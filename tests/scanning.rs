use rlox1::{ternary, Literal, LoxErrorKind, Rlox1, Scanner, Token, TokenKind};

fn scan(source: &str) -> Vec<Token> {
    Scanner::new(source).scan_tokens().expect("scan should succeed")
}

fn kinds(tokens: &[Token]) -> Vec<TokenKind> {
    tokens.iter().map(|t| t.kind()).collect()
}

#[test]
fn empty_input_yields_only_end_of_input() {
    let tokens = scan("");
    assert_eq!(tokens.len(), 1);
    assert_eq!(tokens[0].kind(), TokenKind::EOF);
    assert_eq!(tokens[0].lexeme(), "");
    assert_eq!(tokens[0].line(), 1);
    assert!(tokens[0].literal().is_none());
}

#[test]
fn spaced_punctuation_gives_one_token_per_character() {
    let source = "( ) { } , . - + ; * /";
    let tokens = scan(source);
    let non_space = source.chars().filter(|c| !c.is_whitespace()).count();
    assert_eq!(tokens.len(), non_space + 1);
    assert_eq!(
        kinds(&tokens),
        vec![
            TokenKind::LeftParen,
            TokenKind::RightParen,
            TokenKind::LeftBrace,
            TokenKind::RightBrace,
            TokenKind::Comma,
            TokenKind::Dot,
            TokenKind::Minus,
            TokenKind::Plus,
            TokenKind::Semicolon,
            TokenKind::Star,
            TokenKind::Slash,
            TokenKind::EOF,
        ]
    );
}

#[test]
fn punctuation_across_lines_and_tabs() {
    let tokens = scan("(\t)\r\n;\n\n*");
    assert_eq!(tokens.len(), 5);
    let lines: Vec<usize> = tokens.iter().map(|t| t.line()).collect();
    assert_eq!(lines, vec![1, 1, 2, 4, 4]);
}

#[test]
fn two_character_operators() {
    for (text, kind) in [
        ("!=", TokenKind::BangEqual),
        ("==", TokenKind::EqualEqual),
        ("<=", TokenKind::LessEqual),
        (">=", TokenKind::GreaterEqual),
    ] {
        let tokens = scan(text);
        assert_eq!(tokens.len(), 2, "{}", text);
        assert_eq!(tokens[0].kind(), kind);
        assert_eq!(tokens[0].lexeme(), text);
        assert_eq!(tokens[1].kind(), TokenKind::EOF);
    }
}

#[test]
fn one_character_operators() {
    let tokens = scan("! = < >");
    assert_eq!(
        kinds(&tokens),
        vec![TokenKind::Bang, TokenKind::Equal, TokenKind::Less, TokenKind::Greater, TokenKind::EOF]
    );
    let tokens = scan("!!=");
    assert_eq!(kinds(&tokens), vec![TokenKind::Bang, TokenKind::BangEqual, TokenKind::EOF]);
    let tokens = scan("===");
    assert_eq!(kinds(&tokens), vec![TokenKind::EqualEqual, TokenKind::Equal, TokenKind::EOF]);
}

#[test]
fn comment_then_code_is_one_line_further() {
    let tokens = scan("( // a comment ( ) \"\n)");
    assert_eq!(kinds(&tokens), vec![TokenKind::LeftParen, TokenKind::RightParen, TokenKind::EOF]);
    assert_eq!(tokens[0].line(), 1);
    assert_eq!(tokens[1].line(), 2);
    assert_eq!(tokens[2].line(), 2);
}

#[test]
fn comment_at_end_of_input_is_not_an_error() {
    let tokens = scan("+ // trailing");
    assert_eq!(kinds(&tokens), vec![TokenKind::Plus, TokenKind::EOF]);
    assert_eq!(tokens[1].line(), 1);
}

#[test]
fn single_slash_is_division() {
    let tokens = scan("/*/");
    assert_eq!(
        kinds(&tokens),
        vec![TokenKind::Slash, TokenKind::Star, TokenKind::Slash, TokenKind::EOF]
    );
}

#[test]
fn string_literal_value_and_lexeme() {
    let tokens = scan("\"foo\"");
    assert_eq!(tokens.len(), 2);
    assert_eq!(tokens[0].kind(), TokenKind::Str);
    assert_eq!(tokens[0].lexeme(), "\"foo\"");
    match tokens[0].literal() {
        Some(Literal::Str(s)) => assert_eq!(s, "foo"),
        other => panic!("unexpected literal {:?}", other),
    }
}

#[test]
fn multiline_string_keeps_starting_line() {
    let tokens = scan("+\n\"a\nb\nc\" ;");
    assert_eq!(kinds(&tokens), vec![TokenKind::Plus, TokenKind::Str, TokenKind::Semicolon, TokenKind::EOF]);
    assert_eq!(tokens[1].line(), 2);
    assert_eq!(tokens[1].lexeme(), "\"a\nb\nc\"");
    match tokens[1].literal() {
        Some(Literal::Str(s)) => assert_eq!(s, "a\nb\nc"),
        other => panic!("unexpected literal {:?}", other),
    }
    assert_eq!(tokens[2].line(), 4);
    assert_eq!(tokens[3].line(), 4);
}

#[test]
fn string_with_multibyte_characters() {
    let tokens = scan("\"héllo→\" .");
    assert_eq!(tokens[0].lexeme(), "\"héllo→\"");
    match tokens[0].literal() {
        Some(Literal::Str(s)) => assert_eq!(s, "héllo→"),
        other => panic!("unexpected literal {:?}", other),
    }
    assert_eq!(tokens[1].kind(), TokenKind::Dot);
    assert_eq!(tokens[1].lexeme(), ".");
}

#[test]
fn unterminated_string_is_reported() {
    let err = Scanner::new("\"abc").scan_tokens().unwrap_err();
    assert_eq!(err.message, "Unterminated string.");
    assert_eq!(err.kind, LoxErrorKind::LexicalError);
    assert_eq!(err.line, 1);
}

#[test]
fn unterminated_string_reports_line_of_end_of_input() {
    let err = Scanner::new("(\n\"abc\ndef\n").scan_tokens().unwrap_err();
    assert_eq!(err.message, "Unterminated string.");
    assert_eq!(err.line, 4);
}

#[test]
fn unexpected_character_is_reported() {
    let err = Scanner::new("@").scan_tokens().unwrap_err();
    assert_eq!(err.message, "Unexpected character.");
    assert_eq!(err.kind, LoxErrorKind::LexicalError);
    assert_eq!(err.line, 1);
}

#[test]
fn unexpected_character_after_tokens() {
    let err = Scanner::new("( )\n+ @ -").scan_tokens().unwrap_err();
    assert_eq!(err.message, "Unexpected character.");
    assert_eq!(err.line, 2);
    let err = Scanner::new("abc").scan_tokens().unwrap_err();
    assert_eq!(err.message, "Unexpected character.");
}

#[test]
fn scanning_twice_gives_identical_tokens() {
    let source = "( \"x\ny\" ) // c\n!= ;";
    let first = scan(source);
    let second = scan(source);
    let text = |ts: &[Token]| -> Vec<(String, usize)> {
        ts.iter().map(|t| (t.to_string(), t.line())).collect()
    };
    assert_eq!(text(&first), text(&second));
    assert_eq!(first.len(), 6);
}

#[test]
fn token_text_form() {
    let tokens = scan("( \"hi\"");
    assert_eq!(tokens[0].to_string(), "LeftParen ( None");
    assert_eq!(tokens[1].to_string(), "Str \"hi\" Some(Str(\"hi\"))");
    assert_eq!(tokens[2].to_string(), "EOF  None");
    let t = Token::new(TokenKind::Identifier, "x", Some(Literal::Identifier(String::from("a\"b"))), 3);
    assert_eq!(t.to_string(), "Identifier x Some(Identifier(\"a\\\"b\"))");
    assert_eq!(t.line(), 3);
}

#[test]
fn token_text_escapes_newlines() {
    let tokens = scan("\"a\nb\"");
    assert_eq!(tokens[0].to_string(), "Str \"a\nb\" Some(Str(\"a\\nb\"))");
}

#[test]
fn scanning_again_appends_another_end_of_input() {
    let mut scanner = Scanner::new("+");
    let first = scanner.scan_tokens().unwrap();
    assert_eq!(first.len(), 2);
    let second = scanner.scan_tokens().unwrap();
    assert_eq!(kinds(&second), vec![TokenKind::Plus, TokenKind::EOF, TokenKind::EOF]);
}

#[test]
fn ternary_picks_by_condition() {
    assert_eq!(ternary(true, 1, 2), 1);
    assert_eq!(ternary(false, "a", "b"), "b");
}

#[test]
fn session_records_errors() {
    let mut session = Rlox1::new();
    assert!(!session.has_error());
    let tokens = session.run("( )").unwrap();
    assert_eq!(tokens.len(), 3);
    assert!(!session.has_error());
    let err = session.run("#").unwrap_err();
    assert_eq!(err.message, "Unexpected character.");
    assert!(session.has_error());
    session.clear_error();
    assert!(!session.has_error());
    session.error(7, LoxErrorKind::LexicalError, "boom");
    assert!(session.has_error());
}

#[test]
fn error_constructor_keeps_fields() {
    let e = rlox1::LoxError::new(LoxErrorKind::LexicalError, "msg", 9);
    assert_eq!(e.message, "msg");
    assert_eq!(e.line, 9);
    assert_eq!(e.kind, LoxErrorKind::LexicalError);
}
