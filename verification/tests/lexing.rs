use lox_front::lexer::{LexErrorKind, LexFailure, Lexer};
use lox_front::token::{Token, TokenKind};

fn lex(src: &str) -> Result<Vec<Token>, LexFailure> {
    let mut lx = Lexer::new(String::from(src));
    lx.scan_tokens()
}

fn lex_ok(src: &str) -> Vec<Token> {
    match lex(src) {
        Ok(ts) => ts,
        Err(f) => panic!("lexing {:?} failed: {:?}", src, f),
    }
}

#[test]
fn integer_literal_yields_one_number_token() {
    let ts = lex_ok("3");
    assert_eq!(ts.len(), 2);
    assert_eq!(ts[0].kind, TokenKind::Number(String::from("3")));
    assert_eq!(ts[0].lexeme, "3");
    assert_eq!(ts[0].line, 1);
    assert_eq!(ts[1].kind, TokenKind::Eof);
    assert_eq!(ts[1].line, 1);
    if let TokenKind::Number(text) = &ts[0].kind {
        let value: f64 = text.parse().unwrap();
        assert_eq!(value, 3.0);
    }
}

#[test]
fn fraction_literal_yields_one_number_token() {
    let ts = lex_ok("12.5");
    assert_eq!(ts.len(), 2);
    assert_eq!(ts[0].kind, TokenKind::Number(String::from("12.5")));
    if let TokenKind::Number(text) = &ts[0].kind {
        let value: f64 = text.parse().unwrap();
        assert_eq!(value, 12.5);
    }
}

#[test]
fn decimal_point_needs_a_following_digit() {
    let ts = lex_ok("7.");
    assert_eq!(ts.len(), 3);
    assert_eq!(ts[0].kind, TokenKind::Number(String::from("7")));
    assert_eq!(ts[1].kind, TokenKind::Dot);
    assert_eq!(ts[2].kind, TokenKind::Eof);
}

#[test]
fn string_literal_payload_excludes_quotes() {
    let ts = lex_ok("\"hi\"");
    assert_eq!(ts.len(), 2);
    assert_eq!(ts[0].kind, TokenKind::StrLit(String::from("hi")));
    assert_eq!(ts[0].lexeme, "\"hi\"");
    assert_eq!(ts[0].line, 1);
}

#[test]
fn string_literal_may_span_lines() {
    let ts = lex_ok("\"a\nb\"");
    assert_eq!(ts.len(), 2);
    assert_eq!(ts[0].kind, TokenKind::StrLit(String::from("a\nb")));
    assert_eq!(ts[0].line, 2);
    assert_eq!(ts[1].line, 2);
}

#[test]
fn reserved_words_never_become_identifiers() {
    let cases: Vec<(&str, TokenKind)> = vec![
        ("and", TokenKind::And),
        ("class", TokenKind::Class),
        ("else", TokenKind::Else),
        ("false", TokenKind::False),
        ("for", TokenKind::For),
        ("fun", TokenKind::Fun),
        ("if", TokenKind::If),
        ("nil", TokenKind::Nil),
        ("or", TokenKind::Or),
        ("print", TokenKind::Print),
        ("return", TokenKind::Return),
        ("super", TokenKind::Super),
        ("this", TokenKind::This),
        ("true", TokenKind::True),
        ("var", TokenKind::Var),
        ("while", TokenKind::While),
    ];
    for (word, kind) in cases {
        let ts = lex_ok(word);
        assert_eq!(ts.len(), 2);
        assert_eq!(ts[0].kind, kind);
        assert!(!matches!(ts[0].kind, TokenKind::Identifier(_)));
    }
}

#[test]
fn near_keywords_are_identifiers() {
    let ts = lex_ok("printx");
    assert_eq!(ts[0].kind, TokenKind::Identifier(String::from("printx")));
    let ts = lex_ok("_foo2");
    assert_eq!(ts[0].kind, TokenKind::Identifier(String::from("_foo2")));
    let ts = lex_ok("Print");
    assert_eq!(ts[0].kind, TokenKind::Identifier(String::from("Print")));
}

#[test]
fn operators_and_punctuation_kinds() {
    let ts = lex_ok("!= == <= >= ! = < > + - * / ( ) { } , . ;");
    let expected = vec![
        TokenKind::BangEqual,
        TokenKind::EqualEqual,
        TokenKind::LessEqual,
        TokenKind::GreaterEqual,
        TokenKind::Bang,
        TokenKind::Equal,
        TokenKind::Less,
        TokenKind::Greater,
        TokenKind::Plus,
        TokenKind::Minus,
        TokenKind::Star,
        TokenKind::Slash,
        TokenKind::LeftParen,
        TokenKind::RightParen,
        TokenKind::LeftBrace,
        TokenKind::RightBrace,
        TokenKind::Comma,
        TokenKind::Dot,
        TokenKind::Semicolon,
        TokenKind::Eof,
    ];
    let kinds: Vec<TokenKind> = ts.into_iter().map(|t| t.kind).collect();
    assert_eq!(kinds, expected);
}

#[test]
fn line_comment_is_skipped_to_the_newline() {
    let ts = lex_ok("// note\n1");
    assert_eq!(ts.len(), 2);
    assert_eq!(ts[0].kind, TokenKind::Number(String::from("1")));
    assert_eq!(ts[0].line, 2);
}

#[test]
fn whitespace_yields_only_the_eof_token() {
    let ts = lex_ok(" \t\r\n");
    assert_eq!(ts.len(), 1);
    assert_eq!(ts[0].kind, TokenKind::Eof);
    assert_eq!(ts[0].line, 2);
}

#[test]
fn empty_input_yields_only_the_eof_token() {
    let ts = lex_ok("");
    assert_eq!(ts.len(), 1);
    assert_eq!(ts[0].kind, TokenKind::Eof);
    assert_eq!(ts[0].line, 1);
}

#[test]
fn unterminated_string_fails_at_its_opening_line() {
    let f = lex("\"abc").unwrap_err();
    assert_eq!(f.errors.len(), 1);
    assert_eq!(f.errors[0].kind, LexErrorKind::UnterminatedString);
    assert_eq!(f.errors[0].line, 1);
}

#[test]
fn unexpected_character_fails() {
    let f = lex("@").unwrap_err();
    assert_eq!(f.errors.len(), 1);
    assert_eq!(f.errors[0].kind, LexErrorKind::UnexpectedChar('@'));
    assert_eq!(f.errors[0].line, 1);
}

#[test]
fn scanning_continues_past_an_error_to_find_more() {
    let f = lex("@ 1\n#").unwrap_err();
    assert_eq!(f.errors.len(), 2);
    assert_eq!(f.errors[0].kind, LexErrorKind::UnexpectedChar('@'));
    assert_eq!(f.errors[0].line, 1);
    assert_eq!(f.errors[1].kind, LexErrorKind::UnexpectedChar('#'));
    assert_eq!(f.errors[1].line, 2);
}

#[test]
fn valid_tokens_never_surface_from_a_failing_scan() {
    assert!(lex("1 @ 2").is_err());
}

#[test]
fn tokens_before_an_unterminated_string_never_surface() {
    let f = lex("1 \"abc").unwrap_err();
    assert_eq!(f.errors.len(), 1);
    assert_eq!(f.errors[0].kind, LexErrorKind::UnterminatedString);
}

#[test]
fn unterminated_string_reports_the_line_input_ended_on() {
    let f = lex("\"a\nb").unwrap_err();
    assert_eq!(f.errors.len(), 1);
    assert_eq!(f.errors[0].kind, LexErrorKind::UnterminatedString);
    assert_eq!(f.errors[0].line, 2);
}

#[test]
fn token_lines_follow_newlines() {
    let ts = lex_ok("1\n2");
    assert_eq!(ts.len(), 3);
    assert_eq!(ts[0].line, 1);
    assert_eq!(ts[1].line, 2);
    assert_eq!(ts[2].line, 2);
}
