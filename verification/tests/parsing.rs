use lox_front::ast::Expr;
use lox_front::lexer::Lexer;
use lox_front::parser::{parse, ParseError, ParseErrorKind, Parser};
use lox_front::token::{Token, TokenKind};

fn parse_src(src: &str) -> Result<Expr, ParseError> {
    let mut lx = Lexer::new(String::from(src));
    let tokens = match lx.scan_tokens() {
        Ok(ts) => ts,
        Err(f) => panic!("lexing {:?} failed: {:?}", src, f),
    };
    parse(tokens)
}

fn parse_ok(src: &str) -> Expr {
    match parse_src(src) {
        Ok(e) => e,
        Err(pe) => panic!("parsing {:?} failed: {:?}", src, pe),
    }
}

#[test]
fn subtraction_is_left_associative() {
    let e = parse_ok("1 - 2 - 3");
    assert_eq!(e.render(), "(- (- 1 2) 3)");
    if let Expr::Binary(l, op, r) = &e {
        assert!(matches!(op.kind, TokenKind::Minus));
        assert!(matches!(**r, Expr::Literal(_)));
        if let Expr::Binary(_, inner_op, _) = &**l {
            assert!(matches!(inner_op.kind, TokenKind::Minus));
        } else {
            panic!("left operand is not the nested subtraction");
        }
    } else {
        panic!("not a binary node");
    }
}

#[test]
fn multiplication_binds_tighter_than_addition() {
    let e = parse_ok("1 + 2 * 3");
    assert_eq!(e.render(), "(+ 1 (* 2 3))");
    if let Expr::Binary(l, op, r) = &e {
        assert!(matches!(op.kind, TokenKind::Plus));
        assert!(matches!(**l, Expr::Literal(_)));
        assert!(matches!(**r, Expr::Binary(_, _, _)));
    } else {
        panic!("not a binary node");
    }
}

#[test]
fn parentheses_group_and_are_kept() {
    let e = parse_ok("(1 + 2) * 3");
    assert_eq!(e.render(), "(* (group (+ 1 2)) 3)");
    if let Expr::Binary(l, op, _) = &e {
        assert!(matches!(op.kind, TokenKind::Star));
        assert!(matches!(**l, Expr::Grouping(_)));
    } else {
        panic!("not a binary node");
    }
}

#[test]
fn missing_closing_paren_is_a_parse_error() {
    let pe = parse_src("(1 + 2").unwrap_err();
    assert_eq!(pe.kind, ParseErrorKind::ExpectedRightParen);
    assert_eq!(pe.line, 1);
}

#[test]
fn missing_closing_paren_reports_the_last_line() {
    let pe = parse_src("(1 +\n2").unwrap_err();
    assert_eq!(pe.kind, ParseErrorKind::ExpectedRightParen);
    assert_eq!(pe.line, 2);
}

#[test]
fn a_lone_closing_paren_expects_an_expression() {
    let pe = parse_src(")").unwrap_err();
    assert_eq!(pe.kind, ParseErrorKind::ExpectedExpression);
    assert_eq!(pe.line, 1);
}

#[test]
fn empty_input_expects_an_expression() {
    let pe = parse_src("").unwrap_err();
    assert_eq!(pe.kind, ParseErrorKind::ExpectedExpression);
    assert_eq!(pe.line, 1);
}

#[test]
fn unary_operators_nest_to_the_right() {
    assert_eq!(parse_ok("!true").render(), "(! true)");
    assert_eq!(parse_ok("--1").render(), "(- (- 1))");
}

#[test]
fn comparison_binds_tighter_than_equality() {
    assert_eq!(parse_ok("1 < 2 == true").render(), "(== (< 1 2) true)");
}

#[test]
fn literal_leaves_render_as_their_lexemes() {
    assert_eq!(parse_ok("nil").render(), "nil");
    assert_eq!(parse_ok("\"s\"").render(), "\"s\"");
    assert_eq!(parse_ok("12.5").render(), "12.5");
    assert_eq!(parse_ok("answer").render(), "answer");
}

#[test]
fn hand_built_tree_renders_to_its_golden_form() {
    let tree = Expr::Binary(
        Box::new(Expr::Unary(
            Token::new(TokenKind::Minus, String::from("-"), 1),
            Box::new(Expr::Literal(Token::new(
                TokenKind::Number(String::from("123")),
                String::from("123"),
                1,
            ))),
        )),
        Token::new(TokenKind::Star, String::from("*"), 1),
        Box::new(Expr::Grouping(Box::new(Expr::Literal(Token::new(
            TokenKind::Number(String::from("45.67")),
            String::from("45.67"),
            1,
        ))))),
    );
    assert_eq!(tree.render(), "(* (- 123) (group 45.67))");
}

#[test]
fn parser_primitives_walk_the_token_sequence() {
    let mut lx = Lexer::new(String::from("1 + 2"));
    let tokens = lx.scan_tokens().unwrap();
    let mut p = Parser::new(tokens);
    assert!(!p.is_at_end());
    assert!(p.check(&TokenKind::Number(String::new())));
    assert!(!p.check(&TokenKind::Plus));
    assert!(!p.match_types(vec![TokenKind::Plus, TokenKind::Minus]));
    let first = p.advance();
    assert_eq!(first.kind, TokenKind::Number(String::from("1")));
    assert!(p.match_types(vec![TokenKind::Plus, TokenKind::Minus]));
    assert_eq!(p.previous().kind, TokenKind::Plus);
    let second = p.advance();
    assert_eq!(second.lexeme, "2");
    assert!(p.is_at_end());
    assert!(!p.match_types(vec![TokenKind::Plus]));
}

#[test]
fn grouping_may_nest() {
    assert_eq!(parse_ok("((1))").render(), "(group (group 1))");
}

#[test]
fn equality_chain_is_left_associative() {
    assert_eq!(parse_ok("1 == 2 != 3").render(), "(!= (== 1 2) 3)");
}

#[test]
fn division_and_multiplication_share_a_level() {
    assert_eq!(parse_ok("8 / 4 * 2").render(), "(* (/ 8 4) 2)");
}
