//! The scanner, the parser and the printer: tree shapes, associativity, and
//! the errors of malformed input.

use rust_tree_walk::ast::{Expr, Printer, Stmt};
use rust_tree_walk::error::ErrorKind;
use rust_tree_walk::parser::Parser;
use rust_tree_walk::token::{Token, TokenType};
use rust_tree_walk::Scanner;

fn parse_program(code: &str) -> Vec<Stmt> {
    let scanner = Scanner::from_str(code);
    let tokens = scanner.tokens().scan_all().unwrap();
    let mut parser = Parser::new(tokens);
    parser.parse().unwrap()
}

fn first_expression(code: &str) -> Expr {
    let mut statements = parse_program(code);
    match statements.remove(0) {
        Stmt::Expression(es) => *es.expression,
        _ => panic!("expected an expression statement"),
    }
}

fn printed(code: &str) -> String {
    let expression = first_expression(code);
    Printer::new().print(&expression)
}

#[test]
fn left_associative_tiers_lean_left() {
    assert_eq!(printed("1-2-3;"), "(- (- 1 2) 3)");
    assert_eq!(printed("1+2-3;"), "(- (+ 1 2) 3)");
    assert_eq!(printed("8/4/2;"), "(/ (/ 8 4) 2)");
    assert_eq!(printed("1,2,3;"), "(, (, 1 2) 3)");
}

#[test]
fn ternary_nests_to_the_right_through_its_else_branch() {
    assert_eq!(
        printed("a?b:c?d:e;"),
        "(? (variable \"a\") (variable \"b\") (? (variable \"c\") (variable \"d\") (variable \"e\")))"
    );
}

#[test]
fn precedence_binds_factors_inside_terms() {
    assert_eq!(printed("1+2*3;"), "(+ 1 (* 2 3))");
    assert_eq!(printed("(1+2)*3;"), "(* (group (+ 1 2)) 3)");
}

#[test]
fn unary_and_logical_shapes() {
    assert_eq!(printed("-1+!x;"), "(+ (- 1) (! (variable \"x\")))");
    assert_eq!(printed("a or b and c;"), "(or (variable \"a\") (and (variable \"b\") (variable \"c\")))");
}

#[test]
fn assignment_prints_its_target_and_value() {
    assert_eq!(printed("a = 1;"), "(assign \"a\" 1)");
}

#[test]
fn invalid_assignment_target_is_a_parser_error() {
    let scanner = Scanner::from_str("1 = 2;");
    let tokens = scanner.tokens().scan_all().unwrap();
    let mut parser = Parser::new(tokens);
    let err = parser.parse().unwrap_err();
    match err.kind {
        ErrorKind::ParserError { message, .. } => assert_eq!(message, "Invalid assignment target"),
        _ => panic!("expected a parser error"),
    }
}

#[test]
fn missing_semicolon_is_a_parser_error_at_end_of_input() {
    let scanner = Scanner::from_str("print 1");
    let tokens = scanner.tokens().scan_all().unwrap();
    let mut parser = Parser::new(tokens);
    let err = parser.parse().unwrap_err();
    match err.kind {
        ErrorKind::ParserError { token, message } => {
            assert!(token.is_none());
            assert_eq!(message, "Expect \";\" after value");
        },
        _ => panic!("expected a parser error"),
    }
}

#[test]
fn unterminated_string_is_a_scanner_error() {
    let scanner = Scanner::from_str("print \"abc;");
    let err = scanner.tokens().scan_all().unwrap_err();
    match err.kind {
        ErrorKind::ScannerError { line, message } => {
            assert_eq!(line, 1);
            assert_eq!(message, "Unterminated string");
        },
        _ => panic!("expected a scanner error"),
    }
    assert_eq!(
        Scanner::from_str("\"abc").tokens().scan_all().unwrap_err().describe(),
        "Error: Unterminated string in 1"
    );
}

#[test]
fn unexpected_character_is_a_scanner_error_with_its_line() {
    let scanner = Scanner::from_str("print 1;\n#");
    let err = scanner.tokens().scan_all().unwrap_err();
    match err.kind {
        ErrorKind::ScannerError { line, message } => {
            assert_eq!(line, 2);
            assert_eq!(message, "Unexpected character \"#\"");
        },
        _ => panic!("expected a scanner error"),
    }
}

#[test]
fn comments_and_whitespace_yield_no_tokens() {
    let scanner = Scanner::from_str("// line\n/* block /* nested */ more */ 1;");
    let tokens = scanner.tokens().scan_all().unwrap();
    assert_eq!(tokens.len(), 2);
}

#[test]
fn keywords_match_without_regard_to_case() {
    let program = parse_program("VAR a = 1; PRINT a;");
    assert!(matches!(program[0], Stmt::Var(_)));
    assert!(matches!(program[1], Stmt::Print(_)));
}

#[test]
fn for_desugars_to_block_and_while() {
    let program = parse_program("for (var i=0; i<3; i=i+1) print i;");
    assert_eq!(program.len(), 1);
    match &program[0] {
        Stmt::Block(outer) => {
            assert!(matches!(outer.statements[0], Stmt::Var(_)));
            assert!(matches!(outer.statements[1], Stmt::While(_)));
        },
        _ => panic!("expected the desugared block"),
    }
}

// The printed form is diagnostic only: re-parsing it is not guaranteed to
// give back the tree. A string literal prints without its quotes, so its
// printed form reads as a variable instead.
#[test]
fn printed_form_is_not_a_reparsable_surface() {
    assert_eq!(printed("\"hi\";"), "hi");
    let reparsed = first_expression("hi;");
    assert!(matches!(reparsed, Expr::Variable(_)));
    assert!(matches!(first_expression("\"hi\";"), Expr::Literal(_)));
}

#[test]
fn token_kinds_have_names_and_surface_text() {
    assert_eq!(TokenType::LeftParen.name(), "LeftParen");
    assert_eq!(TokenType::BangEqual.name(), "BangEqual");
    assert_eq!(TokenType::Identifier.name(), "Identifier");
    let t = Token::new(TokenType::String, Some("hi".to_string()), 3);
    assert_eq!(t.text(), "\"hi\"");
    assert_eq!(Token::new(TokenType::LessEqual, None, 1).text(), "<=");
    assert_eq!(Token::new(TokenType::And, None, 1).text(), "and");
}

#[test]
fn parser_error_describes_its_token_and_line() {
    let scanner = Scanner::from_str("\n}");
    let tokens = scanner.tokens().scan_all().unwrap();
    let mut parser = Parser::new(tokens);
    let err = parser.parse().unwrap_err();
    assert_eq!(err.describe(), "Error: Unexpected token \"}\" at '}' in 2");
}
