//! Runs driven by hand-built token streams: the parser and the evaluator
//! exercised without the scanner in front of them.

use rust_tree_walk::ast::{Expr, Stmt};
use rust_tree_walk::error::ErrorKind;
use rust_tree_walk::parser::Parser;
use rust_tree_walk::token::{Token, TokenType};
use rust_tree_walk::value::Value;
use rust_tree_walk::Interpreter;

fn bare(kind: TokenType) -> Token {
    Token::new(kind, None, 1)
}

fn ident(name: &str) -> Token {
    Token::new(TokenType::Identifier, Some(name.to_string()), 1)
}

fn number(text: &str) -> Token {
    Token::new(TokenType::Number, Some(text.to_string()), 1)
}

#[test]
fn run_tokens_writes_through_a_nested_block() {
    // var a = 1; { a = 2; } print a;
    let tokens = vec![
        bare(TokenType::Var),
        ident("a"),
        bare(TokenType::Equal),
        number("1"),
        bare(TokenType::Semicolon),
        bare(TokenType::LeftBrace),
        ident("a"),
        bare(TokenType::Equal),
        number("2"),
        bare(TokenType::Semicolon),
        bare(TokenType::RightBrace),
        bare(TokenType::Print),
        ident("a"),
        bare(TokenType::Semicolon),
    ];
    let mut interpreter = Interpreter::new();
    interpreter.run_tokens(tokens).unwrap();
    assert_eq!(interpreter.output().clone(), ["2"]);
}

#[test]
fn run_tokens_refuses_an_unclosed_block_and_prints_nothing() {
    // { print 1;
    let tokens = vec![
        bare(TokenType::LeftBrace),
        bare(TokenType::Print),
        number("1"),
        bare(TokenType::Semicolon),
    ];
    let mut interpreter = Interpreter::new();
    let err = interpreter.run_tokens(tokens).unwrap_err();
    assert!(matches!(err.kind, ErrorKind::ParserError { .. }));
    assert!(interpreter.output().is_empty());
}

#[test]
fn an_empty_token_stream_is_an_empty_program() {
    let mut interpreter = Interpreter::new();
    interpreter.run_tokens(Vec::new()).unwrap();
    assert!(interpreter.output().is_empty());
}

#[test]
fn input_ending_after_an_open_parenthesis_reports_no_token() {
    let mut parser = Parser::new(vec![bare(TokenType::LeftParen)]);
    let err = parser.parse().unwrap_err();
    match err.kind {
        ErrorKind::ParserError { token, message } => {
            assert!(token.is_none());
            assert_eq!(message, "Expect token");
        },
        _ => panic!("expected a parser error"),
    }
}

#[test]
fn a_var_without_initializer_defaults_to_null() {
    // var x;
    let mut parser = Parser::new(vec![
        bare(TokenType::Var),
        ident("x"),
        bare(TokenType::Semicolon),
    ]);
    let program = parser.parse().unwrap();
    assert_eq!(program.len(), 1);
    match &program[0] {
        Stmt::Var(v) => {
            assert_eq!(v.name, "x");
            match &*v.right {
                Expr::Literal(l) => assert!(matches!(l.value, Value::Null)),
                _ => panic!("expected the null literal"),
            }
        },
        _ => panic!("expected a declaration"),
    }
}
