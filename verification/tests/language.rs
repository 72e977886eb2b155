//! End-to-end runs: whole programs through scanning, parsing and evaluation,
//! checked by the lines they print and the errors they report.

use rust_tree_walk::error::ErrorKind;
use rust_tree_walk::parser::Parser;
use rust_tree_walk::Interpreter;
use rust_tree_walk::Scanner;

fn run_lines(code: &str) -> Vec<String> {
    let mut interpreter = Interpreter::new();
    interpreter.run(code).unwrap();
    interpreter.output().clone()
}

fn run_error(code: &str) -> rust_tree_walk::error::Error {
    let mut interpreter = Interpreter::new();
    interpreter.run(code).unwrap_err()
}

fn runtime_message(e: &rust_tree_walk::error::Error) -> String {
    match &e.kind {
        ErrorKind::RuntimeError { message } => message.clone(),
        _ => panic!("expected a runtime error"),
    }
}

#[test]
fn for_loop_prints_its_indices() {
    assert_eq!(run_lines("for (var i=0; i<3; i=i+1) print i;"), ["0", "1", "2"]);
}

#[test]
fn or_short_circuits_and_skips_the_right_operand() {
    assert_eq!(run_lines("var hit = false; true or (hit = true); print hit;"), ["false"]);
    assert_eq!(run_lines("var hit = false; 1 or (hit = true); print hit;"), ["false"]);
}

#[test]
fn and_short_circuits_and_skips_the_right_operand() {
    assert_eq!(run_lines("var hit = false; false and (hit = true); print hit;"), ["false"]);
    assert_eq!(run_lines("var hit = false; 0 and (hit = true); print hit;"), ["false"]);
}

#[test]
fn logical_operators_yield_the_last_evaluated_operand() {
    assert_eq!(run_lines("print 0 or \"x\";"), ["x"]);
    assert_eq!(run_lines("print 1 and 2;"), ["2"]);
    assert_eq!(run_lines("print 0 and 2;"), ["0"]);
    assert_eq!(run_lines("print 1 or 2;"), ["1"]);
}

#[test]
fn a_block_variable_shadows_and_then_disappears() {
    assert_eq!(run_lines("var a=1; { var a=2; print a; } print a;"), ["2", "1"]);
}

#[test]
fn a_block_variable_is_gone_after_the_block() {
    let e = run_error("{ var b=2; } print b;");
    assert_eq!(runtime_message(&e), "undefined variable b");
}

#[test]
fn assignment_in_a_block_writes_the_outer_binding() {
    assert_eq!(run_lines("var a=1; { a=2; } print a;"), ["2"]);
}

#[test]
fn assignment_to_an_undeclared_name_fails() {
    let e = run_error("x = 1;");
    assert_eq!(runtime_message(&e), "undefined variable x");
}

#[test]
fn assignment_is_an_expression_yielding_its_value() {
    assert_eq!(run_lines("var a=0; print a = 5;"), ["5"]);
}

#[test]
fn addition_concatenates_only_when_the_left_is_text() {
    assert_eq!(run_lines("print \"3\"+1;"), ["31"]);
    assert_eq!(run_lines("print 1+\"3\";"), ["4"]);
}

#[test]
fn nonnumeric_coercion_is_a_runtime_error() {
    let e = run_error("print 1+\"abc\";");
    assert_eq!(runtime_message(&e), "invalid number literal");
}

#[test]
fn ternary_evaluates_only_the_selected_branch() {
    assert_eq!(run_lines("print 1 ? \"yes\" : \"no\";"), ["yes"]);
    assert_eq!(run_lines("var h=0; 0 ? (h=1) : 2; print h;"), ["0"]);
    assert_eq!(run_lines("var h=0; 1 ? 2 : (h=1); print h;"), ["0"]);
}

#[test]
fn unary_operators() {
    assert_eq!(run_lines("print -(1+2); print !0; print !\"x\";"), ["-3", "true", "false"]);
}

#[test]
fn while_re_evaluates_its_condition() {
    assert_eq!(run_lines("var i=0; while (i<2) i=i+1; print i;"), ["2"]);
    assert_eq!(run_lines("while (false) print 1; print 9;"), ["9"]);
}

#[test]
fn if_takes_the_else_branch_on_a_falsy_condition() {
    assert_eq!(run_lines("if (0) print 1; else print 2;"), ["2"]);
    assert_eq!(run_lines("if (\"\") print 1; print 3;"), ["3"]);
}

#[test]
fn print_shows_the_display_form() {
    assert_eq!(run_lines("print null; var x; print x; print true;"), ["null", "null", "true"]);
}

#[test]
fn equality_coerces_by_the_left_operand() {
    assert_eq!(run_lines("print 1 == \"1\"; print true == 1; print 1 != 2;"), [
        "true",
        "false",
        "true",
    ]);
}

#[test]
fn division_by_zero_is_an_infinity_not_an_error() {
    assert_eq!(run_lines("print (1/0) > 1000000;"), ["true"]);
    assert_eq!(run_lines("print (0/0) == (0/0);"), ["false"]);
}

#[test]
fn the_interpreter_keeps_its_state_between_runs() {
    let mut interpreter = Interpreter::new();
    interpreter.run("var a = 1;").unwrap();
    interpreter.run("print a;").unwrap();
    assert_eq!(interpreter.output().clone(), vec!["1".to_string()]);
}

#[test]
fn lines_printed_before_a_failure_stand() {
    let mut interpreter = Interpreter::new();
    let result = interpreter.run("print 1; print undefined_name; print 2;");
    assert!(result.is_err());
    assert_eq!(interpreter.output().clone(), vec!["1".to_string()]);
}

#[test]
fn comma_yields_the_rightmost_operand() {
    assert_eq!(run_lines("print (1, 2, 3);"), ["3"]);
}

#[test]
fn nested_loops_and_blocks() {
    assert_eq!(
        run_lines(
            "var total = 0; for (var i=0; i<3; i=i+1) { for (var j=0; j<2; j=j+1) { total = total + 1; } } print total;",
        ),
        ["6"],
    );
}

#[test]
fn a_loop_that_outlives_its_fuel_budget_is_an_error() {
    let tokens = Scanner::from_str("var n = 0; while (true) n = n + 1;")
        .tokens()
        .scan_all()
        .unwrap();
    let statements = Parser::new(tokens).parse().unwrap();
    let mut interpreter = Interpreter::new();
    interpreter.evaluate_statement(&statements[0], 5).unwrap();
    let e = interpreter.evaluate_statement(&statements[1], 5).unwrap_err();
    assert_eq!(runtime_message(&e), "evaluation budget exhausted");
}
