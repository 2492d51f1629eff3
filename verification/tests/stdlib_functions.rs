//! Tests of the standard library built-ins and of the error outcomes of the
//! executor.

use scriptyscript::runtime::error::{Error, RuntimeError};
use scriptyscript::runtime::executor::execute_source;
use scriptyscript::runtime::state::State;

fn run(source: &str) -> String {
    let mut state = State::new();
    let result = execute_source(&mut state, source);
    assert!(result.is_ok());
    state.output.clone()
}

fn run_error(source: &str) -> RuntimeError {
    let mut state = State::new();
    match execute_source(&mut state, source) {
        Err(Error::Runtime(e)) => e,
        _ => panic!("expected a runtime error"),
    }
}

#[test]
fn string_of_each_kind() {
    assert_eq!(run("print(string(5));"), "5\n");
    assert_eq!(run("print(string(-5));"), "-5\n");
    assert_eq!(run("print(string(true), \" \", string(false));"), "true false\n");
    assert_eq!(run("print(string(nil));"), "nil\n");
    assert_eq!(run("print(string(\"already\"));"), "already\n");
}

#[test]
fn string_is_idempotent_on_samples() {
    assert_eq!(run("print(string(string(5)) == string(5));"), "true\n");
    assert_eq!(run("print(string(string(1.5)) == string(1.5));"), "true\n");
    assert_eq!(run("print(string(string(true)) == string(true));"), "true\n");
}

#[test]
fn int_conversions() {
    assert_eq!(run("print(int(7));"), "7\n");
    assert_eq!(run("print(int(3.9));"), "3\n");
    assert_eq!(run("print(int(true), \" \", int(false));"), "1 0\n");
    assert_eq!(run("print(int(\"42\"));"), "42\n");
    assert_eq!(run("print(int(\"wat\"));"), "nil\n");
    assert_eq!(run("print(int(nil));"), "nil\n");
}

#[test]
fn float_conversions() {
    assert_eq!(run("print(float(2));"), "2\n");
    assert_eq!(run("print(float(1.5));"), "1.5\n");
    assert_eq!(run("print(float(\"3.5\"));"), "3.5\n");
    assert_eq!(run("print(float(\"wat\"));"), "nil\n");
    assert_eq!(run("print(float(nil));"), "nil\n");
}

#[test]
fn round_to_nearest_ties_away() {
    assert_eq!(run("print(round(2.5));"), "3\n");
    assert_eq!(run("print(round(2.4));"), "2\n");
    assert_eq!(run("print(round(-2.5));"), "-3\n");
    assert_eq!(run("print(round(7));"), "7\n");
    assert_eq!(run("print(round(true));"), "1\n");
}

#[test]
fn abs_of_numbers() {
    assert_eq!(run("print(abs(-3));"), "3\n");
    assert_eq!(run("print(abs(3));"), "3\n");
    assert_eq!(run("print(abs(-1.5));"), "1.5\n");
    assert_eq!(run("print(abs(nil));"), "nil\n");
}

#[test]
fn max_and_min_fold_comparisons() {
    assert_eq!(run("print(max(1, 3, 2));"), "3\n");
    assert_eq!(run("print(min(4, 2, 9));"), "2\n");
    assert_eq!(run("print(max(1.5, 2));"), "2\n");
    assert_eq!(run("print(min(1.5, 2));"), "1.5\n");
}

#[test]
fn float_arithmetic_through_operators() {
    assert_eq!(run("print(1.5 + 2.25);"), "3.75\n");
    assert_eq!(run("print(2.5 - 1.25);"), "1.25\n");
    assert_eq!(run("print(1.5 * 2);"), "3\n");
    assert_eq!(run("print(5 / 2.5);"), "2\n");
    assert_eq!(run("print(5.5 % 2);"), "1.5\n");
}

#[test]
fn integer_arithmetic_truncates_and_wraps() {
    assert_eq!(run("print(7 / 2);"), "3\n");
    assert_eq!(run("print(-7 / 2);"), "-3\n");
    assert_eq!(run("print(7 % 2);"), "1\n");
    assert_eq!(
        run("print(9223372036854775807 + 1);"),
        "-9223372036854775808\n"
    );
}

#[test]
fn division_by_zero_is_fatal() {
    assert!(matches!(run_error("print(1 / 0);"), RuntimeError::DivisionByZero));
    assert!(matches!(run_error("print(1 % 0);"), RuntimeError::DivisionByZero));
}

#[test]
fn type_mismatches_are_fatal() {
    assert!(matches!(run_error("print(1 and 2);"), RuntimeError::TypeMismatch));
    assert!(matches!(run_error("print(1 < \"2\");"), RuntimeError::TypeMismatch));
    assert!(matches!(run_error("print(max(1, nil));"), RuntimeError::TypeMismatch));
    assert!(matches!(run_error("print(round(\"x\"));"), RuntimeError::TypeMismatch));
}

#[test]
fn conditions_must_be_boolean() {
    assert!(matches!(run_error("if 1 { print(1); }"), RuntimeError::ExpectedBoolean));
    assert!(matches!(run_error("while 1 { }"), RuntimeError::ExpectedBoolean));
}

#[test]
fn calling_a_non_function_is_fatal() {
    assert!(matches!(run_error("x = 1; x(2);"), RuntimeError::NotAFunction));
}

#[test]
fn logical_not_is_unimplemented() {
    assert!(matches!(run_error("print(!true);"), RuntimeError::Unsupported));
}

#[test]
fn exit_propagates_its_code() {
    assert!(matches!(run_error("exit(3);"), RuntimeError::Exit(3)));
    assert!(matches!(run_error("exit();"), RuntimeError::Exit(0)));
}

#[test]
fn wrong_argument_counts_are_fatal() {
    assert!(matches!(run_error("int(1, 2);"), RuntimeError::ArgumentCount));
    assert!(matches!(run_error("max(1);"), RuntimeError::ArgumentCount));
}

#[test]
fn the_step_budget_stops_runaway_loops() {
    let mut state = State::new();
    state.steps = 1000;
    match execute_source(&mut state, "loop { }") {
        Err(Error::Runtime(RuntimeError::StepsExhausted)) => {},
        _ => panic!("expected the step budget to run out"),
    }
}

#[test]
fn parse_errors_carry_a_position() {
    let mut state = State::new();
    match execute_source(&mut state, "x = ;") {
        Err(Error::Parse(e)) => {
            assert_eq!(e.position, 4);
        },
        _ => panic!("expected a syntax error"),
    }
}

#[test]
fn float_comparisons_follow_ieee_order() {
    assert_eq!(run("print(1 < 2.5);"), "true\n");
    assert_eq!(run("print(2.5 <= 2.5);"), "true\n");
    assert_eq!(run("print(2.5 >= 2.5);"), "true\n");
    assert_eq!(run("print(3.5 > 4);"), "false\n");
    assert_eq!(run("print(1.5 == 1.5);"), "true\n");
}
