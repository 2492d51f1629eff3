//! End-to-end scenarios: each runs a script on a fresh state and checks
//! everything it printed.

use scriptyscript::runtime::executor::execute_source;
use scriptyscript::runtime::state::State;

/// Run a script on a fresh state and return everything it printed.
fn run(source: &str) -> String {
    let mut state = State::new();
    let result = execute_source(&mut state, source);
    assert!(result.is_ok());
    state.output.clone()
}

#[test]
fn assignment_and_arithmetic() {
    assert_eq!(run("x = (5 + 5) * 5; print(x);"), "50\n");
}

#[test]
fn function_definition_and_call() {
    assert_eq!(run("fn = fn(a,b) { return a - b; }; print(fn(10,3));"), "7\n");
}

#[test]
fn for_loop_sums() {
    assert_eq!(run("n = 0; for i = 0; i < 5; i = i + 1 { n = n + i; }; print(n);"), "10\n");
}

#[test]
fn while_loop_with_continue() {
    assert_eq!(
        run("i = 0; while i < 3 { if i == 1 { i = i + 1; continue; } print(i); i = i + 1; }"),
        "0\n2\n"
    );
}

#[test]
fn recursion_through_dynamic_lookup() {
    assert_eq!(
        run("f = fn(x) { if x <= 1 { return 1; } return x * f(x - 1); }; print(f(5));"),
        "120\n"
    );
}

#[test]
fn conversion_and_promotion() {
    assert_eq!(run("print(int(\"42\") + float(\"3.5\"));"), "45.5\n");
}

#[test]
fn operator_precedence_multiplication_binds_tighter() {
    assert_eq!(run("print(1 + 2 * 3 == 7);"), "true\n");
}

#[test]
fn operator_precedence_unary_minus() {
    assert_eq!(run("print(-2 * 3);"), "-6\n");
}

#[test]
fn operator_precedence_logical_is_loosest() {
    assert_eq!(run("print(1 < 2 and 3 > 2);"), "true\n");
}

#[test]
fn break_exits_one_loop() {
    assert_eq!(
        run("i = 0; while true { if i == 2 { break; } i = i + 1; } print(i);"),
        "2\n"
    );
}

#[test]
fn break_inside_nested_if_exits_loop() {
    assert_eq!(
        run("n = 0; loop { n = n + 1; if n > 3 { if true { break; } } } print(n);"),
        "4\n"
    );
}

#[test]
fn return_exits_nested_loops_in_function() {
    assert_eq!(
        run("f = fn() { loop { while true { return 9; } } }; print(f());"),
        "9\n"
    );
}

#[test]
fn call_leaves_caller_scope_unchanged() {
    assert_eq!(
        run("x = 1; f = fn(x) { x = 5; return x; }; y = f(2); print(x); print(y);"),
        "1\n5\n"
    );
}

#[test]
fn lexical_lookup_reads_nearest_binding() {
    assert_eq!(run("x = 3; f = fn() { return x; }; print(f());"), "3\n");
}

#[test]
fn lexical_lookup_unbound_is_nil() {
    assert_eq!(run("print(zz);"), "nil\n");
}

#[test]
fn else_and_elseif_branches() {
    assert_eq!(
        run("x = 2; if x == 1 { print(10); } elseif x == 2 { print(20); } else { print(30); }"),
        "20\n"
    );
    assert_eq!(
        run("x = 9; if x == 1 { print(10); } elseif x == 2 { print(20); } else { print(30); }"),
        "30\n"
    );
}

#[test]
fn string_concatenation_and_escapes() {
    assert_eq!(run("print(\"a\" + \"b\");"), "ab\n");
    assert_eq!(run("print(\"a\\nb\");"), "a\nb\n");
}

#[test]
fn hex_and_binary_literals() {
    assert_eq!(run("print(0x1f);"), "31\n");
    assert_eq!(run("print(0b101);"), "5\n");
}

#[test]
fn comments_are_skipped() {
    assert_eq!(run("// a comment\nprint(1); // trailing\n"), "1\n");
}

#[test]
fn incompatible_arithmetic_yields_nil() {
    assert_eq!(run("print(1 + \"x\");"), "nil\n");
}

#[test]
fn unlike_kinds_compare_unequal() {
    assert_eq!(run("print(1 == \"1\");"), "false\n");
    assert_eq!(run("print(1 != \"1\");"), "true\n");
}

#[test]
fn scripted_functions_compare_by_bytecode() {
    assert_eq!(
        run("f = fn() { return 1; }; g = fn() { return 1; }; print(f == g);"),
        "true\n"
    );
    assert_eq!(
        run("f = fn() { return 1; }; g = fn() { return 2; }; print(f == g);"),
        "false\n"
    );
}

#[test]
fn multiple_print_arguments_concatenate() {
    assert_eq!(run("print(1, \" and \", 2);"), "1 and 2\n");
}

#[test]
fn exec_runs_source_on_the_state() {
    assert_eq!(run("print(exec(\"return 5;\"));"), "5\n");
}

#[test]
fn exec_reports_a_syntax_error_as_text() {
    let mut state = State::new();
    let result = execute_source(&mut state, "print(exec(\"1 +\"));");
    assert!(result.is_ok());
    assert!(state.output.starts_with("syntax error"));
}

#[test]
fn break_exits_a_for_loop() {
    assert_eq!(
        run("i = 0; for ; true; { if i == 3 { break; } i = i + 1; } print(i);"),
        "3\n"
    );
}

#[test]
fn for_loop_with_all_parts_missing_is_an_infinite_loop_with_break() {
    assert_eq!(run("n = 0; for ; ; { n = n + 1; if n == 2 { break; } } print(n);"), "2\n");
}

#[test]
fn continue_in_a_for_loop_still_runs_the_increment() {
    assert_eq!(
        run("n = 0; for i = 0; i < 4; i = i + 1 { if i == 1 { continue; } n = n + 1; } print(n);"),
        "3\n"
    );
}

#[test]
fn nested_function_definitions_call_through_the_chain() {
    assert_eq!(
        run("outer = fn(a) { inner = fn(b) { return b * 2; }; return inner(a) + 1; }; print(outer(5));"),
        "11\n"
    );
}

#[test]
fn functions_may_return_nothing() {
    assert_eq!(run("f = fn() { return; }; f(); print(1);"), "1\n");
}
