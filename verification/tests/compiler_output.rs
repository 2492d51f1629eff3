//! Tests of the compiler: the dunder names, the shape of translated
//! bytecode, and syntax errors.

use scriptyscript::compiler::ast::{BinaryOperationKind, UnaryOperationKind};
use scriptyscript::compiler::compile;
use scriptyscript::runtime::bytecode::OpCode;

#[test]
fn dunder_names() {
    assert_eq!(UnaryOperationKind::Negate.dunder(), "__neg__");
    assert_eq!(UnaryOperationKind::Not.dunder(), "__not__");
    assert_eq!(BinaryOperationKind::Add.dunder(), "__add__");
    assert_eq!(BinaryOperationKind::Power.dunder(), "__pow__");
    assert_eq!(BinaryOperationKind::LessThanOrEqual.dunder(), "__le__");
}

#[test]
fn assignment_translates_to_value_then_store() {
    let bytecode = compile("x = 1;").expect("the script is well-formed");
    let ops = bytecode.into_inner();
    assert_eq!(ops.len(), 2);
    assert!(matches!(&ops[0], OpCode::PushInteger(1)));
    match &ops[1] {
        OpCode::Store(name) => assert_eq!(name, "x"),
        _ => panic!("expected a store"),
    }
}

#[test]
fn binary_operation_translates_left_then_right() {
    let bytecode = compile("1 - 2;").expect("the script is well-formed");
    let ops = bytecode.into_inner();
    assert_eq!(ops.len(), 3);
    assert!(matches!(&ops[0], OpCode::PushInteger(1)));
    assert!(matches!(&ops[1], OpCode::PushInteger(2)));
    assert!(matches!(&ops[2], OpCode::BinaryOperation(BinaryOperationKind::Subtract)));
}

#[test]
fn call_translates_arguments_then_load_then_call() {
    let bytecode = compile("print(1, 2);").expect("the script is well-formed");
    let ops = bytecode.into_inner();
    assert_eq!(ops.len(), 4);
    assert!(matches!(&ops[0], OpCode::PushInteger(1)));
    assert!(matches!(&ops[1], OpCode::PushInteger(2)));
    match &ops[2] {
        OpCode::Load(name) => assert_eq!(name, "print"),
        _ => panic!("expected a load of the callee"),
    }
    assert!(matches!(&ops[3], OpCode::Call(2)));
}

#[test]
fn if_translates_to_one_tree_opcode() {
    let bytecode = compile("if true { print(1); } else { print(2); }")
        .expect("the script is well-formed");
    let ops = bytecode.into_inner();
    assert_eq!(ops.len(), 1);
    match &ops[0] {
        OpCode::If { condition, body, else_body } => {
            assert_eq!(condition.len(), 1);
            assert_eq!(body.len(), 3);
            assert!(else_body.is_some());
        },
        _ => panic!("expected an if opcode"),
    }
}

#[test]
fn while_translates_to_one_tree_opcode() {
    let bytecode = compile("while false { }").expect("the script is well-formed");
    let ops = bytecode.into_inner();
    assert_eq!(ops.len(), 1);
    match &ops[0] {
        OpCode::While { condition, body } => {
            assert_eq!(condition.len(), 1);
            assert_eq!(body.len(), 0);
        },
        _ => panic!("expected a while opcode"),
    }
}

#[test]
fn function_definition_binds_parameters_in_order() {
    let bytecode = compile("f = fn(a, b) { };").expect("the script is well-formed");
    let ops = bytecode.into_inner();
    match &ops[0] {
        OpCode::PushFunction(body) => {
            assert_eq!(body.len(), 2);
            match (&body[0], &body[1]) {
                (OpCode::Store(first), OpCode::Store(second)) => {
                    assert_eq!(first, "a");
                    assert_eq!(second, "b");
                },
                _ => panic!("expected parameter stores"),
            }
        },
        _ => panic!("expected a function push"),
    }
}

#[test]
fn return_with_and_without_value() {
    let with_value = compile("return 1;").expect("well-formed").into_inner();
    assert!(matches!(with_value[1], OpCode::Return(1)));
    let without_value = compile("return;").expect("well-formed").into_inner();
    assert!(matches!(without_value[0], OpCode::Return(0)));
}

#[test]
fn malformed_scripts_are_rejected() {
    assert!(compile("x = ;").is_err());
    assert!(compile("if { }").is_err());
    assert!(compile("print(1").is_err());
    assert!(compile("\"unterminated").is_err());
    assert!(compile("1 @ 2;").is_err());
    assert!(compile("99999999999999999999;").is_err());
}

#[test]
fn float_literal_forms() {
    let ops = compile("1.5; 2e3; 1.25e-2;").expect("well-formed").into_inner();
    assert!(matches!(&ops[0], OpCode::PushFloat(bits) if *bits == (1.5f64).to_bits()));
    assert!(matches!(&ops[1], OpCode::PushFloat(bits) if *bits == (2000.0f64).to_bits()));
    assert!(matches!(&ops[2], OpCode::PushFloat(bits) if *bits == (0.0125f64).to_bits()));
}

#[test]
fn compiling_twice_gives_the_same_bytecode() {
    let source = "n = 0; for i = 0; i < 5; i = i + 1 { n = n + i; }; print(n * 2.5);";
    let first = compile(source).expect("well-formed").into_inner();
    let second = compile(source).expect("well-formed").into_inner();
    assert!(scriptyscript::runtime::bytecode::ops_eq(&first, &second));
}
