//! Tests of the value model: constructors, equality, tables and the state
//! API.

use scriptyscript::runtime::state::{CallFrame, State};
use scriptyscript::runtime::types::object::{clone_object, obj_eq, Object, ObjectValue};
use scriptyscript::runtime::types::primitive::Primitive;
use scriptyscript::runtime::types::table::Table;
use scriptyscript::runtime::types::utilities::{boolean, float, integer, nil, string, table};

#[test]
fn primitive_equality_is_by_kind_and_value() {
    assert!(obj_eq(&integer(3), &integer(3)));
    assert!(!obj_eq(&integer(3), &integer(4)));
    assert!(!obj_eq(&integer(1), &boolean(true)));
    assert!(obj_eq(&nil(), &nil()));
    assert!(obj_eq(&string("a".to_owned()), &string("a".to_owned())));
    assert!(!obj_eq(&string("a".to_owned()), &string("b".to_owned())));
}

#[test]
fn float_equality_follows_ieee_rules() {
    let nan = f64::NAN.to_bits();
    assert!(!obj_eq(&float(nan), &float(nan)));
    let plus_zero = (0.0f64).to_bits();
    let minus_zero = (-0.0f64).to_bits();
    assert!(obj_eq(&float(plus_zero), &float(minus_zero)));
    assert!(!obj_eq(&float((1.5f64).to_bits()), &integer(1)));
}

#[test]
fn tables_compare_by_contents() {
    let mut a = Table::new();
    a.set("x".to_owned(), integer(1));
    a.set("y".to_owned(), integer(2));
    let mut b = Table::new();
    b.set("y".to_owned(), integer(2));
    b.set("x".to_owned(), integer(1));
    let oa = Object { value: Some(ObjectValue::Table(a)), metatable: None };
    let ob = Object { value: Some(ObjectValue::Table(b)), metatable: None };
    assert!(obj_eq(&oa, &ob));

    let mut c = Table::new();
    c.set("x".to_owned(), integer(1));
    let oc = Object { value: Some(ObjectValue::Table(c)), metatable: None };
    assert!(!obj_eq(&oa, &oc));
}

#[test]
fn table_set_replaces_and_get_finds() {
    let mut t = Table::new();
    t.set("k".to_owned(), integer(1));
    t.set("k".to_owned(), integer(2));
    let found = t.get(&"k".to_owned()).expect("the key must be present");
    assert!(obj_eq(found, &integer(2)));
    assert!(t.get(&"missing".to_owned()).is_none());
}

#[test]
fn empty_objects_never_compare_equal() {
    let a = Object { value: None, metatable: None };
    let b = Object { value: None, metatable: None };
    assert!(!obj_eq(&a, &b));
}

#[test]
fn a_fresh_table_object_is_empty() {
    let t = table();
    match &t.value {
        Some(ObjectValue::Table(inner)) => assert_eq!(inner.inner.len(), 0),
        _ => panic!("expected a table"),
    }
}

#[test]
fn cloning_preserves_the_value() {
    let original = string("hello".to_owned());
    let copy = clone_object(&original);
    assert!(obj_eq(&original, &copy));
}

#[test]
fn state_stack_operations() {
    let mut state = State::new();
    state.push(&integer(1));
    state.push(&integer(2));
    assert_eq!(state.operand_stack_size(), 2);
    let top = state.peek().expect("a value must be on the stack");
    assert!(obj_eq(&top, &integer(2)));
    let popped = state.pop_n(2);
    assert!(obj_eq(&popped[0], &integer(2)));
    assert!(obj_eq(&popped[1], &integer(1)));
    assert!(state.pop().is_none());
}

#[test]
fn frames_isolate_operand_stacks() {
    let mut state = State::new();
    state.push(&integer(7));
    state.push_frame();
    assert_eq!(state.operand_stack_size(), 0);
    state.pop_frame();
    assert_eq!(state.operand_stack_size(), 1);
}

#[test]
fn load_walks_the_frame_chain() {
    let mut state = State::new();
    state.set_global("answer", integer(42));
    state.push_frame();
    state.load(&"answer".to_owned());
    let v = state.pop().expect("the load must push a value");
    assert!(obj_eq(&v, &integer(42)));
    // Unbound names load as nil.
    state.load(&"unbound".to_owned());
    let w = state.pop().expect("the load must push a value");
    assert!(obj_eq(&w, &nil()));
}

#[test]
fn store_local_shadows_only_the_current_frame() {
    let mut state = State::new();
    state.set_global("x", integer(1));
    state.push_frame();
    state.push(&integer(9));
    state.store_local("x".to_owned());
    state.load(&"x".to_owned());
    let inner = state.pop().expect("a value");
    assert!(obj_eq(&inner, &integer(9)));
    state.pop_frame();
    state.load(&"x".to_owned());
    let outer = state.pop().expect("a value");
    assert!(obj_eq(&outer, &integer(1)));
}

#[test]
fn call_frames_start_empty() {
    let frame = CallFrame::new();
    assert_eq!(frame.stack_size(), 0);
    assert!(frame.load_local(&"a".to_owned()).is_none());
}

#[test]
fn primitive_kinds_round_trip_through_objects() {
    match integer(5).as_primitive() {
        Some(Primitive::Integer(5)) => {},
        _ => panic!("expected the integer back"),
    }
    assert_eq!(boolean(true).as_bool(), Some(true));
    assert_eq!(integer(1).as_bool(), None);
}

#[test]
fn metatables_survive_copies() {
    let mut base = integer(1);
    base.set_metatable(Some(integer(2)));
    let copy = clone_object(&base);
    match copy.metatable() {
        Some(m) => assert!(obj_eq(m, &integer(2))),
        None => panic!("the metatable must survive the copy"),
    }
}
