use noir_debugger::debug_types::{resolve_type, DebugTypes, Type, TypeBinding};
use noir_debugger::debug_vars::{has_distinct_fields, DebugVars, StoreError};
use noir_debugger::decode::DecodeError;
use noir_debugger::field::FieldElement;
use noir_debugger::foreign_calls::{execute_debug_call, DebugForeignCall, ForeignCallOutcome};
use noir_debugger::printable::PrintableType;
use noir_debugger::value::PrintableValue;
use std::collections::HashMap;

fn f(v: u128) -> FieldElement {
    FieldElement::from_u128(v)
}

fn fs(values: &[u128]) -> Vec<FieldElement> {
    values.iter().map(|v| f(*v)).collect()
}

fn point_type() -> PrintableType {
    PrintableType::Struct {
        name: "Point".to_string(),
        fields: vec![
            ("x".to_string(), PrintableType::Field),
            (
                "tags".to_string(),
                PrintableType::Array {
                    length: Some(2),
                    typ: Box::new(PrintableType::UnsignedInteger { width: 8 }),
                },
            ),
            (
                "pair".to_string(),
                PrintableType::Tuple { types: vec![PrintableType::Boolean, PrintableType::Field] },
            ),
        ],
    }
}

fn main_type() -> PrintableType {
    PrintableType::Function {
        name: "main".to_string(),
        arguments: vec![
            ("p".to_string(), point_type()),
            ("n".to_string(), PrintableType::Field),
        ],
    }
}

/// A store that knows variable 0 as function `main`, 1 as `p: Point` and 2
/// as `n: Field`, with the frame of `main` open.
fn store_in_main() -> DebugVars {
    let mut store = DebugVars::new(&HashMap::new());
    let mut vars = HashMap::new();
    vars.insert(0u32, ("main".to_string(), 10u32));
    vars.insert(1u32, ("p".to_string(), 11u32));
    vars.insert(2u32, ("n".to_string(), 12u32));
    store.insert_variables(&vars);
    let mut types = HashMap::new();
    types.insert(10u32, main_type());
    types.insert(11u32, point_type());
    types.insert(12u32, PrintableType::Field);
    store.insert_types(&types);
    store.push_fn(0);
    store
}

fn point_value(x: u128, tags: [u128; 2], flag: u128, last: u128) -> PrintableValue {
    PrintableValue::Struct(vec![
        ("x".to_string(), PrintableValue::Field(f(x))),
        (
            "tags".to_string(),
            PrintableValue::Vec(vec![PrintableValue::Field(f(tags[0])), PrintableValue::Field(f(tags[1]))]),
        ),
        (
            "pair".to_string(),
            PrintableValue::Vec(vec![PrintableValue::Field(f(flag)), PrintableValue::Field(f(last))]),
        ),
    ])
}

#[test]
fn new_store_has_no_frames() {
    let store = DebugVars::new(&HashMap::new());
    assert_eq!(store.frame_count(), 0);
    assert_eq!(store.try_get_variables(), Some(vec![]));
}

#[test]
fn assign_binds_in_top_frame_only() {
    let mut store = store_in_main();
    store.assign(2, &fs(&[7]));
    store.push_fn(0);
    assert_eq!(store.get(2), None);
    store.assign(2, &fs(&[8]));
    assert_eq!(store.get(2), Some(&PrintableValue::Field(f(8))));
    store.pop_fn();
    assert_eq!(store.get(2), Some(&PrintableValue::Field(f(7))));
}

#[test]
fn try_assign_reports_each_error() {
    let mut store = DebugVars::new(&HashMap::new());
    assert_eq!(store.try_assign(2, &fs(&[1])), Err(StoreError::UnknownType));
    let mut store = store_in_main();
    store.pop_fn();
    assert_eq!(store.try_assign(2, &fs(&[1])), Err(StoreError::NoFrame));
    let mut store = store_in_main();
    assert_eq!(
        store.try_assign(2, &fs(&[])),
        Err(StoreError::Decode(DecodeError::MissingData))
    );
    assert_eq!(store.try_assign(99, &fs(&[1])), Err(StoreError::UnknownType));
    assert_eq!(store.assign_deref(2, &fs(&[1])), Err(StoreError::Unsupported));
}

#[test]
fn drop_removes_from_top_frame_only() {
    let mut store = store_in_main();
    store.assign(2, &fs(&[7]));
    store.push_fn(0);
    store.assign(2, &fs(&[8]));
    store.drop(2);
    assert_eq!(store.get(2), None);
    store.pop_fn();
    assert_eq!(store.get(2), Some(&PrintableValue::Field(f(7))));
}

#[test]
fn dropped_variable_is_no_longer_reported() {
    let mut store = store_in_main();
    store.assign(2, &fs(&[7]));
    let frames = store.get_variables();
    assert_eq!(frames[0].variables.len(), 1);
    store.drop(2);
    let frames = store.get_variables();
    assert_eq!(frames.len(), 1);
    assert!(frames[0].variables.is_empty());
}

#[test]
fn parameters_are_live_after_assignments() {
    let mut store = store_in_main();
    store.assign(1, &fs(&[1, 2, 3, 1, 9]));
    store.assign(2, &fs(&[7]));
    let frames = store.get_variables();
    assert_eq!(frames.len(), 1);
    assert_eq!(frames[0].function_name, "main");
    assert_eq!(frames[0].function_params, vec!["p".to_string(), "n".to_string()]);
    let mut names: Vec<String> = frames[0].variables.iter().map(|v| v.0.clone()).collect();
    names.sort();
    assert_eq!(names, vec!["n".to_string(), "p".to_string()]);
    let n = frames[0].variables.iter().find(|v| v.0 == "n").unwrap();
    assert_eq!(n.1, PrintableValue::Field(f(7)));
    assert_eq!(n.2, PrintableType::Field);
}

#[test]
fn get_variables_needs_function_types() {
    let mut store = store_in_main();
    store.push_fn(2);
    assert_eq!(store.try_get_variables(), None);
}

#[test]
fn assign_field_changes_only_the_path() {
    let mut store = store_in_main();
    store.assign(1, &fs(&[1, 2, 3, 1, 9]));
    assert_eq!(store.get(1), Some(&point_value(1, [2, 3], 1, 9)));
    store.assign_field(1, vec![1, 0], &fs(&[50]));
    assert_eq!(store.get(1), Some(&point_value(1, [50, 3], 1, 9)));
    store.assign_field(1, vec![2, 1], &fs(&[60]));
    assert_eq!(store.get(1), Some(&point_value(1, [50, 3], 1, 60)));
    store.assign_field(1, vec![0], &fs(&[70]));
    assert_eq!(store.get(1), Some(&point_value(70, [50, 3], 1, 60)));
    store.assign_field(1, vec![1], &fs(&[4, 5]));
    assert_eq!(store.get(1), Some(&point_value(70, [4, 5], 1, 60)));
}

#[test]
fn assign_field_refuses_bad_paths() {
    let mut store = store_in_main();
    store.assign(1, &fs(&[1, 2, 3, 1, 9]));
    let before = store.get(1).cloned();
    assert_eq!(store.try_assign_field(1, vec![3], &fs(&[0])), Err(StoreError::BadPath));
    assert_eq!(store.try_assign_field(1, vec![1, 2], &fs(&[0])), Err(StoreError::BadPath));
    assert_eq!(store.try_assign_field(1, vec![0, 0], &fs(&[0])), Err(StoreError::BadPath));
    assert_eq!(store.try_assign_field(2, vec![0], &fs(&[0])), Err(StoreError::UnknownVariable));
    assert_eq!(
        store.try_assign_field(1, vec![1, 0], &fs(&[])),
        Err(StoreError::Decode(DecodeError::MissingData))
    );
    assert_eq!(store.get(1).cloned(), before);
    store.pop_fn();
    assert_eq!(store.try_assign_field(1, vec![0], &fs(&[0])), Err(StoreError::NoFrame));
}

#[test]
fn insert_variables_twice_is_the_same_as_once() {
    let mut store = store_in_main();
    let mut vars = HashMap::new();
    vars.insert(2u32, ("n".to_string(), 12u32));
    store.insert_variables(&vars);
    store.insert_variables(&vars);
    assert_eq!(store.get_type(2), Some(&PrintableType::Field));
    assert_eq!(store.get_type(5), None);
}

#[test]
fn foreign_call_names() {
    assert_eq!(DebugForeignCall::lookup("__debug_var_assign"), Some(DebugForeignCall::VarAssign));
    assert_eq!(DebugForeignCall::lookup("__debug_var_drop"), Some(DebugForeignCall::VarDrop));
    assert_eq!(
        DebugForeignCall::lookup("__debug_member_assign"),
        Some(DebugForeignCall::MemberAssign)
    );
    assert_eq!(
        DebugForeignCall::lookup("__debug_member_assign_placeholder"),
        Some(DebugForeignCall::MemberAssignPlaceholder)
    );
    assert_eq!(
        DebugForeignCall::lookup("__debug_dereference_assign"),
        Some(DebugForeignCall::DerefAssign)
    );
    assert_eq!(DebugForeignCall::lookup("print"), None);
}

#[test]
fn debug_calls_reach_the_store() {
    let mut store = store_in_main();
    let assign = vec![fs(&[1]), fs(&[1]), fs(&[2, 3]), fs(&[1, 9])];
    assert_eq!(
        execute_debug_call(&mut store, "__debug_var_assign", &assign),
        ForeignCallOutcome::Handled
    );
    assert_eq!(store.get(1), Some(&point_value(1, [2, 3], 1, 9)));
    // the program names the outermost step first: `.tags[1]` arrives as [1, 1] reversed
    let member = vec![fs(&[1]), fs(&[0, 1]), fs(&[77])];
    assert_eq!(
        execute_debug_call(&mut store, "__debug_member_assign", &member),
        ForeignCallOutcome::Handled
    );
    assert_eq!(store.get(1), Some(&point_value(1, [77, 3], 1, 9)));
    let placeholder = vec![fs(&[1]), fs(&[1, 2]), fs(&[0]), fs(&[88])];
    assert_eq!(
        execute_debug_call(&mut store, "__debug_member_assign_placeholder", &placeholder),
        ForeignCallOutcome::Handled
    );
    assert_eq!(store.get(1), Some(&point_value(1, [77, 3], 1, 88)));
    assert_eq!(
        execute_debug_call(&mut store, "__debug_var_drop", &vec![fs(&[1])]),
        ForeignCallOutcome::Handled
    );
    assert_eq!(store.get(1), None);
}

#[test]
fn debug_calls_that_are_refused() {
    let mut store = store_in_main();
    assert_eq!(execute_debug_call(&mut store, "println", &vec![]), ForeignCallOutcome::Forward);
    assert_eq!(
        execute_debug_call(&mut store, "__debug_var_assign", &vec![]),
        ForeignCallOutcome::MissingInputs
    );
    assert_eq!(
        execute_debug_call(&mut store, "__debug_member_assign", &vec![fs(&[1])]),
        ForeignCallOutcome::MissingInputs
    );
    assert_eq!(
        execute_debug_call(&mut store, "__debug_dereference_assign", &vec![fs(&[1]), fs(&[2])]),
        ForeignCallOutcome::Refused(StoreError::Unsupported)
    );
    assert_eq!(
        execute_debug_call(&mut store, "__debug_var_assign", &vec![fs(&[9]), fs(&[2])]),
        ForeignCallOutcome::Refused(StoreError::UnknownType)
    );
    store.pop_fn();
    assert_eq!(
        execute_debug_call(&mut store, "__debug_var_drop", &vec![fs(&[1])]),
        ForeignCallOutcome::Refused(StoreError::NoFrame)
    );
}

#[test]
fn loop_body_variables_per_iteration() {
    // for i in 0..3 { let a = i * 2; }: variable 3 is `i`, variable 4 is `a`
    let mut store = store_in_main();
    let mut vars = HashMap::new();
    vars.insert(3u32, ("i".to_string(), 12u32));
    vars.insert(4u32, ("a".to_string(), 12u32));
    store.insert_variables(&vars);
    for i in 0u128..3 {
        execute_debug_call(&mut store, "__debug_var_assign", &vec![fs(&[3]), fs(&[i])]);
        execute_debug_call(&mut store, "__debug_var_assign", &vec![fs(&[4]), fs(&[i * 2])]);
        // the breakpoint on the body line is hit here
        assert_eq!(store.get(3), Some(&PrintableValue::Field(f(i))));
        assert_eq!(store.get(4), Some(&PrintableValue::Field(f(i * 2))));
        let frames = store.get_variables();
        assert_eq!(frames[0].variables.len(), 2);
        execute_debug_call(&mut store, "__debug_var_drop", &vec![fs(&[4])]);
        execute_debug_call(&mut store, "__debug_var_drop", &vec![fs(&[3])]);
    }
    assert!(store.get_variables()[0].variables.is_empty());
}

#[test]
fn registry_shares_type_ids() {
    let mut registry = DebugTypes::new();
    registry.insert_var(0, "a", Type::Printable(PrintableType::Field));
    registry.insert_var(1, "b", Type::Printable(PrintableType::Boolean));
    registry.insert_var(
        2,
        "c",
        Type::TypeVariable(TypeBinding::Bound(Box::new(Type::Printable(PrintableType::Field)))),
    );
    assert_eq!(registry.get_type(0), Some(&PrintableType::Field));
    assert_eq!(registry.get_type(1), Some(&PrintableType::Boolean));
    assert_eq!(registry.get_type(2), Some(&PrintableType::Field));
    assert_eq!(registry.get_type(3), None);
    let (variables, types) = registry.into_variable_types();
    assert_eq!(variables.get(&0), Some(&("a".to_string(), 0)));
    assert_eq!(variables.get(&1), Some(&("b".to_string(), 1)));
    assert_eq!(variables.get(&2), Some(&("c".to_string(), 0)));
    assert_eq!(types.len(), 2);
    assert_eq!(types.get(&0), Some(&PrintableType::Field));
    assert_eq!(types.get(&1), Some(&PrintableType::Boolean));
}

#[test]
fn resolve_type_follows_one_binding() {
    let inner = Type::NamedGeneric(TypeBinding::Unbound);
    let bound = Type::NamedGeneric(TypeBinding::Bound(Box::new(inner)));
    assert!(matches!(resolve_type(bound), Type::NamedGeneric(TypeBinding::Unbound)));
    assert!(matches!(
        resolve_type(Type::Printable(PrintableType::Field)),
        Type::Printable(PrintableType::Field)
    ));
}

#[test]
fn reset_closes_every_frame_and_keeps_the_symbols() {
    let mut store = store_in_main();
    store.assign(2, &fs(&[7]));
    store.push_fn(0);
    store.assign(2, &fs(&[8]));
    assert_eq!(store.frame_count(), 2);
    store.reset();
    assert_eq!(store.frame_count(), 0);
    assert_eq!(store.get_variables(), vec![]);
    // the names and types are still known
    assert_eq!(store.get_type(2), Some(&PrintableType::Field));
    store.push_fn(0);
    let frames = store.get_variables();
    assert_eq!(frames.len(), 1);
    assert_eq!(frames[0].function_name, "main");
    assert!(frames[0].variables.is_empty());
    store.reset();
    store.reset();
    assert_eq!(store.frame_count(), 0);
}

#[test]
fn distinct_field_names_are_told_from_repeated_ones() {
    assert!(has_distinct_fields(&PrintableType::Field));
    assert!(has_distinct_fields(&point_type()));
    assert!(has_distinct_fields(&main_type()));
    let repeated = PrintableType::Struct {
        name: "R".to_string(),
        fields: vec![
            ("a".to_string(), PrintableType::Field),
            ("b".to_string(), PrintableType::Boolean),
            ("a".to_string(), PrintableType::Field),
        ],
    };
    assert!(!has_distinct_fields(&repeated));
    let in_array = PrintableType::Array { length: Some(2), typ: Box::new(repeated.clone()) };
    assert!(!has_distinct_fields(&in_array));
    let in_tuple = PrintableType::Tuple { types: vec![PrintableType::Field, in_array] };
    assert!(!has_distinct_fields(&in_tuple));
    let in_field = PrintableType::Struct {
        name: "S".to_string(),
        fields: vec![("x".to_string(), point_type()), ("y".to_string(), repeated)],
    };
    assert!(!has_distinct_fields(&in_field));
    let nested = PrintableType::Struct {
        name: "S".to_string(),
        fields: vec![("x".to_string(), point_type()), ("y".to_string(), point_type())],
    };
    assert!(has_distinct_fields(&nested));
    assert!(has_distinct_fields(&PrintableType::Tuple { types: vec![] }));
}
