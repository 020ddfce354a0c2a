use minilua::numeric::compare_numbers;
use minilua::semantics::Native;
use minilua::vm::{EvalValue, VirtualMachine};

#[test]
fn new_machine_binds_print() {
    let vm = VirtualMachine::new();
    assert_eq!(vm.lookup_variable(&"print".to_string()), Some(EvalValue::NativeFunction(Native::Print)));
    assert_eq!(vm.lookup_variable(&"x".to_string()), None);
    assert_eq!(vm.output(), "");
}

#[test]
fn inner_declarations_shadow_and_vanish() {
    let mut vm = VirtualMachine::new();
    vm.declare_variable("x".to_string(), EvalValue::Number(1));
    vm.enter_scope();
    vm.declare_variable("x".to_string(), EvalValue::Number(2));
    assert_eq!(vm.lookup_variable(&"x".to_string()), Some(EvalValue::Number(2)));
    vm.exit_scope();
    assert_eq!(vm.lookup_variable(&"x".to_string()), Some(EvalValue::Number(1)));
}

#[test]
fn assignment_changes_the_nearest_binding_or_creates_a_global() {
    let mut vm = VirtualMachine::new();
    vm.declare_variable("x".to_string(), EvalValue::Number(1));
    vm.enter_scope();
    vm.enter_scope();
    vm.change_or_create_value("x".to_string(), EvalValue::Number(5));
    vm.change_or_create_value("y".to_string(), EvalValue::Boolean(true));
    vm.exit_scope();
    vm.exit_scope();
    assert_eq!(vm.lookup_variable(&"x".to_string()), Some(EvalValue::Number(5)));
    assert_eq!(vm.lookup_variable(&"y".to_string()), Some(EvalValue::Boolean(true)));
}

#[test]
fn truthiness() {
    assert!(!EvalValue::Nil.is_true());
    assert!(!EvalValue::Boolean(false).is_true());
    assert!(EvalValue::Boolean(true).is_true());
    assert!(EvalValue::Number(0).is_true());
    assert!(EvalValue::String(String::new()).is_true());
    assert!(EvalValue::String("x".to_string()).is_true());
}

#[test]
fn tables_store_by_key() {
    let mut vm = VirtualMachine::new();
    let mut t = Vec::new();
    minilua::vm::table_put(&mut t, EvalValue::Number(1), EvalValue::Boolean(true));
    minilua::vm::table_put(&mut t, EvalValue::Number(1), EvalValue::Boolean(false));
    assert_eq!(t.len(), 1);
    let id = vm.new_table(t);
    assert_eq!(vm.table_lookup(id, &EvalValue::Number(1)), Some(EvalValue::Boolean(false)));
    assert_eq!(vm.table_lookup(id, &EvalValue::Number(2)), Some(EvalValue::Nil));
    assert_eq!(vm.table_lookup(id + 1, &EvalValue::Nil), None);
}

#[test]
fn number_comparison_matches_ieee() {
    let values = [0.0f64, -0.0, 1.0, -1.0, 2.5, f64::INFINITY, f64::NEG_INFINITY, f64::NAN, 1e-300, -3e200];
    for a in values {
        for b in values {
            let (lt, le, eq) = compare_numbers(a.to_bits(), b.to_bits());
            assert_eq!(lt, a < b, "{} < {}", a, b);
            assert_eq!(le, a <= b, "{} <= {}", a, b);
            assert_eq!(eq, a == b, "{} == {}", a, b);
        }
    }
}
