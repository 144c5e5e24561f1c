use rig_vm::Instruction;
use rig_vm::RunOutcome;
use rig_vm::StepEvent;
use rig_vm::Value;
use rig_vm::VmError;
use rig_vm::VM;

fn num(x: f64) -> Value {
    Value::Number(x.to_bits())
}

fn text(s: &str) -> Value {
    Value::String(String::from(s))
}

/// Drives a run to its real end, answering every power request with the
/// platform's own floating-point power.
fn run_with_pow(vm: &mut VM) -> RunOutcome {
    loop {
        match vm.run() {
            RunOutcome::PowRequest { dst: _, base, exponent } => {
                let r = f64::from_bits(base).powf(f64::from_bits(exponent));
                assert!(vm.resume_pow(r.to_bits()));
            }
            other => return other,
        }
    }
}

#[test]
fn pow_through_resume() {
    let program = vec![
        Instruction::LoadConst { reg: 0, const_idx: 0 },
        Instruction::LoadConst { reg: 1, const_idx: 1 },
        Instruction::Pow { dst: 2, a: 0, b: 1 },
    ];
    let mut vm = VM::new(program, vec![num(2.0), num(10.0)]);
    assert_eq!(run_with_pow(&mut vm), RunOutcome::Halted);
    assert_eq!(vm.register(2), num(1024.0));
}

#[test]
fn pow_with_fractional_exponent() {
    let program = vec![
        Instruction::LoadConst { reg: 0, const_idx: 0 },
        Instruction::LoadConst { reg: 1, const_idx: 1 },
        Instruction::Pow { dst: 2, a: 0, b: 1 },
    ];
    let mut vm = VM::new(program, vec![num(9.0), num(0.5)]);
    assert_eq!(run_with_pow(&mut vm), RunOutcome::Halted);
    assert_eq!(vm.register(2), num(3.0));
}

#[test]
fn call_enters_a_fresh_empty_scope() {
    let program = vec![
        Instruction::LoadConst { reg: 1, const_idx: 0 },
        Instruction::SetScope { var_idx: 1, src: 1 },
        Instruction::Closure { reg: 2, func_idx: 4 },
        Instruction::Call { func_reg: 2, arg_count: 0 },
        Instruction::GetScope { dst: 3, var_idx: 1 },
    ];
    let mut vm = VM::new(program, vec![num(42.0)]);
    assert_eq!(vm.run(), RunOutcome::Halted);
    assert_eq!(vm.register(3), Value::Undefined);
    assert_eq!(vm.call_depth(), 1);
    assert_eq!(vm.scope_depth(), 2);
}

#[test]
fn pow_on_non_number_is_fatal() {
    let program = vec![
        Instruction::LoadBool { reg: 0, value: true },
        Instruction::LoadConst { reg: 1, const_idx: 0 },
        Instruction::Pow { dst: 2, a: 0, b: 1 },
    ];
    let mut vm = VM::new(program, vec![num(2.0)]);
    assert_eq!(vm.run(), RunOutcome::Fault(VmError::TypeMismatch));
}

#[test]
fn neg_on_non_number_is_fatal() {
    let program = vec![
        Instruction::LoadBool { reg: 1, value: true },
        Instruction::Neg { dst: 2, a: 1 },
    ];
    let mut vm = VM::new(program, Vec::new());
    assert_eq!(vm.run(), RunOutcome::Fault(VmError::TypeMismatch));
}

#[test]
fn add_on_string_is_fatal() {
    let program = vec![
        Instruction::LoadConst { reg: 0, const_idx: 0 },
        Instruction::LoadConst { reg: 1, const_idx: 1 },
        Instruction::Add { dst: 2, a: 0, b: 1 },
    ];
    let mut vm = VM::new(program, vec![text("a"), num(1.0)]);
    assert_eq!(vm.run(), RunOutcome::Fault(VmError::TypeMismatch));
}

#[test]
fn division_by_zero_gives_infinity() {
    let program = vec![
        Instruction::LoadConst { reg: 0, const_idx: 0 },
        Instruction::LoadConst { reg: 1, const_idx: 1 },
        Instruction::Div { dst: 2, a: 0, b: 1 },
    ];
    let mut vm = VM::new(program, vec![num(1.0), num(0.0)]);
    assert_eq!(vm.run(), RunOutcome::Halted);
    assert_eq!(vm.register(2), num(f64::INFINITY));
}

#[test]
fn comparison_results_land_in_register_zero() {
    let program = vec![
        Instruction::LoadConst { reg: 7, const_idx: 0 },
        Instruction::LoadConst { reg: 9, const_idx: 1 },
        Instruction::Lt { a: 7, b: 9 },
    ];
    let mut vm = VM::new(program, vec![num(3.0), num(5.0)]);
    assert_eq!(vm.run(), RunOutcome::Halted);
    assert_eq!(vm.register(0), Value::Boolean(true));
    assert_eq!(vm.register(7), num(3.0));
}

#[test]
fn nan_compares_unequal_but_not_fatal() {
    let program = vec![
        Instruction::LoadConst { reg: 1, const_idx: 0 },
        Instruction::LoadConst { reg: 2, const_idx: 0 },
        Instruction::Eq { a: 1, b: 2 },
    ];
    let mut vm = VM::new(program, vec![num(f64::NAN)]);
    assert_eq!(vm.run(), RunOutcome::Halted);
    assert_eq!(vm.register(0), Value::Boolean(false));

    let program = vec![
        Instruction::LoadConst { reg: 1, const_idx: 0 },
        Instruction::LoadConst { reg: 2, const_idx: 0 },
        Instruction::Lt { a: 1, b: 2 },
    ];
    let mut vm = VM::new(program, vec![num(f64::NAN)]);
    assert_eq!(vm.run(), RunOutcome::Halted);
    assert_eq!(vm.register(0), Value::Boolean(false));
}

#[test]
fn zeros_of_both_signs_are_equal() {
    let program = vec![
        Instruction::LoadConst { reg: 1, const_idx: 0 },
        Instruction::LoadConst { reg: 2, const_idx: 1 },
        Instruction::Eq { a: 1, b: 2 },
    ];
    let mut vm = VM::new(program, vec![num(0.0), num(-0.0)]);
    assert_eq!(vm.run(), RunOutcome::Halted);
    assert_eq!(vm.register(0), Value::Boolean(true));
}

#[test]
fn strings_compare_lexicographically() {
    let program = vec![
        Instruction::LoadConst { reg: 1, const_idx: 0 },
        Instruction::LoadConst { reg: 2, const_idx: 1 },
        Instruction::Lt { a: 1, b: 2 },
    ];
    let mut vm = VM::new(program, vec![text("apple"), text("banana")]);
    assert_eq!(vm.run(), RunOutcome::Halted);
    assert_eq!(vm.register(0), Value::Boolean(true));
}

#[test]
fn ordering_undefined_pairs_is_fatal() {
    let program = vec![
        Instruction::LoadUndefined { reg: 1 },
        Instruction::LoadNull { reg: 2 },
        Instruction::Lt { a: 1, b: 2 },
    ];
    let mut vm = VM::new(program, Vec::new());
    assert_eq!(vm.run(), RunOutcome::Fault(VmError::TypeMismatch));
}

#[test]
fn distinct_objects_are_unequal_aliased_objects_equal() {
    let program = vec![
        Instruction::NewObject { reg: 1 },
        Instruction::NewObject { reg: 2 },
        Instruction::Eq { a: 1, b: 2 },
    ];
    let mut vm = VM::new(program, Vec::new());
    assert_eq!(vm.run(), RunOutcome::Halted);
    assert_eq!(vm.register(0), Value::Boolean(false));

    let program = vec![
        Instruction::NewObject { reg: 1 },
        Instruction::Move { dst: 2, src: 1 },
        Instruction::Eq { a: 1, b: 2 },
    ];
    let mut vm = VM::new(program, Vec::new());
    assert_eq!(vm.run(), RunOutcome::Halted);
    assert_eq!(vm.register(0), Value::Boolean(true));
}

#[test]
fn jmp_moves_counter_by_offset() {
    let program = vec![
        Instruction::Jmp { offset: 2 },
        Instruction::LoadBool { reg: 1, value: true },
        Instruction::LoadBool { reg: 2, value: true },
    ];
    let mut vm = VM::new(program, Vec::new());
    assert_eq!(vm.run(), RunOutcome::Halted);
    assert_eq!(vm.register(1), Value::Undefined);
    assert_eq!(vm.register(2), Value::Boolean(true));
}

#[test]
fn jmp_to_negative_counter_is_fatal() {
    let program = vec![Instruction::Jmp { offset: -5 }];
    let mut vm = VM::new(program, Vec::new());
    assert_eq!(vm.run(), RunOutcome::Fault(VmError::OutOfRange));
}

#[test]
fn jmpif_requires_exactly_boolean_true() {
    for (constant, jumps) in [
        (Value::Boolean(true), true),
        (Value::Boolean(false), false),
        (num(0.0), false),
        (num(1.0), false),
        (Value::Undefined, false),
        (Value::Null, false),
    ] {
        let program = vec![
            Instruction::LoadConst { reg: 1, const_idx: 0 },
            Instruction::JmpIf { cond: 1, offset: 2 },
            Instruction::LoadBool { reg: 2, value: true },
        ];
        let mut vm = VM::new(program, vec![constant]);
        assert_eq!(vm.run(), RunOutcome::Halted);
        let skipped = vm.register(2) == Value::Undefined;
        assert_eq!(skipped, jumps);
    }
}

#[test]
fn backward_jmpif_counts_down() {
    // r1 counts down from 3; the loop body runs until r1 <= 0.0 turns false.
    let program = vec![
        Instruction::LoadConst { reg: 1, const_idx: 0 },
        Instruction::LoadConst { reg: 2, const_idx: 1 },
        Instruction::Sub { dst: 1, a: 1, b: 2 },
        Instruction::LoadConst { reg: 3, const_idx: 2 },
        Instruction::Lt { a: 3, b: 1 },
        Instruction::JmpIf { cond: 0, offset: -3 },
    ];
    let mut vm = VM::new(program, vec![num(3.0), num(1.0), num(0.0)]);
    assert_eq!(vm.run(), RunOutcome::Halted);
    assert_eq!(vm.register(1), num(0.0));
}

#[test]
fn set_elem_grows_with_undefined() {
    let program = vec![
        Instruction::NewArray { reg: 1 },
        Instruction::LoadConst { reg: 2, const_idx: 0 },
        Instruction::LoadConst { reg: 3, const_idx: 1 },
        Instruction::SetElem { array: 1, index: 2, value: 3 },
    ];
    let mut vm = VM::new(program, vec![num(3.0), num(9.0)]);
    assert_eq!(vm.run(), RunOutcome::Halted);
    assert_eq!(vm.array_len(0), Some(4));
    assert_eq!(vm.array_get(0, 0), Some(Value::Undefined));
    assert_eq!(vm.array_get(0, 1), Some(Value::Undefined));
    assert_eq!(vm.array_get(0, 2), Some(Value::Undefined));
    assert_eq!(vm.array_get(0, 3), Some(num(9.0)));
}

#[test]
fn get_elem_out_of_range_reads_undefined() {
    let program = vec![
        Instruction::NewArray { reg: 1 },
        Instruction::LoadConst { reg: 2, const_idx: 0 },
        Instruction::LoadBool { reg: 3, value: true },
        Instruction::GetElem { dst: 3, array: 1, index: 2 },
    ];
    let mut vm = VM::new(program, vec![num(7.0)]);
    assert_eq!(vm.run(), RunOutcome::Halted);
    assert_eq!(vm.register(3), Value::Undefined);
}

#[test]
fn elem_index_truncates_toward_zero() {
    let program = vec![
        Instruction::NewArray { reg: 1 },
        Instruction::LoadConst { reg: 2, const_idx: 0 },
        Instruction::LoadConst { reg: 3, const_idx: 1 },
        Instruction::SetElem { array: 1, index: 2, value: 3 },
    ];
    let mut vm = VM::new(program, vec![num(2.9), num(8.0)]);
    assert_eq!(vm.run(), RunOutcome::Halted);
    assert_eq!(vm.array_len(0), Some(3));
    assert_eq!(vm.array_get(0, 2), Some(num(8.0)));
}

#[test]
fn get_prop_missing_key_reads_undefined() {
    let program = vec![
        Instruction::NewObject { reg: 1 },
        Instruction::LoadConst { reg: 2, const_idx: 0 },
        Instruction::LoadBool { reg: 3, value: true },
        Instruction::GetProp { dst: 3, obj: 1, key: 2 },
    ];
    let mut vm = VM::new(program, vec![text("missing")]);
    assert_eq!(vm.run(), RunOutcome::Halted);
    assert_eq!(vm.register(3), Value::Undefined);
}

#[test]
fn set_prop_get_prop_round_trips() {
    let program = vec![
        Instruction::NewObject { reg: 1 },
        Instruction::LoadConst { reg: 2, const_idx: 0 },
        Instruction::LoadConst { reg: 3, const_idx: 1 },
        Instruction::SetProp { obj: 1, key: 2, value: 3 },
        Instruction::GetProp { dst: 4, obj: 1, key: 2 },
    ];
    let mut vm = VM::new(program, vec![text("answer"), num(42.0)]);
    assert_eq!(vm.run(), RunOutcome::Halted);
    assert_eq!(vm.register(4), num(42.0));
}

#[test]
fn get_prop_on_non_object_is_fatal() {
    let program = vec![
        Instruction::LoadConst { reg: 1, const_idx: 0 },
        Instruction::LoadConst { reg: 2, const_idx: 1 },
        Instruction::GetProp { dst: 3, obj: 1, key: 2 },
    ];
    let mut vm = VM::new(program, vec![num(1.0), text("k")]);
    assert_eq!(vm.run(), RunOutcome::Fault(VmError::TypeMismatch));
}

#[test]
fn load_const_out_of_range_is_fatal() {
    let program = vec![Instruction::LoadConst { reg: 0, const_idx: 5 }];
    let mut vm = VM::new(program, Vec::new());
    assert_eq!(vm.run(), RunOutcome::Fault(VmError::OutOfRange));
}

#[test]
fn call_pushes_counter_and_scope() {
    let program = vec![
        Instruction::Closure { reg: 1, func_idx: 5 },
        Instruction::Call { func_reg: 1, arg_count: 0 },
    ];
    let mut vm = VM::new(program, Vec::new());
    assert_eq!(vm.run(), RunOutcome::Halted);
    assert_eq!(vm.counter(), 5);
    assert_eq!(vm.call_depth(), 1);
    assert_eq!(vm.scope_depth(), 2);
}

#[test]
fn return_restores_pushed_counter_and_pops_scope() {
    let program = vec![
        Instruction::Closure { reg: 1, func_idx: 2 },
        Instruction::Call { func_reg: 1, arg_count: 0 },
        Instruction::Return { start_reg: 9, count: 3 },
    ];
    let mut vm = VM::new(program, Vec::new());
    assert_eq!(vm.step_once(), StepEvent::Continue);
    assert_eq!(vm.step_once(), StepEvent::Continue);
    assert_eq!(vm.counter(), 2);
    assert_eq!(vm.call_depth(), 1);
    assert_eq!(vm.scope_depth(), 2);
    assert_eq!(vm.step_once(), StepEvent::Continue);
    assert_eq!(vm.counter(), 1);
    assert_eq!(vm.call_depth(), 0);
    assert_eq!(vm.scope_depth(), 1);
}

#[test]
fn call_on_non_function_is_fatal() {
    let program = vec![
        Instruction::LoadConst { reg: 1, const_idx: 0 },
        Instruction::Call { func_reg: 1, arg_count: 0 },
    ];
    let mut vm = VM::new(program, vec![num(3.0)]);
    assert_eq!(vm.run(), RunOutcome::Fault(VmError::TypeMismatch));
}

#[test]
fn return_without_call_is_fatal() {
    let program = vec![Instruction::Return { start_reg: 0, count: 0 }];
    let mut vm = VM::new(program, Vec::new());
    assert_eq!(vm.run(), RunOutcome::Fault(VmError::ReturnWithoutCall));
}

#[test]
fn type_of_yields_exact_tags() {
    let program = vec![
        Instruction::LoadUndefined { reg: 1 },
        Instruction::TypeOf { dst: 11, src: 1 },
        Instruction::LoadNull { reg: 2 },
        Instruction::TypeOf { dst: 12, src: 2 },
        Instruction::LoadBool { reg: 3, value: false },
        Instruction::TypeOf { dst: 13, src: 3 },
        Instruction::LoadConst { reg: 4, const_idx: 0 },
        Instruction::TypeOf { dst: 14, src: 4 },
        Instruction::LoadConst { reg: 5, const_idx: 1 },
        Instruction::TypeOf { dst: 15, src: 5 },
        Instruction::NewObject { reg: 6 },
        Instruction::TypeOf { dst: 16, src: 6 },
        Instruction::NewArray { reg: 7 },
        Instruction::TypeOf { dst: 17, src: 7 },
        Instruction::Closure { reg: 8, func_idx: 0 },
        Instruction::TypeOf { dst: 18, src: 8 },
    ];
    let mut vm = VM::new(program, vec![num(1.5), text("hey")]);
    assert_eq!(vm.run(), RunOutcome::Halted);
    assert_eq!(vm.register(11), text("undefined"));
    assert_eq!(vm.register(12), text("object"));
    assert_eq!(vm.register(13), text("boolean"));
    assert_eq!(vm.register(14), text("number"));
    assert_eq!(vm.register(15), text("string"));
    assert_eq!(vm.register(16), text("object"));
    assert_eq!(vm.register(17), text("object"));
    assert_eq!(vm.register(18), text("function"));
}

#[test]
fn instance_of_only_aggregate_with_function() {
    let program = vec![
        Instruction::NewObject { reg: 1 },
        Instruction::NewArray { reg: 2 },
        Instruction::Closure { reg: 3, func_idx: 0 },
        Instruction::LoadConst { reg: 4, const_idx: 0 },
        Instruction::InstanceOf { dst: 11, obj: 1, ctor: 3 },
        Instruction::InstanceOf { dst: 12, obj: 2, ctor: 3 },
        Instruction::InstanceOf { dst: 13, obj: 4, ctor: 3 },
        Instruction::InstanceOf { dst: 14, obj: 1, ctor: 1 },
        Instruction::InstanceOf { dst: 15, obj: 3, ctor: 3 },
    ];
    let mut vm = VM::new(program, vec![num(2.0)]);
    assert_eq!(vm.run(), RunOutcome::Halted);
    assert_eq!(vm.register(11), Value::Boolean(true));
    assert_eq!(vm.register(12), Value::Boolean(true));
    assert_eq!(vm.register(13), Value::Boolean(false));
    assert_eq!(vm.register(14), Value::Boolean(false));
    assert_eq!(vm.register(15), Value::Boolean(false));
}

#[test]
fn scope_set_then_get_round_trips() {
    let program = vec![
        Instruction::LoadConst { reg: 1, const_idx: 0 },
        Instruction::SetScope { var_idx: 7, src: 1 },
        Instruction::GetScope { dst: 2, var_idx: 7 },
        Instruction::GetScope { dst: 3, var_idx: 8 },
    ];
    let mut vm = VM::new(program, vec![num(42.0)]);
    assert_eq!(vm.run(), RunOutcome::Halted);
    assert_eq!(vm.register(2), num(42.0));
    assert_eq!(vm.register(3), Value::Undefined);
}

#[test]
fn declare_var_binds_undefined() {
    let program = vec![
        Instruction::LoadConst { reg: 1, const_idx: 0 },
        Instruction::SetScope { var_idx: 3, src: 1 },
        Instruction::DeclareVar { name_idx: 3 },
        Instruction::GetScope { dst: 2, var_idx: 3 },
    ];
    let mut vm = VM::new(program, vec![num(5.0)]);
    assert_eq!(vm.run(), RunOutcome::Halted);
    assert_eq!(vm.register(2), Value::Undefined);
}

#[test]
fn declare_func_stores_current_counter() {
    let program = vec![
        Instruction::LoadNull { reg: 9 },
        Instruction::DeclareFunc { reg: 1, name_idx: 0, param_count: 2 },
    ];
    let mut vm = VM::new(program, Vec::new());
    assert_eq!(vm.run(), RunOutcome::Halted);
    assert_eq!(vm.register(1), Value::Function(1));
}

#[test]
fn use_strict_sets_the_flag() {
    let program = vec![Instruction::UseStrict];
    let mut vm = VM::new(program, Vec::new());
    assert!(!vm.strict_mode());
    assert_eq!(vm.run(), RunOutcome::Halted);
    assert!(vm.strict_mode());
}

#[test]
fn resume_pow_refuses_when_nothing_pends() {
    let program = vec![Instruction::LoadNull { reg: 1 }];
    let mut vm = VM::new(program, Vec::new());
    assert!(!vm.resume_pow(0));
    assert_eq!(vm.register(1), Value::Undefined);
}
