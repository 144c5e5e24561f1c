use rig_vm::Instruction;
use rig_vm::RunOutcome;
use rig_vm::Value;
use rig_vm::VM;

fn num(x: f64) -> Value {
    Value::Number(x.to_bits())
}

#[test]
fn test_move() {
    let program = vec![
        Instruction::LoadConst { reg: 0, const_idx: 0 },
        Instruction::Move { dst: 1, src: 0 },
    ];
    let constants = vec![num(10.0)];

    let mut vm = VM::new(program, constants);
    vm.run();

    assert_eq!(vm.register(1), num(10.0));
}

#[test]
fn test_add() {
    let program = vec![
        Instruction::LoadConst { reg: 0, const_idx: 0 },
        Instruction::LoadConst { reg: 1, const_idx: 1 },
        Instruction::Add { dst: 2, a: 0, b: 1 },
    ];
    let constants = vec![num(5.0), num(7.0)];

    let mut vm = VM::new(program, constants);
    vm.run();

    assert_eq!(vm.register(2), num(12.0));
}

#[test]
fn test_sub() {
    let program = vec![
        Instruction::LoadConst { reg: 0, const_idx: 0 },
        Instruction::LoadConst { reg: 1, const_idx: 1 },
        Instruction::Sub { dst: 2, a: 0, b: 1 },
    ];
    let constants = vec![num(10.0), num(3.0)];

    let mut vm = VM::new(program, constants);
    vm.run();

    assert_eq!(vm.register(2), num(7.0));
}

#[test]
fn test_mul() {
    let program = vec![
        Instruction::LoadConst { reg: 0, const_idx: 0 },
        Instruction::LoadConst { reg: 1, const_idx: 1 },
        Instruction::Mul { dst: 2, a: 0, b: 1 },
    ];
    let constants = vec![num(4.0), num(3.0)];

    let mut vm = VM::new(program, constants);
    vm.run();

    assert_eq!(vm.register(2), num(12.0));
}

#[test]
fn test_div() {
    let program = vec![
        Instruction::LoadConst { reg: 0, const_idx: 0 },
        Instruction::LoadConst { reg: 1, const_idx: 1 },
        Instruction::Div { dst: 2, a: 0, b: 1 },
    ];
    let constants = vec![num(8.0), num(2.0)];

    let mut vm = VM::new(program, constants);
    vm.run();

    assert_eq!(vm.register(2), num(4.0));
}

#[test]
fn test_mod() {
    let program = vec![
        Instruction::LoadConst { reg: 0, const_idx: 0 },
        Instruction::LoadConst { reg: 1, const_idx: 1 },
        Instruction::Mod { dst: 2, a: 0, b: 1 },
    ];
    let constants = vec![num(10.0), num(3.0)];

    let mut vm = VM::new(program, constants);
    vm.run();

    assert_eq!(vm.register(2), num(1.0));
}

#[test]
fn test_neg() {
    let program = vec![
        Instruction::LoadConst { reg: 0, const_idx: 0 },
        Instruction::Neg { dst: 1, a: 0 },
    ];
    let constants = vec![num(5.0)];

    let mut vm = VM::new(program, constants);
    vm.run();

    assert_eq!(vm.register(1), num(-5.0));
}

#[test]
fn test_eq() {
    let program = vec![
        Instruction::LoadConst { reg: 0, const_idx: 0 },
        Instruction::LoadConst { reg: 1, const_idx: 1 },
        Instruction::Eq { a: 0, b: 1 },
    ];
    let constants = vec![num(5.0), num(5.0)];

    let mut vm = VM::new(program, constants);
    vm.run();

    assert_eq!(vm.register(0), Value::Boolean(true));
}

#[test]
fn test_lt() {
    let program = vec![
        Instruction::LoadConst { reg: 0, const_idx: 0 },
        Instruction::LoadConst { reg: 1, const_idx: 1 },
        Instruction::Lt { a: 0, b: 1 },
    ];
    let constants = vec![num(3.0), num(5.0)];

    let mut vm = VM::new(program, constants);
    vm.run();

    assert_eq!(vm.register(0), Value::Boolean(true));
}

#[test]
fn test_le() {
    let program = vec![
        Instruction::LoadConst { reg: 0, const_idx: 0 },
        Instruction::LoadConst { reg: 1, const_idx: 1 },
        Instruction::Le { a: 0, b: 1 },
    ];
    let constants = vec![num(5.0), num(5.0)];

    let mut vm = VM::new(program, constants);
    vm.run();

    assert_eq!(vm.register(0), Value::Boolean(true));
}

#[test]
fn test_run_halts() {
    let program = vec![Instruction::LoadNull { reg: 3 }];
    let mut vm = VM::new(program, Vec::new());
    assert_eq!(vm.run(), RunOutcome::Halted);
    assert_eq!(vm.register(3), Value::Null);
    assert_eq!(vm.counter(), 1);
}
