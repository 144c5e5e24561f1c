//! The execution engine: the register file, constant pool, program, program
//! counter, call stack, scope stack and the two aggregate arenas, with the
//! fetch-decode-execute cycle.  Every public operation is specified against
//! the small-step semantics in `machine` and verified to implement it.
use vstd::prelude::*;
use vstd::map::*;
use vstd::pervasive::VecAdditionalExecFns;
use vstd::string::StringExecFns;

use crate::bytecode::Instruction;
use crate::machine::{
    decimal_digits, digit_char, pow_pending, pow_resume, reached, reaches, running, scope_key,
    step, store, MachineState, StepOutcome, VmError,
};
use crate::machine::{lemma_reaches_extend, reaches_implies_reached};
use crate::numbits::{number_add, number_div, number_floor_index, number_mod, number_mul, number_sub};
use crate::strmap::StrMap;
use crate::value::{
    type_of, value_instance_of, values_equal, values_have_order, values_le, values_lt, Value,
    ValueModel,
};

verus! {

proof fn lemma_map_values_update<A, B>(s: Seq<A>, i: int, a: A, f: spec_fn(A) -> B)
    requires
        0 <= i < s.len(),
    ensures
        s.update(i, a).map_values(f) == s.map_values(f).update(i, f(a)),
{
    assert(s.update(i, a).map_values(f) =~= s.map_values(f).update(i, f(a)));
}

proof fn lemma_map_values_push<A, B>(s: Seq<A>, a: A, f: spec_fn(A) -> B)
    ensures
        s.push(a).map_values(f) == s.map_values(f).push(f(a)),
{
    assert(s.push(a).map_values(f) =~= s.map_values(f).push(f(a)));
}

proof fn lemma_map_values_drop_last<A, B>(s: Seq<A>, f: spec_fn(A) -> B)
    requires
        s.len() > 0,
    ensures
        s.drop_last().map_values(f) == s.map_values(f).drop_last(),
{
    assert(s.drop_last().map_values(f) =~= s.map_values(f).drop_last());
}

/// The character of one decimal digit, at runtime.
fn digit_str(d: u32) -> (r: &'static str)
    requires
        d < 10,
    ensures
        r@ == seq![digit_char(d as int)],
{
    let s: &'static str = match d {
        0 => "0",
        1 => "1",
        2 => "2",
        3 => "3",
        4 => "4",
        5 => "5",
        6 => "6",
        7 => "7",
        8 => "8",
        _ => "9",
    };
    proof {
        reveal_strlit("0");
        reveal_strlit("1");
        reveal_strlit("2");
        reveal_strlit("3");
        reveal_strlit("4");
        reveal_strlit("5");
        reveal_strlit("6");
        reveal_strlit("7");
        reveal_strlit("8");
        reveal_strlit("9");
        assert(s@ =~= seq![digit_char(d as int)]);
    }
    s
}

fn push_decimal(n: u32, out: &mut String)
    ensures
        final(out)@ == old(out)@ + decimal_digits(n as int),
    decreases n,
{
    if n >= 10 {
        push_decimal(n / 10, out);
        out.append(digit_str(n % 10));
        proof {
            assert(old(out)@ + decimal_digits((n / 10) as int) + seq![digit_char((n % 10) as int)]
                =~= old(out)@ + decimal_digits(n as int));
        }
    } else {
        out.append(digit_str(n));
        proof {
            assert(old(out)@ + seq![digit_char(n as int)] =~= old(out)@ + decimal_digits(n as int));
        }
    }
}

/// The synthesized string key of the scope variable at `idx`.
pub fn scope_key_string(idx: u32) -> (r: String)
    ensures
        r@ == scope_key(idx),
{
    let mut s = String::from_str("var_");
    push_decimal(idx, &mut s);
    s
}

/// What one executed cycle reported: the machine already stood past the end
/// of the program, took an ordinary transition, raised a fatal condition, or
/// paused for a power result.
#[derive(Debug, Clone, Copy, PartialEq)]
pub enum StepEvent {
    Halted,
    Continue,
    Fault(VmError),
    PowRequest { dst: u8, base: u64, exponent: u64 },
}

/// How a run ended: normal halt, fatal condition, or a pause for the one
/// numeric result the machine does not compute itself (see
/// `VM::resume_pow`).
#[derive(Debug, Clone, Copy, PartialEq)]
pub enum RunOutcome {
    Halted,
    Fault(VmError),
    PowRequest { dst: u8, base: u64, exponent: u64 },
    /// The run went through 2^64 - 1 cycles without halting, faulting or
    /// pausing, and gave up; no realistic machine reaches this.
    Exhausted,
}

/// The virtual machine.  Constructed from a program and a constant pool;
/// registers start undefined, the counter at zero, the call stack empty and
/// the scope stack holding the one global scope.
pub struct VM {
    registers: Vec<Value>,
    constants: Vec<Value>,
    program: Vec<Instruction>,
    pc: usize,
    call_stack: Vec<usize>,
    scopes: Vec<StrMap>,
    objects: Vec<StrMap>,
    arrays: Vec<Vec<Value>>,
    strict_mode: bool,
}

impl View for VM {
    type V = MachineState;

    closed spec fn view(&self) -> MachineState {
        MachineState {
            regs: self.registers@.map_values(|v: Value| v@),
            consts: self.constants@.map_values(|v: Value| v@),
            program: self.program@,
            pc: self.pc as int,
            calls: self.call_stack@.map_values(|p: usize| p as int),
            scopes: self.scopes@.map_values(|m: StrMap| m@),
            objects: self.objects@.map_values(|m: StrMap| m@),
            arrays: self.arrays@.map_values(|a: Vec<Value>| a@.map_values(|v: Value| v@)),
            strict: self.strict_mode,
        }
    }
}

impl VM {
    /// The register file has its 256 slots and every stored mapping keeps
    /// its keys distinct.
    pub closed spec fn wf(&self) -> bool {
        &&& self.registers@.len() == 256
        &&& (forall|i: int| 0 <= i < self.scopes@.len() ==> self.scopes@[i].wf())
        &&& (forall|i: int| 0 <= i < self.objects@.len() ==> self.objects@[i].wf())
    }

    /// A well-formed machine always has the full register file.
    pub proof fn lemma_shape(&self)
        requires
            self.wf(),
        ensures
            self@.regs.len() == 256,
    {
    }

    /// Builds a machine over a program and a constant pool: registers all
    /// undefined, counter at zero, no pending call, one empty global scope,
    /// empty arenas, strict mode off.
    pub fn new(program: Vec<Instruction>, constants: Vec<Value>) -> (r: VM)
        ensures
            r.wf(),
            r@.program == program@,
            r@.consts == constants@.map_values(|v: Value| v@),
            r@.regs == Seq::new(256, |i: int| ValueModel::Undefined),
            r@.pc == 0,
            r@.calls == Seq::<int>::empty(),
            r@.scopes == seq![Map::<Seq<char>, ValueModel>::empty()],
            r@.objects == Seq::<Map<Seq<char>, ValueModel>>::empty(),
            r@.arrays == Seq::<Seq<ValueModel>>::empty(),
            r@.strict == false,
    {
        let registers: Vec<Value> = vec![Value::Undefined; 256];
        let mut scopes: Vec<StrMap> = Vec::new();
        let global = StrMap::new();
        scopes.push(global);
        let r = VM {
            registers,
            constants,
            program,
            pc: 0,
            call_stack: Vec::new(),
            scopes,
            objects: Vec::new(),
            arrays: Vec::new(),
            strict_mode: false,
        };
        proof {
            assert(r@.regs =~= Seq::new(256, |i: int| ValueModel::Undefined));
            assert(r@.scopes =~= seq![Map::<Seq<char>, ValueModel>::empty()]);
            assert(r@.calls =~= Seq::<int>::empty());
            assert(r@.objects =~= Seq::<Map<Seq<char>, ValueModel>>::empty());
            assert(r@.arrays =~= Seq::<Seq<ValueModel>>::empty());
        }
        r
    }

    /// Reads a register (the value is copied; an aggregate stays aliased).
    pub fn register(&self, reg: u8) -> (r: Value)
        requires
            self.wf(),
        ensures
            r@ == self@.regs[reg as int],
    {
        self.registers[reg as usize].clone()
    }

    /// The current program counter.
    pub fn counter(&self) -> (r: usize)
        ensures
            r as int == self@.pc,
    {
        self.pc
    }

    /// How many instructions the program holds.
    pub fn program_len(&self) -> (r: usize)
        ensures
            r as int == self@.program.len(),
    {
        self.program.len()
    }

    /// How many calls are pending.
    pub fn call_depth(&self) -> (r: usize)
        ensures
            r as int == self@.calls.len(),
    {
        self.call_stack.len()
    }

    /// How many scopes are on the scope stack.
    pub fn scope_depth(&self) -> (r: usize)
        ensures
            r as int == self@.scopes.len(),
    {
        self.scopes.len()
    }

    /// Whether `UseStrict` has run.
    pub fn strict_mode(&self) -> (r: bool)
        ensures
            r == self@.strict,
    {
        self.strict_mode
    }

    /// The length of the array in an arena slot, if the slot exists.
    pub fn array_len(&self, slot: usize) -> (r: Option<usize>)
        ensures
            match r {
                Some(n) => slot < self@.arrays.len() && n as int == self@.arrays[slot as int].len(),
                None => slot as int >= self@.arrays.len(),
            },
    {
        if slot < self.arrays.len() {
            Some(self.arrays[slot].len())
        } else {
            None
        }
    }

    /// One element of the array in an arena slot, if both exist.
    pub fn array_get(&self, slot: usize, index: usize) -> (r: Option<Value>)
        ensures
            match r {
                Some(v) => slot < self@.arrays.len() && index < self@.arrays[slot as int].len()
                    && v@ == self@.arrays[slot as int][index as int],
                None => slot as int >= self@.arrays.len() || (slot < self@.arrays.len()
                    && index as int >= self@.arrays[slot as int].len()),
            },
    {
        if slot < self.arrays.len() {
            let arr = &self.arrays[slot];
            if index < arr.len() {
                Some(arr[index].clone())
            } else {
                None
            }
        } else {
            None
        }
    }

    fn get_reg(&self, r: u8) -> (res: Value)
        requires
            self.wf(),
        ensures
            res@ == self@.regs[r as int],
    {
        self.registers[r as usize].clone()
    }

    fn read_number(&self, r: u8) -> (res: Option<u64>)
        requires
            self.wf(),
        ensures
            match res {
                Some(x) => self@.regs[r as int] == ValueModel::Number(x),
                None => !(self@.regs[r as int] is Number),
            },
    {
        match &self.registers[r as usize] {
            Value::Number(x) => Some(*x),
            _ => None,
        }
    }

    fn set_reg(&mut self, r: u8, v: Value)
        requires
            old(self).wf(),
        ensures
            final(self).wf(),
            final(self)@ == (MachineState {
                regs: old(self)@.regs.update(r as int, v@),
                ..old(self)@
            }),
    {
        let ghost vg = v;
        self.registers.set(r as usize, v);
        proof {
            lemma_map_values_update(old(self).registers@, r as int, vg, |x: Value| x@);
            assert(self@ =~= (MachineState {
                regs: old(self)@.regs.update(r as int, vg@),
                ..old(self)@
            }));
        }
    }

    fn bump_pc(&mut self)
        requires
            old(self).wf(),
            old(self).pc < usize::MAX,
        ensures
            final(self).wf(),
            final(self)@ == (MachineState { pc: old(self)@.pc + 1, ..old(self)@ }),
    {
        self.pc = self.pc + 1;
        proof {
            assert(self@ =~= (MachineState { pc: old(self)@.pc + 1, ..old(self)@ }));
        }
    }

    fn do_jump(&mut self, offset: i32) -> (r: StepEvent)
        requires
            old(self).wf(),
        ensures
            final(self).wf(),
            ({
                let t = old(self)@.pc + offset as int;
                if t < 0 || t > usize::MAX as int {
                    r == StepEvent::Fault(VmError::OutOfRange) && final(self)@ == old(self)@
                } else {
                    r == StepEvent::Continue && final(self)@ == (MachineState {
                        pc: t,
                        ..old(self)@
                    })
                }
            }),
    {
        if offset >= 0 {
            match self.pc.checked_add(offset as usize) {
                Some(t) => {
                    self.pc = t;
                    proof {
                        assert(self@ =~= (MachineState {
                            pc: old(self)@.pc + offset as int,
                            ..old(self)@
                        }));
                    }
                    StepEvent::Continue
                },
                None => StepEvent::Fault(VmError::OutOfRange),
            }
        } else {
            let mag = (-(offset as i64)) as usize;
            if mag > self.pc {
                StepEvent::Fault(VmError::OutOfRange)
            } else {
                self.pc = self.pc - mag;
                proof {
                    assert(self@ =~= (MachineState {
                        pc: old(self)@.pc + offset as int,
                        ..old(self)@
                    }));
                }
                StepEvent::Continue
            }
        }
    }

    fn scope_insert(&mut self, var_idx: u32, v: Value) -> (ok: bool)
        requires
            old(self).wf(),
        ensures
            final(self).wf(),
            old(self)@.scopes.len() == 0 ==> !ok && final(self)@ == old(self)@,
            old(self)@.scopes.len() > 0 ==> ok && final(self)@ == (MachineState {
                scopes: old(self)@.scopes.update(
                    old(self)@.scopes.len() - 1,
                    old(self)@.scopes.last().insert(scope_key(var_idx), v@),
                ),
                ..old(self)@
            }),
    {
        let n = self.scopes.len();
        if n == 0 {
            return false;
        }
        let key = scope_key_string(var_idx);
        let mut m = StrMap::new();
        self.scopes.set_and_swap(n - 1, &mut m);
        proof {
            assert(old(self).scopes@[n - 1].wf());
        }
        m.insert(key, v);
        let ghost mg = m;
        self.scopes.set(n - 1, m);
        proof {
            let f = |x: StrMap| x@;
            lemma_map_values_update(old(self).scopes@, n - 1, mg, f);
            assert(self.scopes@ =~= old(self).scopes@.update(n - 1, mg));
            assert(self@ =~= (MachineState {
                scopes: old(self)@.scopes.update(
                    old(self)@.scopes.len() - 1,
                    old(self)@.scopes.last().insert(scope_key(var_idx), v@),
                ),
                ..old(self)@
            }));
        }
        true
    }

    /// Executes the instruction at the counter, one full cycle: reports a
    /// halt when the counter stands past the program's end, and otherwise
    /// takes exactly the transition the semantics prescribes.
    pub fn step_once(&mut self) -> (r: StepEvent)
        requires
            old(self).wf(),
        ensures
            final(self).wf(),
            !running(old(self)@) ==> r == StepEvent::Halted && final(self)@ == old(self)@,
            running(old(self)@) ==> match r {
                StepEvent::Halted => false,
                StepEvent::Continue => step(old(self)@) == StepOutcome::Next(final(self)@),
                StepEvent::Fault(e) => step(old(self)@) == StepOutcome::Fault(e) && final(self)@
                    == old(self)@,
                StepEvent::PowRequest { dst, base, exponent } => step(old(self)@) == (
                StepOutcome::PowRequest { dst, base, exponent }) && final(self)@ == old(self)@,
            },
    {
        if self.pc >= self.program.len() {
            return StepEvent::Halted;
        }
        let inst = self.program[self.pc];
        match inst {
            Instruction::LoadConst { reg, const_idx } => {
                let ci = const_idx as usize;
                if ci >= self.constants.len() {
                    return StepEvent::Fault(VmError::OutOfRange);
                }
                let v = self.constants[ci].clone();
                self.set_reg(reg, v);
                self.bump_pc();
                StepEvent::Continue
            },
            Instruction::LoadUndefined { reg } => {
                self.set_reg(reg, Value::Undefined);
                self.bump_pc();
                StepEvent::Continue
            },
            Instruction::LoadNull { reg } => {
                self.set_reg(reg, Value::Null);
                self.bump_pc();
                StepEvent::Continue
            },
            Instruction::LoadBool { reg, value } => {
                self.set_reg(reg, Value::Boolean(value));
                self.bump_pc();
                StepEvent::Continue
            },
            Instruction::Move { dst, src } => {
                let v = self.get_reg(src);
                self.set_reg(dst, v);
                self.bump_pc();
                StepEvent::Continue
            },
            Instruction::Add { dst, a, b } => {
                match (self.read_number(a), self.read_number(b)) {
                    (Some(x), Some(y)) => {
                        let res = number_add(x, y);
                        self.set_reg(dst, Value::Number(res));
                        self.bump_pc();
                        StepEvent::Continue
                    },
                    _ => StepEvent::Fault(VmError::TypeMismatch),
                }
            },
            Instruction::Sub { dst, a, b } => {
                match (self.read_number(a), self.read_number(b)) {
                    (Some(x), Some(y)) => {
                        let res = number_sub(x, y);
                        self.set_reg(dst, Value::Number(res));
                        self.bump_pc();
                        StepEvent::Continue
                    },
                    _ => StepEvent::Fault(VmError::TypeMismatch),
                }
            },
            Instruction::Mul { dst, a, b } => {
                match (self.read_number(a), self.read_number(b)) {
                    (Some(x), Some(y)) => {
                        let res = number_mul(x, y);
                        self.set_reg(dst, Value::Number(res));
                        self.bump_pc();
                        StepEvent::Continue
                    },
                    _ => StepEvent::Fault(VmError::TypeMismatch),
                }
            },
            Instruction::Div { dst, a, b } => {
                match (self.read_number(a), self.read_number(b)) {
                    (Some(x), Some(y)) => {
                        let res = number_div(x, y);
                        self.set_reg(dst, Value::Number(res));
                        self.bump_pc();
                        StepEvent::Continue
                    },
                    _ => StepEvent::Fault(VmError::TypeMismatch),
                }
            },
            Instruction::Mod { dst, a, b } => {
                match (self.read_number(a), self.read_number(b)) {
                    (Some(x), Some(y)) => {
                        let res = number_mod(x, y);
                        self.set_reg(dst, Value::Number(res));
                        self.bump_pc();
                        StepEvent::Continue
                    },
                    _ => StepEvent::Fault(VmError::TypeMismatch),
                }
            },
            Instruction::Pow { dst, a, b } => {
                match (self.read_number(a), self.read_number(b)) {
                    (Some(x), Some(y)) => StepEvent::PowRequest { dst, base: x, exponent: y },
                    _ => StepEvent::Fault(VmError::TypeMismatch),
                }
            },
            Instruction::Neg { dst, a } => {
                match self.read_number(a) {
                    Some(x) => {
                        let res = crate::numbits::number_neg(x);
                        self.set_reg(dst, Value::Number(res));
                        self.bump_pc();
                        StepEvent::Continue
                    },
                    None => StepEvent::Fault(VmError::TypeMismatch),
                }
            },
            Instruction::Eq { a, b } => {
                let va = self.get_reg(a);
                let vb = self.get_reg(b);
                let res = values_equal(&va, &vb);
                self.set_reg(0, Value::Boolean(res));
                self.bump_pc();
                StepEvent::Continue
            },
            Instruction::Lt { a, b } => {
                let va = self.get_reg(a);
                let vb = self.get_reg(b);
                if values_have_order(&va, &vb) {
                    let res = values_lt(&va, &vb);
                    self.set_reg(0, Value::Boolean(res));
                    self.bump_pc();
                    StepEvent::Continue
                } else {
                    StepEvent::Fault(VmError::TypeMismatch)
                }
            },
            Instruction::Le { a, b } => {
                let va = self.get_reg(a);
                let vb = self.get_reg(b);
                if values_have_order(&va, &vb) {
                    let res = values_le(&va, &vb);
                    self.set_reg(0, Value::Boolean(res));
                    self.bump_pc();
                    StepEvent::Continue
                } else {
                    StepEvent::Fault(VmError::TypeMismatch)
                }
            },
            Instruction::Jmp { offset } => self.do_jump(offset),
            Instruction::JmpIf { cond, offset } => {
                let c = self.get_reg(cond);
                let taken = match c {
                    Value::Boolean(b) => b,
                    _ => false,
                };
                if taken {
                    self.do_jump(offset)
                } else {
                    self.bump_pc();
                    StepEvent::Continue
                }
            },
            Instruction::Call { func_reg, .. } => {
                match &self.registers[func_reg as usize] {
                    Value::Function(k) => {
                        let k = *k;
                        let fresh = StrMap::new();
                        let ghost fresh_g = fresh;
                        self.call_stack.push(self.pc);
                        self.scopes.push(fresh);
                        self.pc = k;
                        proof {
                            lemma_map_values_push(
                                old(self).call_stack@,
                                old(self).pc,
                                |p: usize| p as int,
                            );
                            lemma_map_values_push(old(self).scopes@, fresh_g, |m: StrMap| m@);
                            assert(self@ =~= (MachineState {
                                calls: old(self)@.calls.push(old(self)@.pc),
                                scopes: old(self)@.scopes.push(Map::empty()),
                                pc: k as int,
                                ..old(self)@
                            }));
                        }
                        StepEvent::Continue
                    },
                    _ => StepEvent::Fault(VmError::TypeMismatch),
                }
            },
            Instruction::Return { .. } => {
                if self.call_stack.len() == 0 {
                    return StepEvent::Fault(VmError::ReturnWithoutCall);
                }
                let ra = self.call_stack.pop().unwrap();
                self.pc = ra;
                let _dropped = self.scopes.pop();
                proof {
                    lemma_map_values_drop_last(old(self).call_stack@, |p: usize| p as int);
                    if old(self).scopes@.len() > 0 {
                        lemma_map_values_drop_last(old(self).scopes@, |m: StrMap| m@);
                    }
                    assert(self@ =~= (MachineState {
                        pc: old(self)@.calls.last(),
                        calls: old(self)@.calls.drop_last(),
                        scopes: if old(self)@.scopes.len() > 0 {
                            old(self)@.scopes.drop_last()
                        } else {
                            old(self)@.scopes
                        },
                        ..old(self)@
                    }));
                }
                StepEvent::Continue
            },
            Instruction::NewObject { reg } => {
                let fresh = StrMap::new();
                let ghost fresh_g = fresh;
                let slot = self.objects.len();
                self.objects.push(fresh);
                proof {
                    lemma_map_values_push(old(self).objects@, fresh_g, |m: StrMap| m@);
                }
                self.set_reg(reg, Value::Object(slot));
                self.bump_pc();
                StepEvent::Continue
            },
            Instruction::GetProp { dst, obj, key } => {
                let ov = self.get_reg(obj);
                let kv = self.get_reg(key);
                match (ov, kv) {
                    (Value::Object(i), Value::String(k)) => {
                        if i >= self.objects.len() {
                            return StepEvent::Fault(VmError::OutOfRange);
                        }
                        let found = self.objects[i].get(&k);
                        let v = match found {
                            Some(v) => v,
                            None => Value::Undefined,
                        };
                        self.set_reg(dst, v);
                        self.bump_pc();
                        StepEvent::Continue
                    },
                    _ => StepEvent::Fault(VmError::TypeMismatch),
                }
            },
            Instruction::SetProp { obj, key, value } => {
                let ov = self.get_reg(obj);
                let kv = self.get_reg(key);
                match (ov, kv) {
                    (Value::Object(i), Value::String(k)) => {
                        if i >= self.objects.len() {
                            return StepEvent::Fault(VmError::OutOfRange);
                        }
                        let v = self.get_reg(value);
                        let ghost kg = k@;
                        let ghost vg = v@;
                        let mut m = StrMap::new();
                        self.objects.set_and_swap(i, &mut m);
                        proof {
                            assert(old(self).objects@[i as int].wf());
                        }
                        m.insert(k, v);
                        let ghost mg = m;
                        self.objects.set(i, m);
                        proof {
                            lemma_map_values_update(old(self).objects@, i as int, mg, |x: StrMap| x@);
                            assert(self.objects@ =~= old(self).objects@.update(i as int, mg));
                            assert(self@ =~= (MachineState {
                                objects: old(self)@.objects.update(
                                    i as int,
                                    old(self)@.objects[i as int].insert(kg, vg),
                                ),
                                ..old(self)@
                            }));
                        }
                        self.bump_pc();
                        StepEvent::Continue
                    },
                    _ => StepEvent::Fault(VmError::TypeMismatch),
                }
            },
            Instruction::Closure { reg, func_idx } => {
                self.set_reg(reg, Value::Function(func_idx as usize));
                self.bump_pc();
                StepEvent::Continue
            },
            Instruction::GetScope { dst, var_idx } => {
                let n = self.scopes.len();
                if n == 0 {
                    return StepEvent::Fault(VmError::NoActiveScope);
                }
                let key = scope_key_string(var_idx);
                let found = self.scopes[n - 1].get(&key);
                let v = match found {
                    Some(v) => v,
                    None => Value::Undefined,
                };
                self.set_reg(dst, v);
                self.bump_pc();
                StepEvent::Continue
            },
            Instruction::SetScope { var_idx, src } => {
                let v = self.get_reg(src);
                if self.scope_insert(var_idx, v) {
                    self.bump_pc();
                    StepEvent::Continue
                } else {
                    StepEvent::Fault(VmError::NoActiveScope)
                }
            },
            Instruction::NewArray { reg } => {
                let fresh: Vec<Value> = Vec::new();
                let ghost fresh_g = fresh;
                let slot = self.arrays.len();
                self.arrays.push(fresh);
                proof {
                    lemma_map_values_push(
                        old(self).arrays@,
                        fresh_g,
                        |a: Vec<Value>| a@.map_values(|v: Value| v@),
                    );
                    assert(fresh_g@.map_values(|v: Value| v@) =~= Seq::<ValueModel>::empty());
                }
                self.set_reg(reg, Value::Array(slot));
                self.bump_pc();
                StepEvent::Continue
            },
            Instruction::GetElem { dst, array, index } => {
                let av = self.get_reg(array);
                let iv = self.get_reg(index);
                match (av, iv) {
                    (Value::Array(i), Value::Number(nb)) => {
                        if i >= self.arrays.len() {
                            return StepEvent::Fault(VmError::OutOfRange);
                        }
                        let idx = number_floor_index(nb);
                        let arr = &self.arrays[i];
                        let v = if idx < arr.len() {
                            arr[idx].clone()
                        } else {
                            Value::Undefined
                        };
                        self.set_reg(dst, v);
                        self.bump_pc();
                        StepEvent::Continue
                    },
                    _ => StepEvent::Fault(VmError::TypeMismatch),
                }
            },
            Instruction::SetElem { array, index, value } => {
                let av = self.get_reg(array);
                let iv = self.get_reg(index);
                match (av, iv) {
                    (Value::Array(i), Value::Number(nb)) => {
                        if i >= self.arrays.len() {
                            return StepEvent::Fault(VmError::OutOfRange);
                        }
                        let idx = number_floor_index(nb);
                        let n = self.arrays[i].len();
                        if idx >= n && idx == usize::MAX {
                            return StepEvent::Fault(VmError::OutOfRange);
                        }
                        let v = self.get_reg(value);
                        let ghost vg = v;
                        let mut arr: Vec<Value> = Vec::new();
                        self.arrays.set_and_swap(i, &mut arr);
                        if idx >= n {
                            arr.resize(idx + 1, Value::Undefined);
                        }
                        arr.set(idx, v);
                        let ghost ag = arr;
                        self.arrays.set(i, arr);
                        proof {
                            let fv = |x: Value| x@;
                            let fa = |a: Vec<Value>| a@.map_values(fv);
                            let arr0 = old(self).arrays@[i as int]@;
                            lemma_map_values_update(old(self).arrays@, i as int, ag, fa);
                            assert(self.arrays@ =~= old(self).arrays@.update(i as int, ag));
                            if idx < n {
                                assert(ag@.map_values(fv) =~= arr0.map_values(fv).update(
                                    idx as int,
                                    vg@,
                                ));
                            } else {
                                assert(ag@.map_values(fv) =~= crate::machine::array_grown(
                                    arr0.map_values(fv),
                                    idx as int,
                                    vg@,
                                ));
                            }
                            assert(self@.arrays =~= match step(old(self)@) {
                                StepOutcome::Next(m) => m.arrays,
                                _ => self@.arrays,
                            });
                        }
                        self.bump_pc();
                        StepEvent::Continue
                    },
                    _ => StepEvent::Fault(VmError::TypeMismatch),
                }
            },
            Instruction::TypeOf { dst, src } => {
                let v = self.get_reg(src);
                let tag = type_of(&v);
                self.set_reg(dst, Value::String(tag));
                self.bump_pc();
                StepEvent::Continue
            },
            Instruction::InstanceOf { dst, obj, ctor } => {
                let ov = self.get_reg(obj);
                let cv = self.get_reg(ctor);
                let res = value_instance_of(&ov, &cv);
                self.set_reg(dst, Value::Boolean(res));
                self.bump_pc();
                StepEvent::Continue
            },
            Instruction::DeclareFunc { reg, .. } => {
                let here = self.pc;
                self.set_reg(reg, Value::Function(here));
                self.bump_pc();
                StepEvent::Continue
            },
            Instruction::DeclareVar { name_idx } => {
                if self.scope_insert(name_idx, Value::Undefined) {
                    self.bump_pc();
                    StepEvent::Continue
                } else {
                    StepEvent::Fault(VmError::NoActiveScope)
                }
            },
            Instruction::UseStrict => {
                self.strict_mode = true;
                proof {
                    assert(self@ =~= (MachineState { strict: true, pc: old(self)@.pc, ..old(self)@ }));
                }
                self.bump_pc();
                StepEvent::Continue
            },
        }
    }

    /// Runs the fetch-decode-execute cycle until the counter passes the end
    /// of the program, a fatal condition is raised, or a power result is
    /// needed.  The final state lies a sequence of prescribed transitions
    /// after the starting one; a run that gives up has taken exactly its
    /// whole budget of 2^64 - 1 transitions, so every earlier outcome is the
    /// genuine end of the deterministic trace.
    pub fn run(&mut self) -> (r: RunOutcome)
        requires
            old(self).wf(),
        ensures
            final(self).wf(),
            reached(old(self)@, final(self)@),
            match r {
                RunOutcome::Halted => !running(final(self)@),
                RunOutcome::Fault(e) => running(final(self)@) && step(final(self)@)
                    == StepOutcome::Fault(e),
                RunOutcome::PowRequest { dst, base, exponent } => running(final(self)@) && step(
                    final(self)@,
                ) == (StepOutcome::PowRequest { dst, base, exponent }),
                RunOutcome::Exhausted => reaches(old(self)@, final(self)@, u64::MAX as nat),
            },
    {
        let mut fuel: u64 = u64::MAX;
        while fuel > 0
            invariant
                self.wf(),
                reaches(old(self)@, self@, (u64::MAX - fuel) as nat),
            decreases fuel,
        {
            fuel = fuel - 1;
            let ghost pre = self@;
            let ev = self.step_once();
            match ev {
                StepEvent::Halted => {
                    proof {
                        reaches_implies_reached(old(self)@, self@, (u64::MAX - fuel - 1) as nat);
                    }
                    return RunOutcome::Halted;
                },
                StepEvent::Continue => {
                    proof {
                        lemma_reaches_extend(old(self)@, pre, self@, (u64::MAX - fuel - 1) as nat);
                    }
                },
                StepEvent::Fault(e) => {
                    proof {
                        reaches_implies_reached(old(self)@, self@, (u64::MAX - fuel - 1) as nat);
                    }
                    return RunOutcome::Fault(e);
                },
                StepEvent::PowRequest { dst, base, exponent } => {
                    proof {
                        reaches_implies_reached(old(self)@, self@, (u64::MAX - fuel - 1) as nat);
                    }
                    return RunOutcome::PowRequest { dst, base, exponent };
                },
            }
        }
        proof {
            reaches_implies_reached(old(self)@, self@, u64::MAX as nat);
        }
        RunOutcome::Exhausted
    }

    /// Hands the machine the result of the power operation it paused on: the
    /// destination register takes the number and the counter moves past the
    /// instruction.  Reports false, changing nothing, when no power
    /// operation is pending.
    pub fn resume_pow(&mut self, result: u64) -> (ok: bool)
        requires
            old(self).wf(),
        ensures
            final(self).wf(),
            ok == pow_pending(old(self)@),
            ok ==> final(self)@ == pow_resume(old(self)@, result),
            !ok ==> final(self)@ == old(self)@,
    {
        if self.pc >= self.program.len() {
            return false;
        }
        let inst = self.program[self.pc];
        match inst {
            Instruction::Pow { dst, a, b } => {
                match (self.read_number(a), self.read_number(b)) {
                    (Some(x), Some(y)) => {
                        self.set_reg(dst, Value::Number(result));
                        self.bump_pc();
                        true
                    },
                    _ => false,
                }
            },
            _ => false,
        }
    }
}

} // verus!
