//! The mathematical semantics of the engine: the machine state, the
//! small-step transition that gives each instruction its meaning, and
//! reachability along transitions.  The executable engine is specified
//! against, and proved to implement, exactly this step function.
use vstd::prelude::*;
use vstd::map::*;

use crate::bytecode::Instruction;
use crate::numbits::{add_bits, div_bits, floor_index, mod_bits, mul_bits, neg_bits, sub_bits};
use crate::value::{
    has_order, instance_of, type_tag, value_eq, value_le, value_lt, ValueModel,
};

verus! {

/// A fatal condition: it aborts the run at the instruction that raised it.
#[derive(Debug, Clone, Copy, PartialEq)]
pub enum VmError {
    /// An operand register holds a value of the wrong variant, or an ordered
    /// comparison was asked of an unordered pair.
    TypeMismatch,
    /// A return was executed with no pending call.
    ReturnWithoutCall,
    /// A scope access was attempted with an empty scope stack.
    NoActiveScope,
    /// A constant-pool, aggregate or array position outside the representable
    /// bounds.
    OutOfRange,
}

/// The whole observable state of the machine: the register file, the
/// constant pool, the program, the program counter, the call and scope
/// stacks, the two arenas of shared aggregates, and the strict-mode flag.
#[verifier::ext_equal]
pub struct MachineState {
    /// The 256 registers.
    pub regs: Seq<ValueModel>,
    /// The immutable constant pool.
    pub consts: Seq<ValueModel>,
    /// The immutable instruction sequence.
    pub program: Seq<Instruction>,
    /// The index of the next instruction to fetch.
    pub pc: int,
    /// Saved program counters of the pending calls, innermost last.
    pub calls: Seq<int>,
    /// The scope stack; only the last entry is ever read or written.
    pub scopes: Seq<Map<Seq<char>, ValueModel>>,
    /// The object arena: slot `i` is the property table that every
    /// `Object(i)` value aliases.
    pub objects: Seq<Map<Seq<char>, ValueModel>>,
    /// The array arena: slot `i` is the element sequence that every
    /// `Array(i)` value aliases.
    pub arrays: Seq<Seq<ValueModel>>,
    /// Set once by `UseStrict`; consulted by no instruction yet.
    pub strict: bool,
}

/// What one fetch-decode-execute cycle does: move to a next state, abort
/// with a fatal condition, or pause for the embedder to supply the one
/// numeric result the machine does not compute itself.
pub enum StepOutcome {
    Next(MachineState),
    Fault(VmError),
    /// The instruction is a power operation on the numbers with these bit
    /// patterns; the machine waits for the result (see `VM::resume_pow`).
    PowRequest { dst: u8, base: u64, exponent: u64 },
}

/// The machine can fetch: the counter names an instruction.
pub open spec fn running(s: MachineState) -> bool {
    0 <= s.pc < s.program.len()
}

/// Writes a value into a register and advances the counter: the common
/// shape of every instruction that neither jumps nor faults.
pub open spec fn store(s: MachineState, reg: u8, v: ValueModel) -> MachineState {
    MachineState { regs: s.regs.update(reg as int, v), pc: s.pc + 1, ..s }
}

/// The digit characters of `n` in decimal, most significant first, no sign,
/// no leading zero (except for `n == 0` itself).
pub open spec fn decimal_digits(n: int) -> Seq<char>
    decreases n,
{
    if n < 10 {
        seq![digit_char(n)]
    } else {
        decimal_digits(n / 10).push(digit_char(n % 10))
    }
}

/// The character of one decimal digit.
pub open spec fn digit_char(d: int) -> char {
    if d == 0 {
        '0'
    } else if d == 1 {
        '1'
    } else if d == 2 {
        '2'
    } else if d == 3 {
        '3'
    } else if d == 4 {
        '4'
    } else if d == 5 {
        '5'
    } else if d == 6 {
        '6'
    } else if d == 7 {
        '7'
    } else if d == 8 {
        '8'
    } else {
        '9'
    }
}

/// The synthesized string key under which the scope variable at `idx` is
/// stored in the top scope's mapping.
pub open spec fn scope_key(idx: u32) -> Seq<char> {
    "var_"@ + decimal_digits(idx as int)
}

/// Reads the top scope's binding of a synthesized key: the bound value, or
/// undefined where the key was never bound.
pub open spec fn scope_lookup(m: Map<Seq<char>, ValueModel>, idx: u32) -> ValueModel {
    if m.contains_key(scope_key(idx)) {
        m[scope_key(idx)]
    } else {
        ValueModel::Undefined
    }
}

/// Reads a property table: the stored value, or undefined for a missing key.
pub open spec fn prop_lookup(m: Map<Seq<char>, ValueModel>, k: Seq<char>) -> ValueModel {
    if m.contains_key(k) {
        m[k]
    } else {
        ValueModel::Undefined
    }
}

/// An array grown to hold position `idx`, the fresh slots filled with
/// undefined, with `v` written at `idx`.
pub open spec fn array_grown(arr: Seq<ValueModel>, idx: int, v: ValueModel) -> Seq<ValueModel> {
    (arr + Seq::new((idx - arr.len()) as nat, |j: int| ValueModel::Undefined)).push(v)
}

/// One fetch-decode-execute cycle from a running state.  Unless the
/// instruction sets the counter itself (a taken jump, a call, a return),
/// the counter advances by one.
pub open spec fn step(s: MachineState) -> StepOutcome
    recommends
        running(s),
{
    match s.program[s.pc] {
        Instruction::LoadConst { reg, const_idx } => {
            if const_idx as int >= s.consts.len() {
                StepOutcome::Fault(VmError::OutOfRange)
            } else {
                StepOutcome::Next(store(s, reg, s.consts[const_idx as int]))
            }
        },
        Instruction::LoadUndefined { reg } => StepOutcome::Next(
            store(s, reg, ValueModel::Undefined),
        ),
        Instruction::LoadNull { reg } => StepOutcome::Next(store(s, reg, ValueModel::Null)),
        Instruction::LoadBool { reg, value } => StepOutcome::Next(
            store(s, reg, ValueModel::Boolean(value)),
        ),
        Instruction::Move { dst, src } => StepOutcome::Next(store(s, dst, s.regs[src as int])),
        Instruction::Add { dst, a, b } => match (s.regs[a as int], s.regs[b as int]) {
            (ValueModel::Number(x), ValueModel::Number(y)) => StepOutcome::Next(
                store(s, dst, ValueModel::Number(add_bits(x, y))),
            ),
            _ => StepOutcome::Fault(VmError::TypeMismatch),
        },
        Instruction::Sub { dst, a, b } => match (s.regs[a as int], s.regs[b as int]) {
            (ValueModel::Number(x), ValueModel::Number(y)) => StepOutcome::Next(
                store(s, dst, ValueModel::Number(sub_bits(x, y))),
            ),
            _ => StepOutcome::Fault(VmError::TypeMismatch),
        },
        Instruction::Mul { dst, a, b } => match (s.regs[a as int], s.regs[b as int]) {
            (ValueModel::Number(x), ValueModel::Number(y)) => StepOutcome::Next(
                store(s, dst, ValueModel::Number(mul_bits(x, y))),
            ),
            _ => StepOutcome::Fault(VmError::TypeMismatch),
        },
        Instruction::Div { dst, a, b } => match (s.regs[a as int], s.regs[b as int]) {
            (ValueModel::Number(x), ValueModel::Number(y)) => StepOutcome::Next(
                store(s, dst, ValueModel::Number(div_bits(x, y))),
            ),
            _ => StepOutcome::Fault(VmError::TypeMismatch),
        },
        Instruction::Mod { dst, a, b } => match (s.regs[a as int], s.regs[b as int]) {
            (ValueModel::Number(x), ValueModel::Number(y)) => StepOutcome::Next(
                store(s, dst, ValueModel::Number(mod_bits(x, y))),
            ),
            _ => StepOutcome::Fault(VmError::TypeMismatch),
        },
        Instruction::Pow { dst, a, b } => match (s.regs[a as int], s.regs[b as int]) {
            (ValueModel::Number(x), ValueModel::Number(y)) => StepOutcome::PowRequest {
                dst,
                base: x,
                exponent: y,
            },
            _ => StepOutcome::Fault(VmError::TypeMismatch),
        },
        Instruction::Neg { dst, a } => match s.regs[a as int] {
            ValueModel::Number(x) => StepOutcome::Next(
                store(s, dst, ValueModel::Number(neg_bits(x))),
            ),
            _ => StepOutcome::Fault(VmError::TypeMismatch),
        },
        Instruction::Eq { a, b } => StepOutcome::Next(
            store(s, 0, ValueModel::Boolean(value_eq(s.regs[a as int], s.regs[b as int]))),
        ),
        Instruction::Lt { a, b } => {
            if has_order(s.regs[a as int], s.regs[b as int]) {
                StepOutcome::Next(
                    store(s, 0, ValueModel::Boolean(value_lt(s.regs[a as int], s.regs[b as int]))),
                )
            } else {
                StepOutcome::Fault(VmError::TypeMismatch)
            }
        },
        Instruction::Le { a, b } => {
            if has_order(s.regs[a as int], s.regs[b as int]) {
                StepOutcome::Next(
                    store(s, 0, ValueModel::Boolean(value_le(s.regs[a as int], s.regs[b as int]))),
                )
            } else {
                StepOutcome::Fault(VmError::TypeMismatch)
            }
        },
        Instruction::Jmp { offset } => {
            let t = s.pc + offset as int;
            if t < 0 || t > usize::MAX as int {
                StepOutcome::Fault(VmError::OutOfRange)
            } else {
                StepOutcome::Next(MachineState { pc: t, ..s })
            }
        },
        Instruction::JmpIf { cond, offset } => {
            if s.regs[cond as int] == ValueModel::Boolean(true) {
                let t = s.pc + offset as int;
                if t < 0 || t > usize::MAX as int {
                    StepOutcome::Fault(VmError::OutOfRange)
                } else {
                    StepOutcome::Next(MachineState { pc: t, ..s })
                }
            } else {
                StepOutcome::Next(MachineState { pc: s.pc + 1, ..s })
            }
        },
        Instruction::Call { func_reg, arg_count } => match s.regs[func_reg as int] {
            ValueModel::Function(k) => StepOutcome::Next(
                MachineState {
                    calls: s.calls.push(s.pc),
                    scopes: s.scopes.push(Map::empty()),
                    pc: k,
                    ..s
                },
            ),
            _ => StepOutcome::Fault(VmError::TypeMismatch),
        },
        Instruction::Return { start_reg, count } => {
            if s.calls.len() == 0 {
                StepOutcome::Fault(VmError::ReturnWithoutCall)
            } else {
                StepOutcome::Next(
                    MachineState {
                        pc: s.calls.last(),
                        calls: s.calls.drop_last(),
                        scopes: if s.scopes.len() > 0 {
                            s.scopes.drop_last()
                        } else {
                            s.scopes
                        },
                        ..s
                    },
                )
            }
        },
        Instruction::NewObject { reg } => StepOutcome::Next(
            MachineState {
                objects: s.objects.push(Map::empty()),
                ..store(s, reg, ValueModel::Object(s.objects.len() as int))
            },
        ),
        Instruction::GetProp { dst, obj, key } => match (
            s.regs[obj as int],
            s.regs[key as int],
        ) {
            (ValueModel::Object(i), ValueModel::String(k)) => {
                if i < 0 || i >= s.objects.len() {
                    StepOutcome::Fault(VmError::OutOfRange)
                } else {
                    StepOutcome::Next(store(s, dst, prop_lookup(s.objects[i], k)))
                }
            },
            _ => StepOutcome::Fault(VmError::TypeMismatch),
        },
        Instruction::SetProp { obj, key, value } => match (
            s.regs[obj as int],
            s.regs[key as int],
        ) {
            (ValueModel::Object(i), ValueModel::String(k)) => {
                if i < 0 || i >= s.objects.len() {
                    StepOutcome::Fault(VmError::OutOfRange)
                } else {
                    StepOutcome::Next(
                        MachineState {
                            objects: s.objects.update(
                                i,
                                s.objects[i].insert(k, s.regs[value as int]),
                            ),
                            pc: s.pc + 1,
                            ..s
                        },
                    )
                }
            },
            _ => StepOutcome::Fault(VmError::TypeMismatch),
        },
        Instruction::Closure { reg, func_idx } => StepOutcome::Next(
            store(s, reg, ValueModel::Function(func_idx as int)),
        ),
        Instruction::GetScope { dst, var_idx } => {
            if s.scopes.len() == 0 {
                StepOutcome::Fault(VmError::NoActiveScope)
            } else {
                StepOutcome::Next(store(s, dst, scope_lookup(s.scopes.last(), var_idx)))
            }
        },
        Instruction::SetScope { var_idx, src } => {
            if s.scopes.len() == 0 {
                StepOutcome::Fault(VmError::NoActiveScope)
            } else {
                StepOutcome::Next(
                    MachineState {
                        scopes: s.scopes.update(
                            s.scopes.len() - 1,
                            s.scopes.last().insert(scope_key(var_idx), s.regs[src as int]),
                        ),
                        pc: s.pc + 1,
                        ..s
                    },
                )
            }
        },
        Instruction::NewArray { reg } => StepOutcome::Next(
            MachineState {
                arrays: s.arrays.push(Seq::empty()),
                ..store(s, reg, ValueModel::Array(s.arrays.len() as int))
            },
        ),
        Instruction::GetElem { dst, array, index } => match (
            s.regs[array as int],
            s.regs[index as int],
        ) {
            (ValueModel::Array(i), ValueModel::Number(nb)) => {
                if i < 0 || i >= s.arrays.len() {
                    StepOutcome::Fault(VmError::OutOfRange)
                } else {
                    let arr = s.arrays[i];
                    let idx = floor_index(nb);
                    StepOutcome::Next(
                        store(
                            s,
                            dst,
                            if idx < arr.len() {
                                arr[idx]
                            } else {
                                ValueModel::Undefined
                            },
                        ),
                    )
                }
            },
            _ => StepOutcome::Fault(VmError::TypeMismatch),
        },
        Instruction::SetElem { array, index, value } => match (
            s.regs[array as int],
            s.regs[index as int],
        ) {
            (ValueModel::Array(i), ValueModel::Number(nb)) => {
                if i < 0 || i >= s.arrays.len() {
                    StepOutcome::Fault(VmError::OutOfRange)
                } else {
                    let arr = s.arrays[i];
                    let idx = floor_index(nb);
                    if idx < arr.len() {
                        StepOutcome::Next(
                            MachineState {
                                arrays: s.arrays.update(i, arr.update(idx, s.regs[value as int])),
                                pc: s.pc + 1,
                                ..s
                            },
                        )
                    } else if idx >= usize::MAX as int {
                        StepOutcome::Fault(VmError::OutOfRange)
                    } else {
                        StepOutcome::Next(
                            MachineState {
                                arrays: s.arrays.update(
                                    i,
                                    array_grown(arr, idx, s.regs[value as int]),
                                ),
                                pc: s.pc + 1,
                                ..s
                            },
                        )
                    }
                }
            },
            _ => StepOutcome::Fault(VmError::TypeMismatch),
        },
        Instruction::TypeOf { dst, src } => StepOutcome::Next(
            store(s, dst, ValueModel::String(type_tag(s.regs[src as int]))),
        ),
        Instruction::InstanceOf { dst, obj, ctor } => StepOutcome::Next(
            store(
                s,
                dst,
                ValueModel::Boolean(instance_of(s.regs[obj as int], s.regs[ctor as int])),
            ),
        ),
        Instruction::DeclareFunc { reg, name_idx, param_count } => StepOutcome::Next(
            store(s, reg, ValueModel::Function(s.pc)),
        ),
        Instruction::DeclareVar { name_idx } => {
            if s.scopes.len() == 0 {
                StepOutcome::Fault(VmError::NoActiveScope)
            } else {
                StepOutcome::Next(
                    MachineState {
                        scopes: s.scopes.update(
                            s.scopes.len() - 1,
                            s.scopes.last().insert(scope_key(name_idx), ValueModel::Undefined),
                        ),
                        pc: s.pc + 1,
                        ..s
                    },
                )
            }
        },
        Instruction::UseStrict => StepOutcome::Next(
            MachineState { strict: true, pc: s.pc + 1, ..s },
        ),
    }
}

/// The machine stands on a power operation with numeric operands and waits
/// for its result.
pub open spec fn pow_pending(s: MachineState) -> bool {
    running(s) && (step(s) is PowRequest)
}

/// The state after the embedder answers a pending power request with
/// `result`: the destination register takes the number and the counter moves
/// past the instruction.  Any other state is left as it stands.
pub open spec fn pow_resume(s: MachineState, result: u64) -> MachineState {
    match step(s) {
        StepOutcome::PowRequest { dst, base, exponent } => store(
            s,
            dst,
            ValueModel::Number(result),
        ),
        _ => s,
    }
}

/// `b` lies `n` ordinary transitions after `a`: every intermediate state is
/// running and steps to the next.
pub open spec fn reaches(a: MachineState, b: MachineState, n: nat) -> bool
    decreases n,
{
    if n == 0 {
        a == b
    } else {
        running(a) && match step(a) {
            StepOutcome::Next(m) => reaches(m, b, (n - 1) as nat),
            _ => false,
        }
    }
}

/// `b` lies some number of ordinary transitions after `a`.
pub open spec fn reached(a: MachineState, b: MachineState) -> bool {
    exists|n: nat| reaches(a, b, n)
}

/// `tr` is a run fragment: each state is running and steps to the next.
pub open spec fn is_trace(tr: Seq<MachineState>) -> bool {
    forall|j: int|
        0 <= j < tr.len() - 1 ==> running(tr[j]) && step(tr[j]) == StepOutcome::Next(tr[j + 1])
}

/// Reaching is reflexive.
pub proof fn lemma_reached_refl(a: MachineState)
    ensures
        reached(a, a),
{
    assert(reaches(a, a, 0));
}

/// A reach of a definite length is a reach.
pub proof fn reaches_implies_reached(a: MachineState, b: MachineState, n: nat)
    requires
        reaches(a, b, n),
    ensures
        reached(a, b),
{
}

/// One more transition extends a reach.
pub proof fn lemma_reaches_extend(a: MachineState, b: MachineState, c: MachineState, n: nat)
    requires
        reaches(a, b, n),
        running(b),
        step(b) == StepOutcome::Next(c),
    ensures
        reaches(a, c, n + 1),
    decreases n,
{
    if n == 0 {
        assert(reaches(c, c, 0));
        assert(reaches(b, c, 1));
    } else {
        let m = choose|m: MachineState| step(a) == StepOutcome::Next(m) && reaches(
            m,
            b,
            (n - 1) as nat,
        );
        match step(a) {
            StepOutcome::Next(m2) => {
                lemma_reaches_extend(m2, b, c, (n - 1) as nat);
            },
            _ => {
                assert(false);
            },
        }
    }
}

/// One more transition extends a reach (existential form).
pub proof fn lemma_reached_extend(a: MachineState, b: MachineState, c: MachineState)
    requires
        reached(a, b),
        running(b),
        step(b) == StepOutcome::Next(c),
    ensures
        reached(a, c),
{
    let n = choose|n: nat| reaches(a, b, n);
    lemma_reaches_extend(a, b, c, n);
}

} // verus!
