//! The general laws of the instruction semantics, each proved once and for
//! all over the step function of `machine`.
use vstd::prelude::*;
use vstd::map::*;

use crate::bytecode::Instruction;
use crate::machine::{
    array_grown, is_trace, prop_lookup, reaches, running, step, store, MachineState, StepOutcome,
    VmError,
};
use crate::numbits::{add_bits, div_bits, floor_index, mod_bits, mul_bits, neg_bits, sub_bits};
use crate::value::{has_order, instance_of, type_tag, value_eq, value_le, value_lt, ValueModel};

verus! {

/// With numeric operands, every binary arithmetic instruction stores the
/// IEEE-754 binary64 result of its operator in the destination register and
/// advances the counter; the power operation pauses for its result instead.
pub proof fn lemma_arithmetic(s: MachineState, dst: u8, a: u8, b: u8, x: u64, y: u64)
    requires
        running(s),
        s.regs[a as int] == ValueModel::Number(x),
        s.regs[b as int] == ValueModel::Number(y),
    ensures
        s.program[s.pc] == (Instruction::Add { dst, a, b }) ==> step(s) == StepOutcome::Next(
            store(s, dst, ValueModel::Number(add_bits(x, y))),
        ),
        s.program[s.pc] == (Instruction::Sub { dst, a, b }) ==> step(s) == StepOutcome::Next(
            store(s, dst, ValueModel::Number(sub_bits(x, y))),
        ),
        s.program[s.pc] == (Instruction::Mul { dst, a, b }) ==> step(s) == StepOutcome::Next(
            store(s, dst, ValueModel::Number(mul_bits(x, y))),
        ),
        s.program[s.pc] == (Instruction::Div { dst, a, b }) ==> step(s) == StepOutcome::Next(
            store(s, dst, ValueModel::Number(div_bits(x, y))),
        ),
        s.program[s.pc] == (Instruction::Mod { dst, a, b }) ==> step(s) == StepOutcome::Next(
            store(s, dst, ValueModel::Number(mod_bits(x, y))),
        ),
        s.program[s.pc] == (Instruction::Pow { dst, a, b }) ==> step(s) == (
        StepOutcome::PowRequest { dst, base: x, exponent: y }),
{
}

/// An arithmetic instruction whose operands are not both numbers raises the
/// type-mismatch fault.
pub proof fn lemma_arithmetic_fault(s: MachineState, dst: u8, a: u8, b: u8)
    requires
        running(s),
        !(s.regs[a as int] is Number) || !(s.regs[b as int] is Number),
    ensures
        s.program[s.pc] == (Instruction::Add { dst, a, b }) ==> step(s) == StepOutcome::Fault(
            VmError::TypeMismatch,
        ),
        s.program[s.pc] == (Instruction::Sub { dst, a, b }) ==> step(s) == StepOutcome::Fault(
            VmError::TypeMismatch,
        ),
        s.program[s.pc] == (Instruction::Mul { dst, a, b }) ==> step(s) == StepOutcome::Fault(
            VmError::TypeMismatch,
        ),
        s.program[s.pc] == (Instruction::Div { dst, a, b }) ==> step(s) == StepOutcome::Fault(
            VmError::TypeMismatch,
        ),
        s.program[s.pc] == (Instruction::Mod { dst, a, b }) ==> step(s) == StepOutcome::Fault(
            VmError::TypeMismatch,
        ),
        s.program[s.pc] == (Instruction::Pow { dst, a, b }) ==> step(s) == StepOutcome::Fault(
            VmError::TypeMismatch,
        ),
{
}

/// Negation maps a number to its IEEE-754 negation (the sign bit flips) and
/// is fatal on every other operand.
pub proof fn lemma_negation(s: MachineState, dst: u8, a: u8)
    requires
        running(s),
        s.program[s.pc] == (Instruction::Neg { dst, a }),
    ensures
        forall|x: u64|
            s.regs[a as int] == ValueModel::Number(x) ==> step(s) == StepOutcome::Next(
                store(s, dst, ValueModel::Number(neg_bits(x))),
            ),
        !(s.regs[a as int] is Number) ==> step(s) == StepOutcome::Fault(VmError::TypeMismatch),
{
}

/// The comparison instructions write their boolean answer into register 0,
/// whatever their operand registers are; an ordered comparison of an
/// unordered pair is fatal, equality never is.
pub proof fn lemma_comparisons_write_register_zero(s: MachineState, a: u8, b: u8)
    requires
        running(s),
    ensures
        s.program[s.pc] == (Instruction::Eq { a, b }) ==> step(s) == StepOutcome::Next(
            store(s, 0, ValueModel::Boolean(value_eq(s.regs[a as int], s.regs[b as int]))),
        ),
        s.program[s.pc] == (Instruction::Lt { a, b }) && has_order(
            s.regs[a as int],
            s.regs[b as int],
        ) ==> step(s) == StepOutcome::Next(
            store(s, 0, ValueModel::Boolean(value_lt(s.regs[a as int], s.regs[b as int]))),
        ),
        s.program[s.pc] == (Instruction::Le { a, b }) && has_order(
            s.regs[a as int],
            s.regs[b as int],
        ) ==> step(s) == StepOutcome::Next(
            store(s, 0, ValueModel::Boolean(value_le(s.regs[a as int], s.regs[b as int]))),
        ),
        s.program[s.pc] == (Instruction::Lt { a, b }) && !has_order(
            s.regs[a as int],
            s.regs[b as int],
        ) ==> step(s) == StepOutcome::Fault(VmError::TypeMismatch),
        s.program[s.pc] == (Instruction::Le { a, b }) && !has_order(
            s.regs[a as int],
            s.regs[b as int],
        ) ==> step(s) == StepOutcome::Fault(VmError::TypeMismatch),
{
}

/// Equality of two aggregates is identity of their arena slot: two distinct
/// objects are unequal whatever they hold, and a value moved between
/// registers stays equal to itself.
pub proof fn lemma_aggregate_equality(i: int, j: int)
    ensures
        value_eq(ValueModel::Object(i), ValueModel::Object(j)) == (i == j),
        value_eq(ValueModel::Array(i), ValueModel::Array(j)) == (i == j),
        value_eq(ValueModel::Object(i), ValueModel::Object(i)),
{
}

/// An unconditional jump moves the counter by exactly its offset; a
/// conditional jump does so only when the condition register holds exactly
/// the boolean true, and otherwise falls through to the next instruction.
pub proof fn lemma_jumps(s: MachineState, cond: u8, offset: i32)
    requires
        running(s),
        0 <= s.pc + offset as int <= usize::MAX as int,
    ensures
        s.program[s.pc] == (Instruction::Jmp { offset }) ==> step(s) == StepOutcome::Next(
            MachineState { pc: s.pc + offset as int, ..s },
        ),
        s.program[s.pc] == (Instruction::JmpIf { cond, offset }) && s.regs[cond as int] == (
        ValueModel::Boolean(true)) ==> step(s) == StepOutcome::Next(
            MachineState { pc: s.pc + offset as int, ..s },
        ),
        s.program[s.pc] == (Instruction::JmpIf { cond, offset }) && s.regs[cond as int] != (
        ValueModel::Boolean(true)) ==> step(s) == StepOutcome::Next(
            MachineState { pc: s.pc + 1, ..s },
        ),
{
}

/// A jump whose target would be a negative counter is fatal.
pub proof fn lemma_jump_negative_fatal(s: MachineState, offset: i32)
    requires
        running(s),
        s.pc + (offset as int) < 0,
        s.program[s.pc] == (Instruction::Jmp { offset }),
    ensures
        step(s) == StepOutcome::Fault(VmError::OutOfRange),
{
}

/// Writing an array element beyond the end grows the array exactly to the
/// written position: earlier elements keep their values, the fresh slots in
/// between read as undefined, and the target position takes the value.
pub proof fn lemma_array_growth(arr: Seq<ValueModel>, idx: int, v: ValueModel)
    requires
        idx >= arr.len(),
    ensures
        array_grown(arr, idx, v).len() == idx + 1,
        forall|j: int| 0 <= j < arr.len() ==> array_grown(arr, idx, v)[j] == arr[j],
        forall|j: int|
            arr.len() <= j < idx ==> array_grown(arr, idx, v)[j] == ValueModel::Undefined,
        array_grown(arr, idx, v)[idx] == v,
{
}

/// The growing write itself: with an array operand in range and a numeric
/// index naming a position at or past the end, the store replaces the array
/// with its grown form and advances the counter.
pub proof fn lemma_set_elem_grows(s: MachineState, array: u8, index: u8, value: u8, i: int, nb: u64)
    requires
        running(s),
        s.program[s.pc] == (Instruction::SetElem { array, index, value }),
        s.regs[array as int] == ValueModel::Array(i),
        s.regs[index as int] == ValueModel::Number(nb),
        0 <= i < s.arrays.len(),
        s.arrays[i].len() <= floor_index(nb) < usize::MAX as int,
    ensures
        step(s) == StepOutcome::Next(
            MachineState {
                arrays: s.arrays.update(
                    i,
                    array_grown(s.arrays[i], floor_index(nb), s.regs[value as int]),
                ),
                pc: s.pc + 1,
                ..s
            },
        ),
{
}

/// Reading an array at a position past the end yields undefined, without a
/// fault.
pub proof fn lemma_get_elem_out_of_range(s: MachineState, dst: u8, array: u8, index: u8, i: int, nb: u64)
    requires
        running(s),
        s.program[s.pc] == (Instruction::GetElem { dst, array, index }),
        s.regs[array as int] == ValueModel::Array(i),
        s.regs[index as int] == ValueModel::Number(nb),
        0 <= i < s.arrays.len(),
        floor_index(nb) >= s.arrays[i].len(),
    ensures
        step(s) == StepOutcome::Next(store(s, dst, ValueModel::Undefined)),
{
}

/// Reading a missing property yields undefined, without a fault; and a
/// property read after a write of the same key yields exactly the written
/// value.
pub proof fn lemma_prop_round_trip(m: Map<Seq<char>, ValueModel>, k: Seq<char>, v: ValueModel)
    ensures
        !m.contains_key(k) ==> prop_lookup(m, k) == ValueModel::Undefined,
        prop_lookup(m.insert(k, v), k) == v,
{
}

/// The property instructions take these lookups through the arena: a read
/// of a present key returns the stored value, a read of a missing key
/// returns undefined, and a write inserts into the addressed object alone.
pub proof fn lemma_prop_steps(s: MachineState, dst: u8, obj: u8, key: u8, value: u8, i: int, k: Seq<char>)
    requires
        running(s),
        s.regs[obj as int] == ValueModel::Object(i),
        s.regs[key as int] == ValueModel::String(k),
        0 <= i < s.objects.len(),
    ensures
        s.program[s.pc] == (Instruction::GetProp { dst, obj, key }) ==> step(s)
            == StepOutcome::Next(store(s, dst, prop_lookup(s.objects[i], k))),
        s.program[s.pc] == (Instruction::SetProp { obj, key, value }) ==> step(s)
            == StepOutcome::Next(
            MachineState {
                objects: s.objects.update(i, s.objects[i].insert(k, s.regs[value as int])),
                pc: s.pc + 1,
                ..s
            },
        ),
{
}

/// Only a property write aimed at that very object changes its table: along
/// any other transition an existing object slot keeps its bindings, and
/// fresh slots are only ever appended.  Chained along a trace, this gives
/// the persistence of a stored property across arbitrary intervening
/// instructions that do not write the object.
pub proof fn lemma_object_frame(s: MachineState, t: MachineState, i: int)
    requires
        running(s),
        step(s) == StepOutcome::Next(t),
        0 <= i < s.objects.len(),
    ensures
        s.objects.len() <= t.objects.len(),
        t.objects[i] == s.objects[i] || (match s.program[s.pc] {
            Instruction::SetProp { obj, key, value } => s.regs[obj as int] == ValueModel::Object(i)
                && (s.regs[key as int] is String) && t.objects[i] == s.objects[i].insert(
                s.regs[key as int]->String_0,
                s.regs[value as int],
            ),
            _ => false,
        }),
{
}

/// The array analogue: only an element write aimed at that very array
/// changes it; every other transition leaves an existing array slot as it
/// stands, and fresh slots are only ever appended.
pub proof fn lemma_array_frame(s: MachineState, t: MachineState, i: int)
    requires
        running(s),
        step(s) == StepOutcome::Next(t),
        0 <= i < s.arrays.len(),
    ensures
        s.arrays.len() <= t.arrays.len(),
        t.arrays[i] == s.arrays[i] || (match s.program[s.pc] {
            Instruction::SetElem { array, index, value } => s.regs[array as int]
                == ValueModel::Array(i) && (s.regs[index as int] is Number),
            _ => false,
        }),
{
}

/// The end of a run is unique: the semantics is deterministic, so two
/// reaches from one state that both stop where no further ordinary
/// transition leaves (a halt, a fault or a pause) stop at the same state
/// after the same number of transitions.  Together with the engine's
/// reachability contracts this pins a whole run to the one prescribed
/// trace.
pub proof fn lemma_terminal_reach_unique(
    a: MachineState,
    b: MachineState,
    c: MachineState,
    n: nat,
    m: nat,
)
    requires
        reaches(a, b, n),
        reaches(a, c, m),
        !(running(b) && step(b) is Next),
        !(running(c) && step(c) is Next),
    ensures
        b == c,
        n == m,
    decreases n,
{
    if n == 0 {
        if m != 0 {
            assert(false);
        }
    } else {
        match step(a) {
            StepOutcome::Next(mid) => {
                if m == 0 {
                    assert(false);
                } else {
                    lemma_terminal_reach_unique(mid, b, c, (n - 1) as nat, (m - 1) as nat);
                }
            },
            _ => {
                assert(false);
            },
        }
    }
}

/// Every reach is witnessed by a run fragment: a trace that starts at the
/// first state, ends at the second, and has one state per transition plus
/// the start.  It connects the engine's reachability contract to the laws
/// stated over traces.
pub proof fn lemma_reaches_trace(a: MachineState, b: MachineState, n: nat) -> (tr: Seq<
    MachineState,
>)
    requires
        reaches(a, b, n),
    ensures
        is_trace(tr),
        tr.len() == n + 1,
        tr[0] == a,
        tr.last() == b,
    decreases n,
{
    if n == 0 {
        let tr = seq![a];
        assert(is_trace(tr));
        tr
    } else {
        match step(a) {
            StepOutcome::Next(m) => {
                let rest = lemma_reaches_trace(m, b, (n - 1) as nat);
                let tr = seq![a] + rest;
                assert forall|j: int| 0 <= j < tr.len() - 1 implies running(#[trigger] tr[j])
                    && step(tr[j]) == StepOutcome::Next(tr[j + 1]) by {
                    if j == 0 {
                        assert(tr[0] == a);
                        assert(tr[1] == rest[0]);
                    } else {
                        assert(tr[j] == rest[j - 1]);
                        assert(tr[j + 1] == rest[j]);
                    }
                }
                tr
            },
            _ => {
                assert(false);
                seq![a]
            },
        }
    }
}

/// The state writes the property of object `i` named `k`: its instruction
/// is a property store whose object register aliases slot `i` and whose key
/// register holds exactly that string.
pub open spec fn writes_prop(s: MachineState, i: int, k: Seq<char>) -> bool {
    match s.program[s.pc] {
        Instruction::SetProp { obj, key, value } => s.regs[obj as int] == ValueModel::Object(i)
            && s.regs[key as int] == ValueModel::String(k),
        _ => false,
    }
}

/// A stored property persists: along any run fragment none of whose steps
/// writes that object at that key, the binding stays exactly as it was —
/// whatever other instructions run in between.
pub proof fn lemma_prop_persistence(tr: Seq<MachineState>, i: int, k: Seq<char>, v: ValueModel)
    requires
        is_trace(tr),
        tr.len() > 0,
        0 <= i < tr[0].objects.len(),
        tr[0].objects[i].contains_key(k),
        tr[0].objects[i][k] == v,
        forall|j: int| 0 <= j < tr.len() - 1 ==> !writes_prop(tr[j], i, k),
    ensures
        i < tr.last().objects.len(),
        tr.last().objects[i].contains_key(k),
        tr.last().objects[i][k] == v,
    decreases tr.len(),
{
    if tr.len() > 1 {
        lemma_object_frame(tr[0], tr[1], i);
        assert(!writes_prop(tr[0], i, k));
        assert(tr[1].objects[i].contains_key(k) && tr[1].objects[i][k] == v);
        let rest = tr.subrange(1, tr.len() as int);
        assert(is_trace(rest)) by {
            assert(forall|j: int|
                0 <= j < rest.len() - 1 ==> #[trigger] rest[j] == tr[j + 1] && rest[j + 1]
                    == tr.index(j + 2));
        }
        assert(forall|j: int| 0 <= j < rest.len() - 1 ==> !writes_prop(#[trigger] rest[j], i, k))
            by {
            assert(forall|j: int| 0 <= j < rest.len() - 1 ==> #[trigger] rest[j] == tr[j + 1]);
        }
        lemma_prop_persistence(rest, i, k, v);
        assert(rest.last() == tr.last());
    }
}

/// A call pushes the current counter and a fresh empty scope and moves the
/// counter to the callable's offset; calling anything but a function is
/// fatal.
pub proof fn lemma_call(s: MachineState, func_reg: u8, arg_count: u8)
    requires
        running(s),
        s.program[s.pc] == (Instruction::Call { func_reg, arg_count }),
    ensures
        forall|k: int|
            s.regs[func_reg as int] == ValueModel::Function(k) ==> step(s) == StepOutcome::Next(
                MachineState {
                    calls: s.calls.push(s.pc),
                    scopes: s.scopes.push(Map::empty()),
                    pc: k,
                    ..s
                },
            ),
        !(s.regs[func_reg as int] is Function) ==> step(s) == StepOutcome::Fault(
            VmError::TypeMismatch,
        ),
{
}

/// A return pops exactly one saved counter and one scope, whatever its own
/// operands say; with no pending call it is fatal.
pub proof fn lemma_return(s: MachineState, start_reg: u8, count: u8)
    requires
        running(s),
        s.program[s.pc] == (Instruction::Return { start_reg, count }),
    ensures
        s.calls.len() > 0 && s.scopes.len() > 0 ==> step(s) == StepOutcome::Next(
            MachineState {
                pc: s.calls.last(),
                calls: s.calls.drop_last(),
                scopes: s.scopes.drop_last(),
                ..s
            },
        ),
        s.calls.len() == 0 ==> step(s) == StepOutcome::Fault(VmError::ReturnWithoutCall),
{
}

/// A return undoes the matching call: from the state the call produced, the
/// counter comes back to the call's own index and the scope the call pushed
/// is gone, whatever the return's operands were.
pub proof fn lemma_call_return_balance(
    s: MachineState,
    t: MachineState,
    func_reg: u8,
    arg_count: u8,
    start_reg: u8,
    count: u8,
    k: int,
)
    requires
        running(s),
        s.program[s.pc] == (Instruction::Call { func_reg, arg_count }),
        s.regs[func_reg as int] == ValueModel::Function(k),
        step(s) == StepOutcome::Next(t),
        running(t),
        t.program[t.pc] == (Instruction::Return { start_reg, count }),
    ensures
        step(t) is Next,
        step(t)->Next_0.pc == s.pc,
        step(t)->Next_0.calls == s.calls,
        step(t)->Next_0.scopes == s.scopes,
{
    assert(t.calls == s.calls.push(s.pc));
    assert(t.scopes == s.scopes.push(Map::empty()));
    assert(t.calls.drop_last() =~= s.calls);
    assert(t.scopes.drop_last() =~= s.scopes);
}

/// The type query stores the exact tag of each variant, as a string, in the
/// destination register.
pub proof fn lemma_type_of(s: MachineState, dst: u8, src: u8)
    requires
        running(s),
        s.program[s.pc] == (Instruction::TypeOf { dst, src }),
    ensures
        step(s) == StepOutcome::Next(store(s, dst, ValueModel::String(type_tag(s.regs[src as int])))),
        type_tag(ValueModel::Undefined) == "undefined"@,
        type_tag(ValueModel::Null) == "object"@,
        forall|b: bool| type_tag(ValueModel::Boolean(b)) == "boolean"@,
        forall|n: u64| type_tag(ValueModel::Number(n)) == "number"@,
        forall|c: Seq<char>| type_tag(ValueModel::String(c)) == "string"@,
        forall|i: int| type_tag(ValueModel::Object(i)) == "object"@,
        forall|i: int| type_tag(ValueModel::Array(i)) == "object"@,
        forall|i: int| type_tag(ValueModel::Function(i)) == "function"@,
{
}

/// No transition touches the program or the constant pool: both are
/// immutable for the lifetime of a run.
pub proof fn lemma_program_immutable(a: MachineState, b: MachineState, n: nat)
    requires
        reaches(a, b, n),
    ensures
        b.program == a.program,
        b.consts == a.consts,
    decreases n,
{
    if n > 0 {
        match step(a) {
            StepOutcome::Next(m) => {
                lemma_program_immutable(m, b, (n - 1) as nat);
            },
            _ => {
                assert(false);
            },
        }
    }
}

/// Every transition keeps one scope per pending call plus the permanent
/// global scope: a call pushes both a frame and a scope, a return pops both,
/// and nothing else touches either stack's depth.
pub proof fn lemma_stack_discipline(a: MachineState, b: MachineState, n: nat)
    requires
        reaches(a, b, n),
        a.scopes.len() == a.calls.len() + 1,
    ensures
        b.scopes.len() == b.calls.len() + 1,
    decreases n,
{
    if n > 0 {
        match step(a) {
            StepOutcome::Next(m) => {
                lemma_stack_discipline(m, b, (n - 1) as nat);
            },
            _ => {
                assert(false);
            },
        }
    }
}

/// The instance test is true exactly for an aggregate paired with a
/// callable: an object or array on the left and a function on the right.
pub proof fn lemma_instance_of(s: MachineState, dst: u8, obj: u8, ctor: u8)
    requires
        running(s),
        s.program[s.pc] == (Instruction::InstanceOf { dst, obj, ctor }),
    ensures
        step(s) == StepOutcome::Next(
            store(s, dst, ValueModel::Boolean(instance_of(s.regs[obj as int], s.regs[ctor as int]))),
        ),
        forall|a: ValueModel, b: ValueModel|
            instance_of(a, b) == ((a is Object || a is Array) && b is Function),
{
}

} // verus!
