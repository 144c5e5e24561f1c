//! The instruction set: a closed, tagged set of operations over the register
//! file, the constant pool, the heap and the scope stack.  An instruction has
//! no behaviour of its own; the execution engine gives it meaning.
//!
//! Operand widths are contracts: register indices are eight bits, pool and
//! variable indices are unsigned 32-bit quantities, and jump offsets are
//! signed 32-bit quantities relative to the instruction's own position.
use vstd::prelude::*;

verus! {

/// One operation of the virtual machine.
#[derive(Debug, Clone, Copy, PartialEq)]
pub enum Instruction {
    /// Loads the constant at `const_idx` into register `reg`.
    LoadConst { reg: u8, const_idx: u32 },
    /// Loads the undefined value into register `reg`.
    LoadUndefined { reg: u8 },
    /// Loads the null value into register `reg`.
    LoadNull { reg: u8 },
    /// Loads the boolean `value` into register `reg`.
    LoadBool { reg: u8, value: bool },
    /// Copies the value of register `src` into register `dst`.
    Move { dst: u8, src: u8 },
    /// Adds the numbers in registers `a` and `b` into `dst`.
    Add { dst: u8, a: u8, b: u8 },
    /// Subtracts the number in register `b` from the one in `a`, into `dst`.
    Sub { dst: u8, a: u8, b: u8 },
    /// Multiplies the numbers in registers `a` and `b` into `dst`.
    Mul { dst: u8, a: u8, b: u8 },
    /// Divides the number in register `a` by the one in `b`, into `dst`.
    Div { dst: u8, a: u8, b: u8 },
    /// Takes the remainder of the number in `a` by the one in `b`, into `dst`.
    Mod { dst: u8, a: u8, b: u8 },
    /// Raises the number in register `a` to the number in `b`, into `dst`.
    Pow { dst: u8, a: u8, b: u8 },
    /// Negates the number in register `a` into `dst`.
    Neg { dst: u8, a: u8 },
    /// Compares registers `a` and `b` for equality; the boolean result goes
    /// into register 0.
    Eq { a: u8, b: u8 },
    /// Tests whether register `a` orders strictly below register `b`; the
    /// boolean result goes into register 0.
    Lt { a: u8, b: u8 },
    /// Tests whether register `a` orders at or below register `b`; the
    /// boolean result goes into register 0.
    Le { a: u8, b: u8 },
    /// Adds `offset` to the program counter.
    Jmp { offset: i32 },
    /// Adds `offset` to the program counter when register `cond` holds
    /// exactly the boolean true.
    JmpIf { cond: u8, offset: i32 },
    /// Calls the function held in register `func_reg`.  `arg_count` is
    /// informational only: no argument is bound into the fresh scope.
    Call { func_reg: u8, arg_count: u8 },
    /// Returns to the counter saved by the matching call.  `start_reg` and
    /// `count` are kept for the encoding; no value moves across the call
    /// boundary.
    Return { start_reg: u8, count: u8 },
    /// Allocates a fresh empty object into register `reg`.
    NewObject { reg: u8 },
    /// Reads the property of the object in `obj` named by the string in
    /// `key` into `dst`; a missing key reads as undefined.
    GetProp { dst: u8, obj: u8, key: u8 },
    /// Writes register `value` into the property of the object in `obj`
    /// named by the string in `key`.
    SetProp { obj: u8, key: u8, value: u8 },
    /// Stores a function value for the body at instruction `func_idx` into
    /// register `reg`.
    Closure { reg: u8, func_idx: u32 },
    /// Reads the scope variable at `var_idx` from the top scope into `dst`.
    GetScope { dst: u8, var_idx: u32 },
    /// Writes register `src` into the scope variable at `var_idx` of the top
    /// scope.
    SetScope { var_idx: u32, src: u8 },
    /// Allocates a fresh empty array into register `reg`.
    NewArray { reg: u8 },
    /// Reads the element of the array in `array` at the numeric index in
    /// `index` into `dst`; an out-of-range read gives undefined.
    GetElem { dst: u8, array: u8, index: u8 },
    /// Writes register `value` into the array in `array` at the numeric
    /// index in `index`, growing the array with undefined slots as needed.
    SetElem { array: u8, index: u8, value: u8 },
    /// Stores the type tag of register `src`, as a string, into `dst`.
    TypeOf { dst: u8, src: u8 },
    /// Stores into `dst` whether `obj` holds an aggregate and `ctor` holds a
    /// callable.
    InstanceOf { dst: u8, obj: u8, ctor: u8 },
    /// Stores a function value for the body that follows this instruction
    /// into register `reg`; `name_idx` and `param_count` are informational.
    DeclareFunc { reg: u8, name_idx: u32, param_count: u8 },
    /// Declares the scope variable at `name_idx` in the top scope, with the
    /// undefined value.
    DeclareVar { name_idx: u32 },
    /// Sets the engine's strict-mode flag; no instruction consults it yet.
    UseStrict,
}

} // verus!
