//! A register-based bytecode virtual machine for a dynamically typed,
//! JavaScript-like language: a closed instruction set over a 256-slot
//! register file, a constant pool, heap-allocated objects and arrays held in
//! an arena, a lexical scope stack and a call stack, together with the
//! fetch-decode-execute engine that interprets it.

pub mod bytecode;
pub mod engine;
pub mod laws;
pub mod machine;
pub mod numbits;
pub mod strmap;
pub mod value;

pub use bytecode::Instruction;
pub use engine::RunOutcome;
pub use engine::StepEvent;
pub use engine::VM;
pub use machine::VmError;
pub use value::Value;
