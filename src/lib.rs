//! Execution core of a register-based WebAssembly interpreter: the value and
//! call stacks, host-call dispatch with resumable traps, and an execution
//! tracer that derives a memory-access table from the recorded steps.

pub mod etable;
pub mod executor;
pub mod imtable;
pub mod mtable;
pub mod stack;
pub mod tracer;
