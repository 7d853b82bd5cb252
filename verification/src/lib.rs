//! A small strongly-typed expression and statement language with a
//! two-stage pipeline: a front end parses source text into a typed
//! syntax tree, a register-allocating compiler lowers the tree to
//! bytecode, and a register-machine interpreter executes it.

pub mod compiler;
pub mod float_bits;
pub mod textops;
pub mod interpreter;
pub mod opcode;
