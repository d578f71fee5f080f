//! A just-in-time compiler for a small register-machine instruction set.
//!
//! An instruction sequence (`set`, arithmetic `op`, and a reserved conditional
//! `jump`) is lowered to one straight-line native function that reads and
//! writes a fixed array of 256 double-precision registers addressed by slot
//! index.  Variable names are mapped to slots in first-seen order by a symbol
//! table; exponentiation is delegated to a host-supplied native routine
//! rather than synthesized inline.  Register values are represented throughout as IEEE-754
//! bit patterns (`u64`); the caller owns the execution context and interprets
//! the bits as doubles.

mod backend;
pub mod cfg;
pub mod compiled_function;
pub mod emit;
pub mod ir;
pub mod jit;
pub mod parser;
mod strings;
pub mod symbol_table;
