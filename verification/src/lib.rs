//! An interpreter for the SWPP assembly language with its cost model:
//! registers, a stack and a bump-allocated heap with a heat model,
//! asynchronous loads with deferred cost, fused multiply/add, and an
//! explicit call stack driven one instruction at a time.
pub mod common;
pub mod bytes;
pub mod heat;
pub mod debt;
pub mod memory;
pub mod function;
pub mod program;
pub mod inst;
pub mod effect;
pub mod properties;
pub mod arith_laws;
pub mod parser;
pub mod logger;
pub mod text;
pub mod error;
pub mod register;

