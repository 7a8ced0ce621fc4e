//! Lowering back end for a circuit compiler: translates a linearized SSA
//! form into an ordered list of arithmetic-constraint opcodes, and compiles
//! unconstrained functions into a register-machine bytecode that constrained
//! code can invoke through an opaque, predicate-guarded call opcode.

pub mod acir_gen;
pub mod acir_mem;
pub mod brillig;
pub mod errors;
pub mod evaluator;
pub mod expression;
pub mod field;
pub mod fuzz;
pub mod internal_var;
pub mod node;
pub mod opcode;
pub mod ops;
pub mod reporter;
pub mod runner;
