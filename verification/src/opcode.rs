//! The opcodes the pass emits: the constraint opcodes of the output
//! program, and the register-machine bytecode of unconstrained functions.

use vstd::prelude::*;

use crate::expression::Expression;
use crate::expression::Witness;
use crate::field::FieldElement;
use crate::node::ArrayId;
use crate::node::BinaryOp;
use crate::node::BuiltinOpcode;

verus! {

/// One buffered access of a dynamic memory block.
#[derive(Clone, Debug, PartialEq, Eq)]
pub enum MemOp {
    /// Writes `value` at `index`.
    Store { index: Expression, value: Expression },
    /// Reads `index` into the fresh witness `result`.
    Load { index: Expression, result: Witness },
}

/// Wiring of one argument of an embedded-bytecode call.
#[derive(Clone, Debug, PartialEq, Eq)]
pub enum BrilligInput {
    /// A scalar argument, as an expression.
    Simple(Expression),
    /// An array argument, expanded element by element in array order.
    Array { array_id: ArrayId, elements: Vec<Expression> },
}

/// Wiring of one result of an embedded-bytecode call.
#[derive(Clone, Debug, PartialEq, Eq)]
pub enum BrilligOutput {
    /// A scalar result, bound to one fresh witness.
    Simple(Witness),
    /// An array result, one fresh witness per element.
    Array(Vec<Witness>),
}

/// One instruction of the unconstrained register machine.  Registers are
/// named by the indices of the SSA nodes they hold.
#[derive(Clone, Copy, Debug, PartialEq, Eq, Structural)]
pub enum BrilligOpcode {
    /// One step of the bootstrap prologue: maps the call's argument
    /// number `argument` onto the callee's register `register`.
    Bootstrap { argument: u32, register: u32 },
    /// `destination := lhs (operator) rhs` in the field.
    BinaryFieldOp { operator: BinaryOp, destination: u32, lhs: u32, rhs: u32 },
    /// Loads a field constant into a register.
    Const { destination: u32, value: FieldElement },
    /// Copies one register into another.
    Mov { destination: u32, source: u32 },
    /// Ends execution.
    Stop,
}

/// One opcode of the output constraint program.
#[derive(Clone, Debug, PartialEq, Eq)]
pub enum AcirOpcode {
    /// Asserts that the expression equals zero.
    Arithmetic(Expression),
    /// Asserts that the witness fits in `num_bits` bits.
    RangeCheck { witness: Witness, num_bits: u32 },
    /// Solver hint: split `value` into `truncated` (the low `bit_size`
    /// bits) and `remainder` (the bits above them).
    TruncateDirective { value: Expression, truncated: Witness, remainder: Witness, bit_size: u32 },
    /// One dynamic memory block with its buffered accesses, emitted
    /// batched when the memory model is flushed.
    MemoryBlock { array_id: ArrayId, len: u32, trace: Vec<MemOp> },
    /// A call into a named builtin.
    IntrinsicCall { opcode: BuiltinOpcode, inputs: Vec<Expression>, outputs: Vec<Witness> },
    /// An embedded unconstrained subroutine: linked bytecode, input and
    /// output wiring, and an optional guard predicate (`None` is
    /// always-true).  The checker treats the bytecode as a black box.
    BrilligCall {
        inputs: Vec<BrilligInput>,
        outputs: Vec<BrilligOutput>,
        bytecode: Vec<BrilligOpcode>,
        predicate: Option<Expression>,
    },
}

} // verus!
