//! The shared output of one lowering pass: the witness allocator and the
//! growing constraint-opcode list.  Both grow monotonically for the pass's
//! lifetime and are exclusively owned by it.

use vstd::prelude::*;

use crate::expression::Expression;
use crate::expression::LinearTerm;
use crate::expression::Witness;
use crate::field::FieldElement;
use crate::field::FIELD_MODULUS;
use crate::opcode::AcirOpcode;

verus! {

/// Witness indices stay below this ceiling; the dispatcher refuses to
/// lower further instructions once it is passed, so that no single
/// instruction can run the allocator out of indices.
pub const WITNESS_CEILING: u64 = 0x1000_0000_0000;

pub struct Evaluator {
    /// The next witness index to hand out; strictly increasing, never
    /// reused.
    pub current_witness_index: u64,
    /// The output constraint program, in emission order.
    pub opcodes: Vec<AcirOpcode>,
    /// Witnesses wired to the program's declared public outputs.
    pub public_outputs: Vec<Witness>,
}

impl Evaluator {
    /// The output program and witness vector only ever grow: what was
    /// emitted stays, in place, and witness indices never move back.
    pub open spec fn monotone_from(self, other: Evaluator) -> bool {
        &&& other.opcodes@.is_prefix_of(self.opcodes@)
        &&& self.current_witness_index >= other.current_witness_index
        &&& other.public_outputs@.is_prefix_of(self.public_outputs@)
    }

    pub fn new() -> (r: Evaluator)
        ensures
            r.current_witness_index == 0,
            r.opcodes@.len() == 0,
            r.public_outputs@.len() == 0,
    {
        Evaluator { current_witness_index: 0, opcodes: Vec::new(), public_outputs: Vec::new() }
    }

    /// Allocates one fresh witness.  Indices never decrease or repeat.
    pub fn add_witness_to_cs(&mut self) -> (w: Witness)
        requires
            old(self).current_witness_index < u64::MAX,
        ensures
            w.index == old(self).current_witness_index,
            final(self).current_witness_index == old(self).current_witness_index + 1,
            final(self).opcodes@ == old(self).opcodes@,
            final(self).public_outputs@ == old(self).public_outputs@,
    {
        let w = Witness { index: self.current_witness_index };
        self.current_witness_index = self.current_witness_index + 1;
        w
    }

    /// Appends one opcode to the output program.
    pub fn push_opcode(&mut self, op: AcirOpcode)
        ensures
            final(self).opcodes@ == old(self).opcodes@.push(op),
            final(self).current_witness_index == old(self).current_witness_index,
            final(self).public_outputs@ == old(self).public_outputs@,
    {
        self.opcodes.push(op);
    }

    /// Records one public-output witness.
    pub fn push_public_output(&mut self, w: Witness)
        ensures
            final(self).public_outputs@ == old(self).public_outputs@.push(w),
            final(self).opcodes@ == old(self).opcodes@,
            final(self).current_witness_index == old(self).current_witness_index,
    {
        self.public_outputs.push(w);
    }

    /// Pins an expression to a fresh witness `w`, by emitting the
    /// constraint `expr - w == 0`.
    pub fn create_intermediate_variable(&mut self, expr: &Expression) -> (w: Witness)
        requires
            expr.wf(),
            old(self).current_witness_index < u64::MAX,
        ensures
            w.index == old(self).current_witness_index,
            final(self).current_witness_index == old(self).current_witness_index + 1,
            final(self).opcodes@.len() == old(self).opcodes@.len() + 1,
            old(self).opcodes@ == final(self).opcodes@.subrange(0, old(self).opcodes@.len() as int),
            final(self).opcodes@.last() matches AcirOpcode::Arithmetic(e) && {
                &&& e.mul_terms@ == expr.mul_terms@
                &&& e.linear_combinations@.len() == expr.linear_combinations@.len() + 1
                &&& e.linear_combinations@.subrange(0, expr.linear_combinations@.len() as int)
                    == expr.linear_combinations@
                &&& e.linear_combinations@.last().witness == w
                &&& e.linear_combinations@.last().coefficient@ == FIELD_MODULUS - 1
                &&& e.q_c == expr.q_c
            },
            final(self).public_outputs@ == old(self).public_outputs@,
    {
        let w = self.add_witness_to_cs();
        let mul_terms = expr.mul_terms.clone();
        let mut linear = expr.linear_combinations.clone();
        proof {
            assert(mul_terms@ =~= expr.mul_terms@);
            assert(linear@ =~= expr.linear_combinations@);
        }
        let minus_one = FieldElement::from_u64(FIELD_MODULUS - 1);
        linear.push(LinearTerm { coefficient: minus_one, witness: w });
        let pinned = Expression { mul_terms, linear_combinations: linear, q_c: expr.q_c };
        proof {
            assert(pinned.linear_combinations@.subrange(0, expr.linear_combinations@.len() as int)
                =~= expr.linear_combinations@);
        }
        self.push_opcode(AcirOpcode::Arithmetic(pinned));
        proof {
            assert(old(self).opcodes@ =~= self.opcodes@.subrange(0, old(self).opcodes@.len() as int));
        }
        w
    }
}

} // verus!
