//! The per-operation lowering steps: algebraic combination of operands,
//! degree capping by pinning to fresh witnesses, complement, truncation,
//! selection, assertion and intrinsic calls.

use vstd::prelude::*;

use crate::evaluator::Evaluator;
use crate::expression::Expression;
use crate::expression::MulTerm;
use crate::expression::Witness;
use crate::field::FieldElement;
use crate::field::FIELD_MODULUS;
use crate::internal_var::InternalVar;
use crate::node::BinaryOp;
use crate::node::BuiltinOpcode;
use crate::opcode::AcirOpcode;

verus! {

/// The accepted degree bound of an inline expression.
pub const DEGREE_BOUND: u32 = 2;

/// Converts an expression into a witness: an expression that is already
/// exactly one witness is coerced for free; any other expression is
/// pinned to a fresh witness by one emitted constraint.
pub fn expression_to_witness(expr: &Expression, evaluator: &mut Evaluator) -> (w: Witness)
    requires
        expr.wf(),
        old(evaluator).current_witness_index < u64::MAX,
    ensures
        final(evaluator).monotone_from(*old(evaluator)),
        final(evaluator).current_witness_index <= old(evaluator).current_witness_index + 1,
        final(evaluator).opcodes@.len() <= old(evaluator).opcodes@.len() + 1,
        forall|t: int|
            old(evaluator).opcodes@.len() <= t < final(evaluator).opcodes@.len()
                ==> #[trigger] final(evaluator).opcodes@[t] is Arithmetic,
        final(evaluator).public_outputs@ == old(evaluator).public_outputs@,
        expr.is_witness_poly() ==> (w == expr.linear_combinations@[0].witness && *final(evaluator)
            == *old(evaluator)),
        !expr.is_witness_poly() ==> {
            &&& w.index == old(evaluator).current_witness_index
            &&& final(evaluator).current_witness_index == old(evaluator).current_witness_index + 1
            &&& final(evaluator).opcodes@.len() == old(evaluator).opcodes@.len() + 1
            // The one appended opcode is the pinning constraint
            // `expr - w = 0`.
            &&& final(evaluator).opcodes@.last() is Arithmetic
            &&& (final(evaluator).opcodes@.last() matches AcirOpcode::Arithmetic(e) ==> {
                &&& e.mul_terms@ == expr.mul_terms@
                &&& e.linear_combinations@.len() == expr.linear_combinations@.len() + 1
                &&& e.linear_combinations@.subrange(0, expr.linear_combinations@.len() as int)
                    == expr.linear_combinations@
                &&& e.linear_combinations@.last().witness == w
                &&& e.linear_combinations@.last().coefficient@ == FIELD_MODULUS - 1
                &&& e.q_c == expr.q_c
            })
        },
{
    let r = match expr.to_witness() {
        Some(w) => w,
        None => evaluator.create_intermediate_variable(expr),
    };
    proof {
        assert(old(evaluator).opcodes@.is_prefix_of(evaluator.opcodes@)) by {
            assert(old(evaluator).opcodes@ =~= evaluator.opcodes@.subrange(
                0,
                old(evaluator).opcodes@.len() as int,
            ));
        }
        assert(old(evaluator).public_outputs@.is_prefix_of(evaluator.public_outputs@)) by {
            assert(old(evaluator).public_outputs@ =~= evaluator.public_outputs@.subrange(
                0,
                old(evaluator).public_outputs@.len() as int,
            ));
        }
    }
    r
}

/// The product of two expressions, kept within the degree bound: a
/// constant factor scales the other side in place; otherwise both sides
/// are pinned to witnesses and the product is the single degree-two term
/// over those witnesses.
pub fn mul_expressions(l: &Expression, r: &Expression, evaluator: &mut Evaluator) -> (res:
    Expression)
    requires
        l.wf(),
        r.wf(),
        old(evaluator).current_witness_index + 2 < u64::MAX,
    ensures
        res.wf(),
        final(evaluator).monotone_from(*old(evaluator)),
        final(evaluator).current_witness_index <= old(evaluator).current_witness_index + 2,
        final(evaluator).opcodes@.len() <= old(evaluator).opcodes@.len() + 2,
        forall|t: int|
            old(evaluator).opcodes@.len() <= t < final(evaluator).opcodes@.len()
                ==> #[trigger] final(evaluator).opcodes@[t] is Arithmetic,
        final(evaluator).public_outputs@ == old(evaluator).public_outputs@,
        l.degree() == 0 ==> {
            &&& res.mul_terms@.len() == r.mul_terms@.len()
            &&& res.linear_combinations@.len() == r.linear_combinations@.len()
            &&& forall|i: int|
                0 <= i < res.linear_combinations@.len() ==> {
                    &&& (#[trigger] res.linear_combinations@[i]).coefficient@ == (
                    r.linear_combinations@[i].coefficient@ * l.q_c@) % FIELD_MODULUS as int
                    &&& res.linear_combinations@[i].witness == r.linear_combinations@[i].witness
                }
            &&& forall|i: int|
                0 <= i < res.mul_terms@.len() ==> {
                    &&& (#[trigger] res.mul_terms@[i]).coefficient@ == (
                    r.mul_terms@[i].coefficient@ * l.q_c@) % FIELD_MODULUS as int
                    &&& res.mul_terms@[i].witness_left == r.mul_terms@[i].witness_left
                    &&& res.mul_terms@[i].witness_right == r.mul_terms@[i].witness_right
                }
            &&& res.q_c@ == (r.q_c@ * l.q_c@) % FIELD_MODULUS as int
            &&& *final(evaluator) == *old(evaluator)
        },
        l.degree() != 0 && r.degree() == 0 ==> {
            &&& res.mul_terms@.len() == l.mul_terms@.len()
            &&& res.linear_combinations@.len() == l.linear_combinations@.len()
            &&& forall|i: int|
                0 <= i < res.linear_combinations@.len() ==> {
                    &&& (#[trigger] res.linear_combinations@[i]).coefficient@ == (
                    l.linear_combinations@[i].coefficient@ * r.q_c@) % FIELD_MODULUS as int
                    &&& res.linear_combinations@[i].witness == l.linear_combinations@[i].witness
                }
            &&& forall|i: int|
                0 <= i < res.mul_terms@.len() ==> {
                    &&& (#[trigger] res.mul_terms@[i]).coefficient@ == (
                    l.mul_terms@[i].coefficient@ * r.q_c@) % FIELD_MODULUS as int
                    &&& res.mul_terms@[i].witness_left == l.mul_terms@[i].witness_left
                    &&& res.mul_terms@[i].witness_right == l.mul_terms@[i].witness_right
                }
            &&& res.q_c@ == (l.q_c@ * r.q_c@) % FIELD_MODULUS as int
            &&& *final(evaluator) == *old(evaluator)
        },
        l.degree() != 0 && r.degree() != 0 ==> {
            &&& res.mul_terms@.len() == 1
            &&& res.mul_terms@[0].coefficient@ == 1
            &&& res.linear_combinations@.len() == 0
            &&& res.q_c@ == 0
            &&& res.degree() == 2
        },
        // A product of two bare witnesses is exactly their one
        // degree-two term, with nothing emitted.
        l.is_witness_poly() && r.is_witness_poly() ==> {
            &&& res.mul_terms@.len() == 1
            &&& res.mul_terms@[0].witness_left == l.linear_combinations@[0].witness
            &&& res.mul_terms@[0].witness_right == r.linear_combinations@[0].witness
            &&& *final(evaluator) == *old(evaluator)
        },
{
    if l.is_const() {
        r.scale(l.q_c)
    } else if r.is_const() {
        l.scale(r.q_c)
    } else {
        let wl = expression_to_witness(l, evaluator);
        let wr = expression_to_witness(r, evaluator);
        let mut mul_terms: Vec<MulTerm> = Vec::new();
        mul_terms.push(
            MulTerm { coefficient: FieldElement::one(), witness_left: wl, witness_right: wr },
        );
        Expression {
            mul_terms,
            linear_combinations: Vec::new(),
            q_c: FieldElement::zero(),
        }
    }
}

/// Lowers one binary operation over already-lowered operands.  Addition
/// and subtraction always combine algebraically.  A product whose naive
/// degree would exceed the accepted bound never stays a raw high-degree
/// expression: it is lowered to a single pinned witness.
pub fn binary_evaluate(
    operator: BinaryOp,
    l: &InternalVar,
    r_var: &InternalVar,
    evaluator: &mut Evaluator,
) -> (res: InternalVar)
    requires
        l.wf(),
        r_var.wf(),
        old(evaluator).current_witness_index + 4 < u64::MAX,
    ensures
        res.wf(),
        res.id is None,
        final(evaluator).monotone_from(*old(evaluator)),
        final(evaluator).current_witness_index <= old(evaluator).current_witness_index + 3,
        final(evaluator).opcodes@.len() <= old(evaluator).opcodes@.len() + 3,
        forall|t: int|
            old(evaluator).opcodes@.len() <= t < final(evaluator).opcodes@.len()
                ==> #[trigger] final(evaluator).opcodes@[t] is Arithmetic,
        final(evaluator).public_outputs@ == old(evaluator).public_outputs@,
        // Addition concatenates the terms and adds the constants.
        operator is Add ==> {
            &&& res.expression.mul_terms@ == l.expression.mul_terms@ + r_var.expression.mul_terms@
            &&& res.expression.linear_combinations@ == l.expression.linear_combinations@
                + r_var.expression.linear_combinations@
            &&& res.expression.q_c@ == (l.expression.q_c@ + r_var.expression.q_c@)
                % FIELD_MODULUS as int
            &&& *final(evaluator) == *old(evaluator)
        },
        // Subtraction keeps the left side's terms and appends the
        // right side's with negated coefficients.
        operator is Sub ==> {
            &&& res.expression.mul_terms@.len() == l.expression.mul_terms@.len()
                + r_var.expression.mul_terms@.len()
            &&& res.expression.linear_combinations@.len()
                == l.expression.linear_combinations@.len()
                + r_var.expression.linear_combinations@.len()
            &&& forall|i: int|
                0 <= i < l.expression.linear_combinations@.len() ==> (
                #[trigger] res.expression.linear_combinations@[i])
                    == l.expression.linear_combinations@[i]
            &&& forall|i: int|
                0 <= i < r_var.expression.linear_combinations@.len() ==> {
                    &&& (#[trigger] res.expression.linear_combinations@[l.expression.linear_combinations@.len() + i]).coefficient@
                        == (r_var.expression.linear_combinations@[i].coefficient@ * (
                    FIELD_MODULUS - 1)) % FIELD_MODULUS as int
                    &&& res.expression.linear_combinations@[l.expression.linear_combinations@.len()
                        + i].witness == r_var.expression.linear_combinations@[i].witness
                }
            &&& forall|i: int|
                0 <= i < l.expression.mul_terms@.len() ==> (
                #[trigger] res.expression.mul_terms@[i]) == l.expression.mul_terms@[i]
            &&& forall|i: int|
                0 <= i < r_var.expression.mul_terms@.len() ==> {
                    &&& (#[trigger] res.expression.mul_terms@[l.expression.mul_terms@.len() + i]).coefficient@
                        == (r_var.expression.mul_terms@[i].coefficient@ * (FIELD_MODULUS - 1))
                        % FIELD_MODULUS as int
                    &&& res.expression.mul_terms@[l.expression.mul_terms@.len() + i].witness_left
                        == r_var.expression.mul_terms@[i].witness_left
                    &&& res.expression.mul_terms@[l.expression.mul_terms@.len() + i].witness_right
                        == r_var.expression.mul_terms@[i].witness_right
                }
            &&& res.expression.q_c@ == (l.expression.q_c@ + (r_var.expression.q_c@ * (
            FIELD_MODULUS - 1)) % FIELD_MODULUS as int) % FIELD_MODULUS as int
            &&& *final(evaluator) == *old(evaluator)
        },
        // A product that would exceed the degree bound lowers to a
        // single pinned witness.
        operator is Mul && l.expression.degree() + r_var.expression.degree() > DEGREE_BOUND
            ==> res.expression.is_witness_poly(),
        // A product with a constant side stays on the other side's
        // degree and emits nothing.
        operator is Mul && (l.expression.degree() == 0 || r_var.expression.degree() == 0) ==> (
        *final(evaluator) == *old(evaluator) && res.expression.degree() <= DEGREE_BOUND),
        // A constant left factor scales the right side coefficient by
        // coefficient.
        operator is Mul && l.expression.degree() == 0 ==> {
            &&& res.expression.linear_combinations@.len()
                == r_var.expression.linear_combinations@.len()
            &&& forall|i: int|
                0 <= i < res.expression.linear_combinations@.len() ==> {
                    &&& (#[trigger] res.expression.linear_combinations@[i]).coefficient@ == (
                    r_var.expression.linear_combinations@[i].coefficient@ * l.expression.q_c@)
                        % FIELD_MODULUS as int
                    &&& res.expression.linear_combinations@[i].witness
                        == r_var.expression.linear_combinations@[i].witness
                }
            &&& res.expression.q_c@ == (r_var.expression.q_c@ * l.expression.q_c@)
                % FIELD_MODULUS as int
        },
        operator is Mul && l.expression.degree() != 0 && r_var.expression.degree() == 0 ==> {
            &&& res.expression.linear_combinations@.len()
                == l.expression.linear_combinations@.len()
            &&& forall|i: int|
                0 <= i < res.expression.linear_combinations@.len() ==> {
                    &&& (#[trigger] res.expression.linear_combinations@[i]).coefficient@ == (
                    l.expression.linear_combinations@[i].coefficient@ * r_var.expression.q_c@)
                        % FIELD_MODULUS as int
                    &&& res.expression.linear_combinations@[i].witness
                        == l.expression.linear_combinations@[i].witness
                }
            &&& res.expression.q_c@ == (l.expression.q_c@ * r_var.expression.q_c@)
                % FIELD_MODULUS as int
        },
        // A product of two bare witnesses is exactly their one
        // degree-two term, with nothing emitted.
        operator is Mul && l.expression.is_witness_poly() && r_var.expression.is_witness_poly()
            ==> {
            &&& res.expression.mul_terms@.len() == 1
            &&& res.expression.mul_terms@[0].coefficient@ == 1
            &&& res.expression.mul_terms@[0].witness_left
                == l.expression.linear_combinations@[0].witness
            &&& res.expression.mul_terms@[0].witness_right
                == r_var.expression.linear_combinations@[0].witness
            &&& res.expression.linear_combinations@.len() == 0
            &&& res.expression.q_c@ == 0
            &&& *final(evaluator) == *old(evaluator)
        },
{
    match operator {
        BinaryOp::Add => InternalVar::from_expression(
            l.expression.add(&r_var.expression),
        ),
        BinaryOp::Sub => {
            let minus_one = FieldElement::from_u64(FIELD_MODULUS - 1);
            let neg = r_var.expression.scale(minus_one);
            InternalVar::from_expression(l.expression.add(&neg))
        },
        BinaryOp::Mul => {
            let l_const = l.expression.is_const();
            let r_const = r_var.expression.is_const();
            let l_linear = l.expression.is_linear();
            let r_linear = r_var.expression.is_linear();
            if l_const || r_const || (l_linear && r_linear) {
                // Naive degree within the bound: combine algebraically.
                InternalVar::from_expression(
                    mul_expressions(&l.expression, &r_var.expression, evaluator),
                )
            } else {
                // The naive product would exceed the bound: pin it.
                let prod = mul_expressions(&l.expression, &r_var.expression, evaluator);
                let ghost s1 = *evaluator;
                let w = expression_to_witness(&prod, evaluator);
                proof {
                    assert forall|t: int|
                        old(evaluator).opcodes@.len() <= t < evaluator.opcodes@.len() implies (
                    #[trigger] evaluator.opcodes@[t]) is Arithmetic by {
                        if t < s1.opcodes@.len() {
                            assert(s1.opcodes@[t] == evaluator.opcodes@.subrange(
                                0,
                                s1.opcodes@.len() as int,
                            )[t]);
                        }
                    }
                }
                InternalVar::from_expression(Expression::from_witness(w))
            }
        },
    }
}

/// Lowers a bitwise complement over `bit_size` bits: the field-level
/// expression `(2^bit_size - 1) - x`.
pub fn not_evaluate(v: &InternalVar, bit_size: u32) -> (res: InternalVar)
    requires
        v.wf(),
        1 <= bit_size <= 63,
    ensures
        res.wf(),
        res.id is None,
        res.expression.mul_terms@.len() == v.expression.mul_terms@.len(),
        res.expression.linear_combinations@.len() == v.expression.linear_combinations@.len(),
        // Every coefficient of the operand is negated under the mask
        // constant.
        forall|i: int|
            0 <= i < res.expression.linear_combinations@.len() ==> {
                &&& (#[trigger] res.expression.linear_combinations@[i]).coefficient@ == (
                v.expression.linear_combinations@[i].coefficient@ * (FIELD_MODULUS - 1))
                    % FIELD_MODULUS as int
                &&& res.expression.linear_combinations@[i].witness
                    == v.expression.linear_combinations@[i].witness
            },
        res.expression.q_c@ == (((1u64 << bit_size) - 1) + (v.expression.q_c@ * (FIELD_MODULUS
            - 1)) % FIELD_MODULUS as int) % FIELD_MODULUS as int,
{
    proof {
        assert(1u64 << bit_size >= 1 && 1u64 << bit_size <= 0x8000_0000_0000_0000u64)
            by (bit_vector)
            requires
                1 <= bit_size <= 63,
        {
        }
    }
    let mask = FieldElement::from_u64((1u64 << bit_size) - 1);
    let minus_one = FieldElement::from_u64(FIELD_MODULUS - 1);
    let neg = v.expression.scale(minus_one);
    let res = Expression::constant(mask).add(&neg);
    InternalVar::from_expression(res)
}

/// Lowers a truncation to `bit_size` bits of a value known to fit in
/// `max_bit_size` bits: a solver directive splitting the value, two
/// range checks, and the constraint `x = b + 2^bit_size * c`.  The
/// result is the pinned low part `b`.
pub fn truncate_evaluate(
    v: &InternalVar,
    bit_size: u32,
    max_bit_size: u32,
    evaluator: &mut Evaluator,
) -> (res: InternalVar)
    requires
        v.wf(),
        0 < bit_size,
        bit_size < max_bit_size,
        max_bit_size <= 63,
        old(evaluator).current_witness_index + 2 < u64::MAX,
    ensures
        res.wf(),
        res.id is None,
        res.expression.is_witness_poly(),
        res.expression.linear_combinations@[0].witness.index == old(
            evaluator,
        ).current_witness_index,
        final(evaluator).monotone_from(*old(evaluator)),
        final(evaluator).current_witness_index == old(evaluator).current_witness_index + 2,
        final(evaluator).public_outputs@ == old(evaluator).public_outputs@,
        final(evaluator).opcodes@.len() == old(evaluator).opcodes@.len() + 4,
        forall|t: int|
            old(evaluator).opcodes@.len() <= t < final(evaluator).opcodes@.len() ==> !((
            #[trigger] final(evaluator).opcodes@[t]) is MemoryBlock),
        final(evaluator).opcodes@[old(evaluator).opcodes@.len() as int]
            matches AcirOpcode::TruncateDirective { value, truncated, remainder, bit_size: b } && {
            &&& value.equiv(v.expression)
            &&& truncated.index == old(evaluator).current_witness_index
            &&& remainder.index == old(evaluator).current_witness_index + 1
            &&& b == bit_size
        },
        final(evaluator).opcodes@[old(evaluator).opcodes@.len() as int + 1]
            matches AcirOpcode::RangeCheck { witness, num_bits } && witness.index == old(
            evaluator,
        ).current_witness_index && num_bits == bit_size,
        final(evaluator).opcodes@[old(evaluator).opcodes@.len() as int + 2]
            matches AcirOpcode::RangeCheck { witness, num_bits } && witness.index == old(
            evaluator,
        ).current_witness_index + 1 && num_bits == max_bit_size - bit_size,
        final(evaluator).opcodes@[old(evaluator).opcodes@.len() as int + 3] is Arithmetic,
{
    proof {
        assert(1u64 << bit_size >= 1 && 1u64 << bit_size <= 0x8000_0000_0000_0000u64)
            by (bit_vector)
            requires
                1 <= bit_size <= 63,
        {
        }
    }
    let b = evaluator.add_witness_to_cs();
    let c = evaluator.add_witness_to_cs();
    evaluator.push_opcode(
        AcirOpcode::TruncateDirective {
            value: v.expression.duplicate(),
            truncated: b,
            remainder: c,
            bit_size,
        },
    );
    evaluator.push_opcode(AcirOpcode::RangeCheck { witness: b, num_bits: bit_size });
    evaluator.push_opcode(
        AcirOpcode::RangeCheck { witness: c, num_bits: max_bit_size - bit_size },
    );
    let minus_one = FieldElement::from_u64(FIELD_MODULUS - 1);
    let shift = FieldElement::from_u64(1u64 << bit_size);
    let neg_shift = shift.neg();
    let b_part = Expression::from_witness(b).scale(minus_one);
    let c_part = Expression::from_witness(c).scale(neg_shift);
    let constraint = v.expression.add(&b_part).add(&c_part);
    evaluator.push_opcode(AcirOpcode::Arithmetic(constraint));
    proof {
        assert(old(evaluator).opcodes@.is_prefix_of(evaluator.opcodes@)) by {
            assert(old(evaluator).opcodes@ =~= evaluator.opcodes@.subrange(
                0,
                old(evaluator).opcodes@.len() as int,
            ));
        }
        assert(old(evaluator).public_outputs@.is_prefix_of(evaluator.public_outputs@)) by {
            assert(old(evaluator).public_outputs@ =~= evaluator.public_outputs@.subrange(
                0,
                old(evaluator).public_outputs@.len() as int,
            ));
        }
    }
    InternalVar::from_expression(Expression::from_witness(b))
}

/// Lowers a selection as the algebraic blend
/// `condition * (val_true - val_false) + val_false`: both arms are
/// always evaluated, and no branch exists at the constraint level.
pub fn condition_evaluate(
    cond: &InternalVar,
    lhs: &InternalVar,
    rhs: &InternalVar,
    evaluator: &mut Evaluator,
) -> (res: InternalVar)
    requires
        cond.wf(),
        lhs.wf(),
        rhs.wf(),
        old(evaluator).current_witness_index + 3 < u64::MAX,
    ensures
        res.wf(),
        res.id is None,
        final(evaluator).monotone_from(*old(evaluator)),
        final(evaluator).current_witness_index <= old(evaluator).current_witness_index + 2,
        final(evaluator).opcodes@.len() <= old(evaluator).opcodes@.len() + 2,
        forall|t: int|
            old(evaluator).opcodes@.len() <= t < final(evaluator).opcodes@.len()
                ==> #[trigger] final(evaluator).opcodes@[t] is Arithmetic,
        final(evaluator).public_outputs@ == old(evaluator).public_outputs@,
        // A symbolic condition with a non-constant arm blends through
        // the pinned product: one degree-two term over the pinned
        // condition and difference, plus the false arm unchanged.
        (cond.expression.degree() != 0 && (lhs.expression.degree() != 0
            || rhs.expression.degree() != 0)) ==> {
            &&& res.expression.mul_terms@.len() == 1 + rhs.expression.mul_terms@.len()
            &&& res.expression.mul_terms@[0].coefficient@ == 1
            &&& res.expression.linear_combinations@.len()
                == rhs.expression.linear_combinations@.len()
            &&& res.expression.q_c@ == rhs.expression.q_c@
        },
        // A compile-time-constant condition `c` blends without emitting
        // anything: the true arm scaled by `c`, the false arm scaled by
        // `-c`, then the false arm itself — `c*(L - R) + R`, coefficient
        // by coefficient.
        cond.expression.degree() == 0 ==> {
            &&& res.expression.mul_terms@.len() == lhs.expression.mul_terms@.len() + 2
                * rhs.expression.mul_terms@.len()
            &&& res.expression.linear_combinations@.len()
                == lhs.expression.linear_combinations@.len() + 2
                * rhs.expression.linear_combinations@.len()
            &&& forall|i: int|
                0 <= i < lhs.expression.linear_combinations@.len() ==> {
                    &&& (#[trigger] res.expression.linear_combinations@[i]).coefficient@ == (
                    lhs.expression.linear_combinations@[i].coefficient@ * cond.expression.q_c@)
                        % FIELD_MODULUS as int
                    &&& res.expression.linear_combinations@[i].witness
                        == lhs.expression.linear_combinations@[i].witness
                }
            &&& forall|i: int|
                0 <= i < rhs.expression.linear_combinations@.len() ==> {
                    &&& (#[trigger] res.expression.linear_combinations@[lhs.expression.linear_combinations@.len() + i]).coefficient@
                        == (((rhs.expression.linear_combinations@[i].coefficient@ * (
                    FIELD_MODULUS - 1)) % FIELD_MODULUS as int) * cond.expression.q_c@)
                        % FIELD_MODULUS as int
                    &&& res.expression.linear_combinations@[lhs.expression.linear_combinations@.len()
                        + i].witness == rhs.expression.linear_combinations@[i].witness
                }
            &&& forall|i: int|
                0 <= i < rhs.expression.linear_combinations@.len() ==> (
                #[trigger] res.expression.linear_combinations@[lhs.expression.linear_combinations@.len()
                    + rhs.expression.linear_combinations@.len() + i])
                    == rhs.expression.linear_combinations@[i]
            &&& res.expression.q_c@ == ((((lhs.expression.q_c@ + (rhs.expression.q_c@ * (
            FIELD_MODULUS - 1)) % FIELD_MODULUS as int) % FIELD_MODULUS as int)
                * cond.expression.q_c@) % FIELD_MODULUS as int + rhs.expression.q_c@)
                % FIELD_MODULUS as int
            &&& *final(evaluator) == *old(evaluator)
        },
{
    proof {
        rhs.expression.q_c.lemma_wf_bound();
        vstd::arithmetic::div_mod::lemma_small_mod(
            rhs.expression.q_c@ as nat,
            FIELD_MODULUS as nat,
        );
    }
    let minus_one = FieldElement::from_u64(FIELD_MODULUS - 1);
    let neg_rhs = rhs.expression.scale(minus_one);
    let diff = lhs.expression.add(&neg_rhs);
    let prod = mul_expressions(&cond.expression, &diff, evaluator);
    InternalVar::from_expression(prod.add(&rhs.expression))
}

/// Lowers an assertion that the operand's expression equals zero: one
/// arithmetic opcode, nothing else.
pub fn constrain_evaluate(v: &InternalVar, evaluator: &mut Evaluator)
    requires
        v.wf(),
    ensures
        final(evaluator).monotone_from(*old(evaluator)),
        final(evaluator).current_witness_index == old(evaluator).current_witness_index,
        final(evaluator).public_outputs@ == old(evaluator).public_outputs@,
        final(evaluator).opcodes@.len() == old(evaluator).opcodes@.len() + 1,
        final(evaluator).opcodes@.last() is Arithmetic,
        final(evaluator).opcodes@.last() matches AcirOpcode::Arithmetic(e) && e.equiv(
            v.expression,
        ),
{
    evaluator.push_opcode(AcirOpcode::Arithmetic(v.expression.duplicate()));
    proof {
        assert(old(evaluator).opcodes@.is_prefix_of(evaluator.opcodes@)) by {
            assert(old(evaluator).opcodes@ =~= evaluator.opcodes@.subrange(
                0,
                old(evaluator).opcodes@.len() as int,
            ));
        }
        assert(old(evaluator).public_outputs@.is_prefix_of(evaluator.public_outputs@));
    }
}

/// Lowers a call to a named builtin: one intrinsic opcode carrying the
/// resolved input expressions, whose scalar result is bound to one fresh
/// witness.
pub fn intrinsic_evaluate(
    opcode: BuiltinOpcode,
    inputs: Vec<Expression>,
    evaluator: &mut Evaluator,
) -> (res: InternalVar)
    requires
        old(evaluator).current_witness_index < u64::MAX,
    ensures
        res.wf(),
        res.id is None,
        res.expression.is_witness_poly(),
        res.expression.linear_combinations@[0].witness.index == old(
            evaluator,
        ).current_witness_index,
        final(evaluator).monotone_from(*old(evaluator)),
        final(evaluator).current_witness_index == old(evaluator).current_witness_index + 1,
        final(evaluator).public_outputs@ == old(evaluator).public_outputs@,
        final(evaluator).opcodes@.len() == old(evaluator).opcodes@.len() + 1,
        final(evaluator).opcodes@.last() is IntrinsicCall,
        final(evaluator).opcodes@.last() matches AcirOpcode::IntrinsicCall {
            opcode: op,
            inputs: ins,
            outputs: outs,
        } && {
            &&& op == opcode
            &&& ins@ == inputs@
            &&& outs@.len() == 1
            &&& outs@[0].index == old(evaluator).current_witness_index
        },
{
    let w = evaluator.add_witness_to_cs();
    let mut outputs: Vec<Witness> = Vec::new();
    outputs.push(w);
    evaluator.push_opcode(AcirOpcode::IntrinsicCall { opcode, inputs, outputs });
    proof {
        assert(old(evaluator).opcodes@.is_prefix_of(evaluator.opcodes@)) by {
            assert(old(evaluator).opcodes@ =~= evaluator.opcodes@.subrange(
                0,
                old(evaluator).opcodes@.len() as int,
            ));
        }
        assert(old(evaluator).public_outputs@.is_prefix_of(evaluator.public_outputs@));
    }
    InternalVar::from_expression(Expression::from_witness(w))
}

} // verus!
