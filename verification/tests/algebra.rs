use acir_lowering::acir_mem::AcirMem;
use acir_lowering::acir_mem::ArrayStrategy;
use acir_lowering::evaluator::Evaluator;
use acir_lowering::expression::Expression;
use acir_lowering::expression::Witness;
use acir_lowering::field::FieldElement;
use acir_lowering::field::FIELD_MODULUS;
use acir_lowering::internal_var::InternalVar;
use acir_lowering::internal_var::InternalVarCache;
use acir_lowering::node::ArrayId;
use acir_lowering::node::ArrayInfo;
use acir_lowering::node::BinaryOp;
use acir_lowering::node::NodeId;
use acir_lowering::node::NodeKind;
use acir_lowering::node::SsaContext;
use acir_lowering::errors::RuntimeError;
use acir_lowering::opcode::AcirOpcode;
use acir_lowering::ops;

fn ctx_with_nodes(nodes: Vec<NodeKind>) -> SsaContext {
    SsaContext {
        nodes,
        instructions: Vec::new(),
        blocks: Vec::new(),
        arrays: Vec::new(),
        functions: Vec::new(),
    }
}

#[test]
fn field_addition_reduces_modulo_the_prime() {
    let a = FieldElement::from_u64(FIELD_MODULUS - 1);
    let b = FieldElement::from_u64(5);
    assert_eq!(a.add(b), FieldElement::from_u64(4));
}

#[test]
fn field_multiplication_exact_value() {
    let a = FieldElement::from_u64(1 << 32);
    let b = FieldElement::from_u64(1 << 32);
    // 2^64 mod (2^64 - 2^32 + 1) == 2^32 - 1.
    assert_eq!(a.mul(b), FieldElement::from_u64((1u64 << 32) - 1));
}

#[test]
fn field_negation_and_subtraction() {
    let a = FieldElement::from_u64(3);
    let b = FieldElement::from_u64(10);
    assert_eq!(a.neg(), FieldElement::from_u64(FIELD_MODULUS - 3));
    assert_eq!(a.sub(b), FieldElement::from_u64(FIELD_MODULUS - 7));
    assert_eq!(b.sub(a), FieldElement::from_u64(7));
    assert_eq!(FieldElement::zero().neg(), FieldElement::zero());
}

#[test]
fn expression_add_concatenates_terms() {
    let w0 = Witness { index: 0 };
    let w1 = Witness { index: 1 };
    let a = Expression::from_witness(w0);
    let b = Expression::from_witness(w1);
    let sum = a.add(&b);
    assert_eq!(sum.linear_combinations.len(), 2);
    assert_eq!(sum.linear_combinations[0].witness, w0);
    assert_eq!(sum.linear_combinations[1].witness, w1);
    assert_eq!(sum.q_c, FieldElement::zero());
}

#[test]
fn expression_scale_multiplies_coefficients() {
    let w0 = Witness { index: 0 };
    let e = Expression::from_witness(w0).add(&Expression::constant(FieldElement::from_u64(3)));
    let scaled = e.scale(FieldElement::from_u64(4));
    assert_eq!(scaled.linear_combinations[0].coefficient, FieldElement::from_u64(4));
    assert_eq!(scaled.q_c, FieldElement::from_u64(12));
}

#[test]
fn expression_to_witness_only_for_bare_witness() {
    let w0 = Witness { index: 7 };
    assert_eq!(Expression::from_witness(w0).to_witness(), Some(w0));
    let shifted = Expression::from_witness(w0).add(&Expression::constant(
        FieldElement::from_u64(1),
    ));
    assert_eq!(shifted.to_witness(), None);
}

/// Repeated requests for the same node return identical results and
/// allocate no extra witness after the first.
#[test]
fn cache_idempotence_no_extra_witness() {
    let ctx = ctx_with_nodes(vec![NodeKind::Variable]);
    let mut cache = InternalVarCache::new(&ctx);
    let mut evaluator = Evaluator::new();
    let first = cache.get_or_compute_internal_var(NodeId { index: 0 }, &ctx, &mut evaluator);
    assert_eq!(evaluator.current_witness_index, 1);
    let second = cache.get_or_compute_internal_var(NodeId { index: 0 }, &ctx, &mut evaluator);
    assert_eq!(evaluator.current_witness_index, 1);
    assert_eq!(first, second);
    let third = cache.get_or_compute_internal_var(NodeId { index: 0 }, &ctx, &mut evaluator);
    assert_eq!(evaluator.current_witness_index, 1);
    assert_eq!(first, third);
}

#[test]
fn cache_constant_allocates_nothing() {
    let ctx = ctx_with_nodes(vec![NodeKind::Constant { value: FieldElement::from_u64(42) }]);
    let mut cache = InternalVarCache::new(&ctx);
    let mut evaluator = Evaluator::new();
    let var = cache.get_or_compute_internal_var(NodeId { index: 0 }, &ctx, &mut evaluator);
    assert_eq!(evaluator.current_witness_index, 0);
    assert_eq!(var.expression.q_c, FieldElement::from_u64(42));
    assert!(var.expression.linear_combinations.is_empty());
}

fn witness_var(i: u64) -> InternalVar {
    InternalVar { expression: Expression::from_witness(Witness { index: i }), id: None }
}

fn degree_two_var() -> InternalVar {
    let mut e = Expression::from_witness(Witness { index: 0 });
    let prod = {
        let mut evaluator = Evaluator::new();
        evaluator.current_witness_index = 10;
        ops::mul_expressions(
            &Expression::from_witness(Witness { index: 1 }),
            &Expression::from_witness(Witness { index: 2 }),
            &mut evaluator,
        )
    };
    e = e.add(&prod);
    InternalVar { expression: e, id: None }
}

/// A binary combination whose naive degree would exceed the accepted
/// bound always lowers to a single pinned witness, never a raw
/// high-degree expression.
#[test]
fn degree_bound_overflow_pins_to_witness() {
    let l = degree_two_var();
    let r = witness_var(3);
    let mut evaluator = Evaluator::new();
    evaluator.current_witness_index = 20;
    let res = ops::binary_evaluate(BinaryOp::Mul, &l, &r, &mut evaluator);
    // The result is exactly one witness with coefficient one.
    assert!(res.expression.mul_terms.is_empty());
    assert_eq!(res.expression.linear_combinations.len(), 1);
    assert_eq!(res.expression.linear_combinations[0].coefficient, FieldElement::one());
    assert_eq!(res.expression.q_c, FieldElement::zero());
}

/// A product of two degree-one operands stays inline as one
/// degree-two term.
#[test]
fn degree_bound_product_of_linears_stays_inline() {
    let l = witness_var(0);
    let r = witness_var(1);
    let mut evaluator = Evaluator::new();
    evaluator.current_witness_index = 5;
    let res = ops::binary_evaluate(BinaryOp::Mul, &l, &r, &mut evaluator);
    assert_eq!(res.expression.mul_terms.len(), 1);
    // No new opcode was needed: both sides were already witnesses.
    assert_eq!(evaluator.opcodes.len(), 0);
}

#[test]
fn not_evaluate_complements_under_the_mask() {
    let v = InternalVar {
        expression: Expression::constant(FieldElement::from_u64(0)),
        id: None,
    };
    let res = ops::not_evaluate(&v, 8);
    assert_eq!(res.expression.q_c, FieldElement::from_u64(255));
}

#[test]
fn truncate_emits_directive_range_checks_and_constraint() {
    let v = witness_var(0);
    let mut evaluator = Evaluator::new();
    evaluator.current_witness_index = 1;
    let res = ops::truncate_evaluate(&v, 8, 16, &mut evaluator);
    assert_eq!(evaluator.opcodes.len(), 4);
    assert!(matches!(evaluator.opcodes[0], AcirOpcode::TruncateDirective { bit_size: 8, .. }));
    assert!(matches!(evaluator.opcodes[1], AcirOpcode::RangeCheck { num_bits: 8, .. }));
    assert!(matches!(evaluator.opcodes[2], AcirOpcode::RangeCheck { num_bits: 8, .. }));
    assert!(matches!(evaluator.opcodes[3], AcirOpcode::Arithmetic(_)));
    assert_eq!(res.expression.to_witness(), Some(Witness { index: 1 }));
}

fn mem_ctx() -> SsaContext {
    SsaContext {
        nodes: Vec::new(),
        instructions: Vec::new(),
        blocks: Vec::new(),
        arrays: vec![ArrayInfo { len: 3 }],
        functions: Vec::new(),
    }
}

fn const_expr(v: u64) -> Expression {
    Expression::constant(FieldElement::from_u64(v))
}

/// An array accessed only with constant indices never produces a
/// dynamic-memory opcode; one symbolic access triggers exactly one
/// irreversible promotion.
#[test]
fn array_strategy_static_then_one_promotion() {
    let ctx = mem_ctx();
    let a = ArrayId { index: 0 };
    let mut mem = AcirMem::new(&ctx);
    let mut evaluator = Evaluator::new();

    mem.store(a, &const_expr(0), const_expr(10), &ctx).unwrap();
    mem.store(a, &const_expr(1), const_expr(20), &ctx).unwrap();
    assert_eq!(mem.arrays[0].strategy, ArrayStrategy::Static);
    let loaded = mem.load(a, &const_expr(1), &ctx, &mut evaluator).unwrap();
    assert_eq!(loaded.q_c, FieldElement::from_u64(20));
    assert_eq!(evaluator.current_witness_index, 0);

    // One symbolic access promotes, irreversibly.
    let symbolic = Expression::from_witness(Witness { index: 9 });
    mem.load(a, &symbolic, &ctx, &mut evaluator).unwrap();
    assert_eq!(mem.arrays[0].strategy, ArrayStrategy::Dynamic);
    // A later constant access does not demote.
    mem.store(a, &const_expr(0), const_expr(30), &ctx).unwrap();
    assert_eq!(mem.arrays[0].strategy, ArrayStrategy::Dynamic);

    // Flushing emits exactly one memory block for the one dynamic
    // array.
    let mut out = Evaluator::new();
    mem.flush(&ctx, &mut out);
    assert_eq!(out.opcodes.len(), 1);
}

#[test]
fn static_only_arrays_flush_to_nothing() {
    let ctx = mem_ctx();
    let a = ArrayId { index: 0 };
    let mut mem = AcirMem::new(&ctx);
    mem.store(a, &const_expr(0), const_expr(10), &ctx).unwrap();
    let mut out = Evaluator::new();
    mem.flush(&ctx, &mut out);
    assert_eq!(out.opcodes.len(), 0);
}

#[test]
fn constant_index_out_of_range_is_rejected() {
    let ctx = mem_ctx();
    let a = ArrayId { index: 0 };
    let mut mem = AcirMem::new(&ctx);
    let mut evaluator = Evaluator::new();
    assert_eq!(
        mem.store(a, &const_expr(3), const_expr(1), &ctx),
        Err(RuntimeError::IndexOutOfBounds)
    );
    assert_eq!(
        mem.load(a, &const_expr(5), &ctx, &mut evaluator).unwrap_err(),
        RuntimeError::IndexOutOfBounds
    );
    assert_eq!(
        mem.load(a, &const_expr(0), &ctx, &mut evaluator).unwrap_err(),
        RuntimeError::UninitializedRead
    );
}

#[test]
fn witness_allocation_strictly_increases() {
    let mut evaluator = Evaluator::new();
    let w0 = evaluator.add_witness_to_cs();
    let w1 = evaluator.add_witness_to_cs();
    let w2 = evaluator.add_witness_to_cs();
    assert_eq!(w0.index, 0);
    assert_eq!(w1.index, 1);
    assert_eq!(w2.index, 2);
    assert_eq!(evaluator.current_witness_index, 3);
}
