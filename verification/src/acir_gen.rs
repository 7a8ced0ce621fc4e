//! The instruction lowering dispatcher: walks a function's blocks in
//! fall-through order, translates each SSA instruction into constraint
//! opcodes through the variable cache and the memory model, and embeds
//! unconstrained calls as opaque, predicate-guarded call opcodes.

use vstd::prelude::*;

use crate::acir_mem::AcirMem;
use crate::brillig::Brillig;
use crate::errors::RuntimeError;
use crate::evaluator::Evaluator;
use crate::evaluator::WITNESS_CEILING;
use crate::expression::Expression;
use crate::expression::Witness;
use crate::field::FieldElement;
use crate::field::FIELD_MODULUS;
use crate::internal_var::InternalVar;
use crate::internal_var::InternalVarCache;
use crate::node::ArrayId;
use crate::node::BlockId;
use crate::node::BuiltinOpcode;
use crate::node::Instruction;
use crate::node::NodeId;
use crate::node::NodeKind;
use crate::node::Operation;
use crate::node::RuntimeType;
use crate::node::SsaContext;
use crate::opcode::AcirOpcode;
use crate::opcode::BrilligInput;
use crate::opcode::BrilligOpcode;
use crate::opcode::BrilligOutput;
use crate::ops;

verus! {

/// The embedded-bytecode call site of an instruction, if it has one, is
/// linked: its unconstrained callee has a compiled artifact.  Oracle
/// callees are rejected before any linking.
pub open spec fn call_linked(ctx: SsaContext, brillig: Brillig, op: Operation) -> bool {
    match op {
        Operation::UnsafeCall { func, .. } => {
            let fid = ctx.nodes@[func.index as int]->Function_function_id;
            ctx.functions@[fid.index as int].kind is Brillig ==> brillig.has_artifact(fid)
        },
        _ => true,
    }
}

/// How many public outputs wiring these return values produces: one per
/// scalar, one per element of an array.
pub open spec fn return_arity(ctx: SsaContext, values: Seq<NodeId>) -> int
    decreases values.len(),
{
    if values.len() == 0 {
        0
    } else {
        (match ctx.spec_deref(values[0]) {
            Some(a) => ctx.array_len(a),
            None => 1,
        }) + return_arity(ctx, values.drop_first())
    }
}

/// Wiring one more return value adds its own outputs.
proof fn lemma_return_arity_push(ctx: SsaContext, values: Seq<NodeId>, v: NodeId)
    ensures
        return_arity(ctx, values.push(v)) == return_arity(ctx, values) + (match ctx.spec_deref(
            v,
        ) {
            Some(a) => ctx.array_len(a),
            None => 1,
        }),
    decreases values.len(),
{
    assert(return_arity(ctx, Seq::<NodeId>::empty()) == 0);
    if values.len() == 0 {
        assert(values.push(v)[0] == v);
        assert(values.push(v).drop_first() =~= Seq::<NodeId>::empty());
        assert(values =~= Seq::<NodeId>::empty());
    } else {
        assert(values.push(v)[0] == values[0]);
        assert(values.push(v).drop_first() =~= values.drop_first().push(v));
        lemma_return_arity_push(ctx, values.drop_first(), v);
    }
}

/// The shape of one call input against its argument: an array argument
/// expands to an array input with exactly one expression per element; a
/// scalar argument is one simple expression.  (Which values the
/// expressions carry is stated on the expansion itself.)
pub open spec fn input_wired(ctx: SsaContext, arg: NodeId, input: BrilligInput) -> bool {
    match ctx.spec_deref(arg) {
        Some(a) => match input {
            BrilligInput::Array { array_id, elements } => elements@.len() == ctx.array_len(a),
            _ => false,
        },
        None => input is Simple,
    }
}

/// How many public outputs the instructions of one block wire: the
/// return arity of each return instruction; nothing else contributes.
pub open spec fn block_return_arity(ctx: SsaContext, instrs: Seq<u32>) -> int
    decreases instrs.len(),
{
    if instrs.len() == 0 {
        0
    } else {
        (match ctx.instructions@[instrs[0] as int].operation {
            Operation::Return { values } => return_arity(ctx, values@),
            _ => 0,
        }) + block_return_arity(ctx, instrs.drop_first())
    }
}

/// One more instruction adds its own contribution.
proof fn lemma_block_return_arity_push(ctx: SsaContext, instrs: Seq<u32>, x: u32)
    ensures
        block_return_arity(ctx, instrs.push(x)) == block_return_arity(ctx, instrs) + (match ctx.instructions@[x as int].operation {
            Operation::Return { values } => return_arity(ctx, values@),
            _ => 0,
        }),
    decreases instrs.len(),
{
    assert(block_return_arity(ctx, Seq::<u32>::empty()) == 0);
    if instrs.len() == 0 {
        assert(instrs.push(x)[0] == x);
        assert(instrs.push(x).drop_first() =~= Seq::<u32>::empty());
        assert(instrs =~= Seq::<u32>::empty());
    } else {
        assert(instrs.push(x)[0] == instrs[0]);
        assert(instrs.push(x).drop_first() =~= instrs.drop_first().push(x));
        lemma_block_return_arity_push(ctx, instrs.drop_first(), x);
    }
}

/// How many public outputs the whole fall-through chain from block `b`
/// wires, given enough fuel to walk it to its end.
pub open spec fn chain_return_arity(ctx: SsaContext, b: int, fuel: nat) -> int
    decreases fuel,
{
    if fuel == 0 || !(0 <= b < ctx.blocks@.len()) {
        0
    } else {
        block_return_arity(ctx, ctx.blocks@[b].instructions@) + (match ctx.blocks@[b].left {
            Some(next) => chain_return_arity(ctx, next.index as int, (fuel - 1) as nat),
            None => 0,
        })
    }
}

/// The chain's arity does not depend on the fuel, once the fuel covers
/// the chain: successors only point forward.
proof fn lemma_chain_return_arity_fuel(ctx: SsaContext, b: int, f1: nat, f2: nat)
    requires
        ctx.wf(),
        0 <= b < ctx.blocks@.len(),
        f1 >= ctx.blocks@.len() - b,
        f2 >= ctx.blocks@.len() - b,
    ensures
        chain_return_arity(ctx, b, f1) == chain_return_arity(ctx, b, f2),
    decreases f1,
{
    match ctx.blocks@[b].left {
        Some(next) => {
            lemma_chain_return_arity_fuel(ctx, next.index as int, (f1 - 1) as nat, (f2 - 1) as nat);
        },
        None => {},
    }
}

/// An array argument's values are wired through: element `i` of the
/// input is exactly the value statically tracked at index `i`.
pub open spec fn array_values_wired(
    mem: AcirMem,
    a: ArrayId,
    len: int,
    input: BrilligInput,
) -> bool {
    match input {
        BrilligInput::Array { array_id, elements } => forall|i: int|
            0 <= i < len ==> (mem.arrays@[a.index as int].elements@[i] is Some && (
            #[trigger] elements@[i]).equiv(mem.arrays@[a.index as int].elements@[i].unwrap())),
        _ => false,
    }
}

/// A scalar argument's value is wired through: the simple input is the
/// argument's lowered expression as the cache holds it.
pub open spec fn simple_value_wired(
    cache: InternalVarCache,
    arg: NodeId,
    input: BrilligInput,
) -> bool {
    match input {
        BrilligInput::Simple(e) => cache.lookup(arg) is Some && e.equiv(
            cache.lookup(arg).unwrap().expression,
        ),
        _ => false,
    }
}

/// The shape of an emitted embedded-call opcode: one input per argument,
/// each wired to its argument; one output per return value; the linked
/// bytecode is the callee's artifact followed by one bootstrap step per
/// argument, mapping it onto the callee's register; and no guard
/// expression stands where no guard was given.
pub open spec fn brillig_call_shape(
    op: AcirOpcode,
    ctx: SsaContext,
    arguments: Seq<NodeId>,
    returned_values: Seq<NodeId>,
    predicate: Option<NodeId>,
    callee_arguments: Seq<NodeId>,
    artifact_code: Seq<BrilligOpcode>,
) -> bool {
    match op {
        AcirOpcode::BrilligCall { inputs, outputs, bytecode, predicate: pred } => {
            &&& inputs@.len() == arguments.len()
            &&& outputs@.len() == returned_values.len()
            &&& forall|k: int|
                0 <= k < arguments.len() ==> input_wired(ctx, #[trigger] arguments[k], inputs@[k])
            &&& bytecode@.len() == artifact_code.len() + arguments.len()
            &&& bytecode@.subrange(0, artifact_code.len() as int) == artifact_code
            &&& forall|k: int|
                0 <= k < arguments.len() ==> #[trigger] bytecode@[artifact_code.len() + k]
                    == (BrilligOpcode::Bootstrap {
                    argument: k as u32,
                    register: callee_arguments[k].index,
                })
            &&& (predicate is None ==> pred is None)
        },
        _ => false,
    }
}

/// The lowering state of one constrained function: its memory model and
/// its variable cache, exclusively owned by the running pass.
pub struct Acir {
    pub memory: AcirMem,
    pub var_cache: InternalVarCache,
}

impl Acir {
    pub open spec fn wf_for(self, ctx: SsaContext) -> bool {
        &&& self.memory.wf_for(ctx)
        &&& self.var_cache.wf_for(ctx)
    }

    /// A fresh lowering state for the context: empty cache, every array
    /// unset.
    pub fn new(ctx: &SsaContext) -> (r: Acir)
        requires
            ctx.wf(),
        ensures
            r.wf_for(*ctx),
            forall|i: int| 0 <= i < r.var_cache.inner@.len() ==> #[trigger] r.var_cache.inner@[i] is None,
            forall|i: int|
                0 <= i < r.memory.arrays@.len() ==> (#[trigger] r.memory.arrays@[i]).strategy
                    is Unset,
    {
        Acir { memory: AcirMem::new(ctx), var_cache: InternalVarCache::new(ctx) }
    }

    /// Wires return values to the program's public outputs: one witness
    /// per scalar, one per element of a returned array.
    fn return_evaluate(
        &mut self,
        values: &Vec<NodeId>,
        evaluator: &mut Evaluator,
        ctx: &SsaContext,
    ) -> (r: Result<(), RuntimeError>)
        requires
            ctx.wf(),
            old(self).wf_for(*ctx),
            values@.len() <= 0xFF,
            forall|i: int| 0 <= i < values@.len() ==> ctx.scalar_or_array_node(#[trigger] values@[i]),
            old(evaluator).current_witness_index <= WITNESS_CEILING,
        ensures
            final(self).wf_for(*ctx),
            final(self).memory.monotone_from(old(self).memory),
            final(evaluator).monotone_from(*old(evaluator)),
            final(evaluator).current_witness_index <= old(evaluator).current_witness_index
                + 0x800_0000,
            r is Ok ==> final(evaluator).public_outputs@.len() == old(evaluator).public_outputs@.len() + return_arity(*ctx, values@),
            // Wiring returns appends only pinning constraints.
            forall|t: int|
                old(evaluator).opcodes@.len() <= t < final(evaluator).opcodes@.len()
                    ==> #[trigger] final(evaluator).opcodes@[t] is Arithmetic,
            // Wiring scalar returns cannot fail.
            (forall|i: int| 0 <= i < values@.len() ==> ctx.spec_deref(#[trigger] values@[i]) is None)
                ==> r is Ok,
            // A failure means some returned array held a statically
            // tracked element that was never stored.
            r is Err ==> exists|i: int|
                0 <= i < values@.len() && (#[trigger] ctx.spec_deref(values@[i])) is Some
                    && old(self).memory.has_unset_element(
                    ctx.spec_deref(values@[i]).unwrap(),
                    ctx.array_len(ctx.spec_deref(values@[i]).unwrap()),
                ),
    {
        let ghost base = *evaluator;
        let n = values.len();
        let mut j: usize = 0;
        proof {
            assert(return_arity(*ctx, values@.take(0)) == 0);
        }
        while j < n
            invariant
                ctx.wf(),
                self.wf_for(*ctx),
                self.memory.monotone_from(old(self).memory),
                n == values@.len(),
                n <= 0xFF,
                j <= n,
                forall|i: int|
                    0 <= i < values@.len() ==> ctx.scalar_or_array_node(#[trigger] values@[i]),
                forall|a: int|
                    0 <= a < old(self).memory.arrays@.len() && !((
                    #[trigger] old(self).memory.arrays@[a]).strategy is Dynamic)
                        ==> self.memory.arrays@[a] == old(self).memory.arrays@[a],
                base == *old(evaluator),
                evaluator.monotone_from(base),
                forall|t: int|
                    base.opcodes@.len() <= t < evaluator.opcodes@.len()
                        ==> #[trigger] evaluator.opcodes@[t] is Arithmetic,
                evaluator.current_witness_index <= base.current_witness_index + j * 0x20000,
                evaluator.public_outputs@.len() == base.public_outputs@.len() + return_arity(
                    *ctx,
                    values@.take(j as int),
                ),
                base.current_witness_index <= WITNESS_CEILING,
            decreases n - j,
        {
            let ghost iter_start = *evaluator;
            let node = values[j];
            proof {
                lemma_return_arity_push(*ctx, values@.take(j as int), values@[j as int]);
                assert(values@.take(j as int).push(values@[j as int]) =~= values@.take(
                    j as int + 1,
                ));
            }
            match ctx.deref(node) {
                Some(array_id) => {
                    let len = self.array_len(array_id, ctx);
                    let mut i: u32 = 0;
                    while i < len
                        invariant
                            ctx.wf(),
                            self.wf_for(*ctx),
                            self.memory.monotone_from(old(self).memory),
                            ctx.valid_array(array_id),
                            ctx.spec_deref(values@[j as int]) == Some(array_id),
                            j < values@.len(),
                            forall|a: int|
                                0 <= a < old(self).memory.arrays@.len() && !((
                                #[trigger] old(self).memory.arrays@[a]).strategy is Dynamic)
                                    ==> self.memory.arrays@[a] == old(self).memory.arrays@[a],
                            len == ctx.array_len(array_id),
                            len <= 0xFFFF,
                            i <= len,
                            base == *old(evaluator),
                            evaluator.monotone_from(base),
                            evaluator.monotone_from(iter_start),
                            forall|t: int|
                                base.opcodes@.len() <= t < evaluator.opcodes@.len()
                                    ==> #[trigger] evaluator.opcodes@[t] is Arithmetic,
                            evaluator.current_witness_index <= iter_start.current_witness_index + 2
                                * i,
                            iter_start.current_witness_index <= WITNESS_CEILING + 0x400_0000,
                            iter_start.current_witness_index <= base.current_witness_index
                                + 0x1FE_0000,
                            evaluator.public_outputs@.len() == iter_start.public_outputs@.len()
                                + i,
                        decreases len - i,
                    {
                        let idx_expr = Expression::constant(FieldElement::from_u64(i as u64));
                        proof {
                            vstd::arithmetic::div_mod::lemma_small_mod(
                                i as nat,
                                FIELD_MODULUS as nat,
                            );
                        }
                        let ghost s0 = *evaluator;
                        let ghost s_mem = self.memory;
                        let e = match self.memory.load(array_id, &idx_expr, ctx, evaluator) {
                            Ok(e) => e,
                            Err(err) => {
                                proof {
                                    lemma_mono_trans(base, s0, *evaluator);
                                    assert(!(s_mem.strategy_of(array_id) is Dynamic));
                                    assert(!((#[trigger] old(self).memory.arrays@[array_id.index as int]).strategy
                                        is Dynamic));
                                    assert(self.memory.arrays@[array_id.index as int]
                                        == old(self).memory.arrays@[array_id.index as int]);
                                    assert(old(self).memory.arrays@[array_id.index as int].elements@[i as int] is None);
                                    assert(old(self).memory.has_unset_element(
                                        array_id,
                                        ctx.array_len(array_id),
                                    ));
                                    assert(ctx.spec_deref(values@[j as int]) is Some
                                        && ctx.spec_deref(values@[j as int]).unwrap() == array_id);
                                }
                                return Err(err);
                            },
                        };
                        let ghost s1 = *evaluator;
                        let w = ops::expression_to_witness(&e, evaluator);
                        let ghost s2 = *evaluator;
                        evaluator.push_public_output(w);
                        proof {
                            lemma_mono_refl(s0);
                            lemma_mono_from_push(s2, *evaluator);
                            lemma_mono_trans(s1, s2, *evaluator);
                            lemma_mono_from_push(s0, s1);
                            lemma_mono_trans(s0, s1, *evaluator);
                            lemma_mono_trans(iter_start, s0, *evaluator);
                            lemma_mono_trans(base, s0, *evaluator);
                            assert forall|t: int|
                                base.opcodes@.len() <= t < evaluator.opcodes@.len() implies (
                            #[trigger] evaluator.opcodes@[t]) is Arithmetic by {
                                if t < s1.opcodes@.len() {
                                    assert(s1.opcodes@[t] == evaluator.opcodes@.subrange(
                                        0,
                                        s1.opcodes@.len() as int,
                                    )[t]);
                                }
                            }
                        }
                        i += 1;
                    }
                },
                None => {
                    let ghost s0 = *evaluator;
                    let var = self.var_cache.get_or_compute_internal_var(node, ctx, evaluator);
                    let ghost s1 = *evaluator;
                    let w = ops::expression_to_witness(&var.expression, evaluator);
                    let ghost s2 = *evaluator;
                    evaluator.push_public_output(w);
                    proof {
                        lemma_mono_from_push(s0, s1);
                        lemma_mono_from_push(s2, *evaluator);
                        lemma_mono_trans(s1, s2, *evaluator);
                        lemma_mono_trans(s0, s1, *evaluator);
                        lemma_mono_trans(base, s0, *evaluator);
                        assert forall|t: int|
                            base.opcodes@.len() <= t < evaluator.opcodes@.len() implies (
                        #[trigger] evaluator.opcodes@[t]) is Arithmetic by {
                            if t < s1.opcodes@.len() {
                                assert(s1.opcodes@[t] == evaluator.opcodes@.subrange(
                                    0,
                                    s1.opcodes@.len() as int,
                                )[t]);
                            }
                        }
                    }
                },
            }
            j += 1;
        }
        proof {
            assert(values@.take(n as int) =~= values@);
        }
        Ok(())
    }

    /// Reads an array's declared length out of the context.
    fn array_len(&self, array_id: ArrayId, ctx: &SsaContext) -> (r: u32)
        requires
            ctx.valid_array(array_id),
        ensures
            r as int == ctx.array_len(array_id),
    {
        ctx.arrays[array_id.index as usize].len
    }

    /// Expands an array argument of an embedded call: every element is
    /// read through the memory model, in array order, into one input
    /// carrying the callee's array and exactly one expression per
    /// element.
    fn jabber_array(
        &mut self,
        input_array: ArrayId,
        arg_array: ArrayId,
        ctx: &SsaContext,
        evaluator: &mut Evaluator,
    ) -> (r: Result<BrilligInput, RuntimeError>)
        requires
            ctx.wf(),
            old(self).wf_for(*ctx),
            ctx.valid_array(input_array),
            old(evaluator).current_witness_index + 0x2_0000 < u64::MAX,
        ensures
            final(self).wf_for(*ctx),
            final(self).memory.monotone_from(old(self).memory),
            final(self).var_cache == old(self).var_cache,
            forall|j: int|
                0 <= j < old(self).memory.arrays@.len() && j != input_array.index as int
                    ==> final(self).memory.arrays@[j] == old(self).memory.arrays@[j],
            final(evaluator).monotone_from(*old(evaluator)),
            final(evaluator).current_witness_index <= old(evaluator).current_witness_index
                + 0x1_0000,
            final(evaluator).opcodes@ == old(evaluator).opcodes@,
            final(evaluator).public_outputs@ == old(evaluator).public_outputs@,
            r matches Ok(input) ==> (input matches BrilligInput::Array { array_id, elements }
                && array_id == arg_array && elements@.len() == ctx.array_len(input_array)),
            // Expanding the array fails exactly when a statically
            // tracked element was never stored; failure changes nothing.
            r is Err <==> old(self).memory.has_unset_element(
                input_array,
                ctx.array_len(input_array),
            ),
            r is Err ==> (r == Err::<BrilligInput, RuntimeError>(RuntimeError::UninitializedRead)
                && *final(self) == *old(self) && *final(evaluator) == *old(evaluator)),
            // A statically tracked array is read out, element by
            // element, without being touched.
            !(old(self).memory.strategy_of(input_array) is Dynamic) && r is Ok ==> {
                &&& *final(self) == *old(self)
                &&& *final(evaluator) == *old(evaluator)
                &&& forall|i: int|
                    0 <= i < ctx.array_len(input_array) ==> {
                        &&& old(self).memory.arrays@[input_array.index as int].elements@[i]
                            is Some
                        &&& (#[trigger] r.unwrap()->Array_elements@[i]).equiv(
                            old(self).memory.arrays@[input_array.index as int].elements@[i].unwrap(),
                        )
                    }
            },
    {
        let ghost base = *evaluator;
        let ghost static_entry = !(self.memory.strategy_of(input_array) is Dynamic);
        let mut elements: Vec<Expression> = Vec::new();
        let len = self.array_len(input_array, ctx);
        let mut i: u32 = 0;
        while i < len
            invariant
                ctx.wf(),
                self.wf_for(*ctx),
                self.memory.monotone_from(old(self).memory),
                self.var_cache == old(self).var_cache,
                forall|j: int|
                    0 <= j < old(self).memory.arrays@.len() && j != input_array.index as int
                        ==> self.memory.arrays@[j] == old(self).memory.arrays@[j],
                ctx.valid_array(input_array),
                len == ctx.array_len(input_array),
                len <= 0xFFFF,
                i <= len,
                elements@.len() == i,
                static_entry == !(old(self).memory.strategy_of(input_array) is Dynamic),
                static_entry ==> *self == *old(self),
                static_entry ==> forall|m: int|
                    0 <= m < i ==> (#[trigger] old(self).memory.arrays@[input_array.index as int].elements@[m]) is Some,
                static_entry ==> forall|m: int|
                    0 <= m < i ==> (#[trigger] elements@[m]).equiv(
                        old(self).memory.arrays@[input_array.index as int].elements@[m].unwrap(),
                    ),
                base == *old(evaluator),
                evaluator.monotone_from(base),
                evaluator.current_witness_index <= base.current_witness_index + i,
                evaluator.opcodes@ == base.opcodes@,
                evaluator.public_outputs@ == base.public_outputs@,
                base.current_witness_index + 0x2_0000 < u64::MAX,
                static_entry ==> *evaluator == base,
            decreases len - i,
        {
            let idx_expr = Expression::constant(FieldElement::from_u64(i as u64));
            proof {
                vstd::arithmetic::div_mod::lemma_small_mod(i as nat, FIELD_MODULUS as nat);
            }
            let ghost s0 = *evaluator;
            let element = match self.memory.load(input_array, &idx_expr, ctx, evaluator) {
                Ok(e) => e,
                Err(err) => {
                    proof {
                        lemma_mono_trans(base, s0, *evaluator);
                        assert(old(self).memory.arrays@[input_array.index as int].elements@[i as int] is None);
                        assert(old(self).memory.has_unset_element(
                            input_array,
                            ctx.array_len(input_array),
                        ));
                    }
                    return Err(err);
                },
            };
            let ghost prev_elements = elements@;
            elements.push(element);
            proof {
                lemma_mono_trans(base, s0, *evaluator);
                if static_entry {
                    assert forall|m: int|
                        0 <= m < i + 1 implies (#[trigger] old(self).memory.arrays@[input_array.index as int].elements@[m]) is Some by {
                        if m < i {
                        } else {
                            assert(elements@[m as int] == element);
                        }
                    }
                    assert forall|m: int|
                        0 <= m < i + 1 implies (#[trigger] elements@[m]).equiv(
                        old(self).memory.arrays@[input_array.index as int].elements@[m].unwrap(),
                    ) by {
                        if m < i {
                            assert(elements@[m] == prev_elements[m]);
                        } else {
                            assert(elements@[m] == element);
                        }
                    }
                }
            }
            i += 1;
        }
        proof {
            if old(self).memory.has_unset_element(input_array, ctx.array_len(input_array)) {
                let w = choose|w: int|
                    0 <= w < ctx.array_len(input_array) && (
                    #[trigger] old(self).memory.arrays@[input_array.index as int].elements@[w])
                        is None;
                assert(elements@[w].equiv(
                    old(self).memory.arrays@[input_array.index as int].elements@[w].unwrap(),
                ));
                assert(false);
            }
        }
        Ok(BrilligInput::Array { array_id: arg_array, elements })
    }

    /// Wires one result of an embedded call: a scalar binds to one fresh
    /// witness; an array allocates one fresh witness per element and
    /// registers the result as that array's new contents.
    fn jabber_output(
        &mut self,
        node: NodeId,
        ctx: &SsaContext,
        evaluator: &mut Evaluator,
    ) -> (r: Result<BrilligOutput, RuntimeError>)
        requires
            ctx.wf(),
            old(self).wf_for(*ctx),
            ctx.scalar_or_array_node(node),
            old(evaluator).current_witness_index + 0x2_0000 < u64::MAX,
        ensures
            final(self).wf_for(*ctx),
            final(self).memory.monotone_from(old(self).memory),
            final(evaluator).monotone_from(*old(evaluator)),
            final(evaluator).current_witness_index <= old(evaluator).current_witness_index
                + 0x1_0001,
            final(evaluator).opcodes@.len() <= old(evaluator).opcodes@.len() + 1,
            // At most one opcode is appended, and it is the pinning
            // constraint of a scalar result.
            forall|t: int|
                old(evaluator).opcodes@.len() <= t < final(evaluator).opcodes@.len()
                    ==> #[trigger] final(evaluator).opcodes@[t] is Arithmetic,
            final(evaluator).public_outputs@ == old(evaluator).public_outputs@,
            // Already-lowered values stay exactly as cached.
            forall|q: int|
                0 <= q < old(self).var_cache.inner@.len() && (
                #[trigger] old(self).var_cache.inner@[q]) is Some ==> final(self).var_cache.inner@[q] == old(self).var_cache.inner@[q],
            // Wiring an output cannot fail: a scalar always binds, and
            // an array is stored element by element at constant in-range
            // indices.
            r is Ok,
            r matches Ok(out) ==> match out {
                BrilligOutput::Array(ws) => ctx.spec_deref(node) is Some && ws@.len()
                    == ctx.array_len(ctx.spec_deref(node).unwrap()),
                BrilligOutput::Simple(w) => ctx.spec_deref(node) is None,
            },
            // An array result gets the next run of fresh witnesses, one
            // per element, pairwise distinct by construction.
            (r is Ok && ctx.spec_deref(node) is Some) ==> (r.unwrap()
                matches BrilligOutput::Array(ws) ==> {
                &&& forall|i: int|
                    0 <= i < ws@.len() ==> (#[trigger] ws@[i]).index == old(evaluator).current_witness_index + i
                &&& final(evaluator).current_witness_index == old(evaluator).current_witness_index
                    + ctx.array_len(ctx.spec_deref(node).unwrap())
            }),
            // The memory model re-binds a statically tracked array's
            // slots to exactly those witnesses.
            (r is Ok && ctx.spec_deref(node) is Some && !(old(self).memory.strategy_of(
                ctx.spec_deref(node).unwrap(),
            ) is Dynamic)) ==> (r.unwrap() matches BrilligOutput::Array(ws) ==> forall|i: int|
                0 <= i < ws@.len() ==> ((#[trigger] final(self).memory.arrays@[ctx.spec_deref(
                    node,
                ).unwrap().index as int].elements@[i]) is Some && final(self).memory.arrays@[ctx.spec_deref(
                    node,
                ).unwrap().index as int].elements@[i].unwrap().is_witness_poly()
                    && final(self).memory.arrays@[ctx.spec_deref(
                    node,
                ).unwrap().index as int].elements@[i].unwrap().linear_combinations@[0].witness
                    == ws@[i])),
            // A scalar result is the witness its resolved Internal
            // Variable coerces to; one that is already a bare witness
            // binds directly, with nothing changed.
            (r is Ok && ctx.spec_deref(node) is None) ==> (r.unwrap()
                matches BrilligOutput::Simple(w) ==> {
                &&& final(self).var_cache.lookup(node) is Some
                &&& (final(self).var_cache.lookup(node).unwrap().expression.is_witness_poly()
                    ==> w == final(self).var_cache.lookup(
                    node,
                ).unwrap().expression.linear_combinations@[0].witness)
            }),
            (ctx.spec_deref(node) is None && old(self).var_cache.lookup(node) is Some && old(self).var_cache.lookup(node).unwrap().expression.is_witness_poly())
                ==> *final(evaluator) == *old(evaluator),
    {
        let ghost base = *evaluator;
        let ghost static_entry = ctx.spec_deref(node) is Some && !(self.memory.strategy_of(
            ctx.spec_deref(node).unwrap(),
        ) is Dynamic);
        match ctx.deref(node) {
            Some(array_id) => {
                let len = self.array_len(array_id, ctx);
                let mut outputs: Vec<Witness> = Vec::new();
                let mut i: u32 = 0;
                while i < len
                    invariant
                        i <= len,
                        len <= 0xFFFF,
                        outputs@.len() == i,
                        forall|m: int|
                            0 <= m < i ==> (#[trigger] outputs@[m]).index
                                == base.current_witness_index + m,
                        evaluator.current_witness_index == base.current_witness_index + i,
                        evaluator.opcodes@ == base.opcodes@,
                        evaluator.public_outputs@ == base.public_outputs@,
                        base == *old(evaluator),
                        evaluator.monotone_from(base),
                        base.current_witness_index + 0x2_0000 < u64::MAX,
                    decreases len - i,
                {
                    let ghost s0 = *evaluator;
                    let w = evaluator.add_witness_to_cs();
                    outputs.push(w);
                    proof {
                        lemma_mono_from_push(s0, *evaluator);
                        lemma_mono_trans(base, s0, *evaluator);
                    }
                    i += 1;
                }
                let mut k: u32 = 0;
                while k < len
                    invariant
                        ctx.wf(),
                        self.wf_for(*ctx),
                        self.memory.monotone_from(old(self).memory),
                        self.var_cache == old(self).var_cache,
                        ctx.valid_array(array_id),
                        ctx.spec_deref(node) == Some(array_id),
                        static_entry == !(old(self).memory.strategy_of(array_id) is Dynamic),
                        static_entry ==> !(self.memory.strategy_of(array_id) is Dynamic),
                        static_entry ==> forall|m: int|
                            0 <= m < k ==> ((
                            #[trigger] self.memory.arrays@[array_id.index as int].elements@[m])
                                is Some
                                && self.memory.arrays@[array_id.index as int].elements@[m].unwrap().is_witness_poly()
                                && self.memory.arrays@[array_id.index as int].elements@[m].unwrap().linear_combinations@[0].witness
                                == outputs@[m]),
                        len == ctx.array_len(array_id),
                        len <= 0xFFFF,
                        k <= len,
                        outputs@.len() == len,
                        forall|m: int|
                            0 <= m < len ==> (#[trigger] outputs@[m]).index
                                == base.current_witness_index + m,
                        evaluator.current_witness_index == base.current_witness_index + len,
                        evaluator.opcodes@ == base.opcodes@,
                        evaluator.public_outputs@ == base.public_outputs@,
                        base == *old(evaluator),
                        evaluator.monotone_from(base),
                        base.current_witness_index + 0x2_0000 < u64::MAX,
                    decreases len - k,
                {
                    let idx_expr = Expression::constant(FieldElement::from_u64(k as u64));
                    proof {
                        vstd::arithmetic::div_mod::lemma_small_mod(
                            k as nat,
                            FIELD_MODULUS as nat,
                        );
                    }
                    let value = Expression::from_witness(outputs[k as usize]);
                    match self.memory.store(array_id, &idx_expr, value, ctx) {
                        Ok(()) => {},
                        Err(err) => {
                            return Err(err);
                        },
                    }
                    k += 1;
                }
                Ok(BrilligOutput::Array(outputs))
            },
            None => {
                let ghost s0 = *evaluator;
                let ghost cache0 = self.var_cache;
                let var = self.var_cache.get_or_compute_internal_var(node, ctx, evaluator);
                let ghost s1 = *evaluator;
                let w = ops::expression_to_witness(&var.expression, evaluator);
                proof {
                    lemma_mono_from_push(s0, s1);
                    lemma_mono_trans(s0, s1, *evaluator);
                    lemma_mono_trans(base, s0, *evaluator);
                    assert forall|q: int|
                        0 <= q < cache0.inner@.len() && (#[trigger] cache0.inner@[q]) is Some
                            implies self.var_cache.inner@[q] == cache0.inner@[q] by {
                        if q == node.index as int {
                            assert(cache0.lookup(node) is Some);
                        }
                    }
                }
                Ok(BrilligOutput::Simple(w))
            },
        }
    }

    /// Embeds a call into an unconstrained function as one opaque call
    /// opcode: argument wiring, linked bytecode with its bootstrap
    /// prologue, fresh output witnesses and the optional guard
    /// predicate.  A call whose predicate is statically false emits no
    /// opcode and allocates no witness; a call into a pure oracle is
    /// rejected.
    pub fn unsafe_call(
        &mut self,
        func: NodeId,
        arguments: &Vec<NodeId>,
        returned_values: &Vec<NodeId>,
        predicate: Option<NodeId>,
        brillig: &Brillig,
        evaluator: &mut Evaluator,
        ctx: &SsaContext,
    ) -> (r: Result<Option<InternalVar>, RuntimeError>)
        requires
            ctx.wf(),
            old(self).wf_for(*ctx),
            ctx.operation_wf(
                Operation::UnsafeCall {
                    func,
                    arguments: *arguments,
                    returned_values: *returned_values,
                    predicate,
                },
            ),
            call_linked(
                *ctx,
                *brillig,
                Operation::UnsafeCall {
                    func,
                    arguments: *arguments,
                    returned_values: *returned_values,
                    predicate,
                },
            ),
            old(evaluator).current_witness_index <= WITNESS_CEILING,
        ensures
            final(self).wf_for(*ctx),
            final(self).memory.monotone_from(old(self).memory),
            final(evaluator).monotone_from(*old(evaluator)),
            final(evaluator).current_witness_index <= old(evaluator).current_witness_index
                + 0x800_0000,
            final(evaluator).public_outputs@ == old(evaluator).public_outputs@,
            // Success always carries no Internal Variable: the call's
            // results are wired through witnesses, not cached here.
            r is Ok ==> r == Ok::<Option<InternalVar>, RuntimeError>(None),
            // The call fails exactly on an oracle callee, or when
            // expanding an array argument reads a statically tracked
            // element that was never stored.
            r is Err <==> (ctx.functions@[ctx.nodes@[func.index as int]->Function_function_id.index as int].kind
                is Oracle || (!(predicate is Some && ctx.is_zero_const(predicate.unwrap()))
                && exists|k: int|
                0 <= k < arguments@.len() && (#[trigger] ctx.spec_deref(arguments@[k])) is Some
                    && old(self).memory.has_unset_element(
                    ctx.spec_deref(arguments@[k]).unwrap(),
                    ctx.array_len(ctx.spec_deref(arguments@[k]).unwrap()),
                ))),
            // A statically-false predicate short-circuits: nothing is
            // emitted, nothing is allocated, nothing changes.
            (predicate is Some && ctx.is_zero_const(predicate.unwrap()) && !(ctx.functions@[ctx.nodes@[func.index as int]->Function_function_id.index as int].kind is Oracle)) ==> {
                &&& r == Ok::<Option<InternalVar>, RuntimeError>(None)
                &&& *final(evaluator) == *old(evaluator)
                &&& *final(self) == *old(self)
            },
            // A pure-oracle callee is rejected unchanged.
            ctx.functions@[ctx.nodes@[func.index as int]->Function_function_id.index as int].kind
                is Oracle ==> {
                &&& r == Err::<Option<InternalVar>, RuntimeError>(
                    RuntimeError::OracleCallFromConstrainedContext,
                )
                &&& *final(evaluator) == *old(evaluator)
                &&& *final(self) == *old(self)
            },
            // On success with a live predicate, the guard wired into
            // the call opcode is exactly the predicate node's lowered
            // expression.
            (r is Ok && predicate is Some && !ctx.is_zero_const(predicate.unwrap())) ==> (
            final(evaluator).opcodes@.last() matches AcirOpcode::BrilligCall {
                predicate: pred,
                ..
            } ==> {
                &&& final(self).var_cache.lookup(predicate.unwrap()) is Some
                &&& pred is Some
                &&& pred.unwrap().equiv(
                    final(self).var_cache.lookup(predicate.unwrap()).unwrap().expression,
                )
            }),
            // Lowering a call never emits a dynamic-memory opcode.
            forall|t: int|
                old(evaluator).opcodes@.len() <= t < final(evaluator).opcodes@.len() ==> !((
                #[trigger] final(evaluator).opcodes@[t]) is MemoryBlock),
            // Exactly one embedded-call opcode is emitted: everything
            // else appended alongside it is a pinning constraint for an
            // output.
            r is Ok && !(predicate is Some && ctx.is_zero_const(predicate.unwrap())) ==> forall|t: int|
                old(evaluator).opcodes@.len() <= t < final(evaluator).opcodes@.len() - 1
                    ==> #[trigger] final(evaluator).opcodes@[t] is Arithmetic,
            // A scalar argument's value is wired through: its simple
            // input is the argument's lowered expression.
            r is Ok && !(predicate is Some && ctx.is_zero_const(predicate.unwrap())) ==> (
            final(evaluator).opcodes@.last() matches AcirOpcode::BrilligCall { inputs, .. }
                ==> forall|m: int|
                0 <= m < arguments@.len() && (#[trigger] ctx.spec_deref(arguments@[m])) is None
                    ==> simple_value_wired(final(self).var_cache, arguments@[m], inputs@[m])),
            // A statically tracked array argument's element values are
            // wired through, in array order.
            r is Ok && !(predicate is Some && ctx.is_zero_const(predicate.unwrap())) ==> (
            final(evaluator).opcodes@.last() matches AcirOpcode::BrilligCall { inputs, .. }
                ==> forall|m: int|
                0 <= m < arguments@.len() && (#[trigger] ctx.spec_deref(arguments@[m])) is Some
                    && !(old(self).memory.strategy_of(ctx.spec_deref(arguments@[m]).unwrap())
                    is Dynamic) ==> array_values_wired(
                    old(self).memory,
                    ctx.spec_deref(arguments@[m]).unwrap(),
                    ctx.array_len(ctx.spec_deref(arguments@[m]).unwrap()),
                    inputs@[m],
                )),
            // On success with a live predicate, exactly one opcode is
            // appended: the call opcode, wired with one input per
            // argument — an array argument expands to exactly its
            // length, in array order — and one output per return value.
            r is Ok && !(predicate is Some && ctx.is_zero_const(predicate.unwrap())) ==> {
                &&& final(evaluator).opcodes@.len() >= old(evaluator).opcodes@.len() + 1
                &&& brillig_call_shape(
                    final(evaluator).opcodes@.last(),
                    *ctx,
                    arguments@,
                    returned_values@,
                    predicate,
                    ctx.functions@[ctx.nodes@[func.index as int]->Function_function_id.index as int].arguments@,
                    brillig.artifacts@[ctx.nodes@[func.index as int]->Function_function_id.index as int].unwrap().byte_code@,
                )
            },
    {
        let fid = match self.node_kind(func, ctx) {
            NodeKind::Function { function_id } => function_id,
            // The callee node always denotes a function; the
            // precondition rules this out.
            _ => {
                proof {
                    lemma_mono_refl(*evaluator);
                }
                return Err(RuntimeError::OracleCallFromConstrainedContext);
            },
        };
        let f_kind = ctx.functions[fid.index as usize].kind;
        if matches!(f_kind, RuntimeType::Oracle) {
            proof {
                lemma_mono_refl(*evaluator);
            }
            return Err(RuntimeError::OracleCallFromConstrainedContext);
        }
        // Check the guard before any wiring: a statically-false
        // predicate must leave no trace at all.
        match predicate {
            Some(p) => {
                let is_zero = match self.node_kind(p, ctx) {
                    NodeKind::Constant { value } => value.is_zero(),
                    _ => false,
                };
                if is_zero {
                    proof {
                        lemma_mono_refl(*evaluator);
                    }
                    return Ok(None);
                }
            },
            None => {},
        }
        let ghost base = *evaluator;

        let num_args = arguments.len();
        let mut register_load: Vec<u32> = Vec::new();
        let mut jabber_inputs: Vec<BrilligInput> = Vec::new();
        let mut k: usize = 0;
        while k < num_args
            invariant
                ctx.wf(),
                self.wf_for(*ctx),
                self.memory.monotone_from(old(self).memory),
                ctx.operation_wf(
                    Operation::UnsafeCall {
                        func,
                        arguments: *arguments,
                        returned_values: *returned_values,
                        predicate,
                    },
                ),
                fid == ctx.nodes@[func.index as int]->Function_function_id,
                !(ctx.functions@[fid.index as int].kind is Oracle),
                !(predicate is Some && ctx.is_zero_const(predicate.unwrap())),
                num_args == arguments@.len(),
                num_args <= 0xFF,
                k <= num_args,
                register_load@.len() == k,
                forall|m: int|
                    0 <= m < k ==> #[trigger] register_load@[m]
                        == ctx.functions@[fid.index as int].arguments@[m].index,
                jabber_inputs@.len() == k,
                forall|m: int|
                    0 <= m < k ==> input_wired(*ctx, #[trigger] arguments@[m], jabber_inputs@[m]),
                evaluator.opcodes@ == base.opcodes@,
                forall|m: int|
                    0 <= m < k && (#[trigger] ctx.spec_deref(arguments@[m])) is None
                        ==> simple_value_wired(
                        self.var_cache,
                        arguments@[m],
                        jabber_inputs@[m],
                    ),
                forall|m: int|
                    0 <= m < k && (#[trigger] ctx.spec_deref(arguments@[m])) is Some && !(
                    old(self).memory.strategy_of(ctx.spec_deref(arguments@[m]).unwrap())
                        is Dynamic) ==> array_values_wired(
                        old(self).memory,
                        ctx.spec_deref(arguments@[m]).unwrap(),
                        ctx.array_len(ctx.spec_deref(arguments@[m]).unwrap()),
                        jabber_inputs@[m],
                    ),
                // Heaps never promoted stay exactly as they were.
                forall|j: int|
                    0 <= j < old(self).memory.arrays@.len() && !((
                    #[trigger] old(self).memory.arrays@[j]).strategy is Dynamic)
                        ==> self.memory.arrays@[j] == old(self).memory.arrays@[j],
                // No processed array argument had an unset element.
                forall|m: int|
                    0 <= m < k && (#[trigger] ctx.spec_deref(arguments@[m])) is Some ==> !old(self).memory.has_unset_element(
                        ctx.spec_deref(arguments@[m]).unwrap(),
                        ctx.array_len(ctx.spec_deref(arguments@[m]).unwrap()),
                    ),
                base == *old(evaluator),
                evaluator.monotone_from(base),
                evaluator.current_witness_index <= base.current_witness_index + k * 0x2_0000,
                evaluator.public_outputs@ == base.public_outputs@,
                base.current_witness_index <= WITNESS_CEILING,
            decreases num_args - k,
        {
            let call_argument = arguments[k];
            let func_argument = ctx.functions[fid.index as usize].arguments[k];
            let ghost s0 = *evaluator;
            let ghost s_self = *self;
            let input = match ctx.deref(call_argument) {
                Some(input_array) => {
                    match ctx.deref(func_argument) {
                        Some(arg_array) => {
                            match self.jabber_array(input_array, arg_array, ctx, evaluator) {
                                Ok(input) => input,
                                Err(err) => {
                                    proof {
                                        lemma_mono_trans(base, s0, *evaluator);
                                        // The failed expansion read an
                                        // unset element; the heap was
                                        // never promoted, so it is the
                                        // one the pass started with.
                                        assert(s_self.memory.has_unset_element(
                                            input_array,
                                            ctx.array_len(input_array),
                                        ));
                                        assert(!(old(self).memory.strategy_of(input_array)
                                            is Dynamic));
                                        assert(self.memory.arrays@[input_array.index as int]
                                            == old(self).memory.arrays@[input_array.index as int]);
                                        assert(old(self).memory.has_unset_element(
                                            input_array,
                                            ctx.array_len(input_array),
                                        ));
                                        assert(ctx.spec_deref(arguments@[k as int]) is Some
                                            && ctx.spec_deref(arguments@[k as int]).unwrap()
                                            == input_array);
                                    }
                                    return Err(err);
                                },
                            }
                        },
                        None => {
                            // An array argument is always wired to an
                            // array parameter; the precondition rules
                            // this out.
                            proof {
                                lemma_mono_refl(*evaluator);
                            }
                            return Err(RuntimeError::UninitializedRead);
                        },
                    }
                },
                None => {
                    let var = self.var_cache.get_or_compute_internal_var(
                        call_argument,
                        ctx,
                        evaluator,
                    );
                    proof {
                        lemma_mono_from_push(s0, *evaluator);
                    }
                    BrilligInput::Simple(var.expression)
                },
            };
            register_load.push(func_argument.index);
            jabber_inputs.push(input);
            proof {
                lemma_mono_trans(base, s0, *evaluator);
                assert forall|m: int|
                    0 <= m < k + 1 && (#[trigger] ctx.spec_deref(arguments@[m])) is None
                        implies simple_value_wired(
                    self.var_cache,
                    arguments@[m],
                    jabber_inputs@[m],
                ) by {
                    if m < k {
                        assert(s_self.var_cache.lookup(arguments@[m]) is Some);
                        if ctx.spec_deref(arguments@[k as int]) is None && arguments@[k as int].index
                            == arguments@[m].index {
                            assert(self.var_cache.inner@ == s_self.var_cache.inner@);
                        } else {
                            assert(self.var_cache.inner@[arguments@[m].index as int]
                                == s_self.var_cache.inner@[arguments@[m].index as int]);
                        }
                    }
                }
                assert forall|j: int|
                    0 <= j < old(self).memory.arrays@.len() && !((
                #[trigger] old(self).memory.arrays@[j]).strategy is Dynamic)
                        implies self.memory.arrays@[j] == old(self).memory.arrays@[j] by {
                    assert(s_self.memory.arrays@[j] == old(self).memory.arrays@[j]);
                    if ctx.spec_deref(arguments@[k as int]) is Some {
                        let a = ctx.spec_deref(arguments@[k as int]).unwrap();
                        if j == a.index as int {
                            assert(!(s_self.memory.strategy_of(a) is Dynamic));
                        }
                    }
                }
                assert forall|m: int|
                    0 <= m < k + 1 && (#[trigger] ctx.spec_deref(arguments@[m])) is Some
                        implies !old(self).memory.has_unset_element(
                        ctx.spec_deref(arguments@[m]).unwrap(),
                        ctx.array_len(ctx.spec_deref(arguments@[m]).unwrap()),
                    ) by {
                    if m == k as int {
                        let a = ctx.spec_deref(arguments@[m]).unwrap();
                        if old(self).memory.has_unset_element(a, ctx.array_len(a)) {
                            assert(s_self.memory.arrays@[a.index as int]
                                == old(self).memory.arrays@[a.index as int]);
                            assert(s_self.memory.has_unset_element(a, ctx.array_len(a)));
                        }
                    }
                }
            }
            k += 1;
        }

        let num_returns = returned_values.len();
        let mut jabber_outputs: Vec<BrilligOutput> = Vec::new();
        let mut m: usize = 0;
        while m < num_returns
            invariant
                ctx.wf(),
                self.wf_for(*ctx),
                self.memory.monotone_from(old(self).memory),
                ctx.operation_wf(
                    Operation::UnsafeCall {
                        func,
                        arguments: *arguments,
                        returned_values: *returned_values,
                        predicate,
                    },
                ),
                fid == ctx.nodes@[func.index as int]->Function_function_id,
                !(ctx.functions@[fid.index as int].kind is Oracle),
                !(predicate is Some && ctx.is_zero_const(predicate.unwrap())),
                num_returns == returned_values@.len(),
                num_returns <= 0xFF,
                m <= num_returns,
                jabber_outputs@.len() == m,
                forall|t: int|
                    base.opcodes@.len() <= t < evaluator.opcodes@.len()
                        ==> #[trigger] evaluator.opcodes@[t] is Arithmetic,
                jabber_inputs@.len() == arguments@.len(),
                forall|q: int|
                    0 <= q < arguments@.len() && (#[trigger] ctx.spec_deref(arguments@[q]))
                        is None ==> simple_value_wired(
                        self.var_cache,
                        arguments@[q],
                        jabber_inputs@[q],
                    ),
                base == *old(evaluator),
                evaluator.monotone_from(base),
                evaluator.current_witness_index <= base.current_witness_index + 0x200_0000 + m
                    * 0x2_0000,
                evaluator.public_outputs@ == base.public_outputs@,
                base.current_witness_index <= WITNESS_CEILING,
            decreases num_returns - m,
        {
            let ghost s0 = *evaluator;
            let ghost s_self = *self;
            let out = match self.jabber_output(returned_values[m], ctx, evaluator) {
                Ok(out) => out,
                Err(err) => {
                    proof {
                        lemma_mono_trans(base, s0, *evaluator);
                    }
                    return Err(err);
                },
            };
            jabber_outputs.push(out);
            proof {
                lemma_mono_trans(base, s0, *evaluator);
                assert forall|t: int|
                    base.opcodes@.len() <= t < evaluator.opcodes@.len() implies (
                #[trigger] evaluator.opcodes@[t]) is Arithmetic by {
                    if t < s0.opcodes@.len() {
                        assert(s0.opcodes@[t] == evaluator.opcodes@.subrange(
                            0,
                            s0.opcodes@.len() as int,
                        )[t]);
                    }
                }
                assert forall|q: int|
                    0 <= q < arguments@.len() && (#[trigger] ctx.spec_deref(arguments@[q]))
                        is None implies simple_value_wired(
                    self.var_cache,
                    arguments@[q],
                    jabber_inputs@[q],
                ) by {
                    assert(s_self.var_cache.lookup(arguments@[q]) is Some);
                    assert(self.var_cache.inner@[arguments@[q].index as int]
                        == s_self.var_cache.inner@[arguments@[q].index as int]);
                }
            }
            m += 1;
        }

        // Link the callee's bytecode and append the bootstrap prologue
        // mapping call arguments onto the callee's registers.
        let artifact = brillig.artifact(fid);
        let ghost artifact_code = artifact.byte_code@;
        let mut code = artifact.byte_code.clone();
        proof {
            assert(code@ =~= artifact_code);
        }
        let num_regs = register_load.len();
        let mut b: usize = 0;
        while b < num_regs
            invariant
                num_regs == register_load@.len(),
                num_regs <= 0xFF,
                b <= num_regs,
                forall|m: int|
                    0 <= m < num_regs ==> #[trigger] register_load@[m]
                        == ctx.functions@[fid.index as int].arguments@[m].index,
                code@.len() == artifact_code.len() + b,
                code@.subrange(0, artifact_code.len() as int) == artifact_code,
                forall|m: int|
                    0 <= m < b ==> #[trigger] code@[artifact_code.len() + m]
                        == (BrilligOpcode::Bootstrap {
                        argument: m as u32,
                        register: register_load@[m],
                    }),
            decreases num_regs - b,
        {
            code.push(BrilligOpcode::Bootstrap { argument: b as u32, register: register_load[b] });
            proof {
                assert(code@.subrange(0, artifact_code.len() as int) =~= artifact_code);
            }
            b += 1;
        }

        let ghost s_pred = *evaluator;
        let ghost self_pred = *self;
        let pred_expr: Option<Expression> = match predicate {
            Some(p) => {
                let pred_var = self.var_cache.get_or_compute_internal_var(p, ctx, evaluator);
                Some(pred_var.expression)
            },
            None => None,
        };
        proof {
            assert forall|q: int|
                0 <= q < arguments@.len() && (#[trigger] ctx.spec_deref(arguments@[q])) is None
                    implies simple_value_wired(
                self.var_cache,
                arguments@[q],
                jabber_inputs@[q],
            ) by {
                assert(self_pred.var_cache.lookup(arguments@[q]) is Some);
                match predicate {
                    Some(p) => {
                        if p.index == arguments@[q].index {
                            assert(self_pred.var_cache.lookup(p) is Some);
                            assert(self.var_cache.inner@ == self_pred.var_cache.inner@);
                        } else {
                            assert(self.var_cache.inner@[arguments@[q].index as int]
                                == self_pred.var_cache.inner@[arguments@[q].index as int]);
                        }
                    },
                    None => {},
                }
            }
        }
        let ghost s_push = *evaluator;
        evaluator.push_opcode(
            AcirOpcode::BrilligCall {
                inputs: jabber_inputs,
                outputs: jabber_outputs,
                bytecode: code,
                predicate: pred_expr,
            },
        );
        proof {
            lemma_mono_from_push(s_pred, s_push);
            lemma_mono_from_push(s_push, *evaluator);
            lemma_mono_trans(s_pred, s_push, *evaluator);
            lemma_mono_trans(base, s_pred, *evaluator);
        }
        Ok(None)
    }


    /// Resolves one scalar operand through the variable cache.
    fn resolve(&mut self, id: NodeId, ctx: &SsaContext, evaluator: &mut Evaluator) -> (r:
        InternalVar)
        requires
            ctx.scalar_node(id),
            ctx.nodes_wf(),
            old(self).wf_for(*ctx),
            old(evaluator).current_witness_index < u64::MAX,
        ensures
            r.wf(),
            r.id == Some(id),
            final(self).wf_for(*ctx),
            final(self).memory == old(self).memory,
            final(self).var_cache.lookup(id) is Some && final(self).var_cache.lookup(
                id,
            ).unwrap().equiv(r),
            forall|j: int|
                0 <= j < old(self).var_cache.inner@.len() && j != id.index as int
                    ==> final(self).var_cache.inner@[j] == old(self).var_cache.inner@[j],
            final(evaluator).monotone_from(*old(evaluator)),
            final(evaluator).opcodes@ == old(evaluator).opcodes@,
            final(evaluator).public_outputs@ == old(evaluator).public_outputs@,
            final(evaluator).current_witness_index <= old(evaluator).current_witness_index + 1,
            // Idempotence carries through: a cached operand resolves to
            // the identical value with nothing changed.
            old(self).var_cache.lookup(id) is Some ==> {
                &&& r.equiv(old(self).var_cache.lookup(id).unwrap())
                &&& final(self).var_cache.inner@ == old(self).var_cache.inner@
                &&& *final(evaluator) == *old(evaluator)
            },
            old(self).var_cache.lookup(id) is None ==> (ctx.nodes@[id.index as int]
                matches NodeKind::Constant { value } ==> {
                &&& r.expression.degree() == 0
                &&& r.expression.q_c == value
                &&& *final(evaluator) == *old(evaluator)
            }),
            old(self).var_cache.lookup(id) is None && ctx.nodes@[id.index as int] is Variable
                ==> {
                &&& r.expression.is_witness_poly()
                &&& r.expression.linear_combinations@[0].witness.index == old(evaluator).current_witness_index
                &&& final(evaluator).current_witness_index == old(evaluator).current_witness_index
                    + 1
            },
    {
        let r = self.var_cache.get_or_compute_internal_var(id, ctx, evaluator);
        proof {
            lemma_mono_from_push(*old(evaluator), *evaluator);
        }
        r
    }

    /// Generates constraint opcodes for one SSA instruction: the
    /// operation is dispatched over a closed tagged union, and the
    /// resulting Internal Variable, if any, is bound to the
    /// instruction's node in the cache.
    pub fn acir_gen_instruction(
        &mut self,
        ins: &Instruction,
        brillig: &Brillig,
        evaluator: &mut Evaluator,
        ctx: &SsaContext,
        show_output: bool,
    ) -> (r: Result<(), RuntimeError>)
        requires
            ctx.wf(),
            ctx.instruction_wf(*ins),
            old(self).wf_for(*ctx),
            call_linked(*ctx, *brillig, ins.operation),
            old(evaluator).current_witness_index <= WITNESS_CEILING,
        ensures
            final(self).wf_for(*ctx),
            final(self).memory.monotone_from(old(self).memory),
            final(evaluator).monotone_from(*old(evaluator)),
            final(evaluator).current_witness_index <= old(evaluator).current_witness_index
                + 0x800_0000,
            // A no-operation changes nothing.
            ins.operation is Nop ==> (*final(self) == *old(self) && *final(evaluator) == *old(evaluator)),
            // Every value-producing operation leaves its result bound to
            // the instruction's node.
            r is Ok && (ins.operation is Binary || ins.operation is Not || ins.operation is Cast
                || ins.operation is Truncate || ins.operation is Cond || ins.operation is Load
                || ins.operation is Intrinsic) ==> final(self).var_cache.lookup(ins.id) is Some,
            // An assertion emits exactly one arithmetic opcode.
            r is Ok && ins.operation is Constrain ==> {
                &&& final(evaluator).opcodes@.len() == old(evaluator).opcodes@.len() + 1
                &&& final(evaluator).opcodes@.last() is Arithmetic
            },
            // Lowering one instruction never emits a dynamic-memory
            // opcode: those are buffered in the memory model and
            // emitted only by the flush at the end of the pass.
            forall|t: int|
                old(evaluator).opcodes@.len() <= t < final(evaluator).opcodes@.len() ==> !((
                #[trigger] final(evaluator).opcodes@[t]) is MemoryBlock),
            // The purely algebraic operations cannot fail.
            (ins.operation is Binary || ins.operation is Constrain || ins.operation is Not
                || ins.operation is Cast || ins.operation is Truncate || ins.operation is Cond
                || ins.operation is Intrinsic || ins.operation is Nop) ==> r is Ok,
            // A failure can only come from the memory model, a return or
            // an embedded call.
            r is Err ==> (ins.operation is Load || ins.operation is Store || ins.operation
                is Return || ins.operation is UnsafeCall),
            // Wiring a return produces one public output per scalar and
            // one per array element; nothing else touches the public
            // outputs.
            r is Ok && ins.operation is Return ==> final(evaluator).public_outputs@.len() == old(evaluator).public_outputs@.len() + return_arity(*ctx, ins.operation->Return_values@),
            !(ins.operation is Return) ==> final(evaluator).public_outputs@ == old(evaluator).public_outputs@,
            // A cast is the identity reinterpretation: the cast's node is
            // cached with exactly the operand's representation, and no
            // opcode is emitted; a cached operand costs nothing at all.
            ins.operation matches Operation::Cast { value } ==> {
                &&& final(self).var_cache.lookup(ins.id) is Some
                &&& final(self).var_cache.lookup(value) is Some
                &&& final(self).var_cache.lookup(ins.id).unwrap().expression.equiv(
                    final(self).var_cache.lookup(value).unwrap().expression,
                )
                &&& final(evaluator).opcodes@ == old(evaluator).opcodes@
                &&& (old(self).var_cache.lookup(value) is Some ==> *final(evaluator) == *old(evaluator))
            },
            // Addition caches exactly the algebraic sum of the operands'
            // resolved representations, emitting no opcode.  (The result
            // node is distinct from the operand nodes in single-
            // assignment form.)
            ins.operation matches Operation::Binary { operator, lhs, rhs } ==> ((operator is Add
                && ins.id.index != lhs.index && ins.id.index != rhs.index) ==> {
                &&& final(self).var_cache.lookup(ins.id) is Some
                &&& final(self).var_cache.lookup(lhs) is Some
                &&& final(self).var_cache.lookup(rhs) is Some
                &&& final(self).var_cache.lookup(ins.id).unwrap().expression.mul_terms@
                    == final(self).var_cache.lookup(lhs).unwrap().expression.mul_terms@
                    + final(self).var_cache.lookup(rhs).unwrap().expression.mul_terms@
                &&& final(self).var_cache.lookup(ins.id).unwrap().expression.linear_combinations@
                    == final(self).var_cache.lookup(lhs).unwrap().expression.linear_combinations@
                    + final(self).var_cache.lookup(rhs).unwrap().expression.linear_combinations@
                &&& final(self).var_cache.lookup(ins.id).unwrap().expression.q_c@ == (
                final(self).var_cache.lookup(lhs).unwrap().expression.q_c@
                    + final(self).var_cache.lookup(rhs).unwrap().expression.q_c@)
                    % FIELD_MODULUS as int
                &&& final(evaluator).opcodes@ == old(evaluator).opcodes@
            }),
            // A load whose resolved index is a constant in range of a
            // statically tracked element caches exactly that element
            // and emits nothing.
            ins.operation matches Operation::Load { array_id, index } ==> ((ins.id.index
                != index.index && final(self).var_cache.lookup(index) is Some && final(self).var_cache.lookup(index).unwrap().expression.degree() == 0
                && final(self).var_cache.lookup(index).unwrap().expression.q_c@ < ctx.array_len(
                array_id,
            ) && !(old(self).memory.strategy_of(array_id) is Dynamic)
                && old(self).memory.arrays@[array_id.index as int].elements@[final(self).var_cache.lookup(index).unwrap().expression.q_c@ as int]
                is Some) ==> {
                &&& r is Ok
                &&& final(self).var_cache.lookup(ins.id) is Some
                &&& final(self).var_cache.lookup(ins.id).unwrap().expression.equiv(
                    old(self).memory.arrays@[array_id.index as int].elements@[final(self).var_cache.lookup(index).unwrap().expression.q_c@ as int].unwrap(),
                )
                &&& final(evaluator).opcodes@ == old(evaluator).opcodes@
            }),
            // An access through a resolved index promotes the array
            // exactly when that index is symbolic.
            ins.operation matches Operation::Load { array_id, index } ==> ((r is Ok && ins.id.index
                != index.index && final(self).var_cache.lookup(index) is Some) ==> (final(self).memory.strategy_of(array_id) is Dynamic <==> (
            old(self).memory.strategy_of(array_id) is Dynamic || final(self).var_cache.lookup(
                index,
            ).unwrap().expression.degree() != 0))),
            ins.operation matches Operation::Store { array_id, index, value } ==> ((r is Ok && final(self).var_cache.lookup(index)
                is Some) ==> (final(self).memory.strategy_of(array_id) is Dynamic <==> (
            old(self).memory.strategy_of(array_id) is Dynamic || final(self).var_cache.lookup(
                index,
            ).unwrap().expression.degree() != 0))),
            // A store whose resolved index is a constant in range
            // succeeds, and on the static strategy records exactly the
            // resolved value at that slot; a store never emits an
            // opcode, and never binds the instruction's own node.
            ins.operation matches Operation::Store { array_id, index, value } ==> {
                &&& final(self).var_cache.lookup(index) is Some
                &&& final(self).var_cache.lookup(value) is Some
                &&& ((final(self).var_cache.lookup(index).unwrap().expression.degree() == 0
                    && final(self).var_cache.lookup(index).unwrap().expression.q_c@
                    < ctx.array_len(array_id)) ==> r is Ok)
                &&& ((r is Ok && !(old(self).memory.strategy_of(array_id) is Dynamic)
                    && final(self).var_cache.lookup(index).unwrap().expression.degree() == 0)
                    ==> {
                    let slot = final(self).memory.arrays@[array_id.index as int].elements@[final(self).var_cache.lookup(index).unwrap().expression.q_c@ as int];
                    slot is Some && slot.unwrap().equiv(
                        final(self).var_cache.lookup(value).unwrap().expression,
                    )
                })
                &&& final(evaluator).opcodes@ == old(evaluator).opcodes@
                &&& (ins.id.index != index.index && ins.id.index != value.index
                    ==> final(self).var_cache.lookup(ins.id) == old(self).var_cache.lookup(ins.id))
            },
            // An intrinsic emits exactly one call opcode, with one input
            // per argument; a display intrinsic gets the show-output
            // flag threaded in at lowering time.
            ins.operation matches Operation::Intrinsic { opcode, arguments } ==> (r is Ok ==> {
                &&& final(evaluator).opcodes@.len() == old(evaluator).opcodes@.len() + 1
                &&& final(evaluator).opcodes@.last() is IntrinsicCall
                &&& (final(evaluator).opcodes@.last() matches AcirOpcode::IntrinsicCall {
                    opcode: emitted,
                    inputs,
                    outputs,
                } ==> {
                    &&& inputs@.len() == arguments@.len()
                    &&& outputs@.len() == 1
                    &&& (opcode matches BuiltinOpcode::Println { is_string_output, .. }
                        ==> emitted == (BuiltinOpcode::Println { is_string_output, show_output }))
                    &&& (!(opcode is Println) ==> emitted == opcode)
                })
            }),
    {
        let ghost base = *evaluator;
        match &ins.operation {
            Operation::Binary { operator, lhs, rhs } => {
                let ghost s0 = *evaluator;
                let l = self.resolve(*lhs, ctx, evaluator);
                let ghost s1 = *evaluator;
                let r_var = self.resolve(*rhs, ctx, evaluator);
                let ghost s2 = *evaluator;
                let mut output = ops::binary_evaluate(*operator, &l, &r_var, evaluator);
                output.set_id(ins.id);
                self.var_cache.update(output, ctx);
                proof {
                    lemma_mono_trans(s1, s2, *evaluator);
                    lemma_mono_trans(s0, s1, *evaluator);
                }
                Ok(())
            },
            Operation::Constrain { value } => {
                let ghost s0 = *evaluator;
                let v = self.resolve(*value, ctx, evaluator);
                ops::constrain_evaluate(&v, evaluator);
                proof {
                    lemma_mono_trans(s0, *old(evaluator), *evaluator);
                }
                Ok(())
            },
            Operation::Not { value } => {
                let ghost s0 = *evaluator;
                let v = self.resolve(*value, ctx, evaluator);
                let bit_size: u32 = match ins.res_type {
                    crate::node::ObjectType::Unsigned { bit_size } => bit_size,
                    _ => 1,
                };
                let mut output = ops::not_evaluate(&v, bit_size);
                output.set_id(ins.id);
                self.var_cache.update(output, ctx);
                Ok(())
            },
            Operation::Cast { value } => {
                let v = self.resolve(*value, ctx, evaluator);
                let mut output = InternalVar { expression: v.expression, id: v.id };
                output.set_id(ins.id);
                self.var_cache.update(output, ctx);
                Ok(())
            },
            Operation::Truncate { value, bit_size, max_bit_size } => {
                let ghost s0 = *evaluator;
                let v = self.resolve(*value, ctx, evaluator);
                let ghost s1 = *evaluator;
                let mut output = ops::truncate_evaluate(&v, *bit_size, *max_bit_size, evaluator);
                output.set_id(ins.id);
                self.var_cache.update(output, ctx);
                proof {
                    lemma_mono_trans(s0, s1, *evaluator);
                }
                Ok(())
            },
            Operation::Intrinsic { opcode, arguments } => {
                let resolved_opcode = match opcode {
                    BuiltinOpcode::Println { is_string_output, .. } => BuiltinOpcode::Println {
                        is_string_output: *is_string_output,
                        show_output,
                    },
                    other => *other,
                };
                let num_args = arguments.len();
                let mut inputs: Vec<Expression> = Vec::new();
                let mut k: usize = 0;
                while k < num_args
                    invariant
                        ctx.wf(),
                        self.wf_for(*ctx),
                        self.memory.monotone_from(old(self).memory),
                        num_args == arguments@.len(),
                        num_args <= 0xFF,
                        k <= num_args,
                        inputs@.len() == k,
                        evaluator.opcodes@ == base.opcodes@,
                        evaluator.public_outputs@ == base.public_outputs@,
                        forall|m: int| 0 <= m < k ==> (#[trigger] inputs@[m]).wf(),
                        forall|m: int|
                            0 <= m < arguments@.len() ==> ctx.scalar_node(
                                #[trigger] arguments@[m],
                            ),
                        base == *old(evaluator),
                        evaluator.monotone_from(base),
                        evaluator.current_witness_index <= base.current_witness_index + k,
                        base.current_witness_index <= WITNESS_CEILING,
                    decreases num_args - k,
                {
                    let ghost s0 = *evaluator;
                    let v = self.resolve(arguments[k], ctx, evaluator);
                    inputs.push(v.expression);
                    proof {
                        lemma_mono_trans(base, s0, *evaluator);
                    }
                    k += 1;
                }
                let ghost s1 = *evaluator;
                let mut output = ops::intrinsic_evaluate(resolved_opcode, inputs, evaluator);
                output.set_id(ins.id);
                self.var_cache.update(output, ctx);
                proof {
                    lemma_mono_trans(base, s1, *evaluator);
                }
                Ok(())
            },
            Operation::Return { values } => self.return_evaluate(values, evaluator, ctx),
            Operation::Cond { condition, val_true, val_false } => {
                let ghost s0 = *evaluator;
                let c = self.resolve(*condition, ctx, evaluator);
                let ghost s1 = *evaluator;
                let l = self.resolve(*val_true, ctx, evaluator);
                let ghost s2 = *evaluator;
                let r_var = self.resolve(*val_false, ctx, evaluator);
                let ghost s3 = *evaluator;
                let mut output = ops::condition_evaluate(&c, &l, &r_var, evaluator);
                output.set_id(ins.id);
                self.var_cache.update(output, ctx);
                proof {
                    lemma_mono_trans(s2, s3, *evaluator);
                    lemma_mono_trans(s1, s2, *evaluator);
                    lemma_mono_trans(s0, s1, *evaluator);
                }
                Ok(())
            },
            Operation::Load { array_id, index } => {
                let ghost s0 = *evaluator;
                let idx = self.resolve(*index, ctx, evaluator);
                let ghost s1 = *evaluator;
                let e = match self.memory.load(*array_id, &idx.expression, ctx, evaluator) {
                    Ok(e) => e,
                    Err(err) => {
                        proof {
                            lemma_mono_from_push(s1, *evaluator);
                            lemma_mono_trans(s0, s1, *evaluator);
                        }
                        return Err(err);
                    },
                };
                let mut output = InternalVar::from_expression(e);
                output.set_id(ins.id);
                self.var_cache.update(output, ctx);
                proof {
                    lemma_mono_from_push(s1, *evaluator);
                    lemma_mono_trans(s0, s1, *evaluator);
                }
                Ok(())
            },
            Operation::Store { array_id, index, value } => {
                let ghost s0 = *evaluator;
                let idx = self.resolve(*index, ctx, evaluator);
                let ghost s1 = *evaluator;
                let value_var = self.resolve(*value, ctx, evaluator);
                proof {
                    lemma_mono_trans(s0, s1, *evaluator);
                }
                match self.memory.store(*array_id, &idx.expression, value_var.expression, ctx) {
                    Ok(()) => Ok(()),
                    Err(err) => Err(err),
                }
            },
            Operation::UnsafeCall { func, arguments, returned_values, predicate } => {
                match self.unsafe_call(
                    *func,
                    arguments,
                    returned_values,
                    *predicate,
                    brillig,
                    evaluator,
                    ctx,
                ) {
                    Ok(_) => Ok(()),
                    Err(err) => Err(err),
                }
            },
            Operation::Nop => {
                proof {
                    lemma_mono_refl(*evaluator);
                }
                Ok(())
            },
            Operation::Jne | Operation::Jeq | Operation::Jmp | Operation::Phi | Operation::Call
            | Operation::Res => {
                // Malformed SSA: control-flow tags must never reach the
                // lowering core — earlier passes have linearized control
                // flow and inlined calls.  The precondition rules these
                // out, so this branch is unreachable.
                proof {
                    lemma_mono_refl(*evaluator);
                }
                Ok(())
            },
        }
    }

    /// Lowers a whole function: walks its blocks from the designated
    /// root along the fall-through successors, lowers every instruction
    /// in program order, then flushes the memory model once.  The output
    /// program and witness vector only ever grow.
    pub fn acir_gen(
        self,
        root: BlockId,
        brillig: &Brillig,
        evaluator: &mut Evaluator,
        ctx: &SsaContext,
        show_output: bool,
    ) -> (r: Result<(), RuntimeError>)
        requires
            ctx.wf(),
            self.wf_for(*ctx),
            root.index < ctx.blocks@.len(),
            forall|i: int|
                0 <= i < ctx.instructions@.len() ==> call_linked(
                    *ctx,
                    *brillig,
                    (#[trigger] ctx.instructions@[i]).operation,
                ),
        ensures
            final(evaluator).monotone_from(*old(evaluator)),
            // The ceiling check before each instruction bounds the
            // whole pass: the allocator never runs away.
            old(evaluator).current_witness_index <= WITNESS_CEILING + 0x800_0000 ==> final(evaluator).current_witness_index <= WITNESS_CEILING + 0x800_0000,
            // The pass wires exactly the public outputs the chain's
            // return instructions declare, in program order.
            r is Ok ==> final(evaluator).public_outputs@.len() == old(evaluator).public_outputs@.len() + chain_return_arity(*ctx, root.index as int, ctx.blocks@.len() as nat),
            // Dynamic-memory opcodes are batched: instruction lowering
            // emits none, so on success every dynamic-memory block of
            // the output stands in one contiguous run at the very end —
            // the single flush, after all instruction lowering.
            r is Ok ==> forall|t: int, u: int|
                old(evaluator).opcodes@.len() <= t <= u < final(evaluator).opcodes@.len() && (
                #[trigger] final(evaluator).opcodes@[t]) is MemoryBlock ==> (
                #[trigger] final(evaluator).opcodes@[u]) is MemoryBlock,
            // A function with nothing to lower succeeds, and its output
            // is the input program followed exactly by the flush of the
            // memory model the pass started with.
            (ctx.blocks@[root.index as int].instructions@.len() == 0
                && ctx.blocks@[root.index as int].left is None) ==> {
                &&& r is Ok
                &&& final(evaluator).opcodes@ == old(evaluator).opcodes@
                    + crate::acir_mem::flush_ops(self.memory.arrays@)
            },
    {
        let ghost base = *evaluator;
        let ghost chain_empty = ctx.blocks@[root.index as int].instructions@.len() == 0
            && ctx.blocks@[root.index as int].left is None;
        let ghost init_arrays = self.memory.arrays@;
        proof {
            lemma_mono_refl(*evaluator);
        }
        let mut this = self;
        let ghost mut done: int = 0;
        let mut cur: u32 = root.index;
        let mut more = true;
        while more
            invariant
                ctx.wf(),
                this.wf_for(*ctx),
                more ==> cur < ctx.blocks@.len(),
                cur <= ctx.blocks@.len(),
                forall|i: int|
                    0 <= i < ctx.instructions@.len() ==> call_linked(
                        *ctx,
                        *brillig,
                        (#[trigger] ctx.instructions@[i]).operation,
                    ),
                base == *old(evaluator),
                evaluator.monotone_from(base),
                base.current_witness_index <= WITNESS_CEILING + 0x800_0000
                    ==> evaluator.current_witness_index <= WITNESS_CEILING + 0x800_0000,
                chain_empty == (ctx.blocks@[root.index as int].instructions@.len() == 0
                    && ctx.blocks@[root.index as int].left is None),
                root.index < ctx.blocks@.len(),
                chain_empty ==> (cur == root.index && evaluator.opcodes@ == base.opcodes@
                    && this.memory.arrays@ == init_arrays),
                forall|t: int|
                    base.opcodes@.len() <= t < evaluator.opcodes@.len() ==> !((
                    #[trigger] evaluator.opcodes@[t]) is MemoryBlock),
                evaluator.public_outputs@.len() == base.public_outputs@.len() + done,
                more ==> chain_return_arity(*ctx, root.index as int, ctx.blocks@.len() as nat)
                    == done + chain_return_arity(*ctx, cur as int, ctx.blocks@.len() as nat),
                !more ==> chain_return_arity(*ctx, root.index as int, ctx.blocks@.len() as nat)
                    == done,
            decreases ctx.blocks@.len() - cur + (if more { 1int } else { 0int }),
        {
            let block = &ctx.blocks[cur as usize];
            let num_instructions = block.instructions.len();
            let mut j: usize = 0;
            while j < num_instructions
                invariant
                    ctx.wf(),
                    this.wf_for(*ctx),
                    cur < ctx.blocks@.len(),
                    block == ctx.blocks@[cur as int],
                    num_instructions == block.instructions@.len(),
                    j <= num_instructions,
                    forall|i: int|
                        0 <= i < ctx.instructions@.len() ==> call_linked(
                            *ctx,
                            *brillig,
                            (#[trigger] ctx.instructions@[i]).operation,
                        ),
                    base == *old(evaluator),
                    evaluator.monotone_from(base),
                    base.current_witness_index <= WITNESS_CEILING + 0x800_0000
                        ==> evaluator.current_witness_index <= WITNESS_CEILING + 0x800_0000,
                    chain_empty == (ctx.blocks@[root.index as int].instructions@.len() == 0
                        && ctx.blocks@[root.index as int].left is None),
                    chain_empty ==> (cur == root.index && num_instructions == 0
                        && evaluator.opcodes@ == base.opcodes@ && this.memory.arrays@
                        == init_arrays),
                    forall|t: int|
                        base.opcodes@.len() <= t < evaluator.opcodes@.len() ==> !((
                        #[trigger] evaluator.opcodes@[t]) is MemoryBlock),
                    evaluator.public_outputs@.len() == base.public_outputs@.len() + done
                        + block_return_arity(*ctx, block.instructions@.take(j as int)),
                decreases num_instructions - j,
            {
                if evaluator.current_witness_index > WITNESS_CEILING {
                    return Err(RuntimeError::WitnessLimitExceeded);
                }
                let instruction_index = block.instructions[j];
                let ins = &ctx.instructions[instruction_index as usize];
                proof {
                    lemma_block_return_arity_push(
                        *ctx,
                        block.instructions@.take(j as int),
                        block.instructions@[j as int],
                    );
                    assert(block.instructions@.take(j as int).push(block.instructions@[j as int])
                        =~= block.instructions@.take(j as int + 1));
                }
                let ghost s0 = *evaluator;
                match this.acir_gen_instruction(ins, brillig, evaluator, ctx, show_output) {
                    Ok(()) => {},
                    Err(err) => {
                        proof {
                            lemma_mono_trans(base, s0, *evaluator);
                        }
                        return Err(err);
                    },
                }
                proof {
                    lemma_mono_trans(base, s0, *evaluator);
                    assert forall|t: int|
                        base.opcodes@.len() <= t < evaluator.opcodes@.len() implies !((
                    #[trigger] evaluator.opcodes@[t]) is MemoryBlock) by {
                        if t < s0.opcodes@.len() {
                            assert(s0.opcodes@[t] == evaluator.opcodes@.subrange(
                                0,
                                s0.opcodes@.len() as int,
                            )[t]);
                        }
                    }
                }
                j += 1;
            }
            proof {
                assert(block.instructions@.take(num_instructions as int) =~= block.instructions@);
                done = done + block_return_arity(*ctx, block.instructions@);
            }
            match block.left {
                Some(next) => {
                    proof {
                        lemma_chain_return_arity_fuel(
                            *ctx,
                            next.index as int,
                            (ctx.blocks@.len() - 1) as nat,
                            ctx.blocks@.len() as nat,
                        );
                    }
                    cur = next.index;
                },
                None => {
                    more = false;
                },
            }
        }
        let ghost s_flush = *evaluator;
        let ghost flush_heaps = this.memory.arrays@;
        let Acir { memory, var_cache } = this;
        memory.flush(ctx, evaluator);
        proof {
            crate::acir_mem::lemma_flush_ops_all_blocks(flush_heaps);
            assert forall|t: int, u: int|
                base.opcodes@.len() <= t <= u < evaluator.opcodes@.len() && (
                #[trigger] evaluator.opcodes@[t]) is MemoryBlock implies (
            #[trigger] evaluator.opcodes@[u]) is MemoryBlock by {
                if t < s_flush.opcodes@.len() {
                    assert(evaluator.opcodes@[t] == s_flush.opcodes@[t]);
                    assert(false);
                } else {
                    assert(evaluator.opcodes@[u] == crate::acir_mem::flush_ops(flush_heaps)[u
                        - s_flush.opcodes@.len()]);
                }
            }
            assert(s_flush.opcodes@.is_prefix_of(evaluator.opcodes@)) by {
                assert(s_flush.opcodes@ =~= evaluator.opcodes@.subrange(
                    0,
                    s_flush.opcodes@.len() as int,
                ));
            }
            assert(s_flush.public_outputs@.is_prefix_of(evaluator.public_outputs@)) by {
                assert(s_flush.public_outputs@ =~= evaluator.public_outputs@.subrange(
                    0,
                    s_flush.public_outputs@.len() as int,
                ));
            }
            lemma_mono_trans(base, s_flush, *evaluator);
        }
        Ok(())
    }

    /// Reads a node's kind out of the context.
    fn node_kind(&self, id: NodeId, ctx: &SsaContext) -> (k: NodeKind)
        requires
            ctx.valid_node(id),
        ensures
            k == ctx.nodes@[id.index as int],
    {
        ctx.nodes[id.index as usize]
    }
}

/// A prefix of a prefix is a prefix.
proof fn lemma_prefix_trans<T>(a: Seq<T>, b: Seq<T>, c: Seq<T>)
    requires
        a.is_prefix_of(b),
        b.is_prefix_of(c),
    ensures
        a.is_prefix_of(c),
{
    assert forall|i: int| 0 <= i < a.len() implies a[i] == c.subrange(0, a.len() as int)[i] by {
        assert(a[i] == b.subrange(0, a.len() as int)[i]);
        assert(b[i] == c.subrange(0, b.len() as int)[i]);
    }
    assert(a =~= c.subrange(0, a.len() as int));
}

/// Monotone growth composes.
proof fn lemma_mono_trans(a: Evaluator, b: Evaluator, c: Evaluator)
    requires
        b.monotone_from(a),
        c.monotone_from(b),
    ensures
        c.monotone_from(a),
{
    lemma_prefix_trans(a.opcodes@, b.opcodes@, c.opcodes@);
    lemma_prefix_trans(a.public_outputs@, b.public_outputs@, c.public_outputs@);
}

/// Growth is reflexive: an unchanged evaluator has grown from itself.
proof fn lemma_mono_refl(a: Evaluator)
    ensures
        a.monotone_from(a),
{
    assert(a.opcodes@ =~= a.opcodes@.subrange(0, a.opcodes@.len() as int));
    assert(a.public_outputs@ =~= a.public_outputs@.subrange(0, a.public_outputs@.len() as int));
}

/// An evaluator whose opcode list is unchanged and whose public outputs
/// only gained entries at the end has grown monotonically.
proof fn lemma_mono_from_push(a: Evaluator, b: Evaluator)
    requires
        b.opcodes@ == a.opcodes@ || a.opcodes@.is_prefix_of(b.opcodes@),
        b.public_outputs@ == a.public_outputs@ || b.public_outputs@ == a.public_outputs@.push(
            b.public_outputs@.last(),
        ),
        b.current_witness_index >= a.current_witness_index,
    ensures
        b.monotone_from(a),
{
    assert(a.opcodes@.is_prefix_of(b.opcodes@)) by {
        if b.opcodes@ == a.opcodes@ {
            assert(a.opcodes@ =~= b.opcodes@.subrange(0, a.opcodes@.len() as int));
        }
    }
    assert(a.public_outputs@.is_prefix_of(b.public_outputs@)) by {
        assert(a.public_outputs@ =~= b.public_outputs@.subrange(
            0,
            a.public_outputs@.len() as int,
        ));
    }
}

} // verus!
