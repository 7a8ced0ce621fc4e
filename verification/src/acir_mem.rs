//! The memory model: represents each SSA array either as fully-flattened
//! static storage (every access at a compile-time-constant index) or as a
//! dynamic indexable block.  The strategy is fixed per array: the first
//! symbolic-index access irreversibly promotes an array to dynamic, and no
//! reverse transition exists.

use vstd::prelude::*;

use crate::errors::RuntimeError;
use crate::evaluator::Evaluator;
use crate::expression::Expression;
use crate::expression::Witness;
use crate::node::ArrayId;
use crate::node::SsaContext;
use crate::opcode::AcirOpcode;
use crate::opcode::MemOp;

verus! {

/// The per-array lowering strategy.
#[derive(Clone, Copy, Debug, PartialEq, Eq, Structural)]
pub enum ArrayStrategy {
    /// Not accessed yet.
    Unset,
    /// Fully flattened: all accesses so far used constant indices.
    Static,
    /// An indexable block: a symbolic index has been seen.
    Dynamic,
}

/// The lowering state of one array.
#[derive(Clone, Debug, PartialEq, Eq)]
pub struct ArrayHeap {
    pub id: ArrayId,
    pub len: u32,
    pub strategy: ArrayStrategy,
    /// Statically tracked contents, one slot per element.
    pub elements: Vec<Option<Expression>>,
    /// Buffered accesses of a dynamic block, flushed once per function.
    pub trace: Vec<MemOp>,
}

impl ArrayHeap {
    pub open spec fn wf(self) -> bool {
        &&& self.elements@.len() == self.len as int
        &&& forall|i: int|
            0 <= i < self.elements@.len() ==> match #[trigger] self.elements@[i] {
                Some(e) => e.wf(),
                None => true,
            }
    }
}

/// The batched dynamic-memory opcodes that flushing a sequence of array
/// heaps emits: one memory block per dynamic array, in array order.
pub open spec fn flush_ops(heaps: Seq<ArrayHeap>) -> Seq<AcirOpcode>
    decreases heaps.len(),
{
    if heaps.len() == 0 {
        Seq::empty()
    } else {
        let head: Seq<AcirOpcode> = if heaps[0].strategy is Dynamic {
            seq![
                AcirOpcode::MemoryBlock {
                    array_id: heaps[0].id,
                    len: heaps[0].len,
                    trace: heaps[0].trace,
                },
            ]
        } else {
            Seq::empty()
        };
        head + flush_ops(heaps.drop_first())
    }
}

/// An array accessed only with constant indices never produces a
/// dynamic-memory opcode: flushing emits nothing for arrays that were
/// never promoted.
pub proof fn lemma_flush_ops_no_dynamic(heaps: Seq<ArrayHeap>)
    requires
        forall|i: int| 0 <= i < heaps.len() ==> !((#[trigger] heaps[i]).strategy is Dynamic),
    ensures
        flush_ops(heaps) == Seq::<AcirOpcode>::empty(),
    decreases heaps.len(),
{
    if heaps.len() > 0 {
        assert forall|i: int| 0 <= i < heaps.drop_first().len() implies !((
        #[trigger] heaps.drop_first()[i]).strategy is Dynamic) by {
            assert(heaps.drop_first()[i] == heaps[i + 1]);
        }
        lemma_flush_ops_no_dynamic(heaps.drop_first());
        assert(flush_ops(heaps) =~= Seq::<AcirOpcode>::empty());
    }
}

/// Everything flushing emits is a dynamic-memory block.
pub proof fn lemma_flush_ops_all_blocks(heaps: Seq<ArrayHeap>)
    ensures
        forall|t: int|
            0 <= t < flush_ops(heaps).len() ==> (#[trigger] flush_ops(heaps)[t]) is MemoryBlock,
    decreases heaps.len(),
{
    if heaps.len() > 0 {
        lemma_flush_ops_all_blocks(heaps.drop_first());
        assert forall|t: int|
            0 <= t < flush_ops(heaps).len() implies (#[trigger] flush_ops(heaps)[t])
            is MemoryBlock by {
            if heaps[0].strategy is Dynamic {
                if t >= 1 {
                    assert(flush_ops(heaps)[t] == flush_ops(heaps.drop_first())[t - 1]);
                }
            } else {
                assert(flush_ops(heaps)[t] == flush_ops(heaps.drop_first())[t]);
            }
        }
    }
}

/// Flushing one more heap appends its block, if it has one.
proof fn lemma_flush_ops_push(heaps: Seq<ArrayHeap>, h: ArrayHeap)
    ensures
        flush_ops(heaps.push(h)) == flush_ops(heaps) + flush_ops(seq![h]),
    decreases heaps.len(),
{
    assert(flush_ops(Seq::<ArrayHeap>::empty()) == Seq::<AcirOpcode>::empty());
    if heaps.len() == 0 {
        assert(heaps.push(h)[0] == h);
        assert(heaps.push(h).drop_first() =~= Seq::<ArrayHeap>::empty());
        assert(seq![h].drop_first() =~= Seq::<ArrayHeap>::empty());
        assert(seq![h][0] == h);
        assert(heaps =~= Seq::<ArrayHeap>::empty());
        assert(flush_ops(heaps.push(h)) =~= flush_ops(heaps) + flush_ops(seq![h]));
    } else {
        assert(heaps.push(h)[0] == heaps[0]);
        assert(heaps.push(h).drop_first() =~= heaps.drop_first().push(h));
        lemma_flush_ops_push(heaps.drop_first(), h);
        assert(flush_ops(heaps.push(h)) =~= flush_ops(heaps) + flush_ops(seq![h]));
    }
}

/// A mutable borrow of one heap of the vector.
fn heap_at(vec: &mut Vec<ArrayHeap>, i: usize) -> (h: &mut ArrayHeap)
    requires
        i < old(vec)@.len(),
    ensures
        *h == old(vec)@[i as int],
        final(vec)@ == old(vec)@.update(i as int, *final(h)),
{
    &mut vec[i]
}

/// The memory model of one lowering pass: one heap per array of the
/// context.
pub struct AcirMem {
    pub arrays: Vec<ArrayHeap>,
}

impl AcirMem {
    pub open spec fn wf_for(self, ctx: SsaContext) -> bool {
        &&& self.arrays@.len() == ctx.arrays@.len()
        &&& forall|i: int|
            0 <= i < self.arrays@.len() ==> {
                &&& (#[trigger] self.arrays@[i]).wf()
                &&& self.arrays@[i].id == (ArrayId { index: i as u32 })
                &&& self.arrays@[i].len == ctx.arrays@[i].len
            }
    }

    pub open spec fn strategy_of(self, a: ArrayId) -> ArrayStrategy {
        self.arrays@[a.index as int].strategy
    }

    /// A statically tracked array with a hole: some element below `len`
    /// was never stored.  Reading such an element is the one failure a
    /// constant-indexed expansion of the array can hit.
    pub open spec fn has_unset_element(self, a: ArrayId, len: int) -> bool {
        &&& !(self.strategy_of(a) is Dynamic)
        &&& exists|i: int|
            0 <= i < len && (#[trigger] self.arrays@[a.index as int].elements@[i]) is None
    }

    /// Promotion is one-way: an array already dynamic stays dynamic.
    pub open spec fn monotone_from(self, other: AcirMem) -> bool {
        &&& self.arrays@.len() == other.arrays@.len()
        &&& forall|i: int|
            0 <= i < other.arrays@.len() ==> ((#[trigger] other.arrays@[i]).strategy is Dynamic
                ==> self.arrays@[i].strategy is Dynamic)
    }

    /// One fresh heap per array of the context, all unset.
    pub fn new(ctx: &SsaContext) -> (r: AcirMem)
        requires
            ctx.wf(),
        ensures
            r.wf_for(*ctx),
            forall|i: int| 0 <= i < r.arrays@.len() ==> (#[trigger] r.arrays@[i]).strategy is Unset,
    {
        let mut arrays: Vec<ArrayHeap> = Vec::new();
        let n = ctx.arrays.len();
        let mut i: usize = 0;
        while i < n
            invariant
                ctx.wf(),
                n == ctx.arrays@.len(),
                i <= n,
                arrays@.len() == i,
                forall|j: int|
                    0 <= j < i ==> {
                        &&& (#[trigger] arrays@[j]).wf()
                        &&& arrays@[j].id == (ArrayId { index: j as u32 })
                        &&& arrays@[j].len == ctx.arrays@[j].len
                        &&& arrays@[j].strategy is Unset
                    },
            decreases n - i,
        {
            let len = ctx.arrays[i].len;
            let mut elements: Vec<Option<Expression>> = Vec::new();
            let mut k: usize = 0;
            while k < len as usize
                invariant
                    k <= len as usize,
                    elements@.len() == k,
                    forall|m: int| 0 <= m < k ==> (#[trigger] elements@[m]) is None,
                decreases len as usize - k,
            {
                elements.push(None);
                k += 1;
            }
            arrays.push(
                ArrayHeap {
                    id: ArrayId { index: i as u32 },
                    len,
                    strategy: ArrayStrategy::Unset,
                    elements,
                    trace: Vec::new(),
                },
            );
            i += 1;
        }
        AcirMem { arrays }
    }

    /// Writes `value` at `index` into the array.  A constant in-range
    /// index keeps the array's strategy static; a symbolic index promotes
    /// the array to dynamic, materializing the retained static contents as
    /// buffered stores before the new one.  Emits no opcode either way.
    pub fn store(
        &mut self,
        array_id: ArrayId,
        index: &Expression,
        value: Expression,
        ctx: &SsaContext,
    ) -> (r: Result<(), RuntimeError>)
        requires
            old(self).wf_for(*ctx),
            ctx.valid_array(array_id),
            index.wf(),
            value.wf(),
        ensures
            final(self).wf_for(*ctx),
            final(self).monotone_from(*old(self)),
            forall|j: int|
                0 <= j < old(self).arrays@.len() && j != array_id.index as int ==> final(self).arrays@[j] == old(self).arrays@[j],
            // The strategy after the access: dynamic exactly when it
            // already was, or the index was symbolic.
            r is Ok ==> (final(self).strategy_of(array_id) is Dynamic <==> (old(self).strategy_of(array_id) is Dynamic || index.degree() != 0)),
            // A constant index out of range is rejected, and rejection
            // changes nothing.
            r is Err ==> (index.degree() == 0 && !(index.q_c@ < ctx.array_len(array_id)) && *final(self) == *old(self) && r == Err::<(), RuntimeError>(RuntimeError::IndexOutOfBounds)),
            index.degree() == 0 && index.q_c@ < ctx.array_len(array_id) ==> r is Ok,
            // A static store records the value at its slot and leaves
            // every other slot of the array as it was.
            r is Ok && !(old(self).strategy_of(array_id) is Dynamic) && index.degree() == 0 ==> {
                let slot = final(self).arrays@[array_id.index as int].elements@[index.q_c@ as int];
                slot is Some && slot.unwrap().equiv(value)
            },
            (r is Ok && !(old(self).strategy_of(array_id) is Dynamic) && index.degree() == 0)
                ==> forall|j: int|
                0 <= j < old(self).arrays@[array_id.index as int].elements@.len() && j
                    != index.q_c@ as int ==> #[trigger] final(self).arrays@[array_id.index as int].elements@[j]
                    == old(self).arrays@[array_id.index as int].elements@[j],
    {
        let a = array_id.index as usize;
        let len = self.arrays[a].len;
        if index.is_const() {
            let idx = index.q_c.to_u64();
            if idx >= len as u64 {
                return Err(RuntimeError::IndexOutOfBounds);
            }
            let dynamic_now = matches!(self.arrays[a].strategy, ArrayStrategy::Dynamic);
            if dynamic_now {
                let op = MemOp::Store { index: index.duplicate(), value };
                self.push_trace(a, op, ctx);
            } else {
                self.set_element(a, idx as usize, value, ctx);
            }
            Ok(())
        } else {
            let dynamic_now = matches!(self.arrays[a].strategy, ArrayStrategy::Dynamic);
            if !dynamic_now {
                self.promote(a, ctx);
            }
            let op = MemOp::Store { index: index.duplicate(), value };
            self.push_trace(a, op, ctx);
            Ok(())
        }
    }

    /// Reads the array at `index`.  A constant in-range index on a
    /// non-promoted array returns the statically tracked element; any
    /// other access goes through the dynamic block, binding the read to a
    /// fresh witness.
    pub fn load(
        &mut self,
        array_id: ArrayId,
        index: &Expression,
        ctx: &SsaContext,
        evaluator: &mut Evaluator,
    ) -> (r: Result<Expression, RuntimeError>)
        requires
            old(self).wf_for(*ctx),
            ctx.valid_array(array_id),
            index.wf(),
            old(evaluator).current_witness_index < u64::MAX,
        ensures
            final(self).wf_for(*ctx),
            final(self).monotone_from(*old(self)),
            forall|j: int|
                0 <= j < old(self).arrays@.len() && j != array_id.index as int ==> final(self).arrays@[j] == old(self).arrays@[j],
            r is Ok ==> r.unwrap().wf(),
            // The strategy after the access, as for stores.
            r is Ok ==> (final(self).strategy_of(array_id) is Dynamic <==> (old(self).strategy_of(array_id) is Dynamic || index.degree() != 0)),
            // No opcode is ever emitted here; at most one witness is
            // allocated, for a dynamic read.
            final(evaluator).opcodes@ == old(evaluator).opcodes@,
            final(evaluator).public_outputs@ == old(evaluator).public_outputs@,
            old(evaluator).current_witness_index <= final(evaluator).current_witness_index <= old(evaluator).current_witness_index + 1,
            // A static read returns the stored element and changes
            // nothing.
            (!(old(self).strategy_of(array_id) is Dynamic) && index.degree() == 0 && index.q_c@
                < ctx.array_len(array_id) && old(self).arrays@[array_id.index as int].elements@[index.q_c@ as int] is Some)
                ==> {
                let stored = old(self).arrays@[array_id.index as int].elements@[index.q_c@ as int].unwrap();
                &&& r is Ok && r.unwrap().equiv(stored)
                &&& *final(self) == *old(self)
                &&& *final(evaluator) == *old(evaluator)
            },
            // A dynamic read allocates exactly one fresh witness.
            (old(self).strategy_of(array_id) is Dynamic || index.degree() != 0) ==> {
                &&& r is Ok && r.unwrap().is_witness_poly()
                &&& final(evaluator).current_witness_index == old(evaluator).current_witness_index + 1
            },
            // A static read of an out-of-range constant index, or of a
            // slot never stored, fails.
            (!(old(self).strategy_of(array_id) is Dynamic) && index.degree() == 0 && !(
            index.q_c@ < ctx.array_len(array_id))) ==> r is Err,
            (!(old(self).strategy_of(array_id) is Dynamic) && index.degree() == 0 && index.q_c@
                < ctx.array_len(array_id) && old(self).arrays@[array_id.index as int].elements@[index.q_c@ as int] is None)
                ==> r is Err,
            // A static read fails exactly on a constant index out of
            // range, or one whose slot was never stored; failure changes
            // nothing.
            r is Err ==> {
                &&& !(old(self).strategy_of(array_id) is Dynamic)
                &&& index.degree() == 0
                &&& *final(self) == *old(self)
                &&& *final(evaluator) == *old(evaluator)
                &&& (r == Err::<Expression, RuntimeError>(RuntimeError::IndexOutOfBounds) <==> !(
                index.q_c@ < ctx.array_len(array_id)))
                &&& (r == Err::<Expression, RuntimeError>(RuntimeError::UninitializedRead) <==> (
                index.q_c@ < ctx.array_len(array_id) && old(self).arrays@[array_id.index as int].elements@[index.q_c@ as int] is None))
            },
    {
        let a = array_id.index as usize;
        let len = self.arrays[a].len;
        let dynamic_now = matches!(self.arrays[a].strategy, ArrayStrategy::Dynamic);
        if index.is_const() && !dynamic_now {
            let idx = index.q_c.to_u64();
            if idx >= len as u64 {
                return Err(RuntimeError::IndexOutOfBounds);
            }
            match &self.arrays[a].elements[idx as usize] {
                Some(e) => Ok(e.duplicate()),
                None => Err(RuntimeError::UninitializedRead),
            }
        } else {
            if !dynamic_now {
                self.promote(a, ctx);
            }
            let w = evaluator.add_witness_to_cs();
            let op = MemOp::Load { index: index.duplicate(), result: w };
            self.push_trace(a, op, ctx);
            Ok(Expression::from_witness(w))
        }
    }

    /// Registers the array's elements as the given fresh witnesses, as
    /// when an unconstrained call returns an array.
    pub fn map_array(&mut self, array_id: ArrayId, outputs: &Vec<Witness>, ctx: &SsaContext)
        requires
            old(self).wf_for(*ctx),
            ctx.valid_array(array_id),
            outputs@.len() == ctx.array_len(array_id),
            !(old(self).strategy_of(array_id) is Dynamic),
        ensures
            final(self).wf_for(*ctx),
            final(self).monotone_from(*old(self)),
            !(final(self).strategy_of(array_id) is Dynamic),
            forall|j: int|
                0 <= j < old(self).arrays@.len() && j != array_id.index as int ==> final(self).arrays@[j] == old(self).arrays@[j],
            forall|k: int|
                0 <= k < outputs@.len() ==> ((
                #[trigger] final(self).arrays@[array_id.index as int].elements@[k]) is Some
                    && final(self).arrays@[array_id.index as int].elements@[k].unwrap().is_witness_poly()
                    && final(self).arrays@[array_id.index as int].elements@[k].unwrap().linear_combinations@[0].witness
                    == outputs@[k]),
    {
        let a = array_id.index as usize;
        let mut elements: Vec<Option<Expression>> = Vec::new();
        let n = outputs.len();
        let mut k: usize = 0;
        while k < n
            invariant
                k <= n,
                n == outputs@.len(),
                elements@.len() == k,
                forall|m: int|
                    0 <= m < k ==> {
                        &&& (#[trigger] elements@[m]) is Some
                        &&& elements@[m].unwrap().is_witness_poly()
                        &&& elements@[m].unwrap().wf()
                        &&& elements@[m].unwrap().linear_combinations@[0].witness == outputs@[m]
                    },
            decreases n - k,
        {
            elements.push(Some(Expression::from_witness(outputs[k])));
            k += 1;
        }
        let heap = heap_at(&mut self.arrays, a);
        heap.elements = elements;
        heap.strategy = ArrayStrategy::Static;
    }

    /// Records a statically tracked element.
    fn set_element(&mut self, a: usize, idx: usize, value: Expression, ctx: &SsaContext)
        requires
            old(self).wf_for(*ctx),
            a < old(self).arrays@.len(),
            idx < old(self).arrays@[a as int].elements@.len(),
            !(old(self).arrays@[a as int].strategy is Dynamic),
            value.wf(),
        ensures
            final(self).wf_for(*ctx),
            final(self).monotone_from(*old(self)),
            final(self).arrays@[a as int].strategy is Static,
            final(self).arrays@[a as int].elements@[idx as int] is Some && final(self).arrays@[a as int].elements@[idx as int].unwrap().equiv(value),
            final(self).arrays@[a as int].elements@.len() == old(self).arrays@[a as int].elements@.len(),
            forall|j: int|
                0 <= j < old(self).arrays@[a as int].elements@.len() && j != idx as int
                    ==> #[trigger] final(self).arrays@[a as int].elements@[j] == old(self).arrays@[a as int].elements@[j],
            forall|j: int|
                0 <= j < old(self).arrays@.len() && j != a as int ==> final(self).arrays@[j] == old(self).arrays@[j],
    {
        let heap = heap_at(&mut self.arrays, a);
        heap.elements.set(idx, Some(value));
        heap.strategy = ArrayStrategy::Static;
    }

    /// Promotes an array to the dynamic strategy, materializing its
    /// retained static contents as buffered stores.
    fn promote(&mut self, a: usize, ctx: &SsaContext)
        requires
            old(self).wf_for(*ctx),
            a < old(self).arrays@.len(),
            !(old(self).arrays@[a as int].strategy is Dynamic),
        ensures
            final(self).wf_for(*ctx),
            final(self).monotone_from(*old(self)),
            final(self).arrays@[a as int].strategy is Dynamic,
            forall|j: int|
                0 <= j < old(self).arrays@.len() && j != a as int ==> final(self).arrays@[j] == old(self).arrays@[j],
    {
        let len = self.arrays[a].len;
        let mut trace: Vec<MemOp> = Vec::new();
        let mut k: usize = 0;
        while k < len as usize
            invariant
                self.wf_for(*ctx),
                a < self.arrays@.len(),
                len == self.arrays@[a as int].len,
                k <= len as usize,
                forall|m: int| 0 <= m < trace@.len() ==> (#[trigger] trace@[m]).wf(),
            decreases len as usize - k,
        {
            match &self.arrays[a].elements[k] {
                Some(e) => {
                    let idx_expr = Expression::constant(crate::field::FieldElement::from_u64(
                        k as u64,
                    ));
                    trace.push(MemOp::Store { index: idx_expr, value: e.duplicate() });
                },
                None => {},
            }
            k += 1;
        }
        let heap = heap_at(&mut self.arrays, a);
        heap.strategy = ArrayStrategy::Dynamic;
        heap.trace = trace;
    }

    /// Buffers one dynamic access.
    fn push_trace(&mut self, a: usize, op: MemOp, ctx: &SsaContext)
        requires
            old(self).wf_for(*ctx),
            a < old(self).arrays@.len(),
            op.wf(),
        ensures
            final(self).wf_for(*ctx),
            final(self).monotone_from(*old(self)),
            final(self).arrays@[a as int].strategy == old(self).arrays@[a as int].strategy,
            final(self).arrays@[a as int].elements@ == old(self).arrays@[a as int].elements@,
            final(self).arrays@[a as int].trace@ == old(self).arrays@[a as int].trace@.push(op),
            forall|j: int|
                0 <= j < old(self).arrays@.len() && j != a as int ==> final(self).arrays@[j] == old(self).arrays@[j],
    {
        let heap = heap_at(&mut self.arrays, a);
        heap.trace.push(op);
    }

    /// Emits the buffered dynamic-memory opcodes, batched: one memory
    /// block per promoted array, in array order.  Runs once per function,
    /// after block-level lowering, and consumes the memory model.
    pub fn flush(self, ctx: &SsaContext, evaluator: &mut Evaluator)
        requires
            self.wf_for(*ctx),
        ensures
            final(evaluator).opcodes@ == old(evaluator).opcodes@ + flush_ops(self.arrays@),
            final(evaluator).current_witness_index == old(evaluator).current_witness_index,
            final(evaluator).public_outputs@ == old(evaluator).public_outputs@,
    {
        let ghost all = self.arrays@;
        let ghost base_ops = evaluator.opcodes@;
        let ghost base_witness = evaluator.current_witness_index;
        let ghost base_public = evaluator.public_outputs@;
        let mut arrays = self.arrays;
        let mut k: usize = 0;
        let total = arrays.len();
        proof {
            assert(all.len() == total as int);
            assert(flush_ops(Seq::<ArrayHeap>::empty()) =~= Seq::<AcirOpcode>::empty());
            assert(evaluator.opcodes@ =~= base_ops + flush_ops(all.take(0)));
        }
        while arrays.len() > 0
            invariant
                all.len() <= usize::MAX,
                k + arrays@.len() == all.len(),
                arrays@ == all.skip(k as int),
                evaluator.opcodes@ == base_ops + flush_ops(all.take(k as int)),
                evaluator.current_witness_index == base_witness,
                evaluator.public_outputs@ == base_public,
            decreases arrays@.len(),
        {
            let heap = arrays.remove(0);
            proof {
                assert(heap == all[k as int]);
            }
            let is_dynamic = matches!(heap.strategy, ArrayStrategy::Dynamic);
            if is_dynamic {
                let op = AcirOpcode::MemoryBlock { array_id: heap.id, len: heap.len, trace: heap.trace };
                evaluator.push_opcode(op);
            }
            proof {
                lemma_flush_ops_push(all.take(k as int), all[k as int]);
                assert(all.take(k as int).push(all[k as int]) =~= all.take(k as int + 1));
                let s1 = seq![all[k as int]];
                assert(s1[0] == all[k as int]);
                assert(s1.drop_first() =~= Seq::<ArrayHeap>::empty());
                assert(flush_ops(Seq::<ArrayHeap>::empty()) == Seq::<AcirOpcode>::empty());
                if is_dynamic {
                    assert(flush_ops(s1) =~= seq![
                        AcirOpcode::MemoryBlock {
                            array_id: all[k as int].id,
                            len: all[k as int].len,
                            trace: all[k as int].trace,
                        },
                    ]);
                } else {
                    assert(flush_ops(s1) =~= Seq::<AcirOpcode>::empty());
                }
                assert(evaluator.opcodes@ =~= base_ops + flush_ops(all.take(k as int + 1)));
                assert(arrays@ =~= all.skip(k as int + 1));
            }
            k += 1;
        }
        proof {
            assert(all.take(k as int) =~= all);
        }
    }
}

impl MemOp {
    pub open spec fn wf(self) -> bool {
        match self {
            MemOp::Store { index, value } => index.wf() && value.wf(),
            MemOp::Load { index, result } => index.wf(),
        }
    }
}

} // verus!
