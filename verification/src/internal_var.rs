//! The lowered form of an SSA value, and the cache that guarantees each
//! value is lowered at most once per pass.

use vstd::prelude::*;

use crate::evaluator::Evaluator;
use crate::expression::Expression;
use crate::node::NodeId;
use crate::node::NodeKind;
use crate::node::SsaContext;

verus! {

/// The algebraic representation of one SSA value: an expression over
/// witnesses, tagged with the node it stands for once it is cached.
#[derive(Clone, Debug, PartialEq, Eq)]
#[verifier::ext_equal]
pub struct InternalVar {
    pub expression: Expression,
    pub id: Option<NodeId>,
}

impl InternalVar {
    pub open spec fn wf(self) -> bool {
        self.expression.wf()
    }

    /// The same lowered value: the same polynomial for the same node.
    pub open spec fn equiv(self, other: InternalVar) -> bool {
        &&& self.expression.equiv(other.expression)
        &&& self.id == other.id
    }

    pub fn from_expression(expression: Expression) -> (r: InternalVar)
        ensures
            r.expression == expression,
            r.id is None,
    {
        InternalVar { expression, id: None }
    }

    /// Re-tags the variable with the node it now stands for.
    pub fn set_id(&mut self, id: NodeId)
        ensures
            final(self).expression == old(self).expression,
            final(self).id == Some(id),
    {
        self.id = Some(id);
    }
}

/// Memoizes the SSA-value to algebraic-representation mapping: exactly one
/// entry per node per pass, indexed by the node's id.
pub struct InternalVarCache {
    pub inner: Vec<Option<InternalVar>>,
}

impl InternalVarCache {
    /// The cached entry for a node, if any.
    pub open spec fn lookup(self, id: NodeId) -> Option<InternalVar> {
        self.inner@[id.index as int]
    }

    /// The cache covers every node of the context, and holds only
    /// well-formed entries, each tagged with the node whose slot it fills.
    pub open spec fn wf_for(self, ctx: SsaContext) -> bool {
        &&& self.inner@.len() == ctx.nodes@.len()
        &&& self.inner@.len() <= 0xFFFF_FFFF
        &&& forall|i: int|
            0 <= i < self.inner@.len() ==> match #[trigger] self.inner@[i] {
                Some(v) => v.wf() && v.id == Some(NodeId { index: i as u32 }),
                None => true,
            }
    }

    /// An empty cache with one slot per node of the context.
    pub fn new(ctx: &SsaContext) -> (r: InternalVarCache)
        requires
            ctx.nodes@.len() <= 0xFFFF_FFFF,
        ensures
            r.wf_for(*ctx),
            forall|i: int| 0 <= i < r.inner@.len() ==> #[trigger] r.inner@[i] is None,
    {
        let mut inner: Vec<Option<InternalVar>> = Vec::new();
        let n = ctx.nodes.len();
        let mut i: usize = 0;
        while i < n
            invariant
                i <= n,
                inner@.len() == i,
                forall|j: int| 0 <= j < i ==> #[trigger] inner@[j] is None,
            decreases n - i,
        {
            inner.push(None);
            i += 1;
        }
        InternalVarCache { inner }
    }

    /// Resolves a scalar node to its Internal Variable: deterministic, at
    /// most one computation per node per pass.  A repeat request returns
    /// the identical cached value and changes nothing — in particular it
    /// allocates no witness after the first request.
    pub fn get_or_compute_internal_var(
        &mut self,
        id: NodeId,
        ctx: &SsaContext,
        evaluator: &mut Evaluator,
    ) -> (r: InternalVar)
        requires
            ctx.scalar_node(id),
            ctx.nodes_wf(),
            old(self).wf_for(*ctx),
            old(evaluator).current_witness_index < u64::MAX,
        ensures
            r.wf(),
            r.id == Some(id),
            final(self).wf_for(*ctx),
            final(self).lookup(id) is Some && final(self).lookup(id).unwrap().equiv(r),
            forall|j: int|
                0 <= j < old(self).inner@.len() && j != id.index as int ==> final(self).inner@[j]
                    == old(self).inner@[j],
            // Idempotence: a repeat request returns the cached value and
            // leaves the cache and the allocator exactly as they were.
            old(self).lookup(id) is Some ==> {
                &&& r.equiv(old(self).lookup(id).unwrap())
                &&& final(self).inner@ == old(self).inner@
                &&& *final(evaluator) == *old(evaluator)
            },
            // A constant lowers to the constant polynomial, allocating
            // nothing.
            old(self).lookup(id) is None ==> (ctx.nodes@[id.index as int]
                matches NodeKind::Constant { value } ==> {
                &&& r.expression.degree() == 0
                &&& r.expression.q_c == value
                &&& *final(evaluator) == *old(evaluator)
            }),
            // A variable lowers to one fresh witness.
            old(self).lookup(id) is None && ctx.nodes@[id.index as int] is Variable ==> {
                &&& r.expression.is_witness_poly()
                &&& r.expression.linear_combinations@[0].witness.index == old(evaluator).current_witness_index
                &&& final(evaluator).current_witness_index == old(evaluator).current_witness_index
                    + 1
            },
            // The allocator only ever moves forward, and no opcode is
            // emitted on behalf of a cache fill.
            final(evaluator).current_witness_index >= old(evaluator).current_witness_index,
            final(evaluator).current_witness_index <= old(evaluator).current_witness_index + 1,
            final(evaluator).opcodes@ == old(evaluator).opcodes@,
            final(evaluator).public_outputs@ == old(evaluator).public_outputs@,
    {
        let idx = id.index as usize;
        match &self.inner[idx] {
            Some(v) => InternalVar { expression: v.expression.duplicate(), id: v.id },
            None => {
                let kind = self.node_kind(id, ctx);
                let expression = match kind {
                    NodeKind::Constant { value } => Expression::constant(value),
                    _ => {
                        let w = evaluator.add_witness_to_cs();
                        Expression::from_witness(w)
                    },
                };
                let r = InternalVar { expression, id: Some(id) };
                let entry = InternalVar { expression: r.expression.duplicate(), id: r.id };
                self.inner.set(idx, Some(entry));
                r
            },
        }
    }

    /// Reads a node's kind out of the context.
    fn node_kind(&self, id: NodeId, ctx: &SsaContext) -> (k: NodeKind)
        requires
            ctx.valid_node(id),
        ensures
            k == ctx.nodes@[id.index as int],
    {
        ctx.nodes[id.index as usize]
    }

    /// Binds or overwrites the cached entry for the variable's node.
    pub fn update(&mut self, var: InternalVar, ctx: &SsaContext)
        requires
            old(self).wf_for(*ctx),
            var.wf(),
            var.id matches Some(id) && id.index < ctx.nodes@.len(),
            ctx.nodes@.len() <= 0xFFFF_FFFF,
        ensures
            final(self).wf_for(*ctx),
            final(self).lookup(var.id.unwrap()) == Some(var),
            forall|j: int|
                0 <= j < old(self).inner@.len() && j != var.id.unwrap().index as int
                    ==> final(self).inner@[j] == old(self).inner@[j],
    {
        let idx = var.id.unwrap().index as usize;
        self.inner.set(idx, Some(var));
    }
}

} // verus!
