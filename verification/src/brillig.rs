//! The bytecode generator for unconstrained functions, and the
//! whole-program store of their compiled artifacts.

use vstd::prelude::*;

use crate::node::FunctionId;
use crate::node::Instruction;
use crate::node::Operation;
use crate::node::RuntimeType;
use crate::node::Ssa;
use crate::node::SsaFunction;
use crate::opcode::BrilligOpcode;

verus! {

/// An immutable bytecode unit, one per unconstrained function, compiled
/// once and owned by the whole-program compilation context.
#[derive(Clone, Debug, PartialEq, Eq)]
pub struct BrilligArtifact {
    pub byte_code: Vec<BrilligOpcode>,
}

/// The bytecode one SSA instruction compiles to.  Only value-computing
/// operations with register operands — binary operations and casts —
/// carry into the register machine; every other operation contributes
/// no step of its own.
pub open spec fn compile_step(ins: Instruction) -> Seq<BrilligOpcode> {
    match ins.operation {
        Operation::Binary { operator, lhs, rhs } => seq![
            BrilligOpcode::BinaryFieldOp {
                operator,
                destination: ins.id.index,
                lhs: lhs.index,
                rhs: rhs.index,
            },
        ],
        Operation::Cast { value } => seq![
            BrilligOpcode::Mov { destination: ins.id.index, source: value.index },
        ],
        _ => Seq::empty(),
    }
}

/// The bytecode of a whole body, instruction by instruction.
pub open spec fn compile_steps(body: Seq<Instruction>) -> Seq<BrilligOpcode>
    decreases body.len(),
{
    if body.len() == 0 {
        Seq::empty()
    } else {
        compile_step(body[0]) + compile_steps(body.drop_first())
    }
}

/// What compiling a function produces: its body's bytecode, ended by a
/// stop instruction.  A pure function of the SSA body.
pub open spec fn compile_code(body: Seq<Instruction>) -> Seq<BrilligOpcode> {
    compile_steps(body) + seq![BrilligOpcode::Stop]
}

/// Compiling one more instruction appends its step.
proof fn lemma_compile_steps_push(body: Seq<Instruction>, ins: Instruction)
    ensures
        compile_steps(body.push(ins)) == compile_steps(body) + compile_step(ins),
    decreases body.len(),
{
    assert(compile_steps(Seq::<Instruction>::empty()) == Seq::<BrilligOpcode>::empty());
    if body.len() == 0 {
        assert(body.push(ins)[0] == ins);
        assert(body.push(ins).drop_first() =~= Seq::<Instruction>::empty());
        assert(body =~= Seq::<Instruction>::empty());
        assert(compile_steps(body.push(ins)) =~= compile_steps(body) + compile_step(ins));
    } else {
        assert(body.push(ins)[0] == body[0]);
        assert(body.push(ins).drop_first() =~= body.drop_first().push(ins));
        lemma_compile_steps_push(body.drop_first(), ins);
        assert(compile_steps(body.push(ins)) =~= compile_steps(body) + compile_step(ins));
    }
}

/// The register-machine compiler for unconstrained functions.
pub struct BrilligGen {}

impl BrilligGen {
    /// Compiles a function's body into bytecode: a pure function of the
    /// SSA body, so recompiling the same body always yields the same
    /// artifact.
    pub fn compile(func: &SsaFunction) -> (r: BrilligArtifact)
        requires
            func.body@.len() <= 0xFFFF,
        ensures
            r.byte_code@ == compile_code(func.body@),
    {
        let mut byte_code: Vec<BrilligOpcode> = Vec::new();
        let n = func.body.len();
        let mut i: usize = 0;
        proof {
            assert(compile_steps(func.body@.take(0)) =~= Seq::<BrilligOpcode>::empty());
            assert(byte_code@ =~= compile_steps(func.body@.take(0)));
        }
        while i < n
            invariant
                i <= n,
                n == func.body@.len(),
                byte_code@ == compile_steps(func.body@.take(i as int)),
            decreases n - i,
        {
            let ins = &func.body[i];
            match &ins.operation {
                Operation::Binary { operator, lhs, rhs } => {
                    byte_code.push(
                        BrilligOpcode::BinaryFieldOp {
                            operator: *operator,
                            destination: ins.id.index,
                            lhs: lhs.index,
                            rhs: rhs.index,
                        },
                    );
                },
                Operation::Cast { value } => {
                    byte_code.push(
                        BrilligOpcode::Mov { destination: ins.id.index, source: value.index },
                    );
                },
                _ => {},
            }
            proof {
                lemma_compile_steps_push(func.body@.take(i as int), func.body@[i as int]);
                assert(func.body@.take(i as int).push(func.body@[i as int]) =~= func.body@.take(
                    i as int + 1,
                ));
                assert(byte_code@ =~= compile_steps(func.body@.take(i as int + 1)));
            }
            i += 1;
        }
        byte_code.push(BrilligOpcode::Stop);
        proof {
            assert(func.body@.take(n as int) =~= func.body@);
            assert(byte_code@ =~= compile_code(func.body@));
        }
        BrilligArtifact { byte_code }
    }
}

/// The whole-program store of compiled artifacts, keyed by function id.
pub struct Brillig {
    pub artifacts: Vec<Option<BrilligArtifact>>,
}

impl Brillig {
    /// Whether an artifact is stored under the given key.
    pub open spec fn has_artifact(self, id: FunctionId) -> bool {
        id.index < self.artifacts@.len() && self.artifacts@[id.index as int] is Some
    }

    /// An empty store with one slot per function of the program.
    pub fn new(num_functions: usize) -> (r: Brillig)
        ensures
            r.artifacts@.len() == num_functions,
            forall|i: int| 0 <= i < num_functions ==> #[trigger] r.artifacts@[i] is None,
    {
        let mut artifacts: Vec<Option<BrilligArtifact>> = Vec::new();
        let mut i: usize = 0;
        while i < num_functions
            invariant
                i <= num_functions,
                artifacts@.len() == i,
                forall|j: int| 0 <= j < i ==> #[trigger] artifacts@[j] is None,
            decreases num_functions - i,
        {
            artifacts.push(None);
            i += 1;
        }
        Brillig { artifacts }
    }

    /// Compiles a function into bytecode and stores the artifact under
    /// the function's id.
    pub fn compile(&mut self, func: &SsaFunction)
        requires
            func.id.index < old(self).artifacts@.len(),
            func.body@.len() <= 0xFFFF,
        ensures
            final(self).artifacts@.len() == old(self).artifacts@.len(),
            final(self).artifacts@[func.id.index as int] is Some && final(self).artifacts@[func.id.index as int].unwrap().byte_code@ == compile_code(func.body@),
            forall|j: int|
                0 <= j < old(self).artifacts@.len() && j != func.id.index as int ==> final(self).artifacts@[j] == old(self).artifacts@[j],
    {
        let obj = BrilligGen::compile(func);
        self.artifacts.set(func.id.index as usize, Some(obj));
    }

    /// The artifact stored under a key; indexing an unregistered key is a
    /// programming error, so the key is required to be present.
    pub fn artifact(&self, id: FunctionId) -> (r: &BrilligArtifact)
        requires
            self.has_artifact(id),
        ensures
            *r == self.artifacts@[id.index as int].unwrap(),
    {
        self.artifacts[id.index as usize].as_ref().unwrap()
    }
}

impl Ssa {
    /// Compiles every unconstrained function of the program, excluding
    /// the designated entry function: the entry is never stored, so no
    /// call site can ever link it as a callee.
    pub fn to_brillig(&self) -> (r: Brillig)
        requires
            self.wf(),
            forall|i: int|
                0 <= i < self.functions@.len() ==> (#[trigger] self.functions@[i]).body@.len()
                    <= 0xFFFF,
        ensures
            r.artifacts@.len() == self.functions@.len(),
            // An artifact is stored exactly for the unconstrained
            // functions other than the entry.
            forall|i: int|
                0 <= i < self.functions@.len() ==> (#[trigger] r.artifacts@[i] is Some <==> (
                self.functions@[i].kind is Brillig && i != self.main_id.index as int)),
            // Each stored artifact is the compilation of its function's
            // body.
            forall|i: int|
                0 <= i < self.functions@.len() && (#[trigger] r.artifacts@[i]) is Some
                    ==> r.artifacts@[i].unwrap().byte_code@ == compile_code(
                    self.functions@[i].body@,
                ),
            // The entry function never appears as a key.
            !r.has_artifact(self.main_id),
    {
        let mut brillig = Brillig::new(self.functions.len());
        let n = self.functions.len();
        let mut i: usize = 0;
        while i < n
            invariant
                self.wf(),
                forall|k: int|
                    0 <= k < self.functions@.len() ==> (#[trigger] self.functions@[k]).body@.len()
                        <= 0xFFFF,
                i <= n,
                n == self.functions@.len(),
                brillig.artifacts@.len() == n,
                forall|j: int|
                    0 <= j < i ==> (#[trigger] brillig.artifacts@[j] is Some <==> (
                    self.functions@[j].kind is Brillig && j != self.main_id.index as int)),
                forall|j: int|
                    0 <= j < i && (#[trigger] brillig.artifacts@[j]) is Some
                        ==> brillig.artifacts@[j].unwrap().byte_code@ == compile_code(
                        self.functions@[j].body@,
                    ),
                forall|j: int| i <= j < n ==> #[trigger] brillig.artifacts@[j] is None,
            decreases n - i,
        {
            let f = &self.functions[i];
            let is_brillig = matches!(f.kind, RuntimeType::Brillig);
            if is_brillig && f.id.index != self.main_id.index {
                brillig.compile(f);
            }
            i += 1;
        }
        brillig
    }
}

} // verus!
