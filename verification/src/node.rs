//! The SSA form that the lowering pass consumes: value nodes, instructions,
//! basic blocks, functions and the surrounding context.

use vstd::prelude::*;

use crate::field::FieldElement;

verus! {

/// Identifies one SSA value inside its defining function.
#[derive(Clone, Copy, Debug, PartialEq, Eq, Structural)]
pub struct NodeId {
    pub index: u32,
}

/// Identifies one array of the memory model.
#[derive(Clone, Copy, Debug, PartialEq, Eq, Structural)]
pub struct ArrayId {
    pub index: u32,
}

/// Identifies one SSA function of the program.
#[derive(Clone, Copy, Debug, PartialEq, Eq, Structural)]
pub struct FunctionId {
    pub index: u32,
}

/// Identifies one basic block of a function.
#[derive(Clone, Copy, Debug, PartialEq, Eq, Structural)]
pub struct BlockId {
    pub index: u32,
}

/// The declared result type of an instruction.
#[derive(Clone, Copy, Debug, PartialEq, Eq, Structural)]
pub enum ObjectType {
    NativeField,
    Boolean,
    Unsigned { bit_size: u32 },
}

/// What an SSA value node denotes.
#[derive(Clone, Copy, Debug, PartialEq, Eq, Structural)]
pub enum NodeKind {
    /// A compile-time field constant.
    Constant { value: FieldElement },
    /// A scalar whose value only the witness vector knows.
    Variable,
    /// An array handle.
    Array { array_id: ArrayId },
    /// A function handle.
    Function { function_id: FunctionId },
}

/// A binary operator the algebraic lowering supports.
#[derive(Clone, Copy, Debug, PartialEq, Eq, Structural)]
pub enum BinaryOp {
    Add,
    Sub,
    Mul,
}

/// A named builtin reachable through an intrinsic instruction.
#[derive(Clone, Copy, Debug, PartialEq, Eq, Structural)]
pub enum BuiltinOpcode {
    /// Display intrinsic; `show_output` is threaded in at lowering time.
    Println { is_string_output: bool, show_output: bool },
    /// Decomposes its input into range-constrained bits.
    ToBits { bit_size: u32 },
}

/// A tagged SSA operation.  The control-flow tags (`Jne`, `Jeq`, `Jmp`,
/// `Phi`, `Call`, `Res`) must have been removed by earlier passes; their
/// reaching the lowering core is an invariant violation.
#[derive(Clone, Debug, PartialEq, Eq)]
pub enum Operation {
    Binary { operator: BinaryOp, lhs: NodeId, rhs: NodeId },
    /// Asserts that the operand's lowered expression equals zero.
    Constrain { value: NodeId },
    Not { value: NodeId },
    Cast { value: NodeId },
    Truncate { value: NodeId, bit_size: u32, max_bit_size: u32 },
    Intrinsic { opcode: BuiltinOpcode, arguments: Vec<NodeId> },
    Return { values: Vec<NodeId> },
    Cond { condition: NodeId, val_true: NodeId, val_false: NodeId },
    Load { array_id: ArrayId, index: NodeId },
    Store { array_id: ArrayId, index: NodeId, value: NodeId },
    UnsafeCall {
        func: NodeId,
        arguments: Vec<NodeId>,
        returned_values: Vec<NodeId>,
        predicate: Option<NodeId>,
    },
    Nop,
    Jne,
    Jeq,
    Jmp,
    Phi,
    Call,
    Res,
}

impl Operation {
    /// Control-flow tags that must never reach the lowering core.
    pub open spec fn is_fatal_tag(self) -> bool {
        self is Jne || self is Jeq || self is Jmp || self is Phi || self is Call || self is Res
    }
}

/// One SSA instruction: an operation together with its result node and type.
#[derive(Clone, Debug, PartialEq, Eq)]
pub struct Instruction {
    pub id: NodeId,
    pub operation: Operation,
    pub res_type: ObjectType,
}

/// A basic block: an ordered list of instruction indices and the
/// fall-through successor.
#[derive(Clone, Debug, PartialEq, Eq)]
pub struct BasicBlock {
    pub instructions: Vec<u32>,
    pub left: Option<BlockId>,
}

/// The runtime kind of an SSA function.
#[derive(Clone, Copy, Debug, PartialEq, Eq, Structural)]
pub enum RuntimeType {
    /// Lowered into the constraint system.
    Acir,
    /// Compiled into unconstrained bytecode.
    Brillig,
    /// Pure oracle; may not be called from constrained context.
    Oracle,
}

/// One SSA function: its runtime kind, parameter nodes and body.
#[derive(Clone, Debug, PartialEq, Eq)]
pub struct SsaFunction {
    pub id: FunctionId,
    pub kind: RuntimeType,
    pub arguments: Vec<NodeId>,
    pub body: Vec<Instruction>,
}

/// A whole SSA program: its functions and the designated entry function.
#[derive(Clone, Debug, PartialEq, Eq)]
pub struct Ssa {
    pub functions: Vec<SsaFunction>,
    pub main_id: FunctionId,
}

impl Ssa {
    /// Functions are stored at the index their id names.
    pub open spec fn wf(self) -> bool {
        &&& self.functions@.len() <= 0xFFFF
        &&& forall|i: int|
            0 <= i < self.functions@.len() ==> (#[trigger] self.functions@[i]).id.index == i
    }
}

/// One array known to the context: only its length matters here.
#[derive(Clone, Copy, Debug, PartialEq, Eq, Structural)]
pub struct ArrayInfo {
    pub len: u32,
}

/// The SSA context the lowering pass reads: value nodes, instructions,
/// blocks, arrays and callee functions.
#[derive(Clone, Debug, PartialEq, Eq)]
pub struct SsaContext {
    pub nodes: Vec<NodeKind>,
    pub instructions: Vec<Instruction>,
    pub blocks: Vec<BasicBlock>,
    pub arrays: Vec<ArrayInfo>,
    pub functions: Vec<SsaFunction>,
}

impl SsaContext {
    pub open spec fn valid_node(self, id: NodeId) -> bool {
        id.index < self.nodes@.len()
    }

    /// A node the Internal Variable Cache may resolve: a scalar.
    pub open spec fn scalar_node(self, id: NodeId) -> bool {
        &&& self.valid_node(id)
        &&& (self.nodes@[id.index as int] is Constant || self.nodes@[id.index as int] is Variable)
    }

    pub open spec fn valid_array(self, a: ArrayId) -> bool {
        a.index < self.arrays@.len()
    }

    pub open spec fn array_len(self, a: ArrayId) -> int {
        self.arrays@[a.index as int].len as int
    }

    /// Whether a node denotes an array, and which.
    pub open spec fn spec_deref(self, id: NodeId) -> Option<ArrayId> {
        if self.valid_node(id) {
            match self.nodes@[id.index as int] {
                NodeKind::Array { array_id } => Some(array_id),
                _ => None,
            }
        } else {
            None
        }
    }

    /// Whether a node is the constant zero: the statically-false predicate.
    pub open spec fn is_zero_const(self, id: NodeId) -> bool {
        &&& self.valid_node(id)
        &&& match self.nodes@[id.index as int] {
            NodeKind::Constant { value } => value@ == 0,
            _ => false,
        }
    }

    /// A value an instruction consumes or returns: a scalar or an array.
    pub open spec fn scalar_or_array_node(self, id: NodeId) -> bool {
        self.scalar_node(id) || (self.spec_deref(id) is Some && self.valid_array(
            self.spec_deref(id).unwrap(),
        ))
    }

    /// Well-formedness of one operation's operands.
    pub open spec fn operation_wf(self, op: Operation) -> bool {
        match op {
            Operation::Binary { operator, lhs, rhs } => self.scalar_node(lhs) && self.scalar_node(
                rhs,
            ),
            Operation::Constrain { value } => self.scalar_node(value),
            Operation::Not { value } => self.scalar_node(value),
            Operation::Cast { value } => self.scalar_node(value),
            Operation::Truncate { value, bit_size, max_bit_size } => {
                &&& self.scalar_node(value)
                &&& 0 < bit_size
                &&& bit_size < max_bit_size
                &&& max_bit_size <= 63
            },
            Operation::Intrinsic { opcode, arguments } => {
                &&& arguments@.len() <= 0xFF
                &&& forall|i: int|
                    0 <= i < arguments@.len() ==> self.scalar_node(#[trigger] arguments@[i])
            },
            Operation::Return { values } => {
                &&& values@.len() <= 0xFF
                &&& forall|i: int|
                    0 <= i < values@.len() ==> self.scalar_or_array_node(#[trigger] values@[i])
            },
            Operation::Cond { condition, val_true, val_false } => {
                &&& self.scalar_node(condition)
                &&& self.scalar_node(val_true)
                &&& self.scalar_node(val_false)
            },
            Operation::Load { array_id, index } => {
                &&& self.valid_array(array_id)
                &&& self.scalar_node(index)
            },
            Operation::Store { array_id, index, value } => {
                &&& self.valid_array(array_id)
                &&& self.scalar_node(index)
                &&& self.scalar_node(value)
            },
            Operation::UnsafeCall { func, arguments, returned_values, predicate } => {
                &&& self.valid_node(func)
                &&& self.nodes@[func.index as int] is Function
                &&& {
                    let fid = self.nodes@[func.index as int]->Function_function_id;
                    &&& fid.index < self.functions@.len()
                    &&& self.functions@[fid.index as int].id == fid
                    &&& self.functions@[fid.index as int].kind != RuntimeType::Acir
                    &&& self.functions@[fid.index as int].arguments@.len() == arguments@.len()
                    &&& forall|i: int|
                        0 <= i < self.functions@[fid.index as int].arguments@.len()
                            ==> self.valid_node(
                            #[trigger] self.functions@[fid.index as int].arguments@[i],
                        )
                    // An array argument is wired to an array parameter,
                    // and a scalar to a scalar.
                    &&& forall|i: int|
                        0 <= i < arguments@.len() ==> ((#[trigger] self.spec_deref(
                            arguments@[i],
                        )) is Some <==> self.spec_deref(
                            self.functions@[fid.index as int].arguments@[i],
                        ) is Some)
                }
                &&& arguments@.len() <= 0xFF
                &&& returned_values@.len() <= 0xFF
                &&& forall|i: int|
                    0 <= i < arguments@.len() ==> self.scalar_or_array_node(
                        #[trigger] arguments@[i],
                    )
                &&& forall|i: int|
                    0 <= i < returned_values@.len() ==> self.scalar_or_array_node(
                        #[trigger] returned_values@[i],
                    )
                &&& match predicate {
                    Some(p) => self.scalar_node(p),
                    None => true,
                }
            },
            Operation::Nop => true,
            _ => false,
        }
    }

    /// Well-formedness of one instruction as the dispatcher requires it:
    /// operands valid and no control-flow tag left over.
    pub open spec fn instruction_wf(self, ins: Instruction) -> bool {
        &&& self.valid_node(ins.id)
        &&& !ins.operation.is_fatal_tag()
        &&& self.operation_wf(ins.operation)
        // A complement is only declared over a bounded bit width.
        &&& (ins.operation is Not ==> match ins.res_type {
            ObjectType::Unsigned { bit_size } => 1 <= bit_size <= 63,
            ObjectType::Boolean => true,
            ObjectType::NativeField => false,
        })
    }

    /// Whether a node denotes an array, and which.
    pub fn deref(&self, id: NodeId) -> (r: Option<ArrayId>)
        requires
            self.valid_node(id),
        ensures
            r == self.spec_deref(id),
    {
        match self.nodes[id.index as usize] {
            NodeKind::Array { array_id } => Some(array_id),
            _ => None,
        }
    }

    /// Every constant node holds a reduced field element.
    pub open spec fn nodes_wf(self) -> bool {
        forall|i: int|
            0 <= i < self.nodes@.len() ==> match #[trigger] self.nodes@[i] {
                NodeKind::Constant { value } => value.wf(),
                _ => true,
            }
    }

    /// Well-formedness of the whole context.  The size caps bound how
    /// many witnesses a single instruction can allocate, so that one
    /// instruction provably stays within the allocator's budget under
    /// the witness ceiling.
    pub open spec fn wf(self) -> bool {
        &&& self.nodes_wf()
        &&& self.nodes@.len() <= 0xFFFF_FFFF
        &&& self.arrays@.len() <= 0xFFFF
        &&& forall|i: int| 0 <= i < self.arrays@.len() ==> (#[trigger] self.arrays@[i]).len <= 0xFFFF
        &&& forall|i: int|
            0 <= i < self.instructions@.len() ==> self.instruction_wf(
                #[trigger] self.instructions@[i],
            )
        &&& forall|b: int|
            0 <= b < self.blocks@.len() ==> {
                &&& forall|j: int|
                    0 <= j < (#[trigger] self.blocks@[b]).instructions@.len() ==> (
                    #[trigger] self.blocks@[b].instructions@[j]) < self.instructions@.len()
                // Control flow is already linearized: the fall-through
                // successor only ever points forward, so the block walk
                // terminates.
                &&& match self.blocks@[b].left {
                    Some(next) => b < next.index < self.blocks@.len(),
                    None => true,
                }
            }
    }
}

} // verus!
