use acir_lowering::acir_gen::Acir;
use acir_lowering::brillig::Brillig;
use acir_lowering::evaluator::Evaluator;
use acir_lowering::field::FieldElement;
use acir_lowering::node::ArrayId;
use acir_lowering::node::ArrayInfo;
use acir_lowering::node::BasicBlock;
use acir_lowering::node::BuiltinOpcode;
use acir_lowering::node::BinaryOp;
use acir_lowering::node::BlockId;
use acir_lowering::node::FunctionId;
use acir_lowering::node::Instruction;
use acir_lowering::node::NodeId;
use acir_lowering::node::NodeKind;
use acir_lowering::node::ObjectType;
use acir_lowering::node::Operation;
use acir_lowering::node::RuntimeType;
use acir_lowering::node::SsaContext;
use acir_lowering::node::Ssa;
use acir_lowering::node::SsaFunction;
use acir_lowering::opcode::AcirOpcode;
use acir_lowering::opcode::BrilligInput;
use acir_lowering::opcode::BrilligOutput;

fn node(i: u32) -> NodeId {
    NodeId { index: i }
}

fn constant_node(v: u64) -> NodeKind {
    NodeKind::Constant { value: FieldElement::from_u64(v) }
}

fn empty_ctx() -> SsaContext {
    SsaContext {
        nodes: Vec::new(),
        instructions: Vec::new(),
        blocks: Vec::new(),
        arrays: Vec::new(),
        functions: Vec::new(),
    }
}

/// Scenario: `f(x) = x + 1` over one field parameter lowers to one
/// allocated parameter witness, one arithmetic combination folded into
/// the return wiring, and no array or bytecode opcodes.
#[test]
fn scenario_one_parameter_increment() {
    let mut ctx = empty_ctx();
    ctx.nodes = vec![
        NodeKind::Variable,   // x
        constant_node(1),     // 1
        NodeKind::Variable,   // x + 1
        NodeKind::Variable,   // id of the return instruction
    ];
    ctx.instructions = vec![
        Instruction {
            id: node(2),
            operation: Operation::Binary { operator: BinaryOp::Add, lhs: node(0), rhs: node(1) },
            res_type: ObjectType::NativeField,
        },
        Instruction {
            id: node(3),
            operation: Operation::Return { values: vec![node(2)] },
            res_type: ObjectType::NativeField,
        },
    ];
    ctx.blocks = vec![BasicBlock { instructions: vec![0, 1], left: None }];

    let acir = Acir::new(&ctx);
    let brillig = Brillig::new(0);
    let mut evaluator = Evaluator::new();
    let result = acir.acir_gen(BlockId { index: 0 }, &brillig, &mut evaluator, &ctx, false);
    assert!(result.is_ok());

    // One parameter witness and one output witness.
    assert_eq!(evaluator.current_witness_index, 2);
    assert_eq!(evaluator.public_outputs.len(), 1);
    // Exactly one arithmetic combination, no memory or bytecode opcode.
    assert_eq!(evaluator.opcodes.len(), 1);
    assert!(matches!(evaluator.opcodes[0], AcirOpcode::Arithmetic(_)));
}

/// Re-running lowering on the same SSA function from fresh state yields
/// structurally identical opcodes and witness counts.
#[test]
fn determinism_fresh_state_identical_output() {
    let run = || {
        let mut ctx = empty_ctx();
        ctx.nodes = vec![
            NodeKind::Variable,
            constant_node(1),
            NodeKind::Variable,
            NodeKind::Variable,
        ];
        ctx.instructions = vec![
            Instruction {
                id: node(2),
                operation: Operation::Binary {
                    operator: BinaryOp::Add,
                    lhs: node(0),
                    rhs: node(1),
                },
                res_type: ObjectType::NativeField,
            },
            Instruction {
                id: node(3),
                operation: Operation::Return { values: vec![node(2)] },
                res_type: ObjectType::NativeField,
            },
        ];
        ctx.blocks = vec![BasicBlock { instructions: vec![0, 1], left: None }];
        let acir = Acir::new(&ctx);
        let brillig = Brillig::new(0);
        let mut evaluator = Evaluator::new();
        acir.acir_gen(BlockId { index: 0 }, &brillig, &mut evaluator, &ctx, false).unwrap();
        evaluator
    };
    let first = run();
    let second = run();
    assert_eq!(first.opcodes, second.opcodes);
    assert_eq!(first.current_witness_index, second.current_witness_index);
    assert_eq!(first.public_outputs, second.public_outputs);
}

fn store_instruction(id: u32, array: u32, index_node: u32, value_node: u32) -> Instruction {
    Instruction {
        id: node(id),
        operation: Operation::Store {
            array_id: ArrayId { index: array },
            index: node(index_node),
            value: node(value_node),
        },
        res_type: ObjectType::NativeField,
    }
}

/// Scenario: storing three constant-indexed values into a length-3
/// array, then loading index 1, uses the static strategy — no dynamic
/// memory opcode — and returns the value stored at index 1.
#[test]
fn scenario_static_array_constant_accesses() {
    let mut ctx = empty_ctx();
    ctx.nodes = vec![
        NodeKind::Array { array_id: ArrayId { index: 0 } }, // 0
        constant_node(0),                                   // 1
        constant_node(1),                                   // 2
        constant_node(2),                                   // 3
        constant_node(10),                                  // 4
        constant_node(20),                                  // 5
        constant_node(30),                                  // 6
        NodeKind::Variable,                                 // 7: loaded value
        NodeKind::Variable,                                 // 8: return id
    ];
    ctx.arrays = vec![ArrayInfo { len: 3 }];
    ctx.instructions = vec![
        store_instruction(1, 0, 1, 4),
        store_instruction(2, 0, 2, 5),
        store_instruction(3, 0, 3, 6),
        Instruction {
            id: node(7),
            operation: Operation::Load { array_id: ArrayId { index: 0 }, index: node(2) },
            res_type: ObjectType::NativeField,
        },
        Instruction {
            id: node(8),
            operation: Operation::Return { values: vec![node(7)] },
            res_type: ObjectType::NativeField,
        },
    ];
    ctx.blocks = vec![BasicBlock { instructions: vec![0, 1, 2, 3, 4], left: None }];

    let acir = Acir::new(&ctx);
    let brillig = Brillig::new(0);
    let mut evaluator = Evaluator::new();
    acir.acir_gen(BlockId { index: 0 }, &brillig, &mut evaluator, &ctx, false).unwrap();

    // No dynamic-memory opcode anywhere.
    assert!(
        evaluator
            .opcodes
            .iter()
            .all(|op| !matches!(op, AcirOpcode::MemoryBlock { .. }))
    );
    // The returned value is the constant 20 stored at index 1: wiring a
    // constant to the output pins it with one arithmetic opcode whose
    // constant term is 20.
    assert_eq!(evaluator.public_outputs.len(), 1);
    match &evaluator.opcodes[0] {
        AcirOpcode::Arithmetic(e) => {
            assert_eq!(e.q_c, FieldElement::from_u64(20));
        }
        other => panic!("expected an arithmetic opcode, got {:?}", other),
    }
}

/// Scenario: the same array, later indexed by a value derived from a
/// parameter, lowers using the dynamic strategy; the prior constant
/// accesses stay represented exactly once each.
#[test]
fn scenario_array_promotes_once_on_symbolic_access() {
    let mut ctx = empty_ctx();
    ctx.nodes = vec![
        NodeKind::Array { array_id: ArrayId { index: 0 } }, // 0
        constant_node(0),                                   // 1
        constant_node(1),                                   // 2
        constant_node(2),                                   // 3
        constant_node(10),                                  // 4
        constant_node(20),                                  // 5
        constant_node(30),                                  // 6
        NodeKind::Variable,                                 // 7: symbolic index
        NodeKind::Variable,                                 // 8: loaded value
    ];
    ctx.arrays = vec![ArrayInfo { len: 3 }];
    ctx.instructions = vec![
        store_instruction(1, 0, 1, 4),
        store_instruction(2, 0, 2, 5),
        store_instruction(3, 0, 3, 6),
        Instruction {
            id: node(8),
            operation: Operation::Load { array_id: ArrayId { index: 0 }, index: node(7) },
            res_type: ObjectType::NativeField,
        },
    ];
    ctx.blocks = vec![BasicBlock { instructions: vec![0, 1, 2, 3], left: None }];

    let acir = Acir::new(&ctx);
    let brillig = Brillig::new(0);
    let mut evaluator = Evaluator::new();
    acir.acir_gen(BlockId { index: 0 }, &brillig, &mut evaluator, &ctx, false).unwrap();

    // Exactly one dynamic-memory block was emitted, holding the three
    // retained static stores once each, plus the one symbolic load.
    let blocks: Vec<&AcirOpcode> = evaluator
        .opcodes
        .iter()
        .filter(|op| matches!(op, AcirOpcode::MemoryBlock { .. }))
        .collect();
    assert_eq!(blocks.len(), 1);
    match blocks[0] {
        AcirOpcode::MemoryBlock { len, trace, .. } => {
            assert_eq!(*len, 3);
            assert_eq!(trace.len(), 4);
        }
        _ => unreachable!(),
    }
}

fn unsafe_call_ctx(predicate: Option<NodeId>) -> SsaContext {
    let mut ctx = empty_ctx();
    ctx.nodes = vec![
        NodeKind::Array { array_id: ArrayId { index: 0 } }, // 0: caller's array
        NodeKind::Variable,                                 // 1: scalar return
        NodeKind::Function { function_id: FunctionId { index: 0 } }, // 2
        NodeKind::Array { array_id: ArrayId { index: 0 } }, // 3: callee's parameter
        constant_node(0),                                   // 4
        constant_node(1),                                   // 5
        constant_node(2),                                   // 6
        constant_node(7),                                   // 7
        constant_node(8),                                   // 8
        constant_node(9),                                   // 9
        constant_node(0),                                   // 10: a false predicate
    ];
    ctx.arrays = vec![ArrayInfo { len: 3 }];
    ctx.functions = vec![SsaFunction {
        id: FunctionId { index: 0 },
        kind: RuntimeType::Brillig,
        arguments: vec![node(3)],
        body: Vec::new(),
    }];
    ctx.instructions = vec![
        store_instruction(4, 0, 4, 7),
        store_instruction(5, 0, 5, 8),
        store_instruction(6, 0, 6, 9),
        Instruction {
            id: node(1),
            operation: Operation::UnsafeCall {
                func: node(2),
                arguments: vec![node(0)],
                returned_values: vec![node(1)],
                predicate,
            },
            res_type: ObjectType::NativeField,
        },
    ];
    ctx.blocks = vec![BasicBlock { instructions: vec![0, 1, 2, 3], left: None }];
    ctx
}

/// Scenario: calling an unconstrained function with one length-3 array
/// argument produces exactly 3 simple inputs, in array order, within
/// the call's input wiring.
#[test]
fn scenario_unconstrained_call_array_wiring() {
    let ctx = unsafe_call_ctx(None);
    let mut brillig = Brillig::new(1);
    brillig.compile(&ctx.functions[0]);
    let acir = Acir::new(&ctx);
    let mut evaluator = Evaluator::new();
    acir.acir_gen(BlockId { index: 0 }, &brillig, &mut evaluator, &ctx, false).unwrap();

    let calls: Vec<&AcirOpcode> = evaluator
        .opcodes
        .iter()
        .filter(|op| matches!(op, AcirOpcode::BrilligCall { .. }))
        .collect();
    assert_eq!(calls.len(), 1);
    match calls[0] {
        AcirOpcode::BrilligCall { inputs, outputs, bytecode, predicate } => {
            assert_eq!(inputs.len(), 1);
            match &inputs[0] {
                BrilligInput::Array { elements, .. } => {
                    assert_eq!(elements.len(), 3);
                    // In array order: the stored constants 7, 8, 9.
                    assert_eq!(elements[0].q_c, FieldElement::from_u64(7));
                    assert_eq!(elements[1].q_c, FieldElement::from_u64(8));
                    assert_eq!(elements[2].q_c, FieldElement::from_u64(9));
                }
                other => panic!("expected an array input, got {:?}", other),
            }
            assert_eq!(outputs.len(), 1);
            assert!(matches!(outputs[0], BrilligOutput::Simple(_)));
            // The callee's empty body compiles to a stop instruction,
            // and one bootstrap step follows for the one argument.
            assert_eq!(bytecode.len(), 2);
            assert!(predicate.is_none());
        }
        _ => unreachable!(),
    }
}

/// A statically-false-predicate call site emits zero opcodes and
/// allocates zero witnesses.
#[test]
fn predicate_short_circuit_emits_nothing() {
    let ctx = unsafe_call_ctx(Some(node(10)));
    let mut brillig = Brillig::new(1);
    brillig.compile(&ctx.functions[0]);
    let acir = Acir::new(&ctx);
    let mut evaluator = Evaluator::new();
    acir.acir_gen(BlockId { index: 0 }, &brillig, &mut evaluator, &ctx, false).unwrap();

    assert_eq!(evaluator.opcodes.len(), 0);
    assert_eq!(evaluator.current_witness_index, 0);
}

/// An oracle callee is rejected as a compile-time failure.
#[test]
fn oracle_call_from_constrained_context_is_rejected() {
    let mut ctx = unsafe_call_ctx(None);
    ctx.functions[0].kind = RuntimeType::Oracle;
    let brillig = Brillig::new(1);
    let acir = Acir::new(&ctx);
    let mut evaluator = Evaluator::new();
    let result = acir.acir_gen(BlockId { index: 0 }, &brillig, &mut evaluator, &ctx, false);
    assert!(result.is_err());
}

/// Blocks are walked along the fall-through successor.
#[test]
fn blocks_follow_fall_through_successor() {
    let mut ctx = empty_ctx();
    ctx.nodes = vec![
        NodeKind::Variable,
        constant_node(1),
        NodeKind::Variable,
        NodeKind::Variable,
    ];
    ctx.instructions = vec![
        Instruction {
            id: node(2),
            operation: Operation::Binary { operator: BinaryOp::Add, lhs: node(0), rhs: node(1) },
            res_type: ObjectType::NativeField,
        },
        Instruction {
            id: node(3),
            operation: Operation::Return { values: vec![node(2)] },
            res_type: ObjectType::NativeField,
        },
    ];
    ctx.blocks = vec![
        BasicBlock { instructions: vec![0], left: Some(BlockId { index: 1 }) },
        BasicBlock { instructions: vec![1], left: None },
    ];
    let acir = Acir::new(&ctx);
    let brillig = Brillig::new(0);
    let mut evaluator = Evaluator::new();
    acir.acir_gen(BlockId { index: 0 }, &brillig, &mut evaluator, &ctx, false).unwrap();
    assert_eq!(evaluator.public_outputs.len(), 1);
}

/// The designated entry function never appears as a key in the
/// artifact mapping; every other unconstrained function does.
#[test]
fn entry_function_excluded_from_artifacts() {
    let make_fn = |i: u32, kind: RuntimeType| SsaFunction {
        id: FunctionId { index: i },
        kind,
        arguments: Vec::new(),
        body: Vec::new(),
    };
    let ssa = Ssa {
        functions: vec![
            make_fn(0, RuntimeType::Brillig), // the entry itself
            make_fn(1, RuntimeType::Brillig),
            make_fn(2, RuntimeType::Acir),
        ],
        main_id: FunctionId { index: 0 },
    };
    let brillig = ssa.to_brillig();
    assert!(brillig.artifacts[0].is_none());
    assert!(brillig.artifacts[1].is_some());
    assert!(brillig.artifacts[2].is_none());
}

/// Passing the witness ceiling stops lowering with an explicit fault.
#[test]
fn witness_limit_is_enforced() {
    let mut ctx = empty_ctx();
    ctx.nodes = vec![NodeKind::Variable, constant_node(1), NodeKind::Variable];
    ctx.instructions = vec![Instruction {
        id: node(2),
        operation: Operation::Binary { operator: BinaryOp::Add, lhs: node(0), rhs: node(1) },
        res_type: ObjectType::NativeField,
    }];
    ctx.blocks = vec![BasicBlock { instructions: vec![0], left: None }];
    let acir = Acir::new(&ctx);
    let brillig = Brillig::new(0);
    let mut evaluator = Evaluator::new();
    evaluator.current_witness_index = acir_lowering::evaluator::WITNESS_CEILING + 1;
    let result = acir.acir_gen(BlockId { index: 0 }, &brillig, &mut evaluator, &ctx, false);
    assert_eq!(result, Err(acir_lowering::errors::RuntimeError::WitnessLimitExceeded));
}

/// An array returned by an unconstrained call gets one fresh witness
/// per element, and the array reads back those witnesses.
#[test]
fn unconstrained_call_array_output_registers_elements() {
    let mut ctx = empty_ctx();
    ctx.nodes = vec![
        NodeKind::Variable,                                          // 0: scalar argument
        NodeKind::Array { array_id: ArrayId { index: 0 } },          // 1: returned array
        NodeKind::Function { function_id: FunctionId { index: 0 } }, // 2
        NodeKind::Variable,                                          // 3: callee's parameter
        constant_node(0),                                            // 4
        NodeKind::Variable,                                          // 5: value loaded back
    ];
    ctx.arrays = vec![ArrayInfo { len: 2 }];
    ctx.functions = vec![SsaFunction {
        id: FunctionId { index: 0 },
        kind: RuntimeType::Brillig,
        arguments: vec![node(3)],
        body: Vec::new(),
    }];
    ctx.instructions = vec![
        Instruction {
            id: node(1),
            operation: Operation::UnsafeCall {
                func: node(2),
                arguments: vec![node(0)],
                returned_values: vec![node(1)],
                predicate: None,
            },
            res_type: ObjectType::NativeField,
        },
        Instruction {
            id: node(5),
            operation: Operation::Load { array_id: ArrayId { index: 0 }, index: node(4) },
            res_type: ObjectType::NativeField,
        },
    ];
    ctx.blocks = vec![BasicBlock { instructions: vec![0, 1], left: None }];

    let mut brillig = Brillig::new(1);
    brillig.compile(&ctx.functions[0]);
    let acir = Acir::new(&ctx);
    let mut evaluator = Evaluator::new();
    acir.acir_gen(BlockId { index: 0 }, &brillig, &mut evaluator, &ctx, false).unwrap();

    let call = evaluator
        .opcodes
        .iter()
        .find(|op| matches!(op, AcirOpcode::BrilligCall { .. }))
        .unwrap();
    match call {
        AcirOpcode::BrilligCall { inputs, outputs, .. } => {
            assert_eq!(inputs.len(), 1);
            assert!(matches!(inputs[0], BrilligInput::Simple(_)));
            assert_eq!(outputs.len(), 1);
            match &outputs[0] {
                BrilligOutput::Array(ws) => assert_eq!(ws.len(), 2),
                other => panic!("expected an array output, got {:?}", other),
            }
        }
        _ => unreachable!(),
    }
    // Reading the array back stays static: no memory block was needed.
    assert!(
        evaluator
            .opcodes
            .iter()
            .all(|op| !matches!(op, AcirOpcode::MemoryBlock { .. }))
    );
}

/// The display intrinsic receives the program-wide show-output flag at
/// lowering time, not from the instruction.
#[test]
fn println_show_output_threaded_at_lowering_time() {
    let mut ctx = empty_ctx();
    ctx.nodes = vec![constant_node(5), NodeKind::Variable];
    ctx.instructions = vec![Instruction {
        id: node(1),
        operation: Operation::Intrinsic {
            opcode: BuiltinOpcode::Println { is_string_output: true, show_output: false },
            arguments: vec![node(0)],
        },
        res_type: ObjectType::NativeField,
    }];
    ctx.blocks = vec![BasicBlock { instructions: vec![0], left: None }];
    let acir = Acir::new(&ctx);
    let brillig = Brillig::new(0);
    let mut evaluator = Evaluator::new();
    acir.acir_gen(BlockId { index: 0 }, &brillig, &mut evaluator, &ctx, true).unwrap();
    assert_eq!(evaluator.opcodes.len(), 1);
    match &evaluator.opcodes[0] {
        AcirOpcode::IntrinsicCall { opcode, inputs, outputs } => {
            assert_eq!(
                *opcode,
                BuiltinOpcode::Println { is_string_output: true, show_output: true }
            );
            assert_eq!(inputs.len(), 1);
            assert_eq!(outputs.len(), 1);
        }
        other => panic!("expected an intrinsic call, got {:?}", other),
    }
}
