use lmlang::ids::{FunctionId, TypeId};
use lmlang::ops::{
    ArithOp, CmpOp, ComputeNode, ComputeNodeOp, ComputeOp, ConstValue, StructuredOp,
};

#[test]
fn is_control_flow_returns_true_for_all_cf_ops() {
    let cf_ops = vec![
        ComputeOp::IfElse,
        ComputeOp::Loop,
        ComputeOp::Match,
        ComputeOp::Branch,
        ComputeOp::Jump,
        ComputeOp::Phi,
    ];
    for op in &cf_ops {
        assert!(op.is_control_flow(), "{:?} should be control flow", op);
    }
}

#[test]
fn is_control_flow_returns_false_for_non_cf_ops() {
    let non_cf_ops = vec![
        ComputeOp::Const { value: ConstValue::I32(0) },
        ComputeOp::BinaryArith { op: ArithOp::Add },
        ComputeOp::Compare { op: CmpOp::Eq },
        ComputeOp::Not,
        ComputeOp::Alloc,
        ComputeOp::Load,
        ComputeOp::Store,
        ComputeOp::Return,
        ComputeOp::Print,
        ComputeOp::Call { target: FunctionId(0) },
        ComputeOp::MakeClosure { function: FunctionId(0) },
    ];
    for op in &non_cf_ops {
        assert!(!op.is_control_flow(), "{:?} should NOT be control flow", op);
    }
}

#[test]
fn is_terminator_returns_true_for_terminators() {
    let terminators = vec![ComputeOp::Return, ComputeOp::Branch, ComputeOp::Jump];
    for op in &terminators {
        assert!(op.is_terminator(), "{:?} should be a terminator", op);
    }
}

#[test]
fn is_terminator_returns_false_for_non_terminators() {
    let non_terminators = vec![
        ComputeOp::IfElse,
        ComputeOp::Loop,
        ComputeOp::Match,
        ComputeOp::Phi,
        ComputeOp::Const { value: ConstValue::Bool(true) },
        ComputeOp::BinaryArith { op: ArithOp::Mul },
        ComputeOp::Print,
    ];
    for op in &non_terminators {
        assert!(!op.is_terminator(), "{:?} should NOT be a terminator", op);
    }
}

#[test]
fn is_io_returns_true_for_io_ops() {
    let io_ops = vec![
        ComputeOp::Print,
        ComputeOp::ReadLine,
        ComputeOp::FileOpen,
        ComputeOp::FileRead,
        ComputeOp::FileWrite,
        ComputeOp::FileClose,
    ];
    for op in &io_ops {
        assert!(op.is_io(), "{:?} should be I/O", op);
    }
}

#[test]
fn is_io_returns_false_for_non_io_ops() {
    let non_io = vec![
        ComputeOp::Const { value: ConstValue::I32(0) },
        ComputeOp::BinaryArith { op: ArithOp::Add },
        ComputeOp::Return,
        ComputeOp::IfElse,
        ComputeOp::Alloc,
    ];
    for op in &non_io {
        assert!(!op.is_io(), "{:?} should NOT be I/O", op);
    }
}

#[test]
fn compute_node_op_tier() {
    assert_eq!(ComputeNodeOp::Core(ComputeOp::Alloc).tier(), 1);
    assert_eq!(ComputeNodeOp::Structured(StructuredOp::ArrayGet).tier(), 2);
}

#[test]
fn compute_node_op_delegates_is_control_flow() {
    assert!(ComputeNodeOp::Core(ComputeOp::IfElse).is_control_flow());
    assert!(!ComputeNodeOp::Core(ComputeOp::Alloc).is_control_flow());
    assert!(!ComputeNodeOp::Structured(StructuredOp::ArrayGet).is_control_flow());
}

#[test]
fn compute_node_op_delegates_is_terminator() {
    assert!(ComputeNodeOp::Core(ComputeOp::Return).is_terminator());
    assert!(!ComputeNodeOp::Core(ComputeOp::IfElse).is_terminator());
    assert!(!ComputeNodeOp::Structured(StructuredOp::Cast { target_type: TypeId(0) }).is_terminator());
}

#[test]
fn compute_node_op_delegates_is_io() {
    assert!(ComputeNodeOp::Core(ComputeOp::Print).is_io());
    assert!(!ComputeNodeOp::Core(ComputeOp::Alloc).is_io());
    assert!(!ComputeNodeOp::Structured(StructuredOp::ArrayGet).is_io());
}

#[test]
fn compute_node_new() {
    let node = ComputeNode::new(ComputeNodeOp::Core(ComputeOp::Alloc), FunctionId(1));
    assert_eq!(node.owner, FunctionId(1));
    assert_eq!(node.tier(), 1);
}

#[test]
fn compute_node_core_constructor() {
    let node = ComputeNode::core_node(ComputeOp::BinaryArith { op: ArithOp::Add }, FunctionId(5));
    assert_eq!(node.owner, FunctionId(5));
    assert_eq!(node.tier(), 1);
    assert!(!node.is_control_flow());
}

#[test]
fn compute_node_structured_constructor() {
    let node = ComputeNode::structured(StructuredOp::ArrayGet, FunctionId(3));
    assert_eq!(node.owner, FunctionId(3));
    assert_eq!(node.tier(), 2);
}

#[test]
fn compute_node_tier_core_is_1() {
    let node = ComputeNode::core_node(ComputeOp::Return, FunctionId(0));
    assert_eq!(node.tier(), 1);
}

#[test]
fn compute_node_tier_structured_is_2() {
    let node = ComputeNode::structured(StructuredOp::Cast { target_type: TypeId::int64() }, FunctionId(0));
    assert_eq!(node.tier(), 2);
}

#[test]
fn compute_node_delegates_is_control_flow() {
    let cf_node = ComputeNode::core_node(ComputeOp::IfElse, FunctionId(0));
    assert!(cf_node.is_control_flow());
    let non_cf = ComputeNode::core_node(ComputeOp::Alloc, FunctionId(0));
    assert!(!non_cf.is_control_flow());
    let struct_node = ComputeNode::structured(StructuredOp::ArrayGet, FunctionId(0));
    assert!(!struct_node.is_control_flow());
}

#[test]
fn compute_node_delegates_is_terminator() {
    let term = ComputeNode::core_node(ComputeOp::Return, FunctionId(0));
    assert!(term.is_terminator());
    let non_term = ComputeNode::core_node(ComputeOp::Print, FunctionId(0));
    assert!(!non_term.is_terminator());
}

#[test]
fn compute_node_delegates_is_io() {
    let io = ComputeNode::core_node(ComputeOp::FileOpen, FunctionId(0));
    assert!(io.is_io());
    let non_io = ComputeNode::core_node(ComputeOp::Return, FunctionId(0));
    assert!(!non_io.is_io());
}

#[test]
fn float_constants_keep_their_bits() {
    let c = ComputeOp::Const { value: ConstValue::F64(2.5f64.to_bits()) };
    match c {
        ComputeOp::Const { value: ConstValue::F64(bits) } => assert_eq!(f64::from_bits(bits), 2.5),
        _ => panic!("expected a float constant"),
    }
    assert!(!c.is_control_flow() && !c.is_terminator() && !c.is_io());
}
