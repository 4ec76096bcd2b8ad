use lmlang::edge::{FlowEdge, SemanticEdge};
use lmlang::error::CoreError;
use lmlang::function::{Capture, CaptureMode, FunctionDef};
use lmlang::ids::{EdgeId, FunctionId, ModuleId, NodeId, TypeId};
use lmlang::module::{ModuleDef, ModuleTree};
use lmlang::node::{stable_checksum, ProvenanceMetadata, SemanticSummaryPayload};
use lmlang::types::Visibility;

#[test]
fn flow_edge_is_data() {
    let data = FlowEdge::Data {
        source_port: 0,
        target_port: 0,
        value_type: TypeId::int32(),
    };
    assert!(data.is_data());
    assert!(!data.is_control());
}

#[test]
fn flow_edge_is_control() {
    let ctrl = FlowEdge::Control {
        branch_index: Some(0),
    };
    assert!(ctrl.is_control());
    assert!(!ctrl.is_data());
}

#[test]
fn flow_edge_is_control_unconditional() {
    let ctrl = FlowEdge::Control { branch_index: None };
    assert!(ctrl.is_control());
    assert!(!ctrl.is_data());
}

#[test]
fn value_type_returns_some_for_data() {
    let data = FlowEdge::Data {
        source_port: 0,
        target_port: 1,
        value_type: TypeId::float64(),
    };
    assert_eq!(data.value_type(), Some(TypeId::float64()));
}

#[test]
fn value_type_returns_none_for_control() {
    let ctrl = FlowEdge::Control {
        branch_index: Some(1),
    };
    assert_eq!(ctrl.value_type(), None);
}

#[test]
fn semantic_edge_equality() {
    assert_eq!(SemanticEdge::Contains, SemanticEdge::Contains);
    assert_eq!(SemanticEdge::Calls, SemanticEdge::Calls);
    assert_eq!(SemanticEdge::UsesType, SemanticEdge::UsesType);
    assert_ne!(SemanticEdge::Contains, SemanticEdge::Calls);
}

#[test]
fn regular_function_defaults() {
    let f = FunctionDef::new(
        FunctionId(1),
        "add".into(),
        ModuleId(0),
        vec![("a".into(), TypeId::int32()), ("b".into(), TypeId::int32())],
        TypeId::int32(),
    );

    assert_eq!(f.id, FunctionId(1));
    assert_eq!(f.name, "add");
    assert_eq!(f.module, ModuleId(0));
    assert_eq!(f.visibility, Visibility::Public);
    assert_eq!(f.arity(), 2);
    assert_eq!(f.return_type, TypeId::int32());
    assert!(f.entry_node.is_none());
    assert!(!f.is_closure());
    assert!(!f.is_nested());
    assert!(f.captures.is_empty());
    assert_eq!(f.capture_count(), 0);
}

#[test]
fn closure_with_captures() {
    let captures = vec![
        Capture {
            name: "x".into(),
            captured_type: TypeId::int32(),
            mode: CaptureMode::ByRef,
        },
        Capture {
            name: "y".into(),
            captured_type: TypeId::float64(),
            mode: CaptureMode::ByValue,
        },
    ];

    let c = FunctionDef::closure(
        FunctionId(10),
        "lambda".into(),
        ModuleId(0),
        FunctionId(1),
        vec![("z".into(), TypeId::int32())],
        TypeId::float64(),
        captures,
    );

    assert!(c.is_closure());
    assert!(c.is_nested());
    assert_eq!(c.parent_function, Some(FunctionId(1)));
    assert_eq!(c.capture_count(), 2);
    assert_eq!(c.arity(), 1);
    assert_eq!(c.captures[0].name, "x");
    assert_eq!(c.captures[0].mode, CaptureMode::ByRef);
    assert_eq!(c.captures[1].name, "y");
    assert_eq!(c.captures[1].mode, CaptureMode::ByValue);
}

#[test]
fn closure_is_private() {
    let c = FunctionDef::closure(
        FunctionId(2),
        "inner".into(),
        ModuleId(0),
        FunctionId(1),
        Vec::new(),
        TypeId::unit(),
        Vec::new(),
    );
    assert_eq!(c.visibility, Visibility::Private);
    assert_eq!(c.capture_count(), 0);
}

#[test]
fn node_id_display() {
    assert_eq!(NodeId(7).to_string(), "7");
}

#[test]
fn edge_id_display() {
    assert_eq!(EdgeId(99).to_string(), "99");
}

#[test]
fn function_id_display() {
    assert_eq!(FunctionId(3).to_string(), "3");
}

#[test]
fn module_id_display() {
    assert_eq!(ModuleId(0).to_string(), "0");
}

#[test]
fn large_id_display() {
    assert_eq!(NodeId(4294967295).to_string(), "4294967295");
    assert_eq!(FunctionId(1000).to_string(), "1000");
}

#[test]
fn id_types_are_distinct() {
    let node = NodeId(1);
    let edge = EdgeId(1);
    let func = FunctionId(1);
    let module = ModuleId(1);
    assert_eq!(node.0, edge.0);
    assert_eq!(func.0, module.0);
}

#[test]
fn type_id_display() {
    assert_eq!(TypeId(42).to_string(), "TypeId(42)");
}

#[test]
fn builtin_type_id_values() {
    assert_eq!(TypeId::bool(), TypeId(0));
    assert_eq!(TypeId::int8(), TypeId(1));
    assert_eq!(TypeId::int16(), TypeId(2));
    assert_eq!(TypeId::int32(), TypeId(3));
    assert_eq!(TypeId::int64(), TypeId(4));
    assert_eq!(TypeId::float32(), TypeId(5));
    assert_eq!(TypeId::float64(), TypeId(6));
    assert_eq!(TypeId::unit(), TypeId(7));
    assert_eq!(TypeId::never(), TypeId(8));
}

#[test]
fn new_tree_has_root() {
    let tree = ModuleTree::new("crate");
    let root = tree.get_module(tree.root_id()).unwrap();
    assert_eq!(root.name, "crate");
    assert!(root.parent.is_none());
    assert_eq!(root.visibility, Visibility::Public);
    assert_eq!(root.id, ModuleId(0));
}

#[test]
fn add_child_modules() {
    let mut tree = ModuleTree::new("root");
    let root = tree.root_id();

    let math = tree
        .add_module("math".into(), root, Visibility::Public)
        .unwrap();
    let trig = tree
        .add_module("trig".into(), math, Visibility::Private)
        .unwrap();

    assert_eq!(tree.children(root), &[math]);
    assert_eq!(tree.children(math), &[trig]);
    assert!(tree.children(trig).is_empty());

    let trig_def = tree.get_module(trig).unwrap();
    assert_eq!(trig_def.parent, Some(math));
    assert_eq!(trig_def.visibility, Visibility::Private);
}

#[test]
fn path_from_root() {
    let mut tree = ModuleTree::new("root");
    let root = tree.root_id();

    let math = tree
        .add_module("math".into(), root, Visibility::Public)
        .unwrap();
    let trig = tree
        .add_module("trig".into(), math, Visibility::Public)
        .unwrap();

    assert_eq!(tree.path(root), vec!["root"]);
    assert_eq!(tree.path(math), vec!["root", "math"]);
    assert_eq!(tree.path(trig), vec!["root", "math", "trig"]);
}

#[test]
fn path_nonexistent_module() {
    let tree = ModuleTree::new("root");
    assert!(tree.path(ModuleId(999)).is_empty());
}

#[test]
fn add_function_to_module() {
    let mut tree = ModuleTree::new("root");
    let root = tree.root_id();

    tree.add_function(root, FunctionId(1)).unwrap();
    tree.add_function(root, FunctionId(2)).unwrap();

    assert_eq!(tree.functions_in(root), &[FunctionId(1), FunctionId(2)]);
}

#[test]
fn add_type_def_to_module() {
    let mut tree = ModuleTree::new("root");
    let root = tree.root_id();

    tree.add_type_def(root, TypeId(100)).unwrap();
    assert_eq!(
        tree.type_defs_map().get(&root.0).unwrap(),
        &[TypeId(100)]
    );
}

#[test]
fn add_module_to_nonexistent_parent_errors() {
    let mut tree = ModuleTree::new("root");
    let result = tree.add_module("orphan".into(), ModuleId(999), Visibility::Public);
    assert!(result.is_err());
    match result {
        Err(CoreError::ModuleNotFound { id }) => assert_eq!(id, ModuleId(999)),
        _ => panic!("expected ModuleNotFound error"),
    }
}

#[test]
fn add_function_to_nonexistent_module_errors() {
    let mut tree = ModuleTree::new("root");
    let result = tree.add_function(ModuleId(999), FunctionId(1));
    assert!(result.is_err());
}

#[test]
fn add_type_def_to_nonexistent_module_errors() {
    let mut tree = ModuleTree::new("root");
    let result = tree.add_type_def(ModuleId(999), TypeId(1));
    assert!(result.is_err());
}

#[test]
fn root_module_has_no_parent() {
    let tree = ModuleTree::new("main");
    let root = tree.get_module(tree.root_id()).unwrap();
    assert!(root.parent.is_none());
}

#[test]
fn module_ids_are_sequential_and_counter_advances() {
    let mut tree = ModuleTree::new("root");
    assert_eq!(tree.next_id(), 1);
    let a = tree.add_module("a".into(), ModuleId(0), Visibility::Public).unwrap();
    let b = tree.add_module("b".into(), ModuleId(0), Visibility::Public).unwrap();
    assert_eq!(a, ModuleId(1));
    assert_eq!(b, ModuleId(2));
    assert_eq!(tree.next_id(), 3);
    assert_eq!(tree.children(ModuleId(0)), &[a, b]);
    assert_eq!(tree.all_modules().len(), 3);
    assert_eq!(tree.path(b), vec!["root", "b"]);
}

#[test]
fn failed_add_leaves_tree_unchanged() {
    let mut tree = ModuleTree::new("root");
    let _ = tree.add_module("x".into(), ModuleId(5), Visibility::Public);
    assert_eq!(tree.next_id(), 1);
    assert_eq!(tree.all_modules().len(), 1);
}

#[test]
fn module_def_root_has_no_parent() {
    let root = ModuleDef {
        id: ModuleId(0),
        name: "root".into(),
        parent: None,
        visibility: Visibility::Public,
    };
    assert!(root.parent.is_none());
}

#[test]
fn deterministic_summary_payload_is_stable() {
    let a = SemanticSummaryPayload::deterministic("function", "f", "returns one");
    let b = SemanticSummaryPayload::deterministic("function", "f", "returns one");
    assert_eq!(a, b);
}

#[test]
fn summary_payload_fields() {
    let p = SemanticSummaryPayload::deterministic("module", "math", "  module math declaration \n");
    assert_eq!(p.title, "module:math");
    assert_eq!(p.body, "module math declaration");
    assert_eq!(p.token_count, 3);
    assert_eq!(p.checksum, stable_checksum("module|math|module math declaration"));
    assert_eq!(p.checksum.len(), 16);
}

#[test]
fn fnv1a_checksum_known_values() {
    assert_eq!(stable_checksum(""), "cbf29ce484222325");
    assert_eq!(stable_checksum("a"), "af63dc4c8601ec8c");
    assert_eq!(stable_checksum("foobar"), "85944171f73967e8");
}

#[test]
fn provenance_default_values() {
    let p = ProvenanceMetadata::default();
    assert_eq!(p.source, "lmlang");
    assert_eq!(p.version, 1);
    assert_eq!(p.created_at_ms, 0);
    assert_eq!(p.updated_at_ms, 0);
}
