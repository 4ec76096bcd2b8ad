use std::collections::HashMap;

use lmlang::ids::ModuleId;
use lmlang::module::{ModuleDef, ModuleTree};
use lmlang::types::Visibility;

fn parts(t: &ModuleTree) -> HashMap<u32, ModuleDef> {
    t.all_modules().into_iter().map(|(k, m)| (k.0, m)).collect()
}

#[test]
fn checked_parts_round_trip() {
    let mut t = ModuleTree::new("root");
    let a = t.add_module("a".into(), t.root_id(), Visibility::Public).unwrap();
    let b = t.add_module("b".into(), a, Visibility::Private).unwrap();
    let r = ModuleTree::from_parts_checked(
        parts(&t),
        t.children_map().clone(),
        t.functions_map().clone(),
        t.type_defs_map().clone(),
        t.root_id(),
        t.next_id(),
    )
    .unwrap();
    assert_eq!(r.root_id(), t.root_id());
    assert_eq!(r.next_id(), t.next_id());
    assert_eq!(r.path(b), t.path(b));
    assert_eq!(r.children(a), t.children(a));
}

#[test]
fn checked_parts_reject_bad_parent_or_counter() {
    let mut t = ModuleTree::new("root");
    t.add_module("a".into(), t.root_id(), Visibility::Public).unwrap();
    let mut mods = parts(&t);
    assert!(ModuleTree::from_parts_checked(
        mods.clone(),
        t.children_map().clone(),
        t.functions_map().clone(),
        t.type_defs_map().clone(),
        t.root_id(),
        1,
    )
    .is_none());
    mods.insert(1, ModuleDef { id: ModuleId(1), name: "a".into(), parent: Some(ModuleId(5)), visibility: Visibility::Public });
    assert!(ModuleTree::from_parts_checked(
        mods,
        t.children_map().clone(),
        t.functions_map().clone(),
        t.type_defs_map().clone(),
        t.root_id(),
        t.next_id(),
    )
    .is_none());
}

#[test]
fn paths_start_at_root_and_grow_by_one_per_level() {
    let mut t = ModuleTree::new("root");
    let a = t.add_module("a".into(), t.root_id(), Visibility::Public).unwrap();
    let b = t.add_module("b".into(), a, Visibility::Public).unwrap();
    assert_eq!(t.path(t.root_id()), vec!["root".to_string()]);
    assert_eq!(t.path(b), vec!["root".to_string(), "a".to_string(), "b".to_string()]);
    assert_eq!(t.children(a), &[b]);
    assert_eq!(t.next_id(), 3);
}

#[test]
fn id_counter_counts_modules_added() {
    let mut t = ModuleTree::new("root");
    let a = t.add_module("a".into(), t.root_id(), Visibility::Public).unwrap();
    assert!(t.add_module("x".into(), ModuleId(42), Visibility::Public).is_err());
    let b = t.add_module("b".into(), a, Visibility::Public).unwrap();
    assert_ne!(a, b);
    assert_ne!(a, t.root_id());
    assert_ne!(b, t.root_id());
    assert_eq!(t.next_id() as usize, t.all_modules().len());
    assert_eq!(t.next_id(), 3);
}
