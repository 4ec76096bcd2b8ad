use indexmap::IndexMap;
use lmlang::error::CoreError;
use lmlang::ids::{ModuleId, TypeId};
use lmlang::type_registry::TypeRegistry;
use lmlang::types::{EnumDef, EnumVariant, LmType, ScalarType, StructDef, Visibility};

#[test]
fn new_registry_has_9_builtin_types() {
    let reg = TypeRegistry::new();
    assert_eq!(reg.type_count(), 9);
    assert_eq!(reg.next_id(), 9);
}

#[test]
fn builtin_scalar_type_ids() {
    let reg = TypeRegistry::new();
    assert_eq!(reg.scalar_type_id(ScalarType::Bool), TypeId(0));
    assert_eq!(reg.scalar_type_id(ScalarType::I8), TypeId(1));
    assert_eq!(reg.scalar_type_id(ScalarType::I16), TypeId(2));
    assert_eq!(reg.scalar_type_id(ScalarType::I32), TypeId(3));
    assert_eq!(reg.scalar_type_id(ScalarType::I64), TypeId(4));
    assert_eq!(reg.scalar_type_id(ScalarType::F32), TypeId(5));
    assert_eq!(reg.scalar_type_id(ScalarType::F64), TypeId(6));
}

#[test]
fn builtin_unit_and_never() {
    let reg = TypeRegistry::new();
    assert_eq!(reg.unit_type_id(), TypeId(7));
    assert_eq!(reg.never_type_id(), TypeId(8));
    assert!(matches!(reg.get(TypeId(7)), Some(LmType::Unit)));
    assert!(matches!(reg.get(TypeId(8)), Some(LmType::Never)));
}

#[test]
fn register_returns_unique_ids() {
    let mut reg = TypeRegistry::new();
    let id1 = reg.register(LmType::Array { element: TypeId(3), length: 5 });
    let id2 = reg.register(LmType::Pointer { pointee: TypeId(1), mutable: false });
    assert_ne!(id1, id2);
    assert_eq!(id1, TypeId(9));
    assert_eq!(id2, TypeId(10));
}

#[test]
fn register_named_unique_ids_and_lookup() {
    let mut reg = TypeRegistry::new();
    let point_id = reg
        .register_named(
            "Point",
            LmType::Struct(StructDef {
                name: "Point".into(),
                type_id: TypeId(0),
                fields: IndexMap::from([("x".into(), TypeId(6)), ("y".into(), TypeId(6))]),
                module: ModuleId(0),
                visibility: Visibility::Public,
            }),
        )
        .unwrap();
    let color_id = reg
        .register_named(
            "Color",
            LmType::Enum(EnumDef {
                name: "Color".into(),
                type_id: TypeId(0),
                variants: IndexMap::from([
                    ("Red".into(), EnumVariant { index: 0, payload: None }),
                    ("Green".into(), EnumVariant { index: 1, payload: None }),
                ]),
                module: ModuleId(0),
                visibility: Visibility::Public,
            }),
        )
        .unwrap();
    assert_ne!(point_id, color_id);
    assert_eq!(reg.get_by_name("Point"), Some(point_id));
    assert_eq!(reg.get_by_name("Color"), Some(color_id));
    assert_eq!(reg.get_by_name("Nonexistent"), None);
}

#[test]
fn duplicate_name_returns_error() {
    let mut reg = TypeRegistry::new();
    reg.register_named("Foo", LmType::Unit).unwrap();
    let result = reg.register_named("Foo", LmType::Unit);
    assert!(result.is_err());
    match result {
        Err(CoreError::DuplicateTypeName { name }) => {
            assert_eq!(name, "Foo");
        }
        _ => panic!("expected DuplicateTypeName error"),
    }
}

#[test]
fn get_and_get_by_name_roundtrip() {
    let mut reg = TypeRegistry::new();
    let id = reg.register_named("MyStruct", LmType::Unit).unwrap();
    let looked_up_id = reg.get_by_name("MyStruct").unwrap();
    assert_eq!(id, looked_up_id);
    let ty = reg.get(looked_up_id).unwrap();
    assert!(matches!(ty, LmType::Unit));
}

#[test]
fn get_nonexistent_returns_none() {
    let reg = TypeRegistry::new();
    assert!(reg.get(TypeId(999)).is_none());
}

#[test]
fn builtin_types_are_correct() {
    let reg = TypeRegistry::new();
    assert!(matches!(reg.get(TypeId(0)), Some(LmType::Scalar(ScalarType::Bool))));
    assert!(matches!(reg.get(TypeId(1)), Some(LmType::Scalar(ScalarType::I8))));
    assert!(matches!(reg.get(TypeId(2)), Some(LmType::Scalar(ScalarType::I16))));
    assert!(matches!(reg.get(TypeId(3)), Some(LmType::Scalar(ScalarType::I32))));
    assert!(matches!(reg.get(TypeId(4)), Some(LmType::Scalar(ScalarType::I64))));
    assert!(matches!(reg.get(TypeId(5)), Some(LmType::Scalar(ScalarType::F32))));
    assert!(matches!(reg.get(TypeId(6)), Some(LmType::Scalar(ScalarType::F64))));
    assert!(matches!(reg.get(TypeId(7)), Some(LmType::Unit)));
    assert!(matches!(reg.get(TypeId(8)), Some(LmType::Never)));
}

#[test]
fn create_all_lm_type_variants() {
    let module = ModuleId(0);
    let types = vec![
        LmType::Scalar(ScalarType::Bool),
        LmType::Scalar(ScalarType::I32),
        LmType::Scalar(ScalarType::F64),
        LmType::Array { element: TypeId(1), length: 10 },
        LmType::Struct(StructDef {
            name: "Point".into(),
            type_id: TypeId(100),
            fields: IndexMap::from([("x".into(), TypeId(5)), ("y".into(), TypeId(5))]),
            module,
            visibility: Visibility::Public,
        }),
        LmType::Enum(EnumDef {
            name: "Option".into(),
            type_id: TypeId(101),
            variants: IndexMap::from([
                ("None".into(), EnumVariant { index: 0, payload: None }),
                ("Some".into(), EnumVariant { index: 1, payload: Some(TypeId(1)) }),
            ]),
            module,
            visibility: Visibility::Public,
        }),
        LmType::Pointer { pointee: TypeId(1), mutable: false },
        LmType::Function { params: vec![TypeId(1), TypeId(2)], return_type: TypeId(3) },
        LmType::Unit,
        LmType::Never,
    ];
    assert_eq!(types.len(), 10);
}

#[test]
fn struct_def_preserves_field_order() {
    let mut fields = IndexMap::new();
    fields.insert("z".to_string(), TypeId(1));
    fields.insert("a".to_string(), TypeId(2));
    fields.insert("m".to_string(), TypeId(3));
    let sd = StructDef {
        name: "Ordered".into(),
        type_id: TypeId(200),
        fields,
        module: ModuleId(0),
        visibility: Visibility::Public,
    };
    let keys: Vec<&str> = sd.fields.keys().map(|s| s.as_str()).collect();
    assert_eq!(keys, vec!["z", "a", "m"]);
}

#[test]
fn enum_def_preserves_variant_order() {
    let mut variants = IndexMap::new();
    variants.insert("Third".to_string(), EnumVariant { index: 0, payload: None });
    variants.insert("First".to_string(), EnumVariant { index: 1, payload: None });
    variants.insert("Second".to_string(), EnumVariant { index: 2, payload: Some(TypeId(1)) });
    let ed = EnumDef {
        name: "Mixed".into(),
        type_id: TypeId(201),
        variants,
        module: ModuleId(0),
        visibility: Visibility::Private,
    };
    let keys: Vec<&str> = ed.variants.keys().map(|s| s.as_str()).collect();
    assert_eq!(keys, vec!["Third", "First", "Second"]);
}

#[test]
fn registered_type_reads_back_and_names_stay_bound() {
    let mut reg = TypeRegistry::default();
    let a = reg.register_named("A", LmType::Unit).unwrap();
    let b = reg.register(LmType::Array { element: a, length: 3 });
    assert_eq!(a, TypeId(9));
    assert_eq!(b, TypeId(10));
    assert!(matches!(reg.get(b), Some(LmType::Array { element, length: 3 }) if *element == a));
    assert_eq!(reg.get_by_name("A"), Some(a));
    assert!(reg.register_named("A", LmType::Never).is_err());
    assert_eq!(reg.type_count(), 11);
    assert_eq!(reg.next_id(), 11);
    assert!(reg.get(TypeId(11)).is_none());
}
