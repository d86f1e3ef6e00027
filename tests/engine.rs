use structmap::decl::{AttrDecl, FieldDecl, LitDecl, MetaDecl, NestedDecl, RecordDecl, ShapeDecl, TypeDecl};
use structmap::derive::{
    accessor_for, accessor_for_lowered, from_map, parse_rename_attrs, to_map, Accessor, DeriveError,
};

fn field(ident: &str, ty: &str, attrs: Vec<AttrDecl>) -> FieldDecl {
    FieldDecl {
        ident: ident.to_string(),
        ty: TypeDecl::Path(ty.to_string()),
        attrs,
    }
}

fn list_attr(path: &str, nested: Vec<NestedDecl>) -> AttrDecl {
    AttrDecl {
        path: path.to_string(),
        meta: MetaDecl::List(nested),
    }
}

fn name_value(path: &str, lit: LitDecl) -> NestedDecl {
    NestedDecl::NameValue {
        path: Some(path.to_string()),
        lit,
    }
}

fn rename(key: &str) -> AttrDecl {
    list_attr("rename", vec![name_value("name", LitDecl::Str(key.to_string()))])
}

fn record(fields: Vec<FieldDecl>) -> RecordDecl {
    RecordDecl {
        ident: "Record".to_string(),
        shape: ShapeDecl::Named(fields),
    }
}

fn to_keys(decl: &RecordDecl) -> Result<Vec<String>, DeriveError> {
    to_map(decl).map(|plan| plan.entries.iter().map(|e| e.key.clone()).collect())
}

#[test]
fn rename_gives_effective_key() {
    let decl = record(vec![
        field("name", "String", vec![rename("Full Name")]),
        field("value", "i64", vec![]),
    ]);
    let plan = to_map(&decl).unwrap();
    assert_eq!(plan.ident, "Record");
    assert_eq!(plan.entries.len(), 2);
    assert_eq!(plan.entries[0].ident, "name");
    assert_eq!(plan.entries[0].key, "Full Name");
    assert_eq!(plan.entries[1].ident, "value");
    assert_eq!(plan.entries[1].key, "value");
}

#[test]
fn other_attributes_are_ignored() {
    let doc = AttrDecl {
        path: "doc".to_string(),
        meta: MetaDecl::NameValue(LitDecl::Str(" a field".to_string())),
    };
    let decl = record(vec![field("name", "String", vec![doc, rename("n")])]);
    assert_eq!(to_keys(&decl), Ok(vec!["n".to_string()]));
}

#[test]
fn two_renames_are_refused() {
    let decl = record(vec![
        field("a", "i64", vec![]),
        field("b", "i64", vec![rename("x"), rename("y")]),
    ]);
    assert_eq!(to_keys(&decl), Err(DeriveError::DuplicateRename(1)));
}

#[test]
fn rename_without_list_is_refused() {
    let bare = AttrDecl {
        path: "rename".to_string(),
        meta: MetaDecl::Path,
    };
    let assigned = AttrDecl {
        path: "rename".to_string(),
        meta: MetaDecl::NameValue(LitDecl::Str("x".to_string())),
    };
    let unparsed = AttrDecl {
        path: "rename".to_string(),
        meta: MetaDecl::Unparsed,
    };
    assert_eq!(to_keys(&record(vec![field("a", "i64", vec![bare])])), Err(DeriveError::MalformedRename(0)));
    assert_eq!(to_keys(&record(vec![field("a", "i64", vec![assigned])])), Err(DeriveError::MalformedRename(0)));
    assert_eq!(to_keys(&record(vec![field("a", "i64", vec![unparsed])])), Err(DeriveError::MalformedRename(0)));
}

#[test]
fn rename_with_wrong_contents_is_refused() {
    let wrong_key = list_attr("rename", vec![name_value("key", LitDecl::Str("x".to_string()))]);
    let not_a_string = list_attr("rename", vec![name_value("name", LitDecl::Other)]);
    let empty = list_attr("rename", vec![]);
    let two_items = list_attr(
        "rename",
        vec![
            name_value("name", LitDecl::Str("x".to_string())),
            name_value("name", LitDecl::Str("y".to_string())),
        ],
    );
    let qualified = list_attr(
        "rename",
        vec![NestedDecl::NameValue {
            path: None,
            lit: LitDecl::Str("x".to_string()),
        }],
    );
    let other_item = list_attr("rename", vec![NestedDecl::Other]);
    for attr in vec![wrong_key, not_a_string, empty, two_items, qualified, other_item] {
        let decl = record(vec![field("a", "i64", vec![]), field("b", "i64", vec![attr])]);
        assert_eq!(to_keys(&decl), Err(DeriveError::MalformedRename(1)));
    }
}

#[test]
fn malformed_rename_before_second_is_malformed() {
    let decl = record(vec![field(
        "a",
        "i64",
        vec![list_attr("rename", vec![]), rename("x")],
    )]);
    assert_eq!(to_keys(&decl), Err(DeriveError::MalformedRename(0)));
}

#[test]
fn first_refused_field_decides() {
    let decl = record(vec![
        field("a", "i64", vec![rename("x")]),
        field("b", "i64", vec![rename("y"), rename("z")]),
        field("c", "i64", vec![list_attr("rename", vec![])]),
    ]);
    assert_eq!(to_keys(&decl), Err(DeriveError::DuplicateRename(1)));
}

#[test]
fn parse_rename_attrs_lists_overrides() {
    let fields = vec![
        field("a", "i64", vec![]),
        field("b", "i64", vec![rename("B")]),
    ];
    assert_eq!(parse_rename_attrs(&fields), Ok(vec![None, Some("B".to_string())]));
    assert_eq!(parse_rename_attrs(&vec![]), Ok(vec![]));
}

#[test]
fn non_struct_shapes_are_refused() {
    for shape in vec![ShapeDecl::Unnamed, ShapeDecl::Unit, ShapeDecl::Enum, ShapeDecl::Union] {
        let decl = RecordDecl {
            ident: "Shape".to_string(),
            shape,
        };
        assert!(matches!(to_map(&decl), Err(DeriveError::UnsupportedShape)));
        assert!(matches!(from_map(&decl), Err(DeriveError::UnsupportedShape)));
    }
}

#[test]
fn empty_struct_is_accepted() {
    let decl = record(vec![]);
    assert_eq!(to_map(&decl).unwrap().entries.len(), 0);
    assert_eq!(from_map(&decl).unwrap().fields.len(), 0);
}

#[test]
fn from_map_plans_accessors() {
    let decl = record(vec![
        field("flag", "bool", vec![]),
        field("count", "u64", vec![]),
        field("delta", "i64", vec![]),
        field("ratio", "f64", vec![]),
        field("label", "String", vec![rename("Label")]),
    ]);
    let plan = from_map(&decl).unwrap();
    assert_eq!(plan.ident, "Record");
    let accessors: Vec<Accessor> = plan.fields.iter().map(|f| f.accessor).collect();
    assert_eq!(
        accessors,
        vec![Accessor::Bool, Accessor::U64, Accessor::I64, Accessor::F64, Accessor::String]
    );
    let keys: Vec<String> = plan.fields.iter().map(|f| f.key.clone()).collect();
    assert_eq!(keys, vec!["flag", "count", "delta", "ratio", "label"]);
    let idents: Vec<String> = plan.fields.iter().map(|f| f.ident.clone()).collect();
    assert_eq!(idents, keys);
}

#[test]
fn unsupported_field_types_are_refused() {
    let decl = record(vec![
        field("a", "i64", vec![]),
        field("b", "Vec < u8 >", vec![]),
    ]);
    assert!(matches!(from_map(&decl), Err(DeriveError::UnsupportedFieldType(1))));
    let alias = record(vec![field("a", "MyInt", vec![])]);
    assert!(matches!(from_map(&alias), Err(DeriveError::UnsupportedFieldType(0))));
    let qualified = record(vec![field("a", "std :: string :: String", vec![])]);
    assert!(matches!(from_map(&qualified), Err(DeriveError::UnsupportedFieldType(0))));
    let reference = record(vec![FieldDecl {
        ident: "a".to_string(),
        ty: TypeDecl::Other,
        attrs: vec![],
    }]);
    assert!(matches!(from_map(&reference), Err(DeriveError::UnsupportedFieldType(0))));
}

#[test]
fn type_text_is_lowercased() {
    assert_eq!(accessor_for(&field("a", "STRING", vec![])), Some(Accessor::String));
    assert_eq!(accessor_for(&field("a", "I64", vec![])), Some(Accessor::I64));
    assert_eq!(accessor_for(&field("a", "Bool", vec![])), Some(Accessor::Bool));
    assert_eq!(accessor_for(&field("a", "Str", vec![])), None);
}

#[test]
fn lowered_text_names_accessor() {
    assert_eq!(accessor_for_lowered(&"bool".to_string()), Some(Accessor::Bool));
    assert_eq!(accessor_for_lowered(&"i64".to_string()), Some(Accessor::I64));
    assert_eq!(accessor_for_lowered(&"u64".to_string()), Some(Accessor::U64));
    assert_eq!(accessor_for_lowered(&"f64".to_string()), Some(Accessor::F64));
    assert_eq!(accessor_for_lowered(&"string".to_string()), Some(Accessor::String));
    assert_eq!(accessor_for_lowered(&"String".to_string()), None);
    assert_eq!(accessor_for_lowered(&"".to_string()), None);
}

#[test]
fn errors_have_messages() {
    for e in vec![
        DeriveError::UnsupportedShape,
        DeriveError::UnsupportedFieldType(0),
        DeriveError::MalformedRename(0),
        DeriveError::DuplicateRename(0),
    ] {
        assert!(!e.message().is_empty());
    }
    assert_eq!(DeriveError::DuplicateRename(3).message(), "Cannot redefine field name multiple times");
}
