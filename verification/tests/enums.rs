use postgres_derive_codegen::{
    expand, Annotatable, EncodeError, EnumShape, IsNull, Item, ItemKind, Kind, Shape,
    TypeDescriptor, Value, Variant, VariantDef,
};

fn variant(ident: &str, name: Option<&str>) -> VariantDef {
    VariantDef { ident: ident.to_string(), name: name.map(|n| n.to_string()) }
}

fn mood_item() -> Annotatable {
    Annotatable::Item(Item {
        ident: "Mood".to_string(),
        name: Some("mood".to_string()),
        kind: ItemKind::Enum(vec![
            variant("Sad", Some("sad")),
            variant("Ok", None),
            variant("Happy", Some("gl\u{fc}cklich")),
        ]),
    })
}

fn mood() -> Shape {
    expand(mood_item()).unwrap()
}

fn mood_type(name: &str, variants: &[&str]) -> TypeDescriptor {
    TypeDescriptor {
        name: name.to_string(),
        oid: 16400,
        kind: Kind::Enum(variants.iter().map(|v| v.to_string()).collect()),
    }
}

#[test]
fn enum_shape_holds_the_variant_table() {
    let expected = Shape::Enum(EnumShape {
        name: "mood".to_string(),
        variants: vec![
            Variant { ident: "Sad".to_string(), name: "sad".to_string() },
            Variant { ident: "Ok".to_string(), name: "Ok".to_string() },
            Variant { ident: "Happy".to_string(), name: "gl\u{fc}cklich".to_string() },
        ],
    });
    assert_eq!(mood(), expected);
}

#[test]
fn enum_is_encoded_as_its_wire_name() {
    let shape = mood();
    let ty = mood_type("mood", &["sad", "Ok", "gl\u{fc}cklich"]);
    let expected: [&[u8]; 3] = [b"sad", b"Ok", &[b'g', b'l', 0xc3, 0xbc, b'c', b'k', b'l', b'i', b'c', b'h']];
    for (index, bytes) in expected.iter().enumerate() {
        let mut out = Vec::new();
        assert_eq!(shape.to_sql_checked(&Value::Enum(index), &ty, &mut out), Ok(IsNull::No));
        assert_eq!(&out[..], *bytes);
    }
}

#[test]
fn enum_appends_to_what_is_there() {
    let shape = mood();
    let ty = mood_type("mood", &[]);
    let mut out = vec![1u8, 2];
    assert_eq!(shape.to_sql_checked(&Value::Enum(0), &ty, &mut out), Ok(IsNull::No));
    assert_eq!(out, vec![1u8, 2, b's', b'a', b'd']);
}

#[test]
fn distinct_variants_have_distinct_encodings() {
    let shape = mood();
    let ty = mood_type("mood", &["sad", "Ok", "gl\u{fc}cklich"]);
    let mut seen: Vec<Vec<u8>> = Vec::new();
    for index in 0..3 {
        let mut out = Vec::new();
        assert_eq!(shape.to_sql_checked(&Value::Enum(index), &ty, &mut out), Ok(IsNull::No));
        assert!(!seen.contains(&out));
        seen.push(out);
    }
}

#[test]
fn enum_accepts_by_name_and_kind_alone() {
    let shape = mood();
    assert!(shape.accepts(&mood_type("mood", &["sad", "Ok", "gl\u{fc}cklich"])));
    assert!(shape.accepts(&mood_type("mood", &["other"])));
    assert!(shape.accepts(&mood_type("mood", &[])));
    assert!(!shape.accepts(&mood_type("Mood", &["sad", "Ok", "gl\u{fc}cklich"])));
    let not_an_enum = TypeDescriptor { name: "mood".to_string(), oid: 16400, kind: Kind::Other };
    assert!(!shape.accepts(&not_an_enum));
    let a_domain = TypeDescriptor {
        name: "mood".to_string(),
        oid: 16400,
        kind: Kind::Domain(Box::new(mood_type("mood", &[]))),
    };
    assert!(!shape.accepts(&a_domain));
    let a_composite =
        TypeDescriptor { name: "mood".to_string(), oid: 16400, kind: Kind::Composite(vec![]) };
    assert!(!shape.accepts(&a_composite));
}

#[test]
fn enum_refuses_what_is_no_variant() {
    let shape = mood();
    let ty = mood_type("mood", &[]);
    for value in [Value::Enum(3), Value::Int4(0), Value::Text("sad".to_string())] {
        let mut out = Vec::new();
        assert!(!value.is_of_shape(&shape));
        assert_eq!(shape.to_sql_checked(&value, &ty, &mut out), Err(EncodeError::WrongType));
        assert!(out.is_empty());
    }
}

#[test]
fn enum_refuses_another_type() {
    let shape = mood();
    let mut out = Vec::new();
    let ty = mood_type("feeling", &["sad"]);
    assert_eq!(shape.to_sql_checked(&Value::Enum(0), &ty, &mut out), Err(EncodeError::WrongType));
    assert!(out.is_empty());
}

#[test]
fn enum_without_variants() {
    let shape = expand(Annotatable::Item(Item {
        ident: "Never".to_string(),
        name: None,
        kind: ItemKind::Enum(vec![]),
    }))
    .unwrap();
    assert_eq!(shape, Shape::Enum(EnumShape { name: "Never".to_string(), variants: vec![] }));
    assert!(shape.accepts(&mood_type("Never", &[])));
    assert!(!Value::Enum(0).is_of_shape(&shape));
}
