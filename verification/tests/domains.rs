use postgres_derive_codegen::{
    expand, Annotatable, DomainShape, EncodeError, FieldDef, FieldDescriptor, IsNull, Item,
    ItemKind, Kind, Shape, TypeDescriptor, Value, ValueType,
};

fn simple(name: &str, oid: u32) -> TypeDescriptor {
    TypeDescriptor { name: name.to_string(), oid, kind: Kind::Other }
}

fn domain_type(name: &str, inner: TypeDescriptor) -> TypeDescriptor {
    TypeDescriptor { name: name.to_string(), oid: 16500, kind: Kind::Domain(Box::new(inner)) }
}

fn wrapper(ident: &str, name: Option<&str>, inner: ValueType) -> Shape {
    expand(Annotatable::Item(Item {
        ident: ident.to_string(),
        name: name.map(|n| n.to_string()),
        kind: ItemKind::TupleStruct(vec![inner]),
    }))
    .unwrap()
}

fn wrap(value: Value) -> Value {
    Value::Domain(Box::new(value))
}

#[test]
fn domain_shape_wraps_the_field_type() {
    assert_eq!(
        wrapper("SessionId", Some("session_id"), ValueType::Text),
        Shape::Domain(DomainShape { name: "session_id".to_string(), inner: ValueType::Text })
    );
    assert_eq!(
        wrapper("SessionId", None, ValueType::Int4),
        Shape::Domain(DomainShape { name: "SessionId".to_string(), inner: ValueType::Int4 })
    );
}

#[test]
fn domain_accepts_its_name_over_an_accepted_type() {
    let shape = wrapper("SessionId", Some("session_id"), ValueType::Text);
    assert!(shape.accepts(&domain_type("session_id", simple("text", 25))));
    assert!(shape.accepts(&domain_type("session_id", simple("varchar", 1043))));
    assert!(!shape.accepts(&domain_type("SessionId", simple("text", 25))));
    assert!(!shape.accepts(&domain_type("session_id", simple("int4", 23))));
    assert!(!shape.accepts(&simple("session_id", 25)));
    assert!(!shape.accepts(&simple("text", 25)));
    let an_enum =
        TypeDescriptor { name: "session_id".to_string(), oid: 16500, kind: Kind::Enum(vec![]) };
    assert!(!shape.accepts(&an_enum));
}

#[test]
fn domain_is_encoded_as_the_wrapped_value() {
    let shape = wrapper("Count", Some("count"), ValueType::Int4);
    let ty = domain_type("count", simple("int4", 23));
    let mut out = Vec::new();
    assert_eq!(shape.to_sql_checked(&wrap(Value::Int4(258)), &ty, &mut out), Ok(IsNull::No));
    let mut inner = Vec::new();
    assert_eq!(
        ValueType::Int4.to_sql_checked(&Value::Int4(258), &simple("int4", 23), &mut inner),
        Ok(IsNull::No)
    );
    assert_eq!(out, inner);
    assert_eq!(out, vec![0, 0, 1, 2]);
}

#[test]
fn domain_over_text() {
    let shape = wrapper("SessionId", Some("session_id"), ValueType::Text);
    let ty = domain_type("session_id", simple("text", 25));
    let mut out = Vec::new();
    let value = wrap(Value::Text("a\u{e9}".to_string()));
    assert_eq!(shape.to_sql_checked(&value, &ty, &mut out), Ok(IsNull::No));
    assert_eq!(out, vec![b'a', 0xc3, 0xa9]);
}

#[test]
fn domain_over_a_missing_value_is_null() {
    let shape = wrapper("Maybe", Some("maybe"), ValueType::Optional(Box::new(ValueType::Int4)));
    let ty = domain_type("maybe", simple("int4", 23));
    let mut out = Vec::new();
    assert_eq!(shape.to_sql_checked(&wrap(Value::Optional(None)), &ty, &mut out), Ok(IsNull::Yes));
    assert!(out.is_empty());
    let present = wrap(Value::Optional(Some(Box::new(Value::Int4(-1)))));
    assert_eq!(shape.to_sql_checked(&present, &ty, &mut out), Ok(IsNull::No));
    assert_eq!(out, vec![255, 255, 255, 255]);
}

#[test]
fn domain_over_a_domain() {
    let inner = wrapper("Inner", Some("inner"), ValueType::Int4);
    let shape = wrapper("Outer", Some("outer"), ValueType::Derived(Box::new(inner)));
    let ty = domain_type("outer", domain_type("inner", simple("int4", 23)));
    assert!(shape.accepts(&ty));
    assert!(!shape.accepts(&domain_type("outer", simple("int4", 23))));
    let mut out = Vec::new();
    assert_eq!(shape.to_sql_checked(&wrap(wrap(Value::Int4(1))), &ty, &mut out), Ok(IsNull::No));
    assert_eq!(out, vec![0, 0, 0, 1]);
}

#[test]
fn domain_over_a_record() {
    let point = expand(Annotatable::Item(Item {
        ident: "point".to_string(),
        name: None,
        kind: ItemKind::Struct(vec![FieldDef {
            ident: "x".to_string(),
            name: None,
            ty: ValueType::Int4,
        }]),
    }))
    .unwrap();
    let shape = wrapper("Origin", Some("origin"), ValueType::Derived(Box::new(point)));
    let point_type = TypeDescriptor {
        name: "point".to_string(),
        oid: 600,
        kind: Kind::Composite(vec![FieldDescriptor {
            name: "x".to_string(),
            type_: simple("int4", 23),
        }]),
    };
    let ty = domain_type("origin", point_type);
    let mut out = Vec::new();
    let value = wrap(Value::Composite(vec![Value::Int4(9)]));
    assert_eq!(shape.to_sql_checked(&value, &ty, &mut out), Ok(IsNull::No));
    assert_eq!(out, vec![0, 0, 0, 1, 0, 0, 0, 23, 0, 0, 0, 4, 0, 0, 0, 9]);
}

#[test]
fn domain_refuses_a_bare_value() {
    let shape = wrapper("Count", Some("count"), ValueType::Int4);
    let ty = domain_type("count", simple("int4", 23));
    let mut out = Vec::new();
    assert_eq!(shape.to_sql_checked(&Value::Int4(1), &ty, &mut out), Err(EncodeError::WrongType));
    assert_eq!(
        shape.to_sql_checked(&wrap(Value::Text("1".to_string())), &ty, &mut out),
        Err(EncodeError::WrongType)
    );
    assert!(out.is_empty());
}
