use postgres_derive_codegen::item::{get_fields, get_variants, resolve_name};
use postgres_derive_codegen::{
    expand, Annotatable, CompositeShape, DeriveError, FieldDef, Item, ItemKind, Shape, ShapeField,
    ValueType, Variant, VariantDef,
};

fn item(kind: ItemKind) -> Annotatable {
    Annotatable::Item(Item { ident: "Thing".to_string(), name: None, kind })
}

#[test]
fn resolve_name_prefers_the_given_name() {
    assert_eq!(resolve_name(Some("given".to_string()), &"Declared".to_string()), "given");
    assert_eq!(resolve_name(None, &"Declared".to_string()), "Declared");
    assert_eq!(resolve_name(Some(String::new()), &"Declared".to_string()), "");
}

#[test]
fn expand_refuses_what_is_no_item() {
    assert_eq!(expand(Annotatable::TraitItem), Err(DeriveError::UnsupportedShape));
    assert_eq!(expand(Annotatable::ImplItem), Err(DeriveError::UnsupportedShape));
}

#[test]
fn expand_refuses_other_items() {
    assert_eq!(expand(item(ItemKind::UnitStruct)), Err(DeriveError::UnsupportedShape));
    assert_eq!(expand(item(ItemKind::Other)), Err(DeriveError::UnsupportedShape));
}

#[test]
fn expand_refuses_tuple_structs_not_of_one_field() {
    assert_eq!(expand(item(ItemKind::TupleStruct(vec![]))), Err(DeriveError::UnsupportedShape));
    assert_eq!(
        expand(item(ItemKind::TupleStruct(vec![ValueType::Int4, ValueType::Text]))),
        Err(DeriveError::UnsupportedShape)
    );
    assert!(expand(item(ItemKind::TupleStruct(vec![ValueType::Int4]))).is_ok());
}

#[test]
fn derive_error_message() {
    assert_eq!(
        DeriveError::UnsupportedShape.message(),
        "#[derive(ToSql)] can only be applied to structs, single field tuple structs, and enums"
    );
}

#[test]
fn expand_keeps_the_order_of_fields() {
    let shape = expand(Annotatable::Item(Item {
        ident: "InventoryItem".to_string(),
        name: Some("inventory_item".to_string()),
        kind: ItemKind::Struct(vec![
            FieldDef { ident: "_name".to_string(), name: Some("name".to_string()), ty: ValueType::Text },
            FieldDef { ident: "supplier_id".to_string(), name: None, ty: ValueType::Int4 },
        ]),
    }));
    let expected = Shape::Composite(CompositeShape {
        name: "inventory_item".to_string(),
        fields: vec![
            ShapeField { name: "name".to_string(), ident: "_name".to_string(), ty: ValueType::Text },
            ShapeField {
                name: "supplier_id".to_string(),
                ident: "supplier_id".to_string(),
                ty: ValueType::Int4,
            },
        ],
    });
    assert_eq!(shape, Ok(expected));
}

#[test]
fn variant_table() {
    let variants = get_variants(vec![
        VariantDef { ident: "A".to_string(), name: None },
        VariantDef { ident: "B".to_string(), name: Some("b".to_string()) },
    ]);
    assert_eq!(
        variants,
        vec![
            Variant { ident: "A".to_string(), name: "A".to_string() },
            Variant { ident: "B".to_string(), name: "b".to_string() },
        ]
    );
    assert!(get_variants(vec![]).is_empty());
}

#[test]
fn field_table() {
    let fields = get_fields(vec![FieldDef {
        ident: "a".to_string(),
        name: Some("alpha".to_string()),
        ty: ValueType::Optional(Box::new(ValueType::Float8)),
    }]);
    assert_eq!(
        fields,
        vec![ShapeField {
            name: "alpha".to_string(),
            ident: "a".to_string(),
            ty: ValueType::Optional(Box::new(ValueType::Float8)),
        }]
    );
}
