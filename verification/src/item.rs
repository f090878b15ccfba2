//! Declarations, and the derivation of a shape from a declaration.

use vstd::prelude::*;
use crate::error::DeriveError;
use crate::shape::{CompositeShape, DomainShape, EnumShape, Shape, ShapeField, ValueType, Variant};

verus! {

/// A variant of a declared enum.
#[derive(Debug, PartialEq, Eq)]
pub struct VariantDef {
    /// The identifier of the variant.
    pub ident: String,
    /// The name given to the variant in place of its identifier, if any.
    pub name: Option<String>,
}

/// A named field of a declared struct.
#[derive(Debug, PartialEq, Eq)]
pub struct FieldDef {
    /// The identifier of the field.
    pub ident: String,
    /// The name given to the field in place of its identifier, if any.
    pub name: Option<String>,
    /// The type of the field.
    pub ty: ValueType,
}

/// What a declaration declares.
#[derive(Debug, PartialEq, Eq)]
pub enum ItemKind {
    /// An enum, with its variants.
    Enum(Vec<VariantDef>),
    /// A tuple struct, with the types of its fields.
    TupleStruct(Vec<ValueType>),
    /// A struct with named fields.
    Struct(Vec<FieldDef>),
    /// A struct without fields.
    UnitStruct,
    /// Anything else: a function, a module, a trait.
    Other,
}

/// A declaration.
#[derive(Debug, PartialEq, Eq)]
pub struct Item {
    /// The identifier of the declared type.
    pub ident: String,
    /// The name given to the type in place of its identifier, if any.
    pub name: Option<String>,
    /// What is declared.
    pub kind: ItemKind,
}

/// What a derivation can be asked for.
#[derive(Debug, PartialEq, Eq)]
pub enum Annotatable {
    /// A declaration of its own.
    Item(Item),
    /// A declaration inside a trait.
    TraitItem,
    /// A declaration inside an impl.
    ImplItem,
}

/// The name on the wire of what is declared as `ident`: the name given in
/// its place where there is one, else the identifier itself.
pub open spec fn resolved_name(name: Option<String>, ident: String) -> Seq<char> {
    match name {
        Some(given) => given@,
        None => ident@,
    }
}

/// Resolves the name on the wire of what is declared as `ident`.
pub fn resolve_name(name: Option<String>, ident: &String) -> (resolved: String)
    ensures
        resolved@ == resolved_name(name, *ident),
{
    match name {
        Some(given) => given,
        None => ident.clone(),
    }
}

/// Whether `variants` is the table of the declared variants `defs`: one entry
/// for each, in their order, with its identifier and its resolved name.
pub open spec fn is_variant_table(variants: Seq<Variant>, defs: Seq<VariantDef>) -> bool {
    &&& variants.len() == defs.len()
    &&& forall|i: int|
        0 <= i < defs.len() ==> {
            &&& (#[trigger] variants[i]).ident@ == defs[i].ident@
            &&& variants[i].name@ == resolved_name(defs[i].name, defs[i].ident)
        }
}

/// Builds the table of an enum's variants.
pub fn get_variants(defs: Vec<VariantDef>) -> (variants: Vec<Variant>)
    ensures
        is_variant_table(variants@, defs@),
{
    let mut variants: Vec<Variant> = Vec::new();
    for def in iter: defs
        invariant
            variants@.len() == iter.index(),
            forall|i: int|
                0 <= i < variants@.len() ==> {
                    &&& (#[trigger] variants@[i]).ident@ == defs@[i].ident@
                    &&& variants@[i].name@ == resolved_name(defs@[i].name, defs@[i].ident)
                },
    {
        let name = resolve_name(def.name, &def.ident);
        variants.push(Variant { ident: def.ident, name });
    }
    variants
}

/// Whether `fields` is the table of the declared fields `defs`: one entry for
/// each, in their order, with its resolved name, its identifier and its type.
pub open spec fn is_field_table(fields: Seq<ShapeField>, defs: Seq<FieldDef>) -> bool {
    &&& fields.len() == defs.len()
    &&& forall|i: int|
        0 <= i < defs.len() ==> {
            &&& (#[trigger] fields[i]).name@ == resolved_name(defs[i].name, defs[i].ident)
            &&& fields[i].ident@ == defs[i].ident@
            &&& fields[i].ty == defs[i].ty
        }
}

/// Builds the table of a struct's fields.
pub fn get_fields(defs: Vec<FieldDef>) -> (fields: Vec<ShapeField>)
    ensures
        is_field_table(fields@, defs@),
{
    let mut fields: Vec<ShapeField> = Vec::new();
    for def in iter: defs
        invariant
            fields@.len() == iter.index(),
            forall|i: int|
                0 <= i < fields@.len() ==> {
                    &&& (#[trigger] fields@[i]).name@ == resolved_name(
                        defs@[i].name,
                        defs@[i].ident,
                    )
                    &&& fields@[i].ident@ == defs@[i].ident@
                    &&& fields@[i].ty == defs@[i].ty
                },
    {
        let name = resolve_name(def.name, &def.ident);
        fields.push(ShapeField { name, ident: def.ident, ty: def.ty });
    }
    fields
}

/// Whether a shape can be derived for what is annotated: for an enum, for a
/// tuple struct of exactly one field and for a struct with named fields.
pub open spec fn derivable(annotatable: Annotatable) -> bool {
    annotatable matches Annotatable::Item(item) && match item.kind {
        ItemKind::Enum(_) => true,
        ItemKind::TupleStruct(types) => types@.len() == 1,
        ItemKind::Struct(_) => true,
        ItemKind::UnitStruct => false,
        ItemKind::Other => false,
    }
}

/// Whether `shape` is the shape of the declaration `item`.
///
/// - An enum gives an enum shape with the table of its variants.
/// - A tuple struct of one field gives a wrapper around that field's type.
/// - A struct with named fields gives a record with the table of its fields.
///
/// Each of them has the resolved name of the declared type.
pub open spec fn derives(item: Item, shape: Shape) -> bool {
    match item.kind {
        ItemKind::Enum(defs) => {
            &&& shape matches Shape::Enum(e)
            &&& e.name@ == resolved_name(item.name, item.ident)
            &&& is_variant_table(e.variants@, defs@)
        },
        ItemKind::TupleStruct(types) => {
            &&& types@.len() == 1
            &&& shape matches Shape::Domain(d)
            &&& d.name@ == resolved_name(item.name, item.ident)
            &&& d.inner == types@[0]
        },
        ItemKind::Struct(defs) => {
            &&& shape matches Shape::Composite(c)
            &&& c.name@ == resolved_name(item.name, item.ident)
            &&& is_field_table(c.fields@, defs@)
        },
        ItemKind::UnitStruct => false,
        ItemKind::Other => false,
    }
}

/// Derives the shape of what is annotated, from which its acceptance
/// predicate and its encoder follow. Fails where no shape can be derived.
pub fn expand(annotatable: Annotatable) -> (result: Result<Shape, DeriveError>)
    ensures
        result is Ok <==> derivable(annotatable),
        match result {
            Ok(shape) => annotatable matches Annotatable::Item(item) && derives(item, shape),
            Err(error) => !derivable(annotatable) && error == DeriveError::UnsupportedShape,
        },
{
    let item = match annotatable {
        Annotatable::Item(item) => item,
        _ => {
            return Err(DeriveError::UnsupportedShape);
        },
    };
    let name = resolve_name(item.name, &item.ident);
    match item.kind {
        ItemKind::Enum(defs) => {
            let variants = get_variants(defs);
            Ok(Shape::Enum(EnumShape { name, variants }))
        },
        ItemKind::TupleStruct(mut types) => {
            if types.len() != 1 {
                return Err(DeriveError::UnsupportedShape);
            }
            match types.pop() {
                Some(inner) => Ok(Shape::Domain(DomainShape { name, inner })),
                None => Err(DeriveError::UnsupportedShape),
            }
        },
        ItemKind::Struct(defs) => {
            let fields = get_fields(defs);
            Ok(Shape::Composite(CompositeShape { name, fields }))
        },
        _ => Err(DeriveError::UnsupportedShape),
    }
}

} // verus!
