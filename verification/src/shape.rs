//! Shapes: what is known of a value's type when its codec is derived.

use vstd::prelude::*;

verus! {

/// A variant of an enum shape.
#[derive(Debug, PartialEq, Eq)]
pub struct Variant {
    /// The identifier of the variant in the declaration.
    pub ident: String,
    /// The name of the variant on the wire.
    pub name: String,
}

/// A field of a composite shape.
#[derive(Debug, PartialEq, Eq)]
pub struct ShapeField {
    /// The name of the field on the wire.
    pub name: String,
    /// The identifier of the field in the declaration.
    pub ident: String,
    /// The declared type of the field's value.
    pub ty: ValueType,
}

/// An enumeration of named variants.
#[derive(Debug, PartialEq, Eq)]
pub struct EnumShape {
    /// The name of the type on the wire.
    pub name: String,
    /// The variants in the order of their declaration.
    pub variants: Vec<Variant>,
}

/// A wrapper around a single value.
#[derive(Debug, PartialEq, Eq)]
pub struct DomainShape {
    /// The name of the type on the wire.
    pub name: String,
    /// The type of the wrapped value.
    pub inner: ValueType,
}

/// A record of named fields. A value holds its fields in the order of this
/// list; the order on the wire is that of the type descriptor.
#[derive(Debug, PartialEq, Eq)]
pub struct CompositeShape {
    /// The name of the type on the wire.
    pub name: String,
    /// The fields in the order of their declaration.
    pub fields: Vec<ShapeField>,
}

/// The shape of a type for which a codec is derived.
#[derive(Debug, PartialEq, Eq)]
pub enum Shape {
    /// An enumeration.
    Enum(EnumShape),
    /// A wrapper around a single value.
    Domain(DomainShape),
    /// A record of named fields.
    Composite(CompositeShape),
}

/// The declared type of a value.
#[derive(Debug, PartialEq, Eq)]
pub enum ValueType {
    /// A 32-bit signed integer.
    Int4,
    /// A string.
    Text,
    /// A double-precision number.
    Float8,
    /// A value of the type inside, or nothing.
    Optional(Box<ValueType>),
    /// A value of a type with a derived codec.
    Derived(Box<Shape>),
}

/// The position of the first field at or after `from` whose wire name is
/// `name`, if there is one.
pub open spec fn find_from(fields: Seq<ShapeField>, name: Seq<char>, from: int) -> Option<int>
    decreases fields.len() - from,
{
    if from < 0 || from >= fields.len() {
        None
    } else if fields[from].name@ == name {
        Some(from)
    } else {
        find_from(fields, name, from + 1)
    }
}

/// The position of the field that a wire name selects: the first one of that
/// name, so that of two fields with one name the later is never selected.
pub open spec fn find_field(fields: Seq<ShapeField>, name: Seq<char>) -> Option<int> {
    find_from(fields, name, 0)
}

/// What `find_from` finds is the first match from `from` on, and it finds
/// nothing only where nothing matches.
pub proof fn lemma_find_from(fields: Seq<ShapeField>, name: Seq<char>, from: int)
    requires
        0 <= from,
    ensures
        match find_from(fields, name, from) {
            Some(k) => {
                &&& from <= k < fields.len()
                &&& fields[k].name@ == name
                &&& forall|j: int| from <= j < k ==> (#[trigger] fields[j]).name@ != name
            },
            None => forall|j: int|
                from <= j < fields.len() ==> (#[trigger] fields[j]).name@ != name,
        },
    decreases fields.len() - from,
{
    if from < fields.len() && fields[from].name@ != name {
        lemma_find_from(fields, name, from + 1);
    }
}

/// What `find_field` finds is the first field of the name, and it finds
/// nothing only where no field has the name.
pub proof fn lemma_find_field(fields: Seq<ShapeField>, name: Seq<char>)
    ensures
        match find_field(fields, name) {
            Some(k) => {
                &&& 0 <= k < fields.len()
                &&& fields[k].name@ == name
                &&& forall|j: int| 0 <= j < k ==> (#[trigger] fields[j]).name@ != name
            },
            None => forall|j: int| 0 <= j < fields.len() ==> (#[trigger] fields[j]).name@ != name,
        },
{
    lemma_find_from(fields, name, 0);
}

/// Looks up the field that the wire name `name` selects.
pub fn field_index(fields: &Vec<ShapeField>, name: &String) -> (found: Option<usize>)
    ensures
        match found {
            Some(k) => find_field(fields@, name@) == Some(k as int) && k < fields@.len(),
            None => find_field(fields@, name@) is None,
        },
{
    let mut i: usize = 0;
    while i < fields.len()
        invariant
            i <= fields@.len(),
            find_field(fields@, name@) == find_from(fields@, name@, i as int),
        decreases fields@.len() - i,
    {
        if fields[i].name == *name {
            return Some(i);
        }
        i += 1;
    }
    None
}

} // verus!
