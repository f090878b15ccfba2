//! Acceptance: whether a type descriptor is one that values of a declared
//! type can be encoded for.

use vstd::prelude::*;
use vstd::string::StringExecFns;
use crate::descriptor::{
    FieldDescriptor, Kind, TypeDescriptor, BPCHAR_OID, FLOAT8_OID, INT4_OID, NAME_OID, TEXT_OID,
    UNKNOWN_OID, VARCHAR_OID,
};
use crate::shape::{
    field_index, find_field, CompositeShape, DomainShape, EnumShape, Shape, ShapeField, ValueType,
};

verus! {

/// Whether `oid` is that of a built-in type that takes a string: `varchar`,
/// `text`, `bpchar`, `name` or `unknown`.
pub open spec fn is_text_oid(oid: u32) -> bool {
    oid == VARCHAR_OID || oid == TEXT_OID || oid == BPCHAR_OID || oid == NAME_OID || oid
        == UNKNOWN_OID
}

/// Whether `name` is that of a type of an extension that takes a string.
pub open spec fn is_text_name(name: Seq<char>) -> bool {
    name == "citext"@ || name == "ltree"@ || name == "lquery"@ || name == "ltxtquery"@
}

/// Whether a string can be encoded for the type `ty`: for the built-in string
/// types, which are told by their OID, and for the string types of
/// extensions, which are told by their name.
pub open spec fn text_accepts(ty: TypeDescriptor) -> bool {
    is_text_oid(ty.oid) || is_text_name(ty.name@)
}

/// Tells whether a string can be encoded for the type `ty`.
pub fn accepts_text(ty: &TypeDescriptor) -> (yes: bool)
    ensures
        yes == text_accepts(*ty),
{
    if ty.oid == VARCHAR_OID || ty.oid == TEXT_OID || ty.oid == BPCHAR_OID || ty.oid == NAME_OID
        || ty.oid == UNKNOWN_OID {
        return true;
    }
    ty.name == String::from_str("citext") || ty.name == String::from_str("ltree") || ty.name
        == String::from_str("lquery") || ty.name == String::from_str("ltxtquery")
}

/// Whether a composite shape with the fields `fields` has a field for the
/// descriptor's field `field`: the shape's first field of that name exists
/// and its declared type accepts the type of `field`.
pub open spec fn field_accepts(fields: Seq<ShapeField>, field: FieldDescriptor) -> bool
    decreases fields,
{
    match find_field(fields, field.name@) {
        Some(k) => 0 <= k < fields.len() && fields[k].ty.accepts_spec(field.type_),
        None => false,
    }
}

impl ValueType {
    /// Whether values of this declared type can be encoded for the type `ty`.
    ///
    /// An integer accepts `int4` and a double `float8`, which are told by
    /// their OID; a string accepts what [`text_accepts`] says. A value that
    /// may be missing accepts what the value inside accepts.
    pub open spec fn accepts_spec(self, ty: TypeDescriptor) -> bool
        decreases self,
    {
        match self {
            ValueType::Int4 => ty.oid == INT4_OID,
            ValueType::Text => text_accepts(ty),
            ValueType::Float8 => ty.oid == FLOAT8_OID,
            ValueType::Optional(inner) => inner.accepts_spec(ty),
            ValueType::Derived(shape) => shape.accepts_spec(ty),
        }
    }

    /// Tells whether values of this declared type can be encoded for `ty`.
    pub fn accepts(&self, ty: &TypeDescriptor) -> (yes: bool)
        ensures
            yes == self.accepts_spec(*ty),
        decreases self,
    {
        match self {
            ValueType::Int4 => ty.oid == INT4_OID,
            ValueType::Text => accepts_text(ty),
            ValueType::Float8 => ty.oid == FLOAT8_OID,
            ValueType::Optional(inner) => inner.accepts(ty),
            ValueType::Derived(shape) => shape.accepts(ty),
        }
    }
}

impl EnumShape {
    /// An enum accepts the enumerated type of its own name, whatever variants
    /// the descriptor lists.
    pub open spec fn accepts_spec(self, ty: TypeDescriptor) -> bool {
        ty.name@ == self.name@ && ty.kind is Enum
    }

    /// Tells whether `ty` is the enumerated type of this shape's name.
    pub fn accepts(&self, ty: &TypeDescriptor) -> (yes: bool)
        ensures
            yes == self.accepts_spec(*ty),
    {
        if ty.name != self.name {
            return false;
        }
        match &ty.kind {
            Kind::Enum(_) => true,
            _ => false,
        }
    }
}

impl DomainShape {
    /// A wrapper accepts the domain of its own name whose inner type the
    /// wrapped value's type accepts.
    pub open spec fn accepts_spec(self, ty: TypeDescriptor) -> bool
        decreases self,
    {
        &&& ty.kind matches Kind::Domain(inner)
        &&& ty.name@ == self.name@
        &&& self.inner.accepts_spec(*inner)
    }

    /// Tells whether `ty` is the domain of this shape's name over a type that
    /// the wrapped value's type accepts.
    pub fn accepts(&self, ty: &TypeDescriptor) -> (yes: bool)
        ensures
            yes == self.accepts_spec(*ty),
        decreases self,
    {
        match &ty.kind {
            Kind::Domain(inner) => ty.name == self.name && self.inner.accepts(inner),
            _ => false,
        }
    }
}

impl CompositeShape {
    /// A record accepts the composite type of its own name that has as many
    /// fields as the record, each of them accepted by the record's field of
    /// the same name. The order of the descriptor's fields plays no part.
    pub open spec fn accepts_spec(self, ty: TypeDescriptor) -> bool
        decreases self,
    {
        &&& ty.name@ == self.name@
        &&& ty.kind matches Kind::Composite(fields)
        &&& fields@.len() == self.fields@.len()
        &&& forall|j: int|
            0 <= j < fields@.len() ==> field_accepts(self.fields@, #[trigger] fields@[j])
    }

    /// Tells whether `ty` is the composite type of this shape's name with
    /// fields that the shape's fields of the same names accept.
    pub fn accepts(&self, ty: &TypeDescriptor) -> (yes: bool)
        ensures
            yes == self.accepts_spec(*ty),
        decreases self,
    {
        if ty.name != self.name {
            return false;
        }
        match &ty.kind {
            Kind::Composite(fields) => {
                if fields.len() != self.fields.len() {
                    return false;
                }
                let mut j: usize = 0;
                while j < fields.len()
                    invariant
                        j <= fields@.len(),
                        ty.kind == Kind::Composite(*fields),
                        forall|i: int|
                            0 <= i < j ==> field_accepts(self.fields@, #[trigger] fields@[i]),
                    decreases fields@.len() - j,
                {
                    let accepted = match field_index(&self.fields, &fields[j].name) {
                        Some(k) => self.fields[k].ty.accepts(&fields[j].type_),
                        None => false,
                    };
                    if !accepted {
                        return false;
                    }
                    j += 1;
                }
                true
            },
            _ => false,
        }
    }
}

impl Shape {
    /// Whether values of a type of this shape can be encoded for the type `ty`.
    pub open spec fn accepts_spec(self, ty: TypeDescriptor) -> bool
        decreases self,
    {
        match self {
            Shape::Enum(e) => e.accepts_spec(ty),
            Shape::Domain(d) => d.accepts_spec(ty),
            Shape::Composite(c) => c.accepts_spec(ty),
        }
    }

    /// Tells whether values of a type of this shape can be encoded for `ty`.
    pub fn accepts(&self, ty: &TypeDescriptor) -> (yes: bool)
        ensures
            yes == self.accepts_spec(*ty),
        decreases self,
    {
        match self {
            Shape::Enum(e) => e.accepts(ty),
            Shape::Domain(d) => d.accepts(ty),
            Shape::Composite(c) => c.accepts(ty),
        }
    }
}

} // verus!
