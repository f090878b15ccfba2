//! Type descriptors: what the database's catalog says of a type at run time.

use vstd::prelude::*;

verus! {

/// The OID of the built-in type `name`.
pub const NAME_OID: u32 = 19;

/// The OID of the built-in type `int4`.
pub const INT4_OID: u32 = 23;

/// The OID of the built-in type `text`.
pub const TEXT_OID: u32 = 25;

/// The OID of the built-in type `float8`.
pub const FLOAT8_OID: u32 = 701;

/// The OID of the built-in pseudo-type `unknown`.
pub const UNKNOWN_OID: u32 = 705;

/// The OID of the built-in type `bpchar`.
pub const BPCHAR_OID: u32 = 1042;

/// The OID of the built-in type `varchar`.
pub const VARCHAR_OID: u32 = 1043;

/// The kind of a type.
#[derive(Debug, PartialEq, Eq)]
pub enum Kind {
    /// An enumerated type, with the names of its variants.
    Enum(Vec<String>),
    /// A domain over the type inside.
    Domain(Box<TypeDescriptor>),
    /// A composite type, with its fields in the order of the wire layout.
    Composite(Vec<FieldDescriptor>),
    /// Any other type: a base type, an array, a range, a pseudo-type.
    Other,
}

/// A type as the catalog describes it.
#[derive(Debug, PartialEq, Eq)]
pub struct TypeDescriptor {
    /// The name of the type.
    pub name: String,
    /// The numeric identifier of the type.
    pub oid: u32,
    /// The kind of the type, with what it is made of.
    pub kind: Kind,
}

/// A field of a composite type. Its OID on the wire is the OID of its type.
#[derive(Debug, PartialEq, Eq)]
pub struct FieldDescriptor {
    /// The name of the field.
    pub name: String,
    /// The type of the field.
    pub type_: TypeDescriptor,
}

} // verus!
