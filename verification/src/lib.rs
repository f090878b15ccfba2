//! Binary encoders and acceptance predicates for PostgreSQL enum, domain and
//! composite types, derived from a description of the value's shape.
//!
//! A declaration ([`item`]) is turned by [`expand`] into a [`Shape`]: an enum
//! with its table of variants, a wrapper around one value, or a record of
//! named fields. A shape decides which type descriptors ([`descriptor`]) it
//! accepts ([`accepts`]) and how a [`Value`] of the shape is written for an
//! accepted type ([`encode`]): an enum as the name of its variant, a wrapper
//! as the value inside, a record as a frame of OIDs, lengths and values in the
//! order of the composite type. What holds of every encoding is proved in
//! [`laws`].

pub mod accepts;
pub mod descriptor;
pub mod encode;
pub mod error;
pub mod item;
pub mod laws;
pub mod scalar;
pub mod shape;
pub mod value;
pub mod wire;

pub use crate::descriptor::{FieldDescriptor, Kind, TypeDescriptor};
pub use crate::error::{DeriveError, EncodeError, IsNull};
pub use crate::item::{expand, Annotatable, FieldDef, Item, ItemKind, VariantDef};
pub use crate::shape::{
    CompositeShape, DomainShape, EnumShape, Shape, ShapeField, ValueType, Variant,
};
pub use crate::value::Value;
