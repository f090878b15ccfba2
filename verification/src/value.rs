//! Values, and which values a type has.

use vstd::prelude::*;
use crate::shape::{CompositeShape, DomainShape, EnumShape, Shape, ValueType};

verus! {

/// A value to encode.
#[derive(Debug, PartialEq, Eq)]
pub enum Value {
    /// A 32-bit signed integer.
    Int4(i32),
    /// A string.
    Text(String),
    /// A double-precision number, held as the 64 bits of its IEEE 754 form.
    Float8(u64),
    /// A value that may be missing.
    Optional(Option<Box<Value>>),
    /// A value of an enum: the position of its variant in the declaration.
    Enum(usize),
    /// A value of a wrapper: the wrapped value.
    Domain(Box<Value>),
    /// A value of a record: its fields in the order of their declaration.
    Composite(Vec<Value>),
}

impl Value {
    /// Whether this is a value of the declared type `ty`.
    pub open spec fn has_type(self, ty: ValueType) -> bool
        decreases ty,
    {
        match ty {
            ValueType::Int4 => self is Int4,
            ValueType::Text => self is Text,
            ValueType::Float8 => self is Float8,
            ValueType::Optional(inner) => match self {
                Value::Optional(None) => true,
                Value::Optional(Some(value)) => value.has_type(*inner),
                _ => false,
            },
            ValueType::Derived(shape) => self.has_shape(*shape),
        }
    }

    /// Whether this is a value of the enum `shape`: one of its variants.
    pub open spec fn is_variant_of(self, shape: EnumShape) -> bool {
        self matches Value::Enum(index) && index < shape.variants@.len()
    }

    /// Whether this is a value of the wrapper `shape`: it wraps a value of
    /// the inner type.
    pub open spec fn is_wrapper_of(self, shape: DomainShape) -> bool
        decreases shape,
    {
        self matches Value::Domain(value) && value.has_type(shape.inner)
    }

    /// Whether this is a value of the record `shape`: it has one value for
    /// each field, of the field's type.
    pub open spec fn is_record_of(self, shape: CompositeShape) -> bool
        decreases shape,
    {
        &&& self matches Value::Composite(values)
        &&& values@.len() == shape.fields@.len()
        &&& forall|i: int|
            0 <= i < shape.fields@.len() ==> (#[trigger] values@[i]).has_type(shape.fields@[i].ty)
    }

    /// Whether this is a value of a type of the shape `shape`.
    pub open spec fn has_shape(self, shape: Shape) -> bool
        decreases shape,
    {
        match shape {
            Shape::Enum(e) => self.is_variant_of(e),
            Shape::Domain(d) => self.is_wrapper_of(d),
            Shape::Composite(c) => self.is_record_of(c),
        }
    }

    /// Tells whether this is a value of the declared type `ty`.
    pub fn is_of_type(&self, ty: &ValueType) -> (yes: bool)
        ensures
            yes == self.has_type(*ty),
        decreases ty,
    {
        match ty {
            ValueType::Int4 => matches!(self, Value::Int4(_)),
            ValueType::Text => matches!(self, Value::Text(_)),
            ValueType::Float8 => matches!(self, Value::Float8(_)),
            ValueType::Optional(inner) => match self {
                Value::Optional(None) => true,
                Value::Optional(Some(value)) => value.is_of_type(inner),
                _ => false,
            },
            ValueType::Derived(shape) => self.is_of_shape(shape),
        }
    }

    /// Tells whether this is a value of a type of the shape `shape`.
    pub fn is_of_shape(&self, shape: &Shape) -> (yes: bool)
        ensures
            yes == self.has_shape(*shape),
        decreases shape,
    {
        match shape {
            Shape::Enum(e) => match self {
                Value::Enum(index) => *index < e.variants.len(),
                _ => false,
            },
            Shape::Domain(d) => match self {
                Value::Domain(value) => value.is_of_type(&d.inner),
                _ => false,
            },
            Shape::Composite(c) => match self {
                Value::Composite(values) => {
                    if values.len() != c.fields.len() {
                        return false;
                    }
                    let mut i: usize = 0;
                    while i < values.len()
                        invariant
                            i <= values@.len(),
                            values@.len() == c.fields@.len(),
                            *shape == Shape::Composite(*c),
                            *self == Value::Composite(*values),
                            forall|j: int|
                                0 <= j < i ==> (#[trigger] values@[j]).has_type(c.fields@[j].ty),
                        decreases values@.len() - i,
                    {
                        assert(decreases_to!(*shape => shape->Composite_0));
                        if !values[i].is_of_type(&c.fields[i].ty) {
                            return false;
                        }
                        i += 1;
                    }
                    true
                },
                _ => false,
            },
        }
    }
}

} // verus!
