//! Encoding: the bytes that stand for a value in the binary wire format.

use vstd::prelude::*;
use vstd::utf8::encode_utf8;
use crate::accepts::field_accepts;
use crate::descriptor::{FieldDescriptor, Kind, TypeDescriptor};
use crate::error::{EncodeError, IsNull};
use crate::laws::{lemma_shape_outcome, lemma_type_outcome};
use crate::scalar::{int4_to_sql, text_bytes, text_to_sql};
use crate::shape::{
    field_index, find_field, lemma_find_field, CompositeShape, DomainShape, EnumShape, Shape,
    ShapeField, ValueType,
};
use crate::value::Value;
use crate::wire::{be_i32, be_u64, write_be_count, write_be_i32, write_be_u32, write_be_u64};

verus! {

/// The longest value that a field of a composite can hold, in bytes.
pub const MAX_VALUE_LEN: usize = 0x7fff_ffff;

/// What an encoder does: the bytes that it appends to the output, and what it
/// returns.
pub struct Encoding {
    /// The bytes appended to the output, also where the encoder fails.
    pub bytes: Seq<u8>,
    /// Whether the value is null, or why it could not be encoded.
    pub result: Result<IsNull, EncodeError>,
}

impl Encoding {
    /// A value that is not null, with its bytes.
    pub open spec fn value(bytes: Seq<u8>) -> Encoding {
        Encoding { bytes, result: Ok(IsNull::No) }
    }

    /// The null value: no bytes.
    pub open spec fn null() -> Encoding {
        Encoding { bytes: Seq::empty(), result: Ok(IsNull::Yes) }
    }

    /// A failure after `bytes` were written.
    pub open spec fn failure(bytes: Seq<u8>, error: EncodeError) -> Encoding {
        Encoding { bytes, result: Err(error) }
    }

    /// What stands for a value that is not of the declared type, or for a
    /// descriptor that the type does not accept. No encoder is called on such.
    pub open spec fn mismatch() -> Encoding {
        Encoding::failure(Seq::empty(), EncodeError::WrongType)
    }
}

/// What follows the OID of a field of a composite, given how the field's
/// value was encoded into a buffer of its own.
///
/// - A null value is the length `-1` and nothing else.
/// - A value of at most `i32::MAX` bytes is its length, then its bytes.
/// - A longer value writes nothing and fails as too large.
/// - A failure of the value's encoder writes nothing and is handed on.
pub open spec fn value_frame(value: Encoding) -> Encoding {
    match value.result {
        Err(error) => Encoding::failure(Seq::empty(), error),
        Ok(IsNull::Yes) => Encoding::value(be_i32(-1)),
        Ok(IsNull::No) => if value.bytes.len() > i32::MAX {
            Encoding::failure(Seq::empty(), EncodeError::ValueTooLarge)
        } else {
            Encoding::value(be_i32(value.bytes.len() as int) + value.bytes)
        },
    }
}

/// What one field of a composite adds to the output: the OID of the field's
/// type in the descriptor, then the frame of its value.
pub open spec fn field_frame(oid: u32, value: Encoding) -> Encoding {
    let frame = value_frame(value);
    Encoding { bytes: be_i32(oid as int) + frame.bytes, result: frame.result }
}

/// How the value of the descriptor's field `field` is encoded: by the type of
/// the shape's field that the name selects, from that field's value.
pub open spec fn field_encoding(
    fields: Seq<ShapeField>,
    values: Seq<Value>,
    field: FieldDescriptor,
) -> Encoding
    decreases fields, 0int,
{
    match find_field(fields, field.name@) {
        Some(k) => if 0 <= k < fields.len() && k < values.len() {
            fields[k].ty.encoding(values[k], field.type_)
        } else {
            Encoding::mismatch()
        },
        None => Encoding::mismatch(),
    }
}

/// The encoding of a composite up to and without the descriptor's field
/// number `n`: the number of fields of the descriptor, then one frame for each
/// of its first `n` fields, in the descriptor's order. The first field that
/// fails ends the encoding, its OID being the last thing written.
pub open spec fn composite_encoding(
    fields: Seq<ShapeField>,
    values: Seq<Value>,
    layout: Seq<FieldDescriptor>,
    n: int,
) -> Encoding
    decreases fields, 1int, n,
{
    if n <= 0 || n > layout.len() {
        Encoding::value(be_i32(layout.len() as int))
    } else {
        let before = composite_encoding(fields, values, layout, n - 1);
        if before.result is Err {
            before
        } else {
            let frame = field_frame(
                layout[n - 1].type_.oid,
                field_encoding(fields, values, layout[n - 1]),
            );
            Encoding { bytes: before.bytes + frame.bytes, result: frame.result }
        }
    }
}

/// Once a field has failed, the encoding of the composite is what it was at
/// that field.
pub proof fn lemma_failure_ends_encoding(
    fields: Seq<ShapeField>,
    values: Seq<Value>,
    layout: Seq<FieldDescriptor>,
    failed: int,
    n: int,
)
    requires
        0 < failed <= n <= layout.len(),
        composite_encoding(fields, values, layout, failed).result is Err,
    ensures
        composite_encoding(fields, values, layout, n) == composite_encoding(
            fields,
            values,
            layout,
            failed,
        ),
    decreases n - failed,
{
    if failed < n {
        lemma_failure_ends_encoding(fields, values, layout, failed, n - 1);
    }
}

impl ValueType {
    /// How a value of this declared type is encoded for the type `ty`.
    ///
    /// - An integer is its four bytes, the most significant first.
    /// - A string is its UTF-8 encoding, after a version number where the
    ///   type is one of the `ltree` extension: see [`text_bytes`].
    /// - A double is the eight bytes of its IEEE 754 form, the most
    ///   significant first.
    /// - A missing value is null and has no bytes; a present one is encoded as
    ///   the value inside.
    /// - A value of a derived type is encoded as its shape says.
    pub open spec fn encoding(self, value: Value, ty: TypeDescriptor) -> Encoding
        decreases self,
    {
        match self {
            ValueType::Int4 => match value {
                Value::Int4(number) => Encoding::value(be_i32(number as int)),
                _ => Encoding::mismatch(),
            },
            ValueType::Text => match value {
                Value::Text(text) => Encoding::value(text_bytes(ty.name@, text@)),
                _ => Encoding::mismatch(),
            },
            ValueType::Float8 => match value {
                Value::Float8(bits) => Encoding::value(be_u64(bits)),
                _ => Encoding::mismatch(),
            },
            ValueType::Optional(inner) => match value {
                Value::Optional(None) => Encoding::null(),
                Value::Optional(Some(present)) => inner.encoding(*present, ty),
                _ => Encoding::mismatch(),
            },
            ValueType::Derived(shape) => shape.encoding(value, ty),
        }
    }

    /// Appends to `out` the binary form of `value` for the type `ty`, and
    /// tells whether the value is null.
    pub fn to_sql(&self, value: &Value, ty: &TypeDescriptor, out: &mut Vec<u8>) -> (result: Result<
        IsNull,
        EncodeError,
    >)
        requires
            self.accepts_spec(*ty),
            value.has_type(*self),
        ensures
            final(out)@ == old(out)@ + self.encoding(*value, *ty).bytes,
            result == self.encoding(*value, *ty).result,
            result is Err ==> result == Err::<IsNull, EncodeError>(EncodeError::ValueTooLarge),
            result == Ok::<IsNull, EncodeError>(IsNull::Yes) ==> final(out)@ == old(out)@,
        decreases self,
    {
        proof {
            lemma_type_outcome(*self, *value, *ty);
        }
        match self {
            ValueType::Int4 => match value {
                Value::Int4(number) => {
                    let mut bytes = int4_to_sql(*number);
                    out.append(&mut bytes);
                    Ok(IsNull::No)
                },
                _ => unreached(),
            },
            ValueType::Text => match value {
                Value::Text(text) => {
                    let mut bytes = text_to_sql(text.as_str(), ty.name.as_str(), ty.oid);
                    out.append(&mut bytes);
                    Ok(IsNull::No)
                },
                _ => unreached(),
            },
            ValueType::Float8 => match value {
                Value::Float8(bits) => {
                    write_be_u64(out, *bits);
                    Ok(IsNull::No)
                },
                _ => unreached(),
            },
            ValueType::Optional(inner) => match value {
                Value::Optional(None) => {
                    assert(out@ =~= old(out)@ + Seq::<u8>::empty());
                    Ok(IsNull::Yes)
                },
                Value::Optional(Some(present)) => inner.to_sql(present, ty, out),
                _ => unreached(),
            },
            ValueType::Derived(shape) => shape.to_sql(value, ty, out),
        }
    }
}

impl EnumShape {
    /// A value of an enum is encoded as the wire name of its variant: the
    /// bytes of the name and nothing else.
    pub open spec fn encoding(self, value: Value) -> Encoding {
        match value {
            Value::Enum(index) => if index < self.variants@.len() {
                Encoding::value(encode_utf8(self.variants@[index as int].name@))
            } else {
                Encoding::mismatch()
            },
            _ => Encoding::mismatch(),
        }
    }

    /// Appends to `out` the wire name of the variant that `value` is.
    pub fn to_sql(&self, value: &Value, out: &mut Vec<u8>) -> (result: Result<IsNull, EncodeError>)
        requires
            value.is_variant_of(*self),
        ensures
            final(out)@ == old(out)@ + self.encoding(*value).bytes,
            result == self.encoding(*value).result,
            result == Ok::<IsNull, EncodeError>(IsNull::No),
    {
        match value {
            Value::Enum(index) => {
                let name = self.variants[*index].name.as_str();
                append_bytes(out, name.as_bytes());
                Ok(IsNull::No)
            },
            _ => unreached(),
        }
    }
}

impl DomainShape {
    /// A value of a wrapper is encoded as the wrapped value is for the inner
    /// type of the domain: the wrapper adds no bytes of its own.
    pub open spec fn encoding(self, value: Value, ty: TypeDescriptor) -> Encoding
        decreases self,
    {
        match (value, ty.kind) {
            (Value::Domain(wrapped), Kind::Domain(inner)) => self.inner.encoding(*wrapped, *inner),
            _ => Encoding::mismatch(),
        }
    }

    /// Appends to `out` the binary form of the wrapped value for the inner
    /// type of the domain `ty`.
    pub fn to_sql(&self, value: &Value, ty: &TypeDescriptor, out: &mut Vec<u8>) -> (result: Result<
        IsNull,
        EncodeError,
    >)
        requires
            self.accepts_spec(*ty),
            value.is_wrapper_of(*self),
        ensures
            final(out)@ == old(out)@ + self.encoding(*value, *ty).bytes,
            result == self.encoding(*value, *ty).result,
            result is Err ==> result == Err::<IsNull, EncodeError>(EncodeError::ValueTooLarge),
            result == Ok::<IsNull, EncodeError>(IsNull::Yes) ==> final(out)@ == old(out)@,
        decreases self,
    {
        proof {
            lemma_shape_outcome(Shape::Domain(*self), *value, *ty);
        }
        let inner = match &ty.kind {
            Kind::Domain(inner) => inner,
            _ => unreached(),
        };
        match value {
            Value::Domain(wrapped) => self.inner.to_sql(wrapped, inner, out),
            _ => unreached(),
        }
    }
}

impl CompositeShape {
    /// A value of a record is encoded field by field in the order of the
    /// composite type `ty`: see [`composite_encoding`].
    pub open spec fn encoding(self, value: Value, ty: TypeDescriptor) -> Encoding
        decreases self,
    {
        match (value, ty.kind) {
            (Value::Composite(values), Kind::Composite(layout)) => composite_encoding(
                self.fields@,
                values@,
                layout@,
                layout@.len() as int,
            ),
            _ => Encoding::mismatch(),
        }
    }

    /// Appends to `out` the binary form of the record `value` for the
    /// composite type `ty`: the number of fields, then for each field of `ty`
    /// its OID, the length of its value and the value. Stops at the first
    /// field that cannot be encoded, leaving in `out` what was written so far.
    pub fn to_sql(&self, value: &Value, ty: &TypeDescriptor, out: &mut Vec<u8>) -> (result: Result<
        IsNull,
        EncodeError,
    >)
        requires
            self.accepts_spec(*ty),
            value.is_record_of(*self),
        ensures
            final(out)@ == old(out)@ + self.encoding(*value, *ty).bytes,
            result == self.encoding(*value, *ty).result,
            result is Err ==> result == Err::<IsNull, EncodeError>(EncodeError::ValueTooLarge),
            result is Ok ==> result == Ok::<IsNull, EncodeError>(IsNull::No),
        decreases self,
    {
        proof {
            lemma_shape_outcome(Shape::Composite(*self), *value, *ty);
        }
        let layout = match &ty.kind {
            Kind::Composite(layout) => layout,
            _ => unreached(),
        };
        let values = match value {
            Value::Composite(values) => values,
            _ => unreached(),
        };
        let ghost start = out@;
        write_be_count(out, layout.len());
        let mut buf: Vec<u8> = Vec::new();
        let mut i: usize = 0;
        while i < layout.len()
            invariant
                i <= layout@.len(),
                values@.len() == self.fields@.len(),
                forall|k: int|
                    0 <= k < self.fields@.len() ==> (#[trigger] values@[k]).has_type(
                        self.fields@[k].ty,
                    ),
                forall|j: int|
                    0 <= j < layout@.len() ==> field_accepts(self.fields@, #[trigger] layout@[j]),
                buf@.len() == 0,
                start == old(out)@,
                self.encoding(*value, *ty).result is Err ==> self.encoding(*value, *ty).result
                    == Err::<IsNull, EncodeError>(EncodeError::ValueTooLarge),
                *value == Value::Composite(*values),
                ty.kind == Kind::Composite(*layout),
                out@ == start + composite_encoding(self.fields@, values@, layout@, i as int).bytes,
                composite_encoding(self.fields@, values@, layout@, i as int).result is Ok,
            decreases layout@.len() - i,
        {
            let ghost before = composite_encoding(self.fields@, values@, layout@, i as int);
            let ghost after = composite_encoding(self.fields@, values@, layout@, i + 1);
            let ghost frame = field_frame(
                layout@[i as int].type_.oid,
                field_encoding(self.fields@, values@, layout@[i as int]),
            );
            assert(after == Encoding { bytes: before.bytes + frame.bytes, result: frame.result });
            let framed = field_to_sql(&self.fields, values, &layout[i], out, &mut buf);
            assert(out@ == start + after.bytes) by {
                assert(start + before.bytes + frame.bytes =~= start + (before.bytes + frame.bytes));
            }
            if let Err(error) = framed {
                proof {
                    lemma_failure_ends_encoding(
                        self.fields@,
                        values@,
                        layout@,
                        i + 1,
                        layout@.len() as int,
                    );
                }
                return Err(error);
            }
            buf.clear();
            i += 1;
        }
        Ok(IsNull::No)
    }
}

impl Shape {
    /// How a value of a type of this shape is encoded for the type `ty`.
    pub open spec fn encoding(self, value: Value, ty: TypeDescriptor) -> Encoding
        decreases self,
    {
        match self {
            Shape::Enum(e) => e.encoding(value),
            Shape::Domain(d) => d.encoding(value, ty),
            Shape::Composite(c) => c.encoding(value, ty),
        }
    }

    /// Appends to `out` the binary form of `value` for the type `ty`.
    pub fn to_sql(&self, value: &Value, ty: &TypeDescriptor, out: &mut Vec<u8>) -> (result: Result<
        IsNull,
        EncodeError,
    >)
        requires
            self.accepts_spec(*ty),
            value.has_shape(*self),
        ensures
            final(out)@ == old(out)@ + self.encoding(*value, *ty).bytes,
            result == self.encoding(*value, *ty).result,
            result is Err ==> result == Err::<IsNull, EncodeError>(EncodeError::ValueTooLarge),
            result == Ok::<IsNull, EncodeError>(IsNull::Yes) ==> self is Domain && final(out)@
                == old(out)@,
        decreases self,
    {
        proof {
            lemma_shape_outcome(*self, *value, *ty);
        }
        match self {
            Shape::Enum(e) => e.to_sql(value, out),
            Shape::Domain(d) => d.to_sql(value, ty, out),
            Shape::Composite(c) => c.to_sql(value, ty, out),
        }
    }
}

impl Shape {
    /// Appends to `out` the binary form of `value` for the type `ty`, after
    /// checking that the shape accepts `ty` and that `value` is a value of
    /// the shape. Where it is not so, writes nothing and fails with
    /// [`EncodeError::WrongType`].
    pub fn to_sql_checked(&self, value: &Value, ty: &TypeDescriptor, out: &mut Vec<u8>) -> (result:
        Result<IsNull, EncodeError>)
        ensures
            self.accepts_spec(*ty) && value.has_shape(*self) ==> {
                &&& final(out)@ == old(out)@ + self.encoding(*value, *ty).bytes
                &&& result == self.encoding(*value, *ty).result
            },
            !(self.accepts_spec(*ty) && value.has_shape(*self)) ==> {
                &&& final(out)@ == old(out)@
                &&& result == Err::<IsNull, EncodeError>(EncodeError::WrongType)
            },
    {
        if !self.accepts(ty) || !value.is_of_shape(self) {
            return Err(EncodeError::WrongType);
        }
        self.to_sql(value, ty, out)
    }
}

impl ValueType {
    /// Appends to `out` the binary form of `value` for the type `ty`, after
    /// checking that this type accepts `ty` and that `value` is of this type.
    /// Where it is not so, writes nothing and fails with
    /// [`EncodeError::WrongType`].
    pub fn to_sql_checked(&self, value: &Value, ty: &TypeDescriptor, out: &mut Vec<u8>) -> (result:
        Result<IsNull, EncodeError>)
        ensures
            self.accepts_spec(*ty) && value.has_type(*self) ==> {
                &&& final(out)@ == old(out)@ + self.encoding(*value, *ty).bytes
                &&& result == self.encoding(*value, *ty).result
            },
            !(self.accepts_spec(*ty) && value.has_type(*self)) ==> {
                &&& final(out)@ == old(out)@
                &&& result == Err::<IsNull, EncodeError>(EncodeError::WrongType)
            },
    {
        if !self.accepts(ty) || !value.is_of_type(self) {
            return Err(EncodeError::WrongType);
        }
        self.to_sql(value, ty, out)
    }
}

/// Appends to `out` the frame of the descriptor's field `field`: its OID,
/// then the value of the shape's field of the same name, encoded into `buf`
/// and framed by its length.
fn field_to_sql(
    fields: &Vec<ShapeField>,
    values: &Vec<Value>,
    field: &FieldDescriptor,
    out: &mut Vec<u8>,
    buf: &mut Vec<u8>,
) -> (result: Result<IsNull, EncodeError>)
    requires
        old(buf)@.len() == 0,
        values@.len() == fields@.len(),
        forall|k: int| 0 <= k < fields@.len() ==> (#[trigger] values@[k]).has_type(fields@[k].ty),
        field_accepts(fields@, *field),
    ensures
        final(out)@ == old(out)@ + field_frame(
            field.type_.oid,
            field_encoding(fields@, values@, *field),
        ).bytes,
        result == field_frame(field.type_.oid, field_encoding(fields@, values@, *field)).result,
        final(buf)@ == field_encoding(fields@, values@, *field).bytes,
    decreases fields,
{
    write_be_u32(out, field.type_.oid);
    proof {
        lemma_find_field(fields@, field.name@);
    }
    let k = match field_index(fields, &field.name) {
        Some(k) => k,
        None => unreached(),
    };
    let encoded = fields[k].ty.to_sql(&values[k], &field.type_, buf);
    assert(buf@ =~= field_encoding(fields@, values@, *field).bytes);
    let ghost written = out@;
    let framed = write_value(out, encoded, buf);
    assert(out@ =~= old(out)@ + (be_i32(field.type_.oid as int) + (out@.subrange(
        written.len() as int,
        out@.len() as int,
    ))));
    framed
}

/// Appends `bytes` to `out`.
pub fn append_bytes(out: &mut Vec<u8>, bytes: &[u8])
    ensures
        final(out)@ == old(out)@ + bytes@,
{
    out.extend_from_slice(bytes);
    assert(out@ =~= old(out)@ + bytes@);
}

/// Writes what follows the OID of a field of a composite: given what the
/// field's encoder returned and the buffer that it filled, appends to `out`
/// the length `-1` for a null value, the length and the bytes of a value of at
/// most `i32::MAX` bytes, and nothing where the value is longer or the encoder
/// failed.
pub fn write_value(out: &mut Vec<u8>, encoded: Result<IsNull, EncodeError>, buf: &Vec<u8>) -> (result:
    Result<IsNull, EncodeError>)
    ensures
        final(out)@ == old(out)@ + value_frame(Encoding { bytes: buf@, result: encoded }).bytes,
        result == value_frame(Encoding { bytes: buf@, result: encoded }).result,
{
    match encoded {
        Err(error) => {
            assert(out@ =~= old(out)@ + Seq::<u8>::empty());
            Err(error)
        },
        Ok(IsNull::Yes) => {
            write_be_i32(out, -1);
            Ok(IsNull::No)
        },
        Ok(IsNull::No) => {
            if buf.len() > MAX_VALUE_LEN {
                assert(out@ =~= old(out)@ + Seq::<u8>::empty());
                return Err(EncodeError::ValueTooLarge);
            }
            write_be_i32(out, buf.len() as i32);
            append_bytes(out, buf.as_slice());
            assert(out@ =~= old(out)@ + (be_i32(buf@.len() as int) + buf@));
            Ok(IsNull::No)
        },
    }
}

} // verus!
