//! What holds of every encoding and of every acceptance.

use vstd::prelude::*;
use vstd::seq_lib::{to_multiset_contains, to_multiset_len};
use vstd::utf8::{encode_utf8, encode_utf8_decode_utf8};
use crate::accepts::field_accepts;
use crate::descriptor::{FieldDescriptor, Kind, TypeDescriptor};
use crate::encode::{composite_encoding, field_encoding, field_frame, value_frame, Encoding};
use crate::error::{EncodeError, IsNull};
use crate::shape::{
    find_field, lemma_find_field, CompositeShape, DomainShape, EnumShape, Shape, ShapeField,
    ValueType,
};
use crate::value::Value;
use crate::wire::{be_i32, from_be_i32, lemma_be_i32_minus_one, lemma_be_i32_round_trip};

verus! {

/// The encoding of a composite begins with the number of fields of the type
/// descriptor, whatever the shape declares and whether or not a field fails.
pub proof fn lemma_composite_starts_with_field_count(
    fields: Seq<ShapeField>,
    values: Seq<Value>,
    layout: Seq<FieldDescriptor>,
    n: int,
)
    ensures
        composite_encoding(fields, values, layout, n).bytes.len() >= 4,
        composite_encoding(fields, values, layout, n).bytes.subrange(0, 4) == be_i32(
            layout.len() as int,
        ),
    decreases n,
{
    let count = be_i32(layout.len() as int);
    let encoding = composite_encoding(fields, values, layout, n);
    if 0 < n <= layout.len() {
        lemma_composite_starts_with_field_count(fields, values, layout, n - 1);
        let before = composite_encoding(fields, values, layout, n - 1);
        assert(encoding.bytes.subrange(0, 4) =~= before.bytes.subrange(0, 4));
    } else {
        assert(encoding.bytes.subrange(0, 4) =~= count);
    }
}

/// What is written for a record begins with the number of fields of the
/// composite type it is written for, not with that of the record's shape.
pub proof fn lemma_record_starts_with_field_count(
    shape: CompositeShape,
    values: Vec<Value>,
    ty: TypeDescriptor,
)
    requires
        ty.kind is Composite,
    ensures
        shape.encoding(Value::Composite(values), ty).bytes.len() >= 4,
        shape.encoding(Value::Composite(values), ty).bytes.subrange(0, 4) == be_i32(
            ty.kind->Composite_0@.len() as int,
        ),
{
    let layout = ty.kind->Composite_0@;
    lemma_composite_starts_with_field_count(shape.fields@, values@, layout, layout.len() as int);
}

/// What is written for the first fields of a composite stays as it is when
/// further fields are written.
pub proof fn lemma_composite_extends(
    fields: Seq<ShapeField>,
    values: Seq<Value>,
    layout: Seq<FieldDescriptor>,
    j: int,
    n: int,
)
    requires
        0 <= j <= n <= layout.len(),
    ensures
        composite_encoding(fields, values, layout, j).bytes.len() <= composite_encoding(
            fields,
            values,
            layout,
            n,
        ).bytes.len(),
        composite_encoding(fields, values, layout, n).bytes.subrange(
            0,
            composite_encoding(fields, values, layout, j).bytes.len() as int,
        ) == composite_encoding(fields, values, layout, j).bytes,
    decreases n - j,
{
    let short = composite_encoding(fields, values, layout, j).bytes;
    let long = composite_encoding(fields, values, layout, n).bytes;
    if j < n {
        lemma_composite_extends(fields, values, layout, j, n - 1);
        let before = composite_encoding(fields, values, layout, n - 1).bytes;
        assert(long.subrange(0, short.len() as int) =~= before.subrange(0, short.len() as int));
    } else {
        assert(long.subrange(0, short.len() as int) =~= short);
    }
}

/// Where the fields before the field number `j` of the type descriptor were
/// encoded, the frame of that field follows them in the output, and the frame
/// begins with the OID that the descriptor gives the field's type.
pub proof fn lemma_composite_field_frame(
    fields: Seq<ShapeField>,
    values: Seq<Value>,
    layout: Seq<FieldDescriptor>,
    j: int,
    n: int,
)
    requires
        0 <= j < n <= layout.len(),
        composite_encoding(fields, values, layout, j).result is Ok,
    ensures
        ({
            let encoding = composite_encoding(fields, values, layout, n).bytes;
            let start = composite_encoding(fields, values, layout, j).bytes.len() as int;
            let frame = field_frame(
                layout[j].type_.oid,
                field_encoding(fields, values, layout[j]),
            ).bytes;
            &&& start + frame.len() <= encoding.len()
            &&& encoding.subrange(start, start + frame.len()) == frame
            &&& frame.len() >= 4
            &&& frame.subrange(0, 4) == be_i32(layout[j].type_.oid as int)
        }),
{
    let encoding = composite_encoding(fields, values, layout, n).bytes;
    let before = composite_encoding(fields, values, layout, j).bytes;
    let with_frame = composite_encoding(fields, values, layout, j + 1).bytes;
    let frame = field_frame(layout[j].type_.oid, field_encoding(fields, values, layout[j])).bytes;
    assert(with_frame == before + frame);
    lemma_composite_extends(fields, values, layout, j + 1, n);
    assert(encoding.subrange(before.len() as int, (before.len() + frame.len()) as int) =~= frame) by {
        assert(encoding.subrange(0, with_frame.len() as int) == with_frame);
        assert forall|i: int| 0 <= i < frame.len() implies encoding[before.len() + i] == frame[i] by {
            assert(encoding.subrange(0, with_frame.len() as int)[before.len() + i]
                == with_frame[before.len() + i]);
        }
    }
    assert(frame.subrange(0, 4) =~= be_i32(layout[j].type_.oid as int));
}

/// A null value is framed as the four bytes of `-1`, which are all ones, and
/// no byte of a value follows them.
pub proof fn lemma_null_frame(value: Encoding)
    requires
        value.result == Ok::<IsNull, EncodeError>(IsNull::Yes),
    ensures
        value_frame(value).result == Ok::<IsNull, EncodeError>(IsNull::No),
        value_frame(value).bytes == be_i32(-1),
        value_frame(value).bytes == seq![0xffu8, 0xffu8, 0xffu8, 0xffu8],
{
    lemma_be_i32_minus_one();
}

/// A value that is not null and has at most `i32::MAX` bytes is framed as its
/// length and then its bytes: the four bytes of the length say exactly how
/// many bytes follow.
pub proof fn lemma_value_frame(value: Encoding)
    requires
        value.result == Ok::<IsNull, EncodeError>(IsNull::No),
        value.bytes.len() <= i32::MAX,
    ensures
        value_frame(value).result == Ok::<IsNull, EncodeError>(IsNull::No),
        value_frame(value).bytes.len() == 4 + value.bytes.len(),
        from_be_i32(value_frame(value).bytes.subrange(0, 4)) == value.bytes.len(),
        value_frame(value).bytes.subrange(4, 4 + value.bytes.len() as int) == value.bytes,
{
    let length = be_i32(value.bytes.len() as int);
    let frame = value_frame(value).bytes;
    lemma_be_i32_round_trip(value.bytes.len() as int);
    assert(frame.subrange(0, 4) =~= length);
    assert(frame.subrange(4, 4 + value.bytes.len() as int) =~= value.bytes);
}

/// A value of more than `i32::MAX` bytes is not framed: no length and no
/// byte of the value is written, and the encoding fails as too large.
pub proof fn lemma_value_too_large(value: Encoding)
    requires
        value.result == Ok::<IsNull, EncodeError>(IsNull::No),
        value.bytes.len() > i32::MAX,
    ensures
        value_frame(value).result == Err::<IsNull, EncodeError>(EncodeError::ValueTooLarge),
        value_frame(value).bytes == Seq::<u8>::empty(),
{
}

/// A wrapper is encoded for a domain exactly as the wrapped value is encoded
/// for the inner type of the domain.
pub proof fn lemma_domain_is_transparent(
    shape: DomainShape,
    wrapped: Value,
    ty: TypeDescriptor,
    inner: TypeDescriptor,
)
    requires
        ty.kind == Kind::Domain(Box::new(inner)),
    ensures
        shape.encoding(Value::Domain(Box::new(wrapped)), ty) == shape.inner.encoding(wrapped, inner),
{
}

/// The variant number `index` of an enum is encoded as the bytes of its wire
/// name, with nothing before or after them.
pub proof fn lemma_enum_is_wire_name(shape: EnumShape, index: usize)
    requires
        index < shape.variants@.len(),
    ensures
        shape.encoding(Value::Enum(index)) == Encoding::value(
            encode_utf8(shape.variants@[index as int].name@),
        ),
{
}

/// Two variants of an enum with different wire names are encoded
/// differently.
pub proof fn lemma_enum_is_injective(shape: EnumShape, first: usize, second: usize)
    requires
        first < shape.variants@.len(),
        second < shape.variants@.len(),
        shape.variants@[first as int].name@ != shape.variants@[second as int].name@,
    ensures
        shape.encoding(Value::Enum(first)).bytes != shape.encoding(Value::Enum(second)).bytes,
{
    encode_utf8_decode_utf8(shape.variants@[first as int].name@);
    encode_utf8_decode_utf8(shape.variants@[second as int].name@);
}

/// The encoding of an accepted type for a value of the declared type fails
/// only where a field of a composite is too large, and a null value has no
/// bytes.
pub proof fn lemma_type_outcome(ty: ValueType, value: Value, descriptor: TypeDescriptor)
    requires
        ty.accepts_spec(descriptor),
        value.has_type(ty),
    ensures
        ty.encoding(value, descriptor).result is Err ==> ty.encoding(value, descriptor).result
            == Err::<IsNull, EncodeError>(EncodeError::ValueTooLarge),
        ty.encoding(value, descriptor).result == Ok::<IsNull, EncodeError>(IsNull::Yes)
            ==> ty.encoding(value, descriptor).bytes.len() == 0,
    decreases ty,
{
    match ty {
        ValueType::Optional(inner) => {
            if let Value::Optional(Some(present)) = value {
                lemma_type_outcome(*inner, *present, descriptor);
            }
        },
        ValueType::Derived(shape) => {
            lemma_shape_outcome(*shape, value, descriptor);
        },
        _ => {},
    }
}

/// The encoding of an accepted type for a value of the shape fails only
/// where a field of a composite is too large, and a null value has no bytes.
pub proof fn lemma_shape_outcome(shape: Shape, value: Value, descriptor: TypeDescriptor)
    requires
        shape.accepts_spec(descriptor),
        value.has_shape(shape),
    ensures
        shape.encoding(value, descriptor).result is Err ==> shape.encoding(
            value,
            descriptor,
        ).result == Err::<IsNull, EncodeError>(EncodeError::ValueTooLarge),
        shape.encoding(value, descriptor).result == Ok::<IsNull, EncodeError>(IsNull::Yes)
            ==> shape.encoding(value, descriptor).bytes.len() == 0,
    decreases shape,
{
    match shape {
        Shape::Enum(e) => {},
        Shape::Domain(d) => {
            lemma_type_outcome(d.inner, *value->Domain_0, *descriptor.kind->Domain_0);
        },
        Shape::Composite(c) => {
            let layout = descriptor.kind->Composite_0@;
            lemma_composite_outcome(
                c.fields@,
                value->Composite_0@,
                layout,
                layout.len() as int,
            );
        },
    }
}

/// The value of an accepted field of a composite is encoded with the same
/// outcomes: it fails only where a field nested in it is too large, and a
/// null value has no bytes.
pub proof fn lemma_field_outcome(
    fields: Seq<ShapeField>,
    values: Seq<Value>,
    field: FieldDescriptor,
)
    requires
        values.len() == fields.len(),
        forall|k: int| 0 <= k < fields.len() ==> (#[trigger] values[k]).has_type(fields[k].ty),
        field_accepts(fields, field),
    ensures
        field_encoding(fields, values, field).result is Err ==> field_encoding(
            fields,
            values,
            field,
        ).result == Err::<IsNull, EncodeError>(EncodeError::ValueTooLarge),
        field_encoding(fields, values, field).result == Ok::<IsNull, EncodeError>(IsNull::Yes)
            ==> field_encoding(fields, values, field).bytes.len() == 0,
    decreases fields, 0int,
{
    lemma_find_field(fields, field.name@);
    let k = find_field(fields, field.name@)->0;
    assert(values[k].has_type(fields[k].ty));
    lemma_type_outcome(fields[k].ty, values[k], field.type_);
}

/// The encoding of a composite whose fields are all accepted fails only where
/// a field is too large, and is never null.
pub proof fn lemma_composite_outcome(
    fields: Seq<ShapeField>,
    values: Seq<Value>,
    layout: Seq<FieldDescriptor>,
    n: int,
)
    requires
        values.len() == fields.len(),
        forall|k: int| 0 <= k < fields.len() ==> (#[trigger] values[k]).has_type(fields[k].ty),
        forall|j: int| 0 <= j < layout.len() ==> field_accepts(fields, #[trigger] layout[j]),
    ensures
        composite_encoding(fields, values, layout, n).result is Err ==> composite_encoding(
            fields,
            values,
            layout,
            n,
        ).result == Err::<IsNull, EncodeError>(EncodeError::ValueTooLarge),
        composite_encoding(fields, values, layout, n).result != Ok::<IsNull, EncodeError>(
            IsNull::Yes,
        ),
    decreases fields, 1int, n,
{
    if 0 < n <= layout.len() {
        lemma_composite_outcome(fields, values, layout, n - 1);
        let field = layout[n - 1];
        assert(field_accepts(fields, field));
        lemma_field_outcome(fields, values, field);
    }
}

/// A record accepts a composite type whatever the order of the type's fields:
/// two composite types of one name whose fields are the same but for their
/// order are both accepted or both refused.
pub proof fn lemma_accepts_any_order(shape: CompositeShape, first: TypeDescriptor, second: TypeDescriptor)
    requires
        first.name@ == second.name@,
        first.kind is Composite,
        second.kind is Composite,
        first.kind->Composite_0@.to_multiset() == second.kind->Composite_0@.to_multiset(),
    ensures
        shape.accepts_spec(first) == shape.accepts_spec(second),
{
    let a = first.kind->Composite_0@;
    let b = second.kind->Composite_0@;
    to_multiset_len(a);
    to_multiset_len(b);
    assert forall|j: int| 0 <= j < b.len() implies a.contains(#[trigger] b[j]) by {
        assert(b.contains(b[j]));
        to_multiset_contains(a, b[j]);
        to_multiset_contains(b, b[j]);
    }
    assert forall|j: int| 0 <= j < a.len() implies b.contains(#[trigger] a[j]) by {
        assert(a.contains(a[j]));
        to_multiset_contains(a, a[j]);
        to_multiset_contains(b, a[j]);
    }
    if shape.accepts_spec(first) {
        assert forall|j: int| 0 <= j < b.len() implies field_accepts(
            shape.fields@,
            #[trigger] b[j],
        ) by {
            let i = choose|i: int| 0 <= i < a.len() && a[i] == b[j];
            assert(field_accepts(shape.fields@, a[i]));
        }
    }
    if shape.accepts_spec(second) {
        assert forall|j: int| 0 <= j < a.len() implies field_accepts(
            shape.fields@,
            #[trigger] a[j],
        ) by {
            let i = choose|i: int| 0 <= i < b.len() && b[i] == a[j];
            assert(field_accepts(shape.fields@, b[i]));
        }
    }
}

/// A record refuses a composite type that has more fields or fewer fields
/// than the record.
pub proof fn lemma_refuses_other_field_count(shape: CompositeShape, ty: TypeDescriptor)
    requires
        ty.kind matches Kind::Composite(layout) && layout@.len() != shape.fields@.len(),
    ensures
        !shape.accepts_spec(ty),
{
}

/// A record refuses a composite type with a field that no field of the record
/// is named as, and one with a field whose type the record's field of that
/// name does not accept.
pub proof fn lemma_refuses_unmatched_field(shape: CompositeShape, ty: TypeDescriptor, j: int)
    requires
        ty.kind matches Kind::Composite(layout) && 0 <= j < layout@.len() && !field_accepts(
            shape.fields@,
            layout@[j],
        ),
    ensures
        !shape.accepts_spec(ty),
{
}

} // verus!
