//! The binary forms of scalar values, as the `postgres` crate writes them.

use bytes::BytesMut;
use postgres::types::{Kind, ToSql, Type};
use vstd::prelude::*;
use vstd::utf8::encode_utf8;
use crate::wire::be_i32;

verus! {

/// The binary form of a 32-bit integer: calls `ToSql::to_sql` of `postgres`
/// on an `i32`, for the type `int4`. That call writes the four bytes of the
/// number, the most significant first, and always succeeds with a value that
/// is not null.
#[verifier::external_body]
pub(crate) fn int4_to_sql(value: i32) -> (bytes: Vec<u8>)
    ensures
        bytes@ == be_i32(value as int),
{
    let mut buf = BytesMut::new();
    let _ = <i32 as ToSql>::to_sql(&value, &Type::INT4, &mut buf);
    buf.to_vec()
}

/// Whether strings are written for a type of the name `ty_name` with a
/// version number before them: so it is for the types of the `ltree`
/// extension.
pub open spec fn has_version_byte(ty_name: Seq<char>) -> bool {
    ty_name == "ltree"@ || ty_name == "lquery"@ || ty_name == "ltxtquery"@
}

/// The binary form of the string `value` for a type of the name `ty_name`:
/// the UTF-8 encoding of the string, after the version number 1 where the
/// type is one of the `ltree` extension.
pub open spec fn text_bytes(ty_name: Seq<char>, value: Seq<char>) -> Seq<u8> {
    if has_version_byte(ty_name) {
        seq![1u8] + encode_utf8(value)
    } else {
        encode_utf8(value)
    }
}

/// The binary form of a string: calls `ToSql::to_sql` of `postgres` on a
/// `&str`, for a type of the given name and OID. That call looks at the name
/// of the type alone: for `ltree`, `lquery` and `ltxtquery` it writes the byte
/// 1 and then the bytes of the string, for every other name the bytes of the
/// string, which are its UTF-8 encoding. It always succeeds with a value that
/// is not null.
#[verifier::external_body]
pub(crate) fn text_to_sql(value: &str, ty_name: &str, oid: u32) -> (bytes: Vec<u8>)
    ensures
        bytes@ == text_bytes(ty_name@, value@),
{
    let ty = Type::new(ty_name.to_string(), oid, Kind::Simple, String::new());
    let mut buf = BytesMut::new();
    let _ = <&str as ToSql>::to_sql(&value, &ty, &mut buf);
    buf.to_vec()
}

} // verus!
