//! Outcomes of derivation and of encoding.

use vstd::prelude::*;
use vstd::string::StringExecFns;

verus! {

/// Whether an encoded value stands for SQL `NULL`.
#[derive(Clone, Copy, Debug, PartialEq, Eq, Structural)]
pub enum IsNull {
    /// The value is `NULL`; nothing was written for it.
    Yes,
    /// The value is not `NULL`.
    No,
}

/// Why a value could not be encoded.
#[derive(Clone, Copy, Debug, PartialEq, Eq, Structural)]
pub enum EncodeError {
    /// The type descriptor is not one that the value's type accepts, or the
    /// value is not of the type that it is declared with.
    WrongType,
    /// A field of a composite value is longer than a 32-bit signed length can say.
    ValueTooLarge,
}

/// Why no codec could be derived for an item.
#[derive(Clone, Copy, Debug, PartialEq, Eq, Structural)]
pub enum DeriveError {
    /// The item is neither an enum, nor a tuple struct of exactly one field,
    /// nor a struct with named fields.
    UnsupportedShape,
}

impl EncodeError {
    /// The text of [`EncodeError::message`], as a sequence of characters.
    pub open spec fn message_spec(self) -> Seq<char> {
        match self {
            EncodeError::WrongType => "cannot convert between the Rust type and the Postgres type"@,
            EncodeError::ValueTooLarge => "value too large to transmit"@,
        }
    }

    /// A description of the error for people to read.
    pub fn message(&self) -> (text: String)
        ensures
            text@ == self.message_spec(),
    {
        match self {
            EncodeError::WrongType => String::from_str(
                "cannot convert between the Rust type and the Postgres type",
            ),
            EncodeError::ValueTooLarge => String::from_str("value too large to transmit"),
        }
    }
}

impl DeriveError {
    /// The text of [`DeriveError::message`], as a sequence of characters.
    pub open spec fn message_spec(self) -> Seq<char> {
        "#[derive(ToSql)] can only be applied to structs, single field tuple structs, and enums"@
    }

    /// A description of the error for people to read.
    pub fn message(&self) -> (text: String)
        ensures
            text@ == self.message_spec(),
    {
        String::from_str(
            "#[derive(ToSql)] can only be applied to structs, single field tuple structs, and enums",
        )
    }
}

} // verus!
