//! The errors of schema resolution, encoding and decoding.

use vstd::prelude::*;
use crate::schema::FieldType;

verus! {

/// Why a resolution, an encoding or a decoding failed.
#[derive(Clone, Debug, PartialEq)]
pub enum TranscodeError {
    /// A type tag that names no known type.
    UnknownType(String),
    /// A structured descriptor (of the named field) without a usable `type`
    /// or `dimension`, or a descriptor that is neither a tag nor a hash.
    MalformedDescriptor(String),
    /// Record `.0` has no entry for field `.1`.
    MissingField(usize, String),
    /// The value of field `.1` in record `.0` cannot be read as type `.2`.
    TypeMismatch(usize, String, FieldType),
    /// Vector field `.0` declares dimension `.1` and a record holds a list of
    /// length `.2`.
    VectorDimensionMismatch(String, usize, usize),
    /// Column `.0` of a batch is not laid out as its declared type demands.
    CorruptBatch(String),
}

/// The mathematical value of a [`TranscodeError`].
pub enum Fault {
    UnknownType(Seq<char>),
    MalformedDescriptor(Seq<char>),
    MissingField(nat, Seq<char>),
    TypeMismatch(nat, Seq<char>, FieldType),
    VectorDimensionMismatch(Seq<char>, nat, nat),
    CorruptBatch(Seq<char>),
}

impl View for TranscodeError {
    type V = Fault;

    open spec fn view(&self) -> Fault {
        match self {
            TranscodeError::UnknownType(t) => Fault::UnknownType(t@),
            TranscodeError::MalformedDescriptor(n) => Fault::MalformedDescriptor(n@),
            TranscodeError::MissingField(i, n) => Fault::MissingField(*i as nat, n@),
            TranscodeError::TypeMismatch(i, n, t) => Fault::TypeMismatch(*i as nat, n@, *t),
            TranscodeError::VectorDimensionMismatch(n, e, a) => Fault::VectorDimensionMismatch(
                n@,
                *e as nat,
                *a as nat,
            ),
            TranscodeError::CorruptBatch(n) => Fault::CorruptBatch(n@),
        }
    }
}

} // verus!
