//! Error types: a message-carrying runtime error for the service boundary,
//! and a structured decode error for the record codec.

use vstd::prelude::*;

verus! {

/// A failure surfaced to the caller as a message.
#[derive(Debug)]
pub struct RuntimeError {
    details: String,
}

impl View for RuntimeError {
    type V = Seq<char>;

    closed spec fn view(&self) -> Seq<char> {
        self.details@
    }
}

impl RuntimeError {
    pub fn from_str(msg: &str) -> (r: Self)
        ensures
            r@ == msg@,
    {
        RuntimeError { details: msg.to_owned() }
    }

    pub fn from_string(msg: String) -> (r: Self)
        ensures
            r@ == msg@,
    {
        RuntimeError { details: msg }
    }

    pub fn details(self) -> (r: String)
        ensures
            r@ == self@,
    {
        self.details
    }
}

/// The variant a required field was expected to hold.
#[derive(Debug, Clone, Copy, PartialEq, Eq, Structural)]
pub enum FieldKind {
    /// A string field.
    Text,
    /// A boolean field.
    Boolean,
}

/// Why a stored row could not be read back as a typed record.
#[derive(Debug)]
pub enum DecodeError {
    /// A required field is absent from the row.
    MissingField(String),
    /// The field is present but not of the expected variant.
    WrongType(String, FieldKind),
}

/// Specification-level shape of a `DecodeError`.
pub enum DecodeErrorV {
    MissingField(Seq<char>),
    WrongType(Seq<char>, FieldKind),
}

impl View for DecodeError {
    type V = DecodeErrorV;

    open spec fn view(&self) -> DecodeErrorV {
        match self {
            DecodeError::MissingField(k) => DecodeErrorV::MissingField(k@),
            DecodeError::WrongType(k, kind) => DecodeErrorV::WrongType(k@, *kind),
        }
    }
}

impl DecodeError {
    /// The human-readable message the service historically attached to
    /// each decode failure, naming the expected variant.
    pub fn into_runtime_error(self) -> (r: RuntimeError)
        ensures
            r@ == match self@ {
                DecodeErrorV::MissingField(k) => "No value for: "@ + k,
                DecodeErrorV::WrongType(k, FieldKind::Text) => "Key requires a string: "@ + k,
                DecodeErrorV::WrongType(k, FieldKind::Boolean) => "Key requires a boolean: "@ + k,
            },
    {
        match self {
            DecodeError::MissingField(k) => {
                let mut msg = "No value for: ".to_owned();
                msg.append(k.as_str());
                RuntimeError::from_string(msg)
            },
            DecodeError::WrongType(k, FieldKind::Text) => {
                let mut msg = "Key requires a string: ".to_owned();
                msg.append(k.as_str());
                RuntimeError::from_string(msg)
            },
            DecodeError::WrongType(k, FieldKind::Boolean) => {
                let mut msg = "Key requires a boolean: ".to_owned();
                msg.append(k.as_str());
                RuntimeError::from_string(msg)
            },
        }
    }
}

} // verus!
