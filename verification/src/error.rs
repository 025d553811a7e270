//! What can go wrong: failures of the reader and of the typed decoder, and
//! failures of the typed encoder.

use vstd::prelude::*;
use crate::decimal::{format_signed, format_unsigned, int_text};
use crate::double::Double;

verus! {

/// The leaf types whose text has to parse.
#[derive(Clone, Copy, Debug, PartialEq, Eq, Structural)]
pub enum LeafKind {
    Int,
    Boolean,
    Double,
    DateTime,
    Base64,
}

/// What a typed decoder asked for.
#[derive(Clone, Copy, Debug, PartialEq, Eq, Structural)]
pub enum Expected {
    Bool,
    Integer,
    Float,
    Char,
    String,
    Bytes,
    Optional,
    Unit,
    Sequence,
    Mapping,
    Enum,
}

/// The shape that a typed decoder found instead.
#[derive(Debug, PartialEq)]
pub enum Unexpected {
    Bool(bool),
    Signed(i64),
    Float(Double),
    Str(String),
    Bytes(Vec<u8>),
    /// A value that has no shape of its own in the data model, by its tag.
    Other(String),
    Sequence,
    Mapping,
}

/// The mathematical model of an [`Unexpected`].
pub enum Found {
    Bool(bool),
    Signed(i64),
    Float(Seq<char>),
    Str(Seq<char>),
    Bytes(Seq<u8>),
    Other(Seq<char>),
    Sequence,
    Mapping,
}

impl View for Unexpected {
    type V = Found;

    open spec fn view(&self) -> Found {
        match self {
            Unexpected::Bool(v) => Found::Bool(*v),
            Unexpected::Signed(v) => Found::Signed(*v),
            Unexpected::Float(v) => Found::Float(v@),
            Unexpected::Str(v) => Found::Str(v@),
            Unexpected::Bytes(v) => Found::Bytes(v@),
            Unexpected::Other(v) => Found::Other(v@),
            Unexpected::Sequence => Found::Sequence,
            Unexpected::Mapping => Found::Mapping,
        }
    }
}

/// A failure of the reader or of the typed decoder.
#[derive(Debug, PartialEq)]
pub enum DecodeError {
    /// The text is not well-formed XML; the message is the parser's.
    Syntax { message: String },
    /// A required element is absent.
    MissingElement { name: String },
    /// Another node stands where an element of the expected name must.
    UnexpectedElement { wanted: String, met: String },
    /// A value's type tag is none of the protocol's.
    UnsupportedTag { name: String },
    /// The text of a leaf does not parse as its type.
    InvalidLeaf { kind: LeafKind, text: String },
    /// A `<fault>` does not hold exactly a code and a message.
    MalformedFault,
    /// A value has not the shape that the target type needs.
    InvalidType { expected: Expected, found: Unexpected },
    /// An array has not the length that a fixed-size target needs.
    InvalidLength { arity: usize, length: usize },
    /// A struct that stands for a variant has not exactly one member.
    InvalidVariantShape { members: usize },
    /// A struct lacks a member that the target type declares.
    MissingField { name: String },
    /// A map's value was asked for when no key had been taken.
    MissingValue,
    /// A failure that the target type reports in its own words.
    Custom { message: String },
}

/// The mathematical model of a [`DecodeError`]. The parser's own message for
/// a syntax error is no part of it.
pub enum Failure {
    Syntax,
    MissingElement { name: Seq<char> },
    UnexpectedElement { wanted: Seq<char>, met: Seq<char> },
    UnsupportedTag { name: Seq<char> },
    InvalidLeaf { kind: LeafKind, text: Seq<char> },
    MalformedFault,
    InvalidType { expected: Expected, found: Found },
    InvalidLength { arity: usize, length: usize },
    InvalidVariantShape { members: usize },
    MissingField { name: Seq<char> },
    MissingValue,
    Custom { report: Seq<char> },
}

impl View for DecodeError {
    type V = Failure;

    open spec fn view(&self) -> Failure {
        match self {
            DecodeError::Syntax { .. } => Failure::Syntax,
            DecodeError::MissingElement { name } => Failure::MissingElement { name: name@ },
            DecodeError::UnexpectedElement { wanted, met } => Failure::UnexpectedElement {
                wanted: wanted@,
                met: met@,
            },
            DecodeError::UnsupportedTag { name } => Failure::UnsupportedTag { name: name@ },
            DecodeError::InvalidLeaf { kind, text } => Failure::InvalidLeaf {
                kind: *kind,
                text: text@,
            },
            DecodeError::MalformedFault => Failure::MalformedFault,
            DecodeError::InvalidType { expected, found } => Failure::InvalidType {
                expected: *expected,
                found: found@,
            },
            DecodeError::InvalidLength { arity, length } => Failure::InvalidLength {
                arity: *arity,
                length: *length,
            },
            DecodeError::InvalidVariantShape { members } => Failure::InvalidVariantShape {
                members: *members,
            },
            DecodeError::MissingField { name } => Failure::MissingField { name: name@ },
            DecodeError::MissingValue => Failure::MissingValue,
            DecodeError::Custom { message } => Failure::Custom { report: message@ },
        }
    }
}

/// A failure of the typed encoder.
#[derive(Debug, PartialEq)]
pub enum EncodeError {
    /// A map key that is no boolean, integer, double or string.
    UnsupportedKey,
    /// A shape that the wire format cannot carry, by its name.
    Unsupported { kind: String },
    /// A failure that the application type reports in its own words.
    Custom { message: String },
}

/// The mathematical model of an [`EncodeError`].
pub enum Refusal {
    UnsupportedKey,
    Unsupported { kind: Seq<char> },
    Custom { report: Seq<char> },
}

impl View for EncodeError {
    type V = Refusal;

    open spec fn view(&self) -> Refusal {
        match self {
            EncodeError::UnsupportedKey => Refusal::UnsupportedKey,
            EncodeError::Unsupported { kind } => Refusal::Unsupported { kind: kind@ },
            EncodeError::Custom { message } => Refusal::Custom { report: message@ },
        }
    }
}

impl LeafKind {
    /// The type tag of the leaf.
    pub open spec fn tag(self) -> Seq<char> {
        match self {
            LeafKind::Int => "int"@,
            LeafKind::Boolean => "boolean"@,
            LeafKind::Double => "double"@,
            LeafKind::DateTime => "dateTime.iso8601"@,
            LeafKind::Base64 => "base64"@,
        }
    }

    /// The type tag of the leaf.
    pub fn name(&self) -> (r: &'static str)
        ensures
            r@ == self.tag(),
    {
        match self {
            LeafKind::Int => "int",
            LeafKind::Boolean => "boolean",
            LeafKind::Double => "double",
            LeafKind::DateTime => "dateTime.iso8601",
            LeafKind::Base64 => "base64",
        }
    }
}

impl Expected {
    /// What was expected, in words.
    pub open spec fn words(self) -> Seq<char> {
        match self {
            Expected::Bool => "a boolean"@,
            Expected::Integer => "an integer"@,
            Expected::Float => "a double"@,
            Expected::Char => "a string with a single character"@,
            Expected::String => "a string"@,
            Expected::Bytes => "base64 bytes"@,
            Expected::Optional => "an array with at most one element"@,
            Expected::Unit => "an empty struct"@,
            Expected::Sequence => "an array"@,
            Expected::Mapping => "a struct"@,
            Expected::Enum => "a struct with a single member"@,
        }
    }

    /// What was expected, in words.
    pub fn describe(&self) -> (r: &'static str)
        ensures
            r@ == self.words(),
    {
        match self {
            Expected::Bool => "a boolean",
            Expected::Integer => "an integer",
            Expected::Float => "a double",
            Expected::Char => "a string with a single character",
            Expected::String => "a string",
            Expected::Bytes => "base64 bytes",
            Expected::Optional => "an array with at most one element",
            Expected::Unit => "an empty struct",
            Expected::Sequence => "an array",
            Expected::Mapping => "a struct",
            Expected::Enum => "a struct with a single member",
        }
    }
}

impl Found {
    /// What was found, in words.
    pub open spec fn words(self) -> Seq<char> {
        match self {
            Found::Bool(v) => "boolean `"@ + (if v {
                "true"@
            } else {
                "false"@
            }) + "`"@,
            Found::Signed(v) => "integer `"@ + int_text(v as int) + "`"@,
            Found::Float(text) => "double `"@ + text + "`"@,
            Found::Str(text) => "string \""@ + text + "\""@,
            Found::Bytes(_) => "base64 bytes"@,
            Found::Other(text) => text,
            Found::Sequence => "array"@,
            Found::Mapping => "struct"@,
        }
    }
}

impl Unexpected {
    /// What was found, in words.
    pub fn describe(&self) -> (r: String)
        ensures
            r@ == self@.words(),
    {
        match self {
            Unexpected::Bool(v) => {
                let mut out = String::from_str("boolean `");
                out.append(
                    if *v {
                        "true"
                    } else {
                        "false"
                    },
                );
                out.append("`");
                out
            },
            Unexpected::Signed(v) => {
                let mut out = String::from_str("integer `");
                out.append(format_signed(*v).as_str());
                out.append("`");
                out
            },
            Unexpected::Float(v) => {
                let mut out = String::from_str("double `");
                out.append(v.as_str());
                out.append("`");
                out
            },
            Unexpected::Str(v) => {
                let mut out = String::from_str("string \"");
                out.append(v.as_str());
                out.append("\"");
                out
            },
            Unexpected::Bytes(_) => String::from_str("base64 bytes"),
            Unexpected::Other(v) => v.clone(),
            Unexpected::Sequence => String::from_str("array"),
            Unexpected::Mapping => String::from_str("struct"),
        }
    }
}

impl Failure {
    /// The failure in words. For a syntax error these are followed by the
    /// parser's own message.
    pub open spec fn words(self) -> Seq<char> {
        match self {
            Failure::Syntax => "not well-formed XML: "@,
            Failure::MissingElement { name } => "missing element <"@ + name + ">"@,
            Failure::UnexpectedElement { wanted, met } => "expected element <"@ + wanted
                + ">, found <"@ + met + ">"@,
            Failure::UnsupportedTag { name } => "unsupported type tag <"@ + name + ">"@,
            Failure::InvalidLeaf { kind, text } => "invalid "@ + kind.tag() + " \""@ + text
                + "\""@,
            Failure::MalformedFault => "malformed fault"@,
            Failure::InvalidType { expected, found } => "invalid type: "@ + found.words()
                + ", expected "@ + expected.words(),
            Failure::InvalidLength { arity, length } => "invalid length: expected "@ + int_text(
                arity as int,
            ) + ", found "@ + int_text(length as int),
            Failure::InvalidVariantShape { members } =>
                "invalid variant: expected a struct with a single member, found "@ + int_text(
                    members as int,
                ),
            Failure::MissingField { name } => "missing field `"@ + name + "`"@,
            Failure::MissingValue => "value is missing"@,
            Failure::Custom { report } => report,
        }
    }
}

impl DecodeError {
    /// The parser's message of a syntax error; empty for the others.
    pub open spec fn detail(self) -> Seq<char> {
        match self {
            DecodeError::Syntax { message } => message@,
            _ => Seq::empty(),
        }
    }

    /// The failure in words.
    pub fn message(&self) -> (r: String)
        ensures
            r@ == self@.words() + self.detail(),
    {
        let out = match self {
            DecodeError::Syntax { message } => {
                let mut out = String::from_str("not well-formed XML: ");
                out.append(message.as_str());
                return out;
            },
            DecodeError::MissingElement { name } => {
                let mut out = String::from_str("missing element <");
                out.append(name.as_str());
                out.append(">");
                out
            },
            DecodeError::UnexpectedElement { wanted, met } => {
                let mut out = String::from_str("expected element <");
                out.append(wanted.as_str());
                out.append(">, found <");
                out.append(met.as_str());
                out.append(">");
                out
            },
            DecodeError::UnsupportedTag { name } => {
                let mut out = String::from_str("unsupported type tag <");
                out.append(name.as_str());
                out.append(">");
                out
            },
            DecodeError::InvalidLeaf { kind, text } => {
                let mut out = String::from_str("invalid ");
                out.append(kind.name());
                out.append(" \"");
                out.append(text.as_str());
                out.append("\"");
                out
            },
            DecodeError::MalformedFault => String::from_str("malformed fault"),
            DecodeError::InvalidType { expected, found } => {
                let mut out = String::from_str("invalid type: ");
                out.append(found.describe().as_str());
                out.append(", expected ");
                out.append(expected.describe());
                out
            },
            DecodeError::InvalidLength { arity, length } => {
                let mut out = String::from_str("invalid length: expected ");
                out.append(format_unsigned(*arity as u64).as_str());
                out.append(", found ");
                out.append(format_unsigned(*length as u64).as_str());
                out
            },
            DecodeError::InvalidVariantShape { members } => {
                let mut out = String::from_str(
                    "invalid variant: expected a struct with a single member, found ",
                );
                out.append(format_unsigned(*members as u64).as_str());
                out
            },
            DecodeError::MissingField { name } => {
                let mut out = String::from_str("missing field `");
                out.append(name.as_str());
                out.append("`");
                out
            },
            DecodeError::MissingValue => String::from_str("value is missing"),
            DecodeError::Custom { message } => message.clone(),
        };
        proof {
            assert(self@.words() + Seq::<char>::empty() =~= self@.words());
        }
        out
    }
}

impl Refusal {
    /// The refusal in words.
    pub open spec fn words(self) -> Seq<char> {
        match self {
            Refusal::UnsupportedKey => "key must be a boolean, integer, double or string"@,
            Refusal::Unsupported { kind } => "unsupported shape: "@ + kind,
            Refusal::Custom { report } => report,
        }
    }
}

impl EncodeError {
    /// The refusal in words.
    pub fn message(&self) -> (r: String)
        ensures
            r@ == self@.words(),
    {
        match self {
            EncodeError::UnsupportedKey => String::from_str(
                "key must be a boolean, integer, double or string",
            ),
            EncodeError::Unsupported { kind } => {
                let mut out = String::from_str("unsupported shape: ");
                out.append(kind.as_str());
                out
            },
            EncodeError::Custom { message } => message.clone(),
        }
    }
}

} // verus!
