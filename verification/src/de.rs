//! The typed decoder: one operation for each shape that a target type may
//! ask for. Each takes the value at hand and gives what the target needs,
//! or says what was expected and what was found.

use vstd::prelude::*;
use vstd::string::StrSliceExecFns;
use crate::decimal::{bounded_value, parse_signed, parse_unsigned};
use crate::double::{is_double_literal, Double};
use crate::error::{DecodeError, Expected, Failure, Found, Unexpected};
use crate::reader::{first_where, lemma_first_where};
use crate::text::str_is;
use crate::value::{
    items_view, lemma_array_view, lemma_struct_view, members_view, named_member, Datum, Value,
};

verus! {

/// What a value looks like to a decoder that asked for something else.
pub open spec fn found_of(datum: Datum) -> Found {
    match datum {
        Datum::Int(v) => Found::Signed(v as i64),
        Datum::Bool(v) => Found::Bool(v),
        Datum::Text(text) => Found::Str(text),
        Datum::Double(text) => Found::Float(text),
        Datum::DateTime(_) => Found::Other("dateTime.iso8601"@),
        Datum::Bytes(bytes) => Found::Bytes(bytes),
        Datum::Array(_) => Found::Sequence,
        Datum::Struct(_) => Found::Mapping,
    }
}

/// The failure of a decoder that expected one shape and found this value.
pub open spec fn mismatch(expected: Expected, datum: Datum) -> Failure {
    Failure::InvalidType { expected, found: found_of(datum) }
}

/// The boolean that a value gives: a boolean itself, or the string `true`
/// or `false`.
pub open spec fn bool_of(datum: Datum) -> Result<bool, Failure> {
    match datum {
        Datum::Bool(v) => Ok(v),
        Datum::Text(text) => if text == "true"@ {
            Ok(true)
        } else if text == "false"@ {
            Ok(false)
        } else {
            Err(mismatch(Expected::Bool, datum))
        },
        _ => Err(mismatch(Expected::Bool, datum)),
    }
}

/// The double that a value gives: a double itself, or a string that is a
/// literal of the grammar.
pub open spec fn double_of(datum: Datum) -> Result<Seq<char>, Failure> {
    match datum {
        Datum::Double(text) => Ok(text),
        Datum::Text(text) => if is_double_literal(text) {
            Ok(text)
        } else {
            Err(mismatch(Expected::Float, datum))
        },
        _ => Err(mismatch(Expected::Float, datum)),
    }
}

/// The character that a value gives: that of a string of exactly one.
pub open spec fn char_of(datum: Datum) -> Result<char, Failure> {
    match datum {
        Datum::Text(text) => if text.len() == 1 {
            Ok(text[0])
        } else {
            Err(mismatch(Expected::Char, datum))
        },
        _ => Err(mismatch(Expected::Char, datum)),
    }
}

/// The text that a value gives: that of a string, and of nothing else.
pub open spec fn text_of(datum: Datum) -> Result<Seq<char>, Failure> {
    match datum {
        Datum::Text(text) => Ok(text),
        _ => Err(mismatch(Expected::String, datum)),
    }
}

/// The bytes that a value gives: those of a base64 value, and of nothing
/// else.
pub open spec fn bytes_of(datum: Datum) -> Result<Seq<u8>, Failure> {
    match datum {
        Datum::Bytes(bytes) => Ok(bytes),
        _ => Err(mismatch(Expected::Bytes, datum)),
    }
}

/// The option that a value gives: absent for the empty array, present for
/// an array of one.
pub open spec fn option_of(datum: Datum) -> Result<Option<Datum>, Failure> {
    match datum {
        Datum::Array(items) => if items.len() == 0 {
            Ok(None)
        } else if items.len() == 1 {
            Ok(Some(items[0]))
        } else {
            Err(mismatch(Expected::Optional, datum))
        },
        _ => Err(mismatch(Expected::Optional, datum)),
    }
}

/// Whether a value gives the unit: only the empty struct does.
pub open spec fn unit_of(datum: Datum) -> Result<(), Failure> {
    match datum {
        Datum::Struct(members) => if members.len() == 0 {
            Ok(())
        } else {
            Err(mismatch(Expected::Unit, datum))
        },
        _ => Err(mismatch(Expected::Unit, datum)),
    }
}

/// The elements that a value gives to a sequence of any length.
pub open spec fn seq_of(datum: Datum) -> Result<Seq<Datum>, Failure> {
    match datum {
        Datum::Array(items) => Ok(items),
        _ => Err(mismatch(Expected::Sequence, datum)),
    }
}

/// The elements that a value gives to a tuple of `arity` elements: those of
/// an array of exactly that length.
pub open spec fn tuple_of(datum: Datum, arity: usize) -> Result<Seq<Datum>, Failure> {
    match datum {
        Datum::Array(items) => if items.len() == arity {
            Ok(items)
        } else {
            Err(Failure::InvalidLength { arity, length: items.len() as usize })
        },
        _ => Err(mismatch(Expected::Sequence, datum)),
    }
}

/// The entries that a value gives to a map.
pub open spec fn map_of(datum: Datum) -> Result<Seq<(Seq<char>, Datum)>, Failure> {
    match datum {
        Datum::Struct(members) => Ok(members),
        _ => Err(mismatch(Expected::Mapping, datum)),
    }
}

/// The variant that a value gives: the name and content of the one member
/// of a struct of exactly one.
pub open spec fn enum_of(datum: Datum) -> Result<(Seq<char>, Datum), Failure> {
    match datum {
        Datum::Struct(members) => if members.len() == 1 {
            Ok(members[0])
        } else {
            Err(Failure::InvalidVariantShape { members: members.len() as usize })
        },
        _ => Err(mismatch(Expected::Enum, datum)),
    }
}

/// The `i8` that a value gives: an integer cast to the type, or a string
/// that holds a decimal literal in the type's range.
pub open spec fn i8_of(datum: Datum) -> Result<i8, Failure> {
    match datum {
        Datum::Int(v) => Ok(v as i8),
        Datum::Text(text) => match bounded_value(text, i8::MIN as int, i8::MAX as int) {
            Some(n) => Ok(n as i8),
            None => Err(mismatch(Expected::Integer, datum)),
        },
        _ => Err(mismatch(Expected::Integer, datum)),
    }
}

/// The `i16` that a value gives: an integer cast to the type, or a string
/// that holds a decimal literal in the type's range.
pub open spec fn i16_of(datum: Datum) -> Result<i16, Failure> {
    match datum {
        Datum::Int(v) => Ok(v as i16),
        Datum::Text(text) => match bounded_value(text, i16::MIN as int, i16::MAX as int) {
            Some(n) => Ok(n as i16),
            None => Err(mismatch(Expected::Integer, datum)),
        },
        _ => Err(mismatch(Expected::Integer, datum)),
    }
}

/// The `i32` that a value gives: an integer cast to the type, or a string
/// that holds a decimal literal in the type's range.
pub open spec fn i32_of(datum: Datum) -> Result<i32, Failure> {
    match datum {
        Datum::Int(v) => Ok(v as i32),
        Datum::Text(text) => match bounded_value(text, i32::MIN as int, i32::MAX as int) {
            Some(n) => Ok(n as i32),
            None => Err(mismatch(Expected::Integer, datum)),
        },
        _ => Err(mismatch(Expected::Integer, datum)),
    }
}

/// The `i64` that a value gives: an integer cast to the type, or a string
/// that holds a decimal literal in the type's range.
pub open spec fn i64_of(datum: Datum) -> Result<i64, Failure> {
    match datum {
        Datum::Int(v) => Ok(v as i64),
        Datum::Text(text) => match bounded_value(text, i64::MIN as int, i64::MAX as int) {
            Some(n) => Ok(n as i64),
            None => Err(mismatch(Expected::Integer, datum)),
        },
        _ => Err(mismatch(Expected::Integer, datum)),
    }
}

/// The `u8` that a value gives: an integer cast to the type, or a string
/// that holds a decimal literal in the type's range.
pub open spec fn u8_of(datum: Datum) -> Result<u8, Failure> {
    match datum {
        Datum::Int(v) => Ok(v as u8),
        Datum::Text(text) => match bounded_value(text, 0, u8::MAX as int) {
            Some(n) => Ok(n as u8),
            None => Err(mismatch(Expected::Integer, datum)),
        },
        _ => Err(mismatch(Expected::Integer, datum)),
    }
}

/// The `u16` that a value gives: an integer cast to the type, or a string
/// that holds a decimal literal in the type's range.
pub open spec fn u16_of(datum: Datum) -> Result<u16, Failure> {
    match datum {
        Datum::Int(v) => Ok(v as u16),
        Datum::Text(text) => match bounded_value(text, 0, u16::MAX as int) {
            Some(n) => Ok(n as u16),
            None => Err(mismatch(Expected::Integer, datum)),
        },
        _ => Err(mismatch(Expected::Integer, datum)),
    }
}

/// The `u32` that a value gives: an integer cast to the type, or a string
/// that holds a decimal literal in the type's range.
pub open spec fn u32_of(datum: Datum) -> Result<u32, Failure> {
    match datum {
        Datum::Int(v) => Ok(v as u32),
        Datum::Text(text) => match bounded_value(text, 0, u32::MAX as int) {
            Some(n) => Ok(n as u32),
            None => Err(mismatch(Expected::Integer, datum)),
        },
        _ => Err(mismatch(Expected::Integer, datum)),
    }
}

/// The `u64` that a value gives: an integer cast to the type, or a string
/// that holds a decimal literal in the type's range.
pub open spec fn u64_of(datum: Datum) -> Result<u64, Failure> {
    match datum {
        Datum::Int(v) => Ok(v as u64),
        Datum::Text(text) => match bounded_value(text, 0, u64::MAX as int) {
            Some(n) => Ok(n as u64),
            None => Err(mismatch(Expected::Integer, datum)),
        },
        _ => Err(mismatch(Expected::Integer, datum)),
    }
}

impl Value {
    /// What this value looks like to a decoder that asked for something
    /// else.
    pub fn unexpected(&self) -> (r: Unexpected)
        ensures
            r@ == found_of(self@),
    {
        match self {
            Value::Int(v) => Unexpected::Signed(*v as i64),
            Value::Bool(v) => Unexpected::Bool(*v),
            Value::String(v) => Unexpected::Str(v.clone()),
            Value::Double(v) => Unexpected::Float(v.clone()),
            Value::DateTime(_) => Unexpected::Other(String::from_str("dateTime.iso8601")),
            Value::Base64(v) => Unexpected::Bytes(v.clone()),
            Value::Array(_) => Unexpected::Sequence,
            Value::Struct(_) => Unexpected::Mapping,
        }
    }

    /// The failure of a decoder that expected one shape and found this
    /// value.
    pub fn invalid_type(&self, expected: Expected) -> (r: DecodeError)
        ensures
            r@ == mismatch(expected, self@),
    {
        DecodeError::InvalidType { expected, found: self.unexpected() }
    }

    /// Wants a boolean.
    pub fn deserialize_bool(self) -> (r: Result<bool, DecodeError>)
        ensures
            match r {
                Ok(v) => bool_of(self@) == Ok::<bool, Failure>(v),
                Err(error) => bool_of(self@) == Err::<bool, Failure>(error@),
            },
    {
        match &self {
            Value::Bool(v) => Ok(*v),
            Value::String(text) => {
                if str_is(text.as_str(), "true") {
                    Ok(true)
                } else if str_is(text.as_str(), "false") {
                    Ok(false)
                } else {
                    Err(self.invalid_type(Expected::Bool))
                }
            },
            _ => Err(self.invalid_type(Expected::Bool)),
        }
    }

    /// Wants an `i8`.
    pub fn deserialize_i8(self) -> (r: Result<i8, DecodeError>)
        ensures
            match r {
                Ok(v) => i8_of(self@) == Ok::<i8, Failure>(v),
                Err(error) => i8_of(self@) == Err::<i8, Failure>(error@),
            },
    {
        match &self {
            Value::Int(v) => Ok(#[verifier::truncate] (*v as i8)),
            Value::String(text) => match parse_signed(text.as_str(), i8::MIN as i64, i8::MAX as i64) {
                Some(n) => Ok(n as i8),
                None => Err(self.invalid_type(Expected::Integer)),
            },
            _ => Err(self.invalid_type(Expected::Integer)),
        }
    }

    /// Wants an `i16`.
    pub fn deserialize_i16(self) -> (r: Result<i16, DecodeError>)
        ensures
            match r {
                Ok(v) => i16_of(self@) == Ok::<i16, Failure>(v),
                Err(error) => i16_of(self@) == Err::<i16, Failure>(error@),
            },
    {
        match &self {
            Value::Int(v) => Ok(#[verifier::truncate] (*v as i16)),
            Value::String(text) => match parse_signed(text.as_str(), i16::MIN as i64, i16::MAX as i64) {
                Some(n) => Ok(n as i16),
                None => Err(self.invalid_type(Expected::Integer)),
            },
            _ => Err(self.invalid_type(Expected::Integer)),
        }
    }

    /// Wants an `i32`.
    pub fn deserialize_i32(self) -> (r: Result<i32, DecodeError>)
        ensures
            match r {
                Ok(v) => i32_of(self@) == Ok::<i32, Failure>(v),
                Err(error) => i32_of(self@) == Err::<i32, Failure>(error@),
            },
    {
        match &self {
            Value::Int(v) => Ok(#[verifier::truncate] (*v as i32)),
            Value::String(text) => match parse_signed(text.as_str(), i32::MIN as i64, i32::MAX as i64) {
                Some(n) => Ok(n as i32),
                None => Err(self.invalid_type(Expected::Integer)),
            },
            _ => Err(self.invalid_type(Expected::Integer)),
        }
    }

    /// Wants an `i64`.
    pub fn deserialize_i64(self) -> (r: Result<i64, DecodeError>)
        ensures
            match r {
                Ok(v) => i64_of(self@) == Ok::<i64, Failure>(v),
                Err(error) => i64_of(self@) == Err::<i64, Failure>(error@),
            },
    {
        match &self {
            Value::Int(v) => Ok(#[verifier::truncate] (*v as i64)),
            Value::String(text) => match parse_signed(text.as_str(), i64::MIN, i64::MAX) {
                Some(n) => Ok(n as i64),
                None => Err(self.invalid_type(Expected::Integer)),
            },
            _ => Err(self.invalid_type(Expected::Integer)),
        }
    }

    /// Wants an `u8`.
    pub fn deserialize_u8(self) -> (r: Result<u8, DecodeError>)
        ensures
            match r {
                Ok(v) => u8_of(self@) == Ok::<u8, Failure>(v),
                Err(error) => u8_of(self@) == Err::<u8, Failure>(error@),
            },
    {
        match &self {
            Value::Int(v) => Ok(#[verifier::truncate] (*v as u8)),
            Value::String(text) => match parse_unsigned(text.as_str(), u8::MAX as u64) {
                Some(n) => Ok(n as u8),
                None => Err(self.invalid_type(Expected::Integer)),
            },
            _ => Err(self.invalid_type(Expected::Integer)),
        }
    }

    /// Wants an `u16`.
    pub fn deserialize_u16(self) -> (r: Result<u16, DecodeError>)
        ensures
            match r {
                Ok(v) => u16_of(self@) == Ok::<u16, Failure>(v),
                Err(error) => u16_of(self@) == Err::<u16, Failure>(error@),
            },
    {
        match &self {
            Value::Int(v) => Ok(#[verifier::truncate] (*v as u16)),
            Value::String(text) => match parse_unsigned(text.as_str(), u16::MAX as u64) {
                Some(n) => Ok(n as u16),
                None => Err(self.invalid_type(Expected::Integer)),
            },
            _ => Err(self.invalid_type(Expected::Integer)),
        }
    }

    /// Wants an `u32`.
    pub fn deserialize_u32(self) -> (r: Result<u32, DecodeError>)
        ensures
            match r {
                Ok(v) => u32_of(self@) == Ok::<u32, Failure>(v),
                Err(error) => u32_of(self@) == Err::<u32, Failure>(error@),
            },
    {
        match &self {
            Value::Int(v) => Ok(#[verifier::truncate] (*v as u32)),
            Value::String(text) => match parse_unsigned(text.as_str(), u32::MAX as u64) {
                Some(n) => Ok(n as u32),
                None => Err(self.invalid_type(Expected::Integer)),
            },
            _ => Err(self.invalid_type(Expected::Integer)),
        }
    }

    /// Wants an `u64`.
    pub fn deserialize_u64(self) -> (r: Result<u64, DecodeError>)
        ensures
            match r {
                Ok(v) => u64_of(self@) == Ok::<u64, Failure>(v),
                Err(error) => u64_of(self@) == Err::<u64, Failure>(error@),
            },
    {
        match &self {
            Value::Int(v) => Ok(#[verifier::truncate] (*v as u64)),
            Value::String(text) => match parse_unsigned(text.as_str(), u64::MAX) {
                Some(n) => Ok(n as u64),
                None => Err(self.invalid_type(Expected::Integer)),
            },
            _ => Err(self.invalid_type(Expected::Integer)),
        }
    }

    /// Wants a double.
    pub fn deserialize_f64(self) -> (r: Result<Double, DecodeError>)
        ensures
            match r {
                Ok(v) => double_of(self@) == Ok::<Seq<char>, Failure>(v@),
                Err(error) => double_of(self@) == Err::<Seq<char>, Failure>(error@),
            },
    {
        match self {
            Value::Double(v) => Ok(v),
            Value::String(text) => match Double::parse(text.as_str()) {
                Some(v) => Ok(v),
                None => Err(
                    DecodeError::InvalidType {
                        expected: Expected::Float,
                        found: Unexpected::Str(text),
                    },
                ),
            },
            other => Err(other.invalid_type(Expected::Float)),
        }
    }

    /// Wants a character.
    pub fn deserialize_char(self) -> (r: Result<char, DecodeError>)
        ensures
            match r {
                Ok(v) => char_of(self@) == Ok::<char, Failure>(v),
                Err(error) => char_of(self@) == Err::<char, Failure>(error@),
            },
    {
        match &self {
            Value::String(text) => {
                if text.as_str().unicode_len() == 1 {
                    Ok(text.as_str().get_char(0))
                } else {
                    Err(self.invalid_type(Expected::Char))
                }
            },
            _ => Err(self.invalid_type(Expected::Char)),
        }
    }

    /// Wants a string slice; what it gets is owned, as for `deserialize_string`.
    pub fn deserialize_str(self) -> (r: Result<String, DecodeError>)
        ensures
            match r {
                Ok(v) => text_of(self@) == Ok::<Seq<char>, Failure>(v@),
                Err(error) => text_of(self@) == Err::<Seq<char>, Failure>(error@),
            },
    {
        self.deserialize_string()
    }

    /// Wants a string. A date and time is no string.
    pub fn deserialize_string(self) -> (r: Result<String, DecodeError>)
        ensures
            match r {
                Ok(v) => text_of(self@) == Ok::<Seq<char>, Failure>(v@),
                Err(error) => text_of(self@) == Err::<Seq<char>, Failure>(error@),
            },
    {
        match self {
            Value::String(text) => Ok(text),
            other => Err(other.invalid_type(Expected::String)),
        }
    }

    /// Wants borrowed bytes; what it gets is owned, as for
    /// `deserialize_byte_buf`.
    pub fn deserialize_bytes(self) -> (r: Result<Vec<u8>, DecodeError>)
        ensures
            match r {
                Ok(v) => bytes_of(self@) == Ok::<Seq<u8>, Failure>(v@),
                Err(error) => bytes_of(self@) == Err::<Seq<u8>, Failure>(error@),
            },
    {
        self.deserialize_byte_buf()
    }

    /// Wants bytes.
    pub fn deserialize_byte_buf(self) -> (r: Result<Vec<u8>, DecodeError>)
        ensures
            match r {
                Ok(v) => bytes_of(self@) == Ok::<Seq<u8>, Failure>(v@),
                Err(error) => bytes_of(self@) == Err::<Seq<u8>, Failure>(error@),
            },
    {
        match self {
            Value::Base64(bytes) => Ok(bytes),
            other => Err(other.invalid_type(Expected::Bytes)),
        }
    }

    /// Wants an option: the content where there is one.
    pub fn deserialize_option(self) -> (r: Result<Option<Value>, DecodeError>)
        ensures
            match r {
                Ok(Some(v)) => option_of(self@) == Ok::<Option<Datum>, Failure>(Some(v@)),
                Ok(None) => option_of(self@) == Ok::<Option<Datum>, Failure>(None),
                Err(error) => option_of(self@) == Err::<Option<Datum>, Failure>(error@),
            },
    {
        match self {
            Value::Array(mut items) => {
                proof {
                    lemma_array_view(items);
                }
                if items.len() > 1 {
                    Err(
                        DecodeError::InvalidType {
                            expected: Expected::Optional,
                            found: Unexpected::Sequence,
                        },
                    )
                } else {
                    Ok(items.pop())
                }
            },
            other => Err(other.invalid_type(Expected::Optional)),
        }
    }

    /// Wants the unit.
    pub fn deserialize_unit(self) -> (r: Result<(), DecodeError>)
        ensures
            match r {
                Ok(_) => unit_of(self@) == Ok::<(), Failure>(()),
                Err(error) => unit_of(self@) == Err::<(), Failure>(error@),
            },
    {
        match &self {
            Value::Struct(members) => {
                proof {
                    lemma_struct_view(*members);
                }
                if members.len() == 0 {
                    Ok(())
                } else {
                    Err(self.invalid_type(Expected::Unit))
                }
            },
            _ => Err(self.invalid_type(Expected::Unit)),
        }
    }

    /// Wants a unit struct: as for the unit.
    pub fn deserialize_unit_struct(self, _name: &str) -> (r: Result<(), DecodeError>)
        ensures
            match r {
                Ok(_) => unit_of(self@) == Ok::<(), Failure>(()),
                Err(error) => unit_of(self@) == Err::<(), Failure>(error@),
            },
    {
        self.deserialize_unit()
    }

    /// Wants a newtype struct: its content is read from this same value.
    pub fn deserialize_newtype_struct(self, _name: &str) -> (r: Result<Value, DecodeError>)
        ensures
            r matches Ok(v) && v@ == self@,
    {
        Ok(self)
    }

    /// Wants the content of a variant without content: the empty struct.
    pub fn unit_variant(self) -> (r: Result<(), DecodeError>)
        ensures
            match r {
                Ok(_) => unit_of(self@) == Ok::<(), Failure>(()),
                Err(error) => unit_of(self@) == Err::<(), Failure>(error@),
            },
    {
        self.deserialize_unit()
    }

    /// Wants the content of a variant with one content: it is read from
    /// this same value.
    pub fn newtype_variant_seed(self) -> (r: Result<Value, DecodeError>)
        ensures
            r matches Ok(v) && v@ == self@,
    {
        Ok(self)
    }
}

/// The same elements, last first.
fn reversed<T>(items: Vec<T>) -> (r: Vec<T>)
    ensures
        r.len() == items.len(),
        forall|j: int| 0 <= j < r.len() ==> r[j] == items[items.len() - 1 - j],
{
    let mut source = items;
    let mut out: Vec<T> = Vec::new();
    while source.len() > 0
        invariant
            source.len() + out.len() == items.len(),
            source@ == items@.take(source.len() as int),
            forall|j: int| 0 <= j < out.len() ==> out[j] == items[items.len() - 1 - j],
        decreases source.len(),
    {
        match source.pop() {
            Some(item) => {
                out.push(item);
            },
            None => {},
        }
        proof {
            assert(source@ =~= items@.take(source.len() as int));
        }
    }
    out
}

/// The mathematical model of a [`SeqDeserializer`]: the elements that are
/// still to come, and how many there were at the start.
pub struct SeqCursor {
    pub remaining: Seq<Datum>,
    pub total: usize,
}

impl SeqCursor {
    /// How many elements were handed out.
    pub open spec fn taken(self) -> usize {
        if self.total >= self.remaining.len() {
            (self.total - self.remaining.len()) as usize
        } else {
            0
        }
    }
}

/// Hands out the elements of an array one by one.
pub struct SeqDeserializer {
    rest: Vec<Value>,
    total: usize,
}

impl View for SeqDeserializer {
    type V = SeqCursor;

    closed spec fn view(&self) -> SeqCursor {
        SeqCursor {
            remaining: Seq::new(self.rest.len() as nat, |i: int| self.rest[self.rest.len() - 1 - i]@),
            total: self.total,
        }
    }
}

impl SeqDeserializer {
    /// Starts at the first of the given elements.
    pub fn new(items: Vec<Value>) -> (r: SeqDeserializer)
        ensures
            r@ == (SeqCursor { remaining: items_view(items@), total: items.len() }),
    {
        let total = items.len();
        let rest = reversed(items);
        let r = SeqDeserializer { rest, total };
        proof {
            assert(r@.remaining =~= items_view(items@));
        }
        r
    }

    /// The next element, if one is left.
    pub fn next_element(&mut self) -> (r: Option<Value>)
        ensures
            final(self)@.total == old(self)@.total,
            match r {
                Some(value) => old(self)@.remaining.len() > 0 && value@ == old(self)@.remaining[0]
                    && final(self)@.remaining == old(self)@.remaining.drop_first(),
                None => old(self)@.remaining.len() == 0 && final(self)@ == old(self)@,
            },
    {
        let r = self.rest.pop();
        proof {
            if r is Some {
                assert(final(self)@.remaining =~= old(self)@.remaining.drop_first());
            } else {
                assert(final(self)@.remaining =~= old(self)@.remaining);
            }
        }
        r
    }

    /// How many elements are left.
    pub fn size_hint(&self) -> (r: Option<usize>)
        ensures
            r == Some(self@.remaining.len() as usize),
    {
        Some(self.rest.len())
    }

    /// Closes the sequence: a target that left elements behind has not the
    /// array's length.
    pub fn end(self) -> (r: Result<(), DecodeError>)
        ensures
            match r {
                Ok(_) => self@.remaining.len() == 0,
                Err(error) => self@.remaining.len() > 0 && error@ == (Failure::InvalidLength {
                    arity: self@.taken(),
                    length: self@.total,
                }),
            },
    {
        if self.rest.len() == 0 {
            Ok(())
        } else {
            let arity = if self.total >= self.rest.len() {
                self.total - self.rest.len()
            } else {
                0
            };
            Err(DecodeError::InvalidLength { arity, length: self.total })
        }
    }
}

/// The mathematical model of a [`MapDeserializer`]: the entries that are
/// still to come, and the value of the entry whose key was taken last.
pub struct MapCursor {
    pub remaining: Seq<(Seq<char>, Datum)>,
    pub pending: Option<Datum>,
}

/// Hands out the entries of a struct one by one: the key first, then the
/// value.
pub struct MapDeserializer {
    rest: Vec<(String, Value)>,
    value: Option<Value>,
}

impl View for MapDeserializer {
    type V = MapCursor;

    closed spec fn view(&self) -> MapCursor {
        MapCursor {
            remaining: Seq::new(
                self.rest.len() as nat,
                |i: int|
                    (
                        self.rest[self.rest.len() - 1 - i].0@,
                        self.rest[self.rest.len() - 1 - i].1@,
                    ),
            ),
            pending: match self.value {
                Some(value) => Some(value@),
                None => None,
            },
        }
    }
}

impl MapDeserializer {
    /// Starts at the first of the given entries.
    pub fn new(members: Vec<(String, Value)>) -> (r: MapDeserializer)
        ensures
            r@ == (MapCursor { remaining: members_view(members@), pending: None }),
    {
        let rest = reversed(members);
        let r = MapDeserializer { rest, value: None };
        proof {
            assert(r@.remaining =~= members_view(members@));
        }
        r
    }

    /// The key of the next entry, as a string value, if an entry is left.
    /// Its value then waits to be taken.
    pub fn next_key(&mut self) -> (r: Option<Value>)
        ensures
            match r {
                Some(key) => old(self)@.remaining.len() > 0 && key@ == Datum::Text(
                    old(self)@.remaining[0].0,
                ) && final(self)@ == (MapCursor {
                    remaining: old(self)@.remaining.drop_first(),
                    pending: Some(old(self)@.remaining[0].1),
                }),
                None => old(self)@.remaining.len() == 0 && final(self)@ == old(self)@,
            },
    {
        match self.rest.pop() {
            Some((key, value)) => {
                self.value = Some(value);
                proof {
                    assert(final(self)@.remaining =~= old(self)@.remaining.drop_first());
                }
                Some(Value::String(key))
            },
            None => {
                proof {
                    assert(final(self)@.remaining =~= old(self)@.remaining);
                }
                None
            },
        }
    }

    /// The value of the entry whose key was taken last.
    pub fn next_value(&mut self) -> (r: Result<Value, DecodeError>)
        ensures
            final(self)@ == (MapCursor { remaining: old(self)@.remaining, pending: None }),
            match r {
                Ok(value) => old(self)@.pending == Some(value@),
                Err(error) => old(self)@.pending is None && error@ == Failure::MissingValue,
            },
    {
        match self.value.take() {
            Some(value) => Ok(value),
            None => Err(DecodeError::MissingValue),
        }
    }

    /// How many entries are left.
    pub fn size_hint(&self) -> (r: Option<usize>)
        ensures
            r == Some(self@.remaining.len() as usize),
    {
        Some(self.rest.len())
    }
}

/// A variant at hand: its name and its content.
pub struct EnumDeserializer {
    pub variant: String,
    pub value: Value,
}

impl EnumDeserializer {
    /// The name of the variant, as a string value, and the content.
    pub fn variant_seed(self) -> (r: (Value, Value))
        ensures
            r.0@ == Datum::Text(self.variant@),
            r.1@ == self.value@,
    {
        (Value::String(self.variant), self.value)
    }
}

/// The test "is a field that no member is named after".
pub open spec fn field_absent(members: Seq<(Seq<char>, Datum)>) -> spec_fn(Seq<char>) -> bool {
    |field: Seq<char>| first_where(members, named_member(field)) >= members.len()
}

/// The values that a value gives to the named fields of a struct, in the
/// order of the fields: for each field that of the first member of its
/// name. Members of other names are passed over. The first field without
/// a member is the failure.
pub open spec fn struct_of(datum: Datum, fields: Seq<Seq<char>>) -> Result<Seq<Datum>, Failure> {
    match datum {
        Datum::Struct(members) => {
            let missing = first_where(fields, field_absent(members));
            if missing < fields.len() {
                Err(Failure::MissingField { name: fields[missing as int] })
            } else {
                Ok(
                    Seq::new(
                        fields.len(),
                        |i: int| members[first_where(members, named_member(fields[i])) as int].1,
                    ),
                )
            }
        },
        _ => Err(mismatch(Expected::Mapping, datum)),
    }
}

/// The names of some fields, as texts.
pub open spec fn fields_view(fields: Seq<&str>) -> Seq<Seq<char>> {
    Seq::new(fields.len(), |i: int| fields[i]@)
}

/// Index of the first member of the given name; the number of members
/// where there is none.
fn find_member(members: &Vec<(String, Value)>, name: &str) -> (k: usize)
    ensures
        k == first_where(members_view(members@), named_member(name@)),
        k <= members.len(),
{
    let ghost views = members_view(members@);
    let mut i: usize = 0;
    while i < members.len()
        invariant
            i <= members.len(),
            views == members_view(members@),
            forall|j: int| 0 <= j < i ==> !named_member(name@)(#[trigger] views[j]),
        decreases members.len() - i,
    {
        if str_is(members[i].0.as_str(), name) {
            proof {
                lemma_first_where(views, named_member(name@), i as int);
            }
            return i;
        }
        i = i + 1;
    }
    proof {
        lemma_first_where(views, named_member(name@), i as int);
    }
    i
}

/// What a value presents itself as to a target that asks for anything.
pub enum Visit {
    Bool(bool),
    I32(i32),
    F64(Double),
    String(String),
    Bytes(Vec<u8>),
    Sequence(SeqDeserializer),
    Mapping(MapDeserializer),
}

/// The mathematical model of a [`Visit`].
pub enum Visited {
    Bool(bool),
    I32(i32),
    F64(Seq<char>),
    String(Seq<char>),
    Bytes(Seq<u8>),
    Sequence(SeqCursor),
    Mapping(MapCursor),
}

impl View for Visit {
    type V = Visited;

    open spec fn view(&self) -> Visited {
        match self {
            Visit::Bool(v) => Visited::Bool(*v),
            Visit::I32(v) => Visited::I32(*v),
            Visit::F64(v) => Visited::F64(v@),
            Visit::String(v) => Visited::String(v@),
            Visit::Bytes(v) => Visited::Bytes(v@),
            Visit::Sequence(v) => Visited::Sequence(v@),
            Visit::Mapping(v) => Visited::Mapping(v@),
        }
    }
}

/// What a value presents itself as: every type as itself, a date and
/// time as its RFC 3339 text.
pub open spec fn visit_of(datum: Datum) -> Visited {
    match datum {
        Datum::Int(v) => Visited::I32(v),
        Datum::Bool(v) => Visited::Bool(v),
        Datum::Text(text) => Visited::String(text),
        Datum::Double(text) => Visited::F64(text),
        Datum::DateTime(instant) => Visited::String(instant.wire_text()),
        Datum::Bytes(bytes) => Visited::Bytes(bytes),
        Datum::Array(items) => Visited::Sequence(
            SeqCursor { remaining: items, total: items.len() as usize },
        ),
        Datum::Struct(members) => Visited::Mapping(MapCursor { remaining: members, pending: None }),
    }
}

impl Value {
    /// Wants anything: the value presents itself. A sequence or a map is
    /// then walked through the cursor; `SeqDeserializer::end` tells
    /// whether the target took every element.
    pub fn deserialize_any(self) -> (r: Visit)
        ensures
            r@ == visit_of(self@),
    {
        match self {
            Value::Int(v) => Visit::I32(v),
            Value::Bool(v) => Visit::Bool(v),
            Value::String(v) => Visit::String(v),
            Value::Double(v) => Visit::F64(v),
            Value::DateTime(v) => Visit::String(v.to_rfc3339()),
            Value::Base64(v) => Visit::Bytes(v),
            Value::Array(items) => {
                proof {
                    lemma_array_view(items);
                }
                Visit::Sequence(SeqDeserializer::new(items))
            },
            Value::Struct(members) => {
                proof {
                    lemma_struct_view(members);
                }
                Visit::Mapping(MapDeserializer::new(members))
            },
        }
    }

    /// Wants a sequence of any length.
    pub fn deserialize_seq(self) -> (r: Result<SeqDeserializer, DecodeError>)
        ensures
            match r {
                Ok(cursor) => seq_of(self@) == Ok::<Seq<Datum>, Failure>(cursor@.remaining)
                    && cursor@.total == cursor@.remaining.len(),
                Err(error) => seq_of(self@) == Err::<Seq<Datum>, Failure>(error@),
            },
    {
        match self {
            Value::Array(items) => {
                proof {
                    lemma_array_view(items);
                }
                Ok(SeqDeserializer::new(items))
            },
            other => Err(other.invalid_type(Expected::Sequence)),
        }
    }

    /// Wants a tuple of `len` elements: an array of another length is
    /// refused, with both numbers.
    pub fn deserialize_tuple(self, len: usize) -> (r: Result<SeqDeserializer, DecodeError>)
        ensures
            match r {
                Ok(cursor) => tuple_of(self@, len) == Ok::<Seq<Datum>, Failure>(cursor@.remaining)
                    && cursor@.total == len,
                Err(error) => tuple_of(self@, len) == Err::<Seq<Datum>, Failure>(error@),
            },
    {
        match self {
            Value::Array(items) => {
                proof {
                    lemma_array_view(items);
                }
                if items.len() == len {
                    Ok(SeqDeserializer::new(items))
                } else {
                    Err(DecodeError::InvalidLength { arity: len, length: items.len() })
                }
            },
            other => Err(other.invalid_type(Expected::Sequence)),
        }
    }

    /// Wants a tuple struct of `len` fields: as for a tuple.
    pub fn deserialize_tuple_struct(self, _name: &str, len: usize) -> (r: Result<
        SeqDeserializer,
        DecodeError,
    >)
        ensures
            match r {
                Ok(cursor) => tuple_of(self@, len) == Ok::<Seq<Datum>, Failure>(cursor@.remaining)
                    && cursor@.total == len,
                Err(error) => tuple_of(self@, len) == Err::<Seq<Datum>, Failure>(error@),
            },
    {
        self.deserialize_tuple(len)
    }

    /// Wants the content of a variant that holds a tuple of `len` fields:
    /// as for a tuple.
    pub fn tuple_variant(self, len: usize) -> (r: Result<SeqDeserializer, DecodeError>)
        ensures
            match r {
                Ok(cursor) => tuple_of(self@, len) == Ok::<Seq<Datum>, Failure>(cursor@.remaining)
                    && cursor@.total == len,
                Err(error) => tuple_of(self@, len) == Err::<Seq<Datum>, Failure>(error@),
            },
    {
        self.deserialize_tuple(len)
    }

    /// Wants a map: the entries in order, each key as the member's name.
    pub fn deserialize_map(self) -> (r: Result<MapDeserializer, DecodeError>)
        ensures
            match r {
                Ok(cursor) => map_of(self@) == Ok::<Seq<(Seq<char>, Datum)>, Failure>(
                    cursor@.remaining,
                ) && cursor@.pending is None,
                Err(error) => map_of(self@) == Err::<Seq<(Seq<char>, Datum)>, Failure>(error@),
            },
    {
        match self {
            Value::Struct(members) => {
                proof {
                    lemma_struct_view(members);
                }
                Ok(MapDeserializer::new(members))
            },
            other => Err(other.invalid_type(Expected::Mapping)),
        }
    }

    /// Wants a struct with the given named fields: the values of the
    /// fields, in the order of the fields.
    pub fn deserialize_struct(self, _name: &str, fields: &[&str]) -> (r: Result<
        Vec<Value>,
        DecodeError,
    >)
        ensures
            match r {
                Ok(values) => struct_of(self@, fields_view(fields@)) == Ok::<Seq<Datum>, Failure>(
                    items_view(values@),
                ),
                Err(error) => struct_of(self@, fields_view(fields@)) == Err::<
                    Seq<Datum>,
                    Failure,
                >(error@),
            },
    {
        match &self {
            Value::Struct(members) => {
                proof {
                    lemma_struct_view(*members);
                }
                let ghost names = fields_view(fields@);
                let ghost views = members_view(members@);
                let mut out: Vec<Value> = Vec::new();
                let mut i: usize = 0;
                while i < fields.len()
                    invariant
                        i <= fields.len(),
                        names == fields_view(fields@),
                        views == members_view(members@),
                        self@ == Datum::Struct(views),
                        out.len() == i,
                        forall|j: int| 0 <= j < i ==> !field_absent(views)(#[trigger] names[j]),
                        forall|j: int|
                            0 <= j < i ==> (#[trigger] out[j])@ == views[first_where(
                                views,
                                named_member(names[j]),
                            ) as int].1,
                    decreases fields.len() - i,
                {
                    let k = find_member(members, fields[i]);
                    assert(names[i as int] == fields[i as int]@);
                    if k >= members.len() {
                        proof {
                            assert(field_absent(views)(names[i as int]));
                            lemma_first_where(names, field_absent(views), i as int);
                        }
                        return Err(DecodeError::MissingField { name: String::from_str(fields[i]) });
                    }
                    out.push(members[k].1.clone());
                    i = i + 1;
                }
                proof {
                    lemma_first_where(names, field_absent(views), i as int);
                    assert(items_view(out@) =~= struct_of(self@, names)->Ok_0);
                }
                Ok(out)
            },
            _ => Err(self.invalid_type(Expected::Mapping)),
        }
    }

    /// Wants the content of a variant that holds named fields: as for a
    /// struct.
    pub fn struct_variant(self, fields: &[&str]) -> (r: Result<Vec<Value>, DecodeError>)
        ensures
            match r {
                Ok(values) => struct_of(self@, fields_view(fields@)) == Ok::<Seq<Datum>, Failure>(
                    items_view(values@),
                ),
                Err(error) => struct_of(self@, fields_view(fields@)) == Err::<
                    Seq<Datum>,
                    Failure,
                >(error@),
            },
    {
        self.deserialize_struct("", fields)
    }

    /// Wants a variant: the one member of a struct of exactly one.
    pub fn deserialize_enum(self, _name: &str, _variants: &[&str]) -> (r: Result<
        EnumDeserializer,
        DecodeError,
    >)
        ensures
            match r {
                Ok(found) => enum_of(self@) == Ok::<(Seq<char>, Datum), Failure>(
                    (found.variant@, found.value@),
                ),
                Err(error) => enum_of(self@) == Err::<(Seq<char>, Datum), Failure>(error@),
            },
    {
        match self {
            Value::Struct(mut members) => {
                proof {
                    lemma_struct_view(members);
                }
                if members.len() == 1 {
                    match members.pop() {
                        Some((variant, value)) => Ok(EnumDeserializer { variant, value }),
                        None => Err(DecodeError::InvalidVariantShape { members: 0 }),
                    }
                } else {
                    Err(DecodeError::InvalidVariantShape { members: members.len() })
                }
            },
            other => Err(other.invalid_type(Expected::Enum)),
        }
    }
}

} // verus!
