//! The typed encoder: one operation for each shape of the data model that
//! an application type may present, each giving the value that carries it.
//! Composite shapes hand in their parts already encoded.

use vstd::prelude::*;
use vstd::slice::slice_to_vec;
use crate::decimal::{format_signed, format_unsigned, int_text};
use crate::double::Double;
use crate::error::{EncodeError, Refusal};
use crate::value::{
    items_view, lemma_array_view, lemma_struct_view, members_view, Datum, Value,
};

verus! {

/// The value that carries a variant: a struct of one member, named after
/// the variant, that holds the variant's content.
pub open spec fn variant_datum(variant: Seq<char>, content: Datum) -> Datum {
    Datum::Struct(seq![(variant, content)])
}

/// The value that carries content under an optional variant name.
pub open spec fn tagged_datum(variant: Option<Seq<char>>, content: Datum) -> Datum {
    match variant {
        Some(name) => variant_datum(name, content),
        None => content,
    }
}

/// The member name that a map key becomes: a boolean as `true` or `false`,
/// an integer as its decimal text, a double as its literal, a string as it
/// is. Other values cannot be keys.
pub open spec fn key_text(key: Datum) -> Option<Seq<char>> {
    match key {
        Datum::Bool(v) => Some(
            if v {
                "true"@
            } else {
                "false"@
            },
        ),
        Datum::Int(v) => Some(int_text(v as int)),
        Datum::Double(text) => Some(text),
        Datum::Text(text) => Some(text),
        _ => None,
    }
}

/// The model of what an encoding gave.
pub open spec fn encoded(r: Result<Value, EncodeError>) -> Result<Datum, Refusal> {
    match r {
        Ok(value) => Ok(value@),
        Err(error) => Err(error@),
    }
}

fn variant_value(variant: String, content: Value) -> (r: Value)
    ensures
        r@ == variant_datum(variant@, content@),
{
    let mut members: Vec<(String, Value)> = Vec::new();
    members.push((variant, content));
    proof {
        lemma_struct_view(members);
        assert(members_view(members@) =~= seq![(variant@, content@)]);
    }
    Value::Struct(members)
}

fn empty_struct() -> (r: Value)
    ensures
        r@ == Datum::Struct(Seq::empty()),
{
    let members: Vec<(String, Value)> = Vec::new();
    proof {
        lemma_struct_view(members);
        assert(members_view(members@) =~= Seq::empty());
    }
    Value::Struct(members)
}

/// The typed encoder.
pub struct Serializer;

impl Serializer {
    /// A boolean is carried as a boolean.
    pub fn serialize_bool(self, v: bool) -> (r: Result<Value, EncodeError>)
        ensures
            encoded(r) == Ok::<Datum, Refusal>(Datum::Bool(v)),
    {
        Ok(Value::Bool(v))
    }

    /// An 8-bit signed integer is carried as an integer.
    pub fn serialize_i8(self, v: i8) -> (r: Result<Value, EncodeError>)
        ensures
            encoded(r) == Ok::<Datum, Refusal>(Datum::Int(v as i32)),
    {
        Ok(Value::Int(v as i32))
    }

    /// A 16-bit signed integer is carried as an integer.
    pub fn serialize_i16(self, v: i16) -> (r: Result<Value, EncodeError>)
        ensures
            encoded(r) == Ok::<Datum, Refusal>(Datum::Int(v as i32)),
    {
        Ok(Value::Int(v as i32))
    }

    /// A 32-bit signed integer is carried as an integer.
    pub fn serialize_i32(self, v: i32) -> (r: Result<Value, EncodeError>)
        ensures
            encoded(r) == Ok::<Datum, Refusal>(Datum::Int(v)),
    {
        Ok(Value::Int(v))
    }

    /// A 64-bit signed integer may not fit the wire's integer: it is
    /// carried as the string of its decimal text.
    pub fn serialize_i64(self, v: i64) -> (r: Result<Value, EncodeError>)
        ensures
            encoded(r) == Ok::<Datum, Refusal>(Datum::Text(int_text(v as int))),
    {
        Ok(Value::String(format_signed(v)))
    }

    /// An 8-bit unsigned integer is carried as an integer.
    pub fn serialize_u8(self, v: u8) -> (r: Result<Value, EncodeError>)
        ensures
            encoded(r) == Ok::<Datum, Refusal>(Datum::Int(v as i32)),
    {
        Ok(Value::Int(v as i32))
    }

    /// A 16-bit unsigned integer is carried as an integer.
    pub fn serialize_u16(self, v: u16) -> (r: Result<Value, EncodeError>)
        ensures
            encoded(r) == Ok::<Datum, Refusal>(Datum::Int(v as i32)),
    {
        Ok(Value::Int(v as i32))
    }

    /// A 32-bit unsigned integer may not fit the wire's integer: it is
    /// carried as the string of its decimal text.
    pub fn serialize_u32(self, v: u32) -> (r: Result<Value, EncodeError>)
        ensures
            encoded(r) == Ok::<Datum, Refusal>(Datum::Text(int_text(v as int))),
    {
        Ok(Value::String(format_unsigned(v as u64)))
    }

    /// A 64-bit unsigned integer may not fit the wire's integer: it is
    /// carried as the string of its decimal text.
    pub fn serialize_u64(self, v: u64) -> (r: Result<Value, EncodeError>)
        ensures
            encoded(r) == Ok::<Datum, Refusal>(Datum::Text(int_text(v as int))),
    {
        Ok(Value::String(format_unsigned(v)))
    }

    /// A double is carried as a double.
    pub fn serialize_f64(self, v: Double) -> (r: Result<Value, EncodeError>)
        ensures
            encoded(r) == Ok::<Datum, Refusal>(Datum::Double(v@)),
    {
        Ok(Value::Double(v))
    }

    /// A character is carried as the string that holds it alone.
    pub fn serialize_char(self, v: char) -> (r: Result<Value, EncodeError>)
        ensures
            encoded(r) == Ok::<Datum, Refusal>(Datum::Text(seq![v])),
    {
        let mut text = String::new();
        text.push(v);
        proof {
            assert(text@ =~= seq![v]);
        }
        Ok(Value::String(text))
    }

    /// A string is carried as a string.
    pub fn serialize_str(self, v: &str) -> (r: Result<Value, EncodeError>)
        ensures
            encoded(r) == Ok::<Datum, Refusal>(Datum::Text(v@)),
    {
        Ok(Value::String(String::from_str(v)))
    }

    /// Raw bytes are carried as base64.
    pub fn serialize_bytes(self, v: &[u8]) -> (r: Result<Value, EncodeError>)
        ensures
            encoded(r) == Ok::<Datum, Refusal>(Datum::Bytes(v@)),
    {
        Ok(Value::Base64(slice_to_vec(v)))
    }

    /// An absent option is carried as the empty array.
    pub fn serialize_none(self) -> (r: Result<Value, EncodeError>)
        ensures
            encoded(r) == Ok::<Datum, Refusal>(Datum::Array(Seq::empty())),
    {
        let items: Vec<Value> = Vec::new();
        proof {
            lemma_array_view(items);
            assert(items_view(items@) =~= Seq::empty());
        }
        Ok(Value::Array(items))
    }

    /// A present option is carried as the array of its one content.
    pub fn serialize_some(self, value: Value) -> (r: Result<Value, EncodeError>)
        ensures
            encoded(r) == Ok::<Datum, Refusal>(Datum::Array(seq![value@])),
    {
        let mut items: Vec<Value> = Vec::new();
        items.push(value);
        proof {
            lemma_array_view(items);
            assert(items_view(items@) =~= seq![value@]);
        }
        Ok(Value::Array(items))
    }

    /// The unit is carried as the empty struct.
    pub fn serialize_unit(self) -> (r: Result<Value, EncodeError>)
        ensures
            encoded(r) == Ok::<Datum, Refusal>(Datum::Struct(Seq::empty())),
    {
        Ok(empty_struct())
    }

    /// A unit struct is carried as the unit is.
    pub fn serialize_unit_struct(self, _name: &str) -> (r: Result<Value, EncodeError>)
        ensures
            encoded(r) == Ok::<Datum, Refusal>(Datum::Struct(Seq::empty())),
    {
        self.serialize_unit()
    }

    /// A variant without content is carried as a struct of one member,
    /// named after the variant, that holds the empty struct.
    pub fn serialize_unit_variant(self, _name: &str, _variant_index: u32, variant: &str) -> (r:
        Result<Value, EncodeError>)
        ensures
            encoded(r) == Ok::<Datum, Refusal>(
                variant_datum(variant@, Datum::Struct(Seq::empty())),
            ),
    {
        Ok(variant_value(String::from_str(variant), empty_struct()))
    }

    /// A newtype struct is carried as its content is.
    pub fn serialize_newtype_struct(self, _name: &str, value: Value) -> (r: Result<
        Value,
        EncodeError,
    >)
        ensures
            encoded(r) == Ok::<Datum, Refusal>(value@),
    {
        Ok(value)
    }

    /// A variant with one content is carried as a struct of one member,
    /// named after the variant, that holds the content.
    pub fn serialize_newtype_variant(
        self,
        _name: &str,
        _variant_index: u32,
        variant: &str,
        value: Value,
    ) -> (r: Result<Value, EncodeError>)
        ensures
            encoded(r) == Ok::<Datum, Refusal>(variant_datum(variant@, value@)),
    {
        Ok(variant_value(String::from_str(variant), value))
    }

    /// Starts a sequence; the length is a hint.
    pub fn serialize_seq(self, _len: Option<usize>) -> (r: Result<SerializeVec, EncodeError>)
        ensures
            r matches Ok(state) && state@ == (SeqState { items: Seq::empty(), variant: None }),
    {
        self.serialize_tuple(0)
    }

    /// Starts a tuple; the length is a hint.
    pub fn serialize_tuple(self, _len: usize) -> (r: Result<SerializeVec, EncodeError>)
        ensures
            r matches Ok(state) && state@ == (SeqState { items: Seq::empty(), variant: None }),
    {
        let state = SerializeVec { vec: Vec::new(), variant: None };
        proof {
            assert(items_view(state.vec@) =~= Seq::empty());
        }
        Ok(state)
    }

    /// Starts a tuple struct; the length is a hint.
    pub fn serialize_tuple_struct(self, _name: &str, len: usize) -> (r: Result<
        SerializeVec,
        EncodeError,
    >)
        ensures
            r matches Ok(state) && state@ == (SeqState { items: Seq::empty(), variant: None }),
    {
        self.serialize_tuple(len)
    }

    /// Starts a variant that holds a tuple; the length is a hint.
    pub fn serialize_tuple_variant(
        self,
        _name: &str,
        _variant_index: u32,
        variant: &str,
        _len: usize,
    ) -> (r: Result<SerializeVec, EncodeError>)
        ensures
            r matches Ok(state) && state@ == (SeqState {
                items: Seq::empty(),
                variant: Some(variant@),
            }),
    {
        let state = SerializeVec { vec: Vec::new(), variant: Some(String::from_str(variant)) };
        proof {
            assert(items_view(state.vec@) =~= Seq::empty());
        }
        Ok(state)
    }

    /// Starts a map; the length is a hint.
    pub fn serialize_map(self, _len: Option<usize>) -> (r: Result<SerializeMap, EncodeError>)
        ensures
            r matches Ok(state) && state@ == (MapState {
                members: Seq::empty(),
                next_key: None,
                variant: None,
            }),
    {
        let state = SerializeMap { map: Vec::new(), next_key: None, variant: None };
        proof {
            assert(members_view(state.map@) =~= Seq::empty());
        }
        Ok(state)
    }

    /// Starts a struct with named fields; the length is a hint.
    pub fn serialize_struct(self, _name: &str, len: usize) -> (r: Result<
        SerializeMap,
        EncodeError,
    >)
        ensures
            r matches Ok(state) && state@ == (MapState {
                members: Seq::empty(),
                next_key: None,
                variant: None,
            }),
    {
        self.serialize_map(Some(len))
    }

    /// Starts a variant that holds named fields; the length is a hint.
    pub fn serialize_struct_variant(
        self,
        _name: &str,
        _variant_index: u32,
        variant: &str,
        _len: usize,
    ) -> (r: Result<SerializeMap, EncodeError>)
        ensures
            r matches Ok(state) && state@ == (MapState {
                members: Seq::empty(),
                next_key: None,
                variant: Some(variant@),
            }),
    {
        let state = SerializeMap {
            map: Vec::new(),
            next_key: None,
            variant: Some(String::from_str(variant)),
        };
        proof {
            assert(members_view(state.map@) =~= Seq::empty());
        }
        Ok(state)
    }
}

/// The mathematical model of a [`SerializeVec`]: the elements so far, and
/// the variant that they belong to, if any.
pub struct SeqState {
    pub items: Seq<Datum>,
    pub variant: Option<Seq<char>>,
}

/// A sequence, tuple, tuple struct or tuple variant under construction.
pub struct SerializeVec {
    vec: Vec<Value>,
    variant: Option<String>,
}

impl View for SerializeVec {
    type V = SeqState;

    closed spec fn view(&self) -> SeqState {
        SeqState {
            items: items_view(self.vec@),
            variant: match self.variant {
                Some(name) => Some(name@),
                None => None,
            },
        }
    }
}

impl SerializeVec {
    /// Adds an encoded element at the end.
    pub fn serialize_element(&mut self, value: Value) -> (r: Result<(), EncodeError>)
        ensures
            r is Ok,
            final(self)@ == (SeqState {
                items: old(self)@.items.push(value@),
                variant: old(self)@.variant,
            }),
    {
        proof {
            assert(items_view(self.vec@.push(value)) =~= items_view(self.vec@).push(value@));
        }
        self.vec.push(value);
        Ok(())
    }

    /// Adds an encoded field of a tuple struct or tuple variant at the end.
    pub fn serialize_field(&mut self, value: Value) -> (r: Result<(), EncodeError>)
        ensures
            r is Ok,
            final(self)@ == (SeqState {
                items: old(self)@.items.push(value@),
                variant: old(self)@.variant,
            }),
    {
        self.serialize_element(value)
    }

    /// The value that carries what was added: the array of the elements,
    /// below the variant's name where there is one.
    pub fn end(self) -> (r: Result<Value, EncodeError>)
        ensures
            encoded(r) == Ok::<Datum, Refusal>(
                tagged_datum(self@.variant, Datum::Array(self@.items)),
            ),
    {
        proof {
            lemma_array_view(self.vec);
        }
        let content = Value::Array(self.vec);
        Ok(
            match self.variant {
                Some(variant) => variant_value(variant, content),
                None => content,
            },
        )
    }
}

/// The mathematical model of a [`SerializeMap`]: the members so far, the
/// key that waits for its value, and the variant that the members belong
/// to, if any.
pub struct MapState {
    pub members: Seq<(Seq<char>, Datum)>,
    pub next_key: Option<Seq<char>>,
    pub variant: Option<Seq<char>>,
}

/// A map, struct or struct variant under construction.
pub struct SerializeMap {
    map: Vec<(String, Value)>,
    next_key: Option<String>,
    variant: Option<String>,
}

impl View for SerializeMap {
    type V = MapState;

    closed spec fn view(&self) -> MapState {
        MapState {
            members: members_view(self.map@),
            next_key: match self.next_key {
                Some(name) => Some(name@),
                None => None,
            },
            variant: match self.variant {
                Some(name) => Some(name@),
                None => None,
            },
        }
    }
}

/// The text of an encoded key.
fn key_string(key: Value) -> (r: Option<String>)
    ensures
        match r {
            Some(text) => key_text(key@) == Some(text@),
            None => key_text(key@) is None,
        },
{
    match key {
        Value::Bool(v) => Some(
            String::from_str(
                if v {
                    "true"
                } else {
                    "false"
                },
            ),
        ),
        Value::Int(v) => Some(format_signed(v as i64)),
        Value::Double(v) => Some(String::from_str(v.as_str())),
        Value::String(v) => Some(v),
        _ => None,
    }
}

impl SerializeMap {
    /// Takes the encoded key of the next entry. A key that is no boolean,
    /// integer, double or string is refused, and nothing changes.
    pub fn serialize_key(&mut self, key: Value) -> (r: Result<(), EncodeError>)
        ensures
            match key_text(key@) {
                Some(text) => r is Ok && final(self)@ == (MapState {
                    next_key: Some(text),
                    ..old(self)@
                }),
                None => r == Err::<(), EncodeError>(EncodeError::UnsupportedKey) && final(self)@
                    == old(self)@,
            },
    {
        match key_string(key) {
            Some(text) => {
                self.next_key = Some(text);
                Ok(())
            },
            None => Err(EncodeError::UnsupportedKey),
        }
    }

    /// Takes the encoded value of the entry whose key was given last.
    pub fn serialize_value(&mut self, value: Value) -> (r: Result<(), EncodeError>)
        requires
            old(self)@.next_key is Some,
        ensures
            r is Ok,
            final(self)@ == (MapState {
                members: old(self)@.members.push((old(self)@.next_key->0, value@)),
                next_key: None,
                variant: old(self)@.variant,
            }),
    {
        let key = self.next_key.take();
        match key {
            Some(name) => {
                proof {
                    assert(members_view(self.map@.push((name, value))) =~= members_view(
                        self.map@,
                    ).push((name@, value@)));
                }
                self.map.push((name, value));
            },
            None => {},
        }
        Ok(())
    }

    /// Adds a named field with its encoded value at the end.
    pub fn serialize_field(&mut self, key: &str, value: Value) -> (r: Result<(), EncodeError>)
        ensures
            r is Ok,
            final(self)@ == (MapState {
                members: old(self)@.members.push((key@, value@)),
                next_key: None,
                variant: old(self)@.variant,
            }),
    {
        let name = String::from_str(key);
        proof {
            assert(members_view(self.map@.push((name, value))) =~= members_view(self.map@).push(
                (key@, value@),
            ));
        }
        self.next_key = None;
        self.map.push((name, value));
        Ok(())
    }

    /// The value that carries what was added: the struct of the members,
    /// below the variant's name where there is one.
    pub fn end(self) -> (r: Result<Value, EncodeError>)
        ensures
            encoded(r) == Ok::<Datum, Refusal>(
                tagged_datum(self@.variant, Datum::Struct(self@.members)),
            ),
    {
        proof {
            lemma_struct_view(self.map);
        }
        let content = Value::Struct(self.map);
        Ok(
            match self.variant {
                Some(variant) => variant_value(variant, content),
                None => content,
            },
        )
    }
}

} // verus!
