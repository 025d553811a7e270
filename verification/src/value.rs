//! The dynamic value model: a closed union of the eight XML-RPC types.

use vstd::prelude::*;
use crate::binary::{bytes_survive_wire, decode_base64, encode_base64};
use crate::datetime::DateTime;
use crate::double::{is_double_literal, Double};
use crate::reader::{first_where, lemma_first_where, lemma_first_where_bound};
use vstd::std_specs::convert::FromSpecImpl;

verus! {

/// The mathematical model of a [`Value`]: text as sequences of characters,
/// collections as sequences. Contracts speak of this type.
pub enum Datum {
    Int(i32),
    Bool(bool),
    Text(Seq<char>),
    Double(Seq<char>),
    DateTime(DateTime),
    Bytes(Seq<u8>),
    Array(Seq<Datum>),
    Struct(Seq<(Seq<char>, Datum)>),
}

/// Whether every leaf survives the wire: doubles are literals of the
/// grammar, instants and bytes read back as they were written.
pub open spec fn datum_valid(datum: Datum) -> bool
    decreases datum,
{
    match datum {
        Datum::Double(text) => is_double_literal(text),
        Datum::DateTime(instant) => instant.valid(),
        Datum::Bytes(bytes) => bytes_survive_wire(bytes),
        Datum::Array(items) => forall|i: int|
            0 <= i < items.len() ==> datum_valid(#[trigger] items[i]),
        Datum::Struct(members) => forall|i: int|
            0 <= i < members.len() ==> datum_valid((#[trigger] members[i]).1),
        _ => true,
    }
}

impl Datum {
    /// Whether every leaf survives the wire.
    pub open spec fn valid(self) -> bool {
        datum_valid(self)
    }
}

/// Any XML-RPC datum.
#[derive(Debug, PartialEq)]
pub enum Value {
    /// Four-byte signed integer: `<i4>` or `<int>`.
    Int(i32),
    /// `<boolean>`, written as `1` or `0`.
    Bool(bool),
    /// `<string>`, or text without a type tag.
    String(String),
    /// `<double>`.
    Double(Double),
    /// `<dateTime.iso8601>`.
    DateTime(DateTime),
    /// `<base64>`.
    Base64(Vec<u8>),
    /// `<array>`: values in order.
    Array(Vec<Value>),
    /// `<struct>`: named members in order; a name may occur more than once.
    Struct(Vec<(String, Value)>),
}

/// The models of a vector of values, in order.
pub open spec fn items_view(items: Seq<Value>) -> Seq<Datum> {
    Seq::new(items.len(), |i: int| items[i]@)
}

/// The models of a vector of named members, in order.
pub open spec fn members_view(members: Seq<(String, Value)>) -> Seq<(Seq<char>, Datum)> {
    Seq::new(members.len(), |i: int| (members[i].0@, members[i].1@))
}

/// The model of a value.
pub open spec fn datum_of(value: Value) -> Datum
    decreases value,
{
    match value {
        Value::Int(v) => Datum::Int(v),
        Value::Bool(v) => Datum::Bool(v),
        Value::String(v) => Datum::Text(v@),
        Value::Double(v) => Datum::Double(v@),
        Value::DateTime(v) => Datum::DateTime(v),
        Value::Base64(v) => Datum::Bytes(v@),
        Value::Array(v) => Datum::Array(
            Seq::new(
                v.len() as nat,
                |i: int|
                    if 0 <= i < v.len() {
                        datum_of(v[i])
                    } else {
                        Datum::Bool(false)
                    },
            ),
        ),
        Value::Struct(v) => Datum::Struct(
            Seq::new(
                v.len() as nat,
                |i: int|
                    if 0 <= i < v.len() {
                        (v[i].0@, datum_of(v[i].1))
                    } else {
                        (Seq::empty(), Datum::Bool(false))
                    },
            ),
        ),
    }
}

impl View for Value {
    type V = Datum;

    open spec fn view(&self) -> Datum {
        datum_of(*self)
    }
}

/// The model of an array is the models of its items.
pub proof fn lemma_array_view(items: Vec<Value>)
    ensures
        Value::Array(items)@ == Datum::Array(items_view(items@)),
{
    assert(Value::Array(items)@->Array_0 =~= items_view(items@));
}

/// The model of a struct is the names and models of its members.
pub proof fn lemma_struct_view(members: Vec<(String, Value)>)
    ensures
        Value::Struct(members)@ == Datum::Struct(members_view(members@)),
{
    assert(Value::Struct(members)@->Struct_0 =~= members_view(members@));
}

/// A copy of a vector of values.
pub fn copy_items(items: &Vec<Value>) -> (r: Vec<Value>)
    ensures
        items_view(r@) == items_view(items@),
    decreases items,
{
    let mut out: Vec<Value> = Vec::new();
    let mut i: usize = 0;
    while i < items.len()
        invariant
            i <= items.len(),
            out.len() == i,
            forall|j: int| 0 <= j < i ==> out[j]@ == items[j]@,
        decreases items.len() - i,
    {
        out.push(items[i].clone());
        i = i + 1;
    }
    assert(items_view(out@) =~= items_view(items@));
    out
}

/// A copy of a vector of named members.
pub fn copy_members(members: &Vec<(String, Value)>) -> (r: Vec<(String, Value)>)
    ensures
        members_view(r@) == members_view(members@),
    decreases members,
{
    let mut out: Vec<(String, Value)> = Vec::new();
    let mut i: usize = 0;
    while i < members.len()
        invariant
            i <= members.len(),
            out.len() == i,
            forall|j: int|
                0 <= j < i ==> out[j].0@ == members[j].0@ && out[j].1@ == members[j].1@,
        decreases members.len() - i,
    {
        out.push((members[i].0.clone(), members[i].1.clone()));
        i = i + 1;
    }
    assert(members_view(out@) =~= members_view(members@));
    out
}

impl Clone for Value {
    fn clone(&self) -> (r: Value)
        ensures
            r@ == self@,
        decreases self,
    {
        match self {
            Value::Int(v) => Value::Int(*v),
            Value::Bool(v) => Value::Bool(*v),
            Value::String(v) => Value::String(v.clone()),
            Value::Double(v) => Value::Double(v.clone()),
            Value::DateTime(v) => Value::DateTime(*v),
            Value::Base64(v) => Value::Base64(v.clone()),
            Value::Array(v) => {
                let items = copy_items(v);
                proof {
                    lemma_array_view(items);
                    lemma_array_view(*v);
                }
                Value::Array(items)
            },
            Value::Struct(v) => {
                let members = copy_members(v);
                proof {
                    lemma_struct_view(members);
                    lemma_struct_view(*v);
                }
                Value::Struct(members)
            },
        }
    }
}

/// The test "is a member of this name".
pub open spec fn named_member(name: Seq<char>) -> spec_fn((Seq<char>, Datum)) -> bool {
    |member: (Seq<char>, Datum)| member.0 == name
}

/// The members of a struct, read as a map: each name once, at the place
/// where it came first, with the value that came last.
pub open spec fn folded(members: Seq<(Seq<char>, Datum)>) -> Seq<(Seq<char>, Datum)>
    decreases members.len(),
{
    if members.len() == 0 {
        Seq::empty()
    } else {
        let front = folded(members.drop_last());
        let k = first_where(front, named_member(members.last().0));
        if k < front.len() {
            front.update(k as int, members.last())
        } else {
            front.push(members.last())
        }
    }
}

/// Whether no name occurs twice.
pub open spec fn distinct_names(members: Seq<(Seq<char>, Datum)>) -> bool {
    forall|i: int, j: int|
        0 <= i < j < members.len() ==> (#[trigger] members[i]).0 != (#[trigger] members[j]).0
}

/// In the members of a struct read as a map, no name occurs twice.
pub proof fn lemma_folded_distinct(members: Seq<(Seq<char>, Datum)>)
    ensures
        distinct_names(folded(members)),
    decreases members.len(),
{
    if members.len() > 0 {
        let front = folded(members.drop_last());
        lemma_folded_distinct(members.drop_last());
        let name = members.last().0;
        let k = first_where(front, named_member(name));
        lemma_first_where_bound(front, named_member(name));
        if k >= front.len() {
            let out = front.push(members.last());
            assert forall|i: int, j: int| 0 <= i < j < out.len() implies (#[trigger] out[i]).0 != (
            #[trigger] out[j]).0 by {
                if j == front.len() {
                    lemma_absent(front, name, i);
                } else {
                    assert(out[i] == front[i] && out[j] == front[j]);
                }
            }
        } else {
            let out = front.update(k as int, members.last());
            assert forall|i: int, j: int| 0 <= i < j < out.len() implies (#[trigger] out[i]).0 != (
            #[trigger] out[j]).0 by {
                assert(out[i].0 == front[i].0);
                assert(out[j].0 == front[j].0);
            }
        }
    }
}

/// Where no member has a name, none of them does.
proof fn lemma_absent(members: Seq<(Seq<char>, Datum)>, name: Seq<char>, i: int)
    requires
        first_where(members, named_member(name)) >= members.len(),
        0 <= i < members.len(),
    ensures
        members[i].0 != name,
    decreases members.len(),
{
    if i > 0 {
        assert(members.drop_first()[i - 1] == members[i]);
        lemma_absent(members.drop_first(), name, i - 1);
    }
}

/// Whether two byte vectors hold the same bytes.
fn same_bytes(left: &Vec<u8>, right: &Vec<u8>) -> (r: bool)
    ensures
        r == (left@ == right@),
{
    if left.len() != right.len() {
        return false;
    }
    let mut i: usize = 0;
    while i < left.len()
        invariant
            i <= left.len(),
            left.len() == right.len(),
            forall|j: int| 0 <= j < i ==> left[j] == right[j],
        decreases left.len() - i,
    {
        if left[i] != right[i] {
            return false;
        }
        i = i + 1;
    }
    proof {
        assert(left@ =~= right@);
    }
    true
}

impl Value {
    /// Whether every leaf of this value survives the wire. Doubles and
    /// instants do by construction; bytes are encoded and decoded to see.
    pub fn survives_wire(&self) -> (r: bool)
        ensures
            r == self@.valid(),
        decreases self,
    {
        match self {
            Value::Int(_) => true,
            Value::Bool(_) => true,
            Value::String(_) => true,
            Value::Double(v) => {
                let _ = v.as_str();
                true
            },
            Value::DateTime(v) => {
                let _ = v.timestamp();
                true
            },
            Value::Base64(v) => {
                let text = encode_base64(v);
                match decode_base64(text.as_str()) {
                    Some(back) => same_bytes(&back, v),
                    None => false,
                }
            },
            Value::Array(items) => {
                proof {
                    lemma_array_view(*items);
                }
                let mut i: usize = 0;
                while i < items.len()
                    invariant
                        i <= items.len(),
                        self == Value::Array(*items),
                        self@ == Datum::Array(items_view(items@)),
                        forall|j: int| 0 <= j < i ==> (#[trigger] items_view(items@)[j]).valid(),
                    decreases items.len() - i,
                {
                    if !items[i].survives_wire() {
                        proof {
                            let all = items_view(items@);
                            assert(all[i as int] == items[i as int]@);
                            assert(self@->Array_0[i as int] == all[i as int]);
                        }
                        return false;
                    }
                    i = i + 1;
                }
                true
            },
            Value::Struct(members) => {
                proof {
                    lemma_struct_view(*members);
                }
                let mut i: usize = 0;
                while i < members.len()
                    invariant
                        i <= members.len(),
                        self == Value::Struct(*members),
                        self@ == Datum::Struct(members_view(members@)),
                        forall|j: int|
                            0 <= j < i ==> (#[trigger] members_view(members@)[j]).1.valid(),
                    decreases members.len() - i,
                {
                    if !members[i].1.survives_wire() {
                        proof {
                            let all = members_view(members@);
                            assert(all[i as int].1 == members[i as int].1@);
                            assert(self@->Struct_0[i as int] == all[i as int]);
                        }
                        return false;
                    }
                    i = i + 1;
                }
                true
            },
        }
    }

    /// The integer, if this is one.
    pub fn into_i32(self) -> (r: Option<i32>)
        ensures
            r == (match self@ {
                Datum::Int(v) => Some(v),
                _ => None,
            }),
    {
        if let Value::Int(value) = self {
            Some(value)
        } else {
            None
        }
    }

    /// The boolean, if this is one.
    pub fn into_bool(self) -> (r: Option<bool>)
        ensures
            r == (match self@ {
                Datum::Bool(v) => Some(v),
                _ => None,
            }),
    {
        if let Value::Bool(value) = self {
            Some(value)
        } else {
            None
        }
    }

    /// The string, if this is one.
    pub fn into_string(self) -> (r: Option<String>)
        ensures
            match r {
                Some(text) => self@ == Datum::Text(text@),
                None => !(self@ is Text),
            },
    {
        if let Value::String(value) = self {
            Some(value)
        } else {
            None
        }
    }

    /// The double, if this is one.
    pub fn into_f64(self) -> (r: Option<Double>)
        ensures
            match r {
                Some(double) => self@ == Datum::Double(double@),
                None => !(self@ is Double),
            },
    {
        if let Value::Double(value) = self {
            Some(value)
        } else {
            None
        }
    }

    /// The date and time, if this is one.
    pub fn into_date_time(self) -> (r: Option<DateTime>)
        ensures
            r == (match self@ {
                Datum::DateTime(v) => Some(v),
                _ => None,
            }),
    {
        if let Value::DateTime(value) = self {
            Some(value)
        } else {
            None
        }
    }

    /// The bytes, if this is a base64 value.
    pub fn into_bytes(self) -> (r: Option<Vec<u8>>)
        ensures
            match r {
                Some(bytes) => self@ == Datum::Bytes(bytes@),
                None => !(self@ is Bytes),
            },
    {
        if let Value::Base64(value) = self {
            Some(value)
        } else {
            None
        }
    }

    /// The items, if this is an array.
    pub fn into_array(self) -> (r: Option<Vec<Value>>)
        ensures
            match r {
                Some(items) => self@ == Datum::Array(items_view(items@)),
                None => !(self@ is Array),
            },
    {
        if let Value::Array(value) = self {
            proof {
                lemma_array_view(value);
            }
            Some(value)
        } else {
            None
        }
    }

    /// The members as they stand, if this is a struct.
    pub fn into_struct_kv_pairs(self) -> (r: Option<Vec<(String, Value)>>)
        ensures
            match r {
                Some(members) => self@ == Datum::Struct(members_view(members@)),
                None => !(self@ is Struct),
            },
    {
        if let Value::Struct(value) = self {
            proof {
                lemma_struct_view(value);
            }
            Some(value)
        } else {
            None
        }
    }

    /// The members read as a map, if this is a struct: each name once,
    /// with the value that came last.
    pub fn into_struct(self) -> (r: Option<Vec<(String, Value)>>)
        ensures
            match r {
                Some(members) => self@ is Struct && members_view(members@) == folded(
                    self@->Struct_0,
                ) && distinct_names(members_view(members@)),
                None => !(self@ is Struct),
            },
    {
        match self.into_struct_kv_pairs() {
            Some(pairs) => {
                let ghost all = members_view(pairs@);
                let mut source = pairs;
                let mut stack: Vec<(String, Value)> = Vec::new();
                while source.len() > 0
                    invariant
                        source.len() + stack.len() == all.len(),
                        members_view(source@) == all.take(source.len() as int),
                        forall|j: int|
                            0 <= j < stack.len() ==> ((#[trigger] stack[j]).0@, stack[j].1@)
                                == all[all.len() - 1 - j],
                    decreases source.len(),
                {
                    let ghost before = source@;
                    match source.pop() {
                        Some(member) => {
                            proof {
                                assert(members_view(before)[source.len() as int] == (
                                    member.0@,
                                    member.1@,
                                ));
                            }
                            stack.push(member);
                        },
                        None => {},
                    }
                    proof {
                        assert(members_view(source@) =~= all.take(source.len() as int));
                    }
                }
                let mut out: Vec<(String, Value)> = Vec::new();
                proof {
                    assert(all.take(0) =~= Seq::empty());
                    assert(members_view(out@) =~= Seq::empty());
                }
                while stack.len() > 0
                    invariant
                        stack.len() <= all.len(),
                        forall|j: int|
                            0 <= j < stack.len() ==> ((#[trigger] stack[j]).0@, stack[j].1@)
                                == all[all.len() - 1 - j],
                        members_view(out@) == folded(all.take(all.len() - stack.len())),
                    decreases stack.len(),
                {
                    let ghost done = all.len() - stack.len();
                    match stack.pop() {
                        Some(member) => {
                            proof {
                                assert((member.0@, member.1@) == all[done]);
                                assert(all.take(done + 1).drop_last() =~= all.take(done));
                            }
                            let k = position_of(&out, member.0.as_str());
                            if k < out.len() {
                                proof {
                                    assert(members_view(out@.update(k as int, member))
                                        =~= members_view(out@).update(
                                        k as int,
                                        (member.0@, member.1@),
                                    ));
                                }
                                out.set(k, member);
                            } else {
                                proof {
                                    assert(members_view(out@.push(member)) =~= members_view(
                                        out@,
                                    ).push((member.0@, member.1@)));
                                }
                                out.push(member);
                            }
                        },
                        None => {},
                    }
                }
                proof {
                    assert(all.take(all.len() as int) =~= all);
                    lemma_folded_distinct(all);
                }
                Some(out)
            },
            None => None,
        }
    }
}

/// Index of the first member of the given name; the number of members
/// where there is none.
fn position_of(members: &Vec<(String, Value)>, name: &str) -> (k: usize)
    ensures
        k == first_where(members_view(members@), named_member(name@)),
        k <= members.len(),
{
    let ghost views = members_view(members@);
    let mut i: usize = 0;
    while i < members.len()
        invariant
            i <= members.len(),
            views == members_view(members@),
            forall|j: int| 0 <= j < i ==> !named_member(name@)(#[trigger] views[j]),
        decreases members.len() - i,
    {
        if crate::text::str_is(members[i].0.as_str(), name) {
            proof {
                lemma_first_where(views, named_member(name@), i as int);
            }
            return i;
        }
        i = i + 1;
    }
    proof {
        lemma_first_where(views, named_member(name@), i as int);
    }
    i
}

impl From<i32> for Value {
    fn from(value: i32) -> (r: Value) {
        Value::Int(value)
    }
}

impl FromSpecImpl<i32> for Value {
    open spec fn obeys_from_spec() -> bool {
        true
    }

    open spec fn from_spec(value: i32) -> Value {
        Value::Int(value)
    }
}

impl From<bool> for Value {
    fn from(value: bool) -> (r: Value) {
        Value::Bool(value)
    }
}

impl FromSpecImpl<bool> for Value {
    open spec fn obeys_from_spec() -> bool {
        true
    }

    open spec fn from_spec(value: bool) -> Value {
        Value::Bool(value)
    }
}

impl From<String> for Value {
    fn from(value: String) -> (r: Value) {
        Value::String(value)
    }
}

impl FromSpecImpl<String> for Value {
    open spec fn obeys_from_spec() -> bool {
        true
    }

    open spec fn from_spec(value: String) -> Value {
        Value::String(value)
    }
}

impl From<Double> for Value {
    fn from(value: Double) -> (r: Value) {
        Value::Double(value)
    }
}

impl FromSpecImpl<Double> for Value {
    open spec fn obeys_from_spec() -> bool {
        true
    }

    open spec fn from_spec(value: Double) -> Value {
        Value::Double(value)
    }
}

impl From<Vec<Value>> for Value {
    fn from(value: Vec<Value>) -> (r: Value) {
        Value::Array(value)
    }
}

impl FromSpecImpl<Vec<Value>> for Value {
    open spec fn obeys_from_spec() -> bool {
        true
    }

    open spec fn from_spec(value: Vec<Value>) -> Value {
        Value::Array(value)
    }
}

impl From<Vec<(String, Value)>> for Value {
    fn from(value: Vec<(String, Value)>) -> (r: Value) {
        Value::Struct(value)
    }
}

impl FromSpecImpl<Vec<(String, Value)>> for Value {
    open spec fn obeys_from_spec() -> bool {
        true
    }

    open spec fn from_spec(value: Vec<(String, Value)>) -> Value {
        Value::Struct(value)
    }
}

} // verus!
