//! The reader: from an element tree to values. The walk is top-down; a
//! node that breaks the grammar fails the whole read.

use vstd::prelude::*;
use crate::binary::{base64_bytes, decode_base64};
use crate::datetime::DateTime;
use crate::decimal::{bounded_value, parse_signed, parse_unsigned};
use crate::double::{is_double_literal, Double};
use crate::error::{DecodeError, Failure, LeafKind};
use crate::markup::{lemma_element_view, nodes_view, Markup, XmlNode};
use crate::text::str_is;
use crate::value::{items_view, lemma_array_view, lemma_struct_view, members_view, Datum, Value};

verus! {

/// The children of an element; other nodes have none.
pub open spec fn children_of(node: Markup) -> Seq<Markup> {
    match node {
        Markup::Element { children, .. } => children,
        _ => Seq::empty(),
    }
}

/// The tag name of an element; other nodes have the empty name.
pub open spec fn name_of(node: Markup) -> Seq<char> {
    match node {
        Markup::Element { name, .. } => name,
        _ => Seq::empty(),
    }
}

pub open spec fn is_element_named(node: Markup, name: Seq<char>) -> bool {
    node is Element && name_of(node) == name
}

/// The test "is an element".
pub open spec fn any_element() -> spec_fn(Markup) -> bool {
    |m: Markup| m is Element
}

/// The test "is a run of text".
pub open spec fn any_text() -> spec_fn(Markup) -> bool {
    |m: Markup| m is Text
}

/// The test "is an element of this name".
pub open spec fn named(name: Seq<char>) -> spec_fn(Markup) -> bool {
    |m: Markup| is_element_named(m, name)
}

/// Index of the first node that passes the test; the length where none does.
pub open spec fn first_where<T>(nodes: Seq<T>, test: spec_fn(T) -> bool) -> nat
    decreases nodes.len(),
{
    if nodes.len() == 0 {
        0
    } else if test(nodes[0]) {
        0
    } else {
        1 + first_where(nodes.drop_first(), test)
    }
}

pub proof fn lemma_first_where<T>(nodes: Seq<T>, test: spec_fn(T) -> bool, k: int)
    requires
        0 <= k <= nodes.len(),
        forall|j: int| 0 <= j < k ==> !test(#[trigger] nodes[j]),
        k < nodes.len() ==> test(nodes[k]),
    ensures
        first_where(nodes, test) == k,
    decreases k,
{
    if k > 0 {
        let rest = nodes.drop_first();
        assert forall|j: int| 0 <= j < k - 1 implies !test(#[trigger] rest[j]) by {
            assert(rest[j] == nodes[j + 1]);
        }
        if k < nodes.len() {
            assert(rest[k - 1] == nodes[k]);
        }
        lemma_first_where(rest, test, k - 1);
    }
}

pub proof fn lemma_first_where_bound<T>(nodes: Seq<T>, test: spec_fn(T) -> bool)
    ensures
        first_where(nodes, test) <= nodes.len(),
        first_where(nodes, test) < nodes.len() ==> test(nodes[first_where(nodes, test) as int]),
    decreases nodes.len(),
{
    if nodes.len() > 0 && !test(nodes[0]) {
        lemma_first_where_bound(nodes.drop_first(), test);
        let k = first_where(nodes.drop_first(), test);
        if k < nodes.drop_first().len() {
            assert(nodes.drop_first()[k as int] == nodes[k as int + 1]);
        }
    }
}

/// The text that an element holds directly: that of its first text child,
/// or nothing.
pub open spec fn literal_text(node: Markup) -> Seq<char> {
    let children = children_of(node);
    let k = first_where(children, any_text());
    if k < children.len() {
        children[k as int]->text
    } else {
        Seq::empty()
    }
}

/// Gathers the outcomes of reading the children of an element, in order:
/// `None` is a child that was passed over. The first failure is the result.
pub open spec fn gather<T>(outcomes: Seq<Option<Result<T, Failure>>>) -> Result<Seq<T>, Failure>
    decreases outcomes.len(),
{
    if outcomes.len() == 0 {
        Ok(Seq::empty())
    } else {
        match gather(outcomes.drop_last()) {
            Err(failure) => Err(failure),
            Ok(items) => match outcomes.last() {
                None => Ok(items),
                Some(Ok(item)) => Ok(items.push(item)),
                Some(Err(failure)) => Err(failure),
            },
        }
    }
}

/// What gathering makes of one more outcome.
pub proof fn lemma_gather_step<T>(outcomes: Seq<Option<Result<T, Failure>>>, k: int)
    requires
        0 <= k < outcomes.len(),
    ensures
        gather(outcomes.take(k + 1)) == match gather(outcomes.take(k)) {
            Err(failure) => Err(failure),
            Ok(items) => match outcomes[k] {
                None => Ok(items),
                Some(Ok(item)) => Ok(items.push(item)),
                Some(Err(failure)) => Err(failure),
            },
        },
{
    assert(outcomes.take(k + 1).drop_last() =~= outcomes.take(k));
}

/// A failure among the first outcomes is the failure of the whole.
pub proof fn lemma_gather_failure<T>(outcomes: Seq<Option<Result<T, Failure>>>, k: int)
    requires
        0 <= k <= outcomes.len(),
        gather(outcomes.take(k)) is Err,
    ensures
        gather(outcomes) == gather(outcomes.take(k)),
    decreases outcomes.len() - k,
{
    if k == outcomes.len() {
        assert(outcomes.take(k) =~= outcomes);
    } else {
        lemma_gather_step(outcomes, k);
        lemma_gather_failure(outcomes, k + 1);
    }
}

/// The value that a `<value>` element holds.
pub open spec fn decode_value(node: Markup) -> Result<Datum, Failure>
    decreases node, 1int,
{
    match node {
        Markup::Element { name, children } => {
            if name == "value"@ {
                let k = first_where(children, any_element());
                if k < children.len() {
                    decode_typed(children[k as int])
                } else {
                    Ok(Datum::Text(literal_text(node)))
                }
            } else {
                Err(Failure::UnexpectedElement { wanted: "value"@, met: name })
            }
        },
        _ => Err(Failure::UnexpectedElement { wanted: "value"@, met: Seq::empty() }),
    }
}

/// The outcomes of reading the `<value>` children among some nodes.
pub open spec fn value_outcomes(nodes: Seq<Markup>) -> Seq<Option<Result<Datum, Failure>>>
    decreases nodes, 3int,
{
    Seq::new(
        nodes.len(),
        |i: int|
            if 0 <= i < nodes.len() && is_element_named(nodes[i], "value"@) {
                Some(decode_value(nodes[i]))
            } else {
                None
            },
    )
}

/// The outcomes of reading the `<member>` children among some nodes.
pub open spec fn member_outcomes(nodes: Seq<Markup>) -> Seq<
    Option<Result<(Seq<char>, Datum), Failure>>,
>
    decreases nodes, 3int,
{
    Seq::new(
        nodes.len(),
        |i: int|
            if 0 <= i < nodes.len() && is_element_named(nodes[i], "member"@) {
                Some(decode_member(nodes[i]))
            } else {
                None
            },
    )
}

/// The name and value that a `<member>` element holds.
pub open spec fn decode_member(node: Markup) -> Result<(Seq<char>, Datum), Failure>
    decreases node, 2int,
{
    let children = children_of(node);
    let n = first_where(children, named("name"@));
    let v = first_where(children, named("value"@));
    if n >= children.len() {
        Err(Failure::MissingElement { name: "name"@ })
    } else if v >= children.len() {
        Err(Failure::MissingElement { name: "value"@ })
    } else if node is Element {
        match decode_value(children[v as int]) {
            Ok(datum) => Ok((literal_text(children[n as int]), datum)),
            Err(failure) => Err(failure),
        }
    } else {
        Err(Failure::MissingElement { name: "value"@ })
    }
}

/// The value that a typed element such as `<i4>` or `<struct>` holds.
pub open spec fn decode_typed(node: Markup) -> Result<Datum, Failure>
    decreases node, 0int,
{
    match node {
        Markup::Element { name, children } => {
            let text = literal_text(node);
            if name == "i4"@ || name == "int"@ {
                match bounded_value(text, i32::MIN as int, i32::MAX as int) {
                    Some(v) => Ok(Datum::Int(v as i32)),
                    None => Err(Failure::InvalidLeaf { kind: LeafKind::Int, text }),
                }
            } else if name == "boolean"@ {
                match bounded_value(text, 0, u8::MAX as int) {
                    Some(v) => Ok(Datum::Bool(v != 0)),
                    None => Err(Failure::InvalidLeaf { kind: LeafKind::Boolean, text }),
                }
            } else if name == "string"@ {
                Ok(Datum::Text(text))
            } else if name == "double"@ {
                if is_double_literal(text) {
                    Ok(Datum::Double(text))
                } else {
                    Err(Failure::InvalidLeaf { kind: LeafKind::Double, text })
                }
            } else if name == "dateTime.iso8601"@ {
                match DateTime::parsed(text) {
                    Some(instant) => Ok(Datum::DateTime(instant)),
                    None => Err(Failure::InvalidLeaf { kind: LeafKind::DateTime, text }),
                }
            } else if name == "base64"@ {
                match base64_bytes(text) {
                    Some(bytes) => Ok(Datum::Bytes(bytes)),
                    None => Err(Failure::InvalidLeaf { kind: LeafKind::Base64, text }),
                }
            } else if name == "array"@ {
                let k = first_where(children, named("data"@));
                if k < children.len() {
                    match children[k as int] {
                        Markup::Element { children: items, .. } => match gather(
                            value_outcomes(items),
                        ) {
                            Ok(items) => Ok(Datum::Array(items)),
                            Err(failure) => Err(failure),
                        },
                        _ => Err(Failure::MissingElement { name: "data"@ }),
                    }
                } else {
                    Err(Failure::MissingElement { name: "data"@ })
                }
            } else if name == "struct"@ {
                match gather(member_outcomes(children)) {
                    Ok(members) => Ok(Datum::Struct(members)),
                    Err(failure) => Err(failure),
                }
            } else {
                Err(Failure::UnsupportedTag { name })
            }
        },
        _ => Err(Failure::UnsupportedTag { name: Seq::empty() }),
    }
}

/// The model of what a read gave: the value's, or the failure's.
pub open spec fn value_outcome(r: Result<Value, DecodeError>) -> Result<Datum, Failure> {
    match r {
        Ok(value) => Ok(value@),
        Err(error) => Err(error@),
    }
}

/// The model of what reading several values gave.
pub open spec fn values_outcome(r: Result<Vec<Value>, DecodeError>) -> Result<
    Seq<Datum>,
    Failure,
> {
    match r {
        Ok(values) => Ok(items_view(values@)),
        Err(error) => Err(error@),
    }
}

/// Index of the first child that is an element of the given name; the
/// number of children where there is none.
pub fn find_named(children: &Vec<XmlNode>, name: &str) -> (k: usize)
    ensures
        k == first_where(nodes_view(children@), named(name@)),
        k <= children.len(),
        k < children.len() ==> is_element_named(children[k as int]@, name@),
{
    let ghost views = nodes_view(children@);
    let mut i: usize = 0;
    while i < children.len()
        invariant
            i <= children.len(),
            views == nodes_view(children@),
            forall|j: int| 0 <= j < i ==> !named(name@)(#[trigger] views[j]),
        decreases children.len() - i,
    {
        let hit = match &children[i] {
            XmlNode::Element { name: tag, .. } => str_is(tag.as_str(), name),
            _ => false,
        };
        assert(hit == named(name@)(views[i as int]));
        if hit {
            proof {
                lemma_first_where(views, named(name@), i as int);
            }
            return i;
        }
        i = i + 1;
    }
    proof {
        lemma_first_where(views, named(name@), i as int);
    }
    i
}

/// Index of the first child that is an element; the number of children
/// where there is none.
pub fn find_element(children: &Vec<XmlNode>) -> (k: usize)
    ensures
        k == first_where(nodes_view(children@), any_element()),
        k <= children.len(),
        k < children.len() ==> children[k as int]@ is Element,
{
    let ghost views = nodes_view(children@);
    let mut i: usize = 0;
    while i < children.len()
        invariant
            i <= children.len(),
            views == nodes_view(children@),
            forall|j: int| 0 <= j < i ==> !any_element()(#[trigger] views[j]),
        decreases children.len() - i,
    {
        let hit = match &children[i] {
            XmlNode::Element { .. } => true,
            _ => false,
        };
        assert(hit == any_element()(views[i as int]));
        if hit {
            proof {
                lemma_first_where(views, any_element(), i as int);
            }
            return i;
        }
        i = i + 1;
    }
    proof {
        lemma_first_where(views, any_element(), i as int);
    }
    i
}

/// Index of the first child that is a run of text; the number of children
/// where there is none.
pub fn find_text(children: &Vec<XmlNode>) -> (k: usize)
    ensures
        k == first_where(nodes_view(children@), any_text()),
        k <= children.len(),
        k < children.len() ==> children[k as int]@ is Text,
{
    let ghost views = nodes_view(children@);
    let mut i: usize = 0;
    while i < children.len()
        invariant
            i <= children.len(),
            views == nodes_view(children@),
            forall|j: int| 0 <= j < i ==> !any_text()(#[trigger] views[j]),
        decreases children.len() - i,
    {
        let hit = match &children[i] {
            XmlNode::Text { .. } => true,
            _ => false,
        };
        assert(hit == any_text()(views[i as int]));
        if hit {
            proof {
                lemma_first_where(views, any_text(), i as int);
            }
            return i;
        }
        i = i + 1;
    }
    proof {
        lemma_first_where(views, any_text(), i as int);
    }
    i
}

/// The text that a node holds directly: that of its first text child, or
/// the empty text.
pub fn literal_text_in_node<'a>(node: &'a XmlNode) -> (r: &'a str)
    ensures
        r@ == literal_text(node@),
{
    proof {
        reveal_strlit("");
    }
    match node {
        XmlNode::Element { name, children } => {
            proof {
                lemma_element_view(*name, *children);
            }
            let k = find_text(children);
            if k < children.len() {
                match &children[k] {
                    XmlNode::Text { text } => text.as_str(),
                    _ => "",
                }
            } else {
                ""
            }
        },
        _ => "",
    }
}

/// Reads the `<value>` elements among some nodes, in order, and passes over
/// the other nodes.
pub fn read_values(nodes: &Vec<XmlNode>) -> (r: Result<Vec<Value>, DecodeError>)
    ensures
        values_outcome(r) == gather(value_outcomes(nodes_view(nodes@))),
    decreases nodes, 3int,
{
    let ghost outcomes = value_outcomes(nodes_view(nodes@));
    let mut out: Vec<Value> = Vec::new();
    let mut i: usize = 0;
    proof {
        assert(outcomes.take(0) =~= Seq::empty());
        assert(items_view(out@) =~= Seq::empty());
    }
    while i < nodes.len()
        invariant
            i <= nodes.len(),
            outcomes == value_outcomes(nodes_view(nodes@)),
            gather(outcomes.take(i as int)) == Ok::<Seq<Datum>, Failure>(items_view(out@)),
        decreases nodes.len() - i,
    {
        let is_value = match &nodes[i] {
            XmlNode::Element { name, .. } => str_is(name.as_str(), "value"),
            _ => false,
        };
        proof {
            lemma_gather_step(outcomes, i as int);
        }
        if is_value {
            match Value::read_xml(&nodes[i]) {
                Ok(value) => {
                    proof {
                        assert(items_view(out@.push(value)) =~= items_view(out@).push(value@));
                    }
                    out.push(value);
                },
                Err(error) => {
                    proof {
                        lemma_gather_failure(outcomes, i as int + 1);
                    }
                    return Err(error);
                },
            }
        }
        i = i + 1;
    }
    proof {
        assert(outcomes.take(i as int) =~= outcomes);
    }
    Ok(out)
}

/// The model of what reading a member gave.
pub open spec fn member_outcome(r: Result<(String, Value), DecodeError>) -> Result<
    (Seq<char>, Datum),
    Failure,
> {
    match r {
        Ok(member) => Ok((member.0@, member.1@)),
        Err(error) => Err(error@),
    }
}

/// The model of what reading several members gave.
pub open spec fn members_outcome(r: Result<Vec<(String, Value)>, DecodeError>) -> Result<
    Seq<(Seq<char>, Datum)>,
    Failure,
> {
    match r {
        Ok(members) => Ok(members_view(members@)),
        Err(error) => Err(error@),
    }
}

/// Reads a `<member>` element: the text of its `<name>` and the value of
/// its `<value>`.
pub fn read_member(node: &XmlNode) -> (r: Result<(String, Value), DecodeError>)
    ensures
        member_outcome(r) == decode_member(node@),
    decreases node, 2int,
{
    match node {
        XmlNode::Element { name, children } => {
            proof {
                lemma_element_view(*name, *children);
            }
            let n = find_named(children, "name");
            let v = find_named(children, "value");
            if n >= children.len() {
                Err(DecodeError::MissingElement { name: String::from_str("name") })
            } else if v >= children.len() {
                Err(DecodeError::MissingElement { name: String::from_str("value") })
            } else {
                match Value::read_xml(&children[v]) {
                    Ok(value) => Ok((String::from_str(literal_text_in_node(&children[n])), value)),
                    Err(error) => Err(error),
                }
            }
        },
        _ => Err(DecodeError::MissingElement { name: String::from_str("name") }),
    }
}

/// Reads the `<member>` elements among some nodes, in order, and passes
/// over the other nodes.
pub fn read_members(nodes: &Vec<XmlNode>) -> (r: Result<Vec<(String, Value)>, DecodeError>)
    ensures
        members_outcome(r) == gather(member_outcomes(nodes_view(nodes@))),
    decreases nodes, 3int,
{
    let ghost outcomes = member_outcomes(nodes_view(nodes@));
    let mut out: Vec<(String, Value)> = Vec::new();
    let mut i: usize = 0;
    proof {
        assert(outcomes.take(0) =~= Seq::empty());
        assert(members_view(out@) =~= Seq::empty());
    }
    while i < nodes.len()
        invariant
            i <= nodes.len(),
            outcomes == member_outcomes(nodes_view(nodes@)),
            gather(outcomes.take(i as int)) == Ok::<Seq<(Seq<char>, Datum)>, Failure>(
                members_view(out@),
            ),
        decreases nodes.len() - i,
    {
        let is_member = match &nodes[i] {
            XmlNode::Element { name, .. } => str_is(name.as_str(), "member"),
            _ => false,
        };
        proof {
            lemma_gather_step(outcomes, i as int);
        }
        if is_member {
            match read_member(&nodes[i]) {
                Ok(member) => {
                    proof {
                        assert(members_view(out@.push(member)) =~= members_view(out@).push(
                            (member.0@, member.1@),
                        ));
                    }
                    out.push(member);
                },
                Err(error) => {
                    proof {
                        lemma_gather_failure(outcomes, i as int + 1);
                    }
                    return Err(error);
                },
            }
        }
        i = i + 1;
    }
    proof {
        assert(outcomes.take(i as int) =~= outcomes);
    }
    Ok(out)
}

/// Reads a typed element such as `<i4>` or `<struct>`.
pub fn read_typed(node: &XmlNode) -> (r: Result<Value, DecodeError>)
    ensures
        value_outcome(r) == decode_typed(node@),
    decreases node, 0int,
{
    match node {
        XmlNode::Element { name, children } => {
            proof {
                lemma_element_view(*name, *children);
            }
            let tag = name.as_str();
            let text = literal_text_in_node(node);
            if str_is(tag, "i4") || str_is(tag, "int") {
                match parse_signed(text, i32::MIN as i64, i32::MAX as i64) {
                    Some(v) => Ok(Value::Int(v as i32)),
                    None => Err(
                        DecodeError::InvalidLeaf {
                            kind: LeafKind::Int,
                            text: String::from_str(text),
                        },
                    ),
                }
            } else if str_is(tag, "boolean") {
                match parse_unsigned(text, u8::MAX as u64) {
                    Some(v) => Ok(Value::Bool(v != 0)),
                    None => Err(
                        DecodeError::InvalidLeaf {
                            kind: LeafKind::Boolean,
                            text: String::from_str(text),
                        },
                    ),
                }
            } else if str_is(tag, "string") {
                Ok(Value::String(String::from_str(text)))
            } else if str_is(tag, "double") {
                match Double::parse(text) {
                    Some(v) => Ok(Value::Double(v)),
                    None => Err(
                        DecodeError::InvalidLeaf {
                            kind: LeafKind::Double,
                            text: String::from_str(text),
                        },
                    ),
                }
            } else if str_is(tag, "dateTime.iso8601") {
                match DateTime::parse_from_rfc3339(text) {
                    Some(v) => Ok(Value::DateTime(v)),
                    None => Err(
                        DecodeError::InvalidLeaf {
                            kind: LeafKind::DateTime,
                            text: String::from_str(text),
                        },
                    ),
                }
            } else if str_is(tag, "base64") {
                match decode_base64(text) {
                    Some(v) => Ok(Value::Base64(v)),
                    None => Err(
                        DecodeError::InvalidLeaf {
                            kind: LeafKind::Base64,
                            text: String::from_str(text),
                        },
                    ),
                }
            } else if str_is(tag, "array") {
                let k = find_named(children, "data");
                if k < children.len() {
                    match &children[k] {
                        XmlNode::Element { name: data_name, children: items } => {
                            proof {
                                lemma_element_view(*data_name, *items);
                            }
                            match read_values(items) {
                                Ok(values) => {
                                    proof {
                                        lemma_array_view(values);
                                    }
                                    Ok(Value::Array(values))
                                },
                                Err(error) => Err(error),
                            }
                        },
                        _ => Err(DecodeError::MissingElement { name: String::from_str("data") }),
                    }
                } else {
                    Err(DecodeError::MissingElement { name: String::from_str("data") })
                }
            } else if str_is(tag, "struct") {
                match read_members(children) {
                    Ok(members) => {
                        proof {
                            lemma_struct_view(members);
                        }
                        Ok(Value::Struct(members))
                    },
                    Err(error) => Err(error),
                }
            } else {
                Err(DecodeError::UnsupportedTag { name: name.clone() })
            }
        },
        _ => Err(DecodeError::UnsupportedTag { name: String::new() }),
    }
}

impl Value {
    /// Reads a `<value>` element: the typed element below it, or, where it
    /// has none, its text as a string.
    pub fn read_xml(node: &XmlNode) -> (r: Result<Value, DecodeError>)
        ensures
            value_outcome(r) == decode_value(node@),
        decreases node, 1int,
    {
        match node {
            XmlNode::Element { name, children } => {
                proof {
                    lemma_element_view(*name, *children);
                }
                if str_is(name.as_str(), "value") {
                    let k = find_element(children);
                    if k < children.len() {
                        read_typed(&children[k])
                    } else {
                        Ok(Value::String(String::from_str(literal_text_in_node(node))))
                    }
                } else {
                    Err(
                        DecodeError::UnexpectedElement {
                            wanted: String::from_str("value"),
                            met: name.clone(),
                        },
                    )
                }
            },
            _ => Err(
                DecodeError::UnexpectedElement {
                    wanted: String::from_str("value"),
                    met: String::new(),
                },
            ),
        }
    }
}

} // verus!
