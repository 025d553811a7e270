//! The protocol envelope: a call with its method name and parameters, and
//! a response that is either the parameters of a success or a fault.

use vstd::prelude::*;
use crate::error::{DecodeError, Failure};
use crate::markup::{
    lemma_element_view, nodes_view, parse_document, parsed_document, Markup, XmlNode,
};
use crate::reader::{
    children_of, decode_value, find_named, first_where, gather, is_element_named,
    lemma_gather_failure, lemma_gather_step, literal_text, literal_text_in_node, named,
    value_outcome, values_outcome,
};
use crate::text::str_is;
use crate::value::{items_view, lemma_struct_view, members_view, Datum, Value};
use crate::writer::{
    into_text, leaf, lemma_render_all_one, lemma_render_all_push, lemma_render_all_two,
    new_writer, plain, render, render_all, value_markup, write_declaration, write_end, write_leaf,
    write_start, written,
};
use vstd::utf8::encode_utf8;
use vstd::string::StringSliceAdditionalSpecFns;

verus! {

/// The parameters of a call, or the values that a successful call returns.
pub type Params = Vec<Value>;

/// The protocol's error payload: a numeric code and a message.
#[derive(Debug, PartialEq)]
pub struct Fault {
    pub code: i32,
    pub message: String,
}

/// The mathematical model of a [`Fault`].
pub struct FaultModel {
    pub code: i32,
    pub message: Seq<char>,
}

impl View for Fault {
    type V = FaultModel;

    open spec fn view(&self) -> FaultModel {
        FaultModel { code: self.code, message: self.message@ }
    }
}

impl Clone for Fault {
    fn clone(&self) -> (r: Fault)
        ensures
            r@ == self@,
    {
        Fault { code: self.code, message: self.message.clone() }
    }
}

impl Fault {
    /// The fault with this code and message.
    pub fn new(code: i32, message: String) -> (fault: Fault)
        ensures
            fault@ == (FaultModel { code, message: message@ }),
    {
        Fault { code, message }
    }
}

/// A call: the name of the method and its parameters, in order.
#[derive(Debug, PartialEq)]
pub struct Request {
    pub name: String,
    pub params: Vec<Value>,
}

/// A call, under the name that the wire format gives it.
pub type Call = Request;

/// The mathematical model of a [`Request`].
pub struct CallModel {
    pub name: Seq<char>,
    pub params: Seq<Datum>,
}

impl View for Request {
    type V = CallModel;

    open spec fn view(&self) -> CallModel {
        CallModel { name: self.name@, params: items_view(self.params@) }
    }
}

impl Request {
    /// The call of the method `name` with the parameters `params`.
    pub fn new(name: String, params: Vec<Value>) -> (call: Request)
        ensures
            call@ == (CallModel { name: name@, params: items_view(params@) }),
    {
        Request { name, params }
    }
}

/// The outcome of a call: the values it returned, or the fault it raised.
#[derive(Debug, PartialEq)]
pub enum Response {
    Success(Vec<Value>),
    Failure(Fault),
}

/// The mathematical model of a [`Response`].
pub enum ReplyModel {
    Success(Seq<Datum>),
    Failure(FaultModel),
}

impl View for Response {
    type V = ReplyModel;

    open spec fn view(&self) -> ReplyModel {
        match self {
            Response::Success(params) => ReplyModel::Success(items_view(params@)),
            Response::Failure(fault) => ReplyModel::Failure(fault@),
        }
    }
}

impl Response {
    /// The response of a call that returned `params`.
    pub fn success(params: Vec<Value>) -> (response: Response)
        ensures
            response@ == ReplyModel::Success(items_view(params@)),
    {
        Response::Success(params)
    }

    /// The response of a call that raised the fault `code` with `message`.
    pub fn failure(code: i32, message: String) -> (response: Response)
        ensures
            response@ == ReplyModel::Failure(FaultModel { code, message: message@ }),
    {
        Response::Failure(Fault { code, message })
    }
}

/// The value that a `<param>` element holds: that of its `<value>`.
pub open spec fn decode_param(node: Markup) -> Result<Datum, Failure> {
    let children = children_of(node);
    let v = first_where(children, named("value"@));
    if v < children.len() {
        decode_value(children[v as int])
    } else {
        Err(Failure::MissingElement { name: "value"@ })
    }
}

/// The outcomes of reading the `<param>` children among some nodes.
pub open spec fn param_outcomes(nodes: Seq<Markup>) -> Seq<Option<Result<Datum, Failure>>> {
    Seq::new(
        nodes.len(),
        |i: int|
            if is_element_named(nodes[i], "param"@) {
                Some(decode_param(nodes[i]))
            } else {
                None
            },
    )
}

/// The parameters below a `<methodCall>` or `<methodResponse>` element:
/// those of its `<params>` child, in order; none where it has no such child.
pub open spec fn decode_params(node: Markup) -> Result<Seq<Datum>, Failure> {
    let children = children_of(node);
    let p = first_where(children, named("params"@));
    if p < children.len() {
        gather(param_outcomes(children_of(children[p as int])))
    } else {
        Ok(Seq::empty())
    }
}

/// The call that a document holds.
pub open spec fn decode_call(document: Seq<Markup>) -> Result<CallModel, Failure> {
    let r = first_where(document, named("methodCall"@));
    if r >= document.len() {
        Err(Failure::MissingElement { name: "methodCall"@ })
    } else {
        let children = children_of(document[r as int]);
        let n = first_where(children, named("methodName"@));
        if n >= children.len() {
            Err(Failure::MissingElement { name: "methodName"@ })
        } else {
            match decode_params(document[r as int]) {
                Ok(params) => Ok(CallModel { name: literal_text(children[n as int]), params }),
                Err(failure) => Err(failure),
            }
        }
    }
}

/// The fault that a value stands for: a struct of exactly the two members
/// `faultCode`, an integer, and `faultString`, a string, in either order.
pub open spec fn fault_of(datum: Datum) -> Option<FaultModel> {
    match datum {
        Datum::Struct(members) => {
            if members.len() != 2 {
                None
            } else if members[0].0 == "faultCode"@ && members[1].0 == "faultString"@ {
                match (members[0].1, members[1].1) {
                    (Datum::Int(code), Datum::Text(message)) => Some(FaultModel { code, message }),
                    _ => None,
                }
            } else if members[0].0 == "faultString"@ && members[1].0 == "faultCode"@ {
                match (members[1].1, members[0].1) {
                    (Datum::Int(code), Datum::Text(message)) => Some(FaultModel { code, message }),
                    _ => None,
                }
            } else {
                None
            }
        },
        _ => None,
    }
}

/// The fault that a `<fault>` element holds.
pub open spec fn decode_fault(node: Markup) -> Result<FaultModel, Failure> {
    let children = children_of(node);
    let v = first_where(children, named("value"@));
    if v < children.len() {
        match decode_value(children[v as int]) {
            Ok(datum) => match fault_of(datum) {
                Some(fault) => Ok(fault),
                None => Err(Failure::MalformedFault),
            },
            Err(_) => Err(Failure::MalformedFault),
        }
    } else {
        Err(Failure::MalformedFault)
    }
}

/// The response that a document holds.
pub open spec fn decode_response(document: Seq<Markup>) -> Result<ReplyModel, Failure> {
    let r = first_where(document, named("methodResponse"@));
    if r >= document.len() {
        Err(Failure::MissingElement { name: "methodResponse"@ })
    } else {
        let children = children_of(document[r as int]);
        let f = first_where(children, named("fault"@));
        if f < children.len() {
            match decode_fault(children[f as int]) {
                Ok(fault) => Ok(ReplyModel::Failure(fault)),
                Err(failure) => Err(failure),
            }
        } else {
            match decode_params(document[r as int]) {
                Ok(params) => Ok(ReplyModel::Success(params)),
                Err(failure) => Err(failure),
            }
        }
    }
}

/// The call that a text holds: that of the document it parses to.
pub open spec fn decode_call_text(text: Seq<char>) -> Result<CallModel, Failure> {
    match parsed_document(text) {
        Some(document) => decode_call(document),
        None => Err(Failure::Syntax),
    }
}

/// The response that a text holds: that of the document it parses to.
pub open spec fn decode_response_text(text: Seq<char>) -> Result<ReplyModel, Failure> {
    match parsed_document(text) {
        Some(document) => decode_response(document),
        None => Err(Failure::Syntax),
    }
}

/// The model of what reading a call gave.
pub open spec fn call_outcome(r: Result<Request, DecodeError>) -> Result<CallModel, Failure> {
    match r {
        Ok(call) => Ok(call@),
        Err(error) => Err(error@),
    }
}

/// The model of what reading a response gave.
pub open spec fn response_outcome(r: Result<Response, DecodeError>) -> Result<
    ReplyModel,
    Failure,
> {
    match r {
        Ok(response) => Ok(response@),
        Err(error) => Err(error@),
    }
}

/// Reads a `<param>` element.
fn read_param(node: &XmlNode) -> (r: Result<Value, DecodeError>)
    ensures
        value_outcome(r) == decode_param(node@),
{
    match node {
        XmlNode::Element { name, children } => {
            proof {
                lemma_element_view(*name, *children);
            }
            let v = find_named(children, "value");
            if v < children.len() {
                Value::read_xml(&children[v])
            } else {
                Err(DecodeError::MissingElement { name: String::from_str("value") })
            }
        },
        _ => Err(DecodeError::MissingElement { name: String::from_str("value") }),
    }
}

/// Reads the `<param>` elements among some nodes, in order.
fn read_param_list(nodes: &Vec<XmlNode>) -> (r: Result<Vec<Value>, DecodeError>)
    ensures
        values_outcome(r) == gather(param_outcomes(nodes_view(nodes@))),
{
    let ghost outcomes = param_outcomes(nodes_view(nodes@));
    let mut out: Vec<Value> = Vec::new();
    let mut i: usize = 0;
    proof {
        assert(outcomes.take(0) =~= Seq::empty());
        assert(items_view(out@) =~= Seq::empty());
    }
    while i < nodes.len()
        invariant
            i <= nodes.len(),
            outcomes == param_outcomes(nodes_view(nodes@)),
            gather(outcomes.take(i as int)) == Ok::<Seq<Datum>, Failure>(items_view(out@)),
        decreases nodes.len() - i,
    {
        let is_param = match &nodes[i] {
            XmlNode::Element { name, .. } => str_is(name.as_str(), "param"),
            _ => false,
        };
        proof {
            lemma_gather_step(outcomes, i as int);
        }
        if is_param {
            match read_param(&nodes[i]) {
                Ok(value) => {
                    proof {
                        assert(items_view(out@.push(value)) =~= items_view(out@).push(value@));
                    }
                    out.push(value);
                },
                Err(error) => {
                    proof {
                        lemma_gather_failure(outcomes, i as int + 1);
                    }
                    return Err(error);
                },
            }
        }
        i = i + 1;
    }
    proof {
        assert(outcomes.take(i as int) =~= outcomes);
    }
    Ok(out)
}

/// Reads the parameters below a `<methodCall>` or `<methodResponse>`
/// element. An element without `<params>` has no parameters.
pub fn read_params(node: &XmlNode) -> (r: Result<Vec<Value>, DecodeError>)
    ensures
        values_outcome(r) == decode_params(node@),
{
    match node {
        XmlNode::Element { name, children } => {
            proof {
                lemma_element_view(*name, *children);
            }
            let p = find_named(children, "params");
            if p < children.len() {
                match &children[p] {
                    XmlNode::Element { name: params_name, children: params } => {
                        proof {
                            lemma_element_view(*params_name, *params);
                        }
                        read_param_list(params)
                    },
                    _ => Ok(Vec::new()),
                }
            } else {
                let none: Vec<Value> = Vec::new();
                proof {
                    assert(items_view(none@) =~= Seq::empty());
                }
                Ok(none)
            }
        },
        _ => {
            let none: Vec<Value> = Vec::new();
            proof {
                assert(items_view(none@) =~= Seq::empty());
            }
            Ok(none)
        },
    }
}

/// The fault that a value stands for, if it has the shape of one.
pub fn fault_from_value(value: &Value) -> (r: Option<Fault>)
    ensures
        match r {
            Some(fault) => fault_of(value@) == Some(fault@),
            None => fault_of(value@) is None,
        },
{
    match value {
        Value::Struct(members) => {
            proof {
                lemma_struct_view(*members);
            }
            if members.len() != 2 {
                return None;
            }
            let first = &members[0];
            let second = &members[1];
            let (code, message) = if str_is(first.0.as_str(), "faultCode") && str_is(
                second.0.as_str(),
                "faultString",
            ) {
                (&first.1, &second.1)
            } else if str_is(first.0.as_str(), "faultString") && str_is(
                second.0.as_str(),
                "faultCode",
            ) {
                (&second.1, &first.1)
            } else {
                return None;
            };
            match (code, message) {
                (Value::Int(code), Value::String(message)) => Some(
                    Fault { code: *code, message: message.clone() },
                ),
                _ => None,
            }
        },
        _ => None,
    }
}

/// Reads a `<fault>` element.
fn read_fault(node: &XmlNode) -> (r: Result<Fault, DecodeError>)
    ensures
        match r {
            Ok(fault) => decode_fault(node@) == Ok::<FaultModel, Failure>(fault@),
            Err(error) => decode_fault(node@) == Err::<FaultModel, Failure>(error@),
        },
{
    match node {
        XmlNode::Element { name, children } => {
            proof {
                lemma_element_view(*name, *children);
            }
            let v = find_named(children, "value");
            if v < children.len() {
                match Value::read_xml(&children[v]) {
                    Ok(value) => match fault_from_value(&value) {
                        Some(fault) => Ok(fault),
                        None => Err(DecodeError::MalformedFault),
                    },
                    Err(_) => Err(DecodeError::MalformedFault),
                }
            } else {
                Err(DecodeError::MalformedFault)
            }
        },
        _ => Err(DecodeError::MalformedFault),
    }
}

impl Request {
    /// Reads the call that a parsed document holds: its `<methodCall>`
    /// element with a `<methodName>` and, optionally, `<params>`.
    pub fn from_document(document: &Vec<XmlNode>) -> (r: Result<Request, DecodeError>)
        ensures
            call_outcome(r) == decode_call(nodes_view(document@)),
    {
        let root = find_named(document, "methodCall");
        if root >= document.len() {
            return Err(DecodeError::MissingElement { name: String::from_str("methodCall") });
        }
        match &document[root] {
            XmlNode::Element { name, children } => {
                proof {
                    lemma_element_view(*name, *children);
                }
                let n = find_named(children, "methodName");
                if n >= children.len() {
                    return Err(
                        DecodeError::MissingElement { name: String::from_str("methodName") },
                    );
                }
                match read_params(&document[root]) {
                    Ok(params) => Ok(
                        Request {
                            name: String::from_str(literal_text_in_node(&children[n])),
                            params,
                        },
                    ),
                    Err(error) => Err(error),
                }
            },
            _ => Err(DecodeError::MissingElement { name: String::from_str("methodCall") }),
        }
    }

    /// Reads a call from XML text.
    pub fn read_xml(data: &str) -> (r: Result<Request, DecodeError>)
        ensures
            call_outcome(r) == decode_call_text(data@),
    {
        match parse_document(data) {
            Ok(document) => Request::from_document(&document),
            Err(message) => Err(DecodeError::Syntax { message }),
        }
    }
}

impl Response {
    /// Reads the response that a parsed document holds: its
    /// `<methodResponse>` element with either a `<fault>` or `<params>`.
    pub fn from_document(document: &Vec<XmlNode>) -> (r: Result<Response, DecodeError>)
        ensures
            response_outcome(r) == decode_response(nodes_view(document@)),
    {
        let root = find_named(document, "methodResponse");
        if root >= document.len() {
            return Err(DecodeError::MissingElement { name: String::from_str("methodResponse") });
        }
        match &document[root] {
            XmlNode::Element { name, children } => {
                proof {
                    lemma_element_view(*name, *children);
                }
                let f = find_named(children, "fault");
                if f < children.len() {
                    match read_fault(&children[f]) {
                        Ok(fault) => Ok(Response::Failure(fault)),
                        Err(error) => Err(error),
                    }
                } else {
                    match read_params(&document[root]) {
                        Ok(params) => Ok(Response::Success(params)),
                        Err(error) => Err(error),
                    }
                }
            },
            _ => Err(DecodeError::MissingElement { name: String::from_str("methodResponse") }),
        }
    }

    /// Reads a response from XML text.
    pub fn read_xml(data: &str) -> (r: Result<Response, DecodeError>)
        ensures
            response_outcome(r) == decode_response_text(data@),
    {
        match parse_document(data) {
            Ok(document) => Response::from_document(&document),
            Err(message) => Err(DecodeError::Syntax { message }),
        }
    }
}

/// The `<param>` element of a parameter.
pub open spec fn param_markup(datum: Datum) -> Markup {
    Markup::Element { name: "param"@, children: seq![value_markup(datum)] }
}

/// The `<params>` element of some parameters.
pub open spec fn params_markup(params: Seq<Datum>) -> Markup {
    Markup::Element {
        name: "params"@,
        children: Seq::new(params.len(), |i: int| param_markup(params[i])),
    }
}

/// The `<methodCall>` element of a call.
pub open spec fn call_markup(call: CallModel) -> Markup {
    Markup::Element {
        name: "methodCall"@,
        children: seq![leaf("methodName"@, call.name), params_markup(call.params)],
    }
}

/// The struct that carries a fault on the wire.
pub open spec fn fault_datum(fault: FaultModel) -> Datum {
    Datum::Struct(
        seq![
            ("faultCode"@, Datum::Int(fault.code)),
            ("faultString"@, Datum::Text(fault.message)),
        ],
    )
}

/// The `<methodResponse>` element of a response.
pub open spec fn response_markup(reply: ReplyModel) -> Markup {
    Markup::Element {
        name: "methodResponse"@,
        children: match reply {
            ReplyModel::Success(params) => seq![params_markup(params)],
            ReplyModel::Failure(fault) => seq![
                Markup::Element { name: "fault"@, children: seq![value_markup(fault_datum(fault))] },
            ],
        },
    }
}

/// The XML declaration that starts every document.
pub open spec fn declaration() -> Seq<char> {
    "<?xml version=\"1.0\"?>"@
}

/// The document of a call.
pub open spec fn call_text(call: CallModel) -> Seq<char> {
    declaration() + render(call_markup(call))
}

/// The document of a response.
pub open spec fn response_text(reply: ReplyModel) -> Seq<char> {
    declaration() + render(response_markup(reply))
}

/// Writes the `<params>` element of some parameters.
fn write_params(params: &Vec<Value>, writer: &mut quick_xml::Writer<Vec<u8>>)
    requires
        plain(*old(writer)),
    ensures
        plain(*final(writer)),
        written(*final(writer)) == written(*old(writer)) + render(
            params_markup(items_view(params@)),
        ),
{
    let ghost before = written(*writer);
    let ghost nodes = params_markup(items_view(params@))->children;
    write_start(writer, "params");
    let ghost start = written(*writer);
    let mut i: usize = 0;
    while i < params.len()
        invariant
            i <= params.len(),
            plain(*writer),
            nodes == params_markup(items_view(params@))->children,
            written(*writer) == start + render_all(nodes.take(i as int)),
        decreases params.len() - i,
    {
        let ghost at_param = written(*writer);
        write_start(writer, "param");
        params[i].write_xml(writer);
        write_end(writer, "param");
        proof {
            assert(nodes[i as int] == param_markup(params[i as int]@));
            lemma_render_all_one(value_markup(params[i as int]@));
            assert(written(*writer) =~= at_param + render(nodes[i as int]));
            assert(nodes.take(i as int + 1) =~= nodes.take(i as int).push(nodes[i as int]));
            lemma_render_all_push(nodes.take(i as int), nodes[i as int]);
            assert(start + render_all(nodes.take(i as int)) + render(nodes[i as int]) =~= start + (
            render_all(nodes.take(i as int)) + render(nodes[i as int])));
        }
        i = i + 1;
    }
    write_end(writer, "params");
    proof {
        assert(nodes.take(i as int) =~= nodes);
        assert(written(*writer) =~= before + render(params_markup(items_view(params@))));
    }
}

/// What a type writes as its XML text.
pub trait ToXml {
    /// The XML text of a value of this type.
    spec fn xml_text(&self) -> Seq<char>;

    /// The XML text of this value.
    fn to_xml(&self) -> (r: String)
        ensures
            r@ == self.xml_text(),
    ;
}

impl Request {
    /// Writes the document of this call: the declaration, then the
    /// `<methodCall>` element.
    pub fn write_xml_with_writer(&self, writer: &mut quick_xml::Writer<Vec<u8>>)
        requires
            plain(*old(writer)),
        ensures
            plain(*final(writer)),
            written(*final(writer)) == written(*old(writer)) + call_text(self@),
    {
        let ghost before = written(*writer);
        write_declaration(writer);
        write_start(writer, "methodCall");
        write_leaf(writer, "methodName", self.name.as_str());
        write_params(&self.params, writer);
        write_end(writer, "methodCall");
        proof {
            lemma_render_all_two(leaf("methodName"@, self@.name), params_markup(self@.params));
            assert(written(*writer) =~= before + call_text(self@));
        }
    }

    /// The document of this call, as a string.
    pub fn write_xml_string(&self) -> (r: String)
        ensures
            r@ == call_text(self@),
    {
        let mut writer = new_writer();
        self.write_xml_with_writer(&mut writer);
        proof {
            assert(Seq::<char>::empty() + call_text(self@) =~= call_text(self@));
        }
        into_text(writer)
    }

    /// Appends the document of this call, as UTF-8, to a byte sink.
    pub fn write_xml(&self, sink: &mut Vec<u8>)
        ensures
            final(sink)@ == old(sink)@ + encode_utf8(call_text(self@)),
    {
        let text = self.write_xml_string();
        sink.extend_from_slice(text.as_str().as_bytes());
    }
}

impl ToXml for Request {
    open spec fn xml_text(&self) -> Seq<char> {
        call_text(self@)
    }

    fn to_xml(&self) -> (r: String) {
        self.write_xml_string()
    }
}

impl Response {
    /// Writes the document of this response: the declaration, then the
    /// `<methodResponse>` element with the parameters or the fault.
    pub fn write_xml_with_writer(&self, writer: &mut quick_xml::Writer<Vec<u8>>)
        requires
            plain(*old(writer)),
        ensures
            plain(*final(writer)),
            written(*final(writer)) == written(*old(writer)) + response_text(self@),
    {
        let ghost before = written(*writer);
        write_declaration(writer);
        write_start(writer, "methodResponse");
        match self {
            Response::Success(params) => {
                write_params(params, writer);
                proof {
                    lemma_render_all_one(params_markup(items_view(params@)));
                }
            },
            Response::Failure(fault) => {
                let mut members: Vec<(String, Value)> = Vec::new();
                members.push((String::from_str("faultCode"), Value::Int(fault.code)));
                members.push(
                    (String::from_str("faultString"), Value::String(fault.message.clone())),
                );
                let value = Value::Struct(members);
                proof {
                    lemma_struct_view(members);
                    assert(members_view(members@) =~= fault_datum(fault@)->Struct_0);
                }
                write_start(writer, "fault");
                value.write_xml(writer);
                write_end(writer, "fault");
                proof {
                    let inner = value_markup(fault_datum(fault@));
                    lemma_render_all_one(inner);
                    lemma_render_all_one(Markup::Element { name: "fault"@, children: seq![inner] });
                }
            },
        }
        write_end(writer, "methodResponse");
        proof {
            assert(written(*writer) =~= before + response_text(self@));
        }
    }

    /// The document of this response, as a string.
    pub fn write_xml_string(&self) -> (r: String)
        ensures
            r@ == response_text(self@),
    {
        let mut writer = new_writer();
        self.write_xml_with_writer(&mut writer);
        proof {
            assert(Seq::<char>::empty() + response_text(self@) =~= response_text(self@));
        }
        into_text(writer)
    }

    /// Appends the document of this response, as UTF-8, to a byte sink.
    pub fn write_xml(&self, sink: &mut Vec<u8>)
        ensures
            final(sink)@ == old(sink)@ + encode_utf8(response_text(self@)),
    {
        let text = self.write_xml_string();
        sink.extend_from_slice(text.as_str().as_bytes());
    }
}

impl ToXml for Response {
    open spec fn xml_text(&self) -> Seq<char> {
        response_text(self@)
    }

    fn to_xml(&self) -> (r: String) {
        self.write_xml_string()
    }
}

impl ToXml for Value {
    open spec fn xml_text(&self) -> Seq<char> {
        render(value_markup(self@))
    }

    fn to_xml(&self) -> (r: String) {
        let mut writer = new_writer();
        self.write_xml(&mut writer);
        proof {
            assert(Seq::<char>::empty() + render(value_markup(self@)) =~= render(
                value_markup(self@),
            ));
        }
        into_text(writer)
    }
}

} // verus!
