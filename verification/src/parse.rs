//! Entry points that read whole documents from text.

use vstd::prelude::*;
use crate::error::{DecodeError, Failure};
use crate::markup::{nodes_view, parse_document, parsed_document, Markup, XmlNode};
use crate::messages::{
    call_outcome, decode_call_text, decode_response_text, response_outcome, Request, Response,
};
use crate::reader::{
    any_element, decode_typed, find_element, first_where, read_typed, value_outcome,
};
use crate::value::{Datum, Value};

verus! {

/// The value that a document holds whose first element is a typed element
/// such as `<i4>` or `<struct>`, without a `<value>` around it.
pub open spec fn decode_bare(document: Seq<Markup>) -> Result<Datum, Failure> {
    let k = first_where(document, any_element());
    if k < document.len() {
        decode_typed(document[k as int])
    } else {
        Err(Failure::UnsupportedTag { name: Seq::empty() })
    }
}

/// The bare value that a text holds: that of the document it parses to.
pub open spec fn decode_bare_text(text: Seq<char>) -> Result<Datum, Failure> {
    match parsed_document(text) {
        Some(document) => decode_bare(document),
        None => Err(Failure::Syntax),
    }
}

/// Reads the bare value that a parsed document holds.
pub fn value_from_document(document: &Vec<XmlNode>) -> (r: Result<Value, DecodeError>)
    ensures
        value_outcome(r) == decode_bare(nodes_view(document@)),
{
    let k = find_element(document);
    if k < document.len() {
        read_typed(&document[k])
    } else {
        Err(DecodeError::UnsupportedTag { name: String::new() })
    }
}

/// Reads a bare value from XML text.
pub fn xml(text: &str) -> (r: Result<Value, DecodeError>)
    ensures
        value_outcome(r) == decode_bare_text(text@),
{
    match parse_document(text) {
        Ok(document) => value_from_document(&document),
        Err(message) => Err(DecodeError::Syntax { message }),
    }
}

/// Reads a call from XML text.
pub fn call(text: &str) -> (r: Result<Request, DecodeError>)
    ensures
        call_outcome(r) == decode_call_text(text@),
{
    Request::read_xml(text)
}

/// Reads a response from XML text.
pub fn response(text: &str) -> (r: Result<Response, DecodeError>)
    ensures
        response_outcome(r) == decode_response_text(text@),
{
    Response::read_xml(text)
}

} // verus!
