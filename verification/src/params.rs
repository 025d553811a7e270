//! The parameter convention: how one encoded value becomes the parameter
//! list of a call or response, and how a parameter list becomes one value
//! again.

use vstd::prelude::*;
use crate::value::{items_view, lemma_array_view, Datum, Value};

verus! {

/// The parameters that a value becomes: the items of an array, or the
/// value alone.
pub open spec fn params_of(datum: Datum) -> Seq<Datum> {
    match datum {
        Datum::Array(items) => items,
        other => seq![other],
    }
}

/// The value that parameters become: the one parameter where there is
/// exactly one, else the array of them.
pub open spec fn value_of_params(params: Seq<Datum>) -> Datum {
    if params.len() == 1 {
        params[0]
    } else {
        Datum::Array(params)
    }
}

/// Turns an encoded value into parameters.
pub fn into_params(value: Value) -> (r: Vec<Value>)
    ensures
        items_view(r@) == params_of(value@),
        r.len() == params_of(value@).len(),
{
    match value {
        Value::Array(params) => {
            proof {
                lemma_array_view(params);
            }
            params
        },
        data => {
            let mut params: Vec<Value> = Vec::new();
            params.push(data);
            proof {
                assert(items_view(params@) =~= seq![data@]);
            }
            params
        },
    }
}

/// Turns parameters into the value to decode.
pub fn from_params(params: Vec<Value>) -> (r: Value)
    ensures
        r@ == value_of_params(items_view(params@)),
{
    let mut params = params;
    if params.len() == 1 {
        match params.pop() {
            Some(data) => data,
            None => Value::Array(params),
        }
    } else {
        proof {
            lemma_array_view(params);
        }
        Value::Array(params)
    }
}

/// A value that is no array of exactly one item comes back from its
/// parameters unchanged.
pub proof fn law_value_through_params(datum: Datum)
    requires
        !(datum matches Datum::Array(items) && items.len() == 1),
    ensures
        value_of_params(params_of(datum)) == datum,
{
}

/// Parameters that are not exactly one array come back from their value
/// unchanged.
pub proof fn law_params_through_value(params: Seq<Datum>)
    requires
        !(params.len() == 1 && params[0] is Array),
    ensures
        params_of(value_of_params(params)) == params,
{
    if params.len() == 1 {
        assert(seq![params[0]] =~= params);
    }
}

} // verus!
