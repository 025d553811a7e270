//! What a dispatcher answers where no handler can: the faults for a call
//! that does not decode, a reply that does not encode, and a method that
//! is not registered.

use vstd::prelude::*;
use crate::error::{DecodeError, EncodeError};
use crate::messages::{Fault, FaultModel, ReplyModel, Response};
use crate::value::Value;

verus! {

/// The code of the fault for a call that does not decode.
pub const DECODE_FAULT: i32 = 400;

/// The code of the fault for a method that is not registered.
pub const MISSING_METHOD_FAULT: i32 = 404;

/// The code of the fault for a reply that does not encode.
pub const ENCODE_FAULT: i32 = 500;

/// The response to a call whose parameters do not decode: a fault of code
/// 400 that says why.
pub fn on_decode_fail(err: &DecodeError) -> (r: Response)
    ensures
        r@ == ReplyModel::Failure(
            FaultModel {
                code: DECODE_FAULT,
                message: "Failed to decode request: "@ + err@.words() + err.detail(),
            },
        ),
{
    let mut message = String::from_str("Failed to decode request: ");
    message.append(err.message().as_str());
    proof {
        assert("Failed to decode request: "@ + (err@.words() + err.detail())
            =~= "Failed to decode request: "@ + err@.words() + err.detail());
    }
    Response::Failure(Fault { code: DECODE_FAULT, message })
}

/// The response to a call whose reply does not encode: a fault of code 500
/// that says why.
pub fn on_encode_fail(err: &EncodeError) -> (r: Response)
    ensures
        r@ == ReplyModel::Failure(
            FaultModel {
                code: ENCODE_FAULT,
                message: "Failed to encode response: "@ + err@.words(),
            },
        ),
{
    let mut message = String::from_str("Failed to encode response: ");
    message.append(err.message().as_str());
    Response::Failure(Fault { code: ENCODE_FAULT, message })
}

/// The response to a call of a method that is not registered: a fault of
/// code 404, whatever the parameters.
pub fn on_missing_method(_params: Vec<Value>) -> (r: Response)
    ensures
        r@ == ReplyModel::Failure(
            FaultModel {
                code: MISSING_METHOD_FAULT,
                message: "Requested method does not exist"@,
            },
        ),
{
    Response::Failure(
        Fault {
            code: MISSING_METHOD_FAULT,
            message: String::from_str("Requested method does not exist"),
        },
    )
}

} // verus!
