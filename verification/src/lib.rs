//! XML-RPC wire protocol: a dynamic value model, the XML reader and writer for
//! the `methodCall` / `methodResponse` envelope, and the bridge between typed
//! application values and the value model.

pub mod binary;
pub mod datetime;
pub mod de;
pub mod decimal;
pub mod double;
pub mod error;
pub mod laws;
pub mod markup;
pub mod messages;
pub mod params;
pub mod parse;
pub mod reader;
pub mod ser;
pub mod server;
pub mod text;
pub mod value;
pub mod writer;

pub use crate::datetime::DateTime;
pub use crate::double::Double;
pub use crate::error::{DecodeError, EncodeError};
pub use crate::messages::{Call, Fault, Params, Request, Response, ToXml};
pub use crate::params::{from_params, into_params};
pub use crate::reader::literal_text_in_node;
pub use crate::ser::{SerializeMap, SerializeVec, Serializer};
pub use crate::server::{on_decode_fail, on_encode_fail};
pub use crate::value::Value;
