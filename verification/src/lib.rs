//! A JSON-RPC 2.0 client engine: request construction, correlation ids,
//! response interpretation and typed decoding of results, with the behaviour
//! of every function stated as a contract and proved.
//!
//! The library performs no I/O. `RpcClient::call` takes the function that
//! performs the HTTP POST; a caller that sends the request itself uses the
//! two halves of a call, `RpcClient::prepare` and `complete`.

pub mod client;
pub mod codec;
pub mod envelope;
pub mod error;
pub mod json;
pub mod shape;

pub use client::{HttpReply, HttpRequest, RpcClient};
pub use error::{HttpError, JsonError, RpcError, RpcResult, ShapeError};
pub use json::Json;
pub use shape::{Decoder, FieldKind, FieldSpec, Record, RecordShape, Untyped, Variant, VariantSet};
