//! Typed JSON-RPC 2.0 request and response envelopes over a JSON document
//! model, with owned request-id issuance.

pub mod json;
pub mod request;
pub mod response;

pub use json::{Json, JsonNumber, JsonValue};
pub use request::{DecodeError, IdGenerator, RequestField, RequestView, RpcRequest};
pub use response::RpcResponse;
