//! RRP error types.

use vstd::prelude::*;

verus! {

/// tungstenite's error type, carried by `RrpError::WebSocket`.
#[verifier::external_type_specification]
#[verifier::external_body]
pub struct ExWsError(tungstenite::Error);

/// Why a JSON value is not an RRP message.
#[derive(Debug, Clone, Copy, PartialEq, Eq, Structural)]
pub enum DecodeError {
    /// The value is not a JSON object.
    NotAnObject,
    /// A required field is missing.
    MissingField,
    /// A field holds a value of the wrong JSON type.
    WrongType,
    /// A field names a format, mode, state or severity that does not exist.
    UnknownValue,
}

impl DecodeError {
    /// A short description of the error.
    pub fn describe(&self) -> (r: &'static str)
        ensures
            r@ == decode_error_text(*self),
    {
        match self {
            DecodeError::NotAnObject => "invalid type: expected an RRP message object",
            DecodeError::MissingField => "missing field",
            DecodeError::WrongType => "invalid type",
            DecodeError::UnknownValue => "unknown variant",
        }
    }
}

/// The description of a decoding error.
pub open spec fn decode_error_text(e: DecodeError) -> Seq<char> {
    match e {
        DecodeError::NotAnObject => "invalid type: expected an RRP message object"@,
        DecodeError::MissingField => "missing field"@,
        DecodeError::WrongType => "invalid type"@,
        DecodeError::UnknownValue => "unknown variant"@,
    }
}

/// Errors from RRP message parsing and transport.
#[derive(Debug)]
pub enum RrpError {
    /// The text is not JSON, or not an RRP message.
    Json(serde_json::Error),
    /// The handshake failed, with the reason.
    Handshake(String),
    /// The connection was closed.
    Closed,
    /// The WebSocket transport failed.
    WebSocket(Box<tungstenite::Error>),
}

impl From<serde_json::Error> for RrpError {
    fn from(e: serde_json::Error) -> (r: RrpError) {
        RrpError::Json(e)
    }
}

impl vstd::std_specs::convert::FromSpecImpl<serde_json::Error> for RrpError {
    open spec fn obeys_from_spec() -> bool {
        true
    }

    /// A serde_json error becomes a `Json` error.
    open spec fn from_spec(v: serde_json::Error) -> RrpError {
        RrpError::Json(v)
    }
}

impl From<tungstenite::Error> for RrpError {
    fn from(e: tungstenite::Error) -> (r: RrpError) {
        RrpError::WebSocket(Box::new(e))
    }
}

impl vstd::std_specs::convert::FromSpecImpl<tungstenite::Error> for RrpError {
    open spec fn obeys_from_spec() -> bool {
        true
    }

    /// A tungstenite error becomes a `WebSocket` error that holds it.
    open spec fn from_spec(v: tungstenite::Error) -> RrpError {
        RrpError::WebSocket(Box::new(v))
    }
}

/// Calls `<serde_json::Error as serde::de::Error>::custom`, which makes a
/// serde_json error that carries `message`.
#[verifier::external_body]
pub(crate) fn json_error(message: &str) -> serde_json::Error {
    <serde_json::Error as serde::de::Error>::custom(message)
}

} // verus!
