//! Render Relay Protocol (RRP): message schemas and the handshake logic of
//! server-rendered streaming to TVs and displays.
//!
//! - `message`: the RRP messages, read from and written to JSON text
//! - `wire`: the JSON form of messages as mathematics, and the proof that
//!   reading a written message gives it back
//! - `json`: the JSON value model and the serde_json calls behind it
//! - `client` / `server`: the two sides of the four-step handshake
//!   (`start` → `init` → `join` → `stream_ready`) as state machines
//! - `version`: the order of version strings, for choosing a version
//! - `session`: what a handshake settles, and the frames it reads
//! - `types`: stream formats, key states, severities, capabilities

pub mod client;
pub mod error;
pub mod json;
pub mod message;
pub mod server;
pub mod session;
pub mod types;
pub mod version;
pub mod wire;

pub use client::JoinConfig;
pub use error::RrpError;
pub use json::JsonValue;
pub use message::RrpMessage;
pub use server::{select_version, RendererConfig};
pub use session::{Frame, Session};
pub use types::{AuthMode, InputCaps, KeyState, Severity, StreamCaps, StreamFormat, StreamSelection};

use vstd::prelude::*;

verus! {

/// The RRP spec version this crate implements.
pub const SPEC_VERSION: &'static str = "0.1.0";

/// Default WebSocket path for RRP connections.
pub const DEFAULT_PATH: &'static str = "/rrp";

} // verus!
