//! What a completed handshake has settled, and the frames a WebSocket hands
//! the handshake.

use vstd::prelude::*;

use crate::error::RrpError;
use crate::json::spec_parse_json_text;
use crate::message::{RrpMessage, SpecMessage};
use crate::types::StreamFormat;
use crate::wire::decode_message;

verus! {

/// A WebSocket frame as the protocol sees it.
#[derive(Debug, Clone, PartialEq)]
pub enum Frame {
    /// A text frame.
    Text(String),
    /// A close frame.
    Close,
    /// Any other frame (binary, ping, pong), which the protocol skips.
    Other,
}

/// The message a JSON text reads as, if it reads as one.
pub open spec fn text_reads_as(text: Seq<char>) -> Option<SpecMessage> {
    match spec_parse_json_text(text) {
        Some(j) => match decode_message(j) {
            Ok(m) => Some(m),
            Err(_) => None,
        },
        None => None,
    }
}

/// What the handshake settled: the version, the peer's name when the peer
/// gave one, the stream and the active extensions.
#[derive(Debug, Clone, PartialEq)]
pub struct Session {
    pub version: String,
    pub peer_name: Option<String>,
    pub stream_url: String,
    pub stream_format: StreamFormat,
    pub active_extensions: Vec<String>,
}

impl Session {
    /// The RRP version negotiated during the handshake.
    pub fn version(&self) -> (r: &str)
        ensures
            r@ == self.version@,
    {
        self.version.as_str()
    }

    /// The peer's name from its `start` message, if it gave one.
    pub fn peer_name(&self) -> (r: Option<&str>)
        ensures
            match self.peer_name {
                Some(n) => r is Some && r->Some_0@ == n@,
                None => r is None,
            },
    {
        match &self.peer_name {
            Some(n) => Some(n.as_str()),
            None => None,
        }
    }

    /// The video stream URL.
    pub fn stream_url(&self) -> (r: &str)
        ensures
            r@ == self.stream_url@,
    {
        self.stream_url.as_str()
    }

    /// The confirmed stream format.
    pub fn stream_format(&self) -> (r: StreamFormat)
        ensures
            r == self.stream_format,
    {
        self.stream_format
    }

    /// The active extensions confirmed during the handshake.
    pub fn active_extensions(&self) -> (r: &[String])
        ensures
            r@ == self.active_extensions@,
    {
        self.active_extensions.as_slice()
    }
}

/// What a frame read after the handshake gives: `None` for a frame to skip,
/// the parsed message for a text frame, `RrpError::Closed` for a close frame.
pub fn receive_frame(frame: Frame) -> (r: Option<Result<RrpMessage, RrpError>>)
    ensures
        match frame {
            Frame::Text(t) => match text_reads_as(t@) {
                Some(m) => r is Some && r->Some_0 is Ok && r->Some_0->Ok_0@ == m,
                None => r is Some && r->Some_0 matches Err(RrpError::Json(_)),
            },
            Frame::Close => r matches Some(Err(RrpError::Closed)),
            Frame::Other => r is None,
        },
{
    match frame {
        Frame::Text(t) => Some(RrpMessage::parse(t.as_str())),
        Frame::Close => Some(Err(RrpError::Closed)),
        Frame::Other => None,
    }
}

/// Which kind of failure a read from the WebSocket met.
#[derive(Debug, Clone, Copy, PartialEq, Eq)]
pub enum ReadFailure {
    /// The socket is non-blocking and no frame is ready yet.
    WouldBlock,
    /// The connection was closed (after the close handshake).
    ConnectionClosed,
    /// The connection had already been closed before this read.
    AlreadyClosed,
    /// Any other transport failure.
    Other,
}

/// What one read from the WebSocket gave.
#[derive(Debug)]
pub enum ReadOutcome {
    /// A frame arrived.
    Frame(Frame),
    /// The read failed, with the kind of failure and tungstenite's error.
    Failed(ReadFailure, tungstenite::Error),
}

/// What a non-blocking poll does with one read: `None` to read again (a
/// frame to skip), `Some(Ok(None))` when no frame is ready, the message of a
/// text frame, `Closed` for a close frame, and any other failure as a
/// `WebSocket` error.
pub fn poll_step(outcome: ReadOutcome) -> (r: Option<Result<Option<RrpMessage>, RrpError>>)
    ensures
        match outcome {
            ReadOutcome::Frame(Frame::Text(t)) => match text_reads_as(t@) {
                Some(m) => r matches Some(Ok(Some(msg))) && msg@ == m,
                None => r matches Some(Err(RrpError::Json(_))),
            },
            ReadOutcome::Frame(Frame::Close) => r matches Some(Err(RrpError::Closed)),
            ReadOutcome::Frame(Frame::Other) => r is None,
            ReadOutcome::Failed(ReadFailure::WouldBlock, _) => r matches Some(Ok(None)),
            ReadOutcome::Failed(_, e) => r matches Some(Err(RrpError::WebSocket(b))) && *b == e,
        },
{
    match outcome {
        ReadOutcome::Frame(frame) => match receive_frame(frame) {
            Some(Ok(m)) => Some(Ok(Some(m))),
            Some(Err(e)) => Some(Err(e)),
            None => None,
        },
        ReadOutcome::Failed(ReadFailure::WouldBlock, _) => Some(Ok(None)),
        ReadOutcome::Failed(_, e) => Some(Err(RrpError::from(e))),
    }
}

/// What closing does with one read after the close frame was sent: `None`
/// to read again, `Some(Ok(()))` once the peer's close frame arrives or the
/// connection is closed, and any other failure as a `WebSocket` error.
pub fn close_step(outcome: ReadOutcome) -> (r: Option<Result<(), RrpError>>)
    ensures
        match outcome {
            ReadOutcome::Frame(Frame::Close) => r matches Some(Ok(())),
            ReadOutcome::Frame(_) => r is None,
            ReadOutcome::Failed(ReadFailure::ConnectionClosed, _) => r matches Some(Ok(())),
            ReadOutcome::Failed(ReadFailure::AlreadyClosed, _) => r matches Some(Ok(())),
            ReadOutcome::Failed(_, e) => r matches Some(Err(RrpError::WebSocket(b))) && *b == e,
        },
{
    match outcome {
        ReadOutcome::Frame(Frame::Close) => Some(Ok(())),
        ReadOutcome::Frame(_) => None,
        ReadOutcome::Failed(ReadFailure::ConnectionClosed, _) => Some(Ok(())),
        ReadOutcome::Failed(ReadFailure::AlreadyClosed, _) => Some(Ok(())),
        ReadOutcome::Failed(_, e) => Some(Err(RrpError::from(e))),
    }
}

} // verus!
