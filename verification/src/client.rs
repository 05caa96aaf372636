//! The viewer side of the RRP handshake, as decisions: what to send first,
//! and what each frame from the renderer leads to.
//!
//! 1. send `start` with the viewer's versions and name
//! 2. wait for `init` with the renderer's capabilities and chosen version
//! 3. send `join` with the format selection
//! 4. wait for `stream_ready` with the stream URL
//!
//! A critical alert from the renderer during steps 2 or 4 ends the handshake
//! with its message; other messages are skipped.

use vstd::prelude::*;

use crate::error::RrpError;
use crate::message::{RrpMessage, SpecMessage};
use crate::session::{text_reads_as, Frame, Session};
use crate::types::{Severity, StreamFormat, StreamSelection};

verus! {

/// Configuration for the `join` step of the RRP handshake.
#[derive(Debug, Clone)]
pub struct JoinConfig {
    /// The stream format to request.
    pub format: StreamFormat,
    /// Extensions the viewer supports.
    pub extensions: Option<Vec<String>>,
    /// Authentication token (if the renderer requires auth).
    pub token: Option<String>,
}

/// The `start` message: the viewer's versions, in order, and its name.
pub fn start_message(name: &str, versions: &[&str]) -> (r: RrpMessage)
    ensures
        r@ == (SpecMessage::Start {
            version: Seq::new(versions@.len(), |i: int| versions@[i]@),
            name: Some(name@),
        }),
{
    let mut version: Vec<String> = Vec::new();
    let mut i: usize = 0;
    while i < versions.len()
        invariant
            i <= versions@.len(),
            version@.len() == i,
            forall|j: int| 0 <= j < i ==> #[trigger] version@[j]@ == versions@[j]@,
        decreases versions@.len() - i,
    {
        version.push(versions[i].to_owned());
        i = i + 1;
    }
    let r = RrpMessage::Start { version, name: Some(name.to_owned()) };
    assert(r@->Start_version =~= Seq::new(versions@.len(), |i: int| versions@[i]@));
    r
}

/// The `join` message for a join configuration.
pub fn join_message(join: JoinConfig) -> (r: RrpMessage)
    ensures
        r@ == (SpecMessage::Join {
            stream: join.format,
            extensions: join.extensions.deep_view(),
            token: join.token.deep_view(),
        }),
{
    RrpMessage::Join {
        stream: StreamSelection { selected: join.format },
        extensions: join.extensions,
        token: join.token,
    }
}

/// Where the viewer's handshake stands.
#[derive(Debug, Clone)]
pub enum ClientState {
    /// `start` was sent; waiting for `init`.
    AwaitingInit { join: JoinConfig },
    /// `join` was sent; waiting for `stream_ready`. `version` is the version
    /// the renderer confirmed in `init`.
    AwaitingStreamReady { version: String },
}

/// What a frame leads to in the viewer's handshake.
#[derive(Debug)]
pub enum ClientStep {
    /// Keep waiting, in this state.
    Continue(ClientState),
    /// Send this message, then wait in this state.
    Send(RrpMessage, ClientState),
    /// The handshake is complete.
    Established(Session),
    /// The handshake failed.
    Failed(RrpError),
}

/// Whether a message is a critical alert.
pub open spec fn is_critical_alert(m: SpecMessage) -> bool {
    m matches SpecMessage::Alert { severity: Severity::Critical, .. }
}

impl ClientState {
    /// The state after `start` was sent.
    pub fn new(join: JoinConfig) -> (r: ClientState)
        ensures
            r == (ClientState::AwaitingInit { join }),
    {
        ClientState::AwaitingInit { join }
    }

    /// What the frame `frame` from the renderer leads to.
    ///
    /// A close frame fails with `Closed`; a frame that is neither text nor
    /// close is skipped; a text that is not a message fails with `Json`. A
    /// critical alert fails with `Handshake` and the alert's message. While
    /// waiting for `init`, an `init` leads to sending `join` and waiting for
    /// `stream_ready` under the version `init` confirmed; while waiting for
    /// `stream_ready`, a `stream_ready` completes the handshake with its URL,
    /// format and extensions (none when it lists none). Any other message is
    /// skipped.
    pub fn on_frame(self, frame: Frame) -> (r: ClientStep)
        ensures
            match frame {
                Frame::Close => r matches ClientStep::Failed(RrpError::Closed),
                Frame::Other => r == ClientStep::Continue(self),
                Frame::Text(t) => match text_reads_as(t@) {
                    None => r matches ClientStep::Failed(RrpError::Json(_)),
                    Some(m) => if is_critical_alert(m) {
                        r matches ClientStep::Failed(RrpError::Handshake(reason))
                            && reason@ == m->Alert_message
                    } else {
                        match self {
                            ClientState::AwaitingInit { join } => match m {
                                SpecMessage::Init { version, .. } => r matches ClientStep::Send(
                                    msg,
                                    ClientState::AwaitingStreamReady { version: v },
                                ) && v@ == version && msg@ == (SpecMessage::Join {
                                    stream: join.format,
                                    extensions: join.extensions.deep_view(),
                                    token: join.token.deep_view(),
                                }),
                                _ => r == ClientStep::Continue(self),
                            },
                            ClientState::AwaitingStreamReady { version } => match m {
                                SpecMessage::StreamReady { format, url, extensions } => r matches ClientStep::Established(s)
                                    && s.version == version && s.peer_name is None
                                    && s.stream_url@ == url && s.stream_format == format
                                    && s.active_extensions.deep_view() == match extensions {
                                    Some(l) => l,
                                    None => Seq::empty(),
                                },
                                _ => r == ClientStep::Continue(self),
                            },
                        }
                    },
                },
            },
    {
        match frame {
            Frame::Close => ClientStep::Failed(RrpError::Closed),
            Frame::Other => ClientStep::Continue(self),
            Frame::Text(t) => {
                let msg = match RrpMessage::parse(t.as_str()) {
                    Ok(m) => m,
                    Err(e) => return ClientStep::Failed(e),
                };
                match msg {
                    RrpMessage::Alert { severity: Severity::Critical, message } => {
                        ClientStep::Failed(RrpError::Handshake(message))
                    },
                    RrpMessage::Init { version, .. } => match self {
                        ClientState::AwaitingInit { join } => {
                            let join_msg = join_message(join);
                            ClientStep::Send(join_msg, ClientState::AwaitingStreamReady { version })
                        },
                        _ => ClientStep::Continue(self),
                    },
                    RrpMessage::StreamReady { format, url, extensions } => match self {
                        ClientState::AwaitingStreamReady { version } => {
                            let active_extensions = match extensions {
                                Some(l) => l,
                                None => {
                                    let empty: Vec<String> = Vec::new();
                                    assert(empty.deep_view() =~= Seq::<Seq<char>>::empty());
                                    empty
                                },
                            };
                            ClientStep::Established(
                                Session {
                                    version,
                                    peer_name: None,
                                    stream_url: url,
                                    stream_format: format,
                                    active_extensions,
                                },
                            )
                        },
                        _ => ClientStep::Continue(self),
                    },
                    _ => ClientStep::Continue(self),
                }
            },
        }
    }
}

} // verus!
