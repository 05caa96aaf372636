//! RRP domain types: stream formats, key states, capabilities.

pub mod keys;

use vstd::prelude::*;

verus! {

/// Equality of two string slices by their characters.
pub fn str_eq(a: &str, b: &str) -> (r: bool)
    ensures
        r == (a@ == b@),
{
    let x = a.to_owned();
    let y = b.to_owned();
    x == y
}

/// Video stream format identifiers.
#[derive(Debug, Clone, Copy, PartialEq, Eq, Structural)]
pub enum StreamFormat {
    LlHls,
    Hls,
    Dash,
    WebRtc,
    Rtsp,
}

/// The wire name of a stream format.
pub open spec fn format_name(f: StreamFormat) -> Seq<char> {
    match f {
        StreamFormat::LlHls => "ll-hls"@,
        StreamFormat::Hls => "hls"@,
        StreamFormat::Dash => "dash"@,
        StreamFormat::WebRtc => "webrtc"@,
        StreamFormat::Rtsp => "rtsp"@,
    }
}

/// The stream format whose wire name is `s`, if any.
pub open spec fn format_from_name(s: Seq<char>) -> Option<StreamFormat> {
    if s == "ll-hls"@ {
        Some(StreamFormat::LlHls)
    } else if s == "hls"@ {
        Some(StreamFormat::Hls)
    } else if s == "dash"@ {
        Some(StreamFormat::Dash)
    } else if s == "webrtc"@ {
        Some(StreamFormat::WebRtc)
    } else if s == "rtsp"@ {
        Some(StreamFormat::Rtsp)
    } else {
        None
    }
}

impl StreamFormat {
    /// The wire name of this format (`"ll-hls"`, `"hls"`, ...), which is also
    /// its display form.
    pub fn as_str(&self) -> (r: &'static str)
        ensures
            r@ == format_name(*self),
    {
        match self {
            StreamFormat::LlHls => "ll-hls",
            StreamFormat::Hls => "hls",
            StreamFormat::Dash => "dash",
            StreamFormat::WebRtc => "webrtc",
            StreamFormat::Rtsp => "rtsp",
        }
    }

    /// The format named `name` on the wire, if any.
    pub fn from_name(name: &str) -> (r: Option<StreamFormat>)
        ensures
            r == format_from_name(name@),
    {
        if str_eq(name, "ll-hls") {
            Some(StreamFormat::LlHls)
        } else if str_eq(name, "hls") {
            Some(StreamFormat::Hls)
        } else if str_eq(name, "dash") {
            Some(StreamFormat::Dash)
        } else if str_eq(name, "webrtc") {
            Some(StreamFormat::WebRtc)
        } else if str_eq(name, "rtsp") {
            Some(StreamFormat::Rtsp)
        } else {
            None
        }
    }
}

/// Reading a stream format's wire name gives the format back.
pub proof fn lemma_format_name_roundtrip(f: StreamFormat)
    ensures
        format_from_name(format_name(f)) == Some(f),
{
    reveal_strlit("ll-hls");
    reveal_strlit("hls");
    reveal_strlit("dash");
    reveal_strlit("webrtc");
    reveal_strlit("rtsp");
    assert("ll-hls"@.len() != "hls"@.len());
    assert("ll-hls"@.len() != "dash"@.len());
    assert("ll-hls"@[0] != "webrtc"@[0]);
    assert("ll-hls"@.len() != "rtsp"@.len());
    assert("hls"@.len() != "dash"@.len());
    assert("hls"@.len() != "webrtc"@.len());
    assert("hls"@.len() != "rtsp"@.len());
    assert("dash"@.len() != "webrtc"@.len());
    assert("dash"@[0] != "rtsp"@[0]);
    assert("webrtc"@.len() != "rtsp"@.len());
}

/// Key press state.
#[derive(Debug, Clone, Copy, PartialEq, Eq, Structural)]
pub enum KeyState {
    Down,
    Up,
    Repeat,
}

/// The wire name of a key state.
pub open spec fn key_state_name(k: KeyState) -> Seq<char> {
    match k {
        KeyState::Down => "down"@,
        KeyState::Up => "up"@,
        KeyState::Repeat => "repeat"@,
    }
}

/// The key state whose wire name is `s`, if any.
pub open spec fn key_state_from_name(s: Seq<char>) -> Option<KeyState> {
    if s == "down"@ {
        Some(KeyState::Down)
    } else if s == "up"@ {
        Some(KeyState::Up)
    } else if s == "repeat"@ {
        Some(KeyState::Repeat)
    } else {
        None
    }
}

impl KeyState {
    /// The wire name of this key state.
    pub fn as_str(&self) -> (r: &'static str)
        ensures
            r@ == key_state_name(*self),
    {
        match self {
            KeyState::Down => "down",
            KeyState::Up => "up",
            KeyState::Repeat => "repeat",
        }
    }

    /// The key state named `name` on the wire, if any.
    pub fn from_name(name: &str) -> (r: Option<KeyState>)
        ensures
            r == key_state_from_name(name@),
    {
        if str_eq(name, "down") {
            Some(KeyState::Down)
        } else if str_eq(name, "up") {
            Some(KeyState::Up)
        } else if str_eq(name, "repeat") {
            Some(KeyState::Repeat)
        } else {
            None
        }
    }
}

/// Reading a key state's wire name gives the key state back.
pub proof fn lemma_key_state_name_roundtrip(k: KeyState)
    ensures
        key_state_from_name(key_state_name(k)) == Some(k),
{
    reveal_strlit("down");
    reveal_strlit("up");
    reveal_strlit("repeat");
    assert("down"@.len() != "up"@.len());
    assert("down"@.len() != "repeat"@.len());
    assert("up"@.len() != "repeat"@.len());
}

/// Alert severity level, ordered from least to most severe.
#[derive(Debug, Clone, Copy, PartialEq, Eq, PartialOrd, Ord, Structural)]
pub enum Severity {
    Warn,
    Error,
    Critical,
}

/// The wire name of a severity, which is also its display form.
pub open spec fn severity_name(s: Severity) -> Seq<char> {
    match s {
        Severity::Warn => "warn"@,
        Severity::Error => "error"@,
        Severity::Critical => "critical"@,
    }
}

/// The severity whose wire name is `s`, if any.
pub open spec fn severity_from_name(s: Seq<char>) -> Option<Severity> {
    if s == "warn"@ {
        Some(Severity::Warn)
    } else if s == "error"@ {
        Some(Severity::Error)
    } else if s == "critical"@ {
        Some(Severity::Critical)
    } else {
        None
    }
}

impl Severity {
    /// The wire name of this severity (`"warn"`, `"error"`, `"critical"`).
    pub fn as_str(&self) -> (r: &'static str)
        ensures
            r@ == severity_name(*self),
    {
        match self {
            Severity::Warn => "warn",
            Severity::Error => "error",
            Severity::Critical => "critical",
        }
    }

    /// The severity named `name` on the wire, if any.
    pub fn from_name(name: &str) -> (r: Option<Severity>)
        ensures
            r == severity_from_name(name@),
    {
        if str_eq(name, "warn") {
            Some(Severity::Warn)
        } else if str_eq(name, "error") {
            Some(Severity::Error)
        } else if str_eq(name, "critical") {
            Some(Severity::Critical)
        } else {
            None
        }
    }
}

/// Reading a severity's wire name gives the severity back.
pub proof fn lemma_severity_name_roundtrip(s: Severity)
    ensures
        severity_from_name(severity_name(s)) == Some(s),
{
    reveal_strlit("warn");
    reveal_strlit("error");
    reveal_strlit("critical");
    assert("warn"@.len() != "error"@.len());
    assert("warn"@.len() != "critical"@.len());
    assert("error"@.len() != "critical"@.len());
}

/// Authentication mode advertised in `init`.
#[derive(Debug, Clone, Copy, PartialEq, Eq, Structural)]
pub enum AuthMode {
    NotRequired,
    Required,
}

/// The wire name of an authentication mode.
pub open spec fn auth_mode_name(a: AuthMode) -> Seq<char> {
    match a {
        AuthMode::NotRequired => "none"@,
        AuthMode::Required => "required"@,
    }
}

/// The authentication mode whose wire name is `s`, if any.
pub open spec fn auth_mode_from_name(s: Seq<char>) -> Option<AuthMode> {
    if s == "none"@ {
        Some(AuthMode::NotRequired)
    } else if s == "required"@ {
        Some(AuthMode::Required)
    } else {
        None
    }
}

impl AuthMode {
    /// The wire name of this authentication mode.
    pub fn as_str(&self) -> (r: &'static str)
        ensures
            r@ == auth_mode_name(*self),
    {
        match self {
            AuthMode::NotRequired => "none",
            AuthMode::Required => "required",
        }
    }

    /// The authentication mode named `name` on the wire, if any.
    pub fn from_name(name: &str) -> (r: Option<AuthMode>)
        ensures
            r == auth_mode_from_name(name@),
    {
        if str_eq(name, "none") {
            Some(AuthMode::NotRequired)
        } else if str_eq(name, "required") {
            Some(AuthMode::Required)
        } else {
            None
        }
    }
}

/// Reading an authentication mode's wire name gives the mode back.
pub proof fn lemma_auth_mode_name_roundtrip(a: AuthMode)
    ensures
        auth_mode_from_name(auth_mode_name(a)) == Some(a),
{
    reveal_strlit("none");
    reveal_strlit("required");
    assert("none"@.len() != "required"@.len());
}

/// Stream capabilities advertised in `init`.
#[derive(Debug, Clone, PartialEq)]
pub struct StreamCaps {
    pub supported: Vec<StreamFormat>,
}

impl View for StreamCaps {
    type V = Seq<StreamFormat>;

    open spec fn view(&self) -> Seq<StreamFormat> {
        self.supported@
    }
}

/// Input capabilities advertised in `init`.
#[derive(Debug, Clone, PartialEq)]
pub struct InputCaps {
    pub keys: Vec<String>,
}

impl View for InputCaps {
    type V = Seq<Seq<char>>;

    open spec fn view(&self) -> Seq<Seq<char>> {
        self.keys.deep_view()
    }
}

/// Stream format selection sent in `join`.
#[derive(Debug, Clone, Copy, PartialEq, Eq, Structural)]
pub struct StreamSelection {
    pub selected: StreamFormat,
}

/// The wire names of the stream formats are `ll-hls`, `hls`, `dash`,
/// `webrtc` and `rtsp`; a name reads as a format only when it is that
/// format's wire name.
pub proof fn lemma_format_wire_names()
    ensures
        format_name(StreamFormat::LlHls) == "ll-hls"@,
        format_name(StreamFormat::Hls) == "hls"@,
        format_name(StreamFormat::Dash) == "dash"@,
        format_name(StreamFormat::WebRtc) == "webrtc"@,
        format_name(StreamFormat::Rtsp) == "rtsp"@,
        forall|s: Seq<char>| #[trigger] format_from_name(s) matches Some(f) ==> format_name(f) == s,
{
}

/// The wire names of the key states are `down`, `up` and `repeat`; a name
/// reads as a key state only when it is that state's wire name.
pub proof fn lemma_key_state_wire_names()
    ensures
        key_state_name(KeyState::Down) == "down"@,
        key_state_name(KeyState::Up) == "up"@,
        key_state_name(KeyState::Repeat) == "repeat"@,
        forall|s: Seq<char>| #[trigger] key_state_from_name(s) matches Some(k) ==> key_state_name(k) == s,
{
}

/// The wire names of the severities are `warn`, `error` and `critical`; a
/// name reads as a severity only when it is that severity's wire name.
pub proof fn lemma_severity_wire_names()
    ensures
        severity_name(Severity::Warn) == "warn"@,
        severity_name(Severity::Error) == "error"@,
        severity_name(Severity::Critical) == "critical"@,
        forall|s: Seq<char>| #[trigger] severity_from_name(s) matches Some(v) ==> severity_name(v) == s,
{
}

/// The wire names of the authentication modes are `none` and `required`; a
/// name reads as a mode only when it is that mode's wire name.
pub proof fn lemma_auth_mode_wire_names()
    ensures
        auth_mode_name(AuthMode::NotRequired) == "none"@,
        auth_mode_name(AuthMode::Required) == "required"@,
        forall|s: Seq<char>| #[trigger] auth_mode_from_name(s) matches Some(a) ==> auth_mode_name(a) == s,
{
}

} // verus!
