//! RRP message types and their JSON form.
//!
//! Every RRP message is a JSON object whose `"type"` member names the kind of
//! message; the other members are the message's fields. Optional fields that
//! are absent are left out of the object. An object whose `"type"` names no
//! known kind is read as `RrpMessage::Unknown`, which the protocol says must be
//! ignored.

use vstd::prelude::*;

use crate::error::{json_error, DecodeError, RrpError};
use crate::json::{
    find_in_members, find_member, parse_json_text, push_member, render_json_text,
    spec_parse_json_text, spec_render_json_text, json_view, members_view, JsonValue, SpecJson};
use crate::types::{
    format_name, str_eq, AuthMode, InputCaps, KeyState, Severity, StreamCaps, StreamFormat, StreamSelection,
};
use crate::session::text_reads_as;
use crate::wire::{
    lemma_decode_encode, lemma_message_reads_back, message_reads_back,
    decode_alert, decode_ext, decode_init, decode_input_caps, decode_join, decode_key,
    decode_message, decode_notify, decode_start, decode_stream_caps, decode_stream_ready,
    decode_stream_selection, decode_stream_update, field_any, field_auth, field_format,
    field_format_list, field_key_state, field_object, field_opt_str, field_opt_str_list,
    field_opt_u64, field_severity, field_str, field_str_list, format_item, format_items_from,
    str_items_from, str_list, encode_message, json_format_list, json_opt_str, json_opt_str_list,
    json_opt_u64, json_str_list, optional_member, tag_member,
};

verus! {

/// An RRP message.
#[derive(Debug, Clone, PartialEq)]
pub enum RrpMessage {
    /// Viewer → Renderer: version negotiation.
    Start { version: Vec<String>, name: Option<String> },
    /// Renderer → Viewer: capabilities and version confirmation.
    Init {
        version: String,
        name: Option<String>,
        auth: AuthMode,
        auth_endpoint: Option<String>,
        stream: StreamCaps,
        input: InputCaps,
        extensions: Option<Vec<String>>,
    },
    /// Viewer → Renderer: format selection and auth.
    Join { stream: StreamSelection, extensions: Option<Vec<String>>, token: Option<String> },
    /// Renderer → Viewer: stream URL and confirmed extensions.
    StreamReady { format: StreamFormat, url: String, extensions: Option<Vec<String>> },
    /// Input event (viewer → renderer).
    Key { key: String, state: KeyState },
    /// Extension event (bidirectional).
    Ext { ext: String, data: JsonValue },
    /// Stream URL update (renderer → viewer).
    StreamUpdate { url: String },
    /// Notification (renderer → viewer).
    Notify { message: String, duration: Option<u64> },
    /// Alert (either direction).
    Alert { severity: Severity, message: String },
    /// A message of a kind this crate does not know; the protocol says it
    /// must be silently ignored.
    Unknown,
}

/// The mathematical form of an RRP message: strings as character sequences,
/// lists as sequences.
pub enum SpecMessage {
    Start { version: Seq<Seq<char>>, name: Option<Seq<char>> },
    Init {
        version: Seq<char>,
        name: Option<Seq<char>>,
        auth: AuthMode,
        auth_endpoint: Option<Seq<char>>,
        stream: Seq<StreamFormat>,
        input: Seq<Seq<char>>,
        extensions: Option<Seq<Seq<char>>>,
    },
    Join { stream: StreamFormat, extensions: Option<Seq<Seq<char>>>, token: Option<Seq<char>> },
    StreamReady { format: StreamFormat, url: Seq<char>, extensions: Option<Seq<Seq<char>>> },
    Key { key: Seq<char>, state: KeyState },
    Ext { ext: Seq<char>, data: SpecJson },
    StreamUpdate { url: Seq<char> },
    Notify { message: Seq<char>, duration: Option<u64> },
    Alert { severity: Severity, message: Seq<char> },
    Unknown,
}

impl View for RrpMessage {
    type V = SpecMessage;

    open spec fn view(&self) -> SpecMessage {
        match self {
            RrpMessage::Start { version, name } => SpecMessage::Start {
                version: version.deep_view(),
                name: name.deep_view(),
            },
            RrpMessage::Init { version, name, auth, auth_endpoint, stream, input, extensions } => {
                SpecMessage::Init {
                    version: version@,
                    name: name.deep_view(),
                    auth: *auth,
                    auth_endpoint: auth_endpoint.deep_view(),
                    stream: stream@,
                    input: input@,
                    extensions: extensions.deep_view(),
                }
            },
            RrpMessage::Join { stream, extensions, token } => SpecMessage::Join {
                stream: stream.selected,
                extensions: extensions.deep_view(),
                token: token.deep_view(),
            },
            RrpMessage::StreamReady { format, url, extensions } => SpecMessage::StreamReady {
                format: *format,
                url: url@,
                extensions: extensions.deep_view(),
            },
            RrpMessage::Key { key, state } => SpecMessage::Key { key: key@, state: *state },
            RrpMessage::Ext { ext, data } => SpecMessage::Ext { ext: ext@, data: data@ },
            RrpMessage::StreamUpdate { url } => SpecMessage::StreamUpdate { url: url@ },
            RrpMessage::Notify { message, duration } => SpecMessage::Notify {
                message: message@,
                duration: *duration,
            },
            RrpMessage::Alert { severity, message } => SpecMessage::Alert {
                severity: *severity,
                message: message@,
            },
            RrpMessage::Unknown => SpecMessage::Unknown,
        }
    }
}


// ---------------------------------------------------------------------------
// Reading fields
// ---------------------------------------------------------------------------

/// A required string field.
fn read_str(ms: &Vec<(String, JsonValue)>, key: &str) -> (r: Result<String, DecodeError>)
    ensures
        match field_str(members_view(*ms), key@) {
            Ok(s) => r is Ok && r->Ok_0@ == s,
            Err(e) => r == Err::<String, DecodeError>(e),
        },
{
    match find_in_members(ms, key) {
        None => Err(DecodeError::MissingField),
        Some(JsonValue::Str(s)) => Ok(s.clone()),
        Some(_) => Err(DecodeError::WrongType),
    }
}

/// An optional string field.
fn read_opt_str(ms: &Vec<(String, JsonValue)>, key: &str) -> (r: Result<Option<String>, DecodeError>)
    ensures
        match field_opt_str(members_view(*ms), key@) {
            Ok(o) => r is Ok && r->Ok_0.deep_view() == o,
            Err(e) => r == Err::<Option<String>, DecodeError>(e),
        },
{
    match find_in_members(ms, key) {
        None => Ok(None),
        Some(JsonValue::Null) => Ok(None),
        Some(JsonValue::Str(s)) => Ok(Some(s.clone())),
        Some(_) => Err(DecodeError::WrongType),
    }
}

/// An optional count field.
fn read_opt_u64(ms: &Vec<(String, JsonValue)>, key: &str) -> (r: Result<Option<u64>, DecodeError>)
    ensures
        match field_opt_u64(members_view(*ms), key@) {
            Ok(o) => r == Ok::<Option<u64>, DecodeError>(o),
            Err(e) => r == Err::<Option<u64>, DecodeError>(e),
        },
{
    match find_in_members(ms, key) {
        None => Ok(None),
        Some(JsonValue::Null) => Ok(None),
        Some(JsonValue::UInt(n)) => Ok(Some(*n)),
        Some(_) => Err(DecodeError::WrongType),
    }
}

/// A required field of any JSON value.
fn read_any(ms: &Vec<(String, JsonValue)>, key: &str) -> (r: Result<JsonValue, DecodeError>)
    ensures
        match field_any(members_view(*ms), key@) {
            Ok(v) => r is Ok && r->Ok_0@ == v,
            Err(e) => r is Err && r->Err_0 == e,
        },
{
    match find_in_members(ms, key) {
        None => Err(DecodeError::MissingField),
        Some(v) => Ok(v.duplicate()),
    }
}

/// A required object field, as its members.
fn read_object<'a>(ms: &'a Vec<(String, JsonValue)>, key: &str) -> (r: Result<&'a Vec<(String, JsonValue)>, DecodeError>)
    ensures
        match field_object(members_view(*ms), key@) {
            Ok(inner) => r is Ok && members_view(*r->Ok_0) == inner,
            Err(e) => r is Err && r->Err_0 == e,
        },
{
    match find_in_members(ms, key) {
        None => Err(DecodeError::MissingField),
        Some(JsonValue::Object(inner)) => Ok(inner),
        Some(_) => Err(DecodeError::WrongType),
    }
}

/// A JSON array of strings, as its strings.
fn read_str_list(v: &JsonValue) -> (r: Result<Vec<String>, DecodeError>)
    ensures
        match str_list(v@) {
            Ok(l) => r is Ok && r->Ok_0.deep_view() == l,
            Err(e) => r is Err && r->Err_0 == e,
        },
{
    match v {
        JsonValue::Array(items) => {
            let ghost sitems = json_view(JsonValue::Array(*items))->Array_0;
            let mut out: Vec<String> = Vec::new();
            let mut i: usize = 0;
            assert(out.deep_view() =~= Seq::<Seq<char>>::empty());
            while i < items.len()
                invariant
                    i <= items.len(),
                    sitems == json_view(JsonValue::Array(*items))->Array_0,
                    v@ == SpecJson::Array(sitems),
                    str_items_from(sitems, 0) == match str_items_from(sitems, i as int) {
                        Ok(rest) => Ok(out.deep_view() + rest),
                        Err(e) => Err::<Seq<Seq<char>>, DecodeError>(e),
                    },
                decreases items.len() - i,
            {
                assert(sitems[i as int] == json_view(items[i as int]));
                match &items[i] {
                    JsonValue::Str(s) => {
                        let ghost before = out.deep_view();
                        out.push(s.clone());
                        proof {
                            assert(out.deep_view() =~= before.push(s@));
                            match str_items_from(sitems, i + 1) {
                                Ok(rest) => {
                                    assert(before + (seq![s@] + rest) =~= out.deep_view() + rest);
                                },
                                Err(e) => {},
                            }
                        }
                    },
                    _ => {
                        return Err(DecodeError::WrongType);
                    },
                }
                i = i + 1;
            }
            assert(out.deep_view() + Seq::<Seq<char>>::empty() =~= out.deep_view());
            Ok(out)
        },
        _ => Err(DecodeError::WrongType),
    }
}

/// A required string list field.
fn read_str_list_field(ms: &Vec<(String, JsonValue)>, key: &str) -> (r: Result<Vec<String>, DecodeError>)
    ensures
        match field_str_list(members_view(*ms), key@) {
            Ok(l) => r is Ok && r->Ok_0.deep_view() == l,
            Err(e) => r is Err && r->Err_0 == e,
        },
{
    match find_in_members(ms, key) {
        None => Err(DecodeError::MissingField),
        Some(v) => read_str_list(v),
    }
}

/// An optional string list field.
fn read_opt_str_list(ms: &Vec<(String, JsonValue)>, key: &str) -> (r: Result<Option<Vec<String>>, DecodeError>)
    ensures
        match field_opt_str_list(members_view(*ms), key@) {
            Ok(o) => r is Ok && r->Ok_0.deep_view() == o,
            Err(e) => r is Err && r->Err_0 == e,
        },
{
    match find_in_members(ms, key) {
        None => Ok(None),
        Some(JsonValue::Null) => Ok(None),
        Some(v) => match read_str_list(v) {
            Ok(l) => Ok(Some(l)),
            Err(e) => Err(e),
        },
    }
}

/// One stream format named by a JSON string.
fn read_format(v: &JsonValue) -> (r: Result<StreamFormat, DecodeError>)
    ensures
        r == format_item(v@),
{
    match v {
        JsonValue::Str(s) => match StreamFormat::from_name(s.as_str()) {
            Some(f) => Ok(f),
            None => Err(DecodeError::UnknownValue),
        },
        _ => Err(DecodeError::WrongType),
    }
}

/// A required stream format field.
fn read_format_field(ms: &Vec<(String, JsonValue)>, key: &str) -> (r: Result<StreamFormat, DecodeError>)
    ensures
        r == field_format(members_view(*ms), key@),
{
    match find_in_members(ms, key) {
        None => Err(DecodeError::MissingField),
        Some(v) => read_format(v),
    }
}

/// A required stream format list field.
fn read_format_list_field(ms: &Vec<(String, JsonValue)>, key: &str) -> (r: Result<Vec<StreamFormat>, DecodeError>)
    ensures
        match field_format_list(members_view(*ms), key@) {
            Ok(l) => r is Ok && r->Ok_0@ == l,
            Err(e) => r is Err && r->Err_0 == e,
        },
{
    match find_in_members(ms, key) {
        None => Err(DecodeError::MissingField),
        Some(JsonValue::Array(items)) => {
            let ghost sitems = json_view(JsonValue::Array(*items))->Array_0;
            let mut out: Vec<StreamFormat> = Vec::new();
            let mut i: usize = 0;
            assert(out@ =~= Seq::<StreamFormat>::empty());
            while i < items.len()
                invariant
                    i <= items.len(),
                    sitems == json_view(JsonValue::Array(*items))->Array_0,
                    find_member(members_view(*ms), key@) == Some(SpecJson::Array(sitems)),
                    format_items_from(sitems, 0) == match format_items_from(sitems, i as int) {
                        Ok(rest) => Ok(out@ + rest),
                        Err(e) => Err::<Seq<StreamFormat>, DecodeError>(e),
                    },
                decreases items.len() - i,
            {
                assert(sitems[i as int] == json_view(items[i as int]));
                let f = read_format(&items[i]);
                match f {
                    Ok(f) => {
                        let ghost before = out@;
                        out.push(f);
                        proof {
                            match format_items_from(sitems, i + 1) {
                                Ok(rest) => {
                                    assert(before + (seq![f] + rest) =~= out@ + rest);
                                },
                                Err(e) => {},
                            }
                        }
                    },
                    Err(e) => {
                        return Err(e);
                    },
                }
                i = i + 1;
            }
            assert(out@ + Seq::<StreamFormat>::empty() =~= out@);
            Ok(out)
        },
        Some(_) => Err(DecodeError::WrongType),
    }
}

/// A required authentication mode field.
fn read_auth(ms: &Vec<(String, JsonValue)>, key: &str) -> (r: Result<AuthMode, DecodeError>)
    ensures
        r == field_auth(members_view(*ms), key@),
{
    match find_in_members(ms, key) {
        None => Err(DecodeError::MissingField),
        Some(JsonValue::Str(s)) => match AuthMode::from_name(s.as_str()) {
            Some(a) => Ok(a),
            None => Err(DecodeError::UnknownValue),
        },
        Some(_) => Err(DecodeError::WrongType),
    }
}

/// A required key state field.
fn read_key_state(ms: &Vec<(String, JsonValue)>, key: &str) -> (r: Result<KeyState, DecodeError>)
    ensures
        r == field_key_state(members_view(*ms), key@),
{
    match find_in_members(ms, key) {
        None => Err(DecodeError::MissingField),
        Some(JsonValue::Str(s)) => match KeyState::from_name(s.as_str()) {
            Some(k) => Ok(k),
            None => Err(DecodeError::UnknownValue),
        },
        Some(_) => Err(DecodeError::WrongType),
    }
}

/// A required severity field.
fn read_severity(ms: &Vec<(String, JsonValue)>, key: &str) -> (r: Result<Severity, DecodeError>)
    ensures
        r == field_severity(members_view(*ms), key@),
{
    match find_in_members(ms, key) {
        None => Err(DecodeError::MissingField),
        Some(JsonValue::Str(s)) => match Severity::from_name(s.as_str()) {
            Some(k) => Ok(k),
            None => Err(DecodeError::UnknownValue),
        },
        Some(_) => Err(DecodeError::WrongType),
    }
}

// ---------------------------------------------------------------------------
// Reading messages
// ---------------------------------------------------------------------------

/// The fields of a `start` message.
fn read_start(ms: &Vec<(String, JsonValue)>) -> (r: Result<RrpMessage, DecodeError>)
    ensures
        match decode_start(members_view(*ms)) {
            Ok(m) => r is Ok && r->Ok_0@ == m,
            Err(e) => r is Err && r->Err_0 == e,
        },
{
    let version = match read_str_list_field(ms, "version") {
        Ok(v) => v,
        Err(e) => return Err(e),
    };
    let name = match read_opt_str(ms, "name") {
        Ok(v) => v,
        Err(e) => return Err(e),
    };
    Ok(RrpMessage::Start { version, name })
}

/// The fields of an `init` message.
fn read_init(ms: &Vec<(String, JsonValue)>) -> (r: Result<RrpMessage, DecodeError>)
    ensures
        match decode_init(members_view(*ms)) {
            Ok(m) => r is Ok && r->Ok_0@ == m,
            Err(e) => r is Err && r->Err_0 == e,
        },
{
    let version = match read_str(ms, "version") {
        Ok(v) => v,
        Err(e) => return Err(e),
    };
    let name = match read_opt_str(ms, "name") {
        Ok(v) => v,
        Err(e) => return Err(e),
    };
    let auth = match read_auth(ms, "auth") {
        Ok(v) => v,
        Err(e) => return Err(e),
    };
    let auth_endpoint = match read_opt_str(ms, "auth_endpoint") {
        Ok(v) => v,
        Err(e) => return Err(e),
    };
    let stream_members = match read_object(ms, "stream") {
        Ok(v) => v,
        Err(e) => return Err(e),
    };
    let supported = match read_format_list_field(stream_members, "supported") {
        Ok(v) => v,
        Err(e) => return Err(e),
    };
    assert(decode_stream_caps(members_view(*ms)) == Ok::<Seq<StreamFormat>, DecodeError>(supported@));
    let input_members = match read_object(ms, "input") {
        Ok(v) => v,
        Err(e) => return Err(e),
    };
    let keys = match read_str_list_field(input_members, "keys") {
        Ok(v) => v,
        Err(e) => return Err(e),
    };
    assert(decode_input_caps(members_view(*ms)) == Ok::<Seq<Seq<char>>, DecodeError>(keys.deep_view()));
    let extensions = match read_opt_str_list(ms, "extensions") {
        Ok(v) => v,
        Err(e) => return Err(e),
    };
    Ok(
        RrpMessage::Init {
            version,
            name,
            auth,
            auth_endpoint,
            stream: StreamCaps { supported },
            input: InputCaps { keys },
            extensions,
        },
    )
}

/// The fields of a `join` message.
fn read_join(ms: &Vec<(String, JsonValue)>) -> (r: Result<RrpMessage, DecodeError>)
    ensures
        match decode_join(members_view(*ms)) {
            Ok(m) => r is Ok && r->Ok_0@ == m,
            Err(e) => r is Err && r->Err_0 == e,
        },
{
    let stream_members = match read_object(ms, "stream") {
        Ok(v) => v,
        Err(e) => return Err(e),
    };
    let selected = match read_format_field(stream_members, "selected") {
        Ok(v) => v,
        Err(e) => return Err(e),
    };
    assert(decode_stream_selection(members_view(*ms)) == Ok::<StreamFormat, DecodeError>(selected));
    let extensions = match read_opt_str_list(ms, "extensions") {
        Ok(v) => v,
        Err(e) => return Err(e),
    };
    let token = match read_opt_str(ms, "token") {
        Ok(v) => v,
        Err(e) => return Err(e),
    };
    Ok(RrpMessage::Join { stream: StreamSelection { selected }, extensions, token })
}

/// The fields of a `stream_ready` message.
fn read_stream_ready(ms: &Vec<(String, JsonValue)>) -> (r: Result<RrpMessage, DecodeError>)
    ensures
        match decode_stream_ready(members_view(*ms)) {
            Ok(m) => r is Ok && r->Ok_0@ == m,
            Err(e) => r is Err && r->Err_0 == e,
        },
{
    let format = match read_format_field(ms, "format") {
        Ok(v) => v,
        Err(e) => return Err(e),
    };
    let url = match read_str(ms, "url") {
        Ok(v) => v,
        Err(e) => return Err(e),
    };
    let extensions = match read_opt_str_list(ms, "extensions") {
        Ok(v) => v,
        Err(e) => return Err(e),
    };
    Ok(RrpMessage::StreamReady { format, url, extensions })
}

/// The fields of a `key` message.
fn read_key(ms: &Vec<(String, JsonValue)>) -> (r: Result<RrpMessage, DecodeError>)
    ensures
        match decode_key(members_view(*ms)) {
            Ok(m) => r is Ok && r->Ok_0@ == m,
            Err(e) => r is Err && r->Err_0 == e,
        },
{
    let key = match read_str(ms, "key") {
        Ok(v) => v,
        Err(e) => return Err(e),
    };
    let state = match read_key_state(ms, "state") {
        Ok(v) => v,
        Err(e) => return Err(e),
    };
    Ok(RrpMessage::Key { key, state })
}

/// The fields of an `ext` message.
fn read_ext(ms: &Vec<(String, JsonValue)>) -> (r: Result<RrpMessage, DecodeError>)
    ensures
        match decode_ext(members_view(*ms)) {
            Ok(m) => r is Ok && r->Ok_0@ == m,
            Err(e) => r is Err && r->Err_0 == e,
        },
{
    let ext = match read_str(ms, "ext") {
        Ok(v) => v,
        Err(e) => return Err(e),
    };
    let data = match read_any(ms, "data") {
        Ok(v) => v,
        Err(e) => return Err(e),
    };
    Ok(RrpMessage::Ext { ext, data })
}

/// The fields of a `stream_update` message.
fn read_stream_update(ms: &Vec<(String, JsonValue)>) -> (r: Result<RrpMessage, DecodeError>)
    ensures
        match decode_stream_update(members_view(*ms)) {
            Ok(m) => r is Ok && r->Ok_0@ == m,
            Err(e) => r is Err && r->Err_0 == e,
        },
{
    let url = match read_str(ms, "url") {
        Ok(v) => v,
        Err(e) => return Err(e),
    };
    Ok(RrpMessage::StreamUpdate { url })
}

/// The fields of a `notify` message.
fn read_notify(ms: &Vec<(String, JsonValue)>) -> (r: Result<RrpMessage, DecodeError>)
    ensures
        match decode_notify(members_view(*ms)) {
            Ok(m) => r is Ok && r->Ok_0@ == m,
            Err(e) => r is Err && r->Err_0 == e,
        },
{
    let message = match read_str(ms, "message") {
        Ok(v) => v,
        Err(e) => return Err(e),
    };
    let duration = match read_opt_u64(ms, "duration") {
        Ok(v) => v,
        Err(e) => return Err(e),
    };
    Ok(RrpMessage::Notify { message, duration })
}

/// The fields of an `alert` message.
fn read_alert(ms: &Vec<(String, JsonValue)>) -> (r: Result<RrpMessage, DecodeError>)
    ensures
        match decode_alert(members_view(*ms)) {
            Ok(m) => r is Ok && r->Ok_0@ == m,
            Err(e) => r is Err && r->Err_0 == e,
        },
{
    let severity = match read_severity(ms, "severity") {
        Ok(v) => v,
        Err(e) => return Err(e),
    };
    let message = match read_str(ms, "message") {
        Ok(v) => v,
        Err(e) => return Err(e),
    };
    Ok(RrpMessage::Alert { severity, message })
}

impl RrpMessage {
    /// Reads a JSON value as a message: it must be an object whose `"type"`
    /// is a string; a known type needs its fields with the right JSON types
    /// (absent or `null` optional fields read as `None`, other members are
    /// ignored), and any other type reads as `Unknown`.
    pub fn from_json_value(j: &JsonValue) -> (r: Result<RrpMessage, DecodeError>)
        ensures
            match decode_message(j@) {
                Ok(m) => r is Ok && r->Ok_0@ == m,
                Err(e) => r is Err && r->Err_0 == e,
            },
    {
        match j {
            JsonValue::Object(ms) => match find_in_members(ms, "type") {
                None => Err(DecodeError::MissingField),
                Some(JsonValue::Str(tag)) => {
                    let tag = tag.as_str();
                    if str_eq(tag, "start") {
                        read_start(ms)
                    } else if str_eq(tag, "init") {
                        read_init(ms)
                    } else if str_eq(tag, "join") {
                        read_join(ms)
                    } else if str_eq(tag, "stream_ready") {
                        read_stream_ready(ms)
                    } else if str_eq(tag, "key") {
                        read_key(ms)
                    } else if str_eq(tag, "ext") {
                        read_ext(ms)
                    } else if str_eq(tag, "stream_update") {
                        read_stream_update(ms)
                    } else if str_eq(tag, "notify") {
                        read_notify(ms)
                    } else if str_eq(tag, "alert") {
                        read_alert(ms)
                    } else {
                        Ok(RrpMessage::Unknown)
                    }
                },
                Some(_) => Err(DecodeError::WrongType),
            },
            _ => Err(DecodeError::NotAnObject),
        }
    }
}

// ---------------------------------------------------------------------------
// Writing messages
// ---------------------------------------------------------------------------

/// A JSON array of strings.
fn write_str_list(l: &Vec<String>) -> (r: JsonValue)
    ensures
        r@ == json_str_list(l.deep_view()),
{
    let mut items: Vec<JsonValue> = Vec::new();
    let mut i: usize = 0;
    while i < l.len()
        invariant
            i <= l.len(),
            items.len() == i,
            forall|j: int| 0 <= j < i ==> #[trigger] json_view(items[j]) == SpecJson::Str(l[j]@),
        decreases l.len() - i,
    {
        items.push(JsonValue::Str(l[i].clone()));
        i = i + 1;
    }
    let ghost expected = json_str_list(l.deep_view())->Array_0;
    assert forall|j: int| 0 <= j < items.len() implies json_view(JsonValue::Array(items))->Array_0[j] == expected[j] by {
        assert(json_view(items[j]) == SpecJson::Str(l[j]@));
    }
    assert(json_view(JsonValue::Array(items))->Array_0 =~= expected);
    JsonValue::Array(items)
}

/// A JSON array of stream format names.
fn write_format_list(l: &Vec<StreamFormat>) -> (r: JsonValue)
    ensures
        r@ == json_format_list(l@),
{
    let mut items: Vec<JsonValue> = Vec::new();
    let mut i: usize = 0;
    while i < l.len()
        invariant
            i <= l.len(),
            items.len() == i,
            forall|j: int| 0 <= j < i ==> #[trigger] json_view(items[j]) == SpecJson::Str(format_name(l[j])),
        decreases l.len() - i,
    {
        items.push(JsonValue::Str(l[i].as_str().to_owned()));
        i = i + 1;
    }
    let ghost expected = json_format_list(l@)->Array_0;
    assert forall|j: int| 0 <= j < items.len() implies json_view(JsonValue::Array(items))->Array_0[j] == expected[j] by {
        assert(json_view(items[j]) == SpecJson::Str(format_name(l[j])));
    }
    assert(json_view(JsonValue::Array(items))->Array_0 =~= expected);
    JsonValue::Array(items)
}

/// An object with the single member `key: value`.
fn single_member_object(key: &str, value: JsonValue) -> (r: JsonValue)
    ensures
        r@ == SpecJson::Object(seq![(key@, value@)]),
{
    let mut ms: Vec<(String, JsonValue)> = Vec::new();
    let ghost empty = members_view(ms);
    assert(empty =~= Seq::<(Seq<char>, SpecJson)>::empty());
    push_member(&mut ms, key, value);
    JsonValue::Object(ms)
}

/// Adds `key: value` when there is a string value.
fn push_opt_str(ms: &mut Vec<(String, JsonValue)>, key: &str, value: &Option<String>)
    ensures
        members_view(*final(ms)) == members_view(*old(ms)) + optional_member(key@, json_opt_str(value.deep_view())),
{
    let ghost before = members_view(*ms);
    match value {
        Some(s) => {
            push_member(ms, key, JsonValue::Str(s.clone()));
            assert(members_view(*ms) =~= before + optional_member(key@, json_opt_str(value.deep_view())));
        },
        None => {
            assert(before =~= before + optional_member(key@, json_opt_str(value.deep_view())));
        },
    }
}

/// Adds `key: value` when there is a string list value.
fn push_opt_str_list(ms: &mut Vec<(String, JsonValue)>, key: &str, value: &Option<Vec<String>>)
    ensures
        members_view(*final(ms)) == members_view(*old(ms)) + optional_member(key@, json_opt_str_list(value.deep_view())),
{
    let ghost before = members_view(*ms);
    match value {
        Some(l) => {
            push_member(ms, key, write_str_list(l));
            assert(members_view(*ms) =~= before + optional_member(key@, json_opt_str_list(value.deep_view())));
        },
        None => {
            assert(before =~= before + optional_member(key@, json_opt_str_list(value.deep_view())));
        },
    }
}

impl RrpMessage {
    /// The JSON object of this message: `"type"` first, then the fields in
    /// their declared order, absent optional fields left out.
    pub fn to_json_value(&self) -> (r: JsonValue)
        ensures
            r@ == encode_message(self@),
    {
        let mut ms: Vec<(String, JsonValue)> = Vec::new();
        let ghost empty = members_view(ms);
        assert(empty =~= Seq::<(Seq<char>, SpecJson)>::empty());
        let ghost t = seq![tag_member(self@)];
        match self {
            RrpMessage::Start { version, name } => {
                push_member(&mut ms, "type", JsonValue::Str("start".to_owned()));
                push_member(&mut ms, "version", write_str_list(version));
                push_opt_str(&mut ms, "name", name);
            },
            RrpMessage::Init { version, name, auth, auth_endpoint, stream, input, extensions } => {
                push_member(&mut ms, "type", JsonValue::Str("init".to_owned()));
                push_member(&mut ms, "version", JsonValue::Str(version.clone()));
                push_opt_str(&mut ms, "name", name);
                push_member(&mut ms, "auth", JsonValue::Str(auth.as_str().to_owned()));
                push_opt_str(&mut ms, "auth_endpoint", auth_endpoint);
                push_member(
                    &mut ms,
                    "stream",
                    single_member_object("supported", write_format_list(&stream.supported)),
                );
                push_member(
                    &mut ms,
                    "input",
                    single_member_object("keys", write_str_list(&input.keys)),
                );
                push_opt_str_list(&mut ms, "extensions", extensions);
            },
            RrpMessage::Join { stream, extensions, token } => {
                push_member(&mut ms, "type", JsonValue::Str("join".to_owned()));
                push_member(
                    &mut ms,
                    "stream",
                    single_member_object("selected", JsonValue::Str(stream.selected.as_str().to_owned())),
                );
                push_opt_str_list(&mut ms, "extensions", extensions);
                push_opt_str(&mut ms, "token", token);
            },
            RrpMessage::StreamReady { format, url, extensions } => {
                push_member(&mut ms, "type", JsonValue::Str("stream_ready".to_owned()));
                push_member(&mut ms, "format", JsonValue::Str(format.as_str().to_owned()));
                push_member(&mut ms, "url", JsonValue::Str(url.clone()));
                push_opt_str_list(&mut ms, "extensions", extensions);
            },
            RrpMessage::Key { key, state } => {
                push_member(&mut ms, "type", JsonValue::Str("key".to_owned()));
                push_member(&mut ms, "key", JsonValue::Str(key.clone()));
                push_member(&mut ms, "state", JsonValue::Str(state.as_str().to_owned()));
            },
            RrpMessage::Ext { ext, data } => {
                push_member(&mut ms, "type", JsonValue::Str("ext".to_owned()));
                push_member(&mut ms, "ext", JsonValue::Str(ext.clone()));
                push_member(&mut ms, "data", data.duplicate());
            },
            RrpMessage::StreamUpdate { url } => {
                push_member(&mut ms, "type", JsonValue::Str("stream_update".to_owned()));
                push_member(&mut ms, "url", JsonValue::Str(url.clone()));
            },
            RrpMessage::Notify { message, duration } => {
                push_member(&mut ms, "type", JsonValue::Str("notify".to_owned()));
                push_member(&mut ms, "message", JsonValue::Str(message.clone()));
                let ghost before = members_view(ms);
                match duration {
                    Some(d) => {
                        push_member(&mut ms, "duration", JsonValue::UInt(*d));
                    },
                    None => {},
                }
                assert(members_view(ms) =~= before + optional_member("duration"@, json_opt_u64(*duration)));
            },
            RrpMessage::Alert { severity, message } => {
                push_member(&mut ms, "type", JsonValue::Str("alert".to_owned()));
                push_member(&mut ms, "severity", JsonValue::Str(severity.as_str().to_owned()));
                push_member(&mut ms, "message", JsonValue::Str(message.clone()));
            },
            RrpMessage::Unknown => {
                push_member(&mut ms, "type", JsonValue::Str("unknown".to_owned()));
            },
        }
        let r = JsonValue::Object(ms);
        assert(r@->Object_0 =~= encode_message(self@)->Object_0);
        r
    }
}

impl RrpMessage {
    /// Parses a JSON text into a message.
    ///
    /// The text must be well-formed JSON (as serde_json reads it) whose value
    /// reads as a message (see `from_json_value`); otherwise the error is
    /// `RrpError::Json`.
    pub fn parse(json: &str) -> (r: Result<RrpMessage, RrpError>)
        ensures
            match spec_parse_json_text(json@) {
                None => r matches Err(RrpError::Json(_)),
                Some(j) => match decode_message(j) {
                    Ok(m) => r is Ok && r->Ok_0@ == m,
                    Err(_) => r matches Err(RrpError::Json(_)),
                },
            },
    {
        let value = match parse_json_text(json) {
            Ok(v) => v,
            Err(e) => return Err(RrpError::from(e)),
        };
        match RrpMessage::from_json_value(&value) {
            Ok(m) => Ok(m),
            Err(e) => Err(RrpError::from(json_error(e.describe()))),
        }
    }

    /// Serializes this message to a JSON text: the text serde_json writes for
    /// the message's JSON object. Parsing that text gives this message back,
    /// for every message but an `ext` whose data serde_json would not read
    /// back as written (see `message_reads_back`).
    pub fn to_json(&self) -> (r: Result<String, RrpError>)
        ensures
            r is Ok,
            r matches Ok(s) ==> s@ == spec_render_json_text(encode_message(self@)),
            r matches Ok(s) ==> (message_reads_back(self@) ==> text_reads_as(s@) == Some(self@)),
    {
        let value = self.to_json_value();
        proof {
            if message_reads_back(self@) {
                lemma_message_reads_back(self@);
                lemma_decode_encode(self@);
            }
        }
        match render_json_text(&value) {
            Ok(s) => Ok(s),
            Err(e) => Err(RrpError::Json(e)),
        }
    }
}

} // verus!
