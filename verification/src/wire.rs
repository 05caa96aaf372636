//! The JSON form of RRP messages, as mathematics: what a message is written
//! as, what a JSON value reads as, and the proof that reading gives back
//! what was written.

use vstd::prelude::*;

use crate::error::DecodeError;
use crate::json::{
    find_member, json_depth_limit, json_reads_back, needs_no_escape, lemma_find_member_concat,
    lemma_find_member_empty, lemma_find_member_push, lemma_names_distinct_push, names_distinct,
    SpecJson,
};
use crate::message::SpecMessage;
use crate::types::{
    auth_mode_from_name, auth_mode_name, format_from_name, format_name, key_state_from_name,
    key_state_name, lemma_auth_mode_name_roundtrip, lemma_format_name_roundtrip,
    lemma_key_state_name_roundtrip, lemma_severity_name_roundtrip, severity_from_name,
    severity_name, AuthMode, KeyState, Severity, StreamFormat,
};

verus! {

/// The value of the `"type"` member of a message of this kind.
pub open spec fn tag_name(m: SpecMessage) -> Seq<char> {
    match m {
        SpecMessage::Start { .. } => "start"@,
        SpecMessage::Init { .. } => "init"@,
        SpecMessage::Join { .. } => "join"@,
        SpecMessage::StreamReady { .. } => "stream_ready"@,
        SpecMessage::Key { .. } => "key"@,
        SpecMessage::Ext { .. } => "ext"@,
        SpecMessage::StreamUpdate { .. } => "stream_update"@,
        SpecMessage::Notify { .. } => "notify"@,
        SpecMessage::Alert { .. } => "alert"@,
        SpecMessage::Unknown => "unknown"@,
    }
}

// ---------------------------------------------------------------------------
// Writing: a message as a JSON value
// ---------------------------------------------------------------------------

/// A JSON string.
pub open spec fn json_str(s: Seq<char>) -> SpecJson {
    SpecJson::Str(s)
}

/// A JSON array of strings.
pub open spec fn json_str_list(l: Seq<Seq<char>>) -> SpecJson {
    SpecJson::Array(l.map_values(|s: Seq<char>| SpecJson::Str(s)))
}

/// A JSON array of stream format names.
pub open spec fn json_format_list(l: Seq<StreamFormat>) -> SpecJson {
    SpecJson::Array(l.map_values(|f: StreamFormat| SpecJson::Str(format_name(f))))
}

/// The member `key: value` when there is a value; nothing otherwise.
pub open spec fn optional_member(key: Seq<char>, value: Option<SpecJson>) -> Seq<(Seq<char>, SpecJson)> {
    match value {
        Some(v) => seq![(key, v)],
        None => seq![],
    }
}

/// An optional string as an optional JSON string.
pub open spec fn json_opt_str(o: Option<Seq<char>>) -> Option<SpecJson> {
    match o {
        Some(s) => Some(json_str(s)),
        None => None,
    }
}

/// An optional string list as an optional JSON array.
pub open spec fn json_opt_str_list(o: Option<Seq<Seq<char>>>) -> Option<SpecJson> {
    match o {
        Some(l) => Some(json_str_list(l)),
        None => None,
    }
}

/// An optional count as an optional JSON number.
pub open spec fn json_opt_u64(o: Option<u64>) -> Option<SpecJson> {
    match o {
        Some(n) => Some(SpecJson::UInt(n)),
        None => None,
    }
}

/// The `"type"` member of a message.
pub open spec fn tag_member(m: SpecMessage) -> (Seq<char>, SpecJson) {
    ("type"@, json_str(tag_name(m)))
}

/// The JSON object of a message: `"type"` first, then the fields in their
/// declared order, absent optional fields left out.
pub open spec fn encode_message(m: SpecMessage) -> SpecJson {
    let t = seq![tag_member(m)];
    SpecJson::Object(
        match m {
            SpecMessage::Start { version, name } => t.push(("version"@, json_str_list(version)))
                + optional_member("name"@, json_opt_str(name)),
            SpecMessage::Init { version, name, auth, auth_endpoint, stream, input, extensions } => {
                t.push(("version"@, json_str(version))) + optional_member("name"@, json_opt_str(name))
                    + seq![("auth"@, json_str(auth_mode_name(auth)))] + optional_member(
                    "auth_endpoint"@,
                    json_opt_str(auth_endpoint),
                ) + seq![
                    ("stream"@, SpecJson::Object(seq![("supported"@, json_format_list(stream))])),
                ].push(("input"@, SpecJson::Object(seq![("keys"@, json_str_list(input))])))
                    + optional_member("extensions"@, json_opt_str_list(extensions))
            },
            SpecMessage::Join { stream, extensions, token } => t.push(
                ("stream"@, SpecJson::Object(seq![("selected"@, json_str(format_name(stream)))])),
            ) + optional_member("extensions"@, json_opt_str_list(extensions)) + optional_member(
                "token"@,
                json_opt_str(token),
            ),
            SpecMessage::StreamReady { format, url, extensions } => t.push(
                ("format"@, json_str(format_name(format))),
            ).push(("url"@, json_str(url))) + optional_member(
                "extensions"@,
                json_opt_str_list(extensions),
            ),
            SpecMessage::Key { key, state } => t.push(("key"@, json_str(key))).push(
                ("state"@, json_str(key_state_name(state))),
            ),
            SpecMessage::Ext { ext, data } => t.push(("ext"@, json_str(ext))).push(("data"@, data)),
            SpecMessage::StreamUpdate { url } => t.push(("url"@, json_str(url))),
            SpecMessage::Notify { message, duration } => t.push(("message"@, json_str(message)))
                + optional_member("duration"@, json_opt_u64(duration)),
            SpecMessage::Alert { severity, message } => t.push(
                ("severity"@, json_str(severity_name(severity))),
            ).push(("message"@, json_str(message))),
            SpecMessage::Unknown => t,
        },
    )
}

// ---------------------------------------------------------------------------
// Reading: a JSON value as a message
// ---------------------------------------------------------------------------

/// A required string field.
pub open spec fn field_str(ms: Seq<(Seq<char>, SpecJson)>, key: Seq<char>) -> Result<Seq<char>, DecodeError> {
    match find_member(ms, key) {
        None => Err(DecodeError::MissingField),
        Some(SpecJson::Str(s)) => Ok(s),
        Some(_) => Err(DecodeError::WrongType),
    }
}

/// An optional string field: absent or `null` reads as `None`.
pub open spec fn field_opt_str(ms: Seq<(Seq<char>, SpecJson)>, key: Seq<char>) -> Result<Option<Seq<char>>, DecodeError> {
    match find_member(ms, key) {
        None => Ok(None),
        Some(SpecJson::Null) => Ok(None),
        Some(SpecJson::Str(s)) => Ok(Some(s)),
        Some(_) => Err(DecodeError::WrongType),
    }
}

/// An optional count field: absent or `null` reads as `None`; a count is a
/// non-negative integer.
pub open spec fn field_opt_u64(ms: Seq<(Seq<char>, SpecJson)>, key: Seq<char>) -> Result<Option<u64>, DecodeError> {
    match find_member(ms, key) {
        None => Ok(None),
        Some(SpecJson::Null) => Ok(None),
        Some(SpecJson::UInt(n)) => Ok(Some(n)),
        Some(_) => Err(DecodeError::WrongType),
    }
}

/// A required field of any JSON value.
pub open spec fn field_any(ms: Seq<(Seq<char>, SpecJson)>, key: Seq<char>) -> Result<SpecJson, DecodeError> {
    match find_member(ms, key) {
        None => Err(DecodeError::MissingField),
        Some(v) => Ok(v),
    }
}

/// A required object field, as its members.
pub open spec fn field_object(ms: Seq<(Seq<char>, SpecJson)>, key: Seq<char>) -> Result<Seq<(Seq<char>, SpecJson)>, DecodeError> {
    match find_member(ms, key) {
        None => Err(DecodeError::MissingField),
        Some(SpecJson::Object(inner)) => Ok(inner),
        Some(_) => Err(DecodeError::WrongType),
    }
}

/// One element of a string list.
pub open spec fn str_item(v: SpecJson) -> Result<Seq<char>, DecodeError> {
    match v {
        SpecJson::Str(s) => Ok(s),
        _ => Err(DecodeError::WrongType),
    }
}

/// The strings of `items` from position `i` on; the first element that is
/// not a string decides the error.
pub open spec fn str_items_from(items: Seq<SpecJson>, i: int) -> Result<Seq<Seq<char>>, DecodeError>
    decreases items.len() - i,
{
    if i < 0 || i >= items.len() {
        Ok(seq![])
    } else {
        match str_item(items[i]) {
            Err(e) => Err(e),
            Ok(s) => match str_items_from(items, i + 1) {
                Ok(rest) => Ok(seq![s] + rest),
                Err(e) => Err(e),
            },
        }
    }
}

/// A JSON array of strings, as its strings.
pub open spec fn str_list(v: SpecJson) -> Result<Seq<Seq<char>>, DecodeError> {
    match v {
        SpecJson::Array(items) => str_items_from(items, 0),
        _ => Err(DecodeError::WrongType),
    }
}

/// A required string list field.
pub open spec fn field_str_list(ms: Seq<(Seq<char>, SpecJson)>, key: Seq<char>) -> Result<Seq<Seq<char>>, DecodeError> {
    match find_member(ms, key) {
        None => Err(DecodeError::MissingField),
        Some(v) => str_list(v),
    }
}

/// An optional string list field: absent or `null` reads as `None`.
pub open spec fn field_opt_str_list(ms: Seq<(Seq<char>, SpecJson)>, key: Seq<char>) -> Result<Option<Seq<Seq<char>>>, DecodeError> {
    match find_member(ms, key) {
        None => Ok(None),
        Some(SpecJson::Null) => Ok(None),
        Some(v) => match str_list(v) {
            Ok(l) => Ok(Some(l)),
            Err(e) => Err(e),
        },
    }
}

/// One element of a stream format list.
pub open spec fn format_item(v: SpecJson) -> Result<StreamFormat, DecodeError> {
    match v {
        SpecJson::Str(s) => match format_from_name(s) {
            Some(f) => Ok(f),
            None => Err(DecodeError::UnknownValue),
        },
        _ => Err(DecodeError::WrongType),
    }
}

/// The stream formats of `items` from position `i` on; the first element
/// that is not a format name decides the error.
pub open spec fn format_items_from(items: Seq<SpecJson>, i: int) -> Result<Seq<StreamFormat>, DecodeError>
    decreases items.len() - i,
{
    if i < 0 || i >= items.len() {
        Ok(seq![])
    } else {
        match format_item(items[i]) {
            Err(e) => Err(e),
            Ok(f) => match format_items_from(items, i + 1) {
                Ok(rest) => Ok(seq![f] + rest),
                Err(e) => Err(e),
            },
        }
    }
}

/// A required stream format list field.
pub open spec fn field_format_list(ms: Seq<(Seq<char>, SpecJson)>, key: Seq<char>) -> Result<Seq<StreamFormat>, DecodeError> {
    match find_member(ms, key) {
        None => Err(DecodeError::MissingField),
        Some(SpecJson::Array(items)) => format_items_from(items, 0),
        Some(_) => Err(DecodeError::WrongType),
    }
}

/// A required stream format field.
pub open spec fn field_format(ms: Seq<(Seq<char>, SpecJson)>, key: Seq<char>) -> Result<StreamFormat, DecodeError> {
    match find_member(ms, key) {
        None => Err(DecodeError::MissingField),
        Some(v) => format_item(v),
    }
}

/// A required authentication mode field.
pub open spec fn field_auth(ms: Seq<(Seq<char>, SpecJson)>, key: Seq<char>) -> Result<AuthMode, DecodeError> {
    match find_member(ms, key) {
        None => Err(DecodeError::MissingField),
        Some(SpecJson::Str(s)) => match auth_mode_from_name(s) {
            Some(a) => Ok(a),
            None => Err(DecodeError::UnknownValue),
        },
        Some(_) => Err(DecodeError::WrongType),
    }
}

/// A required key state field.
pub open spec fn field_key_state(ms: Seq<(Seq<char>, SpecJson)>, key: Seq<char>) -> Result<KeyState, DecodeError> {
    match find_member(ms, key) {
        None => Err(DecodeError::MissingField),
        Some(SpecJson::Str(s)) => match key_state_from_name(s) {
            Some(k) => Ok(k),
            None => Err(DecodeError::UnknownValue),
        },
        Some(_) => Err(DecodeError::WrongType),
    }
}

/// A required severity field.
pub open spec fn field_severity(ms: Seq<(Seq<char>, SpecJson)>, key: Seq<char>) -> Result<Severity, DecodeError> {
    match find_member(ms, key) {
        None => Err(DecodeError::MissingField),
        Some(SpecJson::Str(s)) => match severity_from_name(s) {
            Some(k) => Ok(k),
            None => Err(DecodeError::UnknownValue),
        },
        Some(_) => Err(DecodeError::WrongType),
    }
}

/// The fields of a `start` message.
pub open spec fn decode_start(ms: Seq<(Seq<char>, SpecJson)>) -> Result<SpecMessage, DecodeError> {
    match field_str_list(ms, "version"@) {
        Err(e) => Err(e),
        Ok(version) => match field_opt_str(ms, "name"@) {
            Err(e) => Err(e),
            Ok(name) => Ok(SpecMessage::Start { version, name }),
        },
    }
}

/// The `supported` formats of the `stream` object of an `init` message.
pub open spec fn decode_stream_caps(ms: Seq<(Seq<char>, SpecJson)>) -> Result<Seq<StreamFormat>, DecodeError> {
    match field_object(ms, "stream"@) {
        Err(e) => Err(e),
        Ok(inner) => field_format_list(inner, "supported"@),
    }
}

/// The `keys` of the `input` object of an `init` message.
pub open spec fn decode_input_caps(ms: Seq<(Seq<char>, SpecJson)>) -> Result<Seq<Seq<char>>, DecodeError> {
    match field_object(ms, "input"@) {
        Err(e) => Err(e),
        Ok(inner) => field_str_list(inner, "keys"@),
    }
}

/// The fields of an `init` message.
pub open spec fn decode_init(ms: Seq<(Seq<char>, SpecJson)>) -> Result<SpecMessage, DecodeError> {
    match field_str(ms, "version"@) {
        Err(e) => Err(e),
        Ok(version) => match field_opt_str(ms, "name"@) {
            Err(e) => Err(e),
            Ok(name) => match field_auth(ms, "auth"@) {
                Err(e) => Err(e),
                Ok(auth) => match field_opt_str(ms, "auth_endpoint"@) {
                    Err(e) => Err(e),
                    Ok(auth_endpoint) => match decode_stream_caps(ms) {
                        Err(e) => Err(e),
                        Ok(stream) => match decode_input_caps(ms) {
                            Err(e) => Err(e),
                            Ok(input) => match field_opt_str_list(ms, "extensions"@) {
                                Err(e) => Err(e),
                                Ok(extensions) => Ok(
                                    SpecMessage::Init {
                                        version,
                                        name,
                                        auth,
                                        auth_endpoint,
                                        stream,
                                        input,
                                        extensions,
                                    },
                                ),
                            },
                        },
                    },
                },
            },
        },
    }
}

/// The `selected` format of the `stream` object of a `join` message.
pub open spec fn decode_stream_selection(ms: Seq<(Seq<char>, SpecJson)>) -> Result<StreamFormat, DecodeError> {
    match field_object(ms, "stream"@) {
        Err(e) => Err(e),
        Ok(inner) => field_format(inner, "selected"@),
    }
}

/// The fields of a `join` message.
pub open spec fn decode_join(ms: Seq<(Seq<char>, SpecJson)>) -> Result<SpecMessage, DecodeError> {
    match decode_stream_selection(ms) {
        Err(e) => Err(e),
        Ok(stream) => match field_opt_str_list(ms, "extensions"@) {
            Err(e) => Err(e),
            Ok(extensions) => match field_opt_str(ms, "token"@) {
                Err(e) => Err(e),
                Ok(token) => Ok(SpecMessage::Join { stream, extensions, token }),
            },
        },
    }
}

/// The fields of a `stream_ready` message.
pub open spec fn decode_stream_ready(ms: Seq<(Seq<char>, SpecJson)>) -> Result<SpecMessage, DecodeError> {
    match field_format(ms, "format"@) {
        Err(e) => Err(e),
        Ok(format) => match field_str(ms, "url"@) {
            Err(e) => Err(e),
            Ok(url) => match field_opt_str_list(ms, "extensions"@) {
                Err(e) => Err(e),
                Ok(extensions) => Ok(SpecMessage::StreamReady { format, url, extensions }),
            },
        },
    }
}

/// The fields of a `key` message.
pub open spec fn decode_key(ms: Seq<(Seq<char>, SpecJson)>) -> Result<SpecMessage, DecodeError> {
    match field_str(ms, "key"@) {
        Err(e) => Err(e),
        Ok(key) => match field_key_state(ms, "state"@) {
            Err(e) => Err(e),
            Ok(state) => Ok(SpecMessage::Key { key, state }),
        },
    }
}

/// The fields of an `ext` message.
pub open spec fn decode_ext(ms: Seq<(Seq<char>, SpecJson)>) -> Result<SpecMessage, DecodeError> {
    match field_str(ms, "ext"@) {
        Err(e) => Err(e),
        Ok(ext) => match field_any(ms, "data"@) {
            Err(e) => Err(e),
            Ok(data) => Ok(SpecMessage::Ext { ext, data }),
        },
    }
}

/// The fields of a `stream_update` message.
pub open spec fn decode_stream_update(ms: Seq<(Seq<char>, SpecJson)>) -> Result<SpecMessage, DecodeError> {
    match field_str(ms, "url"@) {
        Err(e) => Err(e),
        Ok(url) => Ok(SpecMessage::StreamUpdate { url }),
    }
}

/// The fields of a `notify` message.
pub open spec fn decode_notify(ms: Seq<(Seq<char>, SpecJson)>) -> Result<SpecMessage, DecodeError> {
    match field_str(ms, "message"@) {
        Err(e) => Err(e),
        Ok(message) => match field_opt_u64(ms, "duration"@) {
            Err(e) => Err(e),
            Ok(duration) => Ok(SpecMessage::Notify { message, duration }),
        },
    }
}

/// The fields of an `alert` message.
pub open spec fn decode_alert(ms: Seq<(Seq<char>, SpecJson)>) -> Result<SpecMessage, DecodeError> {
    match field_severity(ms, "severity"@) {
        Err(e) => Err(e),
        Ok(severity) => match field_str(ms, "message"@) {
            Err(e) => Err(e),
            Ok(message) => Ok(SpecMessage::Alert { severity, message }),
        },
    }
}

/// Whether `tag` is the `"type"` of one of the message kinds this crate knows.
pub open spec fn is_known_tag(tag: Seq<char>) -> bool {
    ||| tag == "start"@
    ||| tag == "init"@
    ||| tag == "join"@
    ||| tag == "stream_ready"@
    ||| tag == "key"@
    ||| tag == "ext"@
    ||| tag == "stream_update"@
    ||| tag == "notify"@
    ||| tag == "alert"@
}

/// The message of kind `tag` with the fields in `ms`; any other tag is an
/// unknown message.
pub open spec fn decode_variant(tag: Seq<char>, ms: Seq<(Seq<char>, SpecJson)>) -> Result<SpecMessage, DecodeError> {
    if tag == "start"@ {
        decode_start(ms)
    } else if tag == "init"@ {
        decode_init(ms)
    } else if tag == "join"@ {
        decode_join(ms)
    } else if tag == "stream_ready"@ {
        decode_stream_ready(ms)
    } else if tag == "key"@ {
        decode_key(ms)
    } else if tag == "ext"@ {
        decode_ext(ms)
    } else if tag == "stream_update"@ {
        decode_stream_update(ms)
    } else if tag == "notify"@ {
        decode_notify(ms)
    } else if tag == "alert"@ {
        decode_alert(ms)
    } else {
        Ok(SpecMessage::Unknown)
    }
}

/// What a JSON value reads as: it must be an object with a string `"type"`;
/// the fields that kind of message needs must be there with the right types;
/// other members are ignored.
pub open spec fn decode_message(j: SpecJson) -> Result<SpecMessage, DecodeError> {
    match j {
        SpecJson::Object(ms) => match find_member(ms, "type"@) {
            None => Err(DecodeError::MissingField),
            Some(SpecJson::Str(tag)) => decode_variant(tag, ms),
            Some(_) => Err(DecodeError::WrongType),
        },
        _ => Err(DecodeError::NotAnObject),
    }
}

// ---------------------------------------------------------------------------
// Reading what was written
// ---------------------------------------------------------------------------

/// Reading the strings of a written string list from position `i` on gives
/// the rest of the list.
proof fn lemma_str_items_roundtrip(l: Seq<Seq<char>>, i: int)
    requires
        0 <= i <= l.len(),
    ensures
        str_items_from(l.map_values(|s: Seq<char>| SpecJson::Str(s)), i) == Ok::<Seq<Seq<char>>, DecodeError>(l.subrange(i, l.len() as int)),
    decreases l.len() - i,
{
    let items = l.map_values(|s: Seq<char>| SpecJson::Str(s));
    if i < l.len() {
        lemma_str_items_roundtrip(l, i + 1);
        assert(seq![l[i]] + l.subrange(i + 1, l.len() as int) =~= l.subrange(i, l.len() as int));
    } else {
        assert(l.subrange(i, l.len() as int) =~= Seq::<Seq<char>>::empty());
    }
}

/// Reading a written string list gives the list back.
proof fn lemma_str_list_roundtrip(l: Seq<Seq<char>>)
    ensures
        str_list(json_str_list(l)) == Ok::<Seq<Seq<char>>, DecodeError>(l),
{
    lemma_str_items_roundtrip(l, 0);
    assert(l.subrange(0, l.len() as int) =~= l);
}

/// Reading the formats of a written format list from position `i` on gives
/// the rest of the list.
proof fn lemma_format_items_roundtrip(l: Seq<StreamFormat>, i: int)
    requires
        0 <= i <= l.len(),
    ensures
        format_items_from(l.map_values(|f: StreamFormat| SpecJson::Str(format_name(f))), i) == Ok::<Seq<StreamFormat>, DecodeError>(l.subrange(i, l.len() as int)),
    decreases l.len() - i,
{
    if i < l.len() {
        lemma_format_name_roundtrip(l[i]);
        lemma_format_items_roundtrip(l, i + 1);
        assert(seq![l[i]] + l.subrange(i + 1, l.len() as int) =~= l.subrange(i, l.len() as int));
    } else {
        assert(l.subrange(i, l.len() as int) =~= Seq::<StreamFormat>::empty());
    }
}

/// Reading a written format list gives the list back.
proof fn lemma_format_list_roundtrip(l: Seq<StreamFormat>)
    ensures
        match json_format_list(l) {
            SpecJson::Array(items) => format_items_from(items, 0) == Ok::<Seq<StreamFormat>, DecodeError>(l),
            _ => false,
        },
{
    lemma_format_items_roundtrip(l, 0);
    assert(l.subrange(0, l.len() as int) =~= l);
}

/// Reading the JSON object of a `start` message gives the message back.
proof fn lemma_roundtrip_start(version: Seq<Seq<char>>, name: Option<Seq<char>>)
    ensures
        decode_message(encode_message(SpecMessage::Start { version, name })) == Ok::<SpecMessage, DecodeError>(SpecMessage::Start { version, name }),
{
    broadcast use lemma_find_member_concat, lemma_find_member_empty, lemma_find_member_push;

    reveal_strlit("type");
    reveal_strlit("version");
    reveal_strlit("name");
    reveal_strlit("start");
    assert("type"@.len() != "version"@.len());
    assert("type"@[0] != "name"@[0]);
    assert("version"@.len() != "name"@.len());
    lemma_str_list_roundtrip(version);
}

/// Reading the JSON object of a `init` message gives the message back.
proof fn lemma_roundtrip_init(version: Seq<char>, name: Option<Seq<char>>, auth: AuthMode, auth_endpoint: Option<Seq<char>>, stream: Seq<StreamFormat>, input: Seq<Seq<char>>, extensions: Option<Seq<Seq<char>>>)
    ensures
        decode_message(encode_message(SpecMessage::Init { version, name, auth, auth_endpoint, stream, input, extensions })) == Ok::<SpecMessage, DecodeError>(SpecMessage::Init { version, name, auth, auth_endpoint, stream, input, extensions }),
{
    broadcast use lemma_find_member_concat, lemma_find_member_empty, lemma_find_member_push;

    reveal_strlit("type");
    reveal_strlit("version");
    reveal_strlit("name");
    reveal_strlit("auth");
    reveal_strlit("auth_endpoint");
    reveal_strlit("stream");
    reveal_strlit("input");
    reveal_strlit("extensions");
    reveal_strlit("supported");
    reveal_strlit("keys");
    reveal_strlit("init");
    reveal_strlit("start");
    assert("type"@.len() != "version"@.len());
    assert("type"@[0] != "name"@[0]);
    assert("type"@[0] != "auth"@[0]);
    assert("type"@.len() != "auth_endpoint"@.len());
    assert("type"@.len() != "stream"@.len());
    assert("type"@.len() != "input"@.len());
    assert("type"@.len() != "extensions"@.len());
    assert("type"@.len() != "supported"@.len());
    assert("type"@[0] != "keys"@[0]);
    assert("version"@.len() != "name"@.len());
    assert("version"@.len() != "auth"@.len());
    assert("version"@.len() != "auth_endpoint"@.len());
    assert("version"@.len() != "stream"@.len());
    assert("version"@.len() != "input"@.len());
    assert("version"@.len() != "extensions"@.len());
    assert("version"@.len() != "supported"@.len());
    assert("version"@.len() != "keys"@.len());
    assert("name"@[0] != "auth"@[0]);
    assert("name"@.len() != "auth_endpoint"@.len());
    assert("name"@.len() != "stream"@.len());
    assert("name"@.len() != "input"@.len());
    assert("name"@.len() != "extensions"@.len());
    assert("name"@.len() != "supported"@.len());
    assert("name"@[0] != "keys"@[0]);
    assert("auth"@.len() != "auth_endpoint"@.len());
    assert("auth"@.len() != "stream"@.len());
    assert("auth"@.len() != "input"@.len());
    assert("auth"@.len() != "extensions"@.len());
    assert("auth"@.len() != "supported"@.len());
    assert("auth"@[0] != "keys"@[0]);
    assert("auth_endpoint"@.len() != "stream"@.len());
    assert("auth_endpoint"@.len() != "input"@.len());
    assert("auth_endpoint"@.len() != "extensions"@.len());
    assert("auth_endpoint"@.len() != "supported"@.len());
    assert("auth_endpoint"@.len() != "keys"@.len());
    assert("stream"@.len() != "input"@.len());
    assert("stream"@.len() != "extensions"@.len());
    assert("stream"@.len() != "supported"@.len());
    assert("stream"@.len() != "keys"@.len());
    assert("input"@.len() != "extensions"@.len());
    assert("input"@.len() != "supported"@.len());
    assert("input"@.len() != "keys"@.len());
    assert("extensions"@.len() != "supported"@.len());
    assert("extensions"@.len() != "keys"@.len());
    assert("supported"@.len() != "keys"@.len());
    assert("init"@.len() != "start"@.len());
    lemma_auth_mode_name_roundtrip(auth);
    lemma_format_list_roundtrip(stream);
    lemma_str_list_roundtrip(input);
    if let Some(l) = extensions { lemma_str_list_roundtrip(l); }
}

/// Reading the JSON object of a `join` message gives the message back.
proof fn lemma_roundtrip_join(stream: StreamFormat, extensions: Option<Seq<Seq<char>>>, token: Option<Seq<char>>)
    ensures
        decode_message(encode_message(SpecMessage::Join { stream, extensions, token })) == Ok::<SpecMessage, DecodeError>(SpecMessage::Join { stream, extensions, token }),
{
    broadcast use lemma_find_member_concat, lemma_find_member_empty, lemma_find_member_push;

    reveal_strlit("type");
    reveal_strlit("stream");
    reveal_strlit("extensions");
    reveal_strlit("token");
    reveal_strlit("selected");
    reveal_strlit("join");
    reveal_strlit("start");
    reveal_strlit("init");
    assert("type"@.len() != "stream"@.len());
    assert("type"@.len() != "extensions"@.len());
    assert("type"@.len() != "token"@.len());
    assert("type"@.len() != "selected"@.len());
    assert("stream"@.len() != "extensions"@.len());
    assert("stream"@.len() != "token"@.len());
    assert("stream"@.len() != "selected"@.len());
    assert("extensions"@.len() != "token"@.len());
    assert("extensions"@.len() != "selected"@.len());
    assert("token"@.len() != "selected"@.len());
    assert("join"@.len() != "start"@.len());
    assert("join"@[0] != "init"@[0]);
    lemma_format_name_roundtrip(stream);
    if let Some(l) = extensions { lemma_str_list_roundtrip(l); }
}

/// Reading the JSON object of a `stream_ready` message gives the message back.
proof fn lemma_roundtrip_stream_ready(format: StreamFormat, url: Seq<char>, extensions: Option<Seq<Seq<char>>>)
    ensures
        decode_message(encode_message(SpecMessage::StreamReady { format, url, extensions })) == Ok::<SpecMessage, DecodeError>(SpecMessage::StreamReady { format, url, extensions }),
{
    broadcast use lemma_find_member_concat, lemma_find_member_empty, lemma_find_member_push;

    reveal_strlit("type");
    reveal_strlit("format");
    reveal_strlit("url");
    reveal_strlit("extensions");
    reveal_strlit("stream_ready");
    reveal_strlit("start");
    reveal_strlit("init");
    reveal_strlit("join");
    assert("type"@.len() != "format"@.len());
    assert("type"@.len() != "url"@.len());
    assert("type"@.len() != "extensions"@.len());
    assert("format"@.len() != "url"@.len());
    assert("format"@.len() != "extensions"@.len());
    assert("url"@.len() != "extensions"@.len());
    assert("stream_ready"@.len() != "start"@.len());
    assert("stream_ready"@.len() != "init"@.len());
    assert("stream_ready"@.len() != "join"@.len());
    lemma_format_name_roundtrip(format);
    if let Some(l) = extensions { lemma_str_list_roundtrip(l); }
}

/// Reading the JSON object of a `key` message gives the message back.
proof fn lemma_roundtrip_key(key: Seq<char>, state: KeyState)
    ensures
        decode_message(encode_message(SpecMessage::Key { key, state })) == Ok::<SpecMessage, DecodeError>(SpecMessage::Key { key, state }),
{
    broadcast use lemma_find_member_concat, lemma_find_member_empty, lemma_find_member_push;

    reveal_strlit("type");
    reveal_strlit("key");
    reveal_strlit("state");
    reveal_strlit("start");
    reveal_strlit("init");
    reveal_strlit("join");
    reveal_strlit("stream_ready");
    assert("type"@.len() != "key"@.len());
    assert("type"@.len() != "state"@.len());
    assert("key"@.len() != "state"@.len());
    assert("key"@.len() != "start"@.len());
    assert("key"@.len() != "init"@.len());
    assert("key"@.len() != "join"@.len());
    assert("key"@.len() != "stream_ready"@.len());
    lemma_key_state_name_roundtrip(state);
}

/// Reading the JSON object of a `ext` message gives the message back.
proof fn lemma_roundtrip_ext(ext: Seq<char>, data: SpecJson)
    ensures
        decode_message(encode_message(SpecMessage::Ext { ext, data })) == Ok::<SpecMessage, DecodeError>(SpecMessage::Ext { ext, data }),
{
    broadcast use lemma_find_member_concat, lemma_find_member_empty, lemma_find_member_push;

    reveal_strlit("type");
    reveal_strlit("ext");
    reveal_strlit("data");
    reveal_strlit("start");
    reveal_strlit("init");
    reveal_strlit("join");
    reveal_strlit("stream_ready");
    reveal_strlit("key");
    assert("type"@.len() != "ext"@.len());
    assert("type"@[0] != "data"@[0]);
    assert("ext"@.len() != "data"@.len());
    assert("ext"@.len() != "start"@.len());
    assert("ext"@.len() != "init"@.len());
    assert("ext"@.len() != "join"@.len());
    assert("ext"@.len() != "stream_ready"@.len());
    assert("ext"@[0] != "key"@[0]);

}

/// Reading the JSON object of a `stream_update` message gives the message back.
proof fn lemma_roundtrip_stream_update(url: Seq<char>)
    ensures
        decode_message(encode_message(SpecMessage::StreamUpdate { url })) == Ok::<SpecMessage, DecodeError>(SpecMessage::StreamUpdate { url }),
{
    broadcast use lemma_find_member_concat, lemma_find_member_empty, lemma_find_member_push;

    reveal_strlit("type");
    reveal_strlit("url");
    reveal_strlit("stream_update");
    reveal_strlit("start");
    reveal_strlit("init");
    reveal_strlit("join");
    reveal_strlit("stream_ready");
    reveal_strlit("key");
    reveal_strlit("ext");
    assert("type"@.len() != "url"@.len());
    assert("stream_update"@.len() != "start"@.len());
    assert("stream_update"@.len() != "init"@.len());
    assert("stream_update"@.len() != "join"@.len());
    assert("stream_update"@.len() != "stream_ready"@.len());
    assert("stream_update"@.len() != "key"@.len());
    assert("stream_update"@.len() != "ext"@.len());

}

/// Reading the JSON object of a `notify` message gives the message back.
proof fn lemma_roundtrip_notify(message: Seq<char>, duration: Option<u64>)
    ensures
        decode_message(encode_message(SpecMessage::Notify { message, duration })) == Ok::<SpecMessage, DecodeError>(SpecMessage::Notify { message, duration }),
{
    broadcast use lemma_find_member_concat, lemma_find_member_empty, lemma_find_member_push;

    reveal_strlit("type");
    reveal_strlit("message");
    reveal_strlit("duration");
    reveal_strlit("notify");
    reveal_strlit("start");
    reveal_strlit("init");
    reveal_strlit("join");
    reveal_strlit("stream_ready");
    reveal_strlit("key");
    reveal_strlit("ext");
    reveal_strlit("stream_update");
    assert("type"@.len() != "message"@.len());
    assert("type"@.len() != "duration"@.len());
    assert("message"@.len() != "duration"@.len());
    assert("notify"@.len() != "start"@.len());
    assert("notify"@.len() != "init"@.len());
    assert("notify"@.len() != "join"@.len());
    assert("notify"@.len() != "stream_ready"@.len());
    assert("notify"@.len() != "key"@.len());
    assert("notify"@.len() != "ext"@.len());
    assert("notify"@.len() != "stream_update"@.len());

}

/// Reading the JSON object of a `alert` message gives the message back.
proof fn lemma_roundtrip_alert(severity: Severity, message: Seq<char>)
    ensures
        decode_message(encode_message(SpecMessage::Alert { severity, message })) == Ok::<SpecMessage, DecodeError>(SpecMessage::Alert { severity, message }),
{
    broadcast use lemma_find_member_concat, lemma_find_member_empty, lemma_find_member_push;

    reveal_strlit("type");
    reveal_strlit("severity");
    reveal_strlit("message");
    reveal_strlit("alert");
    reveal_strlit("start");
    reveal_strlit("init");
    reveal_strlit("join");
    reveal_strlit("stream_ready");
    reveal_strlit("key");
    reveal_strlit("ext");
    reveal_strlit("stream_update");
    reveal_strlit("notify");
    assert("type"@.len() != "severity"@.len());
    assert("type"@.len() != "message"@.len());
    assert("severity"@.len() != "message"@.len());
    assert("alert"@[0] != "start"@[0]);
    assert("alert"@.len() != "init"@.len());
    assert("alert"@.len() != "join"@.len());
    assert("alert"@.len() != "stream_ready"@.len());
    assert("alert"@.len() != "key"@.len());
    assert("alert"@.len() != "ext"@.len());
    assert("alert"@.len() != "stream_update"@.len());
    assert("alert"@.len() != "notify"@.len());
    lemma_severity_name_roundtrip(severity);
}

/// Reading the JSON object of an unknown message gives an unknown message.
proof fn lemma_roundtrip_unknown()
    ensures
        decode_message(encode_message(SpecMessage::Unknown)) == Ok::<SpecMessage, DecodeError>(SpecMessage::Unknown),
{
    broadcast use lemma_find_member_concat, lemma_find_member_empty, lemma_find_member_push;

    reveal_strlit("type");
    reveal_strlit("unknown");
    reveal_strlit("start");
    reveal_strlit("init");
    reveal_strlit("join");
    reveal_strlit("stream_ready");
    reveal_strlit("key");
    reveal_strlit("ext");
    reveal_strlit("stream_update");
    reveal_strlit("notify");
    reveal_strlit("alert");
    assert("unknown"@.len() != "start"@.len());
    assert("unknown"@.len() != "init"@.len());
    assert("unknown"@.len() != "join"@.len());
    assert("unknown"@.len() != "stream_ready"@.len());
    assert("unknown"@.len() != "key"@.len());
    assert("unknown"@.len() != "ext"@.len());
    assert("unknown"@.len() != "stream_update"@.len());
    assert("unknown"@.len() != "notify"@.len());
    assert("unknown"@.len() != "alert"@.len());
}

/// Reading back the JSON object written for any message gives that message:
/// writing loses nothing and reading adds nothing.
pub proof fn lemma_decode_encode(m: SpecMessage)
    ensures
        decode_message(encode_message(m)) == Ok::<SpecMessage, DecodeError>(m),
{
    match m {
        SpecMessage::Start { version, name } => lemma_roundtrip_start(version, name),
        SpecMessage::Init { version, name, auth, auth_endpoint, stream, input, extensions } => lemma_roundtrip_init(version, name, auth, auth_endpoint, stream, input, extensions),
        SpecMessage::Join { stream, extensions, token } => lemma_roundtrip_join(stream, extensions, token),
        SpecMessage::StreamReady { format, url, extensions } => lemma_roundtrip_stream_ready(format, url, extensions),
        SpecMessage::Key { key, state } => lemma_roundtrip_key(key, state),
        SpecMessage::Ext { ext, data } => lemma_roundtrip_ext(ext, data),
        SpecMessage::StreamUpdate { url } => lemma_roundtrip_stream_update(url),
        SpecMessage::Notify { message, duration } => lemma_roundtrip_notify(message, duration),
        SpecMessage::Alert { severity, message } => lemma_roundtrip_alert(severity, message),
        SpecMessage::Unknown => lemma_roundtrip_unknown(),
    }
}

/// A JSON object whose `"type"` is a string naming no known kind of message
/// reads as an unknown message, whatever its other members are.
pub proof fn lemma_unknown_type_is_ignored(ms: Seq<(Seq<char>, SpecJson)>, tag: Seq<char>)
    requires
        find_member(ms, "type"@) == Some(SpecJson::Str(tag)),
        !is_known_tag(tag),
    ensures
        decode_message(SpecJson::Object(ms)) == Ok::<SpecMessage, DecodeError>(SpecMessage::Unknown),
{
}


// ---------------------------------------------------------------------------
// Which written messages serde_json reads back from their text
// ---------------------------------------------------------------------------

/// Whether the JSON object of a message is one that serde_json reads back
/// from the text it writes for it: true of every message but an `ext` whose
/// data `json_reads_back` excludes at one level less than the limit (the
/// message object itself is one level).
pub open spec fn message_reads_back(m: SpecMessage) -> bool {
    match m {
        SpecMessage::Ext { data, .. } => json_reads_back(data, json_depth_limit() - 1),
        _ => true,
    }
}

/// Whether the members of an object have distinct names and values that
/// read back at `depth` levels.
spec fn members_read_back(ms: Seq<(Seq<char>, SpecJson)>, depth: int) -> bool {
    &&& names_distinct(ms)
    &&& forall|k: int| 0 <= k < ms.len() ==> json_reads_back(#[trigger] ms[k].1, depth)
}

/// The `"type"` member alone reads back.
proof fn lemma_members_tag(m: SpecMessage, depth: int)
    ensures
        members_read_back(seq![tag_member(m)], depth),
{
}

/// Adding a member with a new name and a value that reads back.
proof fn lemma_members_push(ms: Seq<(Seq<char>, SpecJson)>, m: (Seq<char>, SpecJson), depth: int)
    requires
        members_read_back(ms, depth),
        find_member(ms, m.0) == None::<SpecJson>,
        json_reads_back(m.1, depth),
    ensures
        members_read_back(ms.push(m), depth),
{
    lemma_names_distinct_push(ms, m);
    assert forall|k: int| 0 <= k < ms.push(m).len() implies json_reads_back(#[trigger] ms.push(m)[k].1, depth) by {
        if k < ms.len() {
            assert(ms.push(m)[k] == ms[k]);
        }
    }
}

/// Adding an optional member with a new name and a value that reads back.
proof fn lemma_members_optional(ms: Seq<(Seq<char>, SpecJson)>, key: Seq<char>, o: Option<SpecJson>, depth: int)
    requires
        members_read_back(ms, depth),
        find_member(ms, key) == None::<SpecJson>,
        o matches Some(v) ==> json_reads_back(v, depth),
    ensures
        members_read_back(ms + optional_member(key, o), depth),
{
    match o {
        Some(v) => {
            assert(ms + optional_member(key, o) =~= ms.push((key, v)));
            lemma_members_push(ms, (key, v), depth);
        },
        None => {
            assert(ms + optional_member(key, o) =~= ms);
        },
    }
}

/// A written string list reads back.
proof fn lemma_str_list_reads_back(l: Seq<Seq<char>>, depth: int)
    requires
        depth >= 1,
    ensures
        json_reads_back(json_str_list(l), depth),
{
    let items = l.map_values(|s: Seq<char>| SpecJson::Str(s));
    assert forall|k: int| 0 <= k < items.len() implies json_reads_back(#[trigger] items[k], depth - 1) by {
        assert(items[k] == SpecJson::Str(l[k]));
    }
}

/// A written format list reads back.
proof fn lemma_format_list_reads_back(l: Seq<StreamFormat>, depth: int)
    requires
        depth >= 1,
    ensures
        json_reads_back(json_format_list(l), depth),
{
    let items = l.map_values(|f: StreamFormat| SpecJson::Str(format_name(f)));
    assert forall|k: int| 0 <= k < items.len() implies json_reads_back(#[trigger] items[k], depth - 1) by {
        assert(items[k] == SpecJson::Str(format_name(l[k])));
    }
}

/// An object of one member reads back when its value does, one level down.
proof fn lemma_single_member(key: Seq<char>, v: SpecJson, depth: int)
    requires
        depth >= 1,
        json_reads_back(v, depth - 1),
    ensures
        json_reads_back(SpecJson::Object(seq![(key, v)]), depth),
{
    assert(members_read_back(seq![(key, v)], depth - 1));
}

proof fn lemma_reads_back_start(version: Seq<Seq<char>>, name: Option<Seq<char>>)
    ensures
        json_reads_back(encode_message(SpecMessage::Start { version, name }), json_depth_limit()),
{
    broadcast use lemma_find_member_concat, lemma_find_member_empty, lemma_find_member_push;

    reveal_strlit("type");
    reveal_strlit("version");
    reveal_strlit("name");
    assert("type"@.len() != "version"@.len());
    assert("type"@[0] != "name"@[0]);
    assert("version"@.len() != "name"@.len());
    let d = json_depth_limit() - 1;
    let m = SpecMessage::Start { version, name };
    let t = seq![tag_member(m)];
    lemma_members_tag(m, d);
    lemma_str_list_reads_back(version, d);
    let a = t.push(("version"@, json_str_list(version)));
    lemma_members_push(t, ("version"@, json_str_list(version)), d);
    lemma_members_optional(a, "name"@, json_opt_str(name), d);
}

proof fn lemma_reads_back_init(
    version: Seq<char>,
    name: Option<Seq<char>>,
    auth: AuthMode,
    auth_endpoint: Option<Seq<char>>,
    stream: Seq<StreamFormat>,
    input: Seq<Seq<char>>,
    extensions: Option<Seq<Seq<char>>>,
)
    ensures
        json_reads_back(
            encode_message(SpecMessage::Init { version, name, auth, auth_endpoint, stream, input, extensions }),
            json_depth_limit(),
        ),
{
    broadcast use lemma_find_member_concat, lemma_find_member_empty, lemma_find_member_push;

    reveal_strlit("type");
    reveal_strlit("version");
    reveal_strlit("name");
    reveal_strlit("auth");
    reveal_strlit("auth_endpoint");
    reveal_strlit("stream");
    reveal_strlit("input");
    reveal_strlit("extensions");
    assert("type"@.len() != "version"@.len());
    assert("type"@[0] != "name"@[0]);
    assert("type"@[0] != "auth"@[0]);
    assert("type"@.len() != "auth_endpoint"@.len());
    assert("type"@.len() != "stream"@.len());
    assert("type"@.len() != "input"@.len());
    assert("type"@.len() != "extensions"@.len());
    assert("version"@.len() != "name"@.len());
    assert("version"@.len() != "auth"@.len());
    assert("version"@.len() != "auth_endpoint"@.len());
    assert("version"@.len() != "stream"@.len());
    assert("version"@.len() != "input"@.len());
    assert("version"@.len() != "extensions"@.len());
    assert("name"@[0] != "auth"@[0]);
    assert("name"@.len() != "auth_endpoint"@.len());
    assert("name"@.len() != "stream"@.len());
    assert("name"@.len() != "input"@.len());
    assert("name"@.len() != "extensions"@.len());
    assert("auth"@.len() != "auth_endpoint"@.len());
    assert("auth"@.len() != "stream"@.len());
    assert("auth"@.len() != "input"@.len());
    assert("auth"@.len() != "extensions"@.len());
    assert("auth_endpoint"@.len() != "stream"@.len());
    assert("auth_endpoint"@.len() != "input"@.len());
    assert("auth_endpoint"@.len() != "extensions"@.len());
    assert("stream"@.len() != "input"@.len());
    assert("stream"@.len() != "extensions"@.len());
    assert("input"@.len() != "extensions"@.len());
    let d = json_depth_limit() - 1;
    let m = SpecMessage::Init { version, name, auth, auth_endpoint, stream, input, extensions };
    let t = seq![tag_member(m)];
    lemma_members_tag(m, d);
    let m1 = ("version"@, json_str(version));
    lemma_members_push(t, m1, d);
    let a1 = t.push(m1);
    lemma_members_optional(a1, "name"@, json_opt_str(name), d);
    let a2 = a1 + optional_member("name"@, json_opt_str(name));
    let m3 = ("auth"@, json_str(auth_mode_name(auth)));
    lemma_members_push(a2, m3, d);
    assert(a2 + seq![m3] =~= a2.push(m3));
    let a3 = a2 + seq![m3];
    lemma_members_optional(a3, "auth_endpoint"@, json_opt_str(auth_endpoint), d);
    let a4 = a3 + optional_member("auth_endpoint"@, json_opt_str(auth_endpoint));
    let m5 = ("stream"@, SpecJson::Object(seq![("supported"@, json_format_list(stream))]));
    let m6 = ("input"@, SpecJson::Object(seq![("keys"@, json_str_list(input))]));
    lemma_format_list_reads_back(stream, d - 1);
    lemma_single_member("supported"@, json_format_list(stream), d);
    lemma_str_list_reads_back(input, d - 1);
    lemma_single_member("keys"@, json_str_list(input), d);
    lemma_members_push(a4, m5, d);
    lemma_members_push(a4.push(m5), m6, d);
    assert(a4 + seq![m5].push(m6) =~= a4.push(m5).push(m6));
    let a6 = a4 + seq![m5].push(m6);
    if let Some(l) = extensions {
        lemma_str_list_reads_back(l, d);
    }
    lemma_members_optional(a6, "extensions"@, json_opt_str_list(extensions), d);
}

proof fn lemma_reads_back_join(stream: StreamFormat, extensions: Option<Seq<Seq<char>>>, token: Option<Seq<char>>)
    ensures
        json_reads_back(encode_message(SpecMessage::Join { stream, extensions, token }), json_depth_limit()),
{
    broadcast use lemma_find_member_concat, lemma_find_member_empty, lemma_find_member_push;

    reveal_strlit("type");
    reveal_strlit("stream");
    reveal_strlit("extensions");
    reveal_strlit("token");
    assert("type"@.len() != "stream"@.len());
    assert("type"@.len() != "extensions"@.len());
    assert("type"@.len() != "token"@.len());
    assert("stream"@.len() != "extensions"@.len());
    assert("stream"@.len() != "token"@.len());
    assert("extensions"@.len() != "token"@.len());
    let d = json_depth_limit() - 1;
    let m = SpecMessage::Join { stream, extensions, token };
    let t = seq![tag_member(m)];
    lemma_members_tag(m, d);
    let m1 = ("stream"@, SpecJson::Object(seq![("selected"@, json_str(format_name(stream)))]));
    lemma_single_member("selected"@, json_str(format_name(stream)), d);
    lemma_members_push(t, m1, d);
    let a1 = t.push(m1);
    if let Some(l) = extensions {
        lemma_str_list_reads_back(l, d);
    }
    lemma_members_optional(a1, "extensions"@, json_opt_str_list(extensions), d);
    let a2 = a1 + optional_member("extensions"@, json_opt_str_list(extensions));
    lemma_members_optional(a2, "token"@, json_opt_str(token), d);
}

proof fn lemma_reads_back_stream_ready(format: StreamFormat, url: Seq<char>, extensions: Option<Seq<Seq<char>>>)
    ensures
        json_reads_back(encode_message(SpecMessage::StreamReady { format, url, extensions }), json_depth_limit()),
{
    broadcast use lemma_find_member_concat, lemma_find_member_empty, lemma_find_member_push;

    reveal_strlit("type");
    reveal_strlit("format");
    reveal_strlit("url");
    reveal_strlit("extensions");
    assert("type"@.len() != "format"@.len());
    assert("type"@.len() != "url"@.len());
    assert("type"@.len() != "extensions"@.len());
    assert("format"@.len() != "url"@.len());
    assert("format"@.len() != "extensions"@.len());
    assert("url"@.len() != "extensions"@.len());
    let d = json_depth_limit() - 1;
    let m = SpecMessage::StreamReady { format, url, extensions };
    let t = seq![tag_member(m)];
    lemma_members_tag(m, d);
    let m1 = ("format"@, json_str(format_name(format)));
    lemma_members_push(t, m1, d);
    let m2 = ("url"@, json_str(url));
    lemma_members_push(t.push(m1), m2, d);
    if let Some(l) = extensions {
        lemma_str_list_reads_back(l, d);
    }
    lemma_members_optional(t.push(m1).push(m2), "extensions"@, json_opt_str_list(extensions), d);
}

proof fn lemma_reads_back_key(key: Seq<char>, state: KeyState)
    ensures
        json_reads_back(encode_message(SpecMessage::Key { key, state }), json_depth_limit()),
{
    broadcast use lemma_find_member_concat, lemma_find_member_empty, lemma_find_member_push;

    reveal_strlit("type");
    reveal_strlit("key");
    reveal_strlit("state");
    assert("type"@.len() != "key"@.len());
    assert("type"@.len() != "state"@.len());
    assert("key"@.len() != "state"@.len());
    let d = json_depth_limit() - 1;
    let m = SpecMessage::Key { key, state };
    let t = seq![tag_member(m)];
    lemma_members_tag(m, d);
    let m1 = ("key"@, json_str(key));
    lemma_members_push(t, m1, d);
    lemma_members_push(t.push(m1), ("state"@, json_str(key_state_name(state))), d);
}

proof fn lemma_reads_back_ext(ext: Seq<char>, data: SpecJson)
    requires
        json_reads_back(data, json_depth_limit() - 1),
    ensures
        json_reads_back(encode_message(SpecMessage::Ext { ext, data }), json_depth_limit()),
{
    broadcast use lemma_find_member_concat, lemma_find_member_empty, lemma_find_member_push;

    reveal_strlit("type");
    reveal_strlit("ext");
    reveal_strlit("data");
    assert("type"@.len() != "ext"@.len());
    assert("type"@[0] != "data"@[0]);
    assert("ext"@.len() != "data"@.len());
    let d = json_depth_limit() - 1;
    let m = SpecMessage::Ext { ext, data };
    let t = seq![tag_member(m)];
    lemma_members_tag(m, d);
    let m1 = ("ext"@, json_str(ext));
    lemma_members_push(t, m1, d);
    lemma_members_push(t.push(m1), ("data"@, data), d);
}

proof fn lemma_reads_back_stream_update(url: Seq<char>)
    ensures
        json_reads_back(encode_message(SpecMessage::StreamUpdate { url }), json_depth_limit()),
{
    broadcast use lemma_find_member_concat, lemma_find_member_empty, lemma_find_member_push;

    reveal_strlit("type");
    reveal_strlit("url");
    assert("type"@.len() != "url"@.len());
    let d = json_depth_limit() - 1;
    let m = SpecMessage::StreamUpdate { url };
    lemma_members_tag(m, d);
    lemma_members_push(seq![tag_member(m)], ("url"@, json_str(url)), d);
}

proof fn lemma_reads_back_notify(message: Seq<char>, duration: Option<u64>)
    ensures
        json_reads_back(encode_message(SpecMessage::Notify { message, duration }), json_depth_limit()),
{
    broadcast use lemma_find_member_concat, lemma_find_member_empty, lemma_find_member_push;

    reveal_strlit("type");
    reveal_strlit("message");
    reveal_strlit("duration");
    assert("type"@.len() != "message"@.len());
    assert("type"@.len() != "duration"@.len());
    assert("message"@.len() != "duration"@.len());
    let d = json_depth_limit() - 1;
    let m = SpecMessage::Notify { message, duration };
    let t = seq![tag_member(m)];
    lemma_members_tag(m, d);
    let m1 = ("message"@, json_str(message));
    lemma_members_push(t, m1, d);
    lemma_members_optional(t.push(m1), "duration"@, json_opt_u64(duration), d);
}

proof fn lemma_reads_back_alert(severity: Severity, message: Seq<char>)
    ensures
        json_reads_back(encode_message(SpecMessage::Alert { severity, message }), json_depth_limit()),
{
    broadcast use lemma_find_member_concat, lemma_find_member_empty, lemma_find_member_push;

    reveal_strlit("type");
    reveal_strlit("severity");
    reveal_strlit("message");
    assert("type"@.len() != "severity"@.len());
    assert("type"@.len() != "message"@.len());
    assert("severity"@.len() != "message"@.len());
    let d = json_depth_limit() - 1;
    let m = SpecMessage::Alert { severity, message };
    let t = seq![tag_member(m)];
    lemma_members_tag(m, d);
    let m1 = ("severity"@, json_str(severity_name(severity)));
    lemma_members_push(t, m1, d);
    lemma_members_push(t.push(m1), ("message"@, json_str(message)), d);
}

/// The JSON object written for a message is one serde_json reads back from
/// its text, for every message but an `ext` whose data is not.
pub proof fn lemma_message_reads_back(m: SpecMessage)
    requires
        message_reads_back(m),
    ensures
        json_reads_back(encode_message(m), json_depth_limit()),
{
    match m {
        SpecMessage::Start { version, name } => lemma_reads_back_start(version, name),
        SpecMessage::Init { version, name, auth, auth_endpoint, stream, input, extensions } => lemma_reads_back_init(version, name, auth, auth_endpoint, stream, input, extensions),
        SpecMessage::Join { stream, extensions, token } => lemma_reads_back_join(stream, extensions, token),
        SpecMessage::StreamReady { format, url, extensions } => lemma_reads_back_stream_ready(format, url, extensions),
        SpecMessage::Key { key, state } => lemma_reads_back_key(key, state),
        SpecMessage::Ext { ext, data } => lemma_reads_back_ext(ext, data),
        SpecMessage::StreamUpdate { url } => lemma_reads_back_stream_update(url),
        SpecMessage::Notify { message, duration } => lemma_reads_back_notify(message, duration),
        SpecMessage::Alert { severity, message } => lemma_reads_back_alert(severity, message),
        SpecMessage::Unknown => lemma_members_tag(m, json_depth_limit() - 1),
    }
}

/// The JSON text of a stream format is its wire name between quotes:
/// serde_json writes the name with nothing escaped and reads it back as
/// written, and the name reads as the format.
pub proof fn lemma_format_json_text(f: StreamFormat)
    ensures
        needs_no_escape(format_name(f)),
        json_reads_back(SpecJson::Str(format_name(f)), json_depth_limit()),
        format_item(SpecJson::Str(format_name(f))) == Ok::<StreamFormat, DecodeError>(f),
{
    reveal_strlit("ll-hls");
    reveal_strlit("hls");
    reveal_strlit("dash");
    reveal_strlit("webrtc");
    reveal_strlit("rtsp");
    lemma_format_name_roundtrip(f);
    let name = format_name(f);
    assert forall|i: int| 0 <= i < name.len() implies #[trigger] name[i] != '"' && name[i] != '\\' && (name[i] as int) >= 0x20 by {
        assert('a' <= name[i] <= 'z' || name[i] == '-');
    }
}

// ---------------------------------------------------------------------------
// What a JSON object reads as, field by field
// ---------------------------------------------------------------------------

/// Reading an array of JSON strings gives the strings, in order.
proof fn lemma_read_strings(l: Seq<Seq<char>>)
    ensures
        str_list(SpecJson::Array(l.map_values(|s: Seq<char>| SpecJson::Str(s)))) == Ok::<Seq<Seq<char>>, DecodeError>(l),
{
    lemma_str_list_roundtrip(l);
    assert(json_str_list(l) == SpecJson::Array(l.map_values(|s: Seq<char>| SpecJson::Str(s))));
}

/// Reading an array of stream format names gives the formats, in order.
proof fn lemma_read_formats(l: Seq<StreamFormat>)
    ensures
        format_items_from(l.map_values(|f: StreamFormat| SpecJson::Str(format_name(f))), 0) == Ok::<Seq<StreamFormat>, DecodeError>(l),
{
    lemma_format_items_roundtrip(l, 0);
    assert(l.subrange(0, l.len() as int) =~= l);
}

/// An object with `"type": "start"`, `"version"` an array of strings and
/// `"name"` a string or absent reads as `start` with those values, whatever
/// its other members and their order.
pub proof fn lemma_read_start(ms: Seq<(Seq<char>, SpecJson)>, version: Seq<Seq<char>>, name: Option<Seq<char>>)
    requires
        find_member(ms, "type"@) == Some(SpecJson::Str("start"@)),
        find_member(ms, "version"@) == Some(SpecJson::Array(version.map_values(|s: Seq<char>| SpecJson::Str(s)))),
        find_member(ms, "name"@) == match name {
            Some(n) => Some(SpecJson::Str(n)),
            None => None::<SpecJson>,
        },
    ensures
        decode_message(SpecJson::Object(ms)) == Ok::<SpecMessage, DecodeError>(SpecMessage::Start { version, name }),
{
    lemma_read_strings(version);
}

/// An object with `"type": "init"` and the fields of an `init` (`"stream"`
/// an object whose `"supported"` lists format names, `"input"` an object
/// whose `"keys"` lists strings) reads as `init` with those values.
pub proof fn lemma_read_init(
    ms: Seq<(Seq<char>, SpecJson)>,
    stream_members: Seq<(Seq<char>, SpecJson)>,
    input_members: Seq<(Seq<char>, SpecJson)>,
    version: Seq<char>,
    name: Option<Seq<char>>,
    auth: AuthMode,
    auth_endpoint: Option<Seq<char>>,
    stream: Seq<StreamFormat>,
    input: Seq<Seq<char>>,
    extensions: Option<Seq<Seq<char>>>,
)
    requires
        find_member(ms, "type"@) == Some(SpecJson::Str("init"@)),
        find_member(ms, "version"@) == Some(SpecJson::Str(version)),
        find_member(ms, "name"@) == match name {
            Some(n) => Some(SpecJson::Str(n)),
            None => None::<SpecJson>,
        },
        find_member(ms, "auth"@) == Some(SpecJson::Str(auth_mode_name(auth))),
        find_member(ms, "auth_endpoint"@) == match auth_endpoint {
            Some(e) => Some(SpecJson::Str(e)),
            None => None::<SpecJson>,
        },
        find_member(ms, "stream"@) == Some(SpecJson::Object(stream_members)),
        find_member(stream_members, "supported"@) == Some(
            SpecJson::Array(stream.map_values(|f: StreamFormat| SpecJson::Str(format_name(f)))),
        ),
        find_member(ms, "input"@) == Some(SpecJson::Object(input_members)),
        find_member(input_members, "keys"@) == Some(SpecJson::Array(input.map_values(|s: Seq<char>| SpecJson::Str(s)))),
        find_member(ms, "extensions"@) == match extensions {
            Some(l) => Some(SpecJson::Array(l.map_values(|s: Seq<char>| SpecJson::Str(s)))),
            None => None::<SpecJson>,
        },
    ensures
        decode_message(SpecJson::Object(ms)) == Ok::<SpecMessage, DecodeError>(
            SpecMessage::Init { version, name, auth, auth_endpoint, stream, input, extensions },
        ),
{
    reveal_strlit("init");
    reveal_strlit("start");
    assert("init"@.len() != "start"@.len());
    lemma_auth_mode_name_roundtrip(auth);
    lemma_read_formats(stream);
    lemma_read_strings(input);
    if let Some(l) = extensions {
        lemma_read_strings(l);
    }
}

/// An object with `"type": "join"`, `"stream"` an object whose
/// `"selected"` is a format name, and optional `"extensions"` and
/// `"token"` reads as `join` with those values.
pub proof fn lemma_read_join(
    ms: Seq<(Seq<char>, SpecJson)>,
    stream_members: Seq<(Seq<char>, SpecJson)>,
    stream: StreamFormat,
    extensions: Option<Seq<Seq<char>>>,
    token: Option<Seq<char>>,
)
    requires
        find_member(ms, "type"@) == Some(SpecJson::Str("join"@)),
        find_member(ms, "stream"@) == Some(SpecJson::Object(stream_members)),
        find_member(stream_members, "selected"@) == Some(SpecJson::Str(format_name(stream))),
        find_member(ms, "extensions"@) == match extensions {
            Some(l) => Some(SpecJson::Array(l.map_values(|s: Seq<char>| SpecJson::Str(s)))),
            None => None::<SpecJson>,
        },
        find_member(ms, "token"@) == match token {
            Some(t) => Some(SpecJson::Str(t)),
            None => None::<SpecJson>,
        },
    ensures
        decode_message(SpecJson::Object(ms)) == Ok::<SpecMessage, DecodeError>(SpecMessage::Join { stream, extensions, token }),
{
    reveal_strlit("join");
    reveal_strlit("start");
    reveal_strlit("init");
    assert("join"@.len() != "start"@.len());
    assert("join"@[0] != "init"@[0]);
    lemma_format_name_roundtrip(stream);
    if let Some(l) = extensions {
        lemma_read_strings(l);
    }
}

/// An object with `"type": "stream_ready"`, `"format"` a format name,
/// `"url"` a string and `"extensions"` an array of strings or absent reads
/// as `stream_ready` with that format and URL and exactly those extensions,
/// in order.
pub proof fn lemma_read_stream_ready(
    ms: Seq<(Seq<char>, SpecJson)>,
    format: StreamFormat,
    url: Seq<char>,
    extensions: Option<Seq<Seq<char>>>,
)
    requires
        find_member(ms, "type"@) == Some(SpecJson::Str("stream_ready"@)),
        find_member(ms, "format"@) == Some(SpecJson::Str(format_name(format))),
        find_member(ms, "url"@) == Some(SpecJson::Str(url)),
        find_member(ms, "extensions"@) == match extensions {
            Some(l) => Some(SpecJson::Array(l.map_values(|s: Seq<char>| SpecJson::Str(s)))),
            None => None::<SpecJson>,
        },
    ensures
        decode_message(SpecJson::Object(ms)) == Ok::<SpecMessage, DecodeError>(
            SpecMessage::StreamReady { format, url, extensions },
        ),
{
    reveal_strlit("stream_ready");
    reveal_strlit("start");
    reveal_strlit("init");
    reveal_strlit("join");
    assert("stream_ready"@.len() != "start"@.len());
    assert("stream_ready"@.len() != "init"@.len());
    assert("stream_ready"@.len() != "join"@.len());
    lemma_format_name_roundtrip(format);
    if let Some(l) = extensions {
        lemma_read_strings(l);
    }
}

/// An object with `"type": "key"`, `"key"` a string and `"state"` a key
/// state name reads as `key` with those values.
pub proof fn lemma_read_key(ms: Seq<(Seq<char>, SpecJson)>, key: Seq<char>, state: KeyState)
    requires
        find_member(ms, "type"@) == Some(SpecJson::Str("key"@)),
        find_member(ms, "key"@) == Some(SpecJson::Str(key)),
        find_member(ms, "state"@) == Some(SpecJson::Str(key_state_name(state))),
    ensures
        decode_message(SpecJson::Object(ms)) == Ok::<SpecMessage, DecodeError>(SpecMessage::Key { key, state }),
{
    reveal_strlit("key");
    reveal_strlit("start");
    reveal_strlit("init");
    reveal_strlit("join");
    reveal_strlit("stream_ready");
    assert("key"@.len() != "start"@.len());
    assert("key"@.len() != "init"@.len());
    assert("key"@.len() != "join"@.len());
    assert("key"@.len() != "stream_ready"@.len());
    lemma_key_state_name_roundtrip(state);
}

/// An object with `"type": "ext"`, `"ext"` a string and any `"data"` reads
/// as `ext` with that name and exactly that data.
pub proof fn lemma_read_ext(ms: Seq<(Seq<char>, SpecJson)>, ext: Seq<char>, data: SpecJson)
    requires
        find_member(ms, "type"@) == Some(SpecJson::Str("ext"@)),
        find_member(ms, "ext"@) == Some(SpecJson::Str(ext)),
        find_member(ms, "data"@) == Some(data),
    ensures
        decode_message(SpecJson::Object(ms)) == Ok::<SpecMessage, DecodeError>(SpecMessage::Ext { ext, data }),
{
    reveal_strlit("ext");
    reveal_strlit("start");
    reveal_strlit("init");
    reveal_strlit("join");
    reveal_strlit("stream_ready");
    reveal_strlit("key");
    assert("ext"@.len() != "start"@.len());
    assert("ext"@.len() != "init"@.len());
    assert("ext"@.len() != "join"@.len());
    assert("ext"@.len() != "stream_ready"@.len());
    assert("ext"@[0] != "key"@[0]);
}

/// An object with `"type": "stream_update"` and `"url"` a string reads as
/// `stream_update` with that URL.
pub proof fn lemma_read_stream_update(ms: Seq<(Seq<char>, SpecJson)>, url: Seq<char>)
    requires
        find_member(ms, "type"@) == Some(SpecJson::Str("stream_update"@)),
        find_member(ms, "url"@) == Some(SpecJson::Str(url)),
    ensures
        decode_message(SpecJson::Object(ms)) == Ok::<SpecMessage, DecodeError>(SpecMessage::StreamUpdate { url }),
{
    reveal_strlit("stream_update");
    reveal_strlit("start");
    reveal_strlit("init");
    reveal_strlit("join");
    reveal_strlit("stream_ready");
    reveal_strlit("key");
    reveal_strlit("ext");
    assert("stream_update"@.len() != "start"@.len());
    assert("stream_update"@.len() != "init"@.len());
    assert("stream_update"@.len() != "join"@.len());
    assert("stream_update"@.len() != "stream_ready"@.len());
    assert("stream_update"@.len() != "key"@.len());
    assert("stream_update"@.len() != "ext"@.len());
}

/// An object with `"type": "notify"`, `"message"` a string and
/// `"duration"` a non-negative integer or absent reads as `notify` with
/// those values.
pub proof fn lemma_read_notify(ms: Seq<(Seq<char>, SpecJson)>, message: Seq<char>, duration: Option<u64>)
    requires
        find_member(ms, "type"@) == Some(SpecJson::Str("notify"@)),
        find_member(ms, "message"@) == Some(SpecJson::Str(message)),
        find_member(ms, "duration"@) == match duration {
            Some(d) => Some(SpecJson::UInt(d)),
            None => None::<SpecJson>,
        },
    ensures
        decode_message(SpecJson::Object(ms)) == Ok::<SpecMessage, DecodeError>(SpecMessage::Notify { message, duration }),
{
    reveal_strlit("notify");
    reveal_strlit("start");
    reveal_strlit("init");
    reveal_strlit("join");
    reveal_strlit("stream_ready");
    reveal_strlit("key");
    reveal_strlit("ext");
    reveal_strlit("stream_update");
    assert("notify"@.len() != "start"@.len());
    assert("notify"@.len() != "init"@.len());
    assert("notify"@.len() != "join"@.len());
    assert("notify"@.len() != "stream_ready"@.len());
    assert("notify"@.len() != "key"@.len());
    assert("notify"@.len() != "ext"@.len());
    assert("notify"@.len() != "stream_update"@.len());
}

/// An object with `"type": "alert"`, `"severity"` a severity name and
/// `"message"` a string reads as `alert` with those values.
pub proof fn lemma_read_alert(ms: Seq<(Seq<char>, SpecJson)>, severity: Severity, message: Seq<char>)
    requires
        find_member(ms, "type"@) == Some(SpecJson::Str("alert"@)),
        find_member(ms, "severity"@) == Some(SpecJson::Str(severity_name(severity))),
        find_member(ms, "message"@) == Some(SpecJson::Str(message)),
    ensures
        decode_message(SpecJson::Object(ms)) == Ok::<SpecMessage, DecodeError>(SpecMessage::Alert { severity, message }),
{
    reveal_strlit("alert");
    reveal_strlit("start");
    reveal_strlit("init");
    reveal_strlit("join");
    reveal_strlit("stream_ready");
    reveal_strlit("key");
    reveal_strlit("ext");
    reveal_strlit("stream_update");
    reveal_strlit("notify");
    assert("alert"@[0] != "start"@[0]);
    assert("alert"@.len() != "init"@.len());
    assert("alert"@.len() != "join"@.len());
    assert("alert"@.len() != "stream_ready"@.len());
    assert("alert"@.len() != "key"@.len());
    assert("alert"@.len() != "ext"@.len());
    assert("alert"@.len() != "stream_update"@.len());
    assert("alert"@.len() != "notify"@.len());
    lemma_severity_name_roundtrip(severity);
}

// ---------------------------------------------------------------------------
// What the JSON object of a message holds, field by field
// ---------------------------------------------------------------------------

/// The JSON object written for a `start` holds `"type": "start"`, the
/// versions as an array of strings, and the name when there is one, and
/// nothing else.
pub proof fn lemma_write_start(version: Seq<Seq<char>>, name: Option<Seq<char>>)
    ensures
        encode_message(SpecMessage::Start { version, name }) matches SpecJson::Object(ms)
            && find_member(ms, "type"@) == Some(SpecJson::Str("start"@))
            && find_member(ms, "version"@) == Some(SpecJson::Array(version.map_values(|s: Seq<char>| SpecJson::Str(s))))
            && find_member(ms, "name"@) == (match name {
                Some(n) => Some(SpecJson::Str(n)),
                None => None::<SpecJson>,
            })
            && ms.len() == 2 + (if name is Some { 1int } else { 0int }),
{
    broadcast use lemma_find_member_concat, lemma_find_member_empty, lemma_find_member_push;

    reveal_strlit("type");
    reveal_strlit("version");
    reveal_strlit("name");
    assert("type"@.len() != "version"@.len());
    assert("type"@[0] != "name"@[0]);
    assert("version"@.len() != "name"@.len());
}

/// The JSON object written for an `init` holds its type, version, name,
/// authentication mode and endpoint, the formats as `"stream"` object's
/// `"supported"` names, the keys as the `"input"` object's `"keys"`, and
/// the extensions; optional fields only when present, and nothing else.
pub proof fn lemma_write_init(
    version: Seq<char>,
    name: Option<Seq<char>>,
    auth: AuthMode,
    auth_endpoint: Option<Seq<char>>,
    stream: Seq<StreamFormat>,
    input: Seq<Seq<char>>,
    extensions: Option<Seq<Seq<char>>>,
)
    ensures
        encode_message(SpecMessage::Init { version, name, auth, auth_endpoint, stream, input, extensions }) matches SpecJson::Object(ms)
            && find_member(ms, "type"@) == Some(SpecJson::Str("init"@))
            && find_member(ms, "version"@) == Some(SpecJson::Str(version))
            && find_member(ms, "name"@) == (match name {
                Some(n) => Some(SpecJson::Str(n)),
                None => None::<SpecJson>,
            })
            && find_member(ms, "auth"@) == Some(SpecJson::Str(auth_mode_name(auth)))
            && find_member(ms, "auth_endpoint"@) == (match auth_endpoint {
                Some(e) => Some(SpecJson::Str(e)),
                None => None::<SpecJson>,
            })
            && find_member(ms, "stream"@) == Some(SpecJson::Object(seq![
                ("supported"@, SpecJson::Array(stream.map_values(|f: StreamFormat| SpecJson::Str(format_name(f))))),
            ]))
            && find_member(ms, "input"@) == Some(SpecJson::Object(seq![
                ("keys"@, SpecJson::Array(input.map_values(|s: Seq<char>| SpecJson::Str(s)))),
            ]))
            && find_member(ms, "extensions"@) == (match extensions {
                Some(l) => Some(SpecJson::Array(l.map_values(|s: Seq<char>| SpecJson::Str(s)))),
                None => None::<SpecJson>,
            })
            && ms.len() == 5 + (if name is Some { 1int } else { 0int }) + (if auth_endpoint is Some { 1int } else { 0int }) + (if extensions is Some { 1int } else { 0int }),
{
    broadcast use lemma_find_member_concat, lemma_find_member_empty, lemma_find_member_push;

    reveal_strlit("type");
    reveal_strlit("version");
    reveal_strlit("name");
    reveal_strlit("auth");
    reveal_strlit("auth_endpoint");
    reveal_strlit("stream");
    reveal_strlit("input");
    reveal_strlit("extensions");
    assert("type"@.len() != "version"@.len());
    assert("type"@[0] != "name"@[0]);
    assert("type"@[0] != "auth"@[0]);
    assert("type"@.len() != "auth_endpoint"@.len());
    assert("type"@.len() != "stream"@.len());
    assert("type"@.len() != "input"@.len());
    assert("type"@.len() != "extensions"@.len());
    assert("version"@.len() != "name"@.len());
    assert("version"@.len() != "auth"@.len());
    assert("version"@.len() != "auth_endpoint"@.len());
    assert("version"@.len() != "stream"@.len());
    assert("version"@.len() != "input"@.len());
    assert("version"@.len() != "extensions"@.len());
    assert("name"@[0] != "auth"@[0]);
    assert("name"@.len() != "auth_endpoint"@.len());
    assert("name"@.len() != "stream"@.len());
    assert("name"@.len() != "input"@.len());
    assert("name"@.len() != "extensions"@.len());
    assert("auth"@.len() != "auth_endpoint"@.len());
    assert("auth"@.len() != "stream"@.len());
    assert("auth"@.len() != "input"@.len());
    assert("auth"@.len() != "extensions"@.len());
    assert("auth_endpoint"@.len() != "stream"@.len());
    assert("auth_endpoint"@.len() != "input"@.len());
    assert("auth_endpoint"@.len() != "extensions"@.len());
    assert("stream"@.len() != "input"@.len());
    assert("stream"@.len() != "extensions"@.len());
    assert("input"@.len() != "extensions"@.len());
}

/// The JSON object written for a `join` holds its type, the `"stream"`
/// object with the `"selected"` format name, and the extensions and token
/// when present, and nothing else.
pub proof fn lemma_write_join(stream: StreamFormat, extensions: Option<Seq<Seq<char>>>, token: Option<Seq<char>>)
    ensures
        encode_message(SpecMessage::Join { stream, extensions, token }) matches SpecJson::Object(ms)
            && find_member(ms, "type"@) == Some(SpecJson::Str("join"@))
            && find_member(ms, "stream"@) == Some(SpecJson::Object(seq![("selected"@, SpecJson::Str(format_name(stream)))]))
            && find_member(ms, "extensions"@) == (match extensions {
                Some(l) => Some(SpecJson::Array(l.map_values(|s: Seq<char>| SpecJson::Str(s)))),
                None => None::<SpecJson>,
            })
            && find_member(ms, "token"@) == (match token {
                Some(t) => Some(SpecJson::Str(t)),
                None => None::<SpecJson>,
            })
            && ms.len() == 2 + (if extensions is Some { 1int } else { 0int }) + (if token is Some { 1int } else { 0int }),
{
    broadcast use lemma_find_member_concat, lemma_find_member_empty, lemma_find_member_push;

    reveal_strlit("type");
    reveal_strlit("stream");
    reveal_strlit("extensions");
    reveal_strlit("token");
    assert("type"@.len() != "stream"@.len());
    assert("type"@.len() != "extensions"@.len());
    assert("type"@.len() != "token"@.len());
    assert("stream"@.len() != "extensions"@.len());
    assert("stream"@.len() != "token"@.len());
    assert("extensions"@.len() != "token"@.len());
}

/// The JSON object written for a `stream_ready` holds its type, the format
/// name, the URL, and the extensions (exactly those, in order) when there
/// are any listed, and nothing else.
pub proof fn lemma_write_stream_ready(format: StreamFormat, url: Seq<char>, extensions: Option<Seq<Seq<char>>>)
    ensures
        encode_message(SpecMessage::StreamReady { format, url, extensions }) matches SpecJson::Object(ms)
            && find_member(ms, "type"@) == Some(SpecJson::Str("stream_ready"@))
            && find_member(ms, "format"@) == Some(SpecJson::Str(format_name(format)))
            && find_member(ms, "url"@) == Some(SpecJson::Str(url))
            && find_member(ms, "extensions"@) == (match extensions {
                Some(l) => Some(SpecJson::Array(l.map_values(|s: Seq<char>| SpecJson::Str(s)))),
                None => None::<SpecJson>,
            })
            && ms.len() == 3 + (if extensions is Some { 1int } else { 0int }),
{
    broadcast use lemma_find_member_concat, lemma_find_member_empty, lemma_find_member_push;

    reveal_strlit("type");
    reveal_strlit("format");
    reveal_strlit("url");
    reveal_strlit("extensions");
    assert("type"@.len() != "format"@.len());
    assert("type"@.len() != "url"@.len());
    assert("type"@.len() != "extensions"@.len());
    assert("format"@.len() != "url"@.len());
    assert("format"@.len() != "extensions"@.len());
    assert("url"@.len() != "extensions"@.len());
}

/// The JSON object written for a `key` holds its type, the key and the
/// state's name, and nothing else.
pub proof fn lemma_write_key(key: Seq<char>, state: KeyState)
    ensures
        encode_message(SpecMessage::Key { key, state }) matches SpecJson::Object(ms)
            && find_member(ms, "type"@) == Some(SpecJson::Str("key"@))
            && find_member(ms, "key"@) == Some(SpecJson::Str(key))
            && find_member(ms, "state"@) == Some(SpecJson::Str(key_state_name(state)))
            && ms.len() == 3,
{
    broadcast use lemma_find_member_concat, lemma_find_member_empty, lemma_find_member_push;

    reveal_strlit("type");
    reveal_strlit("key");
    reveal_strlit("state");
    assert("type"@.len() != "key"@.len());
    assert("type"@.len() != "state"@.len());
    assert("key"@.len() != "state"@.len());
}

/// The JSON object written for an `ext` holds its type, the extension name
/// and the data as it is, and nothing else.
pub proof fn lemma_write_ext(ext: Seq<char>, data: SpecJson)
    ensures
        encode_message(SpecMessage::Ext { ext, data }) matches SpecJson::Object(ms)
            && find_member(ms, "type"@) == Some(SpecJson::Str("ext"@))
            && find_member(ms, "ext"@) == Some(SpecJson::Str(ext))
            && find_member(ms, "data"@) == Some(data)
            && ms.len() == 3,
{
    broadcast use lemma_find_member_concat, lemma_find_member_empty, lemma_find_member_push;

    reveal_strlit("type");
    reveal_strlit("ext");
    reveal_strlit("data");
    assert("type"@.len() != "ext"@.len());
    assert("type"@[0] != "data"@[0]);
    assert("ext"@.len() != "data"@.len());
}

/// The JSON object written for a `stream_update` holds its type and the
/// URL, and nothing else.
pub proof fn lemma_write_stream_update(url: Seq<char>)
    ensures
        encode_message(SpecMessage::StreamUpdate { url }) matches SpecJson::Object(ms)
            && find_member(ms, "type"@) == Some(SpecJson::Str("stream_update"@))
            && find_member(ms, "url"@) == Some(SpecJson::Str(url))
            && ms.len() == 2,
{
    broadcast use lemma_find_member_concat, lemma_find_member_empty, lemma_find_member_push;

    reveal_strlit("type");
    reveal_strlit("url");
    assert("type"@.len() != "url"@.len());
}

/// The JSON object written for a `notify` holds its type, the message and
/// the duration when there is one, and nothing else.
pub proof fn lemma_write_notify(message: Seq<char>, duration: Option<u64>)
    ensures
        encode_message(SpecMessage::Notify { message, duration }) matches SpecJson::Object(ms)
            && find_member(ms, "type"@) == Some(SpecJson::Str("notify"@))
            && find_member(ms, "message"@) == Some(SpecJson::Str(message))
            && find_member(ms, "duration"@) == (match duration {
                Some(d) => Some(SpecJson::UInt(d)),
                None => None::<SpecJson>,
            })
            && ms.len() == 2 + (if duration is Some { 1int } else { 0int }),
{
    broadcast use lemma_find_member_concat, lemma_find_member_empty, lemma_find_member_push;

    reveal_strlit("type");
    reveal_strlit("message");
    reveal_strlit("duration");
    assert("type"@.len() != "message"@.len());
    assert("type"@.len() != "duration"@.len());
    assert("message"@.len() != "duration"@.len());
}

/// The JSON object written for an `alert` holds its type, the severity's
/// name and the message, and nothing else.
pub proof fn lemma_write_alert(severity: Severity, message: Seq<char>)
    ensures
        encode_message(SpecMessage::Alert { severity, message }) matches SpecJson::Object(ms)
            && find_member(ms, "type"@) == Some(SpecJson::Str("alert"@))
            && find_member(ms, "severity"@) == Some(SpecJson::Str(severity_name(severity)))
            && find_member(ms, "message"@) == Some(SpecJson::Str(message))
            && ms.len() == 3,
{
    broadcast use lemma_find_member_concat, lemma_find_member_empty, lemma_find_member_push;

    reveal_strlit("type");
    reveal_strlit("severity");
    reveal_strlit("message");
    assert("type"@.len() != "severity"@.len());
    assert("type"@.len() != "message"@.len());
    assert("severity"@.len() != "message"@.len());
}

/// The JSON object written for an unknown message holds only
/// `"type": "unknown"`.
pub proof fn lemma_write_unknown()
    ensures
        encode_message(SpecMessage::Unknown) == SpecJson::Object(seq![("type"@, SpecJson::Str("unknown"@))]),
{
}

} // verus!




