//! A JSON value model: the executable tree, its mathematical view, and the
//! calls into serde_json that turn text into a tree and back.

use vstd::prelude::*;

use crate::error::RrpError;
use crate::types;

verus! {

/// A JSON number with a fractional part or an exponent (or an integer too
/// large for 64 bits), carried as serde_json holds it.
#[verifier::external_type_specification]
#[verifier::external_body]
pub struct ExNumber(serde_json::Number);

/// `Number::clone` (derived in serde_json over a `Copy` representation)
/// gives back an identical number.
pub assume_specification[ <serde_json::Number as Clone>::clone ](n: &serde_json::Number) -> (r: serde_json::Number)
    ensures
        r == *n,
;

/// serde_json's own JSON value, which the text calls below produce and take.
#[verifier::external_type_specification]
#[verifier::external_body]
pub struct ExSerdeValue(serde_json::Value);

/// serde_json's error type.
#[verifier::external_type_specification]
#[verifier::external_body]
pub struct ExJsonError(serde_json::Error);

/// A JSON value.
#[derive(Debug, PartialEq)]
pub enum JsonValue {
    Null,
    Bool(bool),
    /// A non-negative integer.
    UInt(u64),
    /// A signed integer; serde_json reads every negative integer as one.
    Int(i64),
    /// Any other number.
    Float(serde_json::Number),
    Str(String),
    Array(Vec<JsonValue>),
    /// An object, as its members in order.
    Object(Vec<(String, JsonValue)>),
}

/// The mathematical form of a JSON value.
pub enum SpecJson {
    Null,
    Bool(bool),
    UInt(u64),
    Int(i64),
    Float(serde_json::Number),
    Str(Seq<char>),
    Array(Seq<SpecJson>),
    Object(Seq<(Seq<char>, SpecJson)>),
}

/// The mathematical form of an executable JSON value.
pub open spec fn json_view(v: JsonValue) -> SpecJson
    decreases v,
{
    match v {
        JsonValue::Null => SpecJson::Null,
        JsonValue::Bool(b) => SpecJson::Bool(b),
        JsonValue::UInt(u) => SpecJson::UInt(u),
        JsonValue::Int(i) => SpecJson::Int(i),
        JsonValue::Float(n) => SpecJson::Float(n),
        JsonValue::Str(s) => SpecJson::Str(s@),
        JsonValue::Array(items) => SpecJson::Array(
            Seq::new(items.len() as nat, |i: int| if 0 <= i < items.len() { json_view(items[i]) } else { SpecJson::Null }),
        ),
        JsonValue::Object(members) => SpecJson::Object(
            Seq::new(members.len() as nat, |i: int| if 0 <= i < members.len() { (members[i].0@, json_view(members[i].1)) } else { (Seq::empty(), SpecJson::Null) }),
        ),
    }
}

impl View for JsonValue {
    type V = SpecJson;

    open spec fn view(&self) -> SpecJson {
        json_view(*self)
    }
}

impl JsonValue {
    /// A copy of this value, member for member.
    #[verifier::loop_isolation(false)]
    pub fn duplicate(&self) -> (r: JsonValue)
        ensures
            r@ == self@,
        decreases self,
    {
        match self {
            JsonValue::Null => JsonValue::Null,
            JsonValue::Bool(b) => JsonValue::Bool(*b),
            JsonValue::UInt(u) => JsonValue::UInt(*u),
            JsonValue::Int(i) => JsonValue::Int(*i),
            JsonValue::Float(n) => JsonValue::Float(n.clone()),
            JsonValue::Str(s) => JsonValue::Str(s.clone()),
            JsonValue::Array(items) => {
                let mut out: Vec<JsonValue> = Vec::new();
                let mut i: usize = 0;
                while i < items.len()
                    invariant
                        i <= items.len(),
                        out.len() == i,
                        forall|j: int| 0 <= j < i ==> #[trigger] out[j]@ == items[j]@,
                    decreases items.len() - i,
                {
                    proof {
                        assert(decreases_to!(self => items[i as int]));
                    }
                    let item = items[i].duplicate();
                    out.push(item);
                    i = i + 1;
                }
                let r = JsonValue::Array(out);
                assert(r@->Array_0.len() == self@->Array_0.len());
                assert forall|j: int| 0 <= j < out.len() implies r@->Array_0[j] == self@->Array_0[j] by {
                    assert(out[j]@ == items[j]@);
                }
                assert(r@->Array_0 =~= self@->Array_0);
                r
            },
            JsonValue::Object(members) => {
                let mut out: Vec<(String, JsonValue)> = Vec::new();
                let mut i: usize = 0;
                while i < members.len()
                    invariant
                        i <= members.len(),
                        out.len() == i,
                        forall|j: int|
                            0 <= j < i ==> #[trigger] out[j].0@ == members[j].0@ && out[j].1@
                                == members[j].1@,
                    decreases members.len() - i,
                {
                    let key = members[i].0.clone();
                    proof {
                        assert(decreases_to!(self => members[i as int].1));
                    }
                    let value = members[i].1.duplicate();
                    out.push((key, value));
                    i = i + 1;
                }
                let r = JsonValue::Object(out);
                assert(r@->Object_0 =~= self@->Object_0);
                r
            },
        }
    }
}

/// The value of the first member named `key` in an object's members, if any.
pub open spec fn find_member(members: Seq<(Seq<char>, SpecJson)>, key: Seq<char>) -> Option<SpecJson> {
    find_member_from(members, key, 0)
}

/// The value of the first member named `key` at position `i` or later.
pub open spec fn find_member_from(members: Seq<(Seq<char>, SpecJson)>, key: Seq<char>, i: int) -> Option<SpecJson>
    decreases members.len() - i,
{
    if i < 0 || i >= members.len() {
        None
    } else if members[i].0 == key {
        Some(members[i].1)
    } else {
        find_member_from(members, key, i + 1)
    }
}

/// Looking up in `a + b` from a position inside `b` is looking up in `b`.
proof fn lemma_find_member_from_suffix(
    a: Seq<(Seq<char>, SpecJson)>,
    b: Seq<(Seq<char>, SpecJson)>,
    key: Seq<char>,
    j: int,
)
    requires
        0 <= j <= b.len(),
    ensures
        find_member_from(a + b, key, a.len() + j) == find_member_from(b, key, j),
    decreases b.len() - j,
{
    if j < b.len() {
        assert((a + b)[a.len() + j] == b[j]);
        lemma_find_member_from_suffix(a, b, key, j + 1);
    }
}

/// Looking up in `a + b` from a position inside `a`.
proof fn lemma_find_member_from_prefix(
    a: Seq<(Seq<char>, SpecJson)>,
    b: Seq<(Seq<char>, SpecJson)>,
    key: Seq<char>,
    i: int,
)
    requires
        0 <= i <= a.len(),
    ensures
        find_member_from(a + b, key, i) == match find_member_from(a, key, i) {
            Some(v) => Some(v),
            None => find_member_from(b, key, 0),
        },
    decreases a.len() - i,
{
    if i < a.len() {
        assert((a + b)[i] == a[i]);
        lemma_find_member_from_prefix(a, b, key, i + 1);
    } else {
        lemma_find_member_from_suffix(a, b, key, 0);
    }
}

/// The first member named `key` in `a + b` is the first in `a` if `a` has
/// one, and the first in `b` otherwise.
pub broadcast proof fn lemma_find_member_concat(
    a: Seq<(Seq<char>, SpecJson)>,
    b: Seq<(Seq<char>, SpecJson)>,
    key: Seq<char>,
)
    ensures
        #[trigger] find_member(a + b, key) == match find_member(a, key) {
            Some(v) => Some(v),
            None => find_member(b, key),
        },
{
    lemma_find_member_from_prefix(a, b, key, 0);
}

/// An empty member list has no member named `key`.
pub broadcast proof fn lemma_find_member_empty(key: Seq<char>)
    ensures
        #[trigger] find_member(Seq::<(Seq<char>, SpecJson)>::empty(), key) == None::<SpecJson>,
{
}

/// Adding a member at the end changes a lookup only when no earlier member
/// had the name.
pub broadcast proof fn lemma_find_member_push(
    members: Seq<(Seq<char>, SpecJson)>,
    m: (Seq<char>, SpecJson),
    key: Seq<char>,
)
    ensures
        #[trigger] find_member(members.push(m), key) == match find_member(members, key) {
            Some(v) => Some(v),
            None => if m.0 == key {
                Some(m.1)
            } else {
                None
            },
        },
{
    assert(members.push(m) =~= members + seq![m]);
    lemma_find_member_concat(members, seq![m], key);
    assert(find_member_from(seq![m], key, 1) == None::<SpecJson>);
}

/// Whether no two members of an object share a name.
pub open spec fn names_distinct(members: Seq<(Seq<char>, SpecJson)>) -> bool {
    forall|i: int, j: int| 0 <= i < j < members.len() ==> #[trigger] members[i].0 != #[trigger] members[j].0
}

/// A lookup that finds nothing means no member from position `i` on has
/// the name.
proof fn lemma_find_member_from_none(members: Seq<(Seq<char>, SpecJson)>, key: Seq<char>, i: int)
    requires
        0 <= i,
        find_member_from(members, key, i) == None::<SpecJson>,
    ensures
        forall|j: int| i <= j < members.len() ==> #[trigger] members[j].0 != key,
    decreases members.len() - i,
{
    if i < members.len() {
        lemma_find_member_from_none(members, key, i + 1);
    }
}

/// Adding a member whose name no member has keeps the names distinct.
pub proof fn lemma_names_distinct_push(members: Seq<(Seq<char>, SpecJson)>, m: (Seq<char>, SpecJson))
    requires
        names_distinct(members),
        find_member(members, m.0) == None::<SpecJson>,
    ensures
        names_distinct(members.push(m)),
{
    lemma_find_member_from_none(members, m.0, 0);
    let ms = members.push(m);
    assert forall|i: int, j: int| 0 <= i < j < ms.len() implies #[trigger] ms[i].0 != #[trigger] ms[j].0 by {
        if j == members.len() {
            assert(ms[i] == members[i]);
        } else {
            assert(ms[i] == members[i]);
            assert(ms[j] == members[j]);
        }
    }
}

/// Whether serde_json reads the text it writes for `v` back as `v` itself,
/// with at most `depth` levels of arrays and objects: `v` holds no number
/// other than a 64-bit integer, every integer held as signed is negative
/// (serde_json reads a non-negative one as unsigned), and no object has two
/// members of one name (serde_json keeps only the last).
pub open spec fn json_reads_back(v: SpecJson, depth: int) -> bool
    decreases v,
{
    match v {
        SpecJson::Float(_) => false,
        SpecJson::Int(i) => i < 0,
        SpecJson::Array(items) => depth >= 1 && forall|k: int|
            0 <= k < items.len() ==> json_reads_back(#[trigger] items[k], depth - 1),
        SpecJson::Object(members) => depth >= 1 && names_distinct(members) && forall|k: int|
            0 <= k < members.len() ==> json_reads_back(#[trigger] members[k].1, depth - 1),
        _ => true,
    }
}

/// Whether serde_json writes the string `s` as it is between quotes: it
/// holds no quote, no backslash and no control character below U+0020 (the
/// characters serde_json escapes).
pub open spec fn needs_no_escape(s: Seq<char>) -> bool {
    forall|i: int| 0 <= i < s.len() ==> #[trigger] s[i] != '"' && s[i] != '\\' && (s[i] as int) >= 0x20
}

/// The deepest nesting of arrays and objects that serde_json reads: it
/// refuses a text with 128 levels.
pub open spec fn json_depth_limit() -> int {
    127
}

/// The member lookup of a JSON value: the value of the first member named
/// `key` when `v` is an object; `None` otherwise.
pub open spec fn spec_get(v: SpecJson, key: Seq<char>) -> Option<SpecJson> {
    match v {
        SpecJson::Object(members) => find_member(members, key),
        _ => None,
    }
}

/// The mathematical form of an object's members.
pub open spec fn members_view(members: Vec<(String, JsonValue)>) -> Seq<(Seq<char>, SpecJson)> {
    json_view(JsonValue::Object(members))->Object_0
}

/// The first member of `members` named `key`.
pub fn find_in_members<'a>(members: &'a Vec<(String, JsonValue)>, key: &str) -> (r: Option<&'a JsonValue>)
    ensures
        match find_member(members_view(*members), key@) {
            Some(v) => r is Some && r->Some_0@ == v,
            None => r is None,
        },
{
    let ghost ms = members_view(*members);
    let mut i: usize = 0;
    while i < members.len()
        invariant
            i <= members.len(),
            ms == members_view(*members),
            find_member(ms, key@) == find_member_from(ms, key@, i as int),
        decreases members.len() - i,
    {
        if types::str_eq(members[i].0.as_str(), key) {
            return Some(&members[i].1);
        }
        i = i + 1;
    }
    None
}

/// Adds the member `key: value` at the end of an object's members.
pub fn push_member(members: &mut Vec<(String, JsonValue)>, key: &str, value: JsonValue)
    ensures
        members_view(*final(members)) == members_view(*old(members)).push((key@, value@)),
{
    let ghost before = members_view(*members);
    members.push((key.to_owned(), value));
    assert(members_view(*members) =~= before.push((key@, value@)));
}

impl JsonValue {
    /// The value of the first member named `key` when this is an object;
    /// `None` when it is not an object or has no such member.
    pub fn get(&self, key: &str) -> (r: Option<&JsonValue>)
        ensures
            match spec_get(self@, key@) {
                Some(v) => r is Some && r->Some_0@ == v,
                None => r is None,
            },
    {
        match self {
            JsonValue::Object(members) => find_in_members(members, key),
            _ => None,
        }
    }
}

impl Clone for JsonValue {
    fn clone(&self) -> (r: JsonValue)
        ensures
            r@ == self@,
    {
        self.duplicate()
    }
}

} // verus!
verus! {

/// What serde_json reads from a JSON text, as a value: `None` when the text
/// is not one well-formed JSON value.
pub uninterp spec fn spec_parse_json_text(text: Seq<char>) -> Option<SpecJson>;

/// The JSON text that serde_json writes for a value.
pub uninterp spec fn spec_render_json_text(v: SpecJson) -> Seq<char>;

/// Calls `serde_json::from_str::<serde_json::Value>`: the call succeeds
/// exactly when the text is well-formed JSON, and the tree it gives is a
/// function of the text alone.
#[verifier::external_body]
pub(crate) fn parse_json_text(text: &str) -> (r: Result<JsonValue, serde_json::Error>)
    ensures
        r is Ok <==> spec_parse_json_text(text@) is Some,
        r matches Ok(v) ==> v@ == spec_parse_json_text(text@)->Some_0,
{
    serde_json::from_str::<serde_json::Value>(text).map(from_serde_value)
}

/// Calls `serde_json::to_string` on the serde_json form of a value. Writing
/// a `serde_json::Value` to a string does not fail (object keys are strings
/// and the output buffer is a `Vec`), and the text is a function of the
/// value alone. serde_json reads that text back as the same value when the
/// value holds only strings, booleans, nulls and 64-bit integers in the form
/// serde_json reads them, no object repeats a member name (members keep
/// their order: the `preserve_order` feature), and it nests arrays and
/// objects at most 127 deep (serde_json's parser stops at 128). A string
/// with nothing to escape is written between quotes as it is.
#[verifier::external_body]
pub(crate) fn render_json_text(v: &JsonValue) -> (r: Result<String, serde_json::Error>)
    ensures
        r is Ok,
        r matches Ok(s) ==> s@ == spec_render_json_text(v@),
        r matches Ok(s) ==> (json_reads_back(v@, json_depth_limit()) ==> spec_parse_json_text(s@) == Some(v@)),
        r matches Ok(s) ==> (v@ matches SpecJson::Str(t) ==> (needs_no_escape(t) ==> s@ == seq!['"'] + t + seq!['"'])),
{
    serde_json::to_string(&to_serde_value(v))
}

impl JsonValue {
    /// Parses a JSON text, as serde_json reads it.
    pub fn from_text(text: &str) -> (r: Result<JsonValue, RrpError>)
        ensures
            match spec_parse_json_text(text@) {
                Some(v) => r is Ok && r->Ok_0@ == v,
                None => r matches Err(RrpError::Json(_)),
            },
    {
        match parse_json_text(text) {
            Ok(v) => Ok(v),
            Err(e) => Err(RrpError::Json(e)),
        }
    }

    /// The JSON text serde_json writes for this value; serde_json reads it
    /// back as this value when `json_reads_back` holds of it. A string with
    /// nothing to escape is written between quotes as it is.
    pub fn to_text(&self) -> (r: String)
        ensures
            r@ == spec_render_json_text(self@),
            json_reads_back(self@, json_depth_limit()) ==> spec_parse_json_text(r@) == Some(self@),
            self@ matches SpecJson::Str(t) ==> (needs_no_escape(t) ==> r@ == seq!['"'] + t + seq!['"']),
    {
        match render_json_text(self) {
            Ok(s) => s,
            Err(_) => String::new(),
        }
    }
}

/// Moves a serde_json tree into the library's form, variant for variant.
#[verifier::external_body]
fn from_serde_value(v: serde_json::Value) -> JsonValue {
    match v {
        serde_json::Value::Null => JsonValue::Null,
        serde_json::Value::Bool(b) => JsonValue::Bool(b),
        serde_json::Value::Number(n) => match (n.as_u64(), n.as_i64()) {
            (Some(u), _) => JsonValue::UInt(u),
            (None, Some(i)) => JsonValue::Int(i),
            (None, None) => JsonValue::Float(n),
        },
        serde_json::Value::String(s) => JsonValue::Str(s),
        serde_json::Value::Array(a) => JsonValue::Array(a.into_iter().map(from_serde_value).collect()),
        serde_json::Value::Object(m) => JsonValue::Object(m.into_iter().map(|(k, x)| (k, from_serde_value(x))).collect()),
    }
}

/// Copies the library's tree into serde_json's form, variant for variant.
#[verifier::external_body]
fn to_serde_value(v: &JsonValue) -> serde_json::Value {
    match v {
        JsonValue::Null => serde_json::Value::Null,
        JsonValue::Bool(b) => serde_json::Value::Bool(*b),
        JsonValue::UInt(u) => serde_json::Value::Number((*u).into()),
        JsonValue::Int(i) => serde_json::Value::Number((*i).into()),
        JsonValue::Float(n) => serde_json::Value::Number(n.clone()),
        JsonValue::Str(s) => serde_json::Value::String(s.clone()),
        JsonValue::Array(a) => serde_json::Value::Array(a.iter().map(to_serde_value).collect()),
        JsonValue::Object(m) => serde_json::Value::Object(m.iter().map(|(k, x)| (k.clone(), to_serde_value(x))).collect()),
    }
}

} // verus!
