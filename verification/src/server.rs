//! The renderer side of the RRP handshake, as decisions: what each frame
//! from a viewer leads to, and what to answer once the stream is known.
//!
//! 1. wait for `start` with the viewer's versions
//! 2. choose a version and send `init` (or refuse with a critical alert)
//! 3. wait for `join` with the viewer's format selection
//! 4. ask the renderer's application for the stream, then send
//!    `stream_ready`

use vstd::prelude::*;

use crate::error::RrpError;
use crate::message::{RrpMessage, SpecMessage};
use crate::session::{text_reads_as, Frame, Session};
use crate::types::{AuthMode, InputCaps, Severity, StreamCaps, StreamFormat};
use crate::version::{
    compare_versions, is_canonical_version, lemma_canonical_versions_rank_apart, lemma_version_compare_antisymmetric, lemma_version_compare_reflexive,
    lemma_version_compare_transitive, version_compare,
};

verus! {

/// Configuration for the renderer side of an RRP connection.
#[derive(Debug, Clone)]
pub struct RendererConfig {
    /// Human-readable renderer name.
    pub name: Option<String>,
    /// RRP versions this renderer supports.
    pub supported_versions: Vec<String>,
    /// Authentication mode.
    pub auth: AuthMode,
    /// OAuth 2.0 Device Authorization endpoint (required when `auth` is
    /// `Required`).
    pub auth_endpoint: Option<String>,
    /// Supported stream formats.
    pub stream: StreamCaps,
    /// Accepted input keys.
    pub input: InputCaps,
    /// Supported extensions.
    pub extensions: Option<Vec<String>>,
}

/// The characters of each string of a list.
pub open spec fn texts(l: Seq<String>) -> Seq<Seq<char>> {
    l.map_values(|s: String| s@)
}

/// Whether the client's version at position `k` is one the server supports.
pub open spec fn is_common_version(server: Seq<Seq<char>>, client: Seq<Seq<char>>, k: int) -> bool {
    0 <= k < client.len() && server.contains(client[k])
}

/// Whether the client's version at position `k` is the one to select: a
/// common version that no common version outranks, and the first such in
/// the client's order.
pub open spec fn is_selected_version(server: Seq<Seq<char>>, client: Seq<Seq<char>>, k: int) -> bool {
    &&& is_common_version(server, client, k)
    &&& forall|j: int| #[trigger]
        is_common_version(server, client, j) ==> version_compare(client[j], client[k]) <= 0
    &&& forall|j: int|
        0 <= j < k && #[trigger] is_common_version(server, client, j) ==> version_compare(
            client[j],
            client[k],
        ) < 0
}

/// Whether `v` is one of the strings of `l`.
fn contains_string(l: &[String], v: &String) -> (r: bool)
    ensures
        r == texts(l@).contains(v@),
{
    let mut i: usize = 0;
    while i < l.len()
        invariant
            i <= l@.len(),
            forall|j: int| 0 <= j < i ==> l@[j]@ != v@,
        decreases l@.len() - i,
    {
        if l[i] == *v {
            assert(texts(l@)[i as int] == v@);
            return true;
        }
        i = i + 1;
    }
    proof {
        if texts(l@).contains(v@) {
            let j = choose|j: int| 0 <= j < texts(l@).len() && texts(l@)[j] == v@;
            assert(l@[j]@ == v@);
        }
    }
    false
}

/// Selects the highest version present in both lists (see `version` for the
/// order of versions); among versions that rank the same, the first in the
/// client's list. `None` when the lists have no version in common.
///
/// The order is the precedence of semantic versions, so a pre-release such
/// as `"1.0.0-rc1"` ranks below its release `"1.0.0"`.
pub fn select_version(server: &[String], client: &[String]) -> (r: Option<String>)
    ensures
        r is None <==> !exists|k: int| is_common_version(texts(server@), texts(client@), k),
        r matches Some(v) ==> exists|k: int|
            is_selected_version(texts(server@), texts(client@), k) && texts(client@)[k] == v@,
{
    let ghost sv = texts(server@);
    let ghost cv = texts(client@);
    let mut best: Option<usize> = None;
    let mut i: usize = 0;
    while i < client.len()
        invariant
            i <= client@.len(),
            sv == texts(server@),
            cv == texts(client@),
            match best {
                None => forall|j: int| 0 <= j < i ==> !#[trigger] is_common_version(sv, cv, j),
                Some(b) => {
                    &&& b < i
                    &&& is_common_version(sv, cv, b as int)
                    &&& forall|j: int|
                        0 <= j < i && #[trigger] is_common_version(sv, cv, j) ==> version_compare(
                            cv[j],
                            cv[b as int],
                        ) <= 0
                    &&& forall|j: int|
                        0 <= j < b && #[trigger] is_common_version(sv, cv, j) ==> version_compare(
                            cv[j],
                            cv[b as int],
                        ) < 0
                },
            },
        decreases client@.len() - i,
    {
        let candidate = &client[i];
        assert(cv[i as int] == candidate@);
        if contains_string(server, candidate) {
            match best {
                None => {
                    proof {
                        lemma_version_compare_reflexive(cv[i as int]);
                    }
                    best = Some(i);
                },
                Some(b) => {
                    let c = compare_versions(candidate.as_str(), client[b].as_str());
                    assert(cv[b as int] == client@[b as int]@);
                    if c > 0 {
                        proof {
                            lemma_version_compare_antisymmetric(cv[i as int], cv[b as int]);
                            lemma_version_compare_reflexive(cv[i as int]);
                            assert forall|j: int|
                                0 <= j < i + 1 && #[trigger] is_common_version(
                                    sv,
                                    cv,
                                    j,
                                ) implies version_compare(cv[j], cv[i as int]) < 0 || j == i by {
                                if j < i {
                                    lemma_version_compare_transitive(
                                        cv[j],
                                        cv[b as int],
                                        cv[i as int],
                                    );
                                }
                            }
                        }
                        best = Some(i);
                    }
                },
            }
        }
        i = i + 1;
    }
    match best {
        None => {
            proof {
                if exists|k: int| is_common_version(sv, cv, k) {
                    let k = choose|k: int| is_common_version(sv, cv, k);
                    assert(0 <= k < i);
                }
            }
            None
        },
        Some(b) => {
            assert(is_selected_version(sv, cv, b as int));
            assert(cv[b as int] == client@[b as int]@);
            Some(client[b].clone())
        },
    }
}

/// The version selected is one both sides list, and no version both sides
/// list ranks above it; when the lists share no version, none is selected.
pub proof fn lemma_selected_version_is_highest_shared(server: Seq<Seq<char>>, client: Seq<Seq<char>>, k: int)
    ensures
        is_selected_version(server, client, k) ==> {
            &&& server.contains(client[k])
            &&& client.contains(client[k])
            &&& forall|v: Seq<char>|
                server.contains(v) && client.contains(v) ==> #[trigger] version_compare(v, client[k]) <= 0
        },
        (exists|j: int| is_common_version(server, client, j)) == (exists|v: Seq<char>|
            server.contains(v) && #[trigger] client.contains(v)),
{
    if is_selected_version(server, client, k) {
        assert(client.contains(client[k]));
        assert forall|v: Seq<char>| server.contains(v) && client.contains(v) implies #[trigger] version_compare(
            v,
            client[k],
        ) <= 0 by {
            let j = choose|j: int| 0 <= j < client.len() && client[j] == v;
            assert(is_common_version(server, client, j));
        }
    }
    if exists|j: int| is_common_version(server, client, j) {
        let j = choose|j: int| is_common_version(server, client, j);
        assert(client.contains(client[j]));
    }
    if exists|v: Seq<char>| server.contains(v) && #[trigger] client.contains(v) {
        let v = choose|v: Seq<char>| server.contains(v) && #[trigger] client.contains(v);
        let j = choose|j: int| 0 <= j < client.len() && client[j] == v;
        assert(is_common_version(server, client, j));
    }
}

/// Whether the two sides of `(s1, c1)` share exactly the versions that the
/// two sides of `(s2, c2)` share.
pub open spec fn same_shared_versions(
    s1: Seq<Seq<char>>,
    c1: Seq<Seq<char>>,
    s2: Seq<Seq<char>>,
    c2: Seq<Seq<char>>,
) -> bool {
    forall|v: Seq<char>| (s1.contains(v) && c1.contains(v)) == (s2.contains(v) && c2.contains(v))
}

/// Whether no two different versions shared by `server` and `client` rank
/// the same.
pub open spec fn shared_versions_rank_apart(server: Seq<Seq<char>>, client: Seq<Seq<char>>) -> bool {
    forall|v: Seq<char>, w: Seq<char>|
        server.contains(v) && client.contains(v) && server.contains(w) && client.contains(w)
            && #[trigger] version_compare(v, w) == 0 ==> v == w
}

/// The version chosen depends only on the versions the two sides share: it
/// is the same with the two lists swapped, or either list reordered, as
/// long as no two different shared versions rank the same (otherwise the
/// client's order breaks the tie).
pub proof fn lemma_selected_version_depends_on_shared(
    s1: Seq<Seq<char>>,
    c1: Seq<Seq<char>>,
    s2: Seq<Seq<char>>,
    c2: Seq<Seq<char>>,
)
    requires
        same_shared_versions(s1, c1, s2, c2),
        shared_versions_rank_apart(s1, c1),
    ensures
        (exists|k: int| is_common_version(s1, c1, k)) == (exists|k: int| is_common_version(s2, c2, k)),
        forall|k1: int, k2: int|
            is_selected_version(s1, c1, k1) && is_selected_version(s2, c2, k2) ==> c1[k1] == c2[k2],
{
    if exists|k: int| is_common_version(s1, c1, k) {
        let k = choose|k: int| is_common_version(s1, c1, k);
        assert(c1.contains(c1[k]));
        let j = choose|j: int| 0 <= j < c2.len() && c2[j] == c1[k];
        assert(is_common_version(s2, c2, j));
    }
    if exists|k: int| is_common_version(s2, c2, k) {
        let k = choose|k: int| is_common_version(s2, c2, k);
        assert(c2.contains(c2[k]));
        let j = choose|j: int| 0 <= j < c1.len() && c1[j] == c2[k];
        assert(is_common_version(s1, c1, j));
    }
    assert forall|k1: int, k2: int|
        is_selected_version(s1, c1, k1) && is_selected_version(s2, c2, k2) implies c1[k1] == c2[k2] by {
        let v1 = c1[k1];
        let v2 = c2[k2];
        assert(c1.contains(v1));
        assert(c2.contains(v2));
        let j1 = choose|j: int| 0 <= j < c1.len() && c1[j] == v2;
        let j2 = choose|j: int| 0 <= j < c2.len() && c2[j] == v1;
        assert(is_common_version(s1, c1, j1));
        assert(is_common_version(s2, c2, j2));
        lemma_version_compare_antisymmetric(v1, v2);
        assert(version_compare(v1, v2) == 0);
    }
}

/// Between versions written canonically, as semantic versions are (no build
/// metadata, no numeric component with a leading zero), the version chosen
/// depends only on the versions the two sides share: it is the same with
/// the two lists swapped, or either list reordered.
pub proof fn lemma_selected_canonical_version_depends_on_shared(
    s1: Seq<Seq<char>>,
    c1: Seq<Seq<char>>,
    s2: Seq<Seq<char>>,
    c2: Seq<Seq<char>>,
)
    requires
        same_shared_versions(s1, c1, s2, c2),
        forall|v: Seq<char>| s1.contains(v) && c1.contains(v) ==> is_canonical_version(v),
    ensures
        (exists|k: int| is_common_version(s1, c1, k)) == (exists|k: int| is_common_version(s2, c2, k)),
        forall|k1: int, k2: int|
            is_selected_version(s1, c1, k1) && is_selected_version(s2, c2, k2) ==> c1[k1] == c2[k2],
{
    assert forall|v: Seq<char>, w: Seq<char>|
        s1.contains(v) && c1.contains(v) && s1.contains(w) && c1.contains(w)
            && #[trigger] version_compare(v, w) == 0 implies v == w by {
        lemma_canonical_versions_rank_apart(v, w);
    }
    lemma_selected_version_depends_on_shared(s1, c1, s2, c2);
}

/// A copy of an optional string.
fn copy_opt_string(o: &Option<String>) -> (r: Option<String>)
    ensures
        r == *o,
{
    match o {
        Some(s) => Some(s.clone()),
        None => None,
    }
}

/// A copy of a list of strings.
fn copy_strings(l: &Vec<String>) -> (r: Vec<String>)
    ensures
        r@ == l@,
{
    let mut out: Vec<String> = Vec::new();
    let mut i: usize = 0;
    while i < l.len()
        invariant
            i <= l.len(),
            out@ == l@.subrange(0, i as int),
        decreases l.len() - i,
    {
        out.push(l[i].clone());
        i = i + 1;
        assert(out@ =~= l@.subrange(0, i as int));
    }
    assert(l@.subrange(0, l.len() as int) =~= l@);
    out
}

/// A copy of an optional list of strings.
fn copy_opt_strings(o: &Option<Vec<String>>) -> (r: Option<Vec<String>>)
    ensures
        match *o {
            Some(l) => r is Some && r->Some_0@ == l@,
            None => r is None,
        },
{
    match o {
        Some(l) => Some(copy_strings(l)),
        None => None,
    }
}

/// A copy of a list of stream formats.
fn copy_formats(l: &Vec<StreamFormat>) -> (r: Vec<StreamFormat>)
    ensures
        r@ == l@,
{
    let mut out: Vec<StreamFormat> = Vec::new();
    let mut i: usize = 0;
    while i < l.len()
        invariant
            i <= l.len(),
            out@ == l@.subrange(0, i as int),
        decreases l.len() - i,
    {
        out.push(l[i]);
        i = i + 1;
        assert(out@ =~= l@.subrange(0, i as int));
    }
    assert(l@.subrange(0, l.len() as int) =~= l@);
    out
}

/// The `init` message a renderer with this configuration sends under the
/// chosen version.
pub open spec fn init_for(config: RendererConfig, version: Seq<char>) -> SpecMessage {
    SpecMessage::Init {
        version,
        name: config.name.deep_view(),
        auth: config.auth,
        auth_endpoint: config.auth_endpoint.deep_view(),
        stream: config.stream@,
        input: config.input@,
        extensions: config.extensions.deep_view(),
    }
}

/// The `init` a renderer sends carries the chosen version and, unchanged,
/// the configuration's name, authentication mode and endpoint, stream
/// formats, input keys and extensions.
pub proof fn lemma_init_for_fields(config: RendererConfig, version: Seq<char>)
    ensures
        init_for(config, version) matches SpecMessage::Init { version: v, name, auth, auth_endpoint, stream, input, extensions }
            && v == version
            && name == config.name.deep_view()
            && auth == config.auth
            && auth_endpoint == config.auth_endpoint.deep_view()
            && stream == config.stream.supported@
            && input == config.input.keys.deep_view()
            && extensions == config.extensions.deep_view(),
{
}

/// The `init` message: the chosen version and the renderer's name,
/// authentication, stream and input capabilities and extensions.
pub fn init_message(config: &RendererConfig, version: String) -> (r: RrpMessage)
    ensures
        r@ == init_for(*config, version@),
        match r {
            RrpMessage::Init { version: v, name, auth, auth_endpoint, stream, input, extensions } => {
                &&& v@ == version@
                &&& name.deep_view() == config.name.deep_view()
                &&& auth == config.auth
                &&& auth_endpoint.deep_view() == config.auth_endpoint.deep_view()
                &&& stream.supported@ == config.stream.supported@
                &&& input.keys.deep_view() == config.input.keys.deep_view()
                &&& extensions.deep_view() == config.extensions.deep_view()
            },
            _ => false,
        },
{
    let keys = copy_strings(&config.input.keys);
    let extensions = copy_opt_strings(&config.extensions);
    let r = RrpMessage::Init {
        version,
        name: copy_opt_string(&config.name),
        auth: config.auth,
        auth_endpoint: copy_opt_string(&config.auth_endpoint),
        stream: StreamCaps { supported: copy_formats(&config.stream.supported) },
        input: InputCaps { keys },
        extensions,
    };
    assert(r@->Init_input =~= config.input@);
    assert(r@->Init_extensions == config.extensions.deep_view()) by {
        if let Some(l) = config.extensions {
            assert(r@->Init_extensions->Some_0 =~= l.deep_view());
        }
    }
    r
}

/// The extensions of `viewer` that `server` supports, in the viewer's order.
pub open spec fn shared_extensions(viewer: Seq<Seq<char>>, server: Seq<Seq<char>>) -> Seq<Seq<char>>
    decreases viewer.len(),
{
    if viewer.len() == 0 {
        seq![]
    } else {
        let rest = shared_extensions(viewer.drop_last(), server);
        if server.contains(viewer.last()) {
            rest.push(viewer.last())
        } else {
            rest
        }
    }
}

/// Every extension asked of the stream provider is one the viewer requested
/// and the renderer supports.
pub proof fn lemma_shared_extensions_supported(viewer: Seq<Seq<char>>, server: Seq<Seq<char>>, e: Seq<char>)
    requires
        shared_extensions(viewer, server).contains(e),
    ensures
        viewer.contains(e),
        server.contains(e),
    decreases viewer.len(),
{
    if viewer.len() > 0 {
        let rest = shared_extensions(viewer.drop_last(), server);
        if rest.contains(e) {
            lemma_shared_extensions_supported(viewer.drop_last(), server, e);
            let k = choose|k: int| 0 <= k < viewer.drop_last().len() && viewer.drop_last()[k] == e;
            assert(viewer[k] == e);
        } else {
            assert(viewer[viewer.len() - 1] == e);
        }
    }
}

/// Every extension the viewer requested and the renderer supports is asked
/// of the stream provider.
pub proof fn lemma_shared_extensions_complete(viewer: Seq<Seq<char>>, server: Seq<Seq<char>>, e: Seq<char>)
    requires
        viewer.contains(e),
        server.contains(e),
    ensures
        shared_extensions(viewer, server).contains(e),
    decreases viewer.len(),
{
    let rest = shared_extensions(viewer.drop_last(), server);
    if viewer.last() == e {
        assert(rest.push(e)[rest.len() as int] == e);
    } else {
        let k = choose|k: int| 0 <= k < viewer.len() && viewer[k] == e;
        assert(viewer.drop_last()[k] == e);
        lemma_shared_extensions_complete(viewer.drop_last(), server, e);
        if server.contains(viewer.last()) {
            let j = choose|j: int| 0 <= j < rest.len() && rest[j] == e;
            assert(rest.push(viewer.last())[j] == e);
        }
    }
}

/// The shared extensions are exactly the viewer's extensions that the
/// server supports, kept in the viewer's order and with the viewer's
/// repetitions.
pub proof fn lemma_shared_extensions_filter(viewer: Seq<Seq<char>>, server: Seq<Seq<char>>)
    ensures
        shared_extensions(viewer, server) == viewer.filter(|e: Seq<char>| server.contains(e)),
    decreases viewer.len(),
{
    reveal(Seq::filter);
    if viewer.len() > 0 {
        lemma_shared_extensions_filter(viewer.drop_last(), server);
    }
}

/// The extensions a viewer requests that the renderer supports, in the
/// viewer's order: the extensions asked of the stream provider.
pub fn requested_extensions(server: &Option<Vec<String>>, viewer: Vec<String>) -> (r: Vec<String>)
    ensures
        texts(r@) == shared_extensions(
            texts(viewer@),
            match *server {
                Some(l) => texts(l@),
                None => Seq::empty(),
            },
        ),
{
    let empty: Vec<String> = Vec::new();
    let supported: &Vec<String> = match server {
        Some(l) => l,
        None => &empty,
    };
    let ghost sv = texts(supported@);
    assert(sv =~= match *server {
        Some(l) => texts(l@),
        None => Seq::<Seq<char>>::empty(),
    });
    let ghost vv = texts(viewer@);
    let mut out: Vec<String> = Vec::new();
    let mut i: usize = 0;
    assert(vv.subrange(0, 0) =~= Seq::<Seq<char>>::empty());
    assert(texts(out@) =~= Seq::<Seq<char>>::empty());
    while i < viewer.len()
        invariant
            i <= viewer.len(),
            sv == texts(supported@),
            vv == texts(viewer@),
            texts(out@) == shared_extensions(vv.subrange(0, i as int), sv),
        decreases viewer.len() - i,
    {
        let ghost prefix = vv.subrange(0, i as int + 1);
        assert(prefix.drop_last() =~= vv.subrange(0, i as int));
        assert(prefix.last() == viewer@[i as int]@);
        let ghost before = texts(out@);
        if contains_string(supported.as_slice(), &viewer[i]) {
            out.push(viewer[i].clone());
            assert(texts(out@) =~= before.push(viewer@[i as int]@));
        }
        i = i + 1;
    }
    assert(vv.subrange(0, viewer.len() as int) =~= vv);
    out
}

/// Where the renderer's handshake stands.
#[derive(Debug, Clone)]
pub enum ServerState {
    /// Waiting for `start`.
    AwaitingStart,
    /// `init` was sent under `version`; waiting for `join`. `client_name` is
    /// the name the viewer gave in `start`.
    AwaitingJoin { version: String, client_name: Option<String> },
}

/// A viewer's request for the stream: the format it selected and the
/// requested extensions the renderer supports.
#[derive(Debug, Clone)]
pub struct StreamRequest {
    pub version: String,
    pub client_name: Option<String>,
    pub format: StreamFormat,
    pub extensions: Vec<String>,
}

/// What a frame leads to in the renderer's handshake.
#[derive(Debug)]
pub enum ServerStep {
    /// Keep waiting, in this state.
    Continue(ServerState),
    /// Send this message, then wait in this state.
    Send(RrpMessage, ServerState),
    /// Send this alert, close the connection and fail with this error.
    Reject(RrpMessage, RrpError),
    /// Ask the application for the stream of this request.
    Provide(StreamRequest),
    /// The handshake failed.
    Failed(RrpError),
}

/// The reason given when the viewer and renderer share no version.
pub open spec fn no_version_reason() -> Seq<char> {
    "No compatible RRP version"@
}

/// A renderer that shares no version with the viewer gives the reason
/// "No compatible RRP version".
pub proof fn lemma_no_version_reason_text()
    ensures
        no_version_reason() == "No compatible RRP version"@,
{
}

impl ServerState {
    /// The state before any frame arrived.
    pub fn new() -> (r: ServerState)
        ensures
            r == ServerState::AwaitingStart,
    {
        ServerState::AwaitingStart
    }

    /// What the frame `frame` from the viewer leads to, for a renderer with
    /// configuration `config`.
    ///
    /// A close frame fails with `Closed`. While waiting for `start`, a
    /// `start` whose versions share none with the renderer's is refused with
    /// a critical alert; otherwise the highest shared version is chosen,
    /// `init` is sent and the renderer waits for `join`. While waiting for
    /// `join`, a `join` leads to asking for the stream in the selected
    /// format, with the requested extensions the renderer supports. Every
    /// other frame, text that is not a message included, is skipped.
    pub fn on_frame(self, config: &RendererConfig, frame: Frame) -> (r: ServerStep)
        ensures
            match frame {
                Frame::Close => r matches ServerStep::Failed(RrpError::Closed),
                Frame::Other => r == ServerStep::Continue(self),
                Frame::Text(t) => match (self, text_reads_as(t@)) {
                    (ServerState::AwaitingStart, Some(SpecMessage::Start { version, name })) => {
                        let sv = texts(config.supported_versions@);
                        if !exists|k: int| is_common_version(sv, version, k) {
                            r matches ServerStep::Reject(alert, RrpError::Handshake(reason))
                                && reason@ == no_version_reason() && alert@ == (SpecMessage::Alert {
                                severity: Severity::Critical,
                                message: no_version_reason(),
                            })
                        } else {
                            r matches ServerStep::Send(init, ServerState::AwaitingJoin { version: v, client_name })
                                && (exists|k: int| is_selected_version(sv, version, k) && version[k] == v@)
                                && client_name.deep_view() == name
                                && init@ == init_for(*config, v@)
                        }
                    },
                    (
                        ServerState::AwaitingJoin { version, client_name },
                        Some(SpecMessage::Join { stream, extensions, .. }),
                    ) => r matches ServerStep::Provide(req) && req.version == version
                        && req.client_name == client_name && req.format == stream
                        && texts(req.extensions@) == shared_extensions(
                        match extensions {
                            Some(l) => l,
                            None => Seq::empty(),
                        },
                        match config.extensions {
                            Some(l) => texts(l@),
                            None => Seq::empty(),
                        },
                    ),
                    _ => r == ServerStep::Continue(self),
                },
            },
    {
        match frame {
            Frame::Close => ServerStep::Failed(RrpError::Closed),
            Frame::Other => ServerStep::Continue(self),
            Frame::Text(t) => {
                let msg = match RrpMessage::parse(t.as_str()) {
                    Ok(m) => m,
                    Err(_) => return ServerStep::Continue(self),
                };
                match self {
                    ServerState::AwaitingStart => match msg {
                        RrpMessage::Start { version, name } => {
                            assert(texts(version@) =~= version.deep_view());
                            match select_version(config.supported_versions.as_slice(), version.as_slice()) {
                                None => {
                                    let reason = "No compatible RRP version".to_owned();
                                    let alert = RrpMessage::Alert {
                                        severity: Severity::Critical,
                                        message: reason.clone(),
                                    };
                                    ServerStep::Reject(alert, RrpError::Handshake(reason))
                                },
                                Some(v) => {
                                    let init = init_message(config, v.clone());
                                    ServerStep::Send(
                                        init,
                                        ServerState::AwaitingJoin { version: v, client_name: name },
                                    )
                                },
                            }
                        },
                        _ => ServerStep::Continue(ServerState::AwaitingStart),
                    },
                    ServerState::AwaitingJoin { version, client_name } => match msg {
                        RrpMessage::Join { stream, extensions, .. } => {
                            let viewer = match extensions {
                                Some(l) => l,
                                None => Vec::new(),
                            };
                            assert(texts(viewer@) =~= match msg@->Join_extensions {
                                Some(l) => l,
                                None => Seq::<Seq<char>>::empty(),
                            });
                            let requested = requested_extensions(&config.extensions, viewer);
                            ServerStep::Provide(
                                StreamRequest {
                                    version,
                                    client_name,
                                    format: stream.selected,
                                    extensions: requested,
                                },
                            )
                        },
                        _ => ServerStep::Continue(ServerState::AwaitingJoin { version, client_name }),
                    },
                }
            },
        }
    }
}

impl StreamRequest {
    /// The `stream_ready` message and the settled session once the
    /// application has given the stream URL and the active extensions: the
    /// message lists the extensions only when there are any.
    pub fn ready(self, url: String, active_extensions: Vec<String>) -> (r: (RrpMessage, Session))
        ensures
            r.0@ == (SpecMessage::StreamReady {
                format: self.format,
                url: url@,
                extensions: if active_extensions.len() == 0 {
                    None
                } else {
                    Some(active_extensions.deep_view())
                },
            }),
            r.1 == (Session {
                version: self.version,
                peer_name: self.client_name,
                stream_url: url,
                stream_format: self.format,
                active_extensions,
            }),
    {
        let listed = if active_extensions.len() == 0 {
            None
        } else {
            Some(copy_strings(&active_extensions))
        };
        proof {
            if listed is Some {
                assert(listed->Some_0.deep_view() =~= active_extensions.deep_view());
            }
        }
        let msg = RrpMessage::StreamReady { format: self.format, url: url.clone(), extensions: listed };
        let session = Session {
            version: self.version,
            peer_name: self.client_name,
            stream_url: url,
            stream_format: self.format,
            active_extensions,
        };
        (msg, session)
    }
}

} // verus!
