//! How the bridge presents itself upstream, and with which credentials.

use vstd::prelude::*;

use crate::credentials;
use crate::credentials::{resolve_auth, AuthSource, ResolvedAuth, GROK_DIR_NAME};
use crate::paths::{path_at, path_below, PathBase, PathPlan};
use crate::text;

verus! {

/// Where Grok keeps its files: beside the `auth.json` that was named, unless it
/// has no directory; else in `GROK_HOME`, else in `.grok` below the home
/// directory, else in `.grok` below `.`. `auth_dir` is the directory of the
/// named `auth.json`, if any.
pub fn grok_home_from_auth_json<P>(
    auth_dir: Option<P>,
    auth_dir_is_empty: bool,
    grok_home: Option<P>,
    home: Option<P>,
) -> (r: PathPlan<P>)
    ensures
        match (auth_dir, grok_home, home) {
            (Some(p), _, _) if !auth_dir_is_empty => r.is(PathBase::Given(p), Seq::empty()),
            (_, Some(p), _) => r.is(PathBase::Given(p), Seq::empty()),
            (_, None, Some(p)) => r.is(PathBase::Given(p), seq![GROK_DIR_NAME]),
            (_, None, None) => r.is(PathBase::Here, seq![GROK_DIR_NAME]),
        },
{
    if let Some(p) = auth_dir {
        if !auth_dir_is_empty {
            return path_at(PathBase::Given(p));
        }
    }
    if let Some(p) = grok_home {
        return path_at(PathBase::Given(p));
    }
    match home {
        Some(p) => path_below(PathBase::Given(p), GROK_DIR_NAME),
        None => path_below(PathBase::Here, GROK_DIR_NAME),
    }
}

/// The error where there are no credentials at all.
pub const NO_CREDENTIALS: &'static str =
    "no credentials: run `grok login` or set XAI_API_KEY (LiveSessionAuth also failed)";

/// A key that is used as it is, without refreshing it.
#[derive(Debug, Clone, PartialEq, Eq)]
pub struct StaticKey {
    pub key: String,
    /// Where the key came from.
    pub source: AuthSource,
}

/// The static key where no session could be started: what `resolve_auth` finds.
pub fn fallback_key(resolved: Option<ResolvedAuth>) -> (r: Result<StaticKey, String>)
    ensures
        match resolved {
            Some(a) => r is Ok && r->Ok_0.key@ == a.bearer@ && r->Ok_0.source == a.source,
            None => r is Err && r->Err_0@ == NO_CREDENTIALS@,
        },
{
    match resolved {
        Some(a) => Ok(StaticKey { key: a.bearer, source: a.source }),
        None => Err(NO_CREDENTIALS.to_owned()),
    }
}

/// Falls back to a static key where no session could be started.
pub fn start_fallback(
    auth_json: Option<&str>,
    api_key_override: Option<&str>,
    xai_api_key: Option<&str>,
    grok_api_key: Option<&str>,
    now_secs: i64,
) -> (r: Result<StaticKey, String>)
    ensures
        match credentials::chosen_auth(
            text::opt_str(auth_json),
            text::opt_str(api_key_override),
            text::opt_str(xai_api_key),
            text::opt_str(grok_api_key),
            now_secs as int,
        ) {
            Some(a) => r is Ok && r->Ok_0.key@ == a.bearer && r->Ok_0.source == a.source,
            None => r is Err && r->Err_0@ == NO_CREDENTIALS@,
        },
{
    fallback_key(resolve_auth(auth_json, api_key_override, xai_api_key, grok_api_key, now_secs))
}

/// Credentials that the bridge starts with; `S` is a live session.
pub enum StartedAuth<S> {
    /// A session that is kept fresh.
    Session(S),
    /// A key that is used as it is.
    Key(StaticKey),
}

/// Chooses the credentials to start with: a live session where one could be
/// started, else a static key.
pub fn start_with<S>(
    live: Option<S>,
    auth_json: Option<&str>,
    api_key_override: Option<&str>,
    xai_api_key: Option<&str>,
    grok_api_key: Option<&str>,
    now_secs: i64,
) -> (r: Result<StartedAuth<S>, String>)
    ensures
        match live {
            Some(s) => r == Ok::<StartedAuth<S>, String>(StartedAuth::Session(s)),
            None => match credentials::chosen_auth(
                text::opt_str(auth_json),
                text::opt_str(api_key_override),
                text::opt_str(xai_api_key),
                text::opt_str(grok_api_key),
                now_secs as int,
            ) {
                Some(a) => r matches Ok(StartedAuth::Key(k)) && k.key@ == a.bearer && k.source
                    == a.source,
                None => r is Err && r->Err_0@ == NO_CREDENTIALS@,
            },
        },
{
    match live {
        Some(s) => Ok(StartedAuth::Session(s)),
        None => match start_fallback(
            auth_json,
            api_key_override,
            xai_api_key,
            grok_api_key,
            now_secs,
        ) {
            Ok(key) => Ok(StartedAuth::Key(key)),
            Err(e) => Err(e),
        },
    }
}

/// What is said about a static key; `path` is that of `auth.json`.
pub fn static_key_notice(source: AuthSource, path: &str) -> (r: String)
    ensures
        r@ == match source {
            AuthSource::Session => "auth: static session key from "@ + path@
                + " (refresh unavailable: re-run grok login if 401s)"@,
            AuthSource::ApiKey => "auth: API key (static, no OIDC refresh)"@,
        },
{
    match source {
        AuthSource::Session => text::join3(
            "auth: static session key from ",
            path,
            " (refresh unavailable: re-run grok login if 401s)",
        ),
        AuthSource::ApiKey => "auth: API key (static, no OIDC refresh)".to_owned(),
    }
}

/// The client version where the environment names none.
pub const DEFAULT_CLIENT_VERSION: &'static str = "0.2.106";

/// The client version.
pub open spec fn version_text(named: Option<Seq<char>>, other: Option<Seq<char>>) -> Seq<char> {
    if named is Some {
        named->0
    } else if other is Some {
        other->0
    } else {
        DEFAULT_CLIENT_VERSION@
    }
}

/// The client version: `GROK_CLIENT_VERSION`, else `GROK_VERSION`, else the
/// default.
pub fn client_version(grok_client_version: Option<String>, grok_version: Option<String>) -> (r:
    String)
    ensures
        r@ == match (grok_client_version, grok_version) {
            (Some(v), _) => v@,
            (None, Some(v)) => v@,
            (None, None) => DEFAULT_CLIENT_VERSION@,
        },
        r@ == version_text(text::opt_string(grok_client_version), text::opt_string(grok_version)),
{
    match grok_client_version {
        Some(v) => v,
        None => match grok_version {
            Some(v) => v,
            None => DEFAULT_CLIENT_VERSION.to_owned(),
        },
    }
}

/// The headers with one set: in its place where it is there, else last.
pub open spec fn with_header(
    headers: Seq<(Seq<char>, Seq<char>)>,
    name: Seq<char>,
    value: Seq<char>,
) -> Seq<(Seq<char>, Seq<char>)> {
    let at = header_position(headers, name);
    if at < headers.len() {
        headers.update(at, (name, value))
    } else {
        headers.push((name, value))
    }
}

/// Position of a header, or the number of headers.
pub open spec fn header_position(headers: Seq<(Seq<char>, Seq<char>)>, name: Seq<char>) -> int
    decreases headers.len(),
{
    if headers.len() == 0 || headers[0].0 == name {
        0
    } else {
        1 + header_position(headers.drop_first(), name)
    }
}

/// The extra headers for a base URL: the chat proxy asks for three.
pub open spec fn headers_for(base_url: Seq<char>) -> Seq<(Seq<char>, Seq<char>)> {
    if text::occurs("cli-chat-proxy"@, base_url) {
        seq![
            ("X-XAI-Token-Auth"@, "xai-grok-cli"@),
            ("x-authenticateresponse"@, "authenticate-response"@),
            ("x-grok-client-mode"@, "headless"@),
        ]
    } else {
        Seq::empty()
    }
}

/// The extra headers for a base URL.
pub fn extra_headers(base_url: &str) -> (r: indexmap::IndexMap<String, String>)
    ensures
        header_list(r) == headers_for(base_url@),
{
    let mut headers = no_headers();
    if text::contains(base_url, "cli-chat-proxy") {
        proof {
            reveal_strlit("X-XAI-Token-Auth");
            reveal_strlit("x-authenticateresponse");
            reveal_strlit("x-grok-client-mode");
            reveal_with_fuel(header_position, 3);
            assert("X-XAI-Token-Auth"@.len() == 16);
            assert("x-authenticateresponse"@.len() == 22);
            assert("x-grok-client-mode"@.len() == 18);
        }
        set_header(&mut headers, "X-XAI-Token-Auth", "xai-grok-cli");
        set_header(&mut headers, "x-authenticateresponse", "authenticate-response");
        set_header(&mut headers, "x-grok-client-mode", "headless");
        assert(header_list(headers) =~= headers_for(base_url@));
    }
    headers
}

/// How the sampler is set up.
pub struct SamplerSettings {
    pub api_key: Option<String>,
    pub base_url: String,
    pub model: String,
    pub extra_headers: indexmap::IndexMap<String, String>,
    /// Tokens that the model can take in.
    pub context_window: u64,
    pub idle_timeout_secs: Option<u64>,
    pub client_identifier: Option<String>,
    pub client_version: Option<String>,
    pub supports_backend_search: bool,
}

/// Sets the sampler up; `client_identifier` is what the bridge calls itself, and
/// `version` the client version.
pub fn sampler_settings(
    api_key: Option<String>,
    base_url: &str,
    model: &str,
    idle_timeout_secs: u64,
    client_identifier: &str,
    version: String,
) -> (r: SamplerSettings)
    ensures
        r.api_key == api_key,
        r.base_url@ == base_url@,
        r.model@ == model@,
        header_list(r.extra_headers) == headers_for(base_url@),
        r.context_window == 272000,
        r.idle_timeout_secs == Some(idle_timeout_secs),
        text::opt_string(r.client_identifier) == Some(client_identifier@),
        r.client_version == Some(version),
        r.supports_backend_search,
{
    SamplerSettings {
        api_key,
        base_url: base_url.to_owned(),
        model: model.to_owned(),
        extra_headers: extra_headers(base_url),
        context_window: 272000,
        idle_timeout_secs: Some(idle_timeout_secs),
        client_identifier: Some(client_identifier.to_owned()),
        client_version: Some(version),
        supports_backend_search: true,
    }
}

/// A map of `indexmap`, which keeps the order of insertion.
#[verifier::external_type_specification]
#[verifier::external_body]
#[verifier::reject_recursive_types(K)]
#[verifier::reject_recursive_types(V)]
#[verifier::reject_recursive_types(S)]
pub struct ExIndexMap<K, V, S>(indexmap::IndexMap<K, V, S>);

/// The entries of an `IndexMap`, in its order.
pub uninterp spec fn header_list(m: indexmap::IndexMap<String, String>) -> Seq<
    (Seq<char>, Seq<char>),
>;

/// `indexmap::IndexMap::new`: a map without entries.
#[verifier::external_body]
fn no_headers() -> (r: indexmap::IndexMap<String, String>)
    ensures
        header_list(r) == Seq::<(Seq<char>, Seq<char>)>::empty(),
{
    indexmap::IndexMap::new()
}

/// `indexmap::IndexMap::insert`: a key that is there keeps its place and gets
/// the new value; another one goes last.
#[verifier::external_body]
fn set_header(headers: &mut indexmap::IndexMap<String, String>, name: &str, value: &str)
    ensures
        header_list(*final(headers)) == with_header(header_list(*old(headers)), name@, value@),
{
    headers.insert(name.to_owned(), value.to_owned());
}

/// The chat proxy, wherever its name stands in the base URL, is sent three
/// headers; every other upstream none.
pub proof fn the_chat_proxy_gets_its_headers(a: Seq<char>, b: Seq<char>, other: Seq<char>)
    ensures
        headers_for(a + "cli-chat-proxy"@ + b) == seq![
            ("X-XAI-Token-Auth"@, "xai-grok-cli"@),
            ("x-authenticateresponse"@, "authenticate-response"@),
            ("x-grok-client-mode"@, "headless"@),
        ],
        headers_for(other).len() > 0 ==> exists|i: int, j: int|
            0 <= i <= j <= other.len() && #[trigger] other.subrange(i, j) == "cli-chat-proxy"@,
{
    text::a_part_occurs(a, "cli-chat-proxy"@, b);
    if text::occurs("cli-chat-proxy"@, other) {
        let i = choose|i: int| #[trigger] text::occurs_at("cli-chat-proxy"@, other, i);
        assert(other.subrange(i, i + "cli-chat-proxy"@.len()) == "cli-chat-proxy"@);
    }
}

/// What is said where there are no credentials, and the client version where the
/// environment names none.
pub proof fn what_stands_in_where_nothing_is_given()
    ensures
        NO_CREDENTIALS@
            == "no credentials: run `grok login` or set XAI_API_KEY (LiveSessionAuth also failed)"@,
        DEFAULT_CLIENT_VERSION@ == "0.2.106"@,
{
}

/// The version that is named first counts, as it is; without any there is a
/// default.
pub proof fn the_first_version_counts(v: Seq<char>, w: Option<Seq<char>>)
    ensures
        version_text(Some(v), w) == v,
        version_text(None, Some(v)) == v,
        version_text(None, None) == "0.2.106"@,
{
}

} // verus!
