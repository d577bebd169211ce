//! What a client process needs to know of the bridge.

use vstd::hash_map::StringHashMap;
use vstd::prelude::*;

use crate::text;

verus! {

/// The environment that points a client at the bridge.
pub open spec fn bridge_env(base_url: Seq<char>, model: Seq<char>) -> Map<Seq<char>, Seq<char>> {
    Map::empty().insert("ANTHROPIC_BASE_URL"@, base_url).insert(
        "ANTHROPIC_AUTH_TOKEN"@,
        "unused"@,
    ).insert("ANTHROPIC_MODEL"@, model).insert("ANTHROPIC_SMALL_FAST_MODEL"@, model).insert(
        "CLAUDE_CODE_DISABLE_NONSTREAMING_FALLBACK"@,
        "1"@,
    ).insert("CLAUDE_CODE_DISABLE_NONESSENTIAL_TRAFFIC"@, "1"@)
}

/// The texts of a map of strings.
pub open spec fn texts_in(m: Map<Seq<char>, String>) -> Map<Seq<char>, Seq<char>> {
    m.map_values(|s: String| s@)
}

fn set(m: &mut StringHashMap<String>, name: &str, value: &str)
    ensures
        texts_in(final(m)@) == texts_in(old(m)@).insert(name@, value@),
{
    let ghost before = texts_in(m@);
    m.insert(name.to_owned(), value.to_owned());
    assert(texts_in(m@) =~= before.insert(name@, value@));
}

/// The environment that points a client at the bridge.
pub fn claude_bridge_env(base_url: &str, model: &str) -> (r: StringHashMap<String>)
    ensures
        texts_in(r@) == bridge_env(base_url@, model@),
{
    let mut m: StringHashMap<String> = StringHashMap::new();
    assert(texts_in(m@) =~= Map::empty());
    set(&mut m, "ANTHROPIC_BASE_URL", base_url);
    set(&mut m, "ANTHROPIC_AUTH_TOKEN", "unused");
    set(&mut m, "ANTHROPIC_MODEL", model);
    set(&mut m, "ANTHROPIC_SMALL_FAST_MODEL", model);
    set(&mut m, "CLAUDE_CODE_DISABLE_NONSTREAMING_FALLBACK", "1");
    set(&mut m, "CLAUDE_CODE_DISABLE_NONESSENTIAL_TRAFFIC", "1");
    m
}

/// The base URL of a server on a loopback port.
pub open spec fn base_url(port: int) -> Seq<char> {
    "http://127.0.0.1:"@ + text::decimal(port as nat)
}

/// The base URL of a server on a loopback port.
pub fn loopback_base_url(port: u16) -> (r: String)
    ensures
        r@ == base_url(port as int),
{
    text::join("http://127.0.0.1:", text::to_decimal(port as u64).as_str())
}

/// The URL that answers whether a server is up.
pub fn healthz_url(base: &str) -> (r: String)
    ensures
        r@ == base@ + "/healthz"@,
{
    text::join(base, "/healthz")
}

/// What a server answered when asked whether it is up.
pub enum HealthReply {
    /// A status that means success.
    Up,
    /// Another status.
    Status(String),
    /// No answer, for this reason.
    Unreachable(String),
}

/// Why a server is not up, where it is not.
pub open spec fn health_problem(reply: HealthReply) -> Option<Seq<char>> {
    match reply {
        HealthReply::Up => None,
        HealthReply::Status(s) => Some("status "@ + s@),
        HealthReply::Unreachable(e) => Some(e@),
    }
}

/// Why a server is not up, where it is not.
pub fn judge_health(reply: HealthReply) -> (r: Option<String>)
    ensures
        text::opt_string(r) == health_problem(reply),
{
    match reply {
        HealthReply::Up => None,
        HealthReply::Status(s) => Some(text::join("status ", s.as_str())),
        HealthReply::Unreachable(e) => Some(e),
    }
}

/// What is to be done about a server after it was asked.
#[derive(Debug, Clone, PartialEq, Eq)]
pub enum HealthStep {
    /// Use it: it is up.
    Ready,
    /// Ask again, after this problem.
    Retry(String),
    /// Give up, after this problem.
    GiveUp(String),
}

/// Says what is to be done after a reply; `past_deadline` says whether there is
/// no time to ask again.
pub fn health_step(reply: HealthReply, past_deadline: bool) -> (r: HealthStep)
    ensures
        match health_problem(reply) {
            None => r is Ready,
            Some(problem) => if past_deadline {
                r matches HealthStep::GiveUp(p) && p@ == problem
            } else {
                r matches HealthStep::Retry(p) && p@ == problem
            },
        },
{
    match judge_health(reply) {
        None => HealthStep::Ready,
        Some(problem) => if past_deadline {
            HealthStep::GiveUp(problem)
        } else {
            HealthStep::Retry(problem)
        },
    }
}

/// The error of a server that did not come up in time; `last_problem` is that
/// of the last attempt, if there was one.
pub fn health_timeout(url: &str, timeout: &str, last_problem: Option<String>) -> (r: String)
    ensures
        r@ == "healthz not ready at "@ + url@ + " within "@ + timeout@ + ": "@ + match last_problem {
            Some(e) => e@,
            None => "not attempted"@,
        },
{
    let mut out = text::join3("healthz not ready at ", url, " within ");
    out.append(timeout);
    out.append(": ");
    match last_problem {
        Some(e) => out.append(e.as_str()),
        None => out.append("not attempted"),
    }
    out
}

/// A client is pointed at the bridge by six variables and no others: the base
/// URL, a token that nothing looks at, one model for both of its uses, and two
/// switches that are on.
pub proof fn a_client_is_told_where_the_bridge_is(
    url: Seq<char>,
    model: Seq<char>,
    name: Seq<char>,
)
    ensures
        bridge_env(url, model).contains_key(name) <==> name == "ANTHROPIC_BASE_URL"@ || name
            == "ANTHROPIC_AUTH_TOKEN"@ || name == "ANTHROPIC_MODEL"@ || name
            == "ANTHROPIC_SMALL_FAST_MODEL"@ || name
            == "CLAUDE_CODE_DISABLE_NONSTREAMING_FALLBACK"@ || name
            == "CLAUDE_CODE_DISABLE_NONESSENTIAL_TRAFFIC"@,
        bridge_env(url, model)["ANTHROPIC_BASE_URL"@] == url,
        bridge_env(url, model)["ANTHROPIC_AUTH_TOKEN"@] == "unused"@,
        bridge_env(url, model)["ANTHROPIC_MODEL"@] == model,
        bridge_env(url, model)["ANTHROPIC_SMALL_FAST_MODEL"@] == model,
        bridge_env(url, model)["CLAUDE_CODE_DISABLE_NONSTREAMING_FALLBACK"@] == "1"@,
        bridge_env(url, model)["CLAUDE_CODE_DISABLE_NONESSENTIAL_TRAFFIC"@] == "1"@,
{
    reveal_strlit("ANTHROPIC_BASE_URL");
    reveal_strlit("ANTHROPIC_AUTH_TOKEN");
    reveal_strlit("ANTHROPIC_MODEL");
    reveal_strlit("ANTHROPIC_SMALL_FAST_MODEL");
    reveal_strlit("CLAUDE_CODE_DISABLE_NONSTREAMING_FALLBACK");
    reveal_strlit("CLAUDE_CODE_DISABLE_NONESSENTIAL_TRAFFIC");
    assert("ANTHROPIC_BASE_URL"@.len() == 18);
    assert("ANTHROPIC_AUTH_TOKEN"@.len() == 20);
    assert("ANTHROPIC_MODEL"@.len() == 15);
    assert("ANTHROPIC_SMALL_FAST_MODEL"@.len() == 26);
    assert("CLAUDE_CODE_DISABLE_NONSTREAMING_FALLBACK"@.len() == 41);
    assert("CLAUDE_CODE_DISABLE_NONESSENTIAL_TRAFFIC"@.len() == 40);
}

/// The base URL is that of the loopback address and ends with the port, from
/// which the port can be read.
pub proof fn a_base_url_ends_with_its_port(port: nat)
    ensures
        "http://127.0.0.1:"@.is_prefix_of(base_url(port as int)),
        text::unsigned_value(base_url(port as int).skip(17)) == Some(port as int),
{
    reveal_strlit("http://127.0.0.1:");
    let head = "http://127.0.0.1:"@;
    let all = base_url(port as int);
    assert(all.subrange(0, head.len() as int) =~= head);
    assert(all.skip(17) =~= text::decimal(port));
    text::numbers_read_back(port);
}

/// A server is up exactly where it answers with success; else the problem is
/// its status or why it could not be reached.
pub proof fn only_success_is_up(reply: HealthReply)
    ensures
        health_problem(reply) is None <==> reply is Up,
        reply matches HealthReply::Status(s) ==> health_problem(reply) == Some("status "@ + s@),
        reply matches HealthReply::Unreachable(e) ==> health_problem(reply) == Some(e@),
{
}

} // verus!
