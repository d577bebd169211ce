//! Which bearer token the bridge uses.
//!
//! A live subscription session of `auth.json` comes first, then an explicit API
//! key, then the API keys of the environment.

use vstd::prelude::*;

use crate::json;
use crate::json::{Json, JsonView};
use crate::paths::{path_below, path_two_below, PathBase, PathPlan};
use crate::text;
use crate::timestamp;
use crate::timestamp::{is_expired, parse_rfc3339_secs};

verus! {

/// Where a bearer token came from.
#[derive(Debug, Clone, Copy, PartialEq, Eq)]
pub enum AuthSource {
    /// A subscription session of `auth.json`.
    Session,
    /// An API key.
    ApiKey,
}

/// A bearer token.
#[derive(Debug, Clone, PartialEq, Eq)]
pub struct ResolvedAuth {
    pub bearer: String,
    pub source: AuthSource,
    /// The session's scope in `auth.json`.
    pub scope: Option<String>,
}

/// The mathematical value of a [`ResolvedAuth`].
pub ghost struct AuthView {
    pub bearer: Seq<char>,
    pub source: AuthSource,
    pub scope: Option<Seq<char>>,
}

impl View for ResolvedAuth {
    type V = AuthView;

    open spec fn view(&self) -> AuthView {
        AuthView {
            bearer: self.bearer@,
            source: self.source,
            scope: text::opt_string(self.scope),
        }
    }
}

/// The value of an optional bearer token.
pub open spec fn opt_auth(a: Option<ResolvedAuth>) -> Option<AuthView> {
    match a {
        Some(a) => Some(a@),
        None => None,
    }
}

/// The name of the file that holds sessions.
pub const AUTH_FILE_NAME: &'static str = "auth.json";

/// The name of the directory below the home directory.
pub const GROK_DIR_NAME: &'static str = ".grok";

/// Where `auth.json` is looked for: a base and the names below it.
pub open spec fn auth_path<P>(
    grok_home: Option<P>,
    home: Option<P>,
    user_profile: Option<P>,
) -> (PathBase<P>, Seq<&'static str>) {
    if grok_home is Some {
        (PathBase::Given(grok_home->0), seq![AUTH_FILE_NAME])
    } else {
        (
            if home is Some {
                PathBase::Given(home->0)
            } else if user_profile is Some {
                PathBase::Given(user_profile->0)
            } else {
                PathBase::Here
            },
            seq![GROK_DIR_NAME, AUTH_FILE_NAME],
        )
    }
}

/// Where `auth.json` is looked for: in `GROK_HOME`, else in `.grok` below the
/// home directory (`HOME`, else `USERPROFILE`, else `.`).
pub fn default_auth_json_path<P>(
    grok_home: Option<P>,
    home: Option<P>,
    user_profile: Option<P>,
) -> (r: PathPlan<P>)
    ensures
        match (grok_home, home, user_profile) {
            (Some(p), _, _) => r.is(PathBase::Given(p), seq![AUTH_FILE_NAME]),
            (None, Some(p), _) => r.is(PathBase::Given(p), seq![GROK_DIR_NAME, AUTH_FILE_NAME]),
            (None, None, Some(p)) => r.is(PathBase::Given(p), seq![GROK_DIR_NAME, AUTH_FILE_NAME]),
            (None, None, None) => r.is(PathBase::Here, seq![GROK_DIR_NAME, AUTH_FILE_NAME]),
        },
        r.is(
            auth_path(grok_home, home, user_profile).0,
            auth_path(grok_home, home, user_profile).1,
        ),
{
    if let Some(p) = grok_home {
        return path_below(PathBase::Given(p), AUTH_FILE_NAME);
    }
    let base = match home {
        Some(p) => PathBase::Given(p),
        None => match user_profile {
            Some(p) => PathBase::Given(p),
            None => PathBase::Here,
        },
    };
    path_two_below(base, GROK_DIR_NAME, AUTH_FILE_NAME)
}

/// A session that can be used, with its expiry where that can be read.
pub ghost struct Candidate {
    pub auth: AuthView,
    pub expiry: Option<int>,
}

/// Whether a scope holds an API key and no session.
pub open spec fn is_key_scope(scope: Seq<char>) -> bool {
    scope == "xai::api_key"@ || "::api_key"@.is_suffix_of(scope)
}

/// The session of an entry of `auth.json`, where it can be used: it has a key
/// that is not blank, is no API key and has not expired.
pub open spec fn entry_session(scope: Seq<char>, entry: JsonView, now: int) -> Option<Candidate> {
    match entry.text_at("key"@) {
        None => None,
        Some(key) => if text::trimmed(key).len() == 0 || is_key_scope(scope) {
            None
        } else {
            let auth = AuthView {
                bearer: text::trimmed(key),
                source: AuthSource::Session,
                scope: Some(scope),
            };
            match entry.text_at("expires_at"@) {
                None => Some(Candidate { auth, expiry: None }),
                Some(e) => if timestamp::expired(e, now) {
                    None
                } else {
                    Some(Candidate { auth, expiry: timestamp::timestamp_seconds(e) })
                },
            }
        },
    }
}

/// Whether expiry `a` is later than `b`; one that cannot be read is earliest.
pub open spec fn later(a: Option<int>, b: Option<int>) -> bool {
    match (a, b) {
        (Some(x), Some(y)) => x > y,
        (Some(_), None) => true,
        (None, _) => false,
    }
}

/// The session that expires last, the first of these where several do.
pub open spec fn best_session(members: Seq<(Seq<char>, JsonView)>, now: int) -> Option<Candidate>
    decreases members.len(),
{
    if members.len() == 0 {
        None
    } else {
        let before = best_session(members.drop_last(), now);
        match (before, entry_session(members.last().0, members.last().1, now)) {
            (_, None) => before,
            (None, Some(c)) => Some(c),
            (Some(b), Some(c)) => if later(c.expiry, b.expiry) {
                Some(c)
            } else {
                Some(b)
            },
        }
    }
}

/// The session to use of what `auth.json` holds.
pub open spec fn session_of(root: JsonView, now: int) -> Option<AuthView> {
    match root {
        JsonView::Object(members) => match best_session(members, now) {
            Some(c) => Some(c.auth),
            None => None,
        },
        _ => None,
    }
}

/// The session to use of the text of `auth.json`.
pub open spec fn session_in(contents: Seq<char>, now: int) -> Option<AuthView> {
    match json::json_parse(contents) {
        Some(root) => session_of(root, now),
        None => None,
    }
}

/// An API key that is not blank.
pub open spec fn api_key(s: Option<Seq<char>>) -> Option<AuthView> {
    match s {
        Some(k) if text::trimmed(k).len() > 0 => Some(
            AuthView { bearer: text::trimmed(k), source: AuthSource::ApiKey, scope: None },
        ),
        _ => None,
    }
}

/// The first of these that is there.
pub open spec fn first_of(a: Option<AuthView>, b: Option<AuthView>) -> Option<AuthView> {
    match a {
        Some(_) => a,
        None => b,
    }
}

/// The bearer token to use: a session of `auth.json`, else the key that was
/// given, else `XAI_API_KEY`, else `GROK_API_KEY`.
pub open spec fn chosen_auth(
    auth_json: Option<Seq<char>>,
    api_key_override: Option<Seq<char>>,
    xai_api_key: Option<Seq<char>>,
    grok_api_key: Option<Seq<char>>,
    now: int,
) -> Option<AuthView> {
    first_of(
        match auth_json {
            Some(contents) => session_in(contents, now),
            None => None,
        },
        first_of(
            api_key(api_key_override),
            first_of(api_key(xai_api_key), api_key(grok_api_key)),
        ),
    )
}

fn is_later(a: Option<i64>, b: Option<i64>) -> (r: bool)
    ensures
        r == later(opt_seconds(a), opt_seconds(b)),
{
    match (a, b) {
        (Some(x), Some(y)) => x > y,
        (Some(_), None) => true,
        (None, _) => false,
    }
}

/// Optional seconds.
pub open spec fn opt_seconds(t: Option<i64>) -> Option<int> {
    match t {
        Some(t) => Some(t as int),
        None => None,
    }
}

spec fn candidate_view(c: Option<(ResolvedAuth, Option<i64>)>) -> Option<Candidate> {
    match c {
        Some((a, t)) => Some(Candidate { auth: a@, expiry: opt_seconds(t) }),
        None => None,
    }
}

fn session_of_entry(scope: &str, entry: &Json, now_secs: i64) -> (r: Option<
    (ResolvedAuth, Option<i64>),
>)
    ensures
        candidate_view(r) == entry_session(scope@, entry@, now_secs as int),
{
    let key = match entry.str_at("key") {
        Some(k) => text::trim(k),
        None => return None,
    };
    if key.as_str().is_empty() {
        return None;
    }
    if text::same(scope, "xai::api_key") || text::ends_with(scope, "::api_key") {
        return None;
    }
    let mut expiry: Option<i64> = None;
    if let Some(e) = entry.str_at("expires_at") {
        if is_expired(e, now_secs) {
            return None;
        }
        expiry = parse_rfc3339_secs(e);
    }
    let auth = ResolvedAuth {
        bearer: key,
        source: AuthSource::Session,
        scope: Some(scope.to_owned()),
    };
    Some((auth, expiry))
}

/// The session to use of what `auth.json` holds: the one that expires last.
pub fn load_session_from_value(root: &Json, now_secs: i64) -> (r: Option<ResolvedAuth>)
    ensures
        opt_auth(r) == session_of(root@, now_secs as int),
{
    let members = match root {
        Json::Object(m) => m,
        _ => return None,
    };
    let ghost all = root@->Object_0;
    let mut best: Option<(ResolvedAuth, Option<i64>)> = None;
    let mut i: usize = 0;
    while i < members.len()
        invariant
            i <= members@.len(),
            *root == Json::Object(*members),
            all == root@->Object_0,
            candidate_view(best) == best_session(all.take(i as int), now_secs as int),
        decreases members@.len() - i,
    {
        assert(all.take(i as int + 1).drop_last() =~= all.take(i as int));
        assert(all.take(i as int + 1).last() == (members@[i as int].0@, members@[i as int].1@));
        if let Some(c) = session_of_entry(members[i].0.as_str(), &members[i].1, now_secs) {
            best = match best {
                None => Some(c),
                Some(b) => if is_later(c.1, b.1) {
                    Some(c)
                } else {
                    Some(b)
                },
            };
        }
        i += 1;
    }
    assert(all.take(i as int) =~= all);
    match best {
        Some((a, _)) => Some(a),
        None => None,
    }
}

/// The session to use of the text of `auth.json`.
pub fn load_session_from_contents(contents: &str, now_secs: i64) -> (r: Option<ResolvedAuth>)
    ensures
        opt_auth(r) == session_in(contents@, now_secs as int),
{
    match Json::parse(contents) {
        Some(root) => load_session_from_value(&root, now_secs),
        None => None,
    }
}

fn key_auth(s: Option<&str>) -> (r: Option<ResolvedAuth>)
    ensures
        opt_auth(r) == api_key(text::opt_str(s)),
{
    match s {
        Some(k) => {
            let bearer = text::trim(k);
            if bearer.as_str().is_empty() {
                None
            } else {
                Some(ResolvedAuth { bearer, source: AuthSource::ApiKey, scope: None })
            }
        },
        None => None,
    }
}

/// The bearer token to use where this session, if any, was found: the session,
/// else the key that was given, else `XAI_API_KEY`, else `GROK_API_KEY`.
pub fn choose_auth(
    session: Option<ResolvedAuth>,
    api_key_override: Option<&str>,
    xai_api_key: Option<&str>,
    grok_api_key: Option<&str>,
) -> (r: Option<ResolvedAuth>)
    ensures
        opt_auth(r) == first_of(
            opt_auth(session),
            first_of(
                api_key(text::opt_str(api_key_override)),
                first_of(
                    api_key(text::opt_str(xai_api_key)),
                    api_key(text::opt_str(grok_api_key)),
                ),
            ),
        ),
{
    if session.is_some() {
        return session;
    }
    let given = key_auth(api_key_override);
    if given.is_some() {
        return given;
    }
    let xai = key_auth(xai_api_key);
    if xai.is_some() {
        return xai;
    }
    key_auth(grok_api_key)
}

/// The bearer token to use. `auth_json` is the text of `auth.json`, where it
/// can be read; the last two keys are those of the environment.
pub fn resolve_auth(
    auth_json: Option<&str>,
    api_key_override: Option<&str>,
    xai_api_key: Option<&str>,
    grok_api_key: Option<&str>,
    now_secs: i64,
) -> (r: Option<ResolvedAuth>)
    ensures
        opt_auth(r) == chosen_auth(
            text::opt_str(auth_json),
            text::opt_str(api_key_override),
            text::opt_str(xai_api_key),
            text::opt_str(grok_api_key),
            now_secs as int,
        ),
{
    let session = match auth_json {
        Some(contents) => load_session_from_contents(contents, now_secs),
        None => None,
    };
    choose_auth(session, api_key_override, xai_api_key, grok_api_key)
}

/// A session is used whatever API keys there are.
pub proof fn a_session_beats_every_key(
    contents: Seq<char>,
    api_key_override: Option<Seq<char>>,
    xai_api_key: Option<Seq<char>>,
    grok_api_key: Option<Seq<char>>,
    now: int,
)
    requires
        session_in(contents, now) is Some,
    ensures
        chosen_auth(Some(contents), api_key_override, xai_api_key, grok_api_key, now)
            == session_in(contents, now),
        session_in(contents, now)->0.source == AuthSource::Session,
{
    if let JsonView::Object(members) = json::json_parse(contents)->0 {
        the_freshest_session_is_used(members, now);
    }
}

/// The session that is used, if any, can be used, and no session that can be
/// used expires later.
#[verifier::rlimit(20)]
pub proof fn the_freshest_session_is_used(members: Seq<(Seq<char>, JsonView)>, now: int)
    ensures
        match best_session(members, now) {
            Some(b) => {
                &&& exists|i: int|
                    0 <= i < members.len() && entry_session(
                        (#[trigger] members[i]).0,
                        members[i].1,
                        now,
                    ) == Some(b)
                &&& forall|i: int|
                    0 <= i < members.len() ==> match entry_session(
                        (#[trigger] members[i]).0,
                        members[i].1,
                        now,
                    ) {
                        Some(c) => !later(c.expiry, b.expiry),
                        None => true,
                    }
            },
            None => forall|i: int|
                0 <= i < members.len() ==> entry_session(
                    (#[trigger] members[i]).0,
                    members[i].1,
                    now,
                ) is None,
        },
    decreases members.len(),
{
    if members.len() > 0 {
        let earlier = members.drop_last();
        the_freshest_session_is_used(earlier, now);
        let n = members.len() - 1;
        assert forall|i: int| 0 <= i < n implies earlier[i] == #[trigger] members[i] by {}
        match best_session(earlier, now) {
            Some(b) => {
                let k = choose|i: int|
                    0 <= i < earlier.len() && entry_session(
                        (#[trigger] earlier[i]).0,
                        earlier[i].1,
                        now,
                    ) == Some(b);
                assert(entry_session(members[k].0, members[k].1, now) == Some(b));
            },
            None => {},
        }
        assert(members[n] == members.last());
    }
}

/// Whether there is anything but white space in a text.
pub open spec fn says_something(s: Seq<char>) -> bool {
    exists|i: int| 0 <= i < s.len() && !text::is_white_space(#[trigger] s[i])
}

proof fn trimming_a_key(key: Seq<char>)
    ensures
        text::trimmed(key).len() > 0 <==> says_something(key),
{
    let none = forall|i: int| 0 <= i < key.len() ==> text::is_white_space(#[trigger] key[i]);
    if none {
        text::trimming_leaves_what_is_between(key, Seq::empty(), Seq::empty());
        assert(key + Seq::<char>::empty() + Seq::<char>::empty() =~= key);
    } else {
        let (from, to) = text::trimming_is_a_cut(key);
        let i = choose|i: int| 0 <= i < key.len() && !text::is_white_space(#[trigger] key[i]);
        assert(from <= i < to);
        assert(says_something(key));
    }
}

/// An entry of `auth.json` is a session exactly where it has a key that says
/// something, its scope is not that of an API key, and it stays valid for more
/// than a minute or does not say until when. The session uses the key without
/// white space around it, under the scope of the entry.
pub proof fn a_session_is_a_live_key(scope: Seq<char>, entry: JsonView, now: int)
    ensures
        entry_session(scope, entry, now) is Some <==> {
            &&& entry.text_at("key"@) is Some
            &&& says_something(entry.text_at("key"@)->0)
            &&& !"::api_key"@.is_suffix_of(scope)
            &&& entry.text_at("expires_at"@) is None || timestamp::timestamp_seconds(
                entry.text_at("expires_at"@)->0,
            ) is None || timestamp::timestamp_seconds(entry.text_at("expires_at"@)->0)->0 - now > 60
        },
        entry_session(scope, entry, now) matches Some(c) ==> {
            &&& c.auth.bearer == text::trimmed(entry.text_at("key"@)->0)
            &&& c.auth.source == AuthSource::Session
            &&& c.auth.scope == Some(scope)
            &&& entry.text_at("expires_at"@) is None ==> c.expiry is None
            &&& entry.text_at("expires_at"@) matches Some(e) ==> c.expiry
                == timestamp::timestamp_seconds(e)
        },
{
    if entry.text_at("key"@) is Some {
        trimming_a_key(entry.text_at("key"@)->0);
    }
    reveal_strlit("xai::api_key");
    reveal_strlit("::api_key");
    let own = "xai::api_key"@;
    let tail = "::api_key"@;
    assert(own.subrange(own.len() - tail.len(), own.len() as int) =~= tail);
}

/// Of two expiries the later is the one of more seconds, and any that can be
/// read is later than one that cannot.
pub proof fn more_seconds_are_later(a: Option<int>, b: Option<int>)
    ensures
        later(a, b) <==> a is Some && (b is None || a->0 > b->0),
{
}

/// Where several sessions could be used, the one that is used comes before every
/// other that expires as late.
pub proof fn the_first_of_equals_is_used(members: Seq<(Seq<char>, JsonView)>, now: int, k: int)
    requires
        0 <= k < members.len(),
        entry_session(members[k].0, members[k].1, now) is Some,
        forall|i: int|
            0 <= i < k ==> match entry_session((#[trigger] members[i]).0, members[i].1, now) {
                Some(c) => later(entry_session(members[k].0, members[k].1, now)->0.expiry, c.expiry),
                None => true,
            },
        forall|i: int|
            k < i < members.len() ==> match entry_session(
                (#[trigger] members[i]).0,
                members[i].1,
                now,
            ) {
                Some(c) => !later(
                    c.expiry,
                    entry_session(members[k].0, members[k].1, now)->0.expiry,
                ),
                None => true,
            },
    ensures
        best_session(members, now) == entry_session(members[k].0, members[k].1, now),
        session_of(JsonView::Object(members), now) == Some(
            entry_session(members[k].0, members[k].1, now)->0.auth,
        ),
    decreases members.len(),
{
    let n = members.len() - 1;
    let earlier = members.drop_last();
    assert(forall|i: int| 0 <= i < n ==> earlier[i] == #[trigger] members[i]);
    if k == n {
        the_freshest_session_is_used(earlier, now);
        if let Some(b) = best_session(earlier, now) {
            let j = choose|j: int|
                0 <= j < earlier.len() && entry_session((#[trigger] earlier[j]).0, earlier[j].1, now)
                    == Some(b);
            assert(members[j] == earlier[j]);
        }
    } else {
        assert(forall|i: int| 0 <= i < n ==> #[trigger] earlier[i] == members[i]);
        the_first_of_equals_is_used(earlier, now, k);
        assert(members[n] == members.last());
    }
}

/// Without a session the first key that says something is used, in the order in
/// which they are asked: the one that was given, `XAI_API_KEY`, `GROK_API_KEY`.
/// It is used without white space around it; where none says anything there is
/// no bearer token.
pub proof fn keys_are_used_in_order(
    given: Option<Seq<char>>,
    xai: Option<Seq<char>>,
    grok: Option<Seq<char>>,
    now: int,
)
    ensures
        ({
            let keys = seq![given, xai, grok];
            let chosen = chosen_auth(None, given, xai, grok, now);
            &&& forall|i: int|
                0 <= i < 3 && (#[trigger] keys[i] is Some && says_something(keys[i]->0)) && (forall|
                    j: int,
                |
                    0 <= j < i ==> (#[trigger] keys[j] is None || !says_something(keys[j]->0)))
                    ==> chosen == Some(
                    AuthView {
                        bearer: text::trimmed(keys[i]->0),
                        source: AuthSource::ApiKey,
                        scope: None,
                    },
                )
            &&& (forall|j: int|
                0 <= j < 3 ==> (#[trigger] keys[j] is None || !says_something(keys[j]->0)))
                ==> chosen is None
        }),
{
    let keys = seq![given, xai, grok];
    assert forall|i: int| 0 <= i < 3 && #[trigger] keys[i] is Some implies text::trimmed(
        keys[i]->0,
    ).len() > 0 <==> says_something(keys[i]->0) by {
        trimming_a_key(keys[i]->0);
    }
    assert(keys[0] == given && keys[1] == xai && keys[2] == grok);
}

/// The files are called as they are.
pub proof fn files_of_grok_are_named()
    ensures
        AUTH_FILE_NAME@ == "auth.json"@,
        GROK_DIR_NAME@ == ".grok"@,
{
}

/// A file without a session that can be used is as good as no file, and so is
/// one that cannot be read or is no object.
pub proof fn no_session_is_no_file(
    contents: Seq<char>,
    given: Option<Seq<char>>,
    xai: Option<Seq<char>>,
    grok: Option<Seq<char>>,
    now: int,
)
    ensures
        session_in(contents, now) is None ==> chosen_auth(Some(contents), given, xai, grok, now)
            == chosen_auth(None, given, xai, grok, now),
        json::json_parse(contents) is None ==> session_in(contents, now) is None,
        json::json_parse(contents) matches Some(v) && !(v is Object) ==> session_in(
            contents,
            now,
        ) is None,
        json::json_parse(contents) matches Some(v) ==> session_in(contents, now) == session_of(
            v,
            now,
        ),
{
}

/// `auth.json` lies in Grok's own directory where that is given, whatever the
/// home directory; else in `.grok` below the first home directory that is known,
/// or below the current one.
pub proof fn the_auth_file_has_a_place<P>(p: P, q: P, home: Option<P>, profile: Option<P>)
    ensures
        auth_path(Some(p), home, profile).0 == PathBase::Given(p),
        auth_path(Some(p), home, profile).1 =~= seq![AUTH_FILE_NAME],
        auth_path(None, Some(p), profile).0 == PathBase::Given(p),
        auth_path(None, None, Some(q)).0 == PathBase::Given(q),
        auth_path::<P>(None, None, None).0 is Here,
        auth_path(None, home, profile).1 =~= seq![GROK_DIR_NAME, AUTH_FILE_NAME],
{
}

} // verus!
