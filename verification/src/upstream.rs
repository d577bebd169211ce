//! Opening the upstream stream, with one recovery from an expired session.

use vstd::prelude::*;

use crate::text;

verus! {

/// Whether an error looks as if the upstream did not accept the credentials.
pub open spec fn looks_unauthorized(message: Seq<char>) -> bool {
    text::occurs("401"@, message) || text::occurs("unauthor"@, text::lowered(message))
        || text::occurs("authentication"@, text::lowered(message))
}

/// Whether an error looks as if the upstream did not accept the credentials.
pub fn is_auth_error(message: &str) -> (r: bool)
    ensures
        r == looks_unauthorized(message@),
{
    text::contains(message, "401") || text::contains_in_lower(message, "unauthor")
        || text::contains_in_lower(message, "authentication")
}

/// What happened while the stream was being opened.
pub enum OpenEvent {
    /// The stream is open.
    Opened,
    /// It could not be opened, for this reason.
    Failed(String),
    /// The session was recovered, or could not be.
    Recovered(bool),
}

/// What is to be done next about the stream.
#[derive(Debug, Clone, PartialEq, Eq)]
pub enum OpenAction {
    /// Try to open it.
    Open,
    /// Try to recover the session.
    Recover,
    /// Use it.
    Use,
    /// Report this error.
    Fail(String),
}

/// The mathematical value of an [`OpenEvent`].
pub ghost enum OpenEventView {
    Opened,
    Failed(Seq<char>),
    Recovered(bool),
}

/// The mathematical value of an [`OpenAction`].
pub ghost enum OpenActionView {
    Open,
    Recover,
    Use,
    Fail(Seq<char>),
}

impl View for OpenEvent {
    type V = OpenEventView;

    open spec fn view(&self) -> OpenEventView {
        match self {
            OpenEvent::Opened => OpenEventView::Opened,
            OpenEvent::Failed(m) => OpenEventView::Failed(m@),
            OpenEvent::Recovered(ok) => OpenEventView::Recovered(*ok),
        }
    }
}

impl View for OpenAction {
    type V = OpenActionView;

    open spec fn view(&self) -> OpenActionView {
        match self {
            OpenAction::Open => OpenActionView::Open,
            OpenAction::Recover => OpenActionView::Recover,
            OpenAction::Use => OpenActionView::Use,
            OpenAction::Fail(m) => OpenActionView::Fail(m@),
        }
    }
}

/// How far opening the stream has come.
pub ghost struct OpenState {
    /// Whether a recovery was tried.
    pub recovery_tried: bool,
    /// The first error, while the session is being recovered.
    pub error: Seq<char>,
}

impl OpenState {
    /// Before the first attempt.
    pub open spec fn initial() -> OpenState {
        OpenState { recovery_tried: false, error: Seq::empty() }
    }

    /// The state after an event, and what is to be done. The first error that
    /// looks like refused credentials leads to a recovery, where there is a
    /// session to recover, and a recovery that worked to a second attempt.
    pub open spec fn next(self, event: OpenEventView, has_session: bool) -> (
        OpenState,
        OpenActionView,
    ) {
        match event {
            OpenEventView::Opened => (self, OpenActionView::Use),
            OpenEventView::Failed(m) => if !self.recovery_tried && has_session
                && looks_unauthorized(m) {
                (OpenState { recovery_tried: true, error: m }, OpenActionView::Recover)
            } else {
                (self, OpenActionView::Fail(m))
            },
            OpenEventView::Recovered(ok) => if ok {
                (self, OpenActionView::Open)
            } else {
                (self, OpenActionView::Fail(self.error))
            },
        }
    }
}

/// Opens the stream, an attempt at a time.
pub struct StreamOpener {
    recovery_tried: bool,
    error: String,
}

impl View for StreamOpener {
    type V = OpenState;

    closed spec fn view(&self) -> OpenState {
        OpenState { recovery_tried: self.recovery_tried, error: self.error@ }
    }
}

impl StreamOpener {
    /// Before the first attempt.
    pub fn new() -> (r: StreamOpener)
        ensures
            r@ == OpenState::initial(),
    {
        let r = StreamOpener { recovery_tried: false, error: String::new() };
        assert(r@.error =~= Seq::empty());
        r
    }

    /// Says what is to be done after an event; `has_session` says whether there
    /// is a session that could be recovered.
    pub fn next(&mut self, event: OpenEvent, has_session: bool) -> (r: OpenAction)
        ensures
            (final(self)@, r@) == old(self)@.next(event@, has_session),
    {
        match event {
            OpenEvent::Opened => OpenAction::Use,
            OpenEvent::Failed(m) => {
                if !self.recovery_tried && has_session && is_auth_error(m.as_str()) {
                    self.recovery_tried = true;
                    self.error = m;
                    OpenAction::Recover
                } else {
                    OpenAction::Fail(m)
                }
            },
            OpenEvent::Recovered(ok) => if ok {
                OpenAction::Open
            } else {
                OpenAction::Fail(self.error.clone())
            },
        }
    }
}

/// The state after these events.
pub open spec fn opening(events: Seq<OpenEventView>, has_session: bool) -> OpenState
    decreases events.len(),
{
    if events.len() == 0 {
        OpenState::initial()
    } else {
        opening(events.drop_last(), has_session).next(events.last(), has_session).0
    }
}

/// How many of these events lead to a recovery.
pub open spec fn recoveries(events: Seq<OpenEventView>, has_session: bool) -> int
    decreases events.len(),
{
    if events.len() == 0 {
        0
    } else {
        recoveries(events.drop_last(), has_session) + if opening(
            events.drop_last(),
            has_session,
        ).next(events.last(), has_session).1 is Recover {
            1int
        } else {
            0
        }
    }
}

/// The session is recovered once at most, and not at all without one.
pub proof fn recovery_is_tried_once(events: Seq<OpenEventView>, has_session: bool)
    ensures
        recoveries(events, has_session) == if opening(events, has_session).recovery_tried {
            1int
        } else {
            0
        },
        !has_session ==> recoveries(events, has_session) == 0,
    decreases events.len(),
{
    if events.len() > 0 {
        recovery_is_tried_once(events.drop_last(), has_session);
    }
}

/// An error that speaks of 401, of something unauthorised or of authentication,
/// in letters of either case, is taken for refused credentials, wherever in its
/// text it does so; any other is not.
pub proof fn refused_credentials_are_told(a: Seq<char>, word: Seq<char>, b: Seq<char>)
    ensures
        word == "401"@ || text::lowered(word) == "unauthor"@ || text::lowered(word)
            == "authentication"@ ==> looks_unauthorized(a + word + b),
        looks_unauthorized(a) ==> exists|i: int, j: int|
            0 <= i <= j <= a.len() && (#[trigger] a.subrange(i, j) == "401"@ || text::lowered(
                a.subrange(i, j),
            ) == "unauthor"@ || text::lowered(a.subrange(i, j)) == "authentication"@),
{
    let all = a + word + b;
    let n = a.len() as int;
    let k = n + word.len();
    assert(all.subrange(n, k) =~= word);
    assert(text::lowered(all).subrange(n, k) =~= text::lowered(word));
    if word == "401"@ {
        assert(text::occurs_at("401"@, all, n));
    }
    if text::lowered(word) == "unauthor"@ {
        assert(text::occurs_at("unauthor"@, text::lowered(all), n));
    }
    if text::lowered(word) == "authentication"@ {
        assert(text::occurs_at("authentication"@, text::lowered(all), n));
    }
    if looks_unauthorized(a) {
        if text::occurs("401"@, a) {
            let i = choose|i: int| #[trigger] text::occurs_at("401"@, a, i);
            assert(a.subrange(i, i + "401"@.len()) == "401"@);
        } else {
            let part = if text::occurs("unauthor"@, text::lowered(a)) {
                "unauthor"@
            } else {
                "authentication"@
            };
            let i = choose|i: int| #[trigger] text::occurs_at(part, text::lowered(a), i);
            let j = i + part.len();
            assert(text::lowered(a.subrange(i, j)) =~= text::lowered(a).subrange(i, j));
        }
    }
}

/// How an opening goes: the first refusal of a session leads to a recovery; one
/// that works leads to a second attempt, whose error is reported whatever it is;
/// one that does not work reports the first error. Without a session, and where
/// the error is another one, the error is reported at once.
pub proof fn an_opening_ends_in_use_or_in_its_error(
    first: Seq<char>,
    second: Seq<char>,
    has_session: bool,
)
    ensures
        ({
            let start = OpenState::initial();
            let (tried, action) = start.next(OpenEventView::Failed(first), has_session);
            if has_session && looks_unauthorized(first) {
                let (again, retry) = tried.next(OpenEventView::Recovered(true), has_session);
                &&& action is Recover
                &&& retry is Open
                &&& again.next(OpenEventView::Failed(second), has_session).1
                    == OpenActionView::Fail(second)
                &&& again.next(OpenEventView::Opened, has_session).1 is Use
                &&& tried.next(OpenEventView::Recovered(false), has_session).1
                    == OpenActionView::Fail(first)
            } else {
                action == OpenActionView::Fail(first)
            }
        }),
        OpenState::initial().next(OpenEventView::Opened, has_session).1 is Use,
{
}

} // verus!
