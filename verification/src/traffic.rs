//! What went through the bridge lately, on both sides.

use std::collections::VecDeque;

use vstd::prelude::*;

use crate::json::{Json, JsonView};
use crate::text;

verus! {

/// Which side of the bridge a frame belongs to.
#[derive(Debug, Clone, Copy, PartialEq, Eq, Structural)]
pub enum TrafficSide {
    /// Between the client and the bridge.
    Claude,
    /// Between the bridge and Grok.
    Grok,
}

/// Something that went through the bridge.
#[derive(Debug, PartialEq)]
pub struct TrafficFrame {
    pub request_id: String,
    pub side: TrafficSide,
    /// What it is: `request`, `response`, `out`, `error` and the like.
    pub phase: String,
    pub payload: Json,
    /// When it went through, in milliseconds since 1970.
    pub unix_ms: u128,
}

/// The mathematical value of a [`TrafficFrame`].
pub ghost struct FrameView {
    pub request_id: Seq<char>,
    pub side: TrafficSide,
    pub phase: Seq<char>,
    pub payload: JsonView,
    pub unix_ms: nat,
}

impl View for TrafficFrame {
    type V = FrameView;

    open spec fn view(&self) -> FrameView {
        FrameView {
            request_id: self.request_id@,
            side: self.side,
            phase: self.phase@,
            payload: self.payload@,
            unix_ms: self.unix_ms as nat,
        }
    }
}

/// Whether every payload is a value that JSON text can stand for.
pub open spec fn payloads_wf(frames: Seq<TrafficFrame>) -> bool {
    forall|i: int| 0 <= i < frames.len() ==> (#[trigger] frames[i]).payload@.wf()
}

/// The values of frames.
pub open spec fn frames_view(frames: Seq<TrafficFrame>) -> Seq<FrameView> {
    frames.map_values(|f: TrafficFrame| f@)
}

impl TrafficFrame {
    /// A copy of this frame.
    pub fn duplicate(&self) -> (r: TrafficFrame)
        ensures
            r@ == self@,
    {
        TrafficFrame {
            request_id: self.request_id.clone(),
            side: self.side,
            phase: self.phase.clone(),
            payload: self.payload.duplicate(),
            unix_ms: self.unix_ms,
        }
    }
}

/// The name of a side; `client` is that of the client.
pub open spec fn side_text(side: TrafficSide, client: Seq<char>) -> Seq<char> {
    match side {
        TrafficSide::Claude => client,
        TrafficSide::Grok => "Grok"@,
    }
}

/// The name of a side; `client` is that of the client.
pub fn side_name<'a>(side: TrafficSide, client: &'a str) -> (r: &'a str)
    ensures
        r@ == side_text(side, client@),
{
    match side {
        TrafficSide::Claude => client,
        TrafficSide::Grok => "Grok",
    }
}

/// The name of the file that a frame is captured in; `client` is the client's.
pub open spec fn capture_name(f: FrameView, client: Seq<char>) -> Seq<char> {
    text::file_safe(
        f.request_id + "_"@ + side_text(f.side, client) + "_"@ + f.phase + "_"@ + text::decimal(
            f.unix_ms,
        ) + ".json"@,
    )
}

/// The name of the file that a frame is captured in; `client` is the client's.
pub fn capture_file_name(frame: &TrafficFrame, client: &str) -> (r: String)
    ensures
        r@ == capture_name(frame@, client@),
{
    let mut name = text::join3(frame.request_id.as_str(), "_", side_name(frame.side, client));
    name.append("_");
    name.append(frame.phase.as_str());
    name.append("_");
    name.append(text::wide_to_decimal(frame.unix_ms).as_str());
    name.append(".json");
    text::make_file_safe(name.as_str())
}

/// The fewest frames that a bus keeps.
pub const MIN_FRAMES: usize = 16;

/// The newest `n` frames.
pub open spec fn newest<T>(frames: Seq<T>, n: int) -> Seq<T> {
    if frames.len() <= n {
        frames
    } else {
        frames.skip(frames.len() - n)
    }
}

/// The frames that went through lately; `P` is a path.
pub struct TrafficBus<P> {
    frames: VecDeque<TrafficFrame>,
    max_frames: usize,
    capture_dir: Option<P>,
}

impl<P> View for TrafficBus<P> {
    type V = Seq<FrameView>;

    /// The frames that are kept, oldest first.
    closed spec fn view(&self) -> Seq<FrameView> {
        frames_view(self.frames@)
    }
}

impl<P> Default for TrafficBus<P> {
    /// A bus that keeps and captures nothing.
    fn default() -> (r: TrafficBus<P>)
        ensures
            r.wf(),
            r@ == Seq::<FrameView>::empty(),
            r.capacity() == 0,
            r.capture_place() is None,
    {
        let r = TrafficBus { frames: VecDeque::new(), max_frames: 0, capture_dir: None };
        assert(r@ =~= Seq::empty());
        r
    }
}

impl<P> TrafficBus<P> {
    /// How many frames are kept at most.
    pub closed spec fn capacity(&self) -> nat {
        self.max_frames as nat
    }

    /// The directory that frames are captured in, if any.
    pub closed spec fn capture_place(&self) -> Option<P> {
        self.capture_dir
    }

    /// No more frames are kept than the bus is made for, and their payloads can
    /// be printed.
    pub closed spec fn wf(&self) -> bool {
        self@.len() <= self.capacity() && payloads_wf(self.frames@)
    }

    /// A bus that keeps `max_frames` frames, or a few where that is less, and
    /// captures them in a directory, if any.
    pub fn new(max_frames: usize, capture_dir: Option<P>) -> (r: TrafficBus<P>)
        ensures
            r.wf(),
            r@ == Seq::<FrameView>::empty(),
            r.capacity() == if max_frames < MIN_FRAMES {
                MIN_FRAMES
            } else {
                max_frames
            },
            r.capture_place() == capture_dir,
    {
        let r = TrafficBus {
            frames: VecDeque::new(),
            max_frames: if max_frames < MIN_FRAMES {
                MIN_FRAMES
            } else {
                max_frames
            },
            capture_dir,
        };
        assert(r@ =~= Seq::empty());
        r
    }

    /// The directory that frames are captured in, if any.
    pub fn capture_dir(&self) -> (r: Option<&P>)
        ensures
            match r {
                Some(p) => self.capture_place() == Some(*p),
                None => self.capture_place() is None,
            },
    {
        match &self.capture_dir {
            Some(p) => Some(p),
            None => None,
        }
    }

    /// Adds a frame; the oldest goes where there would be too many.
    pub fn push(&mut self, frame: TrafficFrame)
        requires
            old(self).wf(),
            frame.payload@.wf(),
        ensures
            final(self).wf(),
            final(self).capacity() == old(self).capacity(),
            final(self).capture_place() == old(self).capture_place(),
            final(self)@ == newest(old(self)@.push(frame@), old(self).capacity() as int),
    {
        let ghost all = self@.push(frame@);
        self.frames.push_back(frame);
        assert(self@ =~= all);
        assert(newest(all, all.len() as int) =~= self@);
        while self.frames.len() > self.max_frames
            invariant
                self.max_frames == old(self).max_frames,
                self.capture_dir == old(self).capture_dir,
                self.frames@.len() <= all.len(),
                self.frames@.len() < all.len() ==> self.frames@.len() >= self.max_frames,
                self@ == newest(all, self.frames@.len() as int),
                payloads_wf(self.frames@),
            decreases self.frames@.len(),
        {
            let ghost before = self.frames@;
            let _ = self.frames.pop_front();
            assert(self@ =~= newest(all, self.frames@.len() as int)) by {
                assert(frames_view(before) == newest(all, before.len() as int));
                assert forall|i: int| 0 <= i < self@.len() implies self@[i] == newest(
                    all,
                    self.frames@.len() as int,
                )[i] by {
                    assert(self@[i] == frames_view(before)[i + 1]);
                }
            }
        }
        assert(self@ =~= newest(all, self.max_frames as int));
    }

    /// Records a payload that went through at this time.
    pub fn record_json(
        &mut self,
        request_id: &str,
        side: TrafficSide,
        phase: &str,
        payload: Json,
        unix_ms: u128,
    )
        requires
            old(self).wf(),
            payload@.wf(),
        ensures
            final(self).wf(),
            final(self).capacity() == old(self).capacity(),
            final(self).capture_place() == old(self).capture_place(),
            final(self)@ == newest(
                old(self)@.push(
                    FrameView {
                        request_id: request_id@,
                        side,
                        phase: phase@,
                        payload: payload@,
                        unix_ms: unix_ms as nat,
                    },
                ),
                old(self).capacity() as int,
            ),
    {
        self.push(
            TrafficFrame {
                request_id: request_id.to_owned(),
                side,
                phase: phase.to_owned(),
                payload,
                unix_ms,
            },
        );
    }

    /// The newest frames, newest first, as many as `limit` allows.
    pub fn recent(&self, limit: usize) -> (r: Vec<TrafficFrame>)
        requires
            self.wf(),
        ensures
            frames_view(r@) == newest(self@, limit as int).reverse(),
            payloads_wf(r@),
    {
        let mut out: Vec<TrafficFrame> = Vec::new();
        let n: usize = self.frames.len();
        let ghost all = self@;
        assert(frames_view(out@) =~= newest(all, 0).reverse());
        while out.len() < limit && out.len() < n
            invariant
                n == self.frames@.len(),
                all == self@,
                out@.len() <= n,
                out@.len() <= limit,
                self.wf(),
                payloads_wf(out@),
                frames_view(out@) == newest(all, out@.len() as int).reverse(),
            decreases n - out@.len(),
        {
            let at: usize = n - 1 - out.len();
            let frame = self.frames[at].duplicate();
            let ghost before = frames_view(out@);
            out.push(frame);
            assert(frames_view(out@) =~= before.push(frame@));
            assert(frames_view(out@) =~= newest(all, out@.len() as int).reverse());
        }
        assert(frames_view(out@) =~= newest(all, limit as int).reverse());
        out
    }

    /// The frames of a request, oldest first.
    pub fn frames_for_request(&self, request_id: &str) -> (r: Vec<TrafficFrame>)
        requires
            self.wf(),
        ensures
            frames_view(r@) == frames_of(self@, request_id@),
            payloads_wf(r@),
    {
        let mut out: Vec<TrafficFrame> = Vec::new();
        let ghost all = self@;
        let mut i: usize = 0;
        assert(frames_view(out@) =~= frames_of(all.take(0), request_id@));
        while i < self.frames.len()
            invariant
                i <= self.frames@.len(),
                all == self@,
                frames_view(out@) == frames_of(all.take(i as int), request_id@),
                self.wf(),
                payloads_wf(out@),
            decreases self.frames@.len() - i,
        {
            assert(all.take(i as int + 1).drop_last() =~= all.take(i as int));
            assert(all.take(i as int + 1).last() == self.frames@[i as int]@);
            if text::same(self.frames[i].request_id.as_str(), request_id) {
                let frame = self.frames[i].duplicate();
                let ghost before = frames_view(out@);
                out.push(frame);
                assert(frames_view(out@) =~= before.push(frame@));
            }
            i += 1;
        }
        assert(all.take(i as int) =~= all);
        out
    }

    /// What the monitor shows: every frame, and a summary for each request.
    pub fn snapshot(&self) -> (r: TrafficSnapshot)
        requires
            self.wf(),
        ensures
            payloads_wf(r.frames@),
            frames_view(r.frames@) == self@,
            r.total_frames == self@.len(),
            summaries_view(r.requests@) == summaries(self@),
    {
        let mut frames: Vec<TrafficFrame> = Vec::new();
        let mut requests: Vec<RequestSummary> = Vec::new();
        let ghost all = self@;
        let mut i: usize = 0;
        assert(frames_view(frames@) =~= all.take(0));
        assert(summaries_view(requests@) =~= summaries(all.take(0)));
        while i < self.frames.len()
            invariant
                i <= self.frames.len(),
                all == self@,
                frames@.len() == i,
                frames_view(frames@) == all.take(i as int),
                self.wf(),
                payloads_wf(frames@),
                summaries_view(requests@) == summaries(all.take(i as int)),
                counted(summaries_view(requests@), i as int),
            decreases self.frames@.len() - i,
        {
            assert(all.take(i as int + 1).drop_last() =~= all.take(i as int));
            assert(all.take(i as int + 1).last() == self.frames@[i as int]@);
            let ghost before = frames_view(frames@);
            let frame = self.frames[i].duplicate();
            add_to_summaries(&mut requests, &frame, i);
            frames.push(frame);
            assert(frames_view(frames@) =~= before.push(frame@));
            i += 1;
            assert(frames_view(frames@) =~= all.take(i as int));
        }
        assert(all.take(i as int) =~= all);
        TrafficSnapshot { total_frames: frames.len(), frames, requests }
    }
}

/// The frames of a request.
pub open spec fn frames_of(frames: Seq<FrameView>, request_id: Seq<char>) -> Seq<FrameView>
    decreases frames.len(),
{
    if frames.len() == 0 {
        Seq::empty()
    } else {
        let before = frames_of(frames.drop_last(), request_id);
        if frames.last().request_id == request_id {
            before.push(frames.last())
        } else {
            before
        }
    }
}

/// What the monitor shows of a request.
#[derive(Debug, Clone, PartialEq, Eq)]
pub struct RequestSummary {
    pub request_id: String,
    pub frame_count: usize,
    pub claude_frames: usize,
    pub grok_frames: usize,
    pub last_phase: String,
    /// Whether a frame is an `error`.
    pub has_error: bool,
}

/// What the monitor shows.
pub struct TrafficSnapshot {
    /// The requests, the one that began last first.
    pub requests: Vec<RequestSummary>,
    /// The frames, oldest first.
    pub frames: Vec<TrafficFrame>,
    pub total_frames: usize,
}

/// The mathematical value of a [`RequestSummary`].
pub ghost struct SummaryView {
    pub request_id: Seq<char>,
    pub frame_count: int,
    pub claude_frames: int,
    pub grok_frames: int,
    pub last_phase: Seq<char>,
    pub has_error: bool,
}

impl View for RequestSummary {
    type V = SummaryView;

    open spec fn view(&self) -> SummaryView {
        SummaryView {
            request_id: self.request_id@,
            frame_count: self.frame_count as int,
            claude_frames: self.claude_frames as int,
            grok_frames: self.grok_frames as int,
            last_phase: self.last_phase@,
            has_error: self.has_error,
        }
    }
}

/// The values of summaries.
pub open spec fn summaries_view(s: Seq<RequestSummary>) -> Seq<SummaryView> {
    s.map_values(|r: RequestSummary| r@)
}

impl SummaryView {
    /// The summary of a request before its first frame.
    pub open spec fn blank(request_id: Seq<char>) -> SummaryView {
        SummaryView {
            request_id,
            frame_count: 0,
            claude_frames: 0,
            grok_frames: 0,
            last_phase: Seq::empty(),
            has_error: false,
        }
    }

    /// The summary with one more frame.
    pub open spec fn with_frame(self, f: FrameView) -> SummaryView {
        SummaryView {
            request_id: self.request_id,
            frame_count: self.frame_count + 1,
            claude_frames: if f.side == TrafficSide::Claude {
                self.claude_frames + 1
            } else {
                self.claude_frames
            },
            grok_frames: if f.side == TrafficSide::Grok {
                self.grok_frames + 1
            } else {
                self.grok_frames
            },
            last_phase: f.phase,
            has_error: self.has_error || f.phase == "error"@,
        }
    }
}

/// Position of the summary of a request, or the number of summaries.
pub open spec fn summary_position(s: Seq<SummaryView>, request_id: Seq<char>) -> int
    decreases s.len(),
{
    if s.len() == 0 || s[0].request_id == request_id {
        0
    } else {
        1 + summary_position(s.drop_first(), request_id)
    }
}

/// The summaries of the requests of frames, the one that began last first.
pub open spec fn summaries(frames: Seq<FrameView>) -> Seq<SummaryView>
    decreases frames.len(),
{
    if frames.len() == 0 {
        Seq::empty()
    } else {
        summaries_with(summaries(frames.drop_last()), frames.last())
    }
}

/// The summaries with one more frame.
pub open spec fn summaries_with(s: Seq<SummaryView>, f: FrameView) -> Seq<SummaryView> {
    let at = summary_position(s, f.request_id);
    if at < s.len() {
        s.update(at, s[at].with_frame(f))
    } else {
        seq![SummaryView::blank(f.request_id).with_frame(f)] + s
    }
}

/// No summary counts more than `n` frames.
spec fn counted(s: Seq<SummaryView>, n: int) -> bool {
    forall|i: int|
        0 <= i < s.len() ==> 0 <= (#[trigger] s[i]).frame_count <= n && 0 <= s[i].claude_frames
            <= n && 0 <= s[i].grok_frames <= n
}

pub proof fn summary_position_is(s: Seq<SummaryView>, request_id: Seq<char>, at: int)
    requires
        0 <= at <= s.len(),
        at < s.len() ==> s[at].request_id == request_id,
        forall|i: int| 0 <= i < at ==> (#[trigger] s[i]).request_id != request_id,
    ensures
        summary_position(s, request_id) == at,
    decreases s.len(),
{
    if at > 0 {
        assert(s[0].request_id != request_id);
        let rest = s.drop_first();
        assert forall|i: int| 0 <= i < at - 1 implies (#[trigger] rest[i]).request_id
            != request_id by {
            assert(rest[i] == s[i + 1]);
        }
        summary_position_is(rest, request_id, at - 1);
    }
}

/// Counts one more frame.
fn count_frame(s: &mut RequestSummary, frame: &TrafficFrame)
    requires
        old(s).frame_count < usize::MAX,
        old(s).claude_frames < usize::MAX,
        old(s).grok_frames < usize::MAX,
    ensures
        final(s)@ == old(s)@.with_frame(frame@),
{
    s.frame_count += 1;
    match frame.side {
        TrafficSide::Claude => {
            s.claude_frames += 1;
        },
        TrafficSide::Grok => {
            s.grok_frames += 1;
        },
    }
    s.last_phase = frame.phase.clone();
    if text::same(frame.phase.as_str(), "error") {
        s.has_error = true;
    }
}

fn add_to_summaries(requests: &mut Vec<RequestSummary>, frame: &TrafficFrame, n: usize)
    requires
        counted(summaries_view(old(requests)@), n as int),
        n < usize::MAX,
    ensures
        summaries_view(final(requests)@) == summaries_with(summaries_view(old(requests)@), frame@),
        counted(summaries_view(final(requests)@), n + 1),
{
    let ghost before = summaries_view(requests@);
    let mut at: usize = 0;
    while at < requests.len() && !text::same(
        requests[at].request_id.as_str(),
        frame.request_id.as_str(),
    )
        invariant
            at <= requests@.len(),
            before == summaries_view(requests@),
            forall|i: int|
                0 <= i < at ==> (#[trigger] before[i]).request_id != frame@.request_id,
        decreases requests@.len() - at,
    {
        at += 1;
    }
    proof {
        summary_position_is(before, frame@.request_id, at as int);
    }
    if at < requests.len() {
        assert(before[at as int] == requests@[at as int]@);
        let mut summary = requests[at].clone_summary();
        count_frame(&mut summary, frame);
        requests.set(at, summary);
        assert(summaries_view(requests@) =~= summaries_with(before, frame@));
    } else {
        let mut summary = RequestSummary {
            request_id: frame.request_id.clone(),
            frame_count: 0,
            claude_frames: 0,
            grok_frames: 0,
            last_phase: String::new(),
            has_error: false,
        };
        assert(summary.last_phase@ =~= Seq::empty());
        count_frame(&mut summary, frame);
        requests.insert(0, summary);
        assert(summaries_view(requests@) =~= summaries_with(before, frame@));
    }
}

impl RequestSummary {
    /// A copy of this summary.
    fn clone_summary(&self) -> (r: RequestSummary)
        ensures
            r == *self,
    {
        RequestSummary {
            request_id: self.request_id.clone(),
            frame_count: self.frame_count,
            claude_frames: self.claude_frames,
            grok_frames: self.grok_frames,
            last_phase: self.last_phase.clone(),
            has_error: self.has_error,
        }
    }
}

/// What a bus keeps after these frames.
pub open spec fn kept(capacity: int, frames: Seq<FrameView>) -> Seq<FrameView>
    decreases frames.len(),
{
    if frames.len() == 0 {
        Seq::empty()
    } else {
        newest(kept(capacity, frames.drop_last()).push(frames.last()), capacity)
    }
}

/// A bus keeps the newest frames of all that were ever added, in order, as many
/// as it is made for.
pub proof fn the_newest_frames_are_kept(capacity: int, frames: Seq<FrameView>)
    requires
        0 <= capacity,
    ensures
        kept(capacity, frames) == newest(frames, capacity),
    decreases frames.len(),
{
    if frames.len() > 0 {
        the_newest_frames_are_kept(capacity, frames.drop_last());
        assert(kept(capacity, frames) =~= newest(frames, capacity));
    } else {
        assert(newest(frames, capacity) =~= Seq::empty());
    }
}

/// The frames of a request among frames are those that bear its id, all of them
/// and in order: those of two stretches are those of one behind those of the
/// other; a stretch that is its own is kept whole, and one that is not is left
/// out.
pub proof fn a_request_has_its_own_frames(
    a: Seq<FrameView>,
    b: Seq<FrameView>,
    request_id: Seq<char>,
)
    ensures
        frames_of(a + b, request_id) == frames_of(a, request_id) + frames_of(b, request_id),
        (forall|i: int| 0 <= i < b.len() ==> (#[trigger] b[i]).request_id == request_id)
            ==> frames_of(b, request_id) == b,
        (forall|i: int| 0 <= i < b.len() ==> (#[trigger] b[i]).request_id != request_id)
            ==> frames_of(b, request_id) == Seq::<FrameView>::empty(),
    decreases b.len(),
{
    if b.len() > 0 {
        let earlier = b.drop_last();
        a_request_has_its_own_frames(a, earlier, request_id);
        assert((a + b).drop_last() =~= a + earlier);
        assert(frames_of(a + b, request_id) =~= frames_of(a, request_id) + frames_of(b, request_id));
        assert(forall|i: int| 0 <= i < earlier.len() ==> #[trigger] earlier[i] == b[i]);
        assert(b[b.len() - 1] == b.last());
        assert(earlier.push(b.last()) =~= b);
    } else {
        assert(a + b =~= a);
        assert(frames_of(b, request_id) =~= b);
    }
}

/// How many frames belong to a side.
pub open spec fn frames_on(frames: Seq<FrameView>, side: TrafficSide) -> int
    decreases frames.len(),
{
    if frames.len() == 0 {
        0
    } else {
        frames_on(frames.drop_last(), side) + if frames.last().side == side {
            1int
        } else {
            0
        }
    }
}

/// Whether a frame is an error.
pub open spec fn any_error(frames: Seq<FrameView>) -> bool {
    exists|i: int| 0 <= i < frames.len() && (#[trigger] frames[i]).phase == "error"@
}

/// Whether a summary tells what the frames of its request are: how many, how
/// many on either side, the phase of the last, and whether any is an error.
pub open spec fn tells(s: SummaryView, frames: Seq<FrameView>) -> bool {
    let own = frames_of(frames, s.request_id);
    &&& own.len() > 0
    &&& s.frame_count == own.len()
    &&& s.claude_frames == frames_on(own, TrafficSide::Claude)
    &&& s.grok_frames == frames_on(own, TrafficSide::Grok)
    &&& s.claude_frames + s.grok_frames == s.frame_count
    &&& s.last_phase == own[own.len() - 1].phase
    &&& s.has_error <==> any_error(own)
}

/// There is one summary for each request that has frames, and it tells what
/// they are.
pub proof fn summaries_tell_their_requests(frames: Seq<FrameView>)
    ensures
        forall|k: int|
            0 <= k < summaries(frames).len() ==> tells(#[trigger] summaries(frames)[k], frames),
        forall|i: int, j: int|
            0 <= i < j < summaries(frames).len() ==> (#[trigger] summaries(frames)[i]).request_id
                != (#[trigger] summaries(frames)[j]).request_id,
        forall|i: int|
            0 <= i < frames.len() ==> exists|k: int|
                0 <= k < summaries(frames).len() && (#[trigger] summaries(frames)[k]).request_id == (
                #[trigger] frames[i]).request_id,
    decreases frames.len(),
{
    if frames.len() > 0 {
        let earlier = frames.drop_last();
        let f = frames.last();
        let s = summaries(earlier);
        let t = summaries(frames);
        summaries_tell_their_requests(earlier);
        let at = where_a_summary_is(s, f.request_id);
        summary_position_is(s, f.request_id, at);
        assert(earlier.push(f) =~= frames);
        if at < s.len() {
            assert(t == s.update(at, s[at].with_frame(f)));
            assert forall|k: int| 0 <= k < t.len() implies tells(#[trigger] t[k], frames) by {
                assert(tells(s[k], earlier));
                if k == at {
                    one_more_is_told(s[at], earlier, f);
                } else {
                    assert(s[k].request_id != f.request_id) by {
                        if k < at {
                            assert(s[k].request_id != s[at].request_id);
                        } else {
                            assert(s[at].request_id != s[k].request_id);
                        }
                    }
                }
            }
            assert forall|i: int, j: int| 0 <= i < j < t.len() implies (#[trigger] t[i]).request_id
                != (#[trigger] t[j]).request_id by {
                assert(s[i].request_id != s[j].request_id);
            }
            assert forall|i: int| 0 <= i < frames.len() implies exists|k: int|
                0 <= k < t.len() && (#[trigger] t[k]).request_id == (
                #[trigger] frames[i]).request_id by {
                if i < earlier.len() {
                    assert(earlier[i] == frames[i]);
                    let k = choose|k: int|
                        0 <= k < s.len() && (#[trigger] s[k]).request_id == earlier[i].request_id;
                    assert(t[k].request_id == frames[i].request_id);
                } else {
                    assert(t[at].request_id == frames[i].request_id);
                }
            }
        } else {
            let new = SummaryView::blank(f.request_id).with_frame(f);
            assert(t == seq![new] + s);
            let own = frames_of(earlier, f.request_id);
            assert(own.len() == 0) by {
                if own.len() > 0 {
                    let i = a_frame_of(earlier, f.request_id);
                    let k = choose|k: int|
                        0 <= k < s.len() && (#[trigger] s[k]).request_id == earlier[i].request_id;
                    assert(s[k].request_id != f.request_id);
                }
            }
            assert(own =~= Seq::empty());
            assert(frames_of(frames, f.request_id) =~= seq![f]);
            assert(seq![f].drop_last() =~= Seq::empty());
            assert(seq![f].last() == f);
            reveal_with_fuel(frames_on, 2);
            assert(any_error(seq![f]) <==> f.phase == "error"@) by {
                assert(seq![f][0] == f);
            }
            assert(tells(new, frames));
            assert forall|k: int| 0 <= k < t.len() implies tells(#[trigger] t[k], frames) by {
                if k > 0 {
                    assert(t[k] == s[k - 1]);
                    assert(tells(s[k - 1], earlier));
                    assert(s[k - 1].request_id != f.request_id);
                }
            }
            assert forall|i: int, j: int| 0 <= i < j < t.len() implies (#[trigger] t[i]).request_id
                != (#[trigger] t[j]).request_id by {
                assert(t[j] == s[j - 1]);
                if i > 0 {
                    assert(t[i] == s[i - 1]);
                }
            }
            assert forall|i: int| 0 <= i < frames.len() implies exists|k: int|
                0 <= k < t.len() && (#[trigger] t[k]).request_id == (
                #[trigger] frames[i]).request_id by {
                if i < earlier.len() {
                    assert(earlier[i] == frames[i]);
                    let k = choose|k: int|
                        0 <= k < s.len() && (#[trigger] s[k]).request_id == earlier[i].request_id;
                    assert(t[k + 1] == s[k]);
                } else {
                    assert(t[0].request_id == frames[i].request_id);
                }
            }
        }
    }
}

proof fn one_more_is_told(s: SummaryView, earlier: Seq<FrameView>, f: FrameView)
    requires
        tells(s, earlier),
        s.request_id == f.request_id,
    ensures
        tells(s.with_frame(f), earlier.push(f)),
{
    let own = frames_of(earlier, f.request_id);
    let all = earlier.push(f);
    assert(all.drop_last() =~= earlier);
    let more = own.push(f);
    assert(frames_of(all, f.request_id) == more);
    assert(more.drop_last() =~= own);
    if any_error(own) {
        let i = choose|i: int| 0 <= i < own.len() && (#[trigger] own[i]).phase == "error"@;
        assert(more[i] == own[i]);
    }
    if any_error(more) {
        let i = choose|i: int| 0 <= i < more.len() && (#[trigger] more[i]).phase == "error"@;
        assert(i < own.len() ==> own[i] == more[i]);
    }
    if f.phase == "error"@ {
        assert(more[own.len() as int] == f);
    }
}

proof fn where_a_summary_is(s: Seq<SummaryView>, request_id: Seq<char>) -> (at: int)
    ensures
        0 <= at <= s.len(),
        at < s.len() ==> s[at].request_id == request_id,
        forall|i: int| 0 <= i < at ==> (#[trigger] s[i]).request_id != request_id,
    decreases s.len(),
{
    if s.len() == 0 || s[0].request_id == request_id {
        0
    } else {
        let rest = s.drop_first();
        let n = where_a_summary_is(rest, request_id);
        assert forall|i: int| 0 <= i < n + 1 implies (#[trigger] s[i]).request_id != request_id by {
            if i > 0 {
                assert(rest[i - 1] == s[i]);
            }
        }
        n + 1
    }
}

proof fn a_frame_of(frames: Seq<FrameView>, request_id: Seq<char>) -> (i: int)
    requires
        frames_of(frames, request_id).len() > 0,
    ensures
        0 <= i < frames.len(),
        frames[i].request_id == request_id,
    decreases frames.len(),
{
    if frames.last().request_id == request_id {
        frames.len() - 1
    } else {
        a_frame_of(frames.drop_last(), request_id)
    }
}

/// A request that begins goes to the top of the list; one that goes on stays in
/// its place, and so do all others.
pub proof fn new_requests_come_first(frames: Seq<FrameView>, f: FrameView)
    ensures
        ({
            let before = summaries(frames);
            let after = summaries(frames.push(f));
            if frames_of(frames, f.request_id).len() == 0 {
                &&& after.len() == before.len() + 1
                &&& after[0].request_id == f.request_id
                &&& forall|i: int| 0 <= i < before.len() ==> after[i + 1] == #[trigger] before[i]
            } else {
                &&& after.len() == before.len()
                &&& forall|i: int|
                    0 <= i < before.len() ==> (#[trigger] after[i]).request_id
                        == before[i].request_id
                &&& forall|i: int|
                    0 <= i < before.len() && (#[trigger] before[i]).request_id != f.request_id
                        ==> after[i] == before[i]
            }
        }),
{
    assert(frames.push(f).drop_last() =~= frames);
    summaries_tell_their_requests(frames);
    let s = summaries(frames);
    let at = where_a_summary_is(s, f.request_id);
    summary_position_is(s, f.request_id, at);
    if frames_of(frames, f.request_id).len() == 0 {
        if at < s.len() {
            assert(tells(s[at], frames));
        }
    } else {
        let i = a_frame_of(frames, f.request_id);
        let k = choose|k: int|
            0 <= k < s.len() && (#[trigger] s[k]).request_id == frames[i].request_id;
        assert(at <= k);
    }
}

/// The newest frames are the end of all frames, as many as asked for or as there
/// are; a bus keeps 16 at least.
pub proof fn the_newest_are_the_last(frames: Seq<FrameView>, n: int)
    requires
        0 <= n,
    ensures
        newest(frames, n).is_suffix_of(frames),
        newest(frames, n).len() == if n < frames.len() {
            n
        } else {
            frames.len() as int
        },
        MIN_FRAMES == 16,
{
    assert(newest(frames, n) =~= frames.subrange(
        frames.len() - newest(frames, n).len(),
        frames.len() as int,
    ));
}

/// The name of a captured file tells the request, the side, the phase and the
/// time, with an underscore for whatever a file name should not hold.
pub proof fn a_captured_file_is_named_by_its_frame(f: FrameView, client: Seq<char>, i: int)
    ensures
        ({
            let side = if f.side is Grok {
                "Grok"@
            } else {
                client
            };
            let plain = f.request_id + "_"@ + side + "_"@ + f.phase + "_"@ + text::decimal(f.unix_ms)
                + ".json"@;
            &&& capture_name(f, client).len() == plain.len()
            &&& 0 <= i < plain.len() ==> capture_name(f, client)[i] == if plain[i] == '/' || plain[i]
                == '\\' || plain[i] == ' ' {
                '_'
            } else {
                plain[i]
            }
        }),
{
}

} // verus!
