//! The global timing-tree state machine: a fixed ring of logical frames, the
//! begin/end/report protocol, and the reducer that assembles a completed,
//! named timing tree from correlated (identity, duration) pairs.

use vstd::prelude::*;

use crate::ids::NanoSecond;
use crate::ids::ScopeId;

verus! {

/// Size of the ring of logical frames that may be in flight at once.
pub const MAX_FRAMES_IN_FLIGHT: usize = 4;

/// A named span of device work, owned by exactly one logical frame. Its name
/// is moved out, leaving an empty placeholder, the moment reporting consumes
/// it, so a name is read at most once.
#[derive(Debug)]
pub struct Scope {
    pub name: String,
}

/// Lifecycle of one logical frame. `index` is the logical frame's sequence
/// number when `Begin` was entered; it guards against the ring wrapping onto
/// a slot whose results are still outstanding.
#[derive(Clone, Copy, PartialEq, Eq, Structural, Debug)]
pub enum FrameState {
    Invalid,
    Begin { index: u32 },
    End { index: u32 },
    Reported,
}

/// One logical frame: its lifecycle state and the scopes created for it.
#[derive(Debug)]
pub struct Frame {
    pub state: FrameState,
    pub scopes: Vec<Scope>,
}

/// A finished, named, duration-annotated span.
#[derive(Debug)]
pub struct TimedScope {
    pub name: String,
    pub duration: NanoSecond,
}

/// The completed report for one logical frame, ready for export.
#[derive(Debug)]
pub struct TimedFrame {
    pub scopes: Vec<TimedScope>,
}

/// The sequence number a frame's state carries, where it carries one.
pub open spec fn frame_state_index(s: FrameState) -> u32 {
    match s {
        FrameState::Begin { index } => index,
        FrameState::End { index } => index,
        _ => 0,
    }
}

/// The sequence of scope names held by a frame's scope table.
pub open spec fn frame_names(f: Frame) -> Seq<Seq<char>> {
    f.scopes@.map(|i: int, s: Scope| s.name@)
}

/// The (name, duration) pairs of a sequence of finished spans, as plain
/// values.
pub open spec fn timed_scopes_view(s: Seq<TimedScope>) -> Seq<(Seq<char>, u64)> {
    s.map(|i: int, ts: TimedScope| (ts.name@, ts.duration.0))
}

/// The (name, duration) pairs of a completed report, as plain values.
pub open spec fn timed_view(t: TimedFrame) -> Seq<(Seq<char>, u64)> {
    timed_scopes_view(t.scopes@)
}

/// The scope-name table after the first `n` reported pairs have each moved
/// the name of the scope they refer to out, leaving an empty placeholder.
pub open spec fn names_after(
    s0: Seq<Seq<char>>,
    pairs: Seq<(ScopeId, NanoSecond)>,
    n: int,
) -> Seq<Seq<char>>
    decreases n,
{
    if n <= 0 {
        s0
    } else {
        names_after(s0, pairs, n - 1).update(pairs[n - 1].0.scope as int, Seq::<char>::empty())
    }
}

/// The (name, duration) pairs assembled from the first `n` reported pairs, in
/// the order the pairs were supplied; a scope reported twice contributes its
/// name only the first time.
pub open spec fn report_after(
    s0: Seq<Seq<char>>,
    pairs: Seq<(ScopeId, NanoSecond)>,
    n: int,
) -> Seq<(Seq<char>, u64)>
    decreases n,
{
    if n <= 0 {
        Seq::empty()
    } else {
        report_after(s0, pairs, n - 1).push(
            (names_after(s0, pairs, n - 1)[pairs[n - 1].0.scope as int], (pairs[n - 1].1).0),
        )
    }
}

/// Owns the ring of logical frames, enforces the begin/end/report protocol,
/// and retains the most recently completed report until it is consumed or
/// replaced.
#[derive(Debug)]
pub struct GpuProfiler {
    pub frames: Vec<Frame>,
    pub frame_idx: u32,
    pub last_report: Option<TimedFrame>,
}

impl GpuProfiler {
    pub open spec fn wf(self) -> bool {
        self.frames@.len() == MAX_FRAMES_IN_FLIGHT
    }

    /// The ring slot that logical frame `idx` occupies.
    pub open spec fn slot_of(idx: u32) -> int {
        idx as int % (MAX_FRAMES_IN_FLIGHT as int)
    }

    /// The logical frame currently addressed by the frame counter.
    pub open spec fn cur(self) -> Frame {
        self.frames@[Self::slot_of(self.frame_idx)]
    }

    pub fn new() -> (r: GpuProfiler)
        ensures
            r.wf(),
            r.frame_idx == 0,
            r.last_report is None,
            forall|k: int|
                0 <= k < MAX_FRAMES_IN_FLIGHT ==> (#[trigger] r.frames@[k]).state
                    == FrameState::Invalid && r.frames@[k].scopes@.len() == 0,
    {
        let mut frames: Vec<Frame> = Vec::new();
        frames.push(Frame { state: FrameState::Invalid, scopes: Vec::new() });
        frames.push(Frame { state: FrameState::Invalid, scopes: Vec::new() });
        frames.push(Frame { state: FrameState::Invalid, scopes: Vec::new() });
        frames.push(Frame { state: FrameState::Invalid, scopes: Vec::new() });
        GpuProfiler { frames, frame_idx: 0, last_report: None }
    }

    /// Opens the next logical frame. Calling this while the current frame is
    /// already recording (double begin) is a protocol violation, excluded by
    /// precondition.
    pub fn begin_frame(&mut self)
        requires
            old(self).wf(),
            !(old(self).cur().state is Begin),
        ensures
            final(self).wf(),
            final(self).frame_idx == old(self).frame_idx,
            final(self).last_report == old(self).last_report,
            final(self).cur().state == (FrameState::Begin { index: old(self).frame_idx }),
            final(self).cur().scopes@.len() == 0,
            forall|k: int|
                0 <= k < MAX_FRAMES_IN_FLIGHT && k != Self::slot_of(old(self).frame_idx)
                    ==> final(self).frames@[k] == old(self).frames@[k],
    {
        let idx = self.frame_idx;
        let slot = (idx as usize) % MAX_FRAMES_IN_FLIGHT;
        let frame = &mut self.frames[slot];
        frame.state = FrameState::Begin { index: idx };
        frame.scopes.clear();
    }

    /// Closes the current logical frame and advances the frame counter.
    /// Calling it before `begin_frame`, or twice in a row, is a protocol
    /// violation, excluded by precondition.
    pub fn end_frame(&mut self)
        requires
            old(self).wf(),
            old(self).cur().state is Begin,
            old(self).frame_idx < u32::MAX,
        ensures
            final(self).wf(),
            final(self).frame_idx == old(self).frame_idx + 1,
            final(self).last_report == old(self).last_report,
            final(self).frames@ == old(self).frames@.update(
                Self::slot_of(old(self).frame_idx),
                (Frame {
                    state: FrameState::End { index: frame_state_index(old(self).cur().state) },
                    scopes: old(self).cur().scopes,
                }),
            ),
    {
        let slot = (self.frame_idx as usize) % MAX_FRAMES_IN_FLIGHT;
        let frame = &mut self.frames[slot];
        let index = match frame.state {
            FrameState::Begin { index } => index,
            _ => 0,
        };
        frame.state = FrameState::End { index };
        self.frame_idx = self.frame_idx + 1;
    }

    /// Appends a new named scope to the current logical frame and returns the
    /// identity pairing the current frame counter with the entry's position.
    /// Valid only between `begin_frame` and `end_frame`; that discipline is
    /// the caller's, as the protocol does not gate this call on the state.
    pub fn create_scope(&mut self, name: String) -> (r: ScopeId)
        requires
            old(self).wf(),
            old(self).cur().scopes@.len() < u32::MAX,
        ensures
            final(self).wf(),
            final(self).frame_idx == old(self).frame_idx,
            final(self).last_report == old(self).last_report,
            r == (ScopeId {
                frame: old(self).frame_idx,
                scope: old(self).cur().scopes@.len() as u32,
            }),
            final(self).cur().state == old(self).cur().state,
            frame_names(final(self).cur()) == frame_names(old(self).cur()).push(name@),
            forall|k: int|
                0 <= k < MAX_FRAMES_IN_FLIGHT && k != Self::slot_of(old(self).frame_idx)
                    ==> final(self).frames@[k] == old(self).frames@[k],
    {
        let idx = self.frame_idx;
        let slot = (idx as usize) % MAX_FRAMES_IN_FLIGHT;
        let frame = &mut self.frames[slot];
        let next_scope_id = frame.scopes.len();
        frame.scopes.push(Scope { name });
        proof {
            assert(frame_names(self.cur()) =~= frame_names(old(self).cur()).push(
                final(frame).scopes@.last().name@,
            ));
        }
        ScopeId { frame: idx, scope: next_scope_id as u32 }
    }

    /// Consumes correlated (identity, duration) pairs for one completed
    /// logical frame, moves each named scope out of that frame's table, and
    /// retains the assembled report as the single buffered last report. An
    /// empty sequence is a legal no-op that only clears any previous report.
    /// Reporting a frame that is not in `End` state with a matching sequence
    /// number (double report, report before end, stale ring slot), or mixing
    /// identities from different frames, is a protocol violation, excluded by
    /// precondition.
    pub fn report_durations(&mut self, durations: Vec<(ScopeId, NanoSecond)>)
        requires
            old(self).wf(),
            durations@.len() > 0 ==> ({
                let f = durations@[0].0.frame;
                let t = Self::slot_of(f);
                &&& old(self).frames@[t].state == (FrameState::End { index: f })
                &&& forall|i: int|
                    0 <= i < durations@.len() ==> (#[trigger] durations@[i]).0.frame == f
                &&& forall|i: int|
                    0 <= i < durations@.len() ==> (#[trigger] durations@[i]).0.scope
                        < old(self).frames@[t].scopes@.len()
            }),
        ensures
            final(self).wf(),
            final(self).frame_idx == old(self).frame_idx,
            durations@.len() == 0 ==> final(self).last_report is None && final(self).frames@
                == old(self).frames@,
            durations@.len() > 0 ==> ({
                let f = durations@[0].0.frame;
                let t = Self::slot_of(f);
                let s0 = frame_names(old(self).frames@[t]);
                let n = durations@.len() as int;
                &&& final(self).frames@[t].state == FrameState::Reported
                &&& frame_names(final(self).frames@[t]) == names_after(s0, durations@, n)
                &&& forall|k: int|
                    0 <= k < MAX_FRAMES_IN_FLIGHT && k != t ==> final(self).frames@[k]
                        == old(self).frames@[k]
                &&& (final(self).last_report matches Some(tf) && timed_view(tf) == report_after(
                    s0,
                    durations@,
                    n,
                ))
            }),
    {
        if durations.len() == 0 {
            self.last_report = None;
            return ;
        }
        let first_frame = durations[0].0.frame;
        let frame_count = self.frames.len();
        let t = (first_frame as usize) % frame_count;
        let ghost s0 = frame_names(old(self).frames@[t as int]);
        let mut frame = self.frames.remove(t);
        frame.state = FrameState::Reported;
        let mut out: Vec<TimedScope> = Vec::new();
        let mut i: usize = 0;
        while i < durations.len()
            invariant
                old(self).wf(),
                i <= durations@.len(),
                0 < durations@.len(),
                first_frame == durations@[0].0.frame,
                t == Self::slot_of(first_frame),
                t < MAX_FRAMES_IN_FLIGHT,
                s0 == frame_names(old(self).frames@[t as int]),
                forall|j: int|
                    0 <= j < durations@.len() ==> (#[trigger] durations@[j]).0.scope < s0.len(),
                frame.state == FrameState::Reported,
                frame.scopes@.len() == s0.len(),
                frame_names(frame) == names_after(s0, durations@, i as int),
                timed_scopes_view(out@) == report_after(s0, durations@, i as int),
                self.frames@ == old(self).frames@.remove(t as int),
                self.frame_idx == old(self).frame_idx,
                self.last_report == old(self).last_report,
            decreases durations@.len() - i,
        {
            let pair = durations[i];
            let si = pair.0.scope as usize;
            let mut taken = String::new();
            let entry = &mut frame.scopes[si];
            core::mem::swap(&mut taken, &mut entry.name);
            proof {
                assert(frame_names(frame) =~= names_after(s0, durations@, i as int).update(
                    si as int,
                    final(entry).name@,
                ));
                assert(final(entry).name@ =~= Seq::<char>::empty());
            }
            out.push(TimedScope { name: taken, duration: pair.1 });
            proof {
                assert(timed_scopes_view(out@) =~= report_after(s0, durations@, i + 1));
            }
            i = i + 1;
        }
        self.frames.insert(t, frame);
        self.last_report = Some(TimedFrame { scopes: out });
        proof {
            assert(self.frames@ =~= old(self).frames@.update(t as int, frame));
            assert(timed_view(self.last_report.unwrap()) =~= report_after(
                s0,
                durations@,
                durations@.len() as int,
            ));
        }
    }

    /// Read-only peek at the retained last report.
    pub fn last_report(&self) -> (r: Option<&TimedFrame>)
        ensures
            match r {
                Some(tf) => self.last_report matches Some(k) && *tf == k,
                None => self.last_report is None,
            },
    {
        match &self.last_report {
            Some(tf) => Some(tf),
            None => None,
        }
    }

    /// Consuming read of the retained last report: hands it out and leaves
    /// none buffered.
    pub fn take_last_report(&mut self) -> (r: Option<TimedFrame>)
        ensures
            r == old(self).last_report,
            final(self).last_report is None,
            final(self).frames@ == old(self).frames@,
            final(self).frame_idx == old(self).frame_idx,
    {
        self.last_report.take()
    }
}

impl Default for GpuProfiler {
    fn default() -> (r: GpuProfiler)
        ensures
            r.wf(),
            r.frame_idx == 0,
            r.last_report is None,
            forall|k: int|
                0 <= k < MAX_FRAMES_IN_FLIGHT ==> (#[trigger] r.frames@[k]).state
                    == FrameState::Invalid && r.frames@[k].scopes@.len() == 0,
    {
        GpuProfiler::new()
    }
}

proof fn lemma_names_after_len(s0: Seq<Seq<char>>, pairs: Seq<(ScopeId, NanoSecond)>, n: int)
    requires
        forall|k: int| 0 <= k < n ==> (#[trigger] pairs[k]).0.scope < s0.len(),
    ensures
        names_after(s0, pairs, n).len() == s0.len(),
    decreases n,
{
    if n > 0 {
        lemma_names_after_len(s0, pairs, n - 1);
    }
}

/// A name slot that no pair among the first `n` refers to still holds its
/// original name, provided pair `k` refers to scope `k` for each `k < n`.
proof fn lemma_names_after_untouched(
    s0: Seq<Seq<char>>,
    pairs: Seq<(ScopeId, NanoSecond)>,
    n: int,
    j: int,
)
    requires
        0 <= n,
        n <= j < s0.len(),
        forall|k: int| 0 <= k < n ==> (#[trigger] pairs[k]).0.scope == k,
    ensures
        names_after(s0, pairs, n)[j] == s0[j],
    decreases n,
{
    if n > 0 {
        lemma_names_after_untouched(s0, pairs, n - 1, j);
        lemma_names_after_len(s0, pairs, n - 1);
    }
}

/// Law: when every created scope is reported exactly once, in creation order
/// (pair `k` names scope `k`, one pair per scope), the assembled report has
/// one entry per created scope, in creation order, each carrying the scope's
/// original name and the supplied duration.
pub proof fn lemma_full_report_in_order(s0: Seq<Seq<char>>, pairs: Seq<(ScopeId, NanoSecond)>)
    requires
        pairs.len() == s0.len(),
        forall|k: int| 0 <= k < pairs.len() ==> (#[trigger] pairs[k]).0.scope == k,
    ensures
        report_after(s0, pairs, pairs.len() as int).len() == s0.len(),
        forall|i: int|
            0 <= i < s0.len() ==> #[trigger] report_after(s0, pairs, pairs.len() as int)[i]
                == (s0[i], (pairs[i].1).0),
{
    lemma_report_prefix(s0, pairs, pairs.len() as int);
}

proof fn lemma_report_prefix(s0: Seq<Seq<char>>, pairs: Seq<(ScopeId, NanoSecond)>, n: int)
    requires
        0 <= n <= pairs.len(),
        pairs.len() == s0.len(),
        forall|k: int| 0 <= k < pairs.len() ==> (#[trigger] pairs[k]).0.scope == k,
    ensures
        report_after(s0, pairs, n).len() == n,
        forall|i: int|
            0 <= i < n ==> #[trigger] report_after(s0, pairs, n)[i] == (s0[i], (pairs[i].1).0),
    decreases n,
{
    if n > 0 {
        lemma_report_prefix(s0, pairs, n - 1);
        lemma_names_after_untouched(s0, pairs, n - 1, n - 1);
    }
}

} // verus!
