//! The frame-slot pool and scheduler: one slot currently recording, a FIFO
//! queue of slots awaiting GPU readback, and a free list for reuse. Results
//! are drained strictly in submission order — a newer frame's results are
//! never consumed before an older frame's — and a bound on the awaiting
//! queue turns a backend that silently stops producing results into a fast
//! failure instead of unbounded growth.

use vstd::prelude::*;

use crate::ids::NanoSecond;
use crate::ids::ScopeId;
use crate::profiler::frame_names;
use crate::profiler::names_after;
use crate::profiler::report_after;
use crate::profiler::timed_view;
use crate::profiler::FrameState;
use crate::profiler::GpuProfiler;
use crate::profiler::MAX_FRAMES_IN_FLIGHT;
use crate::slot::ActiveScope;
use crate::slot::FrameSlot;
use crate::slot::MAX_QUERY_COUNT;

verus! {

/// Bound on how deep the awaiting-readback queue may grow before the pool
/// treats the backend as stuck.
pub const MAX_PENDING_FRAMES: usize = 10;

/// The correlated (identity, duration) pairs a slot's table yields for
/// per-query elapsed-nanosecond results.
pub open spec fn correlated(table: Seq<ScopeId>, elapsed_ns: Seq<u64>, n: int) -> Seq<
    (ScopeId, NanoSecond),
> {
    Seq::new(n as nat, |i: int| (table[i], NanoSecond(elapsed_ns[i])))
}

/// Manages the ring of frame slots: at most one recording, a FIFO of slots
/// awaiting readback (front is oldest), and a free list.
#[derive(Debug)]
pub struct FramePool {
    pub current: Option<FrameSlot>,
    pub waiting: Vec<FrameSlot>,
    pub free: Vec<FrameSlot>,
}

impl FramePool {
    pub open spec fn wf(self) -> bool {
        &&& (self.current matches Some(s) ==> s.wf())
        &&& (forall|i: int| 0 <= i < self.waiting@.len() ==> (#[trigger] self.waiting@[i]).wf())
        &&& (forall|i: int|
            0 <= i < self.free@.len() ==> (#[trigger] self.free@[i]).wf()
                && self.free@[i].next_query_idx == 0)
    }

    pub fn new() -> (r: FramePool)
        ensures
            r.wf(),
            r.current is None,
            r.waiting@.len() == 0,
            r.free@.len() == 0,
    {
        FramePool { current: None, waiting: Vec::new(), free: Vec::new() }
    }

    /// Opens a new logical frame on `profiler` and claims a recording slot,
    /// reusing a free one when available. The caller drains every slot whose
    /// results are already available first; a double begin, or an awaiting
    /// queue that would outgrow its bound once this frame completes, is a
    /// violation excluded by precondition.
    pub fn begin_frame(&mut self, profiler: &mut GpuProfiler)
        requires
            old(self).wf(),
            old(self).current is None,
            old(self).waiting@.len() + 1 < MAX_PENDING_FRAMES,
            old(profiler).wf(),
            !(old(profiler).cur().state is Begin),
        ensures
            final(self).wf(),
            final(self).current matches Some(s) && s.wf() && s.next_query_idx == 0,
            final(self).waiting@ == old(self).waiting@,
            final(self).free@.len() > 0 ==> final(self).free@ == old(self).free@.drop_last(),
            final(profiler).wf(),
            final(profiler).frame_idx == old(profiler).frame_idx,
            final(profiler).last_report == old(profiler).last_report,
            final(profiler).cur().state == (FrameState::Begin { index: old(profiler).frame_idx }),
            final(profiler).cur().scopes@.len() == 0,
            forall|k: int|
                0 <= k < MAX_FRAMES_IN_FLIGHT && k != GpuProfiler::slot_of(old(profiler).frame_idx)
                    ==> final(profiler).frames@[k] == old(profiler).frames@[k],
    {
        profiler.begin_frame();
        let slot = match self.free.pop() {
            Some(slot) => slot,
            None => FrameSlot::new(),
        };
        self.current = Some(slot);
    }

    /// Closes the current recording period: the slot joins the back of the
    /// awaiting queue and the logical frame counter advances. Calling this
    /// with no frame being recorded is a violation excluded by precondition.
    pub fn end_frame(&mut self, profiler: &mut GpuProfiler)
        requires
            old(self).wf(),
            old(self).current is Some,
            old(profiler).wf(),
            old(profiler).cur().state is Begin,
            old(profiler).frame_idx < u32::MAX,
        ensures
            final(self).wf(),
            final(self).current is None,
            old(self).current matches Some(s) && final(self).waiting@ == old(
                self,
            ).waiting@.push(s),
            final(self).free@ == old(self).free@,
            final(profiler).wf(),
            final(profiler).frame_idx == old(profiler).frame_idx + 1,
            final(profiler).last_report == old(profiler).last_report,
            final(profiler).frames@ == old(profiler).frames@.update(
                GpuProfiler::slot_of(old(profiler).frame_idx),
                (crate::profiler::Frame {
                    state: FrameState::End {
                        index: crate::profiler::frame_state_index(old(profiler).cur().state),
                    },
                    scopes: old(profiler).cur().scopes,
                }),
            ),
    {
        let slot = self.current.take().unwrap();
        self.waiting.push(slot);
        profiler.end_frame();
    }

    /// Binds a scope identity to the next query index of the recording slot.
    pub fn begin_scope(&mut self, scope_id: ScopeId) -> (r: ActiveScope)
        requires
            old(self).wf(),
            old(self).current matches Some(s) && s.next_query_idx < MAX_QUERY_COUNT,
        ensures
            final(self).wf(),
            final(self).waiting@ == old(self).waiting@,
            final(self).free@ == old(self).free@,
            old(self).current matches Some(s) && {
                &&& r.query_id == s.next_query_idx
                &&& final(self).current matches Some(t)
                &&& t.next_query_idx == s.next_query_idx + 1
                &&& t.query_scope_ids@ == s.query_scope_ids@.update(
                    s.next_query_idx as int,
                    scope_id,
                )
            },
    {
        match &mut self.current {
            Some(slot) => slot.begin_scope(scope_id),
            None => ActiveScope { query_id: 0 },
        }
    }

    /// Closes the most recently opened scope of the recording slot and
    /// returns the write index of its end timestamp.
    pub fn end_scope(&self, active_scope: ActiveScope) -> (r: usize)
        requires
            self.wf(),
            self.current matches Some(s) && s.next_query_idx > 0 && active_scope.query_id + 1
                == s.next_query_idx,
        ensures
            r == 2 * active_scope.query_id + 1,
    {
        match &self.current {
            Some(slot) => slot.end_scope(active_scope),
            None => 0,
        }
    }

    /// How many queries the slot at the front of the awaiting queue used, or
    /// nothing when no slot awaits readback. The front slot — the oldest —
    /// is the only one whose results may be consumed next.
    pub fn front_used_queries(&self) -> (r: Option<usize>)
        ensures
            match r {
                Some(n) => self.waiting@.len() > 0 && n == self.waiting@[0].next_query_idx,
                None => self.waiting@.len() == 0,
            },
    {
        if self.waiting.len() == 0 {
            None
        } else {
            Some(self.waiting[0].used_queries())
        }
    }

    /// Consumes the available results of the oldest awaiting slot: resolves
    /// the per-query elapsed nanoseconds against the slot's identity table,
    /// reports them to `profiler`, and recycles the slot onto the free list.
    /// Only the front of the queue can complete, so results are reported in
    /// submission order whatever order the hardware finished them in.
    pub fn complete_front(&mut self, profiler: &mut GpuProfiler, elapsed_ns: &Vec<u64>)
        requires
            old(self).wf(),
            old(self).waiting@.len() > 0,
            elapsed_ns@.len() == old(self).waiting@[0].next_query_idx,
            old(profiler).wf(),
            old(self).waiting@[0].next_query_idx > 0 ==> ({
                let table = old(self).waiting@[0].query_scope_ids@;
                let n = old(self).waiting@[0].next_query_idx as int;
                let f = table[0].frame;
                let t = GpuProfiler::slot_of(f);
                &&& old(profiler).frames@[t].state == (FrameState::End { index: f })
                &&& forall|i: int| 0 <= i < n ==> (#[trigger] table[i]).frame == f
                &&& forall|i: int|
                    0 <= i < n ==> (#[trigger] table[i]).scope < old(
                        profiler,
                    ).frames@[t].scopes@.len()
            }),
        ensures
            final(self).wf(),
            final(self).current == old(self).current,
            final(self).waiting@ == old(self).waiting@.drop_first(),
            final(self).free@.len() == old(self).free@.len() + 1,
            final(profiler).wf(),
            final(profiler).frame_idx == old(profiler).frame_idx,
            old(self).waiting@[0].next_query_idx == 0 ==> final(profiler).last_report is None
                && final(profiler).frames@ == old(profiler).frames@,
            old(self).waiting@[0].next_query_idx > 0 ==> ({
                let table = old(self).waiting@[0].query_scope_ids@;
                let n = old(self).waiting@[0].next_query_idx as int;
                let pairs = correlated(table, elapsed_ns@, n);
                let t = GpuProfiler::slot_of(table[0].frame);
                let s0 = frame_names(old(profiler).frames@[t]);
                &&& final(profiler).frames@[t].state == FrameState::Reported
                &&& frame_names(final(profiler).frames@[t]) == names_after(s0, pairs, n)
                &&& forall|k: int|
                    0 <= k < MAX_FRAMES_IN_FLIGHT && k != t ==> final(profiler).frames@[k] == old(
                        profiler,
                    ).frames@[k]
                &&& (final(profiler).last_report matches Some(tf) && timed_view(tf)
                    == report_after(s0, pairs, n))
            }),
    {
        let mut front = self.waiting.remove(0);
        let pairs = front.correlate_elapsed(elapsed_ns);
        proof {
            assert(pairs@ =~= correlated(
                front.query_scope_ids@,
                elapsed_ns@,
                front.next_query_idx as int,
            ));
        }
        profiler.report_durations(pairs);
        front.begin_recording();
        self.free.push(front);
    }
}

} // verus!
