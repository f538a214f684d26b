//! A pooled per-frame resource holder: the monotonically assigned
//! scope-identity-to-query-index table that lets raw timer results, read back
//! later and possibly out of band, be resolved to the scopes that produced
//! them. Start and end timestamps of query `q` live at write indices `2*q`
//! and `2*q + 1`.

use vstd::prelude::*;

use crate::ids::NanoSecond;
use crate::ids::ScopeId;
use crate::ticks::ns_of_ticks;
use crate::ticks::ticks_to_nanoseconds;

verus! {

/// How many scope begin/end pairs one frame slot can bind.
pub const MAX_QUERY_COUNT: usize = 1024;

/// The order scope identities report in: frame-major, scope-minor, as
/// `ScopeId::as_u64` packs them.
pub open spec fn scope_key(id: ScopeId) -> int {
    id.frame as int * 0x1_0000_0000 + id.scope as int
}

/// Correlated pairs stand in identity order.
pub open spec fn sorted_by_scope(s: Seq<(ScopeId, NanoSecond)>) -> bool {
    forall|i: int, j: int|
        0 <= i < j < s.len() ==> scope_key(s[i].0) <= scope_key(s[j].0)
}

proof fn lemma_insert_to_multiset(s: Seq<(ScopeId, NanoSecond)>, pos: int, v: (ScopeId, NanoSecond))
    requires
        0 <= pos <= s.len(),
    ensures
        s.insert(pos, v).to_multiset() == s.to_multiset().insert(v),
{
    broadcast use vstd::seq_lib::group_to_multiset_ensures;

    let t = s.insert(pos, v);
    s.insert_ensures(pos, v);
    t.remove_ensures(pos);
    assert(t.remove(pos) =~= s);
    assert(t[pos] == v);
    assert(t.to_multiset().count(v) > 0);
    assert(t.to_multiset().remove(v) =~= s.to_multiset());
    assert(t.to_multiset() =~= t.to_multiset().remove(v).insert(v));
}

/// Orders correlated pairs by scope identity — frame-major, scope-minor —
/// the order readback results are reported in when the identities were
/// recorded out of band. The result holds exactly the given pairs.
pub fn sort_by_scope_id(pairs: &Vec<(ScopeId, NanoSecond)>) -> (r: Vec<(ScopeId, NanoSecond)>)
    ensures
        r@.len() == pairs@.len(),
        sorted_by_scope(r@),
        r@.to_multiset() == pairs@.to_multiset(),
{
    proof {
        broadcast use vstd::seq_lib::group_to_multiset_ensures;

        assert(pairs@.take(0) =~= Seq::<(ScopeId, NanoSecond)>::empty());
    }
    let mut out: Vec<(ScopeId, NanoSecond)> = Vec::new();
    let mut i: usize = 0;
    while i < pairs.len()
        invariant
            i <= pairs@.len(),
            out@.len() == i,
            sorted_by_scope(out@),
            out@.to_multiset() == pairs@.take(i as int).to_multiset(),
        decreases pairs@.len() - i,
    {
        let p = pairs[i];
        let mut j: usize = 0;
        while j < out.len() && out[j].0.as_u64() <= p.0.as_u64()
            invariant
                j <= out@.len(),
                forall|k: int| 0 <= k < j ==> scope_key((#[trigger] out@[k]).0) <= scope_key(p.0),
            decreases out@.len() - j,
        {
            j = j + 1;
        }
        let ghost prev = out@;
        out.insert(j, p);
        proof {
            broadcast use vstd::seq_lib::group_to_multiset_ensures;

            prev.insert_ensures(j as int, p);
            assert(out@ == prev.insert(j as int, p));
            assert forall|a: int, b: int|
                0 <= a < b < out@.len() implies scope_key(out@[a].0) <= scope_key(
                out@[b].0,
            ) by {
                if b < j {
                } else if a > j {
                } else if a == j {
                    assert(out@[a] == p);
                    assert(scope_key(prev[b - 1].0) > scope_key(p.0) || b - 1 >= prev.len());
                } else if b == j {
                    assert(out@[b] == p);
                } else {
                    // a < j < b: out[a] is prev[a] with key at most p's, and
                    // out[b] is prev[b - 1] with key above p's.
                    assert(out@[a] == prev[a]);
                    assert(out@[b] == prev[b - 1]);
                }
            }
            lemma_insert_to_multiset(prev, j as int, p);
            assert(pairs@.take(i + 1) =~= pairs@.take(i as int).push(pairs@[i as int]));
            assert(out@.to_multiset() =~= pairs@.take(i + 1).to_multiset());
        }
        i = i + 1;
    }
    proof {
        assert(pairs@.take(pairs@.len() as int) =~= pairs@);
    }
    out
}

/// Handle returned by `begin_scope`, carrying the claimed query index so the
/// matching end write lands on the paired timestamp.
#[derive(Clone, Copy, PartialEq, Eq, Structural, Debug)]
pub struct ActiveScope {
    pub query_id: usize,
}

impl ActiveScope {
    /// Write index of the start timestamp of this scope's query pair.
    pub fn start_write_index(&self) -> (r: usize)
        requires
            self.query_id < MAX_QUERY_COUNT,
        ensures
            r == 2 * self.query_id,
    {
        2 * self.query_id
    }

    /// Write index of the end timestamp of this scope's query pair.
    pub fn end_write_index(&self) -> (r: usize)
        requires
            self.query_id < MAX_QUERY_COUNT,
        ensures
            r == 2 * self.query_id + 1,
    {
        2 * self.query_id + 1
    }
}

/// Per-frame correlation state: the next free query index and the table
/// recording which scope identity owns each claimed index.
///
/// Access contract: one recording thread claims indices and writes entries,
/// in program order; a readback may run elsewhere only after the recording
/// period ends, and reads each entry at most once per period. No other state
/// is published through the table, so per-entry access needs no ordering
/// beyond that — the relaxed equivalent of the plain accesses used here.
#[derive(Debug)]
pub struct FrameSlot {
    pub next_query_idx: usize,
    pub query_scope_ids: Vec<ScopeId>,
}

impl FrameSlot {
    pub open spec fn wf(self) -> bool {
        &&& self.query_scope_ids@.len() == MAX_QUERY_COUNT
        &&& self.next_query_idx <= MAX_QUERY_COUNT
    }

    /// A fresh slot: no query claimed, every table entry the invalid
    /// sentinel.
    pub fn new() -> (r: FrameSlot)
        ensures
            r.wf(),
            r.next_query_idx == 0,
            forall|i: int|
                0 <= i < MAX_QUERY_COUNT ==> #[trigger] r.query_scope_ids@[i] == (ScopeId {
                    frame: u32::MAX,
                    scope: u32::MAX,
                }),
    {
        let mut table: Vec<ScopeId> = Vec::new();
        let mut i: usize = 0;
        while i < MAX_QUERY_COUNT
            invariant
                i <= MAX_QUERY_COUNT,
                table@.len() == i,
                forall|j: int|
                    0 <= j < i ==> #[trigger] table@[j] == (ScopeId {
                        frame: u32::MAX,
                        scope: u32::MAX,
                    }),
            decreases MAX_QUERY_COUNT - i,
        {
            table.push(ScopeId::invalid());
            i = i + 1;
        }
        FrameSlot { next_query_idx: 0, query_scope_ids: table }
    }

    /// Claims the next query index for `scope_id`, records the identity at
    /// that index, and hands back the handle whose write indices the caller
    /// issues the start-timestamp write against. Exceeding the slot's
    /// capacity is a caller error, excluded by precondition.
    pub fn begin_scope(&mut self, scope_id: ScopeId) -> (r: ActiveScope)
        requires
            old(self).wf(),
            old(self).next_query_idx < MAX_QUERY_COUNT,
        ensures
            final(self).wf(),
            r.query_id == old(self).next_query_idx,
            final(self).next_query_idx == old(self).next_query_idx + 1,
            final(self).query_scope_ids@ == old(self).query_scope_ids@.update(
                old(self).next_query_idx as int,
                scope_id,
            ),
    {
        let query_id = self.next_query_idx;
        self.next_query_idx = self.next_query_idx + 1;
        let entry = &mut self.query_scope_ids[query_id];
        *entry = scope_id;
        ActiveScope { query_id }
    }

    /// Closes the given active scope and returns the write index for its end
    /// timestamp. Scopes close in strict last-opened-first-closed order;
    /// closing any other scope is a caller error, excluded by precondition.
    pub fn end_scope(&self, active_scope: ActiveScope) -> (r: usize)
        requires
            self.wf(),
            self.next_query_idx > 0,
            active_scope.query_id + 1 == self.next_query_idx,
        ensures
            r == 2 * active_scope.query_id + 1,
    {
        2 * active_scope.query_id + 1
    }

    /// Number of queries actually used this recording period: results are
    /// retrieved for exactly the write range `[0, 2 * used)`, never beyond.
    pub fn used_queries(&self) -> (r: usize)
        ensures
            r == self.next_query_idx,
    {
        self.next_query_idx
    }

    /// Starts a new recording period for this slot: the query counter rewinds
    /// to zero and every table entry becomes reclaimable. Must not run while
    /// a readback of the slot's previous results is still in progress.
    pub fn begin_recording(&mut self)
        ensures
            final(self).next_query_idx == 0,
            final(self).query_scope_ids@ == old(self).query_scope_ids@,
    {
        self.next_query_idx = 0;
    }

    /// Resolves per-query elapsed-nanosecond results (one value per used
    /// query, in query order) to the identities that claimed those queries.
    pub fn correlate_elapsed(&self, elapsed_ns: &Vec<u64>) -> (r: Vec<(ScopeId, NanoSecond)>)
        requires
            self.wf(),
            elapsed_ns@.len() == self.next_query_idx,
        ensures
            r@.len() == self.next_query_idx,
            forall|i: int|
                0 <= i < self.next_query_idx ==> #[trigger] r@[i] == (
                self.query_scope_ids@[i],
                NanoSecond(elapsed_ns@[i]),
                ),
    {
        let mut out: Vec<(ScopeId, NanoSecond)> = Vec::new();
        let mut i: usize = 0;
        let n = self.next_query_idx;
        while i < n
            invariant
                self.wf(),
                n == self.next_query_idx,
                elapsed_ns@.len() == n,
                i <= n,
                out@.len() == i,
                forall|j: int|
                    0 <= j < i ==> #[trigger] out@[j] == (
                    self.query_scope_ids@[j],
                    NanoSecond(elapsed_ns@[j]),
                    ),
            decreases n - i,
        {
            out.push((self.query_scope_ids[i], NanoSecond::from_raw_ns(elapsed_ns[i])));
            i = i + 1;
        }
        out
    }

    /// Resolves raw (start, end) tick pairs (one per used query, in query
    /// order) to the identities that claimed those queries, converting each
    /// pair to nanoseconds under the tick period `period_num / period_den`.
    pub fn correlate_tick_pairs(
        &self,
        tick_pairs: &Vec<(u64, u64)>,
        period_num: u64,
        period_den: u64,
    ) -> (r: Vec<(ScopeId, NanoSecond)>)
        requires
            self.wf(),
            tick_pairs@.len() == self.next_query_idx,
            period_den > 0,
        ensures
            r@.len() == self.next_query_idx,
            forall|i: int|
                0 <= i < self.next_query_idx ==> (#[trigger] r@[i]).0 == self.query_scope_ids@[i]
                    && r@[i].1.0 == ns_of_ticks(
                    tick_pairs@[i].0,
                    tick_pairs@[i].1,
                    period_num,
                    period_den,
                ),
    {
        let mut out: Vec<(ScopeId, NanoSecond)> = Vec::new();
        let mut i: usize = 0;
        let n = self.next_query_idx;
        while i < n
            invariant
                self.wf(),
                n == self.next_query_idx,
                tick_pairs@.len() == n,
                period_den > 0,
                i <= n,
                out@.len() == i,
                forall|j: int|
                    0 <= j < i ==> (#[trigger] out@[j]).0 == self.query_scope_ids@[j]
                        && out@[j].1.0 == ns_of_ticks(
                        tick_pairs@[j].0,
                        tick_pairs@[j].1,
                        period_num,
                        period_den,
                    ),
            decreases n - i,
        {
            let pair = tick_pairs[i];
            let duration = ticks_to_nanoseconds(pair.0, pair.1, period_num, period_den);
            out.push((self.query_scope_ids[i], duration));
            i = i + 1;
        }
        out
    }
}

} // verus!
