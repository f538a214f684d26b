//! Export of a completed report as a flame-graph event stream: every scope
//! becomes a span whose start offset is the accumulated duration of the
//! scopes before it, all nested in one enclosing span anchored at an
//! externally supplied frame start timestamp. Handing the finished stream to
//! a trace sink is the caller's concern.

use vstd::prelude::*;

use crate::profiler::TimedFrame;
use crate::profiler::TimedScope;

verus! {

#[verifier::external_type_specification]
#[verifier::external_body]
pub struct ExStream(puffin::Stream);

/// The bytes a trace stream holds so far.
pub uninterp spec fn stream_bytes(s: puffin::Stream) -> Seq<u8>;

/// Relies on puffin::Stream's derived Default: a fresh stream holds no bytes.
#[verifier::external_body]
fn new_stream() -> (r: puffin::Stream)
    ensures
        stream_bytes(r) == Seq::<u8>::empty(),
{
    puffin::Stream::default()
}

/// Relies on puffin::Stream::begin_scope: it only appends, returns the
/// offset where the scope-size placeholder starts, and writes exactly eight
/// placeholder bytes after that offset. An id over 127 bytes would be
/// sliced, panicking off a character boundary, so such ids are excluded.
#[verifier::external_body]
fn stream_begin_scope(s: &mut puffin::Stream, start_ns: i64, id: &str) -> (r: usize)
    requires
        vstd::utf8::is_ascii_chars(id@),
        id@.len() <= 127,
    ensures
        r >= stream_bytes(*old(s)).len(),
        stream_bytes(*final(s)).len() == r + 8,
{
    s.begin_scope(start_ns, id, "", "")
}

/// Relies on puffin::Stream::end_scope: it overwrites the eight bytes at
/// `start_offset` with the scope size and appends a nine-byte scope-end
/// record. An offset whose eight bytes are not inside the stream would make
/// its size arithmetic underflow, so it is excluded.
#[verifier::external_body]
fn stream_end_scope(s: &mut puffin::Stream, start_offset: usize, stop_ns: i64)
    requires
        start_offset + 8 <= stream_bytes(*old(s)).len(),
    ensures
        stream_bytes(*final(s)).len() == stream_bytes(*old(s)).len() + 9,
{
    s.end_scope(start_offset, stop_ns)
}

/// The nanoseconds the first `n` scopes of a report cover together.
pub open spec fn total_ns(scopes: Seq<TimedScope>, n: int) -> int
    decreases n,
{
    if n <= 0 {
        0
    } else {
        total_ns(scopes, n - 1) + scopes[n - 1].duration.0
    }
}

proof fn lemma_total_ns_mono(scopes: Seq<TimedScope>, i: int, n: int)
    requires
        0 <= i <= n,
    ensures
        total_ns(scopes, i) <= total_ns(scopes, n),
        0 <= total_ns(scopes, i),
    decreases n,
{
    if i < n {
        lemma_total_ns_mono(scopes, i, n - 1);
    } else if 0 < n {
        lemma_total_ns_mono(scopes, 0, n - 1);
    }
}

/// Builds the trace stream for one completed report: an enclosing span plus
/// one span per scope, each scope starting where the durations of the scopes
/// before it end, anchored at `frame_start_ns`. Returns the stream, the
/// total span count, and the end of the covered time range. Names must be
/// ASCII of at most 127 bytes, and the covered range must stay representable.
pub fn build_trace_stream(frame: &TimedFrame, frame_start_ns: i64) -> (r: (
    puffin::Stream,
    usize,
    i64,
))
    requires
        frame.scopes@.len() < usize::MAX,
        total_ns(frame.scopes@, frame.scopes@.len() as int) <= i64::MAX,
        frame_start_ns + total_ns(frame.scopes@, frame.scopes@.len() as int) <= i64::MAX,
        forall|i: int|
            0 <= i < frame.scopes@.len() ==> vstd::utf8::is_ascii_chars(
                (#[trigger] frame.scopes@[i]).name@,
            ) && frame.scopes@[i].name@.len() <= 127,
    ensures
        r.1 == frame.scopes@.len() + 1,
        r.2 == frame_start_ns + total_ns(frame.scopes@, frame.scopes@.len() as int),
{
    let mut stream = new_stream();
    proof {
        reveal_strlit("frame");
    }
    let outer_offset = stream_begin_scope(&mut stream, frame_start_ns, "frame");
    let mut accum: i64 = 0;
    let mut i: usize = 0;
    let n = frame.scopes.len();
    while i < n
        invariant
            n == frame.scopes@.len(),
            n < usize::MAX,
            i <= n,
            total_ns(frame.scopes@, n as int) <= i64::MAX,
            frame_start_ns + total_ns(frame.scopes@, n as int) <= i64::MAX,
            forall|j: int|
                0 <= j < n ==> vstd::utf8::is_ascii_chars((#[trigger] frame.scopes@[j]).name@)
                    && frame.scopes@[j].name@.len() <= 127,
            accum == total_ns(frame.scopes@, i as int),
            0 <= accum,
            outer_offset + 8 <= stream_bytes(stream).len(),
        decreases n - i,
    {
        proof {
            lemma_total_ns_mono(frame.scopes@, i as int, n as int);
            lemma_total_ns_mono(frame.scopes@, i + 1, n as int);
        }
        let scope = &frame.scopes[i];
        let span_offset = stream_begin_scope(&mut stream, frame_start_ns + accum, scope.name.as_str());
        let duration = scope.duration.raw_ns();
        proof {
            assert(total_ns(frame.scopes@, i + 1) == total_ns(frame.scopes@, i as int)
                + frame.scopes@[i as int].duration.0);
        }
        accum = accum + (duration as i64);
        stream_end_scope(&mut stream, span_offset, frame_start_ns + accum);
        i = i + 1;
    }
    stream_end_scope(&mut stream, outer_offset, frame_start_ns + accum);
    (stream, n + 1, frame_start_ns + accum)
}

} // verus!
