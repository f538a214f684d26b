//! GPU-side timing telemetry: a frame lifecycle state machine, a pooled ring
//! of hardware frame slots, scope-identity correlation for out-of-order
//! readback, and a duration-reporting reducer that turns raw timer ticks into
//! a named timing tree.

pub mod ids;
pub mod pool;
pub mod profiler;
pub mod slot;
pub mod ticks;
pub mod trace;

pub use ids::NanoSecond;
pub use ids::ScopeId;
pub use pool::correlated;
pub use pool::FramePool;
pub use pool::MAX_PENDING_FRAMES;
pub use profiler::frame_names;
pub use profiler::lemma_full_report_in_order;
pub use profiler::names_after;
pub use profiler::report_after;
pub use profiler::timed_view;
pub use profiler::Frame;
pub use profiler::FrameState;
pub use profiler::GpuProfiler;
pub use profiler::Scope;
pub use profiler::TimedFrame;
pub use profiler::TimedScope;
pub use profiler::MAX_FRAMES_IN_FLIGHT;
pub use slot::ActiveScope;
pub use slot::scope_key;
pub use slot::sort_by_scope_id;
pub use slot::sorted_by_scope;
pub use slot::FrameSlot;
pub use slot::MAX_QUERY_COUNT;
pub use ticks::decode_tick_pairs;
pub use ticks::le64_at;
pub use ticks::ns_of_ticks;
pub use ticks::tick_delta;
pub use ticks::ticks_to_nanoseconds;
pub use ticks::TickDecodeError;
pub use ticks::TICK_RECORD_BYTES;
pub use trace::build_trace_stream;
pub use trace::total_ns;
