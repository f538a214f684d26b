use gpu_profiler::sort_by_scope_id;
use gpu_profiler::FramePool;
use gpu_profiler::FrameSlot;
use gpu_profiler::GpuProfiler;
use gpu_profiler::ScopeId;

#[test]
fn results_drain_in_submission_order() {
    let mut profiler = GpuProfiler::new();
    let mut pool = FramePool::new();

    // Frame A records one scope, then frame B records one scope; both await
    // readback.
    pool.begin_frame(&mut profiler);
    let a = profiler.create_scope(String::from("older"));
    let active = pool.begin_scope(a);
    pool.end_scope(active);
    pool.end_frame(&mut profiler);

    pool.begin_frame(&mut profiler);
    let b = profiler.create_scope(String::from("newer"));
    let active = pool.begin_scope(b);
    pool.end_scope(active);
    pool.end_frame(&mut profiler);

    // Even if B's hardware results are ready first, only the front of the
    // queue — A — can complete.
    assert_eq!(pool.front_used_queries(), Some(1));
    pool.complete_front(&mut profiler, &vec![111]);
    let report = profiler.last_report().expect("frame A was reported");
    assert_eq!(report.scopes[0].name, "older");
    assert_eq!(report.scopes[0].duration.raw_ns(), 111);

    pool.complete_front(&mut profiler, &vec![222]);
    let report = profiler.last_report().expect("frame B was reported");
    assert_eq!(report.scopes[0].name, "newer");
    assert_eq!(report.scopes[0].duration.raw_ns(), 222);

    assert_eq!(pool.front_used_queries(), None);
}

#[test]
fn completed_slots_return_to_the_free_list() {
    let mut profiler = GpuProfiler::new();
    let mut pool = FramePool::new();

    pool.begin_frame(&mut profiler);
    pool.end_frame(&mut profiler);
    assert_eq!(pool.free.len(), 0);
    pool.complete_front(&mut profiler, &vec![]);
    assert_eq!(pool.free.len(), 1);

    // The next frame reuses the recycled slot instead of building a new one.
    pool.begin_frame(&mut profiler);
    assert_eq!(pool.free.len(), 0);
    pool.end_frame(&mut profiler);
}

#[test]
fn query_indices_pair_start_and_end_writes() {
    let mut slot = FrameSlot::new();
    let first = slot.begin_scope(ScopeId { frame: 0, scope: 0 });
    let second = slot.begin_scope(ScopeId { frame: 0, scope: 1 });
    assert_eq!(first.query_id, 0);
    assert_eq!(second.query_id, 1);
    assert_eq!(first.start_write_index(), 0);
    assert_eq!(first.end_write_index(), 1);
    assert_eq!(second.start_write_index(), 2);
    assert_eq!(second.end_write_index(), 3);
    assert_eq!(slot.end_scope(second), 3);
    assert_eq!(slot.used_queries(), 2);
}

#[test]
fn correlation_table_resolves_results_to_identities() {
    let mut slot = FrameSlot::new();
    let x = ScopeId { frame: 2, scope: 0 };
    let y = ScopeId { frame: 2, scope: 1 };
    slot.begin_scope(x);
    slot.begin_scope(y);

    let pairs = slot.correlate_elapsed(&vec![40, 50]);
    assert_eq!(pairs.len(), 2);
    assert_eq!(pairs[0].0, x);
    assert_eq!(pairs[0].1.raw_ns(), 40);
    assert_eq!(pairs[1].0, y);
    assert_eq!(pairs[1].1.raw_ns(), 50);

    // Tick-pair results go through the saturating period conversion.
    let pairs = slot.correlate_tick_pairs(&vec![(1000, 1500), (1500, 1000)], 2, 1);
    assert_eq!(pairs[0].0, x);
    assert_eq!(pairs[0].1.raw_ns(), 1000);
    assert_eq!(pairs[1].1.raw_ns(), 0);
}

#[test]
fn recording_reset_rewinds_the_query_counter() {
    let mut slot = FrameSlot::new();
    slot.begin_scope(ScopeId { frame: 0, scope: 0 });
    assert_eq!(slot.used_queries(), 1);
    slot.begin_recording();
    assert_eq!(slot.used_queries(), 0);
}

#[test]
fn results_sort_by_frame_then_scope() {
    let ns = gpu_profiler::NanoSecond::from_raw_ns;
    let id = |frame: u32, scope: u32| ScopeId { frame, scope };
    let pairs = vec![
        (id(1, 1), ns(40)),
        (id(0, 2), ns(30)),
        (id(1, 0), ns(20)),
        (id(0, 0), ns(10)),
    ];
    let sorted = sort_by_scope_id(&pairs);
    let order: Vec<ScopeId> = sorted.iter().map(|p| p.0).collect();
    assert_eq!(order, vec![id(0, 0), id(0, 2), id(1, 0), id(1, 1)]);
    assert_eq!(sorted[0].1.raw_ns(), 10);
    assert_eq!(sorted[1].1.raw_ns(), 30);
    assert_eq!(sorted[2].1.raw_ns(), 20);
    assert_eq!(sorted[3].1.raw_ns(), 40);
}

#[test]
fn fresh_slot_table_holds_the_invalid_sentinel() {
    let slot = FrameSlot::new();
    assert_eq!(slot.used_queries(), 0);
    assert_eq!(slot.query_scope_ids[0], ScopeId::invalid());
    assert_eq!(slot.query_scope_ids[1023], ScopeId::invalid());
}
