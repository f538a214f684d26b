use gpu_profiler::FrameState;
use gpu_profiler::GpuProfiler;
use gpu_profiler::NanoSecond;
use gpu_profiler::ScopeId;

#[test]
fn single_scope_end_to_end() {
    let mut p = GpuProfiler::new();
    p.begin_frame();
    let id = p.create_scope(String::from("draw"));
    assert_eq!(id, ScopeId { frame: 0, scope: 0 });
    p.end_frame();
    p.report_durations(vec![(id, NanoSecond::from_raw_ns(250))]);
    let report = p.last_report().expect("a report was just published");
    assert_eq!(report.scopes.len(), 1);
    assert_eq!(report.scopes[0].name, "draw");
    assert_eq!(report.scopes[0].duration.raw_ns(), 250);
}

#[test]
fn empty_report_is_a_no_op_that_clears() {
    let mut p = GpuProfiler::new();
    p.begin_frame();
    let id = p.create_scope(String::from("draw"));
    p.end_frame();
    p.report_durations(vec![(id, NanoSecond::from_raw_ns(7))]);
    assert!(p.last_report().is_some());
    assert!(matches!(p.frames[0].state, FrameState::Reported));
    p.report_durations(vec![]);
    assert!(p.last_report().is_none());
    // No frame changed state: the reported frame is still reported.
    assert!(matches!(p.frames[0].state, FrameState::Reported));
}

#[test]
fn scopes_report_in_creation_order() {
    let mut p = GpuProfiler::new();
    p.begin_frame();
    let a = p.create_scope(String::from("shadow"));
    let b = p.create_scope(String::from("light"));
    let c = p.create_scope(String::from("post"));
    assert_eq!(a, ScopeId { frame: 0, scope: 0 });
    assert_eq!(b, ScopeId { frame: 0, scope: 1 });
    assert_eq!(c, ScopeId { frame: 0, scope: 2 });
    p.end_frame();
    p.report_durations(vec![
        (a, NanoSecond::from_raw_ns(10)),
        (b, NanoSecond::from_raw_ns(20)),
        (c, NanoSecond::from_raw_ns(30)),
    ]);
    let report = p.last_report().expect("a report was just published");
    assert_eq!(report.scopes.len(), 3);
    assert_eq!(report.scopes[0].name, "shadow");
    assert_eq!(report.scopes[1].name, "light");
    assert_eq!(report.scopes[2].name, "post");
    assert_eq!(report.scopes[0].duration.raw_ns(), 10);
    assert_eq!(report.scopes[1].duration.raw_ns(), 20);
    assert_eq!(report.scopes[2].duration.raw_ns(), 30);
}

#[test]
fn take_last_report_consumes() {
    let mut p = GpuProfiler::new();
    p.begin_frame();
    let id = p.create_scope(String::from("draw"));
    p.end_frame();
    p.report_durations(vec![(id, NanoSecond::from_raw_ns(1))]);
    let taken = p.take_last_report();
    assert!(taken.is_some());
    assert_eq!(taken.unwrap().scopes[0].name, "draw");
    assert!(p.last_report().is_none());
    assert!(p.take_last_report().is_none());
}

#[test]
fn second_frame_uses_next_ring_slot() {
    let mut p = GpuProfiler::new();
    p.begin_frame();
    let a = p.create_scope(String::from("a"));
    p.end_frame();
    p.begin_frame();
    let b = p.create_scope(String::from("b"));
    p.end_frame();
    assert_eq!(a, ScopeId { frame: 0, scope: 0 });
    assert_eq!(b, ScopeId { frame: 1, scope: 0 });
    // Reporting the older frame first keeps submission order.
    p.report_durations(vec![(a, NanoSecond::from_raw_ns(5))]);
    assert_eq!(p.last_report().unwrap().scopes[0].name, "a");
    p.report_durations(vec![(b, NanoSecond::from_raw_ns(6))]);
    assert_eq!(p.last_report().unwrap().scopes[0].name, "b");
}

#[test]
fn moved_out_name_leaves_empty_placeholder() {
    let mut p = GpuProfiler::new();
    p.begin_frame();
    let id = p.create_scope(String::from("draw"));
    p.end_frame();
    p.report_durations(vec![(id, NanoSecond::from_raw_ns(1))]);
    assert_eq!(p.frames[0].scopes[0].name, "");
}
