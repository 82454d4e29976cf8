use jcode_desktop_core::profiling::{
    DesktopFrameProfile, DesktopFrameProfiler, DesktopInteractionLatencyProfiler, DesktopNoPaintWatchdog,
    NoPaintWatchdogContext, BACKEND_REDRAW_FRAME_INTERVAL_MS,
};

const BUDGET_MS: u64 = 250;
const REPORT_INTERVAL_MS: u64 = 1_000;

fn context(active: bool, pending: Option<&'static str>) -> NoPaintWatchdogContext {
    NoPaintWatchdogContext {
        active,
        mode: "single_session",
        has_background_work: true,
        frame_animation_active: false,
        pending_backend_redraw: false,
        pending_interaction_kind: pending,
    }
}

#[test]
fn no_paint_watchdog_requests_redraw_after_active_gap_budget() {
    let start = 10_000;
    let mut watchdog = DesktopNoPaintWatchdog::new_with_start_and_mode(
        start,
        true,
        false,
        BUDGET_MS,
        REPORT_INTERVAL_MS,
    );
    let context = context(true, Some("backend_events"));

    assert!(!watchdog.observe_active_tick(start + watchdog.budget_ms / 2, context).redraw);
    assert!(watchdog.observe_active_tick(start + watchdog.budget_ms, context).redraw);
    assert!(
        !watchdog
            .observe_active_tick(
                start + watchdog.budget_ms + BACKEND_REDRAW_FRAME_INTERVAL_MS / 2,
                context
            )
            .redraw
    );
    assert!(
        watchdog
            .observe_active_tick(
                start + watchdog.budget_ms + BACKEND_REDRAW_FRAME_INTERVAL_MS,
                context
            )
            .redraw
    );
}

#[test]
fn no_paint_watchdog_resets_when_idle_or_presented() {
    let start = 10_000;
    let mut watchdog = DesktopNoPaintWatchdog::new_with_start_and_mode(
        start,
        true,
        false,
        BUDGET_MS,
        REPORT_INTERVAL_MS,
    );
    let active_context = context(true, None);
    let idle_context = NoPaintWatchdogContext {
        active: false,
        ..active_context
    };

    assert!(watchdog.observe_active_tick(start + watchdog.budget_ms, active_context).redraw);
    assert!(
        !watchdog
            .observe_active_tick(start + watchdog.budget_ms + watchdog.budget_ms, idle_context)
            .redraw
    );
    assert!(watchdog.last_redraw_request_at_ms.is_none());
}

#[test]
fn no_paint_watchdog_is_off_without_explicit_frame_profile_mode() {
    let start = 10_000;
    let mut watchdog = DesktopNoPaintWatchdog::new_with_start_and_mode(
        start,
        false,
        false,
        BUDGET_MS,
        REPORT_INTERVAL_MS,
    );
    let context = context(true, Some("backend_events"));

    assert!(!watchdog.enabled);
    assert!(!watchdog.observe_active_tick(start + BUDGET_MS * 4, context).redraw);
}

#[test]
fn watchdog_reports_once_per_interval_with_the_gap() {
    let start = 0;
    let mut watchdog =
        DesktopNoPaintWatchdog::new_with_start_and_mode(start, true, false, 100, 1_000);
    let ctx = context(true, None);
    assert_eq!(watchdog.observe_active_tick(150, ctx).report_gap_ms, Some(150));
    assert_eq!(watchdog.observe_active_tick(400, ctx).report_gap_ms, None);
    assert_eq!(watchdog.observe_active_tick(1_150, ctx).report_gap_ms, Some(1_150));
    watchdog.observe_presented(1_200);
    assert_eq!(watchdog.observe_active_tick(1_250, ctx).report_gap_ms, None);
    assert!(!watchdog.observe_active_tick(1_250, ctx).redraw);
}

#[test]
fn frame_profile_splits_cpu_and_present_time() {
    let mut frame = DesktopFrameProfile::new(1_000);
    frame.checkpoint("layout", 1_004);
    frame.checkpoint("surface_acquire", 1_010);
    frame.checkpoint("draw", 1_013);
    frame.checkpoint("present", 1_020);
    assert_eq!(frame.total_duration(), 20);
    assert_eq!(frame.stage_duration("layout"), 4);
    assert_eq!(frame.stage_duration("surface_acquire"), 6);
    assert_eq!(frame.stage_duration("missing"), 0);
    assert_eq!(frame.cpu_duration(), 7);
}

#[test]
fn latency_profiler_merges_kinds_and_reports_over_budget() {
    let mut profiler = DesktopInteractionLatencyProfiler::new(true, false, 16);
    profiler.mark("key", 100);
    profiler.mark("key", 105);
    assert_eq!(profiler.pending_kind(), Some("key"));
    profiler.mark("scroll", 90);
    assert_eq!(profiler.pending_kind(), Some("mixed"));
    let reported = profiler.observe_presented(120).expect("over budget");
    assert_eq!(reported.0.started_at_ms, 90);
    assert_eq!(reported.0.count, 3);
    assert_eq!(reported.1, 30);
    assert!(profiler.pending_kind().is_none());

    profiler.mark("key", 200);
    assert!(profiler.observe_presented(210).is_none());
}

#[test]
fn disabled_latency_profiler_ignores_input() {
    let mut profiler = DesktopInteractionLatencyProfiler::new(false, false, 16);
    profiler.mark("key", 100);
    assert!(profiler.pending_kind().is_none());
}

#[test]
fn frame_profiler_keeps_the_worst_slow_frame_and_reports() {
    let mut profiler: DesktopFrameProfiler<&'static str> =
        DesktopFrameProfiler::new(true, false, 8, 12, 1_000);

    let mut fast = DesktopFrameProfile::new(0);
    fast.checkpoint("layout", 3);
    assert!(profiler.observe(fast, "fast", 0).is_none());
    assert_eq!(profiler.frames, 1);
    assert!(profiler.worst.is_none());

    let mut slow = DesktopFrameProfile::new(10);
    slow.checkpoint("layout", 20);
    slow.checkpoint("present", 22);
    let report = profiler.observe(slow, "slow", 22).expect("first report is due");
    assert_eq!(report.window_frames, 2);
    assert_eq!(report.slow_cpu_frames, 1);
    assert_eq!(report.present_stall_frames, 0);
    let worst = report.worst.expect("worst frame");
    assert_eq!(worst.cpu_ns, 10);
    assert_eq!(worst.present_ns, 2);
    assert_eq!(worst.wall_ns, 12);
    assert_eq!(worst.score_ns, 10);
    assert_eq!(worst.context, "slow");
    assert_eq!(profiler.frames, 0);
    assert_eq!(profiler.last_report_ns, Some(22));

    let mut stalled = DesktopFrameProfile::new(30);
    stalled.checkpoint("surface_acquire", 45);
    assert!(profiler.observe(stalled, "stalled", 45).is_none());
    assert_eq!(profiler.present_stall_frames, 1);
    assert_eq!(profiler.worst.as_ref().map(|w| w.score_ns), Some(15));
    let report = profiler.report(50);
    assert_eq!(report.present_stall_frames, 1);
    assert!(profiler.worst.is_none());
}

#[test]
fn frame_profiler_compares_with_sub_millisecond_budgets() {
    // The 120 fps budget is 8.333 ms.
    let mut profiler: DesktopFrameProfiler<()> =
        DesktopFrameProfiler::new(true, false, 8_333_333, 12_000_000, 1_000_000_000);
    let mut under = DesktopFrameProfile::new(0);
    under.checkpoint("layout", 8_333_000);
    assert!(profiler.observe(under, (), 8_333_000).is_none());
    assert_eq!(profiler.slow_cpu_frames, 0);
    let mut over = DesktopFrameProfile::new(10_000_000);
    over.checkpoint("layout", 18_333_400);
    let report = profiler.observe(over, (), 18_333_400).expect("a slow frame is reported");
    assert_eq!(report.slow_cpu_frames, 1);
    assert_eq!(report.worst.map(|w| w.cpu_ns), Some(8_333_400));
}
