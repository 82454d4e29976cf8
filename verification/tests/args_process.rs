use jcode_desktop_core::args::{
    headless_chat_smoke_message, hero_screenshot_capture_dir, real_transcript_action_benchmark_frames,
    real_transcript_scroll_benchmark_frames, resize_render_benchmark_frames,
    scroll_render_benchmark_frames, simulate_stream_requested, startup_benchmark_requested,
    startup_content_benchmark_requested, startup_log_requested,
};
use jcode_desktop_core::process::{
    desktop_mode_from_args, desktop_process_role_from_args, desktop_resume_session_id_from_args,
    DesktopMode, DesktopProcessRole, DesktopReloadStrategy, DesktopWorkerMode,
};

fn args(items: &[&str]) -> Vec<String> {
    items.iter().map(|item| item.to_string()).collect()
}

#[test]
fn flags_are_found_anywhere() {
    assert!(startup_benchmark_requested(&args(&["x", "--startup-benchmark"])));
    assert!(!startup_benchmark_requested(&args(&["--startup-benchmark=1"])));
    assert!(startup_content_benchmark_requested(&args(&["--startup-content-benchmark"])));
    assert!(startup_log_requested(&args(&[]), true));
    assert!(startup_log_requested(&args(&["--startup-log"]), false));
    assert!(!startup_log_requested(&args(&["--startup"]), false));
    assert!(simulate_stream_requested(&args(&["--simulate-streaming"])));
    assert!(!simulate_stream_requested(&args(&["--simulate"])));
}

#[test]
fn benchmark_frame_counts() {
    assert_eq!(scroll_render_benchmark_frames(&args(&[])), None);
    assert_eq!(scroll_render_benchmark_frames(&args(&["--scroll-render-benchmark"])), Some(600));
    assert_eq!(scroll_render_benchmark_frames(&args(&["--scroll-render-benchmark", "42"])), Some(42));
    assert_eq!(scroll_render_benchmark_frames(&args(&["--scroll-render-benchmark", "x"])), Some(600));
    assert_eq!(scroll_render_benchmark_frames(&args(&["--scroll-render-benchmark=7"])), Some(7));
    assert_eq!(
        scroll_render_benchmark_frames(&args(&["--scroll-render-benchmark=bad", "--scroll-render-benchmark", "9"])),
        Some(9)
    );
    assert_eq!(resize_render_benchmark_frames(&args(&["--resize-render-benchmark"])), Some(240));
    assert_eq!(real_transcript_scroll_benchmark_frames(&args(&["--real-transcript-scroll-benchmark"])), Some(600));
    assert_eq!(real_transcript_action_benchmark_frames(&args(&["--real-transcript-action-benchmark=+5"])), Some(5));
}

#[test]
fn flag_values_come_from_equals_or_the_next_argument() {
    assert_eq!(headless_chat_smoke_message(&args(&["--headless-chat-smoke=hi there"])).as_deref(), Some("hi there"));
    assert_eq!(headless_chat_smoke_message(&args(&["--headless-chat-smoke", "hello"])).as_deref(), Some("hello"));
    assert_eq!(headless_chat_smoke_message(&args(&["--headless-chat-smoke"])), None);
    assert_eq!(hero_screenshot_capture_dir(&args(&["--capture-hero-animation", "/tmp/h"])).as_deref(), Some("/tmp/h"));
}

#[test]
fn mode_and_role_from_arguments() {
    assert_eq!(desktop_mode_from_args(&args(&["--workspace"])), DesktopMode::WorkspacePrototype);
    assert_eq!(desktop_mode_from_args(&args(&[])), DesktopMode::SingleSession);
    assert_eq!(DesktopMode::WorkspacePrototype.worker_mode(), DesktopWorkerMode::Workspace);
    assert_eq!(desktop_process_role_from_args(&args(&[])), DesktopProcessRole::StableHost);
    assert_eq!(desktop_process_role_from_args(&args(&["--desktop-app-worker"])), DesktopProcessRole::AppWorker);
    assert_eq!(
        desktop_process_role_from_args(&args(&["--desktop-process-role", "standalone"])),
        DesktopProcessRole::Standalone
    );
    assert_eq!(
        desktop_process_role_from_args(&args(&["--desktop-process-role=stable_host", "--desktop-app-worker"])),
        DesktopProcessRole::StableHost
    );
    assert_eq!(
        desktop_process_role_from_args(&args(&["--desktop-process-role", "--desktop-host"])),
        DesktopProcessRole::Standalone
    );
    assert_eq!(DesktopProcessRole::AppWorker.as_str(), "app_worker");
    assert_eq!(DesktopProcessRole::StableHost.reload_strategy(), DesktopReloadStrategy::AppWorkerRestart);
    assert_eq!(DesktopProcessRole::Standalone.reload_strategy(), DesktopReloadStrategy::FullProcessHandoff);
}

#[test]
fn resume_session_id() {
    assert_eq!(desktop_resume_session_id_from_args(&args(&["--resume", "abc"])).as_deref(), Some("abc"));
    assert_eq!(desktop_resume_session_id_from_args(&args(&["--resume=xyz"])).as_deref(), Some("xyz"));
    assert_eq!(desktop_resume_session_id_from_args(&args(&["--resume="])), None);
    assert_eq!(desktop_resume_session_id_from_args(&args(&["--resume"])), None);
    assert_eq!(desktop_resume_session_id_from_args(&args(&["x"])), None);
}
