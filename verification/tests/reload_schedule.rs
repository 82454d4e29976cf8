use jcode_desktop_core::process::{
    desktop_mode_from_args, desktop_process_role_from_args, desktop_resume_session_id_from_args,
    DesktopMode, DesktopProcessRole, DesktopReloadStrategy, DesktopWorkerMode,
};
use jcode_desktop_core::reload::{
    binary_is_newer_than, desktop_args_without_process_role, desktop_args_without_resume,
    desktop_reload_binary_candidate_from, desktop_reload_window_size_is_valid,
    desktop_selfdev_binary_path, ensure_desktop_workspace_arg, paths_refer_to_same_file,
    DesktopHotReloadTimer, DesktopRelaunch, DesktopReloadHandoff, DesktopReloadHandoffPoll,
    DesktopReloadReleaseWait, DesktopReloadStartupHandoff,
    DesktopReloadStartup, DesktopReloadStartupWarning, DesktopReloadWindowPlacement,
    WindowPosition, WindowSize, DESKTOP_RELOAD_HANDOFF_TIMEOUT_MS,
};
use jcode_desktop_core::schedule::{
    desktop_background_wake, desktop_spinner_tick, desktop_surface_size_is_renderable,
    next_animation_redraw_at, primitive_vertex_buffer_should_reallocate,
    primitive_vertex_capacity_for_len, single_session_body_text_window_bounds,
    single_session_body_text_window_contains, single_session_caret_visible_for_frame,
    streaming_text_renderer_should_release, SingleSessionBodyViewport, SurfaceTimeoutBackoff,
};

fn args(items: &[&str]) -> Vec<String> {
    items.iter().map(|item| item.to_string()).collect()
}

#[test]
fn window_placement_round_trips_through_the_environment() {
    let placement = DesktopReloadWindowPlacement {
        position: Some(WindowPosition { x: -20, y: 40 }),
        inner_size: WindowSize { width: 1200, height: 800 },
    };
    let value = placement.to_env_value();
    assert_eq!(value, "-20,40,1200,800");
    assert_eq!(DesktopReloadWindowPlacement::from_env_value(&value), Some(placement));
    let unplaced = DesktopReloadWindowPlacement {
        position: None,
        inner_size: WindowSize { width: 1, height: 32_768 },
    };
    assert_eq!(unplaced.to_env_value(), "_,_,1,32768");
    assert_eq!(DesktopReloadWindowPlacement::from_env_value("_,_,1,32768"), Some(unplaced));
    assert_eq!(DesktopReloadWindowPlacement::from_env_value("_,_,0,10"), None);
    assert_eq!(DesktopReloadWindowPlacement::from_env_value("1,2,3"), None);
    assert_eq!(DesktopReloadWindowPlacement::from_env_value("_,5,10,10"), None);
    assert!(!desktop_reload_window_size_is_valid(WindowSize { width: 32_769, height: 1 }));
}

#[test]
fn startup_reads_handoff_and_placement() {
    let (startup, warnings) = DesktopReloadStartup::from_env_values(
        Some("bad".to_string()),
        Some("/r".to_string()),
        None,
    );
    assert!(startup.window_placement.is_none());
    assert!(!startup.hidden_until_handoff_release());
    assert_eq!(
        warnings,
        vec![
            DesktopReloadStartupWarning::InvalidWindowPlacement,
            DesktopReloadStartupWarning::IncompleteHandoff
        ]
    );
    let (startup, warnings) = DesktopReloadStartup::from_env_values(
        None,
        Some("/r".to_string()),
        Some("/s".to_string()),
    );
    assert!(startup.hidden_until_handoff_release());
    assert!(warnings.is_empty());
}

#[test]
fn handoff_environment_and_polling() {
    let handoff = DesktopReloadHandoff {
        ready_file: "/tmp/ready".to_string(),
        release_file: "/tmp/release".to_string(),
        window_placement: None,
    };
    let mut env = vec![("A".to_string(), "1".to_string())];
    handoff.apply_to_command(&mut env);
    assert_eq!(env.len(), 3);
    assert_eq!(env[1], ("JCODE_DESKTOP_RELOAD_READY_FILE".to_string(), "/tmp/ready".to_string()));
    let watcher = handoff.watcher(1_000);
    assert_eq!(watcher.poll(false, 1_500), DesktopReloadHandoffPoll::Waiting);
    assert_eq!(watcher.poll(true, 1_500), DesktopReloadHandoffPoll::Ready);
    assert_eq!(
        watcher.poll(false, 1_000 + DESKTOP_RELOAD_HANDOFF_TIMEOUT_MS),
        DesktopReloadHandoffPoll::TimedOut
    );
}

#[test]
fn relaunch_arguments() {
    assert_eq!(
        desktop_args_without_resume(&args(&["--resume", "a", "--x", "--resume=b", "--resume"])),
        args(&["--x"])
    );
    assert_eq!(
        desktop_args_without_process_role(&args(&["--desktop-host", "--y", "--desktop-process-role", "worker", "--desktop-process-role=host"])),
        args(&["--y"])
    );
    let mut list = args(&["--fullscreen"]);
    ensure_desktop_workspace_arg(&mut list);
    assert_eq!(list, args(&["--fullscreen", "--workspace"]));
    let mut list = args(&["--new"]);
    ensure_desktop_workspace_arg(&mut list);
    assert_eq!(list, args(&["--new"]));

    let relaunch = DesktopRelaunch {
        binary: "/bin/jcode-desktop".to_string(),
        args: args(&["--resume", "old", "--desktop-host"]),
    };
    let worker = relaunch.for_app_worker();
    assert_eq!(worker.args, args(&["--resume", "old", "--desktop-process-role", "app-worker"]));
    let app = relaunch.for_app(DesktopWorkerMode::SingleSession, Some("live".to_string()), "/new".to_string());
    assert_eq!(app.binary, "/new");
    assert_eq!(app.args, args(&["--desktop-host", "--resume", "live"]));
    let app = relaunch.for_app(DesktopWorkerMode::Workspace, None, "/new".to_string());
    assert_eq!(app.args, args(&["--desktop-host", "--workspace"]));
}

#[test]
fn reload_binary_choice() {
    assert!(binary_is_newer_than(Some(2), Some(1)));
    assert!(!binary_is_newer_than(Some(1), Some(1)));
    assert!(binary_is_newer_than(Some(1), None));
    assert!(!binary_is_newer_than(None, Some(1)));
    assert!(paths_refer_to_same_file("/a", "/a", None, None));
    assert!(paths_refer_to_same_file("/a", "/b", Some("/c".to_string()), Some("/c".to_string())));
    assert!(!paths_refer_to_same_file("/a", "/b", Some("/c".to_string()), None));
    assert_eq!(desktop_selfdev_binary_path("/repo", false), "/repo/target/selfdev/jcode-desktop");
    assert_eq!(desktop_selfdev_binary_path("/repo/", true), "/repo/target/selfdev/jcode-desktop.exe");
    assert_eq!(desktop_reload_binary_candidate_from("/bin/a", "/s", false, true), "/s");
    assert_eq!(desktop_reload_binary_candidate_from("/bin/a", "/s", false, false), "/bin/a");
}

#[test]
fn hot_reload_timer() {
    let mut timer = DesktopHotReloadTimer {
        can_relaunch: true,
        strategy: DesktopReloadStrategy::FullProcessHandoff,
        observed_modified: Some(10),
        last_checked_ms: 0,
        pending_handoff: false,
        app_worker_running: false,
    };
    assert_eq!(timer.next_wake(100), Some(750));
    assert_eq!(timer.next_wake(1_000), Some(1_000));
    assert!(!timer.observe_binary(100, Some(20)));
    assert!(timer.observe_binary(800, Some(20)));
    assert_eq!(timer.observed_modified, Some(20));
    assert!(!timer.observe_binary(1_600, Some(20)));
    timer.pending_handoff = true;
    assert_eq!(timer.next_wake(5), Some(30));
}

#[test]
fn surface_backoff_doubles_to_a_cap() {
    let mut backoff = SurfaceTimeoutBackoff { consecutive_timeouts: 0 };
    let delays: Vec<u64> = (0..6).map(|_| backoff.record_timeout().0).collect();
    assert_eq!(delays, vec![16, 32, 64, 128, 250, 250]);
    assert_eq!(backoff.consecutive_timeouts, 6);
    backoff.reset();
    assert_eq!(backoff.record_timeout(), (16, 1));
}

#[test]
fn scheduling_rules() {
    assert!(!desktop_surface_size_is_renderable(0, 10));
    assert!(desktop_surface_size_is_renderable(1, 1));
    assert_eq!(next_animation_redraw_at(100, false), None);
    assert!(next_animation_redraw_at(100, true).is_some());
    let _ = desktop_background_wake(100, true, false);
    assert_eq!(primitive_vertex_capacity_for_len(0), 0);
    assert_eq!(primitive_vertex_capacity_for_len(3), 1024);
    assert_eq!(primitive_vertex_capacity_for_len(1025), 2048);
    assert!(primitive_vertex_buffer_should_reallocate(10, 11));
    assert!(primitive_vertex_buffer_should_reallocate(4096, 100));
    assert!(!primitive_vertex_buffer_should_reallocate(1024, 100));
    assert!(!primitive_vertex_buffer_should_reallocate(4096, 0));
    assert!(streaming_text_renderer_should_release(false, true, false));
    assert!(!streaming_text_renderer_should_release(true, true, true));
    assert!(single_session_caret_visible_for_frame(true, 8));
    assert!(!single_session_caret_visible_for_frame(true, 9));
    assert_eq!(desktop_spinner_tick(360), 2);
}

#[test]
fn body_text_window_covers_the_viewport() {
    let viewport = SingleSessionBodyViewport { start_line: 20, line_count: 10, total_lines: 100 };
    let (start, end) = single_session_body_text_window_bounds(&viewport);
    assert_eq!((start, end), (12, 46));
    assert!(single_session_body_text_window_contains(start, end, &viewport));
    assert!(!single_session_body_text_window_contains(21, end, &viewport));
    let near_top = SingleSessionBodyViewport { start_line: 3, line_count: 10, total_lines: 12 };
    assert_eq!(single_session_body_text_window_bounds(&near_top), (0, 12));
}

#[test]
fn placement_from_window_measurements() {
    let size = WindowSize { width: 900, height: 700 };
    let position = Some(WindowPosition { x: 3, y: 4 });
    assert_eq!(
        DesktopReloadWindowPlacement::from_window(size, position),
        Some(DesktopReloadWindowPlacement { position, inner_size: size })
    );
    assert_eq!(
        DesktopReloadWindowPlacement::from_window(WindowSize { width: 0, height: 700 }, position),
        None
    );
    let handoff = DesktopReloadStartupHandoff {
        ready_file: "/r".to_string(),
        release_file: "/s".to_string(),
    };
    assert_eq!(handoff.release_wait_step(false, 100), DesktopReloadReleaseWait::Waiting);
    assert_eq!(handoff.release_wait_step(true, 100), DesktopReloadReleaseWait::Released);
    assert_eq!(handoff.release_wait_step(true, 3_000), DesktopReloadReleaseWait::GaveUp);
}

#[test]
fn relaunched_processes_read_back_their_role_session_and_mode() {
    let relaunch = DesktopRelaunch {
        binary: "/bin/d".to_string(),
        args: args(&["--desktop-process-role=host", "--resume=old", "--fullscreen"]),
    };
    let worker = relaunch.for_app_worker();
    assert_eq!(desktop_process_role_from_args(&worker.args), DesktopProcessRole::AppWorker);
    let single = relaunch.for_app(DesktopWorkerMode::SingleSession, Some("live".to_string()), "/bin/d".to_string());
    assert_eq!(desktop_resume_session_id_from_args(&single.args).as_deref(), Some("live"));
    let workspace = relaunch.for_app(DesktopWorkerMode::Workspace, None, "/bin/d".to_string());
    assert_eq!(desktop_mode_from_args(&workspace.args), DesktopMode::WorkspacePrototype);
    // With `--new` the workspace flag is not added.
    let fresh = DesktopRelaunch { binary: "/bin/d".to_string(), args: args(&["--new"]) }
        .for_app(DesktopWorkerMode::Workspace, None, "/bin/d".to_string());
    assert_eq!(desktop_mode_from_args(&fresh.args), DesktopMode::SingleSession);
}
