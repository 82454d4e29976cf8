use jcode_desktop_core::events::DesktopSessionEventWire;
use jcode_desktop_core::process::DesktopWorkerMode;
use jcode_desktop_core::worker_loop::{
    desktop_worker_loop_start, desktop_worker_step, DesktopWorkerLoopAction,
    DesktopWorkerLoopInput, DesktopWorkerShutdownReason, DesktopWorkerWindow,
};

fn window() -> DesktopWorkerWindow {
    DesktopWorkerWindow { width: 900, height: 600, scale_factor_bits: 0x4000_0000, focused: true }
}

#[test]
fn worker_announces_ready_as_frame_one() {
    let (state, ready) = desktop_worker_loop_start(DesktopWorkerMode::Workspace, 77);
    assert_eq!(
        ready,
        DesktopWorkerLoopAction::SendReady { sequence: 1, worker_pid: 77, mode: DesktopWorkerMode::Workspace }
    );
    assert_eq!(state.next_sequence, 2);
    assert_eq!(state.window.width, 1280);
    assert_eq!(state.window.height, 800);
    assert!(!state.initialized && state.running);
}

#[test]
fn worker_numbers_scenes_snapshots_and_reloads() {
    let (s, _) = desktop_worker_loop_start(DesktopWorkerMode::SingleSession, 1);
    let (s, a) = desktop_worker_step(s, DesktopWorkerLoopInput::SnapshotRequest { request_id: 9 });
    assert_eq!(a, vec![DesktopWorkerLoopAction::NoteSnapshotBeforeInit { request_id: 9 }]);
    assert_eq!(s.next_sequence, 2);
    let (s, a) = desktop_worker_step(
        s,
        DesktopWorkerLoopInput::Initialize { mode: DesktopWorkerMode::SingleSession, window: window() },
    );
    assert_eq!(
        a,
        vec![
            DesktopWorkerLoopAction::CreateRuntime { mode: DesktopWorkerMode::SingleSession },
            DesktopWorkerLoopAction::SendScene { sequence: 2 },
        ]
    );
    assert_eq!(s.window, window());
    let (s, a) = desktop_worker_step(s, DesktopWorkerLoopInput::Key { pressed: false });
    assert!(a.is_empty());
    let (s, a) = desktop_worker_step(s, DesktopWorkerLoopInput::Key { pressed: true });
    assert_eq!(a, vec![DesktopWorkerLoopAction::HandleKey]);
    let (s, a) = desktop_worker_step(s, DesktopWorkerLoopInput::KeyHandled { force_reload: false });
    assert_eq!(a, vec![DesktopWorkerLoopAction::SendScene { sequence: 3 }]);
    let (s, a) = desktop_worker_step(s, DesktopWorkerLoopInput::KeyHandled { force_reload: true });
    assert_eq!(a, vec![DesktopWorkerLoopAction::SendReloadRequested { sequence: 4 }]);
    let (s, a) = desktop_worker_step(s, DesktopWorkerLoopInput::SnapshotRequest { request_id: 5 });
    assert_eq!(a, vec![DesktopWorkerLoopAction::SendSnapshot { request_id: 5, sequence: 5 }]);
    let (s, a) = desktop_worker_step(s, DesktopWorkerLoopInput::Focused(false));
    assert!(a.is_empty());
    assert!(!s.window.focused);
    let (s, a) = desktop_worker_step(
        s,
        DesktopWorkerLoopInput::Resized { width: 10, height: 20, scale_factor_bits: 0x3f80_0000 },
    );
    assert_eq!(a, vec![DesktopWorkerLoopAction::SendScene { sequence: 6 }]);
    assert_eq!((s.window.width, s.window.height, s.window.focused), (10, 20, false));
    assert_eq!(s.next_sequence, 7);
}

#[test]
fn worker_redraws_only_for_rebuilt_session_events() {
    let (s, _) = desktop_worker_loop_start(DesktopWorkerMode::SingleSession, 1);
    let raw = || DesktopSessionEventWire::RawJson { event_type: "tokens".into(), payload: String::new() };
    let (s, a) = desktop_worker_step(s, DesktopWorkerLoopInput::SessionEvents(vec![
        DesktopSessionEventWire::Status { message: "x".into() },
    ]));
    assert!(a.is_empty(), "no app before initialization");
    let (s, _) = desktop_worker_step(
        s,
        DesktopWorkerLoopInput::Initialize { mode: DesktopWorkerMode::SingleSession, window: window() },
    );
    let (s, a) = desktop_worker_step(s, DesktopWorkerLoopInput::SessionEvents(vec![raw()]));
    assert!(a.is_empty());
    let (s, a) = desktop_worker_step(s, DesktopWorkerLoopInput::SessionEvents(vec![
        raw(),
        DesktopSessionEventWire::AssistantTextDelta { text: "hi".into() },
    ]));
    assert_eq!(
        a,
        vec![DesktopWorkerLoopAction::ApplySessionEvents, DesktopWorkerLoopAction::SendScene { sequence: 3 }]
    );
    assert_eq!(s.next_sequence, 4);
}

#[test]
fn worker_stops_on_shutdown_end_of_input_or_bad_frames() {
    let (s, _) = desktop_worker_loop_start(DesktopWorkerMode::SingleSession, 1);
    let (stopped, a) = desktop_worker_step(
        s,
        DesktopWorkerLoopInput::Shutdown { reason: DesktopWorkerShutdownReason::Reload },
    );
    assert_eq!(a, vec![DesktopWorkerLoopAction::Exit]);
    assert!(!stopped.running);
    let (_, a) = desktop_worker_step(stopped, DesktopWorkerLoopInput::Mouse);
    assert!(a.is_empty());
    let (_, a) = desktop_worker_step(s, DesktopWorkerLoopInput::EndOfInput);
    assert_eq!(a, vec![DesktopWorkerLoopAction::Exit]);
    let (s2, a) = desktop_worker_step(s, DesktopWorkerLoopInput::IncompatibleFrame);
    assert_eq!(a, vec![DesktopWorkerLoopAction::ExitIncompatible]);
    assert!(!s2.running);
}
