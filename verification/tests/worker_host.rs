use jcode_desktop_core::worker_host::{
    desktop_worker_drain, desktop_worker_poll_drops, DesktopWorkerMessage, DesktopWorkerProcessStatus,
};

#[test]
fn drain_keeps_the_last_scene_and_reload_requests() {
    let drained = desktop_worker_drain(vec![
        DesktopWorkerMessage::Ready,
        DesktopWorkerMessage::Scene(1),
        DesktopWorkerMessage::ReloadRequested,
        DesktopWorkerMessage::Scene(2),
        DesktopWorkerMessage::Log,
    ]);
    assert_eq!(drained.latest_scene, Some(2));
    assert!(drained.reload_requested);
    assert!(!drained.drop_worker);
}

#[test]
fn drain_stops_at_the_first_unreadable_frame() {
    let drained = desktop_worker_drain(vec![
        DesktopWorkerMessage::Scene("first"),
        DesktopWorkerMessage::Unreadable,
        DesktopWorkerMessage::Scene("after"),
        DesktopWorkerMessage::ReloadRequested,
    ]);
    assert_eq!(drained.latest_scene, Some("first"));
    assert!(!drained.reload_requested);
    assert!(drained.drop_worker);
    let empty = desktop_worker_drain::<u8>(Vec::new());
    assert_eq!(empty.latest_scene, None);
    assert!(!empty.reload_requested && !empty.drop_worker);
}

#[test]
fn polling_drops_an_exited_or_unpollable_worker() {
    assert!(!desktop_worker_poll_drops(DesktopWorkerProcessStatus::Running));
    assert!(desktop_worker_poll_drops(DesktopWorkerProcessStatus::Exited));
    assert!(desktop_worker_poll_drops(DesktopWorkerProcessStatus::PollFailed));
}
