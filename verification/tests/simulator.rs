use jcode_desktop_core::bench::benchmark_resize_size;
use jcode_desktop_core::events::{
    desktop_session_event_batch_stats, DesktopSessionBatchStats, DesktopSessionEvent,
};
use jcode_desktop_core::reload::WindowSize;
use jcode_desktop_core::simulator::{
    desktop_stream_simulator_chunks, DESKTOP_STREAM_SIMULATOR_SCRIPT,
};

#[test]
fn simulator_chunks_follow_the_burst_pattern() {
    let chunks = desktop_stream_simulator_chunks("a b c d e f g h i j k l");
    let texts: Vec<&str> = chunks.iter().map(|chunk| chunk.text.as_str()).collect();
    assert_eq!(texts, vec!["a ", "b c d ", "e f ", "g h i j k ", "l"]);
    let pauses: Vec<u64> = chunks.iter().map(|chunk| chunk.pause_ms).collect();
    assert_eq!(pauses, vec![45, 45, 120, 45, 220]);
}

#[test]
fn simulator_chunks_rebuild_the_script() {
    let chunks = desktop_stream_simulator_chunks(DESKTOP_STREAM_SIMULATOR_SCRIPT);
    let rebuilt: String = chunks.iter().map(|chunk| chunk.text.as_str()).collect();
    assert_eq!(rebuilt, DESKTOP_STREAM_SIMULATOR_SCRIPT);
    assert!(desktop_stream_simulator_chunks("").is_empty());
    let spaced = desktop_stream_simulator_chunks("  x ");
    assert_eq!(spaced.len(), 2);
    assert_eq!(spaced[0].text, " ");
    assert_eq!(spaced[1].text, " x ");
}

#[test]
fn batch_stats_count_text_and_refreshes() {
    let events = vec![
        DesktopSessionEvent::ToolInput { id: None, delta: "{".to_string() },
        DesktopSessionEvent::TextDelta("héllo".to_string()),
        DesktopSessionEvent::Done,
    ];
    assert_eq!(
        desktop_session_event_batch_stats(&events),
        DesktopSessionBatchStats {
            visible_changed: true,
            event_count: 3,
            text_delta_bytes: 6,
            session_card_refresh_requested: true,
        }
    );
    let quiet = vec![DesktopSessionEvent::ToolInput { id: None, delta: "x".to_string() }];
    let stats = desktop_session_event_batch_stats(&quiet);
    assert!(!stats.visible_changed);
    assert!(!stats.session_card_refresh_requested);
    assert_eq!(desktop_session_event_batch_stats(&Vec::new()).event_count, 0);
}

#[test]
fn resize_benchmark_sizes_sweep() {
    assert_eq!(benchmark_resize_size(0), WindowSize { width: 1080, height: 650 });
    assert_eq!(benchmark_resize_size(1), WindowSize { width: 1097, height: 661 });
    assert_eq!(benchmark_resize_size(20), WindowSize { width: 1080 + 80, height: 650 + 40 });
}
