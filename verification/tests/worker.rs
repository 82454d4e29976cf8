use jcode_desktop_core::worker::{
    read_desktop_worker_events, DesktopIpcFrameError, DesktopWorkerIpcWriter,
};

fn envelope_sequence(line: &str) -> u64 {
    let value: serde_json::Value = serde_json::from_str(line).expect("frame is JSON");
    value["sequence"].as_u64().expect("sequence number")
}

#[test]
fn worker_reader_notifies_for_messages_and_disconnect() {
    let mut writer = DesktopWorkerIpcWriter::new(Vec::new());
    writer
        .send(br#"{"Ready":{"worker_pid":42,"mode":"Workspace"}}"#)
        .expect("encode worker frame");
    let bytes = writer.into_inner();

    let read = read_desktop_worker_events(&bytes);

    assert!(read.events[0].is_ok(), "worker event");
    assert_eq!(read.notifications, 2);
}

#[test]
fn worker_ipc_writer_assigns_monotonic_sequences() {
    let mut writer = DesktopWorkerIpcWriter::new(Vec::new());
    writer
        .send(br#"{"Input":{"Key":{"key":"a","text":"a","pressed":true,"modifiers":{"shift":false,"ctrl":false,"alt":false,"super_key":false}}}}"#)
        .expect("first frame");
    writer
        .send(br#"{"SnapshotRequest":{"request_id":99}}"#)
        .expect("second frame");
    let bytes = writer.into_inner();

    let encoded = String::from_utf8(bytes).expect("utf8 frames");
    let mut lines = encoded.lines();
    let first = envelope_sequence(lines.next().expect("first line"));
    let second = envelope_sequence(lines.next().expect("second line"));

    assert_eq!(first, 1);
    assert_eq!(second, 2);
    assert!(lines.next().is_none());
}

#[test]
fn writer_frames_carry_version_sequence_and_payload() {
    let mut writer = DesktopWorkerIpcWriter::new(Vec::new());
    writer.send(br#"{"Ping":7}"#).unwrap();
    let text = String::from_utf8(writer.into_inner()).unwrap();
    assert_eq!(text, "{\"version\":1,\"sequence\":1,\"payload\":{\"Ping\":7}}\n");
    let value: serde_json::Value = serde_json::from_str(text.trim_end()).unwrap();
    assert_eq!(value["payload"]["Ping"].as_u64(), Some(7));
}

#[test]
fn writer_refuses_multi_line_messages_but_uses_up_the_number() {
    let mut writer = DesktopWorkerIpcWriter::new(Vec::new());
    assert_eq!(
        writer.send(b"{\n}"),
        Err(DesktopIpcFrameError::EmbeddedNewline)
    );
    assert_eq!(writer.next_sequence, 2);
    writer.send(b"{}").unwrap();
    let text = String::from_utf8(writer.into_inner()).unwrap();
    assert_eq!(envelope_sequence(text.trim_end()), 2);
}

#[test]
fn reader_reports_a_truncated_last_frame() {
    let read = read_desktop_worker_events(b"{\"a\":1}\n{\"b\"");
    assert_eq!(read.events.len(), 2);
    assert_eq!(read.events[0].as_ref().unwrap(), &b"{\"a\":1}".to_vec());
    assert_eq!(read.events[1], Err(DesktopIpcFrameError::TruncatedFrame));
    assert_eq!(read.notifications, 2);
}

#[test]
fn reader_of_an_empty_stream_only_notifies_the_disconnect() {
    let read = read_desktop_worker_events(b"");
    assert!(read.events.is_empty());
    assert_eq!(read.notifications, 1);
}

#[test]
fn frames_read_back_in_order() {
    let mut writer = DesktopWorkerIpcWriter::new(Vec::new());
    for message in [&b"{\"n\":1}"[..], b"{\"n\":2}", b"{\"n\":3}"] {
        writer.send(message).unwrap();
    }
    let bytes = writer.into_inner();
    let read = read_desktop_worker_events(&bytes);
    assert_eq!(read.events.len(), 3);
    assert_eq!(read.notifications, 4);
    for (index, event) in read.events.iter().enumerate() {
        let frame = String::from_utf8(event.clone().unwrap()).unwrap();
        let value: serde_json::Value = serde_json::from_str(&frame).unwrap();
        assert_eq!(value["sequence"].as_u64(), Some(index as u64 + 1));
        assert_eq!(value["payload"]["n"].as_u64(), Some(index as u64 + 1));
    }
}
