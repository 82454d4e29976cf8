use jcode_desktop_core::events::{
    desktop_session_event_affects_visible_state, desktop_session_event_refreshes_session_card,
    desktop_session_event_to_wire, desktop_session_event_type_name,
    desktop_wire_session_event_to_runtime_event, DesktopSessionEvent, DesktopSessionEventWire,
};

#[test]
fn event_type_names_are_stable() {
    assert_eq!(desktop_session_event_type_name(&DesktopSessionEvent::Done), "done");
    assert_eq!(
        desktop_session_event_type_name(&DesktopSessionEvent::ModelCatalogError {
            error: "x".to_string()
        }),
        "model_catalog_error"
    );
    assert_eq!(
        desktop_session_event_type_name(&DesktopSessionEvent::SessionCloseRequested {
            reason: "s".to_string()
        }),
        "session_close_requested"
    );
}

#[test]
fn card_refresh_and_visibility_rules() {
    assert!(desktop_session_event_refreshes_session_card(&DesktopSessionEvent::Done));
    assert!(desktop_session_event_refreshes_session_card(&DesktopSessionEvent::Error(
        "boom".to_string()
    )));
    assert!(!desktop_session_event_refreshes_session_card(&DesktopSessionEvent::TextDelta(
        "hi".to_string()
    )));
    assert!(!desktop_session_event_affects_visible_state(&DesktopSessionEvent::ToolInput {
        id: None,
        delta: "{".to_string()
    }));
    assert!(desktop_session_event_affects_visible_state(&DesktopSessionEvent::TextDelta(
        "hi".to_string()
    )));
}

#[test]
fn tool_events_travel_with_id_title_and_outcome() {
    let wire = desktop_session_event_to_wire(&DesktopSessionEvent::ToolFinished {
        id: None,
        name: "bash".to_string(),
        summary: "ran".to_string(),
        is_error: true,
    }, String::new());
    match &wire {
        DesktopSessionEventWire::ToolFinished { id, title, success } => {
            assert_eq!(id, "");
            assert_eq!(title, "bash");
            assert!(!success);
        }
        other => panic!("unexpected wire event {other:?}"),
    }
    match desktop_wire_session_event_to_runtime_event(wire) {
        Some(DesktopSessionEvent::ToolFinished {
            id,
            name,
            summary,
            is_error,
        }) => {
            assert_eq!(id, None);
            assert_eq!(name, "bash");
            assert_eq!(summary, "");
            assert!(is_error);
        }
        other => panic!("unexpected event {other:?}"),
    }
}

#[test]
fn text_replace_travels_as_a_delta() {
    let wire = desktop_session_event_to_wire(
        &DesktopSessionEvent::TextReplace("all".to_string()),
        String::new(),
    );
    assert!(matches!(&wire, DesktopSessionEventWire::AssistantTextDelta { text } if text == "all"));
    assert!(matches!(
        desktop_wire_session_event_to_runtime_event(wire),
        Some(DesktopSessionEvent::TextDelta(text)) if text == "all"
    ));
}

#[test]
fn other_events_travel_as_raw_json_and_are_not_rebuilt() {
    let event = DesktopSessionEvent::TokenUsage {
        input: 3,
        output: 4,
        cache_read_input: None,
        cache_creation_input: Some(1),
    };
    let wire = desktop_session_event_to_wire(&event, format!("{event:?}"));
    match &wire {
        DesktopSessionEventWire::RawJson { event_type, payload } => {
            assert_eq!(event_type, "token_usage");
            assert!(payload.starts_with("TokenUsage"));
            assert!(payload.contains("cache_creation_input: Some(1)"));
        }
        other => panic!("unexpected wire event {other:?}"),
    }
    assert!(desktop_wire_session_event_to_runtime_event(wire).is_none());
}

#[test]
fn status_and_error_round_trip() {
    let status = desktop_wire_session_event_to_runtime_event(desktop_session_event_to_wire(
        &DesktopSessionEvent::Status("thinking".to_string()),
        String::new(),
    ));
    assert!(matches!(status, Some(DesktopSessionEvent::Status(label)) if label == "thinking"));
    let started = desktop_wire_session_event_to_runtime_event(desktop_session_event_to_wire(
        &DesktopSessionEvent::ToolStarted {
            id: Some("t1".to_string()),
            name: "grep".to_string(),
        },
        String::new(),
    ));
    assert!(matches!(
        started,
        Some(DesktopSessionEvent::ToolStarted { id: Some(id), name }) if id == "t1" && name == "grep"
    ));
}
