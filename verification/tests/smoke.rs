use jcode_desktop_core::events::DesktopSessionEvent;
use jcode_desktop_core::smoke::{
    headless_smoke_start, headless_smoke_step, HeadlessSmokeAction, HeadlessSmokeEvent,
    HeadlessSmokeState, SmokeJson,
};

fn field<'a>(line: &'a [(&'static str, SmokeJson)], key: &str) -> &'a SmokeJson {
    &line.iter().find(|(k, _)| *k == key).expect("field present").1
}

fn text(value: &SmokeJson) -> &str {
    match value {
        SmokeJson::Text(s) => s,
        other => panic!("expected text, got {other:?}"),
    }
}

fn feed(state: HeadlessSmokeState, event: DesktopSessionEvent) -> (HeadlessSmokeState, HeadlessSmokeAction) {
    headless_smoke_step(state, HeadlessSmokeEvent::Session(event))
}

#[test]
fn smoke_refuses_a_blank_message() {
    assert_eq!(
        headless_smoke_start("  \n").unwrap_err(),
        "headless chat smoke message cannot be empty"
    );
    let state = headless_smoke_start("hello").unwrap();
    assert!(state.session_id.is_none() && state.response.is_empty() && !state.finished);
}

#[test]
fn smoke_succeeds_with_trimmed_response_preview() {
    let state = headless_smoke_start("hi").unwrap();
    let (state, action) = feed(state, DesktopSessionEvent::SessionStarted { session_id: "s1".into() });
    match &action {
        HeadlessSmokeAction::Print(line) => {
            assert_eq!(text(field(line, "event")), "session");
            assert_eq!(text(field(line, "session_id")), "s1");
        }
        other => panic!("unexpected {other:?}"),
    }
    let (state, action) = feed(state, DesktopSessionEvent::TextDelta("  héllo ".into()));
    match &action {
        HeadlessSmokeAction::Print(line) => assert!(matches!(field(line, "chars"), SmokeJson::Count(8))),
        other => panic!("unexpected {other:?}"),
    }
    let (state, _) = feed(state, DesktopSessionEvent::TextDelta("world  ".into()));
    let (state, action) = feed(state, DesktopSessionEvent::Done);
    assert!(state.finished);
    match &action {
        HeadlessSmokeAction::Succeed(line) => {
            assert_eq!(text(field(line, "event")), "ok");
            assert_eq!(text(field(line, "session_id")), "s1");
            assert!(matches!(field(line, "response_chars"), SmokeJson::Count(11)));
            assert_eq!(text(field(line, "response_preview")), "héllo world");
        }
        other => panic!("unexpected {other:?}"),
    }
    let (_, after) = feed(state, DesktopSessionEvent::Error("late".into()));
    assert!(matches!(after, HeadlessSmokeAction::Nothing));
}

#[test]
fn smoke_preview_is_cut_at_240_chars() {
    let state = headless_smoke_start("hi").unwrap();
    let (state, _) = feed(state, DesktopSessionEvent::TextReplace("x".repeat(300)));
    let (_, action) = feed(state, DesktopSessionEvent::Done);
    match &action {
        HeadlessSmokeAction::Succeed(line) => {
            assert!(matches!(field(line, "response_chars"), SmokeJson::Count(300)));
            assert_eq!(text(field(line, "response_preview")).chars().count(), 240);
            assert!(matches!(field(line, "session_id"), SmokeJson::Null));
        }
        other => panic!("unexpected {other:?}"),
    }
}

#[test]
fn smoke_fails_when_done_without_text() {
    let state = headless_smoke_start("hi").unwrap();
    let (state, _) = feed(
        state,
        DesktopSessionEvent::ToolFinished {
            id: None,
            name: "bash".into(),
            summary: String::new(),
            is_error: true,
        },
    );
    assert_eq!(state.last_status.as_deref(), Some("tool bash failed"));
    let (state, action) = feed(state, DesktopSessionEvent::Done);
    assert!(state.finished);
    match action {
        HeadlessSmokeAction::Fail(message) => assert_eq!(
            message,
            "desktop chat smoke completed without assistant text; session_id=unknown; last_status=tool bash failed"
        ),
        other => panic!("unexpected {other:?}"),
    }
}

#[test]
fn smoke_fails_on_error_close_disconnect_and_timeout() {
    let start = || headless_smoke_start("hi").unwrap();
    let (s, _) = feed(start(), DesktopSessionEvent::SessionStarted { session_id: "abc".into() });
    let (_, a) = feed(s, DesktopSessionEvent::Error("boom".into()));
    assert!(matches!(a, HeadlessSmokeAction::Fail(m) if m == "desktop chat smoke failed; session_id=abc; error=boom"));
    let (_, a) = feed(start(), DesktopSessionEvent::SessionCloseRequested { reason: "bye".into() });
    assert!(matches!(a, HeadlessSmokeAction::Fail(m) if m == "desktop chat smoke session close requested; session_id=unknown; reason=bye"));
    let (s, _) = feed(start(), DesktopSessionEvent::Status("thinking".into()));
    let (_, a) = headless_smoke_step(s, HeadlessSmokeEvent::Disconnected);
    assert!(matches!(a, HeadlessSmokeAction::Fail(m) if m == "desktop chat smoke worker disconnected before completion; last_status=thinking"));
    let (s, _) = feed(start(), DesktopSessionEvent::TextDelta("abc".into()));
    let (s, a) = headless_smoke_step(s, HeadlessSmokeEvent::TimedOut);
    assert!(s.finished);
    assert!(matches!(a, HeadlessSmokeAction::Fail(m) if m == "desktop chat smoke timed out after 90s; session_id=unknown; response_chars=3; last_status=unknown"));
}

#[test]
fn smoke_status_labels_follow_events() {
    let s = headless_smoke_start("hi").unwrap();
    let (s, _) = feed(
        s,
        DesktopSessionEvent::ModelChanged {
            model: "m".into(),
            provider_name: Some("p".into()),
            error: None,
        },
    );
    assert_eq!(s.last_status.as_deref(), Some("model: p · m"));
    let (s, _) = feed(
        s,
        DesktopSessionEvent::ModelCatalog {
            current_model: None,
            provider_name: None,
            models: vec!["a".into(), "b".into()],
        },
    );
    assert_eq!(s.last_status.as_deref(), Some("models loaded (2)"));
    let (s, _) = feed(
        s,
        DesktopSessionEvent::SessionRenamed { title: None, display_title: "Chat".into() },
    );
    assert_eq!(s.last_status.as_deref(), Some("cleared session name; title is now Chat"));
    let (s, a) = feed(
        s,
        DesktopSessionEvent::TokenUsage {
            input: 5,
            output: 6,
            cache_read_input: None,
            cache_creation_input: Some(1),
        },
    );
    assert_eq!(s.last_status.as_deref(), Some("cleared session name; title is now Chat"));
    match a {
        HeadlessSmokeAction::Print(line) => {
            assert_eq!(text(field(&line, "event")), "tokens");
            assert!(matches!(field(&line, "cache_read_input"), SmokeJson::Null));
            assert!(matches!(field(&line, "cache_creation_input"), SmokeJson::Count(1)));
        }
        other => panic!("unexpected {other:?}"),
    }
}
