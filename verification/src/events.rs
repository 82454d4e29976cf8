//! Session events: what a running session reports to the desktop, and the
//! smaller wire form in which the host forwards them to an app worker.
use vstd::prelude::*;
use crate::text::{chars_of, opt_view, utf8_len, utf8_len_prefix};

verus! {

broadcast use vstd::string::group_string_axioms;

/// An event a running session reports. A status is held by its label.
#[derive(Clone, Debug)]
pub enum DesktopSessionEvent {
    Status(String),
    SessionStarted { session_id: String },
    SessionRenamed { title: Option<String>, display_title: String },
    TextDelta(String),
    TextReplace(String),
    ToolStarted { id: Option<String>, name: String },
    ToolExecuting { id: Option<String>, name: String },
    ToolInput { id: Option<String>, delta: String },
    ToolFinished { id: Option<String>, name: String, summary: String, is_error: bool },
    ModelChanged { model: String, provider_name: Option<String>, error: Option<String> },
    ModelCatalog { current_model: Option<String>, provider_name: Option<String>, models: Vec<String> },
    ModelCatalogError { error: String },
    StdinRequest {
        request_id: String,
        prompt: String,
        is_password: bool,
        tool_call_id: Option<String>,
    },
    ReloadProgress { step: String, message: String, success: Option<bool>, output: Option<String> },
    RuntimeMetadata {
        connection_type: Option<String>,
        status_detail: Option<String>,
        upstream_provider: Option<String>,
    },
    TokenUsage {
        input: u64,
        output: u64,
        cache_read_input: Option<u64>,
        cache_creation_input: Option<u64>,
    },
    SystemNotice { title: String, message: String },
    SessionCloseRequested { reason: String },
    Reloading { new_socket: Option<String> },
    Reloaded { session_id: String },
    Done,
    Error(String),
}

/// The wire form of a session event.
#[derive(Clone, Debug)]
pub enum DesktopSessionEventWire {
    Status { message: String },
    AssistantTextDelta { text: String },
    ToolStarted { id: String, title: String },
    ToolFinished { id: String, title: String, success: bool },
    Error { message: String },
    RawJson { event_type: String, payload: String },
}

/// The stable name of an event's kind.
pub open spec fn event_type_name(e: DesktopSessionEvent) -> Seq<char> {
    match e {
        DesktopSessionEvent::Status(_) => "status"@,
        DesktopSessionEvent::SessionStarted { .. } => "session_started"@,
        DesktopSessionEvent::SessionRenamed { .. } => "session_renamed"@,
        DesktopSessionEvent::TextDelta(_) => "text_delta"@,
        DesktopSessionEvent::TextReplace(_) => "text_replace"@,
        DesktopSessionEvent::ToolStarted { .. } => "tool_started"@,
        DesktopSessionEvent::ToolExecuting { .. } => "tool_executing"@,
        DesktopSessionEvent::ToolInput { .. } => "tool_input"@,
        DesktopSessionEvent::ToolFinished { .. } => "tool_finished"@,
        DesktopSessionEvent::ModelChanged { .. } => "model_changed"@,
        DesktopSessionEvent::ModelCatalog { .. } => "model_catalog"@,
        DesktopSessionEvent::ModelCatalogError { .. } => "model_catalog_error"@,
        DesktopSessionEvent::StdinRequest { .. } => "stdin_request"@,
        DesktopSessionEvent::ReloadProgress { .. } => "reload_progress"@,
        DesktopSessionEvent::RuntimeMetadata { .. } => "runtime_metadata"@,
        DesktopSessionEvent::TokenUsage { .. } => "token_usage"@,
        DesktopSessionEvent::SystemNotice { .. } => "system_notice"@,
        DesktopSessionEvent::SessionCloseRequested { .. } => "session_close_requested"@,
        DesktopSessionEvent::Reloading { .. } => "reloading"@,
        DesktopSessionEvent::Reloaded { .. } => "reloaded"@,
        DesktopSessionEvent::Done => "done"@,
        DesktopSessionEvent::Error(_) => "error"@,
    }
}

/// The position of an event's kind in the list of kinds.
pub open spec fn event_kind(e: DesktopSessionEvent) -> nat {
    match e {
        DesktopSessionEvent::Status(_) => 0,
        DesktopSessionEvent::SessionStarted { .. } => 1,
        DesktopSessionEvent::SessionRenamed { .. } => 2,
        DesktopSessionEvent::TextDelta(_) => 3,
        DesktopSessionEvent::TextReplace(_) => 4,
        DesktopSessionEvent::ToolStarted { .. } => 5,
        DesktopSessionEvent::ToolExecuting { .. } => 6,
        DesktopSessionEvent::ToolInput { .. } => 7,
        DesktopSessionEvent::ToolFinished { .. } => 8,
        DesktopSessionEvent::ModelChanged { .. } => 9,
        DesktopSessionEvent::ModelCatalog { .. } => 10,
        DesktopSessionEvent::ModelCatalogError { .. } => 11,
        DesktopSessionEvent::StdinRequest { .. } => 12,
        DesktopSessionEvent::ReloadProgress { .. } => 13,
        DesktopSessionEvent::RuntimeMetadata { .. } => 14,
        DesktopSessionEvent::TokenUsage { .. } => 15,
        DesktopSessionEvent::SystemNotice { .. } => 16,
        DesktopSessionEvent::SessionCloseRequested { .. } => 17,
        DesktopSessionEvent::Reloading { .. } => 18,
        DesktopSessionEvent::Reloaded { .. } => 19,
        DesktopSessionEvent::Done => 20,
        DesktopSessionEvent::Error(_) => 21,
    }
}

/// A few characters that tell the type names apart.
spec fn name_signature(n: Seq<char>) -> (int, char, char, char, char) {
    (
        n.len() as int,
        n[0],
        n[1],
        if n.len() > 7 { n[7] } else { ' ' },
        if n.len() > 8 { n[8] } else { ' ' },
    )
}

/// Events of different kinds never share a type name: the name tells the
/// kind.
pub proof fn lemma_event_type_names_distinct(a: DesktopSessionEvent, b: DesktopSessionEvent)
    ensures
        (event_type_name(a) == event_type_name(b)) == (event_kind(a) == event_kind(b)),
{
    reveal_strlit("status");
    reveal_strlit("session_started");
    reveal_strlit("session_renamed");
    reveal_strlit("text_delta");
    reveal_strlit("text_replace");
    reveal_strlit("tool_started");
    reveal_strlit("tool_executing");
    reveal_strlit("tool_input");
    reveal_strlit("tool_finished");
    reveal_strlit("model_changed");
    reveal_strlit("model_catalog");
    reveal_strlit("model_catalog_error");
    reveal_strlit("stdin_request");
    reveal_strlit("reload_progress");
    reveal_strlit("runtime_metadata");
    reveal_strlit("token_usage");
    reveal_strlit("system_notice");
    reveal_strlit("session_close_requested");
    reveal_strlit("reloading");
    reveal_strlit("reloaded");
    reveal_strlit("done");
    reveal_strlit("error");
    assert(name_signature("status"@) == (6int, 's', 't', ' ', ' '));
    assert(name_signature("session_started"@) == (15int, 's', 'e', '_', 's'));
    assert(name_signature("session_renamed"@) == (15int, 's', 'e', '_', 'r'));
    assert(name_signature("text_delta"@) == (10int, 't', 'e', 'l', 't'));
    assert(name_signature("text_replace"@) == (12int, 't', 'e', 'p', 'l'));
    assert(name_signature("tool_started"@) == (12int, 't', 'o', 'a', 'r'));
    assert(name_signature("tool_executing"@) == (14int, 't', 'o', 'e', 'c'));
    assert(name_signature("tool_input"@) == (10int, 't', 'o', 'p', 'u'));
    assert(name_signature("tool_finished"@) == (13int, 't', 'o', 'n', 'i'));
    assert(name_signature("model_changed"@) == (13int, 'm', 'o', 'h', 'a'));
    assert(name_signature("model_catalog"@) == (13int, 'm', 'o', 'a', 't'));
    assert(name_signature("model_catalog_error"@) == (19int, 'm', 'o', 'a', 't'));
    assert(name_signature("stdin_request"@) == (13int, 's', 't', 'e', 'q'));
    assert(name_signature("reload_progress"@) == (15int, 'r', 'e', 'p', 'r'));
    assert(name_signature("runtime_metadata"@) == (16int, 'r', 'u', '_', 'm'));
    assert(name_signature("token_usage"@) == (11int, 't', 'o', 's', 'a'));
    assert(name_signature("system_notice"@) == (13int, 's', 'y', 'n', 'o'));
    assert(name_signature("session_close_requested"@) == (23int, 's', 'e', '_', 'c'));
    assert(name_signature("reloading"@) == (9int, 'r', 'e', 'n', 'g'));
    assert(name_signature("reloaded"@) == (8int, 'r', 'e', 'd', ' '));
    assert(name_signature("done"@) == (4int, 'd', 'o', ' ', ' '));
    assert(name_signature("error"@) == (5int, 'e', 'r', ' ', ' '));
    if event_type_name(a) == event_type_name(b) {
        assert(name_signature(event_type_name(a)) == name_signature(event_type_name(b)));
    }
}

/// `desktop_session_event_type_name`.
pub fn desktop_session_event_type_name(event: &DesktopSessionEvent) -> (r: &'static str)
    ensures
        r@ == event_type_name(*event),
{
    match event {
        DesktopSessionEvent::Status(_) => "status",
        DesktopSessionEvent::SessionStarted { .. } => "session_started",
        DesktopSessionEvent::SessionRenamed { .. } => "session_renamed",
        DesktopSessionEvent::TextDelta(_) => "text_delta",
        DesktopSessionEvent::TextReplace(_) => "text_replace",
        DesktopSessionEvent::ToolStarted { .. } => "tool_started",
        DesktopSessionEvent::ToolExecuting { .. } => "tool_executing",
        DesktopSessionEvent::ToolInput { .. } => "tool_input",
        DesktopSessionEvent::ToolFinished { .. } => "tool_finished",
        DesktopSessionEvent::ModelChanged { .. } => "model_changed",
        DesktopSessionEvent::ModelCatalog { .. } => "model_catalog",
        DesktopSessionEvent::ModelCatalogError { .. } => "model_catalog_error",
        DesktopSessionEvent::StdinRequest { .. } => "stdin_request",
        DesktopSessionEvent::ReloadProgress { .. } => "reload_progress",
        DesktopSessionEvent::RuntimeMetadata { .. } => "runtime_metadata",
        DesktopSessionEvent::TokenUsage { .. } => "token_usage",
        DesktopSessionEvent::SystemNotice { .. } => "system_notice",
        DesktopSessionEvent::SessionCloseRequested { .. } => "session_close_requested",
        DesktopSessionEvent::Reloading { .. } => "reloading",
        DesktopSessionEvent::Reloaded { .. } => "reloaded",
        DesktopSessionEvent::Done => "done",
        DesktopSessionEvent::Error(_) => "error",
    }
}

/// Events after which the session card of the session is reloaded.
pub open spec fn refreshes_session_card(e: DesktopSessionEvent) -> bool {
    e is SessionStarted || e is SessionRenamed || e is Reloaded || e is Done || e is Error
}

/// `desktop_session_event_refreshes_session_card`.
pub fn desktop_session_event_refreshes_session_card(event: &DesktopSessionEvent) -> (r: bool)
    ensures
        r == refreshes_session_card(*event),
        r == (*event is SessionStarted || *event is SessionRenamed || *event is Reloaded
            || *event is Done || *event is Error),
{
    match event {
        DesktopSessionEvent::SessionStarted { .. }
        | DesktopSessionEvent::SessionRenamed { .. }
        | DesktopSessionEvent::Reloaded { .. }
        | DesktopSessionEvent::Done
        | DesktopSessionEvent::Error(_) => true,
        _ => false,
    }
}

/// `desktop_session_event_affects_visible_state`: every event but streamed
/// tool input changes what the window shows.
pub fn desktop_session_event_affects_visible_state(event: &DesktopSessionEvent) -> (r: bool)
    ensures
        r == !(*event is ToolInput),
{
    match event {
        DesktopSessionEvent::ToolInput { .. } => false,
        _ => true,
    }
}

/// What applying a batch of events does, apart from the events themselves.
#[derive(Clone, Copy, Debug, PartialEq, Eq, Structural)]
pub struct DesktopSessionBatchStats {
    pub visible_changed: bool,
    pub event_count: usize,
    pub text_delta_bytes: usize,
    pub session_card_refresh_requested: bool,
}

/// Bytes of streamed text in `events`.
pub open spec fn text_delta_bytes(events: Seq<DesktopSessionEvent>) -> nat
    decreases events.len(),
{
    if events.len() == 0 {
        0
    } else {
        text_delta_bytes(events.drop_last()) + match events.last() {
            DesktopSessionEvent::TextDelta(t) => utf8_len(t@),
            _ => 0,
        }
    }
}

proof fn lemma_text_delta_bytes_prefix(events: Seq<DesktopSessionEvent>, i: int)
    requires
        0 <= i <= events.len(),
    ensures
        text_delta_bytes(events.take(i)) <= text_delta_bytes(events),
    decreases events.len() - i,
{
    if i < events.len() {
        lemma_text_delta_bytes_prefix(events.drop_last(), i);
        assert(events.drop_last().take(i) == events.take(i));
    } else {
        assert(events.take(i) == events);
    }
}

/// `apply_desktop_session_event_batch_with_stats`, apart from applying the
/// events: the window changes when any event but streamed tool input comes,
/// the session cards are reloaded when any event asks for it, and streamed
/// text is counted in bytes.
pub fn desktop_session_event_batch_stats(events: &Vec<DesktopSessionEvent>) -> (r:
    DesktopSessionBatchStats)
    requires
        text_delta_bytes(events@) <= usize::MAX,
    ensures
        r.event_count == events@.len(),
        r.visible_changed == exists|i: int| 0 <= i < events@.len() && !(#[trigger] events@[i] is ToolInput),
        r.session_card_refresh_requested == exists|i: int|
            0 <= i < events@.len() && refreshes_session_card(#[trigger] events@[i]),
        r.session_card_refresh_requested == exists|i: int|
            0 <= i < events@.len() && (#[trigger] events@[i] is SessionStarted
                || events@[i] is SessionRenamed || events@[i] is Reloaded || events@[i] is Done
                || events@[i] is Error),
        r.text_delta_bytes == text_delta_bytes(events@),
{
    let mut visible_changed = false;
    let mut refresh = false;
    let mut bytes: usize = 0;
    let mut i: usize = 0;
    while i < events.len()
        invariant
            i <= events.len(),
            text_delta_bytes(events@) <= usize::MAX,
            visible_changed == exists|j: int| 0 <= j < i && !(#[trigger] events@[j] is ToolInput),
            refresh == exists|j: int| 0 <= j < i && refreshes_session_card(#[trigger] events@[j]),
            bytes == text_delta_bytes(events@.take(i as int)),
        decreases events.len() - i,
    {
        proof {
            assert(events@.take(i + 1).drop_last() == events@.take(i as int));
            lemma_text_delta_bytes_prefix(events@, i + 1);
        }
        let event = &events[i];
        if let DesktopSessionEvent::TextDelta(text) = event {
            let cs = chars_of(text.as_str());
            let n = utf8_len_prefix(cs.as_slice(), cs.len());
            assert(cs@.take(cs@.len() as int) == cs@);
            bytes = bytes + n;
        }
        if desktop_session_event_refreshes_session_card(event) {
            refresh = true;
        }
        if desktop_session_event_affects_visible_state(event) {
            visible_changed = true;
        }
        i = i + 1;
    }
    assert(events@.take(events.len() as int) == events@);
    DesktopSessionBatchStats {
        visible_changed,
        event_count: events.len(),
        text_delta_bytes: bytes,
        session_card_refresh_requested: refresh,
    }
}

/// The session cards are reloaded for a batch exactly when it holds a
/// session start, a rename, a reconnect, a finished turn or an error.
pub proof fn lemma_batch_refreshes_cards(events: Seq<DesktopSessionEvent>)
    ensures
        (exists|i: int| 0 <= i < events.len() && refreshes_session_card(#[trigger] events[i]))
            == (exists|i: int|
            0 <= i < events.len() && (#[trigger] events[i] is SessionStarted
                || events[i] is SessionRenamed || events[i] is Reloaded || events[i] is Done
                || events[i] is Error)),
{
}

/// A tool call id as the wire carries it: empty for none.
pub open spec fn id_text(id: Option<String>) -> Seq<char> {
    match id {
        Some(s) => s@,
        None => Seq::empty(),
    }
}

/// A tool call id as a worker reads it back: none when empty.
pub open spec fn id_from_text(t: Seq<char>) -> Option<Seq<char>> {
    if t.len() == 0 {
        None
    } else {
        Some(t)
    }
}

/// `w` is the wire form of `e`: the kinds a worker understands travel with
/// their fields (text replacement as a text delta, a running tool as a
/// started one); every other kind travels as raw JSON under its type name,
/// with `debug_text` as its payload.
pub open spec fn is_wire_form(
    e: DesktopSessionEvent,
    debug_text: Seq<char>,
    w: DesktopSessionEventWire,
) -> bool {
    match e {
        DesktopSessionEvent::Status(label) => w matches DesktopSessionEventWire::Status { message }
            && message@ == label@,
        DesktopSessionEvent::TextDelta(t) => w matches DesktopSessionEventWire::AssistantTextDelta {
            text,
        } && text@ == t@,
        DesktopSessionEvent::TextReplace(t) => w matches DesktopSessionEventWire::AssistantTextDelta {
            text,
        } && text@ == t@,
        DesktopSessionEvent::ToolStarted { id, name } => w matches DesktopSessionEventWire::ToolStarted {
            id: wid,
            title,
        } && wid@ == id_text(id) && title@ == name@,
        DesktopSessionEvent::ToolExecuting { id, name } => w matches DesktopSessionEventWire::ToolStarted {
            id: wid,
            title,
        } && wid@ == id_text(id) && title@ == name@,
        DesktopSessionEvent::ToolFinished { id, name, is_error, .. } => w matches DesktopSessionEventWire::ToolFinished {
            id: wid,
            title,
            success,
        } && wid@ == id_text(id) && title@ == name@ && success == !is_error,
        DesktopSessionEvent::Error(m) => w matches DesktopSessionEventWire::Error { message }
            && message@ == m@,
        _ => w matches DesktopSessionEventWire::RawJson { event_type, payload } && event_type@
            == event_type_name(e) && payload@ == debug_text,
    }
}

/// `r` is what a worker rebuilds from `w`; raw JSON gives nothing.
pub open spec fn is_runtime_form(w: DesktopSessionEventWire, r: Option<DesktopSessionEvent>) -> bool {
    match w {
        DesktopSessionEventWire::Status { message } => r matches Some(
            DesktopSessionEvent::Status(label),
        ) && label@ == message@,
        DesktopSessionEventWire::AssistantTextDelta { text } => r matches Some(
            DesktopSessionEvent::TextDelta(t),
        ) && t@ == text@,
        DesktopSessionEventWire::ToolStarted { id, title } => r matches Some(
            DesktopSessionEvent::ToolStarted { id: rid, name },
        ) && opt_view(rid) == id_from_text(id@) && name@ == title@,
        DesktopSessionEventWire::ToolFinished { id, title, success } => r matches Some(
            DesktopSessionEvent::ToolFinished { id: rid, name, summary, is_error },
        ) && opt_view(rid) == id_from_text(id@) && name@ == title@ && summary@.len() == 0
            && is_error == !success,
        DesktopSessionEventWire::Error { message } => r matches Some(DesktopSessionEvent::Error(m))
            && m@ == message@,
        DesktopSessionEventWire::RawJson { .. } => r is None,
    }
}

fn id_or_empty(id: &Option<String>) -> (r: String)
    ensures
        r@ == id_text(*id),
{
    match id {
        Some(s) => s.clone(),
        None => String::new(),
    }
}

/// `desktop_session_event_to_wire`: the form in which the host forwards an
/// event to an app worker. An event forwarded as raw JSON carries
/// `debug_text`, the event's debug rendering, which the caller supplies.
pub fn desktop_session_event_to_wire(event: &DesktopSessionEvent, debug_text: String) -> (r:
    DesktopSessionEventWire)
    ensures
        is_wire_form(*event, debug_text@, r),
{
    match event {
        DesktopSessionEvent::Status(label) => DesktopSessionEventWire::Status {
            message: label.clone(),
        },
        DesktopSessionEvent::TextDelta(text) => DesktopSessionEventWire::AssistantTextDelta {
            text: text.clone(),
        },
        DesktopSessionEvent::TextReplace(text) => DesktopSessionEventWire::AssistantTextDelta {
            text: text.clone(),
        },
        DesktopSessionEvent::ToolStarted { id, name } => DesktopSessionEventWire::ToolStarted {
            id: id_or_empty(id),
            title: name.clone(),
        },
        DesktopSessionEvent::ToolExecuting { id, name } => DesktopSessionEventWire::ToolStarted {
            id: id_or_empty(id),
            title: name.clone(),
        },
        DesktopSessionEvent::ToolFinished { id, name, is_error, .. } => {
            DesktopSessionEventWire::ToolFinished {
                id: id_or_empty(id),
                title: name.clone(),
                success: !*is_error,
            }
        },
        DesktopSessionEvent::Error(message) => DesktopSessionEventWire::Error {
            message: message.clone(),
        },
        other => DesktopSessionEventWire::RawJson {
            event_type: desktop_session_event_type_name(other).to_string(),
            payload: debug_text,
        },
    }
}

fn id_from_wire(id: String) -> (r: Option<String>)
    ensures
        opt_view(r) == id_from_text(id@),
{
    if chars_of(id.as_str()).len() == 0 {
        None
    } else {
        Some(id)
    }
}

/// `desktop_wire_session_event_to_runtime_event`: the event a worker rebuilds
/// from the wire; raw JSON is not rebuilt.
pub fn desktop_wire_session_event_to_runtime_event(event: DesktopSessionEventWire) -> (r: Option<
    DesktopSessionEvent,
>)
    ensures
        is_runtime_form(event, r),
{
    match event {
        DesktopSessionEventWire::Status { message } => Some(DesktopSessionEvent::Status(message)),
        DesktopSessionEventWire::AssistantTextDelta { text } => Some(
            DesktopSessionEvent::TextDelta(text),
        ),
        DesktopSessionEventWire::ToolStarted { id, title } => Some(
            DesktopSessionEvent::ToolStarted { id: id_from_wire(id), name: title },
        ),
        DesktopSessionEventWire::ToolFinished { id, title, success } => Some(
            DesktopSessionEvent::ToolFinished {
                id: id_from_wire(id),
                name: title,
                summary: String::new(),
                is_error: !success,
            },
        ),
        DesktopSessionEventWire::Error { message } => Some(DesktopSessionEvent::Error(message)),
        DesktopSessionEventWire::RawJson { .. } => None,
    }
}

/// The events a worker rebuilds exactly from their wire form.
pub open spec fn survives_wire(e: DesktopSessionEvent) -> bool {
    match e {
        DesktopSessionEvent::Status(_) => true,
        DesktopSessionEvent::TextDelta(_) => true,
        DesktopSessionEvent::Error(_) => true,
        DesktopSessionEvent::ToolStarted { id, .. } => !(id matches Some(s) && s@.len() == 0),
        DesktopSessionEvent::ToolFinished { id, summary, .. } => !(id matches Some(s) && s@.len()
            == 0) && summary@.len() == 0,
        _ => false,
    }
}

/// `a` and `b` are the same event, strings compared by their characters.
pub open spec fn same_event(a: DesktopSessionEvent, b: DesktopSessionEvent) -> bool {
    match (a, b) {
        (DesktopSessionEvent::Status(x), DesktopSessionEvent::Status(y)) => x@ == y@,
        (DesktopSessionEvent::TextDelta(x), DesktopSessionEvent::TextDelta(y)) => x@ == y@,
        (DesktopSessionEvent::Error(x), DesktopSessionEvent::Error(y)) => x@ == y@,
        (
            DesktopSessionEvent::ToolStarted { id: i1, name: n1 },
            DesktopSessionEvent::ToolStarted { id: i2, name: n2 },
        ) => opt_view(i1) == opt_view(i2) && n1@ == n2@,
        (
            DesktopSessionEvent::ToolFinished { id: i1, name: n1, summary: s1, is_error: e1 },
            DesktopSessionEvent::ToolFinished { id: i2, name: n2, summary: s2, is_error: e2 },
        ) => opt_view(i1) == opt_view(i2) && n1@ == n2@ && s1@ == s2@ && e1 == e2,
        _ => false,
    }
}

/// Forwarding a status, text delta, tool start, tool finish (without a
/// summary) or error to a worker and rebuilding it there gives back the same
/// event; an empty tool id is read back as no id.
pub proof fn lemma_session_event_wire_round_trip(
    e: DesktopSessionEvent,
    d: Seq<char>,
    w: DesktopSessionEventWire,
    r: Option<DesktopSessionEvent>,
)
    requires
        survives_wire(e),
        is_wire_form(e, d, w),
        is_runtime_form(w, r),
    ensures
        r matches Some(back) && same_event(back, e),
{
    if e is ToolStarted {
        assert(id_from_text(id_text(e->ToolStarted_id)) == opt_view(e->ToolStarted_id));
    } else if e is ToolFinished {
        assert(id_from_text(id_text(e->ToolFinished_id)) == opt_view(e->ToolFinished_id));
        assert(r->0->ToolFinished_summary@ =~= e->ToolFinished_summary@);
    }
}

} // verus!
