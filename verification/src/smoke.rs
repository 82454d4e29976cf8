//! The headless chat smoke run: a fresh session is sent one message, and each
//! event it reports is echoed as one JSON line until the run succeeds (the
//! session finished with assistant text) or fails (the session failed, was
//! closed, went away, or the time ran out).
use vstd::prelude::*;
use crate::events::DesktopSessionEvent;
use crate::text::{
    chars_of, decimal, extend_chars, opt_view, slice_chars, string_from_chars, trim, trim_str,
    u64_decimal,
};

verus! {

broadcast use vstd::string::group_string_axioms;

/// Seconds the smoke run waits for the session to finish.
pub const HEADLESS_CHAT_SMOKE_TIMEOUT_SECS: u64 = 90;

/// Characters of the response shown in the final report.
pub const HEADLESS_CHAT_SMOKE_PREVIEW_CHARS: usize = 240;

/// A value in a reported JSON line.
#[derive(Clone, Debug)]
pub enum SmokeJson {
    Text(String),
    Count(u64),
    Flag(bool),
    Null,
}

/// What `SmokeJson` holds.
pub enum SmokeJsonView {
    Text(Seq<char>),
    Count(int),
    Flag(bool),
    Null,
}

impl View for SmokeJson {
    type V = SmokeJsonView;

    open spec fn view(&self) -> SmokeJsonView {
        match self {
            SmokeJson::Text(s) => SmokeJsonView::Text(s@),
            SmokeJson::Count(n) => SmokeJsonView::Count(*n as int),
            SmokeJson::Flag(b) => SmokeJsonView::Flag(*b),
            SmokeJson::Null => SmokeJsonView::Null,
        }
    }
}

/// A JSON object line, its fields in order.
pub type SmokeLine = Vec<(&'static str, SmokeJson)>;

/// The fields of a line.
pub open spec fn line_view(line: Seq<(&'static str, SmokeJson)>) -> Seq<
    (Seq<char>, SmokeJsonView),
> {
    line.map_values(|f: (&'static str, SmokeJson)| (f.0@, f.1@))
}

/// What the smoke run does after an event.
#[derive(Clone, Debug)]
pub enum HeadlessSmokeAction {
    /// Nothing: the run is over.
    Nothing,
    /// Print the line and wait for the next event.
    Print(SmokeLine),
    /// Print the line and end the run successfully.
    Succeed(SmokeLine),
    /// End the run with this error.
    Fail(String),
}

/// What `HeadlessSmokeAction` holds.
pub enum HeadlessSmokeActionView {
    Nothing,
    Print(Seq<(Seq<char>, SmokeJsonView)>),
    Succeed(Seq<(Seq<char>, SmokeJsonView)>),
    Fail(Seq<char>),
}

impl View for HeadlessSmokeAction {
    type V = HeadlessSmokeActionView;

    open spec fn view(&self) -> HeadlessSmokeActionView {
        match self {
            HeadlessSmokeAction::Nothing => HeadlessSmokeActionView::Nothing,
            HeadlessSmokeAction::Print(l) => HeadlessSmokeActionView::Print(line_view(l@)),
            HeadlessSmokeAction::Succeed(l) => HeadlessSmokeActionView::Succeed(line_view(l@)),
            HeadlessSmokeAction::Fail(m) => HeadlessSmokeActionView::Fail(m@),
        }
    }
}

/// What the smoke run learns while it waits.
pub enum HeadlessSmokeEvent {
    /// The session reported an event.
    Session(DesktopSessionEvent),
    /// The session's channel closed.
    Disconnected,
    /// The time ran out.
    TimedOut,
}

/// The smoke run's memory: the session id, the assistant text so far, the
/// last status worth reporting, and whether the run is over.
#[derive(Clone, Debug)]
pub struct HeadlessSmokeState {
    pub session_id: Option<String>,
    pub response: String,
    pub last_status: Option<String>,
    pub finished: bool,
}

/// What `HeadlessSmokeState` holds.
pub struct HeadlessSmokeStateView {
    pub session_id: Option<Seq<char>>,
    pub response: Seq<char>,
    pub last_status: Option<Seq<char>>,
    pub finished: bool,
}

impl View for HeadlessSmokeState {
    type V = HeadlessSmokeStateView;

    open spec fn view(&self) -> HeadlessSmokeStateView {
        HeadlessSmokeStateView {
            session_id: opt_view(self.session_id),
            response: self.response@,
            last_status: opt_view(self.last_status),
            finished: self.finished,
        }
    }
}

/// An optional text, or `unknown`.
pub open spec fn or_unknown(o: Option<Seq<char>>) -> Seq<char> {
    match o {
        Some(s) => s,
        None => "unknown"@,
    }
}

/// An optional text as a JSON value: the text, or null.
pub open spec fn opt_text(o: Option<String>) -> SmokeJsonView {
    match o {
        Some(s) => SmokeJsonView::Text(s@),
        None => SmokeJsonView::Null,
    }
}

/// An optional count as a JSON value.
pub open spec fn opt_count(o: Option<u64>) -> SmokeJsonView {
    match o {
        Some(n) => SmokeJsonView::Count(n as int),
        None => SmokeJsonView::Null,
    }
}

/// An optional flag as a JSON value.
pub open spec fn opt_flag(o: Option<bool>) -> SmokeJsonView {
    match o {
        Some(b) => SmokeJsonView::Flag(b),
        None => SmokeJsonView::Null,
    }
}

/// An optional text as a JSON value, from its characters.
pub open spec fn opt_seq_text(o: Option<Seq<char>>) -> SmokeJsonView {
    match o {
        Some(t) => SmokeJsonView::Text(t),
        None => SmokeJsonView::Null,
    }
}

/// The first characters of a response, as many as the final report shows.
pub open spec fn preview(response: Seq<char>) -> Seq<char> {
    if response.len() < HEADLESS_CHAT_SMOKE_PREVIEW_CHARS {
        response
    } else {
        response.take(HEADLESS_CHAT_SMOKE_PREVIEW_CHARS as int)
    }
}

/// The `event` field of a line.
pub open spec fn tag(name: Seq<char>) -> (Seq<char>, SmokeJsonView) {
    ("event"@, SmokeJsonView::Text(name))
}

/// The state after the last status changes to `status`.
pub open spec fn with_status(s: HeadlessSmokeStateView, status: Seq<char>) -> (r:
    HeadlessSmokeStateView) {
    HeadlessSmokeStateView { last_status: Some(status), ..s }
}

/// The run ended with `message`.
pub open spec fn failed(s: HeadlessSmokeStateView, message: Seq<char>) -> (
    HeadlessSmokeStateView,
    HeadlessSmokeActionView,
) {
    (HeadlessSmokeStateView { finished: true, ..s }, HeadlessSmokeActionView::Fail(message))
}

/// The status label shown for a model change.
pub open spec fn model_label(model: Seq<char>, provider_name: Option<Seq<char>>) -> Seq<char> {
    match provider_name {
        Some(p) => p + " · "@ + model,
        None => model,
    }
}

/// What the smoke run does with a session event while it runs.
pub open spec fn session_event_step(s: HeadlessSmokeStateView, e: DesktopSessionEvent) -> (
    HeadlessSmokeStateView,
    HeadlessSmokeActionView,
) {
    match e {
        DesktopSessionEvent::Status(status) => (
            with_status(s, status@),
            HeadlessSmokeActionView::Print(
                seq![tag("status"@)].push(("status"@, SmokeJsonView::Text(status@))),
            ),
        ),
        DesktopSessionEvent::SessionStarted { session_id } => (
            HeadlessSmokeStateView { session_id: Some(session_id@), ..s },
            HeadlessSmokeActionView::Print(
                seq![tag("session"@)].push(("session_id"@, SmokeJsonView::Text(session_id@))),
            ),
        ),
        DesktopSessionEvent::SessionRenamed { title, display_title } => (
            with_status(
                s,
                if title is Some {
                    "renamed session to "@ + display_title@
                } else {
                    "cleared session name; title is now "@ + display_title@
                },
            ),
            HeadlessSmokeActionView::Print(
                seq![tag("session_renamed"@)]
                    .push(("title"@, opt_text(title)))
                    .push(("display_title"@, SmokeJsonView::Text(display_title@))),
            ),
        ),
        DesktopSessionEvent::Reloaded { session_id } => (
            HeadlessSmokeStateView {
                session_id: Some(session_id@),
                last_status: Some("server reconnected"@),
                ..s
            },
            HeadlessSmokeActionView::Print(
                seq![tag("reloaded"@)].push(("session_id"@, SmokeJsonView::Text(session_id@))),
            ),
        ),
        DesktopSessionEvent::TextDelta(text) => (
            HeadlessSmokeStateView { response: s.response + text@, ..s },
            HeadlessSmokeActionView::Print(
                seq![tag("text_delta"@)]
                    .push(("chars"@, SmokeJsonView::Count(text@.len() as int))),
            ),
        ),
        DesktopSessionEvent::TextReplace(text) => (
            HeadlessSmokeStateView { response: text@, ..s },
            HeadlessSmokeActionView::Print(
                seq![tag("text_replace"@)]
                    .push(("chars"@, SmokeJsonView::Count(text@.len() as int))),
            ),
        ),
        DesktopSessionEvent::ToolStarted { id, name } => (
            with_status(s, "preparing tool "@ + name@),
            HeadlessSmokeActionView::Print(
                seq![tag("tool_started"@)]
                    .push(("id"@, opt_text(id)))
                    .push(("name"@, SmokeJsonView::Text(name@))),
            ),
        ),
        DesktopSessionEvent::ToolExecuting { id, name } => (
            with_status(s, "using tool "@ + name@),
            HeadlessSmokeActionView::Print(
                seq![tag("tool_executing"@)]
                    .push(("id"@, opt_text(id)))
                    .push(("name"@, SmokeJsonView::Text(name@))),
            ),
        ),
        DesktopSessionEvent::ToolInput { id, delta } => (
            s,
            HeadlessSmokeActionView::Print(
                seq![tag("tool_input"@)]
                    .push(("id"@, opt_text(id)))
                    .push(("chars"@, SmokeJsonView::Count(delta@.len() as int))),
            ),
        ),
        DesktopSessionEvent::ToolFinished { id, name, summary, is_error } => (
            with_status(
                s,
                "tool "@ + name@ + if is_error {
                    " failed"@
                } else {
                    " done"@
                },
            ),
            HeadlessSmokeActionView::Print(
                seq![tag("tool_finished"@)]
                    .push(("id"@, opt_text(id)))
                    .push(("name"@, SmokeJsonView::Text(name@)))
                    .push(("summary"@, SmokeJsonView::Text(summary@)))
                    .push(("is_error"@, SmokeJsonView::Flag(is_error))),
            ),
        ),
        DesktopSessionEvent::Reloading { new_socket } => (
            with_status(s, "server reloading, reconnecting"@),
            HeadlessSmokeActionView::Print(
                seq![tag("reloading"@)].push(("new_socket"@, opt_text(new_socket))),
            ),
        ),
        DesktopSessionEvent::ModelChanged { model, provider_name, error } => match error {
            Some(err) => (
                with_status(s, "model switch failed: "@ + err@),
                HeadlessSmokeActionView::Print(
                    seq![tag("model_changed"@)]
                        .push(("model"@, SmokeJsonView::Text(model@)))
                        .push(("provider_name"@, opt_text(provider_name)))
                        .push(("error"@, SmokeJsonView::Text(err@))),
                ),
            ),
            None => (
                with_status(s, "model: "@ + model_label(model@, opt_view(provider_name))),
                HeadlessSmokeActionView::Print(
                    seq![tag("model_changed"@)]
                        .push(("model"@, SmokeJsonView::Text(model@)))
                        .push(("provider_name"@, opt_text(provider_name))),
                ),
            ),
        },
        DesktopSessionEvent::ModelCatalog { current_model, provider_name, models } => (
            with_status(s, "models loaded ("@ + decimal(models@.len()) + ")"@),
            HeadlessSmokeActionView::Print(
                seq![tag("model_catalog"@)]
                    .push(("current_model"@, opt_text(current_model)))
                    .push(("provider_name"@, opt_text(provider_name)))
                    .push(("models"@, SmokeJsonView::Count(models@.len() as int))),
            ),
        ),
        DesktopSessionEvent::ModelCatalogError { error } => (
            with_status(s, "model picker error: "@ + error@),
            HeadlessSmokeActionView::Print(
                seq![tag("model_catalog_error"@)].push(("error"@, SmokeJsonView::Text(error@))),
            ),
        ),
        DesktopSessionEvent::StdinRequest { request_id, prompt, is_password, tool_call_id } => (
            with_status(s, "interactive input requested"@),
            HeadlessSmokeActionView::Print(
                seq![tag("stdin_request"@)]
                    .push(("request_id"@, SmokeJsonView::Text(request_id@)))
                    .push(("prompt"@, SmokeJsonView::Text(prompt@)))
                    .push(("is_password"@, SmokeJsonView::Flag(is_password)))
                    .push(("tool_call_id"@, opt_text(tool_call_id))),
            ),
        ),
        DesktopSessionEvent::ReloadProgress { step, message, success, output } => (
            with_status(s, "reload "@ + step@ + ": "@ + message@),
            HeadlessSmokeActionView::Print(
                seq![tag("reload_progress"@)]
                    .push(("step"@, SmokeJsonView::Text(step@)))
                    .push(("message"@, SmokeJsonView::Text(message@)))
                    .push(("success"@, opt_flag(success)))
                    .push(("output"@, opt_text(output))),
            ),
        ),
        DesktopSessionEvent::RuntimeMetadata {
            connection_type,
            status_detail,
            upstream_provider,
        } => (
            match status_detail {
                Some(d) => with_status(s, d@),
                None => s,
            },
            HeadlessSmokeActionView::Print(
                seq![tag("runtime_metadata"@)]
                    .push(("connection_type"@, opt_text(connection_type)))
                    .push(("status_detail"@, opt_text(status_detail)))
                    .push(("upstream_provider"@, opt_text(upstream_provider))),
            ),
        ),
        DesktopSessionEvent::TokenUsage {
            input,
            output,
            cache_read_input,
            cache_creation_input,
        } => (
            s,
            HeadlessSmokeActionView::Print(
                seq![tag("tokens"@)]
                    .push(("input"@, SmokeJsonView::Count(input as int)))
                    .push(("output"@, SmokeJsonView::Count(output as int)))
                    .push(("cache_read_input"@, opt_count(cache_read_input)))
                    .push(("cache_creation_input"@, opt_count(cache_creation_input))),
            ),
        ),
        DesktopSessionEvent::SystemNotice { title, message } => (
            with_status(s, title@),
            HeadlessSmokeActionView::Print(
                seq![tag("system_notice"@)]
                    .push(("title"@, SmokeJsonView::Text(title@)))
                    .push(("message"@, SmokeJsonView::Text(message@))),
            ),
        ),
        DesktopSessionEvent::SessionCloseRequested { reason } => failed(
            s,
            "desktop chat smoke session close requested; session_id="@ + or_unknown(s.session_id)
                + "; reason="@ + reason@,
        ),
        DesktopSessionEvent::Done => {
            let response = trim(s.response);
            if response.len() == 0 {
                failed(
                    s,
                    "desktop chat smoke completed without assistant text; session_id="@
                        + or_unknown(s.session_id) + "; last_status="@ + or_unknown(
                        s.last_status,
                    ),
                )
            } else {
                (
                    HeadlessSmokeStateView { finished: true, ..s },
                    HeadlessSmokeActionView::Succeed(
                        seq![tag("ok"@)]
                            .push(("session_id"@, opt_seq_text(s.session_id)))
                            .push(("response_chars"@, SmokeJsonView::Count(response.len() as int)))
                            .push(("response_preview"@, SmokeJsonView::Text(preview(response)))),
                    ),
                )
            }
        },
        DesktopSessionEvent::Error(error) => failed(
            s,
            "desktop chat smoke failed; session_id="@ + or_unknown(s.session_id) + "; error="@
                + error@,
        ),
    }
}

/// One step of the smoke run: a finished run ignores everything; otherwise
/// session events are echoed as above, a closed channel or the timeout ends
/// the run with an error that carries what is known so far.
pub open spec fn headless_smoke_step_spec(s: HeadlessSmokeStateView, e: HeadlessSmokeEvent) -> (
    HeadlessSmokeStateView,
    HeadlessSmokeActionView,
) {
    if s.finished {
        (s, HeadlessSmokeActionView::Nothing)
    } else {
        match e {
            HeadlessSmokeEvent::Session(event) => session_event_step(s, event),
            HeadlessSmokeEvent::Disconnected => failed(
                s,
                "desktop chat smoke worker disconnected before completion; last_status="@
                    + or_unknown(s.last_status),
            ),
            HeadlessSmokeEvent::TimedOut => failed(
                s,
                "desktop chat smoke timed out after "@ + decimal(
                    HEADLESS_CHAT_SMOKE_TIMEOUT_SECS as nat,
                ) + "s; session_id="@ + or_unknown(s.session_id) + "; response_chars="@
                    + decimal(s.response.len()) + "; last_status="@ + or_unknown(s.last_status),
            ),
        }
    }
}

// ---------------------------------------------------------------------------
// Building text
// ---------------------------------------------------------------------------

fn push_str(out: &mut Vec<char>, s: &str)
    ensures
        final(out)@ == old(out)@ + s@,
{
    let cs = chars_of(s);
    extend_chars(out, cs.as_slice());
}

fn join2(a: &str, b: &str) -> (r: String)
    ensures
        r@ == a@ + b@,
{
    let mut out: Vec<char> = Vec::new();
    push_str(&mut out, a);
    push_str(&mut out, b);
    assert(out@ =~= a@ + b@);
    string_from_chars(out.as_slice())
}

fn or_unknown_str(o: &Option<String>) -> (r: &str)
    ensures
        r@ == or_unknown(opt_view(*o)),
{
    match o {
        Some(s) => s.as_str(),
        None => "unknown",
    }
}

fn text_of(s: &String) -> (r: SmokeJson)
    ensures
        r@ == SmokeJsonView::Text(s@),
{
    SmokeJson::Text(s.clone())
}

fn opt_text_of(o: &Option<String>) -> (r: SmokeJson)
    ensures
        r@ == opt_text(*o),
{
    match o {
        Some(s) => SmokeJson::Text(s.clone()),
        None => SmokeJson::Null,
    }
}

fn opt_count_of(o: Option<u64>) -> (r: SmokeJson)
    ensures
        r@ == opt_count(o),
{
    match o {
        Some(n) => SmokeJson::Count(n),
        None => SmokeJson::Null,
    }
}

fn opt_flag_of(o: Option<bool>) -> (r: SmokeJson)
    ensures
        r@ == opt_flag(o),
{
    match o {
        Some(b) => SmokeJson::Flag(b),
        None => SmokeJson::Null,
    }
}

fn count_chars(s: &String) -> (r: SmokeJson)
    ensures
        r@ == SmokeJsonView::Count(s@.len() as int),
{
    let n = chars_of(s.as_str()).len();
    SmokeJson::Count(n as u64)
}

fn clone_opt(o: &Option<String>) -> (r: Option<String>)
    ensures
        opt_view(r) == opt_view(*o),
{
    match o {
        Some(s) => Some(s.clone()),
        None => None,
    }
}

fn tag_of(name: &'static str) -> (r: (&'static str, SmokeJson))
    ensures
        (r.0@, r.1@) == tag(name@),
{
    ("event", SmokeJson::Text(name.to_string()))
}

fn line1(a: (&'static str, SmokeJson)) -> (r: SmokeLine)
    ensures
        line_view(r@) == seq![(a.0@, a.1@)],
{
    let v = vec![a];
    proof {
        assert(line_view(v@) =~= seq![(a.0@, a.1@)]);
    }
    v
}

fn push_field(line: &mut SmokeLine, key: &'static str, value: SmokeJson)
    ensures
        line_view(final(line)@) == line_view(old(line)@).push((key@, value@)),
{
    line.push((key, value));
    proof {
        assert(line_view(line@) =~= line_view(old(line)@).push((key@, value@)));
    }
}

// ---------------------------------------------------------------------------
// The step
// ---------------------------------------------------------------------------

/// Starts a smoke run for `message`: the message must hold more than
/// whitespace, and the run starts with nothing known.
pub fn headless_smoke_start(message: &str) -> (r: Result<HeadlessSmokeState, String>)
    ensures
        trim(message@).len() == 0 <==> r is Err,
        r matches Err(e) ==> e@ == "headless chat smoke message cannot be empty"@,
        r matches Ok(st) ==> st@ == (HeadlessSmokeStateView {
            session_id: None,
            response: Seq::empty(),
            last_status: None,
            finished: false,
        }),
{
    let t = trim_str(message);
    if t.len() == 0 {
        Err("headless chat smoke message cannot be empty".to_string())
    } else {
        Ok(HeadlessSmokeState {
            session_id: None,
            response: String::new(),
            last_status: None,
            finished: false,
        })
    }
}

fn status_line(state: &mut HeadlessSmokeState, status: String)
    ensures
        final(state)@ == with_status(old(state)@, status@),
{
    state.last_status = Some(status);
}

fn fail_with(state: &mut HeadlessSmokeState, message: Vec<char>) -> (r: HeadlessSmokeAction)
    ensures
        (final(state)@, r@) == failed(old(state)@, message@),
{
    state.finished = true;
    HeadlessSmokeAction::Fail(string_from_chars(message.as_slice()))
}

fn session_step(state: &mut HeadlessSmokeState, event: DesktopSessionEvent) -> (r:
    HeadlessSmokeAction)
    ensures
        (final(state)@, r@) == session_event_step(old(state)@, event),
{
    match event {
        DesktopSessionEvent::Status(status) => {
            let mut line = line1(tag_of("status"));
            push_field(&mut line, "status", text_of(&status));
            status_line(state, status);
            HeadlessSmokeAction::Print(line)
        },
        DesktopSessionEvent::SessionStarted { session_id } => {
            let mut line = line1(tag_of("session"));
            push_field(&mut line, "session_id", text_of(&session_id));
            state.session_id = Some(session_id);
            HeadlessSmokeAction::Print(line)
        },
        DesktopSessionEvent::SessionRenamed { title, display_title } => {
            let status = if title.is_some() {
                join2("renamed session to ", display_title.as_str())
            } else {
                join2("cleared session name; title is now ", display_title.as_str())
            };
            let mut line = line1(tag_of("session_renamed"));
            push_field(&mut line, "title", opt_text_of(&title));
            push_field(&mut line, "display_title", text_of(&display_title));
            status_line(state, status);
            HeadlessSmokeAction::Print(line)
        },
        DesktopSessionEvent::Reloaded { session_id } => {
            let mut line = line1(tag_of("reloaded"));
            push_field(&mut line, "session_id", text_of(&session_id));
            state.session_id = Some(session_id);
            state.last_status = Some("server reconnected".to_string());
            HeadlessSmokeAction::Print(line)
        },
        DesktopSessionEvent::TextDelta(text) => {
            let mut line = line1(tag_of("text_delta"));
            push_field(&mut line, "chars", count_chars(&text));
            state.response = join2(state.response.as_str(), text.as_str());
            HeadlessSmokeAction::Print(line)
        },
        DesktopSessionEvent::TextReplace(text) => {
            let mut line = line1(tag_of("text_replace"));
            push_field(&mut line, "chars", count_chars(&text));
            state.response = text;
            HeadlessSmokeAction::Print(line)
        },
        DesktopSessionEvent::ToolStarted { id, name } => {
            let mut line = line1(tag_of("tool_started"));
            push_field(&mut line, "id", opt_text_of(&id));
            push_field(&mut line, "name", text_of(&name));
            status_line(state, join2("preparing tool ", name.as_str()));
            HeadlessSmokeAction::Print(line)
        },
        DesktopSessionEvent::ToolExecuting { id, name } => {
            let mut line = line1(tag_of("tool_executing"));
            push_field(&mut line, "id", opt_text_of(&id));
            push_field(&mut line, "name", text_of(&name));
            status_line(state, join2("using tool ", name.as_str()));
            HeadlessSmokeAction::Print(line)
        },
        DesktopSessionEvent::ToolInput { id, delta } => {
            let mut line = line1(tag_of("tool_input"));
            push_field(&mut line, "id", opt_text_of(&id));
            push_field(&mut line, "chars", count_chars(&delta));
            HeadlessSmokeAction::Print(line)
        },
        DesktopSessionEvent::ToolFinished { id, name, summary, is_error } => {
            let mut out: Vec<char> = Vec::new();
            push_str(&mut out, "tool ");
            push_str(&mut out, name.as_str());
            push_str(&mut out, if is_error { " failed" } else { " done" });
            let mut line = line1(tag_of("tool_finished"));
            push_field(&mut line, "id", opt_text_of(&id));
            push_field(&mut line, "name", text_of(&name));
            push_field(&mut line, "summary", text_of(&summary));
            push_field(&mut line, "is_error", SmokeJson::Flag(is_error));
            status_line(state, string_from_chars(out.as_slice()));
            HeadlessSmokeAction::Print(line)
        },
        DesktopSessionEvent::Reloading { new_socket } => {
            let mut line = line1(tag_of("reloading"));
            push_field(&mut line, "new_socket", opt_text_of(&new_socket));
            status_line(state, "server reloading, reconnecting".to_string());
            HeadlessSmokeAction::Print(line)
        },
        DesktopSessionEvent::ModelChanged { model, provider_name, error } => {
            let mut line = line1(tag_of("model_changed"));
            push_field(&mut line, "model", text_of(&model));
            push_field(&mut line, "provider_name", opt_text_of(&provider_name));
            match error {
                Some(err) => {
                    push_field(&mut line, "error", text_of(&err));
                    status_line(state, join2("model switch failed: ", err.as_str()));
                },
                None => {
                    let mut out: Vec<char> = Vec::new();
                    push_str(&mut out, "model: ");
                    match &provider_name {
                        Some(p) => {
                            push_str(&mut out, p.as_str());
                            push_str(&mut out, " · ");
                        },
                        None => {},
                    }
                    push_str(&mut out, model.as_str());
                    proof {
                        assert(out@ =~= "model: "@ + model_label(model@, opt_view(provider_name)));
                    }
                    status_line(state, string_from_chars(out.as_slice()));
                },
            }
            HeadlessSmokeAction::Print(line)
        },
        DesktopSessionEvent::ModelCatalog { current_model, provider_name, models } => {
            let mut out: Vec<char> = Vec::new();
            push_str(&mut out, "models loaded (");
            let digits = u64_decimal(models.len() as u64);
            extend_chars(&mut out, digits.as_slice());
            push_str(&mut out, ")");
            let mut line = line1(tag_of("model_catalog"));
            push_field(&mut line, "current_model", opt_text_of(&current_model));
            push_field(&mut line, "provider_name", opt_text_of(&provider_name));
            push_field(&mut line, "models", SmokeJson::Count(models.len() as u64));
            status_line(state, string_from_chars(out.as_slice()));
            HeadlessSmokeAction::Print(line)
        },
        DesktopSessionEvent::ModelCatalogError { error } => {
            let mut line = line1(tag_of("model_catalog_error"));
            push_field(&mut line, "error", text_of(&error));
            status_line(state, join2("model picker error: ", error.as_str()));
            HeadlessSmokeAction::Print(line)
        },
        DesktopSessionEvent::StdinRequest { request_id, prompt, is_password, tool_call_id } => {
            let mut line = line1(tag_of("stdin_request"));
            push_field(&mut line, "request_id", text_of(&request_id));
            push_field(&mut line, "prompt", text_of(&prompt));
            push_field(&mut line, "is_password", SmokeJson::Flag(is_password));
            push_field(&mut line, "tool_call_id", opt_text_of(&tool_call_id));
            status_line(state, "interactive input requested".to_string());
            HeadlessSmokeAction::Print(line)
        },
        DesktopSessionEvent::ReloadProgress { step, message, success, output } => {
            let mut out: Vec<char> = Vec::new();
            push_str(&mut out, "reload ");
            push_str(&mut out, step.as_str());
            push_str(&mut out, ": ");
            push_str(&mut out, message.as_str());
            let mut line = line1(tag_of("reload_progress"));
            push_field(&mut line, "step", text_of(&step));
            push_field(&mut line, "message", text_of(&message));
            push_field(&mut line, "success", opt_flag_of(success));
            push_field(&mut line, "output", opt_text_of(&output));
            status_line(state, string_from_chars(out.as_slice()));
            HeadlessSmokeAction::Print(line)
        },
        DesktopSessionEvent::RuntimeMetadata {
            connection_type,
            status_detail,
            upstream_provider,
        } => {
            let mut line = line1(tag_of("runtime_metadata"));
            push_field(&mut line, "connection_type", opt_text_of(&connection_type));
            push_field(&mut line, "status_detail", opt_text_of(&status_detail));
            push_field(&mut line, "upstream_provider", opt_text_of(&upstream_provider));
            match status_detail {
                Some(d) => status_line(state, d),
                None => {},
            }
            HeadlessSmokeAction::Print(line)
        },
        DesktopSessionEvent::TokenUsage {
            input,
            output,
            cache_read_input,
            cache_creation_input,
        } => {
            let mut line = line1(tag_of("tokens"));
            push_field(&mut line, "input", SmokeJson::Count(input));
            push_field(&mut line, "output", SmokeJson::Count(output));
            push_field(&mut line, "cache_read_input", opt_count_of(cache_read_input));
            push_field(&mut line, "cache_creation_input", opt_count_of(cache_creation_input));
            HeadlessSmokeAction::Print(line)
        },
        DesktopSessionEvent::SystemNotice { title, message } => {
            let mut line = line1(tag_of("system_notice"));
            push_field(&mut line, "title", text_of(&title));
            push_field(&mut line, "message", text_of(&message));
            status_line(state, title);
            HeadlessSmokeAction::Print(line)
        },
        DesktopSessionEvent::SessionCloseRequested { reason } => {
            let mut out: Vec<char> = Vec::new();
            push_str(&mut out, "desktop chat smoke session close requested; session_id=");
            push_str(&mut out, or_unknown_str(&state.session_id));
            push_str(&mut out, "; reason=");
            push_str(&mut out, reason.as_str());
            fail_with(state, out)
        },
        DesktopSessionEvent::Done => {
            let response = trim_str(state.response.as_str());
            if response.len() == 0 {
                let mut out: Vec<char> = Vec::new();
                push_str(
                    &mut out,
                    "desktop chat smoke completed without assistant text; session_id=",
                );
                push_str(&mut out, or_unknown_str(&state.session_id));
                push_str(&mut out, "; last_status=");
                push_str(&mut out, or_unknown_str(&state.last_status));
                fail_with(state, out)
            } else {
                let n = response.len();
                let cut = if n < HEADLESS_CHAT_SMOKE_PREVIEW_CHARS {
                    n
                } else {
                    HEADLESS_CHAT_SMOKE_PREVIEW_CHARS
                };
                let shown = slice_chars(response.as_slice(), 0, cut);
                proof {
                    assert(shown@ =~= preview(response@));
                    assert(opt_text(state.session_id) == opt_seq_text(opt_view(state.session_id)));
                }
                let mut line = line1(tag_of("ok"));
                push_field(&mut line, "session_id", opt_text_of(&state.session_id));
                push_field(&mut line, "response_chars", SmokeJson::Count(n as u64));
                push_field(
                    &mut line,
                    "response_preview",
                    SmokeJson::Text(string_from_chars(shown.as_slice())),
                );
                state.finished = true;
                HeadlessSmokeAction::Succeed(line)
            }
        },
        DesktopSessionEvent::Error(error) => {
            let mut out: Vec<char> = Vec::new();
            push_str(&mut out, "desktop chat smoke failed; session_id=");
            push_str(&mut out, or_unknown_str(&state.session_id));
            push_str(&mut out, "; error=");
            push_str(&mut out, error.as_str());
            fail_with(state, out)
        },
    }
}

/// One step of a smoke run: given what the run learned while it waited, the
/// state after it and what to do.
pub fn headless_smoke_step(state: HeadlessSmokeState, event: HeadlessSmokeEvent) -> (r: (
    HeadlessSmokeState,
    HeadlessSmokeAction,
))
    ensures
        (r.0@, r.1@) == headless_smoke_step_spec(state@, event),
{
    let mut state = state;
    if state.finished {
        return (state, HeadlessSmokeAction::Nothing);
    }
    let action = match event {
        HeadlessSmokeEvent::Session(e) => session_step(&mut state, e),
        HeadlessSmokeEvent::Disconnected => {
            let mut out: Vec<char> = Vec::new();
            push_str(
                &mut out,
                "desktop chat smoke worker disconnected before completion; last_status=",
            );
            push_str(&mut out, or_unknown_str(&state.last_status));
            fail_with(&mut state, out)
        },
        HeadlessSmokeEvent::TimedOut => {
            let mut out: Vec<char> = Vec::new();
            push_str(&mut out, "desktop chat smoke timed out after ");
            let secs = u64_decimal(HEADLESS_CHAT_SMOKE_TIMEOUT_SECS);
            extend_chars(&mut out, secs.as_slice());
            push_str(&mut out, "s; session_id=");
            push_str(&mut out, or_unknown_str(&state.session_id));
            push_str(&mut out, "; response_chars=");
            let n = chars_of(state.response.as_str()).len();
            let digits = u64_decimal(n as u64);
            extend_chars(&mut out, digits.as_slice());
            push_str(&mut out, "; last_status=");
            push_str(&mut out, or_unknown_str(&state.last_status));
            fail_with(&mut state, out)
        },
    };
    (state, action)
}

} // verus!
