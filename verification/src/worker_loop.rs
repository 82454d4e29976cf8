//! The app worker process's protocol loop: after announcing itself it reads
//! host frames one by one and answers each, numbering its own frames from 1.
//! The decisions live here; the caller reads frames, runs the app and writes
//! what the actions ask for.
use vstd::prelude::*;
use crate::events::DesktopSessionEventWire;
use crate::process::DesktopWorkerMode;

verus! {

/// Width of the window a worker assumes before the host describes it.
pub const DESKTOP_WORKER_DEFAULT_WIDTH: u32 = 1280;

/// Height of the window a worker assumes before the host describes it.
pub const DESKTOP_WORKER_DEFAULT_HEIGHT: u32 = 800;

/// The bits of the `f32` scale factor 1.0.
pub const DESKTOP_WORKER_UNIT_SCALE_BITS: u32 = 0x3f80_0000;

/// The window as a worker knows it; the scale factor is carried as the bits
/// of its `f32`, which the worker only passes on.
#[derive(Clone, Copy, Debug, PartialEq, Eq, Structural)]
pub struct DesktopWorkerWindow {
    pub width: u32,
    pub height: u32,
    pub scale_factor_bits: u32,
    pub focused: bool,
}

/// The worker loop's memory.
#[derive(Clone, Copy, Debug, PartialEq, Eq, Structural)]
pub struct DesktopWorkerLoopState {
    /// The sequence number of the worker's next frame.
    pub next_sequence: u64,
    /// The latest window the host described.
    pub window: DesktopWorkerWindow,
    /// Whether the app runs (the host sent `Initialize`).
    pub initialized: bool,
    /// Whether the loop still reads frames.
    pub running: bool,
}

/// Why the host asks the worker to stop.
#[derive(Clone, Copy, Debug, PartialEq, Eq, Structural)]
pub enum DesktopWorkerShutdownReason {
    HostExit,
    Reload,
    ProtocolMismatch,
}

/// What the loop learns: a host frame, the outcome of handling a key, or
/// the end of input.
#[derive(Clone, Debug)]
pub enum DesktopWorkerLoopInput {
    /// Start the app in `mode` for `window`.
    Initialize { mode: DesktopWorkerMode, window: DesktopWorkerWindow },
    /// Send a snapshot of the app state.
    SnapshotRequest { request_id: u64 },
    /// Stop.
    Shutdown { reason: DesktopWorkerShutdownReason },
    /// A key went down (`pressed`) or up.
    Key { pressed: bool },
    /// The app handled a key; `force_reload` when it asked for a reload.
    KeyHandled { force_reload: bool },
    /// The window was resized.
    Resized { width: u32, height: u32, scale_factor_bits: u32 },
    /// The window gained or lost focus.
    Focused(bool),
    /// Mouse input, which the worker does not use.
    Mouse,
    /// Session events forwarded by the host.
    SessionEvents(Vec<DesktopSessionEventWire>),
    /// The host acknowledged metrics.
    MetricsAck,
    /// A frame of another protocol version.
    IncompatibleFrame,
    /// The host closed the pipe.
    EndOfInput,
}

/// What the worker does.
#[derive(Clone, Copy, Debug, PartialEq, Eq, Structural)]
pub enum DesktopWorkerLoopAction {
    /// Send `Ready` with this sequence number.
    SendReady { sequence: u64, worker_pid: u32, mode: DesktopWorkerMode },
    /// Build a fresh app for `mode`, restoring the host's snapshot if any.
    CreateRuntime { mode: DesktopWorkerMode },
    /// Render the app for the latest window and send the scene.
    SendScene { sequence: u64 },
    /// Send a snapshot of the app state.
    SendSnapshot { request_id: u64, sequence: u64 },
    /// Note that a snapshot was asked for before the app ran.
    NoteSnapshotBeforeInit { request_id: u64 },
    /// Hand the key to the app, then report the outcome.
    HandleKey,
    /// Apply the events of the batch that a worker rebuilds.
    ApplySessionEvents,
    /// Ask the host to reload the worker.
    SendReloadRequested { sequence: u64 },
    /// Stop reading and end successfully.
    Exit,
    /// Stop reading and end with a protocol error.
    ExitIncompatible,
}

/// The window a worker assumes at first: 1280 x 800 at scale 1, focused.
pub open spec fn default_window() -> DesktopWorkerWindow {
    DesktopWorkerWindow {
        width: DESKTOP_WORKER_DEFAULT_WIDTH,
        height: DESKTOP_WORKER_DEFAULT_HEIGHT,
        scale_factor_bits: DESKTOP_WORKER_UNIT_SCALE_BITS,
        focused: true,
    }
}

/// The state after the worker sent one frame.
pub open spec fn sent_one(s: DesktopWorkerLoopState) -> DesktopWorkerLoopState {
    DesktopWorkerLoopState { next_sequence: (s.next_sequence + 1) as u64, ..s }
}

/// A batch holds an event that a worker rebuilds (anything but raw JSON).
pub open spec fn batch_changes_app(events: Seq<DesktopSessionEventWire>) -> bool {
    exists|i: int| 0 <= i < events.len() && !(#[trigger] events[i] is RawJson)
}

/// One step of the worker loop.
pub open spec fn worker_step_spec(s: DesktopWorkerLoopState, input: DesktopWorkerLoopInput) -> (
    DesktopWorkerLoopState,
    Seq<DesktopWorkerLoopAction>,
) {
    if !s.running {
        (s, Seq::empty())
    } else {
        match input {
            DesktopWorkerLoopInput::Initialize { mode, window } => (
                sent_one(DesktopWorkerLoopState { window, initialized: true, ..s }),
                seq![DesktopWorkerLoopAction::CreateRuntime { mode }].push(
                    DesktopWorkerLoopAction::SendScene { sequence: s.next_sequence },
                ),
            ),
            DesktopWorkerLoopInput::SnapshotRequest { request_id } => if s.initialized {
                (
                    sent_one(s),
                    seq![
                        DesktopWorkerLoopAction::SendSnapshot {
                            request_id,
                            sequence: s.next_sequence,
                        },
                    ],
                )
            } else {
                (s, seq![DesktopWorkerLoopAction::NoteSnapshotBeforeInit { request_id }])
            },
            DesktopWorkerLoopInput::Shutdown { .. } => (
                DesktopWorkerLoopState { running: false, ..s },
                seq![DesktopWorkerLoopAction::Exit],
            ),
            DesktopWorkerLoopInput::Key { pressed } => if pressed && s.initialized {
                (s, seq![DesktopWorkerLoopAction::HandleKey])
            } else {
                (s, Seq::empty())
            },
            DesktopWorkerLoopInput::KeyHandled { force_reload } => if !s.initialized {
                (s, Seq::empty())
            } else if force_reload {
                (
                    sent_one(s),
                    seq![DesktopWorkerLoopAction::SendReloadRequested { sequence: s.next_sequence }],
                )
            } else {
                (sent_one(s), seq![DesktopWorkerLoopAction::SendScene { sequence: s.next_sequence }])
            },
            DesktopWorkerLoopInput::Resized { width, height, scale_factor_bits } => {
                let resized = DesktopWorkerLoopState {
                    window: DesktopWorkerWindow { width, height, scale_factor_bits, ..s.window },
                    ..s
                };
                if s.initialized {
                    (
                        sent_one(resized),
                        seq![DesktopWorkerLoopAction::SendScene { sequence: s.next_sequence }],
                    )
                } else {
                    (resized, Seq::empty())
                }
            },
            DesktopWorkerLoopInput::Focused(focused) => (
                DesktopWorkerLoopState {
                    window: DesktopWorkerWindow { focused, ..s.window },
                    ..s
                },
                Seq::empty(),
            ),
            DesktopWorkerLoopInput::Mouse => (s, Seq::empty()),
            DesktopWorkerLoopInput::MetricsAck => (s, Seq::empty()),
            DesktopWorkerLoopInput::SessionEvents(events) => if s.initialized && batch_changes_app(
                events@,
            ) {
                (
                    sent_one(s),
                    seq![DesktopWorkerLoopAction::ApplySessionEvents].push(
                        DesktopWorkerLoopAction::SendScene { sequence: s.next_sequence },
                    ),
                )
            } else {
                (s, Seq::empty())
            },
            DesktopWorkerLoopInput::IncompatibleFrame => (
                DesktopWorkerLoopState { running: false, ..s },
                seq![DesktopWorkerLoopAction::ExitIncompatible],
            ),
            DesktopWorkerLoopInput::EndOfInput => (
                DesktopWorkerLoopState { running: false, ..s },
                seq![DesktopWorkerLoopAction::Exit],
            ),
        }
    }
}

/// Starts the worker loop: the worker announces itself
/// with `Ready` as frame 1, so its next frame is 2; it has no app yet and
/// assumes the default window.
pub fn desktop_worker_loop_start(mode: DesktopWorkerMode, worker_pid: u32) -> (r: (
    DesktopWorkerLoopState,
    DesktopWorkerLoopAction,
))
    ensures
        r.1 == (DesktopWorkerLoopAction::SendReady { sequence: 1, worker_pid, mode }),
        r.0 == worker_start_state(),
{
    let state = DesktopWorkerLoopState {
        next_sequence: 2,
        window: DesktopWorkerWindow {
            width: DESKTOP_WORKER_DEFAULT_WIDTH,
            height: DESKTOP_WORKER_DEFAULT_HEIGHT,
            scale_factor_bits: DESKTOP_WORKER_UNIT_SCALE_BITS,
            focused: true,
        },
        initialized: false,
        running: true,
    };
    (state, DesktopWorkerLoopAction::SendReady { sequence: 1, worker_pid, mode })
}

fn batch_changes_app_exec(events: &Vec<DesktopSessionEventWire>) -> (r: bool)
    ensures
        r == batch_changes_app(events@),
{
    let mut i: usize = 0;
    while i < events.len()
        invariant
            i <= events.len(),
            forall|j: int| 0 <= j < i ==> (#[trigger] events@[j]) is RawJson,
        decreases events.len() - i,
    {
        if let DesktopSessionEventWire::RawJson { .. } = &events[i] {
        } else {
            return true;
        }
        i = i + 1;
    }
    false
}

/// One step of the worker loop, for one thing the worker learns: the
/// next state and the actions to perform, in order. Every frame the worker
/// sends takes the next sequence number.
pub fn desktop_worker_step(state: DesktopWorkerLoopState, input: DesktopWorkerLoopInput) -> (r: (
    DesktopWorkerLoopState,
    Vec<DesktopWorkerLoopAction>,
))
    requires
        state.next_sequence < u64::MAX,
    ensures
        r.0 == worker_step_spec(state, input).0,
        r.1@ == worker_step_spec(state, input).1,
        state.running ==> match input {
            DesktopWorkerLoopInput::Resized { width, height, scale_factor_bits } => r.0.window
                == (DesktopWorkerWindow {
                width,
                height,
                scale_factor_bits,
                focused: state.window.focused,
            }),
            DesktopWorkerLoopInput::Focused(focused) => r.0.window == (DesktopWorkerWindow {
                focused,
                ..state.window
            }),
            _ => true,
        },
{
    let s = state;
    if !s.running {
        return (s, Vec::new());
    }
    let seq_no = s.next_sequence;
    let mut next = s;
    let mut actions: Vec<DesktopWorkerLoopAction> = Vec::new();
    match input {
        DesktopWorkerLoopInput::Initialize { mode, window } => {
            next.window = window;
            next.initialized = true;
            next.next_sequence = seq_no + 1;
            actions.push(DesktopWorkerLoopAction::CreateRuntime { mode });
            actions.push(DesktopWorkerLoopAction::SendScene { sequence: seq_no });
        },
        DesktopWorkerLoopInput::SnapshotRequest { request_id } => {
            if s.initialized {
                next.next_sequence = seq_no + 1;
                actions.push(DesktopWorkerLoopAction::SendSnapshot { request_id, sequence: seq_no });
            } else {
                actions.push(DesktopWorkerLoopAction::NoteSnapshotBeforeInit { request_id });
            }
        },
        DesktopWorkerLoopInput::Shutdown { .. } => {
            next.running = false;
            actions.push(DesktopWorkerLoopAction::Exit);
        },
        DesktopWorkerLoopInput::Key { pressed } => {
            if pressed && s.initialized {
                actions.push(DesktopWorkerLoopAction::HandleKey);
            }
        },
        DesktopWorkerLoopInput::KeyHandled { force_reload } => {
            if s.initialized {
                next.next_sequence = seq_no + 1;
                if force_reload {
                    actions.push(DesktopWorkerLoopAction::SendReloadRequested { sequence: seq_no });
                } else {
                    actions.push(DesktopWorkerLoopAction::SendScene { sequence: seq_no });
                }
            }
        },
        DesktopWorkerLoopInput::Resized { width, height, scale_factor_bits } => {
            next.window.width = width;
            next.window.height = height;
            next.window.scale_factor_bits = scale_factor_bits;
            if s.initialized {
                next.next_sequence = seq_no + 1;
                actions.push(DesktopWorkerLoopAction::SendScene { sequence: seq_no });
            }
        },
        DesktopWorkerLoopInput::Focused(focused) => {
            next.window.focused = focused;
        },
        DesktopWorkerLoopInput::Mouse => {},
        DesktopWorkerLoopInput::MetricsAck => {},
        DesktopWorkerLoopInput::SessionEvents(events) => {
            if s.initialized && batch_changes_app_exec(&events) {
                next.next_sequence = seq_no + 1;
                actions.push(DesktopWorkerLoopAction::ApplySessionEvents);
                actions.push(DesktopWorkerLoopAction::SendScene { sequence: seq_no });
            }
        },
        DesktopWorkerLoopInput::IncompatibleFrame => {
            next.running = false;
            actions.push(DesktopWorkerLoopAction::ExitIncompatible);
        },
        DesktopWorkerLoopInput::EndOfInput => {
            next.running = false;
            actions.push(DesktopWorkerLoopAction::Exit);
        },
    }
    (next, actions)
}

/// The sequence number of the frame an action sends, if it sends one.
pub open spec fn frame_sequence(a: DesktopWorkerLoopAction) -> Option<u64> {
    match a {
        DesktopWorkerLoopAction::SendReady { sequence, .. } => Some(sequence),
        DesktopWorkerLoopAction::SendScene { sequence } => Some(sequence),
        DesktopWorkerLoopAction::SendSnapshot { sequence, .. } => Some(sequence),
        DesktopWorkerLoopAction::SendReloadRequested { sequence } => Some(sequence),
        _ => None,
    }
}

/// The worker numbers its frames consecutively: a step sends at most one
/// frame, that frame carries the current next sequence number, and the next
/// sequence number moves on by one exactly when a frame is sent.
pub proof fn lemma_worker_frames_numbered(s: DesktopWorkerLoopState, input: DesktopWorkerLoopInput)
    requires
        s.next_sequence < u64::MAX,
    ensures
        ({
            let (t, acts) = worker_step_spec(s, input);
            &&& forall|i: int|
                0 <= i < acts.len() && (#[trigger] frame_sequence(acts[i])) is Some
                    ==> frame_sequence(acts[i]) == Some(s.next_sequence)
            &&& (t.next_sequence == s.next_sequence + 1) == (exists|i: int|
                0 <= i < acts.len() && (#[trigger] frame_sequence(acts[i])) is Some)
            &&& (t.next_sequence == s.next_sequence || t.next_sequence == s.next_sequence + 1)
        }),
{
    let (t, acts) = worker_step_spec(s, input);
    if t.next_sequence == s.next_sequence + 1 {
        let k = acts.len() - 1;
        assert(frame_sequence(acts[k]) is Some);
    }
}

/// The state and the actions of the worker loop fed `inputs` one by one,
/// starting in `s`.
pub open spec fn worker_run_spec(s: DesktopWorkerLoopState, inputs: Seq<DesktopWorkerLoopInput>) -> (
    DesktopWorkerLoopState,
    Seq<DesktopWorkerLoopAction>,
)
    decreases inputs.len(),
{
    if inputs.len() == 0 {
        (s, Seq::empty())
    } else {
        let (t, acts) = worker_step_spec(s, inputs[0]);
        let (u, rest) = worker_run_spec(t, inputs.skip(1));
        (u, acts + rest)
    }
}

/// The sequence numbers of the frames that `acts` send, in order.
pub open spec fn frame_numbers(acts: Seq<DesktopWorkerLoopAction>) -> Seq<u64>
    decreases acts.len(),
{
    if acts.len() == 0 {
        Seq::empty()
    } else {
        (match frame_sequence(acts[0]) {
            Some(n) => seq![n],
            None => Seq::empty(),
        }) + frame_numbers(acts.skip(1))
    }
}

/// The state in which the worker reads its first host frame.
pub open spec fn worker_start_state() -> DesktopWorkerLoopState {
    DesktopWorkerLoopState {
        next_sequence: 2,
        window: default_window(),
        initialized: false,
        running: true,
    }
}

proof fn lemma_frame_numbers_concat(a: Seq<DesktopWorkerLoopAction>, b: Seq<DesktopWorkerLoopAction>)
    ensures
        frame_numbers(a + b) == frame_numbers(a) + frame_numbers(b),
    decreases a.len(),
{
    if a.len() == 0 {
        assert(a + b =~= b);
        assert(frame_numbers(a) =~= Seq::<u64>::empty());
        assert(frame_numbers(a) + frame_numbers(b) =~= frame_numbers(b));
    } else {
        lemma_frame_numbers_concat(a.skip(1), b);
        assert((a + b).skip(1) =~= a.skip(1) + b);
        assert((a + b)[0] == a[0]);
        let head = match frame_sequence(a[0]) {
            Some(n) => seq![n],
            None => Seq::<u64>::empty(),
        };
        assert(head + (frame_numbers(a.skip(1)) + frame_numbers(b)) =~= (head + frame_numbers(
            a.skip(1),
        )) + frame_numbers(b));
    }
}

proof fn lemma_step_frame_numbers(s: DesktopWorkerLoopState, input: DesktopWorkerLoopInput)
    requires
        s.next_sequence < u64::MAX,
    ensures
        ({
            let (t, acts) = worker_step_spec(s, input);
            &&& t.next_sequence == s.next_sequence + frame_numbers(acts).len()
            &&& frame_numbers(acts).len() <= 1
            &&& forall|i: int|
                0 <= i < frame_numbers(acts).len() ==> #[trigger] frame_numbers(acts)[i]
                    == s.next_sequence
        }),
{
    let (t, acts) = worker_step_spec(s, input);
    reveal_with_fuel(frame_numbers, 3);
    if acts.len() == 2 {
        assert(acts.skip(1).skip(1) =~= Seq::<DesktopWorkerLoopAction>::empty());
    } else if acts.len() == 1 {
        assert(acts.skip(1) =~= Seq::<DesktopWorkerLoopAction>::empty());
    }
}

/// Over a whole run the worker numbers its frames without gap or repeat:
/// the frames sent while reading `inputs` carry `s.next_sequence`,
/// `s.next_sequence + 1`, and so on, and the next sequence number ends just
/// past the last of them.
pub proof fn lemma_worker_run_numbered(s: DesktopWorkerLoopState, inputs: Seq<DesktopWorkerLoopInput>)
    requires
        s.next_sequence + inputs.len() < u64::MAX,
    ensures
        ({
            let (t, acts) = worker_run_spec(s, inputs);
            &&& t.next_sequence == s.next_sequence + frame_numbers(acts).len()
            &&& forall|i: int|
                0 <= i < frame_numbers(acts).len() ==> #[trigger] frame_numbers(acts)[i]
                    == s.next_sequence + i
        }),
    decreases inputs.len(),
{
    if inputs.len() > 0 {
        let (t1, a) = worker_step_spec(s, inputs[0]);
        lemma_step_frame_numbers(s, inputs[0]);
        lemma_worker_run_numbered(t1, inputs.skip(1));
        let (u, rest) = worker_run_spec(t1, inputs.skip(1));
        lemma_frame_numbers_concat(a, rest);
        let fa = frame_numbers(a);
        let fr = frame_numbers(rest);
        assert forall|i: int| 0 <= i < (fa + fr).len() implies #[trigger] (fa + fr)[i]
            == s.next_sequence + i by {
            if i < fa.len() {
                assert(fa[i] == s.next_sequence);
            } else {
                assert(fr[i - fa.len()] == t1.next_sequence + (i - fa.len()));
            }
        }
    } else {
        assert(frame_numbers(Seq::<DesktopWorkerLoopAction>::empty()).len() == 0);
    }
}

/// A stopped worker reads nothing more into its state and sends nothing.
pub proof fn lemma_worker_stopped_is_silent(
    s: DesktopWorkerLoopState,
    inputs: Seq<DesktopWorkerLoopInput>,
)
    requires
        !s.running,
    ensures
        worker_run_spec(s, inputs).0 == s,
        worker_run_spec(s, inputs).1 == Seq::<DesktopWorkerLoopAction>::empty(),
    decreases inputs.len(),
{
    if inputs.len() > 0 {
        lemma_worker_stopped_is_silent(s, inputs.skip(1));
        assert(Seq::<DesktopWorkerLoopAction>::empty() + Seq::<DesktopWorkerLoopAction>::empty()
            =~= Seq::<DesktopWorkerLoopAction>::empty());
    }
}

/// A worker process numbers all its frames 1, 2, 3, ...: `Ready` is frame 1
/// and every frame it sends while reading `inputs` takes the next number.
pub proof fn lemma_worker_process_numbered(
    mode: DesktopWorkerMode,
    worker_pid: u32,
    inputs: Seq<DesktopWorkerLoopInput>,
)
    requires
        inputs.len() < u64::MAX - 2,
    ensures
        ({
            let ready = DesktopWorkerLoopAction::SendReady { sequence: 1, worker_pid, mode };
            let all = frame_numbers(seq![ready] + worker_run_spec(worker_start_state(), inputs).1);
            forall|i: int| 0 <= i < all.len() ==> #[trigger] all[i] == i + 1
        }),
{
    let ready = DesktopWorkerLoopAction::SendReady { sequence: 1, worker_pid, mode };
    let acts = worker_run_spec(worker_start_state(), inputs).1;
    lemma_worker_run_numbered(worker_start_state(), inputs);
    lemma_frame_numbers_concat(seq![ready], acts);
    reveal_with_fuel(frame_numbers, 2);
    assert(seq![ready].skip(1) =~= Seq::<DesktopWorkerLoopAction>::empty());
    assert(frame_numbers(seq![ready]) =~= seq![1u64]);
    let all = frame_numbers(seq![ready] + acts);
    assert forall|i: int| 0 <= i < all.len() implies #[trigger] all[i] == i + 1 by {
        if i > 0 {
            assert(all[i] == frame_numbers(acts)[i - 1]);
        }
    }
}

/// A resize replaces the window's width, height and scale factor with the
/// ones the host sent, keeps its focus, and, once the app runs, is answered
/// with one scene; a focus change replaces only the focus.
pub proof fn lemma_worker_window_follows_host(
    s: DesktopWorkerLoopState,
    width: u32,
    height: u32,
    scale_factor_bits: u32,
    focused: bool,
)
    requires
        s.running,
    ensures
        ({
            let (t, acts) = worker_step_spec(
                s,
                DesktopWorkerLoopInput::Resized { width, height, scale_factor_bits },
            );
            &&& t.window.width == width
            &&& t.window.height == height
            &&& t.window.scale_factor_bits == scale_factor_bits
            &&& t.window.focused == s.window.focused
            &&& s.initialized ==> acts == seq![
                DesktopWorkerLoopAction::SendScene { sequence: s.next_sequence },
            ]
        }),
        ({
            let (t, acts) = worker_step_spec(s, DesktopWorkerLoopInput::Focused(focused));
            &&& t.window.width == s.window.width
            &&& t.window.height == s.window.height
            &&& t.window.scale_factor_bits == s.window.scale_factor_bits
            &&& t.window.focused == focused
            &&& acts.len() == 0
        }),
{
}

} // verus!
