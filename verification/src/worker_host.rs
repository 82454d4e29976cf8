//! The host's view of its app worker: what it makes of the messages it
//! drained from the worker's pipe and of polling the worker process.
use vstd::prelude::*;

verus! {

/// A message the host received from its app worker; a scene is kept as
/// the host's own scene value `S`.
pub enum DesktopWorkerMessage<S> {
    Ready,
    Scene(S),
    ReloadRequested,
    Snapshot,
    Metrics,
    Log,
    Exited,
    /// A frame that could not be read.
    Unreadable,
}

/// What polling the worker process found.
#[derive(Clone, Copy, Debug, PartialEq, Eq, Structural)]
pub enum DesktopWorkerProcessStatus {
    Running,
    Exited,
    PollFailed,
}

/// What a drain of the worker's messages leaves the host with.
pub struct DesktopWorkerDrain<S> {
    /// The newest scene, if one came.
    pub latest_scene: Option<S>,
    /// The worker asked to be reloaded.
    pub reload_requested: bool,
    /// A frame could not be read, so the worker is dropped.
    pub drop_worker: bool,
}

/// The position of the first unreadable message, or the count of messages.
pub open spec fn first_unreadable<S>(msgs: Seq<DesktopWorkerMessage<S>>) -> int
    decreases msgs.len(),
{
    if msgs.len() == 0 {
        0
    } else if msgs[0] is Unreadable {
        0
    } else {
        1 + first_unreadable(msgs.skip(1))
    }
}

proof fn lemma_first_unreadable<S>(msgs: Seq<DesktopWorkerMessage<S>>)
    ensures
        0 <= first_unreadable(msgs) <= msgs.len(),
        first_unreadable(msgs) < msgs.len() ==> msgs[first_unreadable(msgs)] is Unreadable,
        forall|i: int| 0 <= i < first_unreadable(msgs) ==> !(#[trigger] msgs[i] is Unreadable),
    decreases msgs.len(),
{
    if msgs.len() > 0 && !(msgs[0] is Unreadable) {
        lemma_first_unreadable(msgs.skip(1));
        assert forall|i: int| 0 <= i < first_unreadable(msgs) implies !(
        #[trigger] msgs[i] is Unreadable) by {
            if i > 0 {
                assert(msgs[i] == msgs.skip(1)[i - 1]);
            }
        }
    }
}

/// What a drain of the worker's messages leaves the host with: the messages
/// are read in order up to the first unreadable one, which drops the worker;
/// of those read, the last scene is kept, and a reload request anywhere
/// among them is remembered.
pub fn desktop_worker_drain<S>(messages: Vec<DesktopWorkerMessage<S>>) -> (r: DesktopWorkerDrain<S>)
    ensures
        r.drop_worker == (first_unreadable(messages@) < messages@.len()),
        r.reload_requested == exists|i: int|
            0 <= i < first_unreadable(messages@) && #[trigger] messages@[i] is ReloadRequested,
        match r.latest_scene {
            Some(s) => exists|i: int|
                0 <= i < first_unreadable(messages@) && #[trigger] messages@[i]
                    == DesktopWorkerMessage::Scene(s) && forall|j: int|
                    i < j < first_unreadable(messages@) ==> !(#[trigger] messages@[j] is Scene),
            None => forall|i: int|
                0 <= i < first_unreadable(messages@) ==> !(#[trigger] messages@[i] is Scene),
        },
{
    let ghost msgs = messages@;
    proof {
        lemma_first_unreadable(msgs);
    }
    let mut k: usize = 0;
    let mut reload = false;
    while k < messages.len()
        invariant
            msgs == messages@,
            k <= first_unreadable(msgs),
            0 <= first_unreadable(msgs) <= msgs.len(),
            first_unreadable(msgs) < msgs.len() ==> msgs[first_unreadable(msgs)] is Unreadable,
            forall|i: int| 0 <= i < first_unreadable(msgs) ==> !(#[trigger] msgs[i] is Unreadable),
            reload == exists|i: int| 0 <= i < k && #[trigger] msgs[i] is ReloadRequested,
        ensures
            msgs == messages@,
            k == first_unreadable(msgs),
            reload == exists|i: int| 0 <= i < k && #[trigger] msgs[i] is ReloadRequested,
        decreases messages.len() - k,
    {
        match &messages[k] {
            DesktopWorkerMessage::Unreadable => {
                break;
            },
            DesktopWorkerMessage::ReloadRequested => {
                reload = true;
            },
            _ => {},
        }
        k = k + 1;
    }
    let drop_worker = k < messages.len();
    let mut rest = messages;
    rest.truncate(k);
    assert(rest@ == msgs.subrange(0, k as int));
    while rest.len() > 0
        invariant
            rest@ == msgs.subrange(0, rest@.len() as int),
            msgs == messages@,
            rest@.len() <= k,
            k == first_unreadable(msgs),
            first_unreadable(msgs) <= msgs.len(),
            forall|j: int| rest@.len() <= j < k ==> !(#[trigger] msgs[j] is Scene),
            drop_worker == (first_unreadable(msgs) < msgs.len()),
            reload == exists|i: int|
                0 <= i < first_unreadable(msgs) && #[trigger] msgs[i] is ReloadRequested,
        decreases rest@.len(),
    {
        let ghost n = rest@.len() - 1;
        let m = rest.pop();
        match m {
            Some(DesktopWorkerMessage::Scene(s)) => {
                assert(msgs[n] == DesktopWorkerMessage::Scene(s));
                return DesktopWorkerDrain {
                    latest_scene: Some(s),
                    reload_requested: reload,
                    drop_worker,
                };
            },
            _ => {},
        }
    }
    DesktopWorkerDrain { latest_scene: None, reload_requested: reload, drop_worker }
}

/// After a drain that read every message, polling the worker process drops
/// the worker when it has exited or cannot be polled.
pub fn desktop_worker_poll_drops(status: DesktopWorkerProcessStatus) -> (r: bool)
    ensures
        r == !(status is Running),
{
    match status {
        DesktopWorkerProcessStatus::Running => false,
        _ => true,
    }
}

} // verus!
