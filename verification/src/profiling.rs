//! Frame and interaction profiling: stage timings of a frame, pending input
//! latency, and the watchdog that requests redraws when painting stalls.
use vstd::prelude::*;
use crate::text::{chars_eq, chars_of};

verus! {

broadcast use vstd::string::group_string_axioms;

/// Interval between backend-driven redraw requests, in milliseconds.
pub const BACKEND_REDRAW_FRAME_INTERVAL_MS: u64 = 16;

/// One timed stage of a frame.
#[derive(Clone, Copy, Debug)]
pub struct DesktopFrameStageProfile {
    pub name: &'static str,
    pub duration_ns: u64,
}

/// Stage timings of one frame, in nanoseconds of a monotonic clock.
#[derive(Clone, Debug)]
pub struct DesktopFrameProfile {
    pub started_at_ns: u64,
    pub last_checkpoint_ns: u64,
    pub stages: Vec<DesktopFrameStageProfile>,
}

/// Total duration of the stages named `name`.
pub open spec fn named_total(stages: Seq<DesktopFrameStageProfile>, name: Seq<char>) -> nat
    decreases stages.len(),
{
    if stages.len() == 0 {
        0
    } else {
        named_total(stages.drop_last(), name) + (if stages.last().name@ == name {
            stages.last().duration_ns as nat
        } else {
            0nat
        })
    }
}

/// A stage spent waiting on the GPU or compositor rather than the CPU.
pub open spec fn is_present_stage(name: Seq<char>) -> bool {
    name == "surface_acquire"@ || name == "queue_submit"@ || name == "present"@
}

/// Total duration of the CPU-bound stages.
pub open spec fn cpu_total(stages: Seq<DesktopFrameStageProfile>) -> nat
    decreases stages.len(),
{
    if stages.len() == 0 {
        0
    } else {
        cpu_total(stages.drop_last()) + (if !is_present_stage(stages.last().name@) {
            stages.last().duration_ns as nat
        } else {
            0nat
        })
    }
}

/// Total duration of all stages.
pub open spec fn all_total(stages: Seq<DesktopFrameStageProfile>) -> nat
    decreases stages.len(),
{
    if stages.len() == 0 {
        0
    } else {
        all_total(stages.drop_last()) + stages.last().duration_ns as nat
    }
}

proof fn lemma_named_le_all(stages: Seq<DesktopFrameStageProfile>, name: Seq<char>)
    ensures
        named_total(stages, name) <= all_total(stages),
        cpu_total(stages) <= all_total(stages),
    decreases stages.len(),
{
    if stages.len() > 0 {
        lemma_named_le_all(stages.drop_last(), name);
    }
}

impl DesktopFrameProfile {
    /// The stages account for the whole time since the frame started.
    pub open spec fn wf(&self) -> bool {
        self.started_at_ns <= self.last_checkpoint_ns && all_total(self.stages@)
            == self.last_checkpoint_ns - self.started_at_ns
    }

    /// `new`: a frame started at `now_ns`, no stage yet.
    pub fn new(now_ns: u64) -> (r: Self)
        ensures
            r.wf(),
            r.started_at_ns == now_ns,
            r.last_checkpoint_ns == now_ns,
            r.stages@.len() == 0,
    {
        DesktopFrameProfile { started_at_ns: now_ns, last_checkpoint_ns: now_ns, stages: Vec::new() }
    }

    /// `checkpoint`: records the time since the previous checkpoint as stage `name`.
    pub fn checkpoint(&mut self, name: &'static str, now_ns: u64)
        requires
            old(self).wf(),
            old(self).last_checkpoint_ns <= now_ns,
        ensures
            final(self).wf(),
            final(self).started_at_ns == old(self).started_at_ns,
            final(self).last_checkpoint_ns == now_ns,
            final(self).stages@ == old(self).stages@.push(
                DesktopFrameStageProfile { name, duration_ns: (now_ns - old(self).last_checkpoint_ns) as u64 },
            ),
    {
        let stage = DesktopFrameStageProfile { name, duration_ns: now_ns - self.last_checkpoint_ns };
        self.stages.push(stage);
        self.last_checkpoint_ns = now_ns;
        assert(self.stages@.drop_last() == old(self).stages@);
    }

    /// `total_duration`: time from the start to the last checkpoint.
    pub fn total_duration(&self) -> (r: u64)
        requires
            self.wf(),
        ensures
            r == self.last_checkpoint_ns - self.started_at_ns,
            r == all_total(self.stages@),
    {
        self.last_checkpoint_ns - self.started_at_ns
    }

    /// `stage_duration`: total time of the stages named `name`.
    pub fn stage_duration(&self, name: &str) -> (r: u64)
        requires
            self.wf(),
        ensures
            r == named_total(self.stages@, name@),
    {
        let target = chars_of(name);
        let mut total: u64 = 0;
        let mut i: usize = 0;
        while i < self.stages.len()
            invariant
                self.wf(),
                i <= self.stages.len(),
                target@ == name@,
                total == named_total(self.stages@.take(i as int), name@),
            decreases self.stages.len() - i,
        {
            proof {
                assert(self.stages@.take(i + 1).drop_last() == self.stages@.take(i as int));
                lemma_named_le_all(self.stages@.take(i + 1), name@);
                lemma_all_total_prefix(self.stages@, i + 1);
            }
            let s = chars_of(self.stages[i].name);
            if chars_eq(s.as_slice(), target.as_slice()) {
                total = total + self.stages[i].duration_ns;
            }
            i = i + 1;
        }
        assert(self.stages@.take(self.stages.len() as int) == self.stages@);
        total
    }

    /// `cpu_duration`: total time of the stages other than surface acquire,
    /// queue submit and present.
    pub fn cpu_duration(&self) -> (r: u64)
        requires
            self.wf(),
        ensures
            r == cpu_total(self.stages@),
    {
        proof {
            reveal_strlit("surface_acquire");
            reveal_strlit("queue_submit");
            reveal_strlit("present");
        }
        let a = chars_of("surface_acquire");
        let b = chars_of("queue_submit");
        let c = chars_of("present");
        let mut total: u64 = 0;
        let mut i: usize = 0;
        while i < self.stages.len()
            invariant
                self.wf(),
                i <= self.stages.len(),
                a@ == "surface_acquire"@,
                b@ == "queue_submit"@,
                c@ == "present"@,
                total == cpu_total(self.stages@.take(i as int)),
            decreases self.stages.len() - i,
        {
            proof {
                assert(self.stages@.take(i + 1).drop_last() == self.stages@.take(i as int));
                lemma_named_le_all(self.stages@.take(i + 1), Seq::empty());
                lemma_all_total_prefix(self.stages@, i + 1);
            }
            let s = chars_of(self.stages[i].name);
            let present = chars_eq(s.as_slice(), a.as_slice()) || chars_eq(s.as_slice(), b.as_slice())
                || chars_eq(s.as_slice(), c.as_slice());
            if !present {
                total = total + self.stages[i].duration_ns;
            }
            i = i + 1;
        }
        assert(self.stages@.take(self.stages.len() as int) == self.stages@);
        total
    }
}

proof fn lemma_all_total_prefix(stages: Seq<DesktopFrameStageProfile>, i: int)
    requires
        0 <= i <= stages.len(),
    ensures
        all_total(stages.take(i)) <= all_total(stages),
    decreases stages.len() - i,
{
    if i < stages.len() {
        lemma_all_total_prefix(stages.drop_last(), if i <= stages.len() - 1 { i } else { i - 1 });
        assert(stages.drop_last().take(i) == stages.take(i));
    } else {
        assert(stages.take(i) == stages);
    }
}

/// The CPU stages and the three presentation stages make up the whole frame.
pub proof fn lemma_frame_time_splits(stages: Seq<DesktopFrameStageProfile>)
    ensures
        all_total(stages) == cpu_total(stages) + named_total(stages, "surface_acquire"@)
            + named_total(stages, "queue_submit"@) + named_total(stages, "present"@),
    decreases stages.len(),
{
    reveal_strlit("surface_acquire");
    reveal_strlit("queue_submit");
    reveal_strlit("present");
    assert("surface_acquire"@.len() == 15 && "queue_submit"@.len() == 12 && "present"@.len() == 7);
    if stages.len() > 0 {
        lemma_frame_time_splits(stages.drop_last());
    }
}

/// The worst frame seen since the last report.
#[derive(Clone, Debug)]
pub struct DesktopFrameSlowSample<C> {
    pub wall_ns: u64,
    pub cpu_ns: u64,
    pub surface_acquire_ns: u64,
    pub queue_submit_ns: u64,
    pub present_ns: u64,
    pub score_ns: u64,
    pub stages: Vec<DesktopFrameStageProfile>,
    pub context: C,
}

/// What a frame profile report says about the frames since the last one.
#[derive(Clone, Debug)]
pub struct DesktopFrameReport<C> {
    pub cpu_budget_ns: u64,
    pub present_stall_budget_ns: u64,
    pub window_frames: usize,
    pub slow_cpu_frames: usize,
    pub present_stall_frames: usize,
    pub worst: Option<DesktopFrameSlowSample<C>>,
}

/// Counts slow and stalled frames and keeps the worst one between reports.
#[derive(Clone, Debug)]
pub struct DesktopFrameProfiler<C> {
    pub enabled: bool,
    pub log_all: bool,
    pub budget_ns: u64,
    pub present_stall_budget_ns: u64,
    pub report_interval_ns: u64,
    pub frames: usize,
    pub slow_cpu_frames: usize,
    pub present_stall_frames: usize,
    pub worst: Option<DesktopFrameSlowSample<C>>,
    pub last_report_ns: Option<u64>,
}

pub open spec fn max_u64(a: u64, b: u64) -> u64 {
    if a >= b { a } else { b }
}

/// A frame's score: its longest CPU or presentation phase.
pub open spec fn frame_score(cpu: u64, acquire: u64, submit: u64, present: u64) -> u64 {
    max_u64(max_u64(max_u64(cpu, acquire), submit), present)
}

impl<C> DesktopFrameProfiler<C> {
    /// `new`: a profiler with nothing counted yet.
    pub fn new(
        enabled: bool,
        log_all: bool,
        budget_ns: u64,
        present_stall_budget_ns: u64,
        report_interval_ns: u64,
    ) -> (r: Self)
        ensures
            r.enabled == enabled,
            r.log_all == log_all,
            r.budget_ns == budget_ns,
            r.present_stall_budget_ns == present_stall_budget_ns,
            r.report_interval_ns == report_interval_ns,
            r.frames == 0,
            r.slow_cpu_frames == 0,
            r.present_stall_frames == 0,
            r.worst is None,
            r.last_report_ns is None,
    {
        DesktopFrameProfiler {
            enabled,
            log_all,
            budget_ns,
            present_stall_budget_ns,
            report_interval_ns,
            frames: 0,
            slow_cpu_frames: 0,
            present_stall_frames: 0,
            worst: None,
            last_report_ns: None,
        }
    }

    /// `report`: the counts and worst frame since the last report, which
    /// start over at `now_ns`.
    pub fn report(&mut self, now_ns: u64) -> (r: DesktopFrameReport<C>)
        ensures
            r.cpu_budget_ns == old(self).budget_ns,
            r.present_stall_budget_ns == old(self).present_stall_budget_ns,
            r.window_frames == old(self).frames,
            r.slow_cpu_frames == old(self).slow_cpu_frames,
            r.present_stall_frames == old(self).present_stall_frames,
            r.worst == old(self).worst,
            final(self).frames == 0,
            final(self).slow_cpu_frames == 0,
            final(self).present_stall_frames == 0,
            final(self).worst is None,
            final(self).last_report_ns == Some(now_ns),
            final(self).enabled == old(self).enabled,
            final(self).log_all == old(self).log_all,
            final(self).budget_ns == old(self).budget_ns,
            final(self).present_stall_budget_ns == old(self).present_stall_budget_ns,
            final(self).report_interval_ns == old(self).report_interval_ns,
    {
        let mut worst: Option<DesktopFrameSlowSample<C>> = None;
        std::mem::swap(&mut worst, &mut self.worst);
        let report = DesktopFrameReport {
            cpu_budget_ns: self.budget_ns,
            present_stall_budget_ns: self.present_stall_budget_ns,
            window_frames: self.frames,
            slow_cpu_frames: self.slow_cpu_frames,
            present_stall_frames: self.present_stall_frames,
            worst,
        };
        self.frames = 0;
        self.slow_cpu_frames = 0;
        self.present_stall_frames = 0;
        self.last_report_ns = Some(now_ns);
        report
    }

    /// `observe`: counts a finished frame observed at `now_ns`. A frame whose
    /// CPU time reaches the budget is slow; one whose surface acquire, queue
    /// submit or present reaches the stall budget is stalled; the slow,
    /// stalled (or, when logging all, every) frame with the highest score is
    /// kept. When the report interval has passed and something is worth
    /// reporting, the report is returned and the counts start over.
    pub fn observe(&mut self, profile: DesktopFrameProfile, context: C, now_ns: u64) -> (r: Option<
        DesktopFrameReport<C>,
    >)
        requires
            profile.wf(),
            old(self).frames < usize::MAX,
            old(self).slow_cpu_frames < usize::MAX,
            old(self).present_stall_frames < usize::MAX,
        ensures
            !old(self).enabled ==> r is None && final(self).frames == old(self).frames
                && final(self).worst == old(self).worst && final(self).last_report_ns == old(self).last_report_ns,
            old(self).enabled ==> ({
                let cpu = cpu_total(profile.stages@);
                let acquire = named_total(profile.stages@, "surface_acquire"@);
                let submit = named_total(profile.stages@, "queue_submit"@);
                let present = named_total(profile.stages@, "present"@);
                let cpu_slow = cpu >= old(self).budget_ns;
                let stall = acquire >= old(self).present_stall_budget_ns || submit
                    >= old(self).present_stall_budget_ns || present >= old(self).present_stall_budget_ns;
                let score = frame_score(cpu as u64, acquire as u64, submit as u64, present as u64);
                let kept = (cpu_slow || stall || old(self).log_all) && (old(self).worst is None
                    || score > old(self).worst->0.score_ns);
                let frames = old(self).frames + 1;
                let slow = old(self).slow_cpu_frames + (if cpu_slow { 1int } else { 0int });
                let stalls = old(self).present_stall_frames + (if stall { 1int } else { 0int });
                let due = match old(self).last_report_ns {
                    None => true,
                    Some(t) => since(now_ns, t) >= old(self).report_interval_ns,
                };
                let reported = due && (slow > 0 || stalls > 0 || old(self).log_all);
                &&& kept ==> ({
                    let w = if reported { r->0.worst->0 } else { final(self).worst->0 };
                    &&& (if reported { r->0.worst is Some } else { final(self).worst is Some })
                    &&& w.wall_ns == all_total(profile.stages@)
                    &&& w.cpu_ns == cpu && w.surface_acquire_ns == acquire
                    &&& w.queue_submit_ns == submit && w.present_ns == present
                    &&& w.score_ns == score
                    &&& w.stages@ == profile.stages@
                    &&& w.context == context
                })
                &&& !kept ==> (if reported { r->0.worst == old(self).worst } else { final(self).worst
                    == old(self).worst })
                &&& if reported {
                    &&& r is Some
                    &&& r->0.window_frames == frames
                    &&& r->0.slow_cpu_frames == slow
                    &&& r->0.present_stall_frames == stalls
                    &&& r->0.cpu_budget_ns == old(self).budget_ns
                    &&& r->0.present_stall_budget_ns == old(self).present_stall_budget_ns
                    &&& final(self).frames == 0 && final(self).slow_cpu_frames == 0
                    &&& final(self).present_stall_frames == 0 && final(self).worst is None
                    &&& final(self).last_report_ns == Some(now_ns)
                } else {
                    &&& r is None
                    &&& final(self).frames == frames
                    &&& final(self).slow_cpu_frames == slow
                    &&& final(self).present_stall_frames == stalls
                    &&& final(self).last_report_ns == old(self).last_report_ns
                }
            }),
            final(self).enabled == old(self).enabled,
            final(self).log_all == old(self).log_all,
            final(self).budget_ns == old(self).budget_ns,
            final(self).present_stall_budget_ns == old(self).present_stall_budget_ns,
            final(self).report_interval_ns == old(self).report_interval_ns,
    {
        if !self.enabled {
            return None;
        }
        proof {
            lemma_named_le_all(profile.stages@, "surface_acquire"@);
            lemma_named_le_all(profile.stages@, "queue_submit"@);
            lemma_named_le_all(profile.stages@, "present"@);
        }
        self.frames = self.frames + 1;
        let wall = profile.total_duration();
        let cpu = profile.cpu_duration();
        let surface_acquire = profile.stage_duration("surface_acquire");
        let queue_submit = profile.stage_duration("queue_submit");
        let present = profile.stage_duration("present");
        let cpu_slow = cpu >= self.budget_ns;
        let present_stall = surface_acquire >= self.present_stall_budget_ns || queue_submit
            >= self.present_stall_budget_ns || present >= self.present_stall_budget_ns;
        if cpu_slow || present_stall || self.log_all {
            if cpu_slow {
                self.slow_cpu_frames = self.slow_cpu_frames + 1;
            }
            if present_stall {
                self.present_stall_frames = self.present_stall_frames + 1;
            }
            let a = if cpu >= surface_acquire { cpu } else { surface_acquire };
            let b = if a >= queue_submit { a } else { queue_submit };
            let score = if b >= present { b } else { present };
            let replace_worst = match &self.worst {
                None => true,
                Some(sample) => score > sample.score_ns,
            };
            if replace_worst {
                self.worst = Some(
                    DesktopFrameSlowSample {
                        wall_ns: wall,
                        cpu_ns: cpu,
                        surface_acquire_ns: surface_acquire,
                        queue_submit_ns: queue_submit,
                        present_ns: present,
                        score_ns: score,
                        stages: profile.stages,
                        context,
                    },
                );
            }
        }
        let report_due = match self.last_report_ns {
            None => true,
            Some(t) => (if now_ns >= t {
                now_ns - t
            } else {
                0
            }) >= self.report_interval_ns,
        };
        if report_due && (self.slow_cpu_frames > 0 || self.present_stall_frames > 0 || self.log_all) {
            Some(self.report(now_ns))
        } else {
            None
        }
    }
}

/// Input waiting to be painted.
#[derive(Clone, Copy, Debug)]
pub struct DesktopPendingInteraction {
    pub kind: &'static str,
    pub started_at_ms: u64,
    pub count: usize,
}

/// Tracks the oldest input not yet painted.
#[derive(Clone, Copy, Debug)]
pub struct DesktopInteractionLatencyProfiler {
    pub enabled: bool,
    pub log_all: bool,
    pub budget_ms: u64,
    pub pending: Option<DesktopPendingInteraction>,
}

impl DesktopInteractionLatencyProfiler {
    /// `new`: a profiler with the given switches and latency budget, nothing pending.
    pub fn new(enabled: bool, log_all: bool, budget_ms: u64) -> (r: Self)
        ensures
            r == (DesktopInteractionLatencyProfiler { enabled, log_all, budget_ms, pending: None }),
    {
        DesktopInteractionLatencyProfiler { enabled, log_all, budget_ms, pending: None }
    }

    /// `mark`: notes input of `kind` at `started_at_ms`; merges into the pending
    /// interaction (earliest start, `mixed` kind when kinds differ).
    pub fn mark(&mut self, kind: &'static str, started_at_ms: u64)
        ensures
            !old(self).enabled ==> *final(self) == *old(self),
            old(self).enabled ==> final(self).enabled && final(self).log_all == old(self).log_all
                && final(self).budget_ms == old(self).budget_ms,
            old(self).enabled && old(self).pending is None ==> final(self).pending == Some(
                DesktopPendingInteraction { kind, started_at_ms, count: 1 },
            ),
            old(self).enabled && old(self).pending is Some ==> ({
                let p = old(self).pending->0;
                let q = final(self).pending->0;
                &&& final(self).pending is Some
                &&& q.started_at_ms == (if started_at_ms < p.started_at_ms {
                    started_at_ms
                } else {
                    p.started_at_ms
                })
                &&& q.kind@ == (if p.kind@ == kind@ { p.kind@ } else { "mixed"@ })
                &&& q.count == (if p.count == usize::MAX { p.count } else { (p.count + 1) as usize })
            }),
    {
        if !self.enabled {
            return;
        }
        match self.pending {
            Some(p) => {
                let started = if started_at_ms < p.started_at_ms {
                    started_at_ms
                } else {
                    p.started_at_ms
                };
                let a = chars_of(p.kind);
                let b = chars_of(kind);
                let merged_kind: &'static str = if chars_eq(a.as_slice(), b.as_slice()) {
                    p.kind
                } else {
                    "mixed"
                };
                let count = if p.count == usize::MAX {
                    p.count
                } else {
                    p.count + 1
                };
                self.pending = Some(
                    DesktopPendingInteraction { kind: merged_kind, started_at_ms: started, count },
                );
            },
            None => {
                self.pending = Some(DesktopPendingInteraction { kind, started_at_ms, count: 1 });
            },
        }
    }

    /// `pending_kind`: the kind of input waiting to be painted.
    pub fn pending_kind(&self) -> (r: Option<&'static str>)
        ensures
            r == match self.pending {
                Some(p) => Some(p.kind),
                None => None,
            },
    {
        match self.pending {
            Some(p) => Some(p.kind),
            None => None,
        }
    }

    /// `observe_presented`: takes the pending interaction when a frame is
    /// presented at `now_ms`; returns its latency when it should be reported.
    pub fn observe_presented(&mut self, now_ms: u64) -> (r: Option<(DesktopPendingInteraction, u64)>)
        ensures
            final(self).pending is None,
            final(self).enabled == old(self).enabled,
            final(self).log_all == old(self).log_all,
            final(self).budget_ms == old(self).budget_ms,
            r == match old(self).pending {
                None => None,
                Some(p) => {
                    let latency: u64 = if now_ms >= p.started_at_ms {
                        (now_ms - p.started_at_ms) as u64
                    } else {
                        0
                    };
                    if !old(self).enabled || (latency < old(self).budget_ms && !old(self).log_all) {
                        None
                    } else {
                        Some((p, latency))
                    }
                },
            },
    {
        let pending = match self.pending {
            Some(p) => p,
            None => {
                return None;
            },
        };
        self.pending = None;
        if !self.enabled {
            return None;
        }
        let latency = if now_ms >= pending.started_at_ms {
            now_ms - pending.started_at_ms
        } else {
            0
        };
        if latency < self.budget_ms && !self.log_all {
            return None;
        }
        Some((pending, latency))
    }
}

/// What the loop tells the no-paint watchdog about the current tick.
#[derive(Clone, Copy, Debug)]
pub struct NoPaintWatchdogContext {
    pub active: bool,
    pub mode: &'static str,
    pub has_background_work: bool,
    pub frame_animation_active: bool,
    pub pending_backend_redraw: bool,
    pub pending_interaction_kind: Option<&'static str>,
}

/// Requests redraws (and reports) when an active app has not painted for too long.
#[derive(Clone, Copy, Debug)]
pub struct DesktopNoPaintWatchdog {
    pub enabled: bool,
    pub log_all: bool,
    pub budget_ms: u64,
    pub report_interval_ms: u64,
    pub last_presented_at_ms: u64,
    pub last_reported_at_ms: Option<u64>,
    pub last_redraw_request_at_ms: Option<u64>,
}

/// What one watchdog tick asks for.
#[derive(Clone, Copy, Debug, PartialEq, Eq, Structural)]
pub struct NoPaintWatchdogTick {
    pub redraw: bool,
    pub report_gap_ms: Option<u64>,
}

pub open spec fn since(now: u64, then: u64) -> u64 {
    if now >= then { (now - then) as u64 } else { 0 }
}

impl DesktopNoPaintWatchdog {
    /// `new_with_start_and_mode`: a watchdog whose clock starts at `now_ms`;
    /// `enabled` and `log_all` come from the frame profile mode.
    pub fn new_with_start_and_mode(
        now_ms: u64,
        enabled: bool,
        log_all: bool,
        budget_ms: u64,
        report_interval_ms: u64,
    ) -> (r: Self)
        ensures
            r == (DesktopNoPaintWatchdog {
                enabled,
                log_all,
                budget_ms,
                report_interval_ms,
                last_presented_at_ms: now_ms,
                last_reported_at_ms: None,
                last_redraw_request_at_ms: None,
            }),
    {
        DesktopNoPaintWatchdog {
            enabled,
            log_all,
            budget_ms,
            report_interval_ms,
            last_presented_at_ms: now_ms,
            last_reported_at_ms: None,
            last_redraw_request_at_ms: None,
        }
    }

    /// `observe_presented`: a frame reached the screen at `now_ms`.
    pub fn observe_presented(&mut self, now_ms: u64)
        ensures
            *final(self) == (DesktopNoPaintWatchdog {
                last_presented_at_ms: now_ms,
                last_reported_at_ms: None,
                last_redraw_request_at_ms: None,
                ..*old(self)
            }),
    {
        self.last_presented_at_ms = now_ms;
        self.last_reported_at_ms = None;
        self.last_redraw_request_at_ms = None;
    }

    /// `observe_active_tick`: while the app is active and has not painted for
    /// the budget, asks for a redraw at most once per backend redraw interval
    /// and a report at most once per report interval.
    pub fn observe_active_tick(&mut self, now_ms: u64, context: NoPaintWatchdogContext) -> (r:
        NoPaintWatchdogTick)
        ensures
            *final(self) == watchdog_after_tick(*old(self), now_ms, context.active),
            r == watchdog_tick(*old(self), now_ms, context.active),
    {
        if !self.enabled {
            return NoPaintWatchdogTick { redraw: false, report_gap_ms: None };
        }
        if !context.active {
            self.last_reported_at_ms = None;
            self.last_redraw_request_at_ms = None;
            return NoPaintWatchdogTick { redraw: false, report_gap_ms: None };
        }
        let gap = if now_ms >= self.last_presented_at_ms {
            now_ms - self.last_presented_at_ms
        } else {
            0
        };
        if gap < self.budget_ms && !self.log_all {
            return NoPaintWatchdogTick { redraw: false, report_gap_ms: None };
        }
        let report_due = match self.last_reported_at_ms {
            None => true,
            Some(t) => (if now_ms >= t {
                now_ms - t
            } else {
                0
            }) >= self.report_interval_ms,
        };
        let mut report_gap_ms: Option<u64> = None;
        if report_due {
            self.last_reported_at_ms = Some(now_ms);
            report_gap_ms = Some(gap);
        }
        let redraw_due = match self.last_redraw_request_at_ms {
            None => true,
            Some(t) => (if now_ms >= t {
                now_ms - t
            } else {
                0
            }) >= BACKEND_REDRAW_FRAME_INTERVAL_MS,
        };
        if redraw_due {
            self.last_redraw_request_at_ms = Some(now_ms);
        }
        NoPaintWatchdogTick { redraw: redraw_due, report_gap_ms }
    }
}

/// The watchdog is past its budget at `now`: the app has gone `budget` without
/// painting, or every tick is logged.
pub open spec fn over_budget(w: DesktopNoPaintWatchdog, now: u64) -> bool {
    !(since(now, w.last_presented_at_ms) < w.budget_ms && !w.log_all)
}

pub open spec fn report_due(w: DesktopNoPaintWatchdog, now: u64) -> bool {
    match w.last_reported_at_ms {
        None => true,
        Some(t) => since(now, t) >= w.report_interval_ms,
    }
}

pub open spec fn redraw_due(w: DesktopNoPaintWatchdog, now: u64) -> bool {
    match w.last_redraw_request_at_ms {
        None => true,
        Some(t) => since(now, t) >= BACKEND_REDRAW_FRAME_INTERVAL_MS,
    }
}

/// What a tick at `now` asks for.
pub open spec fn watchdog_tick(w: DesktopNoPaintWatchdog, now: u64, active: bool) -> NoPaintWatchdogTick {
    if w.enabled && active && over_budget(w, now) {
        NoPaintWatchdogTick {
            redraw: redraw_due(w, now),
            report_gap_ms: if report_due(w, now) {
                Some(since(now, w.last_presented_at_ms))
            } else {
                None
            },
        }
    } else {
        NoPaintWatchdogTick { redraw: false, report_gap_ms: None }
    }
}

/// The watchdog after a tick at `now`.
pub open spec fn watchdog_after_tick(w: DesktopNoPaintWatchdog, now: u64, active: bool) -> DesktopNoPaintWatchdog {
    if !w.enabled {
        w
    } else if !active {
        DesktopNoPaintWatchdog { last_reported_at_ms: None, last_redraw_request_at_ms: None, ..w }
    } else if !over_budget(w, now) {
        w
    } else {
        DesktopNoPaintWatchdog {
            last_reported_at_ms: if report_due(w, now) {
                Some(now)
            } else {
                w.last_reported_at_ms
            },
            last_redraw_request_at_ms: if redraw_due(w, now) {
                Some(now)
            } else {
                w.last_redraw_request_at_ms
            },
            ..w
        }
    }
}

/// Redraw requests are paced: after an active tick at `t1` that asked for a
/// redraw, an active tick at `t2` less than one redraw interval later asks
/// for none.
pub proof fn lemma_watchdog_redraws_paced(w: DesktopNoPaintWatchdog, t1: u64, t2: u64)
    requires
        watchdog_tick(w, t1, true).redraw,
        t1 <= t2,
        t2 - t1 < BACKEND_REDRAW_FRAME_INTERVAL_MS,
    ensures
        !watchdog_tick(watchdog_after_tick(w, t1, true), t2, true).redraw,
{
}

/// Reports are paced the same way, by the report interval.
pub proof fn lemma_watchdog_reports_paced(w: DesktopNoPaintWatchdog, t1: u64, t2: u64)
    requires
        watchdog_tick(w, t1, true).report_gap_ms is Some,
        t1 <= t2,
        t2 - t1 < w.report_interval_ms,
    ensures
        watchdog_tick(watchdog_after_tick(w, t1, true), t2, true).report_gap_ms is None,
{
}

/// A watchdog that is off never asks for anything, and a painted frame quiets
/// it until the budget has passed again (unless every tick is logged).
pub proof fn lemma_watchdog_quiet(w: DesktopNoPaintWatchdog, presented: u64, now: u64, active: bool)
    requires
        !w.log_all,
        presented <= now,
        now - presented < w.budget_ms,
    ensures
        watchdog_tick(
            DesktopNoPaintWatchdog {
                last_presented_at_ms: presented,
                last_reported_at_ms: None,
                last_redraw_request_at_ms: None,
                ..w
            },
            now,
            active,
        ) == (NoPaintWatchdogTick { redraw: false, report_gap_ms: None }),
        !w.enabled ==> watchdog_tick(w, now, active) == (NoPaintWatchdogTick {
            redraw: false,
            report_gap_ms: None,
        }),
{
}

} // verus!
