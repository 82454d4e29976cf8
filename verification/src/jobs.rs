//! A bound on the number of background jobs the desktop runs at once.
use vstd::prelude::*;
use std::sync::atomic::{AtomicUsize, Ordering};
use crate::text::{chars_of, concat_chars, decimal, string_from_chars, u64_decimal};

verus! {

broadcast use vstd::string::group_string_axioms;

/// Refusal to start a job: `limit` jobs are already running.
#[derive(Clone, Copy, Debug, PartialEq, Eq, Structural)]
pub struct DesktopAsyncJobLimitReached {
    pub limit: usize,
}

impl DesktopAsyncJobLimitReached {
    /// The message shown for the refusal.
    pub fn message(&self) -> (r: String)
        ensures
            r@ == "desktop async job limit reached ("@ + decimal(self.limit as nat) + ")"@,
    {
        let a = chars_of("desktop async job limit reached (");
        let n = u64_decimal(self.limit as u64);
        let b = chars_of(")");
        let an = concat_chars(a.as_slice(), n.as_slice());
        string_from_chars(concat_chars(an.as_slice(), b.as_slice()).as_slice())
    }
}

/// The job count after one more job starts, or `None` when `limit` jobs
/// already run.
pub open spec fn next_job_count_spec(current: usize, limit: usize) -> Option<usize> {
    if current >= limit {
        None
    } else {
        Some((current + 1) as usize)
    }
}

/// One step of the job counter: start a job unless `limit` are running.
pub fn next_job_count(current: usize, limit: usize) -> (r: Option<usize>)
    ensures
        r == next_job_count_spec(current, limit),
{
    if current >= limit {
        None
    } else {
        Some(current + 1)
    }
}

/// `AtomicUsize::fetch_update` with `next_job_count`: atomically moves the
/// counter one step. `fetch_update` returns `Ok` with the value it replaced
/// when the step function gave a new value, `Err` with the value it read when
/// the step function refused.
#[verifier::external_body]
fn reserve_job_slot(counter: &AtomicUsize, limit: usize) -> (r: Result<usize, usize>)
    ensures
        r matches Ok(previous) ==> next_job_count_spec(previous, limit) is Some,
        r matches Err(current) ==> next_job_count_spec(current, limit) is None,
{
    counter.fetch_update(Ordering::Acquire, Ordering::Relaxed, |current| next_job_count(current, limit))
}

/// The answer to a reservation attempt on a counter that read `outcome`.
pub fn job_slot_outcome(outcome: Result<usize, usize>, limit: usize) -> (r: Result<
    (),
    DesktopAsyncJobLimitReached,
>)
    ensures
        match outcome {
            Ok(_) => r is Ok,
            Err(_) => r == Err::<(), DesktopAsyncJobLimitReached>(
                DesktopAsyncJobLimitReached { limit },
            ),
        },
{
    match outcome {
        Ok(_) => Ok(()),
        Err(_) => Err(DesktopAsyncJobLimitReached { limit }),
    }
}

/// `try_acquire_desktop_async_job_slot`: takes a job slot from `counter`
/// unless `limit` jobs already run. On success the caller holds one slot and
/// gives it back with `release_desktop_async_job_slot`.
pub fn try_acquire_desktop_async_job_slot(counter: &AtomicUsize, limit: usize) -> (r: Result<
    (),
    DesktopAsyncJobLimitReached,
>)
    ensures
        r matches Err(e) ==> e.limit == limit,
        limit == 0 ==> r is Err,
{
    let outcome = reserve_job_slot(counter, limit);
    job_slot_outcome(outcome, limit)
}

/// Gives a job slot back.
pub fn release_desktop_async_job_slot(counter: &AtomicUsize) {
    counter.fetch_sub(1, Ordering::Relaxed);
}

} // verus!
