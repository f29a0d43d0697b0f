use vstd::prelude::*;
use crate::printer::{decide, Printer};
use crate::schedule::{pushed, Job, Schedule};

verus! {

/// When a provider runs next, after a run that was due at `target_time`,
/// given `now`, the clock read before waiting for it: one interval after
/// the due time, or one interval after `now` if that has already passed.
pub open spec fn next_due_spec(target_time: u64, now: u64, interval: u64) -> int {
    if target_time + interval < now {
        now + interval
    } else {
        target_time + interval
    }
}

pub fn next_due(target_time: u64, now: u64, interval: u64) -> (r: u64)
    requires
        target_time + interval <= u64::MAX,
        now + interval <= u64::MAX,
    ensures
        r == next_due_spec(target_time, now, interval),
{
    let next = target_time + interval;
    if next < now {
        now + interval
    } else {
        next
    }
}

/// The next due time is the later of one interval after the due time and
/// one interval after `now`, and lies after `now`, when the run was not
/// late or was late by more than an interval. (A run late by less than an
/// interval keeps its cadence: it is due one interval after its due time.)
pub proof fn lemma_next_due_after_now(target_time: u64, now: u64, interval: u64)
    requires
        interval > 0,
        now <= target_time || target_time + interval < now,
    ensures
        next_due_spec(target_time, now, interval) == vstd::math::max(
            target_time + interval,
            now + interval,
        ),
        next_due_spec(target_time, now, interval) > now,
{
}

/// A provider that starts each run no later than one interval after its due
/// time keeps its cadence: each next due time is exactly one interval after
/// the last.
pub proof fn lemma_cadence_kept(target_time: u64, now: u64, interval: u64)
    requires
        now <= target_time + interval,
    ensures
        next_due_spec(target_time, now, interval) == target_time + interval,
{
}

/// Finishes one step of the main loop, after the provider of `job` has run.
///
/// `started` is the clock read before waiting for the job, `finished` the
/// clock read after the run, `refreshed` whether the run changed anything
/// and `interval` the provider's cadence. The coalescer decides at
/// `finished`, looking at the next queued job; the provider is then queued
/// again at its next due time. Returns whether the line is to be printed.
pub fn complete_job(
    schedule: &mut Schedule,
    printer: &mut Printer,
    job: Job,
    started: u64,
    finished: u64,
    refreshed: bool,
    interval: u64,
) -> (print: bool)
    requires
        old(schedule).wf(),
        job.timestamp + interval <= u64::MAX,
        started + interval <= u64::MAX,
    ensures
        final(schedule).wf(),
        (final(printer)@, print) == decide(
            old(printer)@,
            finished,
            if old(schedule)@.len() == 0 {
                Option::None
            } else {
                Option::Some(old(schedule)@[0].timestamp)
            },
            refreshed,
        ),
        pushed(
            old(schedule)@,
            final(schedule)@,
            Job {
                timestamp: next_due_spec(job.timestamp, started, interval) as u64,
                module_index: job.module_index,
            },
        ),
{
    let next = schedule.next_timestamp();
    let print = printer.require_refresh(finished, next, refreshed);
    let due = next_due(job.timestamp, started, interval);
    schedule.push_job(due, job.module_index);
    print
}

} // verus!
