use tokio_cron_scheduler::Job;
use vstd::prelude::*;

verus! {

/// Whether `tokio_cron_scheduler::Job::new` accepts `schedule` as a cron expression.
pub uninterp spec fn cron_accepts(schedule: Seq<char>) -> bool;

/// Hands `schedule` to `tokio_cron_scheduler::Job::new`, with a task that does nothing,
/// and drops the job. The result is `Ok` exactly for the schedules that the crate's cron
/// parser accepts; what it accepts depends on the text alone. The only error that
/// `Job::new` gives is `JobSchedulerError::ParseSchedule`, which prints as its own name.
#[verifier::external_body]
pub(crate) fn try_schedule(schedule: &str) -> (outcome: Result<(), String>)
    ensures
        outcome is Ok <==> cron_accepts(schedule@),
        outcome matches Err(text) ==> text@ == "ParseSchedule"@,
{
    match Job::new(schedule, |_uuid, _scheduler| {}) {
        Ok(_job) => Ok(()),
        Err(error) => Err(error.to_string()),
    }
}

} // verus!
