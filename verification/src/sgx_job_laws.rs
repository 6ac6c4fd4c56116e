//! What the operations on second-factor proof jobs do to jobs.

use vstd::prelude::*;

use crate::sgx_jobs::{
    is_eligible, is_next, is_processing_timed_out, Sgx2faDal, Sgx2faJob, Sgx2faJobStatus,
};
use crate::types::L1BatchNumber;

verus! {

/// A job in progress is abandoned once it has been processed for more than 10 minutes.
pub proof fn law_processing_times_out(micros_in_progress: u64, is_timed_out: bool)
    requires
        call_ensures(is_processing_timed_out, (micros_in_progress,), is_timed_out),
    ensures
        is_timed_out <==> micros_in_progress > 10 * 60 * 1_000_000,
{
}

/// Skipped and successful jobs are final, and so are jobs that have failed after 10 attempts. All
/// others are not.
pub proof fn law_final_statuses(status: Sgx2faJobStatus, attempts: i16, is_final: bool)
    requires
        call_ensures(Sgx2faJobStatus::is_final, (status, attempts), is_final),
    ensures
        status is ManuallySkipped || status is Successful ==> is_final,
        status is Queued || status is InProgress ==> !is_final,
        status is Failed ==> (is_final <==> attempts >= 10),
{
}

/// A queued job can be handed out; a job in progress can be once its processing has timed out; a failed
/// one can be as long as it has less than 10 attempts, whenever it was handed out; and skipped and
/// successful ones cannot. Unless a job is in progress, it can be handed out if and only if its status
/// is not final.
pub proof fn law_status_decides_on_handing_out(
    job: &Sgx2faJob,
    can_be_handed_out: bool,
    is_final: bool,
)
    requires
        call_ensures(Sgx2faJob::can_be_handed_out, (job,), can_be_handed_out),
        call_ensures(Sgx2faJobStatus::is_final, (job.status, job.attempts), is_final),
    ensures
        job.status is Queued ==> can_be_handed_out,
        job.status is InProgress ==> (can_be_handed_out <==> job.is_timed_out),
        job.status is Failed ==> (can_be_handed_out <==> job.attempts < 10),
        job.status is ManuallySkipped || job.status is Successful ==> !can_be_handed_out,
        !(job.status is InProgress) ==> (can_be_handed_out <==> !is_final),
        is_final ==> !can_be_handed_out,
{
}

/// Whether a job can be handed out does not depend on its batch, and depends on its timeout only while
/// it is in progress.
pub proof fn law_timeout_matters_only_in_progress(
    job: &Sgx2faJob,
    can_be_handed_out: bool,
    other: &Sgx2faJob,
    other_can_be_handed_out: bool,
)
    requires
        call_ensures(Sgx2faJob::can_be_handed_out, (job,), can_be_handed_out),
        call_ensures(Sgx2faJob::can_be_handed_out, (other,), other_can_be_handed_out),
        job.status == other.status,
        job.attempts == other.attempts,
        job.status is InProgress ==> job.is_timed_out == other.is_timed_out,
    ensures
        can_be_handed_out == other_can_be_handed_out,
{
}

/// A new job is queued, has not been handed out, and is added after the existing ones. Jobs that exist
/// do not change; if one of them is for the batch, none is added.
pub proof fn law_created_job_is_queued<S>(
    dal: &mut Sgx2faDal<'_, S>,
    jobs: &mut Vec<Sgx2faJob>,
    l1_batch_number: L1BatchNumber,
    res: sqlx::Result<()>,
)
    requires
        call_ensures(Sgx2faDal::<'_, S>::create_sgx_2fa_job, (dal, jobs, l1_batch_number), res),
    ensures
        res is Ok,
        final(dal).spec_storage() == old(dal).spec_storage(),
        forall|i: int|
            0 <= i < old(jobs)@.len() ==> i < final(jobs)@.len() && (#[trigger] final(jobs)@[i])
                == old(jobs)@[i],
        (exists|i: int|
            0 <= i < old(jobs)@.len() && (#[trigger] old(jobs)@[i]).l1_batch_number
                == l1_batch_number) ==> final(jobs)@.len() == old(jobs)@.len(),
        (forall|i: int|
            0 <= i < old(jobs)@.len() ==> (#[trigger] old(jobs)@[i]).l1_batch_number
                != l1_batch_number) ==> {
            &&& final(jobs)@.len() == old(jobs)@.len() + 1
            &&& final(jobs)@.last().l1_batch_number == l1_batch_number
            &&& final(jobs)@.last().status is Queued
            &&& final(jobs)@.last().attempts == 0
            &&& !final(jobs)@.last().is_timed_out
        },
{
}

/// The next job is one that can be handed out, and no job that can be has a lower batch number. It
/// becomes a job in progress with one more attempt, whose processing time starts anew; all other jobs
/// stay as they are. If no job is handed out, none can be.
pub proof fn law_lowest_job_is_handed_out<S>(
    dal: &mut Sgx2faDal<'_, S>,
    jobs: &mut Vec<Sgx2faJob>,
    res: sqlx::Result<Option<L1BatchNumber>>,
    row: int,
    can_be_handed_out: bool,
)
    requires
        call_ensures(Sgx2faDal::<'_, S>::get_next_sgx_2fa_job, (dal, jobs), res),
        0 <= row < old(jobs)@.len(),
        call_ensures(Sgx2faJob::can_be_handed_out, (&old(jobs)@[row],), can_be_handed_out),
    ensures
        final(dal).spec_storage() == old(dal).spec_storage(),
        final(jobs)@.len() == old(jobs)@.len(),
        final(jobs)@[row].l1_batch_number == old(jobs)@[row].l1_batch_number,
        res matches Ok(Some(next)) ==> {
            &&& can_be_handed_out ==> next.0 <= old(jobs)@[row].l1_batch_number.0
            &&& old(jobs)@[row].l1_batch_number != next ==> final(jobs)@[row] == old(jobs)@[row]
            &&& old(jobs)@[row].l1_batch_number == next && old(jobs)@[row].attempts < i16::MAX ==> {
                &&& final(jobs)@[row].status is InProgress
                &&& final(jobs)@[row].attempts == old(jobs)@[row].attempts + 1
                &&& !final(jobs)@[row].is_timed_out
            }
        },
        res matches Ok(None) ==> {
            &&& !can_be_handed_out
            &&& final(jobs)@[row] == old(jobs)@[row]
        },
        res is Ok,
{
}

/// The job that is handed out exists and could be handed out: it was queued, had timed out, or had
/// failed less than 10 times.
pub proof fn law_handed_out_job_could_be<S>(
    dal: &mut Sgx2faDal<'_, S>,
    jobs: &mut Vec<Sgx2faJob>,
    next: L1BatchNumber,
) -> (row: int)
    requires
        call_ensures(
            Sgx2faDal::<'_, S>::get_next_sgx_2fa_job,
            (dal, jobs),
            Ok::<Option<L1BatchNumber>, sqlx::Error>(Some(next)),
        ),
    ensures
        0 <= row < old(jobs)@.len(),
        old(jobs)@[row].l1_batch_number == next,
        ({
            let job = old(jobs)@[row];
            ||| job.status is Queued
            ||| job.status is InProgress && job.is_timed_out
            ||| job.status is Failed && job.attempts < 10
        }),
{
    assert(is_next(old(jobs)@, next));
    choose|row: int|
        0 <= row < old(jobs)@.len() && is_eligible(#[trigger] old(jobs)@[row])
            && old(jobs)@[row].l1_batch_number == next
}

/// The number of attempts is that of a job for the batch, and is known if there is one.
pub proof fn law_attempts_are_of_job<S>(
    dal: &mut Sgx2faDal<'_, S>,
    jobs: &[Sgx2faJob],
    l1_batch_number: L1BatchNumber,
    res: sqlx::Result<Option<u32>>,
)
    requires
        call_ensures(
            Sgx2faDal::<'_, S>::get_sgx_2fa_job_attempts,
            (dal, jobs, l1_batch_number),
            res,
        ),
    ensures
        res is Ok,
        final(dal).spec_storage() == old(dal).spec_storage(),
        res matches Ok(Some(attempts)) ==> exists|i: int|
            0 <= i < jobs@.len() && (#[trigger] jobs@[i]).l1_batch_number == l1_batch_number
                && jobs@[i].attempts as u32 == attempts,
        res matches Ok(None) ==> forall|i: int|
            0 <= i < jobs@.len() ==> (#[trigger] jobs@[i]).l1_batch_number != l1_batch_number,
{
}

/// Marking a job as successful changes its status alone, and does not change other jobs.
pub proof fn law_successful_job_keeps_attempts<S>(
    dal: &mut Sgx2faDal<'_, S>,
    jobs: &mut Vec<Sgx2faJob>,
    l1_batch_number: L1BatchNumber,
    res: sqlx::Result<()>,
    row: int,
)
    requires
        call_ensures(
            Sgx2faDal::<'_, S>::mark_job_as_successful,
            (dal, jobs, l1_batch_number),
            res,
        ),
        0 <= row < old(jobs)@.len(),
    ensures
        res is Ok,
        final(dal).spec_storage() == old(dal).spec_storage(),
        final(jobs)@.len() == old(jobs)@.len(),
        final(jobs)@[row].l1_batch_number == old(jobs)@[row].l1_batch_number,
        final(jobs)@[row].attempts == old(jobs)@[row].attempts,
        final(jobs)@[row].is_timed_out == old(jobs)@[row].is_timed_out,
        old(jobs)@[row].l1_batch_number == l1_batch_number
            ==> final(jobs)@[row].status is Successful,
        old(jobs)@[row].l1_batch_number != l1_batch_number ==> final(jobs)@[row].status == old(
            jobs,
        )@[row].status,
{
}

/// Marking a job as failed changes its status alone, unless the job is successful, and does not change
/// other jobs. The returned number of attempts is that of a job that has been marked; there is none if
/// no job has been.
pub proof fn law_failed_job_keeps_attempts<S>(
    dal: &mut Sgx2faDal<'_, S>,
    jobs: &mut Vec<Sgx2faJob>,
    l1_batch_number: L1BatchNumber,
    res: sqlx::Result<Option<u32>>,
    row: int,
)
    requires
        call_ensures(Sgx2faDal::<'_, S>::mark_job_as_failed, (dal, jobs, l1_batch_number), res),
        0 <= row < old(jobs)@.len(),
    ensures
        res is Ok,
        final(dal).spec_storage() == old(dal).spec_storage(),
        final(jobs)@.len() == old(jobs)@.len(),
        final(jobs)@[row].l1_batch_number == old(jobs)@[row].l1_batch_number,
        final(jobs)@[row].attempts == old(jobs)@[row].attempts,
        final(jobs)@[row].is_timed_out == old(jobs)@[row].is_timed_out,
        old(jobs)@[row].l1_batch_number == l1_batch_number && !(old(
            jobs,
        )@[row].status is Successful) ==> {
            &&& final(jobs)@[row].status is Failed
            &&& res matches Ok(Some(_))
        },
        old(jobs)@[row].l1_batch_number != l1_batch_number || old(
            jobs,
        )@[row].status is Successful ==> final(jobs)@[row].status == old(jobs)@[row].status,
        res matches Ok(Some(attempts)) ==> exists|i: int|
            0 <= i < old(jobs)@.len() && (#[trigger] old(jobs)@[i]).l1_batch_number
                == l1_batch_number && !(old(jobs)@[i].status is Successful) && old(
                jobs,
            )@[i].attempts as u32 == attempts,
{
}

/// No jobs are left once all are deleted.
pub proof fn law_deleted_jobs_are_gone<S>(
    dal: &mut Sgx2faDal<'_, S>,
    jobs: &mut Vec<Sgx2faJob>,
    res: sqlx::Result<()>,
)
    requires
        call_ensures(Sgx2faDal::<'_, S>::delete_all_jobs, (dal, jobs), res),
    ensures
        res is Ok,
        final(jobs)@.len() == 0,
        final(dal).spec_storage() == old(dal).spec_storage(),
{
}

} // verus!
