//! Second-factor proof jobs: one job for each L1 batch.

use vstd::prelude::*;

use crate::types::L1BatchNumber;

verus! {

/// The error of `sqlx` on accessing the storage.
#[verifier::external_type_specification]
#[verifier::external_body]
pub struct ExSqlxError(sqlx::Error);

/// The amount of attempts to process a job before giving up.
pub const JOB_MAX_ATTEMPT: i16 = 10;

/// Time to wait for a job to be processed, in microseconds (10 minutes).
pub const JOB_PROCESSING_TIMEOUT_MICROS: u64 = 600_000_000;

/// Status of a job that the producer will work on.
#[derive(Debug, Clone, Copy, PartialEq, Eq)]
pub enum Sgx2faJobStatus {
    /// When the job is queued. Metadata calculator creates the job and marks it as queued.
    Queued,
    /// The job is not going to be processed. This state is designed for manual operations on DB.
    ManuallySkipped,
    /// Currently being processed by one of the jobs. Transitory state, will transition to either
    /// [`Sgx2faJobStatus::Successful`] or [`Sgx2faJobStatus::Failed`].
    InProgress,
    /// The final (happy case) state we expect all jobs to end up. After the run is complete,
    /// the job uploaded it's inputs, it lands in successful.
    Successful,
    /// The job failed for reasons. If it failed less than [`JOB_MAX_ATTEMPT`] times, the job will be
    /// retried, otherwise it will stay in this state as final state.
    Failed,
}

/// Whether a job is not going to be processed any more: it is successful, it is skipped, or it has
/// failed as many times as there are attempts.
pub open spec fn is_final_status(status: Sgx2faJobStatus, attempts: int) -> bool {
    match status {
        Sgx2faJobStatus::Queued | Sgx2faJobStatus::InProgress => false,
        Sgx2faJobStatus::ManuallySkipped | Sgx2faJobStatus::Successful => true,
        Sgx2faJobStatus::Failed => attempts >= JOB_MAX_ATTEMPT,
    }
}

impl Sgx2faJobStatus {
    /// Checks whether a job in this status is not going to be processed any more after the specified
    /// number of attempts. In particular, a failed job is retried until there are no attempts left.
    pub fn is_final(self, attempts: i16) -> (res: bool)
        ensures
            res == is_final_status(self, attempts as int),
    {
        match self {
            Sgx2faJobStatus::Queued | Sgx2faJobStatus::InProgress => false,
            Sgx2faJobStatus::ManuallySkipped | Sgx2faJobStatus::Successful => true,
            Sgx2faJobStatus::Failed => attempts >= JOB_MAX_ATTEMPT,
        }
    }
}

/// Checks whether a job that has been in progress for the specified time, in microseconds, counts as
/// abandoned.
pub fn is_processing_timed_out(micros_in_progress: u64) -> (res: bool)
    ensures
        res == (micros_in_progress > JOB_PROCESSING_TIMEOUT_MICROS),
{
    micros_in_progress > JOB_PROCESSING_TIMEOUT_MICROS
}

/// A stored job.
#[derive(Debug, Clone, Copy, PartialEq, Eq)]
pub struct Sgx2faJob {
    /// The L1 batch that the job is about.
    pub l1_batch_number: L1BatchNumber,
    /// Status of the job.
    pub status: Sgx2faJobStatus,
    /// How many times the job has been handed out.
    pub attempts: i16,
    /// Whether the job was handed out longer ago than the processing timeout; see
    /// [`is_processing_timed_out()`]. Only matters while the job is in progress.
    pub is_timed_out: bool,
}

/// Whether a job can be handed out: it is queued, its processing has timed out, or it has failed and
/// there are attempts left.
pub open spec fn is_eligible(job: Sgx2faJob) -> bool {
    match job.status {
        Sgx2faJobStatus::Queued => true,
        Sgx2faJobStatus::InProgress => job.is_timed_out,
        Sgx2faJobStatus::Failed => job.attempts < JOB_MAX_ATTEMPT,
        Sgx2faJobStatus::ManuallySkipped | Sgx2faJobStatus::Successful => false,
    }
}

impl Sgx2faJob {
    /// Checks whether the job can be handed out.
    pub fn can_be_handed_out(&self) -> (res: bool)
        ensures
            res == is_eligible(*self),
    {
        if self.status.is_final(self.attempts) {
            return false;
        }
        match self.status {
            Sgx2faJobStatus::InProgress => self.is_timed_out,
            _ => true,
        }
    }
}

/// A new job for a batch.
pub open spec fn queued_job(l1_batch_number: L1BatchNumber) -> Sgx2faJob {
    Sgx2faJob {
        l1_batch_number,
        status: Sgx2faJobStatus::Queued,
        attempts: 0,
        is_timed_out: false,
    }
}

/// A change of a stored job.
#[derive(Debug, Clone, Copy, PartialEq, Eq)]
pub enum JobUpdate {
    /// The job is handed out to be processed.
    HandOut,
    /// The job has been processed.
    MarkAsSuccessful,
    /// Processing of the job has failed.
    MarkAsFailed,
}

/// The job after a change. Handing a job out counts as an attempt and restarts its processing time. A
/// successful job cannot fail any more.
pub open spec fn updated(job: Sgx2faJob, update: JobUpdate) -> Sgx2faJob {
    match update {
        JobUpdate::HandOut => Sgx2faJob {
            status: Sgx2faJobStatus::InProgress,
            attempts: (job.attempts + 1) as i16,
            is_timed_out: false,
            ..job
        },
        JobUpdate::MarkAsSuccessful => Sgx2faJob { status: Sgx2faJobStatus::Successful, ..job },
        JobUpdate::MarkAsFailed => if job.status is Successful {
            job
        } else {
            Sgx2faJob { status: Sgx2faJobStatus::Failed, ..job }
        },
    }
}

impl Sgx2faJob {
    /// Returns the job after a change.
    fn update(&self, update: JobUpdate) -> (res: Sgx2faJob)
        requires
            update is HandOut ==> self.attempts < i16::MAX,
        ensures
            res == updated(*self, update),
    {
        let mut job = *self;
        match update {
            JobUpdate::HandOut => {
                job.status = Sgx2faJobStatus::InProgress;
                job.attempts += 1;
                job.is_timed_out = false;
            },
            JobUpdate::MarkAsSuccessful => job.status = Sgx2faJobStatus::Successful,
            JobUpdate::MarkAsFailed => match self.status {
                Sgx2faJobStatus::Successful => {},
                _ => job.status = Sgx2faJobStatus::Failed,
            },
        }
        job
    }
}

/// Whether there is a job for a batch.
pub open spec fn has_job(jobs: Seq<Sgx2faJob>, l1_batch_number: L1BatchNumber) -> bool {
    exists|i: int|
        0 <= i < jobs.len() && (#[trigger] jobs[i]).l1_batch_number == l1_batch_number
}

/// Whether there is at most one job for each batch.
pub open spec fn have_distinct_batches(jobs: Seq<Sgx2faJob>) -> bool {
    forall|i: int, j: int|
        0 <= i < j < jobs.len() ==> (#[trigger] jobs[i]).l1_batch_number != (
        #[trigger] jobs[j]).l1_batch_number
}

/// The jobs with one for the specified batch, which is new if there has not been any.
pub open spec fn with_job(jobs: Seq<Sgx2faJob>, l1_batch_number: L1BatchNumber) -> Seq<Sgx2faJob> {
    if has_job(jobs, l1_batch_number) {
        jobs
    } else {
        jobs.push(queued_job(l1_batch_number))
    }
}

/// The jobs with a change made to the job for the specified batch.
pub open spec fn with_update(
    jobs: Seq<Sgx2faJob>,
    l1_batch_number: L1BatchNumber,
    update: JobUpdate,
) -> Seq<Sgx2faJob> {
    jobs.map_values(
        |job: Sgx2faJob|
            if job.l1_batch_number == l1_batch_number {
                updated(job, update)
            } else {
                job
            },
    )
}

/// Makes a change to the job for the specified batch.
fn update_job(jobs: &mut Vec<Sgx2faJob>, l1_batch_number: L1BatchNumber, update: JobUpdate)
    requires
        update is HandOut ==> forall|i: int|
            0 <= i < old(jobs)@.len() && (#[trigger] old(jobs)@[i]).l1_batch_number
                == l1_batch_number ==> old(jobs)@[i].attempts < i16::MAX,
    ensures
        final(jobs)@ == with_update(old(jobs)@, l1_batch_number, update),
{
    let ghost before = jobs@;
    let mut i: usize = 0;
    while i < jobs.len()
        invariant
            before == old(jobs)@,
            update is HandOut ==> forall|j: int|
                0 <= j < before.len() && (#[trigger] before[j]).l1_batch_number == l1_batch_number
                    ==> before[j].attempts < i16::MAX,
            jobs@.len() == before.len(),
            i <= jobs@.len(),
            jobs@ == with_update(before, l1_batch_number, update).take(i as int) + before.skip(
                i as int,
            ),
        decreases jobs@.len() - i,
    {
        let job = jobs[i];
        assert(job == before[i as int]);
        if job.l1_batch_number.0 == l1_batch_number.0 {
            jobs.set(i, job.update(update));
        }
        i += 1;
        assert(jobs@ =~= with_update(before, l1_batch_number, update).take(i as int)
            + before.skip(i as int));
    }
    assert(jobs@ =~= with_update(before, l1_batch_number, update));
}

/// Whether the batch number is that of the next job to be handed out: some job that can be handed out
/// has it, and no such job has a lower one.
pub open spec fn is_next(jobs: Seq<Sgx2faJob>, l1_batch_number: L1BatchNumber) -> bool {
    &&& exists|i: int|
        0 <= i < jobs.len() && is_eligible(#[trigger] jobs[i]) && jobs[i].l1_batch_number
            == l1_batch_number
    &&& forall|i: int|
        0 <= i < jobs.len() && is_eligible(#[trigger] jobs[i]) ==> l1_batch_number.0
            <= jobs[i].l1_batch_number.0
}

/// Whether none of the jobs can be handed out.
pub open spec fn none_is_eligible(jobs: Seq<Sgx2faJob>) -> bool {
    forall|i: int| 0 <= i < jobs.len() ==> !is_eligible(#[trigger] jobs[i])
}

/// A job is not going to be processed any more if and only if it cannot be handed out, now or after a
/// timeout.
pub proof fn law_final_jobs_are_never_eligible(job: Sgx2faJob)
    ensures
        is_final_status(job.status, job.attempts as int) <==> !is_eligible(
            Sgx2faJob { is_timed_out: false, ..job },
        ) && !is_eligible(Sgx2faJob { is_timed_out: true, ..job }),
{
}

/// As long as there is a single job for each batch, the next job is not one that has reached a final
/// status, and there is at most one next job.
pub proof fn law_next_job_is_unique_and_not_final(
    jobs: Seq<Sgx2faJob>,
    l1_batch_number: L1BatchNumber,
    other: L1BatchNumber,
)
    requires
        have_distinct_batches(jobs),
        is_next(jobs, l1_batch_number),
    ensures
        is_next(jobs, other) ==> other == l1_batch_number,
        !none_is_eligible(jobs),
        forall|i: int|
            0 <= i < jobs.len() && (#[trigger] jobs[i]).l1_batch_number == l1_batch_number
                ==> !is_final_status(jobs[i].status, jobs[i].attempts as int),
{
    let next = choose|i: int|
        0 <= i < jobs.len() && is_eligible(#[trigger] jobs[i]) && jobs[i].l1_batch_number
            == l1_batch_number;
    if is_next(jobs, other) {
        let i = choose|i: int|
            0 <= i < jobs.len() && is_eligible(#[trigger] jobs[i]) && jobs[i].l1_batch_number
                == other;
        assert(other.0 <= jobs[next].l1_batch_number.0);
        assert(l1_batch_number.0 <= jobs[i].l1_batch_number.0);
    }
    assert forall|i: int|
        0 <= i < jobs.len() && (#[trigger] jobs[i]).l1_batch_number
            == l1_batch_number implies !is_final_status(
        jobs[i].status,
        jobs[i].attempts as int,
    ) by {
        assert(i == next) by {
            assert(jobs[next].l1_batch_number == jobs[i].l1_batch_number);
        }
    }
}

/// Neither creating nor changing jobs leads to a second job for a batch. Creating a job again changes
/// nothing.
pub proof fn law_batches_stay_distinct(
    jobs: Seq<Sgx2faJob>,
    l1_batch_number: L1BatchNumber,
    update: JobUpdate,
)
    requires
        have_distinct_batches(jobs),
    ensures
        have_distinct_batches(with_job(jobs, l1_batch_number)),
        have_distinct_batches(with_update(jobs, l1_batch_number, update)),
        has_job(with_job(jobs, l1_batch_number), l1_batch_number),
        with_job(with_job(jobs, l1_batch_number), l1_batch_number) == with_job(
            jobs,
            l1_batch_number,
        ),
{
    if !has_job(jobs, l1_batch_number) {
        let created = with_job(jobs, l1_batch_number);
        assert(created[created.len() - 1].l1_batch_number == l1_batch_number);
        assert forall|i: int, j: int| 0 <= i < j < created.len() implies (
        #[trigger] created[i]).l1_batch_number != (#[trigger] created[j]).l1_batch_number by {
            assert(created[i] == jobs[i]);
            if j < jobs.len() {
                assert(created[j] == jobs[j]);
            }
        }
    }
    let changed = with_update(jobs, l1_batch_number, update);
    assert forall|i: int, j: int| 0 <= i < j < changed.len() implies (
    #[trigger] changed[i]).l1_batch_number != (#[trigger] changed[j]).l1_batch_number by {
        assert(changed[i].l1_batch_number == jobs[i].l1_batch_number);
        assert(changed[j].l1_batch_number == jobs[j].l1_batch_number);
    }
}

/// A job that has been handed out is not handed out again until its processing times out. A job that
/// has been processed is never handed out again, and cannot fail any more.
pub proof fn law_job_is_handed_out_once(job: Sgx2faJob)
    ensures
        ({
            let in_progress = updated(job, JobUpdate::HandOut);
            &&& !is_eligible(in_progress)
            &&& is_eligible(Sgx2faJob { is_timed_out: true, ..in_progress })
        }),
        ({
            let successful = updated(job, JobUpdate::MarkAsSuccessful);
            &&& is_final_status(successful.status, successful.attempts as int)
            &&& updated(successful, JobUpdate::MarkAsFailed) == successful
        }),
{
}

/// The job after it has been handed out and has failed the specified number of times.
pub open spec fn after_failures(job: Sgx2faJob, failures: nat) -> Sgx2faJob
    decreases failures,
{
    if failures == 0 {
        job
    } else {
        let previous = after_failures(job, (failures - 1) as nat);
        updated(updated(previous, JobUpdate::HandOut), JobUpdate::MarkAsFailed)
    }
}

/// A job that fails is retried as long as it has failed less than [`JOB_MAX_ATTEMPT`] times, and stays
/// failed after that.
pub proof fn law_failing_job_is_retried(l1_batch_number: L1BatchNumber, failures: nat)
    requires
        failures <= i16::MAX,
    ensures
        ({
            let job = after_failures(queued_job(l1_batch_number), failures);
            &&& job.attempts == failures
            &&& failures > 0 ==> job.status is Failed
            &&& is_eligible(job) <==> failures < JOB_MAX_ATTEMPT
            &&& is_final_status(job.status, job.attempts as int) <==> failures >= JOB_MAX_ATTEMPT
        }),
    decreases failures,
{
    if failures > 0 {
        law_failing_job_is_retried(l1_batch_number, (failures - 1) as nat);
    }
}

/// Access to proof jobs over a storage.
#[derive(Debug)]
pub struct Sgx2faDal<'a, S> {
    storage: &'a mut S,
}

impl<'a, S> Sgx2faDal<'a, S> {
    /// The storage.
    pub closed spec fn spec_storage(&self) -> S {
        *self.storage
    }

    /// Accesses jobs over the specified storage.
    pub fn new(storage: &'a mut S) -> (res: Self)
        ensures
            res.spec_storage() == *old(storage),
    {
        Sgx2faDal { storage }
    }

    /// Creates a job for an L1 batch, unless there already is one.
    pub fn create_sgx_2fa_job(
        &mut self,
        jobs: &mut Vec<Sgx2faJob>,
        l1_batch_number: L1BatchNumber,
    ) -> (res: sqlx::Result<()>)
        ensures
            res is Ok,
            final(jobs)@ == with_job(old(jobs)@, l1_batch_number),
            final(self).spec_storage() == old(self).spec_storage(),
    {
        let mut i: usize = 0;
        while i < jobs.len()
            invariant
                *jobs == *old(jobs),
                i <= jobs@.len(),
                forall|j: int|
                    0 <= j < i ==> (#[trigger] jobs@[j]).l1_batch_number != l1_batch_number,
                self.spec_storage() == old(self).spec_storage(),
            decreases jobs@.len() - i,
        {
            if jobs[i].l1_batch_number.0 == l1_batch_number.0 {
                assert(jobs@[i as int].l1_batch_number == l1_batch_number);
                return Ok(());
            }
            i += 1;
        }
        jobs.push(
            Sgx2faJob {
                l1_batch_number,
                status: Sgx2faJobStatus::Queued,
                attempts: 0,
                is_timed_out: false,
            },
        );
        Ok(())
    }

    /// Hands out the job for the next L1 batch to be processed, and returns the number of the batch:
    /// the lowest one among the jobs that can be handed out, or `None` if there are none. `jobs` are
    /// the stored jobs that no other worker holds locked, in any order.
    pub fn get_next_sgx_2fa_job(&mut self, jobs: &mut Vec<Sgx2faJob>) -> (res: sqlx::Result<
        Option<L1BatchNumber>,
    >)
        requires
            forall|i: int|
                0 <= i < old(jobs)@.len() && is_next(
                    old(jobs)@,
                    (#[trigger] old(jobs)@[i]).l1_batch_number,
                ) ==> old(jobs)@[i].attempts < i16::MAX,
        ensures
            res matches Ok(next) && match next {
                Some(l1_batch_number) => {
                    &&& is_next(old(jobs)@, l1_batch_number)
                    &&& final(jobs)@ == with_update(
                        old(jobs)@,
                        l1_batch_number,
                        JobUpdate::HandOut,
                    )
                },
                None => none_is_eligible(old(jobs)@) && final(jobs)@ == old(jobs)@,
            },
            final(self).spec_storage() == old(self).spec_storage(),
    {
        let next = select_next(jobs.as_slice());
        if let Some(l1_batch_number) = next {
            update_job(jobs, l1_batch_number, JobUpdate::HandOut);
        }
        Ok(next)
    }

    /// Returns how many times the job for an L1 batch has been handed out, or `None` if there is no
    /// such job.
    pub fn get_sgx_2fa_job_attempts(
        &mut self,
        jobs: &[Sgx2faJob],
        l1_batch_number: L1BatchNumber,
    ) -> (res: sqlx::Result<Option<u32>>)
        ensures
            res matches Ok(attempts) && match attempts {
                Some(attempts) => exists|i: int|
                    0 <= i < jobs@.len() && (#[trigger] jobs@[i]).l1_batch_number
                        == l1_batch_number && attempts == jobs@[i].attempts as u32,
                None => !has_job(jobs@, l1_batch_number),
            },
            final(self).spec_storage() == old(self).spec_storage(),
    {
        let mut i: usize = 0;
        while i < jobs.len()
            invariant
                i <= jobs@.len(),
                forall|j: int|
                    0 <= j < i ==> (#[trigger] jobs@[j]).l1_batch_number != l1_batch_number,
                self.spec_storage() == old(self).spec_storage(),
            decreases jobs@.len() - i,
        {
            let job = &jobs[i];
            if job.l1_batch_number.0 == l1_batch_number.0 {
                assert(jobs@[i as int].l1_batch_number == l1_batch_number);
                return Ok(Some(job.attempts as u32));
            }
            i += 1;
        }
        Ok(None)
    }

    /// Marks the job for an L1 batch as successful. When it was started and where its results are is
    /// for the storage to record.
    pub fn mark_job_as_successful(
        &mut self,
        jobs: &mut Vec<Sgx2faJob>,
        l1_batch_number: L1BatchNumber,
    ) -> (res: sqlx::Result<()>)
        ensures
            res is Ok,
            final(jobs)@ == with_update(
                old(jobs)@,
                l1_batch_number,
                JobUpdate::MarkAsSuccessful,
            ),
            final(self).spec_storage() == old(self).spec_storage(),
    {
        update_job(jobs, l1_batch_number, JobUpdate::MarkAsSuccessful);
        Ok(())
    }

    /// Marks the job for an L1 batch as failed, unless it is successful. Returns how many times the
    /// job has been handed out, or `None` if no job is marked. When it was started and why it has
    /// failed is for the storage to record.
    pub fn mark_job_as_failed(
        &mut self,
        jobs: &mut Vec<Sgx2faJob>,
        l1_batch_number: L1BatchNumber,
    ) -> (res: sqlx::Result<Option<u32>>)
        ensures
            res matches Ok(attempts) && match attempts {
                Some(attempts) => exists|i: int|
                    0 <= i < old(jobs)@.len() && (#[trigger] old(jobs)@[i]).l1_batch_number
                        == l1_batch_number && !(old(jobs)@[i].status is Successful) && attempts
                        == old(jobs)@[i].attempts as u32,
                None => forall|i: int|
                    0 <= i < old(jobs)@.len() && (#[trigger] old(jobs)@[i]).l1_batch_number
                        == l1_batch_number ==> old(jobs)@[i].status is Successful,
            },
            final(jobs)@ == with_update(old(jobs)@, l1_batch_number, JobUpdate::MarkAsFailed),
            final(self).spec_storage() == old(self).spec_storage(),
    {
        let mut attempts: Option<u32> = None;
        let mut i: usize = 0;
        while i < jobs.len() && attempts.is_none()
            invariant
                *jobs == *old(jobs),
                i <= jobs@.len(),
                match attempts {
                    Some(attempts) => exists|j: int|
                        0 <= j < jobs@.len() && (#[trigger] jobs@[j]).l1_batch_number
                            == l1_batch_number && !(jobs@[j].status is Successful) && attempts
                            == jobs@[j].attempts as u32,
                    None => forall|j: int|
                        0 <= j < i && (#[trigger] jobs@[j]).l1_batch_number == l1_batch_number
                            ==> jobs@[j].status is Successful,
                },
                self.spec_storage() == old(self).spec_storage(),
            decreases jobs@.len() - i,
        {
            let job = jobs[i];
            let is_successful = matches!(job.status, Sgx2faJobStatus::Successful);
            if job.l1_batch_number.0 == l1_batch_number.0 && !is_successful {
                assert(jobs@[i as int].l1_batch_number == l1_batch_number);
                attempts = Some(job.attempts as u32);
            }
            i += 1;
        }
        update_job(jobs, l1_batch_number, JobUpdate::MarkAsFailed);
        Ok(attempts)
    }

    /// Deletes all jobs.
    pub fn delete_all_jobs(&mut self, jobs: &mut Vec<Sgx2faJob>) -> (res: sqlx::Result<()>)
        ensures
            res is Ok,
            final(jobs)@ == Seq::<Sgx2faJob>::empty(),
            final(self).spec_storage() == old(self).spec_storage(),
    {
        jobs.clear();
        Ok(())
    }
}

/// Selects the job with the lowest batch number among those that can be handed out.
fn select_next(jobs: &[Sgx2faJob]) -> (res: Option<L1BatchNumber>)
    ensures
        match res {
            Some(l1_batch_number) => is_next(jobs@, l1_batch_number),
            None => none_is_eligible(jobs@),
        },
{
    let mut next: Option<L1BatchNumber> = None;
    let mut i: usize = 0;
    while i < jobs.len()
        invariant
            i <= jobs@.len(),
            match next {
                Some(l1_batch_number) => is_next(jobs@.take(i as int), l1_batch_number),
                None => none_is_eligible(jobs@.take(i as int)),
            },
        decreases jobs@.len() - i,
    {
        let job = &jobs[i];
        let ghost seen = jobs@.take(i as int);
        let ghost seen_next = jobs@.take(i + 1);
        assert(seen_next =~= seen.push(*job));
        if job.can_be_handed_out() {
            let is_lower = match next {
                Some(l1_batch_number) => job.l1_batch_number.0 < l1_batch_number.0,
                None => true,
            };
            if is_lower {
                next = Some(job.l1_batch_number);
                assert(seen_next[i as int] == *job);
                assert forall|j: int|
                    0 <= j < seen_next.len() && is_eligible(
                        #[trigger] seen_next[j],
                    ) implies job.l1_batch_number.0 <= seen_next[j].l1_batch_number.0 by {
                    if j < i {
                        assert(seen[j] == seen_next[j]);
                    }
                }
            } else {
                proof {
                    lemma_next_is_kept(seen, *job, next->0);
                }
            }
        } else {
            proof {
                if let Some(l1_batch_number) = next {
                    lemma_next_is_kept(seen, *job, l1_batch_number);
                }
            }
        }
        i += 1;
    }
    assert(jobs@.take(i as int) =~= jobs@);
    next
}

/// The next job stays so after one more job that cannot be handed out, or is about a batch that is
/// not lower.
proof fn lemma_next_is_kept(jobs: Seq<Sgx2faJob>, job: Sgx2faJob, l1_batch_number: L1BatchNumber)
    requires
        is_next(jobs, l1_batch_number),
        is_eligible(job) ==> l1_batch_number.0 <= job.l1_batch_number.0,
    ensures
        is_next(jobs.push(job), l1_batch_number),
{
    let i = choose|i: int|
        0 <= i < jobs.len() && is_eligible(#[trigger] jobs[i]) && jobs[i].l1_batch_number
            == l1_batch_number;
    assert(jobs.push(job)[i] == jobs[i]);
    assert forall|j: int|
        0 <= j < jobs.push(job).len() && is_eligible(
            #[trigger] jobs.push(job)[j],
        ) implies l1_batch_number.0 <= jobs.push(job)[j].l1_batch_number.0 by {
        if j < jobs.len() {
            assert(jobs.push(job)[j] == jobs[j]);
        }
    }
}

} // verus!
