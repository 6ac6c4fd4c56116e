use zksync_node_core::decimal::append_decimal;
use zksync_node_core::sgx_jobs::{
    is_processing_timed_out, Sgx2faDal, Sgx2faJob, Sgx2faJobStatus, JOB_MAX_ATTEMPT,
    JOB_PROCESSING_TIMEOUT_MICROS,
};
use zksync_node_core::types::L1BatchNumber;

fn job(number: u32, status: Sgx2faJobStatus, attempts: i16, is_timed_out: bool) -> Sgx2faJob {
    Sgx2faJob { l1_batch_number: L1BatchNumber(number), status, attempts, is_timed_out }
}

fn next_job(jobs: &[Sgx2faJob]) -> Option<L1BatchNumber> {
    let mut storage = 42;
    let mut jobs_after = jobs.to_vec();
    let next = Sgx2faDal::new(&mut storage).get_next_sgx_2fa_job(&mut jobs_after).unwrap();
    assert_eq!(storage, 42);
    for (before, after) in jobs.iter().zip(&jobs_after) {
        if Some(before.l1_batch_number) == next {
            let number = before.l1_batch_number.0;
            let attempts = before.attempts + 1;
            assert_eq!(*after, job(number, Sgx2faJobStatus::InProgress, attempts, false));
        } else {
            assert_eq!(after, before);
        }
    }
    next
}

#[test]
fn job_is_created_once() {
    let mut storage = ();
    let mut dal = Sgx2faDal::new(&mut storage);
    let mut jobs = vec![job(1, Sgx2faJobStatus::Successful, 1, false)];
    dal.create_sgx_2fa_job(&mut jobs, L1BatchNumber(2)).unwrap();
    let expected = [
        job(1, Sgx2faJobStatus::Successful, 1, false),
        job(2, Sgx2faJobStatus::Queued, 0, false),
    ];
    assert_eq!(jobs, expected);
    dal.create_sgx_2fa_job(&mut jobs, L1BatchNumber(1)).unwrap();
    dal.create_sgx_2fa_job(&mut jobs, L1BatchNumber(2)).unwrap();
    assert_eq!(jobs, expected);
    assert_eq!(dal.get_sgx_2fa_job_attempts(&jobs, L1BatchNumber(1)).unwrap(), Some(1));
    assert_eq!(dal.get_sgx_2fa_job_attempts(&jobs, L1BatchNumber(3)).unwrap(), None);
    dal.delete_all_jobs(&mut jobs).unwrap();
    assert!(jobs.is_empty());
}

#[test]
fn successful_job_cannot_fail() {
    let mut storage = ();
    let mut dal = Sgx2faDal::new(&mut storage);
    let mut jobs = vec![];
    for number in [1, 2] {
        dal.create_sgx_2fa_job(&mut jobs, L1BatchNumber(number)).unwrap();
    }
    assert_eq!(dal.get_next_sgx_2fa_job(&mut jobs).unwrap(), Some(L1BatchNumber(1)));
    assert_eq!(dal.get_next_sgx_2fa_job(&mut jobs).unwrap(), Some(L1BatchNumber(2)));
    assert_eq!(dal.get_next_sgx_2fa_job(&mut jobs).unwrap(), None);
    dal.mark_job_as_successful(&mut jobs, L1BatchNumber(1)).unwrap();
    assert_eq!(jobs[0], job(1, Sgx2faJobStatus::Successful, 1, false));
    assert_eq!(dal.mark_job_as_failed(&mut jobs, L1BatchNumber(1)).unwrap(), None);
    assert_eq!(jobs[0], job(1, Sgx2faJobStatus::Successful, 1, false));
    assert_eq!(dal.mark_job_as_failed(&mut jobs, L1BatchNumber(2)).unwrap(), Some(1));
    assert_eq!(jobs[1], job(2, Sgx2faJobStatus::Failed, 1, false));
    assert_eq!(dal.mark_job_as_failed(&mut jobs, L1BatchNumber(3)).unwrap(), None);
}

#[test]
fn failing_job_is_retried_ten_times() {
    let mut storage = ();
    let mut dal = Sgx2faDal::new(&mut storage);
    let mut jobs = vec![];
    dal.create_sgx_2fa_job(&mut jobs, L1BatchNumber(1)).unwrap();
    for attempt in 1..=10 {
        assert_eq!(dal.get_next_sgx_2fa_job(&mut jobs).unwrap(), Some(L1BatchNumber(1)));
        let attempts = dal.mark_job_as_failed(&mut jobs, L1BatchNumber(1)).unwrap();
        assert_eq!(attempts, Some(attempt));
    }
    assert_eq!(dal.get_next_sgx_2fa_job(&mut jobs).unwrap(), None);
}

#[test]
fn next_job_has_lowest_batch_number() {
    let jobs = [
        job(7, Sgx2faJobStatus::Queued, 0, false),
        job(4, Sgx2faJobStatus::Failed, 9, false),
        job(5, Sgx2faJobStatus::InProgress, 1, true),
        job(3, Sgx2faJobStatus::InProgress, 1, false),
        job(2, Sgx2faJobStatus::Failed, 10, true),
        job(1, Sgx2faJobStatus::Successful, 1, true),
        job(0, Sgx2faJobStatus::ManuallySkipped, 0, true),
    ];
    assert_eq!(next_job(&jobs), Some(L1BatchNumber(4)));
    assert_eq!(next_job(&jobs[2..]), Some(L1BatchNumber(5)));
    assert_eq!(next_job(&jobs[..1]), Some(L1BatchNumber(7)));
}

#[test]
fn there_is_no_next_job_without_eligible_jobs() {
    assert_eq!(next_job(&[]), None);
    let jobs = [
        job(3, Sgx2faJobStatus::InProgress, 1, false),
        job(2, Sgx2faJobStatus::Failed, 10, true),
        job(1, Sgx2faJobStatus::Successful, 1, true),
        job(0, Sgx2faJobStatus::ManuallySkipped, 0, true),
    ];
    assert_eq!(next_job(&jobs), None);
}

#[test]
fn final_jobs_are_never_handed_out() {
    let statuses = [
        Sgx2faJobStatus::Queued,
        Sgx2faJobStatus::ManuallySkipped,
        Sgx2faJobStatus::InProgress,
        Sgx2faJobStatus::Successful,
        Sgx2faJobStatus::Failed,
    ];
    for status in statuses {
        for attempts in [0, 9, 10, 11] {
            let can_be_handed_out = [false, true]
                .iter()
                .any(|is_timed_out| job(1, status, attempts, *is_timed_out).can_be_handed_out());
            assert_eq!(can_be_handed_out, !status.is_final(attempts));
        }
    }
}

#[test]
fn processing_times_out_after_ten_minutes() {
    assert_eq!(JOB_PROCESSING_TIMEOUT_MICROS, 10 * 60 * 1_000_000);
    assert!(!is_processing_timed_out(0));
    assert!(!is_processing_timed_out(600_000_000));
    assert!(is_processing_timed_out(600_000_001));
}

#[test]
fn failed_job_is_retried_until_attempts_are_exhausted() {
    assert_eq!(JOB_MAX_ATTEMPT, 10);
    assert!(!Sgx2faJobStatus::Failed.is_final(9));
    assert!(Sgx2faJobStatus::Failed.is_final(10));
}

#[test]
fn final_statuses() {
    assert!(!Sgx2faJobStatus::Queued.is_final(10));
    assert!(!Sgx2faJobStatus::InProgress.is_final(10));
    assert!(Sgx2faJobStatus::Successful.is_final(0));
    assert!(Sgx2faJobStatus::ManuallySkipped.is_final(0));
}

#[test]
fn decimal_notation() {
    for value in [0, 7, 10, 99, 100, 1_234_567_890, u64::MAX] {
        let mut text = String::from("#");
        append_decimal(&mut text, value);
        assert_eq!(text, format!("#{value}"));
    }
}
