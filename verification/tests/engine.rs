use tenant_registry::engine::exec_backoff_delay;
use tenant_registry::model::{CertStatus, ClaimOutcome, CompleteResult, EngineConfig,
    FailureReason, IssueOutcome};
use tenant_registry::registry::Registry;

fn registry_with(base: u64, max_delay: u64, max_attempts: u32, window: u64) -> Registry {
    Registry::new(EngineConfig::new(base, max_delay, max_attempts, window).unwrap())
}

#[test]
fn backoff_exact_value() {
    let cfg = EngineConfig::new(5, 1000, 3, 10).unwrap();
    // 5 * 2^3 = 40, plus jitter 7 % 5 = 2
    assert_eq!(exec_backoff_delay(&cfg, 3, 7), 42);
    // 5 * 2^0 = 5, no jitter
    assert_eq!(exec_backoff_delay(&cfg, 0, 0), 5);
}

#[test]
fn backoff_caps_at_max_delay() {
    let cfg = EngineConfig::new(5, 1000, 3, 10).unwrap();
    assert_eq!(exec_backoff_delay(&cfg, 20, 0), 1000);
    assert_eq!(exec_backoff_delay(&cfg, 63, 4), 1000 + 4);
}

#[test]
fn dequeue_respects_retry_time() {
    let mut reg = registry_with(10, 1000, 3, 10);
    reg.create_tenant("t1", "First").unwrap();
    reg.claim("t1", "example.com", 0).unwrap();
    let job = reg.dequeue(0).unwrap();
    let res = reg.complete(job, IssueOutcome::Failure { reason: FailureReason::Timeout }, 0, 0);
    let next = match res {
        CompleteResult::RetryScheduled { attempts, next_retry_at } => {
            assert_eq!(attempts, 1);
            // 10 * 2^1 = 20 after the first failed attempt
            assert_eq!(next_retry_at, 20);
            next_retry_at
        },
        other => panic!("expected a retry, got {:?}", other),
    };
    assert!(reg.dequeue(next - 1).is_none(), "not yet eligible");
    assert!(reg.dequeue(next).is_some(), "eligible at its retry time");
}

#[test]
fn retry_bound_reaches_failed_exactly_at_max() {
    // a job that always fails retryably reaches Failed after exactly
    // the configured maximum attempt count
    let max_attempts = 3;
    let mut reg = registry_with(1, 60, max_attempts, 10);
    reg.create_tenant("t1", "First").unwrap();
    reg.claim("t1", "example.com", 0).unwrap();
    let mut now = 0;
    for round in 1..=max_attempts {
        now += 1000;
        let job = reg.dequeue(now).expect("job must be eligible");
        assert_eq!(job.attempts, round - 1, "attempt count grows by exactly one per round");
        let res = reg.complete(
            job,
            IssueOutcome::Failure { reason: FailureReason::Timeout },
            now,
            0,
        );
        if round < max_attempts {
            assert!(
                matches!(res, CompleteResult::RetryScheduled { attempts, .. } if attempts == round),
                "round {}: still retrying",
                round
            );
            assert_eq!(reg.get("t1").unwrap().status, CertStatus::Pending);
        } else {
            assert_eq!(res, CompleteResult::FailedPermanently { attempts: max_attempts });
            assert_eq!(
                reg.get("t1").unwrap().status,
                CertStatus::Failed { reason: FailureReason::Timeout, attempts: max_attempts },
            );
        }
    }
    // never more: nothing is left to dequeue
    assert!(reg.dequeue(u64::MAX).is_none());
}

#[test]
fn non_retryable_failure_skips_retries() {
    let mut reg = registry_with(1, 60, 5, 10);
    reg.create_tenant("t1", "First").unwrap();
    reg.claim("t1", "example.com", 0).unwrap();
    let job = reg.dequeue(0).unwrap();
    let res = reg.complete(job, IssueOutcome::Failure { reason: FailureReason::Malformed }, 0, 0);
    assert_eq!(res, CompleteResult::FailedPermanently { attempts: 1 });
    assert_eq!(
        reg.get("t1").unwrap().status,
        CertStatus::Failed { reason: FailureReason::Malformed, attempts: 1 },
    );
}

#[test]
fn release_supersedes_in_flight_job() {
    // release completes before the in-flight job commits: the job must
    // not set Issued/Failed and the final status is Unbound
    let mut reg = registry_with(1, 60, 3, 10);
    reg.create_tenant("t1", "First").unwrap();
    reg.claim("t1", "example.com", 0).unwrap();
    let job = reg.dequeue(0).unwrap();
    reg.release("t1").unwrap();
    let res = reg.complete(job, IssueOutcome::Success { expires_at: 1000 }, 5, 0);
    assert_eq!(res, CompleteResult::Superseded);
    let t = reg.get("t1").unwrap();
    assert_eq!(t.status, CertStatus::Unbound);
    assert_eq!(t.domain, None);
}

#[test]
fn reclaim_same_domain_supersedes_old_job() {
    // release + re-claim of the same tenant/domain pair: the stale
    // attempt may not commit against the new binding
    let mut reg = registry_with(1, 60, 3, 10);
    reg.create_tenant("t1", "First").unwrap();
    reg.claim("t1", "example.com", 0).unwrap();
    let stale = reg.dequeue(0).unwrap();
    reg.release("t1").unwrap();
    reg.claim("t1", "example.com", 1).unwrap();
    let res = reg.complete(stale, IssueOutcome::Success { expires_at: 1000 }, 5, 0);
    assert_eq!(res, CompleteResult::Superseded);
    assert_eq!(reg.get("t1").unwrap().status, CertStatus::Pending);
}

#[test]
fn complete_without_dequeue_is_unknown() {
    let mut reg = registry_with(1, 60, 3, 10);
    reg.create_tenant("t1", "First").unwrap();
    reg.claim("t1", "example.com", 0).unwrap();
    let job = reg.queue[0].clone();
    let res = reg.complete(job, IssueOutcome::Success { expires_at: 10 }, 0, 0);
    assert_eq!(res, CompleteResult::UnknownJob);
    assert_eq!(reg.get("t1").unwrap().status, CertStatus::Pending);
}

#[test]
fn single_flight_per_tenant() {
    // while one attempt is in flight, no second job for the same tenant
    // can be dequeued, even after a sweep re-enqueues one
    let mut reg = registry_with(1, 60, 3, 10);
    reg.create_tenant("t1", "First").unwrap();
    reg.claim("t1", "example.com", 0).unwrap();
    let _inflight = reg.dequeue(0).unwrap();
    assert_eq!(reg.reconcile(0), 0, "in-flight tenant is not re-enqueued");
    assert!(reg.dequeue(0).is_none());
}

#[test]
fn reconcile_requeues_stuck_pending() {
    let mut reg = registry_with(1, 60, 3, 10);
    reg.create_tenant("t1", "First").unwrap();
    reg.claim("t1", "example.com", 0).unwrap();
    // simulate a lost enqueue: the tenant is Pending but no job exists
    reg.queue.clear();
    assert_eq!(reg.reconcile(9), 1);
    assert_eq!(reg.queue.len(), 1);
    assert_eq!(reg.queue[0].tenant_id, "t1");
    assert_eq!(reg.queue[0].attempts, 0);
    assert_eq!(reg.queue[0].created_at, 9);
    // idempotent: the job now exists, so nothing more is enqueued
    assert_eq!(reg.reconcile(10), 0);
}

#[test]
fn renewal_window_schedules_fresh_job() {
    let mut reg = registry_with(1, 60, 3, 10);
    reg.create_tenant("t1", "First").unwrap();
    reg.claim("t1", "example.com", 0).unwrap();
    let job = reg.dequeue(0).unwrap();
    reg.complete(job, IssueOutcome::Success { expires_at: 100 }, 0, 0);
    // far from expiry: nothing to do
    assert_eq!(reg.schedule_renewals(50), 0);
    // inside the window (100 <= 95 + 10): one fresh job
    assert_eq!(reg.schedule_renewals(95), 1);
    let job = reg.dequeue(95).unwrap();
    assert_eq!(job.attempts, 0);
    let res = reg.complete(job, IssueOutcome::Success { expires_at: 200 }, 96, 0);
    assert_eq!(res, CompleteResult::Committed);
    assert_eq!(
        reg.get("t1").unwrap().status,
        CertStatus::Issued { issued_at: 96, expires_at: 200 },
    );
}

#[test]
fn claim_while_job_in_flight_is_already_bound() {
    let mut reg = registry_with(1, 60, 3, 10);
    reg.create_tenant("t1", "First").unwrap();
    reg.claim("t1", "example.com", 0).unwrap();
    let job = reg.dequeue(0).unwrap();
    assert_eq!(reg.claim("t1", "example.com", 1), Ok(ClaimOutcome::AlreadyBound));
    let res = reg.complete(job, IssueOutcome::Success { expires_at: 50 }, 2, 0);
    assert_eq!(res, CompleteResult::Committed);
}
