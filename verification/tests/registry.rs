use tenant_registry::model::{CertStatus, ClaimError, ClaimOutcome, CreateError, EngineConfig,
    IssueOutcome, UpdateError};
use tenant_registry::registry::Registry;

fn fresh_registry() -> Registry {
    let cfg = EngineConfig::new(1, 60, 3, 10).unwrap();
    Registry::new(cfg)
}

#[test]
fn create_and_get_tenant() {
    let mut reg = fresh_registry();
    assert_eq!(reg.create_tenant("t1", "First Tenant"), Ok(()));
    let t = reg.get("t1").unwrap();
    assert_eq!(t.id, "t1");
    assert_eq!(t.name, "First Tenant");
    assert_eq!(t.domain, None);
    assert_eq!(t.status, CertStatus::Unbound);
    assert!(reg.get("t2").is_none());
}

#[test]
fn create_duplicate_tenant_refused() {
    let mut reg = fresh_registry();
    assert_eq!(reg.create_tenant("t1", "First"), Ok(()));
    assert_eq!(reg.create_tenant("t1", "Again"), Err(CreateError::AlreadyExists));
}

#[test]
fn claim_binds_domain_and_enqueues_job() {
    let mut reg = fresh_registry();
    reg.create_tenant("t1", "First").unwrap();
    assert_eq!(reg.claim("t1", "example.com", 7), Ok(ClaimOutcome::Claimed));
    let t = reg.get("t1").unwrap();
    assert_eq!(t.domain.as_deref(), Some("example.com"));
    assert_eq!(t.status, CertStatus::Pending);
    assert_eq!(reg.queue.len(), 1);
    assert_eq!(reg.queue[0].tenant_id, "t1");
    assert_eq!(reg.queue[0].domain, "example.com");
    assert_eq!(reg.queue[0].created_at, 7);
    assert_eq!(reg.queue[0].attempts, 0);
}

#[test]
fn claim_unknown_tenant() {
    let mut reg = fresh_registry();
    assert_eq!(reg.claim("ghost", "example.com", 0), Err(ClaimError::TenantNotFound));
}

#[test]
fn claim_invalid_domain_mutates_nothing() {
    // t1 claims a syntactically invalid name: rejected, no store
    // mutation, no job enqueued
    let mut reg = fresh_registry();
    reg.create_tenant("t1", "First").unwrap();
    assert_eq!(reg.claim("t1", "bad_domain", 0), Err(ClaimError::InvalidDomain));
    let t = reg.get("t1").unwrap();
    assert_eq!(t.domain, None);
    assert_eq!(t.status, CertStatus::Unbound);
    assert_eq!(reg.queue.len(), 0);
    assert!(reg.list_domains().is_empty());
}

#[test]
fn claim_is_idempotent() {
    // same tenant, same domain, no intervening release: Claimed then
    // AlreadyBound, second call changes nothing
    let mut reg = fresh_registry();
    reg.create_tenant("t1", "First").unwrap();
    assert_eq!(reg.claim("t1", "example.com", 0), Ok(ClaimOutcome::Claimed));
    assert_eq!(reg.claim("t1", "example.com", 1), Ok(ClaimOutcome::AlreadyBound));
    assert_eq!(reg.get("t1").unwrap().status, CertStatus::Pending);
    assert_eq!(reg.queue.len(), 1, "no duplicate job enqueued");
}

#[test]
fn concurrent_claims_one_winner() {
    // at most one claim of a given domain succeeds with Claimed
    let mut reg = fresh_registry();
    reg.create_tenant("t1", "First").unwrap();
    reg.create_tenant("t2", "Second").unwrap();
    assert_eq!(reg.claim("t1", "example.com", 0), Ok(ClaimOutcome::Claimed));
    assert_eq!(reg.claim("t2", "example.com", 0), Err(ClaimError::DomainTaken));
    assert_eq!(reg.get("t2").unwrap().domain, None);
}

#[test]
fn claim_different_domain_while_active_refused() {
    let mut reg = fresh_registry();
    reg.create_tenant("t1", "First").unwrap();
    assert_eq!(reg.claim("t1", "one.example.com", 0), Ok(ClaimOutcome::Claimed));
    assert_eq!(reg.claim("t1", "two.example.com", 1), Err(ClaimError::BindingActive));
    assert_eq!(reg.get("t1").unwrap().domain.as_deref(), Some("one.example.com"));
}

#[test]
fn full_lifecycle_scenario() {
    // t1 claims example.com -> Claimed, Pending; t2's claim conflicts;
    // provisioning succeeds -> Issued; release frees the domain; t2 can
    // then claim it
    let mut reg = fresh_registry();
    reg.create_tenant("t1", "First").unwrap();
    reg.create_tenant("t2", "Second").unwrap();
    assert_eq!(reg.claim("t1", "example.com", 0), Ok(ClaimOutcome::Claimed));
    assert_eq!(reg.get("t1").unwrap().status, CertStatus::Pending);
    assert_eq!(reg.claim("t2", "example.com", 0), Err(ClaimError::DomainTaken));
    let job = reg.dequeue(0).expect("job eligible");
    assert_eq!(job.tenant_id, "t1");
    let res = reg.complete(job, IssueOutcome::Success { expires_at: 1000 }, 5, 0);
    assert!(matches!(res, tenant_registry::model::CompleteResult::Committed));
    assert_eq!(
        reg.get("t1").unwrap().status,
        CertStatus::Issued { issued_at: 5, expires_at: 1000 },
    );
    assert_eq!(reg.release("t1"), Ok(()));
    let t1 = reg.get("t1").unwrap();
    assert_eq!(t1.status, CertStatus::Unbound);
    assert_eq!(t1.domain, None);
    assert_eq!(reg.claim("t2", "example.com", 6), Ok(ClaimOutcome::Claimed));
    assert_eq!(reg.get("t2").unwrap().domain.as_deref(), Some("example.com"));
}

#[test]
fn release_unknown_tenant() {
    let mut reg = fresh_registry();
    assert!(reg.release("ghost").is_err());
}

#[test]
fn release_discards_queued_job() {
    let mut reg = fresh_registry();
    reg.create_tenant("t1", "First").unwrap();
    reg.claim("t1", "example.com", 0).unwrap();
    assert_eq!(reg.queue.len(), 1);
    reg.release("t1").unwrap();
    assert_eq!(reg.queue.len(), 0);
    assert!(reg.dequeue(100).is_none());
}

#[test]
fn update_tenant_changes_only_name() {
    let mut reg = fresh_registry();
    reg.create_tenant("t1", "First").unwrap();
    reg.claim("t1", "example.com", 0).unwrap();
    assert_eq!(reg.update_tenant("t1", "Renamed"), Ok(()));
    let t = reg.get("t1").unwrap();
    assert_eq!(t.name, "Renamed");
    assert_eq!(t.domain.as_deref(), Some("example.com"));
    assert_eq!(t.status, CertStatus::Pending);
    assert_eq!(reg.update_tenant("ghost", "X"), Err(UpdateError::TenantNotFound));
}

#[test]
fn delete_tenant_discards_job_and_frees_domain() {
    let mut reg = fresh_registry();
    reg.create_tenant("t1", "First").unwrap();
    reg.create_tenant("t2", "Second").unwrap();
    reg.claim("t1", "example.com", 0).unwrap();
    assert_eq!(reg.delete_tenant("t1"), Ok(()));
    assert!(reg.get("t1").is_none());
    assert_eq!(reg.queue.len(), 0);
    assert_eq!(reg.claim("t2", "example.com", 1), Ok(ClaimOutcome::Claimed));
    assert_eq!(reg.delete_tenant("t1"), Err(UpdateError::TenantNotFound));
}

#[test]
fn list_domains_projects_bound_tenants() {
    let mut reg = fresh_registry();
    reg.create_tenant("t1", "First").unwrap();
    reg.create_tenant("t2", "Second").unwrap();
    reg.create_tenant("t3", "Third").unwrap();
    reg.claim("t1", "one.example.com", 0).unwrap();
    reg.claim("t3", "three.example.com", 0).unwrap();
    let rows = reg.list_domains();
    assert_eq!(rows.len(), 2);
    assert_eq!(rows[0].tenant_id, "t1");
    assert_eq!(rows[0].domain, "one.example.com");
    assert_eq!(rows[0].status, CertStatus::Pending);
    assert_eq!(rows[1].tenant_id, "t3");
    assert_eq!(rows[1].domain, "three.example.com");
}

#[test]
fn find_by_domain_locates_holder() {
    let mut reg = fresh_registry();
    reg.create_tenant("t1", "First").unwrap();
    reg.claim("t1", "example.com", 0).unwrap();
    assert_eq!(reg.find_by_domain("example.com").unwrap().id, "t1");
    assert!(reg.find_by_domain("other.example.com").is_none());
}

#[test]
fn reclaim_after_failure_rebinds() {
    // Failed -> Pending on re-bind, to the same or a new domain
    let mut reg = fresh_registry();
    reg.create_tenant("t1", "First").unwrap();
    reg.claim("t1", "example.com", 0).unwrap();
    let job = reg.dequeue(0).unwrap();
    let res = reg.complete(
        job,
        IssueOutcome::Failure { reason: tenant_registry::model::FailureReason::CaRejected },
        1,
        0,
    );
    assert!(matches!(
        res,
        tenant_registry::model::CompleteResult::FailedPermanently { attempts: 1 }
    ));
    assert!(matches!(reg.get("t1").unwrap().status, CertStatus::Failed { .. }));
    assert_eq!(reg.claim("t1", "new.example.com", 2), Ok(ClaimOutcome::Claimed));
    assert_eq!(reg.get("t1").unwrap().status, CertStatus::Pending);
    assert_eq!(reg.get("t1").unwrap().domain.as_deref(), Some("new.example.com"));
}
