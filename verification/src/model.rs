//! Core data model: tenants, certificate status, provisioning jobs,
//! engine configuration, and the outcome/error types of the coordinator
//! and the provisioning engine.

use vstd::prelude::*;

verus! {

/// Why a certificate issuance attempt failed.
///
/// `Timeout`, `RateLimited` and `Unreachable` are transient conditions and
/// retryable; `CaRejected` (the authority refused domain-control validation)
/// and `Malformed` (the request itself was invalid) are permanent.
#[derive(Debug, Clone, Copy, PartialEq, Eq, Structural)]
pub enum FailureReason {
    Timeout,
    RateLimited,
    Unreachable,
    CaRejected,
    Malformed,
}

impl FailureReason {
    /// Whether a failure of this kind may succeed if the attempt is repeated.
    pub open spec fn spec_retryable(self) -> bool {
        match self {
            FailureReason::Timeout => true,
            FailureReason::RateLimited => true,
            FailureReason::Unreachable => true,
            FailureReason::CaRejected => false,
            FailureReason::Malformed => false,
        }
    }

    /// Classifies this failure as retryable or permanent.
    pub fn retryable(&self) -> (r: bool)
        ensures
            r == self.spec_retryable(),
    {
        match self {
            FailureReason::Timeout => true,
            FailureReason::RateLimited => true,
            FailureReason::Unreachable => true,
            FailureReason::CaRejected => false,
            FailureReason::Malformed => false,
        }
    }
}

/// A tenant's certificate status, tracking its (at most one) domain binding.
#[derive(Debug, Clone, Copy, PartialEq, Eq, Structural)]
pub enum CertStatus {
    /// No domain attached.
    Unbound,
    /// Write intent recorded but uniqueness not yet confirmed. Transient:
    /// a stored tenant is never observed in this state (the registry's
    /// claim is a single atomic operation).
    PendingClaim,
    /// Domain claimed; certificate issuance queued or in flight.
    Pending,
    /// Certificate provisioned; the domain is usable over TLS.
    Issued { issued_at: u64, expires_at: u64 },
    /// Issuance exhausted its retries or hit a permanent error.
    Failed { reason: FailureReason, attempts: u32 },
}

/// A tenant record: globally unique immutable identifier, display name,
/// optional bound domain, certificate status, and the binding epoch.
///
/// The epoch increases whenever the binding changes (claim or release); a
/// provisioning job carries the epoch it was created under, so a stale job
/// can never commit against a newer binding.
#[derive(Debug, Clone)]
pub struct Tenant {
    pub id: String,
    pub name: String,
    pub domain: Option<String>,
    pub status: CertStatus,
    pub epoch: u64,
}

/// A certificate-provisioning job: owned by the queue until a worker
/// dequeues it, destroyed on a terminal outcome or on supersession.
#[derive(Debug, Clone)]
pub struct Job {
    pub tenant_id: String,
    pub domain: String,
    pub created_at: u64,
    pub attempts: u32,
    pub next_retry_at: u64,
    pub epoch: u64,
}

/// Provisioning engine configuration: retry backoff shape, the retry
/// budget, and the renewal window.
#[derive(Debug, Clone, Copy, PartialEq, Eq, Structural)]
pub struct EngineConfig {
    /// Base retry delay (ticks); doubled per attempt.
    pub base_delay: u64,
    /// Cap on the exponential part of the backoff delay.
    pub max_delay: u64,
    /// Maximum number of issuance attempts before a job fails permanently.
    pub max_attempts: u32,
    /// A certificate expiring within this window is due for renewal.
    pub renew_window: u64,
}

impl EngineConfig {
    /// A usable configuration: at least one attempt, and a positive base
    /// delay no larger than the cap.
    pub open spec fn wf(self) -> bool {
        &&& self.max_attempts >= 1
        &&& self.base_delay >= 1
        &&& self.base_delay <= self.max_delay
    }

    /// Builds a configuration, rejecting degenerate parameters.
    pub fn new(base_delay: u64, max_delay: u64, max_attempts: u32, renew_window: u64) -> (r:
        Option<EngineConfig>)
        ensures
            r is Some <==> (max_attempts >= 1 && base_delay >= 1 && base_delay <= max_delay),
            r matches Some(c) ==> c == (EngineConfig {
                base_delay,
                max_delay,
                max_attempts,
                renew_window,
            }) && c.wf(),
    {
        if max_attempts >= 1 && base_delay >= 1 && base_delay <= max_delay {
            Some(EngineConfig { base_delay, max_delay, max_attempts, renew_window })
        } else {
            None
        }
    }
}

/// Result of a successful claim.
#[derive(Debug, Clone, Copy, PartialEq, Eq, Structural)]
pub enum ClaimOutcome {
    /// The domain was bound to the tenant and a provisioning job enqueued.
    Claimed,
    /// The tenant already holds this domain with an active binding; nothing
    /// was changed and no duplicate job was enqueued.
    AlreadyBound,
}

/// Why a claim was rejected. No variant mutates the store.
#[derive(Debug, Clone, Copy, PartialEq, Eq, Structural)]
pub enum ClaimError {
    /// The domain is syntactically invalid.
    InvalidDomain,
    /// No tenant with the given identifier exists.
    TenantNotFound,
    /// Another tenant already holds this domain.
    DomainTaken,
    /// The tenant already holds a different domain whose binding is still
    /// active (`Pending` or `Issued`); it must be released first.
    BindingActive,
}

/// Why a release was rejected.
#[derive(Debug, Clone, Copy, PartialEq, Eq, Structural)]
pub enum ReleaseError {
    TenantNotFound,
}

/// Why a tenant could not be created.
#[derive(Debug, Clone, Copy, PartialEq, Eq, Structural)]
pub enum CreateError {
    AlreadyExists,
}

/// Why an update or delete of a tenant record was rejected.
#[derive(Debug, Clone, Copy, PartialEq, Eq, Structural)]
pub enum UpdateError {
    TenantNotFound,
}

/// One row of the read-only projection of all bound domains.
#[derive(Debug, Clone)]
pub struct DomainInfo {
    pub tenant_id: String,
    pub domain: String,
    pub status: CertStatus,
}

/// What a certificate-authority attempt produced, as reported by the
/// worker that performed it.
#[derive(Debug, Clone, Copy, PartialEq, Eq, Structural)]
pub enum IssueOutcome {
    Success { expires_at: u64 },
    Failure { reason: FailureReason },
}

/// What the engine decided when a worker reported an attempt's outcome.
#[derive(Debug, Clone, Copy, PartialEq, Eq, Structural)]
pub enum CompleteResult {
    /// The certificate was recorded; the tenant is now `Issued`.
    Committed,
    /// A retryable failure within budget; the job was requeued.
    RetryScheduled { attempts: u32, next_retry_at: u64 },
    /// The retry budget is exhausted or the failure was permanent; the
    /// tenant is now `Failed`.
    FailedPermanently { attempts: u32 },
    /// The binding the job targeted changed or vanished before the attempt
    /// committed; the store was not touched.
    Superseded,
    /// No attempt for this tenant was in flight; the report was ignored.
    UnknownJob,
}

} // verus!
