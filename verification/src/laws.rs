//! The registry's guarantees, stated and proved over the operations'
//! transition relations: claim uniqueness, claim idempotence, supersession
//! of stale completions, and the exact retry bound of the provisioning
//! engine.

use vstd::prelude::*;
use crate::model::{Job, CertStatus, ClaimOutcome, ClaimError, ReleaseError, IssueOutcome,
    FailureReason, CompleteResult};
use crate::registry::{Registry, claim_post, release_post, lemma_index_is};
use crate::engine::{dequeue_post, complete_post, job_current};

verus! {

/// Global domain uniqueness: in a well-formed registry — and every
/// operation both requires and re-establishes well-formedness — no two
/// tenant records hold the same domain at any observable instant.
pub proof fn lemma_domain_uniqueness(s: Registry, a: int, b: int)
    requires
        s.wf(),
        0 <= a < s.tenants@.len(),
        0 <= b < s.tenants@.len(),
        a != b,
        s.tenants@[a].domain is Some,
        s.tenants@[b].domain is Some,
    ensures
        s.tenants@[a].domain->Some_0@ != s.tenants@[b].domain->Some_0@,
{
}

/// Uniqueness of domain claims: once a claim of `dom` by `t1` has
/// succeeded with `Claimed`, no later claim of the same domain succeeds
/// with `Claimed` while the binding stands. The same tenant is told
/// `AlreadyBound`; every other existing tenant is refused with
/// `DomainTaken`.
pub proof fn lemma_claim_uniqueness(
    s0: Registry,
    s1: Registry,
    s2: Registry,
    t1: Seq<char>,
    t2: Seq<char>,
    dom: Seq<char>,
    now1: u64,
    now2: u64,
    r2: Result<ClaimOutcome, ClaimError>,
)
    requires
        s0.wf(),
        s1.wf(),
        claim_post(s0, s1, t1, dom, now1, Ok(ClaimOutcome::Claimed)),
        claim_post(s1, s2, t2, dom, now2, r2),
    ensures
        r2 != Ok::<ClaimOutcome, ClaimError>(ClaimOutcome::Claimed),
        t2 == t1 ==> r2 == Ok::<ClaimOutcome, ClaimError>(ClaimOutcome::AlreadyBound),
        t2 != t1 && s1.has_tenant(t2) ==> r2 == Err::<ClaimOutcome, ClaimError>(
            ClaimError::DomainTaken,
        ),
        t2 != t1 && !s1.has_tenant(t2) ==> r2 == Err::<ClaimOutcome, ClaimError>(
            ClaimError::TenantNotFound,
        ),
{
    let i = s0.tenant_index(t1);
    assert(0 <= i < s0.tenants@.len() && s0.tenants@[i].id@ == t1);
    assert(s1.tenants@[i].id == s0.tenants@[i].id);
    lemma_index_is(s1, t1, i);
    assert(s1.tenants@[i].domain matches Some(d) && d@ == dom);
    assert(s1.tenants@[i].status is Pending);
    if t2 == t1 {
        assert(!s1.domain_held_by_other(dom, t2)) by {
            if s1.domain_held_by_other(dom, t2) {
                let j = choose|j: int|
                    {
                        &&& 0 <= j < s1.tenants@.len()
                        &&& s1.tenants@[j].id@ != t2
                        &&& s1.tenants@[j].domain matches Some(d) && d@ == dom
                    };
                assert(j != i);
                if j < i {
                    assert(s1.tenants@[j].domain->Some_0@ != s1.tenants@[i].domain->Some_0@);
                } else {
                    assert(s1.tenants@[i].domain->Some_0@ != s1.tenants@[j].domain->Some_0@);
                }
            }
        }
        match r2 {
            Ok(ClaimOutcome::AlreadyBound) => {},
            Ok(ClaimOutcome::Claimed) => {
                assert(false);
            },
            Err(_) => {
                assert(false);
            },
        }
    } else {
        assert(s1.domain_held_by_other(dom, t2)) by {
            assert(s1.tenants@[i].id@ == t1);
        }
        match r2 {
            Err(ClaimError::DomainTaken) => {},
            Err(ClaimError::TenantNotFound) => {},
            _ => {
                assert(false);
            },
        }
    }
}

/// Idempotence of claims: claiming the same tenant/domain pair twice in a
/// row yields `Claimed` then `AlreadyBound`, and the second call changes
/// nothing at all.
pub proof fn lemma_claim_idempotent(
    s0: Registry,
    s1: Registry,
    s2: Registry,
    t: Seq<char>,
    dom: Seq<char>,
    now1: u64,
    now2: u64,
    r2: Result<ClaimOutcome, ClaimError>,
)
    requires
        s0.wf(),
        s1.wf(),
        claim_post(s0, s1, t, dom, now1, Ok(ClaimOutcome::Claimed)),
        claim_post(s1, s2, t, dom, now2, r2),
    ensures
        r2 == Ok::<ClaimOutcome, ClaimError>(ClaimOutcome::AlreadyBound),
        s2 == s1,
{
    lemma_claim_uniqueness(s0, s1, s2, t, t, dom, now1, now2, r2);
}

/// Supersession: once `release` has completed for tenant `t`, a still
/// in-flight job for `t` can no longer commit anything. Whatever outcome
/// its worker reports, the store is not touched and the tenant stays
/// `Unbound`: a released domain is never resurrected.
pub proof fn lemma_supersession(
    s0: Registry,
    s1: Registry,
    s2: Registry,
    t: Seq<char>,
    job: Job,
    outcome: IssueOutcome,
    now: u64,
    jitter: u64,
    r2: CompleteResult,
)
    requires
        s0.wf(),
        s1.wf(),
        release_post(s0, s1, t, Ok(())),
        complete_post(s1, s2, job, outcome, now, jitter, r2),
        job.tenant_id@ == t,
    ensures
        r2 is Superseded || r2 is UnknownJob,
        s2.tenants == s1.tenants,
        s2.queue == s1.queue,
        s2.has_tenant(t),
        s2.tenant_of(t).status is Unbound,
        s2.tenant_of(t).domain is None,
{
    let i = s0.tenant_index(t);
    assert(0 <= i < s0.tenants@.len() && s0.tenants@[i].id@ == t);
    assert(s1.tenants@[i].id == s0.tenants@[i].id);
    lemma_index_is(s1, t, i);
    assert(s1.tenant_of(t).domain is None);
    assert(!job_current(s1, job));
    match r2 {
        CompleteResult::Superseded => {},
        CompleteResult::UnknownJob => {},
        _ => {
            assert(false);
        },
    }
    assert(s2.tenants == s1.tenants);
    assert forall|a: int, b: int|
        0 <= a < b < s2.tenants@.len() implies s2.tenants@[a].id@ != s2.tenants@[b].id@ by {
        assert(s2.tenants@[a] == s1.tenants@[a]);
        assert(s2.tenants@[b] == s1.tenants@[b]);
    }
    assert(s2.tenants@[i].id@ == t);
    lemma_index_is(s2, t, i);
}

/// Tenant `t` is mid-provisioning at attempt count `attempts`: status
/// `Pending`, exactly one queued job (at that count), no attempt in
/// flight.
pub open spec fn pending_with_attempts(s: Registry, t: Seq<char>, attempts: u32) -> bool {
    &&& s.has_tenant(t)
    &&& s.tenant_of(t).status is Pending
    &&& s.has_queued_job(t)
    &&& (forall|k: int|
        0 <= k < s.queue@.len() && (#[trigger] s.queue@[k]).tenant_id@ == t ==> s.queue@[k].attempts
            == attempts)
    &&& !s.issuing_has(t)
}

/// One failed provisioning round for tenant `t`: a worker dequeues the
/// tenant's job and reports a retryable failure.
pub open spec fn failing_round(pre: Registry, post: Registry, t: Seq<char>) -> bool {
    exists|
        mid: Registry,
        job: Job,
        now1: u64,
        now2: u64,
        jitter: u64,
        reason: FailureReason,
        r: CompleteResult,
    |
        #![trigger dequeue_post(pre, mid, now1, Some(job)), complete_post(mid, post, job, IssueOutcome::Failure { reason }, now2, jitter, r)]
        {
            &&& dequeue_post(pre, mid, now1, Some(job))
            &&& job.tenant_id@ == t
            &&& reason.spec_retryable()
            &&& complete_post(mid, post, job, IssueOutcome::Failure { reason }, now2, jitter, r)
        }
}

/// One failing round moves the attempt count from `a` to `a + 1`; while
/// the budget lasts the tenant stays `Pending` with a requeued job, and
/// on the final attempt it becomes `Failed` with the full count recorded.
proof fn lemma_failing_round_step(pre: Registry, post: Registry, t: Seq<char>, a: u32)
    requires
        pre.wf(),
        post.wf(),
        pending_with_attempts(pre, t, a),
        failing_round(pre, post, t),
    ensures
        post.config == pre.config,
        a < pre.config.max_attempts,
        post.has_tenant(t),
        post.tenant_of(t).id@ == t,
        a + 1 < pre.config.max_attempts ==> pending_with_attempts(post, t, (a + 1) as u32),
        a + 1 == pre.config.max_attempts ==> {
            &&& post.tenant_of(t).status matches CertStatus::Failed { attempts, .. } && attempts
                == pre.config.max_attempts
            &&& !post.has_queued_job(t)
            &&& !post.issuing_has(t)
        },
{
    let (mid, job, now1, now2, jitter, reason, r) = choose|
        mid: Registry,
        job: Job,
        now1: u64,
        now2: u64,
        jitter: u64,
        reason: FailureReason,
        r: CompleteResult,
    |
        #![trigger dequeue_post(pre, mid, now1, Some(job)), complete_post(mid, post, job, IssueOutcome::Failure { reason }, now2, jitter, r)]
        {
            &&& dequeue_post(pre, mid, now1, Some(job))
            &&& job.tenant_id@ == t
            &&& reason.spec_retryable()
            &&& complete_post(mid, post, job, IssueOutcome::Failure { reason }, now2, jitter, r)
        };
    let k = choose|k: int|
        {
            &&& crate::engine::job_eligible(pre, k, now1)
            &&& (forall|l: int| 0 <= l < k ==> !crate::engine::job_eligible(pre, l, now1))
            &&& job == pre.queue@[k]
            &&& mid.queue@ == pre.queue@.remove(k)
            &&& mid.tenants == pre.tenants
            &&& mid.config == pre.config
            &&& mid.issuing@.len() == pre.issuing@.len() + 1
            &&& (forall|i: int| 0 <= i < pre.issuing@.len() ==> mid.issuing@[i] == pre.issuing@[i])
            &&& mid.issuing@.last()@ == job.tenant_id@
        };
    assert(pre.queued_job_ok(job));
    assert(job.attempts == a);
    assert(a < pre.config.max_attempts);
    let ti = pre.tenant_index(t);
    assert(0 <= ti < pre.tenants@.len() && pre.tenants@[ti].id@ == t);
    // the dequeued job was the tenant's only queued job
    pre.queue@.remove_ensures(k);
    assert forall|l: int| 0 <= l < mid.queue@.len() implies (#[trigger] mid.queue@[l]).tenant_id@
        != t by {
        let j = if l < k {
            l
        } else {
            l + 1
        };
        assert(mid.queue@[l] == pre.queue@[j]);
        if j < k {
            assert(pre.queue@[j].tenant_id@ != pre.queue@[k].tenant_id@);
        } else if j > k {
            assert(pre.queue@[k].tenant_id@ != pre.queue@[j].tenant_id@);
        }
    }
    assert(!mid.has_queued_job(t));
    // the worker's ticket is current in `mid`
    assert forall|x: int, y: int|
        0 <= x < y < mid.tenants@.len() implies mid.tenants@[x].id@ != mid.tenants@[y].id@ by {
        assert(mid.tenants@[x] == pre.tenants@[x]);
        assert(mid.tenants@[y] == pre.tenants@[y]);
    }
    assert(mid.tenants@[ti] == pre.tenants@[ti]);
    lemma_index_is(mid, t, ti);
    lemma_index_is(pre, t, ti);
    assert(job_current(mid, job));
    assert(mid.issuing_has(job.tenant_id@)) by {
        assert(mid.issuing@[mid.issuing@.len() - 1]@ == t);
    }
    // the engine either requeues or fails permanently
    let a1 = (a + 1) as u32;
    assert(crate::engine::sat_inc_u32(a) == a1);
    match r {
        CompleteResult::UnknownJob => {
            assert(false);
        },
        CompleteResult::Superseded => {
            assert(false);
        },
        CompleteResult::Committed => {
            assert(false);
        },
        CompleteResult::RetryScheduled { attempts, next_retry_at } => {
            assert(attempts == a1);
            assert(a1 < pre.config.max_attempts);
            assert(post.tenants == mid.tenants);
            assert(post.tenants@[ti] == pre.tenants@[ti]);
            lemma_index_is(post, t, ti);
            assert(post.queue@.last().tenant_id@ == t);
            assert(post.has_queued_job(t));
            assert forall|l: int|
                0 <= l < post.queue@.len() && (#[trigger] post.queue@[l]).tenant_id@
                    == t implies post.queue@[l].attempts == a1 by {
                if l < mid.queue@.len() {
                    assert(post.queue@[l] == mid.queue@[l]);
                    assert(mid.queue@[l].tenant_id@ != t);
                }
            }
            // the in-flight marker for `t` went back out
            let ri = choose|ri: int|
                {
                    &&& 0 <= ri < mid.issuing@.len()
                    &&& mid.issuing@[ri]@ == job.tenant_id@
                    &&& post.issuing@ == mid.issuing@.remove(ri)
                };
            mid.issuing@.remove_ensures(ri);
            assert(!pre.issuing_has(t));
            assert(ri == mid.issuing@.len() - 1) by {
                if ri < mid.issuing@.len() - 1 {
                    assert(mid.issuing@[ri] == pre.issuing@[ri]);
                    assert(pre.issuing@[ri]@ == t);
                }
            }
            assert forall|x: int| 0 <= x < post.issuing@.len() implies (
            #[trigger] post.issuing@[x])@ != t by {
                assert(post.issuing@[x] == mid.issuing@[x]);
                assert(mid.issuing@[x] == pre.issuing@[x]);
            }
            assert(!post.issuing_has(t));
            assert(pending_with_attempts(post, t, a1));
        },
        CompleteResult::FailedPermanently { attempts } => {
            assert(attempts == a1);
            assert(reason.spec_retryable());
            assert(a1 >= pre.config.max_attempts);
            assert(a1 == pre.config.max_attempts);
            assert(post.tenants@.len() == mid.tenants@.len());
            assert(mid.tenant_index(job.tenant_id@) == ti);
            assert(post.tenants@[ti].id == pre.tenants@[ti].id);
            lemma_index_is(post, t, ti);
            assert(post.tenant_of(t).status matches CertStatus::Failed { attempts: att, .. }
                && att == pre.config.max_attempts);
            assert(post.queue == mid.queue);
            assert(!post.has_queued_job(t));
            let ri = choose|ri: int|
                {
                    &&& 0 <= ri < mid.issuing@.len()
                    &&& mid.issuing@[ri]@ == job.tenant_id@
                    &&& post.issuing@ == mid.issuing@.remove(ri)
                };
            mid.issuing@.remove_ensures(ri);
            assert(!pre.issuing_has(t));
            assert(ri == mid.issuing@.len() - 1) by {
                if ri < mid.issuing@.len() - 1 {
                    assert(mid.issuing@[ri] == pre.issuing@[ri]);
                    assert(pre.issuing@[ri]@ == t);
                }
            }
            assert forall|x: int| 0 <= x < post.issuing@.len() implies (
            #[trigger] post.issuing@[x])@ != t by {
                assert(post.issuing@[x] == mid.issuing@[x]);
                assert(mid.issuing@[x] == pre.issuing@[x]);
            }
            assert(!post.issuing_has(t));
        },
    }
}

/// The retry bound: a tenant that starts `Pending` with a fresh job and
/// whose every attempt fails retryably stays `Pending` for the first
/// `max_attempts - 1` rounds and becomes `Failed` on round `max_attempts`
/// exactly — never fewer rounds, never more, with the full attempt count
/// recorded.
pub proof fn lemma_retry_bound(chain: Seq<Registry>, t: Seq<char>)
    requires
        chain.len() >= 1,
        forall|k: int| 0 <= k < chain.len() ==> (#[trigger] chain[k]).wf(),
        pending_with_attempts(chain[0], t, 0),
        chain.len() - 1 <= chain[0].config.max_attempts,
        forall|k: int| 0 <= k < chain.len() - 1 ==> failing_round(chain[k], #[trigger] chain[k
            + 1], t),
    ensures
        chain.last().config == chain[0].config,
        chain.len() - 1 < chain[0].config.max_attempts ==> pending_with_attempts(
            chain.last(),
            t,
            (chain.len() - 1) as u32,
        ),
        chain.len() - 1 == chain[0].config.max_attempts ==> {
            &&& chain.last().has_tenant(t)
            &&& chain.last().tenant_of(t).status matches CertStatus::Failed { attempts, .. }
                && attempts == chain[0].config.max_attempts
            &&& !chain.last().has_queued_job(t)
            &&& !chain.last().issuing_has(t)
        },
    decreases chain.len(),
{
    if chain.len() == 1 {
    } else {
        let prefix = chain.drop_last();
        assert(prefix[0] == chain[0]);
        assert forall|k: int| 0 <= k < prefix.len() - 1 implies failing_round(
            prefix[k],
            #[trigger] prefix[k + 1],
            t,
        ) by {
            assert(prefix[k] == chain[k]);
            assert(prefix[k + 1] == chain[k + 1]);
            assert(failing_round(chain[k], chain[k + 1], t));
        }
        assert forall|k: int| 0 <= k < prefix.len() implies (#[trigger] prefix[k]).wf() by {
            assert(prefix[k] == chain[k]);
        }
        lemma_retry_bound(prefix, t);
        let n = chain.len() - 1;
        let pre = chain[n - 1];
        let post = chain[n];
        assert(prefix.last() == pre);
        assert(failing_round(chain[n - 1], chain[n - 1 + 1], t));
        assert(chain[n - 1 + 1] == post);
        assert(failing_round(pre, post, t));
        assert(pending_with_attempts(pre, t, (n - 1) as u32));
        lemma_failing_round_step(pre, post, t, (n - 1) as u32);
        assert(chain.last() == post);
    }
}

/// The certificate-status transition diagram: the edges along which a
/// single operation may move a stored tenant's status. Besides staying
/// put, a status moves `Unbound -> Pending` (claim), `Pending ->
/// {Issued, Failed}` (a committed outcome), `Failed -> Pending` (retry
/// or re-bind), any bound status `-> Unbound` (release, which may cut a
/// pending claim short), and — for renewal jobs — `Issued -> Issued`
/// (new timestamps) or `Issued -> Failed` (renewal exhausted its
/// retries).
pub open spec fn status_edge(pre: CertStatus, post: CertStatus) -> bool {
    ||| pre == post
    ||| (pre is Unbound && post is Pending)
    ||| (pre is Pending && (post is Issued || post is Failed))
    ||| ((pre is Pending || pre is Issued || pre is Failed) && post is Unbound)
    ||| (pre is Failed && post is Pending)
    ||| (pre is Issued && (post is Issued || post is Failed))
}

/// `claim` moves statuses only along the allowed edges, and only for the
/// claiming tenant.
pub proof fn lemma_status_edges_claim(
    pre: Registry,
    post: Registry,
    id: Seq<char>,
    dom: Seq<char>,
    now: u64,
    r: Result<ClaimOutcome, ClaimError>,
)
    requires
        pre.wf(),
        claim_post(pre, post, id, dom, now, r),
    ensures
        post.tenants@.len() == pre.tenants@.len(),
        forall|i: int|
            0 <= i < pre.tenants@.len() ==> status_edge(
                pre.tenants@[i].status,
                #[trigger] post.tenants@[i].status,
            ),
{
    assert forall|i: int| 0 <= i < pre.tenants@.len() implies status_edge(
        pre.tenants@[i].status,
        #[trigger] post.tenants@[i].status,
    ) by {
        if post == pre {
            assert(post.tenants@[i] == pre.tenants@[i]);
        } else {
            if i != pre.tenant_index(id) {
                assert(post.tenants@[i] == pre.tenants@[i]);
            }
        }
    }
}

/// `release` moves statuses only along the allowed edges (the released
/// tenant goes to `Unbound`; everyone else is untouched).
pub proof fn lemma_status_edges_release(
    pre: Registry,
    post: Registry,
    id: Seq<char>,
    r: Result<(), ReleaseError>,
)
    requires
        pre.wf(),
        release_post(pre, post, id, r),
    ensures
        post.tenants@.len() == pre.tenants@.len(),
        forall|i: int|
            0 <= i < pre.tenants@.len() ==> status_edge(
                pre.tenants@[i].status,
                #[trigger] post.tenants@[i].status,
            ),
{
    assert forall|i: int| 0 <= i < pre.tenants@.len() implies status_edge(
        pre.tenants@[i].status,
        #[trigger] post.tenants@[i].status,
    ) by {
        if post == pre {
            assert(post.tenants@[i] == pre.tenants@[i]);
        } else {
            let ti = pre.tenant_index(id);
            if i != ti {
                assert(post.tenants@[i] == pre.tenants@[i]);
            } else {
                assert(0 <= ti < pre.tenants@.len() && pre.tenants@[ti].id@ == id);
                assert(!(pre.tenants@[ti].status is PendingClaim));
            }
        }
    }
}

/// `complete` moves statuses only along the allowed edges: a commit takes
/// the job's tenant from a status open to issuance to `Issued` or
/// `Failed`; a superseded or unknown job moves nothing.
pub proof fn lemma_status_edges_complete(
    pre: Registry,
    post: Registry,
    job: Job,
    outcome: IssueOutcome,
    now: u64,
    jitter: u64,
    r: CompleteResult,
)
    requires
        pre.wf(),
        complete_post(pre, post, job, outcome, now, jitter, r),
    ensures
        post.tenants@.len() == pre.tenants@.len(),
        forall|i: int|
            0 <= i < pre.tenants@.len() ==> status_edge(
                pre.tenants@[i].status,
                #[trigger] post.tenants@[i].status,
            ),
{
    assert forall|i: int| 0 <= i < pre.tenants@.len() implies status_edge(
        pre.tenants@[i].status,
        #[trigger] post.tenants@[i].status,
    ) by {
        match r {
            CompleteResult::UnknownJob => {
                assert(post.tenants@[i] == pre.tenants@[i]);
            },
            CompleteResult::Superseded => {
                assert(post.tenants@[i] == pre.tenants@[i]);
            },
            CompleteResult::RetryScheduled { .. } => {
                assert(post.tenants@[i] == pre.tenants@[i]);
            },
            CompleteResult::Committed => {
                if i != pre.tenant_index(job.tenant_id@) {
                    assert(post.tenants@[i] == pre.tenants@[i]);
                }
            },
            CompleteResult::FailedPermanently { .. } => {
                if i != pre.tenant_index(job.tenant_id@) {
                    assert(post.tenants@[i] == pre.tenants@[i]);
                }
            },
        }
    }
}

/// Attempt counts only grow: a requeued job carries exactly one more
/// attempt than the job the worker took, and a permanent failure records
/// one more than the last attempt.
pub proof fn lemma_attempts_monotone(
    pre: Registry,
    post: Registry,
    job: Job,
    outcome: IssueOutcome,
    now: u64,
    jitter: u64,
    r: CompleteResult,
)
    requires
        complete_post(pre, post, job, outcome, now, jitter, r),
        job.attempts < u32::MAX,
    ensures
        r matches CompleteResult::RetryScheduled { attempts, .. } ==> attempts == job.attempts
            + 1,
        r matches CompleteResult::FailedPermanently { attempts } ==> attempts == job.attempts + 1,
{
}

} // verus!

