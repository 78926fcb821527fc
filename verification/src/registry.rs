//! The tenant store and the domain claim coordinator.
//!
//! The registry holds the tenant records, the provisioning job queue and
//! the set of tenants with an issuance attempt in flight. `claim` and
//! `release` are the only operations that change a domain binding; each is
//! a single atomic operation on the registry, so the global uniqueness of
//! bound domains (`wf`) is never observably violated — there is no
//! check-then-write window.

use vstd::prelude::*;
use crate::model::{Tenant, Job, CertStatus, EngineConfig, ClaimOutcome, ClaimError, ReleaseError,
    CreateError, UpdateError, DomainInfo};
use crate::domain::{valid_domain, is_valid_domain};
use crate::strutil::str_eq;

verus! {

/// Increment that sticks at the maximum instead of wrapping.
pub open spec fn sat_inc(e: u64) -> u64 {
    if e == u64::MAX {
        e
    } else {
        (e + 1) as u64
    }
}

pub fn exec_sat_inc(e: u64) -> (r: u64)
    ensures
        r == sat_inc(e),
{
    if e == u64::MAX {
        e
    } else {
        e + 1
    }
}

/// `post` is `pre` with at most the record at index `i` changed.
pub open spec fn tenants_updated_except(pre: Seq<Tenant>, post: Seq<Tenant>, i: int) -> bool {
    &&& post.len() == pre.len()
    &&& forall|j: int| 0 <= j < pre.len() && j != i ==> post[j] == pre[j]
}

/// The record at `i` was rebound to `dom`: fresh `Pending` binding, epoch
/// advanced, identity and name untouched.
pub open spec fn tenant_rebound(pre: Tenant, post: Tenant, dom: Seq<char>) -> bool {
    &&& post.id == pre.id
    &&& post.name == pre.name
    &&& post.domain matches Some(d) && d@ == dom
    &&& post.status is Pending
    &&& post.epoch == sat_inc(pre.epoch)
}

/// A just-created provisioning job: zero attempts, eligible immediately.
pub open spec fn job_fresh(job: Job, id: Seq<char>, dom: Seq<char>, now: u64, epoch: u64) -> bool {
    &&& job.tenant_id@ == id
    &&& job.domain@ == dom
    &&& job.created_at == now
    &&& job.attempts == 0
    &&& job.next_retry_at == now
    &&& job.epoch == epoch
}

/// `post` is `pre` with every job of tenant `id` removed and everything
/// else kept in order. The registry never queues two jobs for one tenant,
/// so at most one removal happens.
pub open spec fn queue_without(pre: Seq<Job>, post: Seq<Job>, id: Seq<char>) -> bool {
    ||| (post == pre && forall|k: int| 0 <= k < pre.len() ==> pre[k].tenant_id@ != id)
    ||| (exists|k: int|
        0 <= k < pre.len() && pre[k].tenant_id@ == id && post == pre.remove(k) && (forall|l: int|
            0 <= l < pre.len() && l != k ==> pre[l].tenant_id@ != id))
}

/// The registry: tenant records, the job queue, and the per-tenant
/// single-flight set of tenants whose job a worker currently holds.
pub struct Registry {
    pub tenants: Vec<Tenant>,
    pub queue: Vec<Job>,
    pub issuing: Vec<String>,
    pub config: EngineConfig,
}

impl Registry {
    /// Some tenant record carries identifier `id`.
    pub open spec fn has_tenant(self, id: Seq<char>) -> bool {
        exists|i: int| 0 <= i < self.tenants@.len() && self.tenants@[i].id@ == id
    }

    /// The index of the record with identifier `id` (unique under `wf`).
    pub open spec fn tenant_index(self, id: Seq<char>) -> int {
        choose|i: int| 0 <= i < self.tenants@.len() && self.tenants@[i].id@ == id
    }

    /// The record with identifier `id`.
    pub open spec fn tenant_of(self, id: Seq<char>) -> Tenant {
        self.tenants@[self.tenant_index(id)]
    }

    /// Some tenant other than `id` holds the domain `dom`.
    pub open spec fn domain_held_by_other(self, dom: Seq<char>, id: Seq<char>) -> bool {
        exists|i: int|
            {
                &&& 0 <= i < self.tenants@.len()
                &&& self.tenants@[i].id@ != id
                &&& self.tenants@[i].domain matches Some(d) && d@ == dom
            }
    }

    /// A worker holds an issuance attempt for tenant `id`.
    pub open spec fn issuing_has(self, id: Seq<char>) -> bool {
        exists|i: int| 0 <= i < self.issuing@.len() && self.issuing@[i]@ == id
    }

    /// A job for tenant `id` is waiting in the queue.
    pub open spec fn has_queued_job(self, id: Seq<char>) -> bool {
        exists|k: int| 0 <= k < self.queue@.len() && self.queue@[k].tenant_id@ == id
    }

    /// A stored record is coherent: a domain is bound exactly when the
    /// status says so, and the transient `PendingClaim` state is never
    /// observable at rest.
    pub open spec fn tenant_ok(t: Tenant) -> bool {
        &&& t.domain is Some <==> !(t.status is Unbound)
        &&& !(t.status is PendingClaim)
    }

    /// A queued job targets the current binding of an existing tenant:
    /// same domain, same epoch, a status still awaiting issuance work, and
    /// a remaining retry budget.
    pub open spec fn queued_job_ok(self, job: Job) -> bool {
        &&& self.has_tenant(job.tenant_id@)
        &&& self.tenant_of(job.tenant_id@).domain matches Some(d) && d@ == job.domain@
        &&& self.tenant_of(job.tenant_id@).epoch == job.epoch
        &&& (self.tenant_of(job.tenant_id@).status is Pending || self.tenant_of(
            job.tenant_id@,
        ).status is Issued)
        &&& job.attempts < self.config.max_attempts
    }

    /// The registry invariant. In particular: tenant identifiers are
    /// unique, a bound domain is held by at most one tenant at any
    /// observable instant, every queued job matches its tenant's current
    /// binding, and a tenant never has two queued jobs nor two attempts in
    /// flight.
    pub open spec fn wf(self) -> bool {
        &&& self.config.wf()
        &&& (forall|i: int, j: int|
            0 <= i < j < self.tenants@.len() ==> self.tenants@[i].id@ != self.tenants@[j].id@)
        &&& (forall|i: int| 0 <= i < self.tenants@.len() ==> Self::tenant_ok(self.tenants@[i]))
        &&& (forall|i: int, j: int|
            0 <= i < j < self.tenants@.len() && self.tenants@[i].domain is Some
                && self.tenants@[j].domain is Some ==> self.tenants@[i].domain->Some_0@
                != self.tenants@[j].domain->Some_0@)
        &&& (forall|k: int| 0 <= k < self.queue@.len() ==> self.queued_job_ok(#[trigger] self.queue@[k]))
        &&& (forall|k: int, l: int|
            0 <= k < l < self.queue@.len() ==> self.queue@[k].tenant_id@
                != self.queue@[l].tenant_id@)
        &&& (forall|k: int, l: int|
            0 <= k < l < self.issuing@.len() ==> self.issuing@[k]@ != self.issuing@[l]@)
    }

    /// An empty registry with the given configuration.
    pub fn new(config: EngineConfig) -> (r: Registry)
        requires
            config.wf(),
        ensures
            r.wf(),
            r.tenants@.len() == 0,
            r.queue@.len() == 0,
            r.issuing@.len() == 0,
            r.config == config,
    {
        Registry { tenants: Vec::new(), queue: Vec::new(), issuing: Vec::new(), config }
    }

    pub(crate) fn find_index(&self, id: &str) -> (r: Option<usize>)
        ensures
            match r {
                Some(i) => i < self.tenants@.len() && self.tenants@[i as int].id@ == id@,
                None => !self.has_tenant(id@),
            },
    {
        let n = self.tenants.len();
        let mut k: usize = 0;
        while k < n
            invariant
                n == self.tenants@.len(),
                k <= n,
                forall|j: int| 0 <= j < k ==> self.tenants@[j].id@ != id@,
            decreases n - k,
        {
            if str_eq(self.tenants[k].id.as_str(), id) {
                return Some(k);
            }
            k += 1;
        }
        None
    }

    fn find_domain_index(&self, dom: &str) -> (r: Option<usize>)
        ensures
            match r {
                Some(i) => {
                    &&& i < self.tenants@.len()
                    &&& self.tenants@[i as int].domain matches Some(d) && d@ == dom@
                },
                None => forall|i: int|
                    0 <= i < self.tenants@.len() ==> !(#[trigger] self.tenants@[i].domain matches
                    Some(d) && d@ == dom@),
            },
    {
        let n = self.tenants.len();
        let mut k: usize = 0;
        while k < n
            invariant
                n == self.tenants@.len(),
                k <= n,
                forall|j: int|
                    0 <= j < k ==> !(#[trigger] self.tenants@[j].domain matches Some(d) && d@
                        == dom@),
            decreases n - k,
        {
            match &self.tenants[k].domain {
                Some(d) => {
                    if str_eq(d.as_str(), dom) {
                        return Some(k);
                    }
                },
                None => {},
            }
            k += 1;
        }
        None
    }

    /// Looks a tenant up by identifier.
    pub fn get(&self, id: &str) -> (r: Option<&Tenant>)
        requires
            self.wf(),
        ensures
            r is Some <==> self.has_tenant(id@),
            r matches Some(t) ==> *t == self.tenant_of(id@),
    {
        match self.find_index(id) {
            Some(i) => {
                proof {
                    lemma_index_is(*self, id@, i as int);
                }
                Some(&self.tenants[i])
            },
            None => None,
        }
    }

    /// Looks the holder of a domain up, if any.
    pub fn find_by_domain(&self, dom: &str) -> (r: Option<&Tenant>)
        requires
            self.wf(),
        ensures
            r matches Some(t) ==> exists|i: int|
                {
                    &&& 0 <= i < self.tenants@.len()
                    &&& *t == self.tenants@[i]
                    &&& (#[trigger] self.tenants@[i].domain) matches Some(d) && d@ == dom@
                },
            r is None ==> forall|i: int|
                0 <= i < self.tenants@.len() ==> !(#[trigger] self.tenants@[i].domain matches Some(
                d,
                ) && d@ == dom@),
    {
        match self.find_domain_index(dom) {
            Some(i) => Some(&self.tenants[i]),
            None => None,
        }
    }

    /// Creates a tenant with no domain bound. Identifiers are immutable
    /// and globally unique; creating an existing identifier is refused.
    pub fn create_tenant(&mut self, id: &str, name: &str) -> (r: Result<(), CreateError>)
        requires
            old(self).wf(),
        ensures
            final(self).wf(),
            match r {
                Ok(()) => {
                    &&& !old(self).has_tenant(id@)
                    &&& final(self).tenants@.len() == old(self).tenants@.len() + 1
                    &&& (forall|j: int|
                        0 <= j < old(self).tenants@.len() ==> final(self).tenants@[j] == old(
                            self,
                        ).tenants@[j])
                    &&& final(self).tenants@.last().id@ == id@
                    &&& final(self).tenants@.last().name@ == name@
                    &&& final(self).tenants@.last().domain is None
                    &&& final(self).tenants@.last().status is Unbound
                    &&& final(self).tenants@.last().epoch == 0
                    &&& final(self).queue == old(self).queue
                    &&& final(self).issuing == old(self).issuing
                    &&& final(self).config == old(self).config
                },
                Err(CreateError::AlreadyExists) => {
                    &&& *final(self) == *old(self)
                    &&& old(self).has_tenant(id@)
                },
            },
    {
        match self.find_index(id) {
            Some(_) => Err(CreateError::AlreadyExists),
            None => {
                self.tenants.push(
                    Tenant {
                        id: id.to_owned(),
                        name: name.to_owned(),
                        domain: None,
                        status: CertStatus::Unbound,
                        epoch: 0,
                    },
                );
                proof {
                    let pre = *old(self);
                    let post = *self;
                    let n = pre.tenants@.len() as int;
                    assert forall|i: int, j: int| 0 <= i < j < post.tenants@.len() implies post
                        .tenants@[i].id@ != post.tenants@[j].id@ by {
                        if j == n {
                            assert(post.tenants@[i] == pre.tenants@[i]);
                        }
                    }
                    assert forall|k: int| 0 <= k < post.queue@.len() implies post.queued_job_ok(
                        #[trigger] post.queue@[k],
                    ) by {
                        let job = post.queue@[k];
                        assert(pre.queued_job_ok(job));
                        let i = pre.tenant_index(job.tenant_id@);
                        assert(0 <= i < pre.tenants@.len() && pre.tenants@[i].id@
                            == job.tenant_id@);
                        assert(post.tenants@[i] == pre.tenants@[i]);
                        lemma_index_is(post, job.tenant_id@, i);
                    }
                }
                Ok(())
            },
        }
    }
}

/// The exact effect of `claim` as a relation between the registry before
/// and after the call: for every well-formed `pre`, exactly one branch
/// applies, so the result and the new state are pinned down.
pub open spec fn claim_post(
    pre: Registry,
    post: Registry,
    id: Seq<char>,
    dom: Seq<char>,
    now: u64,
    r: Result<ClaimOutcome, ClaimError>,
) -> bool {
    match r {
        Result::Err(ClaimError::InvalidDomain) => {
            &&& post == pre
            &&& !valid_domain(dom)
        },
        Result::Err(ClaimError::TenantNotFound) => {
            &&& post == pre
            &&& valid_domain(dom)
            &&& !pre.has_tenant(id)
        },
        Result::Err(ClaimError::DomainTaken) => {
            &&& post == pre
            &&& valid_domain(dom)
            &&& pre.has_tenant(id)
            &&& pre.domain_held_by_other(dom, id)
        },
        Result::Err(ClaimError::BindingActive) => {
            &&& post == pre
            &&& valid_domain(dom)
            &&& pre.has_tenant(id)
            &&& !pre.domain_held_by_other(dom, id)
            &&& pre.tenant_of(id).domain matches Some(d) && d@ != dom
            &&& (pre.tenant_of(id).status is Pending || pre.tenant_of(id).status is Issued)
        },
        Result::Ok(ClaimOutcome::AlreadyBound) => {
            &&& post == pre
            &&& valid_domain(dom)
            &&& pre.has_tenant(id)
            &&& pre.tenant_of(id).domain matches Some(d) && d@ == dom
            &&& (pre.tenant_of(id).status is Pending || pre.tenant_of(id).status is Issued)
        },
        Result::Ok(ClaimOutcome::Claimed) => {
            let i = pre.tenant_index(id);
            &&& valid_domain(dom)
            &&& pre.has_tenant(id)
            &&& !pre.domain_held_by_other(dom, id)
            &&& (pre.tenant_of(id).status is Unbound || pre.tenant_of(id).status is Failed)
            &&& tenants_updated_except(pre.tenants@, post.tenants@, i)
            &&& tenant_rebound(pre.tenants@[i], post.tenants@[i], dom)
            &&& post.queue@.len() == pre.queue@.len() + 1
            &&& (forall|k: int| 0 <= k < pre.queue@.len() ==> post.queue@[k] == pre.queue@[k])
            &&& job_fresh(post.queue@.last(), id, dom, now, post.tenants@[i].epoch)
            &&& post.issuing == pre.issuing
            &&& post.config == pre.config
        },
    }
}

/// The exact effect of `release`.
pub open spec fn release_post(
    pre: Registry,
    post: Registry,
    id: Seq<char>,
    r: Result<(), ReleaseError>,
) -> bool {
    match r {
        Result::Err(ReleaseError::TenantNotFound) => {
            &&& post == pre
            &&& !pre.has_tenant(id)
        },
        Result::Ok(()) => {
            let i = pre.tenant_index(id);
            &&& pre.has_tenant(id)
            &&& tenants_updated_except(pre.tenants@, post.tenants@, i)
            &&& post.tenants@[i].id == pre.tenants@[i].id
            &&& post.tenants@[i].name == pre.tenants@[i].name
            &&& post.tenants@[i].domain is None
            &&& post.tenants@[i].status is Unbound
            &&& post.tenants@[i].epoch == sat_inc(pre.tenants@[i].epoch)
            &&& queue_without(pre.queue@, post.queue@, id)
            &&& post.issuing == pre.issuing
            &&& post.config == pre.config
        },
    }
}

impl Registry {
    pub(crate) fn find_job_index(&self, id: &str) -> (r: Option<usize>)
        ensures
            match r {
                Some(k) => k < self.queue@.len() && self.queue@[k as int].tenant_id@ == id@,
                None => !self.has_queued_job(id@),
            },
    {
        let n = self.queue.len();
        let mut k: usize = 0;
        while k < n
            invariant
                n == self.queue@.len(),
                k <= n,
                forall|l: int| 0 <= l < k ==> self.queue@[l].tenant_id@ != id@,
            decreases n - k,
        {
            if str_eq(self.queue[k].tenant_id.as_str(), id) {
                return Some(k);
            }
            k += 1;
        }
        None
    }

    /// Removes the queued job of tenant `id`, if one is waiting.
    fn remove_tenant_jobs(&mut self, id: &str)
        requires
            old(self).wf(),
        ensures
            final(self).wf(),
            final(self).tenants == old(self).tenants,
            final(self).issuing == old(self).issuing,
            final(self).config == old(self).config,
            queue_without(old(self).queue@, final(self).queue@, id@),
    {
        match self.find_job_index(id) {
            Some(k) => {
                self.queue.remove(k);
                proof {
                    let pre = *old(self);
                    let post = *self;
                    pre.queue@.remove_ensures(k as int);
                    assert(post.queue@ =~= pre.queue@.remove(k as int));
                    assert forall|l: int|
                        0 <= l < pre.queue@.len() && l != k implies pre.queue@[l].tenant_id@
                        != id@ by {
                        if l < k {
                            assert(pre.queue@[l].tenant_id@ != pre.queue@[k as int].tenant_id@);
                        } else {
                            assert(pre.queue@[k as int].tenant_id@ != pre.queue@[l].tenant_id@);
                        }
                    }
                    assert forall|l: int| 0 <= l < post.queue@.len() implies post.queued_job_ok(
                        #[trigger] post.queue@[l],
                    ) by {
                        let j = if l < k { l } else { l + 1 };
                        assert(post.queue@[l] == pre.queue@[j]);
                        assert(pre.queued_job_ok(pre.queue@[j]));
                        let job = post.queue@[l];
                        let i = pre.tenant_index(job.tenant_id@);
                        assert(0 <= i < pre.tenants@.len() && pre.tenants@[i].id@
                            == job.tenant_id@);
                        lemma_index_is(post, job.tenant_id@, i);
                    }
                    assert forall|a: int, b: int|
                        0 <= a < b < post.queue@.len() implies post.queue@[a].tenant_id@ != post
                        .queue@[b].tenant_id@ by {
                        let ja = if a < k { a } else { a + 1 };
                        let jb = if b < k { b } else { b + 1 };
                        assert(post.queue@[a] == pre.queue@[ja]);
                        assert(post.queue@[b] == pre.queue@[jb]);
                    }
                }
            },
            None => {},
        }
    }

    /// Atomically binds `domain` to the tenant, enforcing global domain
    /// uniqueness. On success the tenant's status becomes `Pending` and a
    /// fresh provisioning job is enqueued as part of the same operation;
    /// an idempotent re-claim of an active binding changes nothing and
    /// enqueues nothing.
    pub fn claim(&mut self, tenant_id: &str, domain: &str, now: u64) -> (r: Result<
        ClaimOutcome,
        ClaimError,
    >)
        requires
            old(self).wf(),
        ensures
            final(self).wf(),
            claim_post(*old(self), *final(self), tenant_id@, domain@, now, r),
    {
        if !is_valid_domain(domain) {
            return Err(ClaimError::InvalidDomain);
        }
        let idx = match self.find_index(tenant_id) {
            Some(i) => i,
            None => {
                return Err(ClaimError::TenantNotFound);
            },
        };
        proof {
            lemma_index_is(*self, tenant_id@, idx as int);
        }
        match self.find_domain_index(domain) {
            Some(j) => {
                if !str_eq(self.tenants[j].id.as_str(), tenant_id) {
                    return Err(ClaimError::DomainTaken);
                }
                proof {
                    lemma_index_is(*self, tenant_id@, j as int);
                }
                match self.tenants[idx].status {
                    CertStatus::Pending => {
                        return Ok(ClaimOutcome::AlreadyBound);
                    },
                    CertStatus::Issued { .. } => {
                        return Ok(ClaimOutcome::AlreadyBound);
                    },
                    _ => {},
                }
                proof {
                    assert(self.tenants@[idx as int].domain is Some);
                    assert(Self::tenant_ok(self.tenants@[idx as int]));
                    assert(self.tenants@[idx as int].status is Failed);
                    assert forall|i: int|
                        0 <= i < self.tenants@.len() && i != idx implies !(
                        #[trigger] self.tenants@[i].domain matches Some(d) && d@
                            == domain@) by {
                        if self.tenants@[i].domain is Some && self.tenants@[i].domain->Some_0@
                            == domain@ {
                            if i < idx as int {
                                assert(self.tenants@[i].domain->Some_0@ != self.tenants@[idx
                                    as int].domain->Some_0@);
                            } else {
                                assert(self.tenants@[idx as int].domain->Some_0@
                                    != self.tenants@[i].domain->Some_0@);
                            }
                        }
                    }
                    assert(!self.domain_held_by_other(domain@, tenant_id@));
                }
            },
            None => {
                match self.tenants[idx].status {
                    CertStatus::Pending => {
                        return Err(ClaimError::BindingActive);
                    },
                    CertStatus::Issued { .. } => {
                        return Err(ClaimError::BindingActive);
                    },
                    _ => {},
                }
                proof {
                    assert(Self::tenant_ok(self.tenants@[idx as int]));
                    assert(self.tenants@[idx as int].status is Unbound || self.tenants@[idx
                        as int].status is Failed);
                    assert(!self.domain_held_by_other(domain@, tenant_id@));
                }
            },
        }
        proof {
            assert(self.tenants@[idx as int].status is Unbound || self.tenants@[idx
                as int].status is Failed);
            assert(!self.domain_held_by_other(domain@, tenant_id@));
            assert forall|i: int|
                0 <= i < self.tenants@.len() && i != idx implies !(#[trigger] self.tenants@[i]
                .domain matches Some(d) && d@ == domain@) by {
                if self.tenants@[i].domain is Some && self.tenants@[i].domain->Some_0@
                    == domain@ {
                    assert(self.tenants@[i].id@ != tenant_id@);
                    assert(self.domain_held_by_other(domain@, tenant_id@));
                }
            }
            assert forall|k: int|
                0 <= k < self.queue@.len() implies #[trigger] self.queue@[k].tenant_id@
                != tenant_id@ by {
                if self.queue@[k].tenant_id@ == tenant_id@ {
                    assert(self.queued_job_ok(self.queue@[k]));
                    assert(self.tenant_of(tenant_id@).status is Pending || self.tenant_of(
                        tenant_id@,
                    ).status is Issued);
                }
            }
        }
        let new_epoch = exec_sat_inc(self.tenants[idx].epoch);
        self.tenants[idx].domain = Some(domain.to_owned());
        self.tenants[idx].status = CertStatus::Pending;
        self.tenants[idx].epoch = new_epoch;
        self.queue.push(
            Job {
                tenant_id: tenant_id.to_owned(),
                domain: domain.to_owned(),
                created_at: now,
                attempts: 0,
                next_retry_at: now,
                epoch: new_epoch,
            },
        );
        proof {
            let pre = *old(self);
            let post = *self;
            assert forall|i: int, j: int| 0 <= i < j < post.tenants@.len() implies post
                .tenants@[i].id@ != post.tenants@[j].id@ by {
                assert(post.tenants@[i].id == pre.tenants@[i].id);
                assert(post.tenants@[j].id == pre.tenants@[j].id);
            }
            assert forall|k: int| 0 <= k < post.queue@.len() implies post.queued_job_ok(
                #[trigger] post.queue@[k],
            ) by {
                let job = post.queue@[k];
                if k < pre.queue@.len() {
                    assert(job == pre.queue@[k]);
                    assert(pre.queued_job_ok(job));
                    assert(job.tenant_id@ != tenant_id@);
                    let i = pre.tenant_index(job.tenant_id@);
                    assert(0 <= i < pre.tenants@.len() && pre.tenants@[i].id@ == job.tenant_id@);
                    assert(i != idx as int);
                    assert(post.tenants@[i] == pre.tenants@[i]);
                    lemma_index_is(post, job.tenant_id@, i);
                } else {
                    lemma_index_is(post, tenant_id@, idx as int);
                }
            }
        }
        Ok(ClaimOutcome::Claimed)
    }

    /// Unconditionally clears the tenant's binding: domain freed for
    /// reuse, status back to `Unbound`, the queued job (if any) discarded,
    /// and the binding epoch advanced so that any attempt still in flight
    /// is superseded and can never commit.
    pub fn release(&mut self, tenant_id: &str) -> (r: Result<(), ReleaseError>)
        requires
            old(self).wf(),
        ensures
            final(self).wf(),
            release_post(*old(self), *final(self), tenant_id@, r),
    {
        let idx = match self.find_index(tenant_id) {
            Some(i) => i,
            None => {
                return Err(ReleaseError::TenantNotFound);
            },
        };
        proof {
            lemma_index_is(*self, tenant_id@, idx as int);
        }
        self.remove_tenant_jobs(tenant_id);
        let ghost mid = *self;
        let new_epoch = exec_sat_inc(self.tenants[idx].epoch);
        self.tenants[idx].domain = None;
        self.tenants[idx].status = CertStatus::Unbound;
        self.tenants[idx].epoch = new_epoch;
        proof {
            let pre = *old(self);
            let post = *self;
            assert forall|i: int, j: int| 0 <= i < j < post.tenants@.len() implies post
                .tenants@[i].id@ != post.tenants@[j].id@ by {
                assert(post.tenants@[i].id == pre.tenants@[i].id);
                assert(post.tenants@[j].id == pre.tenants@[j].id);
            }
            assert forall|k: int| 0 <= k < mid.queue@.len() implies #[trigger] mid.queue@[k]
                .tenant_id@ != tenant_id@ by {
                if exists|l: int|
                    0 <= l < pre.queue@.len() && pre.queue@[l].tenant_id@ == tenant_id@ && (
                    mid.queue@ == pre.queue@.remove(l)) && (forall|m: int|
                        0 <= m < pre.queue@.len() && m != l ==> pre.queue@[m].tenant_id@
                            != tenant_id@) {
                    let l = choose|l: int|
                        0 <= l < pre.queue@.len() && pre.queue@[l].tenant_id@ == tenant_id@ && (
                        mid.queue@ == pre.queue@.remove(l)) && (forall|m: int|
                            0 <= m < pre.queue@.len() && m != l ==> pre.queue@[m].tenant_id@
                                != tenant_id@);
                    pre.queue@.remove_ensures(l);
                    assert(mid.queue@[k] == pre.queue@[if k < l { k } else { k + 1 }]);
                }
            }
            assert forall|k: int| 0 <= k < post.queue@.len() implies post.queued_job_ok(
                #[trigger] post.queue@[k],
            ) by {
                let job = post.queue@[k];
                assert(mid.queued_job_ok(job));
                assert(job.tenant_id@ != tenant_id@);
                let i = mid.tenant_index(job.tenant_id@);
                assert(0 <= i < mid.tenants@.len() && mid.tenants@[i].id@ == job.tenant_id@);
                assert(i != idx as int);
                assert(post.tenants@[i] == mid.tenants@[i]);
                lemma_index_is(post, job.tenant_id@, i);
            }
        }
        Ok(())
    }
}

/// The (tenant identifier, domain, status) rows of all tenants with a
/// bound domain, in store order.
pub open spec fn domain_rows(ts: Seq<Tenant>) -> Seq<(Seq<char>, Seq<char>, CertStatus)>
    decreases ts.len(),
{
    if ts.len() == 0 {
        Seq::empty()
    } else {
        let rest = domain_rows(ts.drop_last());
        match ts.last().domain {
            Some(d) => rest.push((ts.last().id@, d@, ts.last().status)),
            None => rest,
        }
    }
}

impl Registry {
    /// Read-only projection of every bound domain with its holder and
    /// certificate status.
    pub fn list_domains(&self) -> (r: Vec<DomainInfo>)
        ensures
            r@.len() == domain_rows(self.tenants@).len(),
            forall|k: int|
                0 <= k < r@.len() ==> {
                    let row = domain_rows(self.tenants@)[k];
                    &&& (#[trigger] r@[k]).tenant_id@ == row.0
                    &&& r@[k].domain@ == row.1
                    &&& r@[k].status == row.2
                },
    {
        let n = self.tenants.len();
        let mut out: Vec<DomainInfo> = Vec::new();
        let mut i: usize = 0;
        while i < n
            invariant
                n == self.tenants@.len(),
                i <= n,
                out@.len() == domain_rows(self.tenants@.subrange(0, i as int)).len(),
                forall|k: int|
                    0 <= k < out@.len() ==> {
                        let row = domain_rows(self.tenants@.subrange(0, i as int))[k];
                        &&& (#[trigger] out@[k]).tenant_id@ == row.0
                        &&& out@[k].domain@ == row.1
                        &&& out@[k].status == row.2
                    },
            decreases n - i,
        {
            proof {
                assert(self.tenants@.subrange(0, i + 1).drop_last() =~= self.tenants@.subrange(
                    0,
                    i as int,
                ));
                assert(self.tenants@.subrange(0, i + 1).last() == self.tenants@[i as int]);
            }
            match &self.tenants[i].domain {
                Some(d) => {
                    out.push(
                        DomainInfo {
                            tenant_id: self.tenants[i].id.clone(),
                            domain: d.clone(),
                            status: self.tenants[i].status,
                        },
                    );
                },
                None => {},
            }
            i += 1;
        }
        proof {
            assert(self.tenants@.subrange(0, n as int) =~= self.tenants@);
        }
        out
    }

    /// Updates a tenant's display name. The identifier is immutable and
    /// the domain binding and certificate status are owned by the claim
    /// coordinator, so nothing else changes.
    pub fn update_tenant(&mut self, id: &str, name: &str) -> (r: Result<(), UpdateError>)
        requires
            old(self).wf(),
        ensures
            final(self).wf(),
            match r {
                Ok(()) => {
                    let i = old(self).tenant_index(id@);
                    &&& old(self).has_tenant(id@)
                    &&& tenants_updated_except(old(self).tenants@, final(self).tenants@, i)
                    &&& final(self).tenants@[i].id == old(self).tenants@[i].id
                    &&& final(self).tenants@[i].name@ == name@
                    &&& final(self).tenants@[i].domain == old(self).tenants@[i].domain
                    &&& final(self).tenants@[i].status == old(self).tenants@[i].status
                    &&& final(self).tenants@[i].epoch == old(self).tenants@[i].epoch
                    &&& final(self).queue == old(self).queue
                    &&& final(self).issuing == old(self).issuing
                    &&& final(self).config == old(self).config
                },
                Err(UpdateError::TenantNotFound) => {
                    &&& *final(self) == *old(self)
                    &&& !old(self).has_tenant(id@)
                },
            },
    {
        let idx = match self.find_index(id) {
            Some(i) => i,
            None => {
                return Err(UpdateError::TenantNotFound);
            },
        };
        proof {
            lemma_index_is(*self, id@, idx as int);
        }
        self.tenants[idx].name = name.to_owned();
        proof {
            let pre = *old(self);
            let post = *self;
            assert forall|i: int, j: int| 0 <= i < j < post.tenants@.len() implies post
                .tenants@[i].id@ != post.tenants@[j].id@ by {
                assert(post.tenants@[i].id == pre.tenants@[i].id);
                assert(post.tenants@[j].id == pre.tenants@[j].id);
            }
            assert forall|i: int, j: int|
                0 <= i < j < post.tenants@.len() && post.tenants@[i].domain is Some && post
                    .tenants@[j].domain is Some implies post.tenants@[i].domain->Some_0@ != post
                .tenants@[j].domain->Some_0@ by {
                assert(post.tenants@[i].domain == pre.tenants@[i].domain);
                assert(post.tenants@[j].domain == pre.tenants@[j].domain);
            }
            assert forall|k: int| 0 <= k < post.queue@.len() implies post.queued_job_ok(
                #[trigger] post.queue@[k],
            ) by {
                let job = post.queue@[k];
                assert(pre.queued_job_ok(job));
                let x = pre.tenant_index(job.tenant_id@);
                assert(0 <= x < pre.tenants@.len() && pre.tenants@[x].id@ == job.tenant_id@);
                assert(post.tenants@[x].id == pre.tenants@[x].id);
                assert(post.tenants@[x].domain == pre.tenants@[x].domain);
                assert(post.tenants@[x].epoch == pre.tenants@[x].epoch);
                assert(post.tenants@[x].status == pre.tenants@[x].status);
                lemma_index_is(post, job.tenant_id@, x);
            }
        }
        Ok(())
    }

    /// Deletes a tenant record and discards its queued job. Any attempt
    /// still in flight for it can never commit: the record is gone, so
    /// its completion is discarded as superseded.
    pub fn delete_tenant(&mut self, id: &str) -> (r: Result<(), UpdateError>)
        requires
            old(self).wf(),
        ensures
            final(self).wf(),
            match r {
                Ok(()) => {
                    &&& old(self).has_tenant(id@)
                    &&& final(self).tenants@ == old(self).tenants@.remove(
                        old(self).tenant_index(id@),
                    )
                    &&& queue_without(old(self).queue@, final(self).queue@, id@)
                    &&& final(self).issuing == old(self).issuing
                    &&& final(self).config == old(self).config
                },
                Err(UpdateError::TenantNotFound) => {
                    &&& *final(self) == *old(self)
                    &&& !old(self).has_tenant(id@)
                },
            },
    {
        let idx = match self.find_index(id) {
            Some(i) => i,
            None => {
                return Err(UpdateError::TenantNotFound);
            },
        };
        proof {
            lemma_index_is(*self, id@, idx as int);
        }
        self.remove_tenant_jobs(id);
        let ghost mid = *self;
        self.tenants.remove(idx);
        proof {
            let pre = *old(self);
            let post = *self;
            mid.tenants@.remove_ensures(idx as int);
            assert(post.tenants@ =~= pre.tenants@.remove(idx as int));
            assert forall|a: int, b: int| 0 <= a < b < post.tenants@.len() implies post
                .tenants@[a].id@ != post.tenants@[b].id@ by {
                let ja = if a < idx {
                    a
                } else {
                    a + 1
                };
                let jb = if b < idx {
                    b
                } else {
                    b + 1
                };
                assert(post.tenants@[a] == pre.tenants@[ja]);
                assert(post.tenants@[b] == pre.tenants@[jb]);
            }
            assert forall|a: int, b: int|
                0 <= a < b < post.tenants@.len() && post.tenants@[a].domain is Some && post
                    .tenants@[b].domain is Some implies post.tenants@[a].domain->Some_0@ != post
                .tenants@[b].domain->Some_0@ by {
                let ja = if a < idx {
                    a
                } else {
                    a + 1
                };
                let jb = if b < idx {
                    b
                } else {
                    b + 1
                };
                assert(post.tenants@[a] == pre.tenants@[ja]);
                assert(post.tenants@[b] == pre.tenants@[jb]);
            }
            assert forall|a: int| 0 <= a < post.tenants@.len() implies Self::tenant_ok(
                post.tenants@[a],
            ) by {
                let ja = if a < idx {
                    a
                } else {
                    a + 1
                };
                assert(post.tenants@[a] == pre.tenants@[ja]);
            }
            assert forall|k: int| 0 <= k < mid.queue@.len() implies #[trigger] mid.queue@[k]
                .tenant_id@ != id@ by {
                if exists|l: int|
                    0 <= l < pre.queue@.len() && pre.queue@[l].tenant_id@ == id@ && (mid.queue@
                        == pre.queue@.remove(l)) && (forall|m: int|
                        0 <= m < pre.queue@.len() && m != l ==> pre.queue@[m].tenant_id@
                            != id@) {
                    let l = choose|l: int|
                        0 <= l < pre.queue@.len() && pre.queue@[l].tenant_id@ == id@ && (
                        mid.queue@ == pre.queue@.remove(l)) && (forall|m: int|
                            0 <= m < pre.queue@.len() && m != l ==> pre.queue@[m].tenant_id@
                                != id@);
                    pre.queue@.remove_ensures(l);
                    assert(mid.queue@[k] == pre.queue@[if k < l {
                        k
                    } else {
                        k + 1
                    }]);
                }
            }
            assert forall|k: int| 0 <= k < post.queue@.len() implies post.queued_job_ok(
                #[trigger] post.queue@[k],
            ) by {
                let job = post.queue@[k];
                assert(mid.queued_job_ok(job));
                assert(job.tenant_id@ != id@);
                let x = mid.tenant_index(job.tenant_id@);
                assert(0 <= x < mid.tenants@.len() && mid.tenants@[x].id@ == job.tenant_id@);
                assert(x != idx as int);
                let x2 = if x < idx {
                    x
                } else {
                    x - 1
                };
                assert(post.tenants@[x2] == mid.tenants@[x]);
                lemma_index_is(post, job.tenant_id@, x2);
            }
        }
        Ok(())
    }
}

/// If position `i` carries identifier `id` in a well-formed registry, then
/// `i` is the (unique) index the lookup functions denote.
pub proof fn lemma_index_is(r: Registry, id: Seq<char>, i: int)
    requires
        forall|a: int, b: int|
            0 <= a < b < r.tenants@.len() ==> r.tenants@[a].id@ != r.tenants@[b].id@,
        0 <= i < r.tenants@.len(),
        r.tenants@[i].id@ == id,
    ensures
        r.has_tenant(id),
        r.tenant_index(id) == i,
        r.tenant_of(id) == r.tenants@[i],
{
    assert(r.has_tenant(id));
    let j = r.tenant_index(id);
    assert(0 <= j < r.tenants@.len() && r.tenants@[j].id@ == id);
    if i < j {
        assert(r.tenants@[i].id@ != r.tenants@[j].id@);
    } else if j < i {
        assert(r.tenants@[j].id@ != r.tenants@[i].id@);
    }
}

} // verus!
