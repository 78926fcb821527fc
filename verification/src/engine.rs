//! The certificate-provisioning engine.
//!
//! Workers drive each job through `Queued -> Issuing -> {Issued,
//! RetryScheduled, Failed}`: `dequeue` hands an eligible job to a worker
//! and records the tenant as in flight (per-tenant single-flight), the
//! worker performs the certificate-authority call outside the library,
//! and `complete` commits the reported outcome. Before committing,
//! `complete` re-reads the tenant's current binding; a job whose binding
//! changed, vanished, or was superseded by a newer job commits nothing.

use vstd::prelude::*;
use crate::model::{Job, CertStatus, EngineConfig, IssueOutcome, CompleteResult};
use crate::registry::{Registry, lemma_index_is, tenants_updated_except};
use crate::strutil::str_eq;

verus! {

/// 2 to the power `n`.
pub open spec fn spec_pow2(n: nat) -> nat
    decreases n,
{
    if n == 0 {
        1
    } else {
        2 * spec_pow2((n - 1) as nat)
    }
}

/// Addition that sticks at the maximum instead of wrapping.
pub open spec fn sat_add(a: u64, b: u64) -> u64 {
    if a + b > u64::MAX {
        u64::MAX
    } else {
        (a + b) as u64
    }
}

/// Increment that sticks at the maximum instead of wrapping.
pub open spec fn sat_inc_u32(a: u32) -> u32 {
    if a == u32::MAX {
        a
    } else {
        (a + 1) as u32
    }
}

/// The exponential part of the retry delay: base delay times 2^attempts,
/// capped at the configured maximum.
pub open spec fn capped_delay(cfg: EngineConfig, attempts: nat) -> u64 {
    if cfg.base_delay * spec_pow2(attempts) > cfg.max_delay {
        cfg.max_delay
    } else {
        (cfg.base_delay * spec_pow2(attempts)) as u64
    }
}

/// The full backoff delay: capped exponential part plus jitter bounded by
/// the base delay.
pub open spec fn backoff_delay(cfg: EngineConfig, attempts: nat, jitter: u64) -> u64 {
    sat_add(capped_delay(cfg, attempts), (jitter % cfg.base_delay) as u64)
}

proof fn lemma_capped_delay_step(cfg: EngineConfig, k: nat)
    requires
        cfg.wf(),
    ensures
        capped_delay(cfg, k + 1) == (if capped_delay(cfg, k) > cfg.max_delay / 2 {
            cfg.max_delay
        } else {
            (2 * capped_delay(cfg, k)) as u64
        }),
{
    let p = cfg.base_delay * spec_pow2(k);
    assert(spec_pow2(k + 1) == 2 * spec_pow2(k));
    assert(cfg.base_delay * spec_pow2(k + 1) == 2 * p) by (nonlinear_arith)
        requires
            spec_pow2(k + 1) == 2 * spec_pow2(k),
            p == cfg.base_delay * spec_pow2(k),
    ;
    assert(spec_pow2(k) >= 1) by {
        lemma_pow2_pos(k);
    }
    assert(p >= cfg.base_delay) by (nonlinear_arith)
        requires
            p == cfg.base_delay * spec_pow2(k),
            spec_pow2(k) >= 1,
            cfg.base_delay >= 1,
    ;
}

proof fn lemma_pow2_pos(n: nat)
    ensures
        spec_pow2(n) >= 1,
    decreases n,
{
    if n > 0 {
        lemma_pow2_pos((n - 1) as nat);
    }
}

/// Computes the retry backoff delay for the given attempt count.
pub fn exec_backoff_delay(cfg: &EngineConfig, attempts: u32, jitter: u64) -> (d: u64)
    requires
        cfg.wf(),
    ensures
        d == backoff_delay(*cfg, attempts as nat, jitter),
{
    let mut k: u32 = 0;
    let mut e: u64 = cfg.base_delay;
    proof {
        assert(spec_pow2(0) == 1);
        assert(cfg.base_delay * spec_pow2(0) == cfg.base_delay) by (nonlinear_arith)
            requires
                spec_pow2(0) == 1,
        ;
        assert(capped_delay(*cfg, 0) == cfg.base_delay);
    }
    while k < attempts
        invariant
            cfg.wf(),
            k <= attempts,
            e == capped_delay(*cfg, k as nat),
        decreases attempts - k,
    {
        proof {
            lemma_capped_delay_step(*cfg, k as nat);
        }
        if e > cfg.max_delay / 2 {
            e = cfg.max_delay;
        } else {
            e = 2 * e;
        }
        k += 1;
    }
    let j = jitter % cfg.base_delay;
    if e > u64::MAX - j {
        u64::MAX
    } else {
        e + j
    }
}

/// The job at queue position `k` may be handed to a worker: its retry
/// time has come and its tenant has no attempt in flight.
pub open spec fn job_eligible(r: Registry, k: int, now: u64) -> bool {
    &&& 0 <= k < r.queue@.len()
    &&& r.queue@[k].next_retry_at <= now
    &&& !r.issuing_has(r.queue@[k].tenant_id@)
}

/// The exact effect of `dequeue`: the first eligible job (if any) moves
/// from the queue to a worker, and its tenant is recorded as in flight.
pub open spec fn dequeue_post(pre: Registry, post: Registry, now: u64, r: Option<Job>) -> bool {
    match r {
        Option::None => {
            &&& post == pre
            &&& forall|k: int| 0 <= k < pre.queue@.len() ==> !job_eligible(pre, k, now)
        },
        Option::Some(job) => exists|k: int|
            {
                &&& job_eligible(pre, k, now)
                &&& (forall|l: int| 0 <= l < k ==> !job_eligible(pre, l, now))
                &&& job == pre.queue@[k]
                &&& post.queue@ == pre.queue@.remove(k)
                &&& post.tenants == pre.tenants
                &&& post.config == pre.config
                &&& post.issuing@.len() == pre.issuing@.len() + 1
                &&& (forall|i: int|
                    0 <= i < pre.issuing@.len() ==> post.issuing@[i] == pre.issuing@[i])
                &&& post.issuing@.last()@ == job.tenant_id@
            },
    }
}

/// The job targets its tenant's current binding (same domain, same
/// epoch, a status still open to issuance work) and no newer job for the
/// tenant is queued. Only such a job may commit a result.
pub open spec fn job_current(r: Registry, job: Job) -> bool {
    &&& r.has_tenant(job.tenant_id@)
    &&& r.tenant_of(job.tenant_id@).domain matches Some(d) && d@ == job.domain@
    &&& r.tenant_of(job.tenant_id@).epoch == job.epoch
    &&& (r.tenant_of(job.tenant_id@).status is Pending || r.tenant_of(
        job.tenant_id@,
    ).status is Issued)
    &&& !r.has_queued_job(job.tenant_id@)
}

/// The tenant's in-flight marker was removed; everything else about the
/// issuing set is unchanged.
pub open spec fn issuing_removed(pre: Registry, post: Registry, id: Seq<char>) -> bool {
    exists|i: int|
        {
            &&& 0 <= i < pre.issuing@.len()
            &&& pre.issuing@[i]@ == id
            &&& post.issuing@ == pre.issuing@.remove(i)
        }
}

/// The exact effect of `complete`.
pub open spec fn complete_post(
    pre: Registry,
    post: Registry,
    job: Job,
    outcome: IssueOutcome,
    now: u64,
    jitter: u64,
    r: CompleteResult,
) -> bool {
    match r {
        CompleteResult::UnknownJob => {
            &&& post == pre
            &&& !pre.issuing_has(job.tenant_id@)
        },
        CompleteResult::Superseded => {
            &&& pre.issuing_has(job.tenant_id@)
            &&& !job_current(pre, job)
            &&& post.tenants == pre.tenants
            &&& post.queue == pre.queue
            &&& post.config == pre.config
            &&& issuing_removed(pre, post, job.tenant_id@)
        },
        CompleteResult::Committed => {
            let i = pre.tenant_index(job.tenant_id@);
            &&& pre.issuing_has(job.tenant_id@)
            &&& job_current(pre, job)
            &&& outcome matches IssueOutcome::Success { expires_at }
            &&& tenants_updated_except(pre.tenants@, post.tenants@, i)
            &&& post.tenants@[i].id == pre.tenants@[i].id
            &&& post.tenants@[i].name == pre.tenants@[i].name
            &&& post.tenants@[i].domain == pre.tenants@[i].domain
            &&& post.tenants@[i].epoch == pre.tenants@[i].epoch
            &&& post.tenants@[i].status == (CertStatus::Issued { issued_at: now, expires_at })
            &&& post.queue == pre.queue
            &&& post.config == pre.config
            &&& issuing_removed(pre, post, job.tenant_id@)
        },
        CompleteResult::RetryScheduled { attempts, next_retry_at } => {
            &&& pre.issuing_has(job.tenant_id@)
            &&& job_current(pre, job)
            &&& outcome matches IssueOutcome::Failure { reason } && reason.spec_retryable()
            &&& attempts == sat_inc_u32(job.attempts)
            &&& attempts < pre.config.max_attempts
            &&& next_retry_at == sat_add(now, backoff_delay(pre.config, attempts as nat, jitter))
            &&& post.tenants == pre.tenants
            &&& post.queue@.len() == pre.queue@.len() + 1
            &&& (forall|k: int| 0 <= k < pre.queue@.len() ==> post.queue@[k] == pre.queue@[k])
            &&& post.queue@.last() == (Job {
                tenant_id: job.tenant_id,
                domain: job.domain,
                created_at: job.created_at,
                attempts,
                next_retry_at,
                epoch: job.epoch,
            })
            &&& post.config == pre.config
            &&& issuing_removed(pre, post, job.tenant_id@)
        },
        CompleteResult::FailedPermanently { attempts } => {
            let i = pre.tenant_index(job.tenant_id@);
            &&& pre.issuing_has(job.tenant_id@)
            &&& job_current(pre, job)
            &&& outcome matches IssueOutcome::Failure { reason } && {
                &&& attempts == sat_inc_u32(job.attempts)
                &&& (reason.spec_retryable() ==> attempts >= pre.config.max_attempts)
                &&& post.tenants@[i].status == (CertStatus::Failed { reason, attempts })
            }
            &&& tenants_updated_except(pre.tenants@, post.tenants@, i)
            &&& post.tenants@[i].id == pre.tenants@[i].id
            &&& post.tenants@[i].name == pre.tenants@[i].name
            &&& post.tenants@[i].domain == pre.tenants@[i].domain
            &&& post.tenants@[i].epoch == pre.tenants@[i].epoch
            &&& post.queue == pre.queue
            &&& post.config == pre.config
            &&& issuing_removed(pre, post, job.tenant_id@)
        },
    }
}

/// The tenant at index `i` needs a job enqueued by a sweep of the given
/// kind: it has no queued job and no attempt in flight, and it is either
/// stuck in `Pending` (reconciliation — at-least-once recovery of a lost
/// enqueue) or `Issued` with the certificate expiring inside the renewal
/// window (renewal).
pub open spec fn sweep_due(s: Registry, i: int, now: u64, renewals: bool) -> bool {
    &&& 0 <= i < s.tenants@.len()
    &&& !s.has_queued_job(s.tenants@[i].id@)
    &&& !s.issuing_has(s.tenants@[i].id@)
    &&& if renewals {
        s.tenants@[i].status matches CertStatus::Issued { expires_at, .. } && expires_at
            <= sat_add(now, s.config.renew_window)
    } else {
        s.tenants@[i].status is Pending
    }
}

/// A job a sweep added: a fresh job for some tenant (below index `hi`)
/// that was due.
pub open spec fn sweep_added_job(pre: Registry, job: Job, now: u64, renewals: bool, hi: int) -> bool {
    exists|j: int|
        {
            &&& 0 <= j < hi
            &&& #[trigger] sweep_due(pre, j, now, renewals)
            &&& job.tenant_id@ == pre.tenants@[j].id@
            &&& pre.tenants@[j].domain matches Some(d) && job.domain@ == d@
            &&& job.epoch == pre.tenants@[j].epoch
            &&& job.attempts == 0
            &&& job.created_at == now
            &&& job.next_retry_at == now
        }
}

/// The exact effect of a sweep: the queue is extended with one fresh job
/// for every due tenant and nothing else changes.
pub open spec fn sweep_post(pre: Registry, post: Registry, now: u64, renewals: bool, n: usize) -> bool {
    &&& post.tenants == pre.tenants
    &&& post.issuing == pre.issuing
    &&& post.config == pre.config
    &&& pre.queue@.len() <= post.queue@.len()
    &&& (forall|k: int| 0 <= k < pre.queue@.len() ==> post.queue@[k] == pre.queue@[k])
    &&& (forall|k: int|
        pre.queue@.len() <= k < post.queue@.len() ==> sweep_added_job(
            pre,
            #[trigger] post.queue@[k],
            now,
            renewals,
            pre.tenants@.len() as int,
        ))
    &&& (forall|i: int|
        #[trigger] sweep_due(pre, i, now, renewals) ==> post.has_queued_job(
            pre.tenants@[i].id@,
        ))
    &&& n == post.queue@.len() - pre.queue@.len()
}

impl Registry {
    fn sweep_enqueue(&mut self, now: u64, renewals: bool) -> (n: usize)
        requires
            old(self).wf(),
        ensures
            final(self).wf(),
            sweep_post(*old(self), *final(self), now, renewals, n),
    {
        let n_t = self.tenants.len();
        let q0 = self.queue.len();
        let mut i: usize = 0;
        while i < n_t
            invariant
                self.wf(),
                old(self).wf(),
                self.tenants == old(self).tenants,
                self.issuing == old(self).issuing,
                self.config == old(self).config,
                n_t == self.tenants@.len(),
                i <= n_t,
                old(self).queue@.len() <= self.queue@.len(),
                forall|k: int|
                    0 <= k < old(self).queue@.len() ==> self.queue@[k] == old(self).queue@[k],
                q0 == old(self).queue@.len(),
                forall|k: int|
                    old(self).queue@.len() <= k < self.queue@.len() ==> sweep_added_job(
                        *old(self),
                        #[trigger] self.queue@[k],
                        now,
                        renewals,
                        i as int,
                    ),
                forall|j: int|
                    0 <= j < i && #[trigger] sweep_due(*old(self), j, now, renewals)
                        ==> self.has_queued_job(old(self).tenants@[j].id@),
            decreases n_t - i,
        {
            let ghost pre = *old(self);
            let ghost cur = *self;
            let due_status = if renewals {
                match self.tenants[i].status {
                    CertStatus::Issued { expires_at, .. } => {
                        let bound = if now > u64::MAX - self.config.renew_window {
                            u64::MAX
                        } else {
                            now + self.config.renew_window
                        };
                        expires_at <= bound
                    },
                    _ => false,
                }
            } else {
                match self.tenants[i].status {
                    CertStatus::Pending => true,
                    _ => false,
                }
            };
            if due_status {
                let no_job = match self.find_job_index(self.tenants[i].id.as_str()) {
                    Some(_) => false,
                    None => true,
                };
                let no_flight = !self.issuing_contains(self.tenants[i].id.as_str());
                if no_job && no_flight {
                    proof {
                        assert(!pre.has_queued_job(cur.tenants@[i as int].id@)) by {
                            if pre.has_queued_job(cur.tenants@[i as int].id@) {
                                let k = choose|k: int|
                                    0 <= k < pre.queue@.len() && pre.queue@[k].tenant_id@
                                        == cur.tenants@[i as int].id@;
                                assert(cur.queue@[k] == pre.queue@[k]);
                            }
                        }
                        assert(sweep_due(pre, i as int, now, renewals));
                        assert(Self::tenant_ok(cur.tenants@[i as int]));
                        assert(cur.tenants@[i as int].domain is Some);
                    }
                    let d = match &self.tenants[i].domain {
                        Some(d) => d.clone(),
                        None => {
                            proof {
                                assert(false);
                            }
                            String::new()
                        },
                    };
                    let tid = self.tenants[i].id.clone();
                    let ep = self.tenants[i].epoch;
                    self.queue.push(
                        Job {
                            tenant_id: tid,
                            domain: d,
                            created_at: now,
                            attempts: 0,
                            next_retry_at: now,
                            epoch: ep,
                        },
                    );
                    proof {
                        let post = *self;
                        assert forall|l: int| 0 <= l < post.queue@.len() implies post
                            .queued_job_ok(#[trigger] post.queue@[l]) by {
                            let pj = post.queue@[l];
                            if l < cur.queue@.len() {
                                assert(pj == cur.queue@[l]);
                                assert(cur.queued_job_ok(pj));
                                let x = cur.tenant_index(pj.tenant_id@);
                                assert(0 <= x < cur.tenants@.len() && cur.tenants@[x].id@
                                    == pj.tenant_id@);
                                lemma_index_is(post, pj.tenant_id@, x);
                            } else {
                                lemma_index_is(post, post.tenants@[i as int].id@, i as int);
                            }
                        }
                        assert forall|a: int, b: int|
                            0 <= a < b < post.queue@.len() implies post.queue@[a].tenant_id@
                            != post.queue@[b].tenant_id@ by {
                            if b == cur.queue@.len() as int {
                                assert(!cur.has_queued_job(cur.tenants@[i as int].id@));
                            }
                        }
                        assert forall|k: int|
                            pre.queue@.len() <= k < post.queue@.len() implies sweep_added_job(
                            pre,
                            #[trigger] post.queue@[k],
                            now,
                            renewals,
                            i + 1,
                        ) by {
                            if k < cur.queue@.len() {
                                assert(post.queue@[k] == cur.queue@[k]);
                                assert(sweep_added_job(pre, cur.queue@[k], now, renewals, i as int));
                                let j = choose|j: int|
                                    {
                                        &&& 0 <= j < i as int
                                        &&& #[trigger] sweep_due(pre, j, now, renewals)
                                        &&& cur.queue@[k].tenant_id@ == pre.tenants@[j].id@
                                        &&& pre.tenants@[j].domain matches Some(d)
                                            && cur.queue@[k].domain@ == d@
                                        &&& cur.queue@[k].epoch == pre.tenants@[j].epoch
                                        &&& cur.queue@[k].attempts == 0
                                        &&& cur.queue@[k].created_at == now
                                        &&& cur.queue@[k].next_retry_at == now
                                    };
                                assert(sweep_due(pre, j, now, renewals));
                            } else {
                                assert(post.queue@[k] == post.queue@.last());
                                assert(sweep_due(pre, i as int, now, renewals));
                            }
                        }
                        assert forall|j: int|
                            0 <= j < i + 1 && #[trigger] sweep_due(pre, j, now, renewals) implies
                            post.has_queued_job(pre.tenants@[j].id@) by {
                            if j < i as int {
                                assert(cur.has_queued_job(pre.tenants@[j].id@));
                                let k = choose|k: int|
                                    0 <= k < cur.queue@.len() && cur.queue@[k].tenant_id@
                                        == pre.tenants@[j].id@;
                                assert(post.queue@[k] == cur.queue@[k]);
                            } else {
                                assert(post.queue@.last().tenant_id@ == pre.tenants@[j].id@);
                            }
                        }
                    }
                } else {
                    proof {
                        assert forall|j: int|
                            0 <= j < i + 1 && #[trigger] sweep_due(pre, j, now, renewals) implies
                            self.has_queued_job(pre.tenants@[j].id@) by {
                            if j == i as int {
                                if !no_flight {
                                    assert(self.issuing_has(cur.tenants@[i as int].id@));
                                    assert(false);
                                } else {
                                    assert(self.has_queued_job(cur.tenants@[i as int].id@));
                                    let k = choose|k: int|
                                        0 <= k < cur.queue@.len() && cur.queue@[k].tenant_id@
                                            == cur.tenants@[i as int].id@;
                                    if k < pre.queue@.len() {
                                        assert(cur.queue@[k] == pre.queue@[k]);
                                        assert(pre.has_queued_job(pre.tenants@[j].id@));
                                        assert(false);
                                    } else {
                                        assert(sweep_added_job(
                                            pre,
                                            cur.queue@[k],
                                            now,
                                            renewals,
                                            i as int,
                                        ));
                                        let x = choose|x: int|
                                            {
                                                &&& 0 <= x < i as int
                                                &&& #[trigger] sweep_due(pre, x, now, renewals)
                                                &&& cur.queue@[k].tenant_id@
                                                    == pre.tenants@[x].id@
                                                &&& pre.tenants@[x].domain matches Some(d)
                                                    && cur.queue@[k].domain@ == d@
                                                &&& cur.queue@[k].epoch == pre.tenants@[x].epoch
                                                &&& cur.queue@[k].attempts == 0
                                                &&& cur.queue@[k].created_at == now
                                                &&& cur.queue@[k].next_retry_at == now
                                            };
                                        assert(pre.tenants@[x].id@ == pre.tenants@[i as int].id@);
                                        assert(x != i as int);
                                        if x < i as int {
                                            assert(pre.tenants@[x].id@ != pre.tenants@[i
                                                as int].id@);
                                        }
                                        assert(false);
                                    }
                                }
                            }
                        }
                    }
                }
            } else {
                proof {
                    assert forall|j: int|
                        0 <= j < i + 1 && #[trigger] sweep_due(pre, j, now, renewals) implies self
                        .has_queued_job(pre.tenants@[j].id@) by {
                        if j == i as int {
                            assert(false);
                        }
                    }
                }
            }
            i += 1;
        }
        self.queue.len() - q0
    }

    /// Re-enqueues a fresh job for every tenant stuck in `Pending` with
    /// no queued job and no attempt in flight, restoring at-least-once
    /// delivery when a claim's enqueue was lost. Returns how many jobs
    /// were enqueued.
    pub fn reconcile(&mut self, now: u64) -> (n: usize)
        requires
            old(self).wf(),
        ensures
            final(self).wf(),
            sweep_post(*old(self), *final(self), now, false, n),
    {
        self.sweep_enqueue(now, false)
    }

    /// Enqueues a fresh provisioning job for every `Issued` tenant whose
    /// certificate expires within the configured renewal window and that
    /// has no job queued or in flight. Returns how many jobs were
    /// enqueued.
    pub fn schedule_renewals(&mut self, now: u64) -> (n: usize)
        requires
            old(self).wf(),
        ensures
            final(self).wf(),
            sweep_post(*old(self), *final(self), now, true, n),
    {
        self.sweep_enqueue(now, true)
    }

    pub(crate) fn issuing_contains(&self, id: &str) -> (r: bool)
        ensures
            r == self.issuing_has(id@),
    {
        let n = self.issuing.len();
        let mut k: usize = 0;
        while k < n
            invariant
                n == self.issuing@.len(),
                k <= n,
                forall|l: int| 0 <= l < k ==> self.issuing@[l]@ != id@,
            decreases n - k,
        {
            if str_eq(self.issuing[k].as_str(), id) {
                return true;
            }
            k += 1;
        }
        false
    }

    fn find_issuing_index(&self, id: &str) -> (r: Option<usize>)
        ensures
            match r {
                Some(i) => i < self.issuing@.len() && self.issuing@[i as int]@ == id@,
                None => !self.issuing_has(id@),
            },
    {
        let n = self.issuing.len();
        let mut k: usize = 0;
        while k < n
            invariant
                n == self.issuing@.len(),
                k <= n,
                forall|l: int| 0 <= l < k ==> self.issuing@[l]@ != id@,
            decreases n - k,
        {
            if str_eq(self.issuing[k].as_str(), id) {
                return Some(k);
            }
            k += 1;
        }
        None
    }

    /// Hands the first eligible queued job to a worker and records its
    /// tenant as in flight, so no second attempt for the same tenant can
    /// start before this one completes (single-flight).
    pub fn dequeue(&mut self, now: u64) -> (r: Option<Job>)
        requires
            old(self).wf(),
        ensures
            final(self).wf(),
            dequeue_post(*old(self), *final(self), now, r),
    {
        let n = self.queue.len();
        let mut k: usize = 0;
        while k < n
            invariant
                *self == *old(self),
                self.wf(),
                n == self.queue@.len(),
                k <= n,
                forall|l: int| 0 <= l < k ==> !job_eligible(*self, l, now),
            decreases n - k,
        {
            if self.queue[k].next_retry_at <= now && !self.issuing_contains(
                self.queue[k].tenant_id.as_str(),
            ) {
                let job = self.queue.remove(k);
                self.issuing.push(job.tenant_id.clone());
                proof {
                    let pre = *old(self);
                    let post = *self;
                    pre.queue@.remove_ensures(k as int);
                    assert(post.queue@ =~= pre.queue@.remove(k as int));
                    assert forall|l: int| 0 <= l < post.queue@.len() implies post.queued_job_ok(
                        #[trigger] post.queue@[l],
                    ) by {
                        let j = if l < k { l } else { l + 1 };
                        assert(post.queue@[l] == pre.queue@[j]);
                        assert(pre.queued_job_ok(pre.queue@[j]));
                        let pj = post.queue@[l];
                        let i = pre.tenant_index(pj.tenant_id@);
                        assert(0 <= i < pre.tenants@.len() && pre.tenants@[i].id@
                            == pj.tenant_id@);
                        lemma_index_is(post, pj.tenant_id@, i);
                    }
                    assert forall|a: int, b: int|
                        0 <= a < b < post.queue@.len() implies post.queue@[a].tenant_id@ != post
                        .queue@[b].tenant_id@ by {
                        let ja = if a < k { a } else { a + 1 };
                        let jb = if b < k { b } else { b + 1 };
                        assert(post.queue@[a] == pre.queue@[ja]);
                        assert(post.queue@[b] == pre.queue@[jb]);
                    }
                    assert forall|a: int, b: int|
                        0 <= a < b < post.issuing@.len() implies post.issuing@[a]@ != post
                        .issuing@[b]@ by {
                        if b == pre.issuing@.len() as int {
                            assert(post.issuing@[a] == pre.issuing@[a]);
                            assert(!pre.issuing_has(job.tenant_id@));
                        }
                    }
                    assert(job_eligible(pre, k as int, now));
                    assert(forall|l: int| 0 <= l < k ==> !job_eligible(pre, l, now));
                    assert(job == pre.queue@[k as int]);
                    assert(post.queue@ == pre.queue@.remove(k as int));
                    assert(post.issuing@.last()@ == job.tenant_id@);
                    assert(dequeue_post(pre, post, now, Some(job)));
                }
                return Some(job);
            }
            k += 1;
        }
        None
    }

    /// Commits the outcome a worker reported for a dequeued job.
    ///
    /// The tenant's in-flight marker is released in every case. Before
    /// any store write the engine re-reads the tenant's current binding:
    /// if the job's domain or epoch no longer match, the tenant is gone,
    /// its status left issuance, or a newer job for the tenant is queued,
    /// the job is discarded as `Superseded` with no mutation — a released
    /// domain is never resurrected by a stale completion. Otherwise a
    /// success is committed as `Issued`; a retryable failure within the
    /// attempt budget is requeued with exponential backoff; and any other
    /// failure marks the tenant `Failed`.
    pub fn complete(&mut self, job: Job, outcome: IssueOutcome, now: u64, jitter: u64) -> (r:
        CompleteResult)
        requires
            old(self).wf(),
        ensures
            final(self).wf(),
            complete_post(*old(self), *final(self), job, outcome, now, jitter, r),
    {
        let pos = match self.find_issuing_index(job.tenant_id.as_str()) {
            Some(p) => p,
            None => {
                return CompleteResult::UnknownJob;
            },
        };
        self.issuing.remove(pos);
        proof {
            let pre = *old(self);
            let post = *self;
            pre.issuing@.remove_ensures(pos as int);
            assert(post.issuing@ =~= pre.issuing@.remove(pos as int));
            assert forall|a: int, b: int|
                0 <= a < b < post.issuing@.len() implies post.issuing@[a]@ != post
                .issuing@[b]@ by {
                let ja = if a < pos { a } else { a + 1 };
                let jb = if b < pos { b } else { b + 1 };
                assert(post.issuing@[a] == pre.issuing@[ja]);
                assert(post.issuing@[b] == pre.issuing@[jb]);
            }
            assert(issuing_removed(pre, post, job.tenant_id@));
        }
        let idx = match self.find_index(job.tenant_id.as_str()) {
            Some(i) => i,
            None => {
                proof {
                    assert(!old(self).has_tenant(job.tenant_id@));
                }
                return CompleteResult::Superseded;
            },
        };
        proof {
            lemma_index_is(*old(self), job.tenant_id@, idx as int);
        }
        let binding_matches = match &self.tenants[idx].domain {
            Some(d) => str_eq(d.as_str(), job.domain.as_str()),
            None => false,
        };
        let epoch_matches = self.tenants[idx].epoch == job.epoch;
        let status_open = match self.tenants[idx].status {
            CertStatus::Pending => true,
            CertStatus::Issued { .. } => true,
            _ => false,
        };
        let newer_queued = match self.find_job_index(job.tenant_id.as_str()) {
            Some(_) => true,
            None => false,
        };
        if !binding_matches || !epoch_matches || !status_open || newer_queued {
            proof {
                assert(!job_current(*old(self), job));
            }
            return CompleteResult::Superseded;
        }
        match outcome {
            IssueOutcome::Success { expires_at } => {
                self.tenants[idx].status = CertStatus::Issued { issued_at: now, expires_at };
                proof {
                    self.lemma_retarget_status(*old(self), idx as int, job.tenant_id@);
                }
                CompleteResult::Committed
            },
            IssueOutcome::Failure { reason } => {
                let attempts = if job.attempts == u32::MAX {
                    job.attempts
                } else {
                    job.attempts + 1
                };
                let retry = reason.retryable();
                if retry && attempts < self.config.max_attempts {
                    let cfg = self.config;
                    let delay = exec_backoff_delay(&cfg, attempts, jitter);
                    let next_retry_at = if now > u64::MAX - delay {
                        u64::MAX
                    } else {
                        now + delay
                    };
                    let ghost mid = *self;
                    self.queue.push(
                        Job {
                            tenant_id: job.tenant_id,
                            domain: job.domain,
                            created_at: job.created_at,
                            attempts,
                            next_retry_at,
                            epoch: job.epoch,
                        },
                    );
                    proof {
                        let pre = *old(self);
                        let post = *self;
                        assert forall|l: int| 0 <= l < post.queue@.len() implies post
                            .queued_job_ok(#[trigger] post.queue@[l]) by {
                            let pj = post.queue@[l];
                            if l < pre.queue@.len() {
                                assert(pj == pre.queue@[l]);
                                assert(pre.queued_job_ok(pj));
                                let i = pre.tenant_index(pj.tenant_id@);
                                assert(0 <= i < pre.tenants@.len() && pre.tenants@[i].id@
                                    == pj.tenant_id@);
                                lemma_index_is(post, pj.tenant_id@, i);
                            } else {
                                lemma_index_is(post, job.tenant_id@, idx as int);
                            }
                        }
                        assert forall|a: int, b: int|
                            0 <= a < b < post.queue@.len() implies post.queue@[a].tenant_id@
                            != post.queue@[b].tenant_id@ by {
                            if b == pre.queue@.len() as int {
                                assert(!pre.has_queued_job(job.tenant_id@));
                            }
                        }
                    }
                    CompleteResult::RetryScheduled { attempts, next_retry_at }
                } else {
                    self.tenants[idx].status = CertStatus::Failed { reason, attempts };
                    proof {
                        self.lemma_retarget_status(*old(self), idx as int, job.tenant_id@);
                    }
                    CompleteResult::FailedPermanently { attempts }
                }
            },
        }
    }

    /// After changing only the status field of the record at `i` — whose
    /// tenant has no queued job — the registry invariant still holds.
    proof fn lemma_retarget_status(self, pre: Registry, i: int, id: Seq<char>)
        requires
            pre.wf(),
            0 <= i < pre.tenants@.len(),
            pre.tenants@[i].id@ == id,
            !pre.has_queued_job(id),
            tenants_updated_except(pre.tenants@, self.tenants@, i),
            self.tenants@[i].id == pre.tenants@[i].id,
            self.tenants@[i].name == pre.tenants@[i].name,
            self.tenants@[i].domain == pre.tenants@[i].domain,
            self.tenants@[i].epoch == pre.tenants@[i].epoch,
            !(self.tenants@[i].status is Unbound) ==> self.tenants@[i].domain is Some,
            self.tenants@[i].status is Unbound ==> self.tenants@[i].domain is None,
            !(self.tenants@[i].status is PendingClaim),
            self.queue == pre.queue,
            self.config == pre.config,
            forall|a: int, b: int|
                0 <= a < b < self.issuing@.len() ==> self.issuing@[a]@ != self.issuing@[b]@,
        ensures
            self.wf(),
    {
        let post = self;
        assert forall|a: int, b: int| 0 <= a < b < post.tenants@.len() implies post.tenants@[a].id@
            != post.tenants@[b].id@ by {
            assert(post.tenants@[a].id == pre.tenants@[a].id);
            assert(post.tenants@[b].id == pre.tenants@[b].id);
        }
        assert forall|a: int, b: int|
            0 <= a < b < post.tenants@.len() && post.tenants@[a].domain is Some && post
                .tenants@[b].domain is Some implies post.tenants@[a].domain->Some_0@ != post
            .tenants@[b].domain->Some_0@ by {
            assert(post.tenants@[a].domain == pre.tenants@[a].domain);
            assert(post.tenants@[b].domain == pre.tenants@[b].domain);
        }
        assert forall|l: int| 0 <= l < post.queue@.len() implies post.queued_job_ok(
            #[trigger] post.queue@[l],
        ) by {
            let pj = post.queue@[l];
            assert(pre.queued_job_ok(pj));
            assert(pj.tenant_id@ != id);
            let t = pre.tenant_index(pj.tenant_id@);
            assert(0 <= t < pre.tenants@.len() && pre.tenants@[t].id@ == pj.tenant_id@);
            assert(t != i);
            lemma_index_is(post, pj.tenant_id@, t);
        }
    }
}

} // verus!
