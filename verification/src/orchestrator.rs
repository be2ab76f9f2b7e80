//! The reboot orchestrator: the state machine that drives a request
//! through `Unlocked → Acquiring → PreRebootRunning → Granted →
//! PostRebootRunning → Released`.
//!
//! State is tracked per lock holder through the lease's holder and
//! progress watermark, never in the process, so the machine is resumable
//! across restarts and retries.  The strategies' real actions are remote
//! calls made at the unverified edge; each session function here takes
//! the per-strategy outcomes as an argument and is verified for every
//! combination of them, so the decisions — what runs, in which order,
//! what is persisted, what is answered — hold whatever the cluster did.
//!
//! Pre-reboot execution runs strategies in descending `pre` priority.
//! The lease's watermark records the `pre` priority of the most recently
//! completed strategy of the current holder session (initially zero,
//! meaning none): a strategy runs exactly when the watermark is zero or
//! its priority lies strictly below the watermark, and the watermark is
//! persisted immediately after each completion, so a crashed or aborted
//! session resumes after the last completed strategy instead of
//! re-running it.  Priorities are required to be at least one, since a
//! zero priority cannot be told apart from the fresh watermark.

use vstd::prelude::*;
use crate::Error;
use crate::digits::lemma_dec_str_val;
use crate::fleetlock::{Request, Response};
use crate::lock::{lease_progress, readable_metadata, LeaseStore, Lock, LockMetadata};
use crate::strategies::{drain_pre_priority, init_strategies, priorities_of, sort_indices_desc};

verus! {

/// The index sequence as mathematical integers.
pub open spec fn usizes(s: Seq<usize>) -> Seq<int> {
    Seq::new(s.len(), |k: int| s[k] as int)
}

/// Which outcomes report success.
pub open spec fn oks(outcomes: Seq<Result<(), Error>>) -> Seq<bool> {
    outcomes.map_values(|o: Result<(), Error>| o is Ok)
}

/// Whether a strategy with pre-priority `pre` still has to run when the
/// session's watermark stands at `progress`: everything runs on a fresh
/// watermark, and on resumption exactly the strategies strictly below
/// the watermark.
pub open spec fn pre_runnable(progress: u64, pre: u64) -> bool {
    progress == 0 || pre < progress
}

/// A strategy counts as completed for the current holder session when
/// the watermark says it no longer has to run.
pub open spec fn pre_completed(progress: u64, pre: u64) -> bool {
    !pre_runnable(progress, pre)
}

/// The single pre-reboot scheduling decision, for a loop driven at the
/// edge: whether the strategy with pre-priority `pre` still has to run
/// under the watermark `progress`.
pub fn pre_step_runnable(progress: u64, pre: u64) -> (b: bool)
    ensures
        b == pre_runnable(progress, pre),
{
    progress == 0 || pre < progress
}

/// The outcome of one pre-reboot session over the sorted priority list:
/// which positions were invoked, the final watermark, and the position
/// of the failing strategy if the session aborted.
#[verifier::ext_equal]
pub struct PreSession {
    pub executed: Seq<int>,
    pub progress: u64,
    pub failed: Option<int>,
}

/// The pre-reboot session, walking the sorted priorities from position
/// `i` with watermark `progress`: skip completed strategies, run the
/// rest in order, advance the watermark after each success, and abort
/// on the first failure, keeping the watermark already persisted.
pub open spec fn pre_session(progress: u64, pres: Seq<u64>, ok: Seq<bool>, i: int) -> PreSession
    decreases pres.len() - i,
{
    if i < 0 || i >= pres.len() {
        PreSession { executed: Seq::empty(), progress, failed: None }
    } else if pre_runnable(progress, pres[i]) {
        if i < ok.len() && ok[i] {
            let rest = pre_session(pres[i], pres, ok, i + 1);
            PreSession { executed: seq![i] + rest.executed, progress: rest.progress, failed: rest.failed }
        } else {
            PreSession { executed: seq![i], progress, failed: Some(i) }
        }
    } else {
        pre_session(progress, pres, ok, i + 1)
    }
}

/// Run one pre-reboot session against the lock.  `sorted_pres` are the
/// strategies' pre-priorities in execution order; `outcomes[k]` is what
/// the `k`-th strategy's drain action reported when the edge ran it.
/// After each success the watermark is persisted through the lock
/// before the next strategy is considered.  Returns the session result
/// and the positions actually invoked, in order.
pub fn run_pre_session(
    lock: &Lock,
    store: &mut LeaseStore,
    holder: &String,
    start_progress: u64,
    sorted_pres: &Vec<u64>,
    outcomes: &Vec<Result<(), Error>>,
) -> (r: (Result<(), Error>, Vec<usize>))
    requires
        outcomes.len() == sorted_pres.len(),
        old(store)@ matches Some(l) && l.holder_identity == Some(holder@) && readable_metadata(l)
            && lease_progress(l) == start_progress as nat,
    ensures
        ({
            let s = pre_session(start_progress, sorted_pres@, oks(outcomes@), 0);
            &&& usizes(r.1@) == s.executed
            &&& match s.failed {
                None => r.0 is Ok,
                Some(i) => r.0 matches Err(e) && outcomes@[i] matches Err(e0) && e == e0,
            }
            &&& final(store)@ matches Some(l2) && l2.holder_identity == Some(holder@)
                && readable_metadata(l2) && lease_progress(l2) == s.progress as nat
        }),
{
    let ghost full = pre_session(start_progress, sorted_pres@, oks(outcomes@), 0);
    let n = sorted_pres.len();
    let mut executed: Vec<usize> = Vec::new();
    let mut progress = start_progress;
    let mut i: usize = 0;
    proof {
        assert(usizes(executed@) + full.executed =~= full.executed);
    }
    while i < n
        invariant
            0 <= i <= n,
            n == sorted_pres@.len() == outcomes@.len(),
            store@ matches Some(l) && l.holder_identity == Some(holder@) && readable_metadata(l)
                && lease_progress(l) == progress as nat,
            full == pre_session(start_progress, sorted_pres@, oks(outcomes@), 0),
            ({
                let rest = pre_session(progress, sorted_pres@, oks(outcomes@), i as int);
                &&& full.executed == usizes(executed@) + rest.executed
                &&& full.progress == rest.progress
                &&& full.failed == rest.failed
            }),
        decreases n - i,
    {
        let ghost rest = pre_session(progress, sorted_pres@, oks(outcomes@), i as int);
        let p = sorted_pres[i];
        if progress == 0 || p < progress {
            executed.push(i);
            match &outcomes[i] {
                Ok(_) => {
                    let ghost rest2 = pre_session(p, sorted_pres@, oks(outcomes@), i as int + 1);
                    proof {
                        assert(rest.executed =~= seq![i as int] + rest2.executed);
                        assert(usizes(executed@) =~= usizes(executed@.drop_last()) + seq![
                            i as int,
                        ]);
                        assert(usizes(executed@) + rest2.executed =~= (usizes(
                            executed@.drop_last(),
                        ) + rest.executed));
                    }
                    let meta = LockMetadata { holder: holder.clone(), progress_flag: p };
                    let set_res = lock.set_metadata(store, &meta);
                    proof {
                        lemma_dec_str_val(p as nat);
                    }
                    match set_res {
                        Ok(_) => {},
                        Err(_) => {
                            assert(false);
                        },
                    }
                    progress = p;
                },
                Err(e) => {
                    proof {
                        assert(rest.executed =~= seq![i as int]);
                        assert(usizes(executed@) =~= usizes(executed@.drop_last()) + seq![
                            i as int,
                        ]);
                        assert(full.executed =~= usizes(executed@));
                    }
                    return (Err(e.clone()), executed);
                },
            }
        } else {
            proof {
                assert(rest =~= pre_session(progress, sorted_pres@, oks(outcomes@), i as int + 1));
            }
        }
        i = i + 1;
    }
    proof {
        let rest = pre_session(progress, sorted_pres@, oks(outcomes@), n as int);
        assert(rest.executed =~= Seq::<int>::empty());
        assert(full.executed =~= usizes(executed@));
    }
    (Ok(()), executed)
}

/// What the ask-to-reboot operation answers and does, given the state
/// of the lease and the drain outcomes, once the lock step has passed:
/// the session runs from the watermark `start`, the lease ends held by
/// the requester with the session's final watermark, and the answer is
/// the grant on full completion or the failing strategy's own error.
pub open spec fn pre_reboot_runs(
    post: Option<crate::lock::LeaseView>,
    id: Seq<char>,
    outcomes: Seq<Result<(), Error>>,
    r: Result<Response, Error>,
    executed: Seq<int>,
    start: u64,
) -> bool {
    let s = pre_session(start, seq![drain_pre_priority()], oks(outcomes), 0);
    &&& executed == s.executed
    &&& post matches Some(l2) && l2.holder_identity == Some(id) && readable_metadata(l2)
        && lease_progress(l2) == s.progress as nat
    &&& match s.failed {
        None => r matches Ok(resp) && resp.kind@ == "lock_acquired"@ && resp.value@
            == "successfully acquired lock, ok to reboot"@,
        Some(i) => r matches Err(e) && outcomes[i] matches Err(e0) && e == e0,
    }
}

/// The full contract of the ask-to-reboot operation: acquisition
/// failures (contention names the current holder; a lease without a
/// holder is a schema error) answer without touching anything; an
/// unreadable watermark of one's own lease is a schema error; otherwise
/// the drain session runs from the persisted watermark.
pub open spec fn pre_reboot_post(
    pre: Option<crate::lock::LeaseView>,
    post: Option<crate::lock::LeaseView>,
    id: Seq<char>,
    outcomes: Seq<Result<(), Error>>,
    r: Result<Response, Error>,
    executed: Seq<int>,
) -> bool {
    match pre {
        None => pre_reboot_runs(post, id, outcomes, r, executed, 0),
        Some(l) => match l.holder_identity {
            None => post == pre && executed.len() == 0 && (r matches Err(Error::Value(_))),
            Some(h) => if h != id {
                &&& post == pre
                &&& executed.len() == 0
                &&& r matches Err(Error::Held(w)) && w@ == h
            } else if !readable_metadata(l) {
                post == pre && executed.len() == 0 && (r matches Err(Error::Value(_)))
            } else {
                pre_reboot_runs(post, id, outcomes, r, executed, lease_progress(l) as u64)
            },
        },
    }
}

/// The ask-to-reboot operation: acquire the lock (idempotently for the
/// requester), read the resume watermark, build the strategy set, sort
/// it by descending pre-priority, and run the drain session, persisting
/// progress after every completed strategy.  `outcomes` holds one drain
/// outcome per strategy, as reported by the edge.
pub fn pre_reboot(
    lock: &Lock,
    store: &mut LeaseStore,
    req: &Request,
    outcomes: &Vec<Result<(), Error>>,
) -> (r: (Result<Response, Error>, Vec<usize>))
    requires
        outcomes.len() == 1,
    ensures
        pre_reboot_post(
            old(store)@,
            final(store)@,
            req.client_params.id@,
            outcomes@,
            r.0,
            usizes(r.1@),
        ),
{
    let id = &req.client_params.id;
    match lock.acquire(store, id) {
        Ok(_) => {},
        Err(e) => {
            let empty: Vec<usize> = Vec::new();
            proof {
                assert(usizes(empty@) =~= Seq::<int>::empty());
            }
            return (Err(e), empty);
        },
    }
    proof {
        lemma_dec_str_val(0);
    }
    let meta = match lock.get_metadata(store) {
        Ok(m) => m,
        Err(e) => {
            let empty: Vec<usize> = Vec::new();
            proof {
                assert(usizes(empty@) =~= Seq::<int>::empty());
            }
            return (Err(e), empty);
        },
    };
    let strategies = init_strategies(req);
    let prios = priorities_of(&strategies);
    let mut pre_keys: Vec<u64> = Vec::new();
    let mut k: usize = 0;
    while k < prios.len()
        invariant
            0 <= k <= prios@.len(),
            pre_keys@.len() == k,
            forall|t: int| 0 <= t < k ==> pre_keys@[t] == prios@[t].pre,
        decreases prios@.len() - k,
    {
        pre_keys.push(prios[k].pre);
        k = k + 1;
    }
    let ord = sort_indices_desc(&pre_keys);
    let mut sorted_pres: Vec<u64> = Vec::new();
    let mut t: usize = 0;
    while t < ord.len()
        invariant
            0 <= t <= ord@.len(),
            sorted_pres@.len() == t,
            crate::strategies::in_range(ord@, pre_keys@.len() as int),
            forall|u: int| 0 <= u < t ==> sorted_pres@[u] == pre_keys@[ord@[u] as int],
        decreases ord@.len() - t,
    {
        sorted_pres.push(pre_keys[ord[t]]);
        t = t + 1;
    }
    proof {
        assert(sorted_pres@ =~= seq![drain_pre_priority()]);
    }
    let (res, executed) = run_pre_session(
        lock,
        store,
        id,
        meta.progress_flag,
        &sorted_pres,
        outcomes,
    );
    match res {
        Ok(_) => (Ok(Response::lock_acquired()), executed),
        Err(e) => (Err(e), executed),
    }
}

/// The first strategy, in execution order, whose post-reboot
/// confirmation did not succeed.
pub open spec fn first_failure(ok: Seq<bool>, i: int) -> Option<int>
    decreases ok.len() - i,
{
    if i < 0 || i >= ok.len() {
        None
    } else if !ok[i] {
        Some(i)
    } else {
        first_failure(ok, i + 1)
    }
}

/// What the announce-steady-state operation answers and does: if any
/// strategy's post-reboot confirmation failed, its own error is the
/// answer and the lock is kept — a node must not claim steady state
/// while any strategy reports unhealthy; only when all confirm does the
/// release run, which enforces that the requester is the current holder.
pub open spec fn post_reboot_post(
    pre: Option<crate::lock::LeaseView>,
    post: Option<crate::lock::LeaseView>,
    id: Seq<char>,
    outcomes: Seq<Result<(), Error>>,
    r: Result<Response, Error>,
) -> bool {
    match first_failure(oks(outcomes), 0) {
        Some(i) => post == pre && (r matches Err(e) && outcomes[i] matches Err(e0) && e == e0),
        None => match pre {
            None => post == pre && (r matches Err(Error::NotFound)),
            Some(l) => match l.holder_identity {
                Some(h) => if h == id {
                    &&& post is None
                    &&& r matches Ok(resp) && resp.kind@ == "lock_released"@ && resp.value@
                        == "successfully released lock, no more retries needed"@
                } else {
                    post == pre && (r matches Err(Error::Held(w)) && w@ == h)
                },
                None => post == pre && (r matches Err(Error::Value(_))),
            },
        },
    }
}

/// The announce-steady-state operation: require every strategy's
/// post-reboot confirmation to have succeeded (in ascending
/// post-priority order, driven by the edge), then release the lock,
/// which refuses anyone but the current holder.  `outcomes` holds one
/// confirmation outcome per strategy.
pub fn post_reboot(
    lock: &Lock,
    store: &mut LeaseStore,
    req: &Request,
    outcomes: &Vec<Result<(), Error>>,
) -> (r: Result<Response, Error>)
    requires
        outcomes.len() == 1,
    ensures
        post_reboot_post(old(store)@, final(store)@, req.client_params.id@, outcomes@, r),
{
    let n = outcomes.len();
    let mut i: usize = 0;
    while i < n
        invariant
            0 <= i <= n,
            n == outcomes@.len(),
            first_failure(oks(outcomes@), 0) == first_failure(oks(outcomes@), i as int),
        decreases n - i,
    {
        match &outcomes[i] {
            Ok(_) => {},
            Err(e) => {
                return Err(e.clone());
            },
        }
        i = i + 1;
    }
    match lock.release(store, &req.client_params.id) {
        Ok(_) => Ok(Response::lock_released()),
        Err(e) => Err(e),
    }
}

/// Facts about one pre-reboot session over a priority list sorted
/// descending, all priorities at least one: every position is invoked
/// at most once and in list order, invoked priorities are strictly
/// descending, every invoked strategy was still runnable at the
/// session's starting watermark, the watermark never rises above a
/// non-fresh starting point nor falls back to fresh, and it ends at the
/// pre-priority of the last completed strategy (unchanged if nothing
/// ran, or on an immediate failure).
pub proof fn lemma_pre_session_facts(progress: u64, pres: Seq<u64>, ok: Seq<bool>, i: int)
    requires
        forall|a: int, b: int| 0 <= a < b < pres.len() ==> pres[a] >= pres[b],
        forall|k: int| 0 <= k < pres.len() ==> pres[k] >= 1,
    ensures
        ({
            let s = pre_session(progress, pres, ok, i);
            &&& forall|k: int|
                0 <= k < s.executed.len() ==> i <= #[trigger] s.executed[k] < pres.len()
            &&& forall|a: int, b: int|
                0 <= a < b < s.executed.len() ==> #[trigger] s.executed[a] < #[trigger] s.executed[b]
            &&& forall|a: int, b: int|
                0 <= a < b < s.executed.len() ==> pres[#[trigger] s.executed[a]] > pres[#[trigger] s.executed[b]]
            &&& forall|k: int|
                0 <= k < s.executed.len() ==> pre_runnable(progress, pres[#[trigger] s.executed[k]])
            &&& (s.progress == progress || (s.progress >= 1 && (progress == 0 || s.progress
                < progress)))
            &&& (s.executed.len() == 0 ==> s.progress == progress)
            &&& (s.failed is None && s.executed.len() > 0 ==> s.progress == pres[s.executed.last()])
        }),
    decreases pres.len() - i,
{
    let s = pre_session(progress, pres, ok, i);
    if i < 0 || i >= pres.len() {
    } else if pre_runnable(progress, pres[i]) {
        if i < ok.len() && ok[i] {
            lemma_pre_session_facts(pres[i], pres, ok, i + 1);
            let rest = pre_session(pres[i], pres, ok, i + 1);
            assert(s.executed == seq![i] + rest.executed);
            assert(s.executed[0] == i);
            assert(forall|k: int|
                1 <= k < s.executed.len() ==> #[trigger] s.executed[k] == rest.executed[k - 1]);
            assert forall|k: int|
                0 <= k < s.executed.len() implies pre_runnable(
                progress,
                pres[#[trigger] s.executed[k]],
            ) by {
                if k >= 1 {
                    assert(pre_runnable(pres[i], pres[rest.executed[k - 1]]));
                }
            }
            assert forall|a: int, b: int|
                0 <= a < b < s.executed.len() implies pres[#[trigger] s.executed[a]]
                > pres[#[trigger] s.executed[b]] by {
                if a == 0 {
                    assert(pre_runnable(pres[i], pres[rest.executed[b - 1]]));
                }
            }
        } else {
            assert(s.executed == seq![i]);
        }
    } else {
        lemma_pre_session_facts(progress, pres, ok, i + 1);
    }
}

/// Ordering: the strategies a pre-reboot session actually invokes run
/// in strictly descending pre-priority order — in particular each of
/// them at most once.
pub proof fn lemma_pre_execution_descending(progress: u64, pres: Seq<u64>, ok: Seq<bool>)
    requires
        forall|a: int, b: int| 0 <= a < b < pres.len() ==> pres[a] >= pres[b],
        forall|k: int| 0 <= k < pres.len() ==> pres[k] >= 1,
    ensures
        ({
            let s = pre_session(progress, pres, ok, 0);
            forall|a: int, b: int|
                0 <= a < b < s.executed.len() ==> pres[#[trigger] s.executed[a]] > pres[#[trigger] s.executed[b]]
        }),
{
    lemma_pre_session_facts(progress, pres, ok, 0);
}

/// Resumability: a session resumed at a non-fresh watermark never
/// re-invokes a strategy whose pre-priority is at or above the
/// watermark — whatever was already completed and persisted for this
/// holder stays completed.
pub proof fn lemma_resume_skips_completed(watermark: u64, pres: Seq<u64>, ok: Seq<bool>)
    requires
        watermark >= 1,
        forall|a: int, b: int| 0 <= a < b < pres.len() ==> pres[a] >= pres[b],
        forall|k: int| 0 <= k < pres.len() ==> pres[k] >= 1,
    ensures
        ({
            let s = pre_session(watermark, pres, ok, 0);
            forall|k: int|
                0 <= k < s.executed.len() ==> pres[#[trigger] s.executed[k]] < watermark
        }),
{
    lemma_pre_session_facts(watermark, pres, ok, 0);
}

/// Progress monotonicity, as it holds of descending execution: the set
/// of strategies the watermark counts as completed only ever grows over
/// a session.  (The watermark itself moves downwards through the
/// priorities as completion proceeds; what is monotone is what it
/// stands for.)
pub proof fn lemma_completed_monotone(progress: u64, pres: Seq<u64>, ok: Seq<bool>)
    requires
        forall|a: int, b: int| 0 <= a < b < pres.len() ==> pres[a] >= pres[b],
        forall|k: int| 0 <= k < pres.len() ==> pres[k] >= 1,
    ensures
        ({
            let s = pre_session(progress, pres, ok, 0);
            forall|p: u64| pre_completed(progress, p) ==> pre_completed(s.progress, p)
        }),
{
    lemma_pre_session_facts(progress, pres, ok, 0);
}

/// A decision in the post-reboot polling loop.
#[derive(Clone, Copy, Debug, PartialEq, Eq, Structural)]
pub enum PollDecision {
    /// The strategy confirmed health: move on.
    Confirmed,
    /// Not confirmed yet and time remains: try again after this many
    /// seconds.
    RetryAfter(u64),
    /// Not confirmed and the timeout has elapsed: run the strategy's
    /// cleanup and fail the request without releasing the lock.
    TimedOut,
}

/// One step of the cooperative post-reboot polling loop for a single
/// strategy: health checks are repeated at the strategy's poll interval
/// until its timeout interval has elapsed since the first attempt.
pub fn post_poll_step(confirmed: bool, elapsed_secs: u64, poll_secs: u64, timeout_secs: u64) -> (d:
    PollDecision)
    ensures
        confirmed ==> d == PollDecision::Confirmed,
        !confirmed && elapsed_secs >= timeout_secs ==> d == PollDecision::TimedOut,
        !confirmed && elapsed_secs < timeout_secs ==> d == PollDecision::RetryAfter(poll_secs),
{
    if confirmed {
        PollDecision::Confirmed
    } else if elapsed_secs >= timeout_secs {
        PollDecision::TimedOut
    } else {
        PollDecision::RetryAfter(poll_secs)
    }
}

} // verus!
