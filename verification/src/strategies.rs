//! The strategy capability and the reference node-drain strategy.
//!
//! A strategy is one drain/recovery integration: something that must
//! happen before the node may reboot and something that must happen (or
//! be confirmed) after it rejoins, with ordering weights and timing
//! metadata.  The orchestrator is polymorphic over the capability and
//! never branches on a concrete kind.  The side effects themselves are
//! remote calls performed at the unverified edge of the program; what is
//! modelled and verified here is everything those calls are chosen by:
//! priorities, timing, which workloads a drain may evict, and how an
//! eviction failure is reported.

use vstd::prelude::*;
use vstd::string::StringExecFns;
use crate::Error;
use crate::fleetlock::{Request, str_eq};

verus! {

/// Ordering weights of a strategy: higher `pre` runs earlier in the
/// pre-reboot phase, lower `post` runs earlier in the post-reboot phase.
#[derive(Clone, Copy, Debug, PartialEq, Eq, Structural)]
pub struct Priority {
    pub pre: u64,
    pub post: u64,
}

/// The strategy capability.  Implementations fix their ordering weights
/// and timing metadata here; their action bodies (the actual drain and
/// recovery calls) run at the unverified edge, which feeds the outcomes
/// back into the orchestrator's verified session functions.
pub trait Strategy {
    /// The ordering weights this implementation promises to report.
    spec fn spec_priority(&self) -> Priority;

    /// The minimum spacing, in seconds, between repeated post-reboot
    /// confirmation attempts.
    spec fn spec_poll_interval_secs(&self) -> u64;

    /// The maximum time, in seconds, after the first post-reboot attempt
    /// before the strategy is declared failed and its cleanup runs.
    spec fn spec_timeout_interval_secs(&self) -> u64;

    fn priority(&self) -> (p: Priority)
        ensures
            p == self.spec_priority(),
    ;

    fn poll_interval_secs(&self) -> (s: u64)
        ensures
            s == self.spec_poll_interval_secs(),
    ;

    fn timeout_interval_secs(&self) -> (s: u64)
        ensures
            s == self.spec_timeout_interval_secs(),
    ;
}

/// The pre-phase weight of the node-drain strategy.
pub open spec fn drain_pre_priority() -> u64 {
    100
}

/// The post-phase weight of the node-drain strategy.
pub open spec fn drain_post_priority() -> u64 {
    300
}

/// The reference strategy: drain the node before the reboot (cordon,
/// then evict every disruptable workload) and uncordon it afterwards.
/// It is parameterized by the requesting node's identity.
pub struct Kubernetes {
    pub node: String,
}

impl Kubernetes {
    /// Build the drain strategy for one node.
    pub fn new(node: String) -> (s: Self)
        ensures
            s.node@ == node@,
    {
        Kubernetes { node }
    }
}

impl Strategy for Kubernetes {
    open spec fn spec_priority(&self) -> Priority {
        Priority { pre: drain_pre_priority(), post: drain_post_priority() }
    }

    open spec fn spec_poll_interval_secs(&self) -> u64 {
        10
    }

    open spec fn spec_timeout_interval_secs(&self) -> u64 {
        600
    }

    fn priority(&self) -> (p: Priority) {
        Priority { pre: 100, post: 300 }
    }

    fn poll_interval_secs(&self) -> (s: u64) {
        10
    }

    fn timeout_interval_secs(&self) -> (s: u64) {
        600
    }
}

/// Build the applicable strategy set for a request's target: one
/// node-drain strategy for the requesting node.  Construction is pure;
/// connecting a cluster client is the edge's concern and its failure is
/// reported there, before any lock state is touched.
pub fn init_strategies(req: &Request) -> (r: Vec<Kubernetes>)
    ensures
        r.len() == 1,
        r@[0].node@ == req.client_params.id@,
        r@[0].spec_priority() == (Priority { pre: drain_pre_priority(), post: drain_post_priority() }),
{
    let mut v: Vec<Kubernetes> = Vec::new();
    v.push(Kubernetes::new(req.client_params.id.clone()));
    v
}

/// A workload scheduled on the node: its name and the kinds of its
/// owning controllers.
pub struct Workload {
    pub name: String,
    pub owner_kinds: Vec<String>,
}

/// Whether a list of owner kinds marks a workload as owned by a
/// fleet-wide daemon controller, which runs on every node regardless of
/// cordon state and must be left alone by a drain.
pub open spec fn daemon_owned(kinds: Seq<Seq<char>>) -> bool {
    exists|i: int| 0 <= i < kinds.len() && kinds[i] == "DaemonSet"@
}

impl Workload {
    /// Whether this workload is owned by a daemon controller.
    pub open spec fn is_daemon(&self) -> bool {
        daemon_owned(self.owner_kinds.deep_view())
    }
}

/// Decide whether a drain evicts this workload: daemon-owned workloads
/// are exempt, everything else is evicted.
pub fn should_evict(w: &Workload) -> (r: bool)
    ensures
        r == !w.is_daemon(),
{
    let n = w.owner_kinds.len();
    let mut i: usize = 0;
    while i < n
        invariant
            0 <= i <= n,
            n == w.owner_kinds.len(),
            forall|k: int| 0 <= k < i ==> w.owner_kinds.deep_view()[k] != "DaemonSet"@,
        decreases n - i,
    {
        if str_eq(w.owner_kinds[i].as_str(), "DaemonSet") {
            proof {
                assert(w.owner_kinds.deep_view()[i as int] == "DaemonSet"@);
            }
            return false;
        }
        i = i + 1;
    }
    true
}

/// Collect the ordering weights every strategy in a set reports.
pub fn priorities_of<S: Strategy>(strategies: &Vec<S>) -> (r: Vec<Priority>)
    ensures
        r@.len() == strategies@.len(),
        forall|k: int| 0 <= k < r@.len() ==> r@[k] == strategies@[k].spec_priority(),
{
    let mut r: Vec<Priority> = Vec::new();
    let mut i: usize = 0;
    while i < strategies.len()
        invariant
            0 <= i <= strategies@.len(),
            r@.len() == i,
            forall|k: int| 0 <= k < i ==> r@[k] == strategies@[k].spec_priority(),
        decreases strategies@.len() - i,
    {
        let p = strategies[i].priority();
        r.push(p);
        i = i + 1;
    }
    r
}

/// Every entry of `ord` indexes into a set of `n` strategies.
pub open spec fn in_range(ord: Seq<usize>, n: int) -> bool {
    forall|k: int| 0 <= k < ord.len() ==> ord[k] < n
}

/// Every one of `n` strategies appears somewhere in `ord`.
pub open spec fn complete(ord: Seq<usize>, n: int) -> bool {
    forall|i: int| 0 <= i < n ==> #[trigger] ord.contains(i as usize)
}

/// Strategies with equal keys keep their insertion order: the tie-break
/// is stable, so behavior is deterministic across retries.
pub open spec fn stable_on_ties(ord: Seq<usize>, keys: Seq<u64>) -> bool {
    forall|a: int, b: int|
        0 <= a < b < ord.len() && keys[ord[a] as int] == keys[ord[b] as int] ==> ord[a] < ord[b]
}

/// The keys read along `ord` never increase.
pub open spec fn descending_by(ord: Seq<usize>, keys: Seq<u64>) -> bool {
    forall|a: int, b: int| 0 <= a < b < ord.len() ==> keys[ord[a] as int] >= keys[ord[b] as int]
}

/// The execution order for a list of keys, largest first: a stable
/// permutation of the strategy indices, descending by key.
pub fn sort_indices_desc(keys: &Vec<u64>) -> (ord: Vec<usize>)
    ensures
        ord@.len() == keys@.len(),
        in_range(ord@, keys@.len() as int),
        complete(ord@, keys@.len() as int),
        stable_on_ties(ord@, keys@),
        descending_by(ord@, keys@),
{
    let n = keys.len();
    let mut ord: Vec<usize> = Vec::new();
    let mut t: usize = 0;
    while t < n
        invariant
            0 <= t <= n,
            ord@.len() == t,
            forall|k: int| 0 <= k < t ==> ord@[k] == k,
        decreases n - t,
    {
        ord.push(t);
        t = t + 1;
    }
    proof {
        assert forall|ii: int| 0 <= ii < n implies #[trigger] ord@.contains(ii as usize) by {
            assert(ord@[ii] == ii as usize);
        }
    }
    let mut i: usize = 1;
    while i < n
        invariant
            n == keys@.len(),
            ord@.len() == n,
            i >= 1,
            in_range(ord@, n as int),
            complete(ord@, n as int),
            stable_on_ties(ord@, keys@),
            forall|a: int, b: int| 0 <= a < b < i ==> keys@[ord@[a] as int] >= keys@[ord@[b] as int],
        decreases n - i,
    {
        let mut j: usize = i;
        while j > 0 && keys[ord[j - 1]] < keys[ord[j]]
            invariant
                n == keys@.len(),
                ord@.len() == n,
                0 <= j <= i < n,
                in_range(ord@, n as int),
                complete(ord@, n as int),
                stable_on_ties(ord@, keys@),
                forall|a: int, b: int|
                    0 <= a < b <= i && b != j ==> keys@[ord@[a] as int] >= keys@[ord@[b] as int],
                forall|a: int| j < a <= i ==> keys@[ord@[j as int] as int] >= keys@[ord@[a] as int],
            decreases j,
        {
            let ghost o0 = ord@;
            let x = ord[j - 1];
            let y = ord[j];
            ord.set(j - 1, y);
            ord.set(j, x);
            proof {
                let o2 = ord@;
                let jj = j as int;
                assert forall|ii: int| 0 <= ii < n implies #[trigger] o2.contains(ii as usize) by {
                    assert(o0.contains(ii as usize));
                    let k0 = choose|k0: int| 0 <= k0 < o0.len() && o0[k0] == ii as usize;
                    if k0 == jj - 1 {
                        assert(o2[jj] == ii as usize);
                    } else if k0 == jj {
                        assert(o2[jj - 1] == ii as usize);
                    } else {
                        assert(o2[k0] == ii as usize);
                    }
                }
                assert forall|a: int, b: int|
                    0 <= a < b < o2.len() && keys@[o2[a] as int] == keys@[o2[b] as int] implies o2[a]
                    < o2[b] by {
                    if a == jj - 1 && b == jj {
                        // the swapped pair has strictly different keys
                        assert(keys@[o2[a] as int] > keys@[o2[b] as int]);
                    } else if a == jj - 1 {
                        assert(o2[a] == o0[jj] && o2[b] == o0[b]);
                    } else if a == jj {
                        assert(o2[a] == o0[jj - 1] && o2[b] == o0[b]);
                    } else if b == jj - 1 {
                        assert(o2[a] == o0[a] && o2[b] == o0[jj]);
                    } else if b == jj {
                        assert(o2[a] == o0[a] && o2[b] == o0[jj - 1]);
                    } else {
                        assert(o2[a] == o0[a] && o2[b] == o0[b]);
                    }
                }
            }
            j = j - 1;
        }
        proof {
            let jj = j as int;
            assert forall|a: int, b: int| 0 <= a < b <= i implies keys@[ord@[a] as int]
                >= keys@[ord@[b] as int] by {
                if b == jj && jj > 0 {
                    assert(keys@[ord@[jj - 1] as int] >= keys@[ord@[jj] as int]);
                    if a < jj - 1 {
                        assert(keys@[ord@[a] as int] >= keys@[ord@[jj - 1] as int]);
                    }
                }
            }
        }
        i = i + 1;
    }
    ord
}

/// The keys read along `ord` never decrease.
pub open spec fn ascending_by(ord: Seq<usize>, keys: Seq<u64>) -> bool {
    forall|a: int, b: int| 0 <= a < b < ord.len() ==> keys[ord[a] as int] <= keys[ord[b] as int]
}

/// The execution order for a list of keys, smallest first: a stable
/// permutation of the strategy indices, ascending by key.
pub fn sort_indices_asc(keys: &Vec<u64>) -> (ord: Vec<usize>)
    ensures
        ord@.len() == keys@.len(),
        in_range(ord@, keys@.len() as int),
        complete(ord@, keys@.len() as int),
        stable_on_ties(ord@, keys@),
        ascending_by(ord@, keys@),
{
    let n = keys.len();
    let mut ord: Vec<usize> = Vec::new();
    let mut t: usize = 0;
    while t < n
        invariant
            0 <= t <= n,
            ord@.len() == t,
            forall|k: int| 0 <= k < t ==> ord@[k] == k,
        decreases n - t,
    {
        ord.push(t);
        t = t + 1;
    }
    proof {
        assert forall|ii: int| 0 <= ii < n implies #[trigger] ord@.contains(ii as usize) by {
            assert(ord@[ii] == ii as usize);
        }
    }
    let mut i: usize = 1;
    while i < n
        invariant
            n == keys@.len(),
            ord@.len() == n,
            i >= 1,
            in_range(ord@, n as int),
            complete(ord@, n as int),
            stable_on_ties(ord@, keys@),
            forall|a: int, b: int| 0 <= a < b < i ==> keys@[ord@[a] as int] <= keys@[ord@[b] as int],
        decreases n - i,
    {
        let mut j: usize = i;
        while j > 0 && keys[ord[j - 1]] > keys[ord[j]]
            invariant
                n == keys@.len(),
                ord@.len() == n,
                0 <= j <= i < n,
                in_range(ord@, n as int),
                complete(ord@, n as int),
                stable_on_ties(ord@, keys@),
                forall|a: int, b: int|
                    0 <= a < b <= i && b != j ==> keys@[ord@[a] as int] <= keys@[ord@[b] as int],
                forall|a: int| j < a <= i ==> keys@[ord@[j as int] as int] <= keys@[ord@[a] as int],
            decreases j,
        {
            let ghost o0 = ord@;
            let x = ord[j - 1];
            let y = ord[j];
            ord.set(j - 1, y);
            ord.set(j, x);
            proof {
                let o2 = ord@;
                let jj = j as int;
                assert forall|ii: int| 0 <= ii < n implies #[trigger] o2.contains(ii as usize) by {
                    assert(o0.contains(ii as usize));
                    let k0 = choose|k0: int| 0 <= k0 < o0.len() && o0[k0] == ii as usize;
                    if k0 == jj - 1 {
                        assert(o2[jj] == ii as usize);
                    } else if k0 == jj {
                        assert(o2[jj - 1] == ii as usize);
                    } else {
                        assert(o2[k0] == ii as usize);
                    }
                }
                assert forall|a: int, b: int|
                    0 <= a < b < o2.len() && keys@[o2[a] as int] == keys@[o2[b] as int] implies o2[a]
                    < o2[b] by {
                    if a == jj - 1 && b == jj {
                        // the swapped pair has strictly different keys
                        assert(keys@[o2[a] as int] < keys@[o2[b] as int]);
                    } else if a == jj - 1 {
                        assert(o2[a] == o0[jj] && o2[b] == o0[b]);
                    } else if a == jj {
                        assert(o2[a] == o0[jj - 1] && o2[b] == o0[b]);
                    } else if b == jj - 1 {
                        assert(o2[a] == o0[a] && o2[b] == o0[jj]);
                    } else if b == jj {
                        assert(o2[a] == o0[a] && o2[b] == o0[jj - 1]);
                    } else {
                        assert(o2[a] == o0[a] && o2[b] == o0[b]);
                    }
                }
            }
            j = j - 1;
        }
        proof {
            let jj = j as int;
            assert forall|a: int, b: int| 0 <= a < b <= i implies keys@[ord@[a] as int]
                <= keys@[ord@[b] as int] by {
                if b == jj && jj > 0 {
                    assert(keys@[ord@[jj - 1] as int] <= keys@[ord@[jj] as int]);
                    if a < jj - 1 {
                        assert(keys@[ord@[a] as int] <= keys@[ord@[jj - 1] as int]);
                    }
                }
            }
        }
        i = i + 1;
    }
    ord
}

/// The error a drain reports when it cannot evict a workload, naming it.
pub fn eviction_failure(w: &Workload) -> (e: Error)
    ensures
        e matches Error::Value(m) && m@ == "failed to evict "@ + w.name@,
{
    Error::Value("failed to evict ".to_owned().concat(w.name.as_str()))
}

/// The first workload, in listing order, that the drain tries to evict
/// and fails on: daemon-owned workloads are never tried, and the drain
/// stops at the first failure.
pub open spec fn first_evict_failure(pods: Seq<Workload>, ok: Seq<bool>, i: int) -> Option<int>
    decreases pods.len() - i,
{
    if i < 0 || i >= pods.len() {
        None
    } else if !pods[i].is_daemon() && !(i < ok.len() && ok[i]) {
        Some(i)
    } else {
        first_evict_failure(pods, ok, i + 1)
    }
}

/// The decision core of the drain's pre-reboot step, after the node is
/// cordoned: walk the workloads listed on the node in order, leave
/// daemon-owned ones alone, evict the rest, and abort on the first
/// eviction failure with an error naming the workload.  `evict_ok[i]`
/// is the outcome the store reported for evicting workload `i`; the
/// call itself happens at the edge, and this function is verified for
/// every combination of outcomes.
pub fn drain_decisions(pods: &Vec<Workload>, evict_ok: &Vec<bool>) -> (r: Result<(), Error>)
    requires
        evict_ok.len() == pods.len(),
    ensures
        match first_evict_failure(pods@, evict_ok@, 0) {
            None => r is Ok,
            Some(i) => r matches Err(Error::Value(m)) && m@ == "failed to evict "@
                + pods@[i].name@,
        },
{
    let n = pods.len();
    let mut i: usize = 0;
    while i < n
        invariant
            0 <= i <= n,
            n == pods.len() == evict_ok.len(),
            first_evict_failure(pods@, evict_ok@, 0) == first_evict_failure(
                pods@,
                evict_ok@,
                i as int,
            ),
        decreases n - i,
    {
        let w = &pods[i];
        if should_evict(w) {
            if !evict_ok[i] {
                return Err(eviction_failure(w));
            }
        }
        i = i + 1;
    }
    Ok(())
}

/// Daemon exemption: the drain never reports an eviction failure for a
/// daemon-owned workload, because it never tries to evict one — whatever
/// the store would have answered.
pub proof fn lemma_drain_daemon_exempt(pods: Seq<Workload>, ok: Seq<bool>, i: int)
    ensures
        first_evict_failure(pods, ok, i) matches Some(j) ==> 0 <= j < pods.len()
            && !pods[j].is_daemon() && j >= i,
    decreases pods.len() - i,
{
    if i >= 0 && i < pods.len() {
        lemma_drain_daemon_exempt(pods, ok, i + 1);
    }
}

} // verus!
