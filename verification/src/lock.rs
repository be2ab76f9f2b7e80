//! The distributed mutual-exclusion lock and its backing lease record.
//!
//! A `Lock` names one reboot-coordination slot; it is backed one-to-one
//! by a lease record in the fleet's strongly-consistent coordination
//! store.  `LeaseStore` models the slice of that store holding this
//! lock's lease: its four primitives (get, create-if-absent, patch,
//! delete) mirror the contract the lock requires from the store, each
//! assumed atomic on its own.  Mutual exclusion is enforced by data — the
//! holder-identity comparison on the record — not by an in-process
//! mutex, so the same decisions hold across server replicas; the
//! unverified edge of the program performs these primitives against the
//! real store and is driven by the functions here.

use vstd::prelude::*;
use crate::digits::{dec_str, dec_val, is_dec_digits, format_u64, parse_u64};
use crate::Error;

verus! {

/// One reboot-coordination slot, identified by name and namespace;
/// the identity is immutable after creation.
pub struct Lock {
    pub name: String,
    pub namespace: String,
}

/// The externally visible projection of a lease: current holder and
/// progress watermark.  Never constructed without a corresponding lease.
pub struct LockMetadata {
    pub holder: String,
    pub progress_flag: u64,
}

/// The persisted lease record.  Either field may be absent in a
/// malformed record; the lock surfaces that as a schema error rather
/// than crashing.
pub struct LeaseRecord {
    pub holder_identity: Option<String>,
    pub progress_annotation: Option<String>,
}

/// The mathematical value of a lease record.
#[verifier::ext_equal]
pub struct LeaseView {
    pub holder_identity: Option<Seq<char>>,
    pub progress_annotation: Option<Seq<char>>,
}

impl View for LeaseRecord {
    type V = LeaseView;

    open spec fn view(&self) -> LeaseView {
        LeaseView {
            holder_identity: match self.holder_identity {
                Some(h) => Some(h@),
                None => None,
            },
            progress_annotation: match self.progress_annotation {
                Some(p) => Some(p@),
                None => None,
            },
        }
    }
}

/// The state of the coordination store for one lease name: the record,
/// or nothing.  Its view is `None` exactly when no lease exists.
pub struct LeaseStore {
    pub lease: Option<LeaseRecord>,
}

impl View for LeaseStore {
    type V = Option<LeaseView>;

    open spec fn view(&self) -> Option<LeaseView> {
        match self.lease {
            Some(l) => Some(l@),
            None => None,
        }
    }
}

fn clone_opt_string(o: &Option<String>) -> (r: Option<String>)
    ensures
        r == *o,
{
    match o {
        Some(s) => Some(s.clone()),
        None => None,
    }
}

impl LeaseStore {
    /// A store in which no lease exists yet.
    pub fn new() -> (s: Self)
        ensures
            s@ is None,
    {
        LeaseStore { lease: None }
    }

    /// Store primitive: read the lease, or the store's not-found.
    pub fn get(&self) -> (r: Option<&LeaseRecord>)
        ensures
            match r {
                Some(l) => self@ == Some(l@),
                None => self@ is None,
            },
    {
        match &self.lease {
            Some(l) => Some(l),
            None => None,
        }
    }

    /// Store primitive: create the lease; an already existing lease is
    /// refused, surfaced as the store's already-exists answer.
    pub fn create(&mut self, rec: LeaseRecord) -> (r: Result<(), Error>)
        ensures
            match r {
                Ok(()) => old(self)@ is None && final(self)@ == Some(rec@),
                Err(e) => {
                    &&& old(self)@ is Some
                    &&& final(self)@ == old(self)@
                    &&& e matches Error::Upstream(_)
                },
            },
    {
        match &self.lease {
            Some(_) => Err(Error::Upstream("AlreadyExists".to_owned())),
            None => {
                self.lease = Some(rec);
                Ok(())
            },
        }
    }

    /// Store primitive: patch the progress annotation of an existing
    /// lease, leaving the holder untouched.
    pub fn patch_progress(&mut self, ann: String) -> (r: Result<(), Error>)
        ensures
            match r {
                Ok(()) => {
                    &&& old(self)@ matches Some(l)
                    &&& final(self)@ == Some(
                        LeaseView {
                            holder_identity: l.holder_identity,
                            progress_annotation: Some(ann@),
                        },
                    )
                },
                Err(e) => {
                    &&& old(self)@ is None
                    &&& final(self)@ == old(self)@
                    &&& e matches Error::NotFound
                },
            },
    {
        let holder = match &self.lease {
            Some(l) => clone_opt_string(&l.holder_identity),
            None => {
                return Err(Error::NotFound);
            },
        };
        self.lease = Some(LeaseRecord { holder_identity: holder, progress_annotation: Some(ann) });
        Ok(())
    }

    /// Store primitive: delete the lease; deleting an absent lease is
    /// the store's not-found.
    pub fn delete(&mut self) -> (r: Result<(), Error>)
        ensures
            final(self)@ is None,
            match r {
                Ok(()) => old(self)@ is Some,
                Err(e) => old(self)@ is None && e matches Error::NotFound,
            },
    {
        match &self.lease {
            Some(_) => {
                self.lease = None;
                Ok(())
            },
            None => Err(Error::NotFound),
        }
    }
}

/// The lease a fresh acquisition writes: held by `holder`, with the
/// progress watermark at its initial value.
pub open spec fn freshly_acquired(holder: Seq<char>) -> LeaseView {
    LeaseView { holder_identity: Some(holder), progress_annotation: Some(dec_str(0)) }
}

/// What `acquire` guarantees: get-or-create followed by the holder
/// comparison.  An absent lease is created for the caller; an existing
/// lease is never modified, and acquisition succeeds exactly when its
/// holder equals the caller (idempotent re-acquire), fails with
/// contention naming the current holder otherwise, and fails as a schema
/// error when the record carries no holder at all.
pub open spec fn acquire_post(
    pre: Option<LeaseView>,
    post: Option<LeaseView>,
    holder: Seq<char>,
    r: Result<(), Error>,
) -> bool {
    match pre {
        None => r is Ok && post == Some(freshly_acquired(holder)),
        Some(l) => {
            &&& post == pre
            &&& match l.holder_identity {
                Some(h) => if h == holder {
                    r is Ok
                } else {
                    r matches Err(Error::Held(w)) && w@ == h
                },
                None => r matches Err(Error::Value(_)),
            }
        },
    }
}

/// What `release` guarantees: only the current holder may release, an
/// absent lease is a not-found error (double release is never a silent
/// success), and on any failure the lease is left untouched.
pub open spec fn release_post(
    pre: Option<LeaseView>,
    post: Option<LeaseView>,
    holder: Seq<char>,
    r: Result<(), Error>,
) -> bool {
    match pre {
        None => r matches Err(Error::NotFound) && post == pre,
        Some(l) => match l.holder_identity {
            Some(h) => if h == holder {
                r is Ok && post is None
            } else {
                r matches Err(Error::Held(w)) && w@ == h && post == pre
            },
            None => r matches Err(Error::Value(_)) && post == pre,
        },
    }
}

/// A lease whose metadata can be read back: it has a holder and its
/// progress annotation is decimal text whose value fits the watermark.
pub open spec fn readable_metadata(l: LeaseView) -> bool {
    &&& l.holder_identity is Some
    &&& l.progress_annotation matches Some(p) && is_dec_digits(p) && dec_val(p) <= u64::MAX
}

/// The watermark a readable lease denotes.
pub open spec fn lease_progress(l: LeaseView) -> nat {
    dec_val(l.progress_annotation->0)
}

/// What `get_metadata` guarantees: the holder and the parsed watermark
/// of a readable lease; a schema error when either field is absent or
/// the annotation is not decimal text; not-found when no lease exists.
pub open spec fn metadata_post(s: Option<LeaseView>, r: Result<LockMetadata, Error>) -> bool {
    match s {
        None => r matches Err(Error::NotFound),
        Some(l) => if readable_metadata(l) {
            r matches Ok(m) && Some(m.holder@) == l.holder_identity && m.progress_flag
                == lease_progress(l)
        } else {
            r matches Err(Error::Value(_))
        },
    }
}

/// What `set_metadata` guarantees: the current lease is re-read and its
/// holder must equal the writer's claimed holder before the watermark is
/// patched; on success only the progress annotation changes, to the
/// canonical decimal text of the new watermark.
pub open spec fn set_metadata_post(
    pre: Option<LeaseView>,
    post: Option<LeaseView>,
    meta_holder: Seq<char>,
    flag: u64,
    r: Result<(), Error>,
) -> bool {
    match pre {
        None => r matches Err(Error::NotFound) && post == pre,
        Some(l) => if !readable_metadata(l) {
            r matches Err(Error::Value(_)) && post == pre
        } else if l.holder_identity != Some(meta_holder) {
            r matches Err(Error::Value(_)) && post == pre
        } else {
            r is Ok && post == Some(
                LeaseView {
                    holder_identity: l.holder_identity,
                    progress_annotation: Some(dec_str(flag as nat)),
                },
            )
        },
    }
}

impl Lock {
    /// The lease a fresh acquisition attempts to create.
    fn desired_lease(&self, holder: &String) -> (r: LeaseRecord)
        ensures
            r@ == freshly_acquired(holder@),
    {
        proof {
            reveal_strlit("0");
            assert("0"@ =~= dec_str(0));
        }
        LeaseRecord {
            holder_identity: Some(holder.clone()),
            progress_annotation: Some("0".to_owned()),
        }
    }

    /// Get-or-create the lease for this lock, then compare holders:
    /// equal means success (so a client may retry its own acquisition),
    /// different means contention, no queueing and no backoff.
    pub fn acquire(&self, store: &mut LeaseStore, holder: &String) -> (r: Result<(), Error>)
        ensures
            acquire_post(old(store)@, final(store)@, holder@, r),
    {
        if store.get().is_none() {
            let created = store.create(self.desired_lease(holder));
            match created {
                Ok(()) => {},
                Err(_) => {
                    assert(false);
                },
            }
        }
        match store.get() {
            Some(l) => match &l.holder_identity {
                Some(h) => {
                    if *h == *holder {
                        Ok(())
                    } else {
                        Err(Error::Held(h.clone()))
                    }
                },
                None => Err(Error::Value("Lease has no holder_identity".to_owned())),
            },
            None => {
                assert(false);
                Err(Error::Unknown)
            },
        }
    }

    /// Read the lease and delete it, but only for its current holder;
    /// releasing an absent lease fails with the store's not-found.
    pub fn release(&self, store: &mut LeaseStore, holder: &String) -> (r: Result<(), Error>)
        ensures
            release_post(old(store)@, final(store)@, holder@, r),
    {
        match store.get() {
            Some(l) => match &l.holder_identity {
                Some(h) => {
                    if !(*h == *holder) {
                        return Err(Error::Held(h.clone()));
                    }
                },
                None => {
                    return Err(Error::Value("Lease has no holder_identity".to_owned()));
                },
            },
            None => {
                return Err(Error::NotFound);
            },
        }
        let deleted = store.delete();
        match deleted {
            Ok(()) => Ok(()),
            Err(_) => {
                assert(false);
                Err(Error::Unknown)
            },
        }
    }

    /// Read the current holder and progress watermark; absent fields or
    /// an unparsable annotation are a schema error, not a crash.
    pub fn get_metadata(&self, store: &LeaseStore) -> (r: Result<LockMetadata, Error>)
        ensures
            metadata_post(store@, r),
    {
        let lease = match store.get() {
            Some(l) => l,
            None => {
                return Err(Error::NotFound);
            },
        };
        let holder = match &lease.holder_identity {
            Some(h) => h.clone(),
            None => {
                return Err(Error::Value("Lease has no holder_identity".to_owned()));
            },
        };
        let ann = match &lease.progress_annotation {
            Some(p) => p,
            None => {
                return Err(Error::Value("Lease doesn't have progress annotation".to_owned()));
            },
        };
        match parse_u64(ann.as_str()) {
            Some(progress) => Ok(LockMetadata { holder, progress_flag: progress }),
            None => Err(Error::Value("Unable to parse progress flags".to_owned())),
        }
    }

    /// Re-read the current holder, require it to match the writer's
    /// claimed holder, then patch the progress watermark.
    ///
    /// The ownership check and the patch are two separate calls against
    /// the real store; a holder change between them can let a stale
    /// writer overwrite progress for a new holder.  Closing that gap
    /// needs a compare-and-swap primitive from the store; within this
    /// model the two calls compose without interleaving, so the contract
    /// below states the race-free outcome only.
    pub fn set_metadata(&self, store: &mut LeaseStore, meta: &LockMetadata) -> (r: Result<
        (),
        Error,
    >)
        ensures
            set_metadata_post(old(store)@, final(store)@, meta.holder@, meta.progress_flag, r),
    {
        let cur = match self.get_metadata(store) {
            Ok(m) => m,
            Err(e) => {
                return Err(e);
            },
        };
        if !(cur.holder == meta.holder) {
            return Err(Error::Value("Lock isn't held by given owner".to_owned()));
        }
        let patched = store.patch_progress(format_u64(meta.progress_flag));
        match patched {
            Ok(()) => Ok(()),
            Err(_) => {
                assert(false);
                Err(Error::Unknown)
            },
        }
    }

    /// Unconditionally delete the lease, whoever holds it: an
    /// administrative escape hatch, not part of the normal protocol
    /// path.  Deleting an absent lease still surfaces the store's
    /// not-found.
    pub fn force_release(&self, store: &mut LeaseStore) -> (r: Result<(), Error>)
        ensures
            final(store)@ is None,
            match r {
                Ok(()) => old(store)@ is Some,
                Err(e) => old(store)@ is None && e matches Error::NotFound,
            },
    {
        store.delete()
    }
}

/// Exclusivity: while a lease is held, an acquire by a different holder
/// fails with contention naming the current holder and leaves the lease
/// untouched, while a re-acquire by the current holder itself succeeds,
/// also leaving the lease untouched.
pub proof fn lemma_acquire_exclusive(
    pre: Option<LeaseView>,
    post: Option<LeaseView>,
    current: Seq<char>,
    claimant: Seq<char>,
    r: Result<(), Error>,
)
    requires
        pre matches Some(l) && l.holder_identity == Some(current),
        acquire_post(pre, post, claimant, r),
    ensures
        post == pre,
        claimant != current ==> (r matches Err(Error::Held(w)) && w@ == current),
        claimant == current ==> r is Ok,
{
}

/// Release authorization: a release by anyone but the current holder
/// fails with contention naming the current holder, and the lease is
/// left untouched.
pub proof fn lemma_release_authorized(
    pre: Option<LeaseView>,
    post: Option<LeaseView>,
    current: Seq<char>,
    claimant: Seq<char>,
    r: Result<(), Error>,
)
    requires
        pre matches Some(l) && l.holder_identity == Some(current),
        release_post(pre, post, claimant, r),
        claimant != current,
    ensures
        r matches Err(Error::Held(w)) && w@ == current,
        post == pre,
{
}

/// Double release: releasing when no lease exists fails — it is the
/// store's not-found, never a silent success.
pub proof fn lemma_double_release_fails(
    post: Option<LeaseView>,
    holder: Seq<char>,
    r: Result<(), Error>,
)
    requires
        release_post(None, post, holder, r),
    ensures
        r matches Err(Error::NotFound),
        post is None,
{
}

} // verus!
