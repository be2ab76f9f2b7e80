//! Reboot coordination for a fleet of machines that must never have more
//! than one member disrupted at a time.
//!
//! The crate models the coordination protocol itself: a named
//! mutual-exclusion lock backed by a lease record in a strongly-consistent
//! store, together with the priority-ordered strategy engine that runs
//! drain actions before a reboot is granted and recovery actions before the
//! lock is released.  The store's own transport and every real side effect
//! (cordoning a node, evicting a workload) happen outside this crate; the
//! decisions about them are made here, over plain values, and are verified.

use vstd::prelude::*;
use vstd::string::StringExecFns;

pub mod config;
pub mod digits;
pub mod fleetlock;
pub mod lock;
pub mod orchestrator;
pub mod strategies;

verus! {

/// Errors surfaced by the lock and the orchestrator.
///
/// `Held` is lock contention (another holder owns the slot), `Value` is a
/// schema violation in the stored lease, `NotFound` is the store's report
/// that no lease exists, `Upstream` carries a store transport error as
/// text, and `Impossible`/`Unknown` mark invariant violations.
#[derive(Debug)]
pub enum Error {
    Held(String),
    Value(String),
    NotFound,
    Upstream(String),
    Impossible,
    Unknown,
}

impl Clone for Error {
    /// A clone is the same error, so contracts may speak of cloned values.
    fn clone(&self) -> (r: Self)
        ensures
            r == *self,
    {
        match self {
            Error::Held(w) => Error::Held(w.clone()),
            Error::Value(v) => Error::Value(v.clone()),
            Error::NotFound => Error::NotFound,
            Error::Upstream(m) => Error::Upstream(m.clone()),
            Error::Impossible => Error::Impossible,
            Error::Unknown => Error::Unknown,
        }
    }
}

impl Error {
    /// The protocol slug for this error, as written into an error response.
    pub fn slug(&self) -> (r: &'static str)
        ensures
            r@ == spec_slug(*self),
    {
        match self {
            Error::Held(_) => "err_lock",
            Error::Value(_) => "err_value",
            Error::NotFound => "err_kube_api",
            Error::Upstream(_) => "err_kube_api",
            Error::Impossible => "err_impossible",
            Error::Unknown => "err_unknown",
        }
    }

    /// The HTTP-style status class for this error: lock contention maps to
    /// the not-found/conflict class, everything else to the server-error
    /// class.
    pub fn status_code(&self) -> (r: u16)
        ensures
            r == spec_status_code(*self),
            r == 404 <==> self matches Error::Held(_),
    {
        match self {
            Error::Held(_) => 404,
            _ => 500,
        }
    }
}

pub open spec fn spec_slug(e: Error) -> Seq<char> {
    match e {
        Error::Held(_) => "err_lock"@,
        Error::Value(_) => "err_value"@,
        Error::NotFound => "err_kube_api"@,
        Error::Upstream(_) => "err_kube_api"@,
        Error::Impossible => "err_impossible"@,
        Error::Unknown => "err_unknown"@,
    }
}

pub open spec fn spec_status_code(e: Error) -> u16 {
    match e {
        Error::Held(_) => 404,
        _ => 500,
    }
}

pub open spec fn spec_message(e: Error) -> Seq<char> {
    match e {
        Error::Held(w) => "lock held by "@ + w@,
        Error::Value(v) => "bad value: "@ + v@,
        Error::NotFound => "lease not found"@,
        Error::Upstream(m) => "kubernetes api error: "@ + m@,
        Error::Impossible => "impossible error"@,
        Error::Unknown => "unknown error"@,
    }
}

impl Error {
    /// The human-readable message written into an error response.
    pub fn message(&self) -> (r: String)
        ensures
            r@ == spec_message(*self),
    {
        match self {
            Error::Held(w) => "lock held by ".to_owned().concat(w.as_str()),
            Error::Value(v) => "bad value: ".to_owned().concat(v.as_str()),
            Error::NotFound => "lease not found".to_owned(),
            Error::Upstream(m) => "kubernetes api error: ".to_owned().concat(m.as_str()),
            Error::Impossible => "impossible error".to_owned(),
            Error::Unknown => "unknown error".to_owned(),
        }
    }

    /// The full error answer: the HTTP-style status class together with
    /// the `{kind, value}` body, kind being the slug and value the
    /// message.  Lock contention is the only error in the not-found
    /// class; everything else is a server error.
    pub fn into_response_parts(&self) -> (r: (u16, crate::fleetlock::Response))
        ensures
            r.0 == spec_status_code(*self),
            r.1.kind@ == spec_slug(*self),
            r.1.value@ == spec_message(*self),
    {
        let status = self.status_code();
        let body = crate::fleetlock::Response { kind: self.slug().to_owned(), value: self.message() };
        (status, body)
    }
}

} // verus!
