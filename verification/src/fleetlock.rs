//! The wire-level request and response values of the coordination
//! protocol, and the protocol-header gate.
//!
//! Two operations exist: ask-to-reboot and announce-steady-state.  Both
//! carry `{client_params: {group, id}}` and are answered with a
//! `{kind, value}` pair; `group` is reserved for future multi-group
//! fleets and unused by the lock and the orchestrator, while `id` names
//! the requesting node and becomes the lock holder identity.

use vstd::prelude::*;
use vstd::string::StrSliceExecFns;
use crate::Error;

verus! {

/// The client-supplied parameters of a request.
pub struct ClientParams {
    pub group: String,
    pub id: String,
}

/// A protocol request.
pub struct Request {
    pub client_params: ClientParams,
}

/// A protocol response: a result or error slug plus a human-readable
/// message.
#[derive(Debug)]
pub struct Response {
    pub kind: String,
    pub value: String,
}

impl Response {
    /// The success response of the ask-to-reboot operation.
    pub fn lock_acquired() -> (r: Response)
        ensures
            r.kind@ == "lock_acquired"@,
            r.value@ == "successfully acquired lock, ok to reboot"@,
    {
        Response {
            kind: "lock_acquired".to_owned(),
            value: "successfully acquired lock, ok to reboot".to_owned(),
        }
    }

    /// The success response of the announce-steady-state operation.
    pub fn lock_released() -> (r: Response)
        ensures
            r.kind@ == "lock_released"@,
            r.value@ == "successfully released lock, no more retries needed"@,
    {
        Response {
            kind: "lock_released".to_owned(),
            value: "successfully released lock, no more retries needed".to_owned(),
        }
    }
}

/// Character-for-character string equality.
pub fn str_eq(a: &str, b: &str) -> (r: bool)
    ensures
        r == (a@ == b@),
{
    let n = a.unicode_len();
    if n != b.unicode_len() {
        return false;
    }
    let mut i: usize = 0;
    while i < n
        invariant
            0 <= i <= n,
            n == a@.len() == b@.len(),
            forall|k: int| 0 <= k < i ==> a@[k] == b@[k],
        decreases n - i,
    {
        if a.get_char(i) != b.get_char(i) {
            return false;
        }
        i = i + 1;
    }
    proof {
        assert(a@ =~= b@);
    }
    true
}

/// The protocol gate: a request is admitted only when the protocol
/// header is present with the exact value `true`; anything else is
/// rejected as a bad value before any lock state is touched.
pub fn check_fleetlock_header(header: Option<&str>) -> (r: Result<(), Error>)
    ensures
        match r {
            Ok(()) => header matches Some(h) && h@ == "true"@,
            Err(e) => {
                &&& e matches Error::Value(_)
                &&& match header {
                    Some(h) => h@ != "true"@,
                    None => true,
                }
            },
        },
{
    match header {
        Some(h) => {
            if str_eq(h, "true") {
                Ok(())
            } else {
                Err(Error::Value("no fleetlock header set".to_owned()))
            }
        },
        None => Err(Error::Value("no fleetlock header set".to_owned())),
    }
}

} // verus!
