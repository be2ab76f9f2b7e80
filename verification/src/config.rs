//! Process-wide configuration: an explicit value constructed once at
//! startup and passed into the transport layer and the orchestrator —
//! no hidden global.

use vstd::prelude::*;
use crate::lock::Lock;

verus! {

/// The server's configuration: the schema identifiers of the
/// configuration document and the identity of the one lock slot this
/// server arbitrates.
pub struct Config {
    pub api_version: String,
    pub kind: String,
    pub lock: Lock,
}

impl Default for Config {
    /// The built-in configuration used until loading from a file exists.
    fn default() -> (c: Self)
        ensures
            c.api_version@ == "v1alpha1"@,
            c.kind@ == "StrandConfig"@,
            c.lock.name@ == "zincati-strand-lock"@,
            c.lock.namespace@ == "strand"@,
    {
        Config {
            api_version: "v1alpha1".to_owned(),
            kind: "StrandConfig".to_owned(),
            lock: Lock { name: "zincati-strand-lock".to_owned(), namespace: "strand".to_owned() },
        }
    }
}

} // verus!
