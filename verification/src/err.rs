//! The failure kinds of this crate.

use vstd::prelude::*;

verus! {

/// Everything that can go wrong while parsing or executing a removal.
///
/// Errors from the permission gate and from the store are surfaced to the
/// caller unmodified; no local recovery or retry happens anywhere in this
/// crate.
#[derive(Clone, Copy, Debug, PartialEq, Eq, Structural)]
pub enum Error {
    /// The permission gate denied the action; nothing was mutated.
    Authorization,
    /// The store reported a failure on a delete; the command aborted.
    Storage,
    /// The statement text did not match the grammar.
    Parse,
}

impl Error {
    /// A short human-readable description of the failure.
    pub fn text(&self) -> (r: &'static str)
        ensures
            *self is Authorization ==> r@ == "Not enough permissions"@,
            *self is Storage ==> r@ == "There was a problem with the underlying datastore"@,
            *self is Parse ==> r@ == "Failed to parse statement"@,
    {
        match self {
            Error::Authorization => "Not enough permissions",
            Error::Storage => "There was a problem with the underlying datastore",
            Error::Parse => "Failed to parse statement",
        }
    }
}

} // verus!
