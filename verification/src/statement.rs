//! The removal command value, its canonical rendering, and its execution.

use crate::err::Error;
use crate::iam::{Action, Base, Options, ResourceKind};
use crate::ident::Ident;
use crate::kvs::{
    lemma_removal_composes, removal_result, successful_section, DataRange, Event, Key, Transaction,
};
use vstd::prelude::*;

verus! {

/// The canonical text of a removal command over the given name.
pub open spec fn rendered(name: Seq<char>) -> Seq<char> {
    "REMOVE SCOPE "@ + name
}

/// The result of a successful execution: a tagged value whose only variant
/// here signals completion with nothing to return.
#[derive(Clone, Copy, Debug, PartialEq, Eq, Structural)]
pub enum Value {
    /// Completion with no payload.
    Nothing,
}

/// A parsed, not-yet-executed request to remove the scope named `name`
/// from the current namespace and database.
#[derive(Debug, Hash)]
pub struct RemoveScopeStatement {
    pub name: Ident,
}

impl RemoveScopeStatement {
    /// Renders the command back to its canonical text,
    /// `REMOVE SCOPE <name>` with a single space and the original-case name.
    pub fn render(&self) -> (r: String)
        ensures
            r@ == rendered(self.name@),
    {
        let mut s = String::from_str("REMOVE SCOPE ");
        s.append(self.name.0.as_str());
        s
    }

    /// Executes the removal against the given context and transaction
    /// handle.
    ///
    /// The permission gate runs first: on denial the command stops with an
    /// authorization error before the handle is even claimed — the log,
    /// the cache and every entry stand exactly as they were. When allowed,
    /// the locked section claims the handle, drops the cached schema
    /// metadata, deletes the scope's definition key, and deletes the
    /// scope's whole data range; success returns the no-payload value. A
    /// storage fault surfaces unmodified and aborts the command after the
    /// cache was already dropped but before any entry changed.
    pub fn compute(&self, opt: &Options, txn: &mut Transaction) -> (r: Result<Value, Error>)
        ensures
            final(txn).fault == old(txn).fault,
            !opt.allowed ==> r is Err && r->Err_0 == Error::Authorization && *final(txn) == *old(
                txn),
            opt.allowed && old(txn).fault ==> r is Err && r->Err_0 == Error::Storage
                && final(txn).entries == old(txn).entries
                && final(txn).cache_present == false
                && final(txn).log@ == old(txn).log@ + seq![
                Event::LockAcquired,
                Event::CacheCleared,
            ],
            opt.allowed && !old(txn).fault ==> r is Ok && r->Ok_0 == Value::Nothing
                && final(txn).entries@ == removal_result(
                old(txn).entries@,
                opt.ns@,
                opt.db@,
                self.name@,
            )
                && final(txn).cache_present == false
                && final(txn).log@ == old(txn).log@ + successful_section(),
    {
        // Allowed to run?
        match opt.is_allowed(Action::Edit, ResourceKind::Scope, &Base::Db) {
            Ok(()) => {},
            Err(e) => {
                return Err(e);
            },
        }
        // Claim the transaction handle
        txn.lock();
        // Clear the cache
        txn.clear_cache();
        // Delete the definition
        let key = Key::ScopeDefinition {
            ns: opt.ns.clone(),
            db: opt.db.clone(),
            sc: self.name.0.clone(),
        };
        match txn.del(key) {
            Ok(()) => {},
            Err(e) => {
                proof {
                    assert(old(txn).log@.push(Event::LockAcquired).push(Event::CacheCleared) =~= old(
                        txn,
                    ).log@ + seq![Event::LockAcquired, Event::CacheCleared]);
                }
                return Err(e);
            },
        }
        // Remove the resource data
        let rng = DataRange { ns: opt.ns.clone(), db: opt.db.clone(), sc: self.name.0.clone() };
        match txn.delp(rng) {
            Ok(()) => {},
            Err(e) => {
                return Err(e);
            },
        }
        proof {
            lemma_removal_composes(old(txn).entries@, opt.ns@, opt.db@, self.name@);
            assert(old(txn).log@.push(Event::LockAcquired).push(Event::CacheCleared).push(
                Event::KeyDeleted,
            ).push(Event::RangeDeleted) =~= old(txn).log@ + successful_section());
        }
        // All done
        Ok(Value::Nothing)
    }
}

impl Clone for RemoveScopeStatement {
    fn clone(&self) -> (r: Self)
        ensures
            r == *self,
    {
        RemoveScopeStatement { name: self.name.clone() }
    }
}

impl PartialEq for RemoveScopeStatement {
    fn eq(&self, other: &RemoveScopeStatement) -> (r: bool) {
        self.name.0 == other.name.0
    }
}

impl Eq for RemoveScopeStatement {

}

impl vstd::std_specs::cmp::PartialEqSpecImpl for RemoveScopeStatement {
    open spec fn obeys_eq_spec() -> bool {
        true
    }

    open spec fn eq_spec(&self, other: &RemoveScopeStatement) -> bool {
        self.name@ == other.name@
    }
}

impl Default for RemoveScopeStatement {
    /// The default command carries the default (empty) identifier.
    fn default() -> (r: Self)
        ensures
            r.name@ == Seq::<char>::empty(),
    {
        RemoveScopeStatement { name: Ident(String::new()) }
    }
}

} // verus!
