//! The keyed store behind the mutating transaction handle.
//!
//! Keys are hierarchical: a scope's single definition entry and its whole
//! data range are addressed by namespace, database and scope name, so the
//! entries of distinct scopes never overlap. The handle keeps an event log
//! of the operations performed through it; the discipline laws at the end
//! of this module speak of that log.

use crate::err::Error;
use vstd::prelude::*;

verus! {

/// The mathematical shape of a key: which scope it belongs to, and whether
/// it addresses the definition entry or a data entry under the scope's
/// prefix (`rest` being the key's tail within that range).
pub enum KeyView {
    ScopeDefinition { ns: Seq<char>, db: Seq<char>, sc: Seq<char> },
    ScopeData { ns: Seq<char>, db: Seq<char>, sc: Seq<char>, rest: Seq<char> },
}

impl KeyView {
    /// This key is the definition key of scope `sc` in `ns`/`db`.
    pub open spec fn is_definition_of(self, ns: Seq<char>, db: Seq<char>, sc: Seq<char>) -> bool {
        self matches KeyView::ScopeDefinition { ns: a, db: b, sc: c } && a == ns && b == db && c
            == sc
    }

    /// This key lies in the data range of scope `sc` in `ns`/`db`,
    /// whatever its tail.
    pub open spec fn in_data_range_of(self, ns: Seq<char>, db: Seq<char>, sc: Seq<char>) -> bool {
        self matches KeyView::ScopeData { ns: a, db: b, sc: c, rest: _ } && a == ns && b == db && c
            == sc
    }
}

/// A hierarchical key of the store.
#[derive(Debug, PartialEq, Eq)]
pub enum Key {
    /// The single key addressing the stored definition of scope `sc`.
    ScopeDefinition { ns: String, db: String, sc: String },
    /// One key in the data range of scope `sc`; `rest` is its tail beyond
    /// the range's shared prefix.
    ScopeData { ns: String, db: String, sc: String, rest: String },
}

impl View for Key {
    type V = KeyView;

    open spec fn view(&self) -> KeyView {
        match self {
            Key::ScopeDefinition { ns, db, sc } => KeyView::ScopeDefinition {
                ns: ns@,
                db: db@,
                sc: sc@,
            },
            Key::ScopeData { ns, db, sc, rest } => KeyView::ScopeData {
                ns: ns@,
                db: db@,
                sc: sc@,
                rest: rest@,
            },
        }
    }
}

impl Clone for Key {
    fn clone(&self) -> (r: Self)
        ensures
            r == *self,
    {
        match self {
            Key::ScopeDefinition { ns, db, sc } => Key::ScopeDefinition {
                ns: ns.clone(),
                db: db.clone(),
                sc: sc.clone(),
            },
            Key::ScopeData { ns, db, sc, rest } => Key::ScopeData {
                ns: ns.clone(),
                db: db.clone(),
                sc: sc.clone(),
                rest: rest.clone(),
            },
        }
    }
}

/// The whole key range of data ever written under one scope: every
/// `ScopeData` key of that scope, whatever its tail. The range's upper
/// end is open — no practical limit on the tails it covers.
pub struct DataRange {
    pub ns: String,
    pub db: String,
    pub sc: String,
}

/// One stored entry: a key and its payload.
#[derive(Debug, PartialEq, Eq)]
pub struct Entry {
    pub key: Key,
    pub value: String,
}

impl Clone for Entry {
    fn clone(&self) -> (r: Self)
        ensures
            r == *self,
    {
        Entry { key: self.key.clone(), value: self.value.clone() }
    }
}

/// One operation performed through the transaction handle.
#[derive(Clone, Copy, Debug, PartialEq, Eq, Structural)]
pub enum Event {
    /// Exclusive access to the handle was claimed.
    LockAcquired,
    /// The cached schema metadata was dropped.
    CacheCleared,
    /// A single-key delete was performed.
    KeyDeleted,
    /// A range delete was performed.
    RangeDeleted,
}

/// The entries left when the one under `key` is removed. Removing an
/// absent key leaves the store as it was.
pub open spec fn key_removed(entries: Seq<Entry>, key: KeyView) -> Seq<Entry> {
    entries.filter(|e: Entry| e.key@ != key)
}

/// The entries left when the whole data range of scope `sc` is removed.
pub open spec fn range_removed(
    entries: Seq<Entry>,
    ns: Seq<char>,
    db: Seq<char>,
    sc: Seq<char>,
) -> Seq<Entry> {
    entries.filter(|e: Entry| !e.key@.in_data_range_of(ns, db, sc))
}

/// The key belongs to scope `sc` in `ns`/`db`: it is the scope's
/// definition key or lies in its data range.
pub open spec fn scope_entry(k: KeyView, ns: Seq<char>, db: Seq<char>, sc: Seq<char>) -> bool {
    k.is_definition_of(ns, db, sc) || k.in_data_range_of(ns, db, sc)
}

/// The entries left when scope `sc` is removed whole: its definition entry
/// and every entry of its data range are gone, everything else stands
/// untouched in its order.
pub open spec fn removal_result(
    entries: Seq<Entry>,
    ns: Seq<char>,
    db: Seq<char>,
    sc: Seq<char>,
) -> Seq<Entry> {
    entries.filter(|e: Entry| !scope_entry(e.key@, ns, db, sc))
}

proof fn lemma_key_removed_push(s: Seq<Entry>, x: Entry, key: KeyView)
    ensures
        key_removed(s.push(x), key) == (if x.key@ != key {
            key_removed(s, key).push(x)
        } else {
            key_removed(s, key)
        }),
{
    reveal(Seq::filter);
    assert(s.push(x).drop_last() =~= s);
    assert(s.push(x).last() == x);
}

proof fn lemma_range_removed_push(s: Seq<Entry>, x: Entry, ns: Seq<char>, db: Seq<char>, sc: Seq<
    char,
>)
    ensures
        range_removed(s.push(x), ns, db, sc) == (if !x.key@.in_data_range_of(ns, db, sc) {
            range_removed(s, ns, db, sc).push(x)
        } else {
            range_removed(s, ns, db, sc)
        }),
{
    reveal(Seq::filter);
    assert(s.push(x).drop_last() =~= s);
    assert(s.push(x).last() == x);
}

proof fn lemma_removal_result_push(s: Seq<Entry>, x: Entry, ns: Seq<char>, db: Seq<char>, sc: Seq<
    char,
>)
    ensures
        removal_result(s.push(x), ns, db, sc) == (if !scope_entry(x.key@, ns, db, sc) {
            removal_result(s, ns, db, sc).push(x)
        } else {
            removal_result(s, ns, db, sc)
        }),
{
    reveal(Seq::filter);
    assert(s.push(x).drop_last() =~= s);
    assert(s.push(x).last() == x);
}

/// Removing the definition key and then the data range of one scope is
/// removing the scope whole.
pub proof fn lemma_removal_composes(s: Seq<Entry>, ns: Seq<char>, db: Seq<char>, sc: Seq<char>)
    ensures
        range_removed(
            key_removed(s, KeyView::ScopeDefinition { ns, db, sc }),
            ns,
            db,
            sc,
        ) == removal_result(s, ns, db, sc),
    decreases s.len(),
{
    let key = KeyView::ScopeDefinition { ns, db, sc };
    if s.len() == 0 {
        reveal(Seq::filter);
    } else {
        let dl = s.drop_last();
        let x = s.last();
        lemma_removal_composes(dl, ns, db, sc);
        assert(dl.push(x) =~= s);
        lemma_key_removed_push(dl, x, key);
        lemma_removal_result_push(dl, x, ns, db, sc);
        assert(x.key@.is_definition_of(ns, db, sc) <==> x.key@ == key);
        if x.key@ != key {
            lemma_range_removed_push(key_removed(dl, key), x, ns, db, sc);
        }
    }
}

/// A store that already holds no entry of the scope is left exactly as it
/// is by the scope's removal.
pub proof fn lemma_removal_result_stable(s: Seq<Entry>, ns: Seq<char>, db: Seq<char>, sc: Seq<
    char,
>)
    requires
        forall|j: int| 0 <= j < s.len() ==> !scope_entry(#[trigger] s[j].key@, ns, db, sc),
    ensures
        removal_result(s, ns, db, sc) == s,
    decreases s.len(),
{
    if s.len() == 0 {
        reveal(Seq::filter);
        assert(removal_result(s, ns, db, sc) =~= s);
    } else {
        let dl = s.drop_last();
        let x = s.last();
        lemma_removal_result_stable(dl, ns, db, sc);
        assert(dl.push(x) =~= s);
        lemma_removal_result_push(dl, x, ns, db, sc);
        assert(!scope_entry(x.key@, ns, db, sc));
    }
}

proof fn lemma_removal_result_within(s: Seq<Entry>, ns: Seq<char>, db: Seq<char>, sc: Seq<char>)
    ensures
        forall|j: int|
            0 <= j < removal_result(s, ns, db, sc).len() ==> s.contains(
                #[trigger] removal_result(s, ns, db, sc)[j],
            ),
    decreases s.len(),
{
    let r = removal_result(s, ns, db, sc);
    if s.len() == 0 {
        reveal(Seq::filter);
        assert(r =~= Seq::<Entry>::empty());
    } else {
        let dl = s.drop_last();
        let x = s.last();
        lemma_removal_result_within(dl, ns, db, sc);
        assert(dl.push(x) =~= s);
        lemma_removal_result_push(dl, x, ns, db, sc);
        let rdl = removal_result(dl, ns, db, sc);
        assert forall|j: int| 0 <= j < r.len() implies s.contains(r[j]) by {
            if j < rdl.len() {
                assert(dl.contains(rdl[j]));
                let w = choose|w: int| 0 <= w < dl.len() && dl[w] == rdl[j];
                assert(s[w] == rdl[j]);
            } else {
                assert(r[j] == x);
                assert(s[s.len() - 1] == x);
            }
        }
    }
}

/// Law: removing a scope is idempotent. Over the entries a first removal
/// left, a second removal of the same scope removes nothing further — and
/// by the executor's contract both runs return the no-payload success
/// value.
pub proof fn lemma_removal_idempotent(entries: Seq<Entry>, ns: Seq<char>, db: Seq<char>, sc: Seq<
    char,
>)
    ensures
        removal_result(removal_result(entries, ns, db, sc), ns, db, sc) == removal_result(
            entries,
            ns,
            db,
            sc,
        ),
{
    broadcast use vstd::seq_lib::group_filter_ensures;

    let r = removal_result(entries, ns, db, sc);
    assert forall|j: int| 0 <= j < r.len() implies !scope_entry(#[trigger] r[j].key@, ns, db, sc) by {
    }
    lemma_removal_result_stable(r, ns, db, sc);
}

/// Law: removal is complete and surgical. However many entries lie under
/// the scope's prefix (none, one, or many), neither they nor the
/// definition entry survive; no entry appears from nowhere; and every
/// entry of any other scope — the same namespace and database included —
/// survives.
pub proof fn lemma_removal_complete(entries: Seq<Entry>, ns: Seq<char>, db: Seq<char>, sc: Seq<
    char,
>)
    ensures
        forall|j: int|
            0 <= j < removal_result(entries, ns, db, sc).len() ==> !scope_entry(
                #[trigger] removal_result(entries, ns, db, sc)[j].key@,
                ns,
                db,
                sc,
            ),
        forall|j: int|
            0 <= j < removal_result(entries, ns, db, sc).len() ==> entries.contains(
                #[trigger] removal_result(entries, ns, db, sc)[j],
            ),
        forall|j: int|
            0 <= j < entries.len() && !scope_entry(entries[j].key@, ns, db, sc)
                ==> removal_result(entries, ns, db, sc).contains(#[trigger] entries[j]),
{
    broadcast use vstd::seq_lib::group_filter_ensures;

    lemma_removal_result_within(entries, ns, db, sc);
}

/// Law: the hierarchical key space keeps scopes apart. Within a namespace
/// and database, a key can address the definition or data of at most one
/// scope name, so one scope's removal can touch no other's entries.
pub proof fn lemma_scope_keys_disjoint(
    k: KeyView,
    ns: Seq<char>,
    db: Seq<char>,
    a: Seq<char>,
    b: Seq<char>,
)
    requires
        a != b,
    ensures
        !(k.is_definition_of(ns, db, a) && k.is_definition_of(ns, db, b)),
        !(k.in_data_range_of(ns, db, a) && k.in_data_range_of(ns, db, b)),
        !(k.is_definition_of(ns, db, a) && k.in_data_range_of(ns, db, b)),
{
}

/// The events of one successful locked section, oldest first.
pub open spec fn successful_section() -> Seq<Event> {
    seq![Event::LockAcquired, Event::CacheCleared, Event::KeyDeleted, Event::RangeDeleted]
}

/// How many times event `e` occurs in `log`.
pub open spec fn count_events(log: Seq<Event>, e: Event) -> nat
    decreases log.len(),
{
    if log.len() == 0 {
        0
    } else {
        count_events(log.drop_last(), e) + (if log.last() == e {
            1nat
        } else {
            0nat
        })
    }
}

/// Law: one successful locked section clears the cache exactly once, and
/// that clear stands strictly before either delete.
pub proof fn lemma_cache_clear_discipline()
    ensures
        count_events(successful_section(), Event::CacheCleared) == 1,
        forall|i: int|
            0 <= i < successful_section().len() && (successful_section()[i] == Event::KeyDeleted
                || successful_section()[i] == Event::RangeDeleted) ==> exists|j: int|
                0 <= j < i && successful_section()[j] == Event::CacheCleared,
{
    reveal_with_fuel(count_events, 5);
    let s = successful_section();
    let s3 = seq![Event::LockAcquired, Event::CacheCleared, Event::KeyDeleted];
    let s2 = seq![Event::LockAcquired, Event::CacheCleared];
    let s1 = seq![Event::LockAcquired];
    assert(s.drop_last() =~= s3);
    assert(s3.drop_last() =~= s2);
    assert(s2.drop_last() =~= s1);
    assert(s1.drop_last() =~= Seq::<Event>::empty());
    assert(count_events(s, Event::CacheCleared) == 1);
    assert forall|i: int|
        0 <= i < s.len() && (s[i] == Event::KeyDeleted || s[i]
            == Event::RangeDeleted) implies exists|j: int|
        0 <= j < i && s[j] == Event::CacheCleared by {
        assert(s[1] == Event::CacheCleared);
        assert(i == 2 || i == 3);
        assert(0 <= 1 < i && s[1] == Event::CacheCleared);
    }
}

/// The mutating transaction handle over the store: its entries, whether a
/// cached view of schema metadata is present, a fault switch standing for
/// the storage layer's own failures, and the log of operations performed
/// through the handle.
///
/// Exclusive (`&mut`) access to a value of this type is the exclusivity
/// the coordinator guarantees; the handle records each claim in its log so
/// the discipline laws can speak of it.
pub struct Transaction {
    /// Every entry currently stored, in insertion order.
    pub entries: Vec<Entry>,
    /// Whether a cached view of schema metadata is present.
    pub cache_present: bool,
    /// When set, the storage layer reports an error on any delete and
    /// changes nothing; this stands for the store's own failure modes.
    pub fault: bool,
    /// The operations performed through this handle, oldest first.
    pub log: Vec<Event>,
}

/// Decides whether two keys' views are the same key.
fn key_eq(a: &Key, b: &Key) -> (r: bool)
    ensures
        r == (a@ == b@),
{
    match (a, b) {
        (
            Key::ScopeDefinition { ns: ans, db: adb, sc: asc },
            Key::ScopeDefinition { ns: bns, db: bdb, sc: bsc },
        ) => *ans == *bns && *adb == *bdb && *asc == *bsc,
        (
            Key::ScopeData { ns: ans, db: adb, sc: asc, rest: arest },
            Key::ScopeData { ns: bns, db: bdb, sc: bsc, rest: brest },
        ) => *ans == *bns && *adb == *bdb && *asc == *bsc && *arest == *brest,
        _ => false,
    }
}

/// Decides whether `k` lies in the data range `rng`.
fn key_in_range(k: &Key, rng: &DataRange) -> (r: bool)
    ensures
        r == k@.in_data_range_of(rng.ns@, rng.db@, rng.sc@),
{
    match k {
        Key::ScopeData { ns, db, sc, rest: _ } => *ns == rng.ns && *db == rng.db && *sc == rng.sc,
        _ => false,
    }
}

impl Transaction {
    /// Claims the transaction handle for the coming mutations. Under
    /// exclusive (`&mut`) access the coordinator's blocking acquisition is
    /// degenerate — no other holder can exist — so the claim only records
    /// the acquisition for the discipline laws; release is the end of the
    /// borrow, on every exit path.
    pub fn lock(&mut self)
        ensures
            final(self).entries == old(self).entries,
            final(self).cache_present == old(self).cache_present,
            final(self).fault == old(self).fault,
            final(self).log@ == old(self).log@.push(Event::LockAcquired),
    {
        self.log.push(Event::LockAcquired);
    }

    /// Drops any cached view of schema metadata, so that later reads
    /// re-fetch. Side effect only; the entries stand untouched.
    pub fn clear_cache(&mut self)
        ensures
            final(self).cache_present == false,
            final(self).entries == old(self).entries,
            final(self).fault == old(self).fault,
            final(self).log@ == old(self).log@.push(Event::CacheCleared),
    {
        self.cache_present = false;
        self.log.push(Event::CacheCleared);
    }

    /// Deletes the entry under `key`. The absence of the key is not an
    /// error: deleting a definition that does not exist succeeds silently.
    /// A storage fault aborts the delete and changes nothing.
    pub fn del(&mut self, key: Key) -> (r: Result<(), Error>)
        ensures
            old(self).fault ==> r is Err && r->Err_0 == Error::Storage && *final(self) == *old(
                self,
            ),
            !old(self).fault ==> r is Ok && final(self).entries@ == key_removed(
                old(self).entries@,
                key@,
            ) && final(self).cache_present == old(self).cache_present && final(self).fault == old(
                self,
            ).fault && final(self).log@ == old(self).log@.push(Event::KeyDeleted),
    {
        if self.fault {
            return Err(Error::Storage);
        }
        let mut kept: Vec<Entry> = Vec::new();
        let mut i: usize = 0;
        while i < self.entries.len()
            invariant
                i <= self.entries.len(),
                *self == *old(self),
                kept@ == key_removed(old(self).entries@.subrange(0, i as int), key@),
            decreases self.entries.len() - i,
        {
            proof {
                assert(old(self).entries@.subrange(0, i as int + 1) =~= old(
                    self,
                ).entries@.subrange(0, i as int).push(old(self).entries@[i as int]));
                lemma_key_removed_push(
                    old(self).entries@.subrange(0, i as int),
                    old(self).entries@[i as int],
                    key@,
                );
            }
            let e = &self.entries[i];
            if !key_eq(&e.key, &key) {
                kept.push(e.clone());
            }
            i = i + 1;
        }
        proof {
            assert(old(self).entries@.subrange(0, old(self).entries@.len() as int) =~= old(
                self,
            ).entries@);
        }
        self.entries = kept;
        self.log.push(Event::KeyDeleted);
        Ok(())
    }

    /// Deletes every entry in the data range `rng`, however many match —
    /// none, one, or many. A storage fault aborts the delete and changes
    /// nothing.
    pub fn delp(&mut self, rng: DataRange) -> (r: Result<(), Error>)
        ensures
            old(self).fault ==> r is Err && r->Err_0 == Error::Storage && *final(self) == *old(
                self,
            ),
            !old(self).fault ==> r is Ok && final(self).entries@ == range_removed(
                old(self).entries@,
                rng.ns@,
                rng.db@,
                rng.sc@,
            ) && final(self).cache_present == old(self).cache_present && final(self).fault == old(
                self,
            ).fault && final(self).log@ == old(self).log@.push(Event::RangeDeleted),
    {
        if self.fault {
            return Err(Error::Storage);
        }
        let mut kept: Vec<Entry> = Vec::new();
        let mut i: usize = 0;
        while i < self.entries.len()
            invariant
                i <= self.entries.len(),
                *self == *old(self),
                kept@ == range_removed(
                    old(self).entries@.subrange(0, i as int),
                    rng.ns@,
                    rng.db@,
                    rng.sc@,
                ),
            decreases self.entries.len() - i,
        {
            proof {
                assert(old(self).entries@.subrange(0, i as int + 1) =~= old(
                    self,
                ).entries@.subrange(0, i as int).push(old(self).entries@[i as int]));
                lemma_range_removed_push(
                    old(self).entries@.subrange(0, i as int),
                    old(self).entries@[i as int],
                    rng.ns@,
                    rng.db@,
                    rng.sc@,
                );
            }
            let e = &self.entries[i];
            if !key_in_range(&e.key, &rng) {
                kept.push(e.clone());
            }
            i = i + 1;
        }
        proof {
            assert(old(self).entries@.subrange(0, old(self).entries@.len() as int) =~= old(
                self,
            ).entries@);
        }
        self.entries = kept;
        self.log.push(Event::RangeDeleted);
        Ok(())
    }
}

} // verus!
