use remove_scope::err::Error;
use remove_scope::iam::Options;
use remove_scope::kvs::{Entry, Event, Key, Transaction};
use remove_scope::parse::scope;
use remove_scope::statement::Value;

fn def_entry(sc: &str) -> Entry {
    Entry {
        key: Key::ScopeDefinition {
            ns: String::from("test"),
            db: String::from("test"),
            sc: String::from(sc),
        },
        value: String::from("DEFINE"),
    }
}

fn data_entry(sc: &str, rest: &str) -> Entry {
    Entry {
        key: Key::ScopeData {
            ns: String::from("test"),
            db: String::from("test"),
            sc: String::from(sc),
            rest: String::from(rest),
        },
        value: String::from("data"),
    }
}

fn options(allowed: bool) -> Options {
    Options { ns: String::from("test"), db: String::from("test"), allowed }
}

fn scope_store(fault: bool) -> Transaction {
    Transaction {
        entries: vec![
            def_entry("user"),
            data_entry("user", "a"),
            data_entry("user", "b"),
            data_entry("user", "c"),
        ],
        cache_present: true,
        fault,
        log: Vec::new(),
    }
}

#[test]
fn authorized_removal_drops_all_four_entries() {
    let (_, stmt) = scope("REMOVE SCOPE user").unwrap();
    let mut txn = scope_store(false);
    let r = stmt.compute(&options(true), &mut txn);
    assert_eq!(r.unwrap(), Value::Nothing);
    assert_eq!(txn.entries, Vec::new());
    assert!(!txn.cache_present);
}

#[test]
fn removal_leaves_other_scopes_untouched() {
    let (_, stmt) = scope("REMOVE SCOPE user").unwrap();
    let mut txn = scope_store(false);
    txn.entries.push(def_entry("admin"));
    txn.entries.push(data_entry("admin", "x"));
    let r = stmt.compute(&options(true), &mut txn);
    assert_eq!(r.unwrap(), Value::Nothing);
    assert_eq!(txn.entries, vec![def_entry("admin"), data_entry("admin", "x")]);
}

#[test]
fn removal_with_no_data_entries_succeeds() {
    let (_, stmt) = scope("REMOVE SCOPE user").unwrap();
    let mut txn = Transaction {
        entries: vec![def_entry("user")],
        cache_present: true,
        fault: false,
        log: Vec::new(),
    };
    let r = stmt.compute(&options(true), &mut txn);
    assert_eq!(r.unwrap(), Value::Nothing);
    assert_eq!(txn.entries, Vec::new());
}

#[test]
fn removal_with_one_data_entry_succeeds() {
    let (_, stmt) = scope("REMOVE SCOPE user").unwrap();
    let mut txn = Transaction {
        entries: vec![def_entry("user"), data_entry("user", "only")],
        cache_present: true,
        fault: false,
        log: Vec::new(),
    };
    let r = stmt.compute(&options(true), &mut txn);
    assert_eq!(r.unwrap(), Value::Nothing);
    assert_eq!(txn.entries, Vec::new());
}

#[test]
fn removal_with_many_data_entries_removes_them_all() {
    let (_, stmt) = scope("REMOVE SCOPE user").unwrap();
    let mut entries = vec![def_entry("user")];
    for i in 0..10 {
        entries.push(data_entry("user", &format!("k{}", i)));
    }
    entries.push(data_entry("other", "kept"));
    let mut txn = Transaction { entries, cache_present: true, fault: false, log: Vec::new() };
    let r = stmt.compute(&options(true), &mut txn);
    assert_eq!(r.unwrap(), Value::Nothing);
    assert_eq!(txn.entries, vec![data_entry("other", "kept")]);
}

#[test]
fn removal_of_missing_definition_succeeds_silently() {
    let (_, stmt) = scope("REMOVE SCOPE user").unwrap();
    let mut txn = Transaction {
        entries: vec![data_entry("user", "orphan")],
        cache_present: true,
        fault: false,
        log: Vec::new(),
    };
    let r = stmt.compute(&options(true), &mut txn);
    assert_eq!(r.unwrap(), Value::Nothing);
    assert_eq!(txn.entries, Vec::new());
}

#[test]
fn removal_is_idempotent() {
    let (_, stmt) = scope("REMOVE SCOPE user").unwrap();
    let opt = options(true);
    let mut txn = scope_store(false);
    assert_eq!(stmt.compute(&opt, &mut txn).unwrap(), Value::Nothing);
    let after_first = txn.entries.clone();
    assert_eq!(stmt.compute(&opt, &mut txn).unwrap(), Value::Nothing);
    assert_eq!(txn.entries, after_first);
    assert_eq!(txn.entries, Vec::new());
}

#[test]
fn denied_removal_returns_authorization_error() {
    let (_, stmt) = scope("REMOVE SCOPE user").unwrap();
    let mut txn = scope_store(false);
    let r = stmt.compute(&options(false), &mut txn);
    assert_eq!(r.unwrap_err(), Error::Authorization);
}

#[test]
fn denied_removal_touches_nothing() {
    let (_, stmt) = scope("REMOVE SCOPE user").unwrap();
    let mut txn = scope_store(false);
    let r = stmt.compute(&options(false), &mut txn);
    assert!(r.is_err());
    assert_eq!(txn.entries, scope_store(false).entries);
    assert!(txn.cache_present);
    assert_eq!(txn.log, Vec::new());
}

#[test]
fn successful_removal_logs_one_locked_section() {
    let (_, stmt) = scope("REMOVE SCOPE user").unwrap();
    let mut txn = scope_store(false);
    stmt.compute(&options(true), &mut txn).unwrap();
    assert_eq!(
        txn.log,
        vec![
            Event::LockAcquired,
            Event::CacheCleared,
            Event::KeyDeleted,
            Event::RangeDeleted,
        ]
    );
}

#[test]
fn cache_clear_comes_once_and_before_the_deletes() {
    let (_, stmt) = scope("REMOVE SCOPE user").unwrap();
    let mut txn = scope_store(false);
    stmt.compute(&options(true), &mut txn).unwrap();
    let clears: Vec<usize> = txn
        .log
        .iter()
        .enumerate()
        .filter(|(_, e)| **e == Event::CacheCleared)
        .map(|(i, _)| i)
        .collect();
    assert_eq!(clears.len(), 1);
    for (i, e) in txn.log.iter().enumerate() {
        if *e == Event::KeyDeleted || *e == Event::RangeDeleted {
            assert!(clears[0] < i);
        }
    }
}

#[test]
fn storage_fault_surfaces_and_keeps_the_entries() {
    let (_, stmt) = scope("REMOVE SCOPE user").unwrap();
    let mut txn = scope_store(true);
    let r = stmt.compute(&options(true), &mut txn);
    assert_eq!(r.unwrap_err(), Error::Storage);
    assert_eq!(txn.entries, scope_store(true).entries);
    assert!(!txn.cache_present);
    assert_eq!(txn.log, vec![Event::LockAcquired, Event::CacheCleared]);
}
