use entity::{
    db, destroy_db, has_db, set_db, set_db_from_box, set_db_from_rc, Database, DatabaseRc,
    DatabaseResult, Ent, Id, Query, Registry, WeakDatabaseRc,
};
use std::sync::Arc;

/// A backend that is only ever registered, never asked for records.
struct TestDatabase;

impl Database for TestDatabase {
    fn get(&self, _id: Id) -> DatabaseResult<Option<Box<dyn Ent>>> {
        panic!("not used")
    }

    fn remove(&self, _id: Id) -> DatabaseResult<bool> {
        panic!("not used")
    }

    fn insert(&self, _ent: Box<dyn Ent>) -> DatabaseResult<Id> {
        panic!("not used")
    }

    fn get_all(&self, _ids: Vec<Id>) -> DatabaseResult<Vec<Box<dyn Ent>>> {
        panic!("not used")
    }

    fn find_all(&self, _query: Query) -> DatabaseResult<Vec<Box<dyn Ent>>> {
        panic!("not used")
    }
}

#[test]
fn test_runner() {
    // db should return an empty weak handle if no database is set
    let registry = Registry::new();
    assert!(
        WeakDatabaseRc::ptr_eq(&db(&registry), &WeakDatabaseRc::new()),
        "Returned weak reference unexpectedly pointing to database"
    );

    // db should return a weak handle on the active database if one is set
    let mut registry = Registry::new();
    set_db(&mut registry, TestDatabase);
    assert!(
        !WeakDatabaseRc::ptr_eq(&db(&registry), &WeakDatabaseRc::new()),
        "Returned weak reference not pointing to database"
    );

    // set_db should update the registry with the given instance
    let mut registry = Registry::new();
    assert!(
        !WeakDatabaseRc::ptr_eq(&set_db(&mut registry, TestDatabase), &WeakDatabaseRc::new()),
        "Returned weak reference not pointing to database"
    );
    assert!(has_db(&registry));

    // set_db_from_box should update the registry with the given instance
    let mut registry = Registry::new();
    assert!(
        !WeakDatabaseRc::ptr_eq(
            &set_db_from_box(&mut registry, Box::new(TestDatabase)),
            &WeakDatabaseRc::new()
        ),
        "Returned weak reference not pointing to database"
    );
    assert!(has_db(&registry));

    // set_db_from_rc should update the registry with the given instance
    let mut registry = Registry::new();
    let rc: DatabaseRc = Arc::new(Box::new(TestDatabase));
    assert!(
        !WeakDatabaseRc::ptr_eq(&set_db_from_rc(&mut registry, rc), &WeakDatabaseRc::new()),
        "Returned weak reference not pointing to database"
    );
    assert!(has_db(&registry));

    // has_db should return false if no database is set
    let registry = Registry::new();
    assert!(!has_db(&registry), "Unexpectedly reported having database");

    // has_db should return false once the database is destroyed
    let mut registry = Registry::new();
    set_db_from_rc(&mut registry, Arc::new(Box::new(TestDatabase)));
    destroy_db(&mut registry);
    assert!(!has_db(&registry), "Unexpectedly reported having database");

    // has_db should return true if a database is set
    let mut registry = Registry::new();
    set_db(&mut registry, TestDatabase);
    assert!(has_db(&registry), "Unexpectedly reported NOT having database");

    // destroy_db should remove the database if one is set
    let mut registry = Registry::new();
    set_db_from_rc(&mut registry, Arc::new(Box::new(TestDatabase)));
    destroy_db(&mut registry);
    assert!(!has_db(&registry), "Database was not destroyed");

    // destroy_db should do nothing if no database is set
    let mut registry = Registry::new();
    destroy_db(&mut registry);
    assert!(!has_db(&registry), "Database was not destroyed");
}

#[test]
fn registered_tracks_latest_register_or_unregister() {
    let mut registry = Registry::new();
    assert!(!has_db(&registry));
    set_db(&mut registry, TestDatabase);
    assert!(has_db(&registry));
    let _ = db(&registry);
    assert!(has_db(&registry));
    destroy_db(&mut registry);
    assert!(!has_db(&registry));
    set_db_from_box(&mut registry, Box::new(TestDatabase));
    set_db(&mut registry, TestDatabase);
    assert!(has_db(&registry));
    destroy_db(&mut registry);
    let _ = db(&registry);
    assert!(!has_db(&registry));
}

#[test]
fn unregister_orphans_every_handle() {
    let mut registry = Registry::new();
    let first = set_db(&mut registry, TestDatabase);
    let again = db(&registry);
    assert!(WeakDatabaseRc::ptr_eq(&first, &again));
    assert!(registry.resolve(&first).is_some());
    destroy_db(&mut registry);
    assert!(registry.resolve(&first).is_none());
    assert!(registry.resolve(&again).is_none());
    assert!(registry.resolve(&db(&registry)).is_none());
    assert!(WeakDatabaseRc::ptr_eq(&db(&registry), &WeakDatabaseRc::new()));
}

#[test]
fn register_replaces_and_orphans_old_handle() {
    let mut registry = Registry::new();
    let a: DatabaseRc = Arc::new(Box::new(TestDatabase));
    let b: DatabaseRc = Arc::new(Box::new(TestDatabase));
    let handle_a = set_db_from_rc(&mut registry, a.clone());
    let resolved_a = registry.resolve(&handle_a).unwrap();
    assert!(Arc::ptr_eq(&resolved_a, &a));
    drop(resolved_a);
    set_db_from_rc(&mut registry, b.clone());
    assert!(registry.resolve(&handle_a).is_none());
    let handle_b = db(&registry);
    assert!(!WeakDatabaseRc::ptr_eq(&handle_a, &handle_b));
    let resolved_b = registry.resolve(&handle_b).unwrap();
    assert!(Arc::ptr_eq(&resolved_b, &b));
    drop(resolved_b);
    // the registry dropped its handle on `a`: only the test's own is left
    assert_eq!(Arc::strong_count(&a), 1);
    assert_eq!(Arc::strong_count(&b), 2);
}

#[test]
fn unregister_twice_is_unregister_once() {
    let mut registry = Registry::new();
    destroy_db(&mut registry);
    assert!(!has_db(&registry));
    assert!(registry.can_register());
    let handle = set_db(&mut registry, TestDatabase);
    destroy_db(&mut registry);
    destroy_db(&mut registry);
    assert!(!has_db(&registry));
    assert!(registry.resolve(&handle).is_none());
    assert!(WeakDatabaseRc::ptr_eq(&db(&registry), &WeakDatabaseRc::new()));
}

#[test]
fn never_resolving_handles_are_equal() {
    let registry = Registry::new();
    assert!(WeakDatabaseRc::ptr_eq(&WeakDatabaseRc::new(), &WeakDatabaseRc::new()));
    assert!(registry.resolve(&WeakDatabaseRc::new()).is_none());
}
