use chore_server::store::{RepoError, Store};
use chore_server::update::UpdateUser;
use chore_server::user::User;

#[test]
fn insert_assigns_positive_ids_in_order() {
    let mut db = Store::new();
    let a = User::new("Ann", None).insert(&mut db).unwrap();
    let b = User::new("Ben", None).insert(&mut db).unwrap();
    assert!(a.id > 0);
    assert!(b.id > 0);
    assert_ne!(a.id, b.id);
    assert_eq!(a.id, 1);
    assert_eq!(b.id, 2);
}

#[test]
fn round_trip_alice() {
    let mut db = Store::new();
    let ret = User::new("Alice", None).insert(&mut db).unwrap();
    let fetched = User::get_by_id(&db, ret.id).unwrap();
    assert_eq!(fetched.name, "Alice");
    assert_eq!(fetched.discord_tag, None);
    assert_eq!(fetched.id, ret.id);
}

#[test]
fn get_by_id_missing_is_not_found() {
    let db = Store::new();
    assert!(matches!(User::get_by_id(&db, 7), Err(RepoError::NotFound)));
}

#[test]
fn get_by_name_returns_all_matches_in_order() {
    let mut db = Store::new();
    let first = User::new("Sam", Some("sam#1".to_string())).insert(&mut db).unwrap();
    User::new("Other", None).insert(&mut db).unwrap();
    let second = User::new("Sam", Some("sam#2".to_string())).insert(&mut db).unwrap();
    let found = User::get_by_name(&db, "Sam");
    assert_eq!(found.len(), 2);
    assert_eq!(found[0].id, first.id);
    assert_eq!(found[0].discord_tag.as_deref(), Some("sam#1"));
    assert_eq!(found[1].id, second.id);
    assert_eq!(found[1].discord_tag.as_deref(), Some("sam#2"));
}

#[test]
fn get_by_name_no_match_is_empty_not_error() {
    let db = Store::new();
    let found = User::get_by_name(&db, "Nobody");
    assert!(found.is_empty());
}

#[test]
fn noop_update_succeeds_and_changes_nothing() {
    let mut db = Store::new();
    let u = User::new("Kim", Some("kim#9".to_string())).insert(&mut db).unwrap();
    let req = UpdateUser {
        id: u.id,
        name: Some("Kim".to_string()),
        discord_tag: Some("kim#9".to_string()),
    };
    let current = User::get_by_id(&db, u.id).unwrap();
    assert!(current.update(&mut db, req).is_ok());
    let after = User::get_by_id(&db, u.id).unwrap();
    assert_eq!(after.name, "Kim");
    assert_eq!(after.discord_tag.as_deref(), Some("kim#9"));
}

#[test]
fn update_name_only_keeps_tag() {
    let mut db = Store::new();
    let u = User::new("Kim", Some("kim#9".to_string())).insert(&mut db).unwrap();
    let req = UpdateUser { id: u.id, name: Some("Kima".to_string()), discord_tag: None };
    let current = User::get_by_id(&db, u.id).unwrap();
    assert!(current.update(&mut db, req).is_ok());
    let after = User::get_by_id(&db, u.id).unwrap();
    assert_eq!(after.name, "Kima");
    assert_eq!(after.discord_tag.as_deref(), Some("kim#9"));
}

#[test]
fn update_tag_only_keeps_name() {
    let mut db = Store::new();
    let u = User::new("Kim", Some("kim#9".to_string())).insert(&mut db).unwrap();
    let req = UpdateUser { id: u.id, name: None, discord_tag: Some("kim#10".to_string()) };
    let current = User::get_by_id(&db, u.id).unwrap();
    assert!(current.update(&mut db, req).is_ok());
    let after = User::get_by_id(&db, u.id).unwrap();
    assert_eq!(after.name, "Kim");
    assert_eq!(after.discord_tag.as_deref(), Some("kim#10"));
}

#[test]
fn update_can_set_tag_where_none_was_stored() {
    let mut db = Store::new();
    let u = User::new("Lee", None).insert(&mut db).unwrap();
    let req = UpdateUser { id: u.id, name: None, discord_tag: Some("lee#1".to_string()) };
    let current = User::get_by_id(&db, u.id).unwrap();
    assert!(current.update(&mut db, req).is_ok());
    let after = User::get_by_id(&db, u.id).unwrap();
    assert_eq!(after.discord_tag.as_deref(), Some("lee#1"));
}

#[test]
fn update_missing_row_is_not_found() {
    let mut db = Store::new();
    let u = User::new("Gone", None).insert(&mut db).unwrap();
    let current = User::get_by_id(&db, u.id).unwrap();
    User::get_by_id(&db, u.id).unwrap().delete(&mut db).unwrap();
    let req = UpdateUser { id: u.id, name: Some("Still".to_string()), discord_tag: None };
    assert!(matches!(current.update(&mut db, req), Err(RepoError::NotFound)));
}

#[test]
fn bob_scenario_insert_noop_update_then_tag_change() {
    let mut db = Store::new();
    let bob = User::new("Bob", Some("bob#1234".to_string())).insert(&mut db).unwrap();
    assert!(bob.id > 0);

    // Identical values: no row is touched.
    let req = UpdateUser {
        id: bob.id,
        name: Some("Bob".to_string()),
        discord_tag: Some("bob#1234".to_string()),
    };
    let current = User::get_by_id(&db, bob.id).unwrap();
    assert!(current.update(&mut db, req).is_ok());
    let mid = User::get_by_id(&db, bob.id).unwrap();
    assert_eq!(mid.name, "Bob");
    assert_eq!(mid.discord_tag.as_deref(), Some("bob#1234"));

    // Name omitted: only the tag moves.
    let req2 = UpdateUser { id: bob.id, name: None, discord_tag: Some("new#0001".to_string()) };
    let current2 = User::get_by_id(&db, bob.id).unwrap();
    assert!(current2.update(&mut db, req2).is_ok());
    let after = User::get_by_id(&db, bob.id).unwrap();
    assert_eq!(after.name, "Bob");
    assert_eq!(after.discord_tag.as_deref(), Some("new#0001"));
}

#[test]
fn delete_removes_only_the_person_row() {
    let mut db = Store::new();
    let a = User::new("Ann", None).insert(&mut db).unwrap();
    let b = User::new("Ben", None).insert(&mut db).unwrap();
    db.add_chore_ref(a.id, 10).unwrap();
    let a_again = User::get_by_id(&db, a.id).unwrap();
    assert!(a_again.delete(&mut db).is_ok());
    assert!(matches!(User::get_by_id(&db, a.id), Err(RepoError::NotFound)));
    assert!(User::get_by_id(&db, b.id).is_ok());
}

#[test]
fn delete_ref_cascades_over_join_rows() {
    let mut db = Store::new();
    let a = User::new("Ann", None).insert(&mut db).unwrap();
    let b = User::new("Ben", None).insert(&mut db).unwrap();
    db.add_chore_ref(a.id, 10).unwrap();
    db.add_chore_ref(b.id, 10).unwrap();
    db.add_chore_ref(a.id, 11).unwrap();

    assert!(a.delete_ref(&mut db).is_ok());

    // The person is gone and no join row references it any more.
    assert!(matches!(User::get_by_id(&db, a.id), Err(RepoError::NotFound)));
    // Ben and Ben's join rows survive.
    let ben = User::get_by_id(&db, b.id).unwrap();
    assert_eq!(ben.name, "Ben");
    assert!(matches!(db.add_chore_ref(a.id, 12), Err(RepoError::NotFound)));
}

#[test]
fn delete_missing_row_is_not_found() {
    let mut db = Store::new();
    let ghost_user = User::new("Never", None);
    assert!(matches!(ghost_user.delete_ref(&mut db), Err(RepoError::NotFound)));
    assert!(matches!(ghost_user.delete(&mut db), Err(RepoError::NotFound)));
}

#[test]
fn add_chore_ref_requires_existing_person() {
    let mut db = Store::new();
    assert!(matches!(db.add_chore_ref(5, 1), Err(RepoError::NotFound)));
    let a = User::new("Ann", None).insert(&mut db).unwrap();
    assert!(db.add_chore_ref(a.id, 1).is_ok());
}

#[test]
fn exhausted_id_space_is_a_persistence_error() {
    let mut db = Store::with_next_id(i64::MAX);
    let r = User::new("Late", None).insert(&mut db);
    assert!(matches!(r, Err(RepoError::Persistence)));
    // Nothing was written.
    assert!(User::get_by_name(&db, "Late").is_empty());
}

#[test]
fn last_free_id_still_inserts() {
    let mut db = Store::with_next_id(i64::MAX - 1);
    let u = User::new("Last", None).insert(&mut db).unwrap();
    assert_eq!(u.id, i64::MAX - 1);
    assert_eq!(User::get_by_id(&db, u.id).unwrap().name, "Last");
}

#[test]
fn new_user_is_transient() {
    let u = User::new("Pat", Some("pat#7".to_string()));
    assert_eq!(u.id, 0);
    assert_eq!(u.name, "Pat");
    assert_eq!(u.discord_tag.as_deref(), Some("pat#7"));
}
