use chore_server::update::{build_update, SetClause, UpdateUser};
use chore_server::user::User;

fn kim() -> User {
    let mut u = User::new("Kim", Some("kim#9".to_string()));
    u.id = 3;
    u
}

#[test]
fn both_fields_absent_builds_nothing() {
    let req = UpdateUser { id: 3, name: None, discord_tag: None };
    assert!(build_update(&kim(), req).is_none());
}

#[test]
fn identical_values_build_nothing() {
    let req = UpdateUser {
        id: 3,
        name: Some("Kim".to_string()),
        discord_tag: Some("kim#9".to_string()),
    };
    assert!(build_update(&kim(), req).is_none());
}

#[test]
fn changed_name_alone_builds_one_clause() {
    let req = UpdateUser { id: 3, name: Some("Kima".to_string()), discord_tag: None };
    let plan = build_update(&kim(), req).unwrap();
    assert_eq!(plan.id, 3);
    assert_eq!(plan.clauses.len(), 1);
    assert!(matches!(&plan.clauses[0], SetClause::Name(s) if s == "Kima"));
}

#[test]
fn changed_tag_alone_builds_one_clause() {
    let req = UpdateUser { id: 3, name: None, discord_tag: Some("kim#10".to_string()) };
    let plan = build_update(&kim(), req).unwrap();
    assert_eq!(plan.clauses.len(), 1);
    assert!(matches!(&plan.clauses[0], SetClause::DiscordTag(s) if s == "kim#10"));
}

#[test]
fn both_changed_builds_name_before_tag() {
    let req = UpdateUser {
        id: 3,
        name: Some("Kima".to_string()),
        discord_tag: Some("kim#10".to_string()),
    };
    let plan = build_update(&kim(), req).unwrap();
    assert_eq!(plan.clauses.len(), 2);
    assert!(matches!(&plan.clauses[0], SetClause::Name(s) if s == "Kima"));
    assert!(matches!(&plan.clauses[1], SetClause::DiscordTag(s) if s == "kim#10"));
}

#[test]
fn unchanged_name_with_changed_tag_builds_only_tag() {
    let req = UpdateUser {
        id: 3,
        name: Some("Kim".to_string()),
        discord_tag: Some("kim#10".to_string()),
    };
    let plan = build_update(&kim(), req).unwrap();
    assert_eq!(plan.clauses.len(), 1);
    assert!(matches!(&plan.clauses[0], SetClause::DiscordTag(s) if s == "kim#10"));
}

#[test]
fn requested_tag_over_stored_none_is_a_write() {
    let mut lee = User::new("Lee", None);
    lee.id = 4;
    let req = UpdateUser { id: 4, name: None, discord_tag: Some("lee#1".to_string()) };
    let plan = build_update(&lee, req).unwrap();
    assert_eq!(plan.clauses.len(), 1);
    assert!(matches!(&plan.clauses[0], SetClause::DiscordTag(s) if s == "lee#1"));
}
