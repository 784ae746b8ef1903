//! The person entity and the data-model-only chore and assignment records.

use vstd::prelude::*;

verus! {

/// A person record. A value with `id == 0` is transient (not yet persisted);
/// the store assigns a positive identifier on insert.
pub struct User {
    pub id: i64,
    pub name: String,
    pub discord_tag: Option<String>,
}

/// Equality of two optional tags, compared by their character sequences.
pub open spec fn opt_tag_eq(a: Option<String>, b: Option<String>) -> bool {
    match (a, b) {
        (Some(x), Some(y)) => x@ == y@,
        (None, None) => true,
        _ => false,
    }
}

/// Two person values carry the same data: same id, same name, same tag.
pub open spec fn user_like(a: User, b: User) -> bool {
    a.id == b.id && a.name@ == b.name@ && opt_tag_eq(a.discord_tag, b.discord_tag)
}

impl User {
    /// Builds a transient person: not yet persisted, so its id is zero.
    pub fn new(name: &str, discord_tag: Option<String>) -> (u: Self)
        ensures
            u.id == 0,
            u.name@ == name@,
            u.discord_tag == discord_tag,
    {
        Self { id: 0, name: name.to_owned(), discord_tag }
    }
}

/// A chore record; data-model only, no operations in this core.
#[allow(dead_code)]
pub struct Chore {
    id: i32,
    pub name: String,
    pub desc: String,
    pub frequency: i32,
    pub discord_channel: String,
}

/// An assignment of a chore to a person; data-model only, no operations in
/// this core.
#[allow(dead_code)]
pub struct Assignment {
    id: i32,
    chore_id: i32,
    person_id: i32,
    pub assignment_date: i32,
    pub reminder_date: i32,
    pub completion_date: i32,
    completed_person: i32,
}

} // verus!
