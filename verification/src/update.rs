//! The partial-update builder: from a current person snapshot and an update
//! request, the ordered list of set-clauses that a single UPDATE statement
//! should carry, with no-op requests producing no statement at all.

use vstd::prelude::*;

use crate::user::User;

verus! {

/// The body of a request that creates a person.
pub struct NewUser {
    pub name: String,
    pub discord_tag: Option<String>,
}

/// The body of a request that partially updates a person: absent fields are
/// left untouched.
pub struct UpdateUser {
    pub id: i64,
    pub name: Option<String>,
    pub discord_tag: Option<String>,
}

/// One assignment of the generated UPDATE statement.
pub enum SetClause {
    Name(String),
    DiscordTag(String),
}

/// A planned UPDATE statement: the ordered set-clauses and the id bound in
/// the WHERE predicate. The clause list is never empty; a plan is only made
/// when at least one field actually changes.
pub struct UpdatePlan {
    pub clauses: Vec<SetClause>,
    pub id: i64,
}

/// The request carries a name that differs from the current one.
pub open spec fn name_clause_needed(current: User, req: UpdateUser) -> bool {
    match req.name {
        Some(n) => n@ != current.name@,
        None => false,
    }
}

/// The request carries a tag that is not already the stored value. Any
/// requested tag other than the identical stored `Some` value is written:
/// presence alone is not enough, the values are compared.
pub open spec fn tag_clause_needed(current: User, req: UpdateUser) -> bool {
    match req.discord_tag {
        Some(d) => !(current.discord_tag matches Some(t) && t@ == d@),
        None => false,
    }
}

/// The request changes nothing: every field is absent or equal to the
/// current value, so no statement is issued.
pub open spec fn plan_is_noop(current: User, req: UpdateUser) -> bool {
    !name_clause_needed(current, req) && !tag_clause_needed(current, req)
}

pub open spec fn clause_sets_name(c: SetClause, v: Seq<char>) -> bool {
    c matches SetClause::Name(s) && s@ == v
}

pub open spec fn clause_sets_tag(c: SetClause, v: Seq<char>) -> bool {
    c matches SetClause::DiscordTag(s) && s@ == v
}

/// The clause list a plan must hold for `(current, req)`: the changed fields
/// only, name before discord_tag, regardless of request shape.
pub open spec fn plan_clauses_ok(cs: Seq<SetClause>, current: User, req: UpdateUser) -> bool {
    if name_clause_needed(current, req) && tag_clause_needed(current, req) {
        &&& cs.len() == 2
        &&& clause_sets_name(cs[0], req.name->Some_0@)
        &&& clause_sets_tag(cs[1], req.discord_tag->Some_0@)
    } else if name_clause_needed(current, req) {
        cs.len() == 1 && clause_sets_name(cs[0], req.name->Some_0@)
    } else if tag_clause_needed(current, req) {
        cs.len() == 1 && clause_sets_tag(cs[0], req.discord_tag->Some_0@)
    } else {
        false
    }
}

/// Builds the partial-update plan: `None` exactly when the request is a
/// no-op (nothing requested, or everything requested equals the snapshot),
/// otherwise the ordered clauses for the fields that really change.
pub fn build_update(current: &User, req: UpdateUser) -> (r: Option<UpdatePlan>)
    ensures
        r is None <==> plan_is_noop(*current, req),
        r matches Some(p) ==> p.id == req.id && plan_clauses_ok(p.clauses@, *current, req),
{
    let UpdateUser { id, name, discord_tag } = req;

    let mut clauses: Vec<SetClause> = Vec::new();

    if let Some(n) = name {
        if !str_eq(n.as_str(), current.name.as_str()) {
            clauses.push(SetClause::Name(n));
        }
    }
    if let Some(d) = discord_tag {
        let stored_same = match &current.discord_tag {
            Some(t) => str_eq(t.as_str(), d.as_str()),
            None => false,
        };
        if !stored_same {
            clauses.push(SetClause::DiscordTag(d));
        }
    }

    if clauses.len() == 0 {
        None
    } else {
        Some(UpdatePlan { clauses, id })
    }
}

/// Character-by-character string equality, so that the result is pinned to
/// the views.
pub fn str_eq(a: &str, b: &str) -> (r: bool)
    ensures
        r <==> a@ == b@,
{
    let an = a.unicode_len();
    let bn = b.unicode_len();
    if an != bn {
        assert(a@ != b@);
        return false;
    }
    let mut i: usize = 0;
    while i < an
        invariant
            an == a@.len(),
            bn == b@.len(),
            an == bn,
            i <= an,
            forall|k: int| 0 <= k < i ==> a@[k] == b@[k],
        decreases an - i,
    {
        if a.get_char(i) != b.get_char(i) {
            assert(a@ != b@);
            return false;
        }
        i += 1;
    }
    assert(a@ =~= b@);
    true
}

/// *Law: a no-op update issues no statement.* A request whose fields are all
/// either absent or equal to the current snapshot needs neither clause, so
/// the builder returns `None` and zero store writes occur.
pub proof fn lemma_noop_update_builds_nothing(current: User, req: UpdateUser)
    requires
        req.name matches Some(n) ==> n@ == current.name@,
        req.discord_tag matches Some(d) ==> (current.discord_tag matches Some(t) && t@ == d@),
    ensures
        plan_is_noop(current, req),
{
}

/// *Law: field isolation, name side.* A request that omits `name` never
/// produces a name clause, whatever it does to the tag.
pub proof fn lemma_update_without_name_keeps_name(cs: Seq<SetClause>, current: User, req: UpdateUser)
    requires
        req.name is None,
        plan_clauses_ok(cs, current, req),
    ensures
        forall|k: int| 0 <= k < cs.len() ==> !(#[trigger] cs[k] matches SetClause::Name(_)),
{
}

/// *Law: field isolation, tag side.* A request that omits `discord_tag`
/// never produces a tag clause, whatever it does to the name.
pub proof fn lemma_update_without_tag_keeps_tag(cs: Seq<SetClause>, current: User, req: UpdateUser)
    requires
        req.discord_tag is None,
        plan_clauses_ok(cs, current, req),
    ensures
        forall|k: int| 0 <= k < cs.len() ==> !(#[trigger] cs[k] matches SetClause::DiscordTag(_)),
{
}

} // verus!
