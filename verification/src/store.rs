//! A verified model of the relational store: the person table, the
//! chore-person join table and the auto-increment counter, with the
//! repository operations stated and proved against it. The server executes
//! the same operations against its database; this model is what their
//! contracts mean.

use vstd::prelude::*;

use crate::update::{
    build_update, name_clause_needed, plan_is_noop, tag_clause_needed, SetClause, UpdatePlan,
    UpdateUser,
};
use crate::user::{opt_tag_eq, user_like, User};

verus! {

/// A failure of a repository operation.
#[derive(Clone, Copy, PartialEq, Eq, Structural, Debug)]
pub enum RepoError {
    /// The requested id has no matching row.
    NotFound,
    /// The store refused the write (identifier space exhausted stands in for
    /// constraint violations and connectivity loss).
    Persistence,
}

/// One row of the chore-person join table.
#[derive(Clone, Copy, PartialEq, Eq, Structural, Debug)]
pub struct ChoreRef {
    pub person_id: i64,
    pub chore_id: i64,
}

/// The store: a person table, the join rows that reference it, and the
/// counter from which insert draws fresh identifiers.
pub struct Store {
    person_rows: Vec<User>,
    chore_person_rows: Vec<ChoreRef>,
    next_id: i64,
}

impl Store {
    /// The person table, in insertion order.
    pub closed spec fn persons(self) -> Seq<User> {
        self.person_rows@
    }

    /// The join-table rows, in insertion order.
    pub closed spec fn refs(self) -> Seq<ChoreRef> {
        self.chore_person_rows@
    }

    /// The identifier the next successful insert will assign.
    pub closed spec fn fresh_id(self) -> i64 {
        self.next_id
    }

    /// Well-formedness: ids are positive, unique, and below the counter.
    pub open spec fn wf(self) -> bool {
        &&& 1 <= self.fresh_id()
        &&& forall|i: int, j: int|
            0 <= i < j < self.persons().len() ==> self.persons()[i].id != self.persons()[j].id
        &&& forall|i: int|
            0 <= i < self.persons().len() ==> 0 < (#[trigger] self.persons()[i]).id
                < self.fresh_id()
    }

    /// An empty store, as a fresh database presents itself after migration.
    pub fn new() -> (s: Store)
        ensures
            s.wf(),
            s.persons() =~= Seq::<User>::empty(),
            s.refs() =~= Seq::<ChoreRef>::empty(),
            s.fresh_id() == 1,
    {
        Store { person_rows: Vec::new(), chore_person_rows: Vec::new(), next_id: 1 }
    }

    /// An empty store whose counter already stands at `next_id`, as a
    /// database does after earlier inserts and deletes.
    pub fn with_next_id(next_id: i64) -> (s: Store)
        requires
            1 <= next_id,
        ensures
            s.wf(),
            s.persons() =~= Seq::<User>::empty(),
            s.refs() =~= Seq::<ChoreRef>::empty(),
            s.fresh_id() == next_id,
    {
        Store { person_rows: Vec::new(), chore_person_rows: Vec::new(), next_id }
    }

    /// Records a join-table row for an existing person. The person must
    /// already be in the store; chores are data-model-only here, so the
    /// chore side carries no such check.
    pub fn add_chore_ref(&mut self, person_id: i64, chore_id: i64) -> (r: Result<(), RepoError>)
        requires
            old(self).wf(),
        ensures
            final(self).wf(),
            add_chore_ref_post(*old(self), *final(self), person_id, chore_id, r),
    {
        match find_person(self, person_id) {
            Some(_) => {
                self.chore_person_rows.push(ChoreRef { person_id, chore_id });
                Ok(())
            },
            None => Err(RepoError::NotFound),
        }
    }
}

/// No table and no counter changed.
pub open spec fn store_unchanged(pre: Store, post: Store) -> bool {
    &&& post.persons() == pre.persons()
    &&& post.refs() == pre.refs()
    &&& post.fresh_id() == pre.fresh_id()
}

/// There is a person row carrying `id`.
pub open spec fn has_person(s: Store, id: i64) -> bool {
    exists|i: int| 0 <= i < s.persons().len() && (#[trigger] s.persons()[i]).id == id
}

/// The rows of `rows` whose name reads `name`, in order.
pub open spec fn matches_in(rows: Seq<User>, name: Seq<char>) -> Seq<User> {
    rows.filter(|u: User| u.name@ == name)
}

/// The rows of `rs` that do not reference person `id`, in order.
pub open spec fn refs_not_of(rs: Seq<ChoreRef>, id: i64) -> Seq<ChoreRef> {
    rs.filter(|c: ChoreRef| c.person_id != id)
}

/// What `add_chore_ref` leaves behind: success exactly when the person
/// exists, and then one more join row and nothing else.
pub open spec fn add_chore_ref_post(
    pre: Store,
    post: Store,
    person_id: i64,
    chore_id: i64,
    r: Result<(), RepoError>,
) -> bool {
    &&& (r is Ok <==> has_person(pre, person_id))
    &&& r is Ok ==> post.persons() == pre.persons() && post.fresh_id() == pre.fresh_id()
        && post.refs() == pre.refs().push(ChoreRef { person_id, chore_id })
    &&& r matches Err(e) ==> e == RepoError::NotFound && store_unchanged(pre, post)
}

/// What `insert` leaves behind: success exactly while identifiers remain,
/// and then the returned person carries the fresh positive id and the input
/// data, and stands appended to the table.
pub open spec fn insert_post(
    pre: Store,
    post: Store,
    transient: User,
    r: Result<User, RepoError>,
) -> bool {
    &&& (r is Ok <==> pre.fresh_id() < i64::MAX)
    &&& match r {
        Ok(ret) => {
            &&& ret.id == pre.fresh_id()
            &&& ret.id > 0
            &&& ret.name@ == transient.name@
            &&& opt_tag_eq(ret.discord_tag, transient.discord_tag)
            &&& post.persons().len() == pre.persons().len() + 1
            &&& forall|i: int|
                0 <= i < pre.persons().len() ==> post.persons()[i] == pre.persons()[i]
            &&& user_like(post.persons().last(), ret)
            &&& post.persons().last().id == ret.id
            &&& post.refs() == pre.refs()
            &&& post.fresh_id() == pre.fresh_id() + 1
        },
        Err(e) => e == RepoError::Persistence && store_unchanged(pre, post),
    }
}

/// What `get_by_id` returns: the unique row carrying `id`, or `NotFound`
/// exactly when there is none.
pub open spec fn get_by_id_post(s: Store, id: i64, r: Result<User, RepoError>) -> bool {
    &&& (r is Ok <==> has_person(s, id))
    &&& match r {
        Ok(u) => u.id == id && exists|i: int|
            0 <= i < s.persons().len() && (#[trigger] s.persons()[i]).id == id && user_like(
                u,
                s.persons()[i],
            ),
        Err(e) => e == RepoError::NotFound,
    }
}

/// What `get_by_name` returns: every row whose name matches, in table
/// order, and an empty list (not an error) when none does.
pub open spec fn get_by_name_post(s: Store, name: Seq<char>, out: Seq<User>) -> bool {
    &&& out.len() == matches_in(s.persons(), name).len()
    &&& forall|i: int|
        0 <= i < out.len() ==> user_like(#[trigger] out[i], matches_in(s.persons(), name)[i])
}

/// How the row targeted by a partial update changes: fields with a clause
/// take the requested value, the rest keep theirs, and the id never moves.
pub open spec fn updated_row(oldrow: User, newrow: User, current: User, req: UpdateUser) -> bool {
    &&& newrow.id == oldrow.id
    &&& if name_clause_needed(current, req) {
        newrow.name@ == req.name->Some_0@
    } else {
        newrow.name@ == oldrow.name@
    }
    &&& if tag_clause_needed(current, req) {
        newrow.discord_tag matches Some(t) && t@ == req.discord_tag->Some_0@
    } else {
        opt_tag_eq(newrow.discord_tag, oldrow.discord_tag)
    }
}

/// What `update` leaves behind: a no-op request writes nothing and
/// succeeds; otherwise the one row carrying `req.id` changes as
/// `updated_row` says and every other row stays, or `NotFound` when that
/// row is gone.
pub open spec fn update_post(
    pre: Store,
    post: Store,
    current: User,
    req: UpdateUser,
    r: Result<(), RepoError>,
) -> bool {
    if plan_is_noop(current, req) {
        store_unchanged(pre, post) && r is Ok
    } else {
        &&& (r is Ok <==> has_person(pre, req.id))
        &&& r is Ok ==> {
            &&& post.persons().len() == pre.persons().len()
            &&& exists|i: int|
                0 <= i < pre.persons().len() && (#[trigger] pre.persons()[i]).id == req.id
                    && updated_row(pre.persons()[i], post.persons()[i], current, req) && forall|
                    j: int,
                |
                    0 <= j < pre.persons().len() && j != i ==> post.persons()[j]
                        == pre.persons()[j]
            &&& post.refs() == pre.refs()
            &&& post.fresh_id() == pre.fresh_id()
        }
        &&& r matches Err(e) ==> e == RepoError::NotFound && store_unchanged(pre, post)
    }
}

/// What `delete` leaves behind: the row carrying `id` is gone, the rest
/// keep their order, join rows are untouched, or `NotFound` when the row
/// never was there.
pub open spec fn delete_post(pre: Store, post: Store, id: i64, r: Result<(), RepoError>) -> bool {
    &&& (r is Ok <==> has_person(pre, id))
    &&& r is Ok ==> exists|i: int|
        0 <= i < pre.persons().len() && (#[trigger] pre.persons()[i]).id == id && post.persons()
            == pre.persons().remove(i)
    &&& r is Ok ==> post.refs() == pre.refs() && post.fresh_id() == pre.fresh_id()
    &&& r matches Err(e) ==> e == RepoError::NotFound && store_unchanged(pre, post)
}

/// What `delete_ref` leaves behind: as `delete`, and in the same step every
/// join row referencing the person is gone — the two removals are one
/// logical cascade, never observable half-done.
pub open spec fn delete_cascade_post(
    pre: Store,
    post: Store,
    id: i64,
    r: Result<(), RepoError>,
) -> bool {
    &&& (r is Ok <==> has_person(pre, id))
    &&& r is Ok ==> exists|i: int|
        0 <= i < pre.persons().len() && (#[trigger] pre.persons()[i]).id == id && post.persons()
            == pre.persons().remove(i)
    &&& r is Ok ==> post.refs() == refs_not_of(pre.refs(), id) && post.fresh_id() == pre.fresh_id()
    &&& r matches Err(e) ==> e == RepoError::NotFound && store_unchanged(pre, post)
}

/// A fresh person value with the same data.
fn copy_user(u: &User) -> (r: User)
    ensures
        user_like(r, *u),
{
    let discord_tag = match &u.discord_tag {
        Some(t) => Some(t.clone()),
        None => None,
    };
    User { id: u.id, name: u.name.clone(), discord_tag }
}

/// Applies one set-clause to a row, leaving the other field and the id as
/// they were.
fn apply_clause(row: &mut User, c: SetClause)
    ensures
        final(row).id == old(row).id,
        match c {
            SetClause::Name(s) => final(row).name@ == s@ && opt_tag_eq(
                final(row).discord_tag,
                old(row).discord_tag,
            ),
            SetClause::DiscordTag(s) => (final(row).discord_tag matches Some(t) && t@ == s@)
                && final(row).name@ == old(row).name@,
        },
{
    match c {
        SetClause::Name(s) => {
            row.name = s;
        },
        SetClause::DiscordTag(s) => {
            row.discord_tag = Some(s);
        },
    }
}

/// The index of the row carrying `id`, if any.
fn find_person(db: &Store, id: i64) -> (r: Option<usize>)
    ensures
        match r {
            Some(i) => i < db.persons().len() && db.persons()[i as int].id == id,
            None => !has_person(*db, id),
        },
{
    let n = db.person_rows.len();
    let mut i: usize = 0;
    while i < n
        invariant
            n == db.persons().len(),
            i <= n,
            forall|k: int| 0 <= k < i ==> (#[trigger] db.persons()[k]).id != id,
        decreases n - i,
    {
        if db.person_rows[i].id == id {
            return Some(i);
        }
        i += 1;
    }
    None
}

/// One step of filtering the person table by name.
proof fn lemma_matches_in_step(rows: Seq<User>, name: Seq<char>, i: int)
    requires
        0 <= i < rows.len(),
    ensures
        matches_in(rows.take(i + 1), name) == if rows[i].name@ == name {
            matches_in(rows.take(i), name).push(rows[i])
        } else {
            matches_in(rows.take(i), name)
        },
{
    reveal(Seq::filter);
    assert(rows.take(i + 1).drop_last() =~= rows.take(i));
    assert(rows.take(i + 1).last() == rows[i]);
}

/// One step of filtering the join table by referenced person.
proof fn lemma_refs_not_of_step(rs: Seq<ChoreRef>, id: i64, k: int)
    requires
        0 <= k < rs.len(),
    ensures
        refs_not_of(rs.take(k + 1), id) == if rs[k].person_id != id {
            refs_not_of(rs.take(k), id).push(rs[k])
        } else {
            refs_not_of(rs.take(k), id)
        },
{
    reveal(Seq::filter);
    assert(rs.take(k + 1).drop_last() =~= rs.take(k));
    assert(rs.take(k + 1).last() == rs[k]);
}

impl User {
    /// Inserts this transient person; the store assigns the fresh id and
    /// the returned person carries it.
    pub fn insert(self, db: &mut Store) -> (r: Result<User, RepoError>)
        requires
            old(db).wf(),
        ensures
            final(db).wf(),
            insert_post(*old(db), *final(db), self, r),
    {
        if db.next_id == i64::MAX {
            return Err(RepoError::Persistence);
        }
        let id = db.next_id;
        db.next_id = id + 1;
        let mut persisted = self;
        persisted.id = id;
        let stored = copy_user(&persisted);
        db.person_rows.push(stored);
        Ok(persisted)
    }

    /// Fetches the one row carrying `id`, or `NotFound`.
    pub fn get_by_id(db: &Store, id: i64) -> (r: Result<User, RepoError>)
        ensures
            get_by_id_post(*db, id, r),
    {
        match find_person(db, id) {
            Some(i) => Ok(copy_user(&db.person_rows[i])),
            None => Err(RepoError::NotFound),
        }
    }

    /// Fetches every row whose name matches, in table order; an empty list,
    /// not an error, when none does.
    pub fn get_by_name(db: &Store, name: &str) -> (r: Vec<User>)
        ensures
            get_by_name_post(*db, name@, r@),
    {
        let n = db.person_rows.len();
        let mut out: Vec<User> = Vec::new();
        let mut i: usize = 0;
        while i < n
            invariant
                n == db.persons().len(),
                i <= n,
                out@.len() == matches_in(db.persons().take(i as int), name@).len(),
                forall|k: int|
                    0 <= k < out@.len() ==> user_like(
                        #[trigger] out@[k],
                        matches_in(db.persons().take(i as int), name@)[k],
                    ),
            decreases n - i,
        {
            proof {
                lemma_matches_in_step(db.persons(), name@, i as int);
            }
            let row = &db.person_rows[i];
            if crate::update::str_eq(row.name.as_str(), name) {
                out.push(copy_user(row));
            }
            i += 1;
        }
        proof {
            assert(db.persons().take(n as int) =~= db.persons());
        }
        out
    }

    /// Applies a partial update built against this snapshot to the row
    /// carrying `update.id`: a no-op request writes nothing, everything
    /// else changes exactly the requested fields.
    pub fn update(self, db: &mut Store, update: UpdateUser) -> (r: Result<(), RepoError>)
        requires
            old(db).wf(),
        ensures
            final(db).wf(),
            update_post(*old(db), *final(db), self, update, r),
    {
        let req_id = update.id;
        let ghost req = update;
        match build_update(&self, update) {
            None => Ok(()),
            Some(p) => {
                match find_person(db, req_id) {
                    None => Err(RepoError::NotFound),
                    Some(i) => {
                        let UpdatePlan { mut clauses, id: _ } = p;
                        let ghost pre = *db;
                        let c0 = clauses.remove(0);
                        let row = &mut db.person_rows[i];
                        apply_clause(row, c0);
                        if clauses.len() > 0 {
                            let c1 = clauses.remove(0);
                            let row2 = &mut db.person_rows[i];
                            apply_clause(row2, c1);
                        }
                        proof {
                            assert(updated_row(
                                pre.persons()[i as int],
                                db.persons()[i as int],
                                self,
                                req,
                            ));
                        }
                        Ok(())
                    },
                }
            },
        }
    }

    /// Deletes the row carrying this person's id; join rows stay untouched.
    pub fn delete(self, db: &mut Store) -> (r: Result<(), RepoError>)
        requires
            old(db).wf(),
        ensures
            final(db).wf(),
            delete_post(*old(db), *final(db), self.id, r),
    {
        match find_person(db, self.id) {
            None => Err(RepoError::NotFound),
            Some(i) => {
                db.person_rows.remove(i);
                Ok(())
            },
        }
    }

    /// Deletes the row carrying this person's id and, in the same logical
    /// step, every join row referencing it.
    pub fn delete_ref(&self, db: &mut Store) -> (r: Result<(), RepoError>)
        requires
            old(db).wf(),
        ensures
            final(db).wf(),
            delete_cascade_post(*old(db), *final(db), self.id, r),
    {
        let id = self.id;
        match find_person(db, id) {
            None => Err(RepoError::NotFound),
            Some(i) => {
                db.person_rows.remove(i);
                let ghost mid = *db;
                let m = db.chore_person_rows.len();
                let mut kept: Vec<ChoreRef> = Vec::new();
                let mut k: usize = 0;
                while k < m
                    invariant
                        *db == mid,
                        m == db.refs().len(),
                        k <= m,
                        kept@ == refs_not_of(db.refs().take(k as int), id),
                    decreases m - k,
                {
                    proof {
                        lemma_refs_not_of_step(db.refs(), id, k as int);
                    }
                    let c = db.chore_person_rows[k];
                    if c.person_id != id {
                        kept.push(c);
                    }
                    k += 1;
                }
                proof {
                    assert(db.refs().take(m as int) =~= db.refs());
                }
                db.chore_person_rows = kept;
                Ok(())
            },
        }
    }
}

/// *Law: idempotent no-op update.* A request whose fields are all absent or
/// equal to the snapshot's values leaves every table and the counter exactly
/// as they were, and still succeeds.
pub proof fn lemma_noop_update(
    pre: Store,
    post: Store,
    current: User,
    req: UpdateUser,
    r: Result<(), RepoError>,
)
    requires
        req.name matches Some(n) ==> n@ == current.name@,
        req.discord_tag matches Some(d) ==> (current.discord_tag matches Some(t) && t@ == d@),
        update_post(pre, post, current, req, r),
    ensures
        store_unchanged(pre, post),
        r is Ok,
{
}

/// *Law: field isolation, tag side.* An update that omits `discord_tag`
/// leaves every row's tag as it was, whatever it does to names.
pub proof fn lemma_field_isolation_tag(pre: Store, post: Store, current: User, req: UpdateUser)
    requires
        req.discord_tag is None,
        update_post(pre, post, current, req, Result::<(), RepoError>::Ok(())),
    ensures
        post.persons().len() == pre.persons().len(),
        forall|j: int|
            0 <= j < post.persons().len() ==> opt_tag_eq(
                (#[trigger] post.persons()[j]).discord_tag,
                pre.persons()[j].discord_tag,
            ),
{
    assert forall|j: int| 0 <= j < post.persons().len() implies opt_tag_eq(
        (#[trigger] post.persons()[j]).discord_tag,
        pre.persons()[j].discord_tag,
    ) by {
        assert(post.persons()[j].discord_tag == pre.persons()[j].discord_tag
            || opt_tag_eq(post.persons()[j].discord_tag, pre.persons()[j].discord_tag));
    }
}

/// *Law: field isolation, name side.* An update that omits `name` leaves
/// every row's name as it was, whatever it does to tags.
pub proof fn lemma_field_isolation_name(pre: Store, post: Store, current: User, req: UpdateUser)
    requires
        req.name is None,
        update_post(pre, post, current, req, Result::<(), RepoError>::Ok(())),
    ensures
        post.persons().len() == pre.persons().len(),
        forall|j: int|
            0 <= j < post.persons().len() ==> (#[trigger] post.persons()[j]).name@
                == pre.persons()[j].name@,
{
}

/// *Law: round trip.* Fetching by the id an insert returned yields a person
/// with the same name and the same tag as the one that went in.
pub proof fn lemma_round_trip(
    pre: Store,
    mid: Store,
    transient: User,
    ret: User,
    r2: Result<User, RepoError>,
)
    requires
        pre.wf(),
        mid.wf(),
        insert_post(pre, mid, transient, Result::<User, RepoError>::Ok(ret)),
        get_by_id_post(mid, ret.id, r2),
    ensures
        r2 is Ok,
        r2 matches Ok(f) ==> f.name@ == transient.name@ && opt_tag_eq(
            f.discord_tag,
            transient.discord_tag,
        ),
{
    let last = mid.persons().len() - 1;
    assert(mid.persons()[last].id == ret.id);
    assert(has_person(mid, ret.id));
    if let Ok(f) = r2 {
        let i = choose|i: int|
            0 <= i < mid.persons().len() && (#[trigger] mid.persons()[i]).id == ret.id
                && user_like(f, mid.persons()[i]);
        assert(i == last);
    }
}

/// *Law: delete cascade.* After a cascading delete succeeds, fetching the
/// id reports `NotFound` and no join row references it any more.
pub proof fn lemma_delete_cascade(pre: Store, post: Store, id: i64, r2: Result<User, RepoError>)
    requires
        pre.wf(),
        delete_cascade_post(pre, post, id, Result::<(), RepoError>::Ok(())),
        get_by_id_post(post, id, r2),
    ensures
        r2 == Result::<User, RepoError>::Err(RepoError::NotFound),
        forall|k: int| 0 <= k < post.refs().len() ==> (#[trigger] post.refs()[k]).person_id != id,
{
    let i = choose|i: int|
        0 <= i < pre.persons().len() && (#[trigger] pre.persons()[i]).id == id && post.persons()
            == pre.persons().remove(i);
    assert forall|j: int| 0 <= j < post.persons().len() implies (#[trigger] post.persons()[j]).id
        != id by {
        if j < i {
            assert(post.persons()[j] == pre.persons()[j]);
        } else {
            assert(post.persons()[j] == pre.persons()[j + 1]);
        }
    }
    assert(!has_person(post, id));
    assert forall|k: int| 0 <= k < post.refs().len() implies (#[trigger] post.refs()[k]).person_id
        != id by {
        Seq::lemma_filter_pred(pre.refs(), |c: ChoreRef| c.person_id != id, k);
    }
}

} // verus!
