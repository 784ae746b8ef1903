//! The store-connector bootstrap: a state machine that decides, from each
//! connect or migration outcome, what the server does next. The server
//! performs the actions (open the pool, create the file, run migrations);
//! the decisions — create the missing database file and retry exactly once,
//! propagate every other failure, never serve unmigrated — are verified
//! here.

use vstd::prelude::*;

verus! {

/// Where the bootstrap stands.
#[derive(Clone, Copy, PartialEq, Eq, Structural, Debug)]
pub enum BootstrapState {
    /// Waiting for a connect outcome; `retried` says whether the one
    /// create-and-retry attempt is already spent.
    Connecting { retried: bool },
    /// Connected, waiting for the migration outcome.
    Migrating,
    /// Migrated; the pool may be handed to callers.
    Ready,
    /// Startup failed; the process must not serve.
    Failed,
}

/// What the server reports back to the machine.
pub enum BootstrapEvent {
    ConnectOk,
    ConnectErr(String),
    MigrateOk,
    MigrateErr(String),
}

/// What the machine tells the server to do next.
pub enum BootstrapAction {
    /// Create an empty file under the given name, then connect again.
    CreateFileAndConnect(String),
    /// Apply the pending schema migrations.
    Migrate,
    /// Hand the pool to callers.
    Serve,
    /// Give up; the failure is fatal to startup, and the carried message is
    /// the failing outcome's own.
    Abort(String),
}

/// The bootstrap machine for one logical database name.
pub struct Bootstrap {
    pub state: BootstrapState,
    pub database: String,
}

/// `pat` occurs in `h` starting at `i`.
pub open spec fn contains_at(h: Seq<char>, pat: Seq<char>, i: int) -> bool {
    0 <= i && i + pat.len() <= h.len() && h.subrange(i, i + pat.len()) == pat
}

/// `pat` occurs somewhere in `h`.
pub open spec fn contains_seq(h: Seq<char>, pat: Seq<char>) -> bool {
    exists|i: int| contains_at(h, pat, i)
}

/// The connect failure is the distinguishable "no such database" condition:
/// the store's message carries its "unable to open" code.
pub open spec fn missing_database_error(msg: Seq<char>) -> bool {
    contains_seq(msg, "code: 14"@)
}

/// `s` already ends in the store's file extension.
pub open spec fn ends_with_db(s: Seq<char>) -> bool {
    s.len() >= 3 && s[s.len() - 3] == '.' && s[s.len() - 2] == 'd' && s[s.len() - 1] == 'b'
}

/// The length of `s` once trailing dots are dropped.
pub open spec fn trimmed_len(s: Seq<char>) -> int
    decreases s.len(),
{
    if s.len() > 0 && s.last() == '.' {
        trimmed_len(s.drop_last())
    } else {
        s.len() as int
    }
}

/// `s` without its trailing dots.
pub open spec fn trim_trailing_dots(s: Seq<char>) -> Seq<char> {
    s.take(trimmed_len(s))
}

proof fn lemma_trimmed_len_bounds(s: Seq<char>)
    ensures
        0 <= trimmed_len(s) <= s.len(),
    decreases s.len(),
{
    if s.len() > 0 && s.last() == '.' {
        lemma_trimmed_len_bounds(s.drop_last());
    }
}

/// The connection target for a logical name: trailing dots are
/// insignificant, and the extension is appended only when it is not already
/// there.
pub open spec fn spec_db_file_name(s: Seq<char>) -> Seq<char> {
    let t = trim_trailing_dots(s);
    if ends_with_db(t) {
        t
    } else {
        t + ".db"@
    }
}

/// The message a failing outcome carries, if any.
pub open spec fn event_message(ev: BootstrapEvent) -> Seq<char> {
    match ev {
        BootstrapEvent::ConnectErr(m) => m@,
        BootstrapEvent::MigrateErr(m) => m@,
        _ => Seq::<char>::empty(),
    }
}

/// `pat` occurs in `h` starting exactly at `i`.
fn match_at(h: &str, pat: &str, i: usize) -> (r: bool)
    requires
        i + pat@.len() <= h@.len(),
    ensures
        r == contains_at(h@, pat@, i as int),
{
    let hn = h.unicode_len();
    let pn = pat.unicode_len();
    let mut k: usize = 0;
    while k < pn
        invariant
            i + pn <= hn,
            hn == h@.len(),
            pn == pat@.len(),
            k <= pn,
            forall|t: int| 0 <= t < k ==> h@[i + t] == pat@[t],
        decreases pn - k,
    {
        if h.get_char(i + k) != pat.get_char(k) {
            proof {
                assert(h@.subrange(i as int, i + pn as int)[k as int] == h@[i + k]);
            }
            return false;
        }
        k += 1;
    }
    proof {
        assert(h@.subrange(i as int, i + pn as int) =~= pat@);
    }
    true
}

/// Whether `pat` occurs anywhere in `h`.
fn contains_str(h: &str, pat: &str) -> (r: bool)
    requires
        pat@.len() >= 1,
    ensures
        r == contains_seq(h@, pat@),
{
    let hn = h.unicode_len();
    let pn = pat.unicode_len();
    if pn > hn {
        proof {
            assert(forall|i: int| !contains_at(h@, pat@, i));
        }
        return false;
    }
    let mut i: usize = 0;
    while i <= hn - pn
        invariant
            1 <= pn <= hn,
            hn == h@.len(),
            pn == pat@.len(),
            i <= hn - pn + 1,
            forall|j: int| 0 <= j < i ==> !contains_at(h@, pat@, j),
        decreases hn - pn + 1 - i,
    {
        if match_at(h, pat, i) {
            return true;
        }
        i += 1;
    }
    proof {
        assert(forall|j: int| contains_at(h@, pat@, j) ==> 0 <= j <= hn - pn);
    }
    false
}

/// Whether a connect failure message names the "no such database"
/// condition that warrants creating the file and retrying.
pub fn is_missing_database_error(msg: &str) -> (r: bool)
    ensures
        r == missing_database_error(msg@),
{
    proof {
        reveal_strlit("code: 14");
    }
    contains_str(msg, "code: 14")
}

/// The backing file name for a logical database name: trailing dots
/// dropped, the extension appended only when absent.
pub fn db_file_name(database: &str) -> (r: String)
    ensures
        r@ == spec_db_file_name(database@),
{
    let s = database;
    let n = s.unicode_len();
    let mut k: usize = n;
    proof {
        assert(s@.take(n as int) =~= s@);
    }
    while k > 0 && s.get_char(k - 1) == '.'
        invariant
            k <= n,
            n == s@.len(),
            trimmed_len(s@) == trimmed_len(s@.take(k as int)),
        decreases k,
    {
        proof {
            assert(s@.take(k as int).drop_last() =~= s@.take(k - 1 as int));
            assert(s@.take(k as int).last() == s@[k - 1]);
        }
        k -= 1;
    }
    proof {
        lemma_trimmed_len_bounds(s@.take(k as int));
        if k > 0 {
            assert(s@.take(k as int).last() == s@[k - 1]);
        }
        assert(trimmed_len(s@.take(k as int)) == k);
    }
    let trimmed = s.substring_char(0, k);
    let already = k >= 3 && trimmed.get_char(k - 3) == '.' && trimmed.get_char(k - 2) == 'd'
        && trimmed.get_char(k - 1) == 'b';
    if already {
        trimmed.to_owned()
    } else {
        let mut r = trimmed.to_owned();
        r.append(".db");
        proof {
            assert(r@ =~= trim_trailing_dots(database@) + ".db"@);
        }
        r
    }
}

/// The full transition relation of the bootstrap machine: which state and
/// which action each event leads to.
pub open spec fn step_post(
    pre: Bootstrap,
    post: Bootstrap,
    ev: BootstrapEvent,
    a: BootstrapAction,
) -> bool {
    &&& post.database@ == pre.database@
    &&& match (pre.state, ev) {
        (BootstrapState::Connecting { retried: _ }, BootstrapEvent::ConnectOk) => {
            post.state == BootstrapState::Migrating && a == BootstrapAction::Migrate
        },
        (BootstrapState::Connecting { retried: false }, BootstrapEvent::ConnectErr(m)) => {
            if missing_database_error(m@) {
                &&& post.state == (BootstrapState::Connecting { retried: true })
                &&& a matches BootstrapAction::CreateFileAndConnect(f)
                    && f@ == spec_db_file_name(pre.database@)
            } else {
                &&& post.state == BootstrapState::Failed
                &&& a matches BootstrapAction::Abort(s) && s@ == m@
            }
        },
        (BootstrapState::Connecting { retried: true }, BootstrapEvent::ConnectErr(m)) => {
            post.state == BootstrapState::Failed && (a matches BootstrapAction::Abort(s) && s@
                == m@)
        },
        (BootstrapState::Migrating, BootstrapEvent::MigrateOk) => {
            post.state == BootstrapState::Ready && a == BootstrapAction::Serve
        },
        (BootstrapState::Migrating, BootstrapEvent::MigrateErr(m)) => {
            post.state == BootstrapState::Failed && (a matches BootstrapAction::Abort(s) && s@
                == m@)
        },
        (BootstrapState::Ready, _) => {
            post.state == BootstrapState::Ready && a == BootstrapAction::Serve
        },
        _ => post.state == BootstrapState::Failed && (a matches BootstrapAction::Abort(s) && s@
            == event_message(ev)),
    }
}

impl Bootstrap {
    /// A fresh machine: about to connect, the retry still unspent.
    pub fn new(database: String) -> (b: Bootstrap)
        ensures
            b.state == (BootstrapState::Connecting { retried: false }),
            b.database@ == database@,
    {
        Bootstrap { state: BootstrapState::Connecting { retried: false }, database }
    }

    /// Feeds one outcome to the machine and decides the next action.
    pub fn step(&mut self, ev: BootstrapEvent) -> (a: BootstrapAction)
        ensures
            step_post(*old(self), *final(self), ev, a),
    {
        match (self.state, ev) {
            (BootstrapState::Connecting { retried: _ }, BootstrapEvent::ConnectOk) => {
                self.state = BootstrapState::Migrating;
                BootstrapAction::Migrate
            },
            (BootstrapState::Connecting { retried: false }, BootstrapEvent::ConnectErr(m)) => {
                if is_missing_database_error(m.as_str()) {
                    self.state = BootstrapState::Connecting { retried: true };
                    BootstrapAction::CreateFileAndConnect(db_file_name(self.database.as_str()))
                } else {
                    self.state = BootstrapState::Failed;
                    BootstrapAction::Abort(m)
                }
            },
            (BootstrapState::Connecting { retried: true }, BootstrapEvent::ConnectErr(m)) => {
                self.state = BootstrapState::Failed;
                BootstrapAction::Abort(m)
            },
            (BootstrapState::Migrating, BootstrapEvent::MigrateOk) => {
                self.state = BootstrapState::Ready;
                BootstrapAction::Serve
            },
            (BootstrapState::Migrating, BootstrapEvent::MigrateErr(m)) => {
                self.state = BootstrapState::Failed;
                BootstrapAction::Abort(m)
            },
            (BootstrapState::Ready, _) => {
                BootstrapAction::Serve
            },
            (_, e) => {
                self.state = BootstrapState::Failed;
                match e {
                    BootstrapEvent::ConnectErr(m) => BootstrapAction::Abort(m),
                    BootstrapEvent::MigrateErr(m) => BootstrapAction::Abort(m),
                    _ => BootstrapAction::Abort(String::new()),
                }
            },
        }
    }
}

/// *Law: the missing-file retry happens at most once.* Once the retry is
/// spent — and from any later state — no step ever asks for the file to be
/// created again; a second connect failure is propagated, not retried.
pub proof fn lemma_retry_at_most_once(
    pre: Bootstrap,
    post: Bootstrap,
    ev: BootstrapEvent,
    a: BootstrapAction,
)
    requires
        pre.state != (BootstrapState::Connecting { retried: false }),
        step_post(pre, post, ev, a),
    ensures
        !(a matches BootstrapAction::CreateFileAndConnect(_)),
{
}

/// *Law: every other failure class is propagated as it is.* Whenever a
/// step gives up on a failing outcome, the abort carries that outcome's own
/// message — nothing is retried and nothing is rewritten.
pub proof fn lemma_abort_propagates_failure(
    pre: Bootstrap,
    post: Bootstrap,
    ev: BootstrapEvent,
    a: BootstrapAction,
)
    requires
        step_post(pre, post, ev, a),
        a matches BootstrapAction::Abort(_),
    ensures
        a matches BootstrapAction::Abort(s) && s@ == event_message(ev),
        post.state == BootstrapState::Failed,
{
}

/// *Law: migrations run once, and nothing serves unmigrated.* Migration is
/// requested only by the step that observes a successful connect, and the
/// pool is handed out only from a state the migration step has passed.
pub proof fn lemma_migrate_gates_serving(
    pre: Bootstrap,
    post: Bootstrap,
    ev: BootstrapEvent,
    a: BootstrapAction,
)
    requires
        step_post(pre, post, ev, a),
    ensures
        a == BootstrapAction::Migrate ==> (pre.state matches BootstrapState::Connecting { .. })
            && ev == BootstrapEvent::ConnectOk && post.state == BootstrapState::Migrating,
        a == BootstrapAction::Serve ==> (pre.state == BootstrapState::Migrating && ev
            == BootstrapEvent::MigrateOk && post.state == BootstrapState::Ready) || (pre.state
            == BootstrapState::Ready && post.state == BootstrapState::Ready),
{
}

} // verus!
