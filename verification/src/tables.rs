//! What the tables of the database hold, and what the statements of the library do to them.
//!
//! Here stand the parts of the tables that the laws of this module speak of. A law holds of every
//! database that carries the statements out as SQL has them mean.
use vstd::prelude::*;

use crate::addresses::sender_address;
use crate::emails::{counting_drafts, deleting_draft};
use crate::folders::{reading_names, replacing_names};
use crate::order::{alphabetical, not_after};
use crate::send::{draft_text, keeping_draft, numbering, Draft};
use crate::statements::{StatementView, ValueView};
use crate::store::{
    blocking, finding_blocked, finding_known, first_step, inserting, insertion_text, next_step,
    step_statement, unblocking, StoreEvent, StoreJobView, StoreStep,
};
use crate::text::ascii_lower;

verus! {

// ---------------------------------------------------------------------------------------------
// The tables
// ---------------------------------------------------------------------------------------------

/// A row of the table of messages.
pub struct MailRow {
    pub account_id: int,
    pub uid: int,
    pub folder: Seq<char>,
}

/// The tables.
#[verifier::ext_equal]
pub struct Tables {
    /// `blocked_senders`: the addresses.
    pub blocked: Set<Seq<char>>,
    /// `user_folders`: accounts and names.
    pub folders: Set<(int, Seq<char>)>,
    /// `emails`: the rows by their ids.
    pub emails: Map<int, MailRow>,
}

/// A number bound to a place of a statement, the first place being 0.
pub open spec fn int_at(s: StatementView, i: int) -> int {
    match s.params[i] {
        ValueView::Int(n) => n,
        _ => 0,
    }
}

/// A text bound to a place of a statement.
pub open spec fn text_at(s: StatementView, i: int) -> Seq<char> {
    match s.params[i] {
        ValueView::Text(t) => t,
        _ => Seq::empty(),
    }
}

/// Two texts are the same to `NOCASE`, which makes no difference between capital and small letters
/// of ASCII.
pub open spec fn same_nocase(a: Seq<char>, b: Seq<char>) -> bool {
    ascii_lower(a) == ascii_lower(b)
}

/// An address is blocked.
pub open spec fn is_blocked(t: Tables, address: Seq<char>) -> bool {
    exists|e: Seq<char>| #[trigger] t.blocked.contains(e) && same_nocase(e, address)
}

/// A message of an account is stored, in whatever folder.
pub open spec fn is_known(t: Tables, account_id: int, uid: int) -> bool {
    exists|id: int| #[trigger]
        t.emails.contains_key(id) && t.emails[id].account_id == account_id && t.emails[id].uid == uid
}

/// A row like this is there already: no two rows share account, number and folder.
pub open spec fn is_taken(t: Tables, row: MailRow) -> bool {
    exists|id: int| #[trigger] t.emails.contains_key(id) && t.emails[id] == row
}

/// The ids of the drafts of an account.
pub open spec fn drafts(t: Tables, account_id: int) -> Set<int> {
    t.emails.dom().filter(
        |id: int| t.emails[id].account_id == account_id && t.emails[id].folder == "Drafts"@,
    )
}

// ---------------------------------------------------------------------------------------------
// Statements
// ---------------------------------------------------------------------------------------------

/// The database carries out a statement without refusing it. A message that is inserted gets the id
/// `id`, which no other message has.
pub open spec fn carries_out(before: Tables, s: StatementView, after: Tables, id: int) -> bool {
    &&& s.sql == "INSERT OR IGNORE INTO blocked_senders (email) VALUES (?1)"@ ==> after == (Tables {
        blocked: if is_blocked(before, text_at(s, 0)) {
            before.blocked
        } else {
            before.blocked.insert(text_at(s, 0))
        },
        ..before
    })
    &&& s.sql == "DELETE FROM blocked_senders WHERE email = ?1 COLLATE NOCASE"@ ==> after == (
    Tables {
        blocked: before.blocked.filter(|e: Seq<char>| !same_nocase(e, text_at(s, 0))),
        ..before
    })
    &&& s.sql == "DELETE FROM user_folders WHERE account_id=?1"@ ==> after == (Tables {
        folders: before.folders.filter(|f: (int, Seq<char>)| f.0 != int_at(s, 0)),
        ..before
    })
    &&& s.sql == "INSERT OR IGNORE INTO user_folders (account_id, name) VALUES (?1,?2)"@ ==> after
        == (Tables { folders: before.folders.insert((int_at(s, 0), text_at(s, 1))), ..before })
    &&& s.sql == draft_text() ==> !before.emails.contains_key(id) && after == (Tables {
        emails: before.emails.insert(
            id,
            MailRow { account_id: int_at(s, 0), uid: -1, folder: "Drafts"@ },
        ),
        ..before
    })
    &&& s.sql == "UPDATE emails SET uid=?1 WHERE id=?1"@ ==> after == (Tables {
        emails: if before.emails.contains_key(int_at(s, 0)) {
            before.emails.insert(
                int_at(s, 0),
                MailRow { uid: int_at(s, 0), ..before.emails[int_at(s, 0)] },
            )
        } else {
            before.emails
        },
        ..before
    })
    &&& s.sql == "DELETE FROM emails WHERE id=?1 AND folder='Drafts'"@ ==> after == (Tables {
        emails: if before.emails.contains_key(int_at(s, 0)) && before.emails[int_at(s, 0)].folder
            == "Drafts"@ {
            before.emails.remove(int_at(s, 0))
        } else {
            before.emails
        },
        ..before
    })
    &&& s.sql == insertion_text() ==> {
        let row = MailRow {
            account_id: int_at(s, 0),
            uid: int_at(s, 1),
            folder: text_at(s, 2),
        };
        if is_taken(before, row) {
            after == before
        } else {
            !before.emails.contains_key(id) && after == (Tables {
                emails: before.emails.insert(id, row),
                ..before
            })
        }
    }
    &&& s.sql == "SELECT 1 FROM blocked_senders WHERE email = ?1 COLLATE NOCASE"@ ==> after
        == before
    &&& s.sql == "SELECT 1 FROM emails WHERE account_id=?1 AND uid=?2 LIMIT 1"@ ==> after == before
}

/// The database carries out a statement, whatever id it gives.
pub open spec fn does(before: Tables, s: StatementView, after: Tables) -> bool {
    exists|id: int| carries_out(before, s, after, id)
}

/// The database carries out some statements one after the other; `states` are the tables before,
/// between and after them.
pub open spec fn carries_out_all(states: Seq<Tables>, s: Seq<StatementView>) -> bool {
    &&& states.len() == s.len() + 1
    &&& forall|i: int|
        0 <= i < s.len() ==> does(states[i], #[trigger] s[i], states[i + 1])
}

/// The database answers a statement with a row (`found`) or with none.
pub open spec fn answers(t: Tables, s: StatementView, found: bool) -> bool {
    &&& s.sql == "SELECT 1 FROM blocked_senders WHERE email = ?1 COLLATE NOCASE"@ ==> found
        == is_blocked(t, text_at(s, 0))
    &&& s.sql == "SELECT 1 FROM emails WHERE account_id=?1 AND uid=?2 LIMIT 1"@ ==> found
        == is_known(t, int_at(s, 0), int_at(s, 1))
}

/// The database answers a statement with a number.
pub open spec fn counts(t: Tables, s: StatementView, n: nat) -> bool {
    s.sql == "SELECT COUNT(*) FROM emails WHERE account_id=?1 AND folder='Drafts'"@ ==> n == drafts(
        t,
        int_at(s, 0),
    ).len()
}

/// The database answers a statement with these names.
pub open spec fn lists(t: Tables, s: StatementView, names: Seq<Seq<char>>) -> bool {
    s.sql == "SELECT name FROM user_folders WHERE account_id=?1 ORDER BY name"@ ==> {
        &&& alphabetical(names)
        &&& names.no_duplicates()
        &&& forall|n: Seq<char>| #[trigger]
            names.contains(n) <==> t.folders.contains((int_at(s, 0), n))
    }
}

// ---------------------------------------------------------------------------------------------
// Blocked senders
// ---------------------------------------------------------------------------------------------

/// A sender who has been blocked is found blocked until unblocked, whichever line names the sender;
/// a sender with another address is found blocked exactly if so before.
pub proof fn law_blocked_until_unblocked(
    t0: Tables,
    t1: Tables,
    t2: Tables,
    id: int,
    from: Seq<char>,
    same: Seq<char>,
    other: Seq<char>,
)
    requires
        carries_out(t0, blocking(sender_address(from)), t1, id),
        carries_out(t1, unblocking(sender_address(from)), t2, id),
        sender_address(same) == sender_address(from),
        !same_nocase(sender_address(other), sender_address(from)),
    ensures
        forall|found: bool|
            answers(t1, finding_blocked(sender_address(same)), found) ==> found,
        forall|found: bool|
            answers(t2, finding_blocked(sender_address(same)), found) ==> !found,
        forall|found: bool|
            answers(t1, finding_blocked(sender_address(other)), found) ==> found == is_blocked(
                t0,
                sender_address(other),
            ),
        forall|found: bool|
            answers(t2, finding_blocked(sender_address(other)), found) ==> found == is_blocked(
                t0,
                sender_address(other),
            ),
{
    let a = sender_address(from);
    let b = sender_address(other);
    assert(text_at(blocking(a), 0) == a);
    assert(text_at(unblocking(a), 0) == a);
    assert(text_at(finding_blocked(a), 0) == a);
    assert(text_at(finding_blocked(b), 0) == b);
    if !is_blocked(t0, a) {
        assert(t1.blocked.contains(a));
    }
    assert(is_blocked(t1, a));
    assert(!is_blocked(t2, a));
    if is_blocked(t0, b) {
        let e = choose|e: Seq<char>| #[trigger] t0.blocked.contains(e) && same_nocase(e, b);
        assert(t1.blocked.contains(e));
        assert(t2.blocked.contains(e));
    }
    if is_blocked(t2, b) {
        let e = choose|e: Seq<char>| #[trigger] t2.blocked.contains(e) && same_nocase(e, b);
        assert(t1.blocked.contains(e));
    }
    if is_blocked(t1, b) {
        let e = choose|e: Seq<char>| #[trigger] t1.blocked.contains(e) && same_nocase(e, b);
        assert(t0.blocked.contains(e));
    }
}

// ---------------------------------------------------------------------------------------------
// Folders
// ---------------------------------------------------------------------------------------------

/// Names without those that occurred before.
pub open spec fn without_repeats(s: Seq<Seq<char>>) -> Seq<Seq<char>>
    decreases s.len(),
{
    if s.len() == 0 {
        Seq::empty()
    } else {
        let front = without_repeats(s.drop_last());
        if front.contains(s.last()) {
            front
        } else {
            front.push(s.last())
        }
    }
}

/// After the names of an account's folders have been replaced, exactly these names are read, each
/// once and in their order; the names of other accounts are as before.
pub proof fn law_cached_folders(
    states: Seq<Tables>,
    account_id: int,
    names: Seq<Seq<char>>,
    read: Seq<Seq<char>>,
)
    requires
        alphabetical(names),
        carries_out_all(states, replacing_names(account_id, names)),
        lists(states.last(), reading_names(account_id), read),
    ensures
        read == without_repeats(names),
        forall|other: int, n: Seq<char>|
            other != account_id ==> (#[trigger] states.last().folders.contains((other, n))
                <==> states[0].folders.contains((other, n))),
{
    lemma_replaced(states, account_id, names, names.len() as int);
    assert(names.take(names.len() as int) =~= names);
    let after = states[names.len() as int + 1];
    assert(replacing_names(account_id, names).len() == names.len() + 1);
    assert(states.last() == after);
    assert(int_at(reading_names(account_id), 0) == account_id);
    let once = without_repeats(names);
    lemma_without_repeats(names);
    assert forall|n: Seq<char>| read.contains(n) <==> once.contains(n) by {
        assert(read.contains(n) <==> after.folders.contains((account_id, n)));
        assert(once.contains(n) <==> names.contains(n));
    }
    lemma_same_names(read, once);
}

proof fn lemma_replaced(states: Seq<Tables>, account_id: int, names: Seq<Seq<char>>, k: int)
    requires
        carries_out_all(states, replacing_names(account_id, names)),
        0 <= k <= names.len(),
    ensures
        forall|n: Seq<char>| #[trigger]
            states[k + 1].folders.contains((account_id, n)) <==> names.take(k).contains(n),
        forall|other: int, n: Seq<char>|
            other != account_id ==> (#[trigger] states[k + 1].folders.contains((other, n))
                <==> states[0].folders.contains((other, n))),
    decreases k,
{
    let ss = replacing_names(account_id, names);
    let s = ss[k];
    assert(does(states[k], ss[k], states[k + 1]));
    let (before, after) = (states[k], states[k + 1]);
    let id = choose|id: int| carries_out(before, s, after, id);
    assert(int_at(s, 0) == account_id);
    if k > 0 {
        lemma_replaced(states, account_id, names, k - 1);
        assert(text_at(s, 1) == names[k - 1]);
        assert(names.take(k) =~= names.take(k - 1).push(names[k - 1]));
        assert forall|n: Seq<char>| #[trigger]
            states[k + 1].folders.contains((account_id, n)) <==> names.take(k).contains(n) by {
            let p = names.take(k - 1);
            let q = names.take(k);
            if q.contains(n) && n != names[k - 1] {
                let j = choose|j: int| 0 <= j < q.len() && q[j] == n;
                assert(p[j] == n);
            }
            if p.contains(n) {
                let j = choose|j: int| 0 <= j < p.len() && p[j] == n;
                assert(q[j] == n);
            }
            assert(q[k - 1] == names[k - 1]);
            assert(states[k].folders.contains((account_id, n)) <==> p.contains(n));
        }
        assert forall|other: int, n: Seq<char>| other != account_id implies (
        #[trigger] states[k + 1].folders.contains((other, n)) <==> states[0].folders.contains(
            (other, n),
        )) by {
            assert(states[k].folders.contains((other, n)) <==> states[0].folders.contains(
                (other, n),
            ));
        }
    } else {
        assert(names.take(0).len() == 0);
    }
}

proof fn lemma_without_repeats(s: Seq<Seq<char>>)
    requires
        alphabetical(s),
    ensures
        alphabetical(without_repeats(s)),
        without_repeats(s).no_duplicates(),
        forall|n: Seq<char>| #[trigger] without_repeats(s).contains(n) <==> s.contains(n),
    decreases s.len(),
{
    if s.len() > 0 {
        let t = s.drop_last();
        let last = s.last();
        let front = without_repeats(t);
        let all = without_repeats(s);
        assert forall|i: int, j: int| 0 <= i <= j < t.len() implies not_after(
            #[trigger] t[i],
            #[trigger] t[j],
        ) by {
            assert(not_after(s[i], s[j]));
        }
        lemma_without_repeats(t);
        assert forall|n: Seq<char>| #[trigger] all.contains(n) <==> s.contains(n) by {
            if all.contains(n) {
                let k = choose|k: int| 0 <= k < all.len() && all[k] == n;
                if k < front.len() {
                    assert(front[k] == n);
                    assert(front.contains(n));
                    let m = choose|m: int| 0 <= m < t.len() && t[m] == n;
                    assert(s[m] == n);
                } else {
                    assert(s[s.len() - 1] == n);
                }
            }
            if s.contains(n) {
                let m = choose|m: int| 0 <= m < s.len() && s[m] == n;
                if m < t.len() {
                    assert(t[m] == n);
                    assert(front.contains(n));
                    let k = choose|k: int| 0 <= k < front.len() && front[k] == n;
                    assert(all[k] == n);
                } else if !front.contains(n) {
                    assert(all[all.len() - 1] == n);
                }
            }
        }
        if !front.contains(last) {
            assert forall|i: int, j: int| 0 <= i <= j < all.len() implies not_after(
                #[trigger] all[i],
                #[trigger] all[j],
            ) by {
                if j < front.len() {
                    assert(not_after(front[i], front[j]));
                } else if i < front.len() {
                    assert(front.contains(front[i]));
                    let m = choose|m: int| 0 <= m < t.len() && t[m] == front[i];
                    assert(not_after(s[m], s[s.len() - 1]));
                } else {
                    assert(not_after(s[s.len() - 1], s[s.len() - 1]));
                }
            }
            assert forall|i: int, j: int| 0 <= i < all.len() && 0 <= j < all.len() && i
                != j implies all[i] != all[j] by {
                if i < front.len() {
                    assert(front.contains(front[i]));
                }
                if j < front.len() {
                    assert(front.contains(front[j]));
                }
            }
        }
    }
}

proof fn lemma_same_text(a: Seq<char>, b: Seq<char>)
    requires
        not_after(a, b),
        not_after(b, a),
    ensures
        a == b,
    decreases a.len(),
{
    if a.len() > 0 && b.len() > 0 {
        lemma_same_text(a.drop_first(), b.drop_first());
        assert(a =~= seq![a[0]] + a.drop_first());
        assert(b =~= seq![b[0]] + b.drop_first());
    } else {
        assert(a =~= b);
    }
}

/// Names in order, each once, are told by which they are.
proof fn lemma_same_names(a: Seq<Seq<char>>, b: Seq<Seq<char>>)
    requires
        alphabetical(a),
        alphabetical(b),
        a.no_duplicates(),
        b.no_duplicates(),
        forall|n: Seq<char>| a.contains(n) <==> b.contains(n),
    ensures
        a == b,
    decreases a.len(),
{
    if a.len() == 0 {
        if b.len() > 0 {
            assert(b.contains(b[0]));
            assert(a.contains(b[0]));
        }
        assert(a =~= b);
    } else {
        assert(a.contains(a.last()));
        let i = choose|i: int| 0 <= i < b.len() && b[i] == a.last();
        assert(not_after(b[i], b[b.len() - 1]));
        assert(b.contains(b.last()));
        let j = choose|j: int| 0 <= j < a.len() && a[j] == b.last();
        assert(not_after(a[j], a[a.len() - 1]));
        lemma_same_text(a.last(), b.last());
        let (x, y) = (a.drop_last(), b.drop_last());
        assert forall|p: int, q: int| 0 <= p <= q < x.len() implies not_after(
            #[trigger] x[p],
            #[trigger] x[q],
        ) by {
            assert(not_after(a[p], a[q]));
        }
        assert forall|p: int, q: int| 0 <= p <= q < y.len() implies not_after(
            #[trigger] y[p],
            #[trigger] y[q],
        ) by {
            assert(not_after(b[p], b[q]));
        }
        assert forall|n: Seq<char>| x.contains(n) <==> y.contains(n) by {
            if x.contains(n) {
                let p = choose|p: int| 0 <= p < x.len() && x[p] == n;
                assert(a[p] == n && n != a.last());
                assert(a.contains(n));
                let q = choose|q: int| 0 <= q < b.len() && b[q] == n;
                assert(y[q] == n);
            }
            if y.contains(n) {
                let p = choose|p: int| 0 <= p < y.len() && y[p] == n;
                assert(b[p] == n && n != b.last());
                assert(b.contains(n));
                let q = choose|q: int| 0 <= q < a.len() && a[q] == n;
                assert(x[q] == n);
            }
        }
        lemma_same_names(x, y);
        assert(a =~= x.push(a.last()));
        assert(b =~= y.push(b.last()));
    }
}

// ---------------------------------------------------------------------------------------------
// Drafts
// ---------------------------------------------------------------------------------------------

/// A new draft makes one draft more of its account, and deleting it makes as many as before; the
/// other accounts have as many all the time.
pub proof fn law_draft_count(
    t0: Tables,
    t1: Tables,
    t2: Tables,
    t3: Tables,
    id: int,
    draft: Draft,
    date: Seq<char>,
    date_ts: int,
    other: int,
    count: nat,
    saved: nat,
    deleted: nat,
)
    requires
        t0.emails.dom().finite(),
        carries_out(t0, keeping_draft(draft, date, date_ts), t1, id),
        carries_out(t1, numbering(id), t2, id),
        carries_out(t2, deleting_draft(id), t3, id),
        counts(t0, counting_drafts(draft.account_id as int), count),
        counts(t2, counting_drafts(draft.account_id as int), saved),
        counts(t3, counting_drafts(draft.account_id as int), deleted),
        other != draft.account_id,
    ensures
        saved == count + 1,
        deleted == count,
        drafts(t2, other) == drafts(t0, other),
        drafts(t3, other) == drafts(t0, other),
        t3.emails == t0.emails,
{
    let a = draft.account_id as int;
    let s = keeping_draft(draft, date, date_ts);
    assert(int_at(s, 0) == a);
    assert(int_at(numbering(id), 0) == id);
    assert(int_at(deleting_draft(id), 0) == id);
    assert(int_at(counting_drafts(a), 0) == a);
    let row = MailRow { account_id: a, uid: id, folder: "Drafts"@ };
    assert(t2.emails =~= t0.emails.insert(id, row));
    assert(t3.emails =~= t0.emails);
    assert(drafts(t0, a) =~= t0.emails.dom().intersect(drafts(t0, a)));
    assert(drafts(t0, a).finite());
    assert(!drafts(t0, a).contains(id));
    assert(drafts(t2, a) =~= drafts(t0, a).insert(id));
    assert(drafts(t3, a) =~= drafts(t0, a));
    assert(drafts(t2, other) =~= drafts(t0, other));
    assert(drafts(t3, other) =~= drafts(t0, other));
}

// ---------------------------------------------------------------------------------------------
// Received messages
// ---------------------------------------------------------------------------------------------

/// A message that is stored already, in whatever folder, is not new, and storing it again changes no
/// table: nothing but questions is asked.
pub proof fn law_known_is_left_alone(
    t0: Tables,
    t1: Tables,
    t2: Tables,
    id: int,
    job: StoreJobView,
    blocked: bool,
    known: bool,
)
    requires
        is_known(t0, job.account_id, job.uid),
        first_step(job) == StoreStep::AskSender ==> carries_out(
            t0,
            step_statement(job, StoreStep::AskSender)->Some_0,
            t1,
            id,
        ),
        first_step(job) != StoreStep::AskSender ==> t1 == t0,
        carries_out(t1, finding_known(job.account_id, job.uid), t2, id),
        answers(t1, finding_known(job.account_id, job.uid), known),
    ensures
        ({
            let s1 = if first_step(job) == StoreStep::AskSender {
                next_step(job, StoreStep::AskSender, StoreEvent::Found(blocked))
            } else {
                first_step(job)
            };
            &&& step_statement(job, s1) == Some(finding_known(job.account_id, job.uid))
            &&& next_step(job, s1, StoreEvent::Found(known)) == StoreStep::Done(None)
        }),
        t2 == t0,
{
    let s = finding_known(job.account_id, job.uid);
    assert(int_at(s, 0) == job.account_id);
    assert(int_at(s, 1) == job.uid);
}

/// Once a message has been inserted, or was there already, it is known: whatever folder it is fetched
/// from next, it is not new.
pub proof fn law_inserted_is_known(
    t0: Tables,
    t1: Tables,
    id: int,
    job: StoreJobView,
    blocked: bool,
    again: StoreJobView,
)
    requires
        carries_out(t0, inserting(job, blocked), t1, id),
        again.account_id == job.account_id,
        again.uid == job.uid,
    ensures
        is_known(t1, again.account_id, again.uid),
{
    let s = inserting(job, blocked);
    assert(int_at(s, 0) == job.account_id);
    assert(int_at(s, 1) == job.uid);
    let row = MailRow { account_id: int_at(s, 0), uid: int_at(s, 1), folder: text_at(s, 2) };
    if is_taken(t0, row) {
        let k = choose|k: int| #[trigger] t0.emails.contains_key(k) && t0.emails[k] == row;
        assert(t1.emails.contains_key(k));
    } else {
        assert(t1.emails.contains_key(id));
    }
}

} // verus!
