//! What is asked of the server and what its answers mean: numbers and sets of messages, what is fetched,
//! the end of a synchronization, moving and removing.
use vstd::prelude::*;

use crate::accounts::reading_purge_settings;
use crate::contact_files::{lemma_no_sep, lemma_split_on};
use crate::emails::reading_item;
use crate::imap::{
    batch, criteria, cut, decimals, messages, newer, number_of, number_set, numbers, requests,
    span_set, window, FetchAction, FetchStage, FetchedView, FetchingView, ITEMS_BY_NUMBER,
    ITEMS_BY_PLACE, MARK_DELETED, MARK_DELETED_SILENTLY,
};
use crate::moving::{LocatedView, MoveAction, MoveStage, MovingView, elsewhere, grouped, uids_in};
use crate::order::{arranged, lemma_arrangement};
use crate::purge::{PurgeAction, PurgeStage, Purging, stage_after, trash_names};
use crate::sql::number_in;
use crate::sync::{
    filtering, highest, last_known, reading_last_uid, remembering, FullAction, FullStage,
    FullSyncView, SyncAction, SyncFetch, SyncPlan, SyncStage, SyncingView,
};
use crate::text::{decimal, digit, fold, has_word, joined, signed_decimal, split, word_at};

verus! {

// ---------------------------------------------------------------------------------------------
// Numbers
// ---------------------------------------------------------------------------------------------

/// A number that is written in digits is read back as it was, and is written without leading zeros.
pub proof fn law_decimal(n: nat)
    ensures
        number_in(decimal(n)) == n,
        decimal(n).len() > 0,
        n > 0 ==> decimal(n)[0] != '0',
        forall|i: int| 0 <= i < decimal(n).len() ==> '0' <= #[trigger] decimal(n)[i] <= '9',
    decreases n,
{
    if n < 10 {
        let s = seq![digit(n)];
        assert(s.drop_last() =~= Seq::<char>::empty());
        assert(decimal(n) == s);
        assert(s.last() == digit(n));
        assert(number_in(s.drop_last()) == 0);
        assert(digit(n) as int == 48 + n);
    } else {
        let t = decimal(n / 10);
        law_decimal(n / 10);
        let d = digit(n % 10);
        assert(decimal(n) == t.push(d));
        assert(t.push(d).drop_last() =~= t);
        assert(d as int == 48 + n % 10);
        assert(decimal(n)[0] == t[0]);
        assert forall|i: int| 0 <= i < decimal(n).len() implies '0' <= #[trigger] decimal(n)[i] <= '9' by {
            if i < t.len() {
                assert(decimal(n)[i] == t[i]);
            }
        }
    }
}

/// A negative number is written with a minus sign before its digits.
pub proof fn law_signed_decimal(n: int)
    ensures
        n >= 0 ==> number_in(signed_decimal(n)) == n,
        n < 0 ==> signed_decimal(n)[0] == '-' && number_in(signed_decimal(n).skip(1)) == -n,
{
    if n >= 0 {
        law_decimal(n as nat);
    } else {
        law_decimal((-n) as nat);
        assert(signed_decimal(n).skip(1) =~= decimal((-n) as nat));
    }
}

proof fn lemma_no_mark(n: nat, c: char)
    requires
        c < '0' || c > '9',
    ensures
        !decimal(n).contains(c),
{
    law_decimal(n);
    if decimal(n).contains(c) {
        let i = choose|i: int| 0 <= i < decimal(n).len() && decimal(n)[i] == c;
        assert('0' <= decimal(n)[i] <= '9');
    }
}

proof fn lemma_joined(v: Seq<Seq<char>>, sep: char)
    requires
        v.len() > 0,
        forall|i: int| 0 <= i < v.len() ==> !(#[trigger] v[i]).contains(sep),
    ensures
        split(joined(v, seq![sep]), sep) == v,
    decreases v.len(),
{
    assert(!v[0].contains(sep));
    if v.len() == 1 {
        lemma_no_sep(v[0], sep);
        assert(seq![v[0]] =~= v);
    } else {
        let front = v.drop_last();
        assert forall|i: int| 0 <= i < front.len() implies !(#[trigger] front[i]).contains(sep) by {
            assert(!v[i].contains(sep));
        }
        lemma_joined(front, sep);
        let a = joined(front, seq![sep]).push(sep);
        assert(a.drop_last() =~= joined(front, seq![sep]));
        assert(split(a, sep) == front.push(Seq::empty()));
        assert(!v[v.len() - 1].contains(sep));
        lemma_split_on(a, v.last(), sep);
        assert(joined(v, seq![sep]) =~= a + v.last());
        assert(front.push(Seq::<char>::empty()).drop_last() =~= front);
        assert(Seq::<char>::empty() + v.last() =~= v.last());
        assert(front.push(v.last()) =~= v);
    }
}

/// A set of messages names exactly the numbers that it was made of, in their order, between commas.
pub proof fn law_number_set(uids: Seq<u32>)
    requires
        uids.len() > 0,
    ensures
        split(number_set(uids), ',').len() == uids.len(),
        forall|i: int|
            0 <= i < uids.len() ==> number_in(#[trigger] split(number_set(uids), ',')[i]) == uids[i],
{
    reveal_strlit(",");
    assert(","@ =~= seq![',']);
    let v = decimals(uids);
    assert forall|i: int| 0 <= i < v.len() implies !(#[trigger] v[i]).contains(',') by {
        lemma_no_mark(uids[i] as nat, ',');
    }
    lemma_joined(v, ',');
    assert forall|i: int| 0 <= i < uids.len() implies number_in(#[trigger] split(number_set(uids), ',')[i])
        == uids[i] by {
        law_decimal(uids[i] as nat);
    }
}

/// A span of messages names its first and its last, with a colon between them.
pub proof fn law_span_set(first: nat, last: nat)
    ensures
        split(span_set(first, last), ':').len() == 2,
        number_in(split(span_set(first, last), ':')[0]) == first,
        number_in(split(span_set(first, last), ':')[1]) == last,
{
    reveal_strlit(":");
    let v = seq![decimal(first), decimal(last)];
    lemma_no_mark(first, ':');
    lemma_no_mark(last, ':');
    lemma_joined(v, ':');
    assert(v.drop_last() =~= seq![decimal(first)]);
    reveal_with_fuel(joined, 2);
    assert(joined(v, seq![':']) =~= span_set(first, last));
    law_decimal(first);
    law_decimal(last);
}

/// New messages are searched for by their numbers, from the one after the last known.
pub proof fn law_criteria(last_uid: u32)
    ensures
        ({
            let c = criteria(last_uid as int);
            let n = c.len();
            &&& c.take(4) == "UID "@
            &&& c.skip(n - 2) == ":*"@
            &&& number_in(c.subrange(4, n - 2)) == last_uid + 1
        }),
{
    reveal_strlit("UID ");
    reveal_strlit(":*");
    let c = criteria(last_uid as int);
    let d = decimal((last_uid + 1) as nat);
    law_decimal((last_uid + 1) as nat);
    assert(c.take(4) =~= "UID "@);
    assert(c.skip(c.len() - 2) =~= ":*"@);
    assert(c.subrange(4, c.len() - 2) =~= d);
}

// ---------------------------------------------------------------------------------------------
// What is fetched
// ---------------------------------------------------------------------------------------------

/// The last message of a window is the newest one that is not passed over, and there is a window exactly
/// if not all messages are.
pub proof fn law_window_end(count: int, limit: int, offset: int)
    requires
        0 < limit,
        0 <= offset,
        0 <= count,
    ensures
        window(count, limit, offset) is Some <==> offset < count,
        window(count, limit, offset) matches Some((first, last)) ==> last == count - offset && (count
            - offset <= limit ==> first == 1) && (count - offset > limit ==> last - first + 1 == limit),
{
}

/// A batch has at most a hundred messages, all of them after the last known one, and a request asks for at
/// most fifty.
pub proof fn law_sizes(found: Seq<u32>, last_uid: u32, uids: Seq<u32>)
    ensures
        batch(found, last_uid).len() <= 100,
        newer(found, last_uid).len() <= 100 ==> batch(found, last_uid).len() == newer(
            found,
            last_uid,
        ).len(),
        newer(found, last_uid).len() > 100 ==> batch(found, last_uid).len() == 100,
        uids.len() <= 50 && uids.len() > 0 ==> requests(uids) == seq![number_set(uids)],
        uids.len() > 50 ==> requests(uids)[0] == number_set(uids.take(50)) && requests(uids).len()
            == requests(uids.skip(50)).len() + 1,
{
    lemma_arranged_len(newer(found, last_uid));
    if 0 < uids.len() <= 50 {
        assert(cut(uids, 50) =~= seq![uids]);
        assert(requests(uids) =~= seq![number_set(uids)]);
    }
}

proof fn lemma_arranged_len(s: Seq<u32>)
    ensures
        arranged(s).len() == s.len(),
{
    lemma_arrangement(s);
    arranged(s).to_multiset_ensures();
    s.to_multiset_ensures();
}

/// The messages of two answers are those of the first, then those of the second.
pub proof fn law_messages_join(a: Seq<FetchedView>, b: Seq<FetchedView>, by_uid: bool)
    ensures
        messages(a + b, by_uid) == messages(a, by_uid) + messages(b, by_uid),
    decreases b.len(),
{
    if b.len() == 0 {
        assert(a + b =~= a);
        assert(messages(a, by_uid) + messages(b, by_uid) =~= messages(a, by_uid));
    } else {
        assert((a + b).drop_last() =~= a + b.drop_last());
        law_messages_join(a, b.drop_last(), by_uid);
        assert(messages(a + b, by_uid) =~= messages(a, by_uid) + messages(b, by_uid));
    }
}

/// A message counts under its number; where that is missing, under its place, unless numbers were asked
/// for. Without a text it does not count.
pub proof fn law_one_message(f: FetchedView, by_uid: bool)
    ensures
        f.uid is Some && f.body is Some ==> messages(seq![f], by_uid) == seq![(f.uid->0, f.body->0)],
        f.uid is None && !by_uid && f.body is Some ==> messages(seq![f], by_uid) == seq![
            (f.seq, f.body->0),
        ],
        f.uid is None && by_uid ==> messages(seq![f], by_uid).len() == 0,
        f.body is None ==> messages(seq![f], by_uid).len() == 0,
{
    let none = Seq::<FetchedView>::empty();
    assert(seq![f].drop_last() =~= none);
    assert(seq![f].last() == f);
    reveal_with_fuel(messages, 2);
    if number_of(f, by_uid) is Some && f.body is Some {
        let m = (number_of(f, by_uid)->0, f.body->0);
        assert(Seq::<(u32, Seq<u8>)>::empty().push(m) =~= seq![m]);
    }
}

/// What is asked of the server names the texts of messages and the mark of deletion.
pub proof fn law_requests_say()
    ensures
        has_word(ITEMS_BY_PLACE@, "UID"@),
        has_word(ITEMS_BY_PLACE@, "RFC822"@),
        ITEMS_BY_NUMBER@ == "RFC822"@,
        has_word(MARK_DELETED@, "+FLAGS "@),
        has_word(MARK_DELETED@, "(\\Deleted)"@),
        has_word(MARK_DELETED_SILENTLY@, "+FLAGS.SILENT "@),
        has_word(MARK_DELETED_SILENTLY@, "(\\Deleted)"@),
{
    reveal_strlit("(UID RFC822)");
    reveal_strlit("UID");
    reveal_strlit("RFC822");
    reveal_strlit("+FLAGS (\\Deleted)");
    reveal_strlit("+FLAGS ");
    reveal_strlit("(\\Deleted)");
    reveal_strlit("+FLAGS.SILENT (\\Deleted)");
    reveal_strlit("+FLAGS.SILENT ");
    assert(ITEMS_BY_PLACE@.subrange(1, 4) =~= "UID"@);
    assert(word_at(ITEMS_BY_PLACE@, "UID"@, 1));
    assert(ITEMS_BY_PLACE@.subrange(5, 11) =~= "RFC822"@);
    assert(word_at(ITEMS_BY_PLACE@, "RFC822"@, 5));
    assert(MARK_DELETED@.subrange(0, 7) =~= "+FLAGS "@);
    assert(word_at(MARK_DELETED@, "+FLAGS "@, 0));
    assert(MARK_DELETED@.subrange(7, 17) =~= "(\\Deleted)"@);
    assert(word_at(MARK_DELETED@, "(\\Deleted)"@, 7));
    assert(MARK_DELETED_SILENTLY@.subrange(0, 14) =~= "+FLAGS.SILENT "@);
    assert(word_at(MARK_DELETED_SILENTLY@, "+FLAGS.SILENT "@, 0));
    assert(MARK_DELETED_SILENTLY@.subrange(14, 24) =~= "(\\Deleted)"@);
    assert(word_at(MARK_DELETED_SILENTLY@, "(\\Deleted)"@, 14));
}

// ---------------------------------------------------------------------------------------------
// The end of a synchronization
// ---------------------------------------------------------------------------------------------

/// When all messages have been stored, the number of the last one is kept if it has risen; then, if there
/// were any messages, those of blacklisted contacts are moved; then, in the inbox and if it was not
/// the first synchronization and passed nothing over, it is found out what is done with old messages.
pub proof fn law_end_of_sync(s: SyncingView, settings: Option<(Option<i64>, i32)>)
    ensures
        ({
            let all = s.at(s.when_stored(s.uids.len() as int));
            let remembered = s.at(SyncStage::Remember).after_executed();
            let filtered = s.at(SyncStage::Filter).after_executed();
            let asks = s.folder == "INBOX"@ && s.plan.offset == 0 && s.plan.last_uid > 0;
            &&& s.new_last() > s.plan.last_uid <==> all.stage == SyncStage::Remember
            &&& s.uids.len() > 0 ==> remembered.stage == SyncStage::Filter
            &&& s.uids.len() == 0 && asks ==> remembered.stage == SyncStage::AskPurge
            &&& s.uids.len() == 0 && !asks ==> remembered.stage == SyncStage::Done
            &&& asks ==> filtered.stage == SyncStage::AskPurge
            &&& !asks ==> filtered.stage == SyncStage::Done
            &&& settings matches Some((Some(days), permanent)) ==> s.after_purge_settings(
                settings,
            ).stage == SyncStage::Purge(days, permanent != 0)
            &&& settings matches Some((None, _)) ==> s.after_purge_settings(settings).stage
                == SyncStage::Done
            &&& settings is None ==> s.after_purge_settings(settings).stage == SyncStage::Done
        }),
{
}

/// The user is told of the new messages of a synchronization, but not of those of the first one.
pub proof fn law_told(s: SyncingView)
    ensures
        s.plan.offset == 0 && s.plan.last_uid == 0 ==> s.told().len() == 0,
        s.plan.offset > 0 || s.plan.last_uid > 0 ==> s.told() == s.items,
{
}

/// After the first synchronization the last known number is the one before the number that the server will
/// give next, if the server says which that is; otherwise it is the largest number that was received.
pub proof fn law_last_known(plan: SyncPlan, uid_next: u32, max_uid: u32)
    ensures
        plan.offset == 0 && plan.last_uid == 0 && uid_next > 0 ==> last_known(plan, uid_next, max_uid) + 1
            == uid_next,
        plan.offset > 0 || plan.last_uid > 0 || uid_next == 0 ==> last_known(plan, uid_next, max_uid)
            == max_uid,
{
}

/// A synchronization of a folder that the server does not have ends without an error, and with any other
/// error it fails.
pub proof fn law_missing_folder(s: SyncingView, before: Seq<char>, after: Seq<char>, e: Seq<char>)
    ensures
        s.after_fetch_error(before + "NONEXISTENT"@ + after).stage == SyncStage::Done,
        has_word(fold(e), "not exist"@) ==> s.after_fetch_error(e).stage == SyncStage::Done,
        !has_word(e, "NONEXISTENT"@) && !has_word(fold(e), "not exist"@) ==> s.after_fetch_error(e).stage
            == SyncStage::Failed,
{
    let m = before + "NONEXISTENT"@ + after;
    let w = "NONEXISTENT"@;
    assert(m.subrange(before.len() as int, (before.len() + w.len()) as int) =~= w);
    assert(word_at(m, w, before.len() as int));
}

// ---------------------------------------------------------------------------------------------
// Moving
// ---------------------------------------------------------------------------------------------

/// The messages that are moved are exactly those that are not in the folder yet.
pub proof fn law_elsewhere(rows: Seq<LocatedView>, target: Seq<char>, m: LocatedView)
    ensures
        elsewhere(rows, target).contains(m) <==> rows.contains(m) && m.folder != target,
    decreases rows.len(),
{
    if rows.len() > 0 {
        let front = rows.drop_last();
        let one = rows.last();
        law_elsewhere(front, target, m);
        let d = elsewhere(front, target);
        assert(rows[rows.len() - 1] == one);
        if rows.contains(m) {
            let i = choose|i: int| 0 <= i < rows.len() && rows[i] == m;
            if i < front.len() {
                assert(front[i] == m);
            }
        }
        if front.contains(m) {
            let i = choose|i: int| 0 <= i < front.len() && front[i] == m;
            assert(rows[i] == m);
        }
        if one.folder != target {
            assert(d.push(one)[d.len() as int] == one);
            if d.contains(m) {
                let i = choose|i: int| 0 <= i < d.len() && d[i] == m;
                assert(d.push(one)[i] == m);
            }
            if d.push(one).contains(m) {
                let i = choose|i: int| 0 <= i < d.push(one).len() && d.push(one)[i] == m;
                if i < d.len() {
                    assert(d[i] == m);
                }
            }
        }
    }
}

/// The group of a folder has exactly the numbers of the messages in it.
pub proof fn law_uids_in(rows: Seq<LocatedView>, folder: Seq<char>, uid: u32)
    ensures
        uids_in(rows, folder).contains(uid) <==> exists|k: int|
            0 <= k < rows.len() && (#[trigger] rows[k]).folder == folder && rows[k].uid == uid,
    decreases rows.len(),
{
    if rows.len() > 0 {
        let front = rows.drop_last();
        let one = rows.last();
        law_uids_in(front, folder, uid);
        let d = uids_in(front, folder);
        assert(rows[rows.len() - 1] == one);
        if exists|k: int| 0 <= k < front.len() && (#[trigger] front[k]).folder == folder && front[k].uid
            == uid {
            let k = choose|k: int|
                0 <= k < front.len() && (#[trigger] front[k]).folder == folder && front[k].uid == uid;
            assert(rows[k].folder == folder && rows[k].uid == uid);
        }
        if exists|k: int| 0 <= k < rows.len() && (#[trigger] rows[k]).folder == folder && rows[k].uid
            == uid {
            let k = choose|k: int|
                0 <= k < rows.len() && (#[trigger] rows[k]).folder == folder && rows[k].uid == uid;
            if k < front.len() {
                assert(front[k].folder == folder && front[k].uid == uid);
            }
        }
        if one.folder == folder {
            assert(d.push(one.uid)[d.len() as int] == one.uid);
            if d.contains(uid) {
                let i = choose|i: int| 0 <= i < d.len() && d[i] == uid;
                assert(d.push(one.uid)[i] == uid);
            }
            if d.push(one.uid).contains(uid) {
                let i = choose|i: int| 0 <= i < d.push(one.uid).len() && d.push(one.uid)[i] == uid;
                if i < d.len() {
                    assert(d[i] == uid);
                }
            }
        }
    }
}

/// The groups are those of the folders, each with the numbers of its messages.
pub proof fn law_groups(rows: Seq<LocatedView>, i: int)
    requires
        0 <= i < grouped(rows).len(),
    ensures
        grouped(rows)[i].uids == uids_in(rows, grouped(rows)[i].folder),
{
}

/// The messages of a folder are moved when it has been selected; where the server cannot move them, they
/// are copied, marked and removed. Then the next folder has its turn, and after the last nothing is left.
pub proof fn law_moving(m: MovingView, e: Seq<char>)
    requires
        m.done < m.groups.len(),
    ensures
        ({
            let done = Ok::<(), Seq<char>>(());
            let refused = Err::<(), Seq<char>>(e);
            let next = if m.done + 1 < m.groups.len() {
                MoveStage::Select
            } else {
                MoveStage::Done
            };
            &&& m.at(MoveStage::Select).after(done) == Ok::<MovingView, Seq<char>>(m.at(MoveStage::Move))
            &&& m.at(MoveStage::Move).after(refused) == Ok::<MovingView, Seq<char>>(
                m.at(MoveStage::Copy),
            )
            &&& m.at(MoveStage::Copy).after(done) == Ok::<MovingView, Seq<char>>(m.at(MoveStage::Mark))
            &&& m.at(MoveStage::Mark).after(done) == Ok::<MovingView, Seq<char>>(
                m.at(MoveStage::Expunge),
            )
            &&& m.at(MoveStage::Move).after(done) matches Ok(n) && n.stage == next && n.done == m.done + 1
            &&& m.at(MoveStage::Expunge).after(done) matches Ok(n) && n.stage == next && n.done == m.done
                + 1
            &&& m.at(MoveStage::Select).after(refused) is Err
            &&& m.at(MoveStage::Copy).after(refused) is Err
            &&& m.at(MoveStage::Mark).after(refused) is Err
            &&& m.at(MoveStage::Expunge).after(refused) is Err
        }),
{
}

/// An error names what the server has said.
pub proof fn law_moving_error(m: MovingView, e: Seq<char>)
    ensures
        m.after(Err(e)) matches Err(said) ==> has_word(said, e),
{
    if let Err(said) = m.after(Err(e)) {
        assert(said.subrange(said.len() - e.len(), said.len() as int) =~= e);
        assert(word_at(said, e, said.len() - e.len()));
    }
}

// ---------------------------------------------------------------------------------------------
// Removing old messages
// ---------------------------------------------------------------------------------------------

/// Messages that are removed for good are marked when the inbox has been selected, and removed when they
/// have been marked; others are first moved.
pub proof fn law_purging(permanent: bool, i: usize)
    ensures
        stage_after(PurgeStage::Select, true, true) == Some(PurgeStage::Mark),
        stage_after(PurgeStage::Select, false, true) == Some(PurgeStage::Probe(0)),
        stage_after(PurgeStage::Select, permanent, false) is None,
        stage_after(PurgeStage::Probe(i), permanent, true) == Some(PurgeStage::Move(i)),
        i < 6 ==> stage_after(PurgeStage::Probe(i), permanent, false) == Some(
            PurgeStage::Probe((i + 1) as usize),
        ),
        i == 6 ==> stage_after(PurgeStage::Probe(i), permanent, false) == Some(PurgeStage::Move(0)),
        stage_after(PurgeStage::Mark, permanent, true) == Some(PurgeStage::Expunge),
        stage_after(PurgeStage::Mark, permanent, false) is None,
        stage_after(PurgeStage::Expunge, permanent, true) == Some(PurgeStage::Done),
        stage_after(PurgeStage::Expunge, permanent, false) is None,
{
}

/// The folder for deleted messages is looked for under these names, in this order.
pub proof fn law_trash_names()
    ensures
        trash_names() == seq![
            "Trash"@,
            "INBOX.Trash"@,
            "[Gmail]/Корзина"@,
            "[Gmail]/Trash"@,
            "Удалённые"@,
            "Deleted Messages"@,
            "Deleted Items"@,
        ],
{
}

// ---------------------------------------------------------------------------------------------
// What is asked for
// ---------------------------------------------------------------------------------------------

/// The largest number is one of those received or the one that was known, and none is larger.
pub proof fn law_highest(least: u32, uids: Seq<u32>)
    ensures
        highest(least, uids) >= least,
        highest(least, uids) == least || uids.contains(highest(least, uids)),
        forall|i: int| 0 <= i < uids.len() ==> #[trigger] uids[i] <= highest(least, uids),
    decreases uids.len(),
{
    if uids.len() > 0 {
        let t = uids.drop_last();
        law_highest(least, t);
        let h = highest(least, t);
        if t.contains(h) {
            let i = choose|i: int| 0 <= i < t.len() && t[i] == h;
            assert(uids[i] == h);
        }
        assert(uids[uids.len() - 1] == uids.last());
        assert forall|i: int| 0 <= i < uids.len() implies #[trigger] uids[i] <= highest(least, uids) by {
            if i < t.len() {
                assert(t[i] == uids[i]);
            }
        }
    }
}

/// A synchronization asks for what its stage is about, of its own account and folder, and ends as it went.
pub proof fn law_sync_asks(s: SyncingView, a: SyncAction)
    requires
        s.wants(a),
    ensures
        s.stage == SyncStage::AskLast ==> (a matches SyncAction::AskLast(q) && q@ == reading_last_uid(
            s.account_id,
            s.folder,
        )),
        s.stage == SyncStage::Fetch && s.plan.offset == 0 && s.plan.last_uid > 0 ==> a
            == SyncAction::Fetch(SyncFetch::New { last_uid: s.plan.last_uid }),
        s.stage == SyncStage::Fetch && (s.plan.offset > 0 || s.plan.last_uid == 0) ==> a
            == SyncAction::Fetch(SyncFetch::Window { limit: 100, offset: s.plan.offset }),
        s.stage matches SyncStage::Store(i) ==> a == SyncAction::Store(i),
        s.stage matches SyncStage::ReadItem(_, id) ==> (a matches SyncAction::ReadItem(q) && q@
            == reading_item(id as int)),
        s.stage == SyncStage::Remember ==> (a matches SyncAction::Execute(q) && q@ == remembering(
            s.account_id,
            s.folder,
            s.new_last() as int,
        )),
        s.stage == SyncStage::Filter ==> (a matches SyncAction::Execute(q) && q@ == filtering(
            s.account_id,
        )),
        s.stage == SyncStage::AskPurge ==> (a matches SyncAction::AskPurge(q) && q@
            == reading_purge_settings(s.account_id)),
        s.stage matches SyncStage::Purge(days, permanent) ==> a == (SyncAction::Purge {
            days,
            permanent,
        }),
        s.stage == SyncStage::Done <==> a is Finish,
        s.stage == SyncStage::Failed <==> a is Fail,
{
}

/// A fetch marks and removes exactly the messages that it has received.
pub proof fn law_fetch_asks(f: FetchingView, a: FetchAction)
    requires
        f.wants(a),
        f.got.len() > 0,
    ensures
        a is Fetch <==> f.stage == FetchStage::Fetch,
        a is Mark <==> f.stage == FetchStage::Mark,
        a is Expunge <==> f.stage == FetchStage::Expunge,
        a is Finish <==> f.stage == FetchStage::Done,
        a matches FetchAction::Fetch { set, by_uid } ==> set@ == f.sets[f.answered as int] && by_uid
            == f.by_uid,
        a matches FetchAction::Mark { set } ==> split(set@, ',').len() == f.got.len() && forall|i: int|
            0 <= i < f.got.len() ==> number_in(#[trigger] split(set@, ',')[i]) == f.got[i].0,
{
    law_number_set(numbers(f.got));
    if let FetchAction::Mark { set } = a {
        assert forall|i: int| 0 <= i < f.got.len() implies number_in(#[trigger] split(set@, ',')[i])
            == f.got[i].0 by {
            assert(numbers(f.got)[i] == f.got[i].0);
        }
    }
}

/// Fetching a whole folder asks for the window that its stage is about, and marks exactly the messages of its
/// batch.
pub proof fn law_full_sync_asks(s: FullSyncView, a: FullAction)
    requires
        s.wants(a),
        s.uids.len() > 0,
        s.offset >= 0,
        s.total >= 0,
    ensures
        a is Check <==> s.stage == FullStage::Check,
        a is Fetch <==> s.stage == FullStage::Fetch,
        a is Mark <==> s.stage == FullStage::Mark,
        a is Expunge <==> s.stage == FullStage::Expunge,
        a is Report <==> s.stage == FullStage::Report,
        a is Finish <==> s.stage == FullStage::Done,
        s.stage matches FullStage::Store(i) ==> a == FullAction::Store(i),
        a matches FullAction::Fetch { set } ==> number_in(split(set@, ':')[1]) == s.total - s.offset && (
        s.total - s.offset > 100 ==> number_in(split(set@, ':')[0]) == s.total - s.offset - 99) && (s.total
            - s.offset <= 100 ==> number_in(split(set@, ':')[0]) == 1),
        a matches FullAction::Mark { set } ==> split(set@, ',').len() == s.uids.len() && forall|i: int|
            0 <= i < s.uids.len() ==> number_in(#[trigger] split(set@, ',')[i]) == s.uids[i],
        a matches FullAction::Report { fetched, total, inserted } ==> total == s.total && inserted
            == s.inserted && fetched <= total && (s.offset <= s.total ==> fetched == s.offset) && (s.offset
            > s.total ==> fetched == s.total),
{
    law_number_set(s.uids);
    if let Some((first, last)) = window(s.total, 100, s.offset) {
        law_span_set(first as nat, last as nat);
    }
}

/// Moving asks for the messages of the group that has its turn, out of its folder and into the target.
pub proof fn law_moving_asks(m: MovingView, a: MoveAction)
    requires
        m.wants(a),
        m.done < m.groups.len(),
        m.groups[m.done as int].uids.len() > 0,
    ensures
        m.stage == MoveStage::Select ==> (a matches MoveAction::Select { folder } && folder@
            == m.groups[m.done as int].folder),
        m.stage == MoveStage::Move ==> (a matches MoveAction::Move { set, target } && target@ == m.target
            && split(set@, ',').len() == m.groups[m.done as int].uids.len()),
        m.stage == MoveStage::Copy ==> (a matches MoveAction::Copy { set, target } && target@ == m.target
            && split(set@, ',').len() == m.groups[m.done as int].uids.len()),
        m.stage == MoveStage::Mark ==> a is Mark,
        m.stage == MoveStage::Expunge ==> a is Expunge,
        m.stage == MoveStage::Done ==> a is Finish,
{
    law_number_set(m.groups[m.done as int].uids);
}

/// Removing old messages asks for exactly these messages, out of the inbox.
pub proof fn law_purge_asks(p: Purging, a: PurgeAction)
    requires
        p.wants(a),
        p.uids@.len() > 0,
    ensures
        p.stage == PurgeStage::Select ==> (a matches PurgeAction::Select { folder } && folder@ == "INBOX"@),
        p.stage matches PurgeStage::Probe(i) ==> (a matches PurgeAction::List { name } && name@
            == trash_names()[i as int]),
        p.stage matches PurgeStage::Move(i) ==> (a matches PurgeAction::Move { set, target } && target@
            == trash_names()[i as int] && split(set@, ',').len() == p.uids@.len()),
        p.stage == PurgeStage::Mark ==> (a matches PurgeAction::Mark { set } && split(set@, ',').len()
            == p.uids@.len() && forall|i: int|
            0 <= i < p.uids@.len() ==> number_in(#[trigger] split(set@, ',')[i]) == p.uids@[i]),
        p.stage == PurgeStage::Expunge ==> a is Expunge,
        p.stage == PurgeStage::Done ==> a is Finish,
{
    law_number_set(p.uids@);
}

} // verus!
