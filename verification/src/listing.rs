//! What a list of messages and a search answer: which messages, in which order and how many.
use vstd::prelude::*;

use crate::emails::{filter_clause, listing, order_clause, pattern_of, searching};
use crate::order::not_after;
use crate::sql::{
    comes_before, is_gap, is_like, lemma_lists, lemma_terms, like, lists, number_in, stands,
    value_of, Filter, Keys, Likes, List, Row, Tests, Words,
};
use crate::statements::{StatementView, ValueView};
use crate::text::{ascii_lower, ascii_lower_char, has_word, lowercase, word_at};

verus! {

/// What a list shows of each message.
pub open spec fn shown_columns() -> Seq<Seq<char>> {
    seq![
        "id"@, "uid"@, "folder"@, "from_addr"@, "to_addr"@, "subject"@, "date"@, "date_ts"@,
        "is_read"@, "is_starred"@, "has_attachment"@, "snippet"@,
    ]
}

/// Of two messages the newer one comes first, and of two of the same time the one that was stored later.
pub open spec fn newest_first(a: Row, b: Row) -> bool {
    ||| comes_before(b["date_ts"@], a["date_ts"@])
    ||| !comes_before(a["date_ts"@], b["date_ts"@]) && !comes_before(a["id"@], b["id"@])
}

/// A number that is not smaller than another is greater or the same.
proof fn lemma_orders()
    ensures
        forall|a: ValueView, b: ValueView| #[trigger] comes_before(a, b) ==> !comes_before(b, a),
{
    assert forall|a: ValueView, b: ValueView| #[trigger] comes_before(a, b) implies !comes_before(b, a) by {
        if let ValueView::Text(x) = a {
            if let ValueView::Text(y) = b {
                lemma_not_after_total(x, y);
            }
        }
    }
}

/// Of two texts one is not after the other.
proof fn lemma_not_after_total(x: Seq<char>, y: Seq<char>)
    ensures
        not_after(x, y) || not_after(y, x),
    decreases x.len(),
{
    if x.len() > 0 && y.len() > 0 && x[0] == y[0] {
        lemma_not_after_total(x.drop_first(), y.drop_first());
    }
}

/// A value is a text that holds another in lowercase, whatever the case of letters of ASCII.
pub open spec fn holds_text(v: ValueView, q: Seq<char>) -> bool {
    v matches ValueView::Text(t) && has_word(ascii_lower(lowercase(t)), ascii_lower(q))
}

proof fn lemma_like_rest(u: Seq<char>, q: Seq<char>)
    requires
        !q.contains('%'),
        !q.contains('_'),
    ensures
        like(u, q + seq!['%']) <==> q.len() <= u.len() && forall|i: int|
            0 <= i < q.len() ==> ascii_lower_char(#[trigger] u[i]) == ascii_lower_char(q[i]),
    decreases q.len(),
{
    let p = q + seq!['%'];
    if q.len() == 0 {
        assert(p.skip(1) =~= Seq::<char>::empty());
        assert(u.skip(u.len() as int).len() == 0);
        assert(like(u.skip(u.len() as int), p.skip(1)));
    } else {
        let r = q.skip(1);
        assert(q[0] != '%' && q[0] != '_');
        assert forall|c: char| !q.contains(c) implies !r.contains(c) by {
            if r.contains(c) {
                let i = choose|i: int| 0 <= i < r.len() && r[i] == c;
                assert(q[i + 1] == c);
            }
        }
        assert(p.skip(1) =~= r + seq!['%']);
        if u.len() > 0 {
            let v = u.skip(1);
            lemma_like_rest(v, r);
            if like(u, p) {
                assert forall|i: int| 0 <= i < q.len() implies ascii_lower_char(#[trigger] u[i])
                    == ascii_lower_char(q[i]) by {
                    if i > 0 {
                        assert(ascii_lower_char(v[i - 1]) == ascii_lower_char(r[i - 1]));
                    }
                }
            }
            if q.len() <= u.len() && forall|i: int|
                0 <= i < q.len() ==> ascii_lower_char(#[trigger] u[i]) == ascii_lower_char(q[i]) {
                assert(ascii_lower_char(u[0]) == ascii_lower_char(q[0]));
                assert forall|i: int| 0 <= i < r.len() implies ascii_lower_char(#[trigger] v[i])
                    == ascii_lower_char(r[i]) by {
                    assert(ascii_lower_char(u[i + 1]) == ascii_lower_char(q[i + 1]));
                }
            }
        }
    }
}

/// A text is like another between two `%` exactly if it holds it somewhere, whatever the case of
/// letters of ASCII.
pub proof fn law_like(t: Seq<char>, q: Seq<char>)
    requires
        !q.contains('%'),
        !q.contains('_'),
    ensures
        like(t, seq!['%'] + q + seq!['%']) <==> has_word(ascii_lower(t), ascii_lower(q)),
{
    let p = seq!['%'] + q + seq!['%'];
    assert(p.skip(1) =~= q + seq!['%']);
    let (a, b) = (ascii_lower(t), ascii_lower(q));
    if like(t, p) {
        let k = choose|k: int| 0 <= k <= t.len() && like(#[trigger] t.skip(k), p.skip(1));
        let u = t.skip(k);
        lemma_like_rest(u, q);
        assert(a.subrange(k, k + b.len()) =~= b) by {
            assert forall|i: int| 0 <= i < b.len() implies a[k + i] == b[i] by {
                assert(ascii_lower_char(u[i]) == ascii_lower_char(q[i]));
            }
        }
        assert(word_at(a, b, k));
    }
    if has_word(a, b) {
        let k = choose|k: int| #[trigger] word_at(a, b, k);
        let u = t.skip(k);
        assert forall|i: int| 0 <= i < q.len() implies ascii_lower_char(#[trigger] u[i])
            == ascii_lower_char(q[i]) by {
            assert(a.subrange(k, k + b.len())[i] == b[i]);
            assert(a[k + i] == ascii_lower_char(t[k + i]));
        }
        lemma_like_rest(u, q);
        assert(like(t.skip(k), p.skip(1)));
    }
}

/// A search lists the messages of the account of which sender, recipients, subject, preview or text, in
/// lowercase, are like the pattern, the newest first and at most as many as asked for.
#[verifier::spinoff_prover]
#[verifier::rlimit(100)]
pub proof fn law_search_pattern(account_id: int, pattern: Seq<char>, limit: int)
    ensures
        lists(
            searching(account_id, pattern, limit),
            shown_columns(),
            "emails"@,
            |row: Row| row["account_id"@] == ValueView::Int(account_id) && (is_like(row["from_addr"@], ValueView::Text(pattern))
                || is_like(row["to_addr"@], ValueView::Text(pattern))
                || is_like(row["subject"@], ValueView::Text(pattern))
                || is_like(row["snippet"@], ValueView::Text(pattern))
                || is_like(row["body_text"@], ValueView::Text(pattern))),
            |a: Row, b: Row| newest_first(a, b),
            limit,
            0,
        ),
{
    let s = searching(account_id, pattern, limit);
    reveal_strlit("SELECT id, uid, folder, from_addr, to_addr, subject, date, date_ts,
                is_read, is_starred, has_attachment, snippet
         FROM emails
         WHERE account_id=?1 AND (
             u_lower(from_addr) LIKE ?2 OR
             u_lower(to_addr)   LIKE ?2 OR
             u_lower(subject)   LIKE ?2 OR
             u_lower(snippet)   LIKE ?2 OR
             u_lower(body_text) LIKE ?2
         )
         ORDER BY date_ts DESC, id DESC
         LIMIT ?3");
    reveal_strlit(" ");
    reveal_strlit("id");
    reveal_strlit(", ");
    reveal_strlit("uid");
    reveal_strlit("folder");
    reveal_strlit("from_addr");
    reveal_strlit("to_addr");
    reveal_strlit("subject");
    reveal_strlit("date");
    reveal_strlit("date_ts");
    reveal_strlit(",\n                ");
    reveal_strlit("is_read");
    reveal_strlit("is_starred");
    reveal_strlit("has_attachment");
    reveal_strlit("snippet");
    reveal_strlit("\n             ");
    reveal_strlit("?2");
    reveal_strlit(" OR\n             ");
    reveal_strlit("   ");
    reveal_strlit("body_text");
    reveal_strlit(" DESC");
    reveal_strlit("");
    reveal_strlit("SELECT");
    reveal_strlit("FROM ");
    reveal_strlit("emails");
    reveal_strlit("WHERE ");
    reveal_strlit("=");
    reveal_strlit("?1");
    reveal_strlit("account_id");
    reveal_strlit(" AND (");
    reveal_strlit("u_lower(");
    reveal_strlit(")");
    reveal_strlit("LIKE ");
    reveal_strlit(" OR");
    reveal_strlit("ORDER BY ");
    reveal_strlit("LIMIT ");
    reveal_strlit("?3");
    reveal_strlit("\n         ");
    reveal_strlit(" AND ");
    reveal_strlit(" AND (
             u_lower(from_addr) LIKE ?2 OR
             u_lower(to_addr)   LIKE ?2 OR
             u_lower(subject)   LIKE ?2 OR
             u_lower(snippet)   LIKE ?2 OR
             u_lower(body_text) LIKE ?2
         )");
    reveal_strlit("date_ts DESC, id DESC");
    lemma_terms(s.params);
    lemma_orders();
    let filter_text = " AND (\n             u_lower(from_addr) LIKE ?2 OR\n             u_lower(to_addr)   LIKE ?2 OR\n             u_lower(subject)   LIKE ?2 OR\n             u_lower(snippet)   LIKE ?2 OR\n             u_lower(body_text) LIKE ?2\n         )"@;
    let w12 = Words::Then { gap: ", "@, word: "snippet"@, rest: Box::new(Words::End) };
    let w11 = Words::Then { gap: ", "@, word: "has_attachment"@, rest: Box::new(w12) };
    let w10 = Words::Then { gap: ", "@, word: "is_starred"@, rest: Box::new(w11) };
    let w9 = Words::Then { gap: ",\n                "@, word: "is_read"@, rest: Box::new(w10) };
    let w8 = Words::Then { gap: ", "@, word: "date_ts"@, rest: Box::new(w9) };
    let w7 = Words::Then { gap: ", "@, word: "date"@, rest: Box::new(w8) };
    let w6 = Words::Then { gap: ", "@, word: "subject"@, rest: Box::new(w7) };
    let w5 = Words::Then { gap: ", "@, word: "to_addr"@, rest: Box::new(w6) };
    let w4 = Words::Then { gap: ", "@, word: "from_addr"@, rest: Box::new(w5) };
    let w3 = Words::Then { gap: ", "@, word: "folder"@, rest: Box::new(w4) };
    let w2 = Words::Then { gap: ", "@, word: "uid"@, rest: Box::new(w3) };
    let w1 = Words::Then { gap: " "@, word: "id"@, rest: Box::new(w2) };
    let l5 = Likes::Like { gap: " OR\n             "@, column: "body_text"@, pad: " "@, term: "?2"@, rest: Box::new(Likes::End) };
    let l4 = Likes::Like { gap: " OR\n             "@, column: "snippet"@, pad: "   "@, term: "?2"@, rest: Box::new(l5) };
    let l3 = Likes::Like { gap: " OR\n             "@, column: "subject"@, pad: "   "@, term: "?2"@, rest: Box::new(l4) };
    let l2 = Likes::Like { gap: " OR\n             "@, column: "to_addr"@, pad: "   "@, term: "?2"@, rest: Box::new(l3) };
    let l1 = Likes::Like { gap: "\n             "@, column: "from_addr"@, pad: " "@, term: "?2"@, rest: Box::new(l2) };
    let k2 = Keys::Key { gap: ", "@, column: "id"@, lowered: false, falls: true, rest: Box::new(Keys::End) };
    let k1 = Keys::Key { gap: ""@, column: "date_ts"@, lowered: false, falls: true, rest: Box::new(k2) };
    let likes = l1;
    let tests = Tests::Test { gap: "WHERE "@, column: "account_id"@, sign: "="@, term: "?1"@, rest: Box::new(Tests::End) };
    let keys = k1;
    let p = List {
        columns: w1,
        before_from: "\n         "@,
        table: "emails"@,
        before: "\n         "@,
        tests,
        filter_text,
        filter: Filter::Any(likes, "\n         "@),
        before_order: "\n         "@,
        order_text: "date_ts DESC, id DESC"@,
        keys,
        before_limit: "\n         "@,
        limit: "?3"@,
        offset: None,
    };
    assert(" OR\n             "@.skip(3) =~= "\n             "@);
    reveal_with_fuel(Words::end_in, 13);
    reveal_with_fuel(Words::count, 13);
    reveal_with_fuel(Words::at, 13);
    reveal_with_fuel(Tests::end_in, 2);
    reveal_with_fuel(Tests::hold, 2);
    reveal_with_fuel(Tests::all_joined, 2);
    reveal_with_fuel(Likes::end_in, 6);
    reveal_with_fuel(Likes::any, 6);
    reveal_with_fuel(Likes::all_joined, 6);
    reveal_with_fuel(Keys::end_in, 3);
    reveal_with_fuel(Keys::allow, 3);
    assert(p.filter.is_read(filter_text));
    assert(p.is_read(s.sql));
}

/// A statement lists exactly the messages of an account that hold a text, which is in lowercase, in
/// sender, recipients, subject, preview or text, the newest first and at most `limit` of them.
pub open spec fn finds(s: StatementView, account_id: int, q: Seq<char>, limit: int) -> bool {
    lists(
        s,
        shown_columns(),
        "emails"@,
        |row: Row| row["account_id"@] == ValueView::Int(account_id) && (holds_text(row["from_addr"@], q)
                || holds_text(row["to_addr"@], q)
                || holds_text(row["subject"@], q)
                || holds_text(row["snippet"@], q)
                || holds_text(row["body_text"@], q)),
        |a: Row, b: Row| newest_first(a, b),
        limit,
        0,
    )
}

/// A search for a text in lowercase lists exactly the messages of the account that hold it in sender,
/// recipients, subject, preview or text, the newest first and at most as many as asked for, unless the
/// text has the signs `%` and `_`.
pub proof fn law_search(account_id: int, q: Seq<char>, limit: int)
    requires
        !q.contains('%'),
        !q.contains('_'),
    ensures
        finds(searching(account_id, pattern_of(q), limit), account_id, q, limit),
{
    reveal_strlit("%");
    let pattern = pattern_of(q);
    assert(pattern =~= seq!['%'] + q + seq!['%']);
    law_search_pattern(account_id, pattern, limit);
    assert forall|v: ValueView| #[trigger] is_like(v, ValueView::Text(pattern)) <==> holds_text(v, q) by {
        if let ValueView::Text(t) = v {
            law_like(lowercase(t), q);
        }
    }
    let s = searching(account_id, pattern, limit);
    let picks = |row: Row| row["account_id"@] == ValueView::Int(account_id) && (is_like(row["from_addr"@], ValueView::Text(pattern))
                || is_like(row["to_addr"@], ValueView::Text(pattern))
                || is_like(row["subject"@], ValueView::Text(pattern))
                || is_like(row["snippet"@], ValueView::Text(pattern))
                || is_like(row["body_text"@], ValueView::Text(pattern)));
    let found = |row: Row| row["account_id"@] == ValueView::Int(account_id) && (holds_text(row["from_addr"@], q)
                || holds_text(row["to_addr"@], q)
                || holds_text(row["subject"@], q)
                || holds_text(row["snippet"@], q)
                || holds_text(row["body_text"@], q));
    assert forall|row: Row| #[trigger] picks(row) <==> found(row) by {}
    assert(picks =~= found);
}

/// The letters of a value in lowercase, if it is a text.
pub open spec fn lowered(v: ValueView) -> ValueView {
    match v {
        ValueView::Text(t) => ValueView::Text(lowercase(t)),
        _ => v,
    }
}

/// One message may come before another by a first value, and if that does not tell them apart, the newer
/// one comes first.
pub open spec fn then_newer(first: ValueView, second: ValueView, a: Row, b: Row) -> bool {
    comes_before(first, second) || !comes_before(second, first) && !comes_before(
        a["date_ts"@],
        b["date_ts"@],
    )
}

/// The order that a list is asked for: by time, by sender or by subject, the newest first if nothing
/// else is asked for.
pub open spec fn asked_order(sort: Option<Seq<char>>, a: Row, b: Row) -> bool {
    if sort == Some("date_asc"@) {
        newest_first(b, a)
    } else if sort == Some("from_asc"@) {
        then_newer(lowered(a["from_addr"@]), lowered(b["from_addr"@]), a, b)
    } else if sort == Some("from_desc"@) {
        then_newer(lowered(b["from_addr"@]), lowered(a["from_addr"@]), a, b)
    } else if sort == Some("subject_asc"@) {
        then_newer(lowered(a["subject"@]), lowered(b["subject"@]), a, b)
    } else if sort == Some("subject_desc"@) {
        then_newer(lowered(b["subject"@]), lowered(a["subject"@]), a, b)
    } else {
        newest_first(a, b)
    }
}

/// The messages that a list is asked for: the unread ones, those with attachments, or all.
pub open spec fn asked_for(filter: Option<Seq<char>>, row: Row) -> bool {
    &&& filter == Some("unread"@) ==> row["is_read"@] == ValueView::Int(0)
    &&& filter == Some("attachments"@) ==> row["has_attachment"@] == ValueView::Int(1)
}

/// The condition of a filter means what is asked for.
proof fn lemma_filter(filter: Option<Seq<char>>, params: Seq<ValueView>) -> (f: Filter)
    ensures
        f.is_read(filter_clause(filter)),
        forall|row: Row| #[trigger] f.holds(params, row) <==> asked_for(filter, row),
{
    reveal_strlit("unread");
    reveal_strlit("attachments");
    reveal_strlit(" AND is_read = 0");
    reveal_strlit(" AND has_attachment = 1");
    reveal_strlit("");
    reveal_strlit(" AND ");
    reveal_strlit("is_read");
    reveal_strlit("has_attachment");
    reveal_strlit(" = ");
    reveal_strlit("0");
    reveal_strlit("1");
    reveal_strlit("=");
    reveal_with_fuel(Tests::end_in, 2);
    reveal_with_fuel(Tests::hold, 2);
    reveal_with_fuel(Tests::all_joined, 2);
    reveal_with_fuel(number_in, 2);
    assert("0"@.drop_last() =~= Seq::<char>::empty());
    assert("1"@.drop_last() =~= Seq::<char>::empty());
    assert(value_of("0"@, params) == ValueView::Int(0));
    assert(value_of("1"@, params) == ValueView::Int(1));
    assert("unread"@.len() != "attachments"@.len());
    let t = filter_clause(filter);
    if filter == Some("unread"@) {
        let f = Filter::All(
            Tests::Test {
                gap: " AND "@,
                column: "is_read"@,
                sign: " = "@,
                term: "0"@,
                rest: Box::new(Tests::End),
            },
        );
        assert(f.is_read(t));
        assert forall|row: Row| #[trigger] f.holds(params, row) <==> asked_for(filter, row) by {}
        f
    } else if filter == Some("attachments"@) {
        let f = Filter::All(
            Tests::Test {
                gap: " AND "@,
                column: "has_attachment"@,
                sign: " = "@,
                term: "1"@,
                rest: Box::new(Tests::End),
            },
        );
        assert(f.is_read(t));
        assert forall|row: Row| #[trigger] f.holds(params, row) <==> asked_for(filter, row) by {}
        f
    } else {
        let f = Filter::All(Tests::End);
        assert(f.is_read(t));
        assert forall|row: Row| #[trigger] f.holds(params, row) <==> asked_for(filter, row) by {}
        f
    }
}

/// The order of a list is the one that is asked for.
#[verifier::spinoff_prover]
#[verifier::rlimit(60)]
proof fn lemma_order(sort: Option<Seq<char>>) -> (k: Keys)
    ensures
        k.end_in(order_clause(sort), 0) == order_clause(sort).len(),
        forall|a: Row, b: Row| #[trigger] k.allow(a, b) <==> asked_order(sort, a, b),
{
    reveal_strlit(" ASC");
    reveal_strlit("");
    reveal_strlit("date_ts");
    reveal_strlit(", ");
    reveal_strlit("id");
    reveal_strlit("date_ts ASC, id ASC");
    reveal_strlit("date_asc");
    reveal_strlit("u_lower(");
    reveal_strlit(")");
    reveal_strlit("from_addr");
    reveal_strlit(" DESC");
    reveal_strlit("u_lower(from_addr) ASC, date_ts DESC");
    reveal_strlit("from_asc");
    reveal_strlit("u_lower(from_addr) DESC, date_ts DESC");
    reveal_strlit("from_desc");
    reveal_strlit("subject");
    reveal_strlit("u_lower(subject) ASC, date_ts DESC");
    reveal_strlit("subject_asc");
    reveal_strlit("u_lower(subject) DESC, date_ts DESC");
    reveal_strlit("subject_desc");
    reveal_strlit("date_ts DESC, id DESC");
    reveal_with_fuel(Keys::end_in, 3);
    reveal_with_fuel(Keys::allow, 3);
    lemma_orders();
    assert("date_asc"@[0] != "from_asc"@[0]);
    let t = order_clause(sort);
    if sort == Some("date_asc"@) {
        let k2 = Keys::Key { gap: ", "@, column: "id"@, lowered: false, falls: false, rest: Box::new(Keys::End) };
        let k1 = Keys::Key { gap: ""@, column: "date_ts"@, lowered: false, falls: false, rest: Box::new(k2) };
        let k = k1;
        assert(k.end_in(t, 0) == t.len());
        k
    } else if sort == Some("from_asc"@) {
        let k2 = Keys::Key { gap: ", "@, column: "date_ts"@, lowered: false, falls: true, rest: Box::new(Keys::End) };
        let k1 = Keys::Key { gap: ""@, column: "from_addr"@, lowered: true, falls: false, rest: Box::new(k2) };
        let k = k1;
        assert(k.end_in(t, 0) == t.len());
        k
    } else if sort == Some("from_desc"@) {
        let k2 = Keys::Key { gap: ", "@, column: "date_ts"@, lowered: false, falls: true, rest: Box::new(Keys::End) };
        let k1 = Keys::Key { gap: ""@, column: "from_addr"@, lowered: true, falls: true, rest: Box::new(k2) };
        let k = k1;
        assert(k.end_in(t, 0) == t.len());
        k
    } else if sort == Some("subject_asc"@) {
        let k2 = Keys::Key { gap: ", "@, column: "date_ts"@, lowered: false, falls: true, rest: Box::new(Keys::End) };
        let k1 = Keys::Key { gap: ""@, column: "subject"@, lowered: true, falls: false, rest: Box::new(k2) };
        let k = k1;
        assert(k.end_in(t, 0) == t.len());
        k
    } else if sort == Some("subject_desc"@) {
        let k2 = Keys::Key { gap: ", "@, column: "date_ts"@, lowered: false, falls: true, rest: Box::new(Keys::End) };
        let k1 = Keys::Key { gap: ""@, column: "subject"@, lowered: true, falls: true, rest: Box::new(k2) };
        let k = k1;
        assert(k.end_in(t, 0) == t.len());
        k
    } else {
        let k2 = Keys::Key { gap: ", "@, column: "id"@, lowered: false, falls: true, rest: Box::new(Keys::End) };
        let k1 = Keys::Key { gap: ""@, column: "date_ts"@, lowered: false, falls: true, rest: Box::new(k2) };
        let k = k1;
        assert(k.end_in(t, 0) == t.len());
        k
    }
}

/// The columns of a list.
spec fn list_columns() -> Words {
    let w12 = Words::Then { gap: ", "@, word: "snippet"@, rest: Box::new(Words::End) };
    let w11 = Words::Then { gap: ", "@, word: "has_attachment"@, rest: Box::new(w12) };
    let w10 = Words::Then { gap: ", "@, word: "is_starred"@, rest: Box::new(w11) };
    let w9 = Words::Then { gap: ",\n                "@, word: "is_read"@, rest: Box::new(w10) };
    let w8 = Words::Then { gap: ", "@, word: "date_ts"@, rest: Box::new(w9) };
    let w7 = Words::Then { gap: ", "@, word: "date"@, rest: Box::new(w8) };
    let w6 = Words::Then { gap: ", "@, word: "subject"@, rest: Box::new(w7) };
    let w5 = Words::Then { gap: ", "@, word: "to_addr"@, rest: Box::new(w6) };
    let w4 = Words::Then { gap: ", "@, word: "from_addr"@, rest: Box::new(w5) };
    let w3 = Words::Then { gap: ", "@, word: "folder"@, rest: Box::new(w4) };
    let w2 = Words::Then { gap: ", "@, word: "uid"@, rest: Box::new(w3) };
    let w1 = Words::Then { gap: " "@, word: "id"@, rest: Box::new(w2) };
    w1
}

/// The conditions that each list has.
spec fn list_tests() -> Tests {
    let t2 = Tests::Test { gap: " AND "@, column: "folder"@, sign: "="@, term: "?2"@, rest: Box::new(Tests::End) };
    Tests::Test { gap: "WHERE "@, column: "account_id"@, sign: "="@, term: "?1"@, rest: Box::new(t2) }
}

/// What each list begins with.
spec fn list_head() -> Seq<char> {
    "SELECT id, uid, folder, from_addr, to_addr, subject, date, date_ts,
                is_read, is_starred, has_attachment, snippet
         FROM emails
         WHERE account_id=?1 AND folder=?2"@
}

/// The beginning of a list is read in any text that it begins.
#[verifier::spinoff_prover]
#[verifier::rlimit(60)]
proof fn lemma_list_head(rest: Seq<char>)
    ensures
        ({
            let t = list_head() + rest;
            &&& list_head().len() == 192
            &&& stands(t, 0, "SELECT"@)
            &&& list_columns().end_in(t, 6) == 128
            &&& stands(t, 128, "\n         "@)
            &&& stands(t, 138, "FROM "@)
            &&& stands(t, 143, "emails"@)
            &&& stands(t, 149, "\n         "@)
            &&& list_tests().end_in(t, 159) == 192
        }),
{
    reveal_strlit(" ");
    reveal_strlit("id");
    reveal_strlit(", ");
    reveal_strlit("uid");
    reveal_strlit("folder");
    reveal_strlit("from_addr");
    reveal_strlit("to_addr");
    reveal_strlit("subject");
    reveal_strlit("date");
    reveal_strlit("date_ts");
    reveal_strlit(",\n                ");
    reveal_strlit("is_read");
    reveal_strlit("is_starred");
    reveal_strlit("has_attachment");
    reveal_strlit("snippet");
    reveal_strlit("SELECT");
    reveal_strlit("FROM ");
    reveal_strlit("emails");
    reveal_strlit("WHERE ");
    reveal_strlit("=");
    reveal_strlit("?1");
    reveal_strlit("?2");
    reveal_strlit("account_id");
    reveal_strlit(" AND ");
    reveal_strlit("ORDER BY ");
    reveal_strlit("LIMIT ");
    reveal_strlit("?3");
    reveal_strlit(" OFFSET ");
    reveal_strlit("?4");
    reveal_strlit("\n         ");
    reveal_strlit("SELECT id, uid, folder, from_addr, to_addr, subject, date, date_ts,
                is_read, is_starred, has_attachment, snippet
         FROM emails
         WHERE account_id=?1 AND folder=?2");
    reveal_strlit("\n         ORDER BY ");
    reveal_strlit("\n         LIMIT ?3 OFFSET ?4");
    let t = list_head() + rest;
    reveal_with_fuel(Words::end_in, 13);
    reveal_with_fuel(Tests::end_in, 3);
    assert(stands(t, 0, "SELECT"@));
    assert(stands(t, 6, " "@));
    assert(stands(t, 7, "id"@));
    assert(stands(t, 9, ", "@));
    assert(stands(t, 11, "uid"@));
    assert(stands(t, 14, ", "@));
    assert(stands(t, 16, "folder"@));
    assert(stands(t, 22, ", "@));
    assert(stands(t, 24, "from_addr"@));
    assert(stands(t, 33, ", "@));
    assert(stands(t, 35, "to_addr"@));
    assert(stands(t, 42, ", "@));
    assert(stands(t, 44, "subject"@));
    assert(stands(t, 51, ", "@));
    assert(stands(t, 53, "date"@));
    assert(stands(t, 57, ", "@));
    assert(stands(t, 59, "date_ts"@));
    assert(stands(t, 66, ",\n                "@));
    assert(stands(t, 84, "is_read"@));
    assert(stands(t, 91, ", "@));
    assert(stands(t, 93, "is_starred"@));
    assert(stands(t, 103, ", "@));
    assert(stands(t, 105, "has_attachment"@));
    assert(stands(t, 119, ", "@));
    assert(stands(t, 121, "snippet"@));
    assert(stands(t, 128, "\n         "@));
    assert(stands(t, 138, "FROM "@));
    assert(stands(t, 143, "emails"@));
    assert(stands(t, 149, "\n         "@));
    assert(stands(t, 159, "WHERE "@));
    assert(stands(t, 165, "account_id"@));
    assert(stands(t, 175, "="@));
    assert(stands(t, 176, "?1"@));
    assert(stands(t, 178, " AND "@));
    assert(stands(t, 183, "folder"@));
    assert(stands(t, 189, "="@));
    assert(stands(t, 190, "?2"@));
}

/// What the columns of a list are.
proof fn lemma_list_columns()
    ensures
        ({
            let columns = shown_columns();
            &&& list_columns().count() == columns.len()
            &&& forall|k: int| 0 <= k < columns.len() ==> list_columns().at(k) == Some(#[trigger] columns[k])
        }),
{
    reveal_with_fuel(Words::count, 13);
    reveal_with_fuel(Words::at, 13);
    let columns = shown_columns();
    assert forall|k: int| 0 <= k < columns.len() implies list_columns().at(k) == Some(
        #[trigger] columns[k],
    ) by {
        assert(k == 0 || k == 1 || k == 2 || k == 3 || k == 4 || k == 5 || k == 6 || k == 7 || k == 8 || k == 9
            || k == 10 || k == 11);
    }
}

/// The end of a list is read behind its beginning.
proof fn lemma_list_tail(head: Seq<char>, ft: Seq<char>, ot: Seq<char>)
    ensures
        ({
            let t = head + ft + "\n         ORDER BY "@ + ot + "\n         LIMIT ?3 OFFSET ?4"@;
            let e = head.len() as int;
            let g = e + ft.len() + 10;
            let h = g + 9 + ot.len();
            &&& stands(t, e, ft)
            &&& stands(t, e + ft.len(), "\n         "@)
            &&& stands(t, g, "ORDER BY "@)
            &&& stands(t, g + 9, ot)
            &&& stands(t, h, "\n         "@)
            &&& stands(t, h + 10, "LIMIT "@)
            &&& stands(t, h + 16, "?3"@)
            &&& stands(t, h + 18, " OFFSET "@)
            &&& stands(t, h + 26, "?4"@)
            &&& t.len() == h + 28
        }),
{
    reveal_strlit("\n         ORDER BY ");
    reveal_strlit("\n         LIMIT ?3 OFFSET ?4");
    reveal_strlit("\n         ");
    reveal_strlit("ORDER BY ");
    reveal_strlit("LIMIT ");
    reveal_strlit("?3");
    reveal_strlit(" OFFSET ");
    reveal_strlit("?4");
    let t = head + ft + "\n         ORDER BY "@ + ot + "\n         LIMIT ?3 OFFSET ?4"@;
    let e = head.len() as int;
    let g = e + ft.len() + 10;
    let h = g + 9 + ot.len();
    assert(stands(t, e, ft));
    assert(stands(t, e + ft.len(), "\n         "@));
    assert(stands(t, g, "ORDER BY "@));
    assert(stands(t, g + 9, ot));
    assert(stands(t, h, "\n         "@));
    assert(stands(t, h + 10, "LIMIT "@));
    assert(stands(t, h + 16, "?3"@));
    assert(stands(t, h + 18, " OFFSET "@));
    assert(stands(t, h + 26, "?4"@));
}

/// The parts of a list.
spec fn list_of(ft: Seq<char>, ot: Seq<char>, f: Filter, k: Keys) -> List {
    List {
        columns: list_columns(),
        before_from: "\n         "@,
        table: "emails"@,
        before: "\n         "@,
        tests: list_tests(),
        filter_text: ft,
        filter: f,
        before_order: "\n         "@,
        order_text: ot,
        keys: k,
        before_limit: "\n         "@,
        limit: "?3"@,
        offset: Some("?4"@),
    }
}

/// The text of a list.
spec fn list_words(ft: Seq<char>, ot: Seq<char>) -> Seq<char> {
    list_head() + ft + "\n         ORDER BY "@ + ot + "\n         LIMIT ?3 OFFSET ?4"@
}

/// A list is read in its text.
#[verifier::spinoff_prover]
#[verifier::rlimit(60)]
proof fn lemma_list_read(ft: Seq<char>, ot: Seq<char>, f: Filter, k: Keys)
    requires
        f.is_read(ft),
        k.end_in(ot, 0) == ot.len(),
    ensures
        list_of(ft, ot, f, k).is_read(list_words(ft, ot)),
{
    let p = list_of(ft, ot, f, k);
    let t = list_words(ft, ot);
    let rest = ft + "\n         ORDER BY "@ + ot + "\n         LIMIT ?3 OFFSET ?4"@;
    assert(t =~= list_head() + rest);
    lemma_list_head(rest);
    lemma_list_tail(list_head(), ft, ot);
    reveal_strlit("\n         ");
    reveal_strlit("?3");
    reveal_strlit("?4");
    reveal_strlit("emails");
    assert(p.tests.gap() == "WHERE "@ && p.tests.rest().all_joined()) by {
        reveal_with_fuel(Tests::all_joined, 3);
    }
    assert(is_gap("\n         "@));
}

/// What the conditions of a list mean.
proof fn lemma_list_tests(params: Seq<ValueView>, row: Row)
    requires
        params.len() >= 2,
    ensures
        list_tests().hold(params, row) <==> row["account_id"@] == params[0] && row["folder"@] == params[1],
{
    lemma_terms(params);
    reveal_strlit("=");
    reveal_with_fuel(Tests::hold, 3);
}

/// A list of a folder has the messages of this folder of this account that are asked for, in the order
/// asked for, at most as many as asked for after those that are passed over.
#[verifier::spinoff_prover]
#[verifier::rlimit(60)]
pub proof fn law_list(
    account_id: int,
    folder: Seq<char>,
    limit: int,
    offset: int,
    filter: Option<Seq<char>>,
    sort: Option<Seq<char>>,
)
    ensures
        lists(
            listing(account_id, folder, limit, offset, filter, sort),
            shown_columns(),
            "emails"@,
            |row: Row|
                row["account_id"@] == ValueView::Int(account_id)
                    && row["folder"@] == ValueView::Text(folder) && asked_for(filter, row),
            |a: Row, b: Row| asked_order(sort, a, b),
            limit,
            offset,
        ),
{
    let s = listing(account_id, folder, limit, offset, filter, sort);
    let params = s.params;
    assert(params.len() == 4 && params[0] == ValueView::Int(account_id) && params[1] == ValueView::Text(
        folder,
    ) && params[2] == ValueView::Int(limit) && params[3] == ValueView::Int(offset));
    let f = lemma_filter(filter, params);
    let k = lemma_order(sort);
    let (ft, ot) = (filter_clause(filter), order_clause(sort));
    lemma_list_read(ft, ot, f, k);
    let p = list_of(ft, ot, f, k);
    assert(s.sql == list_words(ft, ot));
    lemma_list_columns();
    lemma_terms(params);
    let picks = |row: Row|
        row["account_id"@] == ValueView::Int(account_id) && row["folder"@] == ValueView::Text(folder)
            && asked_for(filter, row);
    let before = |a: Row, b: Row| asked_order(sort, a, b);
    assert forall|row: Row| #[trigger] picks(row) <==> p.tests.hold(params, row) && p.filter.holds(
        params,
        row,
    ) by {
        lemma_list_tests(params, row);
        assert(f.holds(params, row) <==> asked_for(filter, row));
    }
    assert forall|a: Row, b: Row| #[trigger] before(a, b) <==> p.keys.allow(a, b) by {
        assert(k.allow(a, b) <==> asked_order(sort, a, b));
    }
    lemma_lists(s, p, shown_columns(), picks, before, limit, offset);
}

} // verus!
