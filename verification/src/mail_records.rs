//! What becomes of messages, attachments and folders in the database: which rows each statement
//! concerns, and what each column then holds.
use vstd::prelude::*;

use crate::attachments::{
    finding_saved, finding_unsaved, noting_opened, noting_saved, reading_attachments,
    reading_time,
};
use crate::emails::{
    counting_all_unread, counting_drafts, counting_unread, deleting, deleting_draft,
    emptying_spam, emptying_trash, forgetting_state, marking_folder, marking_read, reading_email,
    reading_item, reading_sender, reading_star, rescuing, spamming, starring, trashing,
};
use crate::folders::{forgetting, keeping_name, reading_names, renaming, replacing_names};
use crate::message::{snippet};
use crate::moving::{locating, relocations};
use crate::purge::finding_old;
use crate::send::{
    changing_draft, html_of, keeping_draft, keeping_sent, noting_receipt, numbering, Draft,
    SendMailRequest,
};
use crate::sql::{
    changes, deletes, given, inserts, lemma_terms, merges, number_in, selects, stands, Conflict,
    Delete, Insert, Row, Select, Sets, Tests, Update, Words,
};
use crate::statements::{maybe, ValueView};
use crate::store::{finding_known, inserting, keeping_file, StoreJobView};
use crate::sync::{reading_last_uid, remembering};

verus! {

/// Marking a message as read or unread changes this mark of this message and nothing else.
pub proof fn law_mark_read(email_id: int, is_read: bool)
    ensures
        changes(
            marking_read(email_id, is_read),
            "emails"@,
            |row: Row| row["id"@] == ValueView::Int(email_id),
            |row: Row| row.insert("is_read"@, ValueView::Int(if is_read { 1 } else { 0 })),
        ),
{
    let s = marking_read(email_id, is_read);
    reveal_strlit("UPDATE emails SET is_read=?1 WHERE id=?2");
    reveal_strlit("emails");
    reveal_strlit("");
    reveal_strlit("is_read");
    reveal_strlit("?1");
    reveal_strlit(" ");
    reveal_strlit("WHERE ");
    reveal_strlit("id");
    reveal_strlit("=");
    reveal_strlit("?2");
    reveal_strlit("UPDATE ");
    reveal_strlit(" SET ");
    reveal_strlit(" AND ");
    lemma_terms(s.params);
    let a1 = Sets::Assign { gap: ""@, column: "is_read"@, term: "?1"@, rest: Box::new(Sets::End) };
    let t1 = Tests::Test { gap: "WHERE "@, column: "id"@, sign: "="@, term: "?2"@, rest: Box::new(Tests::End) };
    let p = Update { table: "emails"@, sets: a1, before: " "@, tests: t1 };
    reveal_with_fuel(Sets::end_in, 2);
    reveal_with_fuel(Sets::made, 2);
    reveal_with_fuel(Tests::end_in, 2);
    reveal_with_fuel(Tests::hold, 2);
    reveal_with_fuel(Tests::all_joined, 2);
    assert(stands(s.sql, s.sql.len() as int, Seq::empty()));
    assert(p.is_read(s.sql));
}

/// Marking a folder as read marks the unread messages of this folder of this account.
pub proof fn law_mark_folder_read(account_id: int, folder: Seq<char>)
    ensures
        changes(
            marking_folder(account_id, folder),
            "emails"@,
            |row: Row|
                row["account_id"@] == ValueView::Int(account_id)
                    && row["folder"@] == ValueView::Text(folder)
                    && row["is_read"@] == ValueView::Int(0),
            |row: Row| row.insert("is_read"@, ValueView::Int(1)),
        ),
{
    let s = marking_folder(account_id, folder);
    reveal_strlit("UPDATE emails SET is_read=1 WHERE account_id=?1 AND folder=?2 AND is_read=0");
    reveal_strlit("emails");
    reveal_strlit("");
    reveal_strlit("is_read");
    reveal_strlit("1");
    reveal_strlit(" ");
    reveal_strlit("WHERE ");
    reveal_strlit("account_id");
    reveal_strlit("=");
    reveal_strlit("?1");
    reveal_strlit(" AND ");
    reveal_strlit("folder");
    reveal_strlit("?2");
    reveal_strlit("0");
    reveal_strlit("UPDATE ");
    reveal_strlit(" SET ");
    lemma_terms(s.params);
    assert("1"@.drop_last() =~= Seq::<char>::empty());
    reveal_with_fuel(number_in, 2);
    assert("0"@.drop_last() =~= Seq::<char>::empty());
    reveal_with_fuel(number_in, 2);
    let a1 = Sets::Assign { gap: ""@, column: "is_read"@, term: "1"@, rest: Box::new(Sets::End) };
    let t3 = Tests::Test { gap: " AND "@, column: "is_read"@, sign: "="@, term: "0"@, rest: Box::new(Tests::End) };
    let t2 = Tests::Test { gap: " AND "@, column: "folder"@, sign: "="@, term: "?2"@, rest: Box::new(t3) };
    let t1 = Tests::Test { gap: "WHERE "@, column: "account_id"@, sign: "="@, term: "?1"@, rest: Box::new(t2) };
    let p = Update { table: "emails"@, sets: a1, before: " "@, tests: t1 };
    reveal_with_fuel(Sets::end_in, 2);
    reveal_with_fuel(Sets::made, 2);
    reveal_with_fuel(Tests::end_in, 4);
    reveal_with_fuel(Tests::hold, 4);
    reveal_with_fuel(Tests::all_joined, 4);
    assert(stands(s.sql, s.sql.len() as int, Seq::empty()));
    assert(p.is_read(s.sql));
}

/// Giving a message a star, or taking it away, changes this mark of this message and nothing else.
pub proof fn law_star(email_id: int, v: int)
    ensures
        changes(
            starring(email_id, v),
            "emails"@,
            |row: Row| row["id"@] == ValueView::Int(email_id),
            |row: Row| row.insert("is_starred"@, ValueView::Int(v)),
        ),
{
    let s = starring(email_id, v);
    reveal_strlit("UPDATE emails SET is_starred=?1 WHERE id=?2");
    reveal_strlit("emails");
    reveal_strlit("");
    reveal_strlit("is_starred");
    reveal_strlit("?1");
    reveal_strlit(" ");
    reveal_strlit("WHERE ");
    reveal_strlit("id");
    reveal_strlit("=");
    reveal_strlit("?2");
    reveal_strlit("UPDATE ");
    reveal_strlit(" SET ");
    reveal_strlit(" AND ");
    lemma_terms(s.params);
    let a1 = Sets::Assign { gap: ""@, column: "is_starred"@, term: "?1"@, rest: Box::new(Sets::End) };
    let t1 = Tests::Test { gap: "WHERE "@, column: "id"@, sign: "="@, term: "?2"@, rest: Box::new(Tests::End) };
    let p = Update { table: "emails"@, sets: a1, before: " "@, tests: t1 };
    reveal_with_fuel(Sets::end_in, 2);
    reveal_with_fuel(Sets::made, 2);
    reveal_with_fuel(Tests::end_in, 2);
    reveal_with_fuel(Tests::hold, 2);
    reveal_with_fuel(Tests::all_joined, 2);
    assert(stands(s.sql, s.sql.len() as int, Seq::empty()));
    assert(p.is_read(s.sql));
}

/// Moving a message into the trash changes the folder of this message and nothing else.
pub proof fn law_trash(email_id: int)
    ensures
        changes(
            trashing(email_id),
            "emails"@,
            |row: Row| row["id"@] == ValueView::Int(email_id),
            |row: Row| row.insert("folder"@, ValueView::Text("Trash"@)),
        ),
{
    let s = trashing(email_id);
    reveal_strlit("UPDATE emails SET folder='Trash' WHERE id=?1");
    reveal_strlit("emails");
    reveal_strlit("");
    reveal_strlit("folder");
    reveal_strlit("'Trash'");
    reveal_strlit(" ");
    reveal_strlit("WHERE ");
    reveal_strlit("id");
    reveal_strlit("=");
    reveal_strlit("?1");
    reveal_strlit("UPDATE ");
    reveal_strlit(" SET ");
    reveal_strlit(" AND ");
    reveal_strlit("Trash");
    lemma_terms(s.params);
    assert("'Trash'"@.subrange(1, 6) =~= "Trash"@);
    let a1 = Sets::Assign { gap: ""@, column: "folder"@, term: "'Trash'"@, rest: Box::new(Sets::End) };
    let t1 = Tests::Test { gap: "WHERE "@, column: "id"@, sign: "="@, term: "?1"@, rest: Box::new(Tests::End) };
    let p = Update { table: "emails"@, sets: a1, before: " "@, tests: t1 };
    reveal_with_fuel(Sets::end_in, 2);
    reveal_with_fuel(Sets::made, 2);
    reveal_with_fuel(Tests::end_in, 2);
    reveal_with_fuel(Tests::hold, 2);
    reveal_with_fuel(Tests::all_joined, 2);
    assert(stands(s.sql, s.sql.len() as int, Seq::empty()));
    assert(p.is_read(s.sql));
}

/// Moving a message into the spam folder changes the folder of this message and nothing else.
pub proof fn law_spam(email_id: int)
    ensures
        changes(
            spamming(email_id),
            "emails"@,
            |row: Row| row["id"@] == ValueView::Int(email_id),
            |row: Row| row.insert("folder"@, ValueView::Text("Spam"@)),
        ),
{
    let s = spamming(email_id);
    reveal_strlit("UPDATE emails SET folder='Spam' WHERE id=?1");
    reveal_strlit("emails");
    reveal_strlit("");
    reveal_strlit("folder");
    reveal_strlit("'Spam'");
    reveal_strlit(" ");
    reveal_strlit("WHERE ");
    reveal_strlit("id");
    reveal_strlit("=");
    reveal_strlit("?1");
    reveal_strlit("UPDATE ");
    reveal_strlit(" SET ");
    reveal_strlit(" AND ");
    reveal_strlit("Spam");
    lemma_terms(s.params);
    assert("'Spam'"@.subrange(1, 5) =~= "Spam"@);
    let a1 = Sets::Assign { gap: ""@, column: "folder"@, term: "'Spam'"@, rest: Box::new(Sets::End) };
    let t1 = Tests::Test { gap: "WHERE "@, column: "id"@, sign: "="@, term: "?1"@, rest: Box::new(Tests::End) };
    let p = Update { table: "emails"@, sets: a1, before: " "@, tests: t1 };
    reveal_with_fuel(Sets::end_in, 2);
    reveal_with_fuel(Sets::made, 2);
    reveal_with_fuel(Tests::end_in, 2);
    reveal_with_fuel(Tests::hold, 2);
    reveal_with_fuel(Tests::all_joined, 2);
    assert(stands(s.sql, s.sql.len() as int, Seq::empty()));
    assert(p.is_read(s.sql));
}

/// Moving a message out of the spam folder puts it into the inbox and changes nothing else.
pub proof fn law_rescue(email_id: int)
    ensures
        changes(
            rescuing(email_id),
            "emails"@,
            |row: Row| row["id"@] == ValueView::Int(email_id),
            |row: Row| row.insert("folder"@, ValueView::Text("INBOX"@)),
        ),
{
    let s = rescuing(email_id);
    reveal_strlit("UPDATE emails SET folder='INBOX' WHERE id=?1");
    reveal_strlit("emails");
    reveal_strlit("");
    reveal_strlit("folder");
    reveal_strlit("'INBOX'");
    reveal_strlit(" ");
    reveal_strlit("WHERE ");
    reveal_strlit("id");
    reveal_strlit("=");
    reveal_strlit("?1");
    reveal_strlit("UPDATE ");
    reveal_strlit(" SET ");
    reveal_strlit(" AND ");
    reveal_strlit("INBOX");
    lemma_terms(s.params);
    assert("'INBOX'"@.subrange(1, 6) =~= "INBOX"@);
    let a1 = Sets::Assign { gap: ""@, column: "folder"@, term: "'INBOX'"@, rest: Box::new(Sets::End) };
    let t1 = Tests::Test { gap: "WHERE "@, column: "id"@, sign: "="@, term: "?1"@, rest: Box::new(Tests::End) };
    let p = Update { table: "emails"@, sets: a1, before: " "@, tests: t1 };
    reveal_with_fuel(Sets::end_in, 2);
    reveal_with_fuel(Sets::made, 2);
    reveal_with_fuel(Tests::end_in, 2);
    reveal_with_fuel(Tests::hold, 2);
    reveal_with_fuel(Tests::all_joined, 2);
    assert(stands(s.sql, s.sql.len() as int, Seq::empty()));
    assert(p.is_read(s.sql));
}

/// Deleting a message deletes the attachments of this message.
pub proof fn law_delete_files(email_id: int)
    ensures
        deletes(
            deleting(email_id).0,
            "attachments"@,
            |row: Row| row["email_id"@] == ValueView::Int(email_id),
        ),
{
    let s = deleting(email_id).0;
    reveal_strlit("DELETE FROM attachments WHERE email_id=?1");
    reveal_strlit("attachments");
    reveal_strlit("WHERE ");
    reveal_strlit("email_id");
    reveal_strlit("=");
    reveal_strlit("?1");
    reveal_strlit("DELETE FROM ");
    reveal_strlit(" ");
    reveal_strlit(" AND ");
    lemma_terms(s.params);
    let t1 = Tests::Test { gap: "WHERE "@, column: "email_id"@, sign: "="@, term: "?1"@, rest: Box::new(Tests::End) };
    let p = Delete { table: "attachments"@, tests: t1 };
    reveal_with_fuel(Tests::end_in, 2);
    reveal_with_fuel(Tests::hold, 2);
    reveal_with_fuel(Tests::all_joined, 2);
    assert(stands(s.sql, s.sql.len() as int, Seq::empty()));
    assert(p.is_read(s.sql));
}

/// Deleting a message deletes this message and no other.
pub proof fn law_delete_mail(email_id: int)
    ensures
        deletes(
            deleting(email_id).1,
            "emails"@,
            |row: Row| row["id"@] == ValueView::Int(email_id),
        ),
{
    let s = deleting(email_id).1;
    reveal_strlit("DELETE FROM emails WHERE id=?1");
    reveal_strlit("emails");
    reveal_strlit("WHERE ");
    reveal_strlit("id");
    reveal_strlit("=");
    reveal_strlit("?1");
    reveal_strlit("DELETE FROM ");
    reveal_strlit(" ");
    reveal_strlit(" AND ");
    lemma_terms(s.params);
    let t1 = Tests::Test { gap: "WHERE "@, column: "id"@, sign: "="@, term: "?1"@, rest: Box::new(Tests::End) };
    let p = Delete { table: "emails"@, tests: t1 };
    reveal_with_fuel(Tests::end_in, 2);
    reveal_with_fuel(Tests::hold, 2);
    reveal_with_fuel(Tests::all_joined, 2);
    assert(stands(s.sql, s.sql.len() as int, Seq::empty()));
    assert(p.is_read(s.sql));
}

/// The messages found in the trash are those of this account that are in it.
pub proof fn law_find_trash(account_id: int)
    ensures
        selects(
            emptying_trash(account_id).0,
            seq!["id"@],
            "emails"@,
            |row: Row|
                row["account_id"@] == ValueView::Int(account_id)
                    && row["folder"@] == ValueView::Text("Trash"@),
            Seq::empty(),
        ),
{
    let s = emptying_trash(account_id).0;
    reveal_strlit("SELECT id FROM emails WHERE account_id=?1 AND folder='Trash'");
    reveal_strlit(" ");
    reveal_strlit("id");
    reveal_strlit("emails");
    reveal_strlit("WHERE ");
    reveal_strlit("account_id");
    reveal_strlit("=");
    reveal_strlit("?1");
    reveal_strlit(" AND ");
    reveal_strlit("folder");
    reveal_strlit("'Trash'");
    reveal_strlit("SELECT");
    reveal_strlit("FROM ");
    reveal_strlit("Trash");
    lemma_terms(s.params);
    assert("'Trash'"@.subrange(1, 6) =~= "Trash"@);
    let w1 = Words::Then { gap: " "@, word: "id"@, rest: Box::new(Words::End) };
    let t2 = Tests::Test { gap: " AND "@, column: "folder"@, sign: "="@, term: "'Trash'"@, rest: Box::new(Tests::End) };
    let t1 = Tests::Test { gap: "WHERE "@, column: "account_id"@, sign: "="@, term: "?1"@, rest: Box::new(t2) };
    let p = Select {
        columns: w1,
        before_from: " "@,
        table: "emails"@,
        before: " "@,
        tests: t1,
        tail: Seq::empty(),
    };
    reveal_with_fuel(Words::end_in, 2);
    reveal_with_fuel(Words::count, 2);
    reveal_with_fuel(Words::at, 2);
    reveal_with_fuel(Tests::end_in, 3);
    reveal_with_fuel(Tests::hold, 3);
    reveal_with_fuel(Tests::all_joined, 3);
    assert(stands(s.sql, s.sql.len() as int, Seq::empty()));
    assert(p.is_read(s.sql));
}

/// Emptying the trash deletes the messages of this account that are in it.
pub proof fn law_empty_trash(account_id: int)
    ensures
        deletes(
            emptying_trash(account_id).1,
            "emails"@,
            |row: Row|
                row["account_id"@] == ValueView::Int(account_id)
                    && row["folder"@] == ValueView::Text("Trash"@),
        ),
{
    let s = emptying_trash(account_id).1;
    reveal_strlit("DELETE FROM emails WHERE account_id=?1 AND folder='Trash'");
    reveal_strlit("emails");
    reveal_strlit("WHERE ");
    reveal_strlit("account_id");
    reveal_strlit("=");
    reveal_strlit("?1");
    reveal_strlit(" AND ");
    reveal_strlit("folder");
    reveal_strlit("'Trash'");
    reveal_strlit("DELETE FROM ");
    reveal_strlit(" ");
    reveal_strlit("Trash");
    lemma_terms(s.params);
    assert("'Trash'"@.subrange(1, 6) =~= "Trash"@);
    let t2 = Tests::Test { gap: " AND "@, column: "folder"@, sign: "="@, term: "'Trash'"@, rest: Box::new(Tests::End) };
    let t1 = Tests::Test { gap: "WHERE "@, column: "account_id"@, sign: "="@, term: "?1"@, rest: Box::new(t2) };
    let p = Delete { table: "emails"@, tests: t1 };
    reveal_with_fuel(Tests::end_in, 3);
    reveal_with_fuel(Tests::hold, 3);
    reveal_with_fuel(Tests::all_joined, 3);
    assert(stands(s.sql, s.sql.len() as int, Seq::empty()));
    assert(p.is_read(s.sql));
}

/// The messages found in the spam folder are those of this account that are in it.
pub proof fn law_find_spam(account_id: int)
    ensures
        selects(
            emptying_spam(account_id).0,
            seq!["id"@],
            "emails"@,
            |row: Row|
                row["account_id"@] == ValueView::Int(account_id)
                    && row["folder"@] == ValueView::Text("Spam"@),
            Seq::empty(),
        ),
{
    let s = emptying_spam(account_id).0;
    reveal_strlit("SELECT id FROM emails WHERE account_id=?1 AND folder='Spam'");
    reveal_strlit(" ");
    reveal_strlit("id");
    reveal_strlit("emails");
    reveal_strlit("WHERE ");
    reveal_strlit("account_id");
    reveal_strlit("=");
    reveal_strlit("?1");
    reveal_strlit(" AND ");
    reveal_strlit("folder");
    reveal_strlit("'Spam'");
    reveal_strlit("SELECT");
    reveal_strlit("FROM ");
    reveal_strlit("Spam");
    lemma_terms(s.params);
    assert("'Spam'"@.subrange(1, 5) =~= "Spam"@);
    let w1 = Words::Then { gap: " "@, word: "id"@, rest: Box::new(Words::End) };
    let t2 = Tests::Test { gap: " AND "@, column: "folder"@, sign: "="@, term: "'Spam'"@, rest: Box::new(Tests::End) };
    let t1 = Tests::Test { gap: "WHERE "@, column: "account_id"@, sign: "="@, term: "?1"@, rest: Box::new(t2) };
    let p = Select {
        columns: w1,
        before_from: " "@,
        table: "emails"@,
        before: " "@,
        tests: t1,
        tail: Seq::empty(),
    };
    reveal_with_fuel(Words::end_in, 2);
    reveal_with_fuel(Words::count, 2);
    reveal_with_fuel(Words::at, 2);
    reveal_with_fuel(Tests::end_in, 3);
    reveal_with_fuel(Tests::hold, 3);
    reveal_with_fuel(Tests::all_joined, 3);
    assert(stands(s.sql, s.sql.len() as int, Seq::empty()));
    assert(p.is_read(s.sql));
}

/// Emptying the spam folder deletes the messages of this account that are in it.
pub proof fn law_empty_spam(account_id: int)
    ensures
        deletes(
            emptying_spam(account_id).1,
            "emails"@,
            |row: Row|
                row["account_id"@] == ValueView::Int(account_id)
                    && row["folder"@] == ValueView::Text("Spam"@),
        ),
{
    let s = emptying_spam(account_id).1;
    reveal_strlit("DELETE FROM emails WHERE account_id=?1 AND folder='Spam'");
    reveal_strlit("emails");
    reveal_strlit("WHERE ");
    reveal_strlit("account_id");
    reveal_strlit("=");
    reveal_strlit("?1");
    reveal_strlit(" AND ");
    reveal_strlit("folder");
    reveal_strlit("'Spam'");
    reveal_strlit("DELETE FROM ");
    reveal_strlit(" ");
    reveal_strlit("Spam");
    lemma_terms(s.params);
    assert("'Spam'"@.subrange(1, 5) =~= "Spam"@);
    let t2 = Tests::Test { gap: " AND "@, column: "folder"@, sign: "="@, term: "'Spam'"@, rest: Box::new(Tests::End) };
    let t1 = Tests::Test { gap: "WHERE "@, column: "account_id"@, sign: "="@, term: "?1"@, rest: Box::new(t2) };
    let p = Delete { table: "emails"@, tests: t1 };
    reveal_with_fuel(Tests::end_in, 3);
    reveal_with_fuel(Tests::hold, 3);
    reveal_with_fuel(Tests::all_joined, 3);
    assert(stands(s.sql, s.sql.len() as int, Seq::empty()));
    assert(p.is_read(s.sql));
}

/// A draft is deleted by its id, and only if it is a draft.
pub proof fn law_delete_draft(draft_id: int)
    ensures
        deletes(
            deleting_draft(draft_id),
            "emails"@,
            |row: Row|
                row["id"@] == ValueView::Int(draft_id)
                    && row["folder"@] == ValueView::Text("Drafts"@),
        ),
{
    let s = deleting_draft(draft_id);
    reveal_strlit("DELETE FROM emails WHERE id=?1 AND folder='Drafts'");
    reveal_strlit("emails");
    reveal_strlit("WHERE ");
    reveal_strlit("id");
    reveal_strlit("=");
    reveal_strlit("?1");
    reveal_strlit(" AND ");
    reveal_strlit("folder");
    reveal_strlit("'Drafts'");
    reveal_strlit("DELETE FROM ");
    reveal_strlit(" ");
    reveal_strlit("Drafts");
    lemma_terms(s.params);
    assert("'Drafts'"@.subrange(1, 7) =~= "Drafts"@);
    let t2 = Tests::Test { gap: " AND "@, column: "folder"@, sign: "="@, term: "'Drafts'"@, rest: Box::new(Tests::End) };
    let t1 = Tests::Test { gap: "WHERE "@, column: "id"@, sign: "="@, term: "?1"@, rest: Box::new(t2) };
    let p = Delete { table: "emails"@, tests: t1 };
    reveal_with_fuel(Tests::end_in, 3);
    reveal_with_fuel(Tests::hold, 3);
    reveal_with_fuel(Tests::all_joined, 3);
    assert(stands(s.sql, s.sql.len() as int, Seq::empty()));
    assert(p.is_read(s.sql));
}

/// Forgetting what is known deletes what was kept for the folders of this account.
pub proof fn law_forget_state(account_id: int)
    ensures
        deletes(
            forgetting_state(account_id),
            "folder_state"@,
            |row: Row| row["account_id"@] == ValueView::Int(account_id),
        ),
{
    let s = forgetting_state(account_id);
    reveal_strlit("DELETE FROM folder_state WHERE account_id=?1");
    reveal_strlit("folder_state");
    reveal_strlit("WHERE ");
    reveal_strlit("account_id");
    reveal_strlit("=");
    reveal_strlit("?1");
    reveal_strlit("DELETE FROM ");
    reveal_strlit(" ");
    reveal_strlit(" AND ");
    lemma_terms(s.params);
    let t1 = Tests::Test { gap: "WHERE "@, column: "account_id"@, sign: "="@, term: "?1"@, rest: Box::new(Tests::End) };
    let p = Delete { table: "folder_state"@, tests: t1 };
    reveal_with_fuel(Tests::end_in, 2);
    reveal_with_fuel(Tests::hold, 2);
    reveal_with_fuel(Tests::all_joined, 2);
    assert(stands(s.sql, s.sql.len() as int, Seq::empty()));
    assert(p.is_read(s.sql));
}

/// A received message is stored under its account and number, each column with the part of the
/// message that it is named after; in the inbox, the message of a blocked sender goes to the spam
/// folder instead.
#[verifier::spinoff_prover]
#[verifier::rlimit(60)]
pub proof fn law_store_mail(job: StoreJobView, blocked: bool)
    ensures
        inserts(
            inserting(job, blocked),
            "emails"@,
            Map::empty()
            .insert("account_id"@, ValueView::Int(job.account_id))
            .insert("uid"@, ValueView::Int(job.uid))
            .insert("folder"@, ValueView::Text(if job.folder == "INBOX"@ && blocked { "Spam"@ } else { job.folder }))
            .insert("from_addr"@, ValueView::Text(job.mail.from))
            .insert("to_addr"@, ValueView::Text(job.mail.to))
            .insert("cc_addr"@, ValueView::Text(job.mail.cc))
            .insert("subject"@, ValueView::Text(job.mail.subject))
            .insert("date"@, ValueView::Text(job.mail.date))
            .insert("body_text"@, ValueView::Text(job.mail.body_text))
            .insert("body_html"@, ValueView::Text(job.mail.body_html))
            .insert("has_attachment"@, ValueView::Int(if job.mail.has_attachment { 1 } else { 0 }))
            .insert("message_id"@, ValueView::Text(job.mail.message_id))
            .insert("snippet"@, ValueView::Text(job.mail.snippet))
            .insert("date_ts"@, ValueView::Int(job.mail.date_ts))
            .insert("read_receipt_to"@, match job.mail.read_receipt_to { Some(t) => ValueView::Text(t), None => ValueView::Null }),
        ),
{
    let s = inserting(job, blocked);
    reveal_strlit("INSERT OR IGNORE INTO emails
         (account_id, uid, folder, from_addr, to_addr, cc_addr, subject, date,
          body_text, body_html, has_attachment, message_id, snippet, date_ts, read_receipt_to)
         VALUES (?1,?2,?3,?4,?5,?6,?7,?8,?9,?10,?11,?12,?13,?14,?15)");
    reveal_strlit("INSERT OR IGNORE INTO ");
    reveal_strlit("emails");
    reveal_strlit("\n         (");
    reveal_strlit("account_id");
    reveal_strlit(", ");
    reveal_strlit("uid");
    reveal_strlit("folder");
    reveal_strlit("from_addr");
    reveal_strlit("to_addr");
    reveal_strlit("cc_addr");
    reveal_strlit("subject");
    reveal_strlit("date");
    reveal_strlit(",\n          ");
    reveal_strlit("body_text");
    reveal_strlit("body_html");
    reveal_strlit("has_attachment");
    reveal_strlit("message_id");
    reveal_strlit("snippet");
    reveal_strlit("date_ts");
    reveal_strlit("read_receipt_to");
    reveal_strlit(")\n         VALUES ");
    reveal_strlit("(");
    reveal_strlit("?1");
    reveal_strlit(",");
    reveal_strlit("?2");
    reveal_strlit("?3");
    reveal_strlit("?4");
    reveal_strlit("?5");
    reveal_strlit("?6");
    reveal_strlit("?7");
    reveal_strlit("?8");
    reveal_strlit("?9");
    reveal_strlit("?10");
    reveal_strlit("?11");
    reveal_strlit("?12");
    reveal_strlit("?13");
    reveal_strlit("?14");
    reveal_strlit("?15");
    lemma_terms(s.params);
    let w15 = Words::Then { gap: ", "@, word: "read_receipt_to"@, rest: Box::new(Words::End) };
    let w14 = Words::Then { gap: ", "@, word: "date_ts"@, rest: Box::new(w15) };
    let w13 = Words::Then { gap: ", "@, word: "snippet"@, rest: Box::new(w14) };
    let w12 = Words::Then { gap: ", "@, word: "message_id"@, rest: Box::new(w13) };
    let w11 = Words::Then { gap: ", "@, word: "has_attachment"@, rest: Box::new(w12) };
    let w10 = Words::Then { gap: ", "@, word: "body_html"@, rest: Box::new(w11) };
    let w9 = Words::Then { gap: ",\n          "@, word: "body_text"@, rest: Box::new(w10) };
    let w8 = Words::Then { gap: ", "@, word: "date"@, rest: Box::new(w9) };
    let w7 = Words::Then { gap: ", "@, word: "subject"@, rest: Box::new(w8) };
    let w6 = Words::Then { gap: ", "@, word: "cc_addr"@, rest: Box::new(w7) };
    let w5 = Words::Then { gap: ", "@, word: "to_addr"@, rest: Box::new(w6) };
    let w4 = Words::Then { gap: ", "@, word: "from_addr"@, rest: Box::new(w5) };
    let w3 = Words::Then { gap: ", "@, word: "folder"@, rest: Box::new(w4) };
    let w2 = Words::Then { gap: ", "@, word: "uid"@, rest: Box::new(w3) };
    let w1 = Words::Then { gap: "\n         ("@, word: "account_id"@, rest: Box::new(w2) };
    let w30 = Words::Then { gap: ","@, word: "?15"@, rest: Box::new(Words::End) };
    let w29 = Words::Then { gap: ","@, word: "?14"@, rest: Box::new(w30) };
    let w28 = Words::Then { gap: ","@, word: "?13"@, rest: Box::new(w29) };
    let w27 = Words::Then { gap: ","@, word: "?12"@, rest: Box::new(w28) };
    let w26 = Words::Then { gap: ","@, word: "?11"@, rest: Box::new(w27) };
    let w25 = Words::Then { gap: ","@, word: "?10"@, rest: Box::new(w26) };
    let w24 = Words::Then { gap: ","@, word: "?9"@, rest: Box::new(w25) };
    let w23 = Words::Then { gap: ","@, word: "?8"@, rest: Box::new(w24) };
    let w22 = Words::Then { gap: ","@, word: "?7"@, rest: Box::new(w23) };
    let w21 = Words::Then { gap: ","@, word: "?6"@, rest: Box::new(w22) };
    let w20 = Words::Then { gap: ","@, word: "?5"@, rest: Box::new(w21) };
    let w19 = Words::Then { gap: ","@, word: "?4"@, rest: Box::new(w20) };
    let w18 = Words::Then { gap: ","@, word: "?3"@, rest: Box::new(w19) };
    let w17 = Words::Then { gap: ","@, word: "?2"@, rest: Box::new(w18) };
    let w16 = Words::Then { gap: "("@, word: "?1"@, rest: Box::new(w17) };
    let p = Insert {
        verb: "INSERT OR IGNORE INTO "@,
        table: "emails"@,
        columns: w1,
        middle: ")\n         VALUES "@,
        terms: w16,
    };
    reveal_with_fuel(Words::end_in, 16);
    reveal_with_fuel(Words::count, 16);
    reveal_with_fuel(given, 16);
    assert(p.is_read(s.sql));
    assert("to_addr"@[0] != "cc_addr"@[0]);
    assert("to_addr"@[0] != "subject"@[0]);
    assert("cc_addr"@[0] != "subject"@[0]);
    assert("from_addr"@[0] != "body_text"@[0]);
    assert("from_addr"@[0] != "body_html"@[0]);
    assert("body_text"@[5] != "body_html"@[5]);
    assert("account_id"@[0] != "message_id"@[0]);
    assert("to_addr"@[0] != "snippet"@[0]);
    assert("cc_addr"@[0] != "snippet"@[0]);
    assert("subject"@[1] != "snippet"@[1]);
    assert("to_addr"@[0] != "date_ts"@[0]);
    assert("cc_addr"@[0] != "date_ts"@[0]);
    assert("subject"@[0] != "date_ts"@[0]);
    assert("snippet"@[0] != "date_ts"@[0]);
    assert(p.gives(s.params, "account_id"@) == Some(ValueView::Int(job.account_id)));
    assert(p.gives(s.params, "uid"@) == Some(ValueView::Int(job.uid)));
    assert(p.gives(s.params, "folder"@) == Some(ValueView::Text(if job.folder == "INBOX"@ && blocked { "Spam"@ } else { job.folder })));
    assert(p.gives(s.params, "from_addr"@) == Some(ValueView::Text(job.mail.from)));
    assert(p.gives(s.params, "to_addr"@) == Some(ValueView::Text(job.mail.to)));
    assert(p.gives(s.params, "cc_addr"@) == Some(ValueView::Text(job.mail.cc)));
    assert(p.gives(s.params, "subject"@) == Some(ValueView::Text(job.mail.subject)));
    assert(p.gives(s.params, "date"@) == Some(ValueView::Text(job.mail.date)));
    assert(p.gives(s.params, "body_text"@) == Some(ValueView::Text(job.mail.body_text)));
    assert(p.gives(s.params, "body_html"@) == Some(ValueView::Text(job.mail.body_html)));
    assert(p.gives(s.params, "has_attachment"@) == Some(ValueView::Int(if job.mail.has_attachment { 1 } else { 0 })));
    assert(p.gives(s.params, "message_id"@) == Some(ValueView::Text(job.mail.message_id)));
    assert(p.gives(s.params, "snippet"@) == Some(ValueView::Text(job.mail.snippet)));
    assert(p.gives(s.params, "date_ts"@) == Some(ValueView::Int(job.mail.date_ts)));
    assert(p.gives(s.params, "read_receipt_to"@) == Some(match job.mail.read_receipt_to { Some(t) => ValueView::Text(t), None => ValueView::Null }));
}

/// A sent message is kept in the folder of sent messages, read, with what was asked to be sent.
#[verifier::spinoff_prover]
#[verifier::rlimit(60)]
pub proof fn law_keep_sent(email: Seq<char>, req: SendMailRequest, date: Seq<char>, date_ts: int)
    ensures
        inserts(
            keeping_sent(email, req, date, date_ts),
            "emails"@,
            Map::empty()
            .insert("account_id"@, ValueView::Int(req.account_id as int))
            .insert("uid"@, ValueView::Int(-1))
            .insert("folder"@, ValueView::Text("Sent"@))
            .insert("from_addr"@, ValueView::Text(email))
            .insert("to_addr"@, ValueView::Text(req.to@))
            .insert("cc_addr"@, ValueView::Text(req.cc@))
            .insert("subject"@, ValueView::Text(req.subject@))
            .insert("date"@, ValueView::Text(date))
            .insert("date_ts"@, ValueView::Int(date_ts))
            .insert("body_text"@, ValueView::Text(req.body@))
            .insert("body_html"@, ValueView::Text(html_of(maybe(req.body_html), req.body@)))
            .insert("has_attachment"@, ValueView::Int(if req.attachments@.len() > 0 { 1 } else { 0 }))
            .insert("snippet"@, ValueView::Text(snippet(req.body@, 100)))
            .insert("is_read"@, ValueView::Int(1)),
        ),
{
    let s = keeping_sent(email, req, date, date_ts);
    reveal_strlit("INSERT INTO emails
             (account_id, uid, folder, from_addr, to_addr, cc_addr, subject, date, date_ts,
              body_text, body_html, has_attachment, snippet, is_read)
             VALUES (?1,-1,'Sent',?2,?3,?4,?5,?6,?7,?8,?9,?10,?11,1)");
    reveal_strlit("INSERT INTO ");
    reveal_strlit("emails");
    reveal_strlit("\n             (");
    reveal_strlit("account_id");
    reveal_strlit(", ");
    reveal_strlit("uid");
    reveal_strlit("folder");
    reveal_strlit("from_addr");
    reveal_strlit("to_addr");
    reveal_strlit("cc_addr");
    reveal_strlit("subject");
    reveal_strlit("date");
    reveal_strlit("date_ts");
    reveal_strlit(",\n              ");
    reveal_strlit("body_text");
    reveal_strlit("body_html");
    reveal_strlit("has_attachment");
    reveal_strlit("snippet");
    reveal_strlit("is_read");
    reveal_strlit(")\n             VALUES ");
    reveal_strlit("(");
    reveal_strlit("?1");
    reveal_strlit(",");
    reveal_strlit("-1");
    reveal_strlit("'Sent'");
    reveal_strlit("?2");
    reveal_strlit("?3");
    reveal_strlit("?4");
    reveal_strlit("?5");
    reveal_strlit("?6");
    reveal_strlit("?7");
    reveal_strlit("?8");
    reveal_strlit("?9");
    reveal_strlit("?10");
    reveal_strlit("?11");
    reveal_strlit("1");
    reveal_strlit("Sent");
    lemma_terms(s.params);
    assert("-1"@.skip(1) =~= seq!['1']);
    assert(seq!['1'].drop_last() =~= Seq::<char>::empty());
    reveal_with_fuel(number_in, 2);
    assert("'Sent'"@.subrange(1, 5) =~= "Sent"@);
    assert("1"@.drop_last() =~= Seq::<char>::empty());
    reveal_with_fuel(number_in, 2);
    let w14 = Words::Then { gap: ", "@, word: "is_read"@, rest: Box::new(Words::End) };
    let w13 = Words::Then { gap: ", "@, word: "snippet"@, rest: Box::new(w14) };
    let w12 = Words::Then { gap: ", "@, word: "has_attachment"@, rest: Box::new(w13) };
    let w11 = Words::Then { gap: ", "@, word: "body_html"@, rest: Box::new(w12) };
    let w10 = Words::Then { gap: ",\n              "@, word: "body_text"@, rest: Box::new(w11) };
    let w9 = Words::Then { gap: ", "@, word: "date_ts"@, rest: Box::new(w10) };
    let w8 = Words::Then { gap: ", "@, word: "date"@, rest: Box::new(w9) };
    let w7 = Words::Then { gap: ", "@, word: "subject"@, rest: Box::new(w8) };
    let w6 = Words::Then { gap: ", "@, word: "cc_addr"@, rest: Box::new(w7) };
    let w5 = Words::Then { gap: ", "@, word: "to_addr"@, rest: Box::new(w6) };
    let w4 = Words::Then { gap: ", "@, word: "from_addr"@, rest: Box::new(w5) };
    let w3 = Words::Then { gap: ", "@, word: "folder"@, rest: Box::new(w4) };
    let w2 = Words::Then { gap: ", "@, word: "uid"@, rest: Box::new(w3) };
    let w1 = Words::Then { gap: "\n             ("@, word: "account_id"@, rest: Box::new(w2) };
    let w28 = Words::Then { gap: ","@, word: "1"@, rest: Box::new(Words::End) };
    let w27 = Words::Then { gap: ","@, word: "?11"@, rest: Box::new(w28) };
    let w26 = Words::Then { gap: ","@, word: "?10"@, rest: Box::new(w27) };
    let w25 = Words::Then { gap: ","@, word: "?9"@, rest: Box::new(w26) };
    let w24 = Words::Then { gap: ","@, word: "?8"@, rest: Box::new(w25) };
    let w23 = Words::Then { gap: ","@, word: "?7"@, rest: Box::new(w24) };
    let w22 = Words::Then { gap: ","@, word: "?6"@, rest: Box::new(w23) };
    let w21 = Words::Then { gap: ","@, word: "?5"@, rest: Box::new(w22) };
    let w20 = Words::Then { gap: ","@, word: "?4"@, rest: Box::new(w21) };
    let w19 = Words::Then { gap: ","@, word: "?3"@, rest: Box::new(w20) };
    let w18 = Words::Then { gap: ","@, word: "?2"@, rest: Box::new(w19) };
    let w17 = Words::Then { gap: ","@, word: "'Sent'"@, rest: Box::new(w18) };
    let w16 = Words::Then { gap: ","@, word: "-1"@, rest: Box::new(w17) };
    let w15 = Words::Then { gap: "("@, word: "?1"@, rest: Box::new(w16) };
    let p = Insert {
        verb: "INSERT INTO "@,
        table: "emails"@,
        columns: w1,
        middle: ")\n             VALUES "@,
        terms: w15,
    };
    reveal_with_fuel(Words::end_in, 15);
    reveal_with_fuel(Words::count, 15);
    reveal_with_fuel(given, 15);
    assert(p.is_read(s.sql));
    assert("to_addr"@[0] != "cc_addr"@[0]);
    assert("to_addr"@[0] != "subject"@[0]);
    assert("cc_addr"@[0] != "subject"@[0]);
    assert("to_addr"@[0] != "date_ts"@[0]);
    assert("cc_addr"@[0] != "date_ts"@[0]);
    assert("subject"@[0] != "date_ts"@[0]);
    assert("from_addr"@[0] != "body_text"@[0]);
    assert("from_addr"@[0] != "body_html"@[0]);
    assert("body_text"@[5] != "body_html"@[5]);
    assert("to_addr"@[0] != "snippet"@[0]);
    assert("cc_addr"@[0] != "snippet"@[0]);
    assert("subject"@[1] != "snippet"@[1]);
    assert("date_ts"@[0] != "snippet"@[0]);
    assert("to_addr"@[0] != "is_read"@[0]);
    assert("cc_addr"@[0] != "is_read"@[0]);
    assert("subject"@[0] != "is_read"@[0]);
    assert("date_ts"@[0] != "is_read"@[0]);
    assert("snippet"@[0] != "is_read"@[0]);
    assert(p.gives(s.params, "account_id"@) == Some(ValueView::Int(req.account_id as int)));
    assert(p.gives(s.params, "uid"@) == Some(ValueView::Int(-1)));
    assert(p.gives(s.params, "folder"@) == Some(ValueView::Text("Sent"@)));
    assert(p.gives(s.params, "from_addr"@) == Some(ValueView::Text(email)));
    assert(p.gives(s.params, "to_addr"@) == Some(ValueView::Text(req.to@)));
    assert(p.gives(s.params, "cc_addr"@) == Some(ValueView::Text(req.cc@)));
    assert(p.gives(s.params, "subject"@) == Some(ValueView::Text(req.subject@)));
    assert(p.gives(s.params, "date"@) == Some(ValueView::Text(date)));
    assert(p.gives(s.params, "date_ts"@) == Some(ValueView::Int(date_ts)));
    assert(p.gives(s.params, "body_text"@) == Some(ValueView::Text(req.body@)));
    assert(p.gives(s.params, "body_html"@) == Some(ValueView::Text(html_of(maybe(req.body_html), req.body@))));
    assert(p.gives(s.params, "has_attachment"@) == Some(ValueView::Int(if req.attachments@.len() > 0 { 1 } else { 0 })));
    assert(p.gives(s.params, "snippet"@) == Some(ValueView::Text(snippet(req.body@, 100))));
    assert(p.gives(s.params, "is_read"@) == Some(ValueView::Int(1)));
}

/// A new draft is kept in the folder of drafts, read, with what has been written so far.
#[verifier::spinoff_prover]
#[verifier::rlimit(60)]
pub proof fn law_keep_draft(d: Draft, date: Seq<char>, date_ts: int)
    ensures
        inserts(
            keeping_draft(d, date, date_ts),
            "emails"@,
            Map::empty()
            .insert("account_id"@, ValueView::Int(d.account_id as int))
            .insert("uid"@, ValueView::Int(-1))
            .insert("folder"@, ValueView::Text("Drafts"@))
            .insert("from_addr"@, ValueView::Text(Seq::empty()))
            .insert("to_addr"@, ValueView::Text(d.to@))
            .insert("cc_addr"@, ValueView::Text(d.cc@))
            .insert("subject"@, ValueView::Text(d.subject@))
            .insert("date"@, ValueView::Text(date))
            .insert("date_ts"@, ValueView::Int(date_ts))
            .insert("body_text"@, ValueView::Text(d.body_text@))
            .insert("body_html"@, ValueView::Text(d.body_html@))
            .insert("is_read"@, ValueView::Int(1))
            .insert("has_attachment"@, ValueView::Int(0))
            .insert("message_id"@, ValueView::Text(Seq::empty()))
            .insert("snippet"@, ValueView::Text(snippet(d.body_text@, 100))),
        ),
{
    let s = keeping_draft(d, date, date_ts);
    reveal_strlit("INSERT INTO emails
         (account_id, uid, folder, from_addr, to_addr, cc_addr, subject,
          date, date_ts, body_text, body_html, is_read, has_attachment, message_id, snippet)
         VALUES (?1, -1, 'Drafts', '', ?2, ?3, ?4, ?5, ?6, ?7, ?8, 1, 0, '', ?9)");
    reveal_strlit("INSERT INTO ");
    reveal_strlit("emails");
    reveal_strlit("\n         (");
    reveal_strlit("account_id");
    reveal_strlit(", ");
    reveal_strlit("uid");
    reveal_strlit("folder");
    reveal_strlit("from_addr");
    reveal_strlit("to_addr");
    reveal_strlit("cc_addr");
    reveal_strlit("subject");
    reveal_strlit(",\n          ");
    reveal_strlit("date");
    reveal_strlit("date_ts");
    reveal_strlit("body_text");
    reveal_strlit("body_html");
    reveal_strlit("is_read");
    reveal_strlit("has_attachment");
    reveal_strlit("message_id");
    reveal_strlit("snippet");
    reveal_strlit(")\n         VALUES ");
    reveal_strlit("(");
    reveal_strlit("?1");
    reveal_strlit("-1");
    reveal_strlit("'Drafts'");
    reveal_strlit("''");
    reveal_strlit("?2");
    reveal_strlit("?3");
    reveal_strlit("?4");
    reveal_strlit("?5");
    reveal_strlit("?6");
    reveal_strlit("?7");
    reveal_strlit("?8");
    reveal_strlit("1");
    reveal_strlit("0");
    reveal_strlit("?9");
    reveal_strlit("Drafts");
    lemma_terms(s.params);
    assert("-1"@.skip(1) =~= seq!['1']);
    assert(seq!['1'].drop_last() =~= Seq::<char>::empty());
    reveal_with_fuel(number_in, 2);
    assert("'Drafts'"@.subrange(1, 7) =~= "Drafts"@);
    assert("''"@.subrange(1, 1) =~= Seq::<char>::empty());
    assert("1"@.drop_last() =~= Seq::<char>::empty());
    reveal_with_fuel(number_in, 2);
    assert("0"@.drop_last() =~= Seq::<char>::empty());
    reveal_with_fuel(number_in, 2);
    let w15 = Words::Then { gap: ", "@, word: "snippet"@, rest: Box::new(Words::End) };
    let w14 = Words::Then { gap: ", "@, word: "message_id"@, rest: Box::new(w15) };
    let w13 = Words::Then { gap: ", "@, word: "has_attachment"@, rest: Box::new(w14) };
    let w12 = Words::Then { gap: ", "@, word: "is_read"@, rest: Box::new(w13) };
    let w11 = Words::Then { gap: ", "@, word: "body_html"@, rest: Box::new(w12) };
    let w10 = Words::Then { gap: ", "@, word: "body_text"@, rest: Box::new(w11) };
    let w9 = Words::Then { gap: ", "@, word: "date_ts"@, rest: Box::new(w10) };
    let w8 = Words::Then { gap: ",\n          "@, word: "date"@, rest: Box::new(w9) };
    let w7 = Words::Then { gap: ", "@, word: "subject"@, rest: Box::new(w8) };
    let w6 = Words::Then { gap: ", "@, word: "cc_addr"@, rest: Box::new(w7) };
    let w5 = Words::Then { gap: ", "@, word: "to_addr"@, rest: Box::new(w6) };
    let w4 = Words::Then { gap: ", "@, word: "from_addr"@, rest: Box::new(w5) };
    let w3 = Words::Then { gap: ", "@, word: "folder"@, rest: Box::new(w4) };
    let w2 = Words::Then { gap: ", "@, word: "uid"@, rest: Box::new(w3) };
    let w1 = Words::Then { gap: "\n         ("@, word: "account_id"@, rest: Box::new(w2) };
    let w30 = Words::Then { gap: ", "@, word: "?9"@, rest: Box::new(Words::End) };
    let w29 = Words::Then { gap: ", "@, word: "''"@, rest: Box::new(w30) };
    let w28 = Words::Then { gap: ", "@, word: "0"@, rest: Box::new(w29) };
    let w27 = Words::Then { gap: ", "@, word: "1"@, rest: Box::new(w28) };
    let w26 = Words::Then { gap: ", "@, word: "?8"@, rest: Box::new(w27) };
    let w25 = Words::Then { gap: ", "@, word: "?7"@, rest: Box::new(w26) };
    let w24 = Words::Then { gap: ", "@, word: "?6"@, rest: Box::new(w25) };
    let w23 = Words::Then { gap: ", "@, word: "?5"@, rest: Box::new(w24) };
    let w22 = Words::Then { gap: ", "@, word: "?4"@, rest: Box::new(w23) };
    let w21 = Words::Then { gap: ", "@, word: "?3"@, rest: Box::new(w22) };
    let w20 = Words::Then { gap: ", "@, word: "?2"@, rest: Box::new(w21) };
    let w19 = Words::Then { gap: ", "@, word: "''"@, rest: Box::new(w20) };
    let w18 = Words::Then { gap: ", "@, word: "'Drafts'"@, rest: Box::new(w19) };
    let w17 = Words::Then { gap: ", "@, word: "-1"@, rest: Box::new(w18) };
    let w16 = Words::Then { gap: "("@, word: "?1"@, rest: Box::new(w17) };
    let p = Insert {
        verb: "INSERT INTO "@,
        table: "emails"@,
        columns: w1,
        middle: ")\n         VALUES "@,
        terms: w16,
    };
    reveal_with_fuel(Words::end_in, 16);
    reveal_with_fuel(Words::count, 16);
    reveal_with_fuel(given, 16);
    assert(p.is_read(s.sql));
    assert("to_addr"@[0] != "cc_addr"@[0]);
    assert("to_addr"@[0] != "subject"@[0]);
    assert("cc_addr"@[0] != "subject"@[0]);
    assert("to_addr"@[0] != "date_ts"@[0]);
    assert("cc_addr"@[0] != "date_ts"@[0]);
    assert("subject"@[0] != "date_ts"@[0]);
    assert("from_addr"@[0] != "body_text"@[0]);
    assert("from_addr"@[0] != "body_html"@[0]);
    assert("body_text"@[5] != "body_html"@[5]);
    assert("to_addr"@[0] != "is_read"@[0]);
    assert("cc_addr"@[0] != "is_read"@[0]);
    assert("subject"@[0] != "is_read"@[0]);
    assert("date_ts"@[0] != "is_read"@[0]);
    assert("account_id"@[0] != "message_id"@[0]);
    assert("to_addr"@[0] != "snippet"@[0]);
    assert("cc_addr"@[0] != "snippet"@[0]);
    assert("subject"@[1] != "snippet"@[1]);
    assert("date_ts"@[0] != "snippet"@[0]);
    assert("is_read"@[0] != "snippet"@[0]);
    assert(p.gives(s.params, "account_id"@) == Some(ValueView::Int(d.account_id as int)));
    assert(p.gives(s.params, "uid"@) == Some(ValueView::Int(-1)));
    assert(p.gives(s.params, "folder"@) == Some(ValueView::Text("Drafts"@)));
    assert(p.gives(s.params, "from_addr"@) == Some(ValueView::Text(Seq::empty())));
    assert(p.gives(s.params, "to_addr"@) == Some(ValueView::Text(d.to@)));
    assert(p.gives(s.params, "cc_addr"@) == Some(ValueView::Text(d.cc@)));
    assert(p.gives(s.params, "subject"@) == Some(ValueView::Text(d.subject@)));
    assert(p.gives(s.params, "date"@) == Some(ValueView::Text(date)));
    assert(p.gives(s.params, "date_ts"@) == Some(ValueView::Int(date_ts)));
    assert(p.gives(s.params, "body_text"@) == Some(ValueView::Text(d.body_text@)));
    assert(p.gives(s.params, "body_html"@) == Some(ValueView::Text(d.body_html@)));
    assert(p.gives(s.params, "is_read"@) == Some(ValueView::Int(1)));
    assert(p.gives(s.params, "has_attachment"@) == Some(ValueView::Int(0)));
    assert(p.gives(s.params, "message_id"@) == Some(ValueView::Text(Seq::empty())));
    assert(p.gives(s.params, "snippet"@) == Some(ValueView::Text(snippet(d.body_text@, 100))));
}

/// Changing a draft changes what it says and when it was written, of this draft of this account
/// only.
#[verifier::spinoff_prover]
#[verifier::rlimit(60)]
pub proof fn law_change_draft(d: Draft, id: int, date: Seq<char>, date_ts: int)
    ensures
        changes(
            changing_draft(d, id, date, date_ts),
            "emails"@,
            |row: Row|
                row["id"@] == ValueView::Int(id)
                    && row["account_id"@] == ValueView::Int(d.account_id as int)
                    && row["folder"@] == ValueView::Text("Drafts"@),
            |row: Row| row
                .insert("to_addr"@, ValueView::Text(d.to@))
                .insert("cc_addr"@, ValueView::Text(d.cc@))
                .insert("subject"@, ValueView::Text(d.subject@))
                .insert("body_text"@, ValueView::Text(d.body_text@))
                .insert("body_html"@, ValueView::Text(d.body_html@))
                .insert("snippet"@, ValueView::Text(snippet(d.body_text@, 100)))
                .insert("date"@, ValueView::Text(date))
                .insert("date_ts"@, ValueView::Int(date_ts)),
        ),
{
    let s = changing_draft(d, id, date, date_ts);
    reveal_strlit("UPDATE emails SET to_addr=?1, cc_addr=?2, subject=?3,
             body_text=?4, body_html=?5, snippet=?6, date=?7, date_ts=?8
             WHERE id=?9 AND account_id=?10 AND folder='Drafts'");
    reveal_strlit("emails");
    reveal_strlit("");
    reveal_strlit("to_addr");
    reveal_strlit("?1");
    reveal_strlit(", ");
    reveal_strlit("cc_addr");
    reveal_strlit("?2");
    reveal_strlit("subject");
    reveal_strlit("?3");
    reveal_strlit(",\n             ");
    reveal_strlit("body_text");
    reveal_strlit("?4");
    reveal_strlit("body_html");
    reveal_strlit("?5");
    reveal_strlit("snippet");
    reveal_strlit("?6");
    reveal_strlit("date");
    reveal_strlit("?7");
    reveal_strlit("date_ts");
    reveal_strlit("?8");
    reveal_strlit("\n             ");
    reveal_strlit("WHERE ");
    reveal_strlit("id");
    reveal_strlit("=");
    reveal_strlit("?9");
    reveal_strlit(" AND ");
    reveal_strlit("account_id");
    reveal_strlit("?10");
    reveal_strlit("folder");
    reveal_strlit("'Drafts'");
    reveal_strlit("UPDATE ");
    reveal_strlit(" SET ");
    reveal_strlit("Drafts");
    lemma_terms(s.params);
    assert("'Drafts'"@.subrange(1, 7) =~= "Drafts"@);
    assert("to_addr"@[0] != "cc_addr"@[0]);
    assert("to_addr"@[0] != "subject"@[0]);
    assert("cc_addr"@[0] != "subject"@[0]);
    assert("body_text"@[5] != "body_html"@[5]);
    assert("to_addr"@[0] != "snippet"@[0]);
    assert("cc_addr"@[0] != "snippet"@[0]);
    assert("subject"@[1] != "snippet"@[1]);
    assert("to_addr"@[0] != "date_ts"@[0]);
    assert("cc_addr"@[0] != "date_ts"@[0]);
    assert("subject"@[0] != "date_ts"@[0]);
    assert("snippet"@[0] != "date_ts"@[0]);
    let a8 = Sets::Assign { gap: ", "@, column: "date_ts"@, term: "?8"@, rest: Box::new(Sets::End) };
    let a7 = Sets::Assign { gap: ", "@, column: "date"@, term: "?7"@, rest: Box::new(a8) };
    let a6 = Sets::Assign { gap: ", "@, column: "snippet"@, term: "?6"@, rest: Box::new(a7) };
    let a5 = Sets::Assign { gap: ", "@, column: "body_html"@, term: "?5"@, rest: Box::new(a6) };
    let a4 = Sets::Assign { gap: ",\n             "@, column: "body_text"@, term: "?4"@, rest: Box::new(a5) };
    let a3 = Sets::Assign { gap: ", "@, column: "subject"@, term: "?3"@, rest: Box::new(a4) };
    let a2 = Sets::Assign { gap: ", "@, column: "cc_addr"@, term: "?2"@, rest: Box::new(a3) };
    let a1 = Sets::Assign { gap: ""@, column: "to_addr"@, term: "?1"@, rest: Box::new(a2) };
    let t3 = Tests::Test { gap: " AND "@, column: "folder"@, sign: "="@, term: "'Drafts'"@, rest: Box::new(Tests::End) };
    let t2 = Tests::Test { gap: " AND "@, column: "account_id"@, sign: "="@, term: "?10"@, rest: Box::new(t3) };
    let t1 = Tests::Test { gap: "WHERE "@, column: "id"@, sign: "="@, term: "?9"@, rest: Box::new(t2) };
    let p = Update { table: "emails"@, sets: a1, before: "\n             "@, tests: t1 };
    reveal_with_fuel(Sets::end_in, 9);
    reveal_with_fuel(Sets::made, 9);
    reveal_with_fuel(Tests::end_in, 4);
    reveal_with_fuel(Tests::hold, 4);
    reveal_with_fuel(Tests::all_joined, 4);
    assert(stands(s.sql, s.sql.len() as int, Seq::empty()));
    assert(p.is_read(s.sql));
}

/// A message that was never on a server gets its id as its number.
pub proof fn law_number_mail(id: int)
    ensures
        changes(
            numbering(id),
            "emails"@,
            |row: Row| row["id"@] == ValueView::Int(id),
            |row: Row| row.insert("uid"@, ValueView::Int(id)),
        ),
{
    let s = numbering(id);
    reveal_strlit("UPDATE emails SET uid=?1 WHERE id=?1");
    reveal_strlit("emails");
    reveal_strlit("");
    reveal_strlit("uid");
    reveal_strlit("?1");
    reveal_strlit(" ");
    reveal_strlit("WHERE ");
    reveal_strlit("id");
    reveal_strlit("=");
    reveal_strlit("UPDATE ");
    reveal_strlit(" SET ");
    reveal_strlit(" AND ");
    lemma_terms(s.params);
    let a1 = Sets::Assign { gap: ""@, column: "uid"@, term: "?1"@, rest: Box::new(Sets::End) };
    let t1 = Tests::Test { gap: "WHERE "@, column: "id"@, sign: "="@, term: "?1"@, rest: Box::new(Tests::End) };
    let p = Update { table: "emails"@, sets: a1, before: " "@, tests: t1 };
    reveal_with_fuel(Sets::end_in, 2);
    reveal_with_fuel(Sets::made, 2);
    reveal_with_fuel(Tests::end_in, 2);
    reveal_with_fuel(Tests::hold, 2);
    reveal_with_fuel(Tests::all_joined, 2);
    assert(stands(s.sql, s.sql.len() as int, Seq::empty()));
    assert(p.is_read(s.sql));
}

/// Noting that a receipt was sent changes this mark of this message and nothing else.
pub proof fn law_note_receipt(email_id: int)
    ensures
        changes(
            noting_receipt(email_id),
            "emails"@,
            |row: Row| row["id"@] == ValueView::Int(email_id),
            |row: Row| row.insert("read_receipt_sent"@, ValueView::Int(1)),
        ),
{
    let s = noting_receipt(email_id);
    reveal_strlit("UPDATE emails SET read_receipt_sent=1 WHERE id=?1");
    reveal_strlit("emails");
    reveal_strlit("");
    reveal_strlit("read_receipt_sent");
    reveal_strlit("1");
    reveal_strlit(" ");
    reveal_strlit("WHERE ");
    reveal_strlit("id");
    reveal_strlit("=");
    reveal_strlit("?1");
    reveal_strlit("UPDATE ");
    reveal_strlit(" SET ");
    reveal_strlit(" AND ");
    lemma_terms(s.params);
    assert("1"@.drop_last() =~= Seq::<char>::empty());
    reveal_with_fuel(number_in, 2);
    let a1 = Sets::Assign { gap: ""@, column: "read_receipt_sent"@, term: "1"@, rest: Box::new(Sets::End) };
    let t1 = Tests::Test { gap: "WHERE "@, column: "id"@, sign: "="@, term: "?1"@, rest: Box::new(Tests::End) };
    let p = Update { table: "emails"@, sets: a1, before: " "@, tests: t1 };
    reveal_with_fuel(Sets::end_in, 2);
    reveal_with_fuel(Sets::made, 2);
    reveal_with_fuel(Tests::end_in, 2);
    reveal_with_fuel(Tests::hold, 2);
    reveal_with_fuel(Tests::all_joined, 2);
    assert(stands(s.sql, s.sql.len() as int, Seq::empty()));
    assert(p.is_read(s.sql));
}

/// An attachment is kept with its message, name, type, place and size.
pub proof fn law_keep_file(email_id: int, name: Seq<char>, mime_type: Seq<char>, path: Seq<char>, size: int)
    ensures
        inserts(
            keeping_file(email_id, name, mime_type, path, size),
            "attachments"@,
            Map::empty()
            .insert("email_id"@, ValueView::Int(email_id))
            .insert("filename"@, ValueView::Text(name))
            .insert("mime_type"@, ValueView::Text(mime_type))
            .insert("file_path"@, ValueView::Text(path))
            .insert("file_size"@, ValueView::Int(size)),
        ),
{
    let s = keeping_file(email_id, name, mime_type, path, size);
    reveal_strlit("INSERT INTO attachments (email_id, filename, mime_type, file_path, file_size)
                         VALUES (?1,?2,?3,?4,?5)");
    reveal_strlit("INSERT INTO ");
    reveal_strlit("attachments");
    reveal_strlit(" (");
    reveal_strlit("email_id");
    reveal_strlit(", ");
    reveal_strlit("filename");
    reveal_strlit("mime_type");
    reveal_strlit("file_path");
    reveal_strlit("file_size");
    reveal_strlit(")\n                         VALUES ");
    reveal_strlit("(");
    reveal_strlit("?1");
    reveal_strlit(",");
    reveal_strlit("?2");
    reveal_strlit("?3");
    reveal_strlit("?4");
    reveal_strlit("?5");
    lemma_terms(s.params);
    let w5 = Words::Then { gap: ", "@, word: "file_size"@, rest: Box::new(Words::End) };
    let w4 = Words::Then { gap: ", "@, word: "file_path"@, rest: Box::new(w5) };
    let w3 = Words::Then { gap: ", "@, word: "mime_type"@, rest: Box::new(w4) };
    let w2 = Words::Then { gap: ", "@, word: "filename"@, rest: Box::new(w3) };
    let w1 = Words::Then { gap: " ("@, word: "email_id"@, rest: Box::new(w2) };
    let w10 = Words::Then { gap: ","@, word: "?5"@, rest: Box::new(Words::End) };
    let w9 = Words::Then { gap: ","@, word: "?4"@, rest: Box::new(w10) };
    let w8 = Words::Then { gap: ","@, word: "?3"@, rest: Box::new(w9) };
    let w7 = Words::Then { gap: ","@, word: "?2"@, rest: Box::new(w8) };
    let w6 = Words::Then { gap: "("@, word: "?1"@, rest: Box::new(w7) };
    let p = Insert {
        verb: "INSERT INTO "@,
        table: "attachments"@,
        columns: w1,
        middle: ")\n                         VALUES "@,
        terms: w6,
    };
    reveal_with_fuel(Words::end_in, 6);
    reveal_with_fuel(Words::count, 6);
    reveal_with_fuel(given, 6);
    assert(p.is_read(s.sql));
    assert("email_id"@[0] != "filename"@[0]);
    assert("mime_type"@[0] != "file_path"@[0]);
    assert("mime_type"@[0] != "file_size"@[0]);
    assert("file_path"@[5] != "file_size"@[5]);
    assert(p.gives(s.params, "email_id"@) == Some(ValueView::Int(email_id)));
    assert(p.gives(s.params, "filename"@) == Some(ValueView::Text(name)));
    assert(p.gives(s.params, "mime_type"@) == Some(ValueView::Text(mime_type)));
    assert(p.gives(s.params, "file_path"@) == Some(ValueView::Text(path)));
    assert(p.gives(s.params, "file_size"@) == Some(ValueView::Int(size)));
}

/// Noting where an attachment was saved changes both of its places.
pub proof fn law_note_saved(id: int, path: Seq<char>)
    ensures
        changes(
            noting_saved(id, path),
            "attachments"@,
            |row: Row| row["id"@] == ValueView::Int(id),
            |row: Row| row
                .insert("saved_path"@, ValueView::Text(path))
                .insert("file_path"@, ValueView::Text(path)),
        ),
{
    let s = noting_saved(id, path);
    reveal_strlit("UPDATE attachments SET saved_path=?1, file_path=?1 WHERE id=?2");
    reveal_strlit("attachments");
    reveal_strlit("");
    reveal_strlit("saved_path");
    reveal_strlit("?1");
    reveal_strlit(", ");
    reveal_strlit("file_path");
    reveal_strlit(" ");
    reveal_strlit("WHERE ");
    reveal_strlit("id");
    reveal_strlit("=");
    reveal_strlit("?2");
    reveal_strlit("UPDATE ");
    reveal_strlit(" SET ");
    reveal_strlit(" AND ");
    lemma_terms(s.params);
    let a2 = Sets::Assign { gap: ", "@, column: "file_path"@, term: "?1"@, rest: Box::new(Sets::End) };
    let a1 = Sets::Assign { gap: ""@, column: "saved_path"@, term: "?1"@, rest: Box::new(a2) };
    let t1 = Tests::Test { gap: "WHERE "@, column: "id"@, sign: "="@, term: "?2"@, rest: Box::new(Tests::End) };
    let p = Update { table: "attachments"@, sets: a1, before: " "@, tests: t1 };
    reveal_with_fuel(Sets::end_in, 3);
    reveal_with_fuel(Sets::made, 3);
    reveal_with_fuel(Tests::end_in, 2);
    reveal_with_fuel(Tests::hold, 2);
    reveal_with_fuel(Tests::all_joined, 2);
    assert(stands(s.sql, s.sql.len() as int, Seq::empty()));
    assert(p.is_read(s.sql));
}

/// Noting where an attachment that was handed over was saved changes both of its places.
pub proof fn law_note_opened_handed(saved: Seq<char>, file_path: Seq<char>)
    ensures
        changes(
            noting_opened(true, saved, file_path),
            "attachments"@,
            |row: Row| row["file_path"@] == ValueView::Text(file_path),
            |row: Row| row
                .insert("saved_path"@, ValueView::Text(saved))
                .insert("file_path"@, ValueView::Text(saved)),
        ),
{
    let s = noting_opened(true, saved, file_path);
    reveal_strlit("UPDATE attachments SET saved_path=?1, file_path=?1 WHERE file_path=?2");
    reveal_strlit("attachments");
    reveal_strlit("");
    reveal_strlit("saved_path");
    reveal_strlit("?1");
    reveal_strlit(", ");
    reveal_strlit("file_path");
    reveal_strlit(" ");
    reveal_strlit("WHERE ");
    reveal_strlit("=");
    reveal_strlit("?2");
    reveal_strlit("UPDATE ");
    reveal_strlit(" SET ");
    reveal_strlit(" AND ");
    lemma_terms(s.params);
    let a2 = Sets::Assign { gap: ", "@, column: "file_path"@, term: "?1"@, rest: Box::new(Sets::End) };
    let a1 = Sets::Assign { gap: ""@, column: "saved_path"@, term: "?1"@, rest: Box::new(a2) };
    let t1 = Tests::Test { gap: "WHERE "@, column: "file_path"@, sign: "="@, term: "?2"@, rest: Box::new(Tests::End) };
    let p = Update { table: "attachments"@, sets: a1, before: " "@, tests: t1 };
    reveal_with_fuel(Sets::end_in, 3);
    reveal_with_fuel(Sets::made, 3);
    reveal_with_fuel(Tests::end_in, 2);
    reveal_with_fuel(Tests::hold, 2);
    reveal_with_fuel(Tests::all_joined, 2);
    assert(stands(s.sql, s.sql.len() as int, Seq::empty()));
    assert(p.is_read(s.sql));
}

/// Noting where any other attachment was saved keeps the place that it has.
pub proof fn law_note_opened(saved: Seq<char>, file_path: Seq<char>)
    ensures
        changes(
            noting_opened(false, saved, file_path),
            "attachments"@,
            |row: Row| row["file_path"@] == ValueView::Text(file_path),
            |row: Row| row.insert("saved_path"@, ValueView::Text(saved)),
        ),
{
    let s = noting_opened(false, saved, file_path);
    reveal_strlit("UPDATE attachments SET saved_path=?1 WHERE file_path=?2");
    reveal_strlit("attachments");
    reveal_strlit("");
    reveal_strlit("saved_path");
    reveal_strlit("?1");
    reveal_strlit(" ");
    reveal_strlit("WHERE ");
    reveal_strlit("file_path");
    reveal_strlit("=");
    reveal_strlit("?2");
    reveal_strlit("UPDATE ");
    reveal_strlit(" SET ");
    reveal_strlit(" AND ");
    lemma_terms(s.params);
    let a1 = Sets::Assign { gap: ""@, column: "saved_path"@, term: "?1"@, rest: Box::new(Sets::End) };
    let t1 = Tests::Test { gap: "WHERE "@, column: "file_path"@, sign: "="@, term: "?2"@, rest: Box::new(Tests::End) };
    let p = Update { table: "attachments"@, sets: a1, before: " "@, tests: t1 };
    reveal_with_fuel(Sets::end_in, 2);
    reveal_with_fuel(Sets::made, 2);
    reveal_with_fuel(Tests::end_in, 2);
    reveal_with_fuel(Tests::hold, 2);
    reveal_with_fuel(Tests::all_joined, 2);
    assert(stands(s.sql, s.sql.len() as int, Seq::empty()));
    assert(p.is_read(s.sql));
}

/// Moving messages into a folder changes the folder of each of them, if it is one of this account,
/// and nothing else.
pub proof fn law_relocate(ids: Seq<i64>, account_id: int, target: Seq<char>, i: int)
    requires
        0 <= i < ids.len(),
    ensures
        changes(
            relocations(ids, account_id, target)[i],
            "emails"@,
            |row: Row|
                row["id"@] == ValueView::Int(ids[i] as int)
                    && row["account_id"@] == ValueView::Int(account_id),
            |row: Row| row.insert("folder"@, ValueView::Text(target)),
        ),
{
    let s = relocations(ids, account_id, target)[i];
    reveal_strlit("UPDATE emails SET folder=?1 WHERE id=?2 AND account_id=?3");
    reveal_strlit("emails");
    reveal_strlit("");
    reveal_strlit("folder");
    reveal_strlit("?1");
    reveal_strlit(" ");
    reveal_strlit("WHERE ");
    reveal_strlit("id");
    reveal_strlit("=");
    reveal_strlit("?2");
    reveal_strlit(" AND ");
    reveal_strlit("account_id");
    reveal_strlit("?3");
    reveal_strlit("UPDATE ");
    reveal_strlit(" SET ");
    lemma_terms(s.params);
    let a1 = Sets::Assign { gap: ""@, column: "folder"@, term: "?1"@, rest: Box::new(Sets::End) };
    let t2 = Tests::Test { gap: " AND "@, column: "account_id"@, sign: "="@, term: "?3"@, rest: Box::new(Tests::End) };
    let t1 = Tests::Test { gap: "WHERE "@, column: "id"@, sign: "="@, term: "?2"@, rest: Box::new(t2) };
    let p = Update { table: "emails"@, sets: a1, before: " "@, tests: t1 };
    reveal_with_fuel(Sets::end_in, 2);
    reveal_with_fuel(Sets::made, 2);
    reveal_with_fuel(Tests::end_in, 3);
    reveal_with_fuel(Tests::hold, 3);
    reveal_with_fuel(Tests::all_joined, 3);
    assert(stands(s.sql, s.sql.len() as int, Seq::empty()));
    assert(p.is_read(s.sql));
}

/// What is known of a folder is kept with the account, the folder and the number of the last
/// message.
pub proof fn law_remember(account_id: int, folder: Seq<char>, uid: int)
    ensures
        inserts(
            remembering(account_id, folder, uid),
            "folder_state"@,
            Map::empty()
            .insert("account_id"@, ValueView::Int(account_id))
            .insert("folder"@, ValueView::Text(folder))
            .insert("last_uid"@, ValueView::Int(uid)),
        ),
{
    let s = remembering(account_id, folder, uid);
    reveal_strlit("INSERT INTO folder_state (account_id, folder, last_uid) VALUES (?1,?2,?3)
                 ON CONFLICT(account_id, folder) DO UPDATE SET last_uid=excluded.last_uid");
    reveal_strlit("INSERT INTO ");
    reveal_strlit("folder_state");
    reveal_strlit(" (");
    reveal_strlit("account_id");
    reveal_strlit(", ");
    reveal_strlit("folder");
    reveal_strlit("last_uid");
    reveal_strlit(") VALUES ");
    reveal_strlit("(");
    reveal_strlit("?1");
    reveal_strlit(",");
    reveal_strlit("?2");
    reveal_strlit("?3");
    lemma_terms(s.params);
    let w3 = Words::Then { gap: ", "@, word: "last_uid"@, rest: Box::new(Words::End) };
    let w2 = Words::Then { gap: ", "@, word: "folder"@, rest: Box::new(w3) };
    let w1 = Words::Then { gap: " ("@, word: "account_id"@, rest: Box::new(w2) };
    let w6 = Words::Then { gap: ","@, word: "?3"@, rest: Box::new(Words::End) };
    let w5 = Words::Then { gap: ","@, word: "?2"@, rest: Box::new(w6) };
    let w4 = Words::Then { gap: "("@, word: "?1"@, rest: Box::new(w5) };
    let p = Insert {
        verb: "INSERT INTO "@,
        table: "folder_state"@,
        columns: w1,
        middle: ") VALUES "@,
        terms: w4,
    };
    reveal_with_fuel(Words::end_in, 4);
    reveal_with_fuel(Words::count, 4);
    reveal_with_fuel(given, 4);
    assert(p.is_read(s.sql));
    assert(p.gives(s.params, "account_id"@) == Some(ValueView::Int(account_id)));
    assert(p.gives(s.params, "folder"@) == Some(ValueView::Text(folder)));
    assert(p.gives(s.params, "last_uid"@) == Some(ValueView::Int(uid)));
}

/// Where something is known of a folder already, the new number replaces the old one.
pub proof fn law_remember_again(account_id: int, folder: Seq<char>, uid: int)
    ensures
        merges(
            remembering(account_id, folder, uid),
            "account_id, folder"@,
            |old_row: Row, new_row: Row| old_row.insert("last_uid"@, new_row["last_uid"@]),
        ),
{
    let s = remembering(account_id, folder, uid);
    reveal_strlit("INSERT INTO folder_state (account_id, folder, last_uid) VALUES (?1,?2,?3)
                 ON CONFLICT(account_id, folder) DO UPDATE SET last_uid=excluded.last_uid");
    reveal_strlit("\n                 ON CONFLICT(");
    reveal_strlit("account_id, folder");
    reveal_strlit(" ");
    reveal_strlit("last_uid");
    reveal_strlit("excluded.last_uid");
    reveal_strlit("ON CONFLICT(");
    reveal_strlit(") DO UPDATE SET");
    reveal_strlit("=");
    reveal_strlit("excluded.");
    lemma_terms(s.params);
    assert("excluded.last_uid"@ =~= "excluded."@ + "last_uid"@);
    let a1 = Sets::Assign { gap: " "@, column: "last_uid"@, term: "excluded.last_uid"@, rest: Box::new(Sets::End) };
    let p = Conflict {
        at: 73,
        start: "\n                 ON CONFLICT("@,
        key: "account_id, folder"@,
        sets: a1,
    };
    reveal_with_fuel(Sets::end_in, 2);
    reveal_with_fuel(Sets::merged, 2);
    assert(p.is_read(s.sql));
}

/// The name of a folder is kept with its account.
pub proof fn law_keep_folder(account_id: int, name: Seq<char>)
    ensures
        inserts(
            keeping_name(account_id, name),
            "user_folders"@,
            Map::empty()
            .insert("account_id"@, ValueView::Int(account_id))
            .insert("name"@, ValueView::Text(name)),
        ),
{
    let s = keeping_name(account_id, name);
    reveal_strlit("INSERT OR IGNORE INTO user_folders (account_id, name) VALUES (?1,?2)");
    reveal_strlit("INSERT OR IGNORE INTO ");
    reveal_strlit("user_folders");
    reveal_strlit(" (");
    reveal_strlit("account_id");
    reveal_strlit(", ");
    reveal_strlit("name");
    reveal_strlit(") VALUES ");
    reveal_strlit("(");
    reveal_strlit("?1");
    reveal_strlit(",");
    reveal_strlit("?2");
    lemma_terms(s.params);
    let w2 = Words::Then { gap: ", "@, word: "name"@, rest: Box::new(Words::End) };
    let w1 = Words::Then { gap: " ("@, word: "account_id"@, rest: Box::new(w2) };
    let w4 = Words::Then { gap: ","@, word: "?2"@, rest: Box::new(Words::End) };
    let w3 = Words::Then { gap: "("@, word: "?1"@, rest: Box::new(w4) };
    let p = Insert {
        verb: "INSERT OR IGNORE INTO "@,
        table: "user_folders"@,
        columns: w1,
        middle: ") VALUES "@,
        terms: w3,
    };
    reveal_with_fuel(Words::end_in, 3);
    reveal_with_fuel(Words::count, 3);
    reveal_with_fuel(given, 3);
    assert(p.is_read(s.sql));
    assert(p.gives(s.params, "account_id"@) == Some(ValueView::Int(account_id)));
    assert(p.gives(s.params, "name"@) == Some(ValueView::Text(name)));
}

/// Replacing the names of the folders first forgets those of this account.
pub proof fn law_forget_folders(account_id: int, names: Seq<Seq<char>>)
    ensures
        deletes(
            replacing_names(account_id, names)[0],
            "user_folders"@,
            |row: Row| row["account_id"@] == ValueView::Int(account_id),
        ),
{
    let s = replacing_names(account_id, names)[0];
    reveal_strlit("DELETE FROM user_folders WHERE account_id=?1");
    reveal_strlit("user_folders");
    reveal_strlit("WHERE ");
    reveal_strlit("account_id");
    reveal_strlit("=");
    reveal_strlit("?1");
    reveal_strlit("DELETE FROM ");
    reveal_strlit(" ");
    reveal_strlit(" AND ");
    lemma_terms(s.params);
    let t1 = Tests::Test { gap: "WHERE "@, column: "account_id"@, sign: "="@, term: "?1"@, rest: Box::new(Tests::End) };
    let p = Delete { table: "user_folders"@, tests: t1 };
    reveal_with_fuel(Tests::end_in, 2);
    reveal_with_fuel(Tests::hold, 2);
    reveal_with_fuel(Tests::all_joined, 2);
    assert(stands(s.sql, s.sql.len() as int, Seq::empty()));
    assert(p.is_read(s.sql));
}

/// Deleting a folder forgets its name.
pub proof fn law_forget_folder(account_id: int, name: Seq<char>)
    ensures
        deletes(
            forgetting(account_id, name)[0],
            "user_folders"@,
            |row: Row|
                row["account_id"@] == ValueView::Int(account_id)
                    && row["name"@] == ValueView::Text(name),
        ),
{
    let s = forgetting(account_id, name)[0];
    reveal_strlit("DELETE FROM user_folders WHERE account_id=?1 AND name=?2");
    reveal_strlit("user_folders");
    reveal_strlit("WHERE ");
    reveal_strlit("account_id");
    reveal_strlit("=");
    reveal_strlit("?1");
    reveal_strlit(" AND ");
    reveal_strlit("name");
    reveal_strlit("?2");
    reveal_strlit("DELETE FROM ");
    reveal_strlit(" ");
    lemma_terms(s.params);
    let t2 = Tests::Test { gap: " AND "@, column: "name"@, sign: "="@, term: "?2"@, rest: Box::new(Tests::End) };
    let t1 = Tests::Test { gap: "WHERE "@, column: "account_id"@, sign: "="@, term: "?1"@, rest: Box::new(t2) };
    let p = Delete { table: "user_folders"@, tests: t1 };
    reveal_with_fuel(Tests::end_in, 3);
    reveal_with_fuel(Tests::hold, 3);
    reveal_with_fuel(Tests::all_joined, 3);
    assert(stands(s.sql, s.sql.len() as int, Seq::empty()));
    assert(p.is_read(s.sql));
}

/// Deleting a folder deletes the messages of this account that are in it.
pub proof fn law_forget_folder_mail(account_id: int, name: Seq<char>)
    ensures
        deletes(
            forgetting(account_id, name)[1],
            "emails"@,
            |row: Row|
                row["account_id"@] == ValueView::Int(account_id)
                    && row["folder"@] == ValueView::Text(name),
        ),
{
    let s = forgetting(account_id, name)[1];
    reveal_strlit("DELETE FROM emails WHERE account_id=?1 AND folder=?2");
    reveal_strlit("emails");
    reveal_strlit("WHERE ");
    reveal_strlit("account_id");
    reveal_strlit("=");
    reveal_strlit("?1");
    reveal_strlit(" AND ");
    reveal_strlit("folder");
    reveal_strlit("?2");
    reveal_strlit("DELETE FROM ");
    reveal_strlit(" ");
    lemma_terms(s.params);
    let t2 = Tests::Test { gap: " AND "@, column: "folder"@, sign: "="@, term: "?2"@, rest: Box::new(Tests::End) };
    let t1 = Tests::Test { gap: "WHERE "@, column: "account_id"@, sign: "="@, term: "?1"@, rest: Box::new(t2) };
    let p = Delete { table: "emails"@, tests: t1 };
    reveal_with_fuel(Tests::end_in, 3);
    reveal_with_fuel(Tests::hold, 3);
    reveal_with_fuel(Tests::all_joined, 3);
    assert(stands(s.sql, s.sql.len() as int, Seq::empty()));
    assert(p.is_read(s.sql));
}

/// Renaming a folder replaces its name by the new one.
pub proof fn law_rename_folder(account_id: int, old_name: Seq<char>, new_name: Seq<char>)
    ensures
        changes(
            renaming(account_id, old_name, new_name)[0],
            "user_folders"@,
            |row: Row|
                row["account_id"@] == ValueView::Int(account_id)
                    && row["name"@] == ValueView::Text(old_name),
            |row: Row| row.insert("name"@, ValueView::Text(new_name)),
        ),
{
    let s = renaming(account_id, old_name, new_name)[0];
    reveal_strlit("UPDATE user_folders SET name=?1 WHERE account_id=?2 AND name=?3");
    reveal_strlit("user_folders");
    reveal_strlit("");
    reveal_strlit("name");
    reveal_strlit("?1");
    reveal_strlit(" ");
    reveal_strlit("WHERE ");
    reveal_strlit("account_id");
    reveal_strlit("=");
    reveal_strlit("?2");
    reveal_strlit(" AND ");
    reveal_strlit("?3");
    reveal_strlit("UPDATE ");
    reveal_strlit(" SET ");
    lemma_terms(s.params);
    let a1 = Sets::Assign { gap: ""@, column: "name"@, term: "?1"@, rest: Box::new(Sets::End) };
    let t2 = Tests::Test { gap: " AND "@, column: "name"@, sign: "="@, term: "?3"@, rest: Box::new(Tests::End) };
    let t1 = Tests::Test { gap: "WHERE "@, column: "account_id"@, sign: "="@, term: "?2"@, rest: Box::new(t2) };
    let p = Update { table: "user_folders"@, sets: a1, before: " "@, tests: t1 };
    reveal_with_fuel(Sets::end_in, 2);
    reveal_with_fuel(Sets::made, 2);
    reveal_with_fuel(Tests::end_in, 3);
    reveal_with_fuel(Tests::hold, 3);
    reveal_with_fuel(Tests::all_joined, 3);
    assert(stands(s.sql, s.sql.len() as int, Seq::empty()));
    assert(p.is_read(s.sql));
}

/// Renaming a folder takes the messages of this account along that are in it.
pub proof fn law_rename_folder_mail(account_id: int, old_name: Seq<char>, new_name: Seq<char>)
    ensures
        changes(
            renaming(account_id, old_name, new_name)[1],
            "emails"@,
            |row: Row|
                row["account_id"@] == ValueView::Int(account_id)
                    && row["folder"@] == ValueView::Text(old_name),
            |row: Row| row.insert("folder"@, ValueView::Text(new_name)),
        ),
{
    let s = renaming(account_id, old_name, new_name)[1];
    reveal_strlit("UPDATE emails SET folder=?1 WHERE account_id=?2 AND folder=?3");
    reveal_strlit("emails");
    reveal_strlit("");
    reveal_strlit("folder");
    reveal_strlit("?1");
    reveal_strlit(" ");
    reveal_strlit("WHERE ");
    reveal_strlit("account_id");
    reveal_strlit("=");
    reveal_strlit("?2");
    reveal_strlit(" AND ");
    reveal_strlit("?3");
    reveal_strlit("UPDATE ");
    reveal_strlit(" SET ");
    lemma_terms(s.params);
    let a1 = Sets::Assign { gap: ""@, column: "folder"@, term: "?1"@, rest: Box::new(Sets::End) };
    let t2 = Tests::Test { gap: " AND "@, column: "folder"@, sign: "="@, term: "?3"@, rest: Box::new(Tests::End) };
    let t1 = Tests::Test { gap: "WHERE "@, column: "account_id"@, sign: "="@, term: "?2"@, rest: Box::new(t2) };
    let p = Update { table: "emails"@, sets: a1, before: " "@, tests: t1 };
    reveal_with_fuel(Sets::end_in, 2);
    reveal_with_fuel(Sets::made, 2);
    reveal_with_fuel(Tests::end_in, 3);
    reveal_with_fuel(Tests::hold, 3);
    reveal_with_fuel(Tests::all_joined, 3);
    assert(stands(s.sql, s.sql.len() as int, Seq::empty()));
    assert(p.is_read(s.sql));
}

/// A message is read as it stands in a list by its id.
#[verifier::spinoff_prover]
#[verifier::rlimit(40)]
pub proof fn law_read_item(email_id: int)
    ensures
        selects(
            reading_item(email_id),
            seq![
                "id"@, "uid"@, "folder"@, "from_addr"@, "to_addr"@, "subject"@, "date"@,
                "date_ts"@, "is_read"@, "is_starred"@, "has_attachment"@, "snippet"@,
            ],
            "emails"@,
            |row: Row| row["id"@] == ValueView::Int(email_id),
            Seq::empty(),
        ),
{
    let s = reading_item(email_id);
    reveal_strlit("SELECT id, uid, folder, from_addr, to_addr, subject, date, date_ts,
                                is_read, is_starred, has_attachment, snippet
                         FROM emails WHERE id=?1");
    reveal_strlit(" ");
    reveal_strlit("id");
    reveal_strlit(", ");
    reveal_strlit("uid");
    reveal_strlit("folder");
    reveal_strlit("from_addr");
    reveal_strlit("to_addr");
    reveal_strlit("subject");
    reveal_strlit("date");
    reveal_strlit("date_ts");
    reveal_strlit(",\n                                ");
    reveal_strlit("is_read");
    reveal_strlit("is_starred");
    reveal_strlit("has_attachment");
    reveal_strlit("snippet");
    reveal_strlit("\n                         ");
    reveal_strlit("emails");
    reveal_strlit("WHERE ");
    reveal_strlit("=");
    reveal_strlit("?1");
    reveal_strlit("SELECT");
    reveal_strlit("FROM ");
    reveal_strlit(" AND ");
    lemma_terms(s.params);
    let w12 = Words::Then { gap: ", "@, word: "snippet"@, rest: Box::new(Words::End) };
    let w11 = Words::Then { gap: ", "@, word: "has_attachment"@, rest: Box::new(w12) };
    let w10 = Words::Then { gap: ", "@, word: "is_starred"@, rest: Box::new(w11) };
    let w9 = Words::Then { gap: ",\n                                "@, word: "is_read"@, rest: Box::new(w10) };
    let w8 = Words::Then { gap: ", "@, word: "date_ts"@, rest: Box::new(w9) };
    let w7 = Words::Then { gap: ", "@, word: "date"@, rest: Box::new(w8) };
    let w6 = Words::Then { gap: ", "@, word: "subject"@, rest: Box::new(w7) };
    let w5 = Words::Then { gap: ", "@, word: "to_addr"@, rest: Box::new(w6) };
    let w4 = Words::Then { gap: ", "@, word: "from_addr"@, rest: Box::new(w5) };
    let w3 = Words::Then { gap: ", "@, word: "folder"@, rest: Box::new(w4) };
    let w2 = Words::Then { gap: ", "@, word: "uid"@, rest: Box::new(w3) };
    let w1 = Words::Then { gap: " "@, word: "id"@, rest: Box::new(w2) };
    let t1 = Tests::Test { gap: "WHERE "@, column: "id"@, sign: "="@, term: "?1"@, rest: Box::new(Tests::End) };
    let p = Select {
        columns: w1,
        before_from: "\n                         "@,
        table: "emails"@,
        before: " "@,
        tests: t1,
        tail: Seq::empty(),
    };
    reveal_with_fuel(Words::end_in, 13);
    reveal_with_fuel(Words::count, 13);
    reveal_with_fuel(Words::at, 13);
    reveal_with_fuel(Tests::end_in, 2);
    reveal_with_fuel(Tests::hold, 2);
    reveal_with_fuel(Tests::all_joined, 2);
    assert(stands(s.sql, s.sql.len() as int, Seq::empty()));
    assert(p.is_read(s.sql));
}

/// A message is read with all that is shown of it by its id.
#[verifier::spinoff_prover]
#[verifier::rlimit(40)]
pub proof fn law_read_mail(email_id: int)
    ensures
        selects(
            reading_email(email_id),
            seq![
                "id"@, "from_addr"@, "to_addr"@, "cc_addr"@, "subject"@, "date"@, "body_html"@,
                "body_text"@, "is_read"@, "is_starred"@, "has_attachment"@, "read_receipt_to"@,
                "read_receipt_sent"@,
            ],
            "emails"@,
            |row: Row| row["id"@] == ValueView::Int(email_id),
            Seq::empty(),
        ),
{
    let s = reading_email(email_id);
    reveal_strlit("SELECT id, from_addr, to_addr, cc_addr, subject, date,
                body_html, body_text, is_read, is_starred, has_attachment,
                read_receipt_to, read_receipt_sent
         FROM emails WHERE id=?1");
    reveal_strlit(" ");
    reveal_strlit("id");
    reveal_strlit(", ");
    reveal_strlit("from_addr");
    reveal_strlit("to_addr");
    reveal_strlit("cc_addr");
    reveal_strlit("subject");
    reveal_strlit("date");
    reveal_strlit(",\n                ");
    reveal_strlit("body_html");
    reveal_strlit("body_text");
    reveal_strlit("is_read");
    reveal_strlit("is_starred");
    reveal_strlit("has_attachment");
    reveal_strlit("read_receipt_to");
    reveal_strlit("read_receipt_sent");
    reveal_strlit("\n         ");
    reveal_strlit("emails");
    reveal_strlit("WHERE ");
    reveal_strlit("=");
    reveal_strlit("?1");
    reveal_strlit("SELECT");
    reveal_strlit("FROM ");
    reveal_strlit(" AND ");
    lemma_terms(s.params);
    let w13 = Words::Then { gap: ", "@, word: "read_receipt_sent"@, rest: Box::new(Words::End) };
    let w12 = Words::Then { gap: ",\n                "@, word: "read_receipt_to"@, rest: Box::new(w13) };
    let w11 = Words::Then { gap: ", "@, word: "has_attachment"@, rest: Box::new(w12) };
    let w10 = Words::Then { gap: ", "@, word: "is_starred"@, rest: Box::new(w11) };
    let w9 = Words::Then { gap: ", "@, word: "is_read"@, rest: Box::new(w10) };
    let w8 = Words::Then { gap: ", "@, word: "body_text"@, rest: Box::new(w9) };
    let w7 = Words::Then { gap: ",\n                "@, word: "body_html"@, rest: Box::new(w8) };
    let w6 = Words::Then { gap: ", "@, word: "date"@, rest: Box::new(w7) };
    let w5 = Words::Then { gap: ", "@, word: "subject"@, rest: Box::new(w6) };
    let w4 = Words::Then { gap: ", "@, word: "cc_addr"@, rest: Box::new(w5) };
    let w3 = Words::Then { gap: ", "@, word: "to_addr"@, rest: Box::new(w4) };
    let w2 = Words::Then { gap: ", "@, word: "from_addr"@, rest: Box::new(w3) };
    let w1 = Words::Then { gap: " "@, word: "id"@, rest: Box::new(w2) };
    let t1 = Tests::Test { gap: "WHERE "@, column: "id"@, sign: "="@, term: "?1"@, rest: Box::new(Tests::End) };
    let p = Select {
        columns: w1,
        before_from: "\n         "@,
        table: "emails"@,
        before: " "@,
        tests: t1,
        tail: Seq::empty(),
    };
    reveal_with_fuel(Words::end_in, 14);
    reveal_with_fuel(Words::count, 14);
    reveal_with_fuel(Words::at, 14);
    reveal_with_fuel(Tests::end_in, 2);
    reveal_with_fuel(Tests::hold, 2);
    reveal_with_fuel(Tests::all_joined, 2);
    assert(stands(s.sql, s.sql.len() as int, Seq::empty()));
    assert(p.is_read(s.sql));
}

/// Whether a message has a star is read by its id.
pub proof fn law_read_star(email_id: int)
    ensures
        selects(
            reading_star(email_id),
            seq!["is_starred"@],
            "emails"@,
            |row: Row| row["id"@] == ValueView::Int(email_id),
            Seq::empty(),
        ),
{
    let s = reading_star(email_id);
    reveal_strlit("SELECT is_starred FROM emails WHERE id=?1");
    reveal_strlit(" ");
    reveal_strlit("is_starred");
    reveal_strlit("emails");
    reveal_strlit("WHERE ");
    reveal_strlit("id");
    reveal_strlit("=");
    reveal_strlit("?1");
    reveal_strlit("SELECT");
    reveal_strlit("FROM ");
    reveal_strlit(" AND ");
    lemma_terms(s.params);
    let w1 = Words::Then { gap: " "@, word: "is_starred"@, rest: Box::new(Words::End) };
    let t1 = Tests::Test { gap: "WHERE "@, column: "id"@, sign: "="@, term: "?1"@, rest: Box::new(Tests::End) };
    let p = Select {
        columns: w1,
        before_from: " "@,
        table: "emails"@,
        before: " "@,
        tests: t1,
        tail: Seq::empty(),
    };
    reveal_with_fuel(Words::end_in, 2);
    reveal_with_fuel(Words::count, 2);
    reveal_with_fuel(Words::at, 2);
    reveal_with_fuel(Tests::end_in, 2);
    reveal_with_fuel(Tests::hold, 2);
    reveal_with_fuel(Tests::all_joined, 2);
    assert(stands(s.sql, s.sql.len() as int, Seq::empty()));
    assert(p.is_read(s.sql));
}

/// The sender of a message is read by its id.
pub proof fn law_read_sender(email_id: int)
    ensures
        selects(
            reading_sender(email_id),
            seq!["from_addr"@],
            "emails"@,
            |row: Row| row["id"@] == ValueView::Int(email_id),
            Seq::empty(),
        ),
{
    let s = reading_sender(email_id);
    reveal_strlit("SELECT from_addr FROM emails WHERE id=?1");
    reveal_strlit(" ");
    reveal_strlit("from_addr");
    reveal_strlit("emails");
    reveal_strlit("WHERE ");
    reveal_strlit("id");
    reveal_strlit("=");
    reveal_strlit("?1");
    reveal_strlit("SELECT");
    reveal_strlit("FROM ");
    reveal_strlit(" AND ");
    lemma_terms(s.params);
    let w1 = Words::Then { gap: " "@, word: "from_addr"@, rest: Box::new(Words::End) };
    let t1 = Tests::Test { gap: "WHERE "@, column: "id"@, sign: "="@, term: "?1"@, rest: Box::new(Tests::End) };
    let p = Select {
        columns: w1,
        before_from: " "@,
        table: "emails"@,
        before: " "@,
        tests: t1,
        tail: Seq::empty(),
    };
    reveal_with_fuel(Words::end_in, 2);
    reveal_with_fuel(Words::count, 2);
    reveal_with_fuel(Words::at, 2);
    reveal_with_fuel(Tests::end_in, 2);
    reveal_with_fuel(Tests::hold, 2);
    reveal_with_fuel(Tests::all_joined, 2);
    assert(stands(s.sql, s.sql.len() as int, Seq::empty()));
    assert(p.is_read(s.sql));
}

/// The unread messages that are counted are those in the inbox of this account.
pub proof fn law_count_unread(account_id: int)
    ensures
        selects(
            counting_unread(account_id),
            seq!["COUNT(*)"@],
            "emails"@,
            |row: Row|
                row["account_id"@] == ValueView::Int(account_id)
                    && row["folder"@] == ValueView::Text("INBOX"@)
                    && row["is_read"@] == ValueView::Int(0),
            Seq::empty(),
        ),
{
    let s = counting_unread(account_id);
    reveal_strlit("SELECT COUNT(*) FROM emails WHERE account_id=?1 AND folder='INBOX' AND is_read=0");
    reveal_strlit(" ");
    reveal_strlit("COUNT(*)");
    reveal_strlit("emails");
    reveal_strlit("WHERE ");
    reveal_strlit("account_id");
    reveal_strlit("=");
    reveal_strlit("?1");
    reveal_strlit(" AND ");
    reveal_strlit("folder");
    reveal_strlit("'INBOX'");
    reveal_strlit("is_read");
    reveal_strlit("0");
    reveal_strlit("SELECT");
    reveal_strlit("FROM ");
    reveal_strlit("INBOX");
    lemma_terms(s.params);
    assert("'INBOX'"@.subrange(1, 6) =~= "INBOX"@);
    assert("0"@.drop_last() =~= Seq::<char>::empty());
    reveal_with_fuel(number_in, 2);
    let w1 = Words::Then { gap: " "@, word: "COUNT(*)"@, rest: Box::new(Words::End) };
    let t3 = Tests::Test { gap: " AND "@, column: "is_read"@, sign: "="@, term: "0"@, rest: Box::new(Tests::End) };
    let t2 = Tests::Test { gap: " AND "@, column: "folder"@, sign: "="@, term: "'INBOX'"@, rest: Box::new(t3) };
    let t1 = Tests::Test { gap: "WHERE "@, column: "account_id"@, sign: "="@, term: "?1"@, rest: Box::new(t2) };
    let p = Select {
        columns: w1,
        before_from: " "@,
        table: "emails"@,
        before: " "@,
        tests: t1,
        tail: Seq::empty(),
    };
    reveal_with_fuel(Words::end_in, 2);
    reveal_with_fuel(Words::count, 2);
    reveal_with_fuel(Words::at, 2);
    reveal_with_fuel(Tests::end_in, 4);
    reveal_with_fuel(Tests::hold, 4);
    reveal_with_fuel(Tests::all_joined, 4);
    assert(stands(s.sql, s.sql.len() as int, Seq::empty()));
    assert(p.is_read(s.sql));
}

/// The unread messages that are counted for each account are those in its inbox.
pub proof fn law_count_all_unread()
    ensures
        selects(
            counting_all_unread(),
            seq!["account_id"@, "COUNT(*)"@],
            "emails"@,
            |row: Row|
                row["folder"@] == ValueView::Text("INBOX"@)
                    && row["is_read"@] == ValueView::Int(0),
            " GROUP BY account_id"@,
        ),
{
    let s = counting_all_unread();
    reveal_strlit("SELECT account_id, COUNT(*) FROM emails WHERE folder='INBOX' AND is_read=0 GROUP BY account_id");
    reveal_strlit(" ");
    reveal_strlit("account_id");
    reveal_strlit(", ");
    reveal_strlit("COUNT(*)");
    reveal_strlit("emails");
    reveal_strlit("WHERE ");
    reveal_strlit("folder");
    reveal_strlit("=");
    reveal_strlit("'INBOX'");
    reveal_strlit(" AND ");
    reveal_strlit("is_read");
    reveal_strlit("0");
    reveal_strlit(" GROUP BY account_id");
    reveal_strlit("SELECT");
    reveal_strlit("FROM ");
    reveal_strlit("INBOX");
    lemma_terms(s.params);
    assert("'INBOX'"@.subrange(1, 6) =~= "INBOX"@);
    assert("0"@.drop_last() =~= Seq::<char>::empty());
    reveal_with_fuel(number_in, 2);
    let w2 = Words::Then { gap: ", "@, word: "COUNT(*)"@, rest: Box::new(Words::End) };
    let w1 = Words::Then { gap: " "@, word: "account_id"@, rest: Box::new(w2) };
    let t2 = Tests::Test { gap: " AND "@, column: "is_read"@, sign: "="@, term: "0"@, rest: Box::new(Tests::End) };
    let t1 = Tests::Test { gap: "WHERE "@, column: "folder"@, sign: "="@, term: "'INBOX'"@, rest: Box::new(t2) };
    let p = Select {
        columns: w1,
        before_from: " "@,
        table: "emails"@,
        before: " "@,
        tests: t1,
        tail: " GROUP BY account_id"@,
    };
    reveal_with_fuel(Words::end_in, 3);
    reveal_with_fuel(Words::count, 3);
    reveal_with_fuel(Words::at, 3);
    reveal_with_fuel(Tests::end_in, 3);
    reveal_with_fuel(Tests::hold, 3);
    reveal_with_fuel(Tests::all_joined, 3);
    assert(p.is_read(s.sql));
}

/// The drafts that are counted are those of this account.
pub proof fn law_count_drafts(account_id: int)
    ensures
        selects(
            counting_drafts(account_id),
            seq!["COUNT(*)"@],
            "emails"@,
            |row: Row|
                row["account_id"@] == ValueView::Int(account_id)
                    && row["folder"@] == ValueView::Text("Drafts"@),
            Seq::empty(),
        ),
{
    let s = counting_drafts(account_id);
    reveal_strlit("SELECT COUNT(*) FROM emails WHERE account_id=?1 AND folder='Drafts'");
    reveal_strlit(" ");
    reveal_strlit("COUNT(*)");
    reveal_strlit("emails");
    reveal_strlit("WHERE ");
    reveal_strlit("account_id");
    reveal_strlit("=");
    reveal_strlit("?1");
    reveal_strlit(" AND ");
    reveal_strlit("folder");
    reveal_strlit("'Drafts'");
    reveal_strlit("SELECT");
    reveal_strlit("FROM ");
    reveal_strlit("Drafts");
    lemma_terms(s.params);
    assert("'Drafts'"@.subrange(1, 7) =~= "Drafts"@);
    let w1 = Words::Then { gap: " "@, word: "COUNT(*)"@, rest: Box::new(Words::End) };
    let t2 = Tests::Test { gap: " AND "@, column: "folder"@, sign: "="@, term: "'Drafts'"@, rest: Box::new(Tests::End) };
    let t1 = Tests::Test { gap: "WHERE "@, column: "account_id"@, sign: "="@, term: "?1"@, rest: Box::new(t2) };
    let p = Select {
        columns: w1,
        before_from: " "@,
        table: "emails"@,
        before: " "@,
        tests: t1,
        tail: Seq::empty(),
    };
    reveal_with_fuel(Words::end_in, 2);
    reveal_with_fuel(Words::count, 2);
    reveal_with_fuel(Words::at, 2);
    reveal_with_fuel(Tests::end_in, 3);
    reveal_with_fuel(Tests::hold, 3);
    reveal_with_fuel(Tests::all_joined, 3);
    assert(stands(s.sql, s.sql.len() as int, Seq::empty()));
    assert(p.is_read(s.sql));
}

/// The names of the folders of an account are read in alphabetical order.
pub proof fn law_read_folders(account_id: int)
    ensures
        selects(
            reading_names(account_id),
            seq!["name"@],
            "user_folders"@,
            |row: Row| row["account_id"@] == ValueView::Int(account_id),
            " ORDER BY name"@,
        ),
{
    let s = reading_names(account_id);
    reveal_strlit("SELECT name FROM user_folders WHERE account_id=?1 ORDER BY name");
    reveal_strlit(" ");
    reveal_strlit("name");
    reveal_strlit("user_folders");
    reveal_strlit("WHERE ");
    reveal_strlit("account_id");
    reveal_strlit("=");
    reveal_strlit("?1");
    reveal_strlit(" ORDER BY name");
    reveal_strlit("SELECT");
    reveal_strlit("FROM ");
    reveal_strlit(" AND ");
    lemma_terms(s.params);
    let w1 = Words::Then { gap: " "@, word: "name"@, rest: Box::new(Words::End) };
    let t1 = Tests::Test { gap: "WHERE "@, column: "account_id"@, sign: "="@, term: "?1"@, rest: Box::new(Tests::End) };
    let p = Select {
        columns: w1,
        before_from: " "@,
        table: "user_folders"@,
        before: " "@,
        tests: t1,
        tail: " ORDER BY name"@,
    };
    reveal_with_fuel(Words::end_in, 2);
    reveal_with_fuel(Words::count, 2);
    reveal_with_fuel(Words::at, 2);
    reveal_with_fuel(Tests::end_in, 2);
    reveal_with_fuel(Tests::hold, 2);
    reveal_with_fuel(Tests::all_joined, 2);
    assert(p.is_read(s.sql));
}

/// Where a message is, is read by its id, if it is one of this account.
pub proof fn law_locate(id: int, account_id: int)
    ensures
        selects(
            locating(id, account_id),
            seq!["id"@, "uid"@, "folder"@],
            "emails"@,
            |row: Row|
                row["id"@] == ValueView::Int(id)
                    && row["account_id"@] == ValueView::Int(account_id),
            Seq::empty(),
        ),
{
    let s = locating(id, account_id);
    reveal_strlit("SELECT id, uid, folder FROM emails WHERE id=?1 AND account_id=?2");
    reveal_strlit(" ");
    reveal_strlit("id");
    reveal_strlit(", ");
    reveal_strlit("uid");
    reveal_strlit("folder");
    reveal_strlit("emails");
    reveal_strlit("WHERE ");
    reveal_strlit("=");
    reveal_strlit("?1");
    reveal_strlit(" AND ");
    reveal_strlit("account_id");
    reveal_strlit("?2");
    reveal_strlit("SELECT");
    reveal_strlit("FROM ");
    lemma_terms(s.params);
    let w3 = Words::Then { gap: ", "@, word: "folder"@, rest: Box::new(Words::End) };
    let w2 = Words::Then { gap: ", "@, word: "uid"@, rest: Box::new(w3) };
    let w1 = Words::Then { gap: " "@, word: "id"@, rest: Box::new(w2) };
    let t2 = Tests::Test { gap: " AND "@, column: "account_id"@, sign: "="@, term: "?2"@, rest: Box::new(Tests::End) };
    let t1 = Tests::Test { gap: "WHERE "@, column: "id"@, sign: "="@, term: "?1"@, rest: Box::new(t2) };
    let p = Select {
        columns: w1,
        before_from: " "@,
        table: "emails"@,
        before: " "@,
        tests: t1,
        tail: Seq::empty(),
    };
    reveal_with_fuel(Words::end_in, 4);
    reveal_with_fuel(Words::count, 4);
    reveal_with_fuel(Words::at, 4);
    reveal_with_fuel(Tests::end_in, 3);
    reveal_with_fuel(Tests::hold, 3);
    reveal_with_fuel(Tests::all_joined, 3);
    assert(stands(s.sql, s.sql.len() as int, Seq::empty()));
    assert(p.is_read(s.sql));
}

/// The old messages are those in the inbox of this account with a date before the limit.
pub proof fn law_find_old(account_id: int, cutoff: int)
    ensures
        selects(
            finding_old(account_id, cutoff),
            seq!["id"@, "uid"@],
            "emails"@,
            |row: Row|
                row["account_id"@] == ValueView::Int(account_id)
                    && row["folder"@] == ValueView::Text("INBOX"@)
                    && (row["date_ts"@] matches ValueView::Int(t) && 0 < t < cutoff),
            Seq::empty(),
        ),
{
    let s = finding_old(account_id, cutoff);
    reveal_strlit("SELECT id, uid FROM emails WHERE account_id=?1 AND folder='INBOX' AND date_ts > 0 AND date_ts < ?2");
    reveal_strlit(" ");
    reveal_strlit("id");
    reveal_strlit(", ");
    reveal_strlit("uid");
    reveal_strlit("emails");
    reveal_strlit("WHERE ");
    reveal_strlit("account_id");
    reveal_strlit("=");
    reveal_strlit("?1");
    reveal_strlit(" AND ");
    reveal_strlit("folder");
    reveal_strlit("'INBOX'");
    reveal_strlit("date_ts");
    reveal_strlit(" > ");
    reveal_strlit("0");
    reveal_strlit(" < ");
    reveal_strlit("?2");
    reveal_strlit("SELECT");
    reveal_strlit("FROM ");
    reveal_strlit("INBOX");
    reveal_strlit(" = ");
    reveal_strlit("!=");
    reveal_strlit(" IS ");
    lemma_terms(s.params);
    assert("'INBOX'"@.subrange(1, 6) =~= "INBOX"@);
    assert("0"@.drop_last() =~= Seq::<char>::empty());
    reveal_with_fuel(number_in, 2);
    assert(" > "@[1] != " = "@[1]);
    assert(" < "@[1] != " = "@[1]);
    assert(" < "@[1] != " > "@[1]);
    let w2 = Words::Then { gap: ", "@, word: "uid"@, rest: Box::new(Words::End) };
    let w1 = Words::Then { gap: " "@, word: "id"@, rest: Box::new(w2) };
    let t4 = Tests::Test { gap: " AND "@, column: "date_ts"@, sign: " < "@, term: "?2"@, rest: Box::new(Tests::End) };
    let t3 = Tests::Test { gap: " AND "@, column: "date_ts"@, sign: " > "@, term: "0"@, rest: Box::new(t4) };
    let t2 = Tests::Test { gap: " AND "@, column: "folder"@, sign: "="@, term: "'INBOX'"@, rest: Box::new(t3) };
    let t1 = Tests::Test { gap: "WHERE "@, column: "account_id"@, sign: "="@, term: "?1"@, rest: Box::new(t2) };
    let p = Select {
        columns: w1,
        before_from: " "@,
        table: "emails"@,
        before: " "@,
        tests: t1,
        tail: Seq::empty(),
    };
    reveal_with_fuel(Words::end_in, 3);
    reveal_with_fuel(Words::count, 3);
    reveal_with_fuel(Words::at, 3);
    reveal_with_fuel(Tests::end_in, 5);
    reveal_with_fuel(Tests::hold, 5);
    reveal_with_fuel(Tests::all_joined, 5);
    assert(stands(s.sql, s.sql.len() as int, Seq::empty()));
    assert(p.is_read(s.sql));
}

/// A message is known by its account and number, whatever its folder.
pub proof fn law_find_known(account_id: int, uid: int)
    ensures
        selects(
            finding_known(account_id, uid),
            seq!["1"@],
            "emails"@,
            |row: Row|
                row["account_id"@] == ValueView::Int(account_id)
                    && row["uid"@] == ValueView::Int(uid),
            " LIMIT 1"@,
        ),
{
    let s = finding_known(account_id, uid);
    reveal_strlit("SELECT 1 FROM emails WHERE account_id=?1 AND uid=?2 LIMIT 1");
    reveal_strlit(" ");
    reveal_strlit("1");
    reveal_strlit("emails");
    reveal_strlit("WHERE ");
    reveal_strlit("account_id");
    reveal_strlit("=");
    reveal_strlit("?1");
    reveal_strlit(" AND ");
    reveal_strlit("uid");
    reveal_strlit("?2");
    reveal_strlit(" LIMIT 1");
    reveal_strlit("SELECT");
    reveal_strlit("FROM ");
    lemma_terms(s.params);
    let w1 = Words::Then { gap: " "@, word: "1"@, rest: Box::new(Words::End) };
    let t2 = Tests::Test { gap: " AND "@, column: "uid"@, sign: "="@, term: "?2"@, rest: Box::new(Tests::End) };
    let t1 = Tests::Test { gap: "WHERE "@, column: "account_id"@, sign: "="@, term: "?1"@, rest: Box::new(t2) };
    let p = Select {
        columns: w1,
        before_from: " "@,
        table: "emails"@,
        before: " "@,
        tests: t1,
        tail: " LIMIT 1"@,
    };
    reveal_with_fuel(Words::end_in, 2);
    reveal_with_fuel(Words::count, 2);
    reveal_with_fuel(Words::at, 2);
    reveal_with_fuel(Tests::end_in, 3);
    reveal_with_fuel(Tests::hold, 3);
    reveal_with_fuel(Tests::all_joined, 3);
    assert(p.is_read(s.sql));
}

/// The number of the last message is read by account and folder.
pub proof fn law_read_last_uid(account_id: int, folder: Seq<char>)
    ensures
        selects(
            reading_last_uid(account_id, folder),
            seq!["last_uid"@],
            "folder_state"@,
            |row: Row|
                row["account_id"@] == ValueView::Int(account_id)
                    && row["folder"@] == ValueView::Text(folder),
            Seq::empty(),
        ),
{
    let s = reading_last_uid(account_id, folder);
    reveal_strlit("SELECT last_uid FROM folder_state WHERE account_id=?1 AND folder=?2");
    reveal_strlit(" ");
    reveal_strlit("last_uid");
    reveal_strlit("folder_state");
    reveal_strlit("WHERE ");
    reveal_strlit("account_id");
    reveal_strlit("=");
    reveal_strlit("?1");
    reveal_strlit(" AND ");
    reveal_strlit("folder");
    reveal_strlit("?2");
    reveal_strlit("SELECT");
    reveal_strlit("FROM ");
    lemma_terms(s.params);
    let w1 = Words::Then { gap: " "@, word: "last_uid"@, rest: Box::new(Words::End) };
    let t2 = Tests::Test { gap: " AND "@, column: "folder"@, sign: "="@, term: "?2"@, rest: Box::new(Tests::End) };
    let t1 = Tests::Test { gap: "WHERE "@, column: "account_id"@, sign: "="@, term: "?1"@, rest: Box::new(t2) };
    let p = Select {
        columns: w1,
        before_from: " "@,
        table: "folder_state"@,
        before: " "@,
        tests: t1,
        tail: Seq::empty(),
    };
    reveal_with_fuel(Words::end_in, 2);
    reveal_with_fuel(Words::count, 2);
    reveal_with_fuel(Words::at, 2);
    reveal_with_fuel(Tests::end_in, 3);
    reveal_with_fuel(Tests::hold, 3);
    reveal_with_fuel(Tests::all_joined, 3);
    assert(stands(s.sql, s.sql.len() as int, Seq::empty()));
    assert(p.is_read(s.sql));
}

/// When a message was sent is read by its id.
pub proof fn law_read_time(email_id: int)
    ensures
        selects(
            reading_time(email_id),
            seq!["date_ts"@],
            "emails"@,
            |row: Row| row["id"@] == ValueView::Int(email_id),
            Seq::empty(),
        ),
{
    let s = reading_time(email_id);
    reveal_strlit("SELECT date_ts FROM emails WHERE id=?1");
    reveal_strlit(" ");
    reveal_strlit("date_ts");
    reveal_strlit("emails");
    reveal_strlit("WHERE ");
    reveal_strlit("id");
    reveal_strlit("=");
    reveal_strlit("?1");
    reveal_strlit("SELECT");
    reveal_strlit("FROM ");
    reveal_strlit(" AND ");
    lemma_terms(s.params);
    let w1 = Words::Then { gap: " "@, word: "date_ts"@, rest: Box::new(Words::End) };
    let t1 = Tests::Test { gap: "WHERE "@, column: "id"@, sign: "="@, term: "?1"@, rest: Box::new(Tests::End) };
    let p = Select {
        columns: w1,
        before_from: " "@,
        table: "emails"@,
        before: " "@,
        tests: t1,
        tail: Seq::empty(),
    };
    reveal_with_fuel(Words::end_in, 2);
    reveal_with_fuel(Words::count, 2);
    reveal_with_fuel(Words::at, 2);
    reveal_with_fuel(Tests::end_in, 2);
    reveal_with_fuel(Tests::hold, 2);
    reveal_with_fuel(Tests::all_joined, 2);
    assert(stands(s.sql, s.sql.len() as int, Seq::empty()));
    assert(p.is_read(s.sql));
}

/// The attachments that are not saved yet are found by the id of their message.
pub proof fn law_find_unsaved(email_id: int)
    ensures
        selects(
            finding_unsaved(email_id),
            seq!["id"@, "file_path"@, "filename"@],
            "attachments"@,
            |row: Row|
                row["email_id"@] == ValueView::Int(email_id)
                    && row["saved_path"@] == ValueView::Null,
            Seq::empty(),
        ),
{
    let s = finding_unsaved(email_id);
    reveal_strlit("SELECT id, file_path, filename FROM attachments WHERE email_id=?1 AND saved_path IS NULL");
    reveal_strlit(" ");
    reveal_strlit("id");
    reveal_strlit(", ");
    reveal_strlit("file_path");
    reveal_strlit("filename");
    reveal_strlit("attachments");
    reveal_strlit("WHERE ");
    reveal_strlit("email_id");
    reveal_strlit("=");
    reveal_strlit("?1");
    reveal_strlit(" AND ");
    reveal_strlit("saved_path");
    reveal_strlit(" IS ");
    reveal_strlit("NULL");
    reveal_strlit("SELECT");
    reveal_strlit("FROM ");
    reveal_strlit(" = ");
    reveal_strlit("!=");
    reveal_strlit(" > ");
    reveal_strlit(" < ");
    lemma_terms(s.params);
    let w3 = Words::Then { gap: ", "@, word: "filename"@, rest: Box::new(Words::End) };
    let w2 = Words::Then { gap: ", "@, word: "file_path"@, rest: Box::new(w3) };
    let w1 = Words::Then { gap: " "@, word: "id"@, rest: Box::new(w2) };
    let t2 = Tests::Test { gap: " AND "@, column: "saved_path"@, sign: " IS "@, term: "NULL"@, rest: Box::new(Tests::End) };
    let t1 = Tests::Test { gap: "WHERE "@, column: "email_id"@, sign: "="@, term: "?1"@, rest: Box::new(t2) };
    let p = Select {
        columns: w1,
        before_from: " "@,
        table: "attachments"@,
        before: " "@,
        tests: t1,
        tail: Seq::empty(),
    };
    reveal_with_fuel(Words::end_in, 4);
    reveal_with_fuel(Words::count, 4);
    reveal_with_fuel(Words::at, 4);
    reveal_with_fuel(Tests::end_in, 3);
    reveal_with_fuel(Tests::hold, 3);
    reveal_with_fuel(Tests::all_joined, 3);
    assert(stands(s.sql, s.sql.len() as int, Seq::empty()));
    assert(p.is_read(s.sql));
}

/// Where an attachment was saved is read by its place.
pub proof fn law_find_saved(file_path: Seq<char>)
    ensures
        selects(
            finding_saved(file_path),
            seq!["saved_path"@],
            "attachments"@,
            |row: Row| row["file_path"@] == ValueView::Text(file_path),
            Seq::empty(),
        ),
{
    let s = finding_saved(file_path);
    reveal_strlit("SELECT saved_path FROM attachments WHERE file_path=?1");
    reveal_strlit(" ");
    reveal_strlit("saved_path");
    reveal_strlit("attachments");
    reveal_strlit("WHERE ");
    reveal_strlit("file_path");
    reveal_strlit("=");
    reveal_strlit("?1");
    reveal_strlit("SELECT");
    reveal_strlit("FROM ");
    reveal_strlit(" AND ");
    lemma_terms(s.params);
    let w1 = Words::Then { gap: " "@, word: "saved_path"@, rest: Box::new(Words::End) };
    let t1 = Tests::Test { gap: "WHERE "@, column: "file_path"@, sign: "="@, term: "?1"@, rest: Box::new(Tests::End) };
    let p = Select {
        columns: w1,
        before_from: " "@,
        table: "attachments"@,
        before: " "@,
        tests: t1,
        tail: Seq::empty(),
    };
    reveal_with_fuel(Words::end_in, 2);
    reveal_with_fuel(Words::count, 2);
    reveal_with_fuel(Words::at, 2);
    reveal_with_fuel(Tests::end_in, 2);
    reveal_with_fuel(Tests::hold, 2);
    reveal_with_fuel(Tests::all_joined, 2);
    assert(stands(s.sql, s.sql.len() as int, Seq::empty()));
    assert(p.is_read(s.sql));
}

/// The attachments of a message are read in the order in which they came.
pub proof fn law_read_files(email_id: int)
    ensures
        selects(
            reading_attachments(email_id),
            seq!["id"@, "email_id"@, "filename"@, "mime_type"@, "file_path"@, "file_size"@],
            "attachments"@,
            |row: Row| row["email_id"@] == ValueView::Int(email_id),
            " ORDER BY id ASC"@,
        ),
{
    let s = reading_attachments(email_id);
    reveal_strlit("SELECT id, email_id, filename, mime_type, file_path, file_size
         FROM attachments WHERE email_id=?1 ORDER BY id ASC");
    reveal_strlit(" ");
    reveal_strlit("id");
    reveal_strlit(", ");
    reveal_strlit("email_id");
    reveal_strlit("filename");
    reveal_strlit("mime_type");
    reveal_strlit("file_path");
    reveal_strlit("file_size");
    reveal_strlit("\n         ");
    reveal_strlit("attachments");
    reveal_strlit("WHERE ");
    reveal_strlit("=");
    reveal_strlit("?1");
    reveal_strlit(" ORDER BY id ASC");
    reveal_strlit("SELECT");
    reveal_strlit("FROM ");
    reveal_strlit(" AND ");
    lemma_terms(s.params);
    let w6 = Words::Then { gap: ", "@, word: "file_size"@, rest: Box::new(Words::End) };
    let w5 = Words::Then { gap: ", "@, word: "file_path"@, rest: Box::new(w6) };
    let w4 = Words::Then { gap: ", "@, word: "mime_type"@, rest: Box::new(w5) };
    let w3 = Words::Then { gap: ", "@, word: "filename"@, rest: Box::new(w4) };
    let w2 = Words::Then { gap: ", "@, word: "email_id"@, rest: Box::new(w3) };
    let w1 = Words::Then { gap: " "@, word: "id"@, rest: Box::new(w2) };
    let t1 = Tests::Test { gap: "WHERE "@, column: "email_id"@, sign: "="@, term: "?1"@, rest: Box::new(Tests::End) };
    let p = Select {
        columns: w1,
        before_from: "\n         "@,
        table: "attachments"@,
        before: " "@,
        tests: t1,
        tail: " ORDER BY id ASC"@,
    };
    reveal_with_fuel(Words::end_in, 7);
    reveal_with_fuel(Words::count, 7);
    reveal_with_fuel(Words::at, 7);
    reveal_with_fuel(Tests::end_in, 2);
    reveal_with_fuel(Tests::hold, 2);
    reveal_with_fuel(Tests::all_joined, 2);
    assert(p.is_read(s.sql));
}

} // verus!
