//! Backups and the log, notifications, the start of the program, the tray, contacts from files and senders,
//! and what the tables keep apart.
use vstd::prelude::*;

use crate::address_book::{
    filling_group, finding_contact, insertions, joining, joining_groups, keeping_card,
    reading_members, sender_card,
};
use crate::archive::first_place;
use crate::attachments::{OpenStage, open_stage_after};
use crate::backup::{
    days_between, due, is_database, law_newest_backups_are_kept, magic, nanos_between, removed,
    tail, SettingsView,
};
use crate::contacts::{Columns, ContactRow, card, contact_in};
use crate::emails::{count_changed, marking_all, marking_read};
use crate::notify::{MAIL_NOTIF_BODY, Clicked, clicked, script, seconds_shown};
use crate::sending::law_contact_line;
use crate::sql::{Row, is_gap, lemma_terms, stands_within, value_of};
use crate::startup::{TrayAction, run_command, tray_item};
use crate::statements::{StatementView, ValueView};
use crate::sync::filtering;
use crate::text::{decimal, ends_clean, has_word, lemma_trim_fixed, word_at};
use crate::schema::SCHEMA;

verus! {

// ---------------------------------------------------------------------------------------------
// Backups and the log
// ---------------------------------------------------------------------------------------------

/// No backup is due where none is wanted; where one is wanted, it is due if none was made yet, if nobody
/// knows how long ago, or if at least so many days have passed as were chosen.
pub proof fn law_due(s: SettingsView, days: Option<i64>)
    ensures
        !s.enabled ==> !due(s, days),
        s.enabled && s.last_backup is None ==> due(s, days),
        s.enabled && days is None ==> due(s, days),
        s.enabled && s.last_backup is Some ==> (days matches Some(d) ==> (due(s, days) <==> d
            >= s.interval_days)),
{
}

/// From one moment to the same time of another day as many days pass as lie between them, and up to a
/// second less only whole ones count.
pub proof fn law_days(seconds: i64, later: i64, nanos: u32, days: int)
    requires
        nanos < 1000000000,
        later == seconds + days * 86400,
        days >= 0,
    ensures
        days_between((seconds, nanos), (later, nanos)) == days,
        days_between((later, nanos), (seconds, nanos)) == -days,
        later < i64::MAX - 86400 ==> days_between((seconds, nanos), ((later + 86399) as i64, nanos)) == days,
{
    let day = 86400int * 1000000000int;
    let n = nanos_between((seconds, nanos), (later, nanos));
    assert(n == days * day) by (nonlinear_arith)
        requires
            n == (days * 86400) * 1000000000,
            day == 86400int * 1000000000int,
    ;
    assert(n / day == days) by (nonlinear_arith)
        requires
            n == days * day,
            day > 0,
    ;
    let back = nanos_between((later, nanos), (seconds, nanos));
    assert(back == -n) by (nonlinear_arith)
        requires
            back == (0 - days * 86400) * 1000000000,
            n == (days * 86400) * 1000000000,
    ;
    assert(n >= 0) by (nonlinear_arith)
        requires
            n == days * day,
            days >= 0,
            day > 0,
    ;
    if later < i64::MAX - 86400 {
        let m = nanos_between((seconds, nanos), ((later + 86399) as i64, nanos));
        assert(m == days * day + 86399 * 1000000000) by (nonlinear_arith)
            requires
                m == (days * 86400 + 86399) * 1000000000,
                day == 86400int * 1000000000int,
        ;
        assert(m / day == days) by (nonlinear_arith)
            requires
                m == days * day + 86399 * 1000000000,
                day == 86400int * 1000000000int,
        ;
    }
}

/// No backup that is kept is older than one that is removed, and one whose time is not known is older than
/// any other.
pub proof fn law_kept_are_newer(times: Seq<Option<i128>>, keep: int, a: int, b: int)
    requires
        0 <= keep,
        removed(times, keep).contains(a),
        0 <= b < times.len(),
        !removed(times, keep).contains(b),
    ensures
        times[a] matches Some(x) ==> (times[b] matches Some(y) && x <= y),
{
    law_newest_backups_are_kept(times, keep, a, b);
}

/// Nothing is removed while there are not too many backups.
pub proof fn law_nothing_removed(times: Seq<Option<i128>>, keep: int)
    requires
        times.len() <= keep,
    ensures
        removed(times, keep).len() == 0,
{
}

/// A database begins with the words `SQLite format 3` and a zero.
pub proof fn law_magic(i: int)
    requires
        0 <= i < 16,
    ensures
        magic().len() == 16,
        i < 15 ==> magic()[i] as int == "SQLite format 3"@[i] as int,
        magic()[15] == 0,
{
    reveal_strlit("SQLite format 3");
    assert(i == 0 || i == 1 || i == 2 || i == 3 || i == 4 || i == 5 || i == 6 || i == 7 || i == 8 || i == 9
        || i == 10 || i == 11 || i == 12 || i == 13 || i == 14 || i == 15);
}

/// A file that begins as a database does can be restored, whatever follows; one that is too short or
/// differs in one of the first bytes cannot.
pub proof fn law_is_database(content: Seq<u8>, rest: Seq<u8>, i: int)
    requires
        0 <= i < 16,
    ensures
        is_database(magic() + rest),
        content.len() < 16 ==> !is_database(content),
        content.len() >= 16 && content[i] != magic()[i] ==> !is_database(content),
{
    assert((magic() + rest).take(16) =~= magic());
    if content.len() >= 16 {
        assert(content.take(16)[i] == content[i]);
    }
}

/// The end of a log is what follows all but its last lines.
pub proof fn law_tail(before: Seq<Seq<char>>, last: Seq<Seq<char>>, n: int)
    requires
        n >= 0,
    ensures
        tail(before + last, last.len() as int) == last,
        before.len() <= n ==> tail(before, n) == before,
{
    assert((before + last).skip(before.len() as int) =~= last);
    if before.len() == 0 {
        assert(before + last =~= last);
    }
}

// ---------------------------------------------------------------------------------------------
// Notifications, the start of the program and the tray
// ---------------------------------------------------------------------------------------------

/// The script of a notification sets its place and how long it is shown, as asked for, or for five
/// seconds.
pub proof fn law_script(stack_index: nat, seconds: u32)
    ensures
        has_word(
            script(stack_index, seconds as nat),
            "$stackIndex = "@ + decimal(stack_index) + "\n"@,
        ),
        has_word(
            script(stack_index, seconds as nat),
            "$notifDuration = "@ + decimal(seconds as nat) + "\n"@,
        ),
        has_word(script(stack_index, seconds as nat), "$fromName = $env:NOTIF_FROM\n"@),
        has_word(script(stack_index, seconds as nat), "$subject  = $env:NOTIF_SUBJECT\n"@),
        seconds_shown(Some(seconds)) == seconds,
        seconds_shown(None) == 5,
{
    let a = "Add-Type -AssemblyName PresentationFramework\n"@ + "Add-Type -AssemblyName PresentationCore\n"@;
    let f = "$fromName = $env:NOTIF_FROM\n"@;
    let u = "$subject  = $env:NOTIF_SUBJECT\n"@;
    let i = "$stackIndex = "@ + decimal(stack_index) + "\n"@;
    let d = "$notifDuration = "@ + decimal(seconds as nat) + "\n"@;
    let b = MAIL_NOTIF_BODY@;
    let s = script(stack_index, seconds as nat);
    assert(s =~= a + f + (u + i + d + b));
    lemma_stands(a, f, u + i + d + b);
    assert(s =~= (a + f) + u + (i + d + b));
    lemma_stands(a + f, u, i + d + b);
    assert(s =~= (a + f + u) + i + (d + b));
    lemma_stands(a + f + u, i, d + b);
    assert(s =~= (a + f + u + i) + d + b);
    lemma_stands(a + f + u + i, d, b);
}

/// A text stands in what it is put between.
proof fn lemma_stands(a: Seq<char>, b: Seq<char>, c: Seq<char>)
    ensures
        has_word(a + b + c, b),
{
    let s = a + b + c;
    assert(s.subrange(a.len() as int, (a.len() + b.len()) as int) =~= b);
    assert(word_at(s, b, a.len() as int));
}

/// The script ends with 1 when the message was clicked, with 2 when the settings were, and otherwise
/// nothing was.
pub proof fn law_clicked(code: Option<i32>)
    ensures
        clicked(code) == Clicked::Message <==> code == Some(1i32),
        clicked(code) == Clicked::Settings <==> code == Some(2i32),
        clicked(code) == Clicked::Nothing <==> code != Some(1i32) && code != Some(2i32),
{
}

/// The program is started by its path in quotation marks, without its window.
pub proof fn law_run_command(exe: Seq<char>)
    ensures
        run_command(exe)[0] == '"',
        run_command(exe).subrange(1, 1int + exe.len()) == exe,
        run_command(exe)[1int + exe.len()] == '"',
        has_word(run_command(exe), "--minimized"@),
{
    reveal_strlit("\"");
    reveal_strlit("\" --minimized");
    reveal_strlit("--minimized");
    let c = run_command(exe);
    assert(c.subrange(1, 1int + exe.len()) =~= exe);
    assert(c.subrange(3int + exe.len(), 14int + exe.len()) =~= "--minimized"@);
    assert(word_at(c, "--minimized"@, 3int + exe.len()));
}

/// Each item of the tray does what it is named after, and nothing else does anything.
pub proof fn law_tray(id: Seq<char>)
    ensures
        tray_item(id) == TrayAction::Show <==> id == "open"@,
        tray_item(id) == TrayAction::ShowAndCheck <==> id == "check_mail"@,
        tray_item(id) == TrayAction::Quit <==> id == "quit"@,
{
    reveal_strlit("open");
    reveal_strlit("check_mail");
    reveal_strlit("quit");
    assert("open"@[0] != "quit"@[0]);
}

// ---------------------------------------------------------------------------------------------
// Contacts
// ---------------------------------------------------------------------------------------------

/// Contacts from two files are kept as those of the first, then those of the second.
pub proof fn law_insertions_join(a: Seq<ContactRow>, b: Seq<ContactRow>)
    ensures
        insertions(a + b) == insertions(a) + insertions(b),
    decreases b.len(),
{
    if b.len() == 0 {
        assert(a + b =~= a);
        assert(insertions(a) + insertions(b) =~= insertions(a));
    } else {
        assert((a + b).drop_last() =~= a + b.drop_last());
        law_insertions_join(a, b.drop_last());
        assert(insertions(a + b) =~= insertions(a) + insertions(b));
    }
}

/// A contact with a name or an address is kept and then found by its address; one without both is not.
pub proof fn law_one_insertion(r: ContactRow)
    ensures
        r.0@.len() > 0 || r.1@.len() > 0 ==> insertions(seq![r]) == seq![
            (keeping_card(card(r)), finding_contact(r.1@)),
        ],
        r.0@.len() == 0 && r.1@.len() == 0 ==> insertions(seq![r]).len() == 0,
        card(r).name == r.0@ && card(r).email == r.1@ && card(r).phone == r.2@ && card(r).company == r.3@
            && card(r).notes == r.4@,
{
    assert(seq![r].drop_last() =~= Seq::<ContactRow>::empty());
    assert(seq![r].last() == r);
    reveal_with_fuel(insertions, 2);
    let one = (keeping_card(card(r)), finding_contact(r.1@));
    assert(Seq::<(StatementView, StatementView)>::empty().push(one) =~= seq![one]);
}

/// A new contact joins the group that every contact belongs to, and the one that was chosen.
pub proof fn law_joining_groups(contact_id: int, every: i64, chosen: i64)
    ensures
        joining_groups(contact_id, Some(every), Some(chosen)) == seq![
            joining(contact_id, every as int),
            joining(contact_id, chosen as int),
        ],
        joining_groups(contact_id, Some(every), None) == seq![joining(contact_id, every as int)],
        joining_groups(contact_id, None, Some(chosen)) == seq![joining(contact_id, chosen as int)],
        joining_groups(contact_id, None, None).len() == 0,
{
    assert(joining_groups(contact_id, Some(every), Some(chosen)) =~= seq![
        joining(contact_id, every as int),
        joining(contact_id, chosen as int),
    ]);
    assert(joining_groups(contact_id, Some(every), None) =~= seq![joining(contact_id, every as int)]);
    assert(joining_groups(contact_id, None, Some(chosen)) =~= seq![joining(contact_id, chosen as int)]);
}

/// Each contact that is put into a group joins it.
pub proof fn law_filling_group(contacts: Seq<i64>, group_id: int, i: int)
    requires
        0 <= i < contacts.len(),
    ensures
        filling_group(contacts, group_id).len() == contacts.len(),
        filling_group(contacts, group_id)[i] == joining(contacts[i] as int, group_id),
{
}

/// The contact that is made of a sender `Name <address>` has this name and this address and nothing else.
pub proof fn law_sender_card(name: Seq<char>, address: Seq<char>)
    requires
        name.len() > 0,
        ends_clean(name),
        !name.contains('<'),
        name[0] != '"' && name.last() != '"',
        ends_clean(address),
        !address.contains('>'),
    ensures
        ({
            let c = sender_card(name + seq![' ', '<'] + address + seq!['>']);
            &&& c.name == name
            &&& c.email == address
            &&& c.phone.len() == 0
            &&& c.company.len() == 0
            &&& c.notes.len() == 0
        }),
{
    law_contact_line(name, address);
}

/// The name of a contact in a table with columns for first and family names is put together of both, and
/// each other cell is what stands in its column.
pub proof fn law_name_of_two(row: Seq<Seq<char>>, c: Columns, i: usize, j: usize)
    requires
        c.name is None,
        c.first == Some(i),
        c.last == Some(j),
        i < row.len(),
        j < row.len(),
        row[i as int].len() > 0 && ends_clean(row[i as int]),
        row[j as int].len() > 0 && ends_clean(row[j as int]),
    ensures
        contact_in(row, c).name == row[i as int] + seq![' '] + row[j as int],
{
    reveal_strlit(" ");
    let n = row[i as int] + seq![' '] + row[j as int];
    assert(row[i as int] + " "@ + row[j as int] =~= n);
    assert(n[0] == row[i as int][0]);
    assert(n.last() == row[j as int].last());
    lemma_trim_fixed(n);
}

/// A contact has in each place what stands in the column for it, and nothing where there is no such column.
pub proof fn law_cells_of_contact(row: Seq<Seq<char>>, c: Columns)
    ensures
        ({
            let k = contact_in(row, c);
            &&& c.name matches Some(i) ==> (i < row.len() ==> k.name == row[i as int])
            &&& c.email matches Some(i) ==> (i < row.len() ==> k.email == row[i as int])
            &&& c.phone matches Some(i) ==> (i < row.len() ==> k.phone == row[i as int])
            &&& c.company matches Some(i) ==> (i < row.len() ==> k.company == row[i as int])
            &&& c.notes matches Some(i) ==> (i < row.len() ==> k.notes == row[i as int])
            &&& c.email is None ==> k.email.len() == 0
            &&& c.phone is None ==> k.phone.len() == 0
            &&& c.company is None ==> k.company.len() == 0
            &&& c.notes is None ==> k.notes.len() == 0
        }),
{
}

/// An attachment that is handed over is copied when its folder has been made, then its own copy is removed,
/// then it is noted and shown; one that is copied again keeps its own copy. Where it cannot be
/// copied, nothing is removed or noted.
pub proof fn law_opening(ok: bool)
    ensures
        open_stage_after(true, OpenStage::MakeFolder, true) == OpenStage::Copy,
        open_stage_after(true, OpenStage::MakeFolder, false) == OpenStage::Failed,
        open_stage_after(false, OpenStage::MakeFolder, ok) == OpenStage::Copy,
        open_stage_after(true, OpenStage::Copy, true) == OpenStage::Remove,
        open_stage_after(false, OpenStage::Copy, true) == OpenStage::Note,
        open_stage_after(ok, OpenStage::Copy, false) == OpenStage::Failed,
        open_stage_after(true, OpenStage::Remove, ok) == OpenStage::Note,
        open_stage_after(true, OpenStage::Note, ok) == OpenStage::Show,
        open_stage_after(false, OpenStage::Note, ok) == OpenStage::Show,
{
}

/// As many messages were changed as there are statements that have changed a row.
pub proof fn law_count_changed(a: Seq<usize>, b: Seq<usize>, n: usize)
    ensures
        count_changed(a + b) == count_changed(a) + count_changed(b),
        n > 0 ==> count_changed(seq![n]) == 1,
        n == 0 ==> count_changed(seq![n]) == 0,
    decreases b.len(),
{
    assert(seq![n].drop_last() =~= Seq::<usize>::empty());
    assert(seq![n].last() == n);
    reveal_with_fuel(count_changed, 2);
    if b.len() == 0 {
        assert(a + b =~= a);
    } else {
        assert((a + b).drop_last() =~= a + b.drop_last());
        law_count_changed(a, b.drop_last(), n);
    }
}

/// Marking several messages marks each of them.
pub proof fn law_marking_all(ids: Seq<i64>, is_read: bool, i: int)
    requires
        0 <= i < ids.len(),
    ensures
        marking_all(ids, is_read).len() == ids.len(),
        marking_all(ids, is_read)[i] == marking_read(ids[i] as int, is_read),
{
}

// ---------------------------------------------------------------------------------------------
// The tables
// ---------------------------------------------------------------------------------------------

/// The tables keep apart what the statements of the library tell apart: messages by account, number and
/// folder, accounts, contacts and blocked senders by their addresses, the latter whatever the case of
/// letters, groups by their names, members by contact and group, what is known of folders by account and
/// folder, and the user's folders by account and name.
#[verifier::spinoff_prover]
#[verifier::rlimit(100)]
pub proof fn law_keys()
    ensures
        has_word(SCHEMA@, "UNIQUE(account_id, uid, folder)"@),
        has_word(SCHEMA@, "email            TEXT NOT NULL UNIQUE,"@),
        has_word(SCHEMA@, "is_blacklisted INTEGER NOT NULL DEFAULT 0,\n            UNIQUE(email)"@),
        has_word(SCHEMA@, "name TEXT NOT NULL UNIQUE"@),
        has_word(SCHEMA@, "PRIMARY KEY (contact_id, group_id)"@),
        has_word(SCHEMA@, "email TEXT NOT NULL UNIQUE COLLATE NOCASE"@),
        has_word(SCHEMA@, "PRIMARY KEY (account_id, folder)"@),
        has_word(SCHEMA@, "UNIQUE(account_id, name)"@),
{
    reveal_strlit("

        CREATE TABLE IF NOT EXISTS accounts (
            id               INTEGER PRIMARY KEY AUTOINCREMENT,
            email            TEXT NOT NULL UNIQUE,
            name             TEXT NOT NULL DEFAULT '',
            imap_host        TEXT NOT NULL,
            imap_port        INTEGER NOT NULL DEFAULT 993,
            smtp_host        TEXT NOT NULL,
            smtp_port        INTEGER NOT NULL DEFAULT 465,
            delete_after_days INTEGER,
            delete_permanent  INTEGER NOT NULL DEFAULT 0,
            signature         TEXT NOT NULL DEFAULT ''
        );

        CREATE TABLE IF NOT EXISTS emails (
            id                INTEGER PRIMARY KEY AUTOINCREMENT,
            account_id        INTEGER NOT NULL,
            uid               INTEGER NOT NULL,
            folder            TEXT    NOT NULL DEFAULT 'INBOX',
            from_addr         TEXT    NOT NULL DEFAULT '',
            to_addr           TEXT    NOT NULL DEFAULT '',
            cc_addr           TEXT    NOT NULL DEFAULT '',
            subject           TEXT    NOT NULL DEFAULT '',
            date              TEXT    NOT NULL DEFAULT '',
            body_text         TEXT    NOT NULL DEFAULT '',
            body_html         TEXT    NOT NULL DEFAULT '',
            is_read           INTEGER NOT NULL DEFAULT 0,
            is_starred        INTEGER NOT NULL DEFAULT 0,
            has_attachment    INTEGER NOT NULL DEFAULT 0,
            message_id        TEXT    NOT NULL DEFAULT '',
            snippet           TEXT    NOT NULL DEFAULT '',
            date_ts           INTEGER NOT NULL DEFAULT 0,
            read_receipt_to   TEXT,
            read_receipt_sent INTEGER NOT NULL DEFAULT 0,
            UNIQUE(account_id, uid, folder)
        );

        CREATE TABLE IF NOT EXISTS attachments (
            id         INTEGER PRIMARY KEY AUTOINCREMENT,
            email_id   INTEGER NOT NULL,
            filename   TEXT    NOT NULL DEFAULT '',
            mime_type  TEXT    NOT NULL DEFAULT '',
            file_path  TEXT    NOT NULL DEFAULT '',
            file_size  INTEGER NOT NULL DEFAULT 0,
            saved_path TEXT
        );

        CREATE TABLE IF NOT EXISTS contacts (
            id             INTEGER PRIMARY KEY AUTOINCREMENT,
            name           TEXT    NOT NULL DEFAULT '',
            email          TEXT    NOT NULL DEFAULT '',
            phone          TEXT    NOT NULL DEFAULT '',
            company        TEXT    NOT NULL DEFAULT '',
            notes          TEXT    NOT NULL DEFAULT '',
            is_blacklisted INTEGER NOT NULL DEFAULT 0,
            UNIQUE(email)
        );

        CREATE TABLE IF NOT EXISTS contact_groups (
            id   INTEGER PRIMARY KEY AUTOINCREMENT,
            name TEXT NOT NULL UNIQUE
        );

        CREATE TABLE IF NOT EXISTS contact_group_members (
            contact_id INTEGER NOT NULL,
            group_id   INTEGER NOT NULL,
            PRIMARY KEY (contact_id, group_id)
        );

        CREATE TABLE IF NOT EXISTS blocked_senders (
            id    INTEGER PRIMARY KEY AUTOINCREMENT,
            email TEXT NOT NULL UNIQUE COLLATE NOCASE
        );

        CREATE TABLE IF NOT EXISTS folder_state (
            account_id INTEGER NOT NULL,
            folder     TEXT    NOT NULL,
            last_uid   INTEGER NOT NULL DEFAULT 0,
            PRIMARY KEY (account_id, folder)
        );

        CREATE TABLE IF NOT EXISTS user_folders (
            id         INTEGER PRIMARY KEY AUTOINCREMENT,
            account_id INTEGER NOT NULL,
            name       TEXT    NOT NULL,
            UNIQUE(account_id, name)
        );

        CREATE INDEX IF NOT EXISTS idx_emails_list
        ON emails(account_id, folder, date_ts DESC);
    ");
    reveal_strlit("UNIQUE(account_id, uid, folder)");
    reveal_strlit("email            TEXT NOT NULL UNIQUE,");
    reveal_strlit("is_blacklisted INTEGER NOT NULL DEFAULT 0,\n            UNIQUE(email)");
    reveal_strlit("name TEXT NOT NULL UNIQUE");
    reveal_strlit("PRIMARY KEY (contact_id, group_id)");
    reveal_strlit("email TEXT NOT NULL UNIQUE COLLATE NOCASE");
    reveal_strlit("PRIMARY KEY (account_id, folder)");
    reveal_strlit("UNIQUE(account_id, name)");
    assert(SCHEMA@.subrange(1726, 1757) =~= "UNIQUE(account_id, uid, folder)"@);
    assert(word_at(SCHEMA@, "UNIQUE(account_id, uid, folder)"@, 1726));
    assert(SCHEMA@.subrange(124, 162) =~= "email            TEXT NOT NULL UNIQUE,"@);
    assert(word_at(SCHEMA@, "email            TEXT NOT NULL UNIQUE,"@, 124));
    assert(SCHEMA@.subrange(2565, 2633) =~= "is_blacklisted INTEGER NOT NULL DEFAULT 0,\n            UNIQUE(email)"@);
    assert(word_at(SCHEMA@, "is_blacklisted INTEGER NOT NULL DEFAULT 0,\n            UNIQUE(email)"@, 2565));
    assert(SCHEMA@.subrange(2762, 2787) =~= "name TEXT NOT NULL UNIQUE"@);
    assert(word_at(SCHEMA@, "name TEXT NOT NULL UNIQUE"@, 2762));
    assert(SCHEMA@.subrange(2953, 2987) =~= "PRIMARY KEY (contact_id, group_id)"@);
    assert(word_at(SCHEMA@, "PRIMARY KEY (contact_id, group_id)"@, 2953));
    assert(SCHEMA@.subrange(3118, 3159) =~= "email TEXT NOT NULL UNIQUE COLLATE NOCASE"@);
    assert(word_at(SCHEMA@, "email TEXT NOT NULL UNIQUE COLLATE NOCASE"@, 3118));
    assert(SCHEMA@.subrange(3367, 3399) =~= "PRIMARY KEY (account_id, folder)"@);
    assert(word_at(SCHEMA@, "PRIMARY KEY (account_id, folder)"@, 3367));
    assert(SCHEMA@.subrange(3614, 3638) =~= "UNIQUE(account_id, name)"@);
    assert(word_at(SCHEMA@, "UNIQUE(account_id, name)"@, 3614));
}

/// A message goes to the spam folder: it is one of the account, it is not there yet, and its sender holds
/// the address of a blacklisted contact, whatever the case of letters; a contact without an address does
/// not count.
pub open spec fn is_swept(account_id: ValueView, contacts: Set<Row>, row: Row) -> bool {
    &&& row["account_id"@] == account_id
    &&& row["folder"@] != ValueView::Text("Spam"@)
    &&& exists|c: Row| #[trigger]
        contacts.contains(c) && c["is_blacklisted"@] == ValueView::Int(1) && stands_within(
            row["from_addr"@],
            c["email"@],
        ) && c["email"@] != ValueView::Text(Seq::empty())
}

/// The parts that a statement has to say, one after the other with nothing but white space between them, so
/// that it moves exactly the messages with `is_swept` of the account in its first place.
pub open spec fn sweep_parts() -> Seq<Seq<char>> {
    seq![
        "UPDATE emails SET folder='Spam'"@,
        "WHERE account_id=?1 AND folder!='Spam'"@,
        "AND EXISTS ("@,
        "SELECT 1 FROM contacts"@,
        "WHERE is_blacklisted=1"@,
        "AND INSTR(LOWER(emails.from_addr), LOWER(contacts.email)) > 0"@,
        "AND LENGTH(contacts.email) > 0"@,
        ")"@,
    ]
}

/// A text says some parts one after the other with nothing but white space between them.
pub open spec fn says(text: Seq<char>, parts: Seq<Seq<char>>, gaps: Seq<Seq<char>>) -> bool
    decreases parts.len(),
{
    if parts.len() == 0 {
        text.len() == 0
    } else {
        &&& gaps.len() == parts.len()
        &&& is_gap(gaps.last())
        &&& text.len() >= parts.last().len() + gaps.last().len()
        &&& text.skip(text.len() - parts.last().len()) == parts.last()
        &&& text.subrange(
            text.len() - parts.last().len() - gaps.last().len(),
            text.len() - parts.last().len(),
        ) == gaps.last()
        &&& says(
            text.take(text.len() - parts.last().len() - gaps.last().len()),
            parts.drop_last(),
            gaps.drop_last(),
        )
    }
}

/// A text that says some parts says one more when it is put behind white space.
proof fn lemma_says(
    text: Seq<char>,
    parts: Seq<Seq<char>>,
    gaps: Seq<Seq<char>>,
    gap: Seq<char>,
    part: Seq<char>,
)
    requires
        says(text, parts, gaps),
        gaps.len() == parts.len(),
        is_gap(gap),
    ensures
        says(text + gap + part, parts.push(part), gaps.push(gap)),
{
    let t = text + gap + part;
    assert(parts.push(part).drop_last() =~= parts);
    assert(gaps.push(gap).drop_last() =~= gaps);
    assert(t.skip(t.len() - part.len()) =~= part);
    assert(t.subrange(t.len() - part.len() - gap.len(), t.len() - part.len()) =~= gap);
    assert(t.take(t.len() - part.len() - gap.len()) =~= text);
}

/// A statement moves exactly the messages that are picked out by what the contacts are.
pub open spec fn sweeps(s: StatementView, picks: spec_fn(Set<Row>, Row) -> bool) -> bool {
    (exists|gaps: Seq<Seq<char>>| #[trigger] says(s.sql, sweep_parts(), gaps)) && forall|
        contacts: Set<Row>,
        row: Row,
    | #[trigger]
        is_swept(value_of("?1"@, s.params), contacts, row) <==> picks(contacts, row)
}

/// The messages of an account go to the spam folder that are not there yet and whose sender holds the
/// address of a blacklisted contact.
pub proof fn law_sweep(account_id: int)
    ensures
        sweeps(
            filtering(account_id),
            |contacts: Set<Row>, row: Row| row["account_id"@] == ValueView::Int(account_id)
                && row["folder"@] != ValueView::Text("Spam"@) && exists|c: Row| #[trigger]
                contacts.contains(c) && c["is_blacklisted"@] == ValueView::Int(1) && stands_within(
                    row["from_addr"@],
                    c["email"@],
                ) && c["email"@] != ValueView::Text(Seq::empty()),
        ),
{
    reveal_strlit("UPDATE emails SET folder='Spam'
         WHERE account_id=?1 AND folder!='Spam'
           AND EXISTS (
               SELECT 1 FROM contacts
               WHERE is_blacklisted=1
                 AND INSTR(LOWER(emails.from_addr), LOWER(contacts.email)) > 0
                 AND LENGTH(contacts.email) > 0
           )");
    reveal_strlit("UPDATE emails SET folder='Spam'");
    reveal_strlit("WHERE account_id=?1 AND folder!='Spam'");
    reveal_strlit("AND EXISTS (");
    reveal_strlit("SELECT 1 FROM contacts");
    reveal_strlit("WHERE is_blacklisted=1");
    reveal_strlit("AND INSTR(LOWER(emails.from_addr), LOWER(contacts.email)) > 0");
    reveal_strlit("AND LENGTH(contacts.email) > 0");
    reveal_strlit(")");
    reveal_strlit("");
    reveal_strlit("\n         ");
    reveal_strlit("\n           ");
    reveal_strlit("\n               ");
    reveal_strlit("\n                 ");
    let none = Seq::<Seq<char>>::empty();
    let t0 = Seq::<char>::empty();
    let x1 = "UPDATE emails SET folder='Spam'"@;
    lemma_says(t0, none, none, ""@, x1);
    let (t1, p1, g1) = (t0 + ""@ + x1, none.push(x1), none.push(""@));
    let x2 = "WHERE account_id=?1 AND folder!='Spam'"@;
    lemma_says(t1, p1, g1, "\n         "@, x2);
    let (t2, p2, g2) = (t1 + "\n         "@ + x2, p1.push(x2), g1.push("\n         "@));
    let x3 = "AND EXISTS ("@;
    lemma_says(t2, p2, g2, "\n           "@, x3);
    let (t3, p3, g3) = (t2 + "\n           "@ + x3, p2.push(x3), g2.push("\n           "@));
    let x4 = "SELECT 1 FROM contacts"@;
    lemma_says(t3, p3, g3, "\n               "@, x4);
    let (t4, p4, g4) = (t3 + "\n               "@ + x4, p3.push(x4), g3.push("\n               "@));
    let x5 = "WHERE is_blacklisted=1"@;
    lemma_says(t4, p4, g4, "\n               "@, x5);
    let (t5, p5, g5) = (t4 + "\n               "@ + x5, p4.push(x5), g4.push("\n               "@));
    let x6 = "AND INSTR(LOWER(emails.from_addr), LOWER(contacts.email)) > 0"@;
    lemma_says(t5, p5, g5, "\n                 "@, x6);
    let (t6, p6, g6) = (t5 + "\n                 "@ + x6, p5.push(x6), g5.push("\n                 "@));
    let x7 = "AND LENGTH(contacts.email) > 0"@;
    lemma_says(t6, p6, g6, "\n                 "@, x7);
    let (t7, p7, g7) = (t6 + "\n                 "@ + x7, p6.push(x7), g6.push("\n                 "@));
    let x8 = ")"@;
    lemma_says(t7, p7, g7, "\n           "@, x8);
    let (t8, p8, g8) = (t7 + "\n           "@ + x8, p7.push(x8), g7.push("\n           "@));
    assert(filtering(account_id).sql =~= t8);
    assert(sweep_parts() =~= p8);
    assert(says(filtering(account_id).sql, sweep_parts(), g8));
    lemma_terms(filtering(account_id).params);
}

/// The program that lists archives is taken from the first place where it is.
pub proof fn law_unrar(present: Seq<bool>)
    requires
        present.len() == 2,
    ensures
        present[0] ==> first_place(present) == Some("C:\\Program Files\\WinRAR\\UnRAR.exe"@),
        !present[0] && present[1] ==> first_place(present) == Some(
            "C:\\Program Files (x86)\\WinRAR\\UnRAR.exe"@,
        ),
        !present[0] && !present[1] ==> first_place(present) is None,
{
}

/// A contact belongs to a group.
pub open spec fn is_member(group: ValueView, memberships: Set<Row>, contact: Row) -> bool {
    exists|m: Row| #[trigger]
        memberships.contains(m) && m["contact_id"@] == contact["id"@] && m["group_id"@] == group
}

/// The parts that a statement has to say, one after the other with nothing but white space between them, so
/// that it reads exactly the contacts with `is_member` of the group in its first place, by name and address.
pub open spec fn member_parts() -> Seq<Seq<char>> {
    seq![
        "SELECT c.id, c.name, c.email, c.phone, c.company, c.notes, c.is_blacklisted"@,
        "FROM contacts c"@,
        "JOIN contact_group_members m ON c.id = m.contact_id"@,
        "WHERE m.group_id = ?1"@,
        "ORDER BY c.name, c.email"@,
    ]
}

/// A statement reads exactly the contacts that are picked out by who belongs to which group.
pub open spec fn reads_members(s: StatementView, picks: spec_fn(Set<Row>, Row) -> bool) -> bool {
    (exists|gaps: Seq<Seq<char>>| #[trigger] says(s.sql, member_parts(), gaps)) && forall|
        memberships: Set<Row>,
        contact: Row,
    | #[trigger]
        is_member(value_of("?1"@, s.params), memberships, contact) <==> picks(memberships, contact)
}

/// The contacts of a group are read that belong to it, and no others.
pub proof fn law_members(group_id: int)
    ensures
        reads_members(
            reading_members(group_id),
            |memberships: Set<Row>, contact: Row| exists|m: Row| #[trigger]
                memberships.contains(m) && m["contact_id"@] == contact["id"@] && m["group_id"@]
                    == ValueView::Int(group_id),
        ),
{
    reveal_strlit("SELECT c.id, c.name, c.email, c.phone, c.company, c.notes, c.is_blacklisted
         FROM contacts c
         JOIN contact_group_members m ON c.id = m.contact_id
         WHERE m.group_id = ?1
         ORDER BY c.name, c.email");
    reveal_strlit("SELECT c.id, c.name, c.email, c.phone, c.company, c.notes, c.is_blacklisted");
    reveal_strlit("FROM contacts c");
    reveal_strlit("JOIN contact_group_members m ON c.id = m.contact_id");
    reveal_strlit("WHERE m.group_id = ?1");
    reveal_strlit("ORDER BY c.name, c.email");
    reveal_strlit("");
    reveal_strlit("\n         ");
    let none = Seq::<Seq<char>>::empty();
    let t0 = Seq::<char>::empty();
    let x1 = "SELECT c.id, c.name, c.email, c.phone, c.company, c.notes, c.is_blacklisted"@;
    lemma_says(t0, none, none, ""@, x1);
    let (t1, p1, g1) = (t0 + ""@ + x1, none.push(x1), none.push(""@));
    let x2 = "FROM contacts c"@;
    lemma_says(t1, p1, g1, "\n         "@, x2);
    let (t2, p2, g2) = (t1 + "\n         "@ + x2, p1.push(x2), g1.push("\n         "@));
    let x3 = "JOIN contact_group_members m ON c.id = m.contact_id"@;
    lemma_says(t2, p2, g2, "\n         "@, x3);
    let (t3, p3, g3) = (t2 + "\n         "@ + x3, p2.push(x3), g2.push("\n         "@));
    let x4 = "WHERE m.group_id = ?1"@;
    lemma_says(t3, p3, g3, "\n         "@, x4);
    let (t4, p4, g4) = (t3 + "\n         "@ + x4, p3.push(x4), g3.push("\n         "@));
    let x5 = "ORDER BY c.name, c.email"@;
    lemma_says(t4, p4, g4, "\n         "@, x5);
    let (t5, p5, g5) = (t4 + "\n         "@ + x5, p4.push(x5), g4.push("\n         "@));
    assert(reading_members(group_id).sql =~= t5);
    assert(member_parts() =~= p5);
    assert(says(reading_members(group_id).sql, member_parts(), g5));
    lemma_terms(reading_members(group_id).params);
}

} // verus!
