//! Messages in the database: listing, searching and changing them.
use vstd::prelude::*;

use crate::address_book::toggled;
use crate::listing::{finds, law_search};
use crate::statements::{sql, statement_views, Statement, StatementView, ValueView};
use crate::sync::NotifItem;
use crate::text::{join3, lowercase, same_str, to_chars, to_lowercase, trim, trim_str};

verus! {

// ---------------------------------------------------------------------------------------------
// Rows
// ---------------------------------------------------------------------------------------------

/// A message in a list.
pub struct EmailItem {
    pub id: i64,
    pub uid: u32,
    pub folder: String,
    pub from_addr: String,
    pub to_addr: String,
    pub subject: String,
    pub date: String,
    pub date_ts: i64,
    pub is_read: bool,
    pub is_starred: bool,
    pub has_attachment: bool,
    pub snippet: String,
}

/// A message in a list, as the database holds it.
pub struct EmailRow {
    pub id: i64,
    pub uid: i64,
    pub folder: String,
    pub from_addr: String,
    pub to_addr: String,
    pub subject: String,
    pub date: String,
    pub date_ts: i64,
    pub is_read: i32,
    pub is_starred: i32,
    pub has_attachment: i32,
    pub snippet: String,
}

/// The message that the database holds: of a number that is too large the lower bits count, and any
/// flag but 0 is set.
pub fn read_item(row: EmailRow) -> (r: EmailItem)
    ensures
        r.id == row.id,
        r.uid == row.uid as u32,
        r.folder@ == row.folder@,
        r.from_addr@ == row.from_addr@,
        r.to_addr@ == row.to_addr@,
        r.subject@ == row.subject@,
        r.date@ == row.date@,
        r.date_ts == row.date_ts,
        r.is_read == (row.is_read != 0),
        r.is_starred == (row.is_starred != 0),
        r.has_attachment == (row.has_attachment != 0),
        r.snippet@ == row.snippet@,
{
    EmailItem {
        id: row.id,
        uid: #[verifier::truncate]
        (row.uid as u32),
        folder: row.folder,
        from_addr: row.from_addr,
        to_addr: row.to_addr,
        subject: row.subject,
        date: row.date,
        date_ts: row.date_ts,
        is_read: row.is_read != 0,
        is_starred: row.is_starred != 0,
        has_attachment: row.has_attachment != 0,
        snippet: row.snippet,
    }
}

/// What the user is told of a message.
pub fn notification(item: &EmailItem) -> (r: NotifItem)
    ensures
        r.id == item.id,
        r.from_addr@ == item.from_addr@,
        r.subject@ == item.subject@,
        r.has_attachment == item.has_attachment,
{
    NotifItem {
        id: item.id,
        from_addr: item.from_addr.clone(),
        subject: item.subject.clone(),
        has_attachment: item.has_attachment,
    }
}

/// The statement that reads one message as it stands in a list.
pub open spec fn reading_item(email_id: int) -> StatementView {
    sql(
        "SELECT id, uid, folder, from_addr, to_addr, subject, date, date_ts,
                                is_read, is_starred, has_attachment, snippet
                         FROM emails WHERE id=?1"@,
    ).number(email_id)
}

/// Reads one message as it stands in a list.
pub fn item_query(email_id: i64) -> (r: Statement)
    ensures
        r@ == reading_item(email_id as int),
{
    Statement::new(
        "SELECT id, uid, folder, from_addr, to_addr, subject, date, date_ts,
                                is_read, is_starred, has_attachment, snippet
                         FROM emails WHERE id=?1",
    ).number(email_id)
}

// ---------------------------------------------------------------------------------------------
// Listing
// ---------------------------------------------------------------------------------------------

/// The condition of a filter.
pub open spec fn filter_clause(filter: Option<Seq<char>>) -> Seq<char> {
    match filter {
        Some(f) => if f == "unread"@ {
            " AND is_read = 0"@
        } else if f == "attachments"@ {
            " AND has_attachment = 1"@
        } else {
            ""@
        },
        None => ""@,
    }
}

/// The order of a list.
pub open spec fn order_clause(sort: Option<Seq<char>>) -> Seq<char> {
    match sort {
        Some(s) => if s == "date_asc"@ {
            "date_ts ASC, id ASC"@
        } else if s == "from_asc"@ {
            "u_lower(from_addr) ASC, date_ts DESC"@
        } else if s == "from_desc"@ {
            "u_lower(from_addr) DESC, date_ts DESC"@
        } else if s == "subject_asc"@ {
            "u_lower(subject) ASC, date_ts DESC"@
        } else if s == "subject_desc"@ {
            "u_lower(subject) DESC, date_ts DESC"@
        } else {
            "date_ts DESC, id DESC"@
        },
        None => "date_ts DESC, id DESC"@,
    }
}

/// The text of the statement that lists a folder.
pub open spec fn list_text(filter: Option<Seq<char>>, sort: Option<Seq<char>>) -> Seq<char> {
    "SELECT id, uid, folder, from_addr, to_addr, subject, date, date_ts,
                is_read, is_starred, has_attachment, snippet
         FROM emails
         WHERE account_id=?1 AND folder=?2"@ + filter_clause(filter) + "
         ORDER BY "@ + order_clause(sort) + "
         LIMIT ?3 OFFSET ?4"@
}

/// How many messages a list has: as many as are asked for, but at most `most`.
pub open spec fn limit_of(limit: Option<i64>, default: int, most: int) -> int {
    match limit {
        Some(n) => if n as int > most {
            most
        } else {
            n as int
        },
        None => default,
    }
}

/// How many messages a list passes over.
pub open spec fn offset_of(offset: Option<i64>) -> int {
    match offset {
        Some(n) => if n < 0 {
            0
        } else {
            n as int
        },
        None => 0,
    }
}

/// What an optional text holds.
pub open spec fn maybe_str(s: Option<&str>) -> Option<Seq<char>> {
    match s {
        Some(t) => Some(t@),
        None => None,
    }
}

fn limit_from(limit: Option<i64>, default: i64, most: i64) -> (r: i64)
    requires
        default <= most,
    ensures
        r == limit_of(limit, default as int, most as int),
{
    match limit {
        Some(n) => if n > most {
            most
        } else {
            n
        },
        None => default,
    }
}

/// The statement that lists a folder.
pub open spec fn listing(
    account_id: int,
    folder: Seq<char>,
    limit: int,
    offset: int,
    filter: Option<Seq<char>>,
    sort: Option<Seq<char>>,
) -> StatementView {
    sql(list_text(filter, sort)).number(account_id).text(folder).number(limit).number(offset)
}

/// Lists a folder.
pub fn get_emails(
    account_id: i64,
    folder: &str,
    limit: Option<i64>,
    offset: Option<i64>,
    filter: Option<&str>,
    sort: Option<&str>,
) -> (r: Statement)
    ensures
        r@ == listing(
            account_id as int,
            folder@,
            limit_of(limit, 50, 500),
            offset_of(offset),
            maybe_str(filter),
            maybe_str(sort),
        ),
        limit is None ==> r@.params[2] == ValueView::Int(50),
        limit matches Some(n) ==> r@.params[2] == ValueView::Int(if n <= 500 { n as int } else { 500 }),
        offset is None ==> r@.params[3] == ValueView::Int(0),
        offset matches Some(n) ==> r@.params[3] == ValueView::Int(if n >= 0 { n as int } else { 0 }),
{
    let offset: i64 = match offset {
        Some(n) => if n < 0 {
            0
        } else {
            n
        },
        None => 0,
    };
    let condition = match filter {
        Some(f) => if same_str(f, "unread") {
            " AND is_read = 0"
        } else if same_str(f, "attachments") {
            " AND has_attachment = 1"
        } else {
            ""
        },
        None => "",
    };
    let order = match sort {
        Some(s) => if same_str(s, "date_asc") {
            "date_ts ASC, id ASC"
        } else if same_str(s, "from_asc") {
            "u_lower(from_addr) ASC, date_ts DESC"
        } else if same_str(s, "from_desc") {
            "u_lower(from_addr) DESC, date_ts DESC"
        } else if same_str(s, "subject_asc") {
            "u_lower(subject) ASC, date_ts DESC"
        } else if same_str(s, "subject_desc") {
            "u_lower(subject) DESC, date_ts DESC"
        } else {
            "date_ts DESC, id DESC"
        },
        None => "date_ts DESC, id DESC",
    };
    let mut text = join3(
        "SELECT id, uid, folder, from_addr, to_addr, subject, date, date_ts,
                is_read, is_starred, has_attachment, snippet
         FROM emails
         WHERE account_id=?1 AND folder=?2",
        condition,
        "
         ORDER BY ",
    );
    text.append(order);
    text.append(
        "
         LIMIT ?3 OFFSET ?4",
    );
    Statement::new(text.as_str()).number(account_id).text(folder).number(
        limit_from(limit, 50, 500),
    ).number(offset)
}

/// The limit of a list is at most 500, and what the user asks for does not get into the text of the
/// statement: filters and orders only choose among a few.
pub proof fn law_list_is_bounded(
    limit: Option<i64>,
    filter: Option<Seq<char>>,
    sort: Option<Seq<char>>,
)
    ensures
        limit_of(limit, 50, 500) <= 500,
        filter_clause(filter) == " AND is_read = 0"@ || filter_clause(filter)
            == " AND has_attachment = 1"@ || filter_clause(filter) == ""@,
        order_clause(sort) == "date_ts ASC, id ASC"@ || order_clause(sort)
            == "u_lower(from_addr) ASC, date_ts DESC"@ || order_clause(sort)
            == "u_lower(from_addr) DESC, date_ts DESC"@ || order_clause(sort)
            == "u_lower(subject) ASC, date_ts DESC"@ || order_clause(sort)
            == "u_lower(subject) DESC, date_ts DESC"@ || order_clause(sort)
            == "date_ts DESC, id DESC"@,
{
}

// ---------------------------------------------------------------------------------------------
// Searching
// ---------------------------------------------------------------------------------------------

/// The statement that searches the messages of an account for a pattern.
pub open spec fn searching(account_id: int, pattern: Seq<char>, limit: int) -> StatementView {
    sql(
        "SELECT id, uid, folder, from_addr, to_addr, subject, date, date_ts,
                is_read, is_starred, has_attachment, snippet
         FROM emails
         WHERE account_id=?1 AND (
             u_lower(from_addr) LIKE ?2 OR
             u_lower(to_addr)   LIKE ?2 OR
             u_lower(subject)   LIKE ?2 OR
             u_lower(snippet)   LIKE ?2 OR
             u_lower(body_text) LIKE ?2
         )
         ORDER BY date_ts DESC, id DESC
         LIMIT ?3"@,
    ).number(account_id).text(pattern).number(limit)
}

/// The pattern for a text, which is in lowercase.
pub open spec fn pattern_of(lower: Seq<char>) -> Seq<char> {
    "%"@ + lower + "%"@
}

/// Searches for a text that is in lowercase.
pub fn search_for(account_id: i64, lower: &str, limit: Option<i64>) -> (r: Statement)
    ensures
        r@ == searching(account_id as int, pattern_of(lower@), limit_of(limit, 200, 500)),
        !lower@.contains('%') && !lower@.contains('_') ==> finds(
            r@,
            account_id as int,
            lower@,
            match limit {
                Some(n) => if n <= 500 {
                    n as int
                } else {
                    500
                },
                None => 200,
            },
        ),
{
    proof {
        if !lower@.contains('%') && !lower@.contains('_') {
            law_search(account_id as int, lower@, limit_of(limit, 200, 500));
        }
    }
    let pattern = join3("%", lower, "%");
    Statement::new(
        "SELECT id, uid, folder, from_addr, to_addr, subject, date, date_ts,
                is_read, is_starred, has_attachment, snippet
         FROM emails
         WHERE account_id=?1 AND (
             u_lower(from_addr) LIKE ?2 OR
             u_lower(to_addr)   LIKE ?2 OR
             u_lower(subject)   LIKE ?2 OR
             u_lower(snippet)   LIKE ?2 OR
             u_lower(body_text) LIKE ?2
         )
         ORDER BY date_ts DESC, id DESC
         LIMIT ?3",
    ).number(account_id).text(pattern.as_str()).number(limit_from(limit, 200, 500))
}

/// Searches the messages of an account for a text, whatever its case; `None` if the text is blank,
/// and nothing is found.
pub fn search_emails(account_id: i64, query: &str, limit: Option<i64>) -> (r: Option<Statement>)
    ensures
        match r {
            Some(s) => trim(query@).len() > 0 && s@ == searching(
                account_id as int,
                pattern_of(lowercase(trim(query@))),
                limit_of(limit, 200, 500),
            ),
            None => trim(query@).len() == 0,
        },
        r matches Some(s) ==> {
            let q = lowercase(trim(query@));
            !q.contains('%') && !q.contains('_') ==> finds(
                s@,
                account_id as int,
                q,
                match limit {
                    Some(n) => if n <= 500 {
                        n as int
                    } else {
                        500
                    },
                    None => 200,
                },
            )
        },
{
    let q = trim_str(query);
    if to_chars(q.as_str()).len() == 0 {
        return None;
    }
    Some(search_for(account_id, to_lowercase(q.as_str()).as_str(), limit))
}

/// The text that the database compares by: in lowercase, if there is one.
pub fn u_lower(text: Option<String>) -> (r: Option<String>)
    ensures
        match text {
            Some(t) => r matches Some(l) && l@ == lowercase(t@),
            None => r is None,
        },
{
    match text {
        Some(t) => Some(to_lowercase(t.as_str())),
        None => None,
    }
}

// ---------------------------------------------------------------------------------------------
// One message
// ---------------------------------------------------------------------------------------------

/// The statement that reads a message.
pub open spec fn reading_email(email_id: int) -> StatementView {
    sql(
        "SELECT id, from_addr, to_addr, cc_addr, subject, date,
                body_html, body_text, is_read, is_starred, has_attachment,
                read_receipt_to, read_receipt_sent
         FROM emails WHERE id=?1"@,
    ).number(email_id)
}

/// Reads a message.
pub fn get_email_body(email_id: i64) -> (r: Statement)
    ensures
        r@ == reading_email(email_id as int),
{
    Statement::new(
        "SELECT id, from_addr, to_addr, cc_addr, subject, date,
                body_html, body_text, is_read, is_starred, has_attachment,
                read_receipt_to, read_receipt_sent
         FROM emails WHERE id=?1",
    ).number(email_id)
}

/// A message.
pub struct EmailBody {
    pub id: i64,
    pub from_addr: String,
    pub to_addr: String,
    pub cc_addr: String,
    pub subject: String,
    pub date: String,
    pub body_html: String,
    pub body_text: String,
    pub is_read: bool,
    pub is_starred: bool,
    pub has_attachment: bool,
    pub read_receipt_to: Option<String>,
    pub read_receipt_sent: bool,
}

/// The flags of a message, as the database holds them.
pub struct EmailFlags {
    pub is_read: i32,
    pub is_starred: i32,
    pub has_attachment: i32,
    pub read_receipt_sent: i32,
}

/// Sets the flags of a message: any number but 0 sets one.
pub fn with_flags(body: EmailBody, flags: &EmailFlags) -> (r: EmailBody)
    ensures
        r == (EmailBody {
            is_read: flags.is_read != 0,
            is_starred: flags.is_starred != 0,
            has_attachment: flags.has_attachment != 0,
            read_receipt_sent: flags.read_receipt_sent != 0,
            ..body
        }),
{
    EmailBody {
        is_read: flags.is_read != 0,
        is_starred: flags.is_starred != 0,
        has_attachment: flags.has_attachment != 0,
        read_receipt_sent: flags.read_receipt_sent != 0,
        ..body
    }
}

/// The statement that marks a message as read or unread.
pub open spec fn marking_read(email_id: int, is_read: bool) -> StatementView {
    sql("UPDATE emails SET is_read=?1 WHERE id=?2"@).flag(is_read).number(email_id)
}

/// Marks a message as read or unread.
pub fn mark_read(email_id: i64, is_read: bool) -> (r: Statement)
    ensures
        r@ == marking_read(email_id as int, is_read),
{
    Statement::new("UPDATE emails SET is_read=?1 WHERE id=?2").flag(is_read).number(email_id)
}

/// The statement that reads whether a message has a star.
pub open spec fn reading_star(email_id: int) -> StatementView {
    sql("SELECT is_starred FROM emails WHERE id=?1"@).number(email_id)
}

/// Reads whether a message has a star.
pub fn star_query(email_id: i64) -> (r: Statement)
    ensures
        r@ == reading_star(email_id as int),
{
    Statement::new("SELECT is_starred FROM emails WHERE id=?1").number(email_id)
}

/// The statement that gives a message a star or takes it away.
pub open spec fn starring(email_id: int, v: int) -> StatementView {
    sql("UPDATE emails SET is_starred=?1 WHERE id=?2"@).number(v).number(email_id)
}

/// Gives a message a star if it has none, and takes the star away if it has one; tells whether it has
/// one then.
pub fn toggle_starred(email_id: i64, current: i32) -> (r: (Statement, bool))
    ensures
        r.0@ == starring(email_id as int, toggled(current) as int),
        r.1 == (toggled(current) == 1),
        r.1 <==> current == 0,
{
    let value: i64 = if current == 0 {
        1
    } else {
        0
    };
    (
        Statement::new("UPDATE emails SET is_starred=?1 WHERE id=?2").number(value).number(
            email_id,
        ),
        value == 1,
    )
}

/// The statement that reads the sender of a message.
pub open spec fn reading_sender(email_id: int) -> StatementView {
    sql("SELECT from_addr FROM emails WHERE id=?1"@).number(email_id)
}

/// Reads the sender of a message.
pub fn sender_query(email_id: i64) -> (r: Statement)
    ensures
        r@ == reading_sender(email_id as int),
{
    Statement::new("SELECT from_addr FROM emails WHERE id=?1").number(email_id)
}

// ---------------------------------------------------------------------------------------------
// Moving and deleting
// ---------------------------------------------------------------------------------------------

/// The statement that moves a message to the trash.
pub open spec fn trashing(email_id: int) -> StatementView {
    sql("UPDATE emails SET folder='Trash' WHERE id=?1"@).number(email_id)
}

/// Moves a message to the trash.
pub fn move_to_trash(email_id: i64) -> (r: Statement)
    ensures
        r@ == trashing(email_id as int),
{
    Statement::new("UPDATE emails SET folder='Trash' WHERE id=?1").number(email_id)
}

/// The statement that moves a message into the spam folder.
pub open spec fn spamming(email_id: int) -> StatementView {
    sql("UPDATE emails SET folder='Spam' WHERE id=?1"@).number(email_id)
}

/// Moves a message into the spam folder.
pub fn move_to_spam(email_id: i64) -> (r: Statement)
    ensures
        r@ == spamming(email_id as int),
{
    Statement::new("UPDATE emails SET folder='Spam' WHERE id=?1").number(email_id)
}

/// The statement that moves a message into the inbox.
pub open spec fn rescuing(email_id: int) -> StatementView {
    sql("UPDATE emails SET folder='INBOX' WHERE id=?1"@).number(email_id)
}

/// Moves a message from the spam folder into the inbox.
pub fn move_from_spam(email_id: i64) -> (r: Statement)
    ensures
        r@ == rescuing(email_id as int),
{
    Statement::new("UPDATE emails SET folder='INBOX' WHERE id=?1").number(email_id)
}

/// The statements that delete a message: first its attachments, then itself.
pub open spec fn deleting(email_id: int) -> (StatementView, StatementView) {
    (
        sql("DELETE FROM attachments WHERE email_id=?1"@).number(email_id),
        sql("DELETE FROM emails WHERE id=?1"@).number(email_id),
    )
}

/// Deletes a message: first its attachments, then itself.
pub fn delete_permanently(email_id: i64) -> (r: (Statement, Statement))
    ensures
        (r.0@, r.1@) == deleting(email_id as int),
{
    (
        Statement::new("DELETE FROM attachments WHERE email_id=?1").number(email_id),
        Statement::new("DELETE FROM emails WHERE id=?1").number(email_id),
    )
}

/// What is done with one of many messages.
pub struct Deletion {
    /// The statement that deletes its attachments, if it is deleted for good.
    pub attachments: Option<Statement>,
    /// The statement that deletes it or moves it to the trash.
    pub email: Statement,
}

/// Deletes messages for good, or moves them to the trash.
pub fn delete_emails_bulk(email_ids: &Vec<i64>, permanently: bool) -> (r: Vec<Deletion>)
    ensures
        r@.len() == email_ids@.len(),
        forall|i: int|
            0 <= i < r@.len() ==> if permanently {
                (#[trigger] r@[i]).attachments matches Some(a) && (a@, r@[i].email@) == deleting(
                    email_ids@[i] as int,
                )
            } else {
                r@[i].attachments is None && r@[i].email@ == trashing(email_ids@[i] as int)
            },
{
    let mut r: Vec<Deletion> = Vec::new();
    let mut i: usize = 0;
    while i < email_ids.len()
        invariant
            i <= email_ids@.len(),
            r@.len() == i,
            forall|i: int|
                0 <= i < r@.len() ==> if permanently {
                    (#[trigger] r@[i]).attachments matches Some(a) && (a@, r@[i].email@)
                        == deleting(email_ids@[i] as int)
                } else {
                    r@[i].attachments is None && r@[i].email@ == trashing(email_ids@[i] as int)
                },
        decreases email_ids@.len() - i,
    {
        let one = if permanently {
            let (a, e) = delete_permanently(email_ids[i]);
            Deletion { attachments: Some(a), email: e }
        } else {
            Deletion { attachments: None, email: move_to_trash(email_ids[i]) }
        };
        r.push(one);
        i += 1;
    }
    r
}

/// How many messages were changed: those for which a statement changed a row.
pub open spec fn count_changed(changed: Seq<usize>) -> nat
    decreases changed.len(),
{
    if changed.len() == 0 {
        0
    } else {
        count_changed(changed.drop_last()) + (if changed.last() > 0 {
            1nat
        } else {
            0nat
        })
    }
}

/// `count_changed`, computed. A statement that failed has changed no row.
pub fn changed_emails(changed: &Vec<usize>) -> (r: usize)
    ensures
        r == count_changed(changed@),
{
    let mut n: usize = 0;
    let mut i: usize = 0;
    while i < changed.len()
        invariant
            i <= changed@.len(),
            n == count_changed(changed@.take(i as int)),
            n <= i,
        decreases changed@.len() - i,
    {
        assert(changed@.take(i + 1).drop_last() =~= changed@.take(i as int));
        if changed[i] > 0 {
            n = n + 1;
        }
        i += 1;
    }
    assert(changed@.take(i as int) =~= changed@);
    n
}

/// Emptying a folder: the statement that finds its messages and the one that deletes them.
pub struct Emptying {
    pub find: Statement,
    pub delete: Statement,
}

/// The statements that find the messages of the trash and delete them.
pub open spec fn emptying_trash(account_id: int) -> (StatementView, StatementView) {
    (
        sql("SELECT id FROM emails WHERE account_id=?1 AND folder='Trash'"@).number(account_id),
        sql("DELETE FROM emails WHERE account_id=?1 AND folder='Trash'"@).number(account_id),
    )
}

/// Empties the trash.
pub fn clear_trash(account_id: i64) -> (r: Emptying)
    ensures
        (r.find@, r.delete@) == emptying_trash(account_id as int),
{
    Emptying {
        find: Statement::new("SELECT id FROM emails WHERE account_id=?1 AND folder='Trash'").number(
            account_id,
        ),
        delete: Statement::new("DELETE FROM emails WHERE account_id=?1 AND folder='Trash'").number(
            account_id,
        ),
    }
}

/// The statements that find the messages of the spam folder and delete them.
pub open spec fn emptying_spam(account_id: int) -> (StatementView, StatementView) {
    (
        sql("SELECT id FROM emails WHERE account_id=?1 AND folder='Spam'"@).number(account_id),
        sql("DELETE FROM emails WHERE account_id=?1 AND folder='Spam'"@).number(account_id),
    )
}

/// Empties the spam folder.
pub fn clear_spam(account_id: i64) -> (r: Emptying)
    ensures
        (r.find@, r.delete@) == emptying_spam(account_id as int),
{
    Emptying {
        find: Statement::new("SELECT id FROM emails WHERE account_id=?1 AND folder='Spam'").number(
            account_id,
        ),
        delete: Statement::new("DELETE FROM emails WHERE account_id=?1 AND folder='Spam'").number(
            account_id,
        ),
    }
}

/// The statements that mark messages as read or unread.
pub open spec fn marking_all(ids: Seq<i64>, is_read: bool) -> Seq<StatementView> {
    Seq::new(ids.len(), |i: int| marking_read(ids[i] as int, is_read))
}

/// Marks messages as read or unread.
pub fn mark_read_bulk(email_ids: &Vec<i64>, is_read: bool) -> (r: Vec<Statement>)
    ensures
        statement_views(r@) == marking_all(email_ids@, is_read),
{
    let ghost want = marking_all(email_ids@, is_read);
    let mut r: Vec<Statement> = Vec::new();
    let mut i: usize = 0;
    while i < email_ids.len()
        invariant
            i <= email_ids@.len(),
            want == marking_all(email_ids@, is_read),
            r@.len() == i,
            forall|j: int| 0 <= j < i ==> (#[trigger] r@[j])@ == want[j],
        decreases email_ids@.len() - i,
    {
        r.push(mark_read(email_ids[i], is_read));
        i += 1;
    }
    assert(statement_views(r@) =~= want);
    r
}

/// The statement that marks the unread messages of a folder as read.
pub open spec fn marking_folder(account_id: int, folder: Seq<char>) -> StatementView {
    sql("UPDATE emails SET is_read=1 WHERE account_id=?1 AND folder=?2 AND is_read=0"@).number(
        account_id,
    ).text(folder)
}

/// Marks the unread messages of a folder as read.
pub fn mark_all_read(account_id: i64, folder: &str) -> (r: Statement)
    ensures
        r@ == marking_folder(account_id as int, folder@),
{
    Statement::new(
        "UPDATE emails SET is_read=1 WHERE account_id=?1 AND folder=?2 AND is_read=0",
    ).number(account_id).text(folder)
}

// ---------------------------------------------------------------------------------------------
// Counting
// ---------------------------------------------------------------------------------------------

/// The statement that counts the unread messages in the inbox of an account.
pub open spec fn counting_unread(account_id: int) -> StatementView {
    sql("SELECT COUNT(*) FROM emails WHERE account_id=?1 AND folder='INBOX' AND is_read=0"@).number(
        account_id,
    )
}

/// Counts the unread messages in the inbox of an account.
pub fn get_unread_count(account_id: i64) -> (r: Statement)
    ensures
        r@ == counting_unread(account_id as int),
{
    Statement::new(
        "SELECT COUNT(*) FROM emails WHERE account_id=?1 AND folder='INBOX' AND is_read=0",
    ).number(account_id)
}

/// The statement that counts the unread messages in the inbox of each account.
pub open spec fn counting_all_unread() -> StatementView {
    sql(
        "SELECT account_id, COUNT(*) FROM emails WHERE folder='INBOX' AND is_read=0 GROUP BY account_id"@,
    )
}

/// Counts the unread messages in the inbox of each account.
pub fn get_all_unread_counts() -> (r: Statement)
    ensures
        r@ == counting_all_unread(),
{
    Statement::new(
        "SELECT account_id, COUNT(*) FROM emails WHERE folder='INBOX' AND is_read=0 GROUP BY account_id",
    )
}

/// The statement that counts the drafts of an account.
pub open spec fn counting_drafts(account_id: int) -> StatementView {
    sql("SELECT COUNT(*) FROM emails WHERE account_id=?1 AND folder='Drafts'"@).number(account_id)
}

/// Counts the drafts of an account.
pub fn get_draft_count(account_id: i64) -> (r: Statement)
    ensures
        r@ == counting_drafts(account_id as int),
{
    Statement::new("SELECT COUNT(*) FROM emails WHERE account_id=?1 AND folder='Drafts'").number(
        account_id,
    )
}

/// The statement that deletes a draft.
pub open spec fn deleting_draft(draft_id: int) -> StatementView {
    sql("DELETE FROM emails WHERE id=?1 AND folder='Drafts'"@).number(draft_id)
}

/// Deletes a draft.
pub fn delete_draft(draft_id: i64) -> (r: Statement)
    ensures
        r@ == deleting_draft(draft_id as int),
{
    Statement::new("DELETE FROM emails WHERE id=?1 AND folder='Drafts'").number(draft_id)
}

/// The statement that forgets which messages of an account are known.
pub open spec fn forgetting_state(account_id: int) -> StatementView {
    sql("DELETE FROM folder_state WHERE account_id=?1"@).number(account_id)
}

/// Forgets which messages are known: the next synchronization of each folder is the first.
pub fn reset_folder_state(account_id: i64) -> (r: Statement)
    ensures
        r@ == forgetting_state(account_id as int),
{
    Statement::new("DELETE FROM folder_state WHERE account_id=?1").number(account_id)
}

} // verus!
