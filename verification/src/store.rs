//! Keeping received messages in the database.
use vstd::prelude::*;

use crate::addresses::{bare_address, extract_email_addr, sender_address};
use crate::filenames::{clean_name, file_name, forbidden, law_file_name_is_clean};
use crate::message::{Mail, MailView};
use crate::statements::{sql, Statement, StatementView, ValueView};
use crate::text::{
    i64_to_string, join3, lemma_signed_decimal, lemma_trim_fixed, same_str, signed_decimal,
    to_chars,
};

verus! {

// ---------------------------------------------------------------------------------------------
// Blocked senders
// ---------------------------------------------------------------------------------------------

/// The statement that finds an address among the blocked ones, whatever its case.
pub open spec fn finding_blocked(address: Seq<char>) -> StatementView {
    sql("SELECT 1 FROM blocked_senders WHERE email = ?1 COLLATE NOCASE"@).text(address)
}

/// Asks whether a sender is blocked; `None` if the sender has no address, and so is not.
pub fn is_sender_blocked(from: &str) -> (r: Option<Statement>)
    ensures
        match r {
            Some(s) => sender_address(from@).len() > 0 && s@ == finding_blocked(
                sender_address(from@),
            ),
            None => sender_address(from@).len() == 0,
        },
        bare_address(from@).len() == 0 ==> r is None,
{
    let addr = extract_email_addr(from);
    if to_chars(addr.as_str()).len() == 0 {
        None
    } else {
        Some(
            Statement::new("SELECT 1 FROM blocked_senders WHERE email = ?1 COLLATE NOCASE").text(
                addr.as_str(),
            ),
        )
    }
}

/// The statement that blocks an address.
pub open spec fn blocking(address: Seq<char>) -> StatementView {
    sql("INSERT OR IGNORE INTO blocked_senders (email) VALUES (?1)"@).text(address)
}

/// Blocks a sender; `None` if the sender has no address.
pub fn block_sender(from: &str) -> (r: Option<Statement>)
    ensures
        match r {
            Some(s) => sender_address(from@).len() > 0 && s@ == blocking(sender_address(from@)),
            None => sender_address(from@).len() == 0,
        },
{
    let addr = extract_email_addr(from);
    if to_chars(addr.as_str()).len() == 0 {
        None
    } else {
        Some(
            Statement::new("INSERT OR IGNORE INTO blocked_senders (email) VALUES (?1)").text(
                addr.as_str(),
            ),
        )
    }
}

/// The statement that no longer blocks an address, whatever its case.
pub open spec fn unblocking(address: Seq<char>) -> StatementView {
    sql("DELETE FROM blocked_senders WHERE email = ?1 COLLATE NOCASE"@).text(address)
}

/// No longer blocks a sender.
pub fn unblock_sender(from: &str) -> (r: Statement)
    ensures
        r@ == unblocking(sender_address(from@)),
{
    let addr = extract_email_addr(from);
    Statement::new("DELETE FROM blocked_senders WHERE email = ?1 COLLATE NOCASE").text(
        addr.as_str(),
    )
}

/// Blocking, asking and unblocking speak of the same address.
pub proof fn law_same_address(from: Seq<char>)
    ensures
        blocking(sender_address(from)).params == finding_blocked(sender_address(from)).params,
        unblocking(sender_address(from)).params == finding_blocked(sender_address(from)).params,
{
}

// ---------------------------------------------------------------------------------------------
// Storing a message
// ---------------------------------------------------------------------------------------------

/// A message to be stored.
pub struct StoreJob {
    pub account_id: i64,
    /// The folder that it was fetched from.
    pub folder: String,
    pub uid: u32,
    pub mail: Mail,
}

/// What is to be stored.
#[verifier::ext_equal]
pub struct StoreJobView {
    pub account_id: int,
    pub folder: Seq<char>,
    pub uid: int,
    pub mail: MailView,
}

impl View for StoreJob {
    type V = StoreJobView;

    open spec fn view(&self) -> StoreJobView {
        StoreJobView {
            account_id: self.account_id as int,
            folder: self.folder@,
            uid: self.uid as int,
            mail: self.mail@,
        }
    }
}

/// What to do next for a message.
#[derive(Clone, Copy, PartialEq, Eq, Structural)]
pub enum StoreStep {
    /// Ask whether its sender is blocked.
    AskSender,
    /// Ask whether it is stored already.
    AskKnown { blocked: bool },
    /// Insert it.
    Insert { blocked: bool },
    /// Save its attachments under the id that it has got.
    SaveFiles(i64),
    /// Nothing: it is new and has this id, or it is not new.
    Done(Option<i64>),
    /// Nothing: it could not be inserted.
    Failed,
}

/// What came of a step.
#[derive(Clone, Copy, PartialEq, Eq, Structural)]
pub enum StoreEvent {
    /// A row was found, or none.
    Found(bool),
    /// So many rows were inserted; the last id that was given.
    Inserted { changed: usize, id: i64 },
    /// The database refused.
    Refused,
    /// The attachments have been dealt with.
    Saved,
}

/// The folder that a message is stored in.
pub open spec fn effective_folder(folder: Seq<char>, blocked: bool) -> Seq<char> {
    if folder == "INBOX"@ && blocked {
        "Spam"@
    } else {
        folder
    }
}

/// The statement that finds a message in whatever folder.
pub open spec fn finding_known(account_id: int, uid: int) -> StatementView {
    sql("SELECT 1 FROM emails WHERE account_id=?1 AND uid=?2 LIMIT 1"@).number(account_id).number(
        uid,
    )
}

/// The text of the statement that inserts a message.
pub open spec fn insertion_text() -> Seq<char> {
    "INSERT OR IGNORE INTO emails
         (account_id, uid, folder, from_addr, to_addr, cc_addr, subject, date,
          body_text, body_html, has_attachment, message_id, snippet, date_ts, read_receipt_to)
         VALUES (?1,?2,?3,?4,?5,?6,?7,?8,?9,?10,?11,?12,?13,?14,?15)"@
}

/// The statement that inserts a message.
pub open spec fn inserting(job: StoreJobView, blocked: bool) -> StatementView {
    sql(insertion_text()).number(job.account_id).number(job.uid).text(effective_folder(job.folder, blocked)).text(
        job.mail.from,
    ).text(job.mail.to).text(job.mail.cc).text(job.mail.subject).text(job.mail.date).text(
        job.mail.body_text,
    ).text(job.mail.body_html).flag(job.mail.has_attachment).text(job.mail.message_id).text(
        job.mail.snippet,
    ).number(job.mail.date_ts).maybe_text(job.mail.read_receipt_to)
}

/// The first step: only a message in the inbox can come from a blocked sender.
pub open spec fn first_step(job: StoreJobView) -> StoreStep {
    if job.folder == "INBOX"@ && sender_address(job.mail.from).len() > 0 {
        StoreStep::AskSender
    } else {
        StoreStep::AskKnown { blocked: false }
    }
}

/// The step after an event. An event that does not belong to the step changes nothing.
pub open spec fn next_step(job: StoreJobView, step: StoreStep, event: StoreEvent) -> StoreStep {
    match (step, event) {
        (StoreStep::AskSender, StoreEvent::Found(b)) => StoreStep::AskKnown { blocked: b },
        (StoreStep::AskKnown { blocked }, StoreEvent::Found(b)) => if b {
            StoreStep::Done(None)
        } else {
            StoreStep::Insert { blocked }
        },
        (StoreStep::Insert { blocked: _ }, StoreEvent::Inserted { changed, id }) => if changed == 0 {
            StoreStep::Done(None)
        } else if job.mail.attachments.len() > 0 {
            StoreStep::SaveFiles(id)
        } else {
            StoreStep::Done(Some(id))
        },
        (StoreStep::Insert { blocked: _ }, StoreEvent::Refused) => StoreStep::Failed,
        (StoreStep::SaveFiles(id), StoreEvent::Saved) => StoreStep::Done(Some(id)),
        _ => step,
    }
}

/// The statement of a step, if it has one.
pub open spec fn step_statement(job: StoreJobView, step: StoreStep) -> Option<StatementView> {
    match step {
        StoreStep::AskSender => Some(finding_blocked(sender_address(job.mail.from))),
        StoreStep::AskKnown { blocked: _ } => Some(finding_known(job.account_id, job.uid)),
        StoreStep::Insert { blocked } => Some(inserting(job, blocked)),
        _ => None,
    }
}

impl StoreJob {
    /// Begins to store a message.
    pub fn parse_and_store(&self) -> (r: StoreStep)
        ensures
            r == first_step(self@),
    {
        if same_str(self.folder.as_str(), "INBOX") && is_sender_blocked(
            self.mail.from.as_str(),
        ).is_some() {
            StoreStep::AskSender
        } else {
            StoreStep::AskKnown { blocked: false }
        }
    }

    /// Goes on after an event.
    pub fn next(&self, step: StoreStep, event: StoreEvent) -> (r: StoreStep)
        ensures
            r == next_step(self@, step, event),
    {
        assert(self@.mail.attachments.len() == self.mail.attachments@.len());
        match (step, event) {
            (StoreStep::AskSender, StoreEvent::Found(b)) => StoreStep::AskKnown { blocked: b },
            (StoreStep::AskKnown { blocked }, StoreEvent::Found(b)) => if b {
                StoreStep::Done(None)
            } else {
                StoreStep::Insert { blocked }
            },
            (StoreStep::Insert { blocked: _ }, StoreEvent::Inserted { changed, id }) => if changed
                == 0 {
                StoreStep::Done(None)
            } else if self.mail.attachments.len() > 0 {
                StoreStep::SaveFiles(id)
            } else {
                StoreStep::Done(Some(id))
            },
            (StoreStep::Insert { blocked: _ }, StoreEvent::Refused) => StoreStep::Failed,
            (StoreStep::SaveFiles(id), StoreEvent::Saved) => StoreStep::Done(Some(id)),
            _ => step,
        }
    }

    fn insertion(&self, blocked: bool) -> (r: Statement)
        ensures
            r@ == inserting(self@, blocked),
            r@.params[0] == ValueView::Int(self.account_id as int),
            r@.params[1] == ValueView::Int(self.uid as int),
            r@.params[3] == ValueView::Text(self.mail.from@),
            r@.params[4] == ValueView::Text(self.mail.to@),
            r@.params[5] == ValueView::Text(self.mail.cc@),
            r@.params[6] == ValueView::Text(self.mail.subject@),
            r@.params[7] == ValueView::Text(self.mail.date@),
            r@.params[8] == ValueView::Text(self.mail.body_text@),
            r@.params[9] == ValueView::Text(self.mail.body_html@),
            r@.params[10] == ValueView::Int(if self.mail.has_attachment { 1 } else { 0 }),
            r@.params[11] == ValueView::Text(self.mail.message_id@),
            r@.params[12] == ValueView::Text(self.mail.snippet@),
            r@.params[13] == ValueView::Int(self.mail.date_ts as int),
            self.mail.read_receipt_to matches Some(t) ==> r@.params[14] == ValueView::Text(t@),
            self.mail.read_receipt_to is None ==> r@.params[14] == ValueView::Null,
    {
        let m = &self.mail;
        let spam = blocked && same_str(self.folder.as_str(), "INBOX");
        let s = Statement::new(
            "INSERT OR IGNORE INTO emails
         (account_id, uid, folder, from_addr, to_addr, cc_addr, subject, date,
          body_text, body_html, has_attachment, message_id, snippet, date_ts, read_receipt_to)
         VALUES (?1,?2,?3,?4,?5,?6,?7,?8,?9,?10,?11,?12,?13,?14,?15)",
        ).number(self.account_id).number(self.uid as i64);
        let s = if spam {
            s.text("Spam")
        } else {
            s.text(self.folder.as_str())
        };
        s.text(m.from.as_str()).text(m.to.as_str()).text(m.cc.as_str()).text(
            m.subject.as_str(),
        ).text(m.date.as_str()).text(m.body_text.as_str()).text(m.body_html.as_str()).flag(
            m.has_attachment,
        ).text(m.message_id.as_str()).text(m.snippet.as_str()).number(m.date_ts).maybe_text(
            &m.read_receipt_to,
        )
    }

    /// The statement of a step, if it has one.
    pub fn statement(&self, step: StoreStep) -> (r: Option<Statement>)
        ensures
            match step_statement(self@, step) {
                Some(want) => r matches Some(s) && s@ == want,
                None => r is None,
            },
    {
        match step {
            StoreStep::AskSender => {
                let addr = extract_email_addr(self.mail.from.as_str());
                Some(
                    Statement::new(
                        "SELECT 1 FROM blocked_senders WHERE email = ?1 COLLATE NOCASE",
                    ).text(addr.as_str()),
                )
            },
            StoreStep::AskKnown { blocked: _ } => Some(
                Statement::new("SELECT 1 FROM emails WHERE account_id=?1 AND uid=?2 LIMIT 1").number(
                    self.account_id,
                ).number(self.uid as i64),
            ),
            StoreStep::Insert { blocked } => Some(self.insertion(blocked)),
            _ => None,
        }
    }
}

// ---------------------------------------------------------------------------------------------
// Attachments
// ---------------------------------------------------------------------------------------------

/// A name made of the time, in milliseconds.
pub open spec fn timed_name(millis: int) -> Seq<char> {
    "attachment_"@ + signed_decimal(millis) + ".bin"@
}

/// `timed_name`, computed.
pub fn name_by_time(millis: i64) -> (r: String)
    ensures
        r@ == timed_name(millis as int),
{
    join3("attachment_", i64_to_string(millis).as_str(), ".bin")
}

/// The name under which an attachment is saved: a name that says nothing gives way to the time.
pub open spec fn saved_as(filename: Seq<char>, millis: int) -> Seq<char> {
    if filename.len() == 0 || filename == "attachment"@ {
        timed_name(millis)
    } else {
        filename
    }
}

/// `saved_as`, computed.
pub fn attachment_name(filename: &str, millis: i64) -> (r: String)
    ensures
        r@ == saved_as(filename@, millis as int),
{
    if to_chars(filename).len() == 0 || same_str(filename, "attachment") {
        name_by_time(millis)
    } else {
        filename.to_owned()
    }
}

/// The statement that keeps an attachment that has been saved.
pub open spec fn keeping_file(
    email_id: int,
    name: Seq<char>,
    mime_type: Seq<char>,
    path: Seq<char>,
    size: int,
) -> StatementView {
    sql(
        "INSERT INTO attachments (email_id, filename, mime_type, file_path, file_size)
                         VALUES (?1,?2,?3,?4,?5)"@,
    ).number(email_id).text(name).text(mime_type).text(path).number(size)
}

/// Keeps an attachment that has been saved.
pub fn keep_file(email_id: i64, name: &str, mime_type: &str, path: &str, size: i64) -> (r: Statement)
    ensures
        r@ == keeping_file(email_id as int, name@, mime_type@, path@, size as int),
{
    Statement::new(
        "INSERT INTO attachments (email_id, filename, mime_type, file_path, file_size)
                         VALUES (?1,?2,?3,?4,?5)",
    ).number(email_id).text(name).text(mime_type).text(path).number(size)
}

// ---------------------------------------------------------------------------------------------
// Laws
// ---------------------------------------------------------------------------------------------

/// What becomes of a message when the database answers so: whether its sender is blocked, whether it
/// is stored already, how many rows are inserted and with which id.
pub open spec fn outcome(
    job: StoreJobView,
    blocked: bool,
    known: bool,
    changed: usize,
    id: i64,
) -> StoreStep {
    let s0 = first_step(job);
    let s1 = if s0 == StoreStep::AskSender {
        next_step(job, s0, StoreEvent::Found(blocked))
    } else {
        s0
    };
    let s2 = next_step(job, s1, StoreEvent::Found(known));
    let s3 = next_step(job, s2, StoreEvent::Inserted { changed, id });
    next_step(job, s3, StoreEvent::Saved)
}

/// A message is new exactly if it was not known in any folder and has been inserted.
pub proof fn law_new_once(
    job: StoreJobView,
    blocked: bool,
    known: bool,
    changed: usize,
    id: i64,
)
    ensures
        outcome(job, blocked, known, changed, id) == StoreStep::Done(
            if !known && changed > 0 {
                Some(id)
            } else {
                None
            },
        ),
{
}

/// A name made of the time is clean.
pub proof fn law_timed_name_is_clean(millis: int)
    ensures
        clean_name(timed_name(millis)),
{
    let t = timed_name(millis);
    let d = signed_decimal(millis);
    reveal_strlit("attachment_");
    reveal_strlit(".bin");
    reveal_strlit(".");
    reveal_strlit("..");
    lemma_signed_decimal(millis);
    let n = d.len() as int;
    assert(t.len() == 11 + n + 4);
    assert forall|i: int| 0 <= i < t.len() implies !forbidden(#[trigger] t[i]) by {
        if i < 11 {
            assert(t[i] == "attachment_"@[i]);
        } else if i < 11 + n {
            assert(t[i] == d[i - 11]);
        } else {
            assert(t[i] == ".bin"@[i - 11 - n]);
        }
    }
    assert(t[0] == "attachment_"@[0]);
    assert(t.last() == ".bin"@[3]);
    lemma_trim_fixed(t);
}

/// The name under which a received attachment is saved cannot lead out of the directory that it is
/// put in, whatever the message says.
pub proof fn law_saved_name_is_clean(disposition: Seq<char>, content_type: Seq<char>, millis: int)
    ensures
        clean_name(saved_as(file_name(disposition, content_type), millis)),
{
    law_file_name_is_clean(disposition, content_type);
    law_timed_name_is_clean(millis);
}

/// A message of a blocked sender in the inbox is stored as spam; any other stays in its folder.
pub proof fn law_blocked_is_spam(job: StoreJobView, blocked: bool)
    ensures
        inserting(job, blocked).params[2] == ValueView::Text(
            if blocked && job.folder == "INBOX"@ {
                "Spam"@
            } else {
                job.folder
            },
        ),
        job.folder != "INBOX"@ ==> first_step(job) == (StoreStep::AskKnown { blocked: false }),
{
}

/// A message in the inbox with an address of its sender is first held against the blocked senders, and what
/// is found there decides how it is inserted, if it is not known; its files are saved once it has
/// been inserted.
pub proof fn law_storing(job: StoreJobView, blocked: bool, changed: usize, id: i64)
    requires
        changed > 0,
    ensures
        job.folder == "INBOX"@ && sender_address(job.mail.from).len() > 0 ==> first_step(job)
            == StoreStep::AskSender,
        job.folder != "INBOX"@ || sender_address(job.mail.from).len() == 0 ==> first_step(job) == (
        StoreStep::AskKnown { blocked: false }),
        next_step(job, StoreStep::AskSender, StoreEvent::Found(blocked)) == (StoreStep::AskKnown {
            blocked,
        }),
        next_step(job, StoreStep::AskKnown { blocked }, StoreEvent::Found(false)) == (StoreStep::Insert {
            blocked,
        }),
        next_step(job, StoreStep::AskKnown { blocked }, StoreEvent::Found(true)) == StoreStep::Done(None),
        job.mail.attachments.len() > 0 ==> next_step(
            job,
            StoreStep::Insert { blocked },
            StoreEvent::Inserted { changed, id },
        ) == StoreStep::SaveFiles(id),
        job.mail.attachments.len() == 0 ==> next_step(
            job,
            StoreStep::Insert { blocked },
            StoreEvent::Inserted { changed, id },
        ) == StoreStep::Done(Some(id)),
        next_step(job, StoreStep::SaveFiles(id), StoreEvent::Saved) == StoreStep::Done(Some(id)),
        next_step(job, StoreStep::Insert { blocked }, StoreEvent::Refused) == StoreStep::Failed,
{
}

/// A file keeps the name that the message gives it, unless the message gives none; then its name tells the
/// time.
pub proof fn law_name_of_file(filename: Seq<char>, millis: int)
    ensures
        filename.len() > 0 && filename != "attachment"@ ==> saved_as(filename, millis) == filename,
        filename.len() == 0 || filename == "attachment"@ ==> saved_as(filename, millis) == timed_name(
            millis,
        ),
        timed_name(millis).len() == signed_decimal(millis).len() + 15,
        timed_name(millis).subrange(11, 11int + signed_decimal(millis).len()) == signed_decimal(millis),
{
    reveal_strlit("attachment_");
    reveal_strlit(".bin");
    assert(timed_name(millis).subrange(11, 11int + signed_decimal(millis).len()) =~= signed_decimal(millis));
}

} // verus!
