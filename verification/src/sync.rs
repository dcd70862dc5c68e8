//! Synchronizing a folder with the server.
use vstd::prelude::*;

use crate::accounts::{purge_settings_query, reading_purge_settings};
use crate::emails::{item_query, reading_item};
use crate::imap::{
    batch, fetch_window, law_batch, lemma_newer, newer, number_set, sequence_set, span_set, uid_set,
    window,
};
use crate::statements::{sql, Statement, StatementView};
use crate::text::{contains_word, fold, fold_has, has_word, same_str, to_chars};

verus! {

// ---------------------------------------------------------------------------------------------
// What to fetch
// ---------------------------------------------------------------------------------------------

/// How many messages the first synchronization of a folder fetches, and each request for older ones.
pub const WINDOW: u32 = 100;

/// One synchronization.
#[derive(Clone, Copy)]
pub struct SyncPlan {
    /// How many of the newest messages are passed over; 0 for the newest themselves.
    pub offset: u32,
    /// Whether the messages stay on the server.
    pub leave_on_server: bool,
    /// The number of the last message known; 0 if none is, or if older messages are asked for.
    pub last_uid: u32,
}

impl SyncPlan {
    /// Only messages after the last known one are fetched.
    pub open spec fn incremental(self) -> bool {
        self.offset == 0 && self.last_uid > 0
    }

    /// The folder is fetched for the first time.
    pub open spec fn initial(self) -> bool {
        self.offset == 0 && self.last_uid == 0
    }
}

/// The statement that reads the number of the last message known.
pub open spec fn reading_last_uid(account_id: int, folder: Seq<char>) -> StatementView {
    sql("SELECT last_uid FROM folder_state WHERE account_id=?1 AND folder=?2"@).number(
        account_id,
    ).text(folder)
}

/// What is fetched.
#[derive(Clone, Copy, PartialEq, Eq, Structural)]
pub enum SyncFetch {
    /// The messages after this number.
    New { last_uid: u32 },
    /// The newest messages after so many that are passed over.
    Window { limit: u32, offset: u32 },
}

/// What a synchronization fetches.
pub open spec fn fetch_of(plan: SyncPlan) -> SyncFetch {
    if plan.incremental() {
        SyncFetch::New { last_uid: plan.last_uid }
    } else {
        SyncFetch::Window { limit: WINDOW, offset: plan.offset }
    }
}

/// The number of the last message known, from the one that the database holds: of a number that is
/// too large the lower bits count, and without one nothing is known.
pub open spec fn stored_uid(stored: Option<i64>) -> u32 {
    match stored {
        Some(n) => n as u32,
        None => 0,
    }
}

/// The error of a server that has no such folder.
pub open spec fn says_missing(e: Seq<char>) -> bool {
    has_word(e, "NONEXISTENT"@) || has_word(fold(e), "not exist"@)
}

/// Whether a fetch failed because the server has no such folder; then there is nothing to do.
pub fn folder_missing(e: &str) -> (r: bool)
    ensures
        r == says_missing(e@),
{
    let v = to_chars(e);
    let w = to_chars("NONEXISTENT");
    contains_word(&v, &w) || fold_has(&v, "not exist")
}

// ---------------------------------------------------------------------------------------------
// What was fetched
// ---------------------------------------------------------------------------------------------

/// What the user is told of a new message.
pub struct NotifItem {
    pub id: i64,
    pub from_addr: String,
    pub subject: String,
    pub has_attachment: bool,
}

/// What is said of a new message.
#[verifier::ext_equal]
pub struct NotifView {
    pub id: i64,
    pub from_addr: Seq<char>,
    pub subject: Seq<char>,
    pub has_attachment: bool,
}

impl View for NotifItem {
    type V = NotifView;

    open spec fn view(&self) -> NotifView {
        NotifView {
            id: self.id,
            from_addr: self.from_addr@,
            subject: self.subject@,
            has_attachment: self.has_attachment,
        }
    }
}

/// What is said of new messages.
pub open spec fn notif_views(v: Seq<NotifItem>) -> Seq<NotifView> {
    Seq::new(v.len(), |i: int| v[i]@)
}

/// The largest of these numbers and one more.
pub open spec fn highest(least: u32, uids: Seq<u32>) -> u32
    decreases uids.len(),
{
    if uids.len() == 0 {
        least
    } else {
        let h = highest(least, uids.drop_last());
        if uids.last() > h {
            uids.last()
        } else {
            h
        }
    }
}

/// The number of the last message known after a synchronization. After the first one it is the
/// number before the one that the server will give next, if the server says which that is: the
/// messages that the first one passed over stay unknown.
pub open spec fn last_known(plan: SyncPlan, uid_next: u32, max_uid: u32) -> u32 {
    if plan.initial() && uid_next > 0 {
        (uid_next - 1) as u32
    } else {
        max_uid
    }
}

/// The statement that keeps the number of the last message known.
pub open spec fn remembering(account_id: int, folder: Seq<char>, uid: int) -> StatementView {
    sql(
        "INSERT INTO folder_state (account_id, folder, last_uid) VALUES (?1,?2,?3)
                 ON CONFLICT(account_id, folder) DO UPDATE SET last_uid=excluded.last_uid"@,
    ).number(account_id).text(folder).number(uid)
}

/// The statement that moves messages of blacklisted contacts into the spam folder.
pub open spec fn filtering(account_id: int) -> StatementView {
    sql(
        "UPDATE emails SET folder='Spam'
         WHERE account_id=?1 AND folder!='Spam'
           AND EXISTS (
               SELECT 1 FROM contacts
               WHERE is_blacklisted=1
                 AND INSTR(LOWER(emails.from_addr), LOWER(contacts.email)) > 0
                 AND LENGTH(contacts.email) > 0
           )"@,
    ).number(account_id)
}

/// Moves messages of blacklisted contacts into the spam folder.
pub fn filter_blacklisted_to_spam(account_id: i64) -> (r: Statement)
    ensures
        r@ == filtering(account_id as int),
{
    Statement::new(
        "UPDATE emails SET folder='Spam'
         WHERE account_id=?1 AND folder!='Spam'
           AND EXISTS (
               SELECT 1 FROM contacts
               WHERE is_blacklisted=1
                 AND INSTR(LOWER(emails.from_addr), LOWER(contacts.email)) > 0
                 AND LENGTH(contacts.email) > 0
           )",
    ).number(account_id)
}

/// How far a synchronization has come.
#[derive(Clone, Copy, PartialEq, Eq, Structural)]
pub enum SyncStage {
    /// The number of the last message known is to be read.
    AskLast,
    /// The messages are to be fetched.
    Fetch,
    /// The message with this place among those fetched is to be stored.
    Store(usize),
    /// It was new and has got this id: it is to be read as it stands in a list.
    ReadItem(usize, i64),
    /// The number of the last message known is to be kept.
    Remember,
    /// Messages of blacklisted contacts are to be moved into the spam folder.
    Filter,
    /// What is to be done with old messages is to be read.
    AskPurge,
    /// Messages older than so many days are to be removed from the server, for good or not.
    Purge(i64, bool),
    /// Nothing is left to do.
    Done,
    /// The messages could not be fetched.
    Failed,
}

/// The synchronization of a folder.
pub struct Syncing {
    pub account_id: i64,
    pub folder: String,
    pub plan: SyncPlan,
    /// The number that the server will give next, 0 if it is not known.
    pub uid_next: u32,
    /// The numbers of the messages that were fetched.
    pub uids: Vec<u32>,
    /// The largest number among those that were to be stored so far and the last one known.
    pub max_uid: u32,
    /// The new messages.
    pub items: Vec<NotifItem>,
    pub stage: SyncStage,
}

/// What is known of a synchronization.
#[verifier::ext_equal]
pub struct SyncingView {
    pub account_id: int,
    pub folder: Seq<char>,
    pub plan: SyncPlan,
    pub uid_next: u32,
    pub uids: Seq<u32>,
    pub max_uid: u32,
    pub items: Seq<NotifView>,
    pub stage: SyncStage,
}

impl View for Syncing {
    type V = SyncingView;

    open spec fn view(&self) -> SyncingView {
        SyncingView {
            account_id: self.account_id as int,
            folder: self.folder@,
            plan: self.plan,
            uid_next: self.uid_next,
            uids: self.uids@,
            max_uid: self.max_uid,
            items: notif_views(self.items@),
            stage: self.stage,
        }
    }
}

/// What to do next.
pub enum SyncAction {
    /// Read the number of the last message known.
    AskLast(Statement),
    /// Fetch messages.
    Fetch(SyncFetch),
    /// Store the message with this place among those fetched.
    Store(usize),
    /// Read the new message as it stands in a list.
    ReadItem(Statement),
    /// Execute a statement, whatever comes of it.
    Execute(Statement),
    /// Read what is to be done with old messages.
    AskPurge(Statement),
    /// Remove messages older than so many days from the server, for good or not.
    Purge { days: i64, permanent: bool },
    /// End.
    Finish,
    /// End with the error.
    Fail,
}

impl SyncingView {
    /// A synchronization at its beginning. The number of the last message known does not matter
    /// when older messages are asked for.
    pub open spec fn start(
        account_id: int,
        folder: Seq<char>,
        offset: Option<u32>,
        leave_on_server: Option<bool>,
    ) -> SyncingView {
        let n: u32 = match offset {
            Some(k) => k,
            None => 0,
        };
        SyncingView {
            account_id,
            folder,
            plan: SyncPlan {
                offset: n,
                leave_on_server: match leave_on_server {
                    Some(b) => b,
                    None => true,
                },
                last_uid: 0,
            },
            uid_next: 0,
            uids: Seq::empty(),
            max_uid: 0,
            items: Seq::empty(),
            stage: if n == 0 {
                SyncStage::AskLast
            } else {
                SyncStage::Fetch
            },
        }
    }

    /// At another stage.
    pub open spec fn at(self, stage: SyncStage) -> SyncingView {
        SyncingView { stage, ..self }
    }

    /// The number of the last message known, now that all messages have been stored.
    pub open spec fn new_last(self) -> u32 {
        last_known(self.plan, self.uid_next, self.max_uid)
    }

    /// Old messages are removed after an incremental synchronization of the inbox.
    pub open spec fn purges(self) -> bool {
        self.folder == "INBOX"@ && self.plan.incremental()
    }

    /// The stage after the messages of blacklisted contacts have been moved.
    pub open spec fn after_filter(self) -> SyncStage {
        if self.purges() {
            SyncStage::AskPurge
        } else {
            SyncStage::Done
        }
    }

    /// The stage after the number of the last message known has been kept.
    pub open spec fn after_remember(self) -> SyncStage {
        if self.uids.len() > 0 {
            SyncStage::Filter
        } else {
            self.after_filter()
        }
    }

    /// The stage when the first `i` messages have been stored.
    pub open spec fn when_stored(self, i: int) -> SyncStage {
        if i < self.uids.len() {
            SyncStage::Store(i as usize)
        } else if self.new_last() > self.plan.last_uid {
            SyncStage::Remember
        } else {
            self.after_remember()
        }
    }

    /// After the number of the last message known has been read.
    pub open spec fn after_last(self, stored: Option<i64>) -> SyncingView {
        SyncingView {
            plan: SyncPlan { last_uid: stored_uid(stored), ..self.plan },
            max_uid: stored_uid(stored),
            stage: SyncStage::Fetch,
            ..self
        }
    }

    /// After messages with these numbers have been fetched.
    pub open spec fn after_fetch(self, uids: Seq<u32>, uid_next: u32) -> SyncingView {
        let s = SyncingView { uids, uid_next, ..self };
        s.at(s.when_stored(0))
    }

    /// After the messages could not be fetched: a folder that the server does not have has none.
    pub open spec fn after_fetch_error(self, e: Seq<char>) -> SyncingView {
        if says_missing(e) {
            self.at(SyncStage::Done)
        } else {
            self.at(SyncStage::Failed)
        }
    }

    /// After a message has been stored: it was new and has this id, or it was not.
    pub open spec fn after_store(self, i: int, new_id: Option<i64>) -> SyncingView {
        let s = SyncingView {
            max_uid: if self.uids[i] > self.max_uid {
                self.uids[i]
            } else {
                self.max_uid
            },
            ..self
        };
        match new_id {
            Some(id) => s.at(SyncStage::ReadItem(i as usize, id)),
            None => s.at(s.when_stored(i + 1)),
        }
    }

    /// After a new message has been read, if it could be.
    pub open spec fn after_item(self, i: int, item: Option<NotifView>) -> SyncingView {
        let s = match item {
            Some(n) => SyncingView { items: self.items.push(n), ..self },
            None => self,
        };
        s.at(s.when_stored(i + 1))
    }

    /// After a statement has been executed, or old messages have been removed.
    pub open spec fn after_executed(self) -> SyncingView {
        match self.stage {
            SyncStage::Remember => self.at(self.after_remember()),
            SyncStage::Filter => self.at(self.after_filter()),
            _ => self.at(SyncStage::Done),
        }
    }

    /// After it has been read what is to be done with old messages, if it could be.
    pub open spec fn after_purge_settings(self, s: Option<(Option<i64>, i32)>) -> SyncingView {
        match s {
            Some((Some(days), permanent)) => self.at(SyncStage::Purge(days, permanent != 0)),
            _ => self.at(SyncStage::Done),
        }
    }

    /// What the user is told of. The first synchronization of a folder tells of nothing: its messages
    /// are old ones.
    pub open spec fn told(self) -> Seq<NotifView> {
        if self.plan.initial() {
            Seq::empty()
        } else {
            self.items
        }
    }

    /// The synchronization can be under way like this. When the number of the last message known is
    /// kept, every message that was fetched has had its turn to be stored.
    pub open spec fn valid(self) -> bool {
        match self.stage {
            SyncStage::AskLast => self.plan.offset == 0 && self.uids.len() == 0 && self.max_uid
                == self.plan.last_uid,
            SyncStage::Fetch => self.uids.len() == 0 && self.max_uid == self.plan.last_uid,
            SyncStage::Store(i) => i < self.uids.len() && self.max_uid == highest(
                self.plan.last_uid,
                self.uids.take(i as int),
            ),
            SyncStage::ReadItem(i, _) => i < self.uids.len() && self.max_uid == highest(
                self.plan.last_uid,
                self.uids.take(i + 1),
            ),
            SyncStage::Remember => self.max_uid == highest(self.plan.last_uid, self.uids)
                && self.new_last() > self.plan.last_uid,
            SyncStage::Filter => self.max_uid == highest(self.plan.last_uid, self.uids)
                && self.uids.len() > 0,
            SyncStage::AskPurge => self.purges(),
            SyncStage::Purge(_, _) => self.purges(),
            _ => true,
        }
    }

    /// What is to be done next.
    pub open spec fn wants(self, a: SyncAction) -> bool {
        match self.stage {
            SyncStage::AskLast => a matches SyncAction::AskLast(s) && s@ == reading_last_uid(
                self.account_id,
                self.folder,
            ),
            SyncStage::Fetch => a == SyncAction::Fetch(fetch_of(self.plan)),
            SyncStage::Store(i) => a == SyncAction::Store(i),
            SyncStage::ReadItem(_, id) => a matches SyncAction::ReadItem(s) && s@ == reading_item(
                id as int,
            ),
            SyncStage::Remember => a matches SyncAction::Execute(s) && s@ == remembering(
                self.account_id,
                self.folder,
                self.new_last() as int,
            ),
            SyncStage::Filter => a matches SyncAction::Execute(s) && s@ == filtering(
                self.account_id,
            ),
            SyncStage::AskPurge => a matches SyncAction::AskPurge(s) && s@
                == reading_purge_settings(self.account_id),
            SyncStage::Purge(days, permanent) => a == (SyncAction::Purge { days, permanent }),
            SyncStage::Done => a is Finish,
            SyncStage::Failed => a is Fail,
        }
    }
}

/// Begins to synchronize a folder.
pub fn sync_folder(
    account_id: i64,
    folder: &str,
    offset: Option<u32>,
    leave_on_server: Option<bool>,
) -> (r: Syncing)
    ensures
        r@ == SyncingView::start(account_id as int, folder@, offset, leave_on_server),
        r@.valid(),
        leave_on_server matches Some(b) ==> r.plan.leave_on_server == b,
        leave_on_server is None ==> r.plan.leave_on_server,
        offset matches Some(k) ==> r.plan.offset == k,
        offset is None ==> r.plan.offset == 0,
        r.account_id == account_id,
        r.folder@ == folder@,
        r.uids@.len() == 0,
        r.items@.len() == 0,
{
    let offset: u32 = match offset {
        Some(k) => k,
        None => 0,
    };
    let leave_on_server = match leave_on_server {
        Some(b) => b,
        None => true,
    };
    let r = Syncing {
        account_id,
        folder: folder.to_owned(),
        plan: SyncPlan { offset, leave_on_server, last_uid: 0 },
        uid_next: 0,
        uids: Vec::new(),
        max_uid: 0,
        items: Vec::new(),
        stage: if offset == 0 {
            SyncStage::AskLast
        } else {
            SyncStage::Fetch
        },
    };
    assert(r@.items =~= Seq::<NotifView>::empty());
    r
}

impl Syncing {
    fn stage_after_filter(&self) -> (r: SyncStage)
        ensures
            r == self@.after_filter(),
    {
        if same_str(self.folder.as_str(), "INBOX") && self.plan.offset == 0 && self.plan.last_uid
            > 0 {
            SyncStage::AskPurge
        } else {
            SyncStage::Done
        }
    }

    fn stage_after_remember(&self) -> (r: SyncStage)
        ensures
            r == self@.after_remember(),
    {
        if self.uids.len() > 0 {
            SyncStage::Filter
        } else {
            self.stage_after_filter()
        }
    }

    fn last(&self) -> (r: u32)
        ensures
            r == self@.new_last(),
    {
        if self.plan.offset == 0 && self.plan.last_uid == 0 && self.uid_next > 0 {
            self.uid_next - 1
        } else {
            self.max_uid
        }
    }

    fn stage_when_stored(&self, i: usize) -> (r: SyncStage)
        ensures
            r == self@.when_stored(i as int),
    {
        if i < self.uids.len() {
            SyncStage::Store(i)
        } else if self.last() > self.plan.last_uid {
            SyncStage::Remember
        } else {
            self.stage_after_remember()
        }
    }

    /// What to do next.
    pub fn action(&self) -> (r: SyncAction)
        ensures
            self@.wants(r),
    {
        match self.stage {
            SyncStage::AskLast => SyncAction::AskLast(
                Statement::new(
                    "SELECT last_uid FROM folder_state WHERE account_id=?1 AND folder=?2",
                ).number(self.account_id).text(self.folder.as_str()),
            ),
            SyncStage::Fetch => {
                if self.plan.offset == 0 && self.plan.last_uid > 0 {
                    SyncAction::Fetch(SyncFetch::New { last_uid: self.plan.last_uid })
                } else {
                    SyncAction::Fetch(
                        SyncFetch::Window { limit: WINDOW, offset: self.plan.offset },
                    )
                }
            },
            SyncStage::Store(i) => SyncAction::Store(i),
            SyncStage::ReadItem(_, id) => SyncAction::ReadItem(item_query(id)),
            SyncStage::Remember => SyncAction::Execute(
                Statement::new(
                    "INSERT INTO folder_state (account_id, folder, last_uid) VALUES (?1,?2,?3)
                 ON CONFLICT(account_id, folder) DO UPDATE SET last_uid=excluded.last_uid",
                ).number(self.account_id).text(self.folder.as_str()).number(self.last() as i64),
            ),
            SyncStage::Filter => SyncAction::Execute(filter_blacklisted_to_spam(self.account_id)),
            SyncStage::AskPurge => SyncAction::AskPurge(purge_settings_query(self.account_id)),
            SyncStage::Purge(days, permanent) => SyncAction::Purge { days, permanent },
            SyncStage::Done => SyncAction::Finish,
            SyncStage::Failed => SyncAction::Fail,
        }
    }

    /// Takes the number of the last message known, if the database holds one.
    pub fn on_last(self, stored: Option<i64>) -> (r: Syncing)
        requires
            self@.valid(),
            self.stage == SyncStage::AskLast,
        ensures
            r@ == self@.after_last(stored),
            r@.valid(),
            r.plan.leave_on_server == self.plan.leave_on_server,
            r.plan.offset == self.plan.offset,
            r.account_id == self.account_id,
            r.folder@ == self.folder@,
            stored matches Some(n) ==> (0 <= n <= u32::MAX ==> r.plan.last_uid == n),
            stored is None ==> r.plan.last_uid == 0,
    {
        let last_uid: u32 = match stored {
            Some(n) => #[verifier::truncate]
            (n as u32),
            None => 0,
        };
        let plan = SyncPlan { last_uid, ..self.plan };
        Syncing { plan, max_uid: last_uid, stage: SyncStage::Fetch, ..self }
    }

    /// Takes the numbers of the messages that were fetched, and the number that the server will give
    /// next, 0 if it is not known.
    pub fn on_fetched(self, uids: Vec<u32>, uid_next: u32) -> (r: Syncing)
        requires
            self@.valid(),
            self.stage == SyncStage::Fetch,
        ensures
            r@ == self@.after_fetch(uids@, uid_next),
            r@.valid(),
            r.plan.leave_on_server == self.plan.leave_on_server,
            r.plan.offset == self.plan.offset,
            r.account_id == self.account_id,
            r.folder@ == self.folder@,
            r.plan.last_uid == self.plan.last_uid,
            r.uids@ == uids@,
            r.uid_next == uid_next,
    {
        let s = Syncing { uids, uid_next, ..self };
        let stage = s.stage_when_stored(0);
        assert(uids@.take(0) =~= Seq::<u32>::empty());
        assert(uids@.len() == 0 ==> uids@ =~= Seq::<u32>::empty());
        Syncing { stage, ..s }
    }

    /// Goes on after the messages could not be fetched.
    pub fn on_fetch_error(self, e: &str) -> (r: Syncing)
        requires
            self@.valid(),
            self.stage == SyncStage::Fetch,
        ensures
            r@ == self@.after_fetch_error(e@),
            r@.valid(),
            r.plan.leave_on_server == self.plan.leave_on_server,
            r.plan.offset == self.plan.offset,
            r.account_id == self.account_id,
            r.folder@ == self.folder@,
            r.plan.last_uid == self.plan.last_uid,
    {
        let stage = if folder_missing(e) {
            SyncStage::Done
        } else {
            SyncStage::Failed
        };
        Syncing { stage, ..self }
    }

    /// Goes on after a message has been stored: it was new and has this id, or it was not new or
    /// could not be stored.
    pub fn on_stored(self, new_id: Option<i64>) -> (r: Syncing)
        requires
            self@.valid(),
            self.stage is Store,
        ensures
            r@ == self@.after_store(self.stage->Store_0 as int, new_id),
            r@.valid(),
            r.plan.leave_on_server == self.plan.leave_on_server,
            r.plan.offset == self.plan.offset,
            r.account_id == self.account_id,
            r.folder@ == self.folder@,
            r.plan.last_uid == self.plan.last_uid,
    {
        let i: usize = match self.stage {
            SyncStage::Store(i) => i,
            _ => 0,
        };
        let total: usize = self.uids.len();
        let uid: u32 = self.uids[i];
        proof {
            lemma_highest_next(self.plan.last_uid, self.uids@, i as int);
        }
        let max_uid: u32 = if uid > self.max_uid {
            uid
        } else {
            self.max_uid
        };
        let s = Syncing { max_uid, ..self };
        let stage = match new_id {
            Some(id) => SyncStage::ReadItem(i, id),
            None => s.stage_when_stored(i + 1),
        };
        assert(i + 1 == total ==> s.uids@.take(i + 1) =~= s.uids@);
        Syncing { stage, ..s }
    }

    /// Goes on after a new message has been read, if it could be.
    pub fn on_item(self, item: Option<NotifItem>) -> (r: Syncing)
        requires
            self@.valid(),
            self.stage is ReadItem,
        ensures
            r@ == self@.after_item(
                self.stage->ReadItem_0 as int,
                match item {
                    Some(n) => Some(n@),
                    None => None,
                },
            ),
            r@.valid(),
            r.plan.leave_on_server == self.plan.leave_on_server,
            r.plan.offset == self.plan.offset,
            r.account_id == self.account_id,
            r.folder@ == self.folder@,
            r.plan.last_uid == self.plan.last_uid,
            item matches Some(n) ==> r.items@ == self.items@.push(n),
            item is None ==> r.items@ == self.items@,
    {
        let ghost before = self@;
        let i: usize = match self.stage {
            SyncStage::ReadItem(i, _) => i,
            _ => 0,
        };
        let total: usize = self.uids.len();
        let Syncing { account_id, folder, plan, uid_next, uids, max_uid, mut items, stage: _ } = self;
        let ghost shown = items@;
        if let Some(n) = item {
            items.push(n);
            assert(notif_views(items@) =~= notif_views(shown).push(n@));
        }
        let s = Syncing {
            account_id,
            folder,
            plan,
            uid_next,
            uids,
            max_uid,
            items,
            stage: SyncStage::Done,
        };
        let stage = s.stage_when_stored(i + 1);
        assert(i + 1 == total ==> s.uids@.take(i + 1) =~= s.uids@);
        Syncing { stage, ..s }
    }

    /// Goes on after a statement has been executed, or old messages have been removed.
    pub fn on_executed(self) -> (r: Syncing)
        requires
            self@.valid(),
            self.stage == SyncStage::Remember || self.stage == SyncStage::Filter
                || self.stage is Purge,
        ensures
            r@ == self@.after_executed(),
            r@.valid(),
            r.plan.leave_on_server == self.plan.leave_on_server,
            r.plan.offset == self.plan.offset,
            r.account_id == self.account_id,
            r.folder@ == self.folder@,
            r.plan.last_uid == self.plan.last_uid,
    {
        let stage = match self.stage {
            SyncStage::Remember => self.stage_after_remember(),
            SyncStage::Filter => self.stage_after_filter(),
            _ => SyncStage::Done,
        };
        Syncing { stage, ..self }
    }

    /// Takes what is to be done with old messages, if it could be read: after how many days they are
    /// removed, if they are, and whether for good.
    pub fn on_purge_settings(self, settings: Option<(Option<i64>, i32)>) -> (r: Syncing)
        requires
            self@.valid(),
            self.stage == SyncStage::AskPurge,
        ensures
            r@ == self@.after_purge_settings(settings),
            r@.valid(),
            r.plan.leave_on_server == self.plan.leave_on_server,
            r.plan.offset == self.plan.offset,
            r.account_id == self.account_id,
            r.folder@ == self.folder@,
            r.plan.last_uid == self.plan.last_uid,
    {
        let stage = match settings {
            Some((Some(days), permanent)) => SyncStage::Purge(days, permanent != 0),
            _ => SyncStage::Done,
        };
        Syncing { stage, ..self }
    }

    /// What the user is told of.
    pub fn finish(self) -> (r: Vec<NotifItem>)
        ensures
            notif_views(r@) == self@.told(),
            self.plan.offset == 0 && self.plan.last_uid == 0 ==> r@.len() == 0,
            self.plan.offset > 0 || self.plan.last_uid > 0 ==> r@ == self.items@,
    {
        if self.plan.offset == 0 && self.plan.last_uid == 0 {
            let none: Vec<NotifItem> = Vec::new();
            assert(notif_views(none@) =~= Seq::<NotifView>::empty());
            none
        } else {
            self.items
        }
    }
}

proof fn lemma_highest_next(least: u32, uids: Seq<u32>, i: int)
    requires
        0 <= i < uids.len(),
    ensures
        highest(least, uids.take(i + 1)) == (if uids[i] > highest(least, uids.take(i)) {
            uids[i]
        } else {
            highest(least, uids.take(i))
        }),
{
    assert(uids.take(i + 1).drop_last() =~= uids.take(i));
}

/// A synchronization after messages with these numbers have been fetched and stored: which of them
/// were new and have got an id, and what could be read of those.
pub open spec fn after_messages(
    s: SyncingView,
    stored: Seq<(Option<i64>, Option<NotifView>)>,
) -> SyncingView
    decreases stored.len(),
{
    if stored.len() == 0 {
        s
    } else {
        let before = after_messages(s, stored.drop_last());
        let i = stored.len() - 1;
        let (new_id, item) = stored.last();
        let t = before.after_store(i, new_id);
        if new_id is Some {
            t.after_item(i, item)
        } else {
            t
        }
    }
}

/// What could be read of the messages that were new.
pub open spec fn read_items(stored: Seq<(Option<i64>, Option<NotifView>)>) -> Seq<NotifView>
    decreases stored.len(),
{
    if stored.len() == 0 {
        Seq::empty()
    } else {
        let front = read_items(stored.drop_last());
        match stored.last() {
            (Some(_), Some(n)) => front.push(n),
            _ => front,
        }
    }
}

/// When so many of the messages that were fetched have had their turn to be stored, the new ones that
/// could be read are listed in their order, and the largest number so far is known.
pub proof fn law_sync(
    s: SyncingView,
    uids: Seq<u32>,
    uid_next: u32,
    stored: Seq<(Option<i64>, Option<NotifView>)>,
)
    requires
        s.valid(),
        s.stage == SyncStage::Fetch,
        s.items.len() == 0,
        stored.len() <= uids.len(),
        uids.len() <= usize::MAX,
    ensures
        ({
            let t = after_messages(s.after_fetch(uids, uid_next), stored);
            &&& t.plan == s.plan
            &&& t.uids == uids
            &&& t.uid_next == uid_next
            &&& t.items == read_items(stored)
            &&& t.max_uid == highest(s.plan.last_uid, uids.take(stored.len() as int))
            &&& t.stage == t.when_stored(stored.len() as int)
        }),
    decreases stored.len(),
{
    if stored.len() == 0 {
        assert(uids.take(0) =~= Seq::<u32>::empty());
        assert(s.items =~= Seq::<NotifView>::empty());
    } else {
        let front = stored.drop_last();
        law_sync(s, uids, uid_next, front);
        lemma_highest_next(s.plan.last_uid, uids, front.len() as int);
    }
}

/// After the first synchronization of a folder the next one fetches only messages that the server
/// had not numbered yet.
pub proof fn law_first_sync(plan: SyncPlan, uid_next: u32, max_uid: u32, found: Seq<u32>)
    requires
        plan.initial(),
        uid_next > 0,
    ensures
        forall|i: int|
            0 <= i < newer(found, last_known(plan, uid_next, max_uid)).len() ==> #[trigger] newer(
                found,
                last_known(plan, uid_next, max_uid),
            )[i] >= uid_next,
{
    let last = last_known(plan, uid_next, max_uid);
    lemma_newer(found, last);
    assert forall|i: int| 0 <= i < newer(found, last).len() implies #[trigger] newer(found, last)[i]
        >= uid_next by {
        assert(newer(found, last).contains(newer(found, last)[i]));
    }
}

/// The number of the last message known never falls.
pub proof fn law_last_uid_rises(plan: SyncPlan, uid_next: u32, uids: Seq<u32>)
    ensures
        last_known(plan, uid_next, highest(plan.last_uid, uids)) >= plan.last_uid,
{
    lemma_highest(plan.last_uid, uids);
}

proof fn lemma_highest(least: u32, uids: Seq<u32>)
    ensures
        highest(least, uids) >= least,
        highest(least, uids) == least || uids.contains(highest(least, uids)),
        forall|i: int| 0 <= i < uids.len() ==> #[trigger] uids[i] <= highest(least, uids),
    decreases uids.len(),
{
    if uids.len() > 0 {
        let t = uids.drop_last();
        lemma_highest(least, t);
        let h = highest(least, t);
        if t.contains(h) {
            let i = choose|i: int| 0 <= i < t.len() && t[i] == h;
            assert(uids[i] == h);
        }
        assert(uids[uids.len() - 1] == uids.last());
        assert forall|i: int| 0 <= i < uids.len() implies #[trigger] uids[i] <= highest(
            least,
            uids,
        ) by {
            if i < t.len() {
                assert(t[i] == uids[i]);
            }
        }
    }
}

/// No message that an incremental synchronization has received is new to the next one.
pub proof fn law_received_is_known(plan: SyncPlan, uid_next: u32, uids: Seq<u32>, found: Seq<u32>)
    requires
        plan.incremental(),
    ensures
        forall|i: int|
            0 <= i < uids.len() ==> !newer(
                found,
                last_known(plan, uid_next, highest(plan.last_uid, uids)),
            ).contains(#[trigger] uids[i]),
{
    lemma_highest(plan.last_uid, uids);
    let last = last_known(plan, uid_next, highest(plan.last_uid, uids));
    lemma_newer(found, last);
}

/// When the server has sent the messages of a batch, in whatever order and perhaps not all of them
/// but the last, the next synchronization begins after the batch.
pub proof fn law_sync_moves_past_batch(
    plan: SyncPlan,
    uid_next: u32,
    found: Seq<u32>,
    uids: Seq<u32>,
)
    requires
        plan.incremental(),
        batch(found, plan.last_uid).len() > 0,
        forall|i: int|
            0 <= i < uids.len() ==> batch(found, plan.last_uid).contains(#[trigger] uids[i]),
        uids.contains(batch(found, plan.last_uid).last()),
    ensures
        last_known(plan, uid_next, highest(plan.last_uid, uids)) == batch(
            found,
            plan.last_uid,
        ).last(),
{
    let b = batch(found, plan.last_uid);
    let h = highest(plan.last_uid, uids);
    lemma_highest(plan.last_uid, uids);
    law_batch(found, plan.last_uid);
    let k = choose|k: int| 0 <= k < uids.len() && uids[k] == b.last();
    assert(uids[k] <= h);
    assert(b[b.len() - 1] > plan.last_uid);
    assert(uids.contains(h));
    let j = choose|j: int| 0 <= j < uids.len() && uids[j] == h;
    assert(b.contains(uids[j]));
    let i = choose|i: int| 0 <= i < b.len() && b[i] == h;
    assert(b[i] <= b[b.len() - 1]);
}

// ---------------------------------------------------------------------------------------------
// Fetching a whole folder
// ---------------------------------------------------------------------------------------------

/// How far the work has come.
#[derive(Clone, Copy, PartialEq, Eq, Structural)]
pub enum FullStage {
    /// It is to be found out whether the user has had enough.
    Check,
    /// A batch is to be fetched.
    Fetch,
    /// The message with this place in the batch is to be stored.
    Store(usize),
    /// The messages of the batch are to be marked as deleted.
    Mark,
    /// What is marked is to be removed.
    Expunge,
    /// The user is to be told how far the work has come.
    Report,
    /// Nothing is left to do.
    Done,
}

/// Fetching all messages of a folder, from the newest to the oldest.
pub struct FullSync {
    /// How many messages the folder had when it was selected.
    pub total: u32,
    /// Whether the messages stay on the server.
    pub leave_on_server: bool,
    /// How many of the newest have been fetched.
    pub offset: u32,
    /// How many were new.
    pub inserted: u32,
    /// The numbers of the messages in the batch.
    pub uids: Vec<u32>,
    /// The ids of those that were new.
    pub new_ids: Vec<i64>,
    pub stage: FullStage,
}

/// What is known of the work.
#[verifier::ext_equal]
pub struct FullSyncView {
    pub total: int,
    pub leave_on_server: bool,
    pub offset: int,
    pub inserted: int,
    pub uids: Seq<u32>,
    pub new_ids: Seq<i64>,
    pub stage: FullStage,
}

impl View for FullSync {
    type V = FullSyncView;

    open spec fn view(&self) -> FullSyncView {
        FullSyncView {
            total: self.total as int,
            leave_on_server: self.leave_on_server,
            offset: self.offset as int,
            inserted: self.inserted as int,
            uids: self.uids@,
            new_ids: self.new_ids@,
            stage: self.stage,
        }
    }
}

/// What to do next.
pub enum FullAction {
    /// Find out whether the user has had enough.
    Check,
    /// Fetch these messages.
    Fetch { set: String },
    /// Store the message with this place in the batch.
    Store(usize),
    /// Mark these messages as deleted.
    Mark { set: String },
    /// Remove what is marked.
    Expunge,
    /// Tell the user that so many messages of so many have been fetched and so many were new.
    Report { fetched: u32, total: u32, inserted: u32 },
    /// End.
    Finish,
}

impl FullSyncView {
    /// The work at its beginning.
    pub open spec fn start(total: int, leave_on_server: bool) -> FullSyncView {
        FullSyncView {
            total,
            leave_on_server,
            offset: 0,
            inserted: 0,
            uids: Seq::empty(),
            new_ids: Seq::empty(),
            stage: FullStage::Check,
        }
    }

    /// At another stage.
    pub open spec fn at(self, stage: FullStage) -> FullSyncView {
        FullSyncView { stage, ..self }
    }

    /// After it has been found out whether the user has had enough.
    pub open spec fn after_check(self, cancelled: bool) -> FullSyncView {
        if cancelled || window(self.total, WINDOW as int, self.offset) is None {
            self.at(FullStage::Done)
        } else {
            self.at(FullStage::Fetch)
        }
    }

    /// After messages with these numbers have been fetched; none if they could not be.
    pub open spec fn after_fetch(self, uids: Seq<u32>) -> FullSyncView {
        let s = FullSyncView { uids, new_ids: Seq::empty(), ..self };
        if uids.len() == 0 {
            s.at(FullStage::Done)
        } else {
            s.at(FullStage::Store(0))
        }
    }

    /// With the batch counted.
    pub open spec fn counted(self) -> FullSyncView {
        FullSyncView {
            offset: self.offset + WINDOW,
            inserted: self.inserted + self.new_ids.len(),
            stage: FullStage::Report,
            ..self
        }
    }

    /// After a message has been stored: it was new and has this id, or it was not.
    pub open spec fn after_store(self, i: int, new_id: Option<i64>) -> FullSyncView {
        let s = match new_id {
            Some(id) => FullSyncView { new_ids: self.new_ids.push(id), ..self },
            None => self,
        };
        if i + 1 < s.uids.len() {
            s.at(FullStage::Store((i + 1) as usize))
        } else if s.leave_on_server {
            s.counted()
        } else {
            s.at(FullStage::Mark)
        }
    }

    /// After marking, which may have failed: what could be marked is removed.
    pub open spec fn after_mark(self, ok: bool) -> FullSyncView {
        if ok {
            self.at(FullStage::Expunge)
        } else {
            self.counted()
        }
    }

    /// After the user has been told, and it has been found out whether the user has had enough.
    pub open spec fn after_report(self, cancelled: bool) -> FullSyncView {
        self.at(
            if cancelled {
                FullStage::Done
            } else {
                FullStage::Check
            },
        )
    }

    /// The work can be under way like this.
    pub open spec fn valid(self) -> bool {
        match self.stage {
            FullStage::Fetch => self.offset < self.total,
            FullStage::Store(i) => i < self.uids.len() && self.new_ids.len() <= i,
            FullStage::Mark => !self.leave_on_server && self.uids.len() > 0,
            FullStage::Expunge => !self.leave_on_server && self.uids.len() > 0,
            _ => true,
        }
    }

    /// The batch can be counted.
    pub open spec fn countable(self) -> bool {
        self.offset + WINDOW <= u32::MAX && self.inserted + self.new_ids.len() <= u32::MAX
    }

    /// What is to be done next.
    pub open spec fn wants(self, a: FullAction) -> bool {
        match self.stage {
            FullStage::Check => a is Check,
            FullStage::Fetch => a matches FullAction::Fetch { set } && window(
                self.total,
                WINDOW as int,
                self.offset,
            ) matches Some((first, last)) && set@ == span_set(first as nat, last as nat),
            FullStage::Store(i) => a == FullAction::Store(i),
            FullStage::Mark => a matches FullAction::Mark { set } && set@ == number_set(self.uids),
            FullStage::Expunge => a is Expunge,
            FullStage::Report => a matches FullAction::Report { fetched, total, inserted }
                && fetched == (if self.offset <= self.total {
                self.offset
            } else {
                self.total
            }) && total == self.total && inserted == self.inserted,
            FullStage::Done => a is Finish,
        }
    }
}

/// Begins to fetch all messages of a folder that has so many.
pub fn full_sync_folder(total: u32, leave_on_server: bool) -> (r: FullSync)
    ensures
        r@ == FullSyncView::start(total as int, leave_on_server),
        r@.valid(),
        r.leave_on_server == leave_on_server,
        r.total == total,
        r.offset == 0 && r.inserted == 0,
        r.stage == FullStage::Check,
{
    let r = FullSync {
        total,
        leave_on_server,
        offset: 0,
        inserted: 0,
        uids: Vec::new(),
        new_ids: Vec::new(),
        stage: FullStage::Check,
    };
    assert(r@ =~= FullSyncView::start(total as int, leave_on_server));
    r
}

impl FullSync {
    /// What to do next.
    pub fn action(&self) -> (r: FullAction)
        requires
            self@.valid(),
        ensures
            self@.wants(r),
            self.leave_on_server ==> !(r is Mark) && !(r is Expunge),
    {
        match self.stage {
            FullStage::Check => FullAction::Check,
            FullStage::Fetch => match fetch_window(self.total, WINDOW, self.offset) {
                Some((first, last)) => FullAction::Fetch { set: sequence_set(first, last) },
                None => FullAction::Finish,
            },
            FullStage::Store(i) => FullAction::Store(i),
            FullStage::Mark => FullAction::Mark { set: uid_set(self.uids.as_slice()) },
            FullStage::Expunge => FullAction::Expunge,
            FullStage::Report => FullAction::Report {
                fetched: if self.offset <= self.total {
                    self.offset
                } else {
                    self.total
                },
                total: self.total,
                inserted: self.inserted,
            },
            FullStage::Done => FullAction::Finish,
        }
    }

    /// Goes on after it has been found out whether the user has had enough.
    pub fn on_check(self, cancelled: bool) -> (r: FullSync)
        requires
            self.stage == FullStage::Check,
        ensures
            r@ == self@.after_check(cancelled),
            r@.valid(),
            r.leave_on_server == self.leave_on_server,
            r.total == self.total,
            cancelled ==> r.stage == FullStage::Done,
            r.stage == FullStage::Fetch <==> !cancelled && self.offset < self.total,
            r.inserted == self.inserted && r.offset == self.offset,
    {
        let stage = if cancelled || self.total <= self.offset {
            FullStage::Done
        } else {
            FullStage::Fetch
        };
        FullSync { stage, ..self }
    }

    /// Goes on after messages with these numbers have been fetched; none if they could not be.
    pub fn on_fetched(self, uids: Vec<u32>) -> (r: FullSync)
        requires
            self.stage == FullStage::Fetch,
        ensures
            r@ == self@.after_fetch(uids@),
            r@.valid(),
            r.leave_on_server == self.leave_on_server,
            r.total == self.total,
            r.uids@ == uids@,
            uids@.len() == 0 <==> r.stage == FullStage::Done,
    {
        let stage = if uids.len() == 0 {
            FullStage::Done
        } else {
            FullStage::Store(0)
        };
        let r = FullSync { uids, new_ids: Vec::new(), stage, ..self };
        assert(r@ =~= self@.after_fetch(uids@));
        r
    }

    fn counted(self) -> (r: FullSync)
        requires
            self@.countable(),
        ensures
            r@ == self@.counted(),
    {
        let count: usize = self.new_ids.len();
        let offset: u32 = self.offset + WINDOW;
        let inserted: u32 = self.inserted + count as u32;
        FullSync { offset, inserted, stage: FullStage::Report, ..self }
    }

    /// Goes on after a message has been stored: it was new and has this id, or it was not new or
    /// could not be stored. With the last one of a batch that stays on the server the batch is
    /// counted.
    pub fn on_stored(self, new_id: Option<i64>) -> (r: FullSync)
        requires
            self@.valid(),
            self.stage is Store,
            self@.after_store(self.stage->Store_0 as int, new_id).stage == FullStage::Report
                ==> self.offset + WINDOW <= u32::MAX && self.inserted + self.new_ids@.len() + (
            if new_id is Some {
                1int
            } else {
                0int
            }) <= u32::MAX,
        ensures
            r@ == self@.after_store(self.stage->Store_0 as int, new_id),
            r@.valid(),
            r.leave_on_server == self.leave_on_server,
            r.total == self.total,
            r.stage == FullStage::Mark ==> !self.leave_on_server,
            r.uids@ == self.uids@,
    {
        let ghost start = self@;
        let i: usize = match self.stage {
            FullStage::Store(i) => i,
            _ => 0,
        };
        let n: usize = self.uids.len();
        let FullSync { total, leave_on_server, offset, inserted, uids, mut new_ids, stage: _ } = self;
        if let Some(id) = new_id {
            new_ids.push(id);
        }
        let stage = if i + 1 < n {
            FullStage::Store(i + 1)
        } else {
            FullStage::Mark
        };
        let s = FullSync { total, leave_on_server, offset, inserted, uids, new_ids, stage };
        if i + 1 < n || !leave_on_server {
            assert(s@ =~= start.after_store(i as int, new_id));
            s
        } else {
            let r = s.counted();
            assert(r@ =~= start.after_store(i as int, new_id));
            r
        }
    }

    /// Goes on after marking, which may have failed; then the batch is counted.
    pub fn on_marked(self, ok: bool) -> (r: FullSync)
        requires
            self@.valid(),
            self.stage == FullStage::Mark,
            !ok ==> self@.countable(),
        ensures
            r@ == self@.after_mark(ok),
            r@.valid(),
            r.leave_on_server == self.leave_on_server,
            r.total == self.total,
            ok ==> r.stage == FullStage::Expunge,
            !ok ==> r.stage == FullStage::Report && r.offset == self.offset + 100,
    {
        if ok {
            FullSync { stage: FullStage::Expunge, ..self }
        } else {
            self.counted()
        }
    }

    /// Goes on after removing: the batch is counted.
    pub fn on_expunged(self) -> (r: FullSync)
        requires
            self@.valid(),
            self.stage == FullStage::Expunge,
            self@.countable(),
        ensures
            r@ == self@.counted(),
            r@.valid(),
            r.leave_on_server == self.leave_on_server,
            r.total == self.total,
            r.offset == self.offset + 100,
            r.inserted == self.inserted + self.new_ids@.len(),
            r.stage == FullStage::Report,
    {
        self.counted()
    }

    /// Goes on after the user has been told, and it has been found out whether the user has had
    /// enough.
    pub fn on_reported(self, cancelled: bool) -> (r: FullSync)
        requires
            self.stage == FullStage::Report,
        ensures
            r@ == self@.after_report(cancelled),
            r@.valid(),
            r.leave_on_server == self.leave_on_server,
            r.total == self.total,
            cancelled ==> r.stage == FullStage::Done,
            !cancelled ==> r.stage == FullStage::Check,
            r.offset == self.offset && r.inserted == self.inserted,
    {
        let stage = if cancelled {
            FullStage::Done
        } else {
            FullStage::Check
        };
        FullSync { stage, ..self }
    }
}

/// Messages are marked as deleted only when the last one of their batch has had its turn to be
/// stored, whatever came of it, and never if they stay on the server; they are removed only after
/// they have been marked.
pub proof fn law_marked_last(
    s: FullSyncView,
    i: int,
    new_id: Option<i64>,
    uids: Seq<u32>,
    cancelled: bool,
    ok: bool,
)
    requires
        0 <= i < s.uids.len(),
    ensures
        s.after_store(i, new_id).stage == FullStage::Mark <==> i + 1 == s.uids.len()
            && !s.leave_on_server,
        s.after_store(i, new_id).stage != FullStage::Expunge,
        s.after_mark(ok).stage == FullStage::Expunge <==> ok,
        s.after_check(cancelled).stage == FullStage::Fetch || s.after_check(cancelled).stage
            == FullStage::Done,
        s.after_fetch(uids).stage == FullStage::Store(0) || s.after_fetch(uids).stage
            == FullStage::Done,
        s.after_mark(ok).stage != FullStage::Mark,
        s.counted().stage == FullStage::Report,
        s.after_report(cancelled).stage == FullStage::Check || s.after_report(cancelled).stage
            == FullStage::Done,
{
}

/// The place `n` of a folder of `total` messages lies in the `k`-th window.
pub open spec fn in_window(total: int, k: int, n: int) -> bool {
    window(total, WINDOW as int, WINDOW * k) matches Some((first, last)) && first <= n <= last
}

/// Every message of a folder is asked for, in exactly one of the windows that follow each other.
pub proof fn law_full_sync_covers(total: int, n: int)
    requires
        1 <= n <= total,
    ensures
        in_window(total, (total - n) / WINDOW as int, n),
        forall|k: int| 0 <= k && in_window(total, k, n) ==> k == (total - n) / WINDOW as int,
{
    assert forall|k: int| 0 <= k && in_window(total, k, n) implies k == (total - n)
        / WINDOW as int by {}
}

/// The work ends: after `k` batches something is left to ask for exactly if the folder has more
/// messages than they asked for.
pub proof fn law_full_sync_ends(total: int, k: int)
    requires
        0 <= k,
    ensures
        window(total, WINDOW as int, WINDOW * k) is Some <==> WINDOW * k < total,
{
}

/// A batch that was answered: the numbers of its messages with the id that each has got, if it was
/// new, and whether marking them as deleted succeeds, if that is tried.
pub struct Batch {
    pub uids: Seq<u32>,
    pub ids: Seq<Option<i64>>,
    pub marked: bool,
}

/// How many messages of a batch were new.
pub open spec fn new_of(ids: Seq<Option<i64>>) -> nat
    decreases ids.len(),
{
    if ids.len() == 0 {
        0
    } else {
        new_of(ids.drop_last()) + if ids.last() is Some {
            1nat
        } else {
            0nat
        }
    }
}

/// How many messages of some batches were new.
pub open spec fn new_in(batches: Seq<Batch>) -> nat
    decreases batches.len(),
{
    if batches.len() == 0 {
        0
    } else {
        new_in(batches.drop_last()) + new_of(batches.last().ids)
    }
}

/// The work after the messages of a batch have been stored with these results.
pub open spec fn after_stores(s: FullSyncView, ids: Seq<Option<i64>>) -> FullSyncView
    decreases ids.len(),
{
    if ids.len() == 0 {
        s
    } else {
        after_stores(s, ids.drop_last()).after_store(ids.len() - 1, ids.last())
    }
}

/// The work after one more batch, from where it is found out whether the user has had enough to where
/// it is again.
pub open spec fn after_batch(s: FullSyncView, b: Batch) -> FullSyncView {
    let stored = after_stores(s.after_check(false).after_fetch(b.uids), b.ids);
    let counted = if s.leave_on_server {
        stored
    } else if b.marked {
        stored.after_mark(true).counted()
    } else {
        stored.after_mark(false)
    };
    counted.after_report(false)
}

/// The work after some batches.
pub open spec fn after_batches(s: FullSyncView, batches: Seq<Batch>) -> FullSyncView
    decreases batches.len(),
{
    if batches.len() == 0 {
        s
    } else {
        after_batch(after_batches(s, batches.drop_last()), batches.last())
    }
}

/// When all batches of a folder have been answered, the result is the number of messages that were
/// new; and it is so after each batch before.
pub proof fn law_full_sync_counts(total: int, leave_on_server: bool, batches: Seq<Batch>)
    requires
        forall|k: int|
            0 <= k < batches.len() ==> 0 < (#[trigger] batches[k]).uids.len() <= usize::MAX
                && batches[k].ids.len() == batches[k].uids.len(),
        batches.len() > 0 ==> WINDOW * (batches.len() - 1) < total,
    ensures
        ({
            let t = after_batches(FullSyncView::start(total, leave_on_server), batches);
            &&& t.stage == FullStage::Check
            &&& t.inserted == new_in(batches)
            &&& t.offset == WINDOW * batches.len()
            &&& t.total == total
            &&& t.leave_on_server == leave_on_server
            &&& t.after_check(false).inserted == new_in(batches)
            &&& t.after_check(false).stage == FullStage::Done <==> WINDOW * batches.len() >= total
        }),
    decreases batches.len(),
{
    if batches.len() > 0 {
        let front = batches.drop_last();
        let b = batches.last();
        assert(b == batches[batches.len() - 1]);
        assert forall|k: int| 0 <= k < front.len() implies 0 < (#[trigger] front[k]).uids.len()
            <= usize::MAX && front[k].ids.len() == front[k].uids.len() by {
            assert(front[k] == batches[k]);
        }
        law_full_sync_counts(total, leave_on_server, front);
        let s = after_batches(FullSyncView::start(total, leave_on_server), front);
        let fetched = s.after_check(false).after_fetch(b.uids);
        lemma_after_stores(fetched, b.ids);
    }
}

proof fn lemma_after_stores(s: FullSyncView, ids: Seq<Option<i64>>)
    requires
        s.stage == FullStage::Store(0),
        s.new_ids.len() == 0,
        0 < s.uids.len() <= usize::MAX,
        ids.len() <= s.uids.len(),
    ensures
        ({
            let t = after_stores(s, ids);
            &&& t.new_ids.len() == new_of(ids)
            &&& t.uids == s.uids
            &&& t.total == s.total
            &&& t.leave_on_server == s.leave_on_server
            &&& if ids.len() < s.uids.len() {
                t.stage == FullStage::Store(ids.len() as usize) && t.offset == s.offset
                    && t.inserted == s.inserted
            } else if s.leave_on_server {
                t.stage == FullStage::Report && t.offset == s.offset + WINDOW && t.inserted
                    == s.inserted + new_of(ids)
            } else {
                t.stage == FullStage::Mark && t.offset == s.offset && t.inserted == s.inserted
            }
        }),
    decreases ids.len(),
{
    if ids.len() > 0 {
        lemma_after_stores(s, ids.drop_last());
    }
}

} // verus!
