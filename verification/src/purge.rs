//! Removing old messages from the server.
use vstd::prelude::*;

use crate::imap::{number_set, uid_set};
use crate::statements::{sql, Statement, StatementView};

verus! {

/// The seconds of a day.
pub const DAY: i64 = 86400;

/// The statement that finds the messages of the inbox that were sent before a time.
pub open spec fn finding_old(account_id: int, cutoff: int) -> StatementView {
    sql(
        "SELECT id, uid FROM emails WHERE account_id=?1 AND folder='INBOX' AND date_ts > 0 AND date_ts < ?2"@,
    ).number(account_id).number(cutoff)
}

/// The numbers for which the time `days` before `now` can be computed.
pub open spec fn within_range(now: int, days: int) -> bool {
    i64::MIN <= days * DAY <= i64::MAX && i64::MIN <= now - days * DAY <= i64::MAX
}

/// Asks for the messages of the inbox that are older than so many days.
pub fn old_emails(account_id: i64, now: i64, days: i64) -> (r: Statement)
    requires
        within_range(now as int, days as int),
    ensures
        r@ == finding_old(account_id as int, now - days * DAY),
        r@ == finding_old(account_id as int, now - days * 86400),
{
    let age: i64 = days * DAY;
    let cutoff: i64 = now - age;
    Statement::new(
        "SELECT id, uid FROM emails WHERE account_id=?1 AND folder='INBOX' AND date_ts > 0 AND date_ts < ?2",
    ).number(account_id).number(cutoff)
}

/// The names that a folder for deleted messages may have, in the order in which they are tried.
pub open spec fn trash_names() -> Seq<Seq<char>> {
    seq![
        "Trash"@,
        "INBOX.Trash"@,
        "[Gmail]/Корзина"@,
        "[Gmail]/Trash"@,
        "Удалённые"@,
        "Deleted Messages"@,
        "Deleted Items"@,
    ]
}

/// How many names are tried.
pub const TRASH_NAMES: usize = 7;

fn trash_name(i: usize) -> (r: String)
    requires
        i < TRASH_NAMES,
    ensures
        r@ == trash_names()[i as int],
{
    match i {
        0 => "Trash".to_owned(),
        1 => "INBOX.Trash".to_owned(),
        2 => "[Gmail]/Корзина".to_owned(),
        3 => "[Gmail]/Trash".to_owned(),
        4 => "Удалённые".to_owned(),
        5 => "Deleted Messages".to_owned(),
        _ => "Deleted Items".to_owned(),
    }
}

/// How far the removal has come.
#[derive(Clone, Copy, PartialEq, Eq, Structural)]
pub enum PurgeStage {
    /// The inbox is to be selected.
    Select,
    /// The name with this place in the list is to be looked for.
    Probe(usize),
    /// The messages are to be moved into the folder with this place in the list.
    Move(usize),
    /// They are to be marked as deleted.
    Mark,
    /// What is marked is to be removed.
    Expunge,
    /// Nothing is left to do.
    Done,
}

/// Removing messages from the inbox on the server.
pub struct Purging {
    pub uids: Vec<u32>,
    /// Whether they are removed without being kept in the folder for deleted messages.
    pub permanent: bool,
    pub stage: PurgeStage,
}

/// What to ask of the server next.
pub enum PurgeAction {
    Select { folder: String },
    /// Ask whether there is a folder with this name.
    List { name: String },
    Move { set: String, target: String },
    Mark { set: String },
    Expunge,
    Finish,
}

/// The stage after an answer; `None` if the work ends with the error. An answer to `Probe` says
/// whether there is such a folder, and what comes of `Move` does not matter.
pub open spec fn stage_after(stage: PurgeStage, permanent: bool, ok: bool) -> Option<PurgeStage> {
    match stage {
        PurgeStage::Select => if !ok {
            None
        } else if permanent {
            Some(PurgeStage::Mark)
        } else {
            Some(PurgeStage::Probe(0))
        },
        PurgeStage::Probe(i) => if ok {
            Some(PurgeStage::Move(i))
        } else if i + 1 < TRASH_NAMES {
            Some(PurgeStage::Probe((i + 1) as usize))
        } else {
            Some(PurgeStage::Move(0))
        },
        PurgeStage::Move(_) => Some(PurgeStage::Mark),
        PurgeStage::Mark => if ok {
            Some(PurgeStage::Expunge)
        } else {
            None
        },
        PurgeStage::Expunge => if ok {
            Some(PurgeStage::Done)
        } else {
            None
        },
        PurgeStage::Done => Some(PurgeStage::Done),
    }
}

/// The stage speaks of a name in the list.
pub open spec fn stage_valid(stage: PurgeStage) -> bool {
    match stage {
        PurgeStage::Probe(i) => i < TRASH_NAMES,
        PurgeStage::Move(i) => i < TRASH_NAMES,
        _ => true,
    }
}

impl Purging {
    /// What is to be done next.
    pub open spec fn wants(self, a: PurgeAction) -> bool {
        match self.stage {
            PurgeStage::Select => a matches PurgeAction::Select { folder } && folder@ == "INBOX"@,
            PurgeStage::Probe(i) => a matches PurgeAction::List { name } && name@
                == trash_names()[i as int],
            PurgeStage::Move(i) => a matches PurgeAction::Move { set, target } && set@
                == number_set(self.uids@) && target@ == trash_names()[i as int],
            PurgeStage::Mark => a matches PurgeAction::Mark { set } && set@ == number_set(
                self.uids@,
            ),
            PurgeStage::Expunge => a is Expunge,
            PurgeStage::Done => a is Finish,
        }
    }

    /// What to ask of the server next.
    pub fn action(&self) -> (r: PurgeAction)
        requires
            stage_valid(self.stage),
        ensures
            self.wants(r),
    {
        match self.stage {
            PurgeStage::Select => PurgeAction::Select { folder: "INBOX".to_owned() },
            PurgeStage::Probe(i) => PurgeAction::List { name: trash_name(i) },
            PurgeStage::Move(i) => PurgeAction::Move {
                set: uid_set(self.uids.as_slice()),
                target: trash_name(i),
            },
            PurgeStage::Mark => PurgeAction::Mark { set: uid_set(self.uids.as_slice()) },
            PurgeStage::Expunge => PurgeAction::Expunge,
            PurgeStage::Done => PurgeAction::Finish,
        }
    }

    /// Goes on after an answer of the server; `None` if the work ends with its error.
    pub fn on_answer(self, ok: bool) -> (r: Option<Purging>)
        requires
            stage_valid(self.stage),
        ensures
            match stage_after(self.stage, self.permanent, ok) {
                Some(stage) => r matches Some(p) && p.stage == stage && p.uids@ == self.uids@
                    && p.permanent == self.permanent && stage_valid(stage),
                None => r is None,
            },
    {
        let stage = match self.stage {
            PurgeStage::Select => if !ok {
                return None;
            } else if self.permanent {
                PurgeStage::Mark
            } else {
                PurgeStage::Probe(0)
            },
            PurgeStage::Probe(i) => if ok {
                PurgeStage::Move(i)
            } else if i + 1 < TRASH_NAMES {
                PurgeStage::Probe(i + 1)
            } else {
                PurgeStage::Move(0)
            },
            PurgeStage::Move(_) => PurgeStage::Mark,
            PurgeStage::Mark => if ok {
                PurgeStage::Expunge
            } else {
                return None;
            },
            PurgeStage::Expunge => if ok {
                PurgeStage::Done
            } else {
                return None;
            },
            PurgeStage::Done => PurgeStage::Done,
        };
        Some(Purging { stage, ..self })
    }
}

/// Begins to remove messages; `None` if there are none.
pub fn purge_old_emails_imap(uids: Vec<u32>, permanent: bool) -> (r: Option<Purging>)
    ensures
        match r {
            Some(p) => uids@.len() > 0 && p.uids@ == uids@ && p.permanent == permanent && p.stage
                == PurgeStage::Select,
            None => uids@.len() == 0,
        },
{
    if uids.len() == 0 {
        None
    } else {
        Some(Purging { uids, permanent, stage: PurgeStage::Select })
    }
}

/// The stage after answers, from the first to the last; `None` once the work has ended with an error.
pub open spec fn stage_at(permanent: bool, answers: Seq<bool>) -> Option<PurgeStage>
    decreases answers.len(),
{
    if answers.len() == 0 {
        Some(PurgeStage::Select)
    } else {
        match stage_at(permanent, answers.drop_last()) {
            Some(s) => stage_after(s, permanent, answers.last()),
            None => None,
        }
    }
}

/// Whatever the server answers: messages that are removed for good are never moved, and others are
/// marked as deleted only after they were to be moved into a folder for deleted messages.
pub proof fn law_trash_before_deletion(permanent: bool, answers: Seq<bool>)
    ensures
        permanent ==> !(stage_at(permanent, answers) matches Some(PurgeStage::Move(_))) && !(
        stage_at(permanent, answers) matches Some(PurgeStage::Probe(_))),
        !permanent && answers.len() > 0 && stage_at(permanent, answers) == Some(PurgeStage::Mark)
            ==> stage_at(permanent, answers.drop_last()) matches Some(PurgeStage::Move(_)),
    decreases answers.len(),
{
    if answers.len() > 0 {
        law_trash_before_deletion(permanent, answers.drop_last());
    }
}

/// Messages are moved into the first folder of the list that the server has, or into the first of
/// the list if it has none.
pub proof fn law_first_trash(answers: Seq<bool>, i: usize)
    requires
        stage_at(false, answers) == Some(PurgeStage::Move(i)),
        1 <= answers.len(),
    ensures
        answers.len() <= 1 + TRASH_NAMES,
        answers[0],
        answers.last() ==> i == answers.len() - 2 && forall|j: int|
            1 <= j < answers.len() - 1 ==> !answers[j],
        !answers.last() ==> i == 0 && answers.len() == 1 + TRASH_NAMES && forall|j: int|
            1 <= j < answers.len() ==> !answers[j],
{
    let t = answers.drop_last();
    lemma_probing(t);
    assert(t[0] == answers[0]);
    assert forall|j: int| 1 <= j < answers.len() - 1 implies !answers[j] by {
        assert(t[j] == answers[j]);
    }
}

proof fn lemma_probing(answers: Seq<bool>)
    ensures
        stage_at(false, answers) matches Some(PurgeStage::Probe(i)) ==> {
            &&& answers.len() == i + 1
            &&& i < TRASH_NAMES
            &&& answers[0]
            &&& forall|j: int| 1 <= j < answers.len() ==> !answers[j]
        },
        stage_at(false, answers) == Some(PurgeStage::Select) ==> answers.len() == 0,
    decreases answers.len(),
{
    if answers.len() > 0 {
        let t = answers.drop_last();
        lemma_probing(t);
        if let Some(PurgeStage::Probe(i)) = stage_at(false, answers) {
            assert forall|j: int| 1 <= j < answers.len() implies !answers[j] by {
                if j < t.len() {
                    assert(t[j] == answers[j]);
                }
            }
            if t.len() > 0 {
                assert(t[0] == answers[0]);
            }
        }
    }
}

} // verus!
