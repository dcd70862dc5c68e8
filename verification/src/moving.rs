//! Moving messages between the folders of a mailbox.
use vstd::prelude::*;

use crate::imap::{number_set, uid_set};
use crate::statements::{sql, statement_views, Statement, StatementView};
use crate::text::{join2, same_str, views};

verus! {

// ---------------------------------------------------------------------------------------------
// What is to be moved
// ---------------------------------------------------------------------------------------------

/// A message and the folder that it is in.
pub struct Located {
    pub id: i64,
    pub uid: u32,
    pub folder: String,
}

/// Where a message is.
#[verifier::ext_equal]
pub struct LocatedView {
    pub id: i64,
    pub uid: u32,
    pub folder: Seq<char>,
}

impl View for Located {
    type V = LocatedView;

    open spec fn view(&self) -> LocatedView {
        LocatedView { id: self.id, uid: self.uid, folder: self.folder@ }
    }
}

/// Where messages are.
pub open spec fn located_views(v: Seq<Located>) -> Seq<LocatedView> {
    Seq::new(v.len(), |i: int| v[i]@)
}

/// The statement that finds out where a message is.
pub open spec fn locating(id: int, account_id: int) -> StatementView {
    sql("SELECT id, uid, folder FROM emails WHERE id=?1 AND account_id=?2"@).number(id).number(
        account_id,
    )
}

/// Asks where a message is.
pub fn locate(id: i64, account_id: i64) -> (r: Statement)
    ensures
        r@ == locating(id as int, account_id as int),
{
    Statement::new("SELECT id, uid, folder FROM emails WHERE id=?1 AND account_id=?2").number(
        id,
    ).number(account_id)
}

/// The messages that are not in a folder yet.
pub open spec fn elsewhere(rows: Seq<LocatedView>, target: Seq<char>) -> Seq<LocatedView>
    decreases rows.len(),
{
    if rows.len() == 0 {
        Seq::empty()
    } else if rows.last().folder == target {
        elsewhere(rows.drop_last(), target)
    } else {
        elsewhere(rows.drop_last(), target).push(rows.last())
    }
}

/// Leaves out the messages that are in the folder already.
pub fn not_in_target(rows: Vec<Located>, target: &str) -> (r: Vec<Located>)
    ensures
        located_views(r@) == elsewhere(located_views(rows@), target@),
{
    let ghost all = located_views(rows@);
    let mut r: Vec<Located> = Vec::new();
    let mut i: usize = 0;
    assert(located_views(r@) =~= Seq::<LocatedView>::empty());
    while i < rows.len()
        invariant
            i <= rows@.len(),
            all == located_views(rows@),
            located_views(r@) == elsewhere(all.take(i as int), target@),
        decreases rows@.len() - i,
    {
        let row = &rows[i];
        assert(all.take(i + 1).drop_last() =~= all.take(i as int));
        assert(all.take(i + 1).last() == row@);
        if !same_str(row.folder.as_str(), target) {
            let copy = Located { id: row.id, uid: row.uid, folder: row.folder.clone() };
            let ghost before = r@;
            r.push(copy);
            assert(copy@ =~= row@);
            assert(located_views(r@) =~= located_views(before).push(copy@));
        }
        i += 1;
    }
    assert(all.take(i as int) =~= all);
    r
}

/// The folders that messages are in, each once, in the order in which they first occur.
pub open spec fn sources(rows: Seq<LocatedView>) -> Seq<Seq<char>>
    decreases rows.len(),
{
    if rows.len() == 0 {
        Seq::empty()
    } else {
        let s = sources(rows.drop_last());
        if s.contains(rows.last().folder) {
            s
        } else {
            s.push(rows.last().folder)
        }
    }
}

/// The numbers of the messages that are in a folder.
pub open spec fn uids_in(rows: Seq<LocatedView>, folder: Seq<char>) -> Seq<u32>
    decreases rows.len(),
{
    if rows.len() == 0 {
        Seq::empty()
    } else if rows.last().folder == folder {
        uids_in(rows.drop_last(), folder).push(rows.last().uid)
    } else {
        uids_in(rows.drop_last(), folder)
    }
}

/// The messages of one folder that are to be moved.
pub struct Group {
    pub folder: String,
    pub uids: Vec<u32>,
}

/// Which messages of which folder are to be moved.
#[verifier::ext_equal]
pub struct GroupView {
    pub folder: Seq<char>,
    pub uids: Seq<u32>,
}

impl View for Group {
    type V = GroupView;

    open spec fn view(&self) -> GroupView {
        GroupView { folder: self.folder@, uids: self.uids@ }
    }
}

/// Which messages of which folders are to be moved.
pub open spec fn group_views(v: Seq<Group>) -> Seq<GroupView> {
    Seq::new(v.len(), |i: int| v[i]@)
}

/// The messages, folder by folder.
pub open spec fn grouped(rows: Seq<LocatedView>) -> Seq<GroupView> {
    let s = sources(rows);
    Seq::new(s.len(), |i: int| GroupView { folder: s[i], uids: uids_in(rows, s[i]) })
}

fn holds(v: &Vec<String>, name: &str) -> (r: bool)
    ensures
        r == views(v@).contains(name@),
{
    let mut i: usize = 0;
    while i < v.len()
        invariant
            i <= v@.len(),
            forall|j: int| 0 <= j < i ==> (#[trigger] v@[j])@ != name@,
        decreases v@.len() - i,
    {
        if same_str(v[i].as_str(), name) {
            assert(views(v@)[i as int] == name@);
            return true;
        }
        i += 1;
    }
    assert forall|j: int| 0 <= j < views(v@).len() implies views(v@)[j] != name@ by {
        assert(views(v@)[j] == v@[j]@);
    }
    false
}

fn sources_of(rows: &Vec<Located>) -> (r: Vec<String>)
    ensures
        views(r@) == sources(located_views(rows@)),
{
    let ghost all = located_views(rows@);
    let mut r: Vec<String> = Vec::new();
    let mut i: usize = 0;
    assert(views(r@) =~= Seq::<Seq<char>>::empty());
    while i < rows.len()
        invariant
            i <= rows@.len(),
            all == located_views(rows@),
            views(r@) == sources(all.take(i as int)),
        decreases rows@.len() - i,
    {
        let row = &rows[i];
        assert(all.take(i + 1).drop_last() =~= all.take(i as int));
        assert(all.take(i + 1).last() == row@);
        if !holds(&r, row.folder.as_str()) {
            let name = row.folder.clone();
            let ghost before = r@;
            r.push(name);
            assert(views(r@) =~= views(before).push(name@));
        }
        i += 1;
    }
    assert(all.take(i as int) =~= all);
    r
}

fn uids_of(rows: &Vec<Located>, folder: &str) -> (r: Vec<u32>)
    ensures
        r@ == uids_in(located_views(rows@), folder@),
{
    let ghost all = located_views(rows@);
    let mut r: Vec<u32> = Vec::new();
    let mut i: usize = 0;
    while i < rows.len()
        invariant
            i <= rows@.len(),
            all == located_views(rows@),
            r@ == uids_in(all.take(i as int), folder@),
        decreases rows@.len() - i,
    {
        let row = &rows[i];
        assert(all.take(i + 1).drop_last() =~= all.take(i as int));
        assert(all.take(i + 1).last() == row@);
        if same_str(row.folder.as_str(), folder) {
            r.push(row.uid);
        }
        i += 1;
    }
    assert(all.take(i as int) =~= all);
    r
}

/// Sorts messages by the folder that they are in.
pub fn group_by_folder(rows: &Vec<Located>) -> (r: Vec<Group>)
    ensures
        group_views(r@) == grouped(located_views(rows@)),
{
    let names = sources_of(rows);
    let ghost all = located_views(rows@);
    let ghost s = sources(all);
    let mut r: Vec<Group> = Vec::new();
    let mut i: usize = 0;
    while i < names.len()
        invariant
            i <= names@.len(),
            all == located_views(rows@),
            s == sources(all),
            views(names@) == s,
            r@.len() == i,
            forall|j: int|
                0 <= j < i ==> (#[trigger] r@[j])@ == (GroupView {
                    folder: s[j],
                    uids: uids_in(all, s[j]),
                }),
        decreases names@.len() - i,
    {
        assert(s[i as int] == names@[i as int]@);
        let g = Group { folder: names[i].clone(), uids: uids_of(rows, names[i].as_str()) };
        assert(g@ =~= (GroupView { folder: s[i as int], uids: uids_in(all, s[i as int]) }));
        r.push(g);
        i += 1;
    }
    assert(group_views(r@) =~= grouped(all));
    r
}

/// No folder occurs twice, and every message is in the group of its folder.
pub proof fn law_grouped(rows: Seq<LocatedView>)
    ensures
        forall|i: int, j: int|
            0 <= i < j < grouped(rows).len() ==> (#[trigger] grouped(rows)[i]).folder != (
            #[trigger] grouped(rows)[j]).folder,
        forall|k: int|
            0 <= k < rows.len() ==> exists|i: int|
                0 <= i < grouped(rows).len() && (#[trigger] grouped(rows)[i]).folder == (
                #[trigger] rows[k]).folder && grouped(rows)[i].uids.contains(rows[k].uid),
{
    lemma_sources(rows);
    let g = grouped(rows);
    let s = sources(rows);
    assert forall|k: int| 0 <= k < rows.len() implies exists|i: int|
        0 <= i < g.len() && (#[trigger] g[i]).folder == (#[trigger] rows[k]).folder
            && g[i].uids.contains(rows[k].uid) by {
        assert(s.contains(rows[k].folder));
        let i = choose|i: int| 0 <= i < s.len() && s[i] == rows[k].folder;
        lemma_uids_in(rows, k);
        assert(g[i].folder == rows[k].folder);
    }
}

proof fn lemma_sources(rows: Seq<LocatedView>)
    ensures
        sources(rows).no_duplicates(),
        forall|k: int| 0 <= k < rows.len() ==> sources(rows).contains((#[trigger] rows[k]).folder),
    decreases rows.len(),
{
    if rows.len() > 0 {
        let t = rows.drop_last();
        lemma_sources(t);
        let s0 = sources(t);
        let s1 = sources(rows);
        assert forall|k: int| 0 <= k < rows.len() implies s1.contains(
            (#[trigger] rows[k]).folder,
        ) by {
            if k < t.len() {
                assert(t[k] == rows[k]);
                let i = choose|i: int| 0 <= i < s0.len() && s0[i] == rows[k].folder;
                assert(s1[i] == rows[k].folder);
            } else if !s0.contains(rows[k].folder) {
                assert(s1[s1.len() - 1] == rows[k].folder);
            }
        }
    }
}

proof fn lemma_uids_in(rows: Seq<LocatedView>, k: int)
    requires
        0 <= k < rows.len(),
    ensures
        uids_in(rows, rows[k].folder).contains(rows[k].uid),
    decreases rows.len(),
{
    let f = rows[k].folder;
    let u1 = uids_in(rows, f);
    if k < rows.len() - 1 {
        let t = rows.drop_last();
        lemma_uids_in(t, k);
        let u0 = uids_in(t, f);
        let i = choose|i: int| 0 <= i < u0.len() && u0[i] == rows[k].uid;
        assert(u1[i] == rows[k].uid);
    } else {
        assert(u1[u1.len() - 1] == rows[k].uid);
    }
}

// ---------------------------------------------------------------------------------------------
// Moving them on the server
// ---------------------------------------------------------------------------------------------

/// How far the work on one folder has come.
#[derive(Clone, Copy, PartialEq, Eq, Structural)]
pub enum MoveStage {
    /// The folder is to be selected.
    Select,
    /// Its messages are to be moved.
    Move,
    /// The server cannot move: they are to be copied.
    Copy,
    /// They have been copied and are to be marked as deleted.
    Mark,
    /// They are marked and are to be removed.
    Expunge,
    /// All folders are done.
    Done,
}

/// Moving messages into a folder.
pub struct Moving {
    pub groups: Vec<Group>,
    pub target: String,
    /// How many groups are done.
    pub done: usize,
    pub stage: MoveStage,
}

/// What is known of a move.
#[verifier::ext_equal]
pub struct MovingView {
    pub groups: Seq<GroupView>,
    pub target: Seq<char>,
    pub done: nat,
    pub stage: MoveStage,
}

impl View for Moving {
    type V = MovingView;

    open spec fn view(&self) -> MovingView {
        MovingView {
            groups: group_views(self.groups@),
            target: self.target@,
            done: self.done as nat,
            stage: self.stage,
        }
    }
}

/// What to ask of the server next.
pub enum MoveAction {
    Select { folder: String },
    Move { set: String, target: String },
    Copy { set: String, target: String },
    Mark { set: String },
    Expunge,
    Finish,
}

impl MovingView {
    /// A move at its beginning.
    pub open spec fn start(groups: Seq<GroupView>, target: Seq<char>) -> MovingView {
        MovingView {
            groups,
            target,
            done: 0,
            stage: if groups.len() > 0 {
                MoveStage::Select
            } else {
                MoveStage::Done
            },
        }
    }

    /// A folder is worked on only while one is left.
    pub open spec fn valid(self) -> bool {
        &&& self.done <= self.groups.len()
        &&& self.stage == MoveStage::Done <==> self.done == self.groups.len()
    }

    /// The group that is worked on.
    pub open spec fn group(self) -> GroupView {
        self.groups[self.done as int]
    }

    /// With the next group.
    pub open spec fn next_group(self) -> MovingView {
        MovingView {
            done: self.done + 1,
            stage: if self.done + 1 < self.groups.len() {
                MoveStage::Select
            } else {
                MoveStage::Done
            },
            ..self
        }
    }

    /// At another stage of the same group.
    pub open spec fn at(self, stage: MoveStage) -> MovingView {
        MovingView { stage, ..self }
    }

    /// After the server's answer: the work goes on, or it ends with an error.
    pub open spec fn after(self, answer: Result<(), Seq<char>>) -> Result<MovingView, Seq<char>> {
        match (self.stage, answer) {
            (MoveStage::Select, Ok(_)) => Ok(self.at(MoveStage::Move)),
            (MoveStage::Select, Err(e)) => Err("SELECT "@ + self.group().folder + ": "@ + e),
            (MoveStage::Move, Ok(_)) => Ok(self.next_group()),
            (MoveStage::Move, Err(_)) => Ok(self.at(MoveStage::Copy)),
            (MoveStage::Copy, Ok(_)) => Ok(self.at(MoveStage::Mark)),
            (MoveStage::Copy, Err(e)) => Err("UID COPY: "@ + e),
            (MoveStage::Mark, Ok(_)) => Ok(self.at(MoveStage::Expunge)),
            (MoveStage::Mark, Err(e)) => Err("UID STORE: "@ + e),
            (MoveStage::Expunge, Ok(_)) => Ok(self.next_group()),
            (MoveStage::Expunge, Err(e)) => Err("EXPUNGE: "@ + e),
            (MoveStage::Done, _) => Ok(self),
        }
    }

    /// What is to be done next.
    pub open spec fn wants(self, a: MoveAction) -> bool {
        let set = number_set(self.group().uids);
        match self.stage {
            MoveStage::Select => a matches MoveAction::Select { folder } && folder@
                == self.group().folder,
            MoveStage::Move => a matches MoveAction::Move { set: s, target } && s@ == set && target@
                == self.target,
            MoveStage::Copy => a matches MoveAction::Copy { set: s, target } && s@ == set && target@
                == self.target,
            MoveStage::Mark => a matches MoveAction::Mark { set: s } && s@ == set,
            MoveStage::Expunge => a is Expunge,
            MoveStage::Done => a is Finish,
        }
    }
}

/// What an answer says.
pub open spec fn answer_view(r: Result<(), String>) -> Result<(), Seq<char>> {
    match r {
        Ok(_) => Ok(()),
        Err(e) => Err(e@),
    }
}

impl Moving {
    /// What to ask of the server next.
    pub fn action(&self) -> (r: MoveAction)
        requires
            self@.valid(),
        ensures
            self@.wants(r),
    {
        match self.stage {
            MoveStage::Done => MoveAction::Finish,
            MoveStage::Expunge => MoveAction::Expunge,
            MoveStage::Select => {
                let g = &self.groups[self.done];
                assert(self@.group() == g@);
                MoveAction::Select { folder: g.folder.clone() }
            },
            MoveStage::Move => {
                let g = &self.groups[self.done];
                assert(self@.group() == g@);
                MoveAction::Move { set: uid_set(g.uids.as_slice()), target: self.target.clone() }
            },
            MoveStage::Copy => {
                let g = &self.groups[self.done];
                assert(self@.group() == g@);
                MoveAction::Copy { set: uid_set(g.uids.as_slice()), target: self.target.clone() }
            },
            MoveStage::Mark => {
                let g = &self.groups[self.done];
                assert(self@.group() == g@);
                MoveAction::Mark { set: uid_set(g.uids.as_slice()) }
            },
        }
    }

    fn next_group(self) -> (r: Moving)
        requires
            self.done < self.groups@.len(),
        ensures
            r@ == self@.next_group(),
    {
        let total: usize = self.groups.len();
        let done: usize = self.done + 1;
        Moving {
            stage: if done < total {
                MoveStage::Select
            } else {
                MoveStage::Done
            },
            done,
            ..self
        }
    }

    /// Goes on after an answer of the server.
    pub fn on_answer(self, answer: Result<(), String>) -> (r: Result<Moving, String>)
        requires
            self@.valid(),
        ensures
            match self@.after(answer_view(answer)) {
                Ok(m) => r matches Ok(n) && n@ == m && m.valid(),
                Err(e) => r matches Err(w) && w@ == e,
            },
    {
        let stage = self.stage;
        match answer {
            Ok(_) => match stage {
                MoveStage::Select => Ok(Moving { stage: MoveStage::Move, ..self }),
                MoveStage::Move => Ok(self.next_group()),
                MoveStage::Copy => Ok(Moving { stage: MoveStage::Mark, ..self }),
                MoveStage::Mark => Ok(Moving { stage: MoveStage::Expunge, ..self }),
                MoveStage::Expunge => Ok(self.next_group()),
                MoveStage::Done => Ok(self),
            },
            Err(e) => match stage {
                MoveStage::Select => {
                    let g = &self.groups[self.done];
                    assert(self@.group() == g@);
                    let mut w = join2("SELECT ", g.folder.as_str());
                    w.append(": ");
                    w.append(e.as_str());
                    Err(w)
                },
                MoveStage::Move => Ok(Moving { stage: MoveStage::Copy, ..self }),
                MoveStage::Copy => Err(join2("UID COPY: ", e.as_str())),
                MoveStage::Mark => Err(join2("UID STORE: ", e.as_str())),
                MoveStage::Expunge => Err(join2("EXPUNGE: ", e.as_str())),
                MoveStage::Done => Ok(self),
            },
        }
    }
}

/// Begins to move messages into a folder. `None` if there is nothing to move.
pub fn move_emails_to_folder(rows: Vec<Located>, target_folder: &str) -> (r: Option<Moving>)
    ensures
        ({
            let moved = elsewhere(located_views(rows@), target_folder@);
            match r {
                Some(m) => moved.len() > 0 && m@ == MovingView::start(
                    grouped(moved),
                    target_folder@,
                ) && m@.valid(),
                None => moved.len() == 0,
            }
        }),
{
    let ghost moved = elsewhere(located_views(rows@), target_folder@);
    let rest = not_in_target(rows, target_folder);
    assert(located_views(rest@).len() == rest@.len());
    if rest.len() == 0 {
        return None;
    }
    let groups = group_by_folder(&rest);
    let stage = if groups.len() > 0 {
        MoveStage::Select
    } else {
        MoveStage::Done
    };
    let r = Moving { groups, target: target_folder.to_owned(), done: 0, stage };
    assert(r@ =~= MovingView::start(grouped(moved), target_folder@));
    Some(r)
}

/// The statements that note where the messages are now.
pub open spec fn relocations(ids: Seq<i64>, account_id: int, target: Seq<char>) -> Seq<
    StatementView,
> {
    Seq::new(
        ids.len(),
        |i: int|
            sql("UPDATE emails SET folder=?1 WHERE id=?2 AND account_id=?3"@).text(target).number(
                ids[i] as int,
            ).number(account_id),
    )
}

/// Notes where the messages are now.
pub fn relocate(ids: &Vec<i64>, account_id: i64, target: &str) -> (r: Vec<Statement>)
    ensures
        statement_views(r@) == relocations(ids@, account_id as int, target@),
{
    let mut r: Vec<Statement> = Vec::new();
    let mut i: usize = 0;
    let ghost want = relocations(ids@, account_id as int, target@);
    while i < ids.len()
        invariant
            i <= ids@.len(),
            want == relocations(ids@, account_id as int, target@),
            r@.len() == i,
            forall|j: int| 0 <= j < i ==> (#[trigger] r@[j])@ == want[j],
        decreases ids@.len() - i,
    {
        let s = Statement::new("UPDATE emails SET folder=?1 WHERE id=?2 AND account_id=?3").text(
            target,
        ).number(ids[i]).number(account_id);
        r.push(s);
        i += 1;
    }
    assert(statement_views(r@) =~= want);
    r
}

/// Messages are marked as deleted only after they have been copied, and removed only after they have
/// been marked.
pub proof fn law_copied_before_deleted(m: MovingView, answer: Result<(), Seq<char>>)
    requires
        m.valid(),
    ensures
        m.after(answer) matches Ok(n) ==> {
            &&& n.stage == MoveStage::Mark ==> m.stage == MoveStage::Copy && answer is Ok
            &&& n.stage == MoveStage::Expunge ==> m.stage == MoveStage::Mark && answer is Ok
        },
{
}

/// A group is left behind only when its messages have been moved, or copied and removed.
pub proof fn law_group_is_finished(m: MovingView, answer: Result<(), Seq<char>>)
    requires
        m.valid(),
    ensures
        m.after(answer) matches Ok(n) ==> n.groups == m.groups && n.target == m.target && (n.done
            == m.done || (n.done == m.done + 1 && answer is Ok && (m.stage == MoveStage::Move
            || m.stage == MoveStage::Expunge))),
{
}

} // verus!
