use docvis_mail::folders::{
    create_imap_folder, delete_imap_folder, get_cached_folders, is_system_folder, list_imap_folders,
    rename_imap_folder, replace_names, Listed,
};
use docvis_mail::imap::{
    chunked_requests, fetch_from_imap, fetch_new_from_imap, fetch_window, new_uids, search_criteria,
    search_new, sequence_set, take_messages, uid_set, FetchAction, FetchStage, Fetched, Message,
};
use docvis_mail::moving::{
    group_by_folder, locate, move_emails_to_folder, relocate, Located, MoveAction, MoveStage,
};
use docvis_mail::purge::{old_emails, purge_old_emails_imap, PurgeAction, PurgeStage};
use docvis_mail::statements::{SqlValue, Statement};
use docvis_mail::sync::{
    folder_missing, full_sync_folder, sync_folder, FullAction, FullStage, NotifItem, SyncAction,
    SyncFetch, SyncStage, Syncing,
};

fn num(s: &Statement, i: usize) -> i64 {
    match &s.params[i] {
        SqlValue::Int(n) => *n,
        _ => panic!("no number at {}", i),
    }
}

fn text(s: &Statement, i: usize) -> String {
    match &s.params[i] {
        SqlValue::Text(t) => t.clone(),
        _ => panic!("no text at {}", i),
    }
}

fn fetched(seq: u32, uid: Option<u32>, body: Option<&str>) -> Fetched {
    Fetched { seq, uid, body: body.map(|b| b.as_bytes().to_vec()) }
}

#[test]
fn sets_of_messages() {
    assert_eq!(uid_set(&[3, 10, 4294967295]), "3,10,4294967295");
    assert_eq!(uid_set(&[]), "");
    assert_eq!(sequence_set(1, 100), "1:100");
    assert_eq!(search_criteria(41), "UID 42:*");
    assert!(search_new(0, u32::MAX).is_none());
    assert_eq!(search_new(1, 0).unwrap(), "UID 1:*");
}

#[test]
fn windows_page_through_a_folder() {
    assert_eq!(fetch_window(250, 100, 0), Some((151, 250)));
    assert_eq!(fetch_window(250, 100, 100), Some((51, 150)));
    assert_eq!(fetch_window(250, 100, 200), Some((1, 50)));
    assert_eq!(fetch_window(250, 100, 250), None);
    assert_eq!(fetch_window(0, 100, 0), None);
    assert_eq!(fetch_window(100, 100, 0), Some((1, 100)));
    assert_eq!(fetch_window(5, 0, 0), Some((6, 5)));
}

#[test]
fn new_messages_are_the_oldest_after_the_last() {
    assert_eq!(new_uids(&vec![9, 3, 7, 5], 4), vec![5, 7, 9]);
    assert!(new_uids(&vec![4], 4).is_empty());
    let found: Vec<u32> = (1..=230).rev().collect();
    let b = new_uids(&found, 10);
    assert_eq!(b, (11..=110).collect::<Vec<u32>>());
    let c = new_uids(&found, *b.last().unwrap());
    assert_eq!(c, (111..=210).collect::<Vec<u32>>());
    let r = chunked_requests(&(1..=101).collect());
    assert_eq!(r.len(), 3);
    assert!(r[0].starts_with("1,2,") && r[0].ends_with(",50"));
    assert_eq!(r[2], "101");
    assert!(chunked_requests(&Vec::new()).is_empty());
}

#[test]
fn messages_of_an_answer() {
    let mut got: Vec<Message> = Vec::new();
    take_messages(&mut got, vec![fetched(1, Some(11), Some("a")), fetched(2, None, Some("b")), fetched(3, Some(13), None)], false);
    assert_eq!(got.len(), 2);
    assert_eq!((got[0].uid, got[1].uid), (11, 2));
    take_messages(&mut got, vec![fetched(4, None, Some("c")), fetched(5, Some(15), Some("d"))], true);
    assert_eq!(got.len(), 3);
    assert_eq!(got[2].uid, 15);
    assert_eq!(got[2].raw, b"d");
}

#[test]
fn a_first_fetch_removes_what_it_has_fetched() {
    let (f, next) = fetch_from_imap(3, Some(77), 100, 0, false);
    assert_eq!(next, 77);
    match f.action() {
        FetchAction::Fetch { set, by_uid } => {
            assert_eq!(set, "1:3");
            assert!(!by_uid);
        }
        _ => panic!(),
    }
    let f = f.on_messages(vec![fetched(1, Some(5), Some("x")), fetched(2, Some(6), Some("y"))]);
    match f.action() {
        FetchAction::Mark { set } => assert_eq!(set, "5,6"),
        _ => panic!(),
    }
    let f = f.on_marked(true);
    assert!(matches!(f.action(), FetchAction::Expunge));
    let f = f.on_expunged();
    assert!(matches!(f.action(), FetchAction::Finish));
    assert_eq!(f.got.len(), 2);
}

#[test]
fn what_cannot_be_marked_is_not_removed() {
    let (f, next) = fetch_from_imap(1, None, 100, 0, false);
    assert_eq!(next, 0);
    let f = f.on_messages(vec![fetched(1, Some(5), Some("x"))]).on_marked(false);
    assert!(f.stage == FetchStage::Done);
    let (f, _) = fetch_from_imap(1, None, 100, 0, true);
    assert!(f.on_messages(vec![fetched(1, Some(5), Some("x"))]).stage == FetchStage::Done);
    let (f, _) = fetch_from_imap(0, None, 100, 0, false);
    assert!(f.stage == FetchStage::Done);
}

#[test]
fn new_messages_are_fetched_in_pieces() {
    let f = fetch_new_from_imap(&(1..=60).collect(), 0, false);
    assert_eq!(f.sets.len(), 2);
    let f = f.on_messages(vec![fetched(1, Some(1), Some("x")), fetched(2, None, Some("y"))]);
    match f.action() {
        FetchAction::Fetch { set, by_uid } => {
            assert_eq!(set, "51,52,53,54,55,56,57,58,59,60");
            assert!(by_uid);
        }
        _ => panic!(),
    }
    let f = f.on_messages(Vec::new());
    match f.action() {
        FetchAction::Mark { set } => assert_eq!(set, "1"),
        _ => panic!(),
    }
}

fn note(id: i64) -> NotifItem {
    NotifItem { id, from_addr: "a".to_string(), subject: "s".to_string(), has_attachment: false }
}

fn statement(a: SyncAction) -> Statement {
    match a {
        SyncAction::Execute(s) => s,
        SyncAction::AskLast(s) => s,
        SyncAction::AskPurge(s) => s,
        SyncAction::ReadItem(s) => s,
        _ => panic!("no statement"),
    }
}

#[test]
fn the_first_synchronization_tells_of_nothing() {
    let s = sync_folder(1, "INBOX", None, None);
    let q = statement(s.action());
    assert_eq!(q.sql, "SELECT last_uid FROM folder_state WHERE account_id=?1 AND folder=?2");
    assert_eq!(text(&q, 1), "INBOX");
    let s = s.on_last(None);
    assert!(s.plan.leave_on_server);
    match s.action() {
        SyncAction::Fetch(f) => assert!(f == SyncFetch::Window { limit: 100, offset: 0 }),
        _ => panic!(),
    }
    let s = s.on_fetched(vec![40, 50], 1000);
    assert!(s.stage == SyncStage::Store(0));
    let s = s.on_stored(Some(7));
    assert_eq!(num(&statement(s.action()), 0), 7);
    let s = s.on_item(Some(note(7)));
    assert!(s.stage == SyncStage::Store(1));
    let s = s.on_stored(None);
    assert!(s.stage == SyncStage::Remember);
    assert_eq!(num(&statement(s.action()), 2), 999);
    let s = s.on_executed();
    assert!(s.stage == SyncStage::Filter);
    let s = s.on_executed();
    assert!(matches!(s.action(), SyncAction::Finish));
    assert!(s.finish().is_empty());
}

fn incremental(folder: &str, last: i64) -> Syncing {
    sync_folder(1, folder, Some(0), Some(false)).on_last(Some(last))
}

#[test]
fn an_incremental_synchronization_tells_of_new_messages_and_purges() {
    let s = incremental("INBOX", 10);
    match s.action() {
        SyncAction::Fetch(f) => assert!(f == SyncFetch::New { last_uid: 10 }),
        _ => panic!(),
    }
    let s = s.on_fetched(vec![12, 11], 0).on_stored(Some(1)).on_item(Some(note(1))).on_stored(Some(2)).on_item(None);
    assert_eq!(num(&statement(s.action()), 2), 12);
    let s = s.on_executed().on_executed();
    let q = statement(s.action());
    assert_eq!(q.sql, "SELECT delete_after_days, delete_permanent FROM accounts WHERE id=?1");
    let s = s.on_purge_settings(Some((Some(30), 1)));
    match s.action() {
        SyncAction::Purge { days, permanent } => assert_eq!((days, permanent), (30, true)),
        _ => panic!(),
    }
    let told = s.on_executed().finish();
    assert_eq!(told.len(), 1);
    assert_eq!(told[0].id, 1);
}

#[test]
fn nothing_new_keeps_nothing() {
    let s = incremental("Work", 10).on_fetched(Vec::new(), 0);
    assert!(s.stage == SyncStage::Done);
    let s = incremental("INBOX", 10).on_fetched(Vec::new(), 0);
    assert!(s.stage == SyncStage::AskPurge);
    assert!(s.on_purge_settings(Some((None, 1))).stage == SyncStage::Done);
    assert!(incremental("INBOX", 10).on_fetched(Vec::new(), 0).on_purge_settings(None).stage == SyncStage::Done);
    let s = incremental("INBOX", 4294967301);
    assert_eq!(s.plan.last_uid, 5);
}

#[test]
fn older_messages_are_told_of() {
    let s = sync_folder(1, "INBOX", Some(100), None);
    match s.action() {
        SyncAction::Fetch(f) => assert!(f == SyncFetch::Window { limit: 100, offset: 100 }),
        _ => panic!(),
    }
    let s = s.on_fetched(vec![3], 50).on_stored(Some(9)).on_item(Some(note(9)));
    assert_eq!(num(&statement(s.action()), 2), 3);
    let s = s.on_executed().on_executed();
    assert!(s.stage == SyncStage::Done);
    assert_eq!(s.finish().len(), 1);
}

#[test]
fn a_missing_folder_is_no_error() {
    assert!(folder_missing("[NONEXISTENT] Unknown Mailbox"));
    assert!(folder_missing("Mailbox does NOT EXIST"));
    assert!(!folder_missing("nonexistent"));
    let s = incremental("X", 1).on_fetch_error("folder does not exist");
    assert!(s.stage == SyncStage::Done);
    assert!(s.finish().is_empty());
    let s = incremental("X", 1).on_fetch_error("timeout");
    assert!(matches!(s.action(), SyncAction::Fail));
}

#[test]
fn a_whole_folder_is_fetched_in_batches() {
    let s = full_sync_folder(150, false);
    assert!(matches!(s.action(), FullAction::Check));
    let s = s.on_check(false);
    match s.action() {
        FullAction::Fetch { set } => assert_eq!(set, "51:150"),
        _ => panic!(),
    }
    let s = s.on_fetched(vec![7, 8]).on_stored(Some(70)).on_stored(None);
    match s.action() {
        FullAction::Mark { set } => assert_eq!(set, "7,8"),
        _ => panic!(),
    }
    let s = s.on_marked(true).on_expunged();
    assert_eq!(s.new_ids, vec![70]);
    match s.action() {
        FullAction::Report { fetched, total, inserted } => assert_eq!((fetched, total, inserted), (100, 150, 1)),
        _ => panic!(),
    }
    let s = s.on_reported(false).on_check(false);
    match s.action() {
        FullAction::Fetch { set } => assert_eq!(set, "1:50"),
        _ => panic!(),
    }
    let s = s.on_fetched(vec![1]).on_stored(Some(5)).on_marked(false);
    match s.action() {
        FullAction::Report { fetched, total, inserted } => assert_eq!((fetched, total, inserted), (150, 150, 2)),
        _ => panic!(),
    }
    assert!(s.on_reported(false).on_check(false).stage == FullStage::Done);
}

#[test]
fn a_whole_folder_can_be_cancelled() {
    assert!(full_sync_folder(0, true).on_check(false).stage == FullStage::Done);
    assert!(full_sync_folder(10, true).on_check(true).stage == FullStage::Done);
    assert!(full_sync_folder(10, true).on_check(false).on_fetched(Vec::new()).stage == FullStage::Done);
    let s = full_sync_folder(10, true).on_check(false).on_fetched(vec![1]).on_stored(None);
    assert!(s.stage == FullStage::Report);
    assert!(s.on_reported(true).stage == FullStage::Done);
}

#[test]
fn old_messages_are_found_by_their_time() {
    let s = old_emails(4, 1_000_000_000, 30);
    assert_eq!(num(&s, 0), 4);
    assert_eq!(num(&s, 1), 1_000_000_000 - 30 * 86400);
}

#[test]
fn purging_goes_through_the_trash() {
    assert!(purge_old_emails_imap(Vec::new(), false).is_none());
    let p = purge_old_emails_imap(vec![1, 2], false).unwrap();
    match p.action() {
        PurgeAction::Select { folder } => assert_eq!(folder, "INBOX"),
        _ => panic!(),
    }
    let p = p.on_answer(true).unwrap().on_answer(false).unwrap();
    match p.action() {
        PurgeAction::List { name } => assert_eq!(name, "INBOX.Trash"),
        _ => panic!(),
    }
    let p = p.on_answer(true).unwrap();
    match p.action() {
        PurgeAction::Move { set, target } => {
            assert_eq!(set, "1,2");
            assert_eq!(target, "INBOX.Trash");
        }
        _ => panic!(),
    }
    let p = p.on_answer(false).unwrap();
    match p.action() {
        PurgeAction::Mark { set } => assert_eq!(set, "1,2"),
        _ => panic!(),
    }
    let p = p.on_answer(true).unwrap();
    assert!(matches!(p.action(), PurgeAction::Expunge));
    assert!(p.on_answer(true).unwrap().stage == PurgeStage::Done);
}

#[test]
fn purging_without_a_trash_folder() {
    let mut p = purge_old_emails_imap(vec![1], false).unwrap().on_answer(true).unwrap();
    for _ in 0..7 {
        assert!(matches!(p.action(), PurgeAction::List { .. }));
        p = p.on_answer(false).unwrap();
    }
    match p.action() {
        PurgeAction::Move { target, .. } => assert_eq!(target, "Trash"),
        _ => panic!(),
    }
}

#[test]
fn purging_for_good_and_failing() {
    let p = purge_old_emails_imap(vec![1], true).unwrap();
    assert!(p.on_answer(false).is_none());
    let p = purge_old_emails_imap(vec![1], true).unwrap().on_answer(true).unwrap();
    assert!(p.stage == PurgeStage::Mark);
    assert!(p.on_answer(false).is_none());
    let p = purge_old_emails_imap(vec![1], true).unwrap().on_answer(true).unwrap().on_answer(true).unwrap();
    assert!(p.on_answer(false).is_none());
}

#[test]
fn folders_of_the_system() {
    for n in ["INBOX", "inbox", "Trash", "junk", "Спам", "Удалённые", "Удаленные", "Исходящие"] {
        assert!(is_system_folder(n), "{}", n);
    }
    for n in ["", "Work", "спам", "INBOX.Work", "Trash "] {
        assert!(!is_system_folder(n), "{}", n);
    }
}

#[test]
fn folders_of_the_user_are_listed_in_order() {
    let l = |name: &str, no_select: bool| Listed { name: name.to_string(), no_select };
    let r = list_imap_folders(&vec![
        l("Work", false),
        l("&BCEEPwQwBDw-", false),
        l("[Gmail]", true),
        l("other@mail.ru/INBOX", false),
        l("Archive", false),
        l("&BBAEQARFBDgEMg-", false),
        l("archive", false),
        l("Archive", false),
    ]);
    assert_eq!(r, vec!["Archive", "Archive", "Work", "archive", "Архив"]);
    let s = replace_names(2, &r);
    assert_eq!(s.len(), 6);
    assert_eq!(s[0].sql, "DELETE FROM user_folders WHERE account_id=?1");
    assert_eq!(text(&s[5], 1), "Архив");
    assert_eq!(num(&get_cached_folders(2), 0), 2);
}

#[test]
fn folders_are_changed_unless_they_may_not_be() {
    assert_eq!(create_imap_folder(1, "  ").err().unwrap(), "Имя папки не может быть пустым");
    assert_eq!(create_imap_folder(1, "sent").err().unwrap(), "Нельзя создать папку с зарезервированным именем");
    assert_eq!(text(&create_imap_folder(1, "Work").ok().unwrap(), 1), "Work");
    assert_eq!(delete_imap_folder(1, "Trash").err().unwrap(), "Системные папки нельзя удалять");
    let d = delete_imap_folder(1, "Work").ok().unwrap();
    assert_eq!(d.len(), 2);
    assert_eq!(d[1].sql, "DELETE FROM emails WHERE account_id=?1 AND folder=?2");
    assert_eq!(rename_imap_folder(1, "Spam", "x").err().unwrap(), "Системные папки нельзя переименовывать");
    assert_eq!(rename_imap_folder(1, "Work", " ").err().unwrap(), "Имя папки не может быть пустым");
    let r = rename_imap_folder(1, "Work", "Play").ok().unwrap();
    assert_eq!((text(&r[0], 0), num(&r[0], 1), text(&r[0], 2)), ("Play".to_string(), 1, "Work".to_string()));
}

fn located(id: i64, uid: u32, folder: &str) -> Located {
    Located { id, uid, folder: folder.to_string() }
}

#[test]
fn messages_are_grouped_by_folder() {
    let g = group_by_folder(&vec![located(1, 10, "A"), located(2, 20, "B"), located(3, 30, "A")]);
    assert_eq!(g.len(), 2);
    assert_eq!((g[0].folder.as_str(), g[0].uids.clone()), ("A", vec![10, 30]));
    assert_eq!((g[1].folder.as_str(), g[1].uids.clone()), ("B", vec![20]));
    assert_eq!((num(&locate(5, 6), 0), num(&locate(5, 6), 1)), (5, 6));
}

#[test]
fn moving_falls_back_to_copying() {
    assert!(move_emails_to_folder(vec![located(1, 10, "T")], "T").is_none());
    let m = move_emails_to_folder(vec![located(1, 10, "A"), located(2, 5, "T"), located(3, 30, "B")], "T").unwrap();
    match m.action() {
        MoveAction::Select { folder } => assert_eq!(folder, "A"),
        _ => panic!(),
    }
    let m = m.on_answer(Ok(())).ok().unwrap();
    match m.action() {
        MoveAction::Move { set, target } => assert_eq!((set.as_str(), target.as_str()), ("10", "T")),
        _ => panic!(),
    }
    let m = m.on_answer(Err("no MOVE".to_string())).ok().unwrap();
    assert!(matches!(m.action(), MoveAction::Copy { .. }));
    let m = m.on_answer(Ok(())).ok().unwrap();
    assert!(matches!(m.action(), MoveAction::Mark { .. }));
    let m = m.on_answer(Ok(())).ok().unwrap();
    assert!(matches!(m.action(), MoveAction::Expunge));
    let m = m.on_answer(Ok(())).ok().unwrap();
    match m.action() {
        MoveAction::Select { folder } => assert_eq!(folder, "B"),
        _ => panic!(),
    }
    let m = m.on_answer(Ok(())).ok().unwrap().on_answer(Ok(())).ok().unwrap();
    assert!(m.stage == MoveStage::Done);
    assert!(matches!(m.action(), MoveAction::Finish));
}

#[test]
fn moving_stops_at_an_error() {
    let start = || move_emails_to_folder(vec![located(1, 10, "A")], "T").unwrap();
    let no = || Err("e".to_string());
    assert_eq!(start().on_answer(no()).err().unwrap(), "SELECT A: e");
    let copy = || start().on_answer(Ok(())).ok().unwrap().on_answer(no()).ok().unwrap();
    assert_eq!(copy().on_answer(no()).err().unwrap(), "UID COPY: e");
    let mark = || copy().on_answer(Ok(())).ok().unwrap();
    assert_eq!(mark().on_answer(no()).err().unwrap(), "UID STORE: e");
    let expunge = mark().on_answer(Ok(())).ok().unwrap();
    assert_eq!(expunge.on_answer(no()).err().unwrap(), "EXPUNGE: e");
    let r = relocate(&vec![1, 2], 9, "T");
    assert_eq!(r.len(), 2);
    assert_eq!((text(&r[1], 0), num(&r[1], 1), num(&r[1], 2)), ("T".to_string(), 2, 9));
}
