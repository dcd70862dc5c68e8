use docvis_mail::emails::{delete_draft, get_draft_count, move_to_spam};
use docvis_mail::folders::{get_cached_folders, list_imap_folders, replace_names, Listed};
use docvis_mail::message::read_mail;
use docvis_mail::schema::SCHEMA;
use docvis_mail::send::{number_own, save_draft, Draft, DraftStep};
use docvis_mail::statements::{SqlValue, Statement};
use docvis_mail::store::{
    block_sender, is_sender_blocked, unblock_sender, StoreEvent, StoreJob, StoreStep,
};

fn values(s: &Statement) -> Vec<rusqlite::types::Value> {
    s.params
        .iter()
        .map(|p| match p {
            SqlValue::Int(n) => rusqlite::types::Value::Integer(*n),
            SqlValue::Text(t) => rusqlite::types::Value::Text(t.clone()),
            SqlValue::Null => rusqlite::types::Value::Null,
        })
        .collect()
}

fn database() -> rusqlite::Connection {
    let conn = rusqlite::Connection::open_in_memory().unwrap();
    conn.execute_batch(SCHEMA).unwrap();
    conn
}

fn execute(conn: &rusqlite::Connection, s: &Statement) -> usize {
    conn.execute(&s.sql, rusqlite::params_from_iter(values(s))).unwrap()
}

fn found(conn: &rusqlite::Connection, s: &Statement) -> bool {
    conn.query_row(&s.sql, rusqlite::params_from_iter(values(s)), |_| Ok(())).is_ok()
}

fn count(conn: &rusqlite::Connection, s: &Statement) -> i64 {
    conn.query_row(&s.sql, rusqlite::params_from_iter(values(s)), |r| r.get(0)).unwrap()
}

fn names(conn: &rusqlite::Connection, s: &Statement) -> Vec<String> {
    let mut prepared = conn.prepare(&s.sql).unwrap();
    let rows = prepared
        .query_map(rusqlite::params_from_iter(values(s)), |r| r.get::<_, String>(0))
        .unwrap();
    rows.map(|r| r.unwrap()).collect()
}

fn blocked(conn: &rusqlite::Connection, from: &str) -> bool {
    match is_sender_blocked(from) {
        Some(s) => found(conn, &s),
        None => false,
    }
}

#[test]
fn a_sender_is_blocked_until_unblocked() {
    let conn = database();
    execute(&conn, &block_sender("Other <o@x.org>").unwrap());
    assert!(!blocked(&conn, "A <a@x.org>"));
    execute(&conn, &block_sender("\"A > B\" <a@X.org>").unwrap());
    assert!(blocked(&conn, "Somebody <A@x.ORG>"));
    execute(&conn, &block_sender("a@x.org").unwrap());
    assert!(!blocked(&conn, "b@x.org"));
    assert!(!blocked(&conn, ""));
    execute(&conn, &unblock_sender("a@x.org"));
    assert!(!blocked(&conn, "A <a@x.org>"));
    assert!(blocked(&conn, "o@x.org"));
}

#[test]
fn cached_folders_are_those_that_were_listed() {
    let conn = database();
    for s in replace_names(2, &vec!["Чужая".to_string()]) {
        execute(&conn, &s);
    }
    for s in replace_names(1, &vec!["Old".to_string(), "Both".to_string()]) {
        execute(&conn, &s);
    }
    let listed: Vec<Listed> = ["b", "Both", "INBOX", "a", "&BB8-", "b", "é&-"]
        .iter()
        .map(|n| Listed { name: n.to_string(), no_select: false })
        .collect();
    let list = list_imap_folders(&listed);
    for s in replace_names(1, &list) {
        execute(&conn, &s);
    }
    let mut once = list.clone();
    once.dedup();
    assert_eq!(once.len() + 1, list.len());
    assert_eq!(names(&conn, &get_cached_folders(1)), once);
    assert_eq!(names(&conn, &get_cached_folders(2)), vec!["Чужая".to_string()]);
}

#[test]
fn drafts_are_counted() {
    let conn = database();
    let draft = |account_id: i64| Draft {
        account_id,
        to: String::new(),
        cc: String::new(),
        subject: "s".to_string(),
        body_text: String::new(),
        body_html: String::new(),
    };
    let save = |account_id: i64| -> i64 {
        match save_draft(&draft(account_id), None, "d", 1) {
            DraftStep::Insert(s) => assert_eq!(execute(&conn, &s), 1),
            _ => panic!(),
        }
        let id: i64 = conn.last_insert_rowid();
        assert_eq!(execute(&conn, &number_own(id)), 1);
        id
    };
    save(1);
    save(2);
    let id = save(1);
    assert_eq!(count(&conn, &get_draft_count(1)), 2);
    assert_eq!(count(&conn, &get_draft_count(2)), 1);
    assert_eq!(execute(&conn, &delete_draft(id)), 1);
    assert_eq!(count(&conn, &get_draft_count(1)), 1);
    assert_eq!(count(&conn, &get_draft_count(2)), 1);
}

fn store(conn: &rusqlite::Connection, folder: &str, uid: u32) -> Option<i64> {
    let raw = b"From: \"A > B\" <a@x.org>\r\nSubject: s\r\n\r\ntext\r\n";
    let mail = read_mail(uid, raw).ok().unwrap();
    let job = StoreJob { account_id: 1, folder: folder.to_string(), uid, mail };
    let mut step = job.parse_and_store();
    loop {
        let event = match step {
            StoreStep::AskSender | StoreStep::AskKnown { .. } => {
                StoreEvent::Found(found(conn, &job.statement(step).unwrap()))
            }
            StoreStep::Insert { .. } => {
                let changed = execute(conn, &job.statement(step).unwrap());
                StoreEvent::Inserted { changed, id: conn.last_insert_rowid() }
            }
            StoreStep::SaveFiles(_) => StoreEvent::Saved,
            StoreStep::Done(r) => return r,
            StoreStep::Failed => panic!(),
        };
        step = job.next(step, event);
    }
}

#[test]
fn a_known_message_is_left_alone() {
    let conn = database();
    let all = Statement::new("SELECT COUNT(*) FROM emails");
    let id = store(&conn, "INBOX", 7).unwrap();
    assert!(store(&conn, "INBOX", 7).is_none());
    execute(&conn, &move_to_spam(id));
    assert!(store(&conn, "INBOX", 7).is_none());
    assert!(store(&conn, "Archive", 7).is_none());
    assert_eq!(count(&conn, &all), 1);
    assert!(store(&conn, "INBOX", 8).is_some());
    assert_eq!(count(&conn, &all), 2);
}
