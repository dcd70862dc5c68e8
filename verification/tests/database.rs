use docvis_mail::accounts::{
    actual_password, delete_account, email_query, get_account_by_id, get_accounts,
    purge_settings_query, save_account, update_account, with_password, Account, AccountSettings,
};
use docvis_mail::emails::{
    changed_emails, clear_spam, clear_trash, delete_draft, delete_emails_bulk, delete_permanently,
    get_all_unread_counts, get_draft_count, get_email_body, get_emails, get_unread_count, item_query,
    mark_all_read, mark_read, mark_read_bulk, move_from_spam, move_to_spam, move_to_trash,
    notification, read_item, reset_folder_state, search_emails, search_for, sender_query, star_query,
    toggle_starred, u_lower, with_flags, EmailBody, EmailFlags, EmailRow,
};
use docvis_mail::schema::{CHECKPOINT, DEFAULT_GROUP, PRAGMAS, SCHEMA};
use docvis_mail::statements::{SqlValue, Statement};

fn num(s: &Statement, i: usize) -> i64 {
    match &s.params[i] {
        SqlValue::Int(n) => *n,
        _ => panic!("no number at {}", i),
    }
}

fn text(s: &Statement, i: usize) -> String {
    match &s.params[i] {
        SqlValue::Text(t) => t.clone(),
        _ => panic!("no text at {}", i),
    }
}

fn execute(conn: &rusqlite::Connection, s: &Statement) -> usize {
    let values: Vec<rusqlite::types::Value> = s.params.iter().map(|p| match p {
        SqlValue::Int(n) => rusqlite::types::Value::Integer(*n),
        SqlValue::Text(t) => rusqlite::types::Value::Text(t.clone()),
        SqlValue::Null => rusqlite::types::Value::Null,
    }).collect();
    conn.execute(&s.sql, rusqlite::params_from_iter(values)).unwrap()
}

#[test]
fn listing_a_folder() {
    let s = get_emails(1, "INBOX", None, None, None, None);
    assert!(s.sql.contains("ORDER BY date_ts DESC, id DESC"));
    assert!(!s.sql.contains("is_read = 0"));
    assert_eq!((num(&s, 0), text(&s, 1), num(&s, 2), num(&s, 3)), (1, "INBOX".to_string(), 50, 0));
    let s = get_emails(1, "X", Some(9999), Some(-5), Some("unread"), Some("from_desc"));
    assert!(s.sql.contains("folder=?2 AND is_read = 0\n"));
    assert!(s.sql.contains("ORDER BY u_lower(from_addr) DESC, date_ts DESC\n"));
    assert_eq!((num(&s, 2), num(&s, 3)), (500, 0));
    let s = get_emails(1, "X", Some(10), Some(20), Some("attachments"), Some("date_asc"));
    assert!(s.sql.contains(" AND has_attachment = 1"));
    assert!(s.sql.contains("ORDER BY date_ts ASC, id ASC"));
    assert_eq!((num(&s, 2), num(&s, 3)), (10, 20));
    let s = get_emails(1, "X", None, None, Some("'; DROP TABLE emails"), Some("subject_asc"));
    assert!(!s.sql.contains("DROP"));
    assert!(s.sql.contains("u_lower(subject) ASC"));
    assert!(get_emails(1, "X", None, None, None, Some("subject_desc")).sql.contains("u_lower(subject) DESC"));
    assert!(get_emails(1, "X", None, None, None, Some("from_asc")).sql.contains("u_lower(from_addr) ASC"));
}

#[test]
fn searching_ignores_case() {
    let s = search_emails(2, "  Привет МИР ", None).unwrap();
    assert_eq!((num(&s, 0), text(&s, 1), num(&s, 2)), (2, "%привет мир%".to_string(), 200));
    assert!(search_emails(2, " \t", None).is_none());
    assert_eq!(num(&search_for(2, "x", Some(700)), 2), 500);
    assert_eq!(u_lower(Some("ÀБ".to_string())).unwrap(), "àб");
    assert!(u_lower(None).is_none());
}

fn email_row(uid: i64) -> EmailRow {
    EmailRow {
        id: 1,
        uid,
        folder: "F".to_string(),
        from_addr: "a".to_string(),
        to_addr: "b".to_string(),
        subject: "s".to_string(),
        date: "d".to_string(),
        date_ts: 9,
        is_read: 0,
        is_starred: 1,
        has_attachment: 2,
        snippet: "n".to_string(),
    }
}

#[test]
fn rows_are_read() {
    let i = read_item(email_row(5));
    assert_eq!((i.id, i.uid, i.is_read, i.is_starred, i.has_attachment), (1, 5, false, true, true));
    assert_eq!(i.snippet, "n");
    assert_eq!(read_item(email_row(-1)).uid, u32::MAX);
    assert_eq!(read_item(email_row(4294967298)).uid, 2);
    let n = notification(&i);
    assert_eq!((n.id, n.from_addr.as_str(), n.subject.as_str(), n.has_attachment), (1, "a", "s", true));
    assert_eq!(num(&item_query(3), 0), 3);
    let body = EmailBody {
        id: 1,
        from_addr: String::new(),
        to_addr: String::new(),
        cc_addr: String::new(),
        subject: "s".to_string(),
        date: String::new(),
        body_html: String::new(),
        body_text: String::new(),
        is_read: false,
        is_starred: false,
        has_attachment: false,
        read_receipt_to: None,
        read_receipt_sent: false,
    };
    let b = with_flags(body, &EmailFlags { is_read: 1, is_starred: 0, has_attachment: -1, read_receipt_sent: 1 });
    assert_eq!((b.is_read, b.is_starred, b.has_attachment, b.read_receipt_sent), (true, false, true, true));
    assert_eq!(b.subject, "s");
    assert_eq!(num(&get_email_body(4), 0), 4);
}

#[test]
fn marks_and_stars() {
    assert_eq!((num(&mark_read(5, true), 0), num(&mark_read(5, true), 1)), (1, 5));
    assert_eq!(num(&mark_read(5, false), 0), 0);
    let m = mark_read_bulk(&vec![1, 2], true);
    assert_eq!((m.len(), num(&m[1], 1)), (2, 2));
    let (s, on) = toggle_starred(5, 0);
    assert!(on);
    assert_eq!((num(&s, 0), num(&s, 1)), (1, 5));
    let (s, on) = toggle_starred(5, 1);
    assert!(!on);
    assert_eq!(num(&s, 0), 0);
    assert_eq!(num(&star_query(6), 0), 6);
    assert_eq!(num(&sender_query(6), 0), 6);
    assert_eq!(text(&mark_all_read(1, "F"), 1), "F");
}

#[test]
fn moving_and_deleting_in_the_database() {
    assert!(move_to_trash(1).sql.contains("'Trash'"));
    assert!(move_to_spam(1).sql.contains("'Spam'"));
    assert!(move_from_spam(1).sql.contains("'INBOX'"));
    let (a, e) = delete_permanently(3);
    assert!(a.sql.contains("attachments"));
    assert_eq!((num(&a, 0), num(&e, 0)), (3, 3));
    let d = delete_emails_bulk(&vec![1, 2], true);
    assert!(d[1].attachments.is_some());
    assert_eq!(num(&d[1].email, 0), 2);
    let d = delete_emails_bulk(&vec![1], false);
    assert!(d[0].attachments.is_none());
    assert!(d[0].email.sql.contains("Trash"));
    assert_eq!(changed_emails(&vec![1, 0, 5]), 2);
    assert!(clear_trash(1).find.sql.contains("'Trash'") && clear_trash(1).delete.sql.contains("'Trash'"));
    assert!(clear_spam(1).find.sql.contains("'Spam'") && clear_spam(1).delete.sql.contains("'Spam'"));
    assert!(delete_draft(1).sql.contains("'Drafts'"));
}

#[test]
fn the_statements_fit_the_tables() {
    let conn = rusqlite::Connection::open_in_memory().unwrap();
    conn.execute_batch(PRAGMAS).ok();
    conn.execute_batch(SCHEMA).unwrap();
    conn.execute(DEFAULT_GROUP, []).unwrap();
    conn.execute_batch(CHECKPOINT).unwrap();
    conn.create_scalar_function(
        "u_lower",
        1,
        rusqlite::functions::FunctionFlags::SQLITE_UTF8,
        |ctx| {
            let t: Option<String> = ctx.get(0)?;
            Ok(u_lower(t))
        },
    ).unwrap();
    for s in [
        get_emails(1, "F", None, None, Some("unread"), Some("from_asc")),
        search_emails(1, "q", None).unwrap(),
        get_email_body(1),
        item_query(1),
        star_query(1),
        sender_query(1),
        get_unread_count(1),
        get_all_unread_counts(),
        get_draft_count(1),
        get_account_by_id(1),
        get_accounts(),
        email_query(1),
        purge_settings_query(1),
        docvis_mail::purge::old_emails(1, 10, 1),
        docvis_mail::moving::locate(1, 1),
        docvis_mail::folders::get_cached_folders(1),
        docvis_mail::attachments::get_attachments(1),
        docvis_mail::attachments::unsaved_attachments(1),
        docvis_mail::attachments::saved_path_query("p"),
        docvis_mail::attachments::email_time(1),
        docvis_mail::address_book::get_contacts(),
        docvis_mail::address_book::get_contacts_by_group(1),
        docvis_mail::address_book::get_groups(),
        docvis_mail::address_book::get_contact_groups(1),
        docvis_mail::address_book::default_group_id(),
        docvis_mail::address_book::contact_by_email("e"),
    ] {
        let st = conn.prepare(&s.sql).unwrap();
        assert_eq!(st.parameter_count(), s.params.len(), "{}", s.sql);
    }
    assert_eq!(execute(&conn, &save_account("me@x.org", &settings())), 1);
    assert_eq!(execute(&conn, &update_account(1, &settings(), "sig")), 1);
    assert_eq!(execute(&conn, &mark_read(1, true)), 0);
    assert_eq!(execute(&conn, &reset_folder_state(1)), 0);
    let draft = docvis_mail::send::Draft {
        account_id: 1,
        to: "t".to_string(),
        cc: String::new(),
        subject: "Тема".to_string(),
        body_text: "b".to_string(),
        body_html: String::new(),
    };
    match docvis_mail::send::save_draft(&draft, None, "d", 1) {
        docvis_mail::send::DraftStep::Insert(s) => assert_eq!(execute(&conn, &s), 1),
        _ => panic!(),
    }
    let id = conn.last_insert_rowid();
    assert_eq!(execute(&conn, &docvis_mail::send::number_own(id)), 1);
    match docvis_mail::send::save_draft(&draft, Some(id), "d", 1) {
        docvis_mail::send::DraftStep::Change { statement, .. } => assert_eq!(execute(&conn, &statement), 1),
        _ => panic!(),
    }
    assert_eq!(execute(&conn, &docvis_mail::sync::filter_blacklisted_to_spam(1)), 0);
    let (list, sweep) = docvis_mail::address_book::blacklist_sender("X <x@y.org>").unwrap();
    assert_eq!(execute(&conn, &list), 1);
    assert_eq!(execute(&conn, &sweep), 0);
    assert_eq!(execute(&conn, &docvis_mail::store::block_sender("A <A@b>").unwrap()), 1);
    assert_eq!(execute(&conn, &docvis_mail::store::unblock_sender("a@B")), 1);
    assert_eq!(execute(&conn, &delete_draft(id)), 1);
}

fn settings() -> AccountSettings {
    AccountSettings {
        name: "N".to_string(),
        imap_host: "i".to_string(),
        imap_port: 993,
        smtp_host: "s".to_string(),
        smtp_port: 465,
        delete_after_days: None,
        delete_permanent: true,
    }
}

#[test]
fn accounts_are_kept() {
    let s = save_account("me@x.org", &settings());
    assert_eq!(s.params.len(), 8);
    assert_eq!((text(&s, 0), num(&s, 3), num(&s, 5), num(&s, 7)), ("me@x.org".to_string(), 993, 465, 1));
    assert!(matches!(s.params[6], SqlValue::Null));
    let s = update_account(4, &settings(), "sig");
    assert_eq!((text(&s, 7), num(&s, 8)), ("sig".to_string(), 4));
    let (e, a) = delete_account(4);
    assert!(e.sql.contains("emails") && a.sql.contains("accounts"));
    assert_eq!(num(&a, 0), 4);
}

#[test]
fn passwords_of_accounts() {
    assert_eq!(actual_password("new".to_string(), None).ok().unwrap(), "new");
    assert_eq!(actual_password(String::new(), Some("old".to_string())).ok().unwrap(), "old");
    assert_eq!(actual_password(String::new(), None).err().unwrap(), "Пароль не найден в хранилище");
    let account = Account {
        id: 1,
        email: "e".to_string(),
        name: "n".to_string(),
        imap_host: "i".to_string(),
        imap_port: 1,
        smtp_host: "s".to_string(),
        smtp_port: 2,
        password: "x".to_string(),
    };
    let a = with_password(account, Some("secret".to_string()));
    assert_eq!((a.password.as_str(), a.email.as_str()), ("secret", "e"));
    assert_eq!(with_password(a, None).password, "");
}
