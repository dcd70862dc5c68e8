use docvis_mail::message::{
    collect_attachments, collect_parts, header_keys, mail_from_parts, read_mail, snippet_from_text,
    without_tags, MailPart,
};
use docvis_mail::statements::{SqlValue, Statement};
use docvis_mail::store::{
    attachment_name, block_sender, is_sender_blocked, keep_file, unblock_sender, StoreEvent, StoreJob,
    StoreStep,
};

fn part(disposition: Option<&str>, ctype: Option<&str>, mime: &str, size: usize, text: &str) -> MailPart {
    let mut headers: Vec<Option<String>> = vec![None; 8];
    headers.push(disposition.map(|s| s.to_string()));
    headers.push(ctype.map(|s| s.to_string()));
    MailPart {
        headers,
        mimetype: mime.to_string(),
        size,
        raw: Some(text.as_bytes().to_vec()),
        text: Some(text.to_string()),
    }
}

fn num(s: &Statement, i: usize) -> i64 {
    match &s.params[i] {
        SqlValue::Int(n) => *n,
        _ => panic!("no number at {}", i),
    }
}

fn text(s: &Statement, i: usize) -> String {
    match &s.params[i] {
        SqlValue::Text(t) => t.clone(),
        _ => panic!("no text at {}", i),
    }
}

#[test]
fn snippets_are_short_and_on_one_line() {
    assert_eq!(snippet_from_text("  a\r\nb\nc ", 100), "abc");
    assert_eq!(snippet_from_text("привет", 6), "привет");
    assert_eq!(snippet_from_text("привет", 5), "приве…");
    assert_eq!(snippet_from_text("", 5), "");
    assert_eq!(snippet_from_text("abc", 0), "…");
}

#[test]
fn tags_leave_a_space() {
    assert_eq!(without_tags("<p>Hi <b>you</b></p>"), " Hi  you  ");
    assert_eq!(without_tags("a<b"), "a");
    assert_eq!(without_tags("a>b"), "a b");
}

#[test]
fn the_header_names_in_order() {
    let k = header_keys();
    assert_eq!(k.len(), 10);
    assert_eq!(k[0], "From");
    assert_eq!(k[6], "Disposition-Notification-To");
    assert_eq!(k[8], "Content-Disposition");
    assert_eq!(k[9], "Content-Type");
}

#[test]
fn attachments_among_parts() {
    let parts = vec![
        part(None, Some("multipart/mixed; name=\"x\""), "multipart/mixed", 5, ""),
        part(None, None, "text/plain", 1, "hello"),
        part(Some("ATTACHMENT; filename=\"a.pdf\""), None, "application/PDF", 1, "data"),
        part(Some("attachment"), None, "application/zip", 1, ""),
        part(Some("inline"), Some("image/png; name=pic.png"), "image/png", 1, "img"),
    ];
    let a = collect_attachments(&parts);
    assert_eq!(a.len(), 2);
    assert_eq!(a[0].filename, "a.pdf");
    assert_eq!(a[0].mime_type, "application/pdf");
    assert_eq!(a[0].data, b"data");
    assert_eq!(a[1].filename, "pic.png");
}

#[test]
fn an_attached_container_is_not_a_file_but_hides_its_texts() {
    let parts = vec![
        part(None, None, "multipart/mixed", 4, ""),
        part(Some("attachment"), None, "message/rfc822", 2, "x"),
        part(None, None, "text/plain", 1, "inner"),
        part(None, None, "text/html", 1, "<p>outer</p>"),
    ];
    assert!(collect_attachments(&parts).is_empty());
    let b = collect_parts(&parts, false);
    assert_eq!(b.text, "");
    assert_eq!(b.html, "<p>outer</p>");
    assert!(b.attach);
}

#[test]
fn the_first_text_of_each_kind_counts() {
    let parts = vec![
        part(None, None, "multipart/alternative", 5, ""),
        part(None, None, "text/plain", 1, ""),
        part(None, None, "TEXT/PLAIN", 1, "one"),
        part(None, None, "text/plain", 1, "two"),
        part(None, None, "text/html", 1, "<b>h</b>"),
    ];
    let b = collect_parts(&parts, true);
    assert_eq!(b.text, "one");
    assert_eq!(b.html, "<b>h</b>");
    assert!(b.attach);
}

#[test]
fn a_message_of_parts() {
    let mut top = part(None, None, "text/html", 1, "<p>Hello</p>\r\n<p>World</p>");
    top.headers[0] = Some("Ann <ann@x.org>".to_string());
    top.headers[3] = Some("Subject".to_string());
    top.headers[6] = Some("".to_string());
    top.headers[7] = Some("other@x.org".to_string());
    let m = mail_from_parts(&vec![top], 7);
    assert_eq!(m.from, "Ann <ann@x.org>");
    assert_eq!(m.subject, "Subject");
    assert_eq!(m.to, "");
    assert_eq!(m.date_ts, 7);
    assert!(m.read_receipt_to.is_none());
    assert_eq!(m.snippet, "Hello  World");
    assert!(!m.has_attachment);
    let none = mail_from_parts(&Vec::new(), 0);
    assert_eq!(none.from, "");
    assert_eq!(none.snippet, "");
}

const RAW: &str = "From: =?UTF-8?B?0JjQstCw0L0=?= <ivan@example.com>\r\n\
To: me@example.com\r\n\
Subject: Test\r\n\
Date: Sun, 02 Oct 2016 07:06:22 -0700\r\n\
Message-ID: <1@example.com>\r\n\
Return-Receipt-To: ivan@example.com\r\n\
Content-Type: multipart/mixed; boundary=\"b\"\r\n\
\r\n\
--b\r\n\
Content-Type: multipart/alternative; boundary=\"c\"\r\n\
\r\n\
--c\r\n\
Content-Type: text/plain; charset=utf-8\r\n\
\r\n\
Plain text\r\n\
--c\r\n\
Content-Type: text/html\r\n\
\r\n\
<p>Rich</p>\r\n\
--c--\r\n\
--b\r\n\
Content-Type: application/pdf\r\n\
Content-Disposition: attachment; filename=\"../r.pdf\"\r\n\
Content-Transfer-Encoding: base64\r\n\
\r\n\
SGVsbG8=\r\n\
--b--\r\n";

#[test]
fn a_message_is_read_from_its_bytes() {
    let m = read_mail(5, RAW.as_bytes()).ok().unwrap();
    assert_eq!(m.from, "Иван <ivan@example.com>");
    assert_eq!(m.to, "me@example.com");
    assert_eq!(m.cc, "");
    assert_eq!(m.subject, "Test");
    assert_eq!(m.date_ts, 1475417182);
    assert_eq!(m.message_id, "<1@example.com>");
    assert_eq!(m.read_receipt_to.as_deref(), Some("ivan@example.com"));
    assert_eq!(m.body_text.trim(), "Plain text");
    assert_eq!(m.body_html.trim(), "<p>Rich</p>");
    assert_eq!(m.snippet, "Plain text");
    assert!(m.has_attachment);
    assert_eq!(m.attachments.len(), 1);
    assert_eq!(m.attachments[0].filename, "..r.pdf");
    assert_eq!(m.attachments[0].mime_type, "application/pdf");
    assert_eq!(m.attachments[0].data, b"Hello");
}

#[test]
fn a_date_that_cannot_be_read_is_zero() {
    let m = read_mail(1, b"Date: soon\r\n\r\nx").ok().unwrap();
    assert_eq!(m.date, "soon");
    assert_eq!(m.date_ts, 0);
}

#[test]
fn a_message_that_cannot_be_read_is_an_error() {
    let e = read_mail(77, b" bad").err().unwrap();
    assert!(e.starts_with("parse_mail error uid=77: "), "{}", e);
    assert!(e.contains("space"), "{}", e);
}

fn job(folder: &str, from: &str, files: bool) -> StoreJob {
    let mut mail = read_mail(9, RAW.as_bytes()).ok().unwrap();
    mail.from = from.to_string();
    if !files {
        mail.attachments.clear();
    }
    StoreJob { account_id: 3, folder: folder.to_string(), uid: 9, mail }
}

#[test]
fn storing_a_message_of_a_blocked_sender() {
    let j = job("INBOX", "Bad <BAD@x.org>", true);
    let s0 = j.parse_and_store();
    assert!(s0 == StoreStep::AskSender);
    let q = j.statement(s0).unwrap();
    assert_eq!(q.sql, "SELECT 1 FROM blocked_senders WHERE email = ?1 COLLATE NOCASE");
    assert_eq!(text(&q, 0), "bad@x.org");
    let s1 = j.next(s0, StoreEvent::Found(true));
    assert!(s1 == StoreStep::AskKnown { blocked: true });
    let q = j.statement(s1).unwrap();
    assert_eq!((num(&q, 0), num(&q, 1)), (3, 9));
    let s2 = j.next(s1, StoreEvent::Found(false));
    let q = j.statement(s2).unwrap();
    assert_eq!(q.params.len(), 15);
    assert_eq!(text(&q, 2), "Spam");
    assert_eq!(num(&q, 10), 1);
    assert_eq!(num(&q, 13), 1475417182);
    assert_eq!(text(&q, 14), "ivan@example.com");
    let s3 = j.next(s2, StoreEvent::Inserted { changed: 1, id: 42 });
    assert!(s3 == StoreStep::SaveFiles(42));
    assert!(j.statement(s3).is_none());
    assert!(j.next(s3, StoreEvent::Saved) == StoreStep::Done(Some(42)));
}

#[test]
fn a_known_message_is_not_new() {
    let j = job("Sent", "ann@x.org", false);
    let s0 = j.parse_and_store();
    assert!(s0 == StoreStep::AskKnown { blocked: false });
    assert!(j.next(s0, StoreEvent::Found(true)) == StoreStep::Done(None));
    let s1 = j.next(s0, StoreEvent::Found(false));
    assert_eq!(text(&j.statement(s1).unwrap(), 2), "Sent");
    assert!(j.next(s1, StoreEvent::Inserted { changed: 0, id: 1 }) == StoreStep::Done(None));
    assert!(j.next(s1, StoreEvent::Inserted { changed: 1, id: 8 }) == StoreStep::Done(Some(8)));
    assert!(j.next(s1, StoreEvent::Refused) == StoreStep::Failed);
    assert!(j.next(s1, StoreEvent::Saved) == s1);
}

#[test]
fn a_message_without_a_sender_is_not_blocked() {
    assert!(job("INBOX", " ", false).parse_and_store() == StoreStep::AskKnown { blocked: false });
    assert!(is_sender_blocked("").is_none());
    assert!(block_sender("<>").is_none());
}

#[test]
fn blocking_and_unblocking_name_the_same_address() {
    let from = "X <X@Y.org>";
    let a = text(&is_sender_blocked(from).unwrap(), 0);
    let b = text(&block_sender(from).unwrap(), 0);
    let c = text(&unblock_sender(from), 0);
    assert_eq!(a, "x@y.org");
    assert_eq!(a, b);
    assert_eq!(b, c);
}

#[test]
fn names_of_saved_attachments() {
    assert_eq!(attachment_name("a.pdf", 5), "a.pdf");
    assert_eq!(attachment_name("attachment", 1700000000123), "attachment_1700000000123.bin");
    assert_eq!(attachment_name("", -12), "attachment_-12.bin");
    let s = keep_file(1, "a", "text/plain", "/tmp/a", 5);
    assert_eq!(s.params.len(), 5);
    assert_eq!(num(&s, 0), 1);
    assert_eq!(text(&s, 3), "/tmp/a");
    assert_eq!(num(&s, 4), 5);
}
