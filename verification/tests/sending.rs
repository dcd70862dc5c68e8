use docvis_mail::attachments::read_attachment_b64;
use docvis_mail::send::{
    checked_send_mail, choose_type, compose, compose_receipt, dismiss_read_receipt, draft_changed,
    escape, file_data, html_body, keep_sent, keep_sent_file, number_own, receipt_next, save_draft, send_mail,
    send_mdn, send_next, sent_file_name, Draft, DraftStep, FileAttachment, SendEvent,
    SendMailRequest, SendStage, Sender,
};
use docvis_mail::statements::{SqlValue, Statement};

fn num(s: &Statement, i: usize) -> i64 {
    match &s.params[i] {
        SqlValue::Int(n) => *n,
        _ => panic!("no number at {}", i),
    }
}

fn text(s: &Statement, i: usize) -> String {
    match &s.params[i] {
        SqlValue::Text(t) => t.clone(),
        _ => panic!("no text at {}", i),
    }
}

fn sender() -> Sender {
    Sender { email: "me@example.com".to_string(), name: "Me".to_string() }
}

fn request(to: &str, cc: &str) -> SendMailRequest {
    SendMailRequest {
        account_id: 6,
        to: to.to_string(),
        cc: cc.to_string(),
        subject: "Subj".to_string(),
        body: "1 < 2 > 0\nend".to_string(),
        body_html: None,
        attachments: Vec::new(),
        read_receipt: false,
    }
}

fn file(name: &str, data: &str, mime: &str) -> FileAttachment {
    FileAttachment { filename: name.to_string(), data_b64: data.to_string(), mime_type: mime.to_string() }
}

#[test]
fn text_becomes_html() {
    assert_eq!(escape("a<b>&c"), "a&lt;b&gt;&c");
    assert_eq!(
        html_body(&None, "x<y"),
        "<pre style='font-family:sans-serif;white-space:pre-wrap'>x&lt;y</pre>"
    );
    assert_eq!(html_body(&Some("<b>".to_string()), "x"), "<b>");
}

#[test]
fn a_message_is_composed() {
    let mut req = request(" Ann <ann@x.org>, bob@x.org ", " carl@x.org ");
    req.read_receipt = true;
    req.attachments.push(file("a.txt", "SGVsbG8=", "text/plain"));
    req.attachments.push(file("b", "*bad*", "no type"));
    let out = send_mail(&sender(), &req).ok().unwrap();
    assert_eq!(out.from.name.as_deref(), Some("Me"));
    assert_eq!(out.from.email, "me@example.com");
    assert_eq!(out.to.len(), 2);
    assert_eq!(out.to[0].name.as_deref(), Some("Ann"));
    assert_eq!(out.to[1].email, "bob@x.org");
    assert_eq!(out.cc.len(), 1);
    assert_eq!(out.notify.as_deref(), Some("me@example.com"));
    assert_eq!(out.text, "1 < 2 > 0\nend");
    assert!(out.html.contains("1 &lt; 2 &gt; 0"));
    assert_eq!(out.files[0].data, b"Hello");
    assert_eq!(out.files[0].mime_type, "text/plain");
    assert!(out.files[1].data.is_empty());
    assert_eq!(out.files[1].mime_type, "application/octet-stream");
}

#[test]
fn what_is_wrong_with_a_message_is_said() {
    let bad = Sender { email: "nobody".to_string(), name: String::new() };
    let e = send_mail(&bad, &request("ann@x.org", "")).err().unwrap();
    assert!(e.starts_with("Email отправителя: "), "{}", e);
    let e = send_mail(&sender(), &request("oops", "")).err().unwrap();
    assert!(e.starts_with("Поле «Кому»: Некорректный email 'oops': "), "{}", e);
    assert_eq!(send_mail(&sender(), &request(" , ", "")).err().unwrap(), "Не указан получатель");
    let e = send_mail(&sender(), &request("ann@x.org", "oops")).err().unwrap();
    assert!(e.starts_with("Поле «Копия»: Некорректный email 'oops': "), "{}", e);
}

#[test]
fn brackets_out_of_order_stop_a_message() {
    assert!(checked_send_mail(&sender(), &request("> a <", "")).is_none());
    assert!(checked_send_mail(&sender(), &request("ann@x.org", "> a <")).is_none());
    assert!(checked_send_mail(&sender(), &request("", "> a <")).unwrap().is_err());
    let bad = Sender { email: "nobody".to_string(), name: String::new() };
    assert!(checked_send_mail(&bad, &request("> a <", "")).unwrap().is_err());
    assert!(checked_send_mail(&sender(), &request("ann@x.org", "")).unwrap().is_ok());
}

#[test]
fn composing_from_given_verdicts() {
    let req = request("x", "y");
    let no = |m: &str| Err(m.to_string());
    assert_eq!(compose(&sender(), &req, Some("f".to_string()), no("t"), no("c")).err().unwrap(), "Email отправителя: f");
    assert_eq!(compose(&sender(), &req, None, no("t"), no("c")).err().unwrap(), "Поле «Кому»: t");
    assert_eq!(compose(&sender(), &req, None, Ok(Vec::new()), no("c")).err().unwrap(), "Не указан получатель");
}

#[test]
fn attached_bytes_arrive() {
    for data in [b"".as_slice(), b"a", b"ab", b"abc", b"abcd", &[0, 255, 128, 7, 9]] {
        let encoded = read_attachment_b64(data, "").b64;
        assert_eq!(file_data(&encoded), data);
    }
    assert!(file_data("SGVsbG8").is_empty());
    assert!(file_data("SGVsbG9=").is_empty());
    assert!(file_data("привет").is_empty());
    assert_eq!(choose_type("a/b", true), "a/b");
    assert_eq!(choose_type("a/b", false), "application/octet-stream");
}

#[test]
fn what_was_sent_is_kept() {
    let mut req = request("ann@x.org", "c");
    req.attachments.push(file("f", "", ""));
    let s = keep_sent("me@example.com", &req, "date", 77);
    assert_eq!(s.params.len(), 11);
    assert_eq!(num(&s, 0), 6);
    assert_eq!(text(&s, 1), "me@example.com");
    assert_eq!(text(&s, 2), "ann@x.org");
    assert_eq!(num(&s, 6), 77);
    assert!(text(&s, 8).starts_with("<pre"));
    assert_eq!(num(&s, 9), 1);
    assert_eq!(text(&s, 10), "1 < 2 > 0end");
    assert_eq!(number_own(5).sql, "UPDATE emails SET uid=?1 WHERE id=?1");
    assert_eq!(num(&number_own(5), 0), 5);
    assert_eq!(sent_file_name("../a?.txt", 1), "..a.txt");
    assert_eq!(sent_file_name("", 12), "attachment_12.bin");
    let k = keep_sent_file(5, &file("f", "", "a/b"), "f", "/p", 3);
    assert_eq!(text(&k, 2), "a/b");
}

#[test]
fn the_stages_of_sending() {
    let mut req = request("a", "");
    let go = |r: &SendMailRequest, s, e| send_next(r, s, e);
    assert!(go(&req, SendStage::Transmit, SendEvent::Transmitted(false)) == SendStage::Failed);
    assert!(go(&req, SendStage::Transmit, SendEvent::Transmitted(true)) == SendStage::Keep);
    assert!(go(&req, SendStage::Keep, SendEvent::Kept(3)) == SendStage::Number(3));
    assert!(go(&req, SendStage::Number(3), SendEvent::Executed) == SendStage::Done);
    req.attachments.push(file("a", "", ""));
    req.attachments.push(file("b", "", ""));
    assert!(go(&req, SendStage::Number(3), SendEvent::Executed) == SendStage::WriteFile(3, 0));
    assert!(go(&req, SendStage::WriteFile(3, 0), SendEvent::Written(true)) == SendStage::KeepFile(3, 0));
    assert!(go(&req, SendStage::KeepFile(3, 0), SendEvent::Executed) == SendStage::WriteFile(3, 1));
    assert!(go(&req, SendStage::WriteFile(3, 1), SendEvent::Written(false)) == SendStage::Done);
    assert!(go(&req, SendStage::Keep, SendEvent::Executed) == SendStage::Keep);
}

fn draft() -> Draft {
    Draft {
        account_id: 2,
        to: "t".to_string(),
        cc: "c".to_string(),
        subject: "s".to_string(),
        body_text: " b\n".to_string(),
        body_html: "<b>".to_string(),
    }
}

#[test]
fn drafts_are_changed_or_inserted() {
    match save_draft(&draft(), Some(9), "d", 5) {
        DraftStep::Change { id, statement } => {
            assert_eq!(id, 9);
            assert_eq!(statement.params.len(), 10);
            assert_eq!(text(&statement, 5), "b");
            assert_eq!(num(&statement, 8), 9);
            assert_eq!(num(&statement, 9), 2);
        }
        _ => panic!(),
    }
    match save_draft(&draft(), None, "d", 5) {
        DraftStep::Insert(s) => {
            assert_eq!(s.params.len(), 9);
            assert_eq!(num(&s, 0), 2);
            assert_eq!(text(&s, 8), "b");
        }
        _ => panic!(),
    }
    assert!(matches!(draft_changed(&draft(), 9, 1, "d", 5), DraftStep::Done(9)));
    assert!(matches!(draft_changed(&draft(), 9, 0, "d", 5), DraftStep::Insert(_)));
}

#[test]
fn read_receipts() {
    let r = send_mdn(&sender(), "Ann <ann@x.org>", "Hello").ok().unwrap();
    assert_eq!(r.to, "ann@x.org");
    assert_eq!(r.subject, "Прочитано: Hello");
    assert_eq!(
        r.body,
        "Это уведомление о том, что письмо \"Hello\" было прочитано получателем me@example.com."
    );
    let e = send_mdn(&sender(), "x", "Hello").err().unwrap();
    assert!(e.starts_with("Email получателя MDN: "), "{}", e);
    let bad = Sender { email: "x".to_string(), name: String::new() };
    let e = send_mdn(&bad, "x", "Hello").err().unwrap();
    assert!(e.starts_with("Email отправителя: "), "{}", e);
    let e = compose_receipt(&sender(), "x", "s", None, Some("w".to_string())).err().unwrap();
    assert_eq!(e, "Email получателя MDN: w");
    assert_eq!(num(&dismiss_read_receipt(4), 0), 4);
}

#[test]
fn only_a_receipt_that_was_sent_is_noted() {
    let s = receipt_next(4, true).unwrap();
    assert_eq!(s.sql, dismiss_read_receipt(4).sql);
    assert_eq!(num(&s, 0), 4);
    assert!(receipt_next(4, false).is_none());
}
