use docvis_mail::addresses::{
    checked_mailbox_list, extract_email_addr, judge_mailbox, name_and_email, parse_mailbox_list,
    parse_single_mailbox, receipt_address, split_mailbox_list,
};

#[test]
fn the_address_of_a_sender() {
    assert_eq!(extract_email_addr("Иван Петров <Ivan@Mail.RU>"), "ivan@mail.ru");
    assert_eq!(extract_email_addr("  USER@HOST "), "user@host");
    assert_eq!(extract_email_addr("<  A@B >"), "a@b");
    assert_eq!(extract_email_addr("a < b"), "a < b");
    assert_eq!(extract_email_addr("<>"), "");
    assert_eq!(extract_email_addr("ПОЧТА@ЯЩИК.РФ"), "почта@ящик.рф");
    assert_eq!(extract_email_addr(""), "");
    assert_eq!(extract_email_addr("A <a@x.org>, B <b@x.org>"), "a@x.org");
}

#[test]
fn brackets_in_the_name_of_a_sender() {
    assert_eq!(extract_email_addr("\"A > B\" <X@y.z>"), "x@y.z");
    assert_eq!(extract_email_addr("\"A <b> C\" <x@y.z>"), "x@y.z");
    assert_eq!(extract_email_addr("A > B <x@y.z>"), "x@y.z");
    assert_eq!(extract_email_addr("5\" disk <x@y.z>"), "x@y.z");
    assert_eq!(extract_email_addr("a > b"), "a > b");
    assert_eq!(extract_email_addr("> a <"), "> a <");
}

#[test]
fn a_line_that_is_quoted_as_a_whole() {
    assert_eq!(extract_email_addr("\"<X@y>\""), "x@y");
    assert_eq!(extract_email_addr("\"Ivan <x@y>\""), "x@y");
    assert_eq!(extract_email_addr("5\" a <x@y> 6\" b"), "x@y");
    assert_eq!(extract_email_addr("\"A <b>\" <c"), "b");
    let m = parse_single_mailbox("\"Ivan <i@x.ru>\"").ok().unwrap();
    assert_eq!(m.name.as_deref(), Some("Ivan"));
    assert_eq!(m.email, "i@x.ru");
    let l = parse_mailbox_list("\"A <a@x.ru>, B <b@x.ru>\"").ok().unwrap();
    assert_eq!(l.len(), 2);
    assert_eq!((l[0].name.as_deref(), l[0].email.as_str()), (Some("A"), "a@x.ru"));
    assert_eq!((l[1].name.as_deref(), l[1].email.as_str()), (Some("B"), "b@x.ru"));
}

#[test]
fn the_address_of_an_address() {
    for from in ["Name <User@Host>", " A@B ", "\"A <b> C\" <X@y.z>", "\"<X@y>\"", ""] {
        let once = extract_email_addr(from);
        assert_eq!(extract_email_addr(&once), once);
    }
}

#[test]
fn name_and_address_of_a_contact() {
    let (n, e) = name_and_email("\"Иван\" <ivan@mail.ru>>");
    assert_eq!((n.as_str(), e.as_str()), ("Иван", "ivan@mail.ru"));
    let (n, e) = name_and_email(" user@host ");
    assert_eq!((n.as_str(), e.as_str()), ("", "user@host"));
    let (n, e) = name_and_email("x <");
    assert_eq!((n.as_str(), e.as_str()), ("x", ""));
}

#[test]
fn a_mailbox_with_a_name() {
    let m = parse_single_mailbox("\"Anna B.\" <anna@example.com>").ok().unwrap();
    assert_eq!(m.name.as_deref(), Some("Anna B."));
    assert_eq!(m.email, "anna@example.com");
    let m = parse_single_mailbox("anna@example.com").ok().unwrap();
    assert!(m.name.is_none());
    assert_eq!(m.email, "anna@example.com");
    let m = parse_single_mailbox("\"\" < anna@example.com >").ok().unwrap();
    assert!(m.name.is_none());
    assert_eq!(m.email, "anna@example.com");
}

#[test]
fn a_bad_mailbox_is_refused_with_its_address() {
    let e = parse_single_mailbox("X <not an address>").err().unwrap();
    assert!(e.starts_with("Некорректный email 'not an address': "), "{}", e);
    assert!(e.len() > "Некорректный email 'not an address': ".len());
    let e = judge_mailbox("X <a>", Some("why".to_string())).err().unwrap();
    assert_eq!(e, "Некорректный email 'a': why");
}

#[test]
fn lists_are_cut_outside_brackets() {
    let d = split_mailbox_list("A <a@x.org>, , \"B\" <b,c@x.org> ,d@x.org,");
    let d: Vec<String> = d.iter().map(|v| v.iter().collect()).collect();
    assert_eq!(d, vec!["A <a@x.org>", "\"B\" <b,c@x.org>", "d@x.org"]);
    assert!(split_mailbox_list(" , ").is_empty());
    assert_eq!(split_mailbox_list("a>,b").len(), 2);
}

#[test]
fn commas_in_quotation_marks_do_not_cut_a_list() {
    let l = parse_mailbox_list("\"Petrov, Ivan\" <i@x.ru>").ok().unwrap();
    assert_eq!(l.len(), 1);
    assert_eq!(l[0].name.as_deref(), Some("Petrov, Ivan"));
    assert_eq!(l[0].email, "i@x.ru");
    let l = checked_mailbox_list("a@x.ru, \"B, <C>, D >\" <b@x.ru>,c@x.ru").unwrap().ok().unwrap();
    assert_eq!(l.len(), 3);
    assert_eq!(l[1].name.as_deref(), Some("B, <C>, D >"));
    assert_eq!(l[1].email, "b@x.ru");
    assert_eq!(l[2].email, "c@x.ru");
    let m = parse_single_mailbox("\"A > B < C\" <x@y.org>").ok().unwrap();
    assert_eq!(m.name.as_deref(), Some("A > B < C"));
    assert_eq!(m.email, "x@y.org");
}

#[test]
fn a_single_quotation_mark_quotes_nothing() {
    let l = parse_mailbox_list("5\" disk <a@x.ru>, b@x.ru").ok().unwrap();
    assert_eq!(l.len(), 2);
    assert_eq!(l[0].name.as_deref(), Some("5\" disk"));
    let d = split_mailbox_list("\"A, B\" <a@x.ru>, C \" D, e@x.ru");
    assert_eq!(d.len(), 3);
}

#[test]
fn marks_that_are_not_around_a_name_quote_nothing() {
    let l = parse_mailbox_list("5\" a <a@x.ru>, 6\" b <b@x.ru>").ok().unwrap();
    assert_eq!(l.len(), 2);
    assert_eq!((l[1].name.as_deref(), l[1].email.as_str()), (Some("6\" b"), "b@x.ru"));
    let d = split_mailbox_list("\"A, B\", c@x.ru");
    assert_eq!(d.len(), 3);
    let l = parse_mailbox_list("Dr. \"A, B\" C <c@x.ru>").ok().unwrap();
    assert_eq!(l.len(), 1);
    let e = checked_mailbox_list("a> <b \">\"").unwrap().err().unwrap();
    assert!(e.starts_with("Некорректный email 'b \"': "), "{}", e);
}

#[test]
fn a_list_of_mailboxes() {
    let l = parse_mailbox_list("Имя <a@b.com>, c@d.com").ok().unwrap();
    assert_eq!(l.len(), 2);
    assert_eq!(l[0].name.as_deref(), Some("Имя"));
    assert_eq!(l[0].email, "a@b.com");
    assert_eq!(l[1].email, "c@d.com");
    assert!(parse_mailbox_list("").ok().unwrap().is_empty());
    let e = parse_mailbox_list("a@b.com, oops, c@d.com").err().unwrap();
    assert!(e.starts_with("Некорректный email 'oops': "));
}

#[test]
fn brackets_out_of_order_are_noticed() {
    assert!(checked_mailbox_list("> x <").is_none());
    assert!(checked_mailbox_list("a@b.com, > x <").is_none());
    assert!(checked_mailbox_list("bad, > x <").unwrap().is_err());
    assert_eq!(checked_mailbox_list("a@b.com").unwrap().ok().unwrap().len(), 1);
}

#[test]
fn the_address_of_a_receipt() {
    assert_eq!(receipt_address(" Ann <ann@x.org> "), "ann@x.org");
    assert_eq!(receipt_address("ann@x.org"), "ann@x.org");
    assert_eq!(receipt_address("<ann@x.org >>"), "ann@x.org");
}
