use docvis_mail::address_book::{
    add_contact_from_email, add_contacts_to_group, add_to_default_group, blacklist_query,
    blacklist_sender, contact_by_email, default_group_id, delete_contact, delete_group, get_contact_groups,
    get_contacts, get_contacts_by_group, get_groups, insert_contacts, read_contact, rename_group,
    save_contact, save_group, saved_contact, set_contact_groups, toggle_contact_blacklist, Contact,
    StoredContact,
};
use docvis_mail::contacts::{
    find_columns, parse_csv_contacts, parse_vcf_content, read_rows, split_csv_row, ContactRow,
};
use docvis_mail::statements::{SqlValue, Statement};

fn num(s: &Statement, i: usize) -> i64 {
    match &s.params[i] {
        SqlValue::Int(n) => *n,
        _ => panic!("no number at {}", i),
    }
}

fn text(s: &Statement, i: usize) -> String {
    match &s.params[i] {
        SqlValue::Text(t) => t.clone(),
        _ => panic!("no text at {}", i),
    }
}

fn row(a: &str, b: &str, c: &str, d: &str, e: &str) -> ContactRow {
    (a.to_string(), b.to_string(), c.to_string(), d.to_string(), e.to_string())
}

#[test]
fn cards_are_read() {
    let vcf = "BEGIN:VCARD\r\nVERSION:3.0\r\nN:Петров;Иван;;;\r\nEMAIL;TYPE=work: ivan@x.org \r\n\
EMAIL:second@x.org\r\nTEL;CELL:+7 900\r\nORG:Acme;Dept\r\nNOTE: hi \r\nEND:VCARD\r\n\
begin:vcard\nFN: Ann \nN:Other;Name\nend:vcard\nFN:outside\n\
BEGIN:VCARD\nTEL:1\nEND:VCARD\n";
    let r = parse_vcf_content(vcf);
    assert_eq!(r.len(), 2);
    assert_eq!(r[0], row("Иван Петров", "ivan@x.org", "+7 900", "Acme", "hi"));
    assert_eq!(r[1], row("Ann", "", "", "", ""));
}

#[test]
fn odd_cards() {
    assert!(parse_vcf_content("").is_empty());
    assert!(parse_vcf_content("END:VCARD").is_empty());
    assert!(parse_vcf_content("BEGIN:VCARD\nFN:A\n").is_empty());
    let r = parse_vcf_content("BEGIN:VCARD\nFN:A\nBEGIN:VCARD\nEMAIL\nEMAIL:b\nEND:VCARD");
    assert_eq!(r, vec![row("", "b", "", "", "")]);
    let r = parse_vcf_content("BEGIN:VCARD\nFN:\nN: Solo \nFN:Late\nEND:VCARD");
    assert_eq!(r[0].0, "Solo");
}

#[test]
fn lines_of_a_table_are_cut() {
    assert_eq!(split_csv_row("a, b ,c"), vec!["a", "b", "c"]);
    assert_eq!(split_csv_row("\"x, y\",z"), vec!["x, y", "z"]);
    assert_eq!(split_csv_row(""), vec![""]);
    assert_eq!(split_csv_row("a,"), vec!["a", ""]);
    assert_eq!(split_csv_row("say \"\"hi\"\""), vec!["say hi"]);
}

#[test]
fn tables_are_read() {
    let csv = "Имя,E-Mail,Телефон,Компания,Заметки\nИван,ivan@x.org,+7,Acme,n\n\n  ,,x,y,z\n\"Ann, B.\",,1\n";
    let r = parse_csv_contacts(csv);
    assert_eq!(r, vec![row("Иван", "ivan@x.org", "+7", "Acme", "n"), row("Ann, B.", "", "1", "", "")]);
    let r = parse_csv_contacts("Given,Family,Mobile\nAnn,Bee,5\n,,\nSolo,,\n");
    assert_eq!(r, vec![row("Ann Bee", "", "5", "", ""), row("Solo", "", "", "", "")]);
    assert!(parse_csv_contacts("").is_empty());
    assert!(parse_csv_contacts("name").is_empty());
    let r = parse_csv_contacts("FIRST NAME,EMAIL\nAnn,a@x\n");
    assert_eq!(r, vec![row("Ann", "a@x", "", "", "")]);
}

#[test]
fn columns_by_their_headings() {
    let h: Vec<String> = ["given name", "surname", "e-mail address", "mobile", "organization", "notes"].iter().map(|s| s.to_string()).collect();
    let c = find_columns(&h);
    assert_eq!(c.name, Some(0));
    assert_eq!(c.first, Some(0));
    assert_eq!(c.last, Some(1));
    assert_eq!(c.email, Some(2));
    assert_eq!(c.phone, Some(3));
    assert_eq!(c.company, Some(4));
    assert_eq!(c.notes, Some(5));
    let r = read_rows(&vec!["x".to_string(), " ".to_string()], &c);
    assert_eq!(r, vec![row("x", "", "", "", "")]);
}

#[test]
fn contacts_from_files_are_kept() {
    let i = insert_contacts(&vec![row("A", "a@x", "1", "c", "n"), row("", "", "9", "", ""), row("", "b@x", "", "", "")]);
    assert_eq!(i.len(), 2);
    assert_eq!(text(&i[0].keep, 0), "A");
    assert_eq!(text(&i[0].keep, 4), "n");
    assert_eq!(text(&i[0].find, 0), "a@x");
    assert_eq!(text(&i[1].find, 0), "b@x");
    assert_eq!(text(&contact_by_email("q"), 0), "q");
    assert!(default_group_id().params.is_empty());
    let g = add_to_default_group(5, Some(1), Some(2));
    assert_eq!((num(&g[0], 0), num(&g[0], 1), num(&g[1], 1)), (5, 1, 2));
    assert!(add_to_default_group(5, None, None).is_empty());
}

fn contact(id: i64) -> Contact {
    Contact {
        id,
        name: "N".to_string(),
        email: "e@x".to_string(),
        phone: "p".to_string(),
        company: "c".to_string(),
        notes: "o".to_string(),
        is_blacklisted: true,
    }
}

#[test]
fn contacts_are_saved() {
    let (s, new) = save_contact(&contact(7));
    assert!(!new);
    assert_eq!(num(&s, 5), 7);
    let (s, new) = save_contact(&contact(0));
    assert!(new);
    assert_eq!(s.params.len(), 5);
    assert_eq!(saved_contact(contact(7), 99).id, 7);
    let c = saved_contact(contact(-1), 99);
    assert_eq!(c.id, 99);
    assert!(c.is_blacklisted);
    assert_eq!(c.name, "N");
    assert_eq!(num(&delete_contact(3), 0), 3);
    assert!(get_contacts().params.is_empty());
    let r = read_contact(StoredContact { id: 1, row: row("a", "b", "c", "d", "e"), is_blacklisted: 2 });
    assert!(r.is_blacklisted);
    assert_eq!(r.notes, "e");
}

#[test]
fn contacts_from_messages() {
    let (c, s) = add_contact_from_email("\"Ann\" <ann@x.org>").ok().unwrap();
    assert_eq!((c.id, c.name.as_str(), c.email.as_str(), c.is_blacklisted), (0, "Ann", "ann@x.org", false));
    assert_eq!(text(&s.keep, 0), "Ann");
    assert_eq!(text(&s.find, 0), "ann@x.org");
    assert_eq!(add_contact_from_email("Ann <>").err().unwrap(), "Не удалось извлечь email");
}

#[test]
fn the_blacklist() {
    let (list, sweep) = blacklist_sender("Ann <ann@x.org>").unwrap();
    assert_eq!((text(&list, 0), text(&list, 1)), ("Ann".to_string(), "ann@x.org".to_string()));
    assert_eq!(text(&sweep, 0), "ann@x.org");
    assert!(blacklist_sender(" ").is_none());
    let q = blacklist_query(4);
    assert_eq!(q.sql, "SELECT is_blacklisted, email FROM contacts WHERE id=?1");
    assert_eq!(q.params.len(), 1);
    assert_eq!(num(&q, 0), 4);
    let t = toggle_contact_blacklist(4, 0, "a@x");
    assert!(t.listed);
    assert_eq!((num(&t.set, 0), num(&t.set, 1)), (1, 4));
    assert_eq!(text(&t.sweep.unwrap(), 0), "a@x");
    let t = toggle_contact_blacklist(4, 1, "a@x");
    assert!(!t.listed);
    assert_eq!(num(&t.set, 0), 0);
    assert!(t.sweep.is_none());
    assert!(toggle_contact_blacklist(4, 0, "").sweep.is_none());
}

#[test]
fn groups_of_contacts() {
    let g = save_group("  Work ").ok().unwrap();
    assert_eq!(g.name, "Work");
    assert_eq!(text(&g.keep, 0), "Work");
    assert_eq!(text(&g.find, 0), "Work");
    assert_eq!(save_group(" ").err().unwrap(), "Название не может быть пустым");
    assert_eq!(rename_group(1, "\t").err().unwrap(), "Название не может быть пустым");
    let r = rename_group(3, " X ").ok().unwrap();
    assert_eq!((text(&r, 0), num(&r, 1)), ("X".to_string(), 3));
    let d = delete_group(3);
    assert_eq!(d[0].sql, "DELETE FROM contact_group_members WHERE group_id=?1");
    assert_eq!(d[1].sql, "DELETE FROM contact_groups WHERE id=?1");
    let s = set_contact_groups(1, &vec![5, 6]);
    assert_eq!(s.len(), 3);
    assert_eq!((num(&s[2], 0), num(&s[2], 1)), (1, 6));
    let a = add_contacts_to_group(&vec![8, 9], 2);
    assert_eq!((num(&a[1], 0), num(&a[1], 1)), (9, 2));
    assert_eq!(num(&get_contact_groups(1), 0), 1);
    assert_eq!(num(&get_contacts_by_group(2), 0), 2);
    assert!(get_groups().params.is_empty());
}
