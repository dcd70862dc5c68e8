use docvis_mail::filenames::{
    archive_basename, extract_filename, is_dangerous_attach_ext, neutralize_filename,
    sanitize_filename,
};
use docvis_mail::utf7::decode_imap_utf7;

#[test]
fn sanitizing_drops_what_a_name_may_not_hold() {
    assert_eq!(sanitize_filename("a/b\\c:d*e?f\"g<h>i|j.txt"), "abcdefghij.txt");
    assert_eq!(sanitize_filename("  отчёт.pdf \t"), "отчёт.pdf");
}

#[test]
fn sanitizing_never_names_a_directory() {
    assert_eq!(sanitize_filename(".."), "attachment");
    assert_eq!(sanitize_filename("."), "attachment");
    assert_eq!(sanitize_filename(""), "attachment");
    assert_eq!(sanitize_filename(" /.\\. "), "attachment");
    assert_eq!(sanitize_filename("../../etc/passwd"), "....etcpasswd");
}

#[test]
fn sanitizing_twice_is_sanitizing_once() {
    for s in ["a b", "..", " x? ", "/..", "ok.txt", "\u{a0}x\u{2003}"] {
        let once = sanitize_filename(s);
        assert_eq!(sanitize_filename(&once), once);
    }
}

#[test]
fn the_name_comes_from_the_disposition_first() {
    assert_eq!(
        extract_filename("attachment; filename=\"report.pdf\"", "application/pdf; name=\"other.pdf\""),
        "report.pdf"
    );
    assert_eq!(extract_filename("attachment; FileName= a.txt ", ""), "a.txt");
    assert_eq!(extract_filename("inline", "image/png; NAME=\"pic.png\""), "pic.png");
    assert_eq!(extract_filename("attachment; filename=\"\"; filename=b", ""), "b");
    assert_eq!(extract_filename("attachment; filename=\" \"", "x; name=c"), "c");
    assert_eq!(extract_filename("attachment", "text/plain"), "attachment");
    assert_eq!(extract_filename("attachment; filename=\"../x\"", ""), "..x");
    assert_eq!(extract_filename("attachment; filename=\"..\"", ""), "attachment");
}

#[test]
fn dangerous_extensions_in_any_case() {
    for n in ["a.exe", "A.EXE", "x.y.Js", "x.docm", "noext.gz", "exe", "b.001", "f.settingcontent-ms"] {
        assert!(is_dangerous_attach_ext(n), "{}", n);
    }
    for n in ["a.pdf", "a.zip", "a.rar", "a.7z", "", "a.exe.txt", "a.", "a.exe "] {
        assert!(!is_dangerous_attach_ext(n), "{}", n);
    }
}

#[test]
fn folding_agrees_with_lowercase_for_every_character() {
    let templates = [("a.ex", ""), ("a.", "s"), ("a.ln", ""), ("a.onep", "g"), ("a.ms", ""), ("a.", "so")];
    for n in 0..=0x10ffffu32 {
        if let Some(c) = char::from_u32(n) {
            if n > 0x3000 && !c.to_lowercase().any(|l| l.is_ascii()) {
                continue;
            }
            for (front, back) in templates {
                let name = format!("{}{}{}", front, c, back);
                assert_eq!(
                    is_dangerous_attach_ext(&name),
                    is_dangerous_attach_ext(&name.to_lowercase()),
                    "{}",
                    name
                );
            }
        }
    }
}

#[test]
fn neutralized_names_are_safe() {
    assert_eq!(neutralize_filename("invoice.exe"), "invoice.[virus]_exe");
    assert_eq!(neutralize_filename("doc.zip"), "doc.[virus]_zip");
    assert_eq!(neutralize_filename("a.b.c"), "a.b.[virus]_c");
    assert_eq!(neutralize_filename("exe"), "exe.[virus]");
    for n in ["invoice.exe", "exe", "a.tar.gz", "x."] {
        assert!(!is_dangerous_attach_ext(&neutralize_filename(n)));
    }
}

#[test]
fn the_last_part_of_a_path() {
    assert_eq!(archive_basename("a/b/c.exe"), "c.exe");
    assert_eq!(archive_basename("a\\b/c\\d.txt"), "d.txt");
    assert_eq!(archive_basename("plain"), "plain");
    assert_eq!(archive_basename("dir/"), "");
    assert_eq!(archive_basename(""), "");
}

#[test]
fn mailbox_names_are_decoded() {
    assert_eq!(decode_imap_utf7("INBOX"), "INBOX");
    assert_eq!(decode_imap_utf7("&BB4EQgQ,BEAEMAQyBDsENQQ9BD0ESwQ1-"), "Отправленные");
    assert_eq!(decode_imap_utf7("Tom &- Jerry"), "Tom & Jerry");
    assert_eq!(decode_imap_utf7("a&AOk-b"), "aéb");
    assert_eq!(decode_imap_utf7("&2D3eAA-"), "\u{1f600}");
    assert_eq!(decode_imap_utf7("&2D0-x"), "&2D0-x");
    assert_eq!(decode_imap_utf7("&AOk"), "é");
    assert_eq!(decode_imap_utf7("&"), "");
    assert_eq!(decode_imap_utf7("é"), "Ã©");
}
