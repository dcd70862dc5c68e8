use std::io::Write;

use docvis_mail::archive::{
    archive_kind, find_unrar_exe, judge_zip, scan_7z, scan_archive, scan_rar, scan_zip,
    unrar_candidates, ArchiveKind, ArchiveScanResult, Listing, RarReport,
};
use docvis_mail::attachments::{
    auto_save_attachments, auto_save_copied, auto_save_neutralizes, auto_save_scanned,
    build_attach_dest_dir, chosen_base, default_folder, email_time, get_attachments,
    mime_by_extension, month_name, note_opened, open_attachment, open_next, read_attachment_b64,
    saved_path_query, select_argument, unsaved_attachments, FolderTime, OpenPlan, OpenStage,
    SaveStep, Unsaved,
};
use docvis_mail::statements::{SqlValue, Statement};

fn num(s: &Statement, i: usize) -> i64 {
    match &s.params[i] {
        SqlValue::Int(n) => *n,
        _ => panic!("no number at {}", i),
    }
}

fn text(s: &Statement, i: usize) -> String {
    match &s.params[i] {
        SqlValue::Text(t) => t.clone(),
        _ => panic!("no text at {}", i),
    }
}

fn zip_of(names: &[&str]) -> Vec<u8> {
    let mut w = zip::ZipWriter::new(std::io::Cursor::new(Vec::new()));
    let options = zip::write::FileOptions::default().compression_method(zip::CompressionMethod::Stored);
    for n in names {
        w.start_file(n.to_string(), options).unwrap();
        w.write_all(b"content").unwrap();
    }
    w.finish().unwrap().into_inner()
}

#[test]
fn a_zip_archive_is_looked_into() {
    let data = zip_of(&["a.txt", "dir/setup.EXE", "dir/", "x\\y.js"]);
    let r = scan_zip(Some(data.as_slice()));
    assert_eq!(r.dangerous, vec!["dir/setup.EXE", "x\\y.js"]);
    assert!(!r.encrypted);
    assert!(!r.no_tool);
    let r = scan_zip(Some(zip_of(&["a.txt"]).as_slice()));
    assert!(r.dangerous.is_empty() && !r.encrypted);
}

#[test]
fn what_is_no_zip_archive_is_taken_for_encrypted() {
    let r = scan_zip(Some(b"not a zip".as_slice()));
    assert!(r.encrypted && r.dangerous.is_empty());
    let r = scan_zip(None);
    assert!(!r.encrypted && r.dangerous.is_empty());
    let r = judge_zip(Some(vec![Some("a.bat".to_string()), None, Some("b".to_string())]));
    assert!(r.encrypted);
    assert_eq!(r.dangerous, vec!["a.bat"]);
}

#[test]
fn other_archives_are_looked_into() {
    let r = scan_7z(&Listing::Names(vec!["d/a.scr".to_string(), "b.txt".to_string(), "c/".to_string()]));
    assert_eq!(r.dangerous, vec!["d/a.scr"]);
    assert!(scan_7z(&Listing::Unreadable).encrypted);
    assert!(!scan_7z(&Listing::NoFile).encrypted);
    let r = scan_rar(&RarReport::Output("  a\\run.ps1 \r\n\r\nb.txt\n".to_string()));
    assert_eq!(r.dangerous, vec!["a\\run.ps1"]);
    assert!(scan_rar(&RarReport::NoTool).no_tool);
    assert!(scan_rar(&RarReport::Failed).encrypted);
}

#[test]
fn the_program_for_rar_archives() {
    let c = unrar_candidates();
    assert_eq!(c[0], r"C:\Program Files\WinRAR\UnRAR.exe");
    assert_eq!(find_unrar_exe(&vec![false, true]).unwrap(), c[1]);
    assert_eq!(find_unrar_exe(&vec![true, true]).unwrap(), c[0]);
    assert!(find_unrar_exe(&vec![false, false]).is_none());
    assert!(find_unrar_exe(&Vec::new()).is_none());
}

#[test]
fn kinds_of_archives() {
    assert!(scan_archive("ZIP") == Some(ArchiveKind::Zip));
    assert!(scan_archive("7z") == Some(ArchiveKind::SevenZ));
    assert!(scan_archive("Rar") == Some(ArchiveKind::Rar));
    assert!(scan_archive("tar").is_none());
    assert!(archive_kind("a.b.zip") == Some(ArchiveKind::Zip));
    assert!(archive_kind("zip") == Some(ArchiveKind::Zip));
    assert!(archive_kind("a.zip.txt").is_none());
}

fn unsaved(name: &str) -> Unsaved {
    Unsaved { id: 4, file_path: "/x".to_string(), filename: name.to_string() }
}

fn copied(step: SaveStep) -> String {
    match step {
        SaveStep::Copy(n) => n,
        _ => panic!("not copied"),
    }
}

#[test]
fn attachments_are_saved_under_safe_names() {
    assert!(auto_save_neutralizes(None));
    assert!(!auto_save_neutralizes(Some(false)));
    assert!(matches!(auto_save_attachments(&unsaved("a.exe"), true, false), SaveStep::Skip));
    assert_eq!(copied(auto_save_attachments(&unsaved("a.exe"), true, true)), "a.[virus]_exe");
    assert_eq!(copied(auto_save_attachments(&unsaved("a.exe"), false, true)), "a.exe");
    assert_eq!(copied(auto_save_attachments(&unsaved("a.pdf"), true, true)), "a.pdf");
    assert!(matches!(auto_save_attachments(&unsaved("a.ZIP"), true, true), SaveStep::Scan(ArchiveKind::Zip)));
    assert_eq!(copied(auto_save_attachments(&unsaved("a.zip"), false, true)), "a.zip");
}

#[test]
fn archives_are_saved_by_what_they_hold() {
    let mut scan = ArchiveScanResult::default();
    assert_eq!(copied(auto_save_scanned(&unsaved("a.rar"), true, &scan)), "a.rar");
    scan.no_tool = true;
    assert_eq!(copied(auto_save_scanned(&unsaved("a.rar"), true, &scan)), "a.rar");
    scan.encrypted = true;
    assert_eq!(copied(auto_save_scanned(&unsaved("a.rar"), true, &scan)), "a.[virus]_rar");
    scan.encrypted = false;
    scan.dangerous.push("x.exe".to_string());
    assert_eq!(copied(auto_save_scanned(&unsaved("a.rar"), true, &scan)), "a.[virus]_rar");
    let s = auto_save_copied(&unsaved("a"), &Some("/d/a".to_string())).unwrap();
    assert_eq!((text(&s, 0), num(&s, 1)), ("/d/a".to_string(), 4));
    assert!(auto_save_copied(&unsaved("a"), &None).is_none());
    assert_eq!(num(&email_time(3), 0), 3);
    assert_eq!(num(&unsaved_attachments(3), 0), 3);
}

#[test]
fn folders_for_attachments() {
    let months = [
        "январь", "февраль", "март", "апрель", "май", "июнь", "июль", "август", "сентябрь", "октябрь",
        "ноябрь", "декабрь",
    ];
    for (i, m) in months.iter().enumerate() {
        assert_eq!(month_name(i as u32 + 1), *m);
    }
    assert_eq!(month_name(0), "декабрь");
    let t = FolderTime { year: "2024".to_string(), month: 3, day: "07".to_string(), time: "09-05".to_string() };
    assert_eq!(build_attach_dest_dir(&None, &t), vec!["2024", "март", "07", "09-05"]);
    assert_eq!(build_attach_dest_dir(&Some(String::new()), &t).len(), 4);
    assert_eq!(build_attach_dest_dir(&Some("Иван".to_string()), &t)[0], "Иван");
    assert_eq!(chosen_base(&Some("/base".to_string())).unwrap(), "/base");
    assert!(chosen_base(&Some(String::new())).is_none());
    assert!(chosen_base(&None).is_none());
    assert_eq!(default_folder(), "Почта");
}

#[test]
fn opening_an_attachment() {
    assert_eq!(open_attachment(false, None, false).err().unwrap(), "Файл не найден");
    match open_attachment(true, Some("/p".to_string()), true).ok().unwrap() {
        OpenPlan::Show(p) => assert_eq!(p, "/p"),
        _ => panic!(),
    }
    assert!(matches!(open_attachment(true, Some("/p".to_string()), false), Ok(OpenPlan::CopyAgain)));
    assert!(matches!(open_attachment(true, None, false), Ok(OpenPlan::Hand)));
    assert_eq!(note_opened(true, "/s", "/f").sql, "UPDATE attachments SET saved_path=?1, file_path=?1 WHERE file_path=?2");
    assert_eq!(note_opened(false, "/s", "/f").sql, "UPDATE attachments SET saved_path=?1 WHERE file_path=?2");
    assert_eq!(text(&note_opened(false, "/s", "/f"), 1), "/f");
    assert_eq!(text(&saved_path_query("/f"), 0), "/f");
    assert_eq!(select_argument("C:\\a b"), "/select,\"C:\\a b\"");
}

#[test]
fn the_stages_of_opening() {
    assert!(open_next(true, OpenStage::MakeFolder, false) == OpenStage::Failed);
    assert!(open_next(false, OpenStage::MakeFolder, false) == OpenStage::Copy);
    assert!(open_next(true, OpenStage::Copy, true) == OpenStage::Remove);
    assert!(open_next(false, OpenStage::Copy, true) == OpenStage::Note);
    assert!(open_next(true, OpenStage::Copy, false) == OpenStage::Failed);
    assert!(open_next(true, OpenStage::Remove, false) == OpenStage::Note);
    assert!(open_next(true, OpenStage::Note, false) == OpenStage::Show);
}

#[test]
fn files_as_text() {
    let f = read_attachment_b64(b"Hello", "PDF");
    assert_eq!(f.b64, "SGVsbG8=");
    assert_eq!(f.mime_type, "application/pdf");
    assert_eq!(read_attachment_b64(b"", "x").b64, "");
    assert_eq!(read_attachment_b64(&[0xfb, 0xff], "x").b64, "+/8=");
    assert_eq!(read_attachment_b64(&[1], "x").b64, "AQ==");
    assert_eq!(mime_by_extension("jpeg"), "image/jpeg");
    assert_eq!(mime_by_extension("JPG"), "image/jpeg");
    assert_eq!(mime_by_extension("png"), "image/png");
    assert_eq!(mime_by_extension("gif"), "image/gif");
    assert_eq!(mime_by_extension("doc"), "application/msword");
    assert_eq!(mime_by_extension("docx"), "application/vnd.openxmlformats-officedocument.wordprocessingml.document");
    assert_eq!(mime_by_extension("xls"), "application/vnd.ms-excel");
    assert_eq!(mime_by_extension("xlsx"), "application/vnd.openxmlformats-officedocument.spreadsheetml.sheet");
    assert_eq!(mime_by_extension("zip"), "application/zip");
    assert_eq!(mime_by_extension("txt"), "text/plain");
    assert_eq!(mime_by_extension(""), "application/octet-stream");
    assert_eq!(num(&get_attachments(8), 0), 8);
}
