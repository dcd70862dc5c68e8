use docvis_mail::backup::{
    backup_made, backup_name, backup_settings_path, cleanup_old_backups, get_db_path, get_log_tail,
    is_due, log_line, read_backup_settings, restore_database, rotate_log_if_needed,
    set_backup_settings, should_backup, whole_days, BackupSettings,
};
use docvis_mail::notify::{
    notification_clicked, script_name, show_mail_notification, Clicked, MAIL_NOTIF_BODY,
};
use docvis_mail::startup::{
    autostart_result, get_autostart, set_autostart, starts_minimized, tray_action, TrayAction,
};

fn settings(enabled: bool, days: u32, last: Option<&str>) -> BackupSettings {
    BackupSettings { enabled, interval_days: days, last_backup: last.map(|s| s.to_string()) }
}

#[test]
fn names_of_files() {
    assert_eq!(backup_settings_path(), "backup_settings.json");
    assert_eq!(get_db_path(), "mail.db");
    assert_eq!(backup_name("2024-01-02_03-04-05"), "mail_2024-01-02_03-04-05.db");
}

#[test]
fn settings_of_backups() {
    let d = read_backup_settings(None);
    assert_eq!((d.enabled, d.interval_days), (false, 7));
    assert!(d.last_backup.is_none());
    let s = set_backup_settings(settings(false, 7, Some("t")), true, 30);
    assert_eq!((s.enabled, s.interval_days, s.last_backup.as_deref()), (true, 30, Some("t")));
    let s = backup_made(s, "now".to_string());
    assert_eq!((s.enabled, s.last_backup.as_deref()), (true, Some("now")));
}

#[test]
fn when_a_backup_is_due() {
    let now = "2024-03-10T12:00:00+03:00";
    assert!(!should_backup(&settings(false, 1, None), now));
    assert!(should_backup(&settings(true, 1, None), now));
    assert!(should_backup(&settings(true, 1, Some("garbage")), now));
    assert!(should_backup(&settings(true, 7, Some("2024-03-03T12:00:00+03:00")), now));
    assert!(!should_backup(&settings(true, 7, Some("2024-03-03T12:00:01+03:00")), now));
    assert!(should_backup(&settings(true, 7, Some("2024-03-03T09:00:00Z")), now));
    assert!(!should_backup(&settings(true, 1, Some("2024-03-11T12:00:00+03:00")), now));
    assert!(should_backup(&settings(true, 0, Some("2024-03-10T11:59:59+03:00")), now));
    assert!(!should_backup(&settings(true, 1, Some("2024-03-09T12:00:00.9+03:00")), now));
    assert!(should_backup(&settings(true, 1, Some("2024-03-09T12:00:00.0+03:00")), now));
    assert!(is_due(&settings(true, 3, Some("x")), Some(3)));
    assert!(!is_due(&settings(true, 3, Some("x")), Some(2)));
    assert!(!is_due(&settings(true, 3, Some("x")), Some(-9)));
}

#[test]
fn whole_days_between_two_moments() {
    assert_eq!(whole_days((0, 0), (86400, 0)), 1);
    assert_eq!(whole_days((0, 1), (86400, 0)), 0);
    assert_eq!(whole_days((86400, 0), (0, 0)), -1);
    assert_eq!(whole_days((86400, 0), (0, 1)), 0);
    assert_eq!(whole_days((-86401, 0), (86399, 0)), 2);
    assert_eq!(whole_days((i64::MIN, 0), (i64::MAX, 0)), 213503982334601);
}

#[test]
fn whole_days_are_those_of_chrono() {
    let texts = [
        "1969-12-30T23:59:59.999999999Z",
        "1970-01-01T00:00:00Z",
        "2015-06-29T23:59:59.5Z",
        "2015-06-30T23:59:60Z",
        "2015-06-30T23:59:60.5Z",
        "2015-07-01T00:00:00Z",
        "2015-07-01T00:00:00.5Z",
        "2015-07-01T23:59:59.5Z",
        "2015-07-01T23:59:59.4Z",
        "2015-07-01T23:59:60.4Z",
        "2015-07-02T02:59:60+03:00",
        "2024-02-29T12:00:00-11:30",
    ];
    for a in texts {
        for b in texts {
            let last = chrono::DateTime::parse_from_rfc3339(a).unwrap();
            let now = chrono::DateTime::parse_from_rfc3339(b).unwrap();
            let want: i64 = now.signed_duration_since(last).num_days();
            let got: i64 = whole_days(
                (last.timestamp(), last.timestamp_subsec_nanos()),
                (now.timestamp(), now.timestamp_subsec_nanos()),
            );
            assert_eq!(got, want, "{} {}", a, b);
            let days: u32 = u32::try_from(want).unwrap_or(0);
            assert_eq!(should_backup(&settings(true, days, Some(a)), b), want >= days as i64);
            assert!(!should_backup(&settings(true, days + 1, Some(a)), b));
        }
    }
}

#[test]
fn the_newest_backups_are_kept() {
    assert_eq!(cleanup_old_backups(&vec![Some(30), Some(10), Some(20)], 1), vec![1, 2]);
    assert!(cleanup_old_backups(&vec![Some(1), Some(2)], 2).is_empty());
    assert_eq!(cleanup_old_backups(&vec![Some(5), None, Some(5)], 1), vec![1, 0]);
    assert_eq!(cleanup_old_backups(&vec![Some(2), Some(1)], 0), vec![1, 0]);
    assert!(cleanup_old_backups(&Vec::new(), 0).is_empty());
}

#[test]
fn only_databases_are_restored() {
    let mut file = b"SQLite format 3\0".to_vec();
    assert!(restore_database(Some(file.as_slice())).is_ok());
    file.push(1);
    assert!(restore_database(Some(file.as_slice())).is_ok());
    file[15] = 1;
    assert_eq!(restore_database(Some(file.as_slice())).err().unwrap(), "Файл не является базой данных SQLite");
    assert!(restore_database(Some(b"SQLite".as_slice())).is_err());
    assert_eq!(restore_database(None).err().unwrap(), "Файл не найден");
}

#[test]
fn the_log() {
    assert!(!rotate_log_if_needed(5 * 1024 * 1024));
    assert!(rotate_log_if_needed(5 * 1024 * 1024 + 1));
    assert_eq!(log_line("2024-01-01 00:00:00", "hello"), "[2024-01-01 00:00:00] hello");
    let lines: Vec<String> = ["a", "b", "c"].iter().map(|s| s.to_string()).collect();
    assert_eq!(get_log_tail(&Some(lines.clone()), 2), "b\nc");
    assert_eq!(get_log_tail(&Some(lines.clone()), 9), "a\nb\nc");
    assert_eq!(get_log_tail(&Some(lines), 0), "");
    assert_eq!(get_log_tail(&None, 5), "Лог-файл не найден");
}

#[test]
fn the_script_of_a_notification() {
    let s = show_mail_notification(2, None);
    assert!(s.starts_with("Add-Type -AssemblyName PresentationFramework\nAdd-Type -AssemblyName PresentationCore\n"));
    assert!(s.contains("$stackIndex = 2\n$notifDuration = 5\n"));
    assert!(s.ends_with(MAIL_NOTIF_BODY));
    assert!(show_mail_notification(0, Some(0)).contains("$notifDuration = 0\n"));
    assert_eq!(script_name(7), "docvis_mail_notif_7.ps1");
    assert!(notification_clicked(Some(1)) == Clicked::Message);
    assert!(notification_clicked(Some(2)) == Clicked::Settings);
    assert!(notification_clicked(Some(0)) == Clicked::Nothing);
    assert!(notification_clicked(None) == Clicked::Nothing);
}

#[test]
fn starting_with_the_system() {
    let q = get_autostart();
    assert_eq!(q, vec!["query", "HKCU\\Software\\Microsoft\\Windows\\CurrentVersion\\Run", "/v", "ДокВис Почта"]);
    let a = set_autostart(&Some("C:\\m.exe".to_string()));
    assert_eq!(a[0], "add");
    assert_eq!(a[5], "REG_SZ");
    assert_eq!(a[7], "\"C:\\m.exe\" --minimized");
    assert_eq!(a[8], "/f");
    let d = set_autostart(&None);
    assert_eq!((d[0].as_str(), d.len(), d[4].as_str()), ("delete", 5, "/f"));
    assert_eq!(autostart_result(true, false).err().unwrap(), "reg add failed");
    assert!(autostart_result(true, true).is_ok());
    assert!(autostart_result(false, false).is_ok());
    assert!(starts_minimized(&vec!["x".to_string(), "--minimized".to_string()]));
    assert!(!starts_minimized(&vec!["--minimize".to_string()]));
}

#[test]
fn the_menu_of_the_tray() {
    assert!(tray_action("open") == TrayAction::Show);
    assert!(tray_action("check_mail") == TrayAction::ShowAndCheck);
    assert!(tray_action("quit") == TrayAction::Quit);
    assert!(tray_action("?") == TrayAction::Nothing);
}
