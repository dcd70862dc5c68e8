//! The tables of the database.
use vstd::prelude::*;

verus! {

/// The statements that make the tables, as far as they are not there.
pub const SCHEMA: &'static str = "

        CREATE TABLE IF NOT EXISTS accounts (
            id               INTEGER PRIMARY KEY AUTOINCREMENT,
            email            TEXT NOT NULL UNIQUE,
            name             TEXT NOT NULL DEFAULT '',
            imap_host        TEXT NOT NULL,
            imap_port        INTEGER NOT NULL DEFAULT 993,
            smtp_host        TEXT NOT NULL,
            smtp_port        INTEGER NOT NULL DEFAULT 465,
            delete_after_days INTEGER,
            delete_permanent  INTEGER NOT NULL DEFAULT 0,
            signature         TEXT NOT NULL DEFAULT ''
        );

        CREATE TABLE IF NOT EXISTS emails (
            id                INTEGER PRIMARY KEY AUTOINCREMENT,
            account_id        INTEGER NOT NULL,
            uid               INTEGER NOT NULL,
            folder            TEXT    NOT NULL DEFAULT 'INBOX',
            from_addr         TEXT    NOT NULL DEFAULT '',
            to_addr           TEXT    NOT NULL DEFAULT '',
            cc_addr           TEXT    NOT NULL DEFAULT '',
            subject           TEXT    NOT NULL DEFAULT '',
            date              TEXT    NOT NULL DEFAULT '',
            body_text         TEXT    NOT NULL DEFAULT '',
            body_html         TEXT    NOT NULL DEFAULT '',
            is_read           INTEGER NOT NULL DEFAULT 0,
            is_starred        INTEGER NOT NULL DEFAULT 0,
            has_attachment    INTEGER NOT NULL DEFAULT 0,
            message_id        TEXT    NOT NULL DEFAULT '',
            snippet           TEXT    NOT NULL DEFAULT '',
            date_ts           INTEGER NOT NULL DEFAULT 0,
            read_receipt_to   TEXT,
            read_receipt_sent INTEGER NOT NULL DEFAULT 0,
            UNIQUE(account_id, uid, folder)
        );

        CREATE TABLE IF NOT EXISTS attachments (
            id         INTEGER PRIMARY KEY AUTOINCREMENT,
            email_id   INTEGER NOT NULL,
            filename   TEXT    NOT NULL DEFAULT '',
            mime_type  TEXT    NOT NULL DEFAULT '',
            file_path  TEXT    NOT NULL DEFAULT '',
            file_size  INTEGER NOT NULL DEFAULT 0,
            saved_path TEXT
        );

        CREATE TABLE IF NOT EXISTS contacts (
            id             INTEGER PRIMARY KEY AUTOINCREMENT,
            name           TEXT    NOT NULL DEFAULT '',
            email          TEXT    NOT NULL DEFAULT '',
            phone          TEXT    NOT NULL DEFAULT '',
            company        TEXT    NOT NULL DEFAULT '',
            notes          TEXT    NOT NULL DEFAULT '',
            is_blacklisted INTEGER NOT NULL DEFAULT 0,
            UNIQUE(email)
        );

        CREATE TABLE IF NOT EXISTS contact_groups (
            id   INTEGER PRIMARY KEY AUTOINCREMENT,
            name TEXT NOT NULL UNIQUE
        );

        CREATE TABLE IF NOT EXISTS contact_group_members (
            contact_id INTEGER NOT NULL,
            group_id   INTEGER NOT NULL,
            PRIMARY KEY (contact_id, group_id)
        );

        CREATE TABLE IF NOT EXISTS blocked_senders (
            id    INTEGER PRIMARY KEY AUTOINCREMENT,
            email TEXT NOT NULL UNIQUE COLLATE NOCASE
        );

        CREATE TABLE IF NOT EXISTS folder_state (
            account_id INTEGER NOT NULL,
            folder     TEXT    NOT NULL,
            last_uid   INTEGER NOT NULL DEFAULT 0,
            PRIMARY KEY (account_id, folder)
        );

        CREATE TABLE IF NOT EXISTS user_folders (
            id         INTEGER PRIMARY KEY AUTOINCREMENT,
            account_id INTEGER NOT NULL,
            name       TEXT    NOT NULL,
            UNIQUE(account_id, name)
        );

        CREATE INDEX IF NOT EXISTS idx_emails_list
        ON emails(account_id, folder, date_ts DESC);
    ";

/// The statement that makes the group that every contact is in, unless it is there.
pub const DEFAULT_GROUP: &'static str =
    "INSERT OR IGNORE INTO contact_groups (name) VALUES ('Мои контакты')";

/// The settings of a connection.
pub const PRAGMAS: &'static str = "
        PRAGMA journal_mode=WAL;
        PRAGMA synchronous=NORMAL;
        PRAGMA cache_size=-16000;
        PRAGMA temp_store=MEMORY;
        PRAGMA mmap_size=67108864;
    ";

/// The statement that writes all changes into the file of the database.
pub const CHECKPOINT: &'static str = "PRAGMA wal_checkpoint(FULL)";

} // verus!
