//! The accounts of the user.
use vstd::prelude::*;

use crate::statements::{sql, Statement, StatementView};
use crate::text::to_chars;

verus! {

/// An account with its password.
pub struct Account {
    pub id: i64,
    pub email: String,
    pub name: String,
    pub imap_host: String,
    pub imap_port: u16,
    pub smtp_host: String,
    pub smtp_port: u16,
    pub password: String,
}

/// An account as it may be shown, without its password.
pub struct AccountPublic {
    pub id: i64,
    pub email: String,
    pub name: String,
    pub imap_host: String,
    pub imap_port: u16,
    pub smtp_host: String,
    pub smtp_port: u16,
    pub delete_after_days: Option<i64>,
    pub delete_permanent: bool,
    pub signature: String,
}

/// What the user can set of an account.
pub struct AccountSettings {
    pub name: String,
    pub imap_host: String,
    pub imap_port: u16,
    pub smtp_host: String,
    pub smtp_port: u16,
    pub delete_after_days: Option<i64>,
    pub delete_permanent: bool,
}

/// The statement that reads an account.
pub open spec fn reading_account(id: int) -> StatementView {
    sql(
        "SELECT id,email,name,imap_host,imap_port,smtp_host,smtp_port FROM accounts WHERE id=?1"@,
    ).number(id)
}

/// Reads an account.
pub fn get_account_by_id(id: i64) -> (r: Statement)
    ensures
        r@ == reading_account(id as int),
{
    Statement::new(
        "SELECT id,email,name,imap_host,imap_port,smtp_host,smtp_port FROM accounts WHERE id=?1",
    ).number(id)
}

/// The account with the password that is kept for it, empty if none is.
pub fn with_password(account: Account, password: Option<String>) -> (r: Account)
    ensures
        r == (Account { password: r.password, ..account }),
        match password {
            Some(p) => r.password@ == p@,
            None => r.password@.len() == 0,
        },
{
    let password = match password {
        Some(p) => p,
        None => {
            let none = String::new();
            assert(none@ =~= Seq::<char>::empty());
            none
        },
    };
    Account { password, ..account }
}

/// The statement that reads all accounts.
pub open spec fn reading_accounts() -> StatementView {
    sql(
        "SELECT id, email, name, imap_host, imap_port, smtp_host, smtp_port, delete_after_days, delete_permanent, signature FROM accounts"@,
    )
}

/// Reads all accounts.
pub fn get_accounts() -> (r: Statement)
    ensures
        r@ == reading_accounts(),
{
    Statement::new(
        "SELECT id, email, name, imap_host, imap_port, smtp_host, smtp_port, delete_after_days, delete_permanent, signature FROM accounts",
    )
}

/// The statement that keeps an account, or changes the one with the same address.
pub open spec fn keeping_account(email: Seq<char>, s: AccountSettings) -> StatementView {
    sql(
        "INSERT INTO accounts (email, name, imap_host, imap_port, smtp_host, smtp_port, delete_after_days, delete_permanent)
         VALUES (?1,?2,?3,?4,?5,?6,?7,?8)
         ON CONFLICT(email) DO UPDATE SET
           name=excluded.name,
           imap_host=excluded.imap_host, imap_port=excluded.imap_port,
           smtp_host=excluded.smtp_host, smtp_port=excluded.smtp_port,
           delete_after_days=excluded.delete_after_days,
           delete_permanent=excluded.delete_permanent"@,
    ).text(email).text(s.name@).text(s.imap_host@).number(s.imap_port as int).text(
        s.smtp_host@,
    ).number(s.smtp_port as int).maybe_int(s.delete_after_days).flag(s.delete_permanent)
}

/// Keeps an account, or changes the one with the same address.
pub fn save_account(email: &str, s: &AccountSettings) -> (r: Statement)
    ensures
        r@ == keeping_account(email@, *s),
{
    Statement::new(
        "INSERT INTO accounts (email, name, imap_host, imap_port, smtp_host, smtp_port, delete_after_days, delete_permanent)
         VALUES (?1,?2,?3,?4,?5,?6,?7,?8)
         ON CONFLICT(email) DO UPDATE SET
           name=excluded.name,
           imap_host=excluded.imap_host, imap_port=excluded.imap_port,
           smtp_host=excluded.smtp_host, smtp_port=excluded.smtp_port,
           delete_after_days=excluded.delete_after_days,
           delete_permanent=excluded.delete_permanent",
    ).text(email).text(s.name.as_str()).text(s.imap_host.as_str()).number(s.imap_port as i64).text(
        s.smtp_host.as_str(),
    ).number(s.smtp_port as i64).maybe_int(s.delete_after_days).flag(s.delete_permanent)
}

/// The statement that reads the address of an account.
pub open spec fn reading_address(account_id: int) -> StatementView {
    sql("SELECT email FROM accounts WHERE id=?1"@).number(account_id)
}

/// Reads the address of an account.
pub fn email_query(account_id: i64) -> (r: Statement)
    ensures
        r@ == reading_address(account_id as int),
{
    Statement::new("SELECT email FROM accounts WHERE id=?1").number(account_id)
}

/// The password to use when an account is changed: the one that the user has written, or else the
/// one that is kept.
pub fn actual_password(written: String, kept: Option<String>) -> (r: Result<String, String>)
    ensures
        if written@.len() > 0 {
            r matches Ok(p) && p@ == written@
        } else {
            match kept {
                Some(k) => r matches Ok(p) && p@ == k@,
                None => r matches Err(e) && e@ == "Пароль не найден в хранилище"@,
            }
        },
{
    if to_chars(written.as_str()).len() > 0 {
        return Ok(written);
    }
    match kept {
        Some(k) => Ok(k),
        None => Err("Пароль не найден в хранилище".to_owned()),
    }
}

/// The statement that changes an account.
pub open spec fn changing_account(
    account_id: int,
    s: AccountSettings,
    signature: Seq<char>,
) -> StatementView {
    sql(
        "UPDATE accounts SET name=?1, imap_host=?2, imap_port=?3, smtp_host=?4, smtp_port=?5,
         delete_after_days=?6, delete_permanent=?7, signature=?8 WHERE id=?9"@,
    ).text(s.name@).text(s.imap_host@).number(s.imap_port as int).text(s.smtp_host@).number(
        s.smtp_port as int,
    ).maybe_int(s.delete_after_days).flag(s.delete_permanent).text(signature).number(account_id)
}

/// Changes an account.
pub fn update_account(account_id: i64, s: &AccountSettings, signature: &str) -> (r: Statement)
    ensures
        r@ == changing_account(account_id as int, *s, signature@),
{
    Statement::new(
        "UPDATE accounts SET name=?1, imap_host=?2, imap_port=?3, smtp_host=?4, smtp_port=?5,
         delete_after_days=?6, delete_permanent=?7, signature=?8 WHERE id=?9",
    ).text(s.name.as_str()).text(s.imap_host.as_str()).number(s.imap_port as i64).text(
        s.smtp_host.as_str(),
    ).number(s.smtp_port as i64).maybe_int(s.delete_after_days).flag(s.delete_permanent).text(
        signature,
    ).number(account_id)
}

/// The statements that forget an account: first its messages, then itself.
pub open spec fn forgetting_account(account_id: int) -> (StatementView, StatementView) {
    (
        sql("DELETE FROM emails WHERE account_id=?1"@).number(account_id),
        sql("DELETE FROM accounts WHERE id=?1"@).number(account_id),
    )
}

/// Forgets an account: first its messages, then itself.
pub fn delete_account(account_id: i64) -> (r: (Statement, Statement))
    ensures
        (r.0@, r.1@) == forgetting_account(account_id as int),
{
    (
        Statement::new("DELETE FROM emails WHERE account_id=?1").number(account_id),
        Statement::new("DELETE FROM accounts WHERE id=?1").number(account_id),
    )
}

/// The statement that reads what is to be done with the old messages of an account.
pub open spec fn reading_purge_settings(account_id: int) -> StatementView {
    sql("SELECT delete_after_days, delete_permanent FROM accounts WHERE id=?1"@).number(account_id)
}

/// Reads what is to be done with the old messages of an account.
pub fn purge_settings_query(account_id: i64) -> (r: Statement)
    ensures
        r@ == reading_purge_settings(account_id as int),
{
    Statement::new("SELECT delete_after_days, delete_permanent FROM accounts WHERE id=?1").number(
        account_id,
    )
}

} // verus!
