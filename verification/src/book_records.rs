//! What becomes of accounts, contacts, groups and blocked senders in the database: which rows each
//! statement concerns, and what each column then holds.
use vstd::prelude::*;

use crate::accounts::{
    changing_account, forgetting_account, keeping_account, reading_account, reading_accounts,
    reading_address, reading_purge_settings, AccountSettings,
};
use crate::address_book::{
    adding_contact, blacklisting, changing_contact, finding_contact, finding_default_group,
    forgetting_contact, forgetting_group, joining, keeping_card, keeping_group, keeping_sender,
    moving_to_spam, naming_group, reading_blacklist, reading_contacts, reading_groups,
    reading_memberships, setting_blacklist, setting_groups, ContactView,
};
use crate::contacts::{CardView};
use crate::sql::{
    changes, deletes, given, inserts, kept_unless_empty, lemma_terms, merges, number_in, selects,
    selects_all, stands, value_of, Conflict, Delete, Insert, Row, Select, SelectAll, Sets, Tests,
    Update, Words,
};
use crate::statements::ValueView;
use crate::store::{blocking, finding_blocked, unblocking};
use crate::text::{ascii_lower, has_word};

verus! {

/// An account is kept with its address and its settings, each in the column named after it.
#[verifier::spinoff_prover]
#[verifier::rlimit(60)]
pub proof fn law_keep_account(email: Seq<char>, settings: AccountSettings)
    ensures
        inserts(
            keeping_account(email, settings),
            "accounts"@,
            Map::empty()
            .insert("email"@, ValueView::Text(email))
            .insert("name"@, ValueView::Text(settings.name@))
            .insert("imap_host"@, ValueView::Text(settings.imap_host@))
            .insert("imap_port"@, ValueView::Int(settings.imap_port as int))
            .insert("smtp_host"@, ValueView::Text(settings.smtp_host@))
            .insert("smtp_port"@, ValueView::Int(settings.smtp_port as int))
            .insert("delete_after_days"@, match settings.delete_after_days { Some(n) => ValueView::Int(n as int), None => ValueView::Null })
            .insert("delete_permanent"@, ValueView::Int(if settings.delete_permanent { 1 } else { 0 })),
        ),
{
    let s = keeping_account(email, settings);
    reveal_strlit("INSERT INTO accounts (email, name, imap_host, imap_port, smtp_host, smtp_port, delete_after_days, delete_permanent)
         VALUES (?1,?2,?3,?4,?5,?6,?7,?8)
         ON CONFLICT(email) DO UPDATE SET
           name=excluded.name,
           imap_host=excluded.imap_host, imap_port=excluded.imap_port,
           smtp_host=excluded.smtp_host, smtp_port=excluded.smtp_port,
           delete_after_days=excluded.delete_after_days,
           delete_permanent=excluded.delete_permanent");
    reveal_strlit("INSERT INTO ");
    reveal_strlit("accounts");
    reveal_strlit(" (");
    reveal_strlit("email");
    reveal_strlit(", ");
    reveal_strlit("name");
    reveal_strlit("imap_host");
    reveal_strlit("imap_port");
    reveal_strlit("smtp_host");
    reveal_strlit("smtp_port");
    reveal_strlit("delete_after_days");
    reveal_strlit("delete_permanent");
    reveal_strlit(")\n         VALUES ");
    reveal_strlit("(");
    reveal_strlit("?1");
    reveal_strlit(",");
    reveal_strlit("?2");
    reveal_strlit("?3");
    reveal_strlit("?4");
    reveal_strlit("?5");
    reveal_strlit("?6");
    reveal_strlit("?7");
    reveal_strlit("?8");
    lemma_terms(s.params);
    let w8 = Words::Then { gap: ", "@, word: "delete_permanent"@, rest: Box::new(Words::End) };
    let w7 = Words::Then { gap: ", "@, word: "delete_after_days"@, rest: Box::new(w8) };
    let w6 = Words::Then { gap: ", "@, word: "smtp_port"@, rest: Box::new(w7) };
    let w5 = Words::Then { gap: ", "@, word: "smtp_host"@, rest: Box::new(w6) };
    let w4 = Words::Then { gap: ", "@, word: "imap_port"@, rest: Box::new(w5) };
    let w3 = Words::Then { gap: ", "@, word: "imap_host"@, rest: Box::new(w4) };
    let w2 = Words::Then { gap: ", "@, word: "name"@, rest: Box::new(w3) };
    let w1 = Words::Then { gap: " ("@, word: "email"@, rest: Box::new(w2) };
    let w16 = Words::Then { gap: ","@, word: "?8"@, rest: Box::new(Words::End) };
    let w15 = Words::Then { gap: ","@, word: "?7"@, rest: Box::new(w16) };
    let w14 = Words::Then { gap: ","@, word: "?6"@, rest: Box::new(w15) };
    let w13 = Words::Then { gap: ","@, word: "?5"@, rest: Box::new(w14) };
    let w12 = Words::Then { gap: ","@, word: "?4"@, rest: Box::new(w13) };
    let w11 = Words::Then { gap: ","@, word: "?3"@, rest: Box::new(w12) };
    let w10 = Words::Then { gap: ","@, word: "?2"@, rest: Box::new(w11) };
    let w9 = Words::Then { gap: "("@, word: "?1"@, rest: Box::new(w10) };
    let p = Insert {
        verb: "INSERT INTO "@,
        table: "accounts"@,
        columns: w1,
        middle: ")\n         VALUES "@,
        terms: w9,
    };
    reveal_with_fuel(Words::end_in, 9);
    reveal_with_fuel(Words::count, 9);
    reveal_with_fuel(given, 9);
    assert(p.is_read(s.sql));
    assert("imap_host"@[5] != "imap_port"@[5]);
    assert("imap_host"@[0] != "smtp_host"@[0]);
    assert("imap_port"@[0] != "smtp_host"@[0]);
    assert("imap_host"@[0] != "smtp_port"@[0]);
    assert("imap_port"@[0] != "smtp_port"@[0]);
    assert("smtp_host"@[5] != "smtp_port"@[5]);
    assert(p.gives(s.params, "email"@) == Some(ValueView::Text(email)));
    assert(p.gives(s.params, "name"@) == Some(ValueView::Text(settings.name@)));
    assert(p.gives(s.params, "imap_host"@) == Some(ValueView::Text(settings.imap_host@)));
    assert(p.gives(s.params, "imap_port"@) == Some(ValueView::Int(settings.imap_port as int)));
    assert(p.gives(s.params, "smtp_host"@) == Some(ValueView::Text(settings.smtp_host@)));
    assert(p.gives(s.params, "smtp_port"@) == Some(ValueView::Int(settings.smtp_port as int)));
    assert(p.gives(s.params, "delete_after_days"@) == Some(match settings.delete_after_days { Some(n) => ValueView::Int(n as int), None => ValueView::Null }));
    assert(p.gives(s.params, "delete_permanent"@) == Some(ValueView::Int(if settings.delete_permanent { 1 } else { 0 })));
}

/// Where an account with the address is there already, all its settings are replaced; its id and
/// its signature stay.
#[verifier::spinoff_prover]
#[verifier::rlimit(60)]
pub proof fn law_keep_account_again(email: Seq<char>, settings: AccountSettings)
    ensures
        merges(
            keeping_account(email, settings),
            "email"@,
            |old_row: Row, new_row: Row| old_row
            .insert("name"@, new_row["name"@])
            .insert("imap_host"@, new_row["imap_host"@])
            .insert("imap_port"@, new_row["imap_port"@])
            .insert("smtp_host"@, new_row["smtp_host"@])
            .insert("smtp_port"@, new_row["smtp_port"@])
            .insert("delete_after_days"@, new_row["delete_after_days"@])
            .insert("delete_permanent"@, new_row["delete_permanent"@]),
        ),
{
    let s = keeping_account(email, settings);
    reveal_strlit("INSERT INTO accounts (email, name, imap_host, imap_port, smtp_host, smtp_port, delete_after_days, delete_permanent)
         VALUES (?1,?2,?3,?4,?5,?6,?7,?8)
         ON CONFLICT(email) DO UPDATE SET
           name=excluded.name,
           imap_host=excluded.imap_host, imap_port=excluded.imap_port,
           smtp_host=excluded.smtp_host, smtp_port=excluded.smtp_port,
           delete_after_days=excluded.delete_after_days,
           delete_permanent=excluded.delete_permanent");
    reveal_strlit("\n         ON CONFLICT(");
    reveal_strlit("email");
    reveal_strlit("\n           ");
    reveal_strlit("name");
    reveal_strlit("excluded.name");
    reveal_strlit(",\n           ");
    reveal_strlit("imap_host");
    reveal_strlit("excluded.imap_host");
    reveal_strlit(", ");
    reveal_strlit("imap_port");
    reveal_strlit("excluded.imap_port");
    reveal_strlit("smtp_host");
    reveal_strlit("excluded.smtp_host");
    reveal_strlit("smtp_port");
    reveal_strlit("excluded.smtp_port");
    reveal_strlit("delete_after_days");
    reveal_strlit("excluded.delete_after_days");
    reveal_strlit("delete_permanent");
    reveal_strlit("excluded.delete_permanent");
    reveal_strlit("ON CONFLICT(");
    reveal_strlit(") DO UPDATE SET");
    reveal_strlit("=");
    reveal_strlit("excluded.");
    lemma_terms(s.params);
    assert("excluded.name"@ =~= "excluded."@ + "name"@);
    assert("excluded.imap_host"@ =~= "excluded."@ + "imap_host"@);
    assert("excluded.imap_port"@ =~= "excluded."@ + "imap_port"@);
    assert("excluded.smtp_host"@ =~= "excluded."@ + "smtp_host"@);
    assert("excluded.smtp_port"@ =~= "excluded."@ + "smtp_port"@);
    assert("excluded.delete_after_days"@ =~= "excluded."@ + "delete_after_days"@);
    assert("excluded.delete_permanent"@ =~= "excluded."@ + "delete_permanent"@);
    assert("imap_host"@[5] != "imap_port"@[5]);
    assert("imap_host"@[0] != "smtp_host"@[0]);
    assert("imap_port"@[0] != "smtp_host"@[0]);
    assert("imap_host"@[0] != "smtp_port"@[0]);
    assert("imap_port"@[0] != "smtp_port"@[0]);
    assert("smtp_host"@[5] != "smtp_port"@[5]);
    let a7 = Sets::Assign { gap: ",\n           "@, column: "delete_permanent"@, term: "excluded.delete_permanent"@, rest: Box::new(Sets::End) };
    let a6 = Sets::Assign { gap: ",\n           "@, column: "delete_after_days"@, term: "excluded.delete_after_days"@, rest: Box::new(a7) };
    let a5 = Sets::Assign { gap: ", "@, column: "smtp_port"@, term: "excluded.smtp_port"@, rest: Box::new(a6) };
    let a4 = Sets::Assign { gap: ",\n           "@, column: "smtp_host"@, term: "excluded.smtp_host"@, rest: Box::new(a5) };
    let a3 = Sets::Assign { gap: ", "@, column: "imap_port"@, term: "excluded.imap_port"@, rest: Box::new(a4) };
    let a2 = Sets::Assign { gap: ",\n           "@, column: "imap_host"@, term: "excluded.imap_host"@, rest: Box::new(a3) };
    let a1 = Sets::Assign { gap: "\n           "@, column: "name"@, term: "excluded.name"@, rest: Box::new(a2) };
    let p = Conflict { at: 157, start: "\n         ON CONFLICT("@, key: "email"@, sets: a1 };
    reveal_with_fuel(Sets::end_in, 8);
    reveal_with_fuel(Sets::merged, 8);
    assert(p.is_read(s.sql));
}

/// Changing the settings of an account changes the settings of this account only; its address
/// stays.
#[verifier::spinoff_prover]
#[verifier::rlimit(60)]
pub proof fn law_change_account(account_id: int, settings: AccountSettings, signature: Seq<char>)
    ensures
        changes(
            changing_account(account_id, settings, signature),
            "accounts"@,
            |row: Row| row["id"@] == ValueView::Int(account_id),
            |row: Row| row
                .insert("name"@, ValueView::Text(settings.name@))
                .insert("imap_host"@, ValueView::Text(settings.imap_host@))
                .insert("imap_port"@, ValueView::Int(settings.imap_port as int))
                .insert("smtp_host"@, ValueView::Text(settings.smtp_host@))
                .insert("smtp_port"@, ValueView::Int(settings.smtp_port as int))
                .insert("delete_after_days"@, match settings.delete_after_days { Some(n) => ValueView::Int(n as int), None => ValueView::Null })
                .insert("delete_permanent"@, ValueView::Int(if settings.delete_permanent { 1 } else { 0 }))
                .insert("signature"@, ValueView::Text(signature)),
        ),
{
    let s = changing_account(account_id, settings, signature);
    reveal_strlit("UPDATE accounts SET name=?1, imap_host=?2, imap_port=?3, smtp_host=?4, smtp_port=?5,
         delete_after_days=?6, delete_permanent=?7, signature=?8 WHERE id=?9");
    reveal_strlit("accounts");
    reveal_strlit("");
    reveal_strlit("name");
    reveal_strlit("?1");
    reveal_strlit(", ");
    reveal_strlit("imap_host");
    reveal_strlit("?2");
    reveal_strlit("imap_port");
    reveal_strlit("?3");
    reveal_strlit("smtp_host");
    reveal_strlit("?4");
    reveal_strlit("smtp_port");
    reveal_strlit("?5");
    reveal_strlit(",\n         ");
    reveal_strlit("delete_after_days");
    reveal_strlit("?6");
    reveal_strlit("delete_permanent");
    reveal_strlit("?7");
    reveal_strlit("signature");
    reveal_strlit("?8");
    reveal_strlit(" ");
    reveal_strlit("WHERE ");
    reveal_strlit("id");
    reveal_strlit("=");
    reveal_strlit("?9");
    reveal_strlit("UPDATE ");
    reveal_strlit(" SET ");
    reveal_strlit(" AND ");
    lemma_terms(s.params);
    assert("imap_host"@[5] != "imap_port"@[5]);
    assert("imap_host"@[0] != "smtp_host"@[0]);
    assert("imap_port"@[0] != "smtp_host"@[0]);
    assert("imap_host"@[0] != "smtp_port"@[0]);
    assert("imap_port"@[0] != "smtp_port"@[0]);
    assert("smtp_host"@[5] != "smtp_port"@[5]);
    assert("imap_host"@[0] != "signature"@[0]);
    assert("imap_port"@[0] != "signature"@[0]);
    assert("smtp_host"@[1] != "signature"@[1]);
    assert("smtp_port"@[1] != "signature"@[1]);
    let a8 = Sets::Assign { gap: ", "@, column: "signature"@, term: "?8"@, rest: Box::new(Sets::End) };
    let a7 = Sets::Assign { gap: ", "@, column: "delete_permanent"@, term: "?7"@, rest: Box::new(a8) };
    let a6 = Sets::Assign { gap: ",\n         "@, column: "delete_after_days"@, term: "?6"@, rest: Box::new(a7) };
    let a5 = Sets::Assign { gap: ", "@, column: "smtp_port"@, term: "?5"@, rest: Box::new(a6) };
    let a4 = Sets::Assign { gap: ", "@, column: "smtp_host"@, term: "?4"@, rest: Box::new(a5) };
    let a3 = Sets::Assign { gap: ", "@, column: "imap_port"@, term: "?3"@, rest: Box::new(a4) };
    let a2 = Sets::Assign { gap: ", "@, column: "imap_host"@, term: "?2"@, rest: Box::new(a3) };
    let a1 = Sets::Assign { gap: ""@, column: "name"@, term: "?1"@, rest: Box::new(a2) };
    let t1 = Tests::Test { gap: "WHERE "@, column: "id"@, sign: "="@, term: "?9"@, rest: Box::new(Tests::End) };
    let p = Update { table: "accounts"@, sets: a1, before: " "@, tests: t1 };
    reveal_with_fuel(Sets::end_in, 9);
    reveal_with_fuel(Sets::made, 9);
    reveal_with_fuel(Tests::end_in, 2);
    reveal_with_fuel(Tests::hold, 2);
    reveal_with_fuel(Tests::all_joined, 2);
    assert(stands(s.sql, s.sql.len() as int, Seq::empty()));
    assert(p.is_read(s.sql));
}

/// Deleting an account deletes the messages of this account.
pub proof fn law_forget_account_mail(account_id: int)
    ensures
        deletes(
            forgetting_account(account_id).0,
            "emails"@,
            |row: Row| row["account_id"@] == ValueView::Int(account_id),
        ),
{
    let s = forgetting_account(account_id).0;
    reveal_strlit("DELETE FROM emails WHERE account_id=?1");
    reveal_strlit("emails");
    reveal_strlit("WHERE ");
    reveal_strlit("account_id");
    reveal_strlit("=");
    reveal_strlit("?1");
    reveal_strlit("DELETE FROM ");
    reveal_strlit(" ");
    reveal_strlit(" AND ");
    lemma_terms(s.params);
    let t1 = Tests::Test { gap: "WHERE "@, column: "account_id"@, sign: "="@, term: "?1"@, rest: Box::new(Tests::End) };
    let p = Delete { table: "emails"@, tests: t1 };
    reveal_with_fuel(Tests::end_in, 2);
    reveal_with_fuel(Tests::hold, 2);
    reveal_with_fuel(Tests::all_joined, 2);
    assert(stands(s.sql, s.sql.len() as int, Seq::empty()));
    assert(p.is_read(s.sql));
}

/// Deleting an account deletes this account and no other.
pub proof fn law_forget_account(account_id: int)
    ensures
        deletes(
            forgetting_account(account_id).1,
            "accounts"@,
            |row: Row| row["id"@] == ValueView::Int(account_id),
        ),
{
    let s = forgetting_account(account_id).1;
    reveal_strlit("DELETE FROM accounts WHERE id=?1");
    reveal_strlit("accounts");
    reveal_strlit("WHERE ");
    reveal_strlit("id");
    reveal_strlit("=");
    reveal_strlit("?1");
    reveal_strlit("DELETE FROM ");
    reveal_strlit(" ");
    reveal_strlit(" AND ");
    lemma_terms(s.params);
    let t1 = Tests::Test { gap: "WHERE "@, column: "id"@, sign: "="@, term: "?1"@, rest: Box::new(Tests::End) };
    let p = Delete { table: "accounts"@, tests: t1 };
    reveal_with_fuel(Tests::end_in, 2);
    reveal_with_fuel(Tests::hold, 2);
    reveal_with_fuel(Tests::all_joined, 2);
    assert(stands(s.sql, s.sql.len() as int, Seq::empty()));
    assert(p.is_read(s.sql));
}

/// An account is read by its id.
#[verifier::spinoff_prover]
#[verifier::rlimit(40)]
pub proof fn law_read_account(id: int)
    ensures
        selects(
            reading_account(id),
            seq!["id"@, "email"@, "name"@, "imap_host"@, "imap_port"@, "smtp_host"@, "smtp_port"@],
            "accounts"@,
            |row: Row| row["id"@] == ValueView::Int(id),
            Seq::empty(),
        ),
{
    let s = reading_account(id);
    reveal_strlit("SELECT id,email,name,imap_host,imap_port,smtp_host,smtp_port FROM accounts WHERE id=?1");
    reveal_strlit(" ");
    reveal_strlit("id");
    reveal_strlit(",");
    reveal_strlit("email");
    reveal_strlit("name");
    reveal_strlit("imap_host");
    reveal_strlit("imap_port");
    reveal_strlit("smtp_host");
    reveal_strlit("smtp_port");
    reveal_strlit("accounts");
    reveal_strlit("WHERE ");
    reveal_strlit("=");
    reveal_strlit("?1");
    reveal_strlit("SELECT");
    reveal_strlit("FROM ");
    reveal_strlit(" AND ");
    lemma_terms(s.params);
    let w7 = Words::Then { gap: ","@, word: "smtp_port"@, rest: Box::new(Words::End) };
    let w6 = Words::Then { gap: ","@, word: "smtp_host"@, rest: Box::new(w7) };
    let w5 = Words::Then { gap: ","@, word: "imap_port"@, rest: Box::new(w6) };
    let w4 = Words::Then { gap: ","@, word: "imap_host"@, rest: Box::new(w5) };
    let w3 = Words::Then { gap: ","@, word: "name"@, rest: Box::new(w4) };
    let w2 = Words::Then { gap: ","@, word: "email"@, rest: Box::new(w3) };
    let w1 = Words::Then { gap: " "@, word: "id"@, rest: Box::new(w2) };
    let t1 = Tests::Test { gap: "WHERE "@, column: "id"@, sign: "="@, term: "?1"@, rest: Box::new(Tests::End) };
    let p = Select {
        columns: w1,
        before_from: " "@,
        table: "accounts"@,
        before: " "@,
        tests: t1,
        tail: Seq::empty(),
    };
    reveal_with_fuel(Words::end_in, 8);
    reveal_with_fuel(Words::count, 8);
    reveal_with_fuel(Words::at, 8);
    reveal_with_fuel(Tests::end_in, 2);
    reveal_with_fuel(Tests::hold, 2);
    reveal_with_fuel(Tests::all_joined, 2);
    assert(stands(s.sql, s.sql.len() as int, Seq::empty()));
    assert(p.is_read(s.sql));
}

/// All accounts are read with all their settings.
#[verifier::spinoff_prover]
#[verifier::rlimit(40)]
pub proof fn law_read_accounts()
    ensures
        selects_all(reading_accounts(), seq![
                "id"@, "email"@, "name"@, "imap_host"@, "imap_port"@, "smtp_host"@, "smtp_port"@,
                "delete_after_days"@, "delete_permanent"@, "signature"@,
            ], "accounts"@, Seq::empty()),
{
    let s = reading_accounts();
    reveal_strlit("SELECT id, email, name, imap_host, imap_port, smtp_host, smtp_port, delete_after_days, delete_permanent, signature FROM accounts");
    reveal_strlit(" ");
    reveal_strlit("id");
    reveal_strlit(", ");
    reveal_strlit("email");
    reveal_strlit("name");
    reveal_strlit("imap_host");
    reveal_strlit("imap_port");
    reveal_strlit("smtp_host");
    reveal_strlit("smtp_port");
    reveal_strlit("delete_after_days");
    reveal_strlit("delete_permanent");
    reveal_strlit("signature");
    reveal_strlit("accounts");
    reveal_strlit("SELECT");
    reveal_strlit(" FROM ");
    lemma_terms(s.params);
    let w10 = Words::Then { gap: ", "@, word: "signature"@, rest: Box::new(Words::End) };
    let w9 = Words::Then { gap: ", "@, word: "delete_permanent"@, rest: Box::new(w10) };
    let w8 = Words::Then { gap: ", "@, word: "delete_after_days"@, rest: Box::new(w9) };
    let w7 = Words::Then { gap: ", "@, word: "smtp_port"@, rest: Box::new(w8) };
    let w6 = Words::Then { gap: ", "@, word: "smtp_host"@, rest: Box::new(w7) };
    let w5 = Words::Then { gap: ", "@, word: "imap_port"@, rest: Box::new(w6) };
    let w4 = Words::Then { gap: ", "@, word: "imap_host"@, rest: Box::new(w5) };
    let w3 = Words::Then { gap: ", "@, word: "name"@, rest: Box::new(w4) };
    let w2 = Words::Then { gap: ", "@, word: "email"@, rest: Box::new(w3) };
    let w1 = Words::Then { gap: " "@, word: "id"@, rest: Box::new(w2) };
    let p = SelectAll { columns: w1, table: "accounts"@, tail: Seq::empty() };
    reveal_with_fuel(Words::end_in, 11);
    reveal_with_fuel(Words::count, 11);
    reveal_with_fuel(Words::at, 11);
    assert(stands(s.sql, s.sql.len() as int, Seq::empty()));
    assert(p.is_read(s.sql));
}

/// The address of an account is read by its id.
pub proof fn law_read_address(account_id: int)
    ensures
        selects(
            reading_address(account_id),
            seq!["email"@],
            "accounts"@,
            |row: Row| row["id"@] == ValueView::Int(account_id),
            Seq::empty(),
        ),
{
    let s = reading_address(account_id);
    reveal_strlit("SELECT email FROM accounts WHERE id=?1");
    reveal_strlit(" ");
    reveal_strlit("email");
    reveal_strlit("accounts");
    reveal_strlit("WHERE ");
    reveal_strlit("id");
    reveal_strlit("=");
    reveal_strlit("?1");
    reveal_strlit("SELECT");
    reveal_strlit("FROM ");
    reveal_strlit(" AND ");
    lemma_terms(s.params);
    let w1 = Words::Then { gap: " "@, word: "email"@, rest: Box::new(Words::End) };
    let t1 = Tests::Test { gap: "WHERE "@, column: "id"@, sign: "="@, term: "?1"@, rest: Box::new(Tests::End) };
    let p = Select {
        columns: w1,
        before_from: " "@,
        table: "accounts"@,
        before: " "@,
        tests: t1,
        tail: Seq::empty(),
    };
    reveal_with_fuel(Words::end_in, 2);
    reveal_with_fuel(Words::count, 2);
    reveal_with_fuel(Words::at, 2);
    reveal_with_fuel(Tests::end_in, 2);
    reveal_with_fuel(Tests::hold, 2);
    reveal_with_fuel(Tests::all_joined, 2);
    assert(stands(s.sql, s.sql.len() as int, Seq::empty()));
    assert(p.is_read(s.sql));
}

/// What is to be done with old messages is read by the id of the account.
pub proof fn law_read_purge_settings(account_id: int)
    ensures
        selects(
            reading_purge_settings(account_id),
            seq!["delete_after_days"@, "delete_permanent"@],
            "accounts"@,
            |row: Row| row["id"@] == ValueView::Int(account_id),
            Seq::empty(),
        ),
{
    let s = reading_purge_settings(account_id);
    reveal_strlit("SELECT delete_after_days, delete_permanent FROM accounts WHERE id=?1");
    reveal_strlit(" ");
    reveal_strlit("delete_after_days");
    reveal_strlit(", ");
    reveal_strlit("delete_permanent");
    reveal_strlit("accounts");
    reveal_strlit("WHERE ");
    reveal_strlit("id");
    reveal_strlit("=");
    reveal_strlit("?1");
    reveal_strlit("SELECT");
    reveal_strlit("FROM ");
    reveal_strlit(" AND ");
    lemma_terms(s.params);
    let w2 = Words::Then { gap: ", "@, word: "delete_permanent"@, rest: Box::new(Words::End) };
    let w1 = Words::Then { gap: " "@, word: "delete_after_days"@, rest: Box::new(w2) };
    let t1 = Tests::Test { gap: "WHERE "@, column: "id"@, sign: "="@, term: "?1"@, rest: Box::new(Tests::End) };
    let p = Select {
        columns: w1,
        before_from: " "@,
        table: "accounts"@,
        before: " "@,
        tests: t1,
        tail: Seq::empty(),
    };
    reveal_with_fuel(Words::end_in, 3);
    reveal_with_fuel(Words::count, 3);
    reveal_with_fuel(Words::at, 3);
    reveal_with_fuel(Tests::end_in, 2);
    reveal_with_fuel(Tests::hold, 2);
    reveal_with_fuel(Tests::all_joined, 2);
    assert(stands(s.sql, s.sql.len() as int, Seq::empty()));
    assert(p.is_read(s.sql));
}

/// The group that every contact belongs to is found by its name.
pub proof fn law_find_default_group()
    ensures
        selects(
            finding_default_group(),
            seq!["id"@],
            "contact_groups"@,
            |row: Row| row["name"@] == ValueView::Text("Мои контакты"@),
            Seq::empty(),
        ),
{
    let s = finding_default_group();
    reveal_strlit("SELECT id FROM contact_groups WHERE name='Мои контакты'");
    reveal_strlit(" ");
    reveal_strlit("id");
    reveal_strlit("contact_groups");
    reveal_strlit("WHERE ");
    reveal_strlit("name");
    reveal_strlit("=");
    reveal_strlit("'Мои контакты'");
    reveal_strlit("SELECT");
    reveal_strlit("FROM ");
    reveal_strlit(" AND ");
    reveal_strlit("Мои контакты");
    lemma_terms(s.params);
    assert("'Мои контакты'"@.subrange(1, 13) =~= "Мои контакты"@);
    let w1 = Words::Then { gap: " "@, word: "id"@, rest: Box::new(Words::End) };
    let t1 = Tests::Test { gap: "WHERE "@, column: "name"@, sign: "="@, term: "'Мои контакты'"@, rest: Box::new(Tests::End) };
    let p = Select {
        columns: w1,
        before_from: " "@,
        table: "contact_groups"@,
        before: " "@,
        tests: t1,
        tail: Seq::empty(),
    };
    reveal_with_fuel(Words::end_in, 2);
    reveal_with_fuel(Words::count, 2);
    reveal_with_fuel(Words::at, 2);
    reveal_with_fuel(Tests::end_in, 2);
    reveal_with_fuel(Tests::hold, 2);
    reveal_with_fuel(Tests::all_joined, 2);
    assert(stands(s.sql, s.sql.len() as int, Seq::empty()));
    assert(p.is_read(s.sql));
}

/// A contact joins a group.
pub proof fn law_join_group(contact_id: int, group_id: int)
    ensures
        inserts(
            joining(contact_id, group_id),
            "contact_group_members"@,
            Map::empty()
            .insert("contact_id"@, ValueView::Int(contact_id))
            .insert("group_id"@, ValueView::Int(group_id)),
        ),
{
    let s = joining(contact_id, group_id);
    reveal_strlit("INSERT OR IGNORE INTO contact_group_members (contact_id, group_id) VALUES (?1, ?2)");
    reveal_strlit("INSERT OR IGNORE INTO ");
    reveal_strlit("contact_group_members");
    reveal_strlit(" (");
    reveal_strlit("contact_id");
    reveal_strlit(", ");
    reveal_strlit("group_id");
    reveal_strlit(") VALUES ");
    reveal_strlit("(");
    reveal_strlit("?1");
    reveal_strlit("?2");
    lemma_terms(s.params);
    let w2 = Words::Then { gap: ", "@, word: "group_id"@, rest: Box::new(Words::End) };
    let w1 = Words::Then { gap: " ("@, word: "contact_id"@, rest: Box::new(w2) };
    let w4 = Words::Then { gap: ", "@, word: "?2"@, rest: Box::new(Words::End) };
    let w3 = Words::Then { gap: "("@, word: "?1"@, rest: Box::new(w4) };
    let p = Insert {
        verb: "INSERT OR IGNORE INTO "@,
        table: "contact_group_members"@,
        columns: w1,
        middle: ") VALUES "@,
        terms: w3,
    };
    reveal_with_fuel(Words::end_in, 3);
    reveal_with_fuel(Words::count, 3);
    reveal_with_fuel(given, 3);
    assert(p.is_read(s.sql));
    assert(p.gives(s.params, "contact_id"@) == Some(ValueView::Int(contact_id)));
    assert(p.gives(s.params, "group_id"@) == Some(ValueView::Int(group_id)));
}

/// A contact from a file is kept with all that the file says of it.
pub proof fn law_keep_card(c: CardView)
    ensures
        inserts(
            keeping_card(c),
            "contacts"@,
            Map::empty()
            .insert("name"@, ValueView::Text(c.name))
            .insert("email"@, ValueView::Text(c.email))
            .insert("phone"@, ValueView::Text(c.phone))
            .insert("company"@, ValueView::Text(c.company))
            .insert("notes"@, ValueView::Text(c.notes)),
        ),
{
    let s = keeping_card(c);
    reveal_strlit("INSERT INTO contacts (name,email,phone,company,notes) VALUES (?1,?2,?3,?4,?5)
             ON CONFLICT(email) DO UPDATE SET
               name=CASE WHEN excluded.name!='' THEN excluded.name ELSE name END,
               phone=CASE WHEN excluded.phone!='' THEN excluded.phone ELSE phone END,
               company=CASE WHEN excluded.company!='' THEN excluded.company ELSE company END");
    reveal_strlit("INSERT INTO ");
    reveal_strlit("contacts");
    reveal_strlit(" (");
    reveal_strlit("name");
    reveal_strlit(",");
    reveal_strlit("email");
    reveal_strlit("phone");
    reveal_strlit("company");
    reveal_strlit("notes");
    reveal_strlit(") VALUES ");
    reveal_strlit("(");
    reveal_strlit("?1");
    reveal_strlit("?2");
    reveal_strlit("?3");
    reveal_strlit("?4");
    reveal_strlit("?5");
    lemma_terms(s.params);
    let w5 = Words::Then { gap: ","@, word: "notes"@, rest: Box::new(Words::End) };
    let w4 = Words::Then { gap: ","@, word: "company"@, rest: Box::new(w5) };
    let w3 = Words::Then { gap: ","@, word: "phone"@, rest: Box::new(w4) };
    let w2 = Words::Then { gap: ","@, word: "email"@, rest: Box::new(w3) };
    let w1 = Words::Then { gap: " ("@, word: "name"@, rest: Box::new(w2) };
    let w10 = Words::Then { gap: ","@, word: "?5"@, rest: Box::new(Words::End) };
    let w9 = Words::Then { gap: ","@, word: "?4"@, rest: Box::new(w10) };
    let w8 = Words::Then { gap: ","@, word: "?3"@, rest: Box::new(w9) };
    let w7 = Words::Then { gap: ","@, word: "?2"@, rest: Box::new(w8) };
    let w6 = Words::Then { gap: "("@, word: "?1"@, rest: Box::new(w7) };
    let p = Insert {
        verb: "INSERT INTO "@,
        table: "contacts"@,
        columns: w1,
        middle: ") VALUES "@,
        terms: w6,
    };
    reveal_with_fuel(Words::end_in, 6);
    reveal_with_fuel(Words::count, 6);
    reveal_with_fuel(given, 6);
    assert(p.is_read(s.sql));
    assert("email"@[0] != "phone"@[0]);
    assert("email"@[0] != "notes"@[0]);
    assert("phone"@[0] != "notes"@[0]);
    assert(p.gives(s.params, "name"@) == Some(ValueView::Text(c.name)));
    assert(p.gives(s.params, "email"@) == Some(ValueView::Text(c.email)));
    assert(p.gives(s.params, "phone"@) == Some(ValueView::Text(c.phone)));
    assert(p.gives(s.params, "company"@) == Some(ValueView::Text(c.company)));
    assert(p.gives(s.params, "notes"@) == Some(ValueView::Text(c.notes)));
}

/// Where a contact with the address is there already, what the file says of name, phone and company
/// replaces what was known, unless it says nothing; the notes stay.
#[verifier::spinoff_prover]
#[verifier::rlimit(40)]
pub proof fn law_keep_card_again(c: CardView)
    ensures
        merges(
            keeping_card(c),
            "email"@,
            |old_row: Row, new_row: Row| old_row
            .insert("name"@, kept_unless_empty(old_row["name"@], new_row["name"@]))
            .insert("phone"@, kept_unless_empty(old_row["phone"@], new_row["phone"@]))
            .insert("company"@, kept_unless_empty(old_row["company"@], new_row["company"@])),
        ),
{
    let s = keeping_card(c);
    reveal_strlit("INSERT INTO contacts (name,email,phone,company,notes) VALUES (?1,?2,?3,?4,?5)
             ON CONFLICT(email) DO UPDATE SET
               name=CASE WHEN excluded.name!='' THEN excluded.name ELSE name END,
               phone=CASE WHEN excluded.phone!='' THEN excluded.phone ELSE phone END,
               company=CASE WHEN excluded.company!='' THEN excluded.company ELSE company END");
    reveal_strlit("\n             ON CONFLICT(");
    reveal_strlit("email");
    reveal_strlit("\n               ");
    reveal_strlit("name");
    reveal_strlit("CASE WHEN excluded.name!='' THEN excluded.name ELSE name END");
    reveal_strlit(",\n               ");
    reveal_strlit("phone");
    reveal_strlit("CASE WHEN excluded.phone!='' THEN excluded.phone ELSE phone END");
    reveal_strlit("company");
    reveal_strlit("CASE WHEN excluded.company!='' THEN excluded.company ELSE company END");
    reveal_strlit("ON CONFLICT(");
    reveal_strlit(") DO UPDATE SET");
    reveal_strlit("=");
    reveal_strlit("excluded.");
    reveal_strlit("CASE WHEN excluded.");
    reveal_strlit("!='' THEN excluded.");
    reveal_strlit(" ELSE ");
    reveal_strlit(" END");
    lemma_terms(s.params);
    assert("CASE WHEN excluded.name!='' THEN excluded.name ELSE name END"@ =~= "CASE WHEN excluded."@ + "name"@ + "!='' THEN excluded."@ + "name"@ + " ELSE "@ + "name"@ + " END"@);
    assert("CASE WHEN excluded.name!='' THEN excluded.name ELSE name END"@[0] != ("excluded."@ + "name"@)[0]);
    assert("CASE WHEN excluded.phone!='' THEN excluded.phone ELSE phone END"@ =~= "CASE WHEN excluded."@ + "phone"@ + "!='' THEN excluded."@ + "phone"@ + " ELSE "@ + "phone"@ + " END"@);
    assert("CASE WHEN excluded.phone!='' THEN excluded.phone ELSE phone END"@[0] != ("excluded."@ + "phone"@)[0]);
    assert("CASE WHEN excluded.company!='' THEN excluded.company ELSE company END"@ =~= "CASE WHEN excluded."@ + "company"@ + "!='' THEN excluded."@ + "company"@ + " ELSE "@ + "company"@ + " END"@);
    assert("CASE WHEN excluded.company!='' THEN excluded.company ELSE company END"@[0] != ("excluded."@ + "company"@)[0]);
    let a3 = Sets::Assign { gap: ",\n               "@, column: "company"@, term: "CASE WHEN excluded.company!='' THEN excluded.company ELSE company END"@, rest: Box::new(Sets::End) };
    let a2 = Sets::Assign { gap: ",\n               "@, column: "phone"@, term: "CASE WHEN excluded.phone!='' THEN excluded.phone ELSE phone END"@, rest: Box::new(a3) };
    let a1 = Sets::Assign { gap: "\n               "@, column: "name"@, term: "CASE WHEN excluded.name!='' THEN excluded.name ELSE name END"@, rest: Box::new(a2) };
    let p = Conflict { at: 77, start: "\n             ON CONFLICT("@, key: "email"@, sets: a1 };
    reveal_with_fuel(Sets::end_in, 4);
    reveal_with_fuel(Sets::merged, 4);
    assert(p.is_read(s.sql));
}

/// A contact is found by its address.
pub proof fn law_find_contact(email: Seq<char>)
    ensures
        selects(
            finding_contact(email),
            seq!["id"@],
            "contacts"@,
            |row: Row| row["email"@] == ValueView::Text(email),
            Seq::empty(),
        ),
{
    let s = finding_contact(email);
    reveal_strlit("SELECT id FROM contacts WHERE email=?1");
    reveal_strlit(" ");
    reveal_strlit("id");
    reveal_strlit("contacts");
    reveal_strlit("WHERE ");
    reveal_strlit("email");
    reveal_strlit("=");
    reveal_strlit("?1");
    reveal_strlit("SELECT");
    reveal_strlit("FROM ");
    reveal_strlit(" AND ");
    lemma_terms(s.params);
    let w1 = Words::Then { gap: " "@, word: "id"@, rest: Box::new(Words::End) };
    let t1 = Tests::Test { gap: "WHERE "@, column: "email"@, sign: "="@, term: "?1"@, rest: Box::new(Tests::End) };
    let p = Select {
        columns: w1,
        before_from: " "@,
        table: "contacts"@,
        before: " "@,
        tests: t1,
        tail: Seq::empty(),
    };
    reveal_with_fuel(Words::end_in, 2);
    reveal_with_fuel(Words::count, 2);
    reveal_with_fuel(Words::at, 2);
    reveal_with_fuel(Tests::end_in, 2);
    reveal_with_fuel(Tests::hold, 2);
    reveal_with_fuel(Tests::all_joined, 2);
    assert(stands(s.sql, s.sql.len() as int, Seq::empty()));
    assert(p.is_read(s.sql));
}

/// All contacts are read in the order of their names.
pub proof fn law_read_contacts()
    ensures
        selects_all(reading_contacts(), seq!["id"@, "name"@, "email"@, "phone"@, "company"@, "notes"@, "is_blacklisted"@], "contacts"@, " ORDER BY name COLLATE NOCASE ASC"@),
{
    let s = reading_contacts();
    reveal_strlit("SELECT id,name,email,phone,company,notes,is_blacklisted FROM contacts ORDER BY name COLLATE NOCASE ASC");
    reveal_strlit(" ");
    reveal_strlit("id");
    reveal_strlit(",");
    reveal_strlit("name");
    reveal_strlit("email");
    reveal_strlit("phone");
    reveal_strlit("company");
    reveal_strlit("notes");
    reveal_strlit("is_blacklisted");
    reveal_strlit("contacts");
    reveal_strlit(" ORDER BY name COLLATE NOCASE ASC");
    reveal_strlit("SELECT");
    reveal_strlit(" FROM ");
    lemma_terms(s.params);
    let w7 = Words::Then { gap: ","@, word: "is_blacklisted"@, rest: Box::new(Words::End) };
    let w6 = Words::Then { gap: ","@, word: "notes"@, rest: Box::new(w7) };
    let w5 = Words::Then { gap: ","@, word: "company"@, rest: Box::new(w6) };
    let w4 = Words::Then { gap: ","@, word: "phone"@, rest: Box::new(w5) };
    let w3 = Words::Then { gap: ","@, word: "email"@, rest: Box::new(w4) };
    let w2 = Words::Then { gap: ","@, word: "name"@, rest: Box::new(w3) };
    let w1 = Words::Then { gap: " "@, word: "id"@, rest: Box::new(w2) };
    let p = SelectAll {
        columns: w1,
        table: "contacts"@,
        tail: " ORDER BY name COLLATE NOCASE ASC"@,
    };
    reveal_with_fuel(Words::end_in, 8);
    reveal_with_fuel(Words::count, 8);
    reveal_with_fuel(Words::at, 8);
    assert(p.is_read(s.sql));
}

/// Changing a contact changes what is known of this contact only.
#[verifier::spinoff_prover]
#[verifier::rlimit(40)]
pub proof fn law_change_contact(c: ContactView)
    ensures
        changes(
            changing_contact(c),
            "contacts"@,
            |row: Row| row["id"@] == ValueView::Int(c.id),
            |row: Row| row
                .insert("name"@, ValueView::Text(c.card.name))
                .insert("email"@, ValueView::Text(c.card.email))
                .insert("phone"@, ValueView::Text(c.card.phone))
                .insert("company"@, ValueView::Text(c.card.company))
                .insert("notes"@, ValueView::Text(c.card.notes)),
        ),
{
    let s = changing_contact(c);
    reveal_strlit("UPDATE contacts SET name=?1,email=?2,phone=?3,company=?4,notes=?5 WHERE id=?6");
    reveal_strlit("contacts");
    reveal_strlit("");
    reveal_strlit("name");
    reveal_strlit("?1");
    reveal_strlit(",");
    reveal_strlit("email");
    reveal_strlit("?2");
    reveal_strlit("phone");
    reveal_strlit("?3");
    reveal_strlit("company");
    reveal_strlit("?4");
    reveal_strlit("notes");
    reveal_strlit("?5");
    reveal_strlit(" ");
    reveal_strlit("WHERE ");
    reveal_strlit("id");
    reveal_strlit("=");
    reveal_strlit("?6");
    reveal_strlit("UPDATE ");
    reveal_strlit(" SET ");
    reveal_strlit(" AND ");
    lemma_terms(s.params);
    assert("email"@[0] != "phone"@[0]);
    assert("email"@[0] != "notes"@[0]);
    assert("phone"@[0] != "notes"@[0]);
    let a5 = Sets::Assign { gap: ","@, column: "notes"@, term: "?5"@, rest: Box::new(Sets::End) };
    let a4 = Sets::Assign { gap: ","@, column: "company"@, term: "?4"@, rest: Box::new(a5) };
    let a3 = Sets::Assign { gap: ","@, column: "phone"@, term: "?3"@, rest: Box::new(a4) };
    let a2 = Sets::Assign { gap: ","@, column: "email"@, term: "?2"@, rest: Box::new(a3) };
    let a1 = Sets::Assign { gap: ""@, column: "name"@, term: "?1"@, rest: Box::new(a2) };
    let t1 = Tests::Test { gap: "WHERE "@, column: "id"@, sign: "="@, term: "?6"@, rest: Box::new(Tests::End) };
    let p = Update { table: "contacts"@, sets: a1, before: " "@, tests: t1 };
    reveal_with_fuel(Sets::end_in, 6);
    reveal_with_fuel(Sets::made, 6);
    reveal_with_fuel(Tests::end_in, 2);
    reveal_with_fuel(Tests::hold, 2);
    reveal_with_fuel(Tests::all_joined, 2);
    assert(stands(s.sql, s.sql.len() as int, Seq::empty()));
    assert(p.is_read(s.sql));
}

/// A new contact is kept with all that was entered.
pub proof fn law_add_contact(c: ContactView)
    ensures
        inserts(
            adding_contact(c),
            "contacts"@,
            Map::empty()
            .insert("name"@, ValueView::Text(c.card.name))
            .insert("email"@, ValueView::Text(c.card.email))
            .insert("phone"@, ValueView::Text(c.card.phone))
            .insert("company"@, ValueView::Text(c.card.company))
            .insert("notes"@, ValueView::Text(c.card.notes)),
        ),
{
    let s = adding_contact(c);
    reveal_strlit("INSERT INTO contacts (name,email,phone,company,notes) VALUES (?1,?2,?3,?4,?5)");
    reveal_strlit("INSERT INTO ");
    reveal_strlit("contacts");
    reveal_strlit(" (");
    reveal_strlit("name");
    reveal_strlit(",");
    reveal_strlit("email");
    reveal_strlit("phone");
    reveal_strlit("company");
    reveal_strlit("notes");
    reveal_strlit(") VALUES ");
    reveal_strlit("(");
    reveal_strlit("?1");
    reveal_strlit("?2");
    reveal_strlit("?3");
    reveal_strlit("?4");
    reveal_strlit("?5");
    lemma_terms(s.params);
    let w5 = Words::Then { gap: ","@, word: "notes"@, rest: Box::new(Words::End) };
    let w4 = Words::Then { gap: ","@, word: "company"@, rest: Box::new(w5) };
    let w3 = Words::Then { gap: ","@, word: "phone"@, rest: Box::new(w4) };
    let w2 = Words::Then { gap: ","@, word: "email"@, rest: Box::new(w3) };
    let w1 = Words::Then { gap: " ("@, word: "name"@, rest: Box::new(w2) };
    let w10 = Words::Then { gap: ","@, word: "?5"@, rest: Box::new(Words::End) };
    let w9 = Words::Then { gap: ","@, word: "?4"@, rest: Box::new(w10) };
    let w8 = Words::Then { gap: ","@, word: "?3"@, rest: Box::new(w9) };
    let w7 = Words::Then { gap: ","@, word: "?2"@, rest: Box::new(w8) };
    let w6 = Words::Then { gap: "("@, word: "?1"@, rest: Box::new(w7) };
    let p = Insert {
        verb: "INSERT INTO "@,
        table: "contacts"@,
        columns: w1,
        middle: ") VALUES "@,
        terms: w6,
    };
    reveal_with_fuel(Words::end_in, 6);
    reveal_with_fuel(Words::count, 6);
    reveal_with_fuel(given, 6);
    assert(p.is_read(s.sql));
    assert("email"@[0] != "phone"@[0]);
    assert("email"@[0] != "notes"@[0]);
    assert("phone"@[0] != "notes"@[0]);
    assert(p.gives(s.params, "name"@) == Some(ValueView::Text(c.card.name)));
    assert(p.gives(s.params, "email"@) == Some(ValueView::Text(c.card.email)));
    assert(p.gives(s.params, "phone"@) == Some(ValueView::Text(c.card.phone)));
    assert(p.gives(s.params, "company"@) == Some(ValueView::Text(c.card.company)));
    assert(p.gives(s.params, "notes"@) == Some(ValueView::Text(c.card.notes)));
}

/// Deleting a contact deletes this contact and no other.
pub proof fn law_forget_contact(id: int)
    ensures
        deletes(
            forgetting_contact(id),
            "contacts"@,
            |row: Row| row["id"@] == ValueView::Int(id),
        ),
{
    let s = forgetting_contact(id);
    reveal_strlit("DELETE FROM contacts WHERE id=?1");
    reveal_strlit("contacts");
    reveal_strlit("WHERE ");
    reveal_strlit("id");
    reveal_strlit("=");
    reveal_strlit("?1");
    reveal_strlit("DELETE FROM ");
    reveal_strlit(" ");
    reveal_strlit(" AND ");
    lemma_terms(s.params);
    let t1 = Tests::Test { gap: "WHERE "@, column: "id"@, sign: "="@, term: "?1"@, rest: Box::new(Tests::End) };
    let p = Delete { table: "contacts"@, tests: t1 };
    reveal_with_fuel(Tests::end_in, 2);
    reveal_with_fuel(Tests::hold, 2);
    reveal_with_fuel(Tests::all_joined, 2);
    assert(stands(s.sql, s.sql.len() as int, Seq::empty()));
    assert(p.is_read(s.sql));
}

/// A sender is kept as a contact with name and address.
pub proof fn law_keep_sender(name: Seq<char>, email: Seq<char>)
    ensures
        inserts(
            keeping_sender(name, email),
            "contacts"@,
            Map::empty()
            .insert("name"@, ValueView::Text(name))
            .insert("email"@, ValueView::Text(email))
            .insert("phone"@, ValueView::Text(Seq::empty()))
            .insert("company"@, ValueView::Text(Seq::empty()))
            .insert("notes"@, ValueView::Text(Seq::empty())),
        ),
{
    let s = keeping_sender(name, email);
    reveal_strlit("INSERT INTO contacts (name,email,phone,company,notes) VALUES (?1,?2,'','','')
         ON CONFLICT(email) DO UPDATE SET name=CASE WHEN excluded.name!='' THEN excluded.name ELSE name END");
    reveal_strlit("INSERT INTO ");
    reveal_strlit("contacts");
    reveal_strlit(" (");
    reveal_strlit("name");
    reveal_strlit(",");
    reveal_strlit("email");
    reveal_strlit("phone");
    reveal_strlit("company");
    reveal_strlit("notes");
    reveal_strlit(") VALUES ");
    reveal_strlit("(");
    reveal_strlit("?1");
    reveal_strlit("?2");
    reveal_strlit("''");
    lemma_terms(s.params);
    assert("''"@.subrange(1, 1) =~= Seq::<char>::empty());
    let w5 = Words::Then { gap: ","@, word: "notes"@, rest: Box::new(Words::End) };
    let w4 = Words::Then { gap: ","@, word: "company"@, rest: Box::new(w5) };
    let w3 = Words::Then { gap: ","@, word: "phone"@, rest: Box::new(w4) };
    let w2 = Words::Then { gap: ","@, word: "email"@, rest: Box::new(w3) };
    let w1 = Words::Then { gap: " ("@, word: "name"@, rest: Box::new(w2) };
    let w10 = Words::Then { gap: ","@, word: "''"@, rest: Box::new(Words::End) };
    let w9 = Words::Then { gap: ","@, word: "''"@, rest: Box::new(w10) };
    let w8 = Words::Then { gap: ","@, word: "''"@, rest: Box::new(w9) };
    let w7 = Words::Then { gap: ","@, word: "?2"@, rest: Box::new(w8) };
    let w6 = Words::Then { gap: "("@, word: "?1"@, rest: Box::new(w7) };
    let p = Insert {
        verb: "INSERT INTO "@,
        table: "contacts"@,
        columns: w1,
        middle: ") VALUES "@,
        terms: w6,
    };
    reveal_with_fuel(Words::end_in, 6);
    reveal_with_fuel(Words::count, 6);
    reveal_with_fuel(given, 6);
    assert(p.is_read(s.sql));
    assert("email"@[0] != "phone"@[0]);
    assert("email"@[0] != "notes"@[0]);
    assert("phone"@[0] != "notes"@[0]);
    assert(p.gives(s.params, "name"@) == Some(ValueView::Text(name)));
    assert(p.gives(s.params, "email"@) == Some(ValueView::Text(email)));
    assert(p.gives(s.params, "phone"@) == Some(ValueView::Text(Seq::empty())));
    assert(p.gives(s.params, "company"@) == Some(ValueView::Text(Seq::empty())));
    assert(p.gives(s.params, "notes"@) == Some(ValueView::Text(Seq::empty())));
}

/// Where a contact with the address is there already, only its name is replaced, unless the new one
/// is empty.
pub proof fn law_keep_sender_again(name: Seq<char>, email: Seq<char>)
    ensures
        merges(
            keeping_sender(name, email),
            "email"@,
            |old_row: Row, new_row: Row| old_row
            .insert("name"@, kept_unless_empty(old_row["name"@], new_row["name"@])),
        ),
{
    let s = keeping_sender(name, email);
    reveal_strlit("INSERT INTO contacts (name,email,phone,company,notes) VALUES (?1,?2,'','','')
         ON CONFLICT(email) DO UPDATE SET name=CASE WHEN excluded.name!='' THEN excluded.name ELSE name END");
    reveal_strlit("\n         ON CONFLICT(");
    reveal_strlit("email");
    reveal_strlit(" ");
    reveal_strlit("name");
    reveal_strlit("CASE WHEN excluded.name!='' THEN excluded.name ELSE name END");
    reveal_strlit("ON CONFLICT(");
    reveal_strlit(") DO UPDATE SET");
    reveal_strlit("=");
    reveal_strlit("excluded.");
    reveal_strlit("CASE WHEN excluded.");
    reveal_strlit("!='' THEN excluded.");
    reveal_strlit(" ELSE ");
    reveal_strlit(" END");
    lemma_terms(s.params);
    assert("CASE WHEN excluded.name!='' THEN excluded.name ELSE name END"@ =~= "CASE WHEN excluded."@ + "name"@ + "!='' THEN excluded."@ + "name"@ + " ELSE "@ + "name"@ + " END"@);
    assert("CASE WHEN excluded.name!='' THEN excluded.name ELSE name END"@[0] != ("excluded."@ + "name"@)[0]);
    let a1 = Sets::Assign { gap: " "@, column: "name"@, term: "CASE WHEN excluded.name!='' THEN excluded.name ELSE name END"@, rest: Box::new(Sets::End) };
    let p = Conflict { at: 77, start: "\n         ON CONFLICT("@, key: "email"@, sets: a1 };
    reveal_with_fuel(Sets::end_in, 2);
    reveal_with_fuel(Sets::merged, 2);
    assert(p.is_read(s.sql));
}

/// A sender is blacklisted as a contact with name and address.
pub proof fn law_blacklist(name: Seq<char>, email: Seq<char>)
    ensures
        inserts(
            blacklisting(name, email),
            "contacts"@,
            Map::empty()
            .insert("name"@, ValueView::Text(name))
            .insert("email"@, ValueView::Text(email))
            .insert("phone"@, ValueView::Text(Seq::empty()))
            .insert("company"@, ValueView::Text(Seq::empty()))
            .insert("notes"@, ValueView::Text(Seq::empty()))
            .insert("is_blacklisted"@, ValueView::Int(1)),
        ),
{
    let s = blacklisting(name, email);
    reveal_strlit("INSERT INTO contacts (name,email,phone,company,notes,is_blacklisted) VALUES (?1,?2,'','','',1)
         ON CONFLICT(email) DO UPDATE SET is_blacklisted=1,
         name=CASE WHEN excluded.name!='' THEN excluded.name ELSE name END");
    reveal_strlit("INSERT INTO ");
    reveal_strlit("contacts");
    reveal_strlit(" (");
    reveal_strlit("name");
    reveal_strlit(",");
    reveal_strlit("email");
    reveal_strlit("phone");
    reveal_strlit("company");
    reveal_strlit("notes");
    reveal_strlit("is_blacklisted");
    reveal_strlit(") VALUES ");
    reveal_strlit("(");
    reveal_strlit("?1");
    reveal_strlit("?2");
    reveal_strlit("''");
    reveal_strlit("1");
    lemma_terms(s.params);
    assert("''"@.subrange(1, 1) =~= Seq::<char>::empty());
    assert("1"@.drop_last() =~= Seq::<char>::empty());
    reveal_with_fuel(number_in, 2);
    let w6 = Words::Then { gap: ","@, word: "is_blacklisted"@, rest: Box::new(Words::End) };
    let w5 = Words::Then { gap: ","@, word: "notes"@, rest: Box::new(w6) };
    let w4 = Words::Then { gap: ","@, word: "company"@, rest: Box::new(w5) };
    let w3 = Words::Then { gap: ","@, word: "phone"@, rest: Box::new(w4) };
    let w2 = Words::Then { gap: ","@, word: "email"@, rest: Box::new(w3) };
    let w1 = Words::Then { gap: " ("@, word: "name"@, rest: Box::new(w2) };
    let w12 = Words::Then { gap: ","@, word: "1"@, rest: Box::new(Words::End) };
    let w11 = Words::Then { gap: ","@, word: "''"@, rest: Box::new(w12) };
    let w10 = Words::Then { gap: ","@, word: "''"@, rest: Box::new(w11) };
    let w9 = Words::Then { gap: ","@, word: "''"@, rest: Box::new(w10) };
    let w8 = Words::Then { gap: ","@, word: "?2"@, rest: Box::new(w9) };
    let w7 = Words::Then { gap: "("@, word: "?1"@, rest: Box::new(w8) };
    let p = Insert {
        verb: "INSERT INTO "@,
        table: "contacts"@,
        columns: w1,
        middle: ") VALUES "@,
        terms: w7,
    };
    reveal_with_fuel(Words::end_in, 7);
    reveal_with_fuel(Words::count, 7);
    reveal_with_fuel(given, 7);
    assert(p.is_read(s.sql));
    assert("email"@[0] != "phone"@[0]);
    assert("email"@[0] != "notes"@[0]);
    assert("phone"@[0] != "notes"@[0]);
    assert(p.gives(s.params, "name"@) == Some(ValueView::Text(name)));
    assert(p.gives(s.params, "email"@) == Some(ValueView::Text(email)));
    assert(p.gives(s.params, "phone"@) == Some(ValueView::Text(Seq::empty())));
    assert(p.gives(s.params, "company"@) == Some(ValueView::Text(Seq::empty())));
    assert(p.gives(s.params, "notes"@) == Some(ValueView::Text(Seq::empty())));
    assert(p.gives(s.params, "is_blacklisted"@) == Some(ValueView::Int(1)));
}

/// Where a contact with the address is there already, it is blacklisted, and its name is replaced
/// unless the new one is empty.
pub proof fn law_blacklist_again(name: Seq<char>, email: Seq<char>)
    ensures
        merges(
            blacklisting(name, email),
            "email"@,
            |old_row: Row, new_row: Row| old_row.insert("is_blacklisted"@, ValueView::Int(1))
            .insert("name"@, kept_unless_empty(old_row["name"@], new_row["name"@])),
        ),
{
    let s = blacklisting(name, email);
    reveal_strlit("INSERT INTO contacts (name,email,phone,company,notes,is_blacklisted) VALUES (?1,?2,'','','',1)
         ON CONFLICT(email) DO UPDATE SET is_blacklisted=1,
         name=CASE WHEN excluded.name!='' THEN excluded.name ELSE name END");
    reveal_strlit("\n         ON CONFLICT(");
    reveal_strlit("email");
    reveal_strlit(" ");
    reveal_strlit("is_blacklisted");
    reveal_strlit("1");
    reveal_strlit(",\n         ");
    reveal_strlit("name");
    reveal_strlit("CASE WHEN excluded.name!='' THEN excluded.name ELSE name END");
    reveal_strlit("ON CONFLICT(");
    reveal_strlit(") DO UPDATE SET");
    reveal_strlit("=");
    reveal_strlit("excluded.");
    reveal_strlit("CASE WHEN excluded.");
    reveal_strlit("!='' THEN excluded.");
    reveal_strlit(" ELSE ");
    reveal_strlit(" END");
    lemma_terms(s.params);
    assert("1"@.len() < ("excluded."@ + "is_blacklisted"@).len());
    assert("1"@.drop_last() =~= Seq::<char>::empty());
    reveal_with_fuel(number_in, 2);
    assert(value_of("1"@, Seq::empty()) == ValueView::Int(1));
    assert("CASE WHEN excluded.name!='' THEN excluded.name ELSE name END"@ =~= "CASE WHEN excluded."@ + "name"@ + "!='' THEN excluded."@ + "name"@ + " ELSE "@ + "name"@ + " END"@);
    assert("CASE WHEN excluded.name!='' THEN excluded.name ELSE name END"@[0] != ("excluded."@ + "name"@)[0]);
    let a2 = Sets::Assign { gap: ",\n         "@, column: "name"@, term: "CASE WHEN excluded.name!='' THEN excluded.name ELSE name END"@, rest: Box::new(Sets::End) };
    let a1 = Sets::Assign { gap: " "@, column: "is_blacklisted"@, term: "1"@, rest: Box::new(a2) };
    let p = Conflict { at: 94, start: "\n         ON CONFLICT("@, key: "email"@, sets: a1 };
    reveal_with_fuel(Sets::end_in, 3);
    reveal_with_fuel(Sets::merged, 3);
    assert(p.is_read(s.sql));
}

/// When a sender is blacklisted, the messages whose sender holds the address, whatever the case of
/// letters, go to the spam folder, and no others.
pub proof fn law_blacklisted_to_spam(email: Seq<char>)
    ensures
        changes(
            moving_to_spam(email),
            "emails"@,
            |row: Row|
                row["folder"@] != ValueView::Text("Spam"@)
                    && (row["from_addr"@] matches ValueView::Text(from) && has_word(ascii_lower(from), ascii_lower(email))),
            |row: Row| row.insert("folder"@, ValueView::Text("Spam"@)),
        ),
{
    let s = moving_to_spam(email);
    reveal_strlit("UPDATE emails SET folder='Spam'
         WHERE folder!='Spam' AND INSTR(LOWER(from_addr), LOWER(?1)) > 0");
    reveal_strlit("emails");
    reveal_strlit("");
    reveal_strlit("folder");
    reveal_strlit("'Spam'");
    reveal_strlit("\n         ");
    reveal_strlit("WHERE ");
    reveal_strlit("!=");
    reveal_strlit(" AND ");
    reveal_strlit("from_addr");
    reveal_strlit("?1");
    reveal_strlit("UPDATE ");
    reveal_strlit(" SET ");
    reveal_strlit("=");
    reveal_strlit("Spam");
    reveal_strlit(" = ");
    reveal_strlit(" > ");
    reveal_strlit(" < ");
    reveal_strlit(" IS ");
    reveal_strlit("INSTR(LOWER(");
    reveal_strlit("), LOWER(");
    reveal_strlit(")) > 0");
    lemma_terms(s.params);
    assert("'Spam'"@.subrange(1, 5) =~= "Spam"@);
    let a1 = Sets::Assign { gap: ""@, column: "folder"@, term: "'Spam'"@, rest: Box::new(Sets::End) };
    let t2 = Tests::Within { gap: " AND "@, column: "from_addr"@, term: "?1"@, rest: Box::new(Tests::End) };
    let t1 = Tests::Test { gap: "WHERE "@, column: "folder"@, sign: "!="@, term: "'Spam'"@, rest: Box::new(t2) };
    let p = Update { table: "emails"@, sets: a1, before: "\n         "@, tests: t1 };
    reveal_with_fuel(Sets::end_in, 2);
    reveal_with_fuel(Sets::made, 2);
    reveal_with_fuel(Tests::end_in, 3);
    reveal_with_fuel(Tests::hold, 3);
    reveal_with_fuel(Tests::all_joined, 3);
    assert(stands(s.sql, s.sql.len() as int, Seq::empty()));
    assert(p.is_read(s.sql));
}

/// Whether a contact is blacklisted is read with its address.
pub proof fn law_read_blacklist(id: int)
    ensures
        selects(
            reading_blacklist(id),
            seq!["is_blacklisted"@, "email"@],
            "contacts"@,
            |row: Row| row["id"@] == ValueView::Int(id),
            Seq::empty(),
        ),
{
    let s = reading_blacklist(id);
    reveal_strlit("SELECT is_blacklisted, email FROM contacts WHERE id=?1");
    reveal_strlit(" ");
    reveal_strlit("is_blacklisted");
    reveal_strlit(", ");
    reveal_strlit("email");
    reveal_strlit("contacts");
    reveal_strlit("WHERE ");
    reveal_strlit("id");
    reveal_strlit("=");
    reveal_strlit("?1");
    reveal_strlit("SELECT");
    reveal_strlit("FROM ");
    reveal_strlit(" AND ");
    lemma_terms(s.params);
    let w2 = Words::Then { gap: ", "@, word: "email"@, rest: Box::new(Words::End) };
    let w1 = Words::Then { gap: " "@, word: "is_blacklisted"@, rest: Box::new(w2) };
    let t1 = Tests::Test { gap: "WHERE "@, column: "id"@, sign: "="@, term: "?1"@, rest: Box::new(Tests::End) };
    let p = Select {
        columns: w1,
        before_from: " "@,
        table: "contacts"@,
        before: " "@,
        tests: t1,
        tail: Seq::empty(),
    };
    reveal_with_fuel(Words::end_in, 3);
    reveal_with_fuel(Words::count, 3);
    reveal_with_fuel(Words::at, 3);
    reveal_with_fuel(Tests::end_in, 2);
    reveal_with_fuel(Tests::hold, 2);
    reveal_with_fuel(Tests::all_joined, 2);
    assert(stands(s.sql, s.sql.len() as int, Seq::empty()));
    assert(p.is_read(s.sql));
}

/// Whether a contact is blacklisted changes for this contact only.
pub proof fn law_set_blacklist(id: int, v: int)
    ensures
        changes(
            setting_blacklist(id, v),
            "contacts"@,
            |row: Row| row["id"@] == ValueView::Int(id),
            |row: Row| row.insert("is_blacklisted"@, ValueView::Int(v)),
        ),
{
    let s = setting_blacklist(id, v);
    reveal_strlit("UPDATE contacts SET is_blacklisted=?1 WHERE id=?2");
    reveal_strlit("contacts");
    reveal_strlit("");
    reveal_strlit("is_blacklisted");
    reveal_strlit("?1");
    reveal_strlit(" ");
    reveal_strlit("WHERE ");
    reveal_strlit("id");
    reveal_strlit("=");
    reveal_strlit("?2");
    reveal_strlit("UPDATE ");
    reveal_strlit(" SET ");
    reveal_strlit(" AND ");
    lemma_terms(s.params);
    let a1 = Sets::Assign { gap: ""@, column: "is_blacklisted"@, term: "?1"@, rest: Box::new(Sets::End) };
    let t1 = Tests::Test { gap: "WHERE "@, column: "id"@, sign: "="@, term: "?2"@, rest: Box::new(Tests::End) };
    let p = Update { table: "contacts"@, sets: a1, before: " "@, tests: t1 };
    reveal_with_fuel(Sets::end_in, 2);
    reveal_with_fuel(Sets::made, 2);
    reveal_with_fuel(Tests::end_in, 2);
    reveal_with_fuel(Tests::hold, 2);
    reveal_with_fuel(Tests::all_joined, 2);
    assert(stands(s.sql, s.sql.len() as int, Seq::empty()));
    assert(p.is_read(s.sql));
}

/// All groups are read in the order of their names.
pub proof fn law_read_groups()
    ensures
        selects_all(reading_groups(), seq!["id"@, "name"@], "contact_groups"@, " ORDER BY name"@),
{
    let s = reading_groups();
    reveal_strlit("SELECT id, name FROM contact_groups ORDER BY name");
    reveal_strlit(" ");
    reveal_strlit("id");
    reveal_strlit(", ");
    reveal_strlit("name");
    reveal_strlit("contact_groups");
    reveal_strlit(" ORDER BY name");
    reveal_strlit("SELECT");
    reveal_strlit(" FROM ");
    lemma_terms(s.params);
    let w2 = Words::Then { gap: ", "@, word: "name"@, rest: Box::new(Words::End) };
    let w1 = Words::Then { gap: " "@, word: "id"@, rest: Box::new(w2) };
    let p = SelectAll { columns: w1, table: "contact_groups"@, tail: " ORDER BY name"@ };
    reveal_with_fuel(Words::end_in, 3);
    reveal_with_fuel(Words::count, 3);
    reveal_with_fuel(Words::at, 3);
    assert(p.is_read(s.sql));
}

/// A group is kept with its name.
pub proof fn law_keep_group(name: Seq<char>)
    ensures
        inserts(
            keeping_group(name).0,
            "contact_groups"@,
            Map::empty()
            .insert("name"@, ValueView::Text(name)),
        ),
{
    let s = keeping_group(name).0;
    reveal_strlit("INSERT INTO contact_groups (name) VALUES (?1) ON CONFLICT(name) DO NOTHING");
    reveal_strlit("INSERT INTO ");
    reveal_strlit("contact_groups");
    reveal_strlit(" (");
    reveal_strlit("name");
    reveal_strlit(") VALUES ");
    reveal_strlit("(");
    reveal_strlit("?1");
    lemma_terms(s.params);
    let w1 = Words::Then { gap: " ("@, word: "name"@, rest: Box::new(Words::End) };
    let w2 = Words::Then { gap: "("@, word: "?1"@, rest: Box::new(Words::End) };
    let p = Insert {
        verb: "INSERT INTO "@,
        table: "contact_groups"@,
        columns: w1,
        middle: ") VALUES "@,
        terms: w2,
    };
    reveal_with_fuel(Words::end_in, 2);
    reveal_with_fuel(Words::count, 2);
    reveal_with_fuel(given, 2);
    assert(p.is_read(s.sql));
    assert(p.gives(s.params, "name"@) == Some(ValueView::Text(name)));
}

/// A group is found by its name.
pub proof fn law_find_group(name: Seq<char>)
    ensures
        selects(
            keeping_group(name).1,
            seq!["id"@],
            "contact_groups"@,
            |row: Row| row["name"@] == ValueView::Text(name),
            Seq::empty(),
        ),
{
    let s = keeping_group(name).1;
    reveal_strlit("SELECT id FROM contact_groups WHERE name=?1");
    reveal_strlit(" ");
    reveal_strlit("id");
    reveal_strlit("contact_groups");
    reveal_strlit("WHERE ");
    reveal_strlit("name");
    reveal_strlit("=");
    reveal_strlit("?1");
    reveal_strlit("SELECT");
    reveal_strlit("FROM ");
    reveal_strlit(" AND ");
    lemma_terms(s.params);
    let w1 = Words::Then { gap: " "@, word: "id"@, rest: Box::new(Words::End) };
    let t1 = Tests::Test { gap: "WHERE "@, column: "name"@, sign: "="@, term: "?1"@, rest: Box::new(Tests::End) };
    let p = Select {
        columns: w1,
        before_from: " "@,
        table: "contact_groups"@,
        before: " "@,
        tests: t1,
        tail: Seq::empty(),
    };
    reveal_with_fuel(Words::end_in, 2);
    reveal_with_fuel(Words::count, 2);
    reveal_with_fuel(Words::at, 2);
    reveal_with_fuel(Tests::end_in, 2);
    reveal_with_fuel(Tests::hold, 2);
    reveal_with_fuel(Tests::all_joined, 2);
    assert(stands(s.sql, s.sql.len() as int, Seq::empty()));
    assert(p.is_read(s.sql));
}

/// Giving a group another name changes the name of this group only.
pub proof fn law_name_group(group_id: int, name: Seq<char>)
    ensures
        changes(
            naming_group(group_id, name),
            "contact_groups"@,
            |row: Row| row["id"@] == ValueView::Int(group_id),
            |row: Row| row.insert("name"@, ValueView::Text(name)),
        ),
{
    let s = naming_group(group_id, name);
    reveal_strlit("UPDATE contact_groups SET name=?1 WHERE id=?2");
    reveal_strlit("contact_groups");
    reveal_strlit("");
    reveal_strlit("name");
    reveal_strlit("?1");
    reveal_strlit(" ");
    reveal_strlit("WHERE ");
    reveal_strlit("id");
    reveal_strlit("=");
    reveal_strlit("?2");
    reveal_strlit("UPDATE ");
    reveal_strlit(" SET ");
    reveal_strlit(" AND ");
    lemma_terms(s.params);
    let a1 = Sets::Assign { gap: ""@, column: "name"@, term: "?1"@, rest: Box::new(Sets::End) };
    let t1 = Tests::Test { gap: "WHERE "@, column: "id"@, sign: "="@, term: "?2"@, rest: Box::new(Tests::End) };
    let p = Update { table: "contact_groups"@, sets: a1, before: " "@, tests: t1 };
    reveal_with_fuel(Sets::end_in, 2);
    reveal_with_fuel(Sets::made, 2);
    reveal_with_fuel(Tests::end_in, 2);
    reveal_with_fuel(Tests::hold, 2);
    reveal_with_fuel(Tests::all_joined, 2);
    assert(stands(s.sql, s.sql.len() as int, Seq::empty()));
    assert(p.is_read(s.sql));
}

/// Deleting a group first forgets who belongs to it.
pub proof fn law_forget_members(group_id: int)
    ensures
        deletes(
            forgetting_group(group_id)[0],
            "contact_group_members"@,
            |row: Row| row["group_id"@] == ValueView::Int(group_id),
        ),
{
    let s = forgetting_group(group_id)[0];
    reveal_strlit("DELETE FROM contact_group_members WHERE group_id=?1");
    reveal_strlit("contact_group_members");
    reveal_strlit("WHERE ");
    reveal_strlit("group_id");
    reveal_strlit("=");
    reveal_strlit("?1");
    reveal_strlit("DELETE FROM ");
    reveal_strlit(" ");
    reveal_strlit(" AND ");
    lemma_terms(s.params);
    let t1 = Tests::Test { gap: "WHERE "@, column: "group_id"@, sign: "="@, term: "?1"@, rest: Box::new(Tests::End) };
    let p = Delete { table: "contact_group_members"@, tests: t1 };
    reveal_with_fuel(Tests::end_in, 2);
    reveal_with_fuel(Tests::hold, 2);
    reveal_with_fuel(Tests::all_joined, 2);
    assert(stands(s.sql, s.sql.len() as int, Seq::empty()));
    assert(p.is_read(s.sql));
}

/// Deleting a group deletes this group and no other.
pub proof fn law_forget_group(group_id: int)
    ensures
        deletes(
            forgetting_group(group_id)[1],
            "contact_groups"@,
            |row: Row| row["id"@] == ValueView::Int(group_id),
        ),
{
    let s = forgetting_group(group_id)[1];
    reveal_strlit("DELETE FROM contact_groups WHERE id=?1");
    reveal_strlit("contact_groups");
    reveal_strlit("WHERE ");
    reveal_strlit("id");
    reveal_strlit("=");
    reveal_strlit("?1");
    reveal_strlit("DELETE FROM ");
    reveal_strlit(" ");
    reveal_strlit(" AND ");
    lemma_terms(s.params);
    let t1 = Tests::Test { gap: "WHERE "@, column: "id"@, sign: "="@, term: "?1"@, rest: Box::new(Tests::End) };
    let p = Delete { table: "contact_groups"@, tests: t1 };
    reveal_with_fuel(Tests::end_in, 2);
    reveal_with_fuel(Tests::hold, 2);
    reveal_with_fuel(Tests::all_joined, 2);
    assert(stands(s.sql, s.sql.len() as int, Seq::empty()));
    assert(p.is_read(s.sql));
}

/// The groups of a contact are read by its id.
pub proof fn law_read_memberships(contact_id: int)
    ensures
        selects(
            reading_memberships(contact_id),
            seq!["group_id"@],
            "contact_group_members"@,
            |row: Row| row["contact_id"@] == ValueView::Int(contact_id),
            Seq::empty(),
        ),
{
    let s = reading_memberships(contact_id);
    reveal_strlit("SELECT group_id FROM contact_group_members WHERE contact_id=?1");
    reveal_strlit(" ");
    reveal_strlit("group_id");
    reveal_strlit("contact_group_members");
    reveal_strlit("WHERE ");
    reveal_strlit("contact_id");
    reveal_strlit("=");
    reveal_strlit("?1");
    reveal_strlit("SELECT");
    reveal_strlit("FROM ");
    reveal_strlit(" AND ");
    lemma_terms(s.params);
    let w1 = Words::Then { gap: " "@, word: "group_id"@, rest: Box::new(Words::End) };
    let t1 = Tests::Test { gap: "WHERE "@, column: "contact_id"@, sign: "="@, term: "?1"@, rest: Box::new(Tests::End) };
    let p = Select {
        columns: w1,
        before_from: " "@,
        table: "contact_group_members"@,
        before: " "@,
        tests: t1,
        tail: Seq::empty(),
    };
    reveal_with_fuel(Words::end_in, 2);
    reveal_with_fuel(Words::count, 2);
    reveal_with_fuel(Words::at, 2);
    reveal_with_fuel(Tests::end_in, 2);
    reveal_with_fuel(Tests::hold, 2);
    reveal_with_fuel(Tests::all_joined, 2);
    assert(stands(s.sql, s.sql.len() as int, Seq::empty()));
    assert(p.is_read(s.sql));
}

/// Setting the groups of a contact first forgets those that it belonged to.
pub proof fn law_leave_groups(contact_id: int, groups: Seq<i64>)
    ensures
        deletes(
            setting_groups(contact_id, groups)[0],
            "contact_group_members"@,
            |row: Row| row["contact_id"@] == ValueView::Int(contact_id),
        ),
{
    let s = setting_groups(contact_id, groups)[0];
    reveal_strlit("DELETE FROM contact_group_members WHERE contact_id=?1");
    reveal_strlit("contact_group_members");
    reveal_strlit("WHERE ");
    reveal_strlit("contact_id");
    reveal_strlit("=");
    reveal_strlit("?1");
    reveal_strlit("DELETE FROM ");
    reveal_strlit(" ");
    reveal_strlit(" AND ");
    lemma_terms(s.params);
    let t1 = Tests::Test { gap: "WHERE "@, column: "contact_id"@, sign: "="@, term: "?1"@, rest: Box::new(Tests::End) };
    let p = Delete { table: "contact_group_members"@, tests: t1 };
    reveal_with_fuel(Tests::end_in, 2);
    reveal_with_fuel(Tests::hold, 2);
    reveal_with_fuel(Tests::all_joined, 2);
    assert(stands(s.sql, s.sql.len() as int, Seq::empty()));
    assert(p.is_read(s.sql));
}

/// Setting the groups of a contact lets it join each of them.
pub proof fn law_join_groups(contact_id: int, groups: Seq<i64>, i: int)
    requires
        0 <= i < groups.len(),
    ensures
        inserts(
            setting_groups(contact_id, groups)[i + 1],
            "contact_group_members"@,
            Map::empty()
            .insert("contact_id"@, ValueView::Int(contact_id))
            .insert("group_id"@, ValueView::Int(groups[i] as int)),
        ),
{
    let s = setting_groups(contact_id, groups)[i + 1];
    reveal_strlit("INSERT OR IGNORE INTO contact_group_members (contact_id, group_id) VALUES (?1, ?2)");
    reveal_strlit("INSERT OR IGNORE INTO ");
    reveal_strlit("contact_group_members");
    reveal_strlit(" (");
    reveal_strlit("contact_id");
    reveal_strlit(", ");
    reveal_strlit("group_id");
    reveal_strlit(") VALUES ");
    reveal_strlit("(");
    reveal_strlit("?1");
    reveal_strlit("?2");
    lemma_terms(s.params);
    let w2 = Words::Then { gap: ", "@, word: "group_id"@, rest: Box::new(Words::End) };
    let w1 = Words::Then { gap: " ("@, word: "contact_id"@, rest: Box::new(w2) };
    let w4 = Words::Then { gap: ", "@, word: "?2"@, rest: Box::new(Words::End) };
    let w3 = Words::Then { gap: "("@, word: "?1"@, rest: Box::new(w4) };
    let p = Insert {
        verb: "INSERT OR IGNORE INTO "@,
        table: "contact_group_members"@,
        columns: w1,
        middle: ") VALUES "@,
        terms: w3,
    };
    reveal_with_fuel(Words::end_in, 3);
    reveal_with_fuel(Words::count, 3);
    reveal_with_fuel(given, 3);
    assert(p.is_read(s.sql));
    assert(p.gives(s.params, "contact_id"@) == Some(ValueView::Int(contact_id)));
    assert(p.gives(s.params, "group_id"@) == Some(ValueView::Int(groups[i] as int)));
}

/// A sender is blocked by the address.
pub proof fn law_block(address: Seq<char>)
    ensures
        inserts(
            blocking(address),
            "blocked_senders"@,
            Map::empty()
            .insert("email"@, ValueView::Text(address)),
        ),
{
    let s = blocking(address);
    reveal_strlit("INSERT OR IGNORE INTO blocked_senders (email) VALUES (?1)");
    reveal_strlit("INSERT OR IGNORE INTO ");
    reveal_strlit("blocked_senders");
    reveal_strlit(" (");
    reveal_strlit("email");
    reveal_strlit(") VALUES ");
    reveal_strlit("(");
    reveal_strlit("?1");
    lemma_terms(s.params);
    let w1 = Words::Then { gap: " ("@, word: "email"@, rest: Box::new(Words::End) };
    let w2 = Words::Then { gap: "("@, word: "?1"@, rest: Box::new(Words::End) };
    let p = Insert {
        verb: "INSERT OR IGNORE INTO "@,
        table: "blocked_senders"@,
        columns: w1,
        middle: ") VALUES "@,
        terms: w2,
    };
    reveal_with_fuel(Words::end_in, 2);
    reveal_with_fuel(Words::count, 2);
    reveal_with_fuel(given, 2);
    assert(p.is_read(s.sql));
    assert(p.gives(s.params, "email"@) == Some(ValueView::Text(address)));
}

/// A sender is unblocked by the address, whatever the case of letters.
pub proof fn law_unblock(address: Seq<char>)
    ensures
        deletes(
            unblocking(address),
            "blocked_senders"@,
            |row: Row|
                (row["email"@] matches ValueView::Text(e) && ascii_lower(e) == ascii_lower(address)),
        ),
{
    let s = unblocking(address);
    reveal_strlit("DELETE FROM blocked_senders WHERE email = ?1 COLLATE NOCASE");
    reveal_strlit("blocked_senders");
    reveal_strlit("WHERE ");
    reveal_strlit("email");
    reveal_strlit("?1");
    reveal_strlit("DELETE FROM ");
    reveal_strlit(" ");
    reveal_strlit(" AND ");
    reveal_strlit(" = ");
    reveal_strlit(" COLLATE NOCASE");
    lemma_terms(s.params);
    let t1 = Tests::NoCase { gap: "WHERE "@, column: "email"@, term: "?1"@, rest: Box::new(Tests::End) };
    let p = Delete { table: "blocked_senders"@, tests: t1 };
    reveal_with_fuel(Tests::end_in, 2);
    reveal_with_fuel(Tests::hold, 2);
    reveal_with_fuel(Tests::all_joined, 2);
    assert(stands(s.sql, s.sql.len() as int, Seq::empty()));
    assert(p.is_read(s.sql));
}

/// A sender is found blocked by the address, whatever the case of letters.
pub proof fn law_find_blocked(address: Seq<char>)
    ensures
        selects(
            finding_blocked(address),
            seq!["1"@],
            "blocked_senders"@,
            |row: Row|
                (row["email"@] matches ValueView::Text(e) && ascii_lower(e) == ascii_lower(address)),
            Seq::empty(),
        ),
{
    let s = finding_blocked(address);
    reveal_strlit("SELECT 1 FROM blocked_senders WHERE email = ?1 COLLATE NOCASE");
    reveal_strlit(" ");
    reveal_strlit("1");
    reveal_strlit("blocked_senders");
    reveal_strlit("WHERE ");
    reveal_strlit("email");
    reveal_strlit("?1");
    reveal_strlit("SELECT");
    reveal_strlit("FROM ");
    reveal_strlit(" AND ");
    reveal_strlit(" = ");
    reveal_strlit(" COLLATE NOCASE");
    lemma_terms(s.params);
    let w1 = Words::Then { gap: " "@, word: "1"@, rest: Box::new(Words::End) };
    let t1 = Tests::NoCase { gap: "WHERE "@, column: "email"@, term: "?1"@, rest: Box::new(Tests::End) };
    let p = Select {
        columns: w1,
        before_from: " "@,
        table: "blocked_senders"@,
        before: " "@,
        tests: t1,
        tail: Seq::empty(),
    };
    reveal_with_fuel(Words::end_in, 2);
    reveal_with_fuel(Words::count, 2);
    reveal_with_fuel(Words::at, 2);
    reveal_with_fuel(Tests::end_in, 2);
    reveal_with_fuel(Tests::hold, 2);
    reveal_with_fuel(Tests::all_joined, 2);
    assert(stands(s.sql, s.sql.len() as int, Seq::empty()));
    assert(p.is_read(s.sql));
}

} // verus!
