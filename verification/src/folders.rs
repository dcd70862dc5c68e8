//! The folders of a mailbox.
use vstd::prelude::*;

use crate::order::{alphabetical, sort_names};
use crate::statements::{sql, statement_views, Statement, StatementView};
use crate::text::{
    ascii_lower, first_index, find_char, same_ignoring_case, to_chars, trim, trimmed, views,
};
use crate::utf7::{decode, decode_imap_utf7};

verus! {

// ---------------------------------------------------------------------------------------------
// The folders that every mailbox has
// ---------------------------------------------------------------------------------------------

/// The names of the folders that every mailbox has, in English.
pub open spec fn english_system_folder(name: Seq<char>) -> bool {
    ||| ascii_lower(name) == ascii_lower("INBOX"@)
    ||| ascii_lower(name) == ascii_lower("Sent"@)
    ||| ascii_lower(name) == ascii_lower("Drafts"@)
    ||| ascii_lower(name) == ascii_lower("Spam"@)
    ||| ascii_lower(name) == ascii_lower("Trash"@)
    ||| ascii_lower(name) == ascii_lower("Draft"@)
    ||| ascii_lower(name) == ascii_lower("Junk"@)
    ||| ascii_lower(name) == ascii_lower("Deleted"@)
}

/// The names of the folders that every mailbox has, in Russian.
pub open spec fn russian_system_folder(name: Seq<char>) -> bool {
    ||| ascii_lower(name) == ascii_lower("Отправленные"@)
    ||| ascii_lower(name) == ascii_lower("Черновики"@)
    ||| ascii_lower(name) == ascii_lower("Удалённые"@)
    ||| ascii_lower(name) == ascii_lower("Удаленные"@)
    ||| ascii_lower(name) == ascii_lower("Спам"@)
    ||| ascii_lower(name) == ascii_lower("Корзина"@)
    ||| ascii_lower(name) == ascii_lower("Входящие"@)
    ||| ascii_lower(name) == ascii_lower("Исходящие"@)
}

/// A folder that every mailbox has, whatever the case of its ASCII letters.
pub open spec fn system_folder(name: Seq<char>) -> bool {
    english_system_folder(name) || russian_system_folder(name)
}

fn is_named(name: &[char], w: &str) -> (r: bool)
    ensures
        r == (ascii_lower(name@) == ascii_lower(w@)),
{
    let w = to_chars(w);
    same_ignoring_case(name, &w)
}

/// Whether a folder is one that every mailbox has.
pub fn is_system_folder(name: &str) -> (r: bool)
    ensures
        r == system_folder(name@),
{
    let n = to_chars(name);
    is_named(&n, "INBOX") || is_named(&n, "Sent") || is_named(&n, "Drafts") || is_named(&n, "Spam")
        || is_named(&n, "Trash") || is_named(&n, "Draft") || is_named(&n, "Junk") || is_named(
        &n,
        "Deleted",
    ) || is_named(&n, "Отправленные") || is_named(&n, "Черновики") || is_named(&n, "Удалённые")
        || is_named(&n, "Удаленные") || is_named(&n, "Спам") || is_named(&n, "Корзина") || is_named(
        &n,
        "Входящие",
    ) || is_named(&n, "Исходящие")
}

/// The case of ASCII letters makes no difference.
pub proof fn law_system_folder_ignores_case(a: Seq<char>, b: Seq<char>)
    requires
        ascii_lower(a) == ascii_lower(b),
    ensures
        system_folder(a) == system_folder(b),
{
}

// ---------------------------------------------------------------------------------------------
// The folders of the user
// ---------------------------------------------------------------------------------------------

/// A folder as the server lists it.
pub struct Listed {
    /// The name, as it stands on the wire.
    pub name: String,
    /// The folder only contains others and cannot be selected.
    pub no_select: bool,
}

/// What the server says of a folder.
#[verifier::ext_equal]
pub struct ListedView {
    pub name: Seq<char>,
    pub no_select: bool,
}

impl View for Listed {
    type V = ListedView;

    open spec fn view(&self) -> ListedView {
        ListedView { name: self.name@, no_select: self.no_select }
    }
}

/// What the server says of folders.
pub open spec fn listed_views(v: Seq<Listed>) -> Seq<ListedView> {
    Seq::new(v.len(), |i: int| v[i]@)
}

/// A folder of the user: it can be selected, not every mailbox has it, and it is not in the mailbox
/// of somebody else, whose name has an `@`.
pub open spec fn is_users(f: ListedView) -> bool {
    !f.no_select && !system_folder(decode(f.name)) && first_index(decode(f.name), '@') is None
}

/// The names of the user's folders, in the order of the list.
pub open spec fn users_names(l: Seq<ListedView>) -> Seq<Seq<char>>
    decreases l.len(),
{
    if l.len() == 0 {
        Seq::empty()
    } else if is_users(l.last()) {
        users_names(l.drop_last()).push(decode(l.last().name))
    } else {
        users_names(l.drop_last())
    }
}

/// The names of the user's folders, in alphabetical order.
pub fn list_imap_folders(listed: &Vec<Listed>) -> (r: Vec<String>)
    ensures
        alphabetical(views(r@)),
        views(r@).to_multiset() == users_names(listed_views(listed@)).to_multiset(),
{
    let ghost all = listed_views(listed@);
    let mut folders: Vec<String> = Vec::new();
    let mut i: usize = 0;
    assert(views(folders@) =~= Seq::<Seq<char>>::empty());
    while i < listed.len()
        invariant
            i <= listed@.len(),
            all == listed_views(listed@),
            views(folders@) == users_names(all.take(i as int)),
        decreases listed@.len() - i,
    {
        let one = &listed[i];
        assert(all.take(i + 1).drop_last() =~= all.take(i as int));
        assert(all.take(i + 1).last() == one@);
        if !one.no_select {
            let name = decode_imap_utf7(one.name.as_str());
            let chars = to_chars(name.as_str());
            if !is_system_folder(name.as_str()) && find_char(&chars, '@').is_none() {
                let ghost before = folders@;
                folders.push(name);
                assert(views(folders@) =~= views(before).push(name@));
            }
        }
        i += 1;
    }
    assert(all.take(i as int) =~= all);
    sort_names(&mut folders);
    folders
}

/// A name is listed exactly if it is that of a folder of the user.
pub proof fn law_only_users_folders(l: Seq<ListedView>, r: Seq<Seq<char>>, name: Seq<char>)
    requires
        r.to_multiset() == users_names(l).to_multiset(),
    ensures
        r.contains(name) <==> exists|i: int|
            0 <= i < l.len() && is_users(#[trigger] l[i]) && decode(l[i].name) == name,
        r.contains(name) ==> !system_folder(name) && first_index(name, '@') is None,
{
    broadcast use vstd::seq_lib::group_to_multiset_ensures;

    let u = users_names(l);
    assert(r.contains(name) <==> r.to_multiset().count(name) > 0);
    assert(u.contains(name) <==> u.to_multiset().count(name) > 0);
    lemma_users_names(l, name);
}

proof fn lemma_users_names(l: Seq<ListedView>, name: Seq<char>)
    ensures
        users_names(l).contains(name) <==> exists|i: int|
            0 <= i < l.len() && is_users(#[trigger] l[i]) && decode(l[i].name) == name,
    decreases l.len(),
{
    if l.len() > 0 {
        let t = l.drop_last();
        lemma_users_names(t, name);
        let u0 = users_names(t);
        let u1 = users_names(l);
        if u1.contains(name) {
            let k = choose|k: int| 0 <= k < u1.len() && u1[k] == name;
            if k < u0.len() {
                assert(u0[k] == name);
                assert(u0.contains(name));
                let i = choose|i: int|
                    0 <= i < t.len() && is_users(#[trigger] t[i]) && decode(t[i].name) == name;
                assert(l[i] == t[i]);
            } else {
                assert(is_users(l[l.len() - 1]));
            }
        }
        if exists|i: int|
            0 <= i < l.len() && is_users(#[trigger] l[i]) && decode(l[i].name) == name {
            let i = choose|i: int|
                0 <= i < l.len() && is_users(#[trigger] l[i]) && decode(l[i].name) == name;
            if i < t.len() {
                assert(t[i] == l[i]);
                assert(u0.contains(name));
                let k = choose|k: int| 0 <= k < u0.len() && u0[k] == name;
                assert(u1[k] == name);
            } else {
                assert(u1[u1.len() - 1] == name);
            }
        }
    }
}

// ---------------------------------------------------------------------------------------------
// What the database keeps of them
// ---------------------------------------------------------------------------------------------

/// The statement that reads the names that are kept.
pub open spec fn reading_names(account_id: int) -> StatementView {
    sql("SELECT name FROM user_folders WHERE account_id=?1 ORDER BY name"@).number(account_id)
}

/// Reads the names that are kept.
pub fn get_cached_folders(account_id: i64) -> (r: Statement)
    ensures
        r@ == reading_names(account_id as int),
{
    Statement::new("SELECT name FROM user_folders WHERE account_id=?1 ORDER BY name").number(
        account_id,
    )
}

/// The statement that keeps a name.
pub open spec fn keeping_name(account_id: int, name: Seq<char>) -> StatementView {
    sql("INSERT OR IGNORE INTO user_folders (account_id, name) VALUES (?1,?2)"@).number(
        account_id,
    ).text(name)
}

/// Keeps a name.
pub fn keep_name(account_id: i64, name: &str) -> (r: Statement)
    ensures
        r@ == keeping_name(account_id as int, name@),
{
    Statement::new("INSERT OR IGNORE INTO user_folders (account_id, name) VALUES (?1,?2)").number(
        account_id,
    ).text(name)
}

/// The statements that keep these names and no others.
pub open spec fn replacing_names(account_id: int, names: Seq<Seq<char>>) -> Seq<StatementView> {
    seq![sql("DELETE FROM user_folders WHERE account_id=?1"@).number(account_id)] + Seq::new(
        names.len(),
        |i: int| keeping_name(account_id, names[i]),
    )
}

/// Keeps these names and no others.
pub fn replace_names(account_id: i64, names: &Vec<String>) -> (r: Vec<Statement>)
    ensures
        statement_views(r@) == replacing_names(account_id as int, views(names@)),
{
    let ghost want = replacing_names(account_id as int, views(names@));
    let mut r: Vec<Statement> = Vec::new();
    r.push(Statement::new("DELETE FROM user_folders WHERE account_id=?1").number(account_id));
    let mut i: usize = 0;
    while i < names.len()
        invariant
            i <= names@.len(),
            want == replacing_names(account_id as int, views(names@)),
            r@.len() == i + 1,
            forall|j: int| 0 <= j <= i ==> (#[trigger] r@[j])@ == want[j],
        decreases names@.len() - i,
    {
        assert(views(names@)[i as int] == names@[i as int]@);
        r.push(keep_name(account_id, names[i].as_str()));
        i += 1;
    }
    assert(statement_views(r@) =~= want);
    r
}

// ---------------------------------------------------------------------------------------------
// Changing them
// ---------------------------------------------------------------------------------------------

/// Nothing but white space.
pub open spec fn blank(s: Seq<char>) -> bool {
    trim(s).len() == 0
}

fn is_blank(s: &str) -> (r: bool)
    ensures
        r == blank(s@),
{
    let v = to_chars(s);
    trimmed(&v).len() == 0
}

/// Why a folder cannot be created.
pub open spec fn creation_refused(name: Seq<char>) -> Option<Seq<char>> {
    if blank(name) {
        Some("Имя папки не может быть пустым"@)
    } else if system_folder(name) {
        Some("Нельзя создать папку с зарезервированным именем"@)
    } else {
        None
    }
}

/// The statement that keeps the name of a folder that the server has created, unless a folder with
/// this name may not be created.
pub fn create_imap_folder(account_id: i64, folder_name: &str) -> (r: Result<Statement, String>)
    ensures
        match creation_refused(folder_name@) {
            None => r matches Ok(s) && s@ == keeping_name(account_id as int, folder_name@),
            Some(m) => r matches Err(e) && e@ == m,
        },
{
    if is_blank(folder_name) {
        return Err("Имя папки не может быть пустым".to_owned());
    }
    if is_system_folder(folder_name) {
        return Err("Нельзя создать папку с зарезервированным именем".to_owned());
    }
    Ok(keep_name(account_id, folder_name))
}

/// The statements that forget a folder and its messages.
pub open spec fn forgetting(account_id: int, name: Seq<char>) -> Seq<StatementView> {
    seq![
        sql("DELETE FROM user_folders WHERE account_id=?1 AND name=?2"@).number(account_id).text(
            name,
        ),
        sql("DELETE FROM emails WHERE account_id=?1 AND folder=?2"@).number(account_id).text(name),
    ]
}

/// The statements that forget a folder that the server has deleted, unless every mailbox has it.
pub fn delete_imap_folder(account_id: i64, folder_name: &str) -> (r: Result<Vec<Statement>, String>)
    ensures
        if system_folder(folder_name@) {
            r matches Err(e) && e@ == "Системные папки нельзя удалять"@
        } else {
            r matches Ok(s) && statement_views(s@) == forgetting(account_id as int, folder_name@)
        },
{
    if is_system_folder(folder_name) {
        return Err("Системные папки нельзя удалять".to_owned());
    }
    let mut r: Vec<Statement> = Vec::new();
    r.push(
        Statement::new("DELETE FROM user_folders WHERE account_id=?1 AND name=?2").number(
            account_id,
        ).text(folder_name),
    );
    r.push(
        Statement::new("DELETE FROM emails WHERE account_id=?1 AND folder=?2").number(
            account_id,
        ).text(folder_name),
    );
    assert(statement_views(r@) =~= forgetting(account_id as int, folder_name@));
    Ok(r)
}

/// The statements that give a folder and its messages another name.
pub open spec fn renaming(account_id: int, old_name: Seq<char>, new_name: Seq<char>) -> Seq<
    StatementView,
> {
    seq![
        sql("UPDATE user_folders SET name=?1 WHERE account_id=?2 AND name=?3"@).text(
            new_name,
        ).number(account_id).text(old_name),
        sql("UPDATE emails SET folder=?1 WHERE account_id=?2 AND folder=?3"@).text(new_name).number(
            account_id,
        ).text(old_name),
    ]
}

/// Why a folder cannot get another name.
pub open spec fn renaming_refused(old_name: Seq<char>, new_name: Seq<char>) -> Option<Seq<char>> {
    if system_folder(old_name) {
        Some("Системные папки нельзя переименовывать"@)
    } else if blank(new_name) {
        Some("Имя папки не может быть пустым"@)
    } else {
        None
    }
}

/// The statements that note the new name of a folder that the server has renamed, unless it may not
/// be renamed so.
pub fn rename_imap_folder(account_id: i64, old_name: &str, new_name: &str) -> (r: Result<
    Vec<Statement>,
    String,
>)
    ensures
        match renaming_refused(old_name@, new_name@) {
            None => r matches Ok(s) && statement_views(s@) == renaming(
                account_id as int,
                old_name@,
                new_name@,
            ),
            Some(m) => r matches Err(e) && e@ == m,
        },
{
    if is_system_folder(old_name) {
        return Err("Системные папки нельзя переименовывать".to_owned());
    }
    if is_blank(new_name) {
        return Err("Имя папки не может быть пустым".to_owned());
    }
    let mut r: Vec<Statement> = Vec::new();
    r.push(
        Statement::new("UPDATE user_folders SET name=?1 WHERE account_id=?2 AND name=?3").text(
            new_name,
        ).number(account_id).text(old_name),
    );
    r.push(
        Statement::new("UPDATE emails SET folder=?1 WHERE account_id=?2 AND folder=?3").text(
            new_name,
        ).number(account_id).text(old_name),
    );
    assert(statement_views(r@) =~= renaming(account_id as int, old_name@, new_name@));
    Ok(r)
}

} // verus!
