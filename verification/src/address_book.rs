//! What the database keeps of contacts and their groups.
use vstd::prelude::*;

use crate::addresses::{contact_email, contact_name, name_and_email};
use crate::contacts::{card, worth_keeping, CardView, ContactRow};
use crate::statements::{sql, statement_views, Statement, StatementView};
use crate::text::{to_chars, trim, trim_str};

verus! {

/// A contact.
pub struct Contact {
    pub id: i64,
    pub name: String,
    pub email: String,
    pub phone: String,
    pub company: String,
    pub notes: String,
    pub is_blacklisted: bool,
}

/// What is known of a contact.
#[verifier::ext_equal]
pub struct ContactView {
    pub id: int,
    pub card: CardView,
    pub is_blacklisted: bool,
}

impl View for Contact {
    type V = ContactView;

    open spec fn view(&self) -> ContactView {
        ContactView {
            id: self.id as int,
            card: CardView {
                name: self.name@,
                email: self.email@,
                phone: self.phone@,
                company: self.company@,
                notes: self.notes@,
            },
            is_blacklisted: self.is_blacklisted,
        }
    }
}

/// A group of contacts.
pub struct ContactGroup {
    pub id: i64,
    pub name: String,
}

// ---------------------------------------------------------------------------------------------
// Groups that contacts are in
// ---------------------------------------------------------------------------------------------

/// The statement that finds the group that every contact is in.
pub open spec fn finding_default_group() -> StatementView {
    sql("SELECT id FROM contact_groups WHERE name='Мои контакты'"@)
}

/// Finds the group that every contact is in.
pub fn default_group_id() -> (r: Statement)
    ensures
        r@ == finding_default_group(),
{
    Statement::new("SELECT id FROM contact_groups WHERE name='Мои контакты'")
}

/// The statement that puts a contact into a group.
pub open spec fn joining(contact_id: int, group_id: int) -> StatementView {
    sql("INSERT OR IGNORE INTO contact_group_members (contact_id, group_id) VALUES (?1, ?2)"@).number(
        contact_id,
    ).number(group_id)
}

/// Puts a contact into a group.
pub fn join_group(contact_id: i64, group_id: i64) -> (r: Statement)
    ensures
        r@ == joining(contact_id as int, group_id as int),
{
    Statement::new(
        "INSERT OR IGNORE INTO contact_group_members (contact_id, group_id) VALUES (?1, ?2)",
    ).number(contact_id).number(group_id)
}

/// The statements that put a contact into the group that every contact is in, if there is one, and
/// into one more, if one is given.
pub open spec fn joining_groups(contact_id: int, default_group: Option<i64>, group: Option<i64>) -> Seq<
    StatementView,
> {
    (match default_group {
        Some(g) => seq![joining(contact_id, g as int)],
        None => Seq::empty(),
    }) + (match group {
        Some(g) => seq![joining(contact_id, g as int)],
        None => Seq::empty(),
    })
}

/// Puts a contact into the group that every contact is in, if there is one, and into one more, if one
/// is given.
pub fn add_to_default_group(contact_id: i64, default_group: Option<i64>, group: Option<i64>) -> (r:
    Vec<Statement>)
    ensures
        statement_views(r@) == joining_groups(contact_id as int, default_group, group),
{
    let mut r: Vec<Statement> = Vec::new();
    if let Some(g) = default_group {
        r.push(join_group(contact_id, g));
    }
    if let Some(g) = group {
        r.push(join_group(contact_id, g));
    }
    assert(statement_views(r@) =~= joining_groups(contact_id as int, default_group, group));
    r
}

// ---------------------------------------------------------------------------------------------
// Contacts from files
// ---------------------------------------------------------------------------------------------

/// The statement that keeps a contact from a file. What the file does not say of a contact that is
/// known already stays as it is.
pub open spec fn keeping_card(c: CardView) -> StatementView {
    sql(
        "INSERT INTO contacts (name,email,phone,company,notes) VALUES (?1,?2,?3,?4,?5)
             ON CONFLICT(email) DO UPDATE SET
               name=CASE WHEN excluded.name!='' THEN excluded.name ELSE name END,
               phone=CASE WHEN excluded.phone!='' THEN excluded.phone ELSE phone END,
               company=CASE WHEN excluded.company!='' THEN excluded.company ELSE company END"@,
    ).text(c.name).text(c.email).text(c.phone).text(c.company).text(c.notes)
}

/// The statement that finds a contact by its address.
pub open spec fn finding_contact(email: Seq<char>) -> StatementView {
    sql("SELECT id FROM contacts WHERE email=?1"@).text(email)
}

/// Finds a contact by its address.
pub fn contact_by_email(email: &str) -> (r: Statement)
    ensures
        r@ == finding_contact(email@),
{
    Statement::new("SELECT id FROM contacts WHERE email=?1").text(email)
}

/// A contact to be kept, and to be found again to learn its id.
pub struct ContactInsert {
    pub keep: Statement,
    pub find: Statement,
}

/// What is done for each contact that is worth keeping.
pub open spec fn insertions(rows: Seq<ContactRow>) -> Seq<(StatementView, StatementView)>
    decreases rows.len(),
{
    if rows.len() == 0 {
        Seq::empty()
    } else {
        let before = insertions(rows.drop_last());
        let c = card(rows.last());
        if worth_keeping(c) {
            before.push((keeping_card(c), finding_contact(c.email)))
        } else {
            before
        }
    }
}

/// What the insertions say.
pub open spec fn insert_views(v: Seq<ContactInsert>) -> Seq<(StatementView, StatementView)> {
    Seq::new(v.len(), |i: int| (v[i].keep@, v[i].find@))
}

/// Keeps the contacts from a file.
pub fn insert_contacts(rows: &Vec<ContactRow>) -> (r: Vec<ContactInsert>)
    ensures
        insert_views(r@) == insertions(rows@),
{
    let mut r: Vec<ContactInsert> = Vec::new();
    let mut i: usize = 0;
    assert(insert_views(r@) =~= Seq::<(StatementView, StatementView)>::empty());
    while i < rows.len()
        invariant
            i <= rows@.len(),
            insert_views(r@) == insertions(rows@.take(i as int)),
        decreases rows@.len() - i,
    {
        let row = &rows[i];
        assert(rows@.take(i + 1).drop_last() =~= rows@.take(i as int));
        assert(rows@.take(i + 1).last() == row);
        if to_chars(row.0.as_str()).len() > 0 || to_chars(row.1.as_str()).len() > 0 {
            let keep = Statement::new(
                "INSERT INTO contacts (name,email,phone,company,notes) VALUES (?1,?2,?3,?4,?5)
             ON CONFLICT(email) DO UPDATE SET
               name=CASE WHEN excluded.name!='' THEN excluded.name ELSE name END,
               phone=CASE WHEN excluded.phone!='' THEN excluded.phone ELSE phone END,
               company=CASE WHEN excluded.company!='' THEN excluded.company ELSE company END",
            ).text(row.0.as_str()).text(row.1.as_str()).text(row.2.as_str()).text(
                row.3.as_str(),
            ).text(row.4.as_str());
            let one = ContactInsert { keep, find: contact_by_email(row.1.as_str()) };
            let ghost before = r@;
            r.push(one);
            assert(insert_views(r@) =~= insert_views(before).push((one.keep@, one.find@)));
        }
        i += 1;
    }
    assert(rows@.take(i as int) =~= rows@);
    r
}

// ---------------------------------------------------------------------------------------------
// Contacts that the user writes down
// ---------------------------------------------------------------------------------------------

/// The statement that reads all contacts.
pub open spec fn reading_contacts() -> StatementView {
    sql(
        "SELECT id,name,email,phone,company,notes,is_blacklisted FROM contacts ORDER BY name COLLATE NOCASE ASC"@,
    )
}

/// Reads all contacts.
pub fn get_contacts() -> (r: Statement)
    ensures
        r@ == reading_contacts(),
{
    Statement::new(
        "SELECT id,name,email,phone,company,notes,is_blacklisted FROM contacts ORDER BY name COLLATE NOCASE ASC",
    )
}

/// A contact as the database holds it.
pub struct StoredContact {
    pub id: i64,
    pub row: ContactRow,
    pub is_blacklisted: i32,
}

/// The contact that the database holds.
pub fn read_contact(s: StoredContact) -> (r: Contact)
    ensures
        r@ == (ContactView {
            id: s.id as int,
            card: card(s.row),
            is_blacklisted: s.is_blacklisted != 0,
        }),
{
    let (name, email, phone, company, notes) = s.row;
    Contact {
        id: s.id,
        name,
        email,
        phone,
        company,
        notes,
        is_blacklisted: s.is_blacklisted != 0,
    }
}

/// The statement that changes a contact.
pub open spec fn changing_contact(c: ContactView) -> StatementView {
    sql("UPDATE contacts SET name=?1,email=?2,phone=?3,company=?4,notes=?5 WHERE id=?6"@).text(
        c.card.name,
    ).text(c.card.email).text(c.card.phone).text(c.card.company).text(c.card.notes).number(c.id)
}

/// The statement that keeps a new contact.
pub open spec fn adding_contact(c: ContactView) -> StatementView {
    sql("INSERT INTO contacts (name,email,phone,company,notes) VALUES (?1,?2,?3,?4,?5)"@).text(
        c.card.name,
    ).text(c.card.email).text(c.card.phone).text(c.card.company).text(c.card.notes)
}

/// Keeps a contact: the statement, and whether the database gives it an id.
pub fn save_contact(c: &Contact) -> (r: (Statement, bool))
    ensures
        if c.id > 0 {
            r.0@ == changing_contact(c@) && !r.1
        } else {
            r.0@ == adding_contact(c@) && r.1
        },
{
    if c.id > 0 {
        (
            Statement::new(
                "UPDATE contacts SET name=?1,email=?2,phone=?3,company=?4,notes=?5 WHERE id=?6",
            ).text(c.name.as_str()).text(c.email.as_str()).text(c.phone.as_str()).text(
                c.company.as_str(),
            ).text(c.notes.as_str()).number(c.id),
            false,
        )
    } else {
        (
            Statement::new(
                "INSERT INTO contacts (name,email,phone,company,notes) VALUES (?1,?2,?3,?4,?5)",
            ).text(c.name.as_str()).text(c.email.as_str()).text(c.phone.as_str()).text(
                c.company.as_str(),
            ).text(c.notes.as_str()),
            true,
        )
    }
}

/// The contact that has been kept: one that was new has the id that the database has given.
pub fn saved_contact(c: Contact, given_id: i64) -> (r: Contact)
    ensures
        r@ == (ContactView {
            id: if c.id > 0 {
                c.id as int
            } else {
                given_id as int
            },
            ..c@
        }),
{
    let id: i64 = if c.id > 0 {
        c.id
    } else {
        given_id
    };
    Contact { id, ..c }
}

/// The statement that forgets a contact.
pub open spec fn forgetting_contact(id: int) -> StatementView {
    sql("DELETE FROM contacts WHERE id=?1"@).number(id)
}

/// Forgets a contact.
pub fn delete_contact(id: i64) -> (r: Statement)
    ensures
        r@ == forgetting_contact(id as int),
{
    Statement::new("DELETE FROM contacts WHERE id=?1").number(id)
}

// ---------------------------------------------------------------------------------------------
// Contacts from messages
// ---------------------------------------------------------------------------------------------

/// The statement that keeps a sender as a contact.
pub open spec fn keeping_sender(name: Seq<char>, email: Seq<char>) -> StatementView {
    sql(
        "INSERT INTO contacts (name,email,phone,company,notes) VALUES (?1,?2,'','','')
         ON CONFLICT(email) DO UPDATE SET name=CASE WHEN excluded.name!='' THEN excluded.name ELSE name END"@,
    ).text(name).text(email)
}

/// The contact that a sender becomes.
pub open spec fn sender_card(from: Seq<char>) -> CardView {
    CardView {
        name: contact_name(from),
        email: contact_email(from),
        phone: Seq::empty(),
        company: Seq::empty(),
        notes: Seq::empty(),
    }
}

/// Makes a contact of the sender of a message. The contact still lacks its id.
pub fn add_contact_from_email(from_addr: &str) -> (r: Result<(Contact, ContactInsert), String>)
    ensures
        if contact_email(from_addr@).len() == 0 {
            r matches Err(e) && e@ == "Не удалось извлечь email"@
        } else {
            r matches Ok((c, s)) && c@ == (ContactView {
                id: 0,
                card: sender_card(from_addr@),
                is_blacklisted: false,
            }) && s.keep@ == keeping_sender(contact_name(from_addr@), contact_email(from_addr@))
                && s.find@ == finding_contact(contact_email(from_addr@))
        },
{
    let (name, email) = name_and_email(from_addr);
    if to_chars(email.as_str()).len() == 0 {
        return Err("Не удалось извлечь email".to_owned());
    }
    let keep = Statement::new(
        "INSERT INTO contacts (name,email,phone,company,notes) VALUES (?1,?2,'','','')
         ON CONFLICT(email) DO UPDATE SET name=CASE WHEN excluded.name!='' THEN excluded.name ELSE name END",
    ).text(name.as_str()).text(email.as_str());
    let find = contact_by_email(email.as_str());
    let c = Contact {
        id: 0,
        name,
        email,
        phone: String::new(),
        company: String::new(),
        notes: String::new(),
        is_blacklisted: false,
    };
    assert(c@ =~= (ContactView {
        id: 0,
        card: sender_card(from_addr@),
        is_blacklisted: false,
    })) by {
        assert(c@.card.phone =~= Seq::<char>::empty());
    }
    Ok((c, ContactInsert { keep, find }))
}

// ---------------------------------------------------------------------------------------------
// The blacklist
// ---------------------------------------------------------------------------------------------

/// The statement that blacklists a sender.
pub open spec fn blacklisting(name: Seq<char>, email: Seq<char>) -> StatementView {
    sql(
        "INSERT INTO contacts (name,email,phone,company,notes,is_blacklisted) VALUES (?1,?2,'','','',1)
         ON CONFLICT(email) DO UPDATE SET is_blacklisted=1,
         name=CASE WHEN excluded.name!='' THEN excluded.name ELSE name END"@,
    ).text(name).text(email)
}

/// The statement that moves the messages of an address into the spam folder.
pub open spec fn moving_to_spam(email: Seq<char>) -> StatementView {
    sql(
        "UPDATE emails SET folder='Spam'
         WHERE folder!='Spam' AND INSTR(LOWER(from_addr), LOWER(?1)) > 0"@,
    ).text(email)
}

fn spam_of(email: &str) -> (r: Statement)
    ensures
        r@ == moving_to_spam(email@),
{
    Statement::new(
        "UPDATE emails SET folder='Spam'
         WHERE folder!='Spam' AND INSTR(LOWER(from_addr), LOWER(?1)) > 0",
    ).text(email)
}

/// Blacklists a sender and moves the sender's messages into the spam folder; `None` if the sender has
/// no address.
pub fn blacklist_sender(from_addr: &str) -> (r: Option<(Statement, Statement)>)
    ensures
        match r {
            Some((list, sweep)) => contact_email(from_addr@).len() > 0 && list@ == blacklisting(
                contact_name(from_addr@),
                contact_email(from_addr@),
            ) && sweep@ == moving_to_spam(contact_email(from_addr@)),
            None => contact_email(from_addr@).len() == 0,
        },
{
    let (name, email) = name_and_email(from_addr);
    if to_chars(email.as_str()).len() == 0 {
        return None;
    }
    let list = Statement::new(
        "INSERT INTO contacts (name,email,phone,company,notes,is_blacklisted) VALUES (?1,?2,'','','',1)
         ON CONFLICT(email) DO UPDATE SET is_blacklisted=1,
         name=CASE WHEN excluded.name!='' THEN excluded.name ELSE name END",
    ).text(name.as_str()).text(email.as_str());
    Some((list, spam_of(email.as_str())))
}

/// The other one of 0 and 1; 0 for any other number.
pub open spec fn toggled(v: i32) -> i32 {
    if v == 0 {
        1
    } else {
        0
    }
}

/// Toggling gives 1 for 0, and 0 for anything else.
pub proof fn law_toggled(v: i32)
    ensures
        toggled(v) == 1 <==> v == 0,
        toggled(v) == 0 <==> v != 0,
{
}

/// Toggling twice changes nothing.
pub proof fn law_toggle_twice(v: i32)
    requires
        v == 0 || v == 1,
    ensures
        toggled(toggled(v)) == v,
{
}

/// The statement that reads whether a contact is on the blacklist, and its address.
pub open spec fn reading_blacklist(id: int) -> StatementView {
    sql("SELECT is_blacklisted, email FROM contacts WHERE id=?1"@).number(id)
}

/// Reads whether a contact is on the blacklist, and its address.
pub fn blacklist_query(id: i64) -> (r: Statement)
    ensures
        r@ == reading_blacklist(id as int),
{
    Statement::new("SELECT is_blacklisted, email FROM contacts WHERE id=?1").number(id)
}

/// The statement that puts a contact on the blacklist or takes it off.
pub open spec fn setting_blacklist(id: int, v: int) -> StatementView {
    sql("UPDATE contacts SET is_blacklisted=?1 WHERE id=?2"@).number(v).number(id)
}

/// The other state of a contact.
pub struct BlacklistChange {
    pub set: Statement,
    /// The statement that moves its messages into the spam folder, if that is to be done.
    pub sweep: Option<Statement>,
    /// Whether the contact is on the blacklist then.
    pub listed: bool,
}

/// Puts a contact on the blacklist if it is not there, and takes it off if it is. The messages of a
/// contact that is put on it go into the spam folder.
pub fn toggle_contact_blacklist(id: i64, current: i32, email: &str) -> (r: BlacklistChange)
    ensures
        r.set@ == setting_blacklist(id as int, toggled(current) as int),
        match r.sweep {
            Some(s) => current == 0 && email@.len() > 0 && s@ == moving_to_spam(email@),
            None => current != 0 || email@.len() == 0,
        },
        r.listed == (current == 0),
{
    let value: i64 = if current == 0 {
        1
    } else {
        0
    };
    let set = Statement::new("UPDATE contacts SET is_blacklisted=?1 WHERE id=?2").number(
        value,
    ).number(id);
    let sweep = if current == 0 && to_chars(email).len() > 0 {
        Some(spam_of(email))
    } else {
        None
    };
    BlacklistChange { set, sweep, listed: current == 0 }
}

// ---------------------------------------------------------------------------------------------
// Groups
// ---------------------------------------------------------------------------------------------

/// The statement that reads all groups.
pub open spec fn reading_groups() -> StatementView {
    sql("SELECT id, name FROM contact_groups ORDER BY name"@)
}

/// Reads all groups.
pub fn get_groups() -> (r: Statement)
    ensures
        r@ == reading_groups(),
{
    Statement::new("SELECT id, name FROM contact_groups ORDER BY name")
}

/// A new group: its name, the statement that keeps it and the one that finds its id.
pub struct GroupInsert {
    pub name: String,
    pub keep: Statement,
    pub find: Statement,
}

/// The statements that keep a group and find its id.
pub open spec fn keeping_group(name: Seq<char>) -> (StatementView, StatementView) {
    (
        sql("INSERT INTO contact_groups (name) VALUES (?1) ON CONFLICT(name) DO NOTHING"@).text(
            name,
        ),
        sql("SELECT id FROM contact_groups WHERE name=?1"@).text(name),
    )
}

/// Keeps a group.
pub fn save_group(name: &str) -> (r: Result<GroupInsert, String>)
    ensures
        if trim(name@).len() == 0 {
            r matches Err(e) && e@ == "Название не может быть пустым"@
        } else {
            r matches Ok(g) && g.name@ == trim(name@) && (g.keep@, g.find@) == keeping_group(
                trim(name@),
            )
        },
{
    let name = trim_str(name);
    if to_chars(name.as_str()).len() == 0 {
        return Err("Название не может быть пустым".to_owned());
    }
    let keep = Statement::new(
        "INSERT INTO contact_groups (name) VALUES (?1) ON CONFLICT(name) DO NOTHING",
    ).text(name.as_str());
    let find = Statement::new("SELECT id FROM contact_groups WHERE name=?1").text(name.as_str());
    Ok(GroupInsert { name, keep, find })
}

/// The statement that gives a group another name.
pub open spec fn naming_group(group_id: int, name: Seq<char>) -> StatementView {
    sql("UPDATE contact_groups SET name=?1 WHERE id=?2"@).text(name).number(group_id)
}

/// Gives a group another name.
pub fn rename_group(group_id: i64, name: &str) -> (r: Result<Statement, String>)
    ensures
        if trim(name@).len() == 0 {
            r matches Err(e) && e@ == "Название не может быть пустым"@
        } else {
            r matches Ok(s) && s@ == naming_group(group_id as int, trim(name@))
        },
{
    let name = trim_str(name);
    if to_chars(name.as_str()).len() == 0 {
        return Err("Название не может быть пустым".to_owned());
    }
    Ok(
        Statement::new("UPDATE contact_groups SET name=?1 WHERE id=?2").text(name.as_str()).number(
            group_id,
        ),
    )
}

/// The statements that forget a group, after nobody is in it any more.
pub open spec fn forgetting_group(group_id: int) -> Seq<StatementView> {
    seq![
        sql("DELETE FROM contact_group_members WHERE group_id=?1"@).number(group_id),
        sql("DELETE FROM contact_groups WHERE id=?1"@).number(group_id),
    ]
}

/// Forgets a group.
pub fn delete_group(group_id: i64) -> (r: Vec<Statement>)
    ensures
        statement_views(r@) == forgetting_group(group_id as int),
{
    let mut r: Vec<Statement> = Vec::new();
    r.push(Statement::new("DELETE FROM contact_group_members WHERE group_id=?1").number(group_id));
    r.push(Statement::new("DELETE FROM contact_groups WHERE id=?1").number(group_id));
    assert(statement_views(r@) =~= forgetting_group(group_id as int));
    r
}

/// The statement that reads the groups that a contact is in.
pub open spec fn reading_memberships(contact_id: int) -> StatementView {
    sql("SELECT group_id FROM contact_group_members WHERE contact_id=?1"@).number(contact_id)
}

/// Reads the groups that a contact is in.
pub fn get_contact_groups(contact_id: i64) -> (r: Statement)
    ensures
        r@ == reading_memberships(contact_id as int),
{
    Statement::new("SELECT group_id FROM contact_group_members WHERE contact_id=?1").number(
        contact_id,
    )
}

/// The statements that put a contact into these groups and no others.
pub open spec fn setting_groups(contact_id: int, groups: Seq<i64>) -> Seq<StatementView> {
    seq![sql("DELETE FROM contact_group_members WHERE contact_id=?1"@).number(contact_id)]
        + Seq::new(groups.len(), |i: int| joining(contact_id, groups[i] as int))
}

/// Puts a contact into these groups and no others.
pub fn set_contact_groups(contact_id: i64, group_ids: &Vec<i64>) -> (r: Vec<Statement>)
    ensures
        statement_views(r@) == setting_groups(contact_id as int, group_ids@),
{
    let ghost want = setting_groups(contact_id as int, group_ids@);
    let mut r: Vec<Statement> = Vec::new();
    r.push(
        Statement::new("DELETE FROM contact_group_members WHERE contact_id=?1").number(contact_id),
    );
    let mut i: usize = 0;
    while i < group_ids.len()
        invariant
            i <= group_ids@.len(),
            want == setting_groups(contact_id as int, group_ids@),
            r@.len() == i + 1,
            forall|j: int| 0 <= j <= i ==> (#[trigger] r@[j])@ == want[j],
        decreases group_ids@.len() - i,
    {
        r.push(join_group(contact_id, group_ids[i]));
        i += 1;
    }
    assert(statement_views(r@) =~= want);
    r
}

/// The statements that put these contacts into a group.
pub open spec fn filling_group(contacts: Seq<i64>, group_id: int) -> Seq<StatementView> {
    Seq::new(contacts.len(), |i: int| joining(contacts[i] as int, group_id))
}

/// Puts these contacts into a group.
pub fn add_contacts_to_group(contact_ids: &Vec<i64>, group_id: i64) -> (r: Vec<Statement>)
    ensures
        statement_views(r@) == filling_group(contact_ids@, group_id as int),
{
    let ghost want = filling_group(contact_ids@, group_id as int);
    let mut r: Vec<Statement> = Vec::new();
    let mut i: usize = 0;
    while i < contact_ids.len()
        invariant
            i <= contact_ids@.len(),
            want == filling_group(contact_ids@, group_id as int),
            r@.len() == i,
            forall|j: int| 0 <= j < i ==> (#[trigger] r@[j])@ == want[j],
        decreases contact_ids@.len() - i,
    {
        r.push(join_group(contact_ids[i], group_id));
        i += 1;
    }
    assert(statement_views(r@) =~= want);
    r
}

/// The statement that reads the contacts in a group.
pub open spec fn reading_members(group_id: int) -> StatementView {
    sql(
        "SELECT c.id, c.name, c.email, c.phone, c.company, c.notes, c.is_blacklisted
         FROM contacts c
         JOIN contact_group_members m ON c.id = m.contact_id
         WHERE m.group_id = ?1
         ORDER BY c.name, c.email"@,
    ).number(group_id)
}

/// Reads the contacts in a group.
pub fn get_contacts_by_group(group_id: i64) -> (r: Statement)
    ensures
        r@ == reading_members(group_id as int),
{
    Statement::new(
        "SELECT c.id, c.name, c.email, c.phone, c.company, c.notes, c.is_blacklisted
         FROM contacts c
         JOIN contact_group_members m ON c.id = m.contact_id
         WHERE m.group_id = ?1
         ORDER BY c.name, c.email",
    ).number(group_id)
}

} // verus!
