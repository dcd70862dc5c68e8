//! The address book: reading contacts from files and keeping them.
use vstd::prelude::*;
use vstd::slice::{slice_subrange, slice_to_vec};

use crate::contact_files::{
    csv_table, english_headings, fit_table, law_english_table, lemma_english_first,
};
use crate::text::{
    ascii_lower, begins_with, char_views, contains_word, find_char, first_index, from_chars,
    has_word, is_ascii_text, lines, lines_of, lowercase, same_ignoring_case, split, split_at,
    starts_with, to_chars, to_lowercase, trim, trim_str, trimmed, views,
};

verus! {

// ---------------------------------------------------------------------------------------------
// A contact in a file
// ---------------------------------------------------------------------------------------------

/// Name, address, telephone number, company and notes of a contact.
pub type ContactRow = (String, String, String, String, String);

/// What a file says of a contact.
#[verifier::ext_equal]
pub struct CardView {
    pub name: Seq<char>,
    pub email: Seq<char>,
    pub phone: Seq<char>,
    pub company: Seq<char>,
    pub notes: Seq<char>,
}

/// What a row says of a contact.
pub open spec fn card(r: ContactRow) -> CardView {
    CardView { name: r.0@, email: r.1@, phone: r.2@, company: r.3@, notes: r.4@ }
}

/// What rows say of contacts.
pub open spec fn cards(v: Seq<ContactRow>) -> Seq<CardView> {
    Seq::new(v.len(), |i: int| card(v[i]))
}

/// Nothing known.
pub open spec fn blank_card() -> CardView {
    CardView {
        name: Seq::empty(),
        email: Seq::empty(),
        phone: Seq::empty(),
        company: Seq::empty(),
        notes: Seq::empty(),
    }
}

/// A contact worth keeping has a name or an address.
pub open spec fn worth_keeping(c: CardView) -> bool {
    c.name.len() > 0 || c.email.len() > 0
}

// ---------------------------------------------------------------------------------------------
// vCard
// ---------------------------------------------------------------------------------------------

/// The value after the first colon of a line.
pub open spec fn after_colon(line: Seq<char>) -> Seq<char> {
    match first_index(line, ':') {
        Some(i) => trim(line.skip(i + 1)),
        None => Seq::empty(),
    }
}

/// The name in a structured name, `family;given;...`: the given name and the family name.
pub open spec fn structured_name(value: Seq<char>) -> Seq<char> {
    let parts = split(value, ';');
    let family = trim(parts[0]);
    let given = if parts.len() > 1 {
        trim(parts[1])
    } else {
        Seq::empty()
    };
    trim(given + " "@ + family)
}

/// A value that is kept unless there is one already.
pub open spec fn unless_known(known: Seq<char>, value: Seq<char>) -> Seq<char> {
    if known.len() == 0 {
        value
    } else {
        known
    }
}

/// What is known of a contact after a line of its card.
pub open spec fn with_line(c: CardView, line: Seq<char>) -> CardView {
    if begins_with(line, "FN:"@) {
        CardView { name: unless_known(c.name, trim(line.skip(3))), ..c }
    } else if begins_with(line, "N:"@) && c.name.len() == 0 {
        CardView { name: structured_name(line.skip(2)), ..c }
    } else if begins_with(line, "EMAIL"@) {
        if first_index(line, ':') is Some {
            CardView { email: unless_known(c.email, after_colon(line)), ..c }
        } else {
            c
        }
    } else if begins_with(line, "TEL"@) {
        if first_index(line, ':') is Some {
            CardView { phone: unless_known(c.phone, after_colon(line)), ..c }
        } else {
            c
        }
    } else if begins_with(line, "ORG:"@) {
        CardView { company: unless_known(c.company, trim(split(line.skip(4), ';')[0])), ..c }
    } else if begins_with(line, "NOTE:"@) {
        CardView { notes: unless_known(c.notes, trim(line.skip(5))), ..c }
    } else {
        c
    }
}

/// The line that begins a card.
pub open spec fn begins_card(line: Seq<char>) -> bool {
    ascii_lower(line) == ascii_lower("BEGIN:VCARD"@)
}

/// The line that ends a card.
pub open spec fn ends_card(line: Seq<char>) -> bool {
    ascii_lower(line) == ascii_lower("END:VCARD"@)
}

/// The card that is open after some lines, if one is.
pub open spec fn open_card(ls: Seq<Seq<char>>) -> Option<CardView>
    decreases ls.len(),
{
    if ls.len() == 0 {
        None
    } else {
        let line = trim(ls.last());
        if begins_card(line) {
            Some(blank_card())
        } else {
            match open_card(ls.drop_last()) {
                Some(c) => if ends_card(line) {
                    None
                } else {
                    Some(with_line(c, line))
                },
                None => None,
            }
        }
    }
}

/// The cards that some lines hold: those that have been closed and are worth keeping.
pub open spec fn closed_cards(ls: Seq<Seq<char>>) -> Seq<CardView>
    decreases ls.len(),
{
    if ls.len() == 0 {
        Seq::empty()
    } else {
        let before = closed_cards(ls.drop_last());
        match open_card(ls.drop_last()) {
            Some(c) => if !begins_card(trim(ls.last())) && ends_card(trim(ls.last()))
                && worth_keeping(c) {
                before.push(c)
            } else {
                before
            },
            None => before,
        }
    }
}

/// The contacts in a file of cards.
pub open spec fn vcf_contacts(content: Seq<char>) -> Seq<CardView> {
    closed_cards(lines(content))
}

/// A contact as it is read.
struct Card {
    name: Vec<char>,
    email: Vec<char>,
    phone: Vec<char>,
    company: Vec<char>,
    notes: Vec<char>,
}

impl View for Card {
    type V = CardView;

    closed spec fn view(&self) -> CardView {
        CardView {
            name: self.name@,
            email: self.email@,
            phone: self.phone@,
            company: self.company@,
            notes: self.notes@,
        }
    }
}

impl Card {
    fn blank() -> (r: Card)
        ensures
            r@ == blank_card(),
    {
        let r = Card {
            name: Vec::new(),
            email: Vec::new(),
            phone: Vec::new(),
            company: Vec::new(),
            notes: Vec::new(),
        };
        assert(r@ =~= blank_card());
        r
    }

    fn row(&self) -> (r: ContactRow)
        ensures
            card(r) == self@,
    {
        let r = (
            from_chars(&self.name),
            from_chars(&self.email),
            from_chars(&self.phone),
            from_chars(&self.company),
            from_chars(&self.notes),
        );
        assert(card(r) =~= self@);
        r
    }

    fn read_line(&mut self, line: &[char])
        ensures
            final(self)@ == with_line(old(self)@, line@),
    {
        let ghost c = self@;
        proof {
            reveal_strlit("FN:");
            reveal_strlit("N:");
            reveal_strlit("EMAIL");
            reveal_strlit("TEL");
            reveal_strlit("ORG:");
            reveal_strlit("NOTE:");
        }
        let total: usize = line.len();
        if has_key(line, "FN:", 3) {
            if self.name.len() == 0 {
                self.name = value_from(line, 3);
            }
            assert(self@ =~= with_line(c, line@));
        } else if has_key(line, "N:", 2) && self.name.len() == 0 {
            self.name = name_value(line);
            assert(self@ =~= with_line(c, line@));
        } else if has_key(line, "EMAIL", 5) {
            if let Some(i) = find_char(line, ':') {
                assert(i < total);
                if self.email.len() == 0 {
                    self.email = value_from(line, i + 1);
                }
            }
            assert(self@ =~= with_line(c, line@));
        } else if has_key(line, "TEL", 3) {
            if let Some(i) = find_char(line, ':') {
                assert(i < total);
                if self.phone.len() == 0 {
                    self.phone = value_from(line, i + 1);
                }
            }
            assert(self@ =~= with_line(c, line@));
        } else if has_key(line, "ORG:", 4) {
            if self.company.len() == 0 {
                self.company = first_field(line, 4);
            }
            assert(self@ =~= with_line(c, line@));
        } else if has_key(line, "NOTE:", 5) {
            if self.notes.len() == 0 {
                self.notes = value_from(line, 5);
            }
            assert(self@ =~= with_line(c, line@));
        }
    }
}

fn has_key(line: &[char], key: &str, len: usize) -> (r: bool)
    requires
        len == key@.len(),
    ensures
        r == begins_with(line@, key@),
        r ==> len <= line@.len(),
{
    let k = to_chars(key);
    starts_with(line, &k)
}

fn value_from(line: &[char], start: usize) -> (r: Vec<char>)
    requires
        start <= line@.len(),
    ensures
        r@ == trim(line@.skip(start as int)),
{
    let rest = slice_subrange(line, start, line.len());
    assert(rest@ =~= line@.skip(start as int));
    slice_to_vec(trimmed(rest))
}

fn first_field(line: &[char], start: usize) -> (r: Vec<char>)
    requires
        start <= line@.len(),
    ensures
        r@ == trim(split(line@.skip(start as int), ';')[0]),
{
    let rest = slice_subrange(line, start, line.len());
    assert(rest@ =~= line@.skip(start as int));
    let parts = split_at(rest, ';');
    proof {
        crate::text::lemma_split_some(rest@, ';');
    }
    assert(char_views(parts@)[0] == parts@[0]@);
    let first: &Vec<char> = &parts[0];
    slice_to_vec(trimmed(first))
}

fn name_value(line: &[char]) -> (r: Vec<char>)
    requires
        2 <= line@.len(),
    ensures
        r@ == structured_name(line@.skip(2)),
{
    let rest = slice_subrange(line, 2, line.len());
    assert(rest@ =~= line@.skip(2));
    let parts = split_at(rest, ';');
    proof {
        crate::text::lemma_split_some(rest@, ';');
        assert(char_views(parts@).len() == parts@.len());
        assert(char_views(parts@)[0] == parts@[0]@);
    }
    let family: &Vec<char> = &parts[0];
    let mut n: Vec<char> = Vec::new();
    if parts.len() > 1 {
        assert(char_views(parts@)[1] == parts@[1]@);
        let given: &Vec<char> = &parts[1];
        n = slice_to_vec(trimmed(given));
    }
    let ghost given_text = n@;
    n.push(' ');
    let mut tail = slice_to_vec(trimmed(family));
    let ghost tail_text = tail@;
    n.append(&mut tail);
    proof {
        reveal_strlit(" ");
        assert(" "@ =~= seq![' ']);
        assert(n@ =~= given_text + " "@ + tail_text);
    }
    slice_to_vec(trimmed(&n))
}

/// Reads the contacts in a file of cards.
pub fn parse_vcf_content(content: &str) -> (r: Vec<ContactRow>)
    ensures
        cards(r@) == vcf_contacts(content@),
{
    let text = to_chars(content);
    let ls = lines_of(&text);
    let ghost all = lines(content@);
    let begin = to_chars("BEGIN:VCARD");
    let end = to_chars("END:VCARD");
    let mut result: Vec<ContactRow> = Vec::new();
    let mut in_card = false;
    let mut current = Card::blank();
    let mut i: usize = 0;
    assert(cards(result@) =~= Seq::<CardView>::empty());
    while i < ls.len()
        invariant
            i <= ls@.len(),
            all == char_views(ls@),
            begin@ == "BEGIN:VCARD"@,
            end@ == "END:VCARD"@,
            open_card(all.take(i as int)) == (if in_card {
                Some(current@)
            } else {
                None
            }),
            cards(result@) == closed_cards(all.take(i as int)),
        decreases ls@.len() - i,
    {
        let raw: &Vec<char> = &ls[i];
        let line = trimmed(raw);
        assert(all.take(i + 1).drop_last() =~= all.take(i as int));
        assert(all.take(i + 1).last() == raw@);
        if same_ignoring_case(line, &begin) {
            in_card = true;
            current = Card::blank();
        } else if same_ignoring_case(line, &end) && in_card {
            if current.name.len() > 0 || current.email.len() > 0 {
                let row = current.row();
                let ghost before = result@;
                result.push(row);
                assert(cards(result@) =~= cards(before).push(current@));
            }
            in_card = false;
        } else if in_card {
            current.read_line(line);
        }
        i += 1;
    }
    assert(all.take(i as int) =~= all);
    result
}

/// Every contact that is read from a file of cards has a name or an address.
pub proof fn law_vcf_contacts(ls: Seq<Seq<char>>)
    ensures
        forall|i: int| 0 <= i < closed_cards(ls).len() ==> worth_keeping(#[trigger] closed_cards(ls)[i]),
    decreases ls.len(),
{
    if ls.len() > 0 {
        let t = ls.drop_last();
        law_vcf_contacts(t);
        assert forall|i: int| 0 <= i < closed_cards(ls).len() implies worth_keeping(
            #[trigger] closed_cards(ls)[i],
        ) by {
            if i < closed_cards(t).len() {
                assert(closed_cards(ls)[i] == closed_cards(t)[i]);
            }
        }
    }
}

// ---------------------------------------------------------------------------------------------
// Tables
// ---------------------------------------------------------------------------------------------

/// Whether the end of a line stands between quotation marks.
pub open spec fn quoted(s: Seq<char>) -> bool
    decreases s.len(),
{
    s.len() > 0 && (if s.last() == '"' {
        !quoted(s.drop_last())
    } else {
        quoted(s.drop_last())
    })
}

/// The cells of a line: it is cut at each comma outside quotation marks, and the marks are dropped.
pub open spec fn raw_cells(s: Seq<char>) -> Seq<Seq<char>>
    decreases s.len(),
{
    if s.len() == 0 {
        seq![Seq::<char>::empty()]
    } else {
        let p = raw_cells(s.drop_last());
        if s.last() == '"' {
            p
        } else if s.last() == ',' && !quoted(s.drop_last()) {
            p.push(Seq::empty())
        } else {
            p.drop_last().push(p.last().push(s.last()))
        }
    }
}

/// The cells of a line, without white space around them.
pub open spec fn cells(s: Seq<char>) -> Seq<Seq<char>> {
    Seq::new(raw_cells(s).len(), |i: int| trim(raw_cells(s)[i]))
}

/// Cuts a line of a table into its cells.
pub fn split_csv_row(line: &str) -> (r: Vec<String>)
    ensures
        views(r@) == cells(line@),
{
    let v = to_chars(line);
    let ghost text = line@;
    let mut cols: Vec<String> = Vec::new();
    let mut cur: Vec<char> = Vec::new();
    let mut in_quotes = false;
    let ghost mut cut: Seq<Seq<char>> = Seq::empty();
    let mut i: usize = 0;
    assert(raw_cells(text.take(0)) =~= cut.push(cur@));
    while i < v.len()
        invariant
            i <= v@.len(),
            v@ == text,
            in_quotes == quoted(text.take(i as int)),
            raw_cells(text.take(i as int)) == cut.push(cur@),
            cols@.len() == cut.len(),
            forall|j: int| 0 <= j < cut.len() ==> (#[trigger] cols@[j])@ == trim(cut[j]),
        decreases v@.len() - i,
    {
        let c = v[i];
        let ghost t = text.take(i + 1);
        assert(t.drop_last() =~= text.take(i as int));
        assert(cut.push(cur@).drop_last() =~= cut);
        if c == '"' {
            in_quotes = !in_quotes;
        } else if c == ',' && !in_quotes {
            cols.push(from_chars(trimmed(&cur)));
            proof {
                cut = cut.push(cur@);
            }
            cur = Vec::new();
            assert(raw_cells(t) =~= cut.push(cur@));
        } else {
            let ghost before = cur@;
            cur.push(c);
            assert(raw_cells(t) =~= cut.push(before.push(c)));
        }
        i += 1;
    }
    assert(text.take(i as int) =~= text);
    cols.push(from_chars(trimmed(&cur)));
    assert(views(cols@) =~= cells(text));
    cols
}

/// A line has at least one cell.
pub proof fn law_cells(s: Seq<char>)
    ensures
        cells(s).len() > 0,
    decreases s.len(),
{
    if s.len() > 0 {
        law_cells(s.drop_last());
    }
}

/// A comma between quotation marks does not cut a line.
pub proof fn law_quoted_comma(s: Seq<char>)
    requires
        quoted(s),
    ensures
        raw_cells(s.push(',')).len() == raw_cells(s).len(),
{
    law_cells(s);
    assert(s.push(',').drop_last() =~= s);
}

/// A heading that holds one of these words.
pub open spec fn heads(heading: Seq<char>, words: Seq<Seq<char>>) -> bool {
    exists|i: int| 0 <= i < words.len() && has_word(heading, #[trigger] words[i])
}

/// The first column whose heading holds one of these words.
pub open spec fn column(headings: Seq<Seq<char>>, words: Seq<Seq<char>>) -> Option<int>
    decreases headings.len(),
{
    if headings.len() == 0 {
        None
    } else {
        match column(headings.drop_last(), words) {
            Some(i) => Some(i),
            None => if heads(headings.last(), words) {
                Some(headings.len() - 1)
            } else {
                None
            },
        }
    }
}

/// Which column holds what.
#[derive(Clone, Copy)]
pub struct Columns {
    pub name: Option<usize>,
    pub first: Option<usize>,
    pub last: Option<usize>,
    pub email: Option<usize>,
    pub phone: Option<usize>,
    pub company: Option<usize>,
    pub notes: Option<usize>,
}

/// The place of a column.
pub open spec fn place(c: Option<usize>) -> Option<int> {
    match c {
        Some(i) => Some(i as int),
        None => None,
    }
}

/// The columns are those that the headings say.
pub open spec fn columns_of(c: Columns, h: Seq<Seq<char>>) -> bool {
    &&& place(c.name) == column(h, seq!["name"@, "имя"@, "full"@])
    &&& place(c.first) == column(h, seq!["first"@, "given"@])
    &&& place(c.last) == column(h, seq!["last"@, "family"@, "surname"@])
    &&& place(c.email) == column(h, seq!["email"@, "e-mail"@, "почта"@])
    &&& place(c.phone) == column(h, seq!["phone"@, "tel"@, "mobile"@, "телефон"@])
    &&& place(c.company) == column(h, seq!["company"@, "org"@, "компания"@])
    &&& place(c.notes) == column(h, seq!["note"@, "заметк"@])
}

fn find_column(headings: &Vec<Vec<char>>, words: &Vec<Vec<char>>) -> (r: Option<usize>)
    ensures
        place(r) == column(char_views(headings@), char_views(words@)),
{
    let ghost hs = char_views(headings@);
    let ghost ws = char_views(words@);
    let mut i: usize = 0;
    assert(column(hs.take(0), ws) is None);
    while i < headings.len()
        invariant
            i <= headings@.len(),
            hs == char_views(headings@),
            ws == char_views(words@),
            column(hs.take(i as int), ws) is None,
        decreases headings@.len() - i,
    {
        let h: &Vec<char> = &headings[i];
        assert(hs.take(i + 1).drop_last() =~= hs.take(i as int));
        assert(hs.take(i + 1).last() == h@);
        let mut j: usize = 0;
        while j < words.len()
            invariant
                i < headings@.len(),
                j <= words@.len(),
                hs == char_views(headings@),
                ws == char_views(words@),
                h@ == hs[i as int],
                hs.take(i + 1).drop_last() == hs.take(i as int),
                hs.take(i + 1).last() == h@,
                column(hs.take(i as int), ws) is None,
                forall|k: int| 0 <= k < j ==> !has_word(h@, #[trigger] ws[k]),
            decreases words@.len() - j,
        {
            let w: &Vec<char> = &words[j];
            assert(ws[j as int] == w@);
            if contains_word(h, w) {
                proof {
                    assert(heads(h@, ws));
                    assert(column(hs.take(i + 1), ws) == Some(i as int));
                    lemma_column(hs, ws, i + 1);
                }
                return Some(i);
            }
            j += 1;
        }
        assert(!heads(h@, ws));
        i += 1;
    }
    assert(hs.take(i as int) =~= hs);
    None
}

proof fn lemma_column(hs: Seq<Seq<char>>, ws: Seq<Seq<char>>, i: int)
    requires
        0 <= i <= hs.len(),
        column(hs.take(i), ws) is Some,
    ensures
        column(hs, ws) == column(hs.take(i), ws),
    decreases hs.len() - i,
{
    if i < hs.len() {
        assert(hs.take(i + 1).drop_last() =~= hs.take(i));
        lemma_column(hs, ws, i + 1);
    } else {
        assert(hs.take(i) =~= hs);
    }
}

fn two(a: &str, b: &str) -> (r: Vec<Vec<char>>)
    ensures
        char_views(r@) == seq![a@, b@],
{
    let mut r: Vec<Vec<char>> = Vec::new();
    r.push(to_chars(a));
    r.push(to_chars(b));
    assert(char_views(r@) =~= seq![a@, b@]);
    r
}

fn three(a: &str, b: &str, c: &str) -> (r: Vec<Vec<char>>)
    ensures
        char_views(r@) == seq![a@, b@, c@],
{
    let mut r = two(a, b);
    let ghost before = r@;
    r.push(to_chars(c));
    assert(char_views(r@) =~= char_views(before).push(c@));
    assert(char_views(r@) =~= seq![a@, b@, c@]);
    r
}

fn four(a: &str, b: &str, c: &str, d: &str) -> (r: Vec<Vec<char>>)
    ensures
        char_views(r@) == seq![a@, b@, c@, d@],
{
    let mut r = three(a, b, c);
    let ghost before = r@;
    r.push(to_chars(d));
    assert(char_views(r@) =~= char_views(before).push(d@));
    assert(char_views(r@) =~= seq![a@, b@, c@, d@]);
    r
}

/// Finds the columns of a table by its headings, which are in lowercase.
pub fn find_columns(headings: &Vec<String>) -> (r: Columns)
    ensures
        columns_of(r, views(headings@)),
{
    let mut h: Vec<Vec<char>> = Vec::new();
    let mut i: usize = 0;
    while i < headings.len()
        invariant
            i <= headings@.len(),
            h@.len() == i,
            forall|j: int| 0 <= j < i ==> (#[trigger] h@[j])@ == headings@[j]@,
        decreases headings@.len() - i,
    {
        h.push(to_chars(headings[i].as_str()));
        i += 1;
    }
    assert(char_views(h@) =~= views(headings@));
    Columns {
        name: find_column(&h, &three("name", "имя", "full")),
        first: find_column(&h, &two("first", "given")),
        last: find_column(&h, &three("last", "family", "surname")),
        email: find_column(&h, &three("email", "e-mail", "почта")),
        phone: find_column(&h, &four("phone", "tel", "mobile", "телефон")),
        company: find_column(&h, &three("company", "org", "компания")),
        notes: find_column(&h, &two("note", "заметк")),
    }
}

/// The cell in a column, empty if the line has none.
pub open spec fn cell(row: Seq<Seq<char>>, c: Option<usize>) -> Seq<char> {
    match c {
        Some(i) => if i < row.len() {
            row[i as int]
        } else {
            Seq::empty()
        },
        None => Seq::empty(),
    }
}

/// The contact in a line. Without a column for the whole name it is put together.
pub open spec fn contact_in(row: Seq<Seq<char>>, c: Columns) -> CardView {
    CardView {
        name: if c.name is Some {
            cell(row, c.name)
        } else {
            trim(cell(row, c.first) + " "@ + cell(row, c.last))
        },
        email: cell(row, c.email),
        phone: cell(row, c.phone),
        company: cell(row, c.company),
        notes: cell(row, c.notes),
    }
}

/// The contacts in the lines of a table: those that are worth keeping. Empty lines count for nothing.
pub open spec fn contacts_in(rows: Seq<Seq<char>>, c: Columns) -> Seq<CardView>
    decreases rows.len(),
{
    if rows.len() == 0 {
        Seq::empty()
    } else {
        let before = contacts_in(rows.drop_last(), c);
        let one = contact_in(cells(rows.last()), c);
        if trim(rows.last()).len() > 0 && worth_keeping(one) {
            before.push(one)
        } else {
            before
        }
    }
}

/// The headings of a table, in lowercase.
pub open spec fn headings(line: Seq<char>) -> Seq<Seq<char>> {
    Seq::new(cells(line).len(), |i: int| lowercase(cells(line)[i]))
}

/// These are the contacts in a table: its first line holds the headings.
pub open spec fn are_csv_contacts(content: Seq<char>, r: Seq<CardView>) -> bool {
    let ls = lines(content);
    if ls.len() == 0 {
        r.len() == 0
    } else {
        exists|c: Columns|
            columns_of(c, headings(ls[0])) && r == #[trigger] contacts_in(ls.drop_first(), c)
    }
}

fn cell_of(row: &Vec<String>, c: Option<usize>) -> (r: String)
    ensures
        r@ == cell(views(row@), c),
{
    match c {
        Some(i) => if i < row.len() {
            assert(views(row@)[i as int] == row@[i as int]@);
            row[i].clone()
        } else {
            let none = String::new();
            assert(none@ =~= Seq::<char>::empty());
            none
        },
        None => {
            let none = String::new();
            assert(none@ =~= Seq::<char>::empty());
            none
        },
    }
}

fn contact_of(row: &Vec<String>, c: &Columns) -> (r: ContactRow)
    ensures
        card(r) == contact_in(views(row@), *c),
{
    let name = if c.name.is_some() {
        cell_of(row, c.name)
    } else {
        let mut n = cell_of(row, c.first);
        n.append(" ");
        n.append(cell_of(row, c.last).as_str());
        trim_str(n.as_str())
    };
    let r = (
        name,
        cell_of(row, c.email),
        cell_of(row, c.phone),
        cell_of(row, c.company),
        cell_of(row, c.notes),
    );
    assert(card(r) =~= contact_in(views(row@), *c));
    r
}

/// Reads the contacts in the lines of a table with these columns.
pub fn read_rows(rows: &Vec<String>, c: &Columns) -> (r: Vec<ContactRow>)
    ensures
        cards(r@) == contacts_in(views(rows@), *c),
{
    let ghost all = views(rows@);
    let mut result: Vec<ContactRow> = Vec::new();
    let mut i: usize = 0;
    assert(cards(result@) =~= Seq::<CardView>::empty());
    while i < rows.len()
        invariant
            i <= rows@.len(),
            all == views(rows@),
            cards(result@) == contacts_in(all.take(i as int), *c),
        decreases rows@.len() - i,
    {
        let line = &rows[i];
        assert(all.take(i + 1).drop_last() =~= all.take(i as int));
        assert(all.take(i + 1).last() == line@);
        let text = to_chars(line.as_str());
        if trimmed(&text).len() > 0 {
            let row = split_csv_row(line.as_str());
            let one = contact_of(&row, c);
            if to_chars(one.0.as_str()).len() > 0 || to_chars(one.1.as_str()).len() > 0 {
                let ghost before = result@;
                result.push(one);
                assert(cards(result@) =~= cards(before).push(card(one)));
            }
        }
        i += 1;
    }
    assert(all.take(i as int) =~= all);
    result
}

/// Reads the contacts in a table.
pub fn parse_csv_contacts(content: &str) -> (r: Vec<ContactRow>)
    ensures
        are_csv_contacts(content@, cards(r@)),
        forall|cs: Seq<CardView>|
            fit_table(cs) && content@ == #[trigger] csv_table(english_headings(), cs) ==> cards(r@) == cs,
{
    let text = to_chars(content);
    let ls = lines_of(&text);
    let ghost all = lines(content@);
    assert(char_views(ls@).len() == ls@.len());
    if ls.len() == 0 {
        proof {
            assert forall|cs: Seq<CardView>|
                fit_table(cs) && content@ == #[trigger] csv_table(
                    english_headings(),
                    cs,
                ) implies false by {
                lemma_english_first(cs);
            }
        }
        return Vec::new();
    }
    assert(all[0] == ls@[0]@);
    let first: &Vec<char> = &ls[0];
    let cols = split_csv_row(from_chars(first).as_str());
    let mut lower: Vec<String> = Vec::new();
    let mut i: usize = 0;
    while i < cols.len()
        invariant
            i <= cols@.len(),
            lower@.len() == i,
            forall|j: int| 0 <= j < i ==> (#[trigger] lower@[j])@ == lowercase(cols@[j]@),
            forall|j: int|
                0 <= j < i && is_ascii_text((#[trigger] cols@[j])@) ==> lowercase(cols@[j]@)
                    == ascii_lower(cols@[j]@),
        decreases cols@.len() - i,
    {
        lower.push(to_lowercase(cols[i].as_str()));
        i += 1;
    }
    assert(views(lower@) =~= headings(all[0])) by {
        assert forall|j: int| 0 <= j < cols@.len() implies views(lower@)[j] == #[trigger] headings(
            all[0],
        )[j] by {
            assert(views(cols@)[j] == cols@[j]@);
        }
    }
    let c = find_columns(&lower);
    let mut rows: Vec<String> = Vec::new();
    let mut k: usize = 1;
    while k < ls.len()
        invariant
            1 <= k <= ls@.len(),
            all == char_views(ls@),
            rows@.len() == k - 1,
            forall|j: int| 0 <= j < k - 1 ==> (#[trigger] rows@[j])@ == all[j + 1],
        decreases ls@.len() - k,
    {
        let line: &Vec<char> = &ls[k];
        assert(all[k as int] == line@);
        rows.push(from_chars(line));
        k += 1;
    }
    assert(views(rows@) =~= all.drop_first());
    let r = read_rows(&rows, &c);
    proof {
        assert(are_csv_contacts(content@, cards(r@)));
        assert forall|cs: Seq<CardView>|
            fit_table(cs) && content@ == #[trigger] csv_table(
                english_headings(),
                cs,
            ) implies cards(r@) == cs by {
            lemma_english_first(cs);
            lemma_english_lowered(cols@);
            law_english_table(cs, cards(r@));
        }
    }
    r
}

/// The small letters of the English headings.
proof fn lemma_english_lowered(cols: Seq<String>)
    requires
        views(cols) == english_headings(),
        forall|j: int|
            0 <= j < cols.len() && is_ascii_text((#[trigger] cols[j])@) ==> lowercase(cols[j]@)
                == ascii_lower(cols[j]@),
    ensures
        lowercase("Name"@) == "name"@,
        lowercase("Email"@) == "email"@,
        lowercase("Phone"@) == "phone"@,
        lowercase("Company"@) == "company"@,
        lowercase("Notes"@) == "notes"@,
{
    let v = views(cols);
    assert(v.len() == 5);
    assert(cols[0]@ == v[0] && cols[1]@ == v[1] && cols[2]@ == v[2] && cols[3]@ == v[3] && cols[4]@
        == v[4]);
    reveal_strlit("Name");
    reveal_strlit("Email");
    reveal_strlit("Phone");
    reveal_strlit("Company");
    reveal_strlit("Notes");
    reveal_strlit("name");
    reveal_strlit("email");
    reveal_strlit("phone");
    reveal_strlit("company");
    reveal_strlit("notes");
    assert(ascii_lower("Name"@) =~= "name"@);
    assert(ascii_lower("Email"@) =~= "email"@);
    assert(ascii_lower("Phone"@) =~= "phone"@);
    assert(ascii_lower("Company"@) =~= "company"@);
    assert(ascii_lower("Notes"@) =~= "notes"@);
}

/// Every contact that is read from a table has a name or an address.
pub proof fn law_csv_contacts(rows: Seq<Seq<char>>, c: Columns)
    ensures
        forall|i: int|
            0 <= i < contacts_in(rows, c).len() ==> worth_keeping(#[trigger] contacts_in(rows, c)[i]),
        contacts_in(rows, c).len() <= rows.len(),
    decreases rows.len(),
{
    if rows.len() > 0 {
        let t = rows.drop_last();
        law_csv_contacts(t, c);
        assert forall|i: int| 0 <= i < contacts_in(rows, c).len() implies worth_keeping(
            #[trigger] contacts_in(rows, c)[i],
        ) by {
            if i < contacts_in(t, c).len() {
                assert(contacts_in(rows, c)[i] == contacts_in(t, c)[i]);
            }
        }
    }
}

} // verus!
