//! Files of contacts: what is written is read back.
use vstd::prelude::*;

use crate::contacts::{
    are_csv_contacts, begins_card, blank_card, cells, closed_cards, column, columns_of,
    contact_in, contacts_in, ends_card, headings, heads, law_cells, open_card, quoted, raw_cells,
    vcf_contacts, with_line, worth_keeping, CardView, Columns,
};
use crate::letters::law_trim;
use crate::text::{
    ascii_lower, ascii_lower_char, ends_clean, first_index, has_word, is_white,
    lemma_first_index, lemma_split_some, lemma_trim_fixed, lines, lowercase, split, strip_cr,
    trim, trim_back, trim_front, word_at, Strip,
};

verus! {

// ---------------------------------------------------------------------------------------------
// Tables
// ---------------------------------------------------------------------------------------------

/// A text that a cell can hold: without quotation marks, line feeds and white space at its ends.
pub open spec fn fits_cell(f: Seq<char>) -> bool {
    !f.contains('"') && !f.contains('\n') && ends_clean(f)
}

/// A cell as it is written: between quotation marks if a comma stands in it.
pub open spec fn csv_field(f: Seq<char>) -> Seq<char> {
    if f.contains(',') {
        seq!['"'] + f + seq!['"']
    } else {
        f
    }
}

/// A line of a table.
pub open spec fn csv_line(fs: Seq<Seq<char>>) -> Seq<char>
    decreases fs.len(),
{
    if fs.len() == 0 {
        Seq::empty()
    } else if fs.len() == 1 {
        csv_field(fs[0])
    } else {
        csv_line(fs.drop_last()) + seq![','] + csv_field(fs.last())
    }
}

/// Lines, each with a line feed at its end.
pub open spec fn lines_text(ls: Seq<Seq<char>>) -> Seq<char>
    decreases ls.len(),
{
    if ls.len() == 0 {
        Seq::empty()
    } else {
        lines_text(ls.drop_last()) + ls.last() + seq!['\n']
    }
}

/// What is known of a contact, in the order of the columns.
pub open spec fn fields(c: CardView) -> Seq<Seq<char>> {
    seq![c.name, c.email, c.phone, c.company, c.notes]
}

/// The lines of a table of contacts under some headings.
pub open spec fn csv_lines(hs: Seq<Seq<char>>, cs: Seq<CardView>) -> Seq<Seq<char>> {
    seq![csv_line(hs)] + Seq::new(cs.len(), |i: int| csv_line(fields(cs[i])))
}

/// A table of contacts under some headings.
pub open spec fn csv_table(hs: Seq<Seq<char>>, cs: Seq<CardView>) -> Seq<char> {
    lines_text(csv_lines(hs, cs))
}

/// A contact that can be written into a table.
pub open spec fn fits_table(c: CardView) -> bool {
    &&& worth_keeping(c)
    &&& fits_cell(c.name)
    &&& fits_cell(c.email)
    &&& fits_cell(c.phone)
    &&& fits_cell(c.company)
    &&& fits_cell(c.notes)
}

/// Contacts that can be written into a table.
pub open spec fn fit_table(cs: Seq<CardView>) -> bool {
    forall|i: int| 0 <= i < cs.len() ==> fits_table(#[trigger] cs[i])
}

/// Headings in English.
pub open spec fn english_headings() -> Seq<Seq<char>> {
    seq!["Name"@, "Email"@, "Phone"@, "Company"@, "Notes"@]
}

/// Headings in Russian.
pub open spec fn russian_headings() -> Seq<Seq<char>> {
    seq!["Имя"@, "Почта"@, "Телефон"@, "Компания"@, "Заметки"@]
}

proof fn lemma_plain(s: Seq<char>, f: Seq<char>)
    requires
        !f.contains('"'),
        quoted(s) || !f.contains(','),
    ensures
        quoted(s + f) == quoted(s),
        raw_cells(s).len() > 0,
        raw_cells(s + f) == raw_cells(s).drop_last().push(raw_cells(s).last() + f),
    decreases f.len(),
{
    law_cells(s);
    if f.len() == 0 {
        assert(s + f =~= s);
        assert(raw_cells(s).last() + f =~= raw_cells(s).last());
        assert(raw_cells(s).drop_last().push(raw_cells(s).last()) =~= raw_cells(s));
    } else {
        let g = f.drop_last();
        assert(f[f.len() - 1] == f.last());
        assert forall|c: char| !f.contains(c) implies !g.contains(c) by {
            if g.contains(c) {
                let i = choose|i: int| 0 <= i < g.len() && g[i] == c;
                assert(f[i] == c);
            }
        }
        lemma_plain(s, g);
        assert((s + f).drop_last() =~= s + g);
        assert((s + f).last() == f.last());
        let p = raw_cells(s + g);
        let front = raw_cells(s).drop_last();
        assert(p.drop_last() =~= front);
        assert(p.last().push(f.last()) =~= raw_cells(s).last() + f);
    }
}

proof fn lemma_field(s: Seq<char>, f: Seq<char>)
    requires
        !quoted(s),
        !f.contains('"'),
    ensures
        !quoted(s + csv_field(f)),
        raw_cells(s).len() > 0,
        raw_cells(s + csv_field(f)) == raw_cells(s).drop_last().push(raw_cells(s).last() + f),
{
    law_cells(s);
    if f.contains(',') {
        let a = s.push('"');
        assert(a.drop_last() =~= s);
        assert(raw_cells(a) == raw_cells(s));
        assert(quoted(a));
        lemma_plain(a, f);
        let b = (a + f).push('"');
        assert(b.drop_last() =~= a + f);
        assert(s + csv_field(f) =~= b);
    } else {
        lemma_plain(s, f);
    }
}

/// A line is cut into the cells that were written into it.
proof fn lemma_csv_line(fs: Seq<Seq<char>>)
    requires
        fs.len() > 0,
        forall|i: int| 0 <= i < fs.len() ==> !(#[trigger] fs[i]).contains('"'),
    ensures
        !quoted(csv_line(fs)),
        raw_cells(csv_line(fs)) == fs,
    decreases fs.len(),
{
    let none = Seq::<char>::empty();
    if fs.len() == 1 {
        lemma_field(none, fs[0]);
        assert(none + csv_field(fs[0]) =~= csv_field(fs[0]));
        assert(none + fs[0] =~= fs[0]);
        assert(raw_cells(none) =~= seq![none]);
        assert(raw_cells(csv_line(fs)) =~= fs);
    } else {
        let front = fs.drop_last();
        lemma_csv_line(front);
        let a = csv_line(front).push(',');
        assert(a.drop_last() =~= csv_line(front));
        assert(raw_cells(a) == front.push(none));
        assert(!quoted(a));
        lemma_field(a, fs.last());
        assert(csv_line(fs) =~= a + csv_field(fs.last()));
        assert(front.push(none).drop_last() =~= front);
        assert(none + fs.last() =~= fs.last());
        assert(raw_cells(csv_line(fs)) =~= fs);
    }
}

/// A line has the cells that were written into it.
pub proof fn law_csv_line(fs: Seq<Seq<char>>)
    requires
        fs.len() > 0,
        forall|i: int| 0 <= i < fs.len() ==> fits_cell(#[trigger] fs[i]),
    ensures
        cells(csv_line(fs)) == fs,
{
    assert forall|i: int| 0 <= i < fs.len() implies !(#[trigger] fs[i]).contains('"') by {
        assert(fits_cell(fs[i]));
    }
    lemma_csv_line(fs);
    assert forall|i: int| 0 <= i < fs.len() implies trim(#[trigger] fs[i]) == fs[i] by {
        assert(fits_cell(fs[i]));
        lemma_trim_fixed(fs[i]);
    }
    assert(cells(csv_line(fs)) =~= fs);
}

/// White space round a field of a line is no part of the cell: a line whose fields are written with white
/// space before and after them has the cells of the bare fields.
pub proof fn law_padded_cells(before: Seq<Seq<char>>, fs: Seq<Seq<char>>, after: Seq<Seq<char>>)
    requires
        fs.len() > 0,
        before.len() == fs.len(),
        after.len() == fs.len(),
        forall|i: int| 0 <= i < fs.len() ==> fits_cell(#[trigger] fs[i]),
        forall|i: int, j: int|
            0 <= i < fs.len() && 0 <= j < before[i].len() ==> is_white(#[trigger] before[i][j]),
        forall|i: int, j: int|
            0 <= i < fs.len() && 0 <= j < after[i].len() ==> is_white(#[trigger] after[i][j]),
    ensures
        cells(csv_line(Seq::new(fs.len(), |i: int| before[i] + fs[i] + after[i]))) == fs,
{
    let padded = Seq::new(fs.len(), |i: int| before[i] + fs[i] + after[i]);
    assert forall|i: int| 0 <= i < padded.len() implies !(#[trigger] padded[i]).contains('"') by {
        assert(fits_cell(fs[i]));
        let f = padded[i];
        let b = before[i].len();
        let m = b + fs[i].len();
        if f.contains('"') {
            let k = choose|k: int| 0 <= k < f.len() && f[k] == '"';
            assert(!is_white('"'));
            if k < b {
                assert(is_white(before[i][k]));
            } else if k < m {
                assert(fs[i][k - b] == '"');
            } else {
                assert(is_white(after[i][k - m]));
            }
        }
    }
    lemma_csv_line(padded);
    assert forall|i: int| 0 <= i < fs.len() implies trim(#[trigger] padded[i]) == fs[i] by {
        assert(fits_cell(fs[i]));
        law_trim(before[i], fs[i], after[i]);
    }
    assert(cells(csv_line(padded)) =~= fs);
}

proof fn lemma_field_chars(f: Seq<char>)
    requires
        fits_cell(f),
    ensures
        !csv_field(f).contains('\n'),
        csv_field(f).len() > 0 ==> csv_field(f).last() != '\r',
{
    let q = csv_field(f);
    if q.contains('\n') {
        let i = choose|i: int| 0 <= i < q.len() && q[i] == '\n';
        if f.contains(',') {
            assert(f[i - 1] == '\n');
        } else {
            assert(f[i] == '\n');
        }
    }
}

proof fn lemma_line_chars(fs: Seq<Seq<char>>)
    requires
        fs.len() > 0,
        forall|i: int| 0 <= i < fs.len() ==> fits_cell(#[trigger] fs[i]),
    ensures
        !csv_line(fs).contains('\n'),
        csv_line(fs).len() > 0 ==> csv_line(fs).last() != '\r',
        fs.len() > 1 ==> csv_line(fs).contains(','),
    decreases fs.len(),
{
    assert(fits_cell(fs[fs.len() - 1]));
    lemma_field_chars(fs.last());
    if fs.len() > 1 {
        let front = fs.drop_last();
        assert forall|i: int| 0 <= i < front.len() implies fits_cell(#[trigger] front[i]) by {
            assert(fits_cell(fs[i]));
        }
        lemma_line_chars(front);
        let a = csv_line(front);
        let b = csv_field(fs.last());
        let l = csv_line(fs);
        assert(l[a.len() as int] == ',');
        if l.contains('\n') {
            let i = choose|i: int| 0 <= i < l.len() && l[i] == '\n';
            if i < a.len() {
                assert(a[i] == '\n');
            } else {
                assert(b[i - a.len() - 1] == '\n');
            }
        }
        if b.len() == 0 {
            assert(l.last() == ',');
        } else {
            assert(l.last() == b.last());
        }
    }
}

proof fn lemma_split_lines(ls: Seq<Seq<char>>)
    requires
        forall|i: int| 0 <= i < ls.len() ==> !(#[trigger] ls[i]).contains('\n'),
    ensures
        split(lines_text(ls), '\n') == ls.push(Seq::empty()),
    decreases ls.len(),
{
    let none = Seq::<char>::empty();
    if ls.len() == 0 {
        assert(split(lines_text(ls), '\n') =~= ls.push(none));
    } else {
        let front = ls.drop_last();
        assert(!ls[ls.len() - 1].contains('\n'));
        assert forall|i: int| 0 <= i < front.len() implies !(#[trigger] front[i]).contains('\n') by {
            assert(!ls[i].contains('\n'));
        }
        lemma_split_lines(front);
        let t = lines_text(front);
        lemma_split_on(t, ls.last(), '\n');
        let u = t + ls.last();
        assert(lines_text(ls) =~= u.push('\n'));
        assert(u.push('\n').drop_last() =~= u);
        assert(front.push(none).drop_last() =~= front);
        assert(none + ls.last() =~= ls.last());
        assert(front.push(ls.last()) =~= ls);
        assert(split(lines_text(ls), '\n') =~= ls.push(none));
    }
}

/// Lines are read back as they were written.
pub proof fn law_lines(ls: Seq<Seq<char>>)
    requires
        forall|i: int|
            0 <= i < ls.len() ==> !(#[trigger] ls[i]).contains('\n') && (ls[i].len() > 0 ==> ls[i].last()
                != '\r'),
    ensures
        lines(lines_text(ls)) == ls,
{
    lemma_split_lines(ls);
    let p = ls.push(Seq::<char>::empty());
    assert(p.drop_last() =~= ls);
    let ended = p.drop_last().map_values(|l: Seq<char>| strip_cr(l));
    assert forall|i: int| 0 <= i < ls.len() implies ended[i] == ls[i] by {
        assert(!ls[i].contains('\n'));
    }
    assert(ended =~= ls);
}

proof fn lemma_front_white(s: Seq<char>)
    ensures
        trim_front(Strip::White, s).len() == 0 ==> forall|i: int|
            0 <= i < s.len() ==> is_white(#[trigger] s[i]),
        trim_front(Strip::White, s).len() > 0 ==> !is_white(trim_front(Strip::White, s)[0]),
    decreases s.len(),
{
    if s.len() > 0 && is_white(s[0]) {
        let t = s.drop_first();
        lemma_front_white(t);
        if trim_front(Strip::White, t).len() == 0 {
            assert forall|i: int| 0 <= i < s.len() implies is_white(#[trigger] s[i]) by {
                if i > 0 {
                    assert(is_white(t[i - 1]));
                }
            }
        }
    }
}

proof fn lemma_back_some(s: Seq<char>)
    requires
        s.len() > 0,
        !is_white(s[0]),
    ensures
        trim_back(Strip::White, s).len() > 0,
    decreases s.len(),
{
    if is_white(s.last()) {
        lemma_back_some(s.drop_last());
    }
}

/// Of a text with anything but white space something is left.
proof fn lemma_trim_some(s: Seq<char>, c: char)
    requires
        s.contains(c),
        !is_white(c),
    ensures
        trim(s).len() > 0,
{
    lemma_front_white(s);
    let f = trim_front(Strip::White, s);
    if f.len() == 0 {
        let i = choose|i: int| 0 <= i < s.len() && s[i] == c;
        assert(is_white(s[i]));
    } else {
        lemma_back_some(f);
    }
}

/// The columns stand in the order of `fields`.
pub open spec fn in_order(c: Columns) -> bool {
    c.name == Some(0usize) && c.email == Some(1usize) && c.phone == Some(2usize) && c.company == Some(
        3usize,
    ) && c.notes == Some(4usize)
}

proof fn lemma_rows(cs: Seq<CardView>, c: Columns)
    requires
        forall|i: int| 0 <= i < cs.len() ==> fits_table(#[trigger] cs[i]),
        in_order(c),
    ensures
        contacts_in(Seq::new(cs.len(), |i: int| csv_line(fields(cs[i]))), c) == cs,
    decreases cs.len(),
{
    let rows = Seq::new(cs.len(), |i: int| csv_line(fields(cs[i])));
    if cs.len() == 0 {
        assert(contacts_in(rows, c) =~= cs);
    } else {
        let front = cs.drop_last();
        assert forall|i: int| 0 <= i < front.len() implies fits_table(#[trigger] front[i]) by {
            assert(fits_table(cs[i]));
        }
        lemma_rows(front, c);
        assert(rows.drop_last() =~= Seq::new(front.len(), |i: int| csv_line(fields(front[i]))));
        let one = cs.last();
        assert(fits_table(cs[cs.len() - 1]));
        let fs = fields(one);
        law_csv_line(fs);
        lemma_line_chars(fs);
        lemma_trim_some(csv_line(fs), ',');
        assert(rows.last() == csv_line(fs));
        assert(contact_in(cells(rows.last()), c) =~= one);
        assert(front.push(one) =~= cs);
    }
}

/// A table has the lines that were written into it.
proof fn lemma_lines(hs: Seq<Seq<char>>, cs: Seq<CardView>)
    requires
        hs.len() > 0,
        forall|i: int| 0 <= i < hs.len() ==> fits_cell(#[trigger] hs[i]),
        fit_table(cs),
    ensures
        lines(csv_table(hs, cs)) == csv_lines(hs, cs),
{
    let ls = csv_lines(hs, cs);
    assert forall|i: int| 0 <= i < ls.len() implies !(#[trigger] ls[i]).contains('\n') && (
    ls[i].len() > 0 ==> ls[i].last() != '\r') by {
        if i == 0 {
            lemma_line_chars(hs);
        } else {
            assert(fits_table(cs[i - 1]));
            lemma_line_chars(fields(cs[i - 1]));
        }
    }
    law_lines(ls);
}

/// Contacts that were written into a table whose columns stand in order are read back from it.
proof fn lemma_table(hs: Seq<Seq<char>>, cs: Seq<CardView>, r: Seq<CardView>)
    requires
        hs.len() > 0,
        forall|i: int| 0 <= i < hs.len() ==> fits_cell(#[trigger] hs[i]),
        fit_table(cs),
        forall|c: Columns| columns_of(c, Seq::new(hs.len(), |i: int| lowercase(hs[i]))) ==> in_order(c),
        are_csv_contacts(csv_table(hs, cs), r),
    ensures
        r == cs,
{
    let ls = csv_lines(hs, cs);
    lemma_lines(hs, cs);
    law_csv_line(hs);
    assert(ls.drop_first() =~= Seq::new(cs.len(), |i: int| csv_line(fields(cs[i]))));
    assert(headings(ls[0]) =~= Seq::new(hs.len(), |i: int| lowercase(hs[i])));
    let c = choose|c: Columns|
        columns_of(c, headings(ls[0])) && r == #[trigger] contacts_in(ls.drop_first(), c);
    lemma_rows(cs, c);
}

/// The first column whose heading holds one of the words is found.
proof fn lemma_first_column(hs: Seq<Seq<char>>, ws: Seq<Seq<char>>, k: int)
    requires
        0 <= k < hs.len(),
        heads(hs[k], ws),
        forall|j: int| 0 <= j < k ==> !heads(#[trigger] hs[j], ws),
    ensures
        column(hs, ws) == Some(k),
    decreases hs.len(),
{
    let front = hs.drop_last();
    if k < front.len() {
        assert(front[k] == hs[k]);
        assert forall|j: int| 0 <= j < k implies !heads(#[trigger] front[j], ws) by {
            assert(!heads(hs[j], ws));
        }
        lemma_first_column(front, ws, k);
    } else {
        lemma_no_column(front, ws);
    }
}

/// No column is found where no heading holds one of the words.
proof fn lemma_no_column(hs: Seq<Seq<char>>, ws: Seq<Seq<char>>)
    requires
        forall|j: int| 0 <= j < hs.len() ==> !heads(#[trigger] hs[j], ws),
    ensures
        column(hs, ws) is None,
    decreases hs.len(),
{
    if hs.len() > 0 {
        let front = hs.drop_last();
        assert forall|j: int| 0 <= j < front.len() implies !heads(#[trigger] front[j], ws) by {
            assert(!heads(hs[j], ws));
        }
        assert(!heads(hs[hs.len() - 1], ws));
        lemma_no_column(front, ws);
    }
}

proof fn lemma_whole_word(w: Seq<char>)
    ensures
        has_word(w, w),
{
    assert(w.subrange(0, w.len() as int) =~= w);
    assert(word_at(w, w, 0));
}

/// A word stands in no text that is shorter, and in none without its first two letters in a row.
proof fn lemma_no_word(s: Seq<char>, w: Seq<char>)
    requires
        w.len() >= 2,
        forall|i: int|
            0 <= i && i + w.len() <= s.len() ==> #[trigger] s[i] != w[0] || s[i + 1] != w[1],
    ensures
        !has_word(s, w),
{
    assert forall|i: int| !(#[trigger] word_at(s, w, i)) by {
        if word_at(s, w, i) {
            let t = s.subrange(i, i + w.len());
            assert(t[0] == s[i]);
            assert(t[1] == s[i + 1]);
        }
    }
}

/// A heading in lowercase that stands for the whole name.
pub open spec fn means_name(h: Seq<char>) -> bool {
    has_word(h, "name"@) || has_word(h, "имя"@) || has_word(h, "full"@)
}

/// A heading in lowercase that stands for the first name.
pub open spec fn means_first(h: Seq<char>) -> bool {
    has_word(h, "first"@) || has_word(h, "given"@)
}

/// A heading in lowercase that stands for the family name.
pub open spec fn means_last(h: Seq<char>) -> bool {
    has_word(h, "last"@) || has_word(h, "family"@) || has_word(h, "surname"@)
}

/// A heading in lowercase that stands for the address.
pub open spec fn means_email(h: Seq<char>) -> bool {
    has_word(h, "email"@) || has_word(h, "e-mail"@) || has_word(h, "почта"@)
}

/// A heading in lowercase that stands for the telephone number.
pub open spec fn means_phone(h: Seq<char>) -> bool {
    has_word(h, "phone"@) || has_word(h, "tel"@) || has_word(h, "mobile"@) || has_word(h, "телефон"@)
}

/// A heading in lowercase that stands for the company.
pub open spec fn means_company(h: Seq<char>) -> bool {
    has_word(h, "company"@) || has_word(h, "org"@) || has_word(h, "компания"@)
}

/// A heading in lowercase that stands for notes.
pub open spec fn means_notes(h: Seq<char>) -> bool {
    has_word(h, "note"@) || has_word(h, "заметк"@)
}

proof fn lemma_column_means(hs: Seq<Seq<char>>, ws: Seq<Seq<char>>)
    ensures
        match column(hs, ws) {
            Some(k) => 0 <= k < hs.len() && heads(hs[k], ws) && forall|j: int|
                0 <= j < k ==> !heads(#[trigger] hs[j], ws),
            None => forall|j: int| 0 <= j < hs.len() ==> !heads(#[trigger] hs[j], ws),
        },
    decreases hs.len(),
{
    if hs.len() > 0 {
        let front = hs.drop_last();
        lemma_column_means(front, ws);
        assert forall|j: int| 0 <= j < front.len() implies front[j] == #[trigger] hs[j] by {}
        match column(front, ws) {
            Some(k) => {
                assert(front[k] == hs[k]);
                assert forall|j: int| 0 <= j < k implies !heads(#[trigger] hs[j], ws) by {
                    assert(!heads(front[j], ws));
                }
            },
            None => {
                assert forall|j: int| 0 <= j < front.len() implies !heads(#[trigger] hs[j], ws) by {
                    assert(!heads(front[j], ws));
                }
            },
        }
    }
}

/// A place is that of the first heading with a meaning, and there is none exactly if no heading has it.
pub open spec fn first_with(c: Option<usize>, hs: Seq<Seq<char>>, means: spec_fn(Seq<char>) -> bool) -> bool {
    match c {
        Some(k) => k < hs.len() && means(hs[k as int]) && forall|j: int|
            0 <= j < k ==> !means(#[trigger] hs[j]),
        None => forall|j: int| 0 <= j < hs.len() ==> !means(#[trigger] hs[j]),
    }
}

/// The columns of a table are found by what their headings mean, in English or in Russian; of several
/// with the same meaning the first counts.
pub proof fn law_columns(c: Columns, hs: Seq<Seq<char>>)
    requires
        columns_of(c, hs),
    ensures
        first_with(c.name, hs, |h: Seq<char>| means_name(h)),
        first_with(c.first, hs, |h: Seq<char>| means_first(h)),
        first_with(c.last, hs, |h: Seq<char>| means_last(h)),
        first_with(c.email, hs, |h: Seq<char>| means_email(h)),
        first_with(c.phone, hs, |h: Seq<char>| means_phone(h)),
        first_with(c.company, hs, |h: Seq<char>| means_company(h)),
        first_with(c.notes, hs, |h: Seq<char>| means_notes(h)),
{
    let ws = seq!["name"@, "имя"@, "full"@];
    lemma_column_means(hs, ws);
    assert forall|h: Seq<char>| #[trigger] means_name(h) <==> heads(h, ws) by {
        lemma_heads(h, ws);
        assert(ws[0] == "name"@);
        assert(ws[1] == "имя"@);
        assert(ws[2] == "full"@);
    }
    let ws = seq!["first"@, "given"@];
    lemma_column_means(hs, ws);
    assert forall|h: Seq<char>| #[trigger] means_first(h) <==> heads(h, ws) by {
        lemma_heads(h, ws);
        assert(ws[0] == "first"@);
        assert(ws[1] == "given"@);
    }
    let ws = seq!["last"@, "family"@, "surname"@];
    lemma_column_means(hs, ws);
    assert forall|h: Seq<char>| #[trigger] means_last(h) <==> heads(h, ws) by {
        lemma_heads(h, ws);
        assert(ws[0] == "last"@);
        assert(ws[1] == "family"@);
        assert(ws[2] == "surname"@);
    }
    let ws = seq!["email"@, "e-mail"@, "почта"@];
    lemma_column_means(hs, ws);
    assert forall|h: Seq<char>| #[trigger] means_email(h) <==> heads(h, ws) by {
        lemma_heads(h, ws);
        assert(ws[0] == "email"@);
        assert(ws[1] == "e-mail"@);
        assert(ws[2] == "почта"@);
    }
    let ws = seq!["phone"@, "tel"@, "mobile"@, "телефон"@];
    lemma_column_means(hs, ws);
    assert forall|h: Seq<char>| #[trigger] means_phone(h) <==> heads(h, ws) by {
        lemma_heads(h, ws);
        assert(ws[0] == "phone"@);
        assert(ws[1] == "tel"@);
        assert(ws[2] == "mobile"@);
        assert(ws[3] == "телефон"@);
    }
    let ws = seq!["company"@, "org"@, "компания"@];
    lemma_column_means(hs, ws);
    assert forall|h: Seq<char>| #[trigger] means_company(h) <==> heads(h, ws) by {
        lemma_heads(h, ws);
        assert(ws[0] == "company"@);
        assert(ws[1] == "org"@);
        assert(ws[2] == "компания"@);
    }
    let ws = seq!["note"@, "заметк"@];
    lemma_column_means(hs, ws);
    assert forall|h: Seq<char>| #[trigger] means_notes(h) <==> heads(h, ws) by {
        lemma_heads(h, ws);
        assert(ws[0] == "note"@);
        assert(ws[1] == "заметк"@);
    }
}

proof fn lemma_heads(h: Seq<char>, ws: Seq<Seq<char>>)
    ensures
        heads(h, ws) <==> exists|i: int| 0 <= i < ws.len() && has_word(h, #[trigger] ws[i]),
{
}

#[verifier::spinoff_prover]
#[verifier::rlimit(40)]
proof fn lemma_english_columns(c: Columns)
    requires
        columns_of(
            c,
            seq!["name"@, "email"@, "phone"@, "company"@, "notes"@],
        ),
    ensures
        in_order(c),
{
    let hs = seq!["name"@, "email"@, "phone"@, "company"@, "notes"@];
    assert(column(hs, seq!["name"@, "имя"@, "full"@]) == Some(0int)) by {
        let ws = seq!["name"@, "имя"@, "full"@];
        assert(heads(hs[0], ws)) by {
            reveal_strlit("name");
            assert(hs[0].subrange(0, 4) =~= ws[0]);
            assert(word_at(hs[0], ws[0], 0));
        }
        lemma_first_column(hs, ws, 0);
    }
    assert(column(hs, seq!["email"@, "e-mail"@, "почта"@]) == Some(1int)) by {
        let ws = seq!["email"@, "e-mail"@, "почта"@];
        assert(heads(hs[1], ws)) by {
            reveal_strlit("email");
            assert(hs[1].subrange(0, 5) =~= ws[0]);
            assert(word_at(hs[1], ws[0], 0));
        }
        assert(!heads(hs[0], ws)) by {
            reveal_strlit("name");
            reveal_strlit("email");
            lemma_no_word("name"@, "email"@);
            reveal_strlit("e-mail");
            lemma_no_word("name"@, "e-mail"@);
            reveal_strlit("почта");
            lemma_no_word("name"@, "почта"@);
            assert forall|i: int| 0 <= i < ws.len() implies !has_word(hs[0], #[trigger] ws[i]) by {}
        }
        lemma_first_column(hs, ws, 1);
    }
    assert(column(hs, seq!["phone"@, "tel"@, "mobile"@, "телефон"@]) == Some(2int)) by {
        let ws = seq!["phone"@, "tel"@, "mobile"@, "телефон"@];
        assert(heads(hs[2], ws)) by {
            reveal_strlit("phone");
            assert(hs[2].subrange(0, 5) =~= ws[0]);
            assert(word_at(hs[2], ws[0], 0));
        }
        assert(!heads(hs[0], ws)) by {
            reveal_strlit("name");
            reveal_strlit("phone");
            lemma_no_word("name"@, "phone"@);
            reveal_strlit("tel");
            lemma_no_word("name"@, "tel"@);
            reveal_strlit("mobile");
            lemma_no_word("name"@, "mobile"@);
            reveal_strlit("телефон");
            lemma_no_word("name"@, "телефон"@);
            assert forall|i: int| 0 <= i < ws.len() implies !has_word(hs[0], #[trigger] ws[i]) by {}
        }
        assert(!heads(hs[1], ws)) by {
            reveal_strlit("email");
            reveal_strlit("phone");
            lemma_no_word("email"@, "phone"@);
            reveal_strlit("tel");
            lemma_no_word("email"@, "tel"@);
            reveal_strlit("mobile");
            lemma_no_word("email"@, "mobile"@);
            reveal_strlit("телефон");
            lemma_no_word("email"@, "телефон"@);
            assert forall|i: int| 0 <= i < ws.len() implies !has_word(hs[1], #[trigger] ws[i]) by {}
        }
        lemma_first_column(hs, ws, 2);
    }
    assert(column(hs, seq!["company"@, "org"@, "компания"@]) == Some(3int)) by {
        let ws = seq!["company"@, "org"@, "компания"@];
        assert(heads(hs[3], ws)) by {
            reveal_strlit("company");
            assert(hs[3].subrange(0, 7) =~= ws[0]);
            assert(word_at(hs[3], ws[0], 0));
        }
        assert(!heads(hs[0], ws)) by {
            reveal_strlit("name");
            reveal_strlit("company");
            lemma_no_word("name"@, "company"@);
            reveal_strlit("org");
            lemma_no_word("name"@, "org"@);
            reveal_strlit("компания");
            lemma_no_word("name"@, "компания"@);
            assert forall|i: int| 0 <= i < ws.len() implies !has_word(hs[0], #[trigger] ws[i]) by {}
        }
        assert(!heads(hs[1], ws)) by {
            reveal_strlit("email");
            reveal_strlit("company");
            lemma_no_word("email"@, "company"@);
            reveal_strlit("org");
            lemma_no_word("email"@, "org"@);
            reveal_strlit("компания");
            lemma_no_word("email"@, "компания"@);
            assert forall|i: int| 0 <= i < ws.len() implies !has_word(hs[1], #[trigger] ws[i]) by {}
        }
        assert(!heads(hs[2], ws)) by {
            reveal_strlit("phone");
            reveal_strlit("company");
            lemma_no_word("phone"@, "company"@);
            reveal_strlit("org");
            lemma_no_word("phone"@, "org"@);
            reveal_strlit("компания");
            lemma_no_word("phone"@, "компания"@);
            assert forall|i: int| 0 <= i < ws.len() implies !has_word(hs[2], #[trigger] ws[i]) by {}
        }
        lemma_first_column(hs, ws, 3);
    }
    assert(column(hs, seq!["note"@, "заметк"@]) == Some(4int)) by {
        let ws = seq!["note"@, "заметк"@];
        assert(heads(hs[4], ws)) by {
            reveal_strlit("notes");
            reveal_strlit("note");
            assert(hs[4].subrange(0, 4) =~= ws[0]);
            assert(word_at(hs[4], ws[0], 0));
        }
        assert(!heads(hs[0], ws)) by {
            reveal_strlit("name");
            reveal_strlit("note");
            lemma_no_word("name"@, "note"@);
            reveal_strlit("заметк");
            lemma_no_word("name"@, "заметк"@);
            assert forall|i: int| 0 <= i < ws.len() implies !has_word(hs[0], #[trigger] ws[i]) by {}
        }
        assert(!heads(hs[1], ws)) by {
            reveal_strlit("email");
            reveal_strlit("note");
            lemma_no_word("email"@, "note"@);
            reveal_strlit("заметк");
            lemma_no_word("email"@, "заметк"@);
            assert forall|i: int| 0 <= i < ws.len() implies !has_word(hs[1], #[trigger] ws[i]) by {}
        }
        assert(!heads(hs[2], ws)) by {
            reveal_strlit("phone");
            reveal_strlit("note");
            lemma_no_word("phone"@, "note"@);
            reveal_strlit("заметк");
            lemma_no_word("phone"@, "заметк"@);
            assert forall|i: int| 0 <= i < ws.len() implies !has_word(hs[2], #[trigger] ws[i]) by {}
        }
        assert(!heads(hs[3], ws)) by {
            reveal_strlit("company");
            reveal_strlit("note");
            lemma_no_word("company"@, "note"@);
            reveal_strlit("заметк");
            lemma_no_word("company"@, "заметк"@);
            assert forall|i: int| 0 <= i < ws.len() implies !has_word(hs[3], #[trigger] ws[i]) by {}
        }
        lemma_first_column(hs, ws, 4);
    }
}

/// The headings of a table under English headings are these.
pub proof fn lemma_english_first(cs: Seq<CardView>)
    requires
        fit_table(cs),
    ensures
        lines(csv_table(english_headings(), cs)).len() > 0,
        cells(lines(csv_table(english_headings(), cs))[0]) == english_headings(),
{
    reveal_strlit("Name");
    reveal_strlit("Email");
    reveal_strlit("Phone");
    reveal_strlit("Company");
    reveal_strlit("Notes");
    let hs = english_headings();
    assert forall|i: int| 0 <= i < hs.len() implies fits_cell(#[trigger] hs[i]) by {
        assert(i == 0 || i == 1 || i == 2 || i == 3 || i == 4);
    }
    lemma_lines(hs, cs);
    law_csv_line(hs);
}

/// Contacts that are written into a table under English headings are read back as they were,
/// all of them, in their order and with all that is known of each. The small letters that the headings
/// have are given, for the mapping of letters is that of `lowercase`.
pub proof fn law_english_table(cs: Seq<CardView>, r: Seq<CardView>)
    requires
        lowercase("Name"@) == "name"@,
        lowercase("Email"@) == "email"@,
        lowercase("Phone"@) == "phone"@,
        lowercase("Company"@) == "company"@,
        lowercase("Notes"@) == "notes"@,
        fit_table(cs),
        are_csv_contacts(csv_table(english_headings(), cs), r),
    ensures
        r == cs,
        csv_line(english_headings()) == "Name,Email,Phone,Company,Notes"@,
{
    reveal_strlit("Name");
    reveal_strlit("Email");
    reveal_strlit("Phone");
    reveal_strlit("Company");
    reveal_strlit("Notes");
    reveal_strlit("Name,Email,Phone,Company,Notes");
    let hs = english_headings();
    let low = Seq::new(hs.len(), |i: int| lowercase(hs[i]));
    assert(low =~= seq!["name"@, "email"@, "phone"@, "company"@, "notes"@]);
    assert forall|i: int| 0 <= i < hs.len() implies fits_cell(#[trigger] hs[i]) && !hs[i].contains(',') by {
        assert(i == 0 || i == 1 || i == 2 || i == 3 || i == 4);
    }
    assert forall|c: Columns| columns_of(c, low) implies in_order(c) by {
        lemma_english_columns(c);
    }
    lemma_table(hs, cs, r);
    reveal_with_fuel(csv_line, 6);
    assert(hs.drop_last() =~= seq!["Name"@, "Email"@, "Phone"@, "Company"@]);
    assert(hs.drop_last().drop_last() =~= seq!["Name"@, "Email"@, "Phone"@]);
    assert(hs.drop_last().drop_last().drop_last() =~= seq!["Name"@, "Email"@]);
    assert(hs.drop_last().drop_last().drop_last().drop_last() =~= seq!["Name"@]);
    assert(csv_line(hs) =~= "Name,Email,Phone,Company,Notes"@);
}

#[verifier::spinoff_prover]
#[verifier::rlimit(60)]
proof fn lemma_russian_columns(c: Columns)
    requires
        columns_of(
            c,
            seq!["имя"@, "почта"@, "телефон"@, "компания"@, "заметки"@],
        ),
    ensures
        in_order(c),
{
    let hs = seq!["имя"@, "почта"@, "телефон"@, "компания"@, "заметки"@];
    assert(column(hs, seq!["name"@, "имя"@, "full"@]) == Some(0int)) by {
        let ws = seq!["name"@, "имя"@, "full"@];
        assert(heads(hs[0], ws)) by {
            reveal_strlit("имя");
            assert(hs[0].subrange(0, 3) =~= ws[1]);
            assert(word_at(hs[0], ws[1], 0));
        }
        lemma_first_column(hs, ws, 0);
    }
    assert(column(hs, seq!["email"@, "e-mail"@, "почта"@]) == Some(1int)) by {
        let ws = seq!["email"@, "e-mail"@, "почта"@];
        assert(heads(hs[1], ws)) by {
            reveal_strlit("почта");
            assert(hs[1].subrange(0, 5) =~= ws[2]);
            assert(word_at(hs[1], ws[2], 0));
        }
        assert(!heads(hs[0], ws)) by {
            reveal_strlit("имя");
            reveal_strlit("email");
            lemma_no_word("имя"@, "email"@);
            reveal_strlit("e-mail");
            lemma_no_word("имя"@, "e-mail"@);
            reveal_strlit("почта");
            lemma_no_word("имя"@, "почта"@);
            assert forall|i: int| 0 <= i < ws.len() implies !has_word(hs[0], #[trigger] ws[i]) by {}
        }
        lemma_first_column(hs, ws, 1);
    }
    assert(column(hs, seq!["phone"@, "tel"@, "mobile"@, "телефон"@]) == Some(2int)) by {
        let ws = seq!["phone"@, "tel"@, "mobile"@, "телефон"@];
        assert(heads(hs[2], ws)) by {
            reveal_strlit("телефон");
            assert(hs[2].subrange(0, 7) =~= ws[3]);
            assert(word_at(hs[2], ws[3], 0));
        }
        assert(!heads(hs[0], ws)) by {
            reveal_strlit("имя");
            reveal_strlit("phone");
            lemma_no_word("имя"@, "phone"@);
            reveal_strlit("tel");
            lemma_no_word("имя"@, "tel"@);
            reveal_strlit("mobile");
            lemma_no_word("имя"@, "mobile"@);
            reveal_strlit("телефон");
            lemma_no_word("имя"@, "телефон"@);
            assert forall|i: int| 0 <= i < ws.len() implies !has_word(hs[0], #[trigger] ws[i]) by {}
        }
        assert(!heads(hs[1], ws)) by {
            reveal_strlit("почта");
            reveal_strlit("phone");
            lemma_no_word("почта"@, "phone"@);
            reveal_strlit("tel");
            lemma_no_word("почта"@, "tel"@);
            reveal_strlit("mobile");
            lemma_no_word("почта"@, "mobile"@);
            reveal_strlit("телефон");
            lemma_no_word("почта"@, "телефон"@);
            assert forall|i: int| 0 <= i < ws.len() implies !has_word(hs[1], #[trigger] ws[i]) by {}
        }
        lemma_first_column(hs, ws, 2);
    }
    assert(column(hs, seq!["company"@, "org"@, "компания"@]) == Some(3int)) by {
        let ws = seq!["company"@, "org"@, "компания"@];
        assert(heads(hs[3], ws)) by {
            reveal_strlit("компания");
            assert(hs[3].subrange(0, 8) =~= ws[2]);
            assert(word_at(hs[3], ws[2], 0));
        }
        assert(!heads(hs[0], ws)) by {
            reveal_strlit("имя");
            reveal_strlit("company");
            lemma_no_word("имя"@, "company"@);
            reveal_strlit("org");
            lemma_no_word("имя"@, "org"@);
            reveal_strlit("компания");
            lemma_no_word("имя"@, "компания"@);
            assert forall|i: int| 0 <= i < ws.len() implies !has_word(hs[0], #[trigger] ws[i]) by {}
        }
        assert(!heads(hs[1], ws)) by {
            reveal_strlit("почта");
            reveal_strlit("company");
            lemma_no_word("почта"@, "company"@);
            reveal_strlit("org");
            lemma_no_word("почта"@, "org"@);
            reveal_strlit("компания");
            lemma_no_word("почта"@, "компания"@);
            assert forall|i: int| 0 <= i < ws.len() implies !has_word(hs[1], #[trigger] ws[i]) by {}
        }
        assert(!heads(hs[2], ws)) by {
            reveal_strlit("телефон");
            reveal_strlit("company");
            lemma_no_word("телефон"@, "company"@);
            reveal_strlit("org");
            lemma_no_word("телефон"@, "org"@);
            reveal_strlit("компания");
            lemma_no_word("телефон"@, "компания"@);
            assert forall|i: int| 0 <= i < ws.len() implies !has_word(hs[2], #[trigger] ws[i]) by {}
        }
        lemma_first_column(hs, ws, 3);
    }
    assert(column(hs, seq!["note"@, "заметк"@]) == Some(4int)) by {
        let ws = seq!["note"@, "заметк"@];
        assert(heads(hs[4], ws)) by {
            reveal_strlit("заметки");
            reveal_strlit("заметк");
            assert(hs[4].subrange(0, 6) =~= ws[1]);
            assert(word_at(hs[4], ws[1], 0));
        }
        assert(!heads(hs[0], ws)) by {
            reveal_strlit("имя");
            reveal_strlit("note");
            lemma_no_word("имя"@, "note"@);
            reveal_strlit("заметк");
            lemma_no_word("имя"@, "заметк"@);
            assert forall|i: int| 0 <= i < ws.len() implies !has_word(hs[0], #[trigger] ws[i]) by {}
        }
        assert(!heads(hs[1], ws)) by {
            reveal_strlit("почта");
            reveal_strlit("note");
            lemma_no_word("почта"@, "note"@);
            reveal_strlit("заметк");
            lemma_no_word("почта"@, "заметк"@);
            assert forall|i: int| 0 <= i < ws.len() implies !has_word(hs[1], #[trigger] ws[i]) by {}
        }
        assert(!heads(hs[2], ws)) by {
            reveal_strlit("телефон");
            reveal_strlit("note");
            lemma_no_word("телефон"@, "note"@);
            reveal_strlit("заметк");
            lemma_no_word("телефон"@, "заметк"@);
            assert forall|i: int| 0 <= i < ws.len() implies !has_word(hs[2], #[trigger] ws[i]) by {}
        }
        assert(!heads(hs[3], ws)) by {
            reveal_strlit("компания");
            reveal_strlit("note");
            lemma_no_word("компания"@, "note"@);
            reveal_strlit("заметк");
            lemma_no_word("компания"@, "заметк"@);
            assert forall|i: int| 0 <= i < ws.len() implies !has_word(hs[3], #[trigger] ws[i]) by {}
        }
        lemma_first_column(hs, ws, 4);
    }
}

/// Contacts that are written into a table under Russian headings are read back as they were,
/// all of them, in their order and with all that is known of each. The small letters that the headings
/// have are given, for the mapping of letters is that of `lowercase`.
pub proof fn law_russian_table(cs: Seq<CardView>, r: Seq<CardView>)
    requires
        lowercase("Имя"@) == "имя"@,
        lowercase("Почта"@) == "почта"@,
        lowercase("Телефон"@) == "телефон"@,
        lowercase("Компания"@) == "компания"@,
        lowercase("Заметки"@) == "заметки"@,
        fit_table(cs),
        are_csv_contacts(csv_table(russian_headings(), cs), r),
    ensures
        r == cs,
        csv_line(russian_headings()) == "Имя,Почта,Телефон,Компания,Заметки"@,
{
    reveal_strlit("Имя");
    reveal_strlit("Почта");
    reveal_strlit("Телефон");
    reveal_strlit("Компания");
    reveal_strlit("Заметки");
    reveal_strlit("Имя,Почта,Телефон,Компания,Заметки");
    let hs = russian_headings();
    let low = Seq::new(hs.len(), |i: int| lowercase(hs[i]));
    assert(low =~= seq!["имя"@, "почта"@, "телефон"@, "компания"@, "заметки"@]);
    assert forall|i: int| 0 <= i < hs.len() implies fits_cell(#[trigger] hs[i]) && !hs[i].contains(',') by {
        assert(i == 0 || i == 1 || i == 2 || i == 3 || i == 4);
    }
    assert forall|c: Columns| columns_of(c, low) implies in_order(c) by {
        lemma_russian_columns(c);
    }
    lemma_table(hs, cs, r);
    reveal_with_fuel(csv_line, 6);
    assert(hs.drop_last() =~= seq!["Имя"@, "Почта"@, "Телефон"@, "Компания"@]);
    assert(hs.drop_last().drop_last() =~= seq!["Имя"@, "Почта"@, "Телефон"@]);
    assert(hs.drop_last().drop_last().drop_last() =~= seq!["Имя"@, "Почта"@]);
    assert(hs.drop_last().drop_last().drop_last().drop_last() =~= seq!["Имя"@]);
    assert(csv_line(hs) =~= "Имя,Почта,Телефон,Компания,Заметки"@);
}

// ---------------------------------------------------------------------------------------------
// Cards
// ---------------------------------------------------------------------------------------------

/// A text that a line of a card can hold.
pub open spec fn fits_line(f: Seq<char>) -> bool {
    !f.contains('\n') && ends_clean(f)
}

/// A contact that can be written as a card.
pub open spec fn fits_card(c: CardView) -> bool {
    &&& worth_keeping(c)
    &&& fits_line(c.name)
    &&& fits_line(c.email)
    &&& fits_line(c.phone)
    &&& fits_line(c.company) && !c.company.contains(';')
    &&& fits_line(c.notes)
}

/// The lines of a card.
pub open spec fn card_lines(c: CardView) -> Seq<Seq<char>> {
    seq![
        "BEGIN:VCARD"@,
        "FN:"@ + c.name,
        "EMAIL:"@ + c.email,
        "TEL:"@ + c.phone,
        "ORG:"@ + c.company,
        "NOTE:"@ + c.notes,
        "END:VCARD"@,
    ]
}

/// The lines of several cards.
pub open spec fn cards_lines(cs: Seq<CardView>) -> Seq<Seq<char>>
    decreases cs.len(),
{
    if cs.len() == 0 {
        Seq::empty()
    } else {
        cards_lines(cs.drop_last()) + card_lines(cs.last())
    }
}

proof fn lemma_card_step(ls: Seq<Seq<char>>, line: Seq<char>, c: CardView)
    requires
        ends_clean(line),
        !begins_card(line),
        !ends_card(line),
        open_card(ls) == Some(c),
    ensures
        open_card(ls.push(line)) == Some(with_line(c, line)),
        closed_cards(ls.push(line)) == closed_cards(ls),
{
    assert(ls.push(line).drop_last() =~= ls);
    lemma_trim_fixed(line);
}

/// Two texts with other letters in a place are other texts, whatever the case of the letters.
proof fn lemma_other_letters(a: Seq<char>, b: Seq<char>, i: int)
    requires
        0 <= i < a.len(),
        i < b.len(),
        ascii_lower_char(a[i]) != ascii_lower_char(b[i]),
    ensures
        ascii_lower(a) != ascii_lower(b),
{
    assert(ascii_lower(a)[i] == ascii_lower_char(a[i]));
    assert(ascii_lower(b)[i] == ascii_lower_char(b[i]));
}

proof fn lemma_after_mark(mark: Seq<char>, value: Seq<char>)
    requires
        mark.len() > 0,
        !is_white(mark[0]),
        !is_white(mark.last()),
        fits_line(value),
        !mark.contains('\n'),
    ensures
        ends_clean(mark + value),
        (mark + value).skip(mark.len() as int) == value,
        trim(value) == value,
        (mark + value).take(mark.len() as int) == mark,
        !(mark + value).contains('\n'),
        (mark + value).last() != '\r',
{
    lemma_trim_fixed(value);
    let l = mark + value;
    assert(l.skip(mark.len() as int) =~= value);
    assert(l.take(mark.len() as int) =~= mark);
    if value.len() > 0 {
        assert(l.last() == value.last());
    } else {
        assert(l.last() == mark.last());
    }
    if l.contains('\n') {
        let i = choose|i: int| 0 <= i < l.len() && l[i] == '\n';
        if i < mark.len() {
            assert(mark[i] == '\n');
        } else {
            assert(value[i - mark.len()] == '\n');
        }
    }
}

/// A text without the separator is one piece.
pub proof fn lemma_no_sep(s: Seq<char>, sep: char)
    requires
        !s.contains(sep),
    ensures
        split(s, sep) == seq![s],
    decreases s.len(),
{
    if s.len() > 0 {
        let t = s.drop_last();
        assert(s[s.len() - 1] == s.last());
        if t.contains(sep) {
            let i = choose|i: int| 0 <= i < t.len() && t[i] == sep;
            assert(s[i] == sep);
        }
        lemma_no_sep(t, sep);
        assert(t.push(s.last()) =~= s);
        assert(split(s, sep) =~= seq![s]);
    } else {
        assert(s =~= Seq::<char>::empty());
    }
}

/// What a line `FN:` of a card says is the name, unless one is known.
pub proof fn law_name_line(c: CardView, value: Seq<char>)
    requires
        fits_line(value),
    ensures
        with_line(c, "FN:"@ + value) == (CardView {
            name: if c.name.len() == 0 {
                value
            } else {
                c.name
            },
            ..c
        }),
        !begins_card("FN:"@ + value),
        !ends_card("FN:"@ + value),
{
    reveal_strlit("FN:");
    reveal_strlit("BEGIN:VCARD");
    reveal_strlit("END:VCARD");
    lemma_after_mark("FN:"@, value);
    let l = "FN:"@ + value;
    lemma_other_letters(l, "BEGIN:VCARD"@, 0);
    lemma_other_letters(l, "END:VCARD"@, 0);
}

/// What a line `EMAIL` of a card says behind its first colon is the address, unless one is known.
pub proof fn law_email_line(c: CardView, kind: Seq<char>, value: Seq<char>)
    requires
        fits_line(value),
        !kind.contains(':'),
    ensures
        with_line(c, "EMAIL"@ + kind + ":"@ + value) == (CardView {
            email: if c.email.len() == 0 {
                value
            } else {
                c.email
            },
            ..c
        }),
        !begins_card("EMAIL"@ + kind + ":"@ + value),
        !ends_card("EMAIL"@ + kind + ":"@ + value),
{
    reveal_strlit("EMAIL");
    reveal_strlit("FN:");
    reveal_strlit("N:");
    reveal_strlit(":");
    reveal_strlit("BEGIN:VCARD");
    reveal_strlit("END:VCARD");
    let l = "EMAIL"@ + kind + ":"@ + value;
    lemma_trim_fixed(value);
    lemma_first_index(l, ':');
    let n = 5int + kind.len();
    assert(l[n] == ':');
    assert forall|j: int| 0 <= j < n implies l[j] != ':' by {
        if j >= 5 {
            assert(l[j] == kind[j - 5]);
        }
    }
    assert(first_index(l, ':') == Some(n));
    assert(l.skip(n + 1) =~= value);
    assert(l.take(5) =~= "EMAIL"@);
    assert(l.take(3)[0] == 'E');
    assert(l.take(2)[0] == 'E');
    lemma_other_letters(l, "BEGIN:VCARD"@, 0);
    lemma_other_letters(l, "END:VCARD"@, 1);
}

/// What a line `TEL` of a card says behind its first colon is the telephone number, unless one is
/// known.
pub proof fn law_phone_line(c: CardView, kind: Seq<char>, value: Seq<char>)
    requires
        fits_line(value),
        !kind.contains(':'),
    ensures
        with_line(c, "TEL"@ + kind + ":"@ + value) == (CardView {
            phone: if c.phone.len() == 0 {
                value
            } else {
                c.phone
            },
            ..c
        }),
        !begins_card("TEL"@ + kind + ":"@ + value),
        !ends_card("TEL"@ + kind + ":"@ + value),
{
    reveal_strlit("TEL");
    reveal_strlit("EMAIL");
    reveal_strlit("FN:");
    reveal_strlit("N:");
    reveal_strlit(":");
    reveal_strlit("BEGIN:VCARD");
    reveal_strlit("END:VCARD");
    let l = "TEL"@ + kind + ":"@ + value;
    lemma_trim_fixed(value);
    lemma_first_index(l, ':');
    let n = 3int + kind.len();
    assert(l[n] == ':');
    assert forall|j: int| 0 <= j < n implies l[j] != ':' by {
        if j >= 3 {
            assert(l[j] == kind[j - 3]);
        }
    }
    assert(first_index(l, ':') == Some(n));
    assert(l.skip(n + 1) =~= value);
    assert(l.take(3) =~= "TEL"@);
    assert(l.take(3)[0] == 'T');
    assert(l.take(2)[0] == 'T');
    assert(l.len() >= 5 ==> l.take(5)[0] == 'T');
    lemma_other_letters(l, "BEGIN:VCARD"@, 0);
    lemma_other_letters(l, "END:VCARD"@, 0);
}

/// What a line `ORG:` of a card says is the company, unless one is known.
pub proof fn law_company_line(c: CardView, value: Seq<char>)
    requires
        fits_line(value),
        !value.contains(';'),
    ensures
        with_line(c, "ORG:"@ + value) == (CardView {
            company: if c.company.len() == 0 {
                value
            } else {
                c.company
            },
            ..c
        }),
        !begins_card("ORG:"@ + value),
        !ends_card("ORG:"@ + value),
{
    reveal_strlit("ORG:");
    reveal_strlit("TEL");
    reveal_strlit("EMAIL");
    reveal_strlit("FN:");
    reveal_strlit("N:");
    reveal_strlit("BEGIN:VCARD");
    reveal_strlit("END:VCARD");
    lemma_after_mark("ORG:"@, value);
    lemma_no_sep(value, ';');
    let l = "ORG:"@ + value;
    assert(l.take(3)[0] == 'O');
    assert(l.take(2)[0] == 'O');
    assert(l.len() >= 5 ==> l.take(5)[0] == 'O');
    lemma_other_letters(l, "BEGIN:VCARD"@, 0);
    lemma_other_letters(l, "END:VCARD"@, 0);
}

/// What a line `NOTE:` of a card says are the notes, unless some are known.
pub proof fn law_notes_line(c: CardView, value: Seq<char>)
    requires
        fits_line(value),
    ensures
        with_line(c, "NOTE:"@ + value) == (CardView {
            notes: if c.notes.len() == 0 {
                value
            } else {
                c.notes
            },
            ..c
        }),
        !begins_card("NOTE:"@ + value),
        !ends_card("NOTE:"@ + value),
{
    reveal_strlit("NOTE:");
    reveal_strlit("ORG:");
    reveal_strlit("TEL");
    reveal_strlit("EMAIL");
    reveal_strlit("FN:");
    reveal_strlit("N:");
    reveal_strlit("BEGIN:VCARD");
    reveal_strlit("END:VCARD");
    lemma_after_mark("NOTE:"@, value);
    let l = "NOTE:"@ + value;
    assert(l.take(3)[0] == 'N');
    assert(l.take(2)[1] == 'O');
    assert(l.take(5)[0] == 'N');
    assert(l.take(4)[0] == 'N');
    lemma_other_letters(l, "BEGIN:VCARD"@, 0);
    lemma_other_letters(l, "END:VCARD"@, 0);
}

/// A name that a card gives in parts, `N:family;given`, is put together with the given name first, if
/// no other name is known.
pub proof fn law_structured_name(c: CardView, family: Seq<char>, given: Seq<char>)
    requires
        c.name.len() == 0,
        fits_line(family) && family.len() > 0 && !family.contains(';'),
        fits_line(given) && given.len() > 0 && !given.contains(';'),
    ensures
        with_line(c, "N:"@ + family + ";"@ + given) == (CardView { name: given + " "@ + family, ..c }),
{
    reveal_strlit("FN:");
    reveal_strlit("N:");
    reveal_strlit(";");
    reveal_strlit(" ");
    let l = "N:"@ + family + ";"@ + given;
    let value = family + ";"@ + given;
    assert(l.take(2) =~= "N:"@);
    assert(l.take(3)[0] == 'N');
    assert(l.skip(2) =~= value);
    lemma_no_sep(family, ';');
    lemma_no_sep(given, ';');
    let a = family.push(';');
    assert(a.drop_last() =~= family);
    assert(split(a, ';') =~= seq![family, Seq::empty()]);
    assert(value =~= a + given);
    lemma_split_on(a, given, ';');
    assert(Seq::<char>::empty() + given =~= given);
    assert(split(value, ';') =~= seq![family, given]);
    lemma_trim_fixed(family);
    lemma_trim_fixed(given);
    let name = given + " "@ + family;
    assert(name[0] == given[0]);
    assert(name.last() == family.last());
    lemma_trim_fixed(name);
}

/// A text without the separator that follows another belongs to its last piece.
pub proof fn lemma_split_on(s: Seq<char>, f: Seq<char>, sep: char)
    requires
        !f.contains(sep),
    ensures
        split(s, sep).len() > 0,
        split(s + f, sep) == split(s, sep).drop_last().push(split(s, sep).last() + f),
    decreases f.len(),
{
    lemma_split_some(s, sep);
    let p = split(s, sep);
    if f.len() == 0 {
        assert(s + f =~= s);
        assert(p.last() + f =~= p.last());
        assert(p.drop_last().push(p.last()) =~= p);
    } else {
        let g = f.drop_last();
        assert(f[f.len() - 1] == f.last());
        if g.contains(sep) {
            let i = choose|i: int| 0 <= i < g.len() && g[i] == sep;
            assert(f[i] == sep);
        }
        lemma_split_on(s, g, sep);
        assert((s + f).drop_last() =~= s + g);
        let q = split(s + g, sep);
        assert(q.drop_last() =~= p.drop_last());
        assert(q.last().push(f.last()) =~= p.last() + f);
    }
}

/// A card that follows other lines is read as it was written.
proof fn lemma_one_card(ls: Seq<Seq<char>>, c: CardView)
    requires
        fits_card(c),
        open_card(ls) is None,
    ensures
        open_card(ls + card_lines(c)) is None,
        closed_cards(ls + card_lines(c)) == closed_cards(ls).push(c),
{
    reveal_strlit("BEGIN:VCARD");
    reveal_strlit("END:VCARD");
    reveal_strlit("FN:");
    reveal_strlit("EMAIL:");
    reveal_strlit("EMAIL");
    reveal_strlit("TEL:");
    reveal_strlit("TEL");
    reveal_strlit("ORG:");
    reveal_strlit("NOTE:");
    reveal_strlit(":");
    let begin = "BEGIN:VCARD"@;
    let end = "END:VCARD"@;
    lemma_trim_fixed(begin);
    lemma_trim_fixed(end);
    lemma_other_letters(end, begin, 0);
    let none = Seq::<char>::empty();
    let l1 = ls.push(begin);
    assert(l1.drop_last() =~= ls);
    assert(open_card(l1) == Some(blank_card()));
    assert(closed_cards(l1) == closed_cards(ls));
    lemma_after_mark("FN:"@, c.name);
    let c1 = CardView { name: c.name, ..blank_card() };
    law_name_line(blank_card(), c.name);
    let l2 = l1.push("FN:"@ + c.name);
    lemma_card_step(l1, "FN:"@ + c.name, blank_card());
    assert("EMAIL:"@ + c.email =~= "EMAIL"@ + none + ":"@ + c.email);
    lemma_after_mark("EMAIL:"@, c.email);
    let c2 = CardView { email: c.email, ..c1 };
    law_email_line(c1, none, c.email);
    let l3 = l2.push("EMAIL:"@ + c.email);
    lemma_card_step(l2, "EMAIL:"@ + c.email, c1);
    assert("TEL:"@ + c.phone =~= "TEL"@ + none + ":"@ + c.phone);
    lemma_after_mark("TEL:"@, c.phone);
    let c3 = CardView { phone: c.phone, ..c2 };
    law_phone_line(c2, none, c.phone);
    let l4 = l3.push("TEL:"@ + c.phone);
    lemma_card_step(l3, "TEL:"@ + c.phone, c2);
    lemma_after_mark("ORG:"@, c.company);
    let c4 = CardView { company: c.company, ..c3 };
    law_company_line(c3, c.company);
    let l5 = l4.push("ORG:"@ + c.company);
    lemma_card_step(l4, "ORG:"@ + c.company, c3);
    lemma_after_mark("NOTE:"@, c.notes);
    law_notes_line(c4, c.notes);
    let l6 = l5.push("NOTE:"@ + c.notes);
    lemma_card_step(l5, "NOTE:"@ + c.notes, c4);
    assert(open_card(l6) == Some(c));
    let l7 = l6.push(end);
    assert(l7.drop_last() =~= l6);
    assert(ls + card_lines(c) =~= l7);
}

proof fn lemma_all_cards(cs: Seq<CardView>)
    requires
        forall|i: int| 0 <= i < cs.len() ==> fits_card(#[trigger] cs[i]),
    ensures
        open_card(cards_lines(cs)) is None,
        closed_cards(cards_lines(cs)) == cs,
        forall|i: int|
            0 <= i < cards_lines(cs).len() ==> !(#[trigger] cards_lines(cs)[i]).contains('\n')
                && cards_lines(cs)[i].len() > 0 && cards_lines(cs)[i].last() != '\r',
    decreases cs.len(),
{
    if cs.len() == 0 {
        assert(closed_cards(cards_lines(cs)) =~= cs);
    } else {
        let front = cs.drop_last();
        let c = cs.last();
        assert(fits_card(cs[cs.len() - 1]));
        assert forall|i: int| 0 <= i < front.len() implies fits_card(#[trigger] front[i]) by {
            assert(fits_card(cs[i]));
        }
        lemma_all_cards(front);
        lemma_one_card(cards_lines(front), c);
        assert(front.push(c) =~= cs);
        let ls = cards_lines(cs);
        let n = cards_lines(front).len() as int;
        assert forall|i: int| 0 <= i < ls.len() implies !(#[trigger] ls[i]).contains('\n')
            && ls[i].len() > 0 && ls[i].last() != '\r' by {
            if i < n {
                assert(ls[i] == cards_lines(front)[i]);
            } else {
                reveal_strlit("BEGIN:VCARD");
                reveal_strlit("END:VCARD");
                reveal_strlit("FN:");
                reveal_strlit("EMAIL:");
                reveal_strlit("TEL:");
                reveal_strlit("ORG:");
                reveal_strlit("NOTE:");
                lemma_after_mark("FN:"@, c.name);
                lemma_after_mark("EMAIL:"@, c.email);
                lemma_after_mark("TEL:"@, c.phone);
                lemma_after_mark("ORG:"@, c.company);
                lemma_after_mark("NOTE:"@, c.notes);
                assert(ls[i] == card_lines(c)[i - n]);
                let k = i - n;
                assert(k == 0 || k == 1 || k == 2 || k == 3 || k == 4 || k == 5 || k == 6);
            }
        }
    }
}

/// Contacts that are written as cards are read back as they were, all of them, in their order and with
/// all that is known of each.
pub proof fn law_cards_read_back(cs: Seq<CardView>)
    requires
        forall|i: int| 0 <= i < cs.len() ==> fits_card(#[trigger] cs[i]),
    ensures
        vcf_contacts(lines_text(cards_lines(cs))) == cs,
{
    lemma_all_cards(cs);
    law_lines(cards_lines(cs));
}

} // verus!
