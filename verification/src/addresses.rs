//! Addresses as people write them: `Name <user@host>` and lists of such.
use vstd::prelude::*;
use vstd::slice::slice_subrange;

use crate::statements::maybe;
use crate::text::{
    ascii_lower, ascii_lower_char, char_views, find_char, first_index, from_chars, is_ascii_text,
    is_white, join2, last_index, lemma_first_index, lemma_trim, lemma_trim_fixed, lowercase,
    rfind_char, to_chars, to_lowercase, trim, trim_back, trim_front, trimmed, trimmed_back,
    trimmed_both, unquoted, white, Strip,
};

verus! {

// ---------------------------------------------------------------------------------------------
// Quotation marks
// ---------------------------------------------------------------------------------------------

/// A word begins after a text.
pub open spec fn word_begins(s: Seq<char>) -> bool {
    s.len() == 0 || is_white(s.last()) || s.last() == ','
}

/// A quotation is open at the end of a text: a quotation mark opens one where a word begins, and the
/// next mark closes it.
pub open spec fn quote_open(s: Seq<char>) -> bool
    decreases s.len(),
{
    if s.len() == 0 {
        false
    } else if s.last() == '"' {
        !quote_open(s.drop_last()) && word_begins(s.drop_last())
    } else {
        quote_open(s.drop_last())
    }
}

/// A text goes on to a `<` before it comes to a comma.
pub open spec fn leads_to_bracket(s: Seq<char>) -> bool
    decreases s.len(),
{
    s.len() > 0 && (s[0] == '<' || (s[0] != ',' && leads_to_bracket(s.drop_first())))
}

/// The next quotation mark of a text ends a name: what follows it leads to an address in angle
/// brackets.
pub open spec fn name_ends(s: Seq<char>) -> bool
    decreases s.len(),
{
    s.len() > 0 && if s[0] == '"' {
        leads_to_bracket(s.drop_first())
    } else {
        name_ends(s.drop_first())
    }
}

/// The character at a position stands in a name in quotation marks. Quotation marks that are not put
/// around a name, before an address in angle brackets, quote nothing.
pub open spec fn in_quotes(s: Seq<char>, i: int) -> bool {
    quote_open(s.take(i)) && name_ends(s.skip(i))
}

/// A text with quotation marks in the place of everything that stands in a name in quotation marks,
/// so that what is left of its commas and angle brackets are those that separate its parts.
pub open spec fn outside_quotes(s: Seq<char>) -> Seq<char> {
    Seq::new(
        s.len(),
        |i: int|
            if in_quotes(s, i) {
                '"'
            } else {
                s[i]
            },
    )
}

/// For each position of a text, from the last to the first: whether the next quotation mark ends a
/// name.
fn ends_of(v: &[char]) -> (r: Vec<bool>)
    ensures
        r@.len() == v@.len(),
        forall|k: int| 0 <= k < r@.len() ==> #[trigger] r@[k] == name_ends(
            v@.skip(v@.len() - 1 - k),
        ),
{
    let mut r: Vec<bool> = Vec::new();
    let mut leads = false;
    let mut ends = false;
    let total: usize = v.len();
    let mut i: usize = total;
    assert(v@.skip(total as int).len() == 0);
    while i > 0
        invariant
            i <= total,
            total == v@.len(),
            leads == leads_to_bracket(v@.skip(i as int)),
            ends == name_ends(v@.skip(i as int)),
            r@.len() == total - i,
            forall|k: int| 0 <= k < r@.len() ==> #[trigger] r@[k] == name_ends(
                v@.skip(total - 1 - k),
            ),
        decreases i,
    {
        i -= 1;
        let c = v[i];
        assert(v@.skip(i as int).drop_first() =~= v@.skip(i + 1));
        assert(v@.skip(i as int)[0] == c);
        if c == '"' {
            ends = leads;
        }
        leads = c == '<' || (c != ',' && leads);
        r.push(ends);
    }
    r
}

/// `outside_quotes`, computed.
fn marks_of(v: &[char]) -> (r: Vec<char>)
    ensures
        r@ == outside_quotes(v@),
{
    let ends = ends_of(v);
    let mut r: Vec<char> = Vec::new();
    let mut open = false;
    let mut begins = true;
    let mut i: usize = 0;
    let total: usize = v.len();
    while i < total
        invariant
            i <= total,
            total == v@.len(),
            ends@.len() == total,
            forall|k: int| 0 <= k < ends@.len() ==> #[trigger] ends@[k] == name_ends(
                v@.skip(total - 1 - k),
            ),
            open == quote_open(v@.take(i as int)),
            begins == word_begins(v@.take(i as int)),
            r@ == outside_quotes(v@).take(i as int),
        decreases total - i,
    {
        let c = v[i];
        assert(v@.take(i + 1).drop_last() =~= v@.take(i as int));
        if open && ends[total - 1 - i] {
            r.push('"');
        } else {
            r.push(c);
        }
        assert(r@ =~= outside_quotes(v@).take(i + 1));
        if c == '"' {
            open = !open && begins;
        }
        begins = white(c) || c == ',';
        i += 1;
    }
    assert(outside_quotes(v@).take(i as int) =~= outside_quotes(v@));
    r
}

/// Where no quotation mark follows, nothing is quoted.
proof fn lemma_no_name_ends(t: Seq<char>)
    requires
        !t.contains('"'),
    ensures
        !name_ends(t),
    decreases t.len(),
{
    if t.len() > 0 {
        assert(t.contains(t[0]));
        let u = t.drop_first();
        if u.contains('"') {
            let k = choose|k: int| 0 <= k < u.len() && u[k] == '"';
            assert(t[k + 1] == '"');
        }
        lemma_no_name_ends(u);
    }
}

/// The next quotation mark is the first one.
proof fn lemma_name_ends(x: Seq<char>, t: Seq<char>)
    requires
        !x.contains('"'),
    ensures
        name_ends(x + seq!['"'] + t) == leads_to_bracket(t),
    decreases x.len(),
{
    let s = x + seq!['"'] + t;
    if x.len() == 0 {
        assert(s[0] == '"');
        assert(s.drop_first() =~= t);
    } else {
        assert(x.contains(x[0]));
        assert(s[0] == x[0]);
        let y = x.drop_first();
        if y.contains('"') {
            let k = choose|k: int| 0 <= k < y.len() && y[k] == '"';
            assert(x[k + 1] == '"');
        }
        assert(s.drop_first() =~= y + seq!['"'] + t);
        lemma_name_ends(y, t);
    }
}

// ---------------------------------------------------------------------------------------------
// The address of a sender
// ---------------------------------------------------------------------------------------------

/// The part of a text between the first `<` and the first `>` after it.
pub open spec fn span_in(m: Seq<char>) -> Option<(int, int)> {
    match first_index(m, '<') {
        Some(lt) => match first_index(m.skip(lt + 1), '>') {
            Some(n) => Some((lt + 1, lt + 1 + n)),
            None => None,
        },
        None => None,
    }
}

/// Where the address of a sender stands in the line that names the sender: in the first angle
/// brackets outside a name in quotation marks, or else in the first of all; `None` if it is not in
/// angle brackets.
pub open spec fn address_span(from: Seq<char>) -> Option<(int, int)> {
    match span_in(outside_quotes(from)) {
        Some(p) => Some(p),
        None => span_in(from),
    }
}

/// The address in the line that names a sender: what stands between angle brackets, or else the
/// whole line.
pub open spec fn bare_address(from: Seq<char>) -> Seq<char> {
    match address_span(from) {
        Some((first, end)) => trim(from.subrange(first, end)),
        None => trim(from),
    }
}

/// The address of a sender, in lowercase.
pub open spec fn sender_address(from: Seq<char>) -> Seq<char> {
    lowercase(bare_address(from))
}

/// `span_in`, computed.
fn find_span(m: &[char]) -> (r: Option<(usize, usize)>)
    ensures
        match r {
            Some((first, end)) => span_in(m@) == Some((first as int, end as int)) && first <= end
                <= m@.len(),
            None => span_in(m@) is None,
        },
{
    let n: usize = m.len();
    match find_char(m, '<') {
        Some(lt) => {
            let tail = slice_subrange(m, lt + 1, n);
            assert(tail@ =~= m@.skip(lt + 1));
            match find_char(tail, '>') {
                Some(k) => Some((lt + 1, lt + 1 + k)),
                None => None,
            }
        },
        None => None,
    }
}

/// Takes the address of a sender, in lowercase, from `Name <user@host>` or `user@host`.
pub fn extract_email_addr(from: &str) -> (r: String)
    ensures
        r@ == sender_address(from@),
        is_ascii_text(bare_address(from@)) ==> r@ == ascii_lower(bare_address(from@)),
{
    let v = to_chars(from);
    let m = marks_of(&v);
    let span = match find_span(&m) {
        Some(p) => Some(p),
        None => find_span(&v),
    };
    match span {
        Some((first, end)) => to_lowercase(
            from_chars(trimmed(slice_subrange(v.as_slice(), first, end))).as_str(),
        ),
        None => to_lowercase(from_chars(trimmed(&v)).as_str()),
    }
}

// ---------------------------------------------------------------------------------------------
// Name and address of a contact
// ---------------------------------------------------------------------------------------------

/// The name before the first `<`, without quotation marks; empty if there is no `<`.
pub open spec fn contact_name(from: Seq<char>) -> Seq<char> {
    match first_index(from, '<') {
        Some(i) => unquoted(trim(from.take(i))),
        None => Seq::empty(),
    }
}

/// The address after the first `<`, without the `>` at its end; the whole line if there is no `<`.
pub open spec fn contact_email(from: Seq<char>) -> Seq<char> {
    match first_index(from, '<') {
        Some(i) => trim(trim_back(Strip::Only('>'), from.skip(i + 1))),
        None => trim(from),
    }
}

/// Takes name and address of a contact from the line that names a sender.
pub fn name_and_email(from: &str) -> (r: (String, String))
    ensures
        r.0@ == contact_name(from@),
        r.1@ == contact_email(from@),
{
    let v = to_chars(from);
    let n: usize = v.len();
    match find_char(&v, '<') {
        Some(i) => {
            let head = slice_subrange(v.as_slice(), 0, i);
            let tail = slice_subrange(v.as_slice(), i + 1, n);
            assert(head@ =~= v@.take(i as int));
            assert(tail@ =~= v@.skip(i + 1));
            let name = trimmed_both(Strip::Only('"'), trimmed(head));
            let email = trimmed(trimmed_back(Strip::Only('>'), tail));
            (from_chars(name), from_chars(email))
        },
        None => {
            let none = String::new();
            assert(none@ =~= Seq::<char>::empty());
            (none, from_chars(trimmed(&v)))
        },
    }
}

// ---------------------------------------------------------------------------------------------
// Mailboxes
// ---------------------------------------------------------------------------------------------

/// A person to write to.
pub struct Mailbox {
    pub name: Option<String>,
    pub email: String,
}

/// Who a person to write to is.
#[verifier::ext_equal]
pub struct MailboxView {
    pub name: Option<Seq<char>>,
    pub email: Seq<char>,
}

impl View for Mailbox {
    type V = MailboxView;

    open spec fn view(&self) -> MailboxView {
        MailboxView { name: maybe(self.name), email: self.email@ }
    }
}

/// Who the people in a list are.
pub open spec fn mailbox_views(v: Seq<Mailbox>) -> Seq<MailboxView> {
    Seq::new(v.len(), |i: int| v[i]@)
}

/// What `lettre` has against an address, `None` if it accepts it.
pub uninterp spec fn address_error(s: Seq<char>) -> Option<Seq<char>>;

/// `lettre::Address::from_str`: whether `lettre` accepts a text as an address, and the words of its
/// error if it does not. An accepted address is the text itself. The contract gives the error a
/// name.
#[verifier::external_body]
pub(crate) fn check_address(s: &str) -> (r: Option<String>)
    ensures
        maybe(r) == address_error(s@),
{
    s.parse::<lettre::Address>().err().map(|e| e.to_string())
}

/// The words that refuse an address.
pub open spec fn bad_address(email: Seq<char>, e: Seq<char>) -> Seq<char> {
    "Некорректный email '"@ + email + "': "@ + e
}

/// The first `<` of a text and its last `>`, if they stand in this order.
pub open spec fn brackets_in(m: Seq<char>) -> Option<(int, int)> {
    match (first_index(m, '<'), last_index(m, '>')) {
        (Some(lt), Some(gt)) => if lt < gt {
            Some((lt, gt))
        } else {
            None
        },
        _ => None,
    }
}

/// The angle brackets around the address in the description of a mailbox: those outside a name in
/// quotation marks, or else those of the whole text.
pub open spec fn mailbox_brackets(s: Seq<char>) -> Option<(int, int)> {
    match brackets_in(outside_quotes(s)) {
        Some(p) => Some(p),
        None => brackets_in(s),
    }
}

/// A description with a `<` and a `>` has its angle brackets in order.
pub open spec fn nested(s: Seq<char>) -> bool {
    first_index(s, '<') is None || last_index(s, '>') is None || mailbox_brackets(s) is Some
}

/// The address in the description of a mailbox: what stands between the angle brackets, or else all
/// of it.
pub open spec fn mailbox_email(s: Seq<char>) -> Seq<char> {
    match mailbox_brackets(s) {
        Some((lt, gt)) => trim(s.subrange(lt + 1, gt)),
        None => trim(s),
    }
}

/// The name in the description of a mailbox, if it has one: what stands before the angle brackets,
/// without quotation marks at its ends.
pub open spec fn mailbox_name(s: Seq<char>) -> Option<Seq<char>> {
    match mailbox_brackets(s) {
        Some((lt, _)) => {
            let name = trim(unquoted(trim(s.take(lt))));
            if name.len() == 0 {
                None
            } else {
                Some(name)
            }
        },
        None => None,
    }
}

/// The mailbox with a description whose address gets the verdict `e`.
pub open spec fn judged(s: Seq<char>, e: Option<Seq<char>>) -> Result<MailboxView, Seq<char>> {
    match e {
        None => Ok(MailboxView { name: mailbox_name(s), email: mailbox_email(s) }),
        Some(m) => Err(bad_address(mailbox_email(s), m)),
    }
}

/// The mailbox with a description, or what is wrong with it.
pub open spec fn mailbox(s: Seq<char>) -> Result<MailboxView, Seq<char>> {
    judged(s, address_error(mailbox_email(s)))
}

/// What a mailbox, or a refusal, says.
pub open spec fn mailbox_result(r: Result<Mailbox, String>) -> Result<MailboxView, Seq<char>> {
    match r {
        Ok(m) => Ok(m@),
        Err(e) => Err(e@),
    }
}

fn find_brackets(m: &[char]) -> (r: Option<(usize, usize)>)
    ensures
        match r {
            Some((lt, gt)) => brackets_in(m@) == Some((lt as int, gt as int)) && lt < gt < m@.len(),
            None => brackets_in(m@) is None,
        },
{
    match (find_char(m, '<'), rfind_char(m, '>')) {
        (Some(lt), Some(gt)) => if lt < gt {
            Some((lt, gt))
        } else {
            None
        },
        _ => None,
    }
}

fn brackets_of(v: &[char]) -> (r: Option<(usize, usize)>)
    ensures
        match r {
            Some((lt, gt)) => mailbox_brackets(v@) == Some((lt as int, gt as int)) && lt < gt
                < v@.len(),
            None => mailbox_brackets(v@) is None,
        },
{
    let m = marks_of(v);
    match find_brackets(&m) {
        Some(p) => Some(p),
        None => find_brackets(v),
    }
}

fn email_of(v: &[char]) -> (r: String)
    ensures
        r@ == mailbox_email(v@),
{
    match brackets_of(v) {
        Some((lt, gt)) => from_chars(trimmed(slice_subrange(v, lt + 1, gt))),
        None => from_chars(trimmed(v)),
    }
}

fn name_of(v: &[char]) -> (r: Option<String>)
    ensures
        maybe(r) == mailbox_name(v@),
{
    match brackets_of(v) {
        Some((lt, _)) => {
            let head = slice_subrange(v, 0, lt);
            assert(head@ =~= v@.take(lt as int));
            let name = trimmed(trimmed_both(Strip::Only('"'), trimmed(head)));
            if name.len() == 0 {
                None
            } else {
                Some(from_chars(name))
            }
        },
        None => None,
    }
}

/// Makes the mailbox with a description, given what is wrong with its address.
pub fn judge_mailbox(s: &str, verdict: Option<String>) -> (r: Result<Mailbox, String>)
    requires
        nested(s@),
    ensures
        mailbox_result(r) == judged(s@, maybe(verdict)),
{
    let v = to_chars(s);
    let email = email_of(&v);
    match verdict {
        None => {
            let m = Mailbox { name: name_of(&v), email };
            assert(m@ =~= judged(s@, None)->Ok_0);
            Ok(m)
        },
        Some(e) => {
            let mut m = join2("Некорректный email '", email.as_str());
            m.append("': ");
            m.append(e.as_str());
            Err(m)
        },
    }
}

/// Reads the description of a mailbox: `Name <user@host>` or `user@host`.
pub fn parse_single_mailbox(s: &str) -> (r: Result<Mailbox, String>)
    requires
        nested(s@),
    ensures
        mailbox_result(r) == mailbox(s@),
{
    let v = to_chars(s);
    let email = email_of(&v);
    let verdict = check_address(email.as_str());
    judge_mailbox(s, verdict)
}

// ---------------------------------------------------------------------------------------------
// Lists of mailboxes
// ---------------------------------------------------------------------------------------------

/// How many `<` are open at the end of a text.
pub open spec fn depth(s: Seq<char>) -> nat
    decreases s.len(),
{
    if s.len() == 0 {
        0
    } else {
        let d = depth(s.drop_last());
        if s.last() == '<' {
            d + 1
        } else if s.last() == '>' && d > 0 {
            (d - 1) as nat
        } else {
            d
        }
    }
}

/// A text cut where a text of the same length has a comma outside angle brackets.
pub open spec fn cut_along(s: Seq<char>, marks: Seq<char>) -> Seq<Seq<char>>
    decreases s.len(),
{
    if s.len() == 0 {
        seq![Seq::<char>::empty()]
    } else {
        let p = cut_along(s.drop_last(), marks.drop_last());
        if marks.last() == ',' && depth(marks.drop_last()) == 0 {
            p.push(Seq::empty())
        } else {
            p.drop_last().push(p.last().push(s.last()))
        }
    }
}

/// The pieces of a list up to a position.
pub open spec fn pieces_until(s: Seq<char>, i: int) -> Seq<Seq<char>> {
    cut_along(s.take(i), outside_quotes(s).take(i))
}

/// The pieces of a list: it is cut at each comma outside angle brackets and outside quotations.
pub open spec fn pieces(s: Seq<char>) -> Seq<Seq<char>> {
    pieces_until(s, s.len() as int)
}

proof fn lemma_cut_along(s: Seq<char>, marks: Seq<char>)
    ensures
        cut_along(s, marks).len() > 0,
    decreases s.len(),
{
    if s.len() > 0 {
        lemma_cut_along(s.drop_last(), marks.drop_last());
    }
}

/// A text in which no comma stands outside angle brackets is one piece.
proof fn lemma_uncut(s: Seq<char>, marks: Seq<char>)
    requires
        s.len() == marks.len(),
        forall|i: int| 0 <= i < marks.len() && #[trigger] marks[i] == ',' ==> depth(marks.take(i)) > 0,
    ensures
        cut_along(s, marks) == seq![s],
    decreases s.len(),
{
    if s.len() > 0 {
        let m = marks.drop_last();
        assert forall|i: int| 0 <= i < m.len() && #[trigger] m[i] == ',' implies depth(m.take(i))
            > 0 by {
            assert(marks[i] == ',');
            assert(m.take(i) =~= marks.take(i));
        }
        lemma_uncut(s.drop_last(), m);
        assert(marks.take(marks.len() - 1) =~= m);
        assert(marks[marks.len() - 1] == marks.last());
        assert(s.drop_last().push(s.last()) =~= s);
        assert(cut_along(s, marks) =~= seq![s]);
    } else {
        assert(s =~= Seq::<char>::empty());
    }
}

/// The descriptions in a list: its pieces without white space around them, those that are empty
/// left out.
pub open spec fn descriptions(p: Seq<Seq<char>>) -> Seq<Seq<char>>
    decreases p.len(),
{
    if p.len() == 0 {
        Seq::empty()
    } else if trim(p.last()).len() == 0 {
        descriptions(p.drop_last())
    } else {
        descriptions(p.drop_last()).push(trim(p.last()))
    }
}

/// The mailboxes with these descriptions, or what is wrong with the first bad one.
pub open spec fn mailboxes(d: Seq<Seq<char>>) -> Result<Seq<MailboxView>, Seq<char>>
    decreases d.len(),
{
    if d.len() == 0 {
        Ok(Seq::empty())
    } else {
        match mailboxes(d.drop_last()) {
            Err(e) => Err(e),
            Ok(ms) => match mailbox(d.last()) {
                Err(e) => Err(e),
                Ok(m) => Ok(ms.push(m)),
            },
        }
    }
}

/// The mailboxes in a list, or what is wrong with the first bad one.
pub open spec fn mailbox_list(s: Seq<char>) -> Result<Seq<MailboxView>, Seq<char>> {
    mailboxes(descriptions(pieces(s)))
}

/// Each description has its brackets in order, unless an earlier one is refused.
pub open spec fn readable(d: Seq<Seq<char>>) -> bool
    decreases d.len(),
{
    d.len() == 0 || (readable(d.drop_last()) && (mailboxes(d.drop_last()) is Ok ==> nested(
        d.last(),
    )))
}

/// What a list of mailboxes, or a refusal, says.
pub open spec fn mailboxes_result(r: Result<Vec<Mailbox>, String>) -> Result<
    Seq<MailboxView>,
    Seq<char>,
> {
    match r {
        Ok(m) => Ok(mailbox_views(m@)),
        Err(e) => Err(e@),
    }
}

/// Cuts a list into the descriptions that it holds.
pub fn split_mailbox_list(s: &str) -> (r: Vec<Vec<char>>)
    ensures
        char_views(r@) == descriptions(pieces(s@)),
{
    let v = to_chars(s);
    let m = marks_of(&v);
    let ghost text = s@;
    let ghost marks = outside_quotes(text);
    let mut done: Vec<Vec<char>> = Vec::new();
    let mut cur: Vec<char> = Vec::new();
    let mut open: usize = 0;
    let mut i: usize = 0;
    let total: usize = v.len();
    let ghost mut cut: Seq<Seq<char>> = Seq::empty();
    assert(pieces_until(text, 0) =~= cut.push(cur@));
    assert(char_views(done@) =~= descriptions(cut));
    while i < total
        invariant
            i <= total,
            total == v@.len(),
            v@ == text,
            m@ == marks,
            marks == outside_quotes(text),
            open == depth(marks.take(i as int)),
            open <= i,
            pieces_until(text, i as int) == cut.push(cur@),
            char_views(done@) == descriptions(cut),
        decreases total - i,
    {
        let c = v[i];
        let mark = m[i];
        proof {
            assert(text.take(i + 1).drop_last() =~= text.take(i as int));
            assert(marks.take(i + 1).drop_last() =~= marks.take(i as int));
            assert(cut.push(cur@).drop_last() =~= cut);
        }
        if mark == ',' && open == 0 {
            let piece = trimmed(&cur);
            proof {
                let before = cut;
                cut = cut.push(cur@);
                assert(cut.drop_last() =~= before);
                assert(pieces_until(text, i + 1) =~= cut.push(Seq::empty()));
            }
            if piece.len() > 0 {
                let ghost d0 = done@;
                let w = vstd::slice::slice_to_vec(piece);
                done.push(w);
                assert(char_views(done@) =~= char_views(d0).push(piece@));
            }
            cur = Vec::new();
            assert(pieces_until(text, i + 1) =~= cut.push(cur@));
        } else {
            if mark == '<' {
                open = open + 1;
            } else if mark == '>' && open > 0 {
                open = open - 1;
            }
            let ghost old_cur = cur@;
            cur.push(c);
            assert(pieces_until(text, i + 1) =~= cut.push(old_cur.push(c)));
        }
        i += 1;
    }
    let piece = trimmed(&cur);
    proof {
        let before = cut;
        cut = cut.push(cur@);
        assert(cut.drop_last() =~= before);
    }
    if piece.len() > 0 {
        let ghost d0 = done@;
        let w = vstd::slice::slice_to_vec(piece);
        done.push(w);
        assert(char_views(done@) =~= char_views(d0).push(piece@));
    }
    done
}

/// Reads a list of mailboxes, separated by commas; the first bad one is the error.
pub fn parse_mailbox_list(s: &str) -> (r: Result<Vec<Mailbox>, String>)
    requires
        readable(descriptions(pieces(s@))),
    ensures
        mailboxes_result(r) == mailbox_list(s@),
{
    let ds = split_mailbox_list(s);
    let ghost d = descriptions(pieces(s@));
    let mut result: Vec<Mailbox> = Vec::new();
    let mut i: usize = 0;
    assert(mailbox_views(result@) =~= Seq::<MailboxView>::empty());
    while i < ds.len()
        invariant
            i <= ds@.len(),
            d == char_views(ds@),
            d == descriptions(pieces(s@)),
            readable(d),
            mailboxes(d.take(i as int)) == Ok::<Seq<MailboxView>, Seq<char>>(
                mailbox_views(result@),
            ),
        decreases ds@.len() - i,
    {
        let one = from_chars(&ds[i]);
        assert(one@ == d[i as int]);
        assert(d.take(i + 1).drop_last() =~= d.take(i as int));
        assert(d.take(i + 1).last() == d[i as int]);
        proof {
            lemma_readable(d, i + 1);
        }
        match parse_single_mailbox(one.as_str()) {
            Ok(m) => {
                let ghost before = result@;
                result.push(m);
                assert(mailbox_views(result@) =~= mailbox_views(before).push(m@));
            },
            Err(e) => {
                assert(mailboxes(d.take(i + 1)) == Err::<Seq<MailboxView>, Seq<char>>(e@));
                proof {
                    lemma_first_error(d, i + 1);
                }
                return Err(e);
            },
        }
        i += 1;
    }
    assert(d.take(i as int) =~= d);
    Ok(result)
}

proof fn lemma_first_error(d: Seq<Seq<char>>, i: int)
    requires
        0 <= i <= d.len(),
        mailboxes(d.take(i)) is Err,
    ensures
        mailboxes(d) == mailboxes(d.take(i)),
        readable(d) == readable(d.take(i)),
    decreases d.len() - i,
{
    if i < d.len() {
        assert(d.take(i + 1).drop_last() =~= d.take(i));
        lemma_first_error(d, i + 1);
    } else {
        assert(d.take(i) =~= d);
    }
}

proof fn lemma_readable(d: Seq<Seq<char>>, i: int)
    requires
        0 <= i <= d.len(),
        readable(d),
    ensures
        readable(d.take(i)),
    decreases d.len() - i,
{
    if i < d.len() {
        lemma_readable(d, i + 1);
        assert(d.take(i + 1).drop_last() =~= d.take(i));
    } else {
        assert(d.take(i) =~= d);
    }
}

fn is_nested(v: &[char]) -> (r: bool)
    ensures
        r == nested(v@),
{
    find_char(v, '<').is_none() || rfind_char(v, '>').is_none() || brackets_of(v).is_some()
}

/// Reads a list of mailboxes if each description can be read up to the first that is refused;
/// `None` if one of them has its brackets out of order.
pub fn checked_mailbox_list(s: &str) -> (r: Option<Result<Vec<Mailbox>, String>>)
    ensures
        match r {
            Some(list) => readable(descriptions(pieces(s@))) && mailboxes_result(list)
                == mailbox_list(s@),
            None => !readable(descriptions(pieces(s@))),
        },
{
    let ds = split_mailbox_list(s);
    let ghost d = descriptions(pieces(s@));
    let mut i: usize = 0;
    let mut refused = false;
    while i < ds.len() && !refused
        invariant
            i <= ds@.len(),
            d == char_views(ds@),
            d == descriptions(pieces(s@)),
            refused == (mailboxes(d.take(i as int)) is Err),
            readable(d.take(i as int)),
        decreases ds@.len() - i,
    {
        assert(d[i as int] == ds@[i as int]@);
        assert(d.take(i + 1).drop_last() =~= d.take(i as int));
        assert(d.take(i + 1).last() == d[i as int]);
        if !is_nested(&ds[i]) {
            proof {
                if readable(d) {
                    lemma_readable(d, i + 1);
                }
            }
            return None;
        }
        let one = from_chars(&ds[i]);
        refused = parse_single_mailbox(one.as_str()).is_err();
        i += 1;
    }
    proof {
        if refused {
            lemma_first_error(d, i as int);
        } else {
            assert(d.take(i as int) =~= d);
        }
    }
    Some(parse_mailbox_list(s))
}

// ---------------------------------------------------------------------------------------------
// The address of a read receipt
// ---------------------------------------------------------------------------------------------

/// The address that a read receipt goes to: what follows the first `<`, without the `>` at its end,
/// or else the whole line.
pub open spec fn receipt_email(to: Seq<char>) -> Seq<char> {
    let t = trim(to);
    match first_index(t, '<') {
        Some(i) => trim(trim_back(Strip::Only('>'), t.skip(i + 1))),
        None => t,
    }
}

/// `receipt_email`, computed.
pub fn receipt_address(to: &str) -> (r: String)
    ensures
        r@ == receipt_email(to@),
{
    let v = to_chars(to);
    let t = trimmed(&v);
    let n: usize = t.len();
    match find_char(t, '<') {
        Some(i) => {
            let tail = slice_subrange(t, i + 1, n);
            assert(tail@ =~= t@.skip(i + 1));
            from_chars(trimmed(trimmed_back(Strip::Only('>'), tail)))
        },
        None => from_chars(t),
    }
}

// ---------------------------------------------------------------------------------------------
// Laws
// ---------------------------------------------------------------------------------------------

/// A list that is accepted has one mailbox for each description, in their order.
pub proof fn law_one_mailbox_each(d: Seq<Seq<char>>)
    ensures
        mailboxes(d) matches Ok(ms) ==> ms.len() == d.len() && forall|i: int|
            0 <= i < d.len() ==> mailbox(#[trigger] d[i]) == Ok::<MailboxView, Seq<char>>(ms[i]),
    decreases d.len(),
{
    if d.len() > 0 {
        law_one_mailbox_each(d.drop_last());
        if let Ok(ms) = mailboxes(d) {
            let front = mailboxes(d.drop_last())->Ok_0;
            assert forall|i: int| 0 <= i < d.len() implies mailbox(#[trigger] d[i]) == Ok::<
                MailboxView,
                Seq<char>,
            >(ms[i]) by {
                if i < d.len() - 1 {
                    assert(d.drop_last()[i] == d[i]);
                    assert(ms[i] == front[i]);
                }
            }
        }
    }
}

/// A comma inside angle brackets does not cut a list.
pub proof fn law_comma_in_brackets(s: Seq<char>, i: int)
    requires
        0 <= i < s.len(),
        s[i] == ',',
        depth(outside_quotes(s).take(i)) > 0,
    ensures
        pieces_until(s, i + 1).len() == pieces_until(s, i).len(),
        pieces_until(s, i + 1).last() == pieces_until(s, i).last().push(','),
{
    lemma_step(s, i);
}

/// A comma inside quotation marks does not cut a list.
pub proof fn law_comma_in_quotes(s: Seq<char>, i: int)
    requires
        0 <= i < s.len(),
        s[i] == ',',
        in_quotes(s, i),
    ensures
        pieces_until(s, i + 1).len() == pieces_until(s, i).len(),
        pieces_until(s, i + 1).last() == pieces_until(s, i).last().push(','),
{
    lemma_step(s, i);
}

/// A comma outside angle brackets and outside quotation marks begins a new piece.
pub proof fn law_comma_outside(s: Seq<char>, i: int)
    requires
        0 <= i < s.len(),
        s[i] == ',',
        !in_quotes(s, i),
        depth(outside_quotes(s).take(i)) == 0,
    ensures
        pieces_until(s, i + 1) == pieces_until(s, i).push(Seq::empty()),
{
    lemma_step(s, i);
}

/// A sender who is named `Name <address>` has this address, whatever stands in the quotation marks of
/// the name.
pub proof fn law_sender_address(name: Seq<char>, address: Seq<char>)
    requires
        !address.contains('"'),
        !address.contains('>'),
        forall|i: int|
            0 <= i < name.len() && #[trigger] name[i] == '<' ==> in_quotes(
                name + seq!['<'] + address + seq!['>'],
                i,
            ),
    ensures
        bare_address(name + seq!['<'] + address + seq!['>']) == trim(address),
{
    let t = seq!['<'] + address + seq!['>'];
    let s = name + seq!['<'] + address + seq!['>'];
    let n = name.len() as int;
    assert(s =~= name + t);
    let m = outside_quotes(s);
    assert forall|i: int| n <= i < s.len() implies m[i] == s[i] by {
        let u = s.skip(i);
        if u.contains('"') {
            let k = choose|k: int| 0 <= k < u.len() && u[k] == '"';
            assert(t[i + k - n] == '"');
            assert(0 < i + k - n < t.len() - 1);
            assert(address[i + k - n - 1] == '"');
        }
        lemma_no_name_ends(u);
    }
    assert forall|i: int| 0 <= i < n implies m[i] != '<' by {
        assert(s[i] == name[i]);
    }
    assert(m[n] == '<');
    lemma_first_index(m, '<');
    assert(first_index(m, '<') == Some(n));
    let rest = m.skip(n + 1);
    assert(rest =~= address + seq!['>']);
    lemma_first_index(rest, '>');
    assert(rest[address.len() as int] == '>');
    assert forall|i: int| 0 <= i < address.len() implies rest[i] != '>' by {
        assert(rest[i] == address[i]);
    }
    assert(first_index(rest, '>') == Some(address.len() as int));
    assert(s.subrange(n + 1, n + 1 + address.len()) =~= address);
}

/// A line whose names in quotation marks hold no angle bracket has its address between its first `<`
/// and its first `>`, whatever other quotation marks it holds.
pub proof fn law_first_brackets(from: Seq<char>)
    requires
        forall|i: int|
            0 <= i < from.len() && (#[trigger] from[i] == '<' || from[i] == '>') ==> !in_quotes(
                from,
                i,
            ),
    ensures
        match (first_index(from, '<'), first_index(from, '>')) {
            (Some(lt), Some(gt)) => lt < gt ==> bare_address(from) == trim(
                from.subrange(lt + 1, gt),
            ),
            _ => bare_address(from) == trim(from),
        },
{
    let m = outside_quotes(from);
    assert forall|i: int| 0 <= i < from.len() implies (m[i] == '<' <==> from[i] == '<') && (m[i]
        == '>' <==> from[i] == '>') by {
        if from[i] == '<' || from[i] == '>' {
            assert(!in_quotes(from, i));
        }
    }
    lemma_same_span(m, from);
    lemma_span_in(from);
}

/// Texts with the same angle brackets in the same places.
proof fn lemma_same_span(a: Seq<char>, b: Seq<char>)
    requires
        a.len() == b.len(),
        forall|i: int|
            0 <= i < b.len() ==> (#[trigger] a[i] == '<' <==> b[i] == '<') && (a[i] == '>'
                <==> b[i] == '>'),
    ensures
        span_in(a) == span_in(b),
{
    lemma_same_index(a, b, '<');
    if let Some(lt) = first_index(b, '<') {
        lemma_first_index(b, '<');
        let (x, y) = (a.skip(lt + 1), b.skip(lt + 1));
        assert forall|k: int| 0 <= k < y.len() implies (#[trigger] x[k] == '>' <==> y[k] == '>') by {
            assert(a[lt + 1 + k] == '>' <==> b[lt + 1 + k] == '>');
        }
        lemma_same_index(x, y, '>');
    }
}

proof fn lemma_same_index(a: Seq<char>, b: Seq<char>, c: char)
    requires
        a.len() == b.len(),
        forall|i: int| 0 <= i < b.len() ==> (#[trigger] a[i] == c <==> b[i] == c),
    ensures
        first_index(a, c) == first_index(b, c),
{
    lemma_first_index(a, c);
    lemma_first_index(b, c);
    if let Some(i) = first_index(a, c) {
        assert(a[i] == c);
        if let Some(j) = first_index(b, c) {
            assert(a[j] == c <==> b[j] == c);
        }
    }
    if let Some(j) = first_index(b, c) {
        assert(a[j] == c <==> b[j] == c);
    }
}

/// Where the first `<` stands before the first `>`, the two are the brackets of the address.
proof fn lemma_span_in(s: Seq<char>)
    ensures
        match (first_index(s, '<'), first_index(s, '>')) {
            (Some(lt), Some(gt)) => lt < gt ==> span_in(s) == Some((lt + 1, gt)),
            _ => span_in(s) is None,
        },
{
    lemma_first_index(s, '<');
    lemma_first_index(s, '>');
    if let Some(lt) = first_index(s, '<') {
        let t = s.skip(lt + 1);
        lemma_first_index(t, '>');
        if let Some(k) = first_index(t, '>') {
            assert(s[lt + 1 + k] == '>');
            if let Some(gt) = first_index(s, '>') {
                if lt < gt {
                    assert(t[gt - lt - 1] == '>');
                }
            }
        } else if let Some(gt) = first_index(s, '>') {
            if lt < gt {
                assert(t[gt - lt - 1] == '>');
            }
        }
    }
}

/// Taking the address of an address changes nothing, if it is one of ASCII characters that is not
/// itself a line with an address in angle brackets.
pub proof fn law_address_twice(from: Seq<char>)
    requires
        is_ascii_text(bare_address(from)),
        address_span(bare_address(from)) is None,
    ensures
        bare_address(ascii_lower(bare_address(from))) == ascii_lower(bare_address(from)),
{
    let a = bare_address(from);
    let b = ascii_lower(a);
    lemma_outside_lower(a);
    lemma_span_lower(outside_quotes(a));
    lemma_span_lower(a);
    match address_span(from) {
        Some((first, end)) => lemma_trim(from.subrange(first, end)),
        None => lemma_trim(from),
    }
    assert(b.len() > 0 ==> b[0] == ascii_lower_char(a[0]) && b.last() == ascii_lower_char(a.last()));
    lemma_trim_fixed(b);
}

proof fn lemma_quote_lower(s: Seq<char>)
    ensures
        quote_open(ascii_lower(s)) == quote_open(s),
    decreases s.len(),
{
    if s.len() > 0 {
        let t = s.drop_last();
        lemma_quote_lower(t);
        assert(ascii_lower(s).drop_last() =~= ascii_lower(t));
    }
}

proof fn lemma_ends_lower(s: Seq<char>)
    ensures
        leads_to_bracket(ascii_lower(s)) == leads_to_bracket(s),
        name_ends(ascii_lower(s)) == name_ends(s),
    decreases s.len(),
{
    if s.len() > 0 {
        let t = s.drop_first();
        lemma_ends_lower(t);
        assert(ascii_lower(s).drop_first() =~= ascii_lower(t));
    }
}

proof fn lemma_outside_lower(s: Seq<char>)
    ensures
        outside_quotes(ascii_lower(s)) == ascii_lower(outside_quotes(s)),
{
    let l = ascii_lower(s);
    assert forall|i: int| 0 <= i < s.len() implies outside_quotes(l)[i] == ascii_lower(
        outside_quotes(s),
    )[i] by {
        assert(l.take(i) =~= ascii_lower(s.take(i)));
        assert(l.skip(i) =~= ascii_lower(s.skip(i)));
        lemma_quote_lower(s.take(i));
        lemma_ends_lower(s.skip(i));
    }
    assert(outside_quotes(l) =~= ascii_lower(outside_quotes(s)));
}

proof fn lemma_span_lower(m: Seq<char>)
    ensures
        span_in(ascii_lower(m)) == span_in(m),
{
    lemma_same_span(ascii_lower(m), m);
}

/// A mailbox whose name stands in quotation marks is one mailbox, with this name and this address,
/// whatever commas and angle brackets the name holds.
pub proof fn law_quoted_name(name: Seq<char>, address: Seq<char>)
    requires
        !name.contains('"'),
        !address.contains('"'),
        !address.contains('<'),
        !address.contains('>'),
    ensures
        ({
            let s = seq!['"'] + name + seq!['"', ' ', '<'] + address + seq!['>'];
            &&& pieces(s) == seq![s]
            &&& nested(s)
            &&& mailbox_email(s) == trim(address)
            &&& mailbox_name(s) == (if trim(name).len() == 0 {
                None
            } else {
                Some(trim(name))
            })
            &&& readable(descriptions(pieces(s)))
            &&& mailbox_list(s) == match address_error(trim(address)) {
                None => Ok::<Seq<MailboxView>, Seq<char>>(
                    seq![MailboxView { name: mailbox_name(s), email: trim(address) }],
                ),
                Some(e) => Err(bad_address(trim(address), e)),
            }
        }),
{
    let q = seq!['"'] + name + seq!['"'];
    let t = seq![' ', '<'] + address + seq!['>'];
    let s = q + t;
    let n = q.len() as int;
    assert(seq!['"'] + name + seq!['"', ' ', '<'] + address + seq!['>'] =~= s);
    assert forall|i: int| 0 <= i < t.len() implies t[i] != '"' by {
        if 1 < i < t.len() - 1 {
            assert(t[i] == address[i - 2]);
        }
    }
    assert(t[0] == ' ' && t.drop_first()[0] == '<');
    assert(leads_to_bracket(t.drop_first()));
    lemma_quotation(name, t);
    let m = outside_quotes(s);
    assert(m[n + 1] == '<');
    assert(m[m.len() - 1] == '>');
    assert forall|i: int| 0 <= i < m.len() && i != n + 1 implies m[i] != '<' by {
        if n + 1 < i < m.len() - 1 {
            assert(m[i] == address[i - n - 2]);
        }
    }
    lemma_first_index(m, '<');
    assert(first_index(m, '<') == Some(n + 1));
    assert(last_index(m, '>') == Some(m.len() - 1));
    assert(s.subrange(n + 2, m.len() - 1) =~= address);
    assert forall|i: int| 0 <= i < m.len() && #[trigger] m[i] == ',' implies depth(m.take(i)) > 0 by {
        assert(n + 2 <= i < m.len() - 1);
        lemma_depth_after(m, n + 1, i);
    }
    lemma_uncut(s, m);
    assert(s.take(s.len() as int) =~= s);
    assert(m.take(s.len() as int) =~= m);
    // The name.
    let head = s.take(n + 1);
    assert(head =~= q.push(' '));
    assert(trim_front(Strip::White, head) == head);
    assert(head.drop_last() =~= q);
    assert(q.last() == '"');
    assert(trim_back(Strip::White, q) == q);
    assert(trim(head) == q);
    lemma_unquoted(name);
    assert(s[0] == '"' && s.last() == '>');
    assert(trim(s) == s);
    lemma_list_of_one(s);
}

/// A list of one description.
proof fn lemma_list_of_one(s: Seq<char>)
    requires
        pieces(s) == seq![s],
        trim(s) == s,
        s.len() > 0,
        nested(s),
    ensures
        readable(descriptions(pieces(s))),
        mailbox_list(s) == match mailbox(s) {
            Ok(m) => Ok::<Seq<MailboxView>, Seq<char>>(seq![m]),
            Err(e) => Err(e),
        },
{
    let d = seq![s];
    let none = Seq::<Seq<char>>::empty();
    assert(d.drop_last() =~= none);
    assert(d =~= none.push(s));
    assert(descriptions(none) == none);
    assert(descriptions(d) == d);
    assert(readable(none));
    assert(mailboxes(none) == Ok::<Seq<MailboxView>, Seq<char>>(Seq::empty()));
    if let Ok(m) = mailbox(s) {
        assert(Seq::<MailboxView>::empty().push(m) =~= seq![m]);
    }
}

/// Everything in a name in quotation marks is quoted, and nothing after it.
proof fn lemma_quotation(name: Seq<char>, t: Seq<char>)
    requires
        !name.contains('"'),
        forall|i: int| 0 <= i < t.len() ==> t[i] != '"',
        leads_to_bracket(t),
    ensures
        ({
            let m = outside_quotes(seq!['"'] + name + seq!['"'] + t);
            &&& forall|i: int| 0 <= i < name.len() + 2 ==> m[i] == '"'
            &&& forall|i: int|
                name.len() + 2 <= i < name.len() + 2 + t.len() ==> m[i] == t[i - name.len() - 2]
        }),
{
    let q = seq!['"'] + name + seq!['"'];
    let s = q + t;
    let m = outside_quotes(s);
    let n = q.len() as int;
    assert forall|i: int| 0 <= i < n implies m[i] == '"' by {
        if 0 < i {
            let x = name.skip(i - 1);
            assert(s.skip(i) =~= x + seq!['"'] + t);
            if x.contains('"') {
                let k = choose|k: int| 0 <= k < x.len() && x[k] == '"';
                assert(name[i - 1 + k] == '"');
            }
            lemma_name_ends(x, t);
            assert(s.take(i) =~= q.take(i));
            lemma_open_in_quotation(name, i);
        }
    }
    assert forall|i: int| n <= i < s.len() implies m[i] == s[i] by {
        let u = s.skip(i);
        if u.contains('"') {
            let k = choose|k: int| 0 <= k < u.len() && u[k] == '"';
            assert(t[i + k - n] == '"');
        }
        lemma_no_name_ends(u);
    }
}

proof fn lemma_open_in_quotation(name: Seq<char>, i: int)
    requires
        !name.contains('"'),
        0 < i <= name.len() + 1,
    ensures
        quote_open((seq!['"'] + name + seq!['"']).take(i)),
    decreases i,
{
    let q = seq!['"'] + name + seq!['"'];
    assert(q.take(i).drop_last() =~= q.take(i - 1));
    if i == 1 {
        assert(!quote_open(q.take(0)));
        assert(q.take(1).last() == '"');
    } else {
        lemma_open_in_quotation(name, i - 1);
        assert(q.take(i).last() == name[i - 2]);
        assert(name.contains(name[i - 2]));
    }
}

/// After a `<` that no `>` follows, angle brackets are open.
proof fn lemma_depth_after(m: Seq<char>, k: int, i: int)
    requires
        0 <= k < i <= m.len(),
        m[k] == '<',
        forall|j: int| k < j < i ==> m[j] != '>',
    ensures
        depth(m.take(i)) > 0,
    decreases i,
{
    assert(m.take(i).drop_last() =~= m.take(i - 1));
    if k < i - 1 {
        lemma_depth_after(m, k, i - 1);
    }
}

/// A name loses the quotation marks around it and no others.
proof fn lemma_unquoted(name: Seq<char>)
    requires
        !name.contains('"'),
    ensures
        unquoted(seq!['"'] + name + seq!['"']) == name,
{
    let k = Strip::Only('"');
    let q = seq!['"'] + name + seq!['"'];
    let r = name + seq!['"'];
    assert(q.drop_first() =~= r);
    assert(q[0] == '"');
    assert(trim_front(k, q) == trim_front(k, r));
    if name.len() == 0 {
        let none = Seq::<char>::empty();
        assert(name =~= none);
        assert(r.drop_first() =~= none);
        assert(r[0] == '"');
        assert(trim_front(k, none) == none);
        assert(trim_back(k, none) == none);
    } else {
        assert(name.contains(name[0]));
        assert(name.contains(name.last()));
        assert(r[0] == name[0]);
        assert(trim_front(k, r) == r);
        assert(r.drop_last() =~= name);
        assert(r.last() == '"');
        assert(trim_back(k, name) == name);
    }
}

proof fn lemma_step(s: Seq<char>, i: int)
    requires
        0 <= i < s.len(),
    ensures
        s.take(i + 1).drop_last() == s.take(i),
        outside_quotes(s).take(i + 1).drop_last() == outside_quotes(s).take(i),
        pieces_until(s, i).len() > 0,
{
    assert(s.take(i + 1).drop_last() =~= s.take(i));
    assert(outside_quotes(s).take(i + 1).drop_last() =~= outside_quotes(s).take(i));
    lemma_cut_along(s.take(i), outside_quotes(s).take(i));
}

} // verus!
