//! What becomes of a message that the user sends, of its text in HTML, of its files and of reports.
use vstd::prelude::*;

use crate::addresses::{
    bad_address, contact_email, contact_name, cut_along, depth, descriptions, in_quotes,
    mailbox_brackets, mailbox_email, mailbox_list, mailbox_name, outside_quotes, pieces,
    quote_open, receipt_email, MailboxView,
};
use crate::message::{in_tag, untagged};
use crate::reading::{law_tag_is_dropped, law_text_is_kept};
use crate::send::{
    content_of, content_type_accepted, copies, escaped, html_of, is_sent_file, law_escaped,
    receipt_body, receipt_subject, recipients, refusal, stage_after, FileAttachment,
    OutgoingFile, SendEvent, SendStage,
};
use crate::text::{
    ends_clean, first_index, has_word, is_white, joined, last_index, lemma_first_index,
    lemma_last_index, lemma_trim_fixed, trim, trim_back, trim_both, trim_front, unquoted,
    word_at, Strip,
};

verus! {

// ---------------------------------------------------------------------------------------------
// The text in HTML
// ---------------------------------------------------------------------------------------------

/// A text stands in what it is put between.
proof fn lemma_between(a: Seq<char>, b: Seq<char>, c: Seq<char>)
    ensures
        has_word(a + b + c, b),
{
    let s = a + b + c;
    assert(s.subrange(a.len() as int, (a.len() + b.len()) as int) =~= b);
    assert(word_at(s, b, a.len() as int));
}

/// The HTML form that is made of a text holds the text as it is written in HTML.
pub proof fn law_html_holds_text(body: Seq<char>)
    ensures
        has_word(html_of(None, body), escaped(body)),
{
    lemma_between(
        "<pre style='font-family:sans-serif;white-space:pre-wrap'>"@,
        escaped(body),
        "</pre>"@,
    );
}

/// Without its tags the HTML form that is made of a text is the text as it is written in HTML, between
/// two spaces.
pub proof fn law_html_without_tags(body: Seq<char>)
    ensures
        untagged(html_of(None, body)) == seq![' '] + escaped(body) + seq![' '],
{
    reveal_strlit("<pre style='font-family:sans-serif;white-space:pre-wrap'>");
    reveal_strlit("</pre>");
    let none = Seq::<char>::empty();
    let open = "<pre style='font-family:sans-serif;white-space:pre-wrap'>"@;
    let tag = open.subrange(1, open.len() - 1);
    assert(none + seq!['<'] + tag + seq!['>'] =~= open);
    assert(!tag.contains('<') && !tag.contains('>'));
    law_tag_is_dropped(none, tag);
    let text = escaped(body);
    law_escaped(body);
    assert(!text.contains('<') && !text.contains('>'));
    law_text_is_kept(open, text);
    let s = open + text;
    let end = "</pre>"@.subrange(1, 5);
    assert(!end.contains('<') && !end.contains('>'));
    law_tag_is_dropped(s, end);
    assert(s + seq!['<'] + end + seq!['>'] =~= html_of(None, body));
    assert(untagged(none) =~= none);
    assert(untagged(html_of(None, body)) =~= seq![' '] + text + seq![' ']);
}

/// An HTML text that the user has written is sent as it is.
pub proof fn law_html_is_kept(html: Seq<char>, body: Seq<char>)
    ensures
        html_of(Some(html), body) == html,
{
}

// ---------------------------------------------------------------------------------------------
// The work
// ---------------------------------------------------------------------------------------------

/// A message with so many files when the first `k` of them have been written and kept.
pub open spec fn after_files(id: i64, n: int, k: nat) -> SendStage
    decreases k,
{
    if k == 0 {
        stage_after(n, SendStage::Number(id), SendEvent::Executed)
    } else {
        stage_after(
            n,
            stage_after(n, after_files(id, n, (k - 1) as nat), SendEvent::Written(true)),
            SendEvent::Executed,
        )
    }
}

/// When the server has taken a message, the message is kept and gets its number; then each of its files
/// is written and kept, one after the other, and then nothing is left to do. When the server has refused
/// it, nothing is kept.
pub proof fn law_all_is_kept(id: i64, n: int, k: nat)
    requires
        k <= n,
        n <= usize::MAX,
    ensures
        stage_after(n, SendStage::Transmit, SendEvent::Transmitted(true)) == SendStage::Keep,
        stage_after(n, SendStage::Transmit, SendEvent::Transmitted(false)) == SendStage::Failed,
        stage_after(n, SendStage::Keep, SendEvent::Kept(id)) == SendStage::Number(id),
        k < n ==> after_files(id, n, k) == SendStage::WriteFile(id, k as usize),
        k == n ==> after_files(id, n, k) == SendStage::Done,
        k < n ==> stage_after(n, after_files(id, n, k), SendEvent::Written(true)) == SendStage::KeepFile(
            id,
            k as usize,
        ),
    decreases k,
{
    if k > 0 {
        law_all_is_kept(id, n, (k - 1) as nat);
    }
}

/// A file that could not be written is passed over.
pub proof fn law_unwritten_file(id: i64, n: int, i: usize)
    requires
        i < n,
        n <= usize::MAX,
    ensures
        i + 1 < n ==> stage_after(n, SendStage::WriteFile(id, i), SendEvent::Written(false))
            == SendStage::WriteFile(id, (i + 1) as usize),
        i + 1 == n ==> stage_after(n, SendStage::WriteFile(id, i), SendEvent::Written(false))
            == SendStage::Done,
{
}

// ---------------------------------------------------------------------------------------------
// Recipients
// ---------------------------------------------------------------------------------------------

/// A description of a mailbox without quotation marks and commas, with at most one pair of angle brackets
/// around the address.
pub open spec fn is_plain(s: Seq<char>) -> bool {
    &&& !s.contains('"')
    &&& !s.contains(',')
    &&& !s.contains('<') && !s.contains('>') || exists|x: Seq<char>, y: Seq<char>|
        !x.contains('<') && !x.contains('>') && !y.contains('<') && !y.contains('>') && s
            == #[trigger] bracketed(x, y)
}

/// A text before an address in angle brackets.
pub open spec fn bracketed(x: Seq<char>, y: Seq<char>) -> Seq<char> {
    x + seq!['<'] + y + seq!['>']
}

proof fn lemma_depth_same(m: Seq<char>, f: Seq<char>)
    requires
        !f.contains('<'),
        !f.contains('>'),
    ensures
        depth(m + f) == depth(m),
    decreases f.len(),
{
    if f.len() == 0 {
        assert(m + f =~= m);
    } else {
        let g = f.drop_last();
        assert(f[f.len() - 1] == f.last());
        assert forall|c: char| !f.contains(c) implies !g.contains(c) by {
            if g.contains(c) {
                let i = choose|i: int| 0 <= i < g.len() && g[i] == c;
                assert(f[i] == c);
            }
        }
        lemma_depth_same(m, g);
        assert((m + f).drop_last() =~= m + g);
    }
}

proof fn lemma_depth_plain(m: Seq<char>, f: Seq<char>)
    requires
        is_plain(f),
    ensures
        depth(m + f) == depth(m),
{
    if !f.contains('<') && !f.contains('>') {
        lemma_depth_same(m, f);
    } else {
        let (x, y) = choose|x: Seq<char>, y: Seq<char>|
            !x.contains('<') && !x.contains('>') && !y.contains('<') && !y.contains('>') && f
                == #[trigger] bracketed(x, y);
        lemma_depth_same(m, x);
        let a = (m + x).push('<');
        assert(a.drop_last() =~= m + x);
        assert(depth(a) == depth(m) + 1);
        lemma_depth_same(a, y);
        let b = (a + y).push('>');
        assert(b.drop_last() =~= a + y);
        assert(b =~= m + f);
    }
}

proof fn lemma_cut_same(s: Seq<char>, f: Seq<char>)
    requires
        !f.contains(','),
    ensures
        cut_along(s, s).len() > 0,
        cut_along(s + f, s + f) == cut_along(s, s).drop_last().push(cut_along(s, s).last() + f),
    decreases f.len(),
{
    lemma_cut_some(s);
    let p = cut_along(s, s);
    if f.len() == 0 {
        assert(s + f =~= s);
        assert(p.last() + f =~= p.last());
        assert(p.drop_last().push(p.last()) =~= p);
    } else {
        let g = f.drop_last();
        assert(f[f.len() - 1] == f.last());
        if g.contains(',') {
            let i = choose|i: int| 0 <= i < g.len() && g[i] == ',';
            assert(f[i] == ',');
        }
        lemma_cut_same(s, g);
        assert((s + f).drop_last() =~= s + g);
        let q = cut_along(s + g, s + g);
        assert(q.drop_last() =~= p.drop_last());
        assert(q.last().push(f.last()) =~= p.last() + f);
    }
}

proof fn lemma_cut_some(s: Seq<char>)
    ensures
        cut_along(s, s).len() > 0,
    decreases s.len(),
{
    if s.len() > 0 {
        lemma_cut_some(s.drop_last());
    }
}

proof fn lemma_cut_list(v: Seq<Seq<char>>)
    requires
        v.len() > 0,
        forall|i: int| 0 <= i < v.len() ==> is_plain(#[trigger] v[i]),
    ensures
        cut_along(joined(v, seq![',']), joined(v, seq![','])) == v,
        depth(joined(v, seq![','])) == 0,
        !joined(v, seq![',']).contains('"'),
    decreases v.len(),
{
    let none = Seq::<char>::empty();
    let sep = seq![','];
    assert(is_plain(v[0]));
    if v.len() == 1 {
        lemma_cut_same(none, v[0]);
        lemma_depth_plain(none, v[0]);
        assert(none + v[0] =~= v[0]);
        assert(cut_along(none, none) =~= seq![none]);
        assert(seq![none].drop_last() =~= Seq::<Seq<char>>::empty());
        assert(Seq::<Seq<char>>::empty().push(v[0]) =~= v);
    } else {
        let front = v.drop_last();
        assert forall|i: int| 0 <= i < front.len() implies is_plain(#[trigger] front[i]) by {
            assert(is_plain(v[i]));
        }
        lemma_cut_list(front);
        let t = joined(front, sep);
        let a = t.push(',');
        assert(a.drop_last() =~= t);
        assert(cut_along(a, a) == front.push(none));
        assert(depth(a) == 0);
        assert(is_plain(v[v.len() - 1]));
        lemma_cut_same(a, v.last());
        lemma_depth_plain(a, v.last());
        let all = joined(v, sep);
        assert(all =~= a + v.last());
        assert(front.push(none).drop_last() =~= front);
        assert(none + v.last() =~= v.last());
        assert(front.push(v.last()) =~= v);
        if all.contains('"') {
            let i = choose|i: int| 0 <= i < all.len() && all[i] == '"';
            if i < t.len() {
                assert(t[i] == '"');
            } else {
                assert(v.last()[i - t.len() - 1] == '"');
            }
        }
    }
}

proof fn lemma_nothing_quoted(s: Seq<char>)
    requires
        !s.contains('"'),
    ensures
        outside_quotes(s) == s,
{
    assert forall|i: int| 0 <= i < s.len() implies !in_quotes(s, i) by {
        let t = s.take(i);
        if t.contains('"') {
            let k = choose|k: int| 0 <= k < t.len() && t[k] == '"';
            assert(s[k] == '"');
        }
        lemma_not_open(t);
    }
    assert(outside_quotes(s) =~= s);
}

proof fn lemma_not_open(s: Seq<char>)
    requires
        !s.contains('"'),
    ensures
        !quote_open(s),
    decreases s.len(),
{
    if s.len() > 0 {
        assert(s[s.len() - 1] == s.last());
        let t = s.drop_last();
        if t.contains('"') {
            let k = choose|k: int| 0 <= k < t.len() && t[k] == '"';
            assert(s[k] == '"');
        }
        lemma_not_open(t);
    }
}

/// Descriptions of mailboxes with commas between them are cut into these descriptions, whatever other
/// characters they hold.
pub proof fn law_plain_list(v: Seq<Seq<char>>)
    requires
        v.len() > 0,
        forall|i: int| 0 <= i < v.len() ==> is_plain(#[trigger] v[i]),
    ensures
        pieces(joined(v, seq![','])) == v,
{
    lemma_cut_list(v);
    let s = joined(v, seq![',']);
    lemma_nothing_quoted(s);
    assert(s.take(s.len() as int) =~= s);
}

/// Descriptions count without white space around them, and empty ones do not count.
pub proof fn law_descriptions(a: Seq<Seq<char>>, b: Seq<Seq<char>>, s: Seq<char>)
    ensures
        descriptions(a + b) == descriptions(a) + descriptions(b),
        trim(s).len() > 0 ==> descriptions(seq![s]) == seq![trim(s)],
        trim(s).len() == 0 ==> descriptions(seq![s]).len() == 0,
    decreases b.len(),
{
    assert(seq![s].drop_last() =~= Seq::<Seq<char>>::empty());
    assert(seq![s].last() == s);
    reveal_with_fuel(descriptions, 2);
    assert(Seq::<Seq<char>>::empty().push(trim(s)) =~= seq![trim(s)]);
    if b.len() == 0 {
        assert(a + b =~= a);
        assert(descriptions(a) + descriptions(b) =~= descriptions(a));
    } else {
        assert((a + b).drop_last() =~= a + b.drop_last());
        law_descriptions(a, b.drop_last(), s);
        assert(descriptions(a + b) =~= descriptions(a) + descriptions(b));
    }
}

proof fn lemma_line_unquoted(name: Seq<char>, address: Seq<char>)
    requires
        !name.contains('"'),
        !address.contains('"'),
    ensures
        !(name + seq![' ', '<'] + address + seq!['>']).contains('"'),
{
    let s = name + seq![' ', '<'] + address + seq!['>'];
    let n = name.len() as int;
    if s.contains('"') {
        let i = choose|i: int| 0 <= i < s.len() && s[i] == '"';
        if i < n {
            assert(name[i] == '"');
        } else if n + 2 <= i < s.len() - 1 {
            assert(address[i - n - 2] == '"');
        }
    }
}

proof fn lemma_brackets_at(name: Seq<char>, address: Seq<char>)
    requires
        !name.contains('<'),
    ensures
        first_index(name + seq![' ', '<'] + address + seq!['>'], '<') == Some(name.len() as int + 1),
        last_index(name + seq![' ', '<'] + address + seq!['>'], '>') == Some(
            name.len() as int + 2 + address.len(),
        ),
{
    let s = name + seq![' ', '<'] + address + seq!['>'];
    let before = name + seq![' '];
    assert(s =~= before + seq!['<'] + (address + seq!['>']));
    if before.contains('<') {
        let i = choose|i: int| 0 <= i < before.len() && before[i] == '<';
        assert(name[i] == '<');
    }
    lemma_first_bracket(before, address + seq!['>']);
    assert(s.last() == '>');
}

/// The angle brackets of a description are those around its address.
proof fn lemma_brackets(name: Seq<char>, address: Seq<char>)
    requires
        !name.contains('<') && !name.contains('"'),
        !address.contains('"'),
    ensures
        mailbox_brackets(name + seq![' ', '<'] + address + seq!['>']) == Some(
            (name.len() as int + 1, name.len() as int + 2 + address.len()),
        ),
{
    lemma_line_unquoted(name, address);
    lemma_nothing_quoted(name + seq![' ', '<'] + address + seq!['>']);
    lemma_brackets_at(name, address);
}

/// Nothing but an address has no angle brackets.
proof fn lemma_no_brackets(address: Seq<char>)
    requires
        !address.contains('<') && !address.contains('"'),
    ensures
        mailbox_brackets(address) is None,
{
    lemma_nothing_quoted(address);
    lemma_first_index(address, '<');
    if let Some(i) = first_index(address, '<') {
        assert(address[i] == '<');
    }
}

/// The description `Name <address>` is that of a mailbox with this name and this address.
pub proof fn law_plain_mailbox(name: Seq<char>, address: Seq<char>)
    requires
        name.len() > 0,
        ends_clean(name),
        !name.contains('<') && !name.contains('"'),
        ends_clean(address),
        !address.contains('"'),
    ensures
        mailbox_name(name + seq![' ', '<'] + address + seq!['>']) == Some(name),
        mailbox_email(name + seq![' ', '<'] + address + seq!['>']) == address,
{
    let s = name + seq![' ', '<'] + address + seq!['>'];
    let n = name.len() as int;
    lemma_brackets(name, address);
    assert(s.subrange(n + 2, n + 2 + address.len()) =~= address);
    assert(s.take(n + 1) =~= name + seq![' ']);
    lemma_trim_space(name);
    lemma_trim_fixed(name);
    lemma_trim_fixed(address);
    assert(unquoted(name) == name) by {
        if name[0] == '"' {
            assert(name.contains('"'));
        }
        if name.last() == '"' {
            assert(name[name.len() - 1] == '"');
            assert(name.contains('"'));
        }
    }
}

/// A description without angle brackets is that of a mailbox without a name.
pub proof fn law_bare_mailbox(address: Seq<char>)
    requires
        ends_clean(address),
        !address.contains('<') && !address.contains('"'),
    ensures
        mailbox_name(address) is None,
        mailbox_email(address) == address,
{
    lemma_no_brackets(address);
    lemma_trim_fixed(address);
}

/// The words that refuse an address name it and what is wrong with it.
pub proof fn law_bad_address(email: Seq<char>, e: Seq<char>)
    ensures
        has_word(bad_address(email, e), email),
        has_word(bad_address(email, e), e),
{
    let none = Seq::<char>::empty();
    lemma_between("Некорректный email '"@, email, "': "@ + e);
    assert(bad_address(email, e) =~= "Некорректный email '"@ + email + ("': "@ + e));
    lemma_between("Некорректный email '"@ + email + "': "@, e, none);
    assert(bad_address(email, e) =~= "Некорректный email '"@ + email + "': "@ + e + none);
}

// ---------------------------------------------------------------------------------------------
// Reports and contacts
// ---------------------------------------------------------------------------------------------

/// A report that a message was read names the subject of the message and who has read it.
pub proof fn law_report(original: Seq<char>, reader: Seq<char>)
    ensures
        has_word(receipt_subject(original), original),
        has_word(receipt_body(original, reader), original),
        has_word(receipt_body(original, reader), reader),
{
    let none = Seq::<char>::empty();
    lemma_between("Прочитано: "@, original, none);
    assert(receipt_subject(original) =~= "Прочитано: "@ + original + none);
    let a = "Это уведомление о том, что письмо \""@;
    let b = "\" было прочитано получателем "@;
    lemma_between(a, original, b + reader + "."@);
    assert(receipt_body(original, reader) =~= a + original + (b + reader + "."@));
    lemma_between(a + original + b, reader, "."@);
}

proof fn lemma_drop_bracket(address: Seq<char>)
    requires
        !address.contains('>'),
    ensures
        trim_back(Strip::Only('>'), address + seq!['>']) == address,
{
    let t = address + seq!['>'];
    assert(t.last() == '>');
    assert(t.drop_last() =~= address);
    if address.len() > 0 {
        assert(address[address.len() - 1] == address.last());
    }
    assert(trim_back(Strip::Only('>'), address) == address);
    assert(trim_back(Strip::Only('>'), t) == trim_back(Strip::Only('>'), t.drop_last()));
}

proof fn lemma_first_bracket(before: Seq<char>, after: Seq<char>)
    requires
        !before.contains('<'),
    ensures
        first_index(before + seq!['<'] + after, '<') == Some(before.len() as int),
        (before + seq!['<'] + after).skip((before.len() + 1) as int) == after,
        (before + seq!['<'] + after).take(before.len() as int) == before,
{
    let s = before + seq!['<'] + after;
    lemma_first_index(s, '<');
    assert(s[before.len() as int] == '<');
    assert forall|j: int| 0 <= j < before.len() implies s[j] != '<' by {
        assert(before[j] == s[j]);
    }
    assert(s.skip((before.len() + 1) as int) =~= after);
    assert(s.take(before.len() as int) =~= before);
}

proof fn lemma_trim_space(name: Seq<char>)
    requires
        ends_clean(name),
        name.len() > 0,
    ensures
        trim(name + seq![' ']) == name,
{
    let s = name + seq![' '];
    assert(s[0] == name[0]);
    assert(trim_front(Strip::White, s) == s);
    assert(s.last() == ' ');
    assert(s.drop_last() =~= name);
    assert(trim_back(Strip::White, name) == name);
    assert(trim_back(Strip::White, s) == trim_back(Strip::White, s.drop_last()));
}

/// The line `Name <address>` names a contact with this name and this address, and a report goes to this
/// address.
pub proof fn law_contact_line(name: Seq<char>, address: Seq<char>)
    requires
        name.len() > 0,
        ends_clean(name),
        !name.contains('<'),
        name[0] != '"' && name.last() != '"',
        ends_clean(address),
        !address.contains('>'),
    ensures
        contact_name(name + seq![' ', '<'] + address + seq!['>']) == name,
        contact_email(name + seq![' ', '<'] + address + seq!['>']) == address,
        receipt_email(name + seq![' ', '<'] + address + seq!['>']) == address,
{
    let s = name + seq![' ', '<'] + address + seq!['>'];
    let before = name + seq![' '];
    let after = address + seq!['>'];
    assert(s =~= before + seq!['<'] + after);
    if before.contains('<') {
        let i = choose|i: int| 0 <= i < before.len() && before[i] == '<';
        assert(name[i] == '<');
    }
    lemma_first_bracket(before, after);
    lemma_trim_space(name);
    lemma_drop_bracket(address);
    lemma_trim_fixed(address);
    assert(unquoted(name) == name);
    assert(s[0] == name[0]);
    assert(s.last() == '>');
    lemma_trim_fixed(s);
}

/// In the line `"Name" <address>` the quotation marks do not belong to the name.
pub proof fn law_contact_in_quotes(name: Seq<char>, address: Seq<char>)
    requires
        name.len() > 0,
        !name.contains('<'),
        !name.contains('"'),
        ends_clean(address),
        !address.contains('>'),
    ensures
        contact_name(seq!['"'] + name + seq!['"', ' ', '<'] + address + seq!['>']) == name,
        contact_email(seq!['"'] + name + seq!['"', ' ', '<'] + address + seq!['>']) == address,
{
    let q = seq!['"'] + name + seq!['"'];
    let s = seq!['"'] + name + seq!['"', ' ', '<'] + address + seq!['>'];
    let before = q + seq![' '];
    let after = address + seq!['>'];
    assert(s =~= before + seq!['<'] + after);
    if before.contains('<') {
        let i = choose|i: int| 0 <= i < before.len() && before[i] == '<';
        assert(name[i - 1] == '<');
    }
    lemma_first_bracket(before, after);
    assert(q[0] == '"' && q.last() == '"');
    lemma_trim_space(q);
    lemma_drop_bracket(address);
    lemma_trim_fixed(address);
    let k = Strip::Only('"');
    let f = name + seq!['"'];
    assert(q.drop_first() =~= f);
    assert(f[0] == name[0]);
    assert(name[0] != '"') by {
        if name[0] == '"' {
            assert(name.contains('"'));
        }
    }
    assert(trim_front(k, f) == f);
    assert(trim_front(k, q) == f);
    assert(f.last() == '"');
    assert(f.drop_last() =~= name);
    assert(name.last() != '"') by {
        if name.last() == '"' {
            assert(name[name.len() - 1] == '"');
            assert(name.contains('"'));
        }
    }
    assert(trim_back(k, name) == name);
    assert(trim_back(k, f) == name);
    assert(unquoted(q) == trim_both(k, q));
}

/// A line that is nothing but an address names a contact without a name, and a report goes to it.
pub proof fn law_bare_contact(address: Seq<char>)
    requires
        ends_clean(address),
        !address.contains('<'),
    ensures
        contact_name(address) == Seq::<char>::empty(),
        contact_email(address) == address,
        receipt_email(address) == address,
{
    lemma_trim_fixed(address);
    lemma_first_index(address, '<');
    assert(first_index(address, '<') is None) by {
        if let Some(i) = first_index(address, '<') {
            assert(address[i] == '<');
        }
    }
}

// ---------------------------------------------------------------------------------------------
// Refusals
// ---------------------------------------------------------------------------------------------

/// A message is refused exactly if the address of the sender or one of the recipients is, or if there is no
/// recipient, and the words say which field is meant and what is wrong with it.
pub proof fn law_refusal(
    e: Seq<char>,
    to: Result<Seq<MailboxView>, Seq<char>>,
    cc: Result<Seq<MailboxView>, Seq<char>>,
)
    ensures
        refusal(Some(e), to, cc) == Some("Email отправителя: "@ + e),
        to matches Err(m) ==> refusal(None, to, cc) == Some("Поле «Кому»: "@ + m),
        to matches Ok(v) ==> (v.len() == 0 ==> refusal(None, to, cc) == Some("Не указан получатель"@)),
        to matches Ok(v) ==> (v.len() > 0 ==> (cc matches Err(m) ==> refusal(None, to, cc) == Some(
            "Поле «Копия»: "@ + m,
        ))),
        refusal(None, to, cc) is None <==> (to matches Ok(v) && v.len() > 0) && cc is Ok,
{
}

/// The recipients are those that are named in their field, and the recipients of a copy those in theirs, of
/// which there may be none.
pub proof fn law_fields(to: Seq<char>, cc: Seq<char>)
    ensures
        recipients(to) == mailbox_list(trim(to)),
        trim(cc).len() > 0 ==> copies(cc) == mailbox_list(trim(cc)),
        trim(cc).len() == 0 ==> copies(cc) == Ok::<Seq<MailboxView>, Seq<char>>(Seq::empty()),
{
}

/// A file is sent under its name with the type that the user gave, if that is one, and otherwise with the
/// type that says nothing.
pub proof fn law_sent_file(f: OutgoingFile, a: FileAttachment)
    requires
        is_sent_file(f, a),
    ensures
        f.filename@ == a.filename@,
        content_type_accepted(a.mime_type@) ==> f.mime_type@ == a.mime_type@,
        !content_type_accepted(a.mime_type@) ==> f.mime_type@ == "application/octet-stream"@,
        content_of(f.data@, a.data_b64@),
{
}

} // verus!
