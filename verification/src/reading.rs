//! What is made of a received message: each header in its place, the texts that are shown, the files
//! and the preview.
use vstd::prelude::*;

use crate::message::{
    attached, attachments, bodies, content_type, disposition, header_names, in_tag, mail_of,
    no_bodies, on_one_line, parse_error, says_attachment, snippet, text_or_empty, untagged,
    BodiesView, PartView,
};
use crate::text::{
    begins_with, decimal, ends_clean, fold, has_word, lemma_trim_fixed, lowercase, trim, word_at,
};

verus! {

// ---------------------------------------------------------------------------------------------
// Headers
// ---------------------------------------------------------------------------------------------

/// A header of a part is the one with this name.
pub open spec fn is_named(i: int, name: Seq<char>) -> bool {
    0 <= i < header_names().len() && header_names()[i] == name
}

/// The value of a header, empty if there is none.
pub open spec fn value_or_empty(v: Option<Seq<char>>) -> Seq<char> {
    match v {
        Some(t) => t,
        None => Seq::empty(),
    }
}

proof fn lemma_names()
    ensures
        forall|i: int| is_named(i, "From"@) ==> i == 0,
        forall|i: int| is_named(i, "To"@) ==> i == 1,
        forall|i: int| is_named(i, "Cc"@) ==> i == 2,
        forall|i: int| is_named(i, "Subject"@) ==> i == 3,
        forall|i: int| is_named(i, "Date"@) ==> i == 4,
        forall|i: int| is_named(i, "Message-ID"@) ==> i == 5,
        forall|i: int| is_named(i, "Disposition-Notification-To"@) ==> i == 6,
        forall|i: int| is_named(i, "Return-Receipt-To"@) ==> i == 7,
        forall|i: int| is_named(i, "Content-Disposition"@) ==> i == 8,
        forall|i: int| is_named(i, "Content-Type"@) ==> i == 9,
        is_named(0, "From"@),
        is_named(1, "To"@),
        is_named(2, "Cc"@),
        is_named(3, "Subject"@),
        is_named(4, "Date"@),
        is_named(5, "Message-ID"@),
        is_named(6, "Disposition-Notification-To"@),
        is_named(7, "Return-Receipt-To"@),
        is_named(8, "Content-Disposition"@),
        is_named(9, "Content-Type"@),
        header_names().len() == 10,
{
    reveal_strlit("From");
    reveal_strlit("To");
    reveal_strlit("Cc");
    reveal_strlit("Subject");
    reveal_strlit("Date");
    reveal_strlit("Message-ID");
    reveal_strlit("Disposition-Notification-To");
    reveal_strlit("Return-Receipt-To");
    reveal_strlit("Content-Disposition");
    reveal_strlit("Content-Type");
    let h = header_names();
    assert(h[0] == "From"@ && h[0].len() == 4);
    assert(h[1] == "To"@ && h[1].len() == 2);
    assert(h[2] == "Cc"@ && h[2].len() == 2);
    assert(h[3] == "Subject"@ && h[3].len() == 7);
    assert(h[4] == "Date"@ && h[4].len() == 4);
    assert(h[5] == "Message-ID"@ && h[5].len() == 10);
    assert(h[6] == "Disposition-Notification-To"@ && h[6].len() == 27);
    assert(h[7] == "Return-Receipt-To"@ && h[7].len() == 17);
    assert(h[8] == "Content-Disposition"@ && h[8].len() == 19);
    assert(h[9] == "Content-Type"@ && h[9].len() == 12);
    assert(h[1][0] != h[2][0]);
    assert(h[0][0] != h[4][0]);
    assert("To"@[0] != "Cc"@[0]);
    assert("From"@[0] != "Date"@[0]);
    assert forall|i: int| is_named(i, "From"@) implies i == 0 by {
        lemma_ten(i);
        assert(h[i].len() == 4 && h[i][0] == 'F');
    }
    assert forall|i: int| is_named(i, "To"@) implies i == 1 by {
        lemma_ten(i);
        assert(h[i].len() == 2 && h[i][0] == 'T');
    }
    assert forall|i: int| is_named(i, "Cc"@) implies i == 2 by {
        lemma_ten(i);
        assert(h[i].len() == 2 && h[i][0] == 'C');
    }
    assert forall|i: int| is_named(i, "Subject"@) implies i == 3 by {
        lemma_ten(i);
        assert(h[i].len() == 7 && h[i][0] == 'S');
    }
    assert forall|i: int| is_named(i, "Date"@) implies i == 4 by {
        lemma_ten(i);
        assert(h[i].len() == 4 && h[i][0] == 'D');
    }
    assert forall|i: int| is_named(i, "Message-ID"@) implies i == 5 by {
        lemma_ten(i);
        assert(h[i].len() == 10 && h[i][0] == 'M');
    }
    assert forall|i: int| is_named(i, "Disposition-Notification-To"@) implies i == 6 by {
        lemma_ten(i);
        assert(h[i].len() == 27 && h[i][0] == 'D');
    }
    assert forall|i: int| is_named(i, "Return-Receipt-To"@) implies i == 7 by {
        lemma_ten(i);
        assert(h[i].len() == 17 && h[i][0] == 'R');
    }
    assert forall|i: int| is_named(i, "Content-Disposition"@) implies i == 8 by {
        lemma_ten(i);
        assert(h[i].len() == 19 && h[i][0] == 'C');
    }
    assert forall|i: int| is_named(i, "Content-Type"@) implies i == 9 by {
        lemma_ten(i);
        assert(h[i].len() == 12 && h[i][0] == 'C');
    }
}

proof fn lemma_ten(i: int)
    ensures
        0 <= i < 10 ==> i == 0 || i == 1 || i == 2 || i == 3 || i == 4 || i == 5 || i == 6 || i == 7 || i
            == 8 || i == 9,
{
}

/// Each header of a message gives the part of it that it is named after, and what is missing is empty.
pub proof fn law_headers(parts: Seq<PartView>, date_ts: int, i: int)
    requires
        parts.len() > 0,
        parts[0].headers.len() == header_names().len(),
        0 <= i < header_names().len(),
    ensures
        ({
            let m = mail_of(parts, date_ts);
            let v = value_or_empty(parts[0].headers[i]);
            &&& is_named(i, "From"@) ==> m.from == v
            &&& is_named(i, "To"@) ==> m.to == v
            &&& is_named(i, "Cc"@) ==> m.cc == v
            &&& is_named(i, "Subject"@) ==> m.subject == v
            &&& is_named(i, "Date"@) ==> m.date == v
            &&& is_named(i, "Message-ID"@) ==> m.message_id == v
            &&& is_named(i, "Content-Disposition"@) ==> disposition(parts[0]) == v
            &&& is_named(i, "Content-Type"@) ==> content_type(parts[0]) == v
            &&& m.date_ts == date_ts
        }),
{
    lemma_names();
}

/// Each of the names is one that the library asks for.
pub proof fn law_headers_are_asked_for()
    ensures
        forall|name: Seq<char>|
            name == "From"@ || name == "To"@ || name == "Cc"@ || name == "Subject"@ || name == "Date"@
                || name == "Message-ID"@ || name == "Disposition-Notification-To"@ || name
                == "Return-Receipt-To"@ || name == "Content-Disposition"@ || name == "Content-Type"@
                ==> #[trigger] header_names().contains(name),
{
    lemma_names();
    assert forall|i: int| 0 <= i < 10 implies header_names().contains(header_names()[i]) by {}
}

/// A report that a message was read goes to the address in the header made for that, where there is one,
/// else to the one in the older header, and nowhere if that header is empty.
pub proof fn law_receipt_header(parts: Seq<PartView>, date_ts: int, i: int, j: int)
    requires
        parts.len() > 0,
        parts[0].headers.len() == header_names().len(),
        is_named(i, "Disposition-Notification-To"@),
        is_named(j, "Return-Receipt-To"@),
    ensures
        ({
            let to = mail_of(parts, date_ts).read_receipt_to;
            let wanted = if parts[0].headers[i] is Some {
                parts[0].headers[i]
            } else {
                parts[0].headers[j]
            };
            &&& wanted is None ==> to is None
            &&& wanted matches Some(t) ==> (t.len() == 0 ==> to is None) && (t.len() > 0 ==> to == Some(
                t,
            ))
        }),
{
    lemma_names();
}

/// The words of the error for a message that cannot be read name its number and what is wrong with it.
pub proof fn law_parse_error(uid: nat, e: Seq<char>)
    ensures
        has_word(parse_error(uid, e), decimal(uid)),
        has_word(parse_error(uid, e), e),
{
    let s = parse_error(uid, e);
    let a = "parse_mail error uid="@;
    let d = decimal(uid);
    assert(s.subrange(a.len() as int, (a.len() + d.len()) as int) =~= d);
    assert(word_at(s, d, a.len() as int));
    assert(s.subrange(s.len() - e.len(), s.len() as int) =~= e);
    assert(word_at(s, e, s.len() - e.len()));
}

// ---------------------------------------------------------------------------------------------
// Texts
// ---------------------------------------------------------------------------------------------

/// The first text of a type that is not empty, among the parts from the `i`-th on.
pub open spec fn first_text(parts: Seq<PartView>, i: int, mime: Seq<char>) -> Seq<char>
    decreases parts.len() - i,
{
    if i < 0 || i >= parts.len() {
        Seq::empty()
    } else if fold(parts[i].mimetype) == mime && text_or_empty(parts[i]).len() > 0 {
        text_or_empty(parts[i])
    } else {
        first_text(parts, i + 1, mime)
    }
}

/// No part says that it is an attachment, and a part with a text contains no others.
pub open spec fn only_texts(parts: Seq<PartView>) -> bool {
    forall|i: int|
        0 <= i < parts.len() ==> !has_word(fold(disposition(#[trigger] parts[i])), "attachment"@) && (
        fold(parts[i].mimetype) == "text/plain"@ || fold(parts[i].mimetype) == "text/html"@
            ==> parts[i].size <= 1)
}

proof fn lemma_bodies(parts: Seq<PartView>, i: int, b: BodiesView)
    requires
        only_texts(parts),
        0 <= i,
    ensures
        bodies(parts, i, b).text == (if b.text.len() > 0 {
            b.text
        } else {
            first_text(parts, i, "text/plain"@)
        }),
        bodies(parts, i, b).html == (if b.html.len() > 0 {
            b.html
        } else {
            first_text(parts, i, "text/html"@)
        }),
        bodies(parts, i, b).attach == b.attach,
    decreases parts.len() - i,
{
    reveal_strlit("text/plain");
    reveal_strlit("text/html");
    assert("text/plain"@.len() != "text/html"@.len());
    if i < parts.len() {
        let p = parts[i];
        assert(!has_word(fold(disposition(parts[i])), "attachment"@));
        if fold(p.mimetype) == "text/plain"@ && b.text.len() == 0 {
            assert(fold(p.mimetype) != "text/html"@);
            lemma_bodies(parts, i + 1, BodiesView { text: text_or_empty(p), ..b });
        } else if fold(p.mimetype) == "text/html"@ && b.html.len() == 0 {
            lemma_bodies(parts, i + 1, BodiesView { html: text_or_empty(p), ..b });
        } else {
            lemma_bodies(parts, i + 1, b);
        }
    } else {
        assert(b.text.len() == 0 ==> b.text =~= Seq::<char>::empty());
        assert(b.html.len() == 0 ==> b.html =~= Seq::<char>::empty());
    }
}

/// Of a message without attachments the first plain text and the first HTML text are shown that are not
/// empty, and the preview is made of the plain text, or else of the HTML text without its tags.
pub proof fn law_texts(parts: Seq<PartView>, date_ts: int)
    requires
        only_texts(parts),
        attachments(parts).len() == 0,
    ensures
        ({
            let m = mail_of(parts, date_ts);
            let plain = first_text(parts, 0, "text/plain"@);
            let html = first_text(parts, 0, "text/html"@);
            &&& m.body_text == plain
            &&& m.body_html == html
            &&& !m.has_attachment
            &&& plain.len() > 0 ==> m.snippet == snippet(plain, 100)
            &&& plain.len() == 0 && html.len() > 0 ==> m.snippet == snippet(untagged(html), 100)
        }),
{
    lemma_bodies(parts, 0, no_bodies(false));
}

// ---------------------------------------------------------------------------------------------
// Files
// ---------------------------------------------------------------------------------------------

/// The files of some parts are those of the first of them, then those of the rest.
pub proof fn law_files_join(a: Seq<PartView>, b: Seq<PartView>)
    ensures
        attachments(a + b) == attachments(a) + attachments(b),
    decreases b.len(),
{
    if b.len() == 0 {
        assert(a + b =~= a);
        assert(attachments(a) + attachments(b) =~= attachments(a));
    } else {
        assert((a + b).drop_last() =~= a + b.drop_last());
        law_files_join(a, b.drop_last());
        assert(attachments(a + b) =~= attachments(a) + attachments(b));
    }
}

/// A part that calls itself an attachment, contains no others and has a content that is not empty gives
/// one file with this content and this type.
pub proof fn law_one_file(p: PartView)
    requires
        has_word(fold(disposition(p)), "attachment"@),
        p.size <= 1,
        p.raw matches Some(d) && d.len() > 0,
    ensures
        attachments(seq![p]).len() == 1,
        attachments(seq![p])[0].data == p.raw->0,
        attachments(seq![p])[0].mime_type == lowercase(p.mimetype),
{
    assert(seq![p].drop_last() =~= Seq::<PartView>::empty());
    reveal_with_fuel(attachments, 2);
    assert(seq![p].last() == p);
    assert(attached(p) is Some);
}

/// A part that neither calls itself an attachment nor has the name of a file gives none.
pub proof fn law_no_file(p: PartView)
    requires
        !has_word(fold(disposition(p)), "attachment"@),
        !has_word(fold(disposition(p)), "filename"@),
        !has_word(fold(content_type(p)), "name="@),
    ensures
        attachments(seq![p]).len() == 0,
        !says_attachment(p),
{
    assert(seq![p].drop_last() =~= Seq::<PartView>::empty());
    reveal_with_fuel(attachments, 2);
    assert(seq![p].last() == p);
}

proof fn lemma_attach(parts: Seq<PartView>, i: int, b: BodiesView)
    requires
        0 <= i,
        forall|k: int|
            0 <= k < parts.len() ==> !has_word(fold(disposition(#[trigger] parts[k])), "attachment"@),
    ensures
        bodies(parts, i, b).attach == b.attach,
    decreases parts.len() - i,
{
    if i < parts.len() {
        let p = parts[i];
        assert(!has_word(fold(disposition(parts[i])), "attachment"@));
        let j = crate::message::after_part(parts, i);
        if fold(p.mimetype) == "text/plain"@ && b.text.len() == 0 {
            lemma_attach(parts, j, BodiesView { text: text_or_empty(p), ..b });
        } else if fold(p.mimetype) == "text/html"@ && b.html.len() == 0 {
            lemma_attach(parts, j, BodiesView { html: text_or_empty(p), ..b });
        } else {
            lemma_attach(parts, i + 1, b);
        }
    }
}

/// A message is not marked as having attachments if it has no files and no part calls itself one.
pub proof fn law_no_attachment(parts: Seq<PartView>, date_ts: int)
    requires
        attachments(parts).len() == 0,
        forall|k: int|
            0 <= k < parts.len() ==> !has_word(fold(disposition(#[trigger] parts[k])), "attachment"@),
    ensures
        !mail_of(parts, date_ts).has_attachment,
{
    lemma_attach(parts, 0, no_bodies(false));
}

// ---------------------------------------------------------------------------------------------
// The preview
// ---------------------------------------------------------------------------------------------

/// Line breaks are dropped from texts that follow each other as from the whole.
pub proof fn law_one_line_joins(a: Seq<char>, b: Seq<char>)
    ensures
        on_one_line(a + b) == on_one_line(a) + on_one_line(b),
    decreases b.len(),
{
    if b.len() == 0 {
        assert(a + b =~= a);
        assert(on_one_line(a) + on_one_line(b) =~= on_one_line(a));
    } else {
        assert((a + b).drop_last() =~= a + b.drop_last());
        law_one_line_joins(a, b.drop_last());
        assert(on_one_line(a + b) =~= on_one_line(a) + on_one_line(b));
    }
}

/// A text without line breaks is on one line as it is.
pub proof fn law_one_line_keeps(s: Seq<char>)
    requires
        !s.contains('\r'),
        !s.contains('\n'),
    ensures
        on_one_line(s) == s,
    decreases s.len(),
{
    if s.len() > 0 {
        let t = s.drop_last();
        assert(s[s.len() - 1] == s.last());
        assert forall|c: char| !s.contains(c) implies !t.contains(c) by {
            if t.contains(c) {
                let i = choose|i: int| 0 <= i < t.len() && t[i] == c;
                assert(s[i] == c);
            }
        }
        law_one_line_keeps(t);
        assert(on_one_line(s) =~= s);
    } else {
        assert(on_one_line(s) =~= s);
    }
}

/// The preview of a text without line breaks and without white space at its ends is the text, if it is
/// short enough, and otherwise its beginning with an ellipsis.
pub proof fn law_preview(s: Seq<char>, max: nat)
    requires
        !s.contains('\r'),
        !s.contains('\n'),
        ends_clean(s),
    ensures
        s.len() <= max ==> snippet(s, max) == s,
        s.len() > max ==> snippet(s, max) == s.take(max as int) + seq!['…'],
{
    law_one_line_keeps(s);
    lemma_trim_fixed(s);
    assert(s.len() > max ==> s.take(max as int).push('…') =~= s.take(max as int) + seq!['…']);
}

/// A preview is made of the text on one line, without white space at its ends.
pub proof fn law_preview_of_line(s: Seq<char>, max: nat)
    ensures
        snippet(s, max) == snippet(trim(on_one_line(s)), max),
{
    let t = trim(on_one_line(s));
    crate::message::law_snippet(s, t.len());
    assert(snippet(s, t.len()) == t);
    assert forall|c: char| c == '\r' || c == '\n' implies !t.contains(c) by {
        if t.contains(c) {
            let i = choose|i: int| 0 <= i < t.len() && t[i] == c;
            assert(snippet(s, t.len())[i] == c);
        }
    }
    law_one_line_keeps(t);
    crate::text::lemma_trim(on_one_line(s));
    lemma_trim_fixed(t);
}

/// A text without angle brackets that follows a text without an open tag is kept as it is.
pub proof fn law_text_is_kept(s: Seq<char>, t: Seq<char>)
    requires
        !in_tag(s),
        !t.contains('<'),
        !t.contains('>'),
    ensures
        untagged(s + t) == untagged(s) + t,
        !in_tag(s + t),
    decreases t.len(),
{
    if t.len() == 0 {
        assert(s + t =~= s);
        assert(untagged(s) + t =~= untagged(s));
    } else {
        let u = t.drop_last();
        assert(t[t.len() - 1] == t.last());
        assert forall|c: char| !t.contains(c) implies !u.contains(c) by {
            if u.contains(c) {
                let i = choose|i: int| 0 <= i < u.len() && u[i] == c;
                assert(t[i] == c);
            }
        }
        law_text_is_kept(s, u);
        assert((s + t).drop_last() =~= s + u);
        assert(untagged(s + t) =~= untagged(s) + t);
    }
}

proof fn lemma_inside(s: Seq<char>, t: Seq<char>)
    requires
        in_tag(s),
        !t.contains('<'),
        !t.contains('>'),
    ensures
        untagged(s + t) == untagged(s),
        in_tag(s + t),
    decreases t.len(),
{
    if t.len() == 0 {
        assert(s + t =~= s);
    } else {
        let u = t.drop_last();
        assert(t[t.len() - 1] == t.last());
        assert forall|c: char| !t.contains(c) implies !u.contains(c) by {
            if u.contains(c) {
                let i = choose|i: int| 0 <= i < u.len() && u[i] == c;
                assert(t[i] == c);
            }
        }
        lemma_inside(s, u);
        assert((s + t).drop_last() =~= s + u);
    }
}

/// A tag is dropped, and leaves one space.
pub proof fn law_tag_is_dropped(s: Seq<char>, tag: Seq<char>)
    requires
        !in_tag(s),
        !tag.contains('<'),
        !tag.contains('>'),
    ensures
        untagged(s + seq!['<'] + tag + seq!['>']) == untagged(s) + seq![' '],
        !in_tag(s + seq!['<'] + tag + seq!['>']),
{
    let a = s.push('<');
    assert(a.drop_last() =~= s);
    assert(s + seq!['<'] =~= a);
    lemma_inside(a, tag);
    let b = (a + tag).push('>');
    assert(b.drop_last() =~= a + tag);
    assert(s + seq!['<'] + tag + seq!['>'] =~= b);
    assert(untagged(b) =~= untagged(s) + seq![' ']);
}

/// What an attachment contains is passed over when the texts of a message are looked for, and the message is
/// marked as having an attachment; so is what a text contains.
pub proof fn law_contained_parts(parts: Seq<PartView>, i: int, b: BodiesView)
    requires
        0 <= i,
        1 <= parts[i].size,
        i + parts[i].size <= parts.len(),
    ensures
        ({
            let p = parts[i];
            let next = i + p.size;
            let attachment = has_word(fold(disposition(p)), "attachment"@);
            &&& attachment ==> bodies(parts, i, b) == bodies(
                parts,
                next,
                BodiesView { attach: true, ..b },
            )
            &&& !attachment && fold(p.mimetype) == "text/plain"@ && b.text.len() == 0 ==> bodies(
                parts,
                i,
                b,
            ) == bodies(parts, next, BodiesView { text: value_or_empty(p.text), ..b })
            &&& !attachment && fold(p.mimetype) == "text/html"@ && b.html.len() == 0 ==> bodies(
                parts,
                i,
                b,
            ) == bodies(parts, next, BodiesView { html: value_or_empty(p.text), ..b })
            &&& !attachment && fold(p.mimetype) != "text/plain"@ && fold(p.mimetype) != "text/html"@
                ==> bodies(parts, i, b) == bodies(parts, i + 1, b)
        }),
{
    reveal_strlit("text/plain");
    reveal_strlit("text/html");
    assert("text/plain"@.len() != "text/html"@.len());
}

/// A part that contains others, or whose content is empty or cannot be decoded, gives no file; a part with the
/// name of a file does, if it is no container.
pub proof fn law_files_by_name(p: PartView)
    ensures
        p.size > 1 ==> attachments(seq![p]).len() == 0,
        p.raw is None ==> attachments(seq![p]).len() == 0,
        p.raw matches Some(d) ==> (d.len() == 0 ==> attachments(seq![p]).len() == 0),
        p.size <= 1 && (has_word(fold(disposition(p)), "filename"@) || has_word(
            fold(content_type(p)),
            "name="@,
        )) && !begins_with(fold(p.mimetype), "multipart/"@) ==> (p.raw matches Some(d) ==> (d.len() > 0
            ==> attachments(seq![p]).len() == 1 && attachments(seq![p])[0].data == d)),
        begins_with(fold(p.mimetype), "multipart/"@) && !has_word(fold(disposition(p)), "attachment"@)
            ==> attachments(seq![p]).len() == 0,
{
    assert(seq![p].drop_last() =~= Seq::<PartView>::empty());
    reveal_with_fuel(attachments, 2);
    assert(seq![p].last() == p);
}

} // verus!
