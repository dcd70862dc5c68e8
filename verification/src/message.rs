//! What the library takes from a received message: its headers, its bodies and its attachments.
use mailparse::MailHeaderMap;
use vstd::prelude::*;
use vstd::slice::{slice_subrange, slice_to_vec};

use crate::filenames::{clean_name, extract_filename, file_name, law_file_name_is_clean};
use crate::statements::maybe;
use crate::text::{
    begins_with, decimal, fold, fold_has, fold_starts, folds_to, from_chars, has_word, join2,
    lemma_trim, lowercase, to_chars, to_lowercase, trim, trimmed, u64_to_string, views,
};

verus! {

// ---------------------------------------------------------------------------------------------
// Snippets
// ---------------------------------------------------------------------------------------------

/// A text without its line breaks.
pub open spec fn on_one_line(s: Seq<char>) -> Seq<char>
    decreases s.len(),
{
    if s.len() == 0 {
        Seq::empty()
    } else if s.last() == '\r' || s.last() == '\n' {
        on_one_line(s.drop_last())
    } else {
        on_one_line(s.drop_last()).push(s.last())
    }
}

/// The beginning of a text: at most `max` characters, and an ellipsis if something is left out.
pub open spec fn snippet(s: Seq<char>, max: nat) -> Seq<char> {
    let t = trim(on_one_line(s));
    if t.len() <= max {
        t
    } else {
        t.take(max as int).push('…')
    }
}

/// `snippet`, computed.
pub fn snippet_from_text(text: &str, max: usize) -> (r: String)
    ensures
        r@ == snippet(text@, max as nat),
{
    let v = to_chars(text);
    let mut kept: Vec<char> = Vec::new();
    let mut i: usize = 0;
    while i < v.len()
        invariant
            i <= v@.len(),
            kept@ == on_one_line(v@.take(i as int)),
        decreases v@.len() - i,
    {
        assert(v@.take(i + 1).drop_last() =~= v@.take(i as int));
        if v[i] != '\r' && v[i] != '\n' {
            kept.push(v[i]);
        }
        i += 1;
    }
    assert(v@.take(i as int) =~= v@);
    let t = trimmed(&kept);
    if t.len() <= max {
        from_chars(t)
    } else {
        let head = slice_subrange(t, 0, max);
        assert(head@ =~= t@.take(max as int));
        let mut r = from_chars(head);
        r.push('…');
        r
    }
}

proof fn lemma_on_one_line(s: Seq<char>)
    ensures
        forall|i: int|
            0 <= i < on_one_line(s).len() ==> (#[trigger] on_one_line(s)[i]) != '\r' && on_one_line(
                s,
            )[i] != '\n',
    decreases s.len(),
{
    if s.len() > 0 {
        let t = s.drop_last();
        lemma_on_one_line(t);
        assert forall|i: int| 0 <= i < on_one_line(s).len() implies (#[trigger] on_one_line(s)[i])
            != '\r' && on_one_line(s)[i] != '\n' by {
            if i < on_one_line(t).len() {
                assert(on_one_line(s)[i] == on_one_line(t)[i]);
            }
        }
    }
}

/// A snippet has at most one character more than was asked for, and holds no line break.
pub proof fn law_snippet(s: Seq<char>, max: nat)
    ensures
        snippet(s, max).len() <= max + 1,
        forall|i: int|
            0 <= i < snippet(s, max).len() ==> (#[trigger] snippet(s, max)[i]) != '\r' && snippet(
                s,
                max,
            )[i] != '\n',
{
    let a = on_one_line(s);
    let t = trim(a);
    lemma_on_one_line(s);
    lemma_trim(a);
    assert forall|i: int| 0 <= i < snippet(s, max).len() implies (#[trigger] snippet(s, max)[i])
        != '\r' && snippet(s, max)[i] != '\n' by {
        if i < t.len() && i < max {
            assert(snippet(s, max)[i] == t[i]);
        }
    }
}

/// Whether the end of a text stands inside a tag.
pub open spec fn in_tag(s: Seq<char>) -> bool
    decreases s.len(),
{
    s.len() > 0 && (s.last() == '<' || (s.last() != '>' && in_tag(s.drop_last())))
}

/// A text without its tags, each end of a tag leaving one space.
pub open spec fn untagged(s: Seq<char>) -> Seq<char>
    decreases s.len(),
{
    if s.len() == 0 {
        Seq::empty()
    } else if s.last() == '>' {
        untagged(s.drop_last()).push(' ')
    } else if in_tag(s) {
        untagged(s.drop_last())
    } else {
        untagged(s.drop_last()).push(s.last())
    }
}

/// `untagged`, computed.
pub fn without_tags(html: &str) -> (r: String)
    ensures
        r@ == untagged(html@),
{
    let v = to_chars(html);
    let mut out: Vec<char> = Vec::new();
    let mut inside = false;
    let mut i: usize = 0;
    while i < v.len()
        invariant
            i <= v@.len(),
            inside == in_tag(v@.take(i as int)),
            out@ == untagged(v@.take(i as int)),
        decreases v@.len() - i,
    {
        assert(v@.take(i + 1).drop_last() =~= v@.take(i as int));
        let c = v[i];
        if c == '<' {
            inside = true;
        } else if c == '>' {
            inside = false;
            out.push(' ');
        } else if !inside {
            out.push(c);
        }
        i += 1;
    }
    assert(v@.take(i as int) =~= v@);
    from_chars(&out)
}

/// Without its tags a text holds no angle bracket.
pub proof fn law_untagged(s: Seq<char>)
    ensures
        forall|i: int|
            0 <= i < untagged(s).len() ==> (#[trigger] untagged(s)[i]) != '<' && untagged(s)[i]
                != '>',
    decreases s.len(),
{
    if s.len() > 0 {
        let t = s.drop_last();
        law_untagged(t);
        assert forall|i: int| 0 <= i < untagged(s).len() implies (#[trigger] untagged(s)[i]) != '<'
            && untagged(s)[i] != '>' by {
            if i < untagged(t).len() {
                assert(untagged(s)[i] == untagged(t)[i]);
            }
        }
    }
}

// ---------------------------------------------------------------------------------------------
// The parts of a message
// ---------------------------------------------------------------------------------------------

/// One part of a message. The parts of a message are listed as they stand in it: each part is
/// followed by the parts that it contains.
pub struct MailPart {
    /// The first value of each header that was asked for.
    pub headers: Vec<Option<String>>,
    /// The type of the content, without its parameters.
    pub mimetype: String,
    /// How many parts stand in the list for this one: itself and those that it contains.
    pub size: usize,
    /// The content without its transfer encoding, if that can be undone.
    pub raw: Option<Vec<u8>>,
    /// The content as text, if it can be read as such.
    pub text: Option<String>,
}

/// What a part of a message holds.
#[verifier::ext_equal]
pub struct PartView {
    pub headers: Seq<Option<Seq<char>>>,
    pub mimetype: Seq<char>,
    pub size: nat,
    pub raw: Option<Seq<u8>>,
    pub text: Option<Seq<char>>,
}

/// What a list of optional texts holds.
pub open spec fn maybe_views(v: Seq<Option<String>>) -> Seq<Option<Seq<char>>> {
    Seq::new(v.len(), |i: int| maybe(v[i]))
}

impl View for MailPart {
    type V = PartView;

    open spec fn view(&self) -> PartView {
        PartView {
            headers: maybe_views(self.headers@),
            mimetype: self.mimetype@,
            size: self.size as nat,
            raw: match self.raw {
                Some(b) => Some(b@),
                None => None,
            },
            text: maybe(self.text),
        }
    }
}

/// What a list of parts holds.
pub open spec fn part_views(v: Seq<MailPart>) -> Seq<PartView> {
    Seq::new(v.len(), |i: int| v[i]@)
}

/// The parts that `mailparse::parse_mail` finds in a message, or the words of its error.
pub uninterp spec fn parsed_mail(raw: Seq<u8>, keys: Seq<Seq<char>>) -> Result<
    Seq<PartView>,
    Seq<char>,
>;

/// `mailparse::parse_mail`, with what its `ParsedMail` gives for each part that its method `parts`
/// lists: the first value of each header in `keys` (`get_first_value`), the content type, the
/// number of parts that `parts` lists for the part itself, the decoded content (`get_body_raw`) and
/// the content as text (`get_body`). All of it depends on the bytes and the names alone; the
/// contract gives it a name. `mailparse` calls itself once for each level of parts within parts, so
/// nothing is said of a message nested so deeply that the stack runs out.
#[verifier::external_body]
fn parse_mail(raw: &[u8], keys: &Vec<String>) -> (r: Result<Vec<MailPart>, String>)
    ensures
        match r {
            Ok(parts) => parsed_mail(raw@, views(keys@)) == Ok::<Seq<PartView>, Seq<char>>(
                part_views(parts@),
            ),
            Err(e) => parsed_mail(raw@, views(keys@)) == Err::<Seq<PartView>, Seq<char>>(e@),
        },
{
    let mail = mailparse::parse_mail(raw).map_err(|e| e.to_string())?;
    let part = |p: &mailparse::ParsedMail| MailPart {
        headers: keys.iter().map(|k| p.headers.as_slice().get_first_value(k)).collect(),
        mimetype: p.ctype.mimetype.clone(),
        size: p.parts().count(),
        raw: p.get_body_raw().ok(),
        text: p.get_body().ok(),
    };
    Ok(mail.parts().map(part).collect())
}

/// The seconds since 1970 that `mailparse::dateparse` reads from a date.
pub uninterp spec fn date_seconds(date: Seq<char>) -> Option<i64>;

/// `mailparse::dateparse`: the date of a message as seconds since 1970, if it can be read. The
/// contract gives the result a name.
#[verifier::external_body]
fn parse_date(date: &str) -> (r: Option<i64>)
    ensures
        r == date_seconds(date@),
{
    mailparse::dateparse(date).ok()
}

/// The headers that the library reads.
pub open spec fn header_names() -> Seq<Seq<char>> {
    seq![
        "From"@,
        "To"@,
        "Cc"@,
        "Subject"@,
        "Date"@,
        "Message-ID"@,
        "Disposition-Notification-To"@,
        "Return-Receipt-To"@,
        "Content-Disposition"@,
        "Content-Type"@,
    ]
}

/// `header_names`, computed.
pub fn header_keys() -> (r: Vec<String>)
    ensures
        views(r@) == header_names(),
{
    let mut r: Vec<String> = Vec::new();
    r.push("From".to_owned());
    r.push("To".to_owned());
    r.push("Cc".to_owned());
    r.push("Subject".to_owned());
    r.push("Date".to_owned());
    r.push("Message-ID".to_owned());
    r.push("Disposition-Notification-To".to_owned());
    r.push("Return-Receipt-To".to_owned());
    r.push("Content-Disposition".to_owned());
    r.push("Content-Type".to_owned());
    assert(views(r@) =~= header_names());
    r
}

/// A header of a part, empty if the part has none.
pub open spec fn header(p: PartView, i: int) -> Seq<char> {
    if 0 <= i < p.headers.len() && p.headers[i] is Some {
        p.headers[i]->0
    } else {
        Seq::empty()
    }
}

fn header_of(p: &MailPart, i: usize) -> (r: String)
    ensures
        r@ == header(p@, i as int),
{
    if i < p.headers.len() {
        match &p.headers[i] {
            Some(s) => {
                let r = s.clone();
                assert(p@.headers[i as int] == Some(s@));
                r
            },
            None => {
                let r = String::new();
                assert(p@.headers[i as int] is None);
                assert(r@ =~= Seq::<char>::empty());
                r
            },
        }
    } else {
        let r = String::new();
        assert(r@ =~= Seq::<char>::empty());
        r
    }
}

/// The `Content-Disposition` of a part.
pub open spec fn disposition(p: PartView) -> Seq<char> {
    header(p, 8)
}

/// The `Content-Type` of a part.
pub open spec fn content_type(p: PartView) -> Seq<char> {
    header(p, 9)
}

// ---------------------------------------------------------------------------------------------
// Attachments
// ---------------------------------------------------------------------------------------------

/// A file attached to a message.
pub struct Attachment {
    pub filename: String,
    pub mime_type: String,
    pub data: Vec<u8>,
}

/// What an attached file is.
#[verifier::ext_equal]
pub struct AttachmentView {
    pub filename: Seq<char>,
    pub mime_type: Seq<char>,
    pub data: Seq<u8>,
}

impl View for Attachment {
    type V = AttachmentView;

    open spec fn view(&self) -> AttachmentView {
        AttachmentView {
            filename: self.filename@,
            mime_type: self.mime_type@,
            data: self.data@,
        }
    }
}

/// What a list of attached files is.
pub open spec fn attachment_views(v: Seq<Attachment>) -> Seq<AttachmentView> {
    Seq::new(v.len(), |i: int| v[i]@)
}

/// A part that says it is an attachment, or that has the name of a file and is no container.
pub open spec fn says_attachment(p: PartView) -> bool {
    let cd = fold(disposition(p));
    ||| has_word(cd, "attachment"@)
    ||| (has_word(cd, "filename"@) || has_word(fold(content_type(p)), "name="@)) && !begins_with(
        fold(p.mimetype),
        "multipart/"@,
    )
}

/// The file in a part: the part says that it is an attachment, contains no other part, and its
/// content can be decoded and is not empty.
pub open spec fn attached(p: PartView) -> Option<AttachmentView> {
    match p.raw {
        Some(data) => if says_attachment(p) && p.size <= 1 && data.len() > 0 {
            Some(
                AttachmentView {
                    filename: file_name(disposition(p), content_type(p)),
                    mime_type: lowercase(p.mimetype),
                    data,
                },
            )
        } else {
            None
        },
        None => None,
    }
}

/// The files in a message, in the order of its parts.
pub open spec fn attachments(parts: Seq<PartView>) -> Seq<AttachmentView>
    decreases parts.len(),
{
    if parts.len() == 0 {
        Seq::empty()
    } else {
        match attached(parts.last()) {
            Some(a) => attachments(parts.drop_last()).push(a),
            None => attachments(parts.drop_last()),
        }
    }
}

fn is_attachment(p: &MailPart, cd: &str, ct: &str) -> (r: bool)
    requires
        cd@ == disposition(p@),
        ct@ == content_type(p@),
    ensures
        r == says_attachment(p@),
{
    let cd = to_chars(cd);
    let ct = to_chars(ct);
    let mime = to_chars(p.mimetype.as_str());
    fold_has(&cd, "attachment") || (fold_has(&cd, "filename") || fold_has(&ct, "name="))
        && !fold_starts(&mime, "multipart/")
}

/// Collects the files in a message.
pub fn collect_attachments(parts: &Vec<MailPart>) -> (r: Vec<Attachment>)
    ensures
        attachment_views(r@) == attachments(part_views(parts@)),
{
    let mut result: Vec<Attachment> = Vec::new();
    let ghost ps = part_views(parts@);
    let mut i: usize = 0;
    assert(attachment_views(result@) =~= Seq::<AttachmentView>::empty());
    while i < parts.len()
        invariant
            i <= parts@.len(),
            ps == part_views(parts@),
            attachment_views(result@) == attachments(ps.take(i as int)),
        decreases parts@.len() - i,
    {
        let p = &parts[i];
        assert(ps.take(i + 1).drop_last() =~= ps.take(i as int));
        assert(ps.take(i + 1).last() == p@);
        let cd = header_of(p, 8);
        let ct = header_of(p, 9);
        if is_attachment(p, cd.as_str(), ct.as_str()) && p.size <= 1 {
            match &p.raw {
                Some(data) => {
                    if data.len() > 0 {
                        let a = Attachment {
                            filename: extract_filename(cd.as_str(), ct.as_str()),
                            mime_type: to_lowercase(p.mimetype.as_str()),
                            data: slice_to_vec(data.as_slice()),
                        };
                        let ghost before = result@;
                        assert(a@ =~= attached(p@)->0);
                        result.push(a);
                        assert(attachment_views(result@) =~= attachment_views(before).push(a@));
                    }
                },
                None => {},
            }
        }
        i += 1;
    }
    assert(ps.take(i as int) =~= ps);
    result
}

// ---------------------------------------------------------------------------------------------
// Bodies
// ---------------------------------------------------------------------------------------------

/// What has been found so far of a message's bodies.
#[verifier::ext_equal]
pub struct BodiesView {
    pub text: Seq<char>,
    pub html: Seq<char>,
    pub attach: bool,
}

/// The place of the part that follows a part and all that it contains.
pub open spec fn after_part(parts: Seq<PartView>, i: int) -> int {
    if parts[i].size <= 1 {
        i + 1
    } else if parts[i].size >= parts.len() - i {
        parts.len() as int
    } else {
        i + parts[i].size
    }
}

/// The text of a part, empty if its content cannot be read as text.
pub open spec fn text_or_empty(p: PartView) -> Seq<char> {
    match p.text {
        Some(t) => t,
        None => Seq::empty(),
    }
}

/// What is found of the bodies in the parts from the `i`-th on. An attachment is noted and what it
/// contains is passed over; the first plain text and the first HTML text that are not empty are
/// taken; any other part is entered.
pub open spec fn bodies(parts: Seq<PartView>, i: int, b: BodiesView) -> BodiesView
    decreases parts.len() - i,
{
    if i < 0 || i >= parts.len() {
        b
    } else {
        let p = parts[i];
        if has_word(fold(disposition(p)), "attachment"@) {
            bodies(parts, after_part(parts, i), BodiesView { attach: true, ..b })
        } else if fold(p.mimetype) == "text/plain"@ && b.text.len() == 0 {
            bodies(parts, after_part(parts, i), BodiesView { text: text_or_empty(p), ..b })
        } else if fold(p.mimetype) == "text/html"@ && b.html.len() == 0 {
            bodies(parts, after_part(parts, i), BodiesView { html: text_or_empty(p), ..b })
        } else {
            bodies(parts, i + 1, b)
        }
    }
}

fn text_of(p: &MailPart) -> (r: String)
    ensures
        r@ == text_or_empty(p@),
{
    match &p.text {
        Some(t) => t.clone(),
        None => {
            let r = String::new();
            assert(r@ =~= Seq::<char>::empty());
            r
        },
    }
}

/// The bodies of a message.
pub struct Bodies {
    pub text: String,
    pub html: String,
    pub attach: bool,
}

impl View for Bodies {
    type V = BodiesView;

    open spec fn view(&self) -> BodiesView {
        BodiesView { text: self.text@, html: self.html@, attach: self.attach }
    }
}

/// Nothing found yet.
pub open spec fn no_bodies(attach: bool) -> BodiesView {
    BodiesView { text: Seq::empty(), html: Seq::empty(), attach }
}

/// Collects the bodies of a message; `attach` says whether an attachment is known of already.
pub fn collect_parts(parts: &Vec<MailPart>, attach: bool) -> (r: Bodies)
    ensures
        r@ == bodies(part_views(parts@), 0, no_bodies(attach)),
{
    let mut b = Bodies { text: String::new(), html: String::new(), attach };
    let ghost ps = part_views(parts@);
    let n: usize = parts.len();
    let mut i: usize = 0;
    assert(b@ =~= no_bodies(attach));
    while i < n
        invariant
            i <= n,
            n == parts@.len(),
            ps == part_views(parts@),
            bodies(ps, i as int, b@) == bodies(ps, 0, no_bodies(attach)),
        decreases n - i,
    {
        let p = &parts[i];
        assert(ps[i as int] == p@);
        let next: usize = if p.size <= 1 {
            i + 1
        } else if p.size >= n - i {
            n
        } else {
            i + p.size
        };
        let cd = to_chars(header_of(p, 8).as_str());
        let mime = to_chars(p.mimetype.as_str());
        let ghost before = b@;
        if fold_has(&cd, "attachment") {
            b.attach = true;
            assert(b@ =~= (BodiesView { attach: true, ..before }));
            i = next;
        } else if folds_to(&mime, "text/plain") && is_empty(b.text.as_str()) {
            b.text = text_of(p);
            assert(b@ =~= (BodiesView { text: text_or_empty(p@), ..before }));
            i = next;
        } else if folds_to(&mime, "text/html") && is_empty(b.html.as_str()) {
            b.html = text_of(p);
            assert(b@ =~= (BodiesView { html: text_or_empty(p@), ..before }));
            i = next;
        } else {
            i += 1;
        }
    }
    b
}

// ---------------------------------------------------------------------------------------------
// A message
// ---------------------------------------------------------------------------------------------

/// A received message.
pub struct Mail {
    pub from: String,
    pub to: String,
    pub cc: String,
    pub subject: String,
    pub date: String,
    pub date_ts: i64,
    pub message_id: String,
    pub read_receipt_to: Option<String>,
    pub body_text: String,
    pub body_html: String,
    pub has_attachment: bool,
    pub snippet: String,
    pub attachments: Vec<Attachment>,
}

/// What a received message is.
#[verifier::ext_equal]
pub struct MailView {
    pub from: Seq<char>,
    pub to: Seq<char>,
    pub cc: Seq<char>,
    pub subject: Seq<char>,
    pub date: Seq<char>,
    pub date_ts: int,
    pub message_id: Seq<char>,
    pub read_receipt_to: Option<Seq<char>>,
    pub body_text: Seq<char>,
    pub body_html: Seq<char>,
    pub has_attachment: bool,
    pub snippet: Seq<char>,
    pub attachments: Seq<AttachmentView>,
}

impl View for Mail {
    type V = MailView;

    open spec fn view(&self) -> MailView {
        MailView {
            from: self.from@,
            to: self.to@,
            cc: self.cc@,
            subject: self.subject@,
            date: self.date@,
            date_ts: self.date_ts as int,
            message_id: self.message_id@,
            read_receipt_to: maybe(self.read_receipt_to),
            body_text: self.body_text@,
            body_html: self.body_html@,
            has_attachment: self.has_attachment,
            snippet: self.snippet@,
            attachments: attachment_views(self.attachments@),
        }
    }
}

/// The part that stands for the whole message.
pub open spec fn root(parts: Seq<PartView>) -> PartView {
    if parts.len() == 0 {
        PartView {
            headers: Seq::empty(),
            mimetype: Seq::empty(),
            size: 0,
            raw: None,
            text: None,
        }
    } else {
        parts[0]
    }
}

/// To whom the sender wants it reported that the message was read: the header made for that, or
/// else an older one, unless it is empty.
pub open spec fn receipt_to(p: PartView) -> Option<Seq<char>> {
    let i: int = if 6 < p.headers.len() && p.headers[6] is Some {
        6
    } else {
        7
    };
    if i < p.headers.len() && p.headers[i] is Some && p.headers[i]->0.len() > 0 {
        p.headers[i]
    } else {
        None
    }
}

/// The text that a snippet is made of: the plain text, or else the HTML text without its tags.
pub open spec fn snippet_source(text: Seq<char>, html: Seq<char>) -> Seq<char> {
    if text.len() == 0 && html.len() > 0 {
        untagged(html)
    } else {
        text
    }
}

/// The message made of these parts.
pub open spec fn mail_of(parts: Seq<PartView>, date_ts: int) -> MailView {
    let top = root(parts);
    let files = attachments(parts);
    let b = bodies(parts, 0, no_bodies(files.len() > 0));
    MailView {
        from: header(top, 0),
        to: header(top, 1),
        cc: header(top, 2),
        subject: header(top, 3),
        date: header(top, 4),
        date_ts,
        message_id: header(top, 5),
        read_receipt_to: receipt_to(top),
        body_text: b.text,
        body_html: b.html,
        has_attachment: b.attach,
        snippet: snippet(snippet_source(b.text, b.html), 100),
        attachments: files,
    }
}

/// The seconds that stand for a date, 0 if it cannot be read.
pub open spec fn seconds_or_zero(d: Option<i64>) -> int {
    match d {
        Some(s) => s as int,
        None => 0,
    }
}

fn is_empty(s: &str) -> (r: bool)
    ensures
        r == (s@.len() == 0),
{
    let v = to_chars(s);
    v.len() == 0
}

fn receipt_of(p: &MailPart) -> (r: Option<String>)
    ensures
        maybe(r) == receipt_to(p@),
{
    let n: usize = p.headers.len();
    let mut i: usize = 7;
    if 6 < n {
        assert(p@.headers[6] == maybe(p.headers@[6]));
        if p.headers[6].is_some() {
            i = 6;
        }
    }
    if i < n {
        assert(p@.headers[i as int] == maybe(p.headers@[i as int]));
        match &p.headers[i] {
            Some(s) => if is_empty(s.as_str()) {
                None
            } else {
                Some(s.clone())
            },
            None => None,
        }
    } else {
        None
    }
}

/// Makes a message of its parts.
pub fn mail_from_parts(parts: &Vec<MailPart>, date_ts: i64) -> (r: Mail)
    ensures
        r@ == mail_of(part_views(parts@), date_ts as int),
{
    let none = MailPart {
        headers: Vec::new(),
        mimetype: String::new(),
        size: 0,
        raw: None,
        text: None,
    };
    let ghost ps = part_views(parts@);
    assert(parts@.len() == 0 ==> none@ =~= root(ps)) by {
        assert(none@.mimetype =~= Seq::<char>::empty());
    }
    let top: &MailPart = if parts.len() == 0 {
        &none
    } else {
        &parts[0]
    };
    assert(top@ == root(ps));
    let files = collect_attachments(parts);
    let b = collect_parts(parts, files.len() > 0);
    assert(files@.len() == attachments(ps).len());
    let Bodies { text, html, attach } = b;
    let snippet = if is_empty(text.as_str()) && !is_empty(html.as_str()) {
        snippet_from_text(without_tags(html.as_str()).as_str(), 100)
    } else {
        snippet_from_text(text.as_str(), 100)
    };
    Mail {
        from: header_of(top, 0),
        to: header_of(top, 1),
        cc: header_of(top, 2),
        subject: header_of(top, 3),
        date: header_of(top, 4),
        date_ts,
        message_id: header_of(top, 5),
        read_receipt_to: receipt_of(top),
        body_text: text,
        body_html: html,
        has_attachment: attach,
        snippet,
        attachments: files,
    }
}

/// The words of the error for a message that cannot be read.
pub open spec fn parse_error(uid: nat, e: Seq<char>) -> Seq<char> {
    "parse_mail error uid="@ + decimal(uid) + ": "@ + e
}

/// Reads a message.
pub fn read_mail(uid: u32, raw: &[u8]) -> (r: Result<Mail, String>)
    ensures
        match parsed_mail(raw@, header_names()) {
            Ok(parts) => r matches Ok(mail) && mail@ == mail_of(
                parts,
                seconds_or_zero(date_seconds(header(root(parts), 4))),
            ),
            Err(e) => r matches Err(m) && m@ == parse_error(uid as nat, e),
        },
        r matches Ok(mail) ==> (date_seconds(mail.date@) matches Some(s) ==> mail.date_ts == s),
        r matches Ok(mail) ==> (date_seconds(mail.date@) is None ==> mail.date_ts == 0),
{
    match parse_mail(raw, &header_keys()) {
        Ok(parts) => {
            let date = if parts.len() == 0 {
                String::new()
            } else {
                header_of(&parts[0], 4)
            };
            assert(date@ =~= header(root(part_views(parts@)), 4));
            let date_ts: i64 = match parse_date(date.as_str()) {
                Some(s) => s,
                None => 0,
            };
            Ok(mail_from_parts(&parts, date_ts))
        },
        Err(e) => {
            let mut m = join2("parse_mail error uid=", u64_to_string(uid as u64).as_str());
            m.append(": ");
            m.append(e.as_str());
            Err(m)
        },
    }
}

/// Every attachment of a message has a clean name and a content, and a message with attachments is
/// marked as having some.
pub proof fn law_attachments(parts: Seq<PartView>, date_ts: int)
    ensures
        forall|i: int|
            0 <= i < attachments(parts).len() ==> clean_name(
                (#[trigger] attachments(parts)[i]).filename,
            ) && attachments(parts)[i].data.len() > 0,
        attachments(parts).len() > 0 ==> mail_of(parts, date_ts).has_attachment,
{
    lemma_attachments(parts);
    if attachments(parts).len() > 0 {
        lemma_attach_stays(parts, 0, no_bodies(true));
    }
}

proof fn lemma_attachments(parts: Seq<PartView>)
    ensures
        forall|i: int|
            0 <= i < attachments(parts).len() ==> clean_name(
                (#[trigger] attachments(parts)[i]).filename,
            ) && attachments(parts)[i].data.len() > 0,
    decreases parts.len(),
{
    if parts.len() > 0 {
        let t = parts.drop_last();
        lemma_attachments(t);
        law_file_name_is_clean(disposition(parts.last()), content_type(parts.last()));
        assert forall|i: int| 0 <= i < attachments(parts).len() implies clean_name(
            (#[trigger] attachments(parts)[i]).filename,
        ) && attachments(parts)[i].data.len() > 0 by {
            if i < attachments(t).len() {
                assert(attachments(parts)[i] == attachments(t)[i]);
            }
        }
    }
}

proof fn lemma_attach_stays(parts: Seq<PartView>, i: int, b: BodiesView)
    requires
        b.attach,
    ensures
        bodies(parts, i, b).attach,
    decreases parts.len() - i,
{
    if 0 <= i < parts.len() {
        let p = parts[i];
        let j = after_part(parts, i);
        if has_word(fold(disposition(p)), "attachment"@) {
            lemma_attach_stays(parts, j, BodiesView { attach: true, ..b });
        } else if fold(p.mimetype) == "text/plain"@ && b.text.len() == 0 {
            lemma_attach_stays(parts, j, BodiesView { text: text_or_empty(p), ..b });
        } else if fold(p.mimetype) == "text/html"@ && b.html.len() == 0 {
            lemma_attach_stays(parts, j, BodiesView { html: text_or_empty(p), ..b });
        } else {
            lemma_attach_stays(parts, i + 1, b);
        }
    }
}

} // verus!
