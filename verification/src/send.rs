//! Messages that the user sends.
use vstd::prelude::*;

use crate::addresses::{
    address_error, check_address, checked_mailbox_list, descriptions, mailbox_list, mailbox_views,
    mailboxes_result, parse_mailbox_list, pieces, readable, receipt_address, receipt_email, Mailbox,
    MailboxView,
};
use crate::encoding::{decode, decodes_to, maybe_bytes};
use crate::filenames::{clean_name, law_sanitized_is_clean, sanitize_filename, sanitized};
use crate::message::{snippet, snippet_from_text};
use crate::sending::law_html_holds_text;
use crate::statements::{maybe, sql, Statement, StatementView};
use crate::store::{keep_file, keeping_file, law_timed_name_is_clean, name_by_time, timed_name};
use crate::text::{has_word, join2, join3, to_chars, trim, trim_str};

verus! {

// ---------------------------------------------------------------------------------------------
// What the user wants to send
// ---------------------------------------------------------------------------------------------

/// The account that a message is sent from.
pub struct Sender {
    pub email: String,
    pub name: String,
}

/// A file that the user attaches.
pub struct FileAttachment {
    pub filename: String,
    /// Its content in base64.
    pub data_b64: String,
    pub mime_type: String,
}

/// A message that the user wants to send.
pub struct SendMailRequest {
    pub account_id: i64,
    pub to: String,
    pub cc: String,
    pub subject: String,
    pub body: String,
    pub body_html: Option<String>,
    pub attachments: Vec<FileAttachment>,
    pub read_receipt: bool,
}

// ---------------------------------------------------------------------------------------------
// The HTML form of a text
// ---------------------------------------------------------------------------------------------

/// A character in HTML.
pub open spec fn escaped_char(c: char) -> Seq<char> {
    if c == '<' {
        "&lt;"@
    } else if c == '>' {
        "&gt;"@
    } else {
        seq![c]
    }
}

/// A text in HTML: angle brackets are written so that they are no tags.
pub open spec fn escaped(s: Seq<char>) -> Seq<char>
    decreases s.len(),
{
    if s.len() == 0 {
        Seq::empty()
    } else {
        escaped(s.drop_last()) + escaped_char(s.last())
    }
}

/// `escaped`, computed.
pub fn escape(s: &str) -> (r: String)
    ensures
        r@ == escaped(s@),
{
    let v = to_chars(s);
    let mut r = String::new();
    let mut i: usize = 0;
    assert(r@ =~= Seq::<char>::empty());
    while i < v.len()
        invariant
            i <= v@.len(),
            r@ == escaped(v@.take(i as int)),
        decreases v@.len() - i,
    {
        assert(v@.take(i + 1).drop_last() =~= v@.take(i as int));
        let c = v[i];
        let ghost before = r@;
        if c == '<' {
            r.append("&lt;");
        } else if c == '>' {
            r.append("&gt;");
        } else {
            r.push(c);
            assert(r@ =~= before + seq![c]);
        }
        i += 1;
    }
    assert(v@.take(i as int) =~= v@);
    r
}

/// A text with `&lt;` and `&gt;` read as angle brackets, from its beginning to its end.
pub open spec fn unescaped(s: Seq<char>) -> Seq<char>
    decreases s.len(),
{
    if s.len() == 0 {
        Seq::empty()
    } else if s.len() >= 4 && s[0] == '&' && s[1] == 'l' && s[2] == 't' && s[3] == ';' {
        seq!['<'] + unescaped(s.skip(4))
    } else if s.len() >= 4 && s[0] == '&' && s[1] == 'g' && s[2] == 't' && s[3] == ';' {
        seq!['>'] + unescaped(s.skip(4))
    } else {
        seq![s[0]] + unescaped(s.skip(1))
    }
}

/// A text says `&lt;` or `&gt;` somewhere.
pub open spec fn has_entity(s: Seq<char>) -> bool {
    exists|i: int|
        0 <= i && i + 4 <= s.len() && #[trigger] s[i] == '&' && (s[i + 1] == 'l' || s[i + 1] == 'g')
            && s[i + 2] == 't' && s[i + 3] == ';'
}

/// Texts that are written in HTML one after the other are written as the whole is.
pub proof fn law_escape_joins(a: Seq<char>, b: Seq<char>)
    ensures
        escaped(a + b) == escaped(a) + escaped(b),
    decreases b.len(),
{
    if b.len() == 0 {
        assert(a + b =~= a);
        assert(escaped(a) + escaped(b) =~= escaped(a));
    } else {
        assert((a + b).drop_last() =~= a + b.drop_last());
        law_escape_joins(a, b.drop_last());
        assert(escaped(a + b) =~= escaped(a) + escaped(b));
    }
}

/// A text without angle brackets is written in HTML as it is, line breaks and all.
pub proof fn law_escape_keeps(s: Seq<char>)
    requires
        !s.contains('<'),
        !s.contains('>'),
    ensures
        escaped(s) == s,
    decreases s.len(),
{
    if s.len() > 0 {
        let t = s.drop_last();
        assert(s[s.len() - 1] == s.last());
        assert forall|c: char| !s.contains(c) implies !t.contains(c) by {
            if t.contains(c) {
                let i = choose|i: int| 0 <= i < t.len() && t[i] == c;
                assert(s[i] == c);
            }
        }
        law_escape_keeps(t);
        assert(escaped(s) =~= s);
    } else {
        assert(escaped(s) =~= s);
    }
}

/// A text starts with `&lt;` or `&gt;` written out in HTML only if it did, or starts with the bracket.
proof fn lemma_entity_start(s: Seq<char>)
    requires
        s.len() > 0,
        s[0] == '&',
        escaped(s).len() >= 4,
        escaped(s)[1] == 'l' || escaped(s)[1] == 'g',
        escaped(s)[2] == 't',
        escaped(s)[3] == ';',
    ensures
        has_entity(s),
{
    reveal_strlit("&lt;");
    reveal_strlit("&gt;");
    reveal_with_fuel(escaped, 2);
    let rest = s.skip(1);
    assert(s =~= s.take(1) + rest);
    law_escape_joins(s.take(1), rest);
    assert(s.take(1).drop_last() =~= Seq::<char>::empty());
    assert(escaped(s.take(1)) =~= seq!['&']);
    assert(rest.len() > 0) by {
        if rest.len() == 0 {
            assert(escaped(rest) =~= Seq::<char>::empty());
        }
    }
    let r2 = rest.skip(1);
    assert(rest =~= rest.take(1) + r2);
    law_escape_joins(rest.take(1), r2);
    assert(rest.take(1).drop_last() =~= Seq::<char>::empty());
    assert(escaped(rest.take(1)) =~= escaped_char(s[1]));
    assert(escaped(s)[1] == escaped_char(s[1])[0]);
    assert(escaped(rest.take(1)) =~= seq![s[1]]);
    assert(r2.len() > 0) by {
        if r2.len() == 0 {
            assert(escaped(r2) =~= Seq::<char>::empty());
        }
    }
    let r3 = r2.skip(1);
    assert(r2 =~= r2.take(1) + r3);
    law_escape_joins(r2.take(1), r3);
    assert(r2.take(1).drop_last() =~= Seq::<char>::empty());
    assert(escaped(r2.take(1)) =~= escaped_char(s[2]));
    assert(escaped(s)[2] == escaped_char(s[2])[0]);
    assert(escaped(r2.take(1)) =~= seq![s[2]]);
    assert(r3.len() > 0) by {
        if r3.len() == 0 {
            assert(escaped(r3) =~= Seq::<char>::empty());
        }
    }
    let r4 = r3.skip(1);
    assert(r3 =~= r3.take(1) + r4);
    law_escape_joins(r3.take(1), r4);
    assert(r3.take(1).drop_last() =~= Seq::<char>::empty());
    assert(escaped(r3.take(1)) =~= escaped_char(s[3]));
    assert(escaped(s)[3] == escaped_char(s[3])[0]);
    assert(s[0] == '&');
}

/// Nothing is lost when a text is written in HTML: read back, it is the text again, unless it said
/// `&lt;` or `&gt;` itself.
pub proof fn law_escape_reads_back(s: Seq<char>)
    requires
        !has_entity(s),
    ensures
        unescaped(escaped(s)) == s,
    decreases s.len(),
{
    reveal_strlit("&lt;");
    reveal_strlit("&gt;");
    if s.len() == 0 {
        assert(escaped(s) =~= Seq::<char>::empty());
        assert(unescaped(escaped(s)) =~= s);
    } else {
        let first = s.take(1);
        let rest = s.skip(1);
        assert(s =~= first + rest);
        law_escape_joins(first, rest);
        assert(first.drop_last() =~= Seq::<char>::empty());
        assert(escaped(first) =~= escaped_char(s[0])) by {
            reveal_with_fuel(escaped, 2);
        }
        assert(!has_entity(rest)) by {
            if has_entity(rest) {
                let i = choose|i: int|
                    0 <= i && i + 4 <= rest.len() && #[trigger] rest[i] == '&' && (rest[i + 1] == 'l'
                        || rest[i + 1] == 'g') && rest[i + 2] == 't' && rest[i + 3] == ';';
                assert(s[i + 1] == '&');
            }
        }
        law_escape_reads_back(rest);
        let e = escaped(s);
        if s[0] == '<' || s[0] == '>' {
            assert(e.skip(4) =~= escaped(rest));
        } else {
            assert(e.skip(1) =~= escaped(rest));
            if e.len() >= 4 && e[0] == '&' && (e[1] == 'l' || e[1] == 'g') && e[2] == 't' && e[3]
                == ';' {
                lemma_entity_start(s);
            }
        }
        assert(unescaped(e) =~= s);
    }
}

/// An escaped text holds no angle bracket.
pub proof fn law_escaped(s: Seq<char>)
    ensures
        forall|i: int|
            0 <= i < escaped(s).len() ==> (#[trigger] escaped(s)[i]) != '<' && escaped(s)[i] != '>',
    decreases s.len(),
{
    if s.len() > 0 {
        let t = s.drop_last();
        law_escaped(t);
        reveal_strlit("&lt;");
        reveal_strlit("&gt;");
        assert forall|i: int| 0 <= i < escaped(s).len() implies (#[trigger] escaped(s)[i]) != '<'
            && escaped(s)[i] != '>' by {
            if i < escaped(t).len() {
                assert(escaped(s)[i] == escaped(t)[i]);
            } else {
                assert(escaped(s)[i] == escaped_char(s.last())[i - escaped(t).len()]);
            }
        }
    }
}

/// The HTML body of a message: the one that the user has written, or else the text.
pub open spec fn html_of(body_html: Option<Seq<char>>, body: Seq<char>) -> Seq<char> {
    match body_html {
        Some(h) => h,
        None => "<pre style='font-family:sans-serif;white-space:pre-wrap'>"@ + escaped(body)
            + "</pre>"@,
    }
}

/// `html_of`, computed.
pub fn html_body(body_html: &Option<String>, body: &str) -> (r: String)
    ensures
        r@ == html_of(maybe(*body_html), body@),
        body_html matches Some(h) ==> r@ == h@,
        body_html is None ==> has_word(r@, escaped(body@)),
{
    proof {
        if body_html is None {
            law_html_holds_text(body@);
        }
    }
    match body_html {
        Some(h) => h.clone(),
        None => join3(
            "<pre style='font-family:sans-serif;white-space:pre-wrap'>",
            escape(body).as_str(),
            "</pre>",
        ),
    }
}

// ---------------------------------------------------------------------------------------------
// Attached files
// ---------------------------------------------------------------------------------------------

/// Whether `lettre` accepts a text as the type of a content.
pub uninterp spec fn content_type_accepted(s: Seq<char>) -> bool;

/// `lettre::message::header::ContentType::parse`: whether `lettre` accepts a text as the type of a
/// content. The contract gives the answer a name.
#[verifier::external_body]
fn accepts_content_type(s: &str) -> (r: bool)
    ensures
        r == content_type_accepted(s@),
{
    lettre::message::header::ContentType::parse(s).is_ok()
}

/// A file in a message that is sent.
pub struct OutgoingFile {
    pub filename: String,
    pub data: Vec<u8>,
    pub mime_type: String,
}

/// The type that a file is sent with.
pub open spec fn sent_type(mime_type: Seq<char>, accepted: bool) -> Seq<char> {
    if accepted {
        mime_type
    } else {
        "application/octet-stream"@
    }
}

/// The content of a file is that of the base64 text, or empty if the text is no base64.
pub open spec fn content_of(data: Seq<u8>, b64: Seq<char>) -> bool {
    exists|r: Option<Seq<u8>>|
        decodes_to(b64, r) && data == (match r {
            Some(b) => b,
            None => Seq::empty(),
        })
}

/// The file that is sent for an attached one.
pub open spec fn is_sent_file(f: OutgoingFile, a: FileAttachment) -> bool {
    &&& f.filename@ == a.filename@
    &&& f.mime_type@ == sent_type(a.mime_type@, content_type_accepted(a.mime_type@))
    &&& content_of(f.data@, a.data_b64@)
}

/// The content of an attached file, empty if it is no base64.
pub fn file_data(data_b64: &str) -> (r: Vec<u8>)
    ensures
        content_of(r@, data_b64@),
{
    let d = decode(data_b64);
    let ghost view = maybe_bytes(d);
    match d {
        Some(b) => {
            assert(decodes_to(data_b64@, view) && b@ == view->0);
            b
        },
        None => {
            let b: Vec<u8> = Vec::new();
            assert(decodes_to(data_b64@, view));
            assert(b@ =~= Seq::<u8>::empty());
            b
        },
    }
}

/// The type that a file is sent with, given whether it is accepted.
pub fn choose_type(mime_type: &str, accepted: bool) -> (r: String)
    ensures
        r@ == sent_type(mime_type@, accepted),
        accepted ==> r@ == mime_type@,
        !accepted ==> r@ == "application/octet-stream"@,
{
    if accepted {
        mime_type.to_owned()
    } else {
        "application/octet-stream".to_owned()
    }
}

fn outgoing_file(a: &FileAttachment) -> (r: OutgoingFile)
    ensures
        is_sent_file(r, *a),
{
    OutgoingFile {
        filename: a.filename.clone(),
        data: file_data(a.data_b64.as_str()),
        mime_type: choose_type(
            a.mime_type.as_str(),
            accepts_content_type(a.mime_type.as_str()),
        ),
    }
}

/// What the user attaches is what is sent: the base64 form of bytes goes out as these bytes.
pub proof fn law_attached_bytes_are_sent(data: Seq<u8>, bytes: Seq<u8>)
    requires
        content_of(data, crate::encoding::base64(bytes)),
    ensures
        data == bytes,
{
    let s = crate::encoding::base64(bytes);
    let r = choose|r: Option<Seq<u8>>|
        decodes_to(s, r) && data == (match r {
            Some(b) => b,
            None => Seq::empty(),
        });
    crate::encoding::law_base64_round_trip(bytes, r);
}

// ---------------------------------------------------------------------------------------------
// A message that is sent
// ---------------------------------------------------------------------------------------------

/// A message, ready to be sent.
pub struct Outgoing {
    pub from: Mailbox,
    pub to: Vec<Mailbox>,
    pub cc: Vec<Mailbox>,
    pub subject: String,
    /// Where it is to be reported that the message was read, if the user wants to know.
    pub notify: Option<String>,
    pub text: String,
    pub html: String,
    pub files: Vec<OutgoingFile>,
}

/// The mailbox that a message is sent from.
pub open spec fn from_mailbox(sender: Sender) -> MailboxView {
    MailboxView {
        name: if sender.name@.len() == 0 {
            None
        } else {
            Some(sender.name@)
        },
        email: sender.email@,
    }
}

/// The recipients that are named in `to`.
pub open spec fn recipients(to: Seq<char>) -> Result<Seq<MailboxView>, Seq<char>> {
    mailbox_list(trim(to))
}

/// The recipients of a copy: none if nothing is written there.
pub open spec fn copies(cc: Seq<char>) -> Result<Seq<MailboxView>, Seq<char>> {
    if trim(cc).len() == 0 {
        Ok(Seq::empty())
    } else {
        mailbox_list(trim(cc))
    }
}

/// Why a message cannot be sent, given what is wrong with the address of the sender.
pub open spec fn refusal(
    from_error: Option<Seq<char>>,
    to: Result<Seq<MailboxView>, Seq<char>>,
    cc: Result<Seq<MailboxView>, Seq<char>>,
) -> Option<Seq<char>> {
    match from_error {
        Some(e) => Some("Email отправителя: "@ + e),
        None => match to {
            Err(e) => Some("Поле «Кому»: "@ + e),
            Ok(ms) => if ms.len() == 0 {
                Some("Не указан получатель"@)
            } else {
                match cc {
                    Err(e) => Some("Поле «Копия»: "@ + e),
                    Ok(_) => None,
                }
            },
        },
    }
}

/// Each file is sent.
pub open spec fn files_sent(files: Seq<OutgoingFile>, attached: Seq<FileAttachment>) -> bool {
    files.len() == attached.len() && forall|i: int|
        0 <= i < files.len() ==> is_sent_file(#[trigger] files[i], attached[i])
}

/// The message that is sent for a request.
pub open spec fn is_message_for(
    out: Outgoing,
    sender: Sender,
    req: SendMailRequest,
    to: Seq<MailboxView>,
    cc: Seq<MailboxView>,
) -> bool {
    &&& out.from@ == from_mailbox(sender)
    &&& mailbox_views(out.to@) == to
    &&& mailbox_views(out.cc@) == cc
    &&& out.subject@ == req.subject@
    &&& maybe(out.notify) == (if req.read_receipt {
        Some(sender.email@)
    } else {
        None
    })
    &&& out.text@ == req.body@
    &&& out.html@ == html_of(maybe(req.body_html), req.body@)
    &&& files_sent(out.files@, req.attachments@)
}

/// Makes a message of a request, given what is wrong with the address of the sender, and the
/// recipients or what is wrong with them.
pub fn compose(
    sender: &Sender,
    req: &SendMailRequest,
    from_error: Option<String>,
    to: Result<Vec<Mailbox>, String>,
    cc: Result<Vec<Mailbox>, String>,
) -> (r: Result<Outgoing, String>)
    ensures
        match refusal(maybe(from_error), mailboxes_result(to), mailboxes_result(cc)) {
            Some(e) => r matches Err(m) && m@ == e,
            None => r matches Ok(out) && is_message_for(
                out,
                *sender,
                *req,
                mailboxes_result(to)->Ok_0,
                mailboxes_result(cc)->Ok_0,
            ),
        },
        r is Ok <==> from_error is None && (to matches Ok(v) && v@.len() > 0) && cc is Ok,
        r matches Ok(out) ==> out.to@ == to->Ok_0@ && out.cc@ == cc->Ok_0@,
        r matches Ok(out) ==> {
            &&& out.from.email@ == sender.email@
            &&& sender.name@.len() == 0 ==> out.from.name is None
            &&& sender.name@.len() > 0 ==> (out.from.name matches Some(n) && n@ == sender.name@)
            &&& out.subject@ == req.subject@
            &&& out.text@ == req.body@
            &&& req.body_html matches Some(h) ==> out.html@ == h@
            &&& req.read_receipt ==> (out.notify matches Some(n) && n@ == sender.email@)
            &&& !req.read_receipt ==> out.notify is None
            &&& out.to@.len() > 0
            &&& out.files@.len() == req.attachments@.len()
            &&& forall|i: int|
                0 <= i < out.files@.len() ==> (#[trigger] out.files@[i]).filename@
                    == req.attachments@[i].filename@
        },
{
    if let Some(e) = from_error {
        return Err(join2("Email отправителя: ", e.as_str()));
    }
    let to = match to {
        Err(e) => {
            return Err(join2("Поле «Кому»: ", e.as_str()));
        },
        Ok(v) => v,
    };
    assert(mailbox_views(to@).len() == to@.len());
    if to.len() == 0 {
        return Err("Не указан получатель".to_owned());
    }
    let cc = match cc {
        Err(e) => {
            return Err(join2("Поле «Копия»: ", e.as_str()));
        },
        Ok(v) => v,
    };
    let name = if to_chars(sender.name.as_str()).len() == 0 {
        None
    } else {
        Some(sender.name.clone())
    };
    let from = Mailbox { name, email: sender.email.clone() };
    assert(from@ =~= from_mailbox(*sender));
    let mut files: Vec<OutgoingFile> = Vec::new();
    let mut i: usize = 0;
    while i < req.attachments.len()
        invariant
            i <= req.attachments@.len(),
            files@.len() == i,
            forall|j: int| 0 <= j < i ==> is_sent_file(#[trigger] files@[j], req.attachments@[j]),
        decreases req.attachments@.len() - i,
    {
        let f = outgoing_file(&req.attachments[i]);
        files.push(f);
        i += 1;
    }
    let notify = if req.read_receipt {
        Some(sender.email.clone())
    } else {
        None
    };
    Ok(
        Outgoing {
            from,
            to,
            cc,
            subject: req.subject.clone(),
            notify,
            text: req.body.clone(),
            html: html_body(&req.body_html, req.body.as_str()),
            files,
        },
    )
}

/// Each list of recipients can be read up to the first that is refused, as far as it is looked at.
pub open spec fn request_readable(sender: Sender, req: SendMailRequest) -> bool {
    address_error(sender.email@) is None ==> {
        &&& readable(descriptions(pieces(trim(req.to@))))
        &&& (recipients(req.to@) matches Ok(ms) && ms.len() > 0 && trim(req.cc@).len() > 0)
            ==> readable(descriptions(pieces(trim(req.cc@))))
    }
}

/// Makes a message of a request.
pub fn send_mail(sender: &Sender, req: &SendMailRequest) -> (r: Result<Outgoing, String>)
    requires
        request_readable(*sender, *req),
    ensures
        match refusal(address_error(sender.email@), recipients(req.to@), copies(req.cc@)) {
            Some(e) => r matches Err(m) && m@ == e,
            None => r matches Ok(out) && is_message_for(
                out,
                *sender,
                *req,
                recipients(req.to@)->Ok_0,
                copies(req.cc@)->Ok_0,
            ),
        },
        r matches Ok(out) ==> mailbox_list(trim(req.to@)) == Ok::<Seq<MailboxView>, Seq<char>>(
            mailbox_views(out.to@),
        ),
        r matches Ok(out) ==> (trim(req.cc@).len() == 0 ==> out.cc@.len() == 0),
        r matches Ok(out) ==> (trim(req.cc@).len() > 0 ==> mailbox_list(trim(req.cc@)) == Ok::<
            Seq<MailboxView>,
            Seq<char>,
        >(mailbox_views(out.cc@))),
        r matches Ok(out) ==> {
            &&& out.from.email@ == sender.email@
            &&& sender.name@.len() == 0 ==> out.from.name is None
            &&& sender.name@.len() > 0 ==> (out.from.name matches Some(n) && n@ == sender.name@)
            &&& out.subject@ == req.subject@
            &&& out.text@ == req.body@
            &&& req.body_html matches Some(h) ==> out.html@ == h@
            &&& req.read_receipt ==> (out.notify matches Some(n) && n@ == sender.email@)
            &&& !req.read_receipt ==> out.notify is None
            &&& out.to@.len() > 0
            &&& out.files@.len() == req.attachments@.len()
            &&& forall|i: int|
                0 <= i < out.files@.len() ==> (#[trigger] out.files@[i]).filename@
                    == req.attachments@[i].filename@
        },
{
    let from_error = check_address(sender.email.as_str());
    if from_error.is_some() {
        return compose(sender, req, from_error, Ok(Vec::new()), Ok(Vec::new()));
    }
    let to_text = trim_str(req.to.as_str());
    let to = parse_mailbox_list(to_text.as_str());
    let go_on = match &to {
        Ok(v) => {
            assert(mailbox_views(v@).len() == v@.len());
            v.len() > 0
        },
        Err(_) => false,
    };
    let cc_text = trim_str(req.cc.as_str());
    let cc = if go_on && to_chars(cc_text.as_str()).len() > 0 {
        parse_mailbox_list(cc_text.as_str())
    } else {
        let none: Vec<Mailbox> = Vec::new();
        assert(mailbox_views(none@) =~= Seq::<MailboxView>::empty());
        Ok(none)
    };
    compose(sender, req, from_error, to, cc)
}

/// Makes a message of a request if each list of recipients can be read; `None` if one of them has
/// its brackets out of order.
pub fn checked_send_mail(sender: &Sender, req: &SendMailRequest) -> (r: Option<
    Result<Outgoing, String>,
>)
    ensures
        match r {
            Some(sent) => request_readable(*sender, *req) && match refusal(
                address_error(sender.email@),
                recipients(req.to@),
                copies(req.cc@),
            ) {
                Some(e) => sent matches Err(m) && m@ == e,
                None => sent matches Ok(out) && is_message_for(
                    out,
                    *sender,
                    *req,
                    recipients(req.to@)->Ok_0,
                    copies(req.cc@)->Ok_0,
                ),
            },
            None => !request_readable(*sender, *req),
        },
{
    if check_address(sender.email.as_str()).is_none() {
        let to_text = trim_str(req.to.as_str());
        match checked_mailbox_list(to_text.as_str()) {
            None => {
                return None;
            },
            Some(to) => {
                let go_on = match &to {
                    Ok(v) => {
                        assert(mailbox_views(v@).len() == v@.len());
                        v.len() > 0
                    },
                    Err(_) => false,
                };
                let cc_text = trim_str(req.cc.as_str());
                if go_on && to_chars(cc_text.as_str()).len() > 0 && checked_mailbox_list(
                    cc_text.as_str(),
                ).is_none() {
                    return None;
                }
            },
        }
    }
    Some(send_mail(sender, req))
}

// ---------------------------------------------------------------------------------------------
// Keeping what was sent
// ---------------------------------------------------------------------------------------------

/// The statement that keeps a message that was sent.
pub open spec fn keeping_sent(
    email: Seq<char>,
    req: SendMailRequest,
    date: Seq<char>,
    date_ts: int,
) -> StatementView {
    sql(
        "INSERT INTO emails
             (account_id, uid, folder, from_addr, to_addr, cc_addr, subject, date, date_ts,
              body_text, body_html, has_attachment, snippet, is_read)
             VALUES (?1,-1,'Sent',?2,?3,?4,?5,?6,?7,?8,?9,?10,?11,1)"@,
    ).number(req.account_id as int).text(email).text(req.to@).text(req.cc@).text(req.subject@).text(
        date,
    ).number(date_ts).text(req.body@).text(html_of(maybe(req.body_html), req.body@)).flag(
        req.attachments@.len() > 0,
    ).text(snippet(req.body@, 100))
}

/// Keeps a message that was sent.
pub fn keep_sent(email: &str, req: &SendMailRequest, date: &str, date_ts: i64) -> (r: Statement)
    ensures
        r@ == keeping_sent(email@, *req, date@, date_ts as int),
{
    Statement::new(
        "INSERT INTO emails
             (account_id, uid, folder, from_addr, to_addr, cc_addr, subject, date, date_ts,
              body_text, body_html, has_attachment, snippet, is_read)
             VALUES (?1,-1,'Sent',?2,?3,?4,?5,?6,?7,?8,?9,?10,?11,1)",
    ).number(req.account_id).text(email).text(req.to.as_str()).text(req.cc.as_str()).text(
        req.subject.as_str(),
    ).text(date).number(date_ts).text(req.body.as_str()).text(
        html_body(&req.body_html, req.body.as_str()).as_str(),
    ).flag(req.attachments.len() > 0).text(snippet_from_text(req.body.as_str(), 100).as_str())
}

/// The statement that gives a message of the user's own a number: its id, which no other has.
pub open spec fn numbering(id: int) -> StatementView {
    sql("UPDATE emails SET uid=?1 WHERE id=?1"@).number(id)
}

/// Gives a message of the user's own a number.
pub fn number_own(id: i64) -> (r: Statement)
    ensures
        r@ == numbering(id as int),
{
    Statement::new("UPDATE emails SET uid=?1 WHERE id=?1").number(id)
}

/// The name under which an attached file is kept.
pub open spec fn kept_as(filename: Seq<char>, millis: int) -> Seq<char> {
    if filename.len() == 0 {
        timed_name(millis)
    } else {
        sanitized(filename)
    }
}

/// `kept_as`, computed.
pub fn sent_file_name(filename: &str, millis: i64) -> (r: String)
    ensures
        r@ == kept_as(filename@, millis as int),
{
    if to_chars(filename).len() == 0 {
        name_by_time(millis)
    } else {
        sanitize_filename(filename)
    }
}

/// Keeps a file that has been written.
pub fn keep_sent_file(id: i64, file: &FileAttachment, name: &str, path: &str, size: i64) -> (r:
    Statement)
    ensures
        r@ == keeping_file(id as int, name@, file.mime_type@, path@, size as int),
{
    keep_file(id, name, file.mime_type.as_str(), path, size)
}

/// How far the work on a message that is sent has come.
#[derive(Clone, Copy, PartialEq, Eq, Structural)]
pub enum SendStage {
    /// It is to be handed to the server.
    Transmit,
    /// It is to be kept.
    Keep,
    /// It has got this id, which is to become its number.
    Number(i64),
    /// The attached file with this place is to be written.
    WriteFile(i64, usize),
    /// The attached file with this place is to be kept.
    KeepFile(i64, usize),
    /// Nothing is left to do.
    Done,
    /// The server has refused it.
    Failed,
}

/// What came of a stage.
#[derive(Clone, Copy, PartialEq, Eq, Structural)]
pub enum SendEvent {
    /// The server has taken the message, or refused it.
    Transmitted(bool),
    /// The message has been kept, as far as that was possible; the last id that was given.
    Kept(i64),
    /// A statement has been executed, whatever came of it.
    Executed,
    /// A file has been written, or could not be.
    Written(bool),
}

/// The stage when the first `i` of `n` files have been dealt with.
pub open spec fn next_file(id: i64, i: int, n: int) -> SendStage {
    if i < n {
        SendStage::WriteFile(id, i as usize)
    } else {
        SendStage::Done
    }
}

/// The stage after an event. An event that does not belong to the stage changes nothing.
pub open spec fn stage_after(n: int, stage: SendStage, event: SendEvent) -> SendStage {
    match (stage, event) {
        (SendStage::Transmit, SendEvent::Transmitted(ok)) => if ok {
            SendStage::Keep
        } else {
            SendStage::Failed
        },
        (SendStage::Keep, SendEvent::Kept(id)) => SendStage::Number(id),
        (SendStage::Number(id), SendEvent::Executed) => next_file(id, 0, n),
        (SendStage::WriteFile(id, i), SendEvent::Written(ok)) => if ok {
            SendStage::KeepFile(id, i)
        } else {
            next_file(id, i + 1, n)
        },
        (SendStage::KeepFile(id, i), SendEvent::Executed) => next_file(id, i + 1, n),
        _ => stage,
    }
}

/// The stage speaks of a file of the message.
pub open spec fn stage_valid(n: int, stage: SendStage) -> bool {
    match stage {
        SendStage::WriteFile(_, i) => i < n,
        SendStage::KeepFile(_, i) => i < n,
        _ => true,
    }
}

fn file_stage(id: i64, i: usize, n: usize) -> (r: SendStage)
    ensures
        r == next_file(id, i as int, n as int),
{
    if i < n {
        SendStage::WriteFile(id, i)
    } else {
        SendStage::Done
    }
}

/// Goes on with a message that is sent.
pub fn send_next(req: &SendMailRequest, stage: SendStage, event: SendEvent) -> (r: SendStage)
    requires
        stage_valid(req.attachments@.len() as int, stage),
    ensures
        r == stage_after(req.attachments@.len() as int, stage, event),
        stage_valid(req.attachments@.len() as int, r),
{
    let n: usize = req.attachments.len();
    match (stage, event) {
        (SendStage::Transmit, SendEvent::Transmitted(ok)) => if ok {
            SendStage::Keep
        } else {
            SendStage::Failed
        },
        (SendStage::Keep, SendEvent::Kept(id)) => SendStage::Number(id),
        (SendStage::Number(id), SendEvent::Executed) => file_stage(id, 0, n),
        (SendStage::WriteFile(id, i), SendEvent::Written(ok)) => if ok {
            SendStage::KeepFile(id, i)
        } else {
            file_stage(id, i + 1, n)
        },
        (SendStage::KeepFile(id, i), SendEvent::Executed) => file_stage(id, i + 1, n),
        _ => stage,
    }
}

/// A message is kept only after the server has taken it, and a file only after it has been written.
pub proof fn law_sent_before_kept(n: int, stage: SendStage, event: SendEvent)
    ensures
        stage_after(n, stage, event) == SendStage::Keep && stage != SendStage::Keep ==> stage
            == SendStage::Transmit && event == SendEvent::Transmitted(true),
        stage_after(n, stage, event) is KeepFile && !(stage is KeepFile) ==> stage is WriteFile
            && event == SendEvent::Written(true),
{
}

/// The name under which an attached file is kept cannot lead out of the directory that it is put in.
pub proof fn law_kept_name_is_clean(filename: Seq<char>, millis: int)
    ensures
        clean_name(kept_as(filename, millis)),
{
    if filename.len() == 0 {
        law_timed_name_is_clean(millis);
    } else {
        law_sanitized_is_clean(filename);
    }
}

// ---------------------------------------------------------------------------------------------
// Drafts
// ---------------------------------------------------------------------------------------------

/// A draft.
pub struct Draft {
    pub account_id: i64,
    pub to: String,
    pub cc: String,
    pub subject: String,
    pub body_text: String,
    pub body_html: String,
}

/// The statement that changes a draft.
pub open spec fn changing_draft(d: Draft, id: int, date: Seq<char>, date_ts: int) -> StatementView {
    sql(
        "UPDATE emails SET to_addr=?1, cc_addr=?2, subject=?3,
             body_text=?4, body_html=?5, snippet=?6, date=?7, date_ts=?8
             WHERE id=?9 AND account_id=?10 AND folder='Drafts'"@,
    ).text(d.to@).text(d.cc@).text(d.subject@).text(d.body_text@).text(d.body_html@).text(
        snippet(d.body_text@, 100),
    ).text(date).number(date_ts).number(id).number(d.account_id as int)
}

/// The text of the statement that keeps a new draft.
pub open spec fn draft_text() -> Seq<char> {
    "INSERT INTO emails
         (account_id, uid, folder, from_addr, to_addr, cc_addr, subject,
          date, date_ts, body_text, body_html, is_read, has_attachment, message_id, snippet)
         VALUES (?1, -1, 'Drafts', '', ?2, ?3, ?4, ?5, ?6, ?7, ?8, 1, 0, '', ?9)"@
}

/// The statement that keeps a new draft.
pub open spec fn keeping_draft(d: Draft, date: Seq<char>, date_ts: int) -> StatementView {
    sql(draft_text()).number(d.account_id as int).text(d.to@).text(d.cc@).text(d.subject@).text(date).number(
        date_ts,
    ).text(d.body_text@).text(d.body_html@).text(snippet(d.body_text@, 100))
}

/// What to do next with a draft.
pub enum DraftStep {
    /// Change the draft with this id.
    Change { id: i64, statement: Statement },
    /// Insert a new draft, and give it its id as its number.
    Insert(Statement),
    /// Nothing: it has this id.
    Done(i64),
}

fn insert_draft(d: &Draft, date: &str, date_ts: i64) -> (r: Statement)
    ensures
        r@ == keeping_draft(*d, date@, date_ts as int),
{
    Statement::new(
        "INSERT INTO emails
         (account_id, uid, folder, from_addr, to_addr, cc_addr, subject,
          date, date_ts, body_text, body_html, is_read, has_attachment, message_id, snippet)
         VALUES (?1, -1, 'Drafts', '', ?2, ?3, ?4, ?5, ?6, ?7, ?8, 1, 0, '', ?9)",
    ).number(d.account_id).text(d.to.as_str()).text(d.cc.as_str()).text(d.subject.as_str()).text(
        date,
    ).number(date_ts).text(d.body_text.as_str()).text(d.body_html.as_str()).text(
        snippet_from_text(d.body_text.as_str(), 100).as_str(),
    )
}

/// Begins to keep a draft, which may have an id already.
pub fn save_draft(d: &Draft, draft_id: Option<i64>, date: &str, date_ts: i64) -> (r: DraftStep)
    ensures
        match draft_id {
            Some(id) => r matches DraftStep::Change { id: i, statement } && i == id && statement@
                == changing_draft(*d, id as int, date@, date_ts as int),
            None => r matches DraftStep::Insert(s) && s@ == keeping_draft(
                *d,
                date@,
                date_ts as int,
            ),
        },
{
    match draft_id {
        Some(id) => {
            let statement = Statement::new(
                "UPDATE emails SET to_addr=?1, cc_addr=?2, subject=?3,
             body_text=?4, body_html=?5, snippet=?6, date=?7, date_ts=?8
             WHERE id=?9 AND account_id=?10 AND folder='Drafts'",
            ).text(d.to.as_str()).text(d.cc.as_str()).text(d.subject.as_str()).text(
                d.body_text.as_str(),
            ).text(d.body_html.as_str()).text(
                snippet_from_text(d.body_text.as_str(), 100).as_str(),
            ).text(date).number(date_ts).number(id).number(d.account_id);
            DraftStep::Change { id, statement }
        },
        None => DraftStep::Insert(insert_draft(d, date, date_ts)),
    }
}

/// Goes on after so many drafts have been changed: if there was none, a new one is inserted.
pub fn draft_changed(d: &Draft, id: i64, changed: usize, date: &str, date_ts: i64) -> (r: DraftStep)
    ensures
        if changed > 0 {
            r == DraftStep::Done(id)
        } else {
            r matches DraftStep::Insert(s) && s@ == keeping_draft(*d, date@, date_ts as int)
        },
{
    if changed > 0 {
        DraftStep::Done(id)
    } else {
        DraftStep::Insert(insert_draft(d, date, date_ts))
    }
}

// ---------------------------------------------------------------------------------------------
// Read receipts
// ---------------------------------------------------------------------------------------------

/// A report that a message was read.
pub struct Receipt {
    pub from: Mailbox,
    pub to: String,
    pub subject: String,
    pub body: String,
}

/// The subject of a report.
pub open spec fn receipt_subject(original: Seq<char>) -> Seq<char> {
    "Прочитано: "@ + original
}

/// The text of a report.
pub open spec fn receipt_body(original: Seq<char>, reader: Seq<char>) -> Seq<char> {
    "Это уведомление о том, что письмо \""@ + original + "\" было прочитано получателем "@ + reader
        + "."@
}

/// Makes a report, given what is wrong with the two addresses.
pub fn compose_receipt(
    sender: &Sender,
    to: &str,
    original_subject: &str,
    from_error: Option<String>,
    to_error: Option<String>,
) -> (r: Result<Receipt, String>)
    ensures
        match (from_error, to_error) {
            (Some(e), _) => r matches Err(m) && m@ == "Email отправителя: "@ + e@,
            (None, Some(e)) => r matches Err(m) && m@ == "Email получателя MDN: "@ + e@,
            (None, None) => r matches Ok(c) && c.from@ == from_mailbox(*sender) && c.to@
                == receipt_email(to@) && c.subject@ == receipt_subject(original_subject@) && c.body@
                == receipt_body(original_subject@, sender.email@),
        },
        r matches Ok(c) ==> {
            &&& c.from.email@ == sender.email@
            &&& sender.name@.len() == 0 ==> c.from.name is None
            &&& sender.name@.len() > 0 ==> (c.from.name matches Some(n) && n@ == sender.name@)
            &&& c.subject@ == "Прочитано: "@ + original_subject@
        },
{
    if let Some(e) = from_error {
        return Err(join2("Email отправителя: ", e.as_str()));
    }
    if let Some(e) = to_error {
        return Err(join2("Email получателя MDN: ", e.as_str()));
    }
    let name = if to_chars(sender.name.as_str()).len() == 0 {
        None
    } else {
        Some(sender.name.clone())
    };
    let from = Mailbox { name, email: sender.email.clone() };
    assert(from@ =~= from_mailbox(*sender));
    let mut body = join3(
        "Это уведомление о том, что письмо \"",
        original_subject,
        "\" было прочитано получателем ",
    );
    body.append(sender.email.as_str());
    body.append(".");
    Ok(
        Receipt {
            from,
            to: receipt_address(to),
            subject: join2("Прочитано: ", original_subject),
            body,
        },
    )
}

/// Makes the report that a message was read.
pub fn send_mdn(sender: &Sender, to: &str, original_subject: &str) -> (r: Result<Receipt, String>)
    ensures
        match (address_error(sender.email@), address_error(receipt_email(to@))) {
            (Some(e), _) => r matches Err(m) && m@ == "Email отправителя: "@ + e,
            (None, Some(e)) => r matches Err(m) && m@ == "Email получателя MDN: "@ + e,
            (None, None) => r matches Ok(c) && c.from@ == from_mailbox(*sender) && c.to@
                == receipt_email(to@) && c.subject@ == receipt_subject(original_subject@) && c.body@
                == receipt_body(original_subject@, sender.email@),
        },
        r matches Ok(c) ==> {
            &&& c.from.email@ == sender.email@
            &&& sender.name@.len() == 0 ==> c.from.name is None
            &&& sender.name@.len() > 0 ==> (c.from.name matches Some(n) && n@ == sender.name@)
            &&& c.subject@ == "Прочитано: "@ + original_subject@
        },
{
    let from_error = check_address(sender.email.as_str());
    let to_error = check_address(receipt_address(to).as_str());
    compose_receipt(sender, to, original_subject, from_error, to_error)
}

/// The statement that notes that a request for a report has been dealt with.
pub open spec fn noting_receipt(email_id: int) -> StatementView {
    sql("UPDATE emails SET read_receipt_sent=1 WHERE id=?1"@).number(email_id)
}

/// Notes that a request for a report has been dealt with.
pub fn dismiss_read_receipt(email_id: i64) -> (r: Statement)
    ensures
        r@ == noting_receipt(email_id as int),
{
    Statement::new("UPDATE emails SET read_receipt_sent=1 WHERE id=?1").number(email_id)
}

/// Goes on after the server has taken the report on a message, or refused it: only a report that was
/// sent is noted.
pub fn receipt_next(email_id: i64, sent: bool) -> (r: Option<Statement>)
    ensures
        match r {
            Some(s) => sent && s@ == noting_receipt(email_id as int),
            None => !sent,
        },
{
    if sent {
        Some(dismiss_read_receipt(email_id))
    } else {
        None
    }
}

} // verus!
