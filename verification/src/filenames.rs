//! Names of attached files: cleaning, recognising and defusing them.
use vstd::prelude::*;
use vstd::slice::slice_subrange;

use crate::text::{
    begins_with, char_views, fold, fold_starts, folded, from_chars, last_index, lemma_last_index,
    lemma_trim, lemma_trim_fixed, rfind_char, split, split_at, to_chars, trim, trimmed,
    trimmed_both, unquoted, Strip,
};

verus! {

/// Whether a text is the word `w`.
pub fn is_word(v: &[char], w: &str) -> (r: bool)
    ensures
        r == (v@ == w@),
{
    let mut i: usize = 0;
    for c in it: w.chars()
        invariant
            it.seq() == w@,
            i == it.index(),
            i <= v@.len(),
            forall|j: int| 0 <= j < i ==> v@[j] == w@[j],
    {
        if i >= v.len() || v[i] != c {
            assert(v@ != w@) by {
                if v@ == w@ {
                    assert(w@[i as int] == c);
                }
            }
            return false;
        }
        i += 1;
    }
    assert(i == v@.len() ==> v@ =~= w@);
    i == v.len()
}

// ---------------------------------------------------------------------------------------------
// Clean names
// ---------------------------------------------------------------------------------------------

/// A character that may not stand in the name of a file.
pub open spec fn forbidden(c: char) -> bool {
    c == '/' || c == '\\' || c == ':' || c == '*' || c == '?' || c == '"' || c == '<' || c == '>'
        || c == '|'
}

/// The characters of a text that may stand in the name of a file, in their order.
pub open spec fn allowed(s: Seq<char>) -> Seq<char>
    decreases s.len(),
{
    if s.len() == 0 {
        Seq::empty()
    } else if forbidden(s.last()) {
        allowed(s.drop_last())
    } else {
        allowed(s.drop_last()).push(s.last())
    }
}

/// A name that stands for a directory, or for nothing.
pub open spec fn no_file_name(s: Seq<char>) -> bool {
    s == ".."@ || s == "."@ || s.len() == 0
}

/// A text made fit to be the name of a file.
pub open spec fn sanitized(name: Seq<char>) -> Seq<char> {
    let s = trim(allowed(name));
    if no_file_name(s) {
        "attachment"@
    } else {
        s
    }
}

fn is_forbidden(c: char) -> (r: bool)
    ensures
        r == forbidden(c),
{
    c == '/' || c == '\\' || c == ':' || c == '*' || c == '?' || c == '"' || c == '<' || c == '>'
        || c == '|'
}

/// Makes a text fit to be the name of a file: it loses the characters that a name may not hold and
/// the white space at its ends, and never names a directory.
pub fn sanitize_filename(name: &str) -> (r: String)
    ensures
        r@ == sanitized(name@),
{
    let v = to_chars(name);
    let mut kept: Vec<char> = Vec::new();
    let mut i: usize = 0;
    while i < v.len()
        invariant
            i <= v@.len(),
            kept@ == allowed(v@.take(i as int)),
        decreases v@.len() - i,
    {
        assert(v@.take(i + 1).drop_last() =~= v@.take(i as int));
        if !is_forbidden(v[i]) {
            kept.push(v[i]);
        }
        i += 1;
    }
    assert(v@.take(i as int) =~= v@);
    let t = trimmed(&kept);
    if is_word(t, "..") || is_word(t, ".") || t.len() == 0 {
        "attachment".to_owned()
    } else {
        from_chars(t)
    }
}

/// What every name of a file fulfils here: none of its characters is forbidden, it neither is empty
/// nor names a directory, and no white space stands at its ends.
pub open spec fn clean_name(s: Seq<char>) -> bool {
    &&& forall|i: int| 0 <= i < s.len() ==> !forbidden(#[trigger] s[i])
    &&& !no_file_name(s)
    &&& trim(s) == s
}

proof fn lemma_allowed(s: Seq<char>)
    ensures
        forall|i: int| 0 <= i < allowed(s).len() ==> !forbidden(#[trigger] allowed(s)[i]),
        (forall|i: int| 0 <= i < s.len() ==> !forbidden(#[trigger] s[i])) ==> allowed(s) == s,
    decreases s.len(),
{
    if s.len() > 0 {
        let t = s.drop_last();
        lemma_allowed(t);
        assert forall|i: int| 0 <= i < allowed(s).len() implies !forbidden(
            #[trigger] allowed(s)[i],
        ) by {
            if i < allowed(t).len() {
                assert(allowed(s)[i] == allowed(t)[i]);
            }
        }
        if forall|i: int| 0 <= i < s.len() ==> !forbidden(#[trigger] s[i]) {
            assert forall|i: int| 0 <= i < t.len() implies !forbidden(#[trigger] t[i]) by {
                assert(t[i] == s[i]);
            }
            assert(t.push(s.last()) =~= s);
        }
    }
}

/// A sanitized name is clean: it cannot leave the directory that it is put in.
pub proof fn law_sanitized_is_clean(name: Seq<char>)
    ensures
        clean_name(sanitized(name)),
{
    let a = allowed(name);
    lemma_allowed(name);
    lemma_trim(a);
    let s = trim(a);
    if no_file_name(s) {
        reveal_strlit("attachment");
        reveal_strlit(".");
        reveal_strlit("..");
        lemma_trim_fixed("attachment"@);
    } else {
        lemma_trim_fixed(s);
    }
}

/// A clean name is left as it is.
pub proof fn law_clean_name_is_kept(name: Seq<char>)
    requires
        clean_name(name),
    ensures
        sanitized(name) == name,
{
    lemma_allowed(name);
}

/// Sanitizing twice is sanitizing once.
pub proof fn law_sanitize_twice(name: Seq<char>)
    ensures
        sanitized(sanitized(name)) == sanitized(name),
{
    law_sanitized_is_clean(name);
    law_clean_name_is_kept(sanitized(name));
}

// ---------------------------------------------------------------------------------------------
// The name in the headers of a part
// ---------------------------------------------------------------------------------------------

/// Whether a piece of a header gives the parameter `key`, in whatever case.
pub open spec fn gives(piece: Seq<char>, key: Seq<char>) -> bool {
    begins_with(fold(trim(piece)), key)
}

/// The value in a piece of a header that gives the parameter `key`, without quotation marks.
pub open spec fn value_in(piece: Seq<char>, key: Seq<char>) -> Seq<char> {
    trim(unquoted(trim(trim(piece).skip(key.len() as int))))
}

/// The first value of the parameter `key` that is not empty.
pub open spec fn first_value(pieces: Seq<Seq<char>>, key: Seq<char>) -> Option<Seq<char>>
    decreases pieces.len(),
{
    if pieces.len() == 0 {
        None
    } else if gives(pieces[0], key) && value_in(pieces[0], key).len() > 0 {
        Some(value_in(pieces[0], key))
    } else {
        first_value(pieces.drop_first(), key)
    }
}

/// The value of the parameter `key` in a header whose pieces are separated by semicolons.
pub open spec fn parameter(header: Seq<char>, key: Seq<char>) -> Option<Seq<char>> {
    first_value(split(header, ';'), key)
}

/// The name of the file in a part with these two headers.
pub open spec fn file_name(disposition: Seq<char>, content_type: Seq<char>) -> Seq<char> {
    match parameter(disposition, "filename="@) {
        Some(n) => sanitized(n),
        None => match parameter(content_type, "name="@) {
            Some(n) => sanitized(n),
            None => "attachment"@,
        },
    }
}

fn parameter_of(header: &str, key: &str) -> (r: Option<String>)
    ensures
        match r {
            Some(n) => parameter(header@, key@) == Some(n@),
            None => parameter(header@, key@) is None,
        },
{
    let v = to_chars(header);
    let k = to_chars(key);
    let pieces = split_at(&v, ';');
    let ghost p = split(header@, ';');
    let mut i: usize = 0;
    assert(p.skip(0) =~= p);
    while i < pieces.len()
        invariant
            i <= pieces@.len(),
            k@ == key@,
            p == split(header@, ';'),
            p == char_views(pieces@),
            first_value(p, key@) == first_value(p.skip(i as int), key@),
        decreases pieces@.len() - i,
    {
        let piece: &Vec<char> = &pieces[i];
        let part = trimmed(piece);
        let ghost rest = p.skip(i as int);
        assert(rest[0] == piece@);
        assert(rest.drop_first() =~= p.skip(i + 1));
        if fold_starts(part, key) {
            assert(k@.len() <= part@.len());
            let value = slice_subrange(part, k.len(), part.len());
            assert(value@ =~= part@.skip(k@.len() as int));
            let name = trimmed(trimmed_both(Strip::Only('"'), trimmed(value)));
            assert(name@ == value_in(rest[0], key@));
            if name.len() > 0 {
                assert(first_value(rest, key@) == Some(name@));
                return Some(from_chars(name));
            }
        }
        i += 1;
    }
    None
}

/// The name of the file that a part of a message holds, from its `Content-Disposition`, else from
/// its `Content-Type`, else a name that fits any file.
pub fn extract_filename(cd: &str, ct_header: &str) -> (r: String)
    ensures
        r@ == file_name(cd@, ct_header@),
{
    match parameter_of(cd, "filename=") {
        Some(n) => sanitize_filename(n.as_str()),
        None => match parameter_of(ct_header, "name=") {
            Some(n) => sanitize_filename(n.as_str()),
            None => "attachment".to_owned(),
        },
    }
}

/// Whatever the headers hold, the name of the file is clean.
pub proof fn law_file_name_is_clean(disposition: Seq<char>, content_type: Seq<char>)
    ensures
        clean_name(file_name(disposition, content_type)),
{
    match parameter(disposition, "filename="@) {
        Some(n) => law_sanitized_is_clean(n),
        None => match parameter(content_type, "name="@) {
            Some(n) => law_sanitized_is_clean(n),
            None => {
                law_sanitized_is_clean(Seq::empty());
                lemma_trim_fixed(Seq::empty());
                assert(sanitized(Seq::empty()) == "attachment"@);
            },
        },
    }
}

// ---------------------------------------------------------------------------------------------
// Dangerous names
// ---------------------------------------------------------------------------------------------

/// Programs and what runs as one.
pub open spec fn program_ext(e: Seq<char>) -> bool {
    ||| e == "exe"@
    ||| e == "msi"@
    ||| e == "msp"@
    ||| e == "mst"@
    ||| e == "com"@
    ||| e == "scr"@
    ||| e == "pif"@
    ||| e == "dll"@
    ||| e == "cpl"@
    ||| e == "ocx"@
    ||| e == "msc"@
    ||| e == "application"@
    ||| e == "xbap"@
    ||| e == "appref-ms"@
}

fn is_program_ext(e: &[char]) -> (r: bool)
    ensures
        r == program_ext(e@),
{
    is_word(e, "exe")
        || is_word(e, "msi")
        || is_word(e, "msp")
        || is_word(e, "mst")
        || is_word(e, "com")
        || is_word(e, "scr")
        || is_word(e, "pif")
        || is_word(e, "dll")
        || is_word(e, "cpl")
        || is_word(e, "ocx")
        || is_word(e, "msc")
        || is_word(e, "application")
        || is_word(e, "xbap")
        || is_word(e, "appref-ms")
}

/// Scripts of the command line.
pub open spec fn shell_script_ext(e: Seq<char>) -> bool {
    ||| e == "bat"@
    ||| e == "cmd"@
    ||| e == "ps1"@
    ||| e == "psm1"@
    ||| e == "psd1"@
    ||| e == "ps2"@
    ||| e == "ps1xml"@
    ||| e == "ps2xml"@
    ||| e == "psc1"@
    ||| e == "psc2"@
}

fn is_shell_script_ext(e: &[char]) -> (r: bool)
    ensures
        r == shell_script_ext(e@),
{
    is_word(e, "bat")
        || is_word(e, "cmd")
        || is_word(e, "ps1")
        || is_word(e, "psm1")
        || is_word(e, "psd1")
        || is_word(e, "ps2")
        || is_word(e, "ps1xml")
        || is_word(e, "ps2xml")
        || is_word(e, "psc1")
        || is_word(e, "psc2")
}

/// Scripts that Windows itself interprets.
pub open spec fn windows_script_ext(e: Seq<char>) -> bool {
    ||| e == "vbs"@
    ||| e == "vbe"@
    ||| e == "vb"@
    ||| e == "vbp"@
    ||| e == "jse"@
    ||| e == "js"@
    ||| e == "wsf"@
    ||| e == "wsh"@
    ||| e == "ws"@
    ||| e == "wsc"@
    ||| e == "sct"@
    ||| e == "shb"@
    ||| e == "shs"@
}

fn is_windows_script_ext(e: &[char]) -> (r: bool)
    ensures
        r == windows_script_ext(e@),
{
    is_word(e, "vbs")
        || is_word(e, "vbe")
        || is_word(e, "vb")
        || is_word(e, "vbp")
        || is_word(e, "jse")
        || is_word(e, "js")
        || is_word(e, "wsf")
        || is_word(e, "wsh")
        || is_word(e, "ws")
        || is_word(e, "wsc")
        || is_word(e, "sct")
        || is_word(e, "shb")
        || is_word(e, "shs")
}

/// Scripts for an interpreter that may be installed.
pub open spec fn other_script_ext(e: Seq<char>) -> bool {
    ||| e == "py"@
    ||| e == "rb"@
    ||| e == "pl"@
    ||| e == "php"@
}

fn is_other_script_ext(e: &[char]) -> (r: bool)
    ensures
        r == other_script_ext(e@),
{
    is_word(e, "py")
        || is_word(e, "rb")
        || is_word(e, "pl")
        || is_word(e, "php")
}

/// HTML applications, shortcuts, web archives.
pub open spec fn web_ext(e: Seq<char>) -> bool {
    ||| e == "hta"@
    ||| e == "lnk"@
    ||| e == "url"@
    ||| e == "website"@
    ||| e == "mht"@
    ||| e == "mhtml"@
}

fn is_web_ext(e: &[char]) -> (r: bool)
    ensures
        r == web_ext(e@),
{
    is_word(e, "hta")
        || is_word(e, "lnk")
        || is_word(e, "url")
        || is_word(e, "website")
        || is_word(e, "mht")
        || is_word(e, "mhtml")
}

/// Registry entries and setup information.
pub open spec fn setup_ext(e: Seq<char>) -> bool {
    ||| e == "reg"@
    ||| e == "inf"@
}

fn is_setup_ext(e: &[char]) -> (r: bool)
    ensures
        r == setup_ext(e@),
{
    is_word(e, "reg")
        || is_word(e, "inf")
}

/// OneNote sections, vector graphics and disk images, which carry other content.
pub open spec fn container_ext(e: Seq<char>) -> bool {
    ||| e == "one"@
    ||| e == "onepkg"@
    ||| e == "svg"@
    ||| e == "vhd"@
    ||| e == "vhdx"@
}

fn is_container_ext(e: &[char]) -> (r: bool)
    ensures
        r == container_ext(e@),
{
    is_word(e, "one")
        || is_word(e, "onepkg")
        || is_word(e, "svg")
        || is_word(e, "vhd")
        || is_word(e, "vhdx")
}

/// Files that parts of Windows open without asking.
pub open spec fn system_ext(e: Seq<char>) -> bool {
    ||| e == "chm"@
    ||| e == "hlp"@
    ||| e == "gadget"@
    ||| e == "scf"@
    ||| e == "diagcab"@
    ||| e == "diagpkg"@
    ||| e == "settingcontent-ms"@
    ||| e == "theme"@
    ||| e == "themepack"@
    ||| e == "search-ms"@
    ||| e == "searchconnector-ms"@
}

fn is_system_ext(e: &[char]) -> (r: bool)
    ensures
        r == system_ext(e@),
{
    is_word(e, "chm")
        || is_word(e, "hlp")
        || is_word(e, "gadget")
        || is_word(e, "scf")
        || is_word(e, "diagcab")
        || is_word(e, "diagpkg")
        || is_word(e, "settingcontent-ms")
        || is_word(e, "theme")
        || is_word(e, "themepack")
        || is_word(e, "search-ms")
        || is_word(e, "searchconnector-ms")
}

/// Java programs.
pub open spec fn java_ext(e: Seq<char>) -> bool {
    ||| e == "jar"@
    ||| e == "jnlp"@
    ||| e == "class"@
}

fn is_java_ext(e: &[char]) -> (r: bool)
    ensures
        r == java_ext(e@),
{
    is_word(e, "jar")
        || is_word(e, "jnlp")
        || is_word(e, "class")
}

/// Access databases and projects.
pub open spec fn access_ext(e: Seq<char>) -> bool {
    ||| e == "ade"@
    ||| e == "adp"@
    ||| e == "mda"@
    ||| e == "mdb"@
    ||| e == "mde"@
    ||| e == "mdt"@
    ||| e == "mdw"@
    ||| e == "mdz"@
}

fn is_access_ext(e: &[char]) -> (r: bool)
    ensures
        r == access_ext(e@),
{
    is_word(e, "ade")
        || is_word(e, "adp")
        || is_word(e, "mda")
        || is_word(e, "mdb")
        || is_word(e, "mde")
        || is_word(e, "mdt")
        || is_word(e, "mdw")
        || is_word(e, "mdz")
}

/// Office documents with macros.
pub open spec fn office_macro_ext(e: Seq<char>) -> bool {
    ||| e == "docm"@
    ||| e == "dotm"@
    ||| e == "xlsm"@
    ||| e == "xlsb"@
    ||| e == "xltm"@
    ||| e == "xlam"@
    ||| e == "xll"@
    ||| e == "pptm"@
    ||| e == "potm"@
    ||| e == "ppam"@
    ||| e == "ppsm"@
    ||| e == "sldm"@
    ||| e == "pub"@
    ||| e == "pubm"@
    ||| e == "wll"@
}

fn is_office_macro_ext(e: &[char]) -> (r: bool)
    ensures
        r == office_macro_ext(e@),
{
    is_word(e, "docm")
        || is_word(e, "dotm")
        || is_word(e, "xlsm")
        || is_word(e, "xlsb")
        || is_word(e, "xltm")
        || is_word(e, "xlam")
        || is_word(e, "xll")
        || is_word(e, "pptm")
        || is_word(e, "potm")
        || is_word(e, "ppam")
        || is_word(e, "ppsm")
        || is_word(e, "sldm")
        || is_word(e, "pub")
        || is_word(e, "pubm")
        || is_word(e, "wll")
}

/// Open document formats, which may hold macros.
pub open spec fn open_document_ext(e: Seq<char>) -> bool {
    ||| e == "odt"@
    ||| e == "ods"@
    ||| e == "odp"@
    ||| e == "odg"@
    ||| e == "odb"@
    ||| e == "ott"@
    ||| e == "ots"@
    ||| e == "otp"@
    ||| e == "otg"@
}

fn is_open_document_ext(e: &[char]) -> (r: bool)
    ensures
        r == open_document_ext(e@),
{
    is_word(e, "odt")
        || is_word(e, "ods")
        || is_word(e, "odp")
        || is_word(e, "odg")
        || is_word(e, "odb")
        || is_word(e, "ott")
        || is_word(e, "ots")
        || is_word(e, "otp")
        || is_word(e, "otg")
}

/// Archives other than zip, rar and 7z.
pub open spec fn rare_archive_ext(e: Seq<char>) -> bool {
    ||| e == "iso"@
    ||| e == "img"@
    ||| e == "cab"@
    ||| e == "arj"@
    ||| e == "ace"@
    ||| e == "lzh"@
    ||| e == "lha"@
    ||| e == "lz"@
    ||| e == "tar"@
    ||| e == "uue"@
    ||| e == "xz"@
    ||| e == "z"@
    ||| e == "zipx"@
    ||| e == "001"@
    ||| e == "bz2"@
    ||| e == "gz"@
}

fn is_rare_archive_ext(e: &[char]) -> (r: bool)
    ensures
        r == rare_archive_ext(e@),
{
    is_word(e, "iso")
        || is_word(e, "img")
        || is_word(e, "cab")
        || is_word(e, "arj")
        || is_word(e, "ace")
        || is_word(e, "lzh")
        || is_word(e, "lha")
        || is_word(e, "lz")
        || is_word(e, "tar")
        || is_word(e, "uue")
        || is_word(e, "xz")
        || is_word(e, "z")
        || is_word(e, "zipx")
        || is_word(e, "001")
        || is_word(e, "bz2")
        || is_word(e, "gz")
}

/// The extensions of files that are dangerous to open.
pub open spec fn dangerous_ext(e: Seq<char>) -> bool {
    ||| program_ext(e)
    ||| shell_script_ext(e)
    ||| windows_script_ext(e)
    ||| other_script_ext(e)
    ||| web_ext(e)
    ||| setup_ext(e)
    ||| container_ext(e)
    ||| system_ext(e)
    ||| java_ext(e)
    ||| access_ext(e)
    ||| office_macro_ext(e)
    ||| open_document_ext(e)
    ||| rare_archive_ext(e)
}

/// Whether a lowercase extension is that of a file that is dangerous to open.
pub fn is_dangerous_ext(e: &[char]) -> (r: bool)
    ensures
        r == dangerous_ext(e@),
{
    is_program_ext(e)
        || is_shell_script_ext(e)
        || is_windows_script_ext(e)
        || is_other_script_ext(e)
        || is_web_ext(e)
        || is_setup_ext(e)
        || is_container_ext(e)
        || is_system_ext(e)
        || is_java_ext(e)
        || is_access_ext(e)
        || is_office_macro_ext(e)
        || is_open_document_ext(e)
        || is_rare_archive_ext(e)
}

/// What follows the last dot of a name, or the whole name if it has none.
pub open spec fn extension(name: Seq<char>) -> Seq<char> {
    match last_index(name, '.') {
        Some(i) => name.skip(i + 1),
        None => name,
    }
}

/// `extension`, computed.
pub fn extension_of(v: &[char]) -> (r: &[char])
    ensures
        r@ == extension(v@),
{
    let n: usize = v.len();
    match rfind_char(v, '.') {
        Some(i) => {
            let r = slice_subrange(v, i + 1, n);
            assert(r@ =~= v@.skip(i + 1));
            r
        },
        None => v,
    }
}

/// A name whose extension, in whatever case, is that of a file that is dangerous to open.
pub open spec fn dangerous_name(name: Seq<char>) -> bool {
    dangerous_ext(fold(extension(name)))
}

/// Whether a file with this name is dangerous to open.
pub fn is_dangerous_attach_ext(filename: &str) -> (r: bool)
    ensures
        r == dangerous_name(filename@),
{
    let v = to_chars(filename);
    let e = folded(extension_of(&v));
    is_dangerous_ext(&e)
}

/// The name under which a dangerous file is kept: no program opens its extension.
pub open spec fn neutralized(name: Seq<char>) -> Seq<char> {
    match last_index(name, '.') {
        Some(i) => name.take(i) + ".[virus]_"@ + name.skip(i + 1),
        None => name + ".[virus]"@,
    }
}

/// Gives a name an extension that no program opens: `invoice.exe` becomes `invoice.[virus]_exe`.
pub fn neutralize_filename(name: &str) -> (r: String)
    ensures
        r@ == neutralized(name@),
{
    let v = to_chars(name);
    let n: usize = v.len();
    match rfind_char(&v, '.') {
        Some(i) => {
            let head = slice_subrange(v.as_slice(), 0, i);
            let tail = slice_subrange(v.as_slice(), i + 1, n);
            let mut r = from_chars(head);
            r.append(".[virus]_");
            let t = from_chars(tail);
            r.append(t.as_str());
            assert(head@ =~= v@.take(i as int));
            assert(tail@ =~= v@.skip(i + 1));
            r
        },
        None => {
            let mut r = name.to_owned();
            r.append(".[virus]");
            r
        },
    }
}

proof fn lemma_program_ext(e: Seq<char>)
    requires
        program_ext(e),
    ensures
        e.len() > 0,
        e[0] != '[',
{
    reveal_strlit("exe");
    reveal_strlit("msi");
    reveal_strlit("msp");
    reveal_strlit("mst");
    reveal_strlit("com");
    reveal_strlit("scr");
    reveal_strlit("pif");
    reveal_strlit("dll");
    reveal_strlit("cpl");
    reveal_strlit("ocx");
    reveal_strlit("msc");
    reveal_strlit("application");
    reveal_strlit("xbap");
    reveal_strlit("appref-ms");
}

proof fn lemma_shell_script_ext(e: Seq<char>)
    requires
        shell_script_ext(e),
    ensures
        e.len() > 0,
        e[0] != '[',
{
    reveal_strlit("bat");
    reveal_strlit("cmd");
    reveal_strlit("ps1");
    reveal_strlit("psm1");
    reveal_strlit("psd1");
    reveal_strlit("ps2");
    reveal_strlit("ps1xml");
    reveal_strlit("ps2xml");
    reveal_strlit("psc1");
    reveal_strlit("psc2");
}

proof fn lemma_windows_script_ext(e: Seq<char>)
    requires
        windows_script_ext(e),
    ensures
        e.len() > 0,
        e[0] != '[',
{
    reveal_strlit("vbs");
    reveal_strlit("vbe");
    reveal_strlit("vb");
    reveal_strlit("vbp");
    reveal_strlit("jse");
    reveal_strlit("js");
    reveal_strlit("wsf");
    reveal_strlit("wsh");
    reveal_strlit("ws");
    reveal_strlit("wsc");
    reveal_strlit("sct");
    reveal_strlit("shb");
    reveal_strlit("shs");
}

proof fn lemma_other_script_ext(e: Seq<char>)
    requires
        other_script_ext(e),
    ensures
        e.len() > 0,
        e[0] != '[',
{
    reveal_strlit("py");
    reveal_strlit("rb");
    reveal_strlit("pl");
    reveal_strlit("php");
}

proof fn lemma_web_ext(e: Seq<char>)
    requires
        web_ext(e),
    ensures
        e.len() > 0,
        e[0] != '[',
{
    reveal_strlit("hta");
    reveal_strlit("lnk");
    reveal_strlit("url");
    reveal_strlit("website");
    reveal_strlit("mht");
    reveal_strlit("mhtml");
}

proof fn lemma_setup_ext(e: Seq<char>)
    requires
        setup_ext(e),
    ensures
        e.len() > 0,
        e[0] != '[',
{
    reveal_strlit("reg");
    reveal_strlit("inf");
}

proof fn lemma_container_ext(e: Seq<char>)
    requires
        container_ext(e),
    ensures
        e.len() > 0,
        e[0] != '[',
{
    reveal_strlit("one");
    reveal_strlit("onepkg");
    reveal_strlit("svg");
    reveal_strlit("vhd");
    reveal_strlit("vhdx");
}

proof fn lemma_system_ext(e: Seq<char>)
    requires
        system_ext(e),
    ensures
        e.len() > 0,
        e[0] != '[',
{
    reveal_strlit("chm");
    reveal_strlit("hlp");
    reveal_strlit("gadget");
    reveal_strlit("scf");
    reveal_strlit("diagcab");
    reveal_strlit("diagpkg");
    reveal_strlit("settingcontent-ms");
    reveal_strlit("theme");
    reveal_strlit("themepack");
    reveal_strlit("search-ms");
    reveal_strlit("searchconnector-ms");
}

proof fn lemma_java_ext(e: Seq<char>)
    requires
        java_ext(e),
    ensures
        e.len() > 0,
        e[0] != '[',
{
    reveal_strlit("jar");
    reveal_strlit("jnlp");
    reveal_strlit("class");
}

proof fn lemma_access_ext(e: Seq<char>)
    requires
        access_ext(e),
    ensures
        e.len() > 0,
        e[0] != '[',
{
    reveal_strlit("ade");
    reveal_strlit("adp");
    reveal_strlit("mda");
    reveal_strlit("mdb");
    reveal_strlit("mde");
    reveal_strlit("mdt");
    reveal_strlit("mdw");
    reveal_strlit("mdz");
}

proof fn lemma_office_macro_ext(e: Seq<char>)
    requires
        office_macro_ext(e),
    ensures
        e.len() > 0,
        e[0] != '[',
{
    reveal_strlit("docm");
    reveal_strlit("dotm");
    reveal_strlit("xlsm");
    reveal_strlit("xlsb");
    reveal_strlit("xltm");
    reveal_strlit("xlam");
    reveal_strlit("xll");
    reveal_strlit("pptm");
    reveal_strlit("potm");
    reveal_strlit("ppam");
    reveal_strlit("ppsm");
    reveal_strlit("sldm");
    reveal_strlit("pub");
    reveal_strlit("pubm");
    reveal_strlit("wll");
}

proof fn lemma_open_document_ext(e: Seq<char>)
    requires
        open_document_ext(e),
    ensures
        e.len() > 0,
        e[0] != '[',
{
    reveal_strlit("odt");
    reveal_strlit("ods");
    reveal_strlit("odp");
    reveal_strlit("odg");
    reveal_strlit("odb");
    reveal_strlit("ott");
    reveal_strlit("ots");
    reveal_strlit("otp");
    reveal_strlit("otg");
}

proof fn lemma_rare_archive_ext(e: Seq<char>)
    requires
        rare_archive_ext(e),
    ensures
        e.len() > 0,
        e[0] != '[',
{
    reveal_strlit("iso");
    reveal_strlit("img");
    reveal_strlit("cab");
    reveal_strlit("arj");
    reveal_strlit("ace");
    reveal_strlit("lzh");
    reveal_strlit("lha");
    reveal_strlit("lz");
    reveal_strlit("tar");
    reveal_strlit("uue");
    reveal_strlit("xz");
    reveal_strlit("z");
    reveal_strlit("zipx");
    reveal_strlit("001");
    reveal_strlit("bz2");
    reveal_strlit("gz");
}

/// No dangerous extension is empty or begins with a bracket.
pub proof fn lemma_dangerous_ext(e: Seq<char>)
    requires
        dangerous_ext(e),
    ensures
        e.len() > 0,
        e[0] != '[',
{
    if program_ext(e) {
        lemma_program_ext(e);
    } else if shell_script_ext(e) {
        lemma_shell_script_ext(e);
    } else if windows_script_ext(e) {
        lemma_windows_script_ext(e);
    } else if other_script_ext(e) {
        lemma_other_script_ext(e);
    } else if web_ext(e) {
        lemma_web_ext(e);
    } else if setup_ext(e) {
        lemma_setup_ext(e);
    } else if container_ext(e) {
        lemma_container_ext(e);
    } else if system_ext(e) {
        lemma_system_ext(e);
    } else if java_ext(e) {
        lemma_java_ext(e);
    } else if access_ext(e) {
        lemma_access_ext(e);
    } else if office_macro_ext(e) {
        lemma_office_macro_ext(e);
    } else if open_document_ext(e) {
        lemma_open_document_ext(e);
    } else if rare_archive_ext(e) {
        lemma_rare_archive_ext(e);
    }
}

proof fn lemma_last_index_is(s: Seq<char>, c: char, i: int)
    requires
        0 <= i < s.len(),
        s[i] == c,
        forall|j: int| i < j < s.len() ==> s[j] != c,
    ensures
        last_index(s, c) == Some(i),
{
    lemma_last_index(s, c);
}

/// The extension of a neutralized name begins with a bracket.
proof fn lemma_neutralized(name: Seq<char>)
    ensures
        extension(neutralized(name)).len() > 0,
        extension(neutralized(name))[0] == '[',
{
    let r = neutralized(name);
    reveal_strlit(".[virus]_");
    reveal_strlit(".[virus]");
    lemma_last_index(name, '.');
    let i = match last_index(name, '.') {
        Some(i) => i,
        None => name.len() as int,
    };
    assert(r[i] == '.');
    assert forall|j: int| i < j < r.len() implies r[j] != '.' by {
        match last_index(name, '.') {
            Some(k) => {
                if j >= i + 9 {
                    assert(r[j] == name.skip(i + 1)[j - i - 9]);
                    assert(r[j] == name[j - 8]);
                } else {
                    assert(r[j] == ".[virus]_"@[j - i]);
                }
            },
            None => {
                assert(r[j] == ".[virus]"@[j - i]);
            },
        }
    }
    lemma_last_index_is(r, '.', i);
    assert(extension(r)[0] == r[i + 1]);
}

/// A neutralized name is never dangerous.
pub proof fn law_neutralized_is_safe(name: Seq<char>)
    ensures
        !dangerous_name(neutralized(name)),
{
    lemma_neutralized(name);
    let e = extension(neutralized(name));
    assert(fold(e)[0] == '[');
    if dangerous_ext(fold(e)) {
        lemma_dangerous_ext(fold(e));
    }
}

// ---------------------------------------------------------------------------------------------
// Names inside an archive
// ---------------------------------------------------------------------------------------------

/// What follows the last slash or backslash of a path.
pub open spec fn basename(path: Seq<char>) -> Seq<char>
    decreases path.len(),
{
    if path.len() == 0 || separator(path.last()) {
        Seq::empty()
    } else {
        basename(path.drop_last()).push(path.last())
    }
}

/// Separates the parts of a path.
pub open spec fn separator(c: char) -> bool {
    c == '/' || c == '\\'
}

proof fn lemma_basename(s: Seq<char>, i: int)
    requires
        0 <= i <= s.len(),
        i > 0 ==> separator(s[i - 1]),
        forall|j: int| i <= j < s.len() ==> !separator(#[trigger] s[j]),
    ensures
        basename(s) == s.skip(i),
    decreases s.len(),
{
    if i < s.len() {
        let t = s.drop_last();
        lemma_basename(t, i);
        assert(t.skip(i).push(s.last()) =~= s.skip(i));
    } else {
        assert(s.skip(i) =~= Seq::<char>::empty());
    }
}

/// `basename`, computed.
pub fn archive_basename(name: &str) -> (r: String)
    ensures
        r@ == basename(name@),
{
    let v = to_chars(name);
    let n: usize = v.len();
    let mut i: usize = n;
    let mut done = false;
    while !done && i > 0
        invariant
            i <= n,
            n == v@.len(),
            done ==> i > 0 && separator(v@[i - 1]),
            forall|j: int| i <= j < v@.len() ==> !separator(#[trigger] v@[j]),
        decreases i + (if done { 0int } else { 1int }),
    {
        let c = v[i - 1];
        if c == '/' || c == '\\' {
            done = true;
        } else {
            i -= 1;
        }
    }
    let tail = slice_subrange(v.as_slice(), i, n);
    proof {
        lemma_basename(v@, i as int);
        assert(tail@ =~= v@.skip(i as int));
    }
    from_chars(tail)
}

} // verus!
