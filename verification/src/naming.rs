//! What names mean: those of files, of types, of archives and what they hold, of months and of folders.
use vstd::prelude::*;

use crate::archive::{
    dangerous_entries, dangerous_entry, kind_of, nothing, rar_findings, read_names, reported,
    zip_findings, ArchiveKind, ScanView,
};
use crate::attachments::{FolderTime, folders_to, mime_of, month, saved_name, scan_needed};
use crate::contact_files::{law_lines, lemma_no_sep, lemma_split_on, lines_text};
use crate::filenames::{
    allowed, basename, clean_name, dangerous_ext, dangerous_name, extension, file_name,
    first_value, forbidden, gives, law_clean_name_is_kept, law_sanitized_is_clean, neutralized,
    sanitized, value_in,
};
use crate::folders::{ListedView, creation_refused, renaming_refused, system_folder, users_names};
use crate::text::{
    ascii_lower, ends_clean, first_index, fold, fold_char, last_index, lemma_first_index,
    lemma_last_index, lemma_trim_fixed, split, trim, trim_back, trim_front, unquoted, Strip,
};
use crate::utf7::decode;

verus! {

// ---------------------------------------------------------------------------------------------
// Names of files
// ---------------------------------------------------------------------------------------------

/// The extensions of files that are dangerous to open.
pub open spec fn dangerous_kinds() -> Seq<Seq<char>> {
    seq![
        "exe"@, "msi"@, "msp"@, "mst"@, "com"@, "scr"@, "pif"@, "dll"@, "cpl"@, "ocx"@, "msc"@,
        "application"@, "xbap"@, "appref-ms"@, "bat"@, "cmd"@, "ps1"@, "psm1"@, "psd1"@, "ps2"@,
        "ps1xml"@, "ps2xml"@, "psc1"@, "psc2"@, "vbs"@, "vbe"@, "vb"@, "vbp"@, "jse"@, "js"@,
        "wsf"@, "wsh"@, "ws"@, "wsc"@, "sct"@, "shb"@, "shs"@, "py"@, "rb"@, "pl"@, "php"@,
        "hta"@, "lnk"@, "url"@, "website"@, "mht"@, "mhtml"@, "reg"@, "inf"@, "one"@, "onepkg"@,
        "svg"@, "vhd"@, "vhdx"@, "chm"@, "hlp"@, "gadget"@, "scf"@, "diagcab"@, "diagpkg"@,
        "settingcontent-ms"@, "theme"@, "themepack"@, "search-ms"@, "searchconnector-ms"@,
        "jar"@, "jnlp"@, "class"@, "ade"@, "adp"@, "mda"@, "mdb"@, "mde"@, "mdt"@, "mdw"@,
        "mdz"@, "docm"@, "dotm"@, "xlsm"@, "xlsb"@, "xltm"@, "xlam"@, "xll"@, "pptm"@, "potm"@,
        "ppam"@, "ppsm"@, "sldm"@, "pub"@, "pubm"@, "wll"@, "odt"@, "ods"@, "odp"@, "odg"@,
        "odb"@, "ott"@, "ots"@, "otp"@, "otg"@, "iso"@, "img"@, "cab"@, "arj"@, "ace"@, "lzh"@,
        "lha"@, "lz"@, "tar"@, "uue"@, "xz"@, "z"@, "zipx"@, "001"@, "bz2"@, "gz"@,
    ]
}

/// An extension is dangerous exactly if it is one of these.
#[verifier::spinoff_prover]
#[verifier::rlimit(60)]
pub proof fn law_dangerous_kinds(e: Seq<char>)
    ensures
        dangerous_ext(e) <==> dangerous_kinds().contains(e),
{
    let l = dangerous_kinds();
    assert(l[0] == "exe"@ && dangerous_ext("exe"@));
    assert(l[1] == "msi"@ && dangerous_ext("msi"@));
    assert(l[2] == "msp"@ && dangerous_ext("msp"@));
    assert(l[3] == "mst"@ && dangerous_ext("mst"@));
    assert(l[4] == "com"@ && dangerous_ext("com"@));
    assert(l[5] == "scr"@ && dangerous_ext("scr"@));
    assert(l[6] == "pif"@ && dangerous_ext("pif"@));
    assert(l[7] == "dll"@ && dangerous_ext("dll"@));
    assert(l[8] == "cpl"@ && dangerous_ext("cpl"@));
    assert(l[9] == "ocx"@ && dangerous_ext("ocx"@));
    assert(l[10] == "msc"@ && dangerous_ext("msc"@));
    assert(l[11] == "application"@ && dangerous_ext("application"@));
    assert(l[12] == "xbap"@ && dangerous_ext("xbap"@));
    assert(l[13] == "appref-ms"@ && dangerous_ext("appref-ms"@));
    assert(l[14] == "bat"@ && dangerous_ext("bat"@));
    assert(l[15] == "cmd"@ && dangerous_ext("cmd"@));
    assert(l[16] == "ps1"@ && dangerous_ext("ps1"@));
    assert(l[17] == "psm1"@ && dangerous_ext("psm1"@));
    assert(l[18] == "psd1"@ && dangerous_ext("psd1"@));
    assert(l[19] == "ps2"@ && dangerous_ext("ps2"@));
    assert(l[20] == "ps1xml"@ && dangerous_ext("ps1xml"@));
    assert(l[21] == "ps2xml"@ && dangerous_ext("ps2xml"@));
    assert(l[22] == "psc1"@ && dangerous_ext("psc1"@));
    assert(l[23] == "psc2"@ && dangerous_ext("psc2"@));
    assert(l[24] == "vbs"@ && dangerous_ext("vbs"@));
    assert(l[25] == "vbe"@ && dangerous_ext("vbe"@));
    assert(l[26] == "vb"@ && dangerous_ext("vb"@));
    assert(l[27] == "vbp"@ && dangerous_ext("vbp"@));
    assert(l[28] == "jse"@ && dangerous_ext("jse"@));
    assert(l[29] == "js"@ && dangerous_ext("js"@));
    assert(l[30] == "wsf"@ && dangerous_ext("wsf"@));
    assert(l[31] == "wsh"@ && dangerous_ext("wsh"@));
    assert(l[32] == "ws"@ && dangerous_ext("ws"@));
    assert(l[33] == "wsc"@ && dangerous_ext("wsc"@));
    assert(l[34] == "sct"@ && dangerous_ext("sct"@));
    assert(l[35] == "shb"@ && dangerous_ext("shb"@));
    assert(l[36] == "shs"@ && dangerous_ext("shs"@));
    assert(l[37] == "py"@ && dangerous_ext("py"@));
    assert(l[38] == "rb"@ && dangerous_ext("rb"@));
    assert(l[39] == "pl"@ && dangerous_ext("pl"@));
    assert(l[40] == "php"@ && dangerous_ext("php"@));
    assert(l[41] == "hta"@ && dangerous_ext("hta"@));
    assert(l[42] == "lnk"@ && dangerous_ext("lnk"@));
    assert(l[43] == "url"@ && dangerous_ext("url"@));
    assert(l[44] == "website"@ && dangerous_ext("website"@));
    assert(l[45] == "mht"@ && dangerous_ext("mht"@));
    assert(l[46] == "mhtml"@ && dangerous_ext("mhtml"@));
    assert(l[47] == "reg"@ && dangerous_ext("reg"@));
    assert(l[48] == "inf"@ && dangerous_ext("inf"@));
    assert(l[49] == "one"@ && dangerous_ext("one"@));
    assert(l[50] == "onepkg"@ && dangerous_ext("onepkg"@));
    assert(l[51] == "svg"@ && dangerous_ext("svg"@));
    assert(l[52] == "vhd"@ && dangerous_ext("vhd"@));
    assert(l[53] == "vhdx"@ && dangerous_ext("vhdx"@));
    assert(l[54] == "chm"@ && dangerous_ext("chm"@));
    assert(l[55] == "hlp"@ && dangerous_ext("hlp"@));
    assert(l[56] == "gadget"@ && dangerous_ext("gadget"@));
    assert(l[57] == "scf"@ && dangerous_ext("scf"@));
    assert(l[58] == "diagcab"@ && dangerous_ext("diagcab"@));
    assert(l[59] == "diagpkg"@ && dangerous_ext("diagpkg"@));
    assert(l[60] == "settingcontent-ms"@ && dangerous_ext("settingcontent-ms"@));
    assert(l[61] == "theme"@ && dangerous_ext("theme"@));
    assert(l[62] == "themepack"@ && dangerous_ext("themepack"@));
    assert(l[63] == "search-ms"@ && dangerous_ext("search-ms"@));
    assert(l[64] == "searchconnector-ms"@ && dangerous_ext("searchconnector-ms"@));
    assert(l[65] == "jar"@ && dangerous_ext("jar"@));
    assert(l[66] == "jnlp"@ && dangerous_ext("jnlp"@));
    assert(l[67] == "class"@ && dangerous_ext("class"@));
    assert(l[68] == "ade"@ && dangerous_ext("ade"@));
    assert(l[69] == "adp"@ && dangerous_ext("adp"@));
    assert(l[70] == "mda"@ && dangerous_ext("mda"@));
    assert(l[71] == "mdb"@ && dangerous_ext("mdb"@));
    assert(l[72] == "mde"@ && dangerous_ext("mde"@));
    assert(l[73] == "mdt"@ && dangerous_ext("mdt"@));
    assert(l[74] == "mdw"@ && dangerous_ext("mdw"@));
    assert(l[75] == "mdz"@ && dangerous_ext("mdz"@));
    assert(l[76] == "docm"@ && dangerous_ext("docm"@));
    assert(l[77] == "dotm"@ && dangerous_ext("dotm"@));
    assert(l[78] == "xlsm"@ && dangerous_ext("xlsm"@));
    assert(l[79] == "xlsb"@ && dangerous_ext("xlsb"@));
    assert(l[80] == "xltm"@ && dangerous_ext("xltm"@));
    assert(l[81] == "xlam"@ && dangerous_ext("xlam"@));
    assert(l[82] == "xll"@ && dangerous_ext("xll"@));
    assert(l[83] == "pptm"@ && dangerous_ext("pptm"@));
    assert(l[84] == "potm"@ && dangerous_ext("potm"@));
    assert(l[85] == "ppam"@ && dangerous_ext("ppam"@));
    assert(l[86] == "ppsm"@ && dangerous_ext("ppsm"@));
    assert(l[87] == "sldm"@ && dangerous_ext("sldm"@));
    assert(l[88] == "pub"@ && dangerous_ext("pub"@));
    assert(l[89] == "pubm"@ && dangerous_ext("pubm"@));
    assert(l[90] == "wll"@ && dangerous_ext("wll"@));
    assert(l[91] == "odt"@ && dangerous_ext("odt"@));
    assert(l[92] == "ods"@ && dangerous_ext("ods"@));
    assert(l[93] == "odp"@ && dangerous_ext("odp"@));
    assert(l[94] == "odg"@ && dangerous_ext("odg"@));
    assert(l[95] == "odb"@ && dangerous_ext("odb"@));
    assert(l[96] == "ott"@ && dangerous_ext("ott"@));
    assert(l[97] == "ots"@ && dangerous_ext("ots"@));
    assert(l[98] == "otp"@ && dangerous_ext("otp"@));
    assert(l[99] == "otg"@ && dangerous_ext("otg"@));
    assert(l[100] == "iso"@ && dangerous_ext("iso"@));
    assert(l[101] == "img"@ && dangerous_ext("img"@));
    assert(l[102] == "cab"@ && dangerous_ext("cab"@));
    assert(l[103] == "arj"@ && dangerous_ext("arj"@));
    assert(l[104] == "ace"@ && dangerous_ext("ace"@));
    assert(l[105] == "lzh"@ && dangerous_ext("lzh"@));
    assert(l[106] == "lha"@ && dangerous_ext("lha"@));
    assert(l[107] == "lz"@ && dangerous_ext("lz"@));
    assert(l[108] == "tar"@ && dangerous_ext("tar"@));
    assert(l[109] == "uue"@ && dangerous_ext("uue"@));
    assert(l[110] == "xz"@ && dangerous_ext("xz"@));
    assert(l[111] == "z"@ && dangerous_ext("z"@));
    assert(l[112] == "zipx"@ && dangerous_ext("zipx"@));
    assert(l[113] == "001"@ && dangerous_ext("001"@));
    assert(l[114] == "bz2"@ && dangerous_ext("bz2"@));
    assert(l[115] == "gz"@ && dangerous_ext("gz"@));
    if l.contains(e) {
        let i = choose|i: int| 0 <= i < l.len() && l[i] == e;
        assert(l.len() == 116);
    }
}

/// What follows the last dot of a name is its extension.
pub proof fn law_extension(stem: Seq<char>, ext: Seq<char>)
    requires
        !ext.contains('.'),
    ensures
        extension(stem + seq!['.'] + ext) == ext,
        neutralized(stem + seq!['.'] + ext) == stem + ".[virus]_"@ + ext,
        extension(ext) == ext,
        neutralized(ext) == ext + ".[virus]"@,
{
    let s = stem + seq!['.'] + ext;
    let n = stem.len() as int;
    lemma_last_index(s, '.');
    assert(s[n] == '.');
    assert forall|j: int| n < j < s.len() implies s[j] != '.' by {
        assert(ext[j - n - 1] == s[j]);
    }
    assert(last_index(s, '.') == Some(n));
    assert(s.skip(n + 1) =~= ext);
    assert(s.take(n) =~= stem);
    lemma_last_index(ext, '.');
    assert(last_index(ext, '.') is None) by {
        if let Some(i) = last_index(ext, '.') {
            assert(ext[i] == '.');
        }
    }
}

/// A file is dangerous exactly if its extension, in whatever case, is one of those that are, and then it
/// is saved under a name that no program opens.
pub proof fn law_dangerous_file(stem: Seq<char>, ext: Seq<char>)
    requires
        !ext.contains('.'),
    ensures
        dangerous_name(stem + seq!['.'] + ext) <==> dangerous_kinds().contains(fold(ext)),
        dangerous_kinds().contains(fold(ext)) ==> saved_name(stem + seq!['.'] + ext, true, nothing())
            == stem + ".[virus]_"@ + ext,
        saved_name(stem + seq!['.'] + ext, false, nothing()) == stem + seq!['.'] + ext,
{
    law_extension(stem, ext);
    law_dangerous_kinds(fold(ext));
}

/// A character that a name of a file may not hold.
pub open spec fn is_special(c: char) -> bool {
    seq!['/', '\\', ':', '*', '?', '"', '<', '>', '|'].contains(c)
}

proof fn lemma_special(c: char)
    ensures
        is_special(c) <==> forbidden(c),
{
    let l = seq!['/', '\\', ':', '*', '?', '"', '<', '>', '|'];
    assert(l[0] == '/' && l[1] == '\\' && l[2] == ':' && l[3] == '*' && l[4] == '?' && l[5] == '"'
        && l[6] == '<' && l[7] == '>' && l[8] == '|');
}

/// What stands in a name of a file that is made fit is what stood in it without the special characters.
pub proof fn law_allowed_joins(a: Seq<char>, b: Seq<char>)
    ensures
        allowed(a + b) == allowed(a) + allowed(b),
    decreases b.len(),
{
    if b.len() == 0 {
        assert(a + b =~= a);
        assert(allowed(a) + allowed(b) =~= allowed(a));
    } else {
        assert((a + b).drop_last() =~= a + b.drop_last());
        law_allowed_joins(a, b.drop_last());
        assert(allowed(a + b) =~= allowed(a) + allowed(b));
    }
}

/// Of one character nothing is left if it is special, and itself otherwise.
pub proof fn law_allowed_one(c: char)
    ensures
        is_special(c) ==> allowed(seq![c]).len() == 0,
        !is_special(c) ==> allowed(seq![c]) == seq![c],
{
    lemma_special(c);
    assert(seq![c].drop_last() =~= Seq::<char>::empty());
    assert(seq![c].last() == c);
    reveal_with_fuel(allowed, 2);
    assert(Seq::<char>::empty().push(c) =~= seq![c]);
}

/// A name without special characters and without white space at its ends is fit as it is, unless it is
/// empty or names a directory.
pub proof fn law_fit_name(name: Seq<char>)
    requires
        forall|i: int| 0 <= i < name.len() ==> !is_special(#[trigger] name[i]),
        ends_clean(name),
        name.len() > 0,
        name != "."@,
        name != ".."@,
    ensures
        sanitized(name) == name,
{
    lemma_trim_fixed(name);
    assert forall|i: int| 0 <= i < name.len() implies !forbidden(#[trigger] name[i]) by {
        assert(!is_special(name[i]));
        lemma_special(name[i]);
    }
    assert(clean_name(name));
    law_clean_name_is_kept(name);
}

/// No name that has been made fit holds a special character, is empty or names a directory.
pub proof fn law_sanitized(name: Seq<char>)
    ensures
        forall|i: int| 0 <= i < sanitized(name).len() ==> !is_special(#[trigger] sanitized(name)[i]),
        sanitized(name).len() > 0,
        sanitized(name) != "."@,
        sanitized(name) != ".."@,
{
    law_sanitized_is_clean(name);
    let s = sanitized(name);
    assert forall|i: int| 0 <= i < s.len() implies !is_special(#[trigger] s[i]) by {
        assert(!forbidden(s[i]));
        lemma_special(s[i]);
    }
}

/// A file in an archive has the name that follows its directories.
pub proof fn law_basename(directory: Seq<char>, name: Seq<char>)
    requires
        !name.contains('/'),
        !name.contains('\\'),
    ensures
        basename(directory + seq!['/'] + name) == name,
        basename(directory + seq!['\\'] + name) == name,
        basename(name) == name,
    decreases name.len(),
{
    let none = Seq::<char>::empty();
    if name.len() == 0 {
        assert((directory + seq!['/'] + name).last() == '/');
        assert((directory + seq!['\\'] + name).last() == '\\');
        assert(name =~= none);
    } else {
        let n = name.drop_last();
        let c = name.last();
        assert(name[name.len() - 1] == c);
        assert forall|x: char| !name.contains(x) implies !n.contains(x) by {
            if n.contains(x) {
                let i = choose|i: int| 0 <= i < n.len() && n[i] == x;
                assert(name[i] == x);
            }
        }
        law_basename(directory, n);
        assert((directory + seq!['/'] + name).drop_last() =~= directory + seq!['/'] + n);
        assert((directory + seq!['\\'] + name).drop_last() =~= directory + seq!['\\'] + n);
        assert(n.push(c) =~= name);
    }
}

/// The name that a part of a message gives its file in quotation marks is the name of the file.
pub proof fn law_given_file_name(name: Seq<char>, content_type: Seq<char>)
    requires
        forall|i: int| 0 <= i < name.len() ==> !is_special(#[trigger] name[i]),
        !name.contains(';'),
        ends_clean(name),
        name.len() > 0,
        name != "."@,
        name != ".."@,
    ensures
        file_name("attachment; filename=\""@ + name + "\""@, content_type) == name,
{
    reveal_strlit("attachment; filename=\"");
    reveal_strlit("\"");
    reveal_strlit("filename=");
    let key = "filename="@;
    let s = "attachment; filename=\""@ + name + "\""@;
    let a = "attachment; filename=\""@.take(10);
    let b = seq![' '] + key + seq!['"'] + name + seq!['"'];
    assert(s =~= a.push(';') + b);
    assert(!name.contains('"')) by {
        if name.contains('"') {
            let i = choose|i: int| 0 <= i < name.len() && name[i] == '"';
            lemma_special(name[i]);
            assert(!is_special(name[i]));
        }
    }
    assert(!a.contains(';'));
    assert(!b.contains(';')) by {
        if b.contains(';') {
            let i = choose|i: int| 0 <= i < b.len() && b[i] == ';';
            if 11 <= i < 11 + name.len() {
                assert(name[i - 11] == ';');
            }
        }
    }
    lemma_no_sep(a, ';');
    let ac = a.push(';');
    assert(ac.drop_last() =~= a);
    assert(split(ac, ';') =~= seq![a, Seq::empty()]);
    lemma_split_on(ac, b, ';');
    assert(Seq::<char>::empty() + b =~= b);
    assert(split(s, ';') =~= seq![a, b]);
    let p = split(s, ';');
    lemma_trim_fixed(a);
    assert(fold(a)[0] == fold_char(a[0]));
    assert(fold(a).take(9)[0] == 'a');
    assert(!gives(a, key));
    let t = key + seq!['"'] + name + seq!['"'];
    assert(b =~= seq![' '] + t);
    assert(b.drop_first() =~= t);
    assert(t[0] == 'f' && t.last() == '"');
    assert(trim_front(Strip::White, t) == t);
    assert(trim_front(Strip::White, b) == trim_front(Strip::White, b.drop_first()));
    assert(trim(b) == t);
    assert(fold(t).take(9) =~= key) by {
        assert forall|i: int| 0 <= i < 9 implies fold(t)[i] == key[i] by {
            assert(t[i] == key[i]);
            assert(fold_char(key[i]) == key[i]);
        }
    }
    assert(gives(b, key));
    let q = seq!['"'] + name + seq!['"'];
    assert(t.skip(9) =~= q);
    assert(q[0] == '"' && q.last() == '"');
    lemma_trim_fixed(q);
    let k = Strip::Only('"');
    let f = name + seq!['"'];
    assert(q.drop_first() =~= f);
    assert(f[0] == name[0]);
    assert(name[0] != '"') by {
        if name[0] == '"' {
            assert(name.contains('"'));
        }
    }
    assert(trim_front(k, f) == f);
    assert(trim_front(k, q) == trim_front(k, q.drop_first()));
    assert(f.last() == '"');
    assert(f.drop_last() =~= name);
    assert(name.last() != '"') by {
        if name.last() == '"' {
            assert(name[name.len() - 1] == '"');
            assert(name.contains('"'));
        }
    }
    assert(trim_back(k, name) == name);
    assert(trim_back(k, f) == trim_back(k, f.drop_last()));
    assert(unquoted(q) == name);
    lemma_trim_fixed(name);
    assert(value_in(b, key) == name);
    assert(p.drop_first() =~= seq![b]);
    assert(p.drop_first()[0] == b);
    assert(first_value(p.drop_first(), key) == Some(name));
    assert(first_value(p, key) == Some(name));
    law_fit_name(name);
}

// ---------------------------------------------------------------------------------------------
// Archives
// ---------------------------------------------------------------------------------------------

/// The dangerous files among some are those among the first of them, then those among the rest.
pub proof fn law_dangerous_join(a: Seq<Seq<char>>, b: Seq<Seq<char>>)
    ensures
        dangerous_entries(a + b) == dangerous_entries(a) + dangerous_entries(b),
    decreases b.len(),
{
    if b.len() == 0 {
        assert(a + b =~= a);
        assert(dangerous_entries(a) + dangerous_entries(b) =~= dangerous_entries(a));
    } else {
        assert((a + b).drop_last() =~= a + b.drop_last());
        law_dangerous_join(a, b.drop_last());
        assert(dangerous_entries(a + b) =~= dangerous_entries(a) + dangerous_entries(b));
    }
}

/// Every file in an archive with a dangerous extension is found, whatever its directory, and no other.
pub proof fn law_dangerous_found(names: Seq<Seq<char>>, name: Seq<char>)
    ensures
        dangerous_entries(names).contains(name) <==> names.contains(name) && basename(name).len() > 0
            && dangerous_kinds().contains(fold(extension(basename(name)))),
    decreases names.len(),
{
    law_dangerous_kinds(fold(extension(basename(name))));
    if names.len() > 0 {
        let front = names.drop_last();
        let one = names.last();
        law_dangerous_found(front, name);
        let d = dangerous_entries(front);
        if names.contains(name) {
            let i = choose|i: int| 0 <= i < names.len() && names[i] == name;
            if i < front.len() {
                assert(front[i] == name);
            }
        }
        if front.contains(name) {
            let i = choose|i: int| 0 <= i < front.len() && front[i] == name;
            assert(names[i] == name);
        }
        assert(names[names.len() - 1] == one);
        if dangerous_entry(one) {
            assert(dangerous_entries(names) == d.push(one));
            assert(d.push(one)[d.len() as int] == one);
            if d.contains(name) {
                let i = choose|i: int| 0 <= i < d.len() && d[i] == name;
                assert(d.push(one)[i] == name);
            }
            if d.push(one).contains(name) {
                let i = choose|i: int| 0 <= i < d.push(one).len() && d.push(one)[i] == name;
                if i < d.len() {
                    assert(d[i] == name);
                }
            }
        }
    }
}

/// An archive with a dangerous file in it, or one that cannot be read, is saved under a name that no
/// program opens; any other is saved under its own.
pub proof fn law_archive_is_saved(stem: Seq<char>, ext: Seq<char>, scan: ScanView)
    requires
        !ext.contains('.'),
        fold(ext) == "zip"@ || fold(ext) == "7z"@ || fold(ext) == "rar"@,
        !dangerous_kinds().contains(fold(ext)),
    ensures
        scan.dangerous.len() > 0 || scan.encrypted ==> saved_name(stem + seq!['.'] + ext, true, scan)
            == stem + ".[virus]_"@ + ext,
        scan.dangerous.len() == 0 && !scan.encrypted ==> saved_name(
            stem + seq!['.'] + ext,
            true,
            scan,
        ) == stem + seq!['.'] + ext,
        scan_needed(stem + seq!['.'] + ext, true) is Some,
        scan_needed(stem + seq!['.'] + ext, false) is None,
{
    law_extension(stem, ext);
    law_dangerous_kinds(fold(ext));
}

/// An archive is looked into by its extension, in whatever case.
pub proof fn law_archive_kinds(ext: Seq<char>)
    ensures
        kind_of(ext) == Some(ArchiveKind::Zip) <==> fold(ext) == "zip"@,
        kind_of(ext) == Some(ArchiveKind::SevenZ) <==> fold(ext) == "7z"@,
        kind_of(ext) == Some(ArchiveKind::Rar) <==> fold(ext) == "rar"@,
        kind_of(ext) is None <==> fold(ext) != "zip"@ && fold(ext) != "7z"@ && fold(ext) != "rar"@,
{
    reveal_strlit("zip");
    reveal_strlit("7z");
    reveal_strlit("rar");
    assert("zip"@[0] != "rar"@[0]);
}

/// Names that a program lists, one on each line, are the names that are looked at.
pub proof fn law_reported(names: Seq<Seq<char>>)
    requires
        forall|i: int|
            0 <= i < names.len() ==> (#[trigger] names[i]).len() > 0 && !names[i].contains('\n')
                && ends_clean(names[i]),
    ensures
        rar_findings(lines_text(names)).dangerous == dangerous_entries(names),
        !rar_findings(lines_text(names)).encrypted,
        !rar_findings(lines_text(names)).no_tool,
{
    assert forall|i: int| 0 <= i < names.len() implies !(#[trigger] names[i]).contains('\n') && (
    names[i].len() > 0 ==> names[i].last() != '\r') by {
        assert(ends_clean(names[i]));
    }
    law_lines(names);
    lemma_reported(names);
}

proof fn lemma_reported(names: Seq<Seq<char>>)
    requires
        forall|i: int| 0 <= i < names.len() ==> (#[trigger] names[i]).len() > 0 && ends_clean(names[i]),
    ensures
        reported(names) == names,
    decreases names.len(),
{
    if names.len() > 0 {
        let front = names.drop_last();
        assert forall|i: int| 0 <= i < front.len() implies (#[trigger] front[i]).len() > 0
            && ends_clean(front[i]) by {
            assert(ends_clean(names[i]));
        }
        lemma_reported(front);
        assert(ends_clean(names[names.len() - 1]));
        lemma_trim_fixed(names.last());
        assert(front.push(names.last()) =~= names);
    } else {
        assert(reported(names) =~= names);
    }
}

/// An archive of which each entry can be read is not taken for encrypted, and all its dangerous files
/// are found; one that cannot be read, or has an entry that cannot, is taken for encrypted.
pub proof fn law_zip(names: Seq<Seq<char>>)
    ensures
        ({
            let all = Seq::new(names.len(), |i: int| Some(names[i]));
            let found = zip_findings(Some(all));
            &&& found.dangerous == dangerous_entries(names)
            &&& !found.encrypted
            &&& !found.no_tool
            &&& zip_findings(Some(all.push(None))).encrypted
            &&& zip_findings(Some(all.push(None))).dangerous == dangerous_entries(names)
            &&& zip_findings(None).encrypted
        }),
    decreases names.len(),
{
    let all = Seq::new(names.len(), |i: int| Some(names[i]));
    lemma_read_names(names);
    assert(all.push(None).drop_last() =~= all);
    assert(all.push(None)[names.len() as int] is None);
    assert(all.push(None).contains(None));
}

proof fn lemma_read_names(names: Seq<Seq<char>>)
    ensures
        read_names(Seq::new(names.len(), |i: int| Some(names[i]))) == names,
    decreases names.len(),
{
    let all = Seq::new(names.len(), |i: int| Some(names[i]));
    if names.len() > 0 {
        let front = names.drop_last();
        lemma_read_names(front);
        assert(all.drop_last() =~= Seq::new(front.len(), |i: int| Some(front[i])));
        assert(front.push(names.last()) =~= names);
    } else {
        assert(read_names(all) =~= names);
    }
}

// ---------------------------------------------------------------------------------------------
// Types and places of attachments
// ---------------------------------------------------------------------------------------------

/// The extensions of files with a type of their own, and the types.
pub open spec fn known_types() -> Seq<(Seq<char>, Seq<char>)> {
    seq![
        ("pdf"@, "application/pdf"@),
        ("jpg"@, "image/jpeg"@),
        ("jpeg"@, "image/jpeg"@),
        ("png"@, "image/png"@),
        ("gif"@, "image/gif"@),
        ("doc"@, "application/msword"@),
        ("docx"@, "application/vnd.openxmlformats-officedocument.wordprocessingml.document"@),
        ("xls"@, "application/vnd.ms-excel"@),
        ("xlsx"@, "application/vnd.openxmlformats-officedocument.spreadsheetml.sheet"@),
        ("zip"@, "application/zip"@),
        ("txt"@, "text/plain"@),
    ]
}

/// A file has the type that belongs to its extension, in whatever case, and any other file the type that
/// says nothing.
pub proof fn law_types(ext: Seq<char>)
    ensures
        forall|i: int|
            0 <= i < known_types().len() && (#[trigger] known_types()[i]).0 == fold(ext) ==> mime_of(ext)
                == known_types()[i].1,
        (forall|i: int| 0 <= i < known_types().len() ==> (#[trigger] known_types()[i]).0 != fold(ext))
            ==> mime_of(ext) == "application/octet-stream"@,
{
    reveal_strlit("pdf");
    reveal_strlit("jpg");
    reveal_strlit("jpeg");
    reveal_strlit("png");
    reveal_strlit("gif");
    reveal_strlit("doc");
    reveal_strlit("docx");
    reveal_strlit("xls");
    reveal_strlit("xlsx");
    reveal_strlit("zip");
    reveal_strlit("txt");
    let l = known_types();
    assert(l[0].0 == "pdf"@ && l[1].0 == "jpg"@ && l[2].0 == "jpeg"@ && l[3].0 == "png"@ && l[4].0
        == "gif"@ && l[5].0 == "doc"@ && l[6].0 == "docx"@ && l[7].0 == "xls"@ && l[8].0 == "xlsx"@
        && l[9].0 == "zip"@ && l[10].0 == "txt"@);
    let e = fold(ext);
    assert forall|i: int| 0 <= i < l.len() && (#[trigger] l[i]).0 == e implies mime_of(ext) == l[i].1 by {
        assert(i == 0 || i == 1 || i == 2 || i == 3 || i == 4 || i == 5 || i == 6 || i == 7 || i == 8
            || i == 9 || i == 10);
        let c = e[0];
        let d = e[1];
        assert(e.len() == l[i].0.len() && c == l[i].0[0] && d == l[i].0[1]);
    }
}

/// The months of a year.
pub open spec fn months() -> Seq<Seq<char>> {
    seq![
        "январь"@,
        "февраль"@,
        "март"@,
        "апрель"@,
        "май"@,
        "июнь"@,
        "июль"@,
        "август"@,
        "сентябрь"@,
        "октябрь"@,
        "ноябрь"@,
        "декабрь"@,
    ]
}

/// The attachments of a message go into folders for its year, month, day and time, in this order, below
/// the folder that the user has chosen, if there is one.
pub proof fn law_places(subfolder: Seq<char>, t: FolderTime)
    requires
        1 <= t.month <= 12,
        subfolder.len() > 0,
    ensures
        folders_to(None, t) == seq![t.year@, months()[t.month - 1], t.day@, t.time@],
        folders_to(Some(subfolder), t) == seq![
            subfolder,
            t.year@,
            months()[t.month - 1],
            t.day@,
            t.time@,
        ],
        folders_to(Some(Seq::empty()), t) == folders_to(None, t),
{
    let l = months();
    assert(l[0] == "январь"@ && l[1] == "февраль"@ && l[2] == "март"@ && l[3] == "апрель"@ && l[4]
        == "май"@ && l[5] == "июнь"@ && l[6] == "июль"@ && l[7] == "август"@ && l[8] == "сентябрь"@
        && l[9] == "октябрь"@ && l[10] == "ноябрь"@ && l[11] == "декабрь"@);
    assert(month(t.month as int) == l[t.month - 1]);
    assert(folders_to(Some(subfolder), t) =~= seq![
        subfolder,
        t.year@,
        l[t.month - 1],
        t.day@,
        t.time@,
    ]);
}

// ---------------------------------------------------------------------------------------------
// Folders
// ---------------------------------------------------------------------------------------------

/// The names of the folders that every mailbox has.
pub open spec fn system_names() -> Seq<Seq<char>> {
    seq![
        "INBOX"@,
        "Sent"@,
        "Drafts"@,
        "Spam"@,
        "Trash"@,
        "Draft"@,
        "Junk"@,
        "Deleted"@,
        "Отправленные"@,
        "Черновики"@,
        "Удалённые"@,
        "Удаленные"@,
        "Спам"@,
        "Корзина"@,
        "Входящие"@,
        "Исходящие"@,
    ]
}

/// A folder is one that every mailbox has exactly if its name is one of these, whatever the case of its
/// ASCII letters; such a folder can be neither created nor renamed, and no other is refused but for a
/// blank name.
pub proof fn law_system_names(name: Seq<char>, other: Seq<char>)
    ensures
        system_folder(name) <==> exists|i: int|
            0 <= i < system_names().len() && ascii_lower(name) == ascii_lower(#[trigger] system_names()[i]),
        creation_refused(name) is Some <==> trim(name).len() == 0 || system_folder(name),
        renaming_refused(name, other) is Some <==> trim(other).len() == 0 || system_folder(name),
{
    let l = system_names();
    assert(l[0] == "INBOX"@ && l[1] == "Sent"@ && l[2] == "Drafts"@ && l[3] == "Spam"@ && l[4] == "Trash"@
        && l[5] == "Draft"@ && l[6] == "Junk"@ && l[7] == "Deleted"@);
    assert(l[8] == "Отправленные"@ && l[9] == "Черновики"@ && l[10] == "Удалённые"@ && l[11]
        == "Удаленные"@ && l[12] == "Спам"@ && l[13] == "Корзина"@ && l[14] == "Входящие"@ && l[15]
        == "Исходящие"@);
    assert(l.len() == 16);
    if system_folder(name) {
        assert(exists|i: int| 0 <= i < l.len() && ascii_lower(name) == ascii_lower(#[trigger] l[i]));
    }
    if exists|i: int| 0 <= i < l.len() && ascii_lower(name) == ascii_lower(#[trigger] l[i]) {
        let i = choose|i: int| 0 <= i < l.len() && ascii_lower(name) == ascii_lower(#[trigger] l[i]);
        assert(i == 0 || i == 1 || i == 2 || i == 3 || i == 4 || i == 5 || i == 6 || i == 7 || i == 8
            || i == 9 || i == 10 || i == 11 || i == 12 || i == 13 || i == 14 || i == 15);
    }
}

/// The user's folders of a list are those of its first part, then those of the rest; a folder is the
/// user's exactly if it can be selected, not every mailbox has it and it holds no `@`, and it is shown
/// under its decoded name.
pub proof fn law_users_join(a: Seq<ListedView>, b: Seq<ListedView>, f: ListedView)
    ensures
        users_names(a + b) == users_names(a) + users_names(b),
        !f.no_select && !system_folder(decode(f.name)) && !decode(f.name).contains('@') ==> users_names(
            seq![f],
        ) == seq![decode(f.name)],
        f.no_select || system_folder(decode(f.name)) || decode(f.name).contains('@') ==> users_names(
            seq![f],
        ).len() == 0,
    decreases b.len(),
{
    let none = Seq::<ListedView>::empty();
    assert(seq![f].drop_last() =~= none);
    assert(seq![f].last() == f);
    reveal_with_fuel(users_names, 2);
    let n = decode(f.name);
    lemma_first_index(n, '@');
    if n.contains('@') {
        let i = choose|i: int| 0 <= i < n.len() && n[i] == '@';
        assert(first_index(n, '@') is Some);
    }
    assert(Seq::<Seq<char>>::empty().push(n) =~= seq![n]);
    if b.len() == 0 {
        assert(a + b =~= a);
        assert(users_names(a) + users_names(b) =~= users_names(a));
    } else {
        assert((a + b).drop_last() =~= a + b.drop_last());
        law_users_join(a, b.drop_last(), f);
        assert(users_names(a + b) =~= users_names(a) + users_names(b));
    }
}

} // verus!
