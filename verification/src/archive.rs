//! Looking into archives for dangerous files.
use vstd::prelude::*;

use crate::filenames::{
    archive_basename, basename, dangerous_name, extension, extension_of, is_dangerous_attach_ext,
    is_word,
};
use crate::statements::maybe;
use crate::text::{
    char_views, fold, folded, from_chars, lines, lines_of, to_chars, trim, trimmed, views,
};

verus! {

/// What was found in an archive.
pub struct ArchiveScanResult {
    /// The names of the dangerous files in it.
    pub dangerous: Vec<String>,
    /// It cannot be read without a password, or not at all.
    pub encrypted: bool,
    /// There is no program that can list it.
    pub no_tool: bool,
}

/// What the findings say.
#[verifier::ext_equal]
pub struct ScanView {
    pub dangerous: Seq<Seq<char>>,
    pub encrypted: bool,
    pub no_tool: bool,
}

impl View for ArchiveScanResult {
    type V = ScanView;

    open spec fn view(&self) -> ScanView {
        ScanView {
            dangerous: views(self.dangerous@),
            encrypted: self.encrypted,
            no_tool: self.no_tool,
        }
    }
}

/// Nothing found.
pub open spec fn nothing() -> ScanView {
    ScanView { dangerous: Seq::empty(), encrypted: false, no_tool: false }
}

impl Default for ArchiveScanResult {
    fn default() -> (r: Self)
        ensures
            r@ == nothing(),
    {
        let r = ArchiveScanResult { dangerous: Vec::new(), encrypted: false, no_tool: false };
        assert(r@ =~= nothing());
        r
    }
}

/// A file in an archive that is dangerous to open.
pub open spec fn dangerous_entry(name: Seq<char>) -> bool {
    basename(name).len() > 0 && dangerous_name(basename(name))
}

/// The dangerous ones among the files in an archive.
pub open spec fn dangerous_entries(names: Seq<Seq<char>>) -> Seq<Seq<char>>
    decreases names.len(),
{
    if names.len() == 0 {
        Seq::empty()
    } else if dangerous_entry(names.last()) {
        dangerous_entries(names.drop_last()).push(names.last())
    } else {
        dangerous_entries(names.drop_last())
    }
}

fn is_dangerous_entry(name: &str) -> (r: bool)
    ensures
        r == dangerous_entry(name@),
{
    let base = archive_basename(name);
    to_chars(base.as_str()).len() > 0 && is_dangerous_attach_ext(base.as_str())
}

// ---------------------------------------------------------------------------------------------
// Zip
// ---------------------------------------------------------------------------------------------

/// The entries that `zip` finds in an archive; `None` if it cannot read the archive, and `None` in
/// the place of an entry that it cannot read.
pub uninterp spec fn zip_entries(data: Seq<u8>) -> Option<Seq<Option<Seq<char>>>>;

/// What a list of optional names holds.
pub open spec fn entry_views(v: Seq<Option<String>>) -> Seq<Option<Seq<char>>> {
    Seq::new(v.len(), |i: int| maybe(v[i]))
}

/// `zip::ZipArchive::new` on the bytes of a file, and `by_index_raw` and `name` for each entry. The
/// result depends on the bytes alone; the contract gives it a name.
#[verifier::external_body]
fn list_zip(data: &[u8]) -> (r: Option<Vec<Option<String>>>)
    ensures
        match r {
            Some(v) => zip_entries(data@) == Some(entry_views(v@)),
            None => zip_entries(data@) is None,
        },
{
    let mut archive = zip::ZipArchive::new(std::io::Cursor::new(data)).ok()?;
    let count: usize = archive.len();
    let entry = |i: usize| archive.by_index_raw(i).ok().map(|e| e.name().to_string());
    Some((0..count).map(entry).collect())
}

/// The names of the entries that can be read.
pub open spec fn read_names(e: Seq<Option<Seq<char>>>) -> Seq<Seq<char>>
    decreases e.len(),
{
    if e.len() == 0 {
        Seq::empty()
    } else {
        match e.last() {
            Some(n) => read_names(e.drop_last()).push(n),
            None => read_names(e.drop_last()),
        }
    }
}

/// The findings in an archive with these entries: one that cannot be read is taken for encrypted.
pub open spec fn zip_findings(entries: Option<Seq<Option<Seq<char>>>>) -> ScanView {
    match entries {
        Some(e) => ScanView {
            dangerous: dangerous_entries(read_names(e)),
            encrypted: e.contains(None),
            no_tool: false,
        },
        None => ScanView { encrypted: true, ..nothing() },
    }
}

/// Judges an archive by its entries.
pub fn judge_zip(entries: Option<Vec<Option<String>>>) -> (r: ArchiveScanResult)
    ensures
        r@ == zip_findings(
            match entries {
                Some(e) => Some(entry_views(e@)),
                None => None,
            },
        ),
{
    let mut r = ArchiveScanResult::default();
    match entries {
        None => {
            r.encrypted = true;
            r
        },
        Some(e) => {
            let ghost all = entry_views(e@);
            let mut i: usize = 0;
            assert(all.take(0) =~= Seq::<Option<Seq<char>>>::empty());
            while i < e.len()
                invariant
                    i <= e@.len(),
                    all == entry_views(e@),
                    views(r.dangerous@) == dangerous_entries(read_names(all.take(i as int))),
                    r.encrypted == all.take(i as int).contains(None),
                    !r.no_tool,
                decreases e@.len() - i,
            {
                let ghost t = all.take(i + 1);
                let ghost front = all.take(i as int);
                proof {
                    assert(t.drop_last() =~= front);
                    assert(t.last() == maybe(e@[i as int]));
                    assert(t =~= front.push(maybe(e@[i as int])));
                    lemma_contains_push(front, maybe(e@[i as int]));
                }
                match &e[i] {
                    Some(name) => {
                        proof {
                            assert(read_names(t) == read_names(front).push(name@));
                            assert(read_names(t).drop_last() =~= read_names(front));
                        }
                        if is_dangerous_entry(name.as_str()) {
                            let copy = name.clone();
                            let ghost before = r.dangerous@;
                            r.dangerous.push(copy);
                            assert(views(r.dangerous@) =~= views(before).push(name@));
                        }
                    },
                    None => {
                        r.encrypted = true;
                    },
                }
                i += 1;
            }
            assert(all.take(i as int) =~= all);
            r
        },
    }
}

proof fn lemma_contains_push(s: Seq<Option<Seq<char>>>, x: Option<Seq<char>>)
    ensures
        s.push(x).contains(None) == (s.contains(None) || x is None),
{
    let t = s.push(x);
    if s.contains(None) {
        let i = choose|i: int| 0 <= i < s.len() && s[i] is None;
        assert(t[i] is None);
    }
    if x is None {
        assert(t[s.len() as int] is None);
    }
    if t.contains(None) {
        let i = choose|i: int| 0 <= i < t.len() && t[i] is None;
        if i < s.len() {
            assert(s[i] is None);
        }
    }
}

/// Looks into a zip archive, given the bytes of the file; `None` if there is no such file.
pub fn scan_zip(data: Option<&[u8]>) -> (r: ArchiveScanResult)
    ensures
        r@ == (match data {
            Some(d) => zip_findings(zip_entries(d@)),
            None => nothing(),
        }),
{
    match data {
        Some(d) => judge_zip(list_zip(d)),
        None => ArchiveScanResult::default(),
    }
}

// ---------------------------------------------------------------------------------------------
// 7z
// ---------------------------------------------------------------------------------------------

/// What could be read of an archive.
pub enum Listing {
    /// There is no such file.
    NoFile,
    /// The file cannot be read as an archive.
    Unreadable,
    /// The names of the files in it.
    Names(Vec<String>),
}

/// Looks at the files in a 7z archive.
pub fn scan_7z(listing: &Listing) -> (r: ArchiveScanResult)
    ensures
        r@ == (match *listing {
            Listing::NoFile => nothing(),
            Listing::Unreadable => ScanView { encrypted: true, ..nothing() },
            Listing::Names(v) => ScanView { dangerous: dangerous_entries(views(v@)), ..nothing() },
        }),
{
    let mut r = ArchiveScanResult::default();
    match listing {
        Listing::NoFile => {},
        Listing::Unreadable => {
            r.encrypted = true;
        },
        Listing::Names(v) => {
            let ghost all = views(v@);
            let mut i: usize = 0;
            while i < v.len()
                invariant
                    i <= v@.len(),
                    all == views(v@),
                    views(r.dangerous@) == dangerous_entries(all.take(i as int)),
                    !r.encrypted,
                    !r.no_tool,
                decreases v@.len() - i,
            {
                let name = &v[i];
                assert(all.take(i + 1).drop_last() =~= all.take(i as int));
                assert(all.take(i + 1).last() == name@);
                if is_dangerous_entry(name.as_str()) {
                    let copy = name.clone();
                    let ghost before = r.dangerous@;
                    r.dangerous.push(copy);
                    assert(views(r.dangerous@) =~= views(before).push(name@));
                }
                i += 1;
            }
            assert(all.take(i as int) =~= all);
            assert(r@ =~= (ScanView { dangerous: dangerous_entries(views(v@)), ..nothing() }));
        },
    }
    r
}

// ---------------------------------------------------------------------------------------------
// RAR
// ---------------------------------------------------------------------------------------------

/// The places where the program that lists RAR archives may be.
pub open spec fn unrar_places() -> Seq<Seq<char>> {
    seq![
        "C:\\Program Files\\WinRAR\\UnRAR.exe"@,
        "C:\\Program Files (x86)\\WinRAR\\UnRAR.exe"@,
    ]
}

/// `unrar_places`, computed.
pub fn unrar_candidates() -> (r: Vec<String>)
    ensures
        views(r@) == unrar_places(),
{
    let mut r: Vec<String> = Vec::new();
    r.push("C:\\Program Files\\WinRAR\\UnRAR.exe".to_owned());
    r.push("C:\\Program Files (x86)\\WinRAR\\UnRAR.exe".to_owned());
    assert(views(r@) =~= unrar_places());
    r
}

/// The first place where the program is, given whether it is at each of them.
pub open spec fn first_place(present: Seq<bool>) -> Option<Seq<char>> {
    if present.len() > 0 && present[0] {
        Some(unrar_places()[0])
    } else if present.len() > 1 && present[1] {
        Some(unrar_places()[1])
    } else {
        None
    }
}

/// `first_place`, computed.
pub fn find_unrar_exe(present: &Vec<bool>) -> (r: Option<String>)
    ensures
        maybe(r) == first_place(present@),
{
    let places = unrar_candidates();
    assert(views(places@).len() == places@.len());
    assert(views(places@)[0] == places@[0]@ && views(places@)[1] == places@[1]@);
    if present.len() > 0 && present[0] {
        Some(places[0].clone())
    } else if present.len() > 1 && present[1] {
        Some(places[1].clone())
    } else {
        None
    }
}

/// What the program has said of an archive.
pub enum RarReport {
    /// There is no such program, or it could not be started.
    NoTool,
    /// It could not list the archive.
    Failed,
    /// The names of the files in the archive, one on each line.
    Output(String),
}

/// The names in a report: its lines without white space around them, those that are empty left out.
pub open spec fn reported(l: Seq<Seq<char>>) -> Seq<Seq<char>>
    decreases l.len(),
{
    if l.len() == 0 {
        Seq::empty()
    } else if trim(l.last()).len() == 0 {
        reported(l.drop_last())
    } else {
        reported(l.drop_last()).push(trim(l.last()))
    }
}

/// The findings in a report.
pub open spec fn rar_findings(output: Seq<char>) -> ScanView {
    ScanView { dangerous: dangerous_entries(reported(lines(output))), ..nothing() }
}

/// Looks at what has been reported of a RAR archive.
pub fn scan_rar(report: &RarReport) -> (r: ArchiveScanResult)
    ensures
        r@ == (match *report {
            RarReport::NoTool => ScanView { no_tool: true, ..nothing() },
            RarReport::Failed => ScanView { encrypted: true, ..nothing() },
            RarReport::Output(s) => rar_findings(s@),
        }),
{
    let mut r = ArchiveScanResult::default();
    match report {
        RarReport::NoTool => {
            r.no_tool = true;
        },
        RarReport::Failed => {
            r.encrypted = true;
        },
        RarReport::Output(s) => {
            let text = to_chars(s.as_str());
            let ls = lines_of(&text);
            let ghost all = lines(s@);
            let mut i: usize = 0;
            while i < ls.len()
                invariant
                    i <= ls@.len(),
                    all == char_views(ls@),
                    views(r.dangerous@) == dangerous_entries(reported(all.take(i as int))),
                    !r.encrypted,
                    !r.no_tool,
                decreases ls@.len() - i,
            {
                let line: &Vec<char> = &ls[i];
                let t = trimmed(line);
                let ghost front = all.take(i as int);
                let ghost upto = all.take(i + 1);
                assert(upto.drop_last() =~= front);
                assert(upto.last() == line@);
                if t.len() > 0 {
                    let name = from_chars(t);
                    assert(reported(upto) == reported(front).push(name@));
                    assert(reported(upto).drop_last() =~= reported(front));
                    if is_dangerous_entry(name.as_str()) {
                        let ghost before = r.dangerous@;
                        r.dangerous.push(name);
                        assert(views(r.dangerous@) =~= views(before).push(name@));
                    }
                }
                i += 1;
            }
            assert(all.take(i as int) =~= all);
            assert(r@ =~= rar_findings(s@));
        },
    }
    r
}

// ---------------------------------------------------------------------------------------------
// Kinds of archives
// ---------------------------------------------------------------------------------------------

/// A kind of archive that can be looked into.
#[derive(Clone, Copy, PartialEq, Eq, Structural)]
pub enum ArchiveKind {
    Zip,
    SevenZ,
    Rar,
}

/// The kind of archive that has an extension, in whatever case.
pub open spec fn kind_of(ext: Seq<char>) -> Option<ArchiveKind> {
    if fold(ext) == "zip"@ {
        Some(ArchiveKind::Zip)
    } else if fold(ext) == "7z"@ {
        Some(ArchiveKind::SevenZ)
    } else if fold(ext) == "rar"@ {
        Some(ArchiveKind::Rar)
    } else {
        None
    }
}

fn kind(ext: &[char]) -> (r: Option<ArchiveKind>)
    ensures
        r == kind_of(ext@),
{
    let e = folded(ext);
    if is_word(&e, "zip") {
        Some(ArchiveKind::Zip)
    } else if is_word(&e, "7z") {
        Some(ArchiveKind::SevenZ)
    } else if is_word(&e, "rar") {
        Some(ArchiveKind::Rar)
    } else {
        None
    }
}

/// How an archive with this extension is looked into; `None` if it is not.
pub fn scan_archive(ext: &str) -> (r: Option<ArchiveKind>)
    ensures
        r == kind_of(ext@),
{
    let e = to_chars(ext);
    kind(&e)
}

/// How a file with this name is looked into; `None` if it is not.
pub fn archive_kind(filename: &str) -> (r: Option<ArchiveKind>)
    ensures
        r == kind_of(extension(filename@)),
{
    let v = to_chars(filename);
    kind(extension_of(&v))
}

} // verus!
