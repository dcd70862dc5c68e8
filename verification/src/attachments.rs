//! Saving attachments where the user wants them, and showing them.
use vstd::prelude::*;

use crate::archive::{
    archive_kind, kind_of, nothing, ArchiveKind, ArchiveScanResult, ScanView,
};
use crate::encoding::{base64, encode};
use crate::filenames::{
    dangerous_name, extension, is_dangerous_attach_ext, is_word, law_neutralized_is_safe,
    neutralize_filename, neutralized,
};
use crate::statements::{maybe, sql, Statement, StatementView};
use crate::text::{fold, folded, join3, to_chars, views};

verus! {

// ---------------------------------------------------------------------------------------------
// Where attachments go
// ---------------------------------------------------------------------------------------------

/// The name of a month.
pub open spec fn month(m: int) -> Seq<char> {
    if m == 1 {
        "январь"@
    } else if m == 2 {
        "февраль"@
    } else if m == 3 {
        "март"@
    } else if m == 4 {
        "апрель"@
    } else if m == 5 {
        "май"@
    } else if m == 6 {
        "июнь"@
    } else if m == 7 {
        "июль"@
    } else if m == 8 {
        "август"@
    } else if m == 9 {
        "сентябрь"@
    } else if m == 10 {
        "октябрь"@
    } else if m == 11 {
        "ноябрь"@
    } else {
        "декабрь"@
    }
}

/// `month`, computed.
pub fn month_name(m: u32) -> (r: String)
    ensures
        r@ == month(m as int),
{
    match m {
        1 => "январь".to_owned(),
        2 => "февраль".to_owned(),
        3 => "март".to_owned(),
        4 => "апрель".to_owned(),
        5 => "май".to_owned(),
        6 => "июнь".to_owned(),
        7 => "июль".to_owned(),
        8 => "август".to_owned(),
        9 => "сентябрь".to_owned(),
        10 => "октябрь".to_owned(),
        11 => "ноябрь".to_owned(),
        _ => "декабрь".to_owned(),
    }
}

/// A time, as it stands in the names of folders.
pub struct FolderTime {
    pub year: String,
    pub month: u32,
    pub day: String,
    /// Hours and minutes.
    pub time: String,
}

/// The folders, each in the one before, that lead to the attachments of a time.
pub open spec fn time_folders(t: FolderTime) -> Seq<Seq<char>> {
    seq![t.year@, month(t.month as int), t.day@, t.time@]
}

/// The folders that lead to an attachment, below the folder for all of them.
pub open spec fn folders_to(subfolder: Option<Seq<char>>, t: FolderTime) -> Seq<Seq<char>> {
    match subfolder {
        Some(s) => if s.len() > 0 {
            seq![s] + time_folders(t)
        } else {
            time_folders(t)
        },
        None => time_folders(t),
    }
}

/// `folders_to`, computed.
pub fn build_attach_dest_dir(subfolder: &Option<String>, t: &FolderTime) -> (r: Vec<String>)
    ensures
        views(r@) == folders_to(maybe(*subfolder), *t),
{
    let mut r: Vec<String> = Vec::new();
    if let Some(s) = subfolder {
        if to_chars(s.as_str()).len() > 0 {
            r.push(s.clone());
        }
    }
    r.push(t.year.clone());
    r.push(month_name(t.month));
    r.push(t.day.clone());
    r.push(t.time.clone());
    assert(views(r@) =~= folders_to(maybe(*subfolder), *t));
    r
}

/// The folder for all attachments, if the user has chosen one.
pub fn chosen_base(save_base: &Option<String>) -> (r: Option<String>)
    ensures
        maybe(r) == (match maybe(*save_base) {
            Some(s) => if s.len() > 0 {
                Some(s)
            } else {
                None
            },
            None => None,
        }),
{
    match save_base {
        Some(s) => if to_chars(s.as_str()).len() > 0 {
            Some(s.clone())
        } else {
            None
        },
        None => None,
    }
}

/// The name of the folder for all attachments, on the desktop, if the user has chosen none.
pub fn default_folder() -> (r: String)
    ensures
        r@ == "Почта"@,
{
    "Почта".to_owned()
}

// ---------------------------------------------------------------------------------------------
// Saving the attachments of new messages
// ---------------------------------------------------------------------------------------------

/// How the archive is looked into, if the name under which an attachment is saved depends on that.
pub open spec fn scan_needed(filename: Seq<char>, neutralize: bool) -> Option<ArchiveKind> {
    if neutralize && !dangerous_name(filename) {
        kind_of(extension(filename))
    } else {
        None
    }
}

/// `scan_needed`, computed.
fn needs_scan(filename: &str, neutralize: bool) -> (r: Option<ArchiveKind>)
    ensures
        r == scan_needed(filename@, neutralize),
{
    if neutralize && !is_dangerous_attach_ext(filename) {
        archive_kind(filename)
    } else {
        None
    }
}

/// An archive that is not to be opened: it holds dangerous files, or nobody knows what it holds.
pub open spec fn suspicious(scan: ScanView) -> bool {
    scan.dangerous.len() > 0 || scan.encrypted
}

/// The name under which an attachment is saved.
pub open spec fn saved_name(filename: Seq<char>, neutralize: bool, scan: ScanView) -> Seq<char> {
    if neutralize && (dangerous_name(filename) || (kind_of(extension(filename)) is Some
        && suspicious(scan))) {
        neutralized(filename)
    } else {
        filename
    }
}

/// Chooses the name under which an attachment is saved. `scan` holds the findings in an archive.
fn auto_save_name(filename: &str, neutralize: bool, scan: &ArchiveScanResult) -> (r: String)
    ensures
        r@ == saved_name(filename@, neutralize, scan@),
{
    assert(scan@.dangerous.len() == scan.dangerous@.len());
    if neutralize && (is_dangerous_attach_ext(filename) || (archive_kind(filename).is_some() && (
    scan.dangerous.len() > 0 || scan.encrypted))) {
        neutralize_filename(filename)
    } else {
        filename.to_owned()
    }
}

/// Dangerous attachments get another name unless the user has said otherwise.
pub open spec fn neutralizes(choice: Option<bool>) -> bool {
    match choice {
        Some(b) => b,
        None => true,
    }
}

/// Without a choice of the user dangerous attachments get another name, and with one as chosen.
pub proof fn law_protected_unless_refused(b: bool, filename: Seq<char>)
    ensures
        neutralizes(None),
        neutralizes(Some(b)) == b,
        dangerous_name(filename) ==> saved_name(filename, neutralizes(None), nothing()) == neutralized(
            filename,
        ),
        saved_name(filename, neutralizes(Some(false)), nothing()) == filename,
{
}

/// `neutralizes`, computed.
pub fn auto_save_neutralizes(choice: Option<bool>) -> (r: bool)
    ensures
        r == neutralizes(choice),
        choice matches Some(b) ==> r == b,
        choice is None ==> r,
{
    match choice {
        Some(b) => b,
        None => true,
    }
}

/// An attachment that the user does not have yet.
pub struct Unsaved {
    pub id: i64,
    pub file_path: String,
    pub filename: String,
}

/// What to do next with an attachment.
pub enum SaveStep {
    /// Nothing: its file is gone.
    Skip,
    /// Look into it as an archive of this kind.
    Scan(ArchiveKind),
    /// Copy it under this name.
    Copy(String),
}

/// Begins to save an attachment, given whether its file is there.
pub fn auto_save_attachments(att: &Unsaved, neutralize: bool, source_exists: bool) -> (r: SaveStep)
    ensures
        if !source_exists {
            r is Skip
        } else {
            match scan_needed(att.filename@, neutralize) {
                Some(k) => r == SaveStep::Scan(k),
                None => r matches SaveStep::Copy(name) && name@ == saved_name(
                    att.filename@,
                    neutralize,
                    nothing(),
                ),
            }
        },
{
    if !source_exists {
        return SaveStep::Skip;
    }
    match needs_scan(att.filename.as_str(), neutralize) {
        Some(k) => SaveStep::Scan(k),
        None => SaveStep::Copy(
            auto_save_name(att.filename.as_str(), neutralize, &ArchiveScanResult::default()),
        ),
    }
}

/// Goes on after the archive has been looked into.
pub fn auto_save_scanned(att: &Unsaved, neutralize: bool, scan: &ArchiveScanResult) -> (r: SaveStep)
    ensures
        r matches SaveStep::Copy(name) && name@ == saved_name(att.filename@, neutralize, scan@),
{
    SaveStep::Copy(auto_save_name(att.filename.as_str(), neutralize, scan))
}

/// Ends saving an attachment: if it has been copied to this path, the path is noted, and the file
/// that was copied is no longer needed.
pub fn auto_save_copied(att: &Unsaved, path: &Option<String>) -> (r: Option<Statement>)
    ensures
        match maybe(*path) {
            Some(p) => r matches Some(s) && s@ == noting_saved(att.id as int, p),
            None => r is None,
        },
{
    match path {
        Some(p) => Some(note_saved(att.id, p.as_str())),
        None => None,
    }
}

/// With the protection on, no attachment is saved under a dangerous name, and an archive keeps its
/// name only if it has been looked into and nothing was found.
pub proof fn law_saved_name_is_safe(filename: Seq<char>, scan: ScanView)
    ensures
        !dangerous_name(saved_name(filename, true, scan)),
        kind_of(extension(filename)) is Some && suspicious(scan) ==> saved_name(
            filename,
            true,
            scan,
        ) == neutralized(filename),
{
    law_neutralized_is_safe(filename);
}

/// With the protection off, every attachment keeps its name.
pub proof fn law_unprotected_name_is_kept(filename: Seq<char>, scan: ScanView)
    ensures
        saved_name(filename, false, scan) == filename,
{
}

/// The statement that reads the time of a message.
pub open spec fn reading_time(email_id: int) -> StatementView {
    sql("SELECT date_ts FROM emails WHERE id=?1"@).number(email_id)
}

/// Reads the time of a message.
pub fn email_time(email_id: i64) -> (r: Statement)
    ensures
        r@ == reading_time(email_id as int),
{
    Statement::new("SELECT date_ts FROM emails WHERE id=?1").number(email_id)
}

/// The statement that finds the attachments of a message that the user does not have yet.
pub open spec fn finding_unsaved(email_id: int) -> StatementView {
    sql(
        "SELECT id, file_path, filename FROM attachments WHERE email_id=?1 AND saved_path IS NULL"@,
    ).number(email_id)
}

/// Finds the attachments of a message that the user does not have yet.
pub fn unsaved_attachments(email_id: i64) -> (r: Statement)
    ensures
        r@ == finding_unsaved(email_id as int),
{
    Statement::new(
        "SELECT id, file_path, filename FROM attachments WHERE email_id=?1 AND saved_path IS NULL",
    ).number(email_id)
}

/// The statement that notes where the user has an attachment.
pub open spec fn noting_saved(id: int, path: Seq<char>) -> StatementView {
    sql("UPDATE attachments SET saved_path=?1, file_path=?1 WHERE id=?2"@).text(path).number(id)
}

/// Notes where the user has an attachment.
fn note_saved(id: i64, path: &str) -> (r: Statement)
    ensures
        r@ == noting_saved(id as int, path@),
{
    Statement::new("UPDATE attachments SET saved_path=?1, file_path=?1 WHERE id=?2").text(
        path,
    ).number(id)
}

// ---------------------------------------------------------------------------------------------
// Opening an attachment
// ---------------------------------------------------------------------------------------------

/// The statement that finds out whether the user has an attachment already.
pub open spec fn finding_saved(file_path: Seq<char>) -> StatementView {
    sql("SELECT saved_path FROM attachments WHERE file_path=?1"@).text(file_path)
}

/// Finds out whether the user has an attachment already.
pub fn saved_path_query(file_path: &str) -> (r: Statement)
    ensures
        r@ == finding_saved(file_path@),
{
    Statement::new("SELECT saved_path FROM attachments WHERE file_path=?1").text(file_path)
}

/// What is done to open an attachment.
pub enum OpenPlan {
    /// The user has it here.
    Show(String),
    /// The user had it, but it is gone: it is copied once more.
    CopyAgain,
    /// The user does not have it: it is moved to where the user keeps attachments.
    Hand,
}

/// Decides what is done to open an attachment.
pub fn open_attachment(source_exists: bool, saved: Option<String>, saved_exists: bool) -> (r: Result<
    OpenPlan,
    String,
>)
    ensures
        if !source_exists {
            r matches Err(e) && e@ == "Файл не найден"@
        } else {
            match saved {
                Some(p) => if saved_exists {
                    r matches Ok(OpenPlan::Show(q)) && q@ == p@
                } else {
                    r matches Ok(OpenPlan::CopyAgain)
                },
                None => r matches Ok(OpenPlan::Hand),
            }
        },
{
    if !source_exists {
        return Err("Файл не найден".to_owned());
    }
    match saved {
        Some(p) => if saved_exists {
            Ok(OpenPlan::Show(p))
        } else {
            Ok(OpenPlan::CopyAgain)
        },
        None => Ok(OpenPlan::Hand),
    }
}

/// The statement that notes where an attachment has been saved. Only one that was handed over has its
/// own copy removed, so only then its path changes.
pub open spec fn noting_opened(handed: bool, saved: Seq<char>, file_path: Seq<char>) -> StatementView {
    if handed {
        sql("UPDATE attachments SET saved_path=?1, file_path=?1 WHERE file_path=?2"@).text(
            saved,
        ).text(file_path)
    } else {
        sql("UPDATE attachments SET saved_path=?1 WHERE file_path=?2"@).text(saved).text(file_path)
    }
}

/// Notes where an attachment has been saved; `handed` if its own copy has been removed.
pub fn note_opened(handed: bool, saved: &str, file_path: &str) -> (r: Statement)
    ensures
        r@ == noting_opened(handed, saved@, file_path@),
{
    if handed {
        Statement::new(
            "UPDATE attachments SET saved_path=?1, file_path=?1 WHERE file_path=?2",
        ).text(saved).text(file_path)
    } else {
        Statement::new("UPDATE attachments SET saved_path=?1 WHERE file_path=?2").text(saved).text(
            file_path,
        )
    }
}

/// How far the work on an attachment that is opened has come.
#[derive(Clone, Copy, PartialEq, Eq, Structural)]
pub enum OpenStage {
    /// The folder that it goes to is to be made.
    MakeFolder,
    /// It is to be copied there.
    Copy,
    /// Its own copy, which is not needed any more, is to be removed.
    Remove,
    /// It is to be noted where it has been saved.
    Note,
    /// It is to be shown.
    Show,
    /// It could not be saved.
    Failed,
}

/// The stage after a stage has succeeded or not. For an attachment that is copied once more the
/// folder may fail to be made, and its own copy stays.
pub open spec fn open_stage_after(handed: bool, stage: OpenStage, ok: bool) -> OpenStage {
    match stage {
        OpenStage::MakeFolder => if ok || !handed {
            OpenStage::Copy
        } else {
            OpenStage::Failed
        },
        OpenStage::Copy => if !ok {
            OpenStage::Failed
        } else if handed {
            OpenStage::Remove
        } else {
            OpenStage::Note
        },
        OpenStage::Remove => OpenStage::Note,
        OpenStage::Note => OpenStage::Show,
        OpenStage::Show => OpenStage::Show,
        OpenStage::Failed => OpenStage::Failed,
    }
}

/// Goes on with an attachment that is opened; `handed` if it is handed over to the user.
pub fn open_next(handed: bool, stage: OpenStage, ok: bool) -> (r: OpenStage)
    ensures
        r == open_stage_after(handed, stage, ok),
{
    match stage {
        OpenStage::MakeFolder => if ok || !handed {
            OpenStage::Copy
        } else {
            OpenStage::Failed
        },
        OpenStage::Copy => if !ok {
            OpenStage::Failed
        } else if handed {
            OpenStage::Remove
        } else {
            OpenStage::Note
        },
        OpenStage::Remove => OpenStage::Note,
        OpenStage::Note => OpenStage::Show,
        OpenStage::Show => OpenStage::Show,
        OpenStage::Failed => OpenStage::Failed,
    }
}

/// The own copy of an attachment is removed only after it has been copied to the user, and only when
/// it is handed over for the first time.
pub proof fn law_copied_before_removed(handed: bool, stage: OpenStage, ok: bool)
    ensures
        open_stage_after(handed, stage, ok) == OpenStage::Remove ==> handed && stage
            == OpenStage::Copy && ok,
{
}

/// The argument with which a file manager shows a file in its folder.
pub fn select_argument(path: &str) -> (r: String)
    ensures
        r@ == "/select,\""@ + path@ + "\""@,
{
    join3("/select,\"", path, "\"")
}

// ---------------------------------------------------------------------------------------------
// Showing an attachment
// ---------------------------------------------------------------------------------------------

/// The type of a file with this extension, in whatever case.
pub open spec fn mime_of(ext: Seq<char>) -> Seq<char> {
    let e = fold(ext);
    if e == "pdf"@ {
        "application/pdf"@
    } else if e == "jpg"@ || e == "jpeg"@ {
        "image/jpeg"@
    } else if e == "png"@ {
        "image/png"@
    } else if e == "gif"@ {
        "image/gif"@
    } else if e == "doc"@ {
        "application/msword"@
    } else if e == "docx"@ {
        "application/vnd.openxmlformats-officedocument.wordprocessingml.document"@
    } else if e == "xls"@ {
        "application/vnd.ms-excel"@
    } else if e == "xlsx"@ {
        "application/vnd.openxmlformats-officedocument.spreadsheetml.sheet"@
    } else if e == "zip"@ {
        "application/zip"@
    } else if e == "txt"@ {
        "text/plain"@
    } else {
        "application/octet-stream"@
    }
}

/// `mime_of`, computed.
pub fn mime_by_extension(ext: &str) -> (r: String)
    ensures
        r@ == mime_of(ext@),
{
    let v = to_chars(ext);
    let e = folded(&v);
    if is_word(&e, "pdf") {
        "application/pdf".to_owned()
    } else if is_word(&e, "jpg") || is_word(&e, "jpeg") {
        "image/jpeg".to_owned()
    } else if is_word(&e, "png") {
        "image/png".to_owned()
    } else if is_word(&e, "gif") {
        "image/gif".to_owned()
    } else if is_word(&e, "doc") {
        "application/msword".to_owned()
    } else if is_word(&e, "docx") {
        "application/vnd.openxmlformats-officedocument.wordprocessingml.document".to_owned()
    } else if is_word(&e, "xls") {
        "application/vnd.ms-excel".to_owned()
    } else if is_word(&e, "xlsx") {
        "application/vnd.openxmlformats-officedocument.spreadsheetml.sheet".to_owned()
    } else if is_word(&e, "zip") {
        "application/zip".to_owned()
    } else if is_word(&e, "txt") {
        "text/plain".to_owned()
    } else {
        "application/octet-stream".to_owned()
    }
}

/// A file as text, with its type.
pub struct EncodedFile {
    pub b64: String,
    pub mime_type: String,
}

/// Makes text of a file, given its extension.
pub fn read_attachment_b64(data: &[u8], ext: &str) -> (r: EncodedFile)
    requires
        (data@.len() + 2) / 3 * 4 <= isize::MAX,
    ensures
        r.b64@ == base64(data@),
        r.mime_type@ == mime_of(ext@),
{
    EncodedFile { b64: encode(data), mime_type: mime_by_extension(ext) }
}

// ---------------------------------------------------------------------------------------------
// The attachments of a message
// ---------------------------------------------------------------------------------------------

/// An attachment that is kept.
pub struct AttachmentItem {
    pub id: i64,
    pub email_id: i64,
    pub filename: String,
    pub mime_type: String,
    pub file_path: String,
    pub file_size: i64,
}

/// The statement that reads the attachments of a message.
pub open spec fn reading_attachments(email_id: int) -> StatementView {
    sql(
        "SELECT id, email_id, filename, mime_type, file_path, file_size
         FROM attachments WHERE email_id=?1 ORDER BY id ASC"@,
    ).number(email_id)
}

/// Reads the attachments of a message.
pub fn get_attachments(email_id: i64) -> (r: Statement)
    ensures
        r@ == reading_attachments(email_id as int),
{
    Statement::new(
        "SELECT id, email_id, filename, mime_type, file_path, file_size
         FROM attachments WHERE email_id=?1 ORDER BY id ASC",
    ).number(email_id)
}

} // verus!
