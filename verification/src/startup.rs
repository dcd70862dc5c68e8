//! Starting with the system, and the menu of the tray.
use vstd::prelude::*;

use crate::text::{join3, same_str, views};

verus! {

/// The key under which the system finds what to start.
pub open spec fn run_key() -> Seq<char> {
    "HKCU\\Software\\Microsoft\\Windows\\CurrentVersion\\Run"@
}

fn run_key_text() -> (r: String)
    ensures
        r@ == run_key(),
{
    "HKCU\\Software\\Microsoft\\Windows\\CurrentVersion\\Run".to_owned()
}

/// The name under which the program is started.
pub open spec fn run_name() -> Seq<char> {
    "ДокВис Почта"@
}

fn run_name_text() -> (r: String)
    ensures
        r@ == run_name(),
{
    "ДокВис Почта".to_owned()
}

/// The command that starts the program without its window.
pub open spec fn run_command(exe: Seq<char>) -> Seq<char> {
    "\""@ + exe + "\" --minimized"@
}

/// What is asked of the registry to find out whether the program is started with the system.
pub fn get_autostart() -> (r: Vec<String>)
    ensures
        views(r@) == seq!["query"@, run_key(), "/v"@, run_name()],
{
    let mut r: Vec<String> = Vec::new();
    r.push("query".to_owned());
    r.push(run_key_text());
    r.push("/v".to_owned());
    r.push(run_name_text());
    assert(views(r@) =~= seq!["query"@, run_key(), "/v"@, run_name()]);
    r
}

/// What is asked of the registry so that the program is started with the system, or no longer. `exe`
/// is the path of the program if it is to be started.
pub fn set_autostart(exe: &Option<String>) -> (r: Vec<String>)
    ensures
        match *exe {
            Some(e) => views(r@) == seq![
                "add"@,
                run_key(),
                "/v"@,
                run_name(),
                "/t"@,
                "REG_SZ"@,
                "/d"@,
                run_command(e@),
                "/f"@,
            ],
            None => views(r@) == seq!["delete"@, run_key(), "/v"@, run_name(), "/f"@],
        },
{
    let mut r: Vec<String> = Vec::new();
    match exe {
        Some(e) => {
            r.push("add".to_owned());
            r.push(run_key_text());
            r.push("/v".to_owned());
            r.push(run_name_text());
            r.push("/t".to_owned());
            r.push("REG_SZ".to_owned());
            r.push("/d".to_owned());
            r.push(join3("\"", e.as_str(), "\" --minimized"));
            r.push("/f".to_owned());
            assert(views(r@) =~= seq![
                "add"@,
                run_key(),
                "/v"@,
                run_name(),
                "/t"@,
                "REG_SZ"@,
                "/d"@,
                run_command(e@),
                "/f"@,
            ]);
        },
        None => {
            r.push("delete".to_owned());
            r.push(run_key_text());
            r.push("/v".to_owned());
            r.push(run_name_text());
            r.push("/f".to_owned());
            assert(views(r@) =~= seq!["delete"@, run_key(), "/v"@, run_name(), "/f"@]);
        },
    }
    r
}

/// What comes of asking the registry to start the program with the system, or no longer: only the
/// first can fail.
pub fn autostart_result(enable: bool, success: bool) -> (r: Result<(), String>)
    ensures
        if enable && !success {
            r matches Err(e) && e@ == "reg add failed"@
        } else {
            r is Ok
        },
{
    if enable && !success {
        Err("reg add failed".to_owned())
    } else {
        Ok(())
    }
}

/// Whether the program is to start without its window, given its arguments.
pub fn starts_minimized(args: &Vec<String>) -> (r: bool)
    ensures
        r == views(args@).contains("--minimized"@),
{
    let mut i: usize = 0;
    while i < args.len()
        invariant
            i <= args@.len(),
            forall|j: int| 0 <= j < i ==> (#[trigger] views(args@)[j]) != "--minimized"@,
        decreases args@.len() - i,
    {
        assert(views(args@)[i as int] == args@[i as int]@);
        if same_str(args[i].as_str(), "--minimized") {
            return true;
        }
        i += 1;
    }
    false
}

/// What an item of the menu of the tray does.
#[derive(Clone, Copy, PartialEq, Eq, Structural)]
pub enum TrayAction {
    /// Shows the window.
    Show,
    /// Shows the window and looks for new messages.
    ShowAndCheck,
    /// Ends the program.
    Quit,
    /// Nothing.
    Nothing,
}

/// What the item with this id does.
pub open spec fn tray_item(id: Seq<char>) -> TrayAction {
    if id == "open"@ {
        TrayAction::Show
    } else if id == "check_mail"@ {
        TrayAction::ShowAndCheck
    } else if id == "quit"@ {
        TrayAction::Quit
    } else {
        TrayAction::Nothing
    }
}

/// `tray_item`, computed.
pub fn tray_action(id: &str) -> (r: TrayAction)
    ensures
        r == tray_item(id@),
{
    if same_str(id, "open") {
        TrayAction::Show
    } else if same_str(id, "check_mail") {
        TrayAction::ShowAndCheck
    } else if same_str(id, "quit") {
        TrayAction::Quit
    } else {
        TrayAction::Nothing
    }
}

} // verus!
