//! File-manager application state: the modal editing mode, the directory
//! entries that a pane lists, and the application record itself.
use vstd::prelude::*;
use vstd::string::StringExecFns;

use crate::error::VeniError;
use crate::terminal::TerminalCaps;

verus! {

/// `std::time::SystemTime`, carried through unchanged as an entry's
/// modification time.
#[verifier::external_type_specification]
#[verifier::external_body]
pub struct ExSystemTime(std::time::SystemTime);

/// One entry of a directory listing.
#[derive(Debug, Clone)]
pub struct DirEntry {
    /// The file name, without its directory.
    pub name: String,
    /// The full path of the entry.
    pub path: String,
    /// Whether the entry is a directory.
    pub is_dir: bool,
    /// Size in bytes (0 when unknown).
    pub size: u64,
    /// Last modification time, when the file system reports one.
    pub modified: Option<std::time::SystemTime>,
}

/// Input mode for the modal editing model.
#[derive(Debug, Clone, Copy, PartialEq, Eq, Structural)]
pub enum Mode {
    /// Navigation and file operations.
    Normal,
    /// Text input (rename, search, command palette).
    Insert,
    /// Multi-file selection.
    Visual,
    /// Ex-style command input.
    Command,
}

/// The label that the status bar shows for each mode.
pub open spec fn mode_label(m: Mode) -> Seq<char> {
    match m {
        Mode::Normal => "NORMAL"@,
        Mode::Insert => "INSERT"@,
        Mode::Visual => "VISUAL"@,
        Mode::Command => "COMMAND"@,
    }
}

impl Default for Mode {
    fn default() -> (m: Self)
        ensures
            m == Mode::Normal,
    {
        Mode::Normal
    }
}

impl Mode {
    /// The status-bar label of the mode (`NORMAL`, `INSERT`, `VISUAL`,
    /// `COMMAND`).
    pub fn to_string(&self) -> (s: String)
        ensures
            s@ == mode_label(*self),
    {
        String::from_str(self.label())
    }

    /// The status-bar label of the mode, as a string slice.
    pub fn label(&self) -> (s: &'static str)
        ensures
            s@ == mode_label(*self),
    {
        match self {
            Mode::Normal => "NORMAL",
            Mode::Insert => "INSERT",
            Mode::Visual => "VISUAL",
            Mode::Command => "COMMAND",
        }
    }
}

/// Core application state.
#[derive(Debug)]
pub struct App {
    pub mode: Mode,
    pub cwd: String,
    pub caps: TerminalCaps,
    pub should_quit: bool,
}

impl App {
    /// A new application opened on `path`, in normal mode and not quitting.
    pub fn new(path: String, caps: TerminalCaps) -> (app: Self)
        ensures
            app.mode == Mode::Normal,
            app.cwd == path,
            app.caps == caps,
            !app.should_quit,
    {
        App { mode: Mode::Normal, cwd: path, caps, should_quit: false }
    }
}


/// The start-up check of the file manager, given the canonical form of the
/// requested path and whether it is a directory: it must be one.
pub fn run(path: String, is_dir: bool) -> (r: Result<(), VeniError>)
    ensures
        is_dir ==> r is Ok,
        !is_dir ==> r == Err::<(), VeniError>(VeniError::NotADirectory(path)),
{
    if !is_dir {
        return Err(VeniError::NotADirectory(path));
    }
    Ok(())
}

} // verus!
