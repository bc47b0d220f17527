//! Decisions of the desktop side's commands: start-up and how the folder of
//! received files is revealed on each platform.

use vstd::prelude::*;
use vstd::string::StrSliceExecFns;

verus! {

/// Start-up of the desktop side; there is nothing to prepare, so it always
/// succeeds.
pub fn init() -> (r: Result<(), String>)
    ensures
        r is Ok,
{
    Ok(())
}

/// The platform the desktop side runs on.
#[derive(Debug, Clone, Copy, PartialEq, Eq, Structural)]
pub enum TargetOs {
    Windows,
    Linux,
    MacOs,
    Other,
}

/// How the folder of received files is revealed.
#[derive(Debug, Clone, Copy, PartialEq, Eq, Structural)]
pub enum RevealCommand {
    /// `explorer /select,<path>`.
    ExplorerSelect,
    /// `xdg-open <path>`.
    XdgOpenPath,
    /// `xdg-open <parent of path>`.
    XdgOpenParent,
    /// The file manager's `ShowItems` call over D-Bus with `file://<path>`.
    DbusShowItems,
    /// `open -R <path>`.
    OpenReveal,
    /// Nothing to run on this platform.
    Nothing,
}

/// Whether a path holds a comma (which the D-Bus file manager call cannot
/// take).
pub fn path_has_comma(path: &str) -> (r: bool)
    ensures
        r == path@.contains(','),
{
    let n: usize = path.unicode_len();
    let mut i: usize = 0;
    while i < n
        invariant
            i <= n,
            n == path@.len(),
            forall|k: int| 0 <= k < i ==> path@[k] != ',',
        decreases n - i,
    {
        if path.get_char(i) == ',' {
            assert(path@[i as int] == ',');
            return true;
        }
        i = i + 1;
    }
    false
}

/// Chooses the command that reveals the folder: on Linux a path with a
/// comma is opened with `xdg-open` (the path itself when it is a folder,
/// else its parent) and any other path goes through D-Bus; Windows and macOS
/// each have one command; other platforms run nothing.
pub fn reveal_command(os: TargetOs, has_comma: bool, path_is_dir: bool) -> (r: RevealCommand)
    ensures
        r == match os {
            TargetOs::Windows => RevealCommand::ExplorerSelect,
            TargetOs::MacOs => RevealCommand::OpenReveal,
            TargetOs::Linux => if !has_comma {
                RevealCommand::DbusShowItems
            } else if path_is_dir {
                RevealCommand::XdgOpenPath
            } else {
                RevealCommand::XdgOpenParent
            },
            TargetOs::Other => RevealCommand::Nothing,
        },
{
    match os {
        TargetOs::Windows => RevealCommand::ExplorerSelect,
        TargetOs::MacOs => RevealCommand::OpenReveal,
        TargetOs::Linux => {
            if !has_comma {
                RevealCommand::DbusShowItems
            } else if path_is_dir {
                RevealCommand::XdgOpenPath
            } else {
                RevealCommand::XdgOpenParent
            }
        },
        TargetOs::Other => RevealCommand::Nothing,
    }
}

} // verus!
