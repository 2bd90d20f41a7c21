//! Launching at login, the XDG way: a desktop entry in the autostart
//! directory of the user's configuration directory. The caller looks up the
//! configuration directory and touches the file system; what the paths and
//! the entry are is decided here.

use crate::layout::{join, join_path};
use vstd::prelude::*;
use vstd::string::*;

verus! {

/// What is reported when the configuration directory is not known.
pub open spec fn no_config_dir_message() -> Seq<char> {
    "Could not find config directory"@
}

/// The autostart directory under a configuration directory.
pub open spec fn autostart_dir(config_dir: Seq<char>) -> Seq<char> {
    join_path(config_dir, "autostart"@)
}

/// The desktop entry of the application under a configuration directory.
pub open spec fn desktop_file_path(config_dir: Seq<char>) -> Seq<char> {
    join_path(autostart_dir(config_dir), "bunchatools.desktop"@)
}

/// The content of the desktop entry that launches `exe_path`.
pub open spec fn desktop_entry(exe_path: Seq<char>) -> Seq<char> {
    "[Desktop Entry]\nType=Application\nName=BunchaTools\nComment=A lightweight launcher for creative developers\nExec="@
        + exe_path + "\nTerminal=false\nStartupNotify=false\nCategories=Utility;\n"@
}

/// What has to be done to the desktop entry.
#[derive(Debug, Clone, PartialEq, Eq)]
pub enum StartupChange {
    /// Write the entry with this content.
    Write(String),
    /// Remove the entry.
    Remove,
    /// Leave things as they are.
    Nothing,
}

/// The autostart directory, which the caller creates if it is missing.
pub fn get_autostart_dir(config_dir: Option<&str>) -> (r: Result<String, String>)
    ensures
        match config_dir {
            Some(dir) => r is Ok && r->Ok_0@ == autostart_dir(dir@),
            None => r is Err && r->Err_0@ == no_config_dir_message(),
        },
{
    match config_dir {
        Some(dir) => Ok(join(dir, "autostart")),
        None => Err(String::from_str("Could not find config directory")),
    }
}

/// The path of the desktop entry.
pub fn get_desktop_file_path(config_dir: Option<&str>) -> (r: Result<String, String>)
    ensures
        match config_dir {
            Some(dir) => r is Ok && r->Ok_0@ == desktop_file_path(dir@),
            None => r is Err && r->Err_0@ == no_config_dir_message(),
        },
{
    match get_autostart_dir(config_dir) {
        Ok(dir) => Ok(join(dir.as_str(), "bunchatools.desktop")),
        Err(message) => Err(message),
    }
}

/// Whether the application launches at login: it does when the desktop
/// entry is present. `entry_present` says whether a file stands at
/// [`get_desktop_file_path`]; it is not looked at when the configuration
/// directory is not known.
pub fn get_launch_at_startup_impl(config_dir: Option<&str>, entry_present: bool) -> (r: Result<
    bool,
    String,
>)
    ensures
        match config_dir {
            Some(dir) => r == Ok::<bool, String>(entry_present),
            None => r is Err && r->Err_0@ == no_config_dir_message(),
        },
{
    match get_desktop_file_path(config_dir) {
        Ok(_) => Ok(entry_present),
        Err(message) => Err(message),
    }
}

/// What to do to the desktop entry so that the application launches at
/// login, or no longer does: write it when enabling; when disabling, remove
/// it if it is present.
pub fn set_launch_at_startup_impl(enable: bool, entry_present: bool, exe_path: &str) -> (r:
    StartupChange)
    ensures
        match r {
            StartupChange::Write(content) => enable && content@ == desktop_entry(exe_path@),
            StartupChange::Remove => !enable && entry_present,
            StartupChange::Nothing => !enable && !entry_present,
        },
{
    if enable {
        let mut content = String::from_str(
            "[Desktop Entry]\nType=Application\nName=BunchaTools\nComment=A lightweight launcher for creative developers\nExec=",
        );
        content.append(exe_path);
        content.append("\nTerminal=false\nStartupNotify=false\nCategories=Utility;\n");
        StartupChange::Write(content)
    } else if entry_present {
        StartupChange::Remove
    } else {
        StartupChange::Nothing
    }
}

} // verus!
