//! "Open at login", handled by the app rather than by the user.
//!
//! Writes an entry pointing at wherever this binary actually is, so the same
//! toggle works for an installed app and for a development build. There is
//! deliberately no installer step and no file for anyone to place by hand.

use vstd::prelude::*;

use crate::ipc::{path_in, path_to};
use crate::text::{replace, replaced};
use crate::tray::daemon::{agent_path, agents_dir, plist_name, Platform};

verus! {

/// The label of the login agent on macOS.
pub const LABEL: &'static str = "com.ananthb.scurry";

/// The start of the login agent, up to its label.
pub open spec fn agent_head() -> Seq<char> {
    "<?xml version=\"1.0\" encoding=\"UTF-8\"?>\n<!DOCTYPE plist PUBLIC \"-//Apple//DTD PLIST 1.0//EN\" \"http://www.apple.com/DTDs/PropertyList-1.0.dtd\">\n<plist version=\"1.0\">\n<dict>\n  <key>Label</key>\n  <string>"@
}

/// The part of the login agent between its label and its program.
pub open spec fn agent_middle() -> Seq<char> {
    "</string>\n  <key>ProgramArguments</key>\n  <array>\n    <string>"@
}

/// The end of the login agent, after its program. There is no `KeepAlive`: if
/// the user quits the app from the menu, relaunching it immediately would make
/// it impossible to stop.
pub open spec fn agent_tail() -> Seq<char> {
    "</string>\n  </array>\n  <key>RunAtLoad</key>\n  <true/>\n  <key>ProcessType</key>\n  <string>Interactive</string>\n</dict>\n</plist>\n"@
}

/// The login agent that runs a program.
pub open spec fn agent(program: Seq<char>) -> Seq<char> {
    agent_head() + LABEL@ + agent_middle() + program + agent_tail()
}

/// The login agent that runs a program, for macOS.
pub fn launch_agent(program: &str) -> (r: String)
    ensures
        r@ == agent(program@),
{
    let mut s = String::from_str(
        "<?xml version=\"1.0\" encoding=\"UTF-8\"?>\n<!DOCTYPE plist PUBLIC \"-//Apple//DTD PLIST 1.0//EN\" \"http://www.apple.com/DTDs/PropertyList-1.0.dtd\">\n<plist version=\"1.0\">\n<dict>\n  <key>Label</key>\n  <string>",
    );
    s.append(LABEL);
    s.append("</string>\n  <key>ProgramArguments</key>\n  <array>\n    <string>");
    s.append(program);
    s.append(
        "</string>\n  </array>\n  <key>RunAtLoad</key>\n  <true/>\n  <key>ProcessType</key>\n  <string>Interactive</string>\n</dict>\n</plist>\n",
    );
    s
}

/// The desktop entry that runs a program, made from the one that runs it by
/// name.
pub fn autostart_entry(entry: &str, program: &str) -> (r: String)
    ensures
        r@ == replaced(entry@, "Exec=scurry-tray"@, "Exec="@ + program@, 0),
{
    proof {
        reveal_strlit("Exec=scurry-tray");
    }
    let mut exec = String::from_str("Exec=");
    exec.append(program);
    replace(entry, "Exec=scurry-tray", exec.as_str())
}

/// Where the entry lives, given the home directory and the one for settings.
pub fn entry_path(platform: Platform, home: Option<&str>, config: Option<&str>) -> (r: Option<
    String,
>)
    ensures
        match platform {
            Platform::MacOs => match home {
                Some(h) => r matches Some(p) && p@ == path_in(agents_dir(h@), plist_name(LABEL@)),
                None => r is None,
            },
            Platform::Linux => match (config, home) {
                (Some(c), _) => r matches Some(p) && p@ == entry_in(c@),
                (None, Some(h)) => r matches Some(p) && p@ == entry_in(path_in(h@, ".config"@)),
                (None, None) => r is None,
            },
            Platform::Other => r is None,
        },
{
    match platform {
        Platform::MacOs => match home {
            Some(h) => Some(agent_path(h, LABEL)),
            None => None,
        },
        Platform::Linux => {
            let base: String = match (config, home) {
                (Some(c), _) => String::from_str(c),
                (None, Some(h)) => path_to(h, ".config"),
                (None, None) => return None,
            };
            Some(path_to(path_to(base.as_str(), "autostart").as_str(), "scurry-tray.desktop"))
        },
        Platform::Other => None,
    }
}

/// The desktop entry under a directory for settings.
pub open spec fn entry_in(config: Seq<char>) -> Seq<char> {
    path_in(path_in(config, "autostart"@), "scurry-tray.desktop"@)
}

/// Whether the app opens at login: there is a place for the entry, and the
/// entry is there.
pub fn enabled(entry_exists: Option<bool>) -> (r: bool)
    ensures
        r == (entry_exists == Some(true)),
{
    match entry_exists {
        Some(exists) => exists,
        None => false,
    }
}

/// What the toggle asks for, given what is on now.
pub fn toggle(now: bool) -> (r: bool)
    ensures
        r == !now,
{
    !now
}

/// What changing the setting takes.
#[derive(Debug, Clone, Copy, PartialEq, Eq, Structural)]
pub enum Change {
    /// Write the login agent.
    WriteAgent,
    /// Unload the login agent, and remove it where it is there.
    RemoveAgent,
    /// Write the desktop entry.
    WriteEntry,
    /// Remove the desktop entry where it is there.
    RemoveEntry,
    /// There is nowhere to put an agent.
    NoHome,
    /// There is nowhere to put an entry.
    NoConfigDir,
    Unsupported,
}

impl Change {
    /// Why the setting could not be changed.
    pub open spec fn text(self) -> Option<Seq<char>> {
        match self {
            Change::NoHome => Some("no HOME to place a LaunchAgent in"@),
            Change::NoConfigDir => Some("no config directory for an autostart entry"@),
            Change::Unsupported => Some("open at login is not supported on this platform"@),
            _ => None,
        }
    }

    /// Why the setting could not be changed, in words.
    pub fn failure(&self) -> (r: Option<String>)
        ensures
            match r {
                Some(t) => self.text() == Some(t@),
                None => self.text() is None,
            },
    {
        match self {
            Change::NoHome => Some(String::from_str("no HOME to place a LaunchAgent in")),
            Change::NoConfigDir => Some(
                String::from_str("no config directory for an autostart entry"),
            ),
            Change::Unsupported => Some(
                String::from_str("open at login is not supported on this platform"),
            ),
            _ => None,
        }
    }
}

/// What changing the setting takes.
pub open spec fn change_for(platform: Platform, enable: bool, has_place: bool) -> Change {
    match platform {
        Platform::MacOs => if !has_place {
            Change::NoHome
        } else if enable {
            Change::WriteAgent
        } else {
            Change::RemoveAgent
        },
        Platform::Linux => if !has_place {
            Change::NoConfigDir
        } else if enable {
            Change::WriteEntry
        } else {
            Change::RemoveEntry
        },
        Platform::Other => Change::Unsupported,
    }
}

/// Decide what changing the setting takes, on a platform and given whether
/// there is a place for the entry.
pub fn set(platform: Platform, enable: bool, has_place: bool) -> (r: Change)
    ensures
        r == change_for(platform, enable, has_place),
{
    match platform {
        Platform::MacOs => if !has_place {
            Change::NoHome
        } else if enable {
            Change::WriteAgent
        } else {
            Change::RemoveAgent
        },
        Platform::Linux => if !has_place {
            Change::NoConfigDir
        } else if enable {
            Change::WriteEntry
        } else {
            Change::RemoveEntry
        },
        Platform::Other => Change::Unsupported,
    }
}

/// Switching on writes and switching off removes, an agent on macOS and an entry
/// on Linux, and only where there is a place for it.
pub proof fn law_switching_on_writes_and_off_removes(
    platform: Platform,
    enable: bool,
    has_place: bool,
)
    ensures
        ({
            let c = change_for(platform, enable, has_place);
            &&& c == Change::WriteAgent || c == Change::WriteEntry ==> enable && has_place
            &&& c == Change::RemoveAgent || c == Change::RemoveEntry ==> !enable && has_place
            &&& c == Change::WriteAgent || c == Change::RemoveAgent || c == Change::NoHome
                <==> platform == Platform::MacOs
            &&& c == Change::WriteEntry || c == Change::RemoveEntry || c == Change::NoConfigDir
                <==> platform == Platform::Linux
            &&& c.text() is None <==> has_place && platform != Platform::Other
        }),
{
}

} // verus!
