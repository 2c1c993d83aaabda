//! Start and stop the scurry daemon from the tray.
//!
//! The daemon holds the dongle's serial port exclusively, so the tray drives the
//! platform's service manager rather than owning the process itself: that way
//! the daemon's autostart and restart policy survive the tray being closed.

use vstd::prelude::*;

use crate::ipc::{path_in, path_to};
use crate::text::{decimal, push_decimal};
use crate::transport::log::views;

verus! {

/// macOS LaunchAgent label.
pub const LAUNCHD_LABEL: &'static str = "com.ananthb.scurry";

/// systemd --user unit name on Linux.
pub const SYSTEMD_UNIT: &'static str = "scurry";

/// What the app runs on.
#[derive(Debug, Clone, Copy, PartialEq, Eq, Structural)]
pub enum Platform {
    MacOs,
    Linux,
    Other,
}

/// A program to run, and its arguments.
#[derive(Debug)]
pub struct Command {
    pub program: String,
    pub args: Vec<String>,
}

impl Command {
    /// The command is this program with these arguments.
    pub open spec fn is(self, program: Seq<char>, args: Seq<Seq<char>>) -> bool {
        self.program@ == program && views(self.args@) == args
    }
}

/// Why the service manager cannot be driven.
#[derive(Debug, Clone, Copy, PartialEq, Eq, Structural)]
pub enum DaemonError {
    NoAgent,
    Unsupported,
}

impl DaemonError {
    /// What the error says.
    pub open spec fn text(self) -> Seq<char> {
        match self {
            DaemonError::NoAgent => "no LaunchAgent at ~/Library/LaunchAgents/"@ + LAUNCHD_LABEL@
                + ".plist"@,
            DaemonError::Unsupported => "daemon control is not implemented on this platform"@,
        }
    }

    /// The error in words.
    pub fn message(&self) -> (r: String)
        ensures
            r@ == self.text(),
    {
        match self {
            DaemonError::NoAgent => {
                let mut s = String::from_str("no LaunchAgent at ~/Library/LaunchAgents/");
                s.append(LAUNCHD_LABEL);
                s.append(".plist");
                s
            },
            DaemonError::Unsupported => String::from_str(
                "daemon control is not implemented on this platform",
            ),
        }
    }
}

/// Whether daemon controls do anything on this platform.
pub fn supported(platform: Platform) -> (r: bool)
    ensures
        r == (platform != Platform::Other),
{
    match platform {
        Platform::Other => false,
        _ => true,
    }
}

/// Where the installer puts the unit, for the "not installed" hint.
pub fn install_hint(platform: Platform) -> (r: &'static str)
    ensures
        r@ == match platform {
            Platform::MacOs => "Run “Install Daemon.command” from the scurry disk image"@,
            Platform::Linux =>
                "Install scurry.service to ~/.config/systemd/user, then enable it"@,
            Platform::Other => "Daemon installation is not supported on this platform"@,
        },
{
    match platform {
        Platform::MacOs => "Run “Install Daemon.command” from the scurry disk image",
        Platform::Linux => "Install scurry.service to ~/.config/systemd/user, then enable it",
        Platform::Other => "Daemon installation is not supported on this platform",
    }
}

/// The name of the file that a launchd label is kept in.
pub open spec fn plist_name(label: Seq<char>) -> Seq<char> {
    label + ".plist"@
}

/// Where a user's agents live on macOS.
pub open spec fn agents_dir(home: Seq<char>) -> Seq<char> {
    path_in(home, "Library/LaunchAgents"@)
}

/// The place of an agent on macOS.
pub fn agent_path(home: &str, label: &str) -> (r: String)
    ensures
        r@ == path_in(agents_dir(home@), plist_name(label@)),
{
    let mut file = String::from_str(label);
    file.append(".plist");
    path_to(path_to(home, "Library/LaunchAgents").as_str(), file.as_str())
}

/// Where the unit lives that the service manager drives.
pub fn unit_path(platform: Platform, home: Option<&str>) -> (r: Option<String>)
    ensures
        match (platform, home) {
            (Platform::MacOs, Some(h)) => r matches Some(p) && p@ == path_in(
                agents_dir(h@),
                plist_name(LAUNCHD_LABEL@),
            ),
            (Platform::Linux, Some(h)) => r matches Some(p) && p@ == path_in(
                path_in(h@, ".config/systemd/user"@),
                SYSTEMD_UNIT@ + ".service"@,
            ),
            _ => r is None,
        },
{
    match (platform, home) {
        (Platform::MacOs, Some(h)) => Some(agent_path(h, LAUNCHD_LABEL)),
        (Platform::Linux, Some(h)) => {
            let mut file = String::from_str(SYSTEMD_UNIT);
            file.append(".service");
            Some(path_to(path_to(h, ".config/systemd/user").as_str(), file.as_str()))
        },
        _ => None,
    }
}

/// The launchd domain of a user's session. Not the user's own domain: the tray
/// is a GUI agent and the daemon needs a session it can tap input from.
pub open spec fn domain(uid: u32) -> Seq<char> {
    "gui/"@ + decimal(uid as int)
}

/// The agent in that domain.
pub open spec fn target(uid: u32) -> Seq<char> {
    domain(uid) + "/"@ + LAUNCHD_LABEL@
}

fn launchd_domain(uid: u32) -> (r: String)
    ensures
        r@ == domain(uid),
{
    let mut s = String::from_str("gui/");
    push_decimal(&mut s, uid as u64);
    s
}

fn launchd_target(uid: u32) -> (r: String)
    ensures
        r@ == target(uid),
{
    let mut s = launchd_domain(uid);
    s.append("/");
    s.append(LAUNCHD_LABEL);
    s
}

fn systemctl(verb: &str) -> (r: Command)
    ensures
        r.is("systemctl"@, seq!["--user"@, verb@, SYSTEMD_UNIT@]),
{
    let mut args: Vec<String> = Vec::new();
    args.push(String::from_str("--user"));
    args.push(String::from_str(verb));
    args.push(String::from_str(SYSTEMD_UNIT));
    assert(views(args@) =~= seq!["--user"@, verb@, SYSTEMD_UNIT@]);
    Command { program: String::from_str("systemctl"), args }
}

fn launchctl(verb: &str, what: String) -> (r: Command)
    ensures
        r.is("launchctl"@, seq![verb@, what@]),
{
    let mut args: Vec<String> = Vec::new();
    args.push(String::from_str(verb));
    args.push(what);
    assert(views(args@) =~= seq![verb@, what@]);
    Command { program: String::from_str("launchctl"), args }
}

/// The command that starts the daemon. On macOS it restarts an agent that is
/// loaded already; where that fails, the agent has to be loaded first.
pub fn start(platform: Platform, uid: u32) -> (r: Result<Command, DaemonError>)
    ensures
        match platform {
            Platform::MacOs => r matches Ok(c) && c.is(
                "launchctl"@,
                seq!["kickstart"@, target(uid)],
            ),
            Platform::Linux => r matches Ok(c) && c.is(
                "systemctl"@,
                seq!["--user"@, "start"@, SYSTEMD_UNIT@],
            ),
            Platform::Other => r == Err::<Command, DaemonError>(DaemonError::Unsupported),
        },
{
    match platform {
        Platform::MacOs => Ok(launchctl("kickstart", launchd_target(uid))),
        Platform::Linux => Ok(systemctl("start")),
        Platform::Other => Err(DaemonError::Unsupported),
    }
}

/// Whether the agent has to be loaded, given whether starting it worked. The
/// first start after an installation fails on macOS, because only a loaded agent
/// can be started there.
pub fn after_start(platform: Platform, started: bool) -> (load: bool)
    ensures
        load == (platform == Platform::MacOs && !started),
{
    match platform {
        Platform::MacOs => !started,
        _ => false,
    }
}

/// The command that loads the agent, where it is installed.
pub fn bootstrap(uid: u32, plist: Option<&str>) -> (r: Result<Command, DaemonError>)
    ensures
        match plist {
            Some(p) => r matches Ok(c) && c.is(
                "launchctl"@,
                seq!["bootstrap"@, domain(uid), p@],
            ),
            None => r == Err::<Command, DaemonError>(DaemonError::NoAgent),
        },
{
    match plist {
        Some(p) => {
            let mut args: Vec<String> = Vec::new();
            args.push(String::from_str("bootstrap"));
            args.push(launchd_domain(uid));
            args.push(String::from_str(p));
            assert(views(args@) =~= seq!["bootstrap"@, domain(uid), p@]);
            Ok(Command { program: String::from_str("launchctl"), args })
        },
        None => Err(DaemonError::NoAgent),
    }
}

/// The command that stops the daemon.
pub fn stop(platform: Platform, uid: u32) -> (r: Result<Command, DaemonError>)
    ensures
        match platform {
            Platform::MacOs => r matches Ok(c) && c.is("launchctl"@, seq!["bootout"@, target(uid)]),
            Platform::Linux => r matches Ok(c) && c.is(
                "systemctl"@,
                seq!["--user"@, "stop"@, SYSTEMD_UNIT@],
            ),
            Platform::Other => r == Err::<Command, DaemonError>(DaemonError::Unsupported),
        },
{
    match platform {
        Platform::MacOs => Ok(launchctl("bootout", launchd_target(uid))),
        Platform::Linux => Ok(systemctl("stop")),
        Platform::Other => Err(DaemonError::Unsupported),
    }
}

/// The commands that restart the daemon: one that stops it, whose failure does
/// not matter, and one that starts it.
pub fn restart(platform: Platform, uid: u32) -> (r: (
    Result<Command, DaemonError>,
    Result<Command, DaemonError>,
))
    ensures
        match platform {
            Platform::MacOs => {
                &&& r.0 matches Ok(c) && c.is("launchctl"@, seq!["bootout"@, target(uid)])
                &&& r.1 matches Ok(c) && c.is("launchctl"@, seq!["kickstart"@, target(uid)])
            },
            Platform::Linux => {
                &&& r.0 matches Ok(c) && c.is(
                    "systemctl"@,
                    seq!["--user"@, "stop"@, SYSTEMD_UNIT@],
                )
                &&& r.1 matches Ok(c) && c.is(
                    "systemctl"@,
                    seq!["--user"@, "start"@, SYSTEMD_UNIT@],
                )
            },
            Platform::Other => {
                &&& r.0 == Err::<Command, DaemonError>(DaemonError::Unsupported)
                &&& r.1 == Err::<Command, DaemonError>(DaemonError::Unsupported)
            },
        },
{
    (stop(platform, uid), start(platform, uid))
}

/// What is said of a command that failed.
pub open spec fn failure_text(program: Seq<char>, args: Seq<Seq<char>>, status: Seq<char>) -> Seq<
    char,
> {
    program + " "@ + joined(args, args.len() as int) + " failed: "@ + status
}

/// The first `n` texts, with a blank between them.
pub open spec fn joined(args: Seq<Seq<char>>, n: int) -> Seq<char>
    decreases n,
{
    if n <= 0 {
        Seq::empty()
    } else if n == 1 {
        args[0]
    } else {
        joined(args, n - 1) + seq![' '] + args[n - 1]
    }
}

/// What is said of a command that failed, in words.
pub fn failure(command: &Command, status: &str) -> (r: String)
    ensures
        r@ == failure_text(command.program@, views(command.args@), status@),
{
    let mut s: String = command.program.clone();
    s.append(" ");
    let ghost head = s@;
    let ghost args = views(command.args@);
    let n: usize = command.args.len();
    let mut i: usize = 0;
    assert(s@ =~= head + joined(args, 0));
    while i < n
        invariant
            i <= n == command.args@.len(),
            args == views(command.args@),
            s@ == head + joined(args, i as int),
        decreases n - i,
    {
        let ghost before = s@;
        assert(args[i as int] == command.args@[i as int]@);
        if i > 0 {
            s.push(' ');
        }
        s.append(command.args[i].as_str());
        assert(s@ =~= head + joined(args, i + 1));
        i = i + 1;
    }
    s.append(" failed: ");
    s.append(status);
    s
}

/// Texts are put together in order, with one blank between them.
pub proof fn law_texts_are_put_together(args: Seq<Seq<char>>, n: int)
    requires
        0 < n < args.len(),
    ensures
        joined(args, 0) == Seq::<char>::empty(),
        joined(args, 1) == args[0],
        joined(args, n + 1) == joined(args, n) + seq![' '] + args[n],
{
}

/// The daemon is the agent com.ananthb.scurry of the user's own session.
pub proof fn law_which_agent_is_driven(uid: u32)
    ensures
        target(uid) == "gui/"@ + decimal(uid as int) + "/"@ + "com.ananthb.scurry"@,
        domain(uid) == "gui/"@ + decimal(uid as int),
{
}

} // verus!
