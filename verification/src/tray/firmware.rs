//! The firmware section of the settings pane.
//!
//! Updates arrive from the project's own releases by default, because the
//! alternative is asking somebody to find a file on the internet and trust it. A
//! local file is still accepted, for the case this is really for: you built the
//! firmware and want it on the dongle.
//!
//! Everything slow happens beside the window, which otherwise would be frozen
//! for the whole update, exactly while somebody most wants to see progress.

use vstd::prelude::*;

use crate::proto::kind;
use crate::proto::ota::FirmwareInfo;
use crate::provision::Candidate;
use crate::text::{
    chars_of, hex_byte, padded_text, push_hex_byte, text_from, trim, trimmed,
};
use crate::update::release::{optional, Release};
use crate::update::version::{is_newer, later, parts_of};

verus! {

/// How far an update is.
#[derive(Debug)]
pub enum Progress {
    Idle,
    Working(String),
    Sending { sent: u32, total: u32 },
    Done(String),
    Failed(String),
}

impl Progress {
    /// An update is under way.
    pub open spec fn is_busy(self) -> bool {
        self is Working || self is Sending
    }

    /// It is working on this.
    pub open spec fn works_on(self, text: Seq<char>) -> bool {
        self matches Progress::Working(t) && t@ == text
    }
}

/// What the section knows.
#[derive(Debug)]
pub struct FirmwarePane {
    pub info: Option<FirmwareInfo>,
    /// Ports with a board on them that is not the dongle this app is using.
    /// Refreshed on demand, since plugging one in is a deliberate act.
    pub blank_ports: Vec<Candidate>,
    pub latest: Option<Release>,
    /// Set when the release check failed, so the section can say why rather
    /// than silently offering nothing.
    pub check_error: Option<String>,
    pub local_path: String,
    pub progress: Progress,
}

impl Default for FirmwarePane {
    fn default() -> (r: Self)
        ensures
            r.info is None,
            r.blank_ports@ == Seq::<Candidate>::empty(),
            r.latest is None,
            r.check_error is None,
            r.local_path@ == Seq::<char>::empty(),
            r.progress is Idle,
    {
        FirmwarePane {
            info: None,
            blank_ports: Vec::new(),
            latest: None,
            check_error: None,
            local_path: String::new(),
            progress: Progress::Idle,
        }
    }
}

/// Where an image comes from, and where it goes.
#[derive(Debug)]
pub enum Source {
    Release(Release),
    File(String),
    /// First flash of a blank board on this port, from the latest release or
    /// a local image.
    Provision { port: String, file: Option<String> },
}

/// What a button does.
#[derive(Debug, Clone, Copy, PartialEq, Eq, Structural)]
pub enum PaneAction {
    /// Ask the dongle and the release server again.
    Check,
    /// Install the latest release.
    Install,
    /// Install the local image.
    InstallFile,
    /// Look for blank boards again.
    LookAgain,
    /// Flash the blank board at this place of the list.
    Flash(usize),
}

/// One thing in the section.
#[derive(Debug)]
pub enum PaneItem {
    Separator,
    Text(String),
    Mono(String),
    Weak(String),
    Button { action: PaneAction, label: String, enabled: bool },
    /// The field that holds the path of a local image.
    PathField,
    Spinner,
    Bar { sent: u32, total: u32 },
    Good(String),
    Bad(String),
}

/// What a thing in the section says.
pub enum PaneLine {
    Separator,
    Text(Seq<char>),
    Mono(Seq<char>),
    Weak(Seq<char>),
    Button { action: PaneAction, label: Seq<char>, enabled: bool },
    PathField,
    Spinner,
    Bar { sent: u32, total: u32 },
    Good(Seq<char>),
    Bad(Seq<char>),
}

impl View for PaneItem {
    type V = PaneLine;

    open spec fn view(&self) -> PaneLine {
        match *self {
            PaneItem::Separator => PaneLine::Separator,
            PaneItem::Text(t) => PaneLine::Text(t@),
            PaneItem::Mono(t) => PaneLine::Mono(t@),
            PaneItem::Weak(t) => PaneLine::Weak(t@),
            PaneItem::Button { action, label, enabled } => PaneLine::Button {
                action,
                label: label@,
                enabled,
            },
            PaneItem::PathField => PaneLine::PathField,
            PaneItem::Spinner => PaneLine::Spinner,
            PaneItem::Bar { sent, total } => PaneLine::Bar { sent, total },
            PaneItem::Good(t) => PaneLine::Good(t@),
            PaneItem::Bad(t) => PaneLine::Bad(t@),
        }
    }
}

/// What the section says.
pub open spec fn pane_lines(v: Seq<PaneItem>) -> Seq<PaneLine> {
    Seq::new(v.len(), |i: int| v[i]@)
}

/// An optional text, or another where there is none.
pub open spec fn text_or(t: Option<String>, other: Seq<char>) -> Seq<char> {
    match t {
        Some(s) => s@,
        None => other,
    }
}

/// The rows of the first `n` blank boards.
pub open spec fn board_lines(boards: Seq<Candidate>, busy: bool, n: int) -> Seq<PaneLine>
    decreases n,
{
    if n <= 0 {
        Seq::empty()
    } else {
        let b = boards[n - 1];
        board_lines(boards, busy, n - 1) + seq![PaneLine::Mono(b.port@)] + match b.product {
            Some(p) => seq![PaneLine::Weak(p@)],
            None => Seq::empty(),
        } + seq![
            PaneLine::Button {
                action: PaneAction::Flash((n - 1) as usize),
                label: "Flash scurry onto it"@,
                enabled: !busy,
            },
        ]
    }
}

/// The part for a board that is not a dongle yet.
pub open spec fn provision_lines(boards: Seq<Candidate>, busy: bool) -> Seq<PaneLine> {
    if boards.len() == 0 {
        seq![
            PaneLine::Separator,
            PaneLine::Text("No new board plugged in."@),
            PaneLine::Button {
                action: PaneAction::LookAgain,
                label: "Look again"@,
                enabled: true,
            },
        ]
    } else {
        seq![
            PaneLine::Separator,
            PaneLine::Text("New board — not running scurry yet:"@),
        ] + board_lines(boards, busy, boards.len() as int) + seq![
            PaneLine::Weak(
                "This erases the board: a dongle already in service loses its bonds and layout.              Uses the local image above when one is given, otherwise the latest release."@,
            ),
        ]
    }
}

/// The part that says how far an update is.
pub open spec fn progress_lines(p: Progress) -> Seq<PaneLine> {
    match p {
        Progress::Idle => Seq::empty(),
        Progress::Working(t) => seq![PaneLine::Separator, PaneLine::Text(t@), PaneLine::Spinner],
        Progress::Sending { sent, total } => seq![
            PaneLine::Separator,
            PaneLine::Bar { sent, total },
            PaneLine::Text("Do not unplug the dongle."@),
        ],
        Progress::Done(t) => seq![PaneLine::Separator, PaneLine::Good(t@)],
        Progress::Failed(t) => seq![PaneLine::Separator, PaneLine::Bad(t@)],
    }
}

/// The part that says what the dongle runs.
pub open spec fn info_lines(info: FirmwareInfo) -> Seq<PaneLine> {
    let running = padded_text(info.version@);
    seq![
        PaneLine::Text(
            "Dongle is running "@ + if running.len() == 0 {
                "an unversioned build"@
            } else {
                running
            },
        ),
    ] + if info.pending_verify {
        seq![
            PaneLine::Text(
                "This image has not confirmed itself yet. It will be kept once it has been running a little longer."@,
            ),
        ]
    } else {
        Seq::empty()
    } + if info.ota_capable {
        Seq::empty()
    } else {
        seq![
            PaneLine::Text(
                "This build has a single app slot, so it has nowhere to put a second image. Flash it once over the cable; after that it can update itself."@,
            ),
        ]
    }
}

/// The part that offers a release. Reinstalling the same version is how
/// somebody recovers from a half-finished update, so it stays available.
pub open spec fn release_lines(
    latest: Option<Release>,
    check_error: Option<String>,
    running: Seq<char>,
    busy: bool,
) -> Seq<PaneLine> {
    match latest {
        Some(rel) => if later(parts_of(rel.tag@), parts_of(running)) {
            seq![
                PaneLine::Text(rel.tag@ + " is available."@),
                PaneLine::Button {
                    action: PaneAction::Install,
                    label: "Install update"@,
                    enabled: !busy,
                },
            ]
        } else {
            seq![
                PaneLine::Text("Up to date. Latest release is "@ + rel.tag@ + "."@),
                PaneLine::Button {
                    action: PaneAction::Install,
                    label: "Reinstall"@,
                    enabled: !busy,
                },
            ]
        },
        None => seq![
            PaneLine::Text(text_or(check_error, "Release not checked yet."@)),
            PaneLine::Button {
                action: PaneAction::Check,
                label: "Check for updates"@,
                enabled: !busy,
            },
        ],
    }
}

/// The part that offers a local image.
pub open spec fn file_lines(path: Seq<char>, busy: bool) -> Seq<PaneLine> {
    seq![
        PaneLine::Text(
            "Or install a local image — drag a .bin onto this window, or type its path:"@,
        ),
        PaneLine::PathField,
        PaneLine::Button {
            action: PaneAction::InstallFile,
            label: "Install file"@,
            enabled: !busy && trimmed(path).len() > 0,
        },
    ]
}

/// Everything in the section. A dongle with a single app slot has nowhere to
/// put a second image, and is offered none.
pub open spec fn section(p: FirmwarePane) -> Seq<PaneLine> {
    let busy = p.progress.is_busy();
    match p.info {
        None => seq![
            PaneLine::Text(text_or(p.check_error, "Not connected to a dongle."@)),
            PaneLine::Button {
                action: PaneAction::Check,
                label: "Check again"@,
                enabled: true,
            },
        ] + provision_lines(p.blank_ports@, busy) + progress_lines(p.progress),
        Some(info) => if !info.ota_capable {
            info_lines(info)
        } else {
            info_lines(info) + seq![PaneLine::Separator] + release_lines(
                p.latest,
                p.check_error,
                padded_text(info.version@),
                busy,
            ) + seq![PaneLine::Separator] + file_lines(p.local_path@, busy) + provision_lines(
                p.blank_ports@,
                busy,
            ) + progress_lines(p.progress)
        },
    }
}

fn say(out: &mut Vec<PaneItem>, item: PaneItem)
    ensures
        pane_lines(final(out)@) == pane_lines(old(out)@) + seq![item@],
{
    let ghost before = pane_lines(out@);
    out.push(item);
    assert(pane_lines(out@) =~= before + seq![item@]);
}

fn offer(out: &mut Vec<PaneItem>, action: PaneAction, label: &str, enabled: bool)
    ensures
        pane_lines(final(out)@) == pane_lines(old(out)@) + seq![
            PaneLine::Button { action, label: label@, enabled },
        ],
{
    say(out, PaneItem::Button { action, label: String::from_str(label), enabled });
}

fn text_else(t: &Option<String>, other: &str) -> (r: String)
    ensures
        r@ == text_or(*t, other@),
{
    match t {
        Some(s) => s.clone(),
        None => String::from_str(other),
    }
}

fn copy_release(r: &Release) -> (c: Release)
    ensures
        c.tag@ == r.tag@,
        c.firmware_url@ == r.firmware_url@,
        optional(c.factory_url) == optional(r.factory_url),
        optional(c.checksums_url) == optional(r.checksums_url),
{
    Release {
        tag: r.tag.clone(),
        firmware_url: r.firmware_url.clone(),
        factory_url: match &r.factory_url {
            Some(u) => Some(u.clone()),
            None => None,
        },
        checksums_url: match &r.checksums_url {
            Some(u) => Some(u.clone()),
            None => None,
        },
    }
}

/// The two releases say the same.
pub open spec fn same_release(a: Release, b: Release) -> bool {
    &&& a.tag@ == b.tag@
    &&& a.firmware_url@ == b.firmware_url@
    &&& optional(a.factory_url) == optional(b.factory_url)
    &&& optional(a.checksums_url) == optional(b.checksums_url)
}

impl FirmwarePane {
    fn busy(&self) -> (r: bool)
        ensures
            r == self.progress.is_busy(),
    {
        match &self.progress {
            Progress::Working(_) => true,
            Progress::Sending { .. } => true,
            _ => false,
        }
    }

    /// Take in the blank boards and what the dongle says it runs. Says whether
    /// to ask for the latest release too: not where the dongle did not answer.
    pub fn refresh(&mut self, ports: Vec<Candidate>, info: Result<FirmwareInfo, String>) -> (r:
        bool)
        ensures
            final(self).blank_ports == ports,
            final(self).latest == old(self).latest,
            final(self).local_path == old(self).local_path,
            final(self).progress == old(self).progress,
            r == info is Ok,
            match info {
                Ok(i) => final(self).info == Some(i) && final(self).check_error is None,
                Err(e) => final(self).info is None && optional(final(self).check_error) == Some(
                    "Could not ask the dongle: "@ + e@,
                ),
            },
    {
        self.blank_ports = ports;
        match info {
            Ok(i) => {
                self.info = Some(i);
                self.check_error = None;
                true
            },
            Err(e) => {
                let mut t = String::from_str("Could not ask the dongle: ");
                t.append(e.as_str());
                self.info = None;
                self.check_error = Some(t);
                false
            },
        }
    }

    /// Take in the latest release.
    pub fn checked(&mut self, latest: Result<Release, String>)
        ensures
            final(self).info == old(self).info,
            final(self).blank_ports == old(self).blank_ports,
            final(self).local_path == old(self).local_path,
            final(self).progress == old(self).progress,
            match latest {
                Ok(rel) => final(self).latest == Some(rel) && final(self).check_error == old(
                    self,
                ).check_error,
                Err(e) => final(self).latest == old(self).latest && optional(
                    final(self).check_error,
                ) == Some("Could not check for releases: "@ + e@),
            },
    {
        match latest {
            Ok(rel) => {
                self.latest = Some(rel);
            },
            Err(e) => {
                let mut t = String::from_str("Could not check for releases: ");
                t.append(e.as_str());
                self.check_error = Some(t);
            },
        }
    }

    fn progress_ui(&self, out: &mut Vec<PaneItem>)
        ensures
            pane_lines(final(out)@) == pane_lines(old(out)@) + progress_lines(self.progress),
    {
        let ghost before = pane_lines(out@);
        match &self.progress {
            Progress::Idle => {},
            Progress::Working(t) => {
                say(out, PaneItem::Separator);
                say(out, PaneItem::Text(t.clone()));
                say(out, PaneItem::Spinner);
            },
            Progress::Sending { sent, total } => {
                say(out, PaneItem::Separator);
                say(out, PaneItem::Bar { sent: *sent, total: *total });
                say(out, PaneItem::Text(String::from_str("Do not unplug the dongle.")));
            },
            Progress::Done(t) => {
                say(out, PaneItem::Separator);
                say(out, PaneItem::Good(t.clone()));
            },
            Progress::Failed(t) => {
                say(out, PaneItem::Separator);
                say(out, PaneItem::Bad(t.clone()));
            },
        }
        assert(pane_lines(out@) =~= before + progress_lines(self.progress));
    }

    fn provision_ui(&self, out: &mut Vec<PaneItem>)
        ensures
            pane_lines(final(out)@) == pane_lines(old(out)@) + provision_lines(
                self.blank_ports@,
                self.progress.is_busy(),
            ),
    {
        let ghost before = pane_lines(out@);
        say(out, PaneItem::Separator);
        if self.blank_ports.len() == 0 {
            say(out, PaneItem::Text(String::from_str("No new board plugged in.")));
            offer(out, PaneAction::LookAgain, "Look again", true);
            assert(pane_lines(out@) =~= before + provision_lines(
                self.blank_ports@,
                self.progress.is_busy(),
            ));
            return;
        }
        say(out, PaneItem::Text(String::from_str("New board — not running scurry yet:")));
        let busy: bool = self.busy();
        let ghost head = pane_lines(out@);
        let n: usize = self.blank_ports.len();
        let mut i: usize = 0;
        assert(head =~= head + board_lines(self.blank_ports@, busy, 0));
        while i < n
            invariant
                i <= n == self.blank_ports@.len(),
                busy == self.progress.is_busy(),
                pane_lines(out@) == head + board_lines(self.blank_ports@, busy, i as int),
            decreases n - i,
        {
            let board: &Candidate = &self.blank_ports[i];
            say(out, PaneItem::Mono(board.port.clone()));
            match &board.product {
                Some(p) => say(out, PaneItem::Weak(p.clone())),
                None => {},
            }
            offer(out, PaneAction::Flash(i), "Flash scurry onto it", !busy);
            assert(pane_lines(out@) =~= head + board_lines(self.blank_ports@, busy, i + 1));
            i = i + 1;
        }
        say(
            out,
            PaneItem::Weak(
                String::from_str(
                    "This erases the board: a dongle already in service loses its bonds and layout.              Uses the local image above when one is given, otherwise the latest release.",
                ),
            ),
        );
        assert(pane_lines(out@) =~= before + provision_lines(
            self.blank_ports@,
            self.progress.is_busy(),
        ));
    }

    fn info_ui(&self, info: &FirmwareInfo, out: &mut Vec<PaneItem>)
        ensures
            pane_lines(final(out)@) == pane_lines(old(out)@) + info_lines(*info),
    {
        let ghost before = pane_lines(out@);
        let running: &str = info.version_str();
        let mut t = String::from_str("Dongle is running ");
        if running.is_empty() {
            t.append("an unversioned build");
        } else {
            t.append(running);
        }
        say(out, PaneItem::Text(t));
        if info.pending_verify {
            say(
                out,
                PaneItem::Text(
                    String::from_str(
                        "This image has not confirmed itself yet. It will be kept once it has been running a little longer.",
                    ),
                ),
            );
        }
        if !info.ota_capable {
            say(
                out,
                PaneItem::Text(
                    String::from_str(
                        "This build has a single app slot, so it has nowhere to put a second image. Flash it once over the cable; after that it can update itself.",
                    ),
                ),
            );
        }
        assert(pane_lines(out@) =~= before + info_lines(*info));
    }

    fn release_ui(&self, running: &str, out: &mut Vec<PaneItem>)
        ensures
            pane_lines(final(out)@) == pane_lines(old(out)@) + release_lines(
                self.latest,
                self.check_error,
                running@,
                self.progress.is_busy(),
            ),
    {
        let ghost before = pane_lines(out@);
        let busy: bool = self.busy();
        match &self.latest {
            Some(rel) => if is_newer(rel.tag.as_str(), running) {
                let mut t: String = rel.tag.clone();
                t.append(" is available.");
                say(out, PaneItem::Text(t));
                offer(out, PaneAction::Install, "Install update", !busy);
            } else {
                let mut t = String::from_str("Up to date. Latest release is ");
                t.append(rel.tag.as_str());
                t.append(".");
                say(out, PaneItem::Text(t));
                offer(out, PaneAction::Install, "Reinstall", !busy);
            },
            None => {
                say(
                    out,
                    PaneItem::Text(text_else(&self.check_error, "Release not checked yet.")),
                );
                offer(out, PaneAction::Check, "Check for updates", !busy);
            },
        }
        assert(pane_lines(out@) =~= before + release_lines(
            self.latest,
            self.check_error,
            running@,
            busy,
        ));
    }

    /// Everything in the section, in order.
    pub fn ui(&self) -> (r: Vec<PaneItem>)
        ensures
            pane_lines(r@) == section(*self),
    {
        let mut out: Vec<PaneItem> = Vec::new();
        let busy: bool = self.busy();
        assert(pane_lines(out@) =~= Seq::empty());
        match &self.info {
            None => {
                say(
                    &mut out,
                    PaneItem::Text(text_else(&self.check_error, "Not connected to a dongle.")),
                );
                offer(&mut out, PaneAction::Check, "Check again", true);
                self.provision_ui(&mut out);
                self.progress_ui(&mut out);
            },
            Some(info) => {
                self.info_ui(info, &mut out);
                if info.ota_capable {
                    say(&mut out, PaneItem::Separator);
                    self.release_ui(info.version_str(), &mut out);
                    say(&mut out, PaneItem::Separator);
                    say(
                        &mut out,
                        PaneItem::Text(
                            String::from_str(
                                "Or install a local image — drag a .bin onto this window, or type its path:",
                            ),
                        ),
                    );
                    say(&mut out, PaneItem::PathField);
                    let chars: Vec<char> = chars_of(self.local_path.as_str());
                    let ready: bool = !busy && trim(chars.as_slice()).len() > 0;
                    offer(&mut out, PaneAction::InstallFile, "Install file", ready);
                    self.provision_ui(&mut out);
                    self.progress_ui(&mut out);
                }
            },
        }
        assert(pane_lines(out@) =~= section(*self));
        out
    }

    /// This is what is installed when a button is pressed.
    pub open spec fn installs(self, action: PaneAction, r: Option<Source>) -> bool {
        match action {
            PaneAction::Install => match self.latest {
                Some(rel) => r matches Some(Source::Release(s)) && same_release(s, rel),
                None => r is None,
            },
            PaneAction::InstallFile => r matches Some(Source::File(p)) && p@ == trimmed(
                self.local_path@,
            ),
            PaneAction::Flash(i) => if i < self.blank_ports@.len() {
                r matches Some(Source::Provision { port, file }) && port@
                    == self.blank_ports@[i as int].port@ && optional(file) == if trimmed(
                    self.local_path@,
                ).len() > 0 {
                    Some(trimmed(self.local_path@))
                } else {
                    None
                }
            } else {
                r is None
            },
            _ => r is None,
        }
    }

    /// What to install when a button is pressed; nothing where it only asks.
    pub fn source_for(&self, action: PaneAction) -> (r: Option<Source>)
        ensures
            self.installs(action, r),
    {
        let chars: Vec<char> = chars_of(self.local_path.as_str());
        let local: &[char] = trim(chars.as_slice());
        match action {
            PaneAction::Install => match &self.latest {
                Some(rel) => Some(Source::Release(copy_release(rel))),
                None => None,
            },
            PaneAction::InstallFile => Some(Source::File(text_from(local))),
            PaneAction::Flash(i) => {
                if i >= self.blank_ports.len() {
                    return None;
                }
                let file: Option<String> = if local.len() > 0 {
                    Some(text_from(local))
                } else {
                    None
                };
                Some(Source::Provision { port: self.blank_ports[i].port.clone(), file })
            },
            _ => None,
        }
    }
}

/// The next thing to do for an image.
#[derive(Debug)]
pub enum Step {
    ReadFile(String),
    FindLatest,
    DownloadFirmware(Release),
    DownloadFactory(Release),
}

/// What is said before anything is known.
pub fn preparing() -> (r: Progress)
    ensures
        r.works_on("Preparing…"@),
{
    Progress::Working(String::from_str("Preparing…"))
}

fn downloading(tag: &str) -> (r: Progress)
    ensures
        r.works_on("Downloading "@ + tag@ + "…"@),
{
    let mut t = String::from_str("Downloading ");
    t.append(tag);
    t.append("…");
    Progress::Working(t)
}

/// Whether a source writes a blank board rather than an update.
pub fn is_provisioning(source: &Source) -> (r: bool)
    ensures
        r == source is Provision,
{
    match source {
        Source::Provision { .. } => true,
        _ => false,
    }
}

/// This is the first thing to do for a source, and what is said meanwhile.
pub open spec fn begins(source: Source, step: Step, said: Progress) -> bool {
    match source {
        Source::Release(rel) => {
            &&& step matches Step::DownloadFirmware(s) && same_release(s, rel)
            &&& said.works_on("Downloading "@ + rel.tag@ + "…"@)
        },
        Source::File(path) => {
            &&& step matches Step::ReadFile(p) && p@ == path@
            &&& said.works_on("Reading the image…"@)
        },
        Source::Provision { port, file: Some(path) } => {
            &&& step matches Step::ReadFile(p) && p@ == path@
            &&& said.works_on("Reading the image…"@)
        },
        Source::Provision { port, file: None } => {
            &&& step is FindLatest
            &&& said.works_on("Finding the latest release…"@)
        },
    }
}

/// The first thing to do for a source, and what is said meanwhile.
pub fn first_step(source: &Source) -> (r: (Step, Progress))
    ensures
        begins(*source, r.0, r.1),
{
    match source {
        Source::Release(rel) => (
            Step::DownloadFirmware(copy_release(rel)),
            downloading(rel.tag.as_str()),
        ),
        Source::File(path) => (
            Step::ReadFile(path.clone()),
            Progress::Working(String::from_str("Reading the image…")),
        ),
        Source::Provision { port: _, file } => match file {
            Some(path) => (
                Step::ReadFile(path.clone()),
                Progress::Working(String::from_str("Reading the image…")),
            ),
            None => (
                Step::FindLatest,
                Progress::Working(String::from_str("Finding the latest release…")),
            ),
        },
    }
}

/// What to do once the latest release is known, for a blank board.
pub fn after_latest(rel: &Release) -> (r: (Step, Progress))
    ensures
        r.0 matches Step::DownloadFactory(s) && same_release(s, *rel),
        r.1.works_on("Downloading "@ + rel.tag@ + "…"@),
{
    (Step::DownloadFactory(copy_release(rel)), downloading(rel.tag.as_str()))
}

/// What is said of a file that could not be read.
pub fn read_failure(path: &str, cause: &str) -> (r: String)
    ensures
        r@ == "reading "@ + path@ + ": "@ + cause@,
{
    let mut t = String::from_str("reading ");
    t.append(path);
    t.append(": ");
    t.append(cause);
    t
}

/// What is said once it is over.
pub fn finished(provisioning: bool, result: Result<(), String>) -> (r: Progress)
    ensures
        match result {
            Ok(_) => r matches Progress::Done(t) && t@ == if provisioning {
                "Flashed. The board is rebooting into scurry for the first time."@
            } else {
                "Installed. The dongle is rebooting into the new firmware."@
            },
            Err(e) => r matches Progress::Failed(t) && t@ == e@,
        },
{
    match result {
        Ok(_) => if provisioning {
            Progress::Done(
                String::from_str(
                    "Flashed. The board is rebooting into scurry for the first time.",
                ),
            )
        } else {
            Progress::Done(
                String::from_str("Installed. The dongle is rebooting into the new firmware."),
            )
        },
        Err(e) => Progress::Failed(e),
    }
}

/// Whether a reply from the app answers a request. An acknowledgement always
/// does: the update knows which codes mean what for each step.
pub fn accept_reply(kind: u8, want: u8) -> (r: Result<(), String>)
    ensures
        match r {
            Ok(_) => kind == want || kind == kind::ACK,
            Err(e) => kind != want && kind != kind::ACK && e@ == "the app answered with a 0x"@
                + hex_byte(kind) + " message"@,
        },
{
    if kind == want || kind == kind::ACK {
        return Ok(());
    }
    let mut t = String::from_str("the app answered with a 0x");
    push_hex_byte(&mut t, kind);
    t.append(" message");
    Err(t)
}

/// Nothing can be installed while something is being installed, and nothing at
/// all onto a dongle without a second slot.
pub proof fn law_one_update_at_a_time(p: FirmwarePane, i: int)
    requires
        0 <= i < section(p).len(),
        section(p)[i] matches PaneLine::Button { action, enabled, .. } && enabled && (action
            is Install || action is InstallFile),
    ensures
        !p.progress.is_busy(),
        p.info matches Some(info) && info.ota_capable,
{
    let busy = p.progress.is_busy();
    lemma_board_lines(p.blank_ports@, busy, p.blank_ports@.len() as int);
    let boards = board_lines(p.blank_ports@, busy, p.blank_ports@.len() as int);
    let prov = provision_lines(p.blank_ports@, busy);
    assert forall|k: int| 0 <= k < prov.len() implies !(#[trigger] prov[k] matches PaneLine::Button {
        action,
        ..
    } && (action is Install || action is InstallFile)) by {
        if p.blank_ports@.len() > 0 && 2 <= k < 2 + boards.len() {
            assert(prov[k] == boards[k - 2]);
        }
    }
}

proof fn lemma_board_lines(boards: Seq<Candidate>, busy: bool, n: int)
    requires
        0 <= n <= boards.len(),
    ensures
        forall|k: int|
            0 <= k < board_lines(boards, busy, n).len() ==> !(#[trigger] board_lines(
                boards,
                busy,
                n,
            )[k] matches PaneLine::Button { action, .. } && (action is Install || action
                is InstallFile)),
    decreases n,
{
    if n > 0 {
        lemma_board_lines(boards, busy, n - 1);
        let before = board_lines(boards, busy, n - 1);
        let now = board_lines(boards, busy, n);
        assert forall|k: int| 0 <= k < now.len() implies !(#[trigger] now[k] matches PaneLine::Button {
            action,
            ..
        } && (action is Install || action is InstallFile)) by {
            if k < before.len() {
                assert(now[k] == before[k]);
            }
        }
    }
}

/// What the section offers a dongle that can take an update, thing by thing:
/// what it runs, the release or how to look for one, and a local image. An
/// update is called one only where the release is later than what runs. Nothing
/// is offered while an update is under way, nor a local image without a path.
pub proof fn law_what_is_offered(p: FirmwarePane, info: FirmwareInfo)
    requires
        p.info == Some(info),
        info.ota_capable,
    ensures
        ({
            let s = section(p);
            let idle = !(p.progress is Working || p.progress is Sending);
            let at: int = if info.pending_verify {
                2
            } else {
                1
            };
            &&& s.len() >= at + 7
            &&& s[at] is Separator
            &&& p.latest matches Some(rel) ==> {
                let newer = later(parts_of(rel.tag@), parts_of(padded_text(info.version@)));
                &&& s[at + 2] matches PaneLine::Button { action, label, enabled } && action
                    == PaneAction::Install && enabled == idle && label == if newer {
                    "Install update"@
                } else {
                    "Reinstall"@
                }
                &&& newer ==> s[at + 1] == PaneLine::Text(rel.tag@ + " is available."@)
            }
            &&& p.latest is None ==> (s[at + 2] matches PaneLine::Button { action, label, enabled }
                && action == PaneAction::Check && enabled == idle)
            &&& p.latest is None && p.check_error is Some ==> s[at + 1] == PaneLine::Text(
                p.check_error.unwrap()@,
            )
            &&& s[at + 3] is Separator
            &&& s[at + 5] is PathField
            &&& s[at + 6] matches PaneLine::Button { action, label, enabled } && action
                == PaneAction::InstallFile && enabled == (idle && trimmed(p.local_path@).len() > 0)
        }),
{
}

/// A dongle with a single slot is told so and offered nothing, and without a
/// dongle the only thing to do is to look again, besides what blank boards are
/// offered.
pub proof fn law_what_is_not_offered(p: FirmwarePane, i: int)
    requires
        0 <= i < section(p).len(),
    ensures
        p.info matches Some(info) ==> !info.ota_capable ==> section(p)[i] is Text,
        p.info is None && i < 2 ==> section(p)[1] == (PaneLine::Button {
            action: PaneAction::Check,
            label: "Check again"@,
            enabled: true,
        }),
        p.info is None && i == 0 && p.check_error is Some ==> section(p)[0] == PaneLine::Text(
            p.check_error.unwrap()@,
        ),
{
}

/// Every blank board has a row: its port, what it calls itself where it does,
/// and a button that flashes that very board, unless an update is under way.
pub proof fn law_each_board_has_its_own_button(boards: Seq<Candidate>, busy: bool, n: int)
    requires
        0 < n <= boards.len(),
        boards.len() <= usize::MAX,
    ensures
        ({
            let before = board_lines(boards, busy, n - 1);
            let now = board_lines(boards, busy, n);
            let b = boards[n - 1];
            &&& now.take(before.len() as int) == before
            &&& now[before.len() as int] == PaneLine::Mono(b.port@)
            &&& b.product matches Some(name) ==> now.len() == before.len() + 3 && now[before.len() as int
                + 1] == PaneLine::Weak(name@)
            &&& b.product is None ==> now.len() == before.len() + 2
            &&& now.last() matches PaneLine::Button { action, label, enabled } && action
                == PaneAction::Flash((n - 1) as usize) && enabled == !busy
        }),
{
    let before = board_lines(boards, busy, n - 1);
    assert(board_lines(boards, busy, n).take(before.len() as int) =~= before);
}

/// While image bytes go out the bar says how many did, out of how many; an
/// ending is told as good news or as bad.
pub proof fn law_how_progress_is_told(p: Progress)
    ensures
        p is Idle <==> progress_lines(p).len() == 0,
        p matches Progress::Sending { sent, total } ==> progress_lines(p)[1] == (PaneLine::Bar {
            sent,
            total,
        }),
        p matches Progress::Working(t) ==> progress_lines(p)[1] == PaneLine::Text(t@)
            && progress_lines(p)[2] is Spinner,
        p matches Progress::Done(t) ==> progress_lines(p)[1] == PaneLine::Good(t@),
        p matches Progress::Failed(t) ==> progress_lines(p)[1] == PaneLine::Bad(t@),
        p.is_busy() <==> p is Working || p is Sending,
{
}

/// What a button leads to: installing fetches the release that is shown, from
/// where it is; installing a file reads that file; flashing writes the very
/// board whose button it is, from the file where one is named and otherwise from
/// a release that is looked for. Other buttons install nothing.
pub proof fn law_what_a_button_leads_to(
    p: FirmwarePane,
    action: PaneAction,
    source: Source,
    step: Step,
    said: Progress,
)
    requires
        p.installs(action, Some(source)),
        begins(source, step, said),
    ensures
        match source {
            Source::Release(rel) => action == PaneAction::Install && p.latest is Some && rel.tag@
                == p.latest.unwrap().tag@ && rel.firmware_url@ == p.latest.unwrap().firmware_url@
                && (step matches Step::DownloadFirmware(s) && s.firmware_url@ == rel.firmware_url@),
            Source::File(path) => action == PaneAction::InstallFile && path@ == trimmed(
                p.local_path@,
            ) && (step matches Step::ReadFile(f) && f@ == path@),
            Source::Provision { port, file } => action matches PaneAction::Flash(i) && i
                < p.blank_ports@.len() && port@ == p.blank_ports@[i as int].port@ && (file is Some
                <==> trimmed(p.local_path@).len() > 0) && (file is Some ==> file.unwrap()@
                == trimmed(p.local_path@) && (step matches Step::ReadFile(f) && f@
                == file.unwrap()@)) && (file is None ==> step is FindLatest),
        },
        said is Working,
{
}

} // verus!
