//! The tray's menu.

use vstd::prelude::*;

use crate::bytes::same_six;
use crate::ipc::{ack_meaning, ack_message};
use crate::proto::ack;
use crate::proto::slot::SlotStatus;
use crate::proto::wireless_op;
use crate::text::{push_signed, same_text, signed};
use crate::tray::status::{name_of, node_name, ScreenInfo};

verus! {

/// What the menu is about.
#[derive(Debug)]
pub enum Snapshot {
    NoDongle,
    /// The system withholds the permission to capture input.
    NeedsPermission,
    Ready {
        /// Node currently holding the pointer; 0 is this machine.
        focus: u8,
        screens: Vec<ScreenInfo>,
        slots: Vec<SlotStatus>,
    },
}

/// What an entry does.
#[derive(Debug, Clone, Copy, PartialEq, Eq, Structural)]
pub enum Action {
    /// Open the settings window.
    Settings,
    /// Open the pairing window.
    Pair,
    /// Change whether the app opens at login.
    Login,
    Quit,
}

/// One entry of the menu.
#[derive(Debug)]
pub enum Entry {
    Separator,
    /// Text to read, with nothing to do.
    Label(String),
    Item { action: Action, text: String, enabled: bool },
    Check { action: Action, text: String, checked: bool },
}

/// What an entry says.
pub enum Line {
    Separator,
    Label(Seq<char>),
    Item { action: Action, text: Seq<char>, enabled: bool },
    Check { action: Action, text: Seq<char>, checked: bool },
}

impl View for Entry {
    type V = Line;

    open spec fn view(&self) -> Line {
        match *self {
            Entry::Separator => Line::Separator,
            Entry::Label(t) => Line::Label(t@),
            Entry::Item { action, text, enabled } => Line::Item { action, text: text@, enabled },
            Entry::Check { action, text, checked } => Line::Check { action, text: text@, checked },
        }
    }
}

/// What a menu says.
pub open spec fn lines(v: Seq<Entry>) -> Seq<Line> {
    Seq::new(v.len(), |i: int| v[i]@)
}

/// The machine of a node is connected.
pub open spec fn is_connected(slots: Seq<SlotStatus>, node: u8) -> bool {
    exists|i: int|
        0 <= i < slots.len() && (#[trigger] slots[i]).slot + 1 == node && slots[i].connected
}

/// What is said of the machine at a screen.
pub open spec fn mark(slots: Seq<SlotStatus>, node: u8) -> Seq<char> {
    if node == 0 {
        "this machine"@
    } else if is_connected(slots, node) {
        "connected"@
    } else {
        "offline"@
    }
}

/// What is said of a screen.
pub open spec fn screen_text(s: ScreenInfo, slots: Seq<SlotStatus>) -> Seq<char> {
    s.name@ + "  ·  "@ + signed(s.width as int) + "×"@ + signed(s.height as int) + "  ·  "@ + mark(
        slots,
        s.node,
    )
}

/// What is said of the first `n` screens.
pub open spec fn screen_lines(
    screens: Seq<ScreenInfo>,
    slots: Seq<SlotStatus>,
    n: int,
) -> Seq<Line> {
    Seq::new(n as nat, |i: int| Line::Label(screen_text(screens[i], slots)))
}

/// The part of the menu that says how things stand.
pub open spec fn state_lines(snap: Snapshot, wireless: bool) -> Seq<Line> {
    match snap {
        Snapshot::NoDongle => seq![Line::Label("No dongle connected"@)],
        Snapshot::NeedsPermission => seq![Line::Label("Waiting for Accessibility access"@)],
        Snapshot::Ready { focus, screens, slots } => seq![
            Line::Label(
                if focus == 0 {
                    "Pointer here"@
                } else {
                    "Pointer on "@ + name_of(screens@, focus)
                },
            ),
            Line::Label(
                if wireless {
                    "Connected over Bluetooth"@
                } else {
                    "Connected by cable"@
                },
            ),
        ] + if screens@.len() == 0 {
            Seq::empty()
        } else {
            seq![Line::Separator] + screen_lines(screens@, slots@, screens@.len() as int)
        },
    }
}

/// The part of the menu that does things. Pairing is offered only over the
/// cable: the dongle refuses to change it over the wireless link, because
/// authorising a device that can type on every machine here should take
/// physical access.
pub open spec fn action_lines(ready: bool, wireless: bool, login: bool) -> Seq<Line> {
    seq![
        Line::Separator,
        Line::Item { action: Action::Settings, text: "Settings…"@, enabled: ready },
        Line::Item {
            action: Action::Pair,
            text: if wireless {
                "Pair a wireless controller (needs the cable)"@
            } else {
                "Pair a wireless controller…"@
            },
            enabled: ready && !wireless,
        },
        Line::Check { action: Action::Login, text: "Open at Login"@, checked: login },
        Line::Separator,
        Line::Item { action: Action::Quit, text: "Quit scurry"@, enabled: true },
    ]
}

fn connected(slots: &Vec<SlotStatus>, node: u8) -> (r: bool)
    ensures
        r == is_connected(slots@, node),
{
    let n: usize = slots.len();
    let mut i: usize = 0;
    while i < n
        invariant
            i <= n == slots@.len(),
            forall|k: int|
                0 <= k < i ==> !((#[trigger] slots@[k]).slot + 1 == node && slots@[k].connected),
        decreases n - i,
    {
        if slots[i].slot as u16 + 1 == node as u16 && slots[i].connected {
            return true;
        }
        i = i + 1;
    }
    false
}

fn describe(s: &ScreenInfo, slots: &Vec<SlotStatus>) -> (r: String)
    ensures
        r@ == screen_text(*s, slots@),
{
    let mut t: String = s.name.clone();
    t.append("  ·  ");
    push_signed(&mut t, s.width as i64);
    t.append("×");
    push_signed(&mut t, s.height as i64);
    t.append("  ·  ");
    if s.node == 0 {
        t.append("this machine");
    } else if connected(slots, s.node) {
        t.append("connected");
    } else {
        t.append("offline");
    }
    t
}

/// Build the menu.
pub fn build_menu(snap: &Snapshot, wireless: bool, login: bool) -> (menu: Vec<Entry>)
    ensures
        lines(menu@) == state_lines(*snap, wireless) + action_lines(
            *snap is Ready,
            wireless,
            login,
        ),
{
    let mut menu: Vec<Entry> = Vec::new();
    let mut ready: bool = false;
    match snap {
        Snapshot::NoDongle => {
            menu.push(Entry::Label(String::from_str("No dongle connected")));
        },
        Snapshot::NeedsPermission => {
            menu.push(Entry::Label(String::from_str("Waiting for Accessibility access")));
        },
        Snapshot::Ready { focus, screens, slots } => {
            ready = true;
            let pointer: String = if *focus == 0 {
                String::from_str("Pointer here")
            } else {
                let mut t = String::from_str("Pointer on ");
                t.append(node_name(screens, *focus).as_str());
                t
            };
            menu.push(Entry::Label(pointer));
            menu.push(
                Entry::Label(
                    String::from_str(
                        if wireless {
                            "Connected over Bluetooth"
                        } else {
                            "Connected by cable"
                        },
                    ),
                ),
            );
            if screens.len() > 0 {
                menu.push(Entry::Separator);
                let ghost head = lines(menu@);
                let mut i: usize = 0;
                assert(lines(menu@) =~= head + screen_lines(screens@, slots@, 0));
                while i < screens.len()
                    invariant
                        i <= screens@.len(),
                        lines(menu@) == head + screen_lines(screens@, slots@, i as int),
                    decreases screens.len() - i,
                {
                    let ghost before = lines(menu@);
                    menu.push(Entry::Label(describe(&screens[i], slots)));
                    assert(lines(menu@) =~= before.push(
                        Line::Label(screen_text(screens@[i as int], slots@)),
                    ));
                    assert(lines(menu@) =~= head + screen_lines(screens@, slots@, i + 1));
                    i = i + 1;
                }
            }
        },
    }
    assert(lines(menu@) =~= state_lines(*snap, wireless));
    menu.push(Entry::Separator);
    menu.push(
        Entry::Item {
            action: Action::Settings,
            text: String::from_str("Settings…"),
            enabled: ready,
        },
    );
    menu.push(
        Entry::Item {
            action: Action::Pair,
            text: String::from_str(
                if wireless {
                    "Pair a wireless controller (needs the cable)"
                } else {
                    "Pair a wireless controller…"
                },
            ),
            enabled: ready && !wireless,
        },
    );
    menu.push(
        Entry::Check {
            action: Action::Login,
            text: String::from_str("Open at Login"),
            checked: login,
        },
    );
    menu.push(Entry::Separator);
    menu.push(
        Entry::Item {
            action: Action::Quit,
            text: String::from_str("Quit scurry"),
            enabled: true,
        },
    );
    assert(lines(menu@) =~= state_lines(*snap, wireless) + action_lines(ready, wireless, login));
    menu
}

/// The snapshot that the menu shows.
pub open spec fn shown_of(
    linked: bool,
    link_failed: bool,
    trusted: bool,
    polled: Snapshot,
) -> Snapshot {
    if !linked || link_failed {
        Snapshot::NoDongle
    } else if !trusted {
        Snapshot::NeedsPermission
    } else {
        polled
    }
}

/// Which of the snapshots the menu shows. A dead link reads as no dongle: the
/// poller cannot tell the difference on its own, and would go on saying that
/// the pointer is here on a machine that is no longer connected to anything.
pub fn shown(linked: bool, link_failed: bool, trusted: bool, polled: Snapshot) -> (r: Snapshot)
    ensures
        r == shown_of(linked, link_failed, trusted, polled),
{
    if !linked || link_failed {
        Snapshot::NoDongle
    } else if !trusted {
        Snapshot::NeedsPermission
    } else {
        polled
    }
}

/// The two screens are shown alike.
pub open spec fn same_screen(a: ScreenInfo, b: ScreenInfo) -> bool {
    a.name@ == b.name@ && a.node == b.node && a.width == b.width && a.height == b.height
}

/// The two snapshots say the same.
pub open spec fn same_snapshot(a: Snapshot, b: Snapshot) -> bool {
    match (a, b) {
        (Snapshot::NoDongle, Snapshot::NoDongle) => true,
        (Snapshot::NeedsPermission, Snapshot::NeedsPermission) => true,
        (
            Snapshot::Ready { focus, screens, slots },
            Snapshot::Ready { focus: f, screens: s, slots: l },
        ) => {
            &&& focus == f
            &&& screens@.len() == s@.len()
            &&& forall|i: int| 0 <= i < s@.len() ==> same_screen(screens@[i], #[trigger] s@[i])
            &&& slots@ == l@
        },
        _ => false,
    }
}

fn same_screens(a: &Vec<ScreenInfo>, b: &Vec<ScreenInfo>) -> (r: bool)
    ensures
        r == (a@.len() == b@.len() && forall|i: int|
            0 <= i < b@.len() ==> same_screen(a@[i], #[trigger] b@[i])),
{
    if a.len() != b.len() {
        return false;
    }
    let n: usize = a.len();
    let mut i: usize = 0;
    while i < n
        invariant
            i <= n == a@.len(),
            n == b@.len(),
            forall|k: int| 0 <= k < i ==> same_screen(a@[k], #[trigger] b@[k]),
        decreases n - i,
    {
        let (x, y): (&ScreenInfo, &ScreenInfo) = (&a[i], &b[i]);
        if !same_text(x.name.as_str(), y.name.as_str()) || x.node != y.node || x.width != y.width
            || x.height != y.height {
            assert(!same_screen(a@[i as int], b@[i as int]));
            return false;
        }
        i = i + 1;
    }
    true
}

fn same_slots(a: &Vec<SlotStatus>, b: &Vec<SlotStatus>) -> (r: bool)
    ensures
        r == (a@ == b@),
{
    if a.len() != b.len() {
        return false;
    }
    let n: usize = a.len();
    let mut i: usize = 0;
    while i < n
        invariant
            i <= n == a@.len(),
            n == b@.len(),
            forall|k: int| 0 <= k < i ==> a@[k] == b@[k],
        decreases n - i,
    {
        let (x, y): (&SlotStatus, &SlotStatus) = (&a[i], &b[i]);
        if x.slot != y.slot || x.connected != y.connected || !same_six(&x.bda, &y.bda) {
            assert(a@[i as int] != b@[i as int]);
            return false;
        }
        i = i + 1;
    }
    assert(a@ =~= b@);
    true
}

/// Whether two snapshots say the same. Replacing a menu dismisses it if the
/// user has it open, so it is rebuilt only when something a person would see
/// has actually changed.
pub fn says_the_same(a: &Snapshot, b: &Snapshot) -> (r: bool)
    ensures
        r == same_snapshot(*a, *b),
{
    match (a, b) {
        (Snapshot::NoDongle, Snapshot::NoDongle) => true,
        (Snapshot::NeedsPermission, Snapshot::NeedsPermission) => true,
        (
            Snapshot::Ready { focus, screens, slots },
            Snapshot::Ready { focus: f, screens: s, slots: l },
        ) => *focus == *f && same_screens(screens, s) && same_slots(slots, l),
        _ => false,
    }
}

/// Menus of snapshots that say the same are the same.
pub proof fn law_same_snapshots_give_the_same_menu(a: Snapshot, b: Snapshot, wireless: bool)
    requires
        same_snapshot(a, b),
    ensures
        state_lines(a, wireless) == state_lines(b, wireless),
        a is Ready == b is Ready,
{
    match (a, b) {
        (
            Snapshot::Ready { focus, screens, slots },
            Snapshot::Ready { focus: f, screens: s, slots: l },
        ) => {
            lemma_same_name(screens@, s@, focus, 0);
            assert(screen_lines(screens@, slots@, screens@.len() as int) =~= screen_lines(
                s@,
                l@,
                s@.len() as int,
            )) by {
                assert forall|i: int| 0 <= i < s@.len() implies screen_text(screens@[i], slots@)
                    == screen_text(s@[i], l@) by {
                    assert(same_screen(screens@[i], s@[i]));
                }
            }
        },
        _ => {},
    }
}

proof fn lemma_same_name(a: Seq<ScreenInfo>, b: Seq<ScreenInfo>, node: u8, i: int)
    requires
        a.len() == b.len(),
        0 <= i <= a.len(),
        forall|k: int| 0 <= k < b.len() ==> same_screen(a[k], #[trigger] b[k]),
    ensures
        crate::tray::status::screen_from(a, node, i) == crate::tray::status::screen_from(
            b,
            node,
            i,
        ),
        i == 0 ==> name_of(a, node) == name_of(b, node),
    decreases a.len() - i,
{
    if i < a.len() {
        assert(same_screen(a[i], b[i]));
        lemma_same_name(a, b, node, i + 1);
    }
    if i == 0 {
        let k = crate::tray::status::screen_from(a, node, 0);
        lemma_screen_from(a, node, 0);
        if k < a.len() {
            assert(same_screen(a[k], b[k]));
        }
    }
}

proof fn lemma_screen_from(a: Seq<ScreenInfo>, node: u8, i: int)
    requires
        0 <= i <= a.len(),
    ensures
        i <= crate::tray::status::screen_from(a, node, i) <= a.len(),
    decreases a.len() - i,
{
    if i < a.len() {
        lemma_screen_from(a, node, i + 1);
    }
}

/// How long the pairing window stays open, in seconds.
pub const PAIR_SECS: u8 = 60;

/// The payload that asks the dongle to accept a wireless controller for a
/// while.
pub fn pairing_request() -> (r: [u8; 2])
    ensures
        r@ == seq![wireless_op::PAIR, PAIR_SECS],
{
    let r: [u8; 2] = [wireless_op::PAIR, PAIR_SECS];
    assert(r@ =~= seq![wireless_op::PAIR, PAIR_SECS]);
    r
}

/// What is said of the dongle's answer to that.
pub fn pairing_outcome(payload: &[u8]) -> (r: String)
    ensures
        r@ == if payload@.len() > 0 && payload@[0] == ack::OK {
            "pairing window open for 60s -- start a controller with --wireless now"@
        } else {
            "the dongle refused to open the window: "@ + ack_meaning(payload@)
        },
{
    if payload.len() > 0 && payload[0] == ack::OK {
        return String::from_str(
            "pairing window open for 60s -- start a controller with --wireless now",
        );
    }
    let mut s = String::from_str("the dongle refused to open the window: ");
    s.append(ack_message(payload).as_str());
    s
}

/// Pairing a controller is never offered over the air.
pub proof fn law_pairing_takes_the_cable(ready: bool, wireless: bool, login: bool)
    ensures
        action_lines(ready, wireless, login)[2] matches Line::Item { action, enabled, .. }
            && action == Action::Pair && (enabled ==> ready && !wireless),
{
}

/// A machine is said to be connected where a slot whose number is one below its
/// node is, and offline where none is; the node 0 is this machine.
pub proof fn law_what_is_said_of_a_machine(slots: Seq<SlotStatus>, node: u8, i: int)
    ensures
        mark(slots, 0) == "this machine"@,
        node > 0 && 0 <= i < slots.len() && slots[i].slot == node - 1 && slots[i].connected ==> mark(
            slots,
            node,
        ) == "connected"@,
        node > 0 && (forall|k: int|
            0 <= k < slots.len() ==> !((#[trigger] slots[k]).slot == node - 1
                && slots[k].connected)) ==> mark(slots, node) == "offline"@,
{
}

/// The menu says where the pointer is and over what the dongle is reached, and
/// then has a line for every screen, in order, that gives its name, its size and
/// whether its machine is there.
pub proof fn law_what_the_menu_says(snap: Snapshot, wireless: bool, i: int)
    ensures
        snap matches Snapshot::Ready { focus, screens, slots } ==> {
            let lines = state_lines(snap, wireless);
            &&& screens@.len() == 0 ==> lines.len() == 2
            &&& screens@.len() > 0 ==> lines.len() == 3 + screens@.len()
            &&& focus == 0 ==> lines[0] == Line::Label("Pointer here"@)
            &&& focus != 0 ==> lines[0] == Line::Label("Pointer on "@ + name_of(screens@, focus))
            &&& wireless ==> lines[1] == Line::Label("Connected over Bluetooth"@)
            &&& !wireless ==> lines[1] == Line::Label("Connected by cable"@)
            &&& 0 <= i < screens@.len() ==> lines[3 + i] == Line::Label(
                screens@[i].name@ + "  ·  "@ + signed(screens@[i].width as int) + "×"@ + signed(
                    screens@[i].height as int,
                ) + "  ·  "@ + mark(slots@, screens@[i].node),
            )
        },
        snap is NoDongle ==> state_lines(snap, wireless) == seq![
            Line::Label("No dongle connected"@),
        ],
        snap is NeedsPermission ==> state_lines(snap, wireless) == seq![
            Line::Label("Waiting for Accessibility access"@),
        ],
{
}

/// What can be done from the menu, and when: settings need a dongle, pairing
/// needs one on the cable, opening at login is ticked where it is on, and
/// quitting is always possible. There is one entry for each.
pub proof fn law_what_can_be_done(ready: bool, wireless: bool, login: bool, i: int)
    requires
        0 <= i < action_lines(ready, wireless, login).len(),
    ensures
        match action_lines(ready, wireless, login)[i] {
            Line::Item { action: Action::Settings, text, enabled } => i == 1 && enabled == ready,
            Line::Item { action: Action::Pair, text, enabled } => i == 2 && enabled == (ready
                && !wireless),
            Line::Check { action: Action::Login, text, checked } => i == 3 && checked == login,
            Line::Item { action: Action::Quit, text, enabled } => i == 5 && enabled,
            Line::Separator => i == 0 || i == 4,
            _ => false,
        },
        action_lines(ready, wireless, login).len() == 6,
{
}

/// Asking for the pairing window is asking for a minute of it.
pub proof fn law_the_pairing_window_is_a_minute()
    ensures
        PAIR_SECS == 60,
        wireless_op::PAIR == 1,
{
}

/// What was polled is shown only over a link that is held and works, to an app
/// that may capture. A link that is missing or broken is told of before a
/// permission that is.
pub proof fn law_what_was_polled_is_shown(
    linked: bool,
    link_failed: bool,
    trusted: bool,
    polled: Snapshot,
)
    requires
        polled is Ready,
    ensures
        shown_of(linked, link_failed, trusted, polled) is Ready <==> linked && !link_failed
            && trusted,
        shown_of(linked, link_failed, trusted, polled) is Ready ==> shown_of(
            linked,
            link_failed,
            trusted,
            polled,
        ) == polled,
        shown_of(linked, link_failed, trusted, polled) is NeedsPermission <==> linked
            && !link_failed && !trusted,
{
}

} // verus!
