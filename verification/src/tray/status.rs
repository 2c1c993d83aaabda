//! What the tray knows about the daemon and the dongle.

use vstd::prelude::*;

use crate::config::{Config, ConfigError, ScreenConfig};
use crate::ipc::local;
use crate::proto::ack;
use crate::proto::config_wire::screens_in;
use crate::proto::kind;
use crate::proto::screen::ScreenWire;
use crate::proto::slot::{read_slots, slots_in, SlotStatus};
use crate::text::{decimal, hex_byte, padded_text, push_decimal, push_hex_byte};

verus! {

/// What the tray shows of a machine.
#[derive(Debug)]
pub struct Status {
    /// False when the daemon is not running, which is the common case and not
    /// an error worth shouting about.
    pub daemon_running: bool,
    /// Node currently holding the pointer; 0 is this machine.
    pub focus: u8,
    pub slots: Vec<SlotStatus>,
    pub screens: Vec<ScreenInfo>,
}

impl Default for Status {
    fn default() -> (r: Self)
        ensures
            !r.daemon_running,
            r.focus == 0,
            r.slots@ == Seq::<SlotStatus>::empty(),
            r.screens@ == Seq::<ScreenInfo>::empty(),
    {
        Status { daemon_running: false, focus: 0, slots: Vec::new(), screens: Vec::new() }
    }
}

/// One screen of the layout.
#[derive(Debug, Clone)]
pub struct ScreenInfo {
    pub name: String,
    pub node: u8,
    pub width: i32,
    pub height: i32,
}

impl ScreenInfo {
    /// This is what the tray shows of the screen.
    pub open spec fn shows(self, w: ScreenWire) -> bool {
        &&& self.name@ == padded_text(w.name@)
        &&& self.node == w.node
        &&& self.width == w.width
        &&& self.height == w.height
    }
}

/// What the daemon answered: the kind and the payload of each reply, where
/// there was one.
#[derive(Debug)]
pub struct Replies {
    pub daemon: Option<(u8, Vec<u8>)>,
    pub status: Option<(u8, Vec<u8>)>,
    pub config: Option<(u8, Vec<u8>)>,
}

/// The payload of a reply of the kind that was asked for.
pub open spec fn answer(reply: Option<(u8, Vec<u8>)>, want: u8) -> Option<Seq<u8>> {
    match reply {
        Some((k, p)) => if k == want {
            Some(p@)
        } else {
            None
        },
        None => None,
    }
}

/// The first screen from `i` on of this node; their number where there is none.
pub open spec fn screen_from(screens: Seq<ScreenInfo>, node: u8, i: int) -> int
    decreases screens.len() - i,
{
    if i >= screens.len() || screens[i].node == node {
        i
    } else {
        screen_from(screens, node, i + 1)
    }
}

/// The name of a node, falling back to the id where the layout has no entry.
pub open spec fn name_of(screens: Seq<ScreenInfo>, node: u8) -> Seq<char> {
    let i = screen_from(screens, node, 0);
    if i < screens.len() {
        screens[i].name@
    } else {
        "node "@ + decimal(node as int)
    }
}

/// Name for a node id, falling back to the id when the layout has no entry.
pub fn node_name(screens: &Vec<ScreenInfo>, node: u8) -> (r: String)
    ensures
        r@ == name_of(screens@, node),
{
    let n: usize = screens.len();
    let mut i: usize = 0;
    while i < n
        invariant
            i <= n == screens@.len(),
            screen_from(screens@, node, 0) == screen_from(screens@, node, i as int),
        decreases n - i,
    {
        if screens[i].node == node {
            return screens[i].name.clone();
        }
        i = i + 1;
    }
    let mut s = String::from_str("node ");
    push_decimal(&mut s, node as u64);
    s
}

impl Status {
    /// Everything the menu needs, from what the daemon answered. Nothing at all
    /// where there was no daemon to ask: the tray is expected to sit there
    /// quietly until one starts. A reply of another kind, or a layout that
    /// cannot be read, leaves that part empty.
    pub fn fetch(replies: Option<&Replies>) -> (r: Status)
        ensures
            match replies {
                None => {
                    &&& !r.daemon_running
                    &&& r.focus == 0
                    &&& r.slots@.len() == 0
                    &&& r.screens@.len() == 0
                },
                Some(a) => {
                    &&& r.daemon_running
                    &&& r.focus == match answer(a.daemon, local::DAEMON_STATUS) {
                        Some(p) => if p.len() > 0 {
                            p[0]
                        } else {
                            0
                        },
                        None => 0,
                    }
                    &&& r.slots@ == match answer(a.status, kind::STATUS) {
                        Some(p) => slots_in(p),
                        None => Seq::empty(),
                    }
                    &&& match answer(a.config, kind::CONFIG) {
                        Some(p) => if Config::payload_fault(p) is None {
                            &&& r.screens@.len() == p[0]
                            &&& forall|i: int|
                                0 <= i < p[0] ==> (#[trigger] r.screens@[i]).shows(screens_in(p)[i])
                        } else {
                            r.screens@.len() == 0
                        },
                        None => r.screens@.len() == 0,
                    }
                },
            },
    {
        let mut s: Status = Status::default();
        let a: &Replies = match replies {
            Some(a) => a,
            None => return s,
        };
        s.daemon_running = true;
        match &a.daemon {
            Some((k, p)) => if *k == local::DAEMON_STATUS && p.len() > 0 {
                s.focus = p[0];
            },
            None => {},
        }
        match &a.status {
            Some((k, p)) => if *k == kind::STATUS {
                s.slots = read_slots(p.as_slice());
            },
            None => {},
        }
        match &a.config {
            Some((k, p)) => if *k == kind::CONFIG {
                match Config::from_payload(p.as_slice()) {
                    Ok(cfg) => {
                        s.screens = infos(&cfg.screens);
                        proof {
                            assert forall|i: int| 0 <= i < p@[0] implies (
                            #[trigger] s.screens@[i]).shows(screens_in(p@)[i]) by {
                                assert(cfg.screens@[i].writes(screens_in(p@)[i]));
                            }
                        }
                    },
                    Err(_) => {},
                }
            },
            None => {},
        }
        s
    }

    /// Name for a node id, falling back to the id when the layout has no entry.
    pub fn screen_name(&self, node: u8) -> (r: String)
        ensures
            r@ == name_of(self.screens@, node),
    {
        node_name(&self.screens, node)
    }
}

fn infos(screens: &Vec<ScreenConfig>) -> (r: Vec<ScreenInfo>)
    ensures
        r@.len() == screens@.len(),
        forall|i: int|
            0 <= i < r@.len() ==> (#[trigger] r@[i]).name@ == screens@[i].name@ && r@[i].node
                == screens@[i].node && r@[i].width == screens@[i].width && r@[i].height
                == screens@[i].height,
{
    let mut out: Vec<ScreenInfo> = Vec::new();
    let n: usize = screens.len();
    let mut i: usize = 0;
    while i < n
        invariant
            i <= n == screens@.len(),
            out@.len() == i,
            forall|k: int|
                0 <= k < i ==> (#[trigger] out@[k]).name@ == screens@[k].name@ && out@[k].node
                    == screens@[k].node && out@[k].width == screens@[k].width && out@[k].height
                    == screens@[k].height,
        decreases n - i,
    {
        let sc: &ScreenConfig = &screens[i];
        out.push(
            ScreenInfo {
                name: sc.name.clone(),
                node: sc.node,
                width: sc.width,
                height: sc.height,
            },
        );
        i = i + 1;
    }
    out
}

/// Why a layout could not be read or written.
#[derive(Debug)]
pub enum StoreError {
    /// A reply of this kind to a request for the layout.
    UnexpectedRead(u8),
    /// A reply of this kind to a layout write.
    UnexpectedWrite(u8),
    /// The layout cannot be read.
    Unreadable(ConfigError),
    /// The dongle rejected the layout.
    Invalid,
    /// The dongle could not store it.
    NotStored,
    /// The dongle refused the request for another reason.
    Refused,
}

impl StoreError {
    /// What the error says.
    pub open spec fn text(self) -> Seq<char> {
        match self {
            StoreError::UnexpectedRead(k) => "unexpected reply 0x"@ + hex_byte(k)
                + " to a config request"@,
            StoreError::UnexpectedWrite(k) => "unexpected reply 0x"@ + hex_byte(k)
                + " to a config write"@,
            StoreError::Unreadable(e) => e@.text(),
            StoreError::Invalid => "the dongle rejected the layout"@,
            StoreError::NotStored => "the dongle could not store the layout"@,
            StoreError::Refused => "the dongle refused the request"@,
        }
    }

    /// The error in words.
    pub fn message(&self) -> (r: String)
        ensures
            r@ == self.text(),
    {
        match self {
            StoreError::UnexpectedRead(k) => {
                let mut s = String::from_str("unexpected reply 0x");
                push_hex_byte(&mut s, *k);
                s.append(" to a config request");
                s
            },
            StoreError::UnexpectedWrite(k) => {
                let mut s = String::from_str("unexpected reply 0x");
                push_hex_byte(&mut s, *k);
                s.append(" to a config write");
                s
            },
            StoreError::Unreadable(e) => e.message(),
            StoreError::Invalid => String::from_str("the dongle rejected the layout"),
            StoreError::NotStored => String::from_str("the dongle could not store the layout"),
            StoreError::Refused => String::from_str("the dongle refused the request"),
        }
    }
}

/// Read the layout off the reply to a GET_CONFIG request, for the settings
/// pane.
pub fn load_config(kind: u8, payload: &[u8]) -> (r: Result<Config, StoreError>)
    ensures
        match r {
            Ok(cfg) => {
                &&& kind == kind::CONFIG
                &&& Config::payload_fault(payload@) is None
                &&& cfg.screens@.len() == payload@[0]
                &&& forall|i: int|
                    0 <= i < payload@[0] ==> (#[trigger] cfg.screens@[i]).writes(
                        screens_in(payload@)[i],
                    )
            },
            Err(StoreError::UnexpectedRead(k)) => kind != kind::CONFIG && k == kind,
            Err(StoreError::Unreadable(e)) => kind == kind::CONFIG && Config::payload_fault(
                payload@,
            ) == Some(e@),
            Err(_) => false,
        },
{
    if kind != kind::CONFIG {
        return Err(StoreError::UnexpectedRead(kind));
    }
    match Config::from_payload(payload) {
        Ok(cfg) => Ok(cfg),
        Err(e) => Err(StoreError::Unreadable(e)),
    }
}

/// What the reply to a layout write says of it.
pub open spec fn stored_by(kind: u8, payload: Seq<u8>) -> Result<(), StoreError> {
    if kind != kind::ACK {
        Err::<(), StoreError>(StoreError::UnexpectedWrite(kind))
    } else if payload.len() > 0 && payload[0] == ack::OK {
        Ok(())
    } else if payload.len() > 0 && payload[0] == ack::INVALID_LAYOUT {
        Err(StoreError::Invalid)
    } else if payload.len() > 0 && payload[0] == ack::STORAGE_FAILED {
        Err(StoreError::NotStored)
    } else {
        Err(StoreError::Refused)
    }
}

/// Whether a layout was stored, from the reply to a SET_CONFIG request. An
/// empty acknowledgement is a refusal.
pub fn save_config(kind: u8, payload: &[u8]) -> (r: Result<(), StoreError>)
    ensures
        r == stored_by(kind, payload@),
{
    if kind != kind::ACK {
        return Err(StoreError::UnexpectedWrite(kind));
    }
    let code: u8 = if payload.len() > 0 {
        payload[0]
    } else {
        ack::BAD_REQUEST
    };
    if code == ack::OK {
        Ok(())
    } else if code == ack::INVALID_LAYOUT {
        Err(StoreError::Invalid)
    } else if code == ack::STORAGE_FAILED {
        Err(StoreError::NotStored)
    } else {
        Err(StoreError::Refused)
    }
}

/// A node goes by the name of the first screen that it has, and one that has
/// none by its number.
pub proof fn law_what_a_node_is_called(screens: Seq<ScreenInfo>, node: u8, i: int)
    requires
        0 <= i <= screens.len(),
        forall|k: int| 0 <= k < i ==> (#[trigger] screens[k]).node != node,
    ensures
        i < screens.len() && screens[i].node == node ==> name_of(screens, node) == screens[i].name@,
        i == screens.len() ==> name_of(screens, node) == "node "@ + decimal(node as int),
{
    lemma_screen_is(screens, node, 0, i);
}

proof fn lemma_screen_is(screens: Seq<ScreenInfo>, node: u8, i: int, n: int)
    requires
        0 <= i <= n <= screens.len(),
        forall|k: int| i <= k < n ==> (#[trigger] screens[k]).node != node,
    ensures
        screen_from(screens, node, i) == screen_from(screens, node, n),
    decreases n - i,
{
    if i < n {
        assert(screens[i].node != node);
        lemma_screen_is(screens, node, i + 1, n);
    }
}

/// A reply counts where it is of the kind that was asked for, and then whole.
pub proof fn law_only_the_kind_asked_for_counts(kind: u8, payload: Vec<u8>, want: u8)
    ensures
        answer(Some((kind, payload)), want) is Some <==> kind == want,
        answer(Some((kind, payload)), want) matches Some(p) ==> p == payload@,
        answer(None, want) is None,
{
}

/// A layout is stored exactly where an acknowledgement says zero. Two says that
/// the layout is invalid and three that it could not be stored; anything else
/// refuses, and so does an empty acknowledgement. No other kind of reply tells
/// anything.
pub proof fn law_when_a_layout_is_stored(kind: u8, payload: Seq<u8>)
    ensures
        stored_by(kind, payload) is Ok <==> kind == 0x15 && payload.len() > 0 && payload[0] == 0,
        kind != 0x15 <==> stored_by(kind, payload) == Err::<(), StoreError>(
            StoreError::UnexpectedWrite(kind),
        ),
        stored_by(kind, payload) == Err::<(), StoreError>(StoreError::Invalid) <==> kind == 0x15
            && payload.len() > 0 && payload[0] == 2,
        stored_by(kind, payload) == Err::<(), StoreError>(StoreError::NotStored) <==> kind == 0x15
            && payload.len() > 0 && payload[0] == 3,
{
}

} // verus!
