//! The command line: what a command asks of the dongle, and what it says about
//! the answer.
//!
//! All configuration lives on the dongle. Nothing is stored locally, so a layout
//! survives moving to another controller machine.

use vstd::prelude::*;

use crate::config::{bda_text, format_bda};
use crate::ipc::{ack_meaning, ack_message};
use crate::proto::ack;
use crate::proto::kind;
use crate::proto::mouse::MouseState;
use crate::proto::ota::FirmwareInfo;
use crate::proto::screen::no_address;
use crate::proto::slot::{read_slots, slots_in, SlotStatus};
use crate::provision::is_worth_probing;
use crate::text::{
    decimal, hex_byte, padded_right, padded_text, push_decimal, push_hex_byte, push_padded,
    same_text,
};
use crate::transport::frame::Message;
use crate::transport::log::views;
use crate::transport::serial::{is_candidate, is_tty_twin};
use crate::update::release::Release;
use crate::update::version::{is_newer, later, parts_of};

verus! {

/// What can be asked for.
#[derive(Debug)]
pub enum Command {
    /// Capture local input and forward it to the dongle.
    Run,
    /// List serial ports and identify the dongle.
    Probe,
    /// Show the dongle's bonded targets.
    Status,
    /// Print the layout stored on the dongle.
    GetConfig,
    /// Store the layout in this file on the dongle.
    SetConfig(String),
    /// Check the link.
    Ping,
    /// Drive synthetic motion, printing everything the dongle says.
    TestMove,
    /// Say what the dongle runs, and what the latest release is.
    Firmware,
    /// Install the image in this file, or else the latest release.
    Flash(Option<String>),
}

/// What was asked for, and over which link.
#[derive(Debug)]
pub struct Invocation {
    /// Reach the dongle over the air.
    pub wireless: bool,
    pub command: Command,
}

/// The arguments without the flag that may stand anywhere among them.
pub open spec fn without_flag(args: Seq<Seq<char>>) -> Seq<Seq<char>>
    decreases args.len(),
{
    if args.len() == 0 {
        Seq::empty()
    } else if args.last() == "--wireless"@ {
        without_flag(args.drop_last())
    } else {
        without_flag(args.drop_last()).push(args.last())
    }
}

/// The arguments ask for this; where they ask for nothing known, for nothing.
pub open spec fn asks(args: Seq<Seq<char>>, c: Option<Command>) -> bool {
    if args.len() == 0 {
        c is None
    } else if args[0] == "run"@ {
        c matches Some(Command::Run)
    } else if args[0] == "probe"@ {
        c matches Some(Command::Probe)
    } else if args[0] == "status"@ {
        c matches Some(Command::Status)
    } else if args[0] == "get-config"@ {
        c matches Some(Command::GetConfig)
    } else if args[0] == "set-config"@ {
        if args.len() < 2 {
            c is None
        } else {
            c matches Some(Command::SetConfig(f)) && f@ == args[1]
        }
    } else if args[0] == "ping"@ {
        c matches Some(Command::Ping)
    } else if args[0] == "test-move"@ {
        c matches Some(Command::TestMove)
    } else if args[0] == "firmware"@ {
        c matches Some(Command::Firmware)
    } else if args[0] == "flash"@ {
        if args.len() == 1 {
            c matches Some(Command::Flash(None))
        } else if args.len() >= 3 && args[1] == "--file"@ {
            c matches Some(Command::Flash(Some(f))) && f@ == args[2]
        } else {
            c is None
        }
    } else {
        c is None
    }
}

fn parse_command(args: &Vec<String>) -> (r: Option<Command>)
    ensures
        asks(views(args@), r),
{
    if args.len() == 0 {
        return None;
    }
    let first: &str = args[0].as_str();
    assert(views(args@)[0] == first@);
    if same_text(first, "run") {
        Some(Command::Run)
    } else if same_text(first, "probe") {
        Some(Command::Probe)
    } else if same_text(first, "status") {
        Some(Command::Status)
    } else if same_text(first, "get-config") {
        Some(Command::GetConfig)
    } else if same_text(first, "set-config") {
        if args.len() < 2 {
            None
        } else {
            assert(views(args@)[1] == args@[1]@);
            Some(Command::SetConfig(args[1].clone()))
        }
    } else if same_text(first, "ping") {
        Some(Command::Ping)
    } else if same_text(first, "test-move") {
        Some(Command::TestMove)
    } else if same_text(first, "firmware") {
        Some(Command::Firmware)
    } else if same_text(first, "flash") {
        if args.len() == 1 {
            return Some(Command::Flash(None));
        }
        assert(views(args@)[1] == args@[1]@);
        if args.len() >= 3 && same_text(args[1].as_str(), "--file") {
            assert(views(args@)[2] == args@[2]@);
            return Some(Command::Flash(Some(args[2].clone())));
        }
        None
    } else {
        None
    }
}

/// Read the arguments.
pub fn parse_args(args: &Vec<String>) -> (r: Option<Invocation>)
    ensures
        asks(
            without_flag(views(args@)),
            match r {
                Some(i) => Some(i.command),
                None => None,
            },
        ),
        r matches Some(i) ==> i.wireless == views(args@).contains("--wireless"@),
{
    let ghost all = views(args@);
    let n: usize = args.len();
    let mut rest: Vec<String> = Vec::new();
    let mut wireless: bool = false;
    let mut i: usize = 0;
    assert(views(rest@) =~= without_flag(all.take(0)));
    while i < n
        invariant
            i <= n == args@.len(),
            all == views(args@),
            views(rest@) == without_flag(all.take(i as int)),
            wireless == exists|k: int| 0 <= k < i && #[trigger] all[k] == "--wireless"@,
        decreases n - i,
    {
        let ghost before = views(rest@);
        let arg: &String = &args[i];
        assert(all[i as int] == arg@);
        assert(all.take(i + 1).drop_last() =~= all.take(i as int));
        assert(all.take(i + 1).last() == arg@);
        if same_text(arg.as_str(), "--wireless") {
            wireless = true;
        } else {
            rest.push(arg.clone());
            assert(views(rest@) =~= before.push(arg@));
        }
        i = i + 1;
    }
    assert(all.take(n as int) =~= all);
    assert(wireless == all.contains("--wireless"@)) by {
        if all.contains("--wireless"@) {
            let k = choose|k: int| 0 <= k < all.len() && all[k] == "--wireless"@;
            assert(all[k] == "--wireless"@);
        }
    }
    match parse_command(&rest) {
        Some(command) => Some(Invocation { wireless, command }),
        None => None,
    }
}

/// A request kind in words.
pub open spec fn request_name(kind: u8) -> Seq<char> {
    if kind == kind::GET_CONFIG {
        "request for the layout"@
    } else if kind == kind::SET_CONFIG {
        "layout write"@
    } else if kind == kind::GET_STATUS {
        "status request"@
    } else if kind == kind::PING {
        "ping"@
    } else {
        "request"@
    }
}

/// A request kind in words, for messages a user reads.
pub fn name(kind: u8) -> (r: &'static str)
    ensures
        r@ == request_name(kind),
{
    if kind == kind::GET_CONFIG {
        "request for the layout"
    } else if kind == kind::SET_CONFIG {
        "layout write"
    } else if kind == kind::GET_STATUS {
        "status request"
    } else if kind == kind::PING {
        "ping"
    } else {
        "request"
    }
}

/// Read the app's answer to a request. An acknowledgement where one was not
/// asked for is a refusal, and it is also how the app reports that nothing
/// answered in time; both read as a sentence.
pub fn app_answer(req: u8, want: u8, kind: u8, payload: Vec<u8>) -> (r: Result<Message, String>)
    ensures
        match r {
            Ok(m) => kind == want && m.kind == kind && m.payload == payload,
            Err(e) => kind != want && e@ == if kind == kind::ACK {
                ack_meaning(payload@)
            } else {
                "the app answered a "@ + request_name(req) + " with a 0x"@ + hex_byte(kind)
                    + " message"@
            },
        },
{
    if kind == want {
        return Ok(Message { kind, payload });
    }
    if kind == kind::ACK {
        return Err(ack_message(payload.as_slice()));
    }
    let mut s = String::from_str("the app answered a ");
    s.append(name(req));
    s.append(" with a 0x");
    push_hex_byte(&mut s, kind);
    s.append(" message");
    Err(s)
}

/// What a message from the dongle means for a request that is waiting.
#[derive(Debug)]
pub enum Answer {
    /// It is the answer.
    Done(Message),
    /// The dongle refused, for this reason.
    Refused(String),
    /// It is something else; keep waiting.
    Other,
}

/// Read a message from the dongle while a request is waiting for a reply.
pub fn dongle_answer(want: u8, msg: Message) -> (r: Answer)
    ensures
        match r {
            Answer::Done(m) => msg.kind == want && m == msg,
            Answer::Refused(e) => msg.kind != want && msg.kind == kind::ACK && e@
                == "the dongle refused the request: "@ + ack_meaning(msg.payload@),
            Answer::Other => msg.kind != want && msg.kind != kind::ACK,
        },
{
    if msg.kind == want {
        return Answer::Done(msg);
    }
    if msg.kind == kind::ACK {
        let mut s = String::from_str("the dongle refused the request: ");
        s.append(ack_message(msg.payload.as_slice()).as_str());
        return Answer::Refused(s);
    }
    Answer::Other
}

/// What is said when the dongle did not answer within so many seconds.
pub fn no_answer(req: u8, secs: u64) -> (r: String)
    ensures
        r@ == "the dongle did not answer a "@ + request_name(req) + " within "@ + decimal(
            secs as int,
        ) + "s"@,
{
    let mut s = String::from_str("the dongle did not answer a ");
    s.append(name(req));
    s.append(" within ");
    push_decimal(&mut s, secs);
    s.append("s");
    s
}

/// What is said of a serial port.
pub fn probe_line(port: &str) -> (r: String)
    ensures
        r@ == if is_candidate(port@) && !is_tty_twin(port@) {
            port@ + " <- dongle"@
        } else {
            port@
        },
{
    let mut s = String::from_str(port);
    if is_worth_probing(port) {
        s.append(" <- dongle");
    }
    s
}

/// What is said of a slot. Node ids are one more than the slot's; node 0 is the
/// controller's own screen.
pub open spec fn slot_text(s: SlotStatus) -> Seq<char> {
    padded_right(decimal(s.slot + 1), 6) + " "@ + padded_right(
        if s.connected {
            "yes"@
        } else {
            "no"@
        },
        11,
    ) + " "@ + if s.bda == no_address() {
        "-"@
    } else {
        bda_text(s.bda)
    }
}

fn slot_line(s: &SlotStatus) -> (r: String)
    ensures
        r@ == slot_text(*s),
{
    let mut node = String::new();
    push_decimal(&mut node, s.slot as u64 + 1);
    assert(node@ =~= decimal(s.slot + 1));
    let mut out = String::new();
    push_padded(&mut out, node.as_str(), 6);
    assert(out@ =~= padded_right(decimal(s.slot + 1), 6));
    out.append(" ");
    push_padded(
        &mut out,
        if s.connected {
            "yes"
        } else {
            "no"
        },
        11,
    );
    out.append(" ");
    let none: [u8; 6] = [0; 6];
    assert(none =~= no_address());
    if crate::bytes::same_six(&s.bda, &none) {
        out.append("-");
    } else {
        out.append(format_bda(s.bda).as_str());
    }
    out
}

/// The head of the table of slots. "Connected", not "bonded": this is the
/// dongle's live connection table, and a freshly reset dongle shows nothing
/// here until a host reconnects.
pub open spec fn status_head() -> Seq<char> {
    padded_right("node"@, 6) + " "@ + padded_right("connected"@, 11) + " address"@
}

/// The lines of the table of slots; an error where there is no table.
pub fn status_lines(payload: &[u8]) -> (r: Result<Vec<String>, String>)
    ensures
        match r {
            Ok(out) => {
                let slots = slots_in(payload@);
                &&& payload@.len() > 0
                &&& out@.len() == slots.len() + 1
                &&& out@[0]@ == status_head()
                &&& forall|i: int|
                    0 <= i < slots.len() ==> (#[trigger] out@[i + 1])@ == slot_text(slots[i])
            },
            Err(e) => payload@.len() == 0 && e@ == "empty status payload"@,
        },
{
    if payload.len() == 0 {
        return Err(String::from_str("empty status payload"));
    }
    let slots: Vec<SlotStatus> = read_slots(payload);
    let mut out: Vec<String> = Vec::new();
    let mut head = String::new();
    push_padded(&mut head, "node", 6);
    assert(head@ =~= padded_right("node"@, 6));
    head.append(" ");
    push_padded(&mut head, "connected", 11);
    head.append(" address");
    out.push(head);
    let mut i: usize = 0;
    while i < slots.len()
        invariant
            i <= slots@.len(),
            slots@ == slots_in(payload@),
            out@.len() == i + 1,
            out@[0]@ == status_head(),
            forall|k: int| 0 <= k < i ==> (#[trigger] out@[k + 1])@ == slot_text(slots@[k]),
        decreases slots.len() - i,
    {
        let ghost before = out@;
        out.push(slot_line(&slots[i]));
        proof {
            assert forall|k: int| 0 <= k < i + 1 implies (#[trigger] out@[k + 1])@ == slot_text(
                slots@[k],
            ) by {
                if k < i {
                    assert(out@[k + 1] == before[k + 1]);
                }
            }
        }
        i = i + 1;
    }
    Ok(out)
}

/// Whether a CONFIG payload holds a layout at all.
pub fn has_layout(payload: &[u8]) -> (r: bool)
    ensures
        r == (payload@.len() > 0 && payload@[0] != 0),
{
    payload.len() > 0 && payload[0] != 0
}

/// What is said of a layout write that was acknowledged so.
pub fn stored(payload: &[u8], screens: usize) -> (r: Result<String, String>)
    ensures
        match r {
            Ok(t) => payload@.len() > 0 && payload@[0] == ack::OK && t@ == "stored "@ + decimal(
                screens as int,
            ) + " screens on the dongle"@,
            Err(e) => !(payload@.len() > 0 && payload@[0] == ack::OK) && e@
                == "the layout was not stored: "@ + ack_meaning(payload@),
        },
{
    if payload.len() > 0 && payload[0] == ack::OK {
        let mut s = String::from_str("stored ");
        push_decimal(&mut s, screens as u64);
        s.append(" screens on the dongle");
        Ok(s)
    } else {
        let mut s = String::from_str("the layout was not stored: ");
        s.append(ack_message(payload).as_str());
        Err(s)
    }
}

/// How many steps synthetic motion takes each way.
pub const TEST_STEPS: usize = 160;

/// How far one step of synthetic motion goes.
pub const TEST_STEP: i16 = 12;

/// One step of synthetic motion.
pub fn test_step(right: bool) -> (r: MouseState)
    ensures
        r == (MouseState {
            buttons: 0,
            dx: if right {
                TEST_STEP
            } else {
                (-TEST_STEP) as i16
            },
            dy: 0,
            wheel: 0,
            pan: 0,
        }),
{
    MouseState {
        buttons: 0,
        dx: if right {
            TEST_STEP
        } else {
            -TEST_STEP
        },
        dy: 0,
        wheel: 0,
        pan: 0,
    }
}

/// What is said of a message that arrives during synthetic motion.
pub fn test_line(kind: u8, payload: &[u8]) -> (r: String)
    ensures
        r@ == if kind == kind::FOCUS {
            "FOCUS -> node "@ + decimal(
                if payload@.len() > 0 {
                    payload@[0] as int
                } else {
                    255
                },
            )
        } else {
            "message kind 0x"@ + hex_byte(kind) + ", "@ + decimal(payload@.len() as int)
                + " bytes"@
        },
{
    if kind == kind::FOCUS {
        let mut s = String::from_str("FOCUS -> node ");
        push_decimal(
            &mut s,
            if payload.len() > 0 {
                payload[0] as u64
            } else {
                255
            },
        );
        s
    } else {
        let mut s = String::from_str("message kind 0x");
        push_hex_byte(&mut s, kind);
        s.append(", ");
        push_decimal(&mut s, payload.len() as u64);
        s.append(" bytes");
        s
    }
}

/// What is said of the firmware that the dongle runs.
pub open spec fn running_text(info: FirmwareInfo) -> Seq<char> {
    let running = padded_text(info.version@);
    "Dongle is running "@ + if running.len() == 0 {
        "an unversioned build"@
    } else {
        running
    }
}

/// What is said of the latest release.
pub open spec fn latest_text(latest: Result<Release, String>, running: Seq<char>) -> Seq<char> {
    match latest {
        Ok(rel) => if later(parts_of(rel.tag@), parts_of(running)) {
            rel.tag@ + " is available."@
        } else {
            "Up to date. Latest release is "@ + rel.tag@ + "."@
        },
        Err(e) => "Could not check for releases: "@ + e@,
    }
}

/// What is said of the firmware that the dongle runs, and of the latest
/// release.
pub fn firmware_lines(info: &FirmwareInfo, latest: &Result<Release, String>) -> (r: (
    String,
    String,
))
    ensures
        r.0@ == running_text(*info),
        r.1@ == latest_text(*latest, padded_text(info.version@)),
{
    let running: &str = info.version_str();
    let mut first = String::from_str("Dongle is running ");
    if running.is_empty() {
        first.append("an unversioned build");
    } else {
        first.append(running);
    }
    let second: String = match latest {
        Ok(rel) => if is_newer(rel.tag.as_str(), running) {
            let mut t: String = rel.tag.clone();
            t.append(" is available.");
            t
        } else {
            let mut t = String::from_str("Up to date. Latest release is ");
            t.append(rel.tag.as_str());
            t.append(".");
            t
        },
        Err(e) => {
            let mut t = String::from_str("Could not check for releases: ");
            t.append(e.as_str());
            t
        },
    };
    (first, second)
}

/// Each command has its own word, and nothing else asks for it. Only storing a
/// layout and flashing take a file, and the first needs one.
pub proof fn law_each_command_has_its_word(args: Seq<Seq<char>>, c: Option<Command>)
    requires
        asks(args, c),
    ensures
        match c {
            Some(Command::Run) => args.len() > 0 && args[0] == "run"@,
            Some(Command::Probe) => args.len() > 0 && args[0] == "probe"@,
            Some(Command::Status) => args.len() > 0 && args[0] == "status"@,
            Some(Command::GetConfig) => args.len() > 0 && args[0] == "get-config"@,
            Some(Command::SetConfig(f)) => args.len() > 1 && args[0] == "set-config"@ && args[1]
                == f@,
            Some(Command::Ping) => args.len() > 0 && args[0] == "ping"@,
            Some(Command::TestMove) => args.len() > 0 && args[0] == "test-move"@,
            Some(Command::Firmware) => args.len() > 0 && args[0] == "firmware"@,
            Some(Command::Flash(None)) => args.len() == 1 && args[0] == "flash"@,
            Some(Command::Flash(Some(f))) => args.len() > 2 && args[0] == "flash"@ && args[1]
                == "--file"@ && args[2] == f@,
            None => args.len() == 0 || !(args[0] == "run"@ || args[0] == "probe"@ || args[0]
                == "status"@ || args[0] == "get-config"@ || args[0] == "ping"@ || args[0]
                == "test-move"@ || args[0] == "firmware"@ || (args[0] == "set-config"@ && args.len()
                > 1) || (args[0] == "flash"@ && args.len() == 1) || (args[0] == "flash"@
                && args.len() > 2 && args[1] == "--file"@)),
        },
{
    reveal_strlit("run");
    reveal_strlit("probe");
    reveal_strlit("status");
    reveal_strlit("get-config");
    reveal_strlit("set-config");
    reveal_strlit("ping");
    reveal_strlit("test-move");
    reveal_strlit("firmware");
    reveal_strlit("flash");
    assert("probe"@[0] == 'p' && "flash"@[0] == 'f');
    assert("get-config"@[0] == 'g' && "set-config"@[0] == 's');
}

/// The flag may stand anywhere: taking it out leaves the others in order.
pub proof fn law_the_flag_may_stand_anywhere(a: Seq<Seq<char>>, b: Seq<Seq<char>>, word: Seq<char>)
    ensures
        without_flag(a + b) == without_flag(a) + without_flag(b),
        without_flag(seq!["--wireless"@]) == Seq::<Seq<char>>::empty(),
        word != "--wireless"@ ==> without_flag(seq![word]) == seq![word],
    decreases b.len(),
{
    reveal_with_fuel(without_flag, 2);
    assert(seq!["--wireless"@].drop_last() =~= Seq::empty());
    assert(seq![word].drop_last() =~= Seq::empty());
    assert(Seq::<Seq<char>>::empty().push(word) =~= seq![word]);
    if b.len() > 0 {
        law_the_flag_may_stand_anywhere(a, b.drop_last(), word);
        assert((a + b).drop_last() =~= a + b.drop_last());
        assert((a + b).last() == b.last());
        assert(without_flag(a + b) =~= without_flag(a) + without_flag(b));
    } else {
        assert(a + b =~= a);
        assert(without_flag(a) + without_flag(b) =~= without_flag(a));
    }
}

/// A slot's line has three columns: the node, which is one more than the slot's
/// number; whether it is connected; and the address, or a dash where there is
/// none.
pub proof fn law_what_a_slot_line_says(s: SlotStatus)
    ensures
        ({
            let t = slot_text(s);
            let node = decimal(s.slot + 1);
            &&& t.len() > 19
            &&& t.take(node.len() as int) == node
            &&& t[6] == ' ' && t[18] == ' '
            &&& t[7] == if s.connected {
                'y'
            } else {
                'n'
            }
            &&& s.bda@ == seq![0u8, 0, 0, 0, 0, 0] ==> t.skip(19) == seq!['-']
            &&& s.bda@ != seq![0u8, 0, 0, 0, 0, 0] ==> t.skip(19) == bda_text(s.bda)
        }),
{
    reveal_strlit("yes");
    reveal_strlit("no");
    reveal_strlit(" ");
    reveal_strlit("-");
    reveal_with_fuel(decimal, 4);
    let node = decimal(s.slot + 1);
    assert(1 <= node.len() <= 3);
    let first = padded_right(node, 6);
    let second = padded_right(
        if s.connected {
            "yes"@
        } else {
            "no"@
        },
        11,
    );
    let third = if s.bda == no_address() {
        "-"@
    } else {
        bda_text(s.bda)
    };
    let t = slot_text(s);
    assert(first.len() == 6 && second.len() == 11);
    assert(t =~= first + " "@ + second + " "@ + third);
    assert(t.skip(19) =~= third);
    assert(t.take(node.len() as int) =~= node);
    assert(" "@[0] == ' ');
    assert("-"@ =~= seq!['-']);
    if s.bda@ == seq![0u8, 0, 0, 0, 0, 0] {
        assert(s.bda =~= no_address());
    }
    crate::config::law_how_an_address_is_written(s.bda, 0);
}

/// A release is called available exactly where it is later than what runs, and
/// is named either way. A dongle without a version is said to have none.
pub proof fn law_what_is_said_of_a_release(rel: Release, running: Seq<char>, info: FirmwareInfo)
    ensures
        later(parts_of(rel.tag@), parts_of(running)) <==> latest_text(Ok(rel), running) == rel.tag@
            + " is available."@,
        !later(parts_of(rel.tag@), parts_of(running)) ==> latest_text(Ok(rel), running)
            == "Up to date. Latest release is "@ + rel.tag@ + "."@,
        padded_text(info.version@).len() > 0 ==> running_text(info) == "Dongle is running "@
            + padded_text(info.version@),
{
    reveal_strlit(" is available.");
    reveal_strlit("Up to date. Latest release is ");
    reveal_strlit(".");
    let a = rel.tag@ + " is available."@;
    let b = "Up to date. Latest release is "@ + rel.tag@ + "."@;
    assert(a.len() != b.len());
}

} // verus!
