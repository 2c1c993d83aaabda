//! Layout as data: what a human wrote on the way in, wire payload on the way
//! out.
//!
//! The dongle is the only place a layout is stored. This module exists to turn
//! something a human wrote into a SET_CONFIG payload, and to render a CONFIG
//! payload back for inspection. Nothing here persists.

use vstd::prelude::*;
use vstd::utf8::encode_utf8;

use crate::bytes::sixteen_at;
use crate::layout::{layout_error, Layout, LayoutError, Screen};
use crate::proto::config_wire::{
    append_screen, config_wire, flat_screens, read_screens, screens_in,
};
use crate::proto::mouse_flag;
use crate::proto::profile::InputProfile;
use crate::proto::screen::{no_address, ScreenWire};
use crate::proto::{MAX_SCREENS, NAME_LEN};
use crate::text::{
    chars_of, debug_text, decimal, digit, hex_byte, padded, padded_text, push_decimal,
    push_hex_byte, quoted, same_text,
};

verus! {

/// A layout as it is written down.
#[derive(Debug)]
pub struct Config {
    pub screens: Vec<ScreenConfig>,
}

impl Default for Config {
    /// No screens.
    fn default() -> (r: Self)
        ensures
            r.screens@ == Seq::<ScreenConfig>::empty(),
    {
        Config { screens: Vec::new() }
    }
}

/// One screen as it is written down.
#[derive(Debug, Clone)]
pub struct ScreenConfig {
    pub name: String,
    /// 0 is the controller's own display and is never transmitted. Remote
    /// screens are 1..=4, mapping onto the dongle's bonded connection slots.
    pub node: u8,
    pub x: i32,
    pub y: i32,
    pub width: i32,
    pub height: i32,
    /// Bluetooth address of the machine at this screen, "aa:bb:cc:dd:ee:ff".
    ///
    /// Optional. Without it the node is whichever machine connects into that
    /// slot first, which reverses two screens whenever a reboot resolves the
    /// race the other way.
    pub address: Option<String>,
    /// How input is translated on the way to this machine. Absent means
    /// unchanged.
    pub input: Option<InputConfig>,
}

/// Per-target input translation, as it is written down.
#[derive(Debug, Clone)]
pub struct InputConfig {
    /// Pointer speed as a percentage; 100 is unchanged.
    pub mouse_scale: Option<u16>,
    pub invert_x: bool,
    pub invert_y: bool,
    /// Reverse wheel direction, for a target whose own setting disagrees with
    /// the controller's.
    pub natural_scroll: bool,
    pub swap_buttons: bool,
    /// Modifier handling: "identity", or "swap-gui-ctrl" to send Ctrl where the
    /// Mac sends Cmd. The latter is what makes shortcuts work on a PC-style
    /// target driven from a Mac.
    pub modifiers: Option<String>,
}

impl Default for InputConfig {
    /// Everything unchanged.
    fn default() -> (r: Self)
        ensures
            r == (InputConfig {
                mouse_scale: None,
                invert_x: false,
                invert_y: false,
                natural_scroll: false,
                swap_buttons: false,
                modifiers: None,
            }),
    {
        InputConfig {
            mouse_scale: None,
            invert_x: false,
            invert_y: false,
            natural_scroll: false,
            swap_buttons: false,
            modifiers: None,
        }
    }
}

/// What is wrong with a layout or a payload.
#[derive(Debug)]
pub enum ConfigError {
    /// More screens than the dongle holds.
    TooManyScreens(usize),
    /// The screen of this name has no pixel.
    NonPositiveSize(String),
    /// The screens do not form a desktop.
    Layout(LayoutError),
    /// The text does not hold twelve hex digits.
    BadAddress { text: String, digits: usize },
    /// No such way of handling modifiers.
    UnknownModifiers(String),
    /// A pointer speed of zero.
    ZeroScale,
    /// The layout declares no screens.
    NoScreens,
    EmptyPayload,
    /// The dongle claims more screens than it holds.
    ReportedTooMany(usize),
    ShortPayload { len: usize, count: usize },
}

/// What a configuration error says.
pub enum ConfigFault {
    TooManyScreens(int),
    NonPositiveSize(Seq<char>),
    Layout(LayoutError),
    BadAddress { text: Seq<char>, digits: int },
    UnknownModifiers(Seq<char>),
    ZeroScale,
    NoScreens,
    EmptyPayload,
    ReportedTooMany(int),
    ShortPayload { len: int, count: int },
}

impl View for ConfigError {
    type V = ConfigFault;

    open spec fn view(&self) -> ConfigFault {
        match *self {
            ConfigError::TooManyScreens(n) => ConfigFault::TooManyScreens(n as int),
            ConfigError::NonPositiveSize(name) => ConfigFault::NonPositiveSize(name@),
            ConfigError::Layout(e) => ConfigFault::Layout(e),
            ConfigError::BadAddress { text, digits } => ConfigFault::BadAddress {
                text: text@,
                digits: digits as int,
            },
            ConfigError::UnknownModifiers(m) => ConfigFault::UnknownModifiers(m@),
            ConfigError::ZeroScale => ConfigFault::ZeroScale,
            ConfigError::NoScreens => ConfigFault::NoScreens,
            ConfigError::EmptyPayload => ConfigFault::EmptyPayload,
            ConfigError::ReportedTooMany(n) => ConfigFault::ReportedTooMany(n as int),
            ConfigError::ShortPayload { len, count } => ConfigFault::ShortPayload {
                len: len as int,
                count: count as int,
            },
        }
    }
}

impl ConfigFault {
    /// The fault in words.
    pub open spec fn text(self) -> Seq<char> {
        match self {
            ConfigFault::TooManyScreens(n) => decimal(n)
                + " screens declared, the dongle holds at most "@ + decimal(MAX_SCREENS as int),
            ConfigFault::NonPositiveSize(name) => "screen "@ + debug_text(name)
                + " has a non-positive size"@,
            ConfigFault::Layout(e) => e.text(),
            ConfigFault::BadAddress { text, digits } => debug_text(text)
                + " is not a Bluetooth address (need 12 hex digits, got "@ + decimal(digits)
                + ")"@,
            ConfigFault::UnknownModifiers(m) => "unknown modifiers mode "@ + debug_text(m)
                + ": use identity or swap-gui-ctrl"@,
            ConfigFault::ZeroScale => "mouse_scale of 0 would freeze the pointer"@,
            ConfigFault::NoScreens => "layout declares no screens"@,
            ConfigFault::EmptyPayload => "empty config payload"@,
            ConfigFault::ReportedTooMany(n) => "dongle reported "@ + decimal(n)
                + " screens, more than the "@ + decimal(MAX_SCREENS as int) + " maximum"@,
            ConfigFault::ShortPayload { len, count } => "config payload is short: "@ + decimal(len)
                + " bytes for "@ + decimal(count) + " screens"@,
        }
    }
}

impl ConfigError {
    /// The error in words.
    pub fn message(&self) -> (r: String)
        ensures
            r@ == self@.text(),
    {
        match self {
            ConfigError::TooManyScreens(n) => {
                let mut s = String::new();
                push_decimal(&mut s, *n as u64);
                s.append(" screens declared, the dongle holds at most ");
                push_decimal(&mut s, MAX_SCREENS as u64);
                assert(s@ =~= self@.text());
                s
            },
            ConfigError::NonPositiveSize(name) => {
                let mut s = String::from_str("screen ");
                s.append(quoted(name.as_str()).as_str());
                s.append(" has a non-positive size");
                s
            },
            ConfigError::Layout(e) => e.message(),
            ConfigError::BadAddress { text, digits } => {
                let mut s = quoted(text.as_str());
                s.append(" is not a Bluetooth address (need 12 hex digits, got ");
                push_decimal(&mut s, *digits as u64);
                s.append(")");
                s
            },
            ConfigError::UnknownModifiers(m) => {
                let mut s = String::from_str("unknown modifiers mode ");
                s.append(quoted(m.as_str()).as_str());
                s.append(": use identity or swap-gui-ctrl");
                s
            },
            ConfigError::ZeroScale => String::from_str("mouse_scale of 0 would freeze the pointer"),
            ConfigError::NoScreens => String::from_str("layout declares no screens"),
            ConfigError::EmptyPayload => String::from_str("empty config payload"),
            ConfigError::ReportedTooMany(n) => {
                let mut s = String::from_str("dongle reported ");
                push_decimal(&mut s, *n as u64);
                s.append(" screens, more than the ");
                push_decimal(&mut s, MAX_SCREENS as u64);
                s.append(" maximum");
                s
            },
            ConfigError::ShortPayload { len, count } => {
                let mut s = String::from_str("config payload is short: ");
                push_decimal(&mut s, *len as u64);
                s.append(" bytes for ");
                push_decimal(&mut s, *count as u64);
                s.append(" screens");
                s
            },
        }
    }
}

/// The value of a hex digit; none for any other character.
pub open spec fn hex_value(c: char) -> Option<int> {
    if '0' <= c <= '9' {
        Some(c as int - '0' as int)
    } else if 'a' <= c <= 'f' {
        Some(c as int - 'a' as int + 10)
    } else if 'A' <= c <= 'F' {
        Some(c as int - 'A' as int + 10)
    } else {
        None
    }
}

/// The values of the hex digits in a text, in order, without what stands
/// between them.
pub open spec fn hex_values(t: Seq<char>) -> Seq<int>
    decreases t.len(),
{
    if t.len() == 0 {
        Seq::empty()
    } else {
        match hex_value(t.last()) {
            Some(v) => hex_values(t.drop_last()).push(v),
            None => hex_values(t.drop_last()),
        }
    }
}

/// The address that twelve hex digits spell.
pub open spec fn address_of(h: Seq<int>) -> [u8; 6] {
    [
        (16 * h[0] + h[1]) as u8,
        (16 * h[2] + h[3]) as u8,
        (16 * h[4] + h[5]) as u8,
        (16 * h[6] + h[7]) as u8,
        (16 * h[8] + h[9]) as u8,
        (16 * h[10] + h[11]) as u8,
    ]
}

/// An address as it is written down.
pub open spec fn bda_text(b: [u8; 6]) -> Seq<char> {
    hex_byte(b[0]) + seq![':'] + hex_byte(b[1]) + seq![':'] + hex_byte(b[2]) + seq![':']
        + hex_byte(b[3]) + seq![':'] + hex_byte(b[4]) + seq![':'] + hex_byte(b[5])
}

fn hex_digit(c: char) -> (r: Option<u8>)
    ensures
        match hex_value(c) {
            Some(v) => r == Some(v as u8) && 0 <= v < 16,
            None => r is None,
        },
{
    if '0' <= c && c <= '9' {
        Some((c as u32 - '0' as u32) as u8)
    } else if 'a' <= c && c <= 'f' {
        Some((c as u32 - 'a' as u32 + 10) as u8)
    } else if 'A' <= c && c <= 'F' {
        Some((c as u32 - 'A' as u32 + 10) as u8)
    } else {
        None
    }
}

/// Parse "aa:bb:cc:dd:ee:ff". Also accepts bare hex, since that is how the
/// dongle's own logs print addresses. Whatever is not a hex digit only
/// separates.
pub fn parse_bda(text: &str) -> (r: Result<[u8; 6], ConfigError>)
    ensures
        match r {
            Ok(b) => hex_values(text@).len() == 12 && b == address_of(hex_values(text@)),
            Err(e) => hex_values(text@).len() != 12 && e@ == (ConfigFault::BadAddress {
                text: text@,
                digits: hex_values(text@).len() as int,
            }),
        },
{
    let chars: Vec<char> = chars_of(text);
    let mut hex: Vec<u8> = Vec::new();
    let mut i: usize = 0;
    while i < chars.len()
        invariant
            i <= chars@.len(),
            chars@ == text@,
            hex@.len() == hex_values(text@.take(i as int)).len(),
            hex@.len() <= i,
            forall|k: int|
                0 <= k < hex@.len() ==> hex@[k] == hex_values(text@.take(i as int))[k] && hex@[k]
                    < 16,
        decreases chars.len() - i,
    {
        assert(text@.take(i + 1).drop_last() =~= text@.take(i as int));
        match hex_digit(chars[i]) {
            Some(v) => hex.push(v),
            None => {},
        }
        i = i + 1;
    }
    assert(text@.take(i as int) =~= text@);
    if hex.len() != 12 {
        return Err(ConfigError::BadAddress { text: String::from_str(text), digits: hex.len() });
    }
    let out: [u8; 6] = [
        16 * hex[0] + hex[1],
        16 * hex[2] + hex[3],
        16 * hex[4] + hex[5],
        16 * hex[6] + hex[7],
        16 * hex[8] + hex[9],
        16 * hex[10] + hex[11],
    ];
    assert(out =~= address_of(hex_values(text@)));
    Ok(out)
}

/// Write an address down, two lower-case hex digits a byte.
pub fn format_bda(bda: [u8; 6]) -> (r: String)
    ensures
        r@ == bda_text(bda),
{
    let mut s = String::new();
    push_hex_byte(&mut s, bda[0]);
    s.push(':');
    push_hex_byte(&mut s, bda[1]);
    s.push(':');
    push_hex_byte(&mut s, bda[2]);
    s.push(':');
    push_hex_byte(&mut s, bda[3]);
    s.push(':');
    push_hex_byte(&mut s, bda[4]);
    s.push(':');
    push_hex_byte(&mut s, bda[5]);
    assert(s@ =~= bda_text(bda));
    s
}

impl InputConfig {
    /// What keeps these settings from being a profile.
    pub open spec fn fault(self) -> Option<ConfigFault> {
        match self.modifiers {
            Some(m) if m@ != "identity"@ && m@ != "swap-gui-ctrl"@ => Some(
                ConfigFault::UnknownModifiers(m@),
            ),
            _ => if self.mouse_scale == Some(0u16) {
                Some(ConfigFault::ZeroScale)
            } else {
                None
            },
        }
    }

    /// The mouse flags that these settings ask for.
    pub open spec fn flags(self) -> u8 {
        (if self.invert_x {
            mouse_flag::INVERT_X
        } else {
            0
        }) | (if self.invert_y {
            mouse_flag::INVERT_Y
        } else {
            0
        }) | (if self.natural_scroll {
            mouse_flag::NATURAL_SCROLL
        } else {
            0
        }) | (if self.swap_buttons {
            mouse_flag::SWAP_BUTTONS
        } else {
            0
        })
    }

    /// The profile that these settings ask for.
    pub open spec fn profile(self) -> InputProfile {
        InputProfile {
            mouse_scale_pct: match self.mouse_scale {
                Some(scale) => scale,
                None => 100,
            },
            mouse_flags: self.flags(),
            mod_map: match self.modifiers {
                Some(m) if m@ == "swap-gui-ctrl"@ => InputProfile::swapped_profile().mod_map,
                _ => InputProfile::identity_profile().mod_map,
            },
        }
    }

    /// These settings are how the profile is written down.
    pub open spec fn writes(self, p: InputProfile) -> bool {
        &&& self.mouse_scale == if p.mouse_scale_pct != 100 {
            Some(p.mouse_scale_pct)
        } else {
            None
        }
        &&& self.invert_x == (p.mouse_flags & mouse_flag::INVERT_X != 0)
        &&& self.invert_y == (p.mouse_flags & mouse_flag::INVERT_Y != 0)
        &&& self.natural_scroll == (p.mouse_flags & mouse_flag::NATURAL_SCROLL != 0)
        &&& self.swap_buttons == (p.mouse_flags & mouse_flag::SWAP_BUTTONS != 0)
        &&& match self.modifiers {
            Some(m) => p.mod_map == InputProfile::swapped_profile().mod_map && m@
                == "swap-gui-ctrl"@,
            None => p.mod_map != InputProfile::swapped_profile().mod_map,
        }
    }

    /// The profile that these settings ask for. A misspelled way of handling
    /// modifiers, or a speed of zero, is an error rather than silently nothing.
    pub fn to_profile(&self) -> (r: Result<InputProfile, ConfigError>)
        ensures
            match r {
                Ok(p) => self.fault() is None && p == self.profile(),
                Err(e) => self.fault() == Some(e@),
            },
    {
        proof {
            reveal_strlit("identity");
            reveal_strlit("swap-gui-ctrl");
            assert("identity"@.len() != "swap-gui-ctrl"@.len());
        }
        let mut p: InputProfile = match &self.modifiers {
            None => InputProfile::identity(),
            Some(m) => {
                if same_text(m.as_str(), "identity") {
                    InputProfile::identity()
                } else if same_text(m.as_str(), "swap-gui-ctrl") {
                    InputProfile::swap_gui_ctrl()
                } else {
                    return Err(ConfigError::UnknownModifiers(m.clone()));
                }
            },
        };
        match self.mouse_scale {
            Some(scale) => {
                if scale == 0 {
                    return Err(ConfigError::ZeroScale);
                }
                p.mouse_scale_pct = scale;
            },
            None => {},
        }
        let x: u8 = if self.invert_x {
            mouse_flag::INVERT_X
        } else {
            0
        };
        let y: u8 = if self.invert_y {
            mouse_flag::INVERT_Y
        } else {
            0
        };
        let scroll: u8 = if self.natural_scroll {
            mouse_flag::NATURAL_SCROLL
        } else {
            0
        };
        let swap: u8 = if self.swap_buttons {
            mouse_flag::SWAP_BUTTONS
        } else {
            0
        };
        p.mouse_flags = x | y | scroll | swap;
        Ok(p)
    }

    /// How a profile is written down. One that changes nothing is not written
    /// at all, so a file stays as short as what was written.
    pub fn from_profile(p: &InputProfile) -> (r: Option<Self>)
        ensures
            match r {
                None => *p == InputProfile::identity_profile(),
                Some(c) => *p != InputProfile::identity_profile() && c.writes(*p),
            },
    {
        if p.is_identity() {
            return None;
        }
        let swapped: InputProfile = InputProfile::swap_gui_ctrl();
        let modifiers: Option<String> = if same_map(&p.mod_map, &swapped.mod_map) {
            Some(String::from_str("swap-gui-ctrl"))
        } else {
            None
        };
        Some(
            InputConfig {
                mouse_scale: if p.mouse_scale_pct != 100 {
                    Some(p.mouse_scale_pct)
                } else {
                    None
                },
                invert_x: p.mouse_flags & mouse_flag::INVERT_X != 0,
                invert_y: p.mouse_flags & mouse_flag::INVERT_Y != 0,
                natural_scroll: p.mouse_flags & mouse_flag::NATURAL_SCROLL != 0,
                swap_buttons: p.mouse_flags & mouse_flag::SWAP_BUTTONS != 0,
                modifiers,
            },
        )
    }

    /// A profile written down and read again is the same profile, where its
    /// modifiers are one of the two ways that can be written, its flags are
    /// known ones and its speed is not zero.
    pub proof fn law_profile_roundtrips(self, p: InputProfile)
        requires
            self.writes(p),
            p.mouse_scale_pct != 0,
            p.mouse_flags < 16,
            p.mod_map == InputProfile::identity_profile().mod_map || p.mod_map
                == InputProfile::swapped_profile().mod_map,
        ensures
            self.fault() is None,
            self.profile() == p,
    {
        let f = p.mouse_flags;
        assert((if f & 1 != 0 { 1u8 } else { 0 }) | (if f & 2 != 0 { 2u8 } else { 0 }) | (if f & 4
            != 0 { 4u8 } else { 0 }) | (if f & 8 != 0 { 8u8 } else { 0 }) == f) by (bit_vector)
            requires
                f < 16,
        ;
    }

    /// Settings that ask for nothing known to be wrong give a profile that can
    /// be written down again exactly.
    pub proof fn law_settings_give_a_writable_profile(self)
        requires
            self.fault() is None,
        ensures
            self.profile().mouse_scale_pct != 0,
            self.profile().mouse_flags < 16,
            self.profile().mod_map == InputProfile::identity_profile().mod_map
                || self.profile().mod_map == InputProfile::swapped_profile().mod_map,
    {
        let (a, b, c, d) = (self.invert_x, self.invert_y, self.natural_scroll, self.swap_buttons);
        assert((if a { 1u8 } else { 0 }) | (if b { 2u8 } else { 0 }) | (if c { 4u8 } else { 0 })
            | (if d { 8u8 } else { 0 }) < 16) by (bit_vector);
    }
}

fn same_map(a: &[u8; 8], b: &[u8; 8]) -> (r: bool)
    ensures
        r == (*a == *b),
{
    let mut i: usize = 0;
    while i < 8
        invariant
            i <= 8,
            forall|j: int| 0 <= j < i ==> a@[j] == b@[j],
        decreases 8 - i,
    {
        if a[i] != b[i] {
            assert(a@[i as int] != b@[i as int]);
            return false;
        }
        i = i + 1;
    }
    assert(*a =~= *b);
    true
}

impl ScreenConfig {
    /// The screen that this places.
    pub open spec fn screen(self) -> Screen {
        Screen::placed(self.node, self.name@, self.x, self.y, self.width, self.height)
    }

    /// What keeps this screen from going on the wire.
    pub open spec fn fault(self) -> Option<ConfigFault> {
        match self.address {
            Some(a) if hex_values(a@).len() != 12 => Some(
                ConfigFault::BadAddress { text: a@, digits: hex_values(a@).len() as int },
            ),
            _ => match self.input {
                Some(input) => input.fault(),
                None => None,
            },
        }
    }

    /// This screen on the wire.
    pub open spec fn wire_screen(self) -> ScreenWire {
        ScreenWire {
            node: self.node,
            name: sixteen_at(padded(encode_utf8(self.name@), NAME_LEN as int), 0),
            x: self.x,
            y: self.y,
            width: self.width,
            height: self.height,
            bda: match self.address {
                Some(a) => address_of(hex_values(a@)),
                None => no_address(),
            },
            profile: match self.input {
                Some(input) => input.profile(),
                None => InputProfile::identity_profile(),
            },
        }
    }

    /// This is how the screen from the wire is written down. An unpinned screen
    /// has no address, and one with unchanged input no settings.
    pub open spec fn writes(self, w: ScreenWire) -> bool {
        &&& self.name@ == padded_text(w.name@)
        &&& self.node == w.node
        &&& self.x == w.x
        &&& self.y == w.y
        &&& self.width == w.width
        &&& self.height == w.height
        &&& match self.address {
            None => w.bda == no_address(),
            Some(a) => w.bda != no_address() && a@ == bda_text(w.bda),
        }
        &&& match self.input {
            None => w.profile == InputProfile::identity_profile(),
            Some(c) => w.profile != InputProfile::identity_profile() && c.writes(w.profile),
        }
    }
}

/// The first screen from `i` on without a pixel; their number where all have.
pub open spec fn unsized_from(screens: Seq<ScreenConfig>, i: int) -> int
    decreases screens.len() - i,
{
    if i >= screens.len() || screens[i].width <= 0 || screens[i].height <= 0 {
        i
    } else {
        unsized_from(screens, i + 1)
    }
}

/// The first thing that keeps the screens from `i` on from going on the wire.
pub open spec fn fault_from(screens: Seq<ScreenConfig>, i: int) -> Option<ConfigFault>
    decreases screens.len() - i,
{
    if i >= screens.len() {
        None
    } else if screens[i].fault() is Some {
        screens[i].fault()
    } else {
        fault_from(screens, i + 1)
    }
}

/// The screens that these place.
pub open spec fn all_screens(screens: Seq<ScreenConfig>) -> Seq<Screen> {
    Seq::new(screens.len(), |i: int| screens[i].screen())
}

/// These screens on the wire.
pub open spec fn all_wire_screens(screens: Seq<ScreenConfig>) -> Seq<ScreenWire> {
    Seq::new(screens.len(), |i: int| screens[i].wire_screen())
}

impl Config {
    /// What the dongle would refuse about this layout.
    pub open spec fn layout_fault(self) -> Option<ConfigFault> {
        let screens = self.screens@;
        if screens.len() > MAX_SCREENS {
            Some(ConfigFault::TooManyScreens(screens.len() as int))
        } else if unsized_from(screens, 0) < screens.len() {
            Some(ConfigFault::NonPositiveSize(screens[unsized_from(screens, 0)].name@))
        } else {
            match layout_error(all_screens(screens)) {
                Some(e) => Some(ConfigFault::Layout(e)),
                None => None,
            }
        }
    }

    /// The first thing that keeps this layout from going on the wire.
    pub open spec fn fault(self) -> Option<ConfigFault> {
        match self.layout_fault() {
            Some(f) => Some(f),
            None => fault_from(self.screens@, 0),
        }
    }

    /// The payload of this layout.
    pub open spec fn payload(self) -> Seq<u8> {
        config_wire(all_wire_screens(self.screens@))
    }

    /// What is wrong with a payload.
    pub open spec fn payload_fault(p: Seq<u8>) -> Option<ConfigFault> {
        if p.len() == 0 {
            Some(ConfigFault::EmptyPayload)
        } else if p[0] > MAX_SCREENS {
            Some(ConfigFault::ReportedTooMany(p[0] as int))
        } else if p.len() < 1 + 51 * p[0] {
            Some(ConfigFault::ShortPayload { len: p.len() as int, count: p[0] as int })
        } else {
            None
        }
    }

    /// Take a layout that was read, unless it declares no screens.
    pub fn load(parsed: Config) -> (r: Result<Config, ConfigError>)
        ensures
            match r {
                Ok(cfg) => parsed.screens@.len() > 0 && cfg == parsed,
                Err(e) => parsed.screens@.len() == 0 && e@ == ConfigFault::NoScreens,
            },
    {
        if parsed.screens.len() == 0 {
            return Err(ConfigError::NoScreens);
        }
        Ok(parsed)
    }

    /// Check the layout the same way the dongle will.
    ///
    /// The dongle validates before storing, so this is not load-bearing for
    /// correctness, but failing here gives a specific message instead of a
    /// bare INVALID_LAYOUT ack from across the wire.
    pub fn validate(&self) -> (r: Result<(), ConfigError>)
        ensures
            match r {
                Ok(_) => self.layout_fault() is None,
                Err(e) => self.layout_fault() == Some(e@),
            },
    {
        let n: usize = self.screens.len();
        if n > MAX_SCREENS {
            return Err(ConfigError::TooManyScreens(n));
        }
        let mut screens: Vec<Screen> = Vec::new();
        let mut i: usize = 0;
        while i < n
            invariant
                i <= n == self.screens@.len(),
                n <= MAX_SCREENS,
                unsized_from(self.screens@, 0) == unsized_from(self.screens@, i as int),
                screens@.len() == i,
                forall|k: int| 0 <= k < i ==> screens@[k] == (#[trigger] self.screens@[k]).screen(),
            decreases n - i,
        {
            let s: &ScreenConfig = &self.screens[i];
            if s.width <= 0 || s.height <= 0 {
                return Err(ConfigError::NonPositiveSize(s.name.clone()));
            }
            screens.push(Screen::new(s.node, s.name.as_str(), s.x, s.y, s.width, s.height));
            i = i + 1;
        }
        assert(screens@ =~= all_screens(self.screens@));
        match Layout::check(screens.as_slice()) {
            Some(e) => Err(ConfigError::Layout(e)),
            None => Ok(()),
        }
    }

    /// Encode as a SET_CONFIG payload: a count byte then that many screens.
    pub fn to_payload(&self) -> (r: Result<Vec<u8>, ConfigError>)
        ensures
            match r {
                Ok(out) => self.fault() is None && out@ == self.payload(),
                Err(e) => self.fault() == Some(e@),
            },
    {
        match self.validate() {
            Ok(_) => {},
            Err(e) => return Err(e),
        }
        let n: usize = self.screens.len();
        let ghost ws = all_wire_screens(self.screens@);
        let mut out: Vec<u8> = Vec::new();
        out.push(n as u8);
        assert(out@ =~= seq![n as u8] + flat_screens(ws, 0));
        let mut i: usize = 0;
        while i < n
            invariant
                i <= n == self.screens@.len(),
                n <= MAX_SCREENS,
                ws == all_wire_screens(self.screens@),
                self.layout_fault() is None,
                fault_from(self.screens@, 0) == fault_from(self.screens@, i as int),
                out@ == seq![n as u8] + flat_screens(ws, i as int),
            decreases n - i,
        {
            let s: &ScreenConfig = &self.screens[i];
            let bda: [u8; 6] = match &s.address {
                Some(a) => match parse_bda(a.as_str()) {
                    Ok(b) => b,
                    Err(e) => return Err(e),
                },
                None => {
                    let none: [u8; 6] = [0; 6];
                    assert(none =~= no_address());
                    none
                },
            };
            let mut w: ScreenWire = ScreenWire::pinned(
                s.node,
                s.name.as_str(),
                s.x,
                s.y,
                s.width,
                s.height,
                bda,
            );
            match &s.input {
                Some(input) => match input.to_profile() {
                    Ok(p) => {
                        w.profile = p;
                    },
                    Err(e) => return Err(e),
                },
                None => {},
            }
            assert(w == ws[i as int]);
            append_screen(&mut out, &w);
            assert(out@ =~= seq![n as u8] + flat_screens(ws, i + 1));
            i = i + 1;
        }
        Ok(out)
    }

    /// Decode a CONFIG payload.
    pub fn from_payload(p: &[u8]) -> (r: Result<Self, ConfigError>)
        ensures
            match r {
                Ok(cfg) => {
                    &&& Self::payload_fault(p@) is None
                    &&& cfg.screens@.len() == p@[0]
                    &&& forall|i: int|
                        0 <= i < p@[0] ==> (#[trigger] cfg.screens@[i]).writes(screens_in(p@)[i])
                },
                Err(e) => Self::payload_fault(p@) == Some(e@),
            },
    {
        if p.len() == 0 {
            return Err(ConfigError::EmptyPayload);
        }
        let count: usize = p[0] as usize;
        if count > MAX_SCREENS {
            return Err(ConfigError::ReportedTooMany(count));
        }
        if p.len() < 1 + 51 * count {
            return Err(ConfigError::ShortPayload { len: p.len(), count });
        }
        let ws: Vec<ScreenWire> = read_screens(p, count);
        let mut screens: Vec<ScreenConfig> = Vec::new();
        let mut i: usize = 0;
        while i < count
            invariant
                i <= count == ws@.len(),
                ws@ == screens_in(p@),
                screens@.len() == i,
                forall|k: int| 0 <= k < i ==> (#[trigger] screens@[k]).writes(ws@[k]),
            decreases count - i,
        {
            let w: &ScreenWire = &ws[i];
            let address: Option<String> = if w.is_pinned() {
                Some(format_bda(w.bda))
            } else {
                None
            };
            screens.push(
                ScreenConfig {
                    name: String::from_str(w.name_str()),
                    node: w.node,
                    x: w.x,
                    y: w.y,
                    width: w.width,
                    height: w.height,
                    address,
                    input: InputConfig::from_profile(&w.profile),
                },
            );
            i = i + 1;
        }
        Ok(Config { screens })
    }
}

proof fn lemma_hex_concat(a: Seq<char>, b: Seq<char>)
    ensures
        hex_values(a + b) == hex_values(a) + hex_values(b),
    decreases b.len(),
{
    if b.len() == 0 {
        assert(a + b =~= a);
        assert(hex_values(a) + hex_values(b) =~= hex_values(a));
    } else {
        lemma_hex_concat(a, b.drop_last());
        assert((a + b).drop_last() =~= a + b.drop_last());
        assert(hex_values(a + b) =~= hex_values(a) + hex_values(b));
    }
}

proof fn lemma_hex_byte(b: u8)
    ensures
        hex_values(hex_byte(b)) == seq![b as int / 16, b as int % 16],
        hex_values(hex_byte(b) + seq![':']) == seq![b as int / 16, b as int % 16],
{
    reveal_with_fuel(hex_values, 4);
    let t = hex_byte(b);
    assert(t.drop_last() =~= seq![digit(b as int / 16)]);
    assert(t.drop_last().drop_last() =~= Seq::empty());
    assert(hex_value(digit(b as int / 16)) == Some(b as int / 16));
    assert(hex_value(digit(b as int % 16)) == Some(b as int % 16));
    assert(hex_values(t) =~= seq![b as int / 16, b as int % 16]);
    let u = t + seq![':'];
    assert(u.drop_last() =~= t);
}

/// An address written down is read as the same address.
pub proof fn law_address_roundtrips(b: [u8; 6])
    ensures
        hex_values(bda_text(b)).len() == 12,
        address_of(hex_values(bda_text(b))) == b,
{
    let c = seq![':'];
    lemma_hex_byte(b[0]);
    lemma_hex_byte(b[1]);
    lemma_hex_byte(b[2]);
    lemma_hex_byte(b[3]);
    lemma_hex_byte(b[4]);
    lemma_hex_byte(b[5]);
    let t1 = hex_byte(b[0]) + c;
    let t2 = t1 + (hex_byte(b[1]) + c);
    let t3 = t2 + (hex_byte(b[2]) + c);
    let t4 = t3 + (hex_byte(b[3]) + c);
    let t5 = t4 + (hex_byte(b[4]) + c);
    lemma_hex_concat(t1, hex_byte(b[1]) + c);
    lemma_hex_concat(t2, hex_byte(b[2]) + c);
    lemma_hex_concat(t3, hex_byte(b[3]) + c);
    lemma_hex_concat(t4, hex_byte(b[4]) + c);
    lemma_hex_concat(t5, hex_byte(b[5]));
    assert(bda_text(b) =~= t5 + hex_byte(b[5]));
    assert(address_of(hex_values(bda_text(b))) =~= b);
}

proof fn lemma_fault_from(screens: Seq<ScreenConfig>, i: int)
    requires
        0 <= i <= screens.len(),
    ensures
        fault_from(screens, i) is None <==> forall|k: int|
            i <= k < screens.len() ==> (#[trigger] screens[k]).fault() is None,
    decreases screens.len() - i,
{
    if i < screens.len() {
        lemma_fault_from(screens, i + 1);
    }
}

proof fn lemma_unsized_from(screens: Seq<ScreenConfig>, i: int)
    requires
        0 <= i <= screens.len(),
    ensures
        i <= unsized_from(screens, i) <= screens.len(),
        unsized_from(screens, i) == crate::router::blank_from(all_wire_screens(screens), i),
    decreases screens.len() - i,
{
    if i < screens.len() {
        assert(all_wire_screens(screens)[i] == screens[i].wire_screen());
        lemma_unsized_from(screens, i + 1);
    }
}

impl Config {
    /// The payload of a layout that can go on the wire decodes, into exactly
    /// the screens that were encoded.
    pub proof fn law_payload_roundtrips(self)
        requires
            self.fault() is None,
        ensures
            Self::payload_fault(self.payload()) is None,
            screens_in(self.payload()) == all_wire_screens(self.screens@),
            self.payload().len() == 1 + 51 * self.screens@.len(),
    {
        let screens = self.screens@;
        let ws = all_wire_screens(screens);
        lemma_fault_from(screens, 0);
        assert forall|i: int| 0 <= i < ws.len() implies (
        #[trigger] ws[i]).profile.mouse_scale_pct != 0 by {
            assert(screens[i].fault() is None);
        }
        crate::proto::config_wire::law_roundtrip(ws, Seq::empty());
        assert(config_wire(ws) + Seq::<u8>::empty() =~= config_wire(ws));
    }

    /// A layout that passes the check here, with addresses and input settings
    /// that can go on the wire, is one the dongle installs, and one that does
    /// not pass it is refused there too.
    pub proof fn law_the_dongle_agrees(self, dongle: crate::router::Routing)
        requires
            self.screens@.len() <= 255,
            fault_from(self.screens@, 0) is None,
        ensures
            self.layout_fault() is None <==> dongle.loaded(self.payload()).1 == 0,
    {
        let screens = self.screens@;
        let ws = all_wire_screens(screens);
        lemma_fault_from(screens, 0);
        assert forall|i: int| 0 <= i < ws.len() implies (
        #[trigger] ws[i]).profile.mouse_scale_pct != 0 by {
            assert(screens[i].fault() is None);
        }
        crate::proto::config_wire::law_roundtrip(ws, Seq::empty());
        assert(config_wire(ws) + Seq::<u8>::empty() =~= config_wire(ws));
        assert(self.payload()[0] == screens.len());
        lemma_unsized_from(screens, 0);
        let placed = crate::router::all_placed(ws);
        let here = all_screens(screens);
        crate::layout::law_names_do_not_matter(placed, here);
    }
}

impl ScreenConfig {
    /// A screen that went over the wire is read back with its place, its pin
    /// and its input settings: it goes on the wire again as the same screen. Its
    /// name is kept too, where it fits its field and holds no NUL.
    pub proof fn law_screen_survives_the_wire(self, back: ScreenConfig)
        requires
            self.fault() is None,
            back.writes(self.wire_screen()),
        ensures
            back.node == self.node,
            (back.x, back.y, back.width, back.height) == (
                self.x,
                self.y,
                self.width,
                self.height,
            ),
            back.address is None <==> self.wire_screen().bda == no_address(),
            back.input is None <==> self.wire_screen().profile == InputProfile::identity_profile(),
            back.fault() is None,
            back.wire_screen().bda == self.wire_screen().bda,
            back.wire_screen().profile == self.wire_screen().profile,
            encode_utf8(self.name@).len() <= NAME_LEN && (forall|i: int|
                0 <= i < encode_utf8(self.name@).len() ==> encode_utf8(self.name@)[i] != 0) ==> {
                &&& back.name@ == self.name@
                &&& back.wire_screen() == self.wire_screen()
            },
    {
        let w = self.wire_screen();
        law_address_roundtrips(w.bda);
        match back.input {
            Some(c) => {
                self.input.unwrap().law_settings_give_a_writable_profile();
                c.law_profile_roundtrips(w.profile);
            },
            None => {},
        }
        if encode_utf8(self.name@).len() <= NAME_LEN && (forall|i: int|
            0 <= i < encode_utf8(self.name@).len() ==> encode_utf8(self.name@)[i] != 0) {
            ScreenWire::law_name_is_kept(self.name@);
        }
    }
}

impl InputConfig {
    /// Each setting does what its name says: it sets the bit that the dongle
    /// reads for it, and no other setting does. The speed is the one written
    /// down, or the ordinary one, and Control and Command change places exactly
    /// where that is asked for.
    pub proof fn law_each_setting_sets_its_own_bit(self)
        ensures
            ({
                let p = self.profile();
                let m = p.mod_map@;
                let swaps = self.modifiers matches Some(t) && t@ == "swap-gui-ctrl"@;
                &&& p.mouse_flags & 1 != 0 <==> self.invert_x
                &&& p.mouse_flags & 2 != 0 <==> self.invert_y
                &&& p.mouse_flags & 4 != 0 <==> self.natural_scroll
                &&& p.mouse_flags & 8 != 0 <==> self.swap_buttons
                &&& p.mouse_flags < 16
                &&& self.mouse_scale matches Some(pct) ==> p.mouse_scale_pct == pct
                &&& self.mouse_scale is None ==> p.mouse_scale_pct == 100
                &&& m[1] == 2 && m[2] == 4 && m[5] == 32 && m[6] == 64
                &&& swaps ==> m[0] == 8 && m[3] == 1 && m[4] == 128 && m[7] == 16
                &&& !swaps ==> m[0] == 1 && m[3] == 8 && m[4] == 16 && m[7] == 128
            }),
    {
        let (a, b, c, d) = (self.invert_x, self.invert_y, self.natural_scroll, self.swap_buttons);
        assert({
            let f = (if a { 1u8 } else { 0 }) | (if b { 2u8 } else { 0 }) | (if c { 4u8 } else { 0 })
                | (if d { 8u8 } else { 0 });
            &&& (f & 1 != 0 <==> a)
            &&& (f & 2 != 0 <==> b)
            &&& (f & 4 != 0 <==> c)
            &&& (f & 8 != 0 <==> d)
            &&& f < 16
        }) by (bit_vector);
    }

    /// Each setting that a profile is written down with says what the profile
    /// does: that its bit is set, that its speed is another than the ordinary
    /// one, that it exchanges Control and Command.
    pub proof fn law_each_setting_tells_its_own_bit(self, p: InputProfile)
        requires
            self.writes(p),
        ensures
            self.invert_x <==> p.mouse_flags & 1 != 0,
            self.invert_y <==> p.mouse_flags & 2 != 0,
            self.natural_scroll <==> p.mouse_flags & 4 != 0,
            self.swap_buttons <==> p.mouse_flags & 8 != 0,
            p.mouse_scale_pct == 100 <==> self.mouse_scale is None,
            self.mouse_scale matches Some(pct) ==> pct == p.mouse_scale_pct,
            self.modifiers is Some <==> p.mod_map@ == seq![8u8, 2, 4, 1, 128, 32, 64, 16],
            self.modifiers matches Some(t) ==> t@ == "swap-gui-ctrl"@,
    {
        let swapped = InputProfile::swapped_profile().mod_map;
        assert(swapped@ =~= seq![8u8, 2, 4, 1, 128, 32, 64, 16]);
        if p.mod_map@ == swapped@ {
            assert(p.mod_map =~= swapped);
        }
    }

    /// Settings are refused exactly where they name another way of handling
    /// modifiers than the two there are, or ask for no speed at all; the first
    /// is told where both hold.
    pub proof fn law_which_settings_are_refused(self)
        ensures
            ({
                let unknown = self.modifiers matches Some(t) && t@ != "identity"@ && t@
                    != "swap-gui-ctrl"@;
                &&& self.fault() is None <==> !unknown && self.mouse_scale != Some(0u16)
                &&& unknown ==> self.fault() == Some(
                    ConfigFault::UnknownModifiers(self.modifiers.unwrap()@),
                )
                &&& !unknown && self.mouse_scale == Some(0u16) ==> self.fault() == Some(
                    ConfigFault::ZeroScale,
                )
            }),
    {
    }
}

/// A hex digit stands for its value in either case, and nothing else stands for
/// one.
pub proof fn law_what_a_hex_digit_stands_for(c: char)
    ensures
        hex_value(c) matches Some(v) ==> 0 <= v < 16 && (v < 10 ==> c as int == 48 + v) && (v >= 10
            ==> c as int == 87 + v || c as int == 55 + v),
        hex_value(c) is None <==> !(48 <= c as int <= 57 || 65 <= c as int <= 70 || 97 <= c as int
            <= 102),
{
}

/// What is not a hex digit only separates: the digits of two texts together are
/// the digits of the first, then those of the second, and a lone character gives
/// its digit or none.
pub proof fn law_digits_are_read_in_order(a: Seq<char>, b: Seq<char>, c: char)
    ensures
        hex_values(a + b) == hex_values(a) + hex_values(b),
        hex_values(Seq::empty()) == Seq::<int>::empty(),
        hex_values(seq![c]) == match hex_value(c) {
            Some(v) => seq![v],
            None => Seq::empty(),
        },
{
    lemma_hex_concat(a, b);
    reveal_with_fuel(hex_values, 2);
    assert(seq![c].drop_last() =~= Seq::empty());
    assert(hex_values(seq![c]) =~= match hex_value(c) {
        Some(v) => seq![v],
        None => Seq::empty(),
    });
}

/// Each byte of an address is two digits, the first of which weighs sixteen.
pub proof fn law_two_digits_make_a_byte(h: Seq<int>, i: int)
    requires
        h.len() == 12,
        forall|k: int| 0 <= k < 12 ==> 0 <= #[trigger] h[k] < 16,
        0 <= i < 6,
    ensures
        address_of(h)@[i] == 16 * h[2 * i] + h[2 * i + 1],
{
    assert(0 <= h[2 * i] < 16 && 0 <= h[2 * i + 1] < 16);
}

/// An address is written as its bytes in order, each as two characters, with a
/// colon between them.
pub proof fn law_how_an_address_is_written(b: [u8; 6], i: int)
    requires
        0 <= i < 6,
    ensures
        bda_text(b).len() == 17,
        bda_text(b)[3 * i] == digit(b@[i] as int / 16),
        bda_text(b)[3 * i + 1] == digit(b@[i] as int % 16),
        i < 5 ==> bda_text(b)[3 * i + 2] == ':',
{
    let t = bda_text(b);
    assert(t =~= seq![
        digit(b[0] as int / 16), digit(b[0] as int % 16), ':',
        digit(b[1] as int / 16), digit(b[1] as int % 16), ':',
        digit(b[2] as int / 16), digit(b[2] as int % 16), ':',
        digit(b[3] as int / 16), digit(b[3] as int % 16), ':',
        digit(b[4] as int / 16), digit(b[4] as int % 16), ':',
        digit(b[5] as int / 16), digit(b[5] as int % 16),
    ]);
}

impl ScreenConfig {
    /// A screen goes on the wire as it is written down: under its node, its
    /// name, at its place and of its size, with the address that its digits
    /// spell and the profile that its settings ask for. Without an address it is
    /// pinned to none, and without settings input is unchanged.
    pub proof fn law_a_screen_goes_out_as_written(self, i: int)
        requires
            0 <= i < 16,
        ensures
            ({
                let w = self.wire_screen();
                let name = encode_utf8(self.name@);
                &&& w.node == self.node
                &&& w.x == self.x && w.y == self.y
                &&& w.width == self.width && w.height == self.height
                &&& i < name.len() ==> w.name@[i] == name[i]
                &&& i >= name.len() ==> w.name@[i] == 0
                &&& self.address matches Some(a) ==> w.bda == address_of(hex_values(a@))
                &&& self.address is None ==> w.bda@ == seq![0u8, 0, 0, 0, 0, 0]
                &&& self.input matches Some(c) ==> w.profile == c.profile()
                &&& self.input is None ==> w.profile.mouse_scale_pct == 100 && w.profile.mouse_flags
                    == 0 && w.profile.mod_map@ == seq![1u8, 2, 4, 8, 16, 32, 64, 128]
            }),
    {
        let field = padded(encode_utf8(self.name@), NAME_LEN as int);
        assert(sixteen_at(field, 0)@ =~= field);
    }

    /// A screen off the wire is written down as it is: an address of zeros is
    /// left out, and any other one is spelled; input that is unchanged is left
    /// out, and any other settings are given.
    pub proof fn law_a_screen_is_written_as_it_came(self, w: ScreenWire)
        requires
            self.writes(w),
        ensures
            self.node == w.node,
            self.x == w.x && self.y == w.y,
            self.width == w.width && self.height == w.height,
            self.name@ == padded_text(w.name@),
            self.address is None <==> w.bda@ == seq![0u8, 0, 0, 0, 0, 0],
            self.address matches Some(a) ==> address_of(hex_values(a@)) == w.bda,
            self.input is None <==> w.profile.mouse_scale_pct == 100 && w.profile.mouse_flags == 0
                && w.profile.mod_map@ == seq![1u8, 2, 4, 8, 16, 32, 64, 128],
            self.input matches Some(c) ==> c.writes(w.profile),
    {
        law_address_roundtrips(w.bda);
        if w.bda@ == seq![0u8, 0, 0, 0, 0, 0] {
            assert(w.bda =~= no_address());
        }
        let id = InputProfile::identity_profile();
        if w.profile.mod_map@ == seq![1u8, 2, 4, 8, 16, 32, 64, 128] {
            assert(w.profile.mod_map =~= id.mod_map);
        }
    }

    /// A screen is refused exactly where its address does not hold twelve hex
    /// digits, or its settings are refused; the address is told of first.
    pub proof fn law_which_screens_are_refused(self)
        ensures
            ({
                let spoilt = self.address matches Some(a) && hex_values(a@).len() != 12;
                &&& spoilt ==> self.fault() == Some(
                    ConfigFault::BadAddress {
                        text: self.address.unwrap()@,
                        digits: hex_values(self.address.unwrap()@).len() as int,
                    },
                )
                &&& !spoilt && self.input is None ==> self.fault() is None
                &&& !spoilt && self.input is Some ==> self.fault() == self.input.unwrap().fault()
            }),
    {
    }
}

impl Config {
    /// A layout is refused for the first of these that holds: more than five
    /// screens; a screen without a pixel, the first of which is named; screens
    /// that form no desktop; a screen that cannot go on the wire, the first of
    /// which is told of.
    pub proof fn law_which_layouts_are_refused(self, i: int)
        requires
            0 <= i < self.screens@.len(),
            forall|k: int|
                0 <= k < i ==> (#[trigger] self.screens@[k]).width > 0 && self.screens@[k].height
                    > 0,
        ensures
            self.screens@.len() > 5 ==> self.fault() == Some(
                ConfigFault::TooManyScreens(self.screens@.len() as int),
            ),
            self.screens@.len() <= 5 && (self.screens@[i].width <= 0 || self.screens@[i].height
                <= 0) ==> self.fault() == Some(
                ConfigFault::NonPositiveSize(self.screens@[i].name@),
            ),
            self.screens@.len() <= 5 && i == self.screens@.len() - 1 && self.screens@[i].width > 0
                && self.screens@[i].height > 0 ==> match layout_error(all_screens(self.screens@)) {
                Some(e) => self.fault() == Some(ConfigFault::Layout(e)),
                None => self.layout_fault() is None,
            },
            all_screens(self.screens@)[i].node == self.screens@[i].node,
            all_screens(self.screens@)[i].x == self.screens@[i].x,
            all_screens(self.screens@)[i].y == self.screens@[i].y,
            all_screens(self.screens@)[i].width == self.screens@[i].width,
            all_screens(self.screens@)[i].height == self.screens@[i].height,
    {
        lemma_sized_until(self.screens@, 0, i);
        if self.screens@[i].width > 0 && self.screens@[i].height > 0 {
            lemma_sized_until(self.screens@, 0, i + 1);
        }
    }

    /// Of screens that cannot go on the wire, the first is told of.
    pub proof fn law_the_first_screen_refused_is_told_of(self, i: int)
        requires
            self.layout_fault() is None,
            0 <= i < self.screens@.len(),
            forall|k: int| 0 <= k < i ==> (#[trigger] self.screens@[k]).fault() is None,
        ensures
            self.screens@[i].fault() is Some ==> self.fault() == self.screens@[i].fault(),
            i == self.screens@.len() - 1 && self.screens@[i].fault() is None ==> self.fault() is None,
    {
        lemma_first_fault(self.screens@, 0, i);
        reveal_with_fuel(fault_from, 3);
    }

    /// A payload is refused exactly where it is empty, counts more than five
    /// screens, or is shorter than fifty-one bytes for each that it counts.
    pub proof fn law_which_payloads_are_refused(p: Seq<u8>)
        ensures
            p.len() == 0 ==> Self::payload_fault(p) == Some(ConfigFault::EmptyPayload),
            p.len() > 0 && p[0] > 5 ==> Self::payload_fault(p) == Some(
                ConfigFault::ReportedTooMany(p[0] as int),
            ),
            p.len() > 0 && p[0] <= 5 && p.len() < 1 + 51 * p[0] ==> Self::payload_fault(p) == Some(
                ConfigFault::ShortPayload { len: p.len() as int, count: p[0] as int },
            ),
            p.len() > 0 && p[0] <= 5 && p.len() >= 1 + 51 * p[0] ==> Self::payload_fault(p) is None,
    {
    }

    /// The payload of a layout counts its screens and carries each of them.
    pub proof fn law_the_payload_carries_every_screen(self, i: int, k: int)
        requires
            self.screens@.len() <= 5,
            0 <= i < self.screens@.len(),
            0 <= k < 51,
        ensures
            self.payload().len() == 1 + 51 * self.screens@.len(),
            self.payload()[0] == self.screens@.len(),
            self.payload()[1 + 51 * i + k] == self.screens@[i].wire_screen().wire()[k],
    {
        crate::proto::config_wire::law_where_each_screen_stands(
            all_wire_screens(self.screens@),
            i,
            k,
        );
    }
}

proof fn lemma_sized_until(screens: Seq<ScreenConfig>, i: int, n: int)
    requires
        0 <= i <= n <= screens.len(),
        forall|k: int| i <= k < n ==> (#[trigger] screens[k]).width > 0 && screens[k].height > 0,
    ensures
        unsized_from(screens, i) == unsized_from(screens, n),
    decreases n - i,
{
    if i < n {
        assert(screens[i].width > 0 && screens[i].height > 0);
        lemma_sized_until(screens, i + 1, n);
    }
}

proof fn lemma_first_fault(screens: Seq<ScreenConfig>, i: int, n: int)
    requires
        0 <= i <= n < screens.len(),
        forall|k: int| i <= k < n ==> (#[trigger] screens[k]).fault() is None,
    ensures
        fault_from(screens, i) == fault_from(screens, n),
    decreases n - i,
{
    if i < n {
        assert(screens[i].fault() is None);
        lemma_first_fault(screens, i + 1, n);
    }
}

} // verus!
