//! Routing on the dongle.
//!
//! The dongle routes with the same layout engine the controller is tested
//! against. A router holds the one stored layout, which machine is pinned to
//! which node, and how input is translated for each node.

use vstd::prelude::*;
use vstd::utf8::{decode_utf8, encode_utf8, valid_utf8};

use crate::bytes::{lemma_splice_at_start, put, same_six, sixteen_at, splice};
use crate::config::InputConfig;
use crate::layout::{
    arrival_edge, centre, clamped, layout_error, local_from, starts_in_range, Desktop, Layout,
    Motion, Screen,
};
use crate::proto::button;
use crate::proto::config_wire::{
    append_screen, config_wire, flat_screens, is_canonical, lemma_canonical_screen, lemma_flat_len,
    read_screens, screens_in,
};
use crate::proto::edge::Edge;
use crate::proto::mouse_flag;
use crate::proto::profile::{mapped_bits, InputProfile};
use crate::proto::screen::{no_address, ScreenWire};
use crate::proto::{MAX_SCREENS, NAME_LEN};
use crate::text::{padded, padded_text};

verus! {

/// Result of feeding motion in.
#[derive(Debug, Clone, Copy, PartialEq, Eq, Structural)]
pub struct ScurryRoute {
    /// 1 when the pointer changed screens.
    pub crossed: u8,
    /// Node being left. Only meaningful when `crossed`.
    pub from: u8,
    /// Node now holding the pointer. 0 means the controller's own screen, so
    /// the dongle should transmit nothing.
    pub to: u8,
    /// Arrival edge. Only when `crossed`.
    pub edge: u8,
    /// Position along that edge. Only when `crossed`.
    pub ratio: u16,
    /// Pointer position within `to`, normalised to 0..=32767.
    ///
    /// The dongle sends this as an absolute HID coordinate rather than a
    /// relative nudge. Relative motion requires dead reckoning, and that is off
    /// the moment anything else moves the pointer, or as soon as the target
    /// applies its own pointer acceleration to our deltas.
    pub abs_x: u16,
    pub abs_y: u16,
}

/// A mouse report after the target's profile has been applied.
#[derive(Debug, Clone, Copy, PartialEq, Eq, Structural)]
pub struct ScurryMouse {
    pub buttons: u8,
    pub dx: i16,
    pub dy: i16,
    pub wheel: i8,
    pub pan: i8,
}

/// Where `offset` sits within `span` pixels, in the HID logical range.
pub open spec fn normalised(offset: int, span: int) -> int {
    if span <= 1 {
        0
    } else {
        clamped(offset, 0, span - 1) * 32767 / (span - 1)
    }
}

/// The byte that stands for an edge.
pub open spec fn edge_byte(e: Edge) -> u8 {
    match e {
        Edge::Left => 0,
        Edge::Right => 1,
        Edge::Top => 2,
        Edge::Bottom => 3,
    }
}

/// Normalise a coordinate within a span to 0..=32767, the HID logical range.
pub fn normalise(offset: i32, span: i32) -> (r: u16)
    ensures
        r as int == normalised(offset as int, span as int),
        r <= 32767,
{
    if span <= 1 {
        return 0;
    }
    let held: i64 = if offset < 0 {
        0
    } else if offset > span - 1 {
        span as i64 - 1
    } else {
        offset as i64
    };
    proof {
        lemma_normalised(held as int, span as int);
    }
    ((held * 32767) / (span as i64 - 1)) as u16
}

proof fn lemma_normalised(offset: int, span: int)
    requires
        span > 1,
        0 <= offset <= span - 1,
    ensures
        0 <= offset * 32767 / (span - 1) <= 32767,
{
    assert(0 <= offset * 32767 / (span - 1) <= 32767) by (nonlinear_arith)
        requires
            0 <= offset <= span - 1,
            span > 1,
    ;
}

fn edge_to_wire(e: Edge) -> (r: u8)
    ensures
        r == edge_byte(e),
{
    match e {
        Edge::Left => 0,
        Edge::Right => 1,
        Edge::Top => 2,
        Edge::Bottom => 3,
    }
}

/// The one stored layout, with the pins and profiles beside it: the layout is
/// about geometry, and which machine sits at a screen, or how input is
/// translated for it, are questions it does not need to answer.
#[derive(Debug, Clone, Copy)]
pub struct Router {
    layout: Option<Layout>,
    pins: [([u8; 6], u8); 5],
    pin_count: usize,
    profiles: [InputProfile; 5],
}

/// What a router stands for.
pub struct Routing {
    pub layout: Option<Desktop>,
    /// Which node each Bluetooth address belongs to, in the order of the
    /// layout's screens.
    pub pins: Seq<([u8; 6], u8)>,
    /// Input profile by node id.
    pub profiles: Seq<InputProfile>,
}

/// The screen that a wire screen places.
pub open spec fn placed(w: ScreenWire) -> Screen {
    Screen::placed(w.node, padded_text(w.name@), w.x, w.y, w.width, w.height)
}

/// The screens that wire screens place.
pub open spec fn all_placed(ws: Seq<ScreenWire>) -> Seq<Screen> {
    Seq::new(ws.len(), |i: int| placed(ws[i]))
}

/// The first screen from `i` on without a pixel; their number where all have.
pub open spec fn blank_from(ws: Seq<ScreenWire>, i: int) -> int
    decreases ws.len() - i,
{
    if i >= ws.len() || ws[i].width <= 0 || ws[i].height <= 0 {
        i
    } else {
        blank_from(ws, i + 1)
    }
}

/// The profiles of the first `n` screens, by node; unchanged input for the
/// other nodes.
pub open spec fn profiles_of(ws: Seq<ScreenWire>, n: int) -> Seq<InputProfile>
    decreases n,
{
    if n <= 0 {
        Seq::new(MAX_SCREENS as nat, |i: int| InputProfile::identity_profile())
    } else if ws[n - 1].node < MAX_SCREENS {
        profiles_of(ws, n - 1).update(ws[n - 1].node as int, ws[n - 1].profile)
    } else {
        profiles_of(ws, n - 1)
    }
}

/// The pins of the first `n` screens, in order.
pub open spec fn pins_of(ws: Seq<ScreenWire>, n: int) -> Seq<([u8; 6], u8)>
    decreases n,
{
    if n <= 0 {
        Seq::empty()
    } else if ws[n - 1].bda != no_address() {
        pins_of(ws, n - 1).push((ws[n - 1].bda, ws[n - 1].node))
    } else {
        pins_of(ws, n - 1)
    }
}

/// `new` written over the start of `before`, at its length.
pub open spec fn written_over(
    before: Seq<([u8; 6], u8)>,
    new: Seq<([u8; 6], u8)>,
) -> Seq<([u8; 6], u8)> {
    Seq::new(
        before.len(),
        |i: int|
            if i < new.len() {
                new[i]
            } else {
                before[i]
            },
    )
}

/// The address that the last of the first `n` pins for `node` names; none
/// where there is no such pin.
pub open spec fn pin_for(pins: Seq<([u8; 6], u8)>, node: u8, n: int) -> [u8; 6]
    decreases n,
{
    if n <= 0 {
        no_address()
    } else if pins[n - 1].1 == node {
        pins[n - 1].0
    } else {
        pin_for(pins, node, n - 1)
    }
}

/// The node of the first pin from `i` on that names the address.
pub open spec fn node_from(pins: Seq<([u8; 6], u8)>, bda: Seq<u8>, i: int) -> Option<u8>
    decreases pins.len() - i,
{
    if i >= pins.len() {
        None
    } else if pins[i].0@ == bda {
        Some(pins[i].1)
    } else {
        node_from(pins, bda, i + 1)
    }
}

/// `v` with its sign turned, held within range.
pub open spec fn flipped8(v: i8) -> i8 {
    if v == -128 {
        127i8
    } else {
        (-v) as i8
    }
}

/// Left and right exchanged.
pub open spec fn swapped_buttons(b: u8) -> u8 {
    (b & 0xFC) | (if b & button::LEFT != 0 {
        button::RIGHT
    } else {
        0
    }) | (if b & button::RIGHT != 0 {
        button::LEFT
    } else {
        0
    })
}

/// What a mouse report becomes under a profile.
pub open spec fn mapped_mouse(
    p: InputProfile,
    buttons: u8,
    dx: i16,
    dy: i16,
    wheel: i8,
    pan: i8,
) -> ScurryMouse {
    let natural = p.mouse_flags & mouse_flag::NATURAL_SCROLL != 0;
    ScurryMouse {
        buttons: if p.mouse_flags & mouse_flag::SWAP_BUTTONS != 0 {
            swapped_buttons(buttons)
        } else {
            buttons
        },
        dx: p.motion(dx, dy).0,
        dy: p.motion(dx, dy).1,
        wheel: if natural {
            flipped8(wheel)
        } else {
            wheel
        },
        pan: if natural {
            flipped8(pan)
        } else {
            pan
        },
    }
}

impl Routing {
    /// What installing a payload answers, and what it leaves behind.
    ///
    /// The profiles are reset first: a node dropped from the layout must not
    /// keep the profile it had under the previous one. A screen without a
    /// pixel stops the reading there; what was read before it stays.
    pub open spec fn loaded(self, data: Seq<u8>) -> (Routing, i32) {
        if data.len() < 1 {
            (self, -1i32)
        } else if data[0] == 0 || data[0] > MAX_SCREENS {
            (self, -2i32)
        } else if data.len() < 1 + 51 * data[0] {
            (self, -3i32)
        } else {
            let ws = screens_in(data);
            let bad = blank_from(ws, 0);
            if bad < ws.len() {
                (
                    Routing {
                        layout: self.layout,
                        pins: written_over(self.pins, pins_of(ws, bad)),
                        profiles: profiles_of(ws, bad),
                    },
                    -5i32,
                )
            } else {
                let pins = pins_of(ws, ws.len() as int);
                let profiles = profiles_of(ws, ws.len() as int);
                let screens = all_placed(ws);
                if layout_error(screens) is Some {
                    (Routing { layout: self.layout, pins, profiles }, -6i32)
                } else {
                    (Routing { layout: Some(start(screens)), pins, profiles }, 0i32)
                }
            }
        }
    }

    /// The profile of a node.
    pub open spec fn profile(self, node: u8) -> InputProfile {
        if node < MAX_SCREENS {
            self.profiles[node as int]
        } else {
            InputProfile::identity_profile()
        }
    }

    /// A screen on its way back out: with its pin and its profile, or a
    /// read-modify-write would silently unpin and reset every screen.
    pub open spec fn saved_screen(self, s: Screen) -> ScreenWire {
        ScreenWire {
            node: s.node,
            name: sixteen_at(padded(encode_utf8(padded_text(s.name@)), NAME_LEN as int), 0),
            x: s.x,
            y: s.y,
            width: s.width,
            height: s.height,
            bda: pin_for(self.pins, s.node, self.pins.len() as int),
            profile: self.profile(s.node),
        }
    }

    /// The stored screens on their way back out.
    pub open spec fn saved_screens(self, screens: Seq<Screen>) -> Seq<ScreenWire> {
        Seq::new(screens.len(), |i: int| self.saved_screen(screens[i]))
    }

    /// With these nodes declared able to receive input.
    pub open spec fn with_available(self, mask: u32) -> Routing {
        Routing {
            layout: match self.layout {
                Some(d) => Some(Desktop { available: Some(mask), ..d }),
                None => None,
            },
            ..self
        }
    }

    /// After relative motions, one after the other.
    pub open spec fn advanced(self, moves: Seq<(int, int)>) -> Routing
        decreases moves.len(),
    {
        if moves.len() == 0 || self.layout is None {
            self
        } else {
            let before = self.advanced(moves.drop_last());
            let d = before.layout.unwrap();
            Routing { layout: Some(d.moved(moves.last().0, moves.last().1)), ..before }
        }
    }

    /// There are no more pins and profiles than screens can have.
    pub open spec fn is_sized(self) -> bool {
        self.pins.len() <= MAX_SCREENS && self.profiles.len() == MAX_SCREENS
    }

    /// Where the pointer is on the screen that holds it.
    pub open spec fn route(before: Desktop, dx: int, dy: int) -> ScurryRoute {
        let after = before.moved(dx, dy);
        let crossed = before.crosses(dx, dy);
        ScurryRoute {
            crossed: if crossed {
                1
            } else {
                0
            },
            from: before.active().node,
            to: after.active().node,
            edge: if crossed {
                edge_byte(arrival_edge(dx, dy))
            } else {
                0
            },
            ratio: if crossed {
                before.departure(dx, dy) as u16
            } else {
                0
            },
            abs_x: normalised(after.x - after.active().x, after.active().width as int) as u16,
            abs_y: normalised(after.y - after.active().y, after.active().height as int) as u16,
        }
    }
}

/// The desktop that these screens form, with the pointer in the middle of the
/// local one.
pub open spec fn start(screens: Seq<Screen>) -> Desktop {
    let local = local_from(screens, 0);
    Desktop {
        screens,
        current: local,
        x: centre(screens[local]).0,
        y: centre(screens[local]).1,
        available: None,
    }
}

/// Whether a payload, where it forms a desktop, has a place to start within
/// the coordinates.
pub open spec fn payload_starts_in_range(data: Seq<u8>) -> bool {
    data.len() >= 1 && 0 < data[0] <= MAX_SCREENS && data.len() >= 1 + 51 * data[0] && blank_from(
        screens_in(data),
        0,
    ) >= data[0] ==> starts_in_range(all_placed(screens_in(data)))
}

impl View for Router {
    type V = Routing;

    closed spec fn view(&self) -> Routing {
        Routing {
            layout: match self.layout {
                Some(l) => Some(l@),
                None => None,
            },
            pins: self.pins@.take(self.pin_count as int),
            profiles: self.profiles@,
        }
    }
}

impl Default for Router {
    fn default() -> (r: Self)
        ensures
            r@.layout is None,
            r@.pins == Seq::<([u8; 6], u8)>::empty(),
            r@.profiles == profiles_of(Seq::empty(), 0),
    {
        Router::new()
    }
}

impl Router {
    #[verifier::type_invariant]
    closed spec fn inv(self) -> bool {
        self.pin_count <= MAX_SCREENS
    }

    /// A router with nowhere to route to yet.
    pub fn new() -> (r: Self)
        ensures
            r@.layout is None,
            r@.pins == Seq::<([u8; 6], u8)>::empty(),
            r@.profiles == profiles_of(Seq::empty(), 0),
    {
        let r = Router {
            layout: None,
            pins: [([0; 6], 0); 5],
            pin_count: 0,
            profiles: [InputProfile::identity(); 5],
        };
        assert(r@.pins =~= Seq::empty());
        assert(r@.profiles =~= profiles_of(Seq::empty(), 0));
        r
    }

    fn profile_for(&self, node: u8) -> (r: InputProfile)
        ensures
            r == self@.profile(node),
    {
        if (node as usize) < MAX_SCREENS {
            self.profiles[node as usize]
        } else {
            InputProfile::identity()
        }
    }

    /// The address that the layout pins `node` to; all zero where it pins none.
    fn pin_of(&self, node: u8) -> (r: [u8; 6])
        ensures
            r == pin_for(self@.pins, node, self@.pins.len() as int),
    {
        proof {
            use_type_invariant(self);
        }
        let mut bda: [u8; 6] = [0; 6];
        assert(bda =~= no_address());
        let mut i: usize = 0;
        while i < self.pin_count
            invariant
                i <= self.pin_count <= MAX_SCREENS,
                self@.pins.len() == self.pin_count,
                bda == pin_for(self@.pins, node, i as int),
            decreases self.pin_count - i,
        {
            assert(self@.pins[i as int] == self.pins@[i as int]);
            if self.pins[i].1 == node {
                bda = self.pins[i].0;
            }
            i = i + 1;
        }
        bda
    }
}

/// Install a layout from a CONFIG payload: one count byte then that many
/// screens.
///
/// Returns 0 on success, or a negative code. Rejecting here rather than at the
/// caller means an invalid layout can never be committed to storage.
pub fn scurry_layout_load(router: &mut Router, data: &[u8]) -> (code: i32)
    requires
        payload_starts_in_range(data@),
    ensures
        final(router)@ == old(router)@.loaded(data@).0,
        code == old(router)@.loaded(data@).1,
        final(router)@.is_sized(),
{
    proof {
        use_type_invariant(&*router);
    }
    if data.len() < 1 {
        return -1;
    }
    let count: usize = data[0] as usize;
    if count == 0 || count > MAX_SCREENS {
        return -2;
    }
    if data.len() < 1 + 51 * count {
        return -3;
    }
    let ghost ws = screens_in(data@);
    let ghost before = *router;
    let blank = Screen { node: 0, name: [0; 16], x: 0, y: 0, width: 1, height: 1 };
    let mut screens: [Screen; 5] = [blank; 5];
    let mut profiles: [InputProfile; 5] = [InputProfile::identity(); 5];
    let mut pins: [([u8; 6], u8); 5] = router.pins;
    let mut pinned: usize = 0;
    let read: Vec<ScreenWire> = read_screens(data, count);
    assert(profiles@ =~= profiles_of(ws, 0));
    let mut i: usize = 0;
    while i < count
        invariant
            i <= count <= 5,
            count == ws.len(),
            ws == screens_in(data@),
            read@ == ws,
            *router == before,
            before == *old(router),
            before.pin_count <= MAX_SCREENS,
            data@[0] == count,
            0 < count,
            data@.len() >= 1 + 51 * count,
            blank_from(ws, 0) == blank_from(ws, i as int),
            profiles@ == profiles_of(ws, i as int),
            pinned == pins_of(ws, i as int).len(),
            pinned <= i,
            forall|k: int| 0 <= k < pinned ==> pins@[k] == pins_of(ws, i as int)[k],
            forall|k: int| pinned <= k < 5 ==> pins@[k] == before.pins@[k],
            forall|k: int| 0 <= k < i ==> screens@[k] == placed(ws[k]),
        decreases count - i,
    {
        let w: &ScreenWire = &read[i];
        if w.width <= 0 || w.height <= 0 {
            router.profiles = profiles;
            router.pins = pins;
            assert(router@.pins =~= written_over(before@.pins, pins_of(ws, i as int)));
            return -5;
        }
        screens[i] = Screen::new(w.node, w.name_str(), w.x, w.y, w.width, w.height);
        if (w.node as usize) < MAX_SCREENS {
            profiles[w.node as usize] = w.profile;
        }
        if w.is_pinned() {
            pins[pinned] = (w.bda, w.node);
            pinned = pinned + 1;
        }
        assert(profiles@ =~= profiles_of(ws, i + 1));
        i = i + 1;
    }
    router.profiles = profiles;
    router.pins = pins;
    router.pin_count = pinned;
    assert(router@.pins =~= pins_of(ws, ws.len() as int));
    let used: &[Screen] = vstd::slice::slice_subrange(screens.as_slice(), 0, count);
    assert(used@ =~= all_placed(ws));
    match Layout::new(used) {
        Ok(l) => {
            router.layout = Some(l);
            0
        },
        Err(_) => -6,
    }
}

/// Serialise the current layout back into a CONFIG payload.
///
/// Returns the number of bytes written, or a negative code: there is no
/// layout, or `out` is too small for it.
pub fn scurry_layout_save(router: &Router, out: &mut [u8]) -> (code: i32)
    ensures
        match router@.layout {
            None => code == -2 && final(out)@ == old(out)@,
            Some(d) => ({
                let payload = config_wire(router@.saved_screens(d.screens));
                &&& payload.len() == 1 + 51 * d.screens.len()
                &&& if old(out)@.len() < payload.len() {
                    code == -3 && final(out)@ == old(out)@
                } else {
                    code == payload.len() && final(out)@ == splice(old(out)@, 0, payload)
                }
            }),
        },
{
    let layout: &Layout = match &router.layout {
        Some(l) => l,
        None => return -2,
    };
    let screens: &[Screen] = layout.screens();
    let n: usize = screens.len();
    let need: usize = 1 + 51 * n;
    let ghost ws = router@.saved_screens(screens@);
    proof {
        lemma_flat_len(ws, n as int);
    }
    if out.len() < need {
        return -3;
    }
    let mut payload: Vec<u8> = Vec::new();
    payload.push(n as u8);
    assert(payload@ =~= seq![n as u8] + flat_screens(ws, 0));
    let mut i: usize = 0;
    while i < n
        invariant
            i <= n == screens@.len(),
            n <= 5,
            ws == router@.saved_screens(screens@),
            payload@ == seq![n as u8] + flat_screens(ws, i as int),
        decreases n - i,
    {
        let s: &Screen = &screens[i];
        // Carry the pin and the profile back out, or a read-modify-write
        // through the settings pane would silently reset every screen.
        let bda: [u8; 6] = router.pin_of(s.node);
        let mut w: ScreenWire = ScreenWire::pinned(
            s.node,
            s.name(),
            s.x,
            s.y,
            s.width,
            s.height,
            bda,
        );
        w.profile = router.profile_for(s.node);
        assert(w == ws[i as int]);
        append_screen(&mut payload, &w);
        assert(payload@ =~= seq![n as u8] + flat_screens(ws, i + 1));
        i = i + 1;
    }
    put(out, 0, payload.as_slice());
    need as i32
}

/// Translate a mouse report for a target: pointer scaling, axis inversion,
/// scroll direction, button swapping.
pub fn scurry_map_mouse(
    router: &Router,
    node: u8,
    buttons: u8,
    dx: i16,
    dy: i16,
    wheel: i8,
    pan: i8,
) -> (r: ScurryMouse)
    ensures
        r == mapped_mouse(router@.profile(node), buttons, dx, dy, wheel, pan),
{
    let p: InputProfile = router.profile_for(node);
    let (dx, dy): (i16, i16) = p.map_motion(dx, dy);
    let mut out: u8 = buttons;
    if p.mouse_flags & mouse_flag::SWAP_BUTTONS != 0 {
        let left: u8 = if buttons & button::LEFT != 0 {
            button::RIGHT
        } else {
            0
        };
        let right: u8 = if buttons & button::RIGHT != 0 {
            button::LEFT
        } else {
            0
        };
        out = (buttons & 0xFC) | left | right;
    }
    let natural: bool = p.mouse_flags & mouse_flag::NATURAL_SCROLL != 0;
    let wheel: i8 = if natural {
        flip8(wheel)
    } else {
        wheel
    };
    let pan: i8 = if natural {
        flip8(pan)
    } else {
        pan
    };
    ScurryMouse { buttons: out, dx, dy, wheel, pan }
}

fn flip8(v: i8) -> (r: i8)
    ensures
        r == flipped8(v),
{
    if v == -128 {
        127
    } else {
        -v
    }
}

/// Translate a host modifier byte into the one this target expects.
///
/// This is what makes a Mac usable against a PC-style target: the host sends
/// Cmd where Linux and ChromeOS want Ctrl.
pub fn scurry_map_modifiers(router: &Router, node: u8, host: u8) -> (r: u8)
    ensures
        r == mapped_bits(router@.profile(node).mod_map@, host, 8),
{
    router.profile_for(node).map_modifiers(host)
}

/// The node pinned to this Bluetooth address, or -1 if none is.
///
/// Lets the dongle give a reconnecting machine the same node id every time,
/// instead of whichever slot happened to be free. Without it, two screens
/// silently swap whenever the connection race resolves the other way.
pub fn scurry_layout_node_for_address(router: &Router, bda: &[u8; 6]) -> (r: i32)
    ensures
        r == match node_from(router@.pins, bda@, 0) {
            Some(node) => node as int,
            None => -1,
        },
{
    proof {
        use_type_invariant(router);
    }
    let mut i: usize = 0;
    while i < router.pin_count
        invariant
            i <= router.pin_count <= MAX_SCREENS,
            router@.pins.len() == router.pin_count,
            node_from(router@.pins, bda@, 0) == node_from(router@.pins, bda@, i as int),
        decreases router.pin_count - i,
    {
        assert(router@.pins[i as int] == router.pins@[i as int]);
        if same_six(&router.pins[i].0, bda) {
            return router.pins[i].1 as i32;
        }
        assert(router@.pins[i as int].0@ != bda@) by {
            if router@.pins[i as int].0@ == bda@ {
                assert(router@.pins[i as int].0 =~= *bda);
            }
        }
        i = i + 1;
    }
    -1
}

/// Declare which nodes can currently receive input, as a bitmask where bit N
/// means node N. Node 0 is always available regardless.
///
/// Without this the pointer crosses onto machines that are not connected, which
/// presents as the pointer sticking to a screen edge and going dead.
pub fn scurry_layout_set_available(router: &mut Router, mask: u32)
    ensures
        final(router)@ == old(router)@.with_available(mask),
{
    proof {
        use_type_invariant(&*router);
    }
    match router.layout {
        Some(l) => {
            let mut next: Layout = l;
            next.set_available(mask);
            router.layout = Some(next);
        },
        None => {},
    }
}

/// True once a layout has been installed. Until then the dongle has nowhere to
/// route input and should drop it rather than guess.
pub fn scurry_layout_ready(router: &Router) -> (r: u8)
    ensures
        r == if router@.layout is Some {
            1u8
        } else {
            0u8
        },
{
    if router.layout.is_some() {
        1
    } else {
        0
    }
}

/// Feed relative motion in and learn where it landed. Returns 0, or -2 where
/// there is no layout to route by, which leaves `out` alone.
pub fn scurry_layout_advance(router: &mut Router, dx: i32, dy: i32, out: &mut ScurryRoute) -> (code:
    i32)
    requires
        old(router)@.layout matches Some(d) ==> d.is_shown() && d.stays_in_range(
            dx as int,
            dy as int,
        ),
    ensures
        match old(router)@.layout {
            None => code == -2 && *final(out) == *old(out) && final(router)@ == old(router)@,
            Some(d) => {
                &&& code == 0
                &&& *final(out) == Routing::route(d, dx as int, dy as int)
                &&& final(router)@ == (Routing {
                    layout: Some(d.moved(dx as int, dy as int)),
                    ..old(router)@
                })
                &&& d.moved(dx as int, dy as int).is_shown()
            },
        },
{
    proof {
        use_type_invariant(&*router);
    }
    let mut layout: Layout = match router.layout {
        Some(l) => l,
        None => return -2,
    };
    let motion: Motion = layout.advance(dx, dy);
    // Position is read after the move, from the screen now holding the pointer,
    // so the normalisation uses the destination's dimensions.
    let active: Screen = *layout.active();
    let (px, py): (i32, i32) = layout.position();
    let abs_x: u16 = normalise(px - active.x, active.width);
    let abs_y: u16 = normalise(py - active.y, active.height);
    router.layout = Some(layout);
    *out = match motion {
        Motion::Stayed { node, .. } => ScurryRoute {
            crossed: 0,
            from: node,
            to: node,
            edge: 0,
            ratio: 0,
            abs_x,
            abs_y,
        },
        Motion::Crossed { from, to, edge, ratio, .. } => ScurryRoute {
            crossed: 1,
            from,
            to,
            edge: edge_to_wire(edge),
            ratio,
            abs_x,
            abs_y,
        },
    };
    0
}

/// Check a payload before it is installed: whether, where it forms a desktop,
/// that has a place to start within the coordinates.
pub fn payload_fits(data: &[u8]) -> (r: bool)
    ensures
        r == payload_starts_in_range(data@),
{
    if data.len() < 1 || data[0] == 0 || data[0] as usize > MAX_SCREENS {
        return true;
    }
    let count: usize = data[0] as usize;
    if data.len() < 1 + 51 * count {
        return true;
    }
    let ws: Vec<ScreenWire> = read_screens(data, count);
    let mut screens: Vec<Screen> = Vec::new();
    let mut i: usize = 0;
    while i < count
        invariant
            i <= count == ws@.len(),
            ws@ == screens_in(data@),
            count == data@[0],
            blank_from(ws@, 0) == blank_from(ws@, i as int),
            screens@.len() == i,
            forall|k: int| 0 <= k < i ==> screens@[k] == placed(#[trigger] ws@[k]),
        decreases count - i,
    {
        let w: &ScreenWire = &ws[i];
        if w.width <= 0 || w.height <= 0 {
            return true;
        }
        screens.push(Screen::new(w.node, w.name_str(), w.x, w.y, w.width, w.height));
        i = i + 1;
    }
    assert(screens@ =~= all_placed(ws@));
    Layout::can_start(screens.as_slice())
}

impl Router {
    /// Whether a motion can be fed in: there is a layout, the pointer is shown
    /// on it, and the motion stays within the coordinates.
    pub fn can_advance(&self, dx: i32, dy: i32) -> (r: bool)
        ensures
            r == (self@.layout matches Some(d) && d.is_shown() && d.stays_in_range(
                dx as int,
                dy as int,
            )),
    {
        match &self.layout {
            Some(l) => l.can_advance(dx, dy),
            None => false,
        }
    }
}

proof fn lemma_pin_prefix(a: Seq<([u8; 6], u8)>, b: Seq<([u8; 6], u8)>, node: u8, n: int)
    requires
        0 <= n <= a.len(),
        n <= b.len(),
        forall|k: int| 0 <= k < n ==> a[k] == b[k],
    ensures
        pin_for(a, node, n) == pin_for(b, node, n),
    decreases n,
{
    if n > 0 {
        lemma_pin_prefix(a, b, node, n - 1);
    }
}

/// Over screens of different nodes, each node keeps its own screen's pin and
/// profile, and a node that none of them has keeps none.
proof fn lemma_pins_and_profiles(ws: Seq<ScreenWire>, n: int, node: u8)
    requires
        0 <= n <= ws.len(),
        forall|a: int, b: int|
            #![trigger ws[a], ws[b]]
            0 <= a < b < n ==> ws[a].node != ws[b].node,
    ensures
        profiles_of(ws, n).len() == MAX_SCREENS,
        pins_of(ws, n).len() <= n,
        forall|i: int|
            0 <= i < n && (#[trigger] ws[i]).node == node ==> {
                &&& pin_for(pins_of(ws, n), node, pins_of(ws, n).len() as int) == ws[i].bda
                &&& node < MAX_SCREENS ==> profiles_of(ws, n)[node as int] == ws[i].profile
            },
        (forall|i: int| 0 <= i < n ==> (#[trigger] ws[i]).node != node) ==> {
            &&& pin_for(pins_of(ws, n), node, pins_of(ws, n).len() as int) == no_address()
            &&& node < MAX_SCREENS ==> profiles_of(ws, n)[node as int]
                == InputProfile::identity_profile()
        },
    decreases n,
{
    if n > 0 {
        lemma_pins_and_profiles(ws, n - 1, node);
        let before = pins_of(ws, n - 1);
        let after = pins_of(ws, n);
        if ws[n - 1].bda != no_address() {
            lemma_pin_prefix(before, after, node, before.len() as int);
        }
        if ws[n - 1].node == node {
            assert forall|i: int| 0 <= i < n - 1 implies (#[trigger] ws[i]).node != node by {
                assert(ws[i].node != ws[n - 1].node);
            }
        }
    }
}

/// A name read from its field and written back reads the same.
proof fn lemma_name_again(b: Seq<u8>)
    requires
        b.len() == NAME_LEN,
    ensures
        padded_text(sixteen_at(padded(encode_utf8(padded_text(b)), NAME_LEN as int), 0)@)
            == padded_text(b),
{
    crate::text::lemma_until_nul_shape(b);
    let p = crate::text::until_nul(b);
    if valid_utf8(p) {
        vstd::utf8::decode_utf8_encode_utf8(p);
        ScreenWire::law_name_is_kept(decode_utf8(p));
    } else {
        assert(encode_utf8(Seq::<char>::empty()) =~= Seq::empty());
        ScreenWire::law_name_is_kept(Seq::empty());
    }
}

impl Routing {
    /// Whatever is refused leaves the stored layout in place, and whatever is
    /// installed is a desktop whose screens all have pixels, with the pointer on
    /// the local one.
    pub proof fn law_an_invalid_layout_is_never_installed(self, data: Seq<u8>)
        ensures
            ({
                let (after, code) = self.loaded(data);
                &&& code != 0 ==> after.layout == self.layout
                &&& code == 0 ==> {
                    let d = after.layout.unwrap();
                    &&& after.layout is Some
                    &&& d.is_desktop()
                    &&& d.screens == all_placed(screens_in(data))
                    &&& d.active().node == Screen::LOCAL
                    &&& d.active().holds(d.x, d.y)
                    &&& forall|i: int|
                        0 <= i < d.screens.len() ==> (#[trigger] d.screens[i]).is_drawable()
                }
            }),
    {
        let (after, code) = self.loaded(data);
        if code == 0 {
            let ws = screens_in(data);
            let screens = all_placed(ws);
            lemma_blank_from(ws, 0);
            crate::layout::law_local_screen_is_found(screens);
            assert forall|i: int| 0 <= i < screens.len() implies (
            #[trigger] screens[i]).is_drawable() by {
                assert(ws[i].width > 0);
            }
            let s = screens[local_from(screens, 0)];
            assert(s.is_drawable());
        }
    }

    /// Motion changes nothing but where the pointer is.
    proof fn lemma_advanced(self, moves: Seq<(int, int)>)
        requires
            self.layout is Some,
        ensures
            ({
                let now = self.advanced(moves);
                &&& now.layout is Some
                &&& now.layout.unwrap().screens == self.layout.unwrap().screens
                &&& now.pins == self.pins
                &&& now.profiles == self.profiles
                &&& now.saved_screens(now.layout.unwrap().screens) == self.saved_screens(
                    self.layout.unwrap().screens,
                )
            }),
        decreases moves.len(),
    {
        if moves.len() > 0 {
            self.lemma_advanced(moves.drop_last());
        }
        let now = self.advanced(moves);
        let screens = self.layout.unwrap().screens;
        assert(now.saved_screens(screens) =~= self.saved_screens(screens));
    }

    /// What was installed is what is read back: the same nodes, places, names,
    /// pins and, for the nodes that have one, profiles. Reading a layout and
    /// writing it again changes nothing.
    pub proof fn law_save_gives_back_what_was_loaded(self, data: Seq<u8>)
        requires
            self.loaded(data).1 == 0,
        ensures
            ({
                let after = self.loaded(data).0;
                let ws = screens_in(data);
                let saved = after.saved_screens(after.layout.unwrap().screens);
                &&& saved.len() == ws.len()
                &&& screens_in(config_wire(saved)) == saved
                &&& forall|i: int|
                    0 <= i < ws.len() ==> {
                        let s = #[trigger] saved[i];
                        &&& s.node == ws[i].node
                        &&& (s.x, s.y, s.width, s.height) == (
                            ws[i].x,
                            ws[i].y,
                            ws[i].width,
                            ws[i].height,
                        )
                        &&& padded_text(s.name@) == padded_text(ws[i].name@)
                        &&& s.bda == ws[i].bda
                        &&& ws[i].node < MAX_SCREENS ==> s.profile == ws[i].profile
                    }
            }),
    {
        let after = self.loaded(data).0;
        let ws = screens_in(data);
        let screens = all_placed(ws);
        let saved = after.saved_screens(screens);
        crate::layout::law_what_forms_a_desktop(screens);
        assert forall|a: int, b: int|
            #![trigger ws[a], ws[b]]
            0 <= a < b < ws.len() implies ws[a].node != ws[b].node by {
            assert(screens[a].node != screens[b].node);
        }
        assert forall|i: int| 0 <= i < ws.len() implies {
            let s = #[trigger] saved[i];
            &&& s.node == ws[i].node
            &&& (s.x, s.y, s.width, s.height) == (ws[i].x, ws[i].y, ws[i].width, ws[i].height)
            &&& padded_text(s.name@) == padded_text(ws[i].name@)
            &&& s.bda == ws[i].bda
            &&& ws[i].node < MAX_SCREENS ==> s.profile == ws[i].profile
            &&& s.profile.mouse_scale_pct != 0
        } by {
            lemma_pins_and_profiles(ws, ws.len() as int, ws[i].node);
            lemma_name_again(ws[i].name@);
            lemma_name_again(screens[i].name@);
        }
        crate::proto::config_wire::law_roundtrip(saved, Seq::empty());
        assert(config_wire(saved) + Seq::<u8>::empty() =~= config_wire(saved));
    }

    /// The screens of a payload as it is written are saved as they were read.
    proof fn lemma_saved_screens(self, data: Seq<u8>)
        requires
            self.loaded(data).1 == 0,
            is_canonical(data),
            forall|i: int| 0 <= i < data[0] ==> (#[trigger] screens_in(data)[i]).node < MAX_SCREENS,
        ensures
            ({
                let after = self.loaded(data).0;
                &&& after.layout is Some
                &&& after.saved_screens(after.layout.unwrap().screens) == screens_in(data)
            }),
    {
        let after = self.loaded(data).0;
        let ws = screens_in(data);
        let screens = all_placed(ws);
        let saved = after.saved_screens(screens);
        self.law_save_gives_back_what_was_loaded(data);
        assert forall|i: int| 0 <= i < ws.len() implies saved[i] == #[trigger] ws[i] by {
            lemma_canonical_screen(data, i);
            assert(ws[i].node < MAX_SCREENS);
            assert(screens[i] == placed(ws[i]));
            assert(screens[i].name == ws[i].name);
            assert(saved[i] == after.saved_screen(screens[i]));
            assert(saved[i].name == ws[i].name);
        }
        assert(saved =~= ws);
    }

    /// Wherever the pointer went since, the stored layout is the payload that it
    /// was installed from, byte for byte. So saving it where there is room
    /// writes that payload, and nothing behind it.
    ///
    /// This holds of a payload as it is written. A node without a profile, a
    /// zero pointer speed, a name that is no text and bytes that stand for
    /// nothing come back as they are understood.
    pub proof fn law_save_writes_the_payload_that_was_loaded(
        self,
        data: Seq<u8>,
        moves: Seq<(int, int)>,
        out: Seq<u8>,
    )
        requires
            self.loaded(data).1 == 0,
            is_canonical(data),
            forall|i: int| 0 <= i < data[0] ==> (#[trigger] screens_in(data)[i]).node < MAX_SCREENS,
        ensures
            ({
                let now = self.loaded(data).0.advanced(moves);
                &&& now.layout is Some
                &&& config_wire(now.saved_screens(now.layout.unwrap().screens)) == data
            }),
            out.len() >= data.len() ==> {
                let written = splice(out, 0, data);
                &&& written.len() == out.len()
                &&& written.take(data.len() as int) == data
                &&& written.skip(data.len() as int) == out.skip(data.len() as int)
            },
    {
        self.lemma_saved_screens(data);
        self.loaded(data).0.lemma_advanced(moves);
        crate::proto::config_wire::law_canonical_bytes_are_written_back(data);
        lemma_splice_at_start(out, data);
    }

    /// A machine that the installed layout pins is always given the node of a
    /// screen pinned to it, however connections race; one that no screen is
    /// pinned to is given none.
    pub proof fn law_a_pinned_machine_keeps_its_node(self, data: Seq<u8>, bda: [u8; 6])
        requires
            self.loaded(data).1 == 0,
            bda != no_address(),
        ensures
            ({
                let ws = screens_in(data);
                let found = node_from(self.loaded(data).0.pins, bda@, 0);
                &&& found is Some <==> exists|i: int|
                    0 <= i < ws.len() && (#[trigger] ws[i]).bda == bda
                &&& found is Some ==> exists|i: int|
                    0 <= i < ws.len() && (#[trigger] ws[i]).bda == bda && ws[i].node
                        == found.unwrap()
            }),
    {
        let ws = screens_in(data);
        let pins = pins_of(ws, ws.len() as int);
        lemma_pins_of(ws, ws.len() as int);
        lemma_node_from(pins, bda@, 0);
        let found = node_from(pins, bda@, 0);
        if found is Some {
            let k = choose|k: int|
                0 <= k < pins.len() && (#[trigger] pins[k]).0@ == bda@ && pins[k].1
                    == found.unwrap();
            assert(pins[k].0 =~= bda);
        }
        if exists|i: int| 0 <= i < ws.len() && (#[trigger] ws[i]).bda == bda {
            let i = choose|i: int| 0 <= i < ws.len() && (#[trigger] ws[i]).bda == bda;
            assert(pins.contains((ws[i].bda, ws[i].node)));
            let k = choose|k: int| 0 <= k < pins.len() && pins[k] == (ws[i].bda, ws[i].node);
            assert(pins[k].0@ == bda@);
        }
    }
}

proof fn lemma_blank_from(ws: Seq<ScreenWire>, i: int)
    requires
        0 <= i <= ws.len(),
    ensures
        forall|k: int|
            i <= k < blank_from(ws, i) ==> (#[trigger] ws[k]).width > 0 && ws[k].height > 0,
        i <= blank_from(ws, i) <= ws.len(),
        blank_from(ws, i) < ws.len() ==> ws[blank_from(ws, i)].width <= 0 || ws[blank_from(
            ws,
            i,
        )].height <= 0,
    decreases ws.len() - i,
{
    if i < ws.len() && ws[i].width > 0 && ws[i].height > 0 {
        lemma_blank_from(ws, i + 1);
    }
}

proof fn lemma_pins_of(ws: Seq<ScreenWire>, n: int)
    requires
        0 <= n <= ws.len(),
    ensures
        forall|k: int|
            0 <= k < pins_of(ws, n).len() ==> exists|i: int|
                0 <= i < n && (#[trigger] ws[i]).bda == (#[trigger] pins_of(ws, n)[k]).0
                    && ws[i].node == pins_of(ws, n)[k].1,
        forall|i: int|
            0 <= i < n && (#[trigger] ws[i]).bda != no_address() ==> pins_of(ws, n).contains(
                (ws[i].bda, ws[i].node),
            ),
    decreases n,
{
    if n > 0 {
        lemma_pins_of(ws, n - 1);
        let before = pins_of(ws, n - 1);
        let after = pins_of(ws, n);
        assert forall|i: int|
            0 <= i < n && (#[trigger] ws[i]).bda != no_address() implies after.contains(
            (ws[i].bda, ws[i].node),
        ) by {
            if i == n - 1 {
                assert(after[after.len() - 1] == (ws[i].bda, ws[i].node));
            } else {
                let k = choose|k: int|
                    0 <= k < before.len() && before[k] == (ws[i].bda, ws[i].node);
                assert(after[k] == (ws[i].bda, ws[i].node));
            }
        }
        assert forall|k: int| 0 <= k < after.len() implies exists|i: int|
            0 <= i < n && (#[trigger] ws[i]).bda == (#[trigger] after[k]).0 && ws[i].node
                == after[k].1 by {
            if k < before.len() {
                assert(after[k] == before[k]);
                let i = choose|i: int|
                    0 <= i < n - 1 && (#[trigger] ws[i]).bda == before[k].0 && ws[i].node
                        == before[k].1;
                assert(ws[i].bda == after[k].0);
            } else {
                assert(ws[n - 1].bda == after[k].0);
            }
        }
    }
}

proof fn lemma_node_from(pins: Seq<([u8; 6], u8)>, bda: Seq<u8>, i: int)
    requires
        0 <= i <= pins.len(),
    ensures
        node_from(pins, bda, i) is None ==> forall|k: int|
            i <= k < pins.len() ==> (#[trigger] pins[k]).0@ != bda,
        node_from(pins, bda, i) matches Some(node) ==> exists|k: int|
            i <= k < pins.len() && (#[trigger] pins[k]).0@ == bda && pins[k].1 == node,
    decreases pins.len() - i,
{
    if i < pins.len() && pins[i].0@ != bda {
        lemma_node_from(pins, bda, i + 1);
    }
}

/// A profile that changes nothing passes a whole report through as it is.
pub proof fn law_identity_passes_reports_through(
    buttons: u8,
    dx: i16,
    dy: i16,
    wheel: i8,
    pan: i8,
)
    ensures
        mapped_mouse(InputProfile::identity_profile(), buttons, dx, dy, wheel, pan) == (
        ScurryMouse { buttons, dx, dy, wheel, pan }),
{
    InputProfile::law_identity_changes_nothing(0, dx, dy);
    assert(0u8 & 4 == 0 && 0u8 & 8 == 0) by (bit_vector);
}

/// Exchanging left and right twice changes nothing, and no other button is
/// touched.
pub proof fn law_button_swap_is_two_way(b: u8)
    ensures
        swapped_buttons(swapped_buttons(b)) == b,
        swapped_buttons(b) & 0xFC == b & 0xFC,
        swapped_buttons(b) & button::LEFT != 0 <==> b & button::RIGHT != 0,
        swapped_buttons(b) & button::RIGHT != 0 <==> b & button::LEFT != 0,
{
    assert({
        let s = (b & 0xFC) | (if b & 1 != 0 { 2u8 } else { 0 }) | (if b & 2 != 0 { 1u8 } else { 0 });
        &&& (s & 0xFC) | (if s & 1 != 0 { 2u8 } else { 0 }) | (if s & 2 != 0 { 1u8 } else { 0 })
            == b
        &&& s & 0xFC == b & 0xFC
        &&& (s & 1 != 0 <==> b & 2 != 0)
        &&& (s & 2 != 0 <==> b & 1 != 0)
    }) by (bit_vector);
}

/// A coordinate of the HID range says how far along a span an offset is, rounded
/// down: nothing before the first pixel, everything past the last, and for a
/// later pixel never less.
pub proof fn law_how_a_coordinate_is_normalised(offset: int, further: int, span: int)
    requires
        offset <= further,
    ensures
        0 <= normalised(offset, span) <= 32767,
        span <= 1 ==> normalised(offset, span) == 0,
        span > 1 && 0 <= offset < span ==> normalised(offset, span) * (span - 1) <= offset * 32767
            && offset * 32767 < (normalised(offset, span) + 1) * (span - 1),
        span > 1 && offset <= 0 ==> normalised(offset, span) == 0,
        span > 1 && offset >= span - 1 ==> normalised(offset, span) == 32767,
        normalised(offset, span) <= normalised(further, span),
{
    if span > 1 {
        let a = clamped(offset, 0, span - 1);
        let b = clamped(further, 0, span - 1);
        lemma_normalised(a, span);
        lemma_normalised(b, span);
        let (q, n, d) = (a * 32767 / (span - 1), a * 32767, span - 1);
        assert(q * d <= n && n < (q + 1) * d) by (nonlinear_arith)
            requires
                d > 0,
                q == n / d,
        ;
        assert(a * 32767 / (span - 1) <= b * 32767 / (span - 1)) by (nonlinear_arith)
            requires
                a <= b,
                span > 1,
        ;
        assert((span - 1) * 32767 / (span - 1) == 32767) by (nonlinear_arith)
            requires
                span > 1,
        ;
    }
}

/// After every motion, crossing or not, what is reported is where the pointer
/// is: which node holds it, and how far across and down that node's screen it
/// stands. A crossing is reported exactly where the pointer changed screens,
/// with the node that it left, the edge that it arrived at and how far along
/// that it was.
pub proof fn law_what_a_motion_reports(d: Desktop, dx: int, dy: int)
    requires
        d.is_desktop(),
        d.is_shown(),
    ensures
        ({
            let out = Routing::route(d, dx, dy);
            let after = d.moved(dx, dy);
            let s = d.screens[after.current];
            let (w, h) = (s.width - 1, s.height - 1);
            let ax = if dx < 0 {
                -dx
            } else {
                dx
            };
            let ay = if dy < 0 {
                -dy
            } else {
                dy
            };
            &&& out.to == s.node
            &&& out.from == d.screens[d.current].node
            &&& out.crossed == 1 <==> after.current != d.current
            &&& out.crossed == 0 <==> after.current == d.current
            &&& w > 0 ==> out.abs_x * w <= (after.x - s.x) * 32767 && (after.x - s.x) * 32767 < (
            out.abs_x + 1) * w
            &&& w == 0 ==> out.abs_x == 0
            &&& h > 0 ==> out.abs_y * h <= (after.y - s.y) * 32767 && (after.y - s.y) * 32767 < (
            out.abs_y + 1) * h
            &&& h == 0 ==> out.abs_y == 0
            &&& out.abs_x <= 32767 && out.abs_y <= 32767
            &&& out.crossed == 0 ==> out.edge == 0 && out.ratio == 0
            &&& out.crossed == 1 ==> out.ratio == d.departure(dx, dy)
            &&& out.crossed == 1 && ax >= ay ==> out.edge == if dx > 0 {
                0u8
            } else {
                1u8
            }
            &&& out.crossed == 1 && ax < ay ==> out.edge == if dy > 0 {
                2u8
            } else {
                3u8
            }
        }),
{
    d.law_pointer_is_never_lost(dx, dy);
    let after = d.moved(dx, dy);
    let s = after.active();
    law_how_a_coordinate_is_normalised(after.x - s.x, after.x - s.x, s.width as int);
    law_how_a_coordinate_is_normalised(after.y - s.y, after.y - s.y, s.height as int);
    if d.crosses(dx, dy) {
        d.law_crossing_keeps_the_proportion(dx, dy);
    }
}

/// What each flag does to a report. The third reverses the wheel and the pan,
/// each whatever way it turns; the fourth exchanges left and right, and leaves
/// the other buttons; the first two turn the motion around. Without its flag
/// nothing of this happens, and motion is scaled by the speed.
pub proof fn law_what_each_flag_does(
    p: InputProfile,
    buttons: u8,
    dx: i16,
    dy: i16,
    wheel: i8,
    pan: i8,
)
    ensures
        ({
            let r = mapped_mouse(p, buttons, dx, dy, wheel, pan);
            let natural = p.mouse_flags & 4 != 0;
            let swapped = p.mouse_flags & 8 != 0;
            &&& natural && wheel > -128 ==> r.wheel == -wheel
            &&& natural && wheel == -128 ==> r.wheel == 127
            &&& natural && pan > -128 ==> r.pan == -pan
            &&& natural && pan == -128 ==> r.pan == 127
            &&& !natural ==> r.wheel == wheel && r.pan == pan
            &&& swapped ==> (r.buttons & 1 != 0 <==> buttons & 2 != 0)
            &&& swapped ==> (r.buttons & 2 != 0 <==> buttons & 1 != 0)
            &&& swapped ==> r.buttons & 0xFC == buttons & 0xFC
            &&& !swapped ==> r.buttons == buttons
            &&& r.dx == p.motion(dx, dy).0
            &&& r.dy == p.motion(dx, dy).1
        }),
{
    let b = buttons;
    assert({
        let s = (b & 0xFC) | (if b & 1 != 0 { 2u8 } else { 0 }) | (if b & 2 != 0 { 1u8 } else { 0 });
        &&& (s & 1 != 0 <==> b & 2 != 0)
        &&& (s & 2 != 0 <==> b & 1 != 0)
        &&& s & 0xFC == b & 0xFC
    }) by (bit_vector);
}

/// What a person's settings do to input: reverse the wheel and the pan exactly
/// where natural scrolling is asked for, exchange left and right exactly where
/// that is, and turn each axis exactly where that is.
pub proof fn law_settings_take_effect(
    c: InputConfig,
    buttons: u8,
    dx: i16,
    dy: i16,
    wheel: i8,
    pan: i8,
)
    requires
        wheel > -128,
        pan > -128,
    ensures
        ({
            let r = mapped_mouse(c.profile(), buttons, dx, dy, wheel, pan);
            let plain = InputProfile { mouse_flags: 0, ..c.profile() }.motion(dx, dy);
            &&& r.wheel == if c.natural_scroll {
                -wheel
            } else {
                wheel as int
            }
            &&& r.pan == if c.natural_scroll {
                -pan
            } else {
                pan as int
            }
            &&& c.swap_buttons ==> (r.buttons & 1 != 0 <==> buttons & 2 != 0) && (r.buttons & 2 != 0
                <==> buttons & 1 != 0)
            &&& !c.swap_buttons ==> r.buttons == buttons
            &&& c.invert_x && plain.0 > -32768 ==> r.dx == -plain.0
            &&& !c.invert_x ==> r.dx == plain.0
            &&& c.invert_y && plain.1 > -32768 ==> r.dy == -plain.1
            &&& !c.invert_y ==> r.dy == plain.1
        }),
{
    c.law_each_setting_sets_its_own_bit();
    law_what_each_flag_does(c.profile(), buttons, dx, dy, wheel, pan);
    c.profile().law_flags_turn_their_axis(dx, dy);
}

impl Routing {
    /// What installing a payload answers: that it is empty, counts no screens or
    /// more than five, is too short for them, holds one without a pixel, forms
    /// no desktop, or that it was installed. Only then does the stored layout
    /// change, and one that counts or measures wrong leaves everything alone.
    pub proof fn law_what_installing_answers(self, data: Seq<u8>, i: int)
        requires
            0 <= i,
        ensures
            ({
                let (after, code) = self.loaded(data);
                let long = data.len() >= 1 && 1 <= data[0] <= 5 && data.len() >= 1 + 51 * data[0];
                let ws = screens_in(data);
                let sized = forall|k: int|
                    0 <= k < ws.len() ==> (#[trigger] ws[k]).width > 0 && ws[k].height > 0;
                &&& data.len() == 0 <==> code == -1
                &&& data.len() > 0 && (data[0] == 0 || data[0] > 5) <==> code == -2
                &&& data.len() > 0 && 1 <= data[0] <= 5 && data.len() < 1 + 51 * data[0] <==> code
                    == -3
                &&& long && !sized <==> code == -5
                &&& long && sized && layout_error(all_placed(ws)) is Some <==> code == -6
                &&& long && sized && layout_error(all_placed(ws)) is None <==> code == 0
                &&& !long ==> after == self
                &&& code != 0 ==> after.layout == self.layout
                &&& code == 0 ==> after.layout is Some && after.layout.unwrap().screens
                    == all_placed(ws) && after.layout.unwrap().available is None
                &&& long && i < data[0] ==> {
                    let s = all_placed(ws)[i];
                    &&& s.node == ws[i].node
                    &&& s.x == ws[i].x && s.y == ws[i].y
                    &&& s.width == ws[i].width && s.height == ws[i].height
                }
            }),
    {
        if data.len() >= 1 {
            let ws = screens_in(data);
            lemma_blank_from(ws, 0);
            let bad = blank_from(ws, 0);
            if bad < ws.len() {
                assert(!(ws[bad].width > 0 && ws[bad].height > 0));
            }
        }
    }

    /// An installed layout starts on the screen of node 0, in its middle.
    pub proof fn law_an_installed_layout_starts_at_home(self, data: Seq<u8>)
        requires
            self.loaded(data).1 == 0,
        ensures
            ({
                let d = self.loaded(data).0.layout.unwrap();
                let s = d.screens[d.current];
                &&& 0 <= d.current < d.screens.len()
                &&& s.node == 0
                &&& 2 * (d.x - s.x) <= s.width && s.width <= 2 * (d.x - s.x) + 1
                &&& 2 * (d.y - s.y) <= s.height && s.height <= 2 * (d.y - s.y) + 1
            }),
    {
        let ws = screens_in(data);
        lemma_blank_from(ws, 0);
        crate::layout::law_local_screen_is_found(all_placed(ws));
        let home = local_from(all_placed(ws), 0);
        assert(all_placed(ws)[home].width == ws[home].width);
        crate::layout::law_the_pointer_starts_in_the_middle(all_placed(ws)[home]);
    }

    /// Once a layout is installed each of its nodes has the profile and the pin
    /// of its own screen. A node that it does not have keeps nothing of what was
    /// there before: input is unchanged for it, and nothing is pinned to it.
    pub proof fn law_each_node_has_its_own_profile_and_pin(self, data: Seq<u8>, i: int, node: u8)
        requires
            self.loaded(data).1 == 0,
        ensures
            ({
                let after = self.loaded(data).0;
                let ws = screens_in(data);
                let pin = pin_for(after.pins, node, after.pins.len() as int);
                &&& 0 <= i < ws.len() && ws[i].node == node ==> pin == ws[i].bda && (node < 5
                    ==> after.profile(node) == ws[i].profile)
                &&& (forall|k: int| 0 <= k < ws.len() ==> (#[trigger] ws[k]).node != node) || node
                    >= 5 ==> after.profile(node).mouse_scale_pct == 100 && after.profile(
                    node,
                ).mouse_flags == 0 && after.profile(node).mod_map@ == seq![
                    1u8,
                    2,
                    4,
                    8,
                    16,
                    32,
                    64,
                    128,
                ]
                &&& (forall|k: int| 0 <= k < ws.len() ==> (#[trigger] ws[k]).node != node)
                    ==> pin@ == seq![0u8, 0, 0, 0, 0, 0]
            }),
    {
        let ws = screens_in(data);
        let screens = all_placed(ws);
        crate::layout::law_what_forms_a_desktop(screens);
        assert forall|a: int, b: int|
            #![trigger ws[a], ws[b]]
            0 <= a < b < ws.len() implies ws[a].node != ws[b].node by {
            assert(screens[a].node != screens[b].node);
        }
        lemma_pins_and_profiles(ws, ws.len() as int, node);
    }
}

/// Of the screens that were read, the last of a node gives that node its
/// profile, and a node that none has is left unchanged input.
pub proof fn law_the_last_screen_of_a_node_gives_its_profile(
    ws: Seq<ScreenWire>,
    n: int,
    k: int,
    node: u8,
)
    requires
        0 <= n <= ws.len(),
        -1 <= k < n,
        node < 5,
        k >= 0 ==> ws[k].node == node,
        forall|j: int| k < j < n ==> (#[trigger] ws[j]).node != node,
    ensures
        profiles_of(ws, n).len() == 5,
        k >= 0 ==> profiles_of(ws, n)[node as int] == ws[k].profile,
        k < 0 ==> profiles_of(ws, n)[node as int].mouse_scale_pct == 100 && profiles_of(
            ws,
            n,
        )[node as int].mouse_flags == 0 && profiles_of(ws, n)[node as int].mod_map@ == seq![
            1u8,
            2,
            4,
            8,
            16,
            32,
            64,
            128,
        ],
    decreases n,
{
    if n > 0 {
        if k < n - 1 {
            assert(ws[n - 1].node != node);
            law_the_last_screen_of_a_node_gives_its_profile(ws, n - 1, k, node);
        } else {
            lemma_profiles_len(ws, n - 1);
        }
    }
}

proof fn lemma_profiles_len(ws: Seq<ScreenWire>, n: int)
    ensures
        profiles_of(ws, n).len() == 5,
    decreases n,
{
    if n > 0 {
        lemma_profiles_len(ws, n - 1);
    }
}

/// The pins are those of the screens that have an address which is not all
/// zeros, in order, each with its node. Where reading stopped they replace the
/// first of the old ones, and the others stay.
pub proof fn law_which_pins_there_are(
    ws: Seq<ScreenWire>,
    n: int,
    before: Seq<([u8; 6], u8)>,
    i: int,
)
    requires
        0 < n <= ws.len(),
        0 <= i < before.len(),
    ensures
        pins_of(ws, 0) == Seq::<([u8; 6], u8)>::empty(),
        ws[n - 1].bda@ == seq![0u8, 0, 0, 0, 0, 0] ==> pins_of(ws, n) == pins_of(ws, n - 1),
        ws[n - 1].bda@ != seq![0u8, 0, 0, 0, 0, 0] ==> pins_of(ws, n) == pins_of(ws, n - 1).push(
            (ws[n - 1].bda, ws[n - 1].node),
        ),
        written_over(before, pins_of(ws, n)).len() == before.len(),
        i < pins_of(ws, n).len() ==> written_over(before, pins_of(ws, n))[i] == pins_of(ws, n)[i],
        i >= pins_of(ws, n).len() ==> written_over(before, pins_of(ws, n))[i] == before[i],
{
    if ws[n - 1].bda@ == seq![0u8, 0, 0, 0, 0, 0] {
        assert(ws[n - 1].bda =~= no_address());
    }
}

/// A payload that is refused for a screen without a pixel leaves the profiles
/// and the pins of the screens before it; one whose screens form no desktop
/// leaves those of all its screens. The stored layout stays in either case.
pub proof fn law_what_a_refused_payload_leaves(r: Routing, data: Seq<u8>, bad: int)
    requires
        0 <= bad <= screens_in(data).len(),
        forall|k: int|
            0 <= k < bad ==> (#[trigger] screens_in(data)[k]).width > 0 && screens_in(data)[k].height
                > 0,
        bad < screens_in(data).len() ==> screens_in(data)[bad].width <= 0 || screens_in(
            data,
        )[bad].height <= 0,
    ensures
        r.loaded(data).1 == -5 || r.loaded(data).1 == -6 ==> {
            &&& r.loaded(data).0.layout == r.layout
            &&& r.loaded(data).0.profiles == profiles_of(screens_in(data), bad)
        },
        r.loaded(data).1 == -5 ==> r.loaded(data).0.pins == written_over(
            r.pins,
            pins_of(screens_in(data), bad),
        ),
        r.loaded(data).1 == -6 ==> r.loaded(data).0.pins == pins_of(screens_in(data), bad),
{
    let ws = screens_in(data);
    lemma_blank_from(ws, 0);
    let at = blank_from(ws, 0);
    if at < bad {
        assert(ws[at].width > 0 && ws[at].height > 0);
    }
    if bad < at {
        assert(ws[bad].width > 0 && ws[bad].height > 0);
    }
}

/// Of several pins for one address the first counts, and of several for one node
/// the last.
pub proof fn law_which_of_several_pins_counts(
    pins: Seq<([u8; 6], u8)>,
    bda: [u8; 6],
    node: u8,
    i: int,
)
    requires
        0 <= i < pins.len(),
    ensures
        pins[i].0 == bda && (forall|k: int| 0 <= k < i ==> (#[trigger] pins[k]).0 != bda)
            ==> node_from(pins, bda@, 0) == Some(pins[i].1),
        (forall|k: int| 0 <= k < pins.len() ==> (#[trigger] pins[k]).0 != bda) ==> node_from(
            pins,
            bda@,
            0,
        ) is None,
        pins[i].1 == node && (forall|k: int| i < k < pins.len() ==> (#[trigger] pins[k]).1 != node)
            ==> pin_for(pins, node, pins.len() as int) == pins[i].0,
        (forall|k: int| 0 <= k < pins.len() ==> (#[trigger] pins[k]).1 != node) ==> pin_for(
            pins,
            node,
            pins.len() as int,
        )@ == seq![0u8, 0, 0, 0, 0, 0],
{
    if pins[i].0 == bda && (forall|k: int| 0 <= k < i ==> (#[trigger] pins[k]).0 != bda) {
        lemma_node_passes(pins, bda, 0, i);
    }
    if forall|k: int| 0 <= k < pins.len() ==> (#[trigger] pins[k]).0 != bda {
        lemma_node_passes(pins, bda, 0, pins.len() as int);
    }
    if pins[i].1 == node && (forall|k: int|
        i < k < pins.len() ==> (#[trigger] pins[k]).1 != node) {
        lemma_pin_passes(pins, node, i + 1, pins.len() as int);
    }
    if forall|k: int| 0 <= k < pins.len() ==> (#[trigger] pins[k]).1 != node {
        lemma_pin_passes(pins, node, 0, pins.len() as int);
    }
}

proof fn lemma_node_passes(pins: Seq<([u8; 6], u8)>, bda: [u8; 6], i: int, n: int)
    requires
        0 <= i <= n <= pins.len(),
        forall|k: int| i <= k < n ==> (#[trigger] pins[k]).0 != bda,
    ensures
        node_from(pins, bda@, i) == node_from(pins, bda@, n),
    decreases n - i,
{
    if i < n {
        if pins[i].0@ == bda@ {
            assert(pins[i].0 =~= bda);
        }
        lemma_node_passes(pins, bda, i + 1, n);
    }
}

proof fn lemma_pin_passes(pins: Seq<([u8; 6], u8)>, node: u8, i: int, n: int)
    requires
        0 <= i <= n <= pins.len(),
        forall|k: int| i <= k < n ==> (#[trigger] pins[k]).1 != node,
    ensures
        pin_for(pins, node, n) == pin_for(pins, node, i),
    decreases n - i,
{
    if i < n {
        assert(pins[n - 1].1 != node);
        lemma_pin_passes(pins, node, i, n - 1);
    }
}

impl Routing {
    /// A node that is declared unable to receive input is never crossed onto,
    /// wherever the motion goes, and declaring it moves nothing. Node 0 always
    /// can.
    pub proof fn law_an_absent_machine_is_not_crossed_onto(self, mask: u32, dx: int, dy: int)
        requires
            self.layout matches Some(d) && d.is_desktop(),
        ensures
            ({
                let before = self.layout.unwrap();
                let d = self.with_available(mask).layout.unwrap();
                let after = d.moved(dx, dy);
                let node = d.screens[after.current].node;
                &&& self.with_available(mask).layout is Some
                &&& d.screens == before.screens && d.current == before.current && d.x == before.x
                    && d.y == before.y
                &&& self.with_available(mask).pins == self.pins
                &&& self.with_available(mask).profiles == self.profiles
                &&& after.current != before.current ==> node == 0 || (node < 32 && mask & (1u32 << (
                node as u32)) != 0)
            }),
    {
        let before = self.layout.unwrap();
        let d = self.with_available(mask).layout.unwrap();
        let after = d.moved(dx, dy);
        d.law_the_pointer_goes_where_the_motion_points(dx, dy, d.current);
        d.law_the_pointer_goes_where_the_motion_points(dx, dy, after.current);
    }
}

} // verus!
