//! The virtual desktop and the rules for moving a pointer across it.
//!
//! # Model
//!
//! Every screen is a rectangle placed in one shared virtual coordinate space,
//! and the pointer has a single virtual position. Whichever screen contains
//! that position holds focus.
//!
//! The alternative, naming explicit left/right neighbours per screen, is
//! simpler to configure but cannot express a 1080p display sitting halfway up
//! the side of a 4K one. Absolute placement gets mismatched resolutions and
//! staggered arrangements for free, and reduces handoff to a point-in-rectangle
//! test.
//!
//! # Gaps
//!
//! Screens need not tile the plane. If motion lands the pointer in empty space
//! it is clamped to the edge of the screen it was already on, so the pointer
//! can never be lost somewhere with no screen to draw it.
//!
//! # No allocation
//!
//! This engine runs on the dongle, not only on the controller, so screens live
//! in a fixed array and names in a fixed byte buffer.

use vstd::prelude::*;
use vstd::utf8::encode_utf8;

use crate::bytes::sixteen_at;
use crate::proto::edge::Edge;
use crate::proto::profile::trunc_div;
use crate::text::{decimal, padded, padded_text, push_decimal, read_padded};

verus! {

/// One local screen plus up to four bonded targets, matching the dongle's
/// connection table.
pub const MAX_SCREENS: usize = 5;

/// Screen names are fixed-width so the engine needs no allocator.
pub const NAME_LEN: usize = 16;

/// One screen in the virtual desktop.
#[derive(Debug, Clone, Copy, PartialEq, Eq)]
pub struct Screen {
    /// Node id this screen is reached through. The controller's own screen
    /// uses the local one.
    pub node: u8,
    /// The name, padded with NULs.
    pub name: [u8; 16],
    pub x: i32,
    pub y: i32,
    pub width: i32,
    pub height: i32,
}

/// `v` held between `lo` and `hi`.
pub open spec fn clamped(v: int, lo: int, hi: int) -> int {
    if v < lo {
        lo
    } else if v > hi {
        hi
    } else {
        v
    }
}

/// Where `offset` sits along `span` pixels, in 65535ths of the way from the
/// first pixel to the last.
pub open spec fn ratio_of(offset: int, span: int) -> int {
    if span <= 1 {
        0
    } else {
        clamped(offset, 0, span - 1) * 65535 / (span - 1)
    }
}

/// The pixel that sits `ratio` 65535ths of the way along `span` pixels.
pub open spec fn along(ratio: int, span: int) -> int {
    if span <= 1 {
        0
    } else {
        ratio * (span - 1) / 65535
    }
}

/// Whether a number fits a coordinate.
pub open spec fn fits(v: int) -> bool {
    i32::MIN <= v <= i32::MAX
}

impl Screen {
    /// Node id meaning "the controller's own display": input stays local and
    /// is never sent to the radio.
    pub const LOCAL: u8 = 0;

    /// The screen at a place, under a name cut to its field.
    pub open spec fn placed(node: u8, name: Seq<char>, x: i32, y: i32, w: i32, h: i32) -> Screen {
        Screen {
            node,
            name: sixteen_at(padded(encode_utf8(name), NAME_LEN as int), 0),
            x,
            y,
            width: w,
            height: h,
        }
    }

    /// The point lies on this screen.
    pub open spec fn holds(self, x: int, y: int) -> bool {
        self.x <= x < self.x + self.width && self.y <= y < self.y + self.height
    }

    /// The screen has at least one pixel.
    pub open spec fn is_drawable(self) -> bool {
        self.width >= 1 && self.height >= 1
    }

    /// The last pixel of a screen that has one is within the coordinates.
    pub open spec fn ends_in_range(self) -> bool {
        self.is_drawable() ==> fits(self.x + self.width - 1) && fits(self.y + self.height - 1)
    }

    /// The two screens share no pixel.
    pub open spec fn apart(self, other: Screen) -> bool {
        ||| self.x + self.width <= other.x
        ||| other.x + other.width <= self.x
        ||| self.y + self.height <= other.y
        ||| other.y + other.height <= self.y
    }

    /// Where along `edge` the point sits.
    pub open spec fn ratio_at(self, edge: Edge, x: int, y: int) -> int {
        if edge.is_horizontal() {
            ratio_of(y - self.y, self.height as int)
        } else {
            ratio_of(x - self.x, self.width as int)
        }
    }

    /// The point on `edge` at `ratio`.
    pub open spec fn point_at(self, edge: Edge, ratio: int) -> (int, int) {
        match edge {
            Edge::Left => (self.x as int, self.y + along(ratio, self.height as int)),
            Edge::Right => (self.x + self.width - 1, self.y + along(ratio, self.height as int)),
            Edge::Top => (self.x + along(ratio, self.width as int), self.y as int),
            Edge::Bottom => (self.x + along(ratio, self.width as int), self.y + self.height - 1),
        }
    }

    /// The pixel of this screen nearest to the point.
    pub open spec fn nearest(self, x: int, y: int) -> (int, int) {
        (
            clamped(x, self.x as int, self.x + self.width - 1),
            clamped(y, self.y as int, self.y + self.height - 1),
        )
    }

    fn fits_coordinates(&self) -> (r: bool)
        ensures
            r == self.ends_in_range(),
    {
        self.width < 1 || self.height < 1 || (in_range(self.x as i64 + self.width as i64 - 1)
            && in_range(self.y as i64 + self.height as i64 - 1))
    }

    pub fn new(node: u8, name: &str, x: i32, y: i32, width: i32, height: i32) -> (r: Self)
        ensures
            r == Screen::placed(node, name@, x, y, width, height),
    {
        let mut buf: [u8; 16] = [0; 16];
        let src: &[u8] = name.as_bytes();
        let mut i: usize = 0;
        while i < src.len() && i < NAME_LEN
            invariant
                i <= NAME_LEN,
                i <= src@.len(),
                forall|j: int| 0 <= j < i ==> buf@[j] == src@[j],
                forall|j: int| i <= j < 16 ==> buf@[j] == 0,
            decreases NAME_LEN - i,
        {
            buf[i] = src[i];
            i = i + 1;
        }
        assert(buf =~= sixteen_at(padded(encode_utf8(name@), NAME_LEN as int), 0));
        Screen { node, name: buf, x, y, width, height }
    }

    /// The name, minus trailing padding. Invalid UTF-8 (only possible if a
    /// name was truncated mid-codepoint) degrades to empty.
    pub fn name(&self) -> (r: &str)
        ensures
            r@ == padded_text(self.name@),
    {
        read_padded(self.name.as_slice())
    }

    pub fn contains(&self, x: i32, y: i32) -> (r: bool)
        ensures
            r == self.holds(x as int, y as int),
    {
        let (px, py): (i64, i64) = (x as i64, y as i64);
        let (sx, sy): (i64, i64) = (self.x as i64, self.y as i64);
        px >= sx && px < sx + self.width as i64 && py >= sy && py < sy + self.height as i64
    }

    fn clamp(&self, x: i32, y: i32) -> (r: (i32, i32))
        requires
            self.is_drawable(),
        ensures
            (r.0 as int, r.1 as int) == self.nearest(x as int, y as int),
    {
        let right: i64 = self.x as i64 + self.width as i64 - 1;
        let bottom: i64 = self.y as i64 + self.height as i64 - 1;
        let cx: i32 = if x < self.x {
            self.x
        } else if x as i64 > right {
            right as i32
        } else {
            x
        };
        let cy: i32 = if y < self.y {
            self.y
        } else if y as i64 > bottom {
            bottom as i32
        } else {
            y
        };
        (cx, cy)
    }

    /// Where along `edge` the point (x, y) sits, as a fraction of that edge's
    /// length scaled to 16 bits.
    ///
    /// This is what makes handoff feel continuous between screens of different
    /// sizes: leaving a 2160-tall screen 30% of the way down arrives 30% of the
    /// way down a 1080-tall one, rather than at an absolute pixel row that may
    /// not even exist on the neighbour.
    pub fn ratio_along(&self, edge: Edge, x: i32, y: i32) -> (r: u16)
        ensures
            r as int == self.ratio_at(edge, x as int, y as int),
    {
        let (offset, span): (i64, i64) = match edge {
            Edge::Left => (y as i64 - self.y as i64, self.height as i64),
            Edge::Right => (y as i64 - self.y as i64, self.height as i64),
            Edge::Top => (x as i64 - self.x as i64, self.width as i64),
            Edge::Bottom => (x as i64 - self.x as i64, self.width as i64),
        };
        if span <= 1 {
            return 0;
        }
        let held: i64 = if offset < 0 {
            0
        } else if offset > span - 1 {
            span - 1
        } else {
            offset
        };
        proof {
            lemma_ratio_bound(held as int, span as int);
        }
        ((held * 65535) / (span - 1)) as u16
    }

    /// A point on `edge` at `ratio`.
    pub fn point_on(&self, edge: Edge, ratio: u16) -> (r: (i32, i32))
        requires
            fits(self.point_at(edge, ratio as int).0),
            fits(self.point_at(edge, ratio as int).1),
        ensures
            (r.0 as int, r.1 as int) == self.point_at(edge, ratio as int),
    {
        let across: i64 = pixel_along(ratio, self.width);
        let down: i64 = pixel_along(ratio, self.height);
        let (x, y): (i64, i64) = match edge {
            Edge::Left => (self.x as i64, self.y as i64 + down),
            Edge::Right => (self.x as i64 + self.width as i64 - 1, self.y as i64 + down),
            Edge::Top => (self.x as i64 + across, self.y as i64),
            Edge::Bottom => (self.x as i64 + across, self.y as i64 + self.height as i64 - 1),
        };
        (x as i32, y as i32)
    }

    /// A point measured on an edge and put back lands where it was, or one
    /// pixel before, on any screen whose span the ratio can tell apart.
    pub proof fn law_ratio_roundtrips(self, edge: Edge, x: int, y: int)
        requires
            self.holds(x, y),
            self.width <= 65536,
            self.height <= 65536,
        ensures
            edge.is_horizontal() ==> {
                let back = self.point_at(edge, self.ratio_at(edge, x, y)).1;
                y - 1 <= back <= y
            },
            !edge.is_horizontal() ==> {
                let back = self.point_at(edge, self.ratio_at(edge, x, y)).0;
                x - 1 <= back <= x
            },
    {
        lemma_along_ratio(y - self.y, self.height as int);
        lemma_along_ratio(x - self.x, self.width as int);
    }

    /// Every point on an edge of a screen that has a pixel lies on the screen.
    pub proof fn law_edge_points_lie_on_the_screen(self, edge: Edge, ratio: u16)
        requires
            self.is_drawable(),
        ensures
            self.holds(
                self.point_at(edge, ratio as int).0,
                self.point_at(edge, ratio as int).1,
            ),
    {
        lemma_along_bound(ratio as int, self.width as int);
        lemma_along_bound(ratio as int, self.height as int);
    }

    /// A name that fits its field and holds no NUL is read back as written.
    pub proof fn law_name_is_kept(node: u8, name: Seq<char>, x: i32, y: i32, w: i32, h: i32)
        requires
            encode_utf8(name).len() <= NAME_LEN,
            forall|i: int| 0 <= i < encode_utf8(name).len() ==> encode_utf8(name)[i] != 0,
        ensures
            padded_text(Screen::placed(node, name, x, y, w, h).name@) == name,
    {
        crate::proto::screen::ScreenWire::law_name_is_kept(name);
    }
}

proof fn lemma_ratio_bound(offset: int, span: int)
    requires
        span > 1,
        0 <= offset <= span - 1,
        span <= i32::MAX,
    ensures
        0 <= offset * 65535 <= i64::MAX,
        0 <= offset * 65535 / (span - 1) <= 65535,
{
    assert(0 <= offset * 65535 / (span - 1) <= 65535) by (nonlinear_arith)
        requires
            0 <= offset <= span - 1,
            span > 1,
    ;
}

proof fn lemma_along_bound(ratio: int, span: int)
    requires
        0 <= ratio <= 65535,
        span >= 1,
    ensures
        0 <= along(ratio, span) <= span - 1,
{
    if span > 1 {
        assert(0 <= ratio * (span - 1) <= 65535 * (span - 1)) by (nonlinear_arith)
            requires
                0 <= ratio <= 65535,
                span > 1,
        ;
    }
}

proof fn lemma_along_ratio(offset: int, span: int)
    requires
        0 <= offset < span <= 65536,
    ensures
        offset - 1 <= along(ratio_of(offset, span), span) <= offset,
{
    if span > 1 {
        let r = offset * 65535 / (span - 1);
        assert(r * (span - 1) <= offset * 65535 && r * (span - 1) > offset * 65535 - (span - 1))
            by (nonlinear_arith)
            requires
                span > 1,
                r == offset * 65535 / (span - 1),
        ;
    }
}

fn pixel_along(ratio: u16, span: i32) -> (r: i64)
    ensures
        r == along(ratio as int, span as int),
        0 <= r <= i32::MAX,
{
    if span <= 1 {
        return 0;
    }
    proof {
        lemma_along_bound(ratio as int, span as int);
        assert(0 <= ratio as int * (span - 1) <= 65535 * 2147483647) by (nonlinear_arith)
            requires
                0 <= ratio <= 65535,
                1 < span <= 2147483647,
        ;
    }
    (ratio as i64 * (span as i64 - 1)) / 65535
}

/// What the caller must do after feeding motion in.
#[derive(Debug, Clone, Copy, PartialEq, Eq, Structural)]
pub enum Motion {
    /// Pointer stayed put on the same screen.
    Stayed { node: u8, x: i32, y: i32 },
    /// Pointer crossed onto another screen. The caller must tell `from` to
    /// release its buttons, then tell `to` the pointer arrived.
    Crossed {
        from: u8,
        to: u8,
        /// Edge of the *destination* the pointer arrives at.
        edge: Edge,
        ratio: u16,
        x: i32,
        y: i32,
    },
}

/// Why a set of screens could not form a usable desktop.
#[derive(Debug, Clone, Copy, PartialEq, Eq, Structural)]
pub enum LayoutError {
    Empty,
    TooMany,
    NoLocalScreen,
    /// Two screens claim overlapping virtual space, so containment would be
    /// ambiguous and handoff non-deterministic.
    Overlap,
    DuplicateNode(u8),
}

/// What is wrong between two screens.
pub open spec fn pair_error(a: Screen, b: Screen) -> Option<LayoutError> {
    if a.node == b.node {
        Some(LayoutError::DuplicateNode(a.node))
    } else if !a.apart(b) {
        Some(LayoutError::Overlap)
    } else {
        None
    }
}

/// The first thing wrong between screen `i` and those from `j` on.
pub open spec fn row_error(screens: Seq<Screen>, i: int, j: int) -> Option<LayoutError>
    decreases screens.len() - j,
{
    if j >= screens.len() {
        None
    } else if pair_error(screens[i], screens[j]) is Some {
        pair_error(screens[i], screens[j])
    } else {
        row_error(screens, i, j + 1)
    }
}

/// The first thing wrong between two screens of those from `i` on, in order.
pub open spec fn rows_error(screens: Seq<Screen>, i: int) -> Option<LayoutError>
    decreases screens.len() - i,
{
    if i >= screens.len() {
        None
    } else if row_error(screens, i, i + 1) is Some {
        row_error(screens, i, i + 1)
    } else {
        rows_error(screens, i + 1)
    }
}

/// The place of the first local screen from `i` on; the length where there is
/// none.
pub open spec fn local_from(screens: Seq<Screen>, i: int) -> int
    decreases screens.len() - i,
{
    if i >= screens.len() || screens[i].node == Screen::LOCAL {
        i
    } else {
        local_from(screens, i + 1)
    }
}

/// The first thing that keeps these screens from forming a desktop.
pub open spec fn layout_error(screens: Seq<Screen>) -> Option<LayoutError> {
    if screens.len() == 0 {
        Some(LayoutError::Empty)
    } else if screens.len() > MAX_SCREENS {
        Some(LayoutError::TooMany)
    } else if local_from(screens, 0) >= screens.len() {
        Some(LayoutError::NoLocalScreen)
    } else {
        rows_error(screens, 0)
    }
}

/// The middle of a screen.
pub open spec fn centre(s: Screen) -> (int, int) {
    (s.x + trunc_div(s.width as int, 2), s.y + trunc_div(s.height as int, 2))
}

/// A desktop of these screens has a place to start: there is none to build, or
/// the middle of the local screen is within the coordinates.
pub open spec fn starts_in_range(screens: Seq<Screen>) -> bool {
    layout_error(screens) is None ==> {
        let c = centre(screens[local_from(screens, 0)]);
        fits(c.0) && fits(c.1)
    }
}

impl LayoutError {
    /// What the error says.
    pub open spec fn text(self) -> Seq<char> {
        match self {
            LayoutError::Empty => "layout has no screens"@,
            LayoutError::TooMany => "layout has more than "@ + decimal(MAX_SCREENS as int)
                + " screens"@,
            LayoutError::NoLocalScreen => "layout has no local screen (node "@ + decimal(
                Screen::LOCAL as int,
            ) + ")"@,
            LayoutError::Overlap => "two screens overlap in virtual space"@,
            LayoutError::DuplicateNode(n) => "node id "@ + decimal(n as int)
                + " is used by two screens"@,
        }
    }

    /// The error in words.
    pub fn message(&self) -> (r: String)
        ensures
            r@ == self.text(),
    {
        match self {
            LayoutError::Empty => String::from_str("layout has no screens"),
            LayoutError::TooMany => {
                let mut s = String::from_str("layout has more than ");
                push_decimal(&mut s, MAX_SCREENS as u64);
                s.append(" screens");
                s
            },
            LayoutError::NoLocalScreen => {
                let mut s = String::from_str("layout has no local screen (node ");
                push_decimal(&mut s, Screen::LOCAL as u64);
                s.append(")");
                s
            },
            LayoutError::Overlap => String::from_str("two screens overlap in virtual space"),
            LayoutError::DuplicateNode(n) => {
                let mut s = String::from_str("node id ");
                push_decimal(&mut s, *n as u64);
                s.append(" is used by two screens");
                s
            },
        }
    }
}

/// The virtual desktop plus the current pointer position.
#[derive(Debug, Clone, Copy)]
pub struct Layout {
    screens: [Screen; 5],
    count: usize,
    current: usize,
    x: i32,
    y: i32,
    available: Option<u32>,
}

/// What a layout stands for.
pub struct Desktop {
    pub screens: Seq<Screen>,
    /// The place of the screen that holds the pointer.
    pub current: int,
    pub x: int,
    pub y: int,
    /// Which nodes can receive input, bit by bit; all of them where nothing
    /// was declared.
    pub available: Option<u32>,
}

/// The edge of the destination that a motion comes in through. Taken from the
/// direction of travel rather than from geometry, so a diagonal flick into a
/// corner picks the dominant axis instead of an arbitrary one.
pub open spec fn arrival_edge(dx: int, dy: int) -> Edge {
    let (ax, ay) = (if dx < 0 { -dx } else { dx }, if dy < 0 { -dy } else { dy });
    if ax >= ay {
        if dx > 0 {
            Edge::Left
        } else {
            Edge::Right
        }
    } else if dy > 0 {
        Edge::Top
    } else {
        Edge::Bottom
    }
}

impl Desktop {
    /// The screen that holds the pointer.
    pub open spec fn active(self) -> Screen {
        self.screens[self.current]
    }

    /// The screens form a desktop and one of them is the current one.
    pub open spec fn is_desktop(self) -> bool {
        &&& layout_error(self.screens) is None
        &&& 0 <= self.current < self.screens.len()
    }

    /// The pointer lies on the screen that holds it.
    pub open spec fn is_shown(self) -> bool {
        self.active().holds(self.x, self.y)
    }

    /// A motion stays within the coordinates: it leads to a point there, and so
    /// does every pixel of the active screen and of each screen whose origin
    /// the motion reaches. A screen further out may end anywhere.
    pub open spec fn stays_in_range(self, dx: int, dy: int) -> bool {
        &&& fits(self.x + dx)
        &&& fits(self.y + dy)
        &&& self.active().ends_in_range()
        &&& forall|i: int|
            0 <= i < self.screens.len() && (#[trigger] self.screens[i]).x <= self.x + dx
                && self.screens[i].y <= self.y + dy ==> self.screens[i].ends_in_range()
    }

    /// The pointer may cross onto a screen of this node. The local node always
    /// can be crossed onto.
    pub open spec fn reaches(self, node: u8) -> bool {
        match self.available {
            None => true,
            Some(mask) => node == Screen::LOCAL || (node < 32 && (mask >> (node as u32)) & 1 == 1),
        }
    }

    /// The first screen from `i` on that can be crossed onto and holds the
    /// point; the number of screens where there is none.
    pub open spec fn landing(self, x: int, y: int, i: int) -> int
        decreases self.screens.len() - i,
    {
        if i >= self.screens.len() || (self.reaches(self.screens[i].node) && self.screens[i].holds(
            x,
            y,
        )) {
            i
        } else {
            self.landing(x, y, i + 1)
        }
    }

    /// The motion crosses onto another screen.
    pub open spec fn crosses(self, dx: int, dy: int) -> bool {
        &&& !self.active().holds(self.x + dx, self.y + dy)
        &&& self.landing(self.x + dx, self.y + dy, 0) < self.screens.len()
    }

    /// How far along the edge it leaves the pointer is. Measured on the screen
    /// being left, at the motion clamped back onto it: measuring on the
    /// destination would just reinterpret the same coordinate there.
    pub open spec fn departure(self, dx: int, dy: int) -> int {
        let (ex, ey) = self.active().nearest(self.x + dx, self.y + dy);
        self.active().ratio_at(arrival_edge(dx, dy).opposite_of(), ex, ey)
    }

    /// The desktop after a motion.
    pub open spec fn moved(self, dx: int, dy: int) -> Desktop {
        let (nx, ny) = (self.x + dx, self.y + dy);
        if self.crosses(dx, dy) {
            let to = self.landing(nx, ny, 0);
            let p = self.screens[to].point_at(arrival_edge(dx, dy), self.departure(dx, dy));
            Desktop { current: to, x: p.0, y: p.1, ..self }
        } else {
            let p = self.active().nearest(nx, ny);
            Desktop { x: p.0, y: p.1, ..self }
        }
    }

    /// What the caller learns of a motion.
    pub open spec fn motion(self, dx: int, dy: int) -> Motion {
        let after = self.moved(dx, dy);
        if self.crosses(dx, dy) {
            Motion::Crossed {
                from: self.active().node,
                to: after.active().node,
                edge: arrival_edge(dx, dy),
                ratio: self.departure(dx, dy) as u16,
                x: after.x as i32,
                y: after.y as i32,
            }
        } else {
            Motion::Stayed { node: self.active().node, x: after.x as i32, y: after.y as i32 }
        }
    }
}

impl View for Layout {
    type V = Desktop;

    closed spec fn view(&self) -> Desktop {
        Desktop {
            screens: self.screens@.take(self.count as int),
            current: self.current as int,
            x: self.x as int,
            y: self.y as int,
            available: self.available,
        }
    }
}

impl Layout {
    #[verifier::type_invariant]
    closed spec fn inv(self) -> bool {
        &&& self.count <= MAX_SCREENS
        &&& self.current < self.count
        &&& layout_error(self.screens@.take(self.count as int)) is None
    }

    /// Look for the first thing that keeps these screens from forming a
    /// desktop.
    pub fn check(screens: &[Screen]) -> (r: Option<LayoutError>)
        ensures
            r == layout_error(screens@),
    {
        let n: usize = screens.len();
        if n == 0 {
            return Some(LayoutError::Empty);
        }
        if n > MAX_SCREENS {
            return Some(LayoutError::TooMany);
        }
        if find_local(screens) == n {
            return Some(LayoutError::NoLocalScreen);
        }
        let mut i: usize = 0;
        while i < n
            invariant
                i <= n == screens@.len(),
                0 < n <= MAX_SCREENS,
                local_from(screens@, 0) < n,
                rows_error(screens@, 0) == rows_error(screens@, i as int),
            decreases n - i,
        {
            let mut j: usize = i + 1;
            while j < n
                invariant
                    i < j <= n == screens@.len(),
                    0 < n <= MAX_SCREENS,
                    local_from(screens@, 0) < n,
                    rows_error(screens@, 0) == rows_error(screens@, i as int),
                    row_error(screens@, i as int, i + 1) == row_error(screens@, i as int, j as int),
                decreases n - j,
            {
                let a: &Screen = &screens[i];
                let b: &Screen = &screens[j];
                if a.node == b.node {
                    return Some(LayoutError::DuplicateNode(a.node));
                }
                let apart: bool = a.x as i64 + a.width as i64 <= b.x as i64 || b.x as i64
                    + b.width as i64 <= a.x as i64 || a.y as i64 + a.height as i64 <= b.y as i64
                    || b.y as i64 + b.height as i64 <= a.y as i64;
                if !apart {
                    return Some(LayoutError::Overlap);
                }
                j = j + 1;
            }
            i = i + 1;
        }
        None
    }

    /// Build a desktop, rejecting arrangements whose handoff would be ambiguous.
    /// The pointer starts in the middle of the local screen.
    pub fn new(screens: &[Screen]) -> (r: Result<Self, LayoutError>)
        requires
            starts_in_range(screens@),
        ensures
            match layout_error(screens@) {
                Some(e) => r == Err::<Layout, LayoutError>(e),
                None => r is Ok && ({
                    let local = local_from(screens@, 0);
                    &&& r.unwrap()@ == (Desktop {
                        screens: screens@,
                        current: local,
                        x: centre(screens@[local]).0,
                        y: centre(screens@[local]).1,
                        available: None,
                    })
                    &&& r.unwrap()@.is_desktop()
                    &&& r.unwrap()@.active().node == Screen::LOCAL
                }),
            },
    {
        match Layout::check(screens) {
            Some(e) => return Err(e),
            None => {},
        }
        let n: usize = screens.len();
        let local: usize = find_local(screens);
        let blank = Screen {
            node: 0,
            name: [0; 16],
            x: 0,
            y: 0,
            width: 1,
            height: 1,
        };
        let mut buf: [Screen; 5] = [blank; 5];
        let mut k: usize = 0;
        while k < n
            invariant
                k <= n == screens@.len(),
                n <= 5,
                forall|j: int| 0 <= j < k ==> buf@[j] == screens@[j],
            decreases n - k,
        {
            buf[k] = screens[k];
            k = k + 1;
        }
        assert(buf@.take(n as int) =~= screens@);
        let s: &Screen = &screens[local];
        assert(centre(*s) == centre(screens@[local as int]));
        let x: i32 = (s.x as i64 + (s.width / 2) as i64) as i32;
        let y: i32 = (s.y as i64 + (s.height / 2) as i64) as i32;
        Ok(Layout { screens: buf, count: n, current: local, x, y, available: None })
    }

    /// Whether a desktop of these screens, where they form one, has a place to
    /// start within the coordinates.
    pub fn can_start(screens: &[Screen]) -> (r: bool)
        ensures
            r == starts_in_range(screens@),
    {
        match Layout::check(screens) {
            Some(_) => return true,
            None => {},
        }
        proof {
            law_local_screen_is_found(screens@);
        }
        let s: &Screen = &screens[find_local(screens)];
        let x: i64 = s.x as i64 + (s.width / 2) as i64;
        let y: i64 = s.y as i64 + (s.height / 2) as i64;
        assert(centre(*s) == (x as int, y as int));
        in_range(x) && in_range(y)
    }

    /// Whether a motion can be fed in: the pointer is shown, and the motion
    /// stays within the coordinates.
    pub fn can_advance(&self, dx: i32, dy: i32) -> (r: bool)
        ensures
            r == (self@.is_shown() && self@.stays_in_range(dx as int, dy as int)),
    {
        proof {
            use_type_invariant(self);
        }
        let nx: i64 = self.x as i64 + dx as i64;
        let ny: i64 = self.y as i64 + dy as i64;
        if !in_range(nx) || !in_range(ny) {
            return false;
        }
        if !self.active().contains(self.x, self.y) || !self.active().fits_coordinates() {
            return false;
        }
        let mut i: usize = 0;
        while i < self.count
            invariant
                i <= self.count <= MAX_SCREENS,
                self.count == self@.screens.len(),
                nx == self@.x + dx,
                ny == self@.y + dy,
                forall|k: int|
                    0 <= k < i && (#[trigger] self@.screens[k]).x <= nx && self@.screens[k].y <= ny
                        ==> self@.screens[k].ends_in_range(),
            decreases self.count - i,
        {
            let s: &Screen = &self.screens[i];
            assert(*s == self@.screens[i as int]);
            if s.x as i64 <= nx && s.y as i64 <= ny && !s.fits_coordinates() {
                return false;
            }
            i = i + 1;
        }
        true
    }

    pub fn screens(&self) -> (r: &[Screen])
        ensures
            r@ == self@.screens,
            self@.is_desktop(),
    {
        proof {
            use_type_invariant(self);
        }
        let r: &[Screen] = vstd::slice::slice_subrange(self.screens.as_slice(), 0, self.count);
        assert(r@ =~= self@.screens);
        r
    }

    /// The screen currently holding the pointer.
    pub fn active(&self) -> (r: &Screen)
        ensures
            *r == self@.active(),
            self@.is_desktop(),
    {
        proof {
            use_type_invariant(self);
        }
        &self.screens[self.current]
    }

    /// True while input should be handled by the controller's own machine.
    pub fn is_local(&self) -> (r: bool)
        ensures
            r == (self@.active().node == Screen::LOCAL),
    {
        self.active().node == Screen::LOCAL
    }

    pub fn position(&self) -> (r: (i32, i32))
        ensures
            r.0 == self@.x,
            r.1 == self@.y,
    {
        (self.x, self.y)
    }

    /// Declare which nodes can currently receive input, as a bitmask where bit
    /// N means node N. Node 0 is always available regardless. Takes effect on
    /// the next advance.
    pub fn set_available(&mut self, mask: u32)
        ensures
            final(self)@ == (Desktop { available: Some(mask), ..old(self)@ }),
    {
        proof {
            use_type_invariant(&*self);
        }
        self.available = Some(mask);
    }

    fn reachable(&self, node: u8) -> (r: bool)
        ensures
            r == self@.reaches(node),
    {
        match self.available {
            None => true,
            Some(mask) => node == Screen::LOCAL || (node < 32 && (mask >> (node as u32)) & 1 == 1),
        }
    }

    /// Apply relative motion and report whether the pointer changed screens.
    pub fn advance(&mut self, dx: i32, dy: i32) -> (r: Motion)
        requires
            old(self)@.is_shown(),
            old(self)@.stays_in_range(dx as int, dy as int),
        ensures
            r == old(self)@.motion(dx as int, dy as int),
            final(self)@ == old(self)@.moved(dx as int, dy as int),
            final(self)@.is_shown(),
            final(self)@.is_desktop(),
    {
        proof {
            use_type_invariant(&*self);
            old(self)@.law_pointer_is_never_lost(dx as int, dy as int);
        }
        let from: u8 = self.active().node;
        let nx: i32 = self.x + dx;
        let ny: i32 = self.y + dy;
        if self.active().contains(nx, ny) {
            self.x = nx;
            self.y = ny;
            return Motion::Stayed { node: from, x: nx, y: ny };
        }
        let mut idx: usize = 0;
        while idx < self.count && !(self.reachable(self.screens[idx].node)
            && self.screens[idx].contains(nx, ny))
            invariant
                self@ == old(self)@,
                self.count <= MAX_SCREENS,
                idx <= self.count,
                old(self)@.landing(nx as int, ny as int, 0) == old(self)@.landing(
                    nx as int,
                    ny as int,
                    idx as int,
                ),
            decreases self.count - idx,
        {
            idx = idx + 1;
        }
        if idx < self.count {
            let edge: Edge = entry_edge(dx, dy);
            let src: Screen = *self.active();
            let (ex, ey): (i32, i32) = src.clamp(nx, ny);
            let ratio: u16 = src.ratio_along(edge.opposite(), ex, ey);
            let dest: Screen = self.screens[idx];
            assert(dest == old(self)@.screens[idx as int]);
            let (px, py): (i32, i32) = dest.point_on(edge, ratio);
            self.current = idx;
            self.x = px;
            self.y = py;
            return Motion::Crossed { from, to: dest.node, edge, ratio, x: px, y: py };
        }
        // Empty space: hold the pointer against the edge it ran into.
        let (cx, cy): (i32, i32) = self.active().clamp(nx, ny);
        self.x = cx;
        self.y = cy;
        Motion::Stayed { node: from, x: cx, y: cy }
    }
}

fn in_range(v: i64) -> (r: bool)
    ensures
        r == fits(v as int),
{
    i32::MIN as i64 <= v && v <= i32::MAX as i64
}

/// The place of the first local screen; the length where there is none.
fn find_local(screens: &[Screen]) -> (r: usize)
    ensures
        r == local_from(screens@, 0),
        r <= screens@.len(),
        r < screens@.len() ==> screens@[r as int].node == Screen::LOCAL,
{
    let n: usize = screens.len();
    let mut local: usize = 0;
    while local < n && screens[local].node != Screen::LOCAL
        invariant
            local <= n == screens@.len(),
            local_from(screens@, 0) == local_from(screens@, local as int),
        decreases n - local,
    {
        local = local + 1;
    }
    local
}

fn entry_edge(dx: i32, dy: i32) -> (r: Edge)
    ensures
        r == arrival_edge(dx as int, dy as int),
{
    let ax: i64 = if dx < 0 {
        -(dx as i64)
    } else {
        dx as i64
    };
    let ay: i64 = if dy < 0 {
        -(dy as i64)
    } else {
        dy as i64
    };
    if ax >= ay {
        if dx > 0 {
            Edge::Left
        } else {
            Edge::Right
        }
    } else if dy > 0 {
        Edge::Top
    } else {
        Edge::Bottom
    }
}

impl Desktop {
    /// Wherever a motion goes, the pointer ends on a screen that can draw it:
    /// the one it was on, or one that it could cross onto.
    pub proof fn law_pointer_is_never_lost(self, dx: int, dy: int)
        requires
            self.is_desktop(),
            self.is_shown(),
        ensures
            self.moved(dx, dy).is_desktop(),
            self.moved(dx, dy).is_shown(),
            self.moved(dx, dy).current == self.current || self.reaches(
                self.moved(dx, dy).active().node,
            ),
    {
        let (nx, ny) = (self.x + dx, self.y + dy);
        self.lemma_landing(nx, ny, 0);
        let e = arrival_edge(dx, dy);
        let src = self.active();
        let (ex, ey) = src.nearest(nx, ny);
        if self.crosses(dx, dy) {
            let to = self.screens[self.landing(nx, ny, 0)];
            if src.height > 1 {
                lemma_ratio_bound(clamped(ey - src.y, 0, src.height - 1), src.height as int);
            }
            if src.width > 1 {
                lemma_ratio_bound(clamped(ex - src.x, 0, src.width - 1), src.width as int);
            }
            to.law_edge_points_lie_on_the_screen(e, self.departure(dx, dy) as u16);
        }
    }

    proof fn lemma_landing(self, x: int, y: int, i: int)
        requires
            0 <= i <= self.screens.len(),
        ensures
            i <= self.landing(x, y, i) <= self.screens.len(),
            self.landing(x, y, i) < self.screens.len() ==> self.reaches(
                self.screens[self.landing(x, y, i)].node,
            ) && self.screens[self.landing(x, y, i)].holds(x, y),
            forall|k: int|
                i <= k < self.landing(x, y, i) ==> !(self.reaches(self.screens[k].node)
                    && #[trigger] self.screens[k].holds(x, y)),
        decreases self.screens.len() - i,
    {
        if i < self.screens.len() && !(self.reaches(self.screens[i].node) && self.screens[i].holds(
            x,
            y,
        )) {
            self.lemma_landing(x, y, i + 1);
        }
    }
}

/// Screens form a desktop exactly when there is at least one and not too many
/// of them, one is local, no two share a node and no two share a pixel.
pub proof fn law_what_forms_a_desktop(screens: Seq<Screen>)
    ensures
        layout_error(screens) is None <==> {
            &&& 1 <= screens.len() <= MAX_SCREENS
            &&& exists|i: int|
                0 <= i < screens.len() && (#[trigger] screens[i]).node == Screen::LOCAL
            &&& forall|i: int, j: int|
                #![trigger screens[i], screens[j]]
                0 <= i < j < screens.len() ==> screens[i].node != screens[j].node
                    && screens[i].apart(screens[j])
        },
{
    if screens.len() > 0 {
        lemma_local_from(screens, 0);
        lemma_rows(screens, 0);
    }
}

/// Where a desktop forms, no point lies on two of its screens and exactly one
/// of them is local, so where the pointer lands is never in doubt.
pub proof fn law_handoff_is_unambiguous(screens: Seq<Screen>, x: int, y: int, i: int, j: int)
    requires
        layout_error(screens) is None,
        0 <= i < screens.len(),
        0 <= j < screens.len(),
    ensures
        screens[i].holds(x, y) && screens[j].holds(x, y) ==> i == j,
        screens[i].node == screens[j].node ==> i == j,
        screens[i].node == Screen::LOCAL <==> i == local_from(screens, 0),
{
    law_what_forms_a_desktop(screens);
    lemma_local_from(screens, 0);
    let l = local_from(screens, 0);
    if i < j {
        assert(screens[i].apart(screens[j]));
    }
    if j < i {
        assert(screens[j].apart(screens[i]));
    }
    if i < l {
        assert(screens[i].node != screens[l].node);
    }
    if l < i {
        assert(screens[l].node != screens[i].node);
    }
}

/// The two screens have the same node and the same place.
pub open spec fn same_place(a: Screen, b: Screen) -> bool {
    a.node == b.node && a.x == b.x && a.y == b.y && a.width == b.width && a.height == b.height
}

/// Whether screens form a desktop, and what keeps them from it, depends on
/// their nodes and places alone.
pub proof fn law_names_do_not_matter(a: Seq<Screen>, b: Seq<Screen>)
    requires
        a.len() == b.len(),
        forall|i: int| 0 <= i < a.len() ==> same_place(#[trigger] a[i], b[i]),
    ensures
        layout_error(a) == layout_error(b),
{
    lemma_same_local(a, b, 0);
    lemma_same_rows(a, b, 0);
}

proof fn lemma_same_local(a: Seq<Screen>, b: Seq<Screen>, i: int)
    requires
        a.len() == b.len(),
        0 <= i <= a.len(),
        forall|k: int| 0 <= k < a.len() ==> same_place(#[trigger] a[k], b[k]),
    ensures
        local_from(a, i) == local_from(b, i),
    decreases a.len() - i,
{
    if i < a.len() {
        assert(same_place(a[i], b[i]));
        lemma_same_local(a, b, i + 1);
    }
}

proof fn lemma_same_row(a: Seq<Screen>, b: Seq<Screen>, i: int, j: int)
    requires
        a.len() == b.len(),
        0 <= i < a.len(),
        0 <= j <= a.len(),
        forall|k: int| 0 <= k < a.len() ==> same_place(#[trigger] a[k], b[k]),
    ensures
        row_error(a, i, j) == row_error(b, i, j),
    decreases a.len() - j,
{
    if j < a.len() {
        assert(same_place(a[i], b[i]));
        assert(same_place(a[j], b[j]));
        lemma_same_row(a, b, i, j + 1);
    }
}

proof fn lemma_same_rows(a: Seq<Screen>, b: Seq<Screen>, i: int)
    requires
        a.len() == b.len(),
        0 <= i <= a.len(),
        forall|k: int| 0 <= k < a.len() ==> same_place(#[trigger] a[k], b[k]),
    ensures
        rows_error(a, i) == rows_error(b, i),
    decreases a.len() - i,
{
    if i < a.len() {
        lemma_same_row(a, b, i, i + 1);
        lemma_same_rows(a, b, i + 1);
    }
}

/// Where a desktop forms, its local screen is found.
pub proof fn law_local_screen_is_found(screens: Seq<Screen>)
    requires
        layout_error(screens) is None,
    ensures
        0 <= local_from(screens, 0) < screens.len(),
        screens[local_from(screens, 0)].node == Screen::LOCAL,
{
    lemma_local_from(screens, 0);
}

proof fn lemma_local_from(screens: Seq<Screen>, i: int)
    requires
        0 <= i <= screens.len(),
    ensures
        i <= local_from(screens, i) <= screens.len(),
        local_from(screens, i) < screens.len() ==> screens[local_from(screens, i)].node
            == Screen::LOCAL,
        forall|k: int|
            i <= k < local_from(screens, i) ==> (#[trigger] screens[k]).node != Screen::LOCAL,
    decreases screens.len() - i,
{
    if i < screens.len() && screens[i].node != Screen::LOCAL {
        lemma_local_from(screens, i + 1);
    }
}

proof fn lemma_row(screens: Seq<Screen>, i: int, j: int)
    requires
        0 <= i < j <= screens.len(),
    ensures
        row_error(screens, i, j) is None <==> forall|k: int|
            j <= k < screens.len() ==> pair_error(screens[i], #[trigger] screens[k]) is None,
    decreases screens.len() - j,
{
    if j < screens.len() {
        lemma_row(screens, i, j + 1);
    }
}

proof fn lemma_rows(screens: Seq<Screen>, i: int)
    requires
        0 <= i <= screens.len(),
    ensures
        rows_error(screens, i) is None <==> forall|a: int, b: int|
            #![trigger screens[a], screens[b]]
            i <= a < b < screens.len() ==> pair_error(screens[a], screens[b]) is None,
    decreases screens.len() - i,
{
    if i < screens.len() {
        lemma_row(screens, i, i + 1);
        lemma_rows(screens, i + 1);
        if rows_error(screens, i) is None {
            assert forall|a: int, b: int|
                #![trigger screens[a], screens[b]]
                i <= a < b < screens.len() implies pair_error(screens[a], screens[b]) is None by {}
        }
    }
}

impl Desktop {
    /// In empty space, and before a screen that cannot receive input, the
    /// pointer is held on the screen it was on, at the pixel nearest to where
    /// the motion went.
    pub proof fn law_gaps_hold_the_pointer(self, dx: int, dy: int)
        requires
            self.is_desktop(),
            forall|i: int|
                0 <= i < self.screens.len() && i != self.current ==> !(self.reaches(
                    self.screens[i].node,
                ) && (#[trigger] self.screens[i]).holds(self.x + dx, self.y + dy)),
        ensures
            !self.crosses(dx, dy),
            self.moved(dx, dy) == (Desktop {
                x: self.active().nearest(self.x + dx, self.y + dy).0,
                y: self.active().nearest(self.x + dx, self.y + dy).1,
                ..self
            }),
    {
        self.lemma_landing(self.x + dx, self.y + dy, 0);
    }

    /// Handoff is reversible: where the way back leads onto the screen that was
    /// left, and that can still be crossed onto, turning the motion around goes
    /// back to it, through the edge that was left.
    pub proof fn law_handoff_is_reversible(self, dx: int, dy: int)
        requires
            self.is_desktop(),
            self.is_shown(),
            self.crosses(dx, dy),
            self.reaches(self.active().node),
            self.active().holds(self.moved(dx, dy).x - dx, self.moved(dx, dy).y - dy),
        ensures
            self.moved(dx, dy).crosses(-dx, -dy),
            self.moved(dx, dy).moved(-dx, -dy).current == self.current,
            arrival_edge(-dx, -dy) == arrival_edge(dx, dy).opposite_of(),
    {
        let after = self.moved(dx, dy);
        let (bx, by) = (after.x - dx, after.y - dy);
        self.lemma_landing(self.x + dx, self.y + dy, 0);
        self.law_pointer_is_never_lost(dx, dy);
        after.lemma_landing(bx, by, 0);
        law_handoff_is_unambiguous(self.screens, bx, by, self.current, after.current);
        let back = after.landing(bx, by, 0);
        if back < self.screens.len() {
            law_handoff_is_unambiguous(self.screens, bx, by, self.current, back);
        } else {
            assert(after.reaches(after.screens[self.current].node));
            assert(after.screens[self.current].holds(bx, by));
        }
    }

    /// A motion that stays on the active screen moves the pointer by exactly
    /// that much, and hands nothing off.
    pub proof fn law_motion_within_a_screen_is_exact(self, dx: int, dy: int)
        requires
            self.active().holds(self.x + dx, self.y + dy),
        ensures
            !self.crosses(dx, dy),
            self.moved(dx, dy) == (Desktop { x: self.x + dx, y: self.y + dy, ..self }),
    {
    }

    /// Crossing lands on the named edge of the screen that the motion points
    /// at, as far along it as the pointer was along the edge it left, to the
    /// precision of the ratio.
    pub proof fn law_crossing_keeps_the_proportion(self, dx: int, dy: int)
        requires
            self.is_desktop(),
            self.is_shown(),
            self.crosses(dx, dy),
        ensures
            ({
                let after = self.moved(dx, dy);
                let to = after.active();
                let edge = arrival_edge(dx, dy);
                let ratio = self.departure(dx, dy);
                let (ex, ey) = self.active().nearest(self.x + dx, self.y + dy);
                &&& to.holds(self.x + dx, self.y + dy)
                &&& after.current != self.current
                &&& 0 <= ratio <= 65535
                &&& edge == Edge::Left ==> after.x == to.x
                &&& edge == Edge::Right ==> after.x == to.x + to.width - 1
                &&& edge == Edge::Top ==> after.y == to.y
                &&& edge == Edge::Bottom ==> after.y == to.y + to.height - 1
                &&& edge.is_horizontal() && self.active().height > 1 && to.height > 1 ==> {
                    let left_at = ey - self.active().y;
                    let arrived_at = after.y - to.y;
                    &&& ratio * (self.active().height - 1) <= left_at * 65535
                    &&& left_at * 65535 < (ratio + 1) * (self.active().height - 1)
                    &&& arrived_at * 65535 <= ratio * (to.height - 1)
                    &&& ratio * (to.height - 1) < (arrived_at + 1) * 65535
                }
                &&& !edge.is_horizontal() && self.active().width > 1 && to.width > 1 ==> {
                    let left_at = ex - self.active().x;
                    let arrived_at = after.x - to.x;
                    &&& ratio * (self.active().width - 1) <= left_at * 65535
                    &&& left_at * 65535 < (ratio + 1) * (self.active().width - 1)
                    &&& arrived_at * 65535 <= ratio * (to.width - 1)
                    &&& ratio * (to.width - 1) < (arrived_at + 1) * 65535
                }
            }),
    {
        let (nx, ny) = (self.x + dx, self.y + dy);
        self.lemma_landing(nx, ny, 0);
        let src = self.active();
        let (ex, ey) = src.nearest(nx, ny);
        if src.height > 1 {
            lemma_ratio_bound(ey - src.y, src.height as int);
            lemma_floor((ey - src.y) * 65535, src.height - 1);
        }
        if src.width > 1 {
            lemma_ratio_bound(ex - src.x, src.width as int);
            lemma_floor((ex - src.x) * 65535, src.width - 1);
        }
    }
}

proof fn lemma_floor(a: int, b: int)
    requires
        b > 0,
    ensures
        (a / b) * b <= a < (a / b + 1) * b,
{
    assert((a / b) * b <= a < (a / b + 1) * b) by (nonlinear_arith)
        requires
            b > 0,
    ;
}

/// How far apart two numbers are.
pub open spec fn apart_by(a: int, b: int) -> int {
    if a < b {
        b - a
    } else {
        a - b
    }
}

impl Desktop {
    /// The pointer goes exactly where the motion points, where that is on its
    /// own screen; onto the screen the motion points at, where that is another
    /// one that can receive input; and onto no other. The screens themselves,
    /// and which of them can receive input, stay as they are.
    pub proof fn law_the_pointer_goes_where_the_motion_points(self, dx: int, dy: int, i: int)
        requires
            self.is_desktop(),
            0 <= i < self.screens.len(),
        ensures
            ({
                let after = self.moved(dx, dy);
                let (nx, ny) = (self.x + dx, self.y + dy);
                let s = self.screens[self.current];
                let t = self.screens[i];
                let on_own = s.x <= nx && nx < s.x + s.width && s.y <= ny && ny < s.y + s.height;
                let on_it = t.x <= nx && nx < t.x + t.width && t.y <= ny && ny < t.y + t.height;
                let receives = self.available is None || t.node == 0 || (t.node < 32
                    && self.available.unwrap() & (1u32 << (t.node as u32)) != 0);
                &&& after.screens == self.screens
                &&& after.available == self.available
                &&& 0 <= after.current < self.screens.len()
                &&& on_own ==> after.current == self.current && after.x == nx && after.y == ny
                &&& i != self.current && on_it && receives ==> after.current == i && !on_own
                &&& i != self.current && after.current == i ==> on_it && receives
            }),
    {
        let (nx, ny) = (self.x + dx, self.y + dy);
        self.lemma_landing(nx, ny, 0);
        let t = self.screens[i];
        if let Some(mask) = self.available {
            if t.node < 32 {
                let n = t.node as u32;
                assert(((mask >> n) & 1 == 1) == (mask & (1u32 << n) != 0)) by (bit_vector)
                    requires
                        n < 32,
                ;
            }
        }
        let receives = self.available is None || t.node == 0 || (t.node < 32
            && self.available.unwrap() & (1u32 << (t.node as u32)) != 0);
        assert(receives == self.reaches(t.node));
        assert(self.screens[i].holds(nx, ny) == (t.x <= nx && nx < t.x + t.width && t.y <= ny && ny
            < t.y + t.height));
        law_handoff_is_unambiguous(self.screens, nx, ny, self.current, i);
        let to = self.landing(nx, ny, 0);
        if to < self.screens.len() {
            law_handoff_is_unambiguous(self.screens, nx, ny, to, i);
            law_handoff_is_unambiguous(self.screens, nx, ny, to, self.current);
        }
    }

    /// Where the pointer stays on its screen it ends at the pixel nearest to
    /// where the motion went, along each axis: no pixel of the screen is nearer,
    /// and past an edge it is held against that very edge.
    pub proof fn law_no_pixel_is_nearer(self, dx: int, dy: int, px: int, py: int)
        requires
            self.is_desktop(),
            self.moved(dx, dy).current == self.current,
            self.screens[self.current].x <= px,
            px < self.screens[self.current].x + self.screens[self.current].width,
            self.screens[self.current].y <= py,
            py < self.screens[self.current].y + self.screens[self.current].height,
        ensures
            ({
                let after = self.moved(dx, dy);
                let (nx, ny) = (self.x + dx, self.y + dy);
                let s = self.screens[self.current];
                &&& s.x <= after.x && after.x <= s.x + s.width - 1
                &&& s.y <= after.y && after.y <= s.y + s.height - 1
                &&& apart_by(after.x, nx) <= apart_by(px, nx)
                &&& apart_by(after.y, ny) <= apart_by(py, ny)
                &&& nx < s.x ==> after.x == s.x
                &&& nx >= s.x + s.width ==> after.x == s.x + s.width - 1
                &&& ny < s.y ==> after.y == s.y
                &&& ny >= s.y + s.height ==> after.y == s.y + s.height - 1
                &&& s.x <= nx && nx < s.x + s.width ==> after.x == nx
                &&& s.y <= ny && ny < s.y + s.height ==> after.y == ny
            }),
    {
        let (nx, ny) = (self.x + dx, self.y + dy);
        self.lemma_landing(nx, ny, 0);
    }

    /// Crossing arrives at the edge that faces the motion, along its stronger
    /// axis, as far along it as the pointer was when it left: in 65535ths of the
    /// way from the first pixel to the last, rounded down on either side.
    pub proof fn law_crossing_arrives_in_proportion(self, dx: int, dy: int)
        requires
            self.is_desktop(),
            self.is_shown(),
            self.moved(dx, dy).current != self.current,
        ensures
            ({
                let after = self.moved(dx, dy);
                let (nx, ny) = (self.x + dx, self.y + dy);
                let s = self.screens[self.current];
                let t = self.screens[after.current];
                let sideways = apart_by(dx, 0) >= apart_by(dy, 0);
                let row = if ny < s.y {
                    0
                } else if ny >= s.y + s.height {
                    s.height - 1
                } else {
                    ny - s.y
                };
                let column = if nx < s.x {
                    0
                } else if nx >= s.x + s.width {
                    s.width - 1
                } else {
                    nx - s.x
                };
                let ratio = self.departure(dx, dy);
                &&& 0 <= ratio <= 65535
                &&& sideways && dx > 0 ==> after.x == t.x
                &&& sideways && dx <= 0 ==> after.x == t.x + t.width - 1
                &&& !sideways && dy > 0 ==> after.y == t.y
                &&& !sideways && dy <= 0 ==> after.y == t.y + t.height - 1
                &&& sideways && s.height > 1 ==> ratio * (s.height - 1) <= row * 65535 && row
                    * 65535 < (ratio + 1) * (s.height - 1)
                &&& sideways && s.height <= 1 ==> ratio == 0
                &&& sideways && t.height > 1 ==> (after.y - t.y) * 65535 <= ratio * (t.height - 1)
                    && ratio * (t.height - 1) < (after.y - t.y + 1) * 65535
                &&& sideways && t.height <= 1 ==> after.y == t.y
                &&& !sideways && s.width > 1 ==> ratio * (s.width - 1) <= column * 65535 && column
                    * 65535 < (ratio + 1) * (s.width - 1)
                &&& !sideways && s.width <= 1 ==> ratio == 0
                &&& !sideways && t.width > 1 ==> (after.x - t.x) * 65535 <= ratio * (t.width - 1)
                    && ratio * (t.width - 1) < (after.x - t.x + 1) * 65535
                &&& !sideways && t.width <= 1 ==> after.x == t.x
            }),
    {
        let (nx, ny) = (self.x + dx, self.y + dy);
        self.lemma_landing(nx, ny, 0);
        self.law_crossing_keeps_the_proportion(dx, dy);
        let s = self.active();
        let t = self.moved(dx, dy).active();
        let ratio = self.departure(dx, dy);
        lemma_floor(ratio * (t.height - 1), 65535);
        lemma_floor(ratio * (t.width - 1), 65535);
        let (ex, ey) = s.nearest(nx, ny);
        if s.height > 1 {
            lemma_ratio_bound(ey - s.y, s.height as int);
            lemma_floor((ey - s.y) * 65535, s.height - 1);
        }
        if s.width > 1 {
            lemma_ratio_bound(ex - s.x, s.width as int);
            lemma_floor((ex - s.x) * 65535, s.width - 1);
        }
    }

    /// The caller learns of a crossing exactly where the pointer changed
    /// screens: which node it left, which one holds it now, the edge it arrived
    /// at, how far along it was when it left, and where it is.
    pub proof fn law_what_the_caller_learns(self, dx: int, dy: int)
        requires
            self.is_desktop(),
            self.is_shown(),
            self.stays_in_range(dx, dy),
        ensures
            ({
                let after = self.moved(dx, dy);
                let sideways = apart_by(dx, 0) >= apart_by(dy, 0);
                match self.motion(dx, dy) {
                    Motion::Stayed { node, x, y } => {
                        &&& after.current == self.current
                        &&& node == self.screens[self.current].node
                        &&& x == after.x && y == after.y
                    },
                    Motion::Crossed { from, to, edge, ratio, x, y } => {
                        &&& after.current != self.current
                        &&& from == self.screens[self.current].node
                        &&& to == self.screens[after.current].node
                        &&& from != to
                        &&& ratio == self.departure(dx, dy)
                        &&& x == after.x && y == after.y
                        &&& edge == if sideways && dx > 0 {
                            Edge::Left
                        } else if sideways {
                            Edge::Right
                        } else if dy > 0 {
                            Edge::Top
                        } else {
                            Edge::Bottom
                        }
                    },
                }
            }),
    {
        let (nx, ny) = (self.x + dx, self.y + dy);
        self.lemma_landing(nx, ny, 0);
        self.law_pointer_is_never_lost(dx, dy);
        let to = self.landing(nx, ny, 0);
        if self.crosses(dx, dy) {
            law_handoff_is_unambiguous(self.screens, nx, ny, self.current, to);
            self.law_crossing_keeps_the_proportion(dx, dy);
        }
    }
}

impl Screen {
    /// How far along an edge a point is, whatever the point: in 65535ths of the
    /// way, rounded down; none before the first pixel, and the whole way past
    /// the last.
    pub proof fn law_ratio_measures_the_way(self, edge: Edge, x: int, y: int)
        ensures
            ({
                let r = self.ratio_at(edge, x, y);
                let upright = edge == Edge::Left || edge == Edge::Right;
                let (way, span) = if upright {
                    (y - self.y, self.height as int)
                } else {
                    (x - self.x, self.width as int)
                };
                &&& 0 <= r <= 65535
                &&& span <= 1 ==> r == 0
                &&& span > 1 && way <= 0 ==> r == 0
                &&& span > 1 && way >= span - 1 ==> r == 65535
                &&& span > 1 && 0 <= way < span ==> r * (span - 1) <= way * 65535 && way * 65535 < (
                r + 1) * (span - 1)
            }),
    {
        let upright = edge == Edge::Left || edge == Edge::Right;
        let (way, span) = if upright {
            (y - self.y, self.height as int)
        } else {
            (x - self.x, self.width as int)
        };
        if span > 1 {
            let held = clamped(way, 0, span - 1);
            lemma_ratio_bound(held, span);
            lemma_floor(held * 65535, span - 1);
            if way >= span - 1 {
                assert((span - 1) * 65535 / (span - 1) == 65535) by (nonlinear_arith)
                    requires
                        span > 1,
                ;
            }
        }
    }

    /// The place that a ratio names on an edge: on that edge, and along it the
    /// pixel that the ratio reaches, rounded down.
    pub proof fn law_a_ratio_names_a_place(self, edge: Edge, ratio: int)
        requires
            0 <= ratio <= 65535,
        ensures
            ({
                let (x, y) = self.point_at(edge, ratio);
                &&& edge == Edge::Left ==> x == self.x
                &&& edge == Edge::Right ==> x == self.x + self.width - 1
                &&& edge == Edge::Top ==> y == self.y
                &&& edge == Edge::Bottom ==> y == self.y + self.height - 1
                &&& edge == Edge::Left || edge == Edge::Right ==> {
                    &&& self.height <= 1 ==> y == self.y
                    &&& self.height > 1 ==> (y - self.y) * 65535 <= ratio * (self.height - 1)
                        && ratio * (self.height - 1) < (y - self.y + 1) * 65535
                }
                &&& edge == Edge::Top || edge == Edge::Bottom ==> {
                    &&& self.width <= 1 ==> x == self.x
                    &&& self.width > 1 ==> (x - self.x) * 65535 <= ratio * (self.width - 1) && ratio
                        * (self.width - 1) < (x - self.x + 1) * 65535
                }
            }),
    {
        lemma_floor(ratio * (self.height - 1), 65535);
        lemma_floor(ratio * (self.width - 1), 65535);
    }

    /// A point lies on a screen where it is not left of it, not right of it, not
    /// above it and not below it.
    pub proof fn law_what_a_screen_holds(self, x: int, y: int)
        ensures
            self.holds(x, y) <==> !(x < self.x || x >= self.x + self.width || y < self.y || y
                >= self.y + self.height),
    {
    }

    /// A screen keeps the node, the place and the size that it is given, and of
    /// its name as many bytes as the field takes, with NULs behind them.
    pub proof fn law_a_screen_is_as_given(
        node: u8,
        name: Seq<char>,
        x: i32,
        y: i32,
        w: i32,
        h: i32,
        i: int,
    )
        requires
            0 <= i < 16,
        ensures
            ({
                let s = Screen::placed(node, name, x, y, w, h);
                &&& s.node == node
                &&& s.x == x && s.y == y
                &&& s.width == w && s.height == h
                &&& i < encode_utf8(name).len() ==> s.name@[i] == encode_utf8(name)[i]
                &&& i >= encode_utf8(name).len() ==> s.name@[i] == 0
            }),
    {
        let field = padded(encode_utf8(name), NAME_LEN as int);
        assert(sixteen_at(field, 0)@ =~= field);
    }
}

/// The pointer starts in the middle of the local screen, to the pixel: as many
/// columns before it as behind it, or one more, and so for rows.
pub proof fn law_the_pointer_starts_in_the_middle(s: Screen)
    ensures
        ({
            let (x, y) = centre(s);
            &&& s.width >= 0 ==> 2 * (x - s.x) <= s.width && s.width <= 2 * (x - s.x) + 1
            &&& s.height >= 0 ==> 2 * (y - s.y) <= s.height && s.height <= 2 * (y - s.y) + 1
            &&& s.width < 0 ==> 2 * (x - s.x) - 1 <= s.width && s.width <= 2 * (x - s.x)
            &&& s.height < 0 ==> 2 * (y - s.y) - 1 <= s.height && s.height <= 2 * (y - s.y)
        }),
{
}

/// Two screens share a pixel, or would where they had any: neither lies wholly
/// to one side of the other.
pub open spec fn overlap(a: Screen, b: Screen) -> bool {
    a.x < b.x + b.width && b.x < a.x + a.width && a.y < b.y + b.height && b.y < a.y + a.height
}

/// Two screens cannot stand beside each other.
pub open spec fn clash(a: Screen, b: Screen) -> bool {
    a.node == b.node || overlap(a, b)
}

/// What is said of screens that form no desktop: that there are none, that
/// there are more than five, that none has node 0, or what is wrong between the
/// first two that clash, going through the pairs in order. A shared node is
/// named before a shared pixel.
pub proof fn law_the_first_fault_is_named(screens: Seq<Screen>)
    ensures
        layout_error(screens) == Some(LayoutError::Empty) <==> screens.len() == 0,
        layout_error(screens) == Some(LayoutError::TooMany) <==> screens.len() > 5,
        layout_error(screens) == Some(LayoutError::NoLocalScreen) <==> 1 <= screens.len() <= 5
            && forall|i: int| 0 <= i < screens.len() ==> (#[trigger] screens[i]).node != 0,
        layout_error(screens) matches Some(LayoutError::DuplicateNode(n)) ==> exists|a: int, b: int|
            #![trigger screens[a], screens[b]]
            first_clash(screens, a, b) && screens[a].node == n && screens[b].node == n,
        layout_error(screens) == Some(LayoutError::Overlap) ==> exists|a: int, b: int|
            #![trigger screens[a], screens[b]]
            first_clash(screens, a, b) && screens[a].node != screens[b].node && overlap(
                screens[a],
                screens[b],
            ),
        layout_error(screens) is None ==> forall|a: int, b: int|
            #![trigger screens[a], screens[b]]
            0 <= a < b < screens.len() ==> !clash(screens[a], screens[b]),
{
    if screens.len() > 0 {
        lemma_local_from(screens, 0);
        lemma_rows(screens, 0);
        lemma_first_clash(screens, 0);
        if local_from(screens, 0) < screens.len() {
            assert(screens[local_from(screens, 0)].node == 0);
        }
        if layout_error(screens) is None {
            assert forall|a: int, b: int|
                #![trigger screens[a], screens[b]]
                0 <= a < b < screens.len() implies !clash(screens[a], screens[b]) by {
                assert(pair_error(screens[a], screens[b]) is None);
            }
        }
    }
}

/// `a` and `b` are the first two screens that clash: no earlier one clashes with
/// any behind it, nor `a` with any between them.
pub open spec fn first_clash(screens: Seq<Screen>, a: int, b: int) -> bool {
    &&& 0 <= a < b < screens.len()
    &&& clash(screens[a], screens[b])
    &&& forall|c: int, d: int|
        #![trigger screens[c], screens[d]]
        0 <= c < d < screens.len() && (c < a || (c == a && d < b)) ==> !clash(
            screens[c],
            screens[d],
        )
}

proof fn lemma_row_clash(screens: Seq<Screen>, i: int, j: int)
    requires
        0 <= i < j <= screens.len(),
    ensures
        row_error(screens, i, j) is Some ==> exists|b: int|
            j <= b < screens.len() && row_error(screens, i, j) == pair_error(
                screens[i],
                #[trigger] screens[b],
            ) && forall|d: int| j <= d < b ==> pair_error(screens[i], #[trigger] screens[d]) is None,
    decreases screens.len() - j,
{
    if j < screens.len() && pair_error(screens[i], screens[j]) is None {
        lemma_row_clash(screens, i, j + 1);
    }
}

proof fn lemma_first_clash(screens: Seq<Screen>, i: int)
    requires
        0 <= i <= screens.len(),
        forall|c: int, d: int|
            #![trigger screens[c], screens[d]]
            0 <= c < d < screens.len() && c < i ==> pair_error(screens[c], screens[d]) is None,
    ensures
        rows_error(screens, i) is Some ==> exists|a: int, b: int|
            #![trigger screens[a], screens[b]]
            first_clash(screens, a, b) && rows_error(screens, i) == pair_error(
                screens[a],
                screens[b],
            ),
    decreases screens.len() - i,
{
    if i < screens.len() {
        lemma_row(screens, i, i + 1);
        if row_error(screens, i, i + 1) is Some {
            lemma_row_clash(screens, i, i + 1);
            let b = choose|b: int|
                i + 1 <= b < screens.len() && row_error(screens, i, i + 1) == pair_error(
                    screens[i],
                    #[trigger] screens[b],
                ) && forall|d: int|
                    i + 1 <= d < b ==> pair_error(screens[i], #[trigger] screens[d]) is None;
            assert forall|c: int, d: int|
                #![trigger screens[c], screens[d]]
                0 <= c < d < screens.len() && (c < i || (c == i && d < b)) implies !clash(
                screens[c],
                screens[d],
            ) by {
                assert(pair_error(screens[c], screens[d]) is None);
            }
            assert(first_clash(screens, i, b));
        } else {
            lemma_first_clash(screens, i + 1);
        }
    }
}

} // verus!
