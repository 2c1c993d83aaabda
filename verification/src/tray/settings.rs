//! The settings pane.
//!
//! Edits the virtual desktop and writes it back to the dongle. Nothing is
//! stored locally: the layout is read from the dongle on open and pushed back
//! on save, so two controller machines cannot disagree about it.

use vstd::prelude::*;

use crate::config::{Config, ScreenConfig};
use crate::text::{chars_of, decimal, push_decimal, text_from, trim, trimmed};
use crate::update::release::optional;

verus! {

/// Most nodes a dongle can reach beside this machine.
pub const LAST_NODE: u8 = 4;

/// What the pane edits.
#[derive(Debug)]
pub struct Settings {
    pub screens: Vec<ScreenConfig>,
    /// Result of the last load or save, shown inline.
    pub message: Option<Result<String, String>>,
}

/// A screen of this node is in the layout.
pub open spec fn is_taken(screens: Seq<ScreenConfig>, node: u8) -> bool {
    exists|i: int| 0 <= i < screens.len() && (#[trigger] screens[i]).node == node
}

/// The first node from `n` on that no screen has; the first of all where every
/// one is taken.
pub open spec fn free_node(screens: Seq<ScreenConfig>, n: u8) -> u8
    decreases LAST_NODE + 1 - n,
{
    if n > LAST_NODE {
        1
    } else if !is_taken(screens, n) {
        n
    } else {
        free_node(screens, (n + 1) as u8)
    }
}

fn taken(screens: &Vec<ScreenConfig>, node: u8) -> (r: bool)
    ensures
        r == is_taken(screens@, node),
{
    let n: usize = screens.len();
    let mut i: usize = 0;
    while i < n
        invariant
            i <= n == screens@.len(),
            forall|k: int| 0 <= k < i ==> (#[trigger] screens@[k]).node != node,
        decreases n - i,
    {
        if screens[i].node == node {
            return true;
        }
        i = i + 1;
    }
    false
}

/// The next free node id, so a new row is usable without the user working out
/// which slots are taken.
pub fn next_node(screens: &Vec<ScreenConfig>) -> (r: u8)
    ensures
        r == free_node(screens@, 1),
        1 <= r <= LAST_NODE,
{
    let mut n: u8 = 1;
    while n <= LAST_NODE && taken(screens, n)
        invariant
            1 <= n <= LAST_NODE + 1,
            free_node(screens@, 1) == free_node(screens@, n),
        decreases LAST_NODE + 1 - n,
    {
        n = n + 1;
    }
    if n <= LAST_NODE {
        n
    } else {
        1
    }
}

/// A new row is a screen for the next free node.
pub open spec fn is_new_screen(s: ScreenConfig, node: u8) -> bool {
    &&& s.name@ == "machine "@ + decimal(node as int)
    &&& s.node == node
    &&& s.x == 0
    &&& s.y == 0
    &&& s.width == 1920
    &&& s.height == 1080
    &&& s.address is None
    &&& s.input is None
}

/// What an address field means: empty is unpinned, whichever machine connects
/// into this slot first.
pub open spec fn address_for(text: Seq<char>) -> Option<Seq<char>> {
    if trimmed(text).len() == 0 {
        None
    } else {
        Some(trimmed(text))
    }
}

/// Read an address field.
pub fn edited_address(text: &str) -> (r: Option<String>)
    ensures
        optional(r) == address_for(text@),
{
    let chars: Vec<char> = chars_of(text);
    let t: &[char] = trim(chars.as_slice());
    if t.len() == 0 {
        None
    } else {
        Some(text_from(t))
    }
}

/// The message is good news and says this.
pub open spec fn tells(m: Option<Result<String, String>>, text: Seq<char>) -> bool {
    m matches Some(Ok(t)) && t@ == text
}

/// The message is bad news and says this.
pub open spec fn warns(m: Option<Result<String, String>>, text: Seq<char>) -> bool {
    m matches Some(Err(t)) && t@ == text
}

impl Settings {
    /// Nothing loaded yet.
    pub fn new() -> (r: Self)
        ensures
            r.screens@ == Seq::<ScreenConfig>::empty(),
            r.message is None,
    {
        Settings { screens: Vec::new(), message: None }
    }

    /// Take in what reading the layout came to. A failure keeps what is on
    /// screen.
    pub fn loaded(&mut self, layout: Result<Config, String>)
        ensures
            match layout {
                Ok(cfg) => final(self).screens == cfg.screens && tells(
                    final(self).message,
                    "Loaded "@ + decimal(cfg.screens@.len() as int) + " screens"@,
                ),
                Err(e) => final(self).screens == old(self).screens && warns(
                    final(self).message,
                    e@,
                ),
            },
    {
        match layout {
            Ok(cfg) => {
                let mut t = String::from_str("Loaded ");
                push_decimal(&mut t, cfg.screens.len() as u64);
                t.append(" screens");
                self.screens = cfg.screens;
                self.message = Some(Ok(t));
            },
            Err(e) => {
                self.message = Some(Err(e));
            },
        }
    }

    /// Take in what writing the layout came to.
    pub fn saved(&mut self, result: Result<(), String>)
        ensures
            final(self).screens == old(self).screens,
            match result {
                Ok(_) => tells(final(self).message, "Saved to the dongle"@),
                Err(e) => warns(final(self).message, e@),
            },
    {
        match result {
            Ok(_) => {
                self.message = Some(Ok(String::from_str("Saved to the dongle")));
            },
            Err(e) => {
                self.message = Some(Err(e));
            },
        }
    }

    /// Add a row.
    pub fn add_screen(&mut self)
        ensures
            final(self).message == old(self).message,
            final(self).screens@.len() == old(self).screens@.len() + 1,
            final(self).screens@.drop_last() == old(self).screens@,
            is_new_screen(final(self).screens@.last(), free_node(old(self).screens@, 1)),
    {
        let node: u8 = next_node(&self.screens);
        let mut name = String::from_str("machine ");
        push_decimal(&mut name, node as u64);
        self.screens.push(
            ScreenConfig {
                name,
                node,
                x: 0,
                y: 0,
                width: 1920,
                height: 1080,
                address: None,
                input: None,
            },
        );
        assert(self.screens@.drop_last() =~= old(self).screens@);
    }

    /// Whether a row can be removed. Node 0 is the controller's own screen; a
    /// layout without one is rejected, so do not offer to delete it by accident.
    pub fn can_remove(&self, i: usize) -> (r: bool)
        ensures
            r == (i < self.screens@.len() && self.screens@[i as int].node != 0),
    {
        i < self.screens.len() && self.screens[i].node != 0
    }

    /// Remove a row.
    pub fn remove(&mut self, i: usize)
        requires
            i < old(self).screens@.len(),
        ensures
            final(self).screens@ == old(self).screens@.remove(i as int),
            final(self).message == old(self).message,
    {
        let _ = self.screens.remove(i);
    }

    /// Take in an edit of a row's address.
    pub fn set_address(&mut self, i: usize, text: &str)
        requires
            i < old(self).screens@.len(),
        ensures
            final(self).message == old(self).message,
            final(self).screens@.len() == old(self).screens@.len(),
            forall|k: int|
                0 <= k < old(self).screens@.len() && k != i ==> final(self).screens@[k] == old(
                    self,
                ).screens@[k],
            ({
                let now = final(self).screens@[i as int];
                &&& optional(now.address) == address_for(text@)
                &&& now == (ScreenConfig { address: now.address, ..old(self).screens@[i as int] })
            }),
    {
        let address: Option<String> = edited_address(text);
        self.screens[i].address = address;
    }
}

/// The node of a new row is one that no other row has, as long as there is one.
pub proof fn law_a_new_row_is_usable(screens: Seq<ScreenConfig>, n: u8)
    requires
        1 <= n <= LAST_NODE + 1,
        exists|k: u8| n <= k <= LAST_NODE && !is_taken(screens, k),
    ensures
        !is_taken(screens, free_node(screens, n)),
        n <= free_node(screens, n) <= LAST_NODE,
    decreases LAST_NODE + 1 - n,
{
    if is_taken(screens, n) {
        let k = choose|k: u8| n <= k <= LAST_NODE && !is_taken(screens, k);
        assert(k != n);
        law_a_new_row_is_usable(screens, (n + 1) as u8);
    }
}

/// A new row gets the smallest node from 1 to 4 that no row has, and 1 where all
/// are taken.
pub proof fn law_a_new_row_gets_the_smallest_free_node(screens: Seq<ScreenConfig>, k: u8)
    requires
        1 <= k <= 4,
        forall|j: u8| 1 <= j < k ==> is_taken(screens, j),
    ensures
        !is_taken(screens, k) ==> free_node(screens, 1) == k,
        k == 4 && is_taken(screens, k) ==> free_node(screens, 1) == 1,
        is_taken(screens, k) <==> exists|i: int|
            0 <= i < screens.len() && (#[trigger] screens[i]).node == k,
{
    reveal_with_fuel(free_node, 6);
    assert(k > 1 ==> is_taken(screens, 1));
    assert(k > 2 ==> is_taken(screens, 2));
    assert(k > 3 ==> is_taken(screens, 3));
}

/// An address field that holds nothing but white space pins nothing; any other
/// pins what stands in it without the white space around.
pub proof fn law_what_an_address_field_means(text: Seq<char>)
    ensures
        address_for(text) is None <==> forall|i: int|
            0 <= i < text.len() ==> crate::text::is_blank(#[trigger] text[i]),
        address_for(text) matches Some(a) ==> a.len() > 0 && !crate::text::is_blank(a[0])
            && !crate::text::is_blank(a.last()),
{
    crate::text::law_trimming_takes_white_space_alone(text);
    let (a, b) = choose|a: int, b: int|
        #![trigger text.subrange(a, b)]
        0 <= a <= b <= text.len() && trimmed(text) == text.subrange(a, b) && (forall|i: int|
            (0 <= i < a || b <= i < text.len()) ==> crate::text::is_blank(#[trigger] text[i])) && (a
            < b ==> !crate::text::is_blank(text[a]) && !crate::text::is_blank(text[b - 1]));
    assert(trimmed(text) == text.subrange(a, b));
}

} // verus!
