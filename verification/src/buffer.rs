//! Named output buffers that scripts create: their items, how they are drawn, and where
//! they are scrolled to.

use vstd::prelude::*;

use crate::output::{saturating, Item, Output};
use crate::session::BufferDirection;
use crate::text::owned;

verus! {

/// When a buffer shows a scrollbar.
#[derive(Debug, Clone, Copy, PartialEq, Eq, Structural)]
pub enum Scrollbar {
    /// Only while scrolled back.
    IfScrolled,
    Never,
    Always,
}

impl Scrollbar {
    /// The name of the setting.
    pub open spec fn spec_display(self) -> Seq<char> {
        match self {
            Scrollbar::IfScrolled => "IfScrolled"@,
            Scrollbar::Never => "Never"@,
            Scrollbar::Always => "Always"@,
        }
    }

    /// The name of the setting.
    pub fn to_string(&self) -> (s: String)
        ensures
            s@ == self.spec_display(),
    {
        match self {
            Scrollbar::IfScrolled => owned("IfScrolled"),
            Scrollbar::Never => owned("Never"),
            Scrollbar::Always => owned("Always"),
        }
    }
}

/// Why a buffer could not be created.
#[derive(Debug, Clone, Copy, PartialEq, Eq, Structural)]
pub enum BufferError {
    /// The name is empty.
    NameRequired,
}

impl BufferError {
    /// The error's message.
    pub fn to_string(&self) -> (s: String)
        ensures
            s@ == "a non-empty name is required"@,
    {
        owned("a non-empty name is required")
    }
}

/// A named buffer of output items, with how it is drawn and where it is scrolled to.
#[derive(Debug)]
pub struct Buffer {
    pub name: String,
    pub line_wrap: bool,
    pub border_top: bool,
    pub border_bottom: bool,
    pub border_left: bool,
    pub border_right: bool,
    pub direction: BufferDirection,
    pub scrollbar: Scrollbar,
    pub dimensions: (u16, u16),
    scroll_pos: usize,
    max_scroll: usize,
    data: Output,
}

impl Buffer {
    /// The buffer's name.
    pub closed spec fn spec_name(&self) -> Seq<char> {
        self.name@
    }

    /// How far back the buffer is scrolled.
    pub closed spec fn spec_scroll(&self) -> usize {
        self.scroll_pos
    }

    /// How far back the buffer can be scrolled.
    pub closed spec fn spec_max_scroll(&self) -> usize {
        self.max_scroll
    }

    /// The buffer's items, oldest first.
    pub closed spec fn items(&self) -> Seq<Item> {
        self.data.items()
    }

    /// How many items were added since the items were last taken.
    pub closed spec fn unread(&self) -> usize {
        self.data.unread()
    }

    /// Whether lines wrap, then the top, bottom, left and right borders.
    pub closed spec fn spec_layout(&self) -> (bool, bool, bool, bool, bool) {
        (self.line_wrap, self.border_top, self.border_bottom, self.border_left, self.border_right)
    }

    /// The direction the buffer fills in, when it shows a scrollbar, and its dimensions.
    pub closed spec fn spec_style(&self) -> (BufferDirection, Scrollbar, (u16, u16)) {
        (self.direction, self.scrollbar, self.dimensions)
    }

    /// Everything but the scroll position is the same in both buffers.
    pub closed spec fn same_but_scroll(&self, other: &Buffer) -> bool {
        &&& self.name == other.name
        &&& self.line_wrap == other.line_wrap
        &&& self.border_top == other.border_top
        &&& self.border_bottom == other.border_bottom
        &&& self.border_left == other.border_left
        &&& self.border_right == other.border_right
        &&& self.direction == other.direction
        &&& self.scrollbar == other.scrollbar
        &&& self.dimensions == other.dimensions
        &&& self.max_scroll == other.max_scroll
        &&& self.data == other.data
    }

    /// An empty buffer with the given name, not scrolled, without borders or line wrapping,
    /// filled from the bottom; [`BufferError::NameRequired`] for an empty name.
    pub fn new(name: String) -> (r: Result<Buffer, BufferError>)
        ensures
            name@.len() == 0 ==> r == Err::<Buffer, BufferError>(BufferError::NameRequired),
            name@.len() > 0 ==> (r matches Ok(b) && b.spec_name() == name@ && b.spec_scroll() == 0
                && b.spec_max_scroll() == 0 && b.items().len() == 0 && b.unread() == 0
                && b.spec_layout() == (false, false, false, false, false)
                && b.spec_style() == (BufferDirection::BottomToTop, Scrollbar::IfScrolled, (
            0u16,
            0u16,
        ))),
    {
        if crate::text::chars_of(name.as_str()).len() == 0 {
            return Err(BufferError::NameRequired);
        }
        Ok(
            Buffer {
                name,
                line_wrap: false,
                border_top: false,
                border_bottom: false,
                border_left: false,
                border_right: false,
                direction: BufferDirection::BottomToTop,
                scrollbar: Scrollbar::IfScrolled,
                dimensions: (0, 0),
                scroll_pos: 0,
                max_scroll: 0,
                data: Output::new(),
            },
        )
    }

    /// The items, oldest first; all of them now count as read.
    pub fn take_received(&mut self) -> (r: &Vec<Item>)
        ensures
            r@ == old(self).items(),
            final(self).items() == old(self).items(),
            final(self).unread() == 0,
            final(self).spec_scroll() == old(self).spec_scroll(),
            final(self).spec_max_scroll() == old(self).spec_max_scroll(),
    {
        self.data.read_received()
    }

    /// How many items were added since the items were last taken.
    pub fn new_data(&self) -> (n: usize)
        ensures
            n == self.unread(),
    {
        self.data.new_data()
    }

    /// The number of items.
    pub fn len(&self) -> (n: usize)
        ensures
            n == self.items().len(),
    {
        self.data.len()
    }

    /// Add an item after the existing ones, counting it as new.
    pub fn add(&mut self, item: Item)
        ensures
            final(self).items() == old(self).items().push(item),
            final(self).unread() == saturating(old(self).unread(), 1),
            final(self).spec_scroll() == old(self).spec_scroll(),
            final(self).spec_max_scroll() == old(self).spec_max_scroll(),
    {
        self.data.push(item);
    }

    /// Add items after the existing ones, counting them as new.
    pub fn add_multiple(&mut self, items: Vec<Item>)
        ensures
            final(self).items() == old(self).items() + items@,
            final(self).unread() == saturating(old(self).unread(), items@.len() as int),
            final(self).spec_scroll() == old(self).spec_scroll(),
            final(self).spec_max_scroll() == old(self).spec_max_scroll(),
    {
        self.data.extend(items);
    }

    /// How far back the buffer is scrolled.
    pub fn scroll(&self) -> (n: usize)
        ensures
            n == self.spec_scroll(),
    {
        self.scroll_pos
    }

    /// How far back the buffer can be scrolled.
    pub fn max_scroll(&self) -> (n: usize)
        ensures
            n == self.spec_max_scroll(),
    {
        self.max_scroll
    }

    /// Record how far back the buffer can be scrolled, as drawing it found.
    pub fn set_max_scroll(&mut self, n: usize)
        ensures
            final(self).spec_max_scroll() == n,
            final(self).spec_scroll() == old(self).spec_scroll(),
            final(self).items() == old(self).items(),
            final(self).unread() == old(self).unread(),
    {
        self.max_scroll = n;
    }

    /// Scroll back by `lines`; a position that would overflow is left as it is.
    pub fn scroll_up(&mut self, lines: u16)
        ensures
            final(self).same_but_scroll(old(self)),
            final(self).spec_scroll() == scrolled_up(old(self).spec_scroll(), lines),
    {
        self.scroll_pos = match self.scroll_pos.checked_add(lines as usize) {
            Some(p) => p,
            None => self.scroll_pos,
        };
    }

    /// Scroll forward by `lines`, stopping at the newest items.
    pub fn scroll_down(&mut self, lines: u16)
        ensures
            final(self).same_but_scroll(old(self)),
            final(self).spec_scroll() == scrolled_down(old(self).spec_scroll(), lines),
    {
        self.scroll_pos = self.scroll_pos.saturating_sub(lines as usize);
    }

    /// Scroll to the newest items: position 1.
    pub fn scroll_bottom(&mut self)
        ensures
            final(self).same_but_scroll(old(self)),
            final(self).spec_scroll() == 1,
    {
        self.scroll_pos = 1;
    }

    /// Scroll to the given position.
    pub fn scroll_to(&mut self, scroll: usize)
        ensures
            final(self).same_but_scroll(old(self)),
            final(self).spec_scroll() == scroll,
    {
        self.scroll_pos = scroll;
    }

    /// Scroll back as far as the buffer can be scrolled.
    pub fn scroll_max(&mut self)
        ensures
            final(self).same_but_scroll(old(self)),
            final(self).spec_scroll() == old(self).spec_max_scroll(),
    {
        self.scroll_pos = self.max_scroll;
    }
}

/// The position after scrolling back by `lines`: further back by that much, unless that
/// overflows, in which case it stays.
pub open spec fn scrolled_up(pos: usize, lines: u16) -> usize {
    if pos + lines <= usize::MAX {
        (pos + lines) as usize
    } else {
        pos
    }
}

/// The position after scrolling forward by `lines`: that much nearer the newest items, and
/// no nearer than them.
pub open spec fn scrolled_down(pos: usize, lines: u16) -> usize {
    if pos >= lines {
        (pos - lines) as usize
    } else {
        0
    }
}

/// Scrolling back by some lines and then forward by as many returns to the position, when
/// scrolling back did not overflow.
pub proof fn lemma_scroll_up_down(pos: usize, lines: u16)
    requires
        pos + lines <= usize::MAX,
    ensures
        scrolled_down(scrolled_up(pos, lines), lines) == pos,
{
}

/// Scrolling forward never goes past the newest items, and never moves back.
pub proof fn lemma_scroll_down_bounded(pos: usize, lines: u16)
    ensures
        scrolled_down(pos, lines) <= pos,
{
}

} // verus!
