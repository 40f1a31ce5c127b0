//! A session's output: the items shown in its buffer, with a count of those not yet read,
//! and which of them the history view shows.

use vstd::prelude::*;

use crate::event::Status;
use crate::input::{text_width, width_of_text};
use crate::model::{lossy_text, utf8_lossy, InputLine, MudLine};
use crate::text::{owned, push_str};
use vstd::utf8::encode_utf8;

verus! {

/// An item of output.
#[derive(Debug, Clone, PartialEq, Eq)]
pub enum Item {
    /// A line of output, usually from the MUD server.
    Mud { line: MudLine },
    /// A line of input, usually from the player.
    Input { line: InputLine },
    /// A line of output that was detected as a prompt.
    Prompt { prompt: MudLine },
    /// A prompt line held in place at the bottom of the output.
    HeldPrompt { prompt: MudLine },
    /// A change of the connection's status.
    ConnectionEvent { status: Status },
    /// The result of a client command, and whether it failed.
    CommandResult { error: bool, message: String },
    /// A line of output from a previous session.
    PreviousSession { line: MudLine },
    /// A line of debug data.
    Debug { line: String },
}

impl Item {
    /// A line from the MUD.
    pub fn mud(line: MudLine) -> (i: Item)
        ensures
            i == (Item::Mud { line }),
    {
        Item::Mud { line }
    }

    /// A line of input.
    pub fn input(line: InputLine) -> (i: Item)
        ensures
            i == (Item::Input { line }),
    {
        Item::Input { line }
    }

    /// A prompt line.
    pub fn prompt(prompt: MudLine) -> (i: Item)
        ensures
            i == (Item::Prompt { prompt }),
    {
        Item::Prompt { prompt }
    }

    /// A prompt line held in place.
    pub fn held_prompt(prompt: MudLine) -> (i: Item)
        ensures
            i == (Item::HeldPrompt { prompt }),
    {
        Item::HeldPrompt { prompt }
    }

    /// A change of the connection's status.
    pub fn connection_event(status: Status) -> (i: Item)
        ensures
            i == (Item::ConnectionEvent { status }),
    {
        Item::ConnectionEvent { status }
    }

    /// The result of a command that succeeded.
    pub fn command_result(message: String) -> (i: Item)
        ensures
            i == (Item::CommandResult { error: false, message }),
    {
        Item::CommandResult { error: false, message }
    }

    /// The result of a command that failed.
    pub fn failed_command_result(message: String) -> (i: Item)
        ensures
            i == (Item::CommandResult { error: true, message }),
    {
        Item::CommandResult { error: true, message }
    }

    /// A line from a previous session.
    pub fn previous_session(line: MudLine) -> (i: Item)
        ensures
            i == (Item::PreviousSession { line }),
    {
        Item::PreviousSession { line }
    }

    /// A line of debug data.
    pub fn debug(line: String) -> (i: Item)
        ensures
            i == (Item::Debug { line }),
    {
        Item::Debug { line }
    }

    /// The textual form: a label for the kind of item, then its content.
    pub open spec fn spec_display(&self) -> Seq<char> {
        match self {
            Item::Mud { line } => "Line: "@ + utf8_lossy(line.raw@),
            Item::Input { line } => "Input Line: "@ + line.spec_display(),
            Item::Prompt { prompt } => "Prompt: "@ + utf8_lossy(prompt.raw@),
            Item::HeldPrompt { prompt } => "Held Prompt: "@ + utf8_lossy(prompt.raw@),
            Item::ConnectionEvent { status } => "Connection Event: "@ + status.spec_display(),
            Item::CommandResult { error, message } => if *error {
                "Command Result Error: "@ + message@
            } else {
                "Command Result: "@ + message@
            },
            Item::PreviousSession { line } => "Line (Previous session): "@ + utf8_lossy(line.raw@),
            Item::Debug { line } => "Debug: "@ + line@,
        }
    }

    /// The textual form of the item.
    pub fn to_string(&self) -> (s: String)
        ensures
            s@ == self.spec_display(),
    {
        let (label, content) = match self {
            Item::Mud { line } => ("Line: ", line.to_string()),
            Item::Input { line } => ("Input Line: ", line.to_string()),
            Item::Prompt { prompt } => ("Prompt: ", prompt.to_string()),
            Item::HeldPrompt { prompt } => ("Held Prompt: ", prompt.to_string()),
            Item::ConnectionEvent { status } => ("Connection Event: ", status.to_string()),
            Item::CommandResult { error, message } => (
                if *error {
                    "Command Result Error: "
                } else {
                    "Command Result: "
                },
                message.clone(),
            ),
            Item::PreviousSession { line } => ("Line (Previous session): ", line.to_string()),
            Item::Debug { line } => ("Debug: ", line.clone()),
        };
        let mut s = owned(label);
        push_str(&mut s, content.as_str());
        s
    }
}

/// The items of a session's output, and how many of them were added since they were last
/// read.
#[derive(Debug, Clone)]
pub struct Output {
    new_data: usize,
    received: Vec<Item>,
}

/// A count raised by `n`, stopping at the largest `usize`.
pub open spec fn saturating(count: usize, n: int) -> usize {
    if count + n > usize::MAX {
        usize::MAX
    } else {
        (count + n) as usize
    }
}

impl Output {
    /// The items, oldest first.
    pub closed spec fn items(&self) -> Seq<Item> {
        self.received@
    }

    /// How many items were added since the items were last read.
    pub closed spec fn unread(&self) -> usize {
        self.new_data
    }

    /// How many items were added since the items were last read.
    pub fn new_data(&self) -> (n: usize)
        ensures
            n == self.unread(),
    {
        self.new_data
    }

    /// No items.
    pub fn new() -> (o: Output)
        ensures
            o.unread() == 0,
            o.items() == Seq::<Item>::empty(),
    {
        Output { new_data: 0, received: Vec::new() }
    }

    /// The items, oldest first; all of them now count as read.
    pub fn read_received(&mut self) -> (r: &Vec<Item>)
        ensures
            final(self).unread() == 0,
            final(self).items() == old(self).items(),
            r@ == old(self).items(),
    {
        self.new_data = 0;
        &self.received
    }

    /// Add items after the existing ones, counting them as new.
    pub fn extend(&mut self, items: Vec<Item>)
        ensures
            final(self).items() == old(self).items() + items@,
            final(self).unread() == saturating(old(self).unread(), items@.len() as int),
    {
        let n = items.len();
        self.new_data = self.new_data.saturating_add(n);
        let mut items = items;
        self.received.append(&mut items);
    }

    /// Replace the items; they count as new only when `changed`.
    pub fn set(&mut self, items: Vec<Item>, changed: bool)
        ensures
            final(self).items() == items@,
            final(self).unread() == if changed {
                saturating(0, items@.len() as int)
            } else {
                0
            },
    {
        self.received.clear();
        self.new_data = 0;
        self.extend(items);
        if !changed {
            self.new_data = 0;
        }
    }

    /// The number of items.
    pub fn len(&self) -> (n: usize)
        ensures
            n == self.items().len(),
    {
        self.received.len()
    }

    /// Whether there are no items.
    pub fn is_empty(&self) -> (b: bool)
        ensures
            b == (self.items().len() == 0),
    {
        self.received.len() == 0
    }

    /// Add an item after the existing ones, counting it as new.
    pub fn push(&mut self, item: Item)
        ensures
            final(self).items() == old(self).items().push(item),
            final(self).unread() == saturating(old(self).unread(), 1),
    {
        self.received.push(item);
        self.new_data = self.new_data.saturating_add(1);
    }
}

/// Whether the history view shows an item: not a gagged line from the MUD, not a line of
/// input when input is not echoed, and not the held prompt.
pub open spec fn shows_item(item: Item, echo_input: bool) -> bool {
    match item {
        Item::Mud { line } => !line.gag,
        Item::Input { .. } => echo_input,
        Item::HeldPrompt { .. } => false,
        _ => true,
    }
}

/// Whether the history view shows an item (see [`shows_item`]).
pub fn filter_item(item: &Item, echo_input: bool) -> (b: bool)
    ensures
        b == shows_item(*item, echo_input),
{
    match item {
        Item::Mud { line } => !line.gag,
        Item::Input { .. } => echo_input,
        Item::HeldPrompt { .. } => false,
        _ => true,
    }
}

/// A regional indicator symbol, half of a flag.
pub open spec fn is_regional(c: char) -> bool {
    0x1F1E6 <= (c as u32) <= 0x1F1FF
}

/// The position of the first byte `0xF0` (the lead byte of a four-byte UTF-8 sequence) at or
/// after `i`, or the length.
pub open spec fn first_f0_from(b: Seq<u8>, i: int) -> int
    decreases b.len() - i,
{
    if i >= b.len() {
        b.len() as int
    } else if b[i] == 0xF0 {
        i
    } else {
        first_f0_from(b, i + 1)
    }
}

/// The part of a symbol worth drawing: a symbol of at most three bytes as it is; two leading
/// regional indicators (a flag) alone; otherwise the bytes before the first four-byte
/// sequence that starts at or after the fourth byte, read as UTF-8.
pub open spec fn simplified_symbol(s: Seq<char>) -> Seq<char> {
    let b = encode_utf8(s);
    if b.len() <= 3 {
        s
    } else if s.len() >= 2 && is_regional(s[0]) && is_regional(s[1]) {
        s.take(2)
    } else {
        utf8_lossy(b.take(first_f0_from(b, 3)))
    }
}

/// Simplify a grapheme that joins several emoji, which terminals draw unreadably: keep what
/// [`simplified_symbol`] keeps, with its display width.
pub fn simplify_complex_emoji(symbol: &str) -> (r: (String, usize))
    ensures
        r.0@ == simplified_symbol(symbol@),
        r.1 == text_width(r.0@),
{
    let bytes = symbol.as_bytes();
    if bytes.len() <= 3 {
        return (owned(symbol), width_of_text(symbol));
    }
    let chars = crate::text::chars_of(symbol);
    if chars.len() >= 2 {
        let first = chars[0] as u32;
        let second = chars[1] as u32;
        if 0x1F1E6 <= first && first <= 0x1F1FF && 0x1F1E6 <= second && second <= 0x1F1FF {
            let flag = crate::text::string_from_chars(&chars.as_slice()[0..2]);
            proof {
                assert(flag@ =~= symbol@.take(2));
            }
            let w = width_of_text(flag.as_str());
            return (flag, w);
        }
    }
    let mut end: usize = 3;
    while end < bytes.len() && bytes[end] != 0xF0
        invariant
            3 <= end <= bytes@.len(),
            bytes@ == encode_utf8(symbol@),
            first_f0_from(bytes@, 3) == first_f0_from(bytes@, end as int),
        decreases bytes@.len() - end,
    {
        end += 1;
    }
    let part = lossy_text(&bytes[0..end]);
    proof {
        assert(bytes@.subrange(0, end as int) =~= bytes@.take(end as int));
    }
    let w = width_of_text(part.as_str());
    (part, w)
}

} // verus!
