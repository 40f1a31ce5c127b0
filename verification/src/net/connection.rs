//! Actions a session asks of its connection.

use vstd::prelude::*;

use super::telnet::codec::{Codec, Item};

verus! {

/// A connection action.
#[derive(Debug)]
pub enum Action {
    /// Terminate the connection.
    Disconnect,
    /// Send the item over the connection.
    Send(Item),
    /// Flush any partially buffered line content.
    Flush,
}

impl From<Item> for Action {
    /// Sending the item.
    fn from(item: Item) -> (a: Action) {
        Action::Send(item)
    }
}

impl vstd::std_specs::convert::FromSpecImpl<Item> for Action {
    open spec fn obeys_from_spec() -> bool {
        true
    }

    open spec fn from_spec(item: Item) -> Action {
        Action::Send(item)
    }
}

/// What a connection does with an action.
#[derive(Debug)]
pub enum ActionStep {
    /// Stop: the connection closes normally.
    Close,
    /// Write the item to the stream.
    Write(Item),
    /// Report the buffered partial line (as a prompt candidate).
    Report(Vec<u8>),
    /// Nothing to do.
    Nothing,
}

/// Decide what to do with an action: disconnecting closes the connection, sending writes
/// the item, and flushing takes the codec's partial line, if there is one, to report it.
pub fn handle_action(codec: &mut Codec, action: Action) -> (step: ActionStep)
    ensures
        match action {
            Action::Disconnect => step is Close && *final(codec) == *old(codec),
            Action::Send(item) => step == ActionStep::Write(item) && *final(codec) == *old(codec),
            Action::Flush => {
                &&& final(codec).spec_state() == old(codec).spec_state()
                &&& if old(codec).spec_line_buffer().len() == 0 {
                    step is Nothing && final(codec).spec_line_buffer() == old(codec).spec_line_buffer()
                } else {
                    step matches ActionStep::Report(line) && line@ == old(codec).spec_line_buffer()
                        && final(codec).spec_line_buffer() == Seq::<u8>::empty()
                }
            },
        },
{
    match action {
        Action::Disconnect => ActionStep::Close,
        Action::Send(item) => ActionStep::Write(item),
        Action::Flush => match codec.partial_line() {
            Some(line) => ActionStep::Report(line),
            None => ActionStep::Nothing,
        },
    }
}

} // verus!
