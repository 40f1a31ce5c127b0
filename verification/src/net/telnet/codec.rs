//! A streaming telnet codec.
//!
//! Bytes received from a MUD server are decoded into [`Item`]s: lines of text (terminated by
//! `\r\n`, or `\n\r` for servers that send the two in the other order), negotiation commands,
//! other IAC prefixed commands, and subnegotiations. Items are encoded back to bytes with
//! IAC bytes in data escaped.

use vstd::prelude::*;

use super::command::{DO, DONT, IAC, SB, SE, WILL, WONT};

verus! {

/// A telnet negotiation command.
#[derive(Debug, Clone, Copy, PartialEq, Eq, Structural)]
pub enum Negotiation {
    /// "Indicates the desire to begin performing, or confirmation that you are now performing,
    /// the indicated option."
    Will(u8),
    /// "Indicates the refusal to perform, or continue performing, the indicated option."
    Wont(u8),
    /// "Indicates the request that the other party perform, or confirmation that you are
    /// expecting the other party to perform, the indicated option."
    Do(u8),
    /// "Indicates the demand that the other party stop performing, or confirmation that you are
    /// no longer expecting the other party to perform, the indicated option."
    Dont(u8),
}

impl Negotiation {
    /// The option code a negotiation refers to.
    pub open spec fn spec_option(self) -> u8 {
        match self {
            Negotiation::Will(opt) => opt,
            Negotiation::Wont(opt) => opt,
            Negotiation::Do(opt) => opt,
            Negotiation::Dont(opt) => opt,
        }
    }

    /// The option code of the negotiation.
    pub fn option(&self) -> (opt: u8)
        ensures
            opt == self.spec_option(),
    {
        match self {
            Negotiation::Will(opt) => *opt,
            Negotiation::Wont(opt) => *opt,
            Negotiation::Do(opt) => *opt,
            Negotiation::Dont(opt) => *opt,
        }
    }
}

/// An item of processed telnet data.
#[derive(Debug, Clone, PartialEq, Eq)]
pub enum Item {
    /// A line of text data, without its terminating line ending.
    Line(Vec<u8>),
    /// A telnet negotiation command.
    Negotiation(Negotiation),
    /// A one byte IAC prefixed command that is not a negotiation (e.g. NOP, GA, EOR).
    IacCommand(u8),
    /// A subnegotiation of the given option, with its (unescaped) payload.
    Subnegotiation(u8, Vec<u8>),
}

/// The mathematical model of an [`Item`].
pub enum ItemView {
    Line(Seq<u8>),
    Negotiation(Negotiation),
    IacCommand(u8),
    Subnegotiation(u8, Seq<u8>),
}

impl View for Item {
    type V = ItemView;

    open spec fn view(&self) -> ItemView {
        match self {
            Item::Line(line) => ItemView::Line(line@),
            Item::Negotiation(neg) => ItemView::Negotiation(*neg),
            Item::IacCommand(cmd) => ItemView::IacCommand(*cmd),
            Item::Subnegotiation(opt, data) => ItemView::Subnegotiation(*opt, data@),
        }
    }
}

impl From<Negotiation> for Item {
    fn from(neg: Negotiation) -> (item: Item) {
        Item::Negotiation(neg)
    }
}

impl vstd::std_specs::convert::FromSpecImpl<Negotiation> for Item {
    open spec fn obeys_from_spec() -> bool {
        true
    }

    open spec fn from_spec(v: Negotiation) -> Item {
        Item::Negotiation(v)
    }
}

/// Low level IAC prefixed telnet commands (RFC 854 "TELNET COMMAND STRUCTURE").
#[derive(Debug, Clone, Copy, PartialEq, Eq, Structural)]
pub enum Command {
    Will(u8),
    Wont(u8),
    Do(u8),
    Dont(u8),
    /// "Indicates what follows is subnegotiation of the indicated option."
    SubnegotiationBegin,
    /// "End of subnegotiation parameters."
    SubnegotiationEnd,
    /// Any other IAC prefixed command code, e.g. NOP, EOR, GA.
    Other(u8),
}

impl Command {
    /// Length in bytes of the command, including the leading IAC.
    pub open spec fn spec_len(self) -> nat {
        match self {
            Command::Will(_) | Command::Wont(_) | Command::Do(_) | Command::Dont(_) => 3,
            _ => 2,
        }
    }

    /// Length in bytes of the command, including the leading IAC.
    pub fn len(&self) -> (n: usize)
        ensures
            n == self.spec_len(),
    {
        match self {
            Command::Will(_) | Command::Wont(_) | Command::Do(_) | Command::Dont(_) => 3,
            Command::SubnegotiationBegin | Command::SubnegotiationEnd | Command::Other(_) => 2,
        }
    }
}

/// Result of parsing an IAC prefixed sequence from the front of a buffer.
#[derive(Debug, Clone, Copy, PartialEq, Eq, Structural)]
pub enum ParseIacResult {
    /// The buffer does not hold enough data to parse an IAC prefixed command.
    NeedMore,
    /// The buffer holds an escaped data byte 0xFF (IAC IAC).
    DataByte255,
    /// The buffer holds an IAC prefixed telnet command.
    Command(Command),
}

impl ParseIacResult {
    /// The number of bytes that encode the parsed result.
    pub open spec fn spec_len(self) -> nat {
        match self {
            ParseIacResult::NeedMore => 0,
            ParseIacResult::DataByte255 => 2,
            ParseIacResult::Command(cmd) => cmd.spec_len(),
        }
    }

    /// The number of bytes that encode the parsed result.
    pub fn len(&self) -> (n: usize)
        ensures
            n == self.spec_len(),
    {
        match self {
            ParseIacResult::NeedMore => 0,
            ParseIacResult::DataByte255 => 2,
            ParseIacResult::Command(cmd) => cmd.len(),
        }
    }
}

/// What an IAC prefixed buffer starts with.
pub open spec fn parse_iac(bytes: Seq<u8>) -> ParseIacResult {
    if bytes.len() < 2 {
        ParseIacResult::NeedMore
    } else {
        let cmd = bytes[1];
        let has_option = bytes.len() > 2;
        if cmd == SE {
            ParseIacResult::Command(Command::SubnegotiationEnd)
        } else if cmd == SB {
            ParseIacResult::Command(Command::SubnegotiationBegin)
        } else if WILL <= cmd && cmd <= DONT && !has_option {
            ParseIacResult::NeedMore
        } else if cmd == WILL {
            ParseIacResult::Command(Command::Will(bytes[2]))
        } else if cmd == WONT {
            ParseIacResult::Command(Command::Wont(bytes[2]))
        } else if cmd == DO {
            ParseIacResult::Command(Command::Do(bytes[2]))
        } else if cmd == DONT {
            ParseIacResult::Command(Command::Dont(bytes[2]))
        } else if cmd == IAC {
            ParseIacResult::DataByte255
        } else {
            ParseIacResult::Command(Command::Other(cmd))
        }
    }
}

/// Interpret the front of `bytes` (which starts with an IAC byte) as a telnet IAC sequence.
pub fn try_parse_iac(bytes: &[u8]) -> (res: ParseIacResult)
    ensures
        res == parse_iac(bytes@),
        res.spec_len() <= bytes@.len(),
{
    if bytes.len() < 2 {
        return ParseIacResult::NeedMore;
    }
    let cmd = bytes[1];
    let has_option = bytes.len() > 2;
    if cmd == SE {
        ParseIacResult::Command(Command::SubnegotiationEnd)
    } else if cmd == SB {
        ParseIacResult::Command(Command::SubnegotiationBegin)
    } else if WILL <= cmd && cmd <= DONT && !has_option {
        ParseIacResult::NeedMore
    } else if cmd == WILL {
        ParseIacResult::Command(Command::Will(bytes[2]))
    } else if cmd == WONT {
        ParseIacResult::Command(Command::Wont(bytes[2]))
    } else if cmd == DO {
        ParseIacResult::Command(Command::Do(bytes[2]))
    } else if cmd == DONT {
        ParseIacResult::Command(Command::Dont(bytes[2]))
    } else if cmd == IAC {
        ParseIacResult::DataByte255
    } else {
        ParseIacResult::Command(Command::Other(cmd))
    }
}

/// The item that a command passed through the codec becomes, if any.
pub open spec fn command_item(cmd: Command) -> Option<ItemView> {
    match cmd {
        Command::Will(opt) => Some(ItemView::Negotiation(Negotiation::Will(opt))),
        Command::Wont(opt) => Some(ItemView::Negotiation(Negotiation::Wont(opt))),
        Command::Do(opt) => Some(ItemView::Negotiation(Negotiation::Do(opt))),
        Command::Dont(opt) => Some(ItemView::Negotiation(Negotiation::Dont(opt))),
        Command::Other(c) => Some(ItemView::IacCommand(c)),
        _ => None,
    }
}

/// Errors raised by the codec when the byte stream is not well formed.
#[derive(Debug, Clone, Copy, PartialEq, Eq, Structural)]
pub enum CodecError {
    /// A subnegotiation began while the codec was not buffering a line.
    UnexpectedSubnegotiationBegin,
    /// A subnegotiation ended without a subnegotiation having been started.
    UnexpectedSubnegotiationEnd,
    /// A raw command that can't stand as an item on its own.
    UnexpectedCommand,
}

impl CodecError {
    /// A human readable description of the error.
    pub fn message(&self) -> (s: String)
        ensures
            s@ == match self {
                CodecError::UnexpectedSubnegotiationBegin => "unexpected state: subnegotiation begin"@,
                CodecError::UnexpectedSubnegotiationEnd => "unexpected state: subnegotiation end"@,
                CodecError::UnexpectedCommand => "unexpected raw item"@,
            },
    {
        match self {
            CodecError::UnexpectedSubnegotiationBegin => crate::text::owned(
                "unexpected state: subnegotiation begin",
            ),
            CodecError::UnexpectedSubnegotiationEnd => crate::text::owned(
                "unexpected state: subnegotiation end",
            ),
            CodecError::UnexpectedCommand => crate::text::owned("unexpected raw item"),
        }
    }
}

/// Translate a low level command into an item.
pub fn item_from_command(cmd: Command) -> (res: Result<Item, CodecError>)
    ensures
        match command_item(cmd) {
            Some(item) => res matches Ok(i) && i@ == item,
            None => res == Err::<Item, CodecError>(CodecError::UnexpectedCommand),
        },
{
    match cmd {
        Command::Will(opt) => Ok(Item::Negotiation(Negotiation::Will(opt))),
        Command::Wont(opt) => Ok(Item::Negotiation(Negotiation::Wont(opt))),
        Command::Do(opt) => Ok(Item::Negotiation(Negotiation::Do(opt))),
        Command::Dont(opt) => Ok(Item::Negotiation(Negotiation::Dont(opt))),
        Command::Other(c) => Ok(Item::IacCommand(c)),
        _ => Err(CodecError::UnexpectedCommand),
    }
}

// ---------------------------------------------------------------------------------------------
// Encoding
// ---------------------------------------------------------------------------------------------

/// Data with every IAC byte doubled.
pub open spec fn escape_spec(data: Seq<u8>) -> Seq<u8>
    decreases data.len(),
{
    if data.len() == 0 {
        seq![]
    } else if data.last() == IAC {
        escape_spec(data.drop_last()) + seq![IAC, IAC]
    } else {
        escape_spec(data.drop_last()).push(data.last())
    }
}

/// The bytes an item is encoded as.
pub open spec fn encode_spec(item: ItemView) -> Seq<u8> {
    match item {
        ItemView::Line(line) => escape_spec(line) + seq![13u8, 10u8],
        ItemView::Negotiation(Negotiation::Will(opt)) => seq![IAC, WILL, opt],
        ItemView::Negotiation(Negotiation::Wont(opt)) => seq![IAC, WONT, opt],
        ItemView::Negotiation(Negotiation::Do(opt)) => seq![IAC, DO, opt],
        ItemView::Negotiation(Negotiation::Dont(opt)) => seq![IAC, DONT, opt],
        ItemView::IacCommand(cmd) => seq![IAC, cmd],
        ItemView::Subnegotiation(opt, data) => seq![IAC, SB, opt] + escape_spec(data) + seq![
            IAC,
            SE,
        ],
    }
}

/// Append `data` to `buf` with IAC bytes escaped.
///
/// For example `[255, 1, 6, 2]` is appended as `[255, 255, 1, 6, 2]`.
pub fn escape_iac_into(buf: &mut Vec<u8>, data: &[u8])
    ensures
        final(buf)@ == old(buf)@ + escape_spec(data@),
{
    let mut i: usize = 0;
    while i < data.len()
        invariant
            i <= data@.len(),
            buf@ == old(buf)@ + escape_spec(data@.take(i as int)),
        decreases data@.len() - i,
    {
        let b = data[i];
        proof {
            assert(data@.take(i + 1).drop_last() =~= data@.take(i as int));
        }
        buf.push(b);
        if b == IAC {
            buf.push(IAC);
        }
        i += 1;
        proof {
            assert(buf@ =~= old(buf)@ + escape_spec(data@.take(i as int)));
        }
    }
    proof {
        assert(data@.take(i as int) =~= data@);
    }
}

/// Escape IAC bytes in data that is transmitted as a non-IAC sequence.
pub fn escape_iac(data: &[u8]) -> (res: Vec<u8>)
    ensures
        res@ == escape_spec(data@),
{
    let mut res = Vec::new();
    escape_iac_into(&mut res, data);
    proof {
        assert(res@ =~= escape_spec(data@));
    }
    res
}

fn push_all(buf: &mut Vec<u8>, data: &[u8])
    ensures
        final(buf)@ == old(buf)@ + data@,
{
    let mut i: usize = 0;
    while i < data.len()
        invariant
            i <= data@.len(),
            buf@ == old(buf)@ + data@.take(i as int),
        decreases data@.len() - i,
    {
        buf.push(data[i]);
        i += 1;
        proof {
            assert(buf@ =~= old(buf)@ + data@.take(i as int));
        }
    }
    proof {
        assert(data@.take(i as int) =~= data@);
    }
}

impl Item {
    /// Encode the item onto the end of `buf`.
    pub fn encode(&self, buf: &mut Vec<u8>)
        ensures
            final(buf)@ == old(buf)@ + encode_spec(self@),
    {
        match self {
            Item::Line(line) => {
                escape_iac_into(buf, line.as_slice());
                buf.push(13);
                buf.push(10);
            },
            Item::Negotiation(Negotiation::Will(opt)) => {
                buf.push(IAC);
                buf.push(WILL);
                buf.push(*opt);
            },
            Item::Negotiation(Negotiation::Wont(opt)) => {
                buf.push(IAC);
                buf.push(WONT);
                buf.push(*opt);
            },
            Item::Negotiation(Negotiation::Do(opt)) => {
                buf.push(IAC);
                buf.push(DO);
                buf.push(*opt);
            },
            Item::Negotiation(Negotiation::Dont(opt)) => {
                buf.push(IAC);
                buf.push(DONT);
                buf.push(*opt);
            },
            Item::IacCommand(cmd) => {
                buf.push(IAC);
                buf.push(*cmd);
            },
            Item::Subnegotiation(opt, data) => {
                buf.push(IAC);
                buf.push(SB);
                buf.push(*opt);
                escape_iac_into(buf, data.as_slice());
                buf.push(IAC);
                buf.push(SE);
            },
        }
        proof {
            assert(final(buf)@ =~= old(buf)@ + encode_spec(self@));
        }
    }

    /// The bytes the item is encoded as.
    pub fn to_bytes(&self) -> (res: Vec<u8>)
        ensures
            res@ == encode_spec(self@),
    {
        let mut buf = Vec::new();
        self.encode(&mut buf);
        proof {
            assert(buf@ =~= encode_spec(self@));
        }
        buf
    }
}

// ---------------------------------------------------------------------------------------------
// Decoding
// ---------------------------------------------------------------------------------------------

/// What the codec is buffering.
#[derive(Debug, Clone)]
pub enum State {
    /// Data bytes belong to the current line.
    BufferingLine,
    /// A subnegotiation began; the next data byte is its option code.
    SubnegotiationStart,
    /// Data bytes belong to a subnegotiation of the given option.
    Subnegotiation(u8, Vec<u8>),
}

/// The mathematical model of a [`State`].
pub enum StateView {
    BufferingLine,
    SubnegotiationStart,
    Subnegotiation(u8, Seq<u8>),
}

impl View for State {
    type V = StateView;

    open spec fn view(&self) -> StateView {
        match self {
            State::BufferingLine => StateView::BufferingLine,
            State::SubnegotiationStart => StateView::SubnegotiationStart,
            State::Subnegotiation(opt, buf) => StateView::Subnegotiation(*opt, buf@),
        }
    }
}

/// Where a data byte goes, given the state and the line buffer.
pub open spec fn buffer_data_spec(st: StateView, lb: Seq<u8>, byte: u8) -> (StateView, Seq<u8>) {
    match st {
        StateView::BufferingLine => (st, lb.push(byte)),
        StateView::Subnegotiation(opt, buf) => (StateView::Subnegotiation(opt, buf.push(byte)), lb),
        StateView::SubnegotiationStart => (StateView::Subnegotiation(byte, seq![]), lb),
    }
}

/// A line ending (`\r\n`, or `\n\r`) starts at index `i` of `s`.
pub open spec fn is_eol_at(s: Seq<u8>, i: int) -> bool {
    &&& 0 <= i
    &&& i + 1 < s.len()
    &&& ((s[i] == 13 && s[i + 1] == 10) || (s[i] == 10 && s[i + 1] == 13))
}

/// The first index at or after `i` where a line ending starts, or -1 if there is none.
pub open spec fn first_eol_from(s: Seq<u8>, i: int) -> int
    decreases s.len() - i,
{
    if i < 0 || i + 1 >= s.len() {
        -1
    } else if is_eol_at(s, i) {
        i
    } else {
        first_eol_from(s, i + 1)
    }
}

/// The first index of `s` where a line ending starts, or -1 if there is none.
pub open spec fn first_eol(s: Seq<u8>) -> int {
    first_eol_from(s, 0)
}

/// The result of one call of [`Codec::decode`]: the codec's new state and line buffer, how
/// many bytes of input were consumed, and what was returned.
pub struct DecodeOutcome {
    pub state: StateView,
    pub line_buffer: Seq<u8>,
    pub consumed: nat,
    pub result: Result<Option<ItemView>, CodecError>,
}

/// An outcome with `n` more bytes consumed.
pub open spec fn shift(o: DecodeOutcome, n: nat) -> DecodeOutcome {
    DecodeOutcome { consumed: o.consumed + n, ..o }
}

/// An outcome that stops decoding.
pub open spec fn stop(
    st: StateView,
    lb: Seq<u8>,
    n: nat,
    result: Result<Option<ItemView>, CodecError>,
) -> DecodeOutcome {
    DecodeOutcome { state: st, line_buffer: lb, consumed: n, result }
}

/// Decoding `src` with the codec in state `st` and holding `lb` as a partial line.
///
/// Data bytes are buffered one at a time; after each one a complete line is returned if the
/// line buffer holds a line ending. IAC sequences are parsed as commands: subnegotiation begin
/// and end drive the state, and other commands are returned as items. Decoding stops without an
/// item when the input runs out or ends in an incomplete IAC sequence.
pub open spec fn decode_spec(st: StateView, lb: Seq<u8>, src: Seq<u8>) -> DecodeOutcome
    decreases src.len(),
{
    if src.len() == 0 {
        stop(st, lb, 0, Ok(None))
    } else if src[0] != IAC {
        let (st1, lb1) = buffer_data_spec(st, lb, src[0]);
        let k = first_eol(lb1);
        if k >= 0 {
            stop(st1, lb1.skip(k + 2), 1, Ok(Some(ItemView::Line(lb1.take(k)))))
        } else {
            shift(decode_spec(st1, lb1, src.drop_first()), 1)
        }
    } else {
        match parse_iac(src) {
            ParseIacResult::NeedMore => stop(st, lb, 0, Ok(None)),
            ParseIacResult::DataByte255 => {
                let (st1, lb1) = buffer_data_spec(st, lb, IAC);
                shift(decode_spec(st1, lb1, src.skip(2)), 2)
            },
            ParseIacResult::Command(Command::SubnegotiationBegin) => {
                if st is BufferingLine {
                    shift(decode_spec(StateView::SubnegotiationStart, lb, src.skip(2)), 2)
                } else {
                    stop(st, lb, 2, Err(CodecError::UnexpectedSubnegotiationBegin))
                }
            },
            ParseIacResult::Command(Command::SubnegotiationEnd) => {
                match st {
                    StateView::Subnegotiation(opt, buf) => stop(
                        StateView::BufferingLine,
                        lb,
                        2,
                        Ok(Some(ItemView::Subnegotiation(opt, buf))),
                    ),
                    _ => stop(st, lb, 2, Err(CodecError::UnexpectedSubnegotiationEnd)),
                }
            },
            ParseIacResult::Command(cmd) => match command_item(cmd) {
                Some(item) => stop(st, lb, cmd.spec_len(), Ok(Some(item))),
                None => stop(st, lb, cmd.spec_len(), Err(CodecError::UnexpectedCommand)),
            },
        }
    }
}

/// No line ending starts anywhere in `s`.
pub open spec fn has_no_eol(s: Seq<u8>) -> bool {
    forall|i: int| !#[trigger] is_eol_at(s, i)
}

/// A prompt survives its signal: with the codec buffering a partial line `lb`, decoding data
/// bytes `d` (no IAC among them, and no line ending in `lb` followed by `d`) and then a
/// one-byte IAC command `c` (anything but a negotiation, a subnegotiation marker or an escaped
/// 255) yields exactly the command, leaves the codec buffering lines, consumes all of the
/// input, and keeps `lb` followed by `d` as the partial line, for a later flush to hand out.
pub proof fn lemma_command_keeps_partial_line(lb: Seq<u8>, d: Seq<u8>, c: u8)
    requires
        forall|i: int| 0 <= i < d.len() ==> #[trigger] d[i] != IAC,
        has_no_eol(lb + d),
        c != SE && c != SB && c != IAC && !(WILL <= c && c <= DONT),
    ensures
        decode_spec(StateView::BufferingLine, lb, d + seq![IAC, c]) == (DecodeOutcome {
            state: StateView::BufferingLine,
            line_buffer: lb + d,
            consumed: d.len() + 2,
            result: Ok(Some(ItemView::IacCommand(c))),
        }),
    decreases d.len(),
{
    let src = d + seq![IAC, c];
    if d.len() == 0 {
        assert(src =~= seq![IAC, c]);
        assert(lb + d =~= lb);
    } else {
        let lb1 = lb.push(d[0]);
        assert(src[0] == d[0]);
        assert(first_eol(lb1) < 0) by {
            lemma_first_eol_from(lb1, 0);
            if first_eol(lb1) >= 0 {
                let k = first_eol(lb1);
                assert(is_eol_at(lb1, k));
                assert(lb1[k] == (lb + d)[k] && lb1[k + 1] == (lb + d)[k + 1]);
                assert(is_eol_at(lb + d, k));
            }
        }
        let rest = d.drop_first();
        assert(src.drop_first() =~= rest + seq![IAC, c]);
        assert(lb1 + rest =~= lb + d);
        assert forall|i: int| 0 <= i < rest.len() implies #[trigger] rest[i] != IAC by {
            assert(rest[i] == d[i + 1]);
        }
        lemma_command_keeps_partial_line(lb1, rest, c);
    }
}

/// The model of a decode result.
pub open spec fn result_view(r: Result<Option<Item>, CodecError>) -> Result<
    Option<ItemView>,
    CodecError,
> {
    match r {
        Ok(Some(item)) => Ok(Some(item@)),
        Ok(None) => Ok(None),
        Err(e) => Err(e),
    }
}

/// A streaming telnet decoder/encoder.
#[derive(Debug, Clone)]
pub struct Codec {
    state: State,
    line_buffer: Vec<u8>,
}

impl Codec {
    /// The codec's state.
    pub closed spec fn spec_state(&self) -> StateView {
        self.state@
    }

    /// The partial line the codec is buffering.
    pub closed spec fn spec_line_buffer(&self) -> Seq<u8> {
        self.line_buffer@
    }

    /// A codec that buffers lines and holds no data.
    pub fn new() -> (c: Codec)
        ensures
            c.spec_state() is BufferingLine,
            c.spec_line_buffer() == Seq::<u8>::empty(),
    {
        Codec { state: State::BufferingLine, line_buffer: Vec::new() }
    }

    /// If the decoder is buffering a line, return the partial line, clearing the buffer.
    ///
    /// Returns `None` if there is no partial line content.
    pub fn partial_line(&mut self) -> (res: Option<Vec<u8>>)
        ensures
            final(self).spec_state() == old(self).spec_state(),
            old(self).spec_line_buffer().len() == 0 ==> res is None && final(self).spec_line_buffer() == old(self).spec_line_buffer(),
            old(self).spec_line_buffer().len() > 0 ==> (res matches Some(line) && line@ == old(self).spec_line_buffer() && final(self).spec_line_buffer() == Seq::<u8>::empty()),
    {
        if self.line_buffer.len() == 0 {
            None
        } else {
            let mut line = Vec::new();
            std::mem::swap(&mut line, &mut self.line_buffer);
            Some(line)
        }
    }

    fn buffer_data(&mut self, byte: u8)
        ensures
            (final(self).state@, final(self).line_buffer@) == buffer_data_spec(
                old(self).state@,
                old(self).line_buffer@,
                byte,
            ),
    {
        match &mut self.state {
            State::BufferingLine => {
                self.line_buffer.push(byte);
            },
            State::Subnegotiation(_, buf) => {
                buf.push(byte);
            },
            State::SubnegotiationStart => {
                self.state = State::Subnegotiation(byte, Vec::new());
            },
        }
    }

    fn find_eol(&self) -> (k: Option<usize>)
        ensures
            match k {
                Some(i) => first_eol(self.line_buffer@) == i as int,
                None => first_eol(self.line_buffer@) == -1,
            },
    {
        let n = self.line_buffer.len();
        let mut i: usize = 0;
        while n > 1 && i < n - 1
            invariant
                n == self.line_buffer@.len(),
                i <= n,
                first_eol_from(self.line_buffer@, 0) == first_eol_from(self.line_buffer@, i as int),
            decreases n - i,
        {
            let a = self.line_buffer[i];
            let b = self.line_buffer[i + 1];
            if (a == 13 && b == 10) || (a == 10 && b == 13) {
                return Some(i);
            }
            i += 1;
        }
        None
    }

    fn deframe_line(&mut self) -> (res: Option<Item>)
        ensures
            final(self).state@ == old(self).state@,
            ({
                let k = first_eol(old(self).line_buffer@);
                if k >= 0 {
                    &&& res matches Some(item) && item@ == ItemView::Line(
                        old(self).line_buffer@.take(k),
                    )
                    &&& final(self).line_buffer@ == old(self).line_buffer@.skip(k + 2)
                } else {
                    &&& res is None
                    &&& final(self).line_buffer@ == old(self).line_buffer@
                }
            }),
    {
        match self.find_eol() {
            None => None,
            Some(k) => {
                let ghost lb = self.line_buffer@;
                proof {
                    lemma_first_eol_from(lb, 0);
                }
                let mut line = Vec::new();
                let mut rest = Vec::new();
                let n = self.line_buffer.len();
                let mut i: usize = 0;
                while i < n
                    invariant
                        n == lb.len(),
                        self.line_buffer@ == lb,
                        k + 1 < n,
                        i <= n,
                        i <= k ==> line@ == lb.take(i as int) && rest@ == Seq::<u8>::empty(),
                        i > k ==> line@ == lb.take(k as int),
                        k + 2 <= i ==> rest@ == lb.subrange(k + 2, i as int),
                        k < i < k + 2 ==> rest@ == Seq::<u8>::empty(),
                    decreases n - i,
                {
                    let b = self.line_buffer[i];
                    if i < k {
                        line.push(b);
                        proof {
                            assert(line@ =~= lb.take(i + 1));
                        }
                    } else if i >= k + 2 {
                        rest.push(b);
                        proof {
                            assert(rest@ =~= lb.subrange(k + 2, i + 1));
                        }
                    }
                    i += 1;
                }
                proof {
                    assert(rest@ =~= lb.skip(k + 2));
                }
                self.line_buffer = rest;
                Some(Item::Line(line))
            },
        }
    }

    fn begin_subnegotiation(&mut self) -> (res: Result<(), CodecError>)
        ensures
            final(self).line_buffer@ == old(self).line_buffer@,
            old(self).state@ is BufferingLine ==> res is Ok && final(self).state@ is SubnegotiationStart,
            !(old(self).state@ is BufferingLine) ==> res == Err::<(), CodecError>(
                CodecError::UnexpectedSubnegotiationBegin,
            ) && final(self).state@ == old(self).state@,
    {
        match self.state {
            State::BufferingLine => {
                self.state = State::SubnegotiationStart;
                Ok(())
            },
            _ => Err(CodecError::UnexpectedSubnegotiationBegin),
        }
    }

    fn end_subnegotiation(&mut self) -> (res: Result<Item, CodecError>)
        ensures
            final(self).line_buffer@ == old(self).line_buffer@,
            match old(self).state@ {
                StateView::Subnegotiation(opt, buf) => {
                    &&& res matches Ok(item) && item@ == ItemView::Subnegotiation(opt, buf)
                    &&& final(self).state@ is BufferingLine
                },
                _ => res matches Err(e) && e == CodecError::UnexpectedSubnegotiationEnd
                    && final(self).state@ == old(self).state@,
            },
    {
        let mut st = State::BufferingLine;
        std::mem::swap(&mut st, &mut self.state);
        match st {
            State::Subnegotiation(opt, buf) => Ok(Item::Subnegotiation(opt, buf)),
            other => {
                self.state = other;
                Err(CodecError::UnexpectedSubnegotiationEnd)
            },
        }
    }

    /// Decode from `src` starting at `start`, returning the total number of bytes consumed
    /// (counted from the front of `src`) and the decode result.
    fn decode_from(&mut self, src: &Vec<u8>, start: usize) -> (res: (usize, Result<
        Option<Item>,
        CodecError,
    >))
        requires
            start <= src@.len(),
        ensures
            ({
                let o = decode_spec(old(self).state@, old(self).line_buffer@, src@.skip(start as int));
                &&& final(self).state@ == o.state
                &&& final(self).line_buffer@ == o.line_buffer
                &&& res.0 == start + o.consumed
                &&& result_view(res.1) == o.result
            }),
    {
        let ghost st0 = self.state@;
        let ghost lb0 = self.line_buffer@;
        let ghost s0 = src@.skip(start as int);
        let mut pos = start;
        loop
            invariant
                start <= pos <= src@.len(),
                st0 == old(self).state@,
                lb0 == old(self).line_buffer@,
                s0 == src@.skip(start as int),
                decode_spec(st0, lb0, s0) == shift(
                    decode_spec(self.state@, self.line_buffer@, src@.skip(pos as int)),
                    (pos - start) as nat,
                ),
            decreases src@.len() - pos,
        {
            let ghost rest = src@.skip(pos as int);
            if pos == src.len() {
                proof {
                    assert(rest.len() == 0);
                }
                return (pos, Ok(None));
            }
            let byte = src[pos];
            if byte != IAC {
                proof {
                    assert(rest[0] == byte);
                    assert(rest.drop_first() =~= src@.skip(pos + 1));
                }
                self.buffer_data(byte);
                match self.deframe_line() {
                    Some(line) => {
                        return (pos + 1, Ok(Some(line)));
                    },
                    None => {},
                }
                pos += 1;
            } else {
                let res = try_parse_iac(&src.as_slice()[pos..src.len()]);
                proof {
                    assert(src@.subrange(pos as int, src@.len() as int) =~= rest);
                }
                let n = res.len();
                match res {
                    ParseIacResult::NeedMore => {
                        return (pos, Ok(None));
                    },
                    ParseIacResult::DataByte255 => {
                        proof {
                            assert(rest.skip(2) =~= src@.skip(pos + 2));
                        }
                        self.buffer_data(IAC);
                        pos += 2;
                    },
                    ParseIacResult::Command(Command::SubnegotiationBegin) => {
                        match self.begin_subnegotiation() {
                            Ok(()) => {
                                proof {
                                    assert(rest.skip(2) =~= src@.skip(pos + 2));
                                }
                                pos += 2;
                            },
                            Err(e) => {
                                return (pos + 2, Err(e));
                            },
                        }
                    },
                    ParseIacResult::Command(Command::SubnegotiationEnd) => {
                        let r = self.end_subnegotiation();
                        return match r {
                            Ok(item) => (pos + 2, Ok(Some(item))),
                            Err(e) => (pos + 2, Err(e)),
                        };
                    },
                    ParseIacResult::Command(cmd) => {
                        let r = item_from_command(cmd);
                        return match r {
                            Ok(item) => (pos + n, Ok(Some(item))),
                            Err(e) => (pos + n, Err(e)),
                        };
                    },
                }
            }
        }
    }

    /// Decode the next item from `src`, removing the bytes that were consumed from its front.
    ///
    /// Returns `Ok(None)` when more data is needed to produce an item.
    pub fn decode(&mut self, src: &mut Vec<u8>) -> (res: Result<Option<Item>, CodecError>)
        ensures
            ({
                let o = decode_spec(
                    old(self).spec_state(),
                    old(self).spec_line_buffer(),
                    old(src)@,
                );
                &&& final(self).spec_state() == o.state
                &&& final(self).spec_line_buffer() == o.line_buffer
                &&& o.consumed <= old(src)@.len()
                &&& final(src)@ == old(src)@.skip(o.consumed as int)
                &&& result_view(res) == o.result
            }),
    {
        proof {
            assert(src@.skip(0) =~= src@);
        }
        let (consumed, res) = self.decode_from(src, 0);
        let ghost o = decode_spec(old(self).state@, old(self).line_buffer@, old(src)@);
        proof {
            lemma_decode_consumed_bound(old(self).state@, old(self).line_buffer@, old(src)@);
        }
        let mut rest = Vec::new();
        let n = src.len();
        let mut i = consumed;
        while i < n
            invariant
                n == src@.len(),
                consumed <= i <= n,
                rest@ == src@.subrange(consumed as int, i as int),
            decreases n - i,
        {
            rest.push(src[i]);
            i += 1;
            proof {
                assert(rest@ =~= src@.subrange(consumed as int, i as int));
            }
        }
        proof {
            assert(rest@ =~= src@.skip(consumed as int));
        }
        *src = rest;
        res
    }

    /// Encode `item` onto the end of `dst`.
    pub fn encode(&mut self, item: Item, dst: &mut Vec<u8>)
        ensures
            final(dst)@ == old(dst)@ + encode_spec(item@),
            *final(self) == *old(self),
    {
        item.encode(dst);
    }
}

/// The line ending search finds a line ending, and none earlier.
pub proof fn lemma_first_eol_from(s: Seq<u8>, i: int)
    requires
        0 <= i,
    ensures
        first_eol_from(s, i) >= 0 ==> is_eol_at(s, first_eol_from(s, i)) && i <= first_eol_from(
            s,
            i,
        ),
        forall|j: int|
            i <= j && (first_eol_from(s, i) < 0 || j < first_eol_from(s, i)) ==> !is_eol_at(s, j),
    decreases s.len() - i,
{
    if i + 1 >= s.len() {
    } else if is_eol_at(s, i) {
    } else {
        lemma_first_eol_from(s, i + 1);
    }
}

/// Decoding never consumes more bytes than it was given.
pub proof fn lemma_decode_consumed_bound(st: StateView, lb: Seq<u8>, src: Seq<u8>)
    ensures
        decode_spec(st, lb, src).consumed <= src.len(),
    decreases src.len(),
{
    if src.len() == 0 {
    } else if src[0] != IAC {
        let (st1, lb1) = buffer_data_spec(st, lb, src[0]);
        lemma_decode_consumed_bound(st1, lb1, src.drop_first());
    } else {
        match parse_iac(src) {
            ParseIacResult::DataByte255 => {
                let (st1, lb1) = buffer_data_spec(st, lb, IAC);
                lemma_decode_consumed_bound(st1, lb1, src.skip(2));
            },
            ParseIacResult::Command(Command::SubnegotiationBegin) => {
                lemma_decode_consumed_bound(StateView::SubnegotiationStart, lb, src.skip(2));
            },
            _ => {},
        }
    }
}


// ---------------------------------------------------------------------------------------------
// Laws
// ---------------------------------------------------------------------------------------------

/// No byte of `s` is a carriage return or a line feed.
pub open spec fn no_cr_lf(s: Seq<u8>) -> bool {
    forall|i: int| 0 <= i < s.len() ==> s[i] != 13 && s[i] != 10
}

/// The items that survive an encode/decode round trip: lines without CR or LF bytes,
/// subnegotiations whose option code is not IAC, and IAC commands that the decoder does not
/// treat as structure (subnegotiation markers, negotiation verbs, or an escaped IAC).
pub open spec fn round_trips(item: ItemView) -> bool {
    match item {
        ItemView::Line(line) => no_cr_lf(line),
        ItemView::Negotiation(_) => true,
        ItemView::IacCommand(cmd) => cmd != SE && cmd != SB && !(WILL <= cmd && cmd <= DONT)
            && cmd != IAC,
        ItemView::Subnegotiation(opt, _) => opt != IAC,
    }
}

/// Escaping distributes over concatenation.
pub proof fn lemma_escape_append(a: Seq<u8>, b: Seq<u8>)
    ensures
        escape_spec(a + b) == escape_spec(a) + escape_spec(b),
    decreases b.len(),
{
    if b.len() == 0 {
        assert(a + b =~= a);
        assert(escape_spec(a) + escape_spec(b) =~= escape_spec(a));
    } else {
        lemma_escape_append(a, b.drop_last());
        assert((a + b).drop_last() =~= a + b.drop_last());
        assert((a + b).last() == b.last());
        if b.last() == IAC {
            assert(escape_spec(a + b) =~= escape_spec(a) + escape_spec(b));
        } else {
            assert(escape_spec(a + b) =~= escape_spec(a) + escape_spec(b));
        }
    }
}

/// Escaping a sequence that starts with `b`.
pub proof fn lemma_escape_front(s: Seq<u8>)
    requires
        s.len() > 0,
    ensures
        s[0] == IAC ==> escape_spec(s) == seq![IAC, IAC] + escape_spec(s.drop_first()),
        s[0] != IAC ==> escape_spec(s) == seq![s[0]] + escape_spec(s.drop_first()),
{
    assert(s =~= seq![s[0]] + s.drop_first());
    lemma_escape_append(seq![s[0]], s.drop_first());
    let one = seq![s[0]];
    assert(one.drop_last() =~= Seq::<u8>::empty());
    assert(escape_spec(Seq::<u8>::empty()) =~= Seq::<u8>::empty());
    if s[0] == IAC {
        assert(escape_spec(one) =~= seq![IAC, IAC]);
    } else {
        assert(escape_spec(one) =~= seq![s[0]]);
    }
}

/// A buffer whose bytes before the last are neither CR nor LF holds no line ending.
pub proof fn lemma_no_eol(s: Seq<u8>, i: int)
    requires
        0 <= i,
        forall|j: int| 0 <= j < s.len() - 1 ==> s[j] != 13 && s[j] != 10,
    ensures
        first_eol_from(s, i) == -1,
    decreases s.len() - i,
{
    if i + 1 >= s.len() {
    } else {
        lemma_no_eol(s, i + 1);
    }
}

/// A clean buffer followed by CR LF has its first line ending right after the clean part.
pub proof fn lemma_eol_after_clean(lb: Seq<u8>, i: int)
    requires
        0 <= i <= lb.len(),
        no_cr_lf(lb),
    ensures
        first_eol_from(lb + seq![13u8, 10u8], i) == lb.len(),
    decreases lb.len() - i,
{
    let s = lb + seq![13u8, 10u8];
    if i == lb.len() {
        assert(is_eol_at(s, i));
    } else {
        assert(!is_eol_at(s, i));
        lemma_eol_after_clean(lb, i + 1);
    }
}

proof fn lemma_line_step(lb: Seq<u8>, rest: Seq<u8>, tail: Seq<u8>)
    requires
        no_cr_lf(lb),
        no_cr_lf(rest),
    ensures
        decode_spec(StateView::BufferingLine, lb, escape_spec(rest) + seq![13u8, 10u8] + tail)
            == stop(
            StateView::BufferingLine,
            Seq::<u8>::empty(),
            escape_spec(rest).len() + 2,
            Ok(Some(ItemView::Line(lb + rest))),
        ),
    decreases rest.len(),
{
    let src = escape_spec(rest) + seq![13u8, 10u8] + tail;
    if rest.len() == 0 {
        assert(escape_spec(rest) =~= Seq::<u8>::empty());
        assert(src[0] == 13);
        let lb1 = lb.push(13);
        lemma_no_eol(lb1, 0);
        assert(src.drop_first()[0] == 10);
        let lb2 = lb1.push(10);
        assert(lb2 =~= lb + seq![13u8, 10u8]);
        lemma_eol_after_clean(lb, 0);
        assert(lb2.take(lb.len() as int) =~= lb);
        assert(lb2.skip(lb.len() as int + 2) =~= Seq::<u8>::empty());
        assert(lb + rest =~= lb);
        assert(decode_spec(StateView::BufferingLine, lb1, src.drop_first()) == stop(
            StateView::BufferingLine,
            Seq::<u8>::empty(),
            1,
            Ok(Some(ItemView::Line(lb))),
        ));
    } else {
        lemma_escape_front(rest);
        let b = rest[0];
        let lb1 = lb.push(b);
        let rest1 = rest.drop_first();
        assert(no_cr_lf(lb1));
        assert(no_cr_lf(rest1));
        lemma_line_step(lb1, rest1, tail);
        assert(lb1 + rest1 =~= lb + rest);
        lemma_no_eol(lb1, 0);
        if b == IAC {
            assert(src =~= seq![IAC, IAC] + (escape_spec(rest1) + seq![13u8, 10u8] + tail));
            assert(src.skip(2) =~= escape_spec(rest1) + seq![13u8, 10u8] + tail);
            assert(parse_iac(src) == ParseIacResult::DataByte255);
        } else {
            assert(src =~= seq![b] + (escape_spec(rest1) + seq![13u8, 10u8] + tail));
            assert(src.drop_first() =~= escape_spec(rest1) + seq![13u8, 10u8] + tail);
        }
    }
}

proof fn lemma_subnegotiation_step(opt: u8, acc: Seq<u8>, lb: Seq<u8>, rest: Seq<u8>, tail: Seq<u8>)
    requires
        first_eol(lb) == -1,
    ensures
        decode_spec(
            StateView::Subnegotiation(opt, acc),
            lb,
            escape_spec(rest) + seq![IAC, SE] + tail,
        ) == stop(
            StateView::BufferingLine,
            lb,
            escape_spec(rest).len() + 2,
            Ok(Some(ItemView::Subnegotiation(opt, acc + rest))),
        ),
    decreases rest.len(),
{
    let src = escape_spec(rest) + seq![IAC, SE] + tail;
    if rest.len() == 0 {
        assert(escape_spec(rest) =~= Seq::<u8>::empty());
        assert(acc + rest =~= acc);
        assert(parse_iac(src) == ParseIacResult::Command(Command::SubnegotiationEnd));
    } else {
        lemma_escape_front(rest);
        let b = rest[0];
        let rest1 = rest.drop_first();
        lemma_subnegotiation_step(opt, acc.push(b), lb, rest1, tail);
        assert(acc.push(b) + rest1 =~= acc + rest);
        if b == IAC {
            assert(src =~= seq![IAC, IAC] + (escape_spec(rest1) + seq![IAC, SE] + tail));
            assert(src.skip(2) =~= escape_spec(rest1) + seq![IAC, SE] + tail);
            assert(parse_iac(src) == ParseIacResult::DataByte255);
        } else {
            assert(src =~= seq![b] + (escape_spec(rest1) + seq![IAC, SE] + tail));
            assert(src.drop_first() =~= escape_spec(rest1) + seq![IAC, SE] + tail);
        }
    }
}

/// Decoding what an item encodes to gives the item back: a codec that is buffering an empty
/// line decodes exactly the item's bytes, returns the item, and is left buffering an empty
/// line, whatever bytes follow.
pub proof fn lemma_decode_encode_roundtrip(item: ItemView, tail: Seq<u8>)
    requires
        round_trips(item),
    ensures
        decode_spec(StateView::BufferingLine, Seq::<u8>::empty(), encode_spec(item) + tail)
            == stop(
            StateView::BufferingLine,
            Seq::<u8>::empty(),
            encode_spec(item).len(),
            Ok(Some(item)),
        ),
{
    let src = encode_spec(item) + tail;
    match item {
        ItemView::Line(line) => {
            assert(no_cr_lf(Seq::<u8>::empty()));
            lemma_line_step(Seq::<u8>::empty(), line, tail);
            assert(src =~= escape_spec(line) + seq![13u8, 10u8] + tail);
            assert(Seq::<u8>::empty() + line =~= line);
            assert(encode_spec(item).len() == escape_spec(line).len() + 2);
            assert(decode_spec(StateView::BufferingLine, Seq::<u8>::empty(), src) == stop(
                StateView::BufferingLine,
                Seq::<u8>::empty(),
                escape_spec(line).len() + 2,
                Ok(Some(ItemView::Line(line))),
            ));
        },
        ItemView::Negotiation(neg) => {
            let e = encode_spec(item);
            assert(src.len() >= 3);
            assert(src[0] == IAC && src[1] == e[1] && src[2] == neg.spec_option());
            assert(src.len() > 2);
        },
        ItemView::IacCommand(cmd) => {
            assert(src[0] == IAC);
            assert(src[1] == cmd);
            assert(src.len() >= 2);
        },
        ItemView::Subnegotiation(opt, data) => {
            let lb = Seq::<u8>::empty();
            lemma_no_eol(lb, 0);
            assert(parse_iac(src) == ParseIacResult::Command(Command::SubnegotiationBegin));
            let src2 = src.skip(2);
            assert(src2 =~= seq![opt] + (escape_spec(data) + seq![IAC, SE] + tail));
            assert(src2.drop_first() =~= escape_spec(data) + seq![IAC, SE] + tail);
            lemma_subnegotiation_step(opt, Seq::<u8>::empty(), lb, data, tail);
            assert(Seq::<u8>::empty() + data =~= data);
            assert(src2[0] == opt);
            assert(buffer_data_spec(StateView::SubnegotiationStart, lb, opt) == (
                StateView::Subnegotiation(opt, Seq::<u8>::empty()),
                lb,
            ));
            assert(decode_spec(StateView::SubnegotiationStart, lb, src2) == shift(
                decode_spec(
                    StateView::Subnegotiation(opt, Seq::<u8>::empty()),
                    lb,
                    src2.drop_first(),
                ),
                1,
            ));
            assert(encode_spec(item).len() == escape_spec(data).len() + 5);
        },
    }
}

} // verus!
