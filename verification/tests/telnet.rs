//! Tests of the telnet codec.

use mudpuppy::net::connection::{handle_action, Action, ActionStep};
use mudpuppy::net::telnet::codec::{Codec, CodecError, Item, Negotiation};
use mudpuppy::net::telnet::{command, option};

#[test]
fn codec_decodes_lines_and_commands() {
    let mut codec = Codec::new();
    let mut src = b"hello\r\nworld\n\r".to_vec();
    src.extend_from_slice(&[command::IAC, command::WILL, option::GMCP]);
    assert_eq!(codec.decode(&mut src).unwrap(), Some(Item::Line(b"hello".to_vec())));
    assert_eq!(codec.decode(&mut src).unwrap(), Some(Item::Line(b"world".to_vec())));
    assert_eq!(
        codec.decode(&mut src).unwrap(),
        Some(Item::Negotiation(Negotiation::Will(option::GMCP)))
    );
    assert_eq!(codec.decode(&mut src).unwrap(), None);
}

#[test]
fn codec_round_trip() {
    let mut codec = Codec::new();
    let mut buf = Vec::new();
    codec.encode(Item::Subnegotiation(option::GMCP, vec![1, command::IAC, 2]), &mut buf);
    let mut decoder = Codec::new();
    assert_eq!(
        decoder.decode(&mut buf).unwrap(),
        Some(Item::Subnegotiation(option::GMCP, vec![1, command::IAC, 2]))
    );
}

#[test]
fn codec_partial_line() {
    let mut codec = Codec::new();
    let mut src = b"Name: ".to_vec();
    assert_eq!(codec.decode(&mut src).unwrap(), None);
    assert_eq!(codec.partial_line(), Some(b"Name: ".to_vec()));
    assert_eq!(codec.partial_line(), None);
}

#[test]
fn connection_actions() {
    let mut codec = Codec::new();
    let mut src = b"Login: ".to_vec();
    assert_eq!(codec.decode(&mut src).unwrap(), None);
    match handle_action(&mut codec, Action::Flush) {
        ActionStep::Report(line) => assert_eq!(line, b"Login: ".to_vec()),
        other => panic!("unexpected {other:?}"),
    }
    assert!(matches!(handle_action(&mut codec, Action::Flush), ActionStep::Nothing));
    assert!(matches!(handle_action(&mut codec, Action::Disconnect), ActionStep::Close));
    match handle_action(&mut codec, Action::Send(Item::Line(b"look".to_vec()))) {
        ActionStep::Write(item) => assert_eq!(item, Item::Line(b"look".to_vec())),
        other => panic!("unexpected {other:?}"),
    }
}

#[test]
fn codec_error_messages() {
    assert_eq!(
        CodecError::UnexpectedSubnegotiationBegin.message(),
        "unexpected state: subnegotiation begin"
    );
    assert_eq!(
        CodecError::UnexpectedSubnegotiationEnd.message(),
        "unexpected state: subnegotiation end"
    );
    assert_eq!(CodecError::UnexpectedCommand.message(), "unexpected raw item");
}
