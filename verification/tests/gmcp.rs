//! Tests of GMCP framing, negotiation and decoding, and of the client's reactions to telnet
//! negotiation.

use mudpuppy::client::{process_iac, process_negotiation, process_subnegotiation, ClientError};
use mudpuppy::error::GmcpError;
use mudpuppy::event::Event;
use mudpuppy::gmcp::Gmcp;
use mudpuppy::input::EchoState;
use mudpuppy::model::{PromptMode, PromptSignal};
use mudpuppy::net::telnet::codec::{Item, Negotiation};
use mudpuppy::net::telnet::option;

#[test]
fn gmcp_not_ready() {
    let gmcp = Gmcp::new(1);
    assert_eq!(gmcp.encode_json("Core.Ping", "{}"), Err(GmcpError::NotReady));
    assert_eq!(gmcp.register("Char"), Err(GmcpError::NotReady));
}

#[test]
fn gmcp_negotiation_and_register() {
    let mut gmcp = Gmcp::new(4);
    let (hello, event) = gmcp.handle_negotiation(Negotiation::Will(option::GMCP), "v1");
    assert!(gmcp.ready);
    assert_eq!(event, Some(Event::GmcpEnabled { id: 4 }));
    assert_eq!(
        hello,
        Some(Item::Subnegotiation(
            option::GMCP,
            b"Core.Hello {\"client\":\"mudpuppy\",\"version\":\"v1\"}".to_vec()
        ))
    );
    assert_eq!(
        gmcp.register("Char.Vitals"),
        Ok(Item::Subnegotiation(
            option::GMCP,
            b"Core.Supports.Add [\"Char.Vitals 1\"]".to_vec()
        ))
    );
    assert_eq!(
        gmcp.unregister("Room"),
        Ok(Item::Subnegotiation(
            option::GMCP,
            b"Core.Supports.Remove [\"Room 1\"]".to_vec()
        ))
    );
    let (item, event) = gmcp.handle_negotiation(Negotiation::Do(option::ECHO), "v1");
    assert_eq!((item, event), (None, None));
    let (item, event) = gmcp.handle_negotiation(Negotiation::Wont(option::GMCP), "v1");
    assert_eq!(item, None);
    assert_eq!(event, Some(Event::GmcpDisabled { id: 4 }));
    assert!(!gmcp.ready);
}

#[test]
fn gmcp_decode() {
    let gmcp = Gmcp::new(2);
    let msg = gmcp.decode(b"Char.Vitals {\"hp\": 10}").unwrap().unwrap();
    assert_eq!(msg.session_id, 2);
    assert_eq!(msg.package, "Char.Vitals");
    assert_eq!(msg.json, "{\"hp\": 10}");
    assert_eq!(msg.debug_line(), "GMCP: Char.Vitals {\"hp\": 10}");
    assert_eq!(gmcp.decode(b"NoSpace"), Err(GmcpError::Malformed));
    assert_eq!(gmcp.decode(&[0xff, 0x20]), Err(GmcpError::InvalidEncoding));
}

#[test]
fn client_negotiation_effects() {
    let mut gmcp = Gmcp::new(9);
    let out = process_negotiation(
        &mut gmcp,
        9,
        true,
        Negotiation::Will(option::ECHO),
        Some(Negotiation::Do(option::ECHO)),
        "v",
    );
    assert_eq!(out.reply, Some(Negotiation::Do(option::ECHO)));
    assert_eq!(out.echo, Some(EchoState::Password));
    assert_eq!(
        out.option_event,
        Some(Event::OptionEnabled {
            id: 9,
            option: option::ECHO
        })
    );
    assert_eq!(out.error, None);

    let out = process_negotiation(
        &mut gmcp,
        9,
        true,
        Negotiation::Wont(option::EOR),
        Some(Negotiation::Dont(option::EOR)),
        "v",
    );
    assert_eq!(out.prompt_mode, Some(PromptMode::Unsignalled { timeout_ms: 200 }));

    let out = process_negotiation(
        &mut gmcp,
        9,
        false,
        Negotiation::Will(option::GMCP),
        None,
        "v",
    );
    assert_eq!(out.error, Some(ClientError::NotConnected));
    assert!(out.gmcp_event.is_none());
    assert!(gmcp.ready);
}

#[test]
fn client_iac_and_subnegotiation() {
    let mode = PromptMode::Signalled {
        signal: PromptSignal::EndOfRecord,
    };
    let out = process_iac(&mode, true, 1, 239);
    assert!(out.flush);
    assert_eq!(out.event, Event::Iac { id: 1, command: 239 });
    assert!(!process_iac(&mode, false, 1, 239).flush);
    assert!(!process_iac(&PromptMode::default(), true, 1, 239).flush);

    let gmcp = Gmcp::new(1);
    let out = process_subnegotiation(&gmcp, true, 1, option::GMCP, b"Room.Info {}").unwrap();
    assert_eq!(out.debug_line, Some("GMCP: Room.Info {}".to_string()));
    assert_eq!(
        out.gmcp_event,
        Some(Event::GmcpMessage {
            id: 1,
            package: "Room.Info".to_string(),
            json: "{}".to_string()
        })
    );
    let out = process_subnegotiation(&gmcp, true, 1, 24, b"xy").unwrap();
    assert_eq!(
        out.event,
        Event::Subnegotiation {
            id: 1,
            option: 24,
            data: b"xy".to_vec()
        }
    );
}
