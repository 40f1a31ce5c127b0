//! Generic MUD Communication Protocol (GMCP) support: negotiation, and the framing of
//! messages as `<package> <json>` telnet subnegotiations.

use vstd::prelude::*;
use vstd::utf8::{decode_utf8, encode_utf8, valid_utf8};

use crate::error::GmcpError;
use crate::event::Event;
use crate::net::telnet::codec::{Item, ItemView, Negotiation};
use crate::net::telnet::option;
use crate::text::{chars_of, owned, push_char, push_str, string_from_chars};

verus! {

/// The name this client announces itself with.
pub const CRATE_NAME: &'static str = "mudpuppy";

/// The JSON text of a string: quoted, with special characters escaped, as
/// `serde_json::to_string` renders a string.
pub uninterp spec fn json_str(s: Seq<char>) -> Seq<char>;

/// `serde_json::to_string` of a string slice: its JSON text, named by `json_str`.
///
/// Serializing a string writes into a byte vector, which cannot fail; an error is left
/// unhandled here since the crate's source shows none can arise.
#[verifier::external_body]
fn json_quoted(s: &str) -> (r: String)
    ensures
        r@ == json_str(s@),
{
    match serde_json::to_string(s) {
        Ok(j) => j,
        Err(_) => String::new(),
    }
}

/// `String::from_utf8`: the text that valid UTF-8 bytes encode, or nothing for invalid ones.
#[verifier::external_body]
fn utf8_text(bytes: &[u8]) -> (r: Option<String>)
    ensures
        match r {
            Some(s) => valid_utf8(bytes@) && s@ == decode_utf8(bytes@),
            None => !valid_utf8(bytes@),
        },
{
    match String::from_utf8(bytes.to_vec()) {
        Ok(s) => Some(s),
        Err(_) => None,
    }
}

/// The JSON text of a one-element array of strings.
pub open spec fn json_array_of_one(item: Seq<char>) -> Seq<char> {
    "["@ + json_str(item) + "]"@
}

/// The JSON text of the hello message: an object naming the client and its version.
pub open spec fn hello_json(client: Seq<char>, version: Seq<char>) -> Seq<char> {
    "{\"client\":"@ + json_str(client) + ",\"version\":"@ + json_str(version) + "}"@
}

/// The payload of the subnegotiation that carries a GMCP message.
pub open spec fn gmcp_payload(module: Seq<char>, json: Seq<char>) -> Seq<u8> {
    encode_utf8(module + " "@ + json)
}

/// The GMCP state of a session.
#[derive(Debug)]
pub struct Gmcp {
    /// Whether the server agreed to GMCP.
    pub ready: bool,
    /// The session the GMCP state belongs to.
    pub session_id: u32,
}

/// A GMCP message received from the server.
#[derive(Debug, Clone, Eq, PartialEq, Hash)]
pub struct Message {
    pub session_id: u32,
    pub package: String,
    pub json: String,
}

/// The index of the first space, if any.
pub open spec fn first_space(s: Seq<char>) -> Option<int> {
    if exists|i: int| 0 <= i < s.len() && s[i] == ' ' {
        Some(choose|i: int| 0 <= i < s.len() && s[i] == ' ' && forall|j: int| 0 <= j < i ==> s[j] != ' ')
    } else {
        None
    }
}

impl Gmcp {
    /// Whether the server agreed to GMCP.
    pub open spec fn is_ready(&self) -> bool {
        self.ready
    }

    /// The session the GMCP state belongs to.
    pub open spec fn spec_session_id(&self) -> u32 {
        self.session_id
    }

    /// GMCP state for a session, not yet negotiated.
    pub fn new(session_id: u32) -> (g: Gmcp)
        ensures
            !g.is_ready(),
            g.spec_session_id() == session_id,
    {
        Gmcp { ready: false, session_id }
    }

    /// Frame a GMCP message with a module name and JSON payload, once GMCP was negotiated.
    pub fn encode_json(&self, module: &str, json: &str) -> (r: Result<Item, GmcpError>)
        ensures
            self.is_ready() ==> (r matches Ok(item) && item@ == ItemView::Subnegotiation(option::GMCP, gmcp_payload(module@, json@))),
            !self.is_ready() ==> r == Err::<Item, GmcpError>(GmcpError::NotReady),
    {
        if !self.ready {
            return Err(GmcpError::NotReady);
        }
        let mut text = owned(module);
        push_char(&mut text, ' ');
        push_str(&mut text, json);
        let data = vstd::slice::slice_to_vec(text.as_str().as_bytes());
        proof {
            assert(text@ =~= module@ + " "@ + json@) by {
                reveal_strlit(" ");
            }
        }
        Ok(Item::Subnegotiation(option::GMCP, data))
    }

    /// Announce support of a GMCP module (`Core.Supports.Add ["<module> 1"]`).
    pub fn register(&self, module: &str) -> (r: Result<Item, GmcpError>)
        ensures
            self.is_ready() ==> (r matches Ok(item) && item@ == ItemView::Subnegotiation(option::GMCP, gmcp_payload(
                "Core.Supports.Add"@,
                json_array_of_one(module@ + " 1"@),
            ))),
            !self.is_ready() ==> r == Err::<Item, GmcpError>(GmcpError::NotReady),
    {
        self.support_message("Core.Supports.Add", module)
    }

    /// Withdraw support of a GMCP module (`Core.Supports.Remove ["<module> 1"]`).
    pub fn unregister(&self, module: &str) -> (r: Result<Item, GmcpError>)
        ensures
            self.is_ready() ==> (r matches Ok(item) && item@ == ItemView::Subnegotiation(option::GMCP, gmcp_payload(
                "Core.Supports.Remove"@,
                json_array_of_one(module@ + " 1"@),
            ))),
            !self.is_ready() ==> r == Err::<Item, GmcpError>(GmcpError::NotReady),
    {
        self.support_message("Core.Supports.Remove", module)
    }

    /// The message `<package> ["<module> 1"]`.
    fn support_message(&self, package: &str, module: &str) -> (r: Result<Item, GmcpError>)
        ensures
            self.is_ready() ==> (r matches Ok(item) && item@ == ItemView::Subnegotiation(option::GMCP, gmcp_payload(package@, json_array_of_one(module@ + " 1"@)))),
            !self.is_ready() ==> r == Err::<Item, GmcpError>(GmcpError::NotReady),
    {
        let mut entry = owned(module);
        push_str(&mut entry, " 1");
        let quoted = json_quoted(entry.as_str());
        let mut json = owned("[");
        push_str(&mut json, quoted.as_str());
        push_str(&mut json, "]");
        self.encode_json(package, json.as_str())
    }

    /// The hello message announcing the client and its version (`Core.Hello`).
    pub fn hello(&self, version: &str) -> (r: Result<Item, GmcpError>)
        ensures
            self.is_ready() ==> (r matches Ok(item) && item@ == ItemView::Subnegotiation(option::GMCP, gmcp_payload("Core.Hello"@, hello_json(CRATE_NAME@, version@)))),
            !self.is_ready() ==> r == Err::<Item, GmcpError>(GmcpError::NotReady),
    {
        let client = json_quoted(CRATE_NAME);
        let ver = json_quoted(version);
        let mut json = owned("{\"client\":");
        push_str(&mut json, client.as_str());
        push_str(&mut json, ",\"version\":");
        push_str(&mut json, ver.as_str());
        push_str(&mut json, "}");
        self.encode_json("Core.Hello", json.as_str())
    }

    /// React to the server's negotiation of an option.
    ///
    /// When the server will do GMCP, GMCP becomes ready and the hello message is answered; when
    /// it won't, GMCP is no longer ready. Either way an event reports the change. Negotiations
    /// of other options change nothing and produce nothing.
    pub fn handle_negotiation(&mut self, neg: Negotiation, version: &str) -> (r: (
        Option<Item>,
        Option<Event>,
    ))
        ensures
            final(self).spec_session_id() == old(self).spec_session_id(),
            neg == Negotiation::Will(option::GMCP) ==> {
                &&& final(self).is_ready()
                &&& r.0 matches Some(item) && item@ == ItemView::Subnegotiation(
                    option::GMCP,
                    gmcp_payload("Core.Hello"@, hello_json(CRATE_NAME@, version@)),
                )
                &&& r.1 == Some(Event::GmcpEnabled { id: old(self).spec_session_id() })
            },
            neg == Negotiation::Wont(option::GMCP) ==> {
                &&& !final(self).is_ready()
                &&& r.0 is None
                &&& r.1 == Some(Event::GmcpDisabled { id: old(self).spec_session_id() })
            },
            neg != Negotiation::Will(option::GMCP) && neg != Negotiation::Wont(option::GMCP) ==> {
                &&& final(self).is_ready() == old(self).is_ready()
                &&& r.0 is None
                &&& r.1 is None
            },
    {
        match neg {
            Negotiation::Will(opt) => {
                if opt != option::GMCP {
                    return (None, None);
                }
                self.ready = true;
                let hello = match self.hello(version) {
                    Ok(item) => Some(item),
                    Err(_) => None,
                };
                (hello, Some(Event::GmcpEnabled { id: self.session_id }))
            },
            Negotiation::Wont(opt) => {
                if opt != option::GMCP {
                    return (None, None);
                }
                self.ready = false;
                (None, Some(Event::GmcpDisabled { id: self.session_id }))
            },
            _ => (None, None),
        }
    }

    /// Decode a GMCP subnegotiation payload: UTF-8 text made of a package name, a space, and
    /// the JSON data (which may itself hold spaces).
    pub fn decode(&self, raw_data: &[u8]) -> (r: Result<Option<Message>, GmcpError>)
        ensures
            !valid_utf8(raw_data@) ==> r == Err::<Option<Message>, GmcpError>(
                GmcpError::InvalidEncoding,
            ),
            valid_utf8(raw_data@) ==> match first_space(decode_utf8(raw_data@)) {
                None => r == Err::<Option<Message>, GmcpError>(GmcpError::Malformed),
                Some(i) => r matches Ok(Some(m)) && m.session_id == self.spec_session_id()
                    && m.package@ == decode_utf8(raw_data@).take(i) && m.json@ == decode_utf8(
                    raw_data@,
                ).skip(i + 1),
            },
    {
        let text = match utf8_text(raw_data) {
            Some(t) => t,
            None => return Err(GmcpError::InvalidEncoding),
        };
        let v = chars_of(text.as_str());
        let mut i: usize = 0;
        while i < v.len()
            invariant
                i <= v@.len(),
                forall|j: int| 0 <= j < i ==> v@[j] != ' ',
            ensures
                i <= v@.len(),
                forall|j: int| 0 <= j < i ==> v@[j] != ' ',
                i < v@.len() ==> v@[i as int] == ' ',
            decreases v@.len() - i,
        {
            if v[i] == ' ' {
                break ;
            }
            i += 1;
        }
        if i == v.len() {
            proof {
                assert(!(exists|k: int| 0 <= k < v@.len() && v@[k] == ' '));
            }
            return Err(GmcpError::Malformed);
        }
        let ghost s = v@;
        proof {
            assert(0 <= i < s.len() && s[i as int] == ' ' && forall|j: int| 0 <= j < i ==> s[j]
                != ' ');
            let k = choose|k: int|
                0 <= k < s.len() && s[k] == ' ' && forall|j: int| 0 <= j < k ==> s[j] != ' ';
            assert(k == i) by {
                if k < i {
                    assert(s[k] != ' ');
                }
                if i < k {
                    assert(s[i as int] != ' ');
                }
            }
        }
        let mut package: Vec<char> = Vec::new();
        let mut j: usize = 0;
        while j < i
            invariant
                j <= i < v@.len(),
                package@ == v@.take(j as int),
            decreases i - j,
        {
            package.push(v[j]);
            j += 1;
            proof {
                assert(package@ =~= v@.take(j as int));
            }
        }
        let mut json: Vec<char> = Vec::new();
        let mut k: usize = i + 1;
        while k < v.len()
            invariant
                i + 1 <= k <= v@.len(),
                json@ == v@.subrange(i + 1, k as int),
            decreases v@.len() - k,
        {
            json.push(v[k]);
            k += 1;
            proof {
                assert(json@ =~= v@.subrange(i + 1, k as int));
            }
        }
        proof {
            assert(v@.subrange(i + 1, v@.len() as int) =~= v@.skip(i + 1));
        }
        Ok(
            Some(
                Message {
                    session_id: self.session_id,
                    package: string_from_chars(package.as_slice()),
                    json: string_from_chars(json.as_slice()),
                },
            ),
        )
    }
}

impl Message {
    /// The event reporting the message.
    pub fn to_event(self) -> (e: Event)
        ensures
            e == (Event::GmcpMessage { id: self.session_id, package: self.package, json: self.json }),
    {
        Event::GmcpMessage { id: self.session_id, package: self.package, json: self.json }
    }

    /// The debug line showing the message: `GMCP: <package> <json>`.
    pub fn debug_line(&self) -> (s: String)
        ensures
            s@ == "GMCP: "@ + self.package@ + " "@ + self.json@,
    {
        let mut s = owned("GMCP: ");
        push_str(&mut s, self.package.as_str());
        push_str(&mut s, " ");
        push_str(&mut s, self.json.as_str());
        s
    }
}

} // verus!
