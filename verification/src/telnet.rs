//! Decision core of the protocol connection actor.
//!
//! The actor that owns the socket alternates between reading from the
//! connection and serving queued requests.  Everything it decides — which
//! events to surface, which socket work to perform, when to change state
//! and when to stop — is computed here over plain values; the surrounding
//! loop does the actual I/O and hands the outcomes back.
//!
//! An I/O failure while reading is fatal to the connection but not to the
//! actor: the state falls back to disconnected, ready for a new connect.

use vstd::prelude::*;

use crate::decimal::dec_digits;
use crate::decimal::u64_to_string;

verus! {

/// The command byte the peer sends as an end-of-prompt marker; it is
/// absorbed silently.
pub const GO_AHEAD: u8 = 249;

/// Requests accepted by the connection actor.
pub enum TelnetRequest {
    /// Open a connection to the given host and port.
    Connect(String, u16),
    /// Write a line (terminated by the caller) to the peer.
    Send(String),
    /// Stop the actor if a connection is open.
    Disconnect,
    /// Stop the actor unconditionally.
    Shutdown,
}

/// Events the connection actor emits toward the router.
pub enum TelnetEvent {
    /// Text received from the peer.
    Data(String),
    /// A protocol-layer event nothing else handles, kept for diagnostics.
    Unhandled(ProtocolEvent),
    Info(String),
    Warning(String),
    Error(String),
}

/// An in-band negotiation verb.
pub enum NegotiationAction {
    Will,
    Wont,
    Do,
    Dont,
}

/// A protocol option under negotiation; only stream compression is acted
/// upon.
pub enum ProtocolOption {
    Compress2,
    Other(u8),
}

/// A protocol-layer event read from the socket, decoded to plain values by
/// the I/O loop.
pub enum ProtocolEvent {
    /// The bounded read timed out with no data; not an error.
    TimedOut,
    /// In-band text, already decoded from UTF-8.
    Data(String),
    /// A lone command byte.
    UnknownIac(u8),
    Negotiation(NegotiationAction, ProtocolOption),
    Subnegotiation(ProtocolOption),
    /// Anything else, described for diagnostics.
    Other(String),
}

/// Socket-level work the caller must perform after a decision step, before
/// sending the accompanying events.
pub enum SocketCommand {
    /// Answer the peer's offer of stream compression affirmatively.
    AcceptCompression,
    /// Switch the read path to decompress the stream from now on.
    EnableDecompression,
}

/// I/O the caller must perform for a request.
pub enum IoAction {
    OpenConnection(String, u16),
    WriteLine(String),
}

/// The informational message announcing a connection attempt.
pub open spec fn connecting_message(address: Seq<char>, port: u16) -> Seq<char> {
    "Connecting to "@ + address + ":"@ + dec_digits(port as nat) + "..."@
}

/// The diagnostic text for a negotiation verb.
pub open spec fn action_text(a: NegotiationAction) -> Seq<char> {
    match a {
        NegotiationAction::Will => "WILL"@,
        NegotiationAction::Wont => "WONT"@,
        NegotiationAction::Do => "DO"@,
        NegotiationAction::Dont => "DONT"@,
    }
}

/// The diagnostic text for a protocol option.
pub open spec fn option_text(o: ProtocolOption) -> Seq<char> {
    match o {
        ProtocolOption::Compress2 => "COMPRESS2"@,
        ProtocolOption::Other(b) => "option "@ + dec_digits(b as nat),
    }
}

/// The diagnostic text for a protocol-layer event.
pub open spec fn event_text(ev: ProtocolEvent) -> Seq<char> {
    match ev {
        ProtocolEvent::TimedOut => "timed out"@,
        ProtocolEvent::Data(s) => "data: "@ + s@,
        ProtocolEvent::UnknownIac(b) => "IAC "@ + dec_digits(b as nat),
        ProtocolEvent::Negotiation(a, o) => "negotiation "@ + action_text(a) + " "@ + option_text(
            o,
        ),
        ProtocolEvent::Subnegotiation(o) => "subnegotiation "@ + option_text(o),
        ProtocolEvent::Other(s) => s@,
    }
}

impl ProtocolEvent {
    /// Renders the event for diagnostic display.
    pub fn describe(&self) -> (r: String)
        ensures
            r@ == event_text(*self),
    {
        match self {
            ProtocolEvent::TimedOut => String::from_str("timed out"),
            ProtocolEvent::Data(s) => {
                let mut r = String::from_str("data: ");
                r.append(s.as_str());
                r
            },
            ProtocolEvent::UnknownIac(b) => {
                let mut r = String::from_str("IAC ");
                let digits = u64_to_string(*b as u64);
                r.append(digits.as_str());
                r
            },
            ProtocolEvent::Negotiation(a, o) => {
                let mut r = String::from_str("negotiation ");
                let verb = match a {
                    NegotiationAction::Will => "WILL",
                    NegotiationAction::Wont => "WONT",
                    NegotiationAction::Do => "DO",
                    NegotiationAction::Dont => "DONT",
                };
                r.append(verb);
                r.append(" ");
                let opt = describe_option(o);
                r.append(opt.as_str());
                proof {
                    assert(r@ =~= event_text(*self));
                }
                r
            },
            ProtocolEvent::Subnegotiation(o) => {
                let mut r = String::from_str("subnegotiation ");
                let opt = describe_option(o);
                r.append(opt.as_str());
                r
            },
            ProtocolEvent::Other(s) => s.clone(),
        }
    }
}

/// Renders a protocol option for diagnostic display.
fn describe_option(o: &ProtocolOption) -> (r: String)
    ensures
        r@ == option_text(*o),
{
    match o {
        ProtocolOption::Compress2 => String::from_str("COMPRESS2"),
        ProtocolOption::Other(b) => {
            let mut r = String::from_str("option ");
            let digits = u64_to_string(*b as u64);
            r.append(digits.as_str());
            r
        },
    }
}

/// The informational text announcing a connection attempt.
fn connecting_text(address: &String, port: u16) -> (r: String)
    ensures
        r@ == connecting_message(address@, port),
{
    let mut r = String::from_str("Connecting to ");
    r.append(address.as_str());
    r.append(":");
    let digits = u64_to_string(port as u64);
    r.append(digits.as_str());
    r.append("...");
    r
}

/// Connection state of the actor: whether a socket is currently open.
pub struct ConnectionState {
    connected: bool,
}

impl ConnectionState {
    /// Whether a socket is currently open.
    pub closed spec fn is_connected(&self) -> bool {
        self.connected
    }

    /// A fresh actor state: disconnected.
    pub fn new() -> (r: ConnectionState)
        ensures
            !r.is_connected(),
    {
        ConnectionState { connected: false }
    }

    /// Whether a socket is currently open.
    pub fn connected(&self) -> (b: bool)
        ensures
            b == self.is_connected(),
    {
        self.connected
    }

    /// Decides a queued request: the events to emit, the I/O to perform and
    /// whether the actor loop must stop.  A send while disconnected is
    /// refused with an error event and no I/O; a disconnect while already
    /// disconnected likewise.  The state itself only changes once the
    /// caller reports the outcome of the decided I/O.
    pub fn handle_request(&self, req: &TelnetRequest) -> (r: (
        Vec<TelnetEvent>,
        Option<IoAction>,
        bool,
    ))
        ensures
            match *req {
                TelnetRequest::Connect(ref a, p) => {
                    &&& r.0@.len() == 1
                    &&& (r.0@[0] matches TelnetEvent::Info(m) && m@ == connecting_message(a@, p))
                    &&& (r.1 matches Some(IoAction::OpenConnection(a2, p2)) && a2@ == a@ && p2 == p)
                    &&& r.2 == false
                },
                TelnetRequest::Send(ref d) => {
                    if self.is_connected() {
                        &&& r.0@.len() == 0
                        &&& (r.1 matches Some(IoAction::WriteLine(d2)) && d2@ == d@)
                        &&& r.2 == false
                    } else {
                        &&& r.0@.len() == 1
                        &&& (r.0@[0] matches TelnetEvent::Error(m) && m@ == "Connection is closed"@)
                        &&& r.1 is None
                        &&& r.2 == false
                    }
                },
                TelnetRequest::Disconnect => {
                    if self.is_connected() {
                        r.0@.len() == 0 && r.1 is None && r.2 == true
                    } else {
                        &&& r.0@.len() == 1
                        &&& (r.0@[0] matches TelnetEvent::Error(m) && m@ == "Connection is closed"@)
                        &&& r.1 is None
                        &&& r.2 == false
                    }
                },
                TelnetRequest::Shutdown => r.0@.len() == 0 && r.1 is None && r.2 == true,
            },
    {
        let mut events: Vec<TelnetEvent> = Vec::new();
        match req {
            TelnetRequest::Connect(address, port) => {
                events.push(TelnetEvent::Info(connecting_text(address, *port)));
                let action = IoAction::OpenConnection(address.clone(), *port);
                (events, Some(action), false)
            },
            TelnetRequest::Send(data) => {
                if self.connected {
                    (events, Some(IoAction::WriteLine(data.clone())), false)
                } else {
                    events.push(TelnetEvent::Error(String::from_str("Connection is closed")));
                    (events, None, false)
                }
            },
            TelnetRequest::Disconnect => {
                if self.connected {
                    (events, None, true)
                } else {
                    events.push(TelnetEvent::Error(String::from_str("Connection is closed")));
                    (events, None, false)
                }
            },
            TelnetRequest::Shutdown => (events, None, true),
        }
    }

    /// Records the outcome of an attempted connect: on success the state
    /// becomes connected and a success notice is emitted; on failure the
    /// state is unchanged and the failure is surfaced as one error event.
    pub fn handle_connect_result(&mut self, ok: bool, error: String) -> (events: Vec<TelnetEvent>)
        ensures
            ok ==> final(self).is_connected() && events@.len() == 1 && (events@[0]
                matches TelnetEvent::Info(m) && m@ == "Connected."@),
            !ok ==> final(self).is_connected() == old(self).is_connected() && events@.len() == 1 && (
            events@[0] matches TelnetEvent::Error(m) && m@ == error@),
    {
        let mut events: Vec<TelnetEvent> = Vec::new();
        if ok {
            self.connected = true;
            events.push(TelnetEvent::Info(String::from_str("Connected.")));
        } else {
            events.push(TelnetEvent::Error(error));
        }
        events
    }

    /// Decides a successfully read protocol-layer event: plain data is
    /// surfaced as a data event; the end-of-prompt marker and negotiations
    /// not acted upon are absorbed; an offer of stream compression is
    /// acknowledged and announced; everything else is surfaced unhandled.
    /// The caller performs the returned socket commands before sending the
    /// events.
    pub fn handle_protocol_event(&self, ev: ProtocolEvent) -> (r: (
        Vec<TelnetEvent>,
        Vec<SocketCommand>,
    ))
        ensures
            match ev {
                ProtocolEvent::TimedOut => r.0@.len() == 0 && r.1@.len() == 0,
                ProtocolEvent::Data(s) => {
                    &&& r.0@.len() == 1
                    &&& (r.0@[0] matches TelnetEvent::Data(d) && d@ == s@)
                    &&& r.1@.len() == 0
                },
                ProtocolEvent::UnknownIac(b) => {
                    if b == GO_AHEAD {
                        r.0@.len() == 0 && r.1@.len() == 0
                    } else {
                        &&& r.0@.len() == 1
                        &&& (r.0@[0] matches TelnetEvent::Unhandled(e) && e
                            == ProtocolEvent::UnknownIac(b))
                        &&& r.1@.len() == 0
                    }
                },
                ProtocolEvent::Negotiation(a, ref o) => {
                    if a is Will && o is Compress2 {
                        &&& r.0@.len() == 1
                        &&& (r.0@[0] matches TelnetEvent::Info(m) && m@
                            == "Server supports MCCP2"@)
                        &&& r.1@.len() == 1
                        &&& r.1@[0] is AcceptCompression
                    } else {
                        r.0@.len() == 0 && r.1@.len() == 0
                    }
                },
                ProtocolEvent::Subnegotiation(ref o) => {
                    if o is Compress2 {
                        &&& r.0@.len() == 1
                        &&& (r.0@[0] matches TelnetEvent::Info(m) && m@ == "MCCP2 enabled"@)
                        &&& r.1@.len() == 1
                        &&& r.1@[0] is EnableDecompression
                    } else {
                        r.0@.len() == 0 && r.1@.len() == 0
                    }
                },
                ProtocolEvent::Other(ref s) => {
                    &&& r.0@.len() == 1
                    &&& (r.0@[0] matches TelnetEvent::Unhandled(e) && (e
                        matches ProtocolEvent::Other(s2) && s2@ == s@))
                    &&& r.1@.len() == 0
                },
            },
    {
        let mut events: Vec<TelnetEvent> = Vec::new();
        let mut commands: Vec<SocketCommand> = Vec::new();
        match ev {
            ProtocolEvent::TimedOut => {},
            ProtocolEvent::Data(s) => {
                events.push(TelnetEvent::Data(s));
            },
            ProtocolEvent::UnknownIac(b) => {
                if b != GO_AHEAD {
                    events.push(TelnetEvent::Unhandled(ProtocolEvent::UnknownIac(b)));
                }
            },
            ProtocolEvent::Negotiation(a, o) => {
                let accept = match (a, o) {
                    (NegotiationAction::Will, ProtocolOption::Compress2) => true,
                    _ => false,
                };
                if accept {
                    events.push(TelnetEvent::Info(String::from_str("Server supports MCCP2")));
                    commands.push(SocketCommand::AcceptCompression);
                }
            },
            ProtocolEvent::Subnegotiation(o) => {
                match o {
                    ProtocolOption::Compress2 => {
                        commands.push(SocketCommand::EnableDecompression);
                        events.push(TelnetEvent::Info(String::from_str("MCCP2 enabled")));
                    },
                    ProtocolOption::Other(_) => {},
                }
            },
            ProtocolEvent::Other(s) => {
                events.push(TelnetEvent::Unhandled(ProtocolEvent::Other(s)));
            },
        }
        (events, commands)
    }

    /// Tears the connection down after a read failure: exactly one error
    /// event carrying the failure, followed by exactly one warning that the
    /// connection is gone; the state falls back to disconnected, ready for
    /// a new connect.
    pub fn handle_recv_failure(&mut self, error: String) -> (events: Vec<TelnetEvent>)
        ensures
            !final(self).is_connected(),
            events@.len() == 2,
            (events@[0] matches TelnetEvent::Error(m) && m@ == error@),
            (events@[1] matches TelnetEvent::Warning(m) && m@ == "Disconnected."@),
    {
        self.connected = false;
        let mut events: Vec<TelnetEvent> = Vec::new();
        events.push(TelnetEvent::Error(error));
        events.push(TelnetEvent::Warning(String::from_str("Disconnected.")));
        events
    }
}

/// Wraps an I/O failure that does not tear the connection down (a failed
/// write) as a single error event.
pub fn io_error_event(error: String) -> (r: TelnetEvent)
    ensures
        (r matches TelnetEvent::Error(m) && m@ == error@),
{
    TelnetEvent::Error(error)
}

} // verus!
