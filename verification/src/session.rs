//! One client's session, from its first byte to its end.
//!
//! A session alternates with its driver: the session says what to do next, as an
//! [`Action`], and the driver does it and reports back what happened, as an
//! [`Event`]. The bytes in an event are borrowed and those in an action are owned,
//! so both types leave the type of a byte string (`B`) and of a text (`S`) open; in
//! specifications these are sequences.
use crate::addr::{IpAddr, SocketAddr};
use crate::associate::{self, AssociateStage};
use crate::auth::Creds;
use crate::bind::{self, BindStage};
use crate::connect::{self, ConnectStage};
use crate::error::{plain_error, Error, ErrorKind};
use crate::handshake::{self, Stage};
use crate::net::Net;
use vstd::pervasive::{arbitrary, unreached};
use vstd::prelude::*;
use vstd::utf8::{decode_utf8, valid_utf8};

verus! {

/// The datagram sockets of a session.
#[derive(Clone, Copy, Debug, PartialEq, Eq, Structural)]
pub enum UdpRole {
    /// The socket that the client sends to.
    Relay,
    /// The socket for IPv4 destinations.
    Out4,
    /// The socket for IPv6 destinations.
    Out6,
}

/// What the driver does next. Connections, listeners and datagram sockets are those
/// of the session's network.
#[derive(Debug)]
pub enum Action<B, S> {
    /// Read exactly this many bytes from the client.
    Read(usize),
    /// Write all of these bytes to the client.
    Write(B),
    /// Look up the addresses of a host.
    Lookup { host: S, port: u16 },
    /// Find out the local address of the client's connection.
    LocalAddr,
    /// Open a connection to this address and find out its local address.
    Connect(SocketAddr),
    /// Listen on this address and find out the listener's local address.
    Listen(SocketAddr),
    /// Accept a connection on the listener. One accepted earlier is dropped.
    Accept,
    /// Switch off delays on both connections, then copy between them in both
    /// directions until both are done. The buffers have this many bytes, or a
    /// size of the driver's choice.
    Relay { buffer: Option<usize> },
    /// Find out the tailnet device's own IPv4 or IPv6 address.
    DeviceIp { v6: bool },
    /// Bind a datagram socket to this address and, for the relay socket, find out
    /// its local address.
    BindUdp { socket: UdpRole, addr: SocketAddr },
    /// Wait for a datagram on any of the sockets and for the client's connection,
    /// whichever comes first.
    Wait,
    /// Send a datagram. Whether that works makes no difference.
    Send { socket: UdpRole, to: SocketAddr, data: B },
    /// End the session with this result.
    Close(Result<(), Error>),
}

/// What happened.
#[derive(Debug)]
pub enum Event<B> {
    /// The bytes asked for were read.
    Read(B),
    /// The bytes were written.
    Written,
    /// The lookup ended: with the addresses found, in order, or in an error.
    Resolved(Result<Vec<SocketAddr>, Error>),
    /// The step succeeded, and this is the local address that it asked for.
    Addr(SocketAddr),
    /// The connection, the listener or the accepted connection could not be had.
    Refused(Error),
    /// A connection from this peer was accepted.
    Accepted(SocketAddr),
    /// Both directions are done.
    Relayed,
    /// The device's address.
    DeviceIp(IpAddr),
    /// The socket is bound.
    Bound,
    /// A datagram arrived.
    Datagram { socket: UdpRole, src: SocketAddr, data: B },
    /// This many bytes arrived on the client's connection (none when it was
    /// closed), or reading from it failed.
    Control(Result<usize, Error>),
    /// The datagram was handed on, or could not be.
    Sent,
    /// The step failed.
    Failed(Error),
}

/// How far a session has come.
#[derive(Debug)]
pub enum Phase<B> {
    /// The client has not been given a service yet.
    Handshake(Stage<B>),
    /// The client is being connected to its target.
    Connect(ConnectStage),
    /// The client waits for a connection.
    Bind(BindStage),
    /// The client's datagrams are relayed.
    Associate(AssociateStage<B>),
    /// The session is over.
    Closed,
}

/// A client's session.
#[derive(Debug)]
pub struct Session<B> {
    /// What the client has to know.
    pub creds: Creds,
    /// The network that the client's traffic goes out on.
    pub net: Net,
    /// How far the session has come.
    pub phase: Phase<B>,
}

impl<B: View, S: View> View for Action<B, S> {
    type V = Action<B::V, S::V>;

    open spec fn view(&self) -> Action<B::V, S::V> {
        match *self {
            Action::Read(n) => Action::Read(n),
            Action::Write(msg) => Action::Write(msg@),
            Action::Lookup { host, port } => Action::Lookup { host: host@, port },
            Action::LocalAddr => Action::LocalAddr,
            Action::Connect(a) => Action::Connect(a),
            Action::Listen(a) => Action::Listen(a),
            Action::Accept => Action::Accept,
            Action::Relay { buffer } => Action::Relay { buffer },
            Action::DeviceIp { v6 } => Action::DeviceIp { v6 },
            Action::BindUdp { socket, addr } => Action::BindUdp { socket, addr },
            Action::Wait => Action::Wait,
            Action::Send { socket, to, data } => Action::Send { socket, to, data: data@ },
            Action::Close(r) => Action::Close(r),
        }
    }
}

impl<B: View> View for Event<B> {
    type V = Event<B::V>;

    open spec fn view(&self) -> Event<B::V> {
        match *self {
            Event::Read(b) => Event::Read(b@),
            Event::Written => Event::Written,
            Event::Resolved(found) => Event::Resolved(found),
            Event::Addr(a) => Event::Addr(a),
            Event::Refused(e) => Event::Refused(e),
            Event::Accepted(a) => Event::Accepted(a),
            Event::Relayed => Event::Relayed,
            Event::DeviceIp(ip) => Event::DeviceIp(ip),
            Event::Bound => Event::Bound,
            Event::Datagram { socket, src, data } => Event::Datagram { socket, src, data: data@ },
            Event::Control(r) => Event::Control(r),
            Event::Sent => Event::Sent,
            Event::Failed(e) => Event::Failed(e),
        }
    }
}

impl<B: View> View for Phase<B> {
    type V = Phase<B::V>;

    open spec fn view(&self) -> Phase<B::V> {
        match *self {
            Phase::Handshake(stage) => Phase::Handshake(stage@),
            Phase::Connect(stage) => Phase::Connect(stage),
            Phase::Bind(stage) => Phase::Bind(stage),
            Phase::Associate(stage) => Phase::Associate(stage@),
            Phase::Closed => Phase::Closed,
        }
    }
}

impl<B: View> View for Session<B> {
    type V = Session<B::V>;

    open spec fn view(&self) -> Session<B::V> {
        Session { creds: self.creds, net: self.net, phase: self.phase@ }
    }
}

/// What a step leads to: the next phase and the next action.
pub type Step = (Phase<Vec<u8>>, Action<Vec<u8>, String>);

/// A [`Step`] as specifications see it.
pub type StepView = (Phase<Seq<u8>>, Action<Seq<u8>, Seq<char>>);

/// The end of a session.
pub open spec fn closed(result: Result<(), Error>) -> StepView {
    (Phase::Closed, Action::Close(result))
}

/// The end of a session that fails with an error of the given kind.
pub open spec fn rejected(kind: ErrorKind) -> StepView {
    closed(Err(plain_error(kind)))
}

/// Ends a session.
pub(crate) fn close(result: Result<(), Error>) -> (r: Step)
    ensures
        (r.0@, r.1@) == closed(result),
{
    (Phase::Closed, Action::Close(result))
}

/// Ends a session with an error of the given kind.
pub(crate) fn reject(kind: ErrorKind) -> (r: Step)
    ensures
        (r.0@, r.1@) == rejected(kind),
{
    close(Err(Error::from(kind)))
}

impl Session<Seq<u8>> {
    /// A session with a client that has said nothing yet.
    pub open spec fn initial(net: Net, creds: Creds) -> Session<Seq<u8>> {
        Session { creds, net, phase: Phase::Handshake(Stage::Greeting) }
    }

    /// Whether `event` can follow the action that led here.
    pub open spec fn accepts(self, event: Event<Seq<u8>>) -> bool {
        match self.phase {
            Phase::Handshake(stage) => handshake::accepts(stage, event),
            Phase::Connect(stage) => connect::accepts(stage, event),
            Phase::Bind(stage) => bind::accepts(stage, event),
            Phase::Associate(stage) => associate::accepts(stage, event),
            Phase::Closed => false,
        }
    }

    /// What `event` leads to.
    pub open spec fn reaction(self, event: Event<Seq<u8>>) -> StepView {
        match self.phase {
            Phase::Handshake(stage) => handshake::next(self.creds, stage, event),
            Phase::Connect(stage) => connect::next(stage, event),
            Phase::Bind(stage) => bind::next(stage, event),
            Phase::Associate(stage) => associate::next(self.net, stage, event),
            Phase::Closed => arbitrary(),
        }
    }

    /// Whether `event` brings the host name of the target, in valid UTF-8.
    pub open spec fn names_host(self, event: Event<Seq<u8>>) -> bool {
        &&& self.phase matches Phase::Handshake(Stage::Name { .. })
        &&& event is Read
        &&& valid_utf8(handshake::name_in(event))
    }

    /// The session after `event`.
    pub open spec fn after(self, event: Event<Seq<u8>>) -> Session<Seq<u8>> {
        Session { creds: self.creds, net: self.net, phase: self.reaction(event).0 }
    }
}

impl Session<Vec<u8>> {
    /// Starts a session. The first action is to read the client's greeting.
    pub fn new(net: Net, creds: Creds) -> (r: (Session<Vec<u8>>, Action<Vec<u8>, String>))
        ensures
            r.0@ == Session::initial(net, creds),
            r.1@ == Action::<Seq<u8>, Seq<char>>::Read(2),
    {
        (Session { creds, net, phase: Phase::Handshake(Stage::Greeting) }, Action::Read(2))
    }

    /// Takes in what happened and says what to do next.
    pub fn step(self, event: Event<&[u8]>) -> (r: (Session<Vec<u8>>, Action<Vec<u8>, String>))
        requires
            self@.accepts(event@),
        ensures
            r.0@ == self@.after(event@),
            r.1@ == self@.reaction(event@).1,
            self@.names_host(event@) ==> {
                &&& r.1@ matches Action::Lookup { host, .. }
                &&& host == decode_utf8(handshake::name_in(event@))
            },
    {
        let creds = self.creds;
        let net = self.net;
        let (phase, action) = match self.phase {
            Phase::Handshake(stage) => handshake::step(&creds, stage, event),
            Phase::Connect(stage) => connect::step(stage, event),
            Phase::Bind(stage) => bind::step(stage, event),
            Phase::Associate(stage) => associate::step(&net, stage, event),
            Phase::Closed => unreached(),
        };
        (Session { creds, net, phase }, action)
    }
}

} // verus!
