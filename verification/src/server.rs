//! The loop that accepts clients.
//!
//! A server alternates with its driver as a session does: it says what to do next,
//! as a [`ServerAction`], and is told what happened, as a [`ServerEvent`].
use crate::addr::{IpAddr, SocketAddr};
use crate::auth::Creds;
use crate::net::Net;
use vstd::pervasive::{arbitrary, unreached};
use vstd::prelude::*;

verus! {

/// How long the server waits before it accepts again after a failure, in
/// milliseconds.
pub const RETRY_MILLIS: u64 = 100;

/// How far a server has come.
#[derive(Clone, Copy, Debug)]
pub enum ServerStage {
    /// The tailnet device is being registered.
    Registering { port: u16 },
    /// The device's IPv4 address is being found out.
    AskingDevice { port: u16 },
    /// The listener is being opened.
    Opening,
    /// A client is awaited.
    Accepting,
    /// A session is being started for a client.
    Starting,
    /// The server waits after a failure.
    Resting,
    /// The server has given up.
    Stopped,
}

/// A server.
#[derive(Clone, Copy, Debug)]
pub struct Server {
    /// The network that the server listens on, and that its clients' traffic goes
    /// out on.
    pub net: Net,
    /// What its clients have to know.
    pub creds: Creds,
    /// How far the server has come.
    pub stage: ServerStage,
}

/// What the driver does next.
#[derive(Clone, Copy, Debug)]
pub enum ServerAction {
    /// Register a device with the tailnet.
    Register { auth_key: &'static str },
    /// Find out the device's IPv4 address.
    DeviceIp,
    /// Listen on this address of this network.
    Listen { net: Net, addr: SocketAddr },
    /// Accept a client.
    Accept,
    /// Start a session on this network with these credentials for the accepted
    /// client, and leave it to itself.
    Start { net: Net, creds: Creds },
    /// Wait.
    Sleep { millis: u64 },
    /// Give up.
    Stop,
}

/// What happened.
#[derive(Clone, Copy, Debug)]
pub enum ServerEvent {
    /// The step is done.
    Done,
    /// The device's address.
    DeviceIp(IpAddr),
    /// The step failed.
    Failed,
}

/// A server on an address of the operating system's, and its first action.
pub open spec fn started_on_os(addr: SocketAddr, creds: Creds) -> (Server, ServerAction) {
    (
        Server { net: Net::Os, creds, stage: ServerStage::Opening },
        ServerAction::Listen { net: Net::Os, addr },
    )
}

/// A server on a port of a tailnet device's own address, and its first action.
pub open spec fn started_on_tailnet(auth_key: &'static str, port: u16, creds: Creds) -> (
    Server,
    ServerAction,
) {
    (
        Server { net: Net::Tailnet, creds, stage: ServerStage::Registering { port } },
        ServerAction::Register { auth_key },
    )
}

impl Server {
    /// Whether `event` can follow the action that led here.
    pub open spec fn accepts(self, event: ServerEvent) -> bool {
        match event {
            ServerEvent::Done => !(self.stage is AskingDevice || self.stage is Stopped),
            ServerEvent::DeviceIp(ip) => self.stage is AskingDevice && ip is V4,
            ServerEvent::Failed => is_setting_up(self) || self.stage is Accepting,
        }
    }

    /// The server at another stage.
    pub open spec fn at(self, stage: ServerStage) -> Server {
        Server { net: self.net, creds: self.creds, stage }
    }

    /// What `event` leads to.
    pub open spec fn next(self, event: ServerEvent) -> (Server, ServerAction) {
        match (self.stage, event) {
            (ServerStage::Registering { port }, ServerEvent::Done) => (
                self.at(ServerStage::AskingDevice { port }),
                ServerAction::DeviceIp,
            ),
            (ServerStage::AskingDevice { port }, ServerEvent::DeviceIp(ip)) => (
                self.at(ServerStage::Opening),
                ServerAction::Listen { net: self.net, addr: SocketAddr::of(ip, port) },
            ),
            (ServerStage::Accepting, ServerEvent::Done) => (
                self.at(ServerStage::Starting),
                ServerAction::Start { net: self.net, creds: self.creds },
            ),
            (ServerStage::Accepting, ServerEvent::Failed) => (
                self.at(ServerStage::Resting),
                ServerAction::Sleep { millis: RETRY_MILLIS },
            ),
            (_, ServerEvent::Done) => (self.at(ServerStage::Accepting), ServerAction::Accept),
            (_, ServerEvent::Failed) => (self.at(ServerStage::Stopped), ServerAction::Stop),
            _ => arbitrary(),
        }
    }

    /// A server on an address of the operating system's. `creds` is what its clients
    /// have to know.
    pub fn serve_os(addr: SocketAddr, creds: Creds) -> (r: (Server, ServerAction))
        ensures
            r == started_on_os(addr, creds),
    {
        (
            Server { net: Net::Os, creds, stage: ServerStage::Opening },
            ServerAction::Listen { net: Net::Os, addr },
        )
    }

    /// A server on a port of the address that a tailnet device gets for an auth key.
    /// `creds` is what its clients have to know.
    pub fn serve_tailnet(auth_key: &'static str, port: u16, creds: Creds) -> (r: (
        Server,
        ServerAction,
    ))
        ensures
            r == started_on_tailnet(auth_key, port, creds),
    {
        (
            Server { net: Net::Tailnet, creds, stage: ServerStage::Registering { port } },
            ServerAction::Register { auth_key },
        )
    }

    /// Takes in what happened and says what to do next.
    pub fn step(self, event: ServerEvent) -> (r: (Server, ServerAction))
        requires
            self.accepts(event),
        ensures
            r == self.next(event),
    {
        let net = self.net;
        let creds = self.creds;
        let (stage, action) = match (self.stage, event) {
            (ServerStage::Registering { port }, ServerEvent::Done) => {
                (ServerStage::AskingDevice { port }, ServerAction::DeviceIp)
            },
            (ServerStage::AskingDevice { port }, ServerEvent::DeviceIp(ip)) => {
                let addr = SocketAddr::new(ip, port);
                (ServerStage::Opening, ServerAction::Listen { net, addr })
            },
            (ServerStage::Accepting, ServerEvent::Done) => {
                (ServerStage::Starting, ServerAction::Start { net, creds })
            },
            (ServerStage::Accepting, ServerEvent::Failed) => {
                (ServerStage::Resting, ServerAction::Sleep { millis: RETRY_MILLIS })
            },
            (_, ServerEvent::Done) => (ServerStage::Accepting, ServerAction::Accept),
            (_, ServerEvent::Failed) => (ServerStage::Stopped, ServerAction::Stop),
            _ => unreached(),
        };
        (Server { net, creds, stage }, action)
    }
}

/// The server after a series of events.
pub open spec fn server_run(start: Server, events: Seq<ServerEvent>) -> Server
    decreases events.len(),
{
    if events.len() == 0 {
        start
    } else {
        server_run(start, events.drop_last()).next(events.last()).0
    }
}

/// Whether each event of a series can follow the action before it.
pub open spec fn server_possible(start: Server, events: Seq<ServerEvent>) -> bool
    decreases events.len(),
{
    events.len() == 0 || {
        &&& server_possible(start, events.drop_last())
        &&& server_run(start, events.drop_last()).accepts(events.last())
    }
}

/// Whether the server has no listener yet.
pub open spec fn is_setting_up(server: Server) -> bool {
    server.stage is Registering || server.stage is AskingDevice || server.stage is Opening
}

/// Whether the server has a listener.
pub open spec fn is_up(server: Server) -> bool {
    server.stage is Accepting || server.stage is Starting || server.stage is Resting
}

/// Whether an outcome of `action` can be reported as `event`.
pub open spec fn server_fits(action: ServerAction, event: ServerEvent) -> bool {
    match action {
        ServerAction::Register { .. } => event is Done || event is Failed,
        ServerAction::DeviceIp => event is Failed || (event matches ServerEvent::DeviceIp(ip)
            && ip is V4),
        ServerAction::Listen { .. } => event is Done || event is Failed,
        ServerAction::Accept => event is Done || event is Failed,
        ServerAction::Start { .. } => event is Done,
        ServerAction::Sleep { .. } => event is Done,
        ServerAction::Stop => false,
    }
}

/// At the beginning, and after every step, a server takes exactly the events that
/// report an outcome of the action it asked for.
pub proof fn law_every_server_outcome_can_be_reported(
    addr: SocketAddr,
    auth_key: &'static str,
    port: u16,
    creds: Creds,
    server: Server,
    event: ServerEvent,
    outcome: ServerEvent,
)
    requires
        server.accepts(event),
    ensures
        started_on_os(addr, creds).0.accepts(outcome) == server_fits(
            started_on_os(addr, creds).1,
            outcome,
        ),
        started_on_tailnet(auth_key, port, creds).0.accepts(outcome) == server_fits(
            started_on_tailnet(auth_key, port, creds).1,
            outcome,
        ),
        server.next(event).0.accepts(outcome) == server_fits(server.next(event).1, outcome),
{
}

/// A server never changes its network and its credentials. It listens on no other
/// network, and it starts no session on another network or with other credentials.
pub proof fn law_sessions_are_started_as_configured(
    start: Server,
    events: Seq<ServerEvent>,
    event: ServerEvent,
)
    requires
        server_possible(start, events),
        server_run(start, events).accepts(event),
    ensures
        ({
            let server = server_run(start, events);
            let action = server.next(event).1;
            &&& server.net == start.net
            &&& server.creds == start.creds
            &&& action is Start ==> action == ServerAction::Start {
                net: start.net,
                creds: start.creds,
            }
            &&& action is Listen ==> action->Listen_net == start.net
        }),
    decreases events.len(),
{
    if events.len() > 0 {
        law_sessions_are_started_as_configured(start, events.drop_last(), events.last());
    }
}

/// Once the server has a listener it goes on accepting clients for good, whatever
/// fails.
pub proof fn law_a_server_that_is_up_stays_up(start: Server, events: Seq<ServerEvent>)
    requires
        is_up(start),
        server_possible(start, events),
    ensures
        is_up(server_run(start, events)),
    decreases events.len(),
{
    if events.len() > 0 {
        law_a_server_that_is_up_stays_up(start, events.drop_last());
    }
}

/// A failure before the server has a listener makes it give up for good.
pub proof fn law_a_failed_setup_stops_the_server(server: Server, later: ServerEvent)
    requires
        is_setting_up(server),
    ensures
        server.accepts(ServerEvent::Failed),
        server.next(ServerEvent::Failed) == (server.at(ServerStage::Stopped), ServerAction::Stop),
        !server.at(ServerStage::Stopped).accepts(later),
{
}

/// Every accepted client gets a session, and nobody else does. A failure to accept
/// costs no more than a pause, and the server accepts again after either.
pub proof fn law_every_client_is_served(server: Server, event: ServerEvent)
    requires
        is_up(server),
        server.accepts(event),
    ensures
        server.next(event).1 is Start <==> server.stage is Accepting && event is Done,
        server.next(event).1 is Start ==> !(server.next(event).0.stage is Accepting),
        server.next(event).1 is Start ==> is_up(server.next(event).0),
        server.stage is Accepting && event is Failed ==> server.next(event) == (
            (Server { net: server.net, creds: server.creds, stage: ServerStage::Resting }),
            ServerAction::Sleep { millis: 100 },
        ),
        !(server.stage is Accepting) ==> server.next(event) == (
            (Server { net: server.net, creds: server.creds, stage: ServerStage::Accepting }),
            ServerAction::Accept,
        ),
{
}

/// A server on the operating system listens on the configured address and then
/// accepts clients.
pub proof fn law_an_os_server_listens_on_its_address(addr: SocketAddr, creds: Creds)
    ensures
        ({
            let opening = started_on_os(addr, creds);
            let accepting = opening.0.next(ServerEvent::Done);
            &&& opening.0.net == Net::Os
            &&& opening.0.creds == creds
            &&& opening.1 == ServerAction::Listen { net: Net::Os, addr }
            &&& opening.0.accepts(ServerEvent::Done)
            &&& is_up(accepting.0)
            &&& accepting.1 == ServerAction::Accept
        }),
{
}

/// A server on a tailnet registers with its auth key, listens on the configured port
/// of the IPv4 address that its device was given, and then accepts clients.
pub proof fn law_a_tailnet_server_listens_on_the_device(
    auth_key: &'static str,
    port: u16,
    creds: Creds,
    ip: IpAddr,
)
    requires
        ip is V4,
    ensures
        ({
            let registering = started_on_tailnet(auth_key, port, creds);
            let asking = registering.0.next(ServerEvent::Done);
            let opening = asking.0.next(ServerEvent::DeviceIp(ip));
            let accepting = opening.0.next(ServerEvent::Done);
            &&& registering.0.net == Net::Tailnet
            &&& registering.0.creds == creds
            &&& registering.1 == ServerAction::Register { auth_key }
            &&& registering.0.accepts(ServerEvent::Done)
            &&& asking.1 == ServerAction::DeviceIp
            &&& asking.0.accepts(ServerEvent::DeviceIp(ip))
            &&& opening.1 == ServerAction::Listen {
                net: Net::Tailnet,
                addr: SocketAddr::V4 { ip: ip->V4_0, port },
            }
            &&& opening.0.accepts(ServerEvent::Done)
            &&& is_up(accepting.0)
            &&& accepting.1 == ServerAction::Accept
        }),
{
}

} // verus!
