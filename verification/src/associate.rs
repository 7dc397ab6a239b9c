//! The UDP ASSOCIATE service: a relay for datagrams.
use crate::addr::SocketAddr;
use crate::error::{Error, REP_SUCCESS};
use crate::net::{first_address, lookup_result, Net, Outbound};
use crate::session::{close, closed, Action, Event, Phase, Step, StepView, UdpRole};
use crate::wire::{
    forward_to_client, law_header_is_read_as_written, law_header_read_was_written,
    parse_udp_header, read_udp_header, reply_message, socks_reply, udp_header, wire_dest, UdpDest,
};
use vstd::pervasive::{arbitrary, unreached};
use vstd::prelude::*;
use vstd::slice::{slice_subrange, slice_to_vec};
use vstd::utf8::encode_utf8;

verus! {

/// The size of the largest datagram that is received whole.
pub const UDP_BUF: usize = 65535;

/// What the relay is doing.
#[derive(Debug)]
pub enum Job<B> {
    /// It waits.
    Waiting,
    /// It looks up the destination of a datagram from the client.
    Resolving { payload: B },
    /// It sends a datagram.
    Sending,
}

/// How far the service has come. `requested` is the address that the client said
/// it would send from.
#[derive(Debug)]
pub enum AssociateStage<B> {
    /// The local address of the client's connection is being found out.
    Locating { requested: SocketAddr },
    /// The socket for the client is being bound.
    Opening { requested: SocketAddr },
    /// The client is being told where to send its datagrams.
    Announcing { requested: SocketAddr },
    /// The tailnet device's own address is being found out.
    AskingDevice { requested: SocketAddr, v6: bool },
    /// An outgoing socket is being bound.
    OpeningOut { requested: SocketAddr, v6: bool },
    /// Datagrams are relayed. `client` is the address that the client's datagrams
    /// come from, once the first one has arrived.
    Active { requested: SocketAddr, client: Option<SocketAddr>, job: Job<B> },
}

impl<B: View> View for Job<B> {
    type V = Job<B::V>;

    open spec fn view(&self) -> Job<B::V> {
        match *self {
            Job::Waiting => Job::Waiting,
            Job::Resolving { payload } => Job::Resolving { payload: payload@ },
            Job::Sending => Job::Sending,
        }
    }
}

impl<B: View> View for AssociateStage<B> {
    type V = AssociateStage<B::V>;

    open spec fn view(&self) -> AssociateStage<B::V> {
        match *self {
            AssociateStage::Locating { requested } => AssociateStage::Locating { requested },
            AssociateStage::Opening { requested } => AssociateStage::Opening { requested },
            AssociateStage::Announcing { requested } => AssociateStage::Announcing { requested },
            AssociateStage::AskingDevice { requested, v6 } => AssociateStage::AskingDevice {
                requested,
                v6,
            },
            AssociateStage::OpeningOut { requested, v6 } => AssociateStage::OpeningOut {
                requested,
                v6,
            },
            AssociateStage::Active { requested, client, job } => AssociateStage::Active {
                requested,
                client,
                job: job@,
            },
        }
    }
}

/// Whether `event` can follow the action that led to `stage`.
pub open spec fn accepts(stage: AssociateStage<Seq<u8>>, event: Event<Seq<u8>>) -> bool {
    match event {
        Event::Addr(_) => stage is Locating || stage is Opening,
        Event::Written => stage is Announcing,
        Event::DeviceIp(ip) => stage is AskingDevice && (ip is V6) == stage->AskingDevice_v6,
        Event::Bound => stage is OpeningOut,
        Event::Datagram { .. } => stage is Active && stage->job is Waiting,
        Event::Control(_) => stage is Active && stage->job is Waiting,
        Event::Resolved(_) => stage is Active && stage->job is Resolving,
        Event::Sent => stage is Active && stage->job is Sending,
        Event::Failed(_) => stage is Active ==> stage->job is Waiting,
        _ => false,
    }
}

/// Whether a datagram from `src` is one of the client's. The first sender that
/// fits the announced address is the client from then on. Any sender fits where
/// the client announced no address or no port.
pub open spec fn is_client(
    lock: Option<SocketAddr>,
    requested: SocketAddr,
    src: SocketAddr,
) -> bool {
    match lock {
        Some(client) => client == src,
        None => {
            ||| requested.spec_ip().unspecified()
            ||| requested.spec_port() == 0
            ||| requested == src
        },
    }
}

/// The client's address after a datagram from `src` has arrived.
pub open spec fn locked(
    lock: Option<SocketAddr>,
    requested: SocketAddr,
    src: SocketAddr,
) -> Option<SocketAddr> {
    if lock is None && is_client(lock, requested, src) {
        Some(src)
    } else {
        lock
    }
}

/// The beginning of the service.
pub open spec fn started(requested: SocketAddr) -> StepView {
    (Phase::Associate(AssociateStage::Locating { requested }), Action::LocalAddr)
}

/// The socket for destinations of one family.
pub open spec fn out_socket(v6: bool) -> UdpRole {
    if v6 {
        UdpRole::Out6
    } else {
        UdpRole::Out4
    }
}

/// What follows when an outgoing socket is to be opened.
pub open spec fn out_wanted(net: Net, requested: SocketAddr, v6: bool) -> StepView {
    match net.outbound(v6) {
        Outbound::Addr(addr) => (
            Phase::Associate(AssociateStage::OpeningOut { requested, v6 }),
            Action::BindUdp { socket: out_socket(v6), addr },
        ),
        Outbound::Device => (
            Phase::Associate(AssociateStage::AskingDevice { requested, v6 }),
            Action::DeviceIp { v6 },
        ),
    }
}

/// The relay at rest.
pub open spec fn idle(requested: SocketAddr, client: Option<SocketAddr>) -> StepView {
    (
        Phase::Associate(AssociateStage::Active { requested, client, job: Job::Waiting }),
        Action::Wait,
    )
}

/// The relay while it sends a datagram.
pub open spec fn emitting(
    requested: SocketAddr,
    client: Option<SocketAddr>,
    socket: UdpRole,
    to: SocketAddr,
    data: Seq<u8>,
) -> StepView {
    (
        Phase::Associate(AssociateStage::Active { requested, client, job: Job::Sending }),
        Action::Send { socket, to, data },
    )
}

/// What follows a datagram that the client sent: its payload goes to the
/// destination that its header names. A datagram without a readable header, and
/// one that is a fragment, is dropped.
pub open spec fn outgoing(
    requested: SocketAddr,
    client: Option<SocketAddr>,
    datagram: Seq<u8>,
) -> StepView {
    match read_udp_header(datagram) {
        Some((frag, dest, len)) => if frag != 0 {
            idle(requested, client)
        } else {
            let payload = datagram.skip(len as int);
            match dest {
                UdpDest::Addr(to) => emitting(
                    requested,
                    client,
                    out_socket(!(to is V4)),
                    to,
                    payload,
                ),
                UdpDest::Domain(host, port) => (
                    Phase::Associate(
                        AssociateStage::Active {
                            requested,
                            client,
                            job: Job::Resolving { payload },
                        },
                    ),
                    Action::Lookup { host, port },
                ),
            }
        },
        None => idle(requested, client),
    }
}

/// What follows a datagram that arrived on one of the sockets.
pub open spec fn received(
    requested: SocketAddr,
    client: Option<SocketAddr>,
    socket: UdpRole,
    src: SocketAddr,
    data: Seq<u8>,
) -> StepView {
    match socket {
        UdpRole::Relay => {
            let lock = locked(client, requested, src);
            if is_client(client, requested, src) {
                outgoing(requested, lock, data)
            } else {
                idle(requested, lock)
            }
        },
        _ => match client {
            Some(to) => emitting(
                requested,
                client,
                UdpRole::Relay,
                to,
                udp_header(src) + data,
            ),
            None => idle(requested, client),
        },
    }
}

/// What `event` leads to.
pub open spec fn next(
    net: Net,
    stage: AssociateStage<Seq<u8>>,
    event: Event<Seq<u8>>,
) -> StepView {
    match (stage, event) {
        (_, Event::Failed(e)) => closed(Err(e)),
        (AssociateStage::Locating { requested }, Event::Addr(local)) => (
            Phase::Associate(AssociateStage::Opening { requested }),
            Action::BindUdp {
                socket: UdpRole::Relay,
                addr: SocketAddr::of(local.spec_ip(), 0),
            },
        ),
        (AssociateStage::Opening { requested }, Event::Addr(local)) => (
            Phase::Associate(AssociateStage::Announcing { requested }),
            Action::Write(reply_message(REP_SUCCESS, local)),
        ),
        (AssociateStage::Announcing { requested }, Event::Written) => out_wanted(
            net,
            requested,
            false,
        ),
        (AssociateStage::AskingDevice { requested, v6 }, Event::DeviceIp(ip)) => (
            Phase::Associate(AssociateStage::OpeningOut { requested, v6 }),
            Action::BindUdp { socket: out_socket(v6), addr: SocketAddr::of(ip, 0) },
        ),
        (AssociateStage::OpeningOut { requested, v6 }, Event::Bound) => if v6 {
            idle(requested, None)
        } else {
            out_wanted(net, requested, true)
        },
        (
            AssociateStage::Active { requested, client, job: Job::Waiting },
            Event::Datagram { socket, src, data },
        ) => received(requested, client, socket, src, data),
        (
            AssociateStage::Active { requested, client, job: Job::Waiting },
            Event::Control(r),
        ) => match r {
            Ok(n) if n > 0 => idle(requested, client),
            _ => closed(Ok(())),
        },
        (
            AssociateStage::Active { requested, client, job: Job::Resolving { payload } },
            Event::Resolved(found),
        ) => match lookup_result(found) {
            Ok(to) => emitting(requested, client, out_socket(!(to is V4)), to, payload),
            Err(_) => idle(requested, client),
        },
        (AssociateStage::Active { requested, client, job: Job::Sending }, Event::Sent) => idle(
            requested,
            client,
        ),
        _ => arbitrary(),
    }
}

/// Begins the service.
pub fn start(requested: SocketAddr) -> (r: Step)
    ensures
        (r.0@, r.1@) == started(requested),
{
    (Phase::Associate(AssociateStage::Locating { requested }), Action::LocalAddr)
}

/// Decides whether a datagram from `src` is one of the client's, and takes `src`
/// for the client's address if it is the first.
pub fn accept_client(
    lock: &mut Option<SocketAddr>,
    requested: SocketAddr,
    src: SocketAddr,
) -> (ok: bool)
    ensures
        ok == is_client(*old(lock), requested, src),
        *final(lock) == locked(*old(lock), requested, src),
{
    match *lock {
        Some(addr) => addr == src,
        None => {
            let ok = requested.ip().is_unspecified() || requested.port() == 0 || requested == src;
            if ok {
                *lock = Some(src);
            }
            ok
        },
    }
}

/// Opens an outgoing socket.
fn open_out(net: &Net, requested: SocketAddr, v6: bool) -> (r: Step)
    ensures
        (r.0@, r.1@) == out_wanted(*net, requested, v6),
{
    match net.outbound_addr(v6) {
        Outbound::Addr(addr) => {
            let socket = socket_for(v6);
            (
                Phase::Associate(AssociateStage::OpeningOut { requested, v6 }),
                Action::BindUdp { socket, addr },
            )
        },
        Outbound::Device => {
            (
                Phase::Associate(AssociateStage::AskingDevice { requested, v6 }),
                Action::DeviceIp { v6 },
            )
        },
    }
}

/// The socket for destinations of one family.
fn socket_for(v6: bool) -> (socket: UdpRole)
    ensures
        socket == out_socket(v6),
{
    if v6 {
        UdpRole::Out6
    } else {
        UdpRole::Out4
    }
}

/// Goes back to waiting.
fn wait(requested: SocketAddr, client: Option<SocketAddr>) -> (r: Step)
    ensures
        (r.0@, r.1@) == idle(requested, client),
{
    (
        Phase::Associate(AssociateStage::Active { requested, client, job: Job::Waiting }),
        Action::Wait,
    )
}

/// Sends a datagram.
fn emit(
    requested: SocketAddr,
    client: Option<SocketAddr>,
    socket: UdpRole,
    to: SocketAddr,
    data: Vec<u8>,
) -> (r: Step)
    ensures
        (r.0@, r.1@) == emitting(requested, client, socket, to, data@),
{
    (
        Phase::Associate(AssociateStage::Active { requested, client, job: Job::Sending }),
        Action::Send { socket, to, data },
    )
}

/// Sends the payload of a client's datagram on its way.
pub fn send_out(requested: SocketAddr, client: Option<SocketAddr>, datagram: &[u8]) -> (r: Step)
    ensures
        (r.0@, r.1@) == outgoing(requested, client, datagram@),
{
    match parse_udp_header(datagram) {
        Ok((frag, dest, len)) => {
            if frag != 0x00 {
                return wait(requested, client);
            }
            proof {
                law_header_read_was_written(datagram@);
            }
            let payload = slice_to_vec(slice_subrange(datagram, len, datagram.len()));
            assert(payload@ =~= datagram@.skip(len as int));
            match dest {
                UdpDest::Addr(to) => {
                    emit(requested, client, socket_for(!to.is_ipv4()), to, payload)
                },
                UdpDest::Domain(host, port) => {
                    let job = Job::Resolving { payload };
                    (
                        Phase::Associate(AssociateStage::Active { requested, client, job }),
                        Action::Lookup { host, port },
                    )
                },
            }
        },
        Err(_) => wait(requested, client),
    }
}

/// Handles a datagram that arrived on one of the sockets.
pub fn receive(
    requested: SocketAddr,
    client: Option<SocketAddr>,
    socket: UdpRole,
    src: SocketAddr,
    data: &[u8],
) -> (r: Step)
    ensures
        (r.0@, r.1@) == received(requested, client, socket, src, data@),
{
    match socket {
        UdpRole::Relay => {
            let mut lock = client;
            if accept_client(&mut lock, requested, src) {
                send_out(requested, lock, data)
            } else {
                wait(requested, lock)
            }
        },
        _ => match client {
            Some(to) => {
                let mut scratch: Vec<u8> = Vec::new();
                forward_to_client(src, data, &mut scratch);
                emit(requested, client, UdpRole::Relay, to, scratch)
            },
            None => wait(requested, client),
        },
    }
}

/// Takes in what happened and says what to do next.
pub fn step(net: &Net, stage: AssociateStage<Vec<u8>>, event: Event<&[u8]>) -> (r: Step)
    requires
        accepts(stage@, event@),
    ensures
        (r.0@, r.1@) == next(*net, stage@, event@),
{
    match (stage, event) {
        (_, Event::Failed(e)) => close(Err(e)),
        (AssociateStage::Locating { requested }, Event::Addr(local)) => {
            let addr = SocketAddr::new(local.ip(), 0);
            (
                Phase::Associate(AssociateStage::Opening { requested }),
                Action::BindUdp { socket: UdpRole::Relay, addr },
            )
        },
        (AssociateStage::Opening { requested }, Event::Addr(local)) => {
            let msg = socks_reply(REP_SUCCESS, local);
            (Phase::Associate(AssociateStage::Announcing { requested }), Action::Write(msg))
        },
        (AssociateStage::Announcing { requested }, Event::Written) => {
            open_out(net, requested, false)
        },
        (AssociateStage::AskingDevice { requested, v6 }, Event::DeviceIp(ip)) => {
            let socket = socket_for(v6);
            let addr = SocketAddr::new(ip, 0);
            (
                Phase::Associate(AssociateStage::OpeningOut { requested, v6 }),
                Action::BindUdp { socket, addr },
            )
        },
        (AssociateStage::OpeningOut { requested, v6 }, Event::Bound) => if v6 {
            wait(requested, None)
        } else {
            open_out(net, requested, true)
        },
        (
            AssociateStage::Active { requested, client, job: Job::Waiting },
            Event::Datagram { socket, src, data },
        ) => receive(requested, client, socket, src, data),
        (AssociateStage::Active { requested, client, job: Job::Waiting }, Event::Control(r)) => {
            match r {
                Ok(n) if n > 0 => wait(requested, client),
                _ => close(Ok(())),
            }
        },
        (
            AssociateStage::Active { requested, client, job: Job::Resolving { payload } },
            Event::Resolved(found),
        ) => match first_address(found) {
            Ok(to) => emit(requested, client, socket_for(!to.is_ipv4()), to, payload),
            Err(_) => wait(requested, client),
        },
        (AssociateStage::Active { requested, client, job: Job::Sending }, Event::Sent) => {
            wait(requested, client)
        },
        _ => unreached(),
    }
}

/// The first sender that fits becomes the client, and from then on nobody else
/// is taken for it.
pub proof fn law_the_first_fitting_sender_is_the_client(
    requested: SocketAddr,
    first: SocketAddr,
    later: SocketAddr,
)
    requires
        is_client(None, requested, first),
    ensures
        locked(None, requested, first) == Some(first),
        is_client(locked(None, requested, first), requested, later) <==> later == first,
        locked(Some(first), requested, later) == Some(first),
{
}

/// A datagram from anyone but the client changes nothing and is not passed on.
pub proof fn law_strangers_are_ignored(
    requested: SocketAddr,
    client: Option<SocketAddr>,
    src: SocketAddr,
    data: Seq<u8>,
)
    requires
        !is_client(client, requested, src),
    ensures
        received(requested, client, UdpRole::Relay, src, data) == idle(requested, client),
{
}

/// As long as the client has sent nothing, nothing is passed on to it.
pub proof fn law_nothing_is_relayed_to_an_unknown_client(
    requested: SocketAddr,
    socket: UdpRole,
    src: SocketAddr,
    data: Seq<u8>,
)
    requires
        socket != UdpRole::Relay,
    ensures
        received(requested, None, socket, src, data) == idle(requested, None),
{
}

/// A client's datagram for an address is sent there (flow label and scope are not
/// carried), without its header and otherwise unchanged, from the socket of the
/// address's family.
pub proof fn law_a_datagram_for_an_address_is_sent_there(
    requested: SocketAddr,
    client: Option<SocketAddr>,
    rsv0: u8,
    rsv1: u8,
    to: SocketAddr,
    payload: Seq<u8>,
)
    ensures
        outgoing(
            requested,
            client,
            seq![rsv0, rsv1, 0u8] + wire_dest(UdpDest::Addr(to)) + payload,
        ) == emitting(requested, client, out_socket(to is V6), to.plain(), payload),
{
    let header = seq![rsv0, rsv1, 0u8] + wire_dest(UdpDest::Addr(to));
    law_header_is_read_as_written(rsv0, rsv1, 0, UdpDest::Addr(to), payload);
    assert((header + payload).skip(header.len() as int) =~= payload);
}

/// A client's datagram for a host is sent to the first address found for it,
/// without its header and otherwise unchanged. Where none is found it is dropped.
pub proof fn law_a_datagram_for_a_host_is_sent_there(
    net: Net,
    requested: SocketAddr,
    client: Option<SocketAddr>,
    rsv0: u8,
    rsv1: u8,
    host: Seq<char>,
    port: u16,
    payload: Seq<u8>,
    found: Vec<SocketAddr>,
    e: Error,
)
    requires
        encode_utf8(host).len() <= 255,
    ensures
        ({
            let datagram = seq![rsv0, rsv1, 0u8] + wire_dest(UdpDest::Domain(host, port)) + payload;
            let stage = AssociateStage::Active {
                requested,
                client,
                job: Job::Resolving { payload },
            };
            &&& outgoing(requested, client, datagram) == (
                Phase::Associate(stage),
                Action::<Seq<u8>, Seq<char>>::Lookup { host, port },
            )
            &&& next(net, stage, Event::Resolved(Ok(found))) == if found@.len() > 0 {
                emitting(requested, client, out_socket(found@[0] is V6), found@[0], payload)
            } else {
                idle(requested, client)
            }
            &&& next(net, stage, Event::Resolved(Err(e))) == idle(requested, client)
        }),
{
    let header = seq![rsv0, rsv1, 0u8] + wire_dest(UdpDest::Domain(host, port));
    law_header_is_read_as_written(rsv0, rsv1, 0, UdpDest::Domain(host, port), payload);
    assert((header + payload).skip(header.len() as int) =~= payload);
}

/// An outgoing socket is only ever bound to an address of its own family.
pub proof fn law_outgoing_sockets_have_their_family(
    net: Net,
    stage: AssociateStage<Seq<u8>>,
    event: Event<Seq<u8>>,
)
    requires
        accepts(stage, event),
    ensures
        next(net, stage, event).1 matches Action::BindUdp { socket, addr } ==> (socket
            == UdpRole::Relay || socket == out_socket(addr is V6)),
{
}

/// Fragments, and datagrams without a readable header, are dropped.
pub proof fn law_fragments_and_garbage_are_dropped(
    requested: SocketAddr,
    client: Option<SocketAddr>,
    datagram: Seq<u8>,
)
    requires
        read_udp_header(datagram) matches Some((frag, _, _)) ==> frag != 0,
    ensures
        outgoing(requested, client, datagram) == idle(requested, client),
{
}

/// The relay lasts as long as the client's connection: bytes on it are ignored,
/// and its end, orderly or not, ends the session without an error.
pub proof fn law_the_relay_lasts_as_long_as_the_connection(
    net: Net,
    requested: SocketAddr,
    client: Option<SocketAddr>,
    n: usize,
    e: Error,
)
    ensures
        ({
            let stage = AssociateStage::<Seq<u8>>::Active { requested, client, job: Job::Waiting };
            &&& n > 0 ==> next(net, stage, Event::Control(Ok(n))) == idle(requested, client)
            &&& next(net, stage, Event::Control(Ok(0))) == closed(Ok(()))
            &&& next(net, stage, Event::Control(Err(e))) == closed(Ok(()))
        }),
{
}

} // verus!
