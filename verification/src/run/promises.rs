//! What a session promises, in terms of what is sent, received and contacted.
use crate::addr::{IpAddr, SocketAddr};
use crate::associate::{AssociateStage, Job};
use crate::auth::Creds;
use crate::bind::BindStage;
use crate::connect::ConnectStage;
use crate::error::{Error, ErrorKind};
use crate::handshake::Stage;
use crate::net::Net;
use crate::session::{Action, Event, Phase, Session, UdpRole};
use crate::text::utf8_lossy;
use crate::wire::{
    addr_len, holds_addr, is_bare, is_forwarded, is_reply, law_datagrams_are_forwarded_whole,
    law_forwarded_datagram_names_its_source, law_headers_are_read_in_order,
    law_numbers_are_big_endian, law_replies_are_written_in_order, law_v4_octets_are_read_in_order,
    law_v6_octets_are_read_in_order, read_udp_header, v4_target, v6_target, UdpDest, ATYP_FQDN,
    CMD_BIND, CMD_CONNECT, CMD_UDP_ASSOCIATE, SOCKS_VERSION,
};
use super::{answers, lemma_push, possible, run};
use vstd::prelude::*;
use vstd::utf8::{decode_utf8, valid_utf8};

verus! {

/// A session starts with the network and the credentials that it was given.
pub proof fn law_a_session_starts_as_configured(net: Net, creds: Creds)
    ensures
        Session::initial(net, creds).net == net,
        Session::initial(net, creds).creds == creds,
        Session::initial(net, creds).phase is Handshake,
{
}

/// The action that specifications speak of is the one that the driver gets, with
/// every byte and every character.
pub proof fn law_actions_are_seen_whole(action: Action<Vec<u8>, String>)
    ensures
        match (action, action@) {
            (Action::Read(n), Action::Read(m)) => n == m,
            (Action::Write(msg), Action::Write(seen)) => msg@ == seen,
            (
                Action::Lookup { host, port },
                Action::Lookup { host: seen, port: p },
            ) => host@ == seen && port == p,
            (Action::LocalAddr, Action::LocalAddr) => true,
            (Action::Connect(a), Action::Connect(b)) => a == b,
            (Action::Listen(a), Action::Listen(b)) => a == b,
            (Action::Accept, Action::Accept) => true,
            (Action::Relay { buffer: a }, Action::Relay { buffer: b }) => a == b,
            (Action::DeviceIp { v6: a }, Action::DeviceIp { v6: b }) => a == b,
            (
                Action::BindUdp { socket, addr },
                Action::BindUdp { socket: s, addr: a },
            ) => socket == s && addr == a,
            (Action::Wait, Action::Wait) => true,
            (
                Action::Send { socket, to, data },
                Action::Send { socket: s, to: t, data: seen },
            ) => socket == s && to == t && data@ == seen,
            (Action::Close(a), Action::Close(b)) => a == b,
            _ => false,
        },
{
}

/// The event that specifications speak of is the one that the driver reports, with
/// every byte.
pub proof fn law_events_are_seen_whole(event: Event<&[u8]>)
    ensures
        match (event, event@) {
            (Event::Read(b), Event::Read(seen)) => b@ == seen,
            (Event::Written, Event::Written) => true,
            (Event::Resolved(a), Event::Resolved(b)) => a == b,
            (Event::Addr(a), Event::Addr(b)) => a == b,
            (Event::Refused(a), Event::Refused(b)) => a == b,
            (Event::Accepted(a), Event::Accepted(b)) => a == b,
            (Event::Relayed, Event::Relayed) => true,
            (Event::DeviceIp(a), Event::DeviceIp(b)) => a == b,
            (Event::Bound, Event::Bound) => true,
            (
                Event::Datagram { socket, src, data },
                Event::Datagram { socket: s, src: a, data: seen },
            ) => socket == s && src == a && data@ == seen,
            (Event::Control(a), Event::Control(b)) => a == b,
            (Event::Sent, Event::Sent) => true,
            (Event::Failed(a), Event::Failed(b)) => a == b,
            _ => false,
        },
{
}

/// A session in which the client may make its request.
pub open spec fn requesting(net: Net, creds: Creds) -> Session<Seq<u8>> {
    Session { creds, net, phase: Phase::Handshake(Stage::Request) }
}

/// Whether an IP address is the one in a socket address.
pub open spec fn is_ip_of(ip: IpAddr, a: SocketAddr) -> bool {
    match (ip, a) {
        (IpAddr::V4(x), SocketAddr::V4 { ip: o, .. }) => x == o,
        (IpAddr::V6(x), SocketAddr::V6 { ip: o, .. }) => x == o,
        _ => false,
    }
}

/// Whether every octet of an IP address is zero.
pub open spec fn is_zero(ip: IpAddr) -> bool {
    match ip {
        IpAddr::V4(o) => forall|i: int| 0 <= i < 4 ==> o[i] == 0,
        IpAddr::V6(o) => forall|i: int| 0 <= i < 16 ==> o[i] == 0,
    }
}

/// Whether `a` is `port` at the IP address of `host`, without flow label and scope.
pub open spec fn is_port_at(a: SocketAddr, host: SocketAddr, port: u16) -> bool {
    match (a, host) {
        (SocketAddr::V4 { ip, port: p }, SocketAddr::V4 { ip: o, .. }) => ip == o && p == port,
        (
            SocketAddr::V6 { ip, port: p, flowinfo, scope_id },
            SocketAddr::V6 { ip: o, .. },
        ) => ip == o && p == port && flowinfo == 0 && scope_id == 0,
        _ => false,
    }
}

/// A client that asks for a connection to an address, bytes that hold it being
/// `target`'s octets in order and its port with the high byte first, is connected to
/// exactly that address and port. If it asks to wait for a peer, the peer is the one
/// with that IP address; if it asks for a relay, the address is the one it is said to
/// send from. With any other command the session ends, unsupported.
pub proof fn law_a_requested_address_is_contacted(
    net: Net,
    creds: Creds,
    cmd: u8,
    rsv: u8,
    b: Seq<u8>,
    target: SocketAddr,
)
    requires
        match target {
            SocketAddr::V4 { ip, port } => {
                &&& b.len() == 6
                &&& forall|i: int| 0 <= i < 4 ==> #[trigger] ip@[i] == b[i]
                &&& port == 256 * b[4] + b[5]
            },
            SocketAddr::V6 { ip, port, flowinfo, scope_id } => {
                &&& b.len() == 18
                &&& forall|i: int| 0 <= i < 16 ==> #[trigger] ip@[i] == b[i]
                &&& port == 256 * b[16] + b[17]
                &&& flowinfo == 0
                &&& scope_id == 0
            },
        },
    ensures
        ({
            let start = requesting(net, creds);
            let atyp = if target is V4 {
                1u8
            } else {
                4u8
            };
            let events = seq![Event::Read(seq![SOCKS_VERSION, cmd, rsv, atyp]), Event::Read(b)];
            let told = answers(start, events);
            let phase = run(start, events).phase;
            &&& possible(start, events)
            &&& told.len() == 2
            &&& told[0] == Action::<Seq<u8>, Seq<char>>::Read(b.len() as usize)
            &&& cmd == CMD_CONNECT ==> {
                &&& told[1] == Action::<Seq<u8>, Seq<char>>::Connect(target)
                &&& phase == Phase::<Seq<u8>>::Connect(ConnectStage::Connecting { target })
            }
            &&& cmd == CMD_BIND ==> {
                &&& told[1] == Action::<Seq<u8>, Seq<char>>::LocalAddr
                &&& phase matches Phase::Bind(BindStage::Locating { expected })
                &&& is_ip_of(expected, target)
            }
            &&& cmd == CMD_UDP_ASSOCIATE ==> {
                &&& told[1] == Action::<Seq<u8>, Seq<char>>::LocalAddr
                &&& phase == Phase::Associate(
                    AssociateStage::<Seq<u8>>::Locating { requested: target },
                )
            }
            &&& cmd != CMD_CONNECT && cmd != CMD_BIND && cmd != CMD_UDP_ASSOCIATE ==> {
                &&& told[1] == Action::<Seq<u8>, Seq<char>>::Close(
                    Err(Error { kind: ErrorKind::Unsupported, message: None }),
                )
                &&& phase is Closed
            }
        }),
{
    let start = requesting(net, creds);
    let atyp = if target is V4 {
        1u8
    } else {
        4u8
    };
    let e0 = Event::Read(seq![SOCKS_VERSION, cmd, rsv, atyp]);
    let e1 = Event::Read(b);
    let s1 = Seq::empty().push(e0);
    lemma_push(start, Seq::empty(), e0);
    lemma_push(start, s1, e1);
    assert(seq![e0, e1] =~= s1.push(e1));
    match target {
        SocketAddr::V4 { ip, .. } => {
            law_v4_octets_are_read_in_order(b);
            if let SocketAddr::V4 { ip: read, .. } = v4_target(b) {
                assert forall|i: int| 0 <= i < 4 implies read[i] == ip[i] by {
                    assert(read@[i] == ip@[i]);
                }
                assert(read =~= ip);
            }
        },
        SocketAddr::V6 { ip, .. } => {
            law_v6_octets_are_read_in_order(b);
            if let SocketAddr::V6 { ip: read, .. } = v6_target(b) {
                assert forall|i: int| 0 <= i < 16 implies read[i] == ip[i] by {
                    assert(read@[i] == ip@[i]);
                }
                assert(read =~= ip);
            }
        },
    }
}

/// A client that names a host has the whole name looked up, with the port that
/// follows it, and the first address found is then contacted as it stands: for a
/// connection, as the peer that is waited for, or as the address that the client is
/// said to send from. With any other command the session ends, unsupported.
pub proof fn law_a_requested_host_is_contacted(
    net: Net,
    creds: Creds,
    cmd: u8,
    rsv: u8,
    name: Seq<u8>,
    hi: u8,
    lo: u8,
    found: Vec<SocketAddr>,
)
    requires
        name.len() <= 255,
        found@.len() > 0,
    ensures
        ({
            let start = requesting(net, creds);
            let events = seq![
                Event::Read(seq![SOCKS_VERSION, cmd, rsv, ATYP_FQDN]),
                Event::Read(seq![name.len() as u8]),
                Event::Read(name + seq![hi, lo]),
                Event::Resolved(Ok(found)),
            ];
            let told = answers(start, events);
            let phase = run(start, events).phase;
            let target = found@[0];
            &&& possible(start, events)
            &&& told.len() == 4
            &&& told[0] == Action::<Seq<u8>, Seq<char>>::Read(1)
            &&& told[1] == Action::<Seq<u8>, Seq<char>>::Read((name.len() + 2) as usize)
            &&& told[2] == Action::<Seq<u8>, Seq<char>>::Lookup {
                host: utf8_lossy(name),
                port: (256 * hi + lo) as u16,
            }
            &&& cmd == CMD_CONNECT ==> {
                &&& told[3] == Action::<Seq<u8>, Seq<char>>::Connect(target)
                &&& phase == Phase::<Seq<u8>>::Connect(ConnectStage::Connecting { target })
            }
            &&& cmd == CMD_BIND ==> {
                &&& told[3] == Action::<Seq<u8>, Seq<char>>::LocalAddr
                &&& phase matches Phase::Bind(BindStage::Locating { expected })
                &&& is_ip_of(expected, target)
            }
            &&& cmd == CMD_UDP_ASSOCIATE ==> {
                &&& told[3] == Action::<Seq<u8>, Seq<char>>::LocalAddr
                &&& phase == Phase::Associate(
                    AssociateStage::<Seq<u8>>::Locating { requested: target },
                )
            }
            &&& cmd != CMD_CONNECT && cmd != CMD_BIND && cmd != CMD_UDP_ASSOCIATE ==> {
                &&& told[3] == Action::<Seq<u8>, Seq<char>>::Close(
                    Err(Error { kind: ErrorKind::Unsupported, message: None }),
                )
                &&& phase is Closed
            }
        }),
{
    let start = requesting(net, creds);
    let e0 = Event::Read(seq![SOCKS_VERSION, cmd, rsv, ATYP_FQDN]);
    let e1 = Event::Read(seq![name.len() as u8]);
    let e2 = Event::Read(name + seq![hi, lo]);
    let e3 = Event::Resolved(Ok(found));
    let s1 = Seq::empty().push(e0);
    let s2 = s1.push(e1);
    let s3 = s2.push(e2);
    lemma_push(start, Seq::empty(), e0);
    lemma_push(start, s1, e1);
    assert((name + seq![hi, lo]).take(name.len() as int) =~= name);
    law_numbers_are_big_endian(0, hi, lo);
    lemma_push(start, s2, e2);
    lemma_push(start, s3, e3);
    assert(seq![e0, e1, e2, e3] =~= s3.push(e3));
}

/// Whether a code is the one that stands for an error of the given kind.
pub open spec fn tells(rep: u8, kind: ErrorKind) -> bool {
    match kind {
        ErrorKind::ConnectionRefused => rep == 5,
        ErrorKind::TimedOut => rep == 4,
        ErrorKind::HostUnreachable => rep == 4,
        ErrorKind::NetworkUnreachable => rep == 3,
        ErrorKind::PermissionDenied => rep == 2,
        _ => rep == 1,
    }
}

/// Whether an action writes the reply with the given code and address to the client.
pub open spec fn replies(action: Action<Seq<u8>, Seq<char>>, rep: u8, a: SocketAddr) -> bool {
    action matches Action::Write(msg) && is_reply(msg, rep, a)
}

/// A client whose target was reached gets a success reply with the local address of
/// the connection, and then the data of both sides is copied until both are done.
/// A client whose target was not reached gets a reply with the target and a code for
/// the reason, and nothing is copied.
pub proof fn law_a_connection_is_reported_and_relayed(
    net: Net,
    creds: Creds,
    target: SocketAddr,
    local: SocketAddr,
    e: Error,
)
    ensures
        ({
            let start = Session {
                creds,
                net,
                phase: Phase::Connect(ConnectStage::Connecting { target }),
            };
            let reached = seq![Event::<Seq<u8>>::Addr(local), Event::Written, Event::Relayed];
            let missed = seq![Event::<Seq<u8>>::Refused(e), Event::Written];
            &&& possible(start, reached)
            &&& answers(start, reached).len() == 3
            &&& replies(answers(start, reached)[0], 0, local)
            &&& answers(start, reached)[1] == Action::<Seq<u8>, Seq<char>>::Relay {
                buffer: Some(65536),
            }
            &&& answers(start, reached)[2] == Action::<Seq<u8>, Seq<char>>::Close(Ok(()))
            &&& possible(start, missed)
            &&& answers(start, missed).len() == 2
            &&& exists|rep: u8| #[trigger]
                tells(rep, e.kind) && replies(answers(start, missed)[0], rep, target)
            &&& answers(start, missed)[1] == Action::<Seq<u8>, Seq<char>>::Close(Ok(()))
        }),
{
    super::law_connect_reports_the_outcome(net, creds, target, local, e);
    law_replies_are_written_in_order(0, local);
    let rep = crate::error::reply_code(e.kind);
    law_replies_are_written_in_order(rep, target);
    assert(tells(rep, e.kind));
}

/// A client that waits for a peer is told who connected, with a success reply, if and
/// only if that is the peer it named: the IP address has the same family and the same
/// octets as the one named, or all octets of the one named are zero. Otherwise the
/// connection is passed over, and nothing changes.
pub proof fn law_only_the_named_peer_is_introduced(
    net: Net,
    creds: Creds,
    expected: IpAddr,
    peer: SocketAddr,
)
    ensures
        ({
            let session = Session {
                creds,
                net,
                phase: Phase::Bind::<Seq<u8>>(BindStage::Accepting { expected }),
            };
            let (phase, action) = session.reaction(Event::Accepted(peer));
            &&& session.accepts(Event::Accepted(peer))
            &&& is_zero(expected) || is_ip_of(expected, peer) ==> {
                &&& replies(action, 0, peer)
                &&& phase == Phase::<Seq<u8>>::Bind(BindStage::Introducing)
            }
            &&& !is_zero(expected) && !is_ip_of(expected, peer) ==> {
                &&& action == Action::<Seq<u8>, Seq<char>>::Accept
                &&& phase == session.phase
            }
        }),
{
    crate::addr::law_unspecified_means_all_octets_zero(expected);
    law_replies_are_written_in_order(0, peer);
}

/// A client that waits for a peer gets a success reply with the address that the
/// server listens on: one at the IP address that the client reached the server at, on
/// a port that the network picks. Once the peer was introduced, the data of both
/// sides is copied until both are done.
pub proof fn law_a_listener_is_announced(
    net: Net,
    creds: Creds,
    expected: IpAddr,
    control: SocketAddr,
    listener: SocketAddr,
)
    ensures
        ({
            let start = Session {
                creds,
                net,
                phase: Phase::Bind::<Seq<u8>>(BindStage::Locating { expected }),
            };
            let events = seq![Event::<Seq<u8>>::Addr(control), Event::Addr(listener), Event::Written];
            let told = answers(start, events);
            &&& possible(start, events)
            &&& told.len() == 3
            &&& told[0] matches Action::Listen(a) && is_port_at(a, control, 0)
            &&& replies(told[1], 0, listener)
            &&& told[2] == Action::<Seq<u8>, Seq<char>>::Accept
            &&& run(start, events).phase == Phase::<Seq<u8>>::Bind(
                BindStage::Accepting { expected },
            )
        }),
        ({
            let start = Session {
                creds,
                net,
                phase: Phase::Bind::<Seq<u8>>(BindStage::Introducing),
            };
            let events = seq![Event::<Seq<u8>>::Written, Event::Relayed];
            &&& possible(start, events)
            &&& answers(start, events) == seq![
                Action::<Seq<u8>, Seq<char>>::Relay { buffer: None },
                Action::Close(Ok(())),
            ]
        }),
{
    let start = Session {
        creds,
        net,
        phase: Phase::Bind::<Seq<u8>>(BindStage::Locating { expected }),
    };
    let s1 = Seq::empty().push(Event::<Seq<u8>>::Addr(control));
    let s2 = s1.push(Event::Addr(listener));
    let s3 = s2.push(Event::Written);
    lemma_push(start, Seq::empty(), Event::Addr(control));
    lemma_push(start, s1, Event::Addr(listener));
    lemma_push(start, s2, Event::Written);
    law_replies_are_written_in_order(0, listener);
    assert(s3 =~= seq![Event::<Seq<u8>>::Addr(control), Event::Addr(listener), Event::Written]);

    let met = Session { creds, net, phase: Phase::Bind::<Seq<u8>>(BindStage::Introducing) };
    let m1 = Seq::empty().push(Event::<Seq<u8>>::Written);
    let m2 = m1.push(Event::Relayed);
    lemma_push(met, Seq::empty(), Event::Written);
    lemma_push(met, m1, Event::Relayed);
    assert(m2 =~= seq![Event::<Seq<u8>>::Written, Event::Relayed]);
    assert(answers(met, m2) =~= seq![
        Action::<Seq<u8>, Seq<char>>::Relay { buffer: None },
        Action::Close(Ok(())),
    ]);
}

/// A client that cannot be given a listener or a peer gets a reply with a code for the
/// reason and an all-zero address, and the session ends without an error.
pub proof fn law_a_failed_bind_is_reported(
    session: Session<Seq<u8>>,
    expected: IpAddr,
    e: Error,
)
    requires
        session.phase == Phase::<Seq<u8>>::Bind(BindStage::Opening { expected }) || session.phase
            == Phase::<Seq<u8>>::Bind(BindStage::Accepting { expected }),
    ensures
        ({
            let events = seq![Event::<Seq<u8>>::Refused(e), Event::Written];
            let told = answers(session, events);
            &&& possible(session, events)
            &&& told.len() == 2
            &&& exists|rep: u8, a: SocketAddr| #[trigger]
                replies(told[0], rep, a) && tells(rep, e.kind) && a == (SocketAddr::V4 {
                    ip: [0, 0, 0, 0],
                    port: 0,
                })
            &&& told[1] == Action::<Seq<u8>, Seq<char>>::Close(Ok(()))
        }),
{
    let s1 = Seq::empty().push(Event::<Seq<u8>>::Refused(e));
    let s2 = s1.push(Event::Written);
    lemma_push(session, Seq::empty(), Event::Refused(e));
    lemma_push(session, s1, Event::Written);
    assert(s2 =~= seq![Event::<Seq<u8>>::Refused(e), Event::Written]);
    let rep = crate::error::reply_code(e.kind);
    let a = SocketAddr::V4 { ip: [0, 0, 0, 0], port: 0 };
    law_replies_are_written_in_order(rep, a);
    assert(replies(answers(session, s2)[0], rep, a));
}

/// A session that relays datagrams and waits for the next one.
pub open spec fn relaying(
    net: Net,
    creds: Creds,
    requested: SocketAddr,
    client: Option<SocketAddr>,
) -> Session<Seq<u8>> {
    Session {
        creds,
        net,
        phase: Phase::Associate(AssociateStage::Active { requested, client, job: Job::Waiting }),
    }
}

/// Whether a session relays datagrams for this client and has started this job.
pub open spec fn is_busy(
    phase: Phase<Seq<u8>>,
    requested: SocketAddr,
    client: Option<SocketAddr>,
    job: Job<Seq<u8>>,
) -> bool {
    phase == Phase::Associate(AssociateStage::Active { requested, client, job })
}

/// Whether a client that announced `requested` may send from anywhere: it left out
/// the address or the port.
pub open spec fn is_open(requested: SocketAddr) -> bool {
    match requested {
        SocketAddr::V4 { ip, port } => port == 0 || forall|i: int| 0 <= i < 4 ==> ip[i] == 0,
        SocketAddr::V6 { ip, port, .. } => port == 0 || forall|i: int|
            0 <= i < 16 ==> ip[i] == 0,
    }
}

/// Whether the client can be at `src`: it is there already, or it is not known yet
/// and announced this very address or left it open.
pub open spec fn can_be_at(
    client: Option<SocketAddr>,
    requested: SocketAddr,
    src: SocketAddr,
) -> bool {
    match client {
        Some(c) => c == src,
        None => is_open(requested) || requested == src,
    }
}

/// A datagram from where the client cannot be is dropped, and nothing changes.
pub proof fn law_datagrams_of_others_change_nothing(
    net: Net,
    creds: Creds,
    requested: SocketAddr,
    client: Option<SocketAddr>,
    src: SocketAddr,
    data: Seq<u8>,
)
    requires
        !can_be_at(client, requested, src),
    ensures
        ({
            let session = relaying(net, creds, requested, client);
            let event = Event::Datagram { socket: UdpRole::Relay, src, data };
            &&& session.accepts(event)
            &&& session.after(event) == session
            &&& session.reaction(event).1 == Action::<Seq<u8>, Seq<char>>::Wait
        }),
{
    crate::addr::law_unspecified_means_all_octets_zero(requested.spec_ip());
}

/// A datagram from where the client can be makes that the client's address. If it
/// holds an IP address and is no fragment, everything behind its header is sent to
/// that very address, from the socket of its family.
pub proof fn law_payloads_reach_the_address_in_the_header(
    net: Net,
    creds: Creds,
    requested: SocketAddr,
    client: Option<SocketAddr>,
    src: SocketAddr,
    data: Seq<u8>,
    to: SocketAddr,
)
    requires
        can_be_at(client, requested, src),
        holds_addr(data, 3, to),
        is_bare(to),
        data[2] == 0,
    ensures
        ({
            let event = Event::Datagram { socket: UdpRole::Relay, src, data };
            let session = relaying(net, creds, requested, client);
            let (phase, action) = session.reaction(event);
            &&& session.accepts(event)
            &&& is_busy(phase, requested, Some(src), Job::Sending)
            &&& match action {
                Action::Send { socket, to: dest, data: sent } => {
                    &&& socket == if to is V4 {
                        UdpRole::Out4
                    } else {
                        UdpRole::Out6
                    }
                    &&& dest == to
                    &&& sent.len() + 3 + addr_len(to) == data.len()
                    &&& forall|i: int|
                        0 <= i < sent.len() ==> #[trigger] sent[i] == data[3 + addr_len(to) + i]
                },
                _ => false,
            }
        }),
{
    crate::addr::law_unspecified_means_all_octets_zero(requested.spec_ip());
    law_headers_are_read_in_order(data);
    if let Some((_, UdpDest::Addr(a), _)) = read_udp_header(data) {
        match (a, to) {
            (SocketAddr::V4 { ip: x, .. }, SocketAddr::V4 { ip: y, .. }) => {
                assert forall|i: int| 0 <= i < 4 implies x[i] == y[i] by {
                    assert(x@[i] == data[3 + 1 + i]);
                    assert(y@[i] == data[3 + 1 + i]);
                }
                assert(x =~= y);
            },
            (SocketAddr::V6 { ip: x, .. }, SocketAddr::V6 { ip: y, .. }) => {
                assert forall|i: int| 0 <= i < 16 implies x[i] == y[i] by {
                    assert(x@[i] == data[3 + 1 + i]);
                    assert(y@[i] == data[3 + 1 + i]);
                }
                assert(x =~= y);
            },
            _ => {},
        }
    }
}

/// A datagram from where the client can be, no fragment, that holds a host name in
/// UTF-8 has that name looked up, with the port that follows it. Everything behind
/// the header is then sent to the first address found, from the socket of its family;
/// where none is found it is dropped. Either way the relay waits again afterwards.
pub proof fn law_payloads_reach_the_host_in_the_header(
    net: Net,
    creds: Creds,
    requested: SocketAddr,
    client: Option<SocketAddr>,
    src: SocketAddr,
    data: Seq<u8>,
    found: Vec<SocketAddr>,
    e: Error,
)
    requires
        can_be_at(client, requested, src),
        data.len() >= 5,
        data[2] == 0,
        data[3] == 3,
        data.len() >= 7 + data[4],
        valid_utf8(data.subrange(5, 5 + data[4])),
    ensures
        ({
            let event = Event::Datagram { socket: UdpRole::Relay, src, data };
            let session = relaying(net, creds, requested, client);
            let (phase, action) = session.reaction(event);
            let asking = session.after(event);
            let payload = data.skip(7 + data[4]);
            &&& session.accepts(event)
            &&& is_busy(phase, requested, Some(src), Job::Resolving { payload })
            &&& action == Action::<Seq<u8>, Seq<char>>::Lookup {
                host: decode_utf8(data.subrange(5, 5 + data[4])),
                port: (256 * data[5 + data[4]] + data[6 + data[4]]) as u16,
            }
            &&& asking.accepts(Event::Resolved(Ok(found)))
            &&& found@.len() > 0 ==> {
                &&& asking.reaction(Event::Resolved(Ok(found))).1 == Action::<
                    Seq<u8>,
                    Seq<char>,
                >::Send {
                    socket: if found@[0] is V4 {
                        UdpRole::Out4
                    } else {
                        UdpRole::Out6
                    },
                    to: found@[0],
                    data: payload,
                }
                &&& is_busy(
                    asking.reaction(Event::Resolved(Ok(found))).0,
                    requested,
                    Some(src),
                    Job::Sending,
                )
            }
            &&& found@.len() == 0 ==> {
                &&& asking.reaction(Event::Resolved(Ok(found))).1 == Action::<
                    Seq<u8>,
                    Seq<char>,
                >::Wait
                &&& asking.after(Event::Resolved(Ok(found))) == relaying(
                    net,
                    creds,
                    requested,
                    Some(src),
                )
            }
            &&& asking.reaction(Event::Resolved(Err(e))).1 == Action::<Seq<u8>, Seq<char>>::Wait
            &&& asking.after(Event::Resolved(Err(e))) == relaying(
                net,
                creds,
                requested,
                Some(src),
            )
        }),
{
    crate::addr::law_unspecified_means_all_octets_zero(requested.spec_ip());
    law_headers_are_read_in_order(data);
    law_numbers_are_big_endian(0, data[5 + data[4]], data[6 + data[4]]);
}

/// A datagram from where the client can be makes that the client's address even if it
/// is dropped: because it is a fragment, because it is too short for its address
/// type, because the type is unknown, or because the host name is not UTF-8.
pub proof fn law_unusable_datagrams_are_dropped(
    net: Net,
    creds: Creds,
    requested: SocketAddr,
    client: Option<SocketAddr>,
    src: SocketAddr,
    data: Seq<u8>,
)
    requires
        can_be_at(client, requested, src),
        ({
            ||| data.len() < 4
            ||| data[2] != 0
            ||| data[3] != 1 && data[3] != 3 && data[3] != 4
            ||| data[3] == 1 && data.len() < 10
            ||| data[3] == 4 && data.len() < 22
            ||| data[3] == 3 && data.len() < 5
            ||| data[3] == 3 && data.len() < 7 + data[4]
            ||| data[3] == 3 && !valid_utf8(data.subrange(5, 5 + data[4]))
        }),
    ensures
        ({
            let event = Event::Datagram { socket: UdpRole::Relay, src, data };
            let session = relaying(net, creds, requested, client);
            &&& session.accepts(event)
            &&& session.after(event) == relaying(net, creds, requested, Some(src))
            &&& session.reaction(event).1 == Action::<Seq<u8>, Seq<char>>::Wait
        }),
{
    crate::addr::law_unspecified_means_all_octets_zero(requested.spec_ip());
    law_headers_are_read_in_order(data);
}

/// A datagram that arrives on an outgoing socket is sent to the client, from the
/// socket that the client uses. Its header names the source, no fragment, and behind
/// the header stands the whole payload, of the same length and unchanged. Before the
/// client is known it is dropped.
pub proof fn law_answers_reach_the_client_whole(
    net: Net,
    creds: Creds,
    requested: SocketAddr,
    client: SocketAddr,
    socket: UdpRole,
    src: SocketAddr,
    data: Seq<u8>,
)
    requires
        socket == UdpRole::Out4 || socket == UdpRole::Out6,
    ensures
        ({
            let event = Event::Datagram { socket, src, data };
            let session = relaying(net, creds, requested, Some(client));
            let (phase, action) = session.reaction(event);
            &&& session.accepts(event)
            &&& is_busy(phase, requested, Some(client), Job::Sending)
            &&& match action {
                Action::Send { socket: from, to, data: sent } => {
                    &&& from == UdpRole::Relay
                    &&& to == client
                    &&& is_forwarded(sent, src, data)
                    &&& match read_udp_header(sent) {
                        Some((frag, UdpDest::Addr(a), len)) => {
                            &&& frag == 0
                            &&& a == src.plain()
                            &&& is_port_at(a, src, a.spec_port())
                            &&& sent.len() == len + data.len()
                            &&& sent.skip(len as int) == data
                        },
                        _ => false,
                    }
                },
                _ => false,
            }
        }),
        ({
            let event = Event::Datagram { socket, src, data };
            let session = relaying(net, creds, requested, None);
            &&& session.accepts(event)
            &&& session.after(event) == session
            &&& session.reaction(event).1 == Action::<Seq<u8>, Seq<char>>::Wait
        }),
{
    law_datagrams_are_forwarded_whole(src, data);
    law_forwarded_datagram_names_its_source(src, data);
}

/// After a datagram was sent the relay waits for the next one, with the client where
/// it was. What arrives on the client's connection changes nothing; its end, or a
/// failure to read from it, ends the session without an error.
pub proof fn law_the_relay_waits_until_the_connection_ends(
    net: Net,
    creds: Creds,
    requested: SocketAddr,
    client: Option<SocketAddr>,
    n: usize,
    e: Error,
)
    ensures
        ({
            let waiting = relaying(net, creds, requested, client);
            let sending = Session {
                creds,
                net,
                phase: Phase::Associate(
                    AssociateStage::Active { requested, client, job: Job::Sending },
                ),
            };
            &&& sending.accepts(Event::Sent)
            &&& sending.after(Event::Sent) == waiting
            &&& sending.reaction(Event::Sent).1 == Action::<Seq<u8>, Seq<char>>::Wait
            &&& n > 0 ==> {
                &&& waiting.after(Event::Control(Ok(n))) == waiting
                &&& waiting.reaction(Event::Control(Ok(n))).1 == Action::<Seq<u8>, Seq<char>>::Wait
            }
            &&& waiting.after(Event::Control(Ok(0))).phase is Closed
            &&& waiting.reaction(Event::Control(Ok(0))).1 == Action::<Seq<u8>, Seq<char>>::Close(
                Ok(()),
            )
            &&& waiting.after(Event::Control(Err(e))).phase is Closed
            &&& waiting.reaction(Event::Control(Err(e))).1 == Action::<Seq<u8>, Seq<char>>::Close(
                Ok(()),
            )
        }),
{
}

/// Whether an action binds a datagram socket to port zero of an IP address.
pub open spec fn binds(
    action: Action<Seq<u8>, Seq<char>>,
    role: UdpRole,
    ip: IpAddr,
) -> bool {
    match action {
        Action::BindUdp { socket, addr } => {
            &&& socket == role
            &&& is_ip_of(ip, addr)
            &&& is_port_at(addr, addr, 0)
        },
        _ => false,
    }
}

/// A client that asks for a relay gets a success reply with the address of a socket
/// at the IP address that it reached the server at. Then a socket for IPv4 and one for
/// IPv6 are bound, to the all-zero address of the operating system's network or to the
/// device's own addresses, and the relay waits, with the announced address kept and
/// the client not known yet.
pub proof fn law_a_relay_is_announced(
    creds: Creds,
    requested: SocketAddr,
    control: SocketAddr,
    relay: SocketAddr,
    ip4: IpAddr,
    ip6: IpAddr,
    here: IpAddr,
    any4: IpAddr,
    any6: IpAddr,
)
    requires
        ip4 is V4,
        ip6 is V6,
        is_ip_of(here, control),
        any4 is V4 && is_zero(any4),
        any6 is V6 && is_zero(any6),
    ensures
        ({
            let phase = Phase::Associate(AssociateStage::<Seq<u8>>::Locating { requested });
            let start = Session { creds, net: Net::Os, phase };
            let events = seq![
                Event::<Seq<u8>>::Addr(control),
                Event::Addr(relay),
                Event::Written,
                Event::Bound,
                Event::Bound,
            ];
            let told = answers(start, events);
            &&& possible(start, events)
            &&& told.len() == 5
            &&& binds(told[0], UdpRole::Relay, here)
            &&& replies(told[1], 0, relay)
            &&& binds(told[2], UdpRole::Out4, any4)
            &&& binds(told[3], UdpRole::Out6, any6)
            &&& told[4] == Action::<Seq<u8>, Seq<char>>::Wait
            &&& run(start, events) == relaying(Net::Os, creds, requested, None)
        }),
        ({
            let phase = Phase::Associate(AssociateStage::<Seq<u8>>::Locating { requested });
            let start = Session { creds, net: Net::Tailnet, phase };
            let events = seq![
                Event::<Seq<u8>>::Addr(control),
                Event::Addr(relay),
                Event::Written,
                Event::DeviceIp(ip4),
                Event::Bound,
                Event::DeviceIp(ip6),
                Event::Bound,
            ];
            let told = answers(start, events);
            &&& possible(start, events)
            &&& told.len() == 7
            &&& binds(told[0], UdpRole::Relay, here)
            &&& replies(told[1], 0, relay)
            &&& told[2] == Action::<Seq<u8>, Seq<char>>::DeviceIp { v6: false }
            &&& binds(told[3], UdpRole::Out4, ip4)
            &&& told[4] == Action::<Seq<u8>, Seq<char>>::DeviceIp { v6: true }
            &&& binds(told[5], UdpRole::Out6, ip6)
            &&& told[6] == Action::<Seq<u8>, Seq<char>>::Wait
            &&& run(start, events) == relaying(Net::Tailnet, creds, requested, None)
        }),
{
    super::law_the_relay_is_set_up_in_order(creds, requested, control, relay, ip4, ip6);
    law_replies_are_written_in_order(0, relay);
    let zero4 = [0u8, 0u8, 0u8, 0u8];
    let zero6 = [
        0u8, 0u8, 0u8, 0u8, 0u8, 0u8, 0u8, 0u8, 0u8, 0u8, 0u8, 0u8, 0u8, 0u8, 0u8, 0u8,
    ];
    assert(any4->V4_0 =~= zero4);
    assert(any6->V6_0 =~= zero6);
}

} // verus!
