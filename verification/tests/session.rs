use lucisocks::addr::{unspecified_addr, IpAddr, SocketAddr};
use lucisocks::associate::{accept_client, UDP_BUF};
use lucisocks::auth::{password_digest, Creds};
use lucisocks::bind::is_expected;
use lucisocks::connect::RELAY_BUF;
use lucisocks::error::{Error, ErrorKind};
use lucisocks::handshake::{judge, look_up, read_target, serve, Stage};
use lucisocks::net::{first_address, Net, Outbound};
use lucisocks::session::{Action, Event, Phase, Session, UdpRole};
use lucisocks::wire::socks_reply;

type Reply = Action<Vec<u8>, String>;

fn v4(ip: [u8; 4], port: u16) -> SocketAddr {
    SocketAddr::new(IpAddr::V4(ip), port)
}

fn err(kind: ErrorKind) -> Error {
    Error::from(kind)
}

/// A session that is fed one event after another.
struct Client {
    session: Option<Session<Vec<u8>>>,
}

impl Client {
    fn new(net: Net, creds: Creds) -> Client {
        let (session, action) = Session::new(net, creds);
        assert!(matches!(action, Action::Read(2)));
        Client {
            session: Some(session),
        }
    }

    fn tell(&mut self, event: Event<&[u8]>) -> Reply {
        let (session, action) = self.session.take().unwrap().step(event);
        self.session = Some(session);
        action
    }

    fn says(&mut self, bytes: &[u8]) -> Reply {
        self.tell(Event::Read(bytes))
    }

    /// A client of an open server that may make its request.
    fn welcome(net: Net) -> Client {
        let mut c = Client::new(net, None);
        reads(c.says(&[5, 1]), 1);
        writes(c.says(&[0]), &[5, 0]);
        reads(c.tell(Event::Written), 4);
        c
    }

    /// A client that has asked for a service at `10.0.0.9:80`.
    fn asking(net: Net, cmd: u8) -> (Client, Reply) {
        let mut c = Client::welcome(net);
        reads(c.says(&[5, cmd, 0, 1]), 6);
        let action = c.says(&[10, 0, 0, 9, 0, 80]);
        (c, action)
    }

    /// A client whose datagrams are relayed, and that announced `port` on any
    /// address.
    fn relayed(requested: [u8; 6]) -> Client {
        let mut c = Client::welcome(Net::Os);
        reads(c.says(&[5, 3, 0, 1]), 6);
        assert!(matches!(c.says(&requested), Action::LocalAddr));
        c.tell(Event::Addr(v4([192, 168, 0, 1], 1338)));
        c.tell(Event::Addr(v4([192, 168, 0, 1], 40000)));
        c.tell(Event::Written);
        c.tell(Event::Bound);
        waits(c.tell(Event::Bound));
        c
    }

    fn datagram(&mut self, socket: UdpRole, src: SocketAddr, data: &[u8]) -> Reply {
        self.tell(Event::Datagram { socket, src, data })
    }
}

fn reads(action: Reply, n: usize) {
    assert!(matches!(action, Action::Read(m) if m == n));
}

fn writes(action: Reply, bytes: &[u8]) {
    match action {
        Action::Write(msg) => assert_eq!(msg, bytes),
        other => panic!("{other:?}"),
    }
}

fn waits(action: Reply) {
    assert!(matches!(action, Action::Wait));
}

fn sends(action: Reply, from: UdpRole, dest: SocketAddr, bytes: &[u8]) {
    match action {
        Action::Send { socket, to, data } => {
            assert_eq!(socket, from);
            assert_eq!(to, dest);
            assert_eq!(data, bytes);
        }
        other => panic!("{other:?}"),
    }
}

fn closes(action: Reply, expected: Result<(), Error>) {
    match action {
        Action::Close(result) => assert_eq!(result, expected),
        other => panic!("{other:?}"),
    }
}

#[test]
fn an_open_server_takes_a_request_at_once() {
    Client::welcome(Net::Os);
}

#[test]
fn the_right_password_is_let_in() {
    let mut c = Client::new(Net::Os, Some(password_digest(b"luci", b"secret")));
    reads(c.says(&[5, 2]), 2);
    writes(c.says(&[0, 2]), &[5, 2]);
    reads(c.tell(Event::Written), 2);
    reads(c.says(&[1, 4]), 5);
    reads(c.says(b"luci\x06"), 6);
    writes(c.says(b"secret"), &[1, 0]);
    reads(c.tell(Event::Written), 4);
}

#[test]
fn a_wrong_password_is_turned_away() {
    let mut c = Client::new(Net::Os, Some(password_digest(b"luci", b"secret")));
    reads(c.says(&[5, 1]), 1);
    writes(c.says(&[2]), &[5, 2]);
    reads(c.tell(Event::Written), 2);
    reads(c.says(&[1, 0]), 1);
    reads(c.says(&[0]), 0);
    writes(c.says(&[]), &[1, 1]);
    closes(
        c.tell(Event::Written),
        Err(err(ErrorKind::PermissionDenied)),
    );
}

#[test]
fn only_the_digest_decides() {
    let expect = password_digest(b"a", b"b");
    let (phase, action) = judge(&expect, &expect);
    assert!(matches!(
        phase,
        Phase::Handshake(Stage::Verdict { granted: true })
    ));
    writes(action, &[1, 0]);
    let (phase, action) = judge(&[0; 32], &expect);
    assert!(matches!(
        phase,
        Phase::Handshake(Stage::Verdict { granted: false })
    ));
    writes(action, &[1, 1]);
}

#[test]
fn a_client_without_the_method_is_told_so() {
    let mut c = Client::new(Net::Os, Some([7; 32]));
    reads(c.says(&[5, 1]), 1);
    writes(c.says(&[0]), &[5, 0xFF]);
    closes(c.tell(Event::Written), Ok(()));

    let mut c = Client::new(Net::Os, None);
    reads(c.says(&[5, 0]), 0);
    writes(c.says(&[]), &[5, 0xFF]);
    closes(c.tell(Event::Written), Ok(()));
}

#[test]
fn wrong_versions_are_unsupported() {
    let mut c = Client::new(Net::Os, None);
    closes(c.says(&[4, 1]), Err(err(ErrorKind::Unsupported)));

    let mut c = Client::new(Net::Os, Some([7; 32]));
    c.says(&[5, 1]);
    c.says(&[2]);
    c.tell(Event::Written);
    closes(c.says(&[5, 1]), Err(err(ErrorKind::Unsupported)));

    let mut c = Client::welcome(Net::Os);
    closes(c.says(&[4, 1, 0, 1]), Err(err(ErrorKind::Unsupported)));
}

#[test]
fn unknown_commands_and_address_types_are_unsupported() {
    let mut c = Client::welcome(Net::Os);
    closes(c.says(&[5, 1, 0, 2]), Err(err(ErrorKind::Unsupported)));
    let (_, action) = Client::asking(Net::Os, 9);
    closes(action, Err(err(ErrorKind::Unsupported)));
    let (_, action) = serve(0, v4([1, 1, 1, 1], 1));
    closes(action, Err(err(ErrorKind::Unsupported)));
}

#[test]
fn a_host_name_is_looked_up() {
    let mut c = Client::welcome(Net::Os);
    reads(c.says(&[5, 1, 0, 3]), 1);
    reads(c.says(&[11]), 13);
    match c.says(b"example.org\x01\xbb") {
        Action::Lookup { host, port } => {
            assert_eq!(host, "example.org");
            assert_eq!(port, 443);
        }
        other => panic!("{other:?}"),
    }
    let found = v4([93, 184, 215, 14], 443);
    let other = v4([10, 0, 0, 9], 443);
    let action = c.tell(Event::Resolved(Ok(vec![found, other])));
    assert!(matches!(action, Action::Connect(a) if a == found));
}

#[test]
fn a_host_name_that_is_not_utf8_is_patched_up() {
    let mut c = Client::welcome(Net::Os);
    reads(c.says(&[5, 1, 0, 3]), 1);
    reads(c.says(&[3]), 5);
    match c.says(&[b'a', 0xFF, b'b', 0, 80]) {
        Action::Lookup { host, port } => {
            assert_eq!(host, "a\u{fffd}b");
            assert_eq!(port, 80);
        }
        other => panic!("{other:?}"),
    }
    let (_, action) = look_up(1, "b".to_string(), 5);
    assert!(matches!(action, Action::Lookup { host, port: 5 } if host == "b"));
}

#[test]
fn the_longest_name_takes_257_bytes() {
    let mut c = Client::welcome(Net::Os);
    reads(c.says(&[5, 1, 0, 3]), 1);
    reads(c.says(&[255]), 257);
    let mut bytes = vec![b'a'; 257];
    bytes[255] = 0;
    bytes[256] = 80;
    match c.says(&bytes) {
        Action::Lookup { host, port } => {
            assert_eq!(host.len(), 255);
            assert_eq!(port, 80);
        }
        other => panic!("{other:?}"),
    }
}

#[test]
fn a_host_without_address_is_unreachable() {
    for (found, kind) in [
        (Ok(vec![]), ErrorKind::HostUnreachable),
        (Err(err(ErrorKind::TimedOut)), ErrorKind::TimedOut),
    ] {
        let mut c = Client::welcome(Net::Os);
        c.says(&[5, 1, 0, 3]);
        c.says(&[0]);
        c.says(&[0, 80]);
        closes(c.tell(Event::Resolved(found)), Err(err(kind)));
    }
}

#[test]
fn the_first_address_of_a_host_counts() {
    let first = v4([1, 2, 3, 4], 5);
    let second = SocketAddr::new(IpAddr::V6([1; 16]), 5);
    assert_eq!(first_address(Ok(vec![first, second])), Ok(first));
    assert_eq!(first_address(Ok(vec![second, first])), Ok(second));
    assert_eq!(
        first_address(Ok(vec![])),
        Err(err(ErrorKind::HostUnreachable))
    );
    assert_eq!(
        first_address(Err(err(ErrorKind::TimedOut))),
        Err(err(ErrorKind::TimedOut))
    );
}

#[test]
fn the_address_type_decides_how_much_is_read() {
    let (_, action) = read_target(1, 1);
    reads(action, 6);
    let (_, action) = read_target(1, 4);
    reads(action, 18);
    let (_, action) = read_target(1, 3);
    reads(action, 1);
    let (_, action) = read_target(1, 2);
    closes(action, Err(err(ErrorKind::Unsupported)));
}

#[test]
fn a_replied_address_is_read_as_a_target() {
    let scoped = SocketAddr::V6 {
        ip: [0xfe; 16],
        port: 443,
        flowinfo: 1,
        scope_id: 2,
    };
    for (bound, plain) in [
        (v4([10, 0, 0, 9], 80), v4([10, 0, 0, 9], 80)),
        (scoped, SocketAddr::new(IpAddr::V6([0xfe; 16]), 443)),
    ] {
        let msg = socks_reply(5, bound);
        let mut c = Client::welcome(Net::Os);
        reads(c.says(&[5, 1, 0, msg[3]]), msg.len() - 4);
        let action = c.says(&msg[4..]);
        assert!(matches!(action, Action::Connect(a) if a == plain));
    }
}

#[test]
fn an_ipv6_target_is_read() {
    let mut c = Client::welcome(Net::Os);
    reads(c.says(&[5, 1, 0, 4]), 18);
    let mut bytes = vec![0x20, 1, 0xd, 0xb8];
    bytes.extend_from_slice(&[0; 11]);
    bytes.extend_from_slice(&[7, 0, 22]);
    let mut ip = [0u8; 16];
    ip.copy_from_slice(&bytes[..16]);
    let action = c.says(&bytes);
    assert!(matches!(action, Action::Connect(a) if a == SocketAddr::new(IpAddr::V6(ip), 22)));
}

#[test]
fn a_failure_ends_the_session() {
    let mut c = Client::new(Net::Os, None);
    let e = Error {
        kind: ErrorKind::Other,
        message: Some("reset".to_string()),
    };
    match c.tell(Event::Failed(e)) {
        Action::Close(Err(e)) => assert_eq!(e.message, Some("reset".to_string())),
        other => panic!("{other:?}"),
    }
    assert!(matches!(c.session.unwrap().phase, Phase::Closed));
}

#[test]
fn a_connection_is_confirmed_and_relayed() {
    assert_eq!(RELAY_BUF, 64 << 10);
    let (mut c, action) = Client::asking(Net::Os, 1);
    assert!(matches!(action, Action::Connect(a) if a == v4([10, 0, 0, 9], 80)));
    let local = v4([10, 0, 0, 1], 50000);
    writes(c.tell(Event::Addr(local)), &socks_reply(0, local));
    let action = c.tell(Event::Written);
    assert!(matches!(
        action,
        Action::Relay {
            buffer: Some(65536)
        }
    ));
    closes(c.tell(Event::Relayed), Ok(()));
}

#[test]
fn a_failed_connection_is_reported() {
    let (mut c, _) = Client::asking(Net::Os, 1);
    writes(
        c.tell(Event::Refused(err(ErrorKind::ConnectionRefused))),
        &[5, 5, 0, 1, 10, 0, 0, 9, 0, 80],
    );
    closes(c.tell(Event::Written), Ok(()));

    let (mut c, _) = Client::asking(Net::Os, 1);
    closes(
        c.tell(Event::Failed(err(ErrorKind::Other))),
        Err(err(ErrorKind::Other)),
    );
}

#[test]
fn peers_are_screened() {
    let expected = IpAddr::V4([10, 0, 0, 9]);
    assert!(is_expected(&expected, &v4([10, 0, 0, 9], 1)));
    assert!(!is_expected(&expected, &v4([10, 0, 0, 8], 1)));
    assert!(is_expected(&IpAddr::V4([0; 4]), &v4([10, 0, 0, 8], 1)));
    assert!(is_expected(&IpAddr::V6([0; 16]), &v4([10, 0, 0, 8], 1)));
}

#[test]
fn a_bind_waits_for_the_expected_peer() {
    let (mut c, action) = Client::asking(Net::Os, 2);
    assert!(matches!(action, Action::LocalAddr));
    let action = c.tell(Event::Addr(v4([192, 168, 0, 1], 1338)));
    assert!(matches!(action, Action::Listen(a) if a == v4([192, 168, 0, 1], 0)));
    let listener = v4([192, 168, 0, 1], 40000);
    writes(c.tell(Event::Addr(listener)), &socks_reply(0, listener));
    assert!(matches!(c.tell(Event::Written), Action::Accept));
    for last in [8, 7, 8] {
        let action = c.tell(Event::Accepted(v4([10, 0, 0, last], 7)));
        assert!(matches!(action, Action::Accept));
    }
    let peer = v4([10, 0, 0, 9], 7);
    writes(c.tell(Event::Accepted(peer)), &socks_reply(0, peer));
    let action = c.tell(Event::Written);
    assert!(matches!(action, Action::Relay { buffer: None }));
    closes(c.tell(Event::Relayed), Ok(()));
}

#[test]
fn a_failed_bind_is_reported() {
    let (mut c, _) = Client::asking(Net::Os, 2);
    c.tell(Event::Addr(v4([192, 168, 0, 1], 1338)));
    writes(
        c.tell(Event::Refused(err(ErrorKind::PermissionDenied))),
        &[5, 2, 0, 1, 0, 0, 0, 0, 0, 0],
    );
    closes(c.tell(Event::Written), Ok(()));

    let (mut c, _) = Client::asking(Net::Os, 2);
    c.tell(Event::Addr(v4([192, 168, 0, 1], 1338)));
    c.tell(Event::Addr(v4([192, 168, 0, 1], 40000)));
    c.tell(Event::Written);
    writes(
        c.tell(Event::Refused(err(ErrorKind::Other))),
        &[5, 1, 0, 1, 0, 0, 0, 0, 0, 0],
    );
    closes(c.tell(Event::Written), Ok(()));
}

#[test]
fn outgoing_sockets_use_any_address_or_the_device() {
    assert!(matches!(
        Net::Os.outbound_addr(false),
        Outbound::Addr(a) if a == unspecified_addr(false)
    ));
    assert!(matches!(
        Net::Os.outbound_addr(true),
        Outbound::Addr(a) if a == unspecified_addr(true)
    ));
    assert!(matches!(Net::Tailnet.outbound_addr(true), Outbound::Device));
}

#[test]
fn a_relay_is_set_up() {
    assert_eq!(UDP_BUF, 65_535);
    let (mut c, action) = Client::asking(Net::Os, 3);
    assert!(matches!(action, Action::LocalAddr));
    match c.tell(Event::Addr(v4([192, 168, 0, 1], 1338))) {
        Action::BindUdp { socket, addr } => {
            assert_eq!(socket, UdpRole::Relay);
            assert_eq!(addr, v4([192, 168, 0, 1], 0));
        }
        other => panic!("{other:?}"),
    }
    let relay = v4([192, 168, 0, 1], 40000);
    writes(c.tell(Event::Addr(relay)), &socks_reply(0, relay));
    match c.tell(Event::Written) {
        Action::BindUdp { socket, addr } => {
            assert_eq!(socket, UdpRole::Out4);
            assert_eq!(addr, unspecified_addr(false));
        }
        other => panic!("{other:?}"),
    }
    match c.tell(Event::Bound) {
        Action::BindUdp { socket, addr } => {
            assert_eq!(socket, UdpRole::Out6);
            assert_eq!(addr, unspecified_addr(true));
        }
        other => panic!("{other:?}"),
    }
    waits(c.tell(Event::Bound));
}

#[test]
fn a_relay_on_a_tailnet_uses_the_device() {
    let (mut c, _) = Client::asking(Net::Tailnet, 3);
    c.tell(Event::Addr(v4([100, 64, 0, 1], 2001)));
    c.tell(Event::Addr(v4([100, 64, 0, 1], 40000)));
    let action = c.tell(Event::Written);
    assert!(matches!(action, Action::DeviceIp { v6: false }));
    match c.tell(Event::DeviceIp(IpAddr::V4([100, 64, 0, 1]))) {
        Action::BindUdp { socket, addr } => {
            assert_eq!(socket, UdpRole::Out4);
            assert_eq!(addr, v4([100, 64, 0, 1], 0));
        }
        other => panic!("{other:?}"),
    }
    let action = c.tell(Event::Bound);
    assert!(matches!(action, Action::DeviceIp { v6: true }));
    match c.tell(Event::DeviceIp(IpAddr::V6([0xfd; 16]))) {
        Action::BindUdp { socket, addr } => {
            assert_eq!(socket, UdpRole::Out6);
            assert_eq!(addr, SocketAddr::new(IpAddr::V6([0xfd; 16]), 0));
        }
        other => panic!("{other:?}"),
    }
    waits(c.tell(Event::Bound));
}

#[test]
fn the_first_fitting_sender_is_the_client() {
    let mut lock = None;
    let requested = v4([10, 0, 0, 2], 1000);
    let stranger = v4([10, 0, 0, 3], 1000);
    assert!(!accept_client(&mut lock, requested, stranger));
    assert_eq!(lock, None);
    assert!(accept_client(&mut lock, requested, requested));
    assert_eq!(lock, Some(requested));
    assert!(!accept_client(&mut lock, requested, stranger));
    assert_eq!(lock, Some(requested));

    let mut lock = None;
    assert!(accept_client(&mut lock, v4([10, 0, 0, 2], 0), stranger));
    assert_eq!(lock, Some(stranger));
    let mut lock = None;
    assert!(accept_client(&mut lock, v4([0; 4], 9), stranger));
    assert!(!accept_client(&mut lock, v4([0; 4], 9), requested));
    assert_eq!(lock, Some(stranger));
}

#[test]
fn datagrams_go_out_and_come_back() {
    let mut c = Client::relayed([0; 6]);
    let client = v4([10, 0, 0, 2], 5000);
    let server = v4([8, 8, 8, 8], 53);
    waits(c.datagram(UdpRole::Out4, server, b"early"));
    let action = c.datagram(UdpRole::Relay, client, b"\0\0\0\x01\x08\x08\x08\x08\0\x35query");
    sends(action, UdpRole::Out4, server, b"query");
    waits(c.tell(Event::Sent));
    let action = c.datagram(UdpRole::Out4, server, b"answer");
    sends(
        action,
        UdpRole::Relay,
        client,
        b"\0\0\0\x01\x08\x08\x08\x08\0\x35answer",
    );
    waits(c.tell(Event::Sent));
}

#[test]
fn ipv6_datagrams_use_the_ipv6_socket() {
    let mut c = Client::relayed([0; 6]);
    let client = v4([10, 0, 0, 2], 5000);
    let mut datagram = vec![0, 0, 0, 4];
    datagram.extend_from_slice(&[0x20; 16]);
    datagram.extend_from_slice(&[0, 53, 1]);
    let to = SocketAddr::new(IpAddr::V6([0x20; 16]), 53);
    sends(
        c.datagram(UdpRole::Relay, client, &datagram),
        UdpRole::Out6,
        to,
        &[1],
    );
}

#[test]
fn datagrams_for_hosts_wait_for_the_lookup() {
    let mut c = Client::relayed([0; 6]);
    let client = v4([10, 0, 0, 2], 5000);
    for found in [
        Ok(vec![]),
        Err(err(ErrorKind::Other)),
        Ok(vec![v4([8, 8, 8, 8], 53), v4([9, 9, 9, 9], 53)]),
    ] {
        match c.datagram(UdpRole::Relay, client, b"\0\0\0\x03\x03dns\0\x35query") {
            Action::Lookup { host, port } => {
                assert_eq!(host, "dns");
                assert_eq!(port, 53);
            }
            other => panic!("{other:?}"),
        }
        let known = matches!(&found, Ok(addrs) if !addrs.is_empty());
        let action = c.tell(Event::Resolved(found));
        if known {
            sends(action, UdpRole::Out4, v4([8, 8, 8, 8], 53), b"query");
        } else {
            waits(action);
        }
    }
}

#[test]
fn strangers_fragments_and_garbage_are_dropped() {
    let mut c = Client::relayed([10, 0, 0, 2, 0x13, 0x88]);
    let client = v4([10, 0, 0, 2], 5000);
    let stranger = v4([10, 0, 0, 3], 5000);
    let good = b"\0\0\0\x01\x08\x08\x08\x08\0\x35query";
    waits(c.datagram(UdpRole::Relay, stranger, good));
    waits(c.datagram(UdpRole::Relay, client, b"\0\0\x01\x01\x08\x08\x08\x08\0\x35query"));
    waits(c.datagram(UdpRole::Relay, client, b"\0\0\0"));
    waits(c.datagram(UdpRole::Relay, stranger, good));
    let action = c.datagram(UdpRole::Relay, client, good);
    sends(action, UdpRole::Out4, v4([8, 8, 8, 8], 53), b"query");
}

#[test]
fn the_relay_ends_with_the_connection() {
    let mut c = Client::relayed([0; 6]);
    waits(c.tell(Event::Control(Ok(3))));
    closes(c.tell(Event::Control(Ok(0))), Ok(()));

    let mut c = Client::relayed([0; 6]);
    closes(c.tell(Event::Control(Err(err(ErrorKind::Other)))), Ok(()));

    let mut c = Client::relayed([0; 6]);
    closes(
        c.tell(Event::Failed(err(ErrorKind::Other))),
        Err(err(ErrorKind::Other)),
    );
}
