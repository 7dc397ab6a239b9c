use lucisocks::addr::{unspecified_addr, IpAddr, SocketAddr};
use lucisocks::error::{io_err, reply_for_error, Error, ErrorKind};
use lucisocks::wire::{
    build_udp_header, forward_to_client, parse_udp_header, read_port, read_v4, read_v6,
    socks_reply, UdpDest,
};

fn v4(ip: [u8; 4], port: u16) -> SocketAddr {
    SocketAddr::new(IpAddr::V4(ip), port)
}

const LOOPBACK6: [u8; 16] = [0, 0, 0, 0, 0, 0, 0, 0, 0, 0, 0, 0, 0, 0, 0, 1];

#[test]
fn each_kind_of_error_has_its_reply_code() {
    let cases = [
        (ErrorKind::ConnectionRefused, 5),
        (ErrorKind::TimedOut, 4),
        (ErrorKind::HostUnreachable, 4),
        (ErrorKind::NetworkUnreachable, 3),
        (ErrorKind::PermissionDenied, 2),
        (ErrorKind::Unsupported, 1),
        (ErrorKind::InvalidData, 1),
        (ErrorKind::Other, 1),
    ];
    for (kind, rep) in cases {
        assert_eq!(reply_for_error(&Error::from(kind)), rep);
    }
}

#[test]
fn io_err_keeps_the_text() {
    let e = io_err(format!("port {}", 7));
    assert_eq!(e.kind, ErrorKind::Other);
    assert_eq!(e.message, Some("port 7".to_string()));
    assert_eq!(io_err(42).message, Some("42".to_string()));
    assert_eq!(reply_for_error(&e), 1);
}

#[test]
fn unspecified_addresses_are_all_zero() {
    assert!(IpAddr::V4([0, 0, 0, 0]).is_unspecified());
    assert!(IpAddr::V6([0; 16]).is_unspecified());
    assert!(!IpAddr::V4([0, 0, 0, 1]).is_unspecified());
    assert!(!IpAddr::V6(LOOPBACK6).is_unspecified());
    assert!(unspecified_addr(false).ip().is_unspecified());
    assert!(unspecified_addr(true).ip().is_unspecified());
    assert!(unspecified_addr(false).is_ipv4());
    assert!(!unspecified_addr(true).is_ipv4());
    assert_eq!(unspecified_addr(true).port(), 0);
}

#[test]
fn socket_addresses_are_compared_whole() {
    let a = SocketAddr::new(IpAddr::V6(LOOPBACK6), 80);
    let b = SocketAddr::V6 {
        ip: LOOPBACK6,
        port: 80,
        flowinfo: 0,
        scope_id: 3,
    };
    assert_ne!(a, b);
    assert_eq!(a.ip(), b.ip());
    assert_eq!(v4([10, 0, 0, 1], 1), v4([10, 0, 0, 1], 1));
    assert_ne!(v4([10, 0, 0, 1], 1), v4([10, 0, 0, 1], 2));
    assert_ne!(v4([10, 0, 0, 1], 1), v4([10, 0, 0, 2], 1));
    assert_ne!(IpAddr::V4([0, 0, 0, 0]), IpAddr::V6([0; 16]));
}

#[test]
fn replies_carry_code_and_address() {
    assert_eq!(
        socks_reply(0, v4([127, 0, 0, 1], 1338)),
        vec![5, 0, 0, 1, 127, 0, 0, 1, 5, 58]
    );
    let mut expected = vec![5, 4, 0, 4];
    expected.extend_from_slice(&LOOPBACK6);
    expected.extend_from_slice(&[0xFF, 0xFE]);
    assert_eq!(
        socks_reply(4, SocketAddr::new(IpAddr::V6(LOOPBACK6), 0xFFFE)),
        expected
    );
}

#[test]
fn targets_are_read_from_octets_and_port() {
    assert_eq!(read_v4(&[10, 1, 2, 3, 1, 187]), v4([10, 1, 2, 3], 443));
    let mut b = LOOPBACK6.to_vec();
    b.extend_from_slice(&[0, 53]);
    assert_eq!(read_v6(&b), SocketAddr::new(IpAddr::V6(LOOPBACK6), 53));
    assert_eq!(read_port(&[7, 7, 0x12, 0x34]), 0x1234);
}

#[test]
fn headers_are_appended() {
    let mut out = vec![9];
    build_udp_header(v4([1, 2, 3, 4], 258), &mut out);
    assert_eq!(out, vec![9, 0, 0, 0, 1, 1, 2, 3, 4, 1, 2]);
}

#[test]
fn a_forwarded_datagram_replaces_the_scratch() {
    let mut scratch = vec![1, 2, 3];
    forward_to_client(v4([1, 2, 3, 4], 258), b"hi", &mut scratch);
    assert_eq!(scratch, vec![0, 0, 0, 1, 1, 2, 3, 4, 1, 2, b'h', b'i']);
    let (frag, dest, len) = parse_udp_header(&scratch).unwrap();
    assert_eq!(frag, 0);
    assert_eq!(len, 10);
    assert_eq!(&scratch[len..], b"hi");
    assert!(matches!(dest, UdpDest::Addr(a) if a == v4([1, 2, 3, 4], 258)));
}

#[test]
fn ipv6_headers_round_trip_without_scope() {
    let src = SocketAddr::V6 {
        ip: LOOPBACK6,
        port: 5353,
        flowinfo: 1,
        scope_id: 2,
    };
    let mut datagram = Vec::new();
    forward_to_client(src, &[], &mut datagram);
    assert_eq!(datagram.len(), 22);
    let (_, dest, len) = parse_udp_header(&datagram).unwrap();
    assert_eq!(len, 22);
    let plain = SocketAddr::new(IpAddr::V6(LOOPBACK6), 5353);
    assert!(matches!(dest, UdpDest::Addr(a) if a == plain));
}

#[test]
fn host_names_are_read_from_headers() {
    let mut datagram = vec![0xAA, 0xBB, 7, 3, 12];
    datagram.extend_from_slice("ex\u{e4}mple.org".as_bytes());
    datagram.extend_from_slice(&[0, 53, 1, 2]);
    let (frag, dest, len) = parse_udp_header(&datagram).unwrap();
    assert_eq!(frag, 7);
    assert_eq!(len, 19);
    match dest {
        UdpDest::Domain(host, port) => {
            assert_eq!(host, "ex\u{e4}mple.org");
            assert_eq!(port, 53);
        }
        UdpDest::Addr(_) => panic!("an address"),
    }
}

#[test]
fn an_empty_host_name_is_read() {
    let (_, dest, len) = parse_udp_header(&[0, 0, 0, 3, 0, 1, 0]).unwrap();
    assert_eq!(len, 7);
    assert!(matches!(dest, UdpDest::Domain(host, 256) if host.is_empty()));
}

#[test]
fn unreadable_headers_are_invalid_data() {
    let cases: [&[u8]; 11] = [
        &[],
        &[0, 0, 0],
        &[0, 0, 0, 1],
        &[0, 0, 0, 1, 1, 2, 3, 4, 0],
        &[0, 0, 0, 4, 0, 0, 0, 0, 0, 0, 0, 0, 0, 0, 0, 0, 0, 0, 0, 1, 0],
        &[0, 0, 0, 3],
        &[0, 0, 0, 3, 2, b'a', b'b', 0],
        &[0, 0, 0, 3, 2, 0xC3, 0x28, 0, 80],
        &[0, 0, 0, 0, 1, 2, 3, 4, 0, 80],
        &[0, 0, 0, 2, 1, 2, 3, 4, 0, 80],
        &[0, 0, 0, 255, 1, 2, 3, 4, 0, 80],
    ];
    for case in cases {
        let e = parse_udp_header(case).unwrap_err();
        assert_eq!(e, Error::from(ErrorKind::InvalidData));
    }
}
