//! The messages of the protocol, as bytes.
use crate::addr::{IpAddr, SocketAddr};
use crate::error::{plain_error, Error, ErrorKind};
use vstd::prelude::*;
use vstd::slice::slice_subrange;
use vstd::utf8::{decode_utf8, encode_utf8, valid_utf8};

verus! {

/// The version byte of every SOCKS5 message.
pub const SOCKS_VERSION: u8 = 0x05;

/// The version byte of the username/password exchange.
pub const USERPASS_VERSION: u8 = 0x01;

/// Authentication method: none.
pub const METHOD_NO_AUTH: u8 = 0x00;

/// Authentication method: username and password.
pub const METHOD_USERPASS: u8 = 0x02;

/// The server accepts none of the methods that the client offers.
pub const METHOD_NONE_ACCEPTABLE: u8 = 0xFF;

/// Address type: IPv4.
pub const ATYP_V4: u8 = 0x01;

/// Address type: host name.
pub const ATYP_FQDN: u8 = 0x03;

/// Address type: IPv6.
pub const ATYP_V6: u8 = 0x04;

/// Command: connect to the target.
pub const CMD_CONNECT: u8 = 0x01;

/// Command: wait for a connection from the target.
pub const CMD_BIND: u8 = 0x02;

/// Command: relay datagrams.
pub const CMD_UDP_ASSOCIATE: u8 = 0x03;

/// Where a datagram is to be sent. `S` is the type of a host name.
#[derive(Debug)]
pub enum UdpDest<S> {
    Addr(SocketAddr),
    Domain(S, u16),
}

impl<S: View> View for UdpDest<S> {
    type V = UdpDest<S::V>;

    open spec fn view(&self) -> UdpDest<S::V> {
        match self {
            UdpDest::Addr(a) => UdpDest::Addr(*a),
            UdpDest::Domain(host, port) => UdpDest::Domain(host@, *port),
        }
    }
}

/// A 16-bit number as two bytes, the high one first.
pub open spec fn be16(n: u16) -> Seq<u8> {
    seq![(n / 256) as u8, (n % 256) as u8]
}

/// The 16-bit number that two bytes stand for, the high one first.
pub open spec fn from_be16(hi: u8, lo: u8) -> u16 {
    (hi * 256 + lo) as u16
}

/// An address as it stands in a message: its type, its octets, its port.
pub open spec fn wire_addr(a: SocketAddr) -> Seq<u8> {
    let atyp = if a is V4 {
        ATYP_V4
    } else {
        ATYP_V6
    };
    seq![atyp] + a.spec_ip().octets() + be16(a.spec_port())
}

/// A destination as it stands in a message. A host name is preceded by its
/// length in bytes.
pub open spec fn wire_dest(dest: UdpDest<Seq<char>>) -> Seq<u8> {
    match dest {
        UdpDest::Addr(a) => wire_addr(a),
        UdpDest::Domain(host, port) => {
            let name = encode_utf8(host);
            seq![ATYP_FQDN, name.len() as u8] + name + be16(port)
        },
    }
}

/// The reply to a request: a code and the address that was bound.
pub open spec fn reply_message(rep: u8, bound: SocketAddr) -> Seq<u8> {
    seq![SOCKS_VERSION, rep, 0x00u8] + wire_addr(bound)
}

/// What precedes the payload of a datagram that came from `src`.
pub open spec fn udp_header(src: SocketAddr) -> Seq<u8> {
    seq![0x00u8, 0x00u8, 0x00u8] + wire_addr(src)
}

/// The first four bytes, as the octets of an IPv4 address.
pub open spec fn v4_octets(b: Seq<u8>) -> [u8; 4] {
    [b[0], b[1], b[2], b[3]]
}

/// The first sixteen bytes, as the octets of an IPv6 address.
pub open spec fn v6_octets(b: Seq<u8>) -> [u8; 16] {
    [
        b[0], b[1], b[2], b[3], b[4], b[5], b[6], b[7],
        b[8], b[9], b[10], b[11], b[12], b[13], b[14], b[15],
    ]
}

/// The IPv4 address and the port that six bytes stand for.
pub open spec fn v4_target(b: Seq<u8>) -> SocketAddr {
    SocketAddr::of(IpAddr::V4(v4_octets(b)), from_be16(b[4], b[5]))
}

/// The IPv6 address and the port that eighteen bytes stand for.
pub open spec fn v6_target(b: Seq<u8>) -> SocketAddr {
    SocketAddr::of(IpAddr::V6(v6_octets(b)), from_be16(b[16], b[17]))
}

/// What the header of a client's datagram says: the fragment number, the
/// destination, and the length of the header. `None` where the datagram is too
/// short, its address type is unknown or its host name is not UTF-8.
pub open spec fn read_udp_header(buf: Seq<u8>) -> Option<(u8, UdpDest<Seq<char>>, nat)> {
    if buf.len() < 4 {
        None
    } else if buf[3] == ATYP_V4 {
        if buf.len() < 10 {
            None
        } else {
            Some((buf[2], UdpDest::Addr(v4_target(buf.subrange(4, 10))), 10))
        }
    } else if buf[3] == ATYP_V6 {
        if buf.len() < 22 {
            None
        } else {
            Some((buf[2], UdpDest::Addr(v6_target(buf.subrange(4, 22))), 22))
        }
    } else if buf[3] == ATYP_FQDN {
        let end = 5 + buf[4] + 2;
        if buf.len() < 5 || buf.len() < end || !valid_utf8(buf.subrange(5, end - 2)) {
            None
        } else {
            let host = decode_utf8(buf.subrange(5, end - 2));
            let port = from_be16(buf[end - 2], buf[end - 1]);
            Some((buf[2], UdpDest::Domain(host, port), end as nat))
        }
    } else {
        None
    }
}

/// Appends bytes to a message.
fn append(out: &mut Vec<u8>, bytes: &[u8])
    ensures
        final(out)@ == old(out)@ + bytes@,
{
    let ghost before = out@;
    out.extend_from_slice(bytes);
    assert(out@ =~= before + bytes@);
}

/// Appends an address to a message.
fn append_addr(a: &SocketAddr, out: &mut Vec<u8>)
    ensures
        final(out)@ == old(out)@ + wire_addr(*a),
{
    let ghost before = out@;
    match a {
        SocketAddr::V4 { ip, port } => {
            out.push(ATYP_V4);
            append(out, ip.as_slice());
            out.push((*port / 256) as u8);
            out.push((*port % 256) as u8);
        },
        SocketAddr::V6 { ip, port, .. } => {
            out.push(ATYP_V6);
            append(out, ip.as_slice());
            out.push((*port / 256) as u8);
            out.push((*port % 256) as u8);
        },
    }
    assert(out@ =~= before + wire_addr(*a));
}

/// The reply to a request: a code and the address that was bound.
pub fn socks_reply(rep: u8, bound: SocketAddr) -> (msg: Vec<u8>)
    ensures
        msg@ == reply_message(rep, bound),
{
    let mut msg: Vec<u8> = vec![SOCKS_VERSION, rep, 0x00];
    append_addr(&bound, &mut msg);
    assert(msg@ =~= reply_message(rep, bound));
    msg
}

/// Appends the header of a datagram that came from `src`.
pub fn build_udp_header(src: SocketAddr, out: &mut Vec<u8>)
    ensures
        final(out)@ == old(out)@ + udp_header(src),
{
    let ghost before = out@;
    out.push(0x00);
    out.push(0x00);
    out.push(0x00);
    append_addr(&src, out);
    assert(out@ =~= before + udp_header(src));
}

/// Makes `scratch` the datagram that carries `payload`, received from `src`, to
/// the client.
pub fn forward_to_client(src: SocketAddr, payload: &[u8], scratch: &mut Vec<u8>)
    ensures
        final(scratch)@ == udp_header(src) + payload@,
{
    scratch.clear();
    build_udp_header(src, scratch);
    append(scratch, payload);
    assert(scratch@ =~= udp_header(src) + payload@);
}

/// The 16-bit number that two bytes stand for, the high one first.
fn read_be16(hi: u8, lo: u8) -> (n: u16)
    ensures
        n == from_be16(hi, lo),
{
    hi as u16 * 256 + lo as u16
}

/// The IPv4 address and the port that six bytes stand for.
pub fn read_v4(b: &[u8]) -> (a: SocketAddr)
    requires
        b@.len() == 6,
    ensures
        a == v4_target(b@),
{
    SocketAddr::new(IpAddr::V4([b[0], b[1], b[2], b[3]]), read_be16(b[4], b[5]))
}

/// The IPv6 address and the port that eighteen bytes stand for.
pub fn read_v6(b: &[u8]) -> (a: SocketAddr)
    requires
        b@.len() == 18,
    ensures
        a == v6_target(b@),
{
    let octets: [u8; 16] = [
        b[0], b[1], b[2], b[3], b[4], b[5], b[6], b[7],
        b[8], b[9], b[10], b[11], b[12], b[13], b[14], b[15],
    ];
    SocketAddr::new(IpAddr::V6(octets), read_be16(b[16], b[17]))
}

/// The port at the end of a message that names a host.
pub fn read_port(b: &[u8]) -> (port: u16)
    requires
        b@.len() >= 2,
    ensures
        port == from_be16(b@[b@.len() - 2], b@[b@.len() - 1]),
{
    let len = b.len();
    read_be16(b[len - 2], b[len - 1])
}

/// Reads the header of a client's datagram: the fragment number, the destination
/// and the length of the header. Fails with `InvalidData` where there is no
/// readable header.
pub fn parse_udp_header(buf: &[u8]) -> (r: Result<(u8, UdpDest<String>, usize), Error>)
    ensures
        match r {
            Ok(h) => read_udp_header(buf@) == Some((h.0, h.1@, h.2 as nat)),
            Err(e) => read_udp_header(buf@) is None && e == plain_error(ErrorKind::InvalidData),
        },
{
    if buf.len() < 4 {
        return Err(Error::from(ErrorKind::InvalidData));
    }
    let frag = buf[2];
    let atyp = buf[3];
    if atyp == ATYP_V4 {
        let end: usize = 4 + 4 + 2;
        if buf.len() < end {
            return Err(Error::from(ErrorKind::InvalidData));
        }
        Ok((frag, UdpDest::Addr(read_v4(slice_subrange(buf, 4, end))), end))
    } else if atyp == ATYP_V6 {
        let end: usize = 4 + 16 + 2;
        if buf.len() < end {
            return Err(Error::from(ErrorKind::InvalidData));
        }
        Ok((frag, UdpDest::Addr(read_v6(slice_subrange(buf, 4, end))), end))
    } else if atyp == ATYP_FQDN {
        if buf.len() < 5 {
            return Err(Error::from(ErrorKind::InvalidData));
        }
        let dlen = buf[4] as usize;
        let end: usize = 5 + dlen + 2;
        if buf.len() < end {
            return Err(Error::from(ErrorKind::InvalidData));
        }
        match std::str::from_utf8(slice_subrange(buf, 5, 5 + dlen)) {
            Ok(host) => {
                let port = read_be16(buf[end - 2], buf[end - 1]);
                Ok((frag, UdpDest::Domain(host.to_owned(), port), end))
            },
            Err(_) => Err(Error::from(ErrorKind::InvalidData)),
        }
    } else {
        Err(Error::from(ErrorKind::InvalidData))
    }
}

/// Whether a destination can stand in a message: any address can, and a host name
/// of at most 255 bytes.
pub open spec fn sendable(dest: UdpDest<Seq<char>>) -> bool {
    match dest {
        UdpDest::Addr(_) => true,
        UdpDest::Domain(host, _) => encode_utf8(host).len() <= 255,
    }
}

/// A destination as a message carries it: an address loses its flow label and its
/// scope.
pub open spec fn carried(dest: UdpDest<Seq<char>>) -> UdpDest<Seq<char>> {
    match dest {
        UdpDest::Addr(a) => UdpDest::Addr(a.plain()),
        UdpDest::Domain(host, port) => UdpDest::Domain(host, port),
    }
}

/// Two bytes written for a number are read back as that number, and the other
/// way round.
pub proof fn law_be16_round_trip(n: u16, hi: u8, lo: u8)
    ensures
        from_be16(be16(n)[0], be16(n)[1]) == n,
        be16(from_be16(hi, lo)) == seq![hi, lo],
{
    assert(be16(from_be16(hi, lo)) =~= seq![hi, lo]);
}

/// An address is read back from its octets and port as it was written, but for
/// flow label and scope.
pub(crate) proof fn lemma_target_of_wire_addr(a: SocketAddr, rest: Seq<u8>)
    ensures
        a is V4 ==> v4_target((wire_addr(a) + rest).subrange(1, 7)) == a.plain(),
        a is V6 ==> v6_target((wire_addr(a) + rest).subrange(1, 19)) == a.plain(),
{
    law_be16_round_trip(a.spec_port(), 0, 0);
    match a {
        SocketAddr::V4 { ip, port } => {
            let b = (wire_addr(a) + rest).subrange(1, 7);
            assert(b =~= ip@ + be16(port));
            assert(v4_octets(b) =~= ip);
        },
        SocketAddr::V6 { ip, port, .. } => {
            let b = (wire_addr(a) + rest).subrange(1, 19);
            assert(b =~= ip@ + be16(port));
            assert(v6_octets(b) =~= ip);
        },
    }
}

/// A datagram whose header was written for a destination is read as one for that
/// destination (but for flow label and scope), whatever the reserved bytes and the
/// payload are.
pub proof fn law_header_is_read_as_written(
    rsv0: u8,
    rsv1: u8,
    frag: u8,
    dest: UdpDest<Seq<char>>,
    payload: Seq<u8>,
)
    requires
        sendable(dest),
    ensures
        read_udp_header(seq![rsv0, rsv1, frag] + wire_dest(dest) + payload) == Some(
            (frag, carried(dest), 3 + wire_dest(dest).len()),
        ),
{
    let buf = seq![rsv0, rsv1, frag] + wire_dest(dest) + payload;
    match dest {
        UdpDest::Addr(a) => {
            lemma_target_of_wire_addr(a, payload);
            let tail = wire_addr(a) + payload;
            if a is V4 {
                assert(buf.subrange(4, 10) =~= tail.subrange(1, 7));
            } else {
                assert(buf.subrange(4, 22) =~= tail.subrange(1, 19));
            }
        },
        UdpDest::Domain(host, port) => {
            let name = encode_utf8(host);
            law_be16_round_trip(port, 0, 0);
            vstd::utf8::encode_utf8_valid_utf8(host);
            vstd::utf8::encode_utf8_decode_utf8(host);
            let end = 5 + buf[4] + 2;
            assert(buf[4] == name.len());
            assert(buf.subrange(5, end - 2) =~= name);
            assert(buf[end - 2] == be16(port)[0]);
            assert(buf[end - 1] == be16(port)[1]);
        },
    }
}

/// A header that is read stands in the datagram as it would be written for the
/// destination that was read, and the payload follows it.
pub proof fn law_header_read_was_written(buf: Seq<u8>)
    ensures
        read_udp_header(buf) matches Some((frag, dest, len)) ==> {
            &&& sendable(dest)
            &&& dest == carried(dest)
            &&& 0 <= len <= buf.len()
            &&& buf.take(len as int) == seq![buf[0], buf[1], frag] + wire_dest(dest)
        },
{
    if let Some((frag, dest, len)) = read_udp_header(buf) {
        match dest {
            UdpDest::Addr(a) => {
                if buf[3] == ATYP_V4 {
                    let b = buf.subrange(4, 10);
                    law_be16_round_trip(0, b[4], b[5]);
                    assert(v4_octets(b)@ =~= b.take(4));
                } else {
                    let b = buf.subrange(4, 22);
                    law_be16_round_trip(0, b[16], b[17]);
                    assert(v6_octets(b)@ =~= b.take(16));
                }
                assert(buf.take(len as int) =~= seq![buf[0], buf[1], frag] + wire_dest(dest));
            },
            UdpDest::Domain(host, port) => {
                let name = buf.subrange(5, len - 2);
                vstd::utf8::decode_utf8_encode_utf8(name);
                law_be16_round_trip(0, buf[len - 2], buf[len - 1]);
                assert(buf.take(len as int) =~= seq![buf[0], buf[1], frag] + wire_dest(dest));
            },
        }
    }
}

/// A datagram that was forwarded to a client is read as unfragmented, with the
/// address it came from (but for flow label and scope), and its payload follows
/// the header unchanged.
pub proof fn law_forwarded_datagram_names_its_source(src: SocketAddr, payload: Seq<u8>)
    ensures
        ({
            let datagram = udp_header(src) + payload;
            let len = udp_header(src).len();
            &&& read_udp_header(datagram) == Some(
                (0u8, UdpDest::<Seq<char>>::Addr(src.plain()), len),
            )
            &&& datagram.skip(len as int) == payload
        }),
{
    law_header_is_read_as_written(0, 0, 0, UdpDest::Addr(src), payload);
    assert((udp_header(src) + payload).skip(udp_header(src).len() as int) =~= payload);
}

/// A reply is ten bytes long for an IPv4 address and twenty-two for an IPv6
/// address, and two replies are the same only for the same code, the same IP
/// address and the same port.
pub proof fn law_reply_is_unambiguous(rep1: u8, bound1: SocketAddr, rep2: u8, bound2: SocketAddr)
    ensures
        reply_message(rep1, bound1).len() == if bound1 is V4 {
            10nat
        } else {
            22nat
        },
        reply_message(rep1, bound1) == reply_message(rep2, bound2) <==> {
            &&& rep1 == rep2
            &&& bound1.spec_ip() == bound2.spec_ip()
            &&& bound1.spec_port() == bound2.spec_port()
        },
{
    let m1 = reply_message(rep1, bound1);
    let m2 = reply_message(rep2, bound2);
    if m1 == m2 {
        assert(m1[1] == rep1 && m2[1] == rep2);
        assert(m1[3] == wire_addr(bound1)[0] && m2[3] == wire_addr(bound2)[0]);
        lemma_target_of_wire_addr(bound1, seq![]);
        lemma_target_of_wire_addr(bound2, seq![]);
        assert(m1.skip(3) =~= wire_addr(bound1) + seq![]);
        assert(m2.skip(3) =~= wire_addr(bound2) + seq![]);
    }
}

/// Whether the bytes from `at` on are those of an address: the type of its family,
/// its octets in order, and its port with the high byte first.
pub open spec fn holds_addr(bytes: Seq<u8>, at: int, a: SocketAddr) -> bool {
    match a {
        SocketAddr::V4 { ip, port } => {
            &&& 0 <= at && at + 7 <= bytes.len()
            &&& bytes[at] == 1
            &&& forall|i: int| 0 <= i < 4 ==> bytes[at + 1 + i] == #[trigger] ip@[i]
            &&& port == 256 * bytes[at + 5] + bytes[at + 6]
        },
        SocketAddr::V6 { ip, port, .. } => {
            &&& 0 <= at && at + 19 <= bytes.len()
            &&& bytes[at] == 4
            &&& forall|i: int| 0 <= i < 16 ==> bytes[at + 1 + i] == #[trigger] ip@[i]
            &&& port == 256 * bytes[at + 17] + bytes[at + 18]
        },
    }
}

/// How many bytes an address takes in a message, with its type and its port.
pub open spec fn addr_len(a: SocketAddr) -> int {
    if a is V4 {
        7
    } else {
        19
    }
}

/// Whether an address has no flow label and no scope.
pub open spec fn is_bare(a: SocketAddr) -> bool {
    a matches SocketAddr::V6 { flowinfo, scope_id, .. } ==> flowinfo == 0 && scope_id == 0
}

/// Whether a message is the reply with the given code and address.
pub open spec fn is_reply(msg: Seq<u8>, rep: u8, a: SocketAddr) -> bool {
    &&& msg.len() == 3 + addr_len(a)
    &&& msg[0] == 5
    &&& msg[1] == rep
    &&& msg[2] == 0
    &&& holds_addr(msg, 3, a)
}

/// Whether a datagram is one that carries `data`, all of it and unchanged, behind a
/// header that names the source `src`.
pub open spec fn is_forwarded(datagram: Seq<u8>, src: SocketAddr, data: Seq<u8>) -> bool {
    let start = 3 + addr_len(src);
    &&& datagram.len() == start + data.len()
    &&& datagram[0] == 0 && datagram[1] == 0 && datagram[2] == 0
    &&& holds_addr(datagram, 3, src)
    &&& forall|i: int| 0 <= i < data.len() ==> datagram[start + i] == #[trigger] data[i]
}

/// The high byte of a number comes first, in writing and in reading.
pub proof fn law_numbers_are_big_endian(n: u16, hi: u8, lo: u8)
    ensures
        be16(n).len() == 2,
        256 * be16(n)[0] + be16(n)[1] == n,
        from_be16(hi, lo) == 256 * hi + lo,
{
}

/// The octets of an IPv4 address are read in the order in which they arrive, and the
/// port from the two bytes after them.
pub proof fn law_v4_octets_are_read_in_order(b: Seq<u8>)
    requires
        b.len() == 6,
    ensures
        match v4_target(b) {
            SocketAddr::V4 { ip, port } => {
                &&& forall|i: int| 0 <= i < 4 ==> #[trigger] ip@[i] == b[i]
                &&& port == 256 * b[4] + b[5]
            },
            SocketAddr::V6 { .. } => false,
        },
{
}

/// The octets of an IPv6 address are read in the order in which they arrive, and the
/// port from the two bytes after them. There is no flow label and no scope.
pub proof fn law_v6_octets_are_read_in_order(b: Seq<u8>)
    requires
        b.len() == 18,
    ensures
        match v6_target(b) {
            SocketAddr::V4 { .. } => false,
            SocketAddr::V6 { ip, port, flowinfo, scope_id } => {
                &&& forall|i: int| 0 <= i < 16 ==> #[trigger] ip@[i] == b[i]
                &&& port == 256 * b[16] + b[17]
                &&& flowinfo == 0
                &&& scope_id == 0
            },
        },
{
}

/// An address is written as its type, its octets in order and its port.
pub proof fn law_addresses_are_written_in_order(a: SocketAddr)
    ensures
        wire_addr(a).len() == addr_len(a),
        holds_addr(wire_addr(a), 0, a),
{
    law_numbers_are_big_endian(a.spec_port(), 0, 0);
}

/// An address that is written behind other bytes stands where they end.
proof fn lemma_addr_in_message(before: Seq<u8>, a: SocketAddr, after: Seq<u8>)
    ensures
        holds_addr(before + wire_addr(a) + after, before.len() as int, a),
{
    law_addresses_are_written_in_order(a);
    let wire = wire_addr(a);
    let msg = before + wire + after;
    let at = before.len() as int;
    assert forall|i: int| 0 <= i < wire.len() implies msg[at + i] == #[trigger] wire[i] by {}
    match a {
        SocketAddr::V4 { ip, .. } => {
            assert forall|i: int| 0 <= i < 4 implies msg[at + 1 + i] == #[trigger] ip@[i] by {
                assert(msg[at + (1 + i)] == wire[0 + 1 + i]);
            }
            assert(wire[5] == msg[at + 5] && wire[6] == msg[at + 6]);
        },
        SocketAddr::V6 { ip, .. } => {
            assert forall|i: int| 0 <= i < 16 implies msg[at + 1 + i] == #[trigger] ip@[i] by {
                assert(msg[at + (1 + i)] == wire[0 + 1 + i]);
            }
            assert(wire[17] == msg[at + 17] && wire[18] == msg[at + 18]);
        },
    }
}

/// A reply is the version, the code, a zero and the address, and nothing else.
pub proof fn law_replies_are_written_in_order(rep: u8, bound: SocketAddr)
    ensures
        is_reply(reply_message(rep, bound), rep, bound),
{
    let head = seq![SOCKS_VERSION, rep, 0x00u8];
    law_addresses_are_written_in_order(bound);
    lemma_addr_in_message(head, bound, Seq::empty());
    assert(head + wire_addr(bound) + Seq::empty() =~= reply_message(rep, bound));
}

/// A forwarded datagram is three zeros, the address of its source and the whole
/// payload, and nothing else.
pub proof fn law_datagrams_are_forwarded_whole(src: SocketAddr, data: Seq<u8>)
    ensures
        is_forwarded(udp_header(src) + data, src, data),
{
    law_addresses_are_written_in_order(src);
    lemma_addr_in_message(seq![0x00u8, 0x00u8, 0x00u8], src, data);
}

/// A datagram has a readable header if and only if it is long enough for its address
/// type, which must be known, and its host name is UTF-8. What is read is the third
/// byte, the address or host that the bytes hold, and where they end.
pub proof fn law_headers_are_read_in_order(buf: Seq<u8>)
    ensures
        read_udp_header(buf) is Some <==> {
            &&& buf.len() >= 4
            &&& {
                ||| buf[3] == 1 && buf.len() >= 10
                ||| buf[3] == 4 && buf.len() >= 22
                ||| buf[3] == 3 && buf.len() >= 5 && buf.len() >= 7 + buf[4] && valid_utf8(
                    buf.subrange(5, 5 + buf[4]),
                )
            }
        },
        read_udp_header(buf) matches Some((frag, dest, len)) ==> {
            &&& frag == buf[2]
            &&& match dest {
                UdpDest::Addr(a) => holds_addr(buf, 3, a) && is_bare(a) && len == 3 + addr_len(a),
                UdpDest::Domain(host, port) => {
                    &&& buf[3] == 3
                    &&& len == 7 + buf[4]
                    &&& host == decode_utf8(buf.subrange(5, 5 + buf[4]))
                    &&& port == 256 * buf[5 + buf[4]] + buf[6 + buf[4]]
                },
            }
        },
{
    if buf.len() >= 10 && buf[3] == ATYP_V4 {
        let b = buf.subrange(4, 10);
        law_v4_octets_are_read_in_order(b);
        assert forall|i: int| 0 <= i < 6 implies #[trigger] b[i] == buf[3 + 1 + i] by {}
    }
    if buf.len() >= 22 && buf[3] == ATYP_V6 {
        let b = buf.subrange(4, 22);
        law_v6_octets_are_read_in_order(b);
        assert forall|i: int| 0 <= i < 18 implies #[trigger] b[i] == buf[3 + 1 + i] by {}
    }
}

/// A destination that was read is given back with its host name and port unchanged.
pub proof fn law_destinations_are_seen_whole(dest: UdpDest<String>)
    ensures
        match dest {
            UdpDest::Addr(a) => dest@ == UdpDest::<Seq<char>>::Addr(a),
            UdpDest::Domain(host, port) => dest@ == UdpDest::Domain(host@, port),
        },
{
}

} // verus!
