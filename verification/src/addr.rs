//! Network addresses as plain values.
use vstd::prelude::*;
use vstd::std_specs::cmp::PartialEqSpec;

verus! {

/// An IP address, by its octets in network order.
#[derive(Clone, Copy, Debug)]
pub enum IpAddr {
    V4([u8; 4]),
    V6([u8; 16]),
}

/// An IP address and a port. An IPv6 address also carries its flow label and
/// its scope, which take part in comparisons but are never sent to a client.
#[derive(Clone, Copy, Debug)]
#[allow(inconsistent_fields)]
pub enum SocketAddr {
    V4 { ip: [u8; 4], port: u16 },
    V6 { ip: [u8; 16], port: u16, flowinfo: u32, scope_id: u32 },
}

/// Whether two byte strings are the same.
pub fn same_bytes(a: &[u8], b: &[u8]) -> (same: bool)
    ensures
        same == (a@ == b@),
{
    if a.len() != b.len() {
        return false;
    }
    let mut i: usize = 0;
    while i < a.len()
        invariant
            i <= a@.len(),
            a@.len() == b@.len(),
            forall|k: int| 0 <= k < i ==> a@[k] == b@[k],
        decreases a@.len() - i,
    {
        if a[i] != b[i] {
            return false;
        }
        i = i + 1;
    }
    assert(a@ =~= b@);
    true
}

/// Whether two arrays of bytes are the same.
fn same_array<const N: usize>(a: &[u8; N], b: &[u8; N]) -> (same: bool)
    ensures
        same == (*a == *b),
{
    let same = same_bytes(a.as_slice(), b.as_slice());
    if same {
        assert(*a =~= *b) by {
            assert forall|k: int| 0 <= k < N implies a[k] == b[k] by {
                assert(a@[k] == b@[k]);
            }
        }
    }
    same
}

impl PartialEq for IpAddr {
    fn eq(&self, other: &IpAddr) -> (same: bool) {
        match (self, other) {
            (IpAddr::V4(a), IpAddr::V4(b)) => same_array(a, b),
            (IpAddr::V6(a), IpAddr::V6(b)) => same_array(a, b),
            _ => false,
        }
    }
}

impl vstd::std_specs::cmp::PartialEqSpecImpl for IpAddr {
    open spec fn obeys_eq_spec() -> bool {
        true
    }

    open spec fn eq_spec(&self, other: &IpAddr) -> bool {
        *self == *other
    }
}

impl PartialEq for SocketAddr {
    fn eq(&self, other: &SocketAddr) -> (same: bool) {
        match (self, other) {
            (SocketAddr::V4 { ip: a, port: p }, SocketAddr::V4 { ip: b, port: q }) => {
                same_array(a, b) && *p == *q
            },
            (
                SocketAddr::V6 { ip: a, port: p, flowinfo: f, scope_id: s },
                SocketAddr::V6 { ip: b, port: q, flowinfo: g, scope_id: t },
            ) => same_array(a, b) && *p == *q && *f == *g && *s == *t,
            _ => false,
        }
    }
}

impl vstd::std_specs::cmp::PartialEqSpecImpl for SocketAddr {
    open spec fn obeys_eq_spec() -> bool {
        true
    }

    open spec fn eq_spec(&self, other: &SocketAddr) -> bool {
        *self == *other
    }
}

/// `n` octets that are all zero.
pub open spec fn zeros(n: nat) -> Seq<u8> {
    Seq::new(n, |i: int| 0u8)
}

/// Whether every octet is zero.
fn all_zero(octets: &[u8]) -> (zero: bool)
    ensures
        zero == (octets@ == zeros(octets@.len())),
{
    let mut i: usize = 0;
    while i < octets.len()
        invariant
            i <= octets@.len(),
            forall|k: int| 0 <= k < i ==> octets@[k] == 0,
        decreases octets@.len() - i,
    {
        if octets[i] != 0 {
            assert(octets@[i as int] != zeros(octets@.len())[i as int]);
            return false;
        }
        i = i + 1;
    }
    assert(octets@ =~= zeros(octets@.len()));
    true
}

impl IpAddr {
    /// The octets of the address, in network order.
    pub open spec fn octets(self) -> Seq<u8> {
        match self {
            IpAddr::V4(o) => o@,
            IpAddr::V6(o) => o@,
        }
    }

    /// Whether this is `0.0.0.0` or `::`, which stands for any address.
    pub open spec fn unspecified(self) -> bool {
        self.octets() == zeros(self.octets().len())
    }

    /// Whether this is `0.0.0.0` or `::`.
    pub fn is_unspecified(&self) -> (r: bool)
        ensures
            r == self.unspecified(),
    {
        match self {
            IpAddr::V4(o) => all_zero(o.as_slice()),
            IpAddr::V6(o) => all_zero(o.as_slice()),
        }
    }
}

impl SocketAddr {
    /// The socket address of `ip` and `port`, with no flow label and no scope.
    pub open spec fn of(ip: IpAddr, port: u16) -> SocketAddr {
        match ip {
            IpAddr::V4(o) => SocketAddr::V4 { ip: o, port },
            IpAddr::V6(o) => SocketAddr::V6 { ip: o, port, flowinfo: 0, scope_id: 0 },
        }
    }

    /// The address without its flow label and scope, as it stands in a message.
    pub open spec fn plain(self) -> SocketAddr {
        SocketAddr::of(self.spec_ip(), self.spec_port())
    }

    /// The IP address.
    pub open spec fn spec_ip(self) -> IpAddr {
        match self {
            SocketAddr::V4 { ip, .. } => IpAddr::V4(ip),
            SocketAddr::V6 { ip, .. } => IpAddr::V6(ip),
        }
    }

    /// The port.
    pub open spec fn spec_port(self) -> u16 {
        match self {
            SocketAddr::V4 { port, .. } => port,
            SocketAddr::V6 { port, .. } => port,
        }
    }

    /// The socket address of `ip` and `port`, with no flow label and no scope.
    pub fn new(ip: IpAddr, port: u16) -> (r: SocketAddr)
        ensures
            r == SocketAddr::of(ip, port),
    {
        match ip {
            IpAddr::V4(o) => SocketAddr::V4 { ip: o, port },
            IpAddr::V6(o) => SocketAddr::V6 { ip: o, port, flowinfo: 0, scope_id: 0 },
        }
    }

    /// The IP address.
    pub fn ip(&self) -> (r: IpAddr)
        ensures
            r == self.spec_ip(),
    {
        match self {
            SocketAddr::V4 { ip, .. } => IpAddr::V4(*ip),
            SocketAddr::V6 { ip, .. } => IpAddr::V6(*ip),
        }
    }

    /// The port.
    pub fn port(&self) -> (r: u16)
        ensures
            r == self.spec_port(),
    {
        match self {
            SocketAddr::V4 { port, .. } => *port,
            SocketAddr::V6 { port, .. } => *port,
        }
    }

    /// Whether the IP address is an IPv4 address.
    pub fn is_ipv4(&self) -> (r: bool)
        ensures
            r == (self is V4),
    {
        match self {
            SocketAddr::V4 { .. } => true,
            SocketAddr::V6 { .. } => false,
        }
    }
}

/// `0.0.0.0` or, for IPv6, `::`.
pub open spec fn any_ip(v6: bool) -> IpAddr {
    if v6 {
        IpAddr::V6([0, 0, 0, 0, 0, 0, 0, 0, 0, 0, 0, 0, 0, 0, 0, 0])
    } else {
        IpAddr::V4([0, 0, 0, 0])
    }
}

/// The address that stands for any address and any port: `0.0.0.0:0` or, for
/// IPv6, `[::]:0`.
pub fn unspecified_addr(v6: bool) -> (r: SocketAddr)
    ensures
        r == SocketAddr::of(any_ip(v6), 0),
{
    if v6 {
        SocketAddr::new(IpAddr::V6([0, 0, 0, 0, 0, 0, 0, 0, 0, 0, 0, 0, 0, 0, 0, 0]), 0)
    } else {
        SocketAddr::new(IpAddr::V4([0, 0, 0, 0]), 0)
    }
}

/// The address made by [`unspecified_addr`] is recognised as unspecified.
pub proof fn law_any_ip_is_unspecified(v6: bool)
    ensures
        any_ip(v6).unspecified(),
{
    assert(any_ip(v6).octets() =~= zeros(any_ip(v6).octets().len()));
}

/// An IP address is unspecified if and only if each of its octets is zero.
pub proof fn law_unspecified_means_all_octets_zero(ip: IpAddr)
    ensures
        match ip {
            IpAddr::V4(o) => ip.unspecified() <==> forall|i: int| 0 <= i < 4 ==> o[i] == 0,
            IpAddr::V6(o) => ip.unspecified() <==> forall|i: int| 0 <= i < 16 ==> o[i] == 0,
        },
{
    let octets = ip.octets();
    if ip.unspecified() {
        assert forall|i: int| 0 <= i < octets.len() implies octets[i] == 0 by {
            assert(zeros(octets.len())[i] == 0);
        }
        match ip {
            IpAddr::V4(o) => {
                assert forall|i: int| 0 <= i < 4 implies o[i] == 0 by {
                    assert(octets[i] == 0);
                }
            },
            IpAddr::V6(o) => {
                assert forall|i: int| 0 <= i < 16 implies o[i] == 0 by {
                    assert(octets[i] == 0);
                }
            },
        }
    }
    match ip {
        IpAddr::V4(o) => {
            if forall|i: int| 0 <= i < 4 ==> o[i] == 0 {
                assert forall|i: int| 0 <= i < 4 implies octets[i] == 0 by {
                    assert(o[i] == 0);
                }
                assert(octets =~= zeros(octets.len()));
            }
        },
        IpAddr::V6(o) => {
            if forall|i: int| 0 <= i < 16 ==> o[i] == 0 {
                assert forall|i: int| 0 <= i < 16 implies octets[i] == 0 by {
                    assert(o[i] == 0);
                }
                assert(octets =~= zeros(octets.len()));
            }
        },
    }
}

/// A socket address gives back the IP address and the port that it was made of, and
/// has no flow label and no scope.
pub proof fn law_an_address_keeps_its_parts(ip: IpAddr, port: u16)
    ensures
        SocketAddr::of(ip, port).spec_ip() == ip,
        SocketAddr::of(ip, port).spec_port() == port,
        SocketAddr::of(ip, port) is V6 <==> ip is V6,
        match SocketAddr::of(ip, port) {
            SocketAddr::V4 { ip: o, port: p } => ip == IpAddr::V4(o) && p == port,
            SocketAddr::V6 { ip: o, port: p, flowinfo, scope_id } => {
                &&& ip == IpAddr::V6(o)
                &&& p == port
                &&& flowinfo == 0
                &&& scope_id == 0
            },
        },
{
}

/// The IP address and the port of a socket address are the ones it holds.
pub proof fn law_the_parts_of_an_address(a: SocketAddr)
    ensures
        match a {
            SocketAddr::V4 { ip, port } => {
                &&& a.spec_ip() == IpAddr::V4(ip)
                &&& a.spec_port() == port
                &&& a.spec_ip().octets() == ip@
            },
            SocketAddr::V6 { ip, port, .. } => {
                &&& a.spec_ip() == IpAddr::V6(ip)
                &&& a.spec_port() == port
                &&& a.spec_ip().octets() == ip@
            },
        },
{
}

/// Addresses are equal only if they are the same: same family, same octets, and for
/// socket addresses the same port, flow label and scope.
pub proof fn law_equality_is_identity(a: IpAddr, b: IpAddr, x: SocketAddr, y: SocketAddr)
    ensures
        IpAddr::obeys_eq_spec(),
        SocketAddr::obeys_eq_spec(),
        a.eq_spec(&b) <==> a == b,
        x.eq_spec(&y) <==> x == y,
{
}

} // verus!
