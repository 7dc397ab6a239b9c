//! The two networks that a session can be served on.
use crate::addr::{any_ip, unspecified_addr, SocketAddr};
use crate::error::{plain_error, Error, ErrorKind};
use vstd::prelude::*;

verus! {

/// The network that outgoing traffic uses.
#[derive(Clone, Copy, Debug, PartialEq, Eq, Structural)]
pub enum Net {
    /// The sockets of the operating system.
    Os,
    /// A tailnet, through a device of its own.
    Tailnet,
}

/// Where the local address of an outgoing datagram socket comes from.
#[derive(Clone, Copy, Debug)]
pub enum Outbound {
    /// It is this one.
    Addr(SocketAddr),
    /// The device's own address, with port 0.
    Device,
}

impl Net {
    /// The local address of an outgoing datagram socket: any address and port of
    /// the operating system's, or the device's own address.
    pub open spec fn outbound(self, v6: bool) -> Outbound {
        match self {
            Net::Os => Outbound::Addr(SocketAddr::of(any_ip(v6), 0)),
            Net::Tailnet => Outbound::Device,
        }
    }

    /// The local address of an outgoing datagram socket.
    pub fn outbound_addr(&self, v6: bool) -> (r: Outbound)
        ensures
            r == self.outbound(v6),
    {
        match self {
            Net::Os => Outbound::Addr(unspecified_addr(v6)),
            Net::Tailnet => Outbound::Device,
        }
    }
}

/// The address that the lookup of a host name settles on: the first one found. A
/// name without an address is an unreachable host.
pub open spec fn lookup_result(found: Result<Vec<SocketAddr>, Error>) -> Result<
    SocketAddr,
    Error,
> {
    match found {
        Ok(addrs) => if addrs@.len() > 0 {
            Ok(addrs@[0])
        } else {
            Err(plain_error(ErrorKind::HostUnreachable))
        },
        Err(e) => Err(e),
    }
}

/// The address that the lookup of a host name settles on. `found` is what the
/// lookup ended with: the addresses of the host, in order, or an error.
pub fn first_address(found: Result<Vec<SocketAddr>, Error>) -> (r: Result<SocketAddr, Error>)
    ensures
        r == lookup_result(found),
{
    match found {
        Ok(addrs) => if addrs.len() > 0 {
            Ok(addrs[0])
        } else {
            Err(Error::from(ErrorKind::HostUnreachable))
        },
        Err(e) => Err(e),
    }
}

/// A lookup settles on an address if and only if it found one, and then on the one
/// that stands first. Otherwise its error is passed on, or the host is unreachable.
pub proof fn law_the_first_address_counts(found: Vec<SocketAddr>, e: Error)
    ensures
        found@.len() > 0 ==> lookup_result(Ok(found)) == Ok::<SocketAddr, Error>(found@.first()),
        found@.len() == 0 ==> (lookup_result(Ok(found)) matches Err(failure) && failure.kind
            is HostUnreachable && failure.message is None),
        lookup_result(Err(e)) == Err::<SocketAddr, Error>(e),
{
}

/// On the operating system's network an outgoing socket is bound to port zero of the
/// all-zero address of its family; on a tailnet always to the device's own address.
pub proof fn law_outgoing_sockets_are_bound_to_any_address(v6: bool)
    ensures
        Net::Tailnet.outbound(v6) is Device,
        match Net::Os.outbound(v6) {
            Outbound::Addr(SocketAddr::V4 { ip, port }) => {
                &&& !v6
                &&& port == 0
                &&& forall|i: int| 0 <= i < 4 ==> ip[i] == 0
            },
            Outbound::Addr(SocketAddr::V6 { ip, port, flowinfo, scope_id }) => {
                &&& v6
                &&& port == 0
                &&& flowinfo == 0
                &&& scope_id == 0
                &&& forall|i: int| 0 <= i < 16 ==> ip[i] == 0
            },
            Outbound::Device => false,
        },
{
    let ip = any_ip(v6);
    assert(ip is V6 <==> v6);
}

} // verus!
