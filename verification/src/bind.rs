//! The BIND service: a connection from the target to the server.
use crate::addr::{any_ip, unspecified_addr, IpAddr, SocketAddr};
use crate::error::{reply_code, reply_for_error, Error, REP_SUCCESS};
use crate::session::{close, closed, Action, Event, Phase, Step, StepView};
use crate::wire::{reply_message, socks_reply};
use vstd::pervasive::{arbitrary, unreached};
use vstd::prelude::*;

verus! {

/// How far the service has come.
#[derive(Clone, Copy, Debug)]
pub enum BindStage {
    /// The local address of the client's connection is being found out.
    Locating { expected: IpAddr },
    /// The listener is being opened.
    Opening { expected: IpAddr },
    /// The client is being told where the server listens.
    Announcing { expected: IpAddr },
    /// A connection from the expected address is awaited.
    Accepting { expected: IpAddr },
    /// The client is being told that the service failed.
    Refusing,
    /// The client is being told who connected.
    Introducing,
    /// Data is being copied.
    Relaying,
}

/// Whether `event` can follow the action that led to `stage`.
pub open spec fn accepts(stage: BindStage, event: Event<Seq<u8>>) -> bool {
    match event {
        Event::Addr(_) => stage is Locating || stage is Opening,
        Event::Refused(_) => stage is Opening || stage is Accepting,
        Event::Accepted(_) => stage is Accepting,
        Event::Written => stage is Announcing || stage is Refusing || stage is Introducing,
        Event::Relayed => stage is Relaying,
        Event::Failed(_) => !(stage is Accepting),
        _ => false,
    }
}

/// Whether a peer is the one that the client waits for: any, where the client
/// named no address, and otherwise the one with that address.
pub open spec fn peer_is_expected(expected: IpAddr, peer: SocketAddr) -> bool {
    expected.unspecified() || peer.spec_ip() == expected
}

/// The beginning of the service.
pub open spec fn started(expected: IpAddr) -> StepView {
    (Phase::Bind(BindStage::Locating { expected }), Action::LocalAddr)
}

/// What follows a failure that the client is told about.
pub open spec fn refused(e: Error) -> StepView {
    (
        Phase::Bind(BindStage::Refusing),
        Action::Write(reply_message(reply_code(e.kind), SocketAddr::of(any_ip(false), 0))),
    )
}

/// What `event` leads to.
pub open spec fn next(stage: BindStage, event: Event<Seq<u8>>) -> StepView {
    match (stage, event) {
        (_, Event::Failed(e)) => closed(Err(e)),
        (_, Event::Refused(e)) => refused(e),
        (BindStage::Locating { expected }, Event::Addr(local)) => (
            Phase::Bind(BindStage::Opening { expected }),
            Action::Listen(SocketAddr::of(local.spec_ip(), 0)),
        ),
        (BindStage::Opening { expected }, Event::Addr(local)) => (
            Phase::Bind(BindStage::Announcing { expected }),
            Action::Write(reply_message(REP_SUCCESS, local)),
        ),
        (BindStage::Announcing { expected }, Event::Written) => (
            Phase::Bind(BindStage::Accepting { expected }),
            Action::Accept,
        ),
        (BindStage::Accepting { expected }, Event::Accepted(peer)) => if peer_is_expected(
            expected,
            peer,
        ) {
            (
                Phase::Bind(BindStage::Introducing),
                Action::Write(reply_message(REP_SUCCESS, peer)),
            )
        } else {
            (Phase::Bind(BindStage::Accepting { expected }), Action::Accept)
        },
        (BindStage::Refusing, Event::Written) => closed(Ok(())),
        (BindStage::Introducing, Event::Written) => (
            Phase::Bind(BindStage::Relaying),
            Action::Relay { buffer: None },
        ),
        (BindStage::Relaying, Event::Relayed) => closed(Ok(())),
        _ => arbitrary(),
    }
}

/// Whether a peer is the one that the client waits for.
pub fn is_expected(expected: &IpAddr, peer: &SocketAddr) -> (r: bool)
    ensures
        r == peer_is_expected(*expected, *peer),
{
    expected.is_unspecified() || peer.ip() == *expected
}

/// Begins the service.
pub fn start(expected: IpAddr) -> (r: Step)
    ensures
        (r.0@, r.1@) == started(expected),
{
    (Phase::Bind(BindStage::Locating { expected }), Action::LocalAddr)
}

/// Takes in what happened and says what to do next.
pub fn step(stage: BindStage, event: Event<&[u8]>) -> (r: Step)
    requires
        accepts(stage, event@),
    ensures
        (r.0@, r.1@) == next(stage, event@),
{
    match (stage, event) {
        (_, Event::Failed(e)) => close(Err(e)),
        (_, Event::Refused(e)) => {
            let msg = socks_reply(reply_for_error(&e), unspecified_addr(false));
            (Phase::Bind(BindStage::Refusing), Action::Write(msg))
        },
        (BindStage::Locating { expected }, Event::Addr(local)) => {
            let addr = SocketAddr::new(local.ip(), 0);
            (Phase::Bind(BindStage::Opening { expected }), Action::Listen(addr))
        },
        (BindStage::Opening { expected }, Event::Addr(local)) => {
            let msg = socks_reply(REP_SUCCESS, local);
            (Phase::Bind(BindStage::Announcing { expected }), Action::Write(msg))
        },
        (BindStage::Announcing { expected }, Event::Written) => {
            (Phase::Bind(BindStage::Accepting { expected }), Action::Accept)
        },
        (BindStage::Accepting { expected }, Event::Accepted(peer)) => {
            if is_expected(&expected, &peer) {
                let msg = socks_reply(REP_SUCCESS, peer);
                (Phase::Bind(BindStage::Introducing), Action::Write(msg))
            } else {
                (Phase::Bind(BindStage::Accepting { expected }), Action::Accept)
            }
        },
        (BindStage::Refusing, Event::Written) => close(Ok(())),
        (BindStage::Introducing, Event::Written) => {
            (Phase::Bind(BindStage::Relaying), Action::Relay { buffer: None })
        },
        (BindStage::Relaying, Event::Relayed) => close(Ok(())),
        _ => unreached(),
    }
}

} // verus!
