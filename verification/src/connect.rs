//! The CONNECT service: a connection from the server to the target.
use crate::addr::SocketAddr;
use crate::error::{reply_code, reply_for_error, REP_SUCCESS};
use crate::session::{close, closed, Action, Event, Phase, Step, StepView};
use crate::wire::{reply_message, socks_reply};
use vstd::pervasive::{arbitrary, unreached};
use vstd::prelude::*;

verus! {

/// The size of each buffer that data is copied through.
pub const RELAY_BUF: usize = 65536;

/// How far the service has come.
#[derive(Clone, Copy, Debug)]
pub enum ConnectStage {
    /// The connection to the target is being opened.
    Connecting { target: SocketAddr },
    /// The client is being told that this failed.
    Refusing,
    /// The client is being told that this worked.
    Confirming,
    /// Data is being copied.
    Relaying,
}

/// Whether `event` can follow the action that led to `stage`.
pub open spec fn accepts(stage: ConnectStage, event: Event<Seq<u8>>) -> bool {
    match event {
        Event::Addr(_) => stage is Connecting,
        Event::Refused(_) => stage is Connecting,
        Event::Written => stage is Refusing || stage is Confirming,
        Event::Relayed => stage is Relaying,
        Event::Failed(_) => true,
        _ => false,
    }
}

/// The beginning of the service.
pub open spec fn started(target: SocketAddr) -> StepView {
    (Phase::Connect(ConnectStage::Connecting { target }), Action::Connect(target))
}

/// What `event` leads to.
pub open spec fn next(stage: ConnectStage, event: Event<Seq<u8>>) -> StepView {
    match (stage, event) {
        (_, Event::Failed(e)) => closed(Err(e)),
        (ConnectStage::Connecting { .. }, Event::Addr(local)) => (
            Phase::Connect(ConnectStage::Confirming),
            Action::Write(reply_message(REP_SUCCESS, local)),
        ),
        (ConnectStage::Connecting { target }, Event::Refused(e)) => (
            Phase::Connect(ConnectStage::Refusing),
            Action::Write(reply_message(reply_code(e.kind), target)),
        ),
        (ConnectStage::Refusing, Event::Written) => closed(Ok(())),
        (ConnectStage::Confirming, Event::Written) => (
            Phase::Connect(ConnectStage::Relaying),
            Action::Relay { buffer: Some(RELAY_BUF) },
        ),
        (ConnectStage::Relaying, Event::Relayed) => closed(Ok(())),
        _ => arbitrary(),
    }
}

/// Begins the service.
pub fn start(target: SocketAddr) -> (r: Step)
    ensures
        (r.0@, r.1@) == started(target),
{
    (Phase::Connect(ConnectStage::Connecting { target }), Action::Connect(target))
}

/// Takes in what happened and says what to do next.
pub fn step(stage: ConnectStage, event: Event<&[u8]>) -> (r: Step)
    requires
        accepts(stage, event@),
    ensures
        (r.0@, r.1@) == next(stage, event@),
{
    match (stage, event) {
        (_, Event::Failed(e)) => close(Err(e)),
        (ConnectStage::Connecting { .. }, Event::Addr(local)) => {
            (Phase::Connect(ConnectStage::Confirming), Action::Write(socks_reply(REP_SUCCESS, local)))
        },
        (ConnectStage::Connecting { target }, Event::Refused(e)) => {
            let rep = reply_for_error(&e);
            (Phase::Connect(ConnectStage::Refusing), Action::Write(socks_reply(rep, target)))
        },
        (ConnectStage::Refusing, Event::Written) => close(Ok(())),
        (ConnectStage::Confirming, Event::Written) => {
            (Phase::Connect(ConnectStage::Relaying), Action::Relay { buffer: Some(RELAY_BUF) })
        },
        (ConnectStage::Relaying, Event::Relayed) => close(Ok(())),
        _ => unreached(),
    }
}

} // verus!
