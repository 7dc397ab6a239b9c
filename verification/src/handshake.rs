//! The first part of a session: the greeting, the password, the request.
use crate::addr::SocketAddr;
use crate::associate;
use crate::auth::{
    auth_verdict, choose_method, chosen_method, digest_matches, password_digest, sha256_digest,
    verdict_message, Creds,
};
use crate::bind;
use crate::connect;
use crate::error::ErrorKind;
use crate::net::{first_address, lookup_result};
use crate::session::{close, closed, reject, rejected, Action, Event, Phase, Step, StepView};
use crate::text::{from_utf8_lossy, utf8_lossy};
use crate::wire::{
    from_be16, read_port, read_v4, read_v6, v4_target, v6_target, ATYP_FQDN, ATYP_V4, ATYP_V6,
    CMD_BIND, CMD_CONNECT, CMD_UDP_ASSOCIATE, METHOD_NO_AUTH, METHOD_USERPASS, SOCKS_VERSION,
    USERPASS_VERSION,
};
use vstd::pervasive::{arbitrary, unreached};
use vstd::prelude::*;
use vstd::slice::{slice_subrange, slice_to_vec};
use vstd::utf8::{decode_utf8, valid_utf8};

verus! {

/// How far the handshake has come.
#[derive(Debug)]
pub enum Stage<B> {
    /// The version and the number of methods are awaited.
    Greeting,
    /// The methods are awaited.
    Methods { count: u8 },
    /// The chosen method is being sent.
    Chosen { method: u8 },
    /// The version of the password exchange and the length of the username are
    /// awaited.
    AuthHead { expect: [u8; 32] },
    /// The username and the length of the password are awaited.
    AuthUser { expect: [u8; 32], ulen: u8 },
    /// The password is awaited.
    AuthPass { expect: [u8; 32], username: B, plen: u8 },
    /// The verdict on the password is being sent.
    Verdict { granted: bool },
    /// The version, the command and the address type of the request are awaited.
    Request,
    /// The octets and the port of the target are awaited.
    Target { cmd: u8, v6: bool },
    /// The length of the target's host name is awaited.
    NameLen { cmd: u8 },
    /// The target's host name and port are awaited.
    Name { cmd: u8, len: u8 },
    /// The target's host name is being looked up.
    Lookup { cmd: u8 },
}

impl<B: View> View for Stage<B> {
    type V = Stage<B::V>;

    open spec fn view(&self) -> Stage<B::V> {
        match *self {
            Stage::Greeting => Stage::Greeting,
            Stage::Methods { count } => Stage::Methods { count },
            Stage::Chosen { method } => Stage::Chosen { method },
            Stage::AuthHead { expect } => Stage::AuthHead { expect },
            Stage::AuthUser { expect, ulen } => Stage::AuthUser { expect, ulen },
            Stage::AuthPass { expect, username, plen } => Stage::AuthPass {
                expect,
                username: username@,
                plen,
            },
            Stage::Verdict { granted } => Stage::Verdict { granted },
            Stage::Request => Stage::Request,
            Stage::Target { cmd, v6 } => Stage::Target { cmd, v6 },
            Stage::NameLen { cmd } => Stage::NameLen { cmd },
            Stage::Name { cmd, len } => Stage::Name { cmd, len },
            Stage::Lookup { cmd } => Stage::Lookup { cmd },
        }
    }
}

/// How many bytes a stage awaits from the client, if it awaits any.
pub open spec fn wanted<B>(stage: Stage<B>) -> Option<nat> {
    match stage {
        Stage::Greeting => Some(2),
        Stage::Methods { count } => Some(count as nat),
        Stage::Chosen { .. } => None,
        Stage::AuthHead { .. } => Some(2),
        Stage::AuthUser { ulen, .. } => Some(ulen as nat + 1),
        Stage::AuthPass { plen, .. } => Some(plen as nat),
        Stage::Verdict { .. } => None,
        Stage::Request => Some(4),
        Stage::Target { v6, .. } => Some(
            if v6 {
                18
            } else {
                6
            },
        ),
        Stage::NameLen { .. } => Some(1),
        Stage::Name { len, .. } => Some(len as nat + 2),
        Stage::Lookup { .. } => None,
    }
}

/// Whether `event` can follow the action that led to `stage`.
pub open spec fn accepts(stage: Stage<Seq<u8>>, event: Event<Seq<u8>>) -> bool {
    match event {
        Event::Read(b) => wanted(stage) == Some(b.len()),
        Event::Written => stage is Chosen || stage is Verdict,
        Event::Resolved(_) => stage is Lookup,
        Event::Failed(_) => !(stage is Lookup),
        _ => false,
    }
}

/// A stage that awaits bytes, and the action that reads them.
pub open spec fn reading(stage: Stage<Seq<u8>>) -> StepView {
    (Phase::Handshake(stage), Action::Read(wanted(stage)->0 as usize))
}

/// What follows once it is clear whether the password was right.
pub open spec fn judged(granted: bool) -> StepView {
    (Phase::Handshake(Stage::Verdict { granted }), Action::Write(verdict_message(granted)))
}

/// What follows once the name of the target is known.
pub open spec fn named(cmd: u8, host: Seq<char>, port: u16) -> StepView {
    (Phase::Handshake(Stage::Lookup { cmd }), Action::Lookup { host, port })
}

/// The bytes of the target's host name, in the event that brings them.
pub open spec fn name_in(event: Event<Seq<u8>>) -> Seq<u8> {
    match event {
        Event::Read(b) => b.take(b.len() - 2),
        _ => Seq::empty(),
    }
}

/// What follows once the address of the target is known: the service that the
/// command calls for.
pub open spec fn served(cmd: u8, target: SocketAddr) -> StepView {
    if cmd == CMD_CONNECT {
        connect::started(target)
    } else if cmd == CMD_BIND {
        bind::started(target.spec_ip())
    } else if cmd == CMD_UDP_ASSOCIATE {
        associate::started(target)
    } else {
        rejected(ErrorKind::Unsupported)
    }
}

/// What follows once the command and the type of the target's address are known.
pub open spec fn requested(cmd: u8, atyp: u8) -> StepView {
    if atyp == ATYP_V4 {
        reading(Stage::Target { cmd, v6: false })
    } else if atyp == ATYP_V6 {
        reading(Stage::Target { cmd, v6: true })
    } else if atyp == ATYP_FQDN {
        reading(Stage::NameLen { cmd })
    } else {
        rejected(ErrorKind::Unsupported)
    }
}

/// What follows once the chosen method was sent.
pub open spec fn method_sent(creds: Creds, method: u8) -> StepView {
    if method == METHOD_NO_AUTH {
        reading(Stage::Request)
    } else if method == METHOD_USERPASS && creds is Some {
        reading(Stage::AuthHead { expect: creds->0 })
    } else {
        closed(Ok(()))
    }
}

/// What `event` leads to.
pub open spec fn next(creds: Creds, stage: Stage<Seq<u8>>, event: Event<Seq<u8>>) -> StepView {
    match (stage, event) {
        (_, Event::Failed(e)) => closed(Err(e)),
        (Stage::Greeting, Event::Read(b)) => if b[0] == SOCKS_VERSION {
            reading(Stage::Methods { count: b[1] })
        } else {
            rejected(ErrorKind::Unsupported)
        },
        (Stage::Methods { .. }, Event::Read(b)) => {
            let method = chosen_method(creds, b);
            (
                Phase::Handshake(Stage::Chosen { method }),
                Action::Write(seq![SOCKS_VERSION, method]),
            )
        },
        (Stage::Chosen { method }, Event::Written) => method_sent(creds, method),
        (Stage::AuthHead { expect }, Event::Read(b)) => if b[0] == USERPASS_VERSION {
            reading(Stage::AuthUser { expect, ulen: b[1] })
        } else {
            rejected(ErrorKind::Unsupported)
        },
        (Stage::AuthUser { expect, .. }, Event::Read(b)) => reading(
            Stage::AuthPass { expect, username: b.drop_last(), plen: b.last() },
        ),
        (Stage::AuthPass { expect, username, .. }, Event::Read(b)) => judged(
            sha256_digest(username + b) == expect@,
        ),
        (Stage::Verdict { granted }, Event::Written) => if granted {
            reading(Stage::Request)
        } else {
            rejected(ErrorKind::PermissionDenied)
        },
        (Stage::Request, Event::Read(b)) => if b[0] == SOCKS_VERSION {
            requested(b[1], b[3])
        } else {
            rejected(ErrorKind::Unsupported)
        },
        (Stage::Target { cmd, v6 }, Event::Read(b)) => served(
            cmd,
            if v6 {
                v6_target(b)
            } else {
                v4_target(b)
            },
        ),
        (Stage::NameLen { cmd }, Event::Read(b)) => reading(Stage::Name { cmd, len: b[0] }),
        (Stage::Name { cmd, .. }, Event::Read(b)) => named(
            cmd,
            utf8_lossy(name_in(event)),
            from_be16(b[b.len() - 2], b[b.len() - 1]),
        ),
        (Stage::Lookup { cmd }, Event::Resolved(found)) => match lookup_result(found) {
            Ok(target) => served(cmd, target),
            Err(e) => closed(Err(e)),
        },
        _ => arbitrary(),
    }
}

/// Enters a stage that awaits bytes.
fn read_for(stage: Stage<Vec<u8>>) -> (r: Step)
    requires
        wanted(stage) is Some,
    ensures
        (r.0@, r.1@) == reading(stage@),
{
    let n: usize = match &stage {
        Stage::Greeting => 2,
        Stage::Methods { count } => *count as usize,
        Stage::AuthHead { .. } => 2,
        Stage::AuthUser { ulen, .. } => *ulen as usize + 1,
        Stage::AuthPass { plen, .. } => *plen as usize,
        Stage::Request => 4,
        Stage::Target { v6, .. } => if *v6 {
            18
        } else {
            6
        },
        Stage::NameLen { .. } => 1,
        Stage::Name { len, .. } => *len as usize + 2,
        _ => unreached(),
    };
    (Phase::Handshake(stage), Action::Read(n))
}

/// Compares the digest of the client's username and password with the expected
/// one. The client is told the outcome either way.
pub fn judge(digest: &[u8; 32], expect: &[u8; 32]) -> (r: Step)
    ensures
        (r.0@, r.1@) == judged(digest@ == expect@),
{
    let granted = digest_matches(digest, expect);
    (Phase::Handshake(Stage::Verdict { granted }), Action::Write(auth_verdict(granted)))
}

/// Looks up the host name of the target.
pub fn look_up(cmd: u8, host: String, port: u16) -> (r: Step)
    ensures
        (r.0@, r.1@) == named(cmd, host@, port),
{
    (Phase::Handshake(Stage::Lookup { cmd }), Action::Lookup { host, port })
}

/// Begins the service that the command calls for.
pub fn serve(cmd: u8, target: SocketAddr) -> (r: Step)
    ensures
        (r.0@, r.1@) == served(cmd, target),
{
    if cmd == CMD_CONNECT {
        connect::start(target)
    } else if cmd == CMD_BIND {
        bind::start(target.ip())
    } else if cmd == CMD_UDP_ASSOCIATE {
        associate::start(target)
    } else {
        reject(ErrorKind::Unsupported)
    }
}

/// Reads on as the type of the target's address demands.
pub fn read_target(cmd: u8, atyp: u8) -> (r: Step)
    ensures
        (r.0@, r.1@) == requested(cmd, atyp),
{
    if atyp == ATYP_V4 {
        read_for(Stage::Target { cmd, v6: false })
    } else if atyp == ATYP_V6 {
        read_for(Stage::Target { cmd, v6: true })
    } else if atyp == ATYP_FQDN {
        read_for(Stage::NameLen { cmd })
    } else {
        reject(ErrorKind::Unsupported)
    }
}

/// Goes on as the chosen method demands.
fn use_method(creds: &Creds, method: u8) -> (r: Step)
    ensures
        (r.0@, r.1@) == method_sent(*creds, method),
{
    if method == METHOD_NO_AUTH {
        return read_for(Stage::Request);
    }
    match creds {
        Some(expect) => if method == METHOD_USERPASS {
            read_for(Stage::AuthHead { expect: *expect })
        } else {
            close(Ok(()))
        },
        None => close(Ok(())),
    }
}

/// Takes in what happened during the handshake and says what to do next.
pub fn step(creds: &Creds, stage: Stage<Vec<u8>>, event: Event<&[u8]>) -> (r: Step)
    requires
        accepts(stage@, event@),
    ensures
        (r.0@, r.1@) == next(*creds, stage@, event@),
        stage is Name && event is Read && valid_utf8(name_in(event@)) ==> {
            &&& r.1@ matches Action::Lookup { host, .. }
            &&& host == decode_utf8(name_in(event@))
        },
{
    match (stage, event) {
        (_, Event::Failed(e)) => close(Err(e)),
        (Stage::Greeting, Event::Read(b)) => if b[0] == SOCKS_VERSION {
            read_for(Stage::Methods { count: b[1] })
        } else {
            reject(ErrorKind::Unsupported)
        },
        (Stage::Methods { .. }, Event::Read(b)) => {
            let method = choose_method(creds, b);
            let msg: Vec<u8> = vec![SOCKS_VERSION, method];
            assert(msg@ =~= seq![SOCKS_VERSION, method]);
            (Phase::Handshake(Stage::Chosen { method }), Action::Write(msg))
        },
        (Stage::Chosen { method }, Event::Written) => use_method(creds, method),
        (Stage::AuthHead { expect }, Event::Read(b)) => if b[0] == USERPASS_VERSION {
            read_for(Stage::AuthUser { expect, ulen: b[1] })
        } else {
            reject(ErrorKind::Unsupported)
        },
        (Stage::AuthUser { expect, ulen }, Event::Read(b)) => {
            let username = slice_to_vec(slice_subrange(b, 0, ulen as usize));
            assert(username@ =~= b@.drop_last());
            read_for(Stage::AuthPass { expect, username, plen: b[ulen as usize] })
        },
        (Stage::AuthPass { expect, username, .. }, Event::Read(b)) => {
            judge(&password_digest(username.as_slice(), b), &expect)
        },
        (Stage::Verdict { granted }, Event::Written) => if granted {
            read_for(Stage::Request)
        } else {
            reject(ErrorKind::PermissionDenied)
        },
        (Stage::Request, Event::Read(b)) => if b[0] == SOCKS_VERSION {
            read_target(b[1], b[3])
        } else {
            reject(ErrorKind::Unsupported)
        },
        (Stage::Target { cmd, v6 }, Event::Read(b)) => if v6 {
            serve(cmd, read_v6(b))
        } else {
            serve(cmd, read_v4(b))
        },
        (Stage::NameLen { cmd }, Event::Read(b)) => read_for(Stage::Name { cmd, len: b[0] }),
        (Stage::Name { cmd, .. }, Event::Read(b)) => {
            let name = slice_subrange(b, 0, b.len() - 2);
            assert(name@ =~= b@.take(b@.len() - 2));
            look_up(cmd, from_utf8_lossy(name), read_port(b))
        },
        (Stage::Lookup { cmd }, Event::Resolved(found)) => match first_address(found) {
            Ok(target) => serve(cmd, target),
            Err(e) => close(Err(e)),
        },
        _ => unreached(),
    }
}

} // verus!
