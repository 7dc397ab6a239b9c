//! What holds of whole sessions, step after step.
use crate::addr::{any_ip, IpAddr, SocketAddr};
use crate::associate::{out_socket, AssociateStage, Job};
use crate::auth::{chosen_method, sha256_digest, Creds};
use crate::bind::{peer_is_expected, BindStage};
use crate::connect::{ConnectStage, RELAY_BUF};
use crate::error::{plain_error, reply_code, Error, ErrorKind, REP_SUCCESS};
use crate::handshake::{requested, served, Stage};
use crate::net::{lookup_result, Net};
use crate::session::{Action, Event, Phase, Session, UdpRole};
use crate::text::utf8_lossy;
use crate::wire::{
    be16, law_be16_round_trip, lemma_target_of_wire_addr, read_udp_header, reply_message,
    v4_octets, v4_target, v6_octets, v6_target, wire_addr, UdpDest, ATYP_FQDN, ATYP_V4, ATYP_V6,
    CMD_BIND, CMD_CONNECT, CMD_UDP_ASSOCIATE, METHOD_NONE_ACCEPTABLE, METHOD_NO_AUTH,
    METHOD_USERPASS, SOCKS_VERSION, USERPASS_VERSION,
};
use vstd::prelude::*;

pub mod promises;

verus! {

/// The session after a series of events.
pub open spec fn run(start: Session<Seq<u8>>, events: Seq<Event<Seq<u8>>>) -> Session<Seq<u8>>
    decreases events.len(),
{
    if events.len() == 0 {
        start
    } else {
        run(start, events.drop_last()).after(events.last())
    }
}

/// Whether each event of a series can follow the action before it.
pub open spec fn possible(start: Session<Seq<u8>>, events: Seq<Event<Seq<u8>>>) -> bool
    decreases events.len(),
{
    events.len() == 0 || {
        &&& possible(start, events.drop_last())
        &&& run(start, events.drop_last()).accepts(events.last())
    }
}

/// The actions that a series of events leads to, one for each event.
pub open spec fn answers(start: Session<Seq<u8>>, events: Seq<Event<Seq<u8>>>) -> Seq<
    Action<Seq<u8>, Seq<char>>,
>
    decreases events.len(),
{
    if events.len() == 0 {
        Seq::empty()
    } else {
        answers(start, events.drop_last()).push(
            run(start, events.drop_last()).reaction(events.last()).1,
        )
    }
}

/// One event more.
proof fn lemma_push(start: Session<Seq<u8>>, events: Seq<Event<Seq<u8>>>, event: Event<Seq<u8>>)
    ensures
        run(start, events.push(event)) == run(start, events).after(event),
        possible(start, events.push(event)) == (possible(start, events) && run(
            start,
            events,
        ).accepts(event)),
        answers(start, events.push(event)) == answers(start, events).push(
            run(start, events).reaction(event).1,
        ),
{
    assert(events.push(event).drop_last() =~= events);
}

/// There are as many actions as events.
proof fn lemma_answers(start: Session<Seq<u8>>, events: Seq<Event<Seq<u8>>>)
    ensures
        answers(start, events).len() == events.len(),
    decreases events.len(),
{
    if events.len() > 0 {
        lemma_answers(start, events.drop_last());
    }
}

/// A series of events that follows another.
proof fn lemma_append(
    start: Session<Seq<u8>>,
    first: Seq<Event<Seq<u8>>>,
    then: Seq<Event<Seq<u8>>>,
)
    ensures
        run(start, first + then) == run(run(start, first), then),
        possible(start, first + then) == (possible(start, first) && possible(
            run(start, first),
            then,
        )),
        answers(start, first + then) == answers(start, first) + answers(run(start, first), then),
    decreases then.len(),
{
    if then.len() == 0 {
        assert(first + then =~= first);
        assert(answers(start, first) + answers(run(start, first), then) =~= answers(start, first));
    } else {
        lemma_append(start, first, then.drop_last());
        assert((first + then).drop_last() =~= first + then.drop_last());
        assert(answers(start, first + then) =~= answers(start, first) + answers(
            run(start, first),
            then,
        ));
    }
}

/// Whether an outcome of `action` can be reported as `event`.
pub open spec fn fits(action: Action<Seq<u8>, Seq<char>>, event: Event<Seq<u8>>) -> bool {
    match action {
        Action::Read(n) => event is Failed || (event matches Event::Read(b) && b.len() == n),
        Action::Write(_) => event is Failed || event is Written,
        Action::Lookup { .. } => event is Resolved,
        Action::LocalAddr => event is Failed || event is Addr,
        Action::Connect(_) => event is Failed || event is Refused || event is Addr,
        Action::Listen(_) => event is Failed || event is Refused || event is Addr,
        Action::Accept => event is Refused || event is Accepted,
        Action::Relay { .. } => event is Failed || event is Relayed,
        Action::DeviceIp { v6 } => event is Failed || (event matches Event::DeviceIp(ip) && (ip
            is V6) == v6),
        Action::BindUdp { socket: UdpRole::Relay, .. } => event is Failed || event is Addr,
        Action::BindUdp { .. } => event is Failed || event is Bound,
        Action::Wait => event is Failed || event is Datagram || event is Control,
        Action::Send { .. } => event is Sent,
        Action::Close(_) => false,
    }
}

/// At the beginning, and after every step, a session takes exactly the events
/// that report an outcome of the action it asked for.
pub proof fn law_every_outcome_can_be_reported(
    net: Net,
    creds: Creds,
    session: Session<Seq<u8>>,
    event: Event<Seq<u8>>,
    outcome: Event<Seq<u8>>,
)
    requires
        session.accepts(event),
    ensures
        Session::initial(net, creds).accepts(outcome) == fits(Action::Read(2), outcome),
        session.after(event).accepts(outcome) == fits(session.reaction(event).1, outcome),
{
}

/// A session never asks for more than 257 bytes at once.
pub proof fn law_reads_are_small(session: Session<Seq<u8>>, event: Event<Seq<u8>>)
    requires
        session.accepts(event),
    ensures
        session.reaction(event).1 matches Action::Read(n) ==> n <= 257,
{
}

/// A failed step ends the session with the error, and nothing else is done.
pub proof fn law_failure_ends_the_session(session: Session<Seq<u8>>, e: Error)
    requires
        session.accepts(Event::Failed(e)),
    ensures
        session.reaction(Event::Failed(e)) == (
            Phase::<Seq<u8>>::Closed,
            Action::<Seq<u8>, Seq<char>>::Close(Err(e)),
        ),
{
}

/// A session is over exactly when it has said how it ends, and then takes no
/// further event. What it demands of the client and the network it uses stay the
/// same throughout.
pub proof fn law_the_end_is_final(session: Session<Seq<u8>>, event: Event<Seq<u8>>)
    requires
        session.accepts(event),
    ensures
        session.reaction(event).1 is Close <==> session.after(event).phase is Closed,
        session.after(event).phase is Closed ==> forall|later: Event<Seq<u8>>|
            !session.after(event).accepts(later),
        session.after(event).creds == session.creds,
        session.after(event).net == session.net,
{
}

/// Whether an action does more than talk with the client and end the session.
pub open spec fn is_service(action: Action<Seq<u8>, Seq<char>>) -> bool {
    !(action is Read || action is Write || action is Close)
}

/// The bytes that the `i`-th event brings.
pub open spec fn said(events: Seq<Event<Seq<u8>>>, i: int) -> Seq<u8> {
    match events[i] {
        Event::Read(b) => b,
        _ => Seq::empty(),
    }
}

/// Whether a session begins with a login that succeeds: the client offers the
/// password method and sends a username and a password with the expected digest.
pub open spec fn logged_in(events: Seq<Event<Seq<u8>>>, expect: [u8; 32]) -> bool {
    let methods = said(events, 1);
    let username = said(events, 4).drop_last();
    let password = said(events, 5);
    &&& events.len() >= 7
    &&& events.take(7) == login(methods, username, password)
    &&& methods.contains(METHOD_USERPASS)
    &&& sha256_digest(username + password) == expect@
}

/// Whether a session begins with a greeting to which the answer is `method`.
spec fn greeted(events: Seq<Event<Seq<u8>>>, expect: [u8; 32], method: u8) -> bool {
    let methods = said(events, 1);
    &&& events.len() >= 2
    &&& events[0] == Event::Read(seq![SOCKS_VERSION, methods.len() as u8])
    &&& events[1] == Event::Read(methods)
    &&& method == chosen_method(Some(expect), methods)
}

/// Whether a session begins with a greeting and the head of a password exchange.
spec fn asked(events: Seq<Event<Seq<u8>>>, expect: [u8; 32], ulen: u8) -> bool {
    &&& greeted(events, expect, METHOD_USERPASS)
    &&& events.len() >= 4
    &&& events[2] == Event::<Seq<u8>>::Written
    &&& events[3] == Event::Read(seq![USERPASS_VERSION, ulen])
}

/// Whether a session begins with a greeting and a password exchange up to the
/// username.
spec fn named(events: Seq<Event<Seq<u8>>>, expect: [u8; 32], username: Seq<u8>, plen: u8) -> bool {
    &&& asked(events, expect, username.len() as u8)
    &&& events.len() >= 5
    &&& events[4] == Event::Read(username.push(plen))
}

/// What is known about a session that demands a password.
spec fn guarded(
    session: Session<Seq<u8>>,
    events: Seq<Event<Seq<u8>>>,
    expect: [u8; 32],
) -> bool {
    &&& session.creds == Some(expect)
    &&& match session.phase {
        Phase::Handshake(stage) => match stage {
            Stage::Greeting => events.len() == 0,
            Stage::Methods { count } => {
                &&& events.len() == 1
                &&& events[0] == Event::Read(seq![SOCKS_VERSION, count])
            },
            Stage::Chosen { method } => events.len() == 2 && greeted(events, expect, method),
            Stage::AuthHead { expect: e } => {
                &&& e == expect
                &&& events.len() == 3
                &&& greeted(events, expect, METHOD_USERPASS)
                &&& events[2] == Event::<Seq<u8>>::Written
            },
            Stage::AuthUser { expect: e, ulen } => {
                &&& e == expect
                &&& events.len() == 4
                &&& asked(events, expect, ulen)
            },
            Stage::AuthPass { expect: e, username, plen } => {
                &&& e == expect
                &&& events.len() == 5
                &&& named(events, expect, username, plen)
            },
            Stage::Verdict { granted } => {
                let username = said(events, 4).drop_last();
                let password = said(events, 5);
                &&& events.len() == 6
                &&& named(events, expect, username, password.len() as u8)
                &&& events[5] == Event::Read(password)
                &&& granted == (sha256_digest(username + password) == expect@)
            },
            _ => logged_in(events, expect),
        },
        Phase::Closed => true,
        _ => logged_in(events, expect),
    }
}

proof fn lemma_guarded(net: Net, events: Seq<Event<Seq<u8>>>, expect: [u8; 32])
    requires
        possible(Session::initial(net, Some(expect)), events),
    ensures
        guarded(run(Session::initial(net, Some(expect)), events), events, expect),
        events.len() > 0 && is_service(
            answers(Session::initial(net, Some(expect)), events).last(),
        ) ==> logged_in(events, expect),
    decreases events.len(),
{
    let start = Session::initial(net, Some(expect));
    if events.len() > 0 {
        let before = events.drop_last();
        let event = events.last();
        lemma_guarded(net, before, expect);
        let session = run(start, before);
        if logged_in(before, expect) {
            assert(before.take(7) =~= events.take(7));
        }
        if let Phase::Handshake(stage) = session.phase {
            if let Event::Read(b) = event {
                match stage {
                    Stage::Greeting => {
                        assert(b =~= seq![b[0], b[1]]);
                    },
                    Stage::AuthHead { .. } => {
                        assert(b =~= seq![b[0], b[1]]);
                    },
                    Stage::AuthUser { .. } => {
                        assert(b =~= b.drop_last().push(b.last()));
                    },
                    Stage::AuthPass { username, plen, .. } => {
                        assert(username.push(plen).drop_last() =~= username);
                    },
                    _ => {},
                }
            }
            if stage is Verdict && stage->granted && event is Written {
                let username = said(events, 4).drop_last();
                assert(events.take(7) =~= login(said(events, 1), username, said(events, 5)));
            }
        }
    }
}

/// A server with credentials serves nobody whose session does not begin with a
/// username and a password that have the expected digest: until then it only reads
/// from the client, writes to it and closes the session.
pub proof fn law_service_requires_the_password(
    net: Net,
    expect: [u8; 32],
    events: Seq<Event<Seq<u8>>>,
    i: int,
)
    requires
        possible(Session::initial(net, Some(expect)), events),
        0 <= i < events.len(),
        is_service(answers(Session::initial(net, Some(expect)), events)[i]),
    ensures
        logged_in(events.take(i + 1), expect),
    decreases events.len(),
{
    let start = Session::initial(net, Some(expect));
    lemma_answers(start, events);
    lemma_answers(start, events.drop_last());
    if i == events.len() - 1 {
        lemma_guarded(net, events, expect);
        assert(events.take(i + 1) =~= events);
    } else {
        law_service_requires_the_password(net, expect, events.drop_last(), i);
        assert(events.drop_last().take(i + 1) =~= events.take(i + 1));
    }
}

/// A client's greeting and the report that it was answered.
pub open spec fn greeting(methods: Seq<u8>) -> Seq<Event<Seq<u8>>> {
    seq![
        Event::Read(seq![SOCKS_VERSION, methods.len() as u8]),
        Event::Read(methods),
        Event::Written,
    ]
}

/// A client's greeting, its username and password, and the reports that they were
/// answered.
pub open spec fn login(methods: Seq<u8>, username: Seq<u8>, password: Seq<u8>) -> Seq<
    Event<Seq<u8>>,
> {
    seq![
        Event::Read(seq![SOCKS_VERSION, methods.len() as u8]),
        Event::Read(methods),
        Event::Written,
        Event::Read(seq![USERPASS_VERSION, username.len() as u8]),
        Event::Read(username.push(password.len() as u8)),
        Event::Read(password),
        Event::Written,
    ]
}

proof fn lemma_greeting(net: Net, creds: Creds, methods: Seq<u8>)
    requires
        methods.len() <= 255,
    ensures
        ({
            let start = Session::initial(net, creds);
            let heard = seq![
                Event::Read(seq![SOCKS_VERSION, methods.len() as u8]),
                Event::Read(methods),
            ];
            let method = chosen_method(creds, methods);
            &&& possible(start, heard)
            &&& run(start, heard) == Session {
                creds,
                net,
                phase: Phase::Handshake(Stage::<Seq<u8>>::Chosen { method }),
            }
            &&& answers(start, heard) == seq![
                Action::<Seq<u8>, Seq<char>>::Read(methods.len() as usize),
                Action::<Seq<u8>, Seq<char>>::Write(seq![SOCKS_VERSION, method]),
            ]
        }),
{
    let start = Session::initial(net, creds);
    let e0 = Event::Read(seq![SOCKS_VERSION, methods.len() as u8]);
    let e1 = Event::Read(methods);
    let s1 = Seq::empty().push(e0);
    lemma_push(start, Seq::empty(), e0);
    lemma_push(start, s1, e1);
    assert(seq![e0, e1] =~= s1.push(e1));
    let method = chosen_method(creds, methods);
    assert(answers(start, seq![e0, e1]) =~= seq![
        Action::<Seq<u8>, Seq<char>>::Read(methods.len() as usize),
        Action::Write(seq![SOCKS_VERSION, method]),
    ]);
}

/// What a client sends and is told from the moment that the password method was
/// chosen.
proof fn lemma_exchange(net: Net, expect: [u8; 32], username: Seq<u8>, password: Seq<u8>)
    requires
        username.len() <= 255,
        password.len() <= 255,
    ensures
        ({
            let start = Session {
                creds: Some(expect),
                net,
                phase: Phase::Handshake(Stage::<Seq<u8>>::Chosen { method: METHOD_USERPASS }),
            };
            let events = seq![
                Event::Written,
                Event::Read(seq![USERPASS_VERSION, username.len() as u8]),
                Event::Read(username.push(password.len() as u8)),
                Event::Read(password),
                Event::Written,
            ];
            let granted = sha256_digest(username + password) == expect@;
            let status = if granted {
                0u8
            } else {
                1u8
            };
            &&& possible(start, events)
            &&& run(start, events).phase == if granted {
                Phase::Handshake(Stage::<Seq<u8>>::Request)
            } else {
                Phase::Closed
            }
            &&& answers(start, events) == seq![
                Action::<Seq<u8>, Seq<char>>::Read(2),
                Action::Read((username.len() + 1) as usize),
                Action::Read(password.len() as usize),
                Action::Write(seq![USERPASS_VERSION, status]),
                if granted {
                    Action::Read(4)
                } else {
                    Action::Close(Err(plain_error(ErrorKind::PermissionDenied)))
                },
            ]
        }),
{
    let start = Session {
        creds: Some(expect),
        net,
        phase: Phase::Handshake(Stage::<Seq<u8>>::Chosen { method: METHOD_USERPASS }),
    };
    let granted = sha256_digest(username + password) == expect@;
    let status = if granted {
        0u8
    } else {
        1u8
    };
    let e1 = Event::Read(seq![USERPASS_VERSION, username.len() as u8]);
    let e2 = Event::Read(username.push(password.len() as u8));
    let e3 = Event::Read(password);
    let s1 = Seq::empty().push(Event::Written);
    let s2 = s1.push(e1);
    let s3 = s2.push(e2);
    let s4 = s3.push(e3);
    let s5 = s4.push(Event::Written);
    lemma_push(start, Seq::empty(), Event::Written);
    assert(run(start, s1).phase == Phase::Handshake(Stage::<Seq<u8>>::AuthHead { expect }));
    lemma_push(start, s1, e1);
    assert(run(start, s2).phase == Phase::Handshake(
        Stage::<Seq<u8>>::AuthUser { expect, ulen: username.len() as u8 },
    ));
    lemma_push(start, s2, e2);
    assert(username.push(password.len() as u8).drop_last() =~= username);
    assert(run(start, s3).phase == Phase::Handshake(
        Stage::AuthPass { expect, username, plen: password.len() as u8 },
    ));
    lemma_push(start, s3, e3);
    assert(run(start, s4).phase == Phase::Handshake(Stage::<Seq<u8>>::Verdict { granted }));
    lemma_push(start, s4, Event::Written);
    assert(s5 =~= seq![Event::Written, e1, e2, e3, Event::Written]);
    assert(answers(start, s5) =~= seq![
        Action::<Seq<u8>, Seq<char>>::Read(2),
        Action::Read((username.len() + 1) as usize),
        Action::Read(password.len() as usize),
        Action::Write(seq![USERPASS_VERSION, status]),
        if granted {
            Action::Read(4)
        } else {
            Action::Close(Err(plain_error(ErrorKind::PermissionDenied)))
        },
    ]);
}

/// Two items and five more.
proof fn lemma_join<A>(a: A, b: A, c: A, d: A, e: A, f: A, g: A)
    ensures
        seq![a, b] + seq![c, d, e, f, g] == seq![a, b, c, d, e, f, g],
{
    assert(seq![a, b] + seq![c, d, e, f, g] =~= seq![a, b, c, d, e, f, g]);
}

/// A client that offers the password method and sends a username and a password
/// with the expected digest is told so and may make its request. With any others
/// it is told so, and the session ends.
#[verifier::rlimit(30)]
pub proof fn law_the_password_decides(
    net: Net,
    expect: [u8; 32],
    methods: Seq<u8>,
    username: Seq<u8>,
    password: Seq<u8>,
)
    requires
        methods.len() <= 255,
        methods.contains(METHOD_USERPASS),
        username.len() <= 255,
        password.len() <= 255,
    ensures
        ({
            let start = Session::initial(net, Some(expect));
            let events = login(methods, username, password);
            let granted = sha256_digest(username + password) == expect@;
            let status = if granted {
                0u8
            } else {
                1u8
            };
            &&& possible(start, events)
            &&& run(start, events).phase == if granted {
                Phase::Handshake(Stage::<Seq<u8>>::Request)
            } else {
                Phase::Closed
            }
            &&& answers(start, events) == seq![
                Action::<Seq<u8>, Seq<char>>::Read(methods.len() as usize),
                Action::Write(seq![SOCKS_VERSION, METHOD_USERPASS]),
                Action::Read(2),
                Action::Read((username.len() + 1) as usize),
                Action::Read(password.len() as usize),
                Action::Write(seq![USERPASS_VERSION, status]),
                if granted {
                    Action::Read(4)
                } else {
                    Action::Close(Err(plain_error(ErrorKind::PermissionDenied)))
                },
            ]
        }),
{
    let start = Session::initial(net, Some(expect));
    let e0 = Event::Read(seq![SOCKS_VERSION, methods.len() as u8]);
    let e1 = Event::Read(methods);
    let e3 = Event::Read(seq![USERPASS_VERSION, username.len() as u8]);
    let e4 = Event::Read(username.push(password.len() as u8));
    let e5 = Event::Read(password);
    lemma_greeting(net, Some(expect), methods);
    lemma_exchange(net, expect, username, password);
    lemma_append(start, seq![e0, e1], seq![Event::Written, e3, e4, e5, Event::Written]);
    lemma_join(e0, e1, Event::Written, e3, e4, e5, Event::Written);
    let granted = sha256_digest(username + password) == expect@;
    let status = if granted {
        0u8
    } else {
        1u8
    };
    lemma_join(
        Action::<Seq<u8>, Seq<char>>::Read(methods.len() as usize),
        Action::Write(seq![SOCKS_VERSION, METHOD_USERPASS]),
        Action::Read(2),
        Action::Read((username.len() + 1) as usize),
        Action::Read(password.len() as usize),
        Action::Write(seq![USERPASS_VERSION, status]),
        if granted {
            Action::Read(4)
        } else {
            Action::Close(Err(plain_error(ErrorKind::PermissionDenied)))
        },
    );
}

/// A client of a server without credentials may make its request as soon as it
/// has offered the method without authentication.
pub proof fn law_an_open_server_asks_for_nothing(net: Net, methods: Seq<u8>)
    requires
        methods.len() <= 255,
        methods.contains(METHOD_NO_AUTH),
    ensures
        ({
            let start = Session::initial(net, None);
            let events = greeting(methods);
            &&& possible(start, events)
            &&& run(start, events).phase == Phase::Handshake(Stage::<Seq<u8>>::Request)
            &&& answers(start, events) == seq![
                Action::<Seq<u8>, Seq<char>>::Read(methods.len() as usize),
                Action::Write(seq![SOCKS_VERSION, METHOD_NO_AUTH]),
                Action::Read(4),
            ]
        }),
{
    let start = Session::initial(net, None);
    lemma_greeting(net, None, methods);
    let heard = seq![
        Event::Read(seq![SOCKS_VERSION, methods.len() as u8]),
        Event::Read(methods),
    ];
    lemma_push(start, heard, Event::Written);
    assert(greeting(methods) =~= heard.push(Event::Written));
    assert(answers(start, greeting(methods)) =~= seq![
        Action::<Seq<u8>, Seq<char>>::Read(methods.len() as usize),
        Action::Write(seq![SOCKS_VERSION, METHOD_NO_AUTH]),
        Action::Read(4),
    ]);
}

/// A client that does not offer the method that the server's credentials call for
/// is told so, and the session ends without an error.
pub proof fn law_no_acceptable_method_ends_the_session(net: Net, creds: Creds, methods: Seq<u8>)
    requires
        methods.len() <= 255,
        !methods.contains(
            if creds is Some {
                METHOD_USERPASS
            } else {
                METHOD_NO_AUTH
            },
        ),
    ensures
        ({
            let start = Session::initial(net, creds);
            let events = greeting(methods);
            &&& possible(start, events)
            &&& run(start, events).phase is Closed
            &&& answers(start, events) == seq![
                Action::<Seq<u8>, Seq<char>>::Read(methods.len() as usize),
                Action::Write(seq![SOCKS_VERSION, METHOD_NONE_ACCEPTABLE]),
                Action::Close(Ok(())),
            ]
        }),
{
    let start = Session::initial(net, creds);
    lemma_greeting(net, creds, methods);
    let heard = seq![
        Event::Read(seq![SOCKS_VERSION, methods.len() as u8]),
        Event::Read(methods),
    ];
    lemma_push(start, heard, Event::Written);
    assert(greeting(methods) =~= heard.push(Event::Written));
    assert(answers(start, greeting(methods)) =~= seq![
        Action::<Seq<u8>, Seq<char>>::Read(methods.len() as usize),
        Action::Write(seq![SOCKS_VERSION, METHOD_NONE_ACCEPTABLE]),
        Action::Close(Ok(())),
    ]);
}

/// A session in which the client may make its request.
pub open spec fn before_request(net: Net, creds: Creds) -> Session<Seq<u8>> {
    Session { creds, net, phase: Phase::Handshake(Stage::Request) }
}

/// A request that names an IP address leads to the service that its command calls
/// for, with that address and port (flow label and scope are not carried).
pub proof fn law_a_request_for_an_address_is_served(
    net: Net,
    creds: Creds,
    cmd: u8,
    rsv: u8,
    target: SocketAddr,
)
    ensures
        ({
            let start = before_request(net, creds);
            let wire = wire_addr(target);
            let events = seq![
                Event::Read(seq![SOCKS_VERSION, cmd, rsv, wire[0]]),
                Event::Read(wire.skip(1)),
            ];
            &&& possible(start, events)
            &&& run(start, events).phase == served(cmd, target.plain()).0
            &&& answers(start, events) == seq![
                Action::<Seq<u8>, Seq<char>>::Read((wire.len() - 1) as usize),
                served(cmd, target.plain()).1,
            ]
        }),
{
    let start = before_request(net, creds);
    let wire = wire_addr(target);
    let e0 = Event::Read(seq![SOCKS_VERSION, cmd, rsv, wire[0]]);
    let e1 = Event::Read(wire.skip(1));
    let s1 = Seq::empty().push(e0);
    lemma_push(start, Seq::empty(), e0);
    lemma_push(start, s1, e1);
    law_be16_round_trip(target.spec_port(), 0, 0);
    assert(seq![e0, e1] =~= s1.push(e1));
    match target {
        SocketAddr::V4 { ip, port } => {
            assert(wire.skip(1) =~= ip@ + be16(port));
            assert(v4_octets(wire.skip(1)) =~= ip);
        },
        SocketAddr::V6 { ip, port, .. } => {
            assert(wire.skip(1) =~= ip@ + be16(port));
            assert(v6_octets(wire.skip(1)) =~= ip);
        },
    }
    assert(answers(start, seq![e0, e1]) =~= seq![
        Action::<Seq<u8>, Seq<char>>::Read((wire.len() - 1) as usize),
        served(cmd, target.plain()).1,
    ]);
}

/// The address in a reply is read as a target, whatever follows it: of the bytes
/// after the reply's address type exactly those of the address are asked for, and
/// they stand for the replied IP address and port.
pub proof fn law_a_replied_address_is_read_as_a_target(
    net: Net,
    creds: Creds,
    rep: u8,
    bound: SocketAddr,
    cmd: u8,
    rsv: u8,
    rest: Seq<u8>,
)
    ensures
        ({
            let start = before_request(net, creds);
            let msg = reply_message(rep, bound);
            let len = msg.len() - 4;
            let octets = (msg.skip(4) + rest).take(len);
            let events = seq![
                Event::Read(seq![SOCKS_VERSION, cmd, rsv, msg[3]]),
                Event::Read(octets),
            ];
            &&& requested(cmd, msg[3]).1 == Action::<Seq<u8>, Seq<char>>::Read(len as usize)
            &&& bound.plain() == if bound is V4 {
                v4_target(octets)
            } else {
                v6_target(octets)
            }
            &&& possible(start, events)
            &&& run(start, events).phase == served(cmd, bound.plain()).0
            &&& answers(start, events) == seq![
                requested(cmd, msg[3]).1,
                served(cmd, bound.plain()).1,
            ]
        }),
{
    let msg = reply_message(rep, bound);
    let wire = wire_addr(bound);
    let octets = (msg.skip(4) + rest).take(msg.len() - 4);
    assert(octets =~= wire.skip(1));
    lemma_target_of_wire_addr(bound, Seq::empty());
    assert((wire + Seq::empty()).subrange(1, wire.len() as int) =~= octets);
    law_a_request_for_an_address_is_served(net, creds, cmd, rsv, bound);
}

/// A request that names a host leads to a lookup of that name and, for the first
/// address found, to the service that its command calls for.
pub proof fn law_a_request_for_a_host_is_served(
    net: Net,
    creds: Creds,
    cmd: u8,
    rsv: u8,
    name: Seq<u8>,
    port: u16,
    found: Vec<SocketAddr>,
)
    requires
        name.len() <= 255,
        found@.len() > 0,
    ensures
        ({
            let start = before_request(net, creds);
            let events = seq![
                Event::Read(seq![SOCKS_VERSION, cmd, rsv, ATYP_FQDN]),
                Event::Read(seq![name.len() as u8]),
                Event::Read(name + be16(port)),
                Event::Resolved(Ok(found)),
            ];
            &&& possible(start, events)
            &&& run(start, events).phase == served(cmd, found@[0]).0
            &&& answers(start, events) == seq![
                Action::<Seq<u8>, Seq<char>>::Read(1),
                Action::Read((name.len() + 2) as usize),
                Action::Lookup { host: utf8_lossy(name), port },
                served(cmd, found@[0]).1,
            ]
        }),
{
    let start = before_request(net, creds);
    let e0 = Event::Read(seq![SOCKS_VERSION, cmd, rsv, ATYP_FQDN]);
    let e1 = Event::Read(seq![name.len() as u8]);
    let e2 = Event::Read(name + be16(port));
    let e3 = Event::Resolved(Ok(found));
    let s1 = Seq::empty().push(e0);
    let s2 = s1.push(e1);
    let s3 = s2.push(e2);
    lemma_push(start, Seq::empty(), e0);
    lemma_push(start, s1, e1);
    law_be16_round_trip(port, 0, 0);
    assert((name + be16(port)).take(name.len() as int) =~= name);
    lemma_push(start, s2, e2);
    lemma_push(start, s3, e3);
    assert(seq![e0, e1, e2, e3] =~= s3.push(e3));
    assert(answers(start, seq![e0, e1, e2, e3]) =~= seq![
        Action::<Seq<u8>, Seq<char>>::Read(1),
        Action::Read((name.len() + 2) as usize),
        Action::Lookup { host: utf8_lossy(name), port },
        served(cmd, found@[0]).1,
    ]);
}

/// A message of an unknown version ends the session as unsupported, without an
/// answer: in the greeting, in the password exchange and in the request.
pub proof fn law_unknown_versions_end_the_session(session: Session<Seq<u8>>, head: Seq<u8>)
    requires
        match session.phase {
            Phase::Handshake(Stage::Greeting) => head[0] != SOCKS_VERSION,
            Phase::Handshake(Stage::AuthHead { .. }) => head[0] != USERPASS_VERSION,
            Phase::Handshake(Stage::Request) => head[0] != SOCKS_VERSION,
            _ => false,
        },
        session.accepts(Event::Read(head)),
    ensures
        session.reaction(Event::Read(head)) == (
            Phase::<Seq<u8>>::Closed,
            Action::<Seq<u8>, Seq<char>>::Close(
                Err(Error { kind: ErrorKind::Unsupported, message: None }),
            ),
        ),
{
}

/// A request with an unknown address type or an unknown command ends the session as
/// unsupported, without an answer.
pub proof fn law_unknown_requests_end_the_session(
    net: Net,
    creds: Creds,
    head: Seq<u8>,
    cmd: u8,
    target: SocketAddr,
)
    requires
        head.len() == 4,
        head[3] != ATYP_V4 && head[3] != ATYP_V6 && head[3] != ATYP_FQDN,
        cmd != CMD_CONNECT && cmd != CMD_BIND && cmd != CMD_UDP_ASSOCIATE,
    ensures
        before_request(net, creds).accepts(Event::Read(head)),
        before_request(net, creds).reaction(Event::Read(head)) == (
            Phase::<Seq<u8>>::Closed,
            Action::<Seq<u8>, Seq<char>>::Close(
                Err(Error { kind: ErrorKind::Unsupported, message: None }),
            ),
        ),
        served(cmd, target) == (
            Phase::<Seq<u8>>::Closed,
            Action::<Seq<u8>, Seq<char>>::Close(
                Err(Error { kind: ErrorKind::Unsupported, message: None }),
            ),
        ),
{
}

/// A request for a host ends the session if the host has no address, as
/// unreachable, or if the lookup fails, with the lookup's error.
pub proof fn law_an_unknown_host_ends_the_session(
    net: Net,
    creds: Creds,
    cmd: u8,
    found: Vec<SocketAddr>,
    e: Error,
)
    requires
        found@.len() == 0,
    ensures
        ({
            let session = Session {
                creds,
                net,
                phase: Phase::Handshake(Stage::<Seq<u8>>::Lookup { cmd }),
            };
            &&& session.reaction(Event::Resolved(Ok(found))) == (
            Phase::<Seq<u8>>::Closed,
            Action::<Seq<u8>, Seq<char>>::Close(
                Err(Error { kind: ErrorKind::HostUnreachable, message: None }),
            ),
        )
            &&& session.reaction(Event::Resolved(Err(e))) == (
                Phase::<Seq<u8>>::Closed,
                Action::<Seq<u8>, Seq<char>>::Close(Err(e)),
            )
        }),
{
}

/// A client whose target was reached is told the connection's local address and
/// is then connected; one whose target was not is told why, and the session ends
/// without an error.
pub proof fn law_connect_reports_the_outcome(
    net: Net,
    creds: Creds,
    target: SocketAddr,
    local: SocketAddr,
    e: Error,
)
    ensures
        ({
            let start = Session {
                creds,
                net,
                phase: Phase::Connect(ConnectStage::Connecting { target }),
            };
            let reached = seq![Event::<Seq<u8>>::Addr(local), Event::Written, Event::Relayed];
            let missed = seq![Event::<Seq<u8>>::Refused(e), Event::Written];
            &&& possible(start, reached)
            &&& answers(start, reached) == seq![
                Action::<Seq<u8>, Seq<char>>::Write(reply_message(REP_SUCCESS, local)),
                Action::Relay { buffer: Some(RELAY_BUF) },
                Action::Close(Ok(())),
            ]
            &&& possible(start, missed)
            &&& answers(start, missed) == seq![
                Action::<Seq<u8>, Seq<char>>::Write(reply_message(reply_code(e.kind), target)),
                Action::Close(Ok(())),
            ]
        }),
{
    let start = Session { creds, net, phase: Phase::Connect(ConnectStage::Connecting { target }) };
    let reached = Event::<Seq<u8>>::Addr(local);
    let r1 = Seq::empty().push(reached);
    let r2 = r1.push(Event::Written);
    lemma_push(start, Seq::empty(), reached);
    lemma_push(start, r1, Event::Written);
    lemma_push(start, r2, Event::Relayed);
    assert(seq![reached, Event::Written, Event::Relayed] =~= r2.push(Event::Relayed));
    assert(answers(start, r2.push(Event::Relayed)) =~= seq![
        Action::<Seq<u8>, Seq<char>>::Write(reply_message(REP_SUCCESS, local)),
        Action::Relay { buffer: Some(RELAY_BUF) },
        Action::Close(Ok(())),
    ]);
    let missed = Event::<Seq<u8>>::Refused(e);
    let m1 = Seq::empty().push(missed);
    lemma_push(start, Seq::empty(), missed);
    lemma_push(start, m1, Event::Written);
    assert(seq![missed, Event::Written] =~= m1.push(Event::Written));
    assert(answers(start, m1.push(Event::Written)) =~= seq![
        Action::<Seq<u8>, Seq<char>>::Write(reply_message(reply_code(e.kind), target)),
        Action::Close(Ok(())),
    ]);
}

/// The arrival of one peer after another.
pub open spec fn arrivals(peers: Seq<SocketAddr>) -> Seq<Event<Seq<u8>>> {
    Seq::new(peers.len(), |i: int| Event::Accepted(peers[i]))
}

/// The order to accept a connection, `n` times.
pub open spec fn accepts_again(n: nat) -> Seq<Action<Seq<u8>, Seq<char>>> {
    Seq::new(n, |i: int| Action::Accept)
}

/// A session that waits for a peer.
pub open spec fn waiting_for(net: Net, creds: Creds, expected: IpAddr) -> Session<Seq<u8>> {
    Session { creds, net, phase: Phase::Bind(BindStage::Accepting { expected }) }
}

/// Connections from others than the expected peer are passed over, however many
/// there are: after each of them the session still waits, and accepts again. The
/// first expected peer to arrive after them is the one that the client is told of.
pub proof fn law_bind_passes_over_strangers(
    net: Net,
    creds: Creds,
    expected: IpAddr,
    strangers: Seq<SocketAddr>,
    peer: SocketAddr,
)
    requires
        forall|i: int| 0 <= i < strangers.len() ==> !peer_is_expected(expected, strangers[i]),
        peer_is_expected(expected, peer),
    ensures
        ({
            let start = waiting_for(net, creds, expected);
            let passed = arrivals(strangers);
            let events = passed.push(Event::Accepted(peer));
            &&& possible(start, passed)
            &&& run(start, passed) == start
            &&& answers(start, passed) == accepts_again(strangers.len())
            &&& possible(start, events)
            &&& run(start, events).phase == Phase::<Seq<u8>>::Bind(BindStage::Introducing)
            &&& answers(start, events) == accepts_again(strangers.len()).push(
                Action::Write(reply_message(REP_SUCCESS, peer)),
            )
        }),
    decreases strangers.len(),
{
    let start = waiting_for(net, creds, expected);
    let passed = arrivals(strangers);
    if strangers.len() > 0 {
        let before = strangers.drop_last();
        law_bind_passes_over_strangers(net, creds, expected, before, peer);
        lemma_push(start, arrivals(before), Event::Accepted(strangers.last()));
        assert(passed =~= arrivals(before).push(Event::Accepted(strangers.last())));
    }
    assert(answers(start, passed) =~= accepts_again(strangers.len()));
    lemma_push(start, passed, Event::Accepted(peer));
}

/// A client that waits for a peer is told first where the server listens (on the IP
/// address that the client reached the server at), then who has connected, and is
/// then connected to that peer. Any number of connections from others are passed
/// over before.
#[verifier::rlimit(30)]
pub proof fn law_bind_reports_each_step(
    net: Net,
    creds: Creds,
    expected: IpAddr,
    control: SocketAddr,
    listener: SocketAddr,
    strangers: Seq<SocketAddr>,
    peer: SocketAddr,
)
    requires
        forall|i: int| 0 <= i < strangers.len() ==> !peer_is_expected(expected, strangers[i]),
        peer_is_expected(expected, peer),
    ensures
        ({
            let start = Session { creds, net, phase: Phase::Bind(BindStage::Locating { expected }) };
            let events = seq![Event::<Seq<u8>>::Addr(control), Event::Addr(listener), Event::Written]
                + arrivals(strangers) + seq![
                Event::Accepted(peer),
                Event::Written,
                Event::Relayed,
            ];
            &&& possible(start, events)
            &&& answers(start, events) == seq![
                Action::<Seq<u8>, Seq<char>>::Listen(SocketAddr::of(control.spec_ip(), 0)),
                Action::Write(reply_message(REP_SUCCESS, listener)),
                Action::Accept,
            ] + accepts_again(strangers.len()) + seq![
                Action::Write(reply_message(REP_SUCCESS, peer)),
                Action::Relay { buffer: None },
                Action::Close(Ok(())),
            ]
        }),
{
    let start = Session { creds, net, phase: Phase::Bind(BindStage::Locating { expected }) };
    let s1 = Seq::empty().push(Event::<Seq<u8>>::Addr(control));
    let s2 = s1.push(Event::Addr(listener));
    let opening = s2.push(Event::Written);
    lemma_push(start, Seq::empty(), Event::Addr(control));
    lemma_push(start, s1, Event::Addr(listener));
    lemma_push(start, s2, Event::Written);
    let told = seq![
        Action::<Seq<u8>, Seq<char>>::Listen(SocketAddr::of(control.spec_ip(), 0)),
        Action::Write(reply_message(REP_SUCCESS, listener)),
        Action::Accept,
    ];
    assert(answers(start, opening) =~= told);
    let waiting = waiting_for(net, creds, expected);
    assert(run(start, opening) == waiting);

    let met = arrivals(strangers).push(Event::Accepted(peer));
    let m1 = met.push(Event::Written);
    let m2 = m1.push(Event::Relayed);
    law_bind_passes_over_strangers(net, creds, expected, strangers, peer);
    lemma_push(waiting, met, Event::Written);
    lemma_push(waiting, m1, Event::Relayed);
    let introduced = seq![
        Action::<Seq<u8>, Seq<char>>::Write(reply_message(REP_SUCCESS, peer)),
        Action::Relay { buffer: None },
        Action::Close(Ok(())),
    ];
    assert(answers(waiting, m2) =~= accepts_again(strangers.len()) + introduced);

    lemma_append(start, opening, m2);
    assert(opening + m2 =~= seq![
        Event::<Seq<u8>>::Addr(control),
        Event::Addr(listener),
        Event::Written,
    ] + arrivals(strangers) + seq![Event::Accepted(peer), Event::Written, Event::Relayed]);
    assert(answers(start, opening + m2) =~= told + accepts_again(strangers.len()) + introduced);
}

/// A client whose peer cannot be waited for, or cannot be accepted, is told why
/// with the address `0.0.0.0:0`, and the session ends without an error.
pub proof fn law_bind_reports_failures(net: Net, creds: Creds, expected: IpAddr, e: Error)
    ensures
        ({
            let opening = Session {
                creds,
                net,
                phase: Phase::Bind(BindStage::Opening { expected }),
            };
            let accepting = Session {
                creds,
                net,
                phase: Phase::Bind(BindStage::Accepting { expected }),
            };
            let events = seq![Event::<Seq<u8>>::Refused(e), Event::Written];
            let told = seq![
                Action::<Seq<u8>, Seq<char>>::Write(
                    reply_message(reply_code(e.kind), SocketAddr::of(any_ip(false), 0)),
                ),
                Action::Close(Ok(())),
            ];
            &&& possible(opening, events)
            &&& answers(opening, events) == told
            &&& possible(accepting, events)
            &&& answers(accepting, events) == told
        }),
{
    let opening = Session { creds, net, phase: Phase::Bind(BindStage::Opening { expected }) };
    let accepting = Session { creds, net, phase: Phase::Bind(BindStage::Accepting { expected }) };
    let s1 = Seq::empty().push(Event::<Seq<u8>>::Refused(e));
    let s2 = s1.push(Event::Written);
    lemma_push(opening, Seq::empty(), Event::Refused(e));
    lemma_push(opening, s1, Event::Written);
    lemma_push(accepting, Seq::empty(), Event::Refused(e));
    lemma_push(accepting, s1, Event::Written);
    let told = seq![
        Action::<Seq<u8>, Seq<char>>::Write(
            reply_message(reply_code(e.kind), SocketAddr::of(any_ip(false), 0)),
        ),
        Action::Close(Ok(())),
    ];
    assert(s2 =~= seq![Event::<Seq<u8>>::Refused(e), Event::Written]);
    assert(answers(opening, s2) =~= told);
    assert(answers(accepting, s2) =~= told);
}

/// Whether the `i`-th event is the arrival of an expected peer, and the
/// client is told its address. Those who arrived earlier were not expected, and
/// nobody was accepted later.
pub open spec fn introduced_at(
    start: Session<Seq<u8>>,
    events: Seq<Event<Seq<u8>>>,
    i: int,
    expected: IpAddr,
) -> bool {
    &&& events[i] matches Event::Accepted(peer)
    &&& peer_is_expected(expected, peer)
    &&& answers(start, events)[i] == Action::<Seq<u8>, Seq<char>>::Write(
        reply_message(REP_SUCCESS, peer),
    )
    &&& only_strangers(events.take(i), expected)
    &&& forall|j: int| i < j < events.len() ==> !(#[trigger] events[j] is Accepted)
}

/// Whether no expected peer has arrived.
pub open spec fn only_strangers(events: Seq<Event<Seq<u8>>>, expected: IpAddr) -> bool {
    forall|j: int| 0 <= j < events.len() ==> (#[trigger] events[j] matches Event::Accepted(peer)
        ==> !peer_is_expected(expected, peer))
}

/// Whether an expected peer has arrived and the client was told.
pub open spec fn introduced(
    start: Session<Seq<u8>>,
    events: Seq<Event<Seq<u8>>>,
    expected: IpAddr,
) -> bool {
    exists|i: int| 0 <= i < events.len() && #[trigger] introduced_at(start, events, i, expected)
}

/// What is known about a session that waits for a peer.
spec fn screened(
    start: Session<Seq<u8>>,
    events: Seq<Event<Seq<u8>>>,
    expected: IpAddr,
) -> bool {
    match run(start, events).phase {
        Phase::Bind(stage) => match stage {
            BindStage::Locating { expected: x } => x == expected && only_strangers(events, expected),
            BindStage::Opening { expected: x } => x == expected && only_strangers(events, expected),
            BindStage::Announcing { expected: x } => {
                x == expected && only_strangers(events, expected)
            },
            BindStage::Accepting { expected: x } => {
                x == expected && only_strangers(events, expected)
            },
            BindStage::Refusing => true,
            _ => introduced(start, events, expected),
        },
        Phase::Closed => true,
        _ => false,
    }
}

proof fn lemma_screened(
    start: Session<Seq<u8>>,
    events: Seq<Event<Seq<u8>>>,
    expected: IpAddr,
)
    requires
        start.phase == Phase::<Seq<u8>>::Bind(BindStage::Locating { expected }),
        possible(start, events),
    ensures
        screened(start, events, expected),
    decreases events.len(),
{
    if events.len() > 0 {
        let before = events.drop_last();
        let event = events.last();
        lemma_screened(start, before, expected);
        lemma_answers(start, before);
        if introduced(start, before, expected) && !(event is Accepted) {
            let i = choose|i: int|
                0 <= i < before.len() && #[trigger] introduced_at(start, before, i, expected);
            assert(events.take(i) =~= before.take(i));
            assert forall|j: int| i < j < events.len() implies !(#[trigger] events[j]
                is Accepted) by {
                if j < before.len() {
                    assert(events[j] == before[j]);
                }
            }
            assert(introduced_at(start, events, i, expected));
        }
        if only_strangers(before, expected) {
            assert forall|j: int| 0 <= j < events.len() && j != events.len() - 1 implies (
            #[trigger] events[j] matches Event::Accepted(peer) ==> !peer_is_expected(
                expected,
                peer,
            )) by {
                assert(events[j] == before[j]);
            }
        }
        if let Phase::Bind(BindStage::Accepting { .. }) = run(start, before).phase {
            if let Event::Accepted(peer) = event {
                if peer_is_expected(expected, peer) {
                    assert(events.take(events.len() - 1) =~= before);
                    assert(introduced_at(start, events, events.len() - 1, expected));
                }
            }
        }
    }
}

/// A client that waits for a peer is only ever connected to the first one to arrive
/// that has the address it named (to the first at all, if it named none), and is
/// told the peer's address before. Nobody is accepted after that peer.
pub proof fn law_bind_connects_expected_peers_only(
    start: Session<Seq<u8>>,
    events: Seq<Event<Seq<u8>>>,
    expected: IpAddr,
)
    requires
        start.phase == Phase::<Seq<u8>>::Bind(BindStage::Locating { expected }),
        possible(start, events),
        events.len() > 0,
        answers(start, events).last() is Relay,
    ensures
        introduced(start, events.drop_last(), expected),
{
    let before = events.drop_last();
    lemma_screened(start, before, expected);
    lemma_answers(start, before);
    assert(answers(start, events).last() == run(start, before).reaction(events.last()).1);
}

/// Once the client's datagrams have come from an address, that address stays the
/// client's until the session ends, and whatever is relayed to the client is sent
/// there.
pub proof fn law_the_client_address_is_kept(
    start: Session<Seq<u8>>,
    events: Seq<Event<Seq<u8>>>,
    requested: SocketAddr,
    client: SocketAddr,
)
    requires
        start.phase matches Phase::Associate(
            AssociateStage::Active { requested: q, client: c, .. },
        ) && q == requested && c == Some(client),
        possible(start, events),
    ensures
        run(start, events).phase is Closed || (run(start, events).phase matches Phase::Associate(
            AssociateStage::Active { requested: q, client: c, .. },
        ) && q == requested && c == Some(client)),
        forall|i: int| 0 <= i < events.len() ==> (#[trigger] answers(start, events)[i] matches
            Action::Send { socket: UdpRole::Relay, to, .. } ==> to == client),
    decreases events.len(),
{
    lemma_answers(start, events);
    if events.len() > 0 {
        let before = events.drop_last();
        law_the_client_address_is_kept(start, before, requested, client);
        lemma_answers(start, before);
        assert forall|i: int| 0 <= i < events.len() implies (#[trigger] answers(start, events)[i]
            matches Action::Send { socket: UdpRole::Relay, to, .. } ==> to == client) by {
            if i < before.len() {
                assert(answers(start, events)[i] == answers(start, before)[i]);
            }
        }
    }
}

/// A client that announced the address it sends from is only ever taken to be at
/// that address.
pub proof fn law_an_announced_address_is_binding(
    start: Session<Seq<u8>>,
    events: Seq<Event<Seq<u8>>>,
    requested: SocketAddr,
)
    requires
        start.phase == Phase::Associate(AssociateStage::<Seq<u8>>::Locating { requested }),
        possible(start, events),
        !requested.spec_ip().unspecified(),
        requested.spec_port() != 0,
    ensures
        match run(start, events).phase {
            Phase::Associate(stage) => match stage {
                AssociateStage::Locating { requested: q } => q == requested,
                AssociateStage::Opening { requested: q } => q == requested,
                AssociateStage::Announcing { requested: q } => q == requested,
                AssociateStage::AskingDevice { requested: q, .. } => q == requested,
                AssociateStage::OpeningOut { requested: q, .. } => q == requested,
                AssociateStage::Active { requested: q, client, .. } => q == requested && (client
                    is None || client == Some(requested)),
            },
            Phase::Closed => true,
            _ => false,
        },
    decreases events.len(),
{
    if events.len() > 0 {
        law_an_announced_address_is_binding(start, events.drop_last(), requested);
    }
}

/// Whether an event is an unfragmented datagram from `client` with the given
/// destination and payload.
pub open spec fn is_order(
    event: Event<Seq<u8>>,
    client: SocketAddr,
    dest: UdpDest<Seq<char>>,
    payload: Seq<u8>,
) -> bool {
    &&& event matches Event::Datagram { socket: UdpRole::Relay, src, data }
    &&& src == client
    &&& read_udp_header(data) matches Some((frag, d, len))
    &&& frag == 0
    &&& d == dest
    &&& data.skip(len as int) == payload
}

/// Whether the last event completes an order of the client's to send `payload` to
/// `to`: the datagram itself, or the address of the host that the datagram before
/// it names.
pub open spec fn completes_order(
    events: Seq<Event<Seq<u8>>>,
    client: SocketAddr,
    to: SocketAddr,
    payload: Seq<u8>,
) -> bool {
    ||| is_order(events.last(), client, UdpDest::Addr(to), payload)
    ||| {
        &&& events.len() > 1
        &&& events.last() matches Event::Resolved(found)
        &&& lookup_result(found) == Ok::<SocketAddr, Error>(to)
        &&& exists|host: Seq<char>, port: u16| #[trigger]
            is_order(events[events.len() - 2], client, UdpDest::Domain(host, port), payload)
    }
}

/// Whether an action sends `data` to `to` from `socket`.
pub open spec fn sends(
    action: Action<Seq<u8>, Seq<char>>,
    socket: UdpRole,
    to: SocketAddr,
    data: Seq<u8>,
) -> bool {
    action == Action::<Seq<u8>, Seq<char>>::Send { socket, to, data }
}

/// The address that the client's datagrams come from, where it is known.
pub open spec fn known_client(session: Session<Seq<u8>>) -> Option<SocketAddr> {
    match session.phase {
        Phase::Associate(AssociateStage::Active { client, .. }) => client,
        _ => None,
    }
}

/// Nothing leaves through the outgoing sockets but what the client ordered: the
/// payload of one of its datagrams, unchanged, to the destination that the datagram
/// names, from the socket of the destination's family.
pub proof fn law_only_what_the_client_orders_is_sent(
    net: Net,
    creds: Creds,
    events: Seq<Event<Seq<u8>>>,
    socket: UdpRole,
    to: SocketAddr,
    data: Seq<u8>,
)
    requires
        possible(Session::initial(net, creds), events),
        events.len() > 0,
        sends(answers(Session::initial(net, creds), events).last(), socket, to, data),
        socket != UdpRole::Relay,
    ensures
        socket == out_socket(to is V6),
        known_client(run(Session::initial(net, creds), events)) is Some,
        completes_order(
            events,
            known_client(run(Session::initial(net, creds), events))->0,
            to,
            data,
        ),
{
    let start = Session::initial(net, creds);
    let before = events.drop_last();
    let event = events.last();
    lemma_answers(start, before);
    let session = run(start, before);
    assert(answers(start, events).last() == session.reaction(event).1);
    if let Phase::Associate(
        AssociateStage::Active { client, job: Job::Resolving { payload }, .. },
    ) = session.phase {
        let earlier = before.drop_last();
        let order = before.last();
        assert(possible(start, before));
        assert(run(start, earlier).accepts(order));
        assert(session == run(start, earlier).after(order));
        assert(order == events[events.len() - 2]);
        if let Event::Datagram { data: datagram, .. } = order {
            if let Some((_, UdpDest::Domain(host, port), _)) = read_udp_header(datagram) {
                assert(is_order(
                    events[events.len() - 2],
                    client->0,
                    UdpDest::Domain(host, port),
                    payload,
                ));
            }
        }
    }
}

/// A client that asks for a relay is told its address, on the IP address that the
/// client reached the server at. Then the outgoing sockets are opened, for IPv4 and
/// for IPv6: on any address of the operating system's, or on the addresses of the
/// tailnet device.
pub proof fn law_the_relay_is_set_up_in_order(
    creds: Creds,
    requested: SocketAddr,
    control: SocketAddr,
    relay: SocketAddr,
    ip4: IpAddr,
    ip6: IpAddr,
)
    requires
        ip4 is V4,
        ip6 is V6,
    ensures
        ({
            let phase = Phase::Associate(AssociateStage::<Seq<u8>>::Locating { requested });
            let os = Session { creds, net: Net::Os, phase };
            let tailnet = Session { creds, net: Net::Tailnet, phase };
            let on_os = seq![
                Event::<Seq<u8>>::Addr(control),
                Event::Addr(relay),
                Event::Written,
                Event::Bound,
                Event::Bound,
            ];
            let on_tailnet = seq![
                Event::<Seq<u8>>::Addr(control),
                Event::Addr(relay),
                Event::Written,
                Event::DeviceIp(ip4),
                Event::Bound,
                Event::DeviceIp(ip6),
                Event::Bound,
            ];
            let active = Phase::Associate(
                AssociateStage::Active { requested, client: None, job: Job::<Seq<u8>>::Waiting },
            );
            &&& possible(os, on_os)
            &&& run(os, on_os) == Session { creds, net: Net::Os, phase: active }
            &&& answers(os, on_os) == seq![
                Action::<Seq<u8>, Seq<char>>::BindUdp {
                    socket: UdpRole::Relay,
                    addr: SocketAddr::of(control.spec_ip(), 0),
                },
                Action::Write(reply_message(REP_SUCCESS, relay)),
                Action::BindUdp {
                    socket: UdpRole::Out4,
                    addr: SocketAddr::of(any_ip(false), 0),
                },
                Action::BindUdp { socket: UdpRole::Out6, addr: SocketAddr::of(any_ip(true), 0) },
                Action::Wait,
            ]
            &&& possible(tailnet, on_tailnet)
            &&& run(tailnet, on_tailnet) == Session { creds, net: Net::Tailnet, phase: active }
            &&& answers(tailnet, on_tailnet) == seq![
                Action::<Seq<u8>, Seq<char>>::BindUdp {
                    socket: UdpRole::Relay,
                    addr: SocketAddr::of(control.spec_ip(), 0),
                },
                Action::Write(reply_message(REP_SUCCESS, relay)),
                Action::DeviceIp { v6: false },
                Action::BindUdp { socket: UdpRole::Out4, addr: SocketAddr::of(ip4, 0) },
                Action::DeviceIp { v6: true },
                Action::BindUdp { socket: UdpRole::Out6, addr: SocketAddr::of(ip6, 0) },
                Action::Wait,
            ]
        }),
{
    let phase = Phase::Associate(AssociateStage::<Seq<u8>>::Locating { requested });
    let os = Session { creds, net: Net::Os, phase };
    let tailnet = Session { creds, net: Net::Tailnet, phase };
    let s1 = Seq::empty().push(Event::<Seq<u8>>::Addr(control));
    let s2 = s1.push(Event::Addr(relay));
    let s3 = s2.push(Event::Written);
    let o4 = s3.push(Event::Bound);
    let o5 = o4.push(Event::Bound);
    lemma_push(os, Seq::empty(), Event::Addr(control));
    lemma_push(os, s1, Event::Addr(relay));
    lemma_push(os, s2, Event::Written);
    lemma_push(os, s3, Event::Bound);
    lemma_push(os, o4, Event::Bound);
    assert(o5 =~= seq![
        Event::<Seq<u8>>::Addr(control),
        Event::Addr(relay),
        Event::Written,
        Event::Bound,
        Event::Bound,
    ]);
    assert(answers(os, o5) =~= seq![
        Action::<Seq<u8>, Seq<char>>::BindUdp {
            socket: UdpRole::Relay,
            addr: SocketAddr::of(control.spec_ip(), 0),
        },
        Action::Write(reply_message(REP_SUCCESS, relay)),
        Action::BindUdp { socket: UdpRole::Out4, addr: SocketAddr::of(any_ip(false), 0) },
        Action::BindUdp { socket: UdpRole::Out6, addr: SocketAddr::of(any_ip(true), 0) },
        Action::Wait,
    ]);
    let t4 = s3.push(Event::DeviceIp(ip4));
    let t5 = t4.push(Event::Bound);
    let t6 = t5.push(Event::DeviceIp(ip6));
    let t7 = t6.push(Event::Bound);
    lemma_push(tailnet, Seq::empty(), Event::Addr(control));
    lemma_push(tailnet, s1, Event::Addr(relay));
    lemma_push(tailnet, s2, Event::Written);
    lemma_push(tailnet, s3, Event::DeviceIp(ip4));
    lemma_push(tailnet, t4, Event::Bound);
    lemma_push(tailnet, t5, Event::DeviceIp(ip6));
    lemma_push(tailnet, t6, Event::Bound);
    assert(t7 =~= seq![
        Event::<Seq<u8>>::Addr(control),
        Event::Addr(relay),
        Event::Written,
        Event::DeviceIp(ip4),
        Event::Bound,
        Event::DeviceIp(ip6),
        Event::Bound,
    ]);
    assert(answers(tailnet, t7) =~= seq![
        Action::<Seq<u8>, Seq<char>>::BindUdp {
            socket: UdpRole::Relay,
            addr: SocketAddr::of(control.spec_ip(), 0),
        },
        Action::Write(reply_message(REP_SUCCESS, relay)),
        Action::DeviceIp { v6: false },
        Action::BindUdp { socket: UdpRole::Out4, addr: SocketAddr::of(ip4, 0) },
        Action::DeviceIp { v6: true },
        Action::BindUdp { socket: UdpRole::Out6, addr: SocketAddr::of(ip6, 0) },
        Action::Wait,
    ]);
}

} // verus!
