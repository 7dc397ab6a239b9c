use lucisocks::addr::{IpAddr, SocketAddr};
use lucisocks::net::Net;
use lucisocks::server::{Server, ServerAction, ServerEvent, ServerStage};

fn local() -> SocketAddr {
    SocketAddr::new(IpAddr::V4([127, 0, 0, 1]), 1338)
}

#[test]
fn a_server_goes_on_accepting() {
    let (server, action) = Server::serve_os(local(), Some([7; 32]));
    assert!(matches!(action, ServerAction::Listen { net: Net::Os, addr } if addr == local()));
    let (mut server, action) = server.step(ServerEvent::Done);
    assert!(matches!(action, ServerAction::Accept));
    for _ in 0..3 {
        let (starting, action) = server.step(ServerEvent::Done);
        match action {
            ServerAction::Start { net, creds } => {
                assert_eq!(net, Net::Os);
                assert_eq!(creds, Some([7; 32]));
            }
            other => panic!("{other:?}"),
        }
        let (accepting, action) = starting.step(ServerEvent::Done);
        assert!(matches!(action, ServerAction::Accept));
        let (resting, action) = accepting.step(ServerEvent::Failed);
        assert!(matches!(action, ServerAction::Sleep { millis: 100 }));
        let (accepting, action) = resting.step(ServerEvent::Done);
        assert!(matches!(action, ServerAction::Accept));
        server = accepting;
    }
}

#[test]
fn a_server_that_cannot_listen_stops() {
    let (server, _) = Server::serve_os(local(), None);
    let (server, action) = server.step(ServerEvent::Failed);
    assert!(matches!(action, ServerAction::Stop));
    assert!(matches!(server.stage, ServerStage::Stopped));
}

#[test]
fn a_tailnet_server_listens_on_its_device() {
    let (server, action) = Server::serve_tailnet("key", 2001, None);
    assert!(matches!(action, ServerAction::Register { auth_key: "key" }));
    let (server, action) = server.step(ServerEvent::Done);
    assert!(matches!(action, ServerAction::DeviceIp));
    let ip = IpAddr::V4([100, 64, 0, 7]);
    let (server, action) = server.step(ServerEvent::DeviceIp(ip));
    match action {
        ServerAction::Listen { net, addr } => {
            assert_eq!(net, Net::Tailnet);
            assert_eq!(addr, SocketAddr::new(ip, 2001));
        }
        other => panic!("{other:?}"),
    }
    let (server, action) = server.step(ServerEvent::Done);
    assert!(matches!(action, ServerAction::Accept));
    let (_, action) = server.step(ServerEvent::Done);
    assert!(matches!(
        action,
        ServerAction::Start {
            net: Net::Tailnet,
            creds: None
        }
    ));
}

#[test]
fn a_tailnet_server_stops_when_its_setup_fails() {
    let (server, _) = Server::serve_tailnet("key", 2001, None);
    let (_, action) = server.step(ServerEvent::Failed);
    assert!(matches!(action, ServerAction::Stop));
    let (server, _) = server.step(ServerEvent::Done);
    let (_, action) = server.step(ServerEvent::Failed);
    assert!(matches!(action, ServerAction::Stop));
}
