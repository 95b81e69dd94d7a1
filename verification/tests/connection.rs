use screenshare::connection::{Connection, ConnectionAction, ConnectionEvent, Role};
use screenshare::message::Msg;
use screenshare::signaling::{Incoming, SESSION_LIFETIME};

fn text(s: &str) -> String {
    s.to_string()
}

fn step(connection: &mut Connection, event: ConnectionEvent) -> ConnectionAction {
    assert!(connection.expects(&event));
    connection.step(event)
}

fn incoming(msg: Msg) -> ConnectionEvent {
    ConnectionEvent::Incoming(Incoming::Text(Some(msg)))
}

fn create(tag: Option<String>) -> ConnectionEvent {
    incoming(Msg::Create { host_addr: text("h"), cert_fingerprint: text("f"), tag })
}

fn join(tag: Option<String>) -> ConnectionEvent {
    incoming(Msg::Join { code: text("ABC123"), viewer_addr: text("v"), tag })
}

fn refusal(action: ConnectionAction) -> String {
    match action {
        ConnectionAction::Send(Msg::Error { reason }) => reason,
        _ => panic!("not refused"),
    }
}

fn waiting() -> Connection {
    let mut connection = Connection::new(Role::Host, None);
    match step(&mut connection, create(None)) {
        ConnectionAction::Open { host_addr, cert_fingerprint } => {
            assert_eq!((host_addr, cert_fingerprint), (text("h"), text("f")))
        }
        _ => panic!("not opened"),
    }
    match step(&mut connection, ConnectionEvent::Opened(text("ABC123"))) {
        ConnectionAction::Send(Msg::Code { code }) => assert_eq!(code, "ABC123"),
        _ => panic!("no code"),
    }
    match step(&mut connection, ConnectionEvent::Sent) {
        ConnectionAction::Wait { code, limit } => {
            assert_eq!(code, "ABC123");
            assert_eq!(limit, SESSION_LIFETIME);
        }
        _ => panic!("no wait"),
    }
    connection
}

fn ends(connection: &mut Connection, action: ConnectionAction) {
    match action {
        ConnectionAction::End(code) => assert_eq!(code, "ABC123"),
        _ => panic!("not ended"),
    }
    assert!(matches!(step(connection, ConnectionEvent::Ended), ConnectionAction::Close));
    assert!(!connection.expects(&ConnectionEvent::Sent));
}

#[test]
fn host_is_sent_its_code_and_then_the_viewer() {
    let mut connection = waiting();
    match step(&mut connection, ConnectionEvent::Waited(Some(text("v:5001")))) {
        ConnectionAction::Send(Msg::ViewerReady { viewer_addr }) => assert_eq!(viewer_addr, "v:5001"),
        _ => panic!("not told"),
    }
    let action = step(&mut connection, ConnectionEvent::Sent);
    ends(&mut connection, action);
}

#[test]
fn host_that_waits_in_vain_is_sent_its_code_only() {
    let mut connection = waiting();
    let action = step(&mut connection, ConnectionEvent::Waited(None));
    ends(&mut connection, action);
}

#[test]
fn viewer_is_sent_the_answer() {
    let mut connection = Connection::new(Role::Viewer, Some(text("k")));
    let key = incoming(Msg::Auth { key: text("k") });
    assert!(matches!(step(&mut connection, key), ConnectionAction::Receive));
    match step(&mut connection, join(None)) {
        ConnectionAction::Join { viewer_addr } => assert_eq!(viewer_addr, "v"),
        _ => panic!("not joined"),
    }
    let answer = Msg::HostReady { host_addr: text("h"), cert_fingerprint: text("f") };
    match step(&mut connection, ConnectionEvent::Joined(answer)) {
        ConnectionAction::Send(Msg::HostReady { host_addr, cert_fingerprint }) => {
            assert_eq!((host_addr, cert_fingerprint), (text("h"), text("f")))
        }
        _ => panic!("not answered"),
    }
    assert!(matches!(step(&mut connection, ConnectionEvent::Sent), ConnectionAction::Close));
}

#[test]
fn refused_peers_touch_no_session() {
    let mut host = Connection::new(Role::Host, Some(text("k")));
    assert_eq!(refusal(step(&mut host, create(None))), "esperava {type:auth}");
    assert!(matches!(step(&mut host, ConnectionEvent::Sent), ConnectionAction::Close));

    for role in [Role::Host, Role::Viewer] {
        let mut altered = Connection::new(role, Some(text("k")));
        step(&mut altered, incoming(Msg::Auth { key: text("k") }));
        let request = match role {
            Role::Host => create(Some(text("00"))),
            Role::Viewer => join(Some(text("00"))),
        };
        assert_eq!(refusal(step(&mut altered, request)), "hmac invalido");
        assert!(matches!(step(&mut altered, ConnectionEvent::Sent), ConnectionAction::Close));
    }

    let mut silent = Connection::new(Role::Viewer, None);
    let gone = ConnectionEvent::Incoming(Incoming::Other);
    assert!(matches!(step(&mut silent, gone), ConnectionAction::Close));
}
