use screenshare::capture::Frame;
use screenshare::client::{auth_key, expect_code, expect_host, expect_viewer, ClientError, Reply};
use screenshare::codec::EncodedFrame;
use screenshare::connection::{Connection, ConnectionAction, ConnectionEvent, Role};
use screenshare::host::{Host, HostAction, HostEvent, FRAME_PAUSE_MS};
use screenshare::integrity::{make_tag, CREATE_KIND, JOIN_KIND};
use screenshare::message::Msg;
use screenshare::packet::VideoPacket;
use screenshare::signaling::{Incoming, Sessions};
use screenshare::viewer::{Viewer, ViewerAction, ViewerEvent};

fn text(s: &str) -> String {
    s.to_string()
}

fn code(c: &str) -> Reply {
    Reply::Message(Msg::Code { code: text(c) })
}

fn host_step(host: &mut Host, event: HostEvent) -> HostAction {
    assert!(host.expects(&event));
    host.step(event).unwrap()
}

fn viewer_step(viewer: &mut Viewer, event: ViewerEvent) -> ViewerAction {
    assert!(viewer.expects(&event));
    viewer.step(event).unwrap()
}

fn awaiting_code() -> Host {
    let mut host = Host::new(None);
    host_step(&mut host, HostEvent::AuthKey(Some(text("k"))));
    host_step(&mut host, HostEvent::LocalIp(text("10.0.0.2")));
    host_step(&mut host, HostEvent::Bound(text("f")));
    host_step(&mut host, HostEvent::Connected);
    host_step(&mut host, HostEvent::Sent);
    host_step(&mut host, HostEvent::Sent);
    host
}

#[test]
fn host_goes_its_course() {
    let mut host = Host::new(Some(text("ws://s")));
    assert!(matches!(host_step(&mut host, HostEvent::AuthKey(Some(text("secret")))), HostAction::Locate));
    match host_step(&mut host, HostEvent::LocalIp(text("10.0.0.2"))) {
        HostAction::Bind(addr) => assert_eq!(addr, "10.0.0.2:5000"),
        _ => panic!("no bind"),
    }
    match host_step(&mut host, HostEvent::Bound(text("ab12"))) {
        HostAction::Connect(url) => assert_eq!(url, "ws://s/session/create"),
        _ => panic!("no connect"),
    }
    match host_step(&mut host, HostEvent::Connected) {
        HostAction::Send(Msg::Auth { key }) => assert_eq!(key, "secret"),
        _ => panic!("no key"),
    }
    match host_step(&mut host, HostEvent::Sent) {
        HostAction::Send(Msg::Create { host_addr, cert_fingerprint, tag }) => {
            assert_eq!(host_addr, "10.0.0.2:5000");
            assert_eq!(cert_fingerprint, "ab12");
            assert_eq!(tag, Some(make_tag("secret", CREATE_KIND, "10.0.0.2:5000", "ab12")));
        }
        _ => panic!("no announcement"),
    }
    assert!(matches!(host_step(&mut host, HostEvent::Sent), HostAction::Receive));
    match host_step(&mut host, HostEvent::Received(code("X7K2QP"))) {
        HostAction::Listen(shown) => assert_eq!(shown, "X7K2QP"),
        _ => panic!("no code"),
    }
    assert!(matches!(host_step(&mut host, HostEvent::Listening), HostAction::Receive));
    let ready = Reply::Message(Msg::ViewerReady { viewer_addr: text("v") });
    assert!(matches!(host_step(&mut host, HostEvent::Received(ready)), HostAction::Prepare));
    assert!(matches!(host_step(&mut host, HostEvent::Ready), HostAction::Capture));
    assert!(matches!(host_step(&mut host, HostEvent::Captured), HostAction::Encode));
    assert!(matches!(host_step(&mut host, HostEvent::Encoded(None)), HostAction::Pause(FRAME_PAUSE_MS)));
    assert!(matches!(host_step(&mut host, HostEvent::Paused), HostAction::Capture));
    host_step(&mut host, HostEvent::Captured);
    for keyframe in [true, false] {
        let encoded = EncodedFrame { payload: vec![1, 2], keyframe };
        match host_step(&mut host, HostEvent::Encoded(Some(encoded))) {
            HostAction::Transmit { payload, keyframe: marked } => {
                assert_eq!(payload, vec![1, 2]);
                assert_eq!(marked, keyframe);
            }
            _ => panic!("nothing sent"),
        }
        assert!(matches!(host_step(&mut host, HostEvent::Sent), HostAction::Pause(16)));
        assert!(matches!(host_step(&mut host, HostEvent::Paused), HostAction::Capture));
        host_step(&mut host, HostEvent::Captured);
    }
}

#[test]
fn host_needs_a_key() {
    let error = Host::new(None).step(HostEvent::AuthKey(None)).err().unwrap();
    assert_eq!(error.message(""), "AUTH_KEY nao definida — defina a variavel de ambiente");
    assert!(auth_key(None).is_err());
    assert_eq!(auth_key(Some(text("k"))).unwrap(), "k");
}

#[test]
fn host_gives_up_on_a_refusal() {
    let refused = Reply::Message(Msg::Error { reason: text("esperava {type:create}") });
    let error = awaiting_code().step(HostEvent::Received(refused)).err().unwrap();
    assert_eq!(error.message(""), "signaling erro: esperava {type:create}");

    let error = awaiting_code().step(HostEvent::Received(Reply::Closed)).err().unwrap();
    assert_eq!(error.message(""), "conexao com signaling fechou inesperadamente");

    let early = Reply::Message(Msg::ViewerReady { viewer_addr: text("v") });
    let error = awaiting_code().step(HostEvent::Received(early)).err().unwrap();
    assert!(matches!(error, ClientError::Unexpected(Msg::ViewerReady { .. })));
    assert_eq!(error.message("ViewerReady"), "resposta inesperada: ViewerReady");
}

#[test]
fn host_waits_for_one_kind_of_event_at_a_time() {
    let host = awaiting_code();
    assert!(host.expects(&HostEvent::Received(Reply::Closed)));
    assert!(!host.expects(&HostEvent::Ready));
    assert!(!host.expects(&HostEvent::Captured));
    assert!(!host.expects(&HostEvent::Sent));
}

#[test]
fn answers_are_told_apart() {
    assert_eq!(expect_code(code("ABCDEF")).unwrap(), "ABCDEF");
    assert!(expect_viewer(code("ABCDEF")).is_err());
    let viewer = Reply::Message(Msg::ViewerReady { viewer_addr: text("v:5001") });
    assert_eq!(expect_viewer(viewer).unwrap(), "v:5001");
    let host = Reply::Message(Msg::HostReady { host_addr: text("h:5000"), cert_fingerprint: text("f") });
    assert_eq!(expect_host(host).unwrap(), (text("h:5000"), text("f")));
    assert!(matches!(expect_host(Reply::Closed), Err(ClientError::Closed)));
    let refused = Reply::Message(Msg::Error { reason: text("r") });
    assert!(matches!(expect_host(refused), Err(ClientError::Signaling(_))));
}

#[test]
fn viewer_goes_its_course() {
    let mut viewer = Viewer::new(None);
    assert!(matches!(viewer_step(&mut viewer, ViewerEvent::AuthKey(Some(text("k")))), ViewerAction::Ask));
    assert!(matches!(viewer_step(&mut viewer, ViewerEvent::Line(text(" x7k2qp\n"))), ViewerAction::Locate));
    match viewer_step(&mut viewer, ViewerEvent::LocalIp(text("10.0.0.3"))) {
        ViewerAction::Connect(url) => assert_eq!(url, "wss://localhost:3000/session/join/X7K2QP"),
        _ => panic!("no connect"),
    }
    match viewer_step(&mut viewer, ViewerEvent::Connected) {
        ViewerAction::Send(Msg::Auth { key }) => assert_eq!(key, "k"),
        _ => panic!("no key"),
    }
    match viewer_step(&mut viewer, ViewerEvent::Sent) {
        ViewerAction::Send(Msg::Join { code, viewer_addr, tag }) => {
            assert_eq!(code, "X7K2QP");
            assert_eq!(viewer_addr, "10.0.0.3:5001");
            assert_eq!(tag, Some(make_tag("k", JOIN_KIND, "X7K2QP", "10.0.0.3:5001")));
        }
        _ => panic!("no request"),
    }
    assert!(matches!(viewer_step(&mut viewer, ViewerEvent::Sent), ViewerAction::Receive));
    let host = Reply::Message(Msg::HostReady {
        host_addr: text("10.0.0.2:5000"),
        cert_fingerprint: text("ab12"),
    });
    match viewer_step(&mut viewer, ViewerEvent::Received(host)) {
        ViewerAction::Join { host_addr, cert_fingerprint } => {
            assert_eq!(host_addr, "10.0.0.2:5000");
            assert_eq!(cert_fingerprint, "ab12");
        }
        _ => panic!("no host"),
    }
    assert!(matches!(viewer_step(&mut viewer, ViewerEvent::Ready), ViewerAction::ReceivePacket));

    let packet = || VideoPacket { seq: 0, timestamp: 0, keyframe: false, payload: vec![3, 4] };
    let frame = || Frame { data: vec![1, 2, 3, 4], width: 1, height: 1 };
    match viewer_step(&mut viewer, ViewerEvent::Packet(Some(packet()))) {
        ViewerAction::Decode(payload) => assert_eq!(payload, vec![3, 4]),
        _ => panic!("not decoded"),
    }
    assert!(matches!(viewer_step(&mut viewer, ViewerEvent::Decoded(None)), ViewerAction::ReceivePacket));
    viewer_step(&mut viewer, ViewerEvent::Packet(Some(packet())));
    match viewer_step(&mut viewer, ViewerEvent::Decoded(Some(frame()))) {
        ViewerAction::Show(shown) => assert_eq!(shown.data, vec![1, 2, 3, 4]),
        _ => panic!("not shown"),
    }
    assert!(matches!(viewer_step(&mut viewer, ViewerEvent::Shown(true)), ViewerAction::ReceivePacket));
    viewer_step(&mut viewer, ViewerEvent::Packet(Some(packet())));
    viewer_step(&mut viewer, ViewerEvent::Decoded(Some(frame())));
    assert!(matches!(viewer_step(&mut viewer, ViewerEvent::Shown(false)), ViewerAction::Stop));
    assert!(!viewer.expects(&ViewerEvent::Packet(None)));
}

#[test]
fn viewer_stops_at_the_end_of_the_stream() {
    let mut viewer = Viewer::new(None);
    viewer_step(&mut viewer, ViewerEvent::AuthKey(Some(text("k"))));
    viewer_step(&mut viewer, ViewerEvent::Line(text("x")));
    viewer_step(&mut viewer, ViewerEvent::LocalIp(text("i")));
    viewer_step(&mut viewer, ViewerEvent::Connected);
    viewer_step(&mut viewer, ViewerEvent::Sent);
    viewer_step(&mut viewer, ViewerEvent::Sent);
    let host = Reply::Message(Msg::HostReady { host_addr: text("h"), cert_fingerprint: text("f") });
    viewer_step(&mut viewer, ViewerEvent::Received(host));
    viewer_step(&mut viewer, ViewerEvent::Ready);
    assert!(matches!(viewer_step(&mut viewer, ViewerEvent::Packet(None)), ViewerAction::Stop));
}

#[test]
fn viewer_needs_a_key() {
    assert!(matches!(
        Viewer::new(None).step(ViewerEvent::AuthKey(None)),
        Err(ClientError::MissingAuthKey)
    ));
}

fn connection_step(connection: &mut Connection, event: ConnectionEvent) -> ConnectionAction {
    assert!(connection.expects(&event));
    connection.step(event)
}

fn from_host(host: &mut Host, event: HostEvent) -> ConnectionEvent {
    match host_step(host, event) {
        HostAction::Send(msg) => ConnectionEvent::Incoming(Incoming::Text(Some(msg))),
        _ => panic!("nothing sent"),
    }
}

fn from_viewer(viewer: &mut Viewer, event: ViewerEvent) -> ConnectionEvent {
    match viewer_step(viewer, event) {
        ViewerAction::Send(msg) => ConnectionEvent::Incoming(Incoming::Text(Some(msg))),
        _ => panic!("nothing sent"),
    }
}

fn reply(action: ConnectionAction) -> Reply {
    match action {
        ConnectionAction::Send(msg) => Reply::Message(msg),
        _ => panic!("nothing sent"),
    }
}

#[test]
fn host_and_viewer_are_introduced_by_the_server() {
    let mut sessions = Sessions::new();
    let mut host = Host::new(None);
    let mut host_line = Connection::new(Role::Host, Some(text("k")));
    host_step(&mut host, HostEvent::AuthKey(Some(text("k"))));
    host_step(&mut host, HostEvent::LocalIp(text("10.0.0.1")));
    host_step(&mut host, HostEvent::Bound(text("ab")));
    let key = from_host(&mut host, HostEvent::Connected);
    assert!(matches!(connection_step(&mut host_line, key), ConnectionAction::Receive));
    let request = from_host(&mut host, HostEvent::Sent);
    host_step(&mut host, HostEvent::Sent);
    let code = match connection_step(&mut host_line, request) {
        ConnectionAction::Open { host_addr, cert_fingerprint } => {
            sessions.create_session(&host_addr, &cert_fingerprint, 0)
        }
        _ => panic!("refused"),
    };
    let told = reply(connection_step(&mut host_line, ConnectionEvent::Opened(code.clone())));
    match host_step(&mut host, HostEvent::Received(told)) {
        HostAction::Listen(shown) => assert_eq!(shown, code),
        _ => panic!("no code"),
    }
    host_step(&mut host, HostEvent::Listening);
    connection_step(&mut host_line, ConnectionEvent::Sent);

    let mut viewer = Viewer::new(None);
    let mut viewer_line = Connection::new(Role::Viewer, Some(text("k")));
    viewer_step(&mut viewer, ViewerEvent::AuthKey(Some(text("k"))));
    viewer_step(&mut viewer, ViewerEvent::Line(format!(" {}\n", code.to_lowercase())));
    match viewer_step(&mut viewer, ViewerEvent::LocalIp(text("10.0.0.2"))) {
        ViewerAction::Connect(url) => assert!(url.ends_with(&format!("/session/join/{}", code))),
        _ => panic!("no connect"),
    }
    let key = from_viewer(&mut viewer, ViewerEvent::Connected);
    assert!(matches!(connection_step(&mut viewer_line, key), ConnectionAction::Receive));
    let request = from_viewer(&mut viewer, ViewerEvent::Sent);
    viewer_step(&mut viewer, ViewerEvent::Sent);
    let (answer, joined) = match connection_step(&mut viewer_line, request) {
        ConnectionAction::Join { viewer_addr } => sessions.join_session(&code, viewer_addr, 1),
        _ => panic!("refused"),
    };
    let answer = reply(connection_step(&mut viewer_line, ConnectionEvent::Joined(answer)));
    match viewer_step(&mut viewer, ViewerEvent::Received(answer)) {
        ViewerAction::Join { host_addr, cert_fingerprint } => {
            assert_eq!(host_addr, "10.0.0.1:5000");
            assert_eq!(cert_fingerprint, "ab");
        }
        _ => panic!("not introduced"),
    }
    let notice = reply(connection_step(&mut host_line, ConnectionEvent::Waited(joined)));
    assert!(matches!(host_step(&mut host, HostEvent::Received(notice)), HostAction::Prepare));
}
