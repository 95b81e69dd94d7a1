use screenshare::entry::{
    create_url, host_quic_addr, join_url, mode, signaling_url, typed_code, viewer_quic_addr, Mode,
};

#[test]
fn typed_code_ignores_case_and_white_space() {
    assert_eq!(typed_code("x7k2qp\n"), "X7K2QP");
    assert_eq!(typed_code(" \t X7K2qp \r\n"), "X7K2QP");
    assert_eq!(typed_code("\u{a0}\u{2003}ab 12\u{3000}\u{85}"), "AB 12");
    assert_eq!(typed_code(""), "");
    assert_eq!(typed_code("   "), "");
    assert_eq!(typed_code("stra\u{df}e"), "STRASSE");
}

#[test]
fn addresses_have_fixed_ports() {
    assert_eq!(host_quic_addr("10.0.0.2"), "10.0.0.2:5000");
    assert_eq!(viewer_quic_addr("10.0.0.2"), "10.0.0.2:5001");
}

#[test]
fn signalling_server_is_local_unless_set() {
    assert_eq!(signaling_url(None), "wss://localhost:3000");
    assert_eq!(signaling_url(Some("ws://s.example".to_string())), "ws://s.example");
    assert_eq!(signaling_url(Some("wss://s.example".to_string())), "wss://s.example");
    assert_eq!(create_url("ws://localhost:3000"), "ws://localhost:3000/session/create");
    assert_eq!(join_url("ws://h", "X7K2QP"), "ws://h/session/join/X7K2QP");
}

#[test]
fn first_argument_selects_the_mode() {
    assert_eq!(mode(Some("--host".to_string())), Mode::Host);
    assert_eq!(mode(Some("--viewer".to_string())), Mode::Viewer);
    assert_eq!(mode(Some("--Host".to_string())), Mode::Usage);
    assert_eq!(mode(None), Mode::Usage);
}
