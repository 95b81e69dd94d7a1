use screenshare::code::{code_from_indices, code_with_number, gen_code, CODE_COUNT};
use screenshare::integrity::{make_tag, CREATE_KIND, JOIN_KIND};
use screenshare::message::Msg;
use screenshare::signaling::{
    access, create_request, created_reply, join_request, viewer_notice, Access, Incoming, Request,
    Sessions, SESSION_LIFETIME,
};

fn text(s: &str) -> String {
    s.to_string()
}

fn is_code(code: &str) -> bool {
    code.len() == 6 && code.chars().all(|c| c.is_ascii_digit() || c.is_ascii_uppercase())
}

#[test]
fn codes_are_digits_and_upper_case_letters() {
    assert_eq!(code_from_indices(&vec![0, 9, 10, 35, 1, 11]), "09AZ1B");
    assert_eq!(code_from_indices(&vec![33, 7, 20, 2, 26, 25]), "X7K2QP");
    for _ in 0..200 {
        assert!(is_code(&gen_code()));
    }
}

#[test]
fn codes_differ_from_draw_to_draw() {
    let first = gen_code();
    assert!((0..50).any(|_| gen_code() != first));
}

fn create() -> Incoming {
    tagged_create(None)
}

fn tagged_create(tag: Option<String>) -> Incoming {
    Incoming::Text(Some(Msg::Create {
        host_addr: text("10.0.0.1:5000"),
        cert_fingerprint: text("ab"),
        tag,
    }))
}

fn granted() -> Access {
    Access::Granted(text("k"))
}

fn join() -> Incoming {
    tagged_join(None)
}

fn tagged_join(tag: Option<String>) -> Incoming {
    let msg = Msg::Join { code: text("ABC123"), viewer_addr: text("5.6.7.8:5001"), tag };
    Incoming::Text(Some(msg))
}

fn auth(key: &str) -> Incoming {
    Incoming::Text(Some(Msg::Auth { key: text(key) }))
}

fn reason(request: Request) -> String {
    match request {
        Request::Refuse(Msg::Error { reason }) => reason,
        other => panic!("not refused: {:?}", other),
    }
}

fn opens(request: Request) -> bool {
    match request {
        Request::Create { host_addr, cert_fingerprint } => {
            host_addr == "10.0.0.1:5000" && cert_fingerprint == "ab"
        }
        _ => false,
    }
}

#[test]
fn host_presents_its_key_and_asks_for_a_session() {
    for required in [None, Some(text("k"))] {
        let first = access(required);
        match create_request(&first, auth("k")) {
            Request::Continue { key } => assert_eq!(key, "k"),
            _ => panic!("no access"),
        }
        assert!(opens(create_request(&granted(), create())));
        assert_eq!(reason(create_request(&granted(), Incoming::Text(None))), "esperava {type:create}");
        assert_eq!(reason(create_request(&granted(), join())), "esperava {type:create}");
        assert_eq!(reason(create_request(&granted(), auth("k"))), "esperava {type:create}");
        assert!(matches!(create_request(&first, Incoming::Other), Request::Ignore));
    }
}

#[test]
fn server_without_a_key_asks_for_none() {
    let open = access(None);
    assert!(opens(create_request(&open, create())));
    assert_eq!(reason(create_request(&open, join())), "esperava {type:create}");
    assert_eq!(reason(create_request(&open, Incoming::Text(None))), "esperava {type:create}");
    assert!(matches!(join_request(&open, join()), Request::Join { .. }));
    assert_eq!(reason(join_request(&open, create())), "esperava {type:join}");
}

#[test]
fn server_with_a_key_serves_nobody_without_it() {
    let locked = access(Some(text("k")));
    assert_eq!(reason(create_request(&locked, create())), "esperava {type:auth}");
    assert_eq!(reason(join_request(&locked, join())), "esperava {type:auth}");
    assert_eq!(reason(create_request(&locked, Incoming::Text(None))), "esperava {type:auth}");
    assert_eq!(reason(create_request(&locked, auth("K"))), "AUTH_KEY invalida");
    assert_eq!(reason(join_request(&locked, auth(""))), "AUTH_KEY invalida");
}

#[test]
fn viewer_presents_its_key_and_asks_to_join() {
    assert!(matches!(join_request(&access(Some(text("k"))), auth("k")), Request::Continue { .. }));
    match join_request(&granted(), join()) {
        Request::Join { viewer_addr } => assert_eq!(viewer_addr, "5.6.7.8:5001"),
        _ => panic!("refused"),
    }
    assert_eq!(reason(join_request(&granted(), create())), "esperava {type:join}");
    assert!(matches!(join_request(&granted(), Incoming::Other), Request::Ignore));
}

#[test]
fn altered_requests_are_refused() {
    let own = make_tag("k", CREATE_KIND, "10.0.0.1:5000", "ab");
    assert!(opens(create_request(&granted(), tagged_create(Some(own.clone())))));
    let others = [
        make_tag("K", CREATE_KIND, "10.0.0.1:5000", "ab"),
        make_tag("k", JOIN_KIND, "10.0.0.1:5000", "ab"),
        make_tag("k", CREATE_KIND, "10.0.0.1:500", "0ab"),
        make_tag("k", CREATE_KIND, "10.0.0.1:5000", "ac"),
        own.to_uppercase(),
        text(""),
    ];
    for tag in others {
        assert_eq!(reason(create_request(&granted(), tagged_create(Some(tag)))), "hmac invalido");
    }
    // Without a key there is nothing to check a tag with.
    assert_eq!(reason(create_request(&access(None), tagged_create(Some(own)))), "hmac invalido");

    let own = make_tag("k", JOIN_KIND, "ABC123", "5.6.7.8:5001");
    assert!(matches!(join_request(&granted(), tagged_join(Some(own.clone()))), Request::Join { .. }));
    let other = make_tag("k", JOIN_KIND, "ABC124", "5.6.7.8:5001");
    assert_eq!(reason(join_request(&granted(), tagged_join(Some(other)))), "hmac invalido");
    assert_eq!(reason(join_request(&access(None), tagged_join(Some(own)))), "hmac invalido");
}

#[test]
fn viewer_and_host_are_introduced() {
    let mut sessions = Sessions::new();
    let code = sessions.create_session(&text("host:5000"), &text("fp"), 7);
    assert!(is_code(&code));
    match created_reply(&code) {
        Msg::Code { code: told } => assert_eq!(told, code),
        _ => panic!("no code"),
    }
    let (answer, told) = sessions.join_session(&code, text("viewer:5001"), 8);
    match answer {
        Msg::HostReady { host_addr, cert_fingerprint } => {
            assert_eq!(host_addr, "host:5000");
            assert_eq!(cert_fingerprint, "fp");
        }
        _ => panic!("no host"),
    }
    assert_eq!(told, Some(text("viewer:5001")));
    match viewer_notice(told) {
        Some(Msg::ViewerReady { viewer_addr }) => assert_eq!(viewer_addr, "viewer:5001"),
        _ => panic!("host not told"),
    }
    assert!(viewer_notice(None).is_none());
    sessions.end_session(&code);
    assert!(!sessions.contains(&code));
}

#[test]
fn code_is_good_for_one_viewer() {
    let mut sessions = Sessions::new();
    assert!(sessions.open(&text("ABC123"), &text("h"), &text("f"), 0));
    assert_eq!(sessions.join_session(&text("ABC123"), text("v1"), 1).1, Some(text("v1")));
    let (answer, told) = sessions.join_session(&text("ABC123"), text("v2"), 1);
    match answer {
        Msg::Error { reason } => assert_eq!(reason, "sessao ABC123 nao encontrada"),
        _ => panic!("not refused"),
    }
    assert_eq!(told, None);
}

#[test]
fn expired_code_is_refused_before_it_is_removed() {
    let mut sessions = Sessions::new();
    sessions.open(&text("ABC123"), &text("h"), &text("f"), 100);
    let (answer, told) = sessions.join_session(&text("ABC123"), text("v"), 100 + SESSION_LIFETIME);
    assert!(matches!(answer, Msg::Error { .. }));
    assert_eq!(told, None);
    assert!(sessions.contains(&text("ABC123")));
    let (answer, told) = sessions.join_session(&text("ABC123"), text("v"), 99 + SESSION_LIFETIME);
    assert!(matches!(answer, Msg::HostReady { .. }));
    assert_eq!(told, Some(text("v")));
}

#[test]
fn first_free_draw_is_taken() {
    let mut sessions = Sessions::new();
    sessions.open(&text("AAAAAA"), &text("h"), &text("f"), 0);
    sessions.open(&text("BBBBBB"), &text("h"), &text("f"), 0);
    let draws = vec![text("AAAAAA"), text("BBBBBB"), text("CCCCCC"), text("DDDDDD")];
    assert_eq!(sessions.open_first_free(&draws, &text("x"), &text("y"), 1), Some(text("CCCCCC")));
    assert!(!sessions.contains(&text("DDDDDD")));
    let draws = vec![text("CCCCCC"), text("AAAAAA")];
    assert_eq!(sessions.open_first_free(&draws, &text("x"), &text("y"), 1), None);
}

#[test]
fn unknown_code_is_refused() {
    let mut sessions = Sessions::new();
    sessions.open(&text("ABC123"), &text("h"), &text("f"), 0);
    let (answer, told) = sessions.join_session(&text("abc123"), text("v"), 0);
    match answer {
        Msg::Error { reason } => assert_eq!(reason, "sessao abc123 nao encontrada"),
        _ => panic!("not refused"),
    }
    assert_eq!(told, None);
    sessions.end_session(&text("ABC123"));
    assert!(matches!(sessions.join_session(&text("ABC123"), text("v"), 0).0, Msg::Error { .. }));
}

#[test]
fn taken_code_is_not_opened_again() {
    let mut sessions = Sessions::new();
    assert!(sessions.open(&text("ABC123"), &text("first"), &text("f1"), 0));
    assert!(!sessions.open(&text("ABC123"), &text("second"), &text("f2"), 1));
    match sessions.join_session(&text("ABC123"), text("v"), 0).0 {
        Msg::HostReady { host_addr, cert_fingerprint } => {
            assert_eq!((host_addr, cert_fingerprint), (text("first"), text("f1")))
        }
        _ => panic!("no host"),
    }
}

#[test]
fn codes_are_numbered() {
    assert_eq!(code_with_number(0), "000000");
    assert_eq!(code_with_number(35), "00000Z");
    assert_eq!(code_with_number(36), "000010");
    assert_eq!(code_with_number(CODE_COUNT - 1), "ZZZZZZ");
    assert_eq!(CODE_COUNT, 36u64.pow(6));
}

#[test]
fn there_is_room_for_sessions() {
    let mut sessions = Sessions::new();
    assert!(sessions.has_room());
    let code = sessions.create_session(&text("h"), &text("f"), 0);
    assert!(is_code(&code) && sessions.contains(&code));
    assert!(sessions.has_room());
}

#[test]
fn sessions_expire_after_five_minutes() {
    assert_eq!(SESSION_LIFETIME, 300 * 1_000_000_000);
    let mut sessions = Sessions::new();
    sessions.open(&text("OLD000"), &text("a"), &text("f"), 1_000);
    sessions.open(&text("MID000"), &text("b"), &text("f"), 1_001);
    sessions.open(&text("NEW000"), &text("c"), &text("f"), SESSION_LIFETIME + 5_000);
    sessions.cleanup(SESSION_LIFETIME + 999);
    assert!(sessions.contains(&text("OLD000")));
    sessions.cleanup(SESSION_LIFETIME + 1_000);
    assert!(!sessions.contains(&text("OLD000")));
    assert!(sessions.contains(&text("MID000")));
    assert!(sessions.contains(&text("NEW000")));
    sessions.cleanup(0);
    assert!(sessions.contains(&text("NEW000")));
    sessions.cleanup(u64::MAX);
    assert!(!sessions.contains(&text("NEW000")));
}

#[test]
fn sessions_do_not_disturb_each_other() {
    let mut sessions = Sessions::new();
    let codes: Vec<String> =
        (0..40)
            .map(|i| sessions.create_session(&format!("host{}", i), &format!("f{}", i), i))
            .collect();
    for (i, code) in codes.iter().enumerate() {
        if i % 3 == 0 {
            sessions.end_session(code);
        }
    }
    for (i, code) in codes.iter().enumerate() {
        match sessions.join_session(code, text("v"), 50).0 {
            Msg::HostReady { host_addr, cert_fingerprint } => {
                assert_ne!(i % 3, 0);
                assert_eq!(host_addr, format!("host{}", i));
                assert_eq!(cert_fingerprint, format!("f{}", i));
            }
            Msg::Error { .. } => assert_eq!(i % 3, 0),
            _ => panic!("unexpected answer"),
        }
    }
}
