//! The host's course: it announces itself, waits for a viewer, and streams.

use vstd::prelude::*;

use crate::client::{
    auth_key, expect_code, expect_viewer, refusal, ClientError, ClientErrorView, Reply,
    ReplyView,
};
use crate::codec::EncodedFrame;
use crate::entry::{
    create_url, host_address, host_quic_addr, optional_text, signaling_base, signaling_url,
};
use crate::integrity::{make_tag, tag_of, CREATE_KIND};
use crate::message::{Msg, MsgView};

verus! {

/// How long a host pauses between two frames, in milliseconds.
pub const FRAME_PAUSE_MS: u64 = 16;

/// How far a host has come.
#[derive(Clone, Copy, Debug, PartialEq, Eq, Structural)]
pub enum HostStage {
    /// It has not started: it needs the key for the server.
    Starting,
    /// It looks for its own address.
    Locating,
    /// It opens its endpoint.
    Binding,
    /// It connects to the server.
    Connecting,
    /// It presents its key.
    Authenticating,
    /// It asks for a session.
    Announcing,
    /// It waits for the session's code.
    AwaitingCode,
    /// It starts listening for a viewer.
    Listening,
    /// It waits for a viewer to be announced.
    AwaitingViewer,
    /// It waits for the connection and sets up the encoder.
    Preparing,
    /// It captures a frame.
    Capturing,
    /// It encodes a frame.
    Encoding,
    /// It sends a packet.
    Sending,
    /// It pauses before the next frame.
    Pausing,
}

/// What happened to a host.
pub enum HostEvent {
    /// The key in the environment was looked up.
    AuthKey(Option<String>),
    /// The host's own address was found.
    LocalIp(String),
    /// The endpoint is open; its certificate has this fingerprint.
    Bound(String),
    /// The server is connected.
    Connected,
    /// What was to be sent has been sent.
    Sent,
    /// This came from the server.
    Received(Reply),
    /// The host now listens for a viewer.
    Listening,
    /// The viewer is connected and the encoder set up.
    Ready,
    /// A frame was captured.
    Captured,
    /// A frame was encoded; the encoder may have nothing to send yet.
    Encoded(Option<EncodedFrame>),
    /// The pause is over.
    Paused,
}

/// What a host does next.
pub enum HostAction {
    /// Find the host's own address.
    Locate,
    /// Open the endpoint at this address.
    Bind(String),
    /// Connect to the server at this place.
    Connect(String),
    /// Send this to the server.
    Send(Msg),
    /// Receive a message from the server.
    Receive,
    /// Show this code, and listen for a viewer.
    Listen(String),
    /// Wait for the connection, and set up the encoder for a first frame.
    Prepare,
    /// Capture a frame.
    Capture,
    /// Encode the frame that was captured.
    Encode,
    /// Send this to the viewer, marked as a keyframe or not.
    Transmit { payload: Vec<u8>, keyframe: bool },
    /// Wait for this many milliseconds.
    Pause(u64),
}

/// What happened to a host, as plain values.
pub enum HostEventView {
    AuthKey(Option<Seq<char>>),
    LocalIp(Seq<char>),
    Bound(Seq<char>),
    Connected,
    Sent,
    Received(ReplyView),
    Listening,
    Ready,
    Captured,
    Encoded(Option<(Seq<u8>, bool)>),
    Paused,
}

/// What a host does next, as plain values.
pub enum HostActionView {
    Locate,
    Bind(Seq<char>),
    Connect(Seq<char>),
    Send(MsgView),
    Receive,
    Listen(Seq<char>),
    Prepare,
    Capture,
    Encode,
    Transmit { payload: Seq<u8>, keyframe: bool },
    Pause(u64),
}

impl View for HostEvent {
    type V = HostEventView;

    open spec fn view(&self) -> HostEventView {
        match *self {
            HostEvent::AuthKey(key) => HostEventView::AuthKey(optional_text(key)),
            HostEvent::LocalIp(ip) => HostEventView::LocalIp(ip@),
            HostEvent::Bound(fingerprint) => HostEventView::Bound(fingerprint@),
            HostEvent::Connected => HostEventView::Connected,
            HostEvent::Sent => HostEventView::Sent,
            HostEvent::Received(reply) => HostEventView::Received(reply@),
            HostEvent::Listening => HostEventView::Listening,
            HostEvent::Ready => HostEventView::Ready,
            HostEvent::Captured => HostEventView::Captured,
            HostEvent::Encoded(Some(encoded)) => HostEventView::Encoded(Some(encoded@)),
            HostEvent::Encoded(None) => HostEventView::Encoded(None),
            HostEvent::Paused => HostEventView::Paused,
        }
    }
}

impl View for HostAction {
    type V = HostActionView;

    open spec fn view(&self) -> HostActionView {
        match *self {
            HostAction::Locate => HostActionView::Locate,
            HostAction::Bind(addr) => HostActionView::Bind(addr@),
            HostAction::Connect(url) => HostActionView::Connect(url@),
            HostAction::Send(msg) => HostActionView::Send(msg@),
            HostAction::Receive => HostActionView::Receive,
            HostAction::Listen(code) => HostActionView::Listen(code@),
            HostAction::Prepare => HostActionView::Prepare,
            HostAction::Capture => HostActionView::Capture,
            HostAction::Encode => HostActionView::Encode,
            HostAction::Transmit { payload, keyframe } => HostActionView::Transmit {
                payload: payload@,
                keyframe,
            },
            HostAction::Pause(ms) => HostActionView::Pause(ms),
        }
    }
}

/// What a host knows.
pub struct HostView {
    pub stage: HostStage,
    /// Where the server is.
    pub signaling: Seq<char>,
    /// The key for the server.
    pub key: Seq<char>,
    /// Where the host listens.
    pub quic_addr: Seq<char>,
    /// The fingerprint of the host's certificate.
    pub fingerprint: Seq<char>,
}

/// What a host makes of its next step.
pub type HostOutcome = Result<HostActionView, ClientErrorView>;

/// A host that has not started.
pub open spec fn host_start(signaling: Option<Seq<char>>) -> HostView {
    HostView {
        stage: HostStage::Starting,
        signaling: signaling_base(signaling),
        key: Seq::empty(),
        quic_addr: Seq::empty(),
        fingerprint: Seq::empty(),
    }
}

/// Whether an event is one that a host waits for.
pub open spec fn host_expects(stage: HostStage, event: HostEventView) -> bool {
    match stage {
        HostStage::Starting => event is AuthKey,
        HostStage::Locating => event is LocalIp,
        HostStage::Binding => event is Bound,
        HostStage::Connecting => event is Connected,
        HostStage::Authenticating => event is Sent,
        HostStage::Announcing => event is Sent,
        HostStage::AwaitingCode => event is Received,
        HostStage::Listening => event is Listening,
        HostStage::AwaitingViewer => event is Received,
        HostStage::Preparing => event is Ready,
        HostStage::Capturing => event is Captured,
        HostStage::Encoding => event is Encoded,
        HostStage::Sending => event is Sent,
        HostStage::Pausing => event is Paused,
    }
}

/// A host that moves on to another stage and nothing else.
pub open spec fn at_stage(host: HostView, stage: HostStage) -> HostView {
    HostView { stage, ..host }
}

/// What a host knows after an event that it waits for, and what it does next; with
/// no next step it stays where it is.
pub open spec fn host_next(host: HostView, event: HostEventView) -> (HostView, HostOutcome) {
    match (host.stage, event) {
        (HostStage::Starting, HostEventView::AuthKey(Some(key))) => (
            HostView { stage: HostStage::Locating, key, ..host },
            Ok(HostActionView::Locate),
        ),
        (HostStage::Starting, HostEventView::AuthKey(None)) => (
            host,
            Err(ClientErrorView::MissingAuthKey),
        ),
        (HostStage::Locating, HostEventView::LocalIp(ip)) => (
            HostView { stage: HostStage::Binding, quic_addr: host_address(ip), ..host },
            Ok(HostActionView::Bind(host_address(ip))),
        ),
        (HostStage::Binding, HostEventView::Bound(fingerprint)) => (
            HostView { stage: HostStage::Connecting, fingerprint, ..host },
            Ok(HostActionView::Connect(host.signaling + "/session/create"@)),
        ),
        (HostStage::Connecting, HostEventView::Connected) => (
            at_stage(host, HostStage::Authenticating),
            Ok(HostActionView::Send(MsgView::Auth { key: host.key })),
        ),
        (HostStage::Authenticating, HostEventView::Sent) => (
            at_stage(host, HostStage::Announcing),
            Ok(
                HostActionView::Send(
                    MsgView::Create {
                        host_addr: host.quic_addr,
                        cert_fingerprint: host.fingerprint,
                        tag: Some(
                            tag_of(host.key, CREATE_KIND, host.quic_addr, host.fingerprint),
                        ),
                    },
                ),
            ),
        ),
        (HostStage::Announcing, HostEventView::Sent) => (
            at_stage(host, HostStage::AwaitingCode),
            Ok(HostActionView::Receive),
        ),
        (HostStage::AwaitingCode, HostEventView::Received(reply)) => match reply {
            ReplyView::Message(MsgView::Code { code }) => (
                at_stage(host, HostStage::Listening),
                Ok(HostActionView::Listen(code)),
            ),
            _ => (host, Err(refusal(reply))),
        },
        (HostStage::Listening, HostEventView::Listening) => (
            at_stage(host, HostStage::AwaitingViewer),
            Ok(HostActionView::Receive),
        ),
        (HostStage::AwaitingViewer, HostEventView::Received(reply)) => match reply {
            ReplyView::Message(MsgView::ViewerReady { viewer_addr }) => (
                at_stage(host, HostStage::Preparing),
                Ok(HostActionView::Prepare),
            ),
            _ => (host, Err(refusal(reply))),
        },
        (HostStage::Preparing, HostEventView::Ready) => (
            at_stage(host, HostStage::Capturing),
            Ok(HostActionView::Capture),
        ),
        (HostStage::Capturing, HostEventView::Captured) => (
            at_stage(host, HostStage::Encoding),
            Ok(HostActionView::Encode),
        ),
        (HostStage::Encoding, HostEventView::Encoded(Some((payload, keyframe)))) => (
            at_stage(host, HostStage::Sending),
            Ok(HostActionView::Transmit { payload, keyframe }),
        ),
        (HostStage::Encoding, HostEventView::Encoded(None)) => (
            at_stage(host, HostStage::Pausing),
            Ok(HostActionView::Pause(FRAME_PAUSE_MS)),
        ),
        (HostStage::Sending, HostEventView::Sent) => (
            at_stage(host, HostStage::Pausing),
            Ok(HostActionView::Pause(FRAME_PAUSE_MS)),
        ),
        (HostStage::Pausing, HostEventView::Paused) => (
            at_stage(host, HostStage::Capturing),
            Ok(HostActionView::Capture),
        ),
        _ => (host, Err(ClientErrorView::Closed)),
    }
}

/// The plain value of a host's next step.
pub open spec fn host_outcome(outcome: Result<HostAction, ClientError>) -> HostOutcome {
    match outcome {
        Ok(action) => Ok(action@),
        Err(e) => Err(e@),
    }
}

/// A host on its course.
pub struct Host {
    stage: HostStage,
    signaling: String,
    key: String,
    quic_addr: String,
    fingerprint: String,
}

impl View for Host {
    type V = HostView;

    closed spec fn view(&self) -> HostView {
        HostView {
            stage: self.stage,
            signaling: self.signaling@,
            key: self.key@,
            quic_addr: self.quic_addr@,
            fingerprint: self.fingerprint@,
        }
    }
}

impl Host {
    /// A host that has not started, given where the environment says that the
    /// signalling server is.
    pub fn new(signaling: Option<String>) -> (host: Host)
        ensures
            host@ == host_start(optional_text(signaling)),
    {
        Host {
            stage: HostStage::Starting,
            signaling: signaling_url(signaling),
            key: String::new(),
            quic_addr: String::new(),
            fingerprint: String::new(),
        }
    }

    /// Whether the host waits for an event of this kind.
    pub fn expects(&self, event: &HostEvent) -> (expected: bool)
        ensures
            expected == host_expects(self@.stage, event@),
    {
        match self.stage {
            HostStage::Starting => matches!(event, HostEvent::AuthKey(_)),
            HostStage::Locating => matches!(event, HostEvent::LocalIp(_)),
            HostStage::Binding => matches!(event, HostEvent::Bound(_)),
            HostStage::Connecting => matches!(event, HostEvent::Connected),
            HostStage::Authenticating => matches!(event, HostEvent::Sent),
            HostStage::Announcing => matches!(event, HostEvent::Sent),
            HostStage::AwaitingCode => matches!(event, HostEvent::Received(_)),
            HostStage::Listening => matches!(event, HostEvent::Listening),
            HostStage::AwaitingViewer => matches!(event, HostEvent::Received(_)),
            HostStage::Preparing => matches!(event, HostEvent::Ready),
            HostStage::Capturing => matches!(event, HostEvent::Captured),
            HostStage::Encoding => matches!(event, HostEvent::Encoded(_)),
            HostStage::Sending => matches!(event, HostEvent::Sent),
            HostStage::Pausing => matches!(event, HostEvent::Paused),
        }
    }

    /// Takes an event that the host waits for, and says what to do next.
    pub fn step(&mut self, event: HostEvent) -> (outcome: Result<HostAction, ClientError>)
        requires
            host_expects(old(self)@.stage, event@),
        ensures
            (final(self)@, host_outcome(outcome)) == host_next(old(self)@, event@),
            event matches HostEvent::LocalIp(ip) ==> (outcome matches Ok(HostAction::Bind(addr))
                && addr@ == ip@ + ":5000"@),
            event matches HostEvent::Encoded(Some(encoded)) ==> (
            outcome matches Ok(HostAction::Transmit { payload, keyframe }) && payload@
                == encoded.payload@ && keyframe == encoded.keyframe),
    {
        match event {
            HostEvent::AuthKey(setting) => match auth_key(setting) {
                Ok(key) => {
                    self.key = key;
                    self.stage = HostStage::Locating;
                    Ok(HostAction::Locate)
                },
                Err(e) => Err(e),
            },
            HostEvent::LocalIp(ip) => {
                self.quic_addr = host_quic_addr(ip.as_str());
                self.stage = HostStage::Binding;
                Ok(HostAction::Bind(self.quic_addr.clone()))
            },
            HostEvent::Bound(fingerprint) => {
                self.fingerprint = fingerprint;
                self.stage = HostStage::Connecting;
                Ok(HostAction::Connect(create_url(self.signaling.as_str())))
            },
            HostEvent::Connected => {
                self.stage = HostStage::Authenticating;
                Ok(HostAction::Send(Msg::Auth { key: self.key.clone() }))
            },
            HostEvent::Sent => match self.stage {
                HostStage::Authenticating => {
                    self.stage = HostStage::Announcing;
                    let tag = make_tag(
                        self.key.as_str(),
                        CREATE_KIND,
                        self.quic_addr.as_str(),
                        self.fingerprint.as_str(),
                    );
                    Ok(
                        HostAction::Send(
                            Msg::Create {
                                host_addr: self.quic_addr.clone(),
                                cert_fingerprint: self.fingerprint.clone(),
                                tag: Some(tag),
                            },
                        ),
                    )
                },
                HostStage::Announcing => {
                    self.stage = HostStage::AwaitingCode;
                    Ok(HostAction::Receive)
                },
                _ => {
                    self.stage = HostStage::Pausing;
                    Ok(HostAction::Pause(FRAME_PAUSE_MS))
                },
            },
            HostEvent::Received(reply) => match self.stage {
                HostStage::AwaitingCode => match expect_code(reply) {
                    Ok(code) => {
                        self.stage = HostStage::Listening;
                        Ok(HostAction::Listen(code))
                    },
                    Err(e) => Err(e),
                },
                _ => match expect_viewer(reply) {
                    Ok(_) => {
                        self.stage = HostStage::Preparing;
                        Ok(HostAction::Prepare)
                    },
                    Err(e) => Err(e),
                },
            },
            HostEvent::Listening => {
                self.stage = HostStage::AwaitingViewer;
                Ok(HostAction::Receive)
            },
            HostEvent::Ready => {
                self.stage = HostStage::Capturing;
                Ok(HostAction::Capture)
            },
            HostEvent::Captured => {
                self.stage = HostStage::Encoding;
                Ok(HostAction::Encode)
            },
            HostEvent::Encoded(Some(encoded)) => {
                self.stage = HostStage::Sending;
                Ok(
                    HostAction::Transmit {
                        payload: encoded.payload,
                        keyframe: encoded.keyframe,
                    },
                )
            },
            HostEvent::Encoded(None) => {
                self.stage = HostStage::Pausing;
                Ok(HostAction::Pause(FRAME_PAUSE_MS))
            },
            HostEvent::Paused => {
                self.stage = HostStage::Capturing;
                Ok(HostAction::Capture)
            },
        }
    }
}

/// What a host knows after several events, and what it made of each.
pub open spec fn host_run(host: HostView, events: Seq<HostEventView>) -> (HostView, Seq<HostOutcome>)
    decreases events.len(),
{
    if events.len() == 0 {
        (host, Seq::empty())
    } else {
        let (next, outcome) = host_next(host, events[0]);
        let (last, outcomes) = host_run(next, events.skip(1));
        (last, seq![outcome] + outcomes)
    }
}

/// Whether a host has a viewer.
pub open spec fn has_viewer(stage: HostStage) -> bool {
    ||| stage == HostStage::Preparing
    ||| stage == HostStage::Capturing
    ||| stage == HostStage::Encoding
    ||| stage == HostStage::Sending
    ||| stage == HostStage::Pausing
}

/// Whether the server announces a viewer.
pub open spec fn announces_viewer(event: HostEventView) -> bool {
    event matches HostEventView::Received(ReplyView::Message(msg)) && msg is ViewerReady
}

/// Whether a step shows the screen: captures, encodes or sends it.
pub open spec fn shows_screen(outcome: HostOutcome) -> bool {
    outcome matches Ok(action) && (action is Capture || action is Encode || action is Transmit)
}

/// A host that meets no obstacle presents its key first, then announces the
/// address that it opened and the fingerprint of the certificate that it presents
/// there, under a tag, shows the code it is given, and starts when a viewer is
/// announced.
pub proof fn lemma_host_course(
    signaling: Option<Seq<char>>,
    key: Seq<char>,
    ip: Seq<char>,
    fingerprint: Seq<char>,
    code: Seq<char>,
    viewer_addr: Seq<char>,
)
    ensures
        host_run(
            host_start(signaling),
            seq![
                HostEventView::AuthKey(Some(key)),
                HostEventView::LocalIp(ip),
                HostEventView::Bound(fingerprint),
                HostEventView::Connected,
                HostEventView::Sent,
                HostEventView::Sent,
                HostEventView::Received(ReplyView::Message(MsgView::Code { code })),
                HostEventView::Listening,
                HostEventView::Received(ReplyView::Message(MsgView::ViewerReady { viewer_addr })),
                HostEventView::Ready,
            ],
        ).1 == seq![
            Ok::<HostActionView, ClientErrorView>(HostActionView::Locate),
            Ok(HostActionView::Bind(ip + ":5000"@)),
            Ok(HostActionView::Connect(signaling_base(signaling) + "/session/create"@)),
            Ok(HostActionView::Send(MsgView::Auth { key })),
            Ok(
                HostActionView::Send(
                    MsgView::Create {
                        host_addr: ip + ":5000"@,
                        cert_fingerprint: fingerprint,
                        tag: Some(tag_of(key, CREATE_KIND, ip + ":5000"@, fingerprint)),
                    },
                ),
            ),
            Ok(HostActionView::Receive),
            Ok(HostActionView::Listen(code)),
            Ok(HostActionView::Receive),
            Ok(HostActionView::Prepare),
            Ok(HostActionView::Capture),
        ],
{
    let e0 = host_start(signaling);
    let events = seq![
        HostEventView::AuthKey(Some(key)),
        HostEventView::LocalIp(ip),
        HostEventView::Bound(fingerprint),
        HostEventView::Connected,
        HostEventView::Sent,
        HostEventView::Sent,
        HostEventView::Received(ReplyView::Message(MsgView::Code { code })),
        HostEventView::Listening,
        HostEventView::Received(ReplyView::Message(MsgView::ViewerReady { viewer_addr })),
        HostEventView::Ready,
    ];
    reveal_with_fuel(host_run, 11);
    assert(host_run(e0, events).1 =~= seq![
        Ok::<HostActionView, ClientErrorView>(HostActionView::Locate),
        Ok(HostActionView::Bind(ip + ":5000"@)),
        Ok(HostActionView::Connect(signaling_base(signaling) + "/session/create"@)),
        Ok(HostActionView::Send(MsgView::Auth { key })),
        Ok(
            HostActionView::Send(
                MsgView::Create {
                    host_addr: ip + ":5000"@,
                    cert_fingerprint: fingerprint,
                    tag: Some(tag_of(key, CREATE_KIND, ip + ":5000"@, fingerprint)),
                },
            ),
        ),
        Ok(HostActionView::Receive),
        Ok(HostActionView::Listen(code)),
        Ok(HostActionView::Receive),
        Ok(HostActionView::Prepare),
        Ok(HostActionView::Capture),
    ]);
}

/// Nothing of the screen is captured or sent before the server has announced a
/// viewer: without such an event no step of a host shows the screen.
pub proof fn lemma_viewer_before_screen(host: HostView, events: Seq<HostEventView>)
    requires
        !has_viewer(host.stage),
        forall|i: int| 0 <= i < events.len() ==> !announces_viewer(#[trigger] events[i]),
    ensures
        !has_viewer(host_run(host, events).0.stage),
        host_run(host, events).1.len() == events.len(),
        forall|i: int|
            0 <= i < events.len() ==> !shows_screen(#[trigger] host_run(host, events).1[i]),
    decreases events.len(),
{
    if events.len() > 0 {
        let (next, outcome) = host_next(host, events[0]);
        let later = events.skip(1);
        assert(!announces_viewer(events[0]));
        assert forall|i: int| 0 <= i < later.len() implies !announces_viewer(
            #[trigger] later[i],
        ) by {
            assert(later[i] == events[i + 1]);
        }
        lemma_viewer_before_screen(next, later);
        let outcomes = host_run(host, events).1;
        assert forall|i: int| 0 <= i < events.len() implies !shows_screen(
            #[trigger] outcomes[i],
        ) by {
            if i > 0 {
                assert(outcomes[i] == host_run(next, later).1[i - 1]);
            }
        }
    }
}

/// Every round of a host captures and encodes one frame, sends what the encoder
/// gave, if anything, unchanged and once, marked as a keyframe exactly if it is one,
/// and pauses before the next.
pub proof fn lemma_stream_round(host: HostView, payload: Seq<u8>, keyframe: bool)
    requires
        host.stage == HostStage::Capturing,
    ensures
        host_run(
            host,
            seq![
                HostEventView::Captured,
                HostEventView::Encoded(Some((payload, keyframe))),
                HostEventView::Sent,
                HostEventView::Paused,
            ],
        ) == (
            host,
            seq![
                Ok::<HostActionView, ClientErrorView>(HostActionView::Encode),
                Ok(HostActionView::Transmit { payload, keyframe }),
                Ok(HostActionView::Pause(FRAME_PAUSE_MS)),
                Ok(HostActionView::Capture),
            ],
        ),
        host_run(
            host,
            seq![HostEventView::Captured, HostEventView::Encoded(None), HostEventView::Paused],
        ) == (
            host,
            seq![
                Ok::<HostActionView, ClientErrorView>(HostActionView::Encode),
                Ok(HostActionView::Pause(FRAME_PAUSE_MS)),
                Ok(HostActionView::Capture),
            ],
        ),
{
    reveal_with_fuel(host_run, 5);
    let full = seq![
        HostEventView::Captured,
        HostEventView::Encoded(Some((payload, keyframe))),
        HostEventView::Sent,
        HostEventView::Paused,
    ];
    let empty = seq![HostEventView::Captured, HostEventView::Encoded(None), HostEventView::Paused];
    assert(host_run(host, full).1 =~= seq![
        Ok::<HostActionView, ClientErrorView>(HostActionView::Encode),
        Ok(HostActionView::Transmit { payload, keyframe }),
        Ok(HostActionView::Pause(FRAME_PAUSE_MS)),
        Ok(HostActionView::Capture),
    ]);
    assert(host_run(host, empty).1 =~= seq![
        Ok::<HostActionView, ClientErrorView>(HostActionView::Encode),
        Ok(HostActionView::Pause(FRAME_PAUSE_MS)),
        Ok(HostActionView::Capture),
    ]);
}

/// A host that gets another answer than the one that is due gives up and stays where it
/// is, with the server's reason or the message that came.
pub proof fn lemma_host_gives_up(host: HostView, reply: ReplyView)
    requires
        host.stage == HostStage::AwaitingCode && !(reply matches ReplyView::Message(msg)
            && msg is Code) || host.stage == HostStage::AwaitingViewer && !(
        reply matches ReplyView::Message(msg) && msg is ViewerReady),
    ensures
        host_next(host, HostEventView::Received(reply)).0 == host,
        host_next(host, HostEventView::Received(reply)).1 == Err::<HostActionView, ClientErrorView>(
            (match reply {
                ReplyView::Message(MsgView::Error { reason }) => ClientErrorView::Signaling(reason),
                ReplyView::Message(other) => ClientErrorView::Unexpected(other),
                ReplyView::Closed => ClientErrorView::Closed,
            }),
        ),
{
}

/// Without a key a host does nothing.
pub proof fn lemma_host_needs_key(signaling: Option<Seq<char>>)
    ensures
        host_next(host_start(signaling), HostEventView::AuthKey(None)).1 == Err::<
            HostActionView,
            ClientErrorView,
        >(ClientErrorView::MissingAuthKey),
{
}

} // verus!
