//! The viewer's course: it joins a session, connects to the host it is told of,
//! and shows what the host sends.

use vstd::prelude::*;

use crate::capture::Frame;
use crate::client::{
    auth_key, expect_host, refusal, ClientError, ClientErrorView, Reply, ReplyView,
};
use crate::entry::{
    code_in, join_url, optional_text, signaling_base, signaling_url, typed_code, viewer_address,
    viewer_quic_addr,
};
use crate::integrity::{make_tag, tag_of, JOIN_KIND};
use crate::message::{Msg, MsgView};
use crate::packet::VideoPacket;
use crate::wire::Fields;

verus! {

/// How far a viewer has come.
#[derive(Clone, Copy, Debug, PartialEq, Eq, Structural)]
pub enum ViewerStage {
    /// It has not started: it needs the key for the server.
    Starting,
    /// It asks the user for a code.
    Asking,
    /// It looks for its own address.
    Locating,
    /// It connects to the server.
    Connecting,
    /// It presents its key.
    Authenticating,
    /// It asks to join.
    Joining,
    /// It waits to be told of the host.
    AwaitingHost,
    /// It connects to the host and sets up the decoder.
    Preparing,
    /// It receives a packet.
    Receiving,
    /// It decodes a packet.
    Decoding,
    /// It shows a frame.
    Showing,
    /// It is done.
    Stopped,
}

/// What happened to a viewer.
pub enum ViewerEvent {
    /// The key in the environment was looked up.
    AuthKey(Option<String>),
    /// The user typed this line.
    Line(String),
    /// The viewer's own address was found.
    LocalIp(String),
    /// The server is connected.
    Connected,
    /// What was to be sent has been sent.
    Sent,
    /// This came from the server.
    Received(Reply),
    /// The host is connected and the decoder set up.
    Ready,
    /// A packet came, or the stream ended.
    Packet(Option<VideoPacket>),
    /// A packet was decoded; the decoder may have no frame yet.
    Decoded(Option<Frame>),
    /// A frame was handed to the window, or there is no window any more.
    Shown(bool),
}

/// What a viewer does next.
pub enum ViewerAction {
    /// Ask the user for a code.
    Ask,
    /// Find the viewer's own address.
    Locate,
    /// Connect to the server at this place.
    Connect(String),
    /// Send this to the server.
    Send(Msg),
    /// Receive a message from the server.
    Receive,
    /// Connect to the host at this address, if it presents a certificate of this
    /// fingerprint, and set up the decoder.
    Join { host_addr: String, cert_fingerprint: String },
    /// Receive a packet from the host.
    ReceivePacket,
    /// Decode this.
    Decode(Vec<u8>),
    /// Show this.
    Show(Frame),
    /// Stop.
    Stop,
}

/// What happened to a viewer, as plain values.
pub enum ViewerEventView {
    AuthKey(Option<Seq<char>>),
    Line(Seq<char>),
    LocalIp(Seq<char>),
    Connected,
    Sent,
    Received(ReplyView),
    Ready,
    Packet(Option<Fields>),
    Decoded(Option<Frame>),
    Shown(bool),
}

/// What a viewer does next, as plain values.
pub enum ViewerActionView {
    Ask,
    Locate,
    Connect(Seq<char>),
    Send(MsgView),
    Receive,
    Join { host_addr: Seq<char>, cert_fingerprint: Seq<char> },
    ReceivePacket,
    Decode(Seq<u8>),
    Show(Frame),
    Stop,
}

impl View for ViewerEvent {
    type V = ViewerEventView;

    open spec fn view(&self) -> ViewerEventView {
        match *self {
            ViewerEvent::AuthKey(key) => ViewerEventView::AuthKey(optional_text(key)),
            ViewerEvent::Line(line) => ViewerEventView::Line(line@),
            ViewerEvent::LocalIp(ip) => ViewerEventView::LocalIp(ip@),
            ViewerEvent::Connected => ViewerEventView::Connected,
            ViewerEvent::Sent => ViewerEventView::Sent,
            ViewerEvent::Received(reply) => ViewerEventView::Received(reply@),
            ViewerEvent::Ready => ViewerEventView::Ready,
            ViewerEvent::Packet(Some(packet)) => ViewerEventView::Packet(Some(packet@)),
            ViewerEvent::Packet(None) => ViewerEventView::Packet(None),
            ViewerEvent::Decoded(frame) => ViewerEventView::Decoded(frame),
            ViewerEvent::Shown(shown) => ViewerEventView::Shown(shown),
        }
    }
}

impl View for ViewerAction {
    type V = ViewerActionView;

    open spec fn view(&self) -> ViewerActionView {
        match *self {
            ViewerAction::Ask => ViewerActionView::Ask,
            ViewerAction::Locate => ViewerActionView::Locate,
            ViewerAction::Connect(url) => ViewerActionView::Connect(url@),
            ViewerAction::Send(msg) => ViewerActionView::Send(msg@),
            ViewerAction::Receive => ViewerActionView::Receive,
            ViewerAction::Join { host_addr, cert_fingerprint } => ViewerActionView::Join {
                host_addr: host_addr@,
                cert_fingerprint: cert_fingerprint@,
            },
            ViewerAction::ReceivePacket => ViewerActionView::ReceivePacket,
            ViewerAction::Decode(payload) => ViewerActionView::Decode(payload@),
            ViewerAction::Show(frame) => ViewerActionView::Show(frame),
            ViewerAction::Stop => ViewerActionView::Stop,
        }
    }
}

/// What a viewer knows.
pub struct ViewerView {
    pub stage: ViewerStage,
    /// Where the server is.
    pub signaling: Seq<char>,
    /// The key for the server.
    pub key: Seq<char>,
    /// The code of the session to join.
    pub code: Seq<char>,
    /// The address that the viewer gives for itself.
    pub quic_addr: Seq<char>,
}

/// What a viewer makes of its next step.
pub type ViewerOutcome = Result<ViewerActionView, ClientErrorView>;

/// A viewer that has not started.
pub open spec fn viewer_start(signaling: Option<Seq<char>>) -> ViewerView {
    ViewerView {
        stage: ViewerStage::Starting,
        signaling: signaling_base(signaling),
        key: Seq::empty(),
        code: Seq::empty(),
        quic_addr: Seq::empty(),
    }
}

/// Whether an event is one that a viewer waits for.
pub open spec fn viewer_expects(stage: ViewerStage, event: ViewerEventView) -> bool {
    match stage {
        ViewerStage::Starting => event is AuthKey,
        ViewerStage::Asking => event is Line,
        ViewerStage::Locating => event is LocalIp,
        ViewerStage::Connecting => event is Connected,
        ViewerStage::Authenticating => event is Sent,
        ViewerStage::Joining => event is Sent,
        ViewerStage::AwaitingHost => event is Received,
        ViewerStage::Preparing => event is Ready,
        ViewerStage::Receiving => event is Packet,
        ViewerStage::Decoding => event is Decoded,
        ViewerStage::Showing => event is Shown,
        ViewerStage::Stopped => false,
    }
}

/// A viewer that moves on to another stage and nothing else.
pub open spec fn at_stage(viewer: ViewerView, stage: ViewerStage) -> ViewerView {
    ViewerView { stage, ..viewer }
}

/// What a viewer knows after an event that it waits for, and what it does next;
/// with no next step it stays where it is.
pub open spec fn viewer_next(viewer: ViewerView, event: ViewerEventView) -> (
    ViewerView,
    ViewerOutcome,
) {
    match (viewer.stage, event) {
        (ViewerStage::Starting, ViewerEventView::AuthKey(Some(key))) => (
            ViewerView { stage: ViewerStage::Asking, key, ..viewer },
            Ok(ViewerActionView::Ask),
        ),
        (ViewerStage::Starting, ViewerEventView::AuthKey(None)) => (
            viewer,
            Err(ClientErrorView::MissingAuthKey),
        ),
        (ViewerStage::Asking, ViewerEventView::Line(line)) => (
            ViewerView { stage: ViewerStage::Locating, code: code_in(line), ..viewer },
            Ok(ViewerActionView::Locate),
        ),
        (ViewerStage::Locating, ViewerEventView::LocalIp(ip)) => (
            ViewerView { stage: ViewerStage::Connecting, quic_addr: viewer_address(ip), ..viewer },
            Ok(ViewerActionView::Connect(viewer.signaling + "/session/join/"@ + viewer.code)),
        ),
        (ViewerStage::Connecting, ViewerEventView::Connected) => (
            at_stage(viewer, ViewerStage::Authenticating),
            Ok(ViewerActionView::Send(MsgView::Auth { key: viewer.key })),
        ),
        (ViewerStage::Authenticating, ViewerEventView::Sent) => (
            at_stage(viewer, ViewerStage::Joining),
            Ok(
                ViewerActionView::Send(
                    MsgView::Join {
                        code: viewer.code,
                        viewer_addr: viewer.quic_addr,
                        tag: Some(tag_of(viewer.key, JOIN_KIND, viewer.code, viewer.quic_addr)),
                    },
                ),
            ),
        ),
        (ViewerStage::Joining, ViewerEventView::Sent) => (
            at_stage(viewer, ViewerStage::AwaitingHost),
            Ok(ViewerActionView::Receive),
        ),
        (ViewerStage::AwaitingHost, ViewerEventView::Received(reply)) => match reply {
            ReplyView::Message(MsgView::HostReady { host_addr, cert_fingerprint }) => (
                at_stage(viewer, ViewerStage::Preparing),
                Ok(ViewerActionView::Join { host_addr, cert_fingerprint }),
            ),
            _ => (viewer, Err(refusal(reply))),
        },
        (ViewerStage::Preparing, ViewerEventView::Ready) => (
            at_stage(viewer, ViewerStage::Receiving),
            Ok(ViewerActionView::ReceivePacket),
        ),
        (ViewerStage::Receiving, ViewerEventView::Packet(Some(packet))) => (
            at_stage(viewer, ViewerStage::Decoding),
            Ok(ViewerActionView::Decode(packet.payload)),
        ),
        (ViewerStage::Receiving, ViewerEventView::Packet(None)) => (
            at_stage(viewer, ViewerStage::Stopped),
            Ok(ViewerActionView::Stop),
        ),
        (ViewerStage::Decoding, ViewerEventView::Decoded(Some(frame))) => (
            at_stage(viewer, ViewerStage::Showing),
            Ok(ViewerActionView::Show(frame)),
        ),
        (ViewerStage::Decoding, ViewerEventView::Decoded(None)) => (
            at_stage(viewer, ViewerStage::Receiving),
            Ok(ViewerActionView::ReceivePacket),
        ),
        (ViewerStage::Showing, ViewerEventView::Shown(shown)) => if shown {
            (
                at_stage(viewer, ViewerStage::Receiving),
                Ok(ViewerActionView::ReceivePacket),
            )
        } else {
            (at_stage(viewer, ViewerStage::Stopped), Ok(ViewerActionView::Stop))
        },
        _ => (viewer, Err(ClientErrorView::Closed)),
    }
}

/// The plain value of a viewer's next step.
pub open spec fn viewer_outcome(outcome: Result<ViewerAction, ClientError>) -> ViewerOutcome {
    match outcome {
        Ok(action) => Ok(action@),
        Err(e) => Err(e@),
    }
}

/// A viewer on its course.
pub struct Viewer {
    stage: ViewerStage,
    signaling: String,
    key: String,
    code: String,
    quic_addr: String,
}

impl View for Viewer {
    type V = ViewerView;

    closed spec fn view(&self) -> ViewerView {
        ViewerView {
            stage: self.stage,
            signaling: self.signaling@,
            key: self.key@,
            code: self.code@,
            quic_addr: self.quic_addr@,
        }
    }
}

impl Viewer {
    /// A viewer that has not started, given where the environment says that the
    /// signalling server is.
    pub fn new(signaling: Option<String>) -> (viewer: Viewer)
        ensures
            viewer@ == viewer_start(optional_text(signaling)),
    {
        Viewer {
            stage: ViewerStage::Starting,
            signaling: signaling_url(signaling),
            key: String::new(),
            code: String::new(),
            quic_addr: String::new(),
        }
    }

    /// Whether the viewer waits for an event of this kind.
    pub fn expects(&self, event: &ViewerEvent) -> (expected: bool)
        ensures
            expected == viewer_expects(self@.stage, event@),
    {
        match self.stage {
            ViewerStage::Starting => matches!(event, ViewerEvent::AuthKey(_)),
            ViewerStage::Asking => matches!(event, ViewerEvent::Line(_)),
            ViewerStage::Locating => matches!(event, ViewerEvent::LocalIp(_)),
            ViewerStage::Connecting => matches!(event, ViewerEvent::Connected),
            ViewerStage::Authenticating => matches!(event, ViewerEvent::Sent),
            ViewerStage::Joining => matches!(event, ViewerEvent::Sent),
            ViewerStage::AwaitingHost => matches!(event, ViewerEvent::Received(_)),
            ViewerStage::Preparing => matches!(event, ViewerEvent::Ready),
            ViewerStage::Receiving => matches!(event, ViewerEvent::Packet(_)),
            ViewerStage::Decoding => matches!(event, ViewerEvent::Decoded(_)),
            ViewerStage::Showing => matches!(event, ViewerEvent::Shown(_)),
            ViewerStage::Stopped => false,
        }
    }

    /// Takes an event that the viewer waits for, and says what to do next.
    pub fn step(&mut self, event: ViewerEvent) -> (outcome: Result<ViewerAction, ClientError>)
        requires
            viewer_expects(old(self)@.stage, event@),
        ensures
            (final(self)@, viewer_outcome(outcome)) == viewer_next(old(self)@, event@),
            event matches ViewerEvent::Packet(Some(packet)) ==> (
            outcome matches Ok(ViewerAction::Decode(payload)) && payload@ == packet.payload@),
            event matches ViewerEvent::Decoded(Some(frame)) ==> (
            outcome matches Ok(ViewerAction::Show(shown)) && shown == frame),
            event matches ViewerEvent::Received(
                Reply::Message(Msg::HostReady { host_addr, cert_fingerprint }),
            ) ==> (outcome matches Ok(ViewerAction::Join { host_addr: addr, cert_fingerprint: print })
                && addr@ == host_addr@ && print@ == cert_fingerprint@),
    {
        match event {
            ViewerEvent::AuthKey(setting) => match auth_key(setting) {
                Ok(key) => {
                    self.key = key;
                    self.stage = ViewerStage::Asking;
                    Ok(ViewerAction::Ask)
                },
                Err(e) => Err(e),
            },
            ViewerEvent::Line(line) => {
                self.code = typed_code(line.as_str());
                self.stage = ViewerStage::Locating;
                Ok(ViewerAction::Locate)
            },
            ViewerEvent::LocalIp(ip) => {
                self.quic_addr = viewer_quic_addr(ip.as_str());
                self.stage = ViewerStage::Connecting;
                Ok(ViewerAction::Connect(join_url(self.signaling.as_str(), self.code.as_str())))
            },
            ViewerEvent::Connected => {
                self.stage = ViewerStage::Authenticating;
                Ok(ViewerAction::Send(Msg::Auth { key: self.key.clone() }))
            },
            ViewerEvent::Sent => match self.stage {
                ViewerStage::Authenticating => {
                    self.stage = ViewerStage::Joining;
                    let tag = make_tag(
                        self.key.as_str(),
                        JOIN_KIND,
                        self.code.as_str(),
                        self.quic_addr.as_str(),
                    );
                    Ok(
                        ViewerAction::Send(
                            Msg::Join {
                                code: self.code.clone(),
                                viewer_addr: self.quic_addr.clone(),
                                tag: Some(tag),
                            },
                        ),
                    )
                },
                _ => {
                    self.stage = ViewerStage::AwaitingHost;
                    Ok(ViewerAction::Receive)
                },
            },
            ViewerEvent::Received(reply) => match expect_host(reply) {
                Ok((host_addr, cert_fingerprint)) => {
                    self.stage = ViewerStage::Preparing;
                    Ok(ViewerAction::Join { host_addr, cert_fingerprint })
                },
                Err(e) => Err(e),
            },
            ViewerEvent::Ready => {
                self.stage = ViewerStage::Receiving;
                Ok(ViewerAction::ReceivePacket)
            },
            ViewerEvent::Packet(Some(packet)) => {
                self.stage = ViewerStage::Decoding;
                Ok(ViewerAction::Decode(packet.payload))
            },
            ViewerEvent::Packet(None) => {
                self.stage = ViewerStage::Stopped;
                Ok(ViewerAction::Stop)
            },
            ViewerEvent::Decoded(Some(frame)) => {
                self.stage = ViewerStage::Showing;
                Ok(ViewerAction::Show(frame))
            },
            ViewerEvent::Decoded(None) => {
                self.stage = ViewerStage::Receiving;
                Ok(ViewerAction::ReceivePacket)
            },
            ViewerEvent::Shown(shown) => if shown {
                self.stage = ViewerStage::Receiving;
                Ok(ViewerAction::ReceivePacket)
            } else {
                self.stage = ViewerStage::Stopped;
                Ok(ViewerAction::Stop)
            },
        }
    }
}

/// What a viewer knows after several events, and what it made of each.
pub open spec fn viewer_run(viewer: ViewerView, events: Seq<ViewerEventView>) -> (
    ViewerView,
    Seq<ViewerOutcome>,
)
    decreases events.len(),
{
    if events.len() == 0 {
        (viewer, Seq::empty())
    } else {
        let (next, outcome) = viewer_next(viewer, events[0]);
        let (last, outcomes) = viewer_run(next, events.skip(1));
        (last, seq![outcome] + outcomes)
    }
}

/// A viewer that meets no obstacle connects with the code that the user typed,
/// presents its key, asks to join with its own address, under a tag, and connects to the host
/// that the server names, under the fingerprint that the server gives.
pub proof fn lemma_viewer_course(
    signaling: Option<Seq<char>>,
    key: Seq<char>,
    line: Seq<char>,
    ip: Seq<char>,
    host_addr: Seq<char>,
    cert_fingerprint: Seq<char>,
)
    ensures
        viewer_run(
            viewer_start(signaling),
            seq![
                ViewerEventView::AuthKey(Some(key)),
                ViewerEventView::Line(line),
                ViewerEventView::LocalIp(ip),
                ViewerEventView::Connected,
                ViewerEventView::Sent,
                ViewerEventView::Sent,
                ViewerEventView::Received(
                    ReplyView::Message(MsgView::HostReady { host_addr, cert_fingerprint }),
                ),
                ViewerEventView::Ready,
            ],
        ).1 == seq![
            Ok::<ViewerActionView, ClientErrorView>(ViewerActionView::Ask),
            Ok(ViewerActionView::Locate),
            Ok(
                ViewerActionView::Connect(
                    signaling_base(signaling) + "/session/join/"@ + code_in(line),
                ),
            ),
            Ok(ViewerActionView::Send(MsgView::Auth { key })),
            Ok(
                ViewerActionView::Send(
                    MsgView::Join {
                        code: code_in(line),
                        viewer_addr: ip + ":5001"@,
                        tag: Some(tag_of(key, JOIN_KIND, code_in(line), ip + ":5001"@)),
                    },
                ),
            ),
            Ok(ViewerActionView::Receive),
            Ok(ViewerActionView::Join { host_addr, cert_fingerprint }),
            Ok(ViewerActionView::ReceivePacket),
        ],
{
    reveal_with_fuel(viewer_run, 9);
    let start = viewer_start(signaling);
    let events = seq![
        ViewerEventView::AuthKey(Some(key)),
        ViewerEventView::Line(line),
        ViewerEventView::LocalIp(ip),
        ViewerEventView::Connected,
        ViewerEventView::Sent,
        ViewerEventView::Sent,
        ViewerEventView::Received(
            ReplyView::Message(MsgView::HostReady { host_addr, cert_fingerprint }),
        ),
        ViewerEventView::Ready,
    ];
    assert(viewer_run(start, events).1 =~= seq![
        Ok::<ViewerActionView, ClientErrorView>(ViewerActionView::Ask),
        Ok(ViewerActionView::Locate),
        Ok(
            ViewerActionView::Connect(
                signaling_base(signaling) + "/session/join/"@ + code_in(line),
            ),
        ),
        Ok(ViewerActionView::Send(MsgView::Auth { key })),
        Ok(
            ViewerActionView::Send(
                MsgView::Join {
                    code: code_in(line),
                    viewer_addr: ip + ":5001"@,
                    tag: Some(tag_of(key, JOIN_KIND, code_in(line), ip + ":5001"@)),
                },
            ),
        ),
        Ok(ViewerActionView::Receive),
        Ok(ViewerActionView::Join { host_addr, cert_fingerprint }),
        Ok(ViewerActionView::ReceivePacket),
    ]);
}

/// A viewer connects to no host but the one that the server names, and only under
/// the fingerprint that the server gives with it.
pub proof fn lemma_joins_named_host_only(viewer: ViewerView, event: ViewerEventView)
    ensures
        viewer_next(viewer, event).1 matches Ok(ViewerActionView::Join {
            host_addr,
            cert_fingerprint,
        }) ==> event == ViewerEventView::Received(
            ReplyView::Message(MsgView::HostReady { host_addr, cert_fingerprint }),
        ),
{
}

/// Every packet that arrives is decoded and every frame that comes of it is shown,
/// unchanged and once, before the next packet is received; the viewer stops when
/// the stream ends or the window is gone.
pub proof fn lemma_watch_round(viewer: ViewerView, packet: Fields, frame: Frame)
    requires
        viewer.stage == ViewerStage::Receiving,
    ensures
        viewer_run(
            viewer,
            seq![
                ViewerEventView::Packet(Some(packet)),
                ViewerEventView::Decoded(Some(frame)),
                ViewerEventView::Shown(true),
            ],
        ) == (
            viewer,
            seq![
                Ok::<ViewerActionView, ClientErrorView>(ViewerActionView::Decode(packet.payload)),
                Ok(ViewerActionView::Show(frame)),
                Ok(ViewerActionView::ReceivePacket),
            ],
        ),
        viewer_run(
            viewer,
            seq![
                ViewerEventView::Packet(Some(packet)),
                ViewerEventView::Decoded(None),
            ],
        ) == (
            viewer,
            seq![
                Ok::<ViewerActionView, ClientErrorView>(ViewerActionView::Decode(packet.payload)),
                Ok(ViewerActionView::ReceivePacket),
            ],
        ),
        viewer_next(viewer, ViewerEventView::Packet(None)).1 == Ok::<
            ViewerActionView,
            ClientErrorView,
        >(ViewerActionView::Stop),
        viewer_next(at_stage(viewer, ViewerStage::Showing), ViewerEventView::Shown(false)).1
            == Ok::<ViewerActionView, ClientErrorView>(ViewerActionView::Stop),
{
    reveal_with_fuel(viewer_run, 4);
    let full = seq![
        ViewerEventView::Packet(Some(packet)),
        ViewerEventView::Decoded(Some(frame)),
        ViewerEventView::Shown(true),
    ];
    let empty = seq![ViewerEventView::Packet(Some(packet)), ViewerEventView::Decoded(None)];
    assert(viewer_run(viewer, full).1 =~= seq![
        Ok::<ViewerActionView, ClientErrorView>(ViewerActionView::Decode(packet.payload)),
        Ok(ViewerActionView::Show(frame)),
        Ok(ViewerActionView::ReceivePacket),
    ]);
    assert(viewer_run(viewer, empty).1 =~= seq![
        Ok::<ViewerActionView, ClientErrorView>(ViewerActionView::Decode(packet.payload)),
        Ok(ViewerActionView::ReceivePacket),
    ]);
}

/// A viewer that is not told of a host gives up and stays where it is, with the
/// server's reason or the message that came.
pub proof fn lemma_viewer_gives_up(viewer: ViewerView, reply: ReplyView)
    requires
        viewer.stage == ViewerStage::AwaitingHost,
        !(reply matches ReplyView::Message(msg) && msg is HostReady),
    ensures
        viewer_next(viewer, ViewerEventView::Received(reply)).0 == viewer,
        viewer_next(viewer, ViewerEventView::Received(reply)).1 == Err::<
            ViewerActionView,
            ClientErrorView,
        >(
            (match reply {
                ReplyView::Message(MsgView::Error { reason }) => ClientErrorView::Signaling(reason),
                ReplyView::Message(other) => ClientErrorView::Unexpected(other),
                ReplyView::Closed => ClientErrorView::Closed,
            }),
        ),
{
}

/// Without a key a viewer does nothing.
pub proof fn lemma_viewer_needs_key(signaling: Option<Seq<char>>)
    ensures
        viewer_next(viewer_start(signaling), ViewerEventView::AuthKey(None)).1 == Err::<
            ViewerActionView,
            ClientErrorView,
        >(ClientErrorView::MissingAuthKey),
{
}

} // verus!
