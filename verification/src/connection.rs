//! The course of one connection to the signalling server: what it takes from the peer,
//! what it does with the sessions, and what it sends.

use vstd::prelude::*;

use crate::entry::optional_text;
use crate::message::{Msg, MsgView};
use crate::signaling::{
    access, access_for, create_decision, create_request, created_reply, join_decision, join_request,
    viewer_notice, Access, AccessView, Incoming, IncomingView, Request, RequestView,
    SESSION_LIFETIME,
};

verus! {

/// What a peer connects as.
#[derive(Clone, Copy, Debug, PartialEq, Eq, Structural)]
pub enum Role {
    /// To open a session.
    Host,
    /// To join one.
    Viewer,
}

/// How far a connection has come.
enum Stage {
    Requesting(Access),
    Opening,
    Announcing(String),
    Waiting(String),
    Telling(String),
    Ending,
    Joining,
    Closing,
    Closed,
}

/// How far a connection has come, with texts as sequences of characters.
pub enum StageView {
    /// It takes messages until one is a request.
    Requesting(AccessView),
    /// A session is opened.
    Opening,
    /// The host is sent this code.
    Announcing(Seq<char>),
    /// The host of this session waits for a viewer.
    Waiting(Seq<char>),
    /// The host of this session is told of a viewer.
    Telling(Seq<char>),
    /// The session is ended.
    Ending,
    /// A viewer joins.
    Joining,
    /// The last message is sent.
    Closing,
    /// It is over.
    Closed,
}

impl View for Stage {
    type V = StageView;

    closed spec fn view(&self) -> StageView {
        match *self {
            Stage::Requesting(access) => StageView::Requesting(access@),
            Stage::Opening => StageView::Opening,
            Stage::Announcing(code) => StageView::Announcing(code@),
            Stage::Waiting(code) => StageView::Waiting(code@),
            Stage::Telling(code) => StageView::Telling(code@),
            Stage::Ending => StageView::Ending,
            Stage::Joining => StageView::Joining,
            Stage::Closing => StageView::Closing,
            Stage::Closed => StageView::Closed,
        }
    }
}

/// What happened to a connection.
pub enum ConnectionEvent {
    /// This came from the peer.
    Incoming(Incoming),
    /// A session was opened under this code.
    Opened(String),
    /// What was to be sent has been sent.
    Sent,
    /// The wait is over: a viewer at this address joined, or none did.
    Waited(Option<String>),
    /// The viewer's join was answered with this.
    Joined(Msg),
    /// The session was ended.
    Ended,
}

/// What happened to a connection, as plain values.
pub enum ConnectionEventView {
    Incoming(IncomingView),
    Opened(Seq<char>),
    Sent,
    Waited(Option<Seq<char>>),
    Joined(MsgView),
    Ended,
}

impl View for ConnectionEvent {
    type V = ConnectionEventView;

    open spec fn view(&self) -> ConnectionEventView {
        match *self {
            ConnectionEvent::Incoming(incoming) => ConnectionEventView::Incoming(incoming@),
            ConnectionEvent::Opened(code) => ConnectionEventView::Opened(code@),
            ConnectionEvent::Sent => ConnectionEventView::Sent,
            ConnectionEvent::Waited(viewer) => ConnectionEventView::Waited(optional_text(viewer)),
            ConnectionEvent::Joined(answer) => ConnectionEventView::Joined(answer@),
            ConnectionEvent::Ended => ConnectionEventView::Ended,
        }
    }
}

/// What to do next about a connection.
pub enum ConnectionAction {
    /// Receive from the peer.
    Receive,
    /// Open a session for a host at this address, with a certificate of this
    /// fingerprint.
    Open { host_addr: String, cert_fingerprint: String },
    /// Send this to the peer.
    Send(Msg),
    /// Wait for a viewer to join the session with this code, for at most this many
    /// nanoseconds.
    Wait { code: String, limit: u64 },
    /// End the session with this code.
    End(String),
    /// Let a viewer at this address join the session that it connected for.
    Join { viewer_addr: String },
    /// Close the connection.
    Close,
}

/// What to do next about a connection, as plain values.
pub enum ConnectionActionView {
    Receive,
    Open { host_addr: Seq<char>, cert_fingerprint: Seq<char> },
    Send(MsgView),
    Wait { code: Seq<char>, limit: u64 },
    End(Seq<char>),
    Join { viewer_addr: Seq<char> },
    Close,
}

impl View for ConnectionAction {
    type V = ConnectionActionView;

    open spec fn view(&self) -> ConnectionActionView {
        match *self {
            ConnectionAction::Receive => ConnectionActionView::Receive,
            ConnectionAction::Open { host_addr, cert_fingerprint } => ConnectionActionView::Open {
                host_addr: host_addr@,
                cert_fingerprint: cert_fingerprint@,
            },
            ConnectionAction::Send(msg) => ConnectionActionView::Send(msg@),
            ConnectionAction::Wait { code, limit } => ConnectionActionView::Wait {
                code: code@,
                limit,
            },
            ConnectionAction::End(code) => ConnectionActionView::End(code@),
            ConnectionAction::Join { viewer_addr } => ConnectionActionView::Join {
                viewer_addr: viewer_addr@,
            },
            ConnectionAction::Close => ConnectionActionView::Close,
        }
    }
}

/// A connection, with texts as sequences of characters.
pub struct ConnectionView {
    pub role: Role,
    pub stage: StageView,
}

/// A new connection to a server that asks for `required`.  Its first message is
/// received next.
pub open spec fn connection_start(role: Role, required: Option<Seq<char>>) -> ConnectionView {
    ConnectionView { role, stage: StageView::Requesting(access_for(required)) }
}

/// A connection that has come to another stage.
pub open spec fn come_to(connection: ConnectionView, stage: StageView) -> ConnectionView {
    ConnectionView { stage, ..connection }
}

/// Whether an event is one that a connection waits for.
pub open spec fn connection_expects(stage: StageView, event: ConnectionEventView) -> bool {
    match stage {
        StageView::Requesting(_) => event is Incoming,
        StageView::Opening => event is Opened,
        StageView::Announcing(_) => event is Sent,
        StageView::Waiting(_) => event is Waited,
        StageView::Telling(_) => event is Sent,
        StageView::Ending => event is Ended,
        StageView::Joining => event is Joined,
        StageView::Closing => event is Sent,
        StageView::Closed => false,
    }
}

/// What a message comes to on a connection.
pub open spec fn decision(role: Role, access: AccessView, incoming: IncomingView) -> RequestView {
    match role {
        Role::Host => create_decision(access, incoming),
        Role::Viewer => join_decision(access, incoming),
    }
}

/// Where a connection stands after an event that it waits for, and what to do next.
pub open spec fn connection_next(connection: ConnectionView, event: ConnectionEventView) -> (
    ConnectionView,
    ConnectionActionView,
) {
    match (connection.stage, event) {
        (StageView::Requesting(access), ConnectionEventView::Incoming(incoming)) => match decision(
            connection.role,
            access,
            incoming,
        ) {
            RequestView::Continue { key } => (
                come_to(connection, StageView::Requesting(AccessView::Granted(key))),
                ConnectionActionView::Receive,
            ),
            RequestView::Create { host_addr, cert_fingerprint } => (
                come_to(connection, StageView::Opening),
                ConnectionActionView::Open { host_addr, cert_fingerprint },
            ),
            RequestView::Join { viewer_addr } => (
                come_to(connection, StageView::Joining),
                ConnectionActionView::Join { viewer_addr },
            ),
            RequestView::Refuse(msg) => (
                come_to(connection, StageView::Closing),
                ConnectionActionView::Send(msg),
            ),
            RequestView::Ignore => (
                come_to(connection, StageView::Closed),
                ConnectionActionView::Close,
            ),
        },
        (StageView::Opening, ConnectionEventView::Opened(code)) => (
            come_to(connection, StageView::Announcing(code)),
            ConnectionActionView::Send(MsgView::Code { code }),
        ),
        (StageView::Announcing(code), ConnectionEventView::Sent) => (
            come_to(connection, StageView::Waiting(code)),
            ConnectionActionView::Wait { code, limit: SESSION_LIFETIME },
        ),
        (StageView::Waiting(code), ConnectionEventView::Waited(Some(viewer_addr))) => (
            come_to(connection, StageView::Telling(code)),
            ConnectionActionView::Send(MsgView::ViewerReady { viewer_addr }),
        ),
        (StageView::Waiting(code), ConnectionEventView::Waited(None)) => (
            come_to(connection, StageView::Ending),
            ConnectionActionView::End(code),
        ),
        (StageView::Telling(code), ConnectionEventView::Sent) => (
            come_to(connection, StageView::Ending),
            ConnectionActionView::End(code),
        ),
        (StageView::Joining, ConnectionEventView::Joined(answer)) => (
            come_to(connection, StageView::Closing),
            ConnectionActionView::Send(answer),
        ),
        _ => (come_to(connection, StageView::Closed), ConnectionActionView::Close),
    }
}

/// A connection to the signalling server.
pub struct Connection {
    role: Role,
    stage: Stage,
}

impl View for Connection {
    type V = ConnectionView;

    closed spec fn view(&self) -> ConnectionView {
        ConnectionView { role: self.role, stage: self.stage@ }
    }
}

impl Connection {
    /// A new connection, given the key that the server asks for, if it asks for one.
    pub fn new(role: Role, required: Option<String>) -> (connection: Connection)
        ensures
            connection@ == connection_start(role, optional_text(required)),
    {
        Connection { role, stage: Stage::Requesting(access(required)) }
    }

    /// Whether the connection waits for an event of this kind.
    pub fn expects(&self, event: &ConnectionEvent) -> (expected: bool)
        ensures
            expected == connection_expects(self@.stage, event@),
    {
        match &self.stage {
            Stage::Requesting(_) => matches!(event, ConnectionEvent::Incoming(_)),
            Stage::Opening => matches!(event, ConnectionEvent::Opened(_)),
            Stage::Announcing(_) => matches!(event, ConnectionEvent::Sent),
            Stage::Waiting(_) => matches!(event, ConnectionEvent::Waited(_)),
            Stage::Telling(_) => matches!(event, ConnectionEvent::Sent),
            Stage::Ending => matches!(event, ConnectionEvent::Ended),
            Stage::Joining => matches!(event, ConnectionEvent::Joined(_)),
            Stage::Closing => matches!(event, ConnectionEvent::Sent),
            Stage::Closed => false,
        }
    }

    /// Takes an event that the connection waits for, and says what to do next.
    pub fn step(&mut self, event: ConnectionEvent) -> (action: ConnectionAction)
        requires
            connection_expects(old(self)@.stage, event@),
        ensures
            (final(self)@, action@) == connection_next(old(self)@, event@),
    {
        let (stage, action) = self.following(event);
        self.stage = stage;
        action
    }

    fn following(&self, event: ConnectionEvent) -> (next: (Stage, ConnectionAction))
        requires
            connection_expects(self@.stage, event@),
        ensures
            (come_to(self@, next.0@), next.1@) == connection_next(self@, event@),
    {
        match &self.stage {
            Stage::Requesting(access) => match event {
                ConnectionEvent::Incoming(incoming) => {
                    let request = match self.role {
                        Role::Host => create_request(access, incoming),
                        Role::Viewer => join_request(access, incoming),
                    };
                    match request {
                        Request::Continue { key } => (
                            Stage::Requesting(Access::Granted(key)),
                            ConnectionAction::Receive,
                        ),
                        Request::Create { host_addr, cert_fingerprint } => (
                            Stage::Opening,
                            ConnectionAction::Open { host_addr, cert_fingerprint },
                        ),
                        Request::Join { viewer_addr } => (
                            Stage::Joining,
                            ConnectionAction::Join { viewer_addr },
                        ),
                        Request::Refuse(msg) => (Stage::Closing, ConnectionAction::Send(msg)),
                        Request::Ignore => (Stage::Closed, ConnectionAction::Close),
                    }
                },
                _ => (Stage::Closed, ConnectionAction::Close),
            },
            Stage::Opening => match event {
                ConnectionEvent::Opened(code) => {
                    let reply = created_reply(&code);
                    (Stage::Announcing(code), ConnectionAction::Send(reply))
                },
                _ => (Stage::Closed, ConnectionAction::Close),
            },
            Stage::Announcing(code) => (
                Stage::Waiting(code.clone()),
                ConnectionAction::Wait { code: code.clone(), limit: SESSION_LIFETIME },
            ),
            Stage::Waiting(code) => match event {
                ConnectionEvent::Waited(viewer) => match viewer_notice(viewer) {
                    Some(notice) => (
                        Stage::Telling(code.clone()),
                        ConnectionAction::Send(notice),
                    ),
                    None => (Stage::Ending, ConnectionAction::End(code.clone())),
                },
                _ => (Stage::Closed, ConnectionAction::Close),
            },
            Stage::Telling(code) => (Stage::Ending, ConnectionAction::End(code.clone())),
            Stage::Joining => match event {
                ConnectionEvent::Joined(answer) => (
                    Stage::Closing,
                    ConnectionAction::Send(answer),
                ),
                _ => (Stage::Closed, ConnectionAction::Close),
            },
            _ => (Stage::Closed, ConnectionAction::Close),
        }
    }
}

/// Where a connection stands after several events, and what was done about each.
pub open spec fn connection_run(connection: ConnectionView, events: Seq<ConnectionEventView>) -> (
    ConnectionView,
    Seq<ConnectionActionView>,
)
    decreases events.len(),
{
    if events.len() == 0 {
        (connection, Seq::empty())
    } else {
        let (next, action) = connection_next(connection, events[0]);
        let (last, actions) = connection_run(next, events.skip(1));
        (last, seq![action] + actions)
    }
}

/// Whether each of several events is one that the connection waits for in turn.
pub open spec fn connection_follows(
    connection: ConnectionView,
    events: Seq<ConnectionEventView>,
) -> bool
    decreases events.len(),
{
    events.len() == 0 || (connection_expects(connection.stage, events[0]) && connection_follows(
        connection_next(connection, events[0]).0,
        events.skip(1),
    ))
}

/// The messages that are sent to the peer, in order.
pub open spec fn messages_sent(actions: Seq<ConnectionActionView>) -> Seq<MsgView>
    decreases actions.len(),
{
    if actions.len() == 0 {
        Seq::empty()
    } else {
        let later = messages_sent(actions.skip(1));
        match actions[0] {
            ConnectionActionView::Send(msg) => seq![msg] + later,
            _ => later,
        }
    }
}

/// A host whose session is opened is sent its code, then told of the viewer if one
/// joins in time, and of nothing else; its session ends last, whatever happened.
/// There are no other courses that come to an end.
pub proof fn lemma_host_connection_course(
    connection: ConnectionView,
    events: Seq<ConnectionEventView>,
)
    requires
        connection.stage == StageView::Opening,
        connection_follows(connection, events),
        connection_run(connection, events).0.stage == StageView::Closed,
    ensures
        ({
            let actions = connection_run(connection, events).1;
            let code = events[0]->Opened_0;
            let announced = MsgView::Code { code };
            match events[2] {
                ConnectionEventView::Waited(Some(viewer_addr)) => {
                    let notice = MsgView::ViewerReady { viewer_addr };
                    &&& actions == seq![
                        ConnectionActionView::Send(announced),
                        ConnectionActionView::Wait { code, limit: SESSION_LIFETIME },
                        ConnectionActionView::Send(notice),
                        ConnectionActionView::End(code),
                        ConnectionActionView::Close,
                    ]
                    &&& messages_sent(actions) == seq![announced, notice]
                },
                _ => {
                    &&& actions == seq![
                        ConnectionActionView::Send(announced),
                        ConnectionActionView::Wait { code, limit: SESSION_LIFETIME },
                        ConnectionActionView::End(code),
                        ConnectionActionView::Close,
                    ]
                    &&& messages_sent(actions) == seq![announced]
                },
            }
        }),
{
    reveal_with_fuel(connection_run, 7);
    reveal_with_fuel(connection_follows, 7);
    reveal_with_fuel(messages_sent, 7);
    let actions = connection_run(connection, events).1;
    let code = events[0]->Opened_0;
    let announced = MsgView::Code { code };
    assert(events.len() >= 4);
    if let ConnectionEventView::Waited(Some(viewer_addr)) = events[2] {
        let notice = MsgView::ViewerReady { viewer_addr };
        assert(events.len() == 5);
        assert(actions =~= seq![
            ConnectionActionView::Send(announced),
            ConnectionActionView::Wait { code, limit: SESSION_LIFETIME },
            ConnectionActionView::Send(notice),
            ConnectionActionView::End(code),
            ConnectionActionView::Close,
        ]);
        assert(messages_sent(actions) =~= seq![announced, notice]);
    } else {
        assert(events.len() == 4);
        assert(actions =~= seq![
            ConnectionActionView::Send(announced),
            ConnectionActionView::Wait { code, limit: SESSION_LIFETIME },
            ConnectionActionView::End(code),
            ConnectionActionView::Close,
        ]);
        assert(messages_sent(actions) =~= seq![announced]);
    }
}

/// Whether these messages are a code, or a code and then the notice of a viewer.
pub open spec fn is_introduction(sent: Seq<MsgView>) -> bool {
    &&& 1 <= sent.len() <= 2
    &&& sent[0] is Code
    &&& sent.len() == 2 ==> sent[1] is ViewerReady
}

/// Whether these messages are one refusal.
pub open spec fn is_refusal(sent: Seq<MsgView>) -> bool {
    sent.len() == 1 && sent[0] is Error
}

/// What a host can have been sent when its connection has come to a stage.
pub open spec fn host_was_sent(stage: StageView, sent: Seq<MsgView>) -> bool {
    match stage {
        StageView::Requesting(_) => sent.len() == 0,
        StageView::Opening => sent.len() == 0,
        StageView::Announcing(code) => sent == seq![MsgView::Code { code }],
        StageView::Waiting(code) => sent == seq![MsgView::Code { code }],
        StageView::Telling(code) => {
            &&& sent.len() == 2
            &&& sent[0] == (MsgView::Code { code })
            &&& sent[1] is ViewerReady
        },
        StageView::Ending => is_introduction(sent),
        StageView::Joining => false,
        StageView::Closing => is_refusal(sent),
        StageView::Closed => sent.len() == 0 || is_refusal(sent) || is_introduction(sent),
    }
}

proof fn lemma_host_was_sent(
    connection: ConnectionView,
    sent: Seq<MsgView>,
    events: Seq<ConnectionEventView>,
)
    requires
        connection.role == Role::Host,
        connection_follows(connection, events),
        host_was_sent(connection.stage, sent),
    ensures
        ({
            let (last, actions) = connection_run(connection, events);
            host_was_sent(last.stage, sent + messages_sent(actions))
        }),
    decreases events.len(),
{
    if events.len() == 0 {
        assert(sent + messages_sent(Seq::empty()) =~= sent);
    } else {
        let (next, action) = connection_next(connection, events[0]);
        let (last, actions) = connection_run(next, events.skip(1));
        let all = seq![action] + actions;
        assert(all.skip(1) =~= actions);
        let sent_now = match action {
            ConnectionActionView::Send(msg) => sent.push(msg),
            _ => sent,
        };
        if let StageView::Announcing(code) = next.stage {
            assert(sent_now =~= seq![MsgView::Code { code }]);
        }
        assert(host_was_sent(next.stage, sent_now));
        lemma_host_was_sent(next, sent_now, events.skip(1));
        assert(sent + messages_sent(all) =~= sent_now + messages_sent(actions));
    }
}

/// Whatever a host does, it is sent nothing, one refusal, its code, or its code and
/// then the notice of a viewer.
pub proof fn lemma_host_is_sent(required: Option<Seq<char>>, events: Seq<ConnectionEventView>)
    requires
        connection_follows(connection_start(Role::Host, required), events),
    ensures
        ({
            let (last, actions) = connection_run(connection_start(Role::Host, required), events);
            let sent = messages_sent(actions);
            &&& host_was_sent(last.stage, sent)
            &&& sent.len() == 0 || is_refusal(sent) || is_introduction(sent)
        }),
{
    let start = connection_start(Role::Host, required);
    let sent = messages_sent(connection_run(start, events).1);
    lemma_host_was_sent(start, Seq::empty(), events);
    assert(Seq::<MsgView>::empty() + sent =~= sent);
}

/// Whether an action has to do with the sessions.
pub open spec fn touches_sessions(action: ConnectionActionView) -> bool {
    action is Open || action is Join || action is Wait || action is End
}

/// A request that is refused opens, joins and changes no session: the refusal is
/// sent, and the connection closed.
pub proof fn lemma_refusal_changes_nothing(
    role: Role,
    access: AccessView,
    incoming: IncomingView,
    msg: MsgView,
)
    requires
        decision(role, access, incoming) == RequestView::Refuse(msg),
    ensures
        ({
            let connection = ConnectionView { role, stage: StageView::Requesting(access) };
            let (last, actions) = connection_run(
                connection,
                seq![ConnectionEventView::Incoming(incoming), ConnectionEventView::Sent],
            );
            &&& last.stage == StageView::Closed
            &&& actions == seq![ConnectionActionView::Send(msg), ConnectionActionView::Close]
            &&& !touches_sessions(actions[0])
            &&& !touches_sessions(actions[1])
        }),
{
    reveal_with_fuel(connection_run, 3);
    let connection = ConnectionView { role, stage: StageView::Requesting(access) };
    let events = seq![ConnectionEventView::Incoming(incoming), ConnectionEventView::Sent];
    assert(connection_run(connection, events).1 =~= seq![
        ConnectionActionView::Send(msg),
        ConnectionActionView::Close,
    ]);
}

/// What a message comes to is carried out as it is: a key grants access, a host's
/// request opens a session with its address and fingerprint, a viewer's request joins
/// with its address, and what is no message ends the connection.
pub proof fn lemma_decision_carried_out(role: Role, access: AccessView, incoming: IncomingView)
    ensures
        ({
            let connection = ConnectionView { role, stage: StageView::Requesting(access) };
            let (next, action) = connection_next(
                connection,
                ConnectionEventView::Incoming(incoming),
            );
            &&& next.role == role
            &&& decision(role, access, incoming) matches RequestView::Continue { key } ==> action
                is Receive && next.stage == StageView::Requesting(AccessView::Granted(key))
            &&& decision(role, access, incoming) matches RequestView::Create {
                host_addr,
                cert_fingerprint,
            } ==> action == (ConnectionActionView::Open { host_addr, cert_fingerprint })
                && next.stage == StageView::Opening
            &&& decision(role, access, incoming) matches RequestView::Join { viewer_addr }
                ==> action == (ConnectionActionView::Join { viewer_addr }) && next.stage
                == StageView::Joining
            &&& decision(role, access, incoming) is Ignore ==> action is Close && next.stage
                == StageView::Closed
        }),
{
}

/// A host can only open a session, and a viewer can only join one.
pub proof fn lemma_role_kept(access: AccessView, incoming: IncomingView)
    ensures
        decision(Role::Host, access, incoming) == create_decision(access, incoming),
        decision(Role::Viewer, access, incoming) == join_decision(access, incoming),
        !(decision(Role::Host, access, incoming) is Join),
        !(decision(Role::Viewer, access, incoming) is Create),
{
}

/// A viewer that joins is sent exactly the answer to its join, whatever it is, and the
/// connection is closed.
pub proof fn lemma_viewer_connection_course(
    connection: ConnectionView,
    events: Seq<ConnectionEventView>,
)
    requires
        connection.stage == StageView::Joining,
        connection_follows(connection, events),
        connection_run(connection, events).0.stage == StageView::Closed,
    ensures
        events[0] matches ConnectionEventView::Joined(answer) && connection_run(
            connection,
            events,
        ).1 == seq![ConnectionActionView::Send(answer), ConnectionActionView::Close],
{
    reveal_with_fuel(connection_run, 4);
    reveal_with_fuel(connection_follows, 4);
    let answer = events[0]->Joined_0;
    assert(events.len() == 2);
    assert(connection_run(connection, events).1 =~= seq![
        ConnectionActionView::Send(answer),
        ConnectionActionView::Close,
    ]);
}

} // verus!
