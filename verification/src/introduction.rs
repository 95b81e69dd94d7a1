//! What signalling is for: a host and a viewer that follow their courses are
//! introduced to each other.

use vstd::prelude::*;

use crate::client::{ClientErrorView, ReplyView};
use crate::code::is_code;
use crate::connection::{
    connection_next, connection_run, connection_start, ConnectionActionView, ConnectionEventView,
    Role,
};
use crate::entry::{
    all_whitespace, code_in, lemma_typed_code_found, signaling_base, spells,
};
use crate::host::{host_run, host_start, HostActionView, HostEventView, HostOutcome};
use crate::message::MsgView;
use crate::signaling::{
    join_answer, joinable, new_session, not_found, IncomingView, SessionTable, SESSION_LIFETIME,
};
use crate::viewer::{
    viewer_next, viewer_run, viewer_start, ViewerActionView, ViewerEventView, ViewerOutcome,
    ViewerStage, ViewerView,
};

verus! {

/// What the server gets of a host's step.
pub open spec fn from_host(outcome: HostOutcome) -> ConnectionEventView {
    match outcome {
        Ok(HostActionView::Send(msg)) => ConnectionEventView::Incoming(
            IncomingView::Text(Some(msg)),
        ),
        _ => ConnectionEventView::Incoming(IncomingView::Other),
    }
}

/// What the server gets of a viewer's step.
pub open spec fn from_viewer(outcome: ViewerOutcome) -> ConnectionEventView {
    match outcome {
        Ok(ViewerActionView::Send(msg)) => ConnectionEventView::Incoming(
            IncomingView::Text(Some(msg)),
        ),
        _ => ConnectionEventView::Incoming(IncomingView::Other),
    }
}

/// What comes to a host of the server's step.
pub open spec fn to_host(action: ConnectionActionView) -> HostEventView {
    match action {
        ConnectionActionView::Send(msg) => HostEventView::Received(ReplyView::Message(msg)),
        _ => HostEventView::Received(ReplyView::Closed),
    }
}

/// What comes to a viewer of the server's step.
pub open spec fn to_viewer(action: ConnectionActionView) -> ViewerEventView {
    match action {
        ConnectionActionView::Send(msg) => ViewerEventView::Received(ReplyView::Message(msg)),
        _ => ViewerEventView::Received(ReplyView::Closed),
    }
}

/// What happens to a host until it has asked for a session.
pub open spec fn host_asks(
    key: Seq<char>,
    ip: Seq<char>,
    fingerprint: Seq<char>,
) -> Seq<HostEventView> {
    seq![
        HostEventView::AuthKey(Some(key)),
        HostEventView::LocalIp(ip),
        HostEventView::Bound(fingerprint),
        HostEventView::Connected,
        HostEventView::Sent,
        HostEventView::Sent,
    ]
}

/// What happens to a viewer until it has asked to join.
pub open spec fn viewer_asks(
    key: Seq<char>,
    line: Seq<char>,
    ip: Seq<char>,
) -> Seq<ViewerEventView> {
    seq![
        ViewerEventView::AuthKey(Some(key)),
        ViewerEventView::Line(line),
        ViewerEventView::LocalIp(ip),
        ViewerEventView::Connected,
        ViewerEventView::Sent,
        ViewerEventView::Sent,
    ]
}

/// What a host sends opens a session: the server takes its key, and then its request
/// with the address it listens at and the fingerprint of its certificate, under a tag
/// that holds.
pub proof fn lemma_host_opens_session(
    required: Option<Seq<char>>,
    signaling: Option<Seq<char>>,
    key: Seq<char>,
    ip: Seq<char>,
    fingerprint: Seq<char>,
)
    requires
        required matches Some(k) ==> k == key,
    ensures
        ({
            let steps = host_run(host_start(signaling), host_asks(key, ip, fingerprint)).1;
            &&& steps.len() == 6
            &&& connection_run(
                connection_start(Role::Host, required),
                seq![from_host(steps[3]), from_host(steps[4])],
            ).1 == seq![
                ConnectionActionView::Receive,
                ConnectionActionView::Open {
                    host_addr: ip + ":5000"@,
                    cert_fingerprint: fingerprint,
                },
            ]
        }),
{
    reveal_with_fuel(host_run, 7);
    reveal_with_fuel(connection_run, 3);
    let steps = host_run(host_start(signaling), host_asks(key, ip, fingerprint)).1;
    assert(connection_run(
        connection_start(Role::Host, required),
        seq![from_host(steps[3]), from_host(steps[4])],
    ).1 =~= seq![
        ConnectionActionView::Receive,
        ConnectionActionView::Open { host_addr: ip + ":5000"@, cert_fingerprint: fingerprint },
    ]);
}

/// What a viewer sends joins the session whose code the user typed: the server takes
/// its key, and then its request with its address, under a tag that holds.
pub proof fn lemma_viewer_asks_to_join(
    required: Option<Seq<char>>,
    signaling: Option<Seq<char>>,
    key: Seq<char>,
    line: Seq<char>,
    ip: Seq<char>,
)
    requires
        required matches Some(k) ==> k == key,
    ensures
        ({
            let (viewer, steps) = viewer_run(viewer_start(signaling), viewer_asks(key, line, ip));
            &&& steps.len() == 6
            &&& viewer.stage == ViewerStage::AwaitingHost
            &&& steps[2] == Ok::<ViewerActionView, ClientErrorView>(
                ViewerActionView::Connect(
                    signaling_base(signaling) + "/session/join/"@ + code_in(line),
                ),
            )
            &&& connection_run(
                connection_start(Role::Viewer, required),
                seq![from_viewer(steps[3]), from_viewer(steps[4])],
            ).1 == seq![
                ConnectionActionView::Receive,
                ConnectionActionView::Join { viewer_addr: ip + ":5001"@ },
            ]
        }),
{
    reveal_with_fuel(viewer_run, 7);
    reveal_with_fuel(connection_run, 3);
    let steps = viewer_run(viewer_start(signaling), viewer_asks(key, line, ip)).1;
    assert(connection_run(
        connection_start(Role::Viewer, required),
        seq![from_viewer(steps[3]), from_viewer(steps[4])],
    ).1 =~= seq![
        ConnectionActionView::Receive,
        ConnectionActionView::Join { viewer_addr: ip + ":5001"@ },
    ]);
}

/// A host and a viewer that follow their courses are introduced.
///
/// What the host sends has the server open a session under the host's address and
/// fingerprint, and what the server sends back has the host show the session's code.
/// What a viewer sends, whose user types that code in time, as the first one, has the
/// server let it join, and what the server sends back has it connect to the host at
/// that very address, under that very fingerprint.  The host, told of the viewer's
/// address, goes on to serve it.
pub proof fn lemma_introduction(
    required: Option<Seq<char>>,
    table: SessionTable,
    code: Seq<char>,
    host_signaling: Option<Seq<char>>,
    host_key: Seq<char>,
    host_ip: Seq<char>,
    fingerprint: Seq<char>,
    opened_at: u64,
    viewer_signaling: Option<Seq<char>>,
    viewer_key: Seq<char>,
    viewer_ip: Seq<char>,
    before: Seq<char>,
    typed: Seq<char>,
    after: Seq<char>,
    joined_at: u64,
)
    requires
        required matches Some(key) ==> host_key == key && viewer_key == key,
        is_code(code),
        spells(typed, code),
        all_whitespace(before),
        all_whitespace(after),
        joined_at - opened_at < SESSION_LIFETIME,
    ensures
        ({
            let (host, host_steps) = host_run(
                host_start(host_signaling),
                host_asks(host_key, host_ip, fingerprint),
            );
            let (host_line, host_actions) = connection_run(
                connection_start(Role::Host, required),
                seq![from_host(host_steps[3]), from_host(host_steps[4])],
            );
            let opened = table.insert(
                code,
                new_session(
                    host_actions[1]->host_addr,
                    host_actions[1]->cert_fingerprint,
                    opened_at,
                ),
            );
            let (announcing, announcement) = connection_next(
                host_line,
                ConnectionEventView::Opened(code),
            );
            let waiting = connection_next(announcing, ConnectionEventView::Sent).0;
            let (viewer, viewer_steps) = viewer_run(
                viewer_start(viewer_signaling),
                viewer_asks(viewer_key, before + typed + after, viewer_ip),
            );
            let (viewer_line, viewer_actions) = connection_run(
                connection_start(Role::Viewer, required),
                seq![from_viewer(viewer_steps[3]), from_viewer(viewer_steps[4])],
            );
            let answer = connection_next(
                viewer_line,
                ConnectionEventView::Joined(join_answer(opened, code, joined_at)),
            ).1;
            let notice = connection_next(
                waiting,
                ConnectionEventView::Waited(Some(viewer_actions[1]->viewer_addr)),
            ).1;
            &&& host_actions == seq![
                ConnectionActionView::Receive,
                ConnectionActionView::Open {
                    host_addr: host_ip + ":5000"@,
                    cert_fingerprint: fingerprint,
                },
            ]
            &&& viewer_steps[2] == Ok::<ViewerActionView, ClientErrorView>(
                ViewerActionView::Connect(
                    signaling_base(viewer_signaling) + "/session/join/"@ + code,
                ),
            )
            &&& viewer_actions == seq![
                ConnectionActionView::Receive,
                ConnectionActionView::Join { viewer_addr: viewer_ip + ":5001"@ },
            ]
            &&& joinable(opened, code, joined_at)
            &&& viewer_next(viewer, to_viewer(answer)).1 == Ok::<ViewerActionView, ClientErrorView>(
                ViewerActionView::Join {
                    host_addr: host_ip + ":5000"@,
                    cert_fingerprint: fingerprint,
                },
            )
            &&& host_run(
                host,
                seq![to_host(announcement), HostEventView::Listening, to_host(notice)],
            ).1 == seq![
                Ok::<HostActionView, ClientErrorView>(HostActionView::Listen(code)),
                Ok(HostActionView::Receive),
                Ok(HostActionView::Prepare),
            ]
        }),
{
    lemma_typed_code_found(code, typed, before, after);
    lemma_host_opens_session(required, host_signaling, host_key, host_ip, fingerprint);
    lemma_viewer_asks_to_join(
        required,
        viewer_signaling,
        viewer_key,
        before + typed + after,
        viewer_ip,
    );
    reveal_with_fuel(host_run, 7);
    reveal_with_fuel(viewer_run, 7);
    reveal_with_fuel(connection_run, 3);
    let host = host_run(
        host_start(host_signaling),
        host_asks(host_key, host_ip, fingerprint),
    ).0;
    let announced = HostEventView::Received(ReplyView::Message(MsgView::Code { code }));
    let noticed = HostEventView::Received(
        ReplyView::Message(MsgView::ViewerReady { viewer_addr: viewer_ip + ":5001"@ }),
    );
    assert(host_run(host, seq![announced, HostEventView::Listening, noticed]).1 =~= seq![
        Ok::<HostActionView, ClientErrorView>(HostActionView::Listen(code)),
        Ok(HostActionView::Receive),
        Ok(HostActionView::Prepare),
    ]);
}

/// A viewer whose code finds no session that it can join gives up with the server's
/// reason, and connects to no host.
pub proof fn lemma_refused_viewer_gives_up(
    table: SessionTable,
    code: Seq<char>,
    now: u64,
    viewer: ViewerView,
)
    requires
        !joinable(table, code, now),
        viewer.stage == ViewerStage::AwaitingHost,
    ensures
        join_answer(table, code, now) == not_found(code),
        viewer_next(
            viewer,
            ViewerEventView::Received(ReplyView::Message(join_answer(table, code, now))),
        ) == (
            viewer,
            Err::<ViewerActionView, ClientErrorView>(
                ClientErrorView::Signaling("sessao "@ + code + " nao encontrada"@),
            ),
        ),
{
}

} // verus!
