//! What a host and a viewer say to the signalling server, and what they make of
//! its answers.

use vstd::prelude::*;

use crate::message::{Msg, MsgView};
use crate::text::join2;

verus! {

/// What came from the server.
pub enum Reply {
    /// A message.
    Message(Msg),
    /// Anything but a text: the connection is of no more use.
    Closed,
}

/// What came from the server, with texts as sequences of characters.
pub enum ReplyView {
    Message(MsgView),
    Closed,
}

impl View for Reply {
    type V = ReplyView;

    open spec fn view(&self) -> ReplyView {
        match *self {
            Reply::Message(msg) => ReplyView::Message(msg@),
            Reply::Closed => ReplyView::Closed,
        }
    }
}

/// Why a host or viewer gives up.
#[derive(Debug)]
pub enum ClientError {
    /// The environment holds no key for the server.
    MissingAuthKey,
    /// The server refused, for this reason.
    Signaling(String),
    /// The server answered with another message than was due.
    Unexpected(Msg),
    /// The server answered nothing.
    Closed,
}

/// Why a host or viewer gives up, with texts as sequences of characters.
pub enum ClientErrorView {
    MissingAuthKey,
    Signaling(Seq<char>),
    Unexpected(MsgView),
    Closed,
}

impl View for ClientError {
    type V = ClientErrorView;

    open spec fn view(&self) -> ClientErrorView {
        match *self {
            ClientError::MissingAuthKey => ClientErrorView::MissingAuthKey,
            ClientError::Signaling(reason) => ClientErrorView::Signaling(reason@),
            ClientError::Unexpected(msg) => ClientErrorView::Unexpected(msg@),
            ClientError::Closed => ClientErrorView::Closed,
        }
    }
}

impl ClientError {
    /// The text shown to the user, where `unexpected` describes the message of an
    /// unexpected answer.
    pub fn message(&self, unexpected: &str) -> (text: String)
        ensures
            text@ == (match self@ {
                ClientErrorView::MissingAuthKey =>
                    "AUTH_KEY nao definida — defina a variavel de ambiente"@,
                ClientErrorView::Signaling(reason) => "signaling erro: "@ + reason,
                ClientErrorView::Unexpected(_) => "resposta inesperada: "@ + unexpected@,
                ClientErrorView::Closed => "conexao com signaling fechou inesperadamente"@,
            }),
    {
        match self {
            ClientError::MissingAuthKey =>
                "AUTH_KEY nao definida — defina a variavel de ambiente".to_owned(),
            ClientError::Signaling(reason) => join2("signaling erro: ", reason.as_str()),
            ClientError::Unexpected(_) => join2("resposta inesperada: ", unexpected),
            ClientError::Closed => "conexao com signaling fechou inesperadamente".to_owned(),
        }
    }
}

/// The key for the server, given the setting in the environment.
pub fn auth_key(setting: Option<String>) -> (key: Result<String, ClientError>)
    ensures
        match setting {
            Some(k) => key == Ok::<String, ClientError>(k),
            None => key matches Err(e) && e@ is MissingAuthKey,
        },
{
    match setting {
        Some(key) => Ok(key),
        None => Err(ClientError::MissingAuthKey),
    }
}

/// What is made of an answer that is not the one that is due: a refusal carries
/// its reason, any other message itself.
pub open spec fn refusal(reply: ReplyView) -> ClientErrorView {
    match reply {
        ReplyView::Message(MsgView::Error { reason }) => ClientErrorView::Signaling(reason),
        ReplyView::Message(other) => ClientErrorView::Unexpected(other),
        ReplyView::Closed => ClientErrorView::Closed,
    }
}

fn refuse(reply: Reply) -> (error: ClientError)
    ensures
        error@ == refusal(reply@),
{
    match reply {
        Reply::Message(Msg::Error { reason }) => ClientError::Signaling(reason),
        Reply::Message(other) => ClientError::Unexpected(other),
        Reply::Closed => ClientError::Closed,
    }
}

/// A host asks for a session: the answer must be its code.
pub fn expect_code(reply: Reply) -> (answer: Result<String, ClientError>)
    ensures
        match reply@ {
            ReplyView::Message(MsgView::Code { code }) => answer matches Ok(c) && c@ == code,
            _ => answer matches Err(e) && e@ == refusal(reply@),
        },
{
    match reply {
        Reply::Message(Msg::Code { code }) => Ok(code),
        other => Err(refuse(other)),
    }
}

/// A host waits for a viewer: the next message must announce one.
pub fn expect_viewer(reply: Reply) -> (answer: Result<String, ClientError>)
    ensures
        match reply@ {
            ReplyView::Message(MsgView::ViewerReady { viewer_addr }) => answer matches Ok(a)
                && a@ == viewer_addr,
            _ => answer matches Err(e) && e@ == refusal(reply@),
        },
{
    match reply {
        Reply::Message(Msg::ViewerReady { viewer_addr }) => Ok(viewer_addr),
        other => Err(refuse(other)),
    }
}

/// A viewer joins a session: the answer must be the host's address and
/// fingerprint.
pub fn expect_host(reply: Reply) -> (answer: Result<(String, String), ClientError>)
    ensures
        match reply@ {
            ReplyView::Message(MsgView::HostReady { host_addr, cert_fingerprint }) =>
                answer matches Ok(host) && host.0@ == host_addr && host.1@ == cert_fingerprint,
            _ => answer matches Err(e) && e@ == refusal(reply@),
        },
{
    match reply {
        Reply::Message(Msg::HostReady { host_addr, cert_fingerprint }) => Ok(
            (host_addr, cert_fingerprint),
        ),
        other => Err(refuse(other)),
    }
}

/// An answer that is not the one that is due is not lost: a refusal keeps its reason,
/// any other message is kept whole, and a closed connection is told from both.
pub proof fn lemma_refusal_kept(reason: Seq<char>, other: MsgView)
    ensures
        refusal(ReplyView::Message(MsgView::Error { reason })) == ClientErrorView::Signaling(
            reason,
        ),
        !(other is Error) ==> refusal(ReplyView::Message(other)) == ClientErrorView::Unexpected(
            other,
        ),
        refusal(ReplyView::Closed) == ClientErrorView::Closed,
{
}

} // verus!
