//! The messages between hosts, viewers and the signalling server.  Both sides speak
//! the same ones.

use vstd::prelude::*;

use crate::entry::optional_text;

verus! {

/// A message between a host or viewer and the signalling server.
#[derive(Debug)]
pub enum Msg {
    /// To the server: the key that gives access to it.
    Auth { key: String },
    /// From a host: open a session for a host at this address, with a certificate
    /// of this fingerprint.  A tag shows that the message was not altered.
    Create { host_addr: String, cert_fingerprint: String, tag: Option<String> },
    /// To a host: the session's code.
    Code { code: String },
    /// To a host: a viewer at this address joined.
    ViewerReady { viewer_addr: String },
    /// From a viewer at this address: join the session with this code.  A tag shows
    /// that the message was not altered.
    Join { code: String, viewer_addr: String, tag: Option<String> },
    /// To a viewer: the host is at this address, with a certificate of this
    /// fingerprint.
    HostReady { host_addr: String, cert_fingerprint: String },
    /// To either: the request was refused.
    Error { reason: String },
}

/// A message, with its texts as sequences of characters.
pub enum MsgView {
    Auth { key: Seq<char> },
    Create { host_addr: Seq<char>, cert_fingerprint: Seq<char>, tag: Option<Seq<char>> },
    Code { code: Seq<char> },
    ViewerReady { viewer_addr: Seq<char> },
    Join { code: Seq<char>, viewer_addr: Seq<char>, tag: Option<Seq<char>> },
    HostReady { host_addr: Seq<char>, cert_fingerprint: Seq<char> },
    Error { reason: Seq<char> },
}

impl View for Msg {
    type V = MsgView;

    open spec fn view(&self) -> MsgView {
        match *self {
            Msg::Auth { key } => MsgView::Auth { key: key@ },
            Msg::Create { host_addr, cert_fingerprint, tag } => MsgView::Create {
                host_addr: host_addr@,
                cert_fingerprint: cert_fingerprint@,
                tag: optional_text(tag),
            },
            Msg::Code { code } => MsgView::Code { code: code@ },
            Msg::ViewerReady { viewer_addr } => MsgView::ViewerReady { viewer_addr: viewer_addr@ },
            Msg::Join { code, viewer_addr, tag } => MsgView::Join {
                code: code@,
                viewer_addr: viewer_addr@,
                tag: optional_text(tag),
            },
            Msg::HostReady { host_addr, cert_fingerprint } => MsgView::HostReady {
                host_addr: host_addr@,
                cert_fingerprint: cert_fingerprint@,
            },
            Msg::Error { reason } => MsgView::Error { reason: reason@ },
        }
    }
}

/// What a message is taken to say is what it holds: every text of it, unchanged.
pub proof fn lemma_message_texts(msg: Msg)
    ensures
        match msg {
            Msg::Auth { key } => msg@ is Auth && msg@->key == key@,
            Msg::Create { host_addr, cert_fingerprint, tag } => {
                &&& msg@ is Create
                &&& msg@->Create_host_addr == host_addr@
                &&& msg@->Create_cert_fingerprint == cert_fingerprint@
                &&& tag matches Some(t) ==> msg@->Create_tag == Some(t@)
                &&& tag is None ==> msg@->Create_tag is None
            },
            Msg::Code { code } => msg@ is Code && msg@->Code_code == code@,
            Msg::ViewerReady { viewer_addr } => msg@ is ViewerReady
                && msg@->ViewerReady_viewer_addr == viewer_addr@,
            Msg::Join { code, viewer_addr, tag } => {
                &&& msg@ is Join
                &&& msg@->Join_code == code@
                &&& msg@->Join_viewer_addr == viewer_addr@
                &&& tag matches Some(t) ==> msg@->Join_tag == Some(t@)
                &&& tag is None ==> msg@->Join_tag is None
            },
            Msg::HostReady { host_addr, cert_fingerprint } => {
                &&& msg@ is HostReady
                &&& msg@->HostReady_host_addr == host_addr@
                &&& msg@->HostReady_cert_fingerprint == cert_fingerprint@
            },
            Msg::Error { reason } => msg@ is Error && msg@->reason == reason@,
        },
{
}

} // verus!
