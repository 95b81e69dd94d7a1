//! Peer-to-peer screen sharing: capture, packet framing, host identity, session
//! signalling and display, with every rule stated as a contract and proved.

pub mod capture;
pub mod client;
pub mod code;
pub mod codec;
pub mod connection;
pub mod entry;
pub mod host;
pub mod identity;
pub mod integrity;
pub mod introduction;
pub mod message;
pub mod packet;
pub mod renderer;
pub mod signaling;
pub mod text;
pub mod transport;
pub mod viewer;
pub mod wire;
