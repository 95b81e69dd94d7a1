//! Video packets and their conversion to and from bytes.

use vstd::prelude::*;

use crate::wire::{body, fields, read_body, Fields};

verus! {

/// One encoded piece of video on its way from the host to the viewer.
pub struct VideoPacket {
    /// Position in the stream, counted from zero.
    pub seq: u64,
    /// When the frame is due, in microseconds from the start of the stream.
    pub timestamp: u64,
    /// Whether a decoder can start here.
    pub keyframe: bool,
    /// H.264 NAL units.
    pub payload: Vec<u8>,
}

impl View for VideoPacket {
    type V = Fields;

    open spec fn view(&self) -> Fields {
        Fields {
            seq: self.seq,
            timestamp: self.timestamp,
            keyframe: self.keyframe,
            payload: self.payload@,
        }
    }
}

/// Why a packet could not be turned into bytes or back.
#[derive(Clone, Copy, Debug, PartialEq, Eq, Structural)]
pub enum PacketError {
    /// The packet was not turned into bytes.
    Encode,
    /// The bytes are not the body of a packet.
    Decode,
}

impl PacketError {
    /// The text shown to the user.
    pub fn message(&self) -> (text: String)
        ensures
            text@ == (match *self {
                PacketError::Encode => "bincode::encode"@,
                PacketError::Decode => "bincode::decode"@,
            }),
    {
        match *self {
            PacketError::Encode => "bincode::encode".to_owned(),
            PacketError::Decode => "bincode::decode".to_owned(),
        }
    }
}

/// The error type of `bincode`'s encoder.
#[verifier::external_type_specification]
#[verifier::external_body]
pub struct ExEncodeError(bincode::error::EncodeError);

/// The error type of `bincode`'s decoder.
#[verifier::external_type_specification]
#[verifier::external_body]
pub struct ExDecodeError(bincode::error::DecodeError);

/// `bincode::serde::encode_to_vec` on the four fields with the standard
/// configuration.
///
/// Claimed of it: into a growing buffer it always succeeds, and it writes the
/// fields in order with no separators, integers and the payload's length in
/// variable length and little-endian, the flag as one byte, the payload's bytes
/// as they are.  The precondition keeps the buffer within what a `Vec` can hold.
#[verifier::external_body]
fn bincode_encode(seq: u64, timestamp: u64, keyframe: bool, payload: &Vec<u8>) -> (encoded: Result<
    Vec<u8>,
    bincode::error::EncodeError,
>)
    requires
        payload@.len() + 28 <= isize::MAX,
    ensures
        encoded is Ok,
        encoded->Ok_0@ == body(fields(seq, timestamp, keyframe, payload@)),
{
    bincode::serde::encode_to_vec((seq, timestamp, keyframe, payload), bincode::config::standard())
}

/// `bincode::serde::decode_from_slice` to the four fields with the standard
/// configuration.
///
/// Claimed of it: it succeeds exactly when the bytes start with two integers in
/// variable length, a flag byte of zero or one, and a length followed by at least
/// that many bytes; it then gives those fields and ignores what follows them.
#[verifier::external_body]
fn bincode_decode(bytes: &[u8]) -> (decoded: Result<
    (u64, u64, bool, Vec<u8>),
    bincode::error::DecodeError,
>)
    ensures
        match decoded {
            Ok(f) => read_body(bytes@) == Some(fields(f.0, f.1, f.2, f.3@)),
            Err(_) => read_body(bytes@) is None,
        },
{
    let (fields, _) = bincode::serde::decode_from_slice(bytes, bincode::config::standard())?;
    Ok(fields)
}

impl VideoPacket {
    /// The body of the packet, without the length that precedes it on a stream.
    pub fn encode(&self) -> (encoded: Result<Vec<u8>, PacketError>)
        requires
            self.payload@.len() + 28 <= isize::MAX,
        ensures
            encoded matches Ok(bytes) && bytes@ == body(self@),
            encoded->Ok_0@ == body(
                fields(self.seq, self.timestamp, self.keyframe, self.payload@),
            ),
    {
        match bincode_encode(self.seq, self.timestamp, self.keyframe, &self.payload) {
            Ok(bytes) => Ok(bytes),
            Err(_) => Err(PacketError::Encode),
        }
    }

    /// Reads a packet from its body; bytes after the payload are ignored.
    pub fn decode(bytes: &[u8]) -> (decoded: Result<VideoPacket, PacketError>)
        ensures
            match read_body(bytes@) {
                Some(fields) => {
                    &&& decoded matches Ok(packet)
                    &&& packet@ == fields
                    &&& packet.seq == fields.seq
                    &&& packet.timestamp == fields.timestamp
                    &&& packet.keyframe == fields.keyframe
                    &&& packet.payload@ == fields.payload
                },
                None => decoded == Err::<VideoPacket, PacketError>(PacketError::Decode),
            },
    {
        match bincode_decode(bytes) {
            Ok((seq, timestamp, keyframe, payload)) => Ok(
                VideoPacket { seq, timestamp, keyframe, payload },
            ),
            Err(_) => Err(PacketError::Decode),
        }
    }
}

} // verus!
