//! Sending and receiving video packets over a stream of bytes.
//!
//! On the stream each packet body is preceded by its length, four bytes in
//! little-endian order.

use vstd::prelude::*;

use crate::host::FRAME_PAUSE_MS;
use crate::identity::{
    fingerprint, key_belongs, made_for, server_config, speaks_screenshare, FingerprintVerifier, IdentityError,
    ServerConfig,
};
use crate::packet::{PacketError, VideoPacket};
use crate::text::{decimal, decimal_digits, join3};
use crate::wire::{
    body, fields, le_bytes, le_value, lemma_body_len, lemma_body_round_trip, lemma_le_bytes_len,
    lemma_le_round_trip, read_body, Fields,
};

verus! {

/// The largest packet body that a receiver takes: 4 MiB.
pub const MAX_PACKET_SIZE: usize = 4 * 1024 * 1024;

/// How much the timestamp grows from one packet to the next, in microseconds: as
/// long as a host pauses between two frames.
pub const TIMESTAMP_STEP: u64 = 16_000;

/// A packet body as it stands on the stream: its length, then itself.
///
/// The length field has four bytes and holds the low part of a longer length.
pub open spec fn framed(bytes: Seq<u8>) -> Seq<u8> {
    le_bytes(bytes.len(), 4) + bytes
}

/// The four low bytes of `n`, least significant first.
fn length_field(n: u64) -> (field: Vec<u8>)
    ensures
        field@ == le_bytes(n as nat, 4),
{
    let a: u8 = (n % 256) as u8;
    let b: u8 = (n / 256 % 256) as u8;
    let c: u8 = (n / 256 / 256 % 256) as u8;
    let d: u8 = (n / 256 / 256 / 256 % 256) as u8;
    proof {
        reveal_with_fuel(le_bytes, 5);
    }
    let field = vec![a, b, c, d];
    assert(field@ =~= le_bytes(n as nat, 4));
    field
}

/// The number in a length field.
fn length_of(field: &Vec<u8>) -> (n: u64)
    requires
        field@.len() == 4,
    ensures
        n == le_value(field@),
{
    proof {
        reveal_with_fuel(le_value, 5);
    }
    let n: u64 = field[0] as u64 + 256 * (field[1] as u64 + 256 * (field[2] as u64 + 256 * (
    field[3] as u64)));
    n
}

/// Why a connection between host and viewer did not come about.
#[derive(Clone, Copy, Debug, PartialEq, Eq, Structural)]
pub enum TransportError {
    /// The host's endpoint closed before a viewer came.
    NoConnection,
    /// The handshake with the viewer failed.
    HostHandshake,
    /// The host could not open the video stream.
    OpenStream,
    /// The viewer's endpoint could not be opened.
    ClientEndpoint,
    /// The viewer could not start the connection.
    Connect,
    /// The handshake with the host failed.
    ViewerHandshake,
    /// The viewer got no video stream.
    AcceptStream,
}

impl TransportError {
    /// The text shown to the user.
    pub open spec fn text(self) -> Seq<char> {
        match self {
            TransportError::NoConnection => "nenhuma conexao recebida"@,
            TransportError::HostHandshake => "handshake QUIC"@,
            TransportError::OpenStream => "open_uni stream de video"@,
            TransportError::ClientEndpoint => "Endpoint::client"@,
            TransportError::Connect => "connect"@,
            TransportError::ViewerHandshake =>
                "handshake QUIC — certificado invalido ou host errado"@,
            TransportError::AcceptStream => "accept_uni stream de video"@,
        }
    }

    /// The text shown to the user.
    pub fn message(&self) -> (text: String)
        ensures
            text@ == self.text(),
    {
        match *self {
            TransportError::NoConnection => "nenhuma conexao recebida".to_owned(),
            TransportError::HostHandshake => "handshake QUIC".to_owned(),
            TransportError::OpenStream => "open_uni stream de video".to_owned(),
            TransportError::ClientEndpoint => "Endpoint::client".to_owned(),
            TransportError::Connect => "connect".to_owned(),
            TransportError::ViewerHandshake =>
                "handshake QUIC — certificado invalido ou host errado".to_owned(),
            TransportError::AcceptStream => "accept_uni stream de video".to_owned(),
        }
    }
}

/// How far the host's side of a connection came.
#[derive(Clone, Copy, Debug, PartialEq, Eq, Structural)]
pub enum AcceptEvent {
    /// The endpoint closed before a viewer came.
    NoConnection,
    /// A viewer came, and the handshake failed.
    HandshakeFailed,
    /// The viewer is connected, and the stream could not be opened.
    StreamFailed,
    /// The stream is open.
    Ready,
}

/// How far the viewer's side of a connection came.
#[derive(Clone, Copy, Debug, PartialEq, Eq, Structural)]
pub enum ConnectEvent {
    /// The local endpoint could not be opened.
    EndpointFailed,
    /// The connection could not be started.
    ConnectFailed,
    /// The handshake failed.
    HandshakeFailed,
    /// No stream came.
    StreamFailed,
    /// The stream is there.
    Ready,
}

/// The host's end before a viewer is there.
pub struct SenderEndpoint {
    /// What the QUIC endpoint is set up with.
    pub config: ServerConfig,
    /// The fingerprint to announce to viewers.
    pub fingerprint: String,
}

impl SenderEndpoint {
    /// The announced fingerprint is that of the certificate that the endpoint
    /// presents, and the endpoint speaks the application's protocol.
    pub open spec fn well_formed(&self) -> bool {
        &&& self.config.certs@.len() == 1
        &&& self.fingerprint@ == fingerprint(self.config.certs@[0]@)
        &&& speaks_screenshare(self.config.alpn_protocols@)
    }

    /// The endpoint with the configuration and fingerprint that were made, if they
    /// were.
    pub fn from_config(made: Result<(ServerConfig, String), IdentityError>) -> (bound: Result<
        SenderEndpoint,
        IdentityError,
    >)
        ensures
            match made {
                Ok((config, announced)) => bound == Ok::<SenderEndpoint, IdentityError>(
                    (SenderEndpoint { config, fingerprint: announced }),
                ),
                Err(e) => bound == Err::<SenderEndpoint, IdentityError>(e),
            },
    {
        match made {
            Ok((config, announced)) => Ok(SenderEndpoint { config, fingerprint: announced }),
            Err(e) => Err(e),
        }
    }

    /// Makes a fresh certificate for the endpoint, under the name `localhost`, and
    /// exposes its fingerprint.
    pub fn bind() -> (bound: Result<SenderEndpoint, IdentityError>)
        ensures
            bound matches Ok(endpoint) ==> endpoint.well_formed() && made_for(
                endpoint.config.certs@[0]@,
                "localhost"@,
            ) && key_belongs(endpoint.config.certs@[0]@, endpoint.config.key@),
            bound matches Err(e) ==> e == IdentityError::Certificate,
    {
        SenderEndpoint::from_config(server_config())
    }

    /// Turns the endpoint into a sender once the video stream is open.
    pub fn accept(self, event: AcceptEvent) -> (accepted: Result<Sender, TransportError>)
        ensures
            match event {
                AcceptEvent::NoConnection => accepted == Err::<Sender, TransportError>(
                    TransportError::NoConnection,
                ),
                AcceptEvent::HandshakeFailed => accepted == Err::<Sender, TransportError>(
                    TransportError::HostHandshake,
                ),
                AcceptEvent::StreamFailed => accepted == Err::<Sender, TransportError>(
                    TransportError::OpenStream,
                ),
                AcceptEvent::Ready => accepted matches Ok(sender) && sender.next_seq() == 0,
            },
    {
        match event {
            AcceptEvent::NoConnection => Err(TransportError::NoConnection),
            AcceptEvent::HandshakeFailed => Err(TransportError::HostHandshake),
            AcceptEvent::StreamFailed => Err(TransportError::OpenStream),
            AcceptEvent::Ready => Ok(Sender { seq: 0 }),
        }
    }
}

/// The host's end of the video stream.
pub struct Sender {
    seq: u64,
}

impl Sender {
    /// The sequence number of the next packet.
    pub closed spec fn next_seq(&self) -> u64 {
        self.seq
    }

    /// The packet that a payload becomes when it is sent next.
    pub open spec fn next_packet(&self, payload: Seq<u8>, keyframe: bool) -> Fields {
        fields(
            self.next_seq(),
            (self.next_seq() * TIMESTAMP_STEP) as u64,
            keyframe,
            payload,
        )
    }

    /// Whether a payload of this length can be sent: a timestamp is left for it, and
    /// its packet fits in memory.
    pub fn can_send(&self, payload_len: usize) -> (possible: bool)
        ensures
            possible == (self.next_seq() * TIMESTAMP_STEP <= u64::MAX && payload_len + 32
                <= isize::MAX),
    {
        self.seq <= u64::MAX / TIMESTAMP_STEP && payload_len <= isize::MAX as usize - 32
    }

    /// Gives the bytes to put on the stream for the next packet: numbered in
    /// order, its timestamp one step after that of the packet before.
    pub fn send(&mut self, payload: Vec<u8>, keyframe: bool) -> (sent: Result<
        Vec<u8>,
        PacketError,
    >)
        requires
            old(self).next_seq() * TIMESTAMP_STEP <= u64::MAX,
            payload@.len() + 32 <= isize::MAX,
        ensures
            sent matches Ok(bytes) && bytes@ == framed(
                body(old(self).next_packet(payload@, keyframe)),
            ),
            sent->Ok_0@ == framed(
                body(
                    fields(
                        old(self).next_seq(),
                        (old(self).next_seq() * 16_000) as u64,
                        keyframe,
                        payload@,
                    ),
                ),
            ),
            final(self).next_seq() == old(self).next_seq() + 1,
    {
        let packet = VideoPacket {
            seq: self.seq,
            timestamp: self.seq * TIMESTAMP_STEP,
            keyframe,
            payload,
        };
        self.seq = self.seq + 1;
        match packet.encode() {
            Ok(mut bytes) => {
                proof {
                    lemma_body_len(packet@);
                }
                let mut framed_bytes = length_field(bytes.len() as u64);
                framed_bytes.append(&mut bytes);
                Ok(framed_bytes)
            },
            Err(e) => Err(e),
        }
    }
}

/// What reading from the stream came to.
pub enum StreamEvent {
    /// All the bytes that were wanted.
    Bytes(Vec<u8>),
    /// The stream ended before that.
    FinishedEarly,
    /// The connection broke.
    Failed,
}

/// What reading from the stream came to, with the bytes as a sequence.
pub enum Arrival {
    Bytes(Seq<u8>),
    FinishedEarly,
    Failed,
}

impl View for StreamEvent {
    type V = Arrival;

    open spec fn view(&self) -> Arrival {
        match *self {
            StreamEvent::Bytes(bytes) => Arrival::Bytes(bytes@),
            StreamEvent::FinishedEarly => Arrival::FinishedEarly,
            StreamEvent::Failed => Arrival::Failed,
        }
    }
}

/// Why a packet could not be received.
#[derive(Clone, Copy, Debug, PartialEq, Eq, Structural)]
pub enum RecvError {
    /// The connection broke before a length.
    ReadLength,
    /// The announced length is over `MAX_PACKET_SIZE`.
    TooLarge(u64),
    /// The stream ended or broke inside a packet.
    ReadPacket,
    /// The bytes are not a packet.
    Decode,
}

impl RecvError {
    /// The text shown to the user.
    pub open spec fn text(self) -> Seq<char> {
        match self {
            RecvError::ReadLength => "read len"@,
            RecvError::TooLarge(length) => "pacote muito grande: "@ + decimal_digits(length as nat)
                + " bytes (max "@ + decimal_digits(MAX_PACKET_SIZE as nat) + ")"@,
            RecvError::ReadPacket => "read pkt"@,
            RecvError::Decode => "bincode::decode"@,
        }
    }

    /// The text shown to the user.
    pub fn message(&self) -> (text: String)
        ensures
            text@ == self.text(),
    {
        match *self {
            RecvError::ReadLength => "read len".to_owned(),
            RecvError::TooLarge(length) => {
                let start = join3(
                    "pacote muito grande: ",
                    decimal(length).as_str(),
                    " bytes (max ",
                );
                join3(start.as_str(), decimal(MAX_PACKET_SIZE as u64).as_str(), ")")
            },
            RecvError::ReadPacket => "read pkt".to_owned(),
            RecvError::Decode => "bincode::decode".to_owned(),
        }
    }
}

/// What a receiver has after one read.
pub enum RecvStep {
    /// It knows the length and now wants the packet itself.
    More,
    /// A packet.
    Packet(VideoPacket),
    /// The stream ended between packets.
    End,
}

/// What a receiver has after one read, as plain values.
pub enum Received {
    More,
    Packet(Fields),
    End,
    Failed(RecvError),
}

/// The plain value of a step or of the error in its place.
pub open spec fn received(step: Result<RecvStep, RecvError>) -> Received {
    match step {
        Ok(RecvStep::More) => Received::More,
        Ok(RecvStep::Packet(packet)) => Received::Packet(packet@),
        Ok(RecvStep::End) => Received::End,
        Err(e) => Received::Failed(e),
    }
}

/// How many bytes a receiver wants next: a length field, or the packet whose
/// length it knows.
pub open spec fn wanted_bytes(expected: Option<usize>) -> nat {
    match expected {
        None => 4,
        Some(length) => length as nat,
    }
}

/// One read: from the length that is known, if any, to the one that is known
/// afterwards, and what has come of it.
pub open spec fn recv_next(expected: Option<usize>, arrival: Arrival) -> (Option<usize>, Received) {
    match (expected, arrival) {
        (None, Arrival::Bytes(field)) => if le_value(field) > MAX_PACKET_SIZE {
            (None, Received::Failed(RecvError::TooLarge(le_value(field) as u64)))
        } else {
            (Some(le_value(field) as usize), Received::More)
        },
        (None, Arrival::FinishedEarly) => (None, Received::End),
        (None, Arrival::Failed) => (None, Received::Failed(RecvError::ReadLength)),
        (Some(_), Arrival::Bytes(bytes)) => match read_body(bytes) {
            Some(packet) => (None, Received::Packet(packet)),
            None => (None, Received::Failed(RecvError::Decode)),
        },
        (Some(_), _) => (None, Received::Failed(RecvError::ReadPacket)),
    }
}

/// The viewer's end of the video stream.
pub struct Receiver {
    expected: Option<usize>,
}

impl Receiver {
    /// The length of the packet that is being received, once it is known.
    pub closed spec fn expected_length(&self) -> Option<usize> {
        self.expected
    }

    /// Starts receiving once the video stream is there.
    pub fn connect(event: ConnectEvent) -> (connected: Result<Receiver, TransportError>)
        ensures
            match event {
                ConnectEvent::EndpointFailed => connected == Err::<Receiver, TransportError>(
                    TransportError::ClientEndpoint,
                ),
                ConnectEvent::ConnectFailed => connected == Err::<Receiver, TransportError>(
                    TransportError::Connect,
                ),
                ConnectEvent::HandshakeFailed => connected == Err::<Receiver, TransportError>(
                    TransportError::ViewerHandshake,
                ),
                ConnectEvent::StreamFailed => connected == Err::<Receiver, TransportError>(
                    TransportError::AcceptStream,
                ),
                ConnectEvent::Ready => connected matches Ok(receiver)
                    && receiver.expected_length() is None,
            },
    {
        match event {
            ConnectEvent::EndpointFailed => Err(TransportError::ClientEndpoint),
            ConnectEvent::ConnectFailed => Err(TransportError::Connect),
            ConnectEvent::HandshakeFailed => Err(TransportError::ViewerHandshake),
            ConnectEvent::StreamFailed => Err(TransportError::AcceptStream),
            ConnectEvent::Ready => Ok(Receiver { expected: None }),
        }
    }

    /// How many bytes to read from the stream next.
    pub fn wanted(&self) -> (count: usize)
        ensures
            count == wanted_bytes(self.expected_length()),
    {
        match self.expected {
            None => 4,
            Some(length) => length,
        }
    }

    /// Takes what the next read came to.
    pub fn recv(&mut self, event: StreamEvent) -> (step: Result<RecvStep, RecvError>)
        requires
            event matches StreamEvent::Bytes(bytes) ==> bytes@.len() == wanted_bytes(
                old(self).expected_length(),
            ),
        ensures
            (final(self).expected_length(), received(step)) == recv_next(
                old(self).expected_length(),
                event@,
            ),
    {
        let expected = self.expected;
        self.expected = None;
        match expected {
            None => match event {
                StreamEvent::Bytes(field) => {
                    let length: u64 = length_of(&field);
                    if length > MAX_PACKET_SIZE as u64 {
                        Err(RecvError::TooLarge(length))
                    } else {
                        self.expected = Some(length as usize);
                        Ok(RecvStep::More)
                    }
                },
                StreamEvent::FinishedEarly => Ok(RecvStep::End),
                StreamEvent::Failed => Err(RecvError::ReadLength),
            },
            Some(_) => match event {
                StreamEvent::Bytes(bytes) => match VideoPacket::decode(bytes.as_slice()) {
                    Ok(packet) => Ok(RecvStep::Packet(packet)),
                    Err(_) => Err(RecvError::Decode),
                },
                _ => Err(RecvError::ReadPacket),
            },
        }
    }
}

/// Reading `count` bytes from a stream that holds `stream` and then ends: what
/// arrives, and what is left.
pub open spec fn read_exact(stream: Seq<u8>, count: nat) -> (Arrival, Seq<u8>) {
    if count <= stream.len() {
        (Arrival::Bytes(stream.take(count as int)), stream.skip(count as int))
    } else {
        (Arrival::FinishedEarly, Seq::empty())
    }
}

/// What a receiver gets next from a stream, between packets: the outcome of its
/// one or two reads, and what is left of the stream.
pub open spec fn recv_from(stream: Seq<u8>) -> (Received, Seq<u8>) {
    let (first, after_first) = read_exact(stream, wanted_bytes(None));
    let (expected, outcome) = recv_next(None, first);
    if outcome is More {
        let (second, after_second) = read_exact(after_first, wanted_bytes(expected));
        (recv_next(expected, second).1, after_second)
    } else {
        (outcome, after_first)
    }
}

/// The stream that carries `packets` in order.
pub open spec fn stream_of(packets: Seq<Fields>) -> Seq<u8>
    decreases packets.len(),
{
    if packets.len() == 0 {
        Seq::empty()
    } else {
        framed(body(packets[0])) + stream_of(packets.skip(1))
    }
}

/// What a receiver gets from a stream, `count` times in a row.
pub open spec fn recv_many(stream: Seq<u8>, count: nat) -> Seq<Received>
    decreases count,
{
    if count == 0 {
        Seq::empty()
    } else {
        let (outcome, rest) = recv_from(stream);
        seq![outcome] + recv_many(rest, (count - 1) as nat)
    }
}

/// The length field before a body is read back, if four bytes can hold it.
proof fn lemma_length_field(bytes: Seq<u8>, rest: Seq<u8>)
    requires
        bytes.len() < 0x1_0000_0000,
    ensures
        read_exact(framed(bytes) + rest, 4) == (
            Arrival::Bytes(le_bytes(bytes.len(), 4)),
            bytes + rest,
        ),
        le_value(le_bytes(bytes.len(), 4)) == bytes.len(),
{
    reveal_with_fuel(crate::wire::byte_range, 5);
    lemma_le_bytes_len(bytes.len(), 4);
    lemma_le_round_trip(bytes.len(), 4);
    let stream = framed(bytes) + rest;
    assert(stream.take(4) =~= le_bytes(bytes.len(), 4));
    assert(stream.skip(4) =~= bytes + rest);
}

/// A packet that is sent is received unchanged, and what follows it on the stream
/// is left for the next one.
pub proof fn lemma_packet_round_trip(packet: Fields, rest: Seq<u8>)
    requires
        body(packet).len() <= MAX_PACKET_SIZE,
    ensures
        recv_from(framed(body(packet)) + rest) == (Received::Packet(packet), rest),
{
    let bytes = body(packet);
    lemma_length_field(bytes, rest);
    lemma_body_len(packet);
    lemma_body_round_trip(packet, Seq::empty());
    assert(bytes + Seq::<u8>::empty() =~= bytes);
    assert((bytes + rest).take(bytes.len() as int) =~= bytes);
    assert((bytes + rest).skip(bytes.len() as int) =~= rest);
}

/// The packets that are sent are received in the order in which they were sent,
/// none lost and none added, and then the end of the stream.
pub proof fn lemma_stream_round_trip(packets: Seq<Fields>)
    requires
        forall|i: int| 0 <= i < packets.len() ==> body(#[trigger] packets[i]).len()
            <= MAX_PACKET_SIZE,
    ensures
        recv_many(stream_of(packets), packets.len() + 1) == packets.map_values(
            |packet: Fields| Received::Packet(packet),
        ).push(Received::End),
    decreases packets.len(),
{
    let outcomes = packets.map_values(|packet: Fields| Received::Packet(packet));
    if packets.len() == 0 {
        reveal_with_fuel(recv_many, 2);
        assert(recv_from(stream_of(packets)).0 == Received::End);
        assert(recv_many(stream_of(packets), 1) =~= outcomes.push(Received::End));
    } else {
        let later = packets.skip(1);
        assert forall|i: int| 0 <= i < later.len() implies body(#[trigger] later[i]).len()
            <= MAX_PACKET_SIZE by {
            assert(later[i] == packets[i + 1]);
        }
        lemma_stream_round_trip(later);
        lemma_packet_round_trip(packets[0], stream_of(later));
        assert(recv_many(stream_of(packets), packets.len() + 1) =~= seq![
            Received::Packet(packets[0]),
        ] + recv_many(stream_of(later), later.len() + 1));
        assert(recv_many(stream_of(packets), packets.len() + 1) =~= outcomes.push(Received::End));
    }
}

/// A packet over the limit is refused by its length, before any of its bytes is
/// read.
pub proof fn lemma_oversized_refused(packet: Fields, rest: Seq<u8>)
    requires
        MAX_PACKET_SIZE < body(packet).len() < 0x1_0000_0000,
    ensures
        recv_from(framed(body(packet)) + rest) == (
            Received::Failed(RecvError::TooLarge(body(packet).len() as u64)),
            body(packet) + rest,
        ),
{
    lemma_length_field(body(packet), rest);
}

/// A stream that ends inside a packet gives an error, not a packet: one that ends
/// inside a length field ends quietly.
pub proof fn lemma_truncated_stream(packet: Fields, kept: nat)
    requires
        body(packet).len() <= MAX_PACKET_SIZE,
        kept < framed(body(packet)).len(),
    ensures
        recv_from(framed(body(packet)).take(kept as int)).0 == if kept < 4 {
            Received::End
        } else {
            Received::Failed(RecvError::ReadPacket)
        },
{
    let bytes = body(packet);
    lemma_le_bytes_len(bytes.len(), 4);
    let stream = framed(bytes).take(kept as int);
    if kept >= 4 {
        lemma_length_field(bytes, Seq::empty());
        assert(stream.take(4) =~= le_bytes(bytes.len(), 4));
    }
}

/// A payload that leaves 28 bytes to the limit can always be received.
pub proof fn lemma_payload_fits(packet: Fields)
    requires
        packet.payload.len() + 28 <= MAX_PACKET_SIZE,
    ensures
        body(packet).len() <= MAX_PACKET_SIZE,
{
    lemma_body_len(packet);
}

/// Whether `senders` is what one sender is from call to call: fresh at first, and
/// numbered one higher after each packet.
pub open spec fn sends_in_turn(senders: Seq<Sender>) -> bool {
    &&& senders.len() > 0
    &&& senders[0].next_seq() == 0
    &&& forall|k: int|
        #![trigger senders[k]]
        0 < k < senders.len() ==> senders[k].next_seq() == senders[k - 1].next_seq() + 1
}

/// The packet that call number `k` of a sender makes.
pub open spec fn packet_of_call(
    senders: Seq<Sender>,
    inputs: Seq<(Seq<u8>, bool)>,
    k: int,
) -> Fields {
    senders[k].next_packet(inputs[k].0, inputs[k].1)
}

/// The packets of a sender are numbered in order from zero: call number `k` makes
/// packet number `k`, with the payload and the flag it was given, and the time in
/// microseconds at which its frame is due.  Numbers and times strictly grow, so
/// none comes twice.
pub proof fn lemma_packets_numbered(senders: Seq<Sender>, inputs: Seq<(Seq<u8>, bool)>)
    requires
        sends_in_turn(senders),
        inputs.len() == senders.len(),
        (senders.len() - 1) * TIMESTAMP_STEP <= u64::MAX,
    ensures
        forall|k: int|
            0 <= k < senders.len() ==> #[trigger] packet_of_call(senders, inputs, k) == fields(
                k as u64,
                (k * FRAME_PAUSE_MS * 1000) as u64,
                inputs[k].1,
                inputs[k].0,
            ),
        forall|j: int, k: int|
            0 <= j < k < senders.len() ==> (#[trigger] packet_of_call(senders, inputs, j)).seq < (
            #[trigger] packet_of_call(senders, inputs, k)).seq && packet_of_call(
                senders,
                inputs,
                j,
            ).timestamp < packet_of_call(senders, inputs, k).timestamp,
{
    assert forall|k: int| 0 <= k < senders.len() implies senders[k].next_seq() == k
        && #[trigger] packet_of_call(senders, inputs, k) == fields(
        k as u64,
        (k * FRAME_PAUSE_MS * 1000) as u64,
        inputs[k].1,
        inputs[k].0,
    ) by {
        lemma_sender_number(senders, k);
    }
}

proof fn lemma_sender_number(senders: Seq<Sender>, k: int)
    requires
        sends_in_turn(senders),
        0 <= k < senders.len(),
    ensures
        senders[k].next_seq() == k,
    decreases k,
{
    if k > 0 {
        lemma_sender_number(senders, k - 1);
        assert(senders[k].next_seq() == senders[k - 1].next_seq() + 1);
    }
}

/// A viewer that was told the fingerprint that a host announces accepts the
/// certificate that this host presents.
pub proof fn lemma_viewer_accepts_host(endpoint: SenderEndpoint, verifier: FingerprintVerifier)
    requires
        endpoint.well_formed(),
        verifier.expected_fingerprint@ == endpoint.fingerprint@,
    ensures
        verifier.accepts(endpoint.config.certs@[0]@),
{
}

/// On the stream a body stands unchanged behind four bytes, which give its length with
/// the least significant first.
pub proof fn lemma_length_before_body(bytes: Seq<u8>)
    requires
        bytes.len() < 0x1_0000_0000,
    ensures
        framed(bytes).len() == bytes.len() + 4,
        framed(bytes).skip(4) == bytes,
        framed(bytes)[0] + 256 * framed(bytes)[1] + 65_536 * framed(bytes)[2] + 16_777_216 * framed(
            bytes,
        )[3] == bytes.len(),
{
    reveal_with_fuel(le_bytes, 5);
    lemma_le_bytes_len(bytes.len(), 4);
    assert(framed(bytes).skip(4) =~= bytes);
    let n = bytes.len();
    assert(n / 256 / 256 == n / 65_536);
    assert(n / 65_536 / 256 == n / 16_777_216);
    assert(n / 16_777_216 < 256);
}

/// A length field is read with the least significant byte first; up to the limit that
/// many bytes are received next, and beyond it the length is refused.
pub proof fn lemma_length_read(field: Seq<u8>)
    requires
        field.len() == 4,
    ensures
        ({
            let length = field[0] + 256 * field[1] + 65_536 * field[2] + 16_777_216 * field[3];
            let (expected, outcome) = recv_next(None, Arrival::Bytes(field));
            &&& length <= MAX_PACKET_SIZE ==> outcome is More && expected is Some && wanted_bytes(
                expected,
            ) == length
            &&& length > MAX_PACKET_SIZE ==> expected is None && outcome == Received::Failed(
                RecvError::TooLarge(length as u64),
            )
        }),
{
    reveal_with_fuel(le_value, 5);
    assert(field.skip(1).skip(1).skip(1).skip(1).len() == 0);
    assert(field.skip(1)[0] == field[1] && field.skip(1).skip(1)[0] == field[2] && field.skip(
        1,
    ).skip(1).skip(1)[0] == field[3]);
}

/// Between packets the stream may end; where it breaks there, or ends or breaks inside
/// a packet, or what came is no packet, that is an error, and each has its own.  After
/// every outcome but a length the next thing to receive is a length.
pub proof fn lemma_stream_failures(expected: Option<usize>, arrival: Arrival)
    ensures
        expected is None && arrival is FinishedEarly ==> recv_next(expected, arrival).1 is End,
        expected is None && arrival is Failed ==> recv_next(expected, arrival).1
            == Received::Failed(RecvError::ReadLength),
        expected is Some && (arrival is FinishedEarly || arrival is Failed) ==> recv_next(
            expected,
            arrival,
        ).1 == Received::Failed(RecvError::ReadPacket),
        expected is Some ==> (arrival matches Arrival::Bytes(bytes) ==> recv_next(
            expected,
            arrival,
        ).1 == match read_body(bytes) {
            Some(packet) => Received::Packet(packet),
            None => Received::Failed(RecvError::Decode),
        }),
        !(recv_next(expected, arrival).1 is More) ==> recv_next(expected, arrival).0 is None,
        wanted_bytes(None) == 4,
{
}

/// The refusal of a packet that is too large names its length and the limit.
pub proof fn lemma_too_large_names_length(length: u64)
    ensures
        RecvError::TooLarge(length).text() == "pacote muito grande: "@ + decimal_digits(
            length as nat,
        ) + " bytes (max "@ + decimal_digits(4_194_304) + ")"@,
{
}

} // verus!
