use screenshare::packet::VideoPacket;
use screenshare::transport::{
    AcceptEvent, ConnectEvent, Receiver, RecvError, RecvStep, Sender, SenderEndpoint, StreamEvent,
    TransportError, MAX_PACKET_SIZE,
};

fn sender() -> Sender {
    SenderEndpoint::bind().unwrap().accept(AcceptEvent::Ready).unwrap()
}

fn receiver() -> Receiver {
    Receiver::connect(ConnectEvent::Ready).unwrap()
}

fn read(stream: &mut &[u8], count: usize) -> StreamEvent {
    if count <= stream.len() {
        let (taken, left) = stream.split_at(count);
        *stream = left;
        StreamEvent::Bytes(taken.to_vec())
    } else {
        *stream = &[];
        StreamEvent::FinishedEarly
    }
}

fn receive(receiver: &mut Receiver, stream: &mut &[u8]) -> Result<Option<VideoPacket>, RecvError> {
    loop {
        let event = read(stream, receiver.wanted());
        match receiver.recv(event)? {
            RecvStep::More => {}
            RecvStep::Packet(packet) => return Ok(Some(packet)),
            RecvStep::End => return Ok(None),
        }
    }
}

#[test]
fn sent_bytes_are_length_and_body() {
    let mut sender = sender();
    assert_eq!(sender.send(vec![1, 2, 3], false).unwrap(), vec![7, 0, 0, 0, 0, 0, 0, 3, 1, 2, 3]);
    assert_eq!(sender.send(vec![4], true).unwrap(), vec![7, 0, 0, 0, 1, 251, 128, 62, 1, 1, 4]);
    assert_eq!(sender.send(vec![], false).unwrap(), vec![6, 0, 0, 0, 2, 251, 0, 125, 0, 0]);
}

#[test]
fn packets_arrive_in_order_and_then_the_end() {
    let mut sender = sender();
    let mut stream: Vec<u8> = Vec::new();
    for i in 0..300usize {
        stream.extend(sender.send(vec![i as u8; i], i % 7 == 0).unwrap());
    }
    let mut receiver = receiver();
    let mut left = stream.as_slice();
    for i in 0..300usize {
        let packet = receive(&mut receiver, &mut left).unwrap().unwrap();
        assert_eq!(packet.seq, i as u64);
        assert_eq!(packet.timestamp, 16_000 * i as u64);
        assert_eq!(packet.keyframe, i % 7 == 0);
        assert_eq!(packet.payload, vec![i as u8; i]);
    }
    assert!(receive(&mut receiver, &mut left).unwrap().is_none());
}

#[test]
fn packet_at_the_limit_is_taken_and_one_over_it_refused() {
    // Sequence number and timestamp of the first packet take a byte each, the flag
    // one, the length five.
    let largest = MAX_PACKET_SIZE - 8;
    let bytes = sender().send(vec![1; largest], false).unwrap();
    assert_eq!(bytes.len(), 4 + MAX_PACKET_SIZE);
    let mut left = bytes.as_slice();
    assert_eq!(receive(&mut receiver(), &mut left).unwrap().unwrap().payload.len(), largest);

    let bytes = sender().send(vec![1; largest + 1], false).unwrap();
    let mut left = bytes.as_slice();
    let error = receive(&mut receiver(), &mut left).err().unwrap();
    assert_eq!(error, RecvError::TooLarge(MAX_PACKET_SIZE as u64 + 1));
    assert_eq!(error.message(), "pacote muito grande: 4194305 bytes (max 4194304)");
    assert_eq!(left.len(), MAX_PACKET_SIZE + 1);
}

#[test]
fn stream_may_end_between_packets_only() {
    let bytes = sender().send(vec![5; 10], false).unwrap();
    for kept in 0..4 {
        let mut left = &bytes[..kept];
        assert!(receive(&mut receiver(), &mut left).unwrap().is_none());
    }
    for kept in 4..bytes.len() {
        let mut left = &bytes[..kept];
        assert_eq!(receive(&mut receiver(), &mut left).err(), Some(RecvError::ReadPacket));
    }
}

#[test]
fn broken_connection_and_bad_bytes_are_told_apart() {
    assert_eq!(receiver().recv(StreamEvent::Failed).err(), Some(RecvError::ReadLength));
    let mut broken = receiver();
    assert!(matches!(broken.recv(StreamEvent::Bytes(vec![2, 0, 0, 0])), Ok(RecvStep::More)));
    assert_eq!(broken.wanted(), 2);
    assert_eq!(broken.recv(StreamEvent::Failed).err(), Some(RecvError::ReadPacket));
    assert_eq!(broken.wanted(), 4);
    let mut left: &[u8] = &[2, 0, 0, 0, 255, 255];
    assert_eq!(receive(&mut receiver(), &mut left).err(), Some(RecvError::Decode));
    assert_eq!(RecvError::ReadLength.message(), "read len");
    assert_eq!(RecvError::ReadPacket.message(), "read pkt");
    assert_eq!(RecvError::Decode.message(), "bincode::decode");
}

#[test]
fn length_field_is_little_endian() {
    let mut receiver = receiver();
    assert!(matches!(receiver.recv(StreamEvent::Bytes(vec![1, 2, 0, 0])), Ok(RecvStep::More)));
    assert_eq!(receiver.wanted(), 0x201);
}

#[test]
fn sending_has_a_last_number() {
    let sender = sender();
    assert!(sender.can_send(0));
    assert!(!sender.can_send(usize::MAX));
}

#[test]
fn connections_that_fail_say_where() {
    let accepted = [
        (AcceptEvent::NoConnection, TransportError::NoConnection, "nenhuma conexao recebida"),
        (AcceptEvent::HandshakeFailed, TransportError::HostHandshake, "handshake QUIC"),
        (AcceptEvent::StreamFailed, TransportError::OpenStream, "open_uni stream de video"),
    ];
    for (event, error, text) in accepted {
        let endpoint = SenderEndpoint::bind().unwrap();
        assert_eq!(endpoint.accept(event).err(), Some(error));
        assert_eq!(error.message(), text);
    }
    let connected = [
        (ConnectEvent::EndpointFailed, TransportError::ClientEndpoint, "Endpoint::client"),
        (ConnectEvent::ConnectFailed, TransportError::Connect, "connect"),
        (
            ConnectEvent::HandshakeFailed,
            TransportError::ViewerHandshake,
            "handshake QUIC — certificado invalido ou host errado",
        ),
        (ConnectEvent::StreamFailed, TransportError::AcceptStream, "accept_uni stream de video"),
    ];
    for (event, error, text) in connected {
        assert_eq!(Receiver::connect(event).err(), Some(error));
        assert_eq!(error.message(), text);
    }
}
