use screenshare::packet::{PacketError, VideoPacket};

fn packet(seq: u64, timestamp: u64, keyframe: bool, payload: Vec<u8>) -> VideoPacket {
    VideoPacket { seq, timestamp, keyframe, payload }
}

fn same(a: &VideoPacket, b: &VideoPacket) -> bool {
    a.seq == b.seq && a.timestamp == b.timestamp && a.keyframe == b.keyframe && a.payload == b.payload
}

#[test]
fn body_has_the_documented_bytes() {
    assert_eq!(packet(0, 0, false, vec![1, 2, 3]).encode().unwrap(), vec![0, 0, 0, 3, 1, 2, 3]);
    assert_eq!(packet(250, 251, true, vec![]).encode().unwrap(), vec![250, 251, 251, 0, 1, 0]);
    assert_eq!(
        packet(0xffff, 0x1_0000, false, vec![]).encode().unwrap(),
        vec![251, 255, 255, 252, 0, 0, 1, 0, 0, 0]
    );
    assert_eq!(
        packet(0x1_0000_0000, u64::MAX, true, vec![7]).encode().unwrap(),
        vec![253, 0, 0, 0, 0, 1, 0, 0, 0, 253, 255, 255, 255, 255, 255, 255, 255, 255, 1, 1, 7]
    );
}

#[test]
fn every_packet_is_read_back() {
    for value in [0u64, 1, 250, 251, 252, 253, 254, 255, 0xffff, 0x1_0000, 0xffff_ffff, 0x1_0000_0000, u64::MAX] {
        for length in [0usize, 1, 250, 251, 1000] {
            let sent = packet(value, value / 2, value % 2 == 0, vec![0xab; length]);
            let read = VideoPacket::decode(&sent.encode().unwrap()).unwrap();
            assert!(same(&sent, &read));
        }
    }
}

#[test]
fn bytes_after_a_packet_are_ignored() {
    let mut bytes = packet(3, 48, false, vec![9, 8]).encode().unwrap();
    bytes.extend([1, 2, 3]);
    let read = VideoPacket::decode(&bytes).unwrap();
    assert!(same(&read, &packet(3, 48, false, vec![9, 8])));
}

#[test]
fn integers_may_be_longer_than_needed() {
    let read = VideoPacket::decode(&[251, 5, 0, 252, 6, 0, 0, 0, 1, 253, 1, 0, 0, 0, 0, 0, 0, 0, 42]).unwrap();
    assert!(same(&read, &packet(5, 6, true, vec![42])));
}

#[test]
fn what_is_no_packet_is_refused() {
    let refused: [&[u8]; 8] = [
        &[],
        &[0, 0, 0],
        &[0, 0, 2, 0],
        &[254, 0, 0, 0],
        &[255, 0, 0, 0],
        &[251, 0],
        &[0, 0, 0, 4, 1, 2, 3],
        &[0, 0, 0, 253, 255, 255, 255, 255, 255, 255, 255, 127],
    ];
    for bytes in refused {
        assert!(matches!(VideoPacket::decode(bytes), Err(PacketError::Decode)));
    }
}

#[test]
fn truncated_bodies_are_refused() {
    let bytes = packet(70_000, 300, true, vec![1, 2, 3, 4]).encode().unwrap();
    for kept in 0..bytes.len() {
        assert!(VideoPacket::decode(&bytes[..kept]).is_err());
    }
}

#[test]
fn packet_errors_have_their_texts() {
    assert_eq!(PacketError::Encode.message(), "bincode::encode");
    assert_eq!(PacketError::Decode.message(), "bincode::decode");
}
