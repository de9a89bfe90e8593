use tincan::proto::{body_len, frame, ChannelId, FrameError, PeerId, VoiceHeader, MAX_MESSAGE_BYTES};

#[test]
fn voice_header_round_trips() {
    let header = VoiceHeader { seq: 123_456, channel: ChannelId(2) };
    let payload = [9u8; 80];

    let mut datagram = vec![0u8; VoiceHeader::SIZE + payload.len()];
    header.write_into(&mut datagram);
    datagram[VoiceHeader::SIZE..].copy_from_slice(&payload);

    let (parsed, body) = VoiceHeader::parse(&datagram).unwrap();
    assert_eq!(parsed, header);
    assert_eq!(body, payload);
}

#[test]
fn voice_header_rejects_undersized_datagrams() {
    assert!(VoiceHeader::parse(&[]).is_none());
    assert!(VoiceHeader::parse(&[1, 2, 3]).is_none());
    assert!(VoiceHeader::parse(&[0; VoiceHeader::SIZE]).is_none());
}

#[test]
fn short_id_is_stable_and_readable() {
    let id = PeerId([
        0xab, 0xcd, 0xef, 0x01, 0x23, 0x45, 0x67, 0x89, 0, 0, 0, 0, 0, 0, 0, 0, 0, 0, 0, 0, 0, 0, 0, 0, 0, 0, 0, 0, 0,
        0, 0, 0,
    ]);
    assert_eq!(id.short(), "abcdef0123");
    assert_eq!(id.to_string().len(), 64);
}

// ── Further cases ────────────────────────────────────────────────────────────────

#[test]
fn the_header_is_little_endian_then_the_channel() {
    let header = VoiceHeader { seq: 0x0403_0201, channel: ChannelId(9) };
    let mut datagram = vec![0xffu8; 7];
    header.write_into(&mut datagram);
    assert_eq!(datagram, vec![1, 2, 3, 4, 9, 0xff, 0xff]);
}

#[test]
fn a_frame_announces_its_body() {
    let framed = frame(b"hello").unwrap();
    assert_eq!(&framed[..4], &[5, 0, 0, 0]);
    assert_eq!(&framed[4..], b"hello");
    let header: [u8; 4] = framed[..4].try_into().unwrap();
    assert_eq!(body_len(&header), Ok(5));
}

#[test]
fn an_oversized_body_is_refused_both_ways() {
    let huge = vec![0u8; MAX_MESSAGE_BYTES + 1];
    assert!(matches!(frame(&huge), Err(FrameError::TooLarge { .. })));
    let announced = ((MAX_MESSAGE_BYTES + 1) as u32).to_le_bytes();
    assert!(body_len(&announced).is_err());
    let fine = (MAX_MESSAGE_BYTES as u32).to_le_bytes();
    assert_eq!(body_len(&fine), Ok(MAX_MESSAGE_BYTES));
}

#[test]
fn identities_order_by_their_bytes() {
    let mut low = [0u8; 32];
    low[31] = 1;
    let mut high = [0u8; 32];
    high[0] = 1;
    assert!(PeerId(low).is_before(&PeerId(high)));
    assert!(!PeerId(high).is_before(&PeerId(low)));
    assert!(!PeerId(low).is_before(&PeerId(low)));
    assert!(PeerId(low).same(&PeerId(low)));
    assert_eq!(PeerId([0x0f; 32]).short_prefix(2), "0f0f");
}
