use na_libp2p::be::{get_be, put_be};
use na_libp2p::peer::PeerId;
use na_libp2p::protocol::{
    read_message, write_message, MessageType, ReadError, ReadStage, ReadStep, WireHeader,
};

fn peer(fill: u8) -> PeerId {
    let mut bytes = vec![0x12, 0x20];
    bytes.extend(vec![fill; 32]);
    PeerId::from_bytes(&bytes).expect("a multihash")
}

fn header(msg_type: MessageType, payload_size: u32) -> WireHeader {
    WireHeader {
        msg_type,
        tag: 0x01020304,
        payload_size,
        source_peer_id: peer(7),
        handle_id: 11,
        offset: 12,
        rma_length: 13,
        local_handle_id: 14,
        local_offset: 15,
    }
}

#[test]
fn type_codes() {
    let types = [
        (1, MessageType::Unexpected),
        (2, MessageType::Expected),
        (3, MessageType::RmaPut),
        (4, MessageType::RmaGetReq),
        (5, MessageType::RmaGetResp),
    ];
    for (code, t) in types {
        assert_eq!(MessageType::from_u8(code), Some(t));
        assert_eq!(t.to_u8(), code);
    }
    assert_eq!(MessageType::from_u8(0), None);
    assert_eq!(MessageType::from_u8(6), None);
    assert_eq!(MessageType::from_u8(255), None);
}

#[test]
fn big_endian_numbers() {
    let mut out = vec![9];
    put_be(&mut out, 0x0102_0304, 4);
    put_be(&mut out, 0xabcd, 1);
    assert_eq!(out, vec![9, 1, 2, 3, 4, 0xcd]);
    assert_eq!(get_be(&out, 1, 4), 0x0102_0304);
    assert_eq!(get_be(&out, 2, 0), 0);
    assert_eq!(get_be(&[0xff; 8], 0, 8), u64::MAX);
}

#[test]
fn layout_of_a_message() {
    let bytes = write_message(&header(MessageType::Expected, 3), &[0xa, 0xb, 0xc]);
    let mut expected = vec![2, 1, 2, 3, 4, 0, 0, 0, 3, 0, 34, 0x12, 0x20];
    expected.extend(vec![7; 32]);
    for n in [11u64, 12, 13, 14, 15] {
        expected.extend(n.to_be_bytes());
    }
    expected.extend([0xa, 0xb, 0xc]);
    assert_eq!(bytes, expected);
    assert_eq!(bytes.len(), 51 + 34 + 3);
}

#[test]
fn a_written_message_is_read_back() {
    let mut bytes = write_message(&header(MessageType::RmaPut, 2), &[5, 6]);
    let n = bytes.len();
    bytes.extend([1, 2, 3]);
    let (h, payload, used) = read_message(&bytes).expect("a message");
    assert_eq!(h, header(MessageType::RmaPut, 2));
    assert_eq!(payload, vec![5, 6]);
    assert_eq!(used, n);
}

#[test]
fn messages_back_to_back() {
    let mut bytes = write_message(&header(MessageType::Unexpected, 1), &[1]);
    bytes.extend(write_message(&header(MessageType::Expected, 0), &[]));
    bytes.extend(write_message(&header(MessageType::RmaGetResp, 4), &[4; 4]));
    let mut seen = Vec::new();
    let mut rest: &[u8] = &bytes;
    while let Ok((h, payload, used)) = read_message(rest) {
        seen.push((h.msg_type, payload));
        rest = &rest[used..];
    }
    assert_eq!(
        seen,
        vec![
            (MessageType::Unexpected, vec![1]),
            (MessageType::Expected, vec![]),
            (MessageType::RmaGetResp, vec![4; 4]),
        ]
    );
    assert!(rest.is_empty());
}

#[test]
fn every_cut_is_an_end_of_stream() {
    let bytes = write_message(&header(MessageType::RmaGetReq, 2), &[5, 6]);
    for n in 0..bytes.len() {
        assert_eq!(read_message(&bytes[..n]), Err(ReadError::UnexpectedEof));
    }
}

#[test]
fn bad_data_is_told_apart_from_the_end() {
    assert_eq!(read_message(&[0]), Err(ReadError::BadMessageType));
    assert_eq!(read_message(&[6, 1, 2]), Err(ReadError::BadMessageType));
    // One byte of identity, which is no multihash.
    assert_eq!(
        read_message(&[1, 0, 0, 0, 0, 0, 0, 0, 0, 0, 1, 0x12]),
        Err(ReadError::BadPeerId)
    );
    // No identity at all.
    assert_eq!(
        read_message(&[1, 0, 0, 0, 0, 0, 0, 0, 0, 0, 0]),
        Err(ReadError::BadPeerId)
    );
}

#[test]
fn reading_step_by_step() {
    let bytes = write_message(&header(MessageType::Unexpected, 2), &[8, 9]);
    let mut stage = ReadStage::Type;
    let mut pos = 0;
    let mut needs = Vec::new();
    let done = loop {
        let n = stage.needed();
        needs.push(n);
        match stage.advance(&bytes[pos..pos + n]) {
            ReadStep::Next(next) => stage = next,
            ReadStep::Done(h, p) => break (h, p),
            ReadStep::Failed(e) => panic!("{:?}", e),
        }
        pos += n;
    };
    assert_eq!(needs, vec![1, 10, 34, 40, 2]);
    assert_eq!(done, (header(MessageType::Unexpected, 2), vec![8, 9]));
    assert_eq!(
        ReadStage::Type.advance(&[77]),
        ReadStep::Failed(ReadError::BadMessageType)
    );
}

#[test]
fn identities() {
    let p = peer(1);
    let q = peer(2);
    assert!(p.same(&p.clone()));
    assert!(!p.same(&q));
    let outside = libp2p::PeerId::from_bytes(&p.to_bytes()).expect("the same bytes");
    assert_eq!(p.to_text(), outside.to_base58());
    assert_eq!(PeerId::from_text(&p.to_text()), Some(p.clone()));
    assert_ne!(p.to_text().as_bytes().to_vec(), p.to_bytes());
    assert_eq!(PeerId::from_text("no identity"), None);
    assert_eq!(PeerId::from_text(""), None);
    assert_eq!(PeerId::from_bytes(&[]), None);
    assert_eq!(PeerId::from_bytes(&[0x12, 2, 1]), None);
    assert_eq!(PeerId::from_bytes(&[0x13, 1, 1]), None);
    assert_eq!(PeerId::from_bytes(&[0, 43]), None);
    // A short public key is kept whole.
    assert_eq!(PeerId::from_bytes(&[0, 1, 5]).map(|p| p.to_bytes()), Some(vec![0, 1, 5]));
}

#[test]
fn an_identity_in_longer_codes_has_a_canonical_form() {
    // The digest length in two bytes, the last of them zero.
    let mut long = vec![0x12, 0xa0, 0x00];
    long.extend(vec![3; 32]);
    assert_eq!(PeerId::from_bytes(&long), None);
    assert!(libp2p::PeerId::from_bytes(&long).is_err());
    // The hash code in ten bytes, the last of them not zero.
    let mut longest = vec![0x92, 0x80, 0x80, 0x80, 0x80, 0x80, 0x80, 0x80, 0x80, 0x02, 0x20];
    longest.extend(vec![3; 32]);
    assert_eq!(PeerId::from_bytes(&longest), Some(peer(3)));
    let outside = libp2p::PeerId::from_bytes(&longest).expect("an identity");
    assert_eq!(outside.to_bytes(), peer(3).to_bytes());
}
