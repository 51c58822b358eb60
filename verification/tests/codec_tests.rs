use sockmsg::cmsg::{ControlMessage, CmsgIterator, TimeVal, UnknownCmsg, encode_cmsgs};
use sockmsg::layout::{CMSG_HDR_LEN, CMSG_ALIGN_UNIT, SOL_SOCKET, SCM_RIGHTS, SCM_TIMESTAMP};

fn collect(buf: &[u8]) -> Vec<ControlMessage> {
    let mut it = CmsgIterator::new(buf);
    let mut out = Vec::new();
    while let Some(m) = it.next() {
        out.push(m);
    }
    out
}

#[test]
fn round_trip_mixed() {
    let msgs = vec![
        ControlMessage::ScmRights(vec![10, 20, 30]),
        ControlMessage::ScmTimestamp(TimeVal { tv_sec: 5, tv_usec: 250000 }),
        ControlMessage::Unknown(UnknownCmsg { cmsg_level: 7, cmsg_type: 99, data: vec![1, 2, 3] }),
    ];
    let buf = encode_cmsgs(&msgs);
    let decoded = collect(&buf);
    assert_eq!(decoded, msgs);
}

#[test]
fn round_trip_preserves_fd_order() {
    let msgs = vec![ControlMessage::ScmRights(vec![9, 4, 7, 1])];
    let buf = encode_cmsgs(&msgs);
    let decoded = collect(&buf);
    assert_eq!(decoded, msgs);
    match &decoded[0] {
        ControlMessage::ScmRights(fds) => assert_eq!(fds, &vec![9, 4, 7, 1]),
        _ => panic!("wrong variant"),
    }
}

#[test]
fn alignment_smallest_multiple() {
    for payload_len in 0..40usize {
        let m = ControlMessage::Unknown(UnknownCmsg {
            cmsg_level: 5,
            cmsg_type: 6,
            data: vec![0u8; payload_len],
        });
        let space = m.space();
        let unpadded = CMSG_HDR_LEN + payload_len;
        assert_eq!(space % CMSG_ALIGN_UNIT, 0);
        assert!(space >= unpadded);
        assert!(space < unpadded + CMSG_ALIGN_UNIT);
        assert_eq!(m.len(), unpadded);
    }
}

#[test]
fn timestamp_exact_bytes() {
    let msgs = vec![ControlMessage::ScmTimestamp(TimeVal { tv_sec: 1, tv_usec: 2 })];
    let buf = encode_cmsgs(&msgs);
    let mut expected = vec![32u8, 0, 0, 0, 0, 0, 0, 0]; // total length 32, little-endian
    expected.extend_from_slice(&[1, 0, 0, 0]); // level: socket layer
    expected.extend_from_slice(&[29, 0, 0, 0]); // type: timestamp
    expected.extend_from_slice(&[1, 0, 0, 0, 0, 0, 0, 0]); // seconds
    expected.extend_from_slice(&[2, 0, 0, 0, 0, 0, 0, 0]); // microseconds
    assert_eq!(buf, expected);
}

#[test]
fn rights_exact_bytes() {
    let msgs = vec![ControlMessage::ScmRights(vec![5, 6])];
    let buf = encode_cmsgs(&msgs);
    let mut expected = vec![24u8, 0, 0, 0, 0, 0, 0, 0]; // total length 24
    expected.extend_from_slice(&[1, 0, 0, 0]); // level: socket layer
    expected.extend_from_slice(&[1, 0, 0, 0]); // type: rights
    expected.extend_from_slice(&[5, 0, 0, 0]); // first handle
    expected.extend_from_slice(&[6, 0, 0, 0]); // second handle
    assert_eq!(buf, expected);
}

#[test]
fn negative_fd_representation() {
    let msgs = vec![ControlMessage::ScmRights(vec![-1])];
    let buf = encode_cmsgs(&msgs);
    assert_eq!(&buf[16..20], &[0xff, 0xff, 0xff, 0xff]);
    let decoded = collect(&buf);
    assert_eq!(decoded, msgs);
}

#[test]
fn first_message_unpadded_length_fills_buffer() {
    // One rights message with a single handle: total length 20, which is
    // not a multiple of the alignment unit, and the buffer is exactly
    // those 20 bytes.
    let msgs = vec![ControlMessage::ScmRights(vec![5])];
    let buf = encode_cmsgs(&msgs);
    assert_eq!(buf.len(), 20);
    let decoded = collect(&buf);
    assert_eq!(decoded, msgs);
}

#[test]
fn second_header_at_unpadded_boundary() {
    // The second record starts at the first record's unpadded length (20),
    // not at the next aligned offset (24).
    let msgs = vec![
        ControlMessage::ScmRights(vec![5]),
        ControlMessage::Unknown(UnknownCmsg { cmsg_level: 3, cmsg_type: 4, data: vec![8] }),
    ];
    let buf = encode_cmsgs(&msgs);
    assert_eq!(buf[20], 17); // the second header's length field stands at offset 20
    let decoded = collect(&buf);
    assert_eq!(decoded, msgs);
}

#[test]
fn malformed_second_header_stops_decode() {
    // A declared total length shorter than one header ends the sequence.
    let mut buf = encode_cmsgs(&vec![ControlMessage::ScmRights(vec![5])]);
    buf.extend_from_slice(&[8, 0, 0, 0, 0, 0, 0, 0]); // bogus length 8 < 16
    buf.extend_from_slice(&[0u8; 8]);
    let decoded = collect(&buf);
    assert_eq!(decoded.len(), 1);
}

#[test]
fn overlong_declared_length_stops_decode() {
    // A declared total length past the buffer end ends the sequence.
    let mut buf = vec![200u8, 0, 0, 0, 0, 0, 0, 0]; // claims 200 bytes
    buf.extend_from_slice(&[1, 0, 0, 0, 1, 0, 0, 0]);
    buf.extend_from_slice(&[0u8; 16]);
    let decoded = collect(&buf);
    assert_eq!(decoded.len(), 0);
}

#[test]
fn truncation_at_every_offset_is_safe() {
    let msgs = vec![
        ControlMessage::ScmRights(vec![5, 6, 7]),
        ControlMessage::Unknown(UnknownCmsg { cmsg_level: 7, cmsg_type: 9, data: vec![1, 2, 3] }),
        ControlMessage::ScmTimestamp(TimeVal { tv_sec: -3, tv_usec: 11 }),
    ];
    let buf = encode_cmsgs(&msgs);
    for cut in 0..=buf.len() {
        let decoded = collect(&buf[..cut]);
        assert!(decoded.len() <= msgs.len());
        if cut == buf.len() {
            assert_eq!(decoded, msgs);
        }
    }
}

#[test]
fn unknown_preserved_and_reencodes_to_same_bytes() {
    let msgs = vec![ControlMessage::Unknown(UnknownCmsg {
        cmsg_level: 3,
        cmsg_type: 4,
        data: vec![9, 8, 7, 6, 5],
    })];
    let buf = encode_cmsgs(&msgs);
    let decoded = collect(&buf);
    assert_eq!(decoded, msgs);
    match &decoded[0] {
        ControlMessage::Unknown(u) => {
            assert_eq!(u.cmsg_level, 3);
            assert_eq!(u.cmsg_type, 4);
            assert_eq!(u.data, vec![9, 8, 7, 6, 5]);
        },
        _ => panic!("wrong variant"),
    }
    let reencoded = encode_cmsgs(&decoded);
    assert_eq!(reencoded, buf);
}

#[test]
fn empty_list_encodes_to_empty_buffer() {
    let buf = encode_cmsgs(&Vec::new());
    assert_eq!(buf.len(), 0);
    let decoded = collect(&buf);
    assert_eq!(decoded.len(), 0);
}

#[test]
fn iterator_is_not_restartable() {
    let msgs = vec![ControlMessage::ScmRights(vec![5])];
    let buf = encode_cmsgs(&msgs);
    let mut it = CmsgIterator::new(&buf);
    assert!(it.next().is_some());
    assert!(it.next().is_none());
    assert!(it.next().is_none());
}

#[test]
fn cmsg_level_and_type_constants() {
    assert_eq!(SOL_SOCKET, libc::SOL_SOCKET);
    assert_eq!(SCM_RIGHTS, libc::SCM_RIGHTS);
    assert_eq!(SCM_TIMESTAMP, libc::SCM_TIMESTAMP);
    assert_eq!(CMSG_HDR_LEN, std::mem::size_of::<libc::cmsghdr>());
    assert_eq!(CMSG_ALIGN_UNIT, std::mem::size_of::<libc::size_t>());
}

#[test]
fn rights_payload_with_trailing_fragment() {
    // A rights record whose payload is not a whole number of handles:
    // declared length 22 leaves a two-byte fragment after one handle,
    // which the decoder ignores.
    let mut buf = vec![22u8, 0, 0, 0, 0, 0, 0, 0];
    buf.extend_from_slice(&[1, 0, 0, 0]); // level: socket layer
    buf.extend_from_slice(&[1, 0, 0, 0]); // type: rights
    buf.extend_from_slice(&[7, 0, 0, 0]); // one whole handle
    buf.extend_from_slice(&[1, 2]); // fragment
    let decoded = collect(&buf);
    assert_eq!(decoded, vec![ControlMessage::ScmRights(vec![7])]);
}

#[test]
fn timestamp_with_wrong_payload_size_stays_unknown() {
    // A record carrying the timestamp (level, type) pair but a payload of
    // the wrong size is kept verbatim instead of being misread as a time
    // value.
    let mut buf = vec![20u8, 0, 0, 0, 0, 0, 0, 0];
    buf.extend_from_slice(&[1, 0, 0, 0]); // level: socket layer
    buf.extend_from_slice(&[29, 0, 0, 0]); // type: timestamp
    buf.extend_from_slice(&[1, 2, 3, 4]); // four bytes, not sixteen
    let decoded = collect(&buf);
    assert_eq!(
        decoded,
        vec![ControlMessage::Unknown(UnknownCmsg {
            cmsg_level: 1,
            cmsg_type: 29,
            data: vec![1, 2, 3, 4],
        })]
    );
}
