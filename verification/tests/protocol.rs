use ssimulacra2::protocol::{
    encode_request, end_of_input, read_request, Field, ProtocolError, ReadOutcome, Request, HEADER_LEN,
    MAX_PAYLOAD,
};

fn header(tag: u8, w: u32, h: u32, fmt: u8, len: u32) -> Vec<u8> {
    let mut v = vec![tag];
    v.extend_from_slice(&w.to_le_bytes());
    v.extend_from_slice(&h.to_le_bytes());
    v.push(fmt);
    v.extend_from_slice(&len.to_le_bytes());
    v
}

#[test]
fn request_read_back_after_encode() {
    let payload = vec![1u8, 2, 3, 4, 5, 6];
    let bytes = encode_request(b'R', 1, 2, 0, &payload);
    assert_eq!(bytes.len(), HEADER_LEN + payload.len());
    let got = read_request(&bytes).unwrap();
    assert_eq!(
        got,
        ReadOutcome::Complete(
            Request { tag: b'R', width: 1, height: 2, fmt: 0, payload },
            HEADER_LEN + 6
        )
    );
}

#[test]
fn encoding_is_little_endian() {
    let bytes = encode_request(b'S', 0x0102_0304, 0x0a0b_0c0d, 2, &[9, 8]);
    assert_eq!(
        bytes,
        vec![b'S', 4, 3, 2, 1, 0x0d, 0x0c, 0x0b, 0x0a, 2, 2, 0, 0, 0, 9, 8]
    );
}

#[test]
fn little_endian_fields_are_decoded() {
    let mut bytes = header(b'S', 0x0102_0304, 7, 2, 0);
    bytes.push(0xee);
    match read_request(&bytes).unwrap() {
        ReadOutcome::Complete(req, used) => {
            assert_eq!(req.width, 0x0102_0304);
            assert_eq!(req.height, 7);
            assert_eq!(req.fmt, 2);
            assert!(req.payload.is_empty());
            assert_eq!(used, HEADER_LEN);
        }
        other => panic!("unexpected {other:?}"),
    }
}

#[test]
fn reader_asks_for_the_rest_of_each_field() {
    let full = encode_request(b'R', 3, 4, 0, &[7, 7, 7]);
    let expect = [
        (0, Field::Tag, 1),
        (1, Field::Width, 4),
        (3, Field::Width, 2),
        (5, Field::Height, 4),
        (9, Field::PixFmt, 1),
        (10, Field::Len, 4),
        (13, Field::Len, 1),
        (14, Field::Payload, 3),
        (16, Field::Payload, 1),
    ];
    for (n, field, more) in expect {
        assert_eq!(
            read_request(&full[..n]).unwrap(),
            ReadOutcome::NeedMore(field, more),
            "prefix of {n} bytes"
        );
    }
}

#[test]
fn oversized_length_is_rejected_before_the_payload() {
    let bytes = header(b'R', 1, 1, 0, MAX_PAYLOAD + 1);
    assert_eq!(
        read_request(&bytes),
        Err(ProtocolError::PayloadTooLarge(MAX_PAYLOAD + 1))
    );
    let bytes = header(b'R', 1, 1, 0, u32::MAX);
    assert_eq!(read_request(&bytes), Err(ProtocolError::PayloadTooLarge(u32::MAX)));
    let bytes = header(b'R', 1, 1, 0, MAX_PAYLOAD);
    assert_eq!(
        read_request(&bytes).unwrap(),
        ReadOutcome::NeedMore(Field::Payload, MAX_PAYLOAD as usize)
    );
}

#[test]
fn trailing_bytes_belong_to_the_next_request() {
    let mut bytes = encode_request(b'S', 2, 1, 0, &[1, 2, 3, 4, 5, 6]);
    let first_len = bytes.len();
    bytes.extend(encode_request(b'R', 9, 9, 1, &[0xff]));
    match read_request(&bytes).unwrap() {
        ReadOutcome::Complete(req, used) => {
            assert_eq!(used, first_len);
            assert_eq!(req.tag, b'S');
            assert_eq!(req.payload, vec![1, 2, 3, 4, 5, 6]);
            match read_request(&bytes[used..]).unwrap() {
                ReadOutcome::Complete(next, _) => {
                    assert_eq!(next.tag, b'R');
                    assert_eq!((next.width, next.height, next.fmt), (9, 9, 1));
                    assert_eq!(next.payload, vec![0xff]);
                }
                other => panic!("unexpected {other:?}"),
            }
        }
        other => panic!("unexpected {other:?}"),
    }
}

#[test]
fn end_of_stream_is_clean_only_between_requests() {
    assert_eq!(end_of_input(&[]), Ok(()));
    let full = encode_request(b'R', 3, 4, 0, &[7, 7, 7]);
    let expect = [
        (1, Field::Width),
        (4, Field::Width),
        (5, Field::Height),
        (9, Field::PixFmt),
        (12, Field::Len),
        (14, Field::Payload),
        (16, Field::Payload),
    ];
    for (n, field) in expect {
        assert_eq!(end_of_input(&full[..n]), Err(ProtocolError::Truncated(field)), "after {n} bytes");
    }
}
