use addr_protocol::{
    ClientToServerCodec, CodecError, IpAddress, Request, Response, ServerToClientCodec,
    SocketAddress,
};
use bytes::{BufMut, BytesMut};

fn addr(a: u8, b: u8, c: u8, d: u8, port: u16) -> SocketAddress {
    SocketAddress::new(IpAddress::v4(a, b, c, d), port)
}

fn sample_response() -> Response {
    Response {
        addrs: vec![addr(0, 1, 2, 3, 16222), addr(255, 1, 5, 22, 5888)],
    }
}

fn encoded(resp: Response) -> Vec<u8> {
    let mut buf = BytesMut::new();
    ServerToClientCodec.encode(resp, &mut buf).unwrap();
    buf.to_vec()
}

#[test]
fn client_to_server_request() {
    let mut buf = BytesMut::with_capacity(1024);
    let req = Request { num_addrs: 5 };
    ClientToServerCodec.encode(req, &mut buf).unwrap();

    let mut expected_buf = BytesMut::with_capacity(1024);
    expected_buf.put_u32_be(5);
    assert_eq!(&buf[..4], &expected_buf[..4]);
}

#[test]
fn client_to_server_response() {
    let mut buf = BytesMut::with_capacity(1024);
    buf.put_u32_be(2 * 6);
    buf.put_u8(0);
    buf.put_u8(1);
    buf.put_u8(2);
    buf.put_u8(3);
    buf.put_u16_be(16222);
    buf.put_u8(255);
    buf.put_u8(1);
    buf.put_u8(5);
    buf.put_u8(22);
    buf.put_u16_be(5888);

    let expected_resp = sample_response();
    match ClientToServerCodec.decode(&mut buf) {
        Ok(Some(resp)) => assert_eq!(resp, expected_resp),
        _ => assert!(false),
    };
}

#[test]
fn server_to_client_request() {
    let mut buf = BytesMut::with_capacity(1024);
    buf.put_slice(&[0, 0, 0, 5]);
    match ServerToClientCodec.decode(&mut buf) {
        Ok(Some(req)) => assert_eq!(req, Request { num_addrs: 5 }),
        _ => assert!(false),
    }
}

#[test]
fn server_to_client_response() {
    let mut buf = BytesMut::with_capacity(1024);
    ServerToClientCodec.encode(sample_response(), &mut buf).unwrap();

    let msg_len = 4 + 2 * 6;

    let mut expected_buf = BytesMut::with_capacity(1024);
    expected_buf.put_u32_be(2 * 6);
    expected_buf.put_u8(0);
    expected_buf.put_u8(1);
    expected_buf.put_u8(2);
    expected_buf.put_u8(3);
    expected_buf.put_u16_be(16222);
    expected_buf.put_u8(255);
    expected_buf.put_u8(1);
    expected_buf.put_u8(5);
    expected_buf.put_u8(22);
    expected_buf.put_u16_be(5888);
    assert_eq!(&buf[..msg_len], &expected_buf[..msg_len]);
}

#[test]
fn request_round_trip_edge_counts() {
    for n in [0u32, 1, 1024, 0x0102_0304, u32::MAX] {
        let mut buf = BytesMut::new();
        ClientToServerCodec.encode(Request { num_addrs: n }, &mut buf).unwrap();
        assert_eq!(buf.len(), 4);
        assert_eq!(ServerToClientCodec.decode(&mut buf), Ok(Some(Request { num_addrs: n })));
        assert!(buf.is_empty());
    }
}

#[test]
fn request_encoding_is_big_endian() {
    let mut buf = BytesMut::new();
    ClientToServerCodec.encode(Request { num_addrs: 0x0102_0304 }, &mut buf).unwrap();
    assert_eq!(&buf[..], &[1u8, 2, 3, 4][..]);
}

#[test]
fn request_encoding_appends_after_existing_bytes() {
    let mut buf = BytesMut::new();
    buf.extend_from_slice(&[9, 9]);
    ClientToServerCodec.encode(Request { num_addrs: 7 }, &mut buf).unwrap();
    assert_eq!(&buf[..], &[9u8, 9, 0, 0, 0, 7][..]);
}

#[test]
fn request_decoding_waits_for_four_bytes() {
    let mut buf = BytesMut::new();
    buf.extend_from_slice(&[0, 0, 1]);
    assert_eq!(ServerToClientCodec.decode(&mut buf), Ok(None));
    assert_eq!(&buf[..], &[0u8, 0, 1][..]);
    buf.extend_from_slice(&[2, 0xAA, 0xBB]);
    assert_eq!(ServerToClientCodec.decode(&mut buf), Ok(Some(Request { num_addrs: 258 })));
    assert_eq!(&buf[..], &[0xAAu8, 0xBB][..]);
}

#[test]
fn response_round_trip_keeps_order_and_duplicates() {
    let resp = Response {
        addrs: vec![
            addr(10, 0, 0, 1, 80),
            addr(192, 168, 1, 254, 65535),
            addr(10, 0, 0, 1, 80),
            addr(0, 0, 0, 0, 0),
        ],
    };
    let mut buf = BytesMut::new();
    ServerToClientCodec.encode(resp.clone(), &mut buf).unwrap();
    assert_eq!(buf.len(), 4 + 4 * 6);
    assert_eq!(ClientToServerCodec.decode(&mut buf), Ok(Some(resp)));
    assert!(buf.is_empty());
}

#[test]
fn empty_response_round_trip() {
    let bytes = encoded(Response { addrs: vec![] });
    assert_eq!(bytes, vec![0u8, 0, 0, 0]);
    let mut buf = BytesMut::from(&bytes[..]);
    assert_eq!(ClientToServerCodec.decode(&mut buf), Ok(Some(Response { addrs: vec![] })));
    assert!(buf.is_empty());
}

#[test]
fn concrete_response_frame_bytes() {
    let frame: [u8; 16] = [
        0x00, 0x00, 0x00, 0x0C, 0x00, 0x01, 0x02, 0x03, 0x3F, 0x5E, 0xFF, 0x01, 0x05, 0x16, 0x17,
        0x00,
    ];
    assert_eq!(encoded(sample_response()), frame.to_vec());
    let mut buf = BytesMut::from(&frame[..]);
    assert_eq!(ClientToServerCodec.decode(&mut buf), Ok(Some(sample_response())));
    assert!(buf.is_empty());
}

#[test]
fn response_split_at_every_boundary() {
    let frame = encoded(sample_response());
    for cut in 0..frame.len() {
        let mut buf = BytesMut::new();
        buf.extend_from_slice(&frame[..cut]);
        assert_eq!(ClientToServerCodec.decode(&mut buf), Ok(None));
        assert_eq!(&buf[..], &frame[..cut]);
        buf.extend_from_slice(&frame[cut..]);
        assert_eq!(ClientToServerCodec.decode(&mut buf), Ok(Some(sample_response())));
        assert!(buf.is_empty());
    }
}

#[test]
fn response_fed_byte_by_byte() {
    let frame = encoded(sample_response());
    let mut buf = BytesMut::new();
    for (i, b) in frame.iter().enumerate() {
        buf.extend_from_slice(&[*b]);
        let r = ClientToServerCodec.decode(&mut buf);
        if i + 1 < frame.len() {
            assert_eq!(r, Ok(None));
            assert_eq!(buf.len(), i + 1);
        } else {
            assert_eq!(r, Ok(Some(sample_response())));
        }
    }
    assert!(buf.is_empty());
}

#[test]
fn two_frames_in_one_buffer() {
    let second = Response { addrs: vec![addr(8, 8, 4, 4, 53)] };
    let mut buf = BytesMut::new();
    ServerToClientCodec.encode(sample_response(), &mut buf).unwrap();
    ServerToClientCodec.encode(second.clone(), &mut buf).unwrap();
    assert_eq!(ClientToServerCodec.decode(&mut buf), Ok(Some(sample_response())));
    assert_eq!(buf.len(), 4 + 6);
    assert_eq!(ClientToServerCodec.decode(&mut buf), Ok(Some(second)));
    assert!(buf.is_empty());
    assert_eq!(ClientToServerCodec.decode(&mut buf), Ok(None));
}

#[test]
fn payload_length_seven_is_rejected() {
    let bytes = [0u8, 0, 0, 7, 1, 2, 3, 4, 5, 6, 7];
    let mut buf = BytesMut::from(&bytes[..]);
    assert_eq!(ClientToServerCodec.decode(&mut buf), Err(CodecError::InvalidPayloadLength));
    assert_eq!(&buf[..], &bytes[..]);
}

#[test]
fn invalid_payload_length_rejected_before_payload_arrives() {
    let mut buf = BytesMut::from(&[0u8, 0, 0, 7][..]);
    assert_eq!(ClientToServerCodec.decode(&mut buf), Err(CodecError::InvalidPayloadLength));
}

#[test]
fn huge_announced_length_waits() {
    // 0xFFFFFFFC is a multiple of six.
    let mut buf = BytesMut::from(&[0xFFu8, 0xFF, 0xFF, 0xFC, 1, 2][..]);
    assert_eq!(ClientToServerCodec.decode(&mut buf), Ok(None));
    assert_eq!(buf.len(), 6);
}

#[test]
fn response_header_incomplete_waits() {
    let mut buf = BytesMut::from(&[0u8, 0, 0][..]);
    assert_eq!(ClientToServerCodec.decode(&mut buf), Ok(None));
    assert_eq!(buf.len(), 3);
}

#[test]
fn ipv6_address_is_refused_and_nothing_written() {
    let resp = Response {
        addrs: vec![
            addr(1, 2, 3, 4, 5),
            SocketAddress::new(IpAddress::V6(1), 443),
        ],
    };
    let mut buf = BytesMut::new();
    buf.extend_from_slice(&[42]);
    assert_eq!(
        ServerToClientCodec.encode(resp, &mut buf),
        Err(CodecError::UnsupportedAddressFamily)
    );
    assert_eq!(&buf[..], &[42u8][..]);
}

#[test]
fn ipv4_octets_order() {
    assert_eq!(IpAddress::v4(0, 1, 2, 3), IpAddress::V4(0x0001_0203));
    assert_eq!(IpAddress::v4(255, 1, 5, 22), IpAddress::V4(0xFF01_0516));
    assert!(IpAddress::v4(1, 1, 1, 1).is_ipv4());
    assert!(!IpAddress::V6(0).is_ipv4());
}

#[test]
fn responses_compare_by_addresses() {
    let a = sample_response();
    let mut b = sample_response();
    assert!(a == b);
    b.addrs[1].port = 5889;
    assert!(a != b);
    b.addrs.pop();
    assert!(a != b);
}
