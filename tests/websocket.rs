use gust::websocket::{
    encode_close, encode_frame, encode_ping, encode_text, generate_accept_key, is_websocket_upgrade,
    CloseFrame, Frame, Opcode, WebSocket,
};

#[test]
fn websocket_test_accept_key() {
    let key = "dGhlIHNhbXBsZSBub25jZQ==";
    let accept = generate_accept_key(key);
    assert_eq!(accept, "s3pPLMBiTxaQ9kYGzzhZRbK+xOo=");
}

#[test]
fn test_frame_encode_decode() {
    let original = Frame::text("Hello, World!");
    let encoded = original.encode();
    let (decoded, _) = Frame::decode(&encoded).unwrap();

    assert_eq!(decoded.opcode, Opcode::Text);
    assert_eq!(decoded.payload, b"Hello, World!");
}

#[test]
fn test_close_frame() {
    let frame = Frame::close(1000, "Normal");
    let encoded = frame.encode();
    let (decoded, _) = Frame::decode(&encoded).unwrap();

    assert_eq!(decoded.opcode, Opcode::Close);
    assert_eq!(&decoded.payload[0..2], &[0x03, 0xE8]);
}

#[test]
fn test_encode_text() {
    let frame = encode_text("Hello", true);
    assert_eq!(frame[0], 0x81);
    assert_eq!(frame[1], 5);
    assert_eq!(&frame[2..], b"Hello");
}

#[test]
fn masked_frame_round_trip() {
    let f = Frame { fin: false, opcode: Opcode::Binary, mask: Some([1, 2, 3, 4]), payload: vec![10, 20, 30, 40, 50] };
    let bytes = f.encode();
    assert_eq!(bytes[0], 0x02);
    assert_eq!(bytes[1], 0x80 | 5);
    assert_eq!(&bytes[2..6], &[1, 2, 3, 4]);
    assert_eq!(bytes[6], 10 ^ 1);
    let (d, n) = Frame::decode(&bytes).unwrap();
    assert_eq!(n, bytes.len());
    assert!(!d.fin);
    assert_eq!(d.mask, Some([1, 2, 3, 4]));
    assert_eq!(d.payload, vec![10, 20, 30, 40, 50]);
}

#[test]
fn long_payload_lengths() {
    let p = vec![7u8; 300];
    let bytes = encode_frame(Opcode::Binary, &p, true);
    assert_eq!(&bytes[..4], &[0x82, 126, 0x01, 0x2C]);
    let (d, n) = Frame::decode(&bytes).unwrap();
    assert_eq!(n, 304);
    assert_eq!(d.payload.len(), 300);
    let big = vec![1u8; 70000];
    let bytes = encode_frame(Opcode::Binary, &big, true);
    assert_eq!(&bytes[..10], &[0x82, 127, 0, 0, 0, 0, 0, 0x01, 0x11, 0x70]);
    assert_eq!(Frame::decode(&bytes).unwrap().1, 70010);
}

#[test]
fn decode_rejects_short_or_bad() {
    assert!(Frame::decode(&[0x81]).is_none());
    assert!(Frame::decode(&[0x83, 0]).is_none());
    assert!(Frame::decode(&[0x81, 5, b'H']).is_none());
    assert!(Frame::decode(&[0x81, 126, 0]).is_none());
}

#[test]
fn opcode_values() {
    assert_eq!(Opcode::from_u8(0x81), Some(Opcode::Text));
    assert_eq!(Opcode::from_u8(0x0A), Some(Opcode::Pong));
    assert_eq!(Opcode::from_u8(0x03), None);
    assert_eq!(Opcode::Close.as_u8(), 8);
}

#[test]
fn close_and_ping_encoders() {
    assert_eq!(encode_close(Some(1000), Some("bye")), vec![0x88, 5, 0x03, 0xE8, b'b', b'y', b'e']);
    assert_eq!(encode_close(Some(1001), None), vec![0x88, 2, 0x03, 0xE9]);
    assert_eq!(encode_close(None, Some("x")), vec![0x88, 0]);
    assert_eq!(encode_ping(b"p"), vec![0x89, 1, b'p']);
    let c = CloseFrame::going_away();
    assert_eq!(c.code, 1001);
    assert_eq!(c.reason, "Going away");
}

#[test]
fn frame_queue() {
    let mut ws = WebSocket::new(3);
    ws.send_text("a");
    ws.ping(b"p");
    ws.close(1000, "");
    let frames = ws.take_frames();
    assert_eq!(frames.len(), 3);
    assert_eq!(frames[0].opcode, Opcode::Text);
    assert_eq!(frames[1].opcode, Opcode::Ping);
    assert_eq!(frames[2].payload, vec![0x03, 0xE8]);
    assert!(ws.take_frames().is_empty());
    assert_eq!(ws.id, 3);
}

#[test]
fn upgrade_headers() {
    let h = |v: &[(&str, &str)]| v.iter().map(|(a, b)| (a.to_string(), b.to_string())).collect::<Vec<_>>();
    let ok = h(&[
        ("Upgrade", "WebSocket"),
        ("Connection", "keep-alive, Upgrade"),
        ("Sec-WebSocket-Key", "abc"),
        ("Sec-WebSocket-Version", "13"),
    ]);
    assert!(is_websocket_upgrade(&ok));
    let no_version = h(&[("Upgrade", "websocket"), ("Connection", "upgrade"), ("Sec-WebSocket-Key", "abc")]);
    assert!(!is_websocket_upgrade(&no_version));
}
