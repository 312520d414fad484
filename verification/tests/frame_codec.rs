use drpc::frame::{decode_frame, encode_frame, FrameError, IpcOp, RawFrame};
use drpc::json::Json;

fn obj(entries: Vec<(&str, Json)>) -> Json {
    Json::Object(entries.into_iter().map(|(k, v)| (k.to_string(), v)).collect())
}

#[test]
fn round_trip() {
    let body = obj(vec![("a", Json::uint(1))]);
    let buf = encode_frame(IpcOp::Ping, &body);
    let decoded = decode_frame(&buf).unwrap();
    assert_eq!(decoded.op as i32, IpcOp::Ping as i32);
    assert_eq!(decoded.body, body);
}

#[test]
fn invalid_op() {
    let mut buf = encode_frame(IpcOp::Pong, &obj(vec![]));
    buf[0..4].copy_from_slice(&99i32.to_le_bytes());
    let err = decode_frame(&buf).unwrap_err();
    assert!(matches!(err, FrameError::InvalidOp(99)));
}

#[test]
fn truncated() {
    let body = obj(vec![("k", Json::Bool(true))]);
    let mut buf = encode_frame(IpcOp::Frame, &body);
    buf.pop();
    let err = decode_frame(&buf).unwrap_err();
    assert!(matches!(err, FrameError::TooSmall));
}

#[test]
fn header_is_op_then_length_little_endian() {
    let buf = encode_frame(IpcOp::Frame, &obj(vec![("a", Json::uint(1))]));
    assert_eq!(&buf[0..4], &[1, 0, 0, 0]);
    assert_eq!(&buf[4..8], &[7, 0, 0, 0]);
    assert_eq!(&buf[8..], b"{\"a\":1}");
}

#[test]
fn every_op_round_trips() {
    let ops = [IpcOp::Handshake, IpcOp::Frame, IpcOp::Close, IpcOp::Ping, IpcOp::Pong];
    for (code, op) in ops.iter().enumerate() {
        let body = Json::Array(vec![Json::Null, Json::string("x"), Json::signed(-5)]);
        let buf = encode_frame(*op, &body);
        assert_eq!(buf[0] as usize, code);
        let decoded = decode_frame(&buf).unwrap();
        assert_eq!(decoded.op, *op);
        assert_eq!(decoded.body, body);
        assert_eq!(op.to_code() as usize, code);
        assert_eq!(IpcOp::from_code(code as i32), Some(*op));
    }
    assert_eq!(IpcOp::from_code(5), None);
    assert_eq!(IpcOp::from_code(-1), None);
}

#[test]
fn short_buffers_are_too_small() {
    let full = encode_frame(IpcOp::Ping, &obj(vec![]));
    for n in 0..8 {
        let err = decode_frame(&full[..n]).unwrap_err();
        assert!(matches!(err, FrameError::TooSmall), "length {n}");
    }
    assert!(matches!(decode_frame(&[0xff; 7]).unwrap_err(), FrameError::TooSmall));
}

#[test]
fn negative_op_is_invalid() {
    let mut buf = encode_frame(IpcOp::Ping, &obj(vec![]));
    buf[0..4].copy_from_slice(&(-1i32).to_le_bytes());
    assert!(matches!(decode_frame(&buf).unwrap_err(), FrameError::InvalidOp(-1)));
}

#[test]
fn invalid_op_is_reported_before_a_short_body() {
    let mut buf = encode_frame(IpcOp::Ping, &obj(vec![("a", Json::uint(1))]));
    buf[0] = 9;
    buf.truncate(9);
    assert!(matches!(decode_frame(&buf).unwrap_err(), FrameError::InvalidOp(9)));
}

#[test]
fn body_that_is_no_json_is_a_json_error() {
    let mut buf = vec![1, 0, 0, 0, 3, 0, 0, 0];
    buf.extend_from_slice(b"{x}");
    let err = decode_frame(&buf).unwrap_err();
    assert!(matches!(err, FrameError::Json(_)));
    assert!(err.message().starts_with("json error: "));
}

#[test]
fn trailing_bytes_are_not_read() {
    let mut buf = encode_frame(IpcOp::Frame, &obj(vec![("a", Json::uint(1))]));
    buf.extend_from_slice(b"garbage that is no json");
    let decoded = decode_frame(&buf).unwrap();
    assert_eq!(decoded.body, obj(vec![("a", Json::uint(1))]));
}

#[test]
fn declared_length_beyond_the_buffer_is_too_small() {
    let mut buf = vec![1, 0, 0, 0, 0xff, 0xff, 0xff, 0xff];
    buf.extend_from_slice(b"{}");
    assert!(matches!(decode_frame(&buf).unwrap_err(), FrameError::TooSmall));
}

#[test]
fn error_messages() {
    assert_eq!(FrameError::TooSmall.message(), "buffer too small");
    assert_eq!(FrameError::InvalidOp(99).message(), "invalid op code 99");
}

#[test]
fn map_keeps_the_op() {
    let frame = RawFrame { op: IpcOp::Pong, body: 20u32 };
    let mapped = frame.map(|n| n + 1);
    assert_eq!(mapped.op, IpcOp::Pong);
    assert_eq!(mapped.body, 21);
}
