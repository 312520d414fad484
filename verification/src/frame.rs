//! The length-prefixed frames of the stream transport.
//!
//! A frame is eight header bytes and a body: the op code and the body's length
//! in bytes, each as four little-endian bytes, then the body as JSON text.

use crate::json::{json_parse, json_text, Json, JsonModel, MAX_PARSE_DEPTH};
use crate::text::{i128_to_text, signed_decimal_text};
use vstd::prelude::*;
use vstd::slice::*;
use vstd::string::*;
use vstd::utf8::*;

verus! {

/// What a frame is for.
#[derive(Debug, Clone, Copy, PartialEq, Eq, Structural)]
pub enum IpcOp {
    Handshake,
    Frame,
    Close,
    Ping,
    Pong,
}

impl IpcOp {
    /// The number that stands for the op on the wire.
    pub open spec fn code(self) -> u32 {
        match self {
            IpcOp::Handshake => 0,
            IpcOp::Frame => 1,
            IpcOp::Close => 2,
            IpcOp::Ping => 3,
            IpcOp::Pong => 4,
        }
    }

    /// The op that a wire number stands for.
    pub open spec fn of_code(code: int) -> Option<IpcOp> {
        if code == 0 {
            Some(IpcOp::Handshake)
        } else if code == 1 {
            Some(IpcOp::Frame)
        } else if code == 2 {
            Some(IpcOp::Close)
        } else if code == 3 {
            Some(IpcOp::Ping)
        } else if code == 4 {
            Some(IpcOp::Pong)
        } else {
            None
        }
    }

    pub fn to_code(self) -> (r: u32)
        ensures
            r == self.code(),
            IpcOp::of_code(r as int) == Some(self),
    {
        match self {
            IpcOp::Handshake => 0,
            IpcOp::Frame => 1,
            IpcOp::Close => 2,
            IpcOp::Ping => 3,
            IpcOp::Pong => 4,
        }
    }

    pub fn from_code(code: i32) -> (r: Option<IpcOp>)
        ensures
            r == IpcOp::of_code(code as int),
            r is Some <==> 0 <= code <= 4,
    {
        if code == 0 {
            Some(IpcOp::Handshake)
        } else if code == 1 {
            Some(IpcOp::Frame)
        } else if code == 2 {
            Some(IpcOp::Close)
        } else if code == 3 {
            Some(IpcOp::Ping)
        } else if code == 4 {
            Some(IpcOp::Pong)
        } else {
            None
        }
    }
}

/// Why a buffer is no frame.
#[derive(Debug)]
pub enum FrameError {
    /// Fewer than eight bytes, or fewer body bytes than the header declares.
    TooSmall,
    /// The op code is none of 0 to 4.
    InvalidOp(i32),
    /// The body is not JSON.
    Json(serde_json::Error),
}

impl FrameError {
    /// The line that describes the error. For a body that is not JSON it
    /// ends with the reader's own account of what is wrong.
    pub fn message(&self) -> (r: String)
        ensures
            match self {
                FrameError::TooSmall => r@ == "buffer too small"@,
                FrameError::InvalidOp(n) => r@ == "invalid op code "@ + signed_decimal_text(
                    *n as int,
                ),
                FrameError::Json(_) => exists|detail: Seq<char>|
                    r@ == "json error: "@ + detail,
            },
    {
        match self {
            FrameError::TooSmall => "buffer too small".to_owned(),
            FrameError::InvalidOp(n) => {
                let mut r = "invalid op code ".to_owned();
                r.append(i128_to_text(*n as i128).as_str());
                r
            },
            FrameError::Json(e) => {
                let mut r = "json error: ".to_owned();
                let detail = json_error_text(e);
                r.append(detail.as_str());
                assert(r@ == "json error: "@ + detail@);
                r
            },
        }
    }
}

/// The kind of a [`FrameError`], without the reader's own account of a JSON error.
pub ghost enum FrameFault {
    TooSmall,
    InvalidOp(i32),
    Json,
}

impl View for FrameError {
    type V = FrameFault;

    open spec fn view(&self) -> FrameFault {
        match self {
            FrameError::TooSmall => FrameFault::TooSmall,
            FrameError::InvalidOp(n) => FrameFault::InvalidOp(*n),
            FrameError::Json(_) => FrameFault::Json,
        }
    }
}

/// A decoded frame.
#[derive(Debug, PartialEq)]
pub struct RawFrame<T = Json> {
    pub op: IpcOp,
    pub body: T,
}

impl<T> RawFrame<T> {
    /// The frame with `f` applied to its body.
    pub fn map<U, F: FnOnce(T) -> U>(self, f: F) -> (r: RawFrame<U>)
        requires
            f.requires((self.body,)),
        ensures
            r.op == self.op,
            f.ensures((self.body,), r.body),
    {
        RawFrame { op: self.op, body: f(self.body) }
    }
}

/// The four little-endian bytes of `x`.
pub open spec fn u32_le_bytes(x: u32) -> Seq<u8> {
    seq![
        (x % 256) as u8,
        ((x / 256) % 256) as u8,
        ((x / 65536) % 256) as u8,
        (x / 16777216) as u8,
    ]
}

/// The number whose little-endian bytes are the four bytes of `buf` from `at` on.
pub open spec fn u32_le_at(buf: Seq<u8>, at: int) -> u32
    recommends
        0 <= at,
        at + 4 <= buf.len(),
{
    (buf[at] as int + 256 * (buf[at + 1] as int) + 65536 * (buf[at + 2] as int) + 16777216 * (
    buf[at + 3] as int)) as u32
}

/// A 32-bit pattern read as a signed number.
pub open spec fn as_signed(x: u32) -> i32 {
    if x < 0x8000_0000 {
        x as i32
    } else {
        (x - 0x1_0000_0000) as i32
    }
}

/// The length field written for a body of `len` bytes: `len` itself while four bytes hold it.
pub open spec fn length_field(len: nat) -> u32 {
    (len % 0x1_0000_0000) as u32
}

/// The bytes of the frame with the given op and body.
pub open spec fn frame_bytes(op: IpcOp, body: Seq<u8>) -> Seq<u8> {
    u32_le_bytes(op.code()) + u32_le_bytes(length_field(body.len())) + body
}

/// What decoding makes of a buffer.
pub open spec fn decode_spec(buf: Seq<u8>) -> Result<(IpcOp, JsonModel), FrameFault> {
    if buf.len() < 8 {
        Err(FrameFault::TooSmall)
    } else {
        let code = as_signed(u32_le_at(buf, 0));
        let len = u32_le_at(buf, 4);
        match IpcOp::of_code(code as int) {
            None => Err(FrameFault::InvalidOp(code)),
            Some(op) => if buf.len() - 8 < len {
                Err(FrameFault::TooSmall)
            } else {
                match json_parse(buf.subrange(8, 8 + len)) {
                    Some(body) => Ok((op, body)),
                    None => Err(FrameFault::Json),
                }
            },
        }
    }
}

/// A number is the sum of its four bytes, each at its place.
proof fn lemma_u32_bytes(x: u32)
    ensures
        x % 256 + 256 * ((x / 256) % 256) + 65536 * ((x / 65536) % 256) + 16777216 * (x / 16777216)
            == x,
        x / 16777216 < 256,
{
    assert(x % 256 + 256 * ((x / 256) % 256) + 65536 * ((x / 65536) % 256) + 16777216 * (x
        / 16777216) == x && x / 16777216 < 256) by (bit_vector);
}

/// Reading back the four bytes written for a number gives the number.
pub proof fn lemma_u32_le_round_trip(x: u32, before: Seq<u8>, after: Seq<u8>)
    ensures
        u32_le_bytes(x).len() == 4,
        u32_le_at(before + u32_le_bytes(x) + after, before.len() as int) == x,
{
    let bytes = u32_le_bytes(x);
    let buf = before + bytes + after;
    let at = before.len() as int;
    assert(buf[at] == bytes[0]);
    assert(buf[at + 1] == bytes[1]);
    assert(buf[at + 2] == bytes[2]);
    assert(buf[at + 3] == bytes[3]);
    lemma_u32_bytes(x);
    assert(bytes[0] as int == x % 256);
    assert(bytes[1] as int == (x / 256) % 256);
    assert(bytes[2] as int == (x / 65536) % 256);
    assert(bytes[3] as int == x / 16777216);
}

/// A buffer shorter than a header is too small, whatever it holds.
pub proof fn lemma_short_buffer_is_too_small(buf: Seq<u8>)
    requires
        buf.len() < 8,
    ensures
        decode_spec(buf) == Err::<(IpcOp, JsonModel), FrameFault>(FrameFault::TooSmall),
{
}

/// Decoding a frame that was written for an op and a body gives back the op
/// and whatever the body's bytes spell, as long as four bytes hold the body's
/// length. Bytes that follow the frame change nothing.
pub proof fn lemma_frame_round_trip(op: IpcOp, body: Seq<u8>, rest: Seq<u8>)
    requires
        body.len() <= u32::MAX,
    ensures
        decode_spec(frame_bytes(op, body) + rest) == match json_parse(body) {
            Some(m) => Ok::<(IpcOp, JsonModel), FrameFault>((op, m)),
            None => Err(FrameFault::Json),
        },
{
    let buf = frame_bytes(op, body) + rest;
    let len = length_field(body.len());
    lemma_u32_le_round_trip(op.code(), Seq::empty(), u32_le_bytes(len) + body + rest);
    lemma_u32_le_round_trip(len, u32_le_bytes(op.code()), body + rest);
    assert(buf =~= Seq::<u8>::empty() + u32_le_bytes(op.code()) + (u32_le_bytes(len) + body
        + rest));
    assert(buf =~= u32_le_bytes(op.code()) + u32_le_bytes(len) + (body + rest));
    assert(buf.subrange(8, 8 + len) =~= body);
}

/// Appends the four little-endian bytes of `x`.
fn push_u32_le(out: &mut Vec<u8>, x: u32)
    ensures
        final(out)@ == old(out)@ + u32_le_bytes(x),
{
    out.push((x % 256) as u8);
    out.push(((x / 256) % 256) as u8);
    out.push(((x / 65536) % 256) as u8);
    out.push((x / 16777216) as u8);
    assert(out@ =~= old(out)@ + u32_le_bytes(x));
}

/// Reads four little-endian bytes.
fn read_u32_le(buf: &[u8], at: usize) -> (x: u32)
    requires
        at + 4 <= buf@.len(),
    ensures
        x == u32_le_at(buf@, at as int),
{
    let b0: u32 = buf[at] as u32;
    let b1: u32 = buf[at + 1] as u32;
    let b2: u32 = buf[at + 2] as u32;
    let b3: u32 = buf[at + 3] as u32;
    b0 + 256 * b1 + 65536 * b2 + 16777216 * b3
}

/// Writes the frame for an op and a body.
///
/// A body of 4 GiB or more does not fit the length field, which then holds
/// the length's low 32 bits.
pub fn encode_frame(op: IpcOp, body: &Json) -> (out: Vec<u8>)
    ensures
        out@ == frame_bytes(op, encode_utf8(json_text(body@))),
        body@.within_depth(MAX_PARSE_DEPTH as nat) && encode_utf8(json_text(body@)).len()
            <= u32::MAX ==> decode_spec(out@) == Ok::<(IpcOp, JsonModel), FrameFault>(
            (op, body@),
        ),
{
    let json = body.to_bytes();
    let len: u64 = json.len() as u64;
    let field: u32 = (len % 0x1_0000_0000) as u32;
    let mut out: Vec<u8> = Vec::new();
    push_u32_le(&mut out, op.to_code());
    push_u32_le(&mut out, field);
    let mut i: usize = 0;
    while i < json.len()
        invariant
            i <= json.len(),
            out@ == u32_le_bytes(op.code()) + u32_le_bytes(field) + json@.take(i as int),
        decreases json.len() - i,
    {
        out.push(json[i]);
        assert(json@.take(i as int).push(json@[i as int]) =~= json@.take(i + 1));
        i += 1;
    }
    assert(json@.take(json.len() as int) =~= json@);
    proof {
        if json@.len() <= u32::MAX {
            lemma_frame_round_trip(op, json@, Seq::empty());
            assert(out@ + Seq::<u8>::empty() =~= out@);
        }
    }
    out
}

/// Reads the frame at the start of `buf`.
///
/// Exactly the declared number of body bytes is read: what follows them in
/// `buf` is not looked at.
pub fn decode_frame(buf: &[u8]) -> (r: Result<RawFrame, FrameError>)
    ensures
        match r {
            Ok(f) => decode_spec(buf@) == Ok::<(IpcOp, JsonModel), FrameFault>((f.op, f.body@)),
            Err(e) => decode_spec(buf@) == Err::<(IpcOp, JsonModel), FrameFault>(e@),
        },
        buf@.len() < 8 ==> r is Err && r->Err_0 is TooSmall,
{
    if buf.len() < 8 {
        return Err(FrameError::TooSmall);
    }
    let raw_op = read_u32_le(buf, 0);
    let len = read_u32_le(buf, 4);
    let code: i32 = if raw_op < 0x8000_0000 {
        raw_op as i32
    } else {
        ((raw_op - 0x8000_0000) as i32) - 0x7fff_ffff - 1
    };
    let op = match IpcOp::from_code(code) {
        Some(op) => op,
        None => {
            return Err(FrameError::InvalidOp(code));
        },
    };
    if ((buf.len() - 8) as u64) < len as u64 {
        return Err(FrameError::TooSmall);
    }
    let body = slice_subrange(buf, 8, 8 + len as usize);
    match Json::parse_bytes(body) {
        Ok(v) => Ok(RawFrame { op, body: v }),
        Err(e) => Err(FrameError::Json(e)),
    }
}

/// `ToString::to_string` on a `serde_json::Error`: the reader's account of
/// the error. Nothing is assumed of the text.
#[verifier::external_body]
fn json_error_text(e: &serde_json::Error) -> (r: String) {
    e.to_string()
}

} // verus!
