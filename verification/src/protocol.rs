//! The frames that coordinator and worker exchange over their connection.
//!
//! A frame is laid out as the message type (1 byte), the sequence number (4), the worker's
//! compute time in microseconds (8), the number of dimensions (1), each dimension (4), the
//! element type (1), the length of the payload (8), and the payload. Numbers are big-endian.
use crate::be::{be_bytes, be_value, pow256_widths, push_be, read_be};
use crate::mlx_client::{Tensor, TensorView};
use crate::payload::{buf_from_vec, buf_len, buf_slice, contents, empty_buf, share_buf};
use crate::shape::{format_shape, is_shape, parse_shape, shape_dims, shape_text};
use crate::text::{digits, push_decimal};
use bytes::Bytes;
use vstd::prelude::*;

verus! {

/// The longest payload that a frame may announce: 64 MiB.
pub const MAX_PAYLOAD: usize = 67108864;

/// What a frame is for.
#[derive(Clone, Copy, PartialEq, Eq, Debug, Structural)]
pub enum MsgType {
    Prefill,
    DecodeStep,
    Logits,
    ResetCache,
    Info,
}

impl MsgType {
    /// The byte that stands for a message type on the wire.
    pub open spec fn spec_code(self) -> u8 {
        match self {
            MsgType::Prefill => 0,
            MsgType::DecodeStep => 1,
            MsgType::Logits => 2,
            MsgType::ResetCache => 3,
            MsgType::Info => 4,
        }
    }

    /// The message type that a byte stands for.
    pub open spec fn of_code(byte: u8) -> Option<MsgType> {
        if byte == 0 {
            Some(MsgType::Prefill)
        } else if byte == 1 {
            Some(MsgType::DecodeStep)
        } else if byte == 2 {
            Some(MsgType::Logits)
        } else if byte == 3 {
            Some(MsgType::ResetCache)
        } else if byte == 4 {
            Some(MsgType::Info)
        } else {
            None
        }
    }

    /// The name of the message type.
    pub open spec fn spec_name(self) -> Seq<char> {
        match self {
            MsgType::Prefill => "Prefill"@,
            MsgType::DecodeStep => "DecodeStep"@,
            MsgType::Logits => "Logits"@,
            MsgType::ResetCache => "ResetCache"@,
            MsgType::Info => "Info"@,
        }
    }

    /// The name of the message type.
    pub fn name(self) -> (name: &'static str)
        ensures
            name@ == self.spec_name(),
    {
        match self {
            MsgType::Prefill => "Prefill",
            MsgType::DecodeStep => "DecodeStep",
            MsgType::Logits => "Logits",
            MsgType::ResetCache => "ResetCache",
            MsgType::Info => "Info",
        }
    }

    /// The byte that stands for this message type on the wire.
    pub fn code(self) -> (byte: u8)
        ensures
            byte == self.spec_code(),
    {
        match self {
            MsgType::Prefill => 0,
            MsgType::DecodeStep => 1,
            MsgType::Logits => 2,
            MsgType::ResetCache => 3,
            MsgType::Info => 4,
        }
    }
}

/// Why bytes are not read as a frame.
#[derive(Clone, Copy, PartialEq, Eq, Debug, Structural)]
pub enum FrameError {
    /// The first byte stands for no message type.
    UnknownType { byte: u8 },
    /// The frame announces a payload longer than `MAX_PAYLOAD`.
    PayloadTooLong { len: usize },
    /// The bytes so far are the beginning of a frame; at least `missing` more belong to it.
    Truncated { missing: usize },
}

impl FrameError {
    /// The text of the error.
    pub open spec fn spec_message(self) -> Seq<char> {
        match self {
            FrameError::UnknownType { byte } => "unknown msg_type byte: "@ + digits(byte as nat),
            FrameError::PayloadTooLong { len } => "frame payload_len "@ + digits(len as nat)
                + " exceeds max "@ + digits(MAX_PAYLOAD as nat) + "; stream likely desynced"@,
            FrameError::Truncated { missing } => "early eof"@,
        }
    }

    /// The text of the error.
    pub fn message(&self) -> (text: String)
        ensures
            text@ == self.spec_message(),
    {
        let mut text = String::new();
        match self {
            FrameError::UnknownType { byte } => {
                text.append("unknown msg_type byte: ");
                push_decimal(&mut text, *byte as u128);
            },
            FrameError::PayloadTooLong { len } => {
                text.append("frame payload_len ");
                push_decimal(&mut text, *len as u128);
                text.append(" exceeds max ");
                push_decimal(&mut text, MAX_PAYLOAD as u128);
                text.append("; stream likely desynced");
            },
            FrameError::Truncated { missing: _ } => {
                text.append("early eof");
            },
        }
        assert(text@ =~= self.spec_message());
        text
    }
}

impl vstd::std_specs::convert::TryFromSpecImpl<u8> for MsgType {
    open spec fn obeys_try_from_spec() -> bool {
        true
    }

    open spec fn try_from_spec(v: u8) -> Result<Self, FrameError> {
        match MsgType::of_code(v) {
            Some(msg_type) => Ok(msg_type),
            None => Err(FrameError::UnknownType { byte: v }),
        }
    }
}

impl TryFrom<u8> for MsgType {
    type Error = FrameError;

    fn try_from(v: u8) -> (r: Result<Self, FrameError>) {
        match v {
            0 => Ok(MsgType::Prefill),
            1 => Ok(MsgType::DecodeStep),
            2 => Ok(MsgType::Logits),
            3 => Ok(MsgType::ResetCache),
            4 => Ok(MsgType::Info),
            _ => Err(FrameError::UnknownType { byte: v }),
        }
    }
}

/// One message: its head, the shape of the tensor that it carries, and that tensor's data.
pub struct Frame {
    pub msg_type: MsgType,
    pub seq: u32,
    pub worker_compute_us: u64,
    pub shape: Vec<u32>,
    pub dtype: u8,
    pub payload: Bytes,
}

/// What a frame says.
#[verifier::ext_equal]
pub struct FrameView {
    pub msg_type: MsgType,
    pub seq: u32,
    pub worker_compute_us: u64,
    pub shape: Seq<u32>,
    pub dtype: u8,
    pub payload: Seq<u8>,
}

impl View for Frame {
    type V = FrameView;

    open spec fn view(&self) -> FrameView {
        FrameView {
            msg_type: self.msg_type,
            seq: self.seq,
            worker_compute_us: self.worker_compute_us,
            shape: self.shape@,
            dtype: self.dtype,
            payload: contents(self.payload),
        }
    }
}

/// The frame without a tensor.
pub open spec fn control_frame(msg_type: MsgType, seq: u32) -> FrameView {
    FrameView {
        msg_type,
        seq,
        worker_compute_us: 0,
        shape: Seq::empty(),
        dtype: 0,
        payload: Seq::empty(),
    }
}

/// The frame that carries the tensor `t`, whose shape is the text of dimensions.
pub open spec fn tensor_frame(msg_type: MsgType, seq: u32, t: TensorView) -> FrameView {
    FrameView {
        msg_type,
        seq,
        worker_compute_us: 0,
        shape: shape_dims(t.shape),
        dtype: 0,
        payload: t.data,
    }
}

/// The tensor that a frame carries.
pub open spec fn frame_tensor(f: FrameView) -> TensorView {
    TensorView { data: f.payload, shape: shape_text(f.shape) }
}

impl Frame {
    /// A frame that carries no tensor.
    pub fn control(msg_type: MsgType, seq: u32) -> (frame: Self)
        ensures
            frame@ == control_frame(msg_type, seq),
    {
        Frame {
            msg_type,
            seq,
            worker_compute_us: 0,
            shape: Vec::new(),
            dtype: 0,
            payload: empty_buf(),
        }
    }

    /// A frame that carries the tensor `t`.
    pub fn from_tensor(msg_type: MsgType, seq: u32, t: &Tensor) -> (frame: Self)
        requires
            is_shape(t.shape@),
        ensures
            frame@ == tensor_frame(msg_type, seq, t@),
    {
        let shape = parse_shape(t.shape.as_str()).unwrap();
        Frame {
            msg_type,
            seq,
            worker_compute_us: 0,
            shape,
            dtype: 0,
            payload: share_buf(&t.data),
        }
    }

    /// The tensor that the frame carries.
    pub fn into_tensor(self) -> (t: Tensor)
        ensures
            t@ == frame_tensor(self@),
    {
        let shape = format_shape(&self.shape);
        Tensor { data: self.payload, shape }
    }
}

/// The bytes of the dimensions of a shape.
pub open spec fn dims_bytes(shape: Seq<u32>) -> Seq<u8>
    decreases shape.len(),
{
    if shape.len() == 0 {
        Seq::empty()
    } else {
        dims_bytes(shape.drop_last()) + be_bytes(shape.last() as nat, 4)
    }
}

/// The bytes of a frame before its payload.
pub open spec fn header_bytes(f: FrameView) -> Seq<u8> {
    seq![f.msg_type.spec_code()] + be_bytes(f.seq as nat, 4) + be_bytes(
        f.worker_compute_us as nat,
        8,
    ) + seq![(f.shape.len() % 256) as u8] + dims_bytes(f.shape) + seq![f.dtype] + be_bytes(
        f.payload.len(),
        8,
    )
}

/// The bytes of a frame on the wire.
pub open spec fn frame_bytes(f: FrameView) -> Seq<u8> {
    header_bytes(f) + f.payload
}

/// The bytes of `f` on the wire.
pub fn write_frame(f: &Frame) -> (out: Vec<u8>)
    ensures
        out@ == frame_bytes(f@),
{
    let mut out: Vec<u8> = Vec::new();
    out.push(f.msg_type.code());
    push_be(&mut out, f.seq as u64, 4);
    push_be(&mut out, f.worker_compute_us, 8);
    out.push((f.shape.len() % 256) as u8);
    let ghost before = out@;
    let mut i: usize = 0;
    while i < f.shape.len()
        invariant
            i <= f.shape@.len(),
            out@ == before + dims_bytes(f.shape@.take(i as int)),
        decreases f.shape@.len() - i,
    {
        push_be(&mut out, f.shape[i] as u64, 4);
        i = i + 1;
        proof {
            let t = f.shape@.take(i as int);
            assert(t.drop_last() =~= f.shape@.take(i - 1));
            assert(t.last() == f.shape@[i - 1]);
            assert(out@ =~= before + dims_bytes(t));
        }
    }
    assert(f.shape@.take(i as int) =~= f.shape@);
    out.push(f.dtype);
    push_be(&mut out, buf_len(&f.payload) as u64, 8);
    assert(out@ =~= header_bytes(f@));
    out.extend_from_slice(buf_slice(&f.payload));
    assert(out@ =~= frame_bytes(f@));
    out
}

/// The number of dimensions that the bytes of a frame announce.
pub open spec fn announced_dims(s: Seq<u8>) -> nat {
    s[13] as nat
}

/// Where the payload begins in the bytes of a frame.
pub open spec fn payload_start(s: Seq<u8>) -> int {
    23 + 4 * (announced_dims(s) as int)
}

/// The length field of the bytes of a frame.
pub open spec fn length_field(s: Seq<u8>) -> nat {
    be_value(s.subrange(payload_start(s) - 8, payload_start(s)))
}

/// The length of the payload that the bytes of a frame announce, as a machine word.
pub open spec fn announced_len(s: Seq<u8>) -> usize {
    (length_field(s) as u64) as usize
}

/// The frame at the front of `s`, which is long enough to hold all of it.
pub open spec fn frame_at_front(s: Seq<u8>) -> FrameView {
    let start = payload_start(s);
    FrameView {
        msg_type: MsgType::of_code(s[0])->0,
        seq: be_value(s.subrange(1, 5)) as u32,
        worker_compute_us: be_value(s.subrange(5, 13)) as u64,
        shape: Seq::new(
            announced_dims(s),
            |i: int| be_value(s.subrange(14 + 4 * i, 18 + 4 * i)) as u32,
        ),
        dtype: s[start - 9],
        payload: s.subrange(start, start + announced_len(s)),
    }
}

/// How many bytes must be there before the next thing about a frame can be decided: its
/// type, its number of dimensions, the length of its payload, and then all of it.
pub open spec fn decidable_at(s: Seq<u8>) -> int {
    if s.len() < 1 {
        1
    } else if s.len() < 14 {
        14
    } else if s.len() < payload_start(s) {
        payload_start(s)
    } else {
        payload_start(s) + announced_len(s)
    }
}

/// The frame at the front of `s` with the number of bytes that it takes, or why there is none.
pub open spec fn parse_frame(s: Seq<u8>) -> Result<(FrameView, int), FrameError> {
    if s.len() >= 1 && MsgType::of_code(s[0]) is None {
        Err(FrameError::UnknownType { byte: s[0] })
    } else if s.len() >= 14 && s.len() >= payload_start(s) && announced_len(s) > MAX_PAYLOAD {
        Err(FrameError::PayloadTooLong { len: announced_len(s) })
    } else if s.len() < decidable_at(s) {
        Err(FrameError::Truncated { missing: (decidable_at(s) - s.len()) as usize })
    } else {
        Ok((frame_at_front(s), decidable_at(s)))
    }
}

/// Reads the frame at the front of `bytes`, and says how many bytes it takes.
///
/// A reader of a stream calls this on what it has, and on `Truncated` reads exactly the
/// missing bytes and calls again: it never reads past the end of the frame, and it refuses a
/// frame as soon as the bytes that rule it out are there.
pub fn read_frame(bytes: &[u8]) -> (r: Result<(Frame, usize), FrameError>)
    ensures
        match r {
            Ok((frame, used)) => parse_frame(bytes@) == Ok::<(FrameView, int), FrameError>(
                (frame@, used as int),
            ),
            Err(e) => parse_frame(bytes@) == Err::<(FrameView, int), FrameError>(e),
        },
{
    let have: usize = bytes.len();
    if have < 1 {
        return Err(FrameError::Truncated { missing: 1 });
    }
    let msg_type = match MsgType::try_from(bytes[0]) {
        Ok(msg_type) => msg_type,
        Err(e) => {
            return Err(e);
        },
    };
    if have < 14 {
        return Err(FrameError::Truncated { missing: 14 - have });
    }
    proof {
        pow256_widths();
    }
    let seq: u32 = read_be(bytes, 1, 4) as u32;
    let worker_compute_us: u64 = read_be(bytes, 5, 8);
    let ndim: usize = bytes[13] as usize;
    let start: usize = 23 + 4 * ndim;
    if have < start {
        return Err(FrameError::Truncated { missing: start - have });
    }
    let mut shape: Vec<u32> = Vec::with_capacity(ndim);
    let mut i: usize = 0;
    while i < ndim
        invariant
            i <= ndim == announced_dims(bytes@),
            start == 23 + 4 * ndim,
            start <= bytes.len(),
            shape@.len() == i,
            forall|j: int|
                0 <= j < i ==> #[trigger] shape@[j] == be_value(
                    bytes@.subrange(14 + 4 * j, 18 + 4 * j),
                ) as u32,
        decreases ndim - i,
    {
        shape.push(read_be(bytes, 14 + 4 * i, 4) as u32);
        i = i + 1;
    }
    let dtype: u8 = bytes[start - 9];
    let payload_len: usize = read_be(bytes, start - 8, 8) as usize;
    if payload_len > MAX_PAYLOAD {
        return Err(FrameError::PayloadTooLong { len: payload_len });
    }
    if have - start < payload_len {
        return Err(FrameError::Truncated { missing: payload_len - (have - start) });
    }
    let mut payload: Vec<u8> = Vec::with_capacity(payload_len);
    payload.extend_from_slice(&bytes[start..start + payload_len]);
    let frame = Frame {
        msg_type,
        seq,
        worker_compute_us,
        shape,
        dtype,
        payload: buf_from_vec(payload),
    };
    proof {
        assert(frame@.shape =~= frame_at_front(bytes@).shape);
        assert(frame@.payload =~= frame_at_front(bytes@).payload);
    }
    Ok((frame, start + payload_len))
}

} // verus!
