//! What holds of frames on the wire as a whole.
use crate::be::{be_bytes, be_bytes_len, be_bytes_of_be_value, be_value, be_value_bound, be_value_of_be_bytes, pow256_widths};
use crate::mlx_client::{Tensor, TensorView};
use crate::payload::contents;
use crate::protocol::{announced_dims, announced_len, control_frame, dims_bytes, frame_at_front, frame_bytes, frame_tensor, header_bytes, length_field, parse_frame, payload_start, tensor_frame, Frame, FrameError, FrameView, MsgType, MAX_PAYLOAD};
use crate::shape::{comma_parts_not_empty, empty_text_is_no_shape, is_shape, shape_dims, shape_dims_of_shape_text, shape_text};
use crate::text::digits;
use crate::text_laws::bytes_stand_by_place;
use vstd::arithmetic::power::pow;
use vstd::prelude::*;
use vstd::std_specs::convert::TryFromSpec;

verus! {

/// Whether the head of `f` can say how many dimensions and how much payload there are, and a
/// reader takes it: at most 255 dimensions and `MAX_PAYLOAD` bytes.
pub open spec fn fits_wire(f: FrameView) -> bool {
    f.shape.len() <= 255 && f.payload.len() <= MAX_PAYLOAD
}

proof fn dims_bytes_len(shape: Seq<u32>)
    ensures
        dims_bytes(shape).len() == 4 * shape.len(),
    decreases shape.len(),
{
    if shape.len() > 0 {
        dims_bytes_len(shape.drop_last());
        be_bytes_len(shape.last() as nat, 4);
    }
}

proof fn dims_bytes_at(shape: Seq<u32>, i: int)
    requires
        0 <= i < shape.len(),
    ensures
        dims_bytes(shape).subrange(4 * i, 4 * i + 4) == be_bytes(shape[i] as nat, 4),
    decreases shape.len(),
{
    let rest = shape.drop_last();
    dims_bytes_len(shape);
    dims_bytes_len(rest);
    be_bytes_len(shape.last() as nat, 4);
    if i == shape.len() - 1 {
        assert(dims_bytes(shape).subrange(4 * i, 4 * i + 4) =~= be_bytes(shape[i] as nat, 4));
    } else {
        dims_bytes_at(rest, i);
        assert(dims_bytes(shape).subrange(4 * i, 4 * i + 4) =~= dims_bytes(rest).subrange(
            4 * i,
            4 * i + 4,
        ));
    }
}

/// A code stands for the message type that it is the code of.
proof fn code_round_trip(msg_type: MsgType, byte: u8)
    ensures
        MsgType::of_code(msg_type.spec_code()) == Some(msg_type),
        MsgType::of_code(byte) matches Some(m) ==> m.spec_code() == byte,
{
}

/// Where each field of the head stands, in any bytes that begin with the head of `f`.
proof fn header_fields(f: FrameView, s: Seq<u8>)
    requires
        f.shape.len() <= 255,
        s.len() >= header_bytes(f).len(),
        s.take(header_bytes(f).len() as int) == header_bytes(f),
    ensures
        header_bytes(f).len() == 23 + 4 * f.shape.len(),
        s[0] == f.msg_type.spec_code(),
        s.subrange(1, 5) == be_bytes(f.seq as nat, 4),
        s.subrange(5, 13) == be_bytes(f.worker_compute_us as nat, 8),
        announced_dims(s) == f.shape.len(),
        payload_start(s) == header_bytes(f).len(),
        forall|i: int|
            0 <= i < f.shape.len() ==> #[trigger] s.subrange(14 + 4 * i, 18 + 4 * i) == be_bytes(
                f.shape[i] as nat,
                4,
            ),
        s[payload_start(s) - 9] == f.dtype,
        s.subrange(payload_start(s) - 8, payload_start(s)) == be_bytes(f.payload.len(), 8),
{
    let h = header_bytes(f);
    let n = f.shape.len() as int;
    be_bytes_len(f.seq as nat, 4);
    be_bytes_len(f.worker_compute_us as nat, 8);
    be_bytes_len(f.payload.len(), 8);
    dims_bytes_len(f.shape);
    assert(h.len() == 23 + 4 * n);
    assert(forall|i: int| 0 <= i < h.len() ==> s[i] == #[trigger] s.take(h.len() as int)[i]);
    assert(s[0] == h[0]);
    assert(s[13] == h[13]);
    assert(s.subrange(1, 5) =~= h.subrange(1, 5));
    assert(h.subrange(1, 5) =~= be_bytes(f.seq as nat, 4));
    assert(s.subrange(5, 13) =~= h.subrange(5, 13));
    assert(h.subrange(5, 13) =~= be_bytes(f.worker_compute_us as nat, 8));
    assert(h.subrange(14, 14 + 4 * n) =~= dims_bytes(f.shape));
    assert forall|i: int| 0 <= i < n implies #[trigger] s.subrange(14 + 4 * i, 18 + 4 * i)
        == be_bytes(f.shape[i] as nat, 4) by {
        dims_bytes_at(f.shape, i);
        assert(s.subrange(14 + 4 * i, 18 + 4 * i) =~= h.subrange(14, 14 + 4 * n).subrange(
            4 * i,
            4 * i + 4,
        ));
    }
    assert(s[payload_start(s) - 9] == h[14 + 4 * n]);
    assert(s.subrange(payload_start(s) - 8, payload_start(s)) =~= h.subrange(15 + 4 * n, 23 + 4 * n));
    assert(h.subrange(15 + 4 * n, 23 + 4 * n) =~= be_bytes(f.payload.len(), 8));
}

/// A frame that was written is read back as it was, and the reader stops exactly behind it,
/// whatever follows on the stream.
pub proof fn read_after_write(f: FrameView, rest: Seq<u8>)
    requires
        fits_wire(f),
    ensures
        parse_frame(frame_bytes(f) + rest) == Ok::<(FrameView, int), FrameError>(
            (f, frame_bytes(f).len() as int),
        ),
{
    let s = frame_bytes(f) + rest;
    assert(s.take(header_bytes(f).len() as int) =~= header_bytes(f));
    header_fields(f, s);
    code_round_trip(f.msg_type, 0);
    pow256_widths();
    be_value_of_be_bytes(f.seq as nat, 4);
    be_value_of_be_bytes(f.worker_compute_us as nat, 8);
    be_value_of_be_bytes(f.payload.len(), 8);
    assert(announced_len(s) == f.payload.len());
    let g = frame_at_front(s);
    assert forall|i: int| 0 <= i < f.shape.len() implies #[trigger] g.shape[i] == f.shape[i] by {
        assert(s.subrange(14 + 4 * i, 18 + 4 * i) == be_bytes(f.shape[i] as nat, 4));
        be_value_of_be_bytes(f.shape[i] as nat, 4);
    }
    assert(g.shape =~= f.shape);
    assert(g.payload =~= f.payload);
    assert(g == f);
}

/// Two frames that follow each other on a stream are read back one after the other.
pub proof fn frames_stay_apart(f: FrameView, g: FrameView, rest: Seq<u8>)
    requires
        fits_wire(f),
        fits_wire(g),
    ensures
        ({
            let stream = frame_bytes(f) + frame_bytes(g) + rest;
            let used = frame_bytes(f).len() as int;
            &&& parse_frame(stream) == Ok::<(FrameView, int), FrameError>((f, used))
            &&& parse_frame(stream.skip(used)) == Ok::<(FrameView, int), FrameError>(
                (g, frame_bytes(g).len() as int),
            )
        }),
{
    let stream = frame_bytes(f) + frame_bytes(g) + rest;
    assert(stream =~= frame_bytes(f) + (frame_bytes(g) + rest));
    assert(stream.skip(frame_bytes(f).len() as int) =~= frame_bytes(g) + rest);
    read_after_write(f, frame_bytes(g) + rest);
    read_after_write(g, rest);
}

/// Writing a frame that was read gives the bytes that it was read from, when the length that
/// they announce is a machine word: no two spellings of one frame are taken.
pub proof fn write_after_read(s: Seq<u8>)
    requires
        parse_frame(s) is Ok,
        length_field(s) <= usize::MAX,
    ensures
        parse_frame(s)->Ok_0.1 <= s.len(),
        fits_wire(parse_frame(s)->Ok_0.0),
        frame_bytes(parse_frame(s)->Ok_0.0) == s.take(parse_frame(s)->Ok_0.1),
{
    let f = frame_at_front(s);
    let n = announced_dims(s) as int;
    let start = payload_start(s);
    code_round_trip(f.msg_type, s[0]);
    pow256_widths();
    be_value_bound(s.subrange(1, 5));
    be_bytes_of_be_value(s.subrange(1, 5));
    be_value_bound(s.subrange(5, 13));
    be_bytes_of_be_value(s.subrange(5, 13));
    be_value_bound(s.subrange(start - 8, start));
    be_bytes_of_be_value(s.subrange(start - 8, start));
    assert(f.payload.len() == length_field(s));
    dims_read_back(s, n);
    assert(f.shape.take(n) =~= f.shape);
    assert(seq![f.msg_type.spec_code()] =~= s.subrange(0, 1));
    assert(seq![(f.shape.len() % 256) as u8] =~= s.subrange(13, 14));
    assert(seq![f.dtype] =~= s.subrange(start - 9, start - 8));
    assert(header_bytes(f) =~= s.take(start));
    assert(frame_bytes(f) =~= s.take(start + announced_len(s)));
}

proof fn dims_read_back(s: Seq<u8>, i: int)
    requires
        0 <= i <= announced_dims(s),
        s.len() >= payload_start(s),
    ensures
        dims_bytes(frame_at_front(s).shape.take(i)) == s.subrange(14, 14 + 4 * i),
    decreases i,
{
    let t = frame_at_front(s).shape.take(i);
    if i == 0 {
        assert(s.subrange(14, 14) =~= Seq::<u8>::empty());
    } else {
        dims_read_back(s, i - 1);
        let d = s.subrange(14 + 4 * (i - 1), 18 + 4 * (i - 1));
        assert(t.drop_last() =~= frame_at_front(s).shape.take(i - 1));
        pow256_widths();
        be_value_bound(d);
        be_bytes_of_be_value(d);
        assert(t.last() == be_value(d));
        assert(dims_bytes(t) =~= s.subrange(14, 14 + 4 * i));
    }
}

/// A reader that has only the beginning of a frame asks for more, and for no byte beyond the
/// frame's end.
pub proof fn beginning_asks_for_more(f: FrameView, n: int)
    requires
        fits_wire(f),
        0 <= n < frame_bytes(f).len(),
    ensures
        parse_frame(frame_bytes(f).take(n)) matches Err(FrameError::Truncated { missing })
            && 0 < missing <= frame_bytes(f).len() - n,
{
    let w = frame_bytes(f);
    let s = w.take(n);
    assert(w.take(header_bytes(f).len() as int) =~= header_bytes(f));
    header_fields(f, w);
    code_round_trip(f.msg_type, 0);
    pow256_widths();
    be_value_of_be_bytes(f.payload.len(), 8);
    if n >= 14 {
        assert(s[13] == w[13]);
        if n >= payload_start(w) {
            assert(s.subrange(payload_start(s) - 8, payload_start(s)) =~= w.subrange(
                payload_start(w) - 8,
                payload_start(w),
            ));
            assert(announced_len(s) == f.payload.len());
        }
    }
}

/// A frame that announces more payload than `MAX_PAYLOAD` is refused as soon as its head is
/// there, with the length that it announces.
pub proof fn long_payload_is_refused(f: FrameView, s: Seq<u8>)
    requires
        f.shape.len() <= 255,
        MAX_PAYLOAD < f.payload.len() <= usize::MAX,
        s.len() >= header_bytes(f).len(),
        s.take(header_bytes(f).len() as int) == header_bytes(f),
    ensures
        parse_frame(s) == Err::<(FrameView, int), FrameError>(
            FrameError::PayloadTooLong { len: f.payload.len() as usize },
        ),
{
    header_fields(f, s);
    code_round_trip(f.msg_type, 0);
    pow256_widths();
    be_value_of_be_bytes(f.payload.len(), 8);
}

/// No beginning of a frame is taken for a frame, however long the payload is: a reader asks for
/// more or refuses.
pub proof fn no_beginning_is_a_frame(f: FrameView, n: int)
    requires
        f.shape.len() <= 255,
        f.payload.len() <= usize::MAX,
        0 <= n < frame_bytes(f).len(),
    ensures
        parse_frame(frame_bytes(f).take(n)) is Err,
{
    let w = frame_bytes(f);
    let s = w.take(n);
    assert(w.take(header_bytes(f).len() as int) =~= header_bytes(f));
    header_fields(f, w);
    pow256_widths();
    be_value_of_be_bytes(f.payload.len(), 8);
    if s.len() >= 14 {
        assert(announced_dims(s) == announced_dims(w));
        if s.len() >= payload_start(s) {
            assert(s.subrange(payload_start(s) - 8, payload_start(s)) =~= w.subrange(
                payload_start(w) - 8,
                payload_start(w),
            ));
        }
    }
}

/// Frames are told apart by their bytes alone, however long their payloads are: the bytes of a
/// frame begin with those of another only where the two are the same.
pub proof fn frames_are_prefix_free(f: FrameView, g: FrameView, rest: Seq<u8>)
    requires
        f.shape.len() <= 255,
        g.shape.len() <= 255,
        f.payload.len() <= usize::MAX,
        g.payload.len() <= usize::MAX,
        frame_bytes(g) == frame_bytes(f) + rest,
    ensures
        f == g,
        rest.len() == 0,
{
    let s = frame_bytes(g);
    assert(s.take(header_bytes(f).len() as int) =~= header_bytes(f));
    assert(s.take(header_bytes(g).len() as int) =~= header_bytes(g));
    header_fields(f, s);
    header_fields(g, s);
    code_round_trip(f.msg_type, 0);
    code_round_trip(g.msg_type, 0);
    pow256_widths();
    be_value_of_be_bytes(f.seq as nat, 4);
    be_value_of_be_bytes(g.seq as nat, 4);
    be_value_of_be_bytes(f.worker_compute_us as nat, 8);
    be_value_of_be_bytes(g.worker_compute_us as nat, 8);
    be_value_of_be_bytes(f.payload.len(), 8);
    be_value_of_be_bytes(g.payload.len(), 8);
    assert forall|i: int| 0 <= i < f.shape.len() implies f.shape[i] == g.shape[i] by {
        assert(s.subrange(14 + 4 * i, 18 + 4 * i) == be_bytes(f.shape[i] as nat, 4));
        assert(s.subrange(14 + 4 * i, 18 + 4 * i) == be_bytes(g.shape[i] as nat, 4));
        be_value_of_be_bytes(f.shape[i] as nat, 4);
        be_value_of_be_bytes(g.shape[i] as nat, 4);
    }
    let start = payload_start(s);
    assert(f.payload =~= s.subrange(start, start + f.payload.len()));
    assert(g.payload =~= s.subrange(start, start + g.payload.len()));
    assert(f =~= g);
}

/// A tensor that is sent in a frame arrives with its data and its dimensions; where the text
/// of its shape is the one that `shape_text` writes, it arrives letter for letter.
pub proof fn tensor_arrives(msg_type: MsgType, seq: u32, t: TensorView, rest: Seq<u8>)
    requires
        is_shape(t.shape),
        shape_dims(t.shape).len() <= 255,
        t.data.len() <= MAX_PAYLOAD,
    ensures
        ({
            let sent = tensor_frame(msg_type, seq, t);
            let got = parse_frame(frame_bytes(sent) + rest)->Ok_0.0;
            let arrived = frame_tensor(got);
            &&& parse_frame(frame_bytes(sent) + rest) is Ok
            &&& got.msg_type == msg_type
            &&& got.seq == seq
            &&& arrived.data == t.data
            &&& is_shape(arrived.shape)
            &&& shape_dims(arrived.shape) == shape_dims(t.shape)
            &&& (exists|dims: Seq<u32>| t.shape == #[trigger] shape_text(dims)) ==> arrived == t
        }),
{
    let sent = tensor_frame(msg_type, seq, t);
    read_after_write(sent, rest);
    comma_parts_not_empty(t.shape);
    shape_dims_of_shape_text(shape_dims(t.shape));
    if exists|dims: Seq<u32>| t.shape == #[trigger] shape_text(dims) {
        let dims = choose|dims: Seq<u32>| t.shape == #[trigger] shape_text(dims);
        if dims.len() == 0 {
            empty_text_is_no_shape();
        } else {
            shape_dims_of_shape_text(dims);
        }
    }
}

/// Each message type has a byte of its own, from 0 on in the order in which they are declared,
/// and no other byte stands for one. Its name is that of the type.
pub proof fn types_have_their_bytes(byte: u8)
    ensures
        MsgType::Prefill.spec_code() == 0,
        MsgType::DecodeStep.spec_code() == 1,
        MsgType::Logits.spec_code() == 2,
        MsgType::ResetCache.spec_code() == 3,
        MsgType::Info.spec_code() == 4,
        MsgType::of_code(0) == Some(MsgType::Prefill),
        MsgType::of_code(1) == Some(MsgType::DecodeStep),
        MsgType::of_code(2) == Some(MsgType::Logits),
        MsgType::of_code(3) == Some(MsgType::ResetCache),
        MsgType::of_code(4) == Some(MsgType::Info),
        byte > 4 ==> MsgType::of_code(byte) is None,
        byte > 4 ==> <MsgType as TryFromSpec<u8>>::try_from_spec(byte) == Err::<MsgType, FrameError>(
            FrameError::UnknownType { byte },
        ),
        byte <= 4 ==> <MsgType as TryFromSpec<u8>>::try_from_spec(byte) == Ok::<MsgType, FrameError>(
            MsgType::of_code(byte)->0,
        ),
        MsgType::Prefill.spec_name() == "Prefill"@,
        MsgType::DecodeStep.spec_name() == "DecodeStep"@,
        MsgType::Logits.spec_name() == "Logits"@,
        MsgType::ResetCache.spec_name() == "ResetCache"@,
        MsgType::Info.spec_name() == "Info"@,
{
}

/// Where everything in a frame stands on the wire: the type in byte 0, the number in bytes 1 to
/// 4, the worker's time in bytes 5 to 12, the count of dimensions in byte 13, four bytes for each
/// dimension, the element type, eight bytes for the length of the payload, and the payload as it
/// is. Numbers have their highest place first; a count of dimensions above 255 loses what does
/// not fit its byte.
#[verifier::rlimit(40)]
pub proof fn frame_is_laid_out(f: Frame, i: int)
    ensures
        ({
            let w = frame_bytes(f@);
            let n = f.shape@.len() as int;
            let len = contents(f.payload).len() as int;
            &&& w.len() == 23 + 4 * n + len
            &&& w[0] == match f.msg_type {
                MsgType::Prefill => 0u8,
                MsgType::DecodeStep => 1u8,
                MsgType::Logits => 2u8,
                MsgType::ResetCache => 3u8,
                MsgType::Info => 4u8,
            }
            &&& 0 <= i < 4 ==> w[1 + i] == (f.seq as int / pow(256, (3 - i) as nat)) % 256
            &&& 0 <= i < 8 ==> w[5 + i] == (f.worker_compute_us as int / pow(
                256,
                (7 - i) as nat,
            )) % 256
            &&& w[13] == n % 256
            &&& 0 <= i < 4 * n ==> w[14 + i] == (f.shape@[i / 4] as int / pow(
                256,
                (3 - i % 4) as nat,
            )) % 256
            &&& w[14 + 4 * n] == f.dtype
            &&& 0 <= i < 8 ==> w[15 + 4 * n + i] == (len / pow(256, (7 - i) as nat)) % 256
            &&& 0 <= i < len ==> w[23 + 4 * n + i] == contents(f.payload)[i]
        }),
{
    let v = f@;
    let w = frame_bytes(v);
    let h = header_bytes(v);
    let n = f.shape@.len() as int;
    be_bytes_len(v.seq as nat, 4);
    be_bytes_len(v.worker_compute_us as nat, 8);
    be_bytes_len(v.payload.len(), 8);
    dims_bytes_len(v.shape);
    assert(h.len() == 23 + 4 * n);
    assert(forall|j: int| 0 <= j < h.len() ==> #[trigger] w[j] == h[j]);
    if 0 <= i < 4 {
        bytes_stand_by_place(f.seq as nat, 4, i);
        assert(h[1 + i] == be_bytes(v.seq as nat, 4)[i]);
    }
    if 0 <= i < 8 {
        bytes_stand_by_place(f.worker_compute_us as nat, 8, i);
        assert(h[5 + i] == be_bytes(v.worker_compute_us as nat, 8)[i]);
        bytes_stand_by_place(contents(f.payload).len(), 8, i);
        assert(h[15 + 4 * n + i] == be_bytes(v.payload.len(), 8)[i]);
    }
    if 0 <= i < 4 * n {
        let d = i / 4;
        let j = i % 4;
        dims_bytes_at(v.shape, d);
        bytes_stand_by_place(f.shape@[d] as nat, 4, j);
        assert(dims_bytes(v.shape).subrange(4 * d, 4 * d + 4)[j] == dims_bytes(v.shape)[i]);
        assert(h[14 + i] == dims_bytes(v.shape)[i]);
    }
}

/// A frame that carries no tensor has no dimensions, no payload and no time. One that carries a
/// tensor has the tensor's dimensions and its data, all of it, and the tensor that is taken out
/// of a frame has the frame's payload and the text of its dimensions.
pub proof fn frames_carry_their_tensor(msg_type: MsgType, seq: u32, t: Tensor, f: Frame)
    ensures
        ({
            let bare = control_frame(msg_type, seq);
            &&& bare.msg_type == msg_type
            &&& bare.seq == seq
            &&& bare.worker_compute_us == 0
            &&& bare.shape.len() == 0
            &&& bare.dtype == 0
            &&& bare.payload.len() == 0
        }),
        ({
            let full = tensor_frame(msg_type, seq, t@);
            &&& full.msg_type == msg_type
            &&& full.seq == seq
            &&& full.worker_compute_us == 0
            &&& full.shape == shape_dims(t.shape@)
            &&& full.dtype == 0
            &&& full.payload == contents(t.data)
        }),
        frame_tensor(f@).data == contents(f.payload),
        frame_tensor(f@).shape == shape_text(f.shape@),
{
}

/// The view of a frame is its fields.
pub proof fn frame_view_is_its_fields(f: Frame)
    ensures
        f@.msg_type == f.msg_type,
        f@.seq == f.seq,
        f@.worker_compute_us == f.worker_compute_us,
        f@.shape == f.shape@,
        f@.dtype == f.dtype,
        f@.payload == contents(f.payload),
{
}

/// What a reader asks for, byte by byte: the type first, then all up to the count of dimensions,
/// then all up to the payload, then the payload. It gives up on an unknown type at the first
/// byte, and on a payload of more than 64 MiB at the last byte before it; the length is that in
/// the eight bytes before the payload.
pub proof fn reader_asks_part_by_part(s: Seq<u8>)
    ensures
        s.len() == 0 ==> parse_frame(s) == Err::<(FrameView, int), FrameError>(
            FrameError::Truncated { missing: 1 },
        ),
        s.len() > 0 && s[0] > 4 ==> parse_frame(s) == Err::<(FrameView, int), FrameError>(
            FrameError::UnknownType { byte: s[0] },
        ),
        0 < s.len() < 14 && s[0] <= 4 ==> parse_frame(s) == Err::<(FrameView, int), FrameError>(
            FrameError::Truncated { missing: (14 - s.len()) as usize },
        ),
        s.len() >= 14 && s[0] <= 4 ==> {
            let start = 23 + 4 * s[13];
            let len = (be_value(s.subrange(start - 8, start)) as u64) as usize;
            &&& s.len() < start ==> parse_frame(s) == Err::<(FrameView, int), FrameError>(
                FrameError::Truncated { missing: (start - s.len()) as usize },
            )
            &&& s.len() >= start && len > 64 * 1024 * 1024 ==> parse_frame(s) == Err::<
                (FrameView, int),
                FrameError,
            >(FrameError::PayloadTooLong { len })
            &&& start <= s.len() < start + len && len <= 64 * 1024 * 1024 ==> parse_frame(s)
                == Err::<(FrameView, int), FrameError>(
                FrameError::Truncated { missing: (start + len - s.len()) as usize },
            )
            &&& s.len() >= start + len && len <= 64 * 1024 * 1024 ==> {
                &&& parse_frame(s) is Ok
                &&& parse_frame(s)->Ok_0.1 == start + len
                &&& parse_frame(s)->Ok_0.0.payload == s.subrange(start, start + len)
            }
        },
{
}

/// What the errors of a reader say.
pub proof fn frame_errors_say_why(byte: u8, len: usize, missing: usize)
    ensures
        (FrameError::UnknownType { byte }).spec_message() == "unknown msg_type byte: "@ + digits(
            byte as nat,
        ),
        (FrameError::PayloadTooLong { len }).spec_message() == "frame payload_len "@ + digits(
            len as nat,
        ) + " exceeds max "@ + digits(67108864) + "; stream likely desynced"@,
        (FrameError::Truncated { missing }).spec_message() == "early eof"@,
{
}

} // verus!
