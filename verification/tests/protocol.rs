use bytes::Bytes;
use tributary::mlx_client::Tensor;
use tributary::protocol::{read_frame, write_frame, Frame, FrameError, MsgType, MAX_PAYLOAD};

fn same(a: &Frame, b: &Frame) -> bool {
    a.msg_type == b.msg_type
        && a.seq == b.seq
        && a.worker_compute_us == b.worker_compute_us
        && a.shape == b.shape
        && a.dtype == b.dtype
        && a.payload == b.payload
}

fn sample_frame() -> Frame {
    Frame {
        msg_type: MsgType::Logits,
        seq: 0x0102_0304,
        worker_compute_us: 0x1122_3344_5566_7788,
        shape: vec![1, 256, 0xaabb_ccdd],
        dtype: 7,
        payload: Bytes::from(vec![9, 8, 7, 6]),
    }
}

#[test]
fn message_types_have_their_bytes() {
    let all = [
        (MsgType::Prefill, 0u8, "Prefill"),
        (MsgType::DecodeStep, 1, "DecodeStep"),
        (MsgType::Logits, 2, "Logits"),
        (MsgType::ResetCache, 3, "ResetCache"),
        (MsgType::Info, 4, "Info"),
    ];
    for (msg_type, byte, name) in all {
        assert_eq!(msg_type.code(), byte);
        assert_eq!(MsgType::try_from(byte), Ok(msg_type));
        assert_eq!(msg_type.name(), name);
        assert_eq!(format!("{:?}", msg_type), name);
    }
}

#[test]
fn other_bytes_are_no_message_type() {
    for byte in 5..=255u8 {
        let error = MsgType::try_from(byte).unwrap_err();
        assert_eq!(error, FrameError::UnknownType { byte });
    }
    let error = MsgType::try_from(200).unwrap_err();
    assert_eq!(error.message(), "unknown msg_type byte: 200");
}

#[test]
fn control_frame_on_the_wire() {
    let frame = Frame::control(MsgType::Info, 0x0102_0304);
    assert!(frame.payload.is_empty());
    assert!(frame.shape.is_empty());
    let mut expected: Vec<u8> = vec![4, 1, 2, 3, 4];
    expected.extend_from_slice(&[0; 8]);
    expected.push(0);
    expected.push(0);
    expected.extend_from_slice(&[0; 8]);
    assert_eq!(write_frame(&frame), expected);
}

#[test]
fn full_frame_on_the_wire() {
    let mut expected: Vec<u8> = vec![2, 1, 2, 3, 4];
    expected.extend_from_slice(&[0x11, 0x22, 0x33, 0x44, 0x55, 0x66, 0x77, 0x88]);
    expected.push(3);
    expected.extend_from_slice(&[0, 0, 0, 1]);
    expected.extend_from_slice(&[0, 0, 1, 0]);
    expected.extend_from_slice(&[0xaa, 0xbb, 0xcc, 0xdd]);
    expected.push(7);
    expected.extend_from_slice(&[0, 0, 0, 0, 0, 0, 0, 4]);
    expected.extend_from_slice(&[9, 8, 7, 6]);
    assert_eq!(write_frame(&sample_frame()), expected);
}

#[test]
fn a_written_frame_is_read_back() {
    let frame = sample_frame();
    let mut bytes = write_frame(&frame);
    let len = bytes.len();
    bytes.extend_from_slice(&[1, 2, 3]);
    let (got, used) = read_frame(&bytes).unwrap();
    assert!(same(&got, &frame));
    assert_eq!(used, len);
    assert_eq!(write_frame(&got), bytes[..len]);
}

#[test]
fn frames_follow_each_other() {
    let first = sample_frame();
    let second = Frame::control(MsgType::ResetCache, 1);
    let mut stream = write_frame(&first);
    stream.extend_from_slice(&write_frame(&second));
    let (a, used) = read_frame(&stream).unwrap();
    let (b, rest) = read_frame(&stream[used..]).unwrap();
    assert!(same(&a, &first));
    assert!(same(&b, &second));
    assert_eq!(used + rest, stream.len());
}

#[test]
fn a_reader_asks_for_what_is_missing() {
    let bytes = write_frame(&sample_frame());
    let missing = |n: usize| match read_frame(&bytes[..n]) {
        Err(FrameError::Truncated { missing }) => missing,
        _ => panic!("not the beginning of a frame"),
    };
    assert_eq!(missing(0), 1);
    assert_eq!(missing(1), 13);
    assert_eq!(missing(13), 1);
    assert_eq!(missing(14), 21);
    assert_eq!(missing(34), 1);
    assert_eq!(missing(35), 4);
    assert_eq!(missing(38), 1);
    assert!(read_frame(&bytes[..39]).is_ok());
    assert_eq!(FrameError::Truncated { missing: 3 }.message(), "early eof");

    let mut have: Vec<u8> = Vec::new();
    let mut reads = 0;
    while let Err(FrameError::Truncated { missing }) = read_frame(&have) {
        let from = have.len();
        have.extend_from_slice(&bytes[from..from + missing]);
        reads += 1;
    }
    assert_eq!(have, bytes);
    assert_eq!(reads, 4);
}

#[test]
fn the_first_byte_is_enough_to_refuse() {
    match read_frame(&[5]) {
        Err(error) => assert_eq!(error, FrameError::UnknownType { byte: 5 }),
        Ok(_) => panic!("read a frame of no type"),
    }
}

#[test]
fn a_long_payload_is_refused_at_its_head() {
    let mut head = write_frame(&Frame::control(MsgType::Prefill, 2));
    let at = head.len() - 8;
    head[at..].copy_from_slice(&(MAX_PAYLOAD as u64 + 1).to_be_bytes());
    match read_frame(&head) {
        Err(error) => {
            assert_eq!(error, FrameError::PayloadTooLong { len: 67108865 });
            assert_eq!(
                error.message(),
                "frame payload_len 67108865 exceeds max 67108864; stream likely desynced"
            );
        }
        Ok(_) => panic!("read a frame that is too long"),
    }
    head[at..].copy_from_slice(&(MAX_PAYLOAD as u64).to_be_bytes());
    match read_frame(&head) {
        Err(error) => assert_eq!(error, FrameError::Truncated { missing: 67108864 }),
        Ok(_) => panic!("read a payload that is not there"),
    }
}

#[test]
fn a_tensor_travels_in_a_frame() {
    let tensor = Tensor { data: Bytes::from(vec![0, 1, 2, 255]), shape: "1,12,3072".to_string() };
    let frame = Frame::from_tensor(MsgType::Prefill, 2, &tensor);
    assert_eq!(frame.shape, vec![1, 12, 3072]);
    assert_eq!(frame.payload, tensor.data);
    assert_eq!((frame.dtype, frame.worker_compute_us, frame.seq), (0, 0, 2));
    let bytes = write_frame(&frame);
    let (got, _) = read_frame(&bytes).unwrap();
    let back = got.into_tensor();
    assert_eq!(back.shape, "1,12,3072");
    assert_eq!(back.data, tensor.data);
}

#[test]
fn a_shape_arrives_in_its_plain_spelling() {
    let tensor = Tensor { data: Bytes::new(), shape: "+1,007".to_string() };
    let back = Frame::from_tensor(MsgType::DecodeStep, 3, &tensor).into_tensor();
    assert_eq!(back.shape, "1,7");
    assert_eq!(Frame::control(MsgType::Info, 0).into_tensor().shape, "");
}

#[test]
fn many_dimensions_wrap_their_count() {
    let mut frame = Frame::control(MsgType::Info, 0);
    frame.shape = vec![0; 255];
    let (got, _) = read_frame(&write_frame(&frame)).unwrap();
    assert_eq!(got.shape.len(), 255);
    frame.shape = vec![0; 256];
    assert_eq!(write_frame(&frame)[13], 0);
}

#[test]
fn no_beginning_is_read_as_a_frame() {
    let bytes = write_frame(&sample_frame());
    for n in 0..bytes.len() {
        assert!(read_frame(&bytes[..n]).is_err());
    }
    let mut long = Frame::control(MsgType::Prefill, 2);
    long.payload = Bytes::from(vec![0; MAX_PAYLOAD + 1]);
    let bytes = write_frame(&long);
    for n in [0, 1, 13, 14, 22, 23, 24, bytes.len() - 1, bytes.len()] {
        assert!(read_frame(&bytes[..n]).is_err());
    }
}
