use bytes::Bytes;
use tributary::coordinator::{
    check_split, recv_logits, Coordinator, CoordinatorCall, CoordinatorReply, ReplyError, Split, SplitError,
};
use tributary::generation::PassMode;
use tributary::mlx_client::{Info, Tensor};
use tributary::protocol::{Frame, MsgType};
use tributary::worker::{info_reply, logits_reply, refusal_message, Worker, WorkerCall, WorkerReply};

fn local() -> Info {
    Info { start_layer: 0, end_layer: 14, num_layers: 28, is_first: true }
}

fn tensor(n: u8) -> Tensor {
    Tensor { data: Bytes::from(vec![n, n]), shape: "1,1,1".to_string() }
}

fn worker_reply(start: u32, end: u32, layers: u32) -> Frame {
    info_reply(0, &Info { start_layer: start, end_layer: end, num_layers: layers, is_first: false })
}

#[test]
fn a_split_in_order() {
    let split = check_split(&local(), &worker_reply(14, 28, 28)).unwrap();
    assert_eq!(split, Split { coordinator_end: 14, worker_start: 14, worker_end: 28, layers: 28 });
    assert_eq!(split.message(), "split OK: coordinator 0..14 + worker 14..28 = 28 layers");
    for layer in 0..28 {
        let on_coordinator = layer < split.coordinator_end;
        let on_worker = split.worker_start <= layer && layer < split.worker_end;
        assert!(on_coordinator != on_worker);
    }
}

#[test]
fn splits_that_are_not_in_order() {
    let fault = |info: &Info, frame: &Frame| {
        let error = check_split(info, frame).unwrap_err();
        (error, error.message())
    };
    let malformed = (SplitError::Malformed, "worker sent a malformed Info reply".to_string());
    assert_eq!(fault(&local(), &Frame::control(MsgType::Info, 0)), malformed);
    let mut other_type = worker_reply(14, 28, 28);
    other_type.msg_type = MsgType::Logits;
    assert_eq!(fault(&local(), &other_type), malformed);
    let mut four = worker_reply(14, 28, 28);
    four.shape.push(1);
    assert_eq!(fault(&local(), &four), malformed);

    let late = Info { start_layer: 2, end_layer: 14, num_layers: 28, is_first: false };
    assert_eq!(
        fault(&late, &worker_reply(14, 28, 28)),
        (
            SplitError::NotFirst { start: 2, end: 14 },
            "coordinator's local server must start at layer 0, got 2..14".to_string()
        )
    );
    assert_eq!(
        fault(&local(), &worker_reply(14, 40, 40)),
        (
            SplitError::Mismatch { coordinator: 28, worker: 40 },
            "model mismatch: coordinator has 28 layers, worker has 40".to_string()
        )
    );
    assert_eq!(
        fault(&local(), &worker_reply(15, 28, 28)),
        (
            SplitError::NotContiguous { coordinator_end: 14, worker_start: 15 },
            "layer split is not contiguous: coordinator ends at 14, worker starts at 15 (gap or overlap)".to_string()
        )
    );
    assert_eq!(
        fault(&local(), &worker_reply(14, 27, 28)),
        (
            SplitError::NotLast { layers: 28, worker_end: 27 },
            "worker must end at the final layer 28, got 27".to_string()
        )
    );
}

#[test]
fn only_the_logits_that_were_asked_for_are_taken() {
    assert_eq!(recv_logits(&Frame::control(MsgType::Logits, 7), 7), Ok(()));
    let error = recv_logits(&Frame::control(MsgType::Info, 7), 7).unwrap_err();
    assert_eq!(error, ReplyError::NotLogits { got_type: MsgType::Info });
    assert_eq!(error.message(), "expected Logits frame, got Info");
    let error = recv_logits(&Frame::control(MsgType::Logits, 6), 7).unwrap_err();
    assert_eq!(error, ReplyError::WrongSeq { sent: 7, got: 6 });
    assert_eq!(error.message(), "seq mismatch: sent 7, got 6");
}

#[test]
fn answers_of_the_worker() {
    let info = worker_reply(14, 28, 28);
    assert_eq!((info.msg_type, info.seq, info.shape), (MsgType::Info, 0, vec![14, 28, 28]));
    let logits = Tensor { data: Bytes::from(vec![1, 2]), shape: "1,1,1".to_string() };
    let frame = logits_reply(9, &logits, 22600);
    assert_eq!((frame.msg_type, frame.seq, frame.worker_compute_us), (MsgType::Logits, 9, 22600));
    assert_eq!((frame.shape, frame.payload), (vec![1, 1, 1], logits.data.clone()));
    assert_eq!(logits_reply(9, &logits, (1u128 << 64) + 5).worker_compute_us, 5);
}

fn coordinator_at_info() -> Coordinator {
    let mut c = Coordinator::new(3, "hi".to_string());
    c.advance(CoordinatorReply::LocalInfo { info: local() });
    c.advance(CoordinatorReply::Done);
    assert_eq!(c.call(), CoordinatorCall::AwaitInfo);
    c
}

#[test]
fn a_bad_split_ends_the_session() {
    let mut c = coordinator_at_info();
    c.advance(CoordinatorReply::Received { frame: worker_reply(13, 28, 28) });
    assert_eq!(
        c.call(),
        CoordinatorCall::FailSplit {
            error: SplitError::NotContiguous { coordinator_end: 14, worker_start: 13 }
        }
    );
    assert!(!c.expects(&CoordinatorReply::Done));
}

#[test]
fn a_bad_reply_ends_the_session() {
    let mut c = coordinator_at_info();
    c.advance(CoordinatorReply::Received { frame: worker_reply(14, 28, 28) });
    c.advance(CoordinatorReply::Done);
    assert_eq!(c.call(), CoordinatorCall::SendControl { msg_type: MsgType::ResetCache, seq: 1 });
    c.advance(CoordinatorReply::Done);
    assert_eq!(c.call(), CoordinatorCall::Tokenize { text: "hi" });
    c.advance(CoordinatorReply::Tokenized { tokens: vec![5], eos: 0 });
    assert_eq!(c.call(), CoordinatorCall::EmbedPrompt { tokens: &[5] });
    c.advance(CoordinatorReply::Computed { tensor: tensor(1) });
    assert_eq!(c.call(), CoordinatorCall::Forward { mode: PassMode::Prefill, input: &tensor(1) });
    c.advance(CoordinatorReply::Computed { tensor: tensor(2) });
    assert_eq!(c.call(), CoordinatorCall::SendHidden { msg_type: MsgType::Prefill, seq: 2, input: &tensor(2) });
    c.advance(CoordinatorReply::Done);
    c.advance(CoordinatorReply::Received { frame: Frame::control(MsgType::Logits, 1) });
    assert_eq!(c.call(), CoordinatorCall::FailReply { fault: ReplyError::WrongSeq { sent: 2, got: 1 } });
    assert!(!c.expects(&CoordinatorReply::Done));
}

#[test]
fn the_worker_gives_up_on_logits() {
    let mut worker = Worker::new();
    worker.advance(WorkerReply::Done);
    worker.advance(WorkerReply::Received { frame: Frame::control(MsgType::Logits, 0) });
    assert_eq!(worker.call(), WorkerCall::Fail);
    assert!(!worker.expects(&WorkerReply::Done));
    assert_eq!(refusal_message(), "worker received an unexpected Logits frame");
}

#[test]
fn the_logits_that_came_back_are_sampled() {
    let mut c = coordinator_at_info();
    c.advance(CoordinatorReply::Received { frame: worker_reply(14, 28, 28) });
    c.advance(CoordinatorReply::Done);
    c.advance(CoordinatorReply::Done);
    c.advance(CoordinatorReply::Tokenized { tokens: vec![5], eos: 0 });
    c.advance(CoordinatorReply::Computed { tensor: tensor(1) });
    c.advance(CoordinatorReply::Computed { tensor: tensor(2) });
    c.advance(CoordinatorReply::Done);
    c.advance(CoordinatorReply::Received { frame: logits_reply(2, &tensor(3), 10) });
    assert_eq!(c.call(), CoordinatorCall::Sample { input: &tensor(3) });
    assert_eq!(c.pass_mode(), PassMode::Prefill);
    assert!(c.expects(&CoordinatorReply::Sampled { token: 4 }));
    c.advance(CoordinatorReply::Sampled { token: 4 });
    c.advance(CoordinatorReply::Done);
    assert_eq!(c.call(), CoordinatorCall::EmbedToken { token: 4 });
    assert_eq!(c.pass_mode(), PassMode::Decode);
}

#[test]
fn the_worker_hands_on_its_results() {
    let mut worker = Worker::new();
    worker.advance(WorkerReply::Done);
    worker.advance(WorkerReply::Received { frame: Frame::from_tensor(MsgType::DecodeStep, 5, &tensor(1)) });
    assert_eq!(worker.call(), WorkerCall::Forward { mode: PassMode::Decode, input: &tensor(1) });
    assert!(!worker.expects(&WorkerReply::Done));
    worker.advance(WorkerReply::Computed { tensor: tensor(2) });
    assert_eq!(worker.call(), WorkerCall::Logits { input: &tensor(2) });
    worker.advance(WorkerReply::MadeLogits { logits: tensor(3), compute_us: 77 });
    assert_eq!(worker.call(), WorkerCall::SendLogits { seq: 5, logits: &tensor(3), compute_us: 77 });
    worker.advance(WorkerReply::Done);
    assert_eq!(worker.call(), WorkerCall::AwaitFrame);
}
