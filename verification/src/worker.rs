//! The worker: it runs the last layers on what a coordinator sends, and answers with logits.
//!
//! The service is a state machine. Its state says which call is due (`Worker::call`) and holds
//! what the call needs; the caller makes that call and hands the reply to `Worker::advance`. It
//! serves one connection after the other, and empties its cache when one has ended.
use crate::generation::PassMode;
use crate::mlx_client::{no_tensor, Info, Tensor, TensorView};
use crate::protocol::{control_frame, frame_tensor, tensor_frame, Frame, FrameView, MsgType};
use crate::shape::is_shape;
use vstd::prelude::*;

verus! {

/// The answer to a question on the worker's layers.
pub open spec fn info_answer(seq: u32, info: Info) -> FrameView {
    FrameView {
        shape: seq![info.start_layer, info.end_layer, info.num_layers],
        ..control_frame(MsgType::Info, seq)
    }
}

/// The answer to the question with number `seq` on the worker's layers.
pub fn info_reply(seq: u32, info: &Info) -> (frame: Frame)
    ensures
        frame@ == info_answer(seq, *info),
{
    let mut frame = Frame::control(MsgType::Info, seq);
    let mut shape: Vec<u32> = Vec::new();
    shape.push(info.start_layer);
    shape.push(info.end_layer);
    shape.push(info.num_layers);
    frame.shape = shape;
    assert(frame@.shape =~= info_answer(seq, *info).shape);
    frame
}

/// The answer to a hidden state: the logits, and how long they took. A time that is too long
/// for its field loses its high-order bits.
pub open spec fn logits_answer(seq: u32, logits: TensorView, compute_us: u128) -> FrameView {
    FrameView {
        worker_compute_us: compute_us as u64,
        ..tensor_frame(MsgType::Logits, seq, logits)
    }
}

/// The answer to the hidden state with number `seq`.
pub fn logits_reply(seq: u32, logits: &Tensor, compute_us: u128) -> (frame: Frame)
    requires
        is_shape(logits.shape@),
    ensures
        frame@ == logits_answer(seq, logits@, compute_us),
{
    let mut frame = Frame::from_tensor(MsgType::Logits, seq, logits);
    frame.worker_compute_us = compute_us as u64;
    frame
}

/// What the worker waits for.
#[derive(Clone, Copy, PartialEq, Eq, Debug, Structural)]
pub enum WorkerStep {
    Accept,
    AwaitFrame,
    FetchInfo { seq: u32 },
    SendInfo { seq: u32, info: Info },
    ResetOnRequest,
    Forward { seq: u32, mode: PassMode },
    Logits { seq: u32 },
    SendLogits { seq: u32 },
    ResetAfterClose,
    Refused,
}

/// The call that is due.
#[derive(PartialEq, Eq, Debug)]
pub enum WorkerCall<'a> {
    /// Wait for a coordinator to connect.
    Accept,
    /// Read the next frame.
    AwaitFrame,
    /// Ask the local server which layers it runs.
    FetchInfo,
    /// Answer with the layers (`info_reply`).
    SendInfo { seq: u32, info: Info },
    /// Empty the cache of the local server.
    Reset,
    /// Run the tensor of the frame that was read last through the local layers.
    Forward { mode: PassMode, input: &'a Tensor },
    /// Turn what came out of the layers into logits.
    Logits { input: &'a Tensor },
    /// Answer with the logits (`logits_reply`).
    SendLogits { seq: u32, logits: &'a Tensor, compute_us: u128 },
    /// A coordinator sent logits: give up (`refusal_message`).
    Fail,
}

/// What a call says.
#[verifier::ext_equal]
pub enum WorkerCallView {
    Accept,
    AwaitFrame,
    FetchInfo,
    SendInfo { seq: u32, info: Info },
    Reset,
    Forward { mode: PassMode, input: TensorView },
    Logits { input: TensorView },
    SendLogits { seq: u32, logits: TensorView, compute_us: u128 },
    Fail,
}

impl<'a> View for WorkerCall<'a> {
    type V = WorkerCallView;

    open spec fn view(&self) -> WorkerCallView {
        match *self {
            WorkerCall::Accept => WorkerCallView::Accept,
            WorkerCall::AwaitFrame => WorkerCallView::AwaitFrame,
            WorkerCall::FetchInfo => WorkerCallView::FetchInfo,
            WorkerCall::SendInfo { seq, info } => WorkerCallView::SendInfo { seq, info },
            WorkerCall::Reset => WorkerCallView::Reset,
            WorkerCall::Forward { mode, input } => WorkerCallView::Forward { mode, input: input@ },
            WorkerCall::Logits { input } => WorkerCallView::Logits { input: input@ },
            WorkerCall::SendLogits { seq, logits, compute_us } => WorkerCallView::SendLogits {
                seq,
                logits: logits@,
                compute_us,
            },
            WorkerCall::Fail => WorkerCallView::Fail,
        }
    }
}

/// What a call came back with.
pub enum WorkerReply {
    /// It was done.
    Done,
    /// This frame was read.
    Received { frame: Frame },
    /// No frame could be read: the connection is over.
    Closed,
    /// The layers of the local server.
    LocalInfo { info: Info },
    /// What came out of the local layers.
    Computed { tensor: Tensor },
    /// The logits, and how long the layers and the logits took.
    MadeLogits { logits: Tensor, compute_us: u128 },
}

/// The text of the error that ends the service.
pub open spec fn refusal_text() -> Seq<char> {
    "worker received an unexpected Logits frame"@
}

/// The text of the error that ends the service.
pub fn refusal_message() -> (text: &'static str)
    ensures
        text@ == refusal_text(),
{
    "worker received an unexpected Logits frame"
}

/// The state of the service.
#[verifier::ext_equal]
pub struct WorkerModel {
    pub step: WorkerStep,
    /// What was received or computed last.
    pub tensor: TensorView,
    /// How long the logits took that were made last.
    pub compute_us: u128,
}

impl WorkerModel {
    /// The state at the start.
    pub open spec fn start() -> WorkerModel {
        WorkerModel { step: WorkerStep::Accept, tensor: no_tensor(), compute_us: 0 }
    }

    /// The call that is due.
    pub open spec fn call(self) -> WorkerCallView {
        match self.step {
            WorkerStep::Accept => WorkerCallView::Accept,
            WorkerStep::AwaitFrame => WorkerCallView::AwaitFrame,
            WorkerStep::FetchInfo { seq } => WorkerCallView::FetchInfo,
            WorkerStep::SendInfo { seq, info } => WorkerCallView::SendInfo { seq, info },
            WorkerStep::ResetOnRequest => WorkerCallView::Reset,
            WorkerStep::Forward { seq, mode } => WorkerCallView::Forward {
                mode,
                input: self.tensor,
            },
            WorkerStep::Logits { seq } => WorkerCallView::Logits { input: self.tensor },
            WorkerStep::SendLogits { seq } => WorkerCallView::SendLogits {
                seq,
                logits: self.tensor,
                compute_us: self.compute_us,
            },
            WorkerStep::ResetAfterClose => WorkerCallView::Reset,
            WorkerStep::Refused => WorkerCallView::Fail,
        }
    }

    /// Whether `reply` answers the call that is due.
    pub open spec fn expects(self, reply: WorkerReply) -> bool {
        match self.step {
            WorkerStep::AwaitFrame => reply is Received || reply is Closed,
            WorkerStep::FetchInfo { seq } => reply is LocalInfo,
            WorkerStep::Forward { seq, mode } => reply is Computed,
            WorkerStep::Logits { seq } => reply is MadeLogits,
            WorkerStep::Refused => false,
            _ => reply is Done,
        }
    }

    /// What a frame asks for.
    pub open spec fn step_for(frame: FrameView) -> WorkerStep {
        match frame.msg_type {
            MsgType::Info => WorkerStep::FetchInfo { seq: frame.seq },
            MsgType::ResetCache => WorkerStep::ResetOnRequest,
            MsgType::Prefill => WorkerStep::Forward { seq: frame.seq, mode: PassMode::Prefill },
            MsgType::DecodeStep => WorkerStep::Forward { seq: frame.seq, mode: PassMode::Decode },
            MsgType::Logits => WorkerStep::Refused,
        }
    }

    /// The state after `frame` was read. A frame that asks for a pass brings its tensor.
    pub open spec fn received(self, frame: FrameView) -> WorkerModel {
        WorkerModel {
            step: WorkerModel::step_for(frame),
            tensor: if frame.msg_type is Prefill || frame.msg_type is DecodeStep {
                frame_tensor(frame)
            } else {
                self.tensor
            },
            ..self
        }
    }

    /// The state after the call that is due came back with `reply`.
    pub open spec fn next(self, reply: WorkerReply) -> WorkerModel {
        match self.step {
            WorkerStep::Accept => WorkerModel { step: WorkerStep::AwaitFrame, ..self },
            WorkerStep::AwaitFrame => match reply {
                WorkerReply::Received { frame } => self.received(frame@),
                _ => WorkerModel { step: WorkerStep::ResetAfterClose, ..self },
            },
            WorkerStep::FetchInfo { seq } => WorkerModel {
                step: WorkerStep::SendInfo { seq, info: reply->info },
                ..self
            },
            WorkerStep::SendInfo { seq, info } => WorkerModel {
                step: WorkerStep::AwaitFrame,
                ..self
            },
            WorkerStep::ResetOnRequest => WorkerModel { step: WorkerStep::AwaitFrame, ..self },
            WorkerStep::Forward { seq, mode } => WorkerModel {
                step: WorkerStep::Logits { seq },
                tensor: reply->tensor@,
                ..self
            },
            WorkerStep::Logits { seq } => WorkerModel {
                step: WorkerStep::SendLogits { seq },
                tensor: reply->logits@,
                compute_us: reply->compute_us,
            },
            WorkerStep::SendLogits { seq } => WorkerModel {
                step: WorkerStep::AwaitFrame,
                ..self
            },
            WorkerStep::ResetAfterClose => WorkerModel { step: WorkerStep::Accept, ..self },
            WorkerStep::Refused => self,
        }
    }
}

/// The service.
pub struct Worker {
    step: WorkerStep,
    tensor: Tensor,
    compute_us: u128,
}

impl View for Worker {
    type V = WorkerModel;

    closed spec fn view(&self) -> WorkerModel {
        WorkerModel { step: self.step, tensor: self.tensor@, compute_us: self.compute_us }
    }
}

impl Worker {
    /// A worker that waits for its first connection.
    pub fn new() -> (w: Self)
        ensures
            w@ == WorkerModel::start(),
    {
        Worker { step: WorkerStep::Accept, tensor: Tensor::empty(), compute_us: 0 }
    }

    /// The call that is due.
    pub fn call(&self) -> (call: WorkerCall<'_>)
        ensures
            call@ == self@.call(),
    {
        match self.step {
            WorkerStep::Accept => WorkerCall::Accept,
            WorkerStep::AwaitFrame => WorkerCall::AwaitFrame,
            WorkerStep::FetchInfo { seq: _ } => WorkerCall::FetchInfo,
            WorkerStep::SendInfo { seq, info } => WorkerCall::SendInfo { seq, info },
            WorkerStep::ResetOnRequest => WorkerCall::Reset,
            WorkerStep::Forward { seq: _, mode } => WorkerCall::Forward {
                mode,
                input: &self.tensor,
            },
            WorkerStep::Logits { seq: _ } => WorkerCall::Logits { input: &self.tensor },
            WorkerStep::SendLogits { seq } => WorkerCall::SendLogits {
                seq,
                logits: &self.tensor,
                compute_us: self.compute_us,
            },
            WorkerStep::ResetAfterClose => WorkerCall::Reset,
            WorkerStep::Refused => WorkerCall::Fail,
        }
    }

    /// Whether `reply` answers the call that is due.
    pub fn expects(&self, reply: &WorkerReply) -> (yes: bool)
        ensures
            yes == self@.expects(*reply),
    {
        match (self.step, reply) {
            (WorkerStep::AwaitFrame, WorkerReply::Received { frame: _ }) => true,
            (WorkerStep::AwaitFrame, WorkerReply::Closed) => true,
            (WorkerStep::AwaitFrame, _) => false,
            (WorkerStep::FetchInfo { seq: _ }, WorkerReply::LocalInfo { info: _ }) => true,
            (WorkerStep::FetchInfo { seq: _ }, _) => false,
            (WorkerStep::Forward { seq: _, mode: _ }, WorkerReply::Computed { tensor: _ }) => true,
            (WorkerStep::Forward { seq: _, mode: _ }, _) => false,
            (WorkerStep::Logits { seq: _ }, WorkerReply::MadeLogits { logits: _, compute_us: _ }) => {
                true
            },
            (WorkerStep::Logits { seq: _ }, _) => false,
            (WorkerStep::Refused, _) => false,
            (_, WorkerReply::Done) => true,
            (_, _) => false,
        }
    }

    /// Takes in what the call that was due came back with.
    pub fn advance(&mut self, reply: WorkerReply)
        requires
            old(self)@.expects(reply),
        ensures
            final(self)@ == old(self)@.next(reply),
    {
        match self.step {
            WorkerStep::Accept => {
                self.step = WorkerStep::AwaitFrame;
            },
            WorkerStep::AwaitFrame => {
                if let WorkerReply::Received { frame } = reply {
                    let seq: u32 = frame.seq;
                    match frame.msg_type {
                        MsgType::Info => {
                            self.step = WorkerStep::FetchInfo { seq };
                        },
                        MsgType::ResetCache => {
                            self.step = WorkerStep::ResetOnRequest;
                        },
                        MsgType::Prefill => {
                            self.tensor = frame.into_tensor();
                            self.step = WorkerStep::Forward { seq, mode: PassMode::Prefill };
                        },
                        MsgType::DecodeStep => {
                            self.tensor = frame.into_tensor();
                            self.step = WorkerStep::Forward { seq, mode: PassMode::Decode };
                        },
                        MsgType::Logits => {
                            self.step = WorkerStep::Refused;
                        },
                    }
                } else {
                    self.step = WorkerStep::ResetAfterClose;
                }
            },
            WorkerStep::FetchInfo { seq } => {
                if let WorkerReply::LocalInfo { info } = reply {
                    self.step = WorkerStep::SendInfo { seq, info };
                }
            },
            WorkerStep::SendInfo { seq: _, info: _ } => {
                self.step = WorkerStep::AwaitFrame;
            },
            WorkerStep::ResetOnRequest => {
                self.step = WorkerStep::AwaitFrame;
            },
            WorkerStep::Forward { seq, mode: _ } => {
                if let WorkerReply::Computed { tensor } = reply {
                    self.tensor = tensor;
                }
                self.step = WorkerStep::Logits { seq };
            },
            WorkerStep::Logits { seq } => {
                if let WorkerReply::MadeLogits { logits, compute_us } = reply {
                    self.tensor = logits;
                    self.compute_us = compute_us;
                }
                self.step = WorkerStep::SendLogits { seq };
            },
            WorkerStep::SendLogits { seq: _ } => {
                self.step = WorkerStep::AwaitFrame;
            },
            WorkerStep::ResetAfterClose => {
                self.step = WorkerStep::Accept;
            },
            WorkerStep::Refused => {},
        }
    }
}

} // verus!
