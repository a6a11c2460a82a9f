//! The coordinator: it runs the first layers itself, hands what comes out of them to a worker
//! over a connection, and samples from the logits that come back.
//!
//! The session is a state machine. Its state says which call is due (`Coordinator::call`) and
//! holds what the call needs; the caller makes that call and hands the reply to
//! `Coordinator::advance`.
use crate::generation::{PassMode, TokenLoop, TokenPhase};
use crate::mlx_client::{no_tensor, Info, Tensor, TensorView};
use crate::protocol::{frame_tensor, Frame, FrameView, MsgType};
use crate::text::{digits, push_decimal};
use vstd::prelude::*;

verus! {

/// How the layers are split over the two machines.
#[derive(Clone, Copy, PartialEq, Eq, Debug, Structural)]
pub struct Split {
    pub coordinator_end: u32,
    pub worker_start: u32,
    pub worker_end: u32,
    pub layers: u32,
}

impl Split {
    /// The text on a split that is in order.
    pub open spec fn spec_message(self) -> Seq<char> {
        "split OK: coordinator 0.."@ + digits(self.coordinator_end as nat) + " + worker "@
            + digits(self.worker_start as nat) + ".."@ + digits(self.worker_end as nat) + " = "@
            + digits(self.layers as nat) + " layers"@
    }

    /// The text on a split that is in order.
    pub fn message(&self) -> (text: String)
        ensures
            text@ == self.spec_message(),
    {
        let mut text = String::new();
        text.append("split OK: coordinator 0..");
        push_decimal(&mut text, self.coordinator_end as u128);
        text.append(" + worker ");
        push_decimal(&mut text, self.worker_start as u128);
        text.append("..");
        push_decimal(&mut text, self.worker_end as u128);
        text.append(" = ");
        push_decimal(&mut text, self.layers as u128);
        text.append(" layers");
        assert(text@ =~= self.spec_message());
        text
    }
}

/// Why two servers do not make one model.
#[derive(Clone, Copy, PartialEq, Eq, Debug, Structural)]
pub enum SplitError {
    /// The worker's reply is no `Info` frame of three numbers.
    Malformed,
    /// The coordinator's server does not begin with the first layer.
    NotFirst { start: u32, end: u32 },
    /// The two servers have models of different depth.
    Mismatch { coordinator: u32, worker: u32 },
    /// The worker does not begin where the coordinator ends.
    NotContiguous { coordinator_end: u32, worker_start: u32 },
    /// The worker does not end with the last layer.
    NotLast { layers: u32, worker_end: u32 },
}

impl SplitError {
    /// The text of the error.
    pub open spec fn spec_message(self) -> Seq<char> {
        match self {
            SplitError::Malformed => "worker sent a malformed Info reply"@,
            SplitError::NotFirst { start, end } =>
                "coordinator's local server must start at layer 0, got "@ + digits(start as nat)
                + ".."@ + digits(end as nat),
            SplitError::Mismatch { coordinator, worker } => "model mismatch: coordinator has "@
                + digits(coordinator as nat) + " layers, worker has "@ + digits(worker as nat),
            SplitError::NotContiguous { coordinator_end, worker_start } =>
                "layer split is not contiguous: coordinator ends at "@ + digits(
                coordinator_end as nat,
            ) + ", worker starts at "@ + digits(worker_start as nat) + " (gap or overlap)"@,
            SplitError::NotLast { layers, worker_end } => "worker must end at the final layer "@
                + digits(layers as nat) + ", got "@ + digits(worker_end as nat),
        }
    }

    /// The text of the error.
    pub fn message(&self) -> (text: String)
        ensures
            text@ == self.spec_message(),
    {
        let mut text = String::new();
        match self {
            SplitError::Malformed => {
                text.append("worker sent a malformed Info reply");
            },
            SplitError::NotFirst { start, end } => {
                text.append("coordinator's local server must start at layer 0, got ");
                push_decimal(&mut text, *start as u128);
                text.append("..");
                push_decimal(&mut text, *end as u128);
            },
            SplitError::Mismatch { coordinator, worker } => {
                text.append("model mismatch: coordinator has ");
                push_decimal(&mut text, *coordinator as u128);
                text.append(" layers, worker has ");
                push_decimal(&mut text, *worker as u128);
            },
            SplitError::NotContiguous { coordinator_end, worker_start } => {
                text.append("layer split is not contiguous: coordinator ends at ");
                push_decimal(&mut text, *coordinator_end as u128);
                text.append(", worker starts at ");
                push_decimal(&mut text, *worker_start as u128);
                text.append(" (gap or overlap)");
            },
            SplitError::NotLast { layers, worker_end } => {
                text.append("worker must end at the final layer ");
                push_decimal(&mut text, *layers as u128);
                text.append(", got ");
                push_decimal(&mut text, *worker_end as u128);
            },
        }
        assert(text@ =~= self.spec_message());
        text
    }
}

/// The split that the coordinator's server and the worker's `Info` reply make, or the first
/// reason why they make none.
pub open spec fn split_of(local: Info, reply: FrameView) -> Result<Split, SplitError> {
    let start = reply.shape[0];
    let end = reply.shape[1];
    let layers = reply.shape[2];
    if reply.msg_type != MsgType::Info || reply.shape.len() != 3 {
        Err(SplitError::Malformed)
    } else if !local.is_first {
        Err(SplitError::NotFirst { start: local.start_layer, end: local.end_layer })
    } else if local.num_layers != layers {
        Err(SplitError::Mismatch { coordinator: local.num_layers, worker: layers })
    } else if local.end_layer != start {
        Err(SplitError::NotContiguous { coordinator_end: local.end_layer, worker_start: start })
    } else if end != layers {
        Err(SplitError::NotLast { layers, worker_end: end })
    } else {
        Ok(Split { coordinator_end: local.end_layer, worker_start: start, worker_end: end, layers })
    }
}

/// Checks that the coordinator's server and the worker together make one model.
pub fn check_split(local: &Info, reply: &Frame) -> (r: Result<Split, SplitError>)
    ensures
        r == split_of(*local, reply@),
{
    if reply.msg_type != MsgType::Info || reply.shape.len() != 3 {
        return Err(SplitError::Malformed);
    }
    let start: u32 = reply.shape[0];
    let end: u32 = reply.shape[1];
    let layers: u32 = reply.shape[2];
    if !local.is_first {
        return Err(SplitError::NotFirst { start: local.start_layer, end: local.end_layer });
    }
    if local.num_layers != layers {
        return Err(SplitError::Mismatch { coordinator: local.num_layers, worker: layers });
    }
    if local.end_layer != start {
        return Err(
            SplitError::NotContiguous { coordinator_end: local.end_layer, worker_start: start },
        );
    }
    if end != layers {
        return Err(SplitError::NotLast { layers, worker_end: end });
    }
    Ok(Split { coordinator_end: local.end_layer, worker_start: start, worker_end: end, layers })
}

/// Why a frame is not the answer to the hidden state that was sent.
#[derive(Clone, Copy, PartialEq, Eq, Debug, Structural)]
pub enum ReplyError {
    NotLogits { got_type: MsgType },
    WrongSeq { sent: u32, got: u32 },
}

impl ReplyError {
    /// The text of the error.
    pub open spec fn spec_message(self) -> Seq<char> {
        match self {
            ReplyError::NotLogits { got_type } => "expected Logits frame, got "@
                + got_type.spec_name(),
            ReplyError::WrongSeq { sent, got } => "seq mismatch: sent "@ + digits(sent as nat)
                + ", got "@ + digits(got as nat),
        }
    }

    /// The text of the error.
    pub fn message(&self) -> (text: String)
        ensures
            text@ == self.spec_message(),
    {
        let mut text = String::new();
        match self {
            ReplyError::NotLogits { got_type } => {
                text.append("expected Logits frame, got ");
                text.append(got_type.name());
            },
            ReplyError::WrongSeq { sent, got } => {
                text.append("seq mismatch: sent ");
                push_decimal(&mut text, *sent as u128);
                text.append(", got ");
                push_decimal(&mut text, *got as u128);
            },
        }
        assert(text@ =~= self.spec_message());
        text
    }
}

/// What is wrong with `frame` as the answer to what was sent as `expected_seq`, if anything.
pub open spec fn reply_error(frame: FrameView, expected_seq: u32) -> Option<ReplyError> {
    if frame.msg_type != MsgType::Logits {
        Some(ReplyError::NotLogits { got_type: frame.msg_type })
    } else if frame.seq != expected_seq {
        Some(ReplyError::WrongSeq { sent: expected_seq, got: frame.seq })
    } else {
        None
    }
}

/// Checks that `frame` holds the logits that answer what was sent as `expected_seq`.
pub fn recv_logits(frame: &Frame, expected_seq: u32) -> (r: Result<(), ReplyError>)
    ensures
        match r {
            Ok(_) => reply_error(frame@, expected_seq) is None,
            Err(e) => reply_error(frame@, expected_seq) == Some(e),
        },
{
    if frame.msg_type != MsgType::Logits {
        return Err(ReplyError::NotLogits { got_type: frame.msg_type });
    }
    if frame.seq != expected_seq {
        return Err(ReplyError::WrongSeq { sent: expected_seq, got: frame.seq });
    }
    Ok(())
}

/// What the session waits for.
#[derive(Clone, Copy, PartialEq, Eq, Debug, Structural)]
pub enum CoordinatorStep {
    LocalInfo,
    SendInfo,
    AwaitInfo,
    ResetLocal { split: Split },
    SendReset,
    Tokenize,
    Embed,
    Forward,
    SendHidden,
    AwaitLogits,
    Sample,
    /// What the token loop says: to show a token, or nothing more.
    Token,
    BadSplit { error: SplitError },
    BadReply { fault: ReplyError },
}

/// The call that is due.
#[derive(PartialEq, Eq, Debug)]
pub enum CoordinatorCall<'a> {
    /// Ask the local server which layers it runs.
    LocalInfo,
    /// Send a frame without a tensor (`Frame::control`).
    SendControl { msg_type: MsgType, seq: u32 },
    /// Read the worker's answer on its layers.
    AwaitInfo,
    /// Empty the cache of the local server; the split is in order.
    ResetLocal { split: Split },
    /// Tokenize the prompt.
    Tokenize { text: &'a str },
    /// Embed the tokens of the prompt.
    EmbedPrompt { tokens: &'a [u32] },
    /// Embed one token.
    EmbedToken { token: u32 },
    /// Run what was embedded through the local layers.
    Forward { mode: PassMode, input: &'a Tensor },
    /// Send what came out of the local layers (`Frame::from_tensor`).
    SendHidden { msg_type: MsgType, seq: u32, input: &'a Tensor },
    /// Read the worker's logits.
    AwaitLogits,
    /// Sample a token from the logits.
    Sample { input: &'a Tensor },
    /// Detokenize one token and print it.
    Show { token: u32 },
    /// All is shown, after so many decode passes.
    Finish { token_count: u32 },
    /// The two servers do not make one model.
    FailSplit { error: SplitError },
    /// The worker did not answer what was sent.
    FailReply { fault: ReplyError },
}

/// What a call says.
#[verifier::ext_equal]
pub enum CoordinatorCallView {
    LocalInfo,
    SendControl { msg_type: MsgType, seq: u32 },
    AwaitInfo,
    ResetLocal { split: Split },
    Tokenize { text: Seq<char> },
    EmbedPrompt { tokens: Seq<u32> },
    EmbedToken { token: u32 },
    Forward { mode: PassMode, input: TensorView },
    SendHidden { msg_type: MsgType, seq: u32, input: TensorView },
    AwaitLogits,
    Sample { input: TensorView },
    Show { token: u32 },
    Finish { token_count: u32 },
    FailSplit { error: SplitError },
    FailReply { fault: ReplyError },
}

impl<'a> View for CoordinatorCall<'a> {
    type V = CoordinatorCallView;

    open spec fn view(&self) -> CoordinatorCallView {
        match *self {
            CoordinatorCall::LocalInfo => CoordinatorCallView::LocalInfo,
            CoordinatorCall::SendControl { msg_type, seq } => CoordinatorCallView::SendControl {
                msg_type,
                seq,
            },
            CoordinatorCall::AwaitInfo => CoordinatorCallView::AwaitInfo,
            CoordinatorCall::ResetLocal { split } => CoordinatorCallView::ResetLocal { split },
            CoordinatorCall::Tokenize { text } => CoordinatorCallView::Tokenize { text: text@ },
            CoordinatorCall::EmbedPrompt { tokens } => CoordinatorCallView::EmbedPrompt {
                tokens: tokens@,
            },
            CoordinatorCall::EmbedToken { token } => CoordinatorCallView::EmbedToken { token },
            CoordinatorCall::Forward { mode, input } => CoordinatorCallView::Forward {
                mode,
                input: input@,
            },
            CoordinatorCall::SendHidden { msg_type, seq, input } =>
            CoordinatorCallView::SendHidden { msg_type, seq, input: input@ },
            CoordinatorCall::AwaitLogits => CoordinatorCallView::AwaitLogits,
            CoordinatorCall::Sample { input } => CoordinatorCallView::Sample { input: input@ },
            CoordinatorCall::Show { token } => CoordinatorCallView::Show { token },
            CoordinatorCall::Finish { token_count } => CoordinatorCallView::Finish { token_count },
            CoordinatorCall::FailSplit { error } => CoordinatorCallView::FailSplit { error },
            CoordinatorCall::FailReply { fault } => CoordinatorCallView::FailReply { fault },
        }
    }
}

/// What a call came back with.
pub enum CoordinatorReply {
    /// It was done.
    Done,
    /// The layers of the local server.
    LocalInfo { info: Info },
    /// A frame from the worker.
    Received { frame: Frame },
    /// The tokens of the prompt, and the token that ends a text.
    Tokenized { tokens: Vec<u32>, eos: u32 },
    /// What was embedded, or came out of the local layers.
    Computed { tensor: Tensor },
    /// This token was sampled.
    Sampled { token: u32 },
}

/// The state of a session with a worker.
#[verifier::ext_equal]
pub struct CoordinatorModel {
    pub step: CoordinatorStep,
    /// The number of the next frame.
    pub seq: u32,
    /// The layers of the local server.
    pub local: Info,
    pub tokens: TokenLoop,
    /// The prompt, as it was given.
    pub text: Seq<char>,
    /// The tokens of the prompt.
    pub prompt: Seq<u32>,
    /// What was computed or received last.
    pub tensor: TensorView,
}

/// The type of the frame that carries the result of a pass.
pub open spec fn hidden_type(mode: PassMode) -> MsgType {
    match mode {
        PassMode::Prefill => MsgType::Prefill,
        PassMode::Decode => MsgType::DecodeStep,
    }
}

impl CoordinatorModel {
    /// The state at the start.
    pub open spec fn start(max_tokens: u32, text: Seq<char>) -> CoordinatorModel {
        CoordinatorModel {
            step: CoordinatorStep::LocalInfo,
            seq: 0,
            local: Info { start_layer: 0, end_layer: 0, num_layers: 0, is_first: false },
            tokens: TokenLoop::start(max_tokens, 0),
            text,
            prompt: Seq::empty(),
            tensor: no_tensor(),
        }
    }

    /// The call that is due.
    pub open spec fn call(self) -> CoordinatorCallView {
        match self.step {
            CoordinatorStep::LocalInfo => CoordinatorCallView::LocalInfo,
            CoordinatorStep::SendInfo => CoordinatorCallView::SendControl {
                msg_type: MsgType::Info,
                seq: self.seq,
            },
            CoordinatorStep::AwaitInfo => CoordinatorCallView::AwaitInfo,
            CoordinatorStep::ResetLocal { split } => CoordinatorCallView::ResetLocal { split },
            CoordinatorStep::SendReset => CoordinatorCallView::SendControl {
                msg_type: MsgType::ResetCache,
                seq: self.seq,
            },
            CoordinatorStep::Tokenize => CoordinatorCallView::Tokenize { text: self.text },
            CoordinatorStep::Embed => match self.tokens.mode() {
                PassMode::Prefill => CoordinatorCallView::EmbedPrompt { tokens: self.prompt },
                PassMode::Decode => CoordinatorCallView::EmbedToken { token: self.tokens.next_id },
            },
            CoordinatorStep::Forward => CoordinatorCallView::Forward {
                mode: self.tokens.mode(),
                input: self.tensor,
            },
            CoordinatorStep::SendHidden => CoordinatorCallView::SendHidden {
                msg_type: hidden_type(self.tokens.mode()),
                seq: self.seq,
                input: self.tensor,
            },
            CoordinatorStep::AwaitLogits => CoordinatorCallView::AwaitLogits,
            CoordinatorStep::Sample => CoordinatorCallView::Sample { input: self.tensor },
            CoordinatorStep::Token => match self.tokens.phase {
                TokenPhase::Show => CoordinatorCallView::Show { token: self.tokens.next_id },
                _ => CoordinatorCallView::Finish { token_count: self.tokens.token_count },
            },
            CoordinatorStep::BadSplit { error } => CoordinatorCallView::FailSplit { error },
            CoordinatorStep::BadReply { fault } => CoordinatorCallView::FailReply { fault },
        }
    }

    /// Whether `reply` answers the call that is due, and the frames can be counted on.
    pub open spec fn expects(self, reply: CoordinatorReply) -> bool {
        match self.step {
            CoordinatorStep::LocalInfo => reply is LocalInfo,
            CoordinatorStep::AwaitInfo => reply is Received,
            CoordinatorStep::Tokenize => reply is Tokenized,
            CoordinatorStep::Embed => reply is Computed,
            CoordinatorStep::Forward => reply is Computed,
            CoordinatorStep::AwaitLogits => reply is Received,
            CoordinatorStep::Sample => reply is Sampled && self.seq < u32::MAX,
            CoordinatorStep::Token => self.tokens.phase is Show && reply is Done,
            CoordinatorStep::BadSplit { error } => false,
            CoordinatorStep::BadReply { fault } => false,
            _ => reply is Done,
        }
    }

    /// The state after the call that is due came back with `reply`.
    pub open spec fn next(self, reply: CoordinatorReply) -> CoordinatorModel {
        match self.step {
            CoordinatorStep::LocalInfo => CoordinatorModel {
                step: CoordinatorStep::SendInfo,
                local: reply->info,
                ..self
            },
            CoordinatorStep::SendInfo => CoordinatorModel { step: CoordinatorStep::AwaitInfo, ..self },
            CoordinatorStep::AwaitInfo => match split_of(self.local, reply->frame@) {
                Ok(split) => CoordinatorModel {
                    step: CoordinatorStep::ResetLocal { split },
                    seq: (self.seq + 1) as u32,
                    ..self
                },
                Err(error) => CoordinatorModel { step: CoordinatorStep::BadSplit { error }, ..self },
            },
            CoordinatorStep::ResetLocal { split } => CoordinatorModel {
                step: CoordinatorStep::SendReset,
                ..self
            },
            CoordinatorStep::SendReset => CoordinatorModel {
                step: CoordinatorStep::Tokenize,
                seq: (self.seq + 1) as u32,
                ..self
            },
            CoordinatorStep::Tokenize => CoordinatorModel {
                step: CoordinatorStep::Embed,
                tokens: TokenLoop { eos: reply->eos, ..self.tokens },
                prompt: reply->tokens@,
                ..self
            },
            CoordinatorStep::Embed => CoordinatorModel {
                step: CoordinatorStep::Forward,
                tensor: reply->tensor@,
                ..self
            },
            CoordinatorStep::Forward => CoordinatorModel {
                step: CoordinatorStep::SendHidden,
                tensor: reply->tensor@,
                ..self
            },
            CoordinatorStep::SendHidden => CoordinatorModel {
                step: CoordinatorStep::AwaitLogits,
                ..self
            },
            CoordinatorStep::AwaitLogits => match reply_error(reply->frame@, self.seq) {
                None => CoordinatorModel {
                    step: CoordinatorStep::Sample,
                    tensor: frame_tensor(reply->frame@),
                    ..self
                },
                Some(fault) => CoordinatorModel { step: CoordinatorStep::BadReply { fault }, ..self },
            },
            CoordinatorStep::Sample => CoordinatorModel {
                step: CoordinatorStep::Token,
                seq: (self.seq + 1) as u32,
                tokens: self.tokens.after_sample(reply->token),
                ..self
            },
            CoordinatorStep::Token => CoordinatorModel {
                step: if self.tokens.after_show().phase is Decode {
                    CoordinatorStep::Embed
                } else {
                    CoordinatorStep::Token
                },
                tokens: self.tokens.after_show(),
                ..self
            },
            CoordinatorStep::BadSplit { error } => self,
            CoordinatorStep::BadReply { fault } => self,
        }
    }

    /// What holds in every state that a session reaches. Frames are numbered without gaps:
    /// the question on the layers is 0, the reset 1, the prompt 2, and each decode pass has
    /// the next number.
    pub open spec fn wf(self) -> bool {
        &&& self.tokens.wf()
        &&& match self.step {
            CoordinatorStep::LocalInfo => self.seq == 0 && self.tokens.phase is Prefill,
            CoordinatorStep::SendInfo => self.seq == 0 && self.tokens.phase is Prefill,
            CoordinatorStep::AwaitInfo => self.seq == 0 && self.tokens.phase is Prefill,
            CoordinatorStep::ResetLocal { split } => self.seq == 1 && self.tokens.phase is Prefill,
            CoordinatorStep::SendReset => self.seq == 1 && self.tokens.phase is Prefill,
            CoordinatorStep::Tokenize => self.seq == 2 && self.tokens.phase is Prefill,
            CoordinatorStep::Embed => self.tokens.passing() && self.pass_seq(),
            CoordinatorStep::Forward => self.tokens.passing() && self.pass_seq(),
            CoordinatorStep::SendHidden => self.tokens.passing() && self.pass_seq(),
            CoordinatorStep::AwaitLogits => self.tokens.passing() && self.pass_seq(),
            CoordinatorStep::Sample => self.tokens.passing() && self.pass_seq(),
            CoordinatorStep::Token => !self.tokens.passing() && self.pass_seq(),
            CoordinatorStep::BadSplit { error } => true,
            CoordinatorStep::BadReply { fault } => true,
        }
    }

    /// Whether the next frame has the number that the passes so far lead to.
    pub open spec fn pass_seq(self) -> bool {
        if self.tokens.phase is Prefill {
            self.seq == 2
        } else {
            self.seq == 3 + self.tokens.token_count
        }
    }
}

/// A session with a worker.
pub struct Coordinator {
    step: CoordinatorStep,
    seq: u32,
    local: Info,
    tokens: TokenLoop,
    text: String,
    prompt: Vec<u32>,
    tensor: Tensor,
}

impl View for Coordinator {
    type V = CoordinatorModel;

    closed spec fn view(&self) -> CoordinatorModel {
        CoordinatorModel {
            step: self.step,
            seq: self.seq,
            local: self.local,
            tokens: self.tokens,
            text: self.text@,
            prompt: self.prompt@,
            tensor: self.tensor@,
        }
    }
}

impl Coordinator {
    /// A session that shows up to `max_tokens` tokens after the prompt `text`.
    pub fn new(max_tokens: u32, text: String) -> (c: Self)
        ensures
            c@ == CoordinatorModel::start(max_tokens, text@),
            c@.wf(),
    {
        Coordinator {
            step: CoordinatorStep::LocalInfo,
            seq: 0,
            local: Info { start_layer: 0, end_layer: 0, num_layers: 0, is_first: false },
            tokens: TokenLoop::new(max_tokens, 0),
            text,
            prompt: Vec::new(),
            tensor: Tensor::empty(),
        }
    }

    /// The call that is due.
    pub fn call(&self) -> (call: CoordinatorCall<'_>)
        ensures
            call@ == self@.call(),
    {
        match self.step {
            CoordinatorStep::LocalInfo => CoordinatorCall::LocalInfo,
            CoordinatorStep::SendInfo => CoordinatorCall::SendControl {
                msg_type: MsgType::Info,
                seq: self.seq,
            },
            CoordinatorStep::AwaitInfo => CoordinatorCall::AwaitInfo,
            CoordinatorStep::ResetLocal { split } => CoordinatorCall::ResetLocal { split },
            CoordinatorStep::SendReset => CoordinatorCall::SendControl {
                msg_type: MsgType::ResetCache,
                seq: self.seq,
            },
            CoordinatorStep::Tokenize => CoordinatorCall::Tokenize { text: self.text.as_str() },
            CoordinatorStep::Embed => match self.tokens.pass_mode() {
                PassMode::Prefill => CoordinatorCall::EmbedPrompt {
                    tokens: self.prompt.as_slice(),
                },
                PassMode::Decode => CoordinatorCall::EmbedToken { token: self.tokens.next_id },
            },
            CoordinatorStep::Forward => CoordinatorCall::Forward {
                mode: self.tokens.pass_mode(),
                input: &self.tensor,
            },
            CoordinatorStep::SendHidden => CoordinatorCall::SendHidden {
                msg_type: match self.tokens.pass_mode() {
                    PassMode::Prefill => MsgType::Prefill,
                    PassMode::Decode => MsgType::DecodeStep,
                },
                seq: self.seq,
                input: &self.tensor,
            },
            CoordinatorStep::AwaitLogits => CoordinatorCall::AwaitLogits,
            CoordinatorStep::Sample => CoordinatorCall::Sample { input: &self.tensor },
            CoordinatorStep::Token => match self.tokens.phase {
                TokenPhase::Show => CoordinatorCall::Show { token: self.tokens.next_id },
                _ => CoordinatorCall::Finish { token_count: self.tokens.token_count },
            },
            CoordinatorStep::BadSplit { error } => CoordinatorCall::FailSplit { error },
            CoordinatorStep::BadReply { fault } => CoordinatorCall::FailReply { fault },
        }
    }

    /// The kind of pass that is under way.
    pub fn pass_mode(&self) -> (mode: PassMode)
        ensures
            mode == self@.tokens.mode(),
    {
        self.tokens.pass_mode()
    }

    /// Whether `reply` answers the call that is due, and the frames can be counted on.
    pub fn expects(&self, reply: &CoordinatorReply) -> (yes: bool)
        ensures
            yes == self@.expects(*reply),
    {
        match (self.step, reply) {
            (CoordinatorStep::LocalInfo, CoordinatorReply::LocalInfo { info: _ }) => true,
            (CoordinatorStep::LocalInfo, _) => false,
            (CoordinatorStep::AwaitInfo, CoordinatorReply::Received { frame: _ }) => true,
            (CoordinatorStep::AwaitInfo, _) => false,
            (CoordinatorStep::Tokenize, CoordinatorReply::Tokenized { tokens: _, eos: _ }) => true,
            (CoordinatorStep::Tokenize, _) => false,
            (CoordinatorStep::Embed, CoordinatorReply::Computed { tensor: _ }) => true,
            (CoordinatorStep::Embed, _) => false,
            (CoordinatorStep::Forward, CoordinatorReply::Computed { tensor: _ }) => true,
            (CoordinatorStep::Forward, _) => false,
            (CoordinatorStep::AwaitLogits, CoordinatorReply::Received { frame: _ }) => true,
            (CoordinatorStep::AwaitLogits, _) => false,
            (CoordinatorStep::Sample, CoordinatorReply::Sampled { token: _ }) => self.seq
                < u32::MAX,
            (CoordinatorStep::Sample, _) => false,
            (CoordinatorStep::Token, CoordinatorReply::Done) => self.tokens.phase
                == TokenPhase::Show,
            (CoordinatorStep::Token, _) => false,
            (CoordinatorStep::BadSplit { error: _ }, _) => false,
            (CoordinatorStep::BadReply { fault: _ }, _) => false,
            (_, CoordinatorReply::Done) => true,
            (_, _) => false,
        }
    }

    /// Takes in what the call that was due came back with.
    pub fn advance(&mut self, reply: CoordinatorReply)
        requires
            old(self)@.wf(),
            old(self)@.expects(reply),
        ensures
            final(self)@ == old(self)@.next(reply),
            final(self)@.wf(),
    {
        match self.step {
            CoordinatorStep::LocalInfo => {
                if let CoordinatorReply::LocalInfo { info } = reply {
                    self.local = info;
                }
                self.step = CoordinatorStep::SendInfo;
            },
            CoordinatorStep::SendInfo => {
                self.step = CoordinatorStep::AwaitInfo;
            },
            CoordinatorStep::AwaitInfo => {
                if let CoordinatorReply::Received { frame } = reply {
                    match check_split(&self.local, &frame) {
                        Ok(split) => {
                            self.seq = self.seq + 1;
                            self.step = CoordinatorStep::ResetLocal { split };
                        },
                        Err(error) => {
                            self.step = CoordinatorStep::BadSplit { error };
                        },
                    }
                }
            },
            CoordinatorStep::ResetLocal { split: _ } => {
                self.step = CoordinatorStep::SendReset;
            },
            CoordinatorStep::SendReset => {
                self.seq = self.seq + 1;
                self.step = CoordinatorStep::Tokenize;
            },
            CoordinatorStep::Tokenize => {
                if let CoordinatorReply::Tokenized { tokens, eos } = reply {
                    self.prompt = tokens;
                    self.tokens.eos = eos;
                }
                self.step = CoordinatorStep::Embed;
            },
            CoordinatorStep::Embed => {
                if let CoordinatorReply::Computed { tensor } = reply {
                    self.tensor = tensor;
                }
                self.step = CoordinatorStep::Forward;
            },
            CoordinatorStep::Forward => {
                if let CoordinatorReply::Computed { tensor } = reply {
                    self.tensor = tensor;
                }
                self.step = CoordinatorStep::SendHidden;
            },
            CoordinatorStep::SendHidden => {
                self.step = CoordinatorStep::AwaitLogits;
            },
            CoordinatorStep::AwaitLogits => {
                if let CoordinatorReply::Received { frame } = reply {
                    match recv_logits(&frame, self.seq) {
                        Ok(_) => {
                            self.tensor = frame.into_tensor();
                            self.step = CoordinatorStep::Sample;
                        },
                        Err(fault) => {
                            self.step = CoordinatorStep::BadReply { fault };
                        },
                    }
                }
            },
            CoordinatorStep::Sample => {
                if let CoordinatorReply::Sampled { token } = reply {
                    self.tokens.sampled(token);
                }
                self.seq = self.seq + 1;
                self.step = CoordinatorStep::Token;
            },
            CoordinatorStep::Token => {
                self.tokens.was_shown();
                if self.tokens.phase == TokenPhase::Decode {
                    self.step = CoordinatorStep::Embed;
                }
            },
            CoordinatorStep::BadSplit { error: _ } => {},
            CoordinatorStep::BadReply { fault: _ } => {},
        }
    }
}

} // verus!
