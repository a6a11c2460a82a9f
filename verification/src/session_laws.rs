//! What holds of coordinator and worker together, and of whole sessions.
use crate::coordinator::{hidden_type, reply_error, split_of, CoordinatorCall, CoordinatorCallView, CoordinatorModel, CoordinatorReply, CoordinatorStep, ReplyError, Split, SplitError};
use crate::generation::{PassMode, RunReply, TokenLoop, TokenPhase};
use crate::generation_laws::{greedy_run_shows_greedy_text, greedy_sample, greedy_show, run_is_valid, run_trace, sample_is_accounted, samples_are_greedy, show_is_accounted, tokens_accounted, tokens_are_greedy};
use crate::greedy::{decode_count, greedy_at_start, greedy_text, right_stop_fixes_the_count, right_stop_fixes_the_passes, shown_count, stops_right};
use crate::mlx_client::{Info, Tensor, TensorView};
use crate::payload::contents;
use crate::protocol::{control_frame, frame_bytes, frame_tensor, parse_frame, tensor_frame, Frame, FrameError, FrameView, MsgType};
use crate::protocol_laws::{fits_wire, read_after_write};
use crate::shape::{comma_parts_not_empty, is_shape, shape_dims, shape_dims_of_shape_text, shape_text};
use crate::text::digits;
use crate::timing::{log_steps, StepTiming};
use crate::worker::{info_answer, logits_answer, refusal_text, WorkerCall, WorkerCallView, WorkerModel, WorkerReply, WorkerStep};
use vstd::prelude::*;

verus! {

/// A split that is in order leaves no layer out and gives none to both machines.
pub proof fn split_covers_every_layer(local: Info, reply: FrameView, layer: int)
    requires
        split_of(local, reply) is Ok,
        0 <= layer < local.num_layers,
    ensures
        ({
            let split = split_of(local, reply)->Ok_0;
            let on_coordinator = layer < split.coordinator_end;
            let on_worker = split.worker_start <= layer < split.worker_end;
            &&& split.layers == local.num_layers
            &&& on_coordinator != on_worker
        }),
{
}

/// What a worker answers on its layers is never malformed, over the wire or not, and it makes
/// a split in order exactly where the two servers run one model without gap or overlap.
pub proof fn info_answer_settles_the_split(local: Info, remote: Info, seq: u32, rest: Seq<u8>)
    ensures
        parse_frame(frame_bytes(info_answer(seq, remote)) + rest) == Ok::<
            (FrameView, int),
            FrameError,
        >((info_answer(seq, remote), frame_bytes(info_answer(seq, remote)).len() as int)),
        split_of(local, info_answer(seq, remote)) != Err::<Split, SplitError>(
            SplitError::Malformed,
        ),
        split_of(local, info_answer(seq, remote)) is Ok <==> {
            &&& local.is_first
            &&& local.num_layers == remote.num_layers
            &&& local.end_layer == remote.start_layer
            &&& remote.end_layer == remote.num_layers
        },
{
    read_after_write(info_answer(seq, remote), rest);
}

/// The handshake comes to its end: the worker answers the coordinator's question, and the
/// coordinator either goes on to reset, as frame 1, or names what is wrong with the split.
pub proof fn handshake_completes(
    c: CoordinatorModel,
    w: WorkerModel,
    question: Frame,
    remote: Info,
    answer: Frame,
)
    requires
        c.wf(),
        c.step == CoordinatorStep::AwaitInfo,
        w.step == WorkerStep::AwaitFrame,
        question@ == control_frame(MsgType::Info, c.seq),
        answer@ == info_answer(question@.seq, remote),
    ensures
        ({
            let asked = w.next(WorkerReply::Received { frame: question });
            let told = asked.next(WorkerReply::LocalInfo { info: remote });
            let after = c.next(CoordinatorReply::Received { frame: answer });
            &&& asked.call() == WorkerCallView::FetchInfo
            &&& told.call() == (WorkerCallView::SendInfo { seq: c.seq, info: remote })
            &&& told.next(WorkerReply::Done).call() == WorkerCallView::AwaitFrame
            &&& match split_of(c.local, answer@) {
                Ok(split) => after.call() == (CoordinatorCallView::ResetLocal { split })
                    && after.next(CoordinatorReply::Done).call() == (
                CoordinatorCallView::SendControl { msg_type: MsgType::ResetCache, seq: 1 }),
                Err(error) => after.call() == (CoordinatorCallView::FailSplit { error }),
            }
        }),
{
}

/// A pass on the coordinator hands on every result: what was embedded goes through the local
/// layers, and what comes out of them is sent to the worker.
pub proof fn coordinator_hands_on_every_result(
    c: CoordinatorModel,
    embedded: CoordinatorReply,
    hidden: CoordinatorReply,
)
    requires
        c.wf(),
        c.step == CoordinatorStep::Embed,
    ensures
        ({
            let mode = c.tokens.mode();
            let fed = c.next(embedded);
            let passed = fed.next(hidden);
            &&& c.call() == if mode is Prefill {
                CoordinatorCallView::EmbedPrompt { tokens: c.prompt }
            } else {
                CoordinatorCallView::EmbedToken { token: c.tokens.next_id }
            }
            &&& fed.call() == (CoordinatorCallView::Forward { mode, input: embedded->tensor@ })
            &&& passed.call() == (CoordinatorCallView::SendHidden {
                msg_type: hidden_type(mode),
                seq: c.seq,
                input: hidden->tensor@,
            })
        }),
{
}

/// Whenever a call of the coordinator works on a tensor, that tensor is what the call right
/// before it computed, or what the frame that was just read carries.
pub proof fn coordinator_inputs_are_the_last_results(c: CoordinatorModel, reply: CoordinatorReply)
    requires
        c.wf(),
        c.expects(reply),
    ensures
        match c.next(reply).call() {
            CoordinatorCallView::Forward { mode, input } => reply is Computed && input
                == reply->tensor@,
            CoordinatorCallView::SendHidden { msg_type, seq, input } => reply is Computed && input
                == reply->tensor@,
            CoordinatorCallView::Sample { input } => reply is Received && input == frame_tensor(
                reply->frame@,
            ),
            _ => true,
        },
{
}

/// Whenever a call of the worker works on a tensor, that tensor is what the frame that was just
/// read carries, or what the call right before it computed.
pub proof fn worker_inputs_are_the_last_results(w: WorkerModel, reply: WorkerReply)
    requires
        w.expects(reply),
    ensures
        match w.next(reply).call() {
            WorkerCallView::Forward { mode, input } => reply is Received && input == frame_tensor(
                reply->frame@,
            ),
            WorkerCallView::Logits { input } => reply is Computed && input == reply->tensor@,
            WorkerCallView::SendLogits { seq, logits, compute_us } => reply is MadeLogits && logits
                == reply->logits@ && compute_us == reply->compute_us,
            _ => true,
        },
{
}

/// An exchange comes to its end: what the coordinator sends makes the worker run the pass that
/// the coordinator is in on the tensor that was sent, make logits of what came out, and answer
/// with those under the number that it was sent; and the coordinator takes that answer and
/// samples from the logits in it.
pub proof fn exchange_completes(
    c: CoordinatorModel,
    w: WorkerModel,
    sent: Frame,
    hidden: WorkerReply,
    logits: WorkerReply,
    answer: Frame,
)
    requires
        c.wf(),
        c.step == CoordinatorStep::SendHidden,
        w.step == WorkerStep::AwaitFrame,
        sent@ == tensor_frame(hidden_type(c.tokens.mode()), c.seq, c.tensor),
        answer@ == logits_answer(sent@.seq, logits->logits@, logits->compute_us),
    ensures
        ({
            let got = w.next(WorkerReply::Received { frame: sent });
            let run = got.next(hidden);
            let ready = run.next(logits);
            let waiting = c.next(CoordinatorReply::Done);
            let after = waiting.next(CoordinatorReply::Received { frame: answer });
            &&& c.call() == (CoordinatorCallView::SendHidden {
                msg_type: sent@.msg_type,
                seq: sent@.seq,
                input: c.tensor,
            })
            &&& got.call() == (WorkerCallView::Forward {
                mode: c.tokens.mode(),
                input: frame_tensor(sent@),
            })
            &&& run.call() == (WorkerCallView::Logits { input: hidden->tensor@ })
            &&& ready.call() == (WorkerCallView::SendLogits {
                seq: sent@.seq,
                logits: logits->logits@,
                compute_us: logits->compute_us,
            })
            &&& ready.next(WorkerReply::Done).call() == WorkerCallView::AwaitFrame
            &&& waiting.call() == CoordinatorCallView::AwaitLogits
            &&& after.call() == (CoordinatorCallView::Sample { input: frame_tensor(answer@) })
        }),
{
}

/// Logits that come back over the wire are taken, and nothing else is: neither a frame of
/// another type nor one with another number.
pub proof fn only_the_answer_is_taken(
    seq: u32,
    logits: TensorView,
    compute_us: u128,
    other: FrameView,
    rest: Seq<u8>,
)
    requires
        fits_wire(logits_answer(seq, logits, compute_us)),
    ensures
        ({
            let answer = logits_answer(seq, logits, compute_us);
            &&& parse_frame(frame_bytes(answer) + rest) == Ok::<(FrameView, int), FrameError>(
                (answer, frame_bytes(answer).len() as int),
            )
            &&& reply_error(answer, seq) is None
        }),
        reply_error(other, seq) is None <==> other.msg_type == MsgType::Logits && other.seq == seq,
{
    read_after_write(logits_answer(seq, logits, compute_us), rest);
}

/// After a connection has ended the worker empties its cache before it takes the next one.
pub proof fn worker_resets_between_connections(w: WorkerModel)
    requires
        w.step == WorkerStep::AwaitFrame,
    ensures
        w.next(WorkerReply::Closed).call() == WorkerCallView::Reset,
        w.next(WorkerReply::Closed).next(WorkerReply::Done).call() == WorkerCallView::Accept,
{
}

/// The worker gives up exactly on a frame of logits; after every other frame it comes back to
/// wait for the next one.
pub proof fn worker_refuses_logits_only(
    w: WorkerModel,
    frame: Frame,
    info: Info,
    hidden: WorkerReply,
    logits: WorkerReply,
)
    requires
        w.step == WorkerStep::AwaitFrame,
    ensures
        ({
            let got = w.next(WorkerReply::Received { frame });
            match frame@.msg_type {
                MsgType::Logits => got.call() == WorkerCallView::Fail,
                MsgType::Info => got.next(WorkerReply::LocalInfo { info }).next(
                    WorkerReply::Done,
                ).call() == WorkerCallView::AwaitFrame,
                MsgType::ResetCache => got.call() == WorkerCallView::Reset && got.next(
                    WorkerReply::Done,
                ).call() == WorkerCallView::AwaitFrame,
                _ => got.next(hidden).next(logits).next(WorkerReply::Done).call()
                    == WorkerCallView::AwaitFrame,
            }
        }),
{
}

/// A worker so far: its state, and the frames of the connection that it serves or served last.
#[verifier::ext_equal]
pub struct WorkerTrace {
    pub w: WorkerModel,
    /// The frames that were read.
    pub requests: Seq<FrameView>,
    /// The frames that were sent.
    pub answers: Seq<FrameView>,
    /// How often the cache was emptied because a frame asked for it.
    pub resets: nat,
}

/// The worker after `replies`, one for each call.
pub open spec fn worker_trace(replies: Seq<WorkerReply>) -> WorkerTrace
    decreases replies.len(),
{
    if replies.len() == 0 {
        WorkerTrace {
            w: WorkerModel::start(),
            requests: Seq::empty(),
            answers: Seq::empty(),
            resets: 0,
        }
    } else {
        let before = worker_trace(replies.drop_last());
        let reply = replies.last();
        WorkerTrace {
            w: before.w.next(reply),
            requests: match before.w.call() {
                WorkerCallView::Accept => Seq::empty(),
                WorkerCallView::AwaitFrame => match reply {
                    WorkerReply::Received { frame } => before.requests.push(frame@),
                    _ => before.requests,
                },
                _ => before.requests,
            },
            answers: match before.w.call() {
                WorkerCallView::Accept => Seq::empty(),
                WorkerCallView::SendInfo { seq, info } => before.answers.push(
                    info_answer(seq, info),
                ),
                WorkerCallView::SendLogits { seq, logits, compute_us } => before.answers.push(
                    logits_answer(seq, logits, compute_us),
                ),
                _ => before.answers,
            },
            resets: match before.w.step {
                WorkerStep::Accept => 0,
                WorkerStep::ResetOnRequest => before.resets + 1,
                _ => before.resets,
            },
        }
    }
}

/// Whether each of `replies` answers the call that was due.
pub open spec fn worker_is_valid(replies: Seq<WorkerReply>) -> bool
    decreases replies.len(),
{
    replies.len() > 0 ==> {
        &&& worker_is_valid(replies.drop_last())
        &&& worker_trace(replies.drop_last()).w.expects(replies.last())
    }
}

/// The types and numbers of frames.
pub open spec fn heads(frames: Seq<FrameView>) -> Seq<(MsgType, u32)> {
    frames.map_values(|f: FrameView| (f.msg_type, f.seq))
}

/// The types and numbers of the answers that requests are owed: one for each, in order and
/// under its number, but none for a reset and for logits.
pub open spec fn owed(requests: Seq<FrameView>) -> Seq<(MsgType, u32)>
    decreases requests.len(),
{
    if requests.len() == 0 {
        Seq::empty()
    } else {
        let before = owed(requests.drop_last());
        let last = requests.last();
        match last.msg_type {
            MsgType::Info => before.push((MsgType::Info, last.seq)),
            MsgType::Prefill => before.push((MsgType::Logits, last.seq)),
            MsgType::DecodeStep => before.push((MsgType::Logits, last.seq)),
            MsgType::ResetCache => before,
            MsgType::Logits => before,
        }
    }
}

/// How many of the requests ask for a reset.
pub open spec fn resets_asked(requests: Seq<FrameView>) -> nat
    decreases requests.len(),
{
    if requests.len() == 0 {
        0
    } else {
        resets_asked(requests.drop_last()) + if requests.last().msg_type is ResetCache {
            1nat
        } else {
            0nat
        }
    }
}

/// Whether the worker is at work on an answer to the request that it read last.
pub open spec fn is_answering(step: WorkerStep) -> bool {
    match step {
        WorkerStep::FetchInfo { seq } => true,
        WorkerStep::SendInfo { seq, info } => true,
        WorkerStep::Forward { seq, mode } => true,
        WorkerStep::Logits { seq } => true,
        WorkerStep::SendLogits { seq } => true,
        _ => false,
    }
}

/// What the worker has sent on a connection are the answers that the requests are owed, one for
/// each and in order; while it is at work on a request, that one's answer alone is missing. It has
/// emptied its cache once for each request that asks for it; while it does so, that one time is
/// missing.
pub proof fn every_request_gets_its_answer(replies: Seq<WorkerReply>)
    requires
        worker_is_valid(replies),
    ensures
        ({
            let t = worker_trace(replies);
            &&& !is_answering(t.w.step) ==> heads(t.answers) == owed(t.requests)
            &&& is_answering(t.w.step) ==> t.requests.len() > 0 && heads(t.answers) == owed(
                t.requests.drop_last(),
            )
            &&& resets_asked(t.requests) == t.resets + if t.w.step is ResetOnRequest {
                1nat
            } else {
                0nat
            }
            &&& match t.w.step {
                WorkerStep::FetchInfo { seq } => owed(t.requests) == heads(t.answers).push(
                    (MsgType::Info, seq),
                ),
                WorkerStep::SendInfo { seq, info } => owed(t.requests) == heads(t.answers).push(
                    (MsgType::Info, seq),
                ),
                WorkerStep::Forward { seq, mode } => owed(t.requests) == heads(t.answers).push(
                    (MsgType::Logits, seq),
                ),
                WorkerStep::Logits { seq } => owed(t.requests) == heads(t.answers).push(
                    (MsgType::Logits, seq),
                ),
                WorkerStep::SendLogits { seq } => owed(t.requests) == heads(t.answers).push(
                    (MsgType::Logits, seq),
                ),
                _ => true,
            }
        }),
    decreases replies.len(),
{
    let t = worker_trace(replies);
    if replies.len() == 0 {
        assert(heads(t.answers) =~= owed(t.requests));
    } else {
        every_request_gets_its_answer(replies.drop_last());
        let before = worker_trace(replies.drop_last());
        match before.w.step {
            WorkerStep::Accept => {
                assert(heads(t.answers) =~= owed(t.requests));
            },
            WorkerStep::AwaitFrame => {
                if let WorkerReply::Received { frame } = replies.last() {
                    assert(t.requests.drop_last() =~= before.requests);
                }
            },
            WorkerStep::SendInfo { seq, info } => {
                assert(heads(t.answers) =~= heads(before.answers).push((MsgType::Info, seq)));
            },
            WorkerStep::SendLogits { seq } => {
                assert(heads(t.answers) =~= heads(before.answers).push((MsgType::Logits, seq)));
            },
            _ => {},
        }
    }
}

/// A frame that went over the connection.
#[verifier::ext_equal]
pub enum SessionEvent {
    Sent { frame: FrameView },
    Got { frame: FrameView },
}

/// A session so far: its state, and what its calls have done.
#[verifier::ext_equal]
pub struct SessionTrace {
    pub c: CoordinatorModel,
    /// The tokens that were shown.
    pub shown: Seq<u32>,
    /// The tokens that were sampled.
    pub sampled: Seq<u32>,
    /// The tokens that went through the model since its caches were emptied.
    pub fed: Seq<u32>,
    /// The frames that went over the connection.
    pub events: Seq<SessionEvent>,
}

/// The session after `replies`, one for each call.
pub open spec fn session_trace(
    max_tokens: u32,
    text: Seq<char>,
    replies: Seq<CoordinatorReply>,
) -> SessionTrace
    decreases replies.len(),
{
    if replies.len() == 0 {
        SessionTrace {
            c: CoordinatorModel::start(max_tokens, text),
            shown: Seq::empty(),
            sampled: Seq::empty(),
            fed: Seq::empty(),
            events: Seq::empty(),
        }
    } else {
        let before = session_trace(max_tokens, text, replies.drop_last());
        let reply = replies.last();
        SessionTrace {
            c: before.c.next(reply),
            shown: match before.c.call() {
                CoordinatorCallView::Show { token } => before.shown.push(token),
                _ => before.shown,
            },
            sampled: match before.c.call() {
                CoordinatorCallView::Sample { input } => before.sampled.push(reply->token),
                _ => before.sampled,
            },
            fed: match before.c.call() {
                CoordinatorCallView::ResetLocal { split } => Seq::empty(),
                CoordinatorCallView::EmbedPrompt { tokens } => before.fed + tokens,
                CoordinatorCallView::EmbedToken { token } => before.fed.push(token),
                _ => before.fed,
            },
            events: match before.c.call() {
                CoordinatorCallView::SendControl { msg_type, seq } => before.events.push(
                    SessionEvent::Sent { frame: control_frame(msg_type, seq) },
                ),
                CoordinatorCallView::SendHidden { msg_type, seq, input } => before.events.push(
                    SessionEvent::Sent { frame: tensor_frame(msg_type, seq, input) },
                ),
                CoordinatorCallView::AwaitInfo => before.events.push(
                    SessionEvent::Got { frame: reply->frame@ },
                ),
                CoordinatorCallView::AwaitLogits => before.events.push(
                    SessionEvent::Got { frame: reply->frame@ },
                ),
                _ => before.events,
            },
        }
    }
}

/// Whether each of `replies` answers the call that was due.
pub open spec fn session_is_valid(
    max_tokens: u32,
    text: Seq<char>,
    replies: Seq<CoordinatorReply>,
) -> bool
    decreases replies.len(),
{
    replies.len() > 0 ==> {
        &&& session_is_valid(max_tokens, text, replies.drop_last())
        &&& session_trace(max_tokens, text, replies.drop_last()).c.expects(replies.last())
    }
}

/// Whether every sample was the model's first choice after what it was fed.
pub open spec fn session_samples_are_greedy(
    choice: spec_fn(Seq<u32>) -> u32,
    max_tokens: u32,
    text: Seq<char>,
    replies: Seq<CoordinatorReply>,
) -> bool
    decreases replies.len(),
{
    replies.len() > 0 ==> {
        let before = session_trace(max_tokens, text, replies.drop_last());
        &&& session_samples_are_greedy(choice, max_tokens, text, replies.drop_last())
        &&& before.c.call() is Sample ==> replies.last()->token == choice(before.fed)
    }
}

/// What holds in every state holds at the start, and after every reply that is expected.
pub proof fn session_stays_well_formed(c: CoordinatorModel, reply: CoordinatorReply)
    ensures
        CoordinatorModel::start(c.tokens.max_tokens, c.text).wf(),
        c.wf() && c.expects(reply) ==> c.next(reply).wf(),
{
}

proof fn session_is_accounted(max_tokens: u32, text: Seq<char>, replies: Seq<CoordinatorReply>)
    requires
        session_is_valid(max_tokens, text, replies),
    ensures
        ({
            let t = session_trace(max_tokens, text, replies);
            &&& t.c.wf()
            &&& t.c.tokens.max_tokens == max_tokens
            &&& tokens_accounted(t.c.tokens, t.shown, t.sampled)
        }),
    decreases replies.len(),
{
    if replies.len() > 0 {
        session_is_accounted(max_tokens, text, replies.drop_last());
        let t = session_trace(max_tokens, text, replies.drop_last());
        let reply = replies.last();
        session_stays_well_formed(t.c, reply);
        match t.c.step {
            CoordinatorStep::Sample => {
                sample_is_accounted(t.c.tokens, t.shown, t.sampled, reply->token);
            },
            CoordinatorStep::Token => {
                show_is_accounted(t.c.tokens, t.shown, t.sampled);
            },
            _ => {},
        }
    }
}

/// A session that has come to its end has shown what was sampled and stopped where it should: at
/// the first sample that ends the text, or at `max_tokens`. It counts the decode passes, all
/// samples but the first: as many as there are samples before the first that ends the text,
/// behind which nothing is sampled, and no more than `max_tokens`.
pub proof fn session_shows_its_samples(
    max_tokens: u32,
    text: Seq<char>,
    replies: Seq<CoordinatorReply>,
)
    requires
        session_is_valid(max_tokens, text, replies),
        session_trace(max_tokens, text, replies).c.call() is Finish,
    ensures
        ({
            let t = session_trace(max_tokens, text, replies);
            &&& stops_right(t.shown, t.sampled, t.c.tokens.eos, max_tokens as nat)
            &&& t.shown.len() == shown_count(t.sampled, t.c.tokens.eos, max_tokens as nat)
            &&& t.c.call()->token_count == t.sampled.len() - 1
            &&& t.c.call()->token_count == decode_count(
                t.sampled,
                t.c.tokens.eos,
                max_tokens as nat,
            )
        }),
{
    session_is_accounted(max_tokens, text, replies);
    let t = session_trace(max_tokens, text, replies);
    right_stop_fixes_the_count(t.shown, t.sampled, t.c.tokens.eos, max_tokens as nat);
    right_stop_fixes_the_passes(t.shown, t.sampled, t.c.tokens.eos, max_tokens as nat);
}

/// A log that is kept at each sample has one decode step for each token that the session
/// counts.
pub proof fn log_has_a_step_per_token(
    c: CoordinatorModel,
    reply: CoordinatorReply,
    steps: Seq<StepTiming>,
    t: StepTiming,
)
    requires
        c.wf(),
        c.expects(reply),
        steps.len() == c.tokens.token_count,
    ensures
        if c.call() is Sample {
            log_steps(steps, c.tokens.mode(), t).len() == c.next(reply).tokens.token_count
        } else {
            steps.len() == c.next(reply).tokens.token_count
        },
{
}

/// Whether `event` is what goes over the connection as the `i`-th frame of a session: the
/// question on the layers as frame 0 and its answer, the reset as frame 1, the prompt as frame 2,
/// and then, in turn, the logits that answer the frame before and a decode step under the next
/// number.
pub open spec fn is_due_at(event: SessionEvent, i: int) -> bool {
    if i == 0 {
        event == SessionEvent::Sent { frame: control_frame(MsgType::Info, 0) }
    } else if i == 1 {
        event matches SessionEvent::Got { frame } && frame.msg_type == MsgType::Info
    } else if i == 2 {
        event == SessionEvent::Sent { frame: control_frame(MsgType::ResetCache, 1) }
    } else if i == 3 {
        event matches SessionEvent::Sent { frame } && frame.msg_type == MsgType::Prefill
            && frame.seq == 2
    } else if i % 2 == 0 {
        event matches SessionEvent::Got { frame } && frame.msg_type == MsgType::Logits && frame.seq
            == i / 2
    } else {
        event matches SessionEvent::Sent { frame } && frame.msg_type == MsgType::DecodeStep
            && frame.seq == (i + 1) / 2
    }
}

/// How many frames have gone over the connection in a state of a session.
pub open spec fn frames_so_far(c: CoordinatorModel) -> int {
    match c.step {
        CoordinatorStep::LocalInfo => 0,
        CoordinatorStep::SendInfo => 0,
        CoordinatorStep::AwaitInfo => 1,
        CoordinatorStep::ResetLocal { split } => 2,
        CoordinatorStep::SendReset => 2,
        CoordinatorStep::BadSplit { error } => 2,
        CoordinatorStep::AwaitLogits => 2 * c.seq,
        CoordinatorStep::Sample => 2 * c.seq + 1,
        CoordinatorStep::BadReply { fault } => 2 * c.seq + 1,
        _ => 2 * c.seq - 1,
    }
}

/// The frames of a session are, in this order: the question on the layers (0) and its answer,
/// the reset (1), the prompt (2), and then decode steps (3, 4 and so on), each behind the logits
/// that answer the one before. Only the answer that ends a session in an error may be another
/// frame. A session that shows all it should has sent one decode step for each token that it
/// counts.
pub proof fn frames_go_in_order(
    max_tokens: u32,
    text: Seq<char>,
    replies: Seq<CoordinatorReply>,
)
    requires
        session_is_valid(max_tokens, text, replies),
    ensures
        ({
            let t = session_trace(max_tokens, text, replies);
            let failed = t.c.call() is FailSplit || t.c.call() is FailReply;
            let good = t.events.len() - if failed {
                1int
            } else {
                0int
            };
            &&& t.events.len() == frames_so_far(t.c)
            &&& forall|i: int| 0 <= i < good ==> is_due_at(#[trigger] t.events[i], i)
            &&& failed ==> good >= 0 && t.events.last() is Got
            &&& t.c.call() is Finish ==> t.events.len() == 5 + 2 * t.c.tokens.token_count
        }),
    decreases replies.len(),
{
    session_is_accounted(max_tokens, text, replies);
    if replies.len() > 0 {
        frames_go_in_order(max_tokens, text, replies.drop_last());
        session_is_accounted(max_tokens, text, replies.drop_last());
    }
}

proof fn session_is_greedy(
    choice: spec_fn(Seq<u32>) -> u32,
    max_tokens: u32,
    text: Seq<char>,
    replies: Seq<CoordinatorReply>,
)
    requires
        session_is_valid(max_tokens, text, replies),
        session_samples_are_greedy(choice, max_tokens, text, replies),
    ensures
        ({
            let t = session_trace(max_tokens, text, replies);
            let prompt = t.c.prompt;
            &&& tokens_are_greedy(choice, prompt, t.c.tokens, t.shown)
            &&& match t.c.step {
                CoordinatorStep::Embed => if t.c.tokens.phase is Prefill {
                    t.fed.len() == 0
                } else {
                    t.fed == prompt + t.shown.drop_last()
                },
                CoordinatorStep::Forward => t.fed == prompt + t.shown,
                CoordinatorStep::SendHidden => t.fed == prompt + t.shown,
                CoordinatorStep::AwaitLogits => t.fed == prompt + t.shown,
                CoordinatorStep::Sample => t.fed == prompt + t.shown,
                CoordinatorStep::Token => t.c.tokens.phase is Show ==> t.fed == prompt + t.shown,
                CoordinatorStep::BadReply { fault } => true,
                _ => t.fed.len() == 0,
            }
        }),
    decreases replies.len(),
{
    session_is_accounted(max_tokens, text, replies);
    if replies.len() == 0 {
        greedy_at_start(choice, Seq::empty(), 0, max_tokens as nat);
    } else {
        session_is_accounted(max_tokens, text, replies.drop_last());
        session_is_greedy(choice, max_tokens, text, replies.drop_last());
        let t = session_trace(max_tokens, text, replies.drop_last());
        let after = session_trace(max_tokens, text, replies);
        let prompt = t.c.prompt;
        let reply = replies.last();
        match t.c.step {
            CoordinatorStep::Tokenize => {
                assert(t.shown =~= Seq::<u32>::empty());
                greedy_at_start(choice, reply->tokens@, reply->eos, max_tokens as nat);
            },
            CoordinatorStep::Embed => {
                if t.c.tokens.phase is Prefill {
                    assert(t.shown =~= Seq::<u32>::empty());
                } else {
                    assert(t.shown =~= t.shown.drop_last().push(t.c.tokens.next_id));
                }
                assert(after.fed =~= prompt + t.shown);
            },
            CoordinatorStep::Sample => {
                greedy_sample(choice, prompt, t.c.tokens, t.shown, reply->token);
            },
            CoordinatorStep::Token => {
                greedy_show(choice, prompt, t.c.tokens, t.shown);
                assert(t.shown.push(t.c.tokens.next_id).drop_last() =~= t.shown);
            },
            _ => {},
        }
    }
}

/// A session whose every sample is the model's first choice shows the greedy text after the
/// prompt.
pub proof fn greedy_session_shows_greedy_text(
    choice: spec_fn(Seq<u32>) -> u32,
    max_tokens: u32,
    text: Seq<char>,
    replies: Seq<CoordinatorReply>,
)
    requires
        session_is_valid(max_tokens, text, replies),
        session_samples_are_greedy(choice, max_tokens, text, replies),
        session_trace(max_tokens, text, replies).c.call() is Finish,
    ensures
        ({
            let t = session_trace(max_tokens, text, replies);
            t.shown == greedy_text(choice, t.c.prompt, t.c.tokens.eos, max_tokens as nat)
        }),
{
    session_is_accounted(max_tokens, text, replies);
    session_is_greedy(choice, max_tokens, text, replies);
}

/// Splitting the layers over two machines loses nothing: a greedy session shows the same
/// tokens as a greedy run on one machine.
pub proof fn session_shows_what_one_machine_shows(
    choice: spec_fn(Seq<u32>) -> u32,
    servers: usize,
    max_tokens: u32,
    text: Seq<char>,
    replies: Seq<CoordinatorReply>,
    run_replies: Seq<RunReply>,
)
    requires
        servers > 0,
        session_is_valid(max_tokens, text, replies),
        session_samples_are_greedy(choice, max_tokens, text, replies),
        session_trace(max_tokens, text, replies).c.call() is Finish,
        run_is_valid(servers, max_tokens, text, run_replies),
        samples_are_greedy(choice, servers, max_tokens, text, run_replies),
        run_trace(servers, max_tokens, text, run_replies).run.call() is Finish,
        session_trace(max_tokens, text, replies).c.prompt == run_trace(
            servers,
            max_tokens,
            text,
            run_replies,
        ).run.prompt,
        session_trace(max_tokens, text, replies).c.tokens.eos == run_trace(
            servers,
            max_tokens,
            text,
            run_replies,
        ).run.tokens.eos,
    ensures
        session_trace(max_tokens, text, replies).shown == run_trace(
            servers,
            max_tokens,
            text,
            run_replies,
        ).shown,
{
    greedy_session_shows_greedy_text(choice, max_tokens, text, replies);
    greedy_run_shows_greedy_text(choice, servers, max_tokens, text, run_replies);
}

/// The view of a coordinator's call is the call itself, with what its text, tokens and tensors
/// hold.
pub proof fn coordinator_calls_mean_what_they_say(call: CoordinatorCall<'_>)
    ensures
        match call {
            CoordinatorCall::LocalInfo => call@ is LocalInfo,
            CoordinatorCall::SendControl { msg_type, seq } => call@
                == (CoordinatorCallView::SendControl { msg_type, seq }),
            CoordinatorCall::AwaitInfo => call@ is AwaitInfo,
            CoordinatorCall::ResetLocal { split } => call@ == (CoordinatorCallView::ResetLocal {
                split,
            }),
            CoordinatorCall::Tokenize { text } => call@ is Tokenize && call@->text == text@,
            CoordinatorCall::EmbedPrompt { tokens } => call@ is EmbedPrompt && call@->tokens
                == tokens@,
            CoordinatorCall::EmbedToken { token } => call@ == (CoordinatorCallView::EmbedToken {
                token,
            }),
            CoordinatorCall::Forward { mode, input } => call@ is Forward && call@->mode == mode
                && call@->Forward_input.data == contents(input.data) && call@->Forward_input.shape
                == input.shape@,
            CoordinatorCall::SendHidden { msg_type, seq, input } => call@ is SendHidden
                && call@->SendHidden_msg_type == msg_type && call@->SendHidden_seq == seq
                && call@->SendHidden_input.data == contents(input.data)
                && call@->SendHidden_input.shape == input.shape@,
            CoordinatorCall::AwaitLogits => call@ is AwaitLogits,
            CoordinatorCall::Sample { input } => call@ is Sample && call@->Sample_input.data
                == contents(input.data) && call@->Sample_input.shape == input.shape@,
            CoordinatorCall::Show { token } => call@ == (CoordinatorCallView::Show { token }),
            CoordinatorCall::Finish { token_count } => call@ == (CoordinatorCallView::Finish {
                token_count,
            }),
            CoordinatorCall::FailSplit { error } => call@ == (CoordinatorCallView::FailSplit {
                error,
            }),
            CoordinatorCall::FailReply { fault } => call@ == (CoordinatorCallView::FailReply {
                fault,
            }),
        },
{
}

/// The view of a worker's call is the call itself, with what its tensors hold.
pub proof fn worker_calls_mean_what_they_say(call: WorkerCall<'_>)
    ensures
        match call {
            WorkerCall::Accept => call@ is Accept,
            WorkerCall::AwaitFrame => call@ is AwaitFrame,
            WorkerCall::FetchInfo => call@ is FetchInfo,
            WorkerCall::SendInfo { seq, info } => call@ == (WorkerCallView::SendInfo { seq, info }),
            WorkerCall::Reset => call@ is Reset,
            WorkerCall::Forward { mode, input } => call@ is Forward && call@->mode == mode
                && call@->Forward_input.data == contents(input.data) && call@->Forward_input.shape
                == input.shape@,
            WorkerCall::Logits { input } => call@ is Logits && call@->Logits_input.data == contents(
                input.data,
            ) && call@->Logits_input.shape == input.shape@,
            WorkerCall::SendLogits { seq, logits, compute_us } => call@ is SendLogits
                && call@->SendLogits_seq == seq && call@->logits.data == contents(logits.data)
                && call@->logits.shape == logits.shape@ && call@->compute_us == compute_us,
            WorkerCall::Fail => call@ is Fail,
        },
{
}

/// Each call of a session is answered by its own kind of reply, whatever that holds, and by no
/// other, as long as there is a number for the next frame.
pub proof fn session_expects_every_answer(c: CoordinatorModel, reply: CoordinatorReply)
    requires
        c.wf(),
    ensures
        c.expects(reply) <==> match c.call() {
            CoordinatorCallView::LocalInfo => reply is LocalInfo,
            CoordinatorCallView::SendControl { msg_type, seq } => reply is Done,
            CoordinatorCallView::AwaitInfo => reply is Received,
            CoordinatorCallView::ResetLocal { split } => reply is Done,
            CoordinatorCallView::Tokenize { text } => reply is Tokenized,
            CoordinatorCallView::EmbedPrompt { tokens } => reply is Computed,
            CoordinatorCallView::EmbedToken { token } => reply is Computed,
            CoordinatorCallView::Forward { mode, input } => reply is Computed,
            CoordinatorCallView::SendHidden { msg_type, seq, input } => reply is Done,
            CoordinatorCallView::AwaitLogits => reply is Received,
            CoordinatorCallView::Sample { input } => reply is Sampled && c.seq < u32::MAX,
            CoordinatorCallView::Show { token } => reply is Done,
            CoordinatorCallView::Finish { token_count } => false,
            CoordinatorCallView::FailSplit { error } => false,
            CoordinatorCallView::FailReply { fault } => false,
        },
{
}

/// Each call of a worker is answered by its own kind of reply, whatever that holds, and by no
/// other.
pub proof fn worker_expects_every_answer(w: WorkerModel, reply: WorkerReply)
    ensures
        w.expects(reply) <==> match w.call() {
            WorkerCallView::Accept => reply is Done,
            WorkerCallView::AwaitFrame => reply is Received || reply is Closed,
            WorkerCallView::FetchInfo => reply is LocalInfo,
            WorkerCallView::SendInfo { seq, info } => reply is Done,
            WorkerCallView::Reset => reply is Done,
            WorkerCallView::Forward { mode, input } => reply is Computed,
            WorkerCallView::Logits { input } => reply is MadeLogits,
            WorkerCallView::SendLogits { seq, logits, compute_us } => reply is Done,
            WorkerCallView::Fail => false,
        },
{
}

/// When two servers make one model, from what the one says of itself and what the other's frame
/// says: the frame is an answer on layers with three numbers, the first server starts the model,
/// both have the same number of layers, the second takes up where the first ends, and ends where
/// the model does. What fails first is named, with the numbers that do not fit.
pub proof fn splits_are_judged_by_their_numbers(local: Info, reply: Frame)
    ensures
        ({
            let shape = reply.shape@;
            let made = split_of(local, reply@);
            if reply.msg_type != MsgType::Info || shape.len() != 3 {
                made == Err::<Split, SplitError>(SplitError::Malformed)
            } else if !local.is_first {
                made == Err::<Split, SplitError>(
                    SplitError::NotFirst { start: local.start_layer, end: local.end_layer },
                )
            } else if local.num_layers != shape[2] {
                made == Err::<Split, SplitError>(
                    SplitError::Mismatch { coordinator: local.num_layers, worker: shape[2] },
                )
            } else if local.end_layer != shape[0] {
                made == Err::<Split, SplitError>(
                    SplitError::NotContiguous {
                        coordinator_end: local.end_layer,
                        worker_start: shape[0],
                    },
                )
            } else if shape[1] != shape[2] {
                made == Err::<Split, SplitError>(
                    SplitError::NotLast { layers: shape[2], worker_end: shape[1] },
                )
            } else {
                &&& made is Ok
                &&& made->Ok_0.coordinator_end == local.end_layer
                &&& made->Ok_0.worker_start == shape[0]
                &&& made->Ok_0.worker_end == shape[1]
                &&& made->Ok_0.layers == shape[2]
            }
        }),
{
}

/// What is wrong with a frame as an answer is first its type, then its number.
pub proof fn answers_are_judged_by_type_and_number(frame: Frame, seq: u32)
    ensures
        frame.msg_type != MsgType::Logits ==> reply_error(frame@, seq) == Some(
            ReplyError::NotLogits { got_type: frame.msg_type },
        ),
        frame.msg_type == MsgType::Logits && frame.seq != seq ==> reply_error(frame@, seq) == Some(
            ReplyError::WrongSeq { sent: seq, got: frame.seq },
        ),
        frame.msg_type == MsgType::Logits && frame.seq == seq ==> reply_error(frame@, seq) is None,
{
}

/// What a session says of its split and of its errors.
pub proof fn session_messages(
    split: Split,
    a: u32,
    b: u32,
    msg_type: MsgType,
)
    ensures
        split.spec_message() == "split OK: coordinator 0.."@ + digits(split.coordinator_end as nat)
            + " + worker "@ + digits(split.worker_start as nat) + ".."@ + digits(
            split.worker_end as nat,
        ) + " = "@ + digits(split.layers as nat) + " layers"@,
        SplitError::Malformed.spec_message() == "worker sent a malformed Info reply"@,
        (SplitError::NotFirst { start: a, end: b }).spec_message()
            == "coordinator's local server must start at layer 0, got "@ + digits(a as nat) + ".."@
            + digits(b as nat),
        (SplitError::Mismatch { coordinator: a, worker: b }).spec_message()
            == "model mismatch: coordinator has "@ + digits(a as nat) + " layers, worker has "@
            + digits(b as nat),
        (SplitError::NotContiguous { coordinator_end: a, worker_start: b }).spec_message()
            == "layer split is not contiguous: coordinator ends at "@ + digits(a as nat)
            + ", worker starts at "@ + digits(b as nat) + " (gap or overlap)"@,
        (SplitError::NotLast { layers: a, worker_end: b }).spec_message()
            == "worker must end at the final layer "@ + digits(a as nat) + ", got "@ + digits(
            b as nat,
        ),
        (ReplyError::NotLogits { got_type: msg_type }).spec_message()
            == "expected Logits frame, got "@ + msg_type.spec_name(),
        (ReplyError::WrongSeq { sent: a, got: b }).spec_message() == "seq mismatch: sent "@
            + digits(a as nat) + ", got "@ + digits(b as nat),
        refusal_text() == "worker received an unexpected Logits frame"@,
{
}

/// The answer on a worker's layers has its three numbers as dimensions, and the answer to a
/// hidden state carries the logits, whatever they are: all of their data, and their dimensions.
/// Each has the number of its question, and the second says how long it took, in 64 bits.
pub proof fn answers_carry_what_was_asked(seq: u32, info: Info, logits: Tensor, compute_us: u128)
    ensures
        ({
            let f = info_answer(seq, info);
            &&& f.msg_type == MsgType::Info
            &&& f.seq == seq
            &&& f.worker_compute_us == 0
            &&& f.shape.len() == 3
            &&& f.shape[0] == info.start_layer
            &&& f.shape[1] == info.end_layer
            &&& f.shape[2] == info.num_layers
            &&& f.payload.len() == 0
            &&& f.dtype == 0
        }),
        ({
            let f = logits_answer(seq, logits@, compute_us);
            &&& f.msg_type == MsgType::Logits
            &&& f.seq == seq
            &&& f.worker_compute_us == compute_us as int % 0x1_0000_0000_0000_0000
            &&& f.shape == shape_dims(logits.shape@)
            &&& f.payload == contents(logits.data)
            &&& f.dtype == 0
        }),
{
    assert(compute_us as u64 == compute_us % 0x1_0000_0000_0000_0000) by (bit_vector);
}

/// What the coordinator samples from after an exchange are the logits that the worker's server
/// made: their data, all of it, and their dimensions. What the worker ran its layers on is what
/// came out of the coordinator's: its data and its dimensions.
pub proof fn tensors_cross_the_connection(
    c: CoordinatorModel,
    w: WorkerModel,
    sent: Frame,
    hidden: WorkerReply,
    logits: WorkerReply,
    answer: Frame,
)
    requires
        c.wf(),
        c.call() is SendHidden,
        w.call() is AwaitFrame,
        hidden is Computed,
        logits is MadeLogits,
        is_shape(c.call()->SendHidden_input.shape),
        is_shape(logits->logits.shape@),
        sent@ == tensor_frame(
            c.call()->SendHidden_msg_type,
            c.call()->SendHidden_seq,
            c.call()->SendHidden_input,
        ),
        ({
            let ready = w.next(WorkerReply::Received { frame: sent }).next(hidden).next(logits);
            answer@ == logits_answer(
                ready.call()->SendLogits_seq,
                ready.call()->logits,
                ready.call()->compute_us,
            )
        }),
    ensures
        ({
            let run = w.next(WorkerReply::Received { frame: sent });
            let ready = run.next(hidden).next(logits);
            let after = c.next(CoordinatorReply::Done).next(
                CoordinatorReply::Received { frame: answer },
            );
            let input = c.call()->SendHidden_input;
            &&& run.call() is Forward
            &&& run.call()->Forward_input.data == input.data
            &&& is_shape(run.call()->Forward_input.shape)
            &&& shape_dims(run.call()->Forward_input.shape) == shape_dims(input.shape)
            &&& ready.call() is SendLogits
            &&& after.call() is Sample
            &&& after.call()->Sample_input.data == contents(logits->logits.data)
            &&& is_shape(after.call()->Sample_input.shape)
            &&& shape_dims(after.call()->Sample_input.shape) == shape_dims(logits->logits.shape@)
        }),
{
    let input = c.call()->SendHidden_input;
    comma_parts_not_empty(input.shape);
    comma_parts_not_empty(logits->logits.shape@);
    shape_dims_of_shape_text(shape_dims(input.shape));
    shape_dims_of_shape_text(shape_dims(logits->logits.shape@));
}

/// How a worker serves a frame, call by call, from the frame and the replies alone. A question on
/// layers is answered with those that its server names; a reset is made; a hidden state goes
/// through the layers, as prefill or as decode by its type, what comes out is made into logits,
/// and those are sent with the time that they took; logits are refused. Answers have the frame's
/// number, and the next frame is awaited behind them.
pub proof fn worker_serves_each_frame(
    w: WorkerModel,
    frame: Frame,
    info: Info,
    hidden: Tensor,
    logits: Tensor,
    compute_us: u128,
)
    requires
        w.call() is AwaitFrame,
    ensures
        ({
            let got = w.next(WorkerReply::Received { frame });
            match frame.msg_type {
                MsgType::Info => {
                    let told = got.next(WorkerReply::LocalInfo { info });
                    &&& got.call() is FetchInfo
                    &&& told.call() == (WorkerCallView::SendInfo { seq: frame.seq, info })
                    &&& told.next(WorkerReply::Done).call() is AwaitFrame
                },
                MsgType::ResetCache => {
                    &&& got.call() is Reset
                    &&& got.next(WorkerReply::Done).call() is AwaitFrame
                },
                MsgType::Logits => got.call() is Fail,
                _ => {
                    let run = got.next(WorkerReply::Computed { tensor: hidden });
                    let made = run.next(WorkerReply::MadeLogits { logits, compute_us });
                    &&& got.call() is Forward
                    &&& got.call()->mode == if frame.msg_type is Prefill {
                        PassMode::Prefill
                    } else {
                        PassMode::Decode
                    }
                    &&& got.call()->Forward_input.data == contents(frame.payload)
                    &&& got.call()->Forward_input.shape == shape_text(frame.shape@)
                    &&& run.call() is Logits
                    &&& run.call()->Logits_input.data == contents(hidden.data)
                    &&& run.call()->Logits_input.shape == hidden.shape@
                    &&& made.call() is SendLogits
                    &&& made.call()->SendLogits_seq == frame.seq
                    &&& made.call()->logits.data == contents(logits.data)
                    &&& made.call()->logits.shape == logits.shape@
                    &&& made.call()->compute_us == compute_us
                    &&& made.next(WorkerReply::Done).call() is AwaitFrame
                },
            }
        }),
        w.next(WorkerReply::Closed).call() is Reset,
        w.next(WorkerReply::Closed).next(WorkerReply::Done).call() is Accept,
        WorkerModel::start().call() is Accept,
        WorkerModel::start().next(WorkerReply::Done).call() is AwaitFrame,
        w.next(WorkerReply::Closed).next(WorkerReply::Done).next(
            WorkerReply::Done,
        ).call() is AwaitFrame,
{
}

/// What a session asks for before its first pass, from the replies alone: the local layers, the
/// worker's layers with frame 0, and, if the two make one model, a reset on both machines, there
/// with frame 1, and the tokens of the prompt.
pub proof fn session_begins(max_tokens: u32, text: Seq<char>, replies: Seq<CoordinatorReply>)
    requires
        session_is_valid(max_tokens, text, replies),
        replies.len() <= 5,
    ensures
        ({
            let call = session_trace(max_tokens, text, replies).c.call();
            let n = replies.len();
            &&& n == 0 ==> call is LocalInfo
            &&& n == 1 ==> call == (CoordinatorCallView::SendControl {
                msg_type: MsgType::Info,
                seq: 0,
            })
            &&& n == 2 ==> call is AwaitInfo
            &&& n == 3 ==> match split_of(replies[0]->info, replies[2]->frame@) {
                Ok(split) => call == (CoordinatorCallView::ResetLocal { split }),
                Err(error) => call == (CoordinatorCallView::FailSplit { error }),
            }
            &&& n == 4 ==> call == (CoordinatorCallView::SendControl {
                msg_type: MsgType::ResetCache,
                seq: 1,
            })
            &&& n == 5 ==> call == (CoordinatorCallView::Tokenize { text })
        }),
{
    session_is_at_its_start(max_tokens, text, replies);
}

proof fn session_is_at_its_start(
    max_tokens: u32,
    text: Seq<char>,
    replies: Seq<CoordinatorReply>,
)
    requires
        session_is_valid(max_tokens, text, replies),
        replies.len() <= 5,
    ensures
        ({
            let c = session_trace(max_tokens, text, replies).c;
            let n = replies.len();
            let made = split_of(replies[0]->info, replies[2]->frame@);
            &&& c.wf()
            &&& c.text == text
            &&& c.tokens == TokenLoop::start(max_tokens, 0)
            &&& n > 0 ==> c.local == replies[0]->info
            &&& n == 0 ==> c.step is LocalInfo
            &&& n == 1 ==> c.step is SendInfo
            &&& n == 2 ==> c.step is AwaitInfo
            &&& n == 3 ==> match made {
                Ok(split) => c.step == (CoordinatorStep::ResetLocal { split }),
                Err(error) => c.step == (CoordinatorStep::BadSplit { error }),
            }
            &&& n == 4 ==> c.step is SendReset
            &&& n == 5 ==> c.step is Tokenize
        }),
    decreases replies.len(),
{
    if replies.len() > 0 {
        let before = replies.drop_last();
        session_is_at_its_start(max_tokens, text, before);
        session_stays_well_formed(
            session_trace(max_tokens, text, before).c,
            replies.last(),
        );
        session_stays_well_formed(CoordinatorModel::start(max_tokens, text), replies.last());
    }
}

/// The state of a session after `o` replies of its pass `p`.
spec fn session_in_pass(
    max_tokens: u32,
    text: Seq<char>,
    replies: Seq<CoordinatorReply>,
    p: int,
    o: int,
) -> bool {
    let c = session_trace(max_tokens, text, replies).c;
    let last = replies[6 + 6 * (p - 1) + 4]->token;
    let eos = replies[5]->eos;
    let got = replies[6 + 6 * p + 3]->frame;
    &&& c.wf()
    &&& replies[5] is Tokenized
    &&& c.prompt == replies[5]->tokens@
    &&& c.tokens.eos == eos
    &&& c.tokens.max_tokens == max_tokens
    &&& o > 0 ==> p == 0 || last != eos
    &&& (o == 1 || o == 2) ==> c.tensor == replies.last()->tensor@
    &&& o <= 4 && p == 0 ==> c.tokens.phase is Prefill && c.tokens.shown == 0
    &&& o <= 4 && p > 0 ==> c.tokens.next_id == last && c.tokens.shown == p
        && c.tokens.token_count == p - 1
    &&& o == 0 && p > 0 ==> (if last == eos {
        c.tokens.phase is Finished && c.step is Token
    } else {
        c.tokens.phase is Decode && c.step is Embed
    })
    &&& o == 0 && p == 0 ==> c.step is Embed
    &&& 0 < o <= 4 && p > 0 ==> c.tokens.phase is Decode
    &&& 0 < o <= 4 ==> c.seq == 2 + p
    &&& o == 1 ==> c.step is Forward
    &&& o == 2 ==> c.step is SendHidden
    &&& o == 3 ==> c.step is AwaitLogits
    &&& o == 4 ==> match reply_error(got@, (2 + p) as u32) {
        None => c.step is Sample && c.tensor == frame_tensor(got@),
        Some(fault) => c.step == (CoordinatorStep::BadReply { fault }),
    }
    &&& o == 5 ==> {
        &&& c.step is Token
        &&& c.tokens.next_id == replies.last()->token
        &&& c.tokens.shown == p
        &&& c.tokens.token_count == p
        &&& c.tokens.phase == if p < max_tokens {
            TokenPhase::Show
        } else {
            TokenPhase::Finished
        }
    }
}

proof fn session_is_in_its_pass(
    max_tokens: u32,
    text: Seq<char>,
    replies: Seq<CoordinatorReply>,
    p: int,
    o: int,
)
    requires
        session_is_valid(max_tokens, text, replies),
        0 <= p,
        0 <= o < 6,
        replies.len() == 6 + 6 * p + o,
    ensures
        session_in_pass(max_tokens, text, replies, p, o),
    decreases replies.len(),
{
    let before = replies.drop_last();
    let c = session_trace(max_tokens, text, before).c;
    if o > 0 {
        session_is_in_its_pass(max_tokens, text, before, p, o - 1);
        assert(before[5] == replies[5]);
        if p > 0 {
            assert(before[6 + 6 * (p - 1) + 4] == replies[6 + 6 * (p - 1) + 4]);
        }
        if o == 5 {
            assert(before[6 + 6 * p + 3] == replies[6 + 6 * p + 3]);
        }
    } else if p > 0 {
        session_is_in_its_pass(max_tokens, text, before, p - 1, 5);
        assert(before[5] == replies[5]);
        assert(before.last() == replies[6 + 6 * (p - 1) + 4]);
    } else {
        session_is_at_its_start(max_tokens, text, before);
    }
    session_stays_well_formed(c, replies.last());
}

/// What a session asks for in its pass `p` after `o` replies, from the replies alone. The first
/// pass embeds the tokens that the prompt was answered with, all of them, and each later one the
/// token that the pass before was answered with; the result goes through the local layers and,
/// under the next number, to the worker; the logits in the worker's answer are sampled from, and
/// the sample is shown. A sample that is the token named as the end of a text, in the answer to
/// the prompt, is the last that is shown, and no more than `max_tokens` are.
pub proof fn session_follows_its_replies(
    max_tokens: u32,
    text: Seq<char>,
    replies: Seq<CoordinatorReply>,
    p: int,
    o: int,
)
    requires
        session_is_valid(max_tokens, text, replies),
        0 <= p,
        0 <= o < 6,
        replies.len() == 6 + 6 * p + o,
    ensures
        ({
            let c = session_trace(max_tokens, text, replies).c;
            let call = c.call();
            let eos = replies[5]->eos;
            let before = replies[6 + 6 * (p - 1) + 4]->token;
            let got = replies.last()->frame;
            &&& replies[5] is Tokenized
            &&& o <= 4 ==> c.tokens.mode() == if p == 0 {
                PassMode::Prefill
            } else {
                PassMode::Decode
            }
            &&& o == 0 && p == 0 ==> call is EmbedPrompt && call->tokens == replies[5]->tokens@
            &&& o == 0 && p > 0 && before == eos ==> call == (CoordinatorCallView::Finish {
                token_count: (p - 1) as u32,
            })
            &&& o == 0 && p > 0 && before != eos ==> call == (CoordinatorCallView::EmbedToken {
                token: before,
            })
            &&& o == 1 ==> call is Forward && call->mode == (if p == 0 {
                PassMode::Prefill
            } else {
                PassMode::Decode
            }) && call->Forward_input.data == contents(replies.last()->tensor.data)
                && call->Forward_input.shape == replies.last()->tensor.shape@
            &&& o == 2 ==> call is SendHidden && call->SendHidden_msg_type == (if p == 0 {
                MsgType::Prefill
            } else {
                MsgType::DecodeStep
            }) && call->SendHidden_seq == 2 + p && call->SendHidden_input.data == contents(
                replies.last()->tensor.data,
            ) && call->SendHidden_input.shape == replies.last()->tensor.shape@
            &&& o == 3 ==> call is AwaitLogits
            &&& o == 4 && got.msg_type != MsgType::Logits ==> call
                == (CoordinatorCallView::FailReply {
                fault: ReplyError::NotLogits { got_type: got.msg_type },
            })
            &&& o == 4 && got.msg_type == MsgType::Logits && got.seq != 2 + p ==> call
                == (CoordinatorCallView::FailReply {
                fault: ReplyError::WrongSeq { sent: (2 + p) as u32, got: got.seq },
            })
            &&& o == 4 && got.msg_type == MsgType::Logits && got.seq == 2 + p ==> call is Sample
                && call->Sample_input.data == contents(got.payload) && call->Sample_input.shape
                == shape_text(got.shape@)
            &&& o == 5 && p < max_tokens ==> call == (CoordinatorCallView::Show {
                token: replies.last()->token,
            })
            &&& o == 5 && p >= max_tokens ==> call == (CoordinatorCallView::Finish {
                token_count: p as u32,
            })
        }),
{
    session_is_in_its_pass(max_tokens, text, replies, p, o);
}

proof fn session_keeps_the_answer(
    max_tokens: u32,
    text: Seq<char>,
    replies: Seq<CoordinatorReply>,
)
    requires
        session_is_valid(max_tokens, text, replies),
        replies.len() > 5,
    ensures
        replies[5] is Tokenized,
        session_trace(max_tokens, text, replies).c.prompt == replies[5]->tokens@,
        session_trace(max_tokens, text, replies).c.tokens.eos == replies[5]->eos,
{
    let p = (replies.len() - 6) / 6;
    let o = (replies.len() - 6) % 6;
    session_is_in_its_pass(max_tokens, text, replies, p, o);
}

/// Once the prompt is answered, a session goes by that answer to its end: a session that has
/// finished showed its samples up to the first that is the token which the answer names as the
/// end of a text, or up to `max_tokens`, and, where each sample is the model's first choice, the
/// greedy text behind the tokens of the answer.
pub proof fn session_stops_by_the_answer(
    choice: spec_fn(Seq<u32>) -> u32,
    max_tokens: u32,
    text: Seq<char>,
    replies: Seq<CoordinatorReply>,
)
    requires
        session_is_valid(max_tokens, text, replies),
        session_trace(max_tokens, text, replies).c.call() is Finish,
    ensures
        ({
            let t = session_trace(max_tokens, text, replies);
            let answer = replies[5];
            &&& replies.len() > 5
            &&& answer is Tokenized
            &&& stops_right(t.shown, t.sampled, answer->eos, max_tokens as nat)
            &&& t.shown.len() == shown_count(t.sampled, answer->eos, max_tokens as nat)
            &&& t.c.call()->token_count == decode_count(
                t.sampled,
                answer->eos,
                max_tokens as nat,
            )
            &&& session_samples_are_greedy(choice, max_tokens, text, replies) ==> t.shown
                == greedy_text(choice, answer->tokens@, answer->eos, max_tokens as nat)
        }),
{
    if replies.len() <= 5 {
        session_is_at_its_start(max_tokens, text, replies);
    }
    session_keeps_the_answer(max_tokens, text, replies);
    session_shows_its_samples(max_tokens, text, replies);
    if session_samples_are_greedy(choice, max_tokens, text, replies) {
        greedy_session_shows_greedy_text(choice, max_tokens, text, replies);
    }
}

} // verus!
