//! Greedy speculative decoding on one machine: a draft model proposes tokens, the target
//! model verifies them in one pass, and what it would not have chosen itself is rolled back.
//!
//! The loop is a state machine. Its state says which call is due (`SpecLoop::call`) and holds
//! what the call needs; the caller makes that call and hands the reply to `SpecLoop::advance`.
use crate::mlx_client::{no_tensor, Tensor, TensorView};
use vstd::prelude::*;

verus! {

/// The longest time that a clock can measure, in microseconds.
pub const MAX_ELAPSED_US: u128 = 18446744073709551615999999;

/// Whether the proposal `x` and the target's choices `t` agree at position `i`.
pub open spec fn agree_at(x: Seq<u32>, t: Seq<u32>, i: int) -> bool {
    0 <= i < x.len() && i < t.len() && x[i] == t[i]
}

/// At how many leading positions, of the first `k`, the proposal and the target agree.
pub open spec fn agreement(x: Seq<u32>, t: Seq<u32>, k: nat) -> nat
    decreases k,
{
    if k == 0 {
        0
    } else {
        let a = agreement(x, t, (k - 1) as nat);
        if a == k - 1 && agree_at(x, t, k - 1) {
            k
        } else {
            a
        }
    }
}

/// Whether the replies are long enough to find where they part, and to name the target's
/// choice there.
pub open spec fn can_accept(x: Seq<u32>, t: Seq<u32>, k: nat) -> bool {
    let a = agreement(x, t, k);
    a < t.len() && (a == k || a < x.len())
}

/// What a round yields: the proposals that the target agrees with, then its own next choice.
pub open spec fn accepted(x: Seq<u32>, t: Seq<u32>, k: nat) -> Seq<u32> {
    let a = agreement(x, t, k);
    x.take(a as int).push(t[a as int])
}

/// The agreement is the number of leading positions that agree: all before it do, and it
/// either is `k` or is a position that does not.
pub proof fn agreement_is_leading(x: Seq<u32>, t: Seq<u32>, k: nat)
    ensures
        agreement(x, t, k) <= k,
        agreement(x, t, k) <= x.len(),
        agreement(x, t, k) <= t.len(),
        forall|i: int| 0 <= i < agreement(x, t, k) ==> #[trigger] agree_at(x, t, i),
        agreement(x, t, k) < k ==> !agree_at(x, t, agreement(x, t, k) as int),
    decreases k,
{
    if k > 0 {
        agreement_is_leading(x, t, (k - 1) as nat);
    }
}

proof fn agreement_found(x: Seq<u32>, t: Seq<u32>, k: nat, a: nat)
    requires
        a <= k,
        forall|i: int| 0 <= i < a ==> #[trigger] agree_at(x, t, i),
        a < k ==> !agree_at(x, t, a as int),
    ensures
        agreement(x, t, k) == a,
{
    agreement_is_leading(x, t, k);
    let b = agreement(x, t, k);
    if b < a {
        assert(agree_at(x, t, b as int));
    } else if a < b {
        assert(agree_at(x, t, a as int));
    }
}

/// Counts the leading agreement of `x` and `t` among the first `k` positions. `None` where
/// the replies are too short to say what the round yields.
pub fn count_agreement(x: &Vec<u32>, t: &Vec<u32>, k: u32) -> (a: Option<usize>)
    ensures
        a is Some <==> can_accept(x@, t@, k as nat),
        a matches Some(n) ==> n == agreement(x@, t@, k as nat),
{
    let limit: usize = k as usize;
    let mut a: usize = 0;
    while a < limit && a < x.len() && a < t.len() && x[a] == t[a]
        invariant
            a <= limit == k,
            a <= x@.len(),
            a <= t@.len(),
            forall|i: int| 0 <= i < a ==> #[trigger] agree_at(x@, t@, i),
        decreases limit - a,
    {
        assert(agree_at(x@, t@, a as int));
        a = a + 1;
    }
    proof {
        agreement_found(x@, t@, k as nat, a as nat);
    }
    if a < t.len() && (a == limit || a < x.len()) {
        Some(a)
    } else {
        None
    }
}

/// What a round yields.
pub fn accept_round(x: &Vec<u32>, t: &Vec<u32>, k: u32) -> (emitted: Vec<u32>)
    requires
        can_accept(x@, t@, k as nat),
    ensures
        emitted@ == accepted(x@, t@, k as nat),
        emitted@.len() == agreement(x@, t@, k as nat) + 1,
        emitted@.len() <= k + 1,
{
    proof {
        agreement_is_leading(x@, t@, k as nat);
    }
    let a: usize = count_agreement(x, t, k).unwrap();
    let mut emitted: Vec<u32> = Vec::new();
    let mut i: usize = 0;
    while i < a
        invariant
            i <= a <= x@.len(),
            emitted@ =~= x@.take(i as int),
        decreases a - i,
    {
        emitted.push(x[i]);
        i = i + 1;
    }
    emitted.push(t[a]);
    emitted
}

/// What the loop waits for.
#[derive(Clone, Copy, PartialEq, Eq, Debug, Structural)]
pub enum SpecPhase {
    ResetTarget,
    ResetDraft,
    Tokenize,
    EmbedPromptTarget,
    ForwardPromptTarget,
    EmbedPromptDraft,
    ForwardPromptDraft,
    ArgmaxPrompt,
    ShowFirst,
    Draft,
    EmbedRound,
    ForwardRound,
    ArgmaxRound,
    TrimTarget,
    TrimDraft,
    Show { index: usize },
    Finished,
    Failed,
}

/// The call that is due.
#[derive(PartialEq, Eq, Debug)]
pub enum SpecCall<'a> {
    /// Empty the cache of the target.
    ResetTarget,
    /// Empty the cache of the draft.
    ResetDraft,
    /// Tokenize the prompt, on the target.
    Tokenize { text: &'a str },
    /// Embed the tokens of the prompt, on the target.
    EmbedPromptTarget { tokens: &'a [u32] },
    /// Run them through the target's layers, as prefill.
    ForwardPromptTarget { input: &'a Tensor },
    /// Embed the tokens of the prompt, on the draft.
    EmbedPromptDraft { tokens: &'a [u32] },
    /// Run them through the draft's layers, as prefill.
    ForwardPromptDraft { input: &'a Tensor },
    /// Ask the target for its choice after each token of the prompt.
    ArgmaxPrompt { input: &'a Tensor },
    /// Detokenize one token, on the target, and print it.
    Show { token: u32 },
    /// Ask the draft for `count` tokens after `token`.
    Draft { token: u32, count: u32 },
    /// Embed the tokens of the round, on the target.
    EmbedRound { round: Vec<u32> },
    /// Run them through the target's layers, as decode.
    ForwardRound { input: &'a Tensor },
    /// Ask the target for its choice after each of them.
    ArgmaxRound { input: &'a Tensor },
    /// Take the last `count` tokens out of the target's cache.
    TrimTarget { count: u32 },
    /// Take the last `count` tokens out of the draft's cache.
    TrimDraft { count: u32 },
    /// All is shown: report (`SpecLoop::report`).
    Finish,
    /// The target had no choice to offer after the prompt (`failure_message`).
    Fail,
}

/// What a call says.
#[verifier::ext_equal]
pub enum SpecCallView {
    ResetTarget,
    ResetDraft,
    Tokenize { text: Seq<char> },
    EmbedPromptTarget { tokens: Seq<u32> },
    ForwardPromptTarget { input: TensorView },
    EmbedPromptDraft { tokens: Seq<u32> },
    ForwardPromptDraft { input: TensorView },
    ArgmaxPrompt { input: TensorView },
    Show { token: u32 },
    Draft { token: u32, count: u32 },
    EmbedRound { round: Seq<u32> },
    ForwardRound { input: TensorView },
    ArgmaxRound { input: TensorView },
    TrimTarget { count: u32 },
    TrimDraft { count: u32 },
    Finish,
    Fail,
}

impl<'a> View for SpecCall<'a> {
    type V = SpecCallView;

    open spec fn view(&self) -> SpecCallView {
        match *self {
            SpecCall::ResetTarget => SpecCallView::ResetTarget,
            SpecCall::ResetDraft => SpecCallView::ResetDraft,
            SpecCall::Tokenize { text } => SpecCallView::Tokenize { text: text@ },
            SpecCall::EmbedPromptTarget { tokens } => SpecCallView::EmbedPromptTarget {
                tokens: tokens@,
            },
            SpecCall::ForwardPromptTarget { input } => SpecCallView::ForwardPromptTarget {
                input: input@,
            },
            SpecCall::EmbedPromptDraft { tokens } => SpecCallView::EmbedPromptDraft {
                tokens: tokens@,
            },
            SpecCall::ForwardPromptDraft { input } => SpecCallView::ForwardPromptDraft {
                input: input@,
            },
            SpecCall::ArgmaxPrompt { input } => SpecCallView::ArgmaxPrompt { input: input@ },
            SpecCall::Show { token } => SpecCallView::Show { token },
            SpecCall::Draft { token, count } => SpecCallView::Draft { token, count },
            SpecCall::EmbedRound { round } => SpecCallView::EmbedRound { round: round@ },
            SpecCall::ForwardRound { input } => SpecCallView::ForwardRound { input: input@ },
            SpecCall::ArgmaxRound { input } => SpecCallView::ArgmaxRound { input: input@ },
            SpecCall::TrimTarget { count } => SpecCallView::TrimTarget { count },
            SpecCall::TrimDraft { count } => SpecCallView::TrimDraft { count },
            SpecCall::Finish => SpecCallView::Finish,
            SpecCall::Fail => SpecCallView::Fail,
        }
    }
}

/// What a call came back with.
#[derive(Debug)]
pub enum SpecReply {
    /// It was done.
    Done,
    /// The tokens of the prompt, and the token that ends a text.
    Tokenized { tokens: Vec<u32>, eos: u32 },
    /// What was embedded, or came out of the layers.
    Computed { tensor: Tensor },
    /// The target's choices after the tokens of the prompt.
    PromptChoices { tokens: Vec<u32> },
    /// The draft's proposal, and how long the call took.
    Drafted { tokens: Vec<u32>, elapsed_us: u128 },
    /// The target's choices after the tokens of the round, and how long embedding them,
    /// running them and choosing took.
    RoundChoices { tokens: Vec<u32>, elapsed_us: u128 },
}

/// The text of the error where the target has no choice to offer after the prompt.
pub open spec fn failure_text() -> Seq<char> {
    "empty prefill argmax"@
}

/// The text of the error where the target has no choice to offer after the prompt.
pub fn failure_message() -> (text: &'static str)
    ensures
        text@ == failure_text(),
{
    "empty prefill argmax"
}

/// The state of the loop.
#[verifier::ext_equal]
pub struct SpecModel {
    pub k: u32,
    pub max_tokens: u32,
    pub phase: SpecPhase,
    pub eos: u32,
    /// The token that was shown last.
    pub cur: u32,
    /// How many tokens were shown.
    pub token_count: u32,
    pub rounds: u64,
    /// How many proposals the target agreed with, over all rounds.
    pub accepted_sum: u64,
    pub draft_us: u128,
    pub verify_us: u128,
    /// The proposal of the round.
    pub drafted: Seq<u32>,
    /// What the round yields.
    pub emitted: Seq<u32>,
    /// The prompt, as it was given.
    pub text: Seq<char>,
    /// The tokens of the prompt.
    pub prompt: Seq<u32>,
    /// What the target computed last.
    pub hidden: TensorView,
    /// What the draft embedded last.
    pub draft_hidden: TensorView,
}

impl SpecModel {
    /// The state at the start.
    pub open spec fn start(k: u32, max_tokens: u32, text: Seq<char>) -> SpecModel {
        SpecModel {
            k,
            max_tokens,
            phase: SpecPhase::ResetTarget,
            eos: 0,
            cur: 0,
            token_count: 0,
            rounds: 0,
            accepted_sum: 0,
            draft_us: 0,
            verify_us: 0,
            drafted: Seq::empty(),
            emitted: Seq::empty(),
            text,
            prompt: Seq::empty(),
            hidden: no_tensor(),
            draft_hidden: no_tensor(),
        }
    }

    /// How many tokens of the round are taken back: those that the target did not agree with.
    pub open spec fn trim(self) -> int {
        self.k - (self.emitted.len() - 1)
    }

    /// The tokens that the target runs in a round: the one shown last, then the proposal.
    pub open spec fn round_ids(self) -> Seq<u32> {
        seq![self.cur] + self.drafted
    }

    /// The call that is due.
    pub open spec fn call(self) -> SpecCallView {
        match self.phase {
            SpecPhase::ResetTarget => SpecCallView::ResetTarget,
            SpecPhase::ResetDraft => SpecCallView::ResetDraft,
            SpecPhase::Tokenize => SpecCallView::Tokenize { text: self.text },
            SpecPhase::EmbedPromptTarget => SpecCallView::EmbedPromptTarget { tokens: self.prompt },
            SpecPhase::ForwardPromptTarget => SpecCallView::ForwardPromptTarget { input: self.hidden },
            SpecPhase::EmbedPromptDraft => SpecCallView::EmbedPromptDraft { tokens: self.prompt },
            SpecPhase::ForwardPromptDraft => SpecCallView::ForwardPromptDraft { input: self.draft_hidden },
            SpecPhase::ArgmaxPrompt => SpecCallView::ArgmaxPrompt { input: self.hidden },
            SpecPhase::ShowFirst => SpecCallView::Show { token: self.cur },
            SpecPhase::Draft => SpecCallView::Draft { token: self.cur, count: self.k },
            SpecPhase::EmbedRound => SpecCallView::EmbedRound { round: self.round_ids() },
            SpecPhase::ForwardRound => SpecCallView::ForwardRound { input: self.hidden },
            SpecPhase::ArgmaxRound => SpecCallView::ArgmaxRound { input: self.hidden },
            SpecPhase::TrimTarget => SpecCallView::TrimTarget { count: self.trim() as u32 },
            SpecPhase::TrimDraft => SpecCallView::TrimDraft { count: self.trim() as u32 },
            SpecPhase::Show { index } => SpecCallView::Show { token: self.emitted[index as int] },
            SpecPhase::Finished => SpecCallView::Finish,
            SpecPhase::Failed => SpecCallView::Fail,
        }
    }

    /// Whether the loop ends once `token` is shown as the `count`-th token: it ends the text,
    /// or no more may be shown.
    pub open spec fn ends_with(self, token: u32, count: int) -> bool {
        token == self.eos || count >= self.max_tokens
    }

    /// Whether `reply` answers the call that is due.
    pub open spec fn expects(self, reply: SpecReply) -> bool {
        match self.phase {
            SpecPhase::Tokenize => reply is Tokenized,
            SpecPhase::EmbedPromptTarget => reply is Computed,
            SpecPhase::ForwardPromptTarget => reply is Computed,
            SpecPhase::EmbedPromptDraft => reply is Computed,
            SpecPhase::ForwardPromptDraft => reply is Computed,
            SpecPhase::EmbedRound => reply is Computed,
            SpecPhase::ForwardRound => reply is Computed,
            SpecPhase::ArgmaxPrompt => reply is PromptChoices,
            SpecPhase::Draft => reply matches SpecReply::Drafted { tokens, elapsed_us }
                && elapsed_us <= MAX_ELAPSED_US,
            SpecPhase::ArgmaxRound => reply matches SpecReply::RoundChoices { tokens, elapsed_us }
                && elapsed_us <= MAX_ELAPSED_US && can_accept(
                self.drafted,
                tokens@,
                self.k as nat,
            ),
            SpecPhase::Finished => false,
            SpecPhase::Failed => false,
            _ => reply is Done,
        }
    }

    /// The state after the call that is due came back with `reply`.
    pub open spec fn next(self, reply: SpecReply) -> SpecModel {
        match self.phase {
            SpecPhase::ResetTarget => SpecModel { phase: SpecPhase::ResetDraft, ..self },
            SpecPhase::ResetDraft => SpecModel { phase: SpecPhase::Tokenize, ..self },
            SpecPhase::Tokenize => SpecModel {
                phase: SpecPhase::EmbedPromptTarget,
                eos: reply->eos,
                prompt: reply->Tokenized_tokens@,
                ..self
            },
            SpecPhase::EmbedPromptTarget => SpecModel {
                phase: SpecPhase::ForwardPromptTarget,
                hidden: reply->tensor@,
                ..self
            },
            SpecPhase::ForwardPromptTarget => SpecModel {
                phase: SpecPhase::EmbedPromptDraft,
                hidden: reply->tensor@,
                ..self
            },
            SpecPhase::EmbedPromptDraft => SpecModel {
                phase: SpecPhase::ForwardPromptDraft,
                draft_hidden: reply->tensor@,
                ..self
            },
            SpecPhase::ForwardPromptDraft => SpecModel { phase: SpecPhase::ArgmaxPrompt, ..self },
            SpecPhase::ArgmaxPrompt => if reply->PromptChoices_tokens@.len() == 0 {
                SpecModel { phase: SpecPhase::Failed, ..self }
            } else {
                SpecModel {
                    phase: SpecPhase::ShowFirst,
                    cur: reply->PromptChoices_tokens@.last(),
                    token_count: 1,
                    ..self
                }
            },
            SpecPhase::ShowFirst => SpecModel {
                phase: if self.ends_with(self.cur, 1) {
                    SpecPhase::Finished
                } else {
                    SpecPhase::Draft
                },
                ..self
            },
            SpecPhase::Draft => SpecModel {
                phase: SpecPhase::EmbedRound,
                drafted: reply->Drafted_tokens@,
                draft_us: (self.draft_us + reply->Drafted_elapsed_us) as u128,
                ..self
            },
            SpecPhase::EmbedRound => SpecModel {
                phase: SpecPhase::ForwardRound,
                hidden: reply->tensor@,
                ..self
            },
            SpecPhase::ForwardRound => SpecModel {
                phase: SpecPhase::ArgmaxRound,
                hidden: reply->tensor@,
                ..self
            },
            SpecPhase::ArgmaxRound => SpecModel {
                phase: SpecPhase::TrimTarget,
                emitted: accepted(self.drafted, reply->RoundChoices_tokens@, self.k as nat),
                verify_us: (self.verify_us + reply->RoundChoices_elapsed_us) as u128,
                ..self
            },
            SpecPhase::TrimTarget => SpecModel { phase: SpecPhase::TrimDraft, ..self },
            SpecPhase::TrimDraft => SpecModel {
                phase: SpecPhase::Show { index: 0 },
                rounds: (self.rounds + 1) as u64,
                accepted_sum: (self.accepted_sum + self.emitted.len() - 1) as u64,
                ..self
            },
            SpecPhase::Show { index } => SpecModel {
                phase: if self.ends_with(self.emitted[index as int], self.token_count + 1) {
                    SpecPhase::Finished
                } else if index + 1 < self.emitted.len() {
                    SpecPhase::Show { index: (index + 1) as usize }
                } else {
                    SpecPhase::Draft
                },
                cur: self.emitted[index as int],
                token_count: (self.token_count + 1) as u32,
                ..self
            },
            SpecPhase::Finished => self,
            SpecPhase::Failed => self,
        }
    }

    /// Whether the prompt is still being worked on.
    pub open spec fn on_prompt(self) -> bool {
        match self.phase {
            SpecPhase::ResetTarget => true,
            SpecPhase::ResetDraft => true,
            SpecPhase::Tokenize => true,
            SpecPhase::EmbedPromptTarget => true,
            SpecPhase::ForwardPromptTarget => true,
            SpecPhase::EmbedPromptDraft => true,
            SpecPhase::ForwardPromptDraft => true,
            SpecPhase::ArgmaxPrompt => true,
            SpecPhase::Failed => true,
            _ => false,
        }
    }

    /// Whether a round has its proposal and is not yet counted.
    pub open spec fn in_round(self) -> bool {
        match self.phase {
            SpecPhase::EmbedRound => true,
            SpecPhase::ForwardRound => true,
            SpecPhase::ArgmaxRound => true,
            SpecPhase::TrimTarget => true,
            SpecPhase::TrimDraft => true,
            _ => false,
        }
    }

    /// Whether a round has its yield and is not yet counted.
    pub open spec fn in_rollback(self) -> bool {
        self.phase is TrimTarget || self.phase is TrimDraft
    }

    /// How many tokens the rounds can have shown: up to `k + 1` for each, and of the present one
    /// those before the one that is due.
    pub open spec fn most_shown(self) -> int {
        match self.phase {
            SpecPhase::Show { index } => (self.rounds - 1) * (self.k + 1) + index,
            _ => self.rounds * (self.k + 1),
        }
    }

    /// What holds in every state that the loop reaches: each round before the present one has
    /// shown a token and no more than `k + 1`, the counts stay within their bounds, and no more
    /// than `max_tokens` tokens are shown (one, where `max_tokens` is zero).
    pub open spec fn wf(self) -> bool {
        &&& self.on_prompt() ==> self.token_count == 0 && self.rounds == 0
        &&& !self.on_prompt() ==> 1 <= self.token_count
        &&& self.phase is ShowFirst ==> self.token_count == 1 && self.rounds == 0
        &&& self.phase is Draft || self.in_round() ==> self.token_count < self.max_tokens
            && self.rounds < self.token_count
        &&& self.in_rollback() ==> 1 <= self.emitted.len() <= self.k + 1
        &&& self.phase matches SpecPhase::Show { index } ==> {
            &&& index < self.emitted.len() <= self.k + 1
            &&& self.token_count < self.max_tokens
            &&& 1 <= self.rounds <= self.token_count
            &&& index > 0 ==> self.rounds < self.token_count
        }
        &&& self.phase is Finished ==> self.rounds < self.token_count
        &&& self.token_count <= 1 || self.token_count <= self.max_tokens
        &&& self.token_count <= 1 + self.most_shown()
        &&& self.accepted_sum <= self.rounds * self.k
        &&& self.draft_us <= (self.rounds + if self.in_round() {
            1int
        } else {
            0int
        }) * MAX_ELAPSED_US
        &&& self.verify_us <= (self.rounds + if self.in_rollback() {
            1int
        } else {
            0int
        }) * MAX_ELAPSED_US
    }
}

/// What the loop reports at its end.
#[derive(Clone, Copy, PartialEq, Eq, Debug, Structural)]
pub struct SpecReport {
    /// How many tokens were shown.
    pub token_count: u32,
    /// How many of them came after the first one.
    pub gen_tokens: u32,
    pub rounds: u64,
    /// How many proposals the target agreed with.
    pub accepted_sum: u64,
    /// The mean time of a round in the draft, zero where there was no round.
    pub mean_draft_us: u128,
    /// The mean time of a round in the target, zero where there was no round.
    pub mean_verify_us: u128,
}

impl SpecModel {
    /// What the loop has to report.
    pub open spec fn report(self) -> SpecReport {
        SpecReport {
            token_count: self.token_count,
            gen_tokens: if self.token_count > 0 {
                (self.token_count - 1) as u32
            } else {
                0
            },
            rounds: self.rounds,
            accepted_sum: self.accepted_sum,
            mean_draft_us: if self.rounds > 0 {
                (self.draft_us as int / self.rounds as int) as u128
            } else {
                0
            },
            mean_verify_us: if self.rounds > 0 {
                (self.verify_us as int / self.rounds as int) as u128
            } else {
                0
            },
        }
    }
}

/// The loop.
pub struct SpecLoop {
    k: u32,
    max_tokens: u32,
    phase: SpecPhase,
    eos: u32,
    cur: u32,
    token_count: u32,
    rounds: u64,
    accepted_sum: u64,
    draft_us: u128,
    verify_us: u128,
    drafted: Vec<u32>,
    emitted: Vec<u32>,
    text: String,
    prompt: Vec<u32>,
    hidden: Tensor,
    draft_hidden: Tensor,
}

impl View for SpecLoop {
    type V = SpecModel;

    closed spec fn view(&self) -> SpecModel {
        SpecModel {
            k: self.k,
            max_tokens: self.max_tokens,
            phase: self.phase,
            eos: self.eos,
            cur: self.cur,
            token_count: self.token_count,
            rounds: self.rounds,
            accepted_sum: self.accepted_sum,
            draft_us: self.draft_us,
            verify_us: self.verify_us,
            drafted: self.drafted@,
            emitted: self.emitted@,
            text: self.text@,
            prompt: self.prompt@,
            hidden: self.hidden@,
            draft_hidden: self.draft_hidden@,
        }
    }
}

/// Counting one more round keeps the accepted proposals within the rounds' share.
pub(crate) proof fn accepted_sum_fits(rounds: int, k: int, sum: int, more: int)
    requires
        0 <= rounds < 0xffff_ffff,
        0 <= k <= 0xffff_ffff,
        0 <= sum <= rounds * k,
        0 <= more <= k,
    ensures
        sum + more <= (rounds + 1) * k,
        sum + more <= u64::MAX,
{
    assert((rounds + 1) * k == rounds * k + k) by (nonlinear_arith);
    assert((rounds + 1) * k <= 0xffff_ffff * 0xffff_ffff) by (nonlinear_arith)
        requires
            0 <= rounds < 0xffff_ffff,
            0 <= k <= 0xffff_ffff,
    ;
}

/// What holds in every state holds at the start, and after every reply that is expected.
pub proof fn spec_loop_stays_well_formed(m: SpecModel, reply: SpecReply)
    ensures
        SpecModel::start(m.k, m.max_tokens, m.text).wf(),
        m.wf() && m.expects(reply) ==> m.next(reply).wf(),
{
    if m.wf() && m.expects(reply) {
        match m.phase {
            SpecPhase::ArgmaxRound => {
                agreement_is_leading(m.drafted, reply->RoundChoices_tokens@, m.k as nat);
            },
            SpecPhase::Show { index } => {
                let (r, n) = (m.rounds as int, m.k + 1);
                assert((r - 1) * n + n == r * n) by (nonlinear_arith);
            },
            SpecPhase::TrimDraft => {
                accepted_sum_fits(
                    m.rounds as int,
                    m.k as int,
                    m.accepted_sum as int,
                    m.emitted.len() - 1,
                );
            },
            _ => {},
        }
    }
}

impl SpecLoop {
    /// A loop that asks the draft for `k` tokens in a round and shows up to `max_tokens` after the
    /// prompt `text`.
    pub fn new(k: u32, max_tokens: u32, text: String) -> (s: Self)
        ensures
            s@ == SpecModel::start(k, max_tokens, text@),
            s@.wf(),
    {
        SpecLoop {
            k,
            max_tokens,
            phase: SpecPhase::ResetTarget,
            eos: 0,
            cur: 0,
            token_count: 0,
            rounds: 0,
            accepted_sum: 0,
            draft_us: 0,
            verify_us: 0,
            drafted: Vec::new(),
            emitted: Vec::new(),
            text,
            prompt: Vec::new(),
            hidden: Tensor::empty(),
            draft_hidden: Tensor::empty(),
        }
    }

    /// The call that is due.
    pub fn call(&self) -> (call: SpecCall<'_>)
        requires
            self@.wf(),
        ensures
            call@ == self@.call(),
    {
        match self.phase {
            SpecPhase::ResetTarget => SpecCall::ResetTarget,
            SpecPhase::ResetDraft => SpecCall::ResetDraft,
            SpecPhase::Tokenize => SpecCall::Tokenize { text: self.text.as_str() },
            SpecPhase::EmbedPromptTarget => SpecCall::EmbedPromptTarget { tokens: self.prompt.as_slice() },
            SpecPhase::ForwardPromptTarget => SpecCall::ForwardPromptTarget { input: &self.hidden },
            SpecPhase::EmbedPromptDraft => SpecCall::EmbedPromptDraft { tokens: self.prompt.as_slice() },
            SpecPhase::ForwardPromptDraft => SpecCall::ForwardPromptDraft { input: &self.draft_hidden },
            SpecPhase::ArgmaxPrompt => SpecCall::ArgmaxPrompt { input: &self.hidden },
            SpecPhase::ShowFirst => SpecCall::Show { token: self.cur },
            SpecPhase::Draft => SpecCall::Draft { token: self.cur, count: self.k },
            SpecPhase::EmbedRound => SpecCall::EmbedRound { round: self.round_ids() },
            SpecPhase::ForwardRound => SpecCall::ForwardRound { input: &self.hidden },
            SpecPhase::ArgmaxRound => SpecCall::ArgmaxRound { input: &self.hidden },
            SpecPhase::TrimTarget => {
                let taken: u32 = (self.emitted.len() - 1) as u32;
                SpecCall::TrimTarget { count: self.k - taken }
            },
            SpecPhase::TrimDraft => {
                let taken: u32 = (self.emitted.len() - 1) as u32;
                SpecCall::TrimDraft { count: self.k - taken }
            },
            SpecPhase::Show { index } => SpecCall::Show { token: self.emitted[index] },
            SpecPhase::Finished => SpecCall::Finish,
            SpecPhase::Failed => SpecCall::Fail,
        }
    }

    /// The tokens that the target runs in a round.
    pub fn round_ids(&self) -> (ids: Vec<u32>)
        ensures
            ids@ == self@.round_ids(),
    {
        let mut ids: Vec<u32> = Vec::new();
        ids.push(self.cur);
        ids.extend_from_slice(self.drafted.as_slice());
        assert(ids@ =~= self@.round_ids());
        ids
    }

    /// Whether `reply` answers the call that is due.
    pub fn expects(&self, reply: &SpecReply) -> (yes: bool)
        ensures
            yes == self@.expects(*reply),
    {
        match (self.phase, reply) {
            (SpecPhase::Tokenize, SpecReply::Tokenized { tokens: _, eos: _ }) => true,
            (SpecPhase::Tokenize, _) => false,
            (SpecPhase::EmbedPromptTarget, SpecReply::Computed { tensor: _ }) => true,
            (SpecPhase::EmbedPromptTarget, _) => false,
            (SpecPhase::ForwardPromptTarget, SpecReply::Computed { tensor: _ }) => true,
            (SpecPhase::ForwardPromptTarget, _) => false,
            (SpecPhase::EmbedPromptDraft, SpecReply::Computed { tensor: _ }) => true,
            (SpecPhase::EmbedPromptDraft, _) => false,
            (SpecPhase::ForwardPromptDraft, SpecReply::Computed { tensor: _ }) => true,
            (SpecPhase::ForwardPromptDraft, _) => false,
            (SpecPhase::EmbedRound, SpecReply::Computed { tensor: _ }) => true,
            (SpecPhase::EmbedRound, _) => false,
            (SpecPhase::ForwardRound, SpecReply::Computed { tensor: _ }) => true,
            (SpecPhase::ForwardRound, _) => false,
            (SpecPhase::ArgmaxPrompt, SpecReply::PromptChoices { tokens: _ }) => true,
            (SpecPhase::ArgmaxPrompt, _) => false,
            (SpecPhase::Draft, SpecReply::Drafted { tokens: _, elapsed_us }) => *elapsed_us
                <= MAX_ELAPSED_US,
            (SpecPhase::Draft, _) => false,
            (SpecPhase::ArgmaxRound, SpecReply::RoundChoices { tokens, elapsed_us }) => {
                *elapsed_us <= MAX_ELAPSED_US && count_agreement(
                    &self.drafted,
                    tokens,
                    self.k,
                ).is_some()
            },
            (SpecPhase::ArgmaxRound, _) => false,
            (SpecPhase::Finished, _) => false,
            (SpecPhase::Failed, _) => false,
            (_, SpecReply::Done) => true,
            (_, _) => false,
        }
    }

    /// Takes in what the call that was due came back with.
    pub fn advance(&mut self, reply: SpecReply)
        requires
            old(self)@.wf(),
            old(self)@.expects(reply),
        ensures
            final(self)@ == old(self)@.next(reply),
            final(self)@.wf(),
    {
        proof {
            spec_loop_stays_well_formed(self@, reply);
            if self@.phase is TrimDraft {
                accepted_sum_fits(
                    self.rounds as int,
                    self.k as int,
                    self.accepted_sum as int,
                    self.emitted@.len() - 1,
                );
            }
        }
        match self.phase {
            SpecPhase::ResetTarget => {
                self.phase = SpecPhase::ResetDraft;
            },
            SpecPhase::ResetDraft => {
                self.phase = SpecPhase::Tokenize;
            },
            SpecPhase::Tokenize => {
                if let SpecReply::Tokenized { tokens, eos } = reply {
                    self.prompt = tokens;
                    self.eos = eos;
                }
                self.phase = SpecPhase::EmbedPromptTarget;
            },
            SpecPhase::EmbedPromptTarget => {
                if let SpecReply::Computed { tensor } = reply {
                    self.hidden = tensor;
                }
                self.phase = SpecPhase::ForwardPromptTarget;
            },
            SpecPhase::ForwardPromptTarget => {
                if let SpecReply::Computed { tensor } = reply {
                    self.hidden = tensor;
                }
                self.phase = SpecPhase::EmbedPromptDraft;
            },
            SpecPhase::EmbedPromptDraft => {
                if let SpecReply::Computed { tensor } = reply {
                    self.draft_hidden = tensor;
                }
                self.phase = SpecPhase::ForwardPromptDraft;
            },
            SpecPhase::ForwardPromptDraft => {
                self.phase = SpecPhase::ArgmaxPrompt;
            },
            SpecPhase::ArgmaxPrompt => {
                if let SpecReply::PromptChoices { tokens } = reply {
                    if tokens.len() == 0 {
                        self.phase = SpecPhase::Failed;
                    } else {
                        self.cur = tokens[tokens.len() - 1];
                        self.token_count = 1;
                        self.phase = SpecPhase::ShowFirst;
                    }
                }
            },
            SpecPhase::ShowFirst => {
                if self.cur == self.eos || 1 >= self.max_tokens {
                    self.phase = SpecPhase::Finished;
                } else {
                    self.phase = SpecPhase::Draft;
                }
            },
            SpecPhase::Draft => {
                if let SpecReply::Drafted { tokens, elapsed_us } = reply {
                    self.drafted = tokens;
                    self.draft_us = self.draft_us + elapsed_us;
                }
                self.phase = SpecPhase::EmbedRound;
            },
            SpecPhase::EmbedRound => {
                if let SpecReply::Computed { tensor } = reply {
                    self.hidden = tensor;
                }
                self.phase = SpecPhase::ForwardRound;
            },
            SpecPhase::ForwardRound => {
                if let SpecReply::Computed { tensor } = reply {
                    self.hidden = tensor;
                }
                self.phase = SpecPhase::ArgmaxRound;
            },
            SpecPhase::ArgmaxRound => {
                if let SpecReply::RoundChoices { tokens, elapsed_us } = reply {
                    self.emitted = accept_round(&self.drafted, &tokens, self.k);
                    self.verify_us = self.verify_us + elapsed_us;
                }
                self.phase = SpecPhase::TrimTarget;
            },
            SpecPhase::TrimTarget => {
                self.phase = SpecPhase::TrimDraft;
            },
            SpecPhase::TrimDraft => {
                self.rounds = self.rounds + 1;
                self.accepted_sum = self.accepted_sum + (self.emitted.len() - 1) as u64;
                self.phase = SpecPhase::Show { index: 0 };
            },
            SpecPhase::Show { index } => {
                let token: u32 = self.emitted[index];
                self.token_count = self.token_count + 1;
                self.cur = token;
                if token == self.eos || self.token_count >= self.max_tokens {
                    self.phase = SpecPhase::Finished;
                } else if index < self.emitted.len() - 1 {
                    self.phase = SpecPhase::Show { index: index + 1 };
                } else {
                    self.phase = SpecPhase::Draft;
                }
            },
            SpecPhase::Finished => {},
            SpecPhase::Failed => {},
        }
    }

    /// What the loop has to report.
    pub fn report(&self) -> (r: SpecReport)
        ensures
            r.token_count == self@.token_count,
            r.gen_tokens == if self@.token_count > 0 {
                self@.token_count - 1
            } else {
                0
            },
            r.rounds == self@.rounds,
            r.accepted_sum == self@.accepted_sum,
            r.mean_draft_us == if self@.rounds > 0 {
                self@.draft_us as int / self@.rounds as int
            } else {
                0
            },
            r.mean_verify_us == if self@.rounds > 0 {
                self@.verify_us as int / self@.rounds as int
            } else {
                0
            },
            r == self@.report(),
    {
        SpecReport {
            token_count: self.token_count,
            gen_tokens: self.token_count.saturating_sub(1),
            rounds: self.rounds,
            accepted_sum: self.accepted_sum,
            mean_draft_us: if self.rounds > 0 {
                self.draft_us / self.rounds as u128
            } else {
                0
            },
            mean_verify_us: if self.rounds > 0 {
                self.verify_us / self.rounds as u128
            } else {
                0
            },
        }
    }
}

} // verus!
