//! What holds of whole runs of speculative decoding.
use crate::generation::RunReply;
use crate::generation_laws::{greedy_run_shows_greedy_text, run_is_valid, run_trace, samples_are_greedy};
use crate::greedy::{greedy_at_start, greedy_goes_on, greedy_so_far, greedy_text, right_stop_fixes_the_count, shown_count, stops_right};
use crate::speculative::{accepted, accepted_sum_fits, agree_at, agreement, agreement_is_leading, can_accept, failure_text, spec_loop_stays_well_formed, SpecCall, SpecCallView, SpecModel, SpecPhase, SpecReply, MAX_ELAPSED_US};
use crate::payload::contents;
use vstd::prelude::*;

verus! {

/// The proposals that a round accepts are what the target would have chosen itself: a round
/// yields the target's own choices and nothing else.
pub proof fn round_yields_the_targets_choices(x: Seq<u32>, t: Seq<u32>, k: nat)
    requires
        can_accept(x, t, k),
    ensures
        accepted(x, t, k) == t.take(agreement(x, t, k) as int + 1),
        1 <= accepted(x, t, k).len() <= k + 1,
{
    agreement_is_leading(x, t, k);
    let a = agreement(x, t, k) as int;
    assert forall|i: int| 0 <= i < a implies x[i] == t[i] by {
        assert(agree_at(x, t, i));
    }
    assert(accepted(x, t, k) =~= t.take(a as int + 1));
}

/// Both caches are cut back by exactly the proposals that the target did not agree with: all
/// of them, some of them, or none.
pub proof fn rejected_proposals_are_taken_back(m: SpecModel, reply: SpecReply)
    requires
        m.wf(),
        m.phase is ArgmaxRound,
        m.expects(reply),
    ensures
        ({
            let a = agreement(m.drafted, reply->RoundChoices_tokens@, m.k as nat);
            let rejected = (m.k - a) as u32;
            &&& a <= m.k
            &&& m.next(reply).call() == (SpecCallView::TrimTarget { count: rejected })
            &&& m.next(reply).next(SpecReply::Done).call() == (SpecCallView::TrimDraft {
                count: rejected,
            })
        }),
{
    agreement_is_leading(m.drafted, reply->RoundChoices_tokens@, m.k as nat);
}

/// A run so far: its state, and what its calls have done.
#[verifier::ext_equal]
pub struct SpecTrace {
    pub model: SpecModel,
    /// The tokens that were shown.
    pub shown: Seq<u32>,
    /// The tokens in the target's cache.
    pub target: Seq<u32>,
    /// The tokens in the draft's cache.
    pub draft: Seq<u32>,
    /// The tokens that the target has chosen, shown or not.
    pub chosen: Seq<u32>,
}

/// What one call does. A forward pass appends the tokens that it ran to the cache. The draft
/// appends the token that it starts from and everything that it proposes.
pub open spec fn spec_step(before: SpecTrace, reply: SpecReply) -> SpecTrace {
    let call = before.model.call();
    SpecTrace {
        model: before.model.next(reply),
        shown: match call {
            SpecCallView::Show { token } => before.shown.push(token),
            _ => before.shown,
        },
        target: match call {
            SpecCallView::ResetTarget => Seq::empty(),
            SpecCallView::ForwardPromptTarget { input } => before.target + before.model.prompt,
            SpecCallView::ForwardRound { input } => before.target + before.model.round_ids(),
            SpecCallView::TrimTarget { count } => before.target.take(before.target.len() - count),
            _ => before.target,
        },
        draft: match call {
            SpecCallView::ResetDraft => Seq::empty(),
            SpecCallView::ForwardPromptDraft { input } => before.draft + before.model.prompt,
            SpecCallView::Draft { token, count } => before.draft.push(token)
                + reply->Drafted_tokens@,
            SpecCallView::TrimDraft { count } => before.draft.take(before.draft.len() - count),
            _ => before.draft,
        },
        chosen: match call {
            SpecCallView::ArgmaxPrompt { input } => if reply->PromptChoices_tokens@.len() == 0 {
                before.chosen
            } else {
                before.chosen.push(reply->PromptChoices_tokens@.last())
            },
            SpecCallView::ArgmaxRound { input } => before.chosen + accepted(
                before.model.drafted,
                reply->RoundChoices_tokens@,
                before.model.k as nat,
            ),
            _ => before.chosen,
        },
    }
}

/// The run after `replies`, one for each call.
pub open spec fn spec_trace(
    k: u32,
    max_tokens: u32,
    text: Seq<char>,
    replies: Seq<SpecReply>,
) -> SpecTrace
    decreases replies.len(),
{
    if replies.len() == 0 {
        SpecTrace {
            model: SpecModel::start(k, max_tokens, text),
            shown: Seq::empty(),
            target: Seq::empty(),
            draft: Seq::empty(),
            chosen: Seq::empty(),
        }
    } else {
        spec_step(spec_trace(k, max_tokens, text, replies.drop_last()), replies.last())
    }
}

/// Whether `tokens` are the target's first choices after each of the last `n` tokens of its
/// cache.
pub open spec fn are_choices(
    choice: spec_fn(Seq<u32>) -> u32,
    cache: Seq<u32>,
    n: nat,
    tokens: Seq<u32>,
) -> bool {
    &&& tokens.len() == n
    &&& forall|i: int|
        0 <= i < n ==> #[trigger] tokens[i] == choice(cache.take(cache.len() - n + i + 1))
}

/// Whether a reply is what the servers would give: the draft proposes as many tokens as it was
/// asked for, whichever they are, and the target gives its first choices.
pub open spec fn is_served(
    choice: spec_fn(Seq<u32>) -> u32,
    before: SpecTrace,
    reply: SpecReply,
) -> bool {
    match reply {
        SpecReply::PromptChoices { tokens } => are_choices(
            choice,
            before.target,
            before.model.prompt.len(),
            tokens@,
        ),
        SpecReply::Drafted { tokens, elapsed_us } => tokens@.len() == before.model.k,
        SpecReply::RoundChoices { tokens, elapsed_us } => are_choices(
            choice,
            before.target,
            before.model.round_ids().len(),
            tokens@,
        ),
        _ => true,
    }
}

/// Whether each of `replies` answers the call that was due, and is what the servers would give.
pub open spec fn spec_run_is_served(
    choice: spec_fn(Seq<u32>) -> u32,
    k: u32,
    max_tokens: u32,
    text: Seq<char>,
    replies: Seq<SpecReply>,
) -> bool
    decreases replies.len(),
{
    replies.len() > 0 ==> {
        let before = spec_trace(k, max_tokens, text, replies.drop_last());
        &&& spec_run_is_served(choice, k, max_tokens, text, replies.drop_last())
        &&& before.model.expects(replies.last())
        &&& is_served(choice, before, replies.last())
    }
}

/// Whether each of `replies` answers the call that was due.
pub open spec fn spec_run_is_valid(
    k: u32,
    max_tokens: u32,
    text: Seq<char>,
    replies: Seq<SpecReply>,
) -> bool
    decreases replies.len(),
{
    replies.len() > 0 ==> {
        &&& spec_run_is_valid(k, max_tokens, text, replies.drop_last())
        &&& spec_trace(k, max_tokens, text, replies.drop_last()).model.expects(replies.last())
    }
}

/// Whether a reply, if it is a proposal, has `k` tokens.
pub open spec fn is_full(reply: SpecReply, k: u32) -> bool {
    reply matches SpecReply::Drafted { tokens, elapsed_us } ==> tokens@.len() == k
}

/// Whether every proposal has as many tokens as the draft was asked for.
pub open spec fn drafts_are_full(k: u32, replies: Seq<SpecReply>) -> bool {
    forall|i: int| 0 <= i < replies.len() ==> is_full(#[trigger] replies[i], k)
}

/// Both caches hold the prompt and all tokens that the target has chosen but the last.
pub open spec fn caches_in_step(t: SpecTrace) -> bool {
    &&& t.chosen.len() > 0
    &&& t.target == t.model.prompt + t.chosen.drop_last()
    &&& t.draft == t.target
}

/// How many tokens are shown at most: one, even where none may be.
pub open spec fn spec_limit(max_tokens: u32) -> nat {
    if max_tokens == 0 {
        1
    } else {
        max_tokens as nat
    }
}

/// How the tokens that were shown stand to those that the target has chosen.
pub open spec fn shows_what_is_chosen(t: SpecTrace) -> bool {
    let m = t.model;
    let all_shown = {
        &&& t.shown.len() > 0 && t.shown.len() == m.token_count
        &&& t.shown.last() == m.cur
        &&& t.chosen == t.shown
    };
    let uncounted = if m.in_rollback() {
        m.emitted.len() as int
    } else {
        0
    };
    &&& m.wf()
    &&& !m.on_prompt() ==> t.chosen.len() == 1 + m.rounds + m.accepted_sum + uncounted
    &&& m.on_prompt() ==> m.accepted_sum == 0
    &&& !(m.phase is Finished) ==> forall|i: int|
        0 <= i < t.shown.len() ==> #[trigger] t.shown[i] != m.eos
    &&& match m.phase {
        SpecPhase::ShowFirst => t.shown.len() == 0 && t.chosen == seq![m.cur],
        SpecPhase::Draft => all_shown,
        SpecPhase::EmbedRound => all_shown,
        SpecPhase::ForwardRound => all_shown,
        SpecPhase::ArgmaxRound => all_shown,
        SpecPhase::TrimTarget => {
            &&& t.shown.len() > 0 && t.shown.len() == m.token_count
            &&& t.chosen == t.shown + m.emitted
        },
        SpecPhase::TrimDraft => {
            &&& t.shown.len() > 0 && t.shown.len() == m.token_count
            &&& t.chosen == t.shown + m.emitted
        },
        SpecPhase::Show { index } => {
            let before = t.shown.take(t.shown.len() - index);
            &&& t.shown.len() == m.token_count
            &&& index < t.shown.len()
            &&& t.shown == before + m.emitted.take(index as int)
            &&& t.chosen == before + m.emitted
        },
        SpecPhase::Finished => {
            &&& t.shown.len() == m.token_count
            &&& stops_right(t.shown, t.chosen, m.eos, spec_limit(m.max_tokens))
        },
        _ => t.shown.len() == 0 && t.chosen.len() == 0,
    }
}

proof fn still_shows_what_is_chosen(t: SpecTrace, reply: SpecReply)
    requires
        shows_what_is_chosen(t),
        t.model.expects(reply),
    ensures
        shows_what_is_chosen(spec_step(t, reply)),
{
    let m = t.model;
    let after = spec_step(t, reply);
    spec_loop_stays_well_formed(m, reply);
    match m.phase {
        SpecPhase::ArgmaxPrompt => {
            if reply->PromptChoices_tokens@.len() > 0 {
                assert(after.chosen =~= seq![after.model.cur]);
            }
        },
        SpecPhase::ShowFirst => {
            assert(after.shown =~= after.chosen);
            assert(after.chosen.take(after.shown.len() as int) =~= after.shown);
        },
        SpecPhase::TrimDraft => {
            accepted_sum_fits(
                m.rounds as int,
                m.k as int,
                m.accepted_sum as int,
                m.emitted.len() - 1,
            );
            assert(t.shown.take(t.shown.len() as int) =~= t.shown);
            assert(t.shown =~= t.shown + m.emitted.take(0));
        },
        SpecPhase::Show { index } => {
            let before = t.shown.take(t.shown.len() - index);
            let token = m.emitted[index as int];
            assert(after.shown.take(after.shown.len() - (index + 1)) =~= before);
            assert(m.emitted.take(index + 1) =~= m.emitted.take(index as int).push(token));
            assert(after.shown =~= before + m.emitted.take(index + 1));
            assert(after.shown =~= after.chosen.take(after.shown.len() as int));
            if index + 1 == m.emitted.len() {
                assert(after.shown =~= after.chosen);
            }
        },
        _ => {},
    }
}

proof fn run_shows_what_is_chosen(
    k: u32,
    max_tokens: u32,
    text: Seq<char>,
    replies: Seq<SpecReply>,
)
    requires
        spec_run_is_valid(k, max_tokens, text, replies),
    ensures
        shows_what_is_chosen(spec_trace(k, max_tokens, text, replies)),
        spec_trace(k, max_tokens, text, replies).model.max_tokens == max_tokens,
        spec_trace(k, max_tokens, text, replies).model.k == k,
    decreases replies.len(),
{
    if replies.len() > 0 {
        run_shows_what_is_chosen(k, max_tokens, text, replies.drop_last());
        still_shows_what_is_chosen(
            spec_trace(k, max_tokens, text, replies.drop_last()),
            replies.last(),
        );
    }
}

/// Whatever draft and target reply, a run that has come to its end has shown what the target has
/// chosen, from the first token on, up to the first that ends the text or to `max_tokens` of them
/// (one, where none may be shown), and it reports how many those are. What was chosen are the
/// first token and, of each round, the proposals that were accepted and one token more.
pub proof fn speculation_shows_what_is_chosen(
    k: u32,
    max_tokens: u32,
    text: Seq<char>,
    replies: Seq<SpecReply>,
)
    requires
        spec_run_is_valid(k, max_tokens, text, replies),
        spec_trace(k, max_tokens, text, replies).model.call() is Finish,
    ensures
        ({
            let t = spec_trace(k, max_tokens, text, replies);
            let limit = spec_limit(max_tokens);
            &&& stops_right(t.shown, t.chosen, t.model.eos, limit)
            &&& t.shown.len() == shown_count(t.chosen, t.model.eos, limit)
            &&& t.model.token_count == t.shown.len()
            &&& t.chosen.len() == 1 + t.model.rounds + t.model.accepted_sum
        }),
{
    run_shows_what_is_chosen(k, max_tokens, text, replies);
    let t = spec_trace(k, max_tokens, text, replies);
    right_stop_fixes_the_count(t.shown, t.chosen, t.model.eos, spec_limit(max_tokens));
}

/// What the caches hold in each state of a run.
pub open spec fn caches_follow(t: SpecTrace) -> bool {
    let m = t.model;
    let prompt = m.prompt;
    let settled = prompt + t.shown.drop_last();
    match m.phase {
        SpecPhase::ResetTarget => true,
        SpecPhase::ResetDraft => t.target.len() == 0,
        SpecPhase::Tokenize => t.target.len() == 0 && t.draft.len() == 0,
        SpecPhase::EmbedPromptTarget => t.target.len() == 0 && t.draft.len() == 0,
        SpecPhase::ForwardPromptTarget => t.target.len() == 0 && t.draft.len() == 0,
        SpecPhase::EmbedPromptDraft => t.target == prompt && t.draft.len() == 0,
        SpecPhase::ForwardPromptDraft => t.target == prompt && t.draft.len() == 0,
        SpecPhase::ArgmaxPrompt => t.target == prompt && t.draft == prompt,
        SpecPhase::EmbedRound => {
            &&& m.drafted.len() == m.k
            &&& t.target == settled
            &&& t.draft == settled + m.round_ids()
        },
        SpecPhase::ForwardRound => {
            &&& m.drafted.len() == m.k
            &&& t.target == settled
            &&& t.draft == settled + m.round_ids()
        },
        SpecPhase::ArgmaxRound => {
            &&& m.drafted.len() == m.k
            &&& t.target == settled + m.round_ids()
            &&& t.draft == t.target
        },
        SpecPhase::TrimTarget => {
            &&& m.drafted.len() == m.k
            &&& m.emitted.drop_last() == m.drafted.take(m.emitted.len() - 1)
            &&& t.target == prompt + t.shown + m.drafted
            &&& t.draft == t.target
        },
        SpecPhase::TrimDraft => {
            &&& m.drafted.len() == m.k
            &&& m.emitted.drop_last() == m.drafted.take(m.emitted.len() - 1)
            &&& t.target == prompt + t.shown + m.emitted.drop_last()
            &&& t.draft == prompt + t.shown + m.drafted
        },
        SpecPhase::Failed => true,
        _ => caches_in_step(t),
    }
}

proof fn caches_still_follow(t: SpecTrace, reply: SpecReply)
    requires
        shows_what_is_chosen(t),
        caches_follow(t),
        t.model.expects(reply),
        is_full(reply, t.model.k),
    ensures
        caches_follow(spec_step(t, reply)),
{
    let m = t.model;
    let prompt = m.prompt;
    let after = spec_step(t, reply);
    match m.phase {
        SpecPhase::ForwardPromptTarget => {
            assert(t.target + prompt =~= prompt);
        },
        SpecPhase::ForwardPromptDraft => {
            assert(t.draft + prompt =~= prompt);
        },
        SpecPhase::ArgmaxPrompt => {
            if reply->PromptChoices_tokens@.len() > 0 {
                assert(prompt + after.chosen.drop_last() =~= prompt);
            }
        },
        SpecPhase::Draft => {
            assert(after.draft =~= prompt + t.shown.drop_last() + after.model.round_ids());
        },
        SpecPhase::ArgmaxRound => {
            let emitted = after.model.emitted;
            agreement_is_leading(m.drafted, reply->RoundChoices_tokens@, m.k as nat);
            assert(t.shown =~= t.shown.drop_last().push(m.cur));
            assert(t.target =~= prompt + t.shown + m.drafted);
            assert(emitted.drop_last() =~= m.drafted.take(emitted.len() - 1));
        },
        SpecPhase::TrimTarget => {
            assert(after.target =~= prompt + t.shown + m.emitted.drop_last());
        },
        SpecPhase::TrimDraft => {
            assert(after.draft =~= prompt + t.shown + m.emitted.drop_last());
            assert(after.chosen.drop_last() =~= t.shown + m.emitted.drop_last());
            assert(prompt + t.shown + m.emitted.drop_last() =~= prompt
                + after.chosen.drop_last());
        },
        _ => {},
    }
}

proof fn caches_follow_the_run(
    k: u32,
    max_tokens: u32,
    text: Seq<char>,
    replies: Seq<SpecReply>,
)
    requires
        spec_run_is_valid(k, max_tokens, text, replies),
        drafts_are_full(k, replies),
    ensures
        caches_follow(spec_trace(k, max_tokens, text, replies)),
    decreases replies.len(),
{
    if replies.len() > 0 {
        let n = replies.len() - 1;
        assert(forall|i: int| 0 <= i < n ==> #[trigger] replies.drop_last()[i] == replies[i]);
        assert(is_full(replies[n], k));
        caches_follow_the_run(k, max_tokens, text, replies.drop_last());
        run_shows_what_is_chosen(k, max_tokens, text, replies.drop_last());
        caches_still_follow(
            spec_trace(k, max_tokens, text, replies.drop_last()),
            replies.last(),
        );
    }
}

/// Whenever no round is under way, both caches hold the prompt and all tokens that the target
/// has chosen but the last, whatever the target chose and whatever the rounds before have
/// accepted and rolled back, if the draft always proposes as many tokens as it is asked for:
/// before each round, right behind its rollback, and at the end. What was shown is a beginning
/// of what was chosen, and all of it before each round.
pub proof fn caches_stay_in_step(
    k: u32,
    max_tokens: u32,
    text: Seq<char>,
    replies: Seq<SpecReply>,
)
    requires
        spec_run_is_valid(k, max_tokens, text, replies),
        drafts_are_full(k, replies),
        ({
            let call = spec_trace(k, max_tokens, text, replies).model.call();
            call is Draft || call is Show || call is Finish
        }),
    ensures
        ({
            let t = spec_trace(k, max_tokens, text, replies);
            &&& caches_in_step(t)
            &&& t.shown.is_prefix_of(t.chosen)
            &&& t.model.call() is Draft ==> t.shown == t.chosen
        }),
{
    run_shows_what_is_chosen(k, max_tokens, text, replies);
    caches_follow_the_run(k, max_tokens, text, replies);
    let t = spec_trace(k, max_tokens, text, replies);
    assert(t.shown =~= t.chosen.take(t.shown.len() as int));
}

/// Whether what a round yields are the target's first choices, one after the other.
pub open spec fn emits_choices(
    choice: spec_fn(Seq<u32>) -> u32,
    context: Seq<u32>,
    emitted: Seq<u32>,
) -> bool {
    forall|j: int|
        0 <= j < emitted.len() ==> #[trigger] emitted[j] == choice(context + emitted.take(j))
}

/// How a run stands to the greedy text of a target that always gives its first choices.
pub open spec fn keeps_to_greedy_text(choice: spec_fn(Seq<u32>) -> u32, t: SpecTrace) -> bool {
    let m = t.model;
    let prompt = m.prompt;
    let max = spec_limit(m.max_tokens);
    let so_far = greedy_so_far(choice, prompt, m.eos, max, t.shown);
    match m.phase {
        SpecPhase::ShowFirst => m.cur == choice(prompt),
        SpecPhase::Draft => so_far,
        SpecPhase::EmbedRound => so_far,
        SpecPhase::ForwardRound => so_far,
        SpecPhase::ArgmaxRound => so_far,
        SpecPhase::TrimTarget => so_far && emits_choices(choice, prompt + t.shown, m.emitted),
        SpecPhase::TrimDraft => so_far && emits_choices(choice, prompt + t.shown, m.emitted),
        SpecPhase::Show { index } => so_far && emits_choices(
            choice,
            prompt + t.shown.take(t.shown.len() - index),
            m.emitted,
        ),
        SpecPhase::Finished => t.shown == greedy_text(choice, prompt, m.eos, max),
        _ => true,
    }
}

proof fn still_keeps_to_greedy_text(
    choice: spec_fn(Seq<u32>) -> u32,
    t: SpecTrace,
    reply: SpecReply,
)
    requires
        shows_what_is_chosen(t),
        caches_follow(t),
        keeps_to_greedy_text(choice, t),
        t.model.expects(reply),
        is_served(choice, t, reply),
    ensures
        keeps_to_greedy_text(choice, spec_step(t, reply)),
{
    let m = t.model;
    let prompt = m.prompt;
    let after = spec_step(t, reply);
    let max = spec_limit(m.max_tokens);
    match m.phase {
        SpecPhase::ArgmaxPrompt => {
            if prompt.len() > 0 {
                let tokens = reply->PromptChoices_tokens@;
                let i = tokens.len() - 1;
                assert(tokens[i] == choice(prompt.take(prompt.len() as int)));
                assert(prompt.take(prompt.len() as int) =~= prompt);
            }
        },
        SpecPhase::ShowFirst => {
            assert(t.shown =~= Seq::<u32>::empty());
            assert(prompt + t.shown =~= prompt);
            greedy_at_start(choice, prompt, m.eos, max);
            greedy_goes_on(choice, prompt, m.eos, max, t.shown, m.cur);
        },
        SpecPhase::ArgmaxRound => {
            let x = m.drafted;
            let c = reply->RoundChoices_tokens@;
            let cache = t.target;
            let context = prompt + t.shown;
            let emitted = after.model.emitted;
            round_yields_the_targets_choices(x, c, m.k as nat);
            agreement_is_leading(x, c, m.k as nat);
            assert(t.shown =~= t.shown.drop_last().push(m.cur));
            assert(cache =~= context + x);
            assert forall|j: int| 0 <= j < emitted.len() implies #[trigger] emitted[j] == choice(
                context + emitted.take(j),
            ) by {
                assert(emitted[j] == c[j]);
                assert(c[j] == choice(cache.take(cache.len() - m.round_ids().len() + j + 1)));
                assert(emitted.take(j) =~= x.take(j));
                assert(cache.take(cache.len() - m.round_ids().len() + j + 1) =~= context
                    + emitted.take(j));
            }
        },
        SpecPhase::TrimDraft => {
            assert(t.shown.take(t.shown.len() as int) =~= t.shown);
        },
        SpecPhase::Show { index } => {
            let before = t.shown.take(t.shown.len() - index);
            let token = m.emitted[index as int];
            assert(prompt + t.shown =~= prompt + before + m.emitted.take(index as int));
            greedy_goes_on(choice, prompt, m.eos, max, t.shown, token);
            assert(after.shown.take(after.shown.len() - (index + 1)) =~= before);
        },
        _ => {},
    }
}

proof fn served_run_keeps_to_greedy_text(
    choice: spec_fn(Seq<u32>) -> u32,
    k: u32,
    max_tokens: u32,
    text: Seq<char>,
    replies: Seq<SpecReply>,
)
    requires
        spec_run_is_served(choice, k, max_tokens, text, replies),
    ensures
        spec_run_is_valid(k, max_tokens, text, replies),
        drafts_are_full(k, replies),
        keeps_to_greedy_text(choice, spec_trace(k, max_tokens, text, replies)),
    decreases replies.len(),
{
    if replies.len() > 0 {
        let before = replies.drop_last();
        served_run_keeps_to_greedy_text(choice, k, max_tokens, text, before);
        run_shows_what_is_chosen(k, max_tokens, text, before);
        caches_follow_the_run(k, max_tokens, text, before);
        still_keeps_to_greedy_text(
            choice,
            spec_trace(k, max_tokens, text, before),
            replies.last(),
        );
        assert forall|i: int| 0 <= i < replies.len() implies is_full(#[trigger] replies[i], k) by {
            if i < before.len() {
                assert(is_full(before[i], k));
            }
        }
    }
}

/// Speculative decoding shows the greedy text of the target after the prompt, token for
/// token, whatever the draft proposes and however many tokens a round has. Where no token may be
/// shown it shows one all the same, the target's first choice after the prompt.
pub proof fn speculation_shows_greedy_text(
    choice: spec_fn(Seq<u32>) -> u32,
    k: u32,
    max_tokens: u32,
    text: Seq<char>,
    replies: Seq<SpecReply>,
)
    requires
        spec_run_is_served(choice, k, max_tokens, text, replies),
        spec_trace(k, max_tokens, text, replies).model.call() is Finish,
    ensures
        ({
            let t = spec_trace(k, max_tokens, text, replies);
            let prompt = t.model.prompt;
            &&& t.shown == greedy_text(choice, prompt, t.model.eos, spec_limit(max_tokens))
            &&& max_tokens == 0 ==> t.shown == seq![choice(prompt)]
            &&& t.model.token_count == t.shown.len()
        }),
{
    served_run_keeps_to_greedy_text(choice, k, max_tokens, text, replies);
    run_shows_what_is_chosen(k, max_tokens, text, replies);
    let t = spec_trace(k, max_tokens, text, replies);
    if max_tokens == 0 {
        reveal_with_fuel(greedy_text, 2);
        assert(t.shown =~= seq![choice(t.model.prompt)]);
    }
}

/// Speculative decoding shows the same tokens as the plain loop does when it samples
/// greedily from the target, if at least one token may be shown.
pub proof fn speculation_shows_what_the_plain_loop_shows(
    choice: spec_fn(Seq<u32>) -> u32,
    k: u32,
    servers: usize,
    max_tokens: u32,
    text: Seq<char>,
    spec_replies: Seq<SpecReply>,
    run_replies: Seq<RunReply>,
)
    requires
        max_tokens > 0,
        servers > 0,
        spec_run_is_served(choice, k, max_tokens, text, spec_replies),
        spec_trace(k, max_tokens, text, spec_replies).model.call() is Finish,
        run_is_valid(servers, max_tokens, text, run_replies),
        samples_are_greedy(choice, servers, max_tokens, text, run_replies),
        run_trace(servers, max_tokens, text, run_replies).run.call() is Finish,
        ({
            let spec = spec_trace(k, max_tokens, text, spec_replies).model;
            let run = run_trace(servers, max_tokens, text, run_replies).run;
            spec.prompt == run.prompt && spec.eos == run.tokens.eos
        }),
    ensures
        spec_trace(k, max_tokens, text, spec_replies).shown == run_trace(
            servers,
            max_tokens,
            text,
            run_replies,
        ).shown,
{
    speculation_shows_greedy_text(choice, k, max_tokens, text, spec_replies);
    greedy_run_shows_greedy_text(choice, servers, max_tokens, text, run_replies);
}

/// What each call of a round computes is what the next one works on: the target embeds the token
/// shown last and the proposal behind it, runs the embedding through its layers, and chooses
/// from what came out.
pub proof fn round_hands_on_every_result(
    m: SpecModel,
    drafted: SpecReply,
    embedded: SpecReply,
    hidden: SpecReply,
)
    requires
        m.phase is Draft,
    ensures
        ({
            let proposed = m.next(drafted);
            let fed = proposed.next(embedded);
            let passed = fed.next(hidden);
            &&& m.call() == (SpecCallView::Draft { token: m.cur, count: m.k })
            &&& proposed.call() == (SpecCallView::EmbedRound {
                round: seq![m.cur] + drafted->Drafted_tokens@,
            })
            &&& fed.call() == (SpecCallView::ForwardRound { input: embedded->tensor@ })
            &&& passed.call() == (SpecCallView::ArgmaxRound { input: hidden->tensor@ })
        }),
{
}

/// Target and draft are given the prompt one after the other, each its own embedding, and the
/// target chooses from what came out of its own layers.
pub proof fn prompt_goes_through_both_models(
    m: SpecModel,
    tokenized: SpecReply,
    embedded: SpecReply,
    hidden: SpecReply,
    draft_embedded: SpecReply,
    draft_hidden: SpecReply,
)
    requires
        m.phase is Tokenize,
    ensures
        ({
            let ids = tokenized->Tokenized_tokens@;
            let known = m.next(tokenized);
            let fed = known.next(embedded);
            let passed = fed.next(hidden);
            let draft_fed = passed.next(draft_embedded);
            let draft_passed = draft_fed.next(draft_hidden);
            &&& m.call() == (SpecCallView::Tokenize { text: m.text })
            &&& known.call() == (SpecCallView::EmbedPromptTarget { tokens: ids })
            &&& fed.call() == (SpecCallView::ForwardPromptTarget { input: embedded->tensor@ })
            &&& passed.call() == (SpecCallView::EmbedPromptDraft { tokens: ids })
            &&& draft_fed.call() == (SpecCallView::ForwardPromptDraft {
                input: draft_embedded->tensor@,
            })
            &&& draft_passed.call() == (SpecCallView::ArgmaxPrompt { input: hidden->tensor@ })
        }),
{
}

/// The view of a call is the call itself, with what its text, tokens and tensors hold.
pub proof fn spec_calls_mean_what_they_say(call: SpecCall<'_>)
    ensures
        match call {
            SpecCall::ResetTarget => call@ is ResetTarget,
            SpecCall::ResetDraft => call@ is ResetDraft,
            SpecCall::Tokenize { text } => call@ is Tokenize && call@->text == text@,
            SpecCall::EmbedPromptTarget { tokens } => call@ is EmbedPromptTarget
                && call@->EmbedPromptTarget_tokens == tokens@,
            SpecCall::ForwardPromptTarget { input } => call@ is ForwardPromptTarget
                && call@->ForwardPromptTarget_input.data == contents(input.data)
                && call@->ForwardPromptTarget_input.shape == input.shape@,
            SpecCall::EmbedPromptDraft { tokens } => call@ is EmbedPromptDraft
                && call@->EmbedPromptDraft_tokens == tokens@,
            SpecCall::ForwardPromptDraft { input } => call@ is ForwardPromptDraft
                && call@->ForwardPromptDraft_input.data == contents(input.data)
                && call@->ForwardPromptDraft_input.shape == input.shape@,
            SpecCall::ArgmaxPrompt { input } => call@ is ArgmaxPrompt
                && call@->ArgmaxPrompt_input.data == contents(input.data)
                && call@->ArgmaxPrompt_input.shape == input.shape@,
            SpecCall::Show { token } => call@ == (SpecCallView::Show { token }),
            SpecCall::Draft { token, count } => call@ == (SpecCallView::Draft { token, count }),
            SpecCall::EmbedRound { round } => call@ is EmbedRound && call@->round == round@,
            SpecCall::ForwardRound { input } => call@ is ForwardRound
                && call@->ForwardRound_input.data == contents(input.data)
                && call@->ForwardRound_input.shape == input.shape@,
            SpecCall::ArgmaxRound { input } => call@ is ArgmaxRound
                && call@->ArgmaxRound_input.data == contents(input.data)
                && call@->ArgmaxRound_input.shape == input.shape@,
            SpecCall::TrimTarget { count } => call@ == (SpecCallView::TrimTarget { count }),
            SpecCall::TrimDraft { count } => call@ == (SpecCallView::TrimDraft { count }),
            SpecCall::Finish => call@ is Finish,
            SpecCall::Fail => call@ is Fail,
        },
        failure_text() == "empty prefill argmax"@,
{
}

/// A round is judged by its tokens alone: `a` proposals are accepted where the first `a` are the
/// target's choices and the next, if there is one, is not; and the round then yields the target's
/// first `a + 1` choices. That takes a choice behind the accepted proposals and, if not all are
/// accepted, the proposal that is not.
pub proof fn rounds_are_judged_by_their_tokens(x: Seq<u32>, t: Seq<u32>, k: nat, a: nat)
    requires
        a <= k,
        a <= x.len(),
        a <= t.len(),
        forall|i: int| 0 <= i < a ==> #[trigger] x[i] == t[i],
        a == k || a == x.len() || a == t.len() || x[a as int] != t[a as int],
    ensures
        agreement(x, t, k) == a,
        can_accept(x, t, k) <==> a < t.len() && (a == k || a < x.len()),
        can_accept(x, t, k) ==> accepted(x, t, k) == t.take(a as int + 1),
{
    agreement_is_leading(x, t, k);
    let b = agreement(x, t, k);
    if b < a {
        assert(x[b as int] == t[b as int]);
        assert(agree_at(x, t, b as int));
    } else if a < b {
        assert(agree_at(x, t, a as int));
    }
    if can_accept(x, t, k) {
        round_yields_the_targets_choices(x, t, k);
    }
}

/// Each call is answered by its own kind of reply, whatever that holds, and by no other: a time
/// is one that a clock can measure, and the choices of a round are enough to judge its proposals.
pub proof fn spec_expects_every_answer(m: SpecModel, reply: SpecReply)
    requires
        m.wf(),
    ensures
        MAX_ELAPSED_US == 0xffff_ffff_ffff_ffff * 1_000_000 + 999_999,
        m.expects(reply) <==> match m.call() {
            SpecCallView::Tokenize { text } => reply is Tokenized,
            SpecCallView::EmbedPromptTarget { tokens } => reply is Computed,
            SpecCallView::ForwardPromptTarget { input } => reply is Computed,
            SpecCallView::EmbedPromptDraft { tokens } => reply is Computed,
            SpecCallView::ForwardPromptDraft { input } => reply is Computed,
            SpecCallView::ArgmaxPrompt { input } => reply is PromptChoices,
            SpecCallView::Draft { token, count } => reply is Drafted && reply->Drafted_elapsed_us
                <= MAX_ELAPSED_US,
            SpecCallView::EmbedRound { round } => reply is Computed,
            SpecCallView::ForwardRound { input } => reply is Computed,
            SpecCallView::ArgmaxRound { input } => reply is RoundChoices
                && reply->RoundChoices_elapsed_us <= MAX_ELAPSED_US && can_accept(
                m.drafted,
                reply->RoundChoices_tokens@,
                m.k as nat,
            ),
            SpecCallView::Finish => false,
            SpecCallView::Fail => false,
            _ => reply is Done,
        },
{
}

proof fn spec_run_is_at_its_start(
    k: u32,
    max_tokens: u32,
    text: Seq<char>,
    replies: Seq<SpecReply>,
)
    requires
        spec_run_is_valid(k, max_tokens, text, replies),
        replies.len() <= 8,
    ensures
        ({
            let m = spec_trace(k, max_tokens, text, replies).model;
            let n = replies.len();
            &&& m.k == k
            &&& m.text == text
            &&& n > 2 ==> replies[2] is Tokenized && m.prompt == replies[2]->Tokenized_tokens@
                && m.eos == replies[2]->eos
            &&& n == 4 ==> m.hidden == replies[3]->tensor@
            &&& n > 4 ==> m.hidden == replies[4]->tensor@
            &&& n > 5 ==> m.draft_hidden == replies[5]->tensor@
            &&& m.phase == if n == 0 {
                SpecPhase::ResetTarget
            } else if n == 1 {
                SpecPhase::ResetDraft
            } else if n == 2 {
                SpecPhase::Tokenize
            } else if n == 3 {
                SpecPhase::EmbedPromptTarget
            } else if n == 4 {
                SpecPhase::ForwardPromptTarget
            } else if n == 5 {
                SpecPhase::EmbedPromptDraft
            } else if n == 6 {
                SpecPhase::ForwardPromptDraft
            } else if n == 7 {
                SpecPhase::ArgmaxPrompt
            } else if replies[7]->PromptChoices_tokens@.len() == 0 {
                SpecPhase::Failed
            } else {
                SpecPhase::ShowFirst
            }
            &&& n == 8 && m.phase is ShowFirst ==> m.cur
                == replies[7]->PromptChoices_tokens@.last()
        }),
    decreases replies.len(),
{
    if replies.len() > 0 {
        spec_run_is_at_its_start(k, max_tokens, text, replies.drop_last());
    }
}

/// What a run asks for before its first round, from the replies alone: both models are reset, the
/// target is asked for the tokens of the prompt, each model is given all of them and runs its own
/// embedding, and the target is asked for its choices on what came out of its own layers. The
/// last of those is shown first; if there is none, the run fails.
pub proof fn speculation_begins(
    k: u32,
    max_tokens: u32,
    text: Seq<char>,
    replies: Seq<SpecReply>,
)
    requires
        spec_run_is_valid(k, max_tokens, text, replies),
        replies.len() <= 8,
    ensures
        ({
            let call = spec_trace(k, max_tokens, text, replies).model.call();
            let n = replies.len();
            let ids = replies[2]->Tokenized_tokens@;
            let last = replies.last()->tensor;
            let choices = replies[7]->PromptChoices_tokens@;
            &&& n == 0 ==> call is ResetTarget
            &&& n == 1 ==> call is ResetDraft
            &&& n == 2 ==> call is Tokenize && call->text == text
            &&& n == 3 ==> call is EmbedPromptTarget && call->EmbedPromptTarget_tokens == ids
            &&& n == 4 ==> call is ForwardPromptTarget && call->ForwardPromptTarget_input.data
                == contents(last.data) && call->ForwardPromptTarget_input.shape == last.shape@
            &&& n == 5 ==> call is EmbedPromptDraft && call->EmbedPromptDraft_tokens == ids
            &&& n == 6 ==> call is ForwardPromptDraft && call->ForwardPromptDraft_input.data
                == contents(last.data) && call->ForwardPromptDraft_input.shape == last.shape@
            &&& n == 7 ==> call is ArgmaxPrompt && call->ArgmaxPrompt_input.data == contents(
                replies[4]->tensor.data,
            ) && call->ArgmaxPrompt_input.shape == replies[4]->tensor.shape@
            &&& n == 8 && choices.len() == 0 ==> call is Fail
            &&& n == 8 && choices.len() > 0 ==> call == (SpecCallView::Show {
                token: choices.last(),
            })
        }),
{
    spec_run_is_at_its_start(k, max_tokens, text, replies);
}

proof fn spec_run_keeps_the_answer(
    k: u32,
    max_tokens: u32,
    text: Seq<char>,
    replies: Seq<SpecReply>,
)
    requires
        spec_run_is_valid(k, max_tokens, text, replies),
        replies.len() > 2,
    ensures
        ({
            let m = spec_trace(k, max_tokens, text, replies).model;
            &&& replies[2] is Tokenized
            &&& m.prompt == replies[2]->Tokenized_tokens@
            &&& m.eos == replies[2]->eos
            &&& !(m.phase is ResetTarget) && !(m.phase is ResetDraft) && !(m.phase is Tokenize)
        }),
    decreases replies.len(),
{
    if replies.len() <= 8 {
        spec_run_is_at_its_start(k, max_tokens, text, replies);
    } else {
        spec_run_keeps_the_answer(k, max_tokens, text, replies.drop_last());
    }
}

/// Once the prompt is answered, a run goes by that answer to its end: a run that has finished
/// showed what the target has chosen up to the first that is the token which the answer names as
/// the end of a text, or up to `max_tokens` (one, where none may be shown), and, where the target
/// always gives its first choices, the greedy text behind the tokens of the answer.
pub proof fn speculation_stops_by_the_answer(
    choice: spec_fn(Seq<u32>) -> u32,
    k: u32,
    max_tokens: u32,
    text: Seq<char>,
    replies: Seq<SpecReply>,
)
    requires
        spec_run_is_valid(k, max_tokens, text, replies),
        spec_trace(k, max_tokens, text, replies).model.call() is Finish,
    ensures
        ({
            let t = spec_trace(k, max_tokens, text, replies);
            let answer = replies[2];
            let limit = if max_tokens == 0 {
                1nat
            } else {
                max_tokens as nat
            };
            &&& replies.len() > 8
            &&& answer is Tokenized
            &&& stops_right(t.shown, t.chosen, answer->eos, limit)
            &&& t.shown.len() == shown_count(t.chosen, answer->eos, limit)
            &&& spec_run_is_served(choice, k, max_tokens, text, replies) ==> t.shown
                == greedy_text(choice, answer->Tokenized_tokens@, answer->eos, limit)
        }),
{
    if replies.len() <= 8 {
        spec_run_is_at_its_start(k, max_tokens, text, replies);
    }
    spec_run_keeps_the_answer(k, max_tokens, text, replies);
    speculation_shows_what_is_chosen(k, max_tokens, text, replies);
    if spec_run_is_served(choice, k, max_tokens, text, replies) {
        speculation_shows_greedy_text(choice, k, max_tokens, text, replies);
    }
}

/// What a run shows and what follows, from what was chosen and shown so far: the next token that
/// was chosen is shown; behind the token that the answer to the prompt names as the end of a
/// text, or behind the `max_tokens`-th, nothing follows; else the next chosen token does, and
/// where all are shown, a draft of `k` tokens behind the last.
pub proof fn shows_follow_what_is_chosen(
    k: u32,
    max_tokens: u32,
    text: Seq<char>,
    replies: Seq<SpecReply>,
)
    requires
        spec_run_is_valid(k, max_tokens, text, replies),
        spec_trace(k, max_tokens, text, replies).model.call() is Show,
    ensures
        ({
            let t = spec_trace(k, max_tokens, text, replies);
            let n = t.shown.len() as int;
            let token = t.chosen[n];
            let after = t.model.next(SpecReply::Done).call();
            &&& n < t.chosen.len()
            &&& t.shown == t.chosen.take(n)
            &&& t.model.call() == (SpecCallView::Show { token })
            &&& if token == replies[2]->eos || n + 1 >= max_tokens {
                after is Finish
            } else if n + 1 < t.chosen.len() {
                after == (SpecCallView::Show { token: t.chosen[n + 1] })
            } else {
                after == (SpecCallView::Draft { token, count: k })
            }
        }),
{
    run_shows_what_is_chosen(k, max_tokens, text, replies);
    if replies.len() <= 2 {
        spec_run_is_at_its_start(k, max_tokens, text, replies);
    }
    spec_run_keeps_the_answer(k, max_tokens, text, replies);
    let t = spec_trace(k, max_tokens, text, replies);
    assert(t.shown =~= t.chosen.take(t.shown.len() as int));
}

/// What a run asks for in a round, from the replies of the round: a draft of `k` tokens behind
/// the token shown last; then the target embeds that token and the proposal, runs the embedding
/// and is asked for its choices on what came out; both models take back the proposals behind the
/// first `a`, which are those that are the target's choices; and the target's first choice of the
/// round is shown next. Chosen are then also its first `a + 1` choices.
pub proof fn round_follows_its_replies(
    k: u32,
    max_tokens: u32,
    text: Seq<char>,
    replies: Seq<SpecReply>,
    drafted: SpecReply,
    embedded: SpecReply,
    hidden: SpecReply,
    choices: SpecReply,
    a: nat,
)
    requires
        spec_run_is_valid(k, max_tokens, text, replies),
        spec_trace(k, max_tokens, text, replies).model.call() is Draft,
        drafted is Drafted,
        choices is RoundChoices,
        a <= k,
        a < choices->RoundChoices_tokens@.len(),
        a <= drafted->Drafted_tokens@.len(),
        forall|i: int|
            0 <= i < a ==> #[trigger] drafted->Drafted_tokens@[i]
                == choices->RoundChoices_tokens@[i],
        a == k || a < drafted->Drafted_tokens@.len() && drafted->Drafted_tokens@[a as int]
            != choices->RoundChoices_tokens@[a as int],
    ensures
        ({
            let t = spec_trace(k, max_tokens, text, replies);
            let proposed = spec_step(t, drafted);
            let fed = spec_step(proposed, embedded);
            let passed = spec_step(fed, hidden);
            let judged = spec_step(passed, choices);
            let cut = spec_step(judged, SpecReply::Done);
            let after = spec_step(cut, SpecReply::Done);
            let c = choices->RoundChoices_tokens@;
            &&& t.model.call() == (SpecCallView::Draft { token: t.shown.last(), count: k })
            &&& proposed.model.call() is EmbedRound
            &&& proposed.model.call()->round == seq![t.shown.last()] + drafted->Drafted_tokens@
            &&& fed.model.call() is ForwardRound
            &&& fed.model.call()->ForwardRound_input.data == contents(embedded->tensor.data)
            &&& fed.model.call()->ForwardRound_input.shape == embedded->tensor.shape@
            &&& passed.model.call() is ArgmaxRound
            &&& passed.model.call()->ArgmaxRound_input.data == contents(hidden->tensor.data)
            &&& passed.model.call()->ArgmaxRound_input.shape == hidden->tensor.shape@
            &&& judged.model.call() == (SpecCallView::TrimTarget { count: (k - a) as u32 })
            &&& cut.model.call() == (SpecCallView::TrimDraft { count: (k - a) as u32 })
            &&& after.model.call() == (SpecCallView::Show { token: c[0] })
            &&& after.chosen == t.shown + c.take(a as int + 1)
        }),
{
    run_shows_what_is_chosen(k, max_tokens, text, replies);
    let t = spec_trace(k, max_tokens, text, replies);
    let x = drafted->Drafted_tokens@;
    let c = choices->RoundChoices_tokens@;
    rounds_are_judged_by_their_tokens(x, c, k as nat, a);
    assert(accepted(x, c, k as nat)[0] == c[0]);
}

/// How many rounds were judged, among `replies`.
pub open spec fn rounds_among(replies: Seq<SpecReply>) -> nat
    decreases replies.len(),
{
    if replies.len() == 0 {
        0
    } else {
        rounds_among(replies.drop_last()) + if replies.last() is RoundChoices {
            1nat
        } else {
            0nat
        }
    }
}

/// How long drafting took, over all of `replies`.
pub open spec fn drafting_us(replies: Seq<SpecReply>) -> nat
    decreases replies.len(),
{
    if replies.len() == 0 {
        0
    } else {
        drafting_us(replies.drop_last()) + match replies.last() {
            SpecReply::Drafted { tokens, elapsed_us } => elapsed_us as nat,
            _ => 0nat,
        }
    }
}

/// How long verifying took, over all of `replies`.
pub open spec fn verifying_us(replies: Seq<SpecReply>) -> nat
    decreases replies.len(),
{
    if replies.len() == 0 {
        0
    } else {
        verifying_us(replies.drop_last()) + match replies.last() {
            SpecReply::RoundChoices { tokens, elapsed_us } => elapsed_us as nat,
            _ => 0nat,
        }
    }
}

/// What a run reports adds up from its replies: a round for each answer with the target's choices
/// on a round, and the times that the answers give. All tokens that were chosen are the first
/// one, one for each round, and the accepted proposals.
pub proof fn report_adds_up(k: u32, max_tokens: u32, text: Seq<char>, replies: Seq<SpecReply>)
    requires
        spec_run_is_valid(k, max_tokens, text, replies),
    ensures
        ({
            let t = spec_trace(k, max_tokens, text, replies);
            let m = t.model;
            let call = m.call();
            &&& call is TrimTarget || call is TrimDraft ==> m.rounds + 1 == rounds_among(replies)
            &&& !(call is TrimTarget || call is TrimDraft) ==> m.rounds == rounds_among(replies)
            &&& m.draft_us == drafting_us(replies)
            &&& m.verify_us == verifying_us(replies)
            &&& call is Draft || call is Finish ==> m.token_count == t.shown.len()
            &&& call is Draft || call is Finish ==> t.chosen.len() == 1 + m.rounds + m.accepted_sum
        }),
    decreases replies.len(),
{
    run_shows_what_is_chosen(k, max_tokens, text, replies);
    if replies.len() > 0 {
        let before = replies.drop_last();
        report_adds_up(k, max_tokens, text, before);
        run_shows_what_is_chosen(k, max_tokens, text, before);
    }
}

/// What a run that has finished reports, from its replies and what was shown: how many tokens it
/// showed and how many of them behind the first, how many rounds were judged, how many proposals
/// were accepted, and the mean times of a round, rounded down, or none without a round.
pub proof fn report_speaks_of_the_run(
    k: u32,
    max_tokens: u32,
    text: Seq<char>,
    replies: Seq<SpecReply>,
)
    requires
        spec_run_is_valid(k, max_tokens, text, replies),
        spec_trace(k, max_tokens, text, replies).model.call() is Finish,
    ensures
        ({
            let t = spec_trace(k, max_tokens, text, replies);
            let r = t.model.report();
            let rounds = rounds_among(replies) as int;
            &&& r.token_count == t.shown.len()
            &&& r.gen_tokens == t.shown.len() - 1
            &&& r.rounds == rounds
            &&& r.accepted_sum == t.chosen.len() - 1 - rounds
            &&& rounds == 0 ==> r.mean_draft_us == 0 && r.mean_verify_us == 0
            &&& rounds > 0 ==> r.mean_draft_us * rounds <= drafting_us(replies) < (r.mean_draft_us
                + 1) * rounds
            &&& rounds > 0 ==> r.mean_verify_us * rounds <= verifying_us(replies) < (
            r.mean_verify_us + 1) * rounds
        }),
{
    run_shows_what_is_chosen(k, max_tokens, text, replies);
    report_adds_up(k, max_tokens, text, replies);
    let m = spec_trace(k, max_tokens, text, replies).model;
    if m.rounds > 0 {
        quotient_is_rounded_down(m.draft_us as int, m.rounds as int);
        quotient_is_rounded_down(m.verify_us as int, m.rounds as int);
    }
}

proof fn quotient_is_rounded_down(sum: int, n: int)
    requires
        sum >= 0,
        n > 0,
    ensures
        (sum / n) * n <= sum < (sum / n + 1) * n,
        0 <= sum / n <= sum,
{
    let q = sum / n;
    assert(q * n <= sum < (q + 1) * n && 0 <= q <= sum) by (nonlinear_arith)
        requires
            n > 0,
            sum >= 0,
            q == sum / n,
    ;
}

} // verus!
