//! What holds of whole runs of the generation loop.
use crate::generation::{PassMode, RunCall, RunCallView, RunModel, RunReply, RunStep, TokenLoop, TokenPhase};
use crate::greedy::{decode_count, greedy_at_start, greedy_goes_on, greedy_so_far, greedy_text, right_stop_fixes_the_count, right_stop_fixes_the_passes, samples_no_more, shown_count, stops_right};
use crate::payload::contents;
use vstd::prelude::*;

verus! {

/// A run so far: its state, and what its calls have done.
#[verifier::ext_equal]
pub struct RunTrace {
    pub run: RunModel,
    /// The tokens that were shown.
    pub shown: Seq<u32>,
    /// The tokens that were sampled.
    pub sampled: Seq<u32>,
    /// The tokens that went through the model since its caches were emptied.
    pub fed: Seq<u32>,
}

/// The run after `replies`, one for each call.
pub open spec fn run_trace(
    servers: usize,
    max_tokens: u32,
    text: Seq<char>,
    replies: Seq<RunReply>,
) -> RunTrace
    decreases replies.len(),
{
    if replies.len() == 0 {
        RunTrace {
            run: RunModel::start(servers, max_tokens, text),
            shown: Seq::empty(),
            sampled: Seq::empty(),
            fed: Seq::empty(),
        }
    } else {
        let before = run_trace(servers, max_tokens, text, replies.drop_last());
        let reply = replies.last();
        RunTrace {
            run: before.run.next(reply),
            shown: match before.run.call() {
                RunCallView::Show { server, token } => before.shown.push(token),
                _ => before.shown,
            },
            sampled: match before.run.call() {
                RunCallView::Sample { server, input } => before.sampled.push(reply->token),
                _ => before.sampled,
            },
            fed: match before.run.call() {
                RunCallView::Reset { server } => Seq::empty(),
                RunCallView::EmbedPrompt { server, tokens } => before.fed + tokens,
                RunCallView::EmbedToken { server, token } => before.fed.push(token),
                _ => before.fed,
            },
        }
    }
}

/// Whether each of `replies` answers the call that was due.
pub open spec fn run_is_valid(
    servers: usize,
    max_tokens: u32,
    text: Seq<char>,
    replies: Seq<RunReply>,
) -> bool
    decreases replies.len(),
{
    replies.len() > 0 ==> {
        &&& run_is_valid(servers, max_tokens, text, replies.drop_last())
        &&& run_trace(servers, max_tokens, text, replies.drop_last()).run.expects(
            replies.last(),
        )
    }
}

/// Whether every sample was the model's first choice after what it was fed.
pub open spec fn samples_are_greedy(
    choice: spec_fn(Seq<u32>) -> u32,
    servers: usize,
    max_tokens: u32,
    text: Seq<char>,
    replies: Seq<RunReply>,
) -> bool
    decreases replies.len(),
{
    replies.len() > 0 ==> {
        let before = run_trace(servers, max_tokens, text, replies.drop_last());
        &&& samples_are_greedy(choice, servers, max_tokens, text, replies.drop_last())
        &&& before.run.call() is Sample ==> replies.last()->token == choice(before.fed)
    }
}

/// How the token loop stands to the tokens that were shown and sampled.
pub open spec fn tokens_accounted(tokens: TokenLoop, shown: Seq<u32>, sampled: Seq<u32>) -> bool {
    &&& tokens.wf()
    &&& shown.len() == tokens.shown
    &&& tokens.phase is Prefill ==> sampled.len() == 0
    &&& tokens.phase is Show ==> sampled == shown.push(tokens.next_id)
    &&& tokens.phase is Decode ==> sampled == shown && shown.len() > 0 && shown.last()
        == tokens.next_id
    &&& tokens.phase is Finished ==> {
        &&& stops_right(shown, sampled, tokens.eos, tokens.max_tokens as nat)
        &&& samples_no_more(shown, sampled, tokens.eos, tokens.max_tokens as nat)
    }
    &&& !(tokens.phase is Finished) ==> forall|i: int|
        0 <= i < shown.len() ==> #[trigger] shown[i] != tokens.eos
    &&& !(tokens.phase is Prefill) ==> sampled.len() == tokens.token_count + 1
}

/// A sample keeps the account.
pub proof fn sample_is_accounted(tokens: TokenLoop, shown: Seq<u32>, sampled: Seq<u32>, id: u32)
    requires
        tokens_accounted(tokens, shown, sampled),
        tokens.passing(),
    ensures
        tokens_accounted(tokens.after_sample(id), shown, sampled.push(id)),
{
    assert(sampled.push(id).take(shown.len() as int) =~= sampled.take(shown.len() as int));
    assert(tokens.phase is Prefill ==> shown =~= Seq::<u32>::empty() && sampled =~= Seq::<
        u32,
    >::empty());
    assert(sampled.take(shown.len() as int) =~= shown);
}

/// A token that is shown keeps the account.
pub proof fn show_is_accounted(tokens: TokenLoop, shown: Seq<u32>, sampled: Seq<u32>)
    requires
        tokens_accounted(tokens, shown, sampled),
        tokens.phase is Show,
    ensures
        tokens_accounted(tokens.after_show(), shown.push(tokens.next_id), sampled),
{
    assert(sampled.take(sampled.len() as int) =~= sampled);
}

proof fn run_is_accounted(
    servers: usize,
    max_tokens: u32,
    text: Seq<char>,
    replies: Seq<RunReply>,
)
    requires
        servers > 0,
        run_is_valid(servers, max_tokens, text, replies),
    ensures
        ({
            let t = run_trace(servers, max_tokens, text, replies);
            &&& t.run.wf()
            &&& t.run.servers == servers
            &&& t.run.text == text
            &&& t.run.tokens.max_tokens == max_tokens
            &&& tokens_accounted(t.run.tokens, t.shown, t.sampled)
        }),
    decreases replies.len(),
{
    if replies.len() > 0 {
        run_is_accounted(servers, max_tokens, text, replies.drop_last());
        let t = run_trace(servers, max_tokens, text, replies.drop_last());
        let reply = replies.last();
        match t.run.step {
            RunStep::Sample => {
                sample_is_accounted(t.run.tokens, t.shown, t.sampled, reply->token);
            },
            RunStep::Token => {
                show_is_accounted(t.run.tokens, t.shown, t.sampled);
            },
            _ => {},
        }
    }
}

/// A run that has come to its end has shown what was sampled and stopped where it should: at the
/// first sample that ends the text, or at `max_tokens`. It counts the decode passes, all samples
/// but the first: as many as there are samples before the first that ends the text, behind which
/// nothing is sampled, and no more than `max_tokens`.
pub proof fn run_shows_its_samples(
    servers: usize,
    max_tokens: u32,
    text: Seq<char>,
    replies: Seq<RunReply>,
)
    requires
        servers > 0,
        run_is_valid(servers, max_tokens, text, replies),
        run_trace(servers, max_tokens, text, replies).run.call() is Finish,
    ensures
        ({
            let t = run_trace(servers, max_tokens, text, replies);
            &&& stops_right(t.shown, t.sampled, t.run.tokens.eos, max_tokens as nat)
            &&& t.shown.len() == shown_count(t.sampled, t.run.tokens.eos, max_tokens as nat)
            &&& t.run.call()->token_count == t.sampled.len() - 1
            &&& t.run.call()->token_count == decode_count(
                t.sampled,
                t.run.tokens.eos,
                max_tokens as nat,
            )
        }),
{
    run_is_accounted(servers, max_tokens, text, replies);
    let t = run_trace(servers, max_tokens, text, replies);
    right_stop_fixes_the_count(t.shown, t.sampled, t.run.tokens.eos, max_tokens as nat);
    right_stop_fixes_the_passes(t.shown, t.sampled, t.run.tokens.eos, max_tokens as nat);
}

/// How a greedy run stands to the greedy text.
pub open spec fn tokens_are_greedy(
    choice: spec_fn(Seq<u32>) -> u32,
    prompt: Seq<u32>,
    tokens: TokenLoop,
    shown: Seq<u32>,
) -> bool {
    let max = tokens.max_tokens as nat;
    &&& !(tokens.phase is Finished) ==> greedy_so_far(choice, prompt, tokens.eos, max, shown)
    &&& tokens.phase is Show ==> tokens.next_id == choice(prompt + shown)
    &&& tokens.phase is Finished ==> shown == greedy_text(choice, prompt, tokens.eos, max)
}

/// A greedy sample keeps to the greedy text.
pub proof fn greedy_sample(
    choice: spec_fn(Seq<u32>) -> u32,
    prompt: Seq<u32>,
    tokens: TokenLoop,
    shown: Seq<u32>,
    id: u32,
)
    requires
        tokens.wf(),
        tokens.passing(),
        shown.len() == tokens.shown,
        tokens_are_greedy(choice, prompt, tokens, shown),
        id == choice(prompt + shown),
    ensures
        tokens_are_greedy(choice, prompt, tokens.after_sample(id), shown),
{
    if tokens.shown == tokens.max_tokens {
        assert(greedy_text(choice, prompt + shown, tokens.eos, 0) =~= Seq::<u32>::empty());
        assert(shown + Seq::<u32>::empty() =~= shown);
    }
}

/// Showing a greedy sample keeps to the greedy text.
pub proof fn greedy_show(
    choice: spec_fn(Seq<u32>) -> u32,
    prompt: Seq<u32>,
    tokens: TokenLoop,
    shown: Seq<u32>,
)
    requires
        tokens.wf(),
        tokens.phase is Show,
        shown.len() == tokens.shown,
        tokens_are_greedy(choice, prompt, tokens, shown),
    ensures
        tokens_are_greedy(choice, prompt, tokens.after_show(), shown.push(tokens.next_id)),
{
    greedy_goes_on(
        choice,
        prompt,
        tokens.eos,
        tokens.max_tokens as nat,
        shown,
        tokens.next_id,
    );
}

proof fn run_is_greedy(
    choice: spec_fn(Seq<u32>) -> u32,
    servers: usize,
    max_tokens: u32,
    text: Seq<char>,
    replies: Seq<RunReply>,
)
    requires
        servers > 0,
        run_is_valid(servers, max_tokens, text, replies),
        samples_are_greedy(choice, servers, max_tokens, text, replies),
    ensures
        ({
            let t = run_trace(servers, max_tokens, text, replies);
            let prompt = t.run.prompt;
            &&& tokens_are_greedy(choice, prompt, t.run.tokens, t.shown)
            &&& match t.run.step {
                RunStep::Reset { server } => t.fed.len() == 0,
                RunStep::Tokenize => t.fed.len() == 0,
                RunStep::Embed => if t.run.tokens.phase is Prefill {
                    t.fed.len() == 0
                } else {
                    t.fed == prompt + t.shown.drop_last()
                },
                RunStep::Token => t.run.tokens.phase is Show ==> t.fed == prompt + t.shown,
                _ => t.fed == prompt + t.shown,
            }
        }),
    decreases replies.len(),
{
    run_is_accounted(servers, max_tokens, text, replies);
    if replies.len() == 0 {
        greedy_at_start(choice, Seq::empty(), 0, max_tokens as nat);
    } else {
        run_is_accounted(servers, max_tokens, text, replies.drop_last());
        run_is_greedy(choice, servers, max_tokens, text, replies.drop_last());
        let t = run_trace(servers, max_tokens, text, replies.drop_last());
        let after = run_trace(servers, max_tokens, text, replies);
        let prompt = t.run.prompt;
        let reply = replies.last();
        match t.run.step {
            RunStep::Tokenize => {
                assert(t.shown =~= Seq::<u32>::empty());
                greedy_at_start(choice, reply->tokens@, reply->eos, max_tokens as nat);
            },
            RunStep::Embed => {
                if t.run.tokens.phase is Prefill {
                    assert(t.shown =~= Seq::<u32>::empty());
                    assert(after.fed =~= prompt + t.shown);
                } else {
                    assert(t.shown =~= t.shown.drop_last().push(t.run.tokens.next_id));
                    assert(after.fed =~= prompt + t.shown);
                }
            },
            RunStep::Sample => {
                greedy_sample(choice, prompt, t.run.tokens, t.shown, reply->token);
            },
            RunStep::Token => {
                greedy_show(choice, prompt, t.run.tokens, t.shown);
                assert(t.shown.push(t.run.tokens.next_id).drop_last() =~= t.shown);
            },
            _ => {},
        }
    }
}

/// A run whose every sample is the model's first choice shows the greedy text after the
/// prompt, whether the layers are on one server or on several.
pub proof fn greedy_run_shows_greedy_text(
    choice: spec_fn(Seq<u32>) -> u32,
    servers: usize,
    max_tokens: u32,
    text: Seq<char>,
    replies: Seq<RunReply>,
)
    requires
        servers > 0,
        run_is_valid(servers, max_tokens, text, replies),
        samples_are_greedy(choice, servers, max_tokens, text, replies),
        run_trace(servers, max_tokens, text, replies).run.call() is Finish,
    ensures
        ({
            let t = run_trace(servers, max_tokens, text, replies);
            t.shown == greedy_text(choice, t.run.prompt, t.run.tokens.eos, max_tokens as nat)
        }),
{
    run_is_accounted(servers, max_tokens, text, replies);
    run_is_greedy(choice, servers, max_tokens, text, replies);
}

/// Cutting the layers up over a chain of servers loses nothing: greedy runs over chains of any
/// two lengths show the same tokens.
pub proof fn chains_show_the_same(
    choice: spec_fn(Seq<u32>) -> u32,
    servers: usize,
    more_servers: usize,
    max_tokens: u32,
    text: Seq<char>,
    replies: Seq<RunReply>,
    more_replies: Seq<RunReply>,
)
    requires
        servers > 0,
        more_servers > 0,
        run_is_valid(servers, max_tokens, text, replies),
        run_is_valid(more_servers, max_tokens, text, more_replies),
        samples_are_greedy(choice, servers, max_tokens, text, replies),
        samples_are_greedy(choice, more_servers, max_tokens, text, more_replies),
        run_trace(servers, max_tokens, text, replies).run.call() is Finish,
        run_trace(more_servers, max_tokens, text, more_replies).run.call() is Finish,
        run_trace(servers, max_tokens, text, replies).run.tokens.eos == run_trace(
            more_servers,
            max_tokens,
            text,
            more_replies,
        ).run.tokens.eos,
        run_trace(servers, max_tokens, text, replies).run.prompt == run_trace(
            more_servers,
            max_tokens,
            text,
            more_replies,
        ).run.prompt,
    ensures
        run_trace(servers, max_tokens, text, replies).shown == run_trace(
            more_servers,
            max_tokens,
            text,
            more_replies,
        ).shown,
{
    greedy_run_shows_greedy_text(choice, servers, max_tokens, text, replies);
    greedy_run_shows_greedy_text(choice, more_servers, max_tokens, text, more_replies);
}

/// The state after `replies`, one for each call.
pub open spec fn after_replies(run: RunModel, replies: Seq<RunReply>) -> RunModel
    decreases replies.len(),
{
    if replies.len() == 0 {
        run
    } else {
        after_replies(run, replies.drop_last()).next(replies.last())
    }
}

proof fn after_one_more(run: RunModel, replies: Seq<RunReply>, n: int)
    requires
        0 <= n < replies.len(),
    ensures
        after_replies(run, replies.take(0)) == run,
        after_replies(run, replies.take(n + 1)) == after_replies(run, replies.take(n)).next(
            replies[n],
        ),
{
    assert(replies.take(n + 1).drop_last() =~= replies.take(n));
    assert(replies.take(0) =~= Seq::<RunReply>::empty());
}

proof fn pass_reaches(run: RunModel, replies: Seq<RunReply>, server: int)
    requires
        run.wf(),
        run.step is Embed,
        replies.len() > run.servers,
        0 <= server < run.servers,
    ensures
        after_replies(run, replies.take(server + 1)) == (RunModel {
            step: RunStep::Forward { server: server as usize },
            tensor: replies[server]->tensor@,
            ..run
        }),
    decreases server,
{
    after_one_more(run, replies, server);
    if server > 0 {
        pass_reaches(run, replies, server - 1);
    }
}

/// What each call of a pass computes is what the next one works on: the embedding goes through
/// the layers of the first server, what comes out of each server through the layers of the
/// next, what comes out of the last one is made into logits there, and the first server samples
/// from those.
pub proof fn pass_hands_on_every_result(run: RunModel, replies: Seq<RunReply>, server: int)
    requires
        run.wf(),
        run.step is Embed,
        replies.len() == run.servers + 2,
        0 <= server < run.servers,
    ensures
        after_replies(run, replies.take(server + 1)).call() == (RunCallView::Forward {
            server: server as usize,
            mode: run.tokens.mode(),
            input: replies[server]->tensor@,
        }),
        after_replies(run, replies.take(run.servers + 1)).call() == (RunCallView::Logits {
            server: (run.servers - 1) as usize,
            input: replies[run.servers as int]->tensor@,
        }),
        after_replies(run, replies).call() == (RunCallView::Sample {
            server: 0,
            input: replies[run.servers + 1]->tensor@,
        }),
        after_replies(run, replies) == (RunModel {
            step: RunStep::Sample,
            tensor: replies[run.servers + 1]->tensor@,
            ..run
        }),
{
    pass_reaches(run, replies, server);
    pass_reaches(run, replies, run.servers - 1);
    after_one_more(run, replies, run.servers as int);
    after_one_more(run, replies, run.servers + 1);
    assert(replies.take(run.servers + 2) =~= replies);
}

/// Whenever a call works on a tensor, that tensor is what the call right before it computed.
pub proof fn every_input_is_the_last_result(run: RunModel, reply: RunReply)
    requires
        run.wf(),
        run.expects(reply),
    ensures
        match run.next(reply).call() {
            RunCallView::Forward { server, mode, input } => reply is Computed && input
                == reply->tensor@,
            RunCallView::Logits { server, input } => reply is Computed && input == reply->tensor@,
            RunCallView::Sample { server, input } => reply is Computed && input == reply->tensor@,
            _ => true,
        },
{
}

/// With one server, a step that shows a token which does not end the text makes exactly five
/// calls: it shows the token, embeds that token alone, runs the embedding through the layers as
/// decode, makes logits of what came out, and samples from those. What was sampled is the next
/// token.
pub proof fn one_server_makes_five_calls(
    run: RunModel,
    done: RunReply,
    embedded: RunReply,
    hidden: RunReply,
    logits: RunReply,
    sampled: RunReply,
)
    requires
        run.wf(),
        run.servers == 1,
        run.call() is Show,
        run.call()->Show_token != run.tokens.eos,
    ensures
        ({
            let token = run.call()->Show_token;
            let shown = run.next(done);
            let fed = shown.next(embedded);
            let passed = fed.next(hidden);
            let weighed = passed.next(logits);
            let after = weighed.next(sampled);
            &&& run.call() == (RunCallView::Show { server: 0, token })
            &&& shown.call() == (RunCallView::EmbedToken { server: 0, token })
            &&& fed.call() == (RunCallView::Forward {
                server: 0,
                mode: PassMode::Decode,
                input: embedded->tensor@,
            })
            &&& passed.call() == (RunCallView::Logits { server: 0, input: hidden->tensor@ })
            &&& weighed.call() == (RunCallView::Sample { server: 0, input: logits->tensor@ })
            &&& after.tokens.next_id == sampled->token
            &&& after.call() == if run.tokens.shown + 1 < run.tokens.max_tokens {
                RunCallView::Show { server: 0, token: sampled->token }
            } else {
                RunCallView::Finish { token_count: (run.tokens.token_count + 1) as u32 }
            }
        }),
{
}

/// With two servers, a pass embeds on the first one, runs the embedding through its layers, what
/// came out of them through those of the second one in the same mode, makes logits of that on
/// the second one, and samples from those on the first.
pub proof fn two_servers_hand_over(
    run: RunModel,
    embedded: RunReply,
    first: RunReply,
    second: RunReply,
    logits: RunReply,
)
    requires
        run.wf(),
        run.servers == 2,
        run.step is Embed,
    ensures
        ({
            let mode = run.tokens.mode();
            let fed = run.next(embedded);
            let half = fed.next(first);
            let passed = half.next(second);
            let weighed = passed.next(logits);
            &&& run.call() == if mode is Prefill {
                RunCallView::EmbedPrompt { server: 0, tokens: run.prompt }
            } else {
                RunCallView::EmbedToken { server: 0, token: run.tokens.next_id }
            }
            &&& fed.call() == (RunCallView::Forward { server: 0, mode, input: embedded->tensor@ })
            &&& half.call() == (RunCallView::Forward { server: 1, mode, input: first->tensor@ })
            &&& passed.call() == (RunCallView::Logits { server: 1, input: second->tensor@ })
            &&& weighed.call() == (RunCallView::Sample { server: 0, input: logits->tensor@ })
        }),
{
}

/// Each server has its part: the first one tokenizes, embeds, samples and shows, the last one
/// makes logits, and every one of them resets and runs its layers.
pub proof fn every_call_goes_to_its_server(run: RunModel)
    requires
        run.wf(),
    ensures
        match run.call() {
            RunCallView::Reset { server } => server < run.servers,
            RunCallView::Tokenize { server, text } => server == 0,
            RunCallView::EmbedPrompt { server, tokens } => server == 0,
            RunCallView::EmbedToken { server, token } => server == 0,
            RunCallView::Forward { server, mode, input } => server < run.servers,
            RunCallView::Logits { server, input } => server == run.servers - 1,
            RunCallView::Sample { server, input } => server == 0,
            RunCallView::Show { server, token } => server == 0,
            RunCallView::Finish { token_count } => true,
        },
{
}

/// Every server is reset, in order, before the prompt is tokenized on the first one; the tokens
/// that come back are then embedded, all at once and as prefill.
pub proof fn every_server_is_reset(
    servers: usize,
    max_tokens: u32,
    text: Seq<char>,
    replies: Seq<RunReply>,
    server: int,
)
    requires
        servers > 0,
        replies.len() == servers + 1,
        0 <= server < servers,
    ensures
        ({
            let start = RunModel::start(servers, max_tokens, text);
            let embeds = after_replies(start, replies);
            &&& after_replies(start, replies.take(server)).call() == (RunCallView::Reset {
                server: server as usize,
            })
            &&& after_replies(start, replies.take(servers as int)).call()
                == (RunCallView::Tokenize { server: 0, text })
            &&& embeds.call() == (RunCallView::EmbedPrompt {
                server: 0,
                tokens: replies[servers as int]->tokens@,
            })
            &&& embeds.tokens.mode() is Prefill
        }),
{
    let start = RunModel::start(servers, max_tokens, text);
    reset_reaches(servers, max_tokens, text, replies, server);
    reset_reaches(servers, max_tokens, text, replies, servers - 1);
    after_one_more(start, replies, servers - 1);
    after_one_more(start, replies, servers as int);
    assert(replies.take(servers + 1) =~= replies);
}

proof fn reset_reaches(
    servers: usize,
    max_tokens: u32,
    text: Seq<char>,
    replies: Seq<RunReply>,
    server: int,
)
    requires
        0 <= server < servers,
        replies.len() > servers,
    ensures
        after_replies(RunModel::start(servers, max_tokens, text), replies.take(server)) == (RunModel {
            step: RunStep::Reset { server: server as usize },
            ..RunModel::start(servers, max_tokens, text)
        }),
    decreases server,
{
    let start = RunModel::start(servers, max_tokens, text);
    after_one_more(start, replies, 0);
    if server > 0 {
        reset_reaches(servers, max_tokens, text, replies, server - 1);
        after_one_more(start, replies, server - 1);
    }
}

/// The view of a call is the call itself, with what its texts, tokens and tensors hold.
pub proof fn run_calls_mean_what_they_say(call: RunCall<'_>)
    ensures
        match call {
            RunCall::Reset { server } => call@ == (RunCallView::Reset { server }),
            RunCall::Tokenize { server, text } => call@ is Tokenize && call@->Tokenize_server
                == server && call@->text == text@,
            RunCall::EmbedPrompt { server, tokens } => call@ is EmbedPrompt
                && call@->EmbedPrompt_server == server && call@->tokens == tokens@,
            RunCall::EmbedToken { server, token } => call@ == (RunCallView::EmbedToken {
                server,
                token,
            }),
            RunCall::Forward { server, mode, input } => call@ is Forward && call@->Forward_server
                == server && call@->mode == mode && call@->Forward_input.data == contents(
                input.data,
            ) && call@->Forward_input.shape == input.shape@,
            RunCall::Logits { server, input } => call@ is Logits && call@->Logits_server == server
                && call@->Logits_input.data == contents(input.data) && call@->Logits_input.shape
                == input.shape@,
            RunCall::Sample { server, input } => call@ is Sample && call@->Sample_server == server
                && call@->Sample_input.data == contents(input.data) && call@->Sample_input.shape
                == input.shape@,
            RunCall::Show { server, token } => call@ == (RunCallView::Show { server, token }),
            RunCall::Finish { token_count } => call@ == (RunCallView::Finish { token_count }),
        },
        PassMode::Prefill.spec_name() == "prefill"@,
        PassMode::Decode.spec_name() == "decode"@,
{
}

/// Each call is answered by its own kind of reply, whatever that holds, and by no other.
pub proof fn run_expects_every_answer(run: RunModel, reply: RunReply)
    requires
        run.wf(),
    ensures
        run.expects(reply) <==> match run.call() {
            RunCallView::Reset { server } => reply is Done,
            RunCallView::Tokenize { server, text } => reply is Tokenized,
            RunCallView::EmbedPrompt { server, tokens } => reply is Computed,
            RunCallView::EmbedToken { server, token } => reply is Computed,
            RunCallView::Forward { server, mode, input } => reply is Computed,
            RunCallView::Logits { server, input } => reply is Computed,
            RunCallView::Sample { server, input } => reply is Sampled,
            RunCallView::Show { server, token } => reply is Done,
            RunCallView::Finish { token_count } => false,
        },
{
}

/// The sample of the pass `p` of a run over `n` servers, among its replies: each pass takes one
/// reply for the embedding, `n` for the layers, and one each for the logits, the sample and the
/// token that is shown.
spec fn sample_of_pass(n: int, replies: Seq<RunReply>, p: int) -> u32 {
    replies[n + 1 + p * (n + 4) + n + 2]->token
}

/// The state of a run after `o` replies of its pass `p`.
spec fn state_in_pass(
    servers: usize,
    max_tokens: u32,
    text: Seq<char>,
    replies: Seq<RunReply>,
    p: int,
    o: int,
) -> bool {
    let n = servers as int;
    let m = run_trace(servers, max_tokens, text, replies).run;
    let last = sample_of_pass(n, replies, p - 1);
    let eos = replies[n]->eos;
    &&& m.wf()
    &&& m.servers == servers
    &&& m.text == text
    &&& m.prompt == replies[n]->tokens@
    &&& m.tokens.eos == eos
    &&& m.tokens.max_tokens == max_tokens
    &&& o > 0 ==> p == 0 || last != eos
    &&& 0 < o <= n + 2 ==> m.tensor == replies.last()->tensor@
    &&& o <= n + 2 && p == 0 ==> m.tokens.phase is Prefill && m.tokens.shown == 0
    &&& o <= n + 2 && p > 0 ==> m.tokens.next_id == last && m.tokens.shown == p
        && m.tokens.token_count == p - 1
    &&& o == 0 && p > 0 ==> (if last == eos {
        m.tokens.phase is Finished && m.step is Token
    } else {
        m.tokens.phase is Decode && m.step is Embed
    })
    &&& o == 0 && p == 0 ==> m.step is Embed
    &&& 0 < o <= n + 2 && p > 0 ==> m.tokens.phase is Decode
    &&& 0 < o <= n ==> m.step == (RunStep::Forward { server: (o - 1) as usize })
    &&& o == n + 1 ==> m.step is Logits
    &&& o == n + 2 ==> m.step is Sample
    &&& o == n + 3 ==> {
        &&& m.step is Token
        &&& m.tokens.next_id == sample_of_pass(n, replies, p)
        &&& m.tokens.shown == p
        &&& m.tokens.token_count == p
        &&& m.tokens.phase == if p < max_tokens {
            TokenPhase::Show
        } else {
            TokenPhase::Finished
        }
    }
}

proof fn run_is_in_its_pass(
    servers: usize,
    max_tokens: u32,
    text: Seq<char>,
    replies: Seq<RunReply>,
    p: int,
    o: int,
)
    requires
        servers > 0,
        run_is_valid(servers, max_tokens, text, replies),
        0 <= p,
        0 <= o < servers + 4,
        replies.len() == servers + 1 + p * (servers + 4) + o,
    ensures
        state_in_pass(servers, max_tokens, text, replies, p, o),
    decreases replies.len(),
{
    let n = servers as int;
    let w = n + 4;
    let before = replies.drop_last();
    let m = run_trace(servers, max_tokens, text, before).run;
    assert(p > 0 ==> p * w == (p - 1) * w + w) by (nonlinear_arith);
    assert(p == 0 ==> p * w == 0) by (nonlinear_arith);
    assert(p > 0 ==> (p - 1) * w >= 0) by (nonlinear_arith)
        requires
            w > 0,
    ;
    if o > 0 {
        run_is_in_its_pass(servers, max_tokens, text, before, p, o - 1);
        assert(before[n] == replies[n]);
        if p > 0 {
            assert(sample_of_pass(n, before, p - 1) == sample_of_pass(n, replies, p - 1));
        }
        if o == n + 3 {
            assert(sample_of_pass(n, replies, p) == replies.last()->token);
        }
    } else if p > 0 {
        run_is_in_its_pass(servers, max_tokens, text, before, p - 1, n + 3);
        assert(before[n] == replies[n]);
        assert(sample_of_pass(n, before, p - 1) == sample_of_pass(n, replies, p - 1));
    } else {
        run_is_at_its_start(servers, max_tokens, text, before);
        assert(replies.last() == replies[n]);
    }
}

proof fn run_is_at_its_start(
    servers: usize,
    max_tokens: u32,
    text: Seq<char>,
    replies: Seq<RunReply>,
)
    requires
        servers > 0,
        run_is_valid(servers, max_tokens, text, replies),
        replies.len() <= servers,
    ensures
        run_trace(servers, max_tokens, text, replies).run == (RunModel {
            step: if replies.len() < servers {
                RunStep::Reset { server: replies.len() as usize }
            } else {
                RunStep::Tokenize
            },
            ..RunModel::start(servers, max_tokens, text)
        }),
    decreases replies.len(),
{
    if replies.len() > 0 {
        run_is_at_its_start(servers, max_tokens, text, replies.drop_last());
    }
}

/// What a run asks for before its first pass: each server is reset in turn, then the first one is
/// asked for the tokens of the prompt.
pub proof fn run_begins(
    servers: usize,
    max_tokens: u32,
    text: Seq<char>,
    replies: Seq<RunReply>,
)
    requires
        servers > 0,
        run_is_valid(servers, max_tokens, text, replies),
        replies.len() <= servers,
    ensures
        ({
            let call = run_trace(servers, max_tokens, text, replies).run.call();
            if replies.len() < servers {
                call == (RunCallView::Reset { server: replies.len() as usize })
            } else {
                call == (RunCallView::Tokenize { server: 0, text })
            }
        }),
{
    run_is_at_its_start(servers, max_tokens, text, replies);
}

/// What a run asks for in its pass `p` after `o` replies, from the replies alone. The first pass
/// embeds the tokens that the prompt was answered with, all of them, and each later one the
/// token that the pass before was answered with; the result goes through every server in order,
/// is made into logits and is sampled from; and the sample is shown. A sample that is the token
/// named as the end of a text, in the answer to the prompt, is the last that is shown, and no more
/// than `max_tokens` are.
pub proof fn run_follows_its_replies(
    servers: usize,
    max_tokens: u32,
    text: Seq<char>,
    replies: Seq<RunReply>,
    p: int,
    o: int,
)
    requires
        servers > 0,
        run_is_valid(servers, max_tokens, text, replies),
        0 <= p,
        0 <= o < servers + 4,
        replies.len() == servers + 1 + p * (servers + 4) + o,
    ensures
        ({
            let n = servers as int;
            let call = run_trace(servers, max_tokens, text, replies).run.call();
            let eos = replies[n]->eos;
            let before = replies[n + 1 + (p - 1) * (n + 4) + n + 2]->token;
            let mode = if p == 0 {
                PassMode::Prefill
            } else {
                PassMode::Decode
            };
            &&& replies[n] is Tokenized
            &&& o == 0 && p == 0 ==> call is EmbedPrompt && call->EmbedPrompt_server == 0
                && call->tokens == replies[n]->tokens@
            &&& o == 0 && p > 0 && before == eos ==> call == (RunCallView::Finish {
                token_count: (p - 1) as u32,
            })
            &&& o == 0 && p > 0 && before != eos ==> call == (RunCallView::EmbedToken {
                server: 0,
                token: before,
            })
            &&& 0 < o <= n ==> call is Forward && call->Forward_server == o - 1 && call->mode
                == mode && call->Forward_input.data == contents(replies.last()->tensor.data)
                && call->Forward_input.shape == replies.last()->tensor.shape@
            &&& o == n + 1 ==> call is Logits && call->Logits_server == n - 1
                && call->Logits_input.data == contents(replies.last()->tensor.data)
                && call->Logits_input.shape == replies.last()->tensor.shape@
            &&& o == n + 2 ==> call is Sample && call->Sample_server == 0
                && call->Sample_input.data == contents(replies.last()->tensor.data)
                && call->Sample_input.shape == replies.last()->tensor.shape@
            &&& o == n + 3 && p < max_tokens ==> call == (RunCallView::Show {
                server: 0,
                token: replies.last()->token,
            })
            &&& o == n + 3 && p >= max_tokens ==> call == (RunCallView::Finish {
                token_count: p as u32,
            })
        }),
{
    run_is_in_its_pass(servers, max_tokens, text, replies, p, o);
    tokenized_reply_is_there(servers, max_tokens, text, replies);
    let w = servers + 4;
    assert(p * w >= 0) by (nonlinear_arith)
        requires
            p >= 0,
            w > 0,
    ;
    assert(p > 0 ==> p * w == (p - 1) * w + w) by (nonlinear_arith);
}

proof fn tokenized_reply_is_there(
    servers: usize,
    max_tokens: u32,
    text: Seq<char>,
    replies: Seq<RunReply>,
)
    requires
        servers > 0,
        run_is_valid(servers, max_tokens, text, replies),
        replies.len() > servers,
    ensures
        replies[servers as int] is Tokenized,
        run_trace(servers, max_tokens, text, replies).run.prompt
            == replies[servers as int]->tokens@,
        run_trace(servers, max_tokens, text, replies).run.tokens.eos
            == replies[servers as int]->eos,
        !(run_trace(servers, max_tokens, text, replies).run.step is Reset),
        !(run_trace(servers, max_tokens, text, replies).run.step is Tokenize),
    decreases replies.len(),
{
    if replies.len() == servers + 1 {
        run_is_at_its_start(servers, max_tokens, text, replies.drop_last());
        assert(replies.last() == replies[servers as int]);
    } else {
        tokenized_reply_is_there(servers, max_tokens, text, replies.drop_last());
    }
}

/// Once the prompt is answered, a run goes by that answer to its end: a run that has finished
/// showed its samples up to the first that is the token which the answer names as the end of a
/// text, or up to `max_tokens`, and, where each sample is the model's first choice, the greedy
/// text behind the tokens of the answer.
pub proof fn run_stops_by_the_answer(
    choice: spec_fn(Seq<u32>) -> u32,
    servers: usize,
    max_tokens: u32,
    text: Seq<char>,
    replies: Seq<RunReply>,
)
    requires
        servers > 0,
        run_is_valid(servers, max_tokens, text, replies),
        run_trace(servers, max_tokens, text, replies).run.call() is Finish,
    ensures
        ({
            let t = run_trace(servers, max_tokens, text, replies);
            let answer = replies[servers as int];
            &&& replies.len() > servers
            &&& answer is Tokenized
            &&& stops_right(t.shown, t.sampled, answer->eos, max_tokens as nat)
            &&& t.shown.len() == shown_count(t.sampled, answer->eos, max_tokens as nat)
            &&& t.run.call()->token_count == decode_count(
                t.sampled,
                answer->eos,
                max_tokens as nat,
            )
            &&& samples_are_greedy(choice, servers, max_tokens, text, replies) ==> t.shown
                == greedy_text(choice, answer->tokens@, answer->eos, max_tokens as nat)
        }),
{
    if replies.len() <= servers {
        run_is_at_its_start(servers, max_tokens, text, replies);
    }
    tokenized_reply_is_there(servers, max_tokens, text, replies);
    run_shows_its_samples(servers, max_tokens, text, replies);
    if samples_are_greedy(choice, servers, max_tokens, text, replies) {
        greedy_run_shows_greedy_text(choice, servers, max_tokens, text, replies);
    }
}

} // verus!
