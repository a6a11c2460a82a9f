use bytes::Bytes;
use tributary::coordinator::{Coordinator, CoordinatorCall, CoordinatorReply};
use tributary::generation::{PassMode, RunCall, RunLoop, RunReply};
use tributary::mlx_client::{Info, Tensor};
use tributary::protocol::{read_frame, write_frame, Frame, MsgType};
use tributary::speculative::{
    accept_round, count_agreement, failure_message, SpecCall, SpecLoop, SpecReply, MAX_ELAPSED_US,
};
use tributary::worker::{info_reply, logits_reply, Worker, WorkerCall, WorkerReply};

const EOS: u32 = 0;

/// A model: its first choice depends on all tokens so far.
fn choice(context: &[u32]) -> u32 {
    let mut h: u64 = 7;
    for &t in context {
        h = (h * 31 + t as u64 + 1) % 1009;
    }
    (h % 13) as u32
}

fn greedy(prompt: &[u32], max_tokens: u32) -> Vec<u32> {
    let mut context = prompt.to_vec();
    let mut shown = Vec::new();
    while (shown.len() as u32) < max_tokens {
        let token = choice(&context);
        shown.push(token);
        context.push(token);
        if token == EOS {
            break;
        }
    }
    shown
}

fn pack(tokens: &[u32]) -> Tensor {
    let mut data: Vec<u8> = Vec::new();
    for t in tokens {
        data.extend_from_slice(&t.to_be_bytes());
    }
    Tensor { data: Bytes::from(data), shape: format!("1,{},4", tokens.len()) }
}

fn unpack(data: &Bytes) -> Vec<u32> {
    data.chunks(4).map(|c| u32::from_be_bytes([c[0], c[1], c[2], c[3]])).collect()
}

fn run(servers: usize, prompt: &[u32], max_tokens: u32) -> (Vec<u32>, u32) {
    let mut run = RunLoop::new(servers, max_tokens, "the prompt".to_string());
    let mut caches: Vec<Vec<u32>> = vec![vec![99]; servers];
    let mut shown = Vec::new();
    loop {
        let reply = match run.call() {
            RunCall::Reset { server } => {
                caches[server].clear();
                RunReply::Done
            }
            RunCall::Tokenize { server, text } => {
                assert_eq!((server, text), (0, "the prompt"));
                RunReply::Tokenized { tokens: prompt.to_vec(), eos: EOS }
            }
            RunCall::EmbedPrompt { tokens, .. } => RunReply::Computed { tensor: pack(tokens) },
            RunCall::EmbedToken { token, .. } => RunReply::Computed { tensor: pack(&[token]) },
            RunCall::Forward { server, input, .. } => {
                let tokens: Vec<u32> = unpack(&input.data).iter().map(|t| t - 1000 * server as u32).collect();
                caches[server].extend_from_slice(&tokens);
                let out: Vec<u32> = tokens.iter().map(|t| t + 1000 * (server as u32 + 1)).collect();
                RunReply::Computed { tensor: pack(&out) }
            }
            RunCall::Logits { server, input } => {
                assert_eq!(server, servers - 1);
                assert!(unpack(&input.data).iter().all(|t| *t >= 1000 * servers as u32));
                RunReply::Computed { tensor: pack(&[choice(&caches[server])]) }
            }
            RunCall::Sample { server, input } => {
                assert_eq!(server, 0);
                RunReply::Sampled { token: unpack(&input.data)[0] }
            }
            RunCall::Show { token, .. } => {
                shown.push(token);
                RunReply::Done
            }
            RunCall::Finish { token_count } => return (shown, token_count),
        };
        assert!(run.expects(&reply));
        run.advance(reply);
    }
}

struct SpecOutcome {
    shown: Vec<u32>,
    rounds: u64,
    accepted: u64,
    trims: Vec<u32>,
}

/// Speculates with a draft that is right except at every `flaw`-th proposal.
fn speculate(k: u32, flaw: usize, prompt: &[u32], max_tokens: u32) -> SpecOutcome {
    let mut spec = SpecLoop::new(k, max_tokens, "the prompt".to_string());
    let mut target: Vec<u32> = vec![99];
    let mut draft: Vec<u32> = vec![98];
    let mut shown: Vec<u32> = Vec::new();
    let mut trims = Vec::new();
    let mut proposals: usize = 0;
    loop {
        let reply = match spec.call() {
            SpecCall::ResetTarget => {
                target.clear();
                SpecReply::Done
            }
            SpecCall::ResetDraft => {
                draft.clear();
                SpecReply::Done
            }
            SpecCall::Tokenize { text } => {
                assert_eq!(text, "the prompt");
                SpecReply::Tokenized { tokens: prompt.to_vec(), eos: EOS }
            }
            SpecCall::EmbedPromptTarget { tokens } | SpecCall::EmbedPromptDraft { tokens } => {
                SpecReply::Computed { tensor: pack(tokens) }
            }
            SpecCall::EmbedRound { round } => SpecReply::Computed { tensor: pack(&round) },
            SpecCall::ForwardPromptTarget { input } => {
                target.extend_from_slice(&unpack(&input.data));
                SpecReply::Computed { tensor: pack(&target) }
            }
            SpecCall::ForwardPromptDraft { input } => {
                draft.extend_from_slice(&unpack(&input.data));
                SpecReply::Computed { tensor: pack(&[12345]) }
            }
            SpecCall::ArgmaxPrompt { input } => {
                let hidden = unpack(&input.data);
                SpecReply::PromptChoices {
                    tokens: (1..=prompt.len()).map(|n| choice(&hidden[..n])).collect(),
                }
            }
            SpecCall::Show { token } => {
                shown.push(token);
                SpecReply::Done
            }
            SpecCall::Draft { token, count } => {
                assert_eq!(count, k);
                assert_eq!(draft, target);
                let mut context = prompt.to_vec();
                context.extend_from_slice(&shown[..shown.len() - 1]);
                assert_eq!(draft, context);
                draft.push(token);
                let mut tokens = Vec::new();
                for _ in 0..count {
                    proposals += 1;
                    let right = choice(&draft);
                    let token = if proposals % flaw == 0 { right + 1 } else { right };
                    tokens.push(token);
                    draft.push(token);
                }
                SpecReply::Drafted { tokens, elapsed_us: 10 }
            }
            SpecCall::ForwardRound { input } => {
                target.extend_from_slice(&unpack(&input.data));
                SpecReply::Computed { tensor: pack(&target) }
            }
            SpecCall::ArgmaxRound { input } => {
                let hidden = unpack(&input.data);
                let first = hidden.len() - spec.round_ids().len();
                SpecReply::RoundChoices {
                    tokens: (first + 1..=hidden.len()).map(|n| choice(&hidden[..n])).collect(),
                    elapsed_us: 30,
                }
            }
            SpecCall::TrimTarget { count } => {
                trims.push(count);
                target.truncate(target.len() - count as usize);
                SpecReply::Done
            }
            SpecCall::TrimDraft { count } => {
                assert_eq!(trims.last(), Some(&count));
                draft.truncate(draft.len() - count as usize);
                SpecReply::Done
            }
            SpecCall::Finish => {
                let report = spec.report();
                assert_eq!(report.token_count as usize, shown.len());
                assert_eq!(report.gen_tokens as usize, shown.len() - 1);
                if report.rounds > 0 {
                    assert_eq!((report.mean_draft_us, report.mean_verify_us), (10, 30));
                } else {
                    assert_eq!((report.mean_draft_us, report.mean_verify_us), (0, 0));
                }
                return SpecOutcome { shown, rounds: report.rounds, accepted: report.accepted_sum, trims };
            }
            SpecCall::Fail => panic!("the prompt was empty"),
        };
        assert!(spec.expects(&reply));
        spec.advance(reply);
    }
}

/// A worker with its server: takes bytes, gives the bytes of its answers.
struct WorkerSide {
    worker: Worker,
    cache: Vec<u32>,
    info: Info,
    resets: u32,
}

impl WorkerSide {
    fn serve(&mut self, sent: &[u8]) -> Vec<u8> {
        let (frame, used) = read_frame(sent).unwrap();
        assert_eq!(used, sent.len());
        let mut answer = Vec::new();
        assert_eq!(self.worker.call(), WorkerCall::AwaitFrame);
        self.step(WorkerReply::Received { frame });
        loop {
            let reply = match self.worker.call() {
                WorkerCall::AwaitFrame => return answer,
                WorkerCall::FetchInfo => WorkerReply::LocalInfo { info: self.info },
                WorkerCall::SendInfo { seq, info } => {
                    answer = write_frame(&info_reply(seq, &info));
                    WorkerReply::Done
                }
                WorkerCall::Reset => {
                    self.resets += 1;
                    self.cache.clear();
                    WorkerReply::Done
                }
                WorkerCall::Forward { mode, input } => {
                    let tokens = unpack(&input.data);
                    assert_eq!(input.shape, format!("1,{},4", tokens.len()));
                    assert_eq!(mode == PassMode::Prefill, self.cache.is_empty());
                    self.cache.extend_from_slice(&tokens);
                    WorkerReply::Computed { tensor: pack(&self.cache) }
                }
                WorkerCall::Logits { input } => {
                    let logits = pack(&[choice(&unpack(&input.data))]);
                    WorkerReply::MadeLogits { logits, compute_us: 1234 }
                }
                WorkerCall::SendLogits { seq, logits, compute_us } => {
                    answer = write_frame(&logits_reply(seq, logits, compute_us));
                    WorkerReply::Done
                }
                WorkerCall::Accept | WorkerCall::Fail => panic!("not while a coordinator is served"),
            };
            self.step(reply);
        }
    }

    fn step(&mut self, reply: WorkerReply) {
        assert!(self.worker.expects(&reply));
        self.worker.advance(reply);
    }
}

fn session(prompt: &[u32], max_tokens: u32) -> (Vec<u32>, u32, Vec<(MsgType, u32)>) {
    let mut side = WorkerSide {
        worker: Worker::new(),
        cache: vec![99],
        info: Info { start_layer: 14, end_layer: 28, num_layers: 28, is_first: false },
        resets: 0,
    };
    assert_eq!(side.worker.call(), WorkerCall::Accept);
    side.step(WorkerReply::Done);
    let mut c = Coordinator::new(max_tokens, "the prompt".to_string());
    let mut answer: Vec<u8> = Vec::new();
    let mut shown = Vec::new();
    let mut sent = Vec::new();
    loop {
        let reply = match c.call() {
            CoordinatorCall::LocalInfo => CoordinatorReply::LocalInfo {
                info: Info { start_layer: 0, end_layer: 14, num_layers: 28, is_first: true },
            },
            CoordinatorCall::SendControl { msg_type, seq } => {
                sent.push((msg_type, seq));
                answer = side.serve(&write_frame(&Frame::control(msg_type, seq)));
                CoordinatorReply::Done
            }
            CoordinatorCall::AwaitInfo => {
                CoordinatorReply::Received { frame: read_frame(&answer).unwrap().0 }
            }
            CoordinatorCall::ResetLocal { split } => {
                assert_eq!(split.message(), "split OK: coordinator 0..14 + worker 14..28 = 28 layers");
                CoordinatorReply::Done
            }
            CoordinatorCall::Tokenize { text } => {
                assert_eq!(text, "the prompt");
                CoordinatorReply::Tokenized { tokens: prompt.to_vec(), eos: EOS }
            }
            CoordinatorCall::EmbedPrompt { tokens } => CoordinatorReply::Computed { tensor: pack(tokens) },
            CoordinatorCall::EmbedToken { token } => CoordinatorReply::Computed { tensor: pack(&[token]) },
            CoordinatorCall::Forward { input, .. } => {
                CoordinatorReply::Computed { tensor: pack(&unpack(&input.data)) }
            }
            CoordinatorCall::SendHidden { msg_type, seq, input } => {
                sent.push((msg_type, seq));
                answer = side.serve(&write_frame(&Frame::from_tensor(msg_type, seq, input)));
                CoordinatorReply::Done
            }
            CoordinatorCall::AwaitLogits => {
                let frame = read_frame(&answer).unwrap().0;
                assert_eq!(frame.worker_compute_us, 1234);
                CoordinatorReply::Received { frame }
            }
            CoordinatorCall::Sample { input } => {
                assert_eq!(input.shape, "1,1,4");
                CoordinatorReply::Sampled { token: unpack(&input.data)[0] }
            }
            CoordinatorCall::Show { token } => {
                shown.push(token);
                CoordinatorReply::Done
            }
            CoordinatorCall::Finish { token_count } => {
                assert_eq!(side.resets, 1);
                return (shown, token_count, sent);
            }
            CoordinatorCall::FailSplit { .. } | CoordinatorCall::FailReply { .. } => panic!("a fault"),
        };
        assert!(c.expects(&reply));
        c.advance(reply);
    }
}

const PROMPTS: [&[u32]; 4] = [&[1], &[5, 6, 7], &[12, 12, 3, 4, 900], &[42, 17]];

#[test]
fn one_server_and_two_show_the_greedy_text() {
    for prompt in PROMPTS {
        for max_tokens in [0, 1, 2, 7, 50] {
            let expected = greedy(prompt, max_tokens);
            let (shown, count) = run(1, prompt, max_tokens);
            assert_eq!(shown, expected);
            let ended = shown.last() == Some(&EOS);
            assert_eq!(count as usize, if ended { shown.len() - 1 } else { shown.len() });
            assert_eq!(run(2, prompt, max_tokens), (shown, count));
        }
    }
}

#[test]
fn speculation_shows_the_greedy_text() {
    for prompt in PROMPTS {
        for max_tokens in [1, 2, 7, 50] {
            let expected = greedy(prompt, max_tokens);
            for k in [1, 2, 4, 6] {
                for flaw in [1, 2, 3, 1000] {
                    let outcome = speculate(k, flaw, prompt, max_tokens);
                    assert_eq!(outcome.shown, expected);
                    assert!(outcome.accepted <= outcome.rounds * k as u64);
                    assert_eq!(outcome.trims.len() as u64, outcome.rounds);
                }
            }
        }
    }
}

#[test]
fn rejected_proposals_are_rolled_back() {
    let none = speculate(3, 1, &[5, 6, 7], 4);
    assert_eq!(none.accepted, 0);
    assert!(none.trims.iter().all(|&n| n == 3));
    let all = speculate(3, 1000, &[5, 6, 7], 4);
    assert!(all.trims.iter().all(|&n| n == 0));
    let some = speculate(3, 2, &[5, 6, 7], 4);
    assert_eq!(some.trims[0], 2);
}

#[test]
fn speculation_shows_one_token_where_none_may_be_shown() {
    let outcome = speculate(2, 1000, &[1], 0);
    assert_eq!(outcome.shown, greedy(&[1], 1));
    assert_eq!(outcome.rounds, 0);
    assert_eq!(run(1, &[1], 0), (vec![], 0));
}

#[test]
fn two_machines_show_the_greedy_text() {
    for prompt in PROMPTS {
        for max_tokens in [0, 1, 2, 7, 50] {
            let (shown, count, sent) = session(prompt, max_tokens);
            assert_eq!((shown, count), run(1, prompt, max_tokens));
            assert_eq!(sent[0], (MsgType::Info, 0));
            assert_eq!(sent[1], (MsgType::ResetCache, 1));
            assert_eq!(sent[2], (MsgType::Prefill, 2));
            for (i, frame) in sent.iter().enumerate().skip(3) {
                assert_eq!(*frame, (MsgType::DecodeStep, i as u32));
            }
            assert_eq!(sent.len() as u32, 3 + count);
        }
    }
}

#[test]
fn a_pass_goes_through_the_servers_in_order() {
    let mut run = RunLoop::new(2, 5, "hi".to_string());
    assert_eq!(run.call(), RunCall::Reset { server: 0 });
    run.advance(RunReply::Done);
    assert_eq!(run.call(), RunCall::Reset { server: 1 });
    run.advance(RunReply::Done);
    assert_eq!(run.call(), RunCall::Tokenize { server: 0, text: "hi" });
    run.advance(RunReply::Tokenized { tokens: vec![7, 8], eos: 9 });
    assert_eq!(run.call(), RunCall::EmbedPrompt { server: 0, tokens: &[7, 8] });
    run.advance(RunReply::Computed { tensor: pack(&[1]) });
    assert_eq!(run.call(), RunCall::Forward { server: 0, mode: PassMode::Prefill, input: &pack(&[1]) });
    run.advance(RunReply::Computed { tensor: pack(&[2]) });
    assert_eq!(run.call(), RunCall::Forward { server: 1, mode: PassMode::Prefill, input: &pack(&[2]) });
    run.advance(RunReply::Computed { tensor: pack(&[3]) });
    assert_eq!(run.call(), RunCall::Logits { server: 1, input: &pack(&[3]) });
    run.advance(RunReply::Computed { tensor: pack(&[4]) });
    assert_eq!(run.call(), RunCall::Sample { server: 0, input: &pack(&[4]) });
    run.advance(RunReply::Sampled { token: 4 });
    assert_eq!(run.call(), RunCall::Show { server: 0, token: 4 });
    run.advance(RunReply::Done);
    assert_eq!(run.call(), RunCall::EmbedToken { server: 0, token: 4 });
    assert_eq!((PassMode::Prefill.name(), PassMode::Decode.name()), ("prefill", "decode"));
}

#[test]
fn a_step_on_one_server_makes_five_calls() {
    let mut run = RunLoop::new(1, 5, "hi".to_string());
    run.advance(RunReply::Done);
    run.advance(RunReply::Tokenized { tokens: vec![7], eos: 9 });
    for n in 0..3 {
        run.advance(RunReply::Computed { tensor: pack(&[n]) });
    }
    run.advance(RunReply::Sampled { token: 4 });
    assert_eq!(run.call(), RunCall::Show { server: 0, token: 4 });
    run.advance(RunReply::Done);
    assert_eq!(run.call(), RunCall::EmbedToken { server: 0, token: 4 });
    run.advance(RunReply::Computed { tensor: pack(&[11]) });
    assert_eq!(run.call(), RunCall::Forward { server: 0, mode: PassMode::Decode, input: &pack(&[11]) });
    run.advance(RunReply::Computed { tensor: pack(&[12]) });
    assert_eq!(run.call(), RunCall::Logits { server: 0, input: &pack(&[12]) });
    run.advance(RunReply::Computed { tensor: pack(&[13]) });
    assert_eq!(run.call(), RunCall::Sample { server: 0, input: &pack(&[13]) });
    run.advance(RunReply::Sampled { token: 6 });
    assert_eq!(run.call(), RunCall::Show { server: 0, token: 6 });
}

#[test]
fn replies_that_answer_something_else_are_not_expected() {
    let mut run = RunLoop::new(1, 5, String::new());
    assert!(!run.expects(&RunReply::Sampled { token: 1 }));
    run.advance(RunReply::Done);
    assert!(!run.expects(&RunReply::Done));

    let spec = SpecLoop::new(2, 5, String::new());
    assert!(spec.expects(&SpecReply::Done));
    assert!(!spec.expects(&SpecReply::Tokenized { tokens: vec![], eos: 1 }));

    let c = Coordinator::new(5, String::new());
    assert!(!c.expects(&CoordinatorReply::Done));
}

fn spec_at_prompt_choices(k: u32) -> SpecLoop {
    let mut spec = SpecLoop::new(k, 10, String::new());
    spec.advance(SpecReply::Done);
    spec.advance(SpecReply::Done);
    spec.advance(SpecReply::Tokenized { tokens: vec![1, 2], eos: EOS });
    assert_eq!(spec.call(), SpecCall::EmbedPromptTarget { tokens: &[1, 2] });
    for n in 0..4 {
        spec.advance(SpecReply::Computed { tensor: pack(&[n]) });
    }
    assert_eq!(spec.call(), SpecCall::ArgmaxPrompt { input: &pack(&[1]) });
    spec
}

#[test]
fn a_target_without_choices_is_an_error() {
    let mut spec = spec_at_prompt_choices(2);
    spec.advance(SpecReply::PromptChoices { tokens: vec![] });
    assert_eq!(spec.call(), SpecCall::Fail);
    assert_eq!(failure_message(), "empty prefill argmax");
    assert!(!spec.expects(&SpecReply::Done));
}

#[test]
fn replies_that_are_too_short_are_not_expected() {
    let mut spec = spec_at_prompt_choices(2);
    spec.advance(SpecReply::PromptChoices { tokens: vec![8, 3] });
    assert_eq!(spec.call(), SpecCall::Show { token: 3 });
    spec.advance(SpecReply::Done);
    assert_eq!(spec.call(), SpecCall::Draft { token: 3, count: 2 });
    assert!(!spec.expects(&SpecReply::Drafted { tokens: vec![], elapsed_us: MAX_ELAPSED_US + 1 }));
    spec.advance(SpecReply::Drafted { tokens: vec![5, 6], elapsed_us: MAX_ELAPSED_US });
    assert_eq!(spec.call(), SpecCall::EmbedRound { round: vec![3, 5, 6] });
    spec.advance(SpecReply::Computed { tensor: pack(&[21]) });
    assert_eq!(spec.call(), SpecCall::ForwardRound { input: &pack(&[21]) });
    spec.advance(SpecReply::Computed { tensor: pack(&[22]) });
    assert_eq!(spec.call(), SpecCall::ArgmaxRound { input: &pack(&[22]) });
    assert!(!spec.expects(&SpecReply::RoundChoices { tokens: vec![5, 6], elapsed_us: 0 }));
    assert!(spec.expects(&SpecReply::RoundChoices { tokens: vec![5, 7], elapsed_us: 0 }));
    assert!(spec.expects(&SpecReply::RoundChoices { tokens: vec![5, 6, 1], elapsed_us: 0 }));
}

#[test]
fn a_round_yields_the_targets_choices() {
    assert_eq!(count_agreement(&vec![5, 6], &vec![5, 6, 7], 2), Some(2));
    assert_eq!(accept_round(&vec![5, 6], &vec![5, 6, 7], 2), vec![5, 6, 7]);
    assert_eq!(accept_round(&vec![5, 6], &vec![5, 9, 7], 2), vec![5, 9]);
    assert_eq!(accept_round(&vec![5, 6], &vec![4, 6, 7], 2), vec![4]);
    assert_eq!(accept_round(&vec![], &vec![4], 0), vec![4]);
    assert_eq!(count_agreement(&vec![5], &vec![5, 6], 2), None);
    assert_eq!(count_agreement(&vec![5, 6], &vec![5], 2), None);
    assert_eq!(count_agreement(&vec![5, 6], &vec![], 2), None);
    assert_eq!(count_agreement(&vec![5, 6, 7], &vec![5, 6, 7], 2), Some(2));
}

#[test]
fn the_worker_resets_between_connections() {
    let mut worker = Worker::new();
    worker.advance(WorkerReply::Done);
    worker.advance(WorkerReply::Closed);
    assert_eq!(worker.call(), WorkerCall::Reset);
    worker.advance(WorkerReply::Done);
    assert_eq!(worker.call(), WorkerCall::Accept);
}

/// Speculates with a target that chooses as `next` says, not as a function of its cache.
fn speculate_freely(k: u32, max_tokens: u32, next: &mut dyn FnMut() -> u32) -> (Vec<u32>, Vec<u32>) {
    let mut spec = SpecLoop::new(k, max_tokens, String::new());
    let prompt: Vec<u32> = vec![41, 42];
    let mut target: Vec<u32> = Vec::new();
    let mut draft: Vec<u32> = Vec::new();
    let mut proposal: Vec<u32> = Vec::new();
    let mut chosen: Vec<u32> = Vec::new();
    let mut shown: Vec<u32> = Vec::new();
    loop {
        if let SpecCall::Draft { .. } | SpecCall::Show { .. } | SpecCall::Finish = spec.call() {
            let mut settled = prompt.clone();
            settled.extend_from_slice(&chosen[..chosen.len() - 1]);
            assert_eq!(target, settled);
            assert_eq!(draft, settled);
        }
        let reply = match spec.call() {
            SpecCall::ResetTarget | SpecCall::ResetDraft => SpecReply::Done,
            SpecCall::Tokenize { .. } => SpecReply::Tokenized { tokens: prompt.clone(), eos: EOS },
            SpecCall::EmbedPromptTarget { tokens } | SpecCall::EmbedPromptDraft { tokens } => {
                SpecReply::Computed { tensor: pack(tokens) }
            }
            SpecCall::ForwardPromptTarget { input } | SpecCall::ForwardRound { input } => {
                target.extend_from_slice(&unpack(&input.data));
                SpecReply::Computed { tensor: pack(&[]) }
            }
            SpecCall::ForwardPromptDraft { input } => {
                draft.extend_from_slice(&unpack(&input.data));
                SpecReply::Computed { tensor: pack(&[]) }
            }
            SpecCall::ArgmaxPrompt { .. } => {
                chosen.push(next());
                SpecReply::PromptChoices { tokens: vec![chosen[0]] }
            }
            SpecCall::Show { token } => {
                shown.push(token);
                SpecReply::Done
            }
            SpecCall::Draft { token, count } => {
                proposal = (0..count).map(|_| next()).collect();
                draft.push(token);
                draft.extend_from_slice(&proposal);
                SpecReply::Drafted { tokens: proposal.clone(), elapsed_us: 0 }
            }
            SpecCall::EmbedRound { round } => SpecReply::Computed { tensor: pack(&round) },
            SpecCall::ArgmaxRound { .. } => {
                let tokens: Vec<u32> = (0..=k).map(|_| next()).collect();
                chosen.extend_from_slice(&accept_round(&proposal, &tokens, k));
                SpecReply::RoundChoices { tokens, elapsed_us: 0 }
            }
            SpecCall::TrimTarget { count } => {
                target.truncate(target.len() - count as usize);
                SpecReply::Done
            }
            SpecCall::TrimDraft { count } => {
                draft.truncate(draft.len() - count as usize);
                SpecReply::Done
            }
            SpecCall::Finish => {
                let report = spec.report();
                assert_eq!(report.token_count as usize, shown.len());
                assert!(report.gen_tokens as u64 <= report.rounds * (k as u64 + 1));
                assert_eq!(chosen.len() as u64, 1 + report.rounds + report.accepted_sum);
                return (shown, chosen);
            }
            SpecCall::Fail => panic!("there was a choice"),
        };
        assert!(spec.expects(&reply));
        spec.advance(reply);
    }
}

#[test]
fn speculation_shows_what_is_chosen_whatever_that_is() {
    for k in [1, 3] {
        for max_tokens in [0, 1, 5, 30] {
            for seed in 0..20u32 {
                let mut state = seed;
                let mut next = || {
                    state = (state * 75 + 74) % 65537;
                    state % 3 + if seed % 2 == 0 { 1 } else { 0 }
                };
                let (shown, chosen) = speculate_freely(k, max_tokens, &mut next);
                let limit = std::cmp::max(1, max_tokens as usize);
                let count = match chosen.iter().position(|&t| t == EOS) {
                    Some(at) => std::cmp::min(at + 1, limit),
                    None => limit,
                };
                assert_eq!(shown, chosen[..count]);
            }
        }
    }
}

#[test]
fn runs_report_the_tokens_before_the_end() {
    let prompts: [(&[u32], u32); 3] = [(&[1], 11), (&[5, 6, 7], 9), (&[3], 0)];
    for (prompt, end) in prompts {
        for max_tokens in [0, 1, 8, 9, 10, 11, 12, 50] {
            let expected = std::cmp::min(end, max_tokens);
            assert_eq!(run(1, prompt, max_tokens).1, expected);
            assert_eq!(session(prompt, max_tokens).1, expected);
        }
    }
    assert_eq!(run(1, &[42, 17], 20).1, 20);
}

#[test]
fn the_worker_resets_as_often_as_it_is_asked() {
    let mut side = WorkerSide {
        worker: Worker::new(),
        cache: vec![1],
        info: Info { start_layer: 14, end_layer: 28, num_layers: 28, is_first: false },
        resets: 0,
    };
    side.step(WorkerReply::Done);
    let reset = write_frame(&Frame::control(MsgType::ResetCache, 1));
    let question = write_frame(&Frame::control(MsgType::Info, 2));
    for n in 1..4 {
        assert!(side.serve(&reset).is_empty());
        let (answer, _) = read_frame(&side.serve(&question)).unwrap();
        assert_eq!((answer.msg_type, answer.seq), (MsgType::Info, 2));
        assert_eq!(side.resets, n);
    }
}
