//! The generation loop: one pass through the model for each token, until a token ends the
//! text or enough are shown.
//!
//! `TokenLoop` decides after each sampled token whether it is shown and whether another pass
//! follows. `RunLoop` drives it with one or two servers in a chain, as a state machine: its
//! state says which call is due (`RunLoop::call`) and holds what the call needs; the caller makes
//! that call and hands the reply to `RunLoop::advance`.
use crate::mlx_client::{no_tensor, Tensor, TensorView};
use vstd::prelude::*;

verus! {

/// Which kind of pass runs through the layers.
#[derive(Clone, Copy, PartialEq, Eq, Debug, Structural)]
pub enum PassMode {
    /// All tokens of the prompt at once.
    Prefill,
    /// One token.
    Decode,
}

impl PassMode {
    /// The name of the mode in requests.
    pub open spec fn spec_name(self) -> Seq<char> {
        match self {
            PassMode::Prefill => "prefill"@,
            PassMode::Decode => "decode"@,
        }
    }

    /// The name of the mode in requests.
    pub fn name(self) -> (name: &'static str)
        ensures
            name@ == self.spec_name(),
    {
        match self {
            PassMode::Prefill => "prefill",
            PassMode::Decode => "decode",
        }
    }
}

/// What is due about tokens.
#[derive(Clone, Copy, PartialEq, Eq, Debug, Structural)]
pub enum TokenPhase {
    /// A pass over the prompt, and a sample from its result.
    Prefill,
    /// To show the token that was sampled last.
    Show,
    /// A pass over the token that was shown last, and a sample from its result.
    Decode,
    /// Nothing.
    Finished,
}

/// Which tokens are shown, and when to stop.
#[derive(Clone, Copy, PartialEq, Eq, Debug, Structural)]
pub struct TokenLoop {
    pub max_tokens: u32,
    /// The token that ends a text.
    pub eos: u32,
    pub phase: TokenPhase,
    /// The token that was sampled last.
    pub next_id: u32,
    /// How many tokens were shown.
    pub shown: u32,
    /// How many decode passes were made.
    pub token_count: u32,
}

impl TokenLoop {
    /// The state at the start.
    pub open spec fn start(max_tokens: u32, eos: u32) -> TokenLoop {
        TokenLoop {
            max_tokens,
            eos,
            phase: TokenPhase::Prefill,
            next_id: 0,
            shown: 0,
            token_count: 0,
        }
    }

    /// The state after `id` was sampled: it is due to be shown, if one more may be.
    pub open spec fn after_sample(self, id: u32) -> TokenLoop {
        TokenLoop {
            next_id: id,
            token_count: if self.phase is Decode {
                (self.token_count + 1) as u32
            } else {
                self.token_count
            },
            phase: if self.shown < self.max_tokens {
                TokenPhase::Show
            } else {
                TokenPhase::Finished
            },
            ..self
        }
    }

    /// The state after the sampled token was shown: a decode pass is due, unless the token
    /// ends the text.
    pub open spec fn after_show(self) -> TokenLoop {
        TokenLoop {
            shown: (self.shown + 1) as u32,
            phase: if self.next_id == self.eos {
                TokenPhase::Finished
            } else {
                TokenPhase::Decode
            },
            ..self
        }
    }

    /// Whether a pass is due.
    pub open spec fn passing(self) -> bool {
        self.phase is Prefill || self.phase is Decode
    }

    /// The kind of pass that is due.
    pub open spec fn mode(self) -> PassMode {
        if self.phase is Prefill {
            PassMode::Prefill
        } else {
            PassMode::Decode
        }
    }

    /// What holds in every state that the loop reaches: no more than `max_tokens` tokens are
    /// shown, and every shown token had one decode pass before the next was shown.
    pub open spec fn wf(self) -> bool {
        &&& self.shown <= self.max_tokens
        &&& self.phase is Prefill ==> self.shown == 0 && self.token_count == 0
        &&& self.phase is Show ==> self.shown < self.max_tokens && self.token_count == self.shown
        &&& self.phase is Decode ==> self.token_count + 1 == self.shown
        &&& self.phase is Finished ==> self.token_count <= self.shown <= self.token_count + 1
    }

    /// A loop that shows up to `max_tokens` tokens, and none behind `eos`.
    pub(crate) fn new(max_tokens: u32, eos: u32) -> (t: Self)
        ensures
            t == TokenLoop::start(max_tokens, eos),
            t.wf(),
    {
        TokenLoop {
            max_tokens,
            eos,
            phase: TokenPhase::Prefill,
            next_id: 0,
            shown: 0,
            token_count: 0,
        }
    }

    /// Takes in the token that the pass and the sample gave.
    pub(crate) fn sampled(&mut self, id: u32)
        requires
            old(self).wf(),
            old(self).passing(),
        ensures
            *final(self) == old(self).after_sample(id),
            final(self).wf(),
    {
        self.next_id = id;
        if self.phase == TokenPhase::Decode {
            self.token_count = self.token_count + 1;
        }
        if self.shown < self.max_tokens {
            self.phase = TokenPhase::Show;
        } else {
            self.phase = TokenPhase::Finished;
        }
    }

    /// Takes note that the sampled token was shown.
    pub(crate) fn was_shown(&mut self)
        requires
            old(self).wf(),
            old(self).phase is Show,
        ensures
            *final(self) == old(self).after_show(),
            final(self).wf(),
    {
        self.shown = self.shown + 1;
        if self.next_id == self.eos {
            self.phase = TokenPhase::Finished;
        } else {
            self.phase = TokenPhase::Decode;
        }
    }

    /// The kind of pass that is due.
    pub(crate) fn pass_mode(&self) -> (mode: PassMode)
        ensures
            mode == self.mode(),
    {
        if self.phase == TokenPhase::Prefill {
            PassMode::Prefill
        } else {
            PassMode::Decode
        }
    }
}

/// What a run waits for.
#[derive(Clone, Copy, PartialEq, Eq, Debug, Structural)]
pub enum RunStep {
    Reset { server: usize },
    Tokenize,
    Embed,
    Forward { server: usize },
    Logits,
    Sample,
    /// What the token loop says: to show a token, or nothing more.
    Token,
}

/// The call that is due.
#[derive(PartialEq, Eq, Debug)]
pub enum RunCall<'a> {
    /// Empty the cache of a server.
    Reset { server: usize },
    /// Tokenize the prompt.
    Tokenize { server: usize, text: &'a str },
    /// Embed the tokens of the prompt.
    EmbedPrompt { server: usize, tokens: &'a [u32] },
    /// Embed one token.
    EmbedToken { server: usize, token: u32 },
    /// Run what was embedded, or came out of the server before, through a server's layers.
    Forward { server: usize, mode: PassMode, input: &'a Tensor },
    /// Turn what came out of the layers into logits.
    Logits { server: usize, input: &'a Tensor },
    /// Sample a token from the logits.
    Sample { server: usize, input: &'a Tensor },
    /// Detokenize one token and print it.
    Show { server: usize, token: u32 },
    /// All is shown, after so many decode passes.
    Finish { token_count: u32 },
}

/// What a call says.
#[verifier::ext_equal]
pub enum RunCallView {
    Reset { server: usize },
    Tokenize { server: usize, text: Seq<char> },
    EmbedPrompt { server: usize, tokens: Seq<u32> },
    EmbedToken { server: usize, token: u32 },
    Forward { server: usize, mode: PassMode, input: TensorView },
    Logits { server: usize, input: TensorView },
    Sample { server: usize, input: TensorView },
    Show { server: usize, token: u32 },
    Finish { token_count: u32 },
}

impl<'a> View for RunCall<'a> {
    type V = RunCallView;

    open spec fn view(&self) -> RunCallView {
        match *self {
            RunCall::Reset { server } => RunCallView::Reset { server },
            RunCall::Tokenize { server, text } => RunCallView::Tokenize { server, text: text@ },
            RunCall::EmbedPrompt { server, tokens } => RunCallView::EmbedPrompt {
                server,
                tokens: tokens@,
            },
            RunCall::EmbedToken { server, token } => RunCallView::EmbedToken { server, token },
            RunCall::Forward { server, mode, input } => RunCallView::Forward {
                server,
                mode,
                input: input@,
            },
            RunCall::Logits { server, input } => RunCallView::Logits { server, input: input@ },
            RunCall::Sample { server, input } => RunCallView::Sample { server, input: input@ },
            RunCall::Show { server, token } => RunCallView::Show { server, token },
            RunCall::Finish { token_count } => RunCallView::Finish { token_count },
        }
    }
}

/// What a call came back with.
#[derive(Debug)]
pub enum RunReply {
    /// It was done.
    Done,
    /// The tokens of the prompt, and the token that ends a text.
    Tokenized { tokens: Vec<u32>, eos: u32 },
    /// What was embedded, came out of the layers, or are the logits.
    Computed { tensor: Tensor },
    /// This token was sampled.
    Sampled { token: u32 },
}

/// The state of a run.
#[verifier::ext_equal]
pub struct RunModel {
    pub servers: usize,
    pub step: RunStep,
    pub tokens: TokenLoop,
    /// The prompt, as it was given.
    pub text: Seq<char>,
    /// The tokens of the prompt.
    pub prompt: Seq<u32>,
    /// What was computed last.
    pub tensor: TensorView,
}

impl RunModel {
    /// The state at the start.
    pub open spec fn start(servers: usize, max_tokens: u32, text: Seq<char>) -> RunModel {
        RunModel {
            servers,
            step: RunStep::Reset { server: 0 },
            tokens: TokenLoop::start(max_tokens, 0),
            text,
            prompt: Seq::empty(),
            tensor: no_tensor(),
        }
    }

    /// The call that is due.
    pub open spec fn call(self) -> RunCallView {
        let last = (self.servers - 1) as usize;
        match self.step {
            RunStep::Reset { server } => RunCallView::Reset { server },
            RunStep::Tokenize => RunCallView::Tokenize { server: 0, text: self.text },
            RunStep::Embed => match self.tokens.mode() {
                PassMode::Prefill => RunCallView::EmbedPrompt { server: 0, tokens: self.prompt },
                PassMode::Decode => RunCallView::EmbedToken {
                    server: 0,
                    token: self.tokens.next_id,
                },
            },
            RunStep::Forward { server } => RunCallView::Forward {
                server,
                mode: self.tokens.mode(),
                input: self.tensor,
            },
            RunStep::Logits => RunCallView::Logits { server: last, input: self.tensor },
            RunStep::Sample => RunCallView::Sample { server: 0, input: self.tensor },
            RunStep::Token => match self.tokens.phase {
                TokenPhase::Show => RunCallView::Show { server: 0, token: self.tokens.next_id },
                _ => RunCallView::Finish { token_count: self.tokens.token_count },
            },
        }
    }

    /// Whether `reply` answers the call that is due.
    pub open spec fn expects(self, reply: RunReply) -> bool {
        match self.step {
            RunStep::Reset { server } => reply is Done,
            RunStep::Tokenize => reply is Tokenized,
            RunStep::Embed => reply is Computed,
            RunStep::Forward { server } => reply is Computed,
            RunStep::Logits => reply is Computed,
            RunStep::Sample => reply is Sampled,
            RunStep::Token => self.tokens.phase is Show && reply is Done,
        }
    }

    /// The state after the call that is due came back with `reply`.
    pub open spec fn next(self, reply: RunReply) -> RunModel {
        match self.step {
            RunStep::Reset { server } => RunModel {
                step: if server + 1 < self.servers {
                    RunStep::Reset { server: (server + 1) as usize }
                } else {
                    RunStep::Tokenize
                },
                ..self
            },
            RunStep::Tokenize => RunModel {
                step: RunStep::Embed,
                tokens: TokenLoop { eos: reply->eos, ..self.tokens },
                prompt: reply->tokens@,
                ..self
            },
            RunStep::Embed => RunModel {
                step: RunStep::Forward { server: 0 },
                tensor: reply->tensor@,
                ..self
            },
            RunStep::Forward { server } => RunModel {
                step: if server + 1 < self.servers {
                    RunStep::Forward { server: (server + 1) as usize }
                } else {
                    RunStep::Logits
                },
                tensor: reply->tensor@,
                ..self
            },
            RunStep::Logits => RunModel { step: RunStep::Sample, tensor: reply->tensor@, ..self },
            RunStep::Sample => RunModel {
                step: RunStep::Token,
                tokens: self.tokens.after_sample(reply->token),
                ..self
            },
            RunStep::Token => RunModel {
                step: if self.tokens.after_show().phase is Decode {
                    RunStep::Embed
                } else {
                    RunStep::Token
                },
                tokens: self.tokens.after_show(),
                ..self
            },
        }
    }

    /// What holds in every state that a run reaches.
    pub open spec fn wf(self) -> bool {
        &&& self.servers > 0
        &&& self.tokens.wf()
        &&& match self.step {
            RunStep::Reset { server } => server < self.servers && self.tokens.phase is Prefill,
            RunStep::Tokenize => self.tokens.phase is Prefill,
            RunStep::Embed => self.tokens.passing(),
            RunStep::Forward { server } => server < self.servers && self.tokens.passing(),
            RunStep::Logits => self.tokens.passing(),
            RunStep::Sample => self.tokens.passing(),
            RunStep::Token => !self.tokens.passing(),
        }
    }
}

/// A run over servers that hold the layers of one model in a chain. The first one embeds,
/// samples and knows the tokens; the last one makes logits.
pub struct RunLoop {
    servers: usize,
    step: RunStep,
    tokens: TokenLoop,
    text: String,
    prompt: Vec<u32>,
    tensor: Tensor,
}

impl View for RunLoop {
    type V = RunModel;

    closed spec fn view(&self) -> RunModel {
        RunModel {
            servers: self.servers,
            step: self.step,
            tokens: self.tokens,
            text: self.text@,
            prompt: self.prompt@,
            tensor: self.tensor@,
        }
    }
}

impl RunLoop {
    /// A run over `servers` servers that shows up to `max_tokens` tokens after the prompt `text`.
    pub fn new(servers: usize, max_tokens: u32, text: String) -> (run: Self)
        requires
            servers > 0,
        ensures
            run@ == RunModel::start(servers, max_tokens, text@),
            run@.wf(),
    {
        RunLoop {
            servers,
            step: RunStep::Reset { server: 0 },
            tokens: TokenLoop::new(max_tokens, 0),
            text,
            prompt: Vec::new(),
            tensor: Tensor::empty(),
        }
    }

    /// The call that is due.
    pub fn call(&self) -> (call: RunCall<'_>)
        requires
            self@.wf(),
        ensures
            call@ == self@.call(),
    {
        match self.step {
            RunStep::Reset { server } => RunCall::Reset { server },
            RunStep::Tokenize => RunCall::Tokenize { server: 0, text: self.text.as_str() },
            RunStep::Embed => match self.tokens.pass_mode() {
                PassMode::Prefill => RunCall::EmbedPrompt {
                    server: 0,
                    tokens: self.prompt.as_slice(),
                },
                PassMode::Decode => RunCall::EmbedToken { server: 0, token: self.tokens.next_id },
            },
            RunStep::Forward { server } => RunCall::Forward {
                server,
                mode: self.tokens.pass_mode(),
                input: &self.tensor,
            },
            RunStep::Logits => RunCall::Logits { server: self.servers - 1, input: &self.tensor },
            RunStep::Sample => RunCall::Sample { server: 0, input: &self.tensor },
            RunStep::Token => match self.tokens.phase {
                TokenPhase::Show => RunCall::Show { server: 0, token: self.tokens.next_id },
                _ => RunCall::Finish { token_count: self.tokens.token_count },
            },
        }
    }

    /// Whether `reply` answers the call that is due.
    pub fn expects(&self, reply: &RunReply) -> (yes: bool)
        ensures
            yes == self@.expects(*reply),
    {
        match (self.step, reply) {
            (RunStep::Reset { server: _ }, RunReply::Done) => true,
            (RunStep::Tokenize, RunReply::Tokenized { tokens: _, eos: _ }) => true,
            (RunStep::Embed, RunReply::Computed { tensor: _ }) => true,
            (RunStep::Forward { server: _ }, RunReply::Computed { tensor: _ }) => true,
            (RunStep::Logits, RunReply::Computed { tensor: _ }) => true,
            (RunStep::Sample, RunReply::Sampled { token: _ }) => true,
            (RunStep::Token, RunReply::Done) => self.tokens.phase == TokenPhase::Show,
            (_, _) => false,
        }
    }

    /// Takes in what the call that was due came back with.
    pub fn advance(&mut self, reply: RunReply)
        requires
            old(self)@.wf(),
            old(self)@.expects(reply),
        ensures
            final(self)@ == old(self)@.next(reply),
            final(self)@.wf(),
    {
        match self.step {
            RunStep::Reset { server } => {
                if server < self.servers - 1 {
                    self.step = RunStep::Reset { server: server + 1 };
                } else {
                    self.step = RunStep::Tokenize;
                }
            },
            RunStep::Tokenize => {
                if let RunReply::Tokenized { tokens, eos } = reply {
                    self.prompt = tokens;
                    self.tokens.eos = eos;
                }
                self.step = RunStep::Embed;
            },
            RunStep::Embed => {
                if let RunReply::Computed { tensor } = reply {
                    self.tensor = tensor;
                }
                self.step = RunStep::Forward { server: 0 };
            },
            RunStep::Forward { server } => {
                if let RunReply::Computed { tensor } = reply {
                    self.tensor = tensor;
                }
                if server < self.servers - 1 {
                    self.step = RunStep::Forward { server: server + 1 };
                } else {
                    self.step = RunStep::Logits;
                }
            },
            RunStep::Logits => {
                if let RunReply::Computed { tensor } = reply {
                    self.tensor = tensor;
                }
                self.step = RunStep::Sample;
            },
            RunStep::Sample => {
                if let RunReply::Sampled { token } = reply {
                    self.tokens.sampled(token);
                }
                self.step = RunStep::Token;
            },
            RunStep::Token => {
                self.tokens.was_shown();
                if self.tokens.phase == TokenPhase::Decode {
                    self.step = RunStep::Embed;
                }
            },
        }
    }
}

} // verus!
