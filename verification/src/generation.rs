//! Bookkeeping of token-by-token text generation: which tokens the model is
//! fed at each step, which recent tokens the repeat penalty covers, and when
//! generation stops. The model's forward pass and the sampling of the next
//! token run outside, on floating-point tensors; this state machine decides
//! everything else.
use vstd::prelude::*;

verus! {

/// Why a generation run cannot start.
#[derive(Debug, PartialEq, Eq, Clone, Copy)]
pub enum GenerationError {
    /// The prompt encodes to no token at all, which the model does not accept.
    EmptyPrompt,
    /// The tokenizer has no end-of-sequence token.
    MissingEos,
}

/// What the model is asked at one step: the context it is fed is
/// `tokens[context_start..]`, starting at position `context_start`, and the
/// repeat penalty covers `tokens[penalty_start..]`.
#[derive(Debug, PartialEq, Eq, Clone, Copy)]
pub struct Step {
    pub context_start: usize,
    pub penalty_start: usize,
}

/// The state of a generation run.
pub struct Generation {
    tokens: Vec<u32>,
    prompt_len: usize,
    sample_len: usize,
    steps: usize,
    eos_token: u32,
    repeat_last_n: usize,
    finished: bool,
}

/// The mathematical value of a [`Generation`].
pub struct GenerationView {
    /// The prompt's tokens followed by every token generated so far.
    pub tokens: Seq<u32>,
    /// How many of `tokens` came from the prompt.
    pub prompt_len: nat,
    /// The largest number of tokens the run generates.
    pub sample_len: nat,
    /// How many tokens have been generated.
    pub steps: nat,
    /// The token that ends generation.
    pub eos_token: u32,
    /// How many recent tokens the repeat penalty covers.
    pub repeat_last_n: nat,
    /// Whether the end-of-sequence token has been generated.
    pub finished: bool,
}

impl View for Generation {
    type V = GenerationView;

    closed spec fn view(&self) -> GenerationView {
        GenerationView {
            tokens: self.tokens@,
            prompt_len: self.prompt_len as nat,
            sample_len: self.sample_len as nat,
            steps: self.steps as nat,
            eos_token: self.eos_token,
            repeat_last_n: self.repeat_last_n as nat,
            finished: self.finished,
        }
    }
}

/// The invariant of a run: every step added exactly one token to the
/// prompt, at most `sample_len` steps were taken, and the run is finished
/// exactly when the last generated token is the end-of-sequence token.
pub open spec fn run_consistent(g: GenerationView) -> bool {
    &&& g.tokens.len() == g.prompt_len + g.steps
    &&& g.steps <= g.sample_len
    &&& g.finished <==> (g.steps > 0 && g.tokens.last() == g.eos_token)
    &&& g.finished ==> forall|i: int| g.prompt_len <= i < g.tokens.len() - 1 ==> #[trigger] g.tokens[i] != g.eos_token
    &&& !g.finished ==> forall|i: int| g.prompt_len <= i < g.tokens.len() ==> #[trigger] g.tokens[i] != g.eos_token
}

/// Whether the run asks the model for another token.
pub open spec fn wants_step(g: GenerationView) -> bool {
    !g.finished && g.steps < g.sample_len
}

/// `n - k`, or zero when `k > n`.
pub open spec fn sub_floor(n: nat, k: nat) -> nat {
    if k > n { 0 } else { (n - k) as nat }
}

/// The step the run asks for next: the first step feeds the whole prompt,
/// every later step only the latest token; the repeat penalty covers the
/// last `repeat_last_n` tokens.
pub open spec fn next_step(g: GenerationView) -> Step {
    Step {
        context_start: (if g.steps > 0 { sub_floor(g.tokens.len(), 1) } else { 0 }) as usize,
        penalty_start: sub_floor(g.tokens.len(), g.repeat_last_n) as usize,
    }
}

/// The first step feeds the whole prompt from position 0; every later step
/// feeds exactly one token, the latest.
pub proof fn law_step_context(g: GenerationView)
    requires
        run_consistent(g),
        wants_step(g),
        g.tokens.len() <= usize::MAX,
    ensures
        g.steps == 0 ==> next_step(g).context_start == 0,
        g.steps > 0 ==> next_step(g).context_start == g.tokens.len() - 1,
{
}

/// The repeat penalty covers the last `repeat_last_n` tokens, or all of them
/// when there are fewer.
pub proof fn law_penalty_window(g: GenerationView)
    requires
        run_consistent(g),
        g.tokens.len() <= usize::MAX,
    ensures
        g.tokens.len() - next_step(g).penalty_start == (if g.repeat_last_n < g.tokens.len() {
            g.repeat_last_n as int
        } else {
            g.tokens.len() as int
        }),
{
}

/// A run stops asking for tokens only when it generated the
/// end-of-sequence token or `sample_len` tokens; it never generates more
/// than `sample_len`, and no token before the last generated one is the
/// end-of-sequence token.
pub proof fn law_run_ends(g: GenerationView)
    requires
        run_consistent(g),
    ensures
        g.tokens.len() - g.prompt_len <= g.sample_len,
        !wants_step(g) ==> (g.finished && g.tokens.last() == g.eos_token) || g.steps == g.sample_len,
        forall|i: int| g.prompt_len <= i < g.tokens.len() - 1 ==> #[trigger] g.tokens[i] != g.eos_token,
{
}

impl Generation {
    #[verifier::type_invariant]
    spec fn consistent(self) -> bool {
        run_consistent(self@)
    }

    /// Starts a run from the prompt's tokens. The end-of-sequence token must
    /// exist; an empty prompt is refused when `allow_empty_prompt` is false.
    pub fn start(
        prompt_tokens: Vec<u32>,
        eos_token: Option<u32>,
        sample_len: usize,
        repeat_last_n: usize,
        allow_empty_prompt: bool,
    ) -> (r: Result<Generation, GenerationError>)
        ensures
            match r {
                Ok(g) => {
                    &&& !(prompt_tokens@.len() == 0 && !allow_empty_prompt)
                    &&& eos_token is Some
                    &&& g@.tokens == prompt_tokens@
                    &&& g@.prompt_len == prompt_tokens@.len()
                    &&& g@.sample_len == sample_len
                    &&& g@.steps == 0
                    &&& g@.eos_token == eos_token->0
                    &&& g@.repeat_last_n == repeat_last_n
                    &&& !g@.finished
                },
                Err(GenerationError::EmptyPrompt) => prompt_tokens@.len() == 0 && !allow_empty_prompt,
                Err(GenerationError::MissingEos) => !(prompt_tokens@.len() == 0 && !allow_empty_prompt)
                    && eos_token is None,
            },
    {
        if prompt_tokens.len() == 0 && !allow_empty_prompt {
            return Err(GenerationError::EmptyPrompt);
        }
        match eos_token {
            None => Err(GenerationError::MissingEos),
            Some(eos) => {
                let prompt_len = prompt_tokens.len();
                Ok(Generation {
                    tokens: prompt_tokens,
                    prompt_len,
                    sample_len,
                    steps: 0,
                    eos_token: eos,
                    repeat_last_n,
                    finished: false,
                })
            },
        }
    }

    /// The step to run next, or `None` when the run is over: the
    /// end-of-sequence token was generated or `sample_len` tokens were.
    pub fn next_step(&self) -> (r: Option<Step>)
        ensures
            run_consistent(self@),
            wants_step(self@) ==> r == Some(next_step(self@)),
            !wants_step(self@) ==> r is None,
    {
        proof {
            use_type_invariant(self);
        }
        if self.finished || self.steps >= self.sample_len {
            return None;
        }
        let len = self.tokens.len();
        let context_start = if self.steps > 0 { len - 1 } else { 0 };
        let penalty_start = if self.repeat_last_n > len { 0 } else { len - self.repeat_last_n };
        Some(Step { context_start, penalty_start })
    }

    /// Records the token the model produced at the current step. Returns
    /// whether the run goes on: it stops at the end-of-sequence token.
    pub fn record(&mut self, token: u32) -> (r: bool)
        requires
            wants_step(old(self)@),
        ensures
            final(self)@.tokens == old(self)@.tokens.push(token),
            final(self)@.steps == old(self)@.steps + 1,
            final(self)@.finished == (token == old(self)@.eos_token),
            final(self)@.prompt_len == old(self)@.prompt_len,
            final(self)@.sample_len == old(self)@.sample_len,
            final(self)@.eos_token == old(self)@.eos_token,
            final(self)@.repeat_last_n == old(self)@.repeat_last_n,
            r == !final(self)@.finished,
            run_consistent(final(self)@),
    {
        proof {
            use_type_invariant(&*self);
        }
        let mut current = Generation {
            tokens: Vec::new(),
            prompt_len: 0,
            sample_len: 0,
            steps: 0,
            eos_token: 0,
            repeat_last_n: 0,
            finished: false,
        };
        std::mem::swap(&mut current, self);
        let Generation { mut tokens, prompt_len, sample_len, steps, eos_token, repeat_last_n, .. } =
            current;
        let ghost old_tokens = tokens@;
        tokens.push(token);
        let finished = token == eos_token;
        proof {
            assert(tokens@.last() == token);
            assert forall|i: int| prompt_len <= i < tokens@.len() - 1 implies #[trigger] tokens@[i]
                != eos_token by {
                assert(tokens@[i] == old_tokens[i]);
            }
        }
        *self = Generation {
            tokens,
            prompt_len,
            sample_len,
            steps: steps + 1,
            eos_token,
            repeat_last_n,
            finished,
        };
        proof {
            use_type_invariant(&*self);
        }
        !finished
    }

    /// The prompt's tokens followed by the generated ones.
    pub fn tokens(&self) -> (r: &Vec<u32>)
        ensures
            r@ == self@.tokens,
    {
        &self.tokens
    }

    /// How many tokens have been generated.
    pub fn generated_tokens(&self) -> (r: usize)
        ensures
            r == self@.steps,
            r == self@.tokens.len() - self@.prompt_len,
            r <= self@.sample_len,
    {
        proof {
            use_type_invariant(self);
        }
        self.steps
    }
}

} // verus!
