//! Admission of generation requests: which error a request earns, the
//! token budget that fits the context window, and the prompt built from a
//! chat history.

use vstd::prelude::*;
use crate::config::ServerConfig;
use crate::text::{byte_len, join_strings, join_with};
use vstd::string::StringExecFns;

verus! {

/// Why a request is refused or fails.
#[derive(Clone, Copy, Debug, PartialEq, Eq)]
pub enum RequestError {
    /// The requested model file was not found.
    ModelNotFound,
    /// The prompt is longer than the configured limit.
    PromptTooLong,
    /// The prompt alone fills the context window.
    ContextExceeded,
    /// Loading the model or running it failed.
    InferenceFailed,
}

pub open spec fn status_code_of(e: RequestError) -> u16 {
    match e {
        RequestError::ModelNotFound => 404,
        RequestError::PromptTooLong => 400,
        RequestError::ContextExceeded => 400,
        RequestError::InferenceFailed => 500,
    }
}

impl RequestError {
    /// The HTTP status that answers the error.
    pub fn status_code(&self) -> (r: u16)
        ensures
            r == status_code_of(*self),
    {
        match self {
            RequestError::ModelNotFound => 404,
            RequestError::PromptTooLong => 400,
            RequestError::ContextExceeded => 400,
            RequestError::InferenceFailed => 500,
        }
    }
}

/// The integer generation options a request may carry.
#[derive(Clone, Copy, Debug, PartialEq, Eq)]
pub struct TokenOptions {
    pub max_tokens: Option<i32>,
    pub top_k: Option<i32>,
}

/// The estimate of prompt tokens: one token per four bytes.
pub open spec fn estimated_tokens(prompt_bytes: usize) -> i32 {
    (prompt_bytes / 4) as i32
}

pub open spec fn requested_max_tokens(opts: Option<TokenOptions>) -> Option<i32> {
    match opts {
        Some(o) => o.max_tokens,
        None => None,
    }
}

/// The requested number of new tokens (or the default), capped by the limit.
pub open spec fn capped_max_tokens(opts: Option<TokenOptions>, cfg: ServerConfig) -> i32 {
    let requested = match requested_max_tokens(opts) {
        Some(t) => t,
        None => cfg.max_new_tokens_default,
    };
    if requested < cfg.max_new_tokens_limit {
        requested
    } else {
        cfg.max_new_tokens_limit
    }
}

/// The additions and subtractions of the budget stay within `i32` (outside
/// these inputs the computation overflows).
pub open spec fn budget_fits(prompt_bytes: usize, opts: Option<TokenOptions>, cfg: ServerConfig) -> bool {
    let est = estimated_tokens(prompt_bytes) as int;
    let mt = capped_max_tokens(opts, cfg) as int;
    let ctx = cfg.max_context_len as int;
    &&& i32::MIN <= est + mt <= i32::MAX
    &&& est + mt > ctx ==> i32::MIN <= ctx - est <= i32::MAX
}

/// The number of new tokens granted: the capped request, lowered so that
/// the estimated prompt and the new tokens fit the context window; an error
/// when the prompt alone fills it.
pub open spec fn token_budget(prompt_bytes: usize, opts: Option<TokenOptions>, cfg: ServerConfig) -> Result<i32, RequestError> {
    let est = estimated_tokens(prompt_bytes);
    let mt = capped_max_tokens(opts, cfg);
    let ctx = cfg.max_context_len;
    if est + mt > ctx {
        let available = ctx - est;
        if available <= 0 {
            Err(RequestError::ContextExceeded)
        } else if mt < available {
            Ok(mt)
        } else {
            Ok(available as i32)
        }
    } else {
        Ok(mt)
    }
}

/// Executable test of [`budget_fits`].
pub fn budget_fits_check(prompt_bytes: usize, opts: &Option<TokenOptions>, cfg: &ServerConfig) -> (r: bool)
    ensures
        r == budget_fits(prompt_bytes, *opts, *cfg),
{
    let est = (prompt_bytes / 4) as i32 as i64;
    let mt = capped_tokens(opts, cfg) as i64;
    let ctx = cfg.max_context_len as i64;
    let sum = est + mt;
    let fits_sum = i32::MIN as i64 <= sum && sum <= i32::MAX as i64;
    let diff = ctx - est;
    let fits_diff = i32::MIN as i64 <= diff && diff <= i32::MAX as i64;
    fits_sum && (sum <= ctx || fits_diff)
}

fn capped_tokens(opts: &Option<TokenOptions>, cfg: &ServerConfig) -> (r: i32)
    ensures
        r == capped_max_tokens(*opts, *cfg),
{
    let requested = match opts {
        Some(o) => match o.max_tokens {
            Some(t) => t,
            None => cfg.max_new_tokens_default,
        },
        None => cfg.max_new_tokens_default,
    };
    if requested < cfg.max_new_tokens_limit {
        requested
    } else {
        cfg.max_new_tokens_limit
    }
}

/// The token budget for a prompt of `prompt_bytes` bytes (see [`token_budget`]).
pub fn plan_max_tokens(prompt_bytes: usize, opts: &Option<TokenOptions>, cfg: &ServerConfig) -> (r: Result<i32, RequestError>)
    requires
        budget_fits(prompt_bytes, *opts, *cfg),
    ensures
        r == token_budget(prompt_bytes, *opts, *cfg),
{
    let est = (prompt_bytes / 4) as i32;
    let mt = capped_tokens(opts, cfg);
    let ctx = cfg.max_context_len;
    if est + mt > ctx {
        let available = ctx - est;
        if available <= 0 {
            Err(RequestError::ContextExceeded)
        } else if mt < available {
            Ok(mt)
        } else {
            Ok(available)
        }
    } else {
        Ok(mt)
    }
}

/// The granted tokens never exceed the limit or the request, and together
/// with the estimated prompt they fit the context window; the request is
/// refused only when the prompt alone fills it.
pub proof fn lemma_budget_fits_context(prompt_bytes: usize, opts: Option<TokenOptions>, cfg: ServerConfig)
    requires
        budget_fits(prompt_bytes, opts, cfg),
    ensures
        match token_budget(prompt_bytes, opts, cfg) {
            Ok(t) => {
                &&& estimated_tokens(prompt_bytes) + t <= cfg.max_context_len
                &&& t <= cfg.max_new_tokens_limit
                &&& t <= capped_max_tokens(opts, cfg)
                &&& estimated_tokens(prompt_bytes) + capped_max_tokens(opts, cfg)
                    > cfg.max_context_len ==> t > 0
            },
            Err(e) => e == RequestError::ContextExceeded && estimated_tokens(prompt_bytes)
                >= cfg.max_context_len && estimated_tokens(prompt_bytes) + capped_max_tokens(
                opts,
                cfg,
            ) > cfg.max_context_len,
        },
{
}

/// What a generation is run with.
#[derive(Clone, Debug, PartialEq, Eq)]
pub struct GenerationPlan {
    pub model_path: String,
    pub prompt: String,
    pub max_tokens: i32,
    pub top_k: i32,
    pub max_context_len: i32,
}

pub open spec fn requested_top_k(opts: Option<TokenOptions>) -> i32 {
    match opts {
        Some(o) => match o.top_k {
            Some(k) => k,
            None => 40,
        },
        None => 40,
    }
}

/// The decision on a request, in order: the model must have been found, the
/// prompt must be within the length limit, and the token budget must fit.
pub open spec fn admission(
    model_found: bool,
    prompt: Seq<char>,
    opts: Option<TokenOptions>,
    cfg: ServerConfig,
) -> Result<i32, RequestError> {
    if !model_found {
        Err(RequestError::ModelNotFound)
    } else if byte_len(prompt) > cfg.max_prompt_length {
        Err(RequestError::PromptTooLong)
    } else {
        token_budget(byte_len(prompt), opts, cfg)
    }
}

/// The arithmetic of the admission stays in range.
pub open spec fn admission_fits(
    model_found: bool,
    prompt: Seq<char>,
    opts: Option<TokenOptions>,
    cfg: ServerConfig,
) -> bool {
    model_found && byte_len(prompt) <= cfg.max_prompt_length ==> budget_fits(
        byte_len(prompt),
        opts,
        cfg,
    )
}

/// `p` is the plan for the admitted request.
pub open spec fn plan_matches(
    p: GenerationPlan,
    model_file: Option<String>,
    prompt: Seq<char>,
    opts: Option<TokenOptions>,
    cfg: ServerConfig,
) -> bool {
    &&& model_file matches Some(f) && p.model_path@ == f@
    &&& p.prompt@ == prompt
    &&& admission(true, prompt, opts, cfg) == Ok::<i32, RequestError>(p.max_tokens)
    &&& p.top_k == requested_top_k(opts)
    &&& p.max_context_len == cfg.max_context_len
}

/// Admits a request for `prompt` given the model file that was found (if
/// any), and plans the generation.
pub fn plan_prompt(
    model_file: Option<String>,
    prompt: String,
    opts: &Option<TokenOptions>,
    cfg: &ServerConfig,
) -> (r: Result<GenerationPlan, RequestError>)
    requires
        admission_fits(model_file is Some, prompt@, *opts, *cfg),
    ensures
        match admission(model_file is Some, prompt@, *opts, *cfg) {
            Ok(t) => r matches Ok(p) && plan_matches(p, model_file, prompt@, *opts, *cfg),
            Err(e) => r == Err::<GenerationPlan, RequestError>(e),
        },
{
    let model_path = match model_file {
        Some(f) => f,
        None => {
            return Err(RequestError::ModelNotFound);
        },
    };
    let prompt_bytes = prompt.as_str().len();
    if prompt_bytes > cfg.max_prompt_length {
        return Err(RequestError::PromptTooLong);
    }
    let max_tokens = plan_max_tokens(prompt_bytes, opts, cfg)?;
    let top_k = match opts {
        Some(o) => match o.top_k {
            Some(k) => k,
            None => 40,
        },
        None => 40,
    };
    Ok(GenerationPlan { model_path, prompt, max_tokens, top_k, max_context_len: cfg.max_context_len })
}

/// How refusals are answered: a missing model is a 404 whatever else is
/// wrong; a too long prompt or a full context window is a 400.
pub proof fn lemma_refusal_statuses(prompt: Seq<char>, opts: Option<TokenOptions>, cfg: ServerConfig)
    ensures
        admission(false, prompt, opts, cfg) == Err::<i32, RequestError>(
            RequestError::ModelNotFound,
        ),
        status_code_of(RequestError::ModelNotFound) == 404,
        byte_len(prompt) > cfg.max_prompt_length ==> admission(true, prompt, opts, cfg) == Err::<
            i32,
            RequestError,
        >(RequestError::PromptTooLong),
        admission(true, prompt, opts, cfg) matches Err(e) ==> status_code_of(e) == 400,
{
}

/// Executable test of [`admission_fits`].
pub fn admission_fits_check(
    model_found: bool,
    prompt: &str,
    opts: &Option<TokenOptions>,
    cfg: &ServerConfig,
) -> (r: bool)
    ensures
        r == admission_fits(model_found, prompt@, *opts, *cfg),
{
    let n = prompt.len();
    !(model_found && n <= cfg.max_prompt_length) || budget_fits_check(n, opts, cfg)
}

/// One message of a chat history.
#[derive(Clone, Debug, PartialEq, Eq)]
pub struct Message {
    pub role: String,
    pub content: String,
}

pub open spec fn contents(messages: Seq<Message>) -> Seq<Seq<char>> {
    messages.map_values(|m: Message| m.content@)
}

/// The prompt for a chat: the contents of all messages, whatever their
/// role, separated by blank lines.
pub open spec fn chat_prompt_spec(messages: Seq<Message>) -> Seq<char> {
    join_with(contents(messages), "\n\n"@)
}

/// The role of a message does not matter to the prompt: histories with the
/// same contents give the same prompt.
pub proof fn lemma_chat_prompt_ignores_roles(a: Seq<Message>, b: Seq<Message>)
    requires
        a.len() == b.len(),
        forall|i: int| 0 <= i < a.len() ==> #[trigger] a[i].content@ == b[i].content@,
    ensures
        chat_prompt_spec(a) == chat_prompt_spec(b),
{
    assert(contents(a) =~= contents(b));
}

/// Builds the prompt for a chat (see [`chat_prompt_spec`]).
pub fn chat_prompt(messages: &Vec<Message>) -> (r: String)
    ensures
        r@ == chat_prompt_spec(messages@),
{
    let mut parts: Vec<String> = Vec::new();
    let n = messages.len();
    for i in 0..n
        invariant
            n == messages.len(),
            parts.deep_view() == contents(messages@.take(i as int)),
    {
        let ghost before = parts.deep_view();
        parts.push(messages[i].content.clone());
        assert(parts.deep_view() =~= before.push(messages@[i as int].content@));
        assert(contents(messages@.take(i + 1)) =~= contents(messages@.take(i as int)).push(
            messages@[i as int].content@,
        ));
    }
    assert(messages@.take(n as int) =~= messages@);
    let sep = "\n\n";
    join_strings(&parts, sep)
}

/// Admits a chat request and plans its generation.
pub fn plan_chat(
    model_file: Option<String>,
    messages: &Vec<Message>,
    opts: &Option<TokenOptions>,
    cfg: &ServerConfig,
) -> (r: Result<GenerationPlan, RequestError>)
    requires
        admission_fits(model_file is Some, chat_prompt_spec(messages@), *opts, *cfg),
    ensures
        match admission(model_file is Some, chat_prompt_spec(messages@), *opts, *cfg) {
            Ok(t) => r matches Ok(p) && plan_matches(
                p,
                model_file,
                chat_prompt_spec(messages@),
                *opts,
                *cfg,
            ),
            Err(e) => r == Err::<GenerationPlan, RequestError>(e),
        },
{
    let prompt = chat_prompt(messages);
    plan_prompt(model_file, prompt, opts, cfg)
}

/// The state that the inference runtime reports with each callback.
#[derive(Clone, Copy, Debug, PartialEq, Eq)]
pub enum CallState {
    Normal,
    Waiting,
    Finish,
    Error,
    LastHiddenLayer,
}

/// What one callback adds to the collected reply: the text of a normal
/// step, a fixed notice on error, nothing otherwise.
pub open spec fn callback_output(state: CallState, text: Option<Seq<char>>) -> Seq<char> {
    match state {
        CallState::Normal => match text {
            Some(t) => t,
            None => seq![],
        },
        CallState::Error => "Error occurred during generation"@,
        _ => seq![],
    }
}

/// Collects the reply as the runtime streams it.
pub fn handle_callback(response: &mut String, state: CallState, text: Option<&str>)
    ensures
        final(response)@ == old(response)@ + callback_output(
            state,
            match text {
                Some(t) => Some(t@),
                None => None,
            },
        ),
{
    match state {
        CallState::Normal => {
            if let Some(t) = text {
                response.append(t);
            } else {
                assert(old(response)@ + seq![] =~= old(response)@);
            }
        },
        CallState::Error => {
            response.append("Error occurred during generation");
        },
        _ => {
            assert(old(response)@ + seq![] =~= old(response)@);
        },
    }
}


/// The text collected over a run: what each callback, in order, adds.
pub open spec fn transcript(events: Seq<(CallState, Option<Seq<char>>)>) -> Seq<char>
    decreases events.len(),
{
    if events.len() == 0 {
        seq![]
    } else {
        transcript(events.drop_last()) + callback_output(events.last().0, events.last().1)
    }
}

/// The reply buffer only grows over a run: when it starts empty and each
/// callback appends what [`handle_callback`] appends, the buffer after `k`
/// callbacks is the transcript of the first `k`, and every earlier buffer is
/// a prefix of every later one.
pub proof fn lemma_reply_buffer_append_only(
    events: Seq<(CallState, Option<Seq<char>>)>,
    buffers: Seq<Seq<char>>,
)
    requires
        buffers.len() == events.len() + 1,
        buffers[0] == Seq::<char>::empty(),
        forall|k: int|
            0 <= k < events.len() ==> #[trigger] buffers[k + 1] == buffers[k] + callback_output(
                events[k].0,
                events[k].1,
            ),
    ensures
        forall|k: int| 0 <= k <= events.len() ==> #[trigger] buffers[k] == transcript(events.take(k)),
        forall|a: int, b: int|
            0 <= a <= b <= events.len() ==> (#[trigger] buffers[a]).len() <= (
            #[trigger] buffers[b]).len() && buffers[b].take(buffers[a].len() as int) == buffers[a],
        buffers.last() == transcript(events),
    decreases events.len(),
{
    if events.len() > 0 {
        let n = events.len() - 1;
        let pe = events.drop_last();
        let pb = buffers.drop_last();
        assert forall|k: int| 0 <= k < pe.len() implies #[trigger] pb[k + 1] == pb[k]
            + callback_output(pe[k].0, pe[k].1) by {
            assert(pb[k + 1] == buffers[k + 1]);
            assert(pe[k] == events[k]);
        }
        lemma_reply_buffer_append_only(pe, pb);
        assert forall|k: int| 0 <= k <= events.len() implies #[trigger] buffers[k] == transcript(
            events.take(k),
        ) by {
            if k <= n {
                assert(buffers[k] == pb[k]);
                assert(events.take(k) =~= pe.take(k));
            } else {
                assert(buffers[n] == pb[n]);
                assert(pe.take(n) =~= pe);
                assert(events.take(k).drop_last() =~= pe);
                assert(events.take(k).last() == events[n]);
                assert(buffers[k] == buffers[n] + callback_output(events[n].0, events[n].1));
            }
        }
        assert forall|a: int, b: int| 0 <= a <= b <= events.len() implies (
        #[trigger] buffers[a]).len() <= (#[trigger] buffers[b]).len() && buffers[b].take(
            buffers[a].len() as int,
        ) == buffers[a] by {
            if b <= n {
                assert(buffers[a] == pb[a] && buffers[b] == pb[b]);
            } else if a == b {
                assert(buffers[b].take(buffers[b].len() as int) =~= buffers[b]);
            } else {
                assert(buffers[a] == pb[a] && buffers[n] == pb[n]);
                let x = buffers[n] + callback_output(events[n].0, events[n].1);
                assert(buffers[b] == x);
                assert(pb[n].take(pb[a].len() as int) == pb[a]);
                assert(x.take(buffers[a].len() as int) =~= buffers[n].take(buffers[a].len() as int));
            }
        }
        assert(events.take(events.len() as int) =~= events);
        assert(buffers[events.len() as int] == buffers.last());
    } else {
        assert(events.take(0) =~= events);
    }
}

/// A chat is admitted, refused and planned exactly as a generate request
/// whose prompt is the chat's prompt (the contents of its messages joined by
/// blank lines): the same refusal with the same status, the same arithmetic
/// bounds, the same plan handed to the runtime.
pub proof fn lemma_chat_admitted_like_generate(
    model_found: bool,
    messages: Seq<Message>,
    prompt: Seq<char>,
    opts: Option<TokenOptions>,
    cfg: ServerConfig,
)
    requires
        prompt == join_with(contents(messages), "\n\n"@),
    ensures
        admission(model_found, chat_prompt_spec(messages), opts, cfg) == admission(
            model_found,
            prompt,
            opts,
            cfg,
        ),
        admission_fits(model_found, chat_prompt_spec(messages), opts, cfg) == admission_fits(
            model_found,
            prompt,
            opts,
            cfg,
        ),
        forall|p: GenerationPlan, f: Option<String>|
            #[trigger] plan_matches(p, f, chat_prompt_spec(messages), opts, cfg) <==> plan_matches(
                p,
                f,
                prompt,
                opts,
                cfg,
            ),
{
}


/// The granted token count depends on the options only through their
/// `max_tokens`: options without it are planned exactly like no options,
/// which get the default capped by the limit (then fitted to the context
/// window); `top_k` plays no part.
pub proof fn lemma_budget_depends_only_on_max_tokens(
    prompt_bytes: usize,
    max_tokens: Option<i32>,
    top_k1: Option<i32>,
    top_k2: Option<i32>,
    cfg: ServerConfig,
)
    ensures
        token_budget(prompt_bytes, Some(TokenOptions { max_tokens: None, top_k: top_k1 }), cfg)
            == token_budget(prompt_bytes, None, cfg),
        budget_fits(prompt_bytes, Some(TokenOptions { max_tokens: None, top_k: top_k1 }), cfg)
            == budget_fits(prompt_bytes, None, cfg),
        token_budget(prompt_bytes, Some(TokenOptions { max_tokens, top_k: top_k1 }), cfg)
            == token_budget(prompt_bytes, Some(TokenOptions { max_tokens, top_k: top_k2 }), cfg),
        ({
            let d = if cfg.max_new_tokens_default < cfg.max_new_tokens_limit {
                cfg.max_new_tokens_default
            } else {
                cfg.max_new_tokens_limit
            };
            estimated_tokens(prompt_bytes) + d <= cfg.max_context_len ==> token_budget(
                prompt_bytes,
                None,
                cfg,
            ) == Ok::<i32, RequestError>(d)
        }),
        ({
            let t = max_tokens->0;
            (max_tokens is Some && t < cfg.max_new_tokens_limit && estimated_tokens(prompt_bytes)
                + t <= cfg.max_context_len) ==> token_budget(
                prompt_bytes,
                Some(TokenOptions { max_tokens, top_k: top_k1 }),
                cfg,
            ) == Ok::<i32, RequestError>(t)
        }),
{
}

} // verus!
