//! The answers to generation and chat requests, in the Ollama shape and in
//! the OpenAI shape, built from what a finished generation produced.

use vstd::prelude::*;
use crate::clean::{clean_response_content, cleaner_patterns_compile, finish_reply_spec, strip_reasoning_spec};
use crate::catalog::{is_clock_text, now_rfc3339};
use crate::clock::unix_time_secs;
use crate::ids::{completion_id_spec, completion_prefix, is_lower_hex_digit, new_completion_id};
use crate::config::ServerConfig;
use crate::requests::{admission, chat_prompt_spec, contents, requested_top_k, Message, TokenOptions};
use crate::text::{byte_len, is_white_space, join_with, lemma_trim_idempotent, lemma_trim_shape, trim, trim_str};

verus! {

/// What a finished generation produced: the collected text and the time,
/// in nanoseconds, spent loading the model, evaluating the prompt, and in all.
#[derive(Clone, Debug, PartialEq, Eq)]
pub struct InferenceOutcome {
    pub text: String,
    pub load_duration: u64,
    pub prompt_eval_duration: u64,
    pub total_duration: u64,
}

/// The loading and the prompt evaluation are parts of the whole run.
pub open spec fn outcome_consistent(o: InferenceOutcome) -> bool {
    o.load_duration + o.prompt_eval_duration <= o.total_duration
}

/// Tokens estimated for a text of `bytes` bytes: one per four bytes.
pub open spec fn token_estimate(bytes: usize) -> u32 {
    (bytes / 4) as u32
}

/// The timing and counting fields shared by generate and chat answers.
#[derive(Clone, Copy, Debug, PartialEq, Eq)]
pub struct GenerationStats {
    pub total_duration: Option<u64>,
    pub load_duration: Option<u64>,
    pub prompt_eval_count: Option<u32>,
    pub prompt_eval_duration: Option<u64>,
    pub eval_count: Option<u32>,
    pub eval_duration: Option<u64>,
}

/// `s` reports the outcome for a prompt of `prompt` characters: the
/// durations, the estimated token counts of prompt and reply, and the time
/// left for generating.
pub open spec fn stats_spec(s: GenerationStats, prompt: Seq<char>, o: InferenceOutcome) -> bool {
    &&& s.total_duration == Some(o.total_duration)
    &&& s.load_duration == Some(o.load_duration)
    &&& s.prompt_eval_count == Some(token_estimate(byte_len(prompt)))
    &&& s.prompt_eval_duration == Some(o.prompt_eval_duration)
    &&& s.eval_count == Some(token_estimate(byte_len(o.text@)))
    &&& s.eval_duration == Some(
        (o.total_duration - o.load_duration - o.prompt_eval_duration) as u64,
    )
}

/// The statistics of a finished generation (see [`stats_spec`]).
pub fn generation_stats(prompt: &str, outcome: &InferenceOutcome) -> (r: GenerationStats)
    requires
        outcome_consistent(*outcome),
    ensures
        stats_spec(r, prompt@, *outcome),
{
    let prompt_eval_count = (prompt.len() / 4) as u32;
    let eval_count = (outcome.text.as_str().len() / 4) as u32;
    let eval_duration = outcome.total_duration - outcome.load_duration
        - outcome.prompt_eval_duration;
    GenerationStats {
        total_duration: Some(outcome.total_duration),
        load_duration: Some(outcome.load_duration),
        prompt_eval_count: Some(prompt_eval_count),
        prompt_eval_duration: Some(outcome.prompt_eval_duration),
        eval_count: Some(eval_count),
        eval_duration: Some(eval_duration),
    }
}

/// The answer to a generate request.
#[derive(Clone, Debug, PartialEq, Eq)]
pub struct GenerateResponse {
    pub model: String,
    pub response: String,
    pub done: bool,
    pub done_reason: Option<String>,
    pub stats: GenerationStats,
}

pub open spec fn is_stop(reason: Option<String>) -> bool {
    reason matches Some(s) && s@ == "stop"@
}

/// `r` answers a generate request for `prompt` to `model` with the outcome:
/// the collected text as it is, done, with reason `stop`.
pub open spec fn generate_spec(r: GenerateResponse, model: Seq<char>, prompt: Seq<char>, o: InferenceOutcome) -> bool {
    &&& r.model@ == model
    &&& r.response@ == o.text@
    &&& r.done
    &&& is_stop(r.done_reason)
    &&& stats_spec(r.stats, prompt, o)
}

/// The answer to a generate request (see [`generate_spec`]).
pub fn generate_response(model: &str, prompt: &str, outcome: &InferenceOutcome) -> (r: GenerateResponse)
    requires
        outcome_consistent(*outcome),
    ensures
        generate_spec(r, model@, prompt@, *outcome),
{
    GenerateResponse {
        model: String::from_str(model),
        response: outcome.text.clone(),
        done: true,
        done_reason: Some(String::from_str("stop")),
        stats: generation_stats(prompt, outcome),
    }
}

/// The answer given when a chat produced nothing.
pub open spec fn empty_chat_reply() -> Seq<char> {
    "I apologize, but I couldn't generate a response. Please try again."@
}

/// The content of a chat answer: the reply trimmed, or the apology when
/// nothing is left.
pub open spec fn chat_content_spec(raw: Seq<char>) -> Seq<char> {
    if trim(raw).len() == 0 {
        empty_chat_reply()
    } else {
        trim(raw)
    }
}

/// The content of a chat answer (see [`chat_content_spec`]).
pub fn chat_content(raw: &str) -> (r: String)
    ensures
        r@ == chat_content_spec(raw@),
{
    let t = trim_str(raw);
    if t.as_str().is_empty() {
        String::from_str("I apologize, but I couldn't generate a response. Please try again.")
    } else {
        t
    }
}

/// A chat answer is never empty and never starts or ends with white space.
pub proof fn lemma_chat_content(raw: Seq<char>)
    ensures
        chat_content_spec(raw).len() > 0,
        trim(chat_content_spec(raw)) == chat_content_spec(raw),
        !is_white_space(chat_content_spec(raw)[0]),
        !is_white_space(chat_content_spec(raw).last()),
{
    reveal_strlit("I apologize, but I couldn't generate a response. Please try again.");
    let e = empty_chat_reply();
    lemma_trim_shape(raw);
    lemma_trim_idempotent(raw);
    if trim(raw).len() == 0 {
        assert(!is_white_space(e[0]));
        assert(!is_white_space(e.last()));
        assert(crate::text::leading_ws(e) == 0);
        assert(crate::text::trailing_ws(e) == 0);
        assert(e.skip(0) =~= e);
        assert(e.take(e.len() as int) =~= e);
    }
}

/// The answer to a chat request.
#[derive(Clone, Debug, PartialEq, Eq)]
pub struct ChatResponse {
    pub model: String,
    pub created_at: String,
    pub message: Message,
    pub done: bool,
    pub done_reason: Option<String>,
    pub stats: GenerationStats,
}

pub open spec fn chat_response_spec(
    r: ChatResponse,
    model: Seq<char>,
    prompt: Seq<char>,
    o: InferenceOutcome,
    created_at: Seq<char>,
) -> bool {
    &&& r.model@ == model
    &&& r.created_at@ == created_at
    &&& r.message.role@ == "assistant"@
    &&& r.message.content@ == chat_content_spec(o.text@)
    &&& r.done
    &&& is_stop(r.done_reason)
    &&& stats_spec(r.stats, prompt, o)
}

/// The answer to a chat request, stamped with the given time.
pub fn chat_response_at(model: &str, prompt: &str, outcome: &InferenceOutcome, created_at: String) -> (r: ChatResponse)
    requires
        outcome_consistent(*outcome),
    ensures
        chat_response_spec(r, model@, prompt@, *outcome, created_at@),
{
    ChatResponse {
        model: String::from_str(model),
        created_at,
        message: Message {
            role: String::from_str("assistant"),
            content: chat_content(outcome.text.as_str()),
        },
        done: true,
        done_reason: Some(String::from_str("stop")),
        stats: generation_stats(prompt, outcome),
    }
}

/// The answer to a chat request, stamped with the current time; `None`
/// when the clock cannot be read or rendered.
pub fn chat_response(model: &str, prompt: &str, outcome: &InferenceOutcome) -> (r: Option<ChatResponse>)
    requires
        outcome_consistent(*outcome),
    ensures
        r matches Some(resp) ==> chat_response_spec(resp, model@, prompt@, *outcome, resp.created_at@)
            && is_clock_text(resp.created_at@, 0),
{
    match now_rfc3339() {
        Some(t) => Some(chat_response_at(model, prompt, outcome, t)),
        None => None,
    }
}

/// One message in the OpenAI shape.
#[derive(Clone, Debug, PartialEq, Eq)]
pub struct OpenAIMessage {
    pub role: String,
    pub content: String,
}

/// A chat request in the Ollama shape (its floating-point sampling
/// options are handled by the caller).
#[derive(Clone, Debug, PartialEq, Eq)]
pub struct ChatRequest {
    pub model: String,
    pub messages: Vec<Message>,
    pub stream: Option<bool>,
    pub options: Option<TokenOptions>,
}

/// `r` is the Ollama request for an OpenAI chat request: the same model and
/// messages, the OpenAI `max_tokens`, no `top_k`.
pub open spec fn converted_from_openai(
    r: ChatRequest,
    model: Seq<char>,
    messages: Seq<OpenAIMessage>,
    stream: Option<bool>,
    max_tokens: Option<i32>,
) -> bool {
    &&& r.model@ == model
    &&& r.messages.len() == messages.len()
    &&& forall|i: int|
        #![trigger r.messages@[i]]
        0 <= i < messages.len() ==> r.messages@[i].role@ == messages[i].role@
            && r.messages@[i].content@ == messages[i].content@
    &&& r.stream == stream
    &&& r.options == Some(TokenOptions { max_tokens, top_k: None })
}

/// The Ollama request for an OpenAI chat request (see [`converted_from_openai`]).
pub fn chat_request_from_openai(
    model: &str,
    messages: &Vec<OpenAIMessage>,
    stream: Option<bool>,
    max_tokens: Option<i32>,
) -> (r: ChatRequest)
    ensures
        converted_from_openai(r, model@, messages@, stream, max_tokens),
{
    let mut converted: Vec<Message> = Vec::new();
    let n = messages.len();
    for i in 0..n
        invariant
            n == messages.len(),
            converted.len() == i,
            forall|j: int|
                #![trigger converted@[j]]
                0 <= j < i ==> converted@[j].role@ == messages@[j].role@ && converted@[j].content@
                    == messages@[j].content@,
    {
        converted.push(
            Message { role: messages[i].role.clone(), content: messages[i].content.clone() },
        );
    }
    ChatRequest {
        model: String::from_str(model),
        messages: converted,
        stream,
        options: Some(TokenOptions { max_tokens, top_k: None }),
    }
}

/// One choice of an OpenAI answer.
#[derive(Clone, Debug, PartialEq, Eq)]
pub struct OpenAIChoice {
    pub index: i32,
    pub message: OpenAIMessage,
    pub finish_reason: String,
}

/// Token usage of an OpenAI answer.
#[derive(Clone, Copy, Debug, PartialEq, Eq)]
pub struct OpenAIUsage {
    pub prompt_tokens: u32,
    pub completion_tokens: u32,
    pub total_tokens: u32,
}

/// The answer to an OpenAI chat request.
#[derive(Clone, Debug, PartialEq, Eq)]
pub struct OpenAIChatResponse {
    pub id: String,
    pub object: String,
    pub created: u64,
    pub model: String,
    pub choices: Vec<OpenAIChoice>,
    pub usage: OpenAIUsage,
}

pub open spec fn count_or_zero(c: Option<u32>) -> u32 {
    match c {
        Some(v) => v,
        None => 0,
    }
}

/// The token counts of the chat answer add up without overflow.
pub open spec fn usage_fits(chat: ChatResponse) -> bool {
    count_or_zero(chat.stats.prompt_eval_count) + count_or_zero(chat.stats.eval_count)
        <= u32::MAX
}

pub open spec fn openai_spec(
    r: OpenAIChatResponse,
    model: Seq<char>,
    chat: ChatResponse,
    content: Seq<char>,
    id: Seq<char>,
    created: u64,
) -> bool {
    &&& r.id@ == id
    &&& r.object@ == "chat.completion"@
    &&& r.created == created
    &&& r.model@ == model
    &&& r.choices.len() == 1
    &&& r.choices@[0].index == 0
    &&& r.choices@[0].message.role@ == chat.message.role@
    &&& r.choices@[0].message.content@ == content
    &&& r.choices@[0].finish_reason@ == "stop"@
    &&& r.usage.prompt_tokens == count_or_zero(chat.stats.prompt_eval_count)
    &&& r.usage.completion_tokens == count_or_zero(chat.stats.eval_count)
    &&& r.usage.total_tokens == r.usage.prompt_tokens + r.usage.completion_tokens
}

/// The OpenAI answer for a chat answer, with the given (cleaned) content,
/// identifier and creation time.
pub fn openai_response_at(
    model: &str,
    chat: &ChatResponse,
    content: String,
    id: String,
    created: u64,
) -> (r: OpenAIChatResponse)
    requires
        usage_fits(*chat),
    ensures
        openai_spec(r, model@, *chat, content@, id@, created),
{
    let prompt_tokens = match chat.stats.prompt_eval_count {
        Some(v) => v,
        None => 0,
    };
    let completion_tokens = match chat.stats.eval_count {
        Some(v) => v,
        None => 0,
    };
    let mut choices: Vec<OpenAIChoice> = Vec::new();
    choices.push(
        OpenAIChoice {
            index: 0,
            message: OpenAIMessage { role: chat.message.role.clone(), content },
            finish_reason: String::from_str("stop"),
        },
    );
    OpenAIChatResponse {
        id,
        object: String::from_str("chat.completion"),
        created,
        model: String::from_str(model),
        choices,
        usage: OpenAIUsage {
            prompt_tokens,
            completion_tokens,
            total_tokens: prompt_tokens + completion_tokens,
        },
    }
}

/// The OpenAI answer for a chat answer: the content cleaned of reasoning,
/// a fresh `chatcmpl-` identifier, the current Unix time. `None` when the
/// cleaning expressions do not compile, the random source fails, or the
/// clock reads before 1970.
pub fn openai_response(model: &str, chat: &ChatResponse) -> (r: Option<OpenAIChatResponse>)
    requires
        usage_fits(*chat),
    ensures
        !cleaner_patterns_compile() ==> r is None,
        r matches Some(resp) ==> {
            &&& openai_spec(
                resp,
                model@,
                *chat,
                finish_reply_spec(strip_reasoning_spec(chat.message.content@)),
                resp.id@,
                resp.created,
            )
            &&& exists|b: Seq<u8>| b.len() == 16 && resp.id@ == completion_id_spec(b)
            &&& resp.id@.len() == 41
            &&& resp.id@.subrange(0, 9) == completion_prefix()
            &&& forall|i: int| 9 <= i < 41 ==> is_lower_hex_digit(#[trigger] resp.id@[i])
        },
{
    let content = match clean_response_content(chat.message.content.as_str()) {
        Some(c) => c,
        None => {
            return None;
        },
    };
    let id = match new_completion_id() {
        Some(id) => id,
        None => {
            return None;
        },
    };
    let created = match unix_time_secs() {
        Some(t) => t,
        None => {
            return None;
        },
    };
    Some(openai_response_at(model, chat, content, id, created))
}


/// A chat is answered like a generate request for the chat's prompt with the
/// same outcome: the same model and statistics, and as content the generated
/// text trimmed (or the apology when nothing is left).
pub proof fn lemma_chat_answered_like_generate(
    c: ChatResponse,
    g: GenerateResponse,
    model: Seq<char>,
    prompt: Seq<char>,
    o: InferenceOutcome,
    created_at: Seq<char>,
)
    requires
        chat_response_spec(c, model, prompt, o, created_at),
        generate_spec(g, model, prompt, o),
    ensures
        c.model@ == g.model@,
        c.message.content@ == chat_content_spec(g.response@),
        c.stats == g.stats,
        c.done == g.done,
        c.done_reason matches Some(a) && g.done_reason matches Some(b) && a@ == b@,
{
}

/// The contents of OpenAI messages.
pub open spec fn openai_contents(messages: Seq<OpenAIMessage>) -> Seq<Seq<char>> {
    messages.map_values(|m: OpenAIMessage| m.content@)
}

/// An OpenAI chat request is a chat request: its converted messages give the
/// prompt made of the OpenAI contents joined by blank lines, and it is
/// admitted or refused, with the same status, exactly as a chat with those
/// messages and the OpenAI `max_tokens` (and the default `top_k`).
pub proof fn lemma_openai_request_is_a_chat(
    r: ChatRequest,
    model: Seq<char>,
    messages: Seq<OpenAIMessage>,
    stream: Option<bool>,
    max_tokens: Option<i32>,
    model_found: bool,
    cfg: ServerConfig,
)
    requires
        converted_from_openai(r, model, messages, stream, max_tokens),
    ensures
        chat_prompt_spec(r.messages@) == join_with(openai_contents(messages), "\n\n"@),
        admission(model_found, chat_prompt_spec(r.messages@), r.options, cfg) == admission(
            model_found,
            join_with(openai_contents(messages), "\n\n"@),
            Some(TokenOptions { max_tokens, top_k: None }),
            cfg,
        ),
        requested_top_k(r.options) == 40,
{
    assert(contents(r.messages@) =~= openai_contents(messages));
}

} // verus!
