//! The frontend: who and what is admitted, the job that a request becomes, and
//! what its results are turned into for the caller.
use vstd::prelude::*;

use crate::access::{authenticate, refuse, ApiKeys, ErrorReply};
#[allow(unused_imports)]
use crate::access::{authenticated, header_text};
use crate::budget::{
    decide_budget, ApproxTokenCounter, BudgetPolicy, BudgetRequest, ChatMessage, ModelBudget,
    Prompt,
};
#[allow(unused_imports)]
use crate::budget::{
    clamped_output, excess_words, message_views, prompt_estimate, token_word, BudgetError,
    MessageView, PromptView, TokenCounter,
};
use crate::cache::cache_key;
#[allow(unused_imports)]
use crate::cache::cache_name;
use crate::ids::uuid_text;
#[allow(unused_imports)]
use crate::ids::hyphenated;
use crate::streams::{
    CacheMetadata, GenerationJob, QuotaError, QuotaReservation, ResultEntry, ResultEvent,
    SCHEMA_VERSION,
};
use crate::text::{chars_of, join, parse_u64, same_text, string_of, take_chars};
#[allow(unused_imports)]
use crate::text::{
    decimal, joined, law_numbers_are_read_as_written, prefix_of_len, texts, unsigned_value,
};

verus! {

/// How many characters of a prompt name it in the cache.
pub const MAX_PREFIX_CHARS: usize = 4096;

/// What a caller asks to be generated. The temperature is carried beside it.
#[derive(Debug, PartialEq, Eq)]
pub struct GenerateRequest {
    pub model: String,
    pub messages: Vec<ChatMessage>,
    pub prompt: String,
    pub max_tokens: u64,
    pub stop: Vec<String>,
}

/// What a caller gets who waits for the whole text.
#[derive(Debug, PartialEq, Eq)]
pub struct GenerateResponse {
    pub request_id: String,
    pub model: String,
    pub text: String,
    pub prompt_tokens: u64,
    pub generated_tokens: u64,
    pub finish_reason: String,
}

/// What a caller gets piece by piece.
#[derive(Debug, PartialEq, Eq)]
pub struct GenerationEvent {
    pub request_id: String,
    pub model: String,
    pub delta: String,
    pub generated_tokens: u64,
    pub finish_reason: String,
    pub event_id: String,
    pub attempt_id: String,
    pub prompt_tokens: u64,
    pub terminal: bool,
}

/// An event over numbers and text.
#[verifier::ext_equal]
pub struct EventView {
    pub request_id: Seq<char>,
    pub model: Seq<char>,
    pub delta: Seq<char>,
    pub generated_tokens: u64,
    pub finish_reason: Seq<char>,
    pub event_id: Seq<char>,
    pub attempt_id: Seq<char>,
    pub prompt_tokens: u64,
    pub terminal: bool,
}

impl View for GenerationEvent {
    type V = EventView;

    open spec fn view(&self) -> EventView {
        EventView {
            request_id: self.request_id@,
            model: self.model@,
            delta: self.delta@,
            generated_tokens: self.generated_tokens,
            finish_reason: self.finish_reason@,
            event_id: self.event_id@,
            attempt_id: self.attempt_id@,
            prompt_tokens: self.prompt_tokens,
            terminal: self.terminal,
        }
    }
}

/// A wish to follow a generation, from its start or after an event.
#[derive(Debug, PartialEq, Eq)]
pub struct SubscribeGenerationRequest {
    pub request_id: String,
    pub after_event_id: Option<String>,
}

/// The model that a frontend serves.
#[derive(Debug, PartialEq, Eq)]
pub struct ModelConfig {
    pub id: String,
    pub revision: String,
    pub endpoint: String,
    pub tokenizer_id: String,
    pub tokenizer_revision: String,
    pub context_limit: usize,
    pub default_max_tokens: usize,
    pub max_output_tokens: usize,
}

/// The revision of a model or tokenizer that none is given for.
pub fn default_revision() -> (revision: String)
    ensures
        revision@ == "main"@,
{
    "main".to_string()
}

/// The times of a frontend's streams, in seconds.
#[derive(Debug, Clone, Copy, PartialEq, Eq, Structural)]
pub struct StreamSettings {
    pub active_ttl_seconds: u64,
    pub result_retention_seconds: u64,
    pub lease_seconds: u64,
    pub generation_timeout_seconds: u64,
}

impl Default for StreamSettings {
    fn default() -> (settings: Self)
        ensures
            settings.active_ttl_seconds == 3_600,
            settings.result_retention_seconds == 600,
            settings.lease_seconds == 60,
            settings.generation_timeout_seconds == 300,
    {
        StreamSettings {
            active_ttl_seconds: 3_600,
            result_retention_seconds: 600,
            lease_seconds: 60,
            generation_timeout_seconds: 300,
        }
    }
}

/// What a runtime is asked for. The temperature is carried beside it.
#[derive(Debug, PartialEq, Eq)]
pub struct RuntimeRequest {
    pub model: String,
    pub messages: Option<Vec<ChatMessage>>,
    pub prompt: Option<String>,
    pub max_tokens: usize,
    pub stop: Vec<String>,
    pub stream: bool,
}

/// A request that has passed every check which needs no broker.
#[derive(Debug, PartialEq, Eq)]
pub struct Admitted {
    pub api_key: String,
    pub model: String,
    pub prompt_tokens: u64,
    pub max_tokens: usize,
}

/// An admitted request over numbers and text.
#[verifier::ext_equal]
pub struct AdmittedView {
    pub api_key: Seq<char>,
    pub model: Seq<char>,
    pub prompt_tokens: nat,
    pub max_tokens: nat,
}

impl View for Admitted {
    type V = AdmittedView;

    open spec fn view(&self) -> AdmittedView {
        AdmittedView {
            api_key: self.api_key@,
            model: self.model@,
            prompt_tokens: self.prompt_tokens as nat,
            max_tokens: self.max_tokens as nat,
        }
    }
}

/// A request whose job is on its way.
#[derive(Debug, PartialEq, Eq)]
pub struct Admission {
    pub request_id: String,
    pub request_entry_id: String,
    pub reservation_id: String,
    pub prompt_tokens: u64,
}

/// A request that failed after its quota was reserved: the reservation is to
/// be cancelled before the caller is told.
#[derive(Debug, PartialEq, Eq)]
pub struct Abandoned {
    pub cancel_reservation: String,
    pub reply: ErrorReply,
}

/// Messages one for one.
pub fn copy_messages(messages: &Vec<ChatMessage>) -> (copy: Vec<ChatMessage>)
    ensures
        copy@ == messages@,
{
    let mut copy: Vec<ChatMessage> = Vec::new();
    let mut i: usize = 0;
    while i < messages.len()
        invariant
            i <= messages@.len(),
            copy@ == messages@.take(i as int),
        decreases messages@.len() - i,
    {
        copy.push(messages[i].clone());
        i += 1;
        assert(copy@ =~= messages@.take(i as int));
    }
    assert(messages@.take(i as int) =~= messages@);
    copy
}

fn copy_texts(items: &Vec<String>) -> (copy: Vec<String>)
    ensures
        texts(copy@) == texts(items@),
{
    let mut copy: Vec<String> = Vec::new();
    let mut i: usize = 0;
    while i < items.len()
        invariant
            i <= items@.len(),
            copy@.len() == i,
            forall|k: int| 0 <= k < i ==> (#[trigger] copy@[k])@ == items@[k]@,
        decreases items@.len() - i,
    {
        copy.push(items[i].clone());
        i += 1;
    }
    assert(texts(copy@) =~= texts(items@));
    copy
}

/// The prompt of a request: its messages, or else its text if it has any.
pub open spec fn prompt_asked(request: GenerateRequest) -> Option<PromptView> {
    if request.messages@.len() > 0 {
        Some(PromptView::Chat(message_views(request.messages@)))
    } else if request.prompt@.len() > 0 {
        Some(PromptView::Text(request.prompt@))
    } else {
        None
    }
}

/// The prompt of a request.
pub fn request_prompt(request: &GenerateRequest) -> (r: Result<Prompt, &'static str>)
    ensures
        match r {
            Ok(prompt) => prompt_asked(*request) == Some(prompt@),
            Err(message) => prompt_asked(*request) is None && message@
                == "either messages or prompt is required"@,
        },
{
    if request.messages.len() > 0 {
        return Ok(Prompt::Chat(copy_messages(&request.messages)));
    }
    if request.prompt.as_str().is_empty() {
        return Err("either messages or prompt is required");
    }
    Ok(Prompt::Text(request.prompt.clone()))
}

/// A message as two lines.
pub open spec fn message_lines(message: MessageView) -> Seq<char> {
    message.role + "\n"@ + message.content
}

/// A prompt's text as the cache sees it.
pub open spec fn cached_text(request: GenerateRequest) -> Seq<char> {
    if request.messages@.len() == 0 {
        request.prompt@
    } else {
        joined(
            message_views(request.messages@).map_values(|m: MessageView| message_lines(m)),
            "\n"@,
        )
    }
}

/// The beginning of a prompt, by which the cache knows it.
pub fn prompt_prefix(request: &GenerateRequest) -> (prefix: String)
    ensures
        prefix@ == prefix_of_len(cached_text(*request), MAX_PREFIX_CHARS as nat),
{
    if request.messages.len() == 0 {
        return take_chars(request.prompt.as_str(), MAX_PREFIX_CHARS);
    }
    let ghost lines = message_views(request.messages@).map_values(
        |m: MessageView| message_lines(m),
    );
    let mut parts: Vec<String> = Vec::new();
    let mut i: usize = 0;
    while i < request.messages.len()
        invariant
            i <= request.messages@.len(),
            lines == message_views(request.messages@).map_values(
                |m: MessageView| message_lines(m),
            ),
            texts(parts@) == lines.take(i as int),
        decreases request.messages@.len() - i,
    {
        let mut part = request.messages[i].role.clone();
        part.append("\n");
        part.append(request.messages[i].content.as_str());
        let ghost before = texts(parts@);
        parts.push(part);
        assert(texts(parts@) =~= before.push(part@));
        assert(lines.take(i + 1) =~= lines.take(i as int).push(lines[i as int]));
        i += 1;
    }
    assert(lines.take(i as int) =~= lines);
    let value = join(&parts, "\n");
    take_chars(value.as_str(), MAX_PREFIX_CHARS)
}

/// Whether a text is the identifier of a stream entry: two numbers of 64 bits
/// with a hyphen between them.
pub open spec fn stream_id(value: Seq<char>) -> bool {
    exists|i: int|
        0 <= i < value.len() && #[trigger] value[i] == '-' && fits_64_bits(value.take(i))
            && fits_64_bits(value.skip(i + 1))
}

/// Whether a text is a number of 64 bits.
pub open spec fn fits_64_bits(text: Seq<char>) -> bool {
    match unsigned_value(text) {
        Some(n) => n <= u64::MAX,
        None => false,
    }
}

/// No number holds a hyphen.
proof fn lemma_numbers_hold_no_hyphen(text: Seq<char>, i: int)
    requires
        0 <= i < text.len(),
        text[i] == '-',
    ensures
        !fits_64_bits(text),
{
    let d = crate::text::without_plus(text);
    let k = if d.len() < text.len() {
        i - 1
    } else {
        i
    };
    if unsigned_value(text) is Some {
        assert(crate::text::is_digit(d[k]));
    }
}

/// Tests whether a text is the identifier of a stream entry.
pub fn valid_stream_id(value: &str) -> (r: bool)
    ensures
        r == stream_id(value@),
{
    let chars = chars_of(value);
    let mut i: usize = 0;
    while i < chars.len()
        invariant
            i <= chars@.len(),
            chars@ == value@,
            forall|k: int| 0 <= k < i ==> #[trigger] value@[k] != '-',
        decreases chars@.len() - i,
    {
        if chars[i] == '-' {
            let milliseconds = string_of(&chars, 0, i);
            let sequence = string_of(&chars, i + 1, chars.len());
            assert(value@.take(i as int) =~= milliseconds@);
            assert(value@.skip(i + 1) =~= sequence@);
            let valid = parse_u64(milliseconds.as_str()).is_some() && parse_u64(
                sequence.as_str(),
            ).is_some();
            proof {
                if stream_id(value@) {
                    let k = choose|k: int|
                        0 <= k < value@.len() && #[trigger] value@[k] == '-' && fits_64_bits(
                            value@.take(k),
                        ) && fits_64_bits(value@.skip(k + 1));
                    if k > i {
                        assert(value@.take(k)[i as int] == '-');
                        lemma_numbers_hold_no_hyphen(value@.take(k), i as int);
                    }
                    assert(k == i);
                } else {
                    assert(value@[i as int] == '-');
                }
            }
            return valid;
        }
        i += 1;
    }
    false
}

/// The output that a request asks for, where it asks for any.
pub open spec fn output_wanted(max_tokens: u64) -> Option<usize> {
    if max_tokens > 0 {
        Some(max_tokens as usize)
    } else {
        None
    }
}

/// What becomes of a request before the broker is asked: turned away for its
/// key, for having no prompt, for its model, for the model's limits or for what
/// it would take, in this order; or admitted.
pub open spec fn admission(
    model: ModelConfig,
    keys: Set<Seq<char>>,
    authorization: Option<Seq<char>>,
    request: GenerateRequest,
) -> Result<AdmittedView, (u16, Seq<char>)> {
    match (authenticated(keys, authorization), prompt_asked(request)) {
        (Err(reply), _) => Err(reply),
        (_, None) => Err((400, "either messages or prompt is required"@)),
        (Ok(api_key), Some(prompt)) => {
            let tokens = token_word(prompt_estimate(prompt)) as nat;
            let asked = clamped_output(
                output_wanted(request.max_tokens),
                model.default_max_tokens,
                model.max_output_tokens,
            );
            if request.model@.len() > 0 && request.model@ != model.id@ {
                Err((404, "model is not registered"@))
            } else if model.context_limit == 0 {
                Err((400, BudgetError::InvalidContextLimit.words()))
            } else if model.max_output_tokens == 0 {
                Err((400, BudgetError::InvalidMaxOutputTokens.words()))
            } else if tokens + asked > model.context_limit {
                Err((400, excess_words(tokens, asked, model.context_limit as nat)))
            } else {
                Ok(
                    AdmittedView {
                        api_key,
                        model: model.id@,
                        prompt_tokens: tokens,
                        max_tokens: asked,
                    },
                )
            }
        },
    }
}

/// Checks a request before the broker is asked.
pub fn check_admission(
    model: &ModelConfig,
    keys: &ApiKeys,
    authorization: Option<&str>,
    request: &GenerateRequest,
) -> (r: Result<Admitted, ErrorReply>)
    ensures
        admission(*model, keys@, header_text(authorization), *request) == match r {
            Ok(admitted) => Ok::<AdmittedView, (u16, Seq<char>)>(admitted@),
            Err(reply) => Err::<AdmittedView, (u16, Seq<char>)>(reply@),
        },
{
    let api_key = match authenticate(keys, authorization) {
        Ok(key) => key,
        Err(reply) => {
            return Err(reply);
        },
    };
    let prompt = match request_prompt(request) {
        Ok(prompt) => prompt,
        Err(message) => {
            return Err(refuse(400, message));
        },
    };
    if !request.model.as_str().is_empty() && !same_text(
        request.model.as_str(),
        model.id.as_str(),
    ) {
        return Err(refuse(404, "model is not registered"));
    }
    let requested_max_tokens: Option<usize> = if request.max_tokens > 0 {
        Some(request.max_tokens as usize)
    } else {
        None
    };
    let decision = match decide_budget(
        BudgetRequest {
            prompt,
            requested_max_tokens,
            policy: BudgetPolicy::StrictReject,
            model: ModelBudget {
                model: model.id.clone(),
                context_limit: model.context_limit,
                default_max_tokens: model.default_max_tokens,
                max_output_tokens: model.max_output_tokens,
            },
        },
        &ApproxTokenCounter,
    ) {
        Ok(decision) => decision,
        Err(error) => {
            return Err(ErrorReply { status: 400, message: error.message() });
        },
    };
    if !decision.admitted {
        return Err(ErrorReply { status: 400, message: decision.reason });
    }
    Ok(
        Admitted {
            api_key,
            model: model.id.clone(),
            prompt_tokens: decision.prompt_tokens as u64,
            max_tokens: decision.admitted_max_tokens,
        },
    )
}

/// The reservation that the broker made for an admitted request, or what the
/// caller is told where it made none.
pub fn reserved(outcome: Result<QuotaReservation, QuotaError>) -> (r: Result<
    QuotaReservation,
    ErrorReply,
>)
    ensures
        match outcome {
            Ok(reservation) => r == Ok::<QuotaReservation, ErrorReply>(reservation),
            Err(error) => r matches Err(reply) && reply@ == (429u16, error.words()),
        },
{
    match outcome {
        Ok(reservation) => Ok(reservation),
        Err(error) => Err(ErrorReply { status: 429, message: error.message() }),
    }
}

/// Whether a runtime is asked for what an admitted request asks for.
pub open spec fn asks_for(
    asked: RuntimeRequest,
    request: GenerateRequest,
    admitted: AdmittedView,
) -> bool {
    &&& asked.model@ == admitted.model
    &&& match asked.messages {
        Some(messages) => request.messages@.len() > 0 && messages@ == request.messages@,
        None => request.messages@.len() == 0,
    }
    &&& match asked.prompt {
        Some(prompt) => request.prompt@.len() > 0 && prompt@ == request.prompt@,
        None => request.prompt@.len() == 0,
    }
    &&& asked.max_tokens == admitted.max_tokens
    &&& texts(asked.stop@) == texts(request.stop@)
    &&& asked.stream
}

/// What a runtime is asked for on behalf of an admitted request.
pub fn runtime_request(request: &GenerateRequest, admitted: &Admitted) -> (r: RuntimeRequest)
    ensures
        asks_for(r, *request, admitted@),
{
    RuntimeRequest {
        model: admitted.model.clone(),
        messages: if request.messages.len() > 0 {
            Some(copy_messages(&request.messages))
        } else {
            None
        },
        prompt: if request.prompt.as_str().is_empty() {
            None
        } else {
            Some(request.prompt.clone())
        },
        max_tokens: admitted.max_tokens,
        stop: copy_texts(&request.stop),
        stream: true,
    }
}

/// A time plus a span, at most the largest that 64 bits hold.
pub open spec fn deadline(now_ms: u64, timeout_ms: u64) -> u64 {
    if now_ms + timeout_ms <= u64::MAX {
        (now_ms + timeout_ms) as u64
    } else {
        u64::MAX
    }
}

/// Whether a job is the one for an admitted request, under an identifier and
/// at a time.
pub open spec fn is_job_for(
    job: GenerationJob,
    model: ModelConfig,
    request: GenerateRequest,
    admitted: AdmittedView,
    reservation_id: Seq<char>,
    request_json: Seq<u8>,
    timeout_ms: u64,
    id: u128,
    now_ms: u64,
) -> bool {
    &&& job.schema_version == SCHEMA_VERSION
    &&& job.request_id@ == hyphenated(id)
    &&& job.model_id@ == admitted.model
    &&& job.model_revision@ == model.revision@
    &&& job.model_endpoint@ == model.endpoint@
    &&& job.request_json@ == request_json
    &&& job.deadline_unix_ms == deadline(now_ms, timeout_ms)
    &&& job.reservation_id@ == reservation_id
    &&& job.cache matches Some(cache) && {
        &&& cache.cache_key@ == cache_name(
            admitted.model,
            prefix_of_len(cached_text(request), MAX_PREFIX_CHARS as nat),
        )
        &&& cache.prefix_tokens_estimate == admitted.prompt_tokens
    }
}

/// The job for an admitted request, under an identifier and at a time.
pub fn generation_job_at(
    model: &ModelConfig,
    request: &GenerateRequest,
    admitted: &Admitted,
    reservation_id: &str,
    request_json: Vec<u8>,
    timeout_ms: u64,
    id: u128,
    now_ms: u64,
) -> (job: GenerationJob)
    ensures
        is_job_for(
            job,
            *model,
            *request,
            admitted@,
            reservation_id@,
            request_json@,
            timeout_ms,
            id,
            now_ms,
        ),
{
    let prefix = prompt_prefix(request);
    GenerationJob {
        schema_version: SCHEMA_VERSION,
        request_id: uuid_text(id),
        model_id: admitted.model.clone(),
        model_revision: model.revision.clone(),
        model_endpoint: model.endpoint.clone(),
        request_json,
        deadline_unix_ms: now_ms.saturating_add(timeout_ms),
        reservation_id: reservation_id.to_string(),
        cache: Some(
            CacheMetadata {
                cache_key: cache_key(admitted.model.as_str(), prefix.as_str()),
                prefix_tokens_estimate: admitted.prompt_tokens,
            },
        ),
    }
}

/// The admission of a request whose job was published, with the entry that it
/// is in. Where it could not be, the reservation is given back.
pub fn dispatched(
    admitted: &Admitted,
    request_id: String,
    reservation_id: String,
    entry_id: Option<String>,
) -> (r: Result<Admission, Abandoned>)
    ensures
        match entry_id {
            Some(entry) => r == Ok::<Admission, Abandoned>(
                Admission {
                    request_id,
                    request_entry_id: entry,
                    reservation_id,
                    prompt_tokens: admitted.prompt_tokens,
                },
            ),
            None => r matches Err(abandoned) && abandoned.cancel_reservation == reservation_id
                && abandoned.reply@ == (502u16, "failed to dispatch generation"@),
        },
{
    match entry_id {
        Some(request_entry_id) => Ok(
            Admission {
                request_id,
                request_entry_id,
                reservation_id,
                prompt_tokens: admitted.prompt_tokens,
            },
        ),
        None => Err(
            Abandoned {
                cancel_reservation: reservation_id,
                reply: refuse(502, "failed to dispatch generation"),
            },
        ),
    }
}

/// Checks a wish to follow a generation: which one, and after which event.
pub fn check_subscription(request: SubscribeGenerationRequest) -> (r: Result<
    (String, Option<String>),
    ErrorReply,
>)
    ensures
        match r {
            Ok((request_id, cursor)) => request_id == request.request_id && request_id@.len() > 0
                && match request.after_event_id {
                Some(id) if id@.len() > 0 => cursor == Some(id) && stream_id(id@),
                _ => cursor is None,
            },
            Err(reply) => if request.request_id@.len() == 0 {
                reply@ == (400u16, "request_id is required"@)
            } else {
                reply@ == (400u16, "invalid after_event_id"@) && (
                request.after_event_id matches Some(id) && id@.len() > 0 && !stream_id(id@))
            },
        },
{
    if request.request_id.as_str().is_empty() {
        return Err(refuse(400, "request_id is required"));
    }
    match request.after_event_id {
        Some(id) => if id.as_str().is_empty() {
            Ok((request.request_id, None))
        } else if !valid_stream_id(id.as_str()) {
            Err(refuse(400, "invalid after_event_id"))
        } else {
            Ok((request.request_id, Some(id)))
        },
        None => Ok((request.request_id, None)),
    }
}

/// What a subscriber is told once the status was looked for: nothing where it
/// was found. `None` stands for a broker that gave no answer.
pub fn inspected(found: Option<bool>) -> (r: Option<ErrorReply>)
    ensures
        match found {
            Some(true) => r is None,
            Some(false) => r matches Some(reply) && reply@ == (
                404u16,
                "generation is unknown or expired"@,
            ),
            None => r matches Some(reply) && reply@ == (502u16, "failed to inspect generation"@),
        },
{
    match found {
        Some(true) => None,
        Some(false) => Some(refuse(404, "generation is unknown or expired")),
        None => Some(refuse(502, "failed to inspect generation")),
    }
}

/// What a caller is told whose results cannot be waited for.
pub fn results_unavailable() -> (reply: ErrorReply)
    ensures
        reply@ == (502u16, "result stream unavailable"@),
{
    refuse(502, "result stream unavailable")
}

/// What waiting for a result gave.
#[derive(Debug, PartialEq, Eq)]
pub enum ReadOutcome {
    Entry(ResultEntry),
    TimedOut,
    Broken,
}

/// The text of a generation as it grows, and the attempt that it comes from,
/// once one has started.
pub struct Collector {
    text: String,
    current_attempt: Option<String>,
}

/// What has been collected.
#[verifier::ext_equal]
pub struct Collected {
    pub text: Seq<char>,
    pub attempt: Option<Seq<char>>,
}

impl View for Collector {
    type V = Collected;

    closed spec fn view(&self) -> Collected {
        Collected { text: self.text@, attempt: crate::streams::opt_text(self.current_attempt) }
    }
}

/// How collecting ends: with the number of tokens and the reason, or with what
/// the caller is told instead.
pub type Ending = Result<(u64, Seq<char>), (u16, Seq<char>)>;

/// Whether an attempt is not the one that text is collected from.
pub open spec fn is_other(state: Collected, attempt: Seq<char>) -> bool {
    state.attempt is Some && state.attempt != Some(attempt)
}

/// What is collected after another outcome, and how collecting ends with it.
/// The start of another attempt discards what was collected, and tokens of
/// another attempt than the current one are left out.
pub open spec fn collecting(state: Collected, outcome: ReadOutcome) -> (Collected, Option<Ending>) {
    match outcome {
        ReadOutcome::TimedOut => (state, Some(Err((504, "generation timed out"@)))),
        ReadOutcome::Broken => (state, Some(Err((502, "result stream failed"@)))),
        ReadOutcome::Entry(entry) => match entry.result.event {
            None => (state, None),
            Some(ResultEvent::AttemptStarted) => {
                let attempt = entry.result.attempt_id@;
                (
                    Collected {
                        text: if is_other(state, attempt) {
                            Seq::empty()
                        } else {
                            state.text
                        },
                        attempt: Some(attempt),
                    },
                    None,
                )
            },
            Some(ResultEvent::Token { text, .. }) => (
                Collected {
                    text: if is_other(state, entry.result.attempt_id@) {
                        state.text
                    } else {
                        state.text + text@
                    },
                    ..state
                },
                None,
            ),
            Some(ResultEvent::Completed { generated_tokens, finish_reason, .. }) => (
                state,
                Some(Ok((generated_tokens, finish_reason@))),
            ),
            Some(ResultEvent::Failed { message, .. }) => (state, Some(Err((502, message@)))),
        },
    }
}

impl Collector {
    /// A collector that has got nothing yet.
    pub fn new() -> (collector: Self)
        ensures
            collector@ == (Collected { text: Seq::empty(), attempt: None }),
    {
        Collector { text: String::new(), current_attempt: None }
    }

    /// Tests whether an attempt is not the one that text is collected from.
    fn is_other_attempt(&self, attempt_id: &str) -> (r: bool)
        ensures
            r == is_other(self@, attempt_id@),
    {
        match &self.current_attempt {
            Some(current) => !same_text(current.as_str(), attempt_id),
            None => false,
        }
    }

    /// Takes an outcome, and says so if it ends the collecting.
    pub fn take(&mut self, outcome: ReadOutcome) -> (r: Option<Result<(u64, String), ErrorReply>>)
        ensures
            collecting(old(self)@, outcome) == (
                final(self)@,
                match r {
                    None => None::<Ending>,
                    Some(Ok(end)) => Some(Ok((end.0, end.1@))),
                    Some(Err(reply)) => Some(Err(reply@)),
                },
            ),
    {
        let entry = match outcome {
            ReadOutcome::TimedOut => {
                return Some(Err(refuse(504, "generation timed out")));
            },
            ReadOutcome::Broken => {
                return Some(Err(refuse(502, "result stream failed")));
            },
            ReadOutcome::Entry(entry) => entry,
        };
        match entry.result.event {
            None => None,
            Some(ResultEvent::AttemptStarted) => {
                if self.is_other_attempt(entry.result.attempt_id.as_str()) {
                    self.text = String::new();
                    assert(self.text@ =~= Seq::empty());
                }
                self.current_attempt = Some(entry.result.attempt_id);
                None
            },
            Some(ResultEvent::Token { text, .. }) => {
                if !self.is_other_attempt(entry.result.attempt_id.as_str()) {
                    self.text.append(text.as_str());
                }
                None
            },
            Some(ResultEvent::Completed { generated_tokens, finish_reason, .. }) => Some(
                Ok((generated_tokens, finish_reason)),
            ),
            Some(ResultEvent::Failed { message, .. }) => Some(
                Err(ErrorReply { status: 502, message }),
            ),
        }
    }

    /// The response to a caller, once collecting has ended well.
    pub fn response(
        self,
        admission: &Admission,
        model: &str,
        generated_tokens: u64,
        finish_reason: String,
    ) -> (r: GenerateResponse)
        ensures
            r.request_id@ == admission.request_id@,
            r.model@ == model@,
            r.text@ == self@.text,
            r.prompt_tokens == admission.prompt_tokens,
            r.generated_tokens == generated_tokens,
            r.finish_reason == finish_reason,
    {
        GenerateResponse {
            request_id: admission.request_id.clone(),
            model: model.to_string(),
            text: self.text,
            prompt_tokens: admission.prompt_tokens,
            generated_tokens,
            finish_reason,
        }
    }
}

/// What is collected after a run of outcomes.
pub open spec fn collected(outcomes: Seq<ReadOutcome>) -> Collected
    decreases outcomes.len(),
{
    if outcomes.len() == 0 {
        Collected { text: Seq::empty(), attempt: None }
    } else {
        collecting(collected(outcomes.drop_last()), outcomes.last()).0
    }
}

/// The text that an outcome adds to an attempt: that of a token of its.
pub open spec fn token_text(outcome: ReadOutcome, attempt: Seq<char>) -> Seq<char> {
    match outcome {
        ReadOutcome::Entry(entry) => match entry.result.event {
            Some(ResultEvent::Token { text, .. }) if entry.result.attempt_id@ == attempt => text@,
            _ => Seq::empty(),
        },
        _ => Seq::empty(),
    }
}

/// The texts of an attempt's tokens, one after the other.
pub open spec fn attempt_text(outcomes: Seq<ReadOutcome>, attempt: Seq<char>) -> Seq<char>
    decreases outcomes.len(),
{
    if outcomes.len() == 0 {
        Seq::empty()
    } else {
        attempt_text(outcomes.drop_last(), attempt) + token_text(outcomes.last(), attempt)
    }
}

/// The attempt that an outcome starts, if it starts one.
pub open spec fn started_by(outcome: ReadOutcome) -> Option<Seq<char>> {
    match outcome {
        ReadOutcome::Entry(entry) => if entry.result.event == Some(ResultEvent::AttemptStarted) {
            Some(entry.result.attempt_id@)
        } else {
            None
        },
        _ => None,
    }
}

/// The attempt that an outcome is a token of, if it is one.
pub open spec fn token_of(outcome: ReadOutcome) -> Option<Seq<char>> {
    match outcome {
        ReadOutcome::Entry(entry) => match entry.result.event {
            Some(ResultEvent::Token { .. }) => Some(entry.result.attempt_id@),
            _ => None,
        },
        _ => None,
    }
}

/// The output of an abandoned attempt is never combined with that of a retry:
/// from the start of another attempt on, and until yet another starts, the text
/// is that of its own tokens alone, whatever else comes between them.
pub proof fn law_attempts_are_not_mixed(
    earlier: Seq<ReadOutcome>,
    start: ReadOutcome,
    attempt: Seq<char>,
    later: Seq<ReadOutcome>,
)
    requires
        is_other(collected(earlier), attempt),
        started_by(start) == Some(attempt),
        forall|i: int|
            0 <= i < later.len() ==> (started_by(#[trigger] later[i]) is None || started_by(
                later[i],
            ) == Some(attempt)),
    ensures
        collected(earlier.push(start) + later) == (Collected {
            text: attempt_text(later, attempt),
            attempt: Some(attempt),
        }),
    decreases later.len(),
{
    let run = earlier.push(start) + later;
    if later.len() == 0 {
        assert(run =~= earlier.push(start));
        assert(run.drop_last() =~= earlier);
    } else {
        let fewer = later.drop_last();
        assert forall|i: int| 0 <= i < fewer.len() implies (started_by(#[trigger] fewer[i]) is None
            || started_by(fewer[i]) == Some(attempt)) by {
            assert(later[i] == fewer[i]);
        }
        law_attempts_are_not_mixed(earlier, start, attempt, fewer);
        assert(run.drop_last() =~= earlier.push(start) + fewer);
        assert(run.last() == later.last());
        assert(started_by(later[later.len() - 1]) is None || started_by(later[later.len() - 1])
            == Some(attempt));
        let before = attempt_text(fewer, attempt);
        assert(before + Seq::<char>::empty() =~= before);
    }
}

/// Whether each attempt starts once, and before its tokens.
pub open spec fn attempts_in_order(outcomes: Seq<ReadOutcome>) -> bool {
    &&& forall|i: int, j: int|
        0 <= i < j < outcomes.len() && (#[trigger] started_by(outcomes[i])) is Some ==> started_by(
            outcomes[i],
        ) != #[trigger] started_by(outcomes[j])
    &&& forall|i: int|
        0 <= i < outcomes.len() && (#[trigger] token_of(outcomes[i])) is Some ==> exists|j: int|
            0 <= j < i && #[trigger] started_by(outcomes[j]) == token_of(outcomes[i])
}

/// The attempt that was started last, if any was.
pub open spec fn last_started(outcomes: Seq<ReadOutcome>) -> Option<Seq<char>>
    decreases outcomes.len(),
{
    if outcomes.len() == 0 {
        None
    } else if started_by(outcomes.last()) is Some {
        started_by(outcomes.last())
    } else {
        last_started(outcomes.drop_last())
    }
}

proof fn lemma_unstarted_text(outcomes: Seq<ReadOutcome>, attempt: Seq<char>)
    requires
        forall|i: int| 0 <= i < outcomes.len() ==> token_of(#[trigger] outcomes[i]) != Some(attempt),
    ensures
        attempt_text(outcomes, attempt) == Seq::<char>::empty(),
    decreases outcomes.len(),
{
    if outcomes.len() > 0 {
        let fewer = outcomes.drop_last();
        assert forall|i: int| 0 <= i < fewer.len() implies token_of(#[trigger] fewer[i]) != Some(
            attempt,
        ) by {
            assert(fewer[i] == outcomes[i]);
        }
        lemma_unstarted_text(fewer, attempt);
        assert(token_of(outcomes[outcomes.len() - 1]) != Some(attempt));
        assert(Seq::<char>::empty() + Seq::<char>::empty() =~= Seq::<char>::empty());
    }
}

proof fn lemma_last_started(outcomes: Seq<ReadOutcome>)
    ensures
        match last_started(outcomes) {
            Some(attempt) => exists|j: int|
                0 <= j < outcomes.len() && #[trigger] started_by(outcomes[j]) == Some(attempt),
            None => forall|j: int|
                0 <= j < outcomes.len() ==> started_by(#[trigger] outcomes[j]) is None,
        },
    decreases outcomes.len(),
{
    if outcomes.len() > 0 {
        let fewer = outcomes.drop_last();
        lemma_last_started(fewer);
        let n = outcomes.len() - 1;
        assert(outcomes[n] == outcomes.last());
        assert forall|j: int| 0 <= j < n implies outcomes[j] == fewer[j] by {}
        match last_started(outcomes) {
            Some(attempt) => {
                if started_by(outcomes.last()) is Some {
                    assert(started_by(outcomes[n]) == Some(attempt));
                } else {
                    let j = choose|j: int|
                        0 <= j < fewer.len() && #[trigger] started_by(fewer[j]) == Some(attempt);
                    assert(started_by(outcomes[j]) == Some(attempt));
                }
            },
            None => {
                assert forall|j: int| 0 <= j < outcomes.len() implies started_by(
                    #[trigger] outcomes[j],
                ) is None by {
                    if j < n {
                        assert(started_by(fewer[j]) is None);
                    }
                }
            },
        }
    }
}

/// However the results of several attempts are interleaved, the text that is
/// collected is that of the tokens of the attempt that was started last.
pub proof fn law_collected_text_is_the_last_attempts(outcomes: Seq<ReadOutcome>)
    requires
        attempts_in_order(outcomes),
    ensures
        collected(outcomes) == (Collected {
            text: match last_started(outcomes) {
                Some(attempt) => attempt_text(outcomes, attempt),
                None => Seq::empty(),
            },
            attempt: last_started(outcomes),
        }),
    decreases outcomes.len(),
{
    if outcomes.len() > 0 {
        let fewer = outcomes.drop_last();
        let n = outcomes.len() - 1;
        let last = outcomes[n];
        assert(forall|i: int| 0 <= i < n ==> fewer[i] == outcomes[i]);
        assert(attempts_in_order(fewer)) by {
            assert forall|i: int|
                0 <= i < fewer.len() && (#[trigger] token_of(fewer[i])) is Some implies exists|
                j: int|
                0 <= j < i && #[trigger] started_by(fewer[j]) == token_of(fewer[i]) by {
                assert(token_of(outcomes[i]) is Some);
                let j = choose|j: int|
                    0 <= j < i && #[trigger] started_by(outcomes[j]) == token_of(outcomes[i]);
                assert(started_by(fewer[j]) == token_of(fewer[i]));
            }
            assert forall|i: int, j: int|
                0 <= i < j < fewer.len() && (#[trigger] started_by(fewer[i])) is Some implies
                started_by(fewer[i]) != #[trigger] started_by(fewer[j]) by {
                assert(started_by(outcomes[i]) != started_by(outcomes[j]));
            }
        }
        law_collected_text_is_the_last_attempts(fewer);
        lemma_last_started(fewer);
        match started_by(last) {
            Some(attempt) => {
                assert forall|i: int| 0 <= i < outcomes.len() implies token_of(
                    #[trigger] outcomes[i],
                ) != Some(attempt) by {
                    if token_of(outcomes[i]) == Some(attempt) {
                        let j = choose|j: int|
                            0 <= j < i && #[trigger] started_by(outcomes[j]) == token_of(
                                outcomes[i],
                            );
                        assert(started_by(outcomes[j]) != started_by(outcomes[n]));
                    }
                }
                lemma_unstarted_text(outcomes, attempt);
                if let Some(before) = last_started(fewer) {
                    let j = choose|j: int|
                        0 <= j < fewer.len() && #[trigger] started_by(fewer[j]) == Some(before);
                    assert(started_by(outcomes[j]) != started_by(outcomes[n]));
                }
            },
            None => {
                if token_of(last) is Some {
                    let j = choose|j: int|
                        0 <= j < n && #[trigger] started_by(outcomes[j]) == token_of(outcomes[n]);
                    assert(started_by(fewer[j]) is Some);
                }
                if let Some(attempt) = last_started(fewer) {
                    let before = attempt_text(fewer, attempt);
                    assert(before + Seq::<char>::empty() =~= before);
                }
            },
        }
    }
}

/// A caller's place in a stream: the tokens that were generated by the last
/// event that was sent, and that event.
#[verifier::ext_equal]
pub struct Place {
    pub generated_tokens: u64,
    pub event_id: Seq<char>,
}

/// The event that ends a stream which has failed: it carries how far the caller
/// has come.
pub open spec fn fault_event(
    request_id: Seq<char>,
    place: Place,
    message: Seq<char>,
) -> EventView {
    EventView {
        request_id,
        model: Seq::empty(),
        delta: message,
        generated_tokens: place.generated_tokens,
        finish_reason: "error"@,
        event_id: place.event_id,
        attempt_id: Seq::empty(),
        prompt_tokens: 0,
        terminal: true,
    }
}

/// What a stream does with an outcome.
#[derive(Debug, PartialEq, Eq)]
pub enum StreamStep {
    /// Nothing is sent.
    Skip,
    /// An event is sent and more may follow.
    Send(GenerationEvent),
    /// An event is sent and the stream ends.
    Finish(GenerationEvent),
    /// An event is sent in an envelope that ends the stream.
    Fail(GenerationEvent),
}

/// What a stream does with an outcome, over events as numbers and text.
pub enum StepView {
    Skip,
    Send(EventView),
    Finish(EventView),
    Fail(EventView),
}

impl View for StreamStep {
    type V = StepView;

    open spec fn view(&self) -> StepView {
        match self {
            StreamStep::Skip => StepView::Skip,
            StreamStep::Send(event) => StepView::Send(event@),
            StreamStep::Finish(event) => StepView::Finish(event@),
            StreamStep::Fail(event) => StepView::Fail(event@),
        }
    }
}

/// What a stream does with an outcome, and the caller's place after it: tokens
/// are sent on, and a completion, a failure, a timeout or a broken stream ends
/// it with what was generated up to then.
pub open spec fn streaming(
    request_id: Seq<char>,
    model: Seq<char>,
    place: Place,
    outcome: ReadOutcome,
) -> (Place, StepView) {
    match outcome {
        ReadOutcome::TimedOut => (
            place,
            StepView::Fail(fault_event(request_id, place, "generation timed out"@)),
        ),
        ReadOutcome::Broken => (
            place,
            StepView::Fail(fault_event(request_id, place, "failed reading generation"@)),
        ),
        ReadOutcome::Entry(entry) => {
            let event = EventView {
                request_id,
                model,
                delta: Seq::empty(),
                generated_tokens: place.generated_tokens,
                finish_reason: Seq::empty(),
                event_id: entry.event_id@,
                attempt_id: entry.result.attempt_id@,
                prompt_tokens: 0,
                terminal: false,
            };
            match entry.result.event {
                None | Some(ResultEvent::AttemptStarted) => (place, StepView::Skip),
                Some(ResultEvent::Token { text, cumulative_generated_tokens }) => (
                    Place {
                        generated_tokens: cumulative_generated_tokens,
                        event_id: entry.event_id@,
                    },
                    StepView::Send(
                        EventView {
                            delta: text@,
                            generated_tokens: cumulative_generated_tokens,
                            ..event
                        },
                    ),
                ),
                Some(
                    ResultEvent::Completed { prompt_tokens, generated_tokens, finish_reason },
                ) => (
                    place,
                    StepView::Finish(
                        EventView {
                            generated_tokens,
                            finish_reason: finish_reason@,
                            prompt_tokens,
                            terminal: true,
                            ..event
                        },
                    ),
                ),
                Some(ResultEvent::Failed { code, message, .. }) => (
                    place,
                    StepView::Finish(
                        EventView {
                            delta: message@,
                            finish_reason: code@,
                            terminal: true,
                            ..event
                        },
                    ),
                ),
            }
        },
    }
}

/// Sends a generation on to a caller event by event.
pub struct EventStream {
    generated_tokens: u64,
    event_id: String,
}

impl View for EventStream {
    type V = Place;

    closed spec fn view(&self) -> Place {
        Place { generated_tokens: self.generated_tokens, event_id: self.event_id@ }
    }
}

/// The place of a caller who has got nothing yet, or who comes back after an
/// event.
pub open spec fn first_place(cursor: Option<Seq<char>>) -> Place {
    Place {
        generated_tokens: 0,
        event_id: match cursor {
            Some(id) => id,
            None => Seq::empty(),
        },
    }
}

impl EventStream {
    /// A stream for a caller who has got nothing yet, or who comes back after an
    /// event.
    pub fn new(cursor: Option<&str>) -> (stream: Self)
        ensures
            stream@ == first_place(header_text(cursor)),
    {
        let event_id = match cursor {
            Some(id) => id.to_string(),
            None => String::new(),
        };
        let stream = EventStream { generated_tokens: 0, event_id };
        assert(cursor is None ==> stream.event_id@ =~= Seq::empty());
        stream
    }

    /// The event that ends the stream where it has failed. Its envelope ends
    /// the stream.
    pub fn fault(&self, request_id: &str, message: &str) -> (event: GenerationEvent)
        ensures
            event@ == fault_event(request_id@, self@, message@),
    {
        GenerationEvent {
            request_id: request_id.to_string(),
            model: String::new(),
            delta: message.to_string(),
            generated_tokens: self.generated_tokens,
            finish_reason: "error".to_string(),
            event_id: self.event_id.clone(),
            attempt_id: String::new(),
            prompt_tokens: 0,
            terminal: true,
        }
    }

    /// The event that a caller gets who could not be subscribed: `None` stands
    /// for a broker that gave no answer, and for nothing where it worked.
    pub fn subscription_fault(&self, request_id: &str, subscribed: Option<bool>) -> (r: Option<
        GenerationEvent,
    >)
        ensures
            match subscribed {
                Some(true) => r is None,
                Some(false) => r matches Some(event) && event@ == fault_event(
                    request_id@,
                    self@,
                    "generation is unknown or expired"@,
                ),
                None => r matches Some(event) && event@ == fault_event(
                    request_id@,
                    self@,
                    "failed to subscribe to generation"@,
                ),
            },
    {
        match subscribed {
            Some(true) => None,
            Some(false) => Some(self.fault(request_id, "generation is unknown or expired")),
            None => Some(self.fault(request_id, "failed to subscribe to generation")),
        }
    }

    /// Takes an outcome, and says what the stream does with it.
    pub fn take(&mut self, request_id: &str, model: &str, outcome: ReadOutcome) -> (step:
        StreamStep)
        ensures
            (final(self)@, step@) == streaming(request_id@, model@, old(self)@, outcome),
    {
        let entry = match outcome {
            ReadOutcome::TimedOut => {
                return StreamStep::Fail(self.fault(request_id, "generation timed out"));
            },
            ReadOutcome::Broken => {
                return StreamStep::Fail(self.fault(request_id, "failed reading generation"));
            },
            ReadOutcome::Entry(entry) => entry,
        };
        let mut event = GenerationEvent {
            request_id: request_id.to_string(),
            model: model.to_string(),
            delta: String::new(),
            generated_tokens: self.generated_tokens,
            finish_reason: String::new(),
            event_id: entry.event_id,
            attempt_id: entry.result.attempt_id,
            prompt_tokens: 0,
            terminal: false,
        };
        assert(event.delta@ =~= Seq::empty());
        assert(event.finish_reason@ =~= Seq::empty());
        match entry.result.event {
            None => StreamStep::Skip,
            Some(ResultEvent::AttemptStarted) => StreamStep::Skip,
            Some(ResultEvent::Token { text, cumulative_generated_tokens }) => {
                event.delta = text;
                event.generated_tokens = cumulative_generated_tokens;
                self.generated_tokens = cumulative_generated_tokens;
                self.event_id = event.event_id.clone();
                StreamStep::Send(event)
            },
            Some(ResultEvent::Completed { prompt_tokens, generated_tokens, finish_reason }) => {
                event.generated_tokens = generated_tokens;
                event.finish_reason = finish_reason;
                event.prompt_tokens = prompt_tokens;
                event.terminal = true;
                StreamStep::Finish(event)
            },
            Some(ResultEvent::Failed { code, message, .. }) => {
                event.delta = message;
                event.finish_reason = code;
                event.terminal = true;
                StreamStep::Finish(event)
            },
        }
    }
}

/// Whether a stream ends with an outcome.
pub open spec fn ends(outcome: ReadOutcome) -> bool {
    match outcome {
        ReadOutcome::TimedOut | ReadOutcome::Broken => true,
        ReadOutcome::Entry(entry) => crate::streams::is_terminal(entry.result.event),
    }
}

/// The events that a stream sends for a run of outcomes, from a place on and up
/// to the first that ends it.
pub open spec fn streamed(
    request_id: Seq<char>,
    model: Seq<char>,
    place: Place,
    outcomes: Seq<ReadOutcome>,
) -> Seq<EventView>
    decreases outcomes.len(),
{
    if outcomes.len() == 0 {
        Seq::empty()
    } else {
        let (next, step) = streaming(request_id, model, place, outcomes[0]);
        match step {
            StepView::Skip => streamed(request_id, model, next, outcomes.skip(1)),
            StepView::Send(event) => seq![event] + streamed(
                request_id,
                model,
                next,
                outcomes.skip(1),
            ),
            StepView::Finish(event) => seq![event],
            StepView::Fail(event) => seq![event],
        }
    }
}

/// The caller's place after a run of outcomes.
pub open spec fn place_after(place: Place, outcomes: Seq<ReadOutcome>) -> Place
    decreases outcomes.len(),
{
    if outcomes.len() == 0 {
        place
    } else {
        place_after(
            streaming(Seq::empty(), Seq::empty(), place, outcomes[0]).0,
            outcomes.skip(1),
        )
    }
}

/// Whether a run of outcomes holds one that ends a stream.
pub open spec fn ended(outcomes: Seq<ReadOutcome>) -> bool {
    exists|i: int| 0 <= i < outcomes.len() && ends(#[trigger] outcomes[i])
}

/// The end of a run does not come with its first outcome.
proof fn lemma_ended_later(outcomes: Seq<ReadOutcome>)
    requires
        outcomes.len() > 0,
        !ends(outcomes[0]),
    ensures
        ended(outcomes) == ended(outcomes.skip(1)),
{
    let rest = outcomes.skip(1);
    if ended(rest) {
        let i = choose|i: int| 0 <= i < rest.len() && ends(#[trigger] rest[i]);
        assert(ends(outcomes[i + 1]));
    }
    if ended(outcomes) {
        let i = choose|i: int| 0 <= i < outcomes.len() && ends(#[trigger] outcomes[i]);
        assert(ends(rest[i - 1]));
    }
}

/// A stream sends tokens and then exactly one terminal event, which is the
/// last: there is one as soon as an outcome ends the stream, and none before.
pub proof fn law_one_terminal_event(
    request_id: Seq<char>,
    model: Seq<char>,
    place: Place,
    outcomes: Seq<ReadOutcome>,
)
    ensures
        ({
            let events = streamed(request_id, model, place, outcomes);
            &&& ended(outcomes) ==> events.len() > 0
            &&& forall|i: int|
                0 <= i < events.len() ==> ((#[trigger] events[i]).terminal <==> i == events.len() - 1
                    && ended(outcomes))
        }),
    decreases outcomes.len(),
{
    if outcomes.len() > 0 {
        let rest = outcomes.skip(1);
        let next = streaming(request_id, model, place, outcomes[0]).0;
        let events = streamed(request_id, model, place, outcomes);
        law_one_terminal_event(request_id, model, next, rest);
        if ends(outcomes[0]) {
            assert(ended(outcomes));
            assert(events.len() == 1);
        } else {
            lemma_ended_later(outcomes);
            let later = streamed(request_id, model, next, rest);
            match streaming(request_id, model, place, outcomes[0]).1 {
                StepView::Send(event) => {
                    assert(!event.terminal);
                    assert forall|i: int| 0 <= i < events.len() implies ((
                    #[trigger] events[i]).terminal <==> i == events.len() - 1 && ended(
                        outcomes,
                    )) by {
                        if i > 0 {
                            assert(events[i] == later[i - 1]);
                        }
                    }
                },
                _ => {
                    assert(events == later);
                },
            }
        }
    }
}

/// The outcome that ends a run, where one does: the first that ends a stream.
pub open spec fn ending_of(outcomes: Seq<ReadOutcome>) -> Option<ReadOutcome>
    decreases outcomes.len(),
{
    if outcomes.len() == 0 {
        None
    } else if ends(outcomes[0]) {
        Some(outcomes[0])
    } else {
        ending_of(outcomes.skip(1))
    }
}

/// How far a caller has come with the events before the last: the place that
/// the one before it gives, or else the place that the stream started from.
pub open spec fn place_before_last(place: Place, events: Seq<EventView>) -> Place {
    if events.len() >= 2 {
        Place {
            generated_tokens: events[events.len() - 2].generated_tokens,
            event_id: events[events.len() - 2].event_id,
        }
    } else {
        place
    }
}

/// The terminal event carries the reason, the cumulative number of generated
/// tokens and a place in the stream: of a completion, all as it was reported;
/// of a failure, its code, its own place and the count of the last token that
/// was sent; of a timeout or a broken stream, the count and the place of that
/// token.
pub proof fn law_terminal_events_carry_the_count(
    request_id: Seq<char>,
    model: Seq<char>,
    place: Place,
    outcomes: Seq<ReadOutcome>,
)
    ensures
        ({
            let events = streamed(request_id, model, place, outcomes);
            let before = place_before_last(place, events);
            match ending_of(outcomes) {
                None => !ended(outcomes),
                Some(ReadOutcome::Entry(entry)) => {
                    &&& ended(outcomes)
                    &&& events.len() > 0
                    &&& events.last().terminal
                    &&& events.last().event_id == entry.event_id@
                    &&& events.last().attempt_id == entry.result.attempt_id@
                    &&& match entry.result.event {
                        Some(
                            ResultEvent::Completed { generated_tokens, finish_reason, .. },
                        ) => events.last().generated_tokens == generated_tokens
                            && events.last().finish_reason == finish_reason@,
                        Some(ResultEvent::Failed { code, .. }) => events.last().generated_tokens
                            == before.generated_tokens && events.last().finish_reason == code@,
                        _ => false,
                    }
                },
                Some(_) => {
                    &&& ended(outcomes)
                    &&& events.len() > 0
                    &&& events.last().terminal
                    &&& events.last().event_id == before.event_id
                    &&& events.last().generated_tokens == before.generated_tokens
                    &&& events.last().finish_reason == "error"@
                },
            }
        }),
    decreases outcomes.len(),
{
    if outcomes.len() > 0 {
        let rest = outcomes.skip(1);
        let (next, step) = streaming(request_id, model, place, outcomes[0]);
        let events = streamed(request_id, model, place, outcomes);
        if ends(outcomes[0]) {
            assert(ended(outcomes));
            assert(events.len() == 1);
        } else {
            lemma_ended_later(outcomes);
            law_terminal_events_carry_the_count(request_id, model, next, rest);
            let later = streamed(request_id, model, next, rest);
            match step {
                StepView::Send(event) => {
                    assert(events =~= seq![event] + later);
                    if later.len() > 0 {
                        assert(events.last() == later.last());
                        if later.len() >= 2 {
                            assert(events[events.len() - 2] == later[later.len() - 2]);
                        } else {
                            assert(events[events.len() - 2] == event);
                        }
                    }
                },
                _ => {
                    assert(events == later);
                },
            }
        }
    }
}

/// Where the caller goes on from does not depend on whom the events are for.
proof fn lemma_places(
    request_id: Seq<char>,
    model: Seq<char>,
    place: Place,
    outcome: ReadOutcome,
)
    ensures
        streaming(request_id, model, place, outcome).0 == streaming(
            Seq::empty(),
            Seq::empty(),
            place,
            outcome,
        ).0,
{
}

/// A stream that goes on from where some outcomes that have not ended it have
/// led sends exactly the events that were still to come.
pub proof fn law_streams_go_on(
    request_id: Seq<char>,
    model: Seq<char>,
    place: Place,
    seen: Seq<ReadOutcome>,
    rest: Seq<ReadOutcome>,
)
    requires
        !ended(seen),
    ensures
        streamed(request_id, model, place, seen + rest) == streamed(request_id, model, place, seen)
            + streamed(request_id, model, place_after(place, seen), rest),
    decreases seen.len(),
{
    if seen.len() == 0 {
        assert(seen + rest =~= rest);
        assert(Seq::<EventView>::empty() + streamed(request_id, model, place, rest) =~= streamed(
            request_id,
            model,
            place,
            rest,
        ));
    } else {
        let later = seen.skip(1);
        assert(!ends(seen[0])) by {
            if ends(seen[0]) {
                assert(ended(seen));
            }
        }
        lemma_ended_later(seen);
        lemma_places(request_id, model, place, seen[0]);
        let next = streaming(request_id, model, place, seen[0]).0;
        law_streams_go_on(request_id, model, next, later, rest);
        assert((seen + rest).skip(1) =~= later + rest);
        assert((seen + rest)[0] == seen[0]);
        let after = place_after(place, seen);
        match streaming(request_id, model, place, seen[0]).1 {
            StepView::Send(event) => {
                assert(seq![event] + (streamed(request_id, model, next, later) + streamed(
                    request_id,
                    model,
                    after,
                    rest,
                )) =~= (seq![event] + streamed(request_id, model, next, later)) + streamed(
                    request_id,
                    model,
                    after,
                    rest,
                ));
            },
            _ => {},
        }
    }
}

/// Whether a stream's next event is a token or a completion.
pub open spec fn goes_on(outcomes: Seq<ReadOutcome>) -> bool
    decreases outcomes.len(),
{
    if outcomes.len() == 0 {
        true
    } else {
        match outcomes[0] {
            ReadOutcome::Entry(entry) => match entry.result.event {
                None | Some(ResultEvent::AttemptStarted) => goes_on(outcomes.skip(1)),
                Some(ResultEvent::Token { .. }) => true,
                Some(ResultEvent::Completed { .. }) => true,
                Some(ResultEvent::Failed { .. }) => false,
            },
            _ => false,
        }
    }
}

/// Two events that differ at most in how many tokens they say were generated.
pub open spec fn alike(a: EventView, b: EventView) -> bool {
    a == (EventView { generated_tokens: a.generated_tokens, ..b })
}

proof fn lemma_from_places(
    request_id: Seq<char>,
    model: Seq<char>,
    a: Place,
    b: Place,
    outcomes: Seq<ReadOutcome>,
)
    requires
        a.event_id == b.event_id,
    ensures
        ({
            let left = streamed(request_id, model, a, outcomes);
            let right = streamed(request_id, model, b, outcomes);
            &&& goes_on(outcomes) ==> left == right
            &&& left.len() == right.len()
            &&& forall|i: int| 0 <= i < left.len() ==> alike(#[trigger] left[i], right[i])
        }),
    decreases outcomes.len(),
{
    if outcomes.len() > 0 {
        let next_a = streaming(request_id, model, a, outcomes[0]).0;
        let next_b = streaming(request_id, model, b, outcomes[0]).0;
        match streaming(request_id, model, a, outcomes[0]).1 {
            StepView::Skip => {
                lemma_from_places(request_id, model, a, b, outcomes.skip(1));
            },
            StepView::Send(_) => {
                assert(next_a == next_b);
            },
            _ => {},
        }
    }
}

/// A subscriber who comes back after the last event that was sent gets exactly
/// the events that were still to come. Where the next of them is a failure, it
/// differs in one thing: it counts the tokens that this subscription has sent,
/// which are none.
pub proof fn law_resuming_gives_the_rest(
    request_id: Seq<char>,
    model: Seq<char>,
    cursor: Option<Seq<char>>,
    seen: Seq<ReadOutcome>,
    rest: Seq<ReadOutcome>,
)
    requires
        !ended(seen),
    ensures
        ({
            let place = first_place(cursor);
            let whole = streamed(request_id, model, place, seen + rest);
            let first = streamed(request_id, model, place, seen);
            let back = first_place(Some(place_after(place, seen).event_id));
            let second = streamed(request_id, model, back, rest);
            &&& goes_on(rest) ==> whole == first + second
            &&& whole.len() == first.len() + second.len()
            &&& forall|i: int|
                0 <= i < whole.len() ==> alike((first + second)[i], #[trigger] whole[i])
            &&& forall|i: int|
                0 <= i < first.len() ==> (first + second)[i] == #[trigger] whole[i]
        }),
{
    let place = first_place(cursor);
    let after = place_after(place, seen);
    let back = first_place(Some(after.event_id));
    law_streams_go_on(request_id, model, place, seen, rest);
    lemma_from_places(request_id, model, back, after, rest);
    let whole = streamed(request_id, model, place, seen + rest);
    let first = streamed(request_id, model, place, seen);
    let second = streamed(request_id, model, back, rest);
    let live = streamed(request_id, model, after, rest);
    assert(whole == first + live);
    assert forall|i: int| 0 <= i < whole.len() implies alike(
        (first + second)[i],
        #[trigger] whole[i],
    ) by {
        if i >= first.len() {
            assert(alike(second[i - first.len()], live[i - first.len()]));
        }
    }
}

/// Every event that carries a place in the stream carries that of the result
/// it was made from, so that a subscriber can go on after it.
pub proof fn law_events_carry_their_place(
    request_id: Seq<char>,
    model: Seq<char>,
    place: Place,
    entry: ResultEntry,
)
    ensures
        match streaming(request_id, model, place, ReadOutcome::Entry(entry)).1 {
            StepView::Skip => true,
            StepView::Send(event) => event.event_id == entry.event_id@ && event.attempt_id
                == entry.result.attempt_id@ && !event.terminal,
            StepView::Finish(event) => event.event_id == entry.event_id@ && event.attempt_id
                == entry.result.attempt_id@ && event.terminal,
            StepView::Fail(event) => false,
        },
{
}

/// What is admitted fits the model: the prompt and the output together do not
/// exceed the context, and the output does not exceed what the model may put out.
pub proof fn law_admitted_requests_fit(
    model: ModelConfig,
    keys: Set<Seq<char>>,
    authorization: Option<Seq<char>>,
    request: GenerateRequest,
)
    ensures
        admission(model, keys, authorization, request) matches Ok(admitted) ==> {
            &&& admitted.prompt_tokens + admitted.max_tokens <= model.context_limit
            &&& admitted.max_tokens <= model.max_output_tokens
            &&& keys.contains(admitted.api_key)
            &&& admitted.model == model.id@
        },
{
}

/// The texts of events, one after the other.
pub open spec fn deltas_text(events: Seq<EventView>) -> Seq<char>
    decreases events.len(),
{
    if events.len() == 0 {
        Seq::empty()
    } else {
        deltas_text(events.drop_last()) + events.last().delta
    }
}

/// What each of some events says.
pub open spec fn events_said(events: Seq<GenerationEvent>) -> Seq<EventView> {
    events.map_values(|e: GenerationEvent| e@)
}

/// The texts of events, one after the other.
pub fn concat_deltas(events: &Vec<GenerationEvent>) -> (text: String)
    ensures
        text@ == deltas_text(events_said(events@)),
{
    let mut text = String::new();
    let ghost said = events_said(events@);
    let mut i: usize = 0;
    assert(text@ =~= deltas_text(said.take(0)));
    while i < events.len()
        invariant
            i <= events@.len(),
            said == events_said(events@),
            text@ == deltas_text(said.take(i as int)),
        decreases events@.len() - i,
    {
        assert(said.take(i + 1).drop_last() =~= said.take(i as int));
        assert(said.take(i + 1).last() == events@[i as int]@);
        text.append(events[i].delta.as_str());
        i += 1;
    }
    assert(said.take(i as int) =~= said);
    text
}

/// Tests whether a replay gives the text that was streamed live.
pub fn replay_matches(live: &Vec<GenerationEvent>, replay: &Vec<GenerationEvent>) -> (r: bool)
    ensures
        r == (deltas_text(events_said(live@)) == deltas_text(events_said(replay@))),
{
    let a = concat_deltas(live);
    let b = concat_deltas(replay);
    same_text(a.as_str(), b.as_str())
}

/// The largest number of tokens that an event gives, zero without events.
pub fn most_generated(events: &Vec<GenerationEvent>) -> (most: u64)
    ensures
        forall|i: int| 0 <= i < events@.len() ==> (#[trigger] events@[i]).generated_tokens <= most,
        events@.len() == 0 ==> most == 0,
        events@.len() > 0 ==> exists|i: int|
            0 <= i < events@.len() && (#[trigger] events@[i]).generated_tokens == most,
{
    let mut most: u64 = 0;
    let mut i: usize = 0;
    while i < events.len()
        invariant
            i <= events@.len(),
            forall|k: int| 0 <= k < i ==> (#[trigger] events@[k]).generated_tokens <= most,
            i == 0 ==> most == 0,
            i > 0 ==> exists|k: int|
                0 <= k < i && (#[trigger] events@[k]).generated_tokens == most,
        decreases events@.len() - i,
    {
        if events[i].generated_tokens >= most {
            most = events[i].generated_tokens;
            assert(events@[i as int].generated_tokens == most);
        }
        i += 1;
    }
    most
}

/// A token is sent on as it is: the event that is sent for it carries exactly
/// the token's text, its count, its attempt and its place, and the caller has
/// come as far as that token.
pub proof fn law_tokens_are_sent_as_they_are(
    request_id: Seq<char>,
    model: Seq<char>,
    place: Place,
    entry: ResultEntry,
)
    ensures
        ({
            let (next, step) = streaming(request_id, model, place, ReadOutcome::Entry(entry));
            entry.result.event matches Some(
                ResultEvent::Token { text, cumulative_generated_tokens },
            ) ==> {
                &&& step matches StepView::Send(event) && {
                    &&& event.delta == text@
                    &&& event.generated_tokens == cumulative_generated_tokens
                    &&& event.request_id == request_id
                    &&& event.model == model
                    &&& event.event_id == entry.event_id@
                    &&& event.attempt_id == entry.result.attempt_id@
                    &&& event.finish_reason.len() == 0
                    &&& event.prompt_tokens == 0
                    &&& !event.terminal
                }
                &&& next.generated_tokens == cumulative_generated_tokens
                &&& next.event_id == entry.event_id@
            }
        }),
{
}

/// A completion is sent on with the counts and the reason that were reported
/// and no text, a failure with its message and its code and the count that the
/// caller has; a timeout or a broken stream is told with what the caller has
/// got so far. Starts are not sent on, and none of these moves the caller's
/// place.
pub proof fn law_ends_are_sent_as_reported(
    request_id: Seq<char>,
    model: Seq<char>,
    place: Place,
    entry: ResultEntry,
)
    ensures
        ({
            let (next, step) = streaming(request_id, model, place, ReadOutcome::Entry(entry));
            &&& entry.result.event matches Some(
                ResultEvent::Completed { prompt_tokens, generated_tokens, finish_reason },
            ) ==> next == place && (step matches StepView::Finish(event) && {
                &&& event.delta.len() == 0
                &&& event.generated_tokens == generated_tokens
                &&& event.prompt_tokens == prompt_tokens
                &&& event.finish_reason == finish_reason@
                &&& event.request_id == request_id
                &&& event.model == model
                &&& event.event_id == entry.event_id@
                &&& event.attempt_id == entry.result.attempt_id@
                &&& event.terminal
            })
            &&& entry.result.event matches Some(ResultEvent::Failed { code, message, retryable })
                ==> next == place && (step matches StepView::Finish(event) && {
                &&& event.delta == message@
                &&& event.generated_tokens == place.generated_tokens
                &&& event.prompt_tokens == 0
                &&& event.finish_reason == code@
                &&& event.request_id == request_id
                &&& event.model == model
                &&& event.event_id == entry.event_id@
                &&& event.attempt_id == entry.result.attempt_id@
                &&& event.terminal
            })
            &&& entry.result.event is None || entry.result.event == Some(
                ResultEvent::AttemptStarted,
            ) ==> next == place && step is Skip
        }),
        streaming(request_id, model, place, ReadOutcome::TimedOut) == (
            place,
            StepView::Fail(
                EventView {
                    request_id,
                    model: Seq::empty(),
                    delta: "generation timed out"@,
                    generated_tokens: place.generated_tokens,
                    finish_reason: "error"@,
                    event_id: place.event_id,
                    attempt_id: Seq::empty(),
                    prompt_tokens: 0,
                    terminal: true,
                },
            ),
        ),
        streaming(request_id, model, place, ReadOutcome::Broken) == (
            place,
            StepView::Fail(
                EventView {
                    request_id,
                    model: Seq::empty(),
                    delta: "failed reading generation"@,
                    generated_tokens: place.generated_tokens,
                    finish_reason: "error"@,
                    event_id: place.event_id,
                    attempt_id: Seq::empty(),
                    prompt_tokens: 0,
                    terminal: true,
                },
            ),
        ),
{
}

/// A caller who has got nothing yet has no tokens and no place, and one who
/// comes back has the place that was given. A fault is told with the words for
/// it, and with what the caller has.
pub proof fn law_faults_say_how_far_it_came(
    cursor: Option<Seq<char>>,
    request_id: Seq<char>,
    place: Place,
    message: Seq<char>,
)
    ensures
        first_place(cursor).generated_tokens == 0,
        cursor matches Some(id) ==> first_place(cursor).event_id == id,
        cursor is None ==> first_place(cursor).event_id.len() == 0,
        ({
            let event = fault_event(request_id, place, message);
            &&& event.request_id == request_id
            &&& event.delta == message
            &&& event.generated_tokens == place.generated_tokens
            &&& event.event_id == place.event_id
            &&& event.finish_reason == "error"@
            &&& event.model.len() == 0
            &&& event.attempt_id.len() == 0
            &&& event.prompt_tokens == 0
            &&& event.terminal
        }),
{
}

/// The tokens of a run of outcomes up to the first that ends it: the text and
/// the count of each, in order.
pub open spec fn tokens_till_end(outcomes: Seq<ReadOutcome>) -> Seq<(Seq<char>, u64)>
    decreases outcomes.len(),
{
    if outcomes.len() == 0 {
        Seq::empty()
    } else {
        match outcomes[0] {
            ReadOutcome::Entry(entry) => match entry.result.event {
                Some(ResultEvent::Token { text, cumulative_generated_tokens }) => seq![
                    (text@, cumulative_generated_tokens),
                ] + tokens_till_end(outcomes.skip(1)),
                Some(ResultEvent::Completed { .. }) | Some(ResultEvent::Failed { .. }) =>
                    Seq::empty(),
                _ => tokens_till_end(outcomes.skip(1)),
            },
            _ => Seq::empty(),
        }
    }
}

/// Texts one after the other.
pub open spec fn run_together(parts: Seq<(Seq<char>, u64)>) -> Seq<char>
    decreases parts.len(),
{
    if parts.len() == 0 {
        Seq::empty()
    } else {
        run_together(parts.drop_last()) + parts.last().0
    }
}

/// The events before the terminal one.
pub open spec fn before_the_end(events: Seq<EventView>) -> Seq<EventView> {
    if events.len() > 0 && events.last().terminal {
        events.drop_last()
    } else {
        events
    }
}

/// Over any run of outcomes, a stream sends one event for each token up to the
/// end, in order, with the token's text and count, and besides these only the
/// event that ends it, as its last. So the texts of the events before the end,
/// one after the other, are the texts of the tokens.
pub proof fn law_streams_send_every_token(
    request_id: Seq<char>,
    model: Seq<char>,
    place: Place,
    outcomes: Seq<ReadOutcome>,
)
    ensures
        ({
            let events = streamed(request_id, model, place, outcomes);
            let tokens = tokens_till_end(outcomes);
            let sent = before_the_end(events);
            &&& sent.len() == tokens.len()
            &&& forall|i: int|
                0 <= i < sent.len() ==> (#[trigger] sent[i]).delta == tokens[i].0
                    && sent[i].generated_tokens == tokens[i].1 && !sent[i].terminal
                    && sent[i].request_id == request_id && sent[i].model == model
            &&& deltas_text(sent) == run_together(tokens)
        }),
    decreases outcomes.len(),
{
    let events = streamed(request_id, model, place, outcomes);
    let tokens = tokens_till_end(outcomes);
    let sent = before_the_end(events);
    if outcomes.len() > 0 {
        let rest = outcomes.skip(1);
        let (next, step) = streaming(request_id, model, place, outcomes[0]);
        law_streams_send_every_token(request_id, model, next, rest);
        let later = streamed(request_id, model, next, rest);
        match step {
            StepView::Send(event) => {
                let more = before_the_end(later);
                if later.len() > 0 {
                    assert(events.last() == later.last());
                } else {
                    assert(events.last() == event);
                }
                assert(sent =~= seq![event] + more);
                assert forall|i: int| 0 <= i < sent.len() implies (#[trigger] sent[i]).delta
                    == tokens[i].0 && sent[i].generated_tokens == tokens[i].1 && !sent[i].terminal
                    && sent[i].request_id == request_id && sent[i].model == model by {
                    if i > 0 {
                        assert(sent[i] == more[i - 1]);
                        assert(tokens[i] == tokens_till_end(rest)[i - 1]);
                    }
                }
            },
            StepView::Skip => {},
            StepView::Finish(event) => {
                assert(sent =~= Seq::<EventView>::empty());
            },
            StepView::Fail(event) => {
                assert(sent =~= Seq::<EventView>::empty());
            },
        }
    }
    lemma_texts_run_together(sent, tokens);
}

proof fn lemma_texts_run_together(sent: Seq<EventView>, tokens: Seq<(Seq<char>, u64)>)
    requires
        sent.len() == tokens.len(),
        forall|i: int| 0 <= i < sent.len() ==> (#[trigger] sent[i]).delta == tokens[i].0,
    ensures
        deltas_text(sent) == run_together(tokens),
    decreases sent.len(),
{
    if sent.len() > 0 {
        let n = sent.len() - 1;
        assert(sent[n].delta == tokens[n].0);
        let fewer = sent.drop_last();
        assert forall|i: int| 0 <= i < fewer.len() implies (#[trigger] fewer[i]).delta
            == tokens.drop_last()[i].0 by {
            assert(fewer[i] == sent[i]);
        }
        lemma_texts_run_together(fewer, tokens.drop_last());
    }
}

/// The texts of events are put one behind the other, whole and in order.
pub proof fn law_deltas_run_together(a: Seq<EventView>, b: Seq<EventView>, event: EventView)
    ensures
        deltas_text(Seq::empty()) == Seq::<char>::empty(),
        deltas_text(seq![event]) == event.delta,
        deltas_text(a + b) == deltas_text(a) + deltas_text(b),
    decreases b.len(),
{
    let none = Seq::<EventView>::empty();
    assert(deltas_text(none) =~= Seq::<char>::empty());
    assert(seq![event].drop_last() =~= none);
    assert(seq![event].last() == event);
    assert(deltas_text(seq![event]) =~= event.delta);
    if b.len() == 0 {
        assert(a + b =~= a);
        assert(deltas_text(a) + deltas_text(b) =~= deltas_text(a));
    } else {
        assert((a + b).drop_last() =~= a + b.drop_last());
        assert((a + b).last() == b.last());
        law_deltas_run_together(a, b.drop_last(), event);
        assert(deltas_text(a + b) =~= deltas_text(a) + deltas_text(b));
    }
}

/// A token's text is put behind what was collected, as it is, where it is of the
/// attempt that text is collected from or none has started; of another attempt
/// it is left out. The start of another attempt discards what was collected.
/// Collecting ends with what a completion reports, a failure's message, or what
/// is told of a timeout or a broken stream, and the text stays as it is.
pub proof fn law_tokens_are_collected_as_they_are(state: Collected, entry: ResultEntry)
    ensures
        ({
            let (after, ending) = collecting(state, ReadOutcome::Entry(entry));
            let attempt = entry.result.attempt_id@;
            &&& entry.result.event matches Some(
                ResultEvent::Token { text, cumulative_generated_tokens },
            ) ==> {
                &&& ending is None
                &&& after.attempt == state.attempt
                &&& state.attempt is None || state.attempt == Some(attempt) ==> after.text
                    == state.text + text@
                &&& state.attempt is Some && state.attempt != Some(attempt) ==> after.text
                    == state.text
            }
            &&& entry.result.event == Some(ResultEvent::AttemptStarted) ==> {
                &&& ending is None
                &&& after.attempt == Some(attempt)
                &&& state.attempt is None || state.attempt == Some(attempt) ==> after.text
                    == state.text
                &&& state.attempt is Some && state.attempt != Some(attempt) ==> after.text.len()
                    == 0
            }
            &&& entry.result.event matches Some(
                ResultEvent::Completed { prompt_tokens, generated_tokens, finish_reason },
            ) ==> after == state && ending == Some(
                Ok::<(u64, Seq<char>), (u16, Seq<char>)>((generated_tokens, finish_reason@)),
            )
            &&& entry.result.event matches Some(ResultEvent::Failed { code, message, retryable })
                ==> after == state && ending == Some(
                Err::<(u64, Seq<char>), (u16, Seq<char>)>((502, message@)),
            )
            &&& entry.result.event is None ==> after == state && ending is None
        }),
        collecting(state, ReadOutcome::TimedOut) == (
            state,
            Some(Err::<(u64, Seq<char>), (u16, Seq<char>)>((504, "generation timed out"@))),
        ),
        collecting(state, ReadOutcome::Broken) == (
            state,
            Some(Err::<(u64, Seq<char>), (u16, Seq<char>)>((502, "result stream failed"@))),
        ),
{
}

/// A request's prompt is its messages, all of them and in order, or else its
/// text; one without either has none.
pub proof fn law_messages_come_before_the_prompt(request: GenerateRequest)
    ensures
        request.messages@.len() > 0 ==> (prompt_asked(request) matches Some(PromptView::Chat(views))
            && views.len() == request.messages@.len() && forall|i: int|
            0 <= i < views.len() ==> (#[trigger] views[i]).role == request.messages@[i].role@
                && views[i].content == request.messages@[i].content@),
        request.messages@.len() == 0 && request.prompt@.len() > 0 ==> prompt_asked(request) == Some(
            PromptView::Text(request.prompt@),
        ),
        request.messages@.len() == 0 && request.prompt@.len() == 0 ==> prompt_asked(request) is None,
{
}

/// The cache knows a prompt by its messages, each as its role and its content
/// on lines of their own, all of them and in order; a request without messages
/// by its prompt.
pub proof fn law_caches_see_the_whole_prompt(request: GenerateRequest, lines: Seq<Seq<char>>)
    requires
        lines.len() == request.messages@.len(),
        forall|i: int|
            0 <= i < lines.len() ==> #[trigger] lines[i] == request.messages@[i].role@ + "\n"@
                + request.messages@[i].content@,
    ensures
        lines.len() > 0 ==> cached_text(request) == joined(lines, "\n"@),
        lines.len() == 0 ==> cached_text(request) == request.prompt@,
{
    if lines.len() > 0 {
        assert(message_views(request.messages@).map_values(|m: MessageView| message_lines(m))
            =~= lines);
    }
}

/// A stream's identifier is two numbers of 64 bits with a hyphen between them:
/// every such pair makes one, and nothing else does.
pub proof fn law_stream_ids_are_two_numbers(a: u64, b: u64, value: Seq<char>)
    ensures
        stream_id(decimal(a as nat) + "-"@ + decimal(b as nat)),
        stream_id(value) <==> exists|i: int|
            {
                &&& 0 <= i < value.len()
                &&& #[trigger] value[i] == '-'
                &&& unsigned_value(value.take(i)) matches Some(n) && n <= u64::MAX
                &&& unsigned_value(value.skip(i + 1)) matches Some(n) && n <= u64::MAX
            },
{
    reveal_strlit("-");
    let x = decimal(a as nat);
    let y = decimal(b as nat);
    let both = x + "-"@ + y;
    law_numbers_are_read_as_written(a as nat);
    law_numbers_are_read_as_written(b as nat);
    let i = x.len() as int;
    assert(both[i] == '-');
    assert(both.take(i) =~= x);
    assert(both.skip(i + 1) =~= y);
    if stream_id(value) {
        let k = choose|k: int|
            0 <= k < value.len() && #[trigger] value[k] == '-' && fits_64_bits(value.take(k))
                && fits_64_bits(value.skip(k + 1));
        assert(value[k] == '-');
    }
}

/// A request is turned away for its key first, then for having no prompt, for a
/// model that is not served here, for limits of the model that allow nothing,
/// and for what it would take; otherwise it is admitted, under its key, for the
/// model that is served here, with the tokens that its prompt counts as. Its
/// output is the smaller of what it asks for, or the default where it asks for
/// none, and what the model may put out.
pub proof fn law_requests_are_admitted_as_asked(
    model: ModelConfig,
    keys: Set<Seq<char>>,
    authorization: Option<Seq<char>>,
    request: GenerateRequest,
    prompt: PromptView,
    wish: usize,
    asked: nat,
    counter: &ApproxTokenCounter,
)
    requires
        prompt_asked(request) is Some ==> prompt_asked(request) == Some(prompt),
        request.max_tokens == 0 ==> wish == model.default_max_tokens,
        request.max_tokens > 0 ==> wish == request.max_tokens as usize,
        wish <= model.max_output_tokens ==> asked == wish,
        wish > model.max_output_tokens ==> asked == model.max_output_tokens,
    ensures
        ({
            let r = admission(model, keys, authorization, request);
            let tokens = counter.prompt_tokens(prompt) as nat;
            let limit = model.context_limit;
            match authenticated(keys, authorization) {
                Err(reply) => r == Err::<AdmittedView, (u16, Seq<char>)>(reply),
                Ok(key) => if request.messages@.len() == 0 && request.prompt@.len() == 0 {
                    r == Err::<AdmittedView, (u16, Seq<char>)>(
                        (400, "either messages or prompt is required"@),
                    )
                } else if request.model@.len() > 0 && request.model@ != model.id@ {
                    r == Err::<AdmittedView, (u16, Seq<char>)>((404, "model is not registered"@))
                } else if limit == 0 {
                    r == Err::<AdmittedView, (u16, Seq<char>)>(
                        (400, "model context limit must be greater than zero"@),
                    )
                } else if model.max_output_tokens == 0 {
                    r == Err::<AdmittedView, (u16, Seq<char>)>(
                        (400, "model max output tokens must be greater than zero"@),
                    )
                } else if tokens + asked > limit {
                    r == Err::<AdmittedView, (u16, Seq<char>)>(
                        (
                            400,
                            "prompt_tokens ("@ + decimal(tokens) + ") + max_tokens ("@ + decimal(
                                asked,
                            ) + ") exceeds context_limit ("@ + decimal(limit as nat) + ")"@,
                        ),
                    )
                } else {
                    r matches Ok(admitted) && admitted.api_key == key && admitted.model == model.id@
                        && admitted.prompt_tokens == tokens && admitted.max_tokens == asked
                },
            }
        }),
{
}

/// A runtime is asked for what the caller asked for: the same messages, one for
/// one, the same prompt and the same stop strings, for the model and the output
/// that were admitted, as a stream.
pub proof fn law_runtimes_are_asked_for_the_same(
    asked: RuntimeRequest,
    request: GenerateRequest,
    admitted: AdmittedView,
)
    requires
        asks_for(asked, request, admitted),
    ensures
        asked.model@ == admitted.model,
        asked.max_tokens == admitted.max_tokens,
        asked.stream,
        request.messages@.len() > 0 <==> asked.messages is Some,
        asked.messages matches Some(messages) ==> messages@ == request.messages@,
        request.prompt@.len() > 0 <==> asked.prompt is Some,
        asked.prompt matches Some(prompt) ==> prompt@ == request.prompt@,
        asked.stop@.len() == request.stop@.len(),
        forall|i: int|
            0 <= i < asked.stop@.len() ==> (#[trigger] asked.stop@[i])@ == request.stop@[i]@,
{
    assert(texts(asked.stop@).len() == asked.stop@.len());
    assert(texts(request.stop@).len() == request.stop@.len());
    assert forall|i: int| 0 <= i < asked.stop@.len() implies (#[trigger] asked.stop@[i])@
        == request.stop@[i]@ by {
        assert(texts(asked.stop@)[i] == asked.stop@[i]@);
        assert(texts(request.stop@)[i] == request.stop@[i]@);
    }
}

/// A job is the request's: under its identifier and its reservation, for the
/// model that was admitted with the model's revision and endpoint, with the
/// request's bytes as they are. It may take as long as it is given from now, or
/// as long as 64 bits can say, and never less.
pub proof fn law_jobs_carry_the_request(
    job: GenerationJob,
    model: ModelConfig,
    request: GenerateRequest,
    admitted: AdmittedView,
    reservation_id: Seq<char>,
    request_json: Seq<u8>,
    timeout_ms: u64,
    id: u128,
    now_ms: u64,
)
    requires
        is_job_for(
            job,
            model,
            request,
            admitted,
            reservation_id,
            request_json,
            timeout_ms,
            id,
            now_ms,
        ),
    ensures
        job.schema_version == 1,
        job.request_id@ == hyphenated(id),
        job.model_id@ == admitted.model,
        job.model_revision@ == model.revision@,
        job.model_endpoint@ == model.endpoint@,
        job.request_json@ == request_json,
        job.reservation_id@ == reservation_id,
        now_ms + timeout_ms <= u64::MAX ==> job.deadline_unix_ms == now_ms + timeout_ms,
        now_ms + timeout_ms > u64::MAX ==> job.deadline_unix_ms == u64::MAX,
        job.cache matches Some(cache) && cache.prefix_tokens_estimate == admitted.prompt_tokens
            && cache.cache_key@ == cache_name(
            admitted.model,
            if cached_text(request).len() <= 4096 {
                cached_text(request)
            } else {
                cached_text(request).take(4096)
            },
        ),
{
}

/// What is said of events is what they are, one for one, and what is said of an
/// admitted request likewise.
pub proof fn law_events_say_what_they_are(
    events: Seq<GenerationEvent>,
    i: int,
    event: GenerationEvent,
    admitted: Admitted,
)
    ensures
        events_said(events).len() == events.len(),
        0 <= i < events.len() ==> events_said(events)[i] == events[i]@,
        event@.request_id == event.request_id@,
        event@.model == event.model@,
        event@.delta == event.delta@,
        event@.generated_tokens == event.generated_tokens,
        event@.finish_reason == event.finish_reason@,
        event@.event_id == event.event_id@,
        event@.attempt_id == event.attempt_id@,
        event@.prompt_tokens == event.prompt_tokens,
        event@.terminal == event.terminal,
        admitted@.api_key == admitted.api_key@,
        admitted@.model == admitted.model@,
        admitted@.prompt_tokens == admitted.prompt_tokens,
        admitted@.max_tokens == admitted.max_tokens,
{
}

} // verus!
