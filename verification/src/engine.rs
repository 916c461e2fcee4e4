//! The engine: how a job is run to its end, and how the stream of a model
//! runtime becomes tokens and usage.
use vstd::prelude::*;

use crate::clock::unix_ms;
use crate::ids::{fresh_uuid, uuid_text};
#[allow(unused_imports)]
use crate::ids::{hyphenated, random_uuid};
use crate::json::{as_str, as_u64, first, get, parse_json, str_or_empty, Json};
#[allow(unused_imports)]
use crate::json::{
    elements_said, first_element, lemma_member_found, lemma_member_missing, member, members_said,
    parsed_json, said, text_in, text_or_empty, unsigned_in, JsonView,
};
use crate::sse::drain_data_lines;
#[allow(unused_imports)]
use crate::sse::{ended_pieces, lines_data, unended};
use crate::streams::{ConsumedJob, GenerationJob, GenerationResult, ResultEvent, SCHEMA_VERSION};
use crate::text::{
    count_words, decode_lossy, join, same_text, split_words, trim_end_char,
};
#[allow(unused_imports)]
use crate::text::{
    joined, law_white_space_parts_words, law_words_stay_whole, lossy_text, texts, without_trailing,
    words,
};

verus! {

/// What an engine generates with.
#[derive(Debug, Clone, Copy, PartialEq, Eq, Structural)]
pub enum Backend {
    Synthetic,
    OpenAiCompatible,
}

/// The backend of a name: synthetic by that name, else a model runtime.
pub fn select_backend(kind: &str) -> (backend: Backend)
    ensures
        backend == if kind@ == "synthetic"@ {
            Backend::Synthetic
        } else {
            Backend::OpenAiCompatible
        },
{
    if same_text(kind, "synthetic") {
        Backend::Synthetic
    } else {
        Backend::OpenAiCompatible
    }
}

/// The endpoint of the model runtime, from the first source that gives one:
/// the environment and the model where they are not empty, then the backend's
/// two addresses, then the local default.
pub fn select_endpoint(
    environment: Option<String>,
    model: String,
    openai: Option<String>,
    mlx: Option<String>,
) -> (endpoint: String)
    ensures
        endpoint@ == match environment {
            Some(value) if value@.len() > 0 => value@,
            _ => if model@.len() > 0 {
                model@
            } else {
                match (openai, mlx) {
                    (Some(url), _) => url@,
                    (None, Some(url)) => url@,
                    (None, None) => "http://127.0.0.1:18000"@,
                }
            },
        },
{
    if let Some(value) = environment {
        if !value.as_str().is_empty() {
            return value;
        }
    }
    if !model.as_str().is_empty() {
        return model;
    }
    match (openai, mlx) {
        (Some(url), _) => url,
        (None, Some(url)) => url,
        (None, None) => "http://127.0.0.1:18000".to_string(),
    }
}

/// The times of an engine's streams, in seconds.
#[derive(Debug, Clone, Copy, PartialEq, Eq, Structural)]
pub struct StreamSettings {
    pub active_ttl_seconds: u64,
    pub result_retention_seconds: u64,
    pub lease_seconds: u64,
    pub reclaim_idle_seconds: u64,
}

impl Default for StreamSettings {
    fn default() -> (settings: Self)
        ensures
            settings.active_ttl_seconds == 3_600,
            settings.result_retention_seconds == 600,
            settings.lease_seconds == 60,
            settings.reclaim_idle_seconds == 90,
    {
        StreamSettings {
            active_ttl_seconds: 3_600,
            result_retention_seconds: 600,
            lease_seconds: 60,
            reclaim_idle_seconds: 90,
        }
    }
}

/// What a job asks the runtime for. The temperature is carried beside it.
#[derive(Debug, PartialEq, Eq)]
pub struct RuntimeRequest {
    pub model: String,
    pub messages: Option<Vec<Json>>,
    pub prompt: Option<String>,
    pub max_tokens: usize,
    pub stop: Vec<String>,
}

/// What a generation has used, and why it ended.
#[derive(Debug, PartialEq, Eq)]
pub struct GenerationUsage {
    pub prompt_tokens: u64,
    pub generated_tokens: u64,
    pub finish_reason: String,
}

/// Usage over numbers and text.
#[verifier::ext_equal]
pub struct UsageView {
    pub prompt_tokens: u64,
    pub generated_tokens: u64,
    pub finish_reason: Seq<char>,
}

impl View for GenerationUsage {
    type V = UsageView;

    open spec fn view(&self) -> UsageView {
        UsageView {
            prompt_tokens: self.prompt_tokens,
            generated_tokens: self.generated_tokens,
            finish_reason: self.finish_reason@,
        }
    }
}

impl Default for GenerationUsage {
    fn default() -> (usage: Self)
        ensures
            usage@ == (UsageView {
                prompt_tokens: 0,
                generated_tokens: 0,
                finish_reason: Seq::empty(),
            }),
    {
        GenerationUsage { prompt_tokens: 0, generated_tokens: 0, finish_reason: String::new() }
    }
}

/// The contents of messages that have one, in order.
pub open spec fn contents(messages: Seq<JsonView>) -> Seq<Seq<char>>
    decreases messages.len(),
{
    if messages.len() == 0 {
        Seq::empty()
    } else {
        let before = contents(messages.drop_last());
        match text_in(member(Some(messages.last()), "content"@)) {
            Some(content) => before.push(content),
            None => before,
        }
    }
}

/// The text of a request's prompt: the contents of its messages, one to a line,
/// or else its prompt.
pub open spec fn prompt_text(request: RuntimeRequest) -> Seq<char> {
    match (request.messages, request.prompt) {
        (Some(messages), _) => joined(contents(elements_said(messages@)), "\n"@),
        (None, Some(prompt)) => prompt@,
        (None, None) => Seq::empty(),
    }
}

/// The text of a request's prompt.
pub fn extract_prompt(request: &RuntimeRequest) -> (prompt: String)
    ensures
        prompt@ == prompt_text(*request),
{
    match (&request.messages, &request.prompt) {
        (Some(messages), _) => {
            let ghost all = elements_said(messages@);
            let mut parts: Vec<String> = Vec::new();
            let mut i: usize = 0;
            assert(texts(parts@) =~= contents(all.take(0)));
            while i < messages.len()
                invariant
                    i <= messages@.len(),
                    all == elements_said(messages@),
                    texts(parts@) == contents(all.take(i as int)),
                decreases messages@.len() - i,
            {
                assert(all.take(i + 1).drop_last() =~= all.take(i as int));
                assert(all.take(i + 1).last() == said(messages@[i as int]));
                let ghost before = texts(parts@);
                if let Some(content) = as_str(get(Some(&messages[i]), "content")) {
                    let part = content.to_string();
                    parts.push(part);
                    assert(texts(parts@) =~= before.push(part@));
                }
                i += 1;
            }
            assert(all.take(i as int) =~= all);
            join(&parts, "\n")
        },
        (None, Some(prompt)) => prompt.clone(),
        (None, None) => String::new(),
    }
}

/// A token for each word.
pub fn estimate_tokens(text: &str) -> (n: u64)
    ensures
        n == words(text@).len(),
{
    count_words(text) as u64
}

/// A message of the user's.
pub open spec fn user_message(content: Seq<char>) -> JsonView {
    JsonView::Object(
        seq![("role"@, JsonView::Text("user"@)), ("content"@, JsonView::Text(content))],
    )
}

fn user_message_json(content: String) -> (message: Json)
    ensures
        message@ == user_message(content@),
{
    let message = Json::Object(
        vec![
            ("role".to_string(), Json::Text("user".to_string())),
            ("content".to_string(), Json::Text(content)),
        ],
    );
    proof {
        reveal_with_fuel(said, 3);
        reveal_with_fuel(members_said, 3);
    }
    assert(message@->Object_0 =~= user_message(content@)->Object_0);
    message
}

/// The messages that a runtime gets: those of the request, or its prompt as
/// one message where it has none.
pub open spec fn messages_sent(request: RuntimeRequest) -> Seq<JsonView> {
    match request.messages {
        Some(messages) if messages@.len() > 0 => elements_said(messages@),
        _ => seq![
            user_message(
                match request.prompt {
                    Some(prompt) => prompt@,
                    None => Seq::empty(),
                },
            ),
        ],
    }
}

/// The strings of a list as a JSON array.
pub open spec fn text_array(items: Seq<Seq<char>>) -> JsonView {
    JsonView::Array(items.map_values(|text: Seq<char>| JsonView::Text(text)))
}

/// The body that a runtime is sent, but for the temperature. Stop strings are
/// passed on where there are any.
pub open spec fn payload_sent(request: RuntimeRequest) -> JsonView {
    let always = seq![
        ("model"@, JsonView::Text(request.model@)),
        ("messages"@, JsonView::Array(messages_sent(request))),
        ("max_tokens"@, JsonView::Unsigned(request.max_tokens as u64)),
        ("stream"@, JsonView::Bool(true)),
        (
            "stream_options"@,
            JsonView::Object(seq![("include_usage"@, JsonView::Bool(true))]),
        ),
    ];
    if request.stop@.len() == 0 {
        JsonView::Object(always)
    } else {
        JsonView::Object(always.push(("stop"@, text_array(texts(request.stop@)))))
    }
}

fn clone_documents(items: &Vec<Json>) -> (copy: Vec<Json>)
    ensures
        elements_said(copy@) == elements_said(items@),
{
    let mut copy: Vec<Json> = Vec::new();
    let mut i: usize = 0;
    while i < items.len()
        invariant
            i <= items@.len(),
            copy@.len() == i,
            forall|k: int| 0 <= k < i ==> said(#[trigger] copy@[k]) == said(items@[k]),
        decreases items@.len() - i,
    {
        let item = items[i].clone();
        copy.push(item);
        i += 1;
    }
    assert(elements_said(copy@) =~= elements_said(items@));
    copy
}

fn text_array_json(items: &Vec<String>) -> (array: Json)
    ensures
        array@ == text_array(texts(items@)),
{
    let mut array: Vec<Json> = Vec::new();
    let mut i: usize = 0;
    while i < items.len()
        invariant
            i <= items@.len(),
            array@.len() == i,
            forall|k: int|
                0 <= k < i ==> said(#[trigger] array@[k]) == JsonView::Text(items@[k]@),
        decreases items@.len() - i,
    {
        array.push(Json::Text(items[i].clone()));
        i += 1;
    }
    assert(elements_said(array@) =~= texts(items@).map_values(
        |text: Seq<char>| JsonView::Text(text),
    ));
    Json::Array(array)
}

/// The body that a runtime is sent, but for the temperature.
pub fn runtime_payload(request: &RuntimeRequest) -> (payload: Json)
    ensures
        payload@ == payload_sent(*request),
{
    let given = match &request.messages {
        Some(messages) => messages.len() > 0,
        None => false,
    };
    let messages = match &request.messages {
        Some(messages) if given => clone_documents(messages),
        _ => {
            let content = match &request.prompt {
                Some(prompt) => prompt.clone(),
                None => String::new(),
            };
            let only = vec![user_message_json(content)];
            assert(elements_said(only@) =~= seq![user_message(content@)]);
            only
        },
    };
    assert(elements_said(messages@) == messages_sent(*request));
    let options = Json::Object(vec![("include_usage".to_string(), Json::Bool(true))]);
    proof {
        reveal_with_fuel(said, 3);
        reveal_with_fuel(members_said, 3);
    }
    assert(options@->Object_0 =~= seq![("include_usage"@, JsonView::Bool(true))]);
    let mut members: Vec<(String, Json)> = vec![
        ("model".to_string(), Json::Text(request.model.clone())),
        ("messages".to_string(), Json::Array(messages)),
        ("max_tokens".to_string(), Json::Unsigned(request.max_tokens as u64)),
        ("stream".to_string(), Json::Bool(true)),
        ("stream_options".to_string(), options),
    ];
    if request.stop.len() > 0 {
        members.push(("stop".to_string(), text_array_json(&request.stop)));
    }
    let payload = Json::Object(members);
    assert(payload@->Object_0 =~= payload_sent(*request)->Object_0);
    payload
}

/// Where a runtime takes requests: the job's endpoint, or the engine's where
/// the job has none.
pub fn completions_url(job_endpoint: &str, engine_endpoint: &str) -> (url: String)
    ensures
        url@ == without_trailing(
            if job_endpoint@.len() == 0 {
                engine_endpoint@
            } else {
                job_endpoint@
            },
            '/',
        ) + "/v1/chat/completions"@,
{
    let endpoint = if job_endpoint.is_empty() {
        engine_endpoint
    } else {
        job_endpoint
    };
    let mut url = trim_end_char(endpoint, '/');
    url.append("/v1/chat/completions");
    url
}

/// Whether an engine serves a job's model.
pub fn check_model(job_model: &str, loaded: &str) -> (r: Result<(), String>)
    ensures
        match r {
            Ok(()) => job_model@ == loaded@,
            Err(message) => job_model@ != loaded@ && message@ == "model "@ + job_model@
                + " is not loaded by this engine"@,
        },
{
    if same_text(job_model, loaded) {
        Ok(())
    } else {
        let mut message = "model ".to_string();
        message.append(job_model);
        message.append(" is not loaded by this engine");
        Err(message)
    }
}

/// The first choice of an event.
pub open spec fn choice_in(value: JsonView) -> Option<JsonView> {
    first_element(member(Some(value), "choices"@))
}

/// The text that an event adds: that of the first choice's delta, or of the
/// choice itself where its delta has none.
pub open spec fn text_added(value: JsonView) -> Seq<char> {
    let choice = choice_in(value);
    let delta = member(member(choice, "delta"@), "content"@);
    text_or_empty(
        if delta is Some {
            delta
        } else {
            member(choice, "text"@)
        },
    )
}

/// The tokens that a text counts for while it is streamed.
pub open spec fn streamed_tokens(text: Seq<char>) -> nat {
    if words(text).len() == 0 {
        1
    } else {
        words(text).len()
    }
}

/// A sum, at most the largest that 64 bits hold.
pub open spec fn capped_sum(a: u64, b: nat) -> u64 {
    if a + b <= u64::MAX {
        (a + b) as u64
    } else {
        u64::MAX
    }
}

/// The usage after an event: the runtime's counts and its reason where it gives
/// them. Only where the event gives no count of what was generated are the
/// tokens of the text that it adds counted instead.
pub open spec fn usage_after(usage: UsageView, value: JsonView) -> UsageView {
    let given = member(Some(value), "usage"@);
    let text = text_added(value);
    UsageView {
        prompt_tokens: match unsigned_in(member(given, "prompt_tokens"@)) {
            Some(n) => n,
            None => usage.prompt_tokens,
        },
        generated_tokens: match unsigned_in(member(given, "completion_tokens"@)) {
            Some(n) => n,
            None => if text.len() > 0 {
                capped_sum(usage.generated_tokens, streamed_tokens(text))
            } else {
                usage.generated_tokens
            },
        },
        finish_reason: match text_in(member(choice_in(value), "finish_reason"@)) {
            Some(reason) => reason,
            None => usage.finish_reason,
        },
    }
}

/// What a data field that is no JSON is reported as.
pub open spec fn undecodable(data: Seq<char>, fault: Seq<char>) -> Seq<char> {
    "decode model SSE event: "@ + data + ": "@ + fault
}

impl GenerationUsage {
    /// Takes an event of the runtime's stream: the text that it adds, if any.
    pub fn take_event(&mut self, value: &Json) -> (text: Option<String>)
        ensures
            final(self)@ == usage_after(old(self)@, value@),
            match text {
                Some(text) => text@ == text_added(value@) && text@.len() > 0,
                None => text_added(value@).len() == 0,
            },
    {
        let given = get(Some(value), "usage");
        if let Some(n) = as_u64(get(given, "prompt_tokens")) {
            self.prompt_tokens = n;
        }
        let counted = as_u64(get(given, "completion_tokens"));
        let choice = first(get(Some(value), "choices"));
        if let Some(reason) = as_str(get(choice, "finish_reason")) {
            self.finish_reason = reason.to_string();
        }
        let delta = get(get(choice, "delta"), "content");
        let text = if delta.is_some() {
            str_or_empty(delta)
        } else {
            str_or_empty(get(choice, "text"))
        };
        if let Some(n) = counted {
            self.generated_tokens = n;
        } else if !text.as_str().is_empty() {
            let estimate: u64 = estimate_tokens(text.as_str());
            let tokens: u64 = if estimate == 0 {
                1
            } else {
                estimate
            };
            self.generated_tokens = self.generated_tokens.saturating_add(tokens);
        }
        if text.as_str().is_empty() {
            None
        } else {
            Some(text)
        }
    }

    /// Takes a data field of the runtime's stream: the text that it adds, if
    /// any, or what is wrong where it is no JSON.
    pub fn take_data(&mut self, data: &str) -> (r: Result<Option<String>, String>)
        ensures
            match parsed_json(data@) {
                Ok(value) => {
                    &&& final(self)@ == usage_after(old(self)@, value)
                    &&& r matches Ok(added)
                    &&& match added {
                        Some(text) => text@ == text_added(value) && text@.len() > 0,
                        None => text_added(value).len() == 0,
                    }
                },
                Err(fault) => {
                    &&& final(self)@ == old(self)@
                    &&& r matches Err(message)
                    &&& message@ == undecodable(data@, fault)
                },
            },
    {
        match parse_json(data) {
            Ok(value) => Ok(self.take_event(&value)),
            Err(fault) => {
                let mut message = "decode model SSE event: ".to_string();
                message.append(data);
                message.append(": ");
                message.append(fault.as_str());
                Err(message)
            },
        }
    }

    /// Closes the usage of a runtime's stream: the prompt is estimated where the
    /// runtime has not counted it.
    pub fn close(&mut self, request: &RuntimeRequest)
        ensures
            final(self)@ == closed_usage(old(self)@, prompt_text(*request)),
    {
        if self.prompt_tokens == 0 {
            let prompt = extract_prompt(request);
            self.prompt_tokens = estimate_tokens(prompt.as_str());
        }
    }
}

/// The usage of a runtime's stream once it has ended.
pub open spec fn closed_usage(usage: UsageView, prompt: Seq<char>) -> UsageView {
    UsageView {
        prompt_tokens: if usage.prompt_tokens == 0 {
            words(prompt).len() as u64
        } else {
            usage.prompt_tokens
        },
        ..usage
    }
}

/// The part of a runtime's stream that is no complete line yet.
pub struct LineBuffer {
    pending: String,
}

impl View for LineBuffer {
    type V = Seq<char>;

    closed spec fn view(&self) -> Seq<char> {
        self.pending@
    }
}

impl LineBuffer {
    /// A buffer with nothing in it.
    pub fn new() -> (buffer: Self)
        ensures
            buffer@ == Seq::<char>::empty(),
    {
        LineBuffer { pending: String::new() }
    }

    /// Takes a chunk of the stream: the data fields that it completes.
    pub fn push(&mut self, chunk: &[u8]) -> (data: Vec<String>)
        ensures
            texts(data@) == lines_data(ended_pieces(old(self)@ + lossy_text(chunk@), "\n"@)),
            final(self)@ == unended(old(self)@ + lossy_text(chunk@), "\n"@),
    {
        let text = decode_lossy(chunk);
        self.pending.append(text.as_str());
        drain_data_lines(&mut self.pending)
    }
}

/// The words that the synthetic backend puts out for a prompt.
pub open spec fn synthetic_words(prompt: Seq<char>, max_tokens: usize) -> Seq<Seq<char>> {
    let all = words("Generated response for: "@ + prompt);
    if all.len() <= max_tokens {
        all
    } else {
        all.take(max_tokens as int)
    }
}

/// The tokens that the synthetic backend puts out, each with a space behind it,
/// and what it reports as used.
fn synthetic_tokens(request: &RuntimeRequest) -> (r: (Vec<String>, GenerationUsage))
    ensures
        texts(r.0@) == synthetic_words(prompt_text(*request), request.max_tokens).map_values(
            |word: Seq<char>| word + " "@,
        ),
        r.1@ == (UsageView {
            prompt_tokens: words(prompt_text(*request)).len() as u64,
            generated_tokens: r.0@.len() as u64,
            finish_reason: "stop"@,
        }),
{
    let prompt = extract_prompt(request);
    let mut response = "Generated response for: ".to_string();
    response.append(prompt.as_str());
    let all = split_words(response.as_str());
    let ghost expected = synthetic_words(prompt@, request.max_tokens).map_values(
        |word: Seq<char>| word + " "@,
    );
    let limit: usize = if all.len() <= request.max_tokens {
        all.len()
    } else {
        request.max_tokens
    };
    let mut tokens: Vec<String> = Vec::new();
    let mut i: usize = 0;
    assert(texts(tokens@) =~= expected.take(0));
    while i < limit
        invariant
            i <= limit <= all@.len(),
            limit == expected.len(),
            texts(all@) == words("Generated response for: "@ + prompt@),
            limit == if all@.len() <= request.max_tokens {
                all@.len()
            } else {
                request.max_tokens as nat
            },
            expected == synthetic_words(prompt@, request.max_tokens).map_values(
                |word: Seq<char>| word + " "@,
            ),
            texts(tokens@) == expected.take(i as int),
        decreases limit - i,
    {
        let mut token = all[i].clone();
        token.append(" ");
        let ghost before = texts(tokens@);
        assert(texts(all@)[i as int] == all@[i as int]@);
        tokens.push(token);
        assert(texts(tokens@) =~= before.push(token@));
        assert(expected[i as int] == token@);
        assert(expected.take(i + 1) =~= expected.take(i as int).push(token@));
        i += 1;
    }
    assert(expected.take(i as int) =~= expected);
    let usage = GenerationUsage {
        prompt_tokens: estimate_tokens(prompt.as_str()),
        generated_tokens: tokens.len() as u64,
        finish_reason: "stop".to_string(),
    };
    (tokens, usage)
}

/// Whether a result speaks of a job's attempt.
pub open spec fn result_of(
    result: GenerationResult,
    request_id: Seq<char>,
    attempt_id: Seq<char>,
) -> bool {
    &&& result.schema_version == SCHEMA_VERSION
    &&& result.request_id@ == request_id
    &&& result.attempt_id@ == attempt_id
}

fn result_with(request_id: &str, attempt_id: &str, event: ResultEvent) -> (r: GenerationResult)
    ensures
        result_of(r, request_id@, attempt_id@),
        r.event == Some(event),
{
    GenerationResult {
        schema_version: SCHEMA_VERSION,
        request_id: request_id.to_string(),
        attempt_id: attempt_id.to_string(),
        event: Some(event),
    }
}

/// The result that an attempt starts with.
pub fn started_result(request_id: &str, attempt_id: &str) -> (r: GenerationResult)
    ensures
        result_of(r, request_id@, attempt_id@),
        r.event == Some(ResultEvent::AttemptStarted),
{
    result_with(request_id, attempt_id, ResultEvent::AttemptStarted)
}

/// The result that carries a token.
pub fn token_result(
    request_id: &str,
    attempt_id: &str,
    text: String,
    generated_tokens: u64,
) -> (r: GenerationResult)
    ensures
        result_of(r, request_id@, attempt_id@),
        r.event == Some(
            ResultEvent::Token { text, cumulative_generated_tokens: generated_tokens },
        ),
{
    result_with(
        request_id,
        attempt_id,
        ResultEvent::Token { text, cumulative_generated_tokens: generated_tokens },
    )
}

/// The result that a generation is completed with.
pub fn completion_result(
    request_id: &str,
    attempt_id: &str,
    usage: &GenerationUsage,
) -> (r: GenerationResult)
    ensures
        result_of(r, request_id@, attempt_id@),
        r.event matches Some(
            ResultEvent::Completed { prompt_tokens, generated_tokens, finish_reason },
        ) && prompt_tokens == usage.prompt_tokens && generated_tokens == usage.generated_tokens
            && finish_reason@ == usage.finish_reason@,
{
    result_with(
        request_id,
        attempt_id,
        ResultEvent::Completed {
            prompt_tokens: usage.prompt_tokens,
            generated_tokens: usage.generated_tokens,
            finish_reason: usage.finish_reason.clone(),
        },
    )
}

/// The result that a generation fails with.
pub fn failure_result(request_id: &str, attempt_id: &str, code: &str, message: &str) -> (r:
    GenerationResult)
    ensures
        result_of(r, request_id@, attempt_id@),
        r.event matches Some(ResultEvent::Failed { code: c, message: m, retryable }) && c@ == code@
            && m@ == message@ && !retryable,
{
    result_with(
        request_id,
        attempt_id,
        ResultEvent::Failed {
            code: code.to_string(),
            message: message.to_string(),
            retryable: false,
        },
    )
}

/// Whether a heartbeat goes on after it tried to renew the lease: a lease that
/// was lost ends it, a broker that gave no answer does not.
pub fn heartbeat_goes_on(renewed: Option<bool>) -> (r: bool)
    ensures
        r == (renewed != Some(false)),
{
    match renewed {
        Some(renewed) => renewed,
        None => true,
    }
}

/// What an attempt reports as used: `stop` stands in for a missing reason.
pub open spec fn with_reason(usage: UsageView) -> UsageView {
    UsageView {
        finish_reason: if usage.finish_reason.len() == 0 {
            "stop"@
        } else {
            usage.finish_reason
        },
        ..usage
    }
}

/// How far an attempt has come: what is to be done next.
enum AttemptState {
    ReadRequest,
    PublishStart,
    Generate,
    PublishToken { text: String, generated_tokens: u64 },
    Over(AttemptOutcome),
}

/// How far an attempt has come.
pub enum AttemptStage {
    /// The job's request is to be read.
    ReadRequest,
    /// The start is to be published.
    PublishStart,
    /// The backend is to be waited for.
    Generate,
    /// A token is to be published.
    PublishToken { text: Seq<char>, generated_tokens: u64 },
    /// The attempt is over.
    Over(Result<UsageView, Seq<char>>),
}

/// What the engine is to do for an attempt.
#[derive(Debug, PartialEq, Eq)]
pub enum AttemptAction {
    /// Read what the job asks for.
    ReadRequest,
    /// Publish a result.
    Publish(GenerationResult),
    /// Wait for the backend to put out a token or to end.
    Generate,
    /// Nothing more: the attempt is over.
    Leave,
}

/// What doing it gave.
#[derive(Debug, PartialEq, Eq)]
pub enum AttemptEvent {
    /// It was done.
    Done,
    /// The backend put out a token; so many are generated with it.
    Token { text: String, generated_tokens: u64 },
    /// The backend ended.
    Ended(GenerationUsage),
    /// It failed, with these words.
    Fault(String),
}

/// The stage that an attempt starts in: one for a model that the engine has not
/// loaded is over at once.
pub open spec fn first_attempt_stage(job_model: Seq<char>, loaded: Seq<char>) -> AttemptStage {
    if job_model == loaded {
        AttemptStage::ReadRequest
    } else {
        AttemptStage::Over(Err("model "@ + job_model + " is not loaded by this engine"@))
    }
}

/// The stage after an event. Whatever fails ends the attempt; an event that
/// does not belong to the stage changes nothing.
pub open spec fn attempt_stage_after(stage: AttemptStage, event: AttemptEvent) -> AttemptStage {
    match (stage, event) {
        (AttemptStage::Over(outcome), _) => AttemptStage::Over(outcome),
        (_, AttemptEvent::Fault(words)) => AttemptStage::Over(Err(words@)),
        (AttemptStage::ReadRequest, AttemptEvent::Done) => AttemptStage::PublishStart,
        (AttemptStage::PublishStart, AttemptEvent::Done) => AttemptStage::Generate,
        (AttemptStage::Generate, AttemptEvent::Token { text, generated_tokens }) =>
            AttemptStage::PublishToken { text: text@, generated_tokens },
        (AttemptStage::Generate, AttemptEvent::Ended(usage)) => AttemptStage::Over(
            Ok(with_reason(usage@)),
        ),
        (AttemptStage::PublishToken { .. }, AttemptEvent::Done) => AttemptStage::Generate,
        (stage, _) => stage,
    }
}

/// Whether an action is what a stage of an attempt calls for.
pub open spec fn attempt_calls_for(
    action: AttemptAction,
    request_id: Seq<char>,
    attempt_id: Seq<char>,
    stage: AttemptStage,
) -> bool {
    match stage {
        AttemptStage::ReadRequest => action is ReadRequest,
        AttemptStage::PublishStart => action matches AttemptAction::Publish(result) && result_of(
            result,
            request_id,
            attempt_id,
        ) && result.event == Some(ResultEvent::AttemptStarted),
        AttemptStage::Generate => action is Generate,
        AttemptStage::PublishToken { text, generated_tokens } => action matches
            AttemptAction::Publish(result) && result_of(result, request_id, attempt_id) && (
        result.event matches Some(ResultEvent::Token { text: t, cumulative_generated_tokens })
            && t@ == text && cumulative_generated_tokens == generated_tokens),
        AttemptStage::Over(_) => action is Leave,
    }
}

/// What an outcome says.
pub open spec fn outcome_said(outcome: AttemptOutcome) -> Result<UsageView, Seq<char>> {
    match outcome {
        Ok(usage) => Ok(usage@),
        Err(error) => Err(error@),
    }
}

/// An attempt on its way.
pub struct AttemptRun {
    request_id: String,
    attempt_id: String,
    state: AttemptState,
}

impl AttemptRun {
    /// The generation that is attempted.
    pub closed spec fn request(&self) -> Seq<char> {
        self.request_id@
    }

    /// The attempt's identifier.
    pub closed spec fn attempt(&self) -> Seq<char> {
        self.attempt_id@
    }

    /// How far the attempt has come.
    pub closed spec fn stage(&self) -> AttemptStage {
        match self.state {
            AttemptState::ReadRequest => AttemptStage::ReadRequest,
            AttemptState::PublishStart => AttemptStage::PublishStart,
            AttemptState::Generate => AttemptStage::Generate,
            AttemptState::PublishToken { text, generated_tokens } => AttemptStage::PublishToken {
                text: text@,
                generated_tokens,
            },
            AttemptState::Over(outcome) => AttemptStage::Over(outcome_said(outcome)),
        }
    }

    /// Starts an attempt at a job, with the model that the engine has loaded.
    pub fn start(job: &GenerationJob, attempt_id: &str, loaded: &str) -> (run: Self)
        ensures
            run.request() == job.request_id@,
            run.attempt() == attempt_id@,
            run.stage() == first_attempt_stage(job.model_id@, loaded@),
    {
        let state = match check_model(job.model_id.as_str(), loaded) {
            Ok(()) => AttemptState::ReadRequest,
            Err(message) => AttemptState::Over(Err(message)),
        };
        AttemptRun {
            request_id: job.request_id.clone(),
            attempt_id: attempt_id.to_string(),
            state,
        }
    }

    /// What is to be done next.
    pub fn action(&self) -> (action: AttemptAction)
        ensures
            attempt_calls_for(action, self.request(), self.attempt(), self.stage()),
    {
        match &self.state {
            AttemptState::ReadRequest => AttemptAction::ReadRequest,
            AttemptState::PublishStart => AttemptAction::Publish(
                started_result(self.request_id.as_str(), self.attempt_id.as_str()),
            ),
            AttemptState::Generate => AttemptAction::Generate,
            AttemptState::PublishToken { text, generated_tokens } => AttemptAction::Publish(
                token_result(
                    self.request_id.as_str(),
                    self.attempt_id.as_str(),
                    text.clone(),
                    *generated_tokens,
                ),
            ),
            AttemptState::Over(_) => AttemptAction::Leave,
        }
    }

    /// The run with what doing the next thing gave.
    pub fn after(self, event: AttemptEvent) -> (run: Self)
        ensures
            run.request() == self.request(),
            run.attempt() == self.attempt(),
            run.stage() == attempt_stage_after(self.stage(), event),
    {
        let AttemptRun { request_id, attempt_id, state } = self;
        let state = match (state, event) {
            (AttemptState::Over(outcome), _) => AttemptState::Over(outcome),
            (_, AttemptEvent::Fault(words)) => AttemptState::Over(Err(words)),
            (AttemptState::ReadRequest, AttemptEvent::Done) => AttemptState::PublishStart,
            (AttemptState::PublishStart, AttemptEvent::Done) => AttemptState::Generate,
            (AttemptState::Generate, AttemptEvent::Token { text, generated_tokens }) =>
                AttemptState::PublishToken { text, generated_tokens },
            (AttemptState::Generate, AttemptEvent::Ended(usage)) => {
                let mut usage = usage;
                if usage.finish_reason.as_str().is_empty() {
                    usage.finish_reason = "stop".to_string();
                }
                AttemptState::Over(Ok(usage))
            },
            (AttemptState::PublishToken { .. }, AttemptEvent::Done) => AttemptState::Generate,
            (state, _) => state,
        };
        AttemptRun { request_id, attempt_id, state }
    }

    /// What the attempt came to, once it is over.
    pub fn outcome(self) -> (outcome: Option<AttemptOutcome>)
        ensures
            match outcome {
                Some(outcome) => self.stage() == AttemptStage::Over(outcome_said(outcome)),
                None => !(self.stage() is Over),
            },
    {
        match self.state {
            AttemptState::Over(outcome) => Some(outcome),
            _ => None,
        }
    }
}

/// The stages of an attempt, from its first to the one after the last event.
pub open spec fn attempt_stages(start: AttemptStage, events: Seq<AttemptEvent>) -> Seq<AttemptStage>
    decreases events.len(),
{
    if events.len() == 0 {
        seq![start]
    } else {
        let before = attempt_stages(start, events.drop_last());
        before.push(attempt_stage_after(before.last(), events.last()))
    }
}

/// Whether an attempt's start was published at a stage.
pub open spec fn start_published(run: Seq<AttemptStage>, j: int) -> bool {
    &&& 0 <= j
    &&& j + 1 < run.len()
    &&& run[j] is PublishStart
    &&& run[j + 1] is Generate
}

proof fn lemma_attempt(start: AttemptStage, events: Seq<AttemptEvent>)
    requires
        start is ReadRequest || start is Over,
    ensures
        ({
            let run = attempt_stages(start, events);
            &&& run.len() == events.len() + 1
            &&& start is Over ==> forall|k: int| 0 <= k < run.len() ==> #[trigger] run[k] == start
            &&& forall|k: int|
                0 <= k < run.len() && (#[trigger] run[k] is Generate || run[k] is PublishToken)
                    ==> exists|j: int| j < k && #[trigger] start_published(run, j)
        }),
    decreases events.len(),
{
    if events.len() > 0 {
        lemma_attempt(start, events.drop_last());
        let before = attempt_stages(start, events.drop_last());
        let run = attempt_stages(start, events);
        let n = before.len() as int;
        assert(run =~= before.push(run[n]));
        assert(run[n - 1] == before[n - 1]);
        assert forall|k: int|
            0 <= k < run.len() && (#[trigger] run[k] is Generate || run[k] is PublishToken)
            implies exists|j: int| j < k && #[trigger] start_published(run, j) by {
            let m = if k < n {
                k
            } else {
                n - 1
            };
            if k == n && before[n - 1] is PublishStart {
                assert(start_published(run, n - 1));
            } else {
                assert(before[m] is Generate || before[m] is PublishToken);
                let j = choose|j: int| j < m && #[trigger] start_published(before, j);
                assert(run[j] == before[j] && run[j + 1] == before[j + 1]);
                assert(start_published(run, j));
            }
        }
    }
}

/// An attempt's start is published before any of its tokens: no token is to be
/// published at a stage before which the start was not.
pub proof fn law_starts_come_before_tokens(
    job_model: Seq<char>,
    loaded: Seq<char>,
    events: Seq<AttemptEvent>,
    k: int,
)
    requires
        0 <= k < attempt_stages(first_attempt_stage(job_model, loaded), events).len(),
        attempt_stages(first_attempt_stage(job_model, loaded), events)[k] is PublishToken,
    ensures
        exists|j: int|
            j < k && #[trigger] start_published(
                attempt_stages(first_attempt_stage(job_model, loaded), events),
                j,
            ),
{
    lemma_attempt(first_attempt_stage(job_model, loaded), events);
}

/// An attempt at a model that the engine has not loaded fails and publishes
/// nothing: it is over from its first stage on.
pub proof fn law_other_models_are_not_attempted(
    job_model: Seq<char>,
    loaded: Seq<char>,
    events: Seq<AttemptEvent>,
    k: int,
)
    requires
        job_model != loaded,
        0 <= k < attempt_stages(first_attempt_stage(job_model, loaded), events).len(),
    ensures
        attempt_stages(first_attempt_stage(job_model, loaded), events)[k] == AttemptStage::Over(
            Err("model "@ + job_model + " is not loaded by this engine"@),
        ),
{
    lemma_attempt(first_attempt_stage(job_model, loaded), events);
}

/// An attempt that ends well gives a reason: the backend's, or `stop`.
pub proof fn law_finished_attempts_give_a_reason(stage: AttemptStage, event: AttemptEvent)
    requires
        !(stage is Over),
    ensures
        attempt_stage_after(stage, event) matches AttemptStage::Over(Ok(usage)) ==> {
            &&& event matches AttemptEvent::Ended(given)
            &&& usage == with_reason(given@)
            &&& usage.finish_reason.len() > 0
        },
{
    reveal_strlit("stop");
}

/// What the synthetic backend puts out, one after another: each token with the
/// number of tokens so far, and the end with what was used.
pub fn synthetic_events(request: &RuntimeRequest) -> (events: Vec<AttemptEvent>)
    ensures
        ({
            let all = synthetic_words(prompt_text(*request), request.max_tokens);
            &&& events@.len() == all.len() + 1
            &&& forall|i: int|
                0 <= i < all.len() ==> (#[trigger] events@[i] matches AttemptEvent::Token {
                    text,
                    generated_tokens,
                } && text@ == all[i] + " "@ && generated_tokens == i + 1)
            &&& events@.last() matches AttemptEvent::Ended(usage) && usage@ == (UsageView {
                prompt_tokens: words(prompt_text(*request)).len() as u64,
                generated_tokens: all.len() as u64,
                finish_reason: "stop"@,
            })
        }),
{
    let (tokens, usage) = synthetic_tokens(request);
    let ghost all = synthetic_words(prompt_text(*request), request.max_tokens);
    let ghost spaced = all.map_values(|word: Seq<char>| word + " "@);
    assert(tokens@.len() == texts(tokens@).len());
    assert forall|k: int| 0 <= k < all.len() implies tokens@[k]@ == #[trigger] all[k] + " "@ by {
        assert(texts(tokens@)[k] == spaced[k]);
    }
    let mut events: Vec<AttemptEvent> = Vec::new();
    let mut i: usize = 0;
    while i < tokens.len()
        invariant
            i <= tokens@.len(),
            tokens@.len() == all.len(),
            forall|k: int| 0 <= k < all.len() ==> tokens@[k]@ == #[trigger] all[k] + " "@,
            events@.len() == i,
            forall|k: int|
                0 <= k < i ==> (#[trigger] events@[k] matches AttemptEvent::Token {
                    text,
                    generated_tokens,
                } && text@ == all[k] + " "@ && generated_tokens == k + 1),
        decreases tokens@.len() - i,
    {
        assert(tokens@[i as int]@ == all[i as int] + " "@);
        events.push(
            AttemptEvent::Token { text: tokens[i].clone(), generated_tokens: i as u64 + 1 },
        );
        i += 1;
    }
    events.push(AttemptEvent::Ended(usage));
    events
}

/// What becomes of a job's entry in the stream.
#[derive(Debug, Clone, Copy, PartialEq, Eq, Structural)]
pub enum JobDisposition {
    /// The job is over.
    Acknowledge,
    /// Another engine holds the job.
    Pending,
    /// The broker failed; the job stays pending.
    Interrupted,
}

/// What an attempt came to: what it used, or why it failed.
pub type AttemptOutcome = Result<GenerationUsage, String>;

/// How far a job has come: what is to be done next.
#[derive(Debug, PartialEq, Eq)]
pub enum JobStage {
    CancelExpired,
    PublishExpired,
    ReadStatus,
    AcquireLease,
    Attempt,
    ReleaseLease(AttemptOutcome),
    SettleQuota(AttemptOutcome),
    PublishEnd(AttemptOutcome),
    Over(JobDisposition),
}

/// What doing it gave.
#[derive(Debug, PartialEq, Eq)]
pub enum JobEvent {
    /// It was done.
    Done,
    /// The state that the generation's status has, if there is a status.
    Status(Option<String>),
    /// Whether the lease was got.
    Lease(bool),
    /// What the attempt came to.
    Attempted(AttemptOutcome),
    /// The broker failed.
    Fault,
}

/// The stage after an event. An event that does not belong to the stage, as any
/// fault of the broker, leaves the job pending.
pub open spec fn stage_after(stage: JobStage, event: JobEvent) -> JobStage {
    match (stage, event) {
        (JobStage::Over(disposition), _) => JobStage::Over(disposition),
        (JobStage::CancelExpired, JobEvent::Done) => JobStage::PublishExpired,
        (JobStage::PublishExpired, JobEvent::Done) => JobStage::Over(JobDisposition::Acknowledge),
        (JobStage::ReadStatus, JobEvent::Status(state)) => if crate::streams::opt_text(state)
            == Some("completed"@) {
            JobStage::Over(JobDisposition::Acknowledge)
        } else {
            JobStage::AcquireLease
        },
        (JobStage::AcquireLease, JobEvent::Lease(got)) => if got {
            JobStage::Attempt
        } else {
            JobStage::Over(JobDisposition::Pending)
        },
        (JobStage::Attempt, JobEvent::Attempted(outcome)) => JobStage::ReleaseLease(outcome),
        (JobStage::ReleaseLease(outcome), JobEvent::Done) => JobStage::SettleQuota(outcome),
        (JobStage::SettleQuota(outcome), JobEvent::Done) => JobStage::PublishEnd(outcome),
        (JobStage::PublishEnd(_), JobEvent::Done) => JobStage::Over(JobDisposition::Acknowledge),
        _ => JobStage::Over(JobDisposition::Interrupted),
    }
}

/// The stage that a job starts in: a deadline that has passed ends it at once.
pub open spec fn first_stage(deadline_unix_ms: u64, now_ms: u64) -> JobStage {
    if deadline_unix_ms > 0 && now_ms > deadline_unix_ms {
        JobStage::CancelExpired
    } else {
        JobStage::ReadStatus
    }
}

/// What the engine is to do.
#[derive(Debug, PartialEq, Eq)]
pub enum JobAction {
    /// Give the whole reservation back.
    CancelQuota { reservation_id: String },
    /// Publish a result.
    Publish(GenerationResult),
    /// Look the generation's status up.
    ReadStatus,
    /// Take the generation's lease for an owner.
    AcquireLease { owner: String },
    /// Run the attempt while the lease is kept up.
    Attempt { attempt_id: String, owner: String },
    /// Give the lease up.
    ReleaseLease { owner: String },
    /// Settle the reservation for what was generated.
    SettleQuota { reservation_id: String, generated_tokens: u64 },
    /// Leave the job as it is to be left.
    Leave(JobDisposition),
}

/// A job on its way through an engine.
pub struct JobRun {
    request_id: String,
    reservation_id: String,
    engine_id: String,
    attempt_id: String,
    stage: JobStage,
}

/// Who a job is run for and by.
#[verifier::ext_equal]
pub struct RunNames {
    pub request_id: Seq<char>,
    pub reservation_id: Seq<char>,
    pub engine_id: Seq<char>,
    pub attempt_id: Seq<char>,
}

/// What is generated in an outcome.
pub open spec fn generated_in(outcome: AttemptOutcome) -> u64 {
    match outcome {
        Ok(usage) => usage.generated_tokens,
        Err(_) => 0,
    }
}

/// Whether a result ends a generation as its attempt came out.
pub open spec fn reports(result: GenerationResult, names: RunNames, outcome: AttemptOutcome) -> bool {
    &&& result_of(result, names.request_id, names.attempt_id)
    &&& match outcome {
        Ok(usage) => result.event matches Some(
            ResultEvent::Completed { prompt_tokens, generated_tokens, finish_reason },
        ) && prompt_tokens == usage.prompt_tokens && generated_tokens == usage.generated_tokens
            && finish_reason@ == usage.finish_reason@,
        Err(error) => result.event matches Some(ResultEvent::Failed { code, message, retryable })
            && code@ == "backend_error"@ && message@ == error@ && !retryable,
    }
}

/// Whether an action is what a stage calls for.
pub open spec fn called_for(action: JobAction, names: RunNames, stage: JobStage) -> bool {
    let owner_name = names.engine_id + ":"@ + names.attempt_id;
    match stage {
        JobStage::CancelExpired => action matches JobAction::CancelQuota { reservation_id }
            && reservation_id@ == names.reservation_id,
        JobStage::PublishExpired => action matches JobAction::Publish(result) && result_of(
            result,
            names.request_id,
            names.engine_id,
        ) && (result.event matches Some(ResultEvent::Failed { code, message, retryable }) && code@
            == "deadline_exceeded"@ && message@ == "generation deadline exceeded"@ && !retryable),
        JobStage::ReadStatus => action is ReadStatus,
        JobStage::AcquireLease => action matches JobAction::AcquireLease { owner } && owner@
            == owner_name,
        JobStage::Attempt => action matches JobAction::Attempt { attempt_id, owner } && attempt_id@
            == names.attempt_id && owner@ == owner_name,
        JobStage::ReleaseLease(_) => action matches JobAction::ReleaseLease { owner } && owner@
            == owner_name,
        JobStage::SettleQuota(outcome) => action matches JobAction::SettleQuota {
            reservation_id,
            generated_tokens,
        } && reservation_id@ == names.reservation_id && generated_tokens == generated_in(outcome),
        JobStage::PublishEnd(outcome) => action matches JobAction::Publish(result) && reports(
            result,
            names,
            outcome,
        ),
        JobStage::Over(disposition) => action == JobAction::Leave(disposition),
    }
}

impl JobRun {
    /// Who the job is run for and by.
    pub closed spec fn names(&self) -> RunNames {
        RunNames {
            request_id: self.request_id@,
            reservation_id: self.reservation_id@,
            engine_id: self.engine_id@,
            attempt_id: self.attempt_id@,
        }
    }

    /// How far the job has come.
    pub closed spec fn stage(&self) -> JobStage {
        self.stage
    }

    /// Starts on a job, at a time and with an identifier for the attempt.
    pub fn start_at(job: &GenerationJob, engine_id: &str, attempt: u128, now_ms: u64) -> (run: Self)
        ensures
            run.names() == (RunNames {
                request_id: job.request_id@,
                reservation_id: job.reservation_id@,
                engine_id: engine_id@,
                attempt_id: hyphenated(attempt),
            }),
            run.stage() == first_stage(job.deadline_unix_ms, now_ms),
    {
        let expired = job.deadline_unix_ms > 0 && now_ms > job.deadline_unix_ms;
        JobRun {
            request_id: job.request_id.clone(),
            reservation_id: job.reservation_id.clone(),
            engine_id: engine_id.to_string(),
            attempt_id: uuid_text(attempt),
            stage: if expired {
                JobStage::CancelExpired
            } else {
                JobStage::ReadStatus
            },
        }
    }

    /// Starts on a job now, with a fresh identifier for the attempt.
    pub fn start(job: &GenerationJob, engine_id: &str) -> (run: Self)
        ensures
            exists|attempt: u128|
                random_uuid(attempt) && run.names() == (RunNames {
                    request_id: job.request_id@,
                    reservation_id: job.reservation_id@,
                    engine_id: engine_id@,
                    attempt_id: #[trigger] hyphenated(attempt),
                }),
            exists|now_ms: u64|
                run.stage() == #[trigger] first_stage(job.deadline_unix_ms, now_ms),
    {
        let attempt = fresh_uuid();
        let now_ms = unix_ms();
        Self::start_at(job, engine_id, attempt, now_ms)
    }

    fn owner(&self) -> (owner: String)
        ensures
            owner@ == self.names().engine_id + ":"@ + self.names().attempt_id,
    {
        let mut owner = self.engine_id.clone();
        owner.append(":");
        owner.append(self.attempt_id.as_str());
        owner
    }

    /// What is to be done next.
    pub fn action(&self) -> (action: JobAction)
        ensures
            called_for(action, self.names(), self.stage()),
    {
        match &self.stage {
            JobStage::CancelExpired => JobAction::CancelQuota {
                reservation_id: self.reservation_id.clone(),
            },
            JobStage::PublishExpired => JobAction::Publish(
                failure_result(
                    self.request_id.as_str(),
                    self.engine_id.as_str(),
                    "deadline_exceeded",
                    "generation deadline exceeded",
                ),
            ),
            JobStage::ReadStatus => JobAction::ReadStatus,
            JobStage::AcquireLease => JobAction::AcquireLease { owner: self.owner() },
            JobStage::Attempt => JobAction::Attempt {
                attempt_id: self.attempt_id.clone(),
                owner: self.owner(),
            },
            JobStage::ReleaseLease(_) => JobAction::ReleaseLease { owner: self.owner() },
            JobStage::SettleQuota(outcome) => {
                let generated_tokens: u64 = match outcome {
                    Ok(usage) => usage.generated_tokens,
                    Err(_) => 0,
                };
                JobAction::SettleQuota {
                    reservation_id: self.reservation_id.clone(),
                    generated_tokens,
                }
            },
            JobStage::PublishEnd(outcome) => JobAction::Publish(
                match outcome {
                    Ok(usage) => completion_result(
                        self.request_id.as_str(),
                        self.attempt_id.as_str(),
                        usage,
                    ),
                    Err(error) => failure_result(
                        self.request_id.as_str(),
                        self.attempt_id.as_str(),
                        "backend_error",
                        error.as_str(),
                    ),
                },
            ),
            JobStage::Over(disposition) => JobAction::Leave(*disposition),
        }
    }

    /// The run with what doing the next thing gave.
    pub fn after(self, event: JobEvent) -> (run: Self)
        ensures
            run.names() == self.names(),
            run.stage() == stage_after(self.stage(), event),
    {
        let JobRun { request_id, reservation_id, engine_id, attempt_id, stage } = self;
        let stage = match (stage, event) {
            (JobStage::Over(disposition), _) => JobStage::Over(disposition),
            (JobStage::CancelExpired, JobEvent::Done) => JobStage::PublishExpired,
            (JobStage::PublishExpired, JobEvent::Done) => JobStage::Over(
                JobDisposition::Acknowledge,
            ),
            (JobStage::ReadStatus, JobEvent::Status(state)) => {
                let completed = match &state {
                    Some(state) => same_text(state.as_str(), "completed"),
                    None => false,
                };
                if completed {
                    JobStage::Over(JobDisposition::Acknowledge)
                } else {
                    JobStage::AcquireLease
                }
            },
            (JobStage::AcquireLease, JobEvent::Lease(got)) => if got {
                JobStage::Attempt
            } else {
                JobStage::Over(JobDisposition::Pending)
            },
            (JobStage::Attempt, JobEvent::Attempted(outcome)) => JobStage::ReleaseLease(outcome),
            (JobStage::ReleaseLease(outcome), JobEvent::Done) => JobStage::SettleQuota(outcome),
            (JobStage::SettleQuota(outcome), JobEvent::Done) => JobStage::PublishEnd(outcome),
            (JobStage::PublishEnd(_), JobEvent::Done) => JobStage::Over(
                JobDisposition::Acknowledge,
            ),
            _ => JobStage::Over(JobDisposition::Interrupted),
        };
        JobRun { request_id, reservation_id, engine_id, attempt_id, stage }
    }
}

/// The stages of a job, from its first to the one after the last event.
pub open spec fn stages(start: JobStage, events: Seq<JobEvent>) -> Seq<JobStage>
    decreases events.len(),
{
    if events.len() == 0 {
        seq![start]
    } else {
        let before = stages(start, events.drop_last());
        before.push(stage_after(before.last(), events.last()))
    }
}

/// Whether a stage publishes the end of a generation.
pub open spec fn publishes_end(stage: JobStage) -> bool {
    stage is PublishExpired || stage is PublishEnd
}

/// Whether two stages of a run settle an attempt's quota and then come to
/// publish the end for the same outcome, or give the reservation back and then
/// come to publish that the deadline has passed.
pub open spec fn settled_before_end(run: Seq<JobStage>, i: int) -> bool {
    &&& 0 <= i
    &&& i + 1 < run.len()
    &&& match run[i] {
        JobStage::SettleQuota(outcome) => run[i + 1] == JobStage::PublishEnd(outcome),
        JobStage::CancelExpired => run[i + 1] is PublishExpired,
        _ => false,
    }
}

/// Whether a run found its generation completed.
pub open spec fn found_completed(run: Seq<JobStage>, i: int) -> bool {
    &&& 0 <= i
    &&& i + 1 < run.len()
    &&& run[i] is ReadStatus
    &&& run[i + 1] == JobStage::Over(JobDisposition::Acknowledge)
}

/// Whether a run came to publish the end of its generation.
pub open spec fn comes_to_publish(run: Seq<JobStage>) -> bool {
    exists|i: int| 0 <= i < run.len() && publishes_end(#[trigger] run[i])
}

/// Whether a run published the end of its generation and then acknowledged it.
pub open spec fn published_end(run: Seq<JobStage>, i: int) -> bool {
    &&& 0 <= i
    &&& i + 1 < run.len()
    &&& publishes_end(run[i])
    &&& run[i + 1] == JobStage::Over(JobDisposition::Acknowledge)
}

/// One engine's run of a job: when it started, and what happened to it.
pub struct RunRecord {
    pub now_ms: u64,
    pub events: Seq<JobEvent>,
}

/// The stages of one run of a job.
pub open spec fn stages_of(deadline_unix_ms: u64, record: RunRecord) -> Seq<JobStage> {
    stages(first_stage(deadline_unix_ms, record.now_ms), record.events)
}

/// Whether the status told the truth in all runs of a job: one finds it
/// completed only where one has come to publish its end.
pub open spec fn status_is_true(deadline_unix_ms: u64, runs: Seq<RunRecord>) -> bool {
    forall|r: int, i: int|
        0 <= r < runs.len() && #[trigger] found_completed(stages_of(deadline_unix_ms, runs[r]), i)
            ==> exists|q: int|
            0 <= q < runs.len() && comes_to_publish(
                #[trigger] stages_of(deadline_unix_ms, runs[q]),
            )
}

/// What is known of every run, whatever its events.
proof fn lemma_run(start: JobStage, events: Seq<JobEvent>)
    requires
        start is CancelExpired || start is ReadStatus,
    ensures
        ({
            let run = stages(start, events);
            let last = run.last();
            &&& run.len() == events.len() + 1
            &&& forall|k: int|
                0 <= k < run.len() && publishes_end(#[trigger] run[k]) ==> settled_before_end(
                    run,
                    k - 1,
                )
            &&& last == JobStage::Over(JobDisposition::Acknowledge) ==> (exists|i: int|
                #[trigger] published_end(run, i)) || (exists|i: int| #[trigger] found_completed(run, i))
            &&& last == JobStage::Over(JobDisposition::Pending) ==> forall|k: int|
                0 <= k < run.len() ==> (#[trigger] run[k] is ReadStatus || run[k] is AcquireLease
                    || run[k] is Over)
            &&& last is ReadStatus || last is AcquireLease ==> forall|k: int|
                0 <= k < run.len() ==> (#[trigger] run[k] is ReadStatus || run[k] is AcquireLease)
        }),
    decreases events.len(),
{
    if events.len() > 0 {
        lemma_run(start, events.drop_last());
        let before = stages(start, events.drop_last());
        let run = stages(start, events);
        let n = before.len() as int;
        let last = run.last();
        assert(run =~= before.push(last));
        assert(run[n] == last && run[n - 1] == before.last());
        assert forall|k: int| 0 <= k < run.len() && publishes_end(
            #[trigger] run[k],
        ) implies settled_before_end(run, k - 1) by {
            if k < n {
                assert(before[k] == run[k]);
                assert(settled_before_end(before, k - 1));
                assert(before[k - 1] == run[k - 1]);
            }
        }
        if last == JobStage::Over(JobDisposition::Acknowledge) {
            if before.last() == last {
                if exists|i: int| #[trigger] published_end(before, i) {
                    let i = choose|i: int| #[trigger] published_end(before, i);
                    assert(run[i] == before[i] && run[i + 1] == before[i + 1]);
                    assert(published_end(run, i));
                } else {
                    let i = choose|i: int| #[trigger] found_completed(before, i);
                    assert(run[i] == before[i] && run[i + 1] == before[i + 1]);
                    assert(found_completed(run, i));
                }
            } else if before.last() is ReadStatus {
                assert(found_completed(run, n - 1));
            } else {
                assert(published_end(run, n - 1));
            }
        }
        assert forall|k: int| 0 <= k < n implies run[k] == before[k] by {}
    }
}

/// Over all runs of a job: one acknowledges it only where its quota was settled
/// and the end then published, or past its deadline where its reservation was
/// given back and that then published. An acknowledging run did so itself, or
/// found the end that another run had published.
pub proof fn law_acknowledged_only_at_the_end(
    deadline_unix_ms: u64,
    runs: Seq<RunRecord>,
    k: int,
)
    requires
        status_is_true(deadline_unix_ms, runs),
        0 <= k < runs.len(),
        stages_of(deadline_unix_ms, runs[k]).last() == JobStage::Over(JobDisposition::Acknowledge),
    ensures
        exists|q: int, i: int|
            0 <= q < runs.len() && #[trigger] settled_before_end(
                stages_of(deadline_unix_ms, runs[q]),
                i,
            ),
        (exists|i: int| #[trigger] published_end(stages_of(deadline_unix_ms, runs[k]), i)) || (
        exists|i: int| #[trigger] found_completed(stages_of(deadline_unix_ms, runs[k]), i)),
{
    let run = stages_of(deadline_unix_ms, runs[k]);
    lemma_run(first_stage(deadline_unix_ms, runs[k].now_ms), runs[k].events);
    if exists|i: int| #[trigger] published_end(run, i) {
        let i = choose|i: int| #[trigger] published_end(run, i);
        assert(settled_before_end(stages_of(deadline_unix_ms, runs[k]), i - 1));
    } else {
        let i = choose|i: int| #[trigger] found_completed(run, i);
        assert(found_completed(stages_of(deadline_unix_ms, runs[k]), i));
        let q = choose|q: int|
            0 <= q < runs.len() && comes_to_publish(
                #[trigger] stages_of(deadline_unix_ms, runs[q]),
            );
        let other = stages_of(deadline_unix_ms, runs[q]);
        lemma_run(first_stage(deadline_unix_ms, runs[q].now_ms), runs[q].events);
        let j = choose|j: int| 0 <= j < other.len() && publishes_end(#[trigger] other[j]);
        assert(settled_before_end(stages_of(deadline_unix_ms, runs[q]), j - 1));
    }
}

/// No run comes to publish an end before the quota is settled for it, so that a
/// generation which is found completed has been paid for.
pub proof fn law_quota_is_settled_before_the_end(deadline_unix_ms: u64, record: RunRecord, k: int)
    requires
        0 <= k < stages_of(deadline_unix_ms, record).len(),
        publishes_end(stages_of(deadline_unix_ms, record)[k]),
    ensures
        settled_before_end(stages_of(deadline_unix_ms, record), k - 1),
{
    lemma_run(first_stage(deadline_unix_ms, record.now_ms), record.events);
}

/// A run that has come to publish an end is over after it.
proof fn lemma_over_after_the_end(start: JobStage, events: Seq<JobEvent>)
    requires
        start is CancelExpired || start is ReadStatus,
    ensures
        ({
            let run = stages(start, events);
            &&& run.len() == events.len() + 1
            &&& forall|i: int, j: int|
                0 <= i < j < run.len() && publishes_end(#[trigger] run[i]) ==> #[trigger] run[j] is Over
        }),
    decreases events.len(),
{
    if events.len() > 0 {
        lemma_over_after_the_end(start, events.drop_last());
        let before = stages(start, events.drop_last());
        let run = stages(start, events);
        let n = before.len() as int;
        assert forall|i: int, j: int|
            0 <= i < j < run.len() && publishes_end(#[trigger] run[i]) implies #[trigger] run[j] is
            Over by {
            assert(run[i] == before[i]);
            if j < n {
                assert(run[j] == before[j]);
            } else if i < n - 1 {
                assert(before[n - 1] is Over);
            }
        }
    }
}

/// One run comes to publish the end of its generation at most once, and after
/// it does nothing more.
pub proof fn law_one_end_per_run(deadline_unix_ms: u64, record: RunRecord)
    ensures
        ({
            let run = stages_of(deadline_unix_ms, record);
            &&& forall|i: int, j: int|
                0 <= i < j < run.len() ==> !(publishes_end(#[trigger] run[i]) && publishes_end(
                    #[trigger] run[j],
                ))
            &&& forall|i: int, j: int|
                0 <= i < j < run.len() && publishes_end(#[trigger] run[i]) ==> #[trigger] run[j] is Over
        }),
{
    lemma_over_after_the_end(first_stage(deadline_unix_ms, record.now_ms), record.events);
}

/// A job that another engine holds is left as it is: a run that leaves it
/// pending has looked at its status and asked for its lease, and has neither
/// attempted, settled nor published anything.
pub proof fn law_pending_jobs_are_left_alone(deadline_unix_ms: u64, record: RunRecord, k: int)
    requires
        stages_of(deadline_unix_ms, record).last() == JobStage::Over(JobDisposition::Pending),
        0 <= k < stages_of(deadline_unix_ms, record).len(),
    ensures
        ({
            let stage = stages_of(deadline_unix_ms, record)[k];
            stage is ReadStatus || stage is AcquireLease || stage is Over
        }),
{
    lemma_run(first_stage(deadline_unix_ms, record.now_ms), record.events);
}

/// A fault of the broker, at whatever stage before the end, leaves the job
/// pending, so that it can be taken over.
pub proof fn law_faults_leave_jobs_pending(stage: JobStage)
    ensures
        !(stage is Over) ==> stage_after(stage, JobEvent::Fault) == JobStage::Over(
            JobDisposition::Interrupted,
        ),
{
}

/// A job past its deadline is never attempted.
pub proof fn law_expired_jobs_are_not_attempted(
    deadline_unix_ms: u64,
    now_ms: u64,
    events: Seq<JobEvent>,
)
    requires
        0 < deadline_unix_ms < now_ms,
    ensures
        ({
            let last = stages(first_stage(deadline_unix_ms, now_ms), events).last();
            last is CancelExpired || last is PublishExpired || last is Over
        }),
    decreases events.len(),
{
    if events.len() > 0 {
        law_expired_jobs_are_not_attempted(deadline_unix_ms, now_ms, events.drop_last());
    }
}

/// An attempt is made only while the lease is held: right after it was got.
pub proof fn law_attempts_hold_the_lease(stage: JobStage, event: JobEvent)
    ensures
        stage_after(stage, event) is Attempt ==> stage is AcquireLease && event == JobEvent::Lease(
            true,
        ),
{
}

/// How long an engine waits for a new job, in milliseconds.
pub const JOB_WAIT_MS: u64 = 5_000;

/// How long an engine waits before it connects again, in milliseconds.
pub const RECONNECT_WAIT_MS: u64 = 250;

/// What an engine is to do next.
#[derive(Debug, PartialEq, Eq)]
pub enum EngineStage {
    /// Wait for a job that no engine has got.
    Next,
    /// Take over a job that another engine has let lie.
    Reclaim,
    /// Wait a moment, and connect to the broker again.
    Reconnect,
    /// Run a job.
    Run(ConsumedJob),
    /// Acknowledge the job in an entry.
    Acknowledge(String),
    /// Stop: the broker cannot be reached.
    Stopped,
}

/// What doing it gave.
#[derive(Debug, PartialEq, Eq)]
pub enum EngineEvent {
    /// The job that was got, if there was one.
    Job(Option<ConsumedJob>),
    /// How a job was left.
    Left(JobDisposition),
    /// It was done.
    Done,
    /// The broker failed.
    Fault,
}

/// What an engine does after an event. A fault while it waits for a new job
/// makes it connect again; any other stops it. An event that does not belong to
/// the stage changes nothing.
pub open spec fn engine_after(stage: EngineStage, event: EngineEvent) -> EngineStage {
    match (stage, event) {
        (EngineStage::Next, EngineEvent::Job(None)) => EngineStage::Reclaim,
        (EngineStage::Reclaim, EngineEvent::Job(None)) => EngineStage::Next,
        (EngineStage::Next, EngineEvent::Job(Some(job))) => EngineStage::Run(job),
        (EngineStage::Reclaim, EngineEvent::Job(Some(job))) => EngineStage::Run(job),
        (EngineStage::Run(job), EngineEvent::Left(JobDisposition::Acknowledge)) =>
            EngineStage::Acknowledge(job.entry_id),
        (EngineStage::Run(_), EngineEvent::Left(_)) => EngineStage::Next,
        (EngineStage::Reconnect, EngineEvent::Done) => EngineStage::Next,
        (EngineStage::Acknowledge(_), EngineEvent::Done) => EngineStage::Next,
        (EngineStage::Next, EngineEvent::Fault) => EngineStage::Reconnect,
        (EngineStage::Reclaim, EngineEvent::Fault) => EngineStage::Stopped,
        (EngineStage::Reconnect, EngineEvent::Fault) => EngineStage::Stopped,
        (EngineStage::Acknowledge(_), EngineEvent::Fault) => EngineStage::Stopped,
        (stage, _) => stage,
    }
}

/// An engine at work.
pub struct EngineRun {
    stage: EngineStage,
}

impl EngineRun {
    /// What it is to do next.
    pub closed spec fn stage(&self) -> EngineStage {
        self.stage
    }

    /// An engine that waits for its first job.
    pub fn start() -> (run: Self)
        ensures
            run.stage() == EngineStage::Next,
    {
        EngineRun { stage: EngineStage::Next }
    }

    /// What it is to do next.
    pub fn next(&self) -> (stage: &EngineStage)
        ensures
            *stage == self.stage(),
    {
        &self.stage
    }

    /// The engine with what doing the next thing gave.
    pub fn after(self, event: EngineEvent) -> (run: Self)
        ensures
            run.stage() == engine_after(self.stage(), event),
    {
        let stage = match (self.stage, event) {
            (EngineStage::Next, EngineEvent::Job(None)) => EngineStage::Reclaim,
            (EngineStage::Reclaim, EngineEvent::Job(None)) => EngineStage::Next,
            (EngineStage::Next, EngineEvent::Job(Some(job))) => EngineStage::Run(job),
            (EngineStage::Reclaim, EngineEvent::Job(Some(job))) => EngineStage::Run(job),
            (EngineStage::Run(job), EngineEvent::Left(JobDisposition::Acknowledge)) =>
                EngineStage::Acknowledge(job.entry_id),
            (EngineStage::Run(_), EngineEvent::Left(_)) => EngineStage::Next,
            (EngineStage::Reconnect, EngineEvent::Done) => EngineStage::Next,
            (EngineStage::Acknowledge(_), EngineEvent::Done) => EngineStage::Next,
            (EngineStage::Next, EngineEvent::Fault) => EngineStage::Reconnect,
            (EngineStage::Reclaim, EngineEvent::Fault) => EngineStage::Stopped,
            (EngineStage::Reconnect, EngineEvent::Fault) => EngineStage::Stopped,
            (EngineStage::Acknowledge(_), EngineEvent::Fault) => EngineStage::Stopped,
            (stage, _) => stage,
        };
        EngineRun { stage }
    }
}

/// An engine comes to acknowledge an entry only where it ran the job in it and
/// left the job as one that is over; a job that it leaves otherwise stays
/// pending, and it goes on with the next.
pub proof fn law_only_finished_jobs_are_acknowledged(stage: EngineStage, event: EngineEvent)
    ensures
        engine_after(stage, event) matches EngineStage::Acknowledge(entry_id) ==> stage
            == EngineStage::Acknowledge(entry_id) || (stage matches EngineStage::Run(job)
            && job.entry_id == entry_id && event == EngineEvent::Left(JobDisposition::Acknowledge)),
        stage is Run && (event matches EngineEvent::Left(left) && left
            != JobDisposition::Acknowledge) ==> engine_after(stage, event) == EngineStage::Next,
{
}

/// Jobs that nobody has got come before those that were let lie: an engine
/// comes to take one over only where there was no new one.
pub proof fn law_new_jobs_come_first(stage: EngineStage, event: EngineEvent)
    ensures
        engine_after(stage, event) is Reclaim && !(stage is Reclaim) ==> stage is Next && event
            == EngineEvent::Job(None),
{
}

/// The usage after a run of events.
pub open spec fn usage_over(usage: UsageView, values: Seq<JsonView>) -> UsageView
    decreases values.len(),
{
    if values.len() == 0 {
        usage
    } else {
        usage_after(usage_over(usage, values.drop_last()), values.last())
    }
}

/// The counts that the runtime gives are the ones that are reported, whatever
/// was counted before and whatever text comes with them: a stream that ends
/// with the runtime's counts is closed with those.
pub proof fn law_runtime_counts_are_authoritative(
    usage: UsageView,
    values: Seq<JsonView>,
    prompt: Seq<char>,
)
    requires
        values.len() > 0,
    ensures
        ({
            let given = member(Some(values.last()), "usage"@);
            let closed = closed_usage(usage_over(usage, values), prompt);
            &&& unsigned_in(member(given, "completion_tokens"@)) matches Some(n)
                ==> closed.generated_tokens == n
            &&& unsigned_in(member(given, "prompt_tokens"@)) matches Some(n) ==> n > 0
                ==> closed.prompt_tokens == n
        }),
{
}

/// Each stage of a run follows from the one before it.
proof fn lemma_stages_step(start: JobStage, events: Seq<JobEvent>, k: int)
    requires
        0 <= k < events.len(),
    ensures
        stages(start, events).len() == events.len() + 1,
        stages(start, events)[0] == start,
        stages(start, events)[k + 1] == stage_after(stages(start, events)[k], events[k]),
    decreases events.len(),
{
    let earlier = events.drop_last();
    let before = stages(start, earlier);
    lemma_stages_len(start, earlier);
    if k < earlier.len() {
        lemma_stages_step(start, earlier, k);
        assert(earlier[k] == events[k]);
    }
}

proof fn lemma_stages_len(start: JobStage, events: Seq<JobEvent>)
    ensures
        stages(start, events).len() == events.len() + 1,
        stages(start, events)[0] == start,
    decreases events.len(),
{
    if events.len() > 0 {
        lemma_stages_len(start, events.drop_last());
    }
}

/// A job without a deadline, or one that is run at its deadline or any time
/// before it, is run: its status is looked up, and where that is not completed
/// and the lease is got, it is attempted, the lease is given up, the quota is
/// settled and the end is published for what the attempt came to, and the job
/// is acknowledged. A completed job is acknowledged as it is, and one whose
/// lease is not got is left pending. Only a job with a deadline that has passed
/// is cancelled; that is published, and the job is acknowledged.
pub proof fn law_jobs_in_time_are_run(
    deadline_unix_ms: u64,
    now_ms: u64,
    state: Option<String>,
    got: bool,
    outcome: AttemptOutcome,
    events: Seq<JobEvent>,
)
    requires
        events == seq![
            JobEvent::Status(state),
            JobEvent::Lease(got),
            JobEvent::Attempted(outcome),
            JobEvent::Done,
            JobEvent::Done,
            JobEvent::Done,
        ],
    ensures
        ({
            let run = stages_of(deadline_unix_ms, (RunRecord { now_ms, events }));
            let completed = state matches Some(text) && text@ == "completed"@;
            deadline_unix_ms == 0 || now_ms <= deadline_unix_ms ==> {
                &&& run.len() == 7
                &&& run[0] is ReadStatus
                &&& completed ==> run[1] == JobStage::Over(JobDisposition::Acknowledge)
                &&& !completed ==> run[1] is AcquireLease
                &&& !completed && !got ==> run[2] == JobStage::Over(JobDisposition::Pending)
                &&& !completed && got ==> {
                    &&& run[2] is Attempt
                    &&& run[3] == JobStage::ReleaseLease(outcome)
                    &&& run[4] == JobStage::SettleQuota(outcome)
                    &&& run[5] == JobStage::PublishEnd(outcome)
                    &&& run[6] == JobStage::Over(JobDisposition::Acknowledge)
                }
            }
        }),
        ({
            let run = stages_of(
                deadline_unix_ms,
                (RunRecord { now_ms, events: seq![JobEvent::Done, JobEvent::Done] }),
            );
            deadline_unix_ms > 0 && now_ms > deadline_unix_ms ==> run == seq![
                JobStage::CancelExpired,
                JobStage::PublishExpired,
                JobStage::Over(JobDisposition::Acknowledge),
            ]
        }),
{
    let start = first_stage(deadline_unix_ms, now_ms);
    lemma_stages_step(start, events, 0);
    lemma_stages_step(start, events, 1);
    lemma_stages_step(start, events, 2);
    lemma_stages_step(start, events, 3);
    lemma_stages_step(start, events, 4);
    lemma_stages_step(start, events, 5);
    let done = seq![JobEvent::Done, JobEvent::Done];
    lemma_stages_step(start, done, 0);
    lemma_stages_step(start, done, 1);
    if deadline_unix_ms > 0 && now_ms > deadline_unix_ms {
        assert(stages(start, done) =~= seq![
            JobStage::CancelExpired,
            JobStage::PublishExpired,
            JobStage::Over(JobDisposition::Acknowledge),
        ]);
    }
}

/// A job's run is over once and for all, and an event that its stage does not
/// wait for leaves the job pending.
pub proof fn law_unexpected_events_interrupt(stage: JobStage, event: JobEvent)
    ensures
        stage is Over ==> stage_after(stage, event) == stage,
        !(stage is Over) && stage_after(stage, event) != JobStage::Over(JobDisposition::Interrupted)
            ==> {
            ||| stage is ReadStatus && event is Status
            ||| stage is AcquireLease && event is Lease
            ||| stage is Attempt && event is Attempted
            ||| event is Done && !(stage is ReadStatus || stage is AcquireLease || stage is Attempt)
        },
        stage_after(stage, event) == JobStage::Over(JobDisposition::Pending) && !(stage is Over)
            ==> event == JobEvent::Lease(false),
{
}

/// What a run does speaks of its own job, attempt and engine. One owner, made
/// of the engine and the attempt, takes the lease, attempts the job and gives
/// the lease up. The job's reservation is settled for what was generated,
/// nothing where the attempt failed, or given back past the deadline. What is
/// published is of the job's request and is what the attempt came to: its
/// counts and its reason, or its error, which is not to be tried again.
pub proof fn law_runs_speak_of_their_own_job(
    action: JobAction,
    names: RunNames,
    stage: JobStage,
    outcome: AttemptOutcome,
)
    requires
        called_for(action, names, stage),
    ensures
        ({
            let own = names.engine_id + ":"@ + names.attempt_id;
            &&& stage is ReadStatus <==> action is ReadStatus
            &&& stage is AcquireLease <==> action is AcquireLease
            &&& stage is Attempt <==> action is Attempt
            &&& stage is ReleaseLease <==> action is ReleaseLease
            &&& stage is SettleQuota <==> action is SettleQuota
            &&& stage is CancelExpired <==> action is CancelQuota
            &&& stage is Over <==> action is Leave
            &&& action matches JobAction::AcquireLease { owner } ==> owner@ == own
            &&& action matches JobAction::Attempt { attempt_id, owner } ==> owner@ == own
                && attempt_id@ == names.attempt_id
            &&& action matches JobAction::ReleaseLease { owner } ==> owner@ == own
            &&& action matches JobAction::CancelQuota { reservation_id } ==> reservation_id@
                == names.reservation_id
            &&& action matches JobAction::SettleQuota { reservation_id, generated_tokens }
                ==> reservation_id@ == names.reservation_id && (stage == JobStage::SettleQuota(
                outcome,
            ) ==> generated_tokens == match outcome {
                Ok(usage) => usage.generated_tokens,
                Err(_) => 0,
            })
            &&& action matches JobAction::Leave(left) ==> stage == JobStage::Over(left)
            &&& action matches JobAction::Publish(result) ==> {
                &&& result.schema_version == 1
                &&& result.request_id@ == names.request_id
                &&& stage == JobStage::PublishEnd(outcome) ==> result.attempt_id@
                    == names.attempt_id && match outcome {
                    Ok(usage) => result.event matches Some(
                        ResultEvent::Completed { prompt_tokens, generated_tokens, finish_reason },
                    ) && prompt_tokens == usage.prompt_tokens && generated_tokens
                        == usage.generated_tokens && finish_reason@ == usage.finish_reason@,
                    Err(error) => result.event matches Some(
                        ResultEvent::Failed { code, message, retryable },
                    ) && message@ == error@ && code@ == "backend_error"@ && !retryable,
                }
                &&& stage is PublishExpired ==> result.attempt_id@ == names.engine_id && (
                result.event matches Some(ResultEvent::Failed { code, message, retryable })
                    && code@ == "deadline_exceeded"@ && message@ == "generation deadline exceeded"@
                    && !retryable)
            }
        }),
{
}

/// Each stage of an attempt follows from the one before it.
proof fn lemma_attempt_step(start: AttemptStage, events: Seq<AttemptEvent>, k: int)
    requires
        0 <= k < events.len(),
    ensures
        attempt_stages(start, events).len() == events.len() + 1,
        attempt_stages(start, events)[0] == start,
        attempt_stages(start, events)[k + 1] == attempt_stage_after(
            attempt_stages(start, events)[k],
            events[k],
        ),
    decreases events.len(),
{
    let earlier = events.drop_last();
    lemma_attempt_len(start, earlier);
    if k < earlier.len() {
        lemma_attempt_step(start, earlier, k);
        assert(earlier[k] == events[k]);
    }
}

proof fn lemma_attempt_len(start: AttemptStage, events: Seq<AttemptEvent>)
    ensures
        attempt_stages(start, events).len() == events.len() + 1,
        attempt_stages(start, events)[0] == start,
    decreases events.len(),
{
    if events.len() > 0 {
        lemma_attempt_len(start, events.drop_last());
    }
}

/// Whether events are those of an attempt that goes well: the request is read,
/// the start is published, `n` tokens come and are each published, and then the
/// backend ends.
pub open spec fn goes_well(events: Seq<AttemptEvent>, n: int) -> bool {
    &&& 0 <= n
    &&& events.len() == 2 * n + 3
    &&& events[0] is Done
    &&& events[1] is Done
    &&& forall|k: int| 0 <= k < n ==> #[trigger] events[2 + 2 * k] is Token
    &&& forall|k: int| 0 <= k < n ==> #[trigger] events[3 + 2 * k] is Done
    &&& events[2 * n + 2] is Ended
}

proof fn lemma_tokens(job_model: Seq<char>, events: Seq<AttemptEvent>, n: int, k: int)
    requires
        goes_well(events, n),
        0 <= k <= n,
    ensures
        attempt_stages(first_attempt_stage(job_model, job_model), events)[2 + 2 * k] is Generate,
    decreases k,
{
    let start = first_attempt_stage(job_model, job_model);
    if k == 0 {
        lemma_attempt_step(start, events, 0);
        lemma_attempt_step(start, events, 1);
    } else {
        lemma_tokens(job_model, events, n, k - 1);
        let i = k - 1;
        assert(events[2 + 2 * i] is Token);
        assert(events[3 + 2 * i] is Done);
        lemma_attempt_step(start, events, 2 + 2 * i);
        lemma_attempt_step(start, events, 3 + 2 * i);
    }
}

/// Every token of an attempt that goes well is published as it came, one for
/// one and in order, with the count that came with it; and the attempt comes to
/// what the backend ended with, `stop` standing in for a reason that it did not
/// give.
pub proof fn law_tokens_are_published_as_they_come(
    job_model: Seq<char>,
    events: Seq<AttemptEvent>,
    n: int,
    k: int,
)
    requires
        goes_well(events, n),
        0 <= k < n,
    ensures
        ({
            let run = attempt_stages(first_attempt_stage(job_model, job_model), events);
            &&& run.len() == 2 * n + 4
            &&& run[0] is ReadRequest
            &&& run[1] is PublishStart
            &&& run[2] is Generate
            &&& events[2 + 2 * k] matches AttemptEvent::Token { text, generated_tokens } && run[3
                + 2 * k] == (AttemptStage::PublishToken { text: text@, generated_tokens })
            &&& run[4 + 2 * k] is Generate
            &&& events[2 * n + 2] matches AttemptEvent::Ended(usage) && (run[2 * n + 3] matches
                AttemptStage::Over(Ok(reported)) && reported.prompt_tokens == usage.prompt_tokens
                && reported.generated_tokens == usage.generated_tokens && (
            usage.finish_reason@.len() > 0 ==> reported.finish_reason == usage.finish_reason@) && (
            usage.finish_reason@.len() == 0 ==> reported.finish_reason == "stop"@))
        }),
{
    let start = first_attempt_stage(job_model, job_model);
    lemma_attempt_step(start, events, 0);
    lemma_tokens(job_model, events, n, 0);
    lemma_tokens(job_model, events, n, k);
    lemma_tokens(job_model, events, n, k + 1);
    lemma_tokens(job_model, events, n, n);
    assert(events[2 + 2 * k] is Token);
    lemma_attempt_step(start, events, 2 + 2 * k);
    lemma_attempt_step(start, events, 2 * n + 2);
}

/// An attempt without tokens still comes to what the backend ended with.
pub proof fn law_attempts_come_to_what_the_backend_says(
    stage: AttemptStage,
    usage: GenerationUsage,
    words: String,
)
    ensures
        stage is Generate ==> (attempt_stage_after(stage, AttemptEvent::Ended(usage)) matches
            AttemptStage::Over(Ok(reported)) && reported.prompt_tokens == usage.prompt_tokens
            && reported.generated_tokens == usage.generated_tokens && (
        usage.finish_reason@.len() > 0 ==> reported.finish_reason == usage.finish_reason@) && (
        usage.finish_reason@.len() == 0 ==> reported.finish_reason == "stop"@)),
        !(stage is Over) ==> attempt_stage_after(stage, AttemptEvent::Fault(words))
            == AttemptStage::Over(Err(words@)),
        !(stage is Generate || stage is Over) ==> attempt_stage_after(
            stage,
            AttemptEvent::Ended(usage),
        ) == stage,
        stage is Over ==> attempt_stage_after(stage, AttemptEvent::Ended(usage)) == stage
            && attempt_stage_after(stage, AttemptEvent::Fault(words)) == stage,
{
}

/// What an attempt publishes is of its own request and attempt: its start, and
/// each token with its text and its count as they are.
pub proof fn law_attempts_publish_their_own_tokens(
    action: AttemptAction,
    request_id: Seq<char>,
    attempt_id: Seq<char>,
    stage: AttemptStage,
)
    requires
        attempt_calls_for(action, request_id, attempt_id, stage),
    ensures
        stage is ReadRequest <==> action is ReadRequest,
        stage is Generate <==> action is Generate,
        stage is Over <==> action is Leave,
        action matches AttemptAction::Publish(result) ==> {
            &&& result.schema_version == 1
            &&& result.request_id@ == request_id
            &&& result.attempt_id@ == attempt_id
            &&& stage is PublishStart ==> result.event == Some(ResultEvent::AttemptStarted)
            &&& stage matches AttemptStage::PublishToken { text, generated_tokens } ==> (
            result.event matches Some(ResultEvent::Token { text: t, cumulative_generated_tokens })
                && t@ == text && cumulative_generated_tokens == generated_tokens)
        },
{
}

/// An engine that has loaded a job's model reads the job's request first.
pub proof fn law_loaded_models_are_attempted(job_model: Seq<char>, loaded: Seq<char>)
    ensures
        job_model == loaded <==> first_attempt_stage(job_model, loaded) is ReadRequest,
        job_model != loaded ==> first_attempt_stage(job_model, loaded) == AttemptStage::Over(
            Err("model "@ + job_model + " is not loaded by this engine"@),
        ),
{
}

/// The messages that a runtime is sent are the request's, all of them, one for
/// one and in order; where there are none, the prompt is the one message. With
/// them go the model, the output that is allowed, and the stop strings, if there
/// are any, and the runtime is always asked to stream and to report its usage.
pub proof fn law_payloads_carry_the_whole_request(request: RuntimeRequest)
    ensures
        payload_sent(request) is Object,
        ({
            let members = payload_sent(request)->Object_0;
            &&& members.len() == if request.stop@.len() > 0 {
                6int
            } else {
                5
            }
            &&& members[0] == ("model"@, JsonView::Text(request.model@))
            &&& members[1].0 == "messages"@
            &&& members[2] == ("max_tokens"@, JsonView::Unsigned(request.max_tokens as u64))
            &&& members[3] == ("stream"@, JsonView::Bool(true))
            &&& members[4] == (
                "stream_options"@,
                JsonView::Object(seq![("include_usage"@, JsonView::Bool(true))]),
            )
        }),
        payload_sent(request)->Object_0[1].1 is Array,
        request.messages matches Some(messages) ==> messages@.len() > 0 ==> {
            let sent = payload_sent(request)->Object_0[1].1->Array_0;
            &&& sent.len() == messages@.len()
            &&& forall|i: int| 0 <= i < messages@.len() ==> #[trigger] sent[i] == messages@[i]@
        },
        request.messages is None || request.messages->0@.len() == 0 ==> {
            let sent = payload_sent(request)->Object_0[1].1->Array_0;
            &&& sent.len() == 1
            &&& sent[0] is Object
            &&& sent[0]->Object_0.len() == 2
            &&& sent[0]->Object_0[0] == ("role"@, JsonView::Text("user"@))
            &&& request.prompt matches Some(prompt) ==> sent[0]->Object_0[1] == (
                "content"@,
                JsonView::Text(prompt@),
            )
            &&& request.prompt is None ==> sent[0]->Object_0[1] == (
                "content"@,
                JsonView::Text(Seq::empty()),
            )
        },
        request.stop@.len() > 0 ==> {
            let (name, list) = payload_sent(request)->Object_0[5];
            &&& name == "stop"@
            &&& list is Array
            &&& list->Array_0.len() == request.stop@.len()
            &&& forall|i: int|
                0 <= i < request.stop@.len() ==> #[trigger] list->Array_0[i] == JsonView::Text(
                    request.stop@[i]@,
                )
        },
{
    let members = payload_sent(request)->Object_0;
    let sent = messages_sent(request);
    assert(members[1].1 == JsonView::Array(sent));
    if request.messages is None || request.messages->0@.len() == 0 {
        assert(sent.len() == 1);
        assert(sent[0] == user_message(
            match request.prompt {
                Some(prompt) => prompt@,
                None => Seq::empty(),
            },
        ));
    } else {
        assert(sent == elements_said(request.messages->0@));
    }
    if request.stop@.len() > 0 {
        let stops = members[5].1->Array_0;
        assert(stops.len() == request.stop@.len());
        assert forall|i: int| 0 <= i < stops.len() implies #[trigger] stops[i] == JsonView::Text(
            request.stop@[i]@,
        ) by {
            assert(texts(request.stop@)[i] == request.stop@[i]@);
        }
    }
}

/// A runtime that reads the messages of its payload finds the request's.
pub proof fn law_runtimes_find_the_messages(request: RuntimeRequest)
    ensures
        member(Some(payload_sent(request)), "messages"@) matches Some(JsonView::Array(sent)) && (
        request.messages matches Some(messages) ==> messages@.len() > 0 ==> {
            &&& sent.len() == messages@.len()
            &&& forall|i: int| 0 <= i < messages@.len() ==> #[trigger] sent[i] == messages@[i]@
        }),
        member(Some(payload_sent(request)), "max_tokens"@) == Some(
            JsonView::Unsigned(request.max_tokens as u64),
        ),
        member(Some(payload_sent(request)), "model"@) == Some(JsonView::Text(request.model@)),
        member(Some(payload_sent(request)), "stream"@) == Some(JsonView::Bool(true)),
        member(Some(payload_sent(request)), "stop"@) is Some <==> request.stop@.len() > 0,
{
    reveal_strlit("model");
    reveal_strlit("messages");
    reveal_strlit("max_tokens");
    reveal_strlit("stream");
    reveal_strlit("stream_options");
    reveal_strlit("stop");
    let members = payload_sent(request)->Object_0;
    assert("model"@[1] == 'o' && "messages"@[1] == 'e' && "max_tokens"@[1] == 'a');
    assert("stream"@[2] == 'r' && "stop"@[2] == 'o');
    assert(members[0].0.len() == 5 && members[1].0.len() == 8 && members[2].0.len() == 10
        && members[3].0.len() == 6 && members[4].0.len() == 14);
    lemma_member_found(members, "model"@, 0);
    lemma_member_found(members, "messages"@, 1);
    lemma_member_found(members, "max_tokens"@, 2);
    lemma_member_found(members, "stream"@, 3);
    if request.stop@.len() > 0 {
        lemma_member_found(members, "stop"@, 5);
    } else {
        lemma_member_missing(members, "stop"@);
    }
}

/// The text of a prompt is the contents of all its messages, one to a line and
/// in order; only a message without one adds nothing. A request without
/// messages has its prompt, or no text.
pub proof fn law_contents_come_in_order(messages: Seq<JsonView>, message: JsonView)
    ensures
        contents(Seq::empty()) == Seq::<Seq<char>>::empty(),
        member(Some(message), "content"@) matches Some(JsonView::Text(content)) ==> contents(
            messages.push(message),
        ) == contents(messages).push(content),
        !(member(Some(message), "content"@) matches Some(JsonView::Text(_))) ==> contents(
            messages.push(message),
        ) == contents(messages),
{
    assert(messages.push(message).drop_last() =~= messages);
    assert(messages.push(message).last() == message);
}

/// The text of a request's prompt is its messages' contents, one to a line;
/// where it has no messages, its prompt as it is.
pub proof fn law_prompts_are_messages_first(request: RuntimeRequest, views: Seq<JsonView>)
    requires
        request.messages matches Some(messages) ==> views.len() == messages@.len() && forall|i: int|
            0 <= i < views.len() ==> #[trigger] views[i] == messages@[i]@,
    ensures
        request.messages is Some ==> prompt_text(request) == joined(contents(views), "\n"@),
        request.messages is None ==> (request.prompt matches Some(prompt) ==> prompt_text(request)
            == prompt@),
        request.messages is None && request.prompt is None ==> prompt_text(request).len() == 0,
{
    if request.messages is Some {
        assert(elements_said(request.messages->0@) =~= views);
    }
}

/// The text that an event adds is its first choice's delta; only where there is
/// none, the choice's own text. What is no string adds nothing.
pub proof fn law_deltas_are_added(value: JsonView)
    ensures
        ({
            let choice = first_element(member(Some(value), "choices"@));
            let delta = member(member(choice, "delta"@), "content"@);
            let text = member(choice, "text"@);
            &&& delta matches Some(JsonView::Text(t)) ==> text_added(value) == t
            &&& delta is None ==> (text matches Some(JsonView::Text(t)) ==> text_added(value) == t)
            &&& delta is None && !(text matches Some(JsonView::Text(_))) ==> text_added(value).len()
                == 0
            &&& delta is Some && !(delta matches Some(JsonView::Text(_))) ==> text_added(
                value,
            ).len() == 0
        }),
{
}

/// The counts and the reason that a runtime gives are taken as they are, and
/// what it does not give stays. Where it gives no count, text is counted by its
/// words, at least one, on top of what was counted, up to what 64 bits hold; an
/// event without text counts for nothing.
pub proof fn law_usage_follows_the_runtime(usage: UsageView, value: JsonView)
    ensures
        ({
            let after = usage_after(usage, value);
            let given = member(Some(value), "usage"@);
            let reason = member(first_element(member(Some(value), "choices"@)), "finish_reason"@);
            let prompt = member(given, "prompt_tokens"@);
            let count = member(given, "completion_tokens"@);
            let n = words(text_added(value)).len();
            &&& prompt matches Some(JsonView::Unsigned(p)) ==> after.prompt_tokens == p
            &&& !(prompt matches Some(JsonView::Unsigned(_))) ==> after.prompt_tokens
                == usage.prompt_tokens
            &&& count matches Some(JsonView::Unsigned(c)) ==> after.generated_tokens == c
            &&& !(count matches Some(JsonView::Unsigned(_))) ==> {
                &&& text_added(value).len() == 0 ==> after.generated_tokens
                    == usage.generated_tokens
                &&& text_added(value).len() > 0 && n == 0 && usage.generated_tokens < u64::MAX
                    ==> after.generated_tokens == usage.generated_tokens + 1
                &&& text_added(value).len() > 0 && n > 0 && usage.generated_tokens + n <= u64::MAX
                    ==> after.generated_tokens == usage.generated_tokens + n
                &&& text_added(value).len() > 0 && usage.generated_tokens + n >= u64::MAX
                    ==> after.generated_tokens == u64::MAX
            }
            &&& reason matches Some(JsonView::Text(r)) ==> after.finish_reason == r
            &&& !(reason matches Some(JsonView::Text(_))) ==> after.finish_reason
                == usage.finish_reason
        }),
{
    law_words_stay_whole(Seq::empty());
}

/// A stream is closed with the prompt's count as the runtime gave it, or by the
/// prompt's words where it gave none; nothing else changes. An attempt gives
/// the runtime's reason, or `stop` for none.
pub proof fn law_usage_is_closed(usage: UsageView, prompt: Seq<char>)
    ensures
        usage.prompt_tokens > 0 ==> closed_usage(usage, prompt) == usage,
        usage.prompt_tokens == 0 && words(prompt).len() <= u64::MAX ==> closed_usage(
            usage,
            prompt,
        ).prompt_tokens == words(prompt).len(),
        closed_usage(usage, prompt).generated_tokens == usage.generated_tokens,
        closed_usage(usage, prompt).finish_reason == usage.finish_reason,
        usage.finish_reason.len() > 0 ==> with_reason(usage) == usage,
        usage.finish_reason.len() == 0 ==> with_reason(usage).finish_reason == "stop"@,
        with_reason(usage).prompt_tokens == usage.prompt_tokens,
        with_reason(usage).generated_tokens == usage.generated_tokens,
{
}

/// The synthetic backend says `Generated response for:` and then the words of
/// the prompt, in order, as many of all these as it may.
pub proof fn law_synthetic_words_repeat_the_prompt(prompt: Seq<char>, max_tokens: usize, i: int)
    ensures
        ({
            let out = synthetic_words(prompt, max_tokens);
            let asked = words(prompt);
            &&& out.len() <= max_tokens
            &&& out.len() <= 3 + asked.len()
            &&& out.len() == max_tokens || out.len() == 3 + asked.len()
            &&& out.len() > 0 ==> out[0] == "Generated"@
            &&& out.len() > 1 ==> out[1] == "response"@
            &&& out.len() > 2 ==> out[2] == "for:"@
            &&& 0 <= i && 3 + i < out.len() ==> out[3 + i] == asked[i]
        }),
{
    reveal_strlit("Generated response for: ");
    reveal_strlit("Generated");
    reveal_strlit("response");
    reveal_strlit("for:");
    let a = "Generated"@;
    let b = "response"@;
    let c = "for:"@;
    let cs = c.push(' ') + prompt;
    let bcs = b.push(' ') + cs;
    assert("Generated response for: "@ + prompt =~= a.push(' ') + bcs);
    law_white_space_parts_words(a, ' ', bcs);
    law_white_space_parts_words(b, ' ', cs);
    law_white_space_parts_words(c, ' ', prompt);
    law_words_stay_whole(a);
    law_words_stay_whole(b);
    law_words_stay_whole(c);
    let all = seq![a] + (seq![b] + (seq![c] + words(prompt)));
    assert(words("Generated response for: "@ + prompt) == all);
    assert(all[0] == a && all[1] == b && all[2] == c);
    assert(all.len() == 3 + words(prompt).len());
    if 0 <= i < words(prompt).len() {
        assert(all[3 + i] == words(prompt)[i]);
    }
}

/// An engine that waits for a new job and gets one runs it; one that it leaves
/// as over it acknowledges by its entry, and then waits for the next. Where
/// there is no new job it takes over one that was let lie, and runs that, or
/// goes back to waiting.
pub proof fn law_engines_run_what_they_get(job: ConsumedJob, left: JobDisposition)
    ensures
        engine_after(EngineStage::Next, EngineEvent::Job(Some(job))) == EngineStage::Run(job),
        engine_after(EngineStage::Reclaim, EngineEvent::Job(Some(job))) == EngineStage::Run(job),
        engine_after(EngineStage::Next, EngineEvent::Job(None)) == EngineStage::Reclaim,
        engine_after(EngineStage::Reclaim, EngineEvent::Job(None)) == EngineStage::Next,
        ({
            let after = engine_after(EngineStage::Run(job), EngineEvent::Left(left));
            &&& left is Acknowledge ==> after == EngineStage::Acknowledge(job.entry_id)
                && engine_after(after, EngineEvent::Done) == EngineStage::Next
            &&& !(left is Acknowledge) ==> after == EngineStage::Next
        }),
{
}

/// A broker that fails while a new job is waited for is connected to again, and
/// then waited for; one that fails otherwise stops the engine for good. No fault
/// touches a job that is run.
pub proof fn law_engines_reconnect_while_waiting(stage: EngineStage, event: EngineEvent)
    ensures
        engine_after(EngineStage::Next, EngineEvent::Fault) is Reconnect,
        engine_after(EngineStage::Reconnect, EngineEvent::Done) is Next,
        stage is Reclaim || stage is Reconnect || stage is Acknowledge ==> engine_after(
            stage,
            EngineEvent::Fault,
        ) is Stopped,
        stage is Run ==> engine_after(stage, EngineEvent::Fault) == stage,
        stage is Stopped ==> engine_after(stage, event) is Stopped,
        engine_after(stage, event) is Stopped && !(stage is Stopped) ==> event is Fault,
{
}

/// An attempt goes on only with what its stage waits for: any other event, but
/// for a fault, leaves it where it is, and nothing moves one that is over.
pub proof fn law_attempts_wait_for_what_they_need(stage: AttemptStage, event: AttemptEvent)
    ensures
        stage is ReadRequest && event is Done ==> attempt_stage_after(stage, event) is PublishStart,
        stage is PublishStart && event is Done ==> attempt_stage_after(stage, event) is Generate,
        stage is PublishToken && event is Done ==> attempt_stage_after(stage, event) is Generate,
        attempt_stage_after(stage, event) != stage ==> {
            ||| event is Fault && !(stage is Over)
            ||| event is Done && (stage is ReadRequest || stage is PublishStart
                || stage is PublishToken)
            ||| stage is Generate && (event is Token || event is Ended)
        },
{
}

/// An engine goes on only with what its stage waits for: any other event leaves
/// it where it is.
pub proof fn law_engines_wait_for_what_they_need(stage: EngineStage, event: EngineEvent)
    ensures
        engine_after(stage, event) != stage ==> {
            ||| event is Job && (stage is Next || stage is Reclaim)
            ||| event is Left && stage is Run
            ||| event is Done && (stage is Reconnect || stage is Acknowledge)
            ||| event is Fault && !(stage is Run)
        },
{
}

/// What is said of usage is what it is.
pub proof fn law_usage_is_said_as_it_is(usage: GenerationUsage, result: GenerationResult)
    ensures
        usage@.prompt_tokens == usage.prompt_tokens,
        usage@.generated_tokens == usage.generated_tokens,
        usage@.finish_reason == usage.finish_reason@,
        result_of(result, result.request_id@, result.attempt_id@) <==> result.schema_version == 1,
{
}

/// Data that is no JSON is told as it is, with what is wrong with it.
pub proof fn law_faulty_data_is_told(data: Seq<char>, fault: Seq<char>)
    ensures
        undecodable(data, fault) == "decode model SSE event: "@ + data + ": "@ + fault,
{
}

} // verus!
