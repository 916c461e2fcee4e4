//! The workers that take jobs as JSON: what they generate, and the events that
//! they answer with.
use std::collections::VecDeque;

use vstd::prelude::*;

use crate::json::{as_array, as_bool, as_str, as_u64, first, get, parse_json, str_or_empty, Json};
#[allow(unused_imports)]
use crate::json::{
    elements, elements_said, first_element, flag_in, member, members_said, parsed_json, said,
    text_in, text_or_empty, unsigned_in, JsonView,
};
use crate::sse::drain_sse_events;
#[allow(unused_imports)]
use crate::sse::{ended_pieces, events_data, unended};
use crate::streams::Command;
use crate::text::{
    contains, count_words, decode_lossy, join, parse_u64, same_text, split_words, trim_end_char,
};
#[allow(unused_imports)]
use crate::text::{
    first_at, is_word, joined, law_patterns_are_found_where_they_stand,
    law_white_space_parts_words, law_words_stay_whole, lemma_word_len, lemma_words_are_words,
    lemma_words_of_joined, lossy_text, texts, unsigned_value, white_space, without_trailing, words,
};

verus! {

pub const REQUEST_STREAM: &'static str = "inference:requests";

pub const REQUEST_GROUP: &'static str = "generation-workers";

pub const ACTIVE_GENERATIONS_KEY: &'static str = "inference:active_generations";

pub const LAST_GENERATION_FINISHED_MS_KEY: &'static str = "inference:last_generation_finished_ms";

/// What a worker generates with.
#[derive(Debug, Clone, Copy, PartialEq, Eq, Structural)]
pub enum Backend {
    Synthetic,
    Mlx,
    OpenAi,
}

/// The backend of a name; synthetic for a name that is not known.
pub fn select_backend(kind: &str) -> (backend: Backend)
    ensures
        backend == if kind@ == "mlx"@ {
            Backend::Mlx
        } else if kind@ == "openai"@ || kind@ == "vllm"@ {
            Backend::OpenAi
        } else {
            Backend::Synthetic
        },
{
    if same_text(kind, "mlx") {
        Backend::Mlx
    } else if same_text(kind, "openai") || same_text(kind, "vllm") {
        Backend::OpenAi
    } else {
        Backend::Synthetic
    }
}

/// The backend of a name for a worker that has no MLX.
pub fn select_workflow_backend(kind: &str) -> (backend: Backend)
    ensures
        backend == if kind@ == "openai"@ || kind@ == "vllm"@ {
            Backend::OpenAi
        } else {
            Backend::Synthetic
        },
{
    if same_text(kind, "openai") || same_text(kind, "vllm") {
        Backend::OpenAi
    } else {
        Backend::Synthetic
    }
}

/// A setting from the first place that gives it: the environment, then the
/// configuration, then the default.
pub fn setting(environment: Option<String>, configured: Option<String>, default: &str) -> (value:
    String)
    ensures
        value@ == match (environment, configured) {
            (Some(value), _) => value@,
            (None, Some(value)) => value@,
            (None, None) => default@,
        },
{
    match (environment, configured) {
        (Some(value), _) => value,
        (None, Some(value)) => value,
        (None, None) => default.to_string(),
    }
}

/// A number out of the environment, or the default where it gives none that
/// fits 64 bits.
pub fn number_setting(environment: Option<String>, default: u64) -> (value: u64)
    ensures
        match environment {
            Some(text) => match unsigned_value(text@) {
                Some(n) if n <= u64::MAX => value == n,
                _ => value == default,
            },
            None => value == default,
        },
{
    match environment {
        Some(text) => match parse_u64(text.as_str()) {
            Some(n) => n,
            None => default,
        },
        None => default,
    }
}

/// The address of a runtime, without slashes at its end.
pub fn base_url(openai: Option<String>, gpu: Option<String>) -> (url: String)
    ensures
        url@ == without_trailing(
            match (openai, gpu) {
                (Some(url), _) => url@,
                (None, Some(url)) => url@,
                (None, None) => "http://127.0.0.1:8000"@,
            },
            '/',
        ),
{
    let url = setting(openai, gpu, "http://127.0.0.1:8000");
    trim_end_char(url.as_str(), '/')
}

/// The command that makes the group of the workers, and the job stream with it.
pub fn create_group() -> (command: Command)
    ensures
        command@ == seq![
            "XGROUP"@,
            "CREATE"@,
            REQUEST_STREAM@,
            REQUEST_GROUP@,
            "0-0"@,
            "MKSTREAM"@,
        ],
{
    Command {
        words: vec![
            "XGROUP".to_string(),
            "CREATE".to_string(),
            REQUEST_STREAM.to_string(),
            REQUEST_GROUP.to_string(),
            "0-0".to_string(),
            "MKSTREAM".to_string(),
        ],
    }
}

/// Whether the group is there once it was asked for: what went wrong then, if
/// anything did, is no fault where the group was there already.
pub fn ensure_consumer_group(fault: Option<String>) -> (r: Result<(), String>)
    ensures
        match fault {
            Some(words) => if first_at(words@, "BUSYGROUP"@) is Some {
                r is Ok
            } else {
                r == Err::<(), String>(words)
            },
            None => r is Ok,
        },
{
    match fault {
        Some(words) => if contains(words.as_str(), "BUSYGROUP") {
            Ok(())
        } else {
            Err(words)
        },
        None => Ok(()),
    }
}

/// The command that waits, for as long as it takes, for the next job that no
/// worker has got.
pub fn next_job(consumer: &str) -> (command: Command)
    ensures
        command@ == seq![
            "XREADGROUP"@,
            "GROUP"@,
            REQUEST_GROUP@,
            consumer@,
            "BLOCK"@,
            "0"@,
            "COUNT"@,
            "1"@,
            "STREAMS"@,
            REQUEST_STREAM@,
            ">"@,
        ],
{
    Command {
        words: vec![
            "XREADGROUP".to_string(),
            "GROUP".to_string(),
            REQUEST_GROUP.to_string(),
            consumer.to_string(),
            "BLOCK".to_string(),
            "0".to_string(),
            "COUNT".to_string(),
            "1".to_string(),
            "STREAMS".to_string(),
            REQUEST_STREAM.to_string(),
            ">".to_string(),
        ],
    }
}

/// The command that acknowledges a job.
pub fn acknowledge(entry_id: &str) -> (command: Command)
    ensures
        command@ == seq!["XACK"@, REQUEST_STREAM@, REQUEST_GROUP@, entry_id@],
{
    Command {
        words: vec![
            "XACK".to_string(),
            REQUEST_STREAM.to_string(),
            REQUEST_GROUP.to_string(),
            entry_id.to_string(),
        ],
    }
}

/// What is sent for the job in an entry: it is acknowledged where it was
/// finished, and else stays pending.
pub fn settled(entry_id: &str, finished: bool) -> (command: Option<Command>)
    ensures
        match command {
            Some(command) => finished && command@ == seq![
                "XACK"@,
                REQUEST_STREAM@,
                REQUEST_GROUP@,
                entry_id@,
            ],
            None => !finished,
        },
{
    if finished {
        Some(acknowledge(entry_id))
    } else {
        None
    }
}

/// What a chunk carries: a document, or text as it stands.
#[derive(Debug, PartialEq, Eq)]
pub enum ChunkData {
    Document(Json),
    Text(String),
}

/// What a chunk carries, over documents and text.
pub enum ChunkView {
    Document(JsonView),
    Text(Seq<char>),
}

/// An answer of a worker's.
#[derive(Debug, PartialEq, Eq)]
pub enum ResponseEvent {
    Chunk { data: ChunkData, token_estimate: u64 },
    Done { generated_tokens: u64 },
    Error { message: String },
}

/// An answer over documents, numbers and text.
pub enum ResponseView {
    Chunk { data: ChunkView, token_estimate: u64 },
    Done { generated_tokens: u64 },
    Error { message: Seq<char> },
}

impl View for ResponseEvent {
    type V = ResponseView;

    open spec fn view(&self) -> ResponseView {
        match self {
            ResponseEvent::Chunk { data, token_estimate } => ResponseView::Chunk {
                data: match data {
                    ChunkData::Document(json) => ChunkView::Document(json@),
                    ChunkData::Text(text) => ChunkView::Text(text@),
                },
                token_estimate: *token_estimate,
            },
            ResponseEvent::Done { generated_tokens } => ResponseView::Done {
                generated_tokens: *generated_tokens,
            },
            ResponseEvent::Error { message } => ResponseView::Error { message: message@ },
        }
    }
}

/// What each of some answers says.
pub open spec fn responses_said(events: Seq<ResponseEvent>) -> Seq<ResponseView> {
    events.map_values(|e: ResponseEvent| e@)
}

/// Whether a job's body names another model than the worker's.
pub open spec fn wrong_model(body: JsonView, model: Seq<char>) -> bool {
    match text_in(member(Some(body), "model"@)) {
        Some(asked) => asked != model,
        None => false,
    }
}

/// The answer to a job for another model; none where the model is right.
pub fn check_model(body: &Json, model: &str) -> (r: Option<ResponseEvent>)
    ensures
        match r {
            Some(event) => wrong_model(body@, model@) && event@ == (ResponseView::Error {
                message: "unknown model; this worker only serves "@ + model@,
            }),
            None => !wrong_model(body@, model@),
        },
{
    let wrong = match as_str(get(Some(body), "model")) {
        Some(asked) => !same_text(asked, model),
        None => false,
    };
    if wrong {
        let mut message = "unknown model; this worker only serves ".to_string();
        message.append(model);
        Some(ResponseEvent::Error { message })
    } else {
        None
    }
}

/// Whether a job asks for its text piece by piece.
pub fn wants_stream(body: &Json) -> (r: bool)
    ensures
        r == (flag_in(member(Some(body@), "stream"@)) == Some(true)),
{
    match as_bool(get(Some(body), "stream")) {
        Some(flag) => flag,
        None => false,
    }
}

/// How a workflow's job is answered.
#[derive(Debug, Clone, Copy, PartialEq, Eq, Structural)]
pub enum WorkflowAnswer {
    /// With the text, word by word.
    Words,
    /// With what a runtime streams, as it comes.
    Relayed,
    /// With the text as a whole.
    Whole,
}

/// How a workflow's job is answered: word by word where it asks for that, else
/// as a runtime streams it, or as a whole where there is no runtime.
pub fn workflow_answer(body: &Json, backend: Backend) -> (answer: WorkflowAnswer)
    ensures
        answer == if flag_in(member(Some(body@), "stream"@)) == Some(true) {
            WorkflowAnswer::Words
        } else if backend == Backend::OpenAi {
            WorkflowAnswer::Relayed
        } else {
            WorkflowAnswer::Whole
        },
{
    if wants_stream(body) {
        WorkflowAnswer::Words
    } else if backend == Backend::OpenAi {
        WorkflowAnswer::Relayed
    } else {
        WorkflowAnswer::Whole
    }
}

/// A message as `role: content`, where it has both.
pub open spec fn spoken(message: JsonView) -> Option<Seq<char>> {
    match (
        text_in(member(Some(message), "role"@)),
        text_in(member(Some(message), "content"@)),
    ) {
        (Some(role), Some(content)) => Some(role + ": "@ + content),
        _ => None,
    }
}

/// The messages that are spoken, in order.
pub open spec fn all_spoken(messages: Seq<JsonView>) -> Seq<Seq<char>>
    decreases messages.len(),
{
    if messages.len() == 0 {
        Seq::empty()
    } else {
        let before = all_spoken(messages.drop_last());
        match spoken(messages.last()) {
            Some(line) => before.push(line),
            None => before,
        }
    }
}

/// The strings of an array, in order.
pub open spec fn all_texts(items: Seq<JsonView>) -> Seq<Seq<char>>
    decreases items.len(),
{
    if items.len() == 0 {
        Seq::empty()
    } else {
        let before = all_texts(items.drop_last());
        match text_in(Some(items.last())) {
            Some(text) => before.push(text),
            None => before,
        }
    }
}

/// The prompt of a job's body: its messages one to a line; else its prompt, a
/// string or an array of strings.
pub open spec fn job_prompt(body: JsonView) -> Seq<char> {
    match elements(member(Some(body), "messages"@)) {
        Some(messages) => joined(all_spoken(messages), "\n"@),
        None => match member(Some(body), "prompt"@) {
            Some(JsonView::Text(prompt)) => prompt,
            Some(JsonView::Array(items)) => joined(all_texts(items), "\n"@),
            _ => Seq::empty(),
        },
    }
}

/// The prompt of a workflow's body: its messages one to a line; else its
/// prompt where it is a string.
pub open spec fn workflow_prompt(body: JsonView) -> Seq<char> {
    match elements(member(Some(body), "messages"@)) {
        Some(messages) => joined(all_spoken(messages), "\n"@),
        None => text_or_empty(member(Some(body), "prompt"@)),
    }
}

/// Messages one to a line.
fn speak(messages: &Vec<Json>) -> (text: String)
    ensures
        text@ == joined(all_spoken(elements_said(messages@)), "\n"@),
{
    let ghost all = elements_said(messages@);
    let mut lines: Vec<String> = Vec::new();
    let mut i: usize = 0;
    assert(texts(lines@) =~= all_spoken(all.take(0)));
    while i < messages.len()
        invariant
            i <= messages@.len(),
            all == elements_said(messages@),
            texts(lines@) == all_spoken(all.take(i as int)),
        decreases messages@.len() - i,
    {
        assert(all.take(i + 1).drop_last() =~= all.take(i as int));
        assert(all.take(i + 1).last() == said(messages@[i as int]));
        let ghost before = texts(lines@);
        let role = as_str(get(Some(&messages[i]), "role"));
        let content = as_str(get(Some(&messages[i]), "content"));
        if let (Some(role), Some(content)) = (role, content) {
            let mut line = role.to_string();
            line.append(": ");
            line.append(content);
            lines.push(line);
            assert(texts(lines@) =~= before.push(line@));
        }
        i += 1;
    }
    assert(all.take(i as int) =~= all);
    join(&lines, "\n")
}

/// The strings of an array, one to a line.
pub fn join_texts(items: &Vec<Json>) -> (text: String)
    ensures
        text@ == joined(all_texts(elements_said(items@)), "\n"@),
{
    let ghost all = elements_said(items@);
    let mut lines: Vec<String> = Vec::new();
    let mut i: usize = 0;
    assert(texts(lines@) =~= all_texts(all.take(0)));
    while i < items.len()
        invariant
            i <= items@.len(),
            all == elements_said(items@),
            texts(lines@) == all_texts(all.take(i as int)),
        decreases items@.len() - i,
    {
        assert(all.take(i + 1).drop_last() =~= all.take(i as int));
        assert(all.take(i + 1).last() == said(items@[i as int]));
        let ghost before = texts(lines@);
        if let Some(text) = as_str(Some(&items[i])) {
            let line = text.to_string();
            lines.push(line);
            assert(texts(lines@) =~= before.push(line@));
        }
        i += 1;
    }
    assert(all.take(i as int) =~= all);
    join(&lines, "\n")
}

/// The prompt of a job's body.
pub fn extract_prompt(body: &Json) -> (prompt: String)
    ensures
        prompt@ == job_prompt(body@),
{
    if let Some(messages) = as_array(get(Some(body), "messages")) {
        return speak(messages);
    }
    match get(Some(body), "prompt") {
        Some(Json::Text(prompt)) => prompt.clone(),
        Some(Json::Array(items)) => join_texts(items),
        _ => String::new(),
    }
}

/// The prompt of a workflow's body.
pub fn extract_workflow_prompt(body: &Json) -> (prompt: String)
    ensures
        prompt@ == workflow_prompt(body@),
{
    if let Some(messages) = as_array(get(Some(body), "messages")) {
        return speak(messages);
    }
    str_or_empty(get(Some(body), "prompt"))
}

/// The first words of a text, with a space between them.
pub open spec fn first_words(text: Seq<char>, limit: usize) -> Seq<char> {
    let all = words(text);
    joined(
        if all.len() <= limit {
            all
        } else {
            all.take(limit as int)
        },
        " "@,
    )
}

/// The first words of a text, with a space between them.
pub fn summarize(text: &str, limit: usize) -> (summary: String)
    ensures
        summary@ == first_words(text@, limit),
{
    let mut all = split_words(text);
    if all.len() > limit {
        let ghost before = texts(all@);
        all.truncate(limit);
        assert(texts(all@) =~= before.take(limit as int));
    }
    join(&all, " ")
}

/// A limit, at least one.
pub open spec fn at_least_one(n: usize) -> usize {
    if n == 0 {
        1
    } else {
        n
    }
}

/// What the synthetic backend says to a prompt.
pub open spec fn synthetic_text(prompt: Seq<char>, max_tokens: usize) -> Seq<char> {
    let summary = first_words(prompt, 24);
    first_words(
        if summary.len() == 0 {
            "demo model response: no prompt provided"@
        } else {
            "demo model response: admitted request, prompt summary: "@ + summary
        },
        at_least_one(max_tokens),
    )
}

/// What the synthetic backend says to a prompt.
pub fn synthetic_generate(prompt: &str, max_tokens: usize) -> (text: String)
    ensures
        text@ == synthetic_text(prompt@, max_tokens),
{
    let summary = summarize(prompt, 24);
    let response = if summary.as_str().is_empty() {
        "demo model response: no prompt provided".to_string()
    } else {
        let mut response =
            "demo model response: admitted request, prompt summary: ".to_string();
        response.append(summary.as_str());
        response
    };
    summarize(
        response.as_str(),
        if max_tokens == 0 {
            1
        } else {
            max_tokens
        },
    )
}

/// What the synthetic backend says in a workflow.
pub open spec fn workflow_text(body: JsonView) -> Seq<char> {
    let prompt = workflow_prompt(body);
    first_words(
        if prompt.len() == 0 {
            "demo model response: admitted request from Rust Temporal worker"@
        } else {
            "demo model response: admitted request from Rust Temporal worker: "@ + first_words(
                prompt,
                24,
            )
        },
        at_least_one(tokens_allowed(body)),
    )
}

/// What the synthetic backend says in a workflow.
pub fn synthetic_workflow_generate(body: &Json) -> (text: String)
    ensures
        text@ == workflow_text(body@),
{
    let prompt = extract_workflow_prompt(body);
    let response = if prompt.as_str().is_empty() {
        "demo model response: admitted request from Rust Temporal worker".to_string()
    } else {
        let mut response =
            "demo model response: admitted request from Rust Temporal worker: ".to_string();
        let summary = summarize(prompt.as_str(), 24);
        response.append(summary.as_str());
        response
    };
    let limit: usize = max_tokens(body);
    summarize(
        response.as_str(),
        if limit == 0 {
            1
        } else {
            limit
        },
    )
}

/// The output that a body allows, 64 where it does not say.
pub open spec fn tokens_allowed(body: JsonView) -> usize {
    match unsigned_in(member(Some(body), "max_tokens"@)) {
        Some(n) => n as usize,
        None => 64,
    }
}

/// The output that a body allows.
pub fn max_tokens(body: &Json) -> (n: usize)
    ensures
        n == tokens_allowed(body@),
{
    match as_u64(get(Some(body), "max_tokens")) {
        Some(n) => n as usize,
        None => 64,
    }
}

/// A token for each word, at least one.
pub open spec fn tokens_counted(text: Seq<char>) -> nat {
    if words(text).len() == 0 {
        1
    } else {
        words(text).len()
    }
}

/// A token for each word, at least one.
pub fn estimate_tokens(text: &str) -> (n: u64)
    ensures
        n == tokens_counted(text@),
{
    let n: usize = count_words(text);
    if n == 0 {
        1
    } else {
        n as u64
    }
}

/// The tokens of a streamed delta: none where it is empty.
pub open spec fn delta_tokens(text: Seq<char>) -> nat {
    if text.len() == 0 {
        0
    } else {
        tokens_counted(text)
    }
}

/// The tokens of a streamed delta.
pub fn estimate_stream_delta_tokens(text: &str) -> (n: u64)
    ensures
        n == delta_tokens(text@),
{
    if text.is_empty() {
        0
    } else {
        estimate_tokens(text)
    }
}

/// The messages that a runtime is sent for a body: the body's, or its prompt as
/// one message of the user's.
pub open spec fn messages_for(body: JsonView, prompt: Seq<char>) -> JsonView {
    match member(Some(body), "messages"@) {
        Some(messages) => messages,
        None => JsonView::Array(
            seq![
                JsonView::Object(
                    seq![
                        ("role"@, JsonView::Text("user"@)),
                        ("content"@, JsonView::Text(prompt)),
                    ],
                ),
            ],
        ),
    }
}

/// The body that a runtime is sent, but for the temperature.
pub open spec fn completion_request(
    model: Seq<char>,
    body: JsonView,
    prompt: Seq<char>,
    stream: bool,
) -> JsonView {
    JsonView::Object(
        seq![
            ("model"@, JsonView::Text(model)),
            ("messages"@, messages_for(body, prompt)),
            ("max_tokens"@, JsonView::Unsigned(tokens_allowed(body) as u64)),
            ("stream"@, JsonView::Bool(stream)),
        ],
    )
}

/// The body that a runtime is sent, but for the temperature, where the prompt
/// stands in for messages that the body does not have.
fn request_with(model: &str, body: &Json, prompt: String, stream: bool) -> (payload: Json)
    ensures
        payload@ == completion_request(model@, body@, prompt@, stream),
{
    let messages = match get(Some(body), "messages") {
        Some(messages) => messages.clone(),
        None => {
            let message = Json::Object(
                vec![
                    ("role".to_string(), Json::Text("user".to_string())),
                    ("content".to_string(), Json::Text(prompt)),
                ],
            );
            proof {
                reveal_with_fuel(said, 3);
                reveal_with_fuel(members_said, 3);
            }
            assert(message@->Object_0 =~= seq![
                ("role"@, JsonView::Text("user"@)),
                ("content"@, JsonView::Text(prompt@)),
            ]);
            let messages = Json::Array(vec![message]);
            assert(messages@->Array_0 =~= seq![message@]);
            messages
        },
    };
    assert(messages@ == messages_for(body@, prompt@));
    let payload = Json::Object(
        vec![
            ("model".to_string(), Json::Text(model.to_string())),
            ("messages".to_string(), messages),
            ("max_tokens".to_string(), Json::Unsigned(max_tokens(body) as u64)),
            ("stream".to_string(), Json::Bool(stream)),
        ],
    );
    proof {
        reveal_with_fuel(said, 3);
        reveal_with_fuel(members_said, 3);
    }
    assert(payload@->Object_0 =~= completion_request(
        model@,
        body@,
        prompt@,
        stream,
    )->Object_0);
    payload
}

/// The body that a runtime is sent for a job, but for the temperature.
pub fn completion_payload(model: &str, body: &Json) -> (payload: Json)
    ensures
        payload@ == completion_request(model@, body@, job_prompt(body@), false),
{
    request_with(model, body, extract_prompt(body), false)
}

/// The body that a runtime is sent for a workflow, but for the temperature.
pub fn workflow_payload(model: &str, body: &Json, stream: bool) -> (payload: Json)
    ensures
        payload@ == completion_request(model@, body@, workflow_prompt(body@), stream),
{
    request_with(model, body, extract_workflow_prompt(body), stream)
}

/// The text of a runtime's whole answer.
pub open spec fn answer_text(response: JsonView) -> Seq<char> {
    text_or_empty(
        member(
            member(first_element(member(Some(response), "choices"@)), "message"@),
            "content"@,
        ),
    )
}

/// The text of a runtime's whole answer.
pub fn message_text(response: &Json) -> (text: String)
    ensures
        text@ == answer_text(response@),
{
    str_or_empty(get(get(first(get(Some(response), "choices")), "message"), "content"))
}

/// A sum, at most the largest that 64 bits hold.
pub open spec fn sum_of(a: nat, b: nat) -> u64 {
    if a + b <= u64::MAX {
        (a + b) as u64
    } else {
        u64::MAX
    }
}

/// The choice of a completion: its text in a message or by itself.
pub open spec fn whole_choice(chat: bool, text: Seq<char>) -> JsonView {
    JsonView::Object(
        seq![
            ("index"@, JsonView::Unsigned(0)),
            if chat {
                (
                    "message"@,
                    JsonView::Object(
                        seq![
                            ("role"@, JsonView::Text("assistant"@)),
                            ("content"@, JsonView::Text(text)),
                        ],
                    ),
                )
            } else {
                ("text"@, JsonView::Text(text))
            },
            ("finish_reason"@, JsonView::Text("stop"@)),
        ],
    )
}

/// A completion with the usage that it reports.
pub open spec fn completion_doc(
    id: Seq<char>,
    object: Seq<char>,
    model: Seq<char>,
    choice: JsonView,
    usage: Seq<(Seq<char>, JsonView)>,
) -> JsonView {
    JsonView::Object(
        seq![
            ("id"@, JsonView::Text(id)),
            ("object"@, JsonView::Text(object)),
            ("model"@, JsonView::Text(model)),
            ("choices"@, JsonView::Array(seq![choice])),
            ("usage"@, JsonView::Object(usage)),
        ],
    )
}

/// The body of a whole answer to a job.
pub open spec fn completion_body_said(
    request_id: Seq<char>,
    model: Seq<char>,
    chat: bool,
    prompt: Seq<char>,
    text: Seq<char>,
) -> JsonView {
    completion_doc(
        if chat {
            "chatcmpl-"@ + request_id
        } else {
            "cmpl-"@ + request_id
        },
        if chat {
            "chat.completion"@
        } else {
            "text_completion"@
        },
        model,
        whole_choice(chat, text),
        seq![
            ("prompt_tokens"@, JsonView::Unsigned(tokens_counted(prompt) as u64)),
            ("completion_tokens"@, JsonView::Unsigned(tokens_counted(text) as u64)),
            (
                "total_tokens"@,
                JsonView::Unsigned(sum_of(tokens_counted(prompt), tokens_counted(text))),
            ),
        ],
    )
}

/// The body of a whole answer in a workflow.
pub open spec fn workflow_body_said(
    request_id: Seq<char>,
    model: Seq<char>,
    text: Seq<char>,
) -> JsonView {
    completion_doc(
        "chatcmpl-"@ + request_id,
        "chat.completion"@,
        model,
        whole_choice(true, text),
        seq![
            ("completion_tokens"@, JsonView::Unsigned(tokens_counted(text) as u64)),
            ("total_tokens"@, JsonView::Unsigned(tokens_counted(text) as u64)),
        ],
    )
}

fn whole_choice_json(chat: bool, text: String) -> (choice: Json)
    ensures
        choice@ == whole_choice(chat, text@),
{
    let ghost expected = whole_choice(chat, text@);
    let answer = if chat {
        let message = Json::Object(
            vec![
                ("role".to_string(), Json::Text("assistant".to_string())),
                ("content".to_string(), Json::Text(text)),
            ],
        );
        proof {
            reveal_with_fuel(said, 3);
            reveal_with_fuel(members_said, 3);
        }
        assert(message@->Object_0 =~= seq![
            ("role"@, JsonView::Text("assistant"@)),
            ("content"@, JsonView::Text(text@)),
        ]);
        ("message".to_string(), message)
    } else {
        ("text".to_string(), Json::Text(text))
    };
    let choice = Json::Object(
        vec![
            ("index".to_string(), Json::Unsigned(0)),
            answer,
            ("finish_reason".to_string(), Json::Text("stop".to_string())),
        ],
    );
    proof {
        reveal_with_fuel(said, 3);
        reveal_with_fuel(members_said, 3);
    }
    assert(choice@->Object_0 =~= expected->Object_0);
    choice
}

fn completion_json(
    id: String,
    object: &str,
    model: &str,
    choice: Json,
    usage: Vec<(String, Json)>,
) -> (body: Json)
    ensures
        body@ == completion_doc(id@, object@, model@, choice@, members_said(usage@)),
{
    let choices = Json::Array(vec![choice]);
    assert(choices@->Array_0 =~= seq![choice@]);
    let body = Json::Object(
        vec![
            ("id".to_string(), Json::Text(id)),
            ("object".to_string(), Json::Text(object.to_string())),
            ("model".to_string(), Json::Text(model.to_string())),
            ("choices".to_string(), choices),
            ("usage".to_string(), Json::Object(usage)),
        ],
    );
    proof {
        reveal_with_fuel(said, 3);
        reveal_with_fuel(members_said, 3);
    }
    assert(body@->Object_0 =~= completion_doc(
        id@,
        object@,
        model@,
        choice@,
        members_said(usage@),
    )->Object_0);
    body
}

/// One text behind another.
fn behind(head: &str, tail: &str) -> (text: String)
    ensures
        text@ == head@ + tail@,
{
    let mut text = head.to_string();
    text.append(tail);
    text
}

/// Whether a path asks for a chat.
pub open spec fn asks_for_chat(upstream_path: Seq<char>) -> bool {
    first_at(upstream_path, "chat"@) is Some
}

/// The body of a whole answer to a job.
pub fn completion_body(
    request_id: &str,
    model: &str,
    upstream_path: &str,
    prompt: &str,
    text: &str,
) -> (body: Json)
    ensures
        body@ == completion_body_said(
            request_id@,
            model@,
            asks_for_chat(upstream_path@),
            prompt@,
            text@,
        ),
{
    let chat = contains(upstream_path, "chat");
    let prompt_tokens: u64 = estimate_tokens(prompt);
    let generated_tokens: u64 = estimate_tokens(text);
    let usage = vec![
        ("prompt_tokens".to_string(), Json::Unsigned(prompt_tokens)),
        ("completion_tokens".to_string(), Json::Unsigned(generated_tokens)),
        (
            "total_tokens".to_string(),
            Json::Unsigned(prompt_tokens.saturating_add(generated_tokens)),
        ),
    ];
    proof {
        reveal_with_fuel(said, 3);
        reveal_with_fuel(members_said, 3);
    }
    assert(members_said(usage@) =~= seq![
        ("prompt_tokens"@, JsonView::Unsigned(tokens_counted(prompt@) as u64)),
        ("completion_tokens"@, JsonView::Unsigned(tokens_counted(text@) as u64)),
        (
            "total_tokens"@,
            JsonView::Unsigned(sum_of(tokens_counted(prompt@), tokens_counted(text@))),
        ),
    ]);
    completion_json(
        behind(
            if chat {
                "chatcmpl-"
            } else {
                "cmpl-"
            },
            request_id,
        ),
        if chat {
            "chat.completion"
        } else {
            "text_completion"
        },
        model,
        whole_choice_json(chat, text.to_string()),
        usage,
    )
}

/// The answers that a text is given as a whole with: its document, and the end.
pub open spec fn whole_responses(body: JsonView, text: Seq<char>) -> Seq<ResponseView> {
    seq![
        ResponseView::Chunk {
            data: ChunkView::Document(body),
            token_estimate: tokens_counted(text) as u64,
        },
        ResponseView::Done { generated_tokens: tokens_counted(text) as u64 },
    ]
}

/// The answers to a job that wants its text as a whole: the text, and the end.
pub fn completion_events(
    request_id: &str,
    model: &str,
    upstream_path: &str,
    prompt: &str,
    text: &str,
) -> (events: Vec<ResponseEvent>)
    ensures
        responses_said(events@) == whole_responses(
            completion_body_said(
                request_id@,
                model@,
                asks_for_chat(upstream_path@),
                prompt@,
                text@,
            ),
            text@,
        ),
{
    let generated_tokens: u64 = estimate_tokens(text);
    vec![
        ResponseEvent::Chunk {
            data: ChunkData::Document(
                completion_body(request_id, model, upstream_path, prompt, text),
            ),
            token_estimate: generated_tokens,
        },
        ResponseEvent::Done { generated_tokens },
    ]
}

/// The answers to a workflow that wants its text as a whole.
pub fn workflow_completion_events(request_id: &str, model: &str, text: &str) -> (events: Vec<
    ResponseEvent,
>)
    ensures
        responses_said(events@) == whole_responses(
            workflow_body_said(request_id@, model@, text@),
            text@,
        ),
{
    let generated_tokens: u64 = estimate_tokens(text);
    let usage = vec![
        ("completion_tokens".to_string(), Json::Unsigned(generated_tokens)),
        ("total_tokens".to_string(), Json::Unsigned(generated_tokens)),
    ];
    proof {
        reveal_with_fuel(said, 3);
        reveal_with_fuel(members_said, 3);
    }
    assert(members_said(usage@) =~= seq![
        ("completion_tokens"@, JsonView::Unsigned(tokens_counted(text@) as u64)),
        ("total_tokens"@, JsonView::Unsigned(tokens_counted(text@) as u64)),
    ]);
    let body = completion_json(
        behind("chatcmpl-", request_id),
        "chat.completion",
        model,
        whole_choice_json(true, text.to_string()),
        usage,
    );
    vec![
        ResponseEvent::Chunk {
            data: ChunkData::Document(body),
            token_estimate: generated_tokens,
        },
        ResponseEvent::Done { generated_tokens },
    ]
}

/// A piece of an answer: its text in a delta or by itself.
pub open spec fn chunk_doc(
    request_id: Seq<char>,
    model: Seq<char>,
    chat: bool,
    content: Seq<char>,
) -> JsonView {
    let choice = JsonView::Object(
        seq![
            ("index"@, JsonView::Unsigned(0)),
            if chat {
                ("delta"@, JsonView::Object(seq![("content"@, JsonView::Text(content))]))
            } else {
                ("text"@, JsonView::Text(content))
            },
            ("finish_reason"@, JsonView::Null),
        ],
    );
    JsonView::Object(
        seq![
            (
                "id"@,
                JsonView::Text(
                    if chat {
                        "chatcmpl-"@ + request_id
                    } else {
                        "cmpl-"@ + request_id
                    },
                ),
            ),
            (
                "object"@,
                JsonView::Text(
                    if chat {
                        "chat.completion.chunk"@
                    } else {
                        "text_completion.chunk"@
                    },
                ),
            ),
            ("model"@, JsonView::Text(model)),
            ("choices"@, JsonView::Array(seq![choice])),
        ],
    )
}

fn chunk_json(request_id: &str, model: &str, chat: bool, content: String) -> (chunk: Json)
    ensures
        chunk@ == chunk_doc(request_id@, model@, chat, content@),
{
    let ghost expected = chunk_doc(request_id@, model@, chat, content@);
    proof {
        reveal_with_fuel(said, 3);
        reveal_with_fuel(members_said, 3);
    }
    let part = if chat {
        let delta = Json::Object(vec![("content".to_string(), Json::Text(content))]);
        assert(delta@->Object_0 =~= seq![("content"@, JsonView::Text(content@))]);
        ("delta".to_string(), delta)
    } else {
        ("text".to_string(), Json::Text(content))
    };
    let choice = Json::Object(
        vec![
            ("index".to_string(), Json::Unsigned(0)),
            part,
            ("finish_reason".to_string(), Json::Null),
        ],
    );
    let ghost choice_said = expected->Object_0[3].1->Array_0[0];
    assert(choice@->Object_0 =~= choice_said->Object_0);
    let choices = Json::Array(vec![choice]);
    assert(choices@->Array_0 =~= seq![choice_said]);
    let chunk = Json::Object(
        vec![
            (
                "id".to_string(),
                Json::Text(
                    behind(
                        if chat {
                            "chatcmpl-"
                        } else {
                            "cmpl-"
                        },
                        request_id,
                    ),
                ),
            ),
            (
                "object".to_string(),
                Json::Text(
                    (if chat {
                        "chat.completion.chunk"
                    } else {
                        "text_completion.chunk"
                    }).to_string(),
                ),
            ),
            ("model".to_string(), Json::Text(model.to_string())),
            ("choices".to_string(), choices),
        ],
    );
    assert(chunk@->Object_0 =~= expected->Object_0);
    chunk
}

/// The chunk that a word is answered with, a space behind it.
pub open spec fn word_chunk(
    request_id: Seq<char>,
    model: Seq<char>,
    chat: bool,
    word: Seq<char>,
) -> ResponseView {
    ResponseView::Chunk {
        data: ChunkView::Document(chunk_doc(request_id, model, chat, word + " "@)),
        token_estimate: 1,
    }
}

/// The answers that a text is streamed as: a chunk for each word, the end mark,
/// and the end with the number of words.
pub open spec fn streamed_responses(
    request_id: Seq<char>,
    model: Seq<char>,
    chat: bool,
    text: Seq<char>,
) -> Seq<ResponseView> {
    words(text).map_values(|word: Seq<char>| word_chunk(request_id, model, chat, word)).push(
        ResponseView::Chunk { data: ChunkView::Text("[DONE]"@), token_estimate: 0 },
    ).push(ResponseView::Done { generated_tokens: words(text).len() as u64 })
}

fn stream_events_for(request_id: &str, model: &str, chat: bool, text: &str) -> (events: Vec<
    ResponseEvent,
>)
    ensures
        responses_said(events@) == streamed_responses(request_id@, model@, chat, text@),
{
    let all = split_words(text);
    let ghost chunks = words(text@).map_values(
        |word: Seq<char>| word_chunk(request_id@, model@, chat, word),
    );
    let mut events: Vec<ResponseEvent> = Vec::new();
    let mut i: usize = 0;
    assert(responses_said(events@) =~= chunks.take(0));
    while i < all.len()
        invariant
            i <= all@.len(),
            texts(all@) == words(text@),
            chunks == words(text@).map_values(
                |word: Seq<char>| word_chunk(request_id@, model@, chat, word),
            ),
            responses_said(events@) == chunks.take(i as int),
        decreases all@.len() - i,
    {
        let mut content = all[i].clone();
        content.append(" ");
        assert(texts(all@)[i as int] == all@[i as int]@);
        let event = ResponseEvent::Chunk {
            data: ChunkData::Document(chunk_json(request_id, model, chat, content)),
            token_estimate: 1,
        };
        let ghost before = responses_said(events@);
        events.push(event);
        assert(responses_said(events@) =~= before.push(event@));
        assert(chunks.take(i + 1) =~= chunks.take(i as int).push(chunks[i as int]));
        i += 1;
    }
    assert(chunks.take(i as int) =~= chunks);
    let mark = ResponseEvent::Chunk {
        data: ChunkData::Text("[DONE]".to_string()),
        token_estimate: 0,
    };
    let end = ResponseEvent::Done { generated_tokens: all.len() as u64 };
    events.push(mark);
    events.push(end);
    assert(responses_said(events@) =~= chunks.push(mark@).push(end@));
    events
}

/// The answers to a job that wants its text piece by piece.
pub fn stream_events(request_id: &str, model: &str, upstream_path: &str, text: &str) -> (events:
    Vec<ResponseEvent>)
    ensures
        responses_said(events@) == streamed_responses(
            request_id@,
            model@,
            asks_for_chat(upstream_path@),
            text@,
        ),
{
    stream_events_for(request_id, model, contains(upstream_path, "chat"), text)
}

/// The answers to a workflow that wants its text piece by piece.
pub fn workflow_stream_events(request_id: &str, model: &str, text: &str) -> (events: Vec<
    ResponseEvent,
>)
    ensures
        responses_said(events@) == streamed_responses(request_id@, model@, true, text@),
{
    stream_events_for(request_id, model, true, text)
}

/// The text of the delta that an event of a runtime's stream carries.
pub open spec fn delta_of(value: JsonView) -> Seq<char> {
    text_or_empty(
        member(
            member(first_element(member(Some(value), "choices"@)), "delta"@),
            "content"@,
        ),
    )
}

/// The text of the delta that an event of a runtime's stream carries.
pub fn delta_text(value: &Json) -> (text: String)
    ensures
        text@ == delta_of(value@),
{
    str_or_empty(get(get(first(get(Some(value), "choices")), "delta"), "content"))
}

/// The text of the delta in a data field, or what is wrong where it is no JSON.
pub fn streamed_delta_text(data: &str) -> (r: Result<String, String>)
    ensures
        match parsed_json(data@) {
            Ok(value) => r matches Ok(text) && text@ == delta_of(value),
            Err(fault) => r matches Err(words) && words@ == fault,
        },
{
    match parse_json(data) {
        Ok(value) => Ok(delta_text(&value)),
        Err(fault) => Err(fault),
    }
}

/// What is done with an event of a runtime's stream that is passed on.
#[derive(Debug, PartialEq, Eq)]
pub enum RelayStep {
    /// An answer is sent and more may follow.
    Pass(ResponseEvent),
    /// These answers are sent and the relay is over.
    Finish(Vec<ResponseEvent>),
}

/// Passes a runtime's stream on as answers.
pub struct Relay {
    pending: String,
    generated_tokens: u64,
}

/// What a relay holds: the part of the stream that is no complete event yet,
/// and the tokens that were passed on.
#[verifier::ext_equal]
pub struct RelayView {
    pub pending: Seq<char>,
    pub generated_tokens: u64,
}

impl View for Relay {
    type V = RelayView;

    closed spec fn view(&self) -> RelayView {
        RelayView { pending: self.pending@, generated_tokens: self.generated_tokens }
    }
}

/// The answer that passes an event on, given what the event says.
pub open spec fn passed_on(data: Seq<char>, value: JsonView) -> ResponseView {
    ResponseView::Chunk {
        data: ChunkView::Text(data),
        token_estimate: delta_tokens(delta_of(value)) as u64,
    }
}

/// The answers that a relay ends with when the runtime says that it is done.
pub open spec fn relay_end(generated_tokens: u64) -> Seq<ResponseView> {
    seq![
        ResponseView::Chunk { data: ChunkView::Text("[DONE]"@), token_estimate: 0 },
        ResponseView::Done { generated_tokens },
    ]
}

impl Relay {
    /// A relay that has got nothing yet.
    pub fn new() -> (relay: Self)
        ensures
            relay@ == (RelayView { pending: Seq::empty(), generated_tokens: 0 }),
    {
        let relay = Relay { pending: String::new(), generated_tokens: 0 };
        assert(relay.pending@ =~= Seq::empty());
        relay
    }

    /// Takes a chunk of the stream: the data of the events that it completes.
    pub fn push(&mut self, chunk: &[u8]) -> (events: Vec<String>)
        ensures
            texts(events@) == events_data(
                ended_pieces(old(self)@.pending + lossy_text(chunk@), "\n\n"@),
            ),
            final(self)@ == (RelayView {
                pending: unended(old(self)@.pending + lossy_text(chunk@), "\n\n"@),
                generated_tokens: old(self)@.generated_tokens,
            }),
    {
        let text = decode_lossy(chunk);
        self.pending.append(text.as_str());
        drain_sse_events(&mut self.pending)
    }

    /// Passes an event on, given the delta that it carries.
    fn pass(&mut self, data: String, delta: &str) -> (event: ResponseEvent)
        ensures
            event@ == (ResponseView::Chunk {
                data: ChunkView::Text(data@),
                token_estimate: delta_tokens(delta@) as u64,
            }),
            final(self)@ == (RelayView {
                generated_tokens: sum_of(
                    old(self)@.generated_tokens as nat,
                    delta_tokens(delta@),
                ),
                ..old(self)@
            }),
    {
        let token_estimate: u64 = estimate_stream_delta_tokens(delta);
        self.generated_tokens = self.generated_tokens.saturating_add(token_estimate);
        ResponseEvent::Chunk { data: ChunkData::Text(data), token_estimate }
    }

    /// Passes an event that was read as JSON on.
    pub fn relay_value(&mut self, data: String, value: &Json) -> (event: ResponseEvent)
        ensures
            event@ == passed_on(data@, value@),
            final(self)@ == (RelayView {
                generated_tokens: sum_of(
                    old(self)@.generated_tokens as nat,
                    delta_tokens(delta_of(value@)),
                ),
                ..old(self)@
            }),
    {
        let delta = delta_text(value);
        self.pass(data, delta.as_str())
    }

    /// Takes the data of an event: passes it on, or ends the relay where the
    /// runtime says that it is done. Data that is no JSON is an error.
    pub fn relay(&mut self, data: String) -> (r: Result<RelayStep, String>)
        ensures
            if data@ == "[DONE]"@ {
                &&& r matches Ok(RelayStep::Finish(events))
                &&& responses_said(events@) == relay_end(old(self)@.generated_tokens)
                &&& final(self)@ == old(self)@
            } else {
                match parsed_json(data@) {
                    Ok(value) => {
                        &&& r matches Ok(RelayStep::Pass(event))
                        &&& event@ == passed_on(data@, value)
                        &&& final(self)@ == (RelayView {
                            generated_tokens: sum_of(
                                old(self)@.generated_tokens as nat,
                                delta_tokens(delta_of(value)),
                            ),
                            ..old(self)@
                        })
                    },
                    Err(fault) => {
                        &&& r matches Err(words)
                        &&& words@ == fault
                        &&& final(self)@ == old(self)@
                    },
                }
            },
    {
        if same_text(data.as_str(), "[DONE]") {
            let events = vec![
                ResponseEvent::Chunk {
                    data: ChunkData::Text("[DONE]".to_string()),
                    token_estimate: 0,
                },
                ResponseEvent::Done { generated_tokens: self.generated_tokens },
            ];
            assert(responses_said(events@) =~= relay_end(self@.generated_tokens));
            return Ok(RelayStep::Finish(events));
        }
        match streamed_delta_text(data.as_str()) {
            Ok(delta) => Ok(RelayStep::Pass(self.pass(data, delta.as_str()))),
            Err(fault) => Err(fault),
        }
    }

    /// The answer that a relay ends with when the stream ends by itself.
    pub fn end(&self) -> (event: ResponseEvent)
        ensures
            event@ == (ResponseView::Done { generated_tokens: self@.generated_tokens }),
    {
        ResponseEvent::Done { generated_tokens: self.generated_tokens }
    }

    /// The tokens that were passed on.
    pub fn generated(&self) -> (n: u64)
        ensures
            n == self@.generated_tokens,
    {
        self.generated_tokens
    }
}

/// What an activity fails with once its workflow was cancelled.
pub const CANCELLED: &'static str = "generation cancelled";

/// What a generation fails with whose workflow was cancelled; nothing where it
/// was not.
pub fn unless_cancelled(cancelled: bool) -> (r: Result<(), String>)
    ensures
        match r {
            Ok(()) => !cancelled,
            Err(words) => cancelled && words@ == CANCELLED@,
        },
{
    if cancelled {
        Err(CANCELLED.to_string())
    } else {
        Ok(())
    }
}

/// Whether an answer carries text that was generated.
pub open spec fn carries_text(event: ResponseView) -> bool {
    event matches ResponseView::Chunk { token_estimate, .. } && token_estimate > 0
}

/// What is to be done for the answers to a job.
#[derive(Debug, PartialEq, Eq)]
pub enum AnswerAction {
    /// Send an answer; behind one with text, say that the work goes on, and
    /// behind a word, pause as long as is configured.
    Write { event: ResponseEvent, beat: bool, pause: bool },
    /// Nothing more: all answers are sent, for so many tokens.
    Finish(u64),
    /// Nothing more: the workflow was cancelled.
    Fail(String),
}

/// The answers to a job on their way.
pub struct AnswerRun {
    events: VecDeque<ResponseEvent>,
    generated_tokens: u64,
    by_words: bool,
    stoppable: bool,
}

/// The answers that are still to be sent, the tokens that they are for, whether
/// they come word by word, and whether a cancelled workflow stops them.
#[verifier::ext_equal]
pub struct AnswersView {
    pub left: Seq<ResponseView>,
    pub generated_tokens: u64,
    pub by_words: bool,
    pub stoppable: bool,
}

impl View for AnswerRun {
    type V = AnswersView;

    closed spec fn view(&self) -> AnswersView {
        AnswersView {
            left: responses_said(self.events@),
            generated_tokens: self.generated_tokens,
            by_words: self.by_words,
            stoppable: self.stoppable,
        }
    }
}

/// Whether a cancelled workflow stops before the next answer.
pub open spec fn stops(answers: AnswersView, cancelled: bool) -> bool {
    answers.stoppable && cancelled && answers.left.len() > 0 && carries_text(answers.left[0])
}

/// What is left after the next answer.
pub open spec fn answers_after(answers: AnswersView, cancelled: bool) -> AnswersView {
    if answers.left.len() == 0 || stops(answers, cancelled) {
        answers
    } else {
        AnswersView { left: answers.left.skip(1), ..answers }
    }
}

/// The answers to a job, given the text: word by word where it asks for that,
/// else as a whole.
pub open spec fn job_answers(
    body: JsonView,
    request_id: Seq<char>,
    model: Seq<char>,
    upstream_path: Seq<char>,
    prompt: Seq<char>,
    text: Seq<char>,
) -> AnswersView {
    let chat = asks_for_chat(upstream_path);
    if flag_in(member(Some(body), "stream"@)) == Some(true) {
        AnswersView {
            left: streamed_responses(request_id, model, chat, text),
            generated_tokens: words(text).len() as u64,
            by_words: true,
            stoppable: false,
        }
    } else {
        AnswersView {
            left: whole_responses(completion_body_said(request_id, model, chat, prompt, text), text),
            generated_tokens: tokens_counted(text) as u64,
            by_words: false,
            stoppable: false,
        }
    }
}

/// The answers to a workflow's job, given the text: word by word or as a whole.
pub open spec fn workflow_answers(
    by_words: bool,
    request_id: Seq<char>,
    model: Seq<char>,
    text: Seq<char>,
) -> AnswersView {
    if by_words {
        AnswersView {
            left: streamed_responses(request_id, model, true, text),
            generated_tokens: words(text).len() as u64,
            by_words: true,
            stoppable: true,
        }
    } else {
        AnswersView {
            left: whole_responses(workflow_body_said(request_id, model, text), text),
            generated_tokens: tokens_counted(text) as u64,
            by_words: false,
            stoppable: false,
        }
    }
}

impl AnswerRun {
    fn new(events: Vec<ResponseEvent>, generated_tokens: u64, by_words: bool, stoppable: bool) -> (
        run: Self)
        ensures
            run@ == (AnswersView {
                left: responses_said(events@),
                generated_tokens,
                by_words,
                stoppable,
            }),
    {
        let mut queue: VecDeque<ResponseEvent> = VecDeque::new();
        let ghost all = events@;
        let mut events = events;
        while events.len() > 0
            invariant
                events@ + queue@ == all,
            decreases events@.len(),
        {
            if let Some(event) = events.pop() {
                queue.push_front(event);
            }
            assert(events@ + queue@ =~= all);
        }
        assert(events@ + queue@ =~= queue@);
        AnswerRun { events: queue, generated_tokens, by_words, stoppable }
    }

    /// The answers to a job, given the text.
    pub fn for_job(
        body: &Json,
        request_id: &str,
        model: &str,
        upstream_path: &str,
        prompt: &str,
        text: &str,
    ) -> (run: Self)
        ensures
            run@ == job_answers(body@, request_id@, model@, upstream_path@, prompt@, text@),
    {
        if wants_stream(body) {
            let events = stream_events(request_id, model, upstream_path, text);
            Self::new(events, count_words(text) as u64, true, false)
        } else {
            let events = completion_events(request_id, model, upstream_path, prompt, text);
            Self::new(events, estimate_tokens(text), false, false)
        }
    }

    /// The answers to a workflow's job, given the text.
    pub fn for_workflow(by_words: bool, request_id: &str, model: &str, text: &str) -> (run: Self)
        ensures
            run@ == workflow_answers(by_words, request_id@, model@, text@),
    {
        if by_words {
            let events = workflow_stream_events(request_id, model, text);
            Self::new(events, count_words(text) as u64, true, true)
        } else {
            let events = workflow_completion_events(request_id, model, text);
            Self::new(events, estimate_tokens(text), false, false)
        }
    }

    /// What is to be done next, given whether the workflow was cancelled.
    pub fn next(&mut self, cancelled: bool) -> (action: AnswerAction)
        ensures
            final(self)@ == answers_after(old(self)@, cancelled),
            if old(self)@.left.len() == 0 {
                action == AnswerAction::Finish(old(self)@.generated_tokens)
            } else if stops(old(self)@, cancelled) {
                action matches AnswerAction::Fail(words) && words@ == CANCELLED@
            } else {
                let first = old(self)@.left[0];
                action matches AnswerAction::Write { event, beat, pause } && event@ == first && beat
                    == carries_text(first) && pause == (carries_text(first) && old(self)@.by_words)
            },
    {
        let ghost before = self@;
        let event = match self.events.pop_front() {
            Some(event) => event,
            None => {
                return AnswerAction::Finish(self.generated_tokens);
            },
        };
        assert(before.left[0] == event@);
        let beat = match &event {
            ResponseEvent::Chunk { token_estimate, .. } => *token_estimate > 0,
            _ => false,
        };
        if self.stoppable && cancelled && beat {
            self.events.push_front(event);
            assert(self@.left =~= before.left);
            return AnswerAction::Fail(CANCELLED.to_string());
        }
        assert(self@.left =~= before.left.skip(1));
        AnswerAction::Write { event, beat, pause: beat && self.by_words }
    }
}

/// What is left after some answers, given whether the workflow was cancelled at
/// each.
pub open spec fn answers_over(answers: AnswersView, cancelled: Seq<bool>) -> AnswersView
    decreases cancelled.len(),
{
    if cancelled.len() == 0 {
        answers
    } else {
        answers_after(answers_over(answers, cancelled.drop_last()), cancelled.last())
    }
}

/// The answers to a job are sent in order and none is left out: after any
/// number of turns, those that are left are the last ones. Where nothing is
/// cancelled, or nothing can be stopped, each turn sends one.
pub proof fn law_answers_are_sent_in_order(answers: AnswersView, cancelled: Seq<bool>)
    ensures
        ({
            let after = answers_over(answers, cancelled);
            let sent = answers.left.len() - after.left.len();
            &&& 0 <= sent <= cancelled.len()
            &&& after == (AnswersView { left: answers.left.skip(sent), ..answers })
            &&& (!answers.stoppable || forall|i: int|
                0 <= i < cancelled.len() ==> !#[trigger] cancelled[i]) ==> sent == if cancelled.len()
                <= answers.left.len() {
                cancelled.len() as int
            } else {
                answers.left.len() as int
            }
        }),
    decreases cancelled.len(),
{
    if cancelled.len() == 0 {
        assert(answers.left.skip(0) =~= answers.left);
    } else {
        let before = answers_over(answers, cancelled.drop_last());
        law_answers_are_sent_in_order(answers, cancelled.drop_last());
        let sent = answers.left.len() - before.left.len();
        assert(cancelled.drop_last().len() == cancelled.len() - 1);
        assert forall|i: int|
            0 <= i < cancelled.len() - 1 implies cancelled.drop_last()[i] == #[trigger] cancelled[i] by {}
        assert(cancelled.last() == cancelled[cancelled.len() - 1]);
        if before.left.len() > 0 {
            assert(before.left.skip(1) =~= answers.left.skip(sent + 1));
        }
        if !answers.stoppable || forall|i: int|
            0 <= i < cancelled.len() ==> !#[trigger] cancelled[i] {
            assert(!answers.stoppable || forall|i: int|
                0 <= i < cancelled.len() - 1 ==> !#[trigger] cancelled.drop_last()[i]);
        }
    }
}

/// Once its workflow is cancelled, no more text of a job that can be stopped is
/// sent: whatever is, carries none.
pub proof fn law_cancelled_workflows_send_no_more_text(
    answers: AnswersView,
    cancelled: Seq<bool>,
    k: int,
)
    requires
        answers.stoppable,
        forall|i: int| 0 <= i < cancelled.len() ==> #[trigger] cancelled[i],
        0 <= k < answers.left.len() - answers_over(answers, cancelled).left.len(),
    ensures
        !carries_text(answers.left[k]),
    decreases cancelled.len(),
{
    law_answers_are_sent_in_order(answers, cancelled);
    if cancelled.len() > 0 {
        let before = answers_over(answers, cancelled.drop_last());
        law_answers_are_sent_in_order(answers, cancelled.drop_last());
        let sent = answers.left.len() - before.left.len();
        if k < sent {
            law_cancelled_workflows_send_no_more_text(answers, cancelled.drop_last(), k);
        } else {
            assert(cancelled[cancelled.len() - 1]);
            assert(before.left[0] == answers.left[sent]);
        }
    }
}

/// What a workflow ends with.
#[derive(Debug, PartialEq, Eq)]
pub struct GenerateWorkflowResult {
    pub request_id: String,
    pub generated_tokens: u64,
    pub finish_reason: String,
}

/// What an activity makes of its generation: the workflow's result, or the
/// answer that reports the failure.
pub fn activity_result(request_id: String, outcome: Result<u64, String>) -> (r: Result<
    GenerateWorkflowResult,
    ResponseEvent,
>)
    ensures
        match outcome {
            Ok(generated_tokens) => {
                &&& r matches Ok(result)
                &&& result.request_id == request_id
                &&& result.generated_tokens == generated_tokens
                &&& result.finish_reason@ == "stop"@
            },
            Err(message) => {
                &&& r matches Err(event)
                &&& event@ == (ResponseView::Error { message: message@ })
            },
        },
{
    match outcome {
        Ok(generated_tokens) => Ok(
            GenerateWorkflowResult {
                request_id,
                generated_tokens,
                finish_reason: "stop".to_string(),
            },
        ),
        Err(message) => Err(ResponseEvent::Error { message }),
    }
}

/// How far a worker has come with a job: what is to be done next.
#[derive(Debug, PartialEq, Eq)]
pub enum WorkStage {
    /// Answer that the model is not served here.
    Refuse,
    /// Count the generation among those that are active.
    CountIn,
    /// Generate, and answer with what is generated.
    Generate,
    /// Count the generation out, and note the time.
    CountOut(Result<u64, String>),
    /// Answer with what went wrong.
    Report(String),
    /// Nothing more: the tokens that were generated, or why the job failed.
    Over(Result<u64, String>),
}

/// What doing it gave.
#[derive(Debug, PartialEq, Eq)]
pub enum WorkEvent {
    /// It was done.
    Done,
    /// What the generation came to.
    Generated(Result<u64, String>),
    /// The broker failed, with these words.
    Fault(String),
}

/// The stage after an event. A generation is counted out whether or not it
/// went well; a workflow then reports what went wrong, and no fault in
/// reporting it takes its place.
pub open spec fn work_after(stage: WorkStage, event: WorkEvent, reports: bool) -> WorkStage {
    match (stage, event) {
        (WorkStage::Over(outcome), _) => WorkStage::Over(outcome),
        (WorkStage::Report(error), _) => WorkStage::Over(Err(error)),
        (WorkStage::Refuse, WorkEvent::Done) => WorkStage::Over(Ok(0)),
        (WorkStage::CountIn, WorkEvent::Done) => WorkStage::Generate,
        (WorkStage::Generate, WorkEvent::Generated(outcome)) => WorkStage::CountOut(outcome),
        (WorkStage::CountOut(Ok(n)), WorkEvent::Done) => WorkStage::Over(Ok(n)),
        (WorkStage::CountOut(Err(error)), WorkEvent::Done) => if reports {
            WorkStage::Report(error)
        } else {
            WorkStage::Over(Err(error))
        },
        (_, WorkEvent::Fault(words)) => WorkStage::Over(Err(words)),
        (stage, _) => stage,
    }
}

/// A worker's way through a job.
pub struct WorkRun {
    stage: WorkStage,
    reports: bool,
}

impl WorkRun {
    /// How far the worker has come.
    pub closed spec fn stage(&self) -> WorkStage {
        self.stage
    }

    /// Whether a failure is reported to the caller.
    pub closed spec fn reports(&self) -> bool {
        self.reports
    }

    /// Starts on a job, for the model that the worker serves.
    pub fn start_job(body: &Json, model: &str) -> (run: Self)
        ensures
            run.stage() == if wrong_model(body@, model@) {
                WorkStage::Refuse
            } else {
                WorkStage::CountIn
            },
            !run.reports(),
    {
        match check_model(body, model) {
            Some(_) => WorkRun { stage: WorkStage::Refuse, reports: false },
            None => WorkRun { stage: WorkStage::CountIn, reports: false },
        }
    }

    /// Starts on a workflow's job.
    pub fn start_workflow() -> (run: Self)
        ensures
            run.stage() == WorkStage::CountIn,
            run.reports(),
    {
        WorkRun { stage: WorkStage::CountIn, reports: true }
    }

    /// What is to be done next.
    pub fn next(&self) -> (stage: &WorkStage)
        ensures
            *stage == self.stage(),
    {
        &self.stage
    }

    /// The run with what doing the next thing gave.
    pub fn after(self, event: WorkEvent) -> (run: Self)
        ensures
            run.stage() == work_after(self.stage(), event, self.reports()),
            run.reports() == self.reports(),
    {
        let WorkRun { stage, reports } = self;
        let stage = match (stage, event) {
            (WorkStage::Over(outcome), _) => WorkStage::Over(outcome),
            (WorkStage::Report(error), _) => WorkStage::Over(Err(error)),
            (WorkStage::Refuse, WorkEvent::Done) => WorkStage::Over(Ok(0)),
            (WorkStage::CountIn, WorkEvent::Done) => WorkStage::Generate,
            (WorkStage::Generate, WorkEvent::Generated(outcome)) => WorkStage::CountOut(outcome),
            (WorkStage::CountOut(Ok(n)), WorkEvent::Done) => WorkStage::Over(Ok(n)),
            (WorkStage::CountOut(Err(error)), WorkEvent::Done) => if reports {
                WorkStage::Report(error)
            } else {
                WorkStage::Over(Err(error))
            },
            (_, WorkEvent::Fault(words)) => WorkStage::Over(Err(words)),
            (stage, _) => stage,
        };
        WorkRun { stage, reports }
    }
}

/// The stages of a job, from its first to the one after the last event.
pub open spec fn work_stages(start: WorkStage, events: Seq<WorkEvent>, reports: bool) -> Seq<
    WorkStage,
>
    decreases events.len(),
{
    if events.len() == 0 {
        seq![start]
    } else {
        let before = work_stages(start, events.drop_last(), reports);
        before.push(work_after(before.last(), events.last(), reports))
    }
}

/// Where the broker does not fail, no generation stays among the active ones:
/// a job that was begun and is over has been counted out, whether or not its
/// generation went well.
pub proof fn law_generations_are_counted_out(events: Seq<WorkEvent>, reports: bool)
    requires
        forall|i: int| 0 <= i < events.len() ==> !(#[trigger] events[i] is Fault),
    ensures
        ({
            let run = work_stages(WorkStage::CountIn, events, reports);
            &&& run.len() == events.len() + 1
            &&& (run.last() is Over || run.last() is Report) ==> exists|i: int|
                0 <= i < run.len() && #[trigger] run[i] is CountOut
            &&& !(run.last() is Refuse)
        }),
    decreases events.len(),
{
    if events.len() > 0 {
        let earlier = events.drop_last();
        assert forall|i: int| 0 <= i < earlier.len() implies !(#[trigger] earlier[i] is Fault) by {
            assert(earlier[i] == events[i]);
        }
        law_generations_are_counted_out(earlier, reports);
        let before = work_stages(WorkStage::CountIn, earlier, reports);
        let run = work_stages(WorkStage::CountIn, events, reports);
        assert(!(events[events.len() - 1] is Fault));
        let n = before.len() as int;
        if run.last() is Over || run.last() is Report {
            if before.last() is CountOut {
                assert(run[n - 1] is CountOut);
            } else {
                let i = choose|i: int| 0 <= i < before.len() && #[trigger] before[i] is CountOut;
                assert(run[i] == before[i]);
            }
        }
    }
}

/// The first words of a text are words of it, and no more than the limit.
proof fn lemma_first_words(text: Seq<char>, limit: usize)
    ensures
        words(first_words(text, limit)) == if words(text).len() <= limit {
            words(text)
        } else {
            words(text).take(limit as int)
        },
{
    let all = words(text);
    let kept = if all.len() <= limit {
        all
    } else {
        all.take(limit as int)
    };
    lemma_words_are_words(text);
    assert forall|i: int| 0 <= i < kept.len() implies is_word(#[trigger] kept[i]) by {
        assert(kept[i] == all[i]);
    }
    lemma_words_of_joined(kept);
}

/// Whatever the prompt, the synthetic backend says at least one word and no
/// more than it may, one where it may say none; so it counts the same whether
/// its text is sent as a whole or word by word.
pub proof fn law_synthetic_text_is_bounded(prompt: Seq<char>, max_tokens: usize, body: JsonView)
    ensures
        1 <= words(synthetic_text(prompt, max_tokens)).len() <= at_least_one(max_tokens),
        tokens_counted(synthetic_text(prompt, max_tokens)) == words(
            synthetic_text(prompt, max_tokens),
        ).len(),
        1 <= words(workflow_text(body)).len() <= at_least_one(tokens_allowed(body)),
        tokens_counted(workflow_text(body)) == words(workflow_text(body)).len(),
{
    reveal_strlit("demo model response: no prompt provided");
    reveal_strlit("demo model response: admitted request, prompt summary: ");
    reveal_strlit("demo model response: admitted request from Rust Temporal worker");
    reveal_strlit("demo model response: admitted request from Rust Temporal worker: ");
    let summary = first_words(prompt, 24);
    let response = if summary.len() == 0 {
        "demo model response: no prompt provided"@
    } else {
        "demo model response: admitted request, prompt summary: "@ + summary
    };
    assert(response[0] == 'd');
    lemma_has_a_word(response);
    lemma_first_words(response, at_least_one(max_tokens));
    let asked = workflow_prompt(body);
    let answer = if asked.len() == 0 {
        "demo model response: admitted request from Rust Temporal worker"@
    } else {
        "demo model response: admitted request from Rust Temporal worker: "@ + first_words(
            asked,
            24,
        )
    };
    assert(answer[0] == 'd');
    lemma_has_a_word(answer);
    lemma_first_words(answer, at_least_one(tokens_allowed(body)));
}

/// A text that does not begin with white space has a word.
proof fn lemma_has_a_word(text: Seq<char>)
    requires
        text.len() > 0,
        !white_space(text[0]),
    ensures
        words(text).len() >= 1,
{
    lemma_word_len(text);
}

/// A text that is streamed is answered with one chunk for each word, each
/// counted as one token, then the end mark, and then one end that gives their
/// number; nothing comes after it.
pub proof fn law_streams_end_once(
    request_id: Seq<char>,
    model: Seq<char>,
    chat: bool,
    text: Seq<char>,
)
    ensures
        ({
            let responses = streamed_responses(request_id, model, chat, text);
            let n = words(text).len() as int;
            &&& responses.len() == n + 2
            &&& forall|i: int| 0 <= i < n + 1 ==> #[trigger] responses[i] is Chunk
            &&& forall|i: int|
                0 <= i < n ==> (#[trigger] responses[i])->token_estimate == 1
            &&& responses[n] == (ResponseView::Chunk {
                data: ChunkView::Text("[DONE]"@),
                token_estimate: 0,
            })
            &&& responses[n + 1] == (ResponseView::Done { generated_tokens: n as u64 })
        }),
{
}

/// Messages are spoken one for one and in order, each as its role, a colon, a
/// space and its content; only one without either is left out. So are the
/// strings of an array, but for what is no string.
pub proof fn law_messages_are_spoken_in_order(messages: Seq<JsonView>, message: JsonView)
    ensures
        all_spoken(Seq::empty()) == Seq::<Seq<char>>::empty(),
        all_texts(Seq::empty()) == Seq::<Seq<char>>::empty(),
        ({
            let role = member(Some(message), "role"@);
            let content = member(Some(message), "content"@);
            &&& role is Some && role->0 is Text && content is Some && content->0 is Text
                ==> all_spoken(messages.push(message)) == all_spoken(messages).push(
                role->0->Text_0 + ": "@ + content->0->Text_0,
            )
            &&& !(role is Some && role->0 is Text && content is Some && content->0 is Text)
                ==> all_spoken(messages.push(message)) == all_spoken(messages)
        }),
        message matches JsonView::Text(text) ==> all_texts(messages.push(message)) == all_texts(
            messages,
        ).push(text),
        !(message is Text) ==> all_texts(messages.push(message)) == all_texts(messages),
{
    assert(messages.push(message).drop_last() =~= messages);
    assert(messages.push(message).last() == message);
}

/// A job's prompt is its messages, one to a line; where it has none, its prompt,
/// or the strings of it one to a line. A workflow's prompt is a string or
/// nothing.
pub proof fn law_prompts_are_messages_first(body: JsonView)
    ensures
        ({
            let messages = member(Some(body), "messages"@);
            let prompt = member(Some(body), "prompt"@);
            let listed = messages is Some && messages->0 is Array;
            &&& listed ==> job_prompt(body) == joined(
                all_spoken(messages->0->Array_0),
                "\n"@,
            ) && workflow_prompt(body) == job_prompt(body)
            &&& !listed && prompt is Some && prompt->0 is Text ==> job_prompt(body)
                == prompt->0->Text_0 && workflow_prompt(body) == prompt->0->Text_0
            &&& !listed && prompt is Some && prompt->0 is Array ==> job_prompt(body) == joined(
                all_texts(prompt->0->Array_0),
                "\n"@,
            ) && workflow_prompt(body).len() == 0
            &&& !listed && !(prompt is Some && (prompt->0 is Text || prompt->0 is Array))
                ==> job_prompt(body).len() == 0 && workflow_prompt(body).len() == 0
        }),
{
}

/// The first words of a text are its own, in order and with one space between
/// them, all of them where the limit allows it and else as many as that.
pub proof fn law_first_words_are_the_texts(text: Seq<char>, limit: usize, kept: Seq<Seq<char>>)
    requires
        kept.len() <= limit,
        kept.len() <= words(text).len(),
        kept.len() == limit || kept.len() == words(text).len(),
        forall|i: int| 0 <= i < kept.len() ==> #[trigger] kept[i] == words(text)[i],
    ensures
        first_words(text, limit) == joined(kept, " "@),
        words(first_words(text, limit)) == kept,
{
    lemma_first_words(text, limit);
    if words(text).len() <= limit {
        assert(kept =~= words(text));
    } else {
        assert(kept =~= words(text).take(limit as int));
    }
}

/// The words that stand before a text, and its first ones, are the first of all.
proof fn lemma_head_and_words(head: Seq<char>, text: Seq<char>, i: int)
    ensures
        ({
            let all = words(head.push(' ') + first_words(text, 24));
            let n = words(head).len();
            &&& all.len() == n + if words(text).len() <= 24 {
                words(text).len()
            } else {
                24
            }
            &&& 0 <= i < n ==> all[i] == words(head)[i]
            &&& n <= i < all.len() ==> all[i] == words(text)[i - n]
        }),
{
    law_white_space_parts_words(head, ' ', first_words(text, 24));
    lemma_first_words(text, 24);
}

/// Whatever was asked, the synthetic backend says its greeting and then the
/// first words of the prompt, 24 at most and in order, as many of all these as
/// it may, and one at least; of a prompt without words it says that there was
/// none.
pub proof fn law_synthetic_text_sums_the_prompt_up(prompt: Seq<char>, max_tokens: usize, i: int)
    ensures
        ({
            let said_words = words(synthetic_text(prompt, max_tokens));
            let asked = words(prompt);
            let greeting = words("demo model response: admitted request, prompt summary:"@);
            let none = words("demo model response: no prompt provided"@);
            let limit = if max_tokens == 0 {
                1int
            } else {
                max_tokens as int
            };
            let summed: int = if asked.len() <= 24 {
                asked.len() as int
            } else {
                24
            };
            &&& said_words.len() <= limit
            &&& asked.len() > 0 ==> {
                &&& said_words.len() == limit || said_words.len() == greeting.len() + summed
                &&& said_words.len() <= greeting.len() + summed
                &&& 0 <= i < said_words.len() && i < greeting.len() ==> said_words[i] == greeting[i]
                &&& greeting.len() <= i < said_words.len() ==> said_words[i] == asked[i
                    - greeting.len()]
            }
            &&& asked.len() == 0 ==> {
                &&& said_words.len() == limit || said_words.len() == none.len()
                &&& said_words.len() <= none.len()
                &&& 0 <= i < said_words.len() ==> said_words[i] == none[i]
            }
        }),
{
    let head = "demo model response: admitted request, prompt summary:"@;
    reveal_strlit("demo model response: admitted request, prompt summary:");
    reveal_strlit("demo model response: admitted request, prompt summary: ");
    let summary = first_words(prompt, 24);
    lemma_first_words(prompt, 24);
    if summary.len() == 0 {
        law_words_stay_whole(summary);
        assert(words(prompt).len() == 0);
        lemma_first_words("demo model response: no prompt provided"@, at_least_one(max_tokens));
    } else {
        assert("demo model response: admitted request, prompt summary: "@ =~= head.push(' '));
        if words(prompt).len() == 0 {
            assert(words(prompt) =~= Seq::<Seq<char>>::empty());
            assert(summary.len() == 0);
        }
        lemma_head_and_words(head, prompt, i);
        lemma_first_words(head.push(' ') + summary, at_least_one(max_tokens));
    }
}

/// In a workflow the synthetic backend says its greeting and then the first
/// words of the prompt, 24 at most and in order, as many of all these as it may,
/// and one at least.
pub proof fn law_workflow_text_sums_the_prompt_up(body: JsonView, i: int)
    ensures
        ({
            let said_words = words(workflow_text(body));
            let prompt = workflow_prompt(body);
            let asked = words(prompt);
            let alone = words(
                "demo model response: admitted request from Rust Temporal worker"@,
            );
            let greeting = words(
                "demo model response: admitted request from Rust Temporal worker:"@,
            );
            let limit = if tokens_allowed(body) == 0 {
                1int
            } else {
                tokens_allowed(body) as int
            };
            let summed: int = if asked.len() <= 24 {
                asked.len() as int
            } else {
                24
            };
            &&& said_words.len() <= limit
            &&& prompt.len() > 0 ==> {
                &&& said_words.len() == limit || said_words.len() == greeting.len() + summed
                &&& said_words.len() <= greeting.len() + summed
                &&& 0 <= i < said_words.len() && i < greeting.len() ==> said_words[i] == greeting[i]
                &&& greeting.len() <= i < said_words.len() ==> said_words[i] == asked[i
                    - greeting.len()]
            }
            &&& prompt.len() == 0 ==> {
                &&& said_words.len() == limit || said_words.len() == alone.len()
                &&& said_words.len() <= alone.len()
                &&& 0 <= i < said_words.len() ==> said_words[i] == alone[i]
            }
        }),
{
    let prompt = workflow_prompt(body);
    let head = "demo model response: admitted request from Rust Temporal worker:"@;
    reveal_strlit("demo model response: admitted request from Rust Temporal worker:");
    reveal_strlit("demo model response: admitted request from Rust Temporal worker: ");
    if prompt.len() == 0 {
        lemma_first_words(
            "demo model response: admitted request from Rust Temporal worker"@,
            at_least_one(tokens_allowed(body)),
        );
    } else {
        assert("demo model response: admitted request from Rust Temporal worker: "@ =~= head.push(
            ' ',
        ));
        lemma_head_and_words(head, prompt, i);
        lemma_first_words(
            head.push(' ') + first_words(prompt, 24),
            at_least_one(tokens_allowed(body)),
        );
    }
}

/// A job may put out what it asks for, as it asks for it, or 64 tokens where it
/// does not say. It is refused exactly if it names another model.
pub proof fn law_jobs_get_what_they_ask_for(body: JsonView, n: u64, model: Seq<char>)
    ensures
        member(Some(body), "max_tokens"@) == Some(JsonView::Unsigned(n)) ==> tokens_allowed(body)
            == n as usize,
        !(member(Some(body), "max_tokens"@) matches Some(JsonView::Unsigned(_))) ==> tokens_allowed(
            body,
        ) == 64,
        member(Some(body), "model"@) matches Some(JsonView::Text(asked)) ==> (wrong_model(
            body,
            model,
        ) <==> asked != model),
        !(member(Some(body), "model"@) matches Some(JsonView::Text(_))) ==> !wrong_model(
            body,
            model,
        ),
{
}

/// A text counts as many tokens as it has words, and one where it has none; a
/// delta counts likewise, but nothing where it is empty.
pub proof fn law_words_are_counted(text: Seq<char>)
    ensures
        words(text).len() > 0 ==> tokens_counted(text) == words(text).len(),
        words(text).len() == 0 ==> tokens_counted(text) == 1,
        text.len() > 0 ==> delta_tokens(text) == tokens_counted(text),
        text.len() == 0 ==> delta_tokens(text) == 0,
{
}

/// A runtime is sent the job's own messages, whole, or its prompt as the one
/// message of the user's, with the model, the output that is allowed, and
/// whether to stream.
pub proof fn law_runtimes_get_the_jobs_messages(
    model: Seq<char>,
    body: JsonView,
    prompt: Seq<char>,
    stream: bool,
)
    ensures
        completion_request(model, body, prompt, stream) is Object,
        ({
            let members = completion_request(model, body, prompt, stream)->Object_0;
            &&& members.len() == 4
            &&& members[0] == ("model"@, JsonView::Text(model))
            &&& members[1].0 == "messages"@
            &&& members[2] == ("max_tokens"@, JsonView::Unsigned(tokens_allowed(body) as u64))
            &&& members[3] == ("stream"@, JsonView::Bool(stream))
            &&& member(Some(body), "messages"@) matches Some(messages) ==> members[1].1 == messages
            &&& member(Some(body), "messages"@) is None ==> {
                &&& members[1].1 is Array
                &&& members[1].1->Array_0.len() == 1
                &&& members[1].1->Array_0[0] is Object
                &&& members[1].1->Array_0[0]->Object_0.len() == 2
                &&& members[1].1->Array_0[0]->Object_0[0] == ("role"@, JsonView::Text("user"@))
                &&& members[1].1->Array_0[0]->Object_0[1] == ("content"@, JsonView::Text(prompt))
            }
        }),
{
}

/// The text of a runtime's answer is that of its first choice's message, as it
/// is, and of an event that of its first choice's delta; what is no string is no
/// text.
pub proof fn law_answers_are_read_as_they_are(value: JsonView)
    ensures
        ({
            let choice = first_element(member(Some(value), "choices"@));
            let whole = member(member(choice, "message"@), "content"@);
            let delta = member(member(choice, "delta"@), "content"@);
            &&& whole matches Some(JsonView::Text(text)) ==> answer_text(value) == text
            &&& !(whole matches Some(JsonView::Text(_))) ==> answer_text(value).len() == 0
            &&& delta matches Some(JsonView::Text(text)) ==> delta_of(value) == text
            &&& !(delta matches Some(JsonView::Text(_))) ==> delta_of(value).len() == 0
        }),
{
}

/// The body of a whole answer names the request and the model, and carries the
/// text as it is, in a message of the assistant's for a chat and by itself for
/// a completion. It counts the words of the prompt and of the text, one at least
/// of each, and their sum.
pub proof fn law_whole_answers_carry_the_text(
    request_id: Seq<char>,
    model: Seq<char>,
    chat: bool,
    prompt: Seq<char>,
    text: Seq<char>,
)
    requires
        words(prompt).len() <= u64::MAX,
        words(text).len() <= u64::MAX,
    ensures
        completion_body_said(request_id, model, chat, prompt, text) is Object,
        ({
            let members = completion_body_said(request_id, model, chat, prompt, text)->Object_0;
            let asked: int = if words(prompt).len() == 0 {
                1
            } else {
                words(prompt).len() as int
            };
            let put_out: int = if words(text).len() == 0 {
                1
            } else {
                words(text).len() as int
            };
            &&& members.len() == 5
            &&& members[0].0 == "id"@
            &&& members[1].0 == "object"@
            &&& chat ==> members[0].1 == JsonView::Text("chatcmpl-"@ + request_id)
                && members[1].1 == JsonView::Text("chat.completion"@)
            &&& !chat ==> members[0].1 == JsonView::Text("cmpl-"@ + request_id) && members[1].1
                == JsonView::Text("text_completion"@)
            &&& members[2] == ("model"@, JsonView::Text(model))
            &&& members[3].0 == "choices"@
            &&& members[3].1 is Array
            &&& members[3].1->Array_0.len() == 1
            &&& members[3].1->Array_0[0] is Object
            &&& ({
                let choice = members[3].1->Array_0[0]->Object_0;
                &&& choice.len() == 3
                &&& choice[0] == ("index"@, JsonView::Unsigned(0))
                &&& chat ==> choice[1].0 == "message"@ && choice[1].1 is Object && {
                    let message = choice[1].1->Object_0;
                    &&& message.len() == 2
                    &&& message[0] == ("role"@, JsonView::Text("assistant"@))
                    &&& message[1] == ("content"@, JsonView::Text(text))
                }
                &&& !chat ==> choice[1] == ("text"@, JsonView::Text(text))
                &&& choice[2] == ("finish_reason"@, JsonView::Text("stop"@))
            })
            &&& members[4].0 == "usage"@
            &&& members[4].1 is Object
            &&& ({
                let usage = members[4].1->Object_0;
                &&& usage.len() == 3
                &&& usage[0] == ("prompt_tokens"@, JsonView::Unsigned(asked as u64))
                &&& usage[1] == ("completion_tokens"@, JsonView::Unsigned(put_out as u64))
                &&& usage[2].0 == "total_tokens"@
                &&& asked + put_out <= u64::MAX ==> usage[2].1 == JsonView::Unsigned(
                    (asked + put_out) as u64,
                )
                &&& asked + put_out > u64::MAX ==> usage[2].1 == JsonView::Unsigned(u64::MAX)
            })
        }),
{
}

/// The body of a whole answer in a workflow is that of a chat, but for the
/// prompt's tokens, which it does not count.
pub proof fn law_workflow_answers_are_chats(
    request_id: Seq<char>,
    model: Seq<char>,
    prompt: Seq<char>,
    text: Seq<char>,
)
    ensures
        workflow_body_said(request_id, model, text) is Object,
        ({
            let members = workflow_body_said(request_id, model, text)->Object_0;
            let chat = completion_body_said(request_id, model, true, prompt, text)->Object_0;
            let n: int = if words(text).len() == 0 {
                1
            } else {
                words(text).len() as int
            };
            &&& members.len() == 5
            &&& members[0] == chat[0]
            &&& members[1] == chat[1]
            &&& members[2] == chat[2]
            &&& members[3] == chat[3]
            &&& members[4].0 == "usage"@
            &&& members[4].1 is Object
            &&& members[4].1->Object_0.len() == 2
            &&& members[4].1->Object_0[0] == ("completion_tokens"@, JsonView::Unsigned(n as u64))
            &&& members[4].1->Object_0[1] == ("total_tokens"@, JsonView::Unsigned(n as u64))
        }),
{
}

/// A piece of an answer names the request and the model, and carries its text as
/// it is: in a delta for a chat, and by itself for a completion.
pub proof fn law_pieces_carry_their_text(
    request_id: Seq<char>,
    model: Seq<char>,
    chat: bool,
    content: Seq<char>,
)
    ensures
        chunk_doc(request_id, model, chat, content) is Object,
        ({
            let members = chunk_doc(request_id, model, chat, content)->Object_0;
            &&& members.len() == 4
            &&& members[0].0 == "id"@
            &&& members[1].0 == "object"@
            &&& chat ==> members[0].1 == JsonView::Text("chatcmpl-"@ + request_id)
                && members[1].1 == JsonView::Text("chat.completion.chunk"@)
            &&& !chat ==> members[0].1 == JsonView::Text("cmpl-"@ + request_id) && members[1].1
                == JsonView::Text("text_completion.chunk"@)
            &&& members[2] == ("model"@, JsonView::Text(model))
            &&& members[3].0 == "choices"@
            &&& members[3].1 is Array
            &&& members[3].1->Array_0.len() == 1
            &&& members[3].1->Array_0[0] is Object
            &&& ({
                let choice = members[3].1->Array_0[0]->Object_0;
                &&& choice.len() == 3
                &&& choice[0] == ("index"@, JsonView::Unsigned(0))
                &&& chat ==> choice[1].0 == "delta"@ && choice[1].1 is Object
                    && choice[1].1->Object_0.len() == 1 && choice[1].1->Object_0[0] == (
                    "content"@,
                    JsonView::Text(content),
                )
                &&& !chat ==> choice[1] == ("text"@, JsonView::Text(content))
                &&& choice[2] == ("finish_reason"@, JsonView::Null)
            })
        }),
{
}

/// A text that is streamed is answered word by word and in order: each chunk
/// carries the next word of the text and one space, and no word is left out.
pub proof fn law_words_are_streamed_in_order(
    request_id: Seq<char>,
    model: Seq<char>,
    chat: bool,
    text: Seq<char>,
    i: int,
)
    ensures
        ({
            let responses = streamed_responses(request_id, model, chat, text);
            &&& responses.len() == words(text).len() + 2
            &&& 0 <= i < words(text).len() ==> responses[i] == (ResponseView::Chunk {
                data: ChunkView::Document(
                    chunk_doc(request_id, model, chat, words(text)[i] + " "@),
                ),
                token_estimate: 1,
            })
        }),
{
}

/// A text that is given as a whole is answered with its body and then the end,
/// both for as many tokens as the text has words, one at least.
pub proof fn law_whole_answers_end_once(body: JsonView, text: Seq<char>)
    ensures
        ({
            let responses = whole_responses(body, text);
            let n: int = if words(text).len() == 0 {
                1
            } else {
                words(text).len() as int
            };
            &&& responses.len() == 2
            &&& responses[0] == (ResponseView::Chunk {
                data: ChunkView::Document(body),
                token_estimate: n as u64,
            })
            &&& responses[1] == (ResponseView::Done { generated_tokens: n as u64 })
        }),
{
}

/// A relay passes an event's data on as it is, counted by the words of its
/// delta, one at least and nothing for an empty one, and adds the count to what
/// was passed on, up to what 64 bits hold. It ends with the end mark and the
/// count.
pub proof fn law_relays_pass_data_on_as_it_is(
    data: Seq<char>,
    value: JsonView,
    generated_tokens: u64,
    a: nat,
    b: nat,
)
    ensures
        passed_on(data, value) matches ResponseView::Chunk { data: passed, token_estimate }
            && passed == ChunkView::Text(data) && token_estimate == (if delta_of(value).len() == 0 {
            0
        } else if words(delta_of(value)).len() == 0 {
            1
        } else {
            words(delta_of(value)).len() as u64
        }),
        relay_end(generated_tokens) == seq![
            ResponseView::Chunk { data: ChunkView::Text("[DONE]"@), token_estimate: 0 },
            ResponseView::Done { generated_tokens },
        ],
        a + b <= u64::MAX ==> sum_of(a, b) == a + b,
        a + b > u64::MAX ==> sum_of(a, b) == u64::MAX,
{
}

/// A job that asks for its text piece by piece gets it word by word, and any
/// other as a whole, both for its own request, model, prompt and text. Only the
/// words of a workflow can be stopped.
pub proof fn law_jobs_are_answered_as_they_ask(
    body: JsonView,
    request_id: Seq<char>,
    model: Seq<char>,
    upstream_path: Seq<char>,
    prompt: Seq<char>,
    text: Seq<char>,
    chat: bool,
)
    requires
        chat <==> exists|k: int|
            0 <= k && k + 4 <= upstream_path.len() && #[trigger] upstream_path.subrange(k, k + 4)
                == "chat"@,
    ensures
        ({
            let answers = job_answers(body, request_id, model, upstream_path, prompt, text);
            let pieces = member(Some(body), "stream"@) == Some(JsonView::Bool(true));
            &&& answers.by_words == pieces
            &&& !answers.stoppable
            &&& pieces ==> answers.left == streamed_responses(request_id, model, chat, text)
                && answers.generated_tokens == words(text).len() as u64
            &&& !pieces ==> answers.left == whole_responses(
                completion_body_said(request_id, model, chat, prompt, text),
                text,
            ) && answers.generated_tokens == (if words(text).len() == 0 {
                1
            } else {
                words(text).len() as u64
            })
        }),
        ({
            let answers = workflow_answers(true, request_id, model, text);
            &&& answers.left == streamed_responses(request_id, model, true, text)
            &&& answers.generated_tokens == words(text).len() as u64
            &&& answers.by_words
            &&& answers.stoppable
        }),
        ({
            let answers = workflow_answers(false, request_id, model, text);
            &&& answers.left == whole_responses(workflow_body_said(request_id, model, text), text)
            &&& answers.generated_tokens == (if words(text).len() == 0 {
                1
            } else {
                words(text).len() as u64
            })
            &&& !answers.by_words
            &&& !answers.stoppable
        }),
{
    reveal_strlit("chat");
    law_patterns_are_found_where_they_stand(upstream_path, "chat"@);
    if chat {
        let k = choose|k: int|
            0 <= k && k + 4 <= upstream_path.len() && #[trigger] upstream_path.subrange(k, k + 4)
                == "chat"@;
        assert(upstream_path.subrange(k, k + "chat"@.len()) == "chat"@);
    } else if first_at(upstream_path, "chat"@) is Some {
        let i = first_at(upstream_path, "chat"@).unwrap();
        assert(upstream_path.subrange(i, i + 4) == "chat"@);
    }
}

/// The answer that comes next is the first of those that are left, whatever the
/// workflow, unless it was cancelled, can be stopped, and the answer carries
/// text. An answer carries text exactly if it is a chunk that counts tokens.
pub proof fn law_only_text_is_stopped(answers: AnswersView, cancelled: bool)
    requires
        answers.left.len() > 0,
    ensures
        ({
            let first = answers.left[0];
            let text = first matches ResponseView::Chunk { data, token_estimate } && token_estimate
                > 0;
            let after = answers_after(answers, cancelled);
            &&& carries_text(first) <==> text
            &&& stops(answers, cancelled) <==> answers.stoppable && cancelled && text
            &&& answers.stoppable && cancelled && text ==> after == answers
            &&& !(answers.stoppable && cancelled && text) ==> after.left == answers.left.skip(1)
                && after.generated_tokens == answers.generated_tokens && after.by_words
                == answers.by_words && after.stoppable == answers.stoppable
        }),
{
}

/// A job that is served is counted in, generated for, and counted out for what
/// that came to, and is then over with it; a failure is reported first where
/// that is asked for, and what the reporting gave does not take its place. One
/// for another model is answered so and is over with no tokens.
pub proof fn law_work_comes_to_what_was_generated(
    outcome: Result<u64, String>,
    reports: bool,
    event: WorkEvent,
    fault: String,
)
    ensures
        work_after(WorkStage::Refuse, WorkEvent::Done, reports) == WorkStage::Over(Ok(0)),
        ({
            let s1 = work_after(WorkStage::CountIn, WorkEvent::Done, reports);
            let s2 = work_after(s1, WorkEvent::Generated(outcome), reports);
            let s3 = work_after(s2, WorkEvent::Done, reports);
            &&& s1 is Generate
            &&& s2 == WorkStage::CountOut(outcome)
            &&& outcome is Ok || !reports ==> s3 == WorkStage::Over(outcome)
            &&& outcome matches Err(error) ==> reports ==> s3 == WorkStage::Report(error)
                && work_after(s3, event, reports) == WorkStage::Over(outcome)
        }),
        work_after(WorkStage::Over(outcome), event, reports) == WorkStage::Over(outcome),
        work_after(WorkStage::CountIn, WorkEvent::Fault(fault), reports) == WorkStage::Over(
            Err(fault),
        ),
        work_after(WorkStage::Generate, WorkEvent::Fault(fault), reports) == WorkStage::Over(
            Err(fault),
        ),
        work_after(WorkStage::CountOut(outcome), WorkEvent::Fault(fault), reports)
            == WorkStage::Over(Err(fault)),
        work_after(WorkStage::Refuse, WorkEvent::Fault(fault), reports) == WorkStage::Over(
            Err(fault),
        ),
{
}

/// A worker goes on only with what its stage waits for: any other event leaves
/// it where it is.
pub proof fn law_workers_wait_for_what_they_need(stage: WorkStage, event: WorkEvent, reports: bool)
    ensures
        work_after(stage, event, reports) != stage ==> {
            ||| event is Fault
            ||| stage is Report
            ||| event is Done && (stage is Refuse || stage is CountIn || stage is CountOut)
            ||| event is Generated && stage is Generate
        },
{
}

/// What is said of answers is what they are, one for one.
pub proof fn law_responses_say_what_they_are(
    events: Seq<ResponseEvent>,
    i: int,
    json: Json,
    text: String,
    n: u64,
)
    ensures
        responses_said(events).len() == events.len(),
        0 <= i < events.len() ==> responses_said(events)[i] == events[i]@,
        (ResponseEvent::Chunk { data: ChunkData::Document(json), token_estimate: n })@ == (
        ResponseView::Chunk { data: ChunkView::Document(json@), token_estimate: n }),
        (ResponseEvent::Chunk { data: ChunkData::Text(text), token_estimate: n })@ == (
        ResponseView::Chunk { data: ChunkView::Text(text@), token_estimate: n }),
        (ResponseEvent::Done { generated_tokens: n })@ == (ResponseView::Done {
            generated_tokens: n,
        }),
        (ResponseEvent::Error { message: text })@ == (ResponseView::Error { message: text@ }),
{
}

} // verus!
