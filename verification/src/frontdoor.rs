//! The front door to the workers: what of a request is admitted, the job that
//! it becomes, and what the workers' answers are turned into for the caller.
use vstd::prelude::*;
#[allow(unused_imports)]
use vstd::utf8::encode_utf8;

use crate::access::{authenticate, refuse, ApiKeys, ErrorReply};
#[allow(unused_imports)]
use crate::access::{authenticated, header_text};
use crate::budget::{
    decide_budget, ApproxTokenCounter, BudgetPolicy, BudgetRequest, ChatMessage, ModelBudget,
    Prompt,
};
#[allow(unused_imports)]
use crate::budget::{
    clamped_output, excess_words, message_views, prompt_estimate, token_word, BudgetError,
    MessageView, PromptView, TokenCounter,
};
use crate::cache::cache_key;
#[allow(unused_imports)]
use crate::cache::cache_name;
use crate::frontend::{copy_messages, GenerateResponse};
use crate::ids::{fresh_uuid, uuid_text};
#[allow(unused_imports)]
use crate::ids::{hyphenated, random_uuid};
use crate::json::{first, get, parse_json, str_or_empty, Json};
#[allow(unused_imports)]
use crate::json::{
    elements, elements_said, first_element, flag_in, lemma_member_found, lemma_member_missing,
    member, members_said, parsed_json, said, text_in, text_or_empty, JsonView,
};
use crate::quota::{QuotaCheck, QuotaError, QuotaReservation};
use crate::text::{decimal_text, parse_u64, same_text, take_chars};
#[allow(unused_imports)]
use crate::text::{decimal, joined, prefix_of_len, unsigned_value};
use crate::worker::join_texts;
#[allow(unused_imports)]
use crate::worker::all_texts;

verus! {

pub const REQUEST_STREAM: &'static str = "inference:requests";

/// How much of a prompt names it in the cache.
pub const MAX_PREFIX_CHARS: usize = 4096;

/// A request as it comes over the wire. The temperature is carried beside it.
#[derive(Debug, PartialEq, Eq)]
pub struct ProtoGenerateRequest {
    pub model: String,
    pub messages: Vec<ChatMessage>,
    pub prompt: String,
    pub max_tokens: u64,
}

/// A request with what was left out told apart from what was given.
#[derive(Debug, PartialEq, Eq)]
pub struct RpcGenerateRequest {
    pub model: Option<String>,
    pub messages: Option<Vec<ChatMessage>>,
    pub prompt: Option<String>,
    pub max_tokens: Option<usize>,
}

/// A request as the workers get it. The temperature is carried beside it.
#[derive(Debug, PartialEq, Eq)]
pub struct OpenAiRequest {
    pub model: Option<String>,
    pub messages: Option<Vec<ChatMessage>>,
    pub prompt: Option<Json>,
    pub max_tokens: Option<usize>,
    pub stream: Option<bool>,
}

/// A request with what is empty or zero taken as left out.
pub fn rpc_request(request: ProtoGenerateRequest) -> (r: RpcGenerateRequest)
    ensures
        r.model == if request.model@.len() > 0 {
            Some(request.model)
        } else {
            None
        },
        r.messages == if request.messages@.len() > 0 {
            Some(request.messages)
        } else {
            None
        },
        r.prompt == if request.prompt@.len() > 0 {
            Some(request.prompt)
        } else {
            None
        },
        r.max_tokens == if request.max_tokens > 0 {
            Some(request.max_tokens as usize)
        } else {
            None
        },
{
    RpcGenerateRequest {
        model: if request.model.as_str().is_empty() {
            None
        } else {
            Some(request.model)
        },
        messages: if request.messages.len() == 0 {
            None
        } else {
            Some(request.messages)
        },
        prompt: if request.prompt.as_str().is_empty() {
            None
        } else {
            Some(request.prompt)
        },
        max_tokens: if request.max_tokens > 0 {
            Some(request.max_tokens as usize)
        } else {
            None
        },
    }
}

/// The request that the workers get: for the default model where none is asked.
pub fn rpc_to_openai_request(
    request: RpcGenerateRequest,
    response_streaming: bool,
    default_model: &str,
) -> (r: OpenAiRequest)
    ensures
        r.model matches Some(model) && model@ == match request.model {
            Some(asked) => asked@,
            None => default_model@,
        },
        r.messages == request.messages,
        match request.prompt {
            Some(prompt) => r.prompt matches Some(json) && json@ == JsonView::Text(prompt@),
            None => r.prompt is None,
        },
        r.max_tokens == request.max_tokens,
        r.stream == Some(response_streaming),
{
    OpenAiRequest {
        model: match request.model {
            Some(model) => Some(model),
            None => Some(default_model.to_string()),
        },
        messages: request.messages,
        prompt: match request.prompt {
            Some(prompt) => Some(Json::Text(prompt)),
            None => None,
        },
        max_tokens: request.max_tokens,
        stream: Some(response_streaming),
    }
}

/// What an optional document says.
pub open spec fn opt_said(json: Option<Json>) -> Option<JsonView> {
    match json {
        Some(json) => Some(json@),
        None => None,
    }
}

/// The prompt of a request: its messages, or else its prompt, a string or an
/// array of strings; or what is wrong with it.
pub open spec fn prompt_asked(request: OpenAiRequest) -> Result<PromptView, Seq<char>> {
    match (request.messages, opt_said(request.prompt)) {
        (Some(messages), _) => Ok(PromptView::Chat(message_views(messages@))),
        (None, None) => Err("either messages or prompt is required"@),
        (None, Some(JsonView::Text(text))) => Ok(PromptView::Text(text)),
        (None, Some(JsonView::Array(items))) => Ok(
            PromptView::Text(joined(all_texts(items), "\n"@)),
        ),
        (None, Some(_)) => Err("prompt must be a string or array of strings"@),
    }
}

/// The prompt of a request.
pub fn request_prompt(request: &OpenAiRequest) -> (r: Result<Prompt, &'static str>)
    ensures
        prompt_asked(*request) == match r {
            Ok(prompt) => Ok::<PromptView, Seq<char>>(prompt@),
            Err(message) => Err::<PromptView, Seq<char>>(message@),
        },
{
    if let Some(messages) = &request.messages {
        return Ok(Prompt::Chat(copy_messages(messages)));
    }
    match &request.prompt {
        None => Err("either messages or prompt is required"),
        Some(Json::Text(text)) => Ok(Prompt::Text(text.clone())),
        Some(Json::Array(items)) => Ok(Prompt::Text(join_texts(items))),
        Some(_) => Err("prompt must be a string or array of strings"),
    }
}

/// Pieces one after the other, up to the first with which they take as many
/// bytes as there are to be characters.
pub open spec fn gathered(start: Seq<char>, pieces: Seq<Seq<char>>) -> Seq<char>
    decreases pieces.len(),
{
    if pieces.len() == 0 {
        start
    } else {
        let next = start + pieces[0];
        if encode_utf8(next).len() >= MAX_PREFIX_CHARS {
            next
        } else {
            gathered(next, pieces.skip(1))
        }
    }
}

/// A message as two lines, each ended.
pub open spec fn message_lines(message: MessageView) -> Seq<char> {
    message.role + "\n"@ + message.content + "\n"@
}

/// The beginning of a prompt as the cache sees it, before it is cut.
pub open spec fn cached_text(request: OpenAiRequest) -> Seq<char> {
    match (request.messages, opt_said(request.prompt)) {
        (Some(messages), _) => gathered(
            Seq::empty(),
            message_views(messages@).map_values(|m: MessageView| message_lines(m)),
        ),
        (None, Some(JsonView::Text(text))) => text,
        (None, Some(JsonView::Array(items))) => gathered(
            Seq::empty(),
            all_texts(items).map_values(|text: Seq<char>| text + "\n"@),
        ),
        _ => Seq::empty(),
    }
}

/// Whether a text takes as many bytes as a prefix may have characters.
fn is_long(text: &str) -> (r: bool)
    ensures
        r == (encode_utf8(text@).len() >= MAX_PREFIX_CHARS),
{
    text.as_bytes().len() >= MAX_PREFIX_CHARS
}

fn gather_messages(messages: &Vec<ChatMessage>) -> (text: String)
    ensures
        text@ == gathered(
            Seq::empty(),
            message_views(messages@).map_values(|m: MessageView| message_lines(m)),
        ),
{
    let ghost pieces = message_views(messages@).map_values(|m: MessageView| message_lines(m));
    let mut text = String::new();
    let mut i: usize = 0;
    assert(pieces.skip(0) =~= pieces);
    assert(text@ =~= Seq::empty());
    while i < messages.len()
        invariant
            i <= messages@.len(),
            pieces == message_views(messages@).map_values(|m: MessageView| message_lines(m)),
            gathered(Seq::empty(), pieces) == gathered(text@, pieces.skip(i as int)),
        decreases messages@.len() - i,
    {
        let ghost before = text@;
        assert(pieces.skip(i as int)[0] == message_lines(messages@[i as int]@));
        assert(pieces.skip(i as int).skip(1) =~= pieces.skip(i + 1));
        text.append(messages[i].role.as_str());
        text.append("\n");
        text.append(messages[i].content.as_str());
        text.append("\n");
        assert(text@ =~= before + message_lines(messages@[i as int]@));
        if is_long(text.as_str()) {
            return text;
        }
        i += 1;
    }
    text
}

fn gather_texts(items: &Vec<Json>) -> (text: String)
    ensures
        text@ == gathered(
            Seq::empty(),
            all_texts(elements_said(items@)).map_values(|text: Seq<char>| text + "\n"@),
        ),
{
    let ghost all = elements_said(items@);
    let ghost ended = |text: Seq<char>| text + "\n"@;
    let mut text = String::new();
    let mut i: usize = 0;
    proof {
        lemma_texts_behind(all);
        assert(all.skip(0) =~= all);
    }
    assert(text@ =~= Seq::empty());
    while i < items.len()
        invariant
            i <= items@.len(),
            all == elements_said(items@),
            ended == (|text: Seq<char>| text + "\n"@),
            encode_utf8(text@).len() < MAX_PREFIX_CHARS,
            gathered(Seq::empty(), all_texts(all).map_values(ended)) == gathered(
                text@,
                all_texts(all.skip(i as int)).map_values(ended),
            ),
        decreases items@.len() - i,
    {
        let ghost rest = all.skip(i as int);
        let ghost before = text@;
        proof {
            lemma_texts_behind(rest);
            assert(rest[0] == said(items@[i as int]));
            assert(rest.skip(1) =~= all.skip(i + 1));
        }
        if let Json::Text(item) = &items[i] {
            text.append(item.as_str());
            text.append("\n");
            assert(text@ =~= before + (item@ + "\n"@));
            assert(all_texts(rest).map_values(ended)[0] == item@ + "\n"@);
            assert(all_texts(rest).map_values(ended).skip(1) =~= all_texts(
                all.skip(i + 1),
            ).map_values(ended));
        }
        if is_long(text.as_str()) {
            return text;
        }
        i += 1;
    }
    assert(all.skip(i as int).len() == 0);
    text
}

/// The texts of an array are that of its first element and those of the rest.
proof fn lemma_texts_behind(items: Seq<JsonView>)
    ensures
        items.len() > 0 ==> all_texts(items) == match text_in(Some(items[0])) {
            Some(text) => seq![text] + all_texts(items.skip(1)),
            None => all_texts(items.skip(1)),
        },
    decreases items.len(),
{
    if items.len() == 1 {
        assert(items.drop_last() =~= Seq::empty());
        assert(items.skip(1) =~= Seq::empty());
        assert(all_texts(items.drop_last()) =~= Seq::empty());
        assert(all_texts(items.skip(1)) =~= Seq::empty());
        assert(all_texts(items) =~= match text_in(Some(items[0])) {
            Some(text) => seq![text] + all_texts(items.skip(1)),
            None => all_texts(items.skip(1)),
        });
    } else if items.len() > 1 {
        lemma_texts_behind(items.drop_last());
        assert(items.drop_last().skip(1) =~= items.skip(1).drop_last());
        assert(items.skip(1).last() == items.last());
        assert(all_texts(items) =~= match text_in(Some(items[0])) {
            Some(text) => seq![text] + all_texts(items.skip(1)),
            None => all_texts(items.skip(1)),
        });
    }
}

/// The beginning of a prompt, by which the cache knows it.
pub fn prompt_prefix(request: &OpenAiRequest) -> (prefix: String)
    ensures
        prefix@ == prefix_of_len(cached_text(*request), MAX_PREFIX_CHARS as nat),
{
    let text = if let Some(messages) = &request.messages {
        gather_messages(messages)
    } else {
        match &request.prompt {
            Some(Json::Text(text)) => text.clone(),
            Some(Json::Array(items)) => gather_texts(items),
            _ => String::new(),
        }
    };
    take_chars(text.as_str(), MAX_PREFIX_CHARS)
}

/// How a job may be routed by its prompt.
#[derive(Debug, Clone, Copy, PartialEq, Eq, Structural)]
pub enum CachePolicy {
    PrefixAffinity,
}

/// What a job carries for a prefix cache.
#[derive(Debug, PartialEq, Eq)]
pub struct CacheMetadata {
    pub cache_key: String,
    pub model: String,
    pub prefix_tokens_estimate: u64,
    pub cache_policy: CachePolicy,
}

/// What a job carries for a prefix cache.
pub fn cache_metadata(request: &OpenAiRequest, model: &str, prompt_tokens: u64) -> (cache:
    CacheMetadata)
    ensures
        cache.cache_key@ == cache_name(
            model@,
            prefix_of_len(cached_text(*request), MAX_PREFIX_CHARS as nat),
        ),
        cache.model@ == model@,
        cache.prefix_tokens_estimate == prompt_tokens,
        cache.cache_policy == CachePolicy::PrefixAffinity,
{
    let prefix = prompt_prefix(request);
    CacheMetadata {
        cache_key: cache_key(model, prefix.as_str()),
        model: model.to_string(),
        prefix_tokens_estimate: prompt_tokens,
        cache_policy: CachePolicy::PrefixAffinity,
    }
}

/// The cache knows a prompt by the model and the prompt alone: not by whether
/// the answer is streamed, nor by how long it may be.
pub proof fn law_cache_ignores_how_it_is_asked(
    model: Seq<char>,
    first: OpenAiRequest,
    second: OpenAiRequest,
)
    requires
        first.messages == second.messages,
        first.prompt == second.prompt,
    ensures
        cached_text(first) == cached_text(second),
        cache_name(model, prefix_of_len(cached_text(first), MAX_PREFIX_CHARS as nat))
            == cache_name(model, prefix_of_len(cached_text(second), MAX_PREFIX_CHARS as nat)),
{
}

/// A request that has passed every check which needs no broker.
#[derive(Debug, PartialEq, Eq)]
pub struct Admitted {
    pub api_key: String,
    pub prompt_tokens: u64,
    pub max_tokens: usize,
}

/// An admitted request over numbers and text.
#[verifier::ext_equal]
pub struct AdmittedView {
    pub api_key: Seq<char>,
    pub prompt_tokens: nat,
    pub max_tokens: nat,
}

impl View for Admitted {
    type V = AdmittedView;

    open spec fn view(&self) -> AdmittedView {
        AdmittedView {
            api_key: self.api_key@,
            prompt_tokens: self.prompt_tokens as nat,
            max_tokens: self.max_tokens as nat,
        }
    }
}

/// What becomes of a request before anything is reserved: turned away for its
/// key, for its prompt, for the model's limits or for what it would take, in
/// this order; or admitted.
pub open spec fn admission(
    model: ModelBudget,
    keys: Set<Seq<char>>,
    authorization: Option<Seq<char>>,
    request: OpenAiRequest,
) -> Result<AdmittedView, (u16, Seq<char>)> {
    match (authenticated(keys, authorization), prompt_asked(request)) {
        (Err(reply), _) => Err(reply),
        (_, Err(message)) => Err((400, message)),
        (Ok(api_key), Ok(prompt)) => {
            let tokens = token_word(prompt_estimate(prompt)) as nat;
            let asked = clamped_output(
                request.max_tokens,
                model.default_max_tokens,
                model.max_output_tokens,
            );
            if model.context_limit == 0 {
                Err((400, BudgetError::InvalidContextLimit.words()))
            } else if model.max_output_tokens == 0 {
                Err((400, BudgetError::InvalidMaxOutputTokens.words()))
            } else if tokens + asked > model.context_limit {
                Err((400, excess_words(tokens, asked, model.context_limit as nat)))
            } else {
                Ok(AdmittedView { api_key, prompt_tokens: tokens, max_tokens: asked })
            }
        },
    }
}

/// Checks a request before anything is reserved. What it may put out is then
/// set in it.
pub fn check_admission(
    model: &ModelBudget,
    keys: &ApiKeys,
    authorization: Option<&str>,
    request: &mut OpenAiRequest,
) -> (r: Result<Admitted, ErrorReply>)
    ensures
        admission(*model, keys@, header_text(authorization), *old(request)) == match r {
            Ok(admitted) => Ok::<AdmittedView, (u16, Seq<char>)>(admitted@),
            Err(reply) => Err::<AdmittedView, (u16, Seq<char>)>(reply@),
        },
        match r {
            Ok(admitted) => *final(request) == (OpenAiRequest {
                max_tokens: Some(admitted.max_tokens),
                ..*old(request)
            }),
            Err(_) => *final(request) == *old(request),
        },
{
    let api_key = match authenticate(keys, authorization) {
        Ok(key) => key,
        Err(reply) => {
            return Err(reply);
        },
    };
    let prompt = match request_prompt(request) {
        Ok(prompt) => prompt,
        Err(message) => {
            return Err(refuse(400, message));
        },
    };
    let decision = match decide_budget(
        BudgetRequest {
            prompt,
            requested_max_tokens: request.max_tokens,
            policy: BudgetPolicy::StrictReject,
            model: ModelBudget {
                model: model.model.clone(),
                context_limit: model.context_limit,
                default_max_tokens: model.default_max_tokens,
                max_output_tokens: model.max_output_tokens,
            },
        },
        &ApproxTokenCounter,
    ) {
        Ok(decision) => decision,
        Err(error) => {
            return Err(ErrorReply { status: 400, message: error.message() });
        },
    };
    if !decision.admitted {
        return Err(ErrorReply { status: 400, message: decision.reason });
    }
    request.max_tokens = Some(decision.admitted_max_tokens);
    Ok(
        Admitted {
            api_key,
            prompt_tokens: decision.prompt_tokens as u64,
            max_tokens: decision.admitted_max_tokens,
        },
    )
}

/// What an admitted request would use.
pub fn quota_check(admitted: &Admitted) -> (check: QuotaCheck)
    ensures
        check.api_key@ == admitted.api_key@,
        check.prompt_tokens == admitted.prompt_tokens,
        check.reserved_generated_tokens == admitted.max_tokens,
{
    QuotaCheck {
        api_key: admitted.api_key.clone(),
        prompt_tokens: admitted.prompt_tokens,
        reserved_generated_tokens: admitted.max_tokens as u64,
    }
}

/// The reservation that was made, or what the caller is told where none was.
pub fn reserved(outcome: Result<QuotaReservation, QuotaError>) -> (r: Result<
    QuotaReservation,
    ErrorReply,
>)
    ensures
        match outcome {
            Ok(reservation) => r == Ok::<QuotaReservation, ErrorReply>(reservation),
            Err(error) => r matches Err(reply) && reply@ == (429u16, error.words()),
        },
{
    match outcome {
        Ok(reservation) => Ok(reservation),
        Err(error) => Err(ErrorReply { status: 429, message: error.message() }),
    }
}

/// The names under which a generation is handed to the workers.
#[derive(Debug, PartialEq, Eq)]
pub struct DispatchNames {
    pub request_id: String,
    pub response_stream: String,
    pub upstream_path: &'static str,
    pub workflow_name: &'static str,
    pub workflow_id: String,
}

/// Whether names are those of the generation under an identifier.
pub open spec fn are_names_of(
    names: DispatchNames,
    request_id: u128,
    response_streaming: bool,
) -> bool {
    &&& names.request_id@ == hyphenated(request_id)
    &&& names.response_stream@ == "inference:responses:"@ + hyphenated(request_id)
    &&& names.upstream_path@ == if response_streaming {
        "/inference.v1.InferenceService/StreamGenerate"@
    } else {
        "/inference.v1.InferenceService/Generate"@
    }
    &&& names.workflow_name@ == if response_streaming {
        crate::session::GPU_STREAM_GENERATE_WORKFLOW@
    } else {
        crate::session::GPU_GENERATE_WORKFLOW@
    }
    &&& names.workflow_id@ == "inference-"@ + hyphenated(request_id)
}

/// The names under which a generation is handed to the workers.
pub fn dispatch_names(request_id: u128, response_streaming: bool) -> (names: DispatchNames)
    ensures
        are_names_of(names, request_id, response_streaming),
{
    let text = uuid_text(request_id);
    let mut response_stream = "inference:responses:".to_string();
    response_stream.append(text.as_str());
    let mut workflow_id = "inference-".to_string();
    workflow_id.append(text.as_str());
    DispatchNames {
        request_id: text,
        response_stream,
        upstream_path: if response_streaming {
            "/inference.v1.InferenceService/StreamGenerate"
        } else {
            "/inference.v1.InferenceService/Generate"
        },
        workflow_name: if response_streaming {
            crate::session::GPU_STREAM_GENERATE_WORKFLOW
        } else {
            crate::session::GPU_GENERATE_WORKFLOW
        },
        workflow_id,
    }
}

/// The names for a generation under a fresh identifier.
pub fn fresh_dispatch_names(response_streaming: bool) -> (names: DispatchNames)
    ensures
        exists|id: u128|
            random_uuid(id) && #[trigger] are_names_of(names, id, response_streaming),
{
    let id = fresh_uuid();
    dispatch_names(id, response_streaming)
}

/// A message as a document.
pub open spec fn message_doc(message: MessageView) -> JsonView {
    JsonView::Object(
        seq![
            ("role"@, JsonView::Text(message.role)),
            ("content"@, JsonView::Text(message.content)),
        ],
    )
}

/// The body of a job, but for the temperature.
pub open spec fn job_body(request: OpenAiRequest) -> JsonView {
    JsonView::Object(
        seq![
            (
                "model"@,
                match request.model {
                    Some(model) => JsonView::Text(model@),
                    None => JsonView::Null,
                },
            ),
            (
                "messages"@,
                match request.messages {
                    Some(messages) => JsonView::Array(
                        message_views(messages@).map_values(|m: MessageView| message_doc(m)),
                    ),
                    None => JsonView::Null,
                },
            ),
            (
                "prompt"@,
                match opt_said(request.prompt) {
                    Some(prompt) => prompt,
                    None => JsonView::Null,
                },
            ),
            (
                "max_tokens"@,
                match request.max_tokens {
                    Some(n) => JsonView::Unsigned(n as u64),
                    None => JsonView::Null,
                },
            ),
            (
                "stream"@,
                match request.stream {
                    Some(flag) => JsonView::Bool(flag),
                    None => JsonView::Null,
                },
            ),
        ],
    )
}

fn messages_json(messages: &Vec<ChatMessage>) -> (json: Json)
    ensures
        json@ == JsonView::Array(
            message_views(messages@).map_values(|m: MessageView| message_doc(m)),
        ),
{
    let ghost docs = message_views(messages@).map_values(|m: MessageView| message_doc(m));
    let mut items: Vec<Json> = Vec::new();
    let mut i: usize = 0;
    while i < messages.len()
        invariant
            i <= messages@.len(),
            docs == message_views(messages@).map_values(|m: MessageView| message_doc(m)),
            items@.len() == i,
            forall|k: int| 0 <= k < i ==> said(#[trigger] items@[k]) == docs[k],
        decreases messages@.len() - i,
    {
        let item = Json::Object(
            vec![
                ("role".to_string(), Json::Text(messages[i].role.clone())),
                ("content".to_string(), Json::Text(messages[i].content.clone())),
            ],
        );
        proof {
            reveal_with_fuel(said, 3);
            reveal_with_fuel(members_said, 3);
        }
        assert(item@->Object_0 =~= message_doc(messages@[i as int]@)->Object_0);
        items.push(item);
        i += 1;
    }
    assert(elements_said(items@) =~= docs);
    Json::Array(items)
}

/// The body of a job, but for the temperature.
pub fn request_body(request: &OpenAiRequest) -> (body: Json)
    ensures
        body@ == job_body(*request),
{
    let model = match &request.model {
        Some(model) => Json::Text(model.clone()),
        None => Json::Null,
    };
    let messages = match &request.messages {
        Some(messages) => messages_json(messages),
        None => Json::Null,
    };
    let prompt = match &request.prompt {
        Some(prompt) => prompt.clone(),
        None => Json::Null,
    };
    let max_tokens = match request.max_tokens {
        Some(n) => Json::Unsigned(n as u64),
        None => Json::Null,
    };
    let stream = match request.stream {
        Some(flag) => Json::Bool(flag),
        None => Json::Null,
    };
    let body = Json::Object(
        vec![
            ("model".to_string(), model),
            ("messages".to_string(), messages),
            ("prompt".to_string(), prompt),
            ("max_tokens".to_string(), max_tokens),
            ("stream".to_string(), stream),
        ],
    );
    proof {
        reveal_with_fuel(said, 3);
        reveal_with_fuel(members_said, 3);
    }
    assert(body@->Object_0 =~= job_body(*request)->Object_0);
    body
}

/// The text that an answer's document adds: that of the first choice's message,
/// or of its delta, or of the choice itself.
pub open spec fn text_of(value: JsonView) -> Seq<char> {
    let choice = first_element(member(Some(value), "choices"@));
    let message = member(member(choice, "message"@), "content"@);
    let delta = member(member(choice, "delta"@), "content"@);
    text_or_empty(
        if message is Some {
            message
        } else if delta is Some {
            delta
        } else {
            member(choice, "text"@)
        },
    )
}

/// The text that an answer's document adds.
pub fn extract_text(value: &Json) -> (text: String)
    ensures
        text@ == text_of(value@),
{
    let choice = first(get(Some(value), "choices"));
    let message = get(get(choice, "message"), "content");
    if message.is_some() {
        return str_or_empty(message);
    }
    let delta = get(get(choice, "delta"), "content");
    if delta.is_some() {
        return str_or_empty(delta);
    }
    str_or_empty(get(choice, "text"))
}

/// The text that an answer's data adds: nothing where it is no JSON.
pub open spec fn text_in_data(data: Seq<char>) -> Seq<char> {
    match parsed_json(data) {
        Ok(value) => text_of(value),
        Err(_) => Seq::empty(),
    }
}

/// The text that an answer's data adds.
pub fn extract_data_text(data: &str) -> (text: String)
    ensures
        text@ == text_in_data(data@),
{
    match parse_json(data) {
        Ok(value) => extract_text(&value),
        Err(_) => String::new(),
    }
}

/// An answer of a worker's as it comes in.
#[derive(Debug, PartialEq, Eq)]
pub enum ResponseEvent {
    Chunk { data: String, token_estimate: u64 },
    Done { generated_tokens: u64 },
    Error { message: String },
}

/// What waiting for an answer gave: the answer and its place in the stream.
#[derive(Debug, PartialEq, Eq)]
pub enum ReadOutcome {
    Event(String, ResponseEvent),
    TimedOut,
    Broken,
}

/// What is to be done with a reservation.
#[derive(Debug, Clone, Copy, PartialEq, Eq, Structural)]
pub enum Settlement {
    /// It is given back.
    Cancel,
    /// It is settled for what was generated.
    Reconcile(u64),
}

/// What is known of a generation whose text is collected.
#[verifier::ext_equal]
pub struct UnaryView {
    pub last_id: Seq<char>,
    pub text: Seq<char>,
}

/// How collecting ends: what is done with the reservation, and what the caller
/// is told instead of an answer, where it failed.
#[derive(Debug, PartialEq, Eq)]
pub struct UnaryEnd {
    pub settlement: Settlement,
    pub refusal: Option<ErrorReply>,
}

impl UnaryEnd {
    /// What the caller gets: the number of tokens that were generated for the
    /// answer, or what is said instead of one.
    pub fn outcome(self) -> (r: Result<u64, ErrorReply>)
        ensures
            r == match (self.refusal, self.settlement) {
                (Some(reply), _) => Err::<u64, ErrorReply>(reply),
                (None, Settlement::Reconcile(n)) => Ok::<u64, ErrorReply>(n),
                (None, Settlement::Cancel) => Ok::<u64, ErrorReply>(0),
            },
    {
        match (self.refusal, self.settlement) {
            (Some(reply), _) => Err(reply),
            (None, Settlement::Reconcile(n)) => Ok(n),
            (None, Settlement::Cancel) => Ok(0),
        }
    }
}

/// How a generation ends that failed before its first answer: the reservation
/// is given back, and the caller told.
fn abandoned(message: &str) -> (end: UnaryEnd)
    ensures
        end.settlement == Settlement::Cancel,
        end.refusal matches Some(reply) && reply@ == (502u16, message@),
{
    UnaryEnd { settlement: Settlement::Cancel, refusal: Some(refuse(502, message)) }
}

/// How a generation ends whose job could not be dispatched.
pub fn dispatch_failed() -> (end: UnaryEnd)
    ensures
        end.settlement == Settlement::Cancel,
        end.refusal matches Some(reply) && reply@ == (502u16, "failed to dispatch generation job"@),
{
    abandoned("failed to dispatch generation job")
}

/// How a generation ends for which the broker could not be reached.
pub fn connect_failed() -> (end: UnaryEnd)
    ensures
        end.settlement == Settlement::Cancel,
        end.refusal matches Some(reply) && reply@ == (502u16, "failed to connect to Valkey"@),
{
    abandoned("failed to connect to Valkey")
}

/// What is collected after another outcome, and how collecting ends with it.
pub open spec fn collecting(state: UnaryView, outcome: ReadOutcome) -> (
    UnaryView,
    Option<(Settlement, Option<(u16, Seq<char>)>)>,
) {
    match outcome {
        ReadOutcome::Event(id, ResponseEvent::Chunk { data, .. }) => (
            UnaryView { last_id: id@, text: state.text + text_in_data(data@) },
            None,
        ),
        ReadOutcome::Event(_, ResponseEvent::Done { generated_tokens }) => (
            state,
            Some((Settlement::Reconcile(generated_tokens), None)),
        ),
        ReadOutcome::Event(_, ResponseEvent::Error { message }) => (
            state,
            Some((Settlement::Cancel, Some((502u16, message@)))),
        ),
        ReadOutcome::TimedOut => (
            state,
            Some((Settlement::Cancel, Some((504u16, "generation timed out"@)))),
        ),
        ReadOutcome::Broken => (
            state,
            Some((Settlement::Cancel, Some((502u16, "failed reading response stream"@)))),
        ),
    }
}

/// Collects the text of a generation.
pub struct UnaryCollector {
    last_id: String,
    text: String,
}

impl View for UnaryCollector {
    type V = UnaryView;

    closed spec fn view(&self) -> UnaryView {
        UnaryView { last_id: self.last_id@, text: self.text@ }
    }
}

impl UnaryCollector {
    /// A collector that starts with the first answer.
    pub fn new() -> (collector: Self)
        ensures
            collector@ == (UnaryView { last_id: "0-0"@, text: Seq::empty() }),
    {
        let collector = UnaryCollector { last_id: "0-0".to_string(), text: String::new() };
        assert(collector.text@ =~= Seq::empty());
        collector
    }

    /// The answer after which the stream is read.
    pub fn last_id(&self) -> (id: &str)
        ensures
            id@ == self@.last_id,
    {
        self.last_id.as_str()
    }

    /// Takes an outcome, and says so if it ends the collecting.
    pub fn take(&mut self, outcome: ReadOutcome) -> (r: Option<UnaryEnd>)
        ensures
            collecting(old(self)@, outcome) == (
                final(self)@,
                match r {
                    Some(end) => Some(
                        (
                            end.settlement,
                            match end.refusal {
                                Some(reply) => Some(reply@),
                                None => None,
                            },
                        ),
                    ),
                    None => None,
                },
            ),
    {
        match outcome {
            ReadOutcome::Event(id, ResponseEvent::Chunk { data, .. }) => {
                self.last_id = id;
                let text = extract_data_text(data.as_str());
                self.text.append(text.as_str());
                None
            },
            ReadOutcome::Event(_, ResponseEvent::Done { generated_tokens }) => Some(
                UnaryEnd { settlement: Settlement::Reconcile(generated_tokens), refusal: None },
            ),
            ReadOutcome::Event(_, ResponseEvent::Error { message }) => Some(
                UnaryEnd {
                    settlement: Settlement::Cancel,
                    refusal: Some(ErrorReply { status: 502, message }),
                },
            ),
            ReadOutcome::TimedOut => Some(
                UnaryEnd {
                    settlement: Settlement::Cancel,
                    refusal: Some(refuse(504, "generation timed out")),
                },
            ),
            ReadOutcome::Broken => Some(
                UnaryEnd {
                    settlement: Settlement::Cancel,
                    refusal: Some(refuse(502, "failed reading response stream")),
                },
            ),
        }
    }

    /// The response to a caller, once collecting has ended well.
    pub fn response(
        self,
        request_id: &str,
        model: &str,
        prompt_tokens: u64,
        generated_tokens: u64,
    ) -> (r: GenerateResponse)
        ensures
            r.request_id@ == request_id@,
            r.model@ == model@,
            r.text@ == self@.text,
            r.prompt_tokens == prompt_tokens,
            r.generated_tokens == generated_tokens,
            r.finish_reason@ == "stop"@,
    {
        GenerateResponse {
            request_id: request_id.to_string(),
            model: model.to_string(),
            text: self.text,
            prompt_tokens,
            generated_tokens,
            finish_reason: "stop".to_string(),
        }
    }
}

/// A piece of an answer as the caller gets it.
#[derive(Debug, PartialEq, Eq)]
pub struct GenerateChunk {
    pub request_id: String,
    pub model: String,
    pub delta: String,
    pub generated_tokens: u64,
    pub finish_reason: String,
}

/// A piece of an answer over numbers and text.
#[verifier::ext_equal]
pub struct ChunkView {
    pub request_id: Seq<char>,
    pub model: Seq<char>,
    pub delta: Seq<char>,
    pub generated_tokens: u64,
    pub finish_reason: Seq<char>,
}

impl View for GenerateChunk {
    type V = ChunkView;

    open spec fn view(&self) -> ChunkView {
        ChunkView {
            request_id: self.request_id@,
            model: self.model@,
            delta: self.delta@,
            generated_tokens: self.generated_tokens,
            finish_reason: self.finish_reason@,
        }
    }
}

/// The piece that reports a failure.
pub open spec fn fault_chunk(message: Seq<char>) -> ChunkView {
    ChunkView {
        request_id: Seq::empty(),
        model: Seq::empty(),
        delta: message,
        generated_tokens: 0,
        finish_reason: "error"@,
    }
}

/// The piece that reports a failure. Its envelope ends the stream.
pub fn fault(message: &str) -> (chunk: GenerateChunk)
    ensures
        chunk@ == fault_chunk(message@),
{
    GenerateChunk {
        request_id: String::new(),
        model: String::new(),
        delta: message.to_string(),
        generated_tokens: 0,
        finish_reason: "error".to_string(),
    }
}

/// What is known of a generation that is streamed.
#[verifier::ext_equal]
pub struct StreamView {
    pub last_id: Seq<char>,
    pub generated_so_far: u64,
}

/// What a stream does with an outcome.
#[derive(Debug, PartialEq, Eq)]
pub enum StreamStep {
    /// Nothing is sent.
    Skip,
    /// A piece is sent and more may follow.
    Send(GenerateChunk),
    /// The reservation is settled, a piece is sent, and the stream ends.
    Finish(Settlement, GenerateChunk),
    /// The reservation is settled, a piece is sent in an envelope that ends the
    /// stream, and it ends.
    Fail(Settlement, GenerateChunk),
}

/// What a stream does with an outcome, over pieces as numbers and text.
pub enum StepView {
    Skip,
    Send(ChunkView),
    Finish(Settlement, ChunkView),
    Fail(Settlement, ChunkView),
}

impl View for StreamStep {
    type V = StepView;

    open spec fn view(&self) -> StepView {
        match self {
            StreamStep::Skip => StepView::Skip,
            StreamStep::Send(chunk) => StepView::Send(chunk@),
            StreamStep::Finish(settlement, chunk) => StepView::Finish(*settlement, chunk@),
            StreamStep::Fail(settlement, chunk) => StepView::Fail(*settlement, chunk@),
        }
    }
}

impl StreamStep {
    /// How the generation ends with the step, where it does: what is said to the
    /// caller is in the piece that is sent.
    pub fn end(&self) -> (end: Option<UnaryEnd>)
        ensures
            end == match *self {
                StreamStep::Finish(settlement, _) => Some(UnaryEnd { settlement, refusal: None }),
                StreamStep::Fail(settlement, _) => Some(UnaryEnd { settlement, refusal: None }),
                _ => None,
            },
    {
        match self {
            StreamStep::Finish(settlement, _) => Some(
                UnaryEnd { settlement: *settlement, refusal: None },
            ),
            StreamStep::Fail(settlement, _) => Some(
                UnaryEnd { settlement: *settlement, refusal: None },
            ),
            _ => None,
        }
    }
}

/// A sum, at most the largest that 64 bits hold.
pub open spec fn sum_of(a: u64, b: u64) -> u64 {
    if a + b <= u64::MAX {
        (a + b) as u64
    } else {
        u64::MAX
    }
}

/// What a stream does with an outcome, and what is known after it.
pub open spec fn streaming(
    request_id: Seq<char>,
    model: Seq<char>,
    state: StreamView,
    outcome: ReadOutcome,
) -> (StreamView, StepView) {
    match outcome {
        ReadOutcome::Event(id, ResponseEvent::Chunk { data, token_estimate }) => if data@
            == "[DONE]"@ {
            (StreamView { last_id: id@, ..state }, StepView::Skip)
        } else {
            let generated_tokens = sum_of(state.generated_so_far, token_estimate);
            (
                StreamView { last_id: id@, generated_so_far: generated_tokens },
                StepView::Send(
                    ChunkView {
                        request_id,
                        model,
                        delta: text_in_data(data@),
                        generated_tokens,
                        finish_reason: Seq::empty(),
                    },
                ),
            )
        },
        ReadOutcome::Event(_, ResponseEvent::Done { generated_tokens }) => (
            state,
            StepView::Finish(
                Settlement::Reconcile(generated_tokens),
                ChunkView {
                    request_id,
                    model,
                    delta: Seq::empty(),
                    generated_tokens,
                    finish_reason: "stop"@,
                },
            ),
        ),
        ReadOutcome::Event(_, ResponseEvent::Error { message }) => (
            state,
            StepView::Fail(Settlement::Cancel, fault_chunk(message@)),
        ),
        ReadOutcome::TimedOut => (
            state,
            StepView::Fail(Settlement::Cancel, fault_chunk("generation timed out"@)),
        ),
        ReadOutcome::Broken => (
            state,
            StepView::Fail(Settlement::Cancel, fault_chunk("failed reading response stream"@)),
        ),
    }
}

/// What a stream does for which the broker could not be reached: the reservation
/// is given back, and the failure is sent in an envelope that ends the stream.
pub fn stream_connect_failed() -> (step: StreamStep)
    ensures
        step@ == StepView::Fail(Settlement::Cancel, fault_chunk("failed to connect to Valkey"@)),
{
    StreamStep::Fail(Settlement::Cancel, fault("failed to connect to Valkey"))
}

/// Passes the answers to a generation on piece by piece.
pub struct StreamRelay {
    last_id: String,
    generated_so_far: u64,
}

impl View for StreamRelay {
    type V = StreamView;

    closed spec fn view(&self) -> StreamView {
        StreamView { last_id: self.last_id@, generated_so_far: self.generated_so_far }
    }
}

impl StreamRelay {
    /// A relay that starts with the first answer.
    pub fn new() -> (relay: Self)
        ensures
            relay@ == (StreamView { last_id: "0-0"@, generated_so_far: 0 }),
    {
        StreamRelay { last_id: "0-0".to_string(), generated_so_far: 0 }
    }

    /// The answer after which the stream is read.
    pub fn last_id(&self) -> (id: &str)
        ensures
            id@ == self@.last_id,
    {
        self.last_id.as_str()
    }

    /// Takes an outcome, and says what the stream does with it.
    pub fn take(&mut self, request_id: &str, model: &str, outcome: ReadOutcome) -> (step:
        StreamStep)
        ensures
            (final(self)@, step@) == streaming(request_id@, model@, old(self)@, outcome),
    {
        match outcome {
            ReadOutcome::Event(id, ResponseEvent::Chunk { data, token_estimate }) => {
                self.last_id = id;
                if same_text(data.as_str(), "[DONE]") {
                    return StreamStep::Skip;
                }
                self.generated_so_far = self.generated_so_far.saturating_add(token_estimate);
                let finish_reason = String::new();
                assert(finish_reason@ =~= Seq::empty());
                StreamStep::Send(
                    GenerateChunk {
                        request_id: request_id.to_string(),
                        model: model.to_string(),
                        delta: extract_data_text(data.as_str()),
                        generated_tokens: self.generated_so_far,
                        finish_reason,
                    },
                )
            },
            ReadOutcome::Event(_, ResponseEvent::Done { generated_tokens }) => {
                let delta = String::new();
                assert(delta@ =~= Seq::empty());
                StreamStep::Finish(
                    Settlement::Reconcile(generated_tokens),
                    GenerateChunk {
                        request_id: request_id.to_string(),
                        model: model.to_string(),
                        delta,
                        generated_tokens,
                        finish_reason: "stop".to_string(),
                    },
                )
            },
            ReadOutcome::Event(_, ResponseEvent::Error { message }) => StreamStep::Fail(
                Settlement::Cancel,
                fault(message.as_str()),
            ),
            ReadOutcome::TimedOut => StreamStep::Fail(
                Settlement::Cancel,
                fault("generation timed out"),
            ),
            ReadOutcome::Broken => StreamStep::Fail(
                Settlement::Cancel,
                fault("failed reading response stream"),
            ),
        }
    }
}

/// The command that waits for the answer after one.
pub fn read_command(stream: &str, last_id: &str, block_ms: u64) -> (command:
    crate::streams::Command)
    ensures
        command@ == seq![
            "XREAD"@,
            "BLOCK"@,
            decimal(block_ms as nat),
            "COUNT"@,
            decimal(1),
            "STREAMS"@,
            stream@,
            last_id@,
        ],
{
    crate::streams::Command {
        words: vec![
            "XREAD".to_string(),
            "BLOCK".to_string(),
            decimal_text(block_ms as u128),
            "COUNT".to_string(),
            decimal_text(1),
            "STREAMS".to_string(),
            stream.to_string(),
            last_id.to_string(),
        ],
    }
}

/// The headers that tell a caller what became of a reservation.
pub fn quota_headers(reservation_id: u128, generated: u64, refunded: u64) -> (headers: Vec<
    (&'static str, String),
>)
    ensures
        headers@.len() == 3,
        headers@[0].0@ == "x-reservation-id"@ && headers@[0].1@ == hyphenated(reservation_id),
        headers@[1].0@ == "x-generated-tokens"@ && headers@[1].1@ == decimal(generated as nat),
        headers@[2].0@ == "x-refunded-tokens"@ && headers@[2].1@ == decimal(refunded as nat),
{
    vec![
        ("x-reservation-id", uuid_text(reservation_id)),
        ("x-generated-tokens", decimal_text(generated as u128)),
        ("x-refunded-tokens", decimal_text(refunded as u128)),
    ]
}

/// A size out of the environment, or the default where it gives none that fits.
pub fn size_setting(environment: Option<String>, default: usize) -> (value: usize)
    ensures
        match environment {
            Some(text) => match unsigned_value(text@) {
                Some(n) if n <= usize::MAX => value == n,
                _ => value == default,
            },
            None => value == default,
        },
{
    match environment {
        Some(text) => match parse_u64(text.as_str()) {
            Some(n) => if n <= usize::MAX as u64 {
                n as usize
            } else {
                default
            },
            None => default,
        },
        None => default,
    }
}

/// Whether an outcome ends a generation for the caller.
pub open spec fn ends(outcome: ReadOutcome) -> bool {
    !(outcome matches ReadOutcome::Event(_, ResponseEvent::Chunk { .. }))
}

/// What is done with the reservation at an outcome, if anything.
pub open spec fn settlement_at(outcome: ReadOutcome) -> Option<Settlement> {
    match outcome {
        ReadOutcome::Event(_, ResponseEvent::Chunk { .. }) => None,
        ReadOutcome::Event(_, ResponseEvent::Done { generated_tokens }) => Some(
            Settlement::Reconcile(generated_tokens),
        ),
        _ => Some(Settlement::Cancel),
    }
}

/// A reservation is settled exactly when a generation ends, whether its text is
/// collected or streamed: for what was generated where it ended well, and as a
/// whole where it did not.
pub proof fn law_ends_settle_the_reservation(
    request_id: Seq<char>,
    model: Seq<char>,
    collected: UnaryView,
    streamed: StreamView,
    outcome: ReadOutcome,
)
    ensures
        match collecting(collected, outcome).1 {
            Some(end) => ends(outcome) && settlement_at(outcome) == Some(end.0),
            None => !ends(outcome),
        },
        match streaming(request_id, model, streamed, outcome).1 {
            StepView::Skip | StepView::Send(_) => !ends(outcome),
            StepView::Finish(settlement, _) | StepView::Fail(settlement, _) => ends(outcome)
                && settlement_at(outcome) == Some(settlement),
        },
{
}

/// What a worker's chunk for a word says is the word with a space behind it,
/// for a chat and for a plain completion alike.
pub proof fn law_words_come_back(
    request_id: Seq<char>,
    model: Seq<char>,
    chat: bool,
    content: Seq<char>,
)
    ensures
        text_of(crate::worker::chunk_doc(request_id, model, chat, content)) == content,
{
    reveal_strlit("id");
    reveal_strlit("object");
    reveal_strlit("model");
    reveal_strlit("choices");
    reveal_strlit("index");
    reveal_strlit("delta");
    reveal_strlit("text");
    reveal_strlit("finish_reason");
    reveal_strlit("message");
    reveal_strlit("content");
    let doc = crate::worker::chunk_doc(request_id, model, chat, content);
    let members = doc->Object_0;
    assert("id"@.len() == 2 && "object"@.len() == 6 && "model"@.len() == 5 && "choices"@.len() == 7);
    assert("index"@.len() == 5 && "delta"@.len() == 5 && "text"@.len() == 4 && "message"@.len() == 7
        && "finish_reason"@.len() == 13);
    lemma_member_found(members, "choices"@, 3);
    let parts = members[3].1->Array_0[0]->Object_0;
    assert("delta"@[0] == 'd' && "index"@[0] == 'i');
    lemma_member_missing(parts, "message"@);
    if chat {
        lemma_member_found(parts, "delta"@, 1);
        lemma_member_found(parts[1].1->Object_0, "content"@, 0);
    } else {
        lemma_member_missing(parts, "delta"@);
        lemma_member_found(parts, "text"@, 1);
    }
}

/// The worker that gets a job's body reads from it what was admitted: the
/// model, the prompt, how long the answer may be and whether it is streamed.
pub proof fn law_workers_get_what_was_admitted(request: OpenAiRequest, max_tokens: usize)
    requires
        request.max_tokens == Some(max_tokens),
    ensures
        crate::worker::tokens_allowed(job_body(request)) == max_tokens,
        flag_in(member(Some(job_body(request)), "stream"@)) == request.stream,
        text_in(member(Some(job_body(request)), "model"@)) == crate::streams::opt_text(
            request.model,
        ),
        request.messages is None ==> match opt_said(request.prompt) {
            Some(JsonView::Text(text)) => crate::worker::job_prompt(job_body(request)) == text,
            Some(JsonView::Array(items)) => crate::worker::job_prompt(job_body(request)) == joined(
                all_texts(items),
                "\n"@,
            ),
            _ => crate::worker::job_prompt(job_body(request)) == Seq::<char>::empty(),
        },
        request.messages matches Some(messages) ==> elements(
            member(Some(job_body(request)), "messages"@),
        ) == Some(message_views(messages@).map_values(|m: MessageView| message_doc(m))),
{
    reveal_strlit("model");
    reveal_strlit("messages");
    reveal_strlit("prompt");
    reveal_strlit("max_tokens");
    reveal_strlit("stream");
    let members = job_body(request)->Object_0;
    assert("model"@.len() == 5 && "messages"@.len() == 8 && "prompt"@.len() == 6
        && "max_tokens"@.len() == 10 && "stream"@.len() == 6);
    assert("prompt"@[0] == 'p' && "stream"@[0] == 's');
    lemma_member_found(members, "model"@, 0);
    lemma_member_found(members, "messages"@, 1);
    lemma_member_found(members, "prompt"@, 2);
    lemma_member_found(members, "max_tokens"@, 3);
    lemma_member_found(members, "stream"@, 4);
}

/// What is admitted fits the model: the prompt and the output together do not
/// exceed the context, and the output does not exceed what the model may put out.
pub proof fn law_admitted_requests_fit(
    model: ModelBudget,
    keys: Set<Seq<char>>,
    authorization: Option<Seq<char>>,
    request: OpenAiRequest,
)
    ensures
        admission(model, keys, authorization, request) matches Ok(admitted) ==> {
            &&& admitted.prompt_tokens + admitted.max_tokens <= model.context_limit
            &&& admitted.max_tokens <= model.max_output_tokens
            &&& keys.contains(admitted.api_key)
        },
{
}

/// A request's prompt is its messages, all of them and in order, where they are
/// given; else its prompt, a string as it is and an array as its strings, one to
/// a line. Anything else is told what is wrong with it.
pub proof fn law_messages_come_before_the_prompt(request: OpenAiRequest)
    ensures
        request.messages matches Some(messages) ==> (prompt_asked(request) matches Ok(
            PromptView::Chat(views),
        ) && views.len() == messages@.len() && forall|i: int|
            0 <= i < views.len() ==> (#[trigger] views[i]).role == messages@[i].role@
                && views[i].content == messages@[i].content@),
        request.messages is None && request.prompt is None ==> prompt_asked(request) == Err::<
            PromptView,
            Seq<char>,
        >("either messages or prompt is required"@),
        request.messages is None ==> (request.prompt matches Some(prompt) ==> match prompt@ {
            JsonView::Text(text) => prompt_asked(request) == Ok::<PromptView, Seq<char>>(
                PromptView::Text(text),
            ),
            JsonView::Array(items) => prompt_asked(request) == Ok::<PromptView, Seq<char>>(
                PromptView::Text(joined(all_texts(items), "\n"@)),
            ),
            _ => prompt_asked(request) == Err::<PromptView, Seq<char>>(
                "prompt must be a string or array of strings"@,
            ),
        }),
{
}

/// The start and pieces behind it, one after the other.
pub open spec fn put_behind(start: Seq<char>, pieces: Seq<Seq<char>>) -> Seq<char>
    decreases pieces.len(),
{
    if pieces.len() == 0 {
        start
    } else {
        put_behind(start, pieces.drop_last()) + pieces.last()
    }
}

proof fn lemma_put_behind(start: Seq<char>, pieces: Seq<Seq<char>>)
    requires
        pieces.len() > 0,
    ensures
        put_behind(start, pieces) == put_behind(start + pieces[0], pieces.skip(1)),
    decreases pieces.len(),
{
    if pieces.len() == 1 {
        assert(pieces.drop_last() =~= Seq::empty());
        assert(pieces.skip(1) =~= Seq::empty());
        assert(put_behind(start, pieces.drop_last()) == start);
    } else {
        lemma_put_behind(start, pieces.drop_last());
        assert(pieces.drop_last().skip(1) =~= pieces.skip(1).drop_last());
        assert(pieces.skip(1).last() == pieces.last());
        assert(pieces.drop_last()[0] == pieces[0]);
    }
}

/// The pieces of a prompt are put one behind the other, whole and in order,
/// until they take as many bytes as there may be characters, or there are no
/// more.
pub proof fn law_prompts_are_gathered_from_the_front(
    start: Seq<char>,
    pieces: Seq<Seq<char>>,
) -> (n: int)
    ensures
        0 <= n <= pieces.len(),
        gathered(start, pieces) == put_behind(start, pieces.take(n)),
        n < pieces.len() ==> n > 0 && encode_utf8(gathered(start, pieces)).len() >= 4096,
        forall|m: int|
            0 < m < n ==> encode_utf8(put_behind(start, #[trigger] pieces.take(m))).len() < 4096,
    decreases pieces.len(),
{
    if pieces.len() == 0 {
        assert(pieces.take(0) =~= pieces);
        0
    } else {
        let next = start + pieces[0];
        let rest = pieces.skip(1);
        if encode_utf8(next).len() >= MAX_PREFIX_CHARS {
            lemma_put_behind(start, pieces.take(1));
            assert(pieces.take(1).skip(1) =~= Seq::empty());
            assert(pieces.take(1)[0] == pieces[0]);
            1
        } else {
            let k = law_prompts_are_gathered_from_the_front(next, rest);
            let n = k + 1;
            assert forall|m: int| 1 <= m <= n implies put_behind(
                start,
                #[trigger] pieces.take(m),
            ) == put_behind(next, rest.take(m - 1)) by {
                lemma_put_behind(start, pieces.take(m));
                assert(pieces.take(m).skip(1) =~= rest.take(m - 1));
                assert(pieces.take(m)[0] == pieces[0]);
            }
            assert forall|m: int| 0 < m < n implies encode_utf8(
                put_behind(start, #[trigger] pieces.take(m)),
            ).len() < 4096 by {
                assert(put_behind(start, pieces.take(m)) == put_behind(next, rest.take(m - 1)));
                if m == 1 {
                    assert(rest.take(0) =~= Seq::empty());
                }
            }
            assert(put_behind(start, pieces.take(n)) == put_behind(next, rest.take(k)));
            n
        }
    }
}

/// The cache sees a prompt's messages, each as its role and its content on ended
/// lines of their own, or else its text, or the strings of it on ended lines;
/// all of them, from the first on, as far as they are gathered.
pub proof fn law_caches_see_the_prompt_from_its_start(
    request: OpenAiRequest,
    lines: Seq<Seq<char>>,
    items: Seq<JsonView>,
    text: Seq<char>,
)
    requires
        request.messages matches Some(messages) ==> lines.len() == messages@.len() && forall|
            i: int,
        |
            0 <= i < lines.len() ==> #[trigger] lines[i] == messages@[i].role@ + "\n"@
                + messages@[i].content@ + "\n"@,
        request.messages is None && opt_said(request.prompt) == Some(JsonView::Array(items))
            ==> lines.len() == all_texts(items).len() && forall|i: int|
            0 <= i < lines.len() ==> #[trigger] lines[i] == all_texts(items)[i] + "\n"@,
    ensures
        request.messages is Some ==> cached_text(request) == gathered(Seq::empty(), lines),
        request.messages is None && opt_said(request.prompt) == Some(JsonView::Array(items))
            ==> cached_text(request) == gathered(Seq::empty(), lines),
        request.messages is None && opt_said(request.prompt) == Some(JsonView::Text(text))
            ==> cached_text(request) == text,
        request.messages is None && request.prompt is None ==> cached_text(request).len() == 0,
{
    if request.messages is Some {
        let messages = request.messages->0;
        assert(message_views(messages@).map_values(|m: MessageView| message_lines(m)) =~= lines);
    } else if opt_said(request.prompt) == Some(JsonView::Array(items)) {
        assert(all_texts(items).map_values(|text: Seq<char>| text + "\n"@) =~= lines);
    }
}

/// A request is turned away for its key first, then for its prompt, for limits
/// of the model that allow nothing, and for what it would take; otherwise it is
/// admitted under its key, with the tokens that its prompt counts as. Its output
/// is the smaller of what it asks for, or the default where it does not ask, and
/// what the model may put out.
pub proof fn law_requests_are_admitted_as_asked(
    model: ModelBudget,
    keys: Set<Seq<char>>,
    authorization: Option<Seq<char>>,
    request: OpenAiRequest,
    wish: usize,
    asked: nat,
    counter: &ApproxTokenCounter,
)
    requires
        request.max_tokens is None ==> wish == model.default_max_tokens,
        request.max_tokens matches Some(n) ==> wish == n,
        wish <= model.max_output_tokens ==> asked == wish,
        wish > model.max_output_tokens ==> asked == model.max_output_tokens,
    ensures
        ({
            let r = admission(model, keys, authorization, request);
            let limit = model.context_limit;
            match (authenticated(keys, authorization), prompt_asked(request)) {
                (Err(reply), _) => r == Err::<AdmittedView, (u16, Seq<char>)>(reply),
                (Ok(key), Err(message)) => r == Err::<AdmittedView, (u16, Seq<char>)>(
                    (400, message),
                ),
                (Ok(key), Ok(prompt)) => {
                    let tokens = counter.prompt_tokens(prompt) as nat;
                    if limit == 0 {
                        r == Err::<AdmittedView, (u16, Seq<char>)>(
                            (400, "model context limit must be greater than zero"@),
                        )
                    } else if model.max_output_tokens == 0 {
                        r == Err::<AdmittedView, (u16, Seq<char>)>(
                            (400, "model max output tokens must be greater than zero"@),
                        )
                    } else if tokens + asked > limit {
                        r == Err::<AdmittedView, (u16, Seq<char>)>(
                            (
                                400,
                                "prompt_tokens ("@ + decimal(tokens) + ") + max_tokens ("@
                                    + decimal(asked) + ") exceeds context_limit ("@ + decimal(
                                    limit as nat,
                                ) + ")"@,
                            ),
                        )
                    } else {
                        r matches Ok(admitted) && admitted.api_key == key
                            && admitted.prompt_tokens == tokens && admitted.max_tokens == asked
                    }
                },
            }
        }),
{
}

/// A generation is handed on under its own identifier: its answers come on a
/// stream of its own, its workflow has a name of its own, and it is asked for
/// piece by piece exactly where it is to be streamed.
pub proof fn law_dispatches_are_named_by_the_request(
    names: DispatchNames,
    request_id: u128,
    response_streaming: bool,
)
    requires
        are_names_of(names, request_id, response_streaming),
    ensures
        names.request_id@ == hyphenated(request_id),
        names.response_stream@ == "inference:responses:"@ + names.request_id@,
        names.workflow_id@ == "inference-"@ + names.request_id@,
        response_streaming ==> names.upstream_path@
            == "/inference.v1.InferenceService/StreamGenerate"@ && names.workflow_name@
            == "GpuStreamGenerateWorkflow"@,
        !response_streaming ==> names.upstream_path@ == "/inference.v1.InferenceService/Generate"@
            && names.workflow_name@ == "GpuGenerateWorkflow"@,
{
}

/// The body of a job carries the request as it is: its model, all its messages,
/// one for one and in order, its prompt, the output that it may have, and
/// whether it is streamed; what it does not have is null.
pub proof fn law_jobs_carry_the_whole_request(request: OpenAiRequest)
    ensures
        job_body(request) is Object,
        ({
            let members = job_body(request)->Object_0;
            &&& members.len() == 5
            &&& members[0].0 == "model"@
            &&& members[1].0 == "messages"@
            &&& members[2].0 == "prompt"@
            &&& members[3].0 == "max_tokens"@
            &&& members[4].0 == "stream"@
            &&& request.model matches Some(model) ==> members[0].1 == JsonView::Text(model@)
            &&& request.model is None ==> members[0].1 is Null
            &&& request.messages is None ==> members[1].1 is Null
            &&& request.prompt matches Some(prompt) ==> members[2].1 == prompt@
            &&& request.prompt is None ==> members[2].1 is Null
            &&& request.max_tokens matches Some(n) ==> members[3].1 == JsonView::Unsigned(n as u64)
            &&& request.max_tokens is None ==> members[3].1 is Null
            &&& request.stream matches Some(flag) ==> members[4].1 == JsonView::Bool(flag)
            &&& request.stream is None ==> members[4].1 is Null
        }),
        request.messages matches Some(messages) ==> {
            let sent = job_body(request)->Object_0[1].1;
            &&& sent is Array
            &&& sent->Array_0.len() == messages@.len()
            &&& forall|i: int|
                0 <= i < messages@.len() ==> {
                    let doc = #[trigger] sent->Array_0[i];
                    &&& doc is Object
                    &&& doc->Object_0.len() == 2
                    &&& doc->Object_0[0] == ("role"@, JsonView::Text(messages@[i].role@))
                    &&& doc->Object_0[1] == ("content"@, JsonView::Text(messages@[i].content@))
                }
        },
{
    if request.messages is Some {
        let messages = request.messages->0;
        let docs = message_views(messages@).map_values(|m: MessageView| message_doc(m));
        assert(docs.len() == messages@.len());
        assert forall|i: int| 0 <= i < messages@.len() implies #[trigger] docs[i] == message_doc(
            messages@[i]@,
        ) by {}
    }
}

/// The text of an answer is its first choice's message; only without one its
/// delta, and only without either the choice's own text. What is no string is
/// no text, and data that is no JSON has none.
pub proof fn law_answers_are_read_message_first(value: JsonView, data: Seq<char>)
    ensures
        ({
            let choice = first_element(member(Some(value), "choices"@));
            let message = member(member(choice, "message"@), "content"@);
            let delta = member(member(choice, "delta"@), "content"@);
            let plain = member(choice, "text"@);
            let found = if message is Some {
                message
            } else if delta is Some {
                delta
            } else {
                plain
            };
            &&& found matches Some(JsonView::Text(text)) ==> text_of(value) == text
            &&& !(found matches Some(JsonView::Text(_))) ==> text_of(value).len() == 0
        }),
        parsed_json(data) matches Ok(parsed) ==> text_in_data(data) == text_of(parsed),
        parsed_json(data) is Err ==> text_in_data(data).len() == 0,
{
}

/// A chunk's text is put behind what was collected, whole, and the stream is
/// read on from that answer. An end settles for what it reports; an error, a
/// timeout or a broken stream gives the reservation back and is told, and none
/// of these changes what was collected.
pub proof fn law_answers_are_collected_in_order(
    state: UnaryView,
    id: String,
    data: String,
    n: u64,
    message: String,
)
    ensures
        collecting(
            state,
            ReadOutcome::Event(id, ResponseEvent::Chunk { data, token_estimate: n }),
        ) == (
            UnaryView { last_id: id@, text: state.text + text_in_data(data@) },
            None::<(Settlement, Option<(u16, Seq<char>)>)>,
        ),
        collecting(state, ReadOutcome::Event(id, ResponseEvent::Done { generated_tokens: n })) == (
            state,
            Some((Settlement::Reconcile(n), None::<(u16, Seq<char>)>)),
        ),
        collecting(state, ReadOutcome::Event(id, ResponseEvent::Error { message })) == (
            state,
            Some((Settlement::Cancel, Some((502u16, message@)))),
        ),
        collecting(state, ReadOutcome::TimedOut) == (
            state,
            Some((Settlement::Cancel, Some((504u16, "generation timed out"@)))),
        ),
        collecting(state, ReadOutcome::Broken) == (
            state,
            Some((Settlement::Cancel, Some((502u16, "failed reading response stream"@)))),
        ),
{
}

/// A chunk is sent on with its whole text, for the request and the model that it
/// is of, and with all tokens that were generated so far, its own among them, up
/// to what 64 bits hold; the end mark is not sent. The end is sent with what it
/// reports and no text, and a failure with its words.
pub proof fn law_answers_are_sent_in_order(
    request_id: Seq<char>,
    model: Seq<char>,
    state: StreamView,
    id: String,
    data: String,
    n: u64,
    message: String,
)
    ensures
        ({
            let (next, step) = streaming(
                request_id,
                model,
                state,
                ReadOutcome::Event(id, ResponseEvent::Chunk { data, token_estimate: n }),
            );
            &&& next.last_id == id@
            &&& data@ == "[DONE]"@ ==> step is Skip && next.generated_so_far
                == state.generated_so_far
            &&& data@ != "[DONE]"@ ==> {
                &&& state.generated_so_far + n <= u64::MAX ==> next.generated_so_far
                    == state.generated_so_far + n
                &&& state.generated_so_far + n > u64::MAX ==> next.generated_so_far == u64::MAX
                &&& step matches StepView::Send(chunk) && chunk.delta == text_in_data(data@)
                    && chunk.generated_tokens == next.generated_so_far && chunk.request_id
                    == request_id && chunk.model == model && chunk.finish_reason.len() == 0
            }
        }),
        ({
            let (next, step) = streaming(
                request_id,
                model,
                state,
                ReadOutcome::Event(id, ResponseEvent::Done { generated_tokens: n }),
            );
            &&& next == state
            &&& step matches StepView::Finish(settlement, chunk) && settlement
                == Settlement::Reconcile(n) && chunk.delta.len() == 0 && chunk.generated_tokens == n
                && chunk.request_id == request_id && chunk.model == model && chunk.finish_reason
                == "stop"@
        }),
        ({
            let (next, step) = streaming(
                request_id,
                model,
                state,
                ReadOutcome::Event(id, ResponseEvent::Error { message }),
            );
            &&& next == state
            &&& step matches StepView::Fail(settlement, chunk) && settlement == Settlement::Cancel
                && chunk.delta == message@ && chunk.finish_reason == "error"@
                && chunk.generated_tokens == 0
        }),
        ({
            let (next, step) = streaming(request_id, model, state, ReadOutcome::TimedOut);
            &&& next == state
            &&& step matches StepView::Fail(settlement, chunk) && settlement == Settlement::Cancel
                && chunk.delta == "generation timed out"@ && chunk.finish_reason == "error"@
                && chunk.generated_tokens == 0
        }),
        ({
            let (next, step) = streaming(request_id, model, state, ReadOutcome::Broken);
            &&& next == state
            &&& step matches StepView::Fail(settlement, chunk) && settlement == Settlement::Cancel
                && chunk.delta == "failed reading response stream"@ && chunk.finish_reason
                == "error"@ && chunk.generated_tokens == 0
        }),
        fault_chunk(message@).delta == message@,
        fault_chunk(message@).finish_reason == "error"@,
        fault_chunk(message@).generated_tokens == 0,
        fault_chunk(message@).request_id.len() == 0,
        fault_chunk(message@).model.len() == 0,
{
}

/// What a caller reads of a worker's whole answer is the text that the worker
/// was given, for a job of either kind and for a workflow.
pub proof fn law_whole_texts_come_back(
    request_id: Seq<char>,
    model: Seq<char>,
    chat: bool,
    prompt: Seq<char>,
    text: Seq<char>,
)
    ensures
        text_of(
            crate::worker::completion_body_said(request_id, model, chat, prompt, text),
        ) == text,
        text_of(crate::worker::workflow_body_said(request_id, model, text)) == text,
{
    lemma_whole_choice(
        crate::worker::completion_body_said(request_id, model, chat, prompt, text),
        chat,
        text,
    );
    lemma_whole_choice(
        crate::worker::workflow_body_said(request_id, model, text),
        true,
        text,
    );
}

proof fn lemma_whole_choice(body: JsonView, chat: bool, text: Seq<char>)
    requires
        body is Object,
        body->Object_0.len() == 5,
        body->Object_0[0].0 == "id"@,
        body->Object_0[1].0 == "object"@,
        body->Object_0[2].0 == "model"@,
        body->Object_0[3] == (
            "choices"@,
            JsonView::Array(seq![crate::worker::whole_choice(chat, text)]),
        ),
    ensures
        text_of(body) == text,
{
    reveal_strlit("id");
    reveal_strlit("object");
    reveal_strlit("model");
    reveal_strlit("choices");
    reveal_strlit("index");
    reveal_strlit("delta");
    reveal_strlit("text");
    reveal_strlit("role");
    reveal_strlit("finish_reason");
    reveal_strlit("message");
    reveal_strlit("content");
    let members = body->Object_0;
    assert("id"@.len() == 2 && "object"@.len() == 6 && "model"@.len() == 5 && "choices"@.len() == 7);
    assert("index"@.len() == 5 && "delta"@.len() == 5 && "text"@.len() == 4 && "message"@.len() == 7
        && "finish_reason"@.len() == 13 && "role"@.len() == 4 && "content"@.len() == 7);
    lemma_member_found(members, "choices"@, 3);
    let choice = crate::worker::whole_choice(chat, text);
    let parts = choice->Object_0;
    assert(first_element(member(Some(body), "choices"@)) == Some(choice));
    assert("delta"@[0] == 'd' && "index"@[0] == 'i');
    if chat {
        lemma_member_found(parts, "message"@, 1);
        lemma_member_found(parts[1].1->Object_0, "content"@, 1);
    } else {
        lemma_member_missing(parts, "message"@);
        lemma_member_missing(parts, "delta"@);
        lemma_member_found(parts, "text"@, 1);
    }
}

/// What is said of a piece is what it is, and what is said of an admitted
/// request likewise.
pub proof fn law_pieces_say_what_they_are(chunk: GenerateChunk, admitted: Admitted)
    ensures
        chunk@.request_id == chunk.request_id@,
        chunk@.model == chunk.model@,
        chunk@.delta == chunk.delta@,
        chunk@.generated_tokens == chunk.generated_tokens,
        chunk@.finish_reason == chunk.finish_reason@,
        admitted@.api_key == admitted.api_key@,
        admitted@.prompt_tokens == admitted.prompt_tokens,
        admitted@.max_tokens == admitted.max_tokens,
{
}

} // verus!
