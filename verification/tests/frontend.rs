use inference_gateway::access::{api_keys_from_list, api_keys_from_text, authenticate, bearer_token};
use inference_gateway::admission::{AdmissionAction, AdmissionEvent, AdmissionRun};
use inference_gateway::budget::{ChatMessage, Prompt};
use inference_gateway::cache::cache_key;
use inference_gateway::frontend::{
    check_admission, check_subscription, concat_deltas, default_revision, dispatched,
    generation_job_at, inspected, most_generated, prompt_prefix, replay_matches, request_prompt,
    reserved, results_unavailable, runtime_request, valid_stream_id, Admission, Admitted,
    Collector, EventStream, GenerateRequest, GenerationEvent, ModelConfig, ReadOutcome,
    StreamSettings, StreamStep, SubscribeGenerationRequest,
};
use inference_gateway::streams::{
    GenerationResult, QuotaError, QuotaReservation, ResultEntry, ResultEvent,
};

fn model() -> ModelConfig {
    ModelConfig {
        id: "model-a".to_string(),
        revision: "rev".to_string(),
        endpoint: "http://model".to_string(),
        tokenizer_id: "tok".to_string(),
        tokenizer_revision: "main".to_string(),
        context_limit: 40,
        default_max_tokens: 8,
        max_output_tokens: 16,
    }
}

fn request() -> GenerateRequest {
    GenerateRequest {
        model: "model-a".to_string(),
        messages: vec![],
        prompt: "hello world".to_string(),
        max_tokens: 0,
        stop: vec!["[END]".to_string()],
    }
}

fn message(role: &str, content: &str) -> ChatMessage {
    ChatMessage { role: role.to_string(), content: content.to_string() }
}

fn entry(id: &str, attempt: &str, event: Option<ResultEvent>) -> ReadOutcome {
    ReadOutcome::Entry(ResultEntry {
        event_id: id.to_string(),
        result: GenerationResult {
            schema_version: 1,
            request_id: "r".to_string(),
            attempt_id: attempt.to_string(),
            event,
        },
    })
}

fn token(id: &str, attempt: &str, text: &str, n: u64) -> ReadOutcome {
    entry(
        id,
        attempt,
        Some(ResultEvent::Token { text: text.to_string(), cumulative_generated_tokens: n }),
    )
}

fn completed(id: &str, attempt: &str) -> ReadOutcome {
    entry(
        id,
        attempt,
        Some(ResultEvent::Completed {
            prompt_tokens: 3,
            generated_tokens: 2,
            finish_reason: "length".to_string(),
        }),
    )
}

fn failed(id: &str, attempt: &str) -> ReadOutcome {
    entry(
        id,
        attempt,
        Some(ResultEvent::Failed {
            code: "backend_error".to_string(),
            message: "no model".to_string(),
            retryable: false,
        }),
    )
}

fn started(attempt: &str) -> ReadOutcome {
    entry("0-1", attempt, Some(ResultEvent::AttemptStarted))
}

#[test]
fn cursor_must_be_a_stream_id() {
    assert!(valid_stream_id("123-0"));
    assert!(!valid_stream_id("123"));
    assert!(!valid_stream_id("newest"));
}

#[test]
fn same_model_and_prompt_have_stable_cache_key() {
    let request = GenerateRequest {
        model: "model-a".to_string(),
        messages: vec![ChatMessage { role: "user".to_string(), content: "hello".to_string() }],
        prompt: String::new(),
        max_tokens: 0,
        stop: vec![],
    };
    let prefix = prompt_prefix(&request);
    assert_eq!(cache_key("model-a", &prefix), cache_key("model-a", &prefix));
    assert_ne!(cache_key("model-a", &prefix), cache_key("model-b", &prefix));
}

#[test]
fn stream_ids_are_two_numbers() {
    assert!(valid_stream_id("18446744073709551615-18446744073709551615"));
    assert!(valid_stream_id("+1-+2"));
    assert!(!valid_stream_id("18446744073709551616-0"));
    assert!(!valid_stream_id("1-"));
    assert!(!valid_stream_id("-1"));
    assert!(!valid_stream_id("1-2-3"));
    assert!(!valid_stream_id(""));
}

#[test]
fn keys_are_trimmed_and_bearers_checked() {
    let keys = api_keys_from_text(" dev-key ,, other");
    assert_eq!(authenticate(&keys, Some("Bearer dev-key")).unwrap(), "dev-key");
    assert_eq!(authenticate(&keys, Some("Bearer other")).unwrap(), "other");
    let missing = authenticate(&keys, None).unwrap_err();
    assert_eq!((missing.status, missing.message.as_str()), (401, "missing bearer token"));
    assert_eq!(authenticate(&keys, Some("Basic x")).unwrap_err().status, 401);
    let invalid = authenticate(&keys, Some("Bearer ")).unwrap_err();
    assert_eq!((invalid.status, invalid.message.as_str()), (403, "invalid API key"));
    let listed = api_keys_from_list(&vec![" a ".to_string(), " ".to_string()]);
    assert!(authenticate(&listed, Some("Bearer a")).is_ok());
    assert!(authenticate(&listed, Some("Bearer  a ")).is_err());
    assert_eq!(bearer_token(Some("Bearer x y")), Some("x y".to_string()));
}

#[test]
fn prompts_are_messages_or_text() {
    assert_eq!(request_prompt(&request()), Ok(Prompt::Text("hello world".to_string())));
    let mut chat = request();
    chat.messages = vec![message("user", "hi")];
    assert_eq!(request_prompt(&chat), Ok(Prompt::Chat(vec![message("user", "hi")])));
    let mut empty = request();
    empty.prompt = String::new();
    assert_eq!(request_prompt(&empty), Err("either messages or prompt is required"));
}

#[test]
fn prefixes_are_cut_after_4096_characters() {
    let mut chat = request();
    chat.messages = vec![message("user", "a"), message("assistant", "b")];
    assert_eq!(prompt_prefix(&chat), "user\na\nassistant\nb");
    let mut long = request();
    long.prompt = "ä".repeat(5000);
    assert_eq!(prompt_prefix(&long), "ä".repeat(4096));
}

#[test]
fn requests_are_checked_in_order() {
    let keys = api_keys_from_text("dev-key");
    let bearer = Some("Bearer dev-key");
    let admitted = check_admission(&model(), &keys, bearer, &request()).unwrap();
    assert_eq!(
        admitted,
        Admitted {
            api_key: "dev-key".to_string(),
            model: "model-a".to_string(),
            prompt_tokens: 3,
            max_tokens: 8,
        }
    );
    let mut other = request();
    other.prompt = String::new();
    other.model = "model-b".to_string();
    let fault = |request: &GenerateRequest, bearer: Option<&str>| {
        let reply = check_admission(&model(), &keys, bearer, request).unwrap_err();
        (reply.status, reply.message)
    };
    assert_eq!(fault(&other, None).0, 401);
    assert_eq!(
        fault(&other, bearer),
        (400, "either messages or prompt is required".to_string())
    );
    other.prompt = "x ".repeat(80);
    assert_eq!(fault(&other, bearer), (404, "model is not registered".to_string()));
    other.model = String::new();
    other.max_tokens = 99;
    assert_eq!(
        fault(&other, bearer),
        (
            400,
            "prompt_tokens (80) + max_tokens (16) exceeds context_limit (40)".to_string()
        )
    );
    let mut broken = model();
    broken.max_output_tokens = 0;
    assert_eq!(
        check_admission(&broken, &keys, bearer, &request()).unwrap_err().message,
        "model max output tokens must be greater than zero"
    );
}

#[test]
fn refused_reservations_are_too_many_requests() {
    let refused = reserved(Err(QuotaError::PromptTokens)).unwrap_err();
    assert_eq!((refused.status, refused.message.as_str()), (429, "prompt-token quota exceeded"));
    let reservation = QuotaReservation {
        id: "r".to_string(),
        remaining_requests: 1,
        remaining_prompt_tokens: 2,
        remaining_generated_tokens: 3,
    };
    assert_eq!(reserved(Ok(reservation)).unwrap().id, "r");
}

#[test]
fn jobs_carry_what_was_admitted() {
    let keys = api_keys_from_text("dev-key");
    let admitted =
        check_admission(&model(), &keys, Some("Bearer dev-key"), &request()).unwrap();
    let runtime = runtime_request(&request(), &admitted);
    assert_eq!(runtime.model, "model-a");
    assert_eq!(runtime.messages, None);
    assert_eq!(runtime.prompt, Some("hello world".to_string()));
    assert_eq!(runtime.max_tokens, 8);
    assert_eq!(runtime.stop, vec!["[END]"]);
    assert!(runtime.stream);
    let job = generation_job_at(
        &model(),
        &request(),
        &admitted,
        "reservation",
        b"{}".to_vec(),
        300_000,
        0,
        1_000,
    );
    assert_eq!(job.schema_version, 1);
    assert_eq!(job.request_id, "00000000-0000-0000-0000-000000000000");
    assert_eq!(job.model_id, "model-a");
    assert_eq!(job.model_revision, "rev");
    assert_eq!(job.model_endpoint, "http://model");
    assert_eq!(job.request_json, b"{}");
    assert_eq!(job.deadline_unix_ms, 301_000);
    assert_eq!(job.reservation_id, "reservation");
    let cache = job.cache.unwrap();
    assert_eq!(cache.cache_key, cache_key("model-a", "hello world"));
    assert_eq!(cache.prefix_tokens_estimate, 3);
    assert_eq!(default_revision(), "main");
    assert_eq!(StreamSettings::default().generation_timeout_seconds, 300);
}

#[test]
fn a_job_that_is_not_published_gives_its_quota_back() {
    let admitted = Admitted {
        api_key: "k".to_string(),
        model: "m".to_string(),
        prompt_tokens: 5,
        max_tokens: 8,
    };
    let admission = dispatched(
        &admitted,
        "id".to_string(),
        "res".to_string(),
        Some("1-0".to_string()),
    )
    .unwrap();
    assert_eq!(admission.request_entry_id, "1-0");
    assert_eq!(admission.prompt_tokens, 5);
    let abandoned =
        dispatched(&admitted, "id".to_string(), "res".to_string(), None).unwrap_err();
    assert_eq!(abandoned.cancel_reservation, "res");
    assert_eq!(abandoned.reply.status, 502);
    assert_eq!(abandoned.reply.message, "failed to dispatch generation");
}

fn granted(id: &str) -> AdmissionEvent {
    AdmissionEvent::Reserved(Ok(QuotaReservation {
        id: id.to_string(),
        remaining_requests: 1,
        remaining_prompt_tokens: 2,
        remaining_generated_tokens: 3,
    }))
}

#[test]
fn admitted_requests_are_paid_for_and_published() {
    let (model, keys, request) = (model(), api_keys_from_text("dev-key"), request());
    let run = AdmissionRun::start(&model, &keys, Some("Bearer dev-key"), &request, 300_000);
    assert_eq!(
        run.action(),
        AdmissionAction::Reserve {
            api_key: "dev-key".to_string(),
            prompt_tokens: 3,
            generated_tokens: 8,
        }
    );
    let run = run.after(granted("res"));
    let asked = match run.action() {
        AdmissionAction::Encode(asked) => asked,
        _ => panic!(),
    };
    assert_eq!(asked.prompt, Some("hello world".to_string()));
    let run = run.after_at(AdmissionEvent::Encoded(b"{}".to_vec()), 0, 1_000);
    match run.action() {
        AdmissionAction::Publish(job) => {
            assert_eq!(job.request_id, "00000000-0000-0000-0000-000000000000");
            assert_eq!(job.request_json, b"{}");
            assert_eq!(job.reservation_id, "res");
            assert_eq!(job.deadline_unix_ms, 301_000);
        }
        _ => panic!(),
    }
    let run = run.after(AdmissionEvent::Published(Some("1-0".to_string())));
    assert_eq!(run.action(), AdmissionAction::Leave);
    let admission = run.outcome().unwrap().unwrap();
    assert_eq!(admission.request_id, "00000000-0000-0000-0000-000000000000");
    assert_eq!(admission.request_entry_id, "1-0");
    assert_eq!(admission.reservation_id, "res");
    assert_eq!(admission.prompt_tokens, 3);
}

#[test]
fn jobs_get_fresh_identifiers() {
    let (model, keys, request) = (model(), api_keys_from_text("dev-key"), request());
    let run = AdmissionRun::start(&model, &keys, Some("Bearer dev-key"), &request, u64::MAX)
        .after(granted("res"))
        .after(AdmissionEvent::Encoded(vec![]));
    match run.action() {
        AdmissionAction::Publish(job) => {
            assert_eq!(job.deadline_unix_ms, u64::MAX);
            assert_eq!(uuid::Uuid::parse_str(&job.request_id).unwrap().get_version_num(), 4);
        }
        _ => panic!(),
    }
    assert!(run.outcome().is_none());
}

#[test]
fn requests_that_are_not_published_give_their_quota_back() {
    let (model, keys, request) = (model(), api_keys_from_text("dev-key"), request());
    let run = AdmissionRun::start(&model, &keys, Some("Bearer dev-key"), &request, 300_000)
        .after(granted("res"))
        .after(AdmissionEvent::Encoded(vec![]))
        .after(AdmissionEvent::Published(None));
    assert_eq!(
        run.action(),
        AdmissionAction::CancelQuota { reservation_id: "res".to_string() }
    );
    let reply = run.after(AdmissionEvent::Done).outcome().unwrap().unwrap_err();
    assert_eq!((reply.status, reply.message.as_str()), (502, "failed to dispatch generation"));
}

#[test]
fn refused_requests_reserve_and_publish_nothing() {
    let (model, keys, request) = (model(), api_keys_from_text("dev-key"), request());
    let refused = AdmissionRun::start(&model, &keys, Some("Bearer other"), &request, 300_000);
    assert_eq!(refused.action(), AdmissionAction::Leave);
    let refused = refused.after(granted("res"));
    assert_eq!(refused.action(), AdmissionAction::Leave);
    assert_eq!(refused.outcome().unwrap().unwrap_err().status, 403);
    let unpaid = AdmissionRun::start(&model, &keys, Some("Bearer dev-key"), &request, 300_000)
        .after(AdmissionEvent::Reserved(Err(QuotaError::PromptTokens)));
    assert_eq!(unpaid.action(), AdmissionAction::Leave);
    let reply = unpaid.outcome().unwrap().unwrap_err();
    assert_eq!((reply.status, reply.message.as_str()), (429, "prompt-token quota exceeded"));
}

#[test]
fn subscriptions_are_checked() {
    let wish = |id: &str, after: Option<&str>| {
        check_subscription(SubscribeGenerationRequest {
            request_id: id.to_string(),
            after_event_id: after.map(str::to_string),
        })
        .map_err(|reply| (reply.status, reply.message))
    };
    assert_eq!(wish("", Some("1-0")), Err((400, "request_id is required".to_string())));
    assert_eq!(wish("a", Some("x")), Err((400, "invalid after_event_id".to_string())));
    assert_eq!(wish("a", Some("")), Ok(("a".to_string(), None)));
    assert_eq!(wish("a", None), Ok(("a".to_string(), None)));
    assert_eq!(wish("a", Some("1-0")), Ok(("a".to_string(), Some("1-0".to_string()))));
    assert!(inspected(Some(true)).is_none());
    assert_eq!(inspected(Some(false)).unwrap().status, 404);
    assert_eq!(inspected(Some(false)).unwrap().message, "generation is unknown or expired");
    assert_eq!(inspected(None).unwrap().status, 502);
    assert_eq!(inspected(None).unwrap().message, "failed to inspect generation");
    assert_eq!(results_unavailable().status, 502);
    assert_eq!(results_unavailable().message, "result stream unavailable");
}

#[test]
fn collected_text_is_that_of_the_last_attempt() {
    let mut collector = Collector::new();
    for outcome in [
        started("a"),
        token("1-0", "a", "half ", 1),
        started("b"),
        token("1-1", "a", "late ", 2),
        token("2-0", "b", "hello ", 1),
        entry("2-1", "b", None),
        started("b"),
        token("3-0", "b", "world", 2),
    ] {
        assert!(collector.take(outcome).is_none());
    }
    let end = collector.take(completed("4-0", "b")).unwrap().unwrap();
    assert_eq!(end, (2, "length".to_string()));
    let admission = Admission {
        request_id: "r".to_string(),
        request_entry_id: "9-0".to_string(),
        reservation_id: "res".to_string(),
        prompt_tokens: 7,
    };
    let response = collector.response(&admission, "model-a", end.0, end.1);
    assert_eq!(response.text, "hello world");
    assert_eq!(response.prompt_tokens, 7);
    assert_eq!(response.generated_tokens, 2);
    assert_eq!(response.finish_reason, "length");
    assert_eq!(response.request_id, "r");
}

#[test]
fn collecting_can_fail() {
    let fault = |outcome: ReadOutcome| {
        let reply = Collector::new().take(outcome).unwrap().unwrap_err();
        (reply.status, reply.message)
    };
    assert_eq!(fault(ReadOutcome::TimedOut), (504, "generation timed out".to_string()));
    assert_eq!(fault(ReadOutcome::Broken), (502, "result stream failed".to_string()));
    assert_eq!(fault(failed("1-0", "a")), (502, "no model".to_string()));
}

#[test]
fn streams_send_tokens_and_one_terminal_event() {
    let outcomes = vec![
        started("a"),
        token("1-0", "a", "hello ", 1),
        entry("1-1", "a", None),
        token("2-0", "a", "world", 2),
        completed("3-0", "a"),
    ];
    let mut events: Vec<GenerationEvent> = Vec::new();
    let mut ended = false;
    let mut stream = EventStream::new(None);
    for outcome in outcomes {
        assert!(!ended);
        match stream.take("r", "model-a", outcome) {
            StreamStep::Skip => {}
            StreamStep::Send(event) => events.push(event),
            StreamStep::Finish(event) => {
                events.push(event);
                ended = true;
            }
            StreamStep::Fail(_) => panic!(),
        }
    }
    assert_eq!(events.len(), 3);
    assert_eq!(events[0].delta, "hello ");
    assert_eq!(events[0].event_id, "1-0");
    assert_eq!(events[0].attempt_id, "a");
    assert!(!events[0].terminal && !events[1].terminal && events[2].terminal);
    assert_eq!(events[2].finish_reason, "length");
    assert_eq!(events[2].generated_tokens, 2);
    assert_eq!(events[2].prompt_tokens, 3);
    assert_eq!(events[2].event_id, "3-0");
    assert_eq!(concat_deltas(&events), "hello world");
    assert!(replay_matches(&events, &events));
    assert!(!replay_matches(&events, &vec![]));
    assert_eq!(most_generated(&events), 2);
    assert_eq!(most_generated(&vec![]), 0);
}

#[test]
fn streams_report_failures() {
    let mut stream = EventStream::new(None);
    assert!(matches!(stream.take("r", "model-a", token("2-0", "a", "x", 5)), StreamStep::Send(_)));
    match stream.take("r", "model-a", failed("3-0", "a")) {
        StreamStep::Finish(event) => {
            assert!(event.terminal);
            assert_eq!(event.delta, "no model");
            assert_eq!(event.finish_reason, "backend_error");
            assert_eq!(event.generated_tokens, 5);
            assert_eq!(event.event_id, "3-0");
        }
        _ => panic!(),
    }
    let fault = |step: StreamStep| match step {
        StreamStep::Fail(event) => event,
        _ => panic!(),
    };
    let timed_out = fault(stream.take("r", "model-a", ReadOutcome::TimedOut));
    assert_eq!(timed_out.delta, "generation timed out");
    assert_eq!(timed_out.finish_reason, "error");
    assert_eq!(timed_out.request_id, "r");
    assert_eq!(timed_out.model, "");
    assert_eq!(timed_out.generated_tokens, 5);
    assert_eq!(timed_out.event_id, "2-0");
    assert!(timed_out.terminal);
    let broken = fault(EventStream::new(Some("1-0")).take("r", "m", ReadOutcome::Broken));
    assert_eq!(broken.delta, "failed reading generation");
    assert_eq!(broken.generated_tokens, 0);
    assert_eq!(broken.event_id, "1-0");
    let fresh = EventStream::new(None);
    assert!(fresh.subscription_fault("r", Some(true)).is_none());
    let unknown = fresh.subscription_fault("r", Some(false)).unwrap();
    assert_eq!(unknown.delta, "generation is unknown or expired");
    assert_eq!(unknown.event_id, "");
    assert_eq!(
        fresh.subscription_fault("r", None).unwrap().delta,
        "failed to subscribe to generation"
    );
}

#[test]
fn a_subscriber_who_comes_back_gets_the_rest() {
    let all = || {
        vec![
            started("a"),
            token("1-0", "a", "x", 1),
            token("2-0", "a", "y", 2),
            completed("3-0", "a"),
        ]
    };
    let events = |cursor: Option<&str>, outcomes: Vec<ReadOutcome>| -> Vec<GenerationEvent> {
        let mut stream = EventStream::new(cursor);
        let mut events = Vec::new();
        for outcome in outcomes {
            match stream.take("r", "model-a", outcome) {
                StreamStep::Skip => {}
                StreamStep::Send(event)
                | StreamStep::Finish(event)
                | StreamStep::Fail(event) => events.push(event),
            }
        }
        events
    };
    let live = events(None, all());
    let resumed = events(Some("1-0"), all().into_iter().skip(2).collect());
    assert_eq!(resumed, live[1..].iter().map(|event| GenerationEvent {
        request_id: event.request_id.clone(),
        model: event.model.clone(),
        delta: event.delta.clone(),
        generated_tokens: event.generated_tokens,
        finish_reason: event.finish_reason.clone(),
        event_id: event.event_id.clone(),
        attempt_id: event.attempt_id.clone(),
        prompt_tokens: event.prompt_tokens,
        terminal: event.terminal,
    }).collect::<Vec<_>>());
}
