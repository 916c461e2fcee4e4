use inference_gateway::access::api_keys_from_text;
use inference_gateway::budget::{ChatMessage, ModelBudget, Prompt};
use inference_gateway::door::{DoorAction, DoorEvent, DoorRun};
use inference_gateway::frontdoor::{
    cache_metadata, check_admission, connect_failed, dispatch_failed, dispatch_names,
    extract_data_text, extract_text, fault, fresh_dispatch_names, prompt_prefix, quota_check,
    quota_headers, read_command, request_body, request_prompt, reserved, rpc_request,
    rpc_to_openai_request, size_setting, stream_connect_failed, Admitted, CachePolicy,
    OpenAiRequest, ProtoGenerateRequest, ReadOutcome, ResponseEvent, Settlement, StreamRelay,
    StreamStep, UnaryCollector, UnaryEnd,
};
use inference_gateway::json::{parse_json, Json};
use inference_gateway::quota::{QuotaCheck, QuotaError, QuotaReservation};
use inference_gateway::worker::{extract_prompt, max_tokens, wants_stream};

fn chat_request(content: &str) -> OpenAiRequest {
    OpenAiRequest {
        model: Some("test-model".to_string()),
        messages: Some(vec![ChatMessage {
            role: "user".to_string(),
            content: content.to_string(),
        }]),
        prompt: None,
        max_tokens: Some(32),
        stream: Some(false),
    }
}

fn text_request(prompt: Option<Json>) -> OpenAiRequest {
    OpenAiRequest { model: None, messages: None, prompt, max_tokens: None, stream: None }
}

fn chunk(id: &str, data: &str, token_estimate: u64) -> ReadOutcome {
    ReadOutcome::Event(
        id.to_string(),
        ResponseEvent::Chunk { data: data.to_string(), token_estimate },
    )
}

fn done(generated_tokens: u64) -> ReadOutcome {
    ReadOutcome::Event("9-0".to_string(), ResponseEvent::Done { generated_tokens })
}

fn error(message: &str) -> ReadOutcome {
    ReadOutcome::Event("9-0".to_string(), ResponseEvent::Error { message: message.to_string() })
}

#[test]
fn cache_key_is_stable_for_same_prompt_and_model() {
    let first = cache_metadata(&chat_request("same prefix"), "model-a", 3);
    let second = cache_metadata(&chat_request("same prefix"), "model-a", 3);
    assert_eq!(first.cache_key, second.cache_key);
    assert_eq!(first.prefix_tokens_estimate, 3);
    assert_eq!(first.cache_policy, CachePolicy::PrefixAffinity);
}

#[test]
fn cache_key_changes_with_model() {
    let first = cache_metadata(&chat_request("same prefix"), "model-a", 3);
    let second = cache_metadata(&chat_request("same prefix"), "model-b", 3);
    assert_ne!(first.cache_key, second.cache_key);
}

#[test]
fn cache_key_changes_with_prompt_prefix() {
    let first = cache_metadata(&chat_request("first prefix"), "model-a", 3);
    let second = cache_metadata(&chat_request("second prefix"), "model-a", 3);
    assert_ne!(first.cache_key, second.cache_key);
}

#[test]
fn cache_key_ignores_streaming_mode_for_same_prompt() {
    let mut unary = chat_request("same prefix");
    unary.stream = Some(false);
    let mut streaming = chat_request("same prefix");
    streaming.stream = Some(true);
    assert_eq!(
        cache_metadata(&unary, "model-a", 3).cache_key,
        cache_metadata(&streaming, "model-a", 3).cache_key
    );
}

#[test]
fn what_is_empty_is_left_out() {
    let rpc = rpc_request(ProtoGenerateRequest {
        model: String::new(),
        messages: vec![],
        prompt: "hi".to_string(),
        max_tokens: 0,
    });
    assert_eq!(rpc.model, None);
    assert_eq!(rpc.messages, None);
    assert_eq!(rpc.prompt, Some("hi".to_string()));
    assert_eq!(rpc.max_tokens, None);
    let request = rpc_to_openai_request(rpc, true, "default");
    assert_eq!(request.model, Some("default".to_string()));
    assert_eq!(request.prompt, Some(Json::Text("hi".to_string())));
    assert_eq!(request.stream, Some(true));
    let rpc = rpc_request(ProtoGenerateRequest {
        model: "m".to_string(),
        messages: vec![ChatMessage { role: "user".to_string(), content: "hi".to_string() }],
        prompt: String::new(),
        max_tokens: 5,
    });
    let request = rpc_to_openai_request(rpc, false, "default");
    assert_eq!(request.model, Some("m".to_string()));
    assert_eq!(request.messages.unwrap().len(), 1);
    assert_eq!(request.prompt, None);
    assert_eq!(request.max_tokens, Some(5));
}

#[test]
fn prompts_are_messages_strings_or_lists() {
    assert!(matches!(request_prompt(&chat_request("x")), Ok(Prompt::Chat(_))));
    assert_eq!(
        request_prompt(&text_request(None)),
        Err("either messages or prompt is required")
    );
    assert_eq!(
        request_prompt(&text_request(Some(Json::Null))),
        Err("prompt must be a string or array of strings")
    );
    let list = parse_json(r#"["a",1,"b"]"#).unwrap();
    assert_eq!(
        request_prompt(&text_request(Some(list))),
        Ok(Prompt::Text("a\nb".to_string()))
    );
}

#[test]
fn prefixes_end_lines_and_stop_at_4096_bytes() {
    assert_eq!(prompt_prefix(&chat_request("hi")), "user\nhi\n");
    let list = parse_json(r#"["a",1,"b"]"#).unwrap();
    assert_eq!(prompt_prefix(&text_request(Some(list))), "a\nb\n");
    assert_eq!(prompt_prefix(&text_request(Some(Json::Bool(true)))), "");
    let text = Json::Text("x".repeat(5000));
    assert_eq!(prompt_prefix(&text_request(Some(text))).len(), 4096);
    let mut wide = chat_request(&"ä".repeat(2048));
    wide.messages.as_mut().unwrap().push(ChatMessage {
        role: "user".to_string(),
        content: "not reached".to_string(),
    });
    assert_eq!(prompt_prefix(&wide), format!("user\n{}\n", "ä".repeat(2048)));
    let wide = Json::Array(vec![
        Json::Text("ä".repeat(2048)),
        Json::Text("not reached".to_string()),
    ]);
    assert_eq!(prompt_prefix(&text_request(Some(wide))), format!("{}\n", "ä".repeat(2048)));
}

#[test]
fn front_door_requests_are_checked_in_order() {
    let model = ModelBudget {
        model: "m".to_string(),
        context_limit: 40,
        default_max_tokens: 8,
        max_output_tokens: 16,
    };
    let keys = api_keys_from_text("dev-key");
    let bearer = Some("Bearer dev-key");
    let mut request = chat_request("hello");
    let admitted = check_admission(&model, &keys, bearer, &mut request).unwrap();
    assert_eq!(admitted.api_key, "dev-key");
    assert_eq!(admitted.prompt_tokens, 1 + 2 + 4 + 2);
    assert_eq!(admitted.max_tokens, 16);
    assert_eq!(request.max_tokens, Some(16));
    let check = quota_check(&admitted);
    assert_eq!(check.api_key, "dev-key");
    assert_eq!(check.prompt_tokens, 9);
    assert_eq!(check.reserved_generated_tokens, 16);
    let mut none = text_request(None);
    assert_eq!(check_admission(&model, &keys, None, &mut none).unwrap_err().status, 401);
    assert_eq!(
        check_admission(&model, &keys, Some("Bearer x"), &mut none).unwrap_err().status,
        403
    );
    let reply = check_admission(&model, &keys, bearer, &mut none).unwrap_err();
    assert_eq!((reply.status, reply.message.as_str()), (400, "either messages or prompt is required"));
    let mut long = chat_request(&"x ".repeat(80));
    let reply = check_admission(&model, &keys, bearer, &mut long).unwrap_err();
    assert_eq!(
        reply.message,
        "prompt_tokens (87) + max_tokens (16) exceeds context_limit (40)"
    );
    assert_eq!(long.max_tokens, Some(32));
    let refused = reserved(Err(QuotaError::RequestsExceeded { remaining: 0 })).unwrap_err();
    assert_eq!(refused.status, 429);
    assert_eq!(refused.message, "request quota exceeded: remaining=0, requested=1");
}

#[test]
fn generations_are_dispatched_by_name() {
    let names = dispatch_names(0, true);
    let id = "00000000-0000-0000-0000-000000000000";
    assert_eq!(names.request_id, id);
    assert_eq!(names.response_stream, format!("inference:responses:{id}"));
    assert_eq!(names.upstream_path, "/inference.v1.InferenceService/StreamGenerate");
    assert_eq!(names.workflow_name, "GpuStreamGenerateWorkflow");
    assert_eq!(names.workflow_id, format!("inference-{id}"));
    let names = dispatch_names(0, false);
    assert_eq!(names.upstream_path, "/inference.v1.InferenceService/Generate");
    assert_eq!(names.workflow_name, "GpuGenerateWorkflow");
    let fresh = fresh_dispatch_names(false);
    assert_eq!(uuid::Uuid::parse_str(&fresh.request_id).unwrap().get_version_num(), 4);
    assert_eq!(fresh.workflow_id, format!("inference-{}", fresh.request_id));
    assert_eq!(
        read_command("s", "1-0", 30_000).words,
        vec!["XREAD", "BLOCK", "30000", "COUNT", "1", "STREAMS", "s", "1-0"]
    );
}

fn admitted() -> Admitted {
    Admitted { api_key: "k".to_string(), prompt_tokens: 3, max_tokens: 8 }
}

fn reservation() -> DoorEvent {
    DoorEvent::Reserved(Ok(QuotaReservation {
        id: 7,
        api_key: "k".to_string(),
        prompt_tokens: 3,
        reserved_generated_tokens: 8,
        remaining_requests: 1,
        remaining_prompt_tokens: 1,
        remaining_generated_tokens: 1,
    }))
}

#[test]
fn generations_are_paid_for_dispatched_and_settled() {
    let run = DoorRun::start(Ok(admitted()));
    assert_eq!(
        run.action(),
        DoorAction::Reserve(QuotaCheck {
            api_key: "k".to_string(),
            prompt_tokens: 3,
            reserved_generated_tokens: 8,
        })
    );
    let run = run.after(reservation());
    assert_eq!(run.action(), DoorAction::Dispatch);
    let run = run.after(DoorEvent::Dispatched(true));
    assert_eq!(run.action(), DoorAction::Follow);
    let end = UnaryEnd { settlement: Settlement::Reconcile(5), refusal: None };
    let run = run.after(DoorEvent::Ended(end));
    assert_eq!(
        run.action(),
        DoorAction::Settle { reservation_id: 7, settlement: Settlement::Reconcile(5) }
    );
    let run = run.after(DoorEvent::Done);
    assert_eq!(run.action(), DoorAction::Leave);
    assert_eq!(run.outcome(), Some(Ok(5)));
}

#[test]
fn generations_that_fail_give_their_quota_back() {
    let cancel = DoorAction::Settle { reservation_id: 7, settlement: Settlement::Cancel };
    let run = DoorRun::start(Ok(admitted()))
        .after(reservation())
        .after(DoorEvent::Dispatched(false));
    assert_eq!(run.action(), cancel);
    let reply = run.after(DoorEvent::Done).outcome().unwrap().unwrap_err();
    assert_eq!(
        (reply.status, reply.message.as_str()),
        (502, "failed to dispatch generation job")
    );
    let run = DoorRun::start(Ok(admitted()))
        .after(reservation())
        .after(DoorEvent::Dispatched(true))
        .after(DoorEvent::Ended(connect_failed()));
    assert_eq!(run.action(), cancel);
    assert_eq!(run.after(DoorEvent::Done).outcome().unwrap().unwrap_err().status, 502);
    let unpaid = DoorRun::start(Ok(admitted()))
        .after(DoorEvent::Reserved(Err(QuotaError::RequestsExceeded { remaining: 0 })));
    assert_eq!(unpaid.action(), DoorAction::Leave);
    assert_eq!(unpaid.outcome().unwrap().unwrap_err().status, 429);
}

#[test]
fn generations_that_do_not_begin_give_their_quota_back() {
    for (end, message) in [
        (dispatch_failed(), "failed to dispatch generation job"),
        (connect_failed(), "failed to connect to Valkey"),
    ] {
        assert_eq!(end.settlement, Settlement::Cancel);
        let reply = end.outcome().unwrap_err();
        assert_eq!((reply.status, reply.message.as_str()), (502, message));
    }
    assert_eq!(
        stream_connect_failed(),
        StreamStep::Fail(Settlement::Cancel, fault("failed to connect to Valkey"))
    );
    assert_eq!(
        stream_connect_failed().end(),
        Some(UnaryEnd { settlement: Settlement::Cancel, refusal: None })
    );
    assert_eq!(StreamStep::Skip.end(), None);
}

#[test]
fn workers_read_what_was_admitted() {
    let mut request = text_request(Some(Json::Text("hi".to_string())));
    request.max_tokens = Some(12);
    request.stream = Some(true);
    let body = request_body(&request);
    assert_eq!(max_tokens(&body), 12);
    assert!(wants_stream(&body));
    assert_eq!(extract_prompt(&body), "hi");
    assert_eq!(extract_prompt(&request_body(&chat_request("hello"))), "user: hello");
    assert_eq!(
        request_body(&text_request(None)),
        Json::Object(vec![
            ("model".to_string(), Json::Null),
            ("messages".to_string(), Json::Null),
            ("prompt".to_string(), Json::Null),
            ("max_tokens".to_string(), Json::Null),
            ("stream".to_string(), Json::Null),
        ])
    );
}

#[test]
fn texts_are_extracted_from_answers() {
    let text = |doc: &str| extract_text(&parse_json(doc).unwrap());
    assert_eq!(text(r#"{"choices":[{"message":{"content":"a"},"text":"b"}]}"#), "a");
    assert_eq!(text(r#"{"choices":[{"delta":{"content":"a"},"text":"b"}]}"#), "a");
    assert_eq!(text(r#"{"choices":[{"delta":{},"text":"b"}]}"#), "b");
    assert_eq!(text(r#"{"choices":[{"message":{"content":null},"text":"b"}]}"#), "");
    assert_eq!(text(r#"{"choices":[]}"#), "");
    assert_eq!(extract_data_text("[DONE]"), "");
    assert_eq!(extract_data_text(r#"{"choices":[{"text":"b"}]}"#), "b");
}

#[test]
fn unary_answers_are_collected_and_settled() {
    let mut collector = UnaryCollector::new();
    assert_eq!(collector.last_id(), "0-0");
    assert!(collector.take(chunk("1-0", r#"{"choices":[{"text":"a "}]}"#, 1)).is_none());
    assert!(collector.take(chunk("2-0", "[DONE]", 0)).is_none());
    assert!(collector.take(chunk("3-0", r#"{"choices":[{"text":"b"}]}"#, 1)).is_none());
    assert_eq!(collector.last_id(), "3-0");
    let end = collector.take(done(2)).unwrap();
    assert_eq!(end.settlement, Settlement::Reconcile(2));
    assert!(end.refusal.is_none());
    assert_eq!(end.outcome(), Ok(2));
    let response = collector.response("r", "model-a", 7, 2);
    assert_eq!(response.text, "a b");
    assert_eq!(response.request_id, "r");
    assert_eq!(response.model, "model-a");
    assert_eq!(response.prompt_tokens, 7);
    assert_eq!(response.generated_tokens, 2);
    assert_eq!(response.finish_reason, "stop");
    let fault = |outcome: ReadOutcome| {
        let end = UnaryCollector::new().take(outcome).unwrap();
        assert_eq!(end.settlement, Settlement::Cancel);
        let reply = end.refusal.unwrap();
        (reply.status, reply.message)
    };
    assert_eq!(fault(error("boom")), (502, "boom".to_string()));
    assert_eq!(fault(ReadOutcome::TimedOut), (504, "generation timed out".to_string()));
    assert_eq!(fault(ReadOutcome::Broken), (502, "failed reading response stream".to_string()));
}

#[test]
fn streamed_answers_are_relayed_and_settled() {
    let mut relay = StreamRelay::new();
    let step = relay.take("r", "m", chunk("1-0", r#"{"choices":[{"text":"a "}]}"#, 2));
    match step {
        StreamStep::Send(chunk) => {
            assert_eq!(chunk.delta, "a ");
            assert_eq!(chunk.generated_tokens, 2);
            assert_eq!(chunk.finish_reason, "");
            assert_eq!(chunk.request_id, "r");
            assert_eq!(chunk.model, "m");
        }
        _ => panic!(),
    }
    assert_eq!(relay.take("r", "m", chunk("2-0", "[DONE]", 9)), StreamStep::Skip);
    assert_eq!(relay.last_id(), "2-0");
    match relay.take("r", "m", chunk("3-0", "not json", 1)) {
        StreamStep::Send(chunk) => {
            assert_eq!(chunk.delta, "");
            assert_eq!(chunk.generated_tokens, 3);
        }
        _ => panic!(),
    }
    match relay.take("r", "m", done(7)) {
        StreamStep::Finish(settlement, chunk) => {
            assert_eq!(settlement, Settlement::Reconcile(7));
            assert_eq!(chunk.generated_tokens, 7);
            assert_eq!(chunk.finish_reason, "stop");
            assert_eq!(chunk.delta, "");
        }
        _ => panic!(),
    }
    for (outcome, message) in [
        (error("boom"), "boom"),
        (ReadOutcome::TimedOut, "generation timed out"),
        (ReadOutcome::Broken, "failed reading response stream"),
    ] {
        assert_eq!(
            StreamRelay::new().take("r", "m", outcome),
            StreamStep::Fail(Settlement::Cancel, fault(message))
        );
    }
    assert_eq!(fault("x").finish_reason, "error");
}

#[test]
fn headers_and_sizes() {
    let headers = quota_headers(0, 7, 33);
    assert_eq!(
        headers,
        vec![
            ("x-reservation-id", "00000000-0000-0000-0000-000000000000".to_string()),
            ("x-generated-tokens", "7".to_string()),
            ("x-refunded-tokens", "33".to_string()),
        ]
    );
    assert_eq!(size_setting(Some("12".to_string()), 5), 12);
    assert_eq!(size_setting(Some("x".to_string()), 5), 5);
    assert_eq!(size_setting(None, 5), 5);
}
