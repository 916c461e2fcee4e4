use inference_gateway::frontdoor::extract_text;
use inference_gateway::json::{as_str, as_u64, first, get, parse_json, Json};
use inference_gateway::worker::{
    acknowledge, activity_result, base_url, check_model, completion_body, completion_events,
    completion_payload, create_group, ensure_consumer_group, estimate_stream_delta_tokens,
    estimate_tokens, extract_prompt, extract_workflow_prompt, max_tokens, message_text, next_job,
    number_setting, select_backend, select_workflow_backend, setting, settled, stream_events,
    streamed_delta_text, summarize, synthetic_generate, synthetic_workflow_generate,
    unless_cancelled, wants_stream, workflow_answer, workflow_completion_events, workflow_payload,
    workflow_stream_events, AnswerAction, AnswerRun, Backend, ChunkData, Relay, RelayStep,
    ResponseEvent, WorkEvent, WorkRun, WorkStage, WorkflowAnswer, CANCELLED,
};

fn doc(text: &str) -> Json {
    parse_json(text).unwrap()
}

fn body_of(event: &ResponseEvent) -> &Json {
    match event {
        ResponseEvent::Chunk { data: ChunkData::Document(body), .. } => body,
        _ => panic!(),
    }
}

#[test]
fn backends_are_selected_by_name() {
    assert_eq!(select_backend("mlx"), Backend::Mlx);
    assert_eq!(select_backend("openai"), Backend::OpenAi);
    assert_eq!(select_backend("vllm"), Backend::OpenAi);
    assert_eq!(select_backend("anything"), Backend::Synthetic);
    assert_eq!(select_workflow_backend("mlx"), Backend::Synthetic);
    assert_eq!(select_workflow_backend("vllm"), Backend::OpenAi);
}

#[test]
fn settings_come_from_the_environment_first() {
    let some = |text: &str| Some(text.to_string());
    assert_eq!(setting(some("e"), some("c"), "d"), "e");
    assert_eq!(setting(None, some("c"), "d"), "c");
    assert_eq!(setting(None, None, "d"), "d");
    assert_eq!(number_setting(some("12"), 5), 12);
    assert_eq!(number_setting(some("-1"), 5), 5);
    assert_eq!(number_setting(None, 5), 5);
    assert_eq!(base_url(some("http://o//"), some("http://g")), "http://o");
    assert_eq!(base_url(None, some("http://g/")), "http://g");
    assert_eq!(base_url(None, None), "http://127.0.0.1:8000");
    assert_eq!(
        create_group().words,
        vec!["XGROUP", "CREATE", "inference:requests", "generation-workers", "0-0", "MKSTREAM"]
    );
    assert_eq!(
        next_job("w").words,
        vec![
            "XREADGROUP",
            "GROUP",
            "generation-workers",
            "w",
            "BLOCK",
            "0",
            "COUNT",
            "1",
            "STREAMS",
            "inference:requests",
            ">",
        ]
    );
    assert_eq!(
        acknowledge("1-0").words,
        vec!["XACK", "inference:requests", "generation-workers", "1-0"]
    );
    assert_eq!(settled("1-0", true).unwrap().words, acknowledge("1-0").words);
    assert!(settled("1-0", false).is_none());
    assert_eq!(ensure_consumer_group(None), Ok(()));
    assert_eq!(ensure_consumer_group(some("BUSYGROUP exists")), Ok(()));
    assert_eq!(ensure_consumer_group(some("no")), Err("no".to_string()));
    assert_eq!(CANCELLED, "generation cancelled");
}

#[test]
fn other_models_are_refused() {
    let event = check_model(&doc(r#"{"model":"b"}"#), "a").unwrap();
    assert_eq!(
        event,
        ResponseEvent::Error { message: "unknown model; this worker only serves a".to_string() }
    );
    assert!(check_model(&doc(r#"{"model":"a"}"#), "a").is_none());
    assert!(check_model(&doc(r#"{"model":null}"#), "a").is_none());
    assert!(wants_stream(&doc(r#"{"stream":true}"#)));
    assert!(!wants_stream(&doc(r#"{"stream":"true"}"#)));
}

#[test]
fn prompts_are_extracted() {
    let chat = doc(
        r#"{"messages":[{"role":"user","content":"hi"},{"role":"x"},{"role":"a","content":"b"}],"prompt":"p"}"#,
    );
    assert_eq!(extract_prompt(&chat), "user: hi\na: b");
    assert_eq!(extract_workflow_prompt(&chat), "user: hi\na: b");
    let list = doc(r#"{"prompt":["a",1,"b"]}"#);
    assert_eq!(extract_prompt(&list), "a\nb");
    assert_eq!(extract_workflow_prompt(&list), "");
    let text = doc(r#"{"messages":null,"prompt":"p"}"#);
    assert_eq!(extract_prompt(&text), "p");
    assert_eq!(extract_workflow_prompt(&text), "p");
    assert_eq!(extract_prompt(&doc("{}")), "");
}

#[test]
fn synthetic_answers_summarize_the_prompt() {
    assert_eq!(synthetic_generate("  ", 64), "demo model response: no prompt provided");
    assert_eq!(
        synthetic_generate("a  b", 64),
        "demo model response: admitted request, prompt summary: a b"
    );
    assert_eq!(synthetic_generate("a b", 2), "demo model");
    assert_eq!(synthetic_generate("a b", 0), "demo");
    let long = "w ".repeat(30);
    assert_eq!(synthetic_generate(&long, 64).split_whitespace().count(), 7 + 24);
    assert_eq!(
        synthetic_workflow_generate(&doc("{}")),
        "demo model response: admitted request from Rust Temporal worker"
    );
    assert_eq!(
        synthetic_workflow_generate(&doc(r#"{"prompt":"a b"}"#)),
        "demo model response: admitted request from Rust Temporal worker: a b"
    );
    assert_eq!(synthetic_workflow_generate(&doc(r#"{"max_tokens":0}"#)), "demo");
    assert_eq!(summarize("a b c", 2), "a b");
}

#[test]
fn limits_and_estimates() {
    assert_eq!(max_tokens(&doc("{}")), 64);
    assert_eq!(max_tokens(&doc(r#"{"max_tokens":7}"#)), 7);
    assert_eq!(max_tokens(&doc(r#"{"max_tokens":-7}"#)), 64);
    assert_eq!(estimate_tokens(""), 1);
    assert_eq!(estimate_tokens("a b"), 2);
    assert_eq!(estimate_stream_delta_tokens(""), 0);
    assert_eq!(estimate_stream_delta_tokens(" "), 1);
}

#[test]
fn payloads_are_built_for_the_runtime() {
    let payload = completion_payload("m", &doc(r#"{"prompt":["a","b"],"max_tokens":3}"#));
    assert_eq!(
        payload,
        Json::Object(vec![
            ("model".to_string(), Json::Text("m".to_string())),
            (
                "messages".to_string(),
                Json::Array(vec![Json::Object(vec![
                    ("role".to_string(), Json::Text("user".to_string())),
                    ("content".to_string(), Json::Text("a\nb".to_string())),
                ])]),
            ),
            ("max_tokens".to_string(), Json::Unsigned(3)),
            ("stream".to_string(), Json::Bool(false)),
        ])
    );
    let body = doc(r#"{"messages":[{"role":"user","content":"hi"}]}"#);
    let payload = workflow_payload("m", &body, true);
    assert_eq!(get(Some(&payload), "messages"), get(Some(&body), "messages"));
    assert_eq!(get(Some(&payload), "stream"), Some(&Json::Bool(true)));
    assert_eq!(
        message_text(&doc(r#"{"choices":[{"message":{"content":"yes"}}]}"#)),
        "yes"
    );
    assert_eq!(message_text(&doc(r#"{"choices":[]}"#)), "");
}

#[test]
fn whole_answers_are_completions() {
    let body = completion_body("r", "m", "/v1/chat", "a b", "one two three");
    assert_eq!(as_str(get(Some(&body), "id")), Some("chatcmpl-r"));
    assert_eq!(as_str(get(Some(&body), "object")), Some("chat.completion"));
    let usage = get(Some(&body), "usage");
    assert_eq!(as_u64(get(usage, "prompt_tokens")), Some(2));
    assert_eq!(as_u64(get(usage, "completion_tokens")), Some(3));
    assert_eq!(as_u64(get(usage, "total_tokens")), Some(5));
    assert_eq!(extract_text(&body), "one two three");
    let plain = completion_body("r", "m", "/Generate", "a b", "one");
    assert_eq!(as_str(get(Some(&plain), "id")), Some("cmpl-r"));
    assert_eq!(as_str(get(Some(&plain), "object")), Some("text_completion"));
    let choice = first(get(Some(&plain), "choices"));
    assert_eq!(as_str(get(choice, "text")), Some("one"));
    assert_eq!(as_str(get(choice, "finish_reason")), Some("stop"));
    let events = completion_events("r", "m", "/Generate", "a b", "one");
    assert_eq!(events.len(), 2);
    assert_eq!(body_of(&events[0]), &plain);
    assert_eq!(events[1], ResponseEvent::Done { generated_tokens: 1 });
    let events = workflow_completion_events("r", "m", "one two");
    let usage = get(Some(body_of(&events[0])), "usage");
    assert_eq!(get(usage, "prompt_tokens"), None);
    assert_eq!(as_u64(get(usage, "total_tokens")), Some(2));
    assert_eq!(events[1], ResponseEvent::Done { generated_tokens: 2 });
}

#[test]
fn streamed_answers_are_words_and_one_end() {
    for chat in [true, false] {
        let path = if chat { "/chat" } else { "/Generate" };
        let events = stream_events("r", "m", path, "one  two");
        assert_eq!(events.len(), 4);
        assert_eq!(extract_text(body_of(&events[0])), "one ");
        assert_eq!(extract_text(body_of(&events[1])), "two ");
        assert_eq!(
            as_str(get(Some(body_of(&events[0])), "object")),
            Some(if chat { "chat.completion.chunk" } else { "text_completion.chunk" })
        );
        assert_eq!(
            events[2],
            ResponseEvent::Chunk {
                data: ChunkData::Text("[DONE]".to_string()),
                token_estimate: 0,
            }
        );
        assert_eq!(events[3], ResponseEvent::Done { generated_tokens: 2 });
    }
    let events = workflow_stream_events("r", "m", "one");
    assert_eq!(as_str(get(Some(body_of(&events[0])), "id")), Some("chatcmpl-r"));
    assert_eq!(workflow_stream_events("r", "m", "").len(), 2);
}

#[test]
fn relays_pass_events_on() {
    let mut relay = Relay::new();
    let first = r#"{"choices":[{"delta":{"content":"two words"}}]}"#;
    let events = relay.push(format!("data: {first}\n\ndata: [DO").as_bytes());
    assert_eq!(events, vec![first]);
    assert_eq!(
        relay.relay(first.to_string()),
        Ok(RelayStep::Pass(ResponseEvent::Chunk {
            data: ChunkData::Text(first.to_string()),
            token_estimate: 2,
        }))
    );
    assert_eq!(relay.generated(), 2);
    let value = doc(r#"{"choices":[{"delta":{}}]}"#);
    assert_eq!(
        relay.relay_value("x".to_string(), &value),
        ResponseEvent::Chunk { data: ChunkData::Text("x".to_string()), token_estimate: 0 }
    );
    assert_eq!(relay.relay("{".to_string()).unwrap_err().split(' ').next(), Some("EOF"));
    assert_eq!(relay.push(b"NE]\n\n"), vec!["[DONE]"]);
    assert_eq!(
        relay.relay("[DONE]".to_string()),
        Ok(RelayStep::Finish(vec![
            ResponseEvent::Chunk {
                data: ChunkData::Text("[DONE]".to_string()),
                token_estimate: 0,
            },
            ResponseEvent::Done { generated_tokens: 2 },
        ]))
    );
    assert_eq!(relay.end(), ResponseEvent::Done { generated_tokens: 2 });
    assert_eq!(
        streamed_delta_text(r#"{"choices":[{"delta":{"content":"hi"}}]}"#),
        Ok("hi".to_string())
    );
    assert_eq!(streamed_delta_text("[]"), Ok(String::new()));
}

#[test]
fn activities_report_their_outcome() {
    let result = activity_result("r".to_string(), Ok(5)).unwrap();
    assert_eq!(result.request_id, "r");
    assert_eq!(result.generated_tokens, 5);
    assert_eq!(result.finish_reason, "stop");
    assert_eq!(
        activity_result("r".to_string(), Err("boom".to_string())).unwrap_err(),
        ResponseEvent::Error { message: "boom".to_string() }
    );
}

#[test]
fn generations_are_counted_in_and_out() {
    let body = doc(r#"{"model":"m"}"#);
    let run = WorkRun::start_job(&body, "m");
    assert_eq!(run.next(), &WorkStage::CountIn);
    let run = run.after(WorkEvent::Done);
    assert_eq!(run.next(), &WorkStage::Generate);
    let run = run.after(WorkEvent::Generated(Err("boom".to_string())));
    assert_eq!(run.next(), &WorkStage::CountOut(Err("boom".to_string())));
    let run = run.after(WorkEvent::Done);
    assert_eq!(run.next(), &WorkStage::Over(Err("boom".to_string())));
    let run = WorkRun::start_job(&body, "other");
    assert_eq!(run.next(), &WorkStage::Refuse);
    assert_eq!(run.after(WorkEvent::Done).next(), &WorkStage::Over(Ok(0)));
    let run = WorkRun::start_workflow()
        .after(WorkEvent::Done)
        .after(WorkEvent::Generated(Err("boom".to_string())))
        .after(WorkEvent::Done);
    assert_eq!(run.next(), &WorkStage::Report("boom".to_string()));
    let run = run.after(WorkEvent::Fault("pipe".to_string()));
    assert_eq!(run.next(), &WorkStage::Over(Err("boom".to_string())));
    let run = WorkRun::start_workflow().after(WorkEvent::Fault("pipe".to_string()));
    assert_eq!(run.next(), &WorkStage::Over(Err("pipe".to_string())));
    let run = WorkRun::start_workflow()
        .after(WorkEvent::Done)
        .after(WorkEvent::Generated(Ok(3)))
        .after(WorkEvent::Done);
    assert_eq!(run.next(), &WorkStage::Over(Ok(3)));
}

#[test]
fn workflow_answers_follow_the_wish_and_the_backend() {
    let streamed = doc(r#"{"stream":true}"#);
    let whole = doc(r#"{"stream":false}"#);
    assert_eq!(workflow_answer(&streamed, Backend::OpenAi), WorkflowAnswer::Words);
    assert_eq!(workflow_answer(&streamed, Backend::Synthetic), WorkflowAnswer::Words);
    assert_eq!(workflow_answer(&whole, Backend::OpenAi), WorkflowAnswer::Relayed);
    assert_eq!(workflow_answer(&whole, Backend::Synthetic), WorkflowAnswer::Whole);
}

fn sent(mut run: AnswerRun) -> (Vec<ResponseEvent>, Vec<(bool, bool)>, u64) {
    let (mut events, mut flags) = (Vec::new(), Vec::new());
    loop {
        match run.next(false) {
            AnswerAction::Write { event, beat, pause } => {
                events.push(event);
                flags.push((beat, pause));
            }
            AnswerAction::Finish(generated_tokens) => return (events, flags, generated_tokens),
            AnswerAction::Fail(_) => panic!(),
        }
    }
}

#[test]
fn answers_are_sent_in_order() {
    let words = doc(r#"{"stream":true}"#);
    let (events, flags, generated) =
        sent(AnswerRun::for_job(&words, "r", "m", "/chat", "p", "one two"));
    assert_eq!(events, stream_events("r", "m", "/chat", "one two"));
    assert_eq!(flags, vec![(true, true), (true, true), (false, false), (false, false)]);
    assert_eq!(generated, 2);
    let (events, flags, generated) =
        sent(AnswerRun::for_job(&doc("{}"), "r", "m", "/Generate", "a b", "one two"));
    assert_eq!(events, completion_events("r", "m", "/Generate", "a b", "one two"));
    assert_eq!(flags, vec![(true, false), (false, false)]);
    assert_eq!(generated, 2);
    let (events, flags, generated) = sent(AnswerRun::for_workflow(false, "r", "m", ""));
    assert_eq!(events, workflow_completion_events("r", "m", ""));
    assert_eq!(flags, vec![(true, false), (false, false)]);
    assert_eq!(generated, 1);
    let (events, _, generated) = sent(AnswerRun::for_workflow(true, "r", "m", ""));
    assert_eq!(events, workflow_stream_events("r", "m", ""));
    assert_eq!(generated, 0);
}

#[test]
fn cancelled_workflows_send_no_more_words() {
    let mut run = AnswerRun::for_workflow(true, "r", "m", "one two");
    assert!(matches!(run.next(false), AnswerAction::Write { .. }));
    assert_eq!(run.next(true), AnswerAction::Fail("generation cancelled".to_string()));
    let mut last = AnswerRun::for_workflow(true, "r", "m", "one");
    assert!(matches!(last.next(false), AnswerAction::Write { .. }));
    assert!(matches!(last.next(true), AnswerAction::Write { .. }));
    assert!(matches!(last.next(true), AnswerAction::Write { .. }));
    assert_eq!(last.next(true), AnswerAction::Finish(1));
    let mut whole = AnswerRun::for_workflow(false, "r", "m", "one");
    assert!(matches!(whole.next(true), AnswerAction::Write { .. }));
    assert_eq!(unless_cancelled(true), Err("generation cancelled".to_string()));
    assert_eq!(unless_cancelled(false), Ok(()));
}
