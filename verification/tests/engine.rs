use inference_gateway::engine::{
    check_model, completions_url, estimate_tokens, extract_prompt, heartbeat_goes_on,
    runtime_payload, select_backend, select_endpoint, started_result, synthetic_events,
    token_result, AttemptAction, AttemptEvent, AttemptRun, Backend, EngineEvent, EngineRun,
    EngineStage, GenerationUsage, JobAction, JobDisposition, JobEvent, JobRun, RuntimeRequest,
    StreamSettings,
};
use inference_gateway::json::{as_array, as_bool, as_str, as_u64, get, parse_json, Json};
use inference_gateway::streams::{ConsumedJob, GenerationJob, ResultEvent};

fn message(role: &str, content: &str) -> Json {
    Json::Object(vec![
        ("role".to_string(), Json::Text(role.to_string())),
        ("content".to_string(), Json::Text(content.to_string())),
    ])
}

fn request(messages: Option<Vec<Json>>, prompt: Option<&str>) -> RuntimeRequest {
    RuntimeRequest {
        model: "model".to_string(),
        messages,
        prompt: prompt.map(str::to_string),
        max_tokens: 10,
        stop: Vec::new(),
    }
}

fn job(deadline_unix_ms: u64) -> GenerationJob {
    GenerationJob {
        schema_version: 1,
        request_id: "request".to_string(),
        model_id: "model".to_string(),
        model_revision: String::new(),
        model_endpoint: String::new(),
        request_json: Vec::new(),
        deadline_unix_ms,
        reservation_id: "reservation".to_string(),
        cache: None,
    }
}

fn usage() -> GenerationUsage {
    GenerationUsage {
        prompt_tokens: 3,
        generated_tokens: 5,
        finish_reason: "stop".to_string(),
    }
}

#[test]
fn prompt_is_assembled_from_messages() {
    let request = RuntimeRequest {
        model: "model".to_string(),
        messages: Some(vec![message("user", "hello"), message("assistant", "world")]),
        prompt: None,
        max_tokens: 10,
        stop: Vec::new(),
    };
    assert_eq!(extract_prompt(&request), "hello\nworld");
}

#[test]
fn prompts_fall_back_to_text() {
    assert_eq!(extract_prompt(&request(None, Some("hi"))), "hi");
    assert_eq!(extract_prompt(&request(None, None)), "");
    assert_eq!(extract_prompt(&request(Some(vec![]), Some("hi"))), "");
    assert_eq!(
        extract_prompt(&request(Some(vec![Json::Null, message("user", "x")]), None)),
        "x"
    );
    assert_eq!(estimate_tokens("a  b c"), 3);
    assert_eq!(estimate_tokens(""), 0);
}

#[test]
fn backends_and_endpoints_are_selected() {
    assert_eq!(select_backend("synthetic"), Backend::Synthetic);
    assert_eq!(select_backend("mlx"), Backend::OpenAiCompatible);
    let some = |text: &str| Some(text.to_string());
    let empty = String::new;
    assert_eq!(select_endpoint(some("e"), "m".to_string(), some("o"), some("x")), "e");
    assert_eq!(select_endpoint(some(""), "m".to_string(), some("o"), some("x")), "m");
    assert_eq!(select_endpoint(None, empty(), some("o"), some("x")), "o");
    assert_eq!(select_endpoint(None, empty(), None, some("x")), "x");
    assert_eq!(select_endpoint(None, empty(), None, None), "http://127.0.0.1:18000");
    assert_eq!(completions_url("", "http://e//"), "http://e/v1/chat/completions");
    assert_eq!(completions_url("http://j", "http://e"), "http://j/v1/chat/completions");
    assert_eq!(StreamSettings::default().reclaim_idle_seconds, 90);
    assert_eq!(check_model("model", "model"), Ok(()));
    assert_eq!(
        check_model("other", "model"),
        Err("model other is not loaded by this engine".to_string())
    );
}

#[test]
fn payloads_carry_messages_limits_and_stops() {
    let mut asked = request(Some(vec![message("user", "hi")]), Some("unused"));
    asked.stop = vec!["[END]".to_string()];
    let payload = runtime_payload(&asked);
    assert_eq!(as_str(get(Some(&payload), "model")), Some("model"));
    assert_eq!(as_array(get(Some(&payload), "messages")).unwrap(), &vec![message("user", "hi")]);
    assert_eq!(as_u64(get(Some(&payload), "max_tokens")), Some(10));
    assert_eq!(as_bool(get(Some(&payload), "stream")), Some(true));
    assert_eq!(
        as_bool(get(get(Some(&payload), "stream_options"), "include_usage")),
        Some(true)
    );
    assert_eq!(
        get(Some(&payload), "stop"),
        Some(&Json::Array(vec![Json::Text("[END]".to_string())]))
    );
    for asked in [request(None, Some("hi")), request(Some(vec![]), Some("hi"))] {
        let payload = runtime_payload(&asked);
        assert_eq!(
            as_array(get(Some(&payload), "messages")).unwrap(),
            &vec![message("user", "hi")]
        );
        assert_eq!(get(Some(&payload), "stop"), None);
    }
}

#[test]
fn runtime_events_add_text_and_usage() {
    let mut usage = GenerationUsage::default();
    let added = usage.take_data(r#"{"choices":[{"delta":{"content":"two words"}}]}"#);
    assert_eq!(added, Ok(Some("two words".to_string())));
    assert_eq!(usage.generated_tokens, 2);
    let added = usage.take_data(r#"{"choices":[{"text":" "}]}"#);
    assert_eq!(added, Ok(Some(" ".to_string())));
    assert_eq!(usage.generated_tokens, 3);
    let added = usage.take_data(r#"{"choices":[{"delta":{"content":null},"text":"x"}]}"#);
    assert_eq!(added, Ok(None));
    let added = usage.take_data(r#"{"choices":[{"delta":{},"finish_reason":"length"}]}"#);
    assert_eq!(added, Ok(None));
    assert_eq!(usage.finish_reason, "length");
    let added = usage
        .take_data(r#"{"choices":[],"usage":{"prompt_tokens":7,"completion_tokens":40}}"#);
    assert_eq!(added, Ok(None));
    assert_eq!(usage.prompt_tokens, 7);
    assert_eq!(usage.generated_tokens, 40);
    assert_eq!(usage.take_data(r#"{"usage":null}"#), Ok(None));
    assert_eq!(usage.generated_tokens, 40);
    usage.close(&request(None, Some("a b")));
    assert_eq!(usage.prompt_tokens, 7);
    assert_eq!(usage.finish_reason, "length");
    let value = parse_json(r#"{"choices":[{"delta":{"content":"x"}}]}"#).unwrap();
    assert_eq!(usage.take_event(&value), Some("x".to_string()));
    assert_eq!(usage.generated_tokens, 41);
    let added = usage.take_data(
        r#"{"choices":[{"delta":{"content":"y z"}}],"usage":{"completion_tokens":50}}"#,
    );
    assert_eq!(added, Ok(Some("y z".to_string())));
    assert_eq!(usage.generated_tokens, 50);
}

#[test]
fn undecodable_events_are_errors() {
    let mut usage = GenerationUsage::default();
    assert_eq!(
        usage.take_data("{"),
        Err("decode model SSE event: {: EOF while parsing an object at line 1 column 1".to_string())
    );
    assert_eq!(usage, GenerationUsage::default());
}

#[test]
fn missing_prompt_counts_are_filled_in() {
    let mut usage = GenerationUsage::default();
    usage.close(&request(None, Some("a b c")));
    assert_eq!(usage.prompt_tokens, 3);
    assert_eq!(usage.generated_tokens, 0);
    assert_eq!(usage.finish_reason, "");
}

#[test]
fn synthetic_tokens_echo_the_prompt() {
    let token = |text: &str, generated_tokens: u64| AttemptEvent::Token {
        text: text.to_string(),
        generated_tokens,
    };
    let ended = |generated_tokens: u64| {
        AttemptEvent::Ended(GenerationUsage {
            prompt_tokens: 2,
            generated_tokens,
            finish_reason: "stop".to_string(),
        })
    };
    assert_eq!(
        synthetic_events(&request(None, Some("a b"))),
        vec![
            token("Generated ", 1),
            token("response ", 2),
            token("for: ", 3),
            token("a ", 4),
            token("b ", 5),
            ended(5),
        ]
    );
    let mut short = request(None, Some("a b"));
    short.max_tokens = 1;
    assert_eq!(synthetic_events(&short), vec![token("Generated ", 1), ended(1)]);
}

fn consumed() -> ConsumedJob {
    ConsumedJob { entry_id: "1-0".to_string(), job: job(0) }
}

#[test]
fn engines_take_new_jobs_first() {
    let run = EngineRun::start();
    assert_eq!(run.next(), &EngineStage::Next);
    let run = run.after(EngineEvent::Job(None));
    assert_eq!(run.next(), &EngineStage::Reclaim);
    let run = run.after(EngineEvent::Job(None));
    assert_eq!(run.next(), &EngineStage::Next);
    let run = run.after(EngineEvent::Job(Some(consumed())));
    assert_eq!(run.next(), &EngineStage::Run(consumed()));
    let run = run.after(EngineEvent::Left(JobDisposition::Acknowledge));
    assert_eq!(run.next(), &EngineStage::Acknowledge("1-0".to_string()));
    assert_eq!(run.after(EngineEvent::Done).next(), &EngineStage::Next);
}

#[test]
fn engines_acknowledge_only_what_is_over() {
    for left in [JobDisposition::Pending, JobDisposition::Interrupted] {
        let run = EngineRun::start()
            .after(EngineEvent::Job(None))
            .after(EngineEvent::Job(Some(consumed())))
            .after(EngineEvent::Left(left));
        assert_eq!(run.next(), &EngineStage::Next);
    }
}

#[test]
fn engines_connect_again_where_waiting_failed() {
    let run = EngineRun::start().after(EngineEvent::Fault);
    assert_eq!(run.next(), &EngineStage::Reconnect);
    assert_eq!(run.after(EngineEvent::Done).next(), &EngineStage::Next);
    let lost = EngineRun::start().after(EngineEvent::Fault).after(EngineEvent::Fault);
    assert_eq!(lost.next(), &EngineStage::Stopped);
    let stale = EngineRun::start().after(EngineEvent::Job(None)).after(EngineEvent::Fault);
    assert_eq!(stale.next(), &EngineStage::Stopped);
}

#[test]
fn results_name_the_attempt() {
    let started = started_result("r", "a");
    assert_eq!(started.schema_version, 1);
    assert_eq!(started.event, Some(ResultEvent::AttemptStarted));
    let token = token_result("r", "a", "x ".to_string(), 4);
    assert_eq!(token.request_id, "r");
    assert_eq!(token.attempt_id, "a");
    assert_eq!(
        token.event,
        Some(ResultEvent::Token { text: "x ".to_string(), cumulative_generated_tokens: 4 })
    );
}

#[test]
fn heartbeats_stop_when_the_lease_is_lost() {
    assert!(heartbeat_goes_on(Some(true)));
    assert!(!heartbeat_goes_on(Some(false)));
    assert!(heartbeat_goes_on(None));
}

#[test]
fn jobs_settle_then_publish_then_acknowledge() {
    let attempt = "00000000-0000-0000-0000-000000000007";
    let run = JobRun::start_at(&job(0), "engine", 7, 1_000);
    assert_eq!(run.action(), JobAction::ReadStatus);
    let run = run.after(JobEvent::Status(Some("queued".to_string())));
    let owner = format!("engine:{attempt}");
    assert_eq!(run.action(), JobAction::AcquireLease { owner: owner.clone() });
    let run = run.after(JobEvent::Lease(true));
    assert_eq!(
        run.action(),
        JobAction::Attempt { attempt_id: attempt.to_string(), owner: owner.clone() }
    );
    let run = run.after(JobEvent::Attempted(Ok(usage())));
    assert_eq!(run.action(), JobAction::ReleaseLease { owner });
    let run = run.after(JobEvent::Done);
    assert_eq!(
        run.action(),
        JobAction::SettleQuota { reservation_id: "reservation".to_string(), generated_tokens: 5 }
    );
    let run = run.after(JobEvent::Done);
    match run.action() {
        JobAction::Publish(result) => {
            assert_eq!(result.request_id, "request");
            assert_eq!(result.attempt_id, attempt);
            assert_eq!(
                result.event,
                Some(ResultEvent::Completed {
                    prompt_tokens: 3,
                    generated_tokens: 5,
                    finish_reason: "stop".to_string(),
                })
            );
        }
        _ => panic!(),
    }
    let run = run.after(JobEvent::Done);
    assert_eq!(run.action(), JobAction::Leave(JobDisposition::Acknowledge));
}

#[test]
fn failed_attempts_use_nothing_and_are_published() {
    let run = JobRun::start_at(&job(0), "engine", 7, 1_000)
        .after(JobEvent::Status(None))
        .after(JobEvent::Lease(true))
        .after(JobEvent::Attempted(Err("boom".to_string())))
        .after(JobEvent::Done);
    assert_eq!(
        run.action(),
        JobAction::SettleQuota { reservation_id: "reservation".to_string(), generated_tokens: 0 }
    );
    match run.after(JobEvent::Done).action() {
        JobAction::Publish(result) => assert_eq!(
            result.event,
            Some(ResultEvent::Failed {
                code: "backend_error".to_string(),
                message: "boom".to_string(),
                retryable: false,
            })
        ),
        _ => panic!(),
    }
}

#[test]
fn completed_jobs_have_been_settled() {
    let faulted = JobRun::start_at(&job(0), "engine", 7, 1_000)
        .after(JobEvent::Status(None))
        .after(JobEvent::Lease(true))
        .after(JobEvent::Attempted(Ok(usage())))
        .after(JobEvent::Done)
        .after(JobEvent::Fault);
    assert_eq!(faulted.action(), JobAction::Leave(JobDisposition::Interrupted));
    let again = JobRun::start_at(&job(0), "other", 8, 1_000)
        .after(JobEvent::Status(Some("running".to_string())));
    assert!(matches!(again.action(), JobAction::AcquireLease { .. }));
    let found = JobRun::start_at(&job(0), "other", 8, 1_000)
        .after(JobEvent::Status(Some("completed".to_string())));
    assert_eq!(found.action(), JobAction::Leave(JobDisposition::Acknowledge));
}

#[test]
fn attempts_publish_their_start_before_their_tokens() {
    let published = |run: &AttemptRun| match run.action() {
        AttemptAction::Publish(result) => {
            assert_eq!(result.request_id, "request");
            assert_eq!(result.attempt_id, "attempt");
            result.event.unwrap()
        }
        _ => panic!(),
    };
    let run = AttemptRun::start(&job(0), "attempt", "model");
    assert_eq!(run.action(), AttemptAction::ReadRequest);
    let run = run.after(AttemptEvent::Done);
    assert_eq!(published(&run), ResultEvent::AttemptStarted);
    let run = run.after(AttemptEvent::Done);
    assert_eq!(run.action(), AttemptAction::Generate);
    let run = run.after(AttemptEvent::Token { text: "x ".to_string(), generated_tokens: 1 });
    assert_eq!(
        published(&run),
        ResultEvent::Token { text: "x ".to_string(), cumulative_generated_tokens: 1 }
    );
    let run = run.after(AttemptEvent::Done);
    assert_eq!(run.action(), AttemptAction::Generate);
    let given = GenerationUsage { finish_reason: String::new(), ..usage() };
    let run = run.after(AttemptEvent::Ended(given));
    assert_eq!(run.action(), AttemptAction::Leave);
    assert_eq!(run.outcome(), Some(Ok(usage())));
}

#[test]
fn attempts_fail_with_what_went_wrong() {
    let other = AttemptRun::start(&job(0), "attempt", "another");
    assert_eq!(other.action(), AttemptAction::Leave);
    assert_eq!(
        other.after(AttemptEvent::Done).outcome(),
        Some(Err("model model is not loaded by this engine".to_string()))
    );
    let run = AttemptRun::start(&job(0), "attempt", "model");
    assert_eq!(
        run.after(AttemptEvent::Fault("boom".to_string())).outcome(),
        Some(Err("boom".to_string()))
    );
    let run = AttemptRun::start(&job(0), "attempt", "model").after(AttemptEvent::Done);
    assert_eq!(run.outcome(), None);
}

#[test]
fn expired_jobs_are_cancelled_and_reported() {
    let run = JobRun::start_at(&job(999), "engine", 7, 1_000);
    assert_eq!(
        run.action(),
        JobAction::CancelQuota { reservation_id: "reservation".to_string() }
    );
    let run = run.after(JobEvent::Done);
    match run.action() {
        JobAction::Publish(result) => {
            assert_eq!(result.attempt_id, "engine");
            assert_eq!(
                result.event,
                Some(ResultEvent::Failed {
                    code: "deadline_exceeded".to_string(),
                    message: "generation deadline exceeded".to_string(),
                    retryable: false,
                })
            );
        }
        _ => panic!(),
    }
    assert_eq!(
        run.after(JobEvent::Done).action(),
        JobAction::Leave(JobDisposition::Acknowledge)
    );
    let in_time = JobRun::start_at(&job(1_000), "engine", 7, 1_000);
    assert_eq!(in_time.action(), JobAction::ReadStatus);
    let past = JobRun::start(&job(1), "engine");
    assert_eq!(
        past.action(),
        JobAction::CancelQuota { reservation_id: "reservation".to_string() }
    );
}

#[test]
fn jobs_of_others_are_left() {
    let start = || JobRun::start_at(&job(0), "engine", 7, 1_000);
    let completed = start().after(JobEvent::Status(Some("completed".to_string())));
    assert_eq!(completed.action(), JobAction::Leave(JobDisposition::Acknowledge));
    let held = start().after(JobEvent::Status(None)).after(JobEvent::Lease(false));
    assert_eq!(held.action(), JobAction::Leave(JobDisposition::Pending));
    let fault = start().after(JobEvent::Fault);
    assert_eq!(fault.action(), JobAction::Leave(JobDisposition::Interrupted));
    let still = fault.after(JobEvent::Done);
    assert_eq!(still.action(), JobAction::Leave(JobDisposition::Interrupted));
}
