use inference_gateway::streams::{
    accept_job, validate_schema, Command, GenerationJob, GenerationResult, QuotaError, QuotaLimits,
    QuotaReservation, ResultEvent, ResultSubscription, ScriptCall, StreamsClient, StreamsConfig,
    StreamsError, CANCEL_QUOTA_LUA, RECONCILE_QUOTA_LUA, RELEASE_LEASE_LUA, RENEW_LEASE_LUA,
    RESERVE_QUOTA_LUA, SCHEMA_VERSION,
};

fn client() -> StreamsClient {
    StreamsClient { config: StreamsConfig::default() }
}

fn job() -> GenerationJob {
    GenerationJob {
        schema_version: SCHEMA_VERSION,
        request_id: "request-1".to_string(),
        model_id: "model".to_string(),
        model_revision: String::new(),
        model_endpoint: String::new(),
        request_json: b"{}".to_vec(),
        deadline_unix_ms: 0,
        reservation_id: "reservation".to_string(),
        cache: None,
    }
}

fn result(event: Option<ResultEvent>) -> GenerationResult {
    GenerationResult {
        schema_version: SCHEMA_VERSION,
        request_id: "request-1".to_string(),
        attempt_id: "attempt-1".to_string(),
        event,
    }
}

fn line(command: &Command) -> String {
    command.words.join(" ")
}

#[test]
fn result_and_status_keys_are_stable() {
    assert_eq!(StreamsClient::result_stream("abc"), "inference:results:abc");
    assert_eq!(StreamsClient::status_key("abc"), "inference:status:abc");
}

#[test]
fn defaults_are_an_hour_ten_minutes_and_a_minute() {
    let config = StreamsConfig::default();
    assert_eq!(config, StreamsConfig::from_seconds(3_600, 600, 60));
    assert_eq!(config.lease_duration_ms, 60_000);
    assert_eq!(
        StreamsConfig::from_seconds(0, 0, u64::MAX).lease_duration_ms,
        u64::MAX.wrapping_mul(1000)
    );
}

#[test]
fn jobs_are_published_and_recorded_as_queued() {
    let entry = client().publish_generation(&job(), b"bytes".to_vec()).unwrap();
    assert_eq!(entry.stream, "inference:requests");
    assert_eq!(entry.field, "payload");
    assert_eq!(entry.payload, b"bytes");
    let commands = client().record_queued(&job(), "7-0");
    assert_eq!(commands.len(), 2);
    assert_eq!(
        line(&commands[0]),
        "HSET inference:status:request-1 state queued model_id model request_entry_id 7-0"
    );
    assert_eq!(line(&commands[1]), "EXPIRE inference:status:request-1 3600");
}

#[test]
fn other_schemas_are_refused() {
    assert_eq!(validate_schema(1), Ok(()));
    let error = validate_schema(2).unwrap_err();
    assert_eq!(error, StreamsError::UnsupportedSchema { version: 2 });
    assert_eq!(error.message(), "unsupported inference Streams schema version 2");
    let mut other = job();
    other.schema_version = 2;
    assert_eq!(client().publish_generation(&other, vec![]).unwrap_err(), error);
    assert_eq!(accept_job("1-0".to_string(), Some(other)).unwrap_err(), error);
    assert_eq!(
        accept_job("1-0".to_string(), None).unwrap_err().message(),
        "decode generation message"
    );
    let consumed = accept_job("1-0".to_string(), Some(job())).unwrap();
    assert_eq!(consumed.entry_id, "1-0");
    assert_eq!(consumed.job, job());
}

#[test]
fn events_are_recorded_by_whether_they_are_terminal() {
    let token = result(Some(ResultEvent::Token {
        text: "hello ".to_string(),
        cumulative_generated_tokens: 1,
    }));
    let entry = client().publish_result(&token, vec![1]).unwrap();
    assert_eq!(entry.stream, "inference:results:request-1");
    let commands: Vec<String> = client().record_result(&token, "1-1").iter().map(line).collect();
    assert_eq!(
        commands,
        vec![
            "HSET inference:status:request-1 state running active_attempt_id attempt-1",
            "EXPIRE inference:results:request-1 3600",
            "EXPIRE inference:status:request-1 3600",
        ]
    );
    for event in [
        ResultEvent::Completed {
            prompt_tokens: 1,
            generated_tokens: 2,
            finish_reason: "stop".to_string(),
        },
        ResultEvent::Failed {
            code: "backend_error".to_string(),
            message: "no".to_string(),
            retryable: false,
        },
    ] {
        let commands: Vec<String> =
            client().record_result(&result(Some(event)), "1-2").iter().map(line).collect();
        assert_eq!(
            commands,
            vec![
                "HSET inference:status:request-1 state completed active_attempt_id attempt-1",
                "HSET inference:status:request-1 terminal_event_id 1-2",
                "EXPIRE inference:results:request-1 600",
                "EXPIRE inference:status:request-1 600",
            ]
        );
    }
    let mut other = result(None);
    other.schema_version = 0;
    assert_eq!(
        client().publish_result(&other, vec![]).unwrap_err(),
        StreamsError::UnsupportedSchema { version: 0 }
    );
}

#[test]
fn a_group_that_is_there_is_no_fault() {
    assert_eq!(
        line(&client().create_group()),
        "XGROUP CREATE inference:requests inference-engines 0-0 MKSTREAM"
    );
    assert!(client().consumer("engine-1".to_string(), None).is_ok());
    let busy = "BUSYGROUP: Consumer Group name already exists".to_string();
    let jobs = client().consumer("engine-1".to_string(), Some(busy)).unwrap_or_else(|_| panic!());
    assert_eq!(
        line(&jobs.next(5000)),
        "XREADGROUP GROUP inference-engines engine-1 BLOCK 5000 COUNT 1 STREAMS inference:requests >"
    );
    assert_eq!(
        line(&jobs.reclaim_stale(90_000)),
        "XAUTOCLAIM inference:requests inference-engines engine-1 90000 0-0 COUNT 1"
    );
    assert_eq!(line(&jobs.acknowledge("3-0")), "XACK inference:requests inference-engines 3-0");
    let fault = client().consumer("engine-1".to_string(), Some("broken pipe".to_string()));
    assert_eq!(fault.err(), Some("broken pipe".to_string()));
}

#[test]
fn subscriptions_start_at_the_beginning_or_after_an_event() {
    assert_eq!(
        line(&client().probe("abc")),
        "EXISTS inference:results:abc inference:status:abc"
    );
    assert!(client().subscribe("abc", None, 0).is_none());
    let mut subscription = client().subscribe("abc", None, 1).unwrap();
    assert_eq!(subscription.last_event_id(), "0-0");
    assert_eq!(
        line(&subscription.next(100)),
        "XREAD BLOCK 100 COUNT 1 STREAMS inference:results:abc 0-0"
    );
    let entry = subscription.accept("5-0".to_string(), Some(result(None))).unwrap();
    assert_eq!(entry.event_id, "5-0");
    assert_eq!(subscription.last_event_id(), "5-0");
    assert_eq!(
        subscription.accept("6-0".to_string(), None).unwrap_err(),
        StreamsError::Undecodable
    );
    assert_eq!(subscription.last_event_id(), "5-0");
    let resumed = client().subscribe("abc", Some("4-2"), 2).unwrap();
    assert_eq!(resumed.last_event_id(), "4-2");
}

#[test]
fn reads_go_on_from_the_last_entry() {
    let answers = || {
        vec![
            ("1-0", Some(result(None))),
            ("2-0", None),
            ("2-0", Some(result(None))),
            ("3-0", Some(result(None))),
        ]
    };
    let mut live = client().subscribe("abc", None, 1).unwrap();
    let mut commands = Vec::new();
    let mut taken = Vec::new();
    for (id, decoded) in answers() {
        commands.push(line(&live.next(100)));
        if let Ok(entry) = live.accept(id.to_string(), decoded) {
            taken.push(entry.event_id);
        }
    }
    assert_eq!(taken, vec!["1-0", "2-0", "3-0"]);
    assert_eq!(live.last_event_id(), "3-0");
    let cursors: Vec<&str> =
        commands.iter().map(|command| command.rsplit(' ').next().unwrap()).collect();
    assert_eq!(cursors, vec!["0-0", "1-0", "1-0", "2-0"]);
    let mut resumed = client().subscribe("abc", Some("1-0"), 1).unwrap();
    for ((id, decoded), command) in answers().into_iter().zip(commands).skip(1) {
        assert_eq!(line(&resumed.next(100)), command);
        let _ = resumed.accept(id.to_string(), decoded);
    }
    assert_eq!(resumed.last_event_id(), live.last_event_id());
}

#[test]
fn failed_reads_are_tried_again_three_times() {
    let delays: Vec<Option<u64>> = (0..5).map(ResultSubscription::retry_delay_ms).collect();
    assert_eq!(delays, vec![Some(50), Some(100), Some(200), None, None]);
}

#[test]
fn a_status_needs_a_state() {
    assert_eq!(
        line(&client().read_status("abc")),
        "HMGET inference:status:abc state model_id active_attempt_id terminal_event_id"
    );
    let some = |text: &str| Some(text.to_string());
    assert!(client().status(&vec![None, some("model")]).is_none());
    assert!(client().status(&vec![some(""), some("model")]).is_none());
    assert!(client().status(&vec![]).is_none());
    let status = client().status(&vec![some("queued"), some("model"), None, some("")]).unwrap();
    assert_eq!(status.state, "queued");
    assert_eq!(status.model_id, "model");
    assert_eq!(status.active_attempt_id, None);
    assert_eq!(status.terminal_event_id, None);
    let status = client().status(&vec![some("completed"), None, some("a"), some("1-2")]).unwrap();
    assert_eq!(status.model_id, "");
    assert_eq!(status.active_attempt_id, some("a"));
    assert_eq!(status.terminal_event_id, some("1-2"));
}

#[test]
fn leases_belong_to_their_owner() {
    assert_eq!(
        line(&client().acquire_lease("abc", "engine:1")),
        "SET inference:lease:abc engine:1 NX PX 60000"
    );
    assert_eq!(
        client().release_lease("abc", "engine:1"),
        ScriptCall {
            source: RELEASE_LEASE_LUA,
            keys: vec!["inference:lease:abc".to_string()],
            arguments: vec!["engine:1".to_string()],
        }
    );
    assert_eq!(
        client().renew_lease("abc", "engine:1"),
        ScriptCall {
            source: RENEW_LEASE_LUA,
            keys: vec!["inference:lease:abc".to_string()],
            arguments: vec!["engine:1".to_string(), "60000".to_string()],
        }
    );
    assert!(client().confirmed(1));
    assert!(!client().confirmed(0));
}

#[test]
fn quota_scripts_name_the_key_and_the_minute() {
    let limits = QuotaLimits {
        requests_per_minute: 1,
        prompt_tokens_per_minute: 10,
        generated_tokens_per_minute: 100,
    };
    let (id, script) = client().reserve_quota_at(0, 120_001, "abc", 10, 100, limits);
    let hash = "ba7816bf8f01cfea414140de5dae2223b00361a396177a9cb410ff61f20015ad";
    assert_eq!(id, "00000000-0000-0000-0000-000000000000");
    assert_eq!(script.source, RESERVE_QUOTA_LUA);
    assert_eq!(
        script.keys,
        vec![
            format!("inference:quota:{hash}:2:requests"),
            format!("inference:quota:{hash}:2:prompt"),
            format!("inference:quota:{hash}:2:generated"),
            "inference:reservation:00000000-0000-0000-0000-000000000000".to_string(),
        ]
    );
    assert_eq!(script.arguments, vec!["10", "100", "1", "10", "100", "120"]);
    let (first, _) = client().reserve_quota("abc", 1, 1, limits);
    let (second, _) = client().reserve_quota("abc", 1, 1, limits);
    assert_ne!(first, second);
    assert_eq!(first.len(), 36);
}

#[test]
fn quota_answers_are_read() {
    let id = || "r".to_string();
    assert_eq!(
        client().reserved(id(), &vec![1, 0, -3, 75]),
        Ok(QuotaReservation {
            id: id(),
            remaining_requests: 0,
            remaining_prompt_tokens: 0,
            remaining_generated_tokens: 75,
        })
    );
    let words = |values: Vec<i64>| client().reserved(id(), &values).unwrap_err().message();
    assert_eq!(client().reserved(id(), &vec![0, 1]), Err(QuotaError::Requests));
    assert_eq!(words(vec![0, 1]), "request quota exceeded");
    assert_eq!(words(vec![0, 2]), "prompt-token quota exceeded");
    assert_eq!(words(vec![0, 3, 9]), "generated-token quota exceeded");
    assert_eq!(words(vec![1, 2, 3]), "invalid quota script response- ResponseError");
    assert_eq!(words(vec![0, 4]), "invalid quota script response- ResponseError");
    assert_eq!(words(vec![]), "invalid quota script response- ResponseError");
}

#[test]
fn quota_faults_read_as_the_broker_words_them() {
    let error = redis::RedisError::from((
        redis::ErrorKind::ResponseError,
        "invalid quota script response",
    ));
    let ours = client().reserved("r".to_string(), &vec![]).unwrap_err();
    assert_eq!(ours.message(), error.to_string());
}

#[test]
fn reservations_are_settled_by_script() {
    assert_eq!(
        client().reconcile_quota("r", 25),
        ScriptCall {
            source: RECONCILE_QUOTA_LUA,
            keys: vec!["inference:reservation:r".to_string()],
            arguments: vec!["25".to_string()],
        }
    );
    assert_eq!(client().refunded(75), 75);
    assert_eq!(client().refunded(-1), 0);
    let cancel = client().cancel_quota("r");
    assert_eq!(cancel.source, CANCEL_QUOTA_LUA);
    assert_eq!(cancel.keys, vec!["inference:reservation:r"]);
    assert!(cancel.arguments.is_empty());
}
