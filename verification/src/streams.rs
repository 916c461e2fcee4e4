//! The broker's streams: jobs for the engines, results for subscribers, the
//! leases of attempts and the shared quotas. What is sent to the broker is
//! built here and what it answers is read here; sending is left to the caller.
use vstd::prelude::*;

use crate::cache::key_hash;
#[allow(unused_imports)]
use crate::cache::key_digest;
use crate::clock::unix_ms;
use crate::ids::{fresh_uuid, uuid_text};
#[allow(unused_imports)]
use crate::ids::{hyphenated, random_uuid};
use crate::text::{append_number, contains, decimal_text};
#[allow(unused_imports)]
use crate::text::{decimal, first_at, law_numbers_are_read_as_written, texts};

verus! {

pub const SCHEMA_VERSION: u32 = 1;

pub const REQUEST_STREAM: &'static str = "inference:requests";

pub const REQUEST_GROUP: &'static str = "inference-engines";

/// Reserves a request, its prompt tokens and its generated tokens, or says
/// which limit they would pass.
pub const RESERVE_QUOTA_LUA: &'static str = r#"
local requests = tonumber(redis.call('GET', KEYS[1]) or '0')
local prompt = tonumber(redis.call('GET', KEYS[2]) or '0')
local generated = tonumber(redis.call('GET', KEYS[3]) or '0')
local prompt_add = tonumber(ARGV[1])
local generated_add = tonumber(ARGV[2])
if requests + 1 > tonumber(ARGV[3]) then return {0, 1} end
if prompt + prompt_add > tonumber(ARGV[4]) then return {0, 2} end
if generated + generated_add > tonumber(ARGV[5]) then return {0, 3} end
redis.call('INCR', KEYS[1])
redis.call('INCRBY', KEYS[2], prompt_add)
redis.call('INCRBY', KEYS[3], generated_add)
redis.call('EXPIRE', KEYS[1], ARGV[6])
redis.call('EXPIRE', KEYS[2], ARGV[6])
redis.call('EXPIRE', KEYS[3], ARGV[6])
redis.call('HSET', KEYS[4], 'status', 'reserved', 'requests_key', KEYS[1], 'prompt_key', KEYS[2], 'generated_key', KEYS[3], 'prompt', prompt_add, 'generated', generated_add)
redis.call('EXPIRE', KEYS[4], ARGV[6])
return {1, tonumber(ARGV[3]) - requests - 1, tonumber(ARGV[4]) - prompt - prompt_add, tonumber(ARGV[5]) - generated - generated_add}
"#;

/// Settles a reservation once and gives back what was not generated.
pub const RECONCILE_QUOTA_LUA: &'static str = r#"
if redis.call('HGET', KEYS[1], 'status') ~= 'reserved' then return 0 end
local reserved = tonumber(redis.call('HGET', KEYS[1], 'generated') or '0')
local actual = tonumber(ARGV[1])
local refund = math.max(reserved - actual, 0)
local generated_key = redis.call('HGET', KEYS[1], 'generated_key')
if refund > 0 and generated_key then redis.call('DECRBY', generated_key, refund) end
redis.call('HSET', KEYS[1], 'status', 'reconciled', 'actual_generated', actual, 'refunded', refund)
return refund
"#;

/// Gives a whole reservation back, once.
pub const CANCEL_QUOTA_LUA: &'static str = r#"
if redis.call('HGET', KEYS[1], 'status') ~= 'reserved' then return 0 end
local requests_key = redis.call('HGET', KEYS[1], 'requests_key')
local prompt_key = redis.call('HGET', KEYS[1], 'prompt_key')
local generated_key = redis.call('HGET', KEYS[1], 'generated_key')
local prompt = tonumber(redis.call('HGET', KEYS[1], 'prompt') or '0')
local generated = tonumber(redis.call('HGET', KEYS[1], 'generated') or '0')
if requests_key then redis.call('DECR', requests_key) end
if prompt_key then redis.call('DECRBY', prompt_key, prompt) end
if generated_key then redis.call('DECRBY', generated_key, generated) end
redis.call('HSET', KEYS[1], 'status', 'cancelled')
return 1
"#;

/// Deletes a lease that its owner still holds.
pub const RELEASE_LEASE_LUA: &'static str = "if redis.call('GET', KEYS[1]) == ARGV[1] then return redis.call('DEL', KEYS[1]) else return 0 end";

/// Prolongs a lease that its owner still holds.
pub const RENEW_LEASE_LUA: &'static str = "if redis.call('GET', KEYS[1]) == ARGV[1] then redis.call('PEXPIRE', KEYS[1], ARGV[2]); return 1 else return 0 end";

/// How long things live at the broker.
#[derive(Debug, Clone, Copy, PartialEq, Eq, Structural)]
pub struct StreamsConfig {
    /// Seconds that a stream lives after its last event while it is not ended.
    pub active_ttl_secs: u64,
    /// Seconds that a stream is kept after its terminal event.
    pub result_retention_secs: u64,
    /// Milliseconds that a lease holds unless it is renewed.
    pub lease_duration_ms: u64,
}

impl Default for StreamsConfig {
    fn default() -> (config: Self)
        ensures
            config.active_ttl_secs == 3_600,
            config.result_retention_secs == 600,
            config.lease_duration_ms == 60_000,
    {
        StreamsConfig {
            active_ttl_secs: 3_600,
            result_retention_secs: 600,
            lease_duration_ms: 60_000,
        }
    }
}

impl StreamsConfig {
    /// The configuration for times in seconds; the lease is counted in
    /// milliseconds modulo 2^64.
    pub fn from_seconds(active_ttl: u64, result_retention: u64, lease: u64) -> (config: Self)
        ensures
            config.active_ttl_secs == active_ttl,
            config.result_retention_secs == result_retention,
            config.lease_duration_ms == (lease * 1000) % 0x1_0000_0000_0000_0000,
    {
        let ms: u128 = lease as u128 * 1000;
        StreamsConfig {
            active_ttl_secs: active_ttl,
            result_retention_secs: result_retention,
            lease_duration_ms: (ms % 0x1_0000_0000_0000_0000) as u64,
        }
    }
}

/// What a job carries for a prefix cache.
#[derive(Debug, PartialEq, Eq)]
pub struct CacheMetadata {
    pub cache_key: String,
    pub prefix_tokens_estimate: u64,
}

/// One generation, as it is handed to the engines.
#[derive(Debug, PartialEq, Eq)]
pub struct GenerationJob {
    pub schema_version: u32,
    pub request_id: String,
    pub model_id: String,
    pub model_revision: String,
    pub model_endpoint: String,
    pub request_json: Vec<u8>,
    pub deadline_unix_ms: u64,
    pub reservation_id: String,
    pub cache: Option<CacheMetadata>,
}

/// What happened to a generation.
#[derive(Debug, PartialEq, Eq)]
pub enum ResultEvent {
    AttemptStarted,
    Token { text: String, cumulative_generated_tokens: u64 },
    Completed { prompt_tokens: u64, generated_tokens: u64, finish_reason: String },
    Failed { code: String, message: String, retryable: bool },
}

/// What an engine publishes on a generation.
#[derive(Debug, PartialEq, Eq)]
pub struct GenerationResult {
    pub schema_version: u32,
    pub request_id: String,
    pub attempt_id: String,
    pub event: Option<ResultEvent>,
}

/// Whether an event ends its generation.
pub open spec fn is_terminal(event: Option<ResultEvent>) -> bool {
    match event {
        Some(ResultEvent::Completed { .. }) | Some(ResultEvent::Failed { .. }) => true,
        _ => false,
    }
}

/// A job with the entry of the stream that it came in.
#[derive(Debug, PartialEq, Eq)]
pub struct ConsumedJob {
    pub entry_id: String,
    pub job: GenerationJob,
}

/// A result with the entry of the stream that it came in.
#[derive(Debug, PartialEq, Eq)]
pub struct ResultEntry {
    pub event_id: String,
    pub result: GenerationResult,
}

/// Where a generation stands.
#[derive(Debug, PartialEq, Eq)]
pub struct GenerationStatus {
    pub state: String,
    pub model_id: String,
    pub active_attempt_id: Option<String>,
    pub terminal_event_id: Option<String>,
}

/// How much one API key may use in a minute.
#[derive(Debug, Clone, Copy, PartialEq, Eq, Structural)]
pub struct QuotaLimits {
    pub requests_per_minute: u64,
    pub prompt_tokens_per_minute: u64,
    pub generated_tokens_per_minute: u64,
}

/// A reservation at the broker, and what its key has left after it.
#[derive(Debug, PartialEq, Eq)]
pub struct QuotaReservation {
    pub id: String,
    pub remaining_requests: u64,
    pub remaining_prompt_tokens: u64,
    pub remaining_generated_tokens: u64,
}

/// Why the broker reserves nothing. A fault of the broker comes with its words.
#[derive(Debug, PartialEq, Eq)]
pub enum QuotaError {
    Requests,
    PromptTokens,
    GeneratedTokens,
    Broker(String),
}

impl QuotaError {
    /// The error in words.
    pub open spec fn words(self) -> Seq<char> {
        match self {
            QuotaError::Requests => "request quota exceeded"@,
            QuotaError::PromptTokens => "prompt-token quota exceeded"@,
            QuotaError::GeneratedTokens => "generated-token quota exceeded"@,
            QuotaError::Broker(fault) => fault@,
        }
    }

    /// The error in words.
    pub fn message(&self) -> (text: String)
        ensures
            text@ == self.words(),
    {
        match self {
            QuotaError::Requests => "request quota exceeded".to_string(),
            QuotaError::PromptTokens => "prompt-token quota exceeded".to_string(),
            QuotaError::GeneratedTokens => "generated-token quota exceeded".to_string(),
            QuotaError::Broker(fault) => fault.clone(),
        }
    }
}

/// Why a job or a result is not taken or not sent.
#[derive(Debug, Clone, Copy, PartialEq, Eq, Structural)]
pub enum StreamsError {
    Undecodable,
    UnsupportedSchema { version: u32 },
}

impl StreamsError {
    /// The error in words.
    pub fn message(&self) -> (text: String)
        ensures
            text@ == match *self {
                StreamsError::Undecodable => "decode generation message"@,
                StreamsError::UnsupportedSchema {
                    version,
                } => "unsupported inference Streams schema version "@ + decimal(version as nat),
            },
    {
        match self {
            StreamsError::Undecodable => "decode generation message".to_string(),
            StreamsError::UnsupportedSchema { version } => {
                let mut text = "unsupported inference Streams schema version ".to_string();
                append_number(&mut text, *version as u64);
                text
            },
        }
    }
}

/// A command to the broker.
#[derive(Debug, PartialEq, Eq)]
pub struct Command {
    pub words: Vec<String>,
}

impl View for Command {
    type V = Seq<Seq<char>>;

    open spec fn view(&self) -> Seq<Seq<char>> {
        texts(self.words@)
    }
}

/// What each of some commands says.
pub open spec fn commands_said(commands: Seq<Command>) -> Seq<Seq<Seq<char>>> {
    Seq::new(commands.len(), |i: int| commands[i]@)
}

/// An entry to append to a stream, with one field and an identifier of the
/// broker's choosing.
#[derive(Debug, PartialEq, Eq)]
pub struct StreamAppend {
    pub stream: String,
    pub field: String,
    pub payload: Vec<u8>,
}

/// A script to run at the broker.
#[derive(Debug, PartialEq, Eq)]
pub struct ScriptCall {
    pub source: &'static str,
    pub keys: Vec<String>,
    pub arguments: Vec<String>,
}

/// What a script call says: the script, its keys and its arguments.
#[verifier::ext_equal]
pub struct ScriptView {
    pub source: Seq<char>,
    pub keys: Seq<Seq<char>>,
    pub arguments: Seq<Seq<char>>,
}

impl View for ScriptCall {
    type V = ScriptView;

    open spec fn view(&self) -> ScriptView {
        ScriptView {
            source: self.source@,
            keys: texts(self.keys@),
            arguments: texts(self.arguments@),
        }
    }
}

/// The stream that a generation's results go to.
pub open spec fn result_stream_of(request_id: Seq<char>) -> Seq<char> {
    "inference:results:"@ + request_id
}

/// The key that a generation's status stands under.
pub open spec fn status_key_of(request_id: Seq<char>) -> Seq<char> {
    "inference:status:"@ + request_id
}

/// The key that a generation's lease stands under.
pub open spec fn lease_key_of(request_id: Seq<char>) -> Seq<char> {
    "inference:lease:"@ + request_id
}

/// The key that a reservation stands under.
pub open spec fn reservation_key_of(reservation_id: Seq<char>) -> Seq<char> {
    "inference:reservation:"@ + reservation_id
}

/// What the quota keys of an API key and a minute begin with.
pub open spec fn quota_prefix(api_key: Seq<char>, minute: u64) -> Seq<char> {
    "inference:quota:"@ + key_digest(api_key) + ":"@ + decimal(minute as nat)
}

/// One text behind another.
fn behind(head: &str, tail: &str) -> (text: String)
    ensures
        text@ == head@ + tail@,
{
    let mut text = head.to_string();
    text.append(tail);
    text
}

/// A number in decimal.
fn number(n: u64) -> (text: String)
    ensures
        text@ == decimal(n as nat),
{
    decimal_text(n as u128)
}

/// Tests whether a schema version is the one that is spoken here.
pub fn validate_schema(version: u32) -> (r: Result<(), StreamsError>)
    ensures
        r == if version == SCHEMA_VERSION {
            Ok::<(), StreamsError>(())
        } else {
            Err::<(), StreamsError>(StreamsError::UnsupportedSchema { version })
        },
{
    if version != SCHEMA_VERSION {
        return Err(StreamsError::UnsupportedSchema { version });
    }
    Ok(())
}

/// What is made of a message's decoding: the message, where it could be
/// decoded and is of the schema that is spoken here.
pub open spec fn checked<T>(decoded: Option<T>, version: spec_fn(T) -> u32) -> Result<
    T,
    StreamsError,
> {
    match decoded {
        None => Err(StreamsError::Undecodable),
        Some(message) => if version(message) == SCHEMA_VERSION {
            Ok(message)
        } else {
            Err(StreamsError::UnsupportedSchema { version: version(message) })
        },
    }
}

/// Takes a job out of its entry, where the payload could be decoded and is of
/// the schema that is spoken here.
pub fn accept_job(entry_id: String, decoded: Option<GenerationJob>) -> (r: Result<
    ConsumedJob,
    StreamsError,
>)
    ensures
        match checked(decoded, |job: GenerationJob| job.schema_version) {
            Ok(job) => r == Ok::<ConsumedJob, StreamsError>(ConsumedJob { entry_id, job }),
            Err(error) => r == Err::<ConsumedJob, StreamsError>(error),
        },
{
    match decoded {
        None => Err(StreamsError::Undecodable),
        Some(job) => match validate_schema(job.schema_version) {
            Ok(()) => Ok(ConsumedJob { entry_id, job }),
            Err(error) => Err(error),
        },
    }
}

/// The client's side of the broker's streams.
#[derive(Debug, Clone, Copy, PartialEq, Eq, Structural)]
pub struct StreamsClient {
    pub config: StreamsConfig,
}

impl StreamsClient {
    /// The stream that a generation's results go to.
    pub fn result_stream(request_id: &str) -> (stream: String)
        ensures
            stream@ == result_stream_of(request_id@),
    {
        behind("inference:results:", request_id)
    }

    /// The key that a generation's status stands under.
    pub fn status_key(request_id: &str) -> (key: String)
        ensures
            key@ == status_key_of(request_id@),
    {
        behind("inference:status:", request_id)
    }

    fn lease_key(request_id: &str) -> (key: String)
        ensures
            key@ == lease_key_of(request_id@),
    {
        behind("inference:lease:", request_id)
    }

    /// The entry that publishes a job, whose encoding is given.
    pub fn publish_generation(&self, job: &GenerationJob, payload: Vec<u8>) -> (r: Result<
        StreamAppend,
        StreamsError,
    >)
        ensures
            match r {
                Ok(entry) => job.schema_version == SCHEMA_VERSION && entry.stream@
                    == REQUEST_STREAM@ && entry.field@ == "payload"@ && entry.payload == payload,
                Err(error) => job.schema_version != SCHEMA_VERSION && error == (
                StreamsError::UnsupportedSchema { version: job.schema_version }),
            },
    {
        match validate_schema(job.schema_version) {
            Ok(()) => Ok(
                StreamAppend {
                    stream: REQUEST_STREAM.to_string(),
                    field: "payload".to_string(),
                    payload,
                },
            ),
            Err(error) => Err(error),
        }
    }

    /// The commands that record a published job as queued, to be run as one.
    pub fn record_queued(&self, job: &GenerationJob, entry_id: &str) -> (commands: Vec<Command>)
        ensures
            commands_said(commands@) == seq![
                seq![
                    "HSET"@,
                    status_key_of(job.request_id@),
                    "state"@,
                    "queued"@,
                    "model_id"@,
                    job.model_id@,
                    "request_entry_id"@,
                    entry_id@,
                ],
                seq![
                    "EXPIRE"@,
                    status_key_of(job.request_id@),
                    decimal(self.config.active_ttl_secs as nat),
                ],
            ],
    {
        let set = Command {
            words: vec![
                "HSET".to_string(),
                Self::status_key(job.request_id.as_str()),
                "state".to_string(),
                "queued".to_string(),
                "model_id".to_string(),
                job.model_id.clone(),
                "request_entry_id".to_string(),
                entry_id.to_string(),
            ],
        };
        let expire = Command {
            words: vec![
                "EXPIRE".to_string(),
                Self::status_key(job.request_id.as_str()),
                number(self.config.active_ttl_secs),
            ],
        };
        assert(set@ =~= seq![
            "HSET"@,
            status_key_of(job.request_id@),
            "state"@,
            "queued"@,
            "model_id"@,
            job.model_id@,
            "request_entry_id"@,
            entry_id@,
        ]);
        assert(expire@ =~= seq![
            "EXPIRE"@,
            status_key_of(job.request_id@),
            decimal(self.config.active_ttl_secs as nat),
        ]);
        let commands = vec![set, expire];
        assert(commands_said(commands@) =~= seq![set@, expire@]);
        commands
    }

    /// The command that makes the group of the engines, and the job stream with it.
    pub fn create_group(&self) -> (command: Command)
        ensures
            command@ == seq![
                "XGROUP"@,
                "CREATE"@,
                REQUEST_STREAM@,
                REQUEST_GROUP@,
                "0-0"@,
                "MKSTREAM"@,
            ],
    {
        let command = Command {
            words: vec![
                "XGROUP".to_string(),
                "CREATE".to_string(),
                REQUEST_STREAM.to_string(),
                REQUEST_GROUP.to_string(),
                "0-0".to_string(),
                "MKSTREAM".to_string(),
            ],
        };
        command
    }

    /// A consumer of jobs, once the group was asked for: what went wrong then,
    /// if anything did, is no fault where the group was there already.
    pub fn consumer(&self, consumer: String, fault: Option<String>) -> (r: Result<
        JobConsumer,
        String,
    >)
        ensures
            match r {
                Ok(jobs) => jobs.consumer == consumer && (fault matches Some(words) ==> first_at(
                    words@,
                    "BUSYGROUP"@,
                ) is Some),
                Err(error) => fault == Some(error) && first_at(error@, "BUSYGROUP"@) is None,
            },
    {
        match fault {
            Some(error) => if contains(error.as_str(), "BUSYGROUP") {
                Ok(JobConsumer { consumer })
            } else {
                Err(error)
            },
            None => Ok(JobConsumer { consumer }),
        }
    }

    /// The entry that publishes a result, whose encoding is given.
    pub fn publish_result(&self, result: &GenerationResult, payload: Vec<u8>) -> (r: Result<
        StreamAppend,
        StreamsError,
    >)
        ensures
            match r {
                Ok(entry) => result.schema_version == SCHEMA_VERSION && entry.stream@
                    == result_stream_of(result.request_id@) && entry.field@ == "payload"@
                    && entry.payload == payload,
                Err(error) => result.schema_version != SCHEMA_VERSION && error == (
                StreamsError::UnsupportedSchema { version: result.schema_version }),
            },
    {
        match validate_schema(result.schema_version) {
            Ok(()) => Ok(
                StreamAppend {
                    stream: Self::result_stream(result.request_id.as_str()),
                    field: "payload".to_string(),
                    payload,
                },
            ),
            Err(error) => Err(error),
        }
    }

    /// The commands that record a published result, to be run as one: the state
    /// and the attempt, the terminal event if it is one, and how long the
    /// stream and the status live on.
    pub fn record_result(&self, result: &GenerationResult, event_id: &str) -> (commands: Vec<
        Command,
    >)
        ensures
            commands_said(commands@) == recorded(self.config, *result, event_id@),
    {
        let terminal = match &result.event {
            Some(ResultEvent::Completed { .. }) => true,
            Some(ResultEvent::Failed { .. }) => true,
            _ => false,
        };
        let state = if terminal {
            "completed"
        } else {
            "running"
        };
        let ttl: u64 = if terminal {
            self.config.result_retention_secs
        } else {
            self.config.active_ttl_secs
        };
        let mut commands: Vec<Command> = Vec::new();
        let ghost status = status_key_of(result.request_id@);
        let ghost stream = result_stream_of(result.request_id@);
        let set = Command {
            words: vec![
                "HSET".to_string(),
                Self::status_key(result.request_id.as_str()),
                "state".to_string(),
                state.to_string(),
                "active_attempt_id".to_string(),
                result.attempt_id.clone(),
            ],
        };
        assert(set@ =~= seq![
            "HSET"@,
            status,
            "state"@,
            state@,
            "active_attempt_id"@,
            result.attempt_id@,
        ]);
        commands.push(set);
        if terminal {
            let last = Command {
                words: vec![
                    "HSET".to_string(),
                    Self::status_key(result.request_id.as_str()),
                    "terminal_event_id".to_string(),
                    event_id.to_string(),
                ],
            };
            assert(last@ =~= seq!["HSET"@, status, "terminal_event_id"@, event_id@]);
            commands.push(last);
        }
        let keep_stream = Command {
            words: vec![
                "EXPIRE".to_string(),
                Self::result_stream(result.request_id.as_str()),
                number(ttl),
            ],
        };
        assert(keep_stream@ =~= seq!["EXPIRE"@, stream, decimal(ttl as nat)]);
        commands.push(keep_stream);
        let keep_status = Command {
            words: vec![
                "EXPIRE".to_string(),
                Self::status_key(result.request_id.as_str()),
                number(ttl),
            ],
        };
        assert(keep_status@ =~= seq!["EXPIRE"@, status, decimal(ttl as nat)]);
        commands.push(keep_status);
        assert(commands_said(commands@) =~= recorded(self.config, *result, event_id@));
        commands
    }

    /// The command that asks whether anything is known of a generation.
    pub fn probe(&self, request_id: &str) -> (command: Command)
        ensures
            command@ == seq!["EXISTS"@, result_stream_of(request_id@), status_key_of(request_id@)],
    {
        let command = Command {
            words: vec![
                "EXISTS".to_string(),
                Self::result_stream(request_id),
                Self::status_key(request_id),
            ],
        };
        command
    }

    /// A subscription to a generation's results, where anything is known of
    /// it: after the event given, or from the first event on.
    pub fn subscribe(&self, request_id: &str, after_event_id: Option<&str>, known: i64) -> (r:
        Option<ResultSubscription>)
        ensures
            match r {
                Some(subscription) => known != 0 && subscription.stream() == result_stream_of(
                    request_id@,
                ) && subscription.cursor() == match after_event_id {
                    Some(id) => id@,
                    None => "0-0"@,
                },
                None => known == 0,
            },
    {
        if known == 0 {
            return None;
        }
        let last_event_id = match after_event_id {
            Some(id) => id.to_string(),
            None => "0-0".to_string(),
        };
        Some(ResultSubscription { stream: Self::result_stream(request_id), last_event_id })
    }

    /// The command that asks for a generation's status.
    pub fn read_status(&self, request_id: &str) -> (command: Command)
        ensures
            command@ == seq![
                "HMGET"@,
                status_key_of(request_id@),
                "state"@,
                "model_id"@,
                "active_attempt_id"@,
                "terminal_event_id"@,
            ],
    {
        let command = Command {
            words: vec![
                "HMGET".to_string(),
                Self::status_key(request_id),
                "state".to_string(),
                "model_id".to_string(),
                "active_attempt_id".to_string(),
                "terminal_event_id".to_string(),
            ],
        };
        command
    }

    /// The status of a generation as the broker gives it: none without a state.
    pub fn status(&self, values: &Vec<Option<String>>) -> (r: Option<GenerationStatus>)
        ensures
            match r {
                Some(status) => {
                    &&& filled_at(values@, 0) == Some(status.state@)
                    &&& status.model_id@ == match value_at(values@, 1) {
                        Some(model) => model,
                        None => Seq::empty(),
                    }
                    &&& filled_at(values@, 2) == opt_text(status.active_attempt_id)
                    &&& filled_at(values@, 3) == opt_text(status.terminal_event_id)
                },
                None => filled_at(values@, 0) is None,
            },
    {
        match filled(values, 0) {
            None => None,
            Some(state) => {
                let model_id = match copied(values, 1) {
                    Some(model) => model,
                    None => String::new(),
                };
                Some(
                    GenerationStatus {
                        state,
                        model_id,
                        active_attempt_id: filled(values, 2),
                        terminal_event_id: filled(values, 3),
                    },
                )
            },
        }
    }

    /// The command that takes a lease which nobody holds.
    pub fn acquire_lease(&self, request_id: &str, owner: &str) -> (command: Command)
        ensures
            command@ == seq![
                "SET"@,
                lease_key_of(request_id@),
                owner@,
                "NX"@,
                "PX"@,
                decimal(self.config.lease_duration_ms as nat),
            ],
    {
        let command = Command {
            words: vec![
                "SET".to_string(),
                Self::lease_key(request_id),
                owner.to_string(),
                "NX".to_string(),
                "PX".to_string(),
                number(self.config.lease_duration_ms),
            ],
        };
        command
    }

    /// The script that gives a lease up.
    pub fn release_lease(&self, request_id: &str, owner: &str) -> (script: ScriptCall)
        ensures
            script@ == (ScriptView {
                source: RELEASE_LEASE_LUA@,
                keys: seq![lease_key_of(request_id@)],
                arguments: seq![owner@],
            }),
    {
        let script = ScriptCall {
            source: RELEASE_LEASE_LUA,
            keys: vec![Self::lease_key(request_id)],
            arguments: vec![owner.to_string()],
        };
        script
    }

    /// The script that prolongs a lease; it answers 1 where the owner held it.
    pub fn renew_lease(&self, request_id: &str, owner: &str) -> (script: ScriptCall)
        ensures
            script@ == (ScriptView {
                source: RENEW_LEASE_LUA@,
                keys: seq![lease_key_of(request_id@)],
                arguments: seq![owner@, decimal(self.config.lease_duration_ms as nat)],
            }),
    {
        let script = ScriptCall {
            source: RENEW_LEASE_LUA,
            keys: vec![Self::lease_key(request_id)],
            arguments: vec![owner.to_string(), number(self.config.lease_duration_ms)],
        };
        script
    }

    /// The identifier of a new reservation and the script that makes it, in the
    /// current minute.
    pub fn reserve_quota(
        &self,
        api_key: &str,
        prompt_tokens: u64,
        generated_tokens: u64,
        limits: QuotaLimits,
    ) -> (r: (String, ScriptCall))
        ensures
            exists|id: u128, now_ms: u64|
                #![trigger reserving_script(id, now_ms, api_key@, prompt_tokens, generated_tokens, limits)]
                random_uuid(id) && r.0@ == hyphenated(id) && r.1@ == reserving_script(
                    id,
                    now_ms,
                    api_key@,
                    prompt_tokens,
                    generated_tokens,
                    limits,
                ),
    {
        let id = fresh_uuid();
        let now_ms = unix_ms();
        self.reserve_quota_at(id, now_ms, api_key, prompt_tokens, generated_tokens, limits)
    }

    /// The identifier of a reservation and the script that makes it, at a time
    /// in milliseconds.
    pub fn reserve_quota_at(
        &self,
        id: u128,
        now_ms: u64,
        api_key: &str,
        prompt_tokens: u64,
        generated_tokens: u64,
        limits: QuotaLimits,
    ) -> (r: (String, ScriptCall))
        ensures
            r.0@ == hyphenated(id),
            r.1@ == reserving_script(
                id,
                now_ms,
                api_key@,
                prompt_tokens,
                generated_tokens,
                limits,
            ),
    {
        let id_text = uuid_text(id);
        let minute: u64 = now_ms / 60_000;
        let mut prefix = "inference:quota:".to_string();
        let hash = key_hash(api_key);
        prefix.append(hash.as_str());
        prefix.append(":");
        append_number(&mut prefix, minute);
        let script = ScriptCall {
            source: RESERVE_QUOTA_LUA,
            keys: vec![
                behind(prefix.as_str(), ":requests"),
                behind(prefix.as_str(), ":prompt"),
                behind(prefix.as_str(), ":generated"),
                behind("inference:reservation:", id_text.as_str()),
            ],
            arguments: vec![
                number(prompt_tokens),
                number(generated_tokens),
                number(limits.requests_per_minute),
                number(limits.prompt_tokens_per_minute),
                number(limits.generated_tokens_per_minute),
                number(120),
            ],
        };
        let ghost expected = reserving_script(
            id,
            now_ms,
            api_key@,
            prompt_tokens,
            generated_tokens,
            limits,
        );
        assert(prefix@ =~= quota_prefix(api_key@, minute));
        assert(script@.keys =~= expected.keys);
        assert(script@.arguments =~= expected.arguments);
        (id_text, script)
    }

    /// What the reserving script's answer means for a reservation.
    pub fn reserved(&self, id: String, values: &Vec<i64>) -> (r: Result<
        QuotaReservation,
        QuotaError,
    >)
        ensures
            match r {
                Ok(reservation) => values@.len() == 4 && values@[0] == 1 && reservation == (
                QuotaReservation {
                    id,
                    remaining_requests: not_negative(values@[1]),
                    remaining_prompt_tokens: not_negative(values@[2]),
                    remaining_generated_tokens: not_negative(values@[3]),
                }),
                Err(QuotaError::Requests) => refused_by(values@, 1),
                Err(QuotaError::PromptTokens) => refused_by(values@, 2),
                Err(QuotaError::GeneratedTokens) => refused_by(values@, 3),
                Err(QuotaError::Broker(fault)) => fault@
                    == "invalid quota script response- ResponseError"@ && !(values@.len() == 4
                    && values@[0] == 1) && !refused_by(values@, 1) && !refused_by(values@, 2)
                    && !refused_by(values@, 3),
            },
    {
        if values.len() == 4 && values[0] == 1 {
            return Ok(
                QuotaReservation {
                    id,
                    remaining_requests: at_least_zero(values[1]),
                    remaining_prompt_tokens: at_least_zero(values[2]),
                    remaining_generated_tokens: at_least_zero(values[3]),
                },
            );
        }
        if values.len() >= 2 && values[0] == 0 {
            if values[1] == 1 {
                return Err(QuotaError::Requests);
            }
            if values[1] == 2 {
                return Err(QuotaError::PromptTokens);
            }
            if values[1] == 3 {
                return Err(QuotaError::GeneratedTokens);
            }
        }
        Err(QuotaError::Broker("invalid quota script response- ResponseError".to_string()))
    }

    /// The script that settles a reservation for what was generated.
    pub fn reconcile_quota(&self, reservation_id: &str, actual: u64) -> (script: ScriptCall)
        ensures
            script@ == (ScriptView {
                source: RECONCILE_QUOTA_LUA@,
                keys: seq![reservation_key_of(reservation_id@)],
                arguments: seq![decimal(actual as nat)],
            }),
    {
        let script = ScriptCall {
            source: RECONCILE_QUOTA_LUA,
            keys: vec![behind("inference:reservation:", reservation_id)],
            arguments: vec![number(actual)],
        };
        script
    }

    /// Whether an answer says that one thing was done as asked: a lease
    /// renewed, or a job acknowledged.
    pub fn confirmed(&self, answer: i64) -> (r: bool)
        ensures
            r == (answer == 1),
    {
        answer == 1
    }

    /// What the settling script's answer says was given back.
    pub fn refunded(&self, answer: i64) -> (refund: u64)
        ensures
            refund == not_negative(answer),
    {
        at_least_zero(answer)
    }

    /// The script that gives a reservation back.
    pub fn cancel_quota(&self, reservation_id: &str) -> (script: ScriptCall)
        ensures
            script@ == (ScriptView {
                source: CANCEL_QUOTA_LUA@,
                keys: seq![reservation_key_of(reservation_id@)],
                arguments: Seq::empty(),
            }),
    {
        let script = ScriptCall {
            source: CANCEL_QUOTA_LUA,
            keys: vec![behind("inference:reservation:", reservation_id)],
            arguments: Vec::new(),
        };
        script
    }
}

/// The commands that record a result.
pub open spec fn recorded(
    config: StreamsConfig,
    result: GenerationResult,
    event_id: Seq<char>,
) -> Seq<Seq<Seq<char>>> {
    let status = status_key_of(result.request_id@);
    let stream = result_stream_of(result.request_id@);
    let terminal = is_terminal(result.event);
    let state = if terminal {
        "completed"@
    } else {
        "running"@
    };
    let ttl = decimal(
        (if terminal {
            config.result_retention_secs
        } else {
            config.active_ttl_secs
        }) as nat,
    );
    let set = seq!["HSET"@, status, "state"@, state, "active_attempt_id"@, result.attempt_id@];
    let last = seq!["HSET"@, status, "terminal_event_id"@, event_id];
    let keep = seq![seq!["EXPIRE"@, stream, ttl], seq!["EXPIRE"@, status, ttl]];
    if terminal {
        seq![set, last] + keep
    } else {
        seq![set] + keep
    }
}

/// The script that reserves, with the keys of the minute and the reservation.
pub open spec fn reserving_script(
    id: u128,
    now_ms: u64,
    api_key: Seq<char>,
    prompt_tokens: u64,
    generated_tokens: u64,
    limits: QuotaLimits,
) -> ScriptView {
    let prefix = quota_prefix(api_key, now_ms / 60_000);
    ScriptView {
        source: RESERVE_QUOTA_LUA@,
        keys: seq![
            prefix + ":requests"@,
            prefix + ":prompt"@,
            prefix + ":generated"@,
            reservation_key_of(hyphenated(id)),
        ],
        arguments: seq![
            decimal(prompt_tokens as nat),
            decimal(generated_tokens as nat),
            decimal(limits.requests_per_minute as nat),
            decimal(limits.prompt_tokens_per_minute as nat),
            decimal(limits.generated_tokens_per_minute as nat),
            decimal(120),
        ],
    }
}

/// Whether an answer says that a limit was passed.
pub open spec fn refused_by(values: Seq<i64>, limit: int) -> bool {
    values.len() >= 2 && values[0] == 0 && values[1] == limit
}

/// A number, or nothing where it is negative.
pub open spec fn not_negative(n: i64) -> u64 {
    if n > 0 {
        n as u64
    } else {
        0
    }
}

fn at_least_zero(n: i64) -> (r: u64)
    ensures
        r == not_negative(n),
{
    if n > 0 {
        n as u64
    } else {
        0
    }
}

/// The text of an optional string.
pub open spec fn opt_text(value: Option<String>) -> Option<Seq<char>> {
    match value {
        Some(text) => Some(text@),
        None => None,
    }
}

/// The value at an index, where there is one.
pub open spec fn value_at(values: Seq<Option<String>>, i: int) -> Option<Seq<char>> {
    if i < values.len() {
        opt_text(values[i])
    } else {
        None
    }
}

/// The value at an index, where there is one that is not empty.
pub open spec fn filled_at(values: Seq<Option<String>>, i: int) -> Option<Seq<char>> {
    match value_at(values, i) {
        Some(text) if text.len() > 0 => Some(text),
        _ => None,
    }
}

fn copied(values: &Vec<Option<String>>, i: usize) -> (r: Option<String>)
    ensures
        opt_text(r) == value_at(values@, i as int),
{
    if i < values.len() {
        match &values[i] {
            Some(text) => Some(text.clone()),
            None => None,
        }
    } else {
        None
    }
}

fn filled(values: &Vec<Option<String>>, i: usize) -> (r: Option<String>)
    ensures
        opt_text(r) == filled_at(values@, i as int),
{
    match copied(values, i) {
        Some(text) => if text.as_str().is_empty() {
            None
        } else {
            Some(text)
        },
        None => None,
    }
}

/// One of the engines' consumers of jobs.
pub struct JobConsumer {
    pub consumer: String,
}

impl JobConsumer {
    /// The command that waits for the next job that no consumer has got.
    pub fn next(&self, block_ms: u64) -> (command: Command)
        ensures
            command@ == seq![
                "XREADGROUP"@,
                "GROUP"@,
                REQUEST_GROUP@,
                self.consumer@,
                "BLOCK"@,
                decimal(block_ms as nat),
                "COUNT"@,
                decimal(1),
                "STREAMS"@,
                REQUEST_STREAM@,
                ">"@,
            ],
    {
        let command = Command {
            words: vec![
                "XREADGROUP".to_string(),
                "GROUP".to_string(),
                REQUEST_GROUP.to_string(),
                self.consumer.clone(),
                "BLOCK".to_string(),
                number(block_ms),
                "COUNT".to_string(),
                number(1),
                "STREAMS".to_string(),
                REQUEST_STREAM.to_string(),
                ">".to_string(),
            ],
        };
        command
    }

    /// The command that takes over a job which another consumer has let lie.
    pub fn reclaim_stale(&self, idle_ms: u64) -> (command: Command)
        ensures
            command@ == seq![
                "XAUTOCLAIM"@,
                REQUEST_STREAM@,
                REQUEST_GROUP@,
                self.consumer@,
                decimal(idle_ms as nat),
                "0-0"@,
                "COUNT"@,
                decimal(1),
            ],
    {
        let command = Command {
            words: vec![
                "XAUTOCLAIM".to_string(),
                REQUEST_STREAM.to_string(),
                REQUEST_GROUP.to_string(),
                self.consumer.clone(),
                number(idle_ms),
                "0-0".to_string(),
                "COUNT".to_string(),
                number(1),
            ],
        };
        command
    }

    /// The command that acknowledges a job; it answers 1 where the job was pending.
    pub fn acknowledge(&self, entry_id: &str) -> (command: Command)
        ensures
            command@ == seq!["XACK"@, REQUEST_STREAM@, REQUEST_GROUP@, entry_id@],
    {
        let command = Command {
            words: vec![
                "XACK".to_string(),
                REQUEST_STREAM.to_string(),
                REQUEST_GROUP.to_string(),
                entry_id.to_string(),
            ],
        };
        command
    }
}

/// The words of a command that waits for the entry of a stream after a cursor.
pub open spec fn read_words(stream: Seq<char>, cursor: Seq<char>, block_ms: u64) -> Seq<Seq<char>> {
    seq![
        "XREAD"@,
        "BLOCK"@,
        decimal(block_ms as nat),
        "COUNT"@,
        decimal(1),
        "STREAMS"@,
        stream,
        cursor,
    ]
}

/// An entry of a result stream as a read gives it: its identifier, and what its
/// payload decodes to, where it can be decoded.
pub struct Offered {
    pub event_id: Seq<char>,
    pub decoded: Option<GenerationResult>,
}

/// Whether an entry is taken: it could be decoded and is of the schema that is
/// spoken here.
pub open spec fn is_taken(entry: Offered) -> bool {
    checked(entry.decoded, |result: GenerationResult| result.schema_version) is Ok
}

/// The cursor after a read: behind the entry that was taken. A read that gives
/// nothing, or an entry that is refused, leaves it.
pub open spec fn cursor_after(cursor: Seq<char>, answer: Option<Offered>) -> Seq<char> {
    match answer {
        Some(entry) if is_taken(entry) => entry.event_id,
        _ => cursor,
    }
}

/// A subscriber's place in the results of a generation.
pub struct ResultSubscription {
    stream: String,
    last_event_id: String,
}

impl ResultSubscription {
    /// The stream that is read.
    pub closed spec fn stream(&self) -> Seq<char> {
        self.stream@
    }

    /// The event after which it is read.
    pub closed spec fn cursor(&self) -> Seq<char> {
        self.last_event_id@
    }

    /// The event after which the stream is read.
    pub fn last_event_id(&self) -> (id: &str)
        ensures
            id@ == self.cursor(),
    {
        self.last_event_id.as_str()
    }

    /// The command that waits for the event after the last one.
    pub fn next(&self, block_ms: u64) -> (command: Command)
        ensures
            command@ == read_words(self.stream(), self.cursor(), block_ms),
    {
        let command = Command {
            words: vec![
                "XREAD".to_string(),
                "BLOCK".to_string(),
                number(block_ms),
                "COUNT".to_string(),
                number(1),
                "STREAMS".to_string(),
                self.stream.clone(),
                self.last_event_id.clone(),
            ],
        };
        command
    }

    /// How long to wait, in milliseconds, before a read that has failed a
    /// number of times before is tried again; the fourth failure is final.
    pub fn retry_delay_ms(failures: u32) -> (delay: Option<u64>)
        ensures
            delay == retry_delay(failures as int),
    {
        proof {
            reveal_with_fuel(retry_delay, 4);
        }
        match failures {
            0 => Some(50),
            1 => Some(100),
            2 => Some(200),
            _ => None,
        }
    }

    /// Takes a result out of its entry, where the payload could be decoded and
    /// is of the schema that is spoken here, and moves the cursor behind it.
    pub fn accept(&mut self, event_id: String, decoded: Option<GenerationResult>) -> (r: Result<
        ResultEntry,
        StreamsError,
    >)
        ensures
            final(self).stream() == old(self).stream(),
            final(self).cursor() == cursor_after(
                old(self).cursor(),
                Some(Offered { event_id: event_id@, decoded }),
            ),
            match checked(decoded, |result: GenerationResult| result.schema_version) {
                Ok(result) => r == Ok::<ResultEntry, StreamsError>(
                    ResultEntry { event_id, result },
                ),
                Err(error) => r == Err::<ResultEntry, StreamsError>(error),
            },
    {
        match decoded {
            None => Err(StreamsError::Undecodable),
            Some(result) => match validate_schema(result.schema_version) {
                Ok(()) => {
                    self.last_event_id = event_id.clone();
                    Ok(ResultEntry { event_id, result })
                },
                Err(error) => Err(error),
            },
        }
    }
}

/// The wait before another try: 50 ms, doubled with each failure, three times.
pub open spec fn retry_delay(failures: int) -> Option<u64>
    decreases failures,
{
    if failures < 0 || failures >= 3 {
        None
    } else if failures == 0 {
        Some(50)
    } else {
        Some((2 * retry_delay(failures - 1).unwrap()) as u64)
    }
}

/// The cursor after a run of reads.
pub open spec fn cursor_over(cursor: Seq<char>, answers: Seq<Option<Offered>>) -> Seq<char>
    decreases answers.len(),
{
    if answers.len() == 0 {
        cursor
    } else {
        cursor_after(cursor_over(cursor, answers.drop_last()), answers.last())
    }
}

/// The entries that a run of reads takes, in the order of the reads.
pub open spec fn taken_over(answers: Seq<Option<Offered>>) -> Seq<Offered>
    decreases answers.len(),
{
    if answers.len() == 0 {
        Seq::empty()
    } else {
        let before = taken_over(answers.drop_last());
        match answers.last() {
            Some(entry) if is_taken(entry) => before.push(entry),
            _ => before,
        }
    }
}

/// The commands of a run of reads, with the one after the last answer.
pub open spec fn reads_over(
    stream: Seq<char>,
    cursor: Seq<char>,
    block_ms: u64,
    answers: Seq<Option<Offered>>,
) -> Seq<Seq<Seq<char>>> {
    Seq::new(
        answers.len() + 1,
        |k: int| read_words(stream, cursor_over(cursor, answers.take(k)), block_ms),
    )
}

/// After any run of reads the cursor is the identifier of the last entry that
/// was taken, or the one that the subscription began with, and the next read
/// names it. A read that gives nothing, or an entry that is refused, leaves it.
pub proof fn law_reads_go_on_from_the_last_entry(
    stream: Seq<char>,
    cursor: Seq<char>,
    block_ms: u64,
    answers: Seq<Option<Offered>>,
    answer: Option<Offered>,
)
    ensures
        ({
            let taken = taken_over(answers);
            let reached = cursor_over(cursor, answers);
            let reads = reads_over(stream, cursor, block_ms, answers);
            &&& reached == if taken.len() == 0 {
                cursor
            } else {
                taken.last().event_id
            }
            &&& reads.last() == read_words(stream, reached, block_ms)
            &&& !(answer matches Some(entry) && is_taken(entry)) ==> cursor_over(
                cursor,
                answers.push(answer),
            ) == reached && taken_over(answers.push(answer)) == taken
        }),
    decreases answers.len(),
{
    if answers.len() > 0 {
        law_reads_go_on_from_the_last_entry(
            stream,
            cursor,
            block_ms,
            answers.drop_last(),
            answer,
        );
    }
    assert(answers.take(answers.len() as int) =~= answers);
    assert(answers.push(answer).drop_last() =~= answers);
}

/// What the reads of a subscription ask for rests on its cursor alone: one that
/// begins where another has got to sends, on the same answers, the commands
/// that the other sends from there on, and takes the same entries. So do two
/// that begin with the same cursor.
pub proof fn law_equal_cursors_read_alike(
    stream: Seq<char>,
    cursor: Seq<char>,
    block_ms: u64,
    earlier: Seq<Option<Offered>>,
    later: Seq<Option<Offered>>,
)
    ensures
        reads_over(stream, cursor, block_ms, earlier + later).skip(earlier.len() as int)
            == reads_over(stream, cursor_over(cursor, earlier), block_ms, later),
        cursor_over(cursor, earlier + later) == cursor_over(cursor_over(cursor, earlier), later),
        taken_over(earlier + later) == taken_over(earlier) + taken_over(later),
{
    lemma_cursor_over_both(cursor, earlier, later);
    let reached = cursor_over(cursor, earlier);
    let whole = reads_over(stream, cursor, block_ms, earlier + later);
    let rest = reads_over(stream, reached, block_ms, later);
    assert forall|k: int| 0 <= k <= later.len() implies whole.skip(earlier.len() as int)[k]
        == #[trigger] rest[k] by {
        assert((earlier + later).take(earlier.len() + k) =~= earlier + later.take(k));
        lemma_cursor_over_both(cursor, earlier, later.take(k));
    }
    assert(whole.skip(earlier.len() as int) =~= rest);
}

proof fn lemma_cursor_over_both(
    cursor: Seq<char>,
    earlier: Seq<Option<Offered>>,
    later: Seq<Option<Offered>>,
)
    ensures
        cursor_over(cursor, earlier + later) == cursor_over(cursor_over(cursor, earlier), later),
        taken_over(earlier + later) == taken_over(earlier) + taken_over(later),
    decreases later.len(),
{
    if later.len() == 0 {
        assert(earlier + later =~= earlier);
        assert(taken_over(earlier) + taken_over(later) =~= taken_over(earlier));
    } else {
        lemma_cursor_over_both(cursor, earlier, later.drop_last());
        assert((earlier + later).drop_last() =~= earlier + later.drop_last());
        assert((earlier + later).last() == later.last());
        assert(taken_over(earlier + later) =~= taken_over(earlier) + taken_over(later));
    }
}

/// Whether the entries of a stream stand in the order of their identifiers.
pub open spec fn in_order(
    after: spec_fn(Seq<char>, Seq<char>) -> bool,
    entries: Seq<Offered>,
) -> bool {
    forall|i: int, j: int|
        0 <= i < entries.len() && 0 <= j < entries.len() ==> (#[trigger] after(
            entries[j].event_id,
            entries[i].event_id,
        ) <==> i < j)
}

/// Whether the entries of a stream from an index on, and no others, come after
/// a cursor.
pub open spec fn follow_from(
    after: spec_fn(Seq<char>, Seq<char>) -> bool,
    entries: Seq<Offered>,
    cursor: Seq<char>,
    p: int,
) -> bool {
    &&& 0 <= p <= entries.len()
    &&& forall|i: int|
        0 <= i < entries.len() ==> (#[trigger] after(entries[i].event_id, cursor) <==> p <= i)
}

/// Whether each read of a subscription was answered with nothing or with the
/// first entry of the stream that comes after the cursor it named.
pub open spec fn served(
    after: spec_fn(Seq<char>, Seq<char>) -> bool,
    entries: Seq<Offered>,
    cursor: Seq<char>,
    answers: Seq<Option<Offered>>,
) -> bool {
    forall|k: int|
        0 <= k < answers.len() ==> (#[trigger] answers[k] matches Some(entry) ==> exists|p: int|
            p < entries.len() && entry == entries[p] && #[trigger] follow_from(
                after,
                entries,
                cursor_over(cursor, answers.take(k)),
                p,
            ))
}

/// Of a broker that keeps its entries in the order of their identifiers and
/// answers a read with the first one after its cursor, a subscription takes the
/// entries after its cursor in order, from the first one on and without a gap.
pub proof fn law_subscriptions_replay(
    after: spec_fn(Seq<char>, Seq<char>) -> bool,
    entries: Seq<Offered>,
    cursor: Seq<char>,
    p: int,
    answers: Seq<Option<Offered>>,
)
    requires
        in_order(after, entries),
        follow_from(after, entries, cursor, p),
        served(after, entries, cursor, answers),
    ensures
        ({
            let taken = taken_over(answers);
            &&& p + taken.len() <= entries.len()
            &&& taken == entries.subrange(p, p + taken.len())
            &&& follow_from(after, entries, cursor_over(cursor, answers), p + taken.len())
        }),
    decreases answers.len(),
{
    if answers.len() == 0 {
        assert(entries.subrange(p, p) =~= Seq::empty());
    } else {
        let before = answers.drop_last();
        let n = before.len() as int;
        assert(answers.take(n) =~= before);
        assert forall|k: int| 0 <= k < before.len() implies (#[trigger] before[k] matches Some(
            entry,
        ) ==> exists|q: int|
            q < entries.len() && entry == entries[q] && #[trigger] follow_from(
                after,
                entries,
                cursor_over(cursor, before.take(k)),
                q,
            )) by {
            assert(before[k] == answers[k]);
            assert(before.take(k) =~= answers.take(k));
        }
        law_subscriptions_replay(after, entries, cursor, p, before);
        let reached = cursor_over(cursor, before);
        let m = p + taken_over(before).len();
        if answers.last() is Some && is_taken(answers.last()->0) {
            let entry = answers.last()->0;
            assert(answers[n] == Some(entry));
            let q = choose|q: int|
                q < entries.len() && entry == entries[q] && #[trigger] follow_from(
                    after,
                    entries,
                    reached,
                    q,
                );
            assert(q == m) by {
                if q < m {
                    assert(after(entries[q].event_id, reached));
                } else if m < q {
                    assert(after(entries[m].event_id, reached));
                }
            }
            assert(follow_from(after, entries, entry.event_id, m + 1)) by {
                assert forall|i: int| 0 <= i < entries.len() implies (#[trigger] after(
                    entries[i].event_id,
                    entry.event_id,
                ) <==> m + 1 <= i) by {
                    assert(after(entries[i].event_id, entries[m].event_id) <==> m < i);
                }
            }
            assert(taken_over(answers) =~= entries.subrange(p, m + 1));
        }
    }
}

/// Two subscriptions with the same cursor take the same entries: the one that
/// has read less has taken the first of those that the other has.
pub proof fn law_subscriptions_agree(
    after: spec_fn(Seq<char>, Seq<char>) -> bool,
    entries: Seq<Offered>,
    cursor: Seq<char>,
    p: int,
    one: Seq<Option<Offered>>,
    other: Seq<Option<Offered>>,
)
    requires
        in_order(after, entries),
        follow_from(after, entries, cursor, p),
        served(after, entries, cursor, one),
        served(after, entries, cursor, other),
        taken_over(one).len() <= taken_over(other).len(),
    ensures
        taken_over(one) == taken_over(other).take(taken_over(one).len() as int),
{
    law_subscriptions_replay(after, entries, cursor, p, one);
    law_subscriptions_replay(after, entries, cursor, p, other);
    assert(taken_over(one) =~= taken_over(other).take(taken_over(one).len() as int));
}

/// What keys of the broker begin with tells their kinds apart.
proof fn lemma_prefixes()
    ensures
        "inference:results:"@.len() == 18,
        "inference:status:"@.len() == 17,
        "inference:lease:"@.len() == 16,
        "inference:reservation:"@.len() == 22,
        "inference:requests"@.len() == 18,
        "inference:results:"@[10] == 'r' && "inference:results:"@[12] == 's'
            && "inference:results:"@[13] == 'u',
        "inference:status:"@[10] == 's',
        "inference:lease:"@[10] == 'l',
        "inference:reservation:"@[10] == 'r' && "inference:reservation:"@[12] == 's'
            && "inference:reservation:"@[13] == 'e',
        "inference:requests"@[10] == 'r' && "inference:requests"@[12] == 'q',
{
    reveal_strlit("inference:results:");
    reveal_strlit("inference:status:");
    reveal_strlit("inference:lease:");
    reveal_strlit("inference:reservation:");
    reveal_strlit("inference:requests");
}

/// Each generation has keys of its own, and each reservation.
pub proof fn law_keys_are_separate(a: Seq<char>, b: Seq<char>)
    ensures
        result_stream_of(a) == result_stream_of(b) ==> a == b,
        status_key_of(a) == status_key_of(b) ==> a == b,
        lease_key_of(a) == lease_key_of(b) ==> a == b,
        reservation_key_of(a) == reservation_key_of(b) ==> a == b,
{
    let prefixes = seq![
        "inference:results:"@,
        "inference:status:"@,
        "inference:lease:"@,
        "inference:reservation:"@,
    ];
    assert forall|i: int| 0 <= i < prefixes.len() && #[trigger] prefixes[i] + a == prefixes[i]
        + b implies a == b by {
        assert((prefixes[i] + a).skip(prefixes[i].len() as int) =~= a);
        assert((prefixes[i] + b).skip(prefixes[i].len() as int) =~= b);
    }
    assert(prefixes[0] == "inference:results:"@);
    assert(prefixes[1] == "inference:status:"@);
    assert(prefixes[2] == "inference:lease:"@);
    assert(prefixes[3] == "inference:reservation:"@);
}

/// No key is taken for a key of another kind, nor for the stream of the jobs.
pub proof fn law_kinds_of_keys_are_separate(a: Seq<char>, b: Seq<char>)
    ensures
        result_stream_of(a) != status_key_of(b),
        result_stream_of(a) != lease_key_of(b),
        result_stream_of(a) != reservation_key_of(b),
        status_key_of(a) != lease_key_of(b),
        status_key_of(a) != reservation_key_of(b),
        lease_key_of(a) != reservation_key_of(b),
        result_stream_of(a) != REQUEST_STREAM@,
        status_key_of(a) != REQUEST_STREAM@,
        lease_key_of(a) != REQUEST_STREAM@,
        reservation_key_of(a) != REQUEST_STREAM@,
{
    lemma_prefixes();
    assert(result_stream_of(a)[10] == 'r' && result_stream_of(a)[12] == 's' && result_stream_of(
        a,
    )[13] == 'u');
    assert(status_key_of(a)[10] == 's' && status_key_of(b)[10] == 's');
    assert(lease_key_of(a)[10] == 'l' && lease_key_of(b)[10] == 'l');
    assert(reservation_key_of(a)[10] == 'r' && reservation_key_of(a)[12] == 's');
    assert(reservation_key_of(b)[10] == 'r' && reservation_key_of(b)[13] == 'e');
    assert(REQUEST_STREAM@[10] == 'r' && REQUEST_STREAM@[12] == 'q');
}

/// A terminal event, and no other, is recorded as the end of its generation
/// and keeps the stream and the status for the time of retention; any other
/// event keeps them for the time of active streams.
pub proof fn law_terminal_events_start_retention(
    config: StreamsConfig,
    result: GenerationResult,
    event_id: Seq<char>,
)
    ensures
        ({
            let commands = recorded(config, result, event_id);
            let status = status_key_of(result.request_id@);
            let end = seq!["HSET"@, status, "terminal_event_id"@, event_id];
            let ttl = if is_terminal(result.event) {
                config.result_retention_secs
            } else {
                config.active_ttl_secs
            };
            let keep_stream = seq![
                "EXPIRE"@,
                result_stream_of(result.request_id@),
                decimal(ttl as nat),
            ];
            let keep_status = seq!["EXPIRE"@, status, decimal(ttl as nat)];
            &&& commands.contains(end) <==> is_terminal(result.event)
            &&& commands[commands.len() - 2] == keep_stream
            &&& commands[commands.len() - 1] == keep_status
        }),
{
    let commands = recorded(config, result, event_id);
    let status = status_key_of(result.request_id@);
    let end = seq!["HSET"@, status, "terminal_event_id"@, event_id];
    if is_terminal(result.event) {
        assert(commands[1] == end);
    } else {
        assert(commands[0].len() == 6 && commands[1].len() == 3 && commands[2].len() == 3);
        assert(end.len() == 4);
    }
}

/// The keys of the broker are named by what they are for: the name of their
/// kind, and then the whole identifier. A quota's key names the digest of the
/// API key and the minute.
pub proof fn law_keys_name_what_they_are_for(id: Seq<char>, minute: u64)
    ensures
        result_stream_of(id) == "inference:results:"@ + id,
        status_key_of(id) == "inference:status:"@ + id,
        lease_key_of(id) == "inference:lease:"@ + id,
        reservation_key_of(id) == "inference:reservation:"@ + id,
        quota_prefix(id, minute) == "inference:quota:"@ + key_digest(id) + ":"@ + decimal(
            minute as nat,
        ),
{
}

/// A message is taken exactly if it could be decoded and is of the schema that
/// is spoken here, and then as it is; else it is told which of the two was
/// wrong, and which schema it was of.
pub proof fn law_messages_are_taken_as_they_are<T>(message: T, version: spec_fn(T) -> u32)
    ensures
        version(message) == 1 ==> checked(Some(message), version) == Ok::<T, StreamsError>(message),
        version(message) != 1 ==> checked(Some(message), version) == Err::<T, StreamsError>(
            StreamsError::UnsupportedSchema { version: version(message) },
        ),
        checked(None::<T>, version) == Err::<T, StreamsError>(StreamsError::Undecodable),
{
}

/// Completions and failures end a generation; a start, a token or an event that
/// is not known does not.
pub proof fn law_completions_and_failures_end(event: ResultEvent)
    ensures
        is_terminal(Some(event)) <==> event is Completed || event is Failed,
        !is_terminal(None),
{
}

/// A result is recorded in the status of its own generation: that it runs, or
/// that it is completed where the event ends it, with its attempt, and then the
/// event that ended it; and then the stream and the status are kept, for the
/// time of retention once it has ended, and else for the time of active streams.
pub proof fn law_results_are_recorded(
    config: StreamsConfig,
    result: GenerationResult,
    event_id: Seq<char>,
)
    ensures
        ({
            let commands = recorded(config, result, event_id);
            let status = "inference:status:"@ + result.request_id@;
            let stream = "inference:results:"@ + result.request_id@;
            let ends = result.event matches Some(ResultEvent::Completed { .. })
                || result.event matches Some(ResultEvent::Failed { .. });
            &&& ends ==> commands == seq![
                seq![
                    "HSET"@,
                    status,
                    "state"@,
                    "completed"@,
                    "active_attempt_id"@,
                    result.attempt_id@,
                ],
                seq!["HSET"@, status, "terminal_event_id"@, event_id],
                seq!["EXPIRE"@, stream, decimal(config.result_retention_secs as nat)],
                seq!["EXPIRE"@, status, decimal(config.result_retention_secs as nat)],
            ]
            &&& !ends ==> commands == seq![
                seq![
                    "HSET"@,
                    status,
                    "state"@,
                    "running"@,
                    "active_attempt_id"@,
                    result.attempt_id@,
                ],
                seq!["EXPIRE"@, stream, decimal(config.active_ttl_secs as nat)],
                seq!["EXPIRE"@, status, decimal(config.active_ttl_secs as nat)],
            ]
        }),
{
    let commands = recorded(config, result, event_id);
    let status = "inference:status:"@ + result.request_id@;
    let stream = "inference:results:"@ + result.request_id@;
    if is_terminal(result.event) {
        assert(commands =~= seq![
            seq![
                "HSET"@,
                status,
                "state"@,
                "completed"@,
                "active_attempt_id"@,
                result.attempt_id@,
            ],
            seq!["HSET"@, status, "terminal_event_id"@, event_id],
            seq!["EXPIRE"@, stream, decimal(config.result_retention_secs as nat)],
            seq!["EXPIRE"@, status, decimal(config.result_retention_secs as nat)],
        ]);
    } else {
        assert(commands =~= seq![
            seq![
                "HSET"@,
                status,
                "state"@,
                "running"@,
                "active_attempt_id"@,
                result.attempt_id@,
            ],
            seq!["EXPIRE"@, stream, decimal(config.active_ttl_secs as nat)],
            seq!["EXPIRE"@, status, decimal(config.active_ttl_secs as nat)],
        ]);
    }
}

/// A request reserves under its own API key in the minute of the time: two of
/// one key use the same counters exactly if their times are of one minute. The
/// script is given what the request would use and the limits, each in its
/// place, and keeps the counters for two minutes.
pub proof fn law_reservations_count_by_the_minute(
    id: u128,
    now_ms: u64,
    other: u128,
    later_ms: u64,
    api_key: Seq<char>,
    prompt_tokens: u64,
    generated_tokens: u64,
    limits: QuotaLimits,
)
    ensures
        ({
            let script = reserving_script(
                id,
                now_ms,
                api_key,
                prompt_tokens,
                generated_tokens,
                limits,
            );
            let minute = "inference:quota:"@ + key_digest(api_key) + ":"@ + decimal(
                now_ms as nat / 60_000,
            );
            let second = reserving_script(
                other,
                later_ms,
                api_key,
                prompt_tokens,
                generated_tokens,
                limits,
            );
            &&& script.source == RESERVE_QUOTA_LUA@
            &&& script.keys == seq![
                minute + ":requests"@,
                minute + ":prompt"@,
                minute + ":generated"@,
                "inference:reservation:"@ + hyphenated(id),
            ]
            &&& script.arguments == seq![
                decimal(prompt_tokens as nat),
                decimal(generated_tokens as nat),
                decimal(limits.requests_per_minute as nat),
                decimal(limits.prompt_tokens_per_minute as nat),
                decimal(limits.generated_tokens_per_minute as nat),
                decimal(120),
            ]
            &&& now_ms / 60_000 == later_ms / 60_000 <==> script.keys[0] == second.keys[0]
                && script.keys[1] == second.keys[1] && script.keys[2] == second.keys[2]
        }),
{
    let head = "inference:quota:"@ + key_digest(api_key) + ":"@;
    let a = decimal(now_ms as nat / 60_000);
    let b = decimal(later_ms as nat / 60_000);
    let script = reserving_script(id, now_ms, api_key, prompt_tokens, generated_tokens, limits);
    let second = reserving_script(
        other,
        later_ms,
        api_key,
        prompt_tokens,
        generated_tokens,
        limits,
    );
    let tail = ":requests"@;
    if script.keys[0] == second.keys[0] {
        let x = head + a + tail;
        let y = head + b + tail;
        assert(x == y);
        assert(a.len() == b.len());
        assert(x.subrange(head.len() as int, (head.len() + a.len()) as int) =~= a);
        assert(y.subrange(head.len() as int, (head.len() + a.len()) as int) =~= b);
        law_numbers_are_read_as_written(now_ms as nat / 60_000);
        law_numbers_are_read_as_written(later_ms as nat / 60_000);
    }
}

/// What the broker gives is counted as it is, but never as less than nothing;
/// an answer says that a limit was passed by a zero and the limit's number.
pub proof fn law_answers_count_from_nothing(n: i64, values: Seq<i64>, limit: int)
    ensures
        n >= 0 ==> not_negative(n) == n,
        n < 0 ==> not_negative(n) == 0,
        refused_by(values, limit) <==> values.len() >= 2 && values[0] == 0 && values[1] == limit,
{
}

/// A failed read is tried again after 50, 100 and 200 milliseconds, and then no
/// more.
pub proof fn law_reads_are_retried_three_times(failures: int)
    ensures
        retry_delay(0) == Some(50u64),
        retry_delay(1) == Some(100u64),
        retry_delay(2) == Some(200u64),
        failures >= 3 ==> retry_delay(failures) is None,
{
    reveal_with_fuel(retry_delay, 4);
}

/// A read names the stream and the event after which it goes on, waits as long
/// as it is told, and asks for one entry. A result that is taken moves a
/// subscription behind it, and nothing else moves it.
pub proof fn law_reads_name_their_place(
    stream: Seq<char>,
    cursor: Seq<char>,
    block_ms: u64,
    entry: Offered,
    result: GenerationResult,
)
    ensures
        read_words(stream, cursor, block_ms) == seq![
            "XREAD"@,
            "BLOCK"@,
            decimal(block_ms as nat),
            "COUNT"@,
            decimal(1),
            "STREAMS"@,
            stream,
            cursor,
        ],
        entry.decoded == Some(result) && result.schema_version == 1 ==> cursor_after(
            cursor,
            Some(entry),
        ) == entry.event_id,
        entry.decoded == Some(result) && result.schema_version != 1 ==> cursor_after(
            cursor,
            Some(entry),
        ) == cursor,
        entry.decoded is None ==> cursor_after(cursor, Some(entry)) == cursor,
        cursor_after(cursor, None) == cursor,
{
}

/// A status is read value by value: one that is given is taken as it is, and one
/// that is left out or empty counts as none where it has to say something.
pub proof fn law_values_are_read_in_their_place(
    values: Seq<Option<String>>,
    i: int,
    text: String,
)
    requires
        0 <= i,
    ensures
        i < values.len() && values[i] == Some(text) ==> value_at(values, i) == Some(text@),
        i < values.len() && values[i] is None ==> value_at(values, i) is None,
        i >= values.len() ==> value_at(values, i) is None,
        i < values.len() && values[i] == Some(text) && text@.len() > 0 ==> filled_at(values, i)
            == Some(text@),
        i < values.len() && values[i] == Some(text) && text@.len() == 0 ==> filled_at(
            values,
            i,
        ) is None,
        value_at(values, i) is None ==> filled_at(values, i) is None,
{
}

/// What is said of commands and scripts is what they are, word for word and in
/// order.
pub proof fn law_commands_say_their_words(commands: Seq<Command>, i: int, k: int, script: ScriptCall)
    ensures
        commands_said(commands).len() == commands.len(),
        0 <= i < commands.len() ==> commands_said(commands)[i].len() == commands[i].words@.len(),
        0 <= i < commands.len() && 0 <= k < commands[i].words@.len() ==> commands_said(
            commands,
        )[i][k] == commands[i].words@[k]@,
        script@.source == script.source@,
        script@.keys.len() == script.keys@.len(),
        0 <= k < script.keys@.len() ==> script@.keys[k] == script.keys@[k]@,
        script@.arguments.len() == script.arguments@.len(),
        0 <= k < script.arguments@.len() ==> script@.arguments[k] == script.arguments@[k]@,
{
}

/// A refusal names the limit that was passed, and a fault of the broker is told
/// in its own words.
pub proof fn law_refusals_name_the_limit(fault: String)
    ensures
        QuotaError::Requests.words() == "request quota exceeded"@,
        QuotaError::PromptTokens.words() == "prompt-token quota exceeded"@,
        QuotaError::GeneratedTokens.words() == "generated-token quota exceeded"@,
        QuotaError::Broker(fault).words() == fault@,
{
}

} // verus!
