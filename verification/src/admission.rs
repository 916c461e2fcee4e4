//! A request's way from the caller to its job: checked, paid for, published, or
//! given up.
use vstd::prelude::*;

use crate::access::{ApiKeys, ErrorReply};
#[allow(unused_imports)]
use crate::access::header_text;
use crate::clock::unix_ms;
use crate::frontend::{
    check_admission, dispatched, generation_job_at, reserved, runtime_request, Admission, Admitted,
    GenerateRequest, ModelConfig, RuntimeRequest,
};
#[allow(unused_imports)]
use crate::frontend::{admission, asks_for, is_job_for, AdmittedView};
use crate::ids::{fresh_uuid, uuid_text};
#[allow(unused_imports)]
use crate::ids::{hyphenated, random_uuid};
use crate::streams::{GenerationJob, QuotaError, QuotaReservation};

verus! {

/// A request whose job is on its way, over numbers and text.
#[verifier::ext_equal]
pub struct AdmissionView {
    pub request_id: Seq<char>,
    pub request_entry_id: Seq<char>,
    pub reservation_id: Seq<char>,
    pub prompt_tokens: nat,
}

impl View for Admission {
    type V = AdmissionView;

    open spec fn view(&self) -> AdmissionView {
        AdmissionView {
            request_id: self.request_id@,
            request_entry_id: self.request_entry_id@,
            reservation_id: self.reservation_id@,
            prompt_tokens: self.prompt_tokens as nat,
        }
    }
}

/// What a request came to: its job is on its way, or the caller is told why not.
pub type AdmissionOutcome = Result<Admission, ErrorReply>;

/// What an outcome says.
pub open spec fn outcome_said(outcome: AdmissionOutcome) -> Result<
    AdmissionView,
    (u16, Seq<char>),
> {
    match outcome {
        Ok(admission) => Ok(admission@),
        Err(reply) => Err(reply@),
    }
}

enum AdmissionState {
    Reserve(Admitted),
    Encode { admitted: Admitted, reservation_id: String },
    Publish {
        admitted: Admitted,
        reservation_id: String,
        request_json: Vec<u8>,
        id: u128,
        now_ms: u64,
    },
    Cancel { reservation_id: String, reply: ErrorReply },
    Over(AdmissionOutcome),
}

/// How far a request has come.
pub enum AdmissionStage {
    /// Its quota is to be reserved.
    Reserve(AdmittedView),
    /// What the runtime is asked for is to be encoded.
    Encode { admitted: AdmittedView, reservation_id: Seq<char> },
    /// Its job is to be published.
    Publish {
        admitted: AdmittedView,
        reservation_id: Seq<char>,
        request_json: Seq<u8>,
        id: u128,
        now_ms: u64,
    },
    /// Its reservation is to be given back before the caller is told.
    Cancel { reservation_id: Seq<char>, reply: (u16, Seq<char>) },
    /// It is over.
    Over(Result<AdmissionView, (u16, Seq<char>)>),
}

/// What the frontend is to do for a request.
#[derive(Debug, PartialEq, Eq)]
pub enum AdmissionAction {
    /// Reserve quota at the broker.
    Reserve { api_key: String, prompt_tokens: u64, generated_tokens: u64 },
    /// Encode what the runtime is asked for.
    Encode(RuntimeRequest),
    /// Publish the job.
    Publish(GenerationJob),
    /// Give the whole reservation back.
    CancelQuota { reservation_id: String },
    /// Nothing more: the request is over.
    Leave,
}

/// What doing it gave.
#[derive(Debug, PartialEq, Eq)]
pub enum AdmissionEvent {
    /// What the broker made of the reservation.
    Reserved(Result<QuotaReservation, QuotaError>),
    /// The encoded request.
    Encoded(Vec<u8>),
    /// The entry that the job is in, where it was published.
    Published(Option<String>),
    /// It was done, or at least tried.
    Done,
}

/// The stage that a request starts in: one that is not admitted is over at once.
pub open spec fn first_admission_stage(
    admitted: Result<AdmittedView, (u16, Seq<char>)>,
) -> AdmissionStage {
    match admitted {
        Ok(admitted) => AdmissionStage::Reserve(admitted),
        Err(reply) => AdmissionStage::Over(Err(reply)),
    }
}

/// The stage after an event; a job that is made with it gets an identifier and
/// a time. An event that does not belong to the stage changes nothing.
pub open spec fn admission_stage_after(
    stage: AdmissionStage,
    event: AdmissionEvent,
    id: u128,
    now_ms: u64,
) -> AdmissionStage {
    match (stage, event) {
        (
            AdmissionStage::Reserve(admitted),
            AdmissionEvent::Reserved(Ok(reservation)),
        ) => AdmissionStage::Encode { admitted, reservation_id: reservation.id@ },
        (AdmissionStage::Reserve(_), AdmissionEvent::Reserved(Err(error))) => AdmissionStage::Over(
            Err((429u16, error.words())),
        ),
        (
            AdmissionStage::Encode { admitted, reservation_id },
            AdmissionEvent::Encoded(request_json),
        ) => AdmissionStage::Publish {
            admitted,
            reservation_id,
            request_json: request_json@,
            id,
            now_ms,
        },
        (
            AdmissionStage::Publish { admitted, reservation_id, id, .. },
            AdmissionEvent::Published(Some(entry_id)),
        ) => AdmissionStage::Over(
            Ok(
                AdmissionView {
                    request_id: hyphenated(id),
                    request_entry_id: entry_id@,
                    reservation_id,
                    prompt_tokens: admitted.prompt_tokens,
                },
            ),
        ),
        (
            AdmissionStage::Publish { reservation_id, .. },
            AdmissionEvent::Published(None),
        ) => AdmissionStage::Cancel {
            reservation_id,
            reply: (502u16, "failed to dispatch generation"@),
        },
        (AdmissionStage::Cancel { reply, .. }, AdmissionEvent::Done) => AdmissionStage::Over(
            Err(reply),
        ),
        (stage, _) => stage,
    }
}

/// Whether an action is what a stage of a request calls for.
pub open spec fn admission_calls_for(
    action: AdmissionAction,
    model: ModelConfig,
    request: GenerateRequest,
    timeout_ms: u64,
    stage: AdmissionStage,
) -> bool {
    match stage {
        AdmissionStage::Reserve(admitted) => action matches AdmissionAction::Reserve {
            api_key,
            prompt_tokens,
            generated_tokens,
        } && api_key@ == admitted.api_key && prompt_tokens == admitted.prompt_tokens
            && generated_tokens == admitted.max_tokens,
        AdmissionStage::Encode { admitted, .. } => action matches AdmissionAction::Encode(asked)
            && asks_for(asked, request, admitted),
        AdmissionStage::Publish { admitted, reservation_id, request_json, id, now_ms } =>
            action matches AdmissionAction::Publish(job) && is_job_for(
            job,
            model,
            request,
            admitted,
            reservation_id,
            request_json,
            timeout_ms,
            id,
            now_ms,
        ),
        AdmissionStage::Cancel { reservation_id, .. } => action matches
            AdmissionAction::CancelQuota { reservation_id: given_back } && given_back@
            == reservation_id,
        AdmissionStage::Over(_) => action is Leave,
    }
}

/// A request on its way.
pub struct AdmissionRun<'a> {
    model: &'a ModelConfig,
    request: &'a GenerateRequest,
    timeout_ms: u64,
    state: AdmissionState,
}

impl<'a> AdmissionRun<'a> {
    /// The model that it is for.
    pub closed spec fn model(&self) -> ModelConfig {
        *self.model
    }

    /// What the caller asks for.
    pub closed spec fn request(&self) -> GenerateRequest {
        *self.request
    }

    /// How long its generation may take.
    pub closed spec fn timeout_ms(&self) -> u64 {
        self.timeout_ms
    }

    /// How far it has come.
    pub closed spec fn stage(&self) -> AdmissionStage {
        match self.state {
            AdmissionState::Reserve(admitted) => AdmissionStage::Reserve(admitted@),
            AdmissionState::Encode { admitted, reservation_id } => AdmissionStage::Encode {
                admitted: admitted@,
                reservation_id: reservation_id@,
            },
            AdmissionState::Publish { admitted, reservation_id, request_json, id, now_ms } =>
                AdmissionStage::Publish {
                admitted: admitted@,
                reservation_id: reservation_id@,
                request_json: request_json@,
                id,
                now_ms,
            },
            AdmissionState::Cancel { reservation_id, reply } => AdmissionStage::Cancel {
                reservation_id: reservation_id@,
                reply: reply@,
            },
            AdmissionState::Over(outcome) => AdmissionStage::Over(outcome_said(outcome)),
        }
    }

    /// Starts on a request: checks what needs no broker.
    pub fn start(
        model: &'a ModelConfig,
        keys: &ApiKeys,
        authorization: Option<&str>,
        request: &'a GenerateRequest,
        timeout_ms: u64,
    ) -> (run: Self)
        ensures
            run.model() == *model,
            run.request() == *request,
            run.timeout_ms() == timeout_ms,
            run.stage() == first_admission_stage(
                admission(*model, keys@, header_text(authorization), *request),
            ),
    {
        let state = match check_admission(model, keys, authorization, request) {
            Ok(admitted) => AdmissionState::Reserve(admitted),
            Err(reply) => AdmissionState::Over(Err(reply)),
        };
        AdmissionRun { model, request, timeout_ms, state }
    }

    /// What is to be done next.
    pub fn action(&self) -> (action: AdmissionAction)
        ensures
            admission_calls_for(
                action,
                self.model(),
                self.request(),
                self.timeout_ms(),
                self.stage(),
            ),
    {
        match &self.state {
            AdmissionState::Reserve(admitted) => AdmissionAction::Reserve {
                api_key: admitted.api_key.clone(),
                prompt_tokens: admitted.prompt_tokens,
                generated_tokens: admitted.max_tokens as u64,
            },
            AdmissionState::Encode { admitted, .. } => AdmissionAction::Encode(
                runtime_request(self.request, admitted),
            ),
            AdmissionState::Publish { admitted, reservation_id, request_json, id, now_ms } =>
                AdmissionAction::Publish(
                generation_job_at(
                    self.model,
                    self.request,
                    admitted,
                    reservation_id.as_str(),
                    request_json.clone(),
                    self.timeout_ms,
                    *id,
                    *now_ms,
                ),
            ),
            AdmissionState::Cancel { reservation_id, .. } => AdmissionAction::CancelQuota {
                reservation_id: reservation_id.clone(),
            },
            AdmissionState::Over(_) => AdmissionAction::Leave,
        }
    }

    /// The run with what doing the next thing gave; a job that is made with it
    /// gets the identifier and the time.
    pub fn after_at(self, event: AdmissionEvent, id: u128, now_ms: u64) -> (run: Self)
        ensures
            run.model() == self.model(),
            run.request() == self.request(),
            run.timeout_ms() == self.timeout_ms(),
            run.stage() == admission_stage_after(self.stage(), event, id, now_ms),
    {
        let AdmissionRun { model, request, timeout_ms, state } = self;
        let state = match (state, event) {
            (AdmissionState::Reserve(admitted), AdmissionEvent::Reserved(outcome)) =>
                match reserved(outcome) {
                Ok(reservation) => AdmissionState::Encode {
                    admitted,
                    reservation_id: reservation.id,
                },
                Err(reply) => AdmissionState::Over(Err(reply)),
            },
            (
                AdmissionState::Encode { admitted, reservation_id },
                AdmissionEvent::Encoded(request_json),
            ) => AdmissionState::Publish { admitted, reservation_id, request_json, id, now_ms },
            (
                AdmissionState::Publish { admitted, reservation_id, id, .. },
                AdmissionEvent::Published(entry_id),
            ) => match dispatched(&admitted, uuid_text(id), reservation_id, entry_id) {
                Ok(admission) => AdmissionState::Over(Ok(admission)),
                Err(abandoned) => AdmissionState::Cancel {
                    reservation_id: abandoned.cancel_reservation,
                    reply: abandoned.reply,
                },
            },
            (AdmissionState::Cancel { reply, .. }, AdmissionEvent::Done) => AdmissionState::Over(
                Err(reply),
            ),
            (state, _) => state,
        };
        AdmissionRun { model, request, timeout_ms, state }
    }

    /// The run with what doing the next thing gave; a job that is made with it
    /// gets a fresh identifier and lasts from now on.
    pub fn after(self, event: AdmissionEvent) -> (run: Self)
        ensures
            run.model() == self.model(),
            run.request() == self.request(),
            run.timeout_ms() == self.timeout_ms(),
            exists|id: u128, now_ms: u64|
                random_uuid(id) && run.stage() == #[trigger] admission_stage_after(
                    self.stage(),
                    event,
                    id,
                    now_ms,
                ),
    {
        let id = fresh_uuid();
        let now_ms = unix_ms();
        self.after_at(event, id, now_ms)
    }

    /// What the request came to, once it is over.
    pub fn outcome(self) -> (outcome: Option<AdmissionOutcome>)
        ensures
            match outcome {
                Some(outcome) => self.stage() == AdmissionStage::Over(outcome_said(outcome)),
                None => !(self.stage() is Over),
            },
    {
        match self.state {
            AdmissionState::Over(outcome) => Some(outcome),
            _ => None,
        }
    }
}

/// One turn of a request: what happened, and what a job that is made with it
/// would get.
pub struct Turn {
    pub event: AdmissionEvent,
    pub id: u128,
    pub now_ms: u64,
}

/// The stages of a request, from its first to the one after the last turn.
pub open spec fn admission_stages(start: AdmissionStage, turns: Seq<Turn>) -> Seq<AdmissionStage>
    decreases turns.len(),
{
    if turns.len() == 0 {
        seq![start]
    } else {
        let before = admission_stages(start, turns.drop_last());
        let turn = turns.last();
        before.push(admission_stage_after(before.last(), turn.event, turn.id, turn.now_ms))
    }
}

/// The reservation that a stage stands on, where there is one.
pub open spec fn reservation_in(stage: AdmissionStage) -> Option<Seq<char>> {
    match stage {
        AdmissionStage::Reserve(_) => None,
        AdmissionStage::Encode { reservation_id, .. } => Some(reservation_id),
        AdmissionStage::Publish { reservation_id, .. } => Some(reservation_id),
        AdmissionStage::Cancel { reservation_id, .. } => Some(reservation_id),
        AdmissionStage::Over(Ok(admission)) => Some(admission.reservation_id),
        AdmissionStage::Over(Err(_)) => None,
    }
}

/// Whether a reservation was made at a stage.
pub open spec fn granted_at(run: Seq<AdmissionStage>, j: int, reservation_id: Seq<char>) -> bool {
    &&& 0 <= j
    &&& j + 1 < run.len()
    &&& run[j] is Reserve
    &&& run[j + 1] is Encode
    &&& reservation_in(run[j + 1]) == Some(reservation_id)
}

/// Whether a job was published at a stage, and the request admitted with it.
pub open spec fn published_at(
    run: Seq<AdmissionStage>,
    j: int,
    admission: AdmissionView,
) -> bool {
    &&& 0 <= j
    &&& j + 1 < run.len()
    &&& run[j] is Publish
    &&& reservation_in(run[j]) == Some(admission.reservation_id)
    &&& run[j + 1] == AdmissionStage::Over(Ok(admission))
}

/// Whether a reservation was given back at a stage, and the caller then told.
pub open spec fn given_back_at(
    run: Seq<AdmissionStage>,
    j: int,
    reservation_id: Seq<char>,
    reply: (u16, Seq<char>),
) -> bool {
    &&& 0 <= j
    &&& j + 1 < run.len()
    &&& run[j] == AdmissionStage::Cancel { reservation_id, reply }
    &&& run[j + 1] == AdmissionStage::Over(Err(reply))
}

/// Each stage of a run follows from the one before.
proof fn lemma_steps(start: AdmissionStage, turns: Seq<Turn>, k: int)
    requires
        0 <= k <= turns.len(),
    ensures
        ({
            let run = admission_stages(start, turns);
            &&& run.len() == turns.len() + 1
            &&& run[0] == start
            &&& k < turns.len() ==> run[k + 1] == admission_stage_after(
                run[k],
                turns[k].event,
                turns[k].id,
                turns[k].now_ms,
            )
        }),
    decreases turns.len(),
{
    if turns.len() > 0 {
        let n = turns.len() - 1;
        if k < n {
            lemma_steps(start, turns.drop_last(), k);
        } else {
            lemma_steps(start, turns.drop_last(), n);
        }
    }
}

/// A reservation that a stage stands on was made at a stage before.
proof fn lemma_granted(admitted: AdmittedView, turns: Seq<Turn>, k: int)
    requires
        0 <= k <= turns.len(),
        reservation_in(
            admission_stages(AdmissionStage::Reserve(admitted), turns)[k],
        ) is Some,
    ensures
        ({
            let run = admission_stages(AdmissionStage::Reserve(admitted), turns);
            exists|j: int|
                j < k && #[trigger] granted_at(run, j, reservation_in(run[k])->0)
        }),
    decreases k,
{
    let start = AdmissionStage::Reserve(admitted);
    let run = admission_stages(start, turns);
    lemma_steps(start, turns, if k > 0 { k - 1 } else { 0 });
    if run[k - 1] is Reserve {
        assert(granted_at(run, k - 1, reservation_in(run[k])->0));
    } else {
        lemma_granted(admitted, turns, k - 1);
    }
}

/// A reservation that a stage stands on is the one of every later stage, until
/// it has been given back and the caller told.
proof fn lemma_kept(start: AdmissionStage, turns: Seq<Turn>, i: int, k: int)
    requires
        0 <= i <= k <= turns.len(),
        reservation_in(admission_stages(start, turns)[i]) is Some,
    ensures
        ({
            let run = admission_stages(start, turns);
            let kept = reservation_in(run[i]);
            reservation_in(run[k]) == kept || exists|j: int, reply: (u16, Seq<char>)|
                #[trigger] given_back_at(run, j, kept->0, reply) && run[k] == AdmissionStage::Over(
                    Err(reply),
                )
        }),
    decreases k - i,
{
    if i < k {
        let run = admission_stages(start, turns);
        let kept = reservation_in(run[i]);
        lemma_steps(start, turns, k - 1);
        lemma_kept(start, turns, i, k - 1);
        if reservation_in(run[k - 1]) == kept && reservation_in(run[k]) != kept {
            assert(given_back_at(run, k - 1, kept->0, run[k - 1]->Cancel_reply));
        }
    }
}

/// A request that was admitted had its job published, and nothing given back.
proof fn lemma_published(admitted: AdmittedView, turns: Seq<Turn>, k: int)
    requires
        0 <= k <= turns.len(),
        admission_stages(AdmissionStage::Reserve(admitted), turns)[k] matches AdmissionStage::Over(
            Ok(_),
        ),
    ensures
        ({
            let run = admission_stages(AdmissionStage::Reserve(admitted), turns);
            exists|j: int| #[trigger] published_at(run, j, run[k]->Over_0->Ok_0)
        }),
    decreases k,
{
    let start = AdmissionStage::Reserve(admitted);
    let run = admission_stages(start, turns);
    lemma_steps(start, turns, if k > 0 { k - 1 } else { 0 });
    if run[k - 1] is Publish {
        assert(published_at(run, k - 1, run[k]->Over_0->Ok_0));
    } else {
        lemma_published(admitted, turns, k - 1);
    }
}

/// Once a reservation is to be given back, the request is not admitted any more.
proof fn lemma_given_up(start: AdmissionStage, turns: Seq<Turn>, i: int, k: int)
    requires
        0 <= i <= k <= turns.len(),
        admission_stages(start, turns)[i] is Cancel,
    ensures
        admission_stages(start, turns)[k] is Cancel || admission_stages(start, turns)[k] matches
            AdmissionStage::Over(Err(_)),
    decreases k - i,
{
    if i < k {
        lemma_steps(start, turns, k - 1);
        lemma_given_up(start, turns, i, k - 1);
    }
}

/// A run that begins with a refusal is over at every stage.
proof fn lemma_refused(reply: (u16, Seq<char>), turns: Seq<Turn>, k: int)
    requires
        0 <= k <= turns.len(),
    ensures
        admission_stages(first_admission_stage(Err(reply)), turns)[k] == AdmissionStage::Over(
            Err(reply),
        ),
    decreases k,
{
    lemma_steps(first_admission_stage(Err(reply)), turns, if k > 0 { k - 1 } else { 0 });
    if k > 0 {
        lemma_refused(reply, turns, k - 1);
    }
}

/// A request that is not admitted reserves and publishes nothing: it is over
/// from its first stage on, with what the caller is told.
pub proof fn law_refused_requests_do_nothing(
    model: ModelConfig,
    keys: Set<Seq<char>>,
    authorization: Option<Seq<char>>,
    request: GenerateRequest,
    turns: Seq<Turn>,
    k: int,
)
    requires
        admission(model, keys, authorization, request) is Err,
        0 <= k <= turns.len(),
    ensures
        ({
            let checked = admission(model, keys, authorization, request);
            admission_stages(first_admission_stage(checked), turns)[k] == AdmissionStage::Over(
                Err(checked->Err_0),
            )
        }),
{
    lemma_refused(admission(model, keys, authorization, request)->Err_0, turns, k);
}

/// A request that is refused its quota publishes nothing: it is over with what
/// the caller is told.
pub proof fn law_unpaid_requests_are_not_published(
    admitted: AdmittedView,
    error: QuotaError,
    turns: Seq<Turn>,
    k: int,
)
    requires
        turns.len() > 0,
        turns[0].event == AdmissionEvent::Reserved(Err(error)),
        0 < k <= turns.len(),
    ensures
        admission_stages(first_admission_stage(Ok(admitted)), turns)[k] == AdmissionStage::Over(
            Err((429u16, error.words())),
        ),
    decreases k,
{
    lemma_steps(first_admission_stage(Ok(admitted)), turns, k - 1);
    if k > 1 {
        law_unpaid_requests_are_not_published(admitted, error, turns, k - 1);
    }
}

/// A job is published only on a reservation: one was made, under the identifier
/// that the job carries, at a stage before.
pub proof fn law_published_jobs_are_paid_for(
    admitted: Result<AdmittedView, (u16, Seq<char>)>,
    turns: Seq<Turn>,
    k: int,
)
    requires
        0 <= k <= turns.len(),
        admission_stages(first_admission_stage(admitted), turns)[k] is Publish,
    ensures
        ({
            let run = admission_stages(first_admission_stage(admitted), turns);
            exists|j: int|
                j < k && #[trigger] granted_at(run, j, run[k]->Publish_reservation_id)
        }),
{
    match admitted {
        Ok(view) => {
            lemma_granted(view, turns, k);
        },
        Err(reply) => {
            lemma_refused(reply, turns, k);
        },
    }
}

/// No reservation is left over: where one was made and the request is over, its
/// job was published and nothing was given back, or the reservation was given
/// back and the caller then told.
pub proof fn law_reservations_are_used_or_given_back(
    admitted: Result<AdmittedView, (u16, Seq<char>)>,
    turns: Seq<Turn>,
    j: int,
    reservation_id: Seq<char>,
)
    requires
        granted_at(
            admission_stages(first_admission_stage(admitted), turns),
            j,
            reservation_id,
        ),
        admission_stages(first_admission_stage(admitted), turns).last() is Over,
    ensures
        ({
            let run = admission_stages(first_admission_stage(admitted), turns);
            match run.last()->Over_0 {
                Ok(a) => {
                    &&& a.reservation_id == reservation_id
                    &&& exists|i: int| #[trigger] published_at(run, i, a)
                    &&& forall|i: int| 0 <= i < run.len() ==> !(#[trigger] run[i] is Cancel)
                },
                Err(reply) => exists|i: int| #[trigger] given_back_at(
                    run,
                    i,
                    reservation_id,
                    reply,
                ),
            }
        }),
{
    let start = first_admission_stage(admitted);
    let run = admission_stages(start, turns);
    let n = turns.len() as int;
    lemma_steps(start, turns, 0);
    lemma_kept(start, turns, j + 1, n);
    assert(run[n] == run.last());
    match admitted {
        Ok(view) => {
            if run.last()->Over_0 is Ok {
                lemma_published(view, turns, n);
                assert forall|i: int| 0 <= i < run.len() implies !(#[trigger] run[i] is Cancel) by {
                    if run[i] is Cancel {
                        lemma_given_up(start, turns, i, n);
                    }
                }
            } else {
                let reply = run[n]->Over_0->Err_0;
                assert(run[n] == AdmissionStage::Over(Err(reply)));
                assert(reservation_in(run[n]) is None);
            }
        },
        Err(reply) => {
            lemma_refused(reply, turns, j);
        },
    }
}

/// An admitted request that gets its reservation is encoded, published under a
/// new identifier at the time it was encoded, and then on its way: under that
/// identifier, in the entry that it was published in, on its own reservation and
/// with its own tokens. One that cannot be published gives the reservation back
/// and is told; one that gets no reservation is told why.
pub proof fn law_paid_requests_are_published(
    admitted: AdmittedView,
    reservation: QuotaReservation,
    error: QuotaError,
    request_json: Vec<u8>,
    entry_id: String,
    first: (u128, u64),
    made: (u128, u64),
    last: (u128, u64),
)
    ensures
        ({
            let s0 = first_admission_stage(Ok(admitted));
            let s1 = admission_stage_after(
                s0,
                AdmissionEvent::Reserved(Ok(reservation)),
                first.0,
                first.1,
            );
            let s2 = admission_stage_after(
                s1,
                AdmissionEvent::Encoded(request_json),
                made.0,
                made.1,
            );
            let s3 = admission_stage_after(
                s2,
                AdmissionEvent::Published(Some(entry_id)),
                last.0,
                last.1,
            );
            let lost = admission_stage_after(
                s2,
                AdmissionEvent::Published(None),
                last.0,
                last.1,
            );
            &&& s0 == AdmissionStage::Reserve(admitted)
            &&& s1 == (AdmissionStage::Encode { admitted, reservation_id: reservation.id@ })
            &&& s2 == (AdmissionStage::Publish {
                admitted,
                reservation_id: reservation.id@,
                request_json: request_json@,
                id: made.0,
                now_ms: made.1,
            })
            &&& s3 matches AdmissionStage::Over(Ok(on_its_way)) && {
                &&& on_its_way.request_id == hyphenated(made.0)
                &&& on_its_way.request_entry_id == entry_id@
                &&& on_its_way.reservation_id == reservation.id@
                &&& on_its_way.prompt_tokens == admitted.prompt_tokens
            }
            &&& lost == (AdmissionStage::Cancel {
                reservation_id: reservation.id@,
                reply: (502u16, "failed to dispatch generation"@),
            })
            &&& admission_stage_after(lost, AdmissionEvent::Done, last.0, last.1)
                == AdmissionStage::Over(Err((502u16, "failed to dispatch generation"@)))
            &&& admission_stage_after(
                s0,
                AdmissionEvent::Reserved(Err(error)),
                first.0,
                first.1,
            ) == AdmissionStage::Over(
                Err(
                    (
                        429u16,
                        match error {
                            QuotaError::Requests => "request quota exceeded"@,
                            QuotaError::PromptTokens => "prompt-token quota exceeded"@,
                            QuotaError::GeneratedTokens => "generated-token quota exceeded"@,
                            QuotaError::Broker(fault) => fault@,
                        },
                    ),
                ),
            )
        }),
{
}

/// What is done for a request is done for it alone: its key pays for its prompt
/// and for the output that was admitted, and the reservation that is given back
/// is its own.
pub proof fn law_requests_pay_for_what_was_admitted(
    action: AdmissionAction,
    model: ModelConfig,
    request: GenerateRequest,
    timeout_ms: u64,
    stage: AdmissionStage,
)
    requires
        admission_calls_for(action, model, request, timeout_ms, stage),
    ensures
        stage is Reserve <==> action is Reserve,
        stage is Encode <==> action is Encode,
        stage is Publish <==> action is Publish,
        stage is Cancel <==> action is CancelQuota,
        stage is Over <==> action is Leave,
        stage matches AdmissionStage::Reserve(admitted) ==> (action matches
            AdmissionAction::Reserve { api_key, prompt_tokens, generated_tokens } && api_key@
            == admitted.api_key && prompt_tokens == admitted.prompt_tokens && generated_tokens
            == admitted.max_tokens),
        stage matches AdmissionStage::Cancel { reservation_id, reply } ==> (action matches
            AdmissionAction::CancelQuota { reservation_id: given_back } && given_back@
            == reservation_id),
        stage matches AdmissionStage::Publish { admitted, reservation_id, request_json, id, now_ms }
            ==> (action matches AdmissionAction::Publish(job) && job.reservation_id@
            == reservation_id && job.request_json@ == request_json && job.request_id@ == hyphenated(
            id,
        ) && job.model_id@ == admitted.model),
        stage matches AdmissionStage::Encode { admitted, reservation_id } ==> (action matches
            AdmissionAction::Encode(asked) && asked.max_tokens == admitted.max_tokens
            && asked.model@ == admitted.model),
{
}

/// A request goes on only with what its stage waits for: any other event leaves
/// it where it is.
pub proof fn law_requests_wait_for_what_they_need(
    stage: AdmissionStage,
    event: AdmissionEvent,
    id: u128,
    now_ms: u64,
)
    ensures
        admission_stage_after(stage, event, id, now_ms) != stage ==> {
            ||| stage is Reserve && event is Reserved
            ||| stage is Encode && event is Encoded
            ||| stage is Publish && event is Published
            ||| stage is Cancel && event is Done
        },
{
}

} // verus!
