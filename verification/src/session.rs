//! The control plane of GPU generation: names of the workflows and activities,
//! the GPU types on offer, and the states of a session.
use vstd::prelude::*;

use crate::text::append_number;
#[allow(unused_imports)]
use crate::text::decimal;

verus! {

pub const GPU_GENERATE_WORKFLOW: &'static str = "GpuGenerateWorkflow";

pub const GPU_STREAM_GENERATE_WORKFLOW: &'static str = "GpuStreamGenerateWorkflow";

pub const GPU_TASK_QUEUE: &'static str = "inference-gpu";

pub const ACTIVITY_ADMIT_REQUEST: &'static str = "AdmitRequest";

pub const ACTIVITY_ENSURE_GPU_ENDPOINT: &'static str = "EnsureCloudRunGpuEndpoint";

pub const ACTIVITY_GENERATE: &'static str = "GenerateWithCloudRunGpu";

pub const ACTIVITY_RECONCILE_QUOTA: &'static str = "ReconcileQuota";

pub const ACTIVITY_RELEASE_IDLE_GPU: &'static str = "ReleaseIdleCloudRunGpu";

/// What a generation workflow is started with.
#[derive(Debug, PartialEq, Eq)]
pub struct GenerateWorkflowInput {
    pub request_id: u128,
    pub api_key_hash: String,
    pub model: String,
    pub cache_key: String,
    pub prompt_tokens: u64,
    pub max_tokens: u64,
    pub stream: bool,
}

/// What a generation workflow ends with.
#[derive(Debug, PartialEq, Eq)]
pub struct GenerateWorkflowResult {
    pub request_id: u128,
    pub endpoint: GpuEndpoint,
    pub generated_tokens: u64,
    pub finish_reason: String,
}

/// A service that generates on a GPU.
#[derive(Debug, PartialEq, Eq)]
pub struct GpuEndpoint {
    pub service_name: String,
    pub url: String,
    pub gpu_type: GpuType,
    pub min_instances: u32,
    pub max_instances: u32,
}

#[derive(Debug, Clone, Copy, PartialEq, Eq, Structural)]
pub enum GpuType {
    NvidiaL4,
    NvidiaRtxPro6000,
}

impl GpuType {
    /// The name that Cloud Run knows the GPU by.
    pub fn cloud_run_name(self) -> (name: &'static str)
        ensures
            name@ == match self {
                GpuType::NvidiaL4 => "nvidia-l4"@,
                GpuType::NvidiaRtxPro6000 => "nvidia-rtx-pro-6000"@,
            },
    {
        match self {
            Self::NvidiaL4 => "nvidia-l4",
            Self::NvidiaRtxPro6000 => "nvidia-rtx-pro-6000",
        }
    }

    /// The fewest CPUs that Cloud Run pairs with the GPU.
    pub fn minimum_cpu(self) -> (cpus: u32)
        ensures
            cpus == match self {
                GpuType::NvidiaL4 => 4u32,
                GpuType::NvidiaRtxPro6000 => 20u32,
            },
    {
        match self {
            Self::NvidiaL4 => 4,
            Self::NvidiaRtxPro6000 => 20,
        }
    }

    /// The least memory that Cloud Run pairs with the GPU.
    pub fn minimum_memory_gib(self) -> (gib: u32)
        ensures
            gib == match self {
                GpuType::NvidiaL4 => 16u32,
                GpuType::NvidiaRtxPro6000 => 80u32,
            },
    {
        match self {
            Self::NvidiaL4 => 16,
            Self::NvidiaRtxPro6000 => 80,
        }
    }
}

/// One request's way through the control plane.
#[derive(Debug, Clone, Copy, PartialEq, Eq, Structural)]
pub struct GpuSession {
    pub request_id: u128,
    pub state: GpuSessionState,
    pub generated_tokens: u64,
}

#[derive(Debug, Clone, Copy, PartialEq, Eq, Structural)]
pub enum GpuSessionState {
    Queued,
    Admitted,
    EndpointReady,
    Generating,
    Reconciled,
    Released,
    Failed,
}

#[derive(Debug, Clone, Copy, PartialEq, Eq, Structural)]
pub enum GpuSessionEvent {
    Admit,
    EndpointReady,
    GenerationStarted,
    GenerationFinished { generated_tokens: u64 },
    QuotaReconciled,
    IdleReleaseFinished,
    Fail,
}

#[derive(Debug, Clone, Copy, PartialEq, Eq, Structural)]
pub enum GpuSessionError {
    InvalidTransition { from: GpuSessionState, event: GpuSessionEvent },
}

/// The state after an event, where the event is due.
pub open spec fn next_state(state: GpuSessionState, event: GpuSessionEvent) -> Option<
    GpuSessionState,
> {
    match event {
        GpuSessionEvent::Fail => Some(GpuSessionState::Failed),
        GpuSessionEvent::Admit if state is Queued => Some(GpuSessionState::Admitted),
        GpuSessionEvent::EndpointReady if state is Admitted => Some(
            GpuSessionState::EndpointReady,
        ),
        GpuSessionEvent::GenerationStarted if state is EndpointReady => Some(
            GpuSessionState::Generating,
        ),
        GpuSessionEvent::GenerationFinished { .. } if state is Generating => Some(
            GpuSessionState::Reconciled,
        ),
        GpuSessionEvent::QuotaReconciled if state is Reconciled => Some(GpuSessionState::Released),
        GpuSessionEvent::IdleReleaseFinished if state is Released => Some(
            GpuSessionState::Released,
        ),
        _ => None,
    }
}

/// The session after an event, where the event is due.
pub open spec fn stepped(session: GpuSession, event: GpuSessionEvent) -> Option<GpuSession> {
    match next_state(session.state, event) {
        Some(state) => Some(
            GpuSession {
                request_id: session.request_id,
                state,
                generated_tokens: match event {
                    GpuSessionEvent::GenerationFinished { generated_tokens } => generated_tokens,
                    _ => session.generated_tokens,
                },
            },
        ),
        None => None,
    }
}

/// The session after a run of events, where each is due when it comes.
pub open spec fn after(session: GpuSession, events: Seq<GpuSessionEvent>) -> Option<GpuSession>
    decreases events.len(),
{
    if events.len() == 0 {
        Some(session)
    } else {
        match after(session, events.drop_last()) {
            Some(reached) => stepped(reached, events.last()),
            None => None,
        }
    }
}

/// A session that has just been queued.
pub open spec fn queued(request_id: u128) -> GpuSession {
    GpuSession { request_id, state: GpuSessionState::Queued, generated_tokens: 0 }
}

impl GpuSessionState {
    /// The state's name.
    pub open spec fn name(self) -> Seq<char> {
        match self {
            GpuSessionState::Queued => "Queued"@,
            GpuSessionState::Admitted => "Admitted"@,
            GpuSessionState::EndpointReady => "EndpointReady"@,
            GpuSessionState::Generating => "Generating"@,
            GpuSessionState::Reconciled => "Reconciled"@,
            GpuSessionState::Released => "Released"@,
            GpuSessionState::Failed => "Failed"@,
        }
    }

    fn named(&self) -> (name: &'static str)
        ensures
            name@ == self.name(),
    {
        match self {
            GpuSessionState::Queued => "Queued",
            GpuSessionState::Admitted => "Admitted",
            GpuSessionState::EndpointReady => "EndpointReady",
            GpuSessionState::Generating => "Generating",
            GpuSessionState::Reconciled => "Reconciled",
            GpuSessionState::Released => "Released",
            GpuSessionState::Failed => "Failed",
        }
    }
}

impl GpuSessionEvent {
    /// The event's name, with the count that it carries.
    pub open spec fn name(self) -> Seq<char> {
        match self {
            GpuSessionEvent::Admit => "Admit"@,
            GpuSessionEvent::EndpointReady => "EndpointReady"@,
            GpuSessionEvent::GenerationStarted => "GenerationStarted"@,
            GpuSessionEvent::GenerationFinished {
                generated_tokens,
            } => "GenerationFinished { generated_tokens: "@ + decimal(generated_tokens as nat)
                + " }"@,
            GpuSessionEvent::QuotaReconciled => "QuotaReconciled"@,
            GpuSessionEvent::IdleReleaseFinished => "IdleReleaseFinished"@,
            GpuSessionEvent::Fail => "Fail"@,
        }
    }

    fn named(&self) -> (name: String)
        ensures
            name@ == self.name(),
    {
        match self {
            GpuSessionEvent::Admit => "Admit".to_string(),
            GpuSessionEvent::EndpointReady => "EndpointReady".to_string(),
            GpuSessionEvent::GenerationStarted => "GenerationStarted".to_string(),
            GpuSessionEvent::GenerationFinished { generated_tokens } => {
                let mut name = "GenerationFinished { generated_tokens: ".to_string();
                append_number(&mut name, *generated_tokens);
                name.append(" }");
                name
            },
            GpuSessionEvent::QuotaReconciled => "QuotaReconciled".to_string(),
            GpuSessionEvent::IdleReleaseFinished => "IdleReleaseFinished".to_string(),
            GpuSessionEvent::Fail => "Fail".to_string(),
        }
    }
}

impl GpuSessionError {
    /// The error in words.
    pub fn message(&self) -> (text: String)
        ensures
            text@ == match *self {
                GpuSessionError::InvalidTransition {
                    from,
                    event,
                } => "invalid gpu session transition from "@ + from.name() + " with "@
                    + event.name(),
            },
    {
        match self {
            GpuSessionError::InvalidTransition { from, event } => {
                let mut text = "invalid gpu session transition from ".to_string();
                text.append(from.named());
                text.append(" with ");
                let name = event.named();
                text.append(name.as_str());
                text
            },
        }
    }
}

impl GpuSession {
    /// A session that has just been queued.
    pub fn new(request_id: u128) -> (session: Self)
        ensures
            session == queued(request_id),
    {
        GpuSession { request_id, state: GpuSessionState::Queued, generated_tokens: 0 }
    }

    /// Takes an event that is due; another one is refused and changes nothing.
    pub fn apply(&mut self, event: GpuSessionEvent) -> (r: Result<(), GpuSessionError>)
        ensures
            match stepped(*old(self), event) {
                Some(session) => r is Ok && *final(self) == session,
                None => *final(self) == *old(self) && r == Err::<(), GpuSessionError>(
                    GpuSessionError::InvalidTransition { from: old(self).state, event },
                ),
            },
    {
        let next = match (self.state, event) {
            (GpuSessionState::Queued, GpuSessionEvent::Admit) => GpuSessionState::Admitted,
            (
                GpuSessionState::Admitted,
                GpuSessionEvent::EndpointReady,
            ) => GpuSessionState::EndpointReady,
            (
                GpuSessionState::EndpointReady,
                GpuSessionEvent::GenerationStarted,
            ) => GpuSessionState::Generating,
            (
                GpuSessionState::Generating,
                GpuSessionEvent::GenerationFinished { generated_tokens },
            ) => {
                self.generated_tokens = generated_tokens;
                GpuSessionState::Reconciled
            },
            (
                GpuSessionState::Reconciled,
                GpuSessionEvent::QuotaReconciled,
            ) => GpuSessionState::Released,
            (
                GpuSessionState::Released,
                GpuSessionEvent::IdleReleaseFinished,
            ) => GpuSessionState::Released,
            (_, GpuSessionEvent::Fail) => GpuSessionState::Failed,
            (from, event) => {
                return Err(GpuSessionError::InvalidTransition { from, event });
            },
        };
        self.state = next;
        Ok(())
    }
}

/// The event that takes a session out of a state other than by failure.
pub open spec fn due(state: GpuSessionState, event: GpuSessionEvent) -> bool {
    match state {
        GpuSessionState::Queued => event is Admit,
        GpuSessionState::Admitted => event is EndpointReady,
        GpuSessionState::EndpointReady => event is GenerationStarted,
        GpuSessionState::Generating => event is GenerationFinished,
        GpuSessionState::Reconciled => event is QuotaReconciled,
        GpuSessionState::Released => event is IdleReleaseFinished,
        GpuSessionState::Failed => false,
    }
}

/// How many events lead from the queue to a state, at least.
pub open spec fn steps_to(state: GpuSessionState) -> int {
    match state {
        GpuSessionState::Queued => 0,
        GpuSessionState::Admitted => 1,
        GpuSessionState::EndpointReady => 2,
        GpuSessionState::Generating => 3,
        GpuSessionState::Reconciled => 4,
        GpuSessionState::Released => 5,
        GpuSessionState::Failed => 6,
    }
}

/// Whether the events of a run stand in the one order that leads to release.
pub open spec fn in_order(events: Seq<GpuSessionEvent>) -> bool {
    &&& events.len() > 0 ==> events[0] is Admit
    &&& events.len() > 1 ==> events[1] is EndpointReady
    &&& events.len() > 2 ==> events[2] is GenerationStarted
    &&& events.len() > 3 ==> events[3] is GenerationFinished
    &&& events.len() > 4 ==> events[4] is QuotaReconciled
    &&& forall|i: int| 5 <= i < events.len() ==> #[trigger] events[i] is IdleReleaseFinished
}

/// In every state one kind of event is due, and failure is taken in all.
pub proof fn law_one_way_forward(state: GpuSessionState, event: GpuSessionEvent)
    ensures
        next_state(state, event) is Some <==> due(state, event) || event is Fail,
        event is Fail ==> next_state(state, event) == Some(GpuSessionState::Failed),
{
}

/// No event takes a session back to an earlier state, and a failed session
/// stays failed.
pub proof fn law_sessions_only_advance(state: GpuSessionState, event: GpuSessionEvent)
    ensures
        next_state(state, event) matches Some(next) ==> steps_to(state) <= steps_to(next),
        state is Failed && next_state(state, event) is Some ==> next_state(state, event) == Some(
            GpuSessionState::Failed,
        ),
{
}

/// A session that has not failed has taken its events in the one order from
/// admission to release, and skipped none: in particular nothing is generated
/// before the endpoint is ready. Its token count is nothing until generation
/// has finished, and from then on what the finish reported.
pub proof fn law_no_step_is_skipped(request_id: u128, events: Seq<GpuSessionEvent>)
    requires
        after(queued(request_id), events) is Some,
    ensures
        ({
            let reached = after(queued(request_id), events).unwrap();
            &&& reached.request_id == request_id
            &&& !(reached.state is Failed) ==> {
                &&& in_order(events)
                &&& events.len() <= 5 ==> steps_to(reached.state) == events.len()
                &&& events.len() > 5 ==> reached.state is Released
                &&& events.len() <= 3 ==> reached.generated_tokens == 0
                &&& events.len() > 3 ==> events[3] == (GpuSessionEvent::GenerationFinished {
                    generated_tokens: reached.generated_tokens,
                })
            }
        }),
    decreases events.len(),
{
    if events.len() > 0 {
        let earlier = events.drop_last();
        law_no_step_is_skipped(request_id, earlier);
        assert forall|i: int| 0 <= i < earlier.len() implies #[trigger] earlier[i] == events[i] by {}
        assert(events.last() == events[events.len() - 1]);
        let reached = after(queued(request_id), events).unwrap();
        if !(reached.state is Failed) {
            assert forall|i: int| 5 <= i < events.len() implies #[trigger] events[i] is IdleReleaseFinished by {
                if i < earlier.len() {
                    assert(earlier[i] is IdleReleaseFinished);
                }
            }
        }
    }
}

/// A step changes only what it says: a session keeps its request, its tokens
/// become what a finish reports, whatever they were, and no other step, failure
/// with them, touches them.
pub proof fn law_steps_keep_the_rest(session: GpuSession, event: GpuSessionEvent)
    ensures
        stepped(session, event) matches Some(after) ==> {
            &&& after.request_id == session.request_id
            &&& event matches GpuSessionEvent::GenerationFinished { generated_tokens }
                ==> after.generated_tokens == generated_tokens
            &&& !(event is GenerationFinished) ==> after.generated_tokens
                == session.generated_tokens
        },
        event is Fail ==> (stepped(session, event) matches Some(after) && after.state is Failed),
{
}

/// Every session can be taken from the queue to its release by the events that
/// are due, one after the other, with the tokens that the finish reports.
pub proof fn law_sessions_reach_release(request_id: u128, generated_tokens: u64)
    ensures
        ({
            let s0 = queued(request_id);
            let s1 = stepped(s0, GpuSessionEvent::Admit);
            let s2 = stepped(s1->0, GpuSessionEvent::EndpointReady);
            let s3 = stepped(s2->0, GpuSessionEvent::GenerationStarted);
            let s4 = stepped(s3->0, GpuSessionEvent::GenerationFinished { generated_tokens });
            let s5 = stepped(s4->0, GpuSessionEvent::QuotaReconciled);
            let s6 = stepped(s5->0, GpuSessionEvent::IdleReleaseFinished);
            &&& s0 == (GpuSession {
                request_id,
                state: GpuSessionState::Queued,
                generated_tokens: 0,
            })
            &&& s1 == Some(
                GpuSession { request_id, state: GpuSessionState::Admitted, generated_tokens: 0 },
            )
            &&& s2 == Some(
                GpuSession {
                    request_id,
                    state: GpuSessionState::EndpointReady,
                    generated_tokens: 0,
                },
            )
            &&& s3 == Some(
                GpuSession { request_id, state: GpuSessionState::Generating, generated_tokens: 0 },
            )
            &&& s4 == Some(
                GpuSession { request_id, state: GpuSessionState::Reconciled, generated_tokens },
            )
            &&& s5 == Some(
                GpuSession { request_id, state: GpuSessionState::Released, generated_tokens },
            )
            &&& s6 == s5
        }),
{
}

/// No two states are called the same, so that an error names the one that the
/// session was in.
pub proof fn law_states_have_names_of_their_own(a: GpuSessionState, b: GpuSessionState)
    ensures
        a.name() == b.name() ==> a == b,
{
    reveal_strlit("Queued");
    reveal_strlit("Admitted");
    reveal_strlit("EndpointReady");
    reveal_strlit("Generating");
    reveal_strlit("Reconciled");
    reveal_strlit("Released");
    reveal_strlit("Failed");
    assert("Queued"@[0] == 'Q' && "Failed"@[0] == 'F');
    assert("Generating"@[0] == 'G' && "Reconciled"@[0] == 'R');
    assert("Admitted"@[0] == 'A' && "Released"@[0] == 'R');
    assert("Queued"@.len() == 6 && "Failed"@.len() == 6 && "Admitted"@.len() == 8);
    assert("Released"@.len() == 8 && "Generating"@.len() == 10 && "Reconciled"@.len() == 10);
    assert("EndpointReady"@.len() == 13);
    if a.name() == b.name() {
        assert(a.name()[0] == b.name()[0]);
    }
}

} // verus!
