//! A generation's way through the front door: checked, paid for, dispatched,
//! followed to its end, and settled.
use vstd::prelude::*;

use crate::access::ErrorReply;
use crate::frontdoor::{dispatch_failed, quota_check, reserved, Admitted, Settlement, UnaryEnd};
#[allow(unused_imports)]
use crate::frontdoor::AdmittedView;
use crate::quota::{QuotaCheck, QuotaError, QuotaReservation};

verus! {

enum DoorState {
    Reserve(Admitted),
    Dispatch(u128),
    Follow(u128),
    Settle(u128, UnaryEnd),
    Over(Result<u64, ErrorReply>),
}

/// How a generation ends, over numbers and text.
#[verifier::ext_equal]
pub struct EndView {
    pub settlement: Settlement,
    pub refusal: Option<(u16, Seq<char>)>,
}

impl View for UnaryEnd {
    type V = EndView;

    open spec fn view(&self) -> EndView {
        EndView {
            settlement: self.settlement,
            refusal: match self.refusal {
                Some(reply) => Some(reply@),
                None => None,
            },
        }
    }
}

/// How far a generation has come.
pub enum DoorStage {
    /// Its quota is to be reserved.
    Reserve(AdmittedView),
    /// Its job is to be dispatched, on a reservation.
    Dispatch(u128),
    /// Its answers are to be followed to their end.
    Follow(u128),
    /// Its reservation is to be settled as it ended.
    Settle(u128, EndView),
    /// It is over: so many tokens were generated, or the caller is told why not.
    Over(Result<u64, (u16, Seq<char>)>),
}

/// What the front door is to do for a generation.
#[derive(Debug, PartialEq, Eq)]
pub enum DoorAction {
    /// Reserve quota.
    Reserve(QuotaCheck),
    /// Dispatch the job.
    Dispatch,
    /// Follow the answers to their end.
    Follow,
    /// Settle a reservation.
    Settle { reservation_id: u128, settlement: Settlement },
    /// Nothing more: the generation is over.
    Leave,
}

/// What doing it gave.
#[derive(Debug, PartialEq, Eq)]
pub enum DoorEvent {
    /// What was made of the reservation.
    Reserved(Result<QuotaReservation, QuotaError>),
    /// Whether the job was dispatched.
    Dispatched(bool),
    /// How the answers ended.
    Ended(UnaryEnd),
    /// It was done, or at least tried.
    Done,
}

/// What the caller gets at an end.
pub open spec fn given_at(end: EndView) -> Result<u64, (u16, Seq<char>)> {
    match (end.refusal, end.settlement) {
        (Some(reply), _) => Err(reply),
        (None, Settlement::Reconcile(n)) => Ok(n),
        (None, Settlement::Cancel) => Ok(0),
    }
}

/// The stage that a generation starts in: one that is not admitted is over at
/// once.
pub open spec fn first_door_stage(
    admitted: Result<AdmittedView, (u16, Seq<char>)>,
) -> DoorStage {
    match admitted {
        Ok(admitted) => DoorStage::Reserve(admitted),
        Err(reply) => DoorStage::Over(Err(reply)),
    }
}

/// The stage after an event. An event that does not belong to the stage changes
/// nothing.
pub open spec fn door_stage_after(stage: DoorStage, event: DoorEvent) -> DoorStage {
    match (stage, event) {
        (DoorStage::Reserve(_), DoorEvent::Reserved(Ok(reservation))) => DoorStage::Dispatch(
            reservation.id,
        ),
        (DoorStage::Reserve(_), DoorEvent::Reserved(Err(error))) => DoorStage::Over(
            Err((429u16, error.words())),
        ),
        (DoorStage::Dispatch(id), DoorEvent::Dispatched(true)) => DoorStage::Follow(id),
        (DoorStage::Dispatch(id), DoorEvent::Dispatched(false)) => DoorStage::Settle(
            id,
            EndView {
                settlement: Settlement::Cancel,
                refusal: Some((502u16, "failed to dispatch generation job"@)),
            },
        ),
        (DoorStage::Follow(id), DoorEvent::Ended(end)) => DoorStage::Settle(id, end@),
        (DoorStage::Settle(_, end), DoorEvent::Done) => DoorStage::Over(given_at(end)),
        (stage, _) => stage,
    }
}

/// Whether an action is what a stage of a generation calls for.
pub open spec fn door_calls_for(action: DoorAction, stage: DoorStage) -> bool {
    match stage {
        DoorStage::Reserve(admitted) => action matches DoorAction::Reserve(check) && check.api_key@
            == admitted.api_key && check.prompt_tokens == admitted.prompt_tokens
            && check.reserved_generated_tokens == admitted.max_tokens,
        DoorStage::Dispatch(_) => action is Dispatch,
        DoorStage::Follow(_) => action is Follow,
        DoorStage::Settle(id, end) => action == (DoorAction::Settle {
            reservation_id: id,
            settlement: end.settlement,
        }),
        DoorStage::Over(_) => action is Leave,
    }
}

/// What an outcome says.
pub open spec fn door_outcome_said(outcome: Result<u64, ErrorReply>) -> Result<
    u64,
    (u16, Seq<char>),
> {
    match outcome {
        Ok(n) => Ok(n),
        Err(reply) => Err(reply@),
    }
}

/// A generation on its way through the front door.
pub struct DoorRun {
    state: DoorState,
}

impl DoorRun {
    /// How far it has come.
    pub closed spec fn stage(&self) -> DoorStage {
        match self.state {
            DoorState::Reserve(admitted) => DoorStage::Reserve(admitted@),
            DoorState::Dispatch(id) => DoorStage::Dispatch(id),
            DoorState::Follow(id) => DoorStage::Follow(id),
            DoorState::Settle(id, end) => DoorStage::Settle(id, end@),
            DoorState::Over(outcome) => DoorStage::Over(door_outcome_said(outcome)),
        }
    }

    /// Starts on a generation, given what was made of its request.
    pub fn start(checked: Result<Admitted, ErrorReply>) -> (run: Self)
        ensures
            run.stage() == first_door_stage(
                match checked {
                    Ok(admitted) => Ok(admitted@),
                    Err(reply) => Err(reply@),
                },
            ),
    {
        match checked {
            Ok(admitted) => DoorRun { state: DoorState::Reserve(admitted) },
            Err(reply) => DoorRun { state: DoorState::Over(Err(reply)) },
        }
    }

    /// What is to be done next.
    pub fn action(&self) -> (action: DoorAction)
        ensures
            door_calls_for(action, self.stage()),
    {
        match &self.state {
            DoorState::Reserve(admitted) => DoorAction::Reserve(quota_check(admitted)),
            DoorState::Dispatch(_) => DoorAction::Dispatch,
            DoorState::Follow(_) => DoorAction::Follow,
            DoorState::Settle(id, end) => DoorAction::Settle {
                reservation_id: *id,
                settlement: end.settlement,
            },
            DoorState::Over(_) => DoorAction::Leave,
        }
    }

    /// The run with what doing the next thing gave.
    pub fn after(self, event: DoorEvent) -> (run: Self)
        ensures
            run.stage() == door_stage_after(self.stage(), event),
    {
        let state = match (self.state, event) {
            (DoorState::Reserve(_), DoorEvent::Reserved(outcome)) => match reserved(outcome) {
                Ok(reservation) => DoorState::Dispatch(reservation.id),
                Err(reply) => DoorState::Over(Err(reply)),
            },
            (DoorState::Dispatch(id), DoorEvent::Dispatched(dispatched)) => if dispatched {
                DoorState::Follow(id)
            } else {
                DoorState::Settle(id, dispatch_failed())
            },
            (DoorState::Follow(id), DoorEvent::Ended(end)) => DoorState::Settle(id, end),
            (DoorState::Settle(_, end), DoorEvent::Done) => DoorState::Over(end.outcome()),
            (state, _) => state,
        };
        DoorRun { state }
    }

    /// What the generation came to, once it is over.
    pub fn outcome(self) -> (outcome: Option<Result<u64, ErrorReply>>)
        ensures
            match outcome {
                Some(outcome) => self.stage() == DoorStage::Over(door_outcome_said(outcome)),
                None => !(self.stage() is Over),
            },
    {
        match self.state {
            DoorState::Over(outcome) => Some(outcome),
            _ => None,
        }
    }
}

/// The stages of a generation, from its first to the one after the last event.
pub open spec fn door_stages(start: DoorStage, events: Seq<DoorEvent>) -> Seq<DoorStage>
    decreases events.len(),
{
    if events.len() == 0 {
        seq![start]
    } else {
        let before = door_stages(start, events.drop_last());
        before.push(door_stage_after(before.last(), events.last()))
    }
}

/// Whether a reservation was made at a stage.
pub open spec fn reserved_at(run: Seq<DoorStage>, j: int, id: u128) -> bool {
    &&& 0 <= j
    &&& j + 1 < run.len()
    &&& run[j] is Reserve
    &&& run[j + 1] == DoorStage::Dispatch(id)
}

/// Whether a reservation was settled at a stage, and the generation then over.
pub open spec fn settled_at(run: Seq<DoorStage>, j: int, id: u128) -> bool {
    &&& 0 <= j
    &&& j + 1 < run.len()
    &&& run[j] matches DoorStage::Settle(settled, end) && settled == id && run[j + 1]
        == DoorStage::Over(given_at(end))
}

/// Each stage of a run follows from the one before.
proof fn lemma_door_steps(start: DoorStage, events: Seq<DoorEvent>, k: int)
    requires
        0 <= k <= events.len(),
    ensures
        ({
            let run = door_stages(start, events);
            &&& run.len() == events.len() + 1
            &&& run[0] == start
            &&& k < events.len() ==> run[k + 1] == door_stage_after(run[k], events[k])
        }),
    decreases events.len(),
{
    if events.len() > 0 {
        let n = events.len() - 1;
        lemma_door_steps(start, events.drop_last(), if k < n { k } else { n });
    }
}

/// A generation that is over stays so.
proof fn lemma_over_stays(start: DoorStage, events: Seq<DoorEvent>, i: int, k: int)
    requires
        0 <= i <= k <= events.len(),
        door_stages(start, events)[i] is Over,
    ensures
        door_stages(start, events)[k] == door_stages(start, events)[i],
    decreases k - i,
{
    if i < k {
        lemma_door_steps(start, events, k - 1);
        lemma_over_stays(start, events, i, k - 1);
    }
}

/// A generation with a reservation keeps it until it was settled.
proof fn lemma_settled(start: DoorStage, events: Seq<DoorEvent>, i: int, k: int, id: u128)
    requires
        0 <= i <= k <= events.len(),
        door_stages(start, events)[i] == DoorStage::Dispatch(id),
    ensures
        ({
            let run = door_stages(start, events);
            ||| run[k] == DoorStage::Dispatch(id)
            ||| run[k] == DoorStage::Follow(id)
            ||| run[k] matches DoorStage::Settle(kept, _) && kept == id
            ||| run[k] is Over && exists|j: int| i < j < k && #[trigger] settled_at(run, j, id)
        }),
    decreases k - i,
{
    if i < k {
        let run = door_stages(start, events);
        lemma_door_steps(start, events, k - 1);
        lemma_settled(start, events, i, k - 1, id);
        if run[k - 1] is Settle && run[k] is Over {
            assert(settled_at(run, k - 1, id));
        }
    }
}

/// A request that is turned away reserves and dispatches nothing: it is over
/// from its first stage on, with what the caller is told.
pub proof fn law_refused_generations_do_nothing(
    reply: (u16, Seq<char>),
    events: Seq<DoorEvent>,
    k: int,
)
    requires
        0 <= k <= events.len(),
    ensures
        door_stages(first_door_stage(Err(reply)), events)[k] == DoorStage::Over(Err(reply)),
{
    lemma_door_steps(first_door_stage(Err(reply)), events, 0);
    lemma_over_stays(first_door_stage(Err(reply)), events, 0, k);
}

/// A reservation that was made is settled before its generation is over,
/// whichever way that went.
pub proof fn law_reservations_are_settled(
    start: DoorStage,
    events: Seq<DoorEvent>,
    j: int,
    id: u128,
)
    requires
        reserved_at(door_stages(start, events), j, id),
        door_stages(start, events).last() is Over,
    ensures
        exists|k: int| j < k && #[trigger] settled_at(door_stages(start, events), k, id),
{
    lemma_door_steps(start, events, 0);
    lemma_settled(start, events, j + 1, events.len() as int, id);
}

/// No reservation is settled twice: a generation is settled at one stage at
/// most.
pub proof fn law_generations_are_settled_once(
    start: DoorStage,
    events: Seq<DoorEvent>,
    i: int,
    k: int,
    one: u128,
    other: u128,
)
    requires
        settled_at(door_stages(start, events), i, one),
        settled_at(door_stages(start, events), k, other),
    ensures
        i == k && one == other,
{
    lemma_door_steps(start, events, 0);
    if i < k {
        lemma_over_stays(start, events, i + 1, k);
    } else if k < i {
        lemma_over_stays(start, events, k + 1, i);
    }
}

/// A job that could not be dispatched gives its whole reservation back, and the
/// caller is told.
pub proof fn law_undispatched_jobs_are_cancelled(id: u128)
    ensures
        ({
            let stage = door_stage_after(DoorStage::Dispatch(id), DoorEvent::Dispatched(false));
            &&& stage matches DoorStage::Settle(settled, end) && settled == id && end.settlement
                == Settlement::Cancel
            &&& door_stage_after(stage, DoorEvent::Done) == DoorStage::Over(
                Err((502u16, "failed to dispatch generation job"@)),
            )
        }),
{
}

/// A generation that gets its reservation is dispatched and followed on it, and
/// the reservation is settled as the answers ended; then it is over with what
/// was generated, or with what is told instead. One that gets no reservation is
/// over with why.
pub proof fn law_generations_come_to_how_they_ended(
    admitted: AdmittedView,
    reservation: QuotaReservation,
    error: QuotaError,
    end: UnaryEnd,
)
    ensures
        ({
            let s0 = first_door_stage(Ok(admitted));
            let s1 = door_stage_after(s0, DoorEvent::Reserved(Ok(reservation)));
            let s2 = door_stage_after(s1, DoorEvent::Dispatched(true));
            let s3 = door_stage_after(s2, DoorEvent::Ended(end));
            let s4 = door_stage_after(s3, DoorEvent::Done);
            &&& s0 == DoorStage::Reserve(admitted)
            &&& s1 == DoorStage::Dispatch(reservation.id)
            &&& s2 == DoorStage::Follow(reservation.id)
            &&& s3 matches DoorStage::Settle(id, settled) && id == reservation.id
                && settled.settlement == end.settlement
            &&& end.refusal matches Some(reply) ==> s4 == DoorStage::Over(
                Err((reply.status, reply.message@)),
            )
            &&& end.refusal is None ==> s4 == DoorStage::Over(
                Ok(
                    match end.settlement {
                        Settlement::Reconcile(n) => n,
                        Settlement::Cancel => 0,
                    },
                ),
            )
            &&& door_stage_after(s0, DoorEvent::Reserved(Err(error))) == DoorStage::Over(
                Err((429u16, error.words())),
            )
        }),
{
}

/// What is reserved is what was admitted, under the caller's key, and what is
/// settled is the generation's own reservation, as it ended.
pub proof fn law_doors_settle_their_own_reservation(action: DoorAction, stage: DoorStage)
    requires
        door_calls_for(action, stage),
    ensures
        stage is Reserve <==> action is Reserve,
        stage is Dispatch <==> action is Dispatch,
        stage is Follow <==> action is Follow,
        stage is Settle <==> action is Settle,
        stage is Over <==> action is Leave,
        stage matches DoorStage::Reserve(admitted) ==> (action matches DoorAction::Reserve(check)
            && check.api_key@ == admitted.api_key && check.prompt_tokens == admitted.prompt_tokens
            && check.reserved_generated_tokens == admitted.max_tokens),
        stage matches DoorStage::Settle(id, end) ==> (action matches DoorAction::Settle {
            reservation_id,
            settlement,
        } && reservation_id == id && settlement == end.settlement),
{
}

/// A generation goes on only with what its stage waits for: any other event
/// leaves it where it is.
pub proof fn law_doors_wait_for_what_they_need(stage: DoorStage, event: DoorEvent)
    ensures
        door_stage_after(stage, event) != stage ==> {
            ||| stage is Reserve && event is Reserved
            ||| stage is Dispatch && event is Dispatched
            ||| stage is Follow && event is Ended
            ||| stage is Settle && event is Done
        },
{
}

} // verus!
