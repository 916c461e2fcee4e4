//! Admission quotas per API key and minute: what a request reserves before it
//! is dispatched, and what it gets back once its use is known.
use std::collections::HashMap;
use vstd::hash_map::StringHashMap;
use vstd::prelude::*;

use crate::clock::epoch_minute;
use crate::ids::fresh_uuid;
#[allow(unused_imports)]
use crate::ids::random_uuid;
use crate::text::append_number;
#[allow(unused_imports)]
use crate::text::decimal;

verus! {

broadcast use vstd::std_specs::hash::group_hash_axioms;

/// How much one API key may use in a minute.
#[derive(Debug, Clone, Copy, PartialEq, Eq, Structural)]
pub struct QuotaLimits {
    pub requests_per_minute: u64,
    pub prompt_tokens_per_minute: u64,
    pub generated_tokens_per_minute: u64,
}

impl Default for QuotaLimits {
    fn default() -> (limits: Self)
        ensures
            limits.requests_per_minute == 60,
            limits.prompt_tokens_per_minute == 120_000,
            limits.generated_tokens_per_minute == 60_000,
    {
        QuotaLimits {
            requests_per_minute: 60,
            prompt_tokens_per_minute: 120_000,
            generated_tokens_per_minute: 60_000,
        }
    }
}

/// What a request would use.
#[derive(Debug, PartialEq, Eq)]
pub struct QuotaCheck {
    pub api_key: String,
    pub prompt_tokens: u64,
    pub reserved_generated_tokens: u64,
}

/// What a request has reserved, and what its key has left after it.
#[derive(Debug, PartialEq, Eq)]
pub struct QuotaReservation {
    pub id: u128,
    pub api_key: String,
    pub prompt_tokens: u64,
    pub reserved_generated_tokens: u64,
    pub remaining_requests: u64,
    pub remaining_prompt_tokens: u64,
    pub remaining_generated_tokens: u64,
}

impl Clone for QuotaReservation {
    fn clone(&self) -> (r: Self)
        ensures
            r == *self,
    {
        QuotaReservation {
            id: self.id,
            api_key: self.api_key.clone(),
            prompt_tokens: self.prompt_tokens,
            reserved_generated_tokens: self.reserved_generated_tokens,
            remaining_requests: self.remaining_requests,
            remaining_prompt_tokens: self.remaining_prompt_tokens,
            remaining_generated_tokens: self.remaining_generated_tokens,
        }
    }
}

/// Why a reservation is refused, or cannot be settled.
#[derive(Debug, Clone, Copy, PartialEq, Eq, Structural)]
pub enum QuotaError {
    RequestsExceeded { remaining: u64 },
    PromptTokensExceeded { remaining: u64, requested: u64 },
    GeneratedTokensExceeded { remaining: u64, requested: u64 },
    ReservationNotFound,
}

impl QuotaError {
    /// The error in words.
    pub open spec fn words(self) -> Seq<char> {
        match self {
            QuotaError::RequestsExceeded { remaining } => "request quota exceeded: remaining="@
                + decimal(remaining as nat) + ", requested=1"@,
            QuotaError::PromptTokensExceeded {
                remaining,
                requested,
            } => "prompt token quota exceeded: remaining="@ + decimal(remaining as nat)
                + ", requested="@ + decimal(requested as nat),
            QuotaError::GeneratedTokensExceeded {
                remaining,
                requested,
            } => "generated token quota exceeded: remaining="@ + decimal(remaining as nat)
                + ", requested="@ + decimal(requested as nat),
            QuotaError::ReservationNotFound => "reservation not found"@,
        }
    }

    /// The error in words.
    pub fn message(&self) -> (text: String)
        ensures
            text@ == self.words(),
    {
        match self {
            QuotaError::RequestsExceeded { remaining } => {
                let mut text = "request quota exceeded: remaining=".to_string();
                append_number(&mut text, *remaining);
                text.append(", requested=1");
                text
            },
            QuotaError::PromptTokensExceeded { remaining, requested } => {
                let mut text = "prompt token quota exceeded: remaining=".to_string();
                append_number(&mut text, *remaining);
                text.append(", requested=");
                append_number(&mut text, *requested);
                text
            },
            QuotaError::GeneratedTokensExceeded { remaining, requested } => {
                let mut text = "generated token quota exceeded: remaining=".to_string();
                append_number(&mut text, *remaining);
                text.append(", requested=");
                append_number(&mut text, *requested);
                text
            },
            QuotaError::ReservationNotFound => "reservation not found".to_string(),
        }
    }
}

/// What one API key has used of its current minute.
#[derive(Debug, Clone, Copy, PartialEq, Eq, Structural)]
pub struct WindowCounters {
    pub window_start_epoch_minute: u64,
    pub requests: u64,
    pub prompt_tokens: u64,
    pub generated_tokens_reserved: u64,
}

/// A window in which nothing is used yet.
pub open spec fn fresh_window(minute: u64) -> WindowCounters {
    WindowCounters {
        window_start_epoch_minute: minute,
        requests: 0,
        prompt_tokens: 0,
        generated_tokens_reserved: 0,
    }
}

/// What is left of a limit.
pub open spec fn left(limit: u64, used: u64) -> u64 {
    if used <= limit {
        (limit - used) as u64
    } else {
        0
    }
}

/// The counters of every key and the reservations that are not settled.
pub struct Ledger {
    pub windows: Map<Seq<char>, WindowCounters>,
    pub open: Map<u128, QuotaReservation>,
}

impl Ledger {
    /// What a key has used in a minute: an older window counts for nothing.
    pub open spec fn used(self, key: Seq<char>, minute: u64) -> WindowCounters {
        if self.windows.contains_key(key) && self.windows[key].window_start_epoch_minute == minute {
            self.windows[key]
        } else {
            fresh_window(minute)
        }
    }

    /// The same ledger with other counters for a key.
    pub open spec fn with_window(self, key: Seq<char>, window: WindowCounters) -> Ledger {
        Ledger { windows: self.windows.insert(key, window), ..self }
    }

    /// Whether no key has used more than the limits allow.
    pub open spec fn within(self, limits: QuotaLimits) -> bool {
        forall|key: Seq<char>| #[trigger]
            self.windows.contains_key(key) ==> {
                &&& self.windows[key].requests <= limits.requests_per_minute
                &&& self.windows[key].prompt_tokens <= limits.prompt_tokens_per_minute
                &&& self.windows[key].generated_tokens_reserved
                    <= limits.generated_tokens_per_minute
            }
    }
}

/// The first limit that a request would pass, in the order requests, prompt
/// tokens, generated tokens.
pub open spec fn refusal(
    limits: QuotaLimits,
    used: WindowCounters,
    check: QuotaCheck,
) -> Option<QuotaError> {
    let requests = left(limits.requests_per_minute, used.requests);
    let prompt = left(limits.prompt_tokens_per_minute, used.prompt_tokens);
    let generated = left(limits.generated_tokens_per_minute, used.generated_tokens_reserved);
    if requests < 1 {
        Some(QuotaError::RequestsExceeded { remaining: requests })
    } else if prompt < check.prompt_tokens {
        Some(
            QuotaError::PromptTokensExceeded { remaining: prompt, requested: check.prompt_tokens },
        )
    } else if generated < check.reserved_generated_tokens {
        Some(
            QuotaError::GeneratedTokensExceeded {
                remaining: generated,
                requested: check.reserved_generated_tokens,
            },
        )
    } else {
        None
    }
}

/// The counters of a key after a request that is within its limits.
pub open spec fn charged(used: WindowCounters, check: QuotaCheck) -> WindowCounters {
    WindowCounters {
        window_start_epoch_minute: used.window_start_epoch_minute,
        requests: (used.requests + 1) as u64,
        prompt_tokens: (used.prompt_tokens + check.prompt_tokens) as u64,
        generated_tokens_reserved: (used.generated_tokens_reserved
            + check.reserved_generated_tokens) as u64,
    }
}

/// The reservation that a request within its limits gets.
pub open spec fn granted(
    limits: QuotaLimits,
    used: WindowCounters,
    id: u128,
    check: QuotaCheck,
) -> QuotaReservation {
    let after = charged(used, check);
    QuotaReservation {
        id,
        api_key: check.api_key,
        prompt_tokens: check.prompt_tokens,
        reserved_generated_tokens: check.reserved_generated_tokens,
        remaining_requests: left(limits.requests_per_minute, after.requests),
        remaining_prompt_tokens: left(limits.prompt_tokens_per_minute, after.prompt_tokens),
        remaining_generated_tokens: left(
            limits.generated_tokens_per_minute,
            after.generated_tokens_reserved,
        ),
    }
}

/// The ledger and the answer after a request to reserve, made in a minute and
/// under an identifier.
pub open spec fn reserving(
    ledger: Ledger,
    limits: QuotaLimits,
    minute: u64,
    id: u128,
    check: QuotaCheck,
) -> (Ledger, Result<QuotaReservation, QuotaError>) {
    let key = check.api_key@;
    let used = ledger.used(key, minute);
    match refusal(limits, used, check) {
        Some(error) => (ledger.with_window(key, used), Err(error)),
        None => {
            let reservation = granted(limits, used, id, check);
            (
                Ledger {
                    windows: ledger.windows.insert(key, charged(used, check)),
                    open: ledger.open.insert(id, reservation),
                },
                Ok(reservation),
            )
        },
    }
}

/// The ledger and the refund after a reservation is settled for what was
/// really generated. The refund goes to the key's window of the moment.
pub open spec fn settling(ledger: Ledger, id: u128, actual: u64) -> (
    Ledger,
    Result<u64, QuotaError>,
) {
    if !ledger.open.contains_key(id) {
        (ledger, Err(QuotaError::ReservationNotFound))
    } else {
        let reservation = ledger.open[id];
        let refund = left(reservation.reserved_generated_tokens, actual);
        let key = reservation.api_key@;
        let closed = Ledger { open: ledger.open.remove(id), ..ledger };
        if refund > 0 && ledger.windows.contains_key(key) {
            let window = ledger.windows[key];
            (
                closed.with_window(
                    key,
                    WindowCounters {
                        generated_tokens_reserved: left(window.generated_tokens_reserved, refund),
                        ..window
                    },
                ),
                Ok(refund),
            )
        } else {
            (closed, Ok(refund))
        }
    }
}

/// Quotas that are kept in memory.
pub struct InMemoryQuotaLimiter {
    limits: QuotaLimits,
    state: StringHashMap<WindowCounters>,
    reservations: HashMap<u128, QuotaReservation>,
}

impl View for InMemoryQuotaLimiter {
    type V = Ledger;

    closed spec fn view(&self) -> Ledger {
        Ledger { windows: self.state@, open: self.reservations@ }
    }
}

impl InMemoryQuotaLimiter {
    /// The limits that every key is held to.
    pub closed spec fn limits(&self) -> QuotaLimits {
        self.limits
    }

    /// A limiter under which nothing is used yet.
    pub fn new(limits: QuotaLimits) -> (limiter: Self)
        ensures
            limiter.limits() == limits,
            limiter@.windows == Map::<Seq<char>, WindowCounters>::empty(),
            limiter@.open == Map::<u128, QuotaReservation>::empty(),
    {
        InMemoryQuotaLimiter { limits, state: StringHashMap::new(), reservations: HashMap::new() }
    }

    /// Reserves what a request would use, in the current minute and under a
    /// fresh identifier.
    pub fn reserve(&mut self, check: QuotaCheck) -> (r: Result<QuotaReservation, QuotaError>)
        ensures
            final(self).limits() == old(self).limits(),
            exists|minute: u64, id: u128|
                #![trigger reserving(old(self)@, old(self).limits(), minute, id, check)]
                minute <= u64::MAX / 60 && random_uuid(id) && (final(self)@, r) == reserving(
                    old(self)@,
                    old(self).limits(),
                    minute,
                    id,
                    check,
                ),
    {
        let minute = epoch_minute();
        let id = fresh_uuid();
        self.reserve_at(minute, id, check)
    }

    /// Reserves what a request would use, in a given minute and under a given
    /// identifier.
    pub fn reserve_at(&mut self, minute: u64, id: u128, check: QuotaCheck) -> (r: Result<
        QuotaReservation,
        QuotaError,
    >)
        ensures
            final(self).limits() == old(self).limits(),
            (final(self)@, r) == reserving(old(self)@, old(self).limits(), minute, id, check),
    {
        let stored = match self.state.get(check.api_key.as_str()) {
            Some(window) => Some(*window),
            None => None,
        };
        let mut counters = WindowCounters {
            window_start_epoch_minute: minute,
            requests: 0,
            prompt_tokens: 0,
            generated_tokens_reserved: 0,
        };
        if let Some(window) = stored {
            if window.window_start_epoch_minute == minute {
                counters = window;
            }
        }
        let ghost used = counters;
        assert(used == old(self)@.used(check.api_key@, minute));
        let remaining_requests = self.limits.requests_per_minute.saturating_sub(counters.requests);
        if remaining_requests < 1 {
            self.state.insert(check.api_key, counters);
            return Err(QuotaError::RequestsExceeded { remaining: remaining_requests });
        }
        let remaining_prompt = self.limits.prompt_tokens_per_minute.saturating_sub(
            counters.prompt_tokens,
        );
        if remaining_prompt < check.prompt_tokens {
            self.state.insert(check.api_key, counters);
            return Err(
                QuotaError::PromptTokensExceeded {
                    remaining: remaining_prompt,
                    requested: check.prompt_tokens,
                },
            );
        }
        let remaining_generated = self.limits.generated_tokens_per_minute.saturating_sub(
            counters.generated_tokens_reserved,
        );
        if remaining_generated < check.reserved_generated_tokens {
            self.state.insert(check.api_key, counters);
            return Err(
                QuotaError::GeneratedTokensExceeded {
                    remaining: remaining_generated,
                    requested: check.reserved_generated_tokens,
                },
            );
        }
        counters.requests = counters.requests + 1;
        counters.prompt_tokens = counters.prompt_tokens + check.prompt_tokens;
        counters.generated_tokens_reserved = counters.generated_tokens_reserved
            + check.reserved_generated_tokens;
        self.state.insert(check.api_key.clone(), counters);
        let reservation = QuotaReservation {
            id,
            api_key: check.api_key,
            prompt_tokens: check.prompt_tokens,
            reserved_generated_tokens: check.reserved_generated_tokens,
            remaining_requests: self.limits.requests_per_minute.saturating_sub(counters.requests),
            remaining_prompt_tokens: self.limits.prompt_tokens_per_minute.saturating_sub(
                counters.prompt_tokens,
            ),
            remaining_generated_tokens: self.limits.generated_tokens_per_minute.saturating_sub(
                counters.generated_tokens_reserved,
            ),
        };
        self.reservations.insert(id, reservation.clone());
        Ok(reservation)
    }

    /// Settles a reservation for what was really generated, and says how much
    /// of it is given back.
    pub fn reconcile(&mut self, reservation_id: u128, actual_generated_tokens: u64) -> (r: Result<
        u64,
        QuotaError,
    >)
        ensures
            final(self).limits() == old(self).limits(),
            (final(self)@, r) == settling(old(self)@, reservation_id, actual_generated_tokens),
    {
        let reservation = match self.reservations.remove(&reservation_id) {
            Some(reservation) => reservation,
            None => {
                assert(self.reservations@ =~= old(self).reservations@);
                return Err(QuotaError::ReservationNotFound);
            },
        };
        let refund = reservation.reserved_generated_tokens.saturating_sub(actual_generated_tokens);
        if refund == 0 {
            return Ok(0);
        }
        let stored = match self.state.get(reservation.api_key.as_str()) {
            Some(window) => Some(*window),
            None => None,
        };
        if let Some(window) = stored {
            let mut counters = window;
            counters.generated_tokens_reserved = counters.generated_tokens_reserved.saturating_sub(
                refund,
            );
            self.state.insert(reservation.api_key, counters);
        }
        Ok(refund)
    }

    /// Settles a reservation for which nothing was generated.
    pub fn cancel(&mut self, reservation_id: u128) -> (r: Result<u64, QuotaError>)
        ensures
            final(self).limits() == old(self).limits(),
            (final(self)@, r) == settling(old(self)@, reservation_id, 0),
    {
        self.reconcile(reservation_id, 0)
    }
}

/// Neither a request to reserve nor a settlement takes any key past its limits.
pub proof fn law_use_stays_within_limits(
    ledger: Ledger,
    limits: QuotaLimits,
    minute: u64,
    id: u128,
    check: QuotaCheck,
    actual: u64,
)
    requires
        ledger.within(limits),
    ensures
        reserving(ledger, limits, minute, id, check).0.within(limits),
        settling(ledger, id, actual).0.within(limits),
{
    let used = ledger.used(check.api_key@, minute);
    assert(ledger.windows.contains_key(check.api_key@) ==> {
        &&& ledger.windows[check.api_key@].requests <= limits.requests_per_minute
        &&& ledger.windows[check.api_key@].prompt_tokens <= limits.prompt_tokens_per_minute
        &&& ledger.windows[check.api_key@].generated_tokens_reserved
            <= limits.generated_tokens_per_minute
    });
    let after = reserving(ledger, limits, minute, id, check).0;
    assert forall|key: Seq<char>| #[trigger] after.windows.contains_key(key) implies {
        &&& after.windows[key].requests <= limits.requests_per_minute
        &&& after.windows[key].prompt_tokens <= limits.prompt_tokens_per_minute
        &&& after.windows[key].generated_tokens_reserved <= limits.generated_tokens_per_minute
    } by {
        if key != check.api_key@ {
            assert(ledger.windows.contains_key(key));
        }
    }
    let settled = settling(ledger, id, actual).0;
    assert forall|key: Seq<char>| #[trigger] settled.windows.contains_key(key) implies {
        &&& settled.windows[key].requests <= limits.requests_per_minute
        &&& settled.windows[key].prompt_tokens <= limits.prompt_tokens_per_minute
        &&& settled.windows[key].generated_tokens_reserved <= limits.generated_tokens_per_minute
    } by {
        assert(ledger.windows.contains_key(key));
    }
}

/// A request that is refused reserves nothing: no reservation is added or
/// lost, and what every key has used of the minute stays as it was.
pub proof fn law_refusal_changes_no_use(
    ledger: Ledger,
    limits: QuotaLimits,
    minute: u64,
    id: u128,
    check: QuotaCheck,
    key: Seq<char>,
)
    requires
        reserving(ledger, limits, minute, id, check).1 is Err,
    ensures
        reserving(ledger, limits, minute, id, check).0.open == ledger.open,
        reserving(ledger, limits, minute, id, check).0.used(key, minute) == ledger.used(
            key,
            minute,
        ),
{
}

/// A request is granted if and only if all three limits leave room for it.
pub proof fn law_granted_when_all_fits(
    ledger: Ledger,
    limits: QuotaLimits,
    minute: u64,
    id: u128,
    check: QuotaCheck,
)
    ensures
        reserving(ledger, limits, minute, id, check).1 is Ok <==> {
            let used = ledger.used(check.api_key@, minute);
            &&& used.requests < limits.requests_per_minute
            &&& check.prompt_tokens <= left(limits.prompt_tokens_per_minute, used.prompt_tokens)
            &&& check.reserved_generated_tokens <= left(
                limits.generated_tokens_per_minute,
                used.generated_tokens_reserved,
            )
        },
{
}

/// A reservation that is settled in the minute it was made in leaves the key
/// charged for what was generated, up to what was reserved, and for the request
/// and its prompt; the reservation itself is gone.
pub proof fn law_settling_charges_what_was_used(
    ledger: Ledger,
    limits: QuotaLimits,
    minute: u64,
    id: u128,
    check: QuotaCheck,
    actual: u64,
)
    requires
        reserving(ledger, limits, minute, id, check).1 is Ok,
        !ledger.open.contains_key(id),
    ensures
        ({
            let used = ledger.used(check.api_key@, minute);
            let (after, refund) = settling(
                reserving(ledger, limits, minute, id, check).0,
                id,
                actual,
            );
            let charge = if actual < check.reserved_generated_tokens {
                actual
            } else {
                check.reserved_generated_tokens
            };
            &&& refund == Ok::<u64, QuotaError>((check.reserved_generated_tokens - charge) as u64)
            &&& after.open == ledger.open
            &&& after.used(check.api_key@, minute).generated_tokens_reserved
                == used.generated_tokens_reserved + charge
            &&& after.used(check.api_key@, minute).requests == used.requests + 1
            &&& after.used(check.api_key@, minute).prompt_tokens == used.prompt_tokens
                + check.prompt_tokens
        }),
{
    let (after, refund) = settling(reserving(ledger, limits, minute, id, check).0, id, actual);
    assert(after.open =~= ledger.open);
}

/// A reservation is settled once: after that it is not found.
pub proof fn law_settled_once(ledger: Ledger, id: u128, first: u64, second: u64)
    ensures
        settling(settling(ledger, id, first).0, id, second) == (
            settling(ledger, id, first).0,
            Err::<u64, QuotaError>(QuotaError::ReservationNotFound),
        ),
{
}

/// What one key reserves or gets back leaves every other key's window alone.
pub proof fn law_keys_are_separate(
    ledger: Ledger,
    limits: QuotaLimits,
    minute: u64,
    id: u128,
    check: QuotaCheck,
    actual: u64,
    other: Seq<char>,
)
    ensures
        other != check.api_key@ ==> {
            let after = reserving(ledger, limits, minute, id, check).0;
            &&& after.windows.contains_key(other) == ledger.windows.contains_key(other)
            &&& after.windows[other] == ledger.windows[other]
        },
        ledger.open.contains_key(id) && other != ledger.open[id].api_key@ ==> {
            let after = settling(ledger, id, actual).0;
            &&& after.windows.contains_key(other) == ledger.windows.contains_key(other)
            &&& after.windows[other] == ledger.windows[other]
        },
{
}

/// A refund is never more than was reserved.
pub proof fn law_refund_is_bounded(ledger: Ledger, id: u128, actual: u64)
    ensures
        settling(ledger, id, actual).1 matches Ok(refund) ==> refund
            <= ledger.open[id].reserved_generated_tokens,
{
}

/// What is granted to a key in all.
pub struct Granted {
    pub requests: nat,
    pub prompt_tokens: nat,
    pub generated_tokens: nat,
}

/// The ledger after requests to reserve, made one after the other in a minute,
/// each under an identifier.
pub open spec fn after_requests(
    ledger: Ledger,
    limits: QuotaLimits,
    minute: u64,
    requests: Seq<(u128, QuotaCheck)>,
) -> Ledger
    decreases requests.len(),
{
    if requests.len() == 0 {
        ledger
    } else {
        let before = after_requests(ledger, limits, minute, requests.drop_last());
        reserving(before, limits, minute, requests.last().0, requests.last().1).0
    }
}

/// The answer to the last of some requests to reserve.
pub open spec fn last_answer(
    ledger: Ledger,
    limits: QuotaLimits,
    minute: u64,
    requests: Seq<(u128, QuotaCheck)>,
) -> Result<QuotaReservation, QuotaError> {
    let before = after_requests(ledger, limits, minute, requests.drop_last());
    reserving(before, limits, minute, requests.last().0, requests.last().1).1
}

/// What requests to reserve have been granted for a key.
pub open spec fn granted_to(
    key: Seq<char>,
    ledger: Ledger,
    limits: QuotaLimits,
    minute: u64,
    requests: Seq<(u128, QuotaCheck)>,
) -> Granted
    decreases requests.len(),
{
    if requests.len() == 0 {
        Granted { requests: 0, prompt_tokens: 0, generated_tokens: 0 }
    } else {
        let before = granted_to(key, ledger, limits, minute, requests.drop_last());
        let check = requests.last().1;
        if check.api_key@ == key && last_answer(ledger, limits, minute, requests) is Ok {
            Granted {
                requests: before.requests + 1,
                prompt_tokens: before.prompt_tokens + check.prompt_tokens as nat,
                generated_tokens: before.generated_tokens + check.reserved_generated_tokens as nat,
            }
        } else {
            before
        }
    }
}

/// What is granted to a key in one minute adds up to no more than its limits,
/// whatever is asked for and in whatever order, by this key and by others. Each
/// reservation says what is left: the limit less all that was granted with it.
pub proof fn law_grants_add_up_within_limits(
    key: Seq<char>,
    ledger: Ledger,
    limits: QuotaLimits,
    minute: u64,
    requests: Seq<(u128, QuotaCheck)>,
)
    requires
        ledger.used(key, minute) == fresh_window(minute),
    ensures
        ({
            let total = granted_to(key, ledger, limits, minute, requests);
            let used = after_requests(ledger, limits, minute, requests).used(key, minute);
            &&& total.requests <= limits.requests_per_minute
            &&& total.prompt_tokens <= limits.prompt_tokens_per_minute
            &&& total.generated_tokens <= limits.generated_tokens_per_minute
            &&& used.window_start_epoch_minute == minute
            &&& used.requests == total.requests
            &&& used.prompt_tokens == total.prompt_tokens
            &&& used.generated_tokens_reserved == total.generated_tokens
            &&& requests.len() > 0 && requests.last().1.api_key@ == key ==> (last_answer(
                ledger,
                limits,
                minute,
                requests,
            ) matches Ok(r) ==> {
                &&& r.remaining_requests == limits.requests_per_minute - total.requests
                &&& r.remaining_prompt_tokens == limits.prompt_tokens_per_minute
                    - total.prompt_tokens
                &&& r.remaining_generated_tokens == limits.generated_tokens_per_minute
                    - total.generated_tokens
            })
        }),
    decreases requests.len(),
{
    if requests.len() > 0 {
        law_grants_add_up_within_limits(key, ledger, limits, minute, requests.drop_last());
    }
}

/// What happens to a ledger: a request to reserve, or a settlement.
pub enum Step {
    Reserve(u128, QuotaCheck),
    Settle(u128, u64),
}

/// The ledger after a step in a minute.
pub open spec fn stepped(ledger: Ledger, limits: QuotaLimits, minute: u64, step: Step) -> Ledger {
    match step {
        Step::Reserve(id, check) => reserving(ledger, limits, minute, id, check).0,
        Step::Settle(id, actual) => settling(ledger, id, actual).0,
    }
}

/// The ledger of a limiter under which nothing is used yet.
pub open spec fn empty_ledger() -> Ledger {
    Ledger { windows: Map::empty(), open: Map::empty() }
}

/// The ledger that steps in one minute lead to from an empty one.
pub open spec fn reached(limits: QuotaLimits, minute: u64, steps: Seq<Step>) -> Ledger
    decreases steps.len(),
{
    if steps.len() == 0 {
        empty_ledger()
    } else {
        stepped(reached(limits, minute, steps.drop_last()), limits, minute, steps.last())
    }
}

/// What a reservation holds of a key's generated tokens.
pub open spec fn held_of(reservation: QuotaReservation, key: Seq<char>) -> nat {
    if reservation.api_key@ == key {
        reservation.reserved_generated_tokens as nat
    } else {
        0
    }
}

/// What the open reservations hold of a key's generated tokens.
pub open spec fn held(open: Map<u128, QuotaReservation>, key: Seq<char>) -> nat
    decreases open.dom().len(),
    when open.dom().finite()
{
    if open.dom().len() == 0 {
        0
    } else {
        let id = open.dom().choose();
        held(open.remove(id), key) + held_of(open[id], key)
    }
}

/// What is held without a reservation is less by what that one holds.
proof fn lemma_held_without(open: Map<u128, QuotaReservation>, key: Seq<char>, id: u128)
    requires
        open.dom().finite(),
        open.contains_key(id),
    ensures
        held(open, key) == held(open.remove(id), key) + held_of(open[id], key),
    decreases open.dom().len(),
{
    let other = open.dom().choose();
    assert(open.dom().contains(other));
    assert(open.dom().len() > 0);
    if other != id {
        assert(open.remove(other).dom() =~= open.dom().remove(other));
        assert(open.remove(id).dom() =~= open.dom().remove(id));
        lemma_held_without(open.remove(other), key, id);
        lemma_held_without(open.remove(id), key, other);
        assert(open.remove(other).remove(id) =~= open.remove(id).remove(other));
    }
}

/// What the steps of one minute keep: every window is of that minute and within
/// the limits, and holds at least what is reserved in it.
proof fn lemma_reached(limits: QuotaLimits, minute: u64, steps: Seq<Step>)
    ensures
        ({
            let ledger = reached(limits, minute, steps);
            &&& ledger.open.dom().finite()
            &&& ledger.within(limits)
            &&& forall|key: Seq<char>| #[trigger]
                ledger.windows.contains_key(key) ==> ledger.windows[key].window_start_epoch_minute
                    == minute
            &&& forall|key: Seq<char>| #[trigger]
                held(ledger.open, key) <= ledger.used(key, minute).generated_tokens_reserved
            &&& forall|id: u128| #[trigger]
                ledger.open.contains_key(id) ==> ledger.windows.contains_key(
                    ledger.open[id].api_key@,
                )
        }),
    decreases steps.len(),
{
    if steps.len() == 0 {
        assert(empty_ledger().open.dom() =~= Set::empty());
        assert forall|key: Seq<char>| #[trigger] held(empty_ledger().open, key) == 0 by {}
    } else {
        let before = reached(limits, minute, steps.drop_last());
        let after = reached(limits, minute, steps);
        lemma_reached(limits, minute, steps.drop_last());
        match steps.last() {
            Step::Reserve(id, check) => {
                law_use_stays_within_limits(before, limits, minute, id, check, 0);
                if after.open != before.open {
                    assert(after.open.dom() =~= before.open.dom().insert(id));
                    assert(after.open.remove(id) =~= before.open.remove(id));
                    assert forall|key: Seq<char>| #[trigger] held(after.open, key) <= after.used(
                        key,
                        minute,
                    ).generated_tokens_reserved by {
                        lemma_held_without(after.open, key, id);
                        if before.open.contains_key(id) {
                            lemma_held_without(before.open, key, id);
                        } else {
                            assert(before.open.remove(id) =~= before.open);
                        }
                        assert(held(before.open, key) <= before.used(
                            key,
                            minute,
                        ).generated_tokens_reserved);
                    }
                } else {
                    assert forall|key: Seq<char>| #[trigger] held(after.open, key) <= after.used(
                        key,
                        minute,
                    ).generated_tokens_reserved by {
                        assert(held(before.open, key) <= before.used(
                            key,
                            minute,
                        ).generated_tokens_reserved);
                    }
                }
                assert forall|other: u128| #[trigger]
                    after.open.contains_key(other) implies after.windows.contains_key(
                    after.open[other].api_key@,
                ) by {
                    if before.open.contains_key(other) {
                        assert(before.windows.contains_key(before.open[other].api_key@));
                    }
                }
            },
            Step::Settle(id, actual) => {
                law_use_stays_within_limits(
                    before,
                    limits,
                    minute,
                    id,
                    arbitrary(),
                    actual,
                );
                if before.open.contains_key(id) {
                    assert(after.open =~= before.open.remove(id));
                    assert(after.open.dom() =~= before.open.dom().remove(id));
                    assert forall|key: Seq<char>| #[trigger] held(after.open, key) <= after.used(
                        key,
                        minute,
                    ).generated_tokens_reserved by {
                        lemma_held_without(before.open, key, id);
                        assert(held(before.open, key) <= before.used(
                            key,
                            minute,
                        ).generated_tokens_reserved);
                        assert(before.windows.contains_key(before.open[id].api_key@));
                    }
                }
                assert forall|other: u128| #[trigger]
                    after.open.contains_key(other) implies after.windows.contains_key(
                    after.open[other].api_key@,
                ) by {
                    assert(before.open.contains_key(other));
                }
            },
        }
    }
}

/// A refund frees exactly that many generated tokens of its key, after whatever
/// has happened in the minute: a request for all that is then free is not
/// refused for them. Requests and prompt tokens are not given back, other keys
/// are left alone, and more use than was reserved gives nothing back and
/// charges nothing more.
pub proof fn law_refunds_free_what_they_say(
    limits: QuotaLimits,
    minute: u64,
    steps: Seq<Step>,
    id: u128,
    actual: u64,
    refund: u64,
    next: u128,
    check: QuotaCheck,
)
    requires
        settling(reached(limits, minute, steps), id, actual).1 == Ok::<u64, QuotaError>(refund),
    ensures
        ({
            let before = reached(limits, minute, steps);
            let after = settling(before, id, actual).0;
            let key = before.open[id].api_key@;
            let limit = limits.generated_tokens_per_minute;
            let was = before.used(key, minute);
            let is = after.used(key, minute);
            &&& before.open.contains_key(id)
            &&& after.open == before.open.remove(id)
            &&& left(limit, is.generated_tokens_reserved) == left(
                limit,
                was.generated_tokens_reserved,
            ) + refund
            &&& is.generated_tokens_reserved + refund == was.generated_tokens_reserved
            &&& is.requests == was.requests
            &&& is.prompt_tokens == was.prompt_tokens
            &&& forall|other: Seq<char>|
                other != key ==> #[trigger] after.used(other, minute) == before.used(other, minute)
            &&& actual >= before.open[id].reserved_generated_tokens ==> refund == 0
                && after.windows == before.windows
            &&& check.api_key@ == key && check.reserved_generated_tokens <= left(
                limit,
                was.generated_tokens_reserved,
            ) + refund ==> !(reserving(after, limits, minute, next, check).1 matches Err(
                QuotaError::GeneratedTokensExceeded { .. },
            ))
        }),
{
    let before = reached(limits, minute, steps);
    lemma_reached(limits, minute, steps);
    let key = before.open[id].api_key@;
    assert(before.open.contains_key(id));
    assert(before.windows.contains_key(key));
    lemma_held_without(before.open, key, id);
    assert(held(before.open, key) <= before.used(key, minute).generated_tokens_reserved);
}

/// Every minute starts afresh: where a key has no window, or one of any other
/// minute, a request is granted exactly if it is within the whole limits, and
/// then leaves the whole limits less its own use. A request that is refused
/// leaves an empty window, and is told the whole limit that it passed.
pub proof fn law_minutes_start_afresh(
    ledger: Ledger,
    limits: QuotaLimits,
    minute: u64,
    id: u128,
    check: QuotaCheck,
)
    requires
        ledger.windows.contains_key(check.api_key@) ==> ledger.windows[check.api_key@].window_start_epoch_minute
            != minute,
    ensures
        ({
            let (after, answer) = reserving(ledger, limits, minute, id, check);
            &&& answer is Ok <==> 1 <= limits.requests_per_minute && check.prompt_tokens
                <= limits.prompt_tokens_per_minute && check.reserved_generated_tokens
                <= limits.generated_tokens_per_minute
            &&& answer matches Ok(r) ==> {
                &&& r.id == id
                &&& r.api_key == check.api_key
                &&& r.prompt_tokens == check.prompt_tokens
                &&& r.reserved_generated_tokens == check.reserved_generated_tokens
                &&& r.remaining_requests == limits.requests_per_minute - 1
                &&& r.remaining_prompt_tokens == limits.prompt_tokens_per_minute
                    - check.prompt_tokens
                &&& r.remaining_generated_tokens == limits.generated_tokens_per_minute
                    - check.reserved_generated_tokens
                &&& after.open == ledger.open.insert(id, r)
                &&& after.windows == ledger.windows.insert(
                    check.api_key@,
                    (WindowCounters {
                        window_start_epoch_minute: minute,
                        requests: 1,
                        prompt_tokens: check.prompt_tokens,
                        generated_tokens_reserved: check.reserved_generated_tokens,
                    }),
                )
            }
            &&& answer matches Err(error) ==> {
                &&& after.open == ledger.open
                &&& after.windows == ledger.windows.insert(
                    check.api_key@,
                    (WindowCounters {
                        window_start_epoch_minute: minute,
                        requests: 0,
                        prompt_tokens: 0,
                        generated_tokens_reserved: 0,
                    }),
                )
                &&& if limits.requests_per_minute == 0 {
                    error == (QuotaError::RequestsExceeded { remaining: 0 })
                } else if check.prompt_tokens > limits.prompt_tokens_per_minute {
                    error == (QuotaError::PromptTokensExceeded {
                        remaining: limits.prompt_tokens_per_minute,
                        requested: check.prompt_tokens,
                    })
                } else {
                    error == (QuotaError::GeneratedTokensExceeded {
                        remaining: limits.generated_tokens_per_minute,
                        requested: check.reserved_generated_tokens,
                    })
                }
            }
        }),
{
}

/// Within a minute use adds up: a request is granted exactly if it and what its
/// key has used of the minute stay within each limit together. Then the window
/// counts it on top, and the reservation says what both leave of the limits. A
/// request that is refused leaves the window as it is, and is told what the key
/// had left of the first limit that it passes.
pub proof fn law_use_of_a_minute_adds_up(
    ledger: Ledger,
    limits: QuotaLimits,
    minute: u64,
    id: u128,
    check: QuotaCheck,
)
    requires
        ledger.windows.contains_key(check.api_key@),
        ledger.windows[check.api_key@].window_start_epoch_minute == minute,
        ledger.windows[check.api_key@].requests <= limits.requests_per_minute,
        ledger.windows[check.api_key@].prompt_tokens <= limits.prompt_tokens_per_minute,
        ledger.windows[check.api_key@].generated_tokens_reserved
            <= limits.generated_tokens_per_minute,
    ensures
        ({
            let key = check.api_key@;
            let was = ledger.windows[key];
            let (after, answer) = reserving(ledger, limits, minute, id, check);
            let is = after.windows[key];
            &&& after.windows.contains_key(key)
            &&& is.window_start_epoch_minute == minute
            &&& answer is Ok <==> was.requests + 1 <= limits.requests_per_minute
                && was.prompt_tokens + check.prompt_tokens <= limits.prompt_tokens_per_minute
                && was.generated_tokens_reserved + check.reserved_generated_tokens
                <= limits.generated_tokens_per_minute
            &&& answer matches Ok(r) ==> {
                &&& is.requests == was.requests + 1
                &&& is.prompt_tokens == was.prompt_tokens + check.prompt_tokens
                &&& is.generated_tokens_reserved == was.generated_tokens_reserved
                    + check.reserved_generated_tokens
                &&& r.id == id
                &&& r.api_key == check.api_key
                &&& r.prompt_tokens == check.prompt_tokens
                &&& r.reserved_generated_tokens == check.reserved_generated_tokens
                &&& r.remaining_requests + is.requests == limits.requests_per_minute
                &&& r.remaining_prompt_tokens + is.prompt_tokens == limits.prompt_tokens_per_minute
                &&& r.remaining_generated_tokens + is.generated_tokens_reserved
                    == limits.generated_tokens_per_minute
                &&& after.open == ledger.open.insert(id, r)
            }
            &&& answer matches Err(error) ==> {
                &&& after.windows == ledger.windows
                &&& after.open == ledger.open
                &&& match error {
                    QuotaError::RequestsExceeded { remaining } => was.requests
                        == limits.requests_per_minute && remaining == 0,
                    QuotaError::PromptTokensExceeded { remaining, requested } => {
                        &&& was.requests < limits.requests_per_minute
                        &&& remaining + was.prompt_tokens == limits.prompt_tokens_per_minute
                        &&& requested == check.prompt_tokens
                        &&& remaining < requested
                    },
                    QuotaError::GeneratedTokensExceeded { remaining, requested } => {
                        &&& was.requests < limits.requests_per_minute
                        &&& was.prompt_tokens + check.prompt_tokens
                            <= limits.prompt_tokens_per_minute
                        &&& remaining + was.generated_tokens_reserved
                            == limits.generated_tokens_per_minute
                        &&& requested == check.reserved_generated_tokens
                        &&& remaining < requested
                    },
                    QuotaError::ReservationNotFound => false,
                }
            }
        }),
{
    assert(ledger.windows.insert(check.api_key@, ledger.windows[check.api_key@])
        =~= ledger.windows);
}

/// A settlement gives back what was reserved and not generated, and no more: the
/// window of the reservation's key, whatever its minute, counts that many
/// generated tokens less, or none where it counts fewer, and nothing else of it
/// changes. The reservation is gone, no other is touched, and an identifier that
/// stands for none changes nothing.
pub proof fn law_settling_gives_back_what_was_not_used(ledger: Ledger, id: u128, actual: u64)
    ensures
        ({
            let (after, answer) = settling(ledger, id, actual);
            let reservation = ledger.open[id];
            let key = reservation.api_key@;
            let reserved = reservation.reserved_generated_tokens;
            &&& !ledger.open.contains_key(id) ==> after == ledger
                && answer == Err::<u64, QuotaError>(QuotaError::ReservationNotFound)
            &&& ledger.open.contains_key(id) ==> {
                &&& answer matches Ok(refund)
                &&& actual <= reserved ==> refund + actual == reserved
                &&& actual > reserved ==> refund == 0
                &&& after.open == ledger.open.remove(id)
                &&& after.windows.dom() == ledger.windows.dom()
                &&& forall|other: Seq<char>|
                    other != key && ledger.windows.contains_key(other)
                        ==> #[trigger] after.windows[other] == ledger.windows[other]
                &&& ledger.windows.contains_key(key) ==> {
                    let was = ledger.windows[key];
                    let is = after.windows[key];
                    &&& is.window_start_epoch_minute == was.window_start_epoch_minute
                    &&& is.requests == was.requests
                    &&& is.prompt_tokens == was.prompt_tokens
                    &&& refund <= was.generated_tokens_reserved ==> is.generated_tokens_reserved
                        + refund == was.generated_tokens_reserved
                    &&& refund > was.generated_tokens_reserved ==> is.generated_tokens_reserved == 0
                }
            }
        }),
{
    let after = settling(ledger, id, actual).0;
    assert(after.windows.dom() =~= ledger.windows.dom());
}

/// The second request of a key in a minute is granted exactly if the limits hold
/// what both ask for, and then leaves the limits less the use of both.
pub proof fn law_second_requests_get_the_rest(
    ledger: Ledger,
    limits: QuotaLimits,
    minute: u64,
    ids: (u128, u128),
    first: QuotaCheck,
    second: QuotaCheck,
)
    requires
        !ledger.windows.contains_key(first.api_key@),
        first.api_key@ == second.api_key@,
        reserving(ledger, limits, minute, ids.0, first).1 is Ok,
    ensures
        ({
            let between = reserving(ledger, limits, minute, ids.0, first).0;
            let answer = reserving(between, limits, minute, ids.1, second).1;
            &&& answer is Ok <==> 2 <= limits.requests_per_minute && first.prompt_tokens
                + second.prompt_tokens <= limits.prompt_tokens_per_minute
                && first.reserved_generated_tokens + second.reserved_generated_tokens
                <= limits.generated_tokens_per_minute
            &&& answer matches Ok(r) ==> {
                &&& r.remaining_requests == limits.requests_per_minute - 2
                &&& r.remaining_prompt_tokens == limits.prompt_tokens_per_minute
                    - first.prompt_tokens - second.prompt_tokens
                &&& r.remaining_generated_tokens == limits.generated_tokens_per_minute
                    - first.reserved_generated_tokens - second.reserved_generated_tokens
            }
        }),
{
}

/// The next minute owes nothing to the one before it: whatever a key has used
/// up, a request in any other minute is answered as if it were the first.
pub proof fn law_other_minutes_owe_nothing(
    ledger: Ledger,
    limits: QuotaLimits,
    earlier: u64,
    later: u64,
    ids: (u128, u128),
    first: QuotaCheck,
    second: QuotaCheck,
)
    requires
        earlier != later,
        first.api_key@ == second.api_key@,
    ensures
        ({
            let between = reserving(ledger, limits, earlier, ids.0, first).0;
            let nothing = Ledger { windows: Map::empty(), open: Map::empty() };
            reserving(between, limits, later, ids.1, second).1 == reserving(
                nothing,
                limits,
                later,
                ids.1,
                second,
            ).1
        }),
{
}

/// A refusal says which limit was passed, what was left of it, and what was
/// asked for.
pub proof fn law_refusals_say_their_numbers(remaining: u64, requested: u64)
    ensures
        (QuotaError::RequestsExceeded { remaining }).words()
            == "request quota exceeded: remaining="@ + decimal(remaining as nat)
            + ", requested=1"@,
        (QuotaError::PromptTokensExceeded { remaining, requested }).words()
            == "prompt token quota exceeded: remaining="@ + decimal(remaining as nat)
            + ", requested="@ + decimal(requested as nat),
        (QuotaError::GeneratedTokensExceeded { remaining, requested }).words()
            == "generated token quota exceeded: remaining="@ + decimal(remaining as nat)
            + ", requested="@ + decimal(requested as nat),
        QuotaError::ReservationNotFound.words() == "reservation not found"@,
{
}

} // verus!
