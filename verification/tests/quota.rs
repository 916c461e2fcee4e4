use inference_gateway::quota::{
    InMemoryQuotaLimiter, QuotaCheck, QuotaError, QuotaLimits, QuotaReservation,
};

fn limiter() -> InMemoryQuotaLimiter {
    InMemoryQuotaLimiter::new(QuotaLimits {
        requests_per_minute: 2,
        prompt_tokens_per_minute: 100,
        generated_tokens_per_minute: 50,
    })
}

fn check(api_key: &str, prompt_tokens: u64, reserved_generated_tokens: u64) -> QuotaCheck {
    QuotaCheck { api_key: api_key.to_string(), prompt_tokens, reserved_generated_tokens }
}

#[test]
fn reserves_and_refunds_unused_generation_tokens() {
    let mut limiter = limiter();
    let reservation = limiter
        .reserve(QuotaCheck {
            api_key: "key".to_string(),
            prompt_tokens: 10,
            reserved_generated_tokens: 40,
        })
        .unwrap();

    let refunded = limiter.reconcile(reservation.id, 12).unwrap();

    assert_eq!(refunded, 28);
}

#[test]
fn rejects_when_generated_quota_would_be_exceeded() {
    let mut limiter = limiter();
    limiter
        .reserve(QuotaCheck {
            api_key: "key".to_string(),
            prompt_tokens: 10,
            reserved_generated_tokens: 40,
        })
        .unwrap();

    let error = limiter
        .reserve(QuotaCheck {
            api_key: "key".to_string(),
            prompt_tokens: 10,
            reserved_generated_tokens: 20,
        })
        .unwrap_err();

    assert_eq!(
        error,
        QuotaError::GeneratedTokensExceeded { remaining: 10, requested: 20 }
    );
}

#[test]
fn cancellation_refunds_reserved_generation_tokens() {
    let mut limiter = limiter();
    let reservation = limiter
        .reserve(QuotaCheck {
            api_key: "key".to_string(),
            prompt_tokens: 10,
            reserved_generated_tokens: 40,
        })
        .unwrap();

    let refunded = limiter.cancel(reservation.id).unwrap();

    assert_eq!(refunded, 40);
}

#[test]
fn default_limits() {
    let limits = QuotaLimits::default();
    assert_eq!(limits.requests_per_minute, 60);
    assert_eq!(limits.prompt_tokens_per_minute, 120_000);
    assert_eq!(limits.generated_tokens_per_minute, 60_000);
}

#[test]
fn reservations_say_what_is_left() {
    let mut limiter = limiter();
    let reservation = limiter.reserve_at(5, 9, check("key", 10, 40)).unwrap();
    assert_eq!(
        reservation,
        QuotaReservation {
            id: 9,
            api_key: "key".to_string(),
            prompt_tokens: 10,
            reserved_generated_tokens: 40,
            remaining_requests: 1,
            remaining_prompt_tokens: 90,
            remaining_generated_tokens: 10,
        }
    );
}

#[test]
fn every_limit_is_kept_and_named() {
    let mut limiter = limiter();
    let error = limiter.reserve_at(5, 1, check("key", 101, 0)).unwrap_err();
    assert_eq!(error, QuotaError::PromptTokensExceeded { remaining: 100, requested: 101 });
    assert_eq!(error.message(), "prompt token quota exceeded: remaining=100, requested=101");
    let error = limiter.reserve_at(5, 1, check("key", 0, 51)).unwrap_err();
    assert_eq!(error.message(), "generated token quota exceeded: remaining=50, requested=51");
    limiter.reserve_at(5, 1, check("key", 0, 0)).unwrap();
    limiter.reserve_at(5, 2, check("key", 0, 0)).unwrap();
    let error = limiter.reserve_at(5, 3, check("key", 0, 0)).unwrap_err();
    assert_eq!(error, QuotaError::RequestsExceeded { remaining: 0 });
    assert_eq!(error.message(), "request quota exceeded: remaining=0, requested=1");
}

#[test]
fn a_refused_request_uses_nothing() {
    let mut limiter = limiter();
    limiter.reserve_at(5, 1, check("key", 60, 30)).unwrap();
    limiter.reserve_at(5, 2, check("key", 0, 21)).unwrap_err();
    let reservation = limiter.reserve_at(5, 2, check("key", 40, 20)).unwrap();
    assert_eq!(reservation.remaining_requests, 0);
    assert_eq!(reservation.remaining_prompt_tokens, 0);
    assert_eq!(reservation.remaining_generated_tokens, 0);
}

#[test]
fn a_new_minute_starts_afresh() {
    let mut limiter = limiter();
    limiter.reserve_at(5, 1, check("key", 100, 50)).unwrap();
    let reservation = limiter.reserve_at(6, 2, check("key", 100, 50)).unwrap();
    assert_eq!(reservation.remaining_requests, 1);
}

#[test]
fn a_reservation_is_settled_once() {
    let mut limiter = limiter();
    limiter.reserve_at(5, 1, check("key", 10, 40)).unwrap();
    assert_eq!(limiter.reconcile(1, 12), Ok(28));
    let error = limiter.reconcile(1, 0).unwrap_err();
    assert_eq!(error, QuotaError::ReservationNotFound);
    assert_eq!(error.message(), "reservation not found");
    let reservation = limiter.reserve_at(5, 2, check("key", 0, 0)).unwrap();
    assert_eq!(reservation.remaining_generated_tokens, 38);
}

#[test]
fn more_than_reserved_is_not_charged() {
    let mut limiter = limiter();
    limiter.reserve_at(5, 1, check("key", 10, 40)).unwrap();
    assert_eq!(limiter.reconcile(1, 90), Ok(0));
    let reservation = limiter.reserve_at(5, 2, check("key", 0, 10)).unwrap();
    assert_eq!(reservation.remaining_generated_tokens, 0);
}

#[test]
fn keys_have_quotas_of_their_own() {
    let mut limiter = limiter();
    limiter.reserve_at(5, 1, check("key", 100, 50)).unwrap();
    let other = limiter.reserve_at(5, 2, check("other", 100, 50)).unwrap();
    assert_eq!(other.remaining_requests, 1);
    assert_eq!(limiter.cancel(2), Ok(50));
    limiter.reserve_at(5, 3, check("key", 0, 1)).unwrap_err();
}

#[test]
fn a_late_refund_goes_to_the_window_of_the_moment() {
    let mut limiter = limiter();
    limiter.reserve_at(5, 1, check("key", 0, 40)).unwrap();
    limiter.reserve_at(6, 2, check("key", 0, 30)).unwrap();
    assert_eq!(limiter.cancel(1), Ok(40));
    let reservation = limiter.reserve_at(6, 3, check("key", 0, 50)).unwrap();
    assert_eq!(reservation.remaining_generated_tokens, 0);
}

#[test]
fn fresh_reservations_have_random_identifiers() {
    let mut limiter = limiter();
    let first = limiter.reserve(check("a", 0, 0)).unwrap();
    let second = limiter.reserve(check("b", 0, 0)).unwrap();
    assert_ne!(first.id, second.id);
    assert_eq!(uuid::Uuid::from_u128(first.id).get_version_num(), 4);
}

#[test]
fn grants_add_up_and_refunds_free_what_they_say() {
    let mut limiter = InMemoryQuotaLimiter::new(QuotaLimits {
        requests_per_minute: 5,
        prompt_tokens_per_minute: 100,
        generated_tokens_per_minute: 50,
    });
    let first = limiter.reserve_at(5, 1, check("key", 30, 20)).unwrap();
    assert_eq!(first.remaining_generated_tokens, 30);
    let second = limiter.reserve_at(5, 2, check("key", 30, 20)).unwrap();
    assert_eq!(second.remaining_requests, 3);
    assert_eq!(second.remaining_prompt_tokens, 40);
    assert_eq!(second.remaining_generated_tokens, 10);
    limiter.reserve_at(5, 3, check("key", 30, 11)).unwrap_err();
    assert_eq!(limiter.reconcile(1, 5), Ok(15));
    let third = limiter.reserve_at(5, 4, check("key", 40, 25)).unwrap();
    assert_eq!(third.remaining_requests, 2);
    assert_eq!(third.remaining_prompt_tokens, 0);
    assert_eq!(third.remaining_generated_tokens, 0);
}
