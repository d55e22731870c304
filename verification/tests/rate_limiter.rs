use html_to_pdf_service::rate_limiter::{RateLimiter, COOLDOWN_NANOS};
use html_to_pdf_service::response::Status;

const SEC: u128 = 1_000_000_000;

#[test]
fn first_request_is_admitted_and_the_next_one_is_not() {
    let mut limiter = RateLimiter::new();
    assert_eq!(limiter.status(), 0);
    assert_eq!(limiter.check(), Ok(()));
    match limiter.check() {
        Err((status, message, wait)) => {
            assert_eq!(status, Status::TooManyRequests);
            assert_eq!(message, format!("Rate limited. Please wait {} seconds.", wait));
            assert!(wait == 30 || wait == 29);
        }
        Ok(()) => panic!("admitted within the cooldown"),
    }
    assert!(limiter.status() > 0);
}

#[test]
fn a_new_limiter_admits_again() {
    let mut old = RateLimiter::new();
    assert_eq!(old.check(), Ok(()));
    assert!(old.check().is_err());
    assert_eq!(RateLimiter::new().check(), Ok(()));
}

#[test]
fn cooldown_ends_after_thirty_seconds() {
    let mut limiter = RateLimiter::new();
    assert_eq!(limiter.check_at(5 * SEC), Ok(()));
    assert_eq!(
        limiter.check_at(35 * SEC - 1),
        Err((Status::TooManyRequests, "Rate limited. Please wait 1 seconds.".to_string(), 1))
    );
    assert_eq!(limiter.status_at(35 * SEC - 1), 1);
    assert_eq!(limiter.status_at(35 * SEC), 0);
    assert_eq!(limiter.check_at(35 * SEC), Ok(()));
    assert_eq!(limiter.status_at(35 * SEC), 30);
}

#[test]
fn rejected_requests_do_not_prolong_the_cooldown() {
    let mut limiter = RateLimiter::new();
    assert_eq!(limiter.check_at(0), Ok(()));
    for s in 1..30 {
        assert!(limiter.check_at(s * SEC).is_err());
    }
    assert_eq!(limiter.check_at(30 * SEC), Ok(()));
}

#[test]
fn waiting_the_announced_time_is_enough_and_a_second_less_is_not() {
    for offset in [0u128, 1, SEC - 1, SEC, 12_345_678_901, 29 * SEC, 30 * SEC - 1] {
        let mut limiter = RateLimiter::new();
        assert_eq!(limiter.check_at(7), Ok(()));
        let now = 7 + offset;
        let wait = match limiter.check_at(now) {
            Err((_, _, wait)) => wait as u128,
            Ok(()) => panic!("admitted within the cooldown"),
        };
        assert!(limiter.check_at(now + (wait - 1) * SEC).is_err());
        assert_eq!(limiter.check_at(now + wait * SEC), Ok(()));
    }
}

#[test]
fn admissions_are_spaced() {
    let mut limiter = RateLimiter::new();
    let mut admitted: Vec<u128> = Vec::new();
    let mut now: u128 = 0;
    for i in 0..500u128 {
        now += (i * 7_919_000_003) % (4 * SEC);
        if limiter.check_at(now).is_ok() {
            admitted.push(now);
        }
    }
    assert!(admitted.len() > 2);
    for pair in admitted.windows(2) {
        assert!(pair[1] - pair[0] >= COOLDOWN_NANOS);
    }
}

#[test]
fn an_earlier_reading_counts_as_no_time_passed() {
    let mut limiter = RateLimiter::new();
    assert_eq!(limiter.check_at(100 * SEC), Ok(()));
    assert_eq!(limiter.status_at(1), 30);
    assert!(limiter.check_at(1).is_err());
}

#[test]
fn remaining_seconds_round_up() {
    assert_eq!(RateLimiter::remaining_secs(0), 30);
    assert_eq!(RateLimiter::remaining_secs(1), 30);
    assert_eq!(RateLimiter::remaining_secs(SEC), 29);
    assert_eq!(RateLimiter::remaining_secs(30 * SEC - 1), 1);
    assert_eq!(RateLimiter::remaining_secs(30 * SEC), 0);
    assert_eq!(RateLimiter::remaining_secs(u128::MAX), 0);
}
