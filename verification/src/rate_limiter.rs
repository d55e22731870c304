//! Global rate limiting with a 30-second cooldown between requests.
//!
//! Any request made within 30 seconds of the last admitted one is rejected
//! with a `429 Too Many Requests` response.
use crate::clock;
use crate::clock::{read_clock, this_instant, NANOS_PER_SEC, READING_LIMIT};
use crate::decimal;
use crate::response::Status;
use tokio::time::Instant;
use vstd::prelude::*;
use vstd::string::*;

verus! {

/// The length of the cooldown, in seconds.
pub const COOLDOWN_SECS: u64 = 30;

/// The length of the cooldown, in nanoseconds.
pub const COOLDOWN_NANOS: u128 = 30_000_000_000;

/// The time from `last` to `now`; nothing where `last` is the later one.
pub open spec fn time_between(last: nat, now: nat) -> nat {
    if last <= now {
        (now - last) as nat
    } else {
        0
    }
}

/// How much of the cooldown is left at `now`, in nanoseconds.
pub open spec fn cooldown_left(last: Option<nat>, now: nat) -> nat {
    match last {
        None => 0,
        Some(at) => if time_between(at, now) < COOLDOWN_NANOS {
            (COOLDOWN_NANOS - time_between(at, now)) as nat
        } else {
            0
        },
    }
}

/// A request at `now` is admitted.
pub open spec fn admits(last: Option<nat>, now: nat) -> bool {
    match last {
        None => true,
        Some(at) => time_between(at, now) >= COOLDOWN_NANOS,
    }
}

/// How much of the cooldown is left at `now`, in seconds, rounded up.
pub open spec fn seconds_left(last: Option<nat>, now: nat) -> nat {
    (cooldown_left(last, now) + NANOS_PER_SEC as nat - 1) as nat / (NANOS_PER_SEC as nat)
}

/// The text that a rejected request is answered with.
pub open spec fn wait_message(secs: nat) -> Seq<char> {
    "Rate limited. Please wait "@ + decimal::numeral(secs) + " seconds."@
}

/// What a check at `now` answers, and what it makes of the last admission.
pub open spec fn check_outcome(
    before: Option<nat>,
    now: nat,
    after: Option<nat>,
    answer: Result<(), (Status, String, u64)>,
) -> bool {
    match answer {
        Ok(_) => admits(before, now) && after == Some(now),
        Err((status, message, wait)) => {
            &&& !admits(before, now)
            &&& after == before
            &&& status == Status::TooManyRequests
            &&& wait == seconds_left(before, now)
            &&& message@ == wait_message(wait as nat)
        },
    }
}

/// Enforces a global 30-second cooldown between requests.
///
/// All state is in memory; it starts afresh with the process.
pub struct RateLimiter {
    /// The instant from which the limiter counts time.
    epoch: Instant,
    /// When the last request was admitted, in nanoseconds from `epoch`.
    last_request: Option<u128>,
}

impl View for RateLimiter {
    type V = Option<nat>;

    /// The moment of the last admission.
    closed spec fn view(&self) -> Option<nat> {
        match self.last_request {
            Some(at) => Some(at as nat),
            None => None,
        }
    }
}

impl RateLimiter {
    /// The instant from which the limiter counts time.
    pub closed spec fn started(&self) -> Instant {
        self.epoch
    }

    /// A limiter that has admitted nothing yet.
    pub fn new() -> (limiter: RateLimiter)
        ensures
            limiter@ is None,
            clock::is_now(limiter.started()),
    {
        RateLimiter { epoch: this_instant(), last_request: None }
    }

    /// Checks whether a request is admitted now: `Ok(())`, or the status, the
    /// message and the seconds to wait.
    pub fn check(&mut self) -> (answer: Result<(), (Status, String, u64)>)
        ensures
            exists|now: nat|
                now < READING_LIMIT && clock::is_reading(old(self).started(), now)
                    && #[trigger] check_outcome(old(self)@, now, final(self)@, answer),
            final(self).started() == old(self).started(),
            old(self)@ is None ==> answer is Ok,
    {
        let now: u128 = read_clock(&self.epoch);
        let answer = self.check_at(now);
        assert(check_outcome(old(self)@, now as nat, self@, answer));
        answer
    }

    /// Checks whether a request is admitted at `now`.
    pub fn check_at(&mut self, now: u128) -> (answer: Result<(), (Status, String, u64)>)
        ensures
            check_outcome(old(self)@, now as nat, final(self)@, answer),
            final(self).started() == old(self).started(),
    {
        if let Some(last) = self.last_request {
            let elapsed: u128 = elapsed_between(last, now);
            if elapsed < COOLDOWN_NANOS {
                let wait: u64 = RateLimiter::remaining_secs(elapsed);
                let mut message = "Rate limited. Please wait ".to_owned();
                message.append(decimal::decimal(wait).as_str());
                message.append(" seconds.");
                return Err((Status::TooManyRequests, message, wait));
            }
        }
        self.last_request = Some(now);
        Ok(())
    }

    /// The seconds that remain of the cooldown, 0 when the limiter is ready.
    pub fn status(&self) -> (secs: u64)
        ensures
            exists|now: nat|
                now < READING_LIMIT && clock::is_reading(self.started(), now) && secs
                    == #[trigger] seconds_left(self@, now),
            secs <= COOLDOWN_SECS,
            self@ is None ==> secs == 0,
    {
        let now: u128 = read_clock(&self.epoch);
        let secs: u64 = self.status_at(now);
        assert(secs == seconds_left(self@, now as nat));
        secs
    }

    /// The seconds that remain of the cooldown at `now`.
    pub fn status_at(&self, now: u128) -> (secs: u64)
        ensures
            secs == seconds_left(self@, now as nat),
            secs <= COOLDOWN_SECS,
    {
        match self.last_request {
            Some(last) => RateLimiter::remaining_secs(elapsed_between(last, now)),
            None => 0,
        }
    }

    /// The seconds that remain of the cooldown once `elapsed` nanoseconds have
    /// passed, rounded up so that callers never see 0 while it is active.
    pub fn remaining_secs(elapsed: u128) -> (secs: u64)
        ensures
            secs == seconds_left(Some(0), elapsed as nat),
            secs <= COOLDOWN_SECS,
            secs == 0 <==> elapsed >= COOLDOWN_NANOS,
    {
        if elapsed >= COOLDOWN_NANOS {
            0
        } else {
            let left: u128 = COOLDOWN_NANOS - elapsed;
            ((left + (NANOS_PER_SEC - 1)) / NANOS_PER_SEC) as u64
        }
    }
}

/// The time from `last` to `now`; nothing where `last` is the later one.
pub(crate) fn elapsed_between(last: u128, now: u128) -> (elapsed: u128)
    ensures
        elapsed == time_between(last as nat, now as nat),
{
    if last <= now {
        now - last
    } else {
        0
    }
}

/// The limiter reports 0 seconds exactly when it would admit a request: while
/// the cooldown is active, callers never see 0.
pub proof fn lemma_zero_means_ready(last: Option<nat>, now: nat)
    ensures
        seconds_left(last, now) == 0 <==> admits(last, now),
        seconds_left(last, now) <= COOLDOWN_SECS,
{
}

/// A rejected request that waits the announced number of seconds is admitted,
/// as long as no other request was admitted in between; one that comes back a
/// full second sooner is not.
pub proof fn lemma_announced_wait_is_exact(last: nat, now: nat, later: nat)
    requires
        !admits(Some(last), now),
        last <= now,
    ensures
        later >= now + seconds_left(Some(last), now) * NANOS_PER_SEC ==> admits(Some(last), later),
        later <= now + (seconds_left(Some(last), now) - 1) * NANOS_PER_SEC ==> !admits(
            Some(last),
            later,
        ),
{
}

/// The last admission after requests at the given moments, one after another.
pub open spec fn last_after(last: Option<nat>, moments: Seq<nat>) -> Option<nat>
    decreases moments.len(),
{
    if moments.len() == 0 {
        last
    } else {
        let before = last_after(last, moments.drop_last());
        if admits(before, moments.last()) {
            Some(moments.last())
        } else {
            before
        }
    }
}

/// The moments at which requests were admitted, out of requests at the given
/// moments, one after another.
pub open spec fn admissions(last: Option<nat>, moments: Seq<nat>) -> Seq<nat>
    decreases moments.len(),
{
    if moments.len() == 0 {
        Seq::empty()
    } else {
        let before = admissions(last, moments.drop_last());
        if admits(last_after(last, moments.drop_last()), moments.last()) {
            before.push(moments.last())
        } else {
            before
        }
    }
}

/// However the requests come, any two admissions lie at least 30 seconds
/// apart.
pub proof fn lemma_admissions_spaced(last: Option<nat>, moments: Seq<nat>)
    ensures
        forall|i: int, j: int|
            0 <= i < j < admissions(last, moments).len() ==> (#[trigger] admissions(last, moments)[j])
                - (#[trigger] admissions(last, moments)[i]) >= COOLDOWN_NANOS,
        admissions(last, moments).len() == 0 ==> last_after(last, moments) == last,
        admissions(last, moments).len() > 0 ==> last_after(last, moments) == Some(
            admissions(last, moments).last(),
        ),
    decreases moments.len(),
{
    if moments.len() > 0 {
        lemma_admissions_spaced(last, moments.drop_last());
    }
}

/// After a start the first request is admitted, whenever it comes, and from
/// then on the limiter refuses every request until the cooldown is over.
pub proof fn lemma_first_request_starts_cooldown(first: nat, next: nat)
    ensures
        admits(None, first),
        last_after(None, seq![first]) == Some(first),
        first <= next < first + COOLDOWN_NANOS ==> !admits(Some(first), next),
{
    reveal_with_fuel(last_after, 2);
    assert(seq![first].drop_last() =~= Seq::<nat>::empty());
}

/// The moment of the last admission and the instant from which time is counted
/// are what the limiter holds, unaltered.
proof fn lemma_limiter_holds_moments(limiter: RateLimiter)
    ensures
        limiter.started() == limiter.epoch,
        limiter@ is None <==> limiter.last_request is None,
        limiter@ is Some ==> limiter@->0 == limiter.last_request->0,
{
}

/// A check at a given moment: the first request is admitted, and any other
/// exactly when 30 seconds have passed since the last admission. An admission
/// is remembered; a refusal changes nothing, is a 429, and tells the seconds to
/// wait, rounded up, in its message too.
pub proof fn lemma_check_at_result(
    limiter: &mut RateLimiter,
    now: u128,
    answer: Result<(), (Status, String, u64)>,
)
    requires
        call_ensures(RateLimiter::check_at, (limiter, now), answer),
    ensures
        old(limiter)@ is None ==> answer is Ok,
        old(limiter)@ matches Some(last) ==> (answer is Ok <==> now >= last + 30_000_000_000),
        answer is Ok ==> final(limiter)@ == Some(now as nat),
        answer is Err ==> final(limiter)@ == old(limiter)@,
        final(limiter).started() == old(limiter).started(),
        answer matches Err((status, message, wait)) ==> {
            &&& status.number() == 429
            &&& 1 <= wait <= 30
            &&& now < old(limiter)@->0 ==> wait == 30
            &&& now >= old(limiter)@->0 ==> old(limiter)@->0 + 30_000_000_000 <= now + wait
                * 1_000_000_000 < old(limiter)@->0 + 31_000_000_000
            &&& message@ == "Rate limited. Please wait "@ + decimal::numeral(wait as nat)
                + " seconds."@
        },
{
}

/// A check decides on what the clock showed during the call, counted in
/// nanoseconds from the limiter's own start: it admits exactly when nothing was
/// admitted yet or the reading lies 30 seconds or more after the last
/// admission, remembers an admission at the reading, and announces what is left
/// at the reading.
pub proof fn lemma_check_result(
    limiter: &mut RateLimiter,
    answer: Result<(), (Status, String, u64)>,
)
    requires
        call_ensures(RateLimiter::check, (limiter,), answer),
    ensures
        exists|now: nat|
            {
                let last = old(limiter)@;
                &&& #[trigger] clock::is_reading(old(limiter).started(), now)
                &&& answer is Ok <==> last is None || now >= last->0 + 30_000_000_000
                &&& answer is Ok ==> final(limiter)@ == Some(now)
                &&& answer is Err && now < last->0 ==> answer->Err_0.2 == 30
                &&& answer is Err && now >= last->0 ==> last->0 + 30_000_000_000 <= now
                    + answer->Err_0.2 * 1_000_000_000 < last->0 + 31_000_000_000
            },
        answer is Err ==> final(limiter)@ == old(limiter)@,
        answer matches Err((status, message, wait)) ==> status.number() == 429 && 1 <= wait <= 30
            && message@ == "Rate limited. Please wait "@ + decimal::numeral(wait as nat)
            + " seconds."@,
        final(limiter).started() == old(limiter).started(),
{
    let now = choose|now: nat|
        now < READING_LIMIT && clock::is_reading(old(limiter).started(), now)
            && #[trigger] check_outcome(old(limiter)@, now, final(limiter)@, answer);
    assert(clock::is_reading(old(limiter).started(), now));
}

/// Two checks on one limiter, each on its own reading of the clock, with no
/// admission in between: if the first was admitted, the second is admitted
/// exactly when its reading lies 30 seconds or more after the first.
pub proof fn lemma_two_checks(
    first: &mut RateLimiter,
    first_answer: Result<(), (Status, String, u64)>,
    second: &mut RateLimiter,
    second_answer: Result<(), (Status, String, u64)>,
)
    requires
        call_ensures(RateLimiter::check, (first,), first_answer),
        call_ensures(RateLimiter::check, (second,), second_answer),
        old(second)@ == final(first)@,
        old(second).started() == final(first).started(),
        first_answer is Ok,
    ensures
        exists|m: nat, n: nat| #[trigger]
            clock::is_reading(old(first).started(), m) && #[trigger] clock::is_reading(
                old(first).started(),
                n,
            ) && (second_answer is Ok <==> n >= m + 30_000_000_000),
{
    let m = choose|m: nat|
        m < READING_LIMIT && clock::is_reading(old(first).started(), m) && #[trigger] check_outcome(
            old(first)@,
            m,
            final(first)@,
            first_answer,
        );
    let n = choose|n: nat|
        n < READING_LIMIT && clock::is_reading(old(second).started(), n)
            && #[trigger] check_outcome(old(second)@, n, final(second)@, second_answer);
    assert(clock::is_reading(old(first).started(), m));
    assert(clock::is_reading(old(first).started(), n));
}

/// The status at a given moment is 0 exactly when a check at that moment would
/// admit, and otherwise the seconds to wait, rounded up.
pub proof fn lemma_status_at_result(limiter: RateLimiter, now: u128, secs: u64)
    requires
        call_ensures(RateLimiter::status_at, (&limiter, now), secs),
    ensures
        limiter@ is None ==> secs == 0,
        limiter@ matches Some(last) ==> (secs == 0 <==> now >= last + 30_000_000_000),
        limiter@ matches Some(last) ==> (last <= now < last + 30_000_000_000 ==> last
            + 30_000_000_000 <= now + secs * 1_000_000_000 < last + 31_000_000_000),
        limiter@ matches Some(last) ==> (now < last ==> secs == 30),
{
}

/// The status is taken at what the clock showed during the call.
pub proof fn lemma_status_result(limiter: RateLimiter, secs: u64)
    requires
        call_ensures(RateLimiter::status, (&limiter,), secs),
    ensures
        limiter@ is None ==> secs == 0,
        limiter@ matches Some(last) ==> exists|now: nat|
            {
                &&& #[trigger] clock::is_reading(limiter.started(), now)
                &&& secs == 0 <==> now >= last + 30_000_000_000
                &&& last <= now < last + 30_000_000_000 ==> last + 30_000_000_000 <= now + secs
                    * 1_000_000_000 < last + 31_000_000_000
                &&& now < last ==> secs == 30
            },
{
    let now = choose|now: nat|
        now < READING_LIMIT && clock::is_reading(limiter.started(), now) && secs
            == #[trigger] seconds_left(limiter@, now);
    assert(clock::is_reading(limiter.started(), now));
}

/// What remains after some time, and that time, make up 30 seconds, but for the
/// rounding up of a fraction.
pub proof fn lemma_remaining_secs_result(elapsed: u128, secs: u64)
    requires
        call_ensures(RateLimiter::remaining_secs, (elapsed,), secs),
    ensures
        elapsed < 30_000_000_000 ==> 30_000_000_000 <= elapsed + secs * 1_000_000_000
            < 31_000_000_000,
        elapsed >= 30_000_000_000 ==> secs == 0,
{
}

/// A new limiter has admitted nothing, and counts from the moment it was made.
pub proof fn lemma_new_limiter_result(limiter: RateLimiter)
    requires
        call_ensures(RateLimiter::new, (), limiter),
    ensures
        limiter@ is None,
        call_ensures(Instant::now, (), limiter.started()),
{
}

/// The cooldown in its two units.
pub proof fn lemma_cooldown_length()
    ensures
        COOLDOWN_SECS == 30,
        COOLDOWN_NANOS == 30 * 1_000_000_000,
{
}

} // verus!
