//! The `/generate-pdf` and `/health` endpoints: request validation, admission
//! and health reports.
use crate::clock;
use crate::clock::{read_clock, NANOS_PER_SEC, READING_LIMIT};
use crate::headers;
use crate::headers::{header_text, FORWARDED_FOR};
use crate::pipeline::{open_job, RenderJob};
use crate::rate_limiter;
use crate::response;
use crate::response::{rejected_response, text_response, Response, Status};
use crate::scale;
use crate::state::AppState;
use crate::text;
use axum::http::{HeaderMap, HeaderValue};
use tokio::sync::{Semaphore, SemaphorePermit};
use vstd::prelude::*;
use vstd::string::*;
use vstd::utf8::*;

verus! {

/// `tokio::sync::Semaphore`, the counter of free render slots.
#[verifier::external_type_specification]
#[verifier::external_body]
pub struct ExSemaphore(tokio::sync::Semaphore);

/// `tokio::sync::SemaphorePermit`, a render slot that is given back when the
/// permit is dropped.
#[verifier::external_type_specification]
#[verifier::external_body]
pub struct ExSemaphorePermit<'a>(tokio::sync::SemaphorePermit<'a>);

/// `tokio::sync::Semaphore::try_acquire`: a permit where one is free at the
/// moment of the call. Whether one is depends on the other holders, so nothing
/// is claimed.
#[verifier::external_body]
pub(crate) fn try_acquire<'a>(semaphore: &'a Semaphore) -> (permit: Option<SemaphorePermit<'a>>)
{
    semaphore.try_acquire().ok()
}

/// `tokio::sync::Semaphore::available_permits`: the permits that are free at
/// the moment of the call. The number depends on the other holders, so nothing
/// is claimed.
pub assume_specification[ tokio::sync::Semaphore::available_permits ](
    semaphore: &Semaphore,
) -> (free: usize)
;

/// `permit` came out of a call of `try_acquire` on `semaphore`: the permit that
/// the call got, or nothing where none was free.
pub closed spec fn is_attempt<'a>(
    semaphore: &'a Semaphore,
    permit: Option<SemaphorePermit<'a>>,
) -> bool {
    call_ensures(try_acquire, (semaphore,), permit)
}

/// Takes a render slot where one is free.
pub(crate) fn take_slot<'a>(semaphore: &'a Semaphore) -> (permit: Option<SemaphorePermit<'a>>)
    ensures
        is_attempt(semaphore, permit),
{
    let take = try_acquire;
    take(semaphore)
}

/// An attempt to take a slot is exactly a call on that semaphore, with what the
/// call gave.
pub(crate) proof fn lemma_attempt_is_unaltered<'a>(
    semaphore: &'a Semaphore,
    permit: Option<SemaphorePermit<'a>>,
)
    ensures
        is_attempt(semaphore, permit) <==> call_ensures(try_acquire, (semaphore,), permit),
{
}

/// `free` came out of a call of `Semaphore::available_permits` on `semaphore`.
pub open spec fn is_count(semaphore: Semaphore, free: usize) -> bool {
    call_ensures(Semaphore::available_permits, (&semaphore,), free)
}

/// How many render slots are free.
fn free_slots(semaphore: &Semaphore) -> (free: usize)
    ensures
        is_count(*semaphore, free),
{
    let count = Semaphore::available_permits;
    count(semaphore)
}

/// `print_background` of a request that does not name it.
pub fn default_true() -> (value: bool)
    ensures
        value,
{
    true
}

/// The page format of a request that does not name it.
pub fn default_format() -> (format: String)
    ensures
        format@ == "A4"@,
{
    "A4".to_owned()
}

/// The scale of a request that does not name it, as a bit pattern.
pub fn default_scale() -> (bits: u64)
    ensures
        bits == scale::DEFAULT_SCALE_BITS,
        scale::scale_accepted(bits),
{
    scale::default_scale()
}

/// The body of a render request.
pub struct GeneratePdfRequest {
    pub html: String,
    pub landscape: bool,
    pub format: String,
    pub print_background: bool,
    /// The bit pattern of the scale factor.
    pub scale: u64,
    pub omit_background: bool,
}

/// The page formats.
pub open spec fn format_names() -> Seq<Seq<char>> {
    seq![
        "Letter"@,
        "Legal"@,
        "Tabloid"@,
        "Ledger"@,
        "A0"@,
        "A1"@,
        "A2"@,
        "A3"@,
        "A4"@,
        "A5"@,
        "A6"@,
    ]
}

/// The page formats.
pub fn valid_formats() -> (names: Vec<&'static str>)
    ensures
        text::views(names@) == format_names(),
{
    let names = vec![
        "Letter", "Legal", "Tabloid", "Ledger", "A0", "A1", "A2", "A3", "A4", "A5", "A6",
    ];
    assert(text::views(names@) =~= format_names());
    names
}

/// The format is one of the page formats, ASCII letters without regard to
/// case.
pub open spec fn format_accepted(format: Seq<char>) -> bool {
    exists|i: int|
        0 <= i < format_names().len() && text::lowered(#[trigger] format_names()[i])
            == text::lowered(format)
}

/// Decides whether a format is one of the page formats.
pub fn is_valid_format(format: &str) -> (r: bool)
    ensures
        r == format_accepted(format@),
{
    let names = valid_formats();
    let mut i: usize = 0;
    while i < names.len()
        invariant
            i <= names@.len(),
            text::views(names@) == format_names(),
            forall|j: int|
                0 <= j < i ==> text::lowered(#[trigger] format_names()[j]) != text::lowered(
                    format@,
                ),
        decreases names@.len() - i,
    {
        assert(format_names()[i as int] == names@[i as int]@);
        if text::eq_ignore_ascii_case(names[i], format) {
            return true;
        }
        i = i + 1;
    }
    assert(names@.len() == format_names().len());
    false
}

/// The message for an invalid format.
pub open spec fn format_message() -> Seq<char> {
    "Invalid format. Valid options: "@ + text::joined(format_names(), ", "@)
}

/// What is wrong with a request: the first failing check, in this order, or
/// nothing.
pub open spec fn validation_error(request: GeneratePdfRequest, max_html_size: usize) -> Option<
    Seq<char>,
> {
    if text::is_blank_text(request.html@) {
        Some("Missing or empty 'html' field"@)
    } else if encode_utf8(request.html@).len() > max_html_size {
        Some("HTML content too large"@)
    } else if !scale::scale_accepted(request.scale) {
        Some("Scale must be between 0.1 and 2.0"@)
    } else if !format_accepted(request.format@) {
        Some(format_message())
    } else {
        None
    }
}

/// Checks a request against the limits of the service.
pub fn validate(request: &GeneratePdfRequest, max_html_size: usize) -> (r: Result<(), String>)
    ensures
        match r {
            Ok(_) => validation_error(*request, max_html_size) is None,
            Err(message) => validation_error(*request, max_html_size) == Some(message@),
        },
{
    if text::is_blank(request.html.as_str()) {
        return Err("Missing or empty 'html' field".to_owned());
    }
    if request.html.as_str().as_bytes().len() > max_html_size {
        return Err("HTML content too large".to_owned());
    }
    if !scale::scale_in_range(request.scale) {
        return Err("Scale must be between 0.1 and 2.0".to_owned());
    }
    if !is_valid_format(request.format.as_str()) {
        let mut message = "Invalid format. Valid options: ".to_owned();
        message.append(text::join(&valid_formats(), ", ").as_str());
        return Err(message);
    }
    Ok(())
}

/// The case of ASCII letters in the format makes no difference to whether a
/// request is valid.
pub proof fn lemma_format_case_insensitive(a: Seq<char>, b: Seq<char>)
    requires
        text::lowered(a) == text::lowered(b),
    ensures
        format_accepted(a) == format_accepted(b),
{
    assert forall|i: int| 0 <= i < format_names().len() implies (text::lowered(
        #[trigger] format_names()[i],
    ) == text::lowered(a)) == (text::lowered(format_names()[i]) == text::lowered(b)) by {}
    if format_accepted(a) {
        let i = choose|i: int|
            0 <= i < format_names().len() && text::lowered(#[trigger] format_names()[i])
                == text::lowered(a);
        assert(text::lowered(format_names()[i]) == text::lowered(b));
    }
    if format_accepted(b) {
        let i = choose|i: int|
            0 <= i < format_names().len() && text::lowered(#[trigger] format_names()[i])
                == text::lowered(b);
        assert(text::lowered(format_names()[i]) == text::lowered(a));
    }
}

/// A request that names no options is valid whenever its HTML is: the default
/// format and scale are accepted.
pub proof fn lemma_defaults_are_valid(request: GeneratePdfRequest, max_html_size: usize)
    requires
        request.format@ == "A4"@,
        request.scale == scale::DEFAULT_SCALE_BITS,
        !text::is_blank_text(request.html@),
        encode_utf8(request.html@).len() <= max_html_size,
    ensures
        validation_error(request, max_html_size) is None,
{
    assert(format_names()[8] == "A4"@);
    scale::lemma_patterns_ordered(scale::MIN_SCALE_BITS, request.scale);
    scale::lemma_patterns_ordered(request.scale, scale::MAX_SCALE_BITS);
    assert(scale::exponent_field(request.scale) == 0x3FF);
}

/// The client address: the first entry of `X-Forwarded-For` where the proxy
/// is trusted and the entry is not blank, and the peer address otherwise.
pub open spec fn client_ip(
    entries: Map<Seq<char>, Seq<Seq<u8>>>,
    peer: Seq<char>,
    trust_proxy: bool,
) -> Seq<char> {
    match headers::text_under(entries, "x-forwarded-for"@) {
        Some(forwarded) => {
            let first = text::trimmed(text::first_field(forwarded));
            if trust_proxy && first.len() > 0 {
                first
            } else {
                peer
            }
        },
        None => peer,
    }
}

/// Returns the client address, reading `X-Forwarded-For` when `trust_proxy`
/// is true; `peer` is the address that the connection comes from.
pub fn extract_client_ip(
    request_headers: &HeaderMap<HeaderValue>,
    peer: &str,
    trust_proxy: bool,
) -> (ip: String)
    ensures
        ip@ == client_ip(headers::header_entries(*request_headers), peer@, trust_proxy),
{
    if trust_proxy {
        proof {
            reveal_strlit("x-forwarded-for");
        }
        if let Some(forwarded) = header_text(request_headers, FORWARDED_FOR) {
            let ip = text::trim(text::before_comma(forwarded));
            if !ip.is_empty() {
                return ip.to_owned();
            }
        }
    }
    peer.to_owned()
}

/// Unless the proxy is trusted, no header has a say in the client address;
/// where it is, the address is never empty as long as the peer address is not.
pub proof fn lemma_untrusted_headers_ignored(
    entries: Map<Seq<char>, Seq<Seq<u8>>>,
    peer: Seq<char>,
)
    requires
        peer.len() > 0,
    ensures
        client_ip(entries, peer, false) == peer,
        client_ip(entries, peer, true).len() > 0,
{
}

/// The answer to a request that is not let through: by the rate limiter, or
/// by validation. Nothing where it is let through.
pub open spec fn screened(
    answer: Result<(), (Status, String, u64)>,
    request: GeneratePdfRequest,
    max_html_size: usize,
) -> Option<response::ResponseView> {
    match answer {
        Err((status, message, wait)) => Some(
            response::rejected_answer(status, message@, wait as nat),
        ),
        Ok(_) => match validation_error(request, max_html_size) {
            Some(message) => Some(response::text_answer(Status::BadRequest, message)),
            None => None,
        },
    }
}

/// Lets a request through that the rate limiter has admitted and that is
/// valid, and answers any other.
pub fn screen(
    answer: Result<(), (Status, String, u64)>,
    request: GeneratePdfRequest,
    max_html_size: usize,
) -> (r: Result<GeneratePdfRequest, Response>)
    ensures
        match r {
            Ok(same) => same == request && screened(answer, request, max_html_size) is None,
            Err(refusal) => screened(answer, request, max_html_size) == Some(refusal@),
        },
{
    match answer {
        Err((status, message, wait)) => Err(rejected_response(status, message, wait)),
        Ok(_) => match validate(&request, max_html_size) {
            Ok(_) => Ok(request),
            Err(message) => Err(text_response(Status::BadRequest, message.as_str())),
        },
    }
}

/// A request within the cooldown is answered with 429, told how many seconds
/// to wait (never 0, at most 30) in the message and in the headers, and does
/// not prolong the cooldown.
pub proof fn lemma_rate_limited_answer(
    before: Option<nat>,
    now: nat,
    after: Option<nat>,
    answer: Result<(), (Status, String, u64)>,
    request: GeneratePdfRequest,
    max_html_size: usize,
)
    requires
        rate_limiter::check_outcome(before, now, after, answer),
        !rate_limiter::admits(before, now),
    ensures
        ({
            let secs = rate_limiter::seconds_left(before, now);
            &&& screened(answer, request, max_html_size) matches Some(refusal)
            &&& refusal.status.number() == 429
            &&& refusal.headers == headers::rejected_entries(secs)
            &&& refusal.body == response::BodyView::Text(rate_limiter::wait_message(secs))
            &&& 1 <= secs <= 30
            &&& after == before
        }),
{
}

/// A request outside the cooldown starts it, valid or not; one that is not
/// valid is answered with 400 and the reason, without rate-limit headers.
pub proof fn lemma_admitted_answer(
    before: Option<nat>,
    now: nat,
    after: Option<nat>,
    answer: Result<(), (Status, String, u64)>,
    request: GeneratePdfRequest,
    max_html_size: usize,
)
    requires
        rate_limiter::check_outcome(before, now, after, answer),
        rate_limiter::admits(before, now),
    ensures
        after == Some(now),
        screened(answer, request, max_html_size) is None <==> validation_error(
            request,
            max_html_size,
        ) is None,
        screened(answer, request, max_html_size) matches Some(refusal) ==> {
            &&& refusal.status.number() == 400
            &&& refusal.headers == headers::plain_entries()
            &&& validation_error(request, max_html_size) matches Some(reason) && refusal.body
                == response::BodyView::Text(reason)
        },
{
}

/// A valid request is accepted exactly when an attempt to take a slot from
/// `semaphore` got one.
pub open spec fn slot_decides<'a>(
    semaphore: &'a Semaphore,
    r: Result<RenderJob<'a>, Response>,
) -> bool {
    exists|permit: Option<SemaphorePermit<'a>>| #[trigger]
        is_attempt(semaphore, permit) && (r is Ok <==> permit is Some)
}

/// Accepts a render request: asks the rate limiter, validates, and takes a
/// render slot. The rate limiter comes first, so an invalid request starts
/// the cooldown too; the slot comes last, so no other refusal takes one.
pub fn generate_pdf_handler<'a, T>(
    state: &mut AppState<T>,
    semaphore: &'a Semaphore,
    request: GeneratePdfRequest,
) -> (r: Result<RenderJob<'a>, Response>)
    ensures
        exists|now: nat, answer: Result<(), (Status, String, u64)>|
            {
                &&& now < READING_LIMIT
                &&& clock::is_reading(old(state).rate_limiter.started(), now)
                &&& #[trigger] rate_limiter::check_outcome(
                    old(state).rate_limiter@,
                    now,
                    final(state).rate_limiter@,
                    answer,
                )
                &&& match screened(answer, request, old(state).max_html_size) {
                    Some(refusal) => r matches Err(given) && given@ == refusal,
                    None => crate::pipeline::opened(request, r) && slot_decides(semaphore, r),
                }
            },
        final(state).rate_limiter.started() == old(state).rate_limiter.started(),
        final(state).pending_requests == old(state).pending_requests,
        final(state).worker_alive == old(state).worker_alive,
        final(state).last_spawn_attempt == old(state).last_spawn_attempt,
        final(state).same_settings(old(state)),
{
    let ghost before = state.rate_limiter@;
    let ghost epoch = state.rate_limiter.started();
    let answer = state.rate_limiter.check();
    let ghost now = choose|now: nat|
        now < READING_LIMIT && clock::is_reading(epoch, now)
            && #[trigger] rate_limiter::check_outcome(before, now, state.rate_limiter@, answer);
    assert(rate_limiter::check_outcome(before, now, state.rate_limiter@, answer));
    match screen(answer, request, state.max_html_size) {
        Err(refusal) => Err(refusal),
        Ok(valid) => {
            let permit = take_slot(semaphore);
            let ghost taken = permit;
            let r = open_job(permit, valid);
            assert(is_attempt(semaphore, taken));
            r
        },
    }
}

/// The render slots, as the health report shows them.
pub struct RendersHealth {
    pub available: usize,
    pub max: usize,
}

/// The rate limiter, as the health report shows it.
pub struct RateLimiterHealth {
    pub cooldown_remaining_secs: u64,
}

/// The health report.
pub struct HealthResponse {
    pub status: String,
    pub version: String,
    pub uptime_secs: u64,
    pub worker_alive: bool,
    pub renders: RendersHealth,
    pub rate_limiter: RateLimiterHealth,
}

/// The status in the health report.
pub open spec fn health_status(worker_alive: bool) -> Seq<char> {
    if worker_alive {
        "ok"@
    } else {
        "degraded"@
    }
}

/// Makes the health report out of what was read.
pub fn health_report(
    worker_alive: bool,
    version: &str,
    uptime_nanos: u128,
    available: usize,
    max: usize,
    cooldown_remaining_secs: u64,
) -> (report: HealthResponse)
    requires
        uptime_nanos < READING_LIMIT,
    ensures
        report.status@ == health_status(worker_alive),
        report.version@ == version@,
        report.uptime_secs == uptime_nanos / NANOS_PER_SEC,
        report.worker_alive == worker_alive,
        report.renders.available == available,
        report.renders.max == max,
        report.rate_limiter.cooldown_remaining_secs == cooldown_remaining_secs,
{
    HealthResponse {
        status: if worker_alive {
            "ok".to_owned()
        } else {
            "degraded".to_owned()
        },
        version: version.to_owned(),
        uptime_secs: (uptime_nanos / NANOS_PER_SEC) as u64,
        worker_alive,
        renders: RendersHealth { available, max },
        rate_limiter: RateLimiterHealth { cooldown_remaining_secs },
    }
}

/// Reports the health of the service: `ok` while the worker is alive and
/// `degraded` otherwise, with the version, the uptime, the render slots and
/// the cooldown that is left.
pub fn health_handler<T>(state: &AppState<T>, semaphore: &Semaphore, version: &str) -> (report:
    HealthResponse)
    ensures
        report.status@ == health_status(state.worker_alive),
        report.version@ == version@,
        report.worker_alive == state.worker_alive,
        report.renders.max == state.max_concurrent,
        exists|now: nat|
            now < READING_LIMIT && clock::is_reading(state.rate_limiter.started(), now)
                && report.rate_limiter.cooldown_remaining_secs == #[trigger]
                rate_limiter::seconds_left(state.rate_limiter@, now),
        exists|uptime: nat| #[trigger]
            clock::is_reading(state.started_at, uptime) && report.uptime_secs == uptime
                / 1_000_000_000,
        is_count(*semaphore, report.renders.available),
        state.rate_limiter@ is None ==> report.rate_limiter.cooldown_remaining_secs == 0,
{
    let uptime: u128 = read_clock(&state.started_at);
    assert(clock::is_reading(state.started_at, uptime as nat));
    health_report(
        state.worker_alive,
        version,
        uptime,
        free_slots(semaphore),
        state.max_concurrent,
        state.rate_limiter.status(),
    )
}

/// The page formats, by name.
pub proof fn lemma_format_accepted_names(format: Seq<char>)
    ensures
        format_accepted(format) <==> {
            ||| text::lowered(format) == text::lowered("Letter"@)
            ||| text::lowered(format) == text::lowered("Legal"@)
            ||| text::lowered(format) == text::lowered("Tabloid"@)
            ||| text::lowered(format) == text::lowered("Ledger"@)
            ||| text::lowered(format) == text::lowered("A0"@)
            ||| text::lowered(format) == text::lowered("A1"@)
            ||| text::lowered(format) == text::lowered("A2"@)
            ||| text::lowered(format) == text::lowered("A3"@)
            ||| text::lowered(format) == text::lowered("A4"@)
            ||| text::lowered(format) == text::lowered("A5"@)
            ||| text::lowered(format) == text::lowered("A6"@)
        },
{
    assert(format_names()[0] == "Letter"@);
    assert(format_names()[1] == "Legal"@);
    assert(format_names()[2] == "Tabloid"@);
    assert(format_names()[3] == "Ledger"@);
    assert(format_names()[4] == "A0"@);
    assert(format_names()[5] == "A1"@);
    assert(format_names()[6] == "A2"@);
    assert(format_names()[7] == "A3"@);
    assert(format_names()[8] == "A4"@);
    assert(format_names()[9] == "A5"@);
    assert(format_names()[10] == "A6"@);
}

/// `is_valid_format` accepts the eleven page formats, whatever the case of their
/// ASCII letters, and nothing else.
pub proof fn lemma_is_valid_format_result(format: &str, r: bool)
    requires
        call_ensures(is_valid_format, (format,), r),
    ensures
        r <==> {
            ||| text::lowered(format@) == text::lowered("Letter"@)
            ||| text::lowered(format@) == text::lowered("Legal"@)
            ||| text::lowered(format@) == text::lowered("Tabloid"@)
            ||| text::lowered(format@) == text::lowered("Ledger"@)
            ||| text::lowered(format@) == text::lowered("A0"@)
            ||| text::lowered(format@) == text::lowered("A1"@)
            ||| text::lowered(format@) == text::lowered("A2"@)
            ||| text::lowered(format@) == text::lowered("A3"@)
            ||| text::lowered(format@) == text::lowered("A4"@)
            ||| text::lowered(format@) == text::lowered("A5"@)
            ||| text::lowered(format@) == text::lowered("A6"@)
        },
{
    lemma_format_accepted_names(format@);
}

/// The message for an invalid format, in full.
pub proof fn lemma_format_message_in_full()
    ensures
        format_message()
            == "Invalid format. Valid options: Letter, Legal, Tabloid, Ledger, A0, A1, A2, A3, A4, A5, A6"@,
{
    reveal_strlit("Invalid format. Valid options: Letter, Legal, Tabloid, Ledger, A0, A1, A2, A3, A4, A5, A6");
    reveal_strlit("Invalid format. Valid options: ");
    reveal_strlit(", ");
    reveal_strlit("Letter");
    reveal_strlit("Legal");
    reveal_strlit("Tabloid");
    reveal_strlit("Ledger");
    reveal_strlit("A0");
    reveal_strlit("A1");
    reveal_strlit("A2");
    reveal_strlit("A3");
    reveal_strlit("A4");
    reveal_strlit("A5");
    reveal_strlit("A6");
    reveal_with_fuel(text::joined, 12);
    let names = format_names();
    assert(names.len() == 11);
    lemma_joined_formats(11);
    assert(format_message()
        =~= "Invalid format. Valid options: Letter, Legal, Tabloid, Ledger, A0, A1, A2, A3, A4, A5, A6"@);
}

/// The first `n` page formats, joined.
proof fn lemma_joined_formats(n: int)
    requires
        1 <= n <= 11,
    ensures
        text::joined(format_names().take(n), ", "@) == (if n == 1 {
            format_names()[0]
        } else {
            text::joined(format_names().take(n - 1), ", "@) + ", "@ + format_names()[n - 1]
        }),
        format_names().take(11) == format_names(),
    decreases n,
{
    assert(format_names().take(11) =~= format_names());
    assert(format_names().take(n).drop_last() =~= format_names().take(n - 1));
    if n > 1 {
        lemma_joined_formats(n - 1);
    }
}

/// A request is valid exactly when its HTML holds something besides white space
/// and is no longer than the limit, its scale lies between 0.1 and 2, and its
/// format is a page format. Of several faults the first in this order is named.
pub proof fn lemma_validate_result(
    request: GeneratePdfRequest,
    max_html_size: usize,
    r: Result<(), String>,
)
    requires
        call_ensures(validate, (&request, max_html_size), r),
    ensures
        ({
            let blank = forall|i: int|
                0 <= i < request.html@.len() ==> text::is_white_space(#[trigger] request.html@[i]);
            let too_large = encode_utf8(request.html@).len() > max_html_size;
            let scaled = 0x3FB9_9999_9999_999A <= request.scale <= 0x4000_0000_0000_0000;
            let known = {
                ||| text::lowered(request.format@) == text::lowered("Letter"@)
                ||| text::lowered(request.format@) == text::lowered("Legal"@)
                ||| text::lowered(request.format@) == text::lowered("Tabloid"@)
                ||| text::lowered(request.format@) == text::lowered("Ledger"@)
                ||| text::lowered(request.format@) == text::lowered("A0"@)
                ||| text::lowered(request.format@) == text::lowered("A1"@)
                ||| text::lowered(request.format@) == text::lowered("A2"@)
                ||| text::lowered(request.format@) == text::lowered("A3"@)
                ||| text::lowered(request.format@) == text::lowered("A4"@)
                ||| text::lowered(request.format@) == text::lowered("A5"@)
                ||| text::lowered(request.format@) == text::lowered("A6"@)
            };
            &&& r is Ok <==> !blank && !too_large && scaled && known
            &&& blank ==> r->Err_0@ == "Missing or empty 'html' field"@
            &&& !blank && too_large ==> r->Err_0@ == "HTML content too large"@
            &&& !blank && !too_large && !scaled ==> r->Err_0@
                == "Scale must be between 0.1 and 2.0"@
            &&& !blank && !too_large && scaled && !known ==> r->Err_0@
                == "Invalid format. Valid options: Letter, Legal, Tabloid, Ledger, A0, A1, A2, A3, A4, A5, A6"@
        }),
{
    lemma_format_accepted_names(request.format@);
    lemma_format_message_in_full();
    lemma_scale_accepted_range(request.scale);
}

proof fn lemma_scale_accepted_range(bits: u64)
    ensures
        scale::scale_accepted(bits) <==> 0x3FB9_9999_9999_999A <= bits <= 0x4000_0000_0000_0000,
{
    assert(scale::exponent_field(scale::MIN_SCALE_BITS) == 0x3FB);
    assert(scale::exponent_field(scale::MAX_SCALE_BITS) == 0x400);
    if bits < 0x8000_0000_0000_0000 {
        if bits < scale::MIN_SCALE_BITS {
            scale::lemma_patterns_ordered(bits, scale::MIN_SCALE_BITS);
        } else if bits > scale::MIN_SCALE_BITS {
            scale::lemma_patterns_ordered(scale::MIN_SCALE_BITS, bits);
        }
        if bits < scale::MAX_SCALE_BITS {
            scale::lemma_patterns_ordered(bits, scale::MAX_SCALE_BITS);
        } else if bits > scale::MAX_SCALE_BITS {
            scale::lemma_patterns_ordered(scale::MAX_SCALE_BITS, bits);
        }
    }
}

/// What is wrong with a request, by the same rule; nothing is wrong exactly with
/// a valid one.
pub proof fn lemma_validation_error_rule(request: GeneratePdfRequest, max_html_size: usize)
    ensures
        validation_error(request, max_html_size) is None <==> !text::is_blank_text(request.html@)
            && encode_utf8(request.html@).len() <= max_html_size && scale::scale_accepted(
            request.scale,
        ) && format_accepted(request.format@),
{
}

/// The layout options have no say in whether a request is valid: two requests
/// with the same HTML, scale and format fare alike.
pub proof fn lemma_layout_makes_no_difference(
    a: GeneratePdfRequest,
    b: GeneratePdfRequest,
    max_html_size: usize,
    of_a: Result<(), String>,
    of_b: Result<(), String>,
)
    requires
        call_ensures(validate, (&a, max_html_size), of_a),
        call_ensures(validate, (&b, max_html_size), of_b),
        a.html@ == b.html@,
        a.scale == b.scale,
        text::lowered(a.format@) == text::lowered(b.format@),
    ensures
        of_a is Ok <==> of_b is Ok,
        of_a is Err ==> of_a->Err_0@ == of_b->Err_0@,
{
    lemma_format_case_insensitive(a.format@, b.format@);
}

/// A valid request stays valid when the limit grows, and one that is refused for
/// its size is accepted under a limit of its own length.
pub proof fn lemma_size_limit_is_the_length(
    request: GeneratePdfRequest,
    small: usize,
    large: usize,
    of_small: Result<(), String>,
    of_large: Result<(), String>,
)
    requires
        call_ensures(validate, (&request, small), of_small),
        call_ensures(validate, (&request, large), of_large),
        small <= large,
    ensures
        of_small is Ok ==> of_large is Ok,
        of_large is Ok && encode_utf8(request.html@).len() <= small ==> of_small is Ok,
        of_large is Ok && encode_utf8(request.html@).len() > small ==> of_small is Err,
{
}

/// The client address behind a trusted proxy: what stands in front of the first
/// comma of the header, without the white space around it; the peer where that
/// is nothing, where there is no such header, or where the proxy is not trusted.
pub proof fn lemma_client_address(
    request_headers: HeaderMap<HeaderValue>,
    peer: &str,
    trust_proxy: bool,
    ip: String,
    before: Seq<char>,
    address: Seq<char>,
    after: Seq<char>,
    rest: Seq<char>,
)
    requires
        call_ensures(extract_client_ip, (&request_headers, peer, trust_proxy), ip),
        forall|i: int| 0 <= i < before.len() ==> text::is_white_space(#[trigger] before[i]),
        forall|i: int| 0 <= i < after.len() ==> text::is_white_space(#[trigger] after[i]),
        forall|i: int| 0 <= i < address.len() ==> #[trigger] address[i] != ',',
        address.len() > 0 ==> !text::is_white_space(address[0]) && !text::is_white_space(
            address.last(),
        ),
        rest.len() == 0 || rest[0] == ',',
    ensures
        !trust_proxy ==> ip@ == peer@,
        headers::text_under(headers::header_entries(request_headers), "x-forwarded-for"@) is None
            ==> ip@ == peer@,
        trust_proxy && headers::text_under(
            headers::header_entries(request_headers),
            "x-forwarded-for"@,
        ) == Some(before + address + after + rest) ==> ip@ == (if address.len() > 0 {
            address
        } else {
            peer@
        }),
{
    let field = before + address + after;
    let whole = before + address + after + rest;
    let n = field.len() as int;
    assert forall|i: int| 0 <= i < n implies #[trigger] whole[i] != ',' by {
        if i < before.len() {
            assert(whole[i] == before[i]);
        } else if i < before.len() + address.len() {
            assert(whole[i] == address[i - before.len()]);
        } else {
            assert(whole[i] == after[i - before.len() - address.len()]);
        }
    }
    assert(n < whole.len() ==> whole[n] == rest[0]);
    text::lemma_first_field_ends_at_comma(whole);
    let first = text::first_field(whole);
    if first.len() < n {
        assert(whole[first.len() as int] == ',');
    }
    if first.len() > n {
        assert(whole[n] != ',');
    }
    assert(first =~= field);
    text::lemma_trimmed_is_the_middle(before, address, after);
}

/// A request that the limiter refused is answered with what the limiter said;
/// one that it admitted is let through, unchanged, exactly when it is valid, and
/// otherwise answered with 400 and the reason.
pub proof fn lemma_screen_result(
    answer: Result<(), (Status, String, u64)>,
    request: GeneratePdfRequest,
    max_html_size: usize,
    r: Result<GeneratePdfRequest, Response>,
)
    requires
        call_ensures(screen, (answer, request, max_html_size), r),
    ensures
        r is Ok <==> answer is Ok && validation_error(request, max_html_size) is None,
        r matches Ok(same) ==> same == request,
        answer matches Err((status, message, wait)) ==> {
            &&& r is Err
            &&& r->Err_0.status == status
            &&& r->Err_0.body is Text
            &&& r->Err_0.body->Text_0@ == message@
            &&& headers::header_entries(r->Err_0.headers)["retry-after"@] == seq![
                encode_utf8(crate::decimal::numeral(wait as nat)),
            ]
        },
        answer is Ok && r is Err ==> {
            &&& r->Err_0.status.number() == 400
            &&& r->Err_0.body is Text
            &&& Some(r->Err_0.body->Text_0@) == validation_error(request, max_html_size)
            &&& headers::header_entries(r->Err_0.headers).dom() == set!["content-type"@]
        },
{
    if answer is Ok && r is Err {
        assert(headers::header_entries(r->Err_0.headers).dom() =~= set!["content-type"@]);
    }
}

/// What a render request meets, in this order, on one reading of the clock: the
/// cooldown, validation, and an attempt to take a slot from the given semaphore.
/// A request outside the cooldown starts it. A valid one is accepted exactly when
/// the attempt got a slot, and becomes a render of the request as it came; it is
/// refused for want of capacity only where the attempt got none.
pub proof fn lemma_generate_pdf_handler_result<'a, T>(
    state: &mut AppState<T>,
    semaphore: &'a Semaphore,
    request: GeneratePdfRequest,
    r: Result<RenderJob<'a>, Response>,
)
    requires
        call_ensures(generate_pdf_handler::<T>, (state, semaphore, request), r),
    ensures
        exists|now: nat|
            {
                let last = old(state).rate_limiter@;
                let open = last is None || now >= last->0 + 30_000_000_000;
                &&& #[trigger] clock::is_reading(old(state).rate_limiter.started(), now)
                &&& open ==> final(state).rate_limiter@ == Some(now)
                &&& !open ==> {
                    &&& final(state).rate_limiter@ == last
                    &&& r is Err
                    &&& r->Err_0.status.number() == 429
                    &&& headers::header_entries(r->Err_0.headers).contains_key("retry-after"@)
                }
                &&& open && validation_error(request, old(state).max_html_size) is Some ==> {
                    &&& r is Err
                    &&& r->Err_0.status.number() == 400
                    &&& r->Err_0.body is Text
                    &&& Some(r->Err_0.body->Text_0@) == validation_error(
                        request,
                        old(state).max_html_size,
                    )
                }
                &&& open && validation_error(request, old(state).max_html_size) is None
                    ==> exists|permit: Option<SemaphorePermit<'a>>| #[trigger]
                    is_attempt(semaphore, permit) && (r is Ok <==> permit is Some)
                &&& open && validation_error(request, old(state).max_html_size) is None && r is Err
                    ==> {
                    &&& r->Err_0.status.number() == 429
                    &&& r->Err_0.body is Text
                    &&& r->Err_0.body->Text_0@ == "Server is at capacity. Try again later."@
                    &&& !headers::header_entries(r->Err_0.headers).contains_key("retry-after"@)
                }
            },
        r matches Ok(job) ==> {
            &&& job@.request == request
            &&& job@.holds_permit
            &&& job@.stage == crate::pipeline::Stage::EnsureWorker
            &&& validation_error(request, old(state).max_html_size) is None
        },
        final(state).pending_requests@ == old(state).pending_requests@,
        final(state).worker_alive == old(state).worker_alive,
        final(state).last_spawn_attempt == old(state).last_spawn_attempt,
{
    headers::lemma_names_distinct();
    let (now, answer) = choose|now: nat, answer: Result<(), (Status, String, u64)>|
        {
            &&& now < READING_LIMIT
            &&& clock::is_reading(old(state).rate_limiter.started(), now)
            &&& #[trigger] rate_limiter::check_outcome(
                old(state).rate_limiter@,
                now,
                final(state).rate_limiter@,
                answer,
            )
            &&& match screened(answer, request, old(state).max_html_size) {
                Some(refusal) => r matches Err(given) && given@ == refusal,
                None => crate::pipeline::opened(request, r) && slot_decides(semaphore, r),
            }
        };
    assert(clock::is_reading(old(state).rate_limiter.started(), now));
}

/// The health report says `ok` exactly while the worker is alive, and passes on
/// what was read: the uptime in whole seconds and the rest as it is.
pub proof fn lemma_health_report_result(
    worker_alive: bool,
    version: &str,
    uptime_nanos: u128,
    available: usize,
    max: usize,
    cooldown: u64,
    report: HealthResponse,
)
    requires
        uptime_nanos < READING_LIMIT,
        call_ensures(
            health_report,
            (worker_alive, version, uptime_nanos, available, max, cooldown),
            report,
        ),
    ensures
        worker_alive ==> report.status@ == "ok"@,
        !worker_alive ==> report.status@ == "degraded"@,
        report.version@ == version@,
        report.uptime_secs * 1_000_000_000 <= uptime_nanos < (report.uptime_secs + 1)
            * 1_000_000_000,
        report.worker_alive == worker_alive,
        report.renders.available == available,
        report.renders.max == max,
        report.rate_limiter.cooldown_remaining_secs == cooldown,
{
}

/// The health report of a state: on readings of the clock and a count of the
/// given semaphore that were taken in the call, and a cooldown of 0 exactly when
/// a request would be admitted.
pub proof fn lemma_health_handler_result<T>(
    state: AppState<T>,
    semaphore: Semaphore,
    version: &str,
    report: HealthResponse,
)
    requires
        call_ensures(health_handler::<T>, (&state, &semaphore, version), report),
    ensures
        state.worker_alive ==> report.status@ == "ok"@,
        !state.worker_alive ==> report.status@ == "degraded"@,
        report.worker_alive == state.worker_alive,
        report.version@ == version@,
        report.renders.max == state.max_concurrent,
        call_ensures(Semaphore::available_permits, (&semaphore,), report.renders.available),
        exists|uptime: nat| #[trigger]
            clock::is_reading(state.started_at, uptime) && report.uptime_secs * 1_000_000_000
                <= uptime < (report.uptime_secs + 1) * 1_000_000_000,
        state.rate_limiter@ is None ==> report.rate_limiter.cooldown_remaining_secs == 0,
        state.rate_limiter@ matches Some(last) ==> exists|now: nat|
            {
                let secs = report.rate_limiter.cooldown_remaining_secs;
                &&& #[trigger] clock::is_reading(state.rate_limiter.started(), now)
                &&& secs == 0 <==> now >= last + 30_000_000_000
                &&& last <= now < last + 30_000_000_000 ==> last + 30_000_000_000 <= now + secs
                    * 1_000_000_000 < last + 31_000_000_000
            },
{
    let uptime = choose|uptime: nat| #[trigger]
        clock::is_reading(state.started_at, uptime) && report.uptime_secs == uptime / 1_000_000_000;
    assert(clock::is_reading(state.started_at, uptime));
    let now = choose|now: nat|
        now < READING_LIMIT && clock::is_reading(state.rate_limiter.started(), now)
            && report.rate_limiter.cooldown_remaining_secs == #[trigger]
            rate_limiter::seconds_left(state.rate_limiter@, now);
    assert(clock::is_reading(state.rate_limiter.started(), now));
}

/// The defaults of a request that names no options.
pub proof fn lemma_default_options(background: bool, format: String, bits: u64)
    requires
        call_ensures(default_true, (), background),
        call_ensures(default_format, (), format),
        call_ensures(default_scale, (), bits),
    ensures
        background,
        format@ == "A4"@,
        bits == 0x3FF0_0000_0000_0000,
{
}

} // verus!
