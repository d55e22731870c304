//! Worker process management and the messages exchanged with it.
//!
//! The worker keeps a persistent headless browser. It is sent requests and
//! sends responses as JSON texts, one per line.
use crate::clock;
use crate::clock::{read_clock, this_instant, NANOS_PER_SEC, READING_LIMIT};
use crate::decimal;
use crate::rate_limiter;
use crate::rate_limiter::elapsed_between;
use crate::state::AppState;
use crate::text;
use tokio::time::Instant;
use vstd::prelude::*;
use vstd::string::*;

verus! {

/// The least time between two spawn attempts, in seconds.
pub const RESPAWN_COOLDOWN_SECS: u64 = 10;

/// The least time between two spawn attempts, in nanoseconds.
pub const RESPAWN_COOLDOWN_NANOS: u128 = 10_000_000_000;

/// A spawn attempt is allowed at `now`.
pub open spec fn spawn_allowed(last: Option<nat>, now: nat) -> bool {
    match last {
        None => true,
        Some(at) => rate_limiter::time_between(at, now) >= RESPAWN_COOLDOWN_NANOS,
    }
}

/// The announced wait at `now`, in seconds: the cooldown less the whole
/// seconds since the last attempt.
pub open spec fn spawn_wait(last: nat, now: nat) -> int {
    RESPAWN_COOLDOWN_SECS - rate_limiter::time_between(last, now) / (NANOS_PER_SEC as nat)
}

/// The refusal of a spawn attempt that comes too soon.
pub open spec fn cooldown_message(secs: nat) -> Seq<char> {
    "Worker respawn on cooldown. Try again in ~"@ + decimal::numeral(secs) + " seconds."@
}

/// Spaces the attempts to spawn the worker.
pub struct SpawnCooldown {
    /// The instant from which attempts are timed.
    epoch: Instant,
    /// When the last attempt began, in nanoseconds from `epoch`.
    last_attempt: Option<u128>,
}

impl View for SpawnCooldown {
    type V = Option<nat>;

    /// The moment of the last attempt.
    closed spec fn view(&self) -> Option<nat> {
        match self.last_attempt {
            Some(at) => Some(at as nat),
            None => None,
        }
    }
}

/// What is answered to an attempt at `now`, and what it makes of the last
/// attempt.
pub open spec fn attempt_outcome(
    before: Option<nat>,
    now: nat,
    after: Option<nat>,
    answer: Result<(), String>,
) -> bool {
    match answer {
        Ok(_) => spawn_allowed(before, now) && after == Some(now),
        Err(message) => {
            &&& !spawn_allowed(before, now)
            &&& after == before
            &&& message@ == cooldown_message(spawn_wait(before->0, now) as nat)
        },
    }
}

impl SpawnCooldown {
    /// The instant from which attempts are timed.
    pub closed spec fn started(&self) -> Instant {
        self.epoch
    }

    /// No attempt yet.
    pub fn new() -> (cooldown: SpawnCooldown)
        ensures
            cooldown@ is None,
            clock::is_now(cooldown.started()),
    {
        SpawnCooldown { epoch: this_instant(), last_attempt: None }
    }

    /// Begins a spawn attempt at `now`, or says how long to wait.
    pub fn begin_at(&mut self, now: u128) -> (answer: Result<(), String>)
        ensures
            attempt_outcome(old(self)@, now as nat, final(self)@, answer),
            final(self).started() == old(self).started(),
    {
        if let Some(last) = self.last_attempt {
            let elapsed: u128 = elapsed_between(last, now);
            if elapsed < RESPAWN_COOLDOWN_NANOS {
                let wait: u64 = RESPAWN_COOLDOWN_SECS - (elapsed / NANOS_PER_SEC) as u64;
                let mut message = "Worker respawn on cooldown. Try again in ~".to_owned();
                message.append(decimal::decimal(wait).as_str());
                message.append(" seconds.");
                return Err(message);
            }
        }
        self.last_attempt = Some(now);
        Ok(())
    }

    /// Begins a spawn attempt, or says how long to wait.
    pub fn begin(&mut self) -> (answer: Result<(), String>)
        ensures
            exists|now: nat|
                now < READING_LIMIT && clock::is_reading(old(self).started(), now)
                    && #[trigger] attempt_outcome(old(self)@, now, final(self)@, answer),
            final(self).started() == old(self).started(),
            old(self)@ is None ==> answer is Ok,
    {
        let now: u128 = read_clock(&self.epoch);
        let answer = self.begin_at(now);
        assert(attempt_outcome(old(self)@, now as nat, self@, answer));
        answer
    }
}

/// The wait announced to a refused attempt is at least one second and at most
/// ten.
pub proof fn lemma_announced_spawn_wait(last: nat, now: nat)
    requires
        !spawn_allowed(Some(last), now),
    ensures
        1 <= spawn_wait(last, now) <= RESPAWN_COOLDOWN_SECS,
{
}

/// A refused attempt that is made again once the announced wait is over is
/// allowed, as long as no other attempt was made in between.
pub proof fn lemma_announced_spawn_wait_is_enough(last: nat, now: nat, later: nat)
    requires
        !spawn_allowed(Some(last), now),
        last <= now,
        later >= now + spawn_wait(last, now) * NANOS_PER_SEC,
    ensures
        spawn_allowed(Some(last), later),
{
}

/// A render request to the worker.
pub struct WorkerRequest {
    pub id: String,
    pub html_path: String,
    pub pdf_path: String,
    pub landscape: bool,
    pub format: String,
    pub print_background: bool,
    /// The bit pattern of the scale factor.
    pub scale: u64,
    pub omit_background: bool,
}

/// What a render request to the worker holds.
pub struct WorkerRequestView {
    pub id: Seq<char>,
    pub html_path: Seq<char>,
    pub pdf_path: Seq<char>,
    pub landscape: bool,
    pub format: Seq<char>,
    pub print_background: bool,
    pub scale: u64,
    pub omit_background: bool,
}

impl View for WorkerRequest {
    type V = WorkerRequestView;

    open spec fn view(&self) -> WorkerRequestView {
        WorkerRequestView {
            id: self.id@,
            html_path: self.html_path@,
            pdf_path: self.pdf_path@,
            landscape: self.landscape,
            format: self.format@,
            print_background: self.print_background,
            scale: self.scale,
            omit_background: self.omit_background,
        }
    }
}

/// A message from the worker.
pub enum WorkerMessage {
    /// The first message: whether the worker is ready to render.
    Ready { ready: bool, error: Option<String> },
    /// The outcome of one render request.
    Response { id: String, success: bool, error: Option<String> },
}

/// A message as it is sent: its JSON text and a line break.
pub open spec fn framed(json: Seq<char>) -> Seq<char> {
    json + "\n"@
}

/// A message as it is sent.
pub fn frame_message(json: String) -> (line: String)
    ensures
        line@ == framed(json@),
{
    json.concat("\n")
}

/// A JSON text without line breaks, once framed, is the first line of
/// whatever is sent: up to the first line break stands the text itself, and
/// behind it what was sent next.
pub proof fn lemma_frame_is_one_line(json: Seq<char>, rest: Seq<char>)
    requires
        forall|i: int| 0 <= i < json.len() ==> #[trigger] json[i] != '\n',
    ensures
        (framed(json) + rest)[json.len() as int] == '\n',
        forall|i: int|
            0 <= i < json.len() ==> #[trigger] (framed(json) + rest)[i] == json[i] && json[i] != '\n',
        (framed(json) + rest).take(json.len() as int) == json,
        (framed(json) + rest).skip(json.len() as int + 1) == rest,
{
    reveal_strlit("\n");
    assert((framed(json) + rest).take(json.len() as int) =~= json);
    assert((framed(json) + rest).skip(json.len() as int + 1) =~= rest);
}

/// How long the worker may take to report that it is ready, in seconds.
pub const STARTUP_TIMEOUT_SECS: u64 = 15;

/// What happened while the worker was being started.
pub enum StartEvent {
    /// The process could not be spawned.
    SpawnFailed(String),
    /// The process was spawned, with the pipes that could be had.
    Spawned { stdin: bool, stdout: bool, stderr: bool },
    /// The first line of its output could not be read.
    ReadFailed(String),
    /// No line came in time.
    ReadTimedOut,
    /// The first line of its output.
    Line(String),
    /// The first line is not a message.
    ParseFailed(String),
    /// The first line is this message.
    Message(WorkerMessage),
}

/// What to do next while the worker is being started.
pub enum StartAction {
    /// Read the first line, for at most this many seconds.
    ReadLine { timeout_secs: u64 },
    /// Read this text as a message.
    Parse(String),
    /// The worker is ready: pass on what it sends from now on.
    Serve,
    /// Starting the worker failed.
    Fail(String),
}

/// What a start action holds.
pub enum StartActionView {
    ReadLine { timeout_secs: u64 },
    Parse(Seq<char>),
    Serve,
    Fail(Seq<char>),
}

impl View for StartAction {
    type V = StartActionView;

    open spec fn view(&self) -> StartActionView {
        match *self {
            StartAction::ReadLine { timeout_secs } => StartActionView::ReadLine { timeout_secs },
            StartAction::Parse(t) => StartActionView::Parse(t@),
            StartAction::Serve => StartActionView::Serve,
            StartAction::Fail(e) => StartActionView::Fail(e@),
        }
    }
}

/// The given text, or `default` where there is none.
pub open spec fn text_or(value: Option<String>, default: Seq<char>) -> Seq<char> {
    match value {
        Some(v) => v@,
        None => default,
    }
}

/// What to do after an event of the start.
pub open spec fn start_action(event: StartEvent) -> StartActionView {
    match event {
        StartEvent::SpawnFailed(e) => StartActionView::Fail("Failed to spawn worker: "@ + e@),
        StartEvent::Spawned { stdin, stdout, stderr } => if !stdin {
            StartActionView::Fail("Failed to get worker stdin"@)
        } else if !stdout {
            StartActionView::Fail("Failed to get worker stdout"@)
        } else if !stderr {
            StartActionView::Fail("Failed to get worker stderr"@)
        } else {
            StartActionView::ReadLine { timeout_secs: STARTUP_TIMEOUT_SECS }
        },
        StartEvent::ReadFailed(e) => StartActionView::Fail(
            "Failed to read worker ready message: "@ + e@,
        ),
        StartEvent::ReadTimedOut => StartActionView::Fail("Worker startup timed out after 15s"@),
        StartEvent::Line(line) => StartActionView::Parse(text::trimmed(line@)),
        StartEvent::ParseFailed(e) => StartActionView::Fail("Invalid ready message: "@ + e@),
        StartEvent::Message(message) => match message {
            WorkerMessage::Ready { ready, error } => if ready {
                StartActionView::Serve
            } else {
                StartActionView::Fail(
                    "Worker failed to start: "@ + text_or(error, "Unknown error"@),
                )
            },
            WorkerMessage::Response { .. } => StartActionView::Fail(
                "Unexpected first message from worker"@,
            ),
        },
    }
}

/// Whether the worker counts as alive after an event of the start: the flag
/// is set by the outcome of the first message, cleared when no line could be
/// had, and otherwise left as it is.
pub open spec fn alive_after_start(event: StartEvent, alive: bool) -> bool {
    match event {
        StartEvent::ReadFailed(_) => false,
        StartEvent::ReadTimedOut => false,
        StartEvent::Message(WorkerMessage::Ready { ready, .. }) => ready,
        StartEvent::Message(WorkerMessage::Response { .. }) => false,
        _ => alive,
    }
}

/// `prefix` followed by `detail`.
fn with_detail(prefix: &str, detail: &str) -> (r: String)
    ensures
        r@ == prefix@ + detail@,
{
    let mut r = prefix.to_owned();
    r.append(detail);
    r
}

/// Decides what to do after an event of the start of the worker, and keeps the
/// worker flag.
pub fn start_worker<T>(state: &mut AppState<T>, event: StartEvent) -> (action: StartAction)
    ensures
        action@ == start_action(event),
        final(state).worker_alive == alive_after_start(event, old(state).worker_alive),
        final(state).pending_requests == old(state).pending_requests,
        final(state).same_but_worker(old(state)),
{
    match event {
        StartEvent::SpawnFailed(e) => StartAction::Fail(
            with_detail("Failed to spawn worker: ", e.as_str()),
        ),
        StartEvent::Spawned { stdin, stdout, stderr } => if !stdin {
            StartAction::Fail("Failed to get worker stdin".to_owned())
        } else if !stdout {
            StartAction::Fail("Failed to get worker stdout".to_owned())
        } else if !stderr {
            StartAction::Fail("Failed to get worker stderr".to_owned())
        } else {
            StartAction::ReadLine { timeout_secs: STARTUP_TIMEOUT_SECS }
        },
        StartEvent::ReadFailed(e) => {
            state.worker_alive = false;
            StartAction::Fail(with_detail("Failed to read worker ready message: ", e.as_str()))
        },
        StartEvent::ReadTimedOut => {
            state.worker_alive = false;
            StartAction::Fail("Worker startup timed out after 15s".to_owned())
        },
        StartEvent::Line(line) => StartAction::Parse(text::trim(line.as_str()).to_owned()),
        StartEvent::ParseFailed(e) => StartAction::Fail(
            with_detail("Invalid ready message: ", e.as_str()),
        ),
        StartEvent::Message(message) => match message {
            WorkerMessage::Ready { ready, error } => {
                state.worker_alive = ready;
                if ready {
                    StartAction::Serve
                } else {
                    let detail = match error {
                        Some(e) => e,
                        None => "Unknown error".to_owned(),
                    };
                    StartAction::Fail(with_detail("Worker failed to start: ", detail.as_str()))
                }
            },
            WorkerMessage::Response { .. } => {
                state.worker_alive = false;
                StartAction::Fail("Unexpected first message from worker".to_owned())
            },
        },
    }
}

/// The worker is served only once it has reported that it is ready, and it
/// then counts as alive; no failure of the start makes it count as alive.
pub proof fn lemma_start_serves_only_when_ready(event: StartEvent, alive: bool)
    ensures
        start_action(event) is Serve <==> (event matches StartEvent::Message(
            WorkerMessage::Ready { ready, .. },
        ) && ready),
        start_action(event) is Serve ==> alive_after_start(event, alive),
        start_action(event) is Fail && !alive ==> !alive_after_start(event, alive),
{
}

/// Where a caller stands that wants the worker to be alive.
#[derive(Clone, Copy, Debug, PartialEq, Eq, Structural)]
pub enum EnsureStage {
    /// It has looked at nothing yet.
    Fast,
    /// It holds the lock that serialises spawn attempts.
    Locked,
}

/// What a caller has to do that wants the worker to be alive.
pub enum EnsureAction {
    /// Nothing: the worker is alive.
    Ready,
    /// Take the lock that serialises spawn attempts, and look again.
    TakeSpawnLock,
    /// Give up: the last attempt was too recent.
    Refuse(String),
    /// Start the worker.
    Start,
}

/// What a caller that holds the lock does once its attempt was allowed or refused.
pub open spec fn locked_outcome(answer: Result<(), String>, action: EnsureAction) -> bool {
    match answer {
        Ok(_) => action is Start,
        Err(message) => action matches EnsureAction::Refuse(m) && m@ == message@,
    }
}

/// What a caller at `now` has to do that wants the worker to be alive, and what
/// becomes of the last spawn attempt.
pub open spec fn ensure_outcome(
    alive: bool,
    stage: EnsureStage,
    before: Option<nat>,
    now: nat,
    after: Option<nat>,
    action: EnsureAction,
) -> bool {
    if alive {
        action is Ready && after == before
    } else if stage == EnsureStage::Fast {
        action is TakeSpawnLock && after == before
    } else if spawn_allowed(before, now) {
        action is Start && after == Some(now)
    } else {
        &&& action matches EnsureAction::Refuse(message) && message@ == cooldown_message(
            spawn_wait(before->0, now) as nat,
        )
        &&& after == before
    }
}

/// Decides what a caller has to do that wants the worker to be alive: nothing
/// where it is, and otherwise, under the lock, a start unless the last attempt
/// lies less than 10 seconds back.
pub fn ensure_worker<T>(state: &mut AppState<T>, stage: EnsureStage) -> (action: EnsureAction)
    ensures
        exists|now: nat|
            now < READING_LIMIT && #[trigger] ensure_outcome(
                old(state).worker_alive,
                stage,
                old(state).last_spawn_attempt@,
                now,
                final(state).last_spawn_attempt@,
                action,
            ),
        !old(state).worker_alive && stage == EnsureStage::Locked ==> exists|now: nat|
            clock::is_reading(old(state).last_spawn_attempt.started(), now)
                && #[trigger] ensure_outcome(
                old(state).worker_alive,
                stage,
                old(state).last_spawn_attempt@,
                now,
                final(state).last_spawn_attempt@,
                action,
            ),
        old(state).worker_alive ==> action is Ready && *final(state) == *old(state),
        !old(state).worker_alive && stage == EnsureStage::Fast ==> action is TakeSpawnLock
            && *final(state) == *old(state),
        !old(state).worker_alive && stage == EnsureStage::Locked
            && old(state).last_spawn_attempt@ is None ==> action is Start,
        final(state).worker_alive == old(state).worker_alive,
        final(state).pending_requests == old(state).pending_requests,
        final(state).rate_limiter == old(state).rate_limiter,
        final(state).last_spawn_attempt.started() == old(state).last_spawn_attempt.started(),
        final(state).same_settings(old(state)),
{
    let ghost alive = state.worker_alive;
    let ghost before = state.last_spawn_attempt@;
    if state.worker_alive || stage == EnsureStage::Fast {
        let action = if state.worker_alive {
            EnsureAction::Ready
        } else {
            EnsureAction::TakeSpawnLock
        };
        assert(ensure_outcome(alive, stage, before, 0, before, action));
        return action;
    }
    let ghost epoch = state.last_spawn_attempt.started();
    let answer = state.last_spawn_attempt.begin();
    let ghost now = choose|now: nat|
        now < READING_LIMIT && clock::is_reading(epoch, now) && #[trigger] attempt_outcome(
            before,
            now,
            state.last_spawn_attempt@,
            answer,
        );
    let action = after_attempt(answer);
    assert(ensure_outcome(alive, stage, before, now, state.last_spawn_attempt@, action));
    action
}

/// What a caller that holds the lock does once its attempt was allowed or refused.
pub fn after_attempt(answer: Result<(), String>) -> (action: EnsureAction)
    ensures
        locked_outcome(answer, action),
{
    match answer {
        Ok(_) => EnsureAction::Start,
        Err(message) => EnsureAction::Refuse(message),
    }
}

/// One call on behalf of a caller that wants the worker to be alive: what the
/// worker flag is, where the caller stands and when the call is made.
pub struct EnsureCall {
    pub alive: bool,
    pub stage: EnsureStage,
    pub now: nat,
}

/// The call makes a spawn attempt.
pub open spec fn attempts_spawn(last: Option<nat>, call: EnsureCall) -> bool {
    !call.alive && call.stage == EnsureStage::Locked && spawn_allowed(last, call.now)
}

/// The last spawn attempt after some calls, one after another.
pub open spec fn last_attempt_after(last: Option<nat>, calls: Seq<EnsureCall>) -> Option<nat>
    decreases calls.len(),
{
    if calls.len() == 0 {
        last
    } else {
        let before = last_attempt_after(last, calls.drop_last());
        if attempts_spawn(before, calls.last()) {
            Some(calls.last().now)
        } else {
            before
        }
    }
}

/// The moments at which spawn attempts were made, out of some calls, one after
/// another.
pub open spec fn spawn_attempts(last: Option<nat>, calls: Seq<EnsureCall>) -> Seq<nat>
    decreases calls.len(),
{
    if calls.len() == 0 {
        Seq::empty()
    } else {
        let before = spawn_attempts(last, calls.drop_last());
        if attempts_spawn(last_attempt_after(last, calls.drop_last()), calls.last()) {
            before.push(calls.last().now)
        } else {
            before
        }
    }
}

/// However the calls come, and whatever becomes of the worker between them, any
/// two spawn attempts lie at least 10 seconds apart, and so does the first one
/// from an attempt made before.
pub proof fn lemma_spawn_attempts_spaced(last: Option<nat>, calls: Seq<EnsureCall>)
    ensures
        forall|i: int, j: int|
            0 <= i < j < spawn_attempts(last, calls).len() ==> (#[trigger] spawn_attempts(
                last,
                calls,
            )[j]) - (#[trigger] spawn_attempts(last, calls)[i]) >= RESPAWN_COOLDOWN_NANOS,
        last matches Some(at) ==> (spawn_attempts(last, calls).len() > 0 ==> spawn_attempts(
            last,
            calls,
        )[0] - at >= RESPAWN_COOLDOWN_NANOS),
        spawn_attempts(last, calls).len() == 0 ==> last_attempt_after(last, calls) == last,
        spawn_attempts(last, calls).len() > 0 ==> last_attempt_after(last, calls) == Some(
            spawn_attempts(last, calls).last(),
        ),
    decreases calls.len(),
{
    if calls.len() > 0 {
        lemma_spawn_attempts_spaced(last, calls.drop_last());
    }
}

/// A caller is told to start the worker exactly when its call makes a spawn
/// attempt, and the attempt is remembered as the last one.
pub proof fn lemma_started_when_attempted(
    last: Option<nat>,
    calls: Seq<EnsureCall>,
    after: Option<nat>,
    action: EnsureAction,
)
    requires
        calls.len() > 0,
        ensure_outcome(
            calls.last().alive,
            calls.last().stage,
            last_attempt_after(last, calls.drop_last()),
            calls.last().now,
            after,
            action,
        ),
    ensures
        after == last_attempt_after(last, calls),
        action is Start <==> spawn_attempts(last, calls) == spawn_attempts(
            last,
            calls.drop_last(),
        ).push(calls.last().now),
        !(action is Start) <==> spawn_attempts(last, calls) == spawn_attempts(
            last,
            calls.drop_last(),
        ),
{
    let before = spawn_attempts(last, calls.drop_last());
    assert(before.push(calls.last().now).len() == before.len() + 1);
}

/// As long as the worker is alive, however many callers ask for it, wherever
/// they stand, none of them makes a spawn attempt: what was remembered stays.
pub proof fn lemma_live_worker_not_respawned(
    last: Option<nat>,
    calls: Seq<EnsureCall>,
    more: Seq<EnsureCall>,
)
    requires
        forall|i: int| 0 <= i < more.len() ==> (#[trigger] more[i]).alive,
    ensures
        spawn_attempts(last, calls + more) == spawn_attempts(last, calls),
        last_attempt_after(last, calls + more) == last_attempt_after(last, calls),
    decreases more.len(),
{
    if more.len() == 0 {
        assert(calls + more =~= calls);
    } else {
        let rest = more.drop_last();
        assert forall|i: int| 0 <= i < rest.len() implies (#[trigger] rest[i]).alive by {
            assert(rest[i] == more[i]);
        }
        lemma_live_worker_not_respawned(last, calls, rest);
        assert((calls + more).drop_last() =~= calls + rest);
        assert((calls + more).last() == more.last());
    }
}

/// What callers that want the worker to be alive do, and what becomes of the
/// worker meanwhile.
pub enum CallerEvent {
    /// A caller takes the lock that serialises spawn attempts.
    TakeLock(nat),
    /// A caller asks what it has to do, and gets this answer.
    Call { caller: nat, stage: EnsureStage, now: nat, action: EnsureAction },
    /// Something happened in the start that a caller has in progress.
    Progress(nat, StartEvent),
    /// A caller gives the lock back. A start that it still had in progress is
    /// abandoned.
    GiveLock(nat),
    /// The worker has exited, or the pipe to it broke.
    Died,
}

/// The callers at one moment: the worker flag, the last spawn attempt, the
/// holder of the lock, and the callers that have a start in progress.
pub struct CallersView {
    pub alive: bool,
    pub last: Option<nat>,
    pub holder: Option<nat>,
    pub starting: Set<nat>,
}

/// No caller holds the lock or has a start in progress.
pub open spec fn idle(callers: CallersView) -> bool {
    callers.holder is None && callers.starting == Set::<nat>::empty()
}

/// What an event makes of the callers.
pub open spec fn callers_step(callers: CallersView, event: CallerEvent) -> CallersView {
    match event {
        CallerEvent::TakeLock(caller) => CallersView { holder: Some(caller), ..callers },
        CallerEvent::Call { caller, stage, now, action } => if action is Start {
            CallersView {
                last: Some(now),
                starting: callers.starting.insert(caller),
                ..callers
            }
        } else {
            callers
        },
        CallerEvent::Progress(caller, event) => CallersView {
            alive: alive_after_start(event, callers.alive),
            starting: if start_action(event) is Serve || start_action(event) is Fail {
                callers.starting.remove(caller)
            } else {
                callers.starting
            },
            ..callers
        },
        CallerEvent::GiveLock(caller) => CallersView {
            holder: None,
            starting: callers.starting.remove(caller),
            ..callers
        },
        CallerEvent::Died => CallersView { alive: false, ..callers },
    }
}

/// The event can happen: the lock is taken only while nobody holds it, and
/// given back by its holder; a caller asks as one that holds the lock only
/// while it does and has no start in progress, and gets the answer that is
/// due; and only a start in progress goes on.
pub open spec fn callers_can(callers: CallersView, event: CallerEvent) -> bool {
    match event {
        CallerEvent::TakeLock(caller) => callers.holder is None,
        CallerEvent::Call { caller, stage, now, action } => {
            &&& ensure_outcome(
                callers.alive,
                stage,
                callers.last,
                now,
                callers_step(callers, event).last,
                action,
            )
            &&& stage == EnsureStage::Locked ==> callers.holder == Some(caller)
                && !callers.starting.contains(caller)
        },
        CallerEvent::Progress(caller, _) => callers.starting.contains(caller),
        CallerEvent::GiveLock(caller) => callers.holder == Some(caller),
        CallerEvent::Died => true,
    }
}

/// The callers after the first `n` events.
pub open spec fn callers_after(first: CallersView, events: Seq<CallerEvent>, n: int) -> CallersView
    decreases n,
{
    if n <= 0 {
        first
    } else {
        callers_step(callers_after(first, events, n - 1), events[n - 1])
    }
}

/// Each of the events can happen after the ones before it.
pub open spec fn is_course(first: CallersView, events: Seq<CallerEvent>) -> bool {
    forall|n: int|
        0 <= n < events.len() ==> callers_can(callers_after(first, events, n), #[trigger] events[n])
}

/// A caller is told to start the worker.
pub open spec fn begins_start(event: CallerEvent) -> bool {
    event matches CallerEvent::Call { action, .. } && action is Start
}

/// The start that `caller` has in progress ends, or is abandoned.
pub open spec fn ends_start(event: CallerEvent, caller: nat) -> bool {
    match event {
        CallerEvent::Progress(starter, event) => starter == caller && (start_action(event) is Serve
            || start_action(event) is Fail),
        CallerEvent::GiveLock(holder) => holder == caller,
        _ => false,
    }
}

/// The start of a caller ends well: the worker is served.
pub open spec fn ends_well(event: CallerEvent) -> bool {
    event matches CallerEvent::Progress(_, progress) && start_action(progress) is Serve
}

/// However many callers there are, and in whatever order they come, at most one
/// of them has a start in progress at any moment, and that one holds the lock.
pub proof fn lemma_one_start_at_a_time(first: CallersView, events: Seq<CallerEvent>, n: int)
    requires
        idle(first),
        is_course(first, events),
        0 <= n <= events.len(),
    ensures
        forall|caller: nat| #[trigger]
            callers_after(first, events, n).starting.contains(caller) ==> callers_after(
                first,
                events,
                n,
            ).holder == Some(caller),
        forall|a: nat, b: nat| #[trigger]
            callers_after(first, events, n).starting.contains(a) && #[trigger] callers_after(
                first,
                events,
                n,
            ).starting.contains(b) ==> a == b,
    decreases n,
{
    if n > 0 {
        lemma_one_start_at_a_time(first, events, n - 1);
        assert(callers_can(callers_after(first, events, n - 1), events[n - 1]));
    }
}

/// A start that has begun and not ended is in progress.
proof fn lemma_start_goes_on(first: CallersView, events: Seq<CallerEvent>, i: int, n: int)
    requires
        is_course(first, events),
        0 <= i < n <= events.len(),
        begins_start(events[i]),
        forall|k: int| i < k < n ==> !ends_start(#[trigger] events[k], events[i]->caller),
    ensures
        callers_after(first, events, n).starting.contains(events[i]->caller),
    decreases n,
{
    if n > i + 1 {
        lemma_start_goes_on(first, events, i, n - 1);
        assert(!ends_start(events[n - 1], events[i]->caller));
    }
}

/// The last attempt is never earlier than one that was made before.
proof fn lemma_last_attempt_advances(first: CallersView, events: Seq<CallerEvent>, i: int, n: int)
    requires
        is_course(first, events),
        0 <= i < n <= events.len(),
        begins_start(events[i]),
    ensures
        callers_after(first, events, n).last matches Some(last) && last >= events[i]->now,
    decreases n,
{
    if n > i + 1 {
        lemma_last_attempt_advances(first, events, i, n - 1);
        assert(callers_can(callers_after(first, events, n - 1), events[n - 1]));
    }
}

/// No two starts overlap: before any caller is told to start the worker, every
/// start that began earlier has ended. The attempts lie at least 10 seconds
/// apart.
pub proof fn lemma_starts_never_overlap(
    first: CallersView,
    events: Seq<CallerEvent>,
    i: int,
    j: int,
)
    requires
        idle(first),
        is_course(first, events),
        0 <= i < j < events.len(),
        begins_start(events[i]),
        begins_start(events[j]),
    ensures
        exists|k: int| i < k < j && ends_start(#[trigger] events[k], events[i]->caller),
        events[j]->now - events[i]->now >= RESPAWN_COOLDOWN_NANOS,
{
    assert(callers_can(callers_after(first, events, j), events[j]));
    lemma_last_attempt_advances(first, events, i, j);
    if forall|k: int| i < k < j ==> !ends_start(#[trigger] events[k], events[i]->caller) {
        lemma_start_goes_on(first, events, i, j);
        lemma_one_start_at_a_time(first, events, j);
    }
}

/// After a start that ended well, the worker is alive and no start is in
/// progress until the worker dies.
proof fn lemma_alive_after_good_start(first: CallersView, events: Seq<CallerEvent>, i: int, n: int)
    requires
        idle(first),
        is_course(first, events),
        0 <= i < n <= events.len(),
        ends_well(events[i]),
        forall|k: int| i < k < n ==> !(#[trigger] events[k] is Died),
    ensures
        callers_after(first, events, n).alive,
        callers_after(first, events, n).starting =~= Set::<nat>::empty(),
    decreases n,
{
    if n > i + 1 {
        lemma_alive_after_good_start(first, events, i, n - 1);
        assert(callers_can(callers_after(first, events, n - 1), events[n - 1]));
        assert(!(events[n - 1] is Died));
    } else {
        lemma_one_start_at_a_time(first, events, i);
        assert(callers_can(callers_after(first, events, i), events[i]));
    }
}

/// One start that ends well is enough for everybody: until the worker dies, the
/// flag stays up, nobody has a start in progress, and every caller, with the
/// lock or without it, is told that the worker is ready.
pub proof fn lemma_good_start_serves_all_callers(
    first: CallersView,
    events: Seq<CallerEvent>,
    i: int,
    j: int,
)
    requires
        idle(first),
        is_course(first, events),
        0 <= i < j < events.len(),
        ends_well(events[i]),
        forall|k: int| i < k < j ==> !(#[trigger] events[k] is Died),
    ensures
        callers_after(first, events, j).alive,
        callers_after(first, events, j).starting == Set::<nat>::empty(),
        events[j] matches CallerEvent::Call { action, .. } ==> action is Ready,
{
    lemma_alive_after_good_start(first, events, i, j);
    assert(callers_can(callers_after(first, events, j), events[j]));
}

/// What came out of the worker.
pub enum OutputEvent {
    /// A line: the message in it, where it holds one.
    Line(Option<WorkerMessage>),
    /// The output was closed: the worker has exited.
    Closed,
    /// The output could not be read.
    Failed,
}

/// What is passed on after an event of the output.
pub struct Deliveries<T> {
    /// The waiters to tell, each with the result of its request.
    pub results: Vec<(T, Result<(), String>)>,
    /// Nothing more will come.
    pub stop: bool,
}

/// A result, its error as a text.
pub open spec fn result_text(result: Result<(), String>) -> Result<(), Seq<char>> {
    match result {
        Ok(_) => Ok(()),
        Err(e) => Err(e@),
    }
}

/// The result that a response reports.
pub open spec fn reported_result(success: bool, error: Option<String>) -> Result<(), Seq<char>> {
    if success {
        Ok(())
    } else {
        Err(text_or(error, "Unknown rendering error"@))
    }
}

/// The requests that an event of the output answers, each with its result: a
/// response answers the request it names, where that is waiting, and the exit
/// of the worker answers every waiting request.
pub open spec fn answers<T>(pending: Map<Seq<char>, T>, event: OutputEvent) -> Map<
    Seq<char>,
    Result<(), Seq<char>>,
> {
    match event {
        OutputEvent::Line(Some(WorkerMessage::Response { id, success, error })) => Map::new(
            |k: Seq<char>| k == id@ && pending.contains_key(k),
            |k: Seq<char>| reported_result(success, error),
        ),
        OutputEvent::Closed => Map::new(
            |k: Seq<char>| pending.contains_key(k),
            |k: Seq<char>| Err("Worker crashed"@),
        ),
        _ => Map::empty(),
    }
}

/// The requests that are still waiting after an event of the output.
pub open spec fn still_waiting<T>(pending: Map<Seq<char>, T>, event: OutputEvent) -> Map<
    Seq<char>,
    T,
> {
    pending.remove_keys(answers(pending, event).dom())
}

/// `results` holds the waiter of each answered request once, with its result,
/// in the order of `ids`.
pub open spec fn delivers<T>(
    results: Seq<(T, Result<(), String>)>,
    pending: Map<Seq<char>, T>,
    answered: Map<Seq<char>, Result<(), Seq<char>>>,
    ids: Seq<Seq<char>>,
) -> bool {
    &&& ids.no_duplicates()
    &&& ids.len() == results.len()
    &&& forall|id: Seq<char>| answered.contains_key(id) <==> #[trigger] ids.contains(id)
    &&& forall|i: int|
        0 <= i < ids.len() ==> answered.contains_key(#[trigger] ids[i]) && results[i].0
            == pending[ids[i]] && result_text(results[i].1) == answered[ids[i]]
}

/// Passes on what came out of the worker, and keeps the worker flag and the
/// pending requests.
pub fn dispatch<T>(state: &mut AppState<T>, event: OutputEvent) -> (out: Deliveries<T>)
    requires
        old(state).wf(),
    ensures
        final(state).wf(),
        final(state).pending_requests@ == still_waiting(old(state).pending_requests@, event),
        exists|ids: Seq<Seq<char>>| #[trigger]
            delivers(
                out.results@,
                old(state).pending_requests@,
                answers(old(state).pending_requests@, event),
                ids,
            ),
        event matches OutputEvent::Line(Some(WorkerMessage::Response { id, success, error })) ==> (
        old(state).pending_requests@.contains_key(id@) ==> {
            &&& out.results@.len() == 1
            &&& out.results@[0].0 == old(state).pending_requests@[id@]
            &&& result_text(out.results@[0].1) == reported_result(success, error)
        }),
        answers(old(state).pending_requests@, event) == Map::<
            Seq<char>,
            Result<(), Seq<char>>,
        >::empty() ==> out.results@.len() == 0,
        out.stop == !(event is Line),
        final(state).worker_alive == (old(state).worker_alive && event is Line),
        final(state).same_but_worker(old(state)),
{
    let ghost pending = state.pending_requests@;
    let ghost answered = answers(pending, event);
    let ghost mut ids: Seq<Seq<char>> = Seq::empty();
    let mut results: Vec<(T, Result<(), String>)> = Vec::new();
    let stop = match event {
        OutputEvent::Line(message) => {
            if let Some(WorkerMessage::Response { id, success, error }) = message {
                match state.pending_requests.remove(&id) {
                    Some(waiter) => {
                        let result = if success {
                            Ok(())
                        } else {
                            Err(
                                match error {
                                    Some(e) => e,
                                    None => "Unknown rendering error".to_owned(),
                                },
                            )
                        };
                        results.push((waiter, result));
                        proof {
                            ids = seq![id@];
                            assert forall|k: Seq<char>|
                                answered.contains_key(k) <==> #[trigger] ids.contains(k) by {
                                assert(ids[0] == id@);
                            }
                        }
                    },
                    None => {},
                }
            }
            false
        },
        OutputEvent::Closed => {
            state.worker_alive = false;
            let waiters = state.pending_requests.drain();
            let ghost told = waiters@;
            proof {
                ids = choose|ids: Seq<Seq<char>>| crate::state::is_listing(told, pending, ids);
            }
            for waiter in it: waiters
                invariant
                    it.seq() == told,
                    results@.len() == it.index(),
                    forall|i: int|
                        0 <= i < results@.len() ==> (#[trigger] results@[i]).0 == told[i]
                            && result_text(results@[i].1) == Err::<(), Seq<char>>(
                            "Worker crashed"@,
                        ),
            {
                results.push((waiter, Err("Worker crashed".to_owned())));
            }
            true
        },
        OutputEvent::Failed => {
            state.worker_alive = false;
            true
        },
    };
    assert(state.pending_requests@ =~= still_waiting(pending, event));
    let out = Deliveries { results, stop };
    assert(answered == answers(old(state).pending_requests@, event));
    assert(delivers(out.results@, pending, answered, ids));
    assert(ids.len() > 0 ==> answered.contains_key(ids[0]));
    out
}

/// An event of the output loses no request and answers none that is not
/// waiting: each waiting request is either answered or still waiting, with
/// the waiter it had, and never both. A response concerns no request but the
/// one it names.
pub proof fn lemma_answered_or_waiting<T>(
    pending: Map<Seq<char>, T>,
    event: OutputEvent,
    id: Seq<char>,
)
    ensures
        pending.contains_key(id) <==> answers(pending, event).contains_key(id) || still_waiting(
            pending,
            event,
        ).contains_key(id),
        !(answers(pending, event).contains_key(id) && still_waiting(pending, event).contains_key(
            id,
        )),
        still_waiting(pending, event).contains_key(id) ==> still_waiting(pending, event)[id]
            == pending[id],
        event matches OutputEvent::Line(Some(WorkerMessage::Response { id: named, .. }))
            && id != named@ ==> !answers(pending, event).contains_key(id),
{
}

/// The requests that are still waiting after some events of the output.
pub open spec fn waiting_after<T>(pending: Map<Seq<char>, T>, events: Seq<OutputEvent>) -> Map<
    Seq<char>,
    T,
>
    decreases events.len(),
{
    if events.len() == 0 {
        pending
    } else {
        still_waiting(waiting_after(pending, events.drop_last()), events.last())
    }
}

/// How often the request `id` is answered by some events of the output.
pub open spec fn times_answered<T>(
    pending: Map<Seq<char>, T>,
    events: Seq<OutputEvent>,
    id: Seq<char>,
) -> nat
    decreases events.len(),
{
    if events.len() == 0 {
        0
    } else {
        let before = waiting_after(pending, events.drop_last());
        times_answered(pending, events.drop_last(), id) + (if answers(
            before,
            events.last(),
        ).contains_key(id) {
            1nat
        } else {
            0
        })
    }
}

/// Whatever the worker sends, a request is answered at most once, and as long
/// as it is not answered it keeps waiting; one that is not pending is never
/// answered. Once the worker has exited, every request that was pending has
/// been answered exactly once.
pub proof fn lemma_answered_once<T>(
    pending: Map<Seq<char>, T>,
    events: Seq<OutputEvent>,
    id: Seq<char>,
)
    ensures
        times_answered(pending, events, id) + (if waiting_after(pending, events).contains_key(id) {
            1nat
        } else {
            0
        }) == (if pending.contains_key(id) {
            1nat
        } else {
            0
        }),
        events.len() > 0 && events.last() is Closed && pending.contains_key(id) ==> times_answered(
            pending,
            events,
            id,
        ) == 1,
    decreases events.len(),
{
    if events.len() > 0 {
        lemma_answered_once(pending, events.drop_last(), id);
    }
}

/// The moment of the last attempt and the instant from which time is counted
/// are what the cooldown holds, unaltered.
proof fn lemma_cooldown_holds_moments(cooldown: SpawnCooldown)
    ensures
        cooldown.started() == cooldown.epoch,
        cooldown@ is None <==> cooldown.last_attempt is None,
        cooldown@ is Some ==> cooldown@->0 == cooldown.last_attempt->0,
{
}

/// An attempt at a given moment: the first is allowed, and any other exactly
/// when 10 seconds have passed since the last one. An attempt that is allowed
/// is remembered; one that is not changes nothing, and is told the 10 seconds
/// less the whole seconds that have passed.
pub proof fn lemma_begin_at_result(
    cooldown: &mut SpawnCooldown,
    now: u128,
    answer: Result<(), String>,
)
    requires
        call_ensures(SpawnCooldown::begin_at, (cooldown, now), answer),
    ensures
        old(cooldown)@ is None ==> answer is Ok,
        old(cooldown)@ matches Some(last) ==> (answer is Ok <==> now >= last + 10_000_000_000),
        answer is Ok ==> final(cooldown)@ == Some(now as nat),
        answer is Err ==> final(cooldown)@ == old(cooldown)@,
        final(cooldown).started() == old(cooldown).started(),
        answer matches Err(message) ==> exists|wait: nat|
            {
                &&& message@ == "Worker respawn on cooldown. Try again in ~"@
                    + #[trigger] decimal::numeral(wait) + " seconds."@
                &&& 1 <= wait <= 10
                &&& now < old(cooldown)@->0 ==> wait == 10
                &&& now >= old(cooldown)@->0 ==> old(cooldown)@->0 + 10_000_000_000 <= now + wait
                    * 1_000_000_000 < old(cooldown)@->0 + 11_000_000_000
            },
{
    if answer is Err {
        let wait = spawn_wait(old(cooldown)@->0, now as nat) as nat;
        assert(answer->Err_0@ == "Worker respawn on cooldown. Try again in ~"@ + decimal::numeral(
            wait,
        ) + " seconds."@);
    }
}

/// An attempt is decided on what the clock showed during the call, and
/// remembered at that reading.
pub proof fn lemma_begin_result(cooldown: &mut SpawnCooldown, answer: Result<(), String>)
    requires
        call_ensures(SpawnCooldown::begin, (cooldown,), answer),
    ensures
        exists|now: nat|
            {
                &&& #[trigger] clock::is_reading(old(cooldown).started(), now)
                &&& answer is Ok <==> old(cooldown)@ is None || now >= old(cooldown)@->0
                    + 10_000_000_000
                &&& answer is Ok ==> final(cooldown)@ == Some(now)
            },
        answer is Err ==> final(cooldown)@ == old(cooldown)@,
        final(cooldown).started() == old(cooldown).started(),
{
    let now = choose|now: nat|
        now < READING_LIMIT && clock::is_reading(old(cooldown).started(), now)
            && #[trigger] attempt_outcome(old(cooldown)@, now, final(cooldown)@, answer);
    assert(clock::is_reading(old(cooldown).started(), now));
}

/// Two attempts, each on its own reading of the clock, with none that was allowed
/// in between: if the first was allowed, the second is allowed exactly when its
/// reading lies 10 seconds or more after the first.
pub proof fn lemma_two_attempts(
    first: &mut SpawnCooldown,
    first_answer: Result<(), String>,
    second: &mut SpawnCooldown,
    second_answer: Result<(), String>,
)
    requires
        call_ensures(SpawnCooldown::begin, (first,), first_answer),
        call_ensures(SpawnCooldown::begin, (second,), second_answer),
        old(second)@ == final(first)@,
        old(second).started() == final(first).started(),
        first_answer is Ok,
    ensures
        exists|m: nat, n: nat| #[trigger]
            clock::is_reading(old(first).started(), m) && #[trigger] clock::is_reading(
                old(first).started(),
                n,
            ) && (second_answer is Ok <==> n >= m + 10_000_000_000),
{
    let m = choose|m: nat|
        m < READING_LIMIT && clock::is_reading(old(first).started(), m)
            && #[trigger] attempt_outcome(old(first)@, m, final(first)@, first_answer);
    let n = choose|n: nat|
        n < READING_LIMIT && clock::is_reading(old(second).started(), n)
            && #[trigger] attempt_outcome(old(second)@, n, final(second)@, second_answer);
    assert(clock::is_reading(old(first).started(), m));
    assert(clock::is_reading(old(first).started(), n));
}

/// A new cooldown remembers no attempt, and counts from the moment it was made.
pub proof fn lemma_new_cooldown_result(cooldown: SpawnCooldown)
    requires
        call_ensures(SpawnCooldown::new, (), cooldown),
    ensures
        cooldown@ is None,
        call_ensures(Instant::now, (), cooldown.started()),
{
}

/// What a caller has to do that wants the worker to be alive: nothing where it
/// is; otherwise, without the lock, to take it; and with the lock, to start the
/// worker exactly when no attempt was made yet or the clock shows 10 seconds or
/// more since the last one, which is then remembered at that reading.
pub proof fn lemma_ensure_worker_result<T>(
    state: &mut AppState<T>,
    stage: EnsureStage,
    action: EnsureAction,
)
    requires
        call_ensures(ensure_worker::<T>, (state, stage), action),
    ensures
        old(state).worker_alive <==> action is Ready,
        !old(state).worker_alive && stage is Fast <==> action is TakeSpawnLock,
        !old(state).worker_alive && stage is Locked ==> exists|now: nat|
            {
                let last = old(state).last_spawn_attempt@;
                &&& #[trigger] clock::is_reading(old(state).last_spawn_attempt.started(), now)
                &&& action is Start || action is Refuse
                &&& action is Start <==> last is None || now >= last->0 + 10_000_000_000
                &&& action is Start ==> final(state).last_spawn_attempt@ == Some(now)
                &&& action is Refuse ==> action->Refuse_0@
                    == "Worker respawn on cooldown. Try again in ~"@ + decimal::numeral(
                    (if now < last->0 {
                        10
                    } else {
                        10 - (now - last->0) / 1_000_000_000
                    }) as nat,
                ) + " seconds."@
            },
        !(action is Start) ==> final(state).last_spawn_attempt@ == old(state).last_spawn_attempt@,
        final(state).worker_alive == old(state).worker_alive,
        final(state).pending_requests@ == old(state).pending_requests@,
{
    if !old(state).worker_alive && stage is Locked {
        let now = choose|now: nat|
            clock::is_reading(old(state).last_spawn_attempt.started(), now)
                && #[trigger] ensure_outcome(
                old(state).worker_alive,
                stage,
                old(state).last_spawn_attempt@,
                now,
                final(state).last_spawn_attempt@,
                action,
            );
        assert(clock::is_reading(old(state).last_spawn_attempt.started(), now));
    }
}

/// A refusal is handed on with its message, and a permission leads to a start.
pub proof fn lemma_after_attempt_result(answer: Result<(), String>, action: EnsureAction)
    requires
        call_ensures(after_attempt, (answer,), action),
    ensures
        answer is Ok <==> action is Start,
        answer matches Err(message) ==> action is Refuse && action->Refuse_0@ == message@,
{
}

/// The first line of the worker is handed to the parser without the white space
/// around it, and with everything else that it holds: what is parsed has no
/// white space at its ends, and stands in the line with white space alone
/// before and behind it.
pub proof fn lemma_first_line_is_parsed<T>(
    state: &mut AppState<T>,
    line: String,
    action: StartAction,
)
    requires
        call_ensures(start_worker::<T>, (state, StartEvent::Line(line)), action),
    ensures
        action is Parse,
        action->Parse_0@.len() > 0 ==> !text::is_white_space(action->Parse_0@[0])
            && !text::is_white_space(action->Parse_0@.last()),
        exists|before: Seq<char>, after: Seq<char>|
            line@ == #[trigger] (before + action->Parse_0@ + after) && (forall|i: int|
                0 <= i < before.len() ==> text::is_white_space(#[trigger] before[i])) && (forall|
                i: int,
            |
                0 <= i < after.len() ==> text::is_white_space(#[trigger] after[i])),
        final(state).worker_alive == old(state).worker_alive,
{
    let (before, after) = text::lemma_trimmed_parts(line@);
    assert(line@ == before + action->Parse_0@ + after);
}

/// A first line that has no white space at its ends, but for what follows it, is
/// handed to the parser whole.
pub proof fn lemma_ready_line_is_parsed_whole<T>(
    state: &mut AppState<T>,
    line: String,
    message: Seq<char>,
    ending: Seq<char>,
    action: StartAction,
)
    requires
        call_ensures(start_worker::<T>, (state, StartEvent::Line(line)), action),
        line@ == message + ending,
        message.len() > 0,
        !text::is_white_space(message[0]),
        !text::is_white_space(message.last()),
        forall|i: int| 0 <= i < ending.len() ==> text::is_white_space(#[trigger] ending[i]),
    ensures
        action is Parse,
        action->Parse_0@ == message,
{
    text::lemma_trimmed_is_the_middle(Seq::empty(), message, ending);
    assert(Seq::<char>::empty() + message + ending =~= message + ending);
}

/// What follows each event of a start: a process with all its pipes is waited
/// for, for 15 seconds; a ready worker is served; and everything else fails,
/// with the reason and whatever detail came with it.
pub proof fn lemma_start_worker_result<T>(
    state: &mut AppState<T>,
    event: StartEvent,
    action: StartAction,
)
    requires
        call_ensures(start_worker::<T>, (state, event), action),
    ensures
        event matches StartEvent::SpawnFailed(e) ==> action is Fail && action->Fail_0@
            == "Failed to spawn worker: "@ + e@,
        event matches StartEvent::Spawned { stdin, stdout, stderr } ==> {
            &&& stdin && stdout && stderr ==> action is ReadLine && action->timeout_secs == 15
            &&& !stdin ==> action is Fail && action->Fail_0@ == "Failed to get worker stdin"@
            &&& stdin && !stdout ==> action is Fail && action->Fail_0@
                == "Failed to get worker stdout"@
            &&& stdin && stdout && !stderr ==> action is Fail && action->Fail_0@
                == "Failed to get worker stderr"@
        },
        event matches StartEvent::ReadFailed(e) ==> action is Fail && action->Fail_0@
            == "Failed to read worker ready message: "@ + e@,
        event is ReadTimedOut ==> action is Fail && action->Fail_0@
            == "Worker startup timed out after 15s"@,
        event matches StartEvent::ParseFailed(e) ==> action is Fail && action->Fail_0@
            == "Invalid ready message: "@ + e@,
        event matches StartEvent::Message(WorkerMessage::Ready { ready, error }) ==> {
            &&& ready ==> action is Serve
            &&& !ready && error is Some ==> action is Fail && action->Fail_0@
                == "Worker failed to start: "@ + error->0@
            &&& !ready && error is None ==> action is Fail && action->Fail_0@
                == "Worker failed to start: "@ + "Unknown error"@
        },
        event matches StartEvent::Message(WorkerMessage::Response { .. }) ==> action is Fail
            && action->Fail_0@ == "Unexpected first message from worker"@,
        action is Parse <==> event is Line,
{
}

/// What becomes of the state in a start: the worker counts as alive once it has
/// reported that it is ready, as dead once its first line could not be had or
/// was something else, and otherwise as before. Nothing else changes.
pub proof fn lemma_start_worker_state<T>(
    state: &mut AppState<T>,
    event: StartEvent,
    action: StartAction,
)
    requires
        call_ensures(start_worker::<T>, (state, event), action),
    ensures
        event matches StartEvent::Message(WorkerMessage::Ready { ready, .. })
            ==> final(state).worker_alive == ready,
        event matches StartEvent::Message(WorkerMessage::Response { .. })
            ==> !final(state).worker_alive,
        event is ReadFailed || event is ReadTimedOut ==> !final(state).worker_alive,
        event is SpawnFailed || event is Spawned || event is Line || event is ParseFailed
            ==> final(state).worker_alive == old(state).worker_alive,
        final(state).pending_requests@ == old(state).pending_requests@,
        final(state).rate_limiter == old(state).rate_limiter,
        final(state).last_spawn_attempt == old(state).last_spawn_attempt,
        final(state).render_timeout_secs == old(state).render_timeout_secs,
        final(state).max_html_size == old(state).max_html_size,
        final(state).max_concurrent == old(state).max_concurrent,
        final(state).trust_proxy == old(state).trust_proxy,
        final(state).started_at == old(state).started_at,
{
}

/// A message as it is sent is its text, whole, and one line break.
pub proof fn lemma_frame_message_result(json: String, line: String)
    requires
        call_ensures(frame_message, (json,), line),
    ensures
        line@ == json@.push('\n'),
{
    reveal_strlit("\n");
    assert(line@ =~= json@.push('\n'));
}

/// A response of the worker goes to the waiter of the request that it names,
/// with the result that it reports, and that request alone is no longer
/// pending; where no such request is pending, nobody is told anything and
/// nothing changes.
pub proof fn lemma_response_is_delivered<T>(
    state: &mut AppState<T>,
    id: String,
    success: bool,
    error: Option<String>,
    out: Deliveries<T>,
)
    requires
        old(state).wf(),
        call_ensures(
            dispatch::<T>,
            (
                state,
                OutputEvent::Line(Some(WorkerMessage::Response { id, success, error })),
            ),
            out,
        ),
    ensures
        !out.stop,
        final(state).worker_alive == old(state).worker_alive,
        final(state).pending_requests@ == old(state).pending_requests@.remove(id@),
        !old(state).pending_requests@.contains_key(id@) ==> out.results@.len() == 0,
        old(state).pending_requests@.contains_key(id@) ==> {
            &&& out.results@.len() == 1
            &&& out.results@[0].0 == old(state).pending_requests@[id@]
            &&& out.results@[0].1 is Ok <==> success
            &&& !success && error is Some ==> out.results@[0].1->Err_0@ == error->0@
            &&& !success && error is None ==> out.results@[0].1->Err_0@
                == "Unknown rendering error"@
        },
{
    let event = OutputEvent::Line(Some(WorkerMessage::Response { id, success, error }));
    let pending = old(state).pending_requests@;
    assert(final(state).pending_requests@ =~= pending.remove(id@));
    if !pending.contains_key(id@) {
        assert(answers(pending, event) =~= Map::<Seq<char>, Result<(), Seq<char>>>::empty());
    }
}

/// When the worker has exited, every waiter is told once that it crashed, and
/// nothing is pending any more.
pub proof fn lemma_exit_is_told_to_all<T>(state: &mut AppState<T>, out: Deliveries<T>)
    requires
        old(state).wf(),
        call_ensures(dispatch::<T>, (state, OutputEvent::Closed), out),
    ensures
        out.stop,
        !final(state).worker_alive,
        final(state).pending_requests@ == Map::<Seq<char>, T>::empty(),
        exists|ids: Seq<Seq<char>>|
            {
                &&& #[trigger] ids.no_duplicates()
                &&& ids.len() == out.results@.len()
                &&& forall|id: Seq<char>|
                    old(state).pending_requests@.contains_key(id) <==> #[trigger] ids.contains(id)
                &&& forall|i: int|
                    0 <= i < out.results@.len() ==> (#[trigger] out.results@[i]).0
                        == old(state).pending_requests@[ids[i]]
            },
        forall|i: int|
            0 <= i < out.results@.len() ==> (#[trigger] out.results@[i]).1 is Err
                && out.results@[i].1->Err_0@ == "Worker crashed"@,
{
    let pending = old(state).pending_requests@;
    let answered = answers(pending, OutputEvent::Closed);
    assert(final(state).pending_requests@ =~= Map::<Seq<char>, T>::empty());
    let ids = choose|ids: Seq<Seq<char>>| #[trigger]
        delivers(out.results@, pending, answered, ids);
    assert forall|id: Seq<char>| pending.contains_key(id) <==> #[trigger] ids.contains(id) by {
        assert(answered.contains_key(id) <==> pending.contains_key(id));
    }
    assert forall|i: int| 0 <= i < out.results@.len() implies (#[trigger] out.results@[i]).0
        == pending[ids[i]] && out.results@[i].1 is Err && out.results@[i].1->Err_0@
        == "Worker crashed"@ by {
        assert(answered.contains_key(ids[i]));
        assert(result_text(out.results@[i].1) == answered[ids[i]]);
    }
    assert(ids.no_duplicates());
}

/// A line that is no response, or the failure to read one, is told to nobody and
/// leaves every request pending; the failure, but no line, ends the worker.
pub proof fn lemma_other_output_is_told_to_nobody<T>(
    state: &mut AppState<T>,
    event: OutputEvent,
    out: Deliveries<T>,
)
    requires
        old(state).wf(),
        call_ensures(dispatch::<T>, (state, event), out),
        event is Failed || event matches OutputEvent::Line(None) || event matches OutputEvent::Line(
            Some(WorkerMessage::Ready { .. }),
        ),
    ensures
        out.results@.len() == 0,
        final(state).pending_requests@ == old(state).pending_requests@,
        out.stop <==> event is Failed,
        event is Failed ==> !final(state).worker_alive,
        event is Line ==> final(state).worker_alive == old(state).worker_alive,
{
    let pending = old(state).pending_requests@;
    assert(answers(pending, event) =~= Map::<Seq<char>, Result<(), Seq<char>>>::empty());
    assert(final(state).pending_requests@ =~= pending);
}

/// The cooldown and the startup time in their units.
pub proof fn lemma_worker_times()
    ensures
        RESPAWN_COOLDOWN_SECS == 10,
        RESPAWN_COOLDOWN_NANOS == 10 * 1_000_000_000,
        STARTUP_TIMEOUT_SECS == 15,
{
}

} // verus!
