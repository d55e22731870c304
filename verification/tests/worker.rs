use html_to_pdf_service::config::{Config, EnvVars};
use html_to_pdf_service::state::{AppState, PendingRequests};
use html_to_pdf_service::worker::{
    after_attempt, dispatch, ensure_worker, frame_message, start_worker, EnsureAction, EnsureStage, OutputEvent,
    SpawnCooldown, StartAction, StartEvent, WorkerMessage,
};

const SEC: u128 = 1_000_000_000;

fn fresh() -> AppState<u32> {
    AppState::new(&Config::from_env(&EnvVars {
        port: None,
        max_concurrent_renders: None,
        render_timeout_secs: None,
        max_body_size_bytes: None,
        cors_allow_origin: None,
        trust_proxy: None,
    }))
}

fn waiting(ids: &[&str]) -> AppState<u32> {
    let mut st = fresh();
    st.worker_alive = true;
    for (n, id) in ids.iter().enumerate() {
        assert_eq!(st.pending_requests.insert(id.to_string(), n as u32), None);
    }
    st
}

fn response(id: &str, success: bool, error: Option<&str>) -> OutputEvent {
    OutputEvent::Line(Some(WorkerMessage::Response {
        id: id.to_string(),
        success,
        error: error.map(|e| e.to_string()),
    }))
}

fn failure(action: StartAction) -> String {
    match action {
        StartAction::Fail(e) => e,
        _ => panic!("not a failure"),
    }
}

#[test]
fn pending_requests_are_a_map() {
    let mut pending: PendingRequests<u32> = PendingRequests::new();
    assert_eq!(pending.insert("a".to_string(), 1), None);
    assert_eq!(pending.insert("b".to_string(), 2), None);
    assert_eq!(pending.insert("a".to_string(), 3), Some(1));
    assert_eq!(pending.remove(&"c".to_string()), None);
    assert_eq!(pending.remove(&"a".to_string()), Some(3));
    assert_eq!(pending.remove(&"a".to_string()), None);
    assert_eq!(pending.insert("d".to_string(), 4), None);
    let mut left = pending.drain();
    left.sort();
    assert_eq!(left, vec![2, 4]);
    assert!(pending.drain().is_empty());
}

#[test]
fn startup_succeeds_step_by_step() {
    let mut st = fresh();
    match start_worker(&mut st, StartEvent::Spawned { stdin: true, stdout: true, stderr: true }) {
        StartAction::ReadLine { timeout_secs } => assert_eq!(timeout_secs, 15),
        _ => panic!("no line is read"),
    }
    match start_worker(&mut st, StartEvent::Line(" {\"type\":\"ready\",\"ready\":true}\n".to_string())) {
        StartAction::Parse(t) => assert_eq!(t, "{\"type\":\"ready\",\"ready\":true}"),
        _ => panic!("the line is not parsed"),
    }
    assert!(!st.worker_alive);
    let ready = StartEvent::Message(WorkerMessage::Ready { ready: true, error: None });
    assert!(matches!(start_worker(&mut st, ready), StartAction::Serve));
    assert!(st.worker_alive);
}

#[test]
fn startup_failures() {
    let cases = vec![
        (StartEvent::SpawnFailed("no node".to_string()), "Failed to spawn worker: no node", true),
        (StartEvent::Spawned { stdin: false, stdout: false, stderr: false }, "Failed to get worker stdin", true),
        (StartEvent::Spawned { stdin: true, stdout: false, stderr: false }, "Failed to get worker stdout", true),
        (StartEvent::Spawned { stdin: true, stdout: true, stderr: false }, "Failed to get worker stderr", true),
        (StartEvent::ReadFailed("eof".to_string()), "Failed to read worker ready message: eof", false),
        (StartEvent::ReadTimedOut, "Worker startup timed out after 15s", false),
        (StartEvent::ParseFailed("bad".to_string()), "Invalid ready message: bad", true),
        (
            StartEvent::Message(WorkerMessage::Ready { ready: false, error: Some("no chrome".to_string()) }),
            "Worker failed to start: no chrome",
            false,
        ),
        (
            StartEvent::Message(WorkerMessage::Ready { ready: false, error: None }),
            "Worker failed to start: Unknown error",
            false,
        ),
        (
            StartEvent::Message(WorkerMessage::Response { id: "x".to_string(), success: true, error: None }),
            "Unexpected first message from worker",
            false,
        ),
    ];
    for (event, message, alive) in cases {
        let mut st = fresh();
        st.worker_alive = true;
        assert_eq!(failure(start_worker(&mut st, event)), message);
        assert_eq!(st.worker_alive, alive, "{}", message);
    }
}

#[test]
fn messages_are_one_line_each() {
    assert_eq!(frame_message("{\"id\":\"1\"}".to_string()), "{\"id\":\"1\"}\n");
    let sent = frame_message("a".to_string()) + &frame_message("b".to_string());
    assert_eq!(sent.lines().collect::<Vec<_>>(), vec!["a", "b"]);
}

#[test]
fn spawn_attempts_are_ten_seconds_apart() {
    let mut cooldown = SpawnCooldown::new();
    assert_eq!(cooldown.begin_at(SEC), Ok(()));
    for (now, wait) in [(SEC, 10), (2 * SEC - 1, 10), (2 * SEC, 9), (11 * SEC - 1, 1), (0, 10)] {
        assert_eq!(
            cooldown.begin_at(now),
            Err(format!("Worker respawn on cooldown. Try again in ~{} seconds.", wait))
        );
    }
    assert_eq!(cooldown.begin_at(11 * SEC), Ok(()));
    assert!(cooldown.begin_at(21 * SEC - 1).is_err());
}

#[test]
fn any_two_spawn_attempts_are_ten_seconds_apart() {
    let mut cooldown = SpawnCooldown::new();
    let mut begun: Vec<u128> = Vec::new();
    for now in [3 * SEC, 0, 12 * SEC, 13 * SEC, 14 * SEC, 5 * SEC, 40 * SEC, 49 * SEC, 51 * SEC] {
        if cooldown.begin_at(now).is_ok() {
            begun.push(now);
        }
    }
    assert_eq!(begun, vec![3 * SEC, 13 * SEC, 40 * SEC, 51 * SEC]);
}

#[test]
fn a_refused_attempt_may_come_back_after_the_announced_wait() {
    let mut cooldown = SpawnCooldown::new();
    assert_eq!(cooldown.begin_at(0), Ok(()));
    assert_eq!(
        cooldown.begin_at(3 * SEC + 1),
        Err("Worker respawn on cooldown. Try again in ~7 seconds.".to_string())
    );
    assert_eq!(cooldown.begin_at(10 * SEC + 1), Ok(()));
}

#[test]
fn spawn_attempts_on_the_clock() {
    let mut cooldown = SpawnCooldown::new();
    assert_eq!(cooldown.begin(), Ok(()));
    assert_eq!(
        cooldown.begin(),
        Err("Worker respawn on cooldown. Try again in ~10 seconds.".to_string())
    );
}

#[test]
fn a_live_worker_is_left_alone() {
    let mut st = fresh();
    st.worker_alive = true;
    assert!(matches!(ensure_worker(&mut st, EnsureStage::Fast), EnsureAction::Ready));
    assert!(matches!(ensure_worker(&mut st, EnsureStage::Locked), EnsureAction::Ready));
    assert_eq!(st.last_spawn_attempt.begin(), Ok(()));
}

#[test]
fn a_dead_worker_is_started_under_the_lock_once_per_cooldown() {
    let mut st = fresh();
    assert!(matches!(ensure_worker(&mut st, EnsureStage::Fast), EnsureAction::TakeSpawnLock));
    assert!(matches!(ensure_worker(&mut st, EnsureStage::Locked), EnsureAction::Start));
    match ensure_worker(&mut st, EnsureStage::Locked) {
        EnsureAction::Refuse(m) => assert_eq!(m, "Worker respawn on cooldown. Try again in ~10 seconds."),
        _ => panic!("started again"),
    }
    assert!(matches!(after_attempt(Ok(())), EnsureAction::Start));
    assert!(matches!(after_attempt(Err("w".to_string())), EnsureAction::Refuse(m) if m == "w"));
}

#[test]
fn one_good_start_serves_every_caller() {
    let mut st = fresh();
    for _ in 0..3 {
        assert!(matches!(ensure_worker(&mut st, EnsureStage::Fast), EnsureAction::TakeSpawnLock));
    }
    // The first caller has the lock, and starts the worker.
    assert!(matches!(ensure_worker(&mut st, EnsureStage::Locked), EnsureAction::Start));
    start_worker(&mut st, StartEvent::Spawned { stdin: true, stdout: true, stderr: true });
    assert!(matches!(ensure_worker(&mut st, EnsureStage::Fast), EnsureAction::TakeSpawnLock));
    let ready = StartEvent::Message(WorkerMessage::Ready { ready: true, error: None });
    assert!(matches!(start_worker(&mut st, ready), StartAction::Serve));
    // The others get the lock one after another.
    for _ in 0..3 {
        assert!(matches!(ensure_worker(&mut st, EnsureStage::Locked), EnsureAction::Ready));
    }
    assert!(matches!(ensure_worker(&mut st, EnsureStage::Fast), EnsureAction::Ready));
    // Once the worker has died, the cooldown of the start still holds.
    dispatch(&mut st, OutputEvent::Closed);
    assert!(matches!(ensure_worker(&mut st, EnsureStage::Locked), EnsureAction::Refuse(_)));
}

#[test]
fn a_response_reaches_the_request_it_names_once() {
    let mut st = waiting(&["a", "b", "c"]);
    let out = dispatch(&mut st, response("b", true, None));
    assert_eq!(out.results, vec![(1, Ok(()))]);
    assert!(!out.stop);
    assert!(dispatch(&mut st, response("b", true, None)).results.is_empty());
    assert!(dispatch(&mut st, response("x", true, None)).results.is_empty());
    let out = dispatch(&mut st, response("a", false, Some("boom")));
    assert_eq!(out.results, vec![(0, Err("boom".to_string()))]);
    let out = dispatch(&mut st, response("c", false, None));
    assert_eq!(out.results, vec![(2, Err("Unknown rendering error".to_string()))]);
    assert!(st.worker_alive);
}

#[test]
fn a_success_ignores_its_error_text() {
    let mut st = waiting(&["a"]);
    assert_eq!(dispatch(&mut st, response("a", true, Some("odd"))).results, vec![(0, Ok(()))]);
}

#[test]
fn other_lines_are_ignored() {
    let mut st = waiting(&["a"]);
    assert!(dispatch(&mut st, OutputEvent::Line(None)).results.is_empty());
    let ready = OutputEvent::Line(Some(WorkerMessage::Ready { ready: false, error: None }));
    let out = dispatch(&mut st, ready);
    assert!(out.results.is_empty());
    assert!(!out.stop);
    assert!(st.worker_alive);
    assert_eq!(st.pending_requests.remove(&"a".to_string()), Some(0));
}

#[test]
fn the_exit_of_the_worker_answers_every_request() {
    let mut st = waiting(&["a", "b", "c"]);
    assert_eq!(dispatch(&mut st, response("b", true, None)).results.len(), 1);
    let mut out = dispatch(&mut st, OutputEvent::Closed);
    out.results.sort();
    assert_eq!(
        out.results,
        vec![(0, Err("Worker crashed".to_string())), (2, Err("Worker crashed".to_string()))]
    );
    assert!(out.stop);
    assert!(!st.worker_alive);
    assert!(st.pending_requests.drain().is_empty());
}

#[test]
fn a_read_error_stops_without_answers() {
    let mut st = waiting(&["a"]);
    let out = dispatch(&mut st, OutputEvent::Failed);
    assert!(out.results.is_empty());
    assert!(out.stop);
    assert!(!st.worker_alive);
    assert_eq!(st.pending_requests.drain(), vec![0]);
}
