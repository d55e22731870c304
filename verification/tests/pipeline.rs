use html_to_pdf_service::config::{Config, EnvVars};
use html_to_pdf_service::handlers::GeneratePdfRequest;
use html_to_pdf_service::pipeline::{open_job, Action, Event, RenderJob, RenderOutcome, SendOutcome, Stage};
use html_to_pdf_service::response::{Body, Response, Status};
use html_to_pdf_service::state::AppState;
use html_to_pdf_service::worker::{dispatch, OutputEvent, WorkerMessage};
use tokio::sync::Semaphore;

type State = AppState<u32>;

fn fresh() -> State {
    let mut st: State = AppState::new(&Config::from_env(&EnvVars {
        port: None,
        max_concurrent_renders: None,
        render_timeout_secs: Some("45".to_string()),
        max_body_size_bytes: None,
        cors_allow_origin: None,
        trust_proxy: None,
    }));
    st.worker_alive = true;
    st
}

fn job<'a>(semaphore: &'a Semaphore) -> RenderJob<'a> {
    let request = GeneratePdfRequest {
        html: "<p>x</p>".to_string(),
        landscape: true,
        format: "Letter".to_string(),
        print_background: false,
        scale: f64::to_bits(0.8),
        omit_background: true,
    };
    match open_job(semaphore.try_acquire().ok(), request) {
        Ok(job) => job,
        Err(_) => panic!("refused"),
    }
}

/// The events that lead from the start to `stage`.
fn advance(job: &mut RenderJob<'_>, st: &mut State, stage: Stage) {
    while job.stage() != stage {
        let event = match job.stage() {
            Stage::EnsureWorker => Event::Worker(true),
            Stage::CreateHtmlFile => Event::File(Some("/tmp/in.html".to_string())),
            Stage::CreatePdfFile => Event::File(Some("/tmp/out.pdf".to_string())),
            Stage::WriteHtml => Event::Written(Some(7)),
            Stage::Encode => Event::Encoded(Some("{}".to_string())),
            Stage::Send => Event::Sent(SendOutcome::Sent),
            Stage::AwaitResult => Event::Answer(RenderOutcome::Reported(Ok(()))),
            Stage::ReadPdf => Event::Pdf(Some(vec![1])),
            Stage::Finished => panic!("over"),
        };
        assert!(job.expects(&event));
        job.step(event, st);
    }
}

fn answer(action: Action) -> Response {
    match action {
        Action::Respond(r) => r,
        _ => panic!("not an answer"),
    }
}

fn assert_text(r: Response, status: Status, message: &str) {
    assert_eq!(r.status, status);
    assert_eq!(r.headers.get("content-type").unwrap(), "text/plain");
    match r.body {
        Body::Text(t) => assert_eq!(t, message),
        Body::Pdf(_) => panic!("not a text"),
    }
}

#[test]
fn a_render_that_succeeds() {
    let semaphore = Semaphore::new(1);
    let mut st = fresh();
    let mut job = job(&semaphore);
    assert_eq!(job.html(), "<p>x</p>");
    assert!(matches!(job.step(Event::Worker(true), &mut st), Action::CreateHtmlFile));
    assert!(matches!(job.step(Event::File(Some("/h".to_string())), &mut st), Action::CreatePdfFile));
    match job.step(Event::File(Some("/p".to_string())), &mut st) {
        Action::WriteHtml { path } => assert_eq!(path, "/h"),
        _ => panic!("the HTML is not written"),
    }
    let id = match job.step(Event::Written(Some(7)), &mut st) {
        Action::Encode(request) => {
            assert_eq!(request.html_path, "/h");
            assert_eq!(request.pdf_path, "/p");
            assert!(request.landscape);
            assert_eq!(request.format, "Letter");
            assert!(!request.print_background);
            assert_eq!(f64::from_bits(request.scale), 0.8);
            assert!(request.omit_background);
            request.id
        }
        _ => panic!("the request is not encoded"),
    };
    let parsed = uuid::Uuid::parse_str(&id).unwrap();
    assert_eq!(parsed.get_version_num(), 4);
    assert_eq!(parsed.to_string(), id);
    match job.step(Event::Encoded(Some("{\"a\":1}".to_string())), &mut st) {
        Action::Send(line) => assert_eq!(line, "{\"a\":1}\n"),
        _ => panic!("the request is not sent"),
    }
    match job.step(Event::Sent(SendOutcome::Sent), &mut st) {
        Action::AwaitResult { timeout_secs } => assert_eq!(timeout_secs, 45),
        _ => panic!("the result is not awaited"),
    }
    let line = OutputEvent::Line(Some(WorkerMessage::Response { id, success: true, error: None }));
    assert_eq!(dispatch(&mut st, line).results, vec![(7, Ok(()))]);
    assert_eq!(semaphore.available_permits(), 0);
    match job.step(Event::Answer(RenderOutcome::Reported(Ok(()))), &mut st) {
        Action::ReadPdf { path } => assert_eq!(path, "/p"),
        _ => panic!("the PDF is not read"),
    }
    assert_eq!(semaphore.available_permits(), 1);
    let r = answer(job.step(Event::Pdf(Some(vec![37, 80, 68, 70])), &mut st));
    assert_eq!(job.stage(), Stage::Finished);
    assert_eq!(r.status, Status::Success);
    assert_eq!(r.headers.get("content-type").unwrap(), "application/pdf");
    assert_eq!(r.headers.get("x-ratelimit-limit").unwrap(), "1");
    assert_eq!(r.headers.get("x-ratelimit-remaining").unwrap(), "1");
    assert_eq!(r.headers.get("x-ratelimit-reset").unwrap(), "0");
    assert!(matches!(r.body, Body::Pdf(b) if b == vec![37, 80, 68, 70]));
    assert!(st.pending_requests.drain().is_empty());
    assert!(st.worker_alive);
}

#[test]
fn the_document_reports_the_cooldown() {
    let semaphore = Semaphore::new(1);
    let mut st = fresh();
    assert_eq!(st.rate_limiter.check(), Ok(()));
    let mut job = job(&semaphore);
    advance(&mut job, &mut st, Stage::ReadPdf);
    let r = answer(job.step(Event::Pdf(Some(vec![])), &mut st));
    assert_eq!(r.headers.get("x-ratelimit-remaining").unwrap(), "0");
    let reset = r.headers.get("x-ratelimit-reset").unwrap().to_str().unwrap().parse::<u64>().unwrap();
    assert!(reset == 30 || reset == 29);
}

#[test]
fn given_id_and_cooldown_are_used() {
    let semaphore = Semaphore::new(1);
    let mut st = fresh();
    let mut job = job(&semaphore);
    advance(&mut job, &mut st, Stage::WriteHtml);
    match job.step_with(Event::Written(Some(3)), &mut st, "the-id".to_string(), 0) {
        Action::Encode(request) => assert_eq!(request.id, "the-id"),
        _ => panic!("the request is not encoded"),
    }
    assert_eq!(st.pending_requests.remove(&"the-id".to_string()), Some(3));
    advance(&mut job, &mut st, Stage::ReadPdf);
    let r = answer(job.step_with(Event::Pdf(Some(vec![])), &mut st, String::new(), 12));
    assert_eq!(r.headers.get("x-ratelimit-reset").unwrap(), "12");
}

#[test]
fn ways_to_fail() {
    let cases: Vec<(Stage, Event<u32>, Status, &str, bool)> = vec![
        (
            Stage::EnsureWorker,
            Event::Worker(false),
            Status::InternalServerError,
            "PDF service is temporarily unavailable. Please try again later.",
            true,
        ),
        (Stage::CreateHtmlFile, Event::File(None), Status::InternalServerError, "Internal server error", true),
        (Stage::CreatePdfFile, Event::File(None), Status::InternalServerError, "Internal server error", true),
        (Stage::WriteHtml, Event::Written(None), Status::InternalServerError, "Internal server error", true),
        (Stage::Encode, Event::Encoded(None), Status::InternalServerError, "Internal server error", true),
        (
            Stage::Send,
            Event::Sent(SendOutcome::Broken),
            Status::InternalServerError,
            "Failed to communicate with PDF worker",
            false,
        ),
        (
            Stage::Send,
            Event::Sent(SendOutcome::NoWorker),
            Status::InternalServerError,
            "PDF worker is not available",
            true,
        ),
        (
            Stage::AwaitResult,
            Event::Answer(RenderOutcome::TimedOut),
            Status::GatewayTimeout,
            "PDF rendering timed out",
            true,
        ),
    ];
    for (stage, event, status, message, alive) in cases {
        let semaphore = Semaphore::new(1);
        let mut st = fresh();
        st.pending_requests.insert("other".to_string(), 99);
        let mut job = job(&semaphore);
        advance(&mut job, &mut st, stage);
        assert_eq!(semaphore.available_permits(), 0);
        assert_text(answer(job.step(event, &mut st)), status, message);
        assert_eq!(job.stage(), Stage::Finished);
        assert_eq!(semaphore.available_permits(), 1);
        assert_eq!(st.worker_alive, alive, "{}", message);
        assert_eq!(st.pending_requests.drain(), vec![99], "{}", message);
    }
}

#[test]
fn failed_renders() {
    for outcome in [RenderOutcome::Reported(Err("boom".to_string())), RenderOutcome::Dropped] {
        let semaphore = Semaphore::new(1);
        let mut st = fresh();
        let mut job = job(&semaphore);
        advance(&mut job, &mut st, Stage::AwaitResult);
        assert_text(
            answer(job.step(Event::Answer(outcome), &mut st)),
            Status::InternalServerError,
            "PDF rendering failed. Please check your HTML and try again.",
        );
        assert_eq!(semaphore.available_permits(), 1);
    }
}

#[test]
fn unreadable_document() {
    let semaphore = Semaphore::new(1);
    let mut st = fresh();
    let mut job = job(&semaphore);
    advance(&mut job, &mut st, Stage::ReadPdf);
    assert_text(
        answer(job.step(Event::Pdf(None), &mut st)),
        Status::InternalServerError,
        "Failed to read generated PDF",
    );
}

#[test]
fn a_late_response_is_ignored() {
    let semaphore = Semaphore::new(1);
    let mut st = fresh();
    let mut job = job(&semaphore);
    advance(&mut job, &mut st, Stage::WriteHtml);
    let id = match job.step(Event::Written(Some(5)), &mut st) {
        Action::Encode(request) => request.id,
        _ => panic!("the request is not encoded"),
    };
    advance(&mut job, &mut st, Stage::AwaitResult);
    job.step(Event::Answer(RenderOutcome::TimedOut), &mut st);
    let line = OutputEvent::Line(Some(WorkerMessage::Response { id, success: true, error: None }));
    assert!(dispatch(&mut st, line).results.is_empty());
}

#[test]
fn an_answered_render_leaves_nothing_behind() {
    for success in [true, false] {
        let semaphore = Semaphore::new(1);
        let mut st = fresh();
        st.pending_requests.insert("other".to_string(), 99);
        let mut job = job(&semaphore);
        advance(&mut job, &mut st, Stage::WriteHtml);
        let id = match job.step(Event::Written(Some(5)), &mut st) {
            Action::Encode(request) => request.id,
            _ => panic!("the request is not encoded"),
        };
        advance(&mut job, &mut st, Stage::AwaitResult);
        let line = OutputEvent::Line(Some(WorkerMessage::Response { id: id.clone(), success, error: None }));
        let mut told = dispatch(&mut st, line).results;
        assert_eq!(told.len(), 1);
        let (waiter, result) = told.remove(0);
        assert_eq!(waiter, 5);
        assert_eq!(result.is_ok(), success);
        job.step(Event::Answer(RenderOutcome::Reported(result)), &mut st);
        assert_eq!(semaphore.available_permits(), 1);
        if success {
            job.step(Event::Pdf(Some(vec![37])), &mut st);
        }
        assert_eq!(job.stage(), Stage::Finished);
        assert_eq!(st.pending_requests.remove(&id), None);
        assert_eq!(st.pending_requests.drain(), vec![99]);
    }
}

#[test]
fn ids_differ() {
    let semaphore = Semaphore::new(2);
    let mut st = fresh();
    let mut ids: Vec<String> = Vec::new();
    for waiter in 0..2u32 {
        let mut job = job(&semaphore);
        advance(&mut job, &mut st, Stage::WriteHtml);
        if let Action::Encode(request) = job.step(Event::Written(Some(waiter)), &mut st) {
            ids.push(request.id);
        }
    }
    assert_eq!(ids.len(), 2);
    assert_ne!(ids[0], ids[1]);
}

#[test]
fn events_belong_to_stages() {
    let semaphore = Semaphore::new(1);
    let mut st = fresh();
    let mut job = job(&semaphore);
    assert!(job.expects(&Event::<u32>::Worker(false)));
    assert!(!job.expects(&Event::<u32>::File(None)));
    assert!(!job.expects(&Event::<u32>::Pdf(None)));
    advance(&mut job, &mut st, Stage::CreatePdfFile);
    assert!(job.expects(&Event::<u32>::File(None)));
    assert!(!job.expects(&Event::<u32>::Worker(true)));
    advance(&mut job, &mut st, Stage::Finished);
    assert!(!job.expects(&Event::<u32>::Pdf(None)));
}

#[test]
fn refused_without_a_slot() {
    let request = GeneratePdfRequest {
        html: "x".to_string(),
        landscape: false,
        format: "A4".to_string(),
        print_background: true,
        scale: f64::to_bits(1.0),
        omit_background: false,
    };
    match open_job(None, request) {
        Err(r) => assert_text(r, Status::TooManyRequests, "Server is at capacity. Try again later."),
        Ok(_) => panic!("accepted"),
    }
}
