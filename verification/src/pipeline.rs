//! The course of one render, from the accepted request to the answer.
//!
//! A render alternates between decisions, which are made here, and work on
//! files and on the worker, which is done elsewhere: each step takes the
//! outcome of the last piece of work and names the next one.
use crate::clock;
use crate::clock::READING_LIMIT;
use crate::handlers::GeneratePdfRequest;
use crate::rate_limiter;
use crate::response;
use crate::response::{pdf_response, text_response, Response, Status};
use crate::state::AppState;
use crate::worker;
use crate::worker::{frame_message, WorkerRequest};
use tokio::sync::SemaphorePermit;
use vstd::prelude::*;
use vstd::string::*;
use vstd::utf8::*;

verus! {

/// How far a render has come: the piece of work that it waits for.
#[derive(Clone, Copy, Debug, PartialEq, Eq, Structural)]
pub enum Stage {
    /// Making sure that the worker is alive.
    EnsureWorker,
    /// Creating a temporary file for the HTML.
    CreateHtmlFile,
    /// Creating a temporary file for the PDF.
    CreatePdfFile,
    /// Writing the HTML.
    WriteHtml,
    /// Encoding the request to the worker.
    Encode,
    /// Sending the request to the worker.
    Send,
    /// Waiting for the worker.
    AwaitResult,
    /// Reading the PDF.
    ReadPdf,
    /// None: the client has been answered.
    Finished,
}

/// A render in progress.
pub struct RenderJob<'a> {
    stage: Stage,
    permit: Option<SemaphorePermit<'a>>,
    request: GeneratePdfRequest,
    id: String,
    html_path: String,
    pdf_path: String,
}

/// What a render in progress holds.
pub struct JobView {
    pub stage: Stage,
    pub holds_permit: bool,
    pub request: GeneratePdfRequest,
    pub id: Seq<char>,
    pub html_path: Seq<char>,
    pub pdf_path: Seq<char>,
}

impl<'a> View for RenderJob<'a> {
    type V = JobView;

    closed spec fn view(&self) -> JobView {
        JobView {
            stage: self.stage,
            holds_permit: self.permit is Some,
            request: self.request,
            id: self.id@,
            html_path: self.html_path@,
            pdf_path: self.pdf_path@,
        }
    }
}

/// A render that has just been accepted.
pub open spec fn fresh_job(request: GeneratePdfRequest) -> JobView {
    JobView {
        stage: Stage::EnsureWorker,
        holds_permit: true,
        request,
        id: Seq::empty(),
        html_path: Seq::empty(),
        pdf_path: Seq::empty(),
    }
}

/// The answer when no render slot is free.
pub open spec fn capacity_answer() -> response::ResponseView {
    response::text_answer(Status::TooManyRequests, "Server is at capacity. Try again later."@)
}

/// A valid request is accepted, or refused for want of a render slot.
pub open spec fn opened(request: GeneratePdfRequest, r: Result<RenderJob<'_>, Response>) -> bool {
    match r {
        Ok(job) => job@ == fresh_job(request),
        Err(refusal) => refusal@ == capacity_answer(),
    }
}

/// Accepts a valid request where a render slot was free.
pub fn open_job<'a>(permit: Option<SemaphorePermit<'a>>, request: GeneratePdfRequest) -> (r: Result<
    RenderJob<'a>,
    Response,
>)
    ensures
        opened(request, r),
        r is Ok <==> permit is Some,
{
    if permit.is_none() {
        return Err(
            text_response(Status::TooManyRequests, "Server is at capacity. Try again later."),
        );
    }
    Ok(
        RenderJob {
            stage: Stage::EnsureWorker,
            permit,
            request,
            id: String::new(),
            html_path: String::new(),
            pdf_path: String::new(),
        },
    )
}

/// The suffix of the file that the HTML is written to.
pub const HTML_SUFFIX: &'static str = ".html";

/// The suffix of the file that the PDF is read from.
pub const PDF_SUFFIX: &'static str = ".pdf";

/// A lower-case hexadecimal digit.
pub open spec fn is_lower_hex(c: char) -> bool {
    '0' <= c <= '9' || 'a' <= c <= 'f'
}

/// The text of a random UUID: groups of hexadecimal digits with hyphens
/// between them, of the random version and the standard variant.
pub open spec fn is_request_id(id: Seq<char>) -> bool {
    &&& id.len() == 36
    &&& forall|i: int|
        0 <= i < 36 ==> if i == 8 || i == 13 || i == 18 || i == 23 {
            #[trigger] id[i] == '-'
        } else {
            is_lower_hex(id[i])
        }
    &&& id[14] == '4'
    &&& id[19] == '8' || id[19] == '9' || id[19] == 'a' || id[19] == 'b'
}

/// `uuid::Uuid::new_v4` and its text: a random UUID. Which one is left to
/// chance; what is claimed is the form of the text. The call panics when the
/// operating system has no random numbers to give.
#[verifier::external_body]
pub(crate) fn new_request_id() -> (id: String)
    ensures
        is_request_id(id@),
{
    uuid::Uuid::new_v4().to_string()
}

/// `id` is the text that a call of `new_request_id` gave.
pub closed spec fn is_fresh_id(id: Seq<char>) -> bool {
    exists|text: String| #[trigger] call_ensures(new_request_id, (), text) && text@ == id
}

/// Draws a fresh request ID.
fn draw_request_id() -> (id: String)
    ensures
        is_fresh_id(id@),
        is_request_id(id@),
{
    let draw = new_request_id;
    draw()
}

/// What became of sending a request to the worker.
#[derive(Clone, Copy, Debug, PartialEq, Eq, Structural)]
pub enum SendOutcome {
    /// It was sent.
    Sent,
    /// The pipe broke while it was written or flushed.
    Broken,
    /// There is no pipe to the worker.
    NoWorker,
}

/// What became of waiting for the worker.
pub enum RenderOutcome {
    /// The worker reported this result.
    Reported(Result<(), String>),
    /// The waiter was dropped without a result.
    Dropped,
    /// No result came in time.
    TimedOut,
}

/// The outcome of the last piece of work of a render.
pub enum Event<T> {
    /// Whether the worker is alive.
    Worker(bool),
    /// The path of a new temporary file, where it could be created.
    File(Option<String>),
    /// The waiter for the result, where the HTML could be written.
    Written(Option<T>),
    /// The request to the worker as JSON, where it could be encoded.
    Encoded(Option<String>),
    /// What became of sending the request.
    Sent(SendOutcome),
    /// What became of waiting for the worker.
    Answer(RenderOutcome),
    /// The PDF, where it could be read.
    Pdf(Option<Vec<u8>>),
}

/// The next piece of work of a render.
pub enum Action {
    /// Create a temporary file for the HTML.
    CreateHtmlFile,
    /// Create a temporary file for the PDF.
    CreatePdfFile,
    /// Write the HTML to this file, and make a waiter for the result.
    WriteHtml { path: String },
    /// Encode this request as JSON.
    Encode(WorkerRequest),
    /// Send this line to the worker.
    Send(String),
    /// Wait for the result, for at most this many seconds.
    AwaitResult { timeout_secs: u64 },
    /// Read the PDF from this file.
    ReadPdf { path: String },
    /// Answer the client: the render is over.
    Respond(Response),
}

/// What an action holds.
pub enum ActionView {
    CreateHtmlFile,
    CreatePdfFile,
    WriteHtml { path: Seq<char> },
    Encode(worker::WorkerRequestView),
    Send(Seq<char>),
    AwaitResult { timeout_secs: u64 },
    ReadPdf { path: Seq<char> },
    Respond(response::ResponseView),
}

impl View for Action {
    type V = ActionView;

    open spec fn view(&self) -> ActionView {
        match *self {
            Action::CreateHtmlFile => ActionView::CreateHtmlFile,
            Action::CreatePdfFile => ActionView::CreatePdfFile,
            Action::WriteHtml { path } => ActionView::WriteHtml { path: path@ },
            Action::Encode(request) => ActionView::Encode(request@),
            Action::Send(line) => ActionView::Send(line@),
            Action::AwaitResult { timeout_secs } => ActionView::AwaitResult { timeout_secs },
            Action::ReadPdf { path } => ActionView::ReadPdf { path: path@ },
            Action::Respond(r) => ActionView::Respond(r@),
        }
    }
}

/// The outcome belongs to the piece of work that the stage waits for.
pub open spec fn expected<T>(stage: Stage, event: Event<T>) -> bool {
    match event {
        Event::Worker(_) => stage == Stage::EnsureWorker,
        Event::File(_) => stage == Stage::CreateHtmlFile || stage == Stage::CreatePdfFile,
        Event::Written(_) => stage == Stage::WriteHtml,
        Event::Encoded(_) => stage == Stage::Encode,
        Event::Sent(_) => stage == Stage::Send,
        Event::Answer(_) => stage == Stage::AwaitResult,
        Event::Pdf(_) => stage == Stage::ReadPdf,
    }
}

/// A render, the pending requests and the worker flag after a step, and the
/// next piece of work.
pub struct StepView<T> {
    pub job: JobView,
    pub pending: Map<Seq<char>, T>,
    pub worker_alive: bool,
    pub action: ActionView,
}

/// The render is over, with this answer; its slot is free again.
pub open spec fn over<T>(
    job: JobView,
    pending: Map<Seq<char>, T>,
    worker_alive: bool,
    answer: response::ResponseView,
) -> StepView<T> {
    StepView {
        job: JobView { stage: Stage::Finished, holds_permit: false, ..job },
        pending,
        worker_alive,
        action: ActionView::Respond(answer),
    }
}

/// The render goes on to `stage`.
pub open spec fn onward<T>(
    job: JobView,
    pending: Map<Seq<char>, T>,
    worker_alive: bool,
    stage: Stage,
    action: ActionView,
) -> StepView<T> {
    StepView { job: JobView { stage, ..job }, pending, worker_alive, action }
}

/// A plain-text answer for a failure of the service.
pub open spec fn failure(message: Seq<char>) -> response::ResponseView {
    response::text_answer(Status::InternalServerError, message)
}

/// The request that a render sends to the worker.
pub open spec fn worker_request(job: JobView) -> worker::WorkerRequestView {
    worker::WorkerRequestView {
        id: job.id,
        html_path: job.html_path,
        pdf_path: job.pdf_path,
        landscape: job.request.landscape,
        format: job.request.format@,
        print_background: job.request.print_background,
        scale: job.request.scale,
        omit_background: job.request.omit_background,
    }
}

/// One step of a render. `id` is a fresh request ID, which the step takes that
/// enters the request among the pending ones; `cooldown` is what is left of
/// the cooldown, which the answer with the PDF reports.
pub open spec fn job_step<T>(
    job: JobView,
    event: Event<T>,
    pending: Map<Seq<char>, T>,
    worker_alive: bool,
    timeout_secs: u64,
    id: Seq<char>,
    cooldown: nat,
) -> StepView<T> {
    match event {
        Event::Worker(true) => onward(
            job,
            pending,
            worker_alive,
            Stage::CreateHtmlFile,
            ActionView::CreateHtmlFile,
        ),
        Event::Worker(false) => over(
            job,
            pending,
            worker_alive,
            failure("PDF service is temporarily unavailable. Please try again later."@),
        ),
        Event::File(Some(path)) => if job.stage == Stage::CreateHtmlFile {
            onward(
                JobView { html_path: path@, ..job },
                pending,
                worker_alive,
                Stage::CreatePdfFile,
                ActionView::CreatePdfFile,
            )
        } else {
            onward(
                JobView { pdf_path: path@, ..job },
                pending,
                worker_alive,
                Stage::WriteHtml,
                ActionView::WriteHtml { path: job.html_path },
            )
        },
        Event::File(None) => over(job, pending, worker_alive, failure("Internal server error"@)),
        Event::Written(Some(waiter)) => {
            let entered = JobView { id, ..job };
            onward(
                entered,
                pending.insert(id, waiter),
                worker_alive,
                Stage::Encode,
                ActionView::Encode(worker_request(entered)),
            )
        },
        Event::Written(None) => over(job, pending, worker_alive, failure("Internal server error"@)),
        Event::Encoded(Some(json)) => onward(
            job,
            pending,
            worker_alive,
            Stage::Send,
            ActionView::Send(worker::framed(json@)),
        ),
        Event::Encoded(None) => over(
            job,
            pending.remove(job.id),
            worker_alive,
            failure("Internal server error"@),
        ),
        Event::Sent(SendOutcome::Sent) => onward(
            job,
            pending,
            worker_alive,
            Stage::AwaitResult,
            ActionView::AwaitResult { timeout_secs },
        ),
        Event::Sent(SendOutcome::Broken) => over(
            job,
            pending.remove(job.id),
            false,
            failure("Failed to communicate with PDF worker"@),
        ),
        Event::Sent(SendOutcome::NoWorker) => over(
            job,
            pending.remove(job.id),
            worker_alive,
            failure("PDF worker is not available"@),
        ),
        Event::Answer(RenderOutcome::Reported(Ok(_))) => onward(
            JobView { holds_permit: false, ..job },
            pending,
            worker_alive,
            Stage::ReadPdf,
            ActionView::ReadPdf { path: job.pdf_path },
        ),
        Event::Answer(RenderOutcome::Reported(Err(_))) => over(
            job,
            pending,
            worker_alive,
            failure("PDF rendering failed. Please check your HTML and try again."@),
        ),
        Event::Answer(RenderOutcome::Dropped) => over(
            job,
            pending,
            worker_alive,
            failure("PDF rendering failed. Please check your HTML and try again."@),
        ),
        Event::Answer(RenderOutcome::TimedOut) => over(
            job,
            pending.remove(job.id),
            worker_alive,
            response::text_answer(Status::GatewayTimeout, "PDF rendering timed out"@),
        ),
        Event::Pdf(Some(bytes)) => over(
            job,
            pending,
            worker_alive,
            response::pdf_answer(bytes@, cooldown),
        ),
        Event::Pdf(None) => over(
            job,
            pending,
            worker_alive,
            failure("Failed to read generated PDF"@),
        ),
    }
}

/// `job_step`, as a relation between the state before and after.
pub open spec fn stepped<T>(
    job: JobView,
    event: Event<T>,
    before: AppState<T>,
    id: Seq<char>,
    cooldown: nat,
    after_job: JobView,
    after: AppState<T>,
    action: ActionView,
) -> bool {
    let step = job_step(
        job,
        event,
        before.pending_requests@,
        before.worker_alive,
        before.render_timeout_secs,
        id,
        cooldown,
    );
    &&& after_job == step.job
    &&& after.pending_requests@ == step.pending
    &&& after.worker_alive == step.worker_alive
    &&& action == step.action
}

impl<'a> RenderJob<'a> {
    /// How far the render has come.
    pub fn stage(&self) -> (stage: Stage)
        ensures
            stage == self@.stage,
    {
        self.stage
    }

    /// The HTML to render.
    pub fn html(&self) -> (html: &str)
        ensures
            html@ == self@.request.html@,
    {
        self.request.html.as_str()
    }

    /// Whether the outcome belongs to the piece of work that the render waits
    /// for.
    pub fn expects<T>(&self, event: &Event<T>) -> (r: bool)
        ensures
            r == expected(self@.stage, *event),
    {
        match event {
            Event::Worker(_) => self.stage == Stage::EnsureWorker,
            Event::File(_) => self.stage == Stage::CreateHtmlFile || self.stage
                == Stage::CreatePdfFile,
            Event::Written(_) => self.stage == Stage::WriteHtml,
            Event::Encoded(_) => self.stage == Stage::Encode,
            Event::Sent(_) => self.stage == Stage::Send,
            Event::Answer(_) => self.stage == Stage::AwaitResult,
            Event::Pdf(_) => self.stage == Stage::ReadPdf,
        }
    }

    /// Ends the render with this answer.
    fn finish(&mut self, answer: Response) -> (action: Action)
        ensures
            final(self)@ == (JobView {
                stage: Stage::Finished,
                holds_permit: false,
                ..old(self)@
            }),
            action@ == ActionView::Respond(answer@),
    {
        self.stage = Stage::Finished;
        self.permit = None;
        Action::Respond(answer)
    }

    /// Ends the render with a failure of the service.
    fn fail(&mut self, message: &str) -> (action: Action)
        ensures
            final(self)@ == (JobView {
                stage: Stage::Finished,
                holds_permit: false,
                ..old(self)@
            }),
            action@ == ActionView::Respond(failure(message@)),
    {
        self.finish(text_response(Status::InternalServerError, message))
    }

    /// One step of the render, with the request ID and the cooldown that the
    /// step may need.
    pub fn step_with<T>(
        &mut self,
        event: Event<T>,
        state: &mut AppState<T>,
        id: String,
        cooldown: u64,
    ) -> (action: Action)
        requires
            expected(old(self)@.stage, event),
            old(state).wf(),
        ensures
            stepped(
                old(self)@,
                event,
                *old(state),
                id@,
                cooldown as nat,
                final(self)@,
                *final(state),
                action@,
            ),
            final(state).wf(),
            final(state).same_but_worker(old(state)),
    {
        match event {
            Event::Worker(ready) => {
                if !ready {
                    return self.fail(
                        "PDF service is temporarily unavailable. Please try again later.",
                    );
                }
                self.stage = Stage::CreateHtmlFile;
                Action::CreateHtmlFile
            },
            Event::File(Some(path)) => {
                if self.stage == Stage::CreateHtmlFile {
                    self.html_path = path;
                    self.stage = Stage::CreatePdfFile;
                    Action::CreatePdfFile
                } else {
                    self.pdf_path = path;
                    self.stage = Stage::WriteHtml;
                    Action::WriteHtml { path: self.html_path.clone() }
                }
            },
            Event::File(None) => self.fail("Internal server error"),
            Event::Written(Some(waiter)) => {
                self.id = id.clone();
                let _ = state.pending_requests.insert(id, waiter);
                self.stage = Stage::Encode;
                Action::Encode(
                    WorkerRequest {
                        id: self.id.clone(),
                        html_path: self.html_path.clone(),
                        pdf_path: self.pdf_path.clone(),
                        landscape: self.request.landscape,
                        format: self.request.format.clone(),
                        print_background: self.request.print_background,
                        scale: self.request.scale,
                        omit_background: self.request.omit_background,
                    },
                )
            },
            Event::Written(None) => self.fail("Internal server error"),
            Event::Encoded(Some(json)) => {
                self.stage = Stage::Send;
                Action::Send(frame_message(json))
            },
            Event::Encoded(None) => {
                let _ = state.pending_requests.remove(&self.id);
                self.fail("Internal server error")
            },
            Event::Sent(outcome) => match outcome {
                SendOutcome::Sent => {
                    self.stage = Stage::AwaitResult;
                    Action::AwaitResult { timeout_secs: state.render_timeout_secs }
                },
                SendOutcome::Broken => {
                    let _ = state.pending_requests.remove(&self.id);
                    state.worker_alive = false;
                    self.fail("Failed to communicate with PDF worker")
                },
                SendOutcome::NoWorker => {
                    let _ = state.pending_requests.remove(&self.id);
                    self.fail("PDF worker is not available")
                },
            },
            Event::Answer(outcome) => match outcome {
                RenderOutcome::Reported(Ok(_)) => {
                    self.permit = None;
                    self.stage = Stage::ReadPdf;
                    Action::ReadPdf { path: self.pdf_path.clone() }
                },
                RenderOutcome::Reported(Err(_)) => self.fail(
                    "PDF rendering failed. Please check your HTML and try again.",
                ),
                RenderOutcome::Dropped => self.fail(
                    "PDF rendering failed. Please check your HTML and try again.",
                ),
                RenderOutcome::TimedOut => {
                    let _ = state.pending_requests.remove(&self.id);
                    self.finish(text_response(Status::GatewayTimeout, "PDF rendering timed out"))
                },
            },
            Event::Pdf(Some(bytes)) => self.finish(pdf_response(bytes, cooldown)),
            Event::Pdf(None) => self.fail("Failed to read generated PDF"),
        }
    }

    /// One step of the render: takes the outcome of the last piece of work,
    /// and names the next one.
    pub fn step<T>(&mut self, event: Event<T>, state: &mut AppState<T>) -> (action: Action)
        requires
            expected(old(self)@.stage, event),
            old(state).wf(),
        ensures
            exists|id: Seq<char>, cooldown: nat|
                {
                    &&& #[trigger] stepped(
                        old(self)@,
                        event,
                        *old(state),
                        id,
                        cooldown,
                        final(self)@,
                        *final(state),
                        action@,
                    )
                    &&& event is Written ==> is_request_id(id) && is_fresh_id(id)
                    &&& event is Pdf ==> exists|now: nat|
                        now < READING_LIMIT && clock::is_reading(
                            old(state).rate_limiter.started(),
                            now,
                        ) && cooldown == #[trigger] rate_limiter::seconds_left(
                            old(state).rate_limiter@,
                            now,
                        )
                },
            final(state).wf(),
            final(state).same_but_worker(old(state)),
    {
        let fresh = match &event {
            Event::Written(_) => draw_request_id(),
            _ => String::new(),
        };
        let cooldown: u64 = match &event {
            Event::Pdf(_) => state.rate_limiter.status(),
            _ => 0,
        };
        let ghost id = fresh@;
        let action = self.step_with(event, state, fresh, cooldown);
        assert(stepped(
            old(self)@,
            event,
            *old(state),
            id,
            cooldown as nat,
            self@,
            *state,
            action@,
        ));
        action
    }
}

/// Where a stage stands in the course of a render.
pub open spec fn rank(stage: Stage) -> nat {
    match stage {
        Stage::EnsureWorker => 0,
        Stage::CreateHtmlFile => 1,
        Stage::CreatePdfFile => 2,
        Stage::WriteHtml => 3,
        Stage::Encode => 4,
        Stage::Send => 5,
        Stage::AwaitResult => 6,
        Stage::ReadPdf => 7,
        Stage::Finished => 8,
    }
}

/// A render goes through its stages in order: each step leads to the next
/// stage or ends the render, and a step ends the render exactly when it
/// answers the client. So a render is over after at most eight steps.
pub proof fn lemma_stages_in_order<T>(
    job: JobView,
    event: Event<T>,
    pending: Map<Seq<char>, T>,
    worker_alive: bool,
    timeout_secs: u64,
    id: Seq<char>,
    cooldown: nat,
)
    requires
        expected(job.stage, event),
    ensures
        ({
            let step = job_step(job, event, pending, worker_alive, timeout_secs, id, cooldown);
            &&& step.job.stage == Stage::Finished || rank(step.job.stage) == rank(job.stage) + 1
            &&& step.action is Respond <==> step.job.stage == Stage::Finished
            &&& rank(step.job.stage) > rank(job.stage)
        }),
{
}

/// A render holds its slot from the start until the worker has reported, and
/// neither while the PDF is read nor once it is over.
pub open spec fn slot_held_while_rendering(job: JobView) -> bool {
    job.holds_permit <==> rank(job.stage) < rank(Stage::ReadPdf)
}

/// Every render keeps its slot exactly as long as it needs the worker: the
/// slot is given back before the PDF is read, and on every way out.
pub proof fn lemma_slot_held_while_rendering<T>(
    job: JobView,
    event: Event<T>,
    pending: Map<Seq<char>, T>,
    worker_alive: bool,
    timeout_secs: u64,
    id: Seq<char>,
    cooldown: nat,
)
    requires
        expected(job.stage, event),
        slot_held_while_rendering(job),
    ensures
        slot_held_while_rendering(
            job_step(job, event, pending, worker_alive, timeout_secs, id, cooldown).job,
        ),
        slot_held_while_rendering(fresh_job(job.request)),
{
}

/// The request of a render can be pending only between its entry and the
/// report of the worker.
pub open spec fn pending_only_while_needed<T>(job: JobView, pending: Map<Seq<char>, T>) -> bool {
    pending.contains_key(job.id) ==> rank(Stage::Encode) <= rank(job.stage) <= rank(
        Stage::AwaitResult,
    )
}

/// No render leaves a request behind: whichever way it ends, its request is
/// no longer pending, provided that a request whose result was reported, or
/// whose waiter was dropped, had been taken out by then. Steps of one render
/// leave the requests of all others alone.
pub proof fn lemma_no_request_left_behind<T>(
    job: JobView,
    event: Event<T>,
    pending: Map<Seq<char>, T>,
    worker_alive: bool,
    timeout_secs: u64,
    id: Seq<char>,
    cooldown: nat,
    other: Seq<char>,
)
    requires
        expected(job.stage, event),
        pending_only_while_needed(job, pending),
        event matches Event::Answer(outcome) && !(outcome is TimedOut) ==> !pending.contains_key(
            job.id,
        ),
    ensures
        ({
            let step = job_step(job, event, pending, worker_alive, timeout_secs, id, cooldown);
            &&& pending_only_while_needed(step.job, step.pending)
            &&& step.job.stage == Stage::Finished ==> !step.pending.contains_key(step.job.id)
            &&& other != step.job.id ==> {
                &&& step.pending.contains_key(other) <==> pending.contains_key(other)
                &&& pending.contains_key(other) ==> step.pending[other] == pending[other]
            }
        }),
{
}

/// A request that the worker has answered is no longer pending when its render
/// learns of the result, and the render does not bring it back.
pub proof fn lemma_answered_request_is_out<T>(
    job: JobView,
    pending: Map<Seq<char>, T>,
    output: worker::OutputEvent,
    result: Result<(), String>,
    worker_alive: bool,
    timeout_secs: u64,
    id: Seq<char>,
    cooldown: nat,
)
    requires
        worker::answers(pending, output).contains_key(job.id),
    ensures
        !job_step(
            job,
            Event::Answer(RenderOutcome::Reported(result)),
            worker::still_waiting(pending, output),
            worker_alive,
            timeout_secs,
            id,
            cooldown,
        ).pending.contains_key(job.id),
{
}

/// What can happen while a render is in progress.
pub enum RunEvent<T> {
    /// A step of the render; the cooldown that its answer may report.
    Own(Event<T>, nat),
    /// A step of another render, with the request ID and the cooldown that the
    /// step may need.
    Other(JobView, Event<T>, Seq<char>, nat),
    /// Something came out of the worker, and was passed on.
    Output(worker::OutputEvent),
    /// Something happened while the worker was being started.
    Start(worker::StartEvent),
}

/// A render in progress among others: the render, the pending requests, the
/// worker flag, and the result that was passed on to the render, if any.
pub struct RunView<T> {
    pub job: JobView,
    pub pending: Map<Seq<char>, T>,
    pub worker_alive: bool,
    pub told: Option<Result<(), Seq<char>>>,
}

/// What an event makes of a render whose request ID is `id`.
pub open spec fn run_step<T>(
    run: RunView<T>,
    event: RunEvent<T>,
    timeout_secs: u64,
    id: Seq<char>,
) -> RunView<T> {
    match event {
        RunEvent::Own(own, cooldown) => {
            let step = job_step(
                run.job,
                own,
                run.pending,
                run.worker_alive,
                timeout_secs,
                id,
                cooldown,
            );
            RunView {
                job: step.job,
                pending: step.pending,
                worker_alive: step.worker_alive,
                told: run.told,
            }
        },
        RunEvent::Other(other, step_event, other_id, cooldown) => {
            let step = job_step(
                other,
                step_event,
                run.pending,
                run.worker_alive,
                timeout_secs,
                other_id,
                cooldown,
            );
            RunView { pending: step.pending, worker_alive: step.worker_alive, ..run }
        },
        RunEvent::Output(output) => {
            let answered = worker::answers(run.pending, output);
            RunView {
                pending: worker::still_waiting(run.pending, output),
                worker_alive: run.worker_alive && output is Line,
                told: if answered.contains_key(id) {
                    Some(answered[id])
                } else {
                    run.told
                },
                ..run
            }
        },
        RunEvent::Start(start) => RunView {
            worker_alive: worker::alive_after_start(start, run.worker_alive),
            ..run
        },
    }
}

/// The event can happen to a render whose request ID is `id`: steps are taken
/// in their stages, a result is reported only once it was passed on, a waiter
/// is dropped only once its request is no longer pending, and no other render
/// has the same request ID.
pub open spec fn can_happen<T>(run: RunView<T>, event: RunEvent<T>, id: Seq<char>) -> bool {
    match event {
        RunEvent::Own(own, _) => {
            &&& expected(run.job.stage, own)
            &&& own matches Event::Answer(RenderOutcome::Reported(result)) ==> run.told == Some(
                worker::result_text(result),
            )
            &&& own matches Event::Answer(RenderOutcome::Dropped) ==> !run.pending.contains_key(id)
        },
        RunEvent::Other(other, step_event, other_id, _) => {
            &&& expected(other.stage, step_event)
            &&& other.id != id
            &&& other_id != id
        },
        RunEvent::Output(_) => true,
        RunEvent::Start(_) => true,
    }
}

/// A render that has just been accepted, among the pending requests of others.
pub open spec fn fresh_run<T>(
    request: GeneratePdfRequest,
    pending: Map<Seq<char>, T>,
    worker_alive: bool,
) -> RunView<T> {
    RunView { job: fresh_job(request), pending, worker_alive, told: None }
}

/// A render after some events, one after another.
pub open spec fn run_after<T>(
    first: RunView<T>,
    events: Seq<RunEvent<T>>,
    timeout_secs: u64,
    id: Seq<char>,
) -> RunView<T>
    decreases events.len(),
{
    if events.len() == 0 {
        first
    } else {
        run_step(
            run_after(first, events.drop_last(), timeout_secs, id),
            events.last(),
            timeout_secs,
            id,
        )
    }
}

/// Each of the events can happen after the ones before it.
pub open spec fn is_run<T>(
    first: RunView<T>,
    events: Seq<RunEvent<T>>,
    timeout_secs: u64,
    id: Seq<char>,
) -> bool
    decreases events.len(),
{
    events.len() > 0 ==> {
        &&& is_run(first, events.drop_last(), timeout_secs, id)
        &&& can_happen(
            run_after(first, events.drop_last(), timeout_secs, id),
            events.last(),
            id,
        )
    }
}

/// A render whose request ID is `id` keeps what it has taken in order: it holds
/// its slot exactly until the worker has reported; its request is pending only
/// between its entry and its answer; and once it is over it holds no slot, and
/// nothing is pending under its ID.
pub open spec fn keeps_order<T>(run: RunView<T>, id: Seq<char>) -> bool {
    &&& slot_held_while_rendering(run.job)
    &&& run.pending.contains_key(id) ==> run.told is None && rank(Stage::Encode) <= rank(
        run.job.stage,
    ) <= rank(Stage::AwaitResult)
    &&& rank(Stage::Encode) <= rank(run.job.stage) <= rank(Stage::ReadPdf) ==> run.job.id == id
    &&& run.told is Some ==> rank(Stage::Encode) <= rank(run.job.stage)
    &&& run.job.stage == Stage::Finished ==> !run.job.holds_permit && !run.pending.contains_key(id)
}

/// A step of a render leaves the requests of all others alone, and takes the
/// worker for dead when the pipe to it breaks.
pub open spec fn leaves_others_alone<T>(
    before: RunView<T>,
    event: RunEvent<T>,
    after: RunView<T>,
    id: Seq<char>,
) -> bool {
    event matches RunEvent::Own(own, _) ==> {
        &&& after.pending.remove(id) == before.pending.remove(id)
        &&& own matches Event::Sent(SendOutcome::Broken) ==> !after.worker_alive
    }
}

proof fn lemma_run_step_keeps_order<T>(
    run: RunView<T>,
    event: RunEvent<T>,
    timeout_secs: u64,
    id: Seq<char>,
)
    requires
        keeps_order(run, id),
        can_happen(run, event, id),
    ensures
        keeps_order(run_step(run, event, timeout_secs, id), id),
        leaves_others_alone(run, event, run_step(run, event, timeout_secs, id), id),
{
    let after = run_step(run, event, timeout_secs, id);
    match event {
        RunEvent::Own(own, cooldown) => {
            assert(after.pending.remove(id) =~= run.pending.remove(id));
        },
        RunEvent::Other(other, step_event, other_id, cooldown) => {
            assert(after.pending.contains_key(id) <==> run.pending.contains_key(id));
        },
        RunEvent::Output(output) => {
            worker::lemma_answered_or_waiting(run.pending, output, id);
        },
        RunEvent::Start(start) => {},
    }
}

/// Over the whole course of a render, whatever the worker and the other renders
/// do meanwhile, and whichever way it ends, the render keeps what it has taken
/// in order: once it is over it holds no slot, and nothing is pending under its
/// ID. Its own steps leave the requests of all others alone, and the worker is
/// taken for dead as soon as the pipe to it breaks.
pub proof fn lemma_run_leaves_nothing_behind<T>(
    request: GeneratePdfRequest,
    pending: Map<Seq<char>, T>,
    worker_alive: bool,
    events: Seq<RunEvent<T>>,
    timeout_secs: u64,
    id: Seq<char>,
)
    requires
        !pending.contains_key(id),
        is_run(fresh_run(request, pending, worker_alive), events, timeout_secs, id),
    ensures
        keeps_order(
            run_after(fresh_run(request, pending, worker_alive), events, timeout_secs, id),
            id,
        ),
        events.len() > 0 ==> leaves_others_alone(
            run_after(
                fresh_run(request, pending, worker_alive),
                events.drop_last(),
                timeout_secs,
                id,
            ),
            events.last(),
            run_after(fresh_run(request, pending, worker_alive), events, timeout_secs, id),
            id,
        ),
    decreases events.len(),
{
    if events.len() > 0 {
        let before = events.drop_last();
        lemma_run_leaves_nothing_behind(
            request,
            pending,
            worker_alive,
            before,
            timeout_secs,
            id,
        );
        lemma_run_step_keeps_order(
            run_after(fresh_run(request, pending, worker_alive), before, timeout_secs, id),
            events.last(),
            timeout_secs,
            id,
        );
    }
}

/// The statuses that a render ends with: 200 exactly when the PDF was read,
/// 504 exactly when the worker did not report in time, and 500 otherwise.
pub proof fn lemma_status_of_answer<T>(
    job: JobView,
    event: Event<T>,
    pending: Map<Seq<char>, T>,
    worker_alive: bool,
    timeout_secs: u64,
    id: Seq<char>,
    cooldown: nat,
)
    requires
        expected(job.stage, event),
    ensures
        job_step(job, event, pending, worker_alive, timeout_secs, id, cooldown).action matches
            ActionView::Respond(answer) ==> {
            &&& answer.status.number() == 200 <==> (event matches Event::Pdf(pdf) && pdf is Some)
            &&& answer.status.number() == 504 <==> (event matches Event::Answer(outcome)
                && outcome is TimedOut)
            &&& answer.status.number() == 200 || answer.status.number() == 504
                || answer.status.number() == 500
        },
{
}

/// The worker is taken for dead by a render exactly when the pipe to it
/// breaks; no render takes it for alive.
pub proof fn lemma_only_broken_pipe_kills<T>(
    job: JobView,
    event: Event<T>,
    pending: Map<Seq<char>, T>,
    worker_alive: bool,
    timeout_secs: u64,
    id: Seq<char>,
    cooldown: nat,
)
    ensures
        job_step(job, event, pending, worker_alive, timeout_secs, id, cooldown).worker_alive == (
        worker_alive && !(event matches Event::Sent(SendOutcome::Broken))),
{
}

/// A response of the worker reaches the render that it is for: once a render
/// has entered its request under `id`, a response that names `id` answers it,
/// with the waiter that the render left and the result that the response
/// reports.
pub proof fn lemma_response_reaches_render<T>(
    job: JobView,
    waiter: T,
    pending: Map<Seq<char>, T>,
    worker_alive: bool,
    timeout_secs: u64,
    id: String,
    cooldown: nat,
    success: bool,
    error: Option<String>,
)
    ensures
        ({
            let step = job_step(
                job,
                Event::Written(Some(waiter)),
                pending,
                worker_alive,
                timeout_secs,
                id@,
                cooldown,
            );
            let event = worker::OutputEvent::Line(
                Some(worker::WorkerMessage::Response { id, success, error }),
            );
            let answered = worker::answers(step.pending, event);
            &&& answered.contains_key(id@)
            &&& answered[id@] == worker::reported_result(success, error)
            &&& step.pending[id@] == waiter
            &&& step.action matches ActionView::Encode(request) && request.id == id@
            &&& forall|other: Seq<char>| #[trigger]
                answered.contains_key(other) ==> other == id@
        }),
{
}

/// A response that comes after its render has timed out, or could not be
/// sent, answers nobody.
pub proof fn lemma_late_response_ignored<T>(
    job: JobView,
    event: Event<T>,
    pending: Map<Seq<char>, T>,
    worker_alive: bool,
    timeout_secs: u64,
    id: Seq<char>,
    cooldown: nat,
    named: String,
    success: bool,
    error: Option<String>,
)
    requires
        (event matches Event::Answer(outcome) && outcome is TimedOut) || (event matches Event::Sent(
            outcome,
        ) && !(outcome is Sent)),
        named@ == job.id,
    ensures
        worker::answers(
            job_step(job, event, pending, worker_alive, timeout_secs, id, cooldown).pending,
            worker::OutputEvent::Line(
                Some(worker::WorkerMessage::Response { id: named, success, error }),
            ),
        ) == Map::<Seq<char>, Result<(), Seq<char>>>::empty(),
{
    assert(worker::answers(
        job_step(job, event, pending, worker_alive, timeout_secs, id, cooldown).pending,
        worker::OutputEvent::Line(
            Some(worker::WorkerMessage::Response { id: named, success, error }),
        ),
    ) =~= Map::<Seq<char>, Result<(), Seq<char>>>::empty());
}

/// One step after another, with the same state around them but for the
/// pending requests and the worker flag.
pub open spec fn next_step<T>(
    last: StepView<T>,
    event: Event<T>,
    timeout_secs: u64,
    id: Seq<char>,
    cooldown: nat,
) -> StepView<T> {
    job_step(last.job, event, last.pending, last.worker_alive, timeout_secs, id, cooldown)
}

/// A render in which every piece of work succeeds: the step that enters the
/// request, the step that sends it and the last step.
pub open spec fn successful_run<T>(
    request: GeneratePdfRequest,
    pending: Map<Seq<char>, T>,
    timeout_secs: u64,
    id: Seq<char>,
    cooldown: nat,
    html_path: String,
    pdf_path: String,
    waiter: T,
    json: String,
    bytes: Vec<u8>,
) -> (StepView<T>, StepView<T>, StepView<T>) {
    let s1 = job_step(
        fresh_job(request),
        Event::<T>::Worker(true),
        pending,
        true,
        timeout_secs,
        id,
        cooldown,
    );
    let s2 = next_step(s1, Event::File(Some(html_path)), timeout_secs, id, cooldown);
    let s3 = next_step(s2, Event::File(Some(pdf_path)), timeout_secs, id, cooldown);
    let s4 = next_step(s3, Event::Written(Some(waiter)), timeout_secs, id, cooldown);
    let s5 = next_step(s4, Event::Encoded(Some(json)), timeout_secs, id, cooldown);
    let s6 = next_step(s5, Event::Sent(SendOutcome::Sent), timeout_secs, id, cooldown);
    let s7 = next_step(
        s6,
        Event::Answer(RenderOutcome::Reported(Ok(()))),
        timeout_secs,
        id,
        cooldown,
    );
    let s8 = next_step(s7, Event::Pdf(Some(bytes)), timeout_secs, id, cooldown);
    (s4, s5, s8)
}

/// A render in which every piece of work succeeds sends the worker the options
/// of the request, with the two files and the request ID, as one line, and
/// answers the client with exactly the bytes that were read.
pub proof fn lemma_successful_run<T>(
    request: GeneratePdfRequest,
    pending: Map<Seq<char>, T>,
    timeout_secs: u64,
    id: Seq<char>,
    cooldown: nat,
    html_path: String,
    pdf_path: String,
    waiter: T,
    json: String,
    bytes: Vec<u8>,
)
    ensures
        ({
            let (entered, sent, last) = successful_run(
                request,
                pending,
                timeout_secs,
                id,
                cooldown,
                html_path,
                pdf_path,
                waiter,
                json,
                bytes,
            );
            &&& entered.action == ActionView::Encode(
                worker::WorkerRequestView {
                    id,
                    html_path: html_path@,
                    pdf_path: pdf_path@,
                    landscape: request.landscape,
                    format: request.format@,
                    print_background: request.print_background,
                    scale: request.scale,
                    omit_background: request.omit_background,
                },
            )
            &&& sent.action == ActionView::Send(worker::framed(json@))
            &&& last.action == ActionView::Respond(response::pdf_answer(bytes@, cooldown))
            &&& last.action->Respond_0.body == response::BodyView::Pdf(bytes@)
            &&& last.action->Respond_0.status.number() == 200
            &&& last.job.stage == Stage::Finished
            &&& !last.job.holds_permit
        }),
{
}

/// What is seen of a render is what it holds, and its slot is a permit of the
/// semaphore.
proof fn lemma_render_holds_what_is_seen(job: RenderJob<'_>)
    ensures
        job@.holds_permit <==> job.permit is Some,
        job@.stage == job.stage,
        job@.request == job.request,
        job@.id == job.id@,
        job@.html_path == job.html_path@,
        job@.pdf_path == job.pdf_path@,
{
}

/// A fresh ID is exactly a text that was drawn, of the length of a UUID.
proof fn lemma_fresh_id_is_unaltered(id: Seq<char>)
    ensures
        is_fresh_id(id) <==> (exists|text: String| #[trigger]
            call_ensures(new_request_id, (), text) && text@ == id),
        is_fresh_id(id) ==> id.len() == 36,
{
}

/// The suffixes of the two files.
pub proof fn lemma_file_suffixes()
    ensures
        HTML_SUFFIX@ == seq!['.', 'h', 't', 'm', 'l'],
        PDF_SUFFIX@ == seq!['.', 'p', 'd', 'f'],
{
    reveal_strlit(".html");
    reveal_strlit(".pdf");
    assert(HTML_SUFFIX@ =~= seq!['.', 'h', 't', 'm', 'l']);
    assert(PDF_SUFFIX@ =~= seq!['.', 'p', 'd', 'f']);
}

/// A request is accepted exactly when a slot was had; the render then has the
/// request as it came, and the slot, and waits for the worker. Otherwise the
/// client is answered with 429.
pub proof fn lemma_open_job_result<'a>(
    permit: Option<SemaphorePermit<'a>>,
    request: GeneratePdfRequest,
    r: Result<RenderJob<'a>, Response>,
)
    requires
        call_ensures(open_job, (permit, request), r),
    ensures
        r is Ok <==> permit is Some,
        r matches Ok(job) ==> job@.request == request && job@.holds_permit && job@.stage
            == Stage::EnsureWorker,
        r matches Err(refusal) ==> refusal.status.number() == 429 && refusal.body is Text
            && refusal.body->Text_0@ == "Server is at capacity. Try again later."@,
{
}

/// The steps on which a render goes on: after each piece of work that
/// succeeded, the next one, on the right file, with the request as it came.
pub proof fn lemma_step_goes_on<T>(
    job: JobView,
    event: Event<T>,
    before: AppState<T>,
    id: Seq<char>,
    cooldown: nat,
    after_job: JobView,
    after: AppState<T>,
    action: Action,
)
    requires
        expected(job.stage, event),
        stepped(job, event, before, id, cooldown, after_job, after, action@),
    ensures
        event matches Event::Worker(alive) ==> (alive ==> action is CreateHtmlFile),
        event matches Event::File(path) ==> (path is Some && job.stage is CreateHtmlFile ==> {
            &&& action is CreatePdfFile
            &&& after_job.html_path == path->0@
        }),
        event matches Event::File(path) ==> (path is Some && job.stage is CreatePdfFile ==> {
            &&& action is WriteHtml
            &&& action->WriteHtml_path@ == job.html_path
            &&& after_job.html_path == job.html_path
            &&& after_job.pdf_path == path->0@
        }),
        event matches Event::Written(waiter) ==> (waiter is Some ==> {
            &&& action is Encode
            &&& action->Encode_0.id@ == id
            &&& action->Encode_0.html_path@ == job.html_path
            &&& action->Encode_0.pdf_path@ == job.pdf_path
            &&& action->Encode_0.landscape == job.request.landscape
            &&& action->Encode_0.format@ == job.request.format@
            &&& action->Encode_0.print_background == job.request.print_background
            &&& action->Encode_0.scale == job.request.scale
            &&& action->Encode_0.omit_background == job.request.omit_background
            &&& after_job.id == id
        }),
        event matches Event::Encoded(json) ==> (json is Some ==> {
            &&& action is Send
            &&& action->Send_0@ == json->0@.push('\n')
        }),
        event matches Event::Sent(outcome) ==> (outcome is Sent ==> {
            &&& action is AwaitResult
            &&& action->timeout_secs == before.render_timeout_secs
        }),
        event matches Event::Answer(outcome) ==> (outcome is Reported && outcome->Reported_0 is Ok
            ==> {
            &&& action is ReadPdf
            &&& action->ReadPdf_path@ == job.pdf_path
        }),
        after_job.request == job.request,
        !(event is Written) ==> after_job.id == job.id,
        !(event is File) ==> after_job.html_path == job.html_path && after_job.pdf_path
            == job.pdf_path,
        event matches Event::Pdf(bytes) ==> (bytes is Some ==> {
            &&& action is Respond
            &&& action->Respond_0.status.number() == 200
            &&& action->Respond_0.body is Pdf
            &&& action->Respond_0.body->Pdf_0@ == bytes->0@
            &&& crate::headers::header_entries(action->Respond_0.headers)["content-type"@] == seq![
                encode_utf8("application/pdf"@),
            ]
            &&& crate::headers::header_entries(action->Respond_0.headers)["x-ratelimit-reset"@]
                == seq![encode_utf8(crate::decimal::numeral(cooldown))]
        }),
{
    if event is Encoded {
        reveal_strlit("\n");
        if event->Encoded_0 is Some {
            assert(action->Send_0@ =~= event->Encoded_0->0@.push('\n'));
        }
    }
    if event is Pdf && event->Pdf_0 is Some {
        response::lemma_pdf_answer_is_the_document(event->Pdf_0->0@, cooldown);
    }
}

/// The steps on which a render fails: each piece of work that failed is
/// answered with its own message, a timeout with 504 and anything else with 500.
pub proof fn lemma_step_fails<T>(
    job: JobView,
    event: Event<T>,
    before: AppState<T>,
    id: Seq<char>,
    cooldown: nat,
    after_job: JobView,
    after: AppState<T>,
    action: Action,
)
    requires
        expected(job.stage, event),
        stepped(job, event, before, id, cooldown, after_job, after, action@),
    ensures
        event matches Event::Worker(alive) ==> (!alive ==> {
            &&& action is Respond
            &&& action->Respond_0.status.number() == 500
            &&& action->Respond_0.body is Text
            &&& action->Respond_0.body->Text_0@
                == "PDF service is temporarily unavailable. Please try again later."@
        }),
        event matches Event::File(path) ==> (path is None ==> {
            &&& action is Respond
            &&& action->Respond_0.status.number() == 500
            &&& action->Respond_0.body is Text
            &&& action->Respond_0.body->Text_0@ == "Internal server error"@
        }),
        event matches Event::Written(waiter) ==> (waiter is None ==> {
            &&& action is Respond
            &&& action->Respond_0.status.number() == 500
            &&& action->Respond_0.body is Text
            &&& action->Respond_0.body->Text_0@ == "Internal server error"@
        }),
        event matches Event::Encoded(json) ==> (json is None ==> {
            &&& action is Respond
            &&& action->Respond_0.status.number() == 500
            &&& action->Respond_0.body is Text
            &&& action->Respond_0.body->Text_0@ == "Internal server error"@
        }),
        event matches Event::Sent(outcome) ==> (outcome is Broken ==> {
            &&& action is Respond
            &&& action->Respond_0.status.number() == 500
            &&& action->Respond_0.body is Text
            &&& action->Respond_0.body->Text_0@ == "Failed to communicate with PDF worker"@
        }),
        event matches Event::Sent(outcome) ==> (outcome is NoWorker ==> {
            &&& action is Respond
            &&& action->Respond_0.status.number() == 500
            &&& action->Respond_0.body is Text
            &&& action->Respond_0.body->Text_0@ == "PDF worker is not available"@
        }),
        event matches Event::Answer(outcome) ==> (outcome is Dropped || outcome is Reported
            && outcome->Reported_0 is Err ==> {
            &&& action is Respond
            &&& action->Respond_0.status.number() == 500
            &&& action->Respond_0.body is Text
            &&& action->Respond_0.body->Text_0@
                == "PDF rendering failed. Please check your HTML and try again."@
        }),
        event matches Event::Answer(outcome) ==> (outcome is TimedOut ==> {
            &&& action is Respond
            &&& action->Respond_0.status.number() == 504
            &&& action->Respond_0.body is Text
            &&& action->Respond_0.body->Text_0@ == "PDF rendering timed out"@
        }),
        event matches Event::Pdf(bytes) ==> (bytes is None ==> {
            &&& action is Respond
            &&& action->Respond_0.status.number() == 500
            &&& action->Respond_0.body is Text
            &&& action->Respond_0.body->Text_0@ == "Failed to read generated PDF"@
        }),
        action is Respond && action->Respond_0.body is Text ==> crate::headers::header_entries(
            action->Respond_0.headers,
        ) == Map::<Seq<char>, Seq<Seq<u8>>>::empty().insert(
            "content-type"@,
            seq![encode_utf8("text/plain"@)],
        ),
{
}

/// What a step does to the state, the stage and the slot: the request is entered
/// when the HTML is written, and taken out when it cannot be encoded, sent or
/// waited for any longer; nothing else is touched. A broken pipe, and nothing
/// else, makes the worker count as dead. The slot is kept while the render goes
/// on, given back before the PDF is read, and on every way out.
pub proof fn lemma_step_changes<T>(
    job: JobView,
    event: Event<T>,
    before: AppState<T>,
    id: Seq<char>,
    cooldown: nat,
    after_job: JobView,
    after: AppState<T>,
    action: Action,
)
    requires
        expected(job.stage, event),
        stepped(job, event, before, id, cooldown, after_job, after, action@),
    ensures
        event matches Event::Written(waiter) ==> (waiter is Some ==> after.pending_requests@
            == before.pending_requests@.insert(id, waiter->0)),
        event matches Event::Written(waiter) ==> (waiter is None ==> after.pending_requests@
            == before.pending_requests@),
        event matches Event::Encoded(json) ==> after.pending_requests@ == (if json is Some {
            before.pending_requests@
        } else {
            before.pending_requests@.remove(job.id)
        }),
        event matches Event::Sent(outcome) ==> after.pending_requests@ == (if outcome is Sent {
            before.pending_requests@
        } else {
            before.pending_requests@.remove(job.id)
        }),
        event matches Event::Answer(outcome) ==> after.pending_requests@ == (if outcome is TimedOut {
            before.pending_requests@.remove(job.id)
        } else {
            before.pending_requests@
        }),
        event is Worker || event is File || event is Pdf ==> after.pending_requests@
            == before.pending_requests@,
        event matches Event::Sent(outcome) ==> after.worker_alive == (before.worker_alive
            && !(outcome is Broken)),
        !(event is Sent) ==> after.worker_alive == before.worker_alive,
        action is Respond <==> after_job.stage is Finished,
        action is Respond ==> !after_job.holds_permit,
        action is ReadPdf ==> !after_job.holds_permit,
        !(action is Respond) && !(action is ReadPdf) ==> after_job.holds_permit
            == job.holds_permit,
{
}

/// The outcome of the work that a step names, and no other, is what the render
/// waits for next; once it has answered, it waits for nothing.
pub proof fn lemma_next_outcome_is_expected<T>(
    job: JobView,
    event: Event<T>,
    before: AppState<T>,
    id: Seq<char>,
    cooldown: nat,
    after_job: JobView,
    after: AppState<T>,
    action: Action,
    next: Event<T>,
)
    requires
        expected(job.stage, event),
        stepped(job, event, before, id, cooldown, after_job, after, action@),
    ensures
        action is CreateHtmlFile || action is CreatePdfFile ==> (expected(after_job.stage, next)
            <==> next is File),
        action is WriteHtml ==> (expected(after_job.stage, next) <==> next is Written),
        action is Encode ==> (expected(after_job.stage, next) <==> next is Encoded),
        action is Send ==> (expected(after_job.stage, next) <==> next is Sent),
        action is AwaitResult ==> (expected(after_job.stage, next) <==> next is Answer),
        action is ReadPdf ==> (expected(after_job.stage, next) <==> next is Pdf),
        action is Respond ==> !expected(after_job.stage, next),
        expected(fresh_job(job.request).stage, next) <==> next is Worker,
{
}

/// A step of a render is such a step: the outcome that is due brings the next
/// piece of work or the answer, with a request ID that was drawn in the call and
/// a cooldown that was read in it.
pub proof fn lemma_step_result<'a, T>(
    job: &mut RenderJob<'a>,
    event: Event<T>,
    state: &mut AppState<T>,
    action: Action,
)
    requires
        expected(old(job)@.stage, event),
        old(state).wf(),
        call_ensures(RenderJob::<'a>::step::<T>, (job, event, state), action),
    ensures
        event matches Event::Pdf(bytes) ==> (bytes is Some ==> {
            &&& action is Respond
            &&& action->Respond_0.status.number() == 200
            &&& action->Respond_0.body is Pdf
            &&& action->Respond_0.body->Pdf_0@ == bytes->0@
        }),
        event matches Event::Written(waiter) ==> (waiter is Some ==> {
            &&& action is Encode
            &&& is_fresh_id(action->Encode_0.id@)
            &&& action->Encode_0.id@ == final(job)@.id
            &&& final(state).pending_requests@ == old(state).pending_requests@.insert(
                action->Encode_0.id@,
                waiter->0,
            )
            &&& action->Encode_0.html_path@ == old(job)@.html_path
            &&& action->Encode_0.pdf_path@ == old(job)@.pdf_path
            &&& action->Encode_0.landscape == old(job)@.request.landscape
            &&& action->Encode_0.format@ == old(job)@.request.format@
            &&& action->Encode_0.print_background == old(job)@.request.print_background
            &&& action->Encode_0.scale == old(job)@.request.scale
            &&& action->Encode_0.omit_background == old(job)@.request.omit_background
        }),
        event matches Event::Answer(outcome) ==> (outcome is TimedOut ==> {
            &&& action is Respond
            &&& action->Respond_0.status.number() == 504
            &&& final(state).pending_requests@ == old(state).pending_requests@.remove(old(job)@.id)
        }),
        event matches Event::Sent(outcome) ==> (outcome is Broken ==> !final(state).worker_alive),
        event matches Event::Pdf(bytes) ==> (bytes is Some ==> exists|now: nat, secs: nat|
            {
                &&& #[trigger] clock::is_reading(old(state).rate_limiter.started(), now)
                &&& crate::headers::header_entries(
                    action->Respond_0.headers,
                )["x-ratelimit-reset"@] == seq![
                    encode_utf8(#[trigger] crate::decimal::numeral(secs)),
                ]
                &&& old(state).rate_limiter@ is None ==> secs == 0
                &&& old(state).rate_limiter@ matches Some(last) ==> (now >= last + 30_000_000_000
                    ==> secs == 0)
                &&& old(state).rate_limiter@ matches Some(last) ==> (last <= now < last
                    + 30_000_000_000 ==> last + 30_000_000_000 <= now + secs * 1_000_000_000 < last
                    + 31_000_000_000)
            }),
        action is Respond ==> !final(job)@.holds_permit,
        final(job)@.request == old(job)@.request,
        final(state).rate_limiter == old(state).rate_limiter,
        final(state).last_spawn_attempt == old(state).last_spawn_attempt,
{
    let (id, cooldown) = choose|id: Seq<char>, cooldown: nat|
        {
            &&& #[trigger] stepped(
                old(job)@,
                event,
                *old(state),
                id,
                cooldown,
                final(job)@,
                *final(state),
                action@,
            )
            &&& event is Written ==> is_request_id(id) && is_fresh_id(id)
            &&& event is Pdf ==> exists|now: nat|
                now < READING_LIMIT && clock::is_reading(old(state).rate_limiter.started(), now)
                    && cooldown == #[trigger] rate_limiter::seconds_left(
                    old(state).rate_limiter@,
                    now,
                )
        };
    lemma_step_goes_on(
        old(job)@,
        event,
        *old(state),
        id,
        cooldown,
        final(job)@,
        *final(state),
        action,
    );
    lemma_step_changes(
        old(job)@,
        event,
        *old(state),
        id,
        cooldown,
        final(job)@,
        *final(state),
        action,
    );
    if event is Pdf {
        let now = choose|now: nat|
            now < READING_LIMIT && clock::is_reading(old(state).rate_limiter.started(), now)
                && cooldown == #[trigger] rate_limiter::seconds_left(old(state).rate_limiter@, now);
        assert(clock::is_reading(old(state).rate_limiter.started(), now));
        let numeral = crate::decimal::numeral(cooldown);
    }
}

/// The HTML that is written is the HTML of the request, whole.
pub proof fn lemma_html_result<'a>(job: RenderJob<'a>, html: &str)
    requires
        call_ensures(RenderJob::<'a>::html, (&job,), html),
    ensures
        html@ == job@.request.html@,
{
}

} // verus!
