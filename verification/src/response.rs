//! What the service answers: a status, headers and a body.
use crate::headers;
use crate::headers::{document_headers, plain_text_headers, rejected_headers, utf8_text_headers};
use axum::http::{HeaderMap, HeaderValue};
use vstd::prelude::*;
use vstd::string::*;
use vstd::utf8::*;

verus! {

/// The HTTP statuses that the service answers with.
#[derive(Clone, Copy, Debug, PartialEq, Eq, Structural)]
pub enum Status {
    Success,
    BadRequest,
    PayloadTooLarge,
    UnsupportedMediaType,
    UnprocessableContent,
    TooManyRequests,
    InternalServerError,
    GatewayTimeout,
}

impl Status {
    /// The numeric status code.
    pub open spec fn number(self) -> u16 {
        match self {
            Status::Success => 200,
            Status::BadRequest => 400,
            Status::PayloadTooLarge => 413,
            Status::UnsupportedMediaType => 415,
            Status::UnprocessableContent => 422,
            Status::TooManyRequests => 429,
            Status::InternalServerError => 500,
            Status::GatewayTimeout => 504,
        }
    }

    /// The numeric status code.
    pub fn code(self) -> (code: u16)
        ensures
            code == self.number(),
    {
        match self {
            Status::Success => 200,
            Status::BadRequest => 400,
            Status::PayloadTooLarge => 413,
            Status::UnsupportedMediaType => 415,
            Status::UnprocessableContent => 422,
            Status::TooManyRequests => 429,
            Status::InternalServerError => 500,
            Status::GatewayTimeout => 504,
        }
    }
}

/// The body of an answer.
pub enum Body {
    /// A message to the client.
    Text(String),
    /// A PDF document.
    Pdf(Vec<u8>),
}

/// An answer to the client.
pub struct Response {
    pub status: Status,
    pub headers: HeaderMap<HeaderValue>,
    pub body: Body,
}

/// What the body of an answer holds.
pub enum BodyView {
    Text(Seq<char>),
    Pdf(Seq<u8>),
}

/// What an answer holds.
pub struct ResponseView {
    pub status: Status,
    pub headers: Map<Seq<char>, Seq<Seq<u8>>>,
    pub body: BodyView,
}

impl View for Response {
    type V = ResponseView;

    open spec fn view(&self) -> ResponseView {
        ResponseView {
            status: self.status,
            headers: headers::header_entries(self.headers),
            body: match self.body {
                Body::Text(t) => BodyView::Text(t@),
                Body::Pdf(b) => BodyView::Pdf(b@),
            },
        }
    }
}

/// A plain-text answer.
pub open spec fn text_answer(status: Status, message: Seq<char>) -> ResponseView {
    ResponseView {
        status,
        headers: headers::plain_entries(),
        body: BodyView::Text(message),
    }
}

/// The answer to a request that has to wait `secs` seconds.
pub open spec fn rejected_answer(status: Status, message: Seq<char>, secs: nat) -> ResponseView {
    ResponseView {
        status,
        headers: headers::rejected_entries(secs),
        body: BodyView::Text(message),
    }
}

/// The answer that carries a PDF, given while the cooldown has `secs` seconds
/// left.
pub open spec fn pdf_answer(bytes: Seq<u8>, secs: nat) -> ResponseView {
    ResponseView {
        status: Status::Success,
        headers: headers::with_rate_limit(headers::document_entries(), secs),
        body: BodyView::Pdf(bytes),
    }
}

/// A plain-text answer.
pub fn text_response(status: Status, message: &str) -> (response: Response)
    ensures
        response@ == text_answer(status, message@),
{
    Response { status, headers: plain_text_headers(), body: Body::Text(message.to_owned()) }
}

/// The answer to a request that has to wait `secs` seconds.
pub fn rejected_response(status: Status, message: String, secs: u64) -> (response: Response)
    ensures
        response@ == rejected_answer(status, message@, secs as nat),
{
    Response { status, headers: rejected_headers(secs), body: Body::Text(message) }
}

/// The answer that carries a PDF.
pub fn pdf_response(bytes: Vec<u8>, secs: u64) -> (response: Response)
    ensures
        response@ == pdf_answer(bytes@, secs as nat),
{
    Response {
        status: Status::Success,
        headers: document_headers(secs),
        body: Body::Pdf(bytes),
    }
}

/// Why a request body could not be read as a render request.
#[derive(Clone, Copy, Debug, PartialEq, Eq, Structural)]
pub enum BodyRejection {
    /// It is not JSON.
    Syntax,
    /// It is JSON, but not a render request.
    Data,
    /// It is not declared to be JSON.
    MissingContentType,
    /// It exceeds the body size limit.
    TooLarge,
    /// It could not be read to its end.
    Unreadable,
}

/// The status for a request body that could not be read.
pub open spec fn rejection_status(rejection: BodyRejection) -> Status {
    match rejection {
        BodyRejection::Syntax => Status::BadRequest,
        BodyRejection::Data => Status::UnprocessableContent,
        BodyRejection::MissingContentType => Status::UnsupportedMediaType,
        BodyRejection::TooLarge => Status::PayloadTooLarge,
        BodyRejection::Unreadable => Status::BadRequest,
    }
}

/// The answer to a request body that could not be read.
pub open spec fn body_rejection_answer(
    rejection: BodyRejection,
    detail: Seq<char>,
) -> ResponseView {
    ResponseView {
        status: rejection_status(rejection),
        headers: headers::utf8_text_entries(),
        body: BodyView::Text(detail),
    }
}

/// The answer to a request body that could not be read.
pub fn reject_body(rejection: BodyRejection, detail: &str) -> (response: Response)
    ensures
        response@ == body_rejection_answer(rejection, detail@),
{
    let status = match rejection {
        BodyRejection::Syntax => Status::BadRequest,
        BodyRejection::Data => Status::UnprocessableContent,
        BodyRejection::MissingContentType => Status::UnsupportedMediaType,
        BodyRejection::TooLarge => Status::PayloadTooLarge,
        BodyRejection::Unreadable => Status::BadRequest,
    };
    Response { status, headers: utf8_text_headers(), body: Body::Text(detail.to_owned()) }
}

/// The numbers of the statuses.
pub proof fn lemma_status_numbers(status: Status, code: u16)
    requires
        call_ensures(Status::code, (status,), code),
    ensures
        code == status.number(),
        status == Status::Success <==> code == 200,
        status == Status::BadRequest <==> code == 400,
        status == Status::PayloadTooLarge <==> code == 413,
        status == Status::UnsupportedMediaType <==> code == 415,
        status == Status::UnprocessableContent <==> code == 422,
        status == Status::TooManyRequests <==> code == 429,
        status == Status::InternalServerError <==> code == 500,
        status == Status::GatewayTimeout <==> code == 504,
{
}

/// The answer that carries a PDF is a success, its body is the given bytes from
/// the first to the last, and it is marked as a PDF.
pub proof fn lemma_pdf_response_result(bytes: Vec<u8>, secs: u64, response: Response)
    requires
        call_ensures(pdf_response, (bytes, secs), response),
    ensures
        response.status.number() == 200,
        response.body is Pdf,
        response.body->Pdf_0@ == bytes@,
        headers::header_entries(response.headers)["content-type"@] == seq![
            encode_utf8("application/pdf"@),
        ],
        headers::header_entries(response.headers)["x-ratelimit-reset"@] == seq![
            encode_utf8(crate::decimal::numeral(secs as nat)),
        ],
{
    lemma_pdf_answer_is_the_document(bytes@, secs as nat);
}

/// What a PDF answer holds: every byte of the document, and nothing else.
pub proof fn lemma_pdf_answer_is_the_document(bytes: Seq<u8>, secs: nat)
    ensures
        pdf_answer(bytes, secs).body == BodyView::Pdf(bytes),
        pdf_answer(bytes, secs).status.number() == 200,
        pdf_answer(bytes, secs).headers["content-type"@] == seq![encode_utf8("application/pdf"@)],
        pdf_answer(bytes, secs).headers["content-disposition"@] == seq![
            encode_utf8("attachment; filename=generated-document.pdf"@),
        ],
        pdf_answer(bytes, secs).headers["x-ratelimit-limit"@] == seq![encode_utf8("1"@)],
        pdf_answer(bytes, secs).headers["x-ratelimit-reset"@] == seq![
            encode_utf8(crate::decimal::numeral(secs)),
        ],
        !pdf_answer(bytes, secs).headers.contains_key("retry-after"@),
{
    headers::lemma_names_distinct();
}

/// A plain-text answer has the given status, the given message from the first
/// character to the last, and a content type as its only header.
pub proof fn lemma_text_response_result(status: Status, message: &str, response: Response)
    requires
        call_ensures(text_response, (status, message), response),
    ensures
        response.status == status,
        response.body is Text,
        response.body->Text_0@ == message@,
        headers::header_entries(response.headers).dom() == set!["content-type"@],
        headers::header_entries(response.headers)["content-type"@] == seq![
            encode_utf8("text/plain"@),
        ],
{
    assert(headers::header_entries(response.headers).dom() =~= set!["content-type"@]);
}

/// The answer to a request that has to wait has the given status and message,
/// and tells the given seconds under both names.
pub proof fn lemma_rejected_response_result(
    status: Status,
    message: String,
    secs: u64,
    response: Response,
)
    requires
        call_ensures(rejected_response, (status, message, secs), response),
    ensures
        response.status == status,
        response.body is Text,
        response.body->Text_0@ == message@,
        headers::header_entries(response.headers)["retry-after"@] == seq![
            encode_utf8(crate::decimal::numeral(secs as nat)),
        ],
        headers::header_entries(response.headers)["x-ratelimit-reset"@] == seq![
            encode_utf8(crate::decimal::numeral(secs as nat)),
        ],
        headers::header_entries(response.headers)["x-ratelimit-limit"@] == seq![encode_utf8("1"@)],
        secs > 0 ==> headers::header_entries(response.headers)["x-ratelimit-remaining"@] == seq![
            encode_utf8("0"@),
        ],
        headers::header_entries(response.headers)["content-type"@] == seq![
            encode_utf8("text/plain"@),
        ],
{
    headers::lemma_names_distinct();
}

/// A request body that could not be read is answered with the reason as it is
/// given: 400 for what is not JSON or breaks off, 413 for what is too large, 415
/// for what is not declared as JSON, and 422 for JSON of another form.
pub proof fn lemma_reject_body_result(rejection: BodyRejection, detail: &str, response: Response)
    requires
        call_ensures(reject_body, (rejection, detail), response),
    ensures
        response.body is Text,
        response.body->Text_0@ == detail@,
        response.status.number() == 400 <==> rejection is Syntax || rejection is Unreadable,
        response.status.number() == 413 <==> rejection is TooLarge,
        response.status.number() == 415 <==> rejection is MissingContentType,
        response.status.number() == 422 <==> rejection is Data,
        headers::header_entries(response.headers).dom() == set!["content-type"@],
        headers::header_entries(response.headers)["content-type"@] == seq![
            encode_utf8("text/plain; charset=utf-8"@),
        ],
{
    assert(headers::header_entries(response.headers).dom() =~= set!["content-type"@]);
}

} // verus!
