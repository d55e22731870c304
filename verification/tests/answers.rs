use axum::http::{HeaderMap, HeaderValue};
use html_to_pdf_service::headers::{document_headers, plain_text_headers, rejected_headers};
use html_to_pdf_service::response::{
    pdf_response, reject_body, rejected_response, text_response, Body, BodyRejection, Status,
};

fn value<'a>(headers: &'a HeaderMap<HeaderValue>, name: &str) -> &'a str {
    headers.get(name).unwrap().to_str().unwrap()
}

#[test]
fn status_codes() {
    assert_eq!(Status::Success.code(), 200);
    assert_eq!(Status::BadRequest.code(), 400);
    assert_eq!(Status::PayloadTooLarge.code(), 413);
    assert_eq!(Status::UnsupportedMediaType.code(), 415);
    assert_eq!(Status::UnprocessableContent.code(), 422);
    assert_eq!(Status::TooManyRequests.code(), 429);
    assert_eq!(Status::InternalServerError.code(), 500);
    assert_eq!(Status::GatewayTimeout.code(), 504);
}

#[test]
fn plain_text_answers_carry_their_type_alone() {
    let headers = plain_text_headers();
    assert_eq!(headers.len(), 1);
    assert_eq!(value(&headers, "Content-Type"), "text/plain");
}

#[test]
fn rejections_tell_the_time_to_wait() {
    let headers = rejected_headers(17);
    assert_eq!(headers.len(), 5);
    assert_eq!(value(&headers, "content-type"), "text/plain");
    assert_eq!(value(&headers, "X-RateLimit-Limit"), "1");
    assert_eq!(value(&headers, "X-RateLimit-Remaining"), "0");
    assert_eq!(value(&headers, "X-RateLimit-Reset"), "17");
    assert_eq!(value(&headers, "Retry-After"), "17");
    assert_eq!(value(&headers, "retry-after").parse::<u64>(), Ok(17));
}

#[test]
fn documents_are_attachments_with_rate_limit_headers() {
    let headers = document_headers(0);
    assert_eq!(headers.len(), 5);
    assert_eq!(value(&headers, "content-type"), "application/pdf");
    assert_eq!(value(&headers, "content-disposition"), "attachment; filename=generated-document.pdf");
    assert_eq!(value(&headers, "x-ratelimit-limit"), "1");
    assert_eq!(value(&headers, "x-ratelimit-remaining"), "1");
    assert_eq!(value(&headers, "x-ratelimit-reset"), "0");
    assert!(headers.get("retry-after").is_none());

    let headers = document_headers(28);
    assert_eq!(value(&headers, "x-ratelimit-remaining"), "0");
    assert_eq!(value(&headers, "x-ratelimit-reset"), "28");
}

#[test]
fn answers_hold_what_they_are_made_of() {
    let r = text_response(Status::BadRequest, "no");
    assert_eq!(r.status, Status::BadRequest);
    assert!(matches!(r.body, Body::Text(t) if t == "no"));
    let r = rejected_response(Status::TooManyRequests, "wait".to_string(), 3);
    assert_eq!(value(&r.headers, "retry-after"), "3");
    assert!(matches!(r.body, Body::Text(t) if t == "wait"));
    let r = pdf_response(vec![37, 80, 68, 70], 5);
    assert_eq!(r.status, Status::Success);
    assert!(matches!(r.body, Body::Pdf(b) if b == vec![37, 80, 68, 70]));
}

#[test]
fn unreadable_bodies() {
    for (kind, status) in [
        (BodyRejection::Syntax, Status::BadRequest),
        (BodyRejection::Data, Status::UnprocessableContent),
        (BodyRejection::MissingContentType, Status::UnsupportedMediaType),
        (BodyRejection::TooLarge, Status::PayloadTooLarge),
        (BodyRejection::Unreadable, Status::BadRequest),
    ] {
        let r = reject_body(kind, "why");
        assert_eq!(r.status, status);
        assert_eq!(r.headers.len(), 1);
        assert_eq!(value(&r.headers, "content-type"), "text/plain; charset=utf-8");
        assert!(matches!(r.body, Body::Text(t) if t == "why"));
    }
}
