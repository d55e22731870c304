use axum::http::{HeaderMap, HeaderValue};
use html_to_pdf_service::config::{Config, EnvVars};
use html_to_pdf_service::handlers::{
    default_format, default_scale, default_true, extract_client_ip, generate_pdf_handler, health_handler,
    health_report, is_valid_format, screen, valid_formats, validate, GeneratePdfRequest,
};
use html_to_pdf_service::pipeline::Stage;
use html_to_pdf_service::response::{Body, Response, Status};
use html_to_pdf_service::state::AppState;
use tokio::sync::Semaphore;

fn request(html: &str) -> GeneratePdfRequest {
    GeneratePdfRequest {
        html: html.to_string(),
        landscape: false,
        format: default_format(),
        print_background: default_true(),
        scale: default_scale(),
        omit_background: false,
    }
}

fn state() -> AppState<u32> {
    AppState::new(&Config::from_env(&EnvVars {
        port: None,
        max_concurrent_renders: None,
        render_timeout_secs: None,
        max_body_size_bytes: Some("20".to_string()),
        cors_allow_origin: None,
        trust_proxy: None,
    }))
}

fn text(r: &Response) -> &str {
    match &r.body {
        Body::Text(t) => t,
        Body::Pdf(_) => panic!("not a text"),
    }
}

#[test]
fn option_defaults() {
    assert_eq!(default_format(), "A4");
    assert!(default_true());
    assert_eq!(default_scale(), 1.0f64.to_bits());
    assert_eq!(validate(&request("<h1>Hello</h1>"), 100), Ok(()));
}

#[test]
fn html_must_not_be_blank() {
    for html in ["", "   ", "\n\t", "\u{a0}"] {
        assert_eq!(validate(&request(html), 100), Err("Missing or empty 'html' field".to_string()));
    }
}

#[test]
fn html_size_is_counted_in_bytes() {
    assert_eq!(validate(&request("éé"), 4), Ok(()));
    assert_eq!(validate(&request("éé"), 3), Err("HTML content too large".to_string()));
    assert_eq!(validate(&request("x"), 0), Err("HTML content too large".to_string()));
}

#[test]
fn scale_must_be_in_range() {
    for (scale, ok) in [(0.1, true), (2.0, true), (0.8, true), (0.0999, false), (2.0001, false), (-1.0, false), (f64::NAN, false)] {
        let mut r = request("x");
        r.scale = f64::to_bits(scale);
        let expected = if ok { Ok(()) } else { Err("Scale must be between 0.1 and 2.0".to_string()) };
        assert_eq!(validate(&r, 100), expected, "{}", scale);
    }
}

#[test]
fn formats_are_known_by_name_without_regard_to_case() {
    assert_eq!(
        valid_formats(),
        vec!["Letter", "Legal", "Tabloid", "Ledger", "A0", "A1", "A2", "A3", "A4", "A5", "A6"]
    );
    for f in ["Letter", "LETTER", "letter", "a4", "A6", "tabLOID", "ledger", "legal"] {
        assert!(is_valid_format(f), "{}", f);
    }
    for f in ["", "A7", "A", "Lette", "Letters", " A4", "B5"] {
        assert!(!is_valid_format(f), "{}", f);
        let mut r = request("x");
        r.format = f.to_string();
        assert_eq!(
            validate(&r, 100),
            Err("Invalid format. Valid options: Letter, Legal, Tabloid, Ledger, A0, A1, A2, A3, A4, A5, A6".to_string())
        );
    }
}

#[test]
fn checks_come_in_order() {
    let mut r = request(" ");
    r.scale = f64::to_bits(9.0);
    r.format = "B5".to_string();
    assert_eq!(validate(&r, 0), Err("Missing or empty 'html' field".to_string()));
    r.html = "xx".to_string();
    assert_eq!(validate(&r, 1), Err("HTML content too large".to_string()));
    assert_eq!(validate(&r, 2), Err("Scale must be between 0.1 and 2.0".to_string()));
}

#[test]
fn client_address_behind_a_trusted_proxy() {
    let mut headers = HeaderMap::new();
    assert_eq!(extract_client_ip(&headers, "10.0.0.1", true), "10.0.0.1");
    headers.insert("X-Forwarded-For", HeaderValue::from_static(" 1.2.3.4 , 5.6.7.8"));
    assert_eq!(extract_client_ip(&headers, "10.0.0.1", true), "1.2.3.4");
    assert_eq!(extract_client_ip(&headers, "10.0.0.1", false), "10.0.0.1");
    headers.append("x-forwarded-for", HeaderValue::from_static("9.9.9.9"));
    assert_eq!(extract_client_ip(&headers, "10.0.0.1", true), "1.2.3.4");
}

#[test]
fn client_address_without_a_usable_entry() {
    for bytes in [&b""[..], &b"  , 5.6.7.8"[..], &b",x"[..], &b"1.2.3.4\xff"[..], &b"\t"[..]] {
        let mut headers = HeaderMap::new();
        headers.insert("x-forwarded-for", HeaderValue::from_bytes(bytes).unwrap());
        assert_eq!(extract_client_ip(&headers, "::1", true), "::1");
    }
}

#[test]
fn screening_lets_valid_requests_through() {
    assert!(screen(Ok(()), request("x"), 10).is_ok());
    match screen(Ok(()), request(""), 10) {
        Err(r) => {
            assert_eq!(r.status, Status::BadRequest);
            assert_eq!(text(&r), "Missing or empty 'html' field");
            assert!(r.headers.get("retry-after").is_none());
        }
        Ok(_) => panic!("let through"),
    }
    match screen(Err((Status::TooManyRequests, "wait".to_string(), 12)), request("x"), 10) {
        Err(r) => {
            assert_eq!(r.status, Status::TooManyRequests);
            assert_eq!(text(&r), "wait");
            assert_eq!(r.headers.get("retry-after").unwrap(), "12");
        }
        Ok(_) => panic!("let through"),
    }
}

#[test]
fn accepted_request_takes_a_slot_and_gives_it_back() {
    let semaphore = Semaphore::new(1);
    let mut st = state();
    match generate_pdf_handler(&mut st, &semaphore, request("x")) {
        Ok(job) => {
            assert_eq!(job.stage(), Stage::EnsureWorker);
            assert_eq!(job.html(), "x");
            assert_eq!(semaphore.available_permits(), 0);
        }
        Err(_) => panic!("refused"),
    }
    assert_eq!(semaphore.available_permits(), 1);
}

#[test]
fn second_request_is_rate_limited() {
    let semaphore = Semaphore::new(4);
    let mut st = state();
    assert!(generate_pdf_handler(&mut st, &semaphore, request("x")).is_ok());
    match generate_pdf_handler(&mut st, &semaphore, request("x")) {
        Err(r) => {
            assert_eq!(r.status, Status::TooManyRequests);
            let wait = r.headers.get("retry-after").unwrap().to_str().unwrap();
            assert_eq!(text(&r), format!("Rate limited. Please wait {} seconds.", wait));
        }
        Ok(_) => panic!("admitted"),
    };
    assert_eq!(semaphore.available_permits(), 4);
}

#[test]
fn invalid_request_starts_the_cooldown_and_takes_no_slot() {
    let semaphore = Semaphore::new(1);
    let mut st = state();
    match generate_pdf_handler(&mut st, &semaphore, request("this is longer than twenty bytes")) {
        Err(r) => {
            assert_eq!(r.status, Status::BadRequest);
            assert_eq!(text(&r), "HTML content too large");
        }
        Ok(_) => panic!("accepted"),
    };
    assert_eq!(semaphore.available_permits(), 1);
    assert!(generate_pdf_handler(&mut st, &semaphore, request("x")).is_err());
    assert!(st.rate_limiter.status() > 0);
}

#[test]
fn no_free_slot() {
    let semaphore = Semaphore::new(0);
    let mut st = state();
    match generate_pdf_handler(&mut st, &semaphore, request("x")) {
        Err(r) => {
            assert_eq!(r.status, Status::TooManyRequests);
            assert_eq!(text(&r), "Server is at capacity. Try again later.");
            assert!(r.headers.get("retry-after").is_none());
        }
        Ok(_) => panic!("accepted"),
    };
}

#[test]
fn health_of_a_fresh_service() {
    let semaphore = Semaphore::new(3);
    let mut st = state();
    let report = health_handler(&st, &semaphore, "1.2.3");
    assert_eq!(report.status, "degraded");
    assert!(!report.worker_alive);
    assert_eq!(report.version, "1.2.3");
    assert!(report.uptime_secs < 60);
    assert_eq!(report.renders.available, 3);
    assert_eq!(report.renders.max, 4);
    assert_eq!(report.rate_limiter.cooldown_remaining_secs, 0);
    st.worker_alive = true;
    assert_eq!(st.rate_limiter.check(), Ok(()));
    let report = health_handler(&st, &semaphore, "1.2.3");
    assert_eq!(report.status, "ok");
    assert!(report.worker_alive);
    assert!(report.rate_limiter.cooldown_remaining_secs >= 29);
}

#[test]
fn health_report_values() {
    let report = health_report(true, "9", 3_600_999_999_999, 3, 4, 7);
    assert_eq!(report.uptime_secs, 3600);
    assert_eq!(report.renders.available, 3);
    assert_eq!(report.renders.max, 4);
    assert_eq!(report.rate_limiter.cooldown_remaining_secs, 7);
}
