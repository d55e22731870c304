use html_to_pdf_service::config::{Config, EnvVars};
use html_to_pdf_service::cors::{build_cors, AllowedMethod, AllowedOrigin};

fn unset() -> EnvVars {
    EnvVars {
        port: None,
        max_concurrent_renders: None,
        render_timeout_secs: None,
        max_body_size_bytes: None,
        cors_allow_origin: None,
        trust_proxy: None,
    }
}

#[test]
fn defaults_apply_where_nothing_is_set() {
    let config = Config::from_env(&unset());
    assert_eq!(config.port, 3001);
    assert_eq!(config.max_concurrent_renders, 4);
    assert_eq!(config.render_timeout_secs, 30);
    assert_eq!(config.max_body_size_bytes, 5_242_880);
    assert_eq!(config.cors_allow_origin, "*");
    assert!(!config.trust_proxy);
    assert_eq!(config.bind_address(), "0.0.0.0:3001");
}

#[test]
fn variables_override_the_defaults() {
    let config = Config::from_env(&EnvVars {
        port: Some("8080".to_string()),
        max_concurrent_renders: Some("2".to_string()),
        render_timeout_secs: Some("+60".to_string()),
        max_body_size_bytes: Some("0".to_string()),
        cors_allow_origin: Some("https://app.example".to_string()),
        trust_proxy: Some("true".to_string()),
    });
    assert_eq!(config.port, 8080);
    assert_eq!(config.max_concurrent_renders, 2);
    assert_eq!(config.render_timeout_secs, 60);
    assert_eq!(config.max_body_size_bytes, 0);
    assert_eq!(config.cors_allow_origin, "https://app.example");
    assert!(config.trust_proxy);
    assert_eq!(config.bind_address(), "0.0.0.0:8080");
}

#[test]
fn unreadable_numbers_leave_the_defaults() {
    for bad in ["", "-1", "65536", "80 ", "http", "8e3"] {
        let mut vars = unset();
        vars.port = Some(bad.to_string());
        assert_eq!(Config::from_env(&vars).port, 3001, "{}", bad);
    }
    let mut vars = unset();
    vars.render_timeout_secs = Some("18446744073709551616".to_string());
    assert_eq!(Config::from_env(&vars).render_timeout_secs, 30);
    vars.port = Some("65535".to_string());
    assert_eq!(Config::from_env(&vars).port, 65535);
}

#[test]
fn proxy_is_trusted_for_two_spellings_only() {
    for (value, trusted) in [("true", true), ("1", true), ("TRUE", false), ("yes", false), ("", false), ("0", false)] {
        let mut vars = unset();
        vars.trust_proxy = Some(value.to_string());
        assert_eq!(Config::from_env(&vars).trust_proxy, trusted, "{}", value);
    }
}

#[test]
fn an_empty_origin_is_kept() {
    let mut vars = unset();
    vars.cors_allow_origin = Some(String::new());
    assert_eq!(Config::from_env(&vars).cors_allow_origin, "");
}

#[test]
fn one_origin_is_allowed_where_it_can_be_sent() {
    for origin in ["https://app.example", "", "a\tb", "https://exämple", "null"] {
        match build_cors(origin).origin {
            AllowedOrigin::Exact(o) => assert_eq!(o, origin),
            AllowedOrigin::Any => panic!("{} was not kept", origin),
        }
        assert!(origin.parse::<axum::http::HeaderValue>().is_ok());
    }
}

#[test]
fn any_origin_is_allowed_otherwise() {
    for origin in ["*", "a\nb", "\u{7f}", "\0", "x\r"] {
        assert!(matches!(build_cors(origin).origin, AllowedOrigin::Any), "{}", origin);
    }
}

#[test]
fn methods_and_headers_are_fixed() {
    let policy = build_cors("*");
    assert_eq!(policy.methods, vec![AllowedMethod::Get, AllowedMethod::Post, AllowedMethod::Options]);
    assert_eq!(policy.headers, vec!["content-type"]);
}
