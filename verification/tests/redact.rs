use rstress::config::{default_pool_idle_timeout, default_pool_max_idle, default_verify_tls, Config};
use rstress::redact::redact_tokens_in_url;

#[test]
fn url_without_query_is_kept() {
    assert_eq!(redact_tokens_in_url("https://example.com/a/b"), "https://example.com/a/b");
}

#[test]
fn token_params_are_masked() {
    assert_eq!(
        redact_tokens_in_url("https://x.io/y?token=abc&a=1"),
        "https://x.io/y?token=***redacted***&a=1"
    );
    assert_eq!(
        redact_tokens_in_url("https://h/p?Api_Key=k&ACCESS_TOKEN=t&sig=s&q=rust"),
        "https://h/p?Api_Key=***redacted***&ACCESS_TOKEN=***redacted***&sig=***redacted***&q=rust"
    );
}

#[test]
fn empty_values_lose_their_equals_sign() {
    assert_eq!(redact_tokens_in_url("https://h/p?x=&y&z=1"), "https://h/p?x&y&z=1");
    assert_eq!(redact_tokens_in_url("https://h?"), "https://h?");
    assert_eq!(redact_tokens_in_url("u?a=1&&key=2"), "u?a=1&&key=***redacted***");
}

#[test]
fn only_the_first_question_mark_starts_the_query() {
    assert_eq!(redact_tokens_in_url("a?b?token=1"), "a?b?token=1");
    assert_eq!(redact_tokens_in_url("a?auth=x=y"), "a?auth=***redacted***");
    assert_eq!(redact_tokens_in_url("a?keep=x=y"), "a?keep=x=y");
}

#[test]
fn redaction_is_idempotent() {
    let once = redact_tokens_in_url("https://h/p?token=1&x=&apikey=2&y=3");
    assert_eq!(redact_tokens_in_url(&once), once);
}

#[test]
fn report_config_masks_credentials() {
    let cfg = Config {
        target_url: "https://api.example.com/v1?key=secret&page=2".to_string(),
        method: "POST".to_string(),
        headers: vec![
            ("Authorization".to_string(), "Bearer abc".to_string()),
            ("Content-Type".to_string(), "application/json".to_string()),
            ("X-API-Key".to_string(), "k".to_string()),
            ("cookie".to_string(), "c=1".to_string()),
        ],
        payload_file: Some("body.json".to_string()),
        duration: "10s".to_string(),
        rate_per_sec: 5,
        concurrency_per_process: 30,
        processes: 2,
        timeout_c: "550ms".to_string(),
        timeout_r: 1,
        verify_tls: default_verify_tls(),
        pool_max_idle: default_pool_max_idle(),
        pool_idle_timeout: default_pool_idle_timeout(),
    };
    let r = cfg.redacted_for_report();
    assert_eq!(r.target_url, "https://api.example.com/v1?key=***redacted***&page=2");
    assert_eq!(
        r.headers,
        vec![
            ("Authorization".to_string(), "***redacted***".to_string()),
            ("Content-Type".to_string(), "application/json".to_string()),
            ("X-API-Key".to_string(), "***redacted***".to_string()),
            ("cookie".to_string(), "***redacted***".to_string()),
        ]
    );
    assert_eq!(r.method, "POST");
    assert_eq!(r.payload_file.as_deref(), Some("body.json"));
    assert_eq!(r.duration, "10s");
    assert_eq!(r.rate_per_sec, 5);
    assert_eq!(r.concurrency_per_process, 30);
    assert_eq!(r.processes, 2);
    assert_eq!(r.timeout_c, "550ms");
    assert_eq!(r.timeout_r, 1);
    assert!(r.verify_tls);
    assert_eq!(r.pool_max_idle, usize::MAX);
    assert_eq!(r.pool_idle_timeout, 30);
}

#[test]
fn secret_values_do_not_reach_the_redacted_url() {
    let a = redact_tokens_in_url("https://h/p?token=first&q=1&Auth=x");
    let b = redact_tokens_in_url("https://h/p?token=second-value&q=1&Auth=");
    assert_eq!(a, b);
    assert_eq!(a, "https://h/p?token=***redacted***&q=1&Auth=***redacted***");
    // A value that is not a credential does reach it.
    assert_ne!(
        redact_tokens_in_url("https://h/p?q=1"),
        redact_tokens_in_url("https://h/p?q=2")
    );
}

#[test]
fn secret_values_do_not_reach_the_report() {
    let mk = |auth: &str, token: &str| Config {
        target_url: format!("https://h/p?api_key={token}&page=2"),
        method: "GET".to_string(),
        headers: vec![
            ("Authorization".to_string(), auth.to_string()),
            ("Accept".to_string(), "text/plain".to_string()),
        ],
        payload_file: None,
        duration: "1s".to_string(),
        rate_per_sec: 1,
        concurrency_per_process: 1,
        processes: 1,
        timeout_c: "1s".to_string(),
        timeout_r: 1,
        verify_tls: true,
        pool_max_idle: 1,
        pool_idle_timeout: 1,
    };
    let r1 = mk("Bearer one", "aaa").redacted_for_report();
    let r2 = mk("Bearer two", "bbbb").redacted_for_report();
    assert_eq!(r1.target_url, r2.target_url);
    assert_eq!(r1.headers, r2.headers);
    assert_eq!(r1.target_url, "https://h/p?api_key=***redacted***&page=2");
}
