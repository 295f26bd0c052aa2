use rstress::config::Config;
use rstress::format::{config_summary_lines, report_file_name, summary_text};
use rstress::metrics::Metrics;

#[test]
fn report_names_carry_the_worker() {
    assert_eq!(report_file_name("20240101T000000Z", 0), "20240101T000000Z-worker-0.json");
    assert_eq!(report_file_name("T", 1203), "T-worker-1203.json");
}

#[test]
fn config_is_presented_line_by_line() {
    let cfg = Config {
        target_url: "https://example.com/api".to_string(),
        method: "GET".to_string(),
        headers: vec![],
        payload_file: None,
        duration: "10s".to_string(),
        rate_per_sec: 5,
        concurrency_per_process: 30,
        processes: 2,
        timeout_c: "550ms".to_string(),
        timeout_r: 1,
        verify_tls: true,
        pool_max_idle: 0,
        pool_idle_timeout: 0,
    };
    assert_eq!(
        config_summary_lines(&cfg),
        vec![
            "Configuration:",
            "  Target URL: https://example.com/api",
            "  Method: GET",
            "  Payload File: None",
            "  Duration: 10s",
            "  Rate per Second: 5",
            "  Concurrency per Process: 30",
            "  Processes: 2",
            "  Timeout client: 550ms",
            "  Timeout request: 1",
            "  Verify TLS: true",
            "  Pool Max Idle/Host: 0",
            "  Pool Idle Timeout: 0s",
        ]
    );
}

#[test]
fn summary_lists_codes_kinds_and_drops() {
    let mut m = Metrics::new();
    let s = summary_text(&m);
    assert!(s.lines.is_empty());
    assert_eq!(s.dropped_note, None);
    m.record(true, 5, Some(200));
    m.record(false, 5, None);
    m.record(true, 5, Some(200));
    m.record(false, 5, Some(503));
    m.record_transport_kind("timeout");
    m.record_dropped(7);
    let s = summary_text(&m);
    assert_eq!(
        s.lines,
        vec![
            "status codes:",
            "  0 (Transport Errors): 1",
            "  200: 2",
            "  503: 1",
            "Transport error.",
            "  timeout: 1",
        ]
    );
    assert_eq!(s.dropped_note.as_deref(), Some("Dropped due to low resource: 7"));
}
