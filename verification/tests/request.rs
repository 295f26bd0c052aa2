use rstress::config::Config;
use rstress::request::{build_request_spec, parse_method, HttpMethod, RequestError};

fn cfg(method: &str, headers: Vec<(String, String)>) -> Config {
    Config {
        target_url: "http://localhost:8080/ok".to_string(),
        method: method.to_string(),
        headers,
        payload_file: None,
        duration: "1s".to_string(),
        rate_per_sec: 1,
        concurrency_per_process: 1,
        processes: 1,
        timeout_c: "1s".to_string(),
        timeout_r: 1,
        verify_tls: true,
        pool_max_idle: 10,
        pool_idle_timeout: 30,
    }
}

#[test]
fn methods_are_case_insensitive() {
    assert_eq!(parse_method("get"), Ok(HttpMethod::Get));
    assert_eq!(parse_method("Post"), Ok(HttpMethod::Post));
    assert_eq!(parse_method("po\u{17f}t"), Ok(HttpMethod::Post));
    assert_eq!(parse_method("put"), Err(RequestError::UnsupportedMethod("PUT".to_string())));
}

#[test]
fn request_spec_keeps_valid_headers() {
    let c = cfg(
        "post",
        vec![
            ("Content-Type".to_string(), "application/json".to_string()),
            ("bad name".to_string(), "x".to_string()),
            ("".to_string(), "y".to_string()),
            ("X-Trace".to_string(), "1".to_string()),
        ],
    );
    let spec = build_request_spec(&c, Some(vec![1, 2, 3])).unwrap();
    assert_eq!(spec.url, "http://localhost:8080/ok");
    assert_eq!(spec.method, HttpMethod::Post);
    assert_eq!(
        spec.headers,
        vec![
            ("Content-Type".to_string(), "application/json".to_string()),
            ("X-Trace".to_string(), "1".to_string()),
        ]
    );
    assert_eq!(spec.payload, Some(vec![1, 2, 3]));
}

#[test]
fn request_spec_refuses_other_methods() {
    let c = cfg("delete", vec![]);
    assert_eq!(
        build_request_spec(&c, None).err(),
        Some(RequestError::UnsupportedMethod("DELETE".to_string()))
    );
}
