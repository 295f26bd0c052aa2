use rstress::config::Config;
use rstress::http::{build_client, client_settings, ClientError, ClientSettings};

// Minimal valid config for building a client
fn base_cfg() -> Config {
    Config {
        target_url: "https://example.com".to_string(),
        method: "GET".to_string(),
        headers: Default::default(),
        payload_file: None,
        duration: "1s".to_string(),
        rate_per_sec: 1,
        concurrency_per_process: 1,
        processes: 1,
        timeout_c: "1s".to_string(),
        timeout_r: 1,
        verify_tls: true,
        pool_max_idle: 10,
        pool_idle_timeout: 30,
    }
}

#[test]
fn build_client_ok_with_valid_timeout() {
    let mut cfg = base_cfg();
    cfg.timeout_c = "2s".to_string();
    let client = build_client(&cfg);
    assert!(client.is_ok(), "client should build for a valid timeout");
}

#[test]
fn build_client_err_with_invalid_timeout() {
    let mut cfg = base_cfg();
    cfg.timeout_c = "not-a-duration".to_string();
    let client = build_client(&cfg);
    assert!(client.is_err(), "invalid humantime duration must error");
}

#[test]
fn client_settings_follow_the_config() {
    let mut cfg = base_cfg();
    cfg.timeout_c = "1s 250ms".to_string();
    cfg.verify_tls = false;
    let s = client_settings(&cfg).unwrap();
    assert_eq!(
        s,
        ClientSettings {
            pool_max_idle: 10,
            pool_idle_timeout_secs: 30,
            timeout_secs: 1,
            timeout_nanos: 250_000_000,
            accept_invalid_certs: true,
        }
    );
    cfg.timeout_c = "soon".to_string();
    assert!(matches!(client_settings(&cfg), Err(ClientError::InvalidTimeout(_))));
}

#[test]
fn built_client_carries_the_configured_settings() {
    let mut cfg = base_cfg();
    cfg.timeout_c = "3s 5ms".to_string();
    cfg.verify_tls = true;
    let c = build_client(&cfg).ok().unwrap();
    assert_eq!(
        c.settings,
        ClientSettings {
            pool_max_idle: 10,
            pool_idle_timeout_secs: 30,
            timeout_secs: 3,
            timeout_nanos: 5_000_000,
            accept_invalid_certs: false,
        }
    );
    cfg.verify_tls = false;
    let c = build_client(&cfg).ok().unwrap();
    assert!(c.settings.accept_invalid_certs);
}
