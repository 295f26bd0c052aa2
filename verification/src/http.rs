use vstd::prelude::*;
use crate::config::Config;
use humantime::DurationError;
use crate::schedule::{duration_text_in_range, humantime_duration, parse_duration};

verus! {

#[verifier::external_type_specification]
#[verifier::external_body]
pub struct ExClient(reqwest::Client);

#[verifier::external_type_specification]
#[verifier::external_body]
pub struct ExReqwestError(reqwest::Error);

/// The settings of the HTTP client of a worker.
#[derive(Debug, Clone, Copy, PartialEq, Eq)]
pub struct ClientSettings {
    /// Idle connections kept per host.
    pub pool_max_idle: usize,
    /// How long an idle connection is kept, in seconds.
    pub pool_idle_timeout_secs: u64,
    /// Timeout of one request: whole seconds and the nanoseconds beyond them.
    pub timeout_secs: u64,
    pub timeout_nanos: u32,
    /// Certificates are not checked (when TLS verification is off).
    pub accept_invalid_certs: bool,
}

/// Why no HTTP client could be made.
#[derive(Debug)]
pub enum ClientError {
    /// The client timeout is not a duration; the parser's error.
    InvalidTimeout(DurationError),
    /// `reqwest` could not build the client.
    Build(reqwest::Error),
}

/// The client settings a configuration asks for; its client timeout must be a duration.
pub fn client_settings(cfg: &Config) -> (r: Result<ClientSettings, ClientError>)
    requires
        duration_text_in_range(cfg.timeout_c@),
    ensures
        humantime_duration(cfg.timeout_c@) is None ==> r matches Err(ClientError::InvalidTimeout(_)),
        humantime_duration(cfg.timeout_c@) matches Some(d) ==> r == Ok::<
            ClientSettings,
            ClientError,
        >(
            ClientSettings {
                pool_max_idle: cfg.pool_max_idle,
                pool_idle_timeout_secs: cfg.pool_idle_timeout,
                timeout_secs: d.0,
                timeout_nanos: d.1,
                accept_invalid_certs: !cfg.verify_tls,
            },
        ),
        r matches Ok(s) ==> s.timeout_nanos < 1_000_000_000,
{
    match parse_duration(cfg.timeout_c.as_str()) {
        Ok(d) => Ok(
            ClientSettings {
                pool_max_idle: cfg.pool_max_idle,
                pool_idle_timeout_secs: cfg.pool_idle_timeout,
                timeout_secs: d.0,
                timeout_nanos: d.1,
                accept_invalid_certs: !cfg.verify_tls,
            },
        ),
        Err(e) => Err(ClientError::InvalidTimeout(e)),
    }
}

/// An HTTP client together with the settings it was built with.
pub struct HttpClient {
    pub settings: ClientSettings,
    pub client: reqwest::Client,
}

/// `reqwest::ClientBuilder` with `pool_max_idle_per_host`, `pool_idle_timeout`, `timeout`
/// and `danger_accept_invalid_certs` set from `s`, then `build`; the client is returned with
/// the settings that were handed to the builder. Whether the build succeeds depends on the
/// TLS back end of the machine; nothing is stated of it.
#[verifier::external_body]
fn build_reqwest_client(s: &ClientSettings) -> (r: Result<HttpClient, reqwest::Error>)
    requires
        s.timeout_nanos < 1_000_000_000,
    ensures
        r matches Ok(c) ==> c.settings == *s,
{
    match reqwest::Client::builder().pool_max_idle_per_host(s.pool_max_idle).pool_idle_timeout(
        std::time::Duration::from_secs(s.pool_idle_timeout_secs),
    ).timeout(std::time::Duration::new(s.timeout_secs, s.timeout_nanos)).danger_accept_invalid_certs(
        s.accept_invalid_certs,
    ).build() {
        Ok(client) => Ok(HttpClient { settings: *s, client }),
        Err(e) => Err(e),
    }
}

/// Builds the HTTP client of a worker from its configuration.
pub fn build_client(cfg: &Config) -> (r: Result<HttpClient, ClientError>)
    requires
        duration_text_in_range(cfg.timeout_c@),
    ensures
        humantime_duration(cfg.timeout_c@) is None ==> r matches Err(ClientError::InvalidTimeout(_)),
        humantime_duration(cfg.timeout_c@) is Some ==> !(r matches Err(ClientError::InvalidTimeout(_))),
        r matches Ok(c) ==> (humantime_duration(cfg.timeout_c@) matches Some(d) && c.settings
            == ClientSettings {
            pool_max_idle: cfg.pool_max_idle,
            pool_idle_timeout_secs: cfg.pool_idle_timeout,
            timeout_secs: d.0,
            timeout_nanos: d.1,
            accept_invalid_certs: !cfg.verify_tls,
        }),
{
    let settings = match client_settings(cfg) {
        Ok(s) => s,
        Err(e) => return Err(e),
    };
    match build_reqwest_client(&settings) {
        Ok(c) => Ok(c),
        Err(e) => Err(ClientError::Build(e)),
    }
}

} // verus!
