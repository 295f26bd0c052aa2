use vstd::prelude::*;
use crate::redact::{
    law_url_secrets_do_not_flow, redact_tokens_in_url, redact_url, redacted_marker,
    urls_differ_in_secrets_only,
};
use crate::text::{ascii_lower, lemma_lower_is_name, same_name_any_case, to_ascii_lowercase};

verus! {

/// A load-test configuration, as read from a YAML or TOML file.
///
/// `headers` lists the extra request headers as name/value pairs, in the order they are
/// sent. Nothing here depends on the names being distinct (a configuration file, read as a
/// map, gives each name once).
#[derive(Debug, Clone)]
pub struct Config {
    pub target_url: String,
    /// `"GET"` or `"POST"`, in any case.
    pub method: String,
    pub headers: Vec<(String, String)>,
    pub payload_file: Option<String>,
    /// How long the test runs, in humantime notation such as `"30s"`.
    pub duration: String,
    /// Total request rate across all processes.
    pub rate_per_sec: u32,
    pub concurrency_per_process: usize,
    /// Number of OS processes.
    pub processes: usize,
    /// Client-level timeout of one request, in humantime notation.
    pub timeout_c: String,
    /// Request-level timeout, in seconds.
    pub timeout_r: u64,
    pub verify_tls: bool,
    /// Connection-pool knob: idle connections kept per host.
    pub pool_max_idle: usize,
    /// Connection-pool knob: how long an idle connection is kept, in seconds.
    pub pool_idle_timeout: u64,
}

/// A configuration as it is written into reports: credentials are masked.
#[derive(Debug, Clone)]
pub struct ConfigForReport {
    /// The target URL with credential-like query parameters masked.
    pub target_url: String,
    pub method: String,
    /// The headers with sensitive values masked.
    pub headers: Vec<(String, String)>,
    pub payload_file: Option<String>,
    pub duration: String,
    pub rate_per_sec: u32,
    pub concurrency_per_process: usize,
    pub processes: usize,
    pub timeout_c: String,
    pub timeout_r: u64,
    pub verify_tls: bool,
    pub pool_max_idle: usize,
    pub pool_idle_timeout: u64,
}

/// TLS certificates are verified unless the configuration says otherwise.
pub fn default_verify_tls() -> (r: bool)
    ensures
        r,
{
    true
}

/// By default idle connections are reused without limit.
pub fn default_pool_max_idle() -> (r: usize)
    ensures
        r == usize::MAX,
{
    usize::MAX
}

/// By default an idle connection is kept for 30 seconds.
pub fn default_pool_idle_timeout() -> (r: u64)
    ensures
        r == 30,
{
    30
}

/// How a configuration file is read.
#[derive(Debug, Clone, Copy, PartialEq, Eq)]
pub enum ConfigFormat {
    /// As TOML only.
    Toml,
    /// As YAML, and as TOML when it is not YAML.
    YamlThenToml,
}

/// The format of a configuration file from its extension: TOML for `.toml` in any ASCII
/// case, otherwise YAML with TOML as fallback.
pub fn config_format(extension: Option<&str>) -> (r: ConfigFormat)
    ensures
        r == (if extension matches Some(e) && ascii_lower(e@) == "toml"@ {
            ConfigFormat::Toml
        } else {
            ConfigFormat::YamlThenToml
        }),
{
    match extension {
        Some(e) => {
            if to_ascii_lowercase(e) == String::from_str("toml") {
                ConfigFormat::Toml
            } else {
                ConfigFormat::YamlThenToml
            }
        },
        None => ConfigFormat::YamlThenToml,
    }
}

/// The headers as name/value texts.
pub open spec fn headers_view(h: Seq<(String, String)>) -> Seq<(Seq<char>, Seq<char>)> {
    h.map_values(|p: (String, String)| (p.0@, p.1@))
}

/// Header names whose values are credentials, compared without ASCII case.
pub open spec fn is_secret_header_name(k: Seq<char>) -> bool {
    let l = ascii_lower(k);
    ||| l == "authorization"@
    ||| l == "proxy-authorization"@
    ||| l == "cookie"@
    ||| l == "x-api-key"@
}

/// A header as it is reported: a credential value is replaced by the marker.
pub open spec fn redact_header(h: (Seq<char>, Seq<char>)) -> (Seq<char>, Seq<char>) {
    if is_secret_header_name(h.0) {
        (h.0, redacted_marker())
    } else {
        h
    }
}

/// Whether a header name is one whose value is a credential.
pub fn is_secret_header_name_exec(k: &str) -> (r: bool)
    ensures
        r == is_secret_header_name(k@),
{
    let l = to_ascii_lowercase(k);
    if l == String::from_str("authorization") {
        true
    } else if l == String::from_str("proxy-authorization") {
        true
    } else if l == String::from_str("cookie") {
        true
    } else {
        l == String::from_str("x-api-key")
    }
}

/// The headers with every credential value masked; names and order are kept.
pub fn redact_headers(headers: &Vec<(String, String)>) -> (r: Vec<(String, String)>)
    ensures
        headers_view(r@) == headers_view(headers@).map_values(
            |h: (Seq<char>, Seq<char>)| redact_header(h),
        ),
{
    let mut r: Vec<(String, String)> = Vec::new();
    for i in 0..headers.len()
        invariant
            r@.len() == i,
            forall|j: int|
                0 <= j < i ==> (#[trigger] r@[j].0@, r@[j].1@) == redact_header(
                    (headers@[j].0@, headers@[j].1@),
                ),
    {
        let name = headers[i].0.clone();
        let value = if is_secret_header_name_exec(headers[i].0.as_str()) {
            String::from_str("***redacted***")
        } else {
            headers[i].1.clone()
        };
        r.push((name, value));
    }
    assert(headers_view(r@) =~= headers_view(headers@).map_values(
        |h: (Seq<char>, Seq<char>)| redact_header(h),
    ));
    r
}

fn clone_opt_string(s: &Option<String>) -> (r: Option<String>)
    ensures
        r == *s,
{
    match s {
        Some(p) => Some(p.clone()),
        None => None,
    }
}

impl Config {
    /// Builds a redacted snapshot of the configuration for reports.
    pub fn redacted_for_report(&self) -> (r: ConfigForReport)
        ensures
            r.target_url@ == redact_url(self.target_url@),
            headers_view(r.headers@) == headers_view(self.headers@).map_values(
                |h: (Seq<char>, Seq<char>)| redact_header(h),
            ),
            r.method@ == self.method@,
            r.payload_file == self.payload_file,
            r.duration@ == self.duration@,
            r.rate_per_sec == self.rate_per_sec,
            r.concurrency_per_process == self.concurrency_per_process,
            r.processes == self.processes,
            r.timeout_c@ == self.timeout_c@,
            r.timeout_r == self.timeout_r,
            r.verify_tls == self.verify_tls,
            r.pool_max_idle == self.pool_max_idle,
            r.pool_idle_timeout == self.pool_idle_timeout,
    {
        let headers = redact_headers(&self.headers);
        let redacted_url = redact_tokens_in_url(self.target_url.as_str());
        ConfigForReport {
            target_url: redacted_url,
            method: self.method.clone(),
            headers,
            payload_file: clone_opt_string(&self.payload_file),
            duration: self.duration.clone(),
            rate_per_sec: self.rate_per_sec,
            concurrency_per_process: self.concurrency_per_process,
            processes: self.processes,
            timeout_c: self.timeout_c.clone(),
            timeout_r: self.timeout_r,
            verify_tls: self.verify_tls,
            pool_max_idle: self.pool_max_idle,
            pool_idle_timeout: self.pool_idle_timeout,
        }
    }
}

/// Two header lists that differ at most in credential values: the same names in the same
/// order, and equal values wherever the name is not a credential name.
pub open spec fn headers_differ_in_secrets_only(
    h1: Seq<(Seq<char>, Seq<char>)>,
    h2: Seq<(Seq<char>, Seq<char>)>,
) -> bool {
    &&& h1.len() == h2.len()
    &&& forall|i: int|
        0 <= i < h1.len() ==> (#[trigger] h1[i]).0 == h2[i].0 && (h1[i].1 == h2[i].1
            || is_secret_header_name(h1[i].0))
}

/// Law: no credential flows into a report. Two configurations whose target URLs differ
/// only in credential query values and whose headers differ only in credential header
/// values have the same redacted URL and the same redacted headers; every other field of
/// the report is copied from the configuration.
pub proof fn law_report_hides_secrets(c1: Config, c2: Config)
    requires
        urls_differ_in_secrets_only(c1.target_url@, c2.target_url@),
        headers_differ_in_secrets_only(headers_view(c1.headers@), headers_view(c2.headers@)),
    ensures
        redact_url(c1.target_url@) == redact_url(c2.target_url@),
        headers_view(c1.headers@).map_values(|h: (Seq<char>, Seq<char>)| redact_header(h))
            == headers_view(c2.headers@).map_values(
            |h: (Seq<char>, Seq<char>)| redact_header(h),
        ),
{
    law_url_secrets_do_not_flow(c1.target_url@, c2.target_url@);
    let h1 = headers_view(c1.headers@);
    let h2 = headers_view(c2.headers@);
    assert forall|i: int| 0 <= i < h1.len() implies redact_header(h1[i]) == redact_header(
        h2[i],
    ) by {
        assert(h1[i].0 == h2[i].0);
    }
    assert(h1.map_values(|h: (Seq<char>, Seq<char>)| redact_header(h)) =~= h2.map_values(
        |h: (Seq<char>, Seq<char>)| redact_header(h),
    ));
}

/// The header names whose values a report masks: `authorization`, `proxy-authorization`,
/// `cookie` and `x-api-key`, each in any mix of ASCII cases.
pub open spec fn is_listed_credential_header(k: Seq<char>) -> bool {
    ||| same_name_any_case(
        k,
        seq!['a', 'u', 't', 'h', 'o', 'r', 'i', 'z', 'a', 't', 'i', 'o', 'n'],
    )
    ||| same_name_any_case(
        k,
        seq![
            'p', 'r', 'o', 'x', 'y', '-', 'a', 'u', 't', 'h', 'o', 'r', 'i', 'z', 'a', 't', 'i',
            'o', 'n',
        ],
    )
    ||| same_name_any_case(k, seq!['c', 'o', 'o', 'k', 'i', 'e'])
    ||| same_name_any_case(k, seq!['x', '-', 'a', 'p', 'i', '-', 'k', 'e', 'y'])
}

proof fn lemma_listed_header_is_secret(k: Seq<char>)
    ensures
        is_listed_credential_header(k) == is_secret_header_name(k),
{
    reveal_strlit("authorization");
    reveal_strlit("proxy-authorization");
    reveal_strlit("cookie");
    reveal_strlit("x-api-key");
    assert("authorization"@ =~= seq!['a', 'u', 't', 'h', 'o', 'r', 'i', 'z', 'a', 't', 'i', 'o', 'n']);
    assert("proxy-authorization"@ =~= seq![
        'p', 'r', 'o', 'x', 'y', '-', 'a', 'u', 't', 'h', 'o', 'r', 'i', 'z', 'a', 't', 'i', 'o',
        'n',
    ]);
    assert("cookie"@ =~= seq!['c', 'o', 'o', 'k', 'i', 'e']);
    assert("x-api-key"@ =~= seq!['x', '-', 'a', 'p', 'i', '-', 'k', 'e', 'y']);
    lemma_lower_is_name(k, "authorization"@);
    lemma_lower_is_name(k, "proxy-authorization"@);
    lemma_lower_is_name(k, "cookie"@);
    lemma_lower_is_name(k, "x-api-key"@);
}

/// Law: a header whose name is listed has `***redacted***` as its value in a report, and
/// every other header is reported as it is; the name is always kept.
pub proof fn law_credential_headers_masked(h: (Seq<char>, Seq<char>))
    ensures
        is_listed_credential_header(h.0) ==> redact_header(h) == (h.0, "***redacted***"@),
        !is_listed_credential_header(h.0) ==> redact_header(h) == h,
{
    lemma_listed_header_is_secret(h.0);
}

/// Law: in the report of a configuration, the `i`-th header has the name of the `i`-th
/// configured header, and its value is `***redacted***` when that name is listed and the
/// configured value otherwise.
pub proof fn law_report_headers(cfg: Config, r: ConfigForReport, i: int)
    requires
        headers_view(r.headers@) == headers_view(cfg.headers@).map_values(
            |h: (Seq<char>, Seq<char>)| redact_header(h),
        ),
        0 <= i < cfg.headers@.len(),
    ensures
        r.headers@.len() == cfg.headers@.len(),
        r.headers@[i].0@ == cfg.headers@[i].0@,
        is_listed_credential_header(cfg.headers@[i].0@) ==> r.headers@[i].1@
            == "***redacted***"@,
        !is_listed_credential_header(cfg.headers@[i].0@) ==> r.headers@[i].1@
            == cfg.headers@[i].1@,
{
    law_credential_headers_masked((cfg.headers@[i].0@, cfg.headers@[i].1@));
    assert(headers_view(r.headers@).len() == r.headers@.len());
    assert(headers_view(r.headers@)[i] == (r.headers@[i].0@, r.headers@[i].1@));
}

} // verus!
