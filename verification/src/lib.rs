//! Verified core of the `rstress` HTTP load tester.

pub mod status;
pub mod text;
pub mod redact;
pub mod request;
pub mod http;
pub mod schedule;
pub mod cli;
pub mod config;
pub mod format;
pub mod histogram;
pub mod kinds;
pub mod metrics;
pub mod outcome;
pub mod replay;
