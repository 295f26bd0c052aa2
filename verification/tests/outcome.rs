use rstress::histogram::quantile_us;
use rstress::metrics::Metrics;
use rstress::outcome::{transport_kind, Outcome};

fn answered(status: u16, latency_us: u64) -> Outcome {
    Outcome { status: Some(status), timed_out: false, latency_us }
}

fn failed(timed_out: bool, latency_us: u64) -> Outcome {
    Outcome { status: None, timed_out, latency_us }
}

#[test]
fn timed_out_requests_are_counted_as_timeouts() {
    assert_eq!(transport_kind(true), Some("timeout"));
    assert_eq!(transport_kind(false), None);
}

#[test]
fn outcomes_are_counted() {
    let outcomes = vec![
        answered(200, 1000),
        answered(404, 2000),
        failed(true, 250_000),
        failed(false, 3000),
        answered(201, 20_000_000),
    ];
    let m = Metrics::from_outcomes(&outcomes);
    assert_eq!(m.sent, 5);
    assert_eq!(m.ok, 2);
    assert_eq!(m.err, 3);
    assert_eq!(m.dropped, 0);
    assert_eq!(*m.codes.get(&200).unwrap(), 1);
    assert_eq!(*m.codes.get(&201).unwrap(), 1);
    assert_eq!(*m.codes.get(&404).unwrap(), 1);
    assert_eq!(*m.codes.get(&0).unwrap(), 2);
    assert_eq!(m.codes.len(), 4);
    assert_eq!(m.transport.get("timeout"), Some(1));
    assert_eq!(m.transport.len(), 1);
    // The latency above 10 s is capped.
    assert!(quantile_us(&m.hist, 100) <= 10_100_000);
    assert!(quantile_us(&m.hist, 100) >= 9_900_000);
}

#[test]
fn all_timeouts_are_classified() {
    let outcomes = vec![failed(true, 250_000), failed(true, 251_000), failed(true, 252_000)];
    let m = Metrics::from_outcomes(&outcomes);
    assert_eq!(*m.codes.get(&0).unwrap_or(&0), m.sent);
    assert_eq!(m.transport.get("timeout").unwrap_or(0), m.sent);
}

#[test]
fn no_outcomes_give_empty_counters() {
    let m = Metrics::from_outcomes(&Vec::new());
    assert_eq!(m.sent, 0);
    assert!(m.codes.is_empty());
    assert_eq!(m.transport.len(), 0);
}

#[test]
fn successes_equal_2xx_counts() {
    let outcomes = vec![answered(200, 1), answered(299, 1), answered(300, 1), answered(199, 1), failed(false, 1)];
    let m = Metrics::from_outcomes(&outcomes);
    let two_xx: u64 = m.codes.range(200..300).map(|(_, v)| *v).sum();
    assert_eq!(m.ok, two_xx);
    assert_eq!(m.ok, 2);
}

#[test]
fn merging_counts_equals_counting_all() {
    let s1 = vec![answered(200, 10), failed(true, 20), answered(500, 30)];
    let s2 = vec![answered(200, 40), failed(false, 50), failed(true, 60)];
    let mut merged = Metrics::from_outcomes(&s1);
    merged.merge(&Metrics::from_outcomes(&s2));
    let mut all = s1.clone();
    all.extend(s2.iter().copied());
    let whole = Metrics::from_outcomes(&all);
    assert_eq!(merged.sent, whole.sent);
    assert_eq!(merged.ok, whole.ok);
    assert_eq!(merged.err, whole.err);
    assert_eq!(merged.dropped, whole.dropped);
    assert_eq!(merged.codes, whole.codes);
    assert_eq!(merged.transport.entries(), whole.transport.entries());
    assert_eq!(merged.transport.get("timeout"), Some(2));
    assert_eq!(quantile_us(&merged.hist, 50), quantile_us(&whole.hist, 50));
    assert_eq!(quantile_us(&merged.hist, 100), quantile_us(&whole.hist, 100));
}

#[test]
fn stored_counts_are_never_zero() {
    let mut a = Metrics::from_outcomes(&vec![answered(200, 1), failed(true, 2)]);
    a.merge(&Metrics::new());
    a.merge(&Metrics::from_outcomes(&vec![answered(404, 3)]));
    assert!(a.codes.values().all(|v| *v >= 1));
    assert!(a.transport.entries().iter().all(|(_, v)| *v >= 1));
    assert_eq!(a.codes.values().sum::<u64>(), a.sent);
}

#[test]
fn outcomes_recorded_one_by_one() {
    let mut m = Metrics::new();
    let o = failed(true, 300);
    assert!(m.can_record_outcome(&o));
    m.record_outcome(o);
    m.record_outcome(answered(204, 10));
    assert_eq!(m.sent, 2);
    assert_eq!(m.ok, 1);
    assert_eq!(m.err, 1);
    assert_eq!(*m.codes.get(&0).unwrap(), 1);
    assert_eq!(*m.codes.get(&204).unwrap(), 1);
    assert_eq!(m.transport.get("timeout"), Some(1));
    let mut full = Metrics::new();
    full.sent = u64::MAX;
    assert!(!full.can_record_outcome(&answered(200, 1)));
}
