use rstress::histogram::quantile_us;
use rstress::metrics::Metrics;

#[test]
fn record_and_merge() {
    let mut a = Metrics::new();
    a.record(true, 1000, Some(200));
    a.record(false, 2000, None); // transport → code 0
    a.record_dropped(100);

    assert_eq!(a.sent, 2);
    assert_eq!(a.ok, 1);
    assert_eq!(a.err, 1);
    assert_eq!(*a.codes.get(&200).unwrap(), 1);
    assert_eq!(*a.codes.get(&0).unwrap(), 1);
    assert_eq!(a.dropped, 100);

    let mut b = Metrics::new();
    b.record(true, 1500, Some(201));
    a.merge(&b);

    assert_eq!(a.sent, 3);
    assert_eq!(*a.codes.get(&201).unwrap(), 1);
}

#[test]
fn new_metrics_are_empty() {
    let m = Metrics::new();
    assert_eq!(m.sent, 0);
    assert_eq!(m.ok, 0);
    assert_eq!(m.err, 0);
    assert_eq!(m.dropped, 0);
    assert!(m.codes.is_empty());
    assert_eq!(m.transport.len(), 0);
    assert_eq!(quantile_us(&m.hist, 50), 0);
    let d = Metrics::default();
    assert_eq!(d.sent, 0);
}

#[test]
fn quantiles_follow_recorded_latencies() {
    let mut m = Metrics::new();
    m.record(true, 1000, Some(200));
    assert_eq!(quantile_us(&m.hist, 50), 1000);
    assert_eq!(quantile_us(&m.hist, 99), 1000);
    m.record(true, 1500, Some(200));
    m.record(true, 1700, Some(200));
    assert_eq!(quantile_us(&m.hist, 50), 1500);
    assert_eq!(quantile_us(&m.hist, 100), 1700);
}

#[test]
fn latencies_are_capped_at_ten_seconds() {
    let mut m = Metrics::new();
    m.record(true, 50_000_000, Some(200));
    let p = quantile_us(&m.hist, 100);
    assert!(p >= 10_000_000 && p < 10_100_000);
}

#[test]
fn every_request_counts_once() {
    let mut m = Metrics::new();
    for i in 0..50u64 {
        let code = if i % 5 == 0 { None } else { Some(200 + (i % 3) as u16) };
        let ok = code.map(rstress::status::is_ok_status).unwrap_or(false);
        assert!(m.can_record(ok, code));
        m.record(ok, i * 10, code);
    }
    assert_eq!(m.sent, 50);
    assert_eq!(m.ok + m.err, m.sent);
    let total: u64 = m.codes.values().sum();
    assert_eq!(total, m.sent);
    assert_eq!(*m.codes.get(&0).unwrap(), 10);
}

#[test]
fn merge_adds_everything() {
    let mut a = Metrics::new();
    a.record(true, 10, Some(200));
    a.record_transport_kind("timeout");
    a.record_dropped(3);
    let mut b = Metrics::new();
    b.record(false, 20, Some(500));
    b.record(true, 30, Some(200));
    b.record_transport_kind("timeout");
    b.record_transport_kind("connect");
    b.record_dropped(4);
    a.merge(&b);
    assert_eq!(a.sent, 3);
    assert_eq!(a.ok, 2);
    assert_eq!(a.err, 1);
    assert_eq!(a.dropped, 7);
    assert_eq!(*a.codes.get(&200).unwrap(), 2);
    assert_eq!(*a.codes.get(&500).unwrap(), 1);
    assert_eq!(a.transport.get("timeout"), Some(2));
    assert_eq!(a.transport.get("connect"), Some(1));
    assert_eq!(a.transport.get("dns"), None);
    assert_eq!(quantile_us(&a.hist, 100), 30);
}

#[test]
fn merge_with_empty_changes_nothing() {
    let mut a = Metrics::new();
    a.record(true, 10, Some(204));
    a.merge(&Metrics::new());
    assert_eq!(a.sent, 1);
    assert_eq!(a.codes.len(), 1);
    assert_eq!(*a.codes.get(&204).unwrap(), 1);
}

#[test]
fn transport_kinds_are_kept_in_name_order() {
    let mut m = Metrics::new();
    m.record_transport_kind("timeout");
    m.record_transport_kind("connect");
    m.record_transport_kind("timeout");
    m.record_transport_kind("body");
    let e = m.transport.entries();
    let names: Vec<&str> = e.iter().map(|(k, _)| k.as_str()).collect();
    assert_eq!(names, vec!["body", "connect", "timeout"]);
    assert_eq!(m.transport.get("timeout"), Some(2));
    let copy = m.transport.clone();
    assert_eq!(copy.entries(), e);
}

#[test]
fn can_record_refuses_a_full_counter() {
    let mut m = Metrics::new();
    m.sent = u64::MAX;
    assert!(!m.can_record(true, Some(200)));
}

#[test]
fn merge_equals_replaying_both_runs() {
    let run1 = |m: &mut Metrics| {
        m.record(true, 100, Some(200));
        m.record_dropped(3);
        m.record_transport_kind("timeout");
        m.record(false, 50_000_000, None);
    };
    let run2 = |m: &mut Metrics| {
        m.record(false, 700, Some(503));
        m.record_transport_kind("timeout");
        m.record_dropped(2);
        m.record(true, 100, Some(200));
    };
    let mut a = Metrics::new();
    run1(&mut a);
    let mut b = Metrics::new();
    run2(&mut b);
    let mut both = Metrics::new();
    run1(&mut both);
    run2(&mut both);

    let mut ab = a.clone();
    ab.merge(&b);
    let mut ba = b.clone();
    ba.merge(&a);
    for m in [&ab, &ba] {
        assert_eq!(m.sent, both.sent);
        assert_eq!(m.ok, both.ok);
        assert_eq!(m.err, both.err);
        assert_eq!(m.dropped, both.dropped);
        assert_eq!(m.codes, both.codes);
        assert_eq!(m.transport.entries(), both.transport.entries());
        assert_eq!(quantile_us(&m.hist, 50), quantile_us(&both.hist, 50));
        assert_eq!(quantile_us(&m.hist, 100), quantile_us(&both.hist, 100));
    }
    assert_eq!(both.dropped, 5);
    assert_eq!(both.transport.get("timeout"), Some(2));

    let mut same = a.clone();
    same.merge(&Metrics::new());
    assert_eq!(same.sent, a.sent);
    assert_eq!(same.codes, a.codes);
    assert_eq!(same.dropped, a.dropped);
}
