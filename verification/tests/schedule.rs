use rstress::config::{config_format, ConfigFormat};
use rstress::schedule::{
    before_deadline, check_process_count, duration_text_fits, plan_run, request_outcome,
    worker_deadline, worker_rate, Deadline, RunError,
};
use rstress::status::is_ok_status;

#[test]
fn rate_is_split_evenly() {
    assert_eq!(worker_rate(10, 3, 0), 4);
    assert_eq!(worker_rate(10, 3, 1), 3);
    assert_eq!(worker_rate(10, 3, 2), 3);
    assert_eq!(worker_rate(5, 1, 0), 5);
    assert_eq!(worker_rate(1, 2, 1), 0);
    for p in 1..8usize {
        for rate in [0u32, 1, 7, 100, u32::MAX] {
            let total: u64 = (0..p).map(|id| worker_rate(rate, p, id) as u64).sum();
            assert_eq!(total, rate as u64);
        }
    }
}

#[test]
fn process_count_is_checked() {
    assert_eq!(check_process_count(0, 8), Err(RunError::NoProcesses));
    assert_eq!(
        check_process_count(5, 8),
        Err(RunError::TooManyProcesses { processes: 5, max_cores: 8, recommended: 4 })
    );
    assert_eq!(check_process_count(4, 8), Ok(()));
    assert_eq!(check_process_count(1, 1), Ok(()));
    assert_eq!(
        check_process_count(2, 1),
        Err(RunError::TooManyProcesses { processes: 2, max_cores: 1, recommended: 0 })
    );
}

#[test]
fn first_process_starts_the_others() {
    let p = plan_run(None, 3);
    assert_eq!(p.worker_id, 0);
    assert_eq!(p.spawn_ids, vec![1, 2]);
    let p = plan_run(None, 1);
    assert!(p.spawn_ids.is_empty());
    let p = plan_run(Some(2), 3);
    assert_eq!(p.worker_id, 2);
    assert!(p.spawn_ids.is_empty());
}

#[test]
fn outcomes_are_classified() {
    assert_eq!(request_outcome(Some(200)), (true, Some(200)));
    assert_eq!(request_outcome(Some(299)), (true, Some(299)));
    assert_eq!(request_outcome(Some(404)), (false, Some(404)));
    assert_eq!(request_outcome(None), (false, None));
    assert!(is_ok_status(204));
    assert!(!is_ok_status(199));
    assert!(!is_ok_status(300));
}

#[test]
fn deadlines_and_durations() {
    let d = worker_deadline("1s 500ms").unwrap();
    assert_eq!((d.secs, d.nanos), (1, 500_000_000));
    assert!(worker_deadline("later").is_err());
    let d = Deadline { secs: d.secs, nanos: d.nanos };
    assert!(before_deadline(&d, 0, 999_999_999));
    assert!(before_deadline(&d, 1, 499_999_999));
    assert!(!before_deadline(&d, 1, 500_000_000));
    assert!(!before_deadline(&d, 2, 0));
}

#[test]
fn config_format_follows_extension() {
    assert_eq!(config_format(Some("toml")), ConfigFormat::Toml);
    assert_eq!(config_format(Some("TOML")), ConfigFormat::Toml);
    assert_eq!(config_format(Some("yaml")), ConfigFormat::YamlThenToml);
    assert_eq!(config_format(None), ConfigFormat::YamlThenToml);
}

#[test]
fn duration_texts_that_fit() {
    assert!(duration_text_fits("30s"));
    assert!(duration_text_fits("1h 30m 15s 250ms"));
    assert!(duration_text_fits("100000000000ns"));
    assert!(duration_text_fits("600000000000s"));
    assert!(duration_text_fits("584542046089y"));
    assert!(!duration_text_fits("584542046090y"));
    assert!(duration_text_fits("18446744073709551614s"));
    assert!(!duration_text_fits("18446744073709551615s 500ms 500ms"));
    assert!(!duration_text_fits("5124095576030431h15s1000ms"));
    // humantime reads digits separated by blanks as one number.
    assert!(!duration_text_fits("1 8 4 4 6 7 4 4 0 7 3 7 0 9 5 5 1 6 1 5s 1000000000ns"));
    assert!(duration_text_fits("1 5s"));
}

#[test]
fn largest_fitting_durations_are_parsed() {
    let d = worker_deadline("584542046089y").ok().unwrap();
    assert_eq!(d.secs, 584_542_046_089 * 31_557_600);
    assert_eq!(d.nanos, 0);
    let d = worker_deadline("18446744073709551614s").ok().unwrap();
    assert_eq!(d.secs, 18_446_744_073_709_551_614);
    let d = worker_deadline("1 5s").ok().unwrap();
    assert_eq!(d.secs, 15);
}
