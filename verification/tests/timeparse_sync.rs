use rcam::entity::CameraController;
use rcam::errors::AppError;
use rcam::timeparse::{parse_device_time, parse_timestamp, CivilDateTime};
use rcam::timesync::{verify_times, DeviceTimeSample, SyncStatus, TimestampBundle};

fn epoch(body: &str) -> i64 {
    parse_device_time(body).unwrap()
}

#[test]
fn each_configured_format_parses_on_its_own() {
    assert_eq!(epoch("2023-10-27 10:30:00"), 1698402600);
    assert_eq!(epoch("2023-10-27T10:30:00Z"), 1698402600);
    assert_eq!(epoch("2023-10-27T10:30:00+0530"), 1698382800);
    assert_eq!(epoch("2023-10-27 10:30:00+05:30"), 1698382800);
    assert_eq!(epoch("2023-10-27 10:30:00-0700"), 1698427800);
}

#[test]
fn epoch_conversion_matches_the_calendar() {
    assert_eq!(epoch("1970-01-01 00:00:00"), 0);
    assert_eq!(epoch("2000-02-29 23:59:59"), 951868799);
    assert_eq!(epoch("1999-12-31 23:59:59"), 946684799);
    assert_eq!(epoch("2024-01-01 00:00:00"), 1704067200);
}

#[test]
fn parse_rejects_impossible_dates() {
    assert!(parse_device_time("2023-02-29 10:00:00").is_err());
    assert!(parse_device_time("2023-13-01 10:00:00").is_err());
    assert!(parse_device_time("2023-04-31 10:00:00").is_err());
    assert!(parse_device_time("2023-10-27 24:00:00").is_err());
    assert!(parse_device_time("2023-10-27 10:60:00").is_err());
}

#[test]
fn tolerant_parse_strips_quotes_and_whitespace() {
    assert_eq!(epoch("  \"2023-10-27 10:30:00\"  "), 1698402600);
    assert_eq!(epoch("'2023-10-27T10:30:00Z'\n"), 1698402600);
}

#[test]
fn tolerant_parse_scans_whitespace_separated_tokens() {
    assert_eq!(epoch("time 2023-10-27T10:30:00Z end"), 1698402600);
}

#[test]
fn tolerant_parse_reads_the_assignment_tail() {
    assert_eq!(epoch("var sys_time=\"2023-10-27T10:30:00Z\";"), 1698402600);
}

#[test]
fn unparseable_bodies_are_rejected() {
    assert!(matches!(parse_device_time("no time here"), Err(AppError::Operation(_))));
    assert!(parse_device_time("").is_err());
    assert!(parse_device_time("sys_time=yesterday").is_err());
}

#[test]
fn controller_judges_time_responses() {
    let controller = CameraController::new();
    assert_eq!(
        controller.parse_time_response("sys_time=\"2023-10-27 10:30:00\"").unwrap(),
        1698402600
    );
    assert!(controller.parse_time_response("garbage").is_err());
}

#[test]
fn parse_timestamp_returns_the_civil_fields() {
    let c = parse_timestamp("2023-10-27T10:30:05+0530").unwrap();
    assert_eq!(
        c,
        CivilDateTime {
            year: 2023,
            month: 10,
            day: 27,
            hour: 10,
            minute: 30,
            second: 5,
            offset_minutes: 330,
        }
    );
}

fn sample(name: &str, time: Result<i64, AppError>) -> DeviceTimeSample {
    DeviceTimeSample { name: name.to_string(), time }
}

#[test]
fn drift_analysis_across_three_devices() {
    // host_utc = T; device times T-1s, T+2s, T+7s; tolerance 5 s
    let t = 1_700_000_000i64;
    let bundle = TimestampBundle {
        host_utc: t,
        samples: vec![
            sample("a", Ok(t - 1)),
            sample("b", Ok(t + 2)),
            sample("c", Ok(t + 7)),
        ],
    };
    let report = verify_times(&bundle, 5);
    assert_eq!(report.per_device.len(), 3);
    assert_eq!(report.per_device[0].status, SyncStatus::InSync);
    assert_eq!(report.per_device[1].status, SyncStatus::InSync);
    assert_eq!(report.per_device[2].status, SyncStatus::OutOfSync);
    assert_eq!(report.per_device[2].drift_seconds, Some(7));
    // all three unordered pairs are compared
    assert_eq!(report.pairwise.len(), 3);
    let find = |x: usize, y: usize| {
        report
            .pairwise
            .iter()
            .find(|p| p.first == x && p.second == y)
            .expect("missing pair")
    };
    // a vs b: 3 s apart, within tolerance
    assert!(find(0, 1).in_sync);
    assert_eq!(find(0, 1).drift_seconds, 3);
    // a vs c: 8 s apart, out of sync
    assert!(!find(0, 2).in_sync);
    assert_eq!(find(0, 2).drift_seconds, 8);
    // b vs c: exactly at the 5 s tolerance; only drift beyond the
    // tolerance is flagged
    assert!(find(1, 2).in_sync);
    assert_eq!(find(1, 2).drift_seconds, 5);
}

#[test]
fn failed_queries_are_unknown_and_never_fail_the_run() {
    let bundle = TimestampBundle {
        host_utc: 1000,
        samples: vec![
            sample("a", Ok(1002)),
            sample("b", Err(AppError::Network("timeout".to_string()))),
        ],
    };
    let report = verify_times(&bundle, 1);
    assert_eq!(report.per_device[0].status, SyncStatus::OutOfSync);
    assert_eq!(report.per_device[1].status, SyncStatus::Unknown);
    assert_eq!(report.per_device[1].drift_seconds, None);
    assert!(report.pairwise.is_empty());
}

#[test]
fn one_sample_means_absolute_check_only() {
    let bundle = TimestampBundle {
        host_utc: 1000,
        samples: vec![sample("a", Ok(1003))],
    };
    let report = verify_times(&bundle, 5);
    assert_eq!(report.per_device.len(), 1);
    assert_eq!(report.per_device[0].status, SyncStatus::InSync);
    // no pairwise comparison is performed
    assert!(report.pairwise.is_empty());
}
