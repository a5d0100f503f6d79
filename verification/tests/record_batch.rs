use rcam::batch::{
    aggregate_outcomes, check_frame_dimensions, collect_snapshot_outcomes, judge_recording,
    plan_batch, plan_recording, simulate_record, BatchStatus, CameraMediaManager, DeviceOutcome,
    PlannedCapture, ReadOutcome, ShutterSync,
};
use rcam::config::{
    AppSettings, CaptureDeviceConfig, IpCameraSpecificConfig, MasterConfig,
};
use rcam::errors::AppError;
use rcam::manager::CameraManager;

fn settings(codec: &str, container: &str, fps: Option<u32>) -> AppSettings {
    AppSettings {
        output_directory_base: "./output".to_string(),
        default_config_path: "config/tatbot.yaml".to_string(),
        filename_timestamp_format: "%Y%m%d_%H%M%S".to_string(),
        image_format: "jpg".to_string(),
        jpeg_quality: Some(95),
        png_compression: Some(3),
        video_format: container.to_string(),
        video_codec: codec.to_string(),
        video_fps: fps,
        video_duration_default_seconds: 300,
        time_sync_tolerance_seconds: Some(5),
        log_level: None,
        cgi_time_path: None,
        enable_gui: None,
        rerun_flush_timeout_secs: None,
        rerun_memory_limit: None,
        rerun_drop_at_latency: None,
    }
}

fn ip_device(name: &str, ip: &str) -> CaptureDeviceConfig {
    CaptureDeviceConfig::IpCamera {
        name: name.to_string(),
        specifics: IpCameraSpecificConfig {
            ip: ip.to_string(),
            username: Some("admin".to_string()),
            http_port: None,
            rtsp_port: None,
            rtsp_path: Some("/stream".to_string()),
        },
    }
}

#[test]
fn recording_plan_for_h264_mp4() {
    let s = settings("h264", "mp4", Some(30));
    let plan = plan_recording(&s, "cam_a", "20240101_120000", 5, true).unwrap();
    assert_eq!(plan.fourcc, "avc1");
    assert!(!plan.warn_unknown_codec);
    assert_eq!(plan.fps, 30);
    assert!(!plan.warn_fps);
    // round(5 x configured_fps) frames are planned
    assert_eq!(plan.num_frames, 150);
    assert_eq!(plan.filename, "cam_a_20240101_120000.mp4");
}

#[test]
fn recording_plan_warns_on_unknown_codec_and_bad_device_fps() {
    let s = settings("copy", "mp4", None);
    let plan = plan_recording(&s, "cam_a", "ts", 2, false).unwrap();
    assert_eq!(plan.fourcc, "MJPG");
    assert!(plan.warn_unknown_codec);
    assert_eq!(plan.fps, 30);
    assert!(plan.warn_fps);
    assert_eq!(plan.num_frames, 60);
}

#[test]
fn zero_configured_fps_is_rejected_per_device() {
    let s = settings("h264", "mp4", Some(0));
    assert!(matches!(
        plan_recording(&s, "cam_a", "ts", 5, true),
        Err(AppError::Config(_))
    ));
}

#[test]
fn device_frame_dimensions_are_validated_before_the_writer_opens() {
    assert_eq!(check_frame_dimensions(640, 480).unwrap(), (640, 480));
    assert!(matches!(check_frame_dimensions(0, 480), Err(AppError::OpenCV(_))));
    assert!(matches!(check_frame_dimensions(640, -1), Err(AppError::OpenCV(_))));
    assert!(matches!(
        check_frame_dimensions(4294967296, 480),
        Err(AppError::OpenCV(_))
    ));
}

#[test]
fn zero_duration_writes_no_frames_and_succeeds_with_warning() {
    let s = settings("h264", "mp4", Some(25));
    let plan = plan_recording(&s, "cam_a", "ts", 0, true).unwrap();
    assert_eq!(plan.num_frames, 0);
    let progress = simulate_record(&Vec::new());
    assert_eq!(progress.frames_written, 0);
    assert!(!progress.aborted);
    let (result, warn_empty) = judge_recording(&progress);
    assert!(result.is_ok());
    assert!(warn_empty);
}

#[test]
fn five_consecutive_read_failures_abort_with_a_transport_error() {
    let outcomes = vec![
        ReadOutcome::Frame,
        ReadOutcome::ReadError,
        ReadOutcome::ReadError,
        ReadOutcome::ReadError,
        ReadOutcome::ReadError,
        ReadOutcome::ReadError,
        // nothing after the abort is written
        ReadOutcome::Frame,
    ];
    let progress = simulate_record(&outcomes);
    assert!(progress.aborted);
    assert_eq!(progress.frames_written, 1);
    let (result, warn_empty) = judge_recording(&progress);
    assert!(matches!(result, Err(AppError::Rtsp(_))));
    assert!(!warn_empty);
}

#[test]
fn transient_failures_within_the_budget_do_not_abort() {
    // four consecutive failures, then recovery: the budget is five
    let mut outcomes = vec![ReadOutcome::Frame; 10];
    outcomes.splice(3..3, vec![ReadOutcome::ReadError; 4]);
    outcomes.push(ReadOutcome::EmptyFrame);
    let progress = simulate_record(&outcomes);
    assert!(!progress.aborted);
    // empty frames are skipped, not written
    assert_eq!(progress.frames_written, 10);
    assert!(judge_recording(&progress).0.is_ok());
}

#[test]
fn batch_plan_shares_one_timestamp_across_devices() {
    let cfg = MasterConfig {
        application: settings("h264", "mp4", Some(30)),
        cameras: vec![
            ip_device("a", "192.0.2.1"),
            ip_device("b", "192.0.2.2"),
            ip_device("c", "192.0.2.3"),
        ],
    };
    let m = CameraManager::new(cfg).unwrap();
    let targets = m.get_all_devices();
    let plan: Vec<PlannedCapture> = plan_batch(&m, &targets, "20240101_120000", "jpg");
    assert_eq!(plan.len(), 3);
    assert_eq!(plan[0].filename, "a_20240101_120000.jpg");
    assert_eq!(plan[1].filename, "b_20240101_120000.jpg");
    assert_eq!(plan[2].filename, "c_20240101_120000.jpg");
    for p in &plan {
        // every filename carries the same timestamp token
        assert!(p.filename.ends_with("_20240101_120000.jpg"));
    }
}

#[test]
fn collected_outcomes_carry_one_planned_artifact_per_success() {
    let plan = vec![
        PlannedCapture {
            device_index: 0,
            name: "cam_a".to_string(),
            filename: "cam_a_ts.jpg".to_string(),
        },
        PlannedCapture {
            device_index: 1,
            name: "cam_b".to_string(),
            filename: "cam_b_ts.jpg".to_string(),
        },
    ];
    let results = vec![
        Ok(()),
        Err(AppError::Network("unreachable".to_string())),
    ];
    let outcomes = collect_snapshot_outcomes(&plan, "/out", results);
    assert_eq!(outcomes.len(), 2);
    assert_eq!(outcomes[0].name, "cam_a");
    assert_eq!(
        outcomes[0].result.as_ref().unwrap(),
        &vec!["/out/cam_a_ts.jpg".to_string()]
    );
    assert_eq!(outcomes[1].name, "cam_b");
    assert!(matches!(&outcomes[1].result, Err(AppError::Network(m)) if m == "unreachable"));
    let batch = aggregate_outcomes(outcomes);
    assert_eq!(batch.status, BatchStatus::Partial);
}

#[test]
fn one_filename_per_successful_outcome() {
    let outcomes = vec![
        DeviceOutcome { name: "a".to_string(), result: Ok(vec!["out/a_ts.jpg".to_string()]) },
        DeviceOutcome {
            name: "b".to_string(),
            result: Err(AppError::HttpCgi("status 500".to_string())),
        },
        DeviceOutcome { name: "c".to_string(), result: Ok(vec!["out/c_ts.jpg".to_string()]) },
    ];
    let batch = aggregate_outcomes(outcomes);
    let filenames: Vec<&String> = batch
        .outcomes
        .iter()
        .filter_map(|o| o.result.as_ref().ok())
        .flatten()
        .collect();
    let successes = batch.outcomes.iter().filter(|o| o.result.is_ok()).count();
    assert_eq!(filenames.len(), successes);
    assert_eq!(batch.status, BatchStatus::Partial);
}

#[test]
fn empty_batch_is_an_empty_success() {
    let batch = aggregate_outcomes(Vec::new());
    assert_eq!(batch.status, BatchStatus::AllOk);
    assert!(batch.outcomes.is_empty());
}

#[test]
fn all_failed_batch_is_reported_as_such() {
    let outcomes = vec![DeviceOutcome {
        name: "a".to_string(),
        result: Err(AppError::Network("unreachable".to_string())),
    }];
    assert_eq!(aggregate_outcomes(outcomes).status, BatchStatus::AllFailed);
}

#[test]
fn shutter_releases_only_when_all_parties_arrived() {
    let mut barrier = ShutterSync::new(3);
    assert!(!barrier.arrive());
    assert!(!barrier.released);
    assert!(!barrier.arrive());
    assert!(!barrier.released);
    // the last worker's arrival releases every reader
    assert!(barrier.arrive());
    assert!(barrier.released);
    assert_eq!(barrier.arrived, barrier.parties);
}

#[test]
fn stream_handles_are_created_lazily_and_reused() {
    let mut media = CameraMediaManager::new();
    assert!(!media.get_or_init("cam_a"));
    assert!(!media.get_or_init("cam_b"));
    // the second request for the same device reuses the open handle
    assert!(media.get_or_init("cam_a"));
    assert_eq!(media.open_streams.len(), 2);
}
