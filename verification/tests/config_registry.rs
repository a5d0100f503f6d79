use rcam::config::{
    password_env_var, validate_master_config, AppSettings, CaptureDeviceConfig,
    IpCameraSpecificConfig, MasterConfig, RealsenseSpecificConfig,
};
use rcam::errors::AppError;
use rcam::ipaddr::{is_valid_ipv4, is_valid_ipv6};
use rcam::manager::{determine_target_devices, parse_camera_names_arg, CameraManager};

fn app_settings() -> AppSettings {
    AppSettings {
        output_directory_base: "./output".to_string(),
        default_config_path: "config/tatbot.yaml".to_string(),
        filename_timestamp_format: "%Y%m%d_%H%M%S".to_string(),
        image_format: "jpg".to_string(),
        jpeg_quality: Some(95),
        png_compression: Some(3),
        video_format: "mp4".to_string(),
        video_codec: "h264".to_string(),
        video_fps: Some(30),
        video_duration_default_seconds: 300,
        time_sync_tolerance_seconds: Some(5),
        log_level: Some("info".to_string()),
        cgi_time_path: None,
        enable_gui: None,
        rerun_flush_timeout_secs: Some(10),
        rerun_memory_limit: None,
        rerun_drop_at_latency: None,
    }
}

fn ip_device(name: &str, ip: &str) -> CaptureDeviceConfig {
    CaptureDeviceConfig::IpCamera {
        name: name.to_string(),
        specifics: IpCameraSpecificConfig {
            ip: ip.to_string(),
            username: Some("admin".to_string()),
            http_port: None,
            rtsp_port: None,
            rtsp_path: Some("/stream".to_string()),
        },
    }
}

fn depth_device(name: &str) -> CaptureDeviceConfig {
    CaptureDeviceConfig::RealsenseCamera {
        name: name.to_string(),
        specifics: RealsenseSpecificConfig {
            serial_number: None,
            color_width: None,
            color_height: None,
            color_fps: None,
            depth_width: None,
            depth_height: None,
            depth_fps: None,
            enable_color_stream: None,
            enable_depth_stream: None,
        },
    }
}

fn config_with(cameras: Vec<CaptureDeviceConfig>) -> MasterConfig {
    MasterConfig { application: app_settings(), cameras }
}

#[test]
fn password_env_var_uppercases_and_replaces_dashes() {
    assert_eq!(password_env_var("cam-a"), "CAM_A_PASSWORD");
    assert_eq!(password_env_var("living_room2"), "LIVING_ROOM2_PASSWORD");
}

#[test]
fn ipv4_validation_accepts_addresses() {
    assert!(is_valid_ipv4("192.0.2.10"));
    assert!(is_valid_ipv4("0.0.0.0"));
    assert!(is_valid_ipv4("255.255.255.255"));
}

#[test]
fn ipv4_validation_rejects_malformed_addresses() {
    assert!(!is_valid_ipv4(""));
    assert!(!is_valid_ipv4("192.0.2"));
    assert!(!is_valid_ipv4("192.0.2.10.1"));
    assert!(!is_valid_ipv4("192.0.2.256"));
    assert!(!is_valid_ipv4("192.0.02.1"));
    assert!(!is_valid_ipv4("a.b.c.d"));
    assert!(!is_valid_ipv4("1..2.3"));
}

#[test]
fn ipv6_validation_accepts_addresses() {
    assert!(is_valid_ipv6("::"));
    assert!(is_valid_ipv6("::1"));
    assert!(is_valid_ipv6("2001:db8::1"));
    assert!(is_valid_ipv6("1:2:3:4:5:6:7:8"));
    assert!(is_valid_ipv6("fe80::"));
    assert!(is_valid_ipv6("1:2:3:4:5:6:7::"));
    assert!(is_valid_ipv6("::ffff:192.0.2.1"));
    assert!(is_valid_ipv6("1:2:3:4:5:6:192.0.2.1"));
    assert!(is_valid_ipv6("ABCD:ef01::1"));
}

#[test]
fn ipv6_validation_rejects_malformed_addresses() {
    assert!(!is_valid_ipv6(""));
    assert!(!is_valid_ipv6(":"));
    assert!(!is_valid_ipv6(":::"));
    assert!(!is_valid_ipv6("1:::2"));
    assert!(!is_valid_ipv6("1::2::3"));
    assert!(!is_valid_ipv6("1:2:3:4:5:6:7"));
    assert!(!is_valid_ipv6("1:2:3:4:5:6:7:8:9"));
    assert!(!is_valid_ipv6("1:2:3:4:5:6:7:8::"));
    assert!(!is_valid_ipv6("12345::"));
    assert!(!is_valid_ipv6("g::1"));
    assert!(!is_valid_ipv6("192.0.2.1"));
    assert!(!is_valid_ipv6("::192.0.02.1"));
}

#[test]
fn validate_accepts_ipv6_device_addresses() {
    let cfg = config_with(vec![ip_device("cam_a", "::1"), ip_device("cam_b", "2001:db8::1")]);
    assert!(validate_master_config(&cfg).is_ok());
}

#[test]
fn validate_accepts_a_sound_config() {
    let cfg = config_with(vec![ip_device("cam_a", "192.0.2.10"), depth_device("depth_1")]);
    assert!(validate_master_config(&cfg).is_ok());
}

#[test]
fn validate_rejects_duplicate_names() {
    let cfg = config_with(vec![ip_device("cam_a", "192.0.2.10"), ip_device("cam_a", "192.0.2.11")]);
    match validate_master_config(&cfg) {
        Err(AppError::Config(_)) => {}
        other => panic!("expected a configuration error, got {:?}", other),
    }
}

#[test]
fn validate_rejects_bad_ip_and_empty_fields() {
    let cfg = config_with(vec![ip_device("cam_a", "not-an-ip")]);
    assert!(validate_master_config(&cfg).is_err());
    let mut cfg = config_with(vec![ip_device("cam_a", "192.0.2.10")]);
    cfg.application.output_directory_base = String::new();
    assert!(validate_master_config(&cfg).is_err());
    let cfg = config_with(vec![]);
    assert!(validate_master_config(&cfg).is_err());
}

#[test]
fn registry_build_fails_fast_on_duplicates() {
    let cfg = config_with(vec![ip_device("cam_a", "192.0.2.10"), ip_device("cam_a", "192.0.2.11")]);
    match CameraManager::new(cfg) {
        Err(AppError::Config(_)) => {}
        other => panic!("expected a configuration error, got {:?}", other.map(|_| ())),
    }
}

#[test]
fn registry_is_a_table_of_all_configured_devices() {
    let cfg = config_with(vec![
        ip_device("cam_a", "192.0.2.10"),
        ip_device("cam_b", "192.0.2.11"),
        depth_device("depth_1"),
    ]);
    let m = CameraManager::new(cfg).unwrap();
    assert_eq!(m.len(), 3);
    assert_eq!(m.get_all_devices(), vec![0, 1, 2]);
    assert_eq!(m.device(1).get_name(), "cam_b");
}

#[test]
fn registry_build_is_idempotent_for_identical_configuration() {
    let cfg1 = config_with(vec![ip_device("cam_a", "192.0.2.10"), ip_device("cam_b", "192.0.2.11")]);
    let cfg2 = config_with(vec![ip_device("cam_a", "192.0.2.10"), ip_device("cam_b", "192.0.2.11")]);
    let m1 = CameraManager::new(cfg1).unwrap();
    let m2 = CameraManager::new(cfg2).unwrap();
    assert_eq!(m1.len(), m2.len());
    for i in 0..m1.len() {
        assert_eq!(m1.device(i).get_name(), m2.device(i).get_name());
    }
}

#[test]
fn resolve_keeps_request_order_dedups_and_skips_unknown() {
    let cfg = config_with(vec![
        ip_device("cam_a", "192.0.2.10"),
        ip_device("cam_b", "192.0.2.11"),
        depth_device("depth_1"),
    ]);
    let m = CameraManager::new(cfg).unwrap();
    let names = vec![
        "cam_b".to_string(),
        "ghost".to_string(),
        "cam_a".to_string(),
        "cam_b".to_string(),
    ];
    assert_eq!(m.get_devices_by_names(&names), vec![1, 0]);
}

#[test]
fn selector_all_and_absent_target_every_device() {
    let cfg = config_with(vec![ip_device("cam_a", "192.0.2.10"), ip_device("cam_b", "192.0.2.11")]);
    let m = CameraManager::new(cfg).unwrap();
    assert_eq!(determine_target_devices(&m, None), vec![0, 1]);
    let all = "All".to_string();
    assert_eq!(determine_target_devices(&m, Some(&all)), vec![0, 1]);
    let some = " cam_b , cam_a ".to_string();
    assert_eq!(determine_target_devices(&m, Some(&some)), vec![1, 0]);
}

#[test]
fn parse_camera_names_trims_and_drops_empties() {
    let arg = "cam_a, cam_b ,, cam_c ".to_string();
    let parsed = parse_camera_names_arg(Some(&arg)).unwrap();
    assert_eq!(parsed, vec!["cam_a".to_string(), "cam_b".to_string(), "cam_c".to_string()]);
    assert!(parse_camera_names_arg(None).is_none());
}

#[test]
fn leases_serialize_operations_per_device() {
    let cfg = config_with(vec![ip_device("cam_a", "192.0.2.10")]);
    let mut m = CameraManager::new(cfg).unwrap();
    assert!(m.acquire_lease(0));
    // the handle is held: a second concurrent operation must not start
    assert!(!m.acquire_lease(0));
    m.release_lease(0);
    assert!(m.acquire_lease(0));
}

#[test]
fn default_settings_are_the_documented_ones() {
    let s = AppSettings::default();
    assert_eq!(s.output_directory_base, "./output");
    assert_eq!(s.image_format, "jpg");
    assert_eq!(s.jpeg_quality, Some(95));
    assert_eq!(s.png_compression, Some(3));
    assert_eq!(s.video_format, "mp4");
    assert_eq!(s.video_codec, "copy");
    assert_eq!(s.video_fps, Some(25));
    assert_eq!(s.video_duration_default_seconds, 300);
    assert_eq!(s.time_sync_tolerance_seconds, Some(5));
    assert_eq!(s.cgi_time_path, None);
}
