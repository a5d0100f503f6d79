use rcam::errors::AppError;
use rcam::frames::{FrameData, RsColorFrameData, RsDepthFrameData};
use rcam::png::{
    color_png_round_trip, decode_color_png, decode_depth_png, depth_png_round_trip,
    encode_color_frame, encode_depth_frame,
};
use rcam::realsense::{bgr_to_rgb, select_device_serial, RealsenseDevice, StreamRequest};
use rcam::config::RealsenseSpecificConfig;

fn rs_config() -> RealsenseSpecificConfig {
    RealsenseSpecificConfig {
        serial_number: None,
        color_width: Some(640),
        color_height: Some(480),
        color_fps: Some(30),
        depth_width: Some(640),
        depth_height: Some(480),
        depth_fps: Some(30),
        enable_color_stream: Some(true),
        enable_depth_stream: Some(true),
    }
}

fn color_frame() -> RsColorFrameData {
    RsColorFrameData {
        rgb_data: vec![255, 0, 0, 0, 255, 0, 0, 0, 255, 17, 34, 51],
        width: 2,
        height: 2,
    }
}

fn depth_frame() -> RsDepthFrameData {
    RsDepthFrameData {
        depth_data: vec![0, 1, 65535, 1234],
        depth_unit_micrometers: 1000,
        width: 2,
        height: 2,
    }
}

#[test]
fn color_frame_png_round_trip_is_lossless() {
    let f = color_frame();
    let (pixels, w, h) = color_png_round_trip(&f).expect("encoding failed");
    assert_eq!(pixels, f.rgb_data);
    assert_eq!((w, h), (2, 2));
}

#[test]
fn depth_frame_png_round_trip_is_lossless_and_keeps_the_unit() {
    let f = depth_frame();
    let (values, w, h) = depth_png_round_trip(&f).expect("encoding failed");
    assert_eq!(values, f.depth_data);
    assert_eq!((w, h), (2, 2));
    // the depth unit travels beside the pixels, unchanged
    assert_eq!(f.depth_unit_micrometers, 1000);
}

#[test]
fn encoded_color_png_decodes_to_the_same_pixels() {
    let f = color_frame();
    let bytes = encode_color_frame(&f).unwrap();
    let (pixels, w, h) = decode_color_png(&bytes).unwrap();
    assert_eq!(pixels, f.rgb_data);
    assert_eq!((w, h), (2, 2));
}

#[test]
fn encoded_depth_png_decodes_to_the_same_values() {
    let f = depth_frame();
    let bytes = encode_depth_frame(&f).unwrap();
    let (values, w, h) = decode_depth_png(&bytes).unwrap();
    assert_eq!(values, f.depth_data);
    assert_eq!((w, h), (2, 2));
}

#[test]
fn degenerate_dimensions_do_not_encode() {
    // a zero-dimension frame is well-formed but PNG cannot represent it
    let f = RsColorFrameData { rgb_data: Vec::new(), width: 0, height: 2 };
    assert!(matches!(encode_color_frame(&f), Err(AppError::Media(_))));
    assert!(color_png_round_trip(&f).is_none());
    let d = RsDepthFrameData {
        depth_data: Vec::new(),
        depth_unit_micrometers: 1000,
        width: 3,
        height: 0,
    };
    assert!(matches!(encode_depth_frame(&d), Err(AppError::Media(_))));
    assert!(depth_png_round_trip(&d).is_none());
}

#[test]
fn garbage_bytes_do_not_decode() {
    assert!(decode_color_png(&vec![1, 2, 3, 4]).is_none());
    assert!(decode_depth_png(&Vec::new()).is_none());
}

#[test]
fn bgr_to_rgb_swaps_each_pixel() {
    let bgr = vec![1, 2, 3, 4, 5, 6];
    assert_eq!(bgr_to_rgb(&bgr), vec![3, 2, 1, 6, 5, 4]);
    assert_eq!(bgr_to_rgb(&Vec::new()), Vec::<u8>::new());
}

#[test]
fn stream_plan_enables_both_streams_at_the_configured_mode() {
    let dev = RealsenseDevice::new("depth_1".to_string(), rs_config());
    let plan = dev.build_stream_plan().unwrap();
    assert_eq!(plan.color, Some(StreamRequest { width: 640, height: 480, fps: 30 }));
    assert_eq!(plan.depth, Some(StreamRequest { width: 640, height: 480, fps: 30 }));
}

#[test]
fn stream_plan_defaults_and_rejects_all_disabled() {
    let mut cfg = rs_config();
    cfg.color_width = None;
    cfg.color_height = None;
    cfg.color_fps = None;
    cfg.enable_depth_stream = Some(false);
    let dev = RealsenseDevice::new("depth_1".to_string(), cfg);
    let plan = dev.build_stream_plan().unwrap();
    assert_eq!(plan.color, Some(StreamRequest { width: 640, height: 480, fps: 30 }));
    assert_eq!(plan.depth, None);

    let mut cfg = rs_config();
    cfg.enable_color_stream = Some(false);
    cfg.enable_depth_stream = Some(false);
    let dev = RealsenseDevice::new("depth_1".to_string(), cfg);
    assert!(matches!(dev.build_stream_plan(), Err(AppError::Config(_))));
}

#[test]
fn serial_selection_picks_the_match_or_the_first() {
    let serials = vec!["111".to_string(), "222".to_string(), "333".to_string()];
    assert_eq!(select_device_serial(&serials, &Some("222".to_string())).unwrap(), 1);
    assert_eq!(select_device_serial(&serials, &None).unwrap(), 0);
    assert!(matches!(
        select_device_serial(&serials, &Some("999".to_string())),
        Err(AppError::NotFound(_))
    ));
    assert!(matches!(
        select_device_serial(&Vec::new(), &None),
        Err(AppError::NotFound(_))
    ));
}

#[test]
fn depth_capture_needs_at_least_one_well_formed_frame() {
    let assembled =
        rcam::realsense::assemble_depth_capture("depth_1", Some(color_frame()), Some(depth_frame()))
            .unwrap();
    match assembled {
        FrameData::RealsenseFrames { name, color_frame, depth_frame } => {
            assert_eq!(name, "depth_1");
            let c = color_frame.unwrap();
            let d = depth_frame.unwrap();
            assert_eq!(c.rgb_data.len(), 12);
            assert_eq!(d.depth_unit_micrometers, 1000);
        }
        other => panic!("unexpected frame kind: {:?}", other),
    }
    assert!(matches!(
        rcam::realsense::assemble_depth_capture("depth_1", None, None),
        Err(AppError::Media(_))
    ));
    let mut bad = color_frame();
    bad.width = 3;
    assert!(matches!(
        rcam::realsense::assemble_depth_capture("depth_1", Some(bad), None),
        Err(AppError::Media(_))
    ));
}

#[test]
fn error_messages_follow_the_taxonomy() {
    assert_eq!(
        AppError::Config("bad".to_string()).message(),
        "Configuration Error: bad"
    );
    assert_eq!(
        AppError::Authentication {
            camera_name: "cam_a".to_string(),
            details: "no password".to_string()
        }
        .message(),
        "Authentication Failed for camera cam_a: no password"
    );
    assert_eq!(AppError::Rtsp("x".to_string()).message(), "RTSP Error: x");
    assert_eq!(AppError::Network("x".to_string()).message(), "Network Error: x");
    assert_eq!(AppError::HttpCgi("x".to_string()).message(), "HTTP CGI Error: x");
    assert_eq!(AppError::Io("x".to_string()).message(), "File I/O Error: x");
    assert_eq!(AppError::Media("x".to_string()).message(), "Media Processing Error: x");
    assert_eq!(AppError::NotFound("x".to_string()).message(), "Resource Not Found: x");
    assert_eq!(
        AppError::Unexpected("x".to_string()).message(),
        "An unexpected error occurred: x"
    );
}
