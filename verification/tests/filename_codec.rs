use rcam::codec::map_codec_to_fourcc;
use rcam::filename::{compose_filename, generate_timestamped_filename};
use rcam::text::u64_to_string;

#[test]
fn compose_filename_joins_name_ts_and_extension() {
    let f = compose_filename("cam_a", "20240101_120000", "jpg");
    assert_eq!(f, "cam_a_20240101_120000.jpg");
}

#[test]
fn compose_filename_is_pure() {
    let a = compose_filename("cam_a", "20240101_120000", "jpg");
    let b = compose_filename("cam_a", "20240101_120000", "jpg");
    assert_eq!(a, b);
}

#[test]
fn generate_timestamped_filename_has_name_and_extension() {
    let f = generate_timestamped_filename("cam_a", "%Y%m%d_%H%M%S", "jpg").unwrap();
    assert!(f.starts_with("cam_a_"));
    assert!(f.ends_with(".jpg"));
    // %Y%m%d_%H%M%S renders as 15 characters
    assert_eq!(f.len(), "cam_a_".len() + 15 + ".jpg".len());
}

#[test]
fn codec_mapping_known_rows() {
    assert_eq!(map_codec_to_fourcc("mjpg", "avi"), ("MJPG".to_string(), false));
    assert_eq!(map_codec_to_fourcc("mjpeg", "mp4"), ("MJPG".to_string(), false));
    assert_eq!(map_codec_to_fourcc("xvid", "avi"), ("XVID".to_string(), false));
    assert_eq!(map_codec_to_fourcc("mp4v", "avi"), ("MP4V".to_string(), false));
    assert_eq!(map_codec_to_fourcc("h264", "avi"), ("H264".to_string(), false));
    assert_eq!(map_codec_to_fourcc("h264", "mp4"), ("avc1".to_string(), false));
}

#[test]
fn codec_mapping_is_case_insensitive() {
    assert_eq!(map_codec_to_fourcc("H264", "MP4"), ("avc1".to_string(), false));
    assert_eq!(map_codec_to_fourcc("MJPEG", "AVI"), ("MJPG".to_string(), false));
}

#[test]
fn unknown_codec_defaults_to_mjpg_with_warning() {
    assert_eq!(map_codec_to_fourcc("copy", "mp4"), ("MJPG".to_string(), true));
    assert_eq!(map_codec_to_fourcc("", "mp4"), ("MJPG".to_string(), true));
    // h264 with a container the writer does not know is also a fallback
    assert_eq!(map_codec_to_fourcc("h264", "mkv"), ("MJPG".to_string(), true));
}

#[test]
fn u64_to_string_renders_decimal() {
    assert_eq!(u64_to_string(0), "0");
    assert_eq!(u64_to_string(554), "554");
    assert_eq!(u64_to_string(18446744073709551615), "18446744073709551615");
}
