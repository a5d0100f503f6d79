//! Configuration data model and its validation rules.
//!
//! A configuration document names the application-wide capture settings and
//! a heterogeneous list of devices.  Credentials are never part of the
//! document: the password of an IP device is resolved at use time from an
//! environment variable whose name is derived deterministically from the
//! device name.

use vstd::prelude::*;
use crate::errors::AppError;
use crate::ipaddr;
use crate::text;

verus! {

/// Application-wide capture settings.
///
/// Frame rates and the drift tolerance are whole numbers here: the capture
/// planner and the time verifier work in whole frames and whole seconds.
#[derive(Debug, Clone)]
pub struct AppSettings {
    pub output_directory_base: String,
    pub default_config_path: String,
    pub filename_timestamp_format: String,
    pub image_format: String,
    pub jpeg_quality: Option<u8>,
    pub png_compression: Option<u32>,
    pub video_format: String,
    pub video_codec: String,
    pub video_fps: Option<u32>,
    pub video_duration_default_seconds: u32,
    pub time_sync_tolerance_seconds: Option<u32>,
    pub log_level: Option<String>,
    pub cgi_time_path: Option<String>,
    pub enable_gui: Option<bool>,
    pub rerun_flush_timeout_secs: Option<u32>,
    pub rerun_memory_limit: Option<String>,
    pub rerun_drop_at_latency: Option<String>,
}

impl Default for AppSettings {
    /// The built-in capture settings: JPEG stills at quality 95, PNG
    /// compression 3, five-minute MP4 recordings at 25 frames per
    /// second, and a five-second clock tolerance.
    fn default() -> (r: AppSettings)
        ensures
            r.output_directory_base@ == "./output"@,
            r.default_config_path@ == "config/tatbot.yaml"@,
            r.filename_timestamp_format@ == "%Yy%mm%dd%Hh%Mm%Ss"@,
            r.image_format@ == "jpg"@,
            r.jpeg_quality == Some(95u8),
            r.png_compression == Some(3u32),
            r.video_format@ == "mp4"@,
            r.video_codec@ == "copy"@,
            r.video_fps == Some(25u32),
            r.video_duration_default_seconds == 300,
            r.time_sync_tolerance_seconds == Some(5u32),
            r.log_level matches Some(l) && l@ == "info"@,
            r.cgi_time_path is None,
            r.enable_gui is None,
            r.rerun_flush_timeout_secs == Some(10u32),
            r.rerun_memory_limit matches Some(m) && m@ == "90%"@,
            r.rerun_drop_at_latency matches Some(d) && d@ == "500ms"@,
    {
        AppSettings {
            output_directory_base: "./output".to_owned(),
            default_config_path: "config/tatbot.yaml".to_owned(),
            filename_timestamp_format: "%Yy%mm%dd%Hh%Mm%Ss".to_owned(),
            image_format: "jpg".to_owned(),
            jpeg_quality: Some(95),
            png_compression: Some(3),
            video_format: "mp4".to_owned(),
            video_codec: "copy".to_owned(),
            video_fps: Some(25),
            video_duration_default_seconds: 300,
            time_sync_tolerance_seconds: Some(5),
            log_level: Some("info".to_owned()),
            cgi_time_path: None,
            enable_gui: None,
            rerun_flush_timeout_secs: Some(10),
            rerun_memory_limit: Some("90%".to_owned()),
            rerun_drop_at_latency: Some("500ms".to_owned()),
        }
    }
}

/// Transport coordinates of an IP camera.
#[derive(Debug, Clone)]
pub struct IpCameraSpecificConfig {
    pub ip: String,
    pub username: Option<String>,
    pub http_port: Option<u16>,
    pub rtsp_port: Option<u16>,
    pub rtsp_path: Option<String>,
}

/// Stream tuning of a depth camera.
#[derive(Debug, Clone)]
pub struct RealsenseSpecificConfig {
    pub serial_number: Option<String>,
    pub color_width: Option<u32>,
    pub color_height: Option<u32>,
    pub color_fps: Option<u32>,
    pub depth_width: Option<u32>,
    pub depth_height: Option<u32>,
    pub depth_fps: Option<u32>,
    pub enable_color_stream: Option<bool>,
    pub enable_depth_stream: Option<bool>,
}

/// One configured capture device, tagged by type.
#[derive(Debug, Clone)]
pub enum CaptureDeviceConfig {
    IpCamera { name: String, specifics: IpCameraSpecificConfig },
    RealsenseCamera { name: String, specifics: RealsenseSpecificConfig },
}

/// The name under which a device is registered.
pub open spec fn name_of(d: CaptureDeviceConfig) -> Seq<char> {
    match d {
        CaptureDeviceConfig::IpCamera { name, .. } => name@,
        CaptureDeviceConfig::RealsenseCamera { name, .. } => name@,
    }
}

impl CaptureDeviceConfig {
    pub fn get_name(&self) -> (r: &String)
        ensures
            r@ == name_of(*self),
    {
        match self {
            CaptureDeviceConfig::IpCamera { name, .. } => name,
            CaptureDeviceConfig::RealsenseCamera { name, .. } => name,
        }
    }
}

/// The whole configuration document.
#[derive(Debug, Clone)]
pub struct MasterConfig {
    pub application: AppSettings,
    pub cameras: Vec<CaptureDeviceConfig>,
}

/// Simple per-camera record used by the lightweight camera entity.
#[derive(Debug, Clone)]
pub struct CameraConfig {
    pub name: String,
    pub ip: String,
    pub username: String,
    pub rtsp_path_override: Option<String>,
}

/// How one character of a device name maps into the password variable name:
/// dashes become underscores, letters are upper-cased.
pub open spec fn env_char(c: char) -> char {
    if c == '-' {
        '_'
    } else {
        text::upper_char(c)
    }
}

/// The environment variable that holds the password of the named device.
pub open spec fn password_env_var_spec(name: Seq<char>) -> Seq<char> {
    name.map_values(|c: char| env_char(c)) + "_PASSWORD"@
}

/// Derives the password environment variable name for a device.
pub fn password_env_var(name: &str) -> (r: String)
    ensures
        r@ == password_env_var_spec(name@),
{
    let n = name.unicode_len();
    let mut s = String::new();
    let mut i: usize = 0;
    while i < n
        invariant
            n == name@.len(),
            0 <= i <= n,
            s@ == name@.subrange(0, i as int).map_values(|c: char| env_char(c)),
        decreases n - i,
    {
        let c = name.get_char(i);
        if c == '-' {
            text::push_char(&mut s, '_');
        } else {
            text::push_char(&mut s, text::upper_char_exec(c));
        }
        proof {
            assert(name@.subrange(0, i + 1).drop_last() =~= name@.subrange(0, i as int));
            assert(name@.subrange(0, i + 1).map_values(|c: char| env_char(c)) =~= name@.subrange(
                0,
                i as int,
            ).map_values(|c: char| env_char(c)).push(env_char(name@[i as int])));
        }
        i = i + 1;
    }
    proof {
        assert(name@.subrange(0, n as int) =~= name@);
    }
    text::push_str(&mut s, "_PASSWORD");
    s
}

/// No two devices share a name.
pub open spec fn unique_names(devices: Seq<CaptureDeviceConfig>) -> bool {
    forall|i: int, j: int|
        0 <= i < j < devices.len() ==> name_of(#[trigger] devices[i]) != name_of(
            #[trigger] devices[j],
        )
}

/// What the loader owes the engine: non-empty output base and formats, at
/// least one device, non-empty unique device names, parseable IP
/// addresses (IPv4 or IPv6).
pub open spec fn valid_master_config(c: MasterConfig) -> bool {
    &&& c.application.output_directory_base@.len() > 0
    &&& c.application.image_format@.len() > 0
    &&& c.application.video_format@.len() > 0
    &&& c.cameras@.len() > 0
    &&& forall|i: int| 0 <= i < c.cameras@.len() ==> name_of(#[trigger] c.cameras@[i]).len() > 0
    &&& unique_names(c.cameras@)
    &&& forall|i: int|
        0 <= i < c.cameras@.len() ==> match #[trigger] c.cameras@[i] {
            CaptureDeviceConfig::IpCamera { specifics, .. } => ipaddr::is_ip_addr(specifics.ip@),
            CaptureDeviceConfig::RealsenseCamera { .. } => true,
        }
}

/// Compares two string slices for (character) equality.
pub fn str_eq(a: &str, b: &str) -> (r: bool)
    ensures
        r == (a@ == b@),
{
    let n = a.unicode_len();
    let m = b.unicode_len();
    if n != m {
        return false;
    }
    let mut i: usize = 0;
    while i < n
        invariant
            n == a@.len(),
            n == b@.len(),
            0 <= i <= n,
            forall|p: int| 0 <= p < i ==> a@[p] == b@[p],
        decreases n - i,
    {
        if a.get_char(i) != b.get_char(i) {
            return false;
        }
        i = i + 1;
    }
    proof {
        assert(a@ =~= b@);
    }
    true
}

/// Validates a configuration document against `valid_master_config`.
///
/// Succeeds exactly on the documents the engine accepts; every rejection is
/// a configuration error.
pub fn validate_master_config(config: &MasterConfig) -> (r: Result<(), AppError>)
    ensures
        r is Ok <==> valid_master_config(*config),
        r matches Err(e) ==> e is Config,
{
    if config.application.output_directory_base.as_str().is_empty() {
        return Err(AppError::Config("output_directory_base cannot be empty".to_owned()));
    }
    if config.application.image_format.as_str().is_empty() {
        return Err(AppError::Config("image_format cannot be empty".to_owned()));
    }
    if config.application.video_format.as_str().is_empty() {
        return Err(AppError::Config("video_format cannot be empty".to_owned()));
    }
    if config.cameras.len() == 0 {
        return Err(AppError::Config("no cameras defined in the configuration".to_owned()));
    }
    let n = config.cameras.len();
    let mut i: usize = 0;
    while i < n
        invariant
            n == config.cameras@.len(),
            0 <= i <= n,
            forall|a: int|
                0 <= a < i ==> name_of(#[trigger] config.cameras@[a]).len() > 0,
            forall|a: int, b: int|
                0 <= a < b < i ==> name_of(#[trigger] config.cameras@[a]) != name_of(
                    #[trigger] config.cameras@[b],
                ),
            forall|a: int|
                0 <= a < i ==> match #[trigger] config.cameras@[a] {
                    CaptureDeviceConfig::IpCamera { specifics, .. } => ipaddr::is_ip_addr(
                        specifics.ip@,
                    ),
                    CaptureDeviceConfig::RealsenseCamera { .. } => true,
                },
        decreases n - i,
    {
        let name = config.cameras[i].get_name();
        if name.as_str().is_empty() {
            return Err(AppError::Config("camera name cannot be empty".to_owned()));
        }
        let mut j: usize = 0;
        while j < i
            invariant
                n == config.cameras@.len(),
                0 <= j <= i < n,
                name@ == name_of(config.cameras@[i as int]),
                forall|a: int|
                    0 <= a < j ==> name_of(#[trigger] config.cameras@[a]) != name_of(
                        config.cameras@[i as int],
                    ),
            decreases i - j,
        {
            if str_eq(config.cameras[j].get_name().as_str(), name.as_str()) {
                return Err(AppError::Config("duplicate camera name found".to_owned()));
            }
            j = j + 1;
        }
        match &config.cameras[i] {
            CaptureDeviceConfig::IpCamera { specifics, .. } => {
                if !ipaddr::is_valid_ip(specifics.ip.as_str()) {
                    return Err(AppError::Config("invalid IP address format".to_owned()));
                }
            },
            CaptureDeviceConfig::RealsenseCamera { .. } => {},
        }
        i = i + 1;
    }
    Ok(())
}

} // verus!
