//! The depth-camera adapter's decision logic.
//!
//! The native SDK work — enumeration, pipeline start, frame waits — runs in
//! the driver on a blocking worker.  Everything the adapter decides is
//! verified here: which device serial to select, which streams to enable
//! and at what mode, the BGR to RGB conversion of a color frame, and when
//! an extracted frame set counts as a capture.

use vstd::prelude::*;
use crate::config::RealsenseSpecificConfig;
use crate::errors::AppError;
use crate::frames::{rs_color_wf, rs_depth_wf, FrameData, RsColorFrameData, RsDepthFrameData};

verus! {

/// One requested stream mode.
#[derive(Debug, Clone, PartialEq, Eq, Structural)]
pub struct StreamRequest {
    pub width: u32,
    pub height: u32,
    pub fps: u32,
}

/// Which streams the pipeline enables, and at what mode.  All other
/// streams are disabled.
#[derive(Debug, Clone, PartialEq, Eq, Structural)]
pub struct StreamPlan {
    pub color: Option<StreamRequest>,
    pub depth: Option<StreamRequest>,
}

/// A depth camera.
#[derive(Debug, Clone)]
pub struct RealsenseDevice {
    pub name: String,
    pub config: RealsenseSpecificConfig,
}

pub open spec fn or_default(v: Option<u32>, d: u32) -> u32 {
    match v {
        Some(x) => x,
        None => d,
    }
}

pub open spec fn stream_enabled(v: Option<bool>) -> bool {
    match v {
        Some(b) => b,
        None => true,
    }
}

impl RealsenseDevice {
    pub fn new(name: String, config: RealsenseSpecificConfig) -> (r: RealsenseDevice)
        ensures
            r.name == name,
            r.config == config,
    {
        RealsenseDevice { name, config }
    }

    /// The device's registered name.
    pub fn get_name(&self) -> (r: &String)
        ensures
            r@ == self.name@,
    {
        &self.name
    }

    /// The adapter's device-type tag.
    pub fn get_type(&self) -> (r: &'static str)
        ensures
            r@ == "RealsenseCamera"@,
    {
        "RealsenseCamera"
    }

    /// The stream plan for this device: color and depth are enabled unless
    /// switched off, each at its configured mode with 640x480 at 30 frames
    /// per second as the default.  Fails exactly when both streams are
    /// disabled, which is a configuration error.
    pub fn build_stream_plan(&self) -> (r: Result<StreamPlan, AppError>)
        ensures
            r is Ok <==> (stream_enabled(self.config.enable_color_stream) || stream_enabled(
                self.config.enable_depth_stream,
            )),
            r matches Ok(plan) ==> {
                &&& plan.color is Some <==> stream_enabled(self.config.enable_color_stream)
                &&& plan.depth is Some <==> stream_enabled(self.config.enable_depth_stream)
                &&& plan.color matches Some(c) ==> c == (StreamRequest {
                    width: or_default(self.config.color_width, 640),
                    height: or_default(self.config.color_height, 480),
                    fps: or_default(self.config.color_fps, 30),
                })
                &&& plan.depth matches Some(d) ==> d == (StreamRequest {
                    width: or_default(self.config.depth_width, 640),
                    height: or_default(self.config.depth_height, 480),
                    fps: or_default(self.config.depth_fps, 30),
                })
            },
            r matches Err(e) ==> e is Config,
    {
        let color_on = match self.config.enable_color_stream {
            Some(b) => b,
            None => true,
        };
        let depth_on = match self.config.enable_depth_stream {
            Some(b) => b,
            None => true,
        };
        if !color_on && !depth_on {
            return Err(AppError::Config("both color and depth streams are disabled".to_owned()));
        }
        let color = if color_on {
            Some(
                StreamRequest {
                    width: self.config.color_width.unwrap_or(640),
                    height: self.config.color_height.unwrap_or(480),
                    fps: self.config.color_fps.unwrap_or(30),
                },
            )
        } else {
            None
        };
        let depth = if depth_on {
            Some(
                StreamRequest {
                    width: self.config.depth_width.unwrap_or(640),
                    height: self.config.depth_height.unwrap_or(480),
                    fps: self.config.depth_fps.unwrap_or(30),
                },
            )
        } else {
            None
        };
        Ok(StreamPlan { color, depth })
    }
}

/// Selects which enumerated device to open: the one matching the
/// configured serial, or the first device when no serial is configured.
/// Fails exactly when no device is present or the configured serial is
/// missing from the enumeration.
pub fn select_device_serial(serials: &Vec<String>, configured: &Option<String>) -> (r: Result<
    usize,
    AppError,
>)
    ensures
        match configured {
            Some(t) => {
                &&& (r is Ok <==> exists|i: int|
                    0 <= i < serials@.len() && #[trigger] serials@[i]@ == t@)
                &&& r matches Ok(i) ==> (i < serials@.len() && serials@[i as int]@ == t@ && forall|
                    k: int,
                |
                    0 <= k < i ==> #[trigger] serials@[k]@ != t@)
            },
            None => {
                &&& (r is Ok <==> serials@.len() > 0)
                &&& (r matches Ok(i) ==> i == 0)
            },
        },
        r matches Err(e) ==> e is NotFound,
{
    if serials.len() == 0 {
        return Err(AppError::NotFound("no depth devices found".to_owned()));
    }
    match configured {
        Some(t) => {
            let n = serials.len();
            let mut i: usize = 0;
            while i < n
                invariant
                    configured matches Some(q) && q@ == t@,
                    n == serials@.len(),
                    0 <= i <= n,
                    forall|k: int| 0 <= k < i ==> #[trigger] serials@[k]@ != t@,
                decreases n - i,
            {
                if crate::config::str_eq(serials[i].as_str(), t.as_str()) {
                    proof {
                        assert(serials@[i as int]@ == t@);
                        assert(exists|j: int|
                            0 <= j < serials@.len() && #[trigger] serials@[j]@ == t@);
                    }
                    return Ok(i);
                }
                i = i + 1;
            }
            Err(AppError::NotFound("specified device serial not found".to_owned()))
        },
        None => Ok(0),
    }
}

/// Converts a packed BGR8 buffer to RGB8 by swapping the first and third
/// byte of every pixel.
pub fn bgr_to_rgb(data: &Vec<u8>) -> (r: Vec<u8>)
    requires
        data@.len() % 3 == 0,
    ensures
        r@.len() == data@.len(),
        forall|p: int|
            0 <= p < data@.len() / 3 ==> {
                &&& #[trigger] r@[3 * p] == data@[3 * p + 2]
                &&& r@[3 * p + 1] == data@[3 * p + 1]
                &&& r@[3 * p + 2] == data@[3 * p]
            },
{
    let len = data.len();
    let pixels = len / 3;
    let mut out: Vec<u8> = Vec::new();
    let mut p: usize = 0;
    while p < pixels
        invariant
            len == data@.len(),
            pixels == data@.len() / 3,
            data@.len() % 3 == 0,
            0 <= p <= pixels,
            out@.len() == 3 * p,
            forall|q: int|
                0 <= q < p ==> {
                    &&& #[trigger] out@[3 * q] == data@[3 * q + 2]
                    &&& out@[3 * q + 1] == data@[3 * q + 1]
                    &&& out@[3 * q + 2] == data@[3 * q]
                },
        decreases pixels - p,
    {
        proof {
            assert(data@.len() == 3 * (data@.len() / 3) + data@.len() % 3);
            assert(3 * (p as int) + 2 < data@.len());
        }
        let ghost pre = out@;
        out.push(data[3 * p + 2]);
        out.push(data[3 * p + 1]);
        out.push(data[3 * p]);
        proof {
            assert forall|q: int|
                0 <= q < p + 1 implies {
                    &&& #[trigger] out@[3 * q] == data@[3 * q + 2]
                    &&& out@[3 * q + 1] == data@[3 * q + 1]
                    &&& out@[3 * q + 2] == data@[3 * q]
                } by {
                if q < p {
                    assert(out@[3 * q] == pre[3 * q]);
                    assert(out@[3 * q + 1] == pre[3 * q + 1]);
                    assert(out@[3 * q + 2] == pre[3 * q + 2]);
                } else {
                    assert(out@[3 * q] == data@[3 * q + 2]);
                    assert(out@[3 * q + 1] == data@[3 * q + 1]);
                    assert(out@[3 * q + 2] == data@[3 * q]);
                }
            }
        }
        p = p + 1;
    }
    out
}

/// Judges what a depth capture extracted.  A capture succeeds exactly when
/// at least one inner frame is present and every present frame is
/// well-formed; the frame then carries the inputs unchanged — in
/// particular the depth unit survives as metadata.
pub fn assemble_depth_capture(
    name: &str,
    color: Option<RsColorFrameData>,
    depth: Option<RsDepthFrameData>,
) -> (r: Result<FrameData, AppError>)
    ensures
        r is Ok <==> {
            &&& (color is Some || depth is Some)
            &&& (color matches Some(c) ==> rs_color_wf(c))
            &&& (depth matches Some(d) ==> rs_depth_wf(d))
        },
        r matches Ok(f) ==> (f matches FrameData::RealsenseFrames {
            name: n2,
            color_frame: c2,
            depth_frame: d2,
        } && n2@ == name@ && c2 == color && d2 == depth && crate::frames::frame_data_wf(f)),
        r matches Err(e) ==> e is Media,
{
    let color_ok = match &color {
        Some(c) => {
            let w = c.width as u128;
            let h = c.height as u128;
            proof {
                assert(w * h < 0x10000000000000000u128) by (nonlinear_arith)
                    requires
                        w < 0x100000000u128,
                        h < 0x100000000u128,
                ;
            }
            let pixels = w * h;
            let ok = c.rgb_data.len() as u128 == 3 * pixels;
            proof {
                assert(3 * (w * h) == 3 * (c.width as int) * (c.height as int))
                    by (nonlinear_arith)
                    requires
                        w == c.width as int,
                        h == c.height as int,
                ;
                assert(ok == rs_color_wf(*c));
            }
            ok
        },
        None => true,
    };
    if !color_ok {
        return Err(AppError::Media("color frame size does not match its mode".to_owned()));
    }
    let depth_ok = match &depth {
        Some(d) => {
            let w = d.width as u128;
            let h = d.height as u128;
            proof {
                assert(w * h < 0x10000000000000000u128) by (nonlinear_arith)
                    requires
                        w < 0x100000000u128,
                        h < 0x100000000u128,
                ;
            }
            let pixels = w * h;
            let ok = d.depth_data.len() as u128 == pixels;
            proof {
                assert(w * h == (d.width as int) * (d.height as int)) by (nonlinear_arith)
                    requires
                        w == d.width as int,
                        h == d.height as int,
                ;
                assert(ok == rs_depth_wf(*d));
            }
            ok
        },
        None => true,
    };
    if !depth_ok {
        return Err(AppError::Media("depth frame size does not match its mode".to_owned()));
    }
    let any = match &color {
        Some(_) => true,
        None => depth.is_some(),
    };
    if !any {
        return Err(AppError::Media("no frame data was captured despite enabled streams".to_owned()));
    }
    Ok(FrameData::RealsenseFrames { name: name.to_owned(), color_frame: color, depth_frame: depth })
}

} // verus!
