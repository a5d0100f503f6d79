//! The frame data model.
//!
//! A frame is exclusively owned by the task that produced it until it is
//! handed to the sink router.  An IP camera produces one encoded image; a
//! depth camera produces up to two raw frames (color and depth), of which
//! at least one must be present when the capture succeeded.

use vstd::prelude::*;

verus! {

/// An encoded still image fetched from an IP camera, exactly as the device
/// returned it.
#[derive(Debug, Clone)]
pub struct IpImage {
    pub name: String,
    pub bytes: Vec<u8>,
    pub format: String,
}

/// A raw RGB8 color frame from a depth camera.
#[derive(Debug, Clone)]
pub struct RsColorFrameData {
    pub rgb_data: Vec<u8>,
    pub width: u32,
    pub height: u32,
}

/// A raw Z16 depth frame from a depth camera.  The depth unit is carried
/// in micrometers per raw step so that it survives as a plain value.
#[derive(Debug, Clone)]
pub struct RsDepthFrameData {
    pub depth_data: Vec<u16>,
    pub depth_unit_micrometers: u32,
    pub width: u32,
    pub height: u32,
}

/// What one capture produced for one device.
#[derive(Debug, Clone)]
pub enum FrameData {
    IpCameraImage { name: String, path: String, format: String },
    RealsenseFrames {
        name: String,
        color_frame: Option<RsColorFrameData>,
        depth_frame: Option<RsDepthFrameData>,
    },
}

/// The frames one capture operation produced.
#[derive(Debug, Clone)]
pub struct FrameDataBundle {
    pub frames: Vec<FrameData>,
}

/// A color frame carries exactly three bytes per pixel.
pub open spec fn rs_color_wf(f: RsColorFrameData) -> bool {
    f.rgb_data@.len() == 3 * (f.width as int) * (f.height as int)
}

/// A depth frame carries exactly one 16-bit value per pixel.
pub open spec fn rs_depth_wf(f: RsDepthFrameData) -> bool {
    f.depth_data@.len() == (f.width as int) * (f.height as int)
}

/// A depth capture must hold at least one inner frame, and every inner
/// frame must be well-formed.
pub open spec fn frame_data_wf(f: FrameData) -> bool {
    match f {
        FrameData::IpCameraImage { .. } => true,
        FrameData::RealsenseFrames { color_frame, depth_frame, .. } => {
            &&& (color_frame is Some || depth_frame is Some)
            &&& (color_frame matches Some(c) ==> rs_color_wf(c))
            &&& (depth_frame matches Some(d) ==> rs_depth_wf(d))
        },
    }
}

pub open spec fn bundle_wf(b: FrameDataBundle) -> bool {
    forall|i: int| 0 <= i < b.frames@.len() ==> frame_data_wf(#[trigger] b.frames@[i])
}

} // verus!
