//! Multi-camera acquisition library.
//!
//! The crate models a fleet of heterogeneous capture devices (IP cameras
//! reached over HTTP/RTSP and depth cameras reached through a native SDK),
//! and verifies the decision logic of a batch capture tool: configuration
//! validation, the device registry, filename and URL construction, codec
//! selection, tolerant timestamp parsing, time-synchronization analysis,
//! snapshot and recording outcomes, and the shutter-alignment protocol.
//! Device I/O itself (HTTP requests, RTSP reads, the depth SDK) is performed
//! by thin unverified drivers that feed plain values into these functions.

pub mod batch;
pub mod codec;
pub mod config;
pub mod entity;
pub mod errors;
pub mod filename;
pub mod frames;
pub mod ipaddr;
pub mod ipcam;
pub mod manager;
pub mod png;
pub mod realsense;
pub mod sink;
pub mod text;
pub mod timeparse;
pub mod timesync;
