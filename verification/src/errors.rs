//! The error taxonomy shared by every component: configuration problems are
//! fatal at startup, everything else is reported per device so that one
//! failing camera never aborts the rest of a batch.

use vstd::prelude::*;
use crate::text;

verus! {

/// A typed per-device or per-operation error.
#[derive(Debug, Clone)]
pub enum AppError {
    /// Missing or invalid configuration; fatal at startup.
    Config(String),
    /// Transport-level network failure (connect, send, timeout).
    Network(String),
    /// RTSP stream could not be opened or read.
    Rtsp(String),
    /// HTTP CGI request failed (non-2xx status, empty body).
    HttpCgi(String),
    /// Filesystem failure around an output artifact.
    Io(String),
    /// Media processing failure (encode, decode, writer).
    Media(String),
    /// Camera control failure.
    Control(String),
    /// Operation-level failure.
    Operation(String),
    /// A worker task failed or panicked.
    Task(String),
    /// A named resource (device, stream) was not found.
    NotFound(String),
    /// A credential needed for the device could not be resolved.
    Authentication { camera_name: String, details: String },
    /// Video capture stack failure.
    OpenCV(String),
    /// Anything that does not fit the categories above.
    Unexpected(String),
}

/// The human-readable rendering of an error.
pub open spec fn message_spec(e: AppError) -> Seq<char> {
    match e {
        AppError::Config(m) => "Configuration Error: "@ + m@,
        AppError::Network(m) => "Network Error: "@ + m@,
        AppError::Rtsp(m) => "RTSP Error: "@ + m@,
        AppError::HttpCgi(m) => "HTTP CGI Error: "@ + m@,
        AppError::Io(m) => "File I/O Error: "@ + m@,
        AppError::Media(m) => "Media Processing Error: "@ + m@,
        AppError::Control(m) => "Camera Control Error: "@ + m@,
        AppError::Operation(m) => "Operation Error: "@ + m@,
        AppError::Task(m) => "Task Execution Error: "@ + m@,
        AppError::NotFound(m) => "Resource Not Found: "@ + m@,
        AppError::Authentication { camera_name, details } => "Authentication Failed for camera "@
            + camera_name@ + ": "@ + details@,
        AppError::OpenCV(m) => "OpenCV Error: "@ + m@,
        AppError::Unexpected(m) => "An unexpected error occurred: "@ + m@,
    }
}

impl AppError {
    /// Renders the error as one line of text.
    pub fn message(&self) -> (r: String)
        ensures
            r@ == message_spec(*self),
    {
        let mut s = String::new();
        match self {
            AppError::Config(m) => {
                text::push_str(&mut s, "Configuration Error: ");
                text::push_str(&mut s, m.as_str());
            },
            AppError::Network(m) => {
                text::push_str(&mut s, "Network Error: ");
                text::push_str(&mut s, m.as_str());
            },
            AppError::Rtsp(m) => {
                text::push_str(&mut s, "RTSP Error: ");
                text::push_str(&mut s, m.as_str());
            },
            AppError::HttpCgi(m) => {
                text::push_str(&mut s, "HTTP CGI Error: ");
                text::push_str(&mut s, m.as_str());
            },
            AppError::Io(m) => {
                text::push_str(&mut s, "File I/O Error: ");
                text::push_str(&mut s, m.as_str());
            },
            AppError::Media(m) => {
                text::push_str(&mut s, "Media Processing Error: ");
                text::push_str(&mut s, m.as_str());
            },
            AppError::Control(m) => {
                text::push_str(&mut s, "Camera Control Error: ");
                text::push_str(&mut s, m.as_str());
            },
            AppError::Operation(m) => {
                text::push_str(&mut s, "Operation Error: ");
                text::push_str(&mut s, m.as_str());
            },
            AppError::Task(m) => {
                text::push_str(&mut s, "Task Execution Error: ");
                text::push_str(&mut s, m.as_str());
            },
            AppError::NotFound(m) => {
                text::push_str(&mut s, "Resource Not Found: ");
                text::push_str(&mut s, m.as_str());
            },
            AppError::Authentication { camera_name, details } => {
                text::push_str(&mut s, "Authentication Failed for camera ");
                text::push_str(&mut s, camera_name.as_str());
                text::push_str(&mut s, ": ");
                text::push_str(&mut s, details.as_str());
            },
            AppError::OpenCV(m) => {
                text::push_str(&mut s, "OpenCV Error: ");
                text::push_str(&mut s, m.as_str());
            },
            AppError::Unexpected(m) => {
                text::push_str(&mut s, "An unexpected error occurred: ");
                text::push_str(&mut s, m.as_str());
            },
        }
        s
    }
}

} // verus!
