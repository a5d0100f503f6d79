//! Video codec selection.
//!
//! The recorder chooses a four-character codec identifier from the
//! configured codec and container names.  The mapping is total: any codec it
//! does not know falls back to `MJPG`, with a warning for the operator.

use vstd::prelude::*;
use crate::config::str_eq;
use crate::text;

verus! {

/// Whether the configured codec/container pair is one the recorder knows.
pub open spec fn fourcc_known(codec: Seq<char>, container: Seq<char>) -> bool {
    let c = text::lower_seq(codec);
    let f = text::lower_seq(container);
    ||| c == "mjpg"@
    ||| c == "mjpeg"@
    ||| c == "xvid"@
    ||| c == "mp4v"@
    ||| (c == "h264"@ && (f == "avi"@ || f == "mp4"@))
}

/// The four-character code handed to the video writer.
pub open spec fn fourcc_spec(codec: Seq<char>, container: Seq<char>) -> Seq<char> {
    let c = text::lower_seq(codec);
    let f = text::lower_seq(container);
    if c == "mjpg"@ || c == "mjpeg"@ {
        "MJPG"@
    } else if c == "xvid"@ {
        "XVID"@
    } else if c == "mp4v"@ {
        "MP4V"@
    } else if c == "h264"@ && f == "avi"@ {
        "H264"@
    } else if c == "h264"@ && f == "mp4"@ {
        "avc1"@
    } else {
        "MJPG"@
    }
}

/// Maps the configured codec and container to the four-character code.
/// The second component is true when the pair was unknown and the mapping
/// fell back to `MJPG`: the caller logs a warning then.
pub fn map_codec_to_fourcc(codec: &str, container: &str) -> (r: (String, bool))
    ensures
        r.0@ == fourcc_spec(codec@, container@),
        r.1 == !fourcc_known(codec@, container@),
{
    let c = text::to_lowercase(codec);
    let f = text::to_lowercase(container);
    if str_eq(c.as_str(), "mjpg") || str_eq(c.as_str(), "mjpeg") {
        ("MJPG".to_owned(), false)
    } else if str_eq(c.as_str(), "xvid") {
        ("XVID".to_owned(), false)
    } else if str_eq(c.as_str(), "mp4v") {
        ("MP4V".to_owned(), false)
    } else if str_eq(c.as_str(), "h264") && str_eq(f.as_str(), "avi") {
        ("H264".to_owned(), false)
    } else if str_eq(c.as_str(), "h264") && str_eq(f.as_str(), "mp4") {
        ("avc1".to_owned(), false)
    } else {
        ("MJPG".to_owned(), true)
    }
}

/// The codec mapping is a total function: whatever the configuration says,
/// the emitted code is one of the five known four-character codes.
pub proof fn lemma_codec_mapping_total(codec: Seq<char>, container: Seq<char>)
    ensures
        fourcc_spec(codec, container) == "MJPG"@ || fourcc_spec(codec, container) == "XVID"@
            || fourcc_spec(codec, container) == "MP4V"@ || fourcc_spec(codec, container) == "H264"@
            || fourcc_spec(codec, container) == "avc1"@,
{
}

/// Unknown codec inputs always fall back to `MJPG` (and the mapper reports
/// the fallback, which the caller surfaces as a warning).
pub proof fn lemma_unknown_codec_defaults_to_mjpg(codec: Seq<char>, container: Seq<char>)
    requires
        !fourcc_known(codec, container),
    ensures
        fourcc_spec(codec, container) == "MJPG"@,
{
}

} // verus!
