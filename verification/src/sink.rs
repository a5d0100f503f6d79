//! The frame sink router's filesystem and visualization planning.
//!
//! Workers hand produced frames here; the router decides where each
//! artifact lands on disk and under which entity path a visualization
//! event is emitted.  The driver performs the actual file writes and
//! event submissions from these plans; the bytes it writes are exactly
//! the bytes planned here.

use vstd::prelude::*;
use crate::frames::IpImage;
use crate::text;

verus! {

/// One pending filesystem write: the full path and the exact bytes.
#[derive(Debug)]
pub struct WritePlan {
    pub path: String,
    pub bytes: Vec<u8>,
}

/// The path `{dir}/{file}`.
pub open spec fn joined_path(dir: Seq<char>, file: Seq<char>) -> Seq<char> {
    dir + "/"@ + file
}

/// Joins an output directory and a filename.
pub fn join_path(dir: &str, file: &str) -> (r: String)
    ensures
        r@ == joined_path(dir@, file@),
{
    let mut s = String::new();
    text::push_str(&mut s, dir);
    text::push_str(&mut s, "/");
    text::push_str(&mut s, file);
    proof {
        assert(s@ =~= joined_path(dir@, file@));
    }
    s
}

/// Plans the filesystem write of an IP snapshot: the file lands at
/// `{out_dir}/{filename}` and holds the adapter's bytes verbatim, so a
/// faithful writer stores byte-for-byte what the device returned.
pub fn plan_ip_image_write(img: IpImage, out_dir: &str, filename: &str) -> (r: WritePlan)
    ensures
        r.path@ == joined_path(out_dir@, filename@),
        r.bytes == img.bytes,
{
    WritePlan { path: join_path(out_dir, filename), bytes: img.bytes }
}

/// Plans the filesystem write of an encoded frame (a PNG produced by the
/// frame encoders): the file lands at `{out_dir}/{filename}` and holds
/// the encoded bytes verbatim.
pub fn plan_encoded_write(bytes: Vec<u8>, out_dir: &str, filename: &str) -> (r: WritePlan)
    ensures
        r.path@ == joined_path(out_dir@, filename@),
        r.bytes@ == bytes@,
{
    WritePlan { path: join_path(out_dir, filename), bytes }
}

/// The visualization entity path for one of a device's frame kinds, for
/// example `camera/cam_a/image`.
pub open spec fn entity_path_spec(name: Seq<char>, kind: Seq<char>) -> Seq<char> {
    "camera/"@ + name + "/"@ + kind
}

/// Builds the visualization entity path `camera/{name}/{kind}`.
pub fn entity_path(name: &str, kind: &str) -> (r: String)
    ensures
        r@ == entity_path_spec(name@, kind@),
{
    let mut s = String::new();
    text::push_str(&mut s, "camera/");
    text::push_str(&mut s, name);
    text::push_str(&mut s, "/");
    text::push_str(&mut s, kind);
    proof {
        assert(s@ =~= entity_path_spec(name@, kind@));
    }
    s
}

/// The visualization entity path for replayed video frames, for example
/// `recorded_videos/cam_a/frame`.
pub fn video_entity_path(name: &str) -> (r: String)
    ensures
        r@ == "recorded_videos/"@ + name@ + "/frame"@,
{
    let mut s = String::new();
    text::push_str(&mut s, "recorded_videos/");
    text::push_str(&mut s, name);
    text::push_str(&mut s, "/frame");
    proof {
        assert(s@ =~= "recorded_videos/"@ + name@ + "/frame"@);
    }
    s
}

/// Chooses an operation's base output directory: the directory named on
/// the command line when present, else the configured base with the
/// operation's default subdirectory appended.
pub fn determine_operation_output_dir(
    base: &str,
    cli_output: Option<&String>,
    default_subdir: Option<&str>,
) -> (r: String)
    ensures
        match cli_output {
            Some(p) => r@ == p@,
            None => match default_subdir {
                Some(d) => r@ == joined_path(base@, d@),
                None => r@ == base@,
            },
        },
{
    match cli_output {
        Some(p) => p.clone(),
        None => match default_subdir {
            Some(d) => join_path(base, d),
            None => base.to_owned(),
        },
    }
}

} // verus!
