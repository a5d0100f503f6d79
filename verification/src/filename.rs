//! Artifact filename construction.
//!
//! Every artifact is written as `{name}_{ts}.{ext}` where `ts` is a token
//! formatted from host local time.  The token is formatted once per batch so
//! that co-captured frames are correlatable; composing the filename from the
//! token is a pure function.

use vstd::prelude::*;
use crate::text;
use std::fmt::Write;

verus! {

/// The filename `{name}_{ts}.{ext}`.
pub open spec fn filename_spec(name: Seq<char>, ts: Seq<char>, ext: Seq<char>) -> Seq<char> {
    name + "_"@ + ts + "."@ + ext
}

/// Composes `{name}_{ts}.{ext}` from the parts.
pub fn compose_filename(name: &str, ts: &str, ext: &str) -> (r: String)
    ensures
        r@ == filename_spec(name@, ts@, ext@),
{
    let mut s = String::new();
    text::push_str(&mut s, name);
    text::push_str(&mut s, "_");
    text::push_str(&mut s, ts);
    text::push_str(&mut s, ".");
    text::push_str(&mut s, ext);
    proof {
        assert(s@ =~= filename_spec(name@, ts@, ext@));
    }
    s
}

/// Relies on chrono's `Local::now` and `DateTime::format`: renders the
/// current local time with a strftime-style pattern.  Returns `None` when
/// the pattern is rejected by the formatter.
#[verifier::external_body]
pub fn current_local_timestamp_str(format: &str) -> (r: Option<String>)
{
    let now = chrono::Local::now();
    let delayed = now.format(format);
    let mut s = String::new();
    match write!(s, "{}", delayed) {
        Ok(()) => Some(s),
        Err(_) => None,
    }
}

/// Builds `{base_name}_{ts}.{extension}` with `ts` formatted from the
/// current local time; `None` when the timestamp pattern is invalid.
pub fn generate_timestamped_filename(base_name: &str, timestamp_format: &str, extension: &str) -> (r:
    Option<String>)
    ensures
        r matches Some(f) ==> exists|ts: Seq<char>| f@ == filename_spec(base_name@, ts, extension@),
{
    match current_local_timestamp_str(timestamp_format) {
        Some(ts) => {
            let f = compose_filename(base_name, ts.as_str(), extension);
            proof {
                assert(f@ == filename_spec(base_name@, ts@, extension@));
            }
            Some(f)
        },
        None => None,
    }
}

/// The filename rule is a pure function: two captures of the same device
/// composed within the same formatted second carry identical filenames.
pub proof fn lemma_filename_pure(
    name: Seq<char>,
    ts: Seq<char>,
    ext: Seq<char>,
    f1: Seq<char>,
    f2: Seq<char>,
)
    requires
        f1 == filename_spec(name, ts, ext),
        f2 == filename_spec(name, ts, ext),
    ensures
        f1 == f2,
{
}

} // verus!
