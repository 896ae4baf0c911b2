//! Resolving a remote media hierarchy into concrete downloadable formats,
//! and building the exact argument sequence for the external transcoder.
//!
//! The library is organised along the pipeline: a parsed URL yields a
//! [`media::MediaNode`] and a [`filter::UrlFilter`]; [`resolve`] walks the
//! hierarchy under a [`intent::DownloadIntent`], selecting one stream
//! variant per leaf through [`selector`] and at most one subtitle track,
//! into [`format::Format`] records; [`transcode`] turns each record's
//! choices into the transcoder's argument plan. Fetching, prompting and
//! process handling stay outside, behind plain data.

use vstd::prelude::*;

pub mod filter;
pub mod format;
pub mod intent;
pub mod media;
pub mod resolve;
pub mod selector;
pub mod transcode;

verus! {

/// Wraps a vector in `Some` when it holds anything, and returns `None` for an
/// empty one, so that "nothing matched" is distinguishable from a successful,
/// populated resolution.
pub fn some_vec_or_none<T>(v: Vec<T>) -> (r: Option<Vec<T>>)
    ensures
        v@.len() == 0 ==> r is None,
        v@.len() > 0 ==> (r matches Some(w) && w == v),
{
    if v.is_empty() {
        None
    } else {
        Some(v)
    }
}

} // verus!
