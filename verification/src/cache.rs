//! The freshness-gated location cache: one file holding one encoded
//! location, whose modification time is the freshness timestamp.
//!
//! The surrounding program reads the cache file and its modification time
//! and hands the bytes and the two clocks in; writing the file back is
//! likewise left to it.

use vstd::prelude::*;
use crate::errors::ErrorExt;
use crate::location::Location;
use crate::location::LocationV;
use crate::location::sp_decode_location;
use crate::location::sp_encode_location;
use crate::location::deserialize_location;
use crate::location::encode_location;

verus! {

/// The freshness window: a cached location older than this many seconds is
/// not served.
pub const FRESHNESS_WINDOW_SECS: i64 = 86400;

/// A cache entry with modification time `mtime` is stale at time `now`
/// exactly when it is strictly older than the freshness window.
pub open spec fn spec_is_stale(now: int, mtime: int) -> bool {
    now - mtime > 86400
}

/// Whether a cache entry is stale, without overflowing on extreme clocks.
pub fn cache_is_stale(now_secs: i64, mtime_secs: i64) -> (r: bool)
    ensures
        r == spec_is_stale(now_secs as int, mtime_secs as int),
{
    match now_secs.checked_sub(mtime_secs) {
        Some(d) => d > FRESHNESS_WINDOW_SECS,
        None => now_secs > mtime_secs,
    }
}

/// What the cache read path yields from the file's contents, its
/// modification time and the current time: the staleness gate fires before
/// decoding, so a stale entry yields `DataTooOld` regardless of contents,
/// and a fresh entry yields the decoded location or a codec failure.
pub fn get_cached_location(contents: &Vec<u8>, mtime_secs: i64, now_secs: i64) -> (r: Result<
    Location,
    ErrorExt,
>)
    ensures
        (r matches Err(e) && e is DataTooOld) <==> spec_is_stale(
            now_secs as int,
            mtime_secs as int,
        ),
        !spec_is_stale(now_secs as int, mtime_secs as int) ==> match sp_decode_location(
            contents@,
        ) {
            Some(l) => r matches Ok(loc) && loc@ == l && l.wf(),
            None => r matches Err(e) && e is Codec,
        },
{
    if cache_is_stale(now_secs, mtime_secs) {
        return Err(ErrorExt::DataTooOld);
    }
    deserialize_location(contents)
}

/// The bytes that the cache write path persists for a location: its
/// canonical encoding. Encoding is total, so the only failures of the write
/// path are the filesystem's own, which the surrounding program reports as
/// `Io`.
pub fn cache_location(location: &Location) -> (r: Vec<u8>)
    ensures
        r@ == sp_encode_location(location@),
{
    encode_location(location)
}

/// The location the cache serves, as a function of the raw cache state: the
/// file's contents and modification time (absent when the file cannot be
/// read) and the current time. `None` means the cache is unusable for any
/// reason: missing file, stale entry, or a corrupt record.
pub open spec fn sp_cache_of(cache: Option<(Seq<u8>, int)>, now: int) -> Option<LocationV> {
    match cache {
        None => None,
        Some((contents, mtime)) => if spec_is_stale(now, mtime) {
            None
        } else {
            sp_decode_location(contents)
        },
    }
}

} // verus!
