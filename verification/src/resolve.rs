//! The location-resolution pipeline: serve from the cache while it is
//! usable, otherwise fetch a fresh location, persist it best-effort, and
//! hand the result to the weather step.
//!
//! The surrounding program performs the reads, the HTTP exchange and the
//! write; the decisions in between are made here, over plain values.

use vstd::prelude::*;
use vstd::string::StringExecFns;
use crate::errors::ErrorExt;
use crate::location::Location;
use crate::location::LocationV;
use crate::location::sp_decode_location;
use crate::location::sp_encode_location;
use crate::location::decode_location;
use crate::location::encode_location;
use crate::cache::sp_cache_of;
use crate::urls::sp_geo_url;
use crate::urls::sp_weather_url;
use crate::weather::WeatherResponse;
use crate::weather::WeatherResponseV;
use crate::weather::sp_decode_weather;
use crate::weather::deserialize_weather;

verus! {

/// Where the pipeline's location came from: the cache, a fresh fetch (with
/// the bytes to persist), or nowhere — the terminal failure.
pub enum SpResolution {
    FromCache(LocationV),
    FromFetch(LocationV, Seq<u8>),
    Unresolved,
}

/// The whole pipeline as a function of the raw cache state, the current
/// time, and the outcome of the geo-IP fetch (`None` when the transport
/// failed, and performed only when the cache is unusable).
pub open spec fn sp_resolution(
    cache: Option<(Seq<u8>, int)>,
    now: int,
    fetch: Option<Seq<u8>>,
) -> SpResolution {
    match sp_cache_of(cache, now) {
        Some(l) => SpResolution::FromCache(l),
        None => match fetch {
            None => SpResolution::Unresolved,
            Some(body) => match sp_decode_location(body) {
                Some(l) => SpResolution::FromFetch(l, sp_encode_location(l)),
                None => SpResolution::Unresolved,
            },
        },
    }
}

/// What the fresh-fetch leg yields from the fetch outcome: a transport
/// failure is terminal, a body that does not decode is terminal, and a body
/// that decodes yields the location together with the bytes to persist.
pub fn resolve_fetched(geo_fetch: Result<Vec<u8>, String>) -> (r: Result<
    (Location, Vec<u8>),
    ErrorExt,
>)
    ensures
        match geo_fetch {
            Err(t) => r matches Err(e) && e is Transport && e.spec_cause() == Some(t@),
            Ok(body) => match sp_decode_location(body@) {
                Some(l) => r matches Ok(p) && p.0@ == l && l.wf()
                    && p.1@ == sp_encode_location(l),
                None => r matches Err(e) && e is Codec,
            },
        },
{
    match geo_fetch {
        Err(t) => Err(ErrorExt::Transport(t)),
        Ok(body) => match decode_location(&body) {
            Some(loc) => {
                let enc = encode_location(&loc);
                Ok((loc, enc))
            },
            None => Err(ErrorExt::Codec(String::from_str("malformed location record"))),
        },
    }
}

/// What the weather leg yields from its fetch outcome: a failed exchange is
/// a transport failure carrying its cause, a body that does not decode is a
/// codec failure, and a body that decodes yields the record. Either failure
/// is non-terminal: the surrounding program reports it and exits normally.
pub fn resolve_weather(weather_fetch: Result<Vec<u8>, String>) -> (r: Result<
    WeatherResponse,
    ErrorExt,
>)
    ensures
        match weather_fetch {
            Err(t) => r matches Err(e) && e is Transport && e.spec_cause() == Some(t@),
            Ok(body) => match sp_decode_weather(body@) {
                Some(w) => r matches Ok(resp) && resp@ == w && w.wf(),
                None => r matches Err(e) && e is Codec,
            },
        },
{
    match weather_fetch {
        Err(t) => Err(ErrorExt::Transport(t)),
        Ok(body) => deserialize_weather(&body),
    }
}

/// The location handed to the weather step after the cache write: the fresh
/// location itself, whatever the write's outcome. A failed cache write never
/// alters or discards a successful fetch.
pub fn location_for_weather(fresh: Location, cache_write: &Result<(), ErrorExt>) -> (r: Location)
    ensures
        r == fresh,
{
    fresh
}

/// How a whole run ends: with a decoded record to print, with a non-fatal
/// weather failure reported, or aborted because no location could be
/// determined.
pub enum SpOutcome {
    Weather(WeatherResponseV),
    WeatherUnavailable,
    Aborted,
}

/// What the weather step makes of its fetch outcome (`None` when the
/// transport failed): a record, or a reported, non-fatal failure.
pub open spec fn sp_weather_outcome(weather_fetch: Option<Seq<u8>>) -> SpOutcome {
    match weather_fetch {
        None => SpOutcome::WeatherUnavailable,
        Some(body) => match sp_decode_weather(body) {
            Some(w) => SpOutcome::Weather(w),
            None => SpOutcome::WeatherUnavailable,
        },
    }
}

/// The observable effects of one whole run: the geo-IP URL fetched (absent
/// when the cache served the location), the bytes written back to the cache
/// (absent when nothing is persisted), the weather URL fetched (absent when
/// the run aborts before the weather step), and the outcome.
pub struct SpRun {
    pub geo_url: Option<Seq<u8>>,
    pub cache_write: Option<Seq<u8>>,
    pub weather_url: Option<Seq<u8>>,
    pub outcome: SpOutcome,
}

/// One whole run as a function of its environment: the command-line suffix,
/// the API key, the raw cache state, the clock, and the bodies the two
/// exchanges would return (`None` for a transport failure; the geo-IP
/// exchange is consulted only when the cache is unusable, the weather
/// exchange only when a location was resolved).
pub open spec fn sp_run(
    suffix: Seq<u8>,
    key: Seq<u8>,
    cache: Option<(Seq<u8>, int)>,
    now: int,
    geo_fetch: Option<Seq<u8>>,
    weather_fetch: Option<Seq<u8>>,
) -> SpRun {
    match sp_resolution(cache, now, geo_fetch) {
        SpResolution::FromCache(l) => SpRun {
            geo_url: None,
            cache_write: None,
            weather_url: Some(sp_weather_url(l.latitude, l.longitude, key)),
            outcome: sp_weather_outcome(weather_fetch),
        },
        SpResolution::FromFetch(l, enc) => SpRun {
            geo_url: Some(sp_geo_url(suffix)),
            cache_write: Some(enc),
            weather_url: Some(sp_weather_url(l.latitude, l.longitude, key)),
            outcome: sp_weather_outcome(weather_fetch),
        },
        SpResolution::Unresolved => SpRun {
            geo_url: Some(sp_geo_url(suffix)),
            cache_write: None,
            weather_url: None,
            outcome: SpOutcome::Aborted,
        },
    }
}

/// A usable cache serves the location: no geo-IP exchange is issued, nothing
/// is written back, and the weather exchange carries the cached coordinates.
pub proof fn lemma_run_from_cache(
    suffix: Seq<u8>,
    key: Seq<u8>,
    cache: Option<(Seq<u8>, int)>,
    now: int,
    geo_fetch: Option<Seq<u8>>,
    weather_fetch: Option<Seq<u8>>,
)
    requires
        sp_cache_of(cache, now) is Some,
    ensures
        sp_cache_of(cache, now) matches Some(l) ==> sp_run(
            suffix,
            key,
            cache,
            now,
            geo_fetch,
            weather_fetch,
        ) == (SpRun {
            geo_url: None,
            cache_write: None,
            weather_url: Some(sp_weather_url(l.latitude, l.longitude, key)),
            outcome: sp_weather_outcome(weather_fetch),
        }),
{
}

/// An unusable cache and a decodable fresh body: the geo-IP exchange is
/// issued at the suffix's URL, the cache is rewritten with the fresh
/// location's canonical encoding, and the weather exchange carries the fresh
/// coordinates. This covers a missing cache file, a stale entry and a
/// corrupt entry alike.
pub proof fn lemma_run_fresh_fetch(
    suffix: Seq<u8>,
    key: Seq<u8>,
    cache: Option<(Seq<u8>, int)>,
    now: int,
    body: Seq<u8>,
    weather_fetch: Option<Seq<u8>>,
)
    requires
        sp_cache_of(cache, now) is None,
        sp_decode_location(body) is Some,
    ensures
        sp_decode_location(body) matches Some(l) ==> sp_run(
            suffix,
            key,
            cache,
            now,
            Some(body),
            weather_fetch,
        ) == (SpRun {
            geo_url: Some(sp_geo_url(suffix)),
            cache_write: Some(sp_encode_location(l)),
            weather_url: Some(sp_weather_url(l.latitude, l.longitude, key)),
            outcome: sp_weather_outcome(weather_fetch),
        }),
{
}

/// An unusable cache and a failed or undecodable geo-IP exchange: the run
/// aborts, nothing is written, and no weather exchange is ever issued.
pub proof fn lemma_run_aborts(
    suffix: Seq<u8>,
    key: Seq<u8>,
    cache: Option<(Seq<u8>, int)>,
    now: int,
    geo_fetch: Option<Seq<u8>>,
    weather_fetch: Option<Seq<u8>>,
)
    requires
        sp_cache_of(cache, now) is None,
        match geo_fetch {
            None => true,
            Some(body) => sp_decode_location(body) is None,
        },
    ensures
        sp_run(suffix, key, cache, now, geo_fetch, weather_fetch) == (SpRun {
            geo_url: Some(sp_geo_url(suffix)),
            cache_write: None,
            weather_url: None,
            outcome: SpOutcome::Aborted,
        }),
{
}

/// When the geo-IP fetch fails, the pipeline serves the cached location if
/// the cache is usable and otherwise resolves nothing: a failed fetch never
/// yields a location from anywhere else.
pub proof fn lemma_fetch_failure_resolution(cache: Option<(Seq<u8>, int)>, now: int)
    ensures
        match sp_cache_of(cache, now) {
            Some(l) => sp_resolution(cache, now, None) == SpResolution::FromCache(l),
            None => sp_resolution(cache, now, None) == SpResolution::Unresolved,
        },
{
}

/// Every location the pipeline resolves has a provenance: it is exactly the
/// usable cache entry, or exactly the decoded body of a successful fetch —
/// never a default.
pub proof fn lemma_resolution_provenance(
    cache: Option<(Seq<u8>, int)>,
    now: int,
    fetch: Option<Seq<u8>>,
)
    ensures
        sp_resolution(cache, now, fetch) matches SpResolution::FromCache(l) ==> sp_cache_of(
            cache,
            now,
        ) == Some(l),
        sp_resolution(cache, now, fetch) matches SpResolution::FromFetch(l, enc)
            ==> sp_cache_of(cache, now) is None && (fetch matches Some(body)
            && sp_decode_location(body) == Some(l) && enc == sp_encode_location(l)),
        sp_resolution(cache, now, fetch) is Unresolved ==> sp_cache_of(cache, now) is None
            && match fetch {
                None => true,
                Some(body) => sp_decode_location(body) is None,
            },
{
}

} // verus!
