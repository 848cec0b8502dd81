//! A verified core for a small weather-report utility.
//!
//! The crate models the logic of the utility: the failure taxonomy, the
//! byte-level codec for the two JSON record schemas (geo-IP locations and
//! weather observations), the freshness-gated location cache, the URL
//! construction for the two services, and the location-resolution pipeline.
//! All network and filesystem traffic is left to the surrounding program,
//! which hands plain values (bytes, epoch seconds) in and out.

pub mod errors;
pub mod json;
pub mod location;
pub mod cache;
pub mod numbers;
pub mod resolve;
pub mod text;
pub mod urls;
pub mod weather;

use vstd::prelude::*;

verus! {

} // verus!
