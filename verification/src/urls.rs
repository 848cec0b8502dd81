//! URL construction for the geo-IP and weather services.

use vstd::prelude::*;
use crate::text::bytes_of;
use crate::text::push_str_bytes;
use crate::location::Location;

verus! {

/// The geo-IP endpoint with the caller-supplied suffix appended verbatim:
/// an empty suffix asks the service to resolve the caller's own address.
pub open spec fn sp_geo_url(suffix: Seq<u8>) -> Seq<u8> {
    bytes_of("https://freegeoip.net/json/"@) + suffix
}

/// The weather endpoint, parameterised by the location's verbatim
/// coordinate tokens and the API key appended verbatim.
pub open spec fn sp_weather_url(lat: Seq<u8>, lon: Seq<u8>, key: Seq<u8>) -> Seq<u8> {
    bytes_of("http://api.openweathermap.org/data/2.5/weather?"@)
        + bytes_of("lat="@) + lat
        + bytes_of("&lon="@) + lon
        + bytes_of("&appid="@) + key
}

/// Builds the geo-IP URL: the fixed endpoint base (with its trailing slash)
/// followed by the IP suffix, appended verbatim with no URL encoding.
pub fn geo_url(ip_suffix: &Vec<u8>) -> (r: Vec<u8>)
    ensures
        r@ == sp_geo_url(ip_suffix@),
{
    proof {
        reveal_strlit("https://freegeoip.net/json/");
    }
    let mut out: Vec<u8> = Vec::new();
    push_str_bytes(&mut out, "https://freegeoip.net/json/");
    let mut sfx = ip_suffix.clone();
    out.append(&mut sfx);
    proof {
        assert(out@ =~= sp_geo_url(ip_suffix@));
    }
    out
}

/// Builds the weather URL for a location and an API key.
pub fn weather_url(location: &Location, api_key: &Vec<u8>) -> (r: Vec<u8>)
    ensures
        r@ == sp_weather_url(location@.latitude, location@.longitude, api_key@),
{
    proof {
        reveal_strlit("http://api.openweathermap.org/data/2.5/weather?");
        reveal_strlit("lat=");
        reveal_strlit("&lon=");
        reveal_strlit("&appid=");
    }
    let mut out: Vec<u8> = Vec::new();
    push_str_bytes(&mut out, "http://api.openweathermap.org/data/2.5/weather?");
    push_str_bytes(&mut out, "lat=");
    let mut lat = location.latitude.clone();
    out.append(&mut lat);
    push_str_bytes(&mut out, "&lon=");
    let mut lon = location.longitude.clone();
    out.append(&mut lon);
    push_str_bytes(&mut out, "&appid=");
    let mut key = api_key.clone();
    out.append(&mut key);
    proof {
        assert(out@ =~= sp_weather_url(location@.latitude, location@.longitude, api_key@));
    }
    out
}

} // verus!
