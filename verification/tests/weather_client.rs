use weather::cache::get_cached_location;
use weather::cache::cache_location;
use weather::cache::cache_is_stale;
use weather::errors::ErrorExt;
use weather::location::Location;
use weather::location::encode_location;
use weather::location::decode_location;
use weather::location::deserialize_location;
use weather::location::serialize_location;
use weather::numbers::push_u64_dec;
use weather::numbers::parse_u64;
use weather::resolve::resolve_fetched;
use weather::resolve::resolve_weather;
use weather::resolve::location_for_weather;
use weather::urls::geo_url;
use weather::urls::weather_url;
use weather::weather::Clouds;
use weather::weather::LatLong;
use weather::weather::OWMSystem;
use weather::weather::Rain;
use weather::weather::Snow;
use weather::weather::WeatherBasics;
use weather::weather::WeatherDetails;
use weather::weather::WeatherResponse;
use weather::weather::Wind;
use weather::weather::encode_weather;
use weather::weather::decode_weather;
use weather::weather::deserialize_weather;
use weather::weather::parse_rain;
use weather::weather::parse_snow;
use weather::weather::push_rain;
use weather::weather::push_snow;

fn b(s: &str) -> Vec<u8> {
    s.as_bytes().to_vec()
}

fn sample_location() -> Location {
    Location {
        ip: b("1.2.3.4"),
        country_code: b("US"),
        country_name: b("United States"),
        region_code: b("CA"),
        region_name: b("California"),
        city: b("Mountain View"),
        zip_code: b("94043"),
        time_zone: b("America/Los_Angeles"),
        latitude: b("37.4"),
        longitude: b("-122.08"),
        metro_code: 807,
    }
}

const SAMPLE_GEO_BODY: &str = "{\"ip\":\"1.2.3.4\",\"country_code\":\"US\",\"country_name\":\"United States\",\"region_code\":\"CA\",\"region_name\":\"California\",\"city\":\"Mountain View\",\"zip_code\":\"94043\",\"time_zone\":\"America/Los_Angeles\",\"latitude\":37.4,\"longitude\":-122.08,\"metro_code\":807}";

fn assert_sample(l: &Location) {
    assert_eq!(l.ip, b("1.2.3.4"));
    assert_eq!(l.country_code, b("US"));
    assert_eq!(l.country_name, b("United States"));
    assert_eq!(l.region_code, b("CA"));
    assert_eq!(l.region_name, b("California"));
    assert_eq!(l.city, b("Mountain View"));
    assert_eq!(l.zip_code, b("94043"));
    assert_eq!(l.time_zone, b("America/Los_Angeles"));
    assert_eq!(l.latitude, b("37.4"));
    assert_eq!(l.longitude, b("-122.08"));
    assert_eq!(l.metro_code, 807);
}

#[test]
fn location_encodes_to_wire_form() {
    let enc = encode_location(&sample_location());
    assert_eq!(enc, b(SAMPLE_GEO_BODY));
}

#[test]
fn location_round_trip() {
    let enc = encode_location(&sample_location());
    let back = decode_location(&enc).expect("canonical record must decode");
    assert_sample(&back);
}

#[test]
fn location_round_trip_with_escapes() {
    let mut l = sample_location();
    l.city = b("a\"b\\c");
    let enc = encode_location(&l);
    let back = decode_location(&enc).expect("escaped record must decode");
    assert_eq!(back.city, b("a\"b\\c"));
}

#[test]
fn location_decode_of_service_body() {
    let l = decode_location(&b(SAMPLE_GEO_BODY)).expect("service body must decode");
    assert_sample(&l);
}

#[test]
fn location_decode_rejects_garbage() {
    assert!(decode_location(&b("{ not json")).is_none());
    assert!(decode_location(&b("")).is_none());
    let with_trailing = format!("{} ", SAMPLE_GEO_BODY);
    assert!(decode_location(&b(&with_trailing)).is_none());
}

#[test]
fn deserialize_location_reports_codec_error() {
    match deserialize_location(&b("{ not json")) {
        Err(ErrorExt::Codec(_)) => {},
        other => panic!("expected a codec error, got {:?}", other),
    }
}

#[test]
fn serialize_location_succeeds() {
    let enc = serialize_location(&sample_location()).expect("encoding is total");
    assert_eq!(enc, b(SAMPLE_GEO_BODY));
}

#[test]
fn cache_window_boundary_is_usable() {
    let enc = encode_location(&sample_location());
    let now: i64 = 1_000_000_000;
    let loc = get_cached_location(&enc, now - 86_400, now).expect("boundary entry is fresh");
    assert_sample(&loc);
}

#[test]
fn cache_one_second_past_boundary_is_stale() {
    let enc = encode_location(&sample_location());
    let now: i64 = 1_000_000_000;
    match get_cached_location(&enc, now - 86_401, now) {
        Err(ErrorExt::DataTooOld) => {},
        other => panic!("expected DataTooOld, got {:?}", other),
    }
}

#[test]
fn cache_staleness_ignores_contents() {
    let now: i64 = 1_000_000_000;
    match get_cached_location(&b("{ not json"), now - 90_000, now) {
        Err(ErrorExt::DataTooOld) => {},
        other => panic!("expected DataTooOld, got {:?}", other),
    }
}

#[test]
fn cache_corrupt_but_fresh_is_codec_error() {
    let now: i64 = 1_000_000_000;
    match get_cached_location(&b("{ not json"), now - 60, now) {
        Err(ErrorExt::Codec(_)) => {},
        other => panic!("expected a codec error, got {:?}", other),
    }
}

#[test]
fn cache_staleness_handles_extreme_clocks() {
    assert!(cache_is_stale(i64::MAX, i64::MIN));
    assert!(!cache_is_stale(i64::MIN, i64::MAX));
    assert!(!cache_is_stale(0, 0));
}

#[test]
fn cache_write_bytes_are_canonical_encoding() {
    let l = sample_location();
    assert_eq!(cache_location(&l), encode_location(&l));
}

#[test]
fn geo_url_with_empty_suffix_keeps_trailing_slash() {
    assert_eq!(geo_url(&b("")), b("https://freegeoip.net/json/"));
}

#[test]
fn geo_url_appends_suffix_verbatim() {
    assert_eq!(geo_url(&b("8.8.8.8")), b("https://freegeoip.net/json/8.8.8.8"));
    assert_eq!(
        geo_url(&b("a b/c?d")),
        b("https://freegeoip.net/json/a b/c?d"),
    );
}

#[test]
fn weather_url_uses_verbatim_coordinates_and_key() {
    let url = weather_url(&sample_location(), &b("KEY"));
    assert_eq!(
        url,
        b("http://api.openweathermap.org/data/2.5/weather?lat=37.4&lon=-122.08&appid=KEY"),
    );
}

#[test]
fn resolve_fetched_decodes_and_reencodes_body() {
    let (loc, to_cache) = resolve_fetched(Ok(b(SAMPLE_GEO_BODY))).expect("body decodes");
    assert_sample(&loc);
    assert_eq!(to_cache, b(SAMPLE_GEO_BODY));
}

#[test]
fn resolve_fetched_transport_failure_is_terminal() {
    match resolve_fetched(Err("connection refused".to_string())) {
        Err(e @ ErrorExt::Transport(_)) => {
            assert_eq!(e.cause().map(String::as_str), Some("connection refused"));
        },
        other => panic!("expected a transport error, got {:?}", other),
    }
}

#[test]
fn resolve_fetched_rejects_malformed_body() {
    match resolve_fetched(Ok(b("{ not json"))) {
        Err(ErrorExt::Codec(_)) => {},
        other => panic!("expected a codec error, got {:?}", other),
    }
}

#[test]
fn cache_write_failure_does_not_alter_location() {
    let fresh = sample_location();
    let failed: Result<(), ErrorExt> = Err(ErrorExt::Io("disk full".to_string()));
    let handed = location_for_weather(fresh, &failed);
    assert_sample(&handed);
    let fresh2 = sample_location();
    let ok: Result<(), ErrorExt> = Ok(());
    let handed2 = location_for_weather(fresh2, &ok);
    assert_sample(&handed2);
}

#[test]
fn error_descriptions() {
    assert_eq!(ErrorExt::Io("x".to_string()).description(), "I/O error");
    assert_eq!(ErrorExt::Codec("x".to_string()).description(), "codec error");
    assert_eq!(ErrorExt::Transport("x".to_string()).description(), "transport error");
    assert_eq!(ErrorExt::DataTooOld.description(), "data too old");
    assert!(ErrorExt::DataTooOld.cause().is_none());
}

#[test]
fn decimal_rendering_exact_values() {
    let mut out = Vec::new();
    push_u64_dec(&mut out, 0);
    assert_eq!(out, b("0"));
    let mut out = Vec::new();
    push_u64_dec(&mut out, 86_401);
    assert_eq!(out, b("86401"));
    let mut out = Vec::new();
    push_u64_dec(&mut out, u64::MAX);
    assert_eq!(out, b("18446744073709551615"));
}

#[test]
fn decimal_parse_round_trip_and_rejections() {
    let input = b("18446744073709551615");
    assert_eq!(parse_u64(&input, 0), Some((u64::MAX, 20)));
    assert_eq!(parse_u64(&b("807}"), 0), Some((807, 3)));
    assert!(parse_u64(&b("007"), 0).is_none());
    assert!(parse_u64(&b("18446744073709551616"), 0).is_none());
    assert!(parse_u64(&b("x"), 0).is_none());
}

fn empty_weather() -> WeatherResponse {
    WeatherResponse {
        coord: None,
        weather: None,
        base: None,
        main: None,
        wind: None,
        clouds: None,
        dt: None,
        sys: None,
        id: None,
        name: None,
        cod: None,
    }
}

const EMPTY_WEATHER_BODY: &str = "{\"coord\":null,\"weather\":null,\"base\":null,\"main\":null,\"wind\":null,\"clouds\":null,\"dt\":null,\"sys\":null,\"id\":null,\"name\":null,\"cod\":null}";

#[test]
fn minimal_weather_round_trip_keeps_fields_absent() {
    let enc = encode_weather(&empty_weather());
    assert_eq!(enc, b(EMPTY_WEATHER_BODY));
    let back = decode_weather(&enc).expect("minimal record must decode");
    assert!(back.coord.is_none());
    assert!(back.weather.is_none());
    assert!(back.base.is_none());
    assert!(back.main.is_none());
    assert!(back.wind.is_none());
    assert!(back.clouds.is_none());
    assert!(back.dt.is_none());
    assert!(back.sys.is_none());
    assert!(back.id.is_none());
    assert!(back.name.is_none());
    assert!(back.cod.is_none());
}

fn full_weather() -> WeatherResponse {
    WeatherResponse {
        coord: Some(LatLong { lon: b("-122.08"), lat: b("37.4") }),
        weather: Some(vec![
            WeatherDetails {
                id: 800,
                main: b("Clear"),
                description: b("clear sky"),
                icon: b("01d"),
            },
            WeatherDetails {
                id: 701,
                main: b("Mist"),
                description: b("mist"),
                icon: b("50d"),
            },
        ]),
        base: Some(b("stations")),
        main: Some(WeatherBasics {
            temp: Some(b("289.5")),
            pressure: Some(b("1013")),
            humidity: Some(b("72")),
            temp_min: None,
            temp_max: Some(b("292.0")),
            sea_level: None,
            grnd_level: None,
        }),
        wind: Some(Wind { speed: Some(b("3.6")), deg: None }),
        clouds: Some(Clouds { all: Some(0) }),
        dt: Some(1_500_000_000),
        sys: Some(OWMSystem {
            system_type: Some(1),
            id: Some(392),
            message: Some(b("0.0045")),
            country: Some(b("US")),
            sunrise: Some(1_500_000_100),
            sunset: Some(1_500_050_000),
        }),
        id: Some(5_375_480),
        name: Some(b("Mountain View")),
        cod: Some(200),
    }
}

#[test]
fn full_weather_round_trip_preserves_every_present_field() {
    let w = full_weather();
    let enc = encode_weather(&w);
    let back = decode_weather(&enc).expect("full record must decode");
    let coord = back.coord.expect("coord present");
    assert_eq!(coord.lon, b("-122.08"));
    assert_eq!(coord.lat, b("37.4"));
    let details = back.weather.expect("conditions present");
    assert_eq!(details.len(), 2);
    assert_eq!(details[0].id, 800);
    assert_eq!(details[0].main, b("Clear"));
    assert_eq!(details[0].description, b("clear sky"));
    assert_eq!(details[0].icon, b("01d"));
    assert_eq!(details[1].id, 701);
    assert_eq!(back.base.expect("base present"), b("stations"));
    let basics = back.main.expect("main present");
    assert_eq!(basics.temp.expect("temp present"), b("289.5"));
    assert_eq!(basics.pressure.expect("pressure present"), b("1013"));
    assert_eq!(basics.humidity.expect("humidity present"), b("72"));
    assert!(basics.temp_min.is_none());
    assert_eq!(basics.temp_max.expect("temp_max present"), b("292.0"));
    assert!(basics.sea_level.is_none());
    assert!(basics.grnd_level.is_none());
    let wind = back.wind.expect("wind present");
    assert_eq!(wind.speed.expect("speed present"), b("3.6"));
    assert!(wind.deg.is_none());
    assert_eq!(back.clouds.expect("clouds present").all, Some(0));
    assert_eq!(back.dt, Some(1_500_000_000));
    let sys = back.sys.expect("sys present");
    assert_eq!(sys.system_type, Some(1));
    assert_eq!(sys.id, Some(392));
    assert_eq!(sys.message.expect("message present"), b("0.0045"));
    assert_eq!(sys.country.expect("country present"), b("US"));
    assert_eq!(sys.sunrise, Some(1_500_000_100));
    assert_eq!(sys.sunset, Some(1_500_050_000));
    assert_eq!(back.id, Some(5_375_480));
    assert_eq!(back.name.expect("name present"), b("Mountain View"));
    assert_eq!(back.cod, Some(200));
}

#[test]
fn empty_condition_list_round_trips() {
    let mut w = empty_weather();
    w.weather = Some(vec![]);
    let enc = encode_weather(&w);
    let back = decode_weather(&enc).expect("record with empty list must decode");
    assert_eq!(back.weather.expect("list present").len(), 0);
}

#[test]
fn weather_decode_rejects_garbage() {
    assert!(decode_weather(&b("{ not json")).is_none());
    match deserialize_weather(&b("nonsense")) {
        Err(ErrorExt::Codec(_)) => {},
        other => panic!("expected a codec error, got {:?}", other),
    }
}

#[test]
fn precipitation_blocks_round_trip_under_wire_name() {
    let mut out = Vec::new();
    push_rain(&mut out, &Rain { last_3_hours: Some(b("0.25")) });
    assert_eq!(out, b("{\"3h\":0.25}"));
    let (back, used) = parse_rain(&out, 0).expect("rain block must decode");
    assert_eq!(used, out.len());
    assert_eq!(back.last_3_hours.expect("present"), b("0.25"));

    let mut out = Vec::new();
    push_snow(&mut out, &Snow { last_3_hours: None });
    assert_eq!(out, b("{\"3h\":null}"));
    let (back, _) = parse_snow(&out, 0).expect("snow block must decode");
    assert!(back.last_3_hours.is_none());
}

// The end-to-end flows, with the reads, the clock and the HTTP exchanges
// replaced by plain values, exactly as the surrounding program hands them in.

#[test]
fn scenario_cold_start_self_resolve() {
    // No cache file: the read path never yields a location, so the program
    // fetches from the bare geo-IP URL.
    let url = geo_url(&b(""));
    assert_eq!(url, b("https://freegeoip.net/json/"));
    let (loc, to_cache) = resolve_fetched(Ok(b(SAMPLE_GEO_BODY))).expect("fresh fetch decodes");
    assert_eq!(to_cache, b(SAMPLE_GEO_BODY));
    let handed = location_for_weather(loc, &Ok(()));
    let wurl = weather_url(&handed, &b("KEY"));
    assert_eq!(
        wurl,
        b("http://api.openweathermap.org/data/2.5/weather?lat=37.4&lon=-122.08&appid=KEY"),
    );
}

#[test]
fn scenario_warm_cache_fresh() {
    let now: i64 = 1_700_000_000;
    let cached = get_cached_location(&b(SAMPLE_GEO_BODY), now - 3_600, now)
        .expect("fresh cache serves the location");
    let wurl = weather_url(&cached, &b("KEY"));
    assert_eq!(
        wurl,
        b("http://api.openweathermap.org/data/2.5/weather?lat=37.4&lon=-122.08&appid=KEY"),
    );
}

#[test]
fn scenario_warm_cache_stale() {
    let now: i64 = 1_700_000_000;
    match get_cached_location(&b(SAMPLE_GEO_BODY), now - 90_000, now) {
        Err(ErrorExt::DataTooOld) => {},
        other => panic!("expected DataTooOld, got {:?}", other),
    }
    // The pipeline falls through to a live fetch and overwrites the cache.
    let (loc, to_cache) = resolve_fetched(Ok(b(SAMPLE_GEO_BODY))).expect("fetch decodes");
    assert_eq!(to_cache, b(SAMPLE_GEO_BODY));
    assert_sample(&loc);
}

#[test]
fn scenario_cache_corrupt_fetch_succeeds() {
    let now: i64 = 1_700_000_000;
    match get_cached_location(&b("{ not json"), now - 60, now) {
        Err(ErrorExt::Codec(_)) => {},
        other => panic!("expected a codec error, got {:?}", other),
    }
    let (loc, to_cache) = resolve_fetched(Ok(b(SAMPLE_GEO_BODY))).expect("fetch decodes");
    assert_eq!(to_cache, b(SAMPLE_GEO_BODY));
    assert_sample(&loc);
}

#[test]
fn scenario_no_cache_geo_ip_failure_is_terminal() {
    match resolve_fetched(Err("network unreachable".to_string())) {
        Err(ErrorExt::Transport(_)) => {},
        other => panic!("expected a transport error, got {:?}", other),
    }
}

#[test]
fn scenario_explicit_ip_argument() {
    let url = geo_url(&b("8.8.8.8"));
    assert_eq!(url, b("https://freegeoip.net/json/8.8.8.8"));
    let (loc, _) = resolve_fetched(Ok(b(SAMPLE_GEO_BODY))).expect("fetch decodes");
    assert_sample(&loc);
}

#[test]
fn empty_object_decodes_with_every_field_absent() {
    let back = decode_weather(&b("{}")).expect("the empty object is a valid record");
    assert!(back.coord.is_none());
    assert!(back.weather.is_none());
    assert!(back.base.is_none());
    assert!(back.main.is_none());
    assert!(back.wind.is_none());
    assert!(back.clouds.is_none());
    assert!(back.dt.is_none());
    assert!(back.sys.is_none());
    assert!(back.id.is_none());
    assert!(back.name.is_none());
    assert!(back.cod.is_none());
}

#[test]
fn record_with_only_the_sys_member_decodes() {
    let back = decode_weather(&b("{\"sys\":{\"3h\":7}}"))
        .expect("a record carrying only the sys member is valid");
    assert!(back.coord.is_none());
    assert!(back.weather.is_none());
    let sys = back.sys.expect("sys present");
    assert_eq!(sys.system_type, Some(7));
    assert!(sys.id.is_none());
    assert!(sys.message.is_none());
    assert!(sys.country.is_none());
    assert!(sys.sunrise.is_none());
    assert!(sys.sunset.is_none());
    assert!(back.cod.is_none());
}

#[test]
fn omitted_members_are_skipped_inside_blocks() {
    let back = decode_weather(&b("{\"main\":{\"temp\":289.5},\"cod\":200}"))
        .expect("partial blocks are valid");
    let basics = back.main.expect("main present");
    assert_eq!(basics.temp.expect("temp present"), b("289.5"));
    assert!(basics.pressure.is_none());
    assert!(basics.humidity.is_none());
    assert!(basics.grnd_level.is_none());
    assert_eq!(back.cod, Some(200));
    assert!(back.name.is_none());
}

#[test]
fn members_out_of_schema_order_are_rejected() {
    assert!(decode_weather(&b("{\"cod\":200,\"name\":\"x\"}")).is_none());
}

#[test]
fn resolve_weather_decodes_a_body() {
    let resp = resolve_weather(Ok(b("{\"name\":\"Mountain View\",\"cod\":200}")))
        .expect("body decodes");
    assert_eq!(resp.name.expect("name present"), b("Mountain View"));
    assert_eq!(resp.cod, Some(200));
}

#[test]
fn resolve_weather_transport_failure_carries_its_cause() {
    match resolve_weather(Err("timed out".to_string())) {
        Err(e @ ErrorExt::Transport(_)) => {
            assert_eq!(e.cause().map(String::as_str), Some("timed out"));
        },
        other => panic!("expected a transport error, got {:?}", other),
    }
}

#[test]
fn resolve_weather_rejects_a_malformed_body() {
    match resolve_weather(Ok(b("{ not json"))) {
        Err(ErrorExt::Codec(_)) => {},
        other => panic!("expected a codec error, got {:?}", other),
    }
}
