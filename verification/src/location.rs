//! The geo-IP location record and its JSON codec.
//!
//! A `Location` is produced only by decoding a geo-IP response or the cache
//! file. Text fields hold UTF-8 bytes; `latitude` and `longitude` hold the
//! verbatim JSON number token of the service, so that caching and URL
//! construction reproduce the wire value exactly.

use vstd::prelude::*;
use vstd::string::StringExecFns;
use crate::errors::ErrorExt;
use crate::text::bytes_of;
use crate::text::QUOTE;
use crate::text::RBRACE;
use crate::json::esc;
use crate::json::text_wf;
use crate::json::is_numlit;
use crate::json::is_numchar;
use crate::json::sp_text_field;
use crate::json::sp_num_field;
use crate::json::sp_u64_field;
use crate::json::sp_expect_byte;
use crate::json::text_field;
use crate::json::num_field;
use crate::json::u64_field;
use crate::json::expect_byte;
use crate::json::push_escaped;
use crate::json::lemma_text_field_at;
use crate::json::lemma_num_field_at;
use crate::json::lemma_u64_field_at;
use crate::numbers::u64_dec;
use crate::numbers::is_digit;
use crate::numbers::push_u64_dec;
use crate::text::push_str_bytes;

verus! {

/// The decoded geo-IP record. All fields are required on decode.
#[derive(Debug)]
pub struct Location {
    pub ip: Vec<u8>,
    pub country_code: Vec<u8>,
    pub country_name: Vec<u8>,
    pub region_code: Vec<u8>,
    pub region_name: Vec<u8>,
    pub city: Vec<u8>,
    pub zip_code: Vec<u8>,
    pub time_zone: Vec<u8>,
    pub latitude: Vec<u8>,
    pub longitude: Vec<u8>,
    pub metro_code: u32,
}

/// The mathematical value of a [`Location`].
pub struct LocationV {
    pub ip: Seq<u8>,
    pub country_code: Seq<u8>,
    pub country_name: Seq<u8>,
    pub region_code: Seq<u8>,
    pub region_name: Seq<u8>,
    pub city: Seq<u8>,
    pub zip_code: Seq<u8>,
    pub time_zone: Seq<u8>,
    pub latitude: Seq<u8>,
    pub longitude: Seq<u8>,
    pub metro_code: u32,
}

impl View for Location {
    type V = LocationV;

    open spec fn view(&self) -> LocationV {
        LocationV {
            ip: self.ip@,
            country_code: self.country_code@,
            country_name: self.country_name@,
            region_code: self.region_code@,
            region_name: self.region_name@,
            city: self.city@,
            zip_code: self.zip_code@,
            time_zone: self.time_zone@,
            latitude: self.latitude@,
            longitude: self.longitude@,
            metro_code: self.metro_code,
        }
    }
}

impl LocationV {
    /// Well-formedness: text fields carry no control bytes, and the two
    /// coordinates are number tokens. Every decoded record satisfies this.
    pub open spec fn wf(self) -> bool {
        &&& text_wf(self.ip)
        &&& text_wf(self.country_code)
        &&& text_wf(self.country_name)
        &&& text_wf(self.region_code)
        &&& text_wf(self.region_name)
        &&& text_wf(self.city)
        &&& text_wf(self.zip_code)
        &&& text_wf(self.time_zone)
        &&& is_numlit(self.latitude)
        &&& is_numlit(self.longitude)
    }
}

/// The canonical JSON encoding of a location: the eleven fields of the
/// schema, in schema order, with no interior whitespace.
pub open spec fn sp_encode_location(l: LocationV) -> Seq<u8> {
    bytes_of("{\"ip\":\""@) + esc(l.ip) + seq![QUOTE]
        + bytes_of(",\"country_code\":\""@) + esc(l.country_code) + seq![QUOTE]
        + bytes_of(",\"country_name\":\""@) + esc(l.country_name) + seq![QUOTE]
        + bytes_of(",\"region_code\":\""@) + esc(l.region_code) + seq![QUOTE]
        + bytes_of(",\"region_name\":\""@) + esc(l.region_name) + seq![QUOTE]
        + bytes_of(",\"city\":\""@) + esc(l.city) + seq![QUOTE]
        + bytes_of(",\"zip_code\":\""@) + esc(l.zip_code) + seq![QUOTE]
        + bytes_of(",\"time_zone\":\""@) + esc(l.time_zone) + seq![QUOTE]
        + bytes_of(",\"latitude\":"@) + l.latitude
        + bytes_of(",\"longitude\":"@) + l.longitude
        + bytes_of(",\"metro_code\":"@) + u64_dec(l.metro_code as nat)
        + seq![RBRACE]
}

/// Decoding a location: the eleven fields in schema order, then the closing
/// brace, then the end of the input.
pub open spec fn sp_decode_location(s: Seq<u8>) -> Option<LocationV> {
    match sp_text_field(s, 0, bytes_of("{\"ip\":\""@)) {
        None => None,
        Some((ip, i1)) => match sp_text_field(s, i1, bytes_of(",\"country_code\":\""@)) {
            None => None,
            Some((country_code, i2)) => match sp_text_field(
                s, i2, bytes_of(",\"country_name\":\""@)) {
                None => None,
                Some((country_name, i3)) => match sp_text_field(
                    s, i3, bytes_of(",\"region_code\":\""@)) {
                    None => None,
                    Some((region_code, i4)) => match sp_text_field(
                        s, i4, bytes_of(",\"region_name\":\""@)) {
                        None => None,
                        Some((region_name, i5)) => match sp_text_field(
                            s, i5, bytes_of(",\"city\":\""@)) {
                            None => None,
                            Some((city, i6)) => match sp_text_field(
                                s, i6, bytes_of(",\"zip_code\":\""@)) {
                                None => None,
                                Some((zip_code, i7)) => match sp_text_field(
                                    s, i7, bytes_of(",\"time_zone\":\""@)) {
                                    None => None,
                                    Some((time_zone, i8)) => match sp_num_field(
                                        s, i8, bytes_of(",\"latitude\":"@)) {
                                        None => None,
                                        Some((latitude, i9)) => match sp_num_field(
                                            s, i9, bytes_of(",\"longitude\":"@)) {
                                            None => None,
                                            Some((longitude, i10)) => match sp_u64_field(
                                                s, i10, bytes_of(",\"metro_code\":"@)) {
                                                None => None,
                                                Some((metro, i11)) => if metro
                                                    <= u32::MAX as u64 {
                                                    match sp_expect_byte(s, i11, RBRACE) {
                                                        None => None,
                                                        Some(i12) => if i12 == s.len() {
                                                            Some(LocationV {
                                                                ip,
                                                                country_code,
                                                                country_name,
                                                                region_code,
                                                                region_name,
                                                                city,
                                                                zip_code,
                                                                time_zone,
                                                                latitude,
                                                                longitude,
                                                                metro_code: metro as u32,
                                                            })
                                                        } else {
                                                            None
                                                        },
                                                    }
                                                } else {
                                                    None
                                                },
                                            },
                                        },
                                    },
                                },
                            },
                        },
                    },
                },
            },
        },
    }
}

/// Encodes a location as its canonical JSON record.
pub fn encode_location(l: &Location) -> (r: Vec<u8>)
    ensures
        r@ == sp_encode_location(l@),
{
    proof {
        reveal_strlit("{\"ip\":\"");
        reveal_strlit(",\"country_code\":\"");
        reveal_strlit(",\"country_name\":\"");
        reveal_strlit(",\"region_code\":\"");
        reveal_strlit(",\"region_name\":\"");
        reveal_strlit(",\"city\":\"");
        reveal_strlit(",\"zip_code\":\"");
        reveal_strlit(",\"time_zone\":\"");
        reveal_strlit(",\"latitude\":");
        reveal_strlit(",\"longitude\":");
        reveal_strlit(",\"metro_code\":");
    }
    let mut out: Vec<u8> = Vec::new();
    push_str_bytes(&mut out, "{\"ip\":\"");
    push_escaped(&mut out, &l.ip);
    out.push(QUOTE);
    push_str_bytes(&mut out, ",\"country_code\":\"");
    push_escaped(&mut out, &l.country_code);
    out.push(QUOTE);
    push_str_bytes(&mut out, ",\"country_name\":\"");
    push_escaped(&mut out, &l.country_name);
    out.push(QUOTE);
    push_str_bytes(&mut out, ",\"region_code\":\"");
    push_escaped(&mut out, &l.region_code);
    out.push(QUOTE);
    push_str_bytes(&mut out, ",\"region_name\":\"");
    push_escaped(&mut out, &l.region_name);
    out.push(QUOTE);
    push_str_bytes(&mut out, ",\"city\":\"");
    push_escaped(&mut out, &l.city);
    out.push(QUOTE);
    push_str_bytes(&mut out, ",\"zip_code\":\"");
    push_escaped(&mut out, &l.zip_code);
    out.push(QUOTE);
    push_str_bytes(&mut out, ",\"time_zone\":\"");
    push_escaped(&mut out, &l.time_zone);
    out.push(QUOTE);
    push_str_bytes(&mut out, ",\"latitude\":");
    let mut lat = l.latitude.clone();
    out.append(&mut lat);
    push_str_bytes(&mut out, ",\"longitude\":");
    let mut lon = l.longitude.clone();
    out.append(&mut lon);
    push_str_bytes(&mut out, ",\"metro_code\":");
    push_u64_dec(&mut out, l.metro_code as u64);
    out.push(RBRACE);
    proof {
        assert(out@ =~= sp_encode_location(l@));
    }
    out
}

/// Decodes a canonical JSON location record.
pub fn decode_location(s: &Vec<u8>) -> (r: Option<Location>)
    ensures
        match r {
            Some(l) => sp_decode_location(s@) == Some(l@) && l@.wf(),
            None => sp_decode_location(s@) is None,
        },
{
    proof {
        reveal_strlit("{\"ip\":\"");
        reveal_strlit(",\"country_code\":\"");
        reveal_strlit(",\"country_name\":\"");
        reveal_strlit(",\"region_code\":\"");
        reveal_strlit(",\"region_name\":\"");
        reveal_strlit(",\"city\":\"");
        reveal_strlit(",\"zip_code\":\"");
        reveal_strlit(",\"time_zone\":\"");
        reveal_strlit(",\"latitude\":");
        reveal_strlit(",\"longitude\":");
        reveal_strlit(",\"metro_code\":");
    }
    let (ip, i1) = match text_field(s, 0, "{\"ip\":\"") {
        Some(x) => x,
        None => { return None; },
    };
    let (country_code, i2) = match text_field(s, i1, ",\"country_code\":\"") {
        Some(x) => x,
        None => { return None; },
    };
    let (country_name, i3) = match text_field(s, i2, ",\"country_name\":\"") {
        Some(x) => x,
        None => { return None; },
    };
    let (region_code, i4) = match text_field(s, i3, ",\"region_code\":\"") {
        Some(x) => x,
        None => { return None; },
    };
    let (region_name, i5) = match text_field(s, i4, ",\"region_name\":\"") {
        Some(x) => x,
        None => { return None; },
    };
    let (city, i6) = match text_field(s, i5, ",\"city\":\"") {
        Some(x) => x,
        None => { return None; },
    };
    let (zip_code, i7) = match text_field(s, i6, ",\"zip_code\":\"") {
        Some(x) => x,
        None => { return None; },
    };
    let (time_zone, i8) = match text_field(s, i7, ",\"time_zone\":\"") {
        Some(x) => x,
        None => { return None; },
    };
    let (latitude, i9) = match num_field(s, i8, ",\"latitude\":") {
        Some(x) => x,
        None => { return None; },
    };
    let (longitude, i10) = match num_field(s, i9, ",\"longitude\":") {
        Some(x) => x,
        None => { return None; },
    };
    let (metro, i11) = match u64_field(s, i10, ",\"metro_code\":") {
        Some(x) => x,
        None => { return None; },
    };
    if metro > u32::MAX as u64 {
        return None;
    }
    let i12 = match expect_byte(s, i11, RBRACE) {
        Some(x) => x,
        None => { return None; },
    };
    if i12 != s.len() {
        return None;
    }
    Some(Location {
        ip,
        country_code,
        country_name,
        region_code,
        region_name,
        city,
        zip_code,
        time_zone,
        latitude,
        longitude,
        metro_code: metro as u32,
    })
}

/// Encodes a location, lifting the codec into the failure taxonomy. The
/// canonical encoder is total, so this always succeeds.
pub fn serialize_location(l: &Location) -> (r: Result<Vec<u8>, ErrorExt>)
    ensures
        match r {
            Ok(b) => b@ == sp_encode_location(l@),
            Err(_) => false,
        },
{
    Ok(encode_location(l))
}

/// Decodes a location, lifting a malformed record into the failure taxonomy.
pub fn deserialize_location(s: &Vec<u8>) -> (r: Result<Location, ErrorExt>)
    ensures
        match r {
            Ok(l) => sp_decode_location(s@) == Some(l@) && l@.wf(),
            Err(e) => sp_decode_location(s@) is None && e is Codec,
        },
{
    match decode_location(s) {
        Some(l) => Ok(l),
        None => Err(ErrorExt::Codec(String::from_str("malformed location record"))),
    }
}

// Positions of the successive fields inside the canonical encoding.
spec fn loc_i1(l: LocationV) -> int {
    bytes_of("{\"ip\":\""@).len() + esc(l.ip).len() + 1int
}

spec fn loc_i2(l: LocationV) -> int {
    loc_i1(l) + bytes_of(",\"country_code\":\""@).len() + esc(l.country_code).len() + 1
}

spec fn loc_i3(l: LocationV) -> int {
    loc_i2(l) + bytes_of(",\"country_name\":\""@).len() + esc(l.country_name).len() + 1
}

spec fn loc_i4(l: LocationV) -> int {
    loc_i3(l) + bytes_of(",\"region_code\":\""@).len() + esc(l.region_code).len() + 1
}

spec fn loc_i5(l: LocationV) -> int {
    loc_i4(l) + bytes_of(",\"region_name\":\""@).len() + esc(l.region_name).len() + 1
}

spec fn loc_i6(l: LocationV) -> int {
    loc_i5(l) + bytes_of(",\"city\":\""@).len() + esc(l.city).len() + 1
}

spec fn loc_i7(l: LocationV) -> int {
    loc_i6(l) + bytes_of(",\"zip_code\":\""@).len() + esc(l.zip_code).len() + 1
}

spec fn loc_i8(l: LocationV) -> int {
    loc_i7(l) + bytes_of(",\"time_zone\":\""@).len() + esc(l.time_zone).len() + 1
}

spec fn loc_i9(l: LocationV) -> int {
    loc_i8(l) + bytes_of(",\"latitude\":"@).len() + l.latitude.len()
}

spec fn loc_i10(l: LocationV) -> int {
    loc_i9(l) + bytes_of(",\"longitude\":"@).len() + l.longitude.len()
}

spec fn loc_i11(l: LocationV) -> int {
    loc_i10(l) + bytes_of(",\"metro_code\":"@).len() + u64_dec(l.metro_code as nat).len()
}

proof fn lemma_rt_ip(l: LocationV)
    requires
        l.wf(),
    ensures
        sp_text_field(sp_encode_location(l), 0, bytes_of("{\"ip\":\""@))
            == Some((l.ip, loc_i1(l))),
{
    let s = sp_encode_location(l);
    let k = bytes_of("{\"ip\":\""@);
    let i: int = 0;
    assert(s.subrange(i, i + k.len() as int) =~= k);
    assert(s.subrange(i + k.len(), i + k.len() + esc(l.ip).len() as int) =~= esc(l.ip));
    assert(s[i + k.len() + esc(l.ip).len()] == QUOTE);
    lemma_text_field_at(s, i, k, l.ip);
}

proof fn lemma_rt_country_code(l: LocationV)
    requires
        l.wf(),
    ensures
        sp_text_field(sp_encode_location(l), loc_i1(l), bytes_of(",\"country_code\":\""@))
            == Some((l.country_code, loc_i2(l))),
{
    let s = sp_encode_location(l);
    let k = bytes_of(",\"country_code\":\""@);
    let i = loc_i1(l);
    assert(s.subrange(i, i + k.len() as int) =~= k);
    assert(s.subrange(i + k.len(), i + k.len() + esc(l.country_code).len() as int)
        =~= esc(l.country_code));
    assert(s[i + k.len() + esc(l.country_code).len()] == QUOTE);
    lemma_text_field_at(s, i, k, l.country_code);
}

proof fn lemma_rt_country_name(l: LocationV)
    requires
        l.wf(),
    ensures
        sp_text_field(sp_encode_location(l), loc_i2(l), bytes_of(",\"country_name\":\""@))
            == Some((l.country_name, loc_i3(l))),
{
    let s = sp_encode_location(l);
    let k = bytes_of(",\"country_name\":\""@);
    let i = loc_i2(l);
    assert(s.subrange(i, i + k.len() as int) =~= k);
    assert(s.subrange(i + k.len(), i + k.len() + esc(l.country_name).len() as int)
        =~= esc(l.country_name));
    assert(s[i + k.len() + esc(l.country_name).len()] == QUOTE);
    lemma_text_field_at(s, i, k, l.country_name);
}

proof fn lemma_rt_region_code(l: LocationV)
    requires
        l.wf(),
    ensures
        sp_text_field(sp_encode_location(l), loc_i3(l), bytes_of(",\"region_code\":\""@))
            == Some((l.region_code, loc_i4(l))),
{
    let s = sp_encode_location(l);
    let k = bytes_of(",\"region_code\":\""@);
    let i = loc_i3(l);
    assert(s.subrange(i, i + k.len() as int) =~= k);
    assert(s.subrange(i + k.len(), i + k.len() + esc(l.region_code).len() as int)
        =~= esc(l.region_code));
    assert(s[i + k.len() + esc(l.region_code).len()] == QUOTE);
    lemma_text_field_at(s, i, k, l.region_code);
}

proof fn lemma_rt_region_name(l: LocationV)
    requires
        l.wf(),
    ensures
        sp_text_field(sp_encode_location(l), loc_i4(l), bytes_of(",\"region_name\":\""@))
            == Some((l.region_name, loc_i5(l))),
{
    let s = sp_encode_location(l);
    let k = bytes_of(",\"region_name\":\""@);
    let i = loc_i4(l);
    assert(s.subrange(i, i + k.len() as int) =~= k);
    assert(s.subrange(i + k.len(), i + k.len() + esc(l.region_name).len() as int)
        =~= esc(l.region_name));
    assert(s[i + k.len() + esc(l.region_name).len()] == QUOTE);
    lemma_text_field_at(s, i, k, l.region_name);
}

proof fn lemma_rt_city(l: LocationV)
    requires
        l.wf(),
    ensures
        sp_text_field(sp_encode_location(l), loc_i5(l), bytes_of(",\"city\":\""@))
            == Some((l.city, loc_i6(l))),
{
    let s = sp_encode_location(l);
    let k = bytes_of(",\"city\":\""@);
    let i = loc_i5(l);
    assert(s.subrange(i, i + k.len() as int) =~= k);
    assert(s.subrange(i + k.len(), i + k.len() + esc(l.city).len() as int) =~= esc(l.city));
    assert(s[i + k.len() + esc(l.city).len()] == QUOTE);
    lemma_text_field_at(s, i, k, l.city);
}

proof fn lemma_rt_zip_code(l: LocationV)
    requires
        l.wf(),
    ensures
        sp_text_field(sp_encode_location(l), loc_i6(l), bytes_of(",\"zip_code\":\""@))
            == Some((l.zip_code, loc_i7(l))),
{
    let s = sp_encode_location(l);
    let k = bytes_of(",\"zip_code\":\""@);
    let i = loc_i6(l);
    assert(s.subrange(i, i + k.len() as int) =~= k);
    assert(s.subrange(i + k.len(), i + k.len() + esc(l.zip_code).len() as int)
        =~= esc(l.zip_code));
    assert(s[i + k.len() + esc(l.zip_code).len()] == QUOTE);
    lemma_text_field_at(s, i, k, l.zip_code);
}

proof fn lemma_rt_time_zone(l: LocationV)
    requires
        l.wf(),
    ensures
        sp_text_field(sp_encode_location(l), loc_i7(l), bytes_of(",\"time_zone\":\""@))
            == Some((l.time_zone, loc_i8(l))),
{
    let s = sp_encode_location(l);
    let k = bytes_of(",\"time_zone\":\""@);
    let i = loc_i7(l);
    assert(s.subrange(i, i + k.len() as int) =~= k);
    assert(s.subrange(i + k.len(), i + k.len() + esc(l.time_zone).len() as int)
        =~= esc(l.time_zone));
    assert(s[i + k.len() + esc(l.time_zone).len()] == QUOTE);
    lemma_text_field_at(s, i, k, l.time_zone);
}

proof fn lemma_rt_latitude(l: LocationV)
    requires
        l.wf(),
    ensures
        sp_num_field(sp_encode_location(l), loc_i8(l), bytes_of(",\"latitude\":"@))
            == Some((l.latitude, loc_i9(l))),
{
    let s = sp_encode_location(l);
    let k = bytes_of(",\"latitude\":"@);
    let i = loc_i8(l);
    reveal_strlit(",\"longitude\":");
    assert(bytes_of(",\"longitude\":"@)[0] == 44);
    assert(!is_numchar(44));
    assert(s.subrange(i, i + k.len() as int) =~= k);
    assert(s.subrange(i + k.len(), i + k.len() + l.latitude.len() as int) =~= l.latitude);
    assert(s[i + k.len() + l.latitude.len()] == bytes_of(",\"longitude\":"@)[0]);
    lemma_num_field_at(s, i, k, l.latitude);
}

proof fn lemma_rt_longitude(l: LocationV)
    requires
        l.wf(),
    ensures
        sp_num_field(sp_encode_location(l), loc_i9(l), bytes_of(",\"longitude\":"@))
            == Some((l.longitude, loc_i10(l))),
{
    let s = sp_encode_location(l);
    let k = bytes_of(",\"longitude\":"@);
    let i = loc_i9(l);
    reveal_strlit(",\"metro_code\":");
    assert(bytes_of(",\"metro_code\":"@)[0] == 44);
    assert(!is_numchar(44));
    assert(s.subrange(i, i + k.len() as int) =~= k);
    assert(s.subrange(i + k.len(), i + k.len() + l.longitude.len() as int) =~= l.longitude);
    assert(s[i + k.len() + l.longitude.len()] == bytes_of(",\"metro_code\":"@)[0]);
    lemma_num_field_at(s, i, k, l.longitude);
}

proof fn lemma_rt_metro_code(l: LocationV)
    requires
        l.wf(),
    ensures
        sp_u64_field(sp_encode_location(l), loc_i10(l), bytes_of(",\"metro_code\":"@))
            == Some((l.metro_code as u64, loc_i11(l))),
{
    let s = sp_encode_location(l);
    let k = bytes_of(",\"metro_code\":"@);
    let i = loc_i10(l);
    let d = u64_dec(l.metro_code as nat);
    assert(s.subrange(i, i + k.len() as int) =~= k);
    assert(s.subrange(i + k.len(), i + k.len() + d.len() as int) =~= d);
    assert(s[i + k.len() + d.len()] == RBRACE);
    assert(!is_digit(RBRACE));
    lemma_u64_field_at(s, i, k, l.metro_code as u64);
}

/// Round trip over the location schema: decoding an encoded record yields
/// the record back, for every well-formed location.
pub proof fn lemma_location_round_trip(l: LocationV)
    requires
        l.wf(),
    ensures
        sp_decode_location(sp_encode_location(l)) == Some(l),
{
    let s = sp_encode_location(l);
    lemma_rt_ip(l);
    lemma_rt_country_code(l);
    lemma_rt_country_name(l);
    lemma_rt_region_code(l);
    lemma_rt_region_name(l);
    lemma_rt_city(l);
    lemma_rt_zip_code(l);
    lemma_rt_time_zone(l);
    lemma_rt_latitude(l);
    lemma_rt_longitude(l);
    lemma_rt_metro_code(l);
    assert(l.metro_code as u64 <= u32::MAX as u64);
    assert(s[loc_i11(l)] == RBRACE);
    assert(sp_expect_byte(s, loc_i11(l), RBRACE) == Some(loc_i11(l) + 1));
    assert(loc_i11(l) + 1 == s.len());
    assert(LocationV {
        ip: l.ip,
        country_code: l.country_code,
        country_name: l.country_name,
        region_code: l.region_code,
        region_name: l.region_name,
        city: l.city,
        zip_code: l.zip_code,
        time_zone: l.time_zone,
        latitude: l.latitude,
        longitude: l.longitude,
        metro_code: (l.metro_code as u64) as u32,
    } == l);
}

} // verus!
