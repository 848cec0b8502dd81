//! The weather-observation record and its JSON codec.
//!
//! Every field of the response is optional: the service may omit any of
//! them, and an absent field is encoded as `null` so that "not reported"
//! stays distinguishable from a zero value. Number-valued fields hold the
//! verbatim JSON number token of the wire.

use vstd::prelude::*;
use vstd::string::StringExecFns;
use crate::errors::ErrorExt;
use crate::text::bytes_of;
use crate::text::QUOTE;
use crate::text::RBRACE;
use crate::text::LBRACE;
use crate::text::LBRACKET;
use crate::text::RBRACKET;
use crate::text::COMMA;
use crate::text::push_str_bytes;
use crate::json::esc;
use crate::json::text_wf;
use crate::json::is_numlit;
use crate::json::is_numchar;
use crate::json::sp_text_field;
use crate::json::sp_u64_field;
use crate::json::sp_num_field;
use crate::json::sp_expect;
use crate::json::sp_expect_byte;
use crate::json::text_field;
use crate::json::num_field;
use crate::json::u64_field;
use crate::json::expect_byte;
use crate::json::expect_lit;
use crate::json::push_escaped;
use crate::json::lemma_text_field_at;
use crate::json::lemma_num_field_at;
use crate::json::lemma_u64_field_at;
use crate::json::lemma_subrange_slice;
use crate::json::lemma_byte_at;
use crate::numbers::u64_dec;
use crate::numbers::is_digit;
use crate::numbers::push_u64_dec;

verus! {

/// A coordinate pair, each coordinate a verbatim number token.
#[derive(Debug)]
pub struct LatLong {
    pub lon: Vec<u8>,
    pub lat: Vec<u8>,
}

/// The mathematical value of a [`LatLong`].
pub struct LatLongV {
    pub lon: Seq<u8>,
    pub lat: Seq<u8>,
}

impl View for LatLong {
    type V = LatLongV;

    open spec fn view(&self) -> LatLongV {
        LatLongV { lon: self.lon@, lat: self.lat@ }
    }
}

impl LatLongV {
    pub open spec fn wf(self) -> bool {
        is_numlit(self.lon) && is_numlit(self.lat)
    }
}

/// One entry of the `weather` condition list.
#[derive(Debug)]
pub struct WeatherDetails {
    pub id: u64,
    pub main: Vec<u8>,
    pub description: Vec<u8>,
    pub icon: Vec<u8>,
}

/// The mathematical value of a [`WeatherDetails`].
pub struct WeatherDetailsV {
    pub id: u64,
    pub main: Seq<u8>,
    pub description: Seq<u8>,
    pub icon: Seq<u8>,
}

impl View for WeatherDetails {
    type V = WeatherDetailsV;

    open spec fn view(&self) -> WeatherDetailsV {
        WeatherDetailsV {
            id: self.id,
            main: self.main@,
            description: self.description@,
            icon: self.icon@,
        }
    }
}

impl WeatherDetailsV {
    pub open spec fn wf(self) -> bool {
        text_wf(self.main) && text_wf(self.description) && text_wf(self.icon)
    }
}

/// The value view of a vector of condition entries.
pub open spec fn details_view(q: Seq<WeatherDetails>) -> Seq<WeatherDetailsV> {
    q.map_values(|d: WeatherDetails| d@)
}

pub open spec fn details_all_wf(a: Seq<WeatherDetailsV>) -> bool {
    forall|k: int| 0 <= k < a.len() ==> (#[trigger] a[k]).wf()
}

/// The canonical encoding of a coordinate pair.
pub open spec fn sp_enc_latlong(v: LatLongV) -> Seq<u8> {
    bytes_of("{\"lon\":"@) + v.lon + bytes_of(",\"lat\":"@) + v.lat + seq![RBRACE]
}

/// The canonical encoding of one condition entry.
pub open spec fn sp_enc_details(v: WeatherDetailsV) -> Seq<u8> {
    bytes_of("{\"id\":"@) + u64_dec(v.id as nat)
        + bytes_of(",\"main\":\""@) + esc(v.main) + seq![QUOTE]
        + bytes_of(",\"description\":\""@) + esc(v.description) + seq![QUOTE]
        + bytes_of(",\"icon\":\""@) + esc(v.icon) + seq![QUOTE]
        + seq![RBRACE]
}

/// The comma-joined encodings of a non-empty run of condition entries.
pub open spec fn sp_enc_details_items(a: Seq<WeatherDetailsV>) -> Seq<u8>
    decreases a.len(),
{
    if a.len() == 0 {
        Seq::empty()
    } else if a.len() == 1 {
        sp_enc_details(a[0])
    } else {
        sp_enc_details(a[0]) + seq![COMMA] + sp_enc_details_items(a.subrange(1, a.len() as int))
    }
}

/// The canonical encoding of the condition list.
pub open spec fn sp_enc_details_array(a: Seq<WeatherDetailsV>) -> Seq<u8> {
    seq![LBRACKET] + sp_enc_details_items(a) + seq![RBRACKET]
}

/// Parses a coordinate pair object.
pub open spec fn sp_parse_latlong(s: Seq<u8>, i: int) -> Option<(LatLongV, int)> {
    match sp_num_field(s, i, bytes_of("{\"lon\":"@)) {
        None => None,
        Some((lon, j)) => match sp_num_field(s, j, bytes_of(",\"lat\":"@)) {
            None => None,
            Some((lat, j2)) => match sp_expect_byte(s, j2, RBRACE) {
                None => None,
                Some(j3) => Some((LatLongV { lon, lat }, j3)),
            },
        },
    }
}

/// Parses one condition entry object.
pub open spec fn sp_parse_details(s: Seq<u8>, i: int) -> Option<(WeatherDetailsV, int)> {
    match sp_u64_field(s, i, bytes_of("{\"id\":"@)) {
        None => None,
        Some((id, j)) => match sp_text_field(s, j, bytes_of(",\"main\":\""@)) {
            None => None,
            Some((main, j2)) => match sp_text_field(s, j2, bytes_of(",\"description\":\""@)) {
                None => None,
                Some((description, j3)) => match sp_text_field(
                    s, j3, bytes_of(",\"icon\":\""@)) {
                    None => None,
                    Some((icon, j4)) => match sp_expect_byte(s, j4, RBRACE) {
                        None => None,
                        Some(j5) => Some((WeatherDetailsV { id, main, description, icon }, j5)),
                    },
                },
            },
        },
    }
}

/// Parses a non-empty comma-joined run of condition entries, consuming the
/// closing bracket.
pub open spec fn sp_parse_details_items(s: Seq<u8>, i: int) -> Option<(
    Seq<WeatherDetailsV>,
    int,
)>
    decreases s.len() - i when 0 <= i <= s.len()
{
    match sp_parse_details(s, i) {
        None => None,
        Some((d, j)) => match sp_expect_byte(s, j, COMMA) {
            Some(j2) => if i < j2 <= s.len() {
                match sp_parse_details_items(s, j2) {
                    Some((rest, j3)) => Some((seq![d] + rest, j3)),
                    None => None,
                }
            } else {
                None
            },
            None => match sp_expect_byte(s, j, RBRACKET) {
                Some(j2) => Some((seq![d], j2)),
                None => None,
            },
        },
    }
}

/// Parses the condition list.
pub open spec fn sp_parse_details_array(s: Seq<u8>, i: int) -> Option<(
    Seq<WeatherDetailsV>,
    int,
)> {
    match sp_expect_byte(s, i, LBRACKET) {
        None => None,
        Some(j) => match sp_expect_byte(s, j, RBRACKET) {
            Some(j2) => Some((Seq::empty(), j2)),
            None => sp_parse_details_items(s, j),
        },
    }
}

/// Appends the encoding of a coordinate pair to `out`.
pub fn push_latlong(out: &mut Vec<u8>, v: &LatLong)
    ensures
        final(out)@ == old(out)@ + sp_enc_latlong(v@),
{
    proof {
        reveal_strlit("{\"lon\":");
        reveal_strlit(",\"lat\":");
    }
    push_str_bytes(out, "{\"lon\":");
    let mut lon = v.lon.clone();
    out.append(&mut lon);
    push_str_bytes(out, ",\"lat\":");
    let mut lat = v.lat.clone();
    out.append(&mut lat);
    out.push(RBRACE);
    proof {
        assert(out@ =~= old(out)@ + sp_enc_latlong(v@));
    }
}

/// Appends the encoding of one condition entry to `out`.
pub fn push_details(out: &mut Vec<u8>, v: &WeatherDetails)
    ensures
        final(out)@ == old(out)@ + sp_enc_details(v@),
{
    proof {
        reveal_strlit("{\"id\":");
        reveal_strlit(",\"main\":\"");
        reveal_strlit(",\"description\":\"");
        reveal_strlit(",\"icon\":\"");
    }
    push_str_bytes(out, "{\"id\":");
    push_u64_dec(out, v.id);
    push_str_bytes(out, ",\"main\":\"");
    push_escaped(out, &v.main);
    out.push(QUOTE);
    push_str_bytes(out, ",\"description\":\"");
    push_escaped(out, &v.description);
    out.push(QUOTE);
    push_str_bytes(out, ",\"icon\":\"");
    push_escaped(out, &v.icon);
    out.push(QUOTE);
    out.push(RBRACE);
    proof {
        assert(out@ =~= old(out)@ + sp_enc_details(v@));
    }
}

/// Appends the encoding of the condition list to `out`.
pub fn push_details_array(out: &mut Vec<u8>, a: &Vec<WeatherDetails>)
    ensures
        final(out)@ == old(out)@ + sp_enc_details_array(details_view(a@)),
{
    out.push(LBRACKET);
    let n = a.len();
    let mut k: usize = 0;
    while k < n
        invariant
            k <= n,
            n == a@.len(),
            out@ == old(out)@ + seq![LBRACKET] + sp_enc_items_prefix(details_view(a@), k as int),
        decreases n - k,
    {
        if k > 0 {
            out.push(COMMA);
        }
        push_details(out, &a[k]);
        proof {
            lemma_enc_items_prefix_step(details_view(a@), k as int);
            assert(out@ =~= old(out)@ + seq![LBRACKET] + sp_enc_items_prefix(
                details_view(a@),
                k + 1 as int,
            ));
        }
        k = k + 1;
    }
    out.push(RBRACKET);
    proof {
        lemma_enc_items_prefix_full(details_view(a@));
        assert(out@ =~= old(out)@ + sp_enc_details_array(details_view(a@)));
    }
}

/// The encoding of the first `k` condition entries, comma-joined.
pub open spec fn sp_enc_items_prefix(a: Seq<WeatherDetailsV>, k: int) -> Seq<u8>
    decreases k when 0 <= k <= a.len()
{
    if k <= 0 {
        Seq::empty()
    } else if k == 1 {
        sp_enc_details(a[0])
    } else {
        sp_enc_items_prefix(a, k - 1) + seq![COMMA] + sp_enc_details(a[k - 1])
    }
}

proof fn lemma_enc_items_prefix_step(a: Seq<WeatherDetailsV>, k: int)
    requires
        0 <= k < a.len(),
    ensures
        sp_enc_items_prefix(a, k + 1) == if k == 0 {
            sp_enc_details(a[0])
        } else {
            sp_enc_items_prefix(a, k) + seq![COMMA] + sp_enc_details(a[k])
        },
{
}

/// The left-fold prefix encoding of all entries equals the recursive
/// comma-joined encoding.
proof fn lemma_enc_items_prefix_full(a: Seq<WeatherDetailsV>)
    ensures
        sp_enc_items_prefix(a, a.len() as int) == sp_enc_details_items(a),
    decreases a.len(),
{
    if a.len() > 1 {
        let t = a.subrange(1, a.len() as int);
        lemma_enc_items_prefix_full(t);
        lemma_enc_items_prefix_shift(a, a.len() as int);
    }
}

/// Dropping the head shifts the prefix encoding by one entry and the head's
/// encoding.
proof fn lemma_enc_items_prefix_shift(a: Seq<WeatherDetailsV>, k: int)
    requires
        2 <= k <= a.len(),
    ensures
        sp_enc_items_prefix(a, k) == sp_enc_details(a[0]) + seq![COMMA] + sp_enc_items_prefix(
            a.subrange(1, a.len() as int),
            k - 1,
        ),
    decreases k,
{
    let t = a.subrange(1, a.len() as int);
    if k == 2 {
        assert(t[0] == a[1]);
        assert(sp_enc_items_prefix(a, 1) == sp_enc_details(a[0]));
        assert(sp_enc_items_prefix(a, 2) == sp_enc_details(a[0]) + seq![COMMA]
            + sp_enc_details(a[1]));
        assert(sp_enc_items_prefix(t, 1) == sp_enc_details(t[0]));
    } else {
        lemma_enc_items_prefix_shift(a, k - 1);
        assert(t[k - 2] == a[k - 1]);
        assert((sp_enc_details(a[0]) + seq![COMMA] + sp_enc_items_prefix(t, k - 2))
            + seq![COMMA] + sp_enc_details(a[k - 1]) =~= sp_enc_details(a[0]) + seq![COMMA]
            + (sp_enc_items_prefix(t, k - 2) + seq![COMMA] + sp_enc_details(t[k - 2])));
    }
}

/// Parses a coordinate pair, mirroring [`sp_parse_latlong`].
pub fn parse_latlong(s: &Vec<u8>, i: usize) -> (r: Option<(LatLong, usize)>)
    requires
        i <= s@.len(),
    ensures
        match r {
            Some((v, j)) => sp_parse_latlong(s@, i as int) == Some((v@, j as int))
                && i < j <= s@.len() && v@.wf(),
            None => sp_parse_latlong(s@, i as int) is None,
        },
{
    proof {
        reveal_strlit("{\"lon\":");
        reveal_strlit(",\"lat\":");
    }
    let (lon, j) = match num_field(s, i, "{\"lon\":") {
        Some(x) => x,
        None => { return None; },
    };
    let (lat, j2) = match num_field(s, j, ",\"lat\":") {
        Some(x) => x,
        None => { return None; },
    };
    let j3 = match expect_byte(s, j2, RBRACE) {
        Some(x) => x,
        None => { return None; },
    };
    Some((LatLong { lon, lat }, j3))
}

/// Parses one condition entry, mirroring [`sp_parse_details`].
pub fn parse_details(s: &Vec<u8>, i: usize) -> (r: Option<(WeatherDetails, usize)>)
    requires
        i <= s@.len(),
    ensures
        match r {
            Some((v, j)) => sp_parse_details(s@, i as int) == Some((v@, j as int))
                && i < j <= s@.len() && v@.wf(),
            None => sp_parse_details(s@, i as int) is None,
        },
{
    proof {
        reveal_strlit("{\"id\":");
        reveal_strlit(",\"main\":\"");
        reveal_strlit(",\"description\":\"");
        reveal_strlit(",\"icon\":\"");
    }
    let (id, j) = match u64_field(s, i, "{\"id\":") {
        Some(x) => x,
        None => { return None; },
    };
    let (main, j2) = match text_field(s, j, ",\"main\":\"") {
        Some(x) => x,
        None => { return None; },
    };
    let (description, j3) = match text_field(s, j2, ",\"description\":\"") {
        Some(x) => x,
        None => { return None; },
    };
    let (icon, j4) = match text_field(s, j3, ",\"icon\":\"") {
        Some(x) => x,
        None => { return None; },
    };
    let j5 = match expect_byte(s, j4, RBRACE) {
        Some(x) => x,
        None => { return None; },
    };
    Some((WeatherDetails { id, main, description, icon }, j5))
}

/// Parses a non-empty run of condition entries, mirroring
/// [`sp_parse_details_items`].
pub fn parse_details_items(s: &Vec<u8>, i: usize) -> (r: Option<(Vec<WeatherDetails>, usize)>)
    requires
        i <= s@.len(),
    ensures
        match r {
            Some((a, j)) => sp_parse_details_items(s@, i as int) == Some((
                details_view(a@),
                j as int,
            )) && i < j <= s@.len() && details_all_wf(details_view(a@)),
            None => sp_parse_details_items(s@, i as int) is None,
        },
    decreases s@.len() - i,
{
    let (d, j) = match parse_details(s, i) {
        Some(x) => x,
        None => { return None; },
    };
    match expect_byte(s, j, COMMA) {
        Some(j2) => {
            match parse_details_items(s, j2) {
                Some((mut rest, j3)) => {
                    let ghost tail = rest@;
                    rest.insert(0, d);
                    proof {
                        assert(rest@ == tail.insert(0, d));
                        assert(details_view(rest@) =~= seq![d@] + details_view(tail));
                        assert forall|k: int|
                            0 <= k < details_view(rest@).len() implies (#[trigger] details_view(
                            rest@,
                        )[k]).wf() by {
                            if k > 0 {
                                assert(details_view(rest@)[k] == details_view(tail)[k - 1]);
                            }
                        };
                    }
                    Some((rest, j3))
                },
                None => None,
            }
        },
        None => {
            let j2 = match expect_byte(s, j, RBRACKET) {
                Some(x) => x,
                None => { return None; },
            };
            let mut v: Vec<WeatherDetails> = Vec::new();
            v.push(d);
            proof {
                assert(details_view(v@) =~= seq![d@]);
            }
            Some((v, j2))
        },
    }
}

/// Parses the condition list, mirroring [`sp_parse_details_array`].
pub fn parse_details_array(s: &Vec<u8>, i: usize) -> (r: Option<(Vec<WeatherDetails>, usize)>)
    requires
        i <= s@.len(),
    ensures
        match r {
            Some((a, j)) => sp_parse_details_array(s@, i as int) == Some((
                details_view(a@),
                j as int,
            )) && i < j <= s@.len() && details_all_wf(details_view(a@)),
            None => sp_parse_details_array(s@, i as int) is None,
        },
{
    let j = match expect_byte(s, i, LBRACKET) {
        Some(x) => x,
        None => { return None; },
    };
    match expect_byte(s, j, RBRACKET) {
        Some(j2) => {
            let v: Vec<WeatherDetails> = Vec::new();
            proof {
                assert(details_view(v@) =~= Seq::<WeatherDetailsV>::empty());
            }
            Some((v, j2))
        },
        None => parse_details_items(s, j),
    }
}

/// A coordinate pair embedded at position `i` parses back to itself.
pub proof fn lemma_latlong_at(s: Seq<u8>, i: int, v: LatLongV)
    requires
        v.wf(),
        0 <= i,
        i + sp_enc_latlong(v).len() <= s.len(),
        s.subrange(i, i + sp_enc_latlong(v).len() as int) == sp_enc_latlong(v),
    ensures
        sp_parse_latlong(s, i) == Some((v, i + sp_enc_latlong(v).len())),
{
    reveal_strlit("{\"lon\":");
    reveal_strlit(",\"lat\":");
    let e = sp_enc_latlong(v);
    let ka = bytes_of("{\"lon\":"@);
    let kb = bytes_of(",\"lat\":"@);
    let o1 = ka.len() as int;
    let o2 = o1 + v.lon.len() as int;
    let o3 = o2 + kb.len() as int;
    let o4 = o3 + v.lat.len() as int;
    lemma_subrange_slice(s, i, e, 0, o1);
    assert(e.subrange(0, o1) =~= ka);
    lemma_subrange_slice(s, i, e, o1, o2);
    assert(e.subrange(o1, o2) =~= v.lon);
    lemma_byte_at(s, i, e, o2);
    assert(e[o2] == kb[0]);
    assert(kb[0] == 44);
    assert(!is_numchar(44));
    lemma_num_field_at(s, i, ka, v.lon);
    lemma_subrange_slice(s, i, e, o2, o3);
    assert(e.subrange(o2, o3) =~= kb);
    lemma_subrange_slice(s, i, e, o3, o4);
    assert(e.subrange(o3, o4) =~= v.lat);
    lemma_byte_at(s, i, e, o4);
    assert(e[o4] == RBRACE);
    assert(!is_numchar(RBRACE));
    lemma_num_field_at(s, i + o2, kb, v.lat);
    assert(sp_expect_byte(s, i + o4, RBRACE) == Some(i + o4 + 1));
}

/// One condition entry embedded at position `i` parses back to itself.
pub proof fn lemma_details_at(s: Seq<u8>, i: int, v: WeatherDetailsV)
    requires
        v.wf(),
        0 <= i,
        i + sp_enc_details(v).len() <= s.len(),
        s.subrange(i, i + sp_enc_details(v).len() as int) == sp_enc_details(v),
    ensures
        sp_parse_details(s, i) == Some((v, i + sp_enc_details(v).len())),
{
    reveal_strlit("{\"id\":");
    reveal_strlit(",\"main\":\"");
    reveal_strlit(",\"description\":\"");
    reveal_strlit(",\"icon\":\"");
    let e = sp_enc_details(v);
    let ka = bytes_of("{\"id\":"@);
    let kb = bytes_of(",\"main\":\""@);
    let kc = bytes_of(",\"description\":\""@);
    let kd = bytes_of(",\"icon\":\""@);
    let d = u64_dec(v.id as nat);
    let o1 = ka.len() as int;
    let o2 = o1 + d.len() as int;
    let o3 = o2 + kb.len() as int;
    let o4 = o3 + esc(v.main).len() as int + 1;
    let o5 = o4 + kc.len() as int;
    let o6 = o5 + esc(v.description).len() as int + 1;
    let o7 = o6 + kd.len() as int;
    let o8 = o7 + esc(v.icon).len() as int + 1;
    lemma_subrange_slice(s, i, e, 0, o1);
    assert(e.subrange(0, o1) =~= ka);
    lemma_subrange_slice(s, i, e, o1, o2);
    assert(e.subrange(o1, o2) =~= d);
    lemma_byte_at(s, i, e, o2);
    assert(e[o2] == kb[0]);
    assert(kb[0] == 44);
    assert(!is_digit(44));
    lemma_u64_field_at(s, i, ka, v.id);
    lemma_subrange_slice(s, i, e, o2, o3);
    assert(e.subrange(o2, o3) =~= kb);
    lemma_subrange_slice(s, i, e, o3, o4 - 1);
    assert(e.subrange(o3, o4 - 1) =~= esc(v.main));
    lemma_byte_at(s, i, e, o4 - 1);
    assert(e[o4 - 1] == QUOTE);
    lemma_text_field_at(s, i + o2, kb, v.main);
    lemma_subrange_slice(s, i, e, o4, o5);
    assert(e.subrange(o4, o5) =~= kc);
    lemma_subrange_slice(s, i, e, o5, o6 - 1);
    assert(e.subrange(o5, o6 - 1) =~= esc(v.description));
    lemma_byte_at(s, i, e, o6 - 1);
    assert(e[o6 - 1] == QUOTE);
    lemma_text_field_at(s, i + o4, kc, v.description);
    lemma_subrange_slice(s, i, e, o6, o7);
    assert(e.subrange(o6, o7) =~= kd);
    lemma_subrange_slice(s, i, e, o7, o8 - 1);
    assert(e.subrange(o7, o8 - 1) =~= esc(v.icon));
    lemma_byte_at(s, i, e, o8 - 1);
    assert(e[o8 - 1] == QUOTE);
    lemma_text_field_at(s, i + o6, kd, v.icon);
    lemma_byte_at(s, i, e, o8);
    assert(e[o8] == RBRACE);
    assert(sp_expect_byte(s, i + o8, RBRACE) == Some(i + o8 + 1));
}

/// A non-empty comma-joined run of entries, embedded and followed by the
/// closing bracket, parses back to the entries.
pub proof fn lemma_details_items_at(s: Seq<u8>, i: int, a: Seq<WeatherDetailsV>)
    requires
        details_all_wf(a),
        a.len() >= 1,
        0 <= i,
        i + sp_enc_details_items(a).len() + 1 <= s.len(),
        s.subrange(i, i + sp_enc_details_items(a).len() as int) == sp_enc_details_items(a),
        s[i + sp_enc_details_items(a).len()] == RBRACKET,
    ensures
        sp_parse_details_items(s, i) == Some((a, i + sp_enc_details_items(a).len() + 1)),
    decreases a.len(),
{
    let e = sp_enc_details_items(a);
    let a0 = a[0];
    let e0 = sp_enc_details(a0);
    if a.len() == 1 {
        lemma_details_at(s, i, a0);
        assert(s[i + e0.len()] == RBRACKET);
        assert(RBRACKET != COMMA);
        assert(sp_expect_byte(s, i + e0.len() as int, COMMA) is None);
        assert(sp_expect_byte(s, i + e0.len() as int, RBRACKET)
            == Some(i + e0.len() + 1));
        assert(seq![a0] =~= a);
    } else {
        let t = a.subrange(1, a.len() as int);
        let et = sp_enc_details_items(t);
        assert(e == e0 + seq![COMMA] + et);
        lemma_subrange_slice(s, i, e, 0, e0.len() as int);
        assert(e.subrange(0, e0.len() as int) =~= e0);
        lemma_details_at(s, i, a0);
        lemma_byte_at(s, i, e, e0.len() as int);
        assert(e[e0.len() as int] == COMMA);
        let j2 = i + e0.len() + 1;
        assert(sp_expect_byte(s, i + e0.len() as int, COMMA) == Some(j2));
        lemma_subrange_slice(s, i, e, e0.len() + 1 as int, e.len() as int);
        assert(e.subrange(e0.len() + 1 as int, e.len() as int) =~= et);
        assert(s[j2 + et.len()] == RBRACKET);
        assert(details_all_wf(t));
        lemma_details_items_at(s, j2, t);
        assert(seq![a0] + t =~= a);
    }
}

/// Whether an optional number token is well formed when present.
pub open spec fn opt_numlit_wf(o: Option<Seq<u8>>) -> bool {
    o matches Some(c) ==> is_numlit(c)
}

/// Whether an optional text value is well formed when present.
pub open spec fn opt_text_wf(o: Option<Seq<u8>>) -> bool {
    o matches Some(c) ==> text_wf(c)
}

/// An optional `u32` widened to the optional `u64` the wire carries.
pub open spec fn opt_u32_as_u64(o: Option<u32>) -> Option<u64> {
    match o {
        None => None,
        Some(n) => Some(n as u64),
    }
}

/// An object member holding an optional decimal integer that must fit in
/// 32 bits.
#[verifier::opaque]
pub open spec fn sp_member_u32(s: Seq<u8>, i: int, first: bool, bare: Seq<u8>, sep: Seq<u8>)
    -> Option<(Option<u32>, int, bool)> {
    match crate::json::sp_member_u64(s, i, first, bare, sep) {
        None => None,
        Some((o, j, f)) => match o {
            None => Some((None, j, f)),
            Some(n) => if n <= u32::MAX as u64 {
                Some((Some(n as u32), j, f))
            } else {
                None
            },
        },
    }
}

/// Parses an optional 32-bit integer member, mirroring [`sp_member_u32`].
pub fn member_u32(s: &Vec<u8>, i: usize, first: bool, bare: &str, sep: &str) -> (r: Option<(
    Option<u32>,
    usize,
    bool,
)>)
    requires
        bare.is_ascii(),
        sep.is_ascii(),
        i <= s@.len(),
    ensures
        match r {
            Some((o, j, f)) => sp_member_u32(s@, i as int, first, bytes_of(bare@),
                bytes_of(sep@)) == Some((o, j as int, f)) && i <= j <= s@.len(),
            None => sp_member_u32(s@, i as int, first, bytes_of(bare@), bytes_of(sep@))
                is None,
        },
{
    proof {
        reveal(sp_member_u32);
    }
    match crate::json::member_u64(s, i, first, bare, sep) {
        None => None,
        Some((o, j, f)) => match o {
            None => Some((None, j, f)),
            Some(n) => if n <= u32::MAX as u64 {
                Some((Some(n as u32), j, f))
            } else {
                None
            },
        },
    }
}

/// A member whose announcement and optional 32-bit decimal rendering are
/// embedded at position `i` parses as present.
pub proof fn lemma_member_u32_at(
    s: Seq<u8>,
    i: int,
    first: bool,
    bare: Seq<u8>,
    sep: Seq<u8>,
    o: Option<u32>,
)
    requires
        0 <= i,
        i + crate::json::member_lit(first, bare, sep).len() + crate::json::sp_enc_opt_u64(
            opt_u32_as_u64(o),
        ).len() <= s.len(),
        s.subrange(i, i + crate::json::member_lit(first, bare, sep).len() as int)
            == crate::json::member_lit(first, bare, sep),
        s.subrange(
            i + crate::json::member_lit(first, bare, sep).len(),
            i + crate::json::member_lit(first, bare, sep).len()
                + crate::json::sp_enc_opt_u64(opt_u32_as_u64(o)).len() as int,
        ) == crate::json::sp_enc_opt_u64(opt_u32_as_u64(o)),
        (o is Some) ==> (i + crate::json::member_lit(first, bare, sep).len()
            + crate::json::sp_enc_opt_u64(opt_u32_as_u64(o)).len() == s.len() || !is_digit(
            s[i + crate::json::member_lit(first, bare, sep).len()
                + crate::json::sp_enc_opt_u64(opt_u32_as_u64(o)).len()],
        )),
    ensures
        sp_member_u32(s, i, first, bare, sep) == Some((
            o,
            i + crate::json::member_lit(first, bare, sep).len()
                + crate::json::sp_enc_opt_u64(opt_u32_as_u64(o)).len(),
            false,
        )),
{
    reveal(sp_member_u32);
    crate::json::lemma_member_u64_at(s, i, first, bare, sep, opt_u32_as_u64(o));
}

/// The temperature, pressure and humidity block; every reading optional,
/// every member optional on decode.
#[derive(Debug)]
pub struct WeatherBasics {
    pub temp: Option<Vec<u8>>,
    pub pressure: Option<Vec<u8>>,
    pub humidity: Option<Vec<u8>>,
    pub temp_min: Option<Vec<u8>>,
    pub temp_max: Option<Vec<u8>>,
    pub sea_level: Option<Vec<u8>>,
    pub grnd_level: Option<Vec<u8>>,
}

/// The mathematical value of a [`WeatherBasics`].
pub struct WeatherBasicsV {
    pub temp: Option<Seq<u8>>,
    pub pressure: Option<Seq<u8>>,
    pub humidity: Option<Seq<u8>>,
    pub temp_min: Option<Seq<u8>>,
    pub temp_max: Option<Seq<u8>>,
    pub sea_level: Option<Seq<u8>>,
    pub grnd_level: Option<Seq<u8>>,
}

impl View for WeatherBasics {
    type V = WeatherBasicsV;

    open spec fn view(&self) -> WeatherBasicsV {
        WeatherBasicsV {
            temp: crate::json::view_opt_bytes(self.temp),
            pressure: crate::json::view_opt_bytes(self.pressure),
            humidity: crate::json::view_opt_bytes(self.humidity),
            temp_min: crate::json::view_opt_bytes(self.temp_min),
            temp_max: crate::json::view_opt_bytes(self.temp_max),
            sea_level: crate::json::view_opt_bytes(self.sea_level),
            grnd_level: crate::json::view_opt_bytes(self.grnd_level),
        }
    }
}

impl WeatherBasicsV {
    pub open spec fn wf(self) -> bool {
        &&& opt_numlit_wf(self.temp)
        &&& opt_numlit_wf(self.pressure)
        &&& opt_numlit_wf(self.humidity)
        &&& opt_numlit_wf(self.temp_min)
        &&& opt_numlit_wf(self.temp_max)
        &&& opt_numlit_wf(self.sea_level)
        &&& opt_numlit_wf(self.grnd_level)
    }
}

pub open spec fn sp_enc_basics_head(v: WeatherBasicsV) -> Seq<u8> {
    seq![LBRACE] + bytes_of("\"temp\":"@) + crate::json::sp_enc_opt_numlit(v.temp)
        + bytes_of(",\"pressure\":"@) + crate::json::sp_enc_opt_numlit(v.pressure)
        + bytes_of(",\"humidity\":"@) + crate::json::sp_enc_opt_numlit(v.humidity)
        + bytes_of(",\"temp_min\":"@) + crate::json::sp_enc_opt_numlit(v.temp_min)
}

pub open spec fn sp_enc_basics_tail(v: WeatherBasicsV) -> Seq<u8> {
    bytes_of(",\"temp_max\":"@) + crate::json::sp_enc_opt_numlit(v.temp_max)
        + bytes_of(",\"sea_level\":"@) + crate::json::sp_enc_opt_numlit(v.sea_level)
        + bytes_of(",\"grnd_level\":"@) + crate::json::sp_enc_opt_numlit(v.grnd_level)
        + seq![RBRACE]
}

pub open spec fn sp_enc_basics(v: WeatherBasicsV) -> Seq<u8> {
    sp_enc_basics_head(v) + sp_enc_basics_tail(v)
}

/// Parses the readings block: each member may be absent, in schema order.
pub open spec fn sp_parse_basics(s: Seq<u8>, i: int) -> Option<(WeatherBasicsV, int)> {
    match sp_expect_byte(s, i, LBRACE) {
        None => None,
        Some(i0) => match crate::json::sp_member_numlit(
            s, i0, true, bytes_of("\"temp\":"@), bytes_of(",\"temp\":"@)) {
            None => None,
            Some((temp, i1, f1)) => match crate::json::sp_member_numlit(
                s, i1, f1, bytes_of("\"pressure\":"@), bytes_of(",\"pressure\":"@)) {
                None => None,
                Some((pressure, i2, f2)) => match crate::json::sp_member_numlit(
                    s, i2, f2, bytes_of("\"humidity\":"@), bytes_of(",\"humidity\":"@)) {
                    None => None,
                    Some((humidity, i3, f3)) => match crate::json::sp_member_numlit(
                        s, i3, f3, bytes_of("\"temp_min\":"@), bytes_of(",\"temp_min\":"@)) {
                        None => None,
                        Some((temp_min, i4, f4)) => match crate::json::sp_member_numlit(
                            s, i4, f4, bytes_of("\"temp_max\":"@),
                            bytes_of(",\"temp_max\":"@)) {
                            None => None,
                            Some((temp_max, i5, f5)) => match crate::json::sp_member_numlit(
                                s, i5, f5, bytes_of("\"sea_level\":"@),
                                bytes_of(",\"sea_level\":"@)) {
                                None => None,
                                Some((sea_level, i6, f6)) => match
                                    crate::json::sp_member_numlit(
                                    s, i6, f6, bytes_of("\"grnd_level\":"@),
                                    bytes_of(",\"grnd_level\":"@)) {
                                    None => None,
                                    Some((grnd_level, i7, _)) => match sp_expect_byte(
                                        s, i7, RBRACE) {
                                        None => None,
                                        Some(j) => Some((
                                            WeatherBasicsV {
                                                temp,
                                                pressure,
                                                humidity,
                                                temp_min,
                                                temp_max,
                                                sea_level,
                                                grnd_level,
                                            },
                                            j,
                                        )),
                                    },
                                },
                            },
                        },
                    },
                },
            },
        },
    }
}

fn push_basics_head(out: &mut Vec<u8>, v: &WeatherBasics)
    ensures
        final(out)@ == old(out)@ + sp_enc_basics_head(v@),
{
    proof {
        reveal_strlit("\"temp\":");
        reveal_strlit(",\"pressure\":");
        reveal_strlit(",\"humidity\":");
        reveal_strlit(",\"temp_min\":");
    }
    out.push(LBRACE);
    push_str_bytes(out, "\"temp\":");
    crate::json::push_opt_numlit(out, &v.temp);
    push_str_bytes(out, ",\"pressure\":");
    crate::json::push_opt_numlit(out, &v.pressure);
    push_str_bytes(out, ",\"humidity\":");
    crate::json::push_opt_numlit(out, &v.humidity);
    push_str_bytes(out, ",\"temp_min\":");
    crate::json::push_opt_numlit(out, &v.temp_min);
    proof {
        assert(out@ =~= old(out)@ + sp_enc_basics_head(v@));
    }
}

fn push_basics_tail(out: &mut Vec<u8>, v: &WeatherBasics)
    ensures
        final(out)@ == old(out)@ + sp_enc_basics_tail(v@),
{
    proof {
        reveal_strlit(",\"temp_max\":");
        reveal_strlit(",\"sea_level\":");
        reveal_strlit(",\"grnd_level\":");
    }
    push_str_bytes(out, ",\"temp_max\":");
    crate::json::push_opt_numlit(out, &v.temp_max);
    push_str_bytes(out, ",\"sea_level\":");
    crate::json::push_opt_numlit(out, &v.sea_level);
    push_str_bytes(out, ",\"grnd_level\":");
    crate::json::push_opt_numlit(out, &v.grnd_level);
    out.push(RBRACE);
    proof {
        assert(out@ =~= old(out)@ + sp_enc_basics_tail(v@));
    }
}

pub fn push_basics(out: &mut Vec<u8>, v: &WeatherBasics)
    ensures
        final(out)@ == old(out)@ + sp_enc_basics(v@),
{
    push_basics_head(out, v);
    push_basics_tail(out, v);
    proof {
        assert(out@ =~= old(out)@ + sp_enc_basics(v@));
    }
}

#[verifier::spinoff_prover]
#[verifier::rlimit(100)]
pub fn parse_basics(s: &Vec<u8>, i: usize) -> (r: Option<(WeatherBasics, usize)>)
    requires
        i <= s@.len(),
    ensures
        match r {
            Some((v, j)) => sp_parse_basics(s@, i as int) == Some((v@, j as int))
                && i < j <= s@.len() && v@.wf(),
            None => sp_parse_basics(s@, i as int) is None,
        },
{
    proof {
        reveal_strlit("\"temp\":");
        reveal_strlit(",\"temp\":");
        reveal_strlit("\"pressure\":");
        reveal_strlit(",\"pressure\":");
        reveal_strlit("\"humidity\":");
        reveal_strlit(",\"humidity\":");
        reveal_strlit("\"temp_min\":");
        reveal_strlit(",\"temp_min\":");
        reveal_strlit("\"temp_max\":");
        reveal_strlit(",\"temp_max\":");
        reveal_strlit("\"sea_level\":");
        reveal_strlit(",\"sea_level\":");
        reveal_strlit("\"grnd_level\":");
        reveal_strlit(",\"grnd_level\":");
    }
    let i0 = match expect_byte(s, i, LBRACE) {
        Some(x) => x,
        None => { return None; },
    };
    let (temp, i1, f1) = match crate::json::member_numlit(s, i0, true, "\"temp\":",
        ",\"temp\":") {
        Some(x) => x,
        None => { return None; },
    };
    let (pressure, i2, f2) = match crate::json::member_numlit(s, i1, f1, "\"pressure\":",
        ",\"pressure\":") {
        Some(x) => x,
        None => { return None; },
    };
    let (humidity, i3, f3) = match crate::json::member_numlit(s, i2, f2, "\"humidity\":",
        ",\"humidity\":") {
        Some(x) => x,
        None => { return None; },
    };
    let (temp_min, i4, f4) = match crate::json::member_numlit(s, i3, f3, "\"temp_min\":",
        ",\"temp_min\":") {
        Some(x) => x,
        None => { return None; },
    };
    let (temp_max, i5, f5) = match crate::json::member_numlit(s, i4, f4, "\"temp_max\":",
        ",\"temp_max\":") {
        Some(x) => x,
        None => { return None; },
    };
    let (sea_level, i6, f6) = match crate::json::member_numlit(s, i5, f5, "\"sea_level\":",
        ",\"sea_level\":") {
        Some(x) => x,
        None => { return None; },
    };
    let (grnd_level, i7, _f7) = match crate::json::member_numlit(s, i6, f6,
        "\"grnd_level\":", ",\"grnd_level\":") {
        Some(x) => x,
        None => { return None; },
    };
    let j = match expect_byte(s, i7, RBRACE) {
        Some(x) => x,
        None => { return None; },
    };
    Some((
        WeatherBasics { temp, pressure, humidity, temp_min, temp_max, sea_level, grnd_level },
        j,
    ))
}

/// The wind block; both readings optional, both members optional on decode.
#[derive(Debug)]
pub struct Wind {
    pub speed: Option<Vec<u8>>,
    pub deg: Option<Vec<u8>>,
}

/// The mathematical value of a [`Wind`].
pub struct WindV {
    pub speed: Option<Seq<u8>>,
    pub deg: Option<Seq<u8>>,
}

impl View for Wind {
    type V = WindV;

    open spec fn view(&self) -> WindV {
        WindV {
            speed: crate::json::view_opt_bytes(self.speed),
            deg: crate::json::view_opt_bytes(self.deg),
        }
    }
}

impl WindV {
    pub open spec fn wf(self) -> bool {
        opt_numlit_wf(self.speed) && opt_numlit_wf(self.deg)
    }
}

pub open spec fn sp_enc_wind(v: WindV) -> Seq<u8> {
    seq![LBRACE] + bytes_of("\"speed\":"@) + crate::json::sp_enc_opt_numlit(v.speed)
        + bytes_of(",\"deg\":"@) + crate::json::sp_enc_opt_numlit(v.deg)
        + seq![RBRACE]
}

pub open spec fn sp_parse_wind(s: Seq<u8>, i: int) -> Option<(WindV, int)> {
    match sp_expect_byte(s, i, LBRACE) {
        None => None,
        Some(i0) => match crate::json::sp_member_numlit(
            s, i0, true, bytes_of("\"speed\":"@), bytes_of(",\"speed\":"@)) {
            None => None,
            Some((speed, i1, f1)) => match crate::json::sp_member_numlit(
                s, i1, f1, bytes_of("\"deg\":"@), bytes_of(",\"deg\":"@)) {
                None => None,
                Some((deg, i2, _)) => match sp_expect_byte(s, i2, RBRACE) {
                    None => None,
                    Some(j) => Some((WindV { speed, deg }, j)),
                },
            },
        },
    }
}

pub fn push_wind(out: &mut Vec<u8>, v: &Wind)
    ensures
        final(out)@ == old(out)@ + sp_enc_wind(v@),
{
    proof {
        reveal_strlit("\"speed\":");
        reveal_strlit(",\"deg\":");
    }
    out.push(LBRACE);
    push_str_bytes(out, "\"speed\":");
    crate::json::push_opt_numlit(out, &v.speed);
    push_str_bytes(out, ",\"deg\":");
    crate::json::push_opt_numlit(out, &v.deg);
    out.push(RBRACE);
    proof {
        assert(out@ =~= old(out)@ + sp_enc_wind(v@));
    }
}

pub fn parse_wind(s: &Vec<u8>, i: usize) -> (r: Option<(Wind, usize)>)
    requires
        i <= s@.len(),
    ensures
        match r {
            Some((v, j)) => sp_parse_wind(s@, i as int) == Some((v@, j as int))
                && i < j <= s@.len() && v@.wf(),
            None => sp_parse_wind(s@, i as int) is None,
        },
{
    proof {
        reveal_strlit("\"speed\":");
        reveal_strlit(",\"speed\":");
        reveal_strlit("\"deg\":");
        reveal_strlit(",\"deg\":");
    }
    let i0 = match expect_byte(s, i, LBRACE) {
        Some(x) => x,
        None => { return None; },
    };
    let (speed, i1, f1) = match crate::json::member_numlit(s, i0, true, "\"speed\":",
        ",\"speed\":") {
        Some(x) => x,
        None => { return None; },
    };
    let (deg, i2, _f2) = match crate::json::member_numlit(s, i1, f1, "\"deg\":",
        ",\"deg\":") {
        Some(x) => x,
        None => { return None; },
    };
    let j = match expect_byte(s, i2, RBRACE) {
        Some(x) => x,
        None => { return None; },
    };
    Some((Wind { speed, deg }, j))
}

/// The cloud-cover block; its member optional on decode.
#[derive(Debug)]
pub struct Clouds {
    pub all: Option<u64>,
}

/// The mathematical value of a [`Clouds`].
pub struct CloudsV {
    pub all: Option<u64>,
}

impl View for Clouds {
    type V = CloudsV;

    open spec fn view(&self) -> CloudsV {
        CloudsV { all: self.all }
    }
}

pub open spec fn sp_enc_clouds(v: CloudsV) -> Seq<u8> {
    seq![LBRACE] + bytes_of("\"all\":"@) + crate::json::sp_enc_opt_u64(v.all) + seq![RBRACE]
}

pub open spec fn sp_parse_clouds(s: Seq<u8>, i: int) -> Option<(CloudsV, int)> {
    match sp_expect_byte(s, i, LBRACE) {
        None => None,
        Some(i0) => match crate::json::sp_member_u64(
            s, i0, true, bytes_of("\"all\":"@), bytes_of(",\"all\":"@)) {
            None => None,
            Some((all, i1, _)) => match sp_expect_byte(s, i1, RBRACE) {
                None => None,
                Some(j) => Some((CloudsV { all }, j)),
            },
        },
    }
}

pub fn push_clouds(out: &mut Vec<u8>, v: &Clouds)
    ensures
        final(out)@ == old(out)@ + sp_enc_clouds(v@),
{
    proof {
        reveal_strlit("\"all\":");
    }
    out.push(LBRACE);
    push_str_bytes(out, "\"all\":");
    crate::json::push_opt_u64(out, &v.all);
    out.push(RBRACE);
    proof {
        assert(out@ =~= old(out)@ + sp_enc_clouds(v@));
    }
}

pub fn parse_clouds(s: &Vec<u8>, i: usize) -> (r: Option<(Clouds, usize)>)
    requires
        i <= s@.len(),
    ensures
        match r {
            Some((v, j)) => sp_parse_clouds(s@, i as int) == Some((v@, j as int))
                && i < j <= s@.len(),
            None => sp_parse_clouds(s@, i as int) is None,
        },
{
    proof {
        reveal_strlit("\"all\":");
        reveal_strlit(",\"all\":");
    }
    let i0 = match expect_byte(s, i, LBRACE) {
        Some(x) => x,
        None => { return None; },
    };
    let (all, i1, _f1) = match crate::json::member_u64(s, i0, true, "\"all\":",
        ",\"all\":") {
        Some(x) => x,
        None => { return None; },
    };
    let j = match expect_byte(s, i1, RBRACE) {
        Some(x) => x,
        None => { return None; },
    };
    Some((Clouds { all }, j))
}

/// Precipitation over the last three hours, under the wire name `3h`; the
/// member optional on decode.
#[derive(Debug)]
pub struct Rain {
    pub last_3_hours: Option<Vec<u8>>,
}

/// The mathematical value of a [`Rain`].
pub struct RainV {
    pub last_3_hours: Option<Seq<u8>>,
}

impl View for Rain {
    type V = RainV;

    open spec fn view(&self) -> RainV {
        RainV { last_3_hours: crate::json::view_opt_bytes(self.last_3_hours) }
    }
}

impl RainV {
    pub open spec fn wf(self) -> bool {
        opt_numlit_wf(self.last_3_hours)
    }
}

pub open spec fn sp_enc_rain(v: RainV) -> Seq<u8> {
    seq![LBRACE] + bytes_of("\"3h\":"@) + crate::json::sp_enc_opt_numlit(v.last_3_hours)
        + seq![RBRACE]
}

pub open spec fn sp_parse_rain(s: Seq<u8>, i: int) -> Option<(RainV, int)> {
    match sp_expect_byte(s, i, LBRACE) {
        None => None,
        Some(i0) => match crate::json::sp_member_numlit(
            s, i0, true, bytes_of("\"3h\":"@), bytes_of(",\"3h\":"@)) {
            None => None,
            Some((h, i1, _)) => match sp_expect_byte(s, i1, RBRACE) {
                None => None,
                Some(j) => Some((RainV { last_3_hours: h }, j)),
            },
        },
    }
}

pub fn push_rain(out: &mut Vec<u8>, v: &Rain)
    ensures
        final(out)@ == old(out)@ + sp_enc_rain(v@),
{
    proof {
        reveal_strlit("\"3h\":");
    }
    out.push(LBRACE);
    push_str_bytes(out, "\"3h\":");
    crate::json::push_opt_numlit(out, &v.last_3_hours);
    out.push(RBRACE);
    proof {
        assert(out@ =~= old(out)@ + sp_enc_rain(v@));
    }
}

pub fn parse_rain(s: &Vec<u8>, i: usize) -> (r: Option<(Rain, usize)>)
    requires
        i <= s@.len(),
    ensures
        match r {
            Some((v, j)) => sp_parse_rain(s@, i as int) == Some((v@, j as int))
                && i < j <= s@.len() && v@.wf(),
            None => sp_parse_rain(s@, i as int) is None,
        },
{
    proof {
        reveal_strlit("\"3h\":");
        reveal_strlit(",\"3h\":");
    }
    let i0 = match expect_byte(s, i, LBRACE) {
        Some(x) => x,
        None => { return None; },
    };
    let (h, i1, _f1) = match crate::json::member_numlit(s, i0, true, "\"3h\":",
        ",\"3h\":") {
        Some(x) => x,
        None => { return None; },
    };
    let j = match expect_byte(s, i1, RBRACE) {
        Some(x) => x,
        None => { return None; },
    };
    Some((Rain { last_3_hours: h }, j))
}

/// Snowfall over the last three hours, under the wire name `3h`; the
/// member optional on decode.
#[derive(Debug)]
pub struct Snow {
    pub last_3_hours: Option<Vec<u8>>,
}

/// The mathematical value of a [`Snow`].
pub struct SnowV {
    pub last_3_hours: Option<Seq<u8>>,
}

impl View for Snow {
    type V = SnowV;

    open spec fn view(&self) -> SnowV {
        SnowV { last_3_hours: crate::json::view_opt_bytes(self.last_3_hours) }
    }
}

impl SnowV {
    pub open spec fn wf(self) -> bool {
        opt_numlit_wf(self.last_3_hours)
    }
}

pub open spec fn sp_enc_snow(v: SnowV) -> Seq<u8> {
    seq![LBRACE] + bytes_of("\"3h\":"@) + crate::json::sp_enc_opt_numlit(v.last_3_hours)
        + seq![RBRACE]
}

pub open spec fn sp_parse_snow(s: Seq<u8>, i: int) -> Option<(SnowV, int)> {
    match sp_expect_byte(s, i, LBRACE) {
        None => None,
        Some(i0) => match crate::json::sp_member_numlit(
            s, i0, true, bytes_of("\"3h\":"@), bytes_of(",\"3h\":"@)) {
            None => None,
            Some((h, i1, _)) => match sp_expect_byte(s, i1, RBRACE) {
                None => None,
                Some(j) => Some((SnowV { last_3_hours: h }, j)),
            },
        },
    }
}

pub fn push_snow(out: &mut Vec<u8>, v: &Snow)
    ensures
        final(out)@ == old(out)@ + sp_enc_snow(v@),
{
    proof {
        reveal_strlit("\"3h\":");
    }
    out.push(LBRACE);
    push_str_bytes(out, "\"3h\":");
    crate::json::push_opt_numlit(out, &v.last_3_hours);
    out.push(RBRACE);
    proof {
        assert(out@ =~= old(out)@ + sp_enc_snow(v@));
    }
}

pub fn parse_snow(s: &Vec<u8>, i: usize) -> (r: Option<(Snow, usize)>)
    requires
        i <= s@.len(),
    ensures
        match r {
            Some((v, j)) => sp_parse_snow(s@, i as int) == Some((v@, j as int))
                && i < j <= s@.len() && v@.wf(),
            None => sp_parse_snow(s@, i as int) is None,
        },
{
    proof {
        reveal_strlit("\"3h\":");
        reveal_strlit(",\"3h\":");
    }
    let i0 = match expect_byte(s, i, LBRACE) {
        Some(x) => x,
        None => { return None; },
    };
    let (h, i1, _f1) = match crate::json::member_numlit(s, i0, true, "\"3h\":",
        ",\"3h\":") {
        Some(x) => x,
        None => { return None; },
    };
    let j = match expect_byte(s, i1, RBRACE) {
        Some(x) => x,
        None => { return None; },
    };
    Some((Snow { last_3_hours: h }, j))
}

/// The service's system block. The first member keeps the schema's wire
/// name `3h` exactly as the schema writes it; every member optional on
/// decode.
#[derive(Debug)]
pub struct OWMSystem {
    pub system_type: Option<u32>,
    pub id: Option<u32>,
    pub message: Option<Vec<u8>>,
    pub country: Option<Vec<u8>>,
    pub sunrise: Option<u64>,
    pub sunset: Option<u64>,
}

/// The mathematical value of an [`OWMSystem`].
pub struct OWMSystemV {
    pub system_type: Option<u32>,
    pub id: Option<u32>,
    pub message: Option<Seq<u8>>,
    pub country: Option<Seq<u8>>,
    pub sunrise: Option<u64>,
    pub sunset: Option<u64>,
}

impl View for OWMSystem {
    type V = OWMSystemV;

    open spec fn view(&self) -> OWMSystemV {
        OWMSystemV {
            system_type: self.system_type,
            id: self.id,
            message: crate::json::view_opt_bytes(self.message),
            country: crate::json::view_opt_bytes(self.country),
            sunrise: self.sunrise,
            sunset: self.sunset,
        }
    }
}

impl OWMSystemV {
    pub open spec fn wf(self) -> bool {
        opt_numlit_wf(self.message) && opt_text_wf(self.country)
    }
}

pub open spec fn sp_enc_sys(v: OWMSystemV) -> Seq<u8> {
    seq![LBRACE] + bytes_of("\"3h\":"@)
        + crate::json::sp_enc_opt_u64(opt_u32_as_u64(v.system_type))
        + bytes_of(",\"id\":"@) + crate::json::sp_enc_opt_u64(opt_u32_as_u64(v.id))
        + bytes_of(",\"message\":"@) + crate::json::sp_enc_opt_numlit(v.message)
        + bytes_of(",\"country\":"@) + crate::json::sp_enc_opt_text(v.country)
        + bytes_of(",\"sunrise\":"@) + crate::json::sp_enc_opt_u64(v.sunrise)
        + bytes_of(",\"sunset\":"@) + crate::json::sp_enc_opt_u64(v.sunset)
        + seq![RBRACE]
}

/// Parses the system block: each member may be absent, in schema order.
pub open spec fn sp_parse_sys(s: Seq<u8>, i: int) -> Option<(OWMSystemV, int)> {
    match sp_expect_byte(s, i, LBRACE) {
        None => None,
        Some(i0) => match sp_member_u32(
            s, i0, true, bytes_of("\"3h\":"@), bytes_of(",\"3h\":"@)) {
            None => None,
            Some((system_type, i1, f1)) => match sp_member_u32(
                s, i1, f1, bytes_of("\"id\":"@), bytes_of(",\"id\":"@)) {
                None => None,
                Some((id, i2, f2)) => match crate::json::sp_member_numlit(
                    s, i2, f2, bytes_of("\"message\":"@), bytes_of(",\"message\":"@)) {
                    None => None,
                    Some((message, i3, f3)) => match crate::json::sp_member_text(
                        s, i3, f3, bytes_of("\"country\":"@), bytes_of(",\"country\":"@)) {
                        None => None,
                        Some((country, i4, f4)) => match crate::json::sp_member_u64(
                            s, i4, f4, bytes_of("\"sunrise\":"@),
                            bytes_of(",\"sunrise\":"@)) {
                            None => None,
                            Some((sunrise, i5, f5)) => match crate::json::sp_member_u64(
                                s, i5, f5, bytes_of("\"sunset\":"@),
                                bytes_of(",\"sunset\":"@)) {
                                None => None,
                                Some((sunset, i6, _)) => match sp_expect_byte(s, i6, RBRACE) {
                                    None => None,
                                    Some(j) => Some((
                                        OWMSystemV {
                                            system_type,
                                            id,
                                            message,
                                            country,
                                            sunrise,
                                            sunset,
                                        },
                                        j,
                                    )),
                                },
                            },
                        },
                    },
                },
            },
        },
    }
}

#[verifier::spinoff_prover]
#[verifier::rlimit(100)]
pub fn push_sys(out: &mut Vec<u8>, v: &OWMSystem)
    ensures
        final(out)@ == old(out)@ + sp_enc_sys(v@),
{
    proof {
        reveal_strlit("\"3h\":");
        reveal_strlit(",\"id\":");
        reveal_strlit(",\"message\":");
        reveal_strlit(",\"country\":");
        reveal_strlit(",\"sunrise\":");
        reveal_strlit(",\"sunset\":");
    }
    out.push(LBRACE);
    push_str_bytes(out, "\"3h\":");
    let st: Option<u64> = match &v.system_type {
        None => None,
        Some(n) => Some(*n as u64),
    };
    crate::json::push_opt_u64(out, &st);
    push_str_bytes(out, ",\"id\":");
    let sid: Option<u64> = match &v.id {
        None => None,
        Some(n) => Some(*n as u64),
    };
    crate::json::push_opt_u64(out, &sid);
    push_str_bytes(out, ",\"message\":");
    crate::json::push_opt_numlit(out, &v.message);
    push_str_bytes(out, ",\"country\":");
    crate::json::push_opt_text(out, &v.country);
    push_str_bytes(out, ",\"sunrise\":");
    crate::json::push_opt_u64(out, &v.sunrise);
    push_str_bytes(out, ",\"sunset\":");
    crate::json::push_opt_u64(out, &v.sunset);
    out.push(RBRACE);
    proof {
        assert(st == opt_u32_as_u64(v@.system_type));
        assert(sid == opt_u32_as_u64(v@.id));
        assert(out@ =~= old(out)@ + sp_enc_sys(v@));
    }
}

#[verifier::spinoff_prover]
#[verifier::rlimit(100)]
pub fn parse_sys(s: &Vec<u8>, i: usize) -> (r: Option<(OWMSystem, usize)>)
    requires
        i <= s@.len(),
    ensures
        match r {
            Some((v, j)) => sp_parse_sys(s@, i as int) == Some((v@, j as int))
                && i < j <= s@.len() && v@.wf(),
            None => sp_parse_sys(s@, i as int) is None,
        },
{
    proof {
        reveal_strlit("\"3h\":");
        reveal_strlit(",\"3h\":");
        reveal_strlit("\"id\":");
        reveal_strlit(",\"id\":");
        reveal_strlit("\"message\":");
        reveal_strlit(",\"message\":");
        reveal_strlit("\"country\":");
        reveal_strlit(",\"country\":");
        reveal_strlit("\"sunrise\":");
        reveal_strlit(",\"sunrise\":");
        reveal_strlit("\"sunset\":");
        reveal_strlit(",\"sunset\":");
    }
    let i0 = match expect_byte(s, i, LBRACE) {
        Some(x) => x,
        None => { return None; },
    };
    let (system_type, i1, f1) = match member_u32(s, i0, true, "\"3h\":", ",\"3h\":") {
        Some(x) => x,
        None => { return None; },
    };
    let (id, i2, f2) = match member_u32(s, i1, f1, "\"id\":", ",\"id\":") {
        Some(x) => x,
        None => { return None; },
    };
    let (message, i3, f3) = match crate::json::member_numlit(s, i2, f2, "\"message\":",
        ",\"message\":") {
        Some(x) => x,
        None => { return None; },
    };
    let (country, i4, f4) = match crate::json::member_text(s, i3, f3, "\"country\":",
        ",\"country\":") {
        Some(x) => x,
        None => { return None; },
    };
    let (sunrise, i5, f5) = match crate::json::member_u64(s, i4, f4, "\"sunrise\":",
        ",\"sunrise\":") {
        Some(x) => x,
        None => { return None; },
    };
    let (sunset, i6, _f6) = match crate::json::member_u64(s, i5, f5, "\"sunset\":",
        ",\"sunset\":") {
        Some(x) => x,
        None => { return None; },
    };
    let j = match expect_byte(s, i6, RBRACE) {
        Some(x) => x,
        None => { return None; },
    };
    Some((OWMSystem { system_type, id, message, country, sunrise, sunset }, j))
}

/// The value views of the optional nested records.
pub open spec fn view_opt_latlong(o: Option<LatLong>) -> Option<LatLongV> {
    match o {
        None => None,
        Some(v) => Some(v@),
    }
}

pub open spec fn view_opt_details(o: Option<Vec<WeatherDetails>>) -> Option<
    Seq<WeatherDetailsV>,
> {
    match o {
        None => None,
        Some(v) => Some(details_view(v@)),
    }
}

pub open spec fn view_opt_basics(o: Option<WeatherBasics>) -> Option<WeatherBasicsV> {
    match o {
        None => None,
        Some(v) => Some(v@),
    }
}

pub open spec fn view_opt_wind(o: Option<Wind>) -> Option<WindV> {
    match o {
        None => None,
        Some(v) => Some(v@),
    }
}

pub open spec fn view_opt_clouds(o: Option<Clouds>) -> Option<CloudsV> {
    match o {
        None => None,
        Some(v) => Some(v@),
    }
}

pub open spec fn view_opt_sys(o: Option<OWMSystem>) -> Option<OWMSystemV> {
    match o {
        None => None,
        Some(v) => Some(v@),
    }
}

/// The encodings of the optional nested records: `null` when absent.
pub open spec fn sp_enc_opt_latlong(o: Option<LatLongV>) -> Seq<u8> {
    match o {
        None => bytes_of("null"@),
        Some(v) => sp_enc_latlong(v),
    }
}

pub open spec fn sp_enc_opt_details_array(o: Option<Seq<WeatherDetailsV>>) -> Seq<u8> {
    match o {
        None => bytes_of("null"@),
        Some(a) => sp_enc_details_array(a),
    }
}

pub open spec fn sp_enc_opt_basics(o: Option<WeatherBasicsV>) -> Seq<u8> {
    match o {
        None => bytes_of("null"@),
        Some(v) => sp_enc_basics(v),
    }
}

pub open spec fn sp_enc_opt_wind(o: Option<WindV>) -> Seq<u8> {
    match o {
        None => bytes_of("null"@),
        Some(v) => sp_enc_wind(v),
    }
}

pub open spec fn sp_enc_opt_clouds(o: Option<CloudsV>) -> Seq<u8> {
    match o {
        None => bytes_of("null"@),
        Some(v) => sp_enc_clouds(v),
    }
}

pub open spec fn sp_enc_opt_sys(o: Option<OWMSystemV>) -> Seq<u8> {
    match o {
        None => bytes_of("null"@),
        Some(v) => sp_enc_sys(v),
    }
}

/// Appends `null` or a nested record encoding to `out`.
pub fn push_opt_latlong(out: &mut Vec<u8>, o: &Option<LatLong>)
    ensures
        final(out)@ == old(out)@ + sp_enc_opt_latlong(view_opt_latlong(*o)),
{
    proof {
        reveal_strlit("null");
    }
    match o {
        None => push_str_bytes(out, "null"),
        Some(v) => push_latlong(out, v),
    }
}

pub fn push_opt_details_array(out: &mut Vec<u8>, o: &Option<Vec<WeatherDetails>>)
    ensures
        final(out)@ == old(out)@ + sp_enc_opt_details_array(view_opt_details(*o)),
{
    proof {
        reveal_strlit("null");
    }
    match o {
        None => push_str_bytes(out, "null"),
        Some(a) => push_details_array(out, a),
    }
}

pub fn push_opt_basics(out: &mut Vec<u8>, o: &Option<WeatherBasics>)
    ensures
        final(out)@ == old(out)@ + sp_enc_opt_basics(view_opt_basics(*o)),
{
    proof {
        reveal_strlit("null");
    }
    match o {
        None => push_str_bytes(out, "null"),
        Some(v) => push_basics(out, v),
    }
}

pub fn push_opt_wind(out: &mut Vec<u8>, o: &Option<Wind>)
    ensures
        final(out)@ == old(out)@ + sp_enc_opt_wind(view_opt_wind(*o)),
{
    proof {
        reveal_strlit("null");
    }
    match o {
        None => push_str_bytes(out, "null"),
        Some(v) => push_wind(out, v),
    }
}

pub fn push_opt_clouds(out: &mut Vec<u8>, o: &Option<Clouds>)
    ensures
        final(out)@ == old(out)@ + sp_enc_opt_clouds(view_opt_clouds(*o)),
{
    proof {
        reveal_strlit("null");
    }
    match o {
        None => push_str_bytes(out, "null"),
        Some(v) => push_clouds(out, v),
    }
}

pub fn push_opt_sys(out: &mut Vec<u8>, o: &Option<OWMSystem>)
    ensures
        final(out)@ == old(out)@ + sp_enc_opt_sys(view_opt_sys(*o)),
{
    proof {
        reveal_strlit("null");
    }
    match o {
        None => push_str_bytes(out, "null"),
        Some(v) => push_sys(out, v),
    }
}

/// The condition list embedded at position `i` parses back to itself.
pub proof fn lemma_details_array_at(s: Seq<u8>, i: int, a: Seq<WeatherDetailsV>)
    requires
        details_all_wf(a),
        0 <= i,
        i + sp_enc_details_array(a).len() <= s.len(),
        s.subrange(i, i + sp_enc_details_array(a).len() as int) == sp_enc_details_array(a),
    ensures
        sp_parse_details_array(s, i) == Some((a, i + sp_enc_details_array(a).len())),
{
    let e = sp_enc_details_array(a);
    let ei = sp_enc_details_items(a);
    lemma_byte_at(s, i, e, 0);
    assert(e[0] == LBRACKET);
    if a.len() == 0 {
        assert(ei.len() == 0);
        lemma_byte_at(s, i, e, 1);
        assert(e[1] == RBRACKET);
        assert(sp_expect_byte(s, i + 1, RBRACKET) == Some(i + 2));
        assert(a =~= Seq::<WeatherDetailsV>::empty());
    } else {
        reveal_strlit("{\"id\":");
        lemma_byte_at(s, i, e, 1);
        assert(ei == sp_enc_details_items(a));
        assert(ei[0] == sp_enc_details(a[0])[0]) by {
            if a.len() == 1 {
            } else {
            }
        }
        assert(sp_enc_details(a[0])[0] == bytes_of("{\"id\":"@)[0]);
        assert(e[1] == 123);
        assert(RBRACKET != 123);
        assert(sp_expect_byte(s, i + 1, RBRACKET) is None);
        lemma_subrange_slice(s, i, e, 1, 1 + ei.len() as int);
        assert(e.subrange(1, 1 + ei.len() as int) =~= ei);
        lemma_byte_at(s, i, e, 1 + ei.len() as int);
        assert(e[1 + ei.len() as int] == RBRACKET);
        lemma_details_items_at(s, i + 1, a);
    }
}

/// The readings block embedded at position `i` parses back to itself;
/// the wind, cloud, precipitation and system blocks below likewise.
#[verifier::spinoff_prover]
#[verifier::rlimit(100)]
pub proof fn lemma_basics_at(s: Seq<u8>, i: int, v: WeatherBasicsV)
    requires
        v.wf(),
        0 <= i,
        i + sp_enc_basics(v).len() <= s.len(),
        s.subrange(i, i + sp_enc_basics(v).len() as int) == sp_enc_basics(v),
    ensures
        sp_parse_basics(s, i) == Some((v, i + sp_enc_basics(v).len())),
{
    reveal_strlit(",\"pressure\":");
    reveal_strlit(",\"humidity\":");
    reveal_strlit(",\"temp_min\":");
    reveal_strlit(",\"temp_max\":");
    reveal_strlit(",\"sea_level\":");
    reveal_strlit(",\"grnd_level\":");
    let e = sp_enc_basics(v);
    let k1b = bytes_of("\"temp\":"@);
    let k1s = bytes_of(",\"temp\":"@);
    let k2 = bytes_of(",\"pressure\":"@);
    let k3 = bytes_of(",\"humidity\":"@);
    let k4 = bytes_of(",\"temp_min\":"@);
    let k5 = bytes_of(",\"temp_max\":"@);
    let k6 = bytes_of(",\"sea_level\":"@);
    let k7 = bytes_of(",\"grnd_level\":"@);
    let e1 = crate::json::sp_enc_opt_numlit(v.temp);
    let e2 = crate::json::sp_enc_opt_numlit(v.pressure);
    let e3 = crate::json::sp_enc_opt_numlit(v.humidity);
    let e4 = crate::json::sp_enc_opt_numlit(v.temp_min);
    let e5 = crate::json::sp_enc_opt_numlit(v.temp_max);
    let e6 = crate::json::sp_enc_opt_numlit(v.sea_level);
    let e7 = crate::json::sp_enc_opt_numlit(v.grnd_level);
    let o1 = 1 + k1b.len() as int;
    let o2 = o1 + e1.len() as int;
    let o3 = o2 + k2.len() as int;
    let o4 = o3 + e2.len() as int;
    let o5 = o4 + k3.len() as int;
    let o6 = o5 + e3.len() as int;
    let o7 = o6 + k4.len() as int;
    let o8 = o7 + e4.len() as int;
    let o9 = o8 + k5.len() as int;
    let o10 = o9 + e5.len() as int;
    let o11 = o10 + k6.len() as int;
    let o12 = o11 + e6.len() as int;
    let o13 = o12 + k7.len() as int;
    let o14 = o13 + e7.len() as int;
    assert(e =~= seq![LBRACE] + k1b + e1 + k2 + e2 + k3 + e3 + k4 + e4 + k5 + e5 + k6 + e6
        + k7 + e7 + seq![RBRACE]);
    lemma_byte_at(s, i, e, 0);
    assert(e[0] == LBRACE);
    assert(sp_expect_byte(s, i, LBRACE) == Some(i + 1));
    lemma_subrange_slice(s, i, e, 1, o1);
    assert(e.subrange(1, o1) =~= k1b);
    lemma_subrange_slice(s, i, e, o1, o2);
    assert(e.subrange(o1, o2) =~= e1);
    lemma_byte_at(s, i, e, o2);
    assert(e[o2] == k2[0]);
    assert(k2[0] == 44);
    assert(!is_numchar(44));
    crate::json::lemma_member_numlit_at(s, i + 1, true, k1b, k1s, v.temp);
    lemma_subrange_slice(s, i, e, o2, o3);
    assert(e.subrange(o2, o3) =~= k2);
    lemma_subrange_slice(s, i, e, o3, o4);
    assert(e.subrange(o3, o4) =~= e2);
    lemma_byte_at(s, i, e, o4);
    assert(e[o4] == k3[0]);
    assert(k3[0] == 44);
    crate::json::lemma_member_numlit_at(s, i + o2, false, bytes_of("\"pressure\":"@), k2,
        v.pressure);
    lemma_subrange_slice(s, i, e, o4, o5);
    assert(e.subrange(o4, o5) =~= k3);
    lemma_subrange_slice(s, i, e, o5, o6);
    assert(e.subrange(o5, o6) =~= e3);
    lemma_byte_at(s, i, e, o6);
    assert(e[o6] == k4[0]);
    assert(k4[0] == 44);
    crate::json::lemma_member_numlit_at(s, i + o4, false, bytes_of("\"humidity\":"@), k3,
        v.humidity);
    lemma_subrange_slice(s, i, e, o6, o7);
    assert(e.subrange(o6, o7) =~= k4);
    lemma_subrange_slice(s, i, e, o7, o8);
    assert(e.subrange(o7, o8) =~= e4);
    lemma_byte_at(s, i, e, o8);
    assert(e[o8] == k5[0]);
    assert(k5[0] == 44);
    crate::json::lemma_member_numlit_at(s, i + o6, false, bytes_of("\"temp_min\":"@), k4,
        v.temp_min);
    lemma_subrange_slice(s, i, e, o8, o9);
    assert(e.subrange(o8, o9) =~= k5);
    lemma_subrange_slice(s, i, e, o9, o10);
    assert(e.subrange(o9, o10) =~= e5);
    lemma_byte_at(s, i, e, o10);
    assert(e[o10] == k6[0]);
    assert(k6[0] == 44);
    crate::json::lemma_member_numlit_at(s, i + o8, false, bytes_of("\"temp_max\":"@), k5,
        v.temp_max);
    lemma_subrange_slice(s, i, e, o10, o11);
    assert(e.subrange(o10, o11) =~= k6);
    lemma_subrange_slice(s, i, e, o11, o12);
    assert(e.subrange(o11, o12) =~= e6);
    lemma_byte_at(s, i, e, o12);
    assert(e[o12] == k7[0]);
    assert(k7[0] == 44);
    crate::json::lemma_member_numlit_at(s, i + o10, false, bytes_of("\"sea_level\":"@), k6,
        v.sea_level);
    lemma_subrange_slice(s, i, e, o12, o13);
    assert(e.subrange(o12, o13) =~= k7);
    lemma_subrange_slice(s, i, e, o13, o14);
    assert(e.subrange(o13, o14) =~= e7);
    lemma_byte_at(s, i, e, o14);
    assert(e[o14] == RBRACE);
    assert(!is_numchar(RBRACE));
    crate::json::lemma_member_numlit_at(s, i + o12, false, bytes_of("\"grnd_level\":"@),
        k7, v.grnd_level);
    assert(sp_expect_byte(s, i + o14, RBRACE) == Some(i + o14 + 1));
}

pub proof fn lemma_wind_at(s: Seq<u8>, i: int, v: WindV)
    requires
        v.wf(),
        0 <= i,
        i + sp_enc_wind(v).len() <= s.len(),
        s.subrange(i, i + sp_enc_wind(v).len() as int) == sp_enc_wind(v),
    ensures
        sp_parse_wind(s, i) == Some((v, i + sp_enc_wind(v).len())),
{
    reveal_strlit(",\"deg\":");
    let e = sp_enc_wind(v);
    let k1b = bytes_of("\"speed\":"@);
    let k1s = bytes_of(",\"speed\":"@);
    let k2 = bytes_of(",\"deg\":"@);
    let e1 = crate::json::sp_enc_opt_numlit(v.speed);
    let e2 = crate::json::sp_enc_opt_numlit(v.deg);
    let o1 = 1 + k1b.len() as int;
    let o2 = o1 + e1.len() as int;
    let o3 = o2 + k2.len() as int;
    let o4 = o3 + e2.len() as int;
    lemma_byte_at(s, i, e, 0);
    assert(e[0] == LBRACE);
    assert(sp_expect_byte(s, i, LBRACE) == Some(i + 1));
    lemma_subrange_slice(s, i, e, 1, o1);
    assert(e.subrange(1, o1) =~= k1b);
    lemma_subrange_slice(s, i, e, o1, o2);
    assert(e.subrange(o1, o2) =~= e1);
    lemma_byte_at(s, i, e, o2);
    assert(e[o2] == k2[0]);
    assert(k2[0] == 44);
    assert(!is_numchar(44));
    crate::json::lemma_member_numlit_at(s, i + 1, true, k1b, k1s, v.speed);
    lemma_subrange_slice(s, i, e, o2, o3);
    assert(e.subrange(o2, o3) =~= k2);
    lemma_subrange_slice(s, i, e, o3, o4);
    assert(e.subrange(o3, o4) =~= e2);
    lemma_byte_at(s, i, e, o4);
    assert(e[o4] == RBRACE);
    assert(!is_numchar(RBRACE));
    crate::json::lemma_member_numlit_at(s, i + o2, false, bytes_of("\"deg\":"@), k2, v.deg);
    assert(sp_expect_byte(s, i + o4, RBRACE) == Some(i + o4 + 1));
}

pub proof fn lemma_clouds_at(s: Seq<u8>, i: int, v: CloudsV)
    requires
        0 <= i,
        i + sp_enc_clouds(v).len() <= s.len(),
        s.subrange(i, i + sp_enc_clouds(v).len() as int) == sp_enc_clouds(v),
    ensures
        sp_parse_clouds(s, i) == Some((v, i + sp_enc_clouds(v).len())),
{
    let e = sp_enc_clouds(v);
    let k1b = bytes_of("\"all\":"@);
    let k1s = bytes_of(",\"all\":"@);
    let e1 = crate::json::sp_enc_opt_u64(v.all);
    let o1 = 1 + k1b.len() as int;
    let o2 = o1 + e1.len() as int;
    lemma_byte_at(s, i, e, 0);
    assert(e[0] == LBRACE);
    assert(sp_expect_byte(s, i, LBRACE) == Some(i + 1));
    lemma_subrange_slice(s, i, e, 1, o1);
    assert(e.subrange(1, o1) =~= k1b);
    lemma_subrange_slice(s, i, e, o1, o2);
    assert(e.subrange(o1, o2) =~= e1);
    lemma_byte_at(s, i, e, o2);
    assert(e[o2] == RBRACE);
    assert(!is_digit(RBRACE));
    crate::json::lemma_member_u64_at(s, i + 1, true, k1b, k1s, v.all);
    assert(sp_expect_byte(s, i + o2, RBRACE) == Some(i + o2 + 1));
}

pub proof fn lemma_rain_at(s: Seq<u8>, i: int, v: RainV)
    requires
        v.wf(),
        0 <= i,
        i + sp_enc_rain(v).len() <= s.len(),
        s.subrange(i, i + sp_enc_rain(v).len() as int) == sp_enc_rain(v),
    ensures
        sp_parse_rain(s, i) == Some((v, i + sp_enc_rain(v).len())),
{
    let e = sp_enc_rain(v);
    let k1b = bytes_of("\"3h\":"@);
    let k1s = bytes_of(",\"3h\":"@);
    let e1 = crate::json::sp_enc_opt_numlit(v.last_3_hours);
    let o1 = 1 + k1b.len() as int;
    let o2 = o1 + e1.len() as int;
    lemma_byte_at(s, i, e, 0);
    assert(e[0] == LBRACE);
    assert(sp_expect_byte(s, i, LBRACE) == Some(i + 1));
    lemma_subrange_slice(s, i, e, 1, o1);
    assert(e.subrange(1, o1) =~= k1b);
    lemma_subrange_slice(s, i, e, o1, o2);
    assert(e.subrange(o1, o2) =~= e1);
    lemma_byte_at(s, i, e, o2);
    assert(e[o2] == RBRACE);
    assert(!is_numchar(RBRACE));
    crate::json::lemma_member_numlit_at(s, i + 1, true, k1b, k1s, v.last_3_hours);
    assert(sp_expect_byte(s, i + o2, RBRACE) == Some(i + o2 + 1));
}

pub proof fn lemma_snow_at(s: Seq<u8>, i: int, v: SnowV)
    requires
        v.wf(),
        0 <= i,
        i + sp_enc_snow(v).len() <= s.len(),
        s.subrange(i, i + sp_enc_snow(v).len() as int) == sp_enc_snow(v),
    ensures
        sp_parse_snow(s, i) == Some((v, i + sp_enc_snow(v).len())),
{
    let e = sp_enc_snow(v);
    let k1b = bytes_of("\"3h\":"@);
    let k1s = bytes_of(",\"3h\":"@);
    let e1 = crate::json::sp_enc_opt_numlit(v.last_3_hours);
    let o1 = 1 + k1b.len() as int;
    let o2 = o1 + e1.len() as int;
    lemma_byte_at(s, i, e, 0);
    assert(e[0] == LBRACE);
    assert(sp_expect_byte(s, i, LBRACE) == Some(i + 1));
    lemma_subrange_slice(s, i, e, 1, o1);
    assert(e.subrange(1, o1) =~= k1b);
    lemma_subrange_slice(s, i, e, o1, o2);
    assert(e.subrange(o1, o2) =~= e1);
    lemma_byte_at(s, i, e, o2);
    assert(e[o2] == RBRACE);
    assert(!is_numchar(RBRACE));
    crate::json::lemma_member_numlit_at(s, i + 1, true, k1b, k1s, v.last_3_hours);
    assert(sp_expect_byte(s, i + o2, RBRACE) == Some(i + o2 + 1));
}

#[verifier::spinoff_prover]
#[verifier::rlimit(100)]
pub proof fn lemma_sys_at(s: Seq<u8>, i: int, v: OWMSystemV)
    requires
        v.wf(),
        0 <= i,
        i + sp_enc_sys(v).len() <= s.len(),
        s.subrange(i, i + sp_enc_sys(v).len() as int) == sp_enc_sys(v),
    ensures
        sp_parse_sys(s, i) == Some((v, i + sp_enc_sys(v).len())),
{
    reveal_strlit(",\"id\":");
    reveal_strlit(",\"message\":");
    reveal_strlit(",\"country\":");
    reveal_strlit(",\"sunrise\":");
    reveal_strlit(",\"sunset\":");
    let e = sp_enc_sys(v);
    let k1b = bytes_of("\"3h\":"@);
    let k1s = bytes_of(",\"3h\":"@);
    let k2 = bytes_of(",\"id\":"@);
    let k3 = bytes_of(",\"message\":"@);
    let k4 = bytes_of(",\"country\":"@);
    let k5 = bytes_of(",\"sunrise\":"@);
    let k6 = bytes_of(",\"sunset\":"@);
    let e1 = crate::json::sp_enc_opt_u64(opt_u32_as_u64(v.system_type));
    let e2 = crate::json::sp_enc_opt_u64(opt_u32_as_u64(v.id));
    let e3 = crate::json::sp_enc_opt_numlit(v.message);
    let e4 = crate::json::sp_enc_opt_text(v.country);
    let e5 = crate::json::sp_enc_opt_u64(v.sunrise);
    let e6 = crate::json::sp_enc_opt_u64(v.sunset);
    let o1 = 1 + k1b.len() as int;
    let o2 = o1 + e1.len() as int;
    let o3 = o2 + k2.len() as int;
    let o4 = o3 + e2.len() as int;
    let o5 = o4 + k3.len() as int;
    let o6 = o5 + e3.len() as int;
    let o7 = o6 + k4.len() as int;
    let o8 = o7 + e4.len() as int;
    let o9 = o8 + k5.len() as int;
    let o10 = o9 + e5.len() as int;
    let o11 = o10 + k6.len() as int;
    let o12 = o11 + e6.len() as int;
    lemma_byte_at(s, i, e, 0);
    assert(e[0] == LBRACE);
    assert(sp_expect_byte(s, i, LBRACE) == Some(i + 1));
    lemma_subrange_slice(s, i, e, 1, o1);
    assert(e.subrange(1, o1) =~= k1b);
    lemma_subrange_slice(s, i, e, o1, o2);
    assert(e.subrange(o1, o2) =~= e1);
    lemma_byte_at(s, i, e, o2);
    assert(e[o2] == k2[0]);
    assert(k2[0] == 44);
    assert(!is_digit(44));
    lemma_member_u32_at(s, i + 1, true, k1b, k1s, v.system_type);
    lemma_subrange_slice(s, i, e, o2, o3);
    assert(e.subrange(o2, o3) =~= k2);
    lemma_subrange_slice(s, i, e, o3, o4);
    assert(e.subrange(o3, o4) =~= e2);
    lemma_byte_at(s, i, e, o4);
    assert(e[o4] == k3[0]);
    assert(k3[0] == 44);
    lemma_member_u32_at(s, i + o2, false, bytes_of("\"id\":"@), k2, v.id);
    lemma_subrange_slice(s, i, e, o4, o5);
    assert(e.subrange(o4, o5) =~= k3);
    lemma_subrange_slice(s, i, e, o5, o6);
    assert(e.subrange(o5, o6) =~= e3);
    lemma_byte_at(s, i, e, o6);
    assert(e[o6] == k4[0]);
    assert(k4[0] == 44);
    assert(!is_numchar(44));
    crate::json::lemma_member_numlit_at(s, i + o4, false, bytes_of("\"message\":"@), k3,
        v.message);
    lemma_subrange_slice(s, i, e, o6, o7);
    assert(e.subrange(o6, o7) =~= k4);
    lemma_subrange_slice(s, i, e, o7, o8);
    assert(e.subrange(o7, o8) =~= e4);
    crate::json::lemma_member_text_at(s, i + o6, false, bytes_of("\"country\":"@), k4,
        v.country);
    lemma_subrange_slice(s, i, e, o8, o9);
    assert(e.subrange(o8, o9) =~= k5);
    lemma_subrange_slice(s, i, e, o9, o10);
    assert(e.subrange(o9, o10) =~= e5);
    lemma_byte_at(s, i, e, o10);
    assert(e[o10] == k6[0]);
    assert(k6[0] == 44);
    crate::json::lemma_member_u64_at(s, i + o8, false, bytes_of("\"sunrise\":"@), k5,
        v.sunrise);
    lemma_subrange_slice(s, i, e, o10, o11);
    assert(e.subrange(o10, o11) =~= k6);
    lemma_subrange_slice(s, i, e, o11, o12);
    assert(e.subrange(o11, o12) =~= e6);
    lemma_byte_at(s, i, e, o12);
    assert(e[o12] == RBRACE);
    assert(!is_digit(RBRACE));
    crate::json::lemma_member_u64_at(s, i + o10, false, bytes_of("\"sunset\":"@), k6,
        v.sunset);
    assert(sp_expect_byte(s, i + o12, RBRACE) == Some(i + o12 + 1));
}

/// The response members holding nested records: each may be absent, or
/// `null`, or the record itself.
#[verifier::opaque]
pub open spec fn sp_member_coord(s: Seq<u8>, i: int, first: bool) -> Option<(
    Option<LatLongV>,
    int,
    bool,
)> {
    match crate::json::sp_member_key(s, i, first, bytes_of("\"coord\":"@),
        bytes_of(",\"coord\":"@)) {
        None => Some((None, i, first)),
        Some(j) => match sp_expect(s, j, bytes_of("null"@)) {
            Some(j2) => Some((None, j2, false)),
            None => match sp_parse_latlong(s, j) {
                Some((v, j2)) => Some((Some(v), j2, false)),
                None => None,
            },
        },
    }
}

#[verifier::opaque]
pub open spec fn sp_member_weather(s: Seq<u8>, i: int, first: bool) -> Option<(
    Option<Seq<WeatherDetailsV>>,
    int,
    bool,
)> {
    match crate::json::sp_member_key(s, i, first, bytes_of("\"weather\":"@),
        bytes_of(",\"weather\":"@)) {
        None => Some((None, i, first)),
        Some(j) => match sp_expect(s, j, bytes_of("null"@)) {
            Some(j2) => Some((None, j2, false)),
            None => match sp_parse_details_array(s, j) {
                Some((a, j2)) => Some((Some(a), j2, false)),
                None => None,
            },
        },
    }
}

#[verifier::opaque]
pub open spec fn sp_member_main(s: Seq<u8>, i: int, first: bool) -> Option<(
    Option<WeatherBasicsV>,
    int,
    bool,
)> {
    match crate::json::sp_member_key(s, i, first, bytes_of("\"main\":"@),
        bytes_of(",\"main\":"@)) {
        None => Some((None, i, first)),
        Some(j) => match sp_expect(s, j, bytes_of("null"@)) {
            Some(j2) => Some((None, j2, false)),
            None => match sp_parse_basics(s, j) {
                Some((v, j2)) => Some((Some(v), j2, false)),
                None => None,
            },
        },
    }
}

#[verifier::opaque]
pub open spec fn sp_member_wind(s: Seq<u8>, i: int, first: bool) -> Option<(
    Option<WindV>,
    int,
    bool,
)> {
    match crate::json::sp_member_key(s, i, first, bytes_of("\"wind\":"@),
        bytes_of(",\"wind\":"@)) {
        None => Some((None, i, first)),
        Some(j) => match sp_expect(s, j, bytes_of("null"@)) {
            Some(j2) => Some((None, j2, false)),
            None => match sp_parse_wind(s, j) {
                Some((v, j2)) => Some((Some(v), j2, false)),
                None => None,
            },
        },
    }
}

#[verifier::opaque]
pub open spec fn sp_member_clouds(s: Seq<u8>, i: int, first: bool) -> Option<(
    Option<CloudsV>,
    int,
    bool,
)> {
    match crate::json::sp_member_key(s, i, first, bytes_of("\"clouds\":"@),
        bytes_of(",\"clouds\":"@)) {
        None => Some((None, i, first)),
        Some(j) => match sp_expect(s, j, bytes_of("null"@)) {
            Some(j2) => Some((None, j2, false)),
            None => match sp_parse_clouds(s, j) {
                Some((v, j2)) => Some((Some(v), j2, false)),
                None => None,
            },
        },
    }
}

#[verifier::opaque]
pub open spec fn sp_member_sys(s: Seq<u8>, i: int, first: bool) -> Option<(
    Option<OWMSystemV>,
    int,
    bool,
)> {
    match crate::json::sp_member_key(s, i, first, bytes_of("\"sys\":"@),
        bytes_of(",\"sys\":"@)) {
        None => Some((None, i, first)),
        Some(j) => match sp_expect(s, j, bytes_of("null"@)) {
            Some(j2) => Some((None, j2, false)),
            None => match sp_parse_sys(s, j) {
                Some((v, j2)) => Some((Some(v), j2, false)),
                None => None,
            },
        },
    }
}

/// Parses the `coord` member, mirroring [`sp_member_coord`].
pub fn member_coord(s: &Vec<u8>, i: usize, first: bool) -> (r: Option<(
    Option<LatLong>,
    usize,
    bool,
)>)
    requires
        i <= s@.len(),
    ensures
        match r {
            Some((o, j, f)) => sp_member_coord(s@, i as int, first) == Some((
                view_opt_latlong(o),
                j as int,
                f,
            )) && i <= j <= s@.len() && (o matches Some(v) ==> v@.wf()),
            None => sp_member_coord(s@, i as int, first) is None,
        },
{
    proof {
        reveal(sp_member_coord);
        reveal_strlit("\"coord\":");
        reveal_strlit(",\"coord\":");
        reveal_strlit("null");
    }
    let key_res = if first {
        expect_lit(s, i, "\"coord\":")
    } else {
        expect_lit(s, i, ",\"coord\":")
    };
    match key_res {
        None => Some((None, i, first)),
        Some(j) => match expect_lit(s, j, "null") {
            Some(j2) => Some((None, j2, false)),
            None => match parse_latlong(s, j) {
                Some((v, j2)) => Some((Some(v), j2, false)),
                None => None,
            },
        },
    }
}

/// Parses the `weather` member, mirroring [`sp_member_weather`].
pub fn member_weather(s: &Vec<u8>, i: usize, first: bool) -> (r: Option<(
    Option<Vec<WeatherDetails>>,
    usize,
    bool,
)>)
    requires
        i <= s@.len(),
    ensures
        match r {
            Some((o, j, f)) => sp_member_weather(s@, i as int, first) == Some((
                view_opt_details(o),
                j as int,
                f,
            )) && i <= j <= s@.len() && (o matches Some(a) ==> details_all_wf(
                details_view(a@),
            )),
            None => sp_member_weather(s@, i as int, first) is None,
        },
{
    proof {
        reveal(sp_member_weather);
        reveal_strlit("\"weather\":");
        reveal_strlit(",\"weather\":");
        reveal_strlit("null");
    }
    let key_res = if first {
        expect_lit(s, i, "\"weather\":")
    } else {
        expect_lit(s, i, ",\"weather\":")
    };
    match key_res {
        None => Some((None, i, first)),
        Some(j) => match expect_lit(s, j, "null") {
            Some(j2) => Some((None, j2, false)),
            None => match parse_details_array(s, j) {
                Some((a, j2)) => Some((Some(a), j2, false)),
                None => None,
            },
        },
    }
}

/// Parses the `main` member, mirroring [`sp_member_main`].
pub fn member_main(s: &Vec<u8>, i: usize, first: bool) -> (r: Option<(
    Option<WeatherBasics>,
    usize,
    bool,
)>)
    requires
        i <= s@.len(),
    ensures
        match r {
            Some((o, j, f)) => sp_member_main(s@, i as int, first) == Some((
                view_opt_basics(o),
                j as int,
                f,
            )) && i <= j <= s@.len() && (o matches Some(v) ==> v@.wf()),
            None => sp_member_main(s@, i as int, first) is None,
        },
{
    proof {
        reveal(sp_member_main);
        reveal_strlit("\"main\":");
        reveal_strlit(",\"main\":");
        reveal_strlit("null");
    }
    let key_res = if first {
        expect_lit(s, i, "\"main\":")
    } else {
        expect_lit(s, i, ",\"main\":")
    };
    match key_res {
        None => Some((None, i, first)),
        Some(j) => match expect_lit(s, j, "null") {
            Some(j2) => Some((None, j2, false)),
            None => match parse_basics(s, j) {
                Some((v, j2)) => Some((Some(v), j2, false)),
                None => None,
            },
        },
    }
}

/// Parses the `wind` member, mirroring [`sp_member_wind`].
pub fn member_wind(s: &Vec<u8>, i: usize, first: bool) -> (r: Option<(
    Option<Wind>,
    usize,
    bool,
)>)
    requires
        i <= s@.len(),
    ensures
        match r {
            Some((o, j, f)) => sp_member_wind(s@, i as int, first) == Some((
                view_opt_wind(o),
                j as int,
                f,
            )) && i <= j <= s@.len() && (o matches Some(v) ==> v@.wf()),
            None => sp_member_wind(s@, i as int, first) is None,
        },
{
    proof {
        reveal(sp_member_wind);
        reveal_strlit("\"wind\":");
        reveal_strlit(",\"wind\":");
        reveal_strlit("null");
    }
    let key_res = if first {
        expect_lit(s, i, "\"wind\":")
    } else {
        expect_lit(s, i, ",\"wind\":")
    };
    match key_res {
        None => Some((None, i, first)),
        Some(j) => match expect_lit(s, j, "null") {
            Some(j2) => Some((None, j2, false)),
            None => match parse_wind(s, j) {
                Some((v, j2)) => Some((Some(v), j2, false)),
                None => None,
            },
        },
    }
}

/// Parses the `clouds` member, mirroring [`sp_member_clouds`].
pub fn member_clouds(s: &Vec<u8>, i: usize, first: bool) -> (r: Option<(
    Option<Clouds>,
    usize,
    bool,
)>)
    requires
        i <= s@.len(),
    ensures
        match r {
            Some((o, j, f)) => sp_member_clouds(s@, i as int, first) == Some((
                view_opt_clouds(o),
                j as int,
                f,
            )) && i <= j <= s@.len(),
            None => sp_member_clouds(s@, i as int, first) is None,
        },
{
    proof {
        reveal(sp_member_clouds);
        reveal_strlit("\"clouds\":");
        reveal_strlit(",\"clouds\":");
        reveal_strlit("null");
    }
    let key_res = if first {
        expect_lit(s, i, "\"clouds\":")
    } else {
        expect_lit(s, i, ",\"clouds\":")
    };
    match key_res {
        None => Some((None, i, first)),
        Some(j) => match expect_lit(s, j, "null") {
            Some(j2) => Some((None, j2, false)),
            None => match parse_clouds(s, j) {
                Some((v, j2)) => Some((Some(v), j2, false)),
                None => None,
            },
        },
    }
}

/// Parses the `sys` member, mirroring [`sp_member_sys`].
pub fn member_sys(s: &Vec<u8>, i: usize, first: bool) -> (r: Option<(
    Option<OWMSystem>,
    usize,
    bool,
)>)
    requires
        i <= s@.len(),
    ensures
        match r {
            Some((o, j, f)) => sp_member_sys(s@, i as int, first) == Some((
                view_opt_sys(o),
                j as int,
                f,
            )) && i <= j <= s@.len() && (o matches Some(v) ==> v@.wf()),
            None => sp_member_sys(s@, i as int, first) is None,
        },
{
    proof {
        reveal(sp_member_sys);
        reveal_strlit("\"sys\":");
        reveal_strlit(",\"sys\":");
        reveal_strlit("null");
    }
    let key_res = if first {
        expect_lit(s, i, "\"sys\":")
    } else {
        expect_lit(s, i, ",\"sys\":")
    };
    match key_res {
        None => Some((None, i, first)),
        Some(j) => match expect_lit(s, j, "null") {
            Some(j2) => Some((None, j2, false)),
            None => match parse_sys(s, j) {
                Some((v, j2)) => Some((Some(v), j2, false)),
                None => None,
            },
        },
    }
}

/// A `coord` member whose announcement and encoded value are embedded at
/// position `i` parses as present; the other nested members likewise.
pub proof fn lemma_member_coord_at(s: Seq<u8>, i: int, first: bool, o: Option<LatLongV>)
    requires
        o matches Some(v) ==> v.wf(),
        0 <= i,
        i + crate::json::member_lit(first, bytes_of("\"coord\":"@),
            bytes_of(",\"coord\":"@)).len() + sp_enc_opt_latlong(o).len() <= s.len(),
        s.subrange(i, i + crate::json::member_lit(first, bytes_of("\"coord\":"@),
            bytes_of(",\"coord\":"@)).len() as int) == crate::json::member_lit(first,
            bytes_of("\"coord\":"@), bytes_of(",\"coord\":"@)),
        s.subrange(
            i + crate::json::member_lit(first, bytes_of("\"coord\":"@),
                bytes_of(",\"coord\":"@)).len(),
            i + crate::json::member_lit(first, bytes_of("\"coord\":"@),
                bytes_of(",\"coord\":"@)).len() + sp_enc_opt_latlong(o).len() as int,
        ) == sp_enc_opt_latlong(o),
    ensures
        sp_member_coord(s, i, first) == Some((
            o,
            i + crate::json::member_lit(first, bytes_of("\"coord\":"@),
                bytes_of(",\"coord\":"@)).len() + sp_enc_opt_latlong(o).len(),
            false,
        )),
{
    reveal(sp_member_coord);
    reveal_strlit("null");
    let lit = crate::json::member_lit(first, bytes_of("\"coord\":"@),
        bytes_of(",\"coord\":"@));
    crate::json::lemma_expect_at(s, i, lit);
    let j = i + lit.len() as int;
    let e = sp_enc_opt_latlong(o);
    match o {
        None => {
            crate::json::lemma_expect_at(s, j, bytes_of("null"@));
        },
        Some(v) => {
            reveal_strlit("{\"lon\":");
            lemma_byte_at(s, j, e, 0);
            assert(e[0] == bytes_of("{\"lon\":"@)[0]);
            assert(bytes_of("null"@)[0] == 110);
            if j + 4 <= s.len() {
                assert(s.subrange(j, j + 4 as int)[0] == s[j]);
                assert(s.subrange(j, j + 4 as int) != bytes_of("null"@));
            }
            assert(sp_expect(s, j, bytes_of("null"@)) is None);
            lemma_latlong_at(s, j, v);
        },
    }
}

pub proof fn lemma_member_weather_at(
    s: Seq<u8>,
    i: int,
    first: bool,
    o: Option<Seq<WeatherDetailsV>>,
)
    requires
        o matches Some(a) ==> details_all_wf(a),
        0 <= i,
        i + crate::json::member_lit(first, bytes_of("\"weather\":"@),
            bytes_of(",\"weather\":"@)).len() + sp_enc_opt_details_array(o).len() <= s.len(),
        s.subrange(i, i + crate::json::member_lit(first, bytes_of("\"weather\":"@),
            bytes_of(",\"weather\":"@)).len() as int) == crate::json::member_lit(first,
            bytes_of("\"weather\":"@), bytes_of(",\"weather\":"@)),
        s.subrange(
            i + crate::json::member_lit(first, bytes_of("\"weather\":"@),
                bytes_of(",\"weather\":"@)).len(),
            i + crate::json::member_lit(first, bytes_of("\"weather\":"@),
                bytes_of(",\"weather\":"@)).len() + sp_enc_opt_details_array(o).len() as int,
        ) == sp_enc_opt_details_array(o),
    ensures
        sp_member_weather(s, i, first) == Some((
            o,
            i + crate::json::member_lit(first, bytes_of("\"weather\":"@),
                bytes_of(",\"weather\":"@)).len() + sp_enc_opt_details_array(o).len(),
            false,
        )),
{
    reveal(sp_member_weather);
    reveal_strlit("null");
    let lit = crate::json::member_lit(first, bytes_of("\"weather\":"@),
        bytes_of(",\"weather\":"@));
    crate::json::lemma_expect_at(s, i, lit);
    let j = i + lit.len() as int;
    let e = sp_enc_opt_details_array(o);
    match o {
        None => {
            crate::json::lemma_expect_at(s, j, bytes_of("null"@));
        },
        Some(a) => {
            lemma_byte_at(s, j, e, 0);
            assert(e[0] == LBRACKET);
            assert(bytes_of("null"@)[0] == 110);
            if j + 4 <= s.len() {
                assert(s.subrange(j, j + 4 as int)[0] == s[j]);
                assert(s.subrange(j, j + 4 as int) != bytes_of("null"@));
            }
            assert(sp_expect(s, j, bytes_of("null"@)) is None);
            lemma_details_array_at(s, j, a);
        },
    }
}

pub proof fn lemma_member_main_at(s: Seq<u8>, i: int, first: bool, o: Option<WeatherBasicsV>)
    requires
        o matches Some(v) ==> v.wf(),
        0 <= i,
        i + crate::json::member_lit(first, bytes_of("\"main\":"@),
            bytes_of(",\"main\":"@)).len() + sp_enc_opt_basics(o).len() <= s.len(),
        s.subrange(i, i + crate::json::member_lit(first, bytes_of("\"main\":"@),
            bytes_of(",\"main\":"@)).len() as int) == crate::json::member_lit(first,
            bytes_of("\"main\":"@), bytes_of(",\"main\":"@)),
        s.subrange(
            i + crate::json::member_lit(first, bytes_of("\"main\":"@),
                bytes_of(",\"main\":"@)).len(),
            i + crate::json::member_lit(first, bytes_of("\"main\":"@),
                bytes_of(",\"main\":"@)).len() + sp_enc_opt_basics(o).len() as int,
        ) == sp_enc_opt_basics(o),
    ensures
        sp_member_main(s, i, first) == Some((
            o,
            i + crate::json::member_lit(first, bytes_of("\"main\":"@),
                bytes_of(",\"main\":"@)).len() + sp_enc_opt_basics(o).len(),
            false,
        )),
{
    reveal(sp_member_main);
    reveal_strlit("null");
    let lit = crate::json::member_lit(first, bytes_of("\"main\":"@), bytes_of(",\"main\":"@));
    crate::json::lemma_expect_at(s, i, lit);
    let j = i + lit.len() as int;
    let e = sp_enc_opt_basics(o);
    match o {
        None => {
            crate::json::lemma_expect_at(s, j, bytes_of("null"@));
        },
        Some(v) => {
            lemma_byte_at(s, j, e, 0);
            assert(sp_enc_basics_head(v)[0] == LBRACE);
            assert(e[0] == LBRACE);
            assert(bytes_of("null"@)[0] == 110);
            if j + 4 <= s.len() {
                assert(s.subrange(j, j + 4 as int)[0] == s[j]);
                assert(s.subrange(j, j + 4 as int) != bytes_of("null"@));
            }
            assert(sp_expect(s, j, bytes_of("null"@)) is None);
            lemma_basics_at(s, j, v);
        },
    }
}

pub proof fn lemma_member_wind_at(s: Seq<u8>, i: int, first: bool, o: Option<WindV>)
    requires
        o matches Some(v) ==> v.wf(),
        0 <= i,
        i + crate::json::member_lit(first, bytes_of("\"wind\":"@),
            bytes_of(",\"wind\":"@)).len() + sp_enc_opt_wind(o).len() <= s.len(),
        s.subrange(i, i + crate::json::member_lit(first, bytes_of("\"wind\":"@),
            bytes_of(",\"wind\":"@)).len() as int) == crate::json::member_lit(first,
            bytes_of("\"wind\":"@), bytes_of(",\"wind\":"@)),
        s.subrange(
            i + crate::json::member_lit(first, bytes_of("\"wind\":"@),
                bytes_of(",\"wind\":"@)).len(),
            i + crate::json::member_lit(first, bytes_of("\"wind\":"@),
                bytes_of(",\"wind\":"@)).len() + sp_enc_opt_wind(o).len() as int,
        ) == sp_enc_opt_wind(o),
    ensures
        sp_member_wind(s, i, first) == Some((
            o,
            i + crate::json::member_lit(first, bytes_of("\"wind\":"@),
                bytes_of(",\"wind\":"@)).len() + sp_enc_opt_wind(o).len(),
            false,
        )),
{
    reveal(sp_member_wind);
    reveal_strlit("null");
    let lit = crate::json::member_lit(first, bytes_of("\"wind\":"@), bytes_of(",\"wind\":"@));
    crate::json::lemma_expect_at(s, i, lit);
    let j = i + lit.len() as int;
    let e = sp_enc_opt_wind(o);
    match o {
        None => {
            crate::json::lemma_expect_at(s, j, bytes_of("null"@));
        },
        Some(v) => {
            lemma_byte_at(s, j, e, 0);
            assert(e[0] == LBRACE);
            assert(bytes_of("null"@)[0] == 110);
            if j + 4 <= s.len() {
                assert(s.subrange(j, j + 4 as int)[0] == s[j]);
                assert(s.subrange(j, j + 4 as int) != bytes_of("null"@));
            }
            assert(sp_expect(s, j, bytes_of("null"@)) is None);
            lemma_wind_at(s, j, v);
        },
    }
}

pub proof fn lemma_member_clouds_at(s: Seq<u8>, i: int, first: bool, o: Option<CloudsV>)
    requires
        0 <= i,
        i + crate::json::member_lit(first, bytes_of("\"clouds\":"@),
            bytes_of(",\"clouds\":"@)).len() + sp_enc_opt_clouds(o).len() <= s.len(),
        s.subrange(i, i + crate::json::member_lit(first, bytes_of("\"clouds\":"@),
            bytes_of(",\"clouds\":"@)).len() as int) == crate::json::member_lit(first,
            bytes_of("\"clouds\":"@), bytes_of(",\"clouds\":"@)),
        s.subrange(
            i + crate::json::member_lit(first, bytes_of("\"clouds\":"@),
                bytes_of(",\"clouds\":"@)).len(),
            i + crate::json::member_lit(first, bytes_of("\"clouds\":"@),
                bytes_of(",\"clouds\":"@)).len() + sp_enc_opt_clouds(o).len() as int,
        ) == sp_enc_opt_clouds(o),
    ensures
        sp_member_clouds(s, i, first) == Some((
            o,
            i + crate::json::member_lit(first, bytes_of("\"clouds\":"@),
                bytes_of(",\"clouds\":"@)).len() + sp_enc_opt_clouds(o).len(),
            false,
        )),
{
    reveal(sp_member_clouds);
    reveal_strlit("null");
    let lit = crate::json::member_lit(first, bytes_of("\"clouds\":"@),
        bytes_of(",\"clouds\":"@));
    crate::json::lemma_expect_at(s, i, lit);
    let j = i + lit.len() as int;
    let e = sp_enc_opt_clouds(o);
    match o {
        None => {
            crate::json::lemma_expect_at(s, j, bytes_of("null"@));
        },
        Some(v) => {
            lemma_byte_at(s, j, e, 0);
            assert(e[0] == LBRACE);
            assert(bytes_of("null"@)[0] == 110);
            if j + 4 <= s.len() {
                assert(s.subrange(j, j + 4 as int)[0] == s[j]);
                assert(s.subrange(j, j + 4 as int) != bytes_of("null"@));
            }
            assert(sp_expect(s, j, bytes_of("null"@)) is None);
            lemma_clouds_at(s, j, v);
        },
    }
}

pub proof fn lemma_member_sys_at(s: Seq<u8>, i: int, first: bool, o: Option<OWMSystemV>)
    requires
        o matches Some(v) ==> v.wf(),
        0 <= i,
        i + crate::json::member_lit(first, bytes_of("\"sys\":"@),
            bytes_of(",\"sys\":"@)).len() + sp_enc_opt_sys(o).len() <= s.len(),
        s.subrange(i, i + crate::json::member_lit(first, bytes_of("\"sys\":"@),
            bytes_of(",\"sys\":"@)).len() as int) == crate::json::member_lit(first,
            bytes_of("\"sys\":"@), bytes_of(",\"sys\":"@)),
        s.subrange(
            i + crate::json::member_lit(first, bytes_of("\"sys\":"@),
                bytes_of(",\"sys\":"@)).len(),
            i + crate::json::member_lit(first, bytes_of("\"sys\":"@),
                bytes_of(",\"sys\":"@)).len() + sp_enc_opt_sys(o).len() as int,
        ) == sp_enc_opt_sys(o),
    ensures
        sp_member_sys(s, i, first) == Some((
            o,
            i + crate::json::member_lit(first, bytes_of("\"sys\":"@),
                bytes_of(",\"sys\":"@)).len() + sp_enc_opt_sys(o).len(),
            false,
        )),
{
    reveal(sp_member_sys);
    reveal_strlit("null");
    let lit = crate::json::member_lit(first, bytes_of("\"sys\":"@), bytes_of(",\"sys\":"@));
    crate::json::lemma_expect_at(s, i, lit);
    let j = i + lit.len() as int;
    let e = sp_enc_opt_sys(o);
    match o {
        None => {
            crate::json::lemma_expect_at(s, j, bytes_of("null"@));
        },
        Some(v) => {
            lemma_byte_at(s, j, e, 0);
            assert(e[0] == LBRACE);
            assert(bytes_of("null"@)[0] == 110);
            if j + 4 <= s.len() {
                assert(s.subrange(j, j + 4 as int)[0] == s[j]);
                assert(s.subrange(j, j + 4 as int) != bytes_of("null"@));
            }
            assert(sp_expect(s, j, bytes_of("null"@)) is None);
            lemma_sys_at(s, j, v);
        },
    }
}

/// The decoded weather observation. Every field is optional.
#[derive(Debug)]
pub struct WeatherResponse {
    pub coord: Option<LatLong>,
    pub weather: Option<Vec<WeatherDetails>>,
    pub base: Option<Vec<u8>>,
    pub main: Option<WeatherBasics>,
    pub wind: Option<Wind>,
    pub clouds: Option<Clouds>,
    pub dt: Option<u64>,
    pub sys: Option<OWMSystem>,
    pub id: Option<u64>,
    pub name: Option<Vec<u8>>,
    pub cod: Option<u32>,
}

/// The mathematical value of a [`WeatherResponse`].
pub struct WeatherResponseV {
    pub coord: Option<LatLongV>,
    pub weather: Option<Seq<WeatherDetailsV>>,
    pub base: Option<Seq<u8>>,
    pub main: Option<WeatherBasicsV>,
    pub wind: Option<WindV>,
    pub clouds: Option<CloudsV>,
    pub dt: Option<u64>,
    pub sys: Option<OWMSystemV>,
    pub id: Option<u64>,
    pub name: Option<Seq<u8>>,
    pub cod: Option<u32>,
}

impl View for WeatherResponse {
    type V = WeatherResponseV;

    open spec fn view(&self) -> WeatherResponseV {
        WeatherResponseV {
            coord: view_opt_latlong(self.coord),
            weather: view_opt_details(self.weather),
            base: crate::json::view_opt_bytes(self.base),
            main: view_opt_basics(self.main),
            wind: view_opt_wind(self.wind),
            clouds: view_opt_clouds(self.clouds),
            dt: self.dt,
            sys: view_opt_sys(self.sys),
            id: self.id,
            name: crate::json::view_opt_bytes(self.name),
            cod: self.cod,
        }
    }
}

impl WeatherResponseV {
    pub open spec fn wf(self) -> bool {
        &&& (self.coord matches Some(c) ==> c.wf())
        &&& (self.weather matches Some(a) ==> details_all_wf(a))
        &&& opt_text_wf(self.base)
        &&& opt_text_wf(self.name)
        &&& (self.main matches Some(m) ==> m.wf())
        &&& (self.wind matches Some(w) ==> w.wf())
        &&& (self.sys matches Some(y) ==> y.wf())
    }
}

/// The canonical encoding of a weather observation: the eleven fields of
/// the schema, in schema order, absent fields as `null`. The decoder also
/// accepts a record whose members are simply omitted.
pub open spec fn sp_enc_weather_a(v: WeatherResponseV) -> Seq<u8> {
    seq![LBRACE] + bytes_of("\"coord\":"@) + sp_enc_opt_latlong(v.coord)
        + bytes_of(",\"weather\":"@) + sp_enc_opt_details_array(v.weather)
        + bytes_of(",\"base\":"@) + crate::json::sp_enc_opt_text(v.base)
        + bytes_of(",\"main\":"@) + sp_enc_opt_basics(v.main)
}

pub open spec fn sp_enc_weather_b(v: WeatherResponseV) -> Seq<u8> {
    bytes_of(",\"wind\":"@) + sp_enc_opt_wind(v.wind)
        + bytes_of(",\"clouds\":"@) + sp_enc_opt_clouds(v.clouds)
        + bytes_of(",\"dt\":"@) + crate::json::sp_enc_opt_u64(v.dt)
        + bytes_of(",\"sys\":"@) + sp_enc_opt_sys(v.sys)
}

pub open spec fn sp_enc_weather_c(v: WeatherResponseV) -> Seq<u8> {
    bytes_of(",\"id\":"@) + crate::json::sp_enc_opt_u64(v.id)
        + bytes_of(",\"name\":"@) + crate::json::sp_enc_opt_text(v.name)
        + bytes_of(",\"cod\":"@) + crate::json::sp_enc_opt_u64(opt_u32_as_u64(v.cod))
        + seq![RBRACE]
}

pub open spec fn sp_enc_weather(v: WeatherResponseV) -> Seq<u8> {
    sp_enc_weather_a(v) + sp_enc_weather_b(v) + sp_enc_weather_c(v)
}

/// The first six members of a weather record, in schema order, each
/// possibly absent.
pub open spec fn sp_decode_weather_head(s: Seq<u8>) -> Option<(
    (
        Option<LatLongV>,
        Option<Seq<WeatherDetailsV>>,
        Option<Seq<u8>>,
        Option<WeatherBasicsV>,
        Option<WindV>,
        Option<CloudsV>,
    ),
    int,
    bool,
)> {
    match sp_expect_byte(s, 0, LBRACE) {
        None => None,
        Some(i0) => match sp_member_coord(s, i0, true) {
            None => None,
            Some((coord, i1, f1)) => match sp_member_weather(s, i1, f1) {
                None => None,
                Some((weather, i2, f2)) => match crate::json::sp_member_text(
                    s, i2, f2, bytes_of("\"base\":"@), bytes_of(",\"base\":"@)) {
                    None => None,
                    Some((base, i3, f3)) => match sp_member_main(s, i3, f3) {
                        None => None,
                        Some((main, i4, f4)) => match sp_member_wind(s, i4, f4) {
                            None => None,
                            Some((wind, i5, f5)) => match sp_member_clouds(s, i5, f5) {
                                None => None,
                                Some((clouds, i6, f6)) => Some((
                                    (coord, weather, base, main, wind, clouds),
                                    i6,
                                    f6,
                                )),
                            },
                        },
                    },
                },
            },
        },
    }
}

/// The last five members of a weather record, from position `i`.
pub open spec fn sp_decode_weather_tail(s: Seq<u8>, i: int, first: bool) -> Option<(
    (Option<u64>, Option<OWMSystemV>, Option<u64>, Option<Seq<u8>>, Option<u32>),
    int,
)> {
    match crate::json::sp_member_u64(s, i, first, bytes_of("\"dt\":"@),
        bytes_of(",\"dt\":"@)) {
        None => None,
        Some((dt, i7, f7)) => match sp_member_sys(s, i7, f7) {
            None => None,
            Some((sys, i8, f8)) => match crate::json::sp_member_u64(
                s, i8, f8, bytes_of("\"id\":"@), bytes_of(",\"id\":"@)) {
                None => None,
                Some((id, i9, f9)) => match crate::json::sp_member_text(
                    s, i9, f9, bytes_of("\"name\":"@), bytes_of(",\"name\":"@)) {
                    None => None,
                    Some((name, i10, f10)) => match sp_member_u32(
                        s, i10, f10, bytes_of("\"cod\":"@), bytes_of(",\"cod\":"@)) {
                        None => None,
                        Some((cod, i11, _)) => Some(((dt, sys, id, name, cod), i11)),
                    },
                },
            },
        },
    }
}

/// Decoding a weather observation: the eleven members in schema order, any
/// of them absent, then the closing brace, then the end of the input.
pub open spec fn sp_decode_weather(s: Seq<u8>) -> Option<WeatherResponseV> {
    match sp_decode_weather_head(s) {
        None => None,
        Some((f, i6, f6)) => match sp_decode_weather_tail(s, i6, f6) {
            None => None,
            Some((g, i11)) => match sp_expect_byte(s, i11, RBRACE) {
                None => None,
                Some(i12) => if i12 == s.len() {
                    Some(WeatherResponseV {
                        coord: f.0,
                        weather: f.1,
                        base: f.2,
                        main: f.3,
                        wind: f.4,
                        clouds: f.5,
                        dt: g.0,
                        sys: g.1,
                        id: g.2,
                        name: g.3,
                        cod: g.4,
                    })
                } else {
                    None
                },
            },
        },
    }
}

fn push_weather_a(out: &mut Vec<u8>, v: &WeatherResponse)
    ensures
        final(out)@ == old(out)@ + sp_enc_weather_a(v@),
{
    proof {
        reveal_strlit("\"coord\":");
        reveal_strlit(",\"weather\":");
        reveal_strlit(",\"base\":");
        reveal_strlit(",\"main\":");
    }
    out.push(LBRACE);
    push_str_bytes(out, "\"coord\":");
    push_opt_latlong(out, &v.coord);
    push_str_bytes(out, ",\"weather\":");
    push_opt_details_array(out, &v.weather);
    push_str_bytes(out, ",\"base\":");
    crate::json::push_opt_text(out, &v.base);
    push_str_bytes(out, ",\"main\":");
    push_opt_basics(out, &v.main);
    proof {
        assert(out@ =~= old(out)@ + sp_enc_weather_a(v@));
    }
}

fn push_weather_b(out: &mut Vec<u8>, v: &WeatherResponse)
    ensures
        final(out)@ == old(out)@ + sp_enc_weather_b(v@),
{
    proof {
        reveal_strlit(",\"wind\":");
        reveal_strlit(",\"clouds\":");
        reveal_strlit(",\"dt\":");
        reveal_strlit(",\"sys\":");
    }
    push_str_bytes(out, ",\"wind\":");
    push_opt_wind(out, &v.wind);
    push_str_bytes(out, ",\"clouds\":");
    push_opt_clouds(out, &v.clouds);
    push_str_bytes(out, ",\"dt\":");
    crate::json::push_opt_u64(out, &v.dt);
    push_str_bytes(out, ",\"sys\":");
    push_opt_sys(out, &v.sys);
    proof {
        assert(out@ =~= old(out)@ + sp_enc_weather_b(v@));
    }
}

fn push_weather_c(out: &mut Vec<u8>, v: &WeatherResponse)
    ensures
        final(out)@ == old(out)@ + sp_enc_weather_c(v@),
{
    proof {
        reveal_strlit(",\"id\":");
        reveal_strlit(",\"name\":");
        reveal_strlit(",\"cod\":");
    }
    push_str_bytes(out, ",\"id\":");
    crate::json::push_opt_u64(out, &v.id);
    push_str_bytes(out, ",\"name\":");
    crate::json::push_opt_text(out, &v.name);
    push_str_bytes(out, ",\"cod\":");
    let cod: Option<u64> = match &v.cod {
        None => None,
        Some(n) => Some(*n as u64),
    };
    crate::json::push_opt_u64(out, &cod);
    out.push(RBRACE);
    proof {
        assert(cod == opt_u32_as_u64(v@.cod));
        assert(out@ =~= old(out)@ + sp_enc_weather_c(v@));
    }
}

/// Encodes a weather observation as its canonical JSON record.
pub fn encode_weather(v: &WeatherResponse) -> (r: Vec<u8>)
    ensures
        r@ == sp_enc_weather(v@),
{
    let mut out: Vec<u8> = Vec::new();
    push_weather_a(&mut out, v);
    push_weather_b(&mut out, v);
    push_weather_c(&mut out, v);
    proof {
        assert(out@ =~= sp_enc_weather(v@));
    }
    out
}

#[verifier::spinoff_prover]
#[verifier::rlimit(100)]
fn decode_weather_head(s: &Vec<u8>) -> (r: Option<(
    (
        Option<LatLong>,
        Option<Vec<WeatherDetails>>,
        Option<Vec<u8>>,
        Option<WeatherBasics>,
        Option<Wind>,
        Option<Clouds>,
    ),
    usize,
    bool,
)>)
    ensures
        match r {
            Some((f, j, fl)) => sp_decode_weather_head(s@) == Some((
                (
                    view_opt_latlong(f.0),
                    view_opt_details(f.1),
                    crate::json::view_opt_bytes(f.2),
                    view_opt_basics(f.3),
                    view_opt_wind(f.4),
                    view_opt_clouds(f.5),
                ),
                j as int,
                fl,
            )) && j <= s@.len() && (f.0 matches Some(c) ==> c@.wf()) && (f.1 matches Some(a)
                ==> details_all_wf(details_view(a@))) && (f.2 matches Some(b) ==> text_wf(b@))
                && (f.3 matches Some(m) ==> m@.wf()) && (f.4 matches Some(w) ==> w@.wf()),
            None => sp_decode_weather_head(s@) is None,
        },
{
    proof {
        reveal_strlit("\"base\":");
        reveal_strlit(",\"base\":");
    }
    let i0 = match expect_byte(s, 0, LBRACE) {
        Some(x) => x,
        None => { return None; },
    };
    let (coord, i1, f1) = match member_coord(s, i0, true) {
        Some(x) => x,
        None => { return None; },
    };
    let (weather, i2, f2) = match member_weather(s, i1, f1) {
        Some(x) => x,
        None => { return None; },
    };
    let (base, i3, f3) = match crate::json::member_text(s, i2, f2, "\"base\":",
        ",\"base\":") {
        Some(x) => x,
        None => { return None; },
    };
    let (main, i4, f4) = match member_main(s, i3, f3) {
        Some(x) => x,
        None => { return None; },
    };
    let (wind, i5, f5) = match member_wind(s, i4, f4) {
        Some(x) => x,
        None => { return None; },
    };
    let (clouds, i6, f6) = match member_clouds(s, i5, f5) {
        Some(x) => x,
        None => { return None; },
    };
    Some(((coord, weather, base, main, wind, clouds), i6, f6))
}

#[verifier::spinoff_prover]
#[verifier::rlimit(100)]
fn decode_weather_tail(s: &Vec<u8>, i: usize, first: bool) -> (r: Option<(
    (Option<u64>, Option<OWMSystem>, Option<u64>, Option<Vec<u8>>, Option<u32>),
    usize,
)>)
    requires
        i <= s@.len(),
    ensures
        match r {
            Some((g, j)) => sp_decode_weather_tail(s@, i as int, first) == Some((
                (
                    g.0,
                    view_opt_sys(g.1),
                    g.2,
                    crate::json::view_opt_bytes(g.3),
                    g.4,
                ),
                j as int,
            )) && j <= s@.len() && (g.1 matches Some(y) ==> y@.wf()) && (g.3 matches Some(b)
                ==> text_wf(b@)),
            None => sp_decode_weather_tail(s@, i as int, first) is None,
        },
{
    proof {
        reveal_strlit("\"dt\":");
        reveal_strlit(",\"dt\":");
        reveal_strlit("\"id\":");
        reveal_strlit(",\"id\":");
        reveal_strlit("\"name\":");
        reveal_strlit(",\"name\":");
        reveal_strlit("\"cod\":");
        reveal_strlit(",\"cod\":");
    }
    let (dt, i7, f7) = match crate::json::member_u64(s, i, first, "\"dt\":", ",\"dt\":") {
        Some(x) => x,
        None => { return None; },
    };
    let (sys, i8, f8) = match member_sys(s, i7, f7) {
        Some(x) => x,
        None => { return None; },
    };
    let (id, i9, f9) = match crate::json::member_u64(s, i8, f8, "\"id\":", ",\"id\":") {
        Some(x) => x,
        None => { return None; },
    };
    let (name, i10, f10) = match crate::json::member_text(s, i9, f9, "\"name\":",
        ",\"name\":") {
        Some(x) => x,
        None => { return None; },
    };
    let (cod, i11, _f11) = match member_u32(s, i10, f10, "\"cod\":", ",\"cod\":") {
        Some(x) => x,
        None => { return None; },
    };
    Some(((dt, sys, id, name, cod), i11))
}

/// Decodes a JSON weather record: members in schema order, any of them
/// absent, `null` and an omitted member both yielding the absent field.
#[verifier::spinoff_prover]
#[verifier::rlimit(100)]
pub fn decode_weather(s: &Vec<u8>) -> (r: Option<WeatherResponse>)
    ensures
        match r {
            Some(v) => sp_decode_weather(s@) == Some(v@) && v@.wf(),
            None => sp_decode_weather(s@) is None,
        },
{
    let (f, i6, f6) = match decode_weather_head(s) {
        Some(x) => x,
        None => { return None; },
    };
    let (g, i11) = match decode_weather_tail(s, i6, f6) {
        Some(x) => x,
        None => { return None; },
    };
    let i12 = match expect_byte(s, i11, RBRACE) {
        Some(x) => x,
        None => { return None; },
    };
    if i12 != s.len() {
        return None;
    }
    let (coord, weather, base, main, wind, clouds) = f;
    let (dt, sys, id, name, cod) = g;
    Some(WeatherResponse { coord, weather, base, main, wind, clouds, dt, sys, id, name, cod })
}

/// Decodes a weather record, lifting a malformed record into the failure
/// taxonomy.
pub fn deserialize_weather(s: &Vec<u8>) -> (r: Result<WeatherResponse, ErrorExt>)
    ensures
        match r {
            Ok(v) => sp_decode_weather(s@) == Some(v@) && v@.wf(),
            Err(e) => sp_decode_weather(s@) is None && e is Codec,
        },
{
    match decode_weather(s) {
        Some(v) => Ok(v),
        None => Err(ErrorExt::Codec(String::from_str("malformed weather record"))),
    }
}

// Positions of the successive members inside the canonical encoding.
spec fn wr_p1(v: WeatherResponseV) -> int {
    1int + bytes_of("\"coord\":"@).len() + sp_enc_opt_latlong(v.coord).len()
}

spec fn wr_p2(v: WeatherResponseV) -> int {
    wr_p1(v) + bytes_of(",\"weather\":"@).len() + sp_enc_opt_details_array(v.weather).len()
}

spec fn wr_p3(v: WeatherResponseV) -> int {
    wr_p2(v) + bytes_of(",\"base\":"@).len() + crate::json::sp_enc_opt_text(v.base).len()
}

spec fn wr_p4(v: WeatherResponseV) -> int {
    wr_p3(v) + bytes_of(",\"main\":"@).len() + sp_enc_opt_basics(v.main).len()
}

spec fn wr_p5(v: WeatherResponseV) -> int {
    wr_p4(v) + bytes_of(",\"wind\":"@).len() + sp_enc_opt_wind(v.wind).len()
}

spec fn wr_p6(v: WeatherResponseV) -> int {
    wr_p5(v) + bytes_of(",\"clouds\":"@).len() + sp_enc_opt_clouds(v.clouds).len()
}

spec fn wr_p7(v: WeatherResponseV) -> int {
    wr_p6(v) + bytes_of(",\"dt\":"@).len() + crate::json::sp_enc_opt_u64(v.dt).len()
}

spec fn wr_p8(v: WeatherResponseV) -> int {
    wr_p7(v) + bytes_of(",\"sys\":"@).len() + sp_enc_opt_sys(v.sys).len()
}

spec fn wr_p9(v: WeatherResponseV) -> int {
    wr_p8(v) + bytes_of(",\"id\":"@).len() + crate::json::sp_enc_opt_u64(v.id).len()
}

spec fn wr_p10(v: WeatherResponseV) -> int {
    wr_p9(v) + bytes_of(",\"name\":"@).len() + crate::json::sp_enc_opt_text(v.name).len()
}

spec fn wr_p11(v: WeatherResponseV) -> int {
    wr_p10(v) + bytes_of(",\"cod\":"@).len() + crate::json::sp_enc_opt_u64(
        opt_u32_as_u64(v.cod),
    ).len()
}

#[verifier::spinoff_prover]
#[verifier::rlimit(100)]
proof fn lemma_wrt_coord(v: WeatherResponseV)
    requires
        v.wf(),
    ensures
        sp_member_coord(sp_enc_weather(v), 1, true) == Some((v.coord, wr_p1(v), false)),
{
    let s = sp_enc_weather(v);
    let k = bytes_of("\"coord\":"@);
    assert(s.subrange(1, 1 + k.len() as int) =~= k);
    assert(s.subrange(1int + k.len(), wr_p1(v)) =~= sp_enc_opt_latlong(v.coord));
    lemma_member_coord_at(s, 1, true, v.coord);
}

#[verifier::spinoff_prover]
#[verifier::rlimit(100)]
proof fn lemma_wrt_weather(v: WeatherResponseV)
    requires
        v.wf(),
    ensures
        sp_member_weather(sp_enc_weather(v), wr_p1(v), false) == Some((
            v.weather,
            wr_p2(v),
            false,
        )),
{
    let s = sp_enc_weather(v);
    let k = bytes_of(",\"weather\":"@);
    let i = wr_p1(v);
    assert(s.subrange(i, i + k.len() as int) =~= k);
    assert(s.subrange(i + k.len(), wr_p2(v)) =~= sp_enc_opt_details_array(v.weather));
    lemma_member_weather_at(s, i, false, v.weather);
}

#[verifier::spinoff_prover]
#[verifier::rlimit(100)]
proof fn lemma_wrt_base(v: WeatherResponseV)
    requires
        v.wf(),
    ensures
        crate::json::sp_member_text(sp_enc_weather(v), wr_p2(v), false,
            bytes_of("\"base\":"@), bytes_of(",\"base\":"@)) == Some((
            v.base,
            wr_p3(v),
            false,
        )),
{
    let s = sp_enc_weather(v);
    let k = bytes_of(",\"base\":"@);
    let i = wr_p2(v);
    assert(s.subrange(i, i + k.len() as int) =~= k);
    assert(s.subrange(i + k.len(), wr_p3(v)) =~= crate::json::sp_enc_opt_text(v.base));
    crate::json::lemma_member_text_at(s, i, false, bytes_of("\"base\":"@), k, v.base);
}

#[verifier::spinoff_prover]
#[verifier::rlimit(100)]
proof fn lemma_wrt_main(v: WeatherResponseV)
    requires
        v.wf(),
    ensures
        sp_member_main(sp_enc_weather(v), wr_p3(v), false) == Some((v.main, wr_p4(v), false)),
{
    let s = sp_enc_weather(v);
    let k = bytes_of(",\"main\":"@);
    let i = wr_p3(v);
    assert(s.subrange(i, i + k.len() as int) =~= k);
    assert(s.subrange(i + k.len(), wr_p4(v)) =~= sp_enc_opt_basics(v.main));
    lemma_member_main_at(s, i, false, v.main);
}

#[verifier::spinoff_prover]
#[verifier::rlimit(100)]
proof fn lemma_wrt_wind(v: WeatherResponseV)
    requires
        v.wf(),
    ensures
        sp_member_wind(sp_enc_weather(v), wr_p4(v), false) == Some((v.wind, wr_p5(v), false)),
{
    let s = sp_enc_weather(v);
    let k = bytes_of(",\"wind\":"@);
    let i = wr_p4(v);
    assert(s.subrange(i, i + k.len() as int) =~= k);
    assert(s.subrange(i + k.len(), wr_p5(v)) =~= sp_enc_opt_wind(v.wind));
    lemma_member_wind_at(s, i, false, v.wind);
}

#[verifier::spinoff_prover]
#[verifier::rlimit(100)]
proof fn lemma_wrt_clouds(v: WeatherResponseV)
    requires
        v.wf(),
    ensures
        sp_member_clouds(sp_enc_weather(v), wr_p5(v), false) == Some((
            v.clouds,
            wr_p6(v),
            false,
        )),
{
    let s = sp_enc_weather(v);
    let k = bytes_of(",\"clouds\":"@);
    let i = wr_p5(v);
    assert(s.subrange(i, i + k.len() as int) =~= k);
    assert(s.subrange(i + k.len(), wr_p6(v)) =~= sp_enc_opt_clouds(v.clouds));
    lemma_member_clouds_at(s, i, false, v.clouds);
}

#[verifier::spinoff_prover]
#[verifier::rlimit(100)]
proof fn lemma_wrt_dt(v: WeatherResponseV)
    requires
        v.wf(),
    ensures
        crate::json::sp_member_u64(sp_enc_weather(v), wr_p6(v), false, bytes_of("\"dt\":"@),
            bytes_of(",\"dt\":"@)) == Some((v.dt, wr_p7(v), false)),
{
    let s = sp_enc_weather(v);
    let k = bytes_of(",\"dt\":"@);
    let i = wr_p6(v);
    reveal_strlit(",\"sys\":");
    assert(s.subrange(i, i + k.len() as int) =~= k);
    assert(s.subrange(i + k.len(), wr_p7(v)) =~= crate::json::sp_enc_opt_u64(v.dt));
    assert(s[wr_p7(v)] == bytes_of(",\"sys\":"@)[0]);
    assert(!is_digit(44));
    crate::json::lemma_member_u64_at(s, i, false, bytes_of("\"dt\":"@), k, v.dt);
}

#[verifier::spinoff_prover]
#[verifier::rlimit(100)]
proof fn lemma_wrt_sys(v: WeatherResponseV)
    requires
        v.wf(),
    ensures
        sp_member_sys(sp_enc_weather(v), wr_p7(v), false) == Some((v.sys, wr_p8(v), false)),
{
    let s = sp_enc_weather(v);
    let k = bytes_of(",\"sys\":"@);
    let i = wr_p7(v);
    assert(s.subrange(i, i + k.len() as int) =~= k);
    assert(s.subrange(i + k.len(), wr_p8(v)) =~= sp_enc_opt_sys(v.sys));
    lemma_member_sys_at(s, i, false, v.sys);
}

#[verifier::spinoff_prover]
#[verifier::rlimit(100)]
proof fn lemma_wrt_id(v: WeatherResponseV)
    requires
        v.wf(),
    ensures
        crate::json::sp_member_u64(sp_enc_weather(v), wr_p8(v), false, bytes_of("\"id\":"@),
            bytes_of(",\"id\":"@)) == Some((v.id, wr_p9(v), false)),
{
    let s = sp_enc_weather(v);
    let k = bytes_of(",\"id\":"@);
    let i = wr_p8(v);
    reveal_strlit(",\"name\":");
    assert(s.subrange(i, i + k.len() as int) =~= k);
    assert(s.subrange(i + k.len(), wr_p9(v)) =~= crate::json::sp_enc_opt_u64(v.id));
    assert(s[wr_p9(v)] == bytes_of(",\"name\":"@)[0]);
    assert(!is_digit(44));
    crate::json::lemma_member_u64_at(s, i, false, bytes_of("\"id\":"@), k, v.id);
}

#[verifier::spinoff_prover]
#[verifier::rlimit(100)]
proof fn lemma_wrt_name(v: WeatherResponseV)
    requires
        v.wf(),
    ensures
        crate::json::sp_member_text(sp_enc_weather(v), wr_p9(v), false,
            bytes_of("\"name\":"@), bytes_of(",\"name\":"@)) == Some((
            v.name,
            wr_p10(v),
            false,
        )),
{
    let s = sp_enc_weather(v);
    let k = bytes_of(",\"name\":"@);
    let i = wr_p9(v);
    assert(s.subrange(i, i + k.len() as int) =~= k);
    assert(s.subrange(i + k.len(), wr_p10(v)) =~= crate::json::sp_enc_opt_text(v.name));
    crate::json::lemma_member_text_at(s, i, false, bytes_of("\"name\":"@), k, v.name);
}

#[verifier::spinoff_prover]
#[verifier::rlimit(100)]
proof fn lemma_wrt_cod(v: WeatherResponseV)
    requires
        v.wf(),
    ensures
        sp_member_u32(sp_enc_weather(v), wr_p10(v), false, bytes_of("\"cod\":"@),
            bytes_of(",\"cod\":"@)) == Some((v.cod, wr_p11(v), false)),
        sp_enc_weather(v)[wr_p11(v)] == RBRACE,
        sp_enc_weather(v).len() == wr_p11(v) + 1,
{
    let s = sp_enc_weather(v);
    let k = bytes_of(",\"cod\":"@);
    let i = wr_p10(v);
    assert(s.subrange(i, i + k.len() as int) =~= k);
    assert(s.subrange(i + k.len(), wr_p11(v)) =~= crate::json::sp_enc_opt_u64(
        opt_u32_as_u64(v.cod),
    ));
    assert(s[wr_p11(v)] == RBRACE);
    assert(!is_digit(RBRACE));
    lemma_member_u32_at(s, i, false, bytes_of("\"cod\":"@), k, v.cod);
}

/// Round trip over the weather schema: decoding an encoded response yields
/// the response back — every present field is preserved and every absent
/// field stays absent — for every well-formed response.
#[verifier::spinoff_prover]
#[verifier::rlimit(100)]
pub proof fn lemma_weather_round_trip(v: WeatherResponseV)
    requires
        v.wf(),
    ensures
        sp_decode_weather(sp_enc_weather(v)) == Some(v),
{
    let s = sp_enc_weather(v);
    assert(s[0] == LBRACE) by {
        assert(sp_enc_weather_a(v)[0] == LBRACE);
    }
    assert(sp_expect_byte(s, 0, LBRACE) == Some(1int));
    lemma_wrt_coord(v);
    lemma_wrt_weather(v);
    lemma_wrt_base(v);
    lemma_wrt_main(v);
    lemma_wrt_wind(v);
    lemma_wrt_clouds(v);
    lemma_wrt_dt(v);
    lemma_wrt_sys(v);
    lemma_wrt_id(v);
    lemma_wrt_name(v);
    lemma_wrt_cod(v);
    assert(sp_decode_weather_head(s) == Some((
        (v.coord, v.weather, v.base, v.main, v.wind, v.clouds),
        wr_p6(v),
        false,
    )));
    assert(sp_decode_weather_tail(s, wr_p6(v), false) == Some((
        (v.dt, v.sys, v.id, v.name, v.cod),
        wr_p11(v),
    )));
    assert(sp_expect_byte(s, wr_p11(v), RBRACE) == Some(wr_p11(v) + 1));
    assert(WeatherResponseV {
        coord: v.coord,
        weather: v.weather,
        base: v.base,
        main: v.main,
        wind: v.wind,
        clouds: v.clouds,
        dt: v.dt,
        sys: v.sys,
        id: v.id,
        name: v.name,
        cod: v.cod,
    } == v);
}

} // verus!
