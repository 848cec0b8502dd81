//! Byte-level primitives of the JSON wire format used by the two record
//! schemas: string escaping and parsing, literal matching, and number
//! literals kept as their verbatim token text.

use vstd::prelude::*;
use crate::text::bytes_of;
use crate::text::QUOTE;
use crate::text::BACKSLASH;
use crate::text::MINUS;
use crate::text::PLUS;
use crate::text::DOT;
use crate::text::LOWER_E;
use crate::text::UPPER_E;
use crate::numbers::is_digit;
use crate::numbers::is_digit_byte;
use vstd::string::StringSliceAdditionalSpecFns;

verus! {

/// Text that can be carried in a JSON string without control escapes:
/// every byte is outside the ASCII control range.
pub open spec fn text_wf(s: Seq<u8>) -> bool {
    forall|k: int| 0 <= k < s.len() ==> s[k] >= 32
}

/// The escaped form of one byte of string content.
pub open spec fn esc_byte(b: u8) -> Seq<u8> {
    if b == QUOTE || b == BACKSLASH {
        seq![BACKSLASH, b]
    } else {
        seq![b]
    }
}

/// The escaped form of string content.
pub open spec fn esc(s: Seq<u8>) -> Seq<u8>
    decreases s.len(),
{
    if s.len() == 0 {
        Seq::empty()
    } else {
        esc_byte(s[0]) + esc(s.subrange(1, s.len() as int))
    }
}

pub proof fn lemma_esc_append(s: Seq<u8>, t: Seq<u8>)
    ensures
        esc(s + t) == esc(s) + esc(t),
    decreases s.len(),
{
    if s.len() == 0 {
        assert(s + t =~= t);
        assert(esc(s) + esc(t) =~= esc(t));
    } else {
        let st = s + t;
        assert(st[0] == s[0]);
        assert(st.subrange(1, st.len() as int) =~= s.subrange(1, s.len() as int) + t);
        lemma_esc_append(s.subrange(1, s.len() as int), t);
        assert(esc(s + t) =~= esc(s) + esc(t));
    }
}

/// Appends the escaped form of `content` to `out`.
pub fn push_escaped(out: &mut Vec<u8>, content: &Vec<u8>)
    ensures
        final(out)@ == old(out)@ + esc(content@),
{
    let n = content.len();
    let mut k: usize = 0;
    while k < n
        invariant
            k <= n,
            n == content@.len(),
            out@ == old(out)@ + esc(content@.subrange(0, k as int)),
        decreases n - k,
    {
        let b = content[k];
        if b == QUOTE || b == BACKSLASH {
            out.push(BACKSLASH);
            out.push(b);
        } else {
            out.push(b);
        }
        proof {
            let pre = content@.subrange(0, k as int);
            let e = content@[k as int];
            assert(content@.subrange(0, k + 1 as int) =~= pre + seq![e]);
            lemma_esc_append(pre, seq![e]);
            assert(seq![e].subrange(1, 1) =~= Seq::<u8>::empty());
            assert(esc(Seq::<u8>::empty()) =~= Seq::<u8>::empty());
            assert(esc(seq![e]) =~= esc_byte(e));
            assert(out@ =~= old(out)@ + esc(content@.subrange(0, k + 1 as int)));
        }
        k = k + 1;
    }
    proof {
        assert(content@.subrange(0, n as int) =~= content@);
    }
}

/// Parses the body of a JSON string starting just after the opening quote:
/// unescapes `\"` and `\\`, stops at the closing quote, and rejects control
/// bytes, unknown escapes and an unterminated string. Returns the content
/// and the position just past the closing quote.
pub open spec fn sp_parse_text(s: Seq<u8>, i: int) -> Option<(Seq<u8>, int)>
    decreases s.len() - i when 0 <= i <= s.len()
{
    if i >= s.len() {
        None
    } else if s[i] == QUOTE {
        Some((Seq::empty(), i + 1))
    } else if s[i] == BACKSLASH {
        if i + 1 < s.len() && (s[i + 1] == QUOTE || s[i + 1] == BACKSLASH) {
            match sp_parse_text(s, i + 2) {
                Some((t, j)) => Some((seq![s[i + 1]] + t, j)),
                None => None,
            }
        } else {
            None
        }
    } else if s[i] < 32 {
        None
    } else {
        match sp_parse_text(s, i + 1) {
            Some((t, j)) => Some((seq![s[i]] + t, j)),
            None => None,
        }
    }
}

/// Parses a string body at position `i` of `s`, mirroring [`sp_parse_text`].
pub fn parse_text(s: &Vec<u8>, i: usize) -> (r: Option<(Vec<u8>, usize)>)
    requires
        i <= s@.len(),
    ensures
        match r {
            Some((t, j)) => sp_parse_text(s@, i as int) == Some((t@, j as int))
                && i < j <= s@.len() && text_wf(t@),
            None => sp_parse_text(s@, i as int) is None,
        },
    decreases s@.len() - i,
{
    if i >= s.len() {
        return None;
    }
    let b = s[i];
    if b == QUOTE {
        let t: Vec<u8> = Vec::new();
        return Some((t, i + 1));
    }
    if b == BACKSLASH {
        if i + 1 < s.len() && (s[i + 1] == QUOTE || s[i + 1] == BACKSLASH) {
            let e = s[i + 1];
            match parse_text(s, i + 2) {
                Some((mut t, j)) => {
                    t.insert(0, e);
                    proof {
                        assert(t@ =~= seq![s@[i + 1]] + t@.subrange(1, t@.len() as int));
                    }
                    return Some((t, j));
                },
                None => {
                    return None;
                },
            }
        } else {
            return None;
        }
    }
    if b < 32 {
        return None;
    }
    match parse_text(s, i + 1) {
        Some((mut t, j)) => {
            t.insert(0, b);
            proof {
                assert(t@ =~= seq![s@[i as int]] + t@.subrange(1, t@.len() as int));
            }
            Some((t, j))
        },
        None => None,
    }
}

/// Parsing the escaped embedding of well-formed content followed by a
/// closing quote recovers exactly the content.
pub proof fn lemma_parse_text_of_esc(s: Seq<u8>, i: int, c: Seq<u8>)
    requires
        text_wf(c),
        0 <= i,
        i + esc(c).len() + 1 <= s.len(),
        s.subrange(i, i + esc(c).len() as int) == esc(c),
        s[i + esc(c).len()] == QUOTE,
    ensures
        sp_parse_text(s, i) == Some((c, i + esc(c).len() + 1)),
    decreases c.len(),
{
    if c.len() == 0 {
        assert(esc(c).len() == 0);
        assert(s[i] == QUOTE);
        assert(c =~= Seq::<u8>::empty());
    } else {
        let c0 = c[0];
        let ct = c.subrange(1, c.len() as int);
        assert(esc(c) == esc_byte(c0) + esc(ct));
        let lb = esc_byte(c0).len() as int;
        let lt = esc(ct).len() as int;
        let le = esc(c).len() as int;
        assert(le == lb + lt);
        let sub = s.subrange(i, i + le);
        assert forall|k: int| 0 <= k < le implies #[trigger] s[i + k] == esc(c)[k] by {
            assert(sub[k] == s[i + k]);
            assert(sub[k] == esc(c)[k]);
        };
        assert(s.subrange(i + lb, i + lb + lt) =~= esc(ct)) by {
            assert forall|m: int|
                0 <= m < lt implies s.subrange(i + lb, i + lb + lt)[m] == esc(ct)[m] by {
                assert(s.subrange(i + lb, i + lb + lt)[m] == s[i + lb + m]);
                assert(s[i + (lb + m)] == esc(c)[lb + m]);
                assert(esc(c)[lb + m] == esc(ct)[m]);
            };
        }
        assert(text_wf(ct));
        lemma_parse_text_of_esc(s, i + lb, ct);
        assert(c0 >= 32);
        if c0 == QUOTE || c0 == BACKSLASH {
            assert(esc_byte(c0) == seq![BACKSLASH, c0]);
            assert(s[i + 0] == esc(c)[0]);
            assert(s[i] == BACKSLASH);
            assert(s[i + 1] == esc(c)[1]);
            assert(s[i + 1] == c0);
            assert(sp_parse_text(s, i + 2) == Some((ct, i + le + 1)));
            assert(seq![s[i + 1]] + ct =~= c);
        } else {
            assert(esc_byte(c0) == seq![c0]);
            assert(s[i + 0] == esc(c)[0]);
            assert(s[i] == c0);
            assert(sp_parse_text(s, i + 1) == Some((ct, i + le + 1)));
            assert(seq![s[i]] + ct =~= c);
        }
    }
}

/// Matching a fixed byte sequence at position `i`: the position just past it
/// on success.
pub open spec fn sp_expect(s: Seq<u8>, i: int, lit: Seq<u8>) -> Option<int> {
    if 0 <= i && i + lit.len() <= s.len() && s.subrange(i, i + lit.len() as int) == lit {
        Some(i + lit.len() as int)
    } else {
        None
    }
}

pub proof fn lemma_expect_at(s: Seq<u8>, i: int, lit: Seq<u8>)
    requires
        0 <= i,
        i + lit.len() <= s.len(),
        s.subrange(i, i + lit.len() as int) == lit,
    ensures
        sp_expect(s, i, lit) == Some(i + lit.len() as int),
{
}

/// Matches the bytes of the ASCII literal `lit` at position `i` of `s`,
/// mirroring [`sp_expect`].
pub fn expect_lit(s: &Vec<u8>, i: usize, lit: &str) -> (r: Option<usize>)
    requires
        lit.is_ascii(),
        i <= s@.len(),
    ensures
        match r {
            Some(j) => sp_expect(s@, i as int, bytes_of(lit@)) == Some(j as int)
                && i <= j <= s@.len(),
            None => sp_expect(s@, i as int, bytes_of(lit@)) is None,
        },
{
    proof {
        vstd::string::is_ascii_spec_bytes(lit);
        assert(bytes_of(lit@) =~= lit.spec_bytes());
    }
    let n = lit.unicode_len();
    let slen = s.len();
    if n > slen - i {
        return None;
    }
    let mut k: usize = 0;
    while k < n
        invariant
            lit.is_ascii(),
            k <= n,
            i + n <= slen,
            slen == s@.len(),
            n == bytes_of(lit@).len(),
            n == lit@.len(),
            forall|k2: int| 0 <= k2 < k ==> s@[i + k2] == bytes_of(lit@)[k2],
        decreases n - k,
    {
        let expected = lit.get_ascii(k);
        if s[i + k] != expected {
            proof {
                let sub = s@.subrange(i as int, i + n as int);
                assert(sub[k as int] == s@[i + k]);
                assert(sub[k as int] != bytes_of(lit@)[k as int]);
            }
            return None;
        }
        k = k + 1;
    }
    proof {
        assert(s@.subrange(i as int, i + n as int) =~= bytes_of(lit@));
    }
    Some(i + n)
}

/// Matching one fixed byte at position `i`.
pub open spec fn sp_expect_byte(s: Seq<u8>, i: int, b: u8) -> Option<int> {
    if 0 <= i < s.len() && s[i] == b {
        Some(i + 1)
    } else {
        None
    }
}

pub fn expect_byte(s: &Vec<u8>, i: usize, b: u8) -> (r: Option<usize>)
    requires
        i <= s@.len(),
    ensures
        match r {
            Some(j) => sp_expect_byte(s@, i as int, b) == Some(j as int)
                && i < j <= s@.len(),
            None => sp_expect_byte(s@, i as int, b) is None,
        },
{
    if i < s.len() && s[i] == b {
        Some(i + 1)
    } else {
        None
    }
}

/// Whether `b` may appear in a JSON number token.
pub open spec fn is_numchar(b: u8) -> bool {
    is_digit(b) || b == MINUS || b == PLUS || b == DOT || b == LOWER_E || b == UPPER_E
}

pub fn is_numchar_byte(b: u8) -> (r: bool)
    ensures
        r == is_numchar(b),
{
    is_digit_byte(b) || b == MINUS || b == PLUS || b == DOT || b == LOWER_E || b == UPPER_E
}

/// The first position at or after `i` holding a byte outside the number
/// token alphabet.
pub open spec fn numchars_end(s: Seq<u8>, i: int) -> int
    recommends
        0 <= i <= s.len(),
    decreases s.len() - i when 0 <= i <= s.len()
{
    if i < s.len() && is_numchar(s[i]) {
        numchars_end(s, i + 1)
    } else {
        i
    }
}

pub proof fn lemma_numchars_end_bounds(s: Seq<u8>, i: int)
    requires
        0 <= i <= s.len(),
    ensures
        i <= numchars_end(s, i) <= s.len(),
        forall|k: int| i <= k < numchars_end(s, i) ==> is_numchar(s[k]),
        numchars_end(s, i) == s.len() || !is_numchar(s[numchars_end(s, i)]),
    decreases s.len() - i,
{
    if i < s.len() && is_numchar(s[i]) {
        lemma_numchars_end_bounds(s, i + 1);
    }
}

pub proof fn lemma_numchars_end_is(s: Seq<u8>, i: int, j: int)
    requires
        0 <= i <= j <= s.len(),
        forall|k: int| i <= k < j ==> is_numchar(s[k]),
        j == s.len() || !is_numchar(s[j]),
    ensures
        numchars_end(s, i) == j,
    decreases j - i,
{
    if i < j {
        lemma_numchars_end_is(s, i + 1, j);
    }
}

/// A number literal kept as verbatim token text: non-empty, starts with a
/// digit or a minus sign, and uses only the number token alphabet.
pub open spec fn is_numlit(s: Seq<u8>) -> bool {
    s.len() > 0 && (is_digit(s[0]) || s[0] == MINUS)
        && forall|k: int| 0 <= k < s.len() ==> is_numchar(s[k])
}

/// Takes the maximal run of number token bytes at position `i`, provided it
/// is non-empty and starts like a number.
pub open spec fn sp_parse_numlit(s: Seq<u8>, i: int) -> Option<(Seq<u8>, int)>
    recommends
        0 <= i <= s.len(),
{
    let j = numchars_end(s, i);
    if j > i && (is_digit(s[i]) || s[i] == MINUS) {
        Some((s.subrange(i, j), j))
    } else {
        None
    }
}

/// Parses a number literal at position `i` of `s`, mirroring
/// [`sp_parse_numlit`].
pub fn parse_numlit(s: &Vec<u8>, i: usize) -> (r: Option<(Vec<u8>, usize)>)
    requires
        i <= s@.len(),
    ensures
        match r {
            Some((t, j)) => sp_parse_numlit(s@, i as int) == Some((t@, j as int))
                && i < j <= s@.len() && is_numlit(t@),
            None => sp_parse_numlit(s@, i as int) is None,
        },
{
    proof {
        lemma_numchars_end_bounds(s@, i as int);
    }
    let ghost end = numchars_end(s@, i as int);
    let mut j: usize = i;
    let mut out: Vec<u8> = Vec::new();
    while j < s.len() && is_numchar_byte(s[j])
        invariant
            i <= j <= s@.len(),
            j <= end <= s@.len(),
            end == numchars_end(s@, i as int),
            forall|k: int| i <= k < j ==> is_numchar(s@[k]),
            forall|k: int| j <= k < end ==> is_numchar(s@[k]),
            end == s@.len() || !is_numchar(s@[end]),
            out@ == s@.subrange(i as int, j as int),
        decreases s@.len() - j,
    {
        proof {
            if j as int == end {
                assert(is_numchar(s@[end]));
                assert(false);
            }
        }
        out.push(s[j]);
        j = j + 1;
        proof {
            assert(out@ =~= s@.subrange(i as int, j as int));
        }
    }
    proof {
        lemma_numchars_end_is(s@, i as int, j as int);
    }
    if j == i {
        return None;
    }
    let b0 = s[i];
    if is_digit_byte(b0) || b0 == MINUS {
        proof {
            assert(out@[0] == s@[i as int]);
        }
        Some((out, j))
    } else {
        None
    }
}

/// A fixed key segment followed by a string value: the unescaped content and
/// the position just past the closing quote.
pub open spec fn sp_text_field(s: Seq<u8>, i: int, key: Seq<u8>) -> Option<(Seq<u8>, int)> {
    match sp_expect(s, i, key) {
        Some(j) => sp_parse_text(s, j),
        None => None,
    }
}

/// A fixed key segment followed by a number literal.
pub open spec fn sp_num_field(s: Seq<u8>, i: int, key: Seq<u8>) -> Option<(Seq<u8>, int)> {
    match sp_expect(s, i, key) {
        Some(j) => sp_parse_numlit(s, j),
        None => None,
    }
}

/// A fixed key segment followed by a decimal unsigned integer.
pub open spec fn sp_u64_field(s: Seq<u8>, i: int, key: Seq<u8>) -> Option<(u64, int)> {
    match sp_expect(s, i, key) {
        Some(j) => crate::numbers::sp_parse_u64(s, j),
        None => None,
    }
}

/// Parses a key segment and its string value, mirroring [`sp_text_field`].
pub fn text_field(s: &Vec<u8>, i: usize, key: &str) -> (r: Option<(Vec<u8>, usize)>)
    requires
        key.is_ascii(),
        i <= s@.len(),
    ensures
        match r {
            Some((t, j)) => sp_text_field(s@, i as int, bytes_of(key@)) == Some((t@, j as int))
                && i < j <= s@.len() && text_wf(t@),
            None => sp_text_field(s@, i as int, bytes_of(key@)) is None,
        },
{
    match expect_lit(s, i, key) {
        Some(j) => match parse_text(s, j) {
            Some((t, j2)) => Some((t, j2)),
            None => None,
        },
        None => None,
    }
}

/// Parses a key segment and its number literal, mirroring [`sp_num_field`].
pub fn num_field(s: &Vec<u8>, i: usize, key: &str) -> (r: Option<(Vec<u8>, usize)>)
    requires
        key.is_ascii(),
        i <= s@.len(),
    ensures
        match r {
            Some((t, j)) => sp_num_field(s@, i as int, bytes_of(key@)) == Some((t@, j as int))
                && i < j <= s@.len() && is_numlit(t@),
            None => sp_num_field(s@, i as int, bytes_of(key@)) is None,
        },
{
    match expect_lit(s, i, key) {
        Some(j) => match parse_numlit(s, j) {
            Some((t, j2)) => Some((t, j2)),
            None => None,
        },
        None => None,
    }
}

/// Parses a key segment and its decimal integer, mirroring [`sp_u64_field`].
pub fn u64_field(s: &Vec<u8>, i: usize, key: &str) -> (r: Option<(u64, usize)>)
    requires
        key.is_ascii(),
        i <= s@.len(),
    ensures
        match r {
            Some((v, j)) => sp_u64_field(s@, i as int, bytes_of(key@)) == Some((v, j as int))
                && i < j <= s@.len(),
            None => sp_u64_field(s@, i as int, bytes_of(key@)) is None,
        },
{
    match expect_lit(s, i, key) {
        Some(j) => match crate::numbers::parse_u64(s, j) {
            Some((v, j2)) => Some((v, j2)),
            None => None,
        },
        None => None,
    }
}

/// A key and an escaped, quoted string value embedded at position `i` parse
/// to exactly the content.
pub proof fn lemma_text_field_at(s: Seq<u8>, i: int, key: Seq<u8>, c: Seq<u8>)
    requires
        text_wf(c),
        0 <= i,
        i + key.len() + esc(c).len() + 1 <= s.len(),
        s.subrange(i, i + key.len() as int) == key,
        s.subrange(i + key.len(), i + key.len() + esc(c).len() as int) == esc(c),
        s[i + key.len() + esc(c).len()] == QUOTE,
    ensures
        sp_text_field(s, i, key) == Some((c, i + key.len() + esc(c).len() + 1)),
{
    lemma_expect_at(s, i, key);
    lemma_parse_text_of_esc(s, i + key.len() as int, c);
}

/// A key and a number literal embedded at position `i`, followed by a byte
/// outside the number alphabet, parse to exactly the literal.
pub proof fn lemma_num_field_at(s: Seq<u8>, i: int, key: Seq<u8>, c: Seq<u8>)
    requires
        is_numlit(c),
        0 <= i,
        i + key.len() + c.len() <= s.len(),
        s.subrange(i, i + key.len() as int) == key,
        s.subrange(i + key.len(), i + key.len() + c.len() as int) == c,
        i + key.len() + c.len() == s.len() || !is_numchar(s[i + key.len() + c.len()]),
    ensures
        sp_num_field(s, i, key) == Some((c, i + key.len() + c.len())),
{
    lemma_expect_at(s, i, key);
    lemma_parse_numlit_embed(s, i + key.len() as int, c);
}

/// A key and a decimal rendering embedded at position `i`, followed by a
/// non-digit, parse to exactly the rendered number.
pub proof fn lemma_u64_field_at(s: Seq<u8>, i: int, key: Seq<u8>, n: u64)
    requires
        0 <= i,
        i + key.len() + crate::numbers::u64_dec(n as nat).len() <= s.len(),
        s.subrange(i, i + key.len() as int) == key,
        s.subrange(
            i + key.len(),
            i + key.len() + crate::numbers::u64_dec(n as nat).len() as int,
        ) == crate::numbers::u64_dec(n as nat),
        i + key.len() + crate::numbers::u64_dec(n as nat).len() == s.len()
            || !is_digit(s[i + key.len() + crate::numbers::u64_dec(n as nat).len()]),
    ensures
        sp_u64_field(s, i, key) == Some((
            n,
            i + key.len() + crate::numbers::u64_dec(n as nat).len(),
        )),
{
    lemma_expect_at(s, i, key);
    crate::numbers::lemma_parse_u64_of_dec(s, i + key.len() as int, n);
}

/// The value view of an optional byte-vector field.
pub open spec fn view_opt_bytes(o: Option<Vec<u8>>) -> Option<Seq<u8>> {
    match o {
        Some(v) => Some(v@),
        None => None,
    }
}

/// The encoding of an optional string value: `null` when absent, a quoted,
/// escaped string when present.
pub open spec fn sp_enc_opt_text(o: Option<Seq<u8>>) -> Seq<u8> {
    match o {
        None => bytes_of("null"@),
        Some(c) => seq![QUOTE] + esc(c) + seq![QUOTE],
    }
}

/// The encoding of an optional number value: `null` when absent, the
/// verbatim token when present.
pub open spec fn sp_enc_opt_numlit(o: Option<Seq<u8>>) -> Seq<u8> {
    match o {
        None => bytes_of("null"@),
        Some(c) => c,
    }
}

/// The encoding of an optional unsigned integer: `null` when absent, the
/// decimal rendering when present.
pub open spec fn sp_enc_opt_u64(o: Option<u64>) -> Seq<u8> {
    match o {
        None => bytes_of("null"@),
        Some(n) => crate::numbers::u64_dec(n as nat),
    }
}

/// Parses an optional string value: `null` yields an absent field, a quote
/// begins a string.
pub open spec fn sp_opt_text(s: Seq<u8>, i: int) -> Option<(Option<Seq<u8>>, int)> {
    match sp_expect(s, i, bytes_of("null"@)) {
        Some(j) => Some((None, j)),
        None => match sp_expect_byte(s, i, QUOTE) {
            Some(j) => match sp_parse_text(s, j) {
                Some((c, j2)) => Some((Some(c), j2)),
                None => None,
            },
            None => None,
        },
    }
}

/// Parses an optional number token.
pub open spec fn sp_opt_numlit(s: Seq<u8>, i: int) -> Option<(Option<Seq<u8>>, int)> {
    match sp_expect(s, i, bytes_of("null"@)) {
        Some(j) => Some((None, j)),
        None => match sp_parse_numlit(s, i) {
            Some((c, j)) => Some((Some(c), j)),
            None => None,
        },
    }
}

/// Parses an optional decimal unsigned integer.
pub open spec fn sp_opt_u64(s: Seq<u8>, i: int) -> Option<(Option<u64>, int)> {
    match sp_expect(s, i, bytes_of("null"@)) {
        Some(j) => Some((None, j)),
        None => match crate::numbers::sp_parse_u64(s, i) {
            Some((n, j)) => Some((Some(n), j)),
            None => None,
        },
    }
}

/// Appends the encoding of an optional string value to `out`.
pub fn push_opt_text(out: &mut Vec<u8>, o: &Option<Vec<u8>>)
    ensures
        final(out)@ == old(out)@ + sp_enc_opt_text(view_opt_bytes(*o)),
{
    proof {
        reveal_strlit("null");
    }
    match o {
        None => {
            crate::text::push_str_bytes(out, "null");
        },
        Some(c) => {
            out.push(QUOTE);
            push_escaped(out, c);
            out.push(QUOTE);
            proof {
                assert(out@ =~= old(out)@ + sp_enc_opt_text(view_opt_bytes(Some(*c))));
            }
        },
    }
}

/// Appends the encoding of an optional number token to `out`.
pub fn push_opt_numlit(out: &mut Vec<u8>, o: &Option<Vec<u8>>)
    ensures
        final(out)@ == old(out)@ + sp_enc_opt_numlit(view_opt_bytes(*o)),
{
    proof {
        reveal_strlit("null");
    }
    match o {
        None => {
            crate::text::push_str_bytes(out, "null");
        },
        Some(c) => {
            let mut v = c.clone();
            out.append(&mut v);
        },
    }
}

/// Appends the encoding of an optional unsigned integer to `out`.
pub fn push_opt_u64(out: &mut Vec<u8>, o: &Option<u64>)
    ensures
        final(out)@ == old(out)@ + sp_enc_opt_u64(*o),
{
    proof {
        reveal_strlit("null");
    }
    match o {
        None => {
            crate::text::push_str_bytes(out, "null");
        },
        Some(n) => {
            crate::numbers::push_u64_dec(out, *n);
        },
    }
}

/// Parses an optional string value, mirroring [`sp_opt_text`].
pub fn opt_text(s: &Vec<u8>, i: usize) -> (r: Option<(Option<Vec<u8>>, usize)>)
    requires
        i <= s@.len(),
    ensures
        match r {
            Some((o, j)) => sp_opt_text(s@, i as int) == Some((view_opt_bytes(o), j as int))
                && i < j <= s@.len() && (o matches Some(c) ==> text_wf(c@)),
            None => sp_opt_text(s@, i as int) is None,
        },
{
    proof {
        reveal_strlit("null");
    }
    match expect_lit(s, i, "null") {
        Some(j) => Some((None, j)),
        None => match expect_byte(s, i, QUOTE) {
            Some(j) => match parse_text(s, j) {
                Some((c, j2)) => Some((Some(c), j2)),
                None => None,
            },
            None => None,
        },
    }
}

/// Parses an optional number token, mirroring [`sp_opt_numlit`].
pub fn opt_numlit(s: &Vec<u8>, i: usize) -> (r: Option<(Option<Vec<u8>>, usize)>)
    requires
        i <= s@.len(),
    ensures
        match r {
            Some((o, j)) => sp_opt_numlit(s@, i as int) == Some((view_opt_bytes(o), j as int))
                && i < j <= s@.len() && (o matches Some(c) ==> is_numlit(c@)),
            None => sp_opt_numlit(s@, i as int) is None,
        },
{
    proof {
        reveal_strlit("null");
    }
    match expect_lit(s, i, "null") {
        Some(j) => Some((None, j)),
        None => match parse_numlit(s, i) {
            Some((c, j)) => Some((Some(c), j)),
            None => None,
        },
    }
}

/// Parses an optional decimal unsigned integer, mirroring [`sp_opt_u64`].
pub fn opt_u64(s: &Vec<u8>, i: usize) -> (r: Option<(Option<u64>, usize)>)
    requires
        i <= s@.len(),
    ensures
        match r {
            Some((o, j)) => sp_opt_u64(s@, i as int) == Some((o, j as int)) && i < j <= s@.len(),
            None => sp_opt_u64(s@, i as int) is None,
        },
{
    proof {
        reveal_strlit("null");
    }
    match expect_lit(s, i, "null") {
        Some(j) => Some((None, j)),
        None => match crate::numbers::parse_u64(s, i) {
            Some((n, j)) => Some((Some(n), j)),
            None => None,
        },
    }
}

/// The literal that announces a member: its bare key when no member has
/// been read yet, a comma and the key afterwards.
pub open spec fn member_lit(first: bool, bare: Seq<u8>, sep: Seq<u8>) -> Seq<u8> {
    if first {
        bare
    } else {
        sep
    }
}

/// Matches the announcement of a member at position `i`: `None` means the
/// member is absent and nothing is consumed.
pub open spec fn sp_member_key(s: Seq<u8>, i: int, first: bool, bare: Seq<u8>, sep: Seq<u8>)
    -> Option<int> {
    sp_expect(s, i, member_lit(first, bare, sep))
}

/// An object member holding an optional string: absent members and `null`
/// both decode as the absent field. The returned flag says whether the
/// object is still waiting for its first member.
#[verifier::opaque]
pub open spec fn sp_member_text(s: Seq<u8>, i: int, first: bool, bare: Seq<u8>, sep: Seq<u8>)
    -> Option<(Option<Seq<u8>>, int, bool)> {
    match sp_member_key(s, i, first, bare, sep) {
        None => Some((None, i, first)),
        Some(j) => match sp_opt_text(s, j) {
            Some((o, j2)) => Some((o, j2, false)),
            None => None,
        },
    }
}

/// An object member holding an optional number token.
#[verifier::opaque]
pub open spec fn sp_member_numlit(s: Seq<u8>, i: int, first: bool, bare: Seq<u8>, sep: Seq<u8>)
    -> Option<(Option<Seq<u8>>, int, bool)> {
    match sp_member_key(s, i, first, bare, sep) {
        None => Some((None, i, first)),
        Some(j) => match sp_opt_numlit(s, j) {
            Some((o, j2)) => Some((o, j2, false)),
            None => None,
        },
    }
}

/// An object member holding an optional decimal unsigned integer.
#[verifier::opaque]
pub open spec fn sp_member_u64(s: Seq<u8>, i: int, first: bool, bare: Seq<u8>, sep: Seq<u8>)
    -> Option<(Option<u64>, int, bool)> {
    match sp_member_key(s, i, first, bare, sep) {
        None => Some((None, i, first)),
        Some(j) => match sp_opt_u64(s, j) {
            Some((o, j2)) => Some((o, j2, false)),
            None => None,
        },
    }
}

/// Parses an optional string member, mirroring [`sp_member_text`].
pub fn member_text(s: &Vec<u8>, i: usize, first: bool, bare: &str, sep: &str) -> (r: Option<(
    Option<Vec<u8>>,
    usize,
    bool,
)>)
    requires
        bare.is_ascii(),
        sep.is_ascii(),
        i <= s@.len(),
    ensures
        match r {
            Some((o, j, f)) => sp_member_text(s@, i as int, first, bytes_of(bare@),
                bytes_of(sep@)) == Some((view_opt_bytes(o), j as int, f))
                && i <= j <= s@.len() && (o matches Some(c) ==> text_wf(c@)),
            None => sp_member_text(s@, i as int, first, bytes_of(bare@), bytes_of(sep@))
                is None,
        },
{
    proof {
        reveal(sp_member_text);
    }
    let key_res = if first {
        expect_lit(s, i, bare)
    } else {
        expect_lit(s, i, sep)
    };
    match key_res {
        None => Some((None, i, first)),
        Some(j) => match opt_text(s, j) {
            Some((o, j2)) => Some((o, j2, false)),
            None => None,
        },
    }
}

/// Parses an optional number-token member, mirroring [`sp_member_numlit`].
pub fn member_numlit(s: &Vec<u8>, i: usize, first: bool, bare: &str, sep: &str) -> (r: Option<(
    Option<Vec<u8>>,
    usize,
    bool,
)>)
    requires
        bare.is_ascii(),
        sep.is_ascii(),
        i <= s@.len(),
    ensures
        match r {
            Some((o, j, f)) => sp_member_numlit(s@, i as int, first, bytes_of(bare@),
                bytes_of(sep@)) == Some((view_opt_bytes(o), j as int, f))
                && i <= j <= s@.len() && (o matches Some(c) ==> is_numlit(c@)),
            None => sp_member_numlit(s@, i as int, first, bytes_of(bare@), bytes_of(sep@))
                is None,
        },
{
    proof {
        reveal(sp_member_numlit);
    }
    let key_res = if first {
        expect_lit(s, i, bare)
    } else {
        expect_lit(s, i, sep)
    };
    match key_res {
        None => Some((None, i, first)),
        Some(j) => match opt_numlit(s, j) {
            Some((o, j2)) => Some((o, j2, false)),
            None => None,
        },
    }
}

/// Parses an optional decimal-integer member, mirroring [`sp_member_u64`].
pub fn member_u64(s: &Vec<u8>, i: usize, first: bool, bare: &str, sep: &str) -> (r: Option<(
    Option<u64>,
    usize,
    bool,
)>)
    requires
        bare.is_ascii(),
        sep.is_ascii(),
        i <= s@.len(),
    ensures
        match r {
            Some((o, j, f)) => sp_member_u64(s@, i as int, first, bytes_of(bare@),
                bytes_of(sep@)) == Some((o, j as int, f)) && i <= j <= s@.len(),
            None => sp_member_u64(s@, i as int, first, bytes_of(bare@), bytes_of(sep@))
                is None,
        },
{
    proof {
        reveal(sp_member_u64);
    }
    let key_res = if first {
        expect_lit(s, i, bare)
    } else {
        expect_lit(s, i, sep)
    };
    match key_res {
        None => Some((None, i, first)),
        Some(j) => match opt_u64(s, j) {
            Some((o, j2)) => Some((o, j2, false)),
            None => None,
        },
    }
}

/// A member whose announcement and optional string value are embedded at
/// position `i` parses as present.
pub proof fn lemma_member_text_at(
    s: Seq<u8>,
    i: int,
    first: bool,
    bare: Seq<u8>,
    sep: Seq<u8>,
    o: Option<Seq<u8>>,
)
    requires
        o matches Some(c) ==> text_wf(c),
        0 <= i,
        i + member_lit(first, bare, sep).len() + sp_enc_opt_text(o).len() <= s.len(),
        s.subrange(i, i + member_lit(first, bare, sep).len() as int)
            == member_lit(first, bare, sep),
        s.subrange(
            i + member_lit(first, bare, sep).len(),
            i + member_lit(first, bare, sep).len() + sp_enc_opt_text(o).len() as int,
        ) == sp_enc_opt_text(o),
    ensures
        sp_member_text(s, i, first, bare, sep) == Some((
            o,
            i + member_lit(first, bare, sep).len() + sp_enc_opt_text(o).len(),
            false,
        )),
{
    reveal(sp_member_text);
    lemma_expect_at(s, i, member_lit(first, bare, sep));
    lemma_opt_text_at(s, i + member_lit(first, bare, sep).len() as int, o);
}

/// A member whose announcement and optional number token are embedded at
/// position `i` parses as present.
pub proof fn lemma_member_numlit_at(
    s: Seq<u8>,
    i: int,
    first: bool,
    bare: Seq<u8>,
    sep: Seq<u8>,
    o: Option<Seq<u8>>,
)
    requires
        o matches Some(c) ==> is_numlit(c),
        0 <= i,
        i + member_lit(first, bare, sep).len() + sp_enc_opt_numlit(o).len() <= s.len(),
        s.subrange(i, i + member_lit(first, bare, sep).len() as int)
            == member_lit(first, bare, sep),
        s.subrange(
            i + member_lit(first, bare, sep).len(),
            i + member_lit(first, bare, sep).len() + sp_enc_opt_numlit(o).len() as int,
        ) == sp_enc_opt_numlit(o),
        (o is Some) ==> (i + member_lit(first, bare, sep).len() + sp_enc_opt_numlit(o).len()
            == s.len() || !is_numchar(
            s[i + member_lit(first, bare, sep).len() + sp_enc_opt_numlit(o).len()],
        )),
    ensures
        sp_member_numlit(s, i, first, bare, sep) == Some((
            o,
            i + member_lit(first, bare, sep).len() + sp_enc_opt_numlit(o).len(),
            false,
        )),
{
    reveal(sp_member_numlit);
    lemma_expect_at(s, i, member_lit(first, bare, sep));
    lemma_opt_numlit_at(s, i + member_lit(first, bare, sep).len() as int, o);
}

/// A member whose announcement and optional decimal rendering are embedded
/// at position `i` parses as present.
pub proof fn lemma_member_u64_at(
    s: Seq<u8>,
    i: int,
    first: bool,
    bare: Seq<u8>,
    sep: Seq<u8>,
    o: Option<u64>,
)
    requires
        0 <= i,
        i + member_lit(first, bare, sep).len() + sp_enc_opt_u64(o).len() <= s.len(),
        s.subrange(i, i + member_lit(first, bare, sep).len() as int)
            == member_lit(first, bare, sep),
        s.subrange(
            i + member_lit(first, bare, sep).len(),
            i + member_lit(first, bare, sep).len() + sp_enc_opt_u64(o).len() as int,
        ) == sp_enc_opt_u64(o),
        (o is Some) ==> (i + member_lit(first, bare, sep).len() + sp_enc_opt_u64(o).len()
            == s.len() || !is_digit(
            s[i + member_lit(first, bare, sep).len() + sp_enc_opt_u64(o).len()],
        )),
    ensures
        sp_member_u64(s, i, first, bare, sep) == Some((
            o,
            i + member_lit(first, bare, sep).len() + sp_enc_opt_u64(o).len(),
            false,
        )),
{
    reveal(sp_member_u64);
    lemma_expect_at(s, i, member_lit(first, bare, sep));
    lemma_opt_u64_at(s, i + member_lit(first, bare, sep).len() as int, o);
}

/// A slice of an embedded segment is the matching slice of the segment.
pub proof fn lemma_subrange_slice(s: Seq<u8>, i: int, e: Seq<u8>, a: int, b: int)
    requires
        0 <= i,
        i + e.len() <= s.len(),
        s.subrange(i, i + e.len() as int) == e,
        0 <= a <= b <= e.len(),
    ensures
        s.subrange(i + a, i + b) =~= e.subrange(a, b),
{
    assert forall|m: int|
        0 <= m < b - a implies s.subrange(i + a, i + b)[m] == e.subrange(a, b)[m] by {
        assert(s.subrange(i + a, i + b)[m] == s[i + a + m]);
        assert(s.subrange(i, i + e.len() as int)[a + m] == s[i + (a + m)]);
        assert(e.subrange(a, b)[m] == e[a + m]);
    };
}

/// A byte of an embedded segment is the matching byte of the segment.
pub proof fn lemma_byte_at(s: Seq<u8>, i: int, e: Seq<u8>, a: int)
    requires
        0 <= i,
        i + e.len() <= s.len(),
        s.subrange(i, i + e.len() as int) == e,
        0 <= a < e.len(),
    ensures
        s[i + a] == e[a],
{
    assert(s.subrange(i, i + e.len() as int)[a] == s[i + a]);
}

/// An embedded `null` or quoted string parses back to the same optional
/// value.
pub proof fn lemma_opt_text_at(s: Seq<u8>, i: int, o: Option<Seq<u8>>)
    requires
        o matches Some(c) ==> text_wf(c),
        0 <= i,
        i + sp_enc_opt_text(o).len() <= s.len(),
        s.subrange(i, i + sp_enc_opt_text(o).len() as int) == sp_enc_opt_text(o),
    ensures
        sp_opt_text(s, i) == Some((o, i + sp_enc_opt_text(o).len())),
{
    reveal_strlit("null");
    let e = sp_enc_opt_text(o);
    match o {
        None => {
            lemma_expect_at(s, i, bytes_of("null"@));
        },
        Some(c) => {
            assert(s[i + 0] == e[0]);
            assert(s[i] == QUOTE);
            assert(bytes_of("null"@)[0] == 110);
            if i + 4 <= s.len() {
                assert(s.subrange(i, i + 4 as int)[0] == s[i]);
                assert(s.subrange(i, i + 4 as int) != bytes_of("null"@));
            }
            assert(sp_expect(s, i, bytes_of("null"@)) is None);
            assert(s.subrange(i + 1, i + 1 + esc(c).len() as int) =~= esc(c)) by {
                assert forall|m: int|
                    0 <= m < esc(c).len() implies s.subrange(
                    i + 1,
                    i + 1 + esc(c).len() as int,
                )[m] == esc(c)[m] by {
                    assert(s.subrange(i, i + e.len() as int)[1 + m] == s[i + (1 + m)]);
                    assert(s.subrange(i + 1, i + 1 + esc(c).len() as int)[m] == s[i + 1 + m]);
                    assert(e[1 + m] == esc(c)[m]);
                };
            }
            assert(s[i + 1 + esc(c).len()] == e[1 + esc(c).len() as int]);
            assert(s[i + 1 + esc(c).len()] == QUOTE);
            lemma_parse_text_of_esc(s, i + 1, c);
        },
    }
}

/// An embedded `null` or number token, followed by a byte outside the
/// number alphabet, parses back to the same optional value.
pub proof fn lemma_opt_numlit_at(s: Seq<u8>, i: int, o: Option<Seq<u8>>)
    requires
        o matches Some(c) ==> is_numlit(c),
        0 <= i,
        i + sp_enc_opt_numlit(o).len() <= s.len(),
        s.subrange(i, i + sp_enc_opt_numlit(o).len() as int) == sp_enc_opt_numlit(o),
        (o is Some) ==> (i + sp_enc_opt_numlit(o).len() == s.len() || !is_numchar(
            s[i + sp_enc_opt_numlit(o).len()],
        )),
    ensures
        sp_opt_numlit(s, i) == Some((o, i + sp_enc_opt_numlit(o).len())),
{
    reveal_strlit("null");
    let e = sp_enc_opt_numlit(o);
    match o {
        None => {
            lemma_expect_at(s, i, bytes_of("null"@));
        },
        Some(c) => {
            assert(s[i + 0] == e[0]);
            assert(bytes_of("null"@)[0] == 110);
            assert(is_digit(c[0]) || c[0] == MINUS);
            assert(s[i] != 110);
            if i + 4 <= s.len() {
                assert(s.subrange(i, i + 4 as int)[0] == s[i]);
                assert(s.subrange(i, i + 4 as int) != bytes_of("null"@));
            }
            assert(sp_expect(s, i, bytes_of("null"@)) is None);
            lemma_parse_numlit_embed(s, i, c);
        },
    }
}

/// An embedded `null` or decimal rendering, followed by a non-digit, parses
/// back to the same optional value.
pub proof fn lemma_opt_u64_at(s: Seq<u8>, i: int, o: Option<u64>)
    requires
        0 <= i,
        i + sp_enc_opt_u64(o).len() <= s.len(),
        s.subrange(i, i + sp_enc_opt_u64(o).len() as int) == sp_enc_opt_u64(o),
        (o is Some) ==> (i + sp_enc_opt_u64(o).len() == s.len() || !is_digit(
            s[i + sp_enc_opt_u64(o).len()],
        )),
    ensures
        sp_opt_u64(s, i) == Some((o, i + sp_enc_opt_u64(o).len())),
{
    reveal_strlit("null");
    let e = sp_enc_opt_u64(o);
    match o {
        None => {
            lemma_expect_at(s, i, bytes_of("null"@));
        },
        Some(n) => {
            crate::numbers::lemma_u64_dec_shape(n as nat);
            assert(s[i + 0] == e[0]);
            assert(bytes_of("null"@)[0] == 110);
            assert(is_digit(e[0]));
            assert(s[i] != 110);
            if i + 4 <= s.len() {
                assert(s.subrange(i, i + 4 as int)[0] == s[i]);
                assert(s.subrange(i, i + 4 as int) != bytes_of("null"@));
            }
            assert(sp_expect(s, i, bytes_of("null"@)) is None);
            crate::numbers::lemma_parse_u64_of_dec(s, i, n);
        },
    }
}

/// Parsing at a position where a number literal is embedded, followed by the
/// end of the input or a byte outside the number alphabet, recovers exactly
/// the literal.
pub proof fn lemma_parse_numlit_embed(s: Seq<u8>, i: int, c: Seq<u8>)
    requires
        is_numlit(c),
        0 <= i,
        i + c.len() <= s.len(),
        s.subrange(i, i + c.len() as int) == c,
        i + c.len() == s.len() || !is_numchar(s[i + c.len()]),
    ensures
        sp_parse_numlit(s, i) == Some((c, i + c.len() as int)),
{
    assert(forall|k: int| i <= k < i + c.len() ==> s[k] == c[k - i]);
    lemma_numchars_end_is(s, i, i + c.len() as int);
    assert(s[i] == c[0]);
}

} // verus!
