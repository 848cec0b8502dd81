//! Decimal rendering and parsing of unsigned integers, with the proof that
//! the two are inverse to each other.

use vstd::prelude::*;
use crate::text::DIGIT_ZERO;
use crate::text::DIGIT_NINE;

verus! {

pub open spec fn is_digit(b: u8) -> bool {
    DIGIT_ZERO <= b <= DIGIT_NINE
}

/// The decimal rendering of `n`: most significant digit first, no sign,
/// no leading zero (`0` itself renders as the single digit `0`).
pub open spec fn u64_dec(n: nat) -> Seq<u8>
    decreases n,
{
    if n < 10 {
        seq![(DIGIT_ZERO + n) as u8]
    } else {
        u64_dec(n / 10).push((DIGIT_ZERO + n % 10) as u8)
    }
}

/// The first position at or after `i` holding a byte that is not a digit.
pub open spec fn digits_end(s: Seq<u8>, i: int) -> int
    recommends
        0 <= i <= s.len(),
    decreases s.len() - i when 0 <= i <= s.len()
{
    if i < s.len() && is_digit(s[i]) {
        digits_end(s, i + 1)
    } else {
        i
    }
}

/// The value of the digit run `s[i..j)`.
pub open spec fn dec_val(s: Seq<u8>, i: int, j: int) -> nat
    decreases j - i when i <= j
{
    if j <= i {
        0
    } else {
        dec_val(s, i, j - 1) * 10 + (s[j - 1] - DIGIT_ZERO) as nat
    }
}

/// Parses a decimal `u64` at position `i`: one or more digits, no leading
/// zero, value at most `u64::MAX`. Returns the value and the position just
/// past the digits.
pub open spec fn sp_parse_u64(s: Seq<u8>, i: int) -> Option<(u64, int)>
    recommends
        0 <= i <= s.len(),
{
    let j = digits_end(s, i);
    if j == i {
        None
    } else if s[i] == DIGIT_ZERO && j > i + 1 {
        None
    } else if dec_val(s, i, j) > u64::MAX {
        None
    } else {
        Some((dec_val(s, i, j) as u64, j))
    }
}

pub proof fn lemma_digits_end_bounds(s: Seq<u8>, i: int)
    requires
        0 <= i <= s.len(),
    ensures
        i <= digits_end(s, i) <= s.len(),
        forall|k: int| i <= k < digits_end(s, i) ==> is_digit(s[k]),
        digits_end(s, i) == s.len() || !is_digit(s[digits_end(s, i)]),
    decreases s.len() - i,
{
    if i < s.len() && is_digit(s[i]) {
        lemma_digits_end_bounds(s, i + 1);
    }
}

/// `digits_end` is exactly `j` when `s[i..j)` are digits and `j` sits at the
/// end of the input or on a non-digit.
pub proof fn lemma_digits_end_is(s: Seq<u8>, i: int, j: int)
    requires
        0 <= i <= j <= s.len(),
        forall|k: int| i <= k < j ==> is_digit(s[k]),
        j == s.len() || !is_digit(s[j]),
    ensures
        digits_end(s, i) == j,
    decreases j - i,
{
    if i < j {
        lemma_digits_end_is(s, i + 1, j);
    }
}

/// Appending one more digit can only increase the value of the run.
pub proof fn lemma_dec_val_monotone(s: Seq<u8>, i: int, j: int, k: int)
    requires
        i <= j <= k,
    ensures
        dec_val(s, i, j) <= dec_val(s, i, k),
    decreases k - j,
{
    if j < k {
        lemma_dec_val_monotone(s, i, j, k - 1);
        assert(dec_val(s, i, k - 1) * 10 >= dec_val(s, i, k - 1)) by (nonlinear_arith);
    }
}

/// Every byte of a decimal rendering is a digit, and a rendering of more
/// than one digit never starts with zero.
pub proof fn lemma_u64_dec_shape(n: nat)
    ensures
        u64_dec(n).len() >= 1,
        forall|k: int| 0 <= k < u64_dec(n).len() ==> is_digit(u64_dec(n)[k]),
        u64_dec(n).len() > 1 ==> u64_dec(n)[0] != DIGIT_ZERO,
        n < 10 ==> u64_dec(n).len() == 1,
        n >= 10 ==> u64_dec(n)[0] == u64_dec(n / 10)[0],
    decreases n,
{
    if n >= 10 {
        lemma_u64_dec_shape(n / 10);
        assert(n / 10 >= 1);
    }
}

/// Reading the digit run of a decimal rendering back yields the number.
pub proof fn lemma_dec_val_of_u64_dec(s: Seq<u8>, i: int, n: nat)
    requires
        0 <= i,
        i + u64_dec(n).len() <= s.len(),
        s.subrange(i, i + u64_dec(n).len() as int) == u64_dec(n),
    ensures
        dec_val(s, i, i + u64_dec(n).len() as int) == n,
    decreases n,
{
    let d = u64_dec(n);
    if n < 10 {
        assert(s[i] == d[0]);
        assert(dec_val(s, i, i) == 0);
        assert(dec_val(s, i, i + 1) == (s[i] - DIGIT_ZERO) as nat);
    } else {
        let dp = u64_dec(n / 10);
        assert(d == dp.push((DIGIT_ZERO + n % 10) as u8));
        assert(s.subrange(i, i + dp.len() as int) =~= dp) by {
            assert(forall|k: int|
                0 <= k < dp.len() ==> s.subrange(i, i + d.len() as int)[k] == d[k]);
        }
        lemma_dec_val_of_u64_dec(s, i, n / 10);
        assert(s[i + d.len() - 1] == d[d.len() - 1]);
        assert(d[d.len() - 1] == (DIGIT_ZERO + n % 10) as u8);
        assert(dec_val(s, i, i + d.len() as int) == (n / 10) * 10 + n % 10);
        assert((n / 10) * 10 + n % 10 == n) by (nonlinear_arith);
    }
}

/// Parsing at a position where a decimal rendering is embedded, followed by
/// the end of the input or a non-digit byte, recovers exactly the number.
pub proof fn lemma_parse_u64_of_dec(s: Seq<u8>, i: int, n: u64)
    requires
        0 <= i,
        i + u64_dec(n as nat).len() <= s.len(),
        s.subrange(i, i + u64_dec(n as nat).len() as int) == u64_dec(n as nat),
        i + u64_dec(n as nat).len() == s.len()
            || !is_digit(s[i + u64_dec(n as nat).len()]),
    ensures
        sp_parse_u64(s, i) == Some((n, i + u64_dec(n as nat).len() as int)),
{
    let d = u64_dec(n as nat);
    let j = i + d.len() as int;
    lemma_u64_dec_shape(n as nat);
    assert(forall|k: int| i <= k < j ==> s[k] == d[k - i]);
    lemma_digits_end_is(s, i, j);
    lemma_dec_val_of_u64_dec(s, i, n as nat);
    assert(s[i] == d[0]);
}

/// Appends the decimal rendering of `n` to `out`.
pub fn push_u64_dec(out: &mut Vec<u8>, n: u64)
    ensures
        final(out)@ == old(out)@ + u64_dec(n as nat),
    decreases n,
{
    if n < 10 {
        out.push(DIGIT_ZERO + n as u8);
        assert(final(out)@ =~= old(out)@ + u64_dec(n as nat));
    } else {
        push_u64_dec(out, n / 10);
        out.push(DIGIT_ZERO + (n % 10) as u8);
        assert(final(out)@ =~= old(out)@ + u64_dec(n as nat));
    }
}

/// Parses a decimal `u64` at position `i` of `s`, mirroring [`sp_parse_u64`].
pub fn parse_u64(s: &Vec<u8>, i: usize) -> (r: Option<(u64, usize)>)
    requires
        i <= s@.len(),
    ensures
        match r {
            Some((v, j)) => sp_parse_u64(s@, i as int) == Some((v, j as int))
                && i < j <= s@.len(),
            None => sp_parse_u64(s@, i as int) is None,
        },
{
    proof {
        lemma_digits_end_bounds(s@, i as int);
    }
    let ghost end = digits_end(s@, i as int);
    let mut j: usize = i;
    let mut acc: u64 = 0;
    let mut overflow: bool = false;
    while j < s.len() && is_digit_byte(s[j])
        invariant
            i <= j <= s@.len(),
            j <= end <= s@.len(),
            forall|k: int| i <= k < j ==> is_digit(s@[k]),
            end == digits_end(s@, i as int),
            forall|k: int| j <= k < end ==> is_digit(s@[k]),
            end == s@.len() || !is_digit(s@[end]),
            !overflow ==> acc as nat == dec_val(s@, i as int, j as int),
            overflow ==> dec_val(s@, i as int, j as int) > u64::MAX,
        decreases s@.len() - j,
    {
        proof {
            if j as int == end {
                assert(is_digit(s@[end]));
                assert(false);
            }
        }
        let d = s[j] - DIGIT_ZERO;
        if overflow {
            proof {
                lemma_dec_val_monotone(s@, i as int, j as int, j as int + 1);
            }
        } else if acc > (u64::MAX - d as u64) / 10 {
            overflow = true;
            proof {
                assert(dec_val(s@, i as int, j as int + 1)
                    == acc as nat * 10 + d as nat);
                assert(acc as nat * 10 + d as nat > u64::MAX) by (nonlinear_arith)
                    requires
                        acc as nat > ((u64::MAX - d as u64) / 10) as nat,
                        d < 10,
                ;
            }
        } else {
            proof {
                assert(acc as nat * 10 + d as nat <= u64::MAX) by (nonlinear_arith)
                    requires
                        acc as nat <= ((u64::MAX - d as u64) / 10) as nat,
                        d < 10,
                ;
            }
            acc = acc * 10 + d as u64;
        }
        j = j + 1;
    }
    proof {
        lemma_digits_end_is(s@, i as int, j as int);
    }
    if j == i {
        None
    } else if s[i] == DIGIT_ZERO && j > i + 1 {
        None
    } else if overflow {
        None
    } else {
        Some((acc, j))
    }
}

/// Whether `b` is an ASCII decimal digit.
pub fn is_digit_byte(b: u8) -> (r: bool)
    ensures
        r == is_digit(b),
{
    DIGIT_ZERO <= b && b <= DIGIT_NINE
}

} // verus!
