//! A best-effort parser for the OBJ mesh format.
//!
//! The parser works line by line over the raw bytes of the input.  Vertex
//! lines contribute four Q16.16 coordinates each (a missing fourth becomes
//! one); face lines contribute up to three vertex numbers, kept exactly as
//! written, one-based.  Comment, group and unsupported lines, and values
//! that do not parse, are skipped: a malformed line never stops the parse.
//!
//! Numbers are plain decimals, an optional sign, digits, and an optional
//! fraction; of a fraction only the first nine digits weigh in.

use crate::fixed::{clip, Fx, ONE_B};
use vstd::string::StringSliceAdditionalSpecFns;
use vstd::prelude::*;

verus! {

/// Whether a byte is ASCII whitespace, as the tokenizer splits on it.
pub open spec fn is_ws(b: u8) -> bool {
    b == 32 || b == 9 || b == 10 || b == 11 || b == 12 || b == 13
}

/// Whether a byte is an ASCII digit.
pub open spec fn is_digit(b: u8) -> bool {
    48 <= b <= 57
}

/// The first index at or after `i` holding a non-whitespace byte, or the
/// length.
pub open spec fn skip_ws(s: Seq<u8>, i: int) -> int
    decreases s.len() - i when 0 <= i <= s.len()
{
    if i >= s.len() || !is_ws(s[i]) {
        i
    } else {
        skip_ws(s, i + 1)
    }
}

/// The first index at or after `i` holding whitespace, or the length: the
/// end of the token starting at `i`.
pub open spec fn tok_end(s: Seq<u8>, i: int) -> int
    decreases s.len() - i when 0 <= i <= s.len()
{
    if i >= s.len() || is_ws(s[i]) {
        i
    } else {
        tok_end(s, i + 1)
    }
}

/// Where whitespace skipping lands: within bounds, on a non-whitespace
/// byte or the end, with only whitespace before it.
pub proof fn lemma_skip_ws(s: Seq<u8>, i: int)
    requires
        0 <= i <= s.len(),
    ensures
        i <= skip_ws(s, i) <= s.len(),
        skip_ws(s, i) < s.len() ==> !is_ws(s[skip_ws(s, i)]),
        forall|j: int| i <= j < skip_ws(s, i) ==> is_ws(#[trigger] s[j]),
    decreases s.len() - i,
{
    if i < s.len() && is_ws(s[i]) {
        lemma_skip_ws(s, i + 1);
    }
}

/// Where a token ends: within bounds, on whitespace or the end, with no
/// whitespace inside the token.
pub proof fn lemma_tok_end(s: Seq<u8>, i: int)
    requires
        0 <= i <= s.len(),
    ensures
        i <= tok_end(s, i) <= s.len(),
        tok_end(s, i) < s.len() ==> is_ws(s[tok_end(s, i)]),
        forall|j: int| i <= j < tok_end(s, i) ==> !is_ws(#[trigger] s[j]),
    decreases s.len() - i,
{
    if i < s.len() && !is_ws(s[i]) {
        lemma_tok_end(s, i + 1);
    }
}

/// The whitespace-separated tokens of `s` from index `i` on.
pub open spec fn toks_from(s: Seq<u8>, i: int) -> Seq<Seq<u8>>
    decreases s.len() - i when 0 <= i <= s.len() via toks_from_dec
{
    let j = skip_ws(s, i);
    if j >= s.len() {
        Seq::empty()
    } else {
        seq![s.subrange(j, tok_end(s, j))] + toks_from(s, tok_end(s, j))
    }
}

#[via_fn]
proof fn toks_from_dec(s: Seq<u8>, i: int) {
    lemma_skip_ws(s, i);
    let j = skip_ws(s, i);
    if j < s.len() {
        lemma_tok_end(s, j);
        assert(tok_end(s, j) == tok_end(s, j + 1));
    }
}

/// The value of a digit string, most significant first.
pub open spec fn digits_val(s: Seq<u8>) -> int
    decreases s.len(),
{
    if s.len() == 0 {
        0
    } else {
        digits_val(s.drop_last()) * 10 + (s.last() - 48)
    }
}

/// Whether every byte of `s` is a digit.
pub open spec fn all_digits(s: Seq<u8>) -> bool {
    forall|k: int| 0 <= k < s.len() ==> is_digit(#[trigger] s[k])
}

/// Ten to the `n`.
pub open spec fn pow10(n: nat) -> int
    decreases n,
{
    if n == 0 {
        1
    } else {
        10 * pow10((n - 1) as nat)
    }
}

/// The parse of an unsigned decimal integer token, as face numbers are
/// written: an optional plus sign and digits.  Refused when empty, on any
/// other byte, or past the 32-bit range.
pub open spec fn parse_u32_s(t: Seq<u8>) -> Option<u32> {
    let d = if t.len() > 0 && t[0] == 43 {
        t.subrange(1, t.len() as int)
    } else {
        t
    };
    if d.len() == 0 || !all_digits(d) || digits_val(d) > u32::MAX {
        None
    } else {
        Some(digits_val(d) as u32)
    }
}

/// The first index at or after `i` holding a dot, or the length.
pub open spec fn dot_from(s: Seq<u8>, i: int) -> int
    decreases s.len() - i when 0 <= i <= s.len()
{
    if i >= s.len() || s[i] == 46 {
        i
    } else {
        dot_from(s, i + 1)
    }
}

/// Where the dot search lands: within bounds, on a dot or the end, with no
/// dot before it.
pub proof fn lemma_dot_from(s: Seq<u8>, i: int)
    requires
        0 <= i <= s.len(),
    ensures
        i <= dot_from(s, i) <= s.len(),
        dot_from(s, i) < s.len() ==> s[dot_from(s, i)] == 46,
        forall|j: int| i <= j < dot_from(s, i) ==> (#[trigger] s[j]) != 46,
    decreases s.len() - i,
{
    if i < s.len() && s[i] != 46 {
        lemma_dot_from(s, i + 1);
    }
}

/// The digits after the sign of a decimal token, and whether it is negated.
pub open spec fn strip_sign(t: Seq<u8>) -> (bool, Seq<u8>) {
    if t.len() > 0 && t[0] == 45 {
        (true, t.subrange(1, t.len() as int))
    } else if t.len() > 0 && t[0] == 43 {
        (false, t.subrange(1, t.len() as int))
    } else {
        (false, t)
    }
}

/// The magnitude, in Q16.16 bits, of an unsigned decimal: the integer part
/// scaled, plus the first nine fraction digits scaled and divided out.
pub open spec fn decimal_mag(d: Seq<u8>) -> int {
    let p = dot_from(d, 0);
    let ip = d.subrange(0, p);
    let fr_all = if p >= d.len() {
        Seq::<u8>::empty()
    } else {
        d.subrange(p + 1, d.len() as int)
    };
    let fr = if fr_all.len() > 9 {
        fr_all.subrange(0, 9)
    } else {
        fr_all
    };
    digits_val(ip) * 65536 + (digits_val(fr) * 65536) / pow10(fr.len())
}

/// Whether the digits of a decimal token are well formed: digits before
/// the dot (if any), digits after it, at least one digit in all.
pub open spec fn valid_decimal(d: Seq<u8>) -> bool {
    let p = dot_from(d, 0);
    let ip = d.subrange(0, p);
    let fr_all = if p >= d.len() {
        Seq::<u8>::empty()
    } else {
        d.subrange(p + 1, d.len() as int)
    };
    &&& all_digits(ip)
    &&& all_digits(fr_all)
    &&& ip.len() + fr_all.len() > 0
}

/// The parse of a signed decimal token into Q16.16 bits, saturating at the
/// representable range.
pub open spec fn parse_fx_s(t: Seq<u8>) -> Option<int> {
    let (neg, d) = strip_sign(t);
    if valid_decimal(d) {
        if neg {
            Some(clip(-decimal_mag(d)))
        } else {
            Some(clip(decimal_mag(d)))
        }
    } else {
        None
    }
}

/// A digit string's value is nonnegative.
proof fn lemma_digits_nonneg(s: Seq<u8>)
    requires
        all_digits(s),
    ensures
        digits_val(s) >= 0,
    decreases s.len(),
{
    if s.len() > 0 {
        assert(all_digits(s.drop_last()));
        lemma_digits_nonneg(s.drop_last());
    }
}

/// Extending a digit string by one digit multiplies its value by ten and
/// adds the digit.
proof fn lemma_digits_step(s: Seq<u8>, a: int, i: int)
    requires
        0 <= a <= i < s.len(),
    ensures
        digits_val(s.subrange(a, i + 1)) == digits_val(s.subrange(a, i)) * 10 + (s[i] - 48),
{
    assert(s.subrange(a, i + 1).drop_last() =~= s.subrange(a, i));
    assert(s.subrange(a, i + 1).last() == s[i]);
}

/// A digit string is worth at least any of its prefixes.
proof fn lemma_digits_prefix(s: Seq<u8>, k: int)
    requires
        0 <= k <= s.len(),
        all_digits(s),
    ensures
        digits_val(s.subrange(0, k)) <= digits_val(s),
    decreases s.len() - k,
{
    if k == s.len() {
        assert(s.subrange(0, k) =~= s);
    } else {
        assert(all_digits(s.subrange(0, k)));
        lemma_digits_nonneg(s.subrange(0, k));
        lemma_digits_step(s, 0, k);
        lemma_digits_prefix(s, k + 1);
    }
}

/// A scan that passed only non-dot bytes and stopped at a dot or the end
/// found exactly where the dot search lands.
proof fn lemma_dot_at(s: Seq<u8>, i: int, q: int)
    requires
        0 <= i <= q <= s.len(),
        forall|j: int| i <= j < q ==> (#[trigger] s[j]) != 46,
        q < s.len() ==> s[q] == 46,
    ensures
        dot_from(s, i) == q,
    decreases q - i,
{
    if i < q {
        lemma_dot_at(s, i + 1, q);
    }
}

/// The refusal cases of the integer-token parse, stated over the digits
/// after the sign.
proof fn lemma_u32_spec_none(t: Seq<u8>, d: Seq<u8>)
    requires
        d == (if t.len() > 0 && t[0] == 43 {
            t.subrange(1, t.len() as int)
        } else {
            t
        }),
        d.len() == 0 || !all_digits(d) || digits_val(d) > u32::MAX,
    ensures
        parse_u32_s(t) is None,
{
}

/// The success case of the integer-token parse.
proof fn lemma_u32_spec_some(t: Seq<u8>, d: Seq<u8>)
    requires
        d == (if t.len() > 0 && t[0] == 43 {
            t.subrange(1, t.len() as int)
        } else {
            t
        }),
        d.len() > 0,
        all_digits(d),
        digits_val(d) <= u32::MAX,
    ensures
        parse_u32_s(t) == Some(digits_val(d) as u32),
{
}

/// A digit string's value is below ten to its length.
proof fn lemma_digits_val_bound(s: Seq<u8>)
    requires
        all_digits(s),
    ensures
        0 <= digits_val(s) < pow10(s.len()),
    decreases s.len(),
{
    if s.len() > 0 {
        assert(all_digits(s.drop_last()));
        lemma_digits_val_bound(s.drop_last());
    }
}

/// Parses an unsigned decimal integer token.
#[verifier::loop_isolation(false)]
fn parse_u32_tok(t: &[u8]) -> (r: Option<u32>)
    ensures
        r == parse_u32_s(t@),
{
    let n = t.len();
    let start: usize = if n > 0 && t[0] == 43 {
        1
    } else {
        0
    };
    let ghost d = (if t@.len() > 0 && t@[0] == 43 {
        t@.subrange(1, t@.len() as int)
    } else {
        t@
    });
    proof {
        assert(d =~= t@.subrange(start as int, n as int));
    }
    if start >= n {
        proof {
            lemma_u32_spec_none(t@, d);
        }
        return None;
    }
    let mut acc: u64 = 0;
    let mut i: usize = start;
    while i < n
        invariant
            start <= i <= n,
            n == t@.len(),
            start <= 1,
            d == t@.subrange(start as int, n as int),
            acc == digits_val(t@.subrange(start as int, i as int)),
            acc <= u32::MAX,
            all_digits(t@.subrange(start as int, i as int)),
        decreases n - i,
    {
        let b = t[i];
        if b < 48 || b > 57 {
            proof {
                assert(0 <= i - start < d.len());
                assert(d[i - start] == t@[i as int]);
                assert(!is_digit(d[i - start]));
                assert(!all_digits(d));
                lemma_u32_spec_none(t@, d);
            }
            return None;
        }
        proof {
            lemma_digits_step(t@, start as int, i as int);
            assert(t@.subrange(start as int, i as int + 1).drop_last() =~= t@.subrange(
                start as int,
                i as int,
            ));
            assert(all_digits(t@.subrange(start as int, i as int + 1)));
        }
        acc = acc * 10 + ((b - 48) as u64);
        if acc > u32::MAX as u64 {
            proof {
                assert(t@.subrange(start as int, i as int + 1) =~= d.subrange(
                    0,
                    i + 1 - start as int,
                ));
                assert(forall|k: int| 0 <= k < d.len() ==> d[k] == #[trigger] t@[k + start]);
                if all_digits(d) {
                    lemma_digits_prefix(d, i + 1 - start as int);
                }
                lemma_u32_spec_none(t@, d);
            }
            return None;
        }
        i += 1;
    }
    proof {
        assert(t@.subrange(start as int, n as int) =~= d);
        lemma_u32_spec_some(t@, d);
    }
    Some(acc as u32)
}

/// Parses a signed decimal token into a Q16.16 scalar, saturating at the
/// representable range.
#[verifier::loop_isolation(false)]
#[verifier::rlimit(100)]
fn parse_fx_tok(t: &[u8]) -> (r: Option<Fx>)
    ensures
        match r {
            Some(f) => parse_fx_s(t@) == Some(f.v()),
            None => parse_fx_s(t@) is None,
        },
{
    let n = t.len();
    let neg: bool = n > 0 && t[0] == 45;
    let start: usize = if n > 0 && (t[0] == 45 || t[0] == 43) {
        1
    } else {
        0
    };
    let ghost d = t@.subrange(start as int, n as int);
    proof {
        if start == 0 {
            assert(d =~= t@);
        }
        assert(strip_sign(t@) == (neg, d));
        assert(forall|j: int| 0 <= j < d.len() ==> (#[trigger] d[j]) == t@[j + start]);
    }

    // Integer part: digits until a dot or the end.
    let mut acc: u64 = 0;
    let mut big = false;
    let mut p: usize = start;
    while p < n && t[p] != 46
        invariant
            start <= p <= n,
            forall|j: int| start <= j < p ==> (#[trigger] t@[j]) != 46 && is_digit(t@[j]),
            !big ==> acc == digits_val(t@.subrange(start as int, p as int)) && acc <= 0xFFFF_FFFF,
            big ==> digits_val(t@.subrange(start as int, p as int)) > 0xFFFF_FFFF,
        decreases n - p,
    {
        let b = t[p];
        if b < 48 || b > 57 {
            proof {
                lemma_dot_at_ge(d, p + 1 - start as int);
                lemma_dot_from(d, 0);
                let ip = d.subrange(0, dot_from(d, 0));
                assert(ip[p - start] == d[p - start]);
                assert(!is_digit(ip[p - start]));
                assert(!all_digits(ip));
            }
            return None;
        }
        proof {
            lemma_digits_step(t@, start as int, p as int);
            if !big {
                assert(all_digits(t@.subrange(start as int, p as int)));
                lemma_digits_nonneg(t@.subrange(start as int, p as int));
            } else {
                lemma_digits_nonneg_of(t@, start as int, p as int);
                assert(digits_val(t@.subrange(start as int, p as int + 1)) > 0xFFFF_FFFF)
                    by (nonlinear_arith)
                    requires
                        digits_val(t@.subrange(start as int, p as int + 1)) == digits_val(
                            t@.subrange(start as int, p as int),
                        ) * 10 + (t@[p as int] - 48),
                        digits_val(t@.subrange(start as int, p as int)) > 0xFFFF_FFFF,
                        t@[p as int] >= 48,
                ;
            }
            assert(all_digits(t@.subrange(start as int, p as int + 1)));
        }
        if !big {
            acc = acc * 10 + ((b - 48) as u64);
            if acc > 0xFFFF_FFFF {
                big = true;
            }
        }
        p += 1;
    }
    let int_len = p - start;
    proof {
        lemma_dot_at(d, 0, p - start as int);
        assert(dot_from(d, 0) == p - start);
        assert(d.subrange(0, p - start as int) =~= t@.subrange(start as int, p as int));
        assert(all_digits(d.subrange(0, p - start as int)));
    }

    // Fraction part: digits after the dot, the first nine carrying weight.
    let mut facc: u64 = 0;
    let mut flen: usize = 0;
    let frac_start: usize = if p < n {
        p + 1
    } else {
        p
    };
    let mut q: usize = frac_start;
    while q < n
        invariant
            frac_start <= q <= n,
            flen as int == (if q - frac_start <= 9 {
                q - frac_start
            } else {
                9int
            }),
            forall|j: int| frac_start <= j < q ==> is_digit(#[trigger] t@[j]),
            facc == digits_val(t@.subrange(frac_start as int, frac_start + flen as int)),
            facc < 0x3B9A_CA00,
        decreases n - q,
    {
        let b = t[q];
        if b < 48 || b > 57 {
            proof {
                assert(p < n);
                let fr_all = d.subrange(p - start + 1, d.len() as int);
                assert(fr_all[q - frac_start] == t@[q as int]);
                assert(!all_digits(fr_all));
            }
            return None;
        }
        if flen < 9 {
            proof {
                lemma_digits_step(t@, frac_start as int, q as int);
                assert(t@.subrange(frac_start as int, frac_start + flen as int) =~= t@.subrange(
                    frac_start as int,
                    q as int,
                ));
                assert(all_digits(t@.subrange(frac_start as int, q as int)));
                lemma_digits_val_bound(t@.subrange(frac_start as int, q as int));
                lemma_pow10_bound((flen + 1) as nat);
                assert(pow10((flen + 1) as nat) == 10 * pow10(flen as nat));
            }
            facc = facc * 10 + ((b - 48) as u64);
            flen += 1;
        }
        q += 1;
    }

    if int_len == 0 && frac_start >= n {
        proof {
            assert(d.subrange(0, dot_from(d, 0)).len() == 0);
            if p < n {
                assert(d.subrange(p - start + 1, d.len() as int).len() == 0);
            }
        }
        return None;
    }

    proof {
        assert(valid_decimal(d)) by {
            if p < n {
                let fr_all = d.subrange(p - start + 1, d.len() as int);
                assert(forall|j: int|
                    0 <= j < fr_all.len() ==> (#[trigger] fr_all[j]) == t@[j + frac_start]);
                assert(all_digits(fr_all));
            }
        }
        lemma_fraction_value(t@, d, start as int, p as int, frac_start as int, flen as int, n as int);
    }

    // Scale: ten to the number of weighted fraction digits.
    let mut p10: u64 = 1;
    let mut e: usize = 0;
    while e < flen
        invariant
            e <= flen,
            flen <= 9,
            p10 == pow10(e as nat),
            p10 <= 0x3B9A_CA00,
        decreases flen - e,
    {
        proof {
            lemma_pow10_bound((e + 1) as nat);
        }
        p10 = p10 * 10;
        e += 1;
    }

    let bits: i32 = if big {
        proof {
            lemma_big_saturates(t@, d, start as int, p as int);
        }
        if neg {
            i32::MIN
        } else {
            i32::MAX
        }
    } else {
        proof {
            lemma_pow10_bound(flen as nat);
            vstd::arithmetic::div_mod::lemma_div_is_ordered_by_denominator(
                (facc * 65536) as int,
                1,
                p10 as int,
            );
        }
        let m: u64 = acc * 65536 + (facc * 65536) / p10;
        let mi: i64 = m as i64;
        if neg {
            crate::fixed::clip_i64(-mi)
        } else {
            crate::fixed::clip_i64(mi)
        }
    };
    Some(Fx { bits })
}

/// The weighted fraction of the decimal equals what the scan accumulated.
proof fn lemma_fraction_value(
    s: Seq<u8>,
    d: Seq<u8>,
    start: int,
    p: int,
    frac_start: int,
    flen: int,
    n: int,
)
    requires
        0 <= start <= p <= n == s.len(),
        d == s.subrange(start, n),
        dot_from(d, 0) == p - start,
        frac_start == (if p < n {
            p + 1
        } else {
            p
        }),
        flen == (if n - frac_start <= 9 {
            n - frac_start
        } else {
            9int
        }),
    ensures
        ({
            let pd = dot_from(d, 0);
            let fr_all = if pd >= d.len() {
                Seq::<u8>::empty()
            } else {
                d.subrange(pd + 1, d.len() as int)
            };
            let fr = if fr_all.len() > 9 {
                fr_all.subrange(0, 9)
            } else {
                fr_all
            };
            fr =~= s.subrange(frac_start, frac_start + flen) && fr.len() == flen
        }),
{
    let pd = dot_from(d, 0);
    if pd >= d.len() {
        assert(Seq::<u8>::empty() =~= s.subrange(frac_start, frac_start + flen));
    } else {
        let fr_all = d.subrange(pd + 1, d.len() as int);
        assert(fr_all =~= s.subrange(p + 1, n));
        if fr_all.len() > 9 {
            assert(fr_all.subrange(0, 9) =~= s.subrange(frac_start, frac_start + 9));
        }
    }
}

/// The dot search lands at or past any index whose earlier bytes it passed.
proof fn lemma_dot_at_ge(s: Seq<u8>, q: int)
    requires
        0 <= q <= s.len(),
        forall|j: int| 0 <= j < q ==> (#[trigger] s[j]) != 46,
    ensures
        dot_from(s, 0) >= q,
{
    lemma_dot_from(s, 0);
    if dot_from(s, 0) < q {
        assert(s[dot_from(s, 0)] == 46);
    }
}

/// Digit-string values over index windows are nonnegative.
proof fn lemma_digits_nonneg_of(s: Seq<u8>, a: int, b: int)
    requires
        0 <= a <= b <= s.len(),
        forall|j: int| a <= j < b ==> is_digit(#[trigger] s[j]),
    ensures
        digits_val(s.subrange(a, b)) >= 0,
{
    assert(all_digits(s.subrange(a, b)));
    lemma_digits_nonneg(s.subrange(a, b));
}

/// Powers of ten up to the ninth, exactly bounded.
proof fn lemma_pow10_bound(n: nat)
    requires
        n <= 9,
    ensures
        1 <= pow10(n) <= 0x3B9A_CA00,
{
    assert(pow10(0) == 1);
    assert(pow10(1) == 10);
    assert(pow10(2) == 100);
    assert(pow10(3) == 1000);
    assert(pow10(4) == 10000);
    assert(pow10(5) == 100000);
    assert(pow10(6) == 1000000);
    assert(pow10(7) == 10000000);
    assert(pow10(8) == 100000000);
    assert(pow10(9) == 1000000000);
}

/// When the integer digits already exceed the 32-bit range, the decimal
/// magnitude saturates the representable range.
proof fn lemma_big_saturates(s: Seq<u8>, d: Seq<u8>, start: int, p: int)
    requires
        0 <= start <= p <= s.len(),
        d == s.subrange(start, s.len() as int),
        dot_from(d, 0) == p - start,
        digits_val(s.subrange(start, p)) > 0xFFFF_FFFF,
        valid_decimal(d),
    ensures
        decimal_mag(d) > i32::MAX,
        clip(decimal_mag(d)) == i32::MAX,
        clip(-decimal_mag(d)) == i32::MIN,
{
    let ip = d.subrange(0, p - start);
    assert(ip =~= s.subrange(start, p));
    let pd = dot_from(d, 0);
    let fr_all = if pd >= d.len() {
        Seq::<u8>::empty()
    } else {
        d.subrange(pd + 1, d.len() as int)
    };
    let fr = if fr_all.len() > 9 {
        fr_all.subrange(0, 9)
    } else {
        fr_all
    };
    assert(all_digits(fr)) by {
        assert(forall|k: int| 0 <= k < fr.len() ==> fr[k] == #[trigger] fr_all[k]);
    }
    lemma_digits_nonneg(fr);
    lemma_pow10_bound(fr.len());
    assert(digits_val(fr) * 65536 >= 0) by (nonlinear_arith)
        requires
            digits_val(fr) >= 0,
    ;
    vstd::arithmetic::div_mod::lemma_div_is_ordered(0, digits_val(fr) * 65536, pow10(fr.len()));
    assert(digits_val(ip) * 65536 > 0xFFFF_FFFF * 65536) by (nonlinear_arith)
        requires
            digits_val(ip) > 0xFFFF_FFFF,
    ;
}

/// Whether a byte is ASCII whitespace.
fn is_ws_b(x: u8) -> (r: bool)
    ensures
        r == is_ws(x),
{
    x == 32 || x == 9 || x == 10 || x == 11 || x == 12 || x == 13
}

/// Advances past whitespace.
fn skip_ws_exec(b: &[u8], i: usize) -> (j: usize)
    requires
        i <= b@.len(),
    ensures
        j == skip_ws(b@, i as int),
        i <= j <= b@.len(),
{
    let n = b.len();
    let mut c = i;
    while c < n
        invariant
            i <= c <= n,
            n == b@.len(),
            skip_ws(b@, i as int) == skip_ws(b@, c as int),
        decreases n - c,
    {
        if !is_ws_b(b[c]) {
            return c;
        }
        c += 1;
    }
    c
}

/// Advances to the end of the token starting at `i`.
fn tok_end_exec(b: &[u8], i: usize) -> (j: usize)
    requires
        i <= b@.len(),
    ensures
        j == tok_end(b@, i as int),
        i <= j <= b@.len(),
{
    let n = b.len();
    let mut c = i;
    while c < n
        invariant
            i <= c <= n,
            n == b@.len(),
            tok_end(b@, i as int) == tok_end(b@, c as int),
        decreases n - c,
    {
        if is_ws_b(b[c]) {
            return c;
        }
        c += 1;
    }
    c
}

/// The bits of a parsed scalar slot, for stating what a line parse stored.
pub open spec fn opt_fx_bits(o: Option<Fx>) -> Option<int> {
    match o {
        Some(f) => Some(f.v()),
        None => None,
    }
}

/// Fills `target` with the parses of up to four value tokens of `line`:
/// the first token, the line's keyword, is skipped; slot `k` receives the
/// parse of token `k + 1` and keeps its old content where the line has no
/// such token.
pub fn parse_line(target: &mut [Option<Fx>; 4], line: &str)
    ensures
        forall|k: int|
            0 <= k < 4 ==> opt_fx_bits((*final(target))[k]) == (if 1 + k < toks_from(
                line.spec_bytes(),
                0,
            ).len() {
                parse_fx_s(toks_from(line.spec_bytes(), 0)[1 + k])
            } else {
                opt_fx_bits((*old(target))[k])
            }),
{
    parse_line_bytes(target, line.as_bytes())
}

/// The byte-level core of `parse_line`.
#[verifier::loop_isolation(false)]
fn parse_line_bytes(target: &mut [Option<Fx>; 4], line: &[u8])
    ensures
        forall|k: int|
            0 <= k < 4 ==> opt_fx_bits((*final(target))[k]) == (if 1 + k < toks_from(
                line@,
                0,
            ).len() {
                parse_fx_s(toks_from(line@, 0)[1 + k])
            } else {
                opt_fx_bits((*old(target))[k])
            }),
{
    let bytes = line;
    let ghost s = line@;
    let n = bytes.len();
    proof {
        lemma_skip_ws(s, 0);
    }
    let j0 = skip_ws_exec(bytes, 0);
    if j0 >= n {
        return;
    }
    proof {
        lemma_tok_end(s, j0 as int);
    }
    let mut pos = tok_end_exec(bytes, j0);
    proof {
        assert(toks_from(s, pos as int) =~= toks_from(s, 0).skip(1));
    }
    let mut i: usize = 0;
    while i < 4
        invariant
            i <= 4,
            pos <= n,
            toks_from(s, pos as int) == toks_from(s, 0).skip(1 + i as int),
            1 + i <= toks_from(s, 0).len(),
            forall|k: int|
                0 <= k < i ==> opt_fx_bits((*target)[k]) == parse_fx_s(
                    toks_from(s, 0)[1 + k],
                ),
            forall|k: int| i <= k < 4 ==> (*target)[k] == (*old(target))[k],
        decreases 4 - i,
    {
        proof {
            lemma_skip_ws(s, pos as int);
        }
        let j = skip_ws_exec(bytes, pos);
        if j >= n {
            proof {
                assert(toks_from(s, pos as int).len() == 0);
            }
            return;
        }
        proof {
            lemma_tok_end(s, j as int);
        }
        let e = tok_end_exec(bytes, j);
        let tok = vstd::slice::slice_subrange(bytes, j, e);
        let v = parse_fx_tok(tok);
        target[i] = v;
        proof {
            assert(toks_from(s, pos as int)[0] == s.subrange(j as int, e as int));
            assert(toks_from(s, 0)[1 + i] == s.subrange(j as int, e as int));
            assert(toks_from(s, e as int) =~= toks_from(s, pos as int).skip(1));
            assert(toks_from(s, pos as int).skip(1) =~= toks_from(s, 0).skip(1 + i + 1));
        }
        pos = e;
        i += 1;
    }
}

/// Fills `target` with the parses of up to four whole-number tokens of
/// `line`, as `parse_line` does for scalars.
pub fn parse_line_u32(target: &mut [Option<u32>; 4], line: &str)
    ensures
        forall|k: int|
            0 <= k < 4 ==> (*final(target))[k] == (if 1 + k < toks_from(
                line.spec_bytes(),
                0,
            ).len() {
                parse_u32_s(toks_from(line.spec_bytes(), 0)[1 + k])
            } else {
                (*old(target))[k]
            }),
{
    parse_line_u32_bytes(target, line.as_bytes())
}

/// The byte-level core of `parse_line_u32`.
#[verifier::loop_isolation(false)]
fn parse_line_u32_bytes(target: &mut [Option<u32>; 4], line: &[u8])
    ensures
        forall|k: int|
            0 <= k < 4 ==> (*final(target))[k] == (if 1 + k < toks_from(line@, 0).len() {
                parse_u32_s(toks_from(line@, 0)[1 + k])
            } else {
                (*old(target))[k]
            }),
{
    let bytes = line;
    let ghost s = line@;
    let n = bytes.len();
    proof {
        lemma_skip_ws(s, 0);
    }
    let j0 = skip_ws_exec(bytes, 0);
    if j0 >= n {
        return;
    }
    proof {
        lemma_tok_end(s, j0 as int);
    }
    let mut pos = tok_end_exec(bytes, j0);
    proof {
        assert(toks_from(s, pos as int) =~= toks_from(s, 0).skip(1));
    }
    let mut i: usize = 0;
    while i < 4
        invariant
            i <= 4,
            pos <= n,
            toks_from(s, pos as int) == toks_from(s, 0).skip(1 + i as int),
            1 + i <= toks_from(s, 0).len(),
            forall|k: int|
                0 <= k < i ==> (*target)[k] == parse_u32_s(toks_from(s, 0)[1 + k]),
            forall|k: int| i <= k < 4 ==> (*target)[k] == (*old(target))[k],
        decreases 4 - i,
    {
        proof {
            lemma_skip_ws(s, pos as int);
        }
        let j = skip_ws_exec(bytes, pos);
        if j >= n {
            proof {
                assert(toks_from(s, pos as int).len() == 0);
            }
            return;
        }
        proof {
            lemma_tok_end(s, j as int);
        }
        let e = tok_end_exec(bytes, j);
        let tok = vstd::slice::slice_subrange(bytes, j, e);
        let v = parse_u32_tok(tok);
        target[i] = v;
        proof {
            assert(toks_from(s, pos as int)[0] == s.subrange(j as int, e as int));
            assert(toks_from(s, 0)[1 + i] == s.subrange(j as int, e as int));
            assert(toks_from(s, e as int) =~= toks_from(s, pos as int).skip(1));
            assert(toks_from(s, pos as int).skip(1) =~= toks_from(s, 0).skip(1 + i + 1));
        }
        pos = e;
        i += 1;
    }
}

/// Why a mesh file could not be read; the parse itself never fails.
#[derive(Debug)]
pub enum ObjParseError {
    /// The file could not be read, with the reader's message.
    PathReadError(String),
}

impl ObjParseError {
    /// The error's message.
    pub fn message(&self) -> (m: &String)
        ensures
            self matches ObjParseError::PathReadError(s) && m@ == s@,
    {
        match self {
            ObjParseError::PathReadError(s) => s,
        }
    }
}

/// A parsed mesh: vertex coordinates, four per vertex, and face vertex
/// numbers exactly as written in the file, one-based.
pub struct ParsedObj {
    pub vertices: Vec<Fx>,
    pub faces: Vec<u32>,
}

impl ParsedObj {
    /// The vertex coordinates' bits.
    pub open spec fn vert_bits(self) -> Seq<int> {
        self.vertices@.map_values(|f: Fx| f.v())
    }
}

/// The first index at or after `i` holding a newline, or the length.
pub open spec fn line_end(s: Seq<u8>, i: int) -> int
    decreases s.len() - i when 0 <= i <= s.len()
{
    if i >= s.len() || s[i] == 10 {
        i
    } else {
        line_end(s, i + 1)
    }
}

/// Where the newline search lands.
pub proof fn lemma_line_end(s: Seq<u8>, i: int)
    requires
        0 <= i <= s.len(),
    ensures
        i <= line_end(s, i) <= s.len(),
        line_end(s, i) < s.len() ==> s[line_end(s, i)] == 10,
        forall|j: int| i <= j < line_end(s, i) ==> (#[trigger] s[j]) != 10,
    decreases s.len() - i,
{
    if i < s.len() && s[i] != 10 {
        lemma_line_end(s, i + 1);
    }
}

/// A scan that passed only non-newline bytes and stopped at a newline or
/// the end found exactly where the newline search lands.
proof fn lemma_line_end_at(s: Seq<u8>, i: int, q: int)
    requires
        0 <= i <= q <= s.len(),
        forall|j: int| i <= j < q ==> (#[trigger] s[j]) != 10,
        q < s.len() ==> s[q] == 10,
    ensures
        line_end(s, i) == q,
    decreases q - i,
{
    if i < q {
        lemma_line_end_at(s, i + 1, q);
    }
}

/// A scan that passed only whitespace and stopped on non-whitespace or at
/// the end found exactly where whitespace skipping lands.
proof fn lemma_skip_ws_at(s: Seq<u8>, i: int, q: int)
    requires
        0 <= i <= q <= s.len(),
        forall|j: int| i <= j < q ==> is_ws(#[trigger] s[j]),
        q < s.len() ==> !is_ws(s[q]),
    ensures
        skip_ws(s, i) == q,
    decreases q - i,
{
    if i < q {
        lemma_skip_ws_at(s, i + 1, q);
    }
}

/// The content of the line starting at `i`: up to the next newline, a
/// trailing carriage return removed.
pub open spec fn line_at(s: Seq<u8>, i: int) -> Seq<u8> {
    let e = line_end(s, i);
    if e > i && s[e - 1] == 13 {
        s.subrange(i, e - 1)
    } else {
        s.subrange(i, e)
    }
}

/// The line with its leading whitespace removed.
pub open spec fn trim_start_s(l: Seq<u8>) -> Seq<u8> {
    l.subrange(skip_ws(l, 0), l.len() as int)
}

/// Whether a trimmed line is a vertex line: it starts with `v` not
/// followed by `p`, `n` or `t`.
pub open spec fn is_vertex_line(t: Seq<u8>) -> bool {
    t.len() > 0 && t[0] == 118 && !(t.len() > 1 && (t[1] == 112 || t[1] == 110 || t[1] == 116))
}

/// Whether a trimmed line is a face line: it starts with `f`.
pub open spec fn is_face_line(t: Seq<u8>) -> bool {
    t.len() > 0 && t[0] == 102
}

/// The coordinates a vertex line's tokens contribute, from slot `i` on:
/// each parsed value in order, a missing or unparsable fourth replaced by
/// one.
pub open spec fn vert_vals(toks: Seq<Seq<u8>>, i: int) -> Seq<int>
    decreases 4 - i,
{
    if i >= 4 {
        Seq::empty()
    } else {
        let cur = if 1 + i < toks.len() {
            parse_fx_s(toks[1 + i])
        } else {
            None
        };
        (match cur {
            Some(b) => seq![b],
            None => if i == 3 {
                seq![ONE_B as int]
            } else {
                Seq::empty()
            },
        }) + vert_vals(toks, i + 1)
    }
}

/// The vertex numbers a face line's tokens contribute, from slot `i` on:
/// each parsed value in order, unparsable values skipped.
pub open spec fn face_vals(toks: Seq<Seq<u8>>, i: int) -> Seq<u32>
    decreases 3 - i,
{
    if i >= 3 {
        Seq::empty()
    } else {
        let cur = if 1 + i < toks.len() {
            parse_u32_s(toks[1 + i])
        } else {
            None
        };
        (match cur {
            Some(v) => seq![v],
            None => Seq::empty(),
        }) + face_vals(toks, i + 1)
    }
}

/// The coordinates one line contributes.
pub open spec fn line_verts(l: Seq<u8>) -> Seq<int> {
    let t = trim_start_s(l);
    if is_vertex_line(t) {
        vert_vals(toks_from(t, 0), 0)
    } else {
        Seq::empty()
    }
}

/// The face numbers one line contributes.
pub open spec fn line_faces(l: Seq<u8>) -> Seq<u32> {
    let t = trim_start_s(l);
    if is_face_line(t) {
        face_vals(toks_from(t, 0), 0)
    } else {
        Seq::empty()
    }
}

/// All vertex coordinates of the input from index `i` on, line by line.
pub open spec fn obj_verts_from(s: Seq<u8>, i: int) -> Seq<int>
    decreases s.len() - i when 0 <= i <= s.len() via obj_verts_from_dec
{
    if i >= s.len() {
        Seq::empty()
    } else {
        let e = line_end(s, i);
        let c = line_verts(line_at(s, i));
        if e >= s.len() {
            c
        } else {
            c + obj_verts_from(s, e + 1)
        }
    }
}

#[via_fn]
proof fn obj_verts_from_dec(s: Seq<u8>, i: int) {
    if 0 <= i < s.len() {
        lemma_line_end(s, i);
    }
}

/// All face numbers of the input from index `i` on, line by line.
pub open spec fn obj_faces_from(s: Seq<u8>, i: int) -> Seq<u32>
    decreases s.len() - i when 0 <= i <= s.len() via obj_faces_from_dec
{
    if i >= s.len() {
        Seq::empty()
    } else {
        let e = line_end(s, i);
        let c = line_faces(line_at(s, i));
        if e >= s.len() {
            c
        } else {
            c + obj_faces_from(s, e + 1)
        }
    }
}

#[via_fn]
proof fn obj_faces_from_dec(s: Seq<u8>, i: int) {
    if 0 <= i < s.len() {
        lemma_line_end(s, i);
    }
}

/// Finds the end of the line starting at `i`.
fn line_end_exec(b: &[u8], i: usize) -> (j: usize)
    requires
        i <= b@.len(),
    ensures
        j == line_end(b@, i as int),
        i <= j <= b@.len(),
{
    let n = b.len();
    let mut c = i;
    while c < n
        invariant
            i <= c <= n,
            n == b@.len(),
            forall|j2: int| i <= j2 < c ==> (#[trigger] b@[j2]) != 10,
        decreases n - c,
    {
        if b[c] == 10 {
            proof {
                lemma_line_end_at(b@, i as int, c as int);
            }
            return c;
        }
        c += 1;
    }
    proof {
        lemma_line_end_at(b@, i as int, n as int);
    }
    c
}

/// Parses OBJ data: every line is examined, vertex and face lines
/// contribute their values, and every other or malformed line is skipped.
/// The parse itself always succeeds.
#[verifier::loop_isolation(false)]
#[verifier::rlimit(100)]
pub fn parse_obj(obj_data: &str) -> (r: Result<ParsedObj, ObjParseError>)
    ensures
        r matches Ok(po) && po.vert_bits() == obj_verts_from(obj_data.spec_bytes(), 0)
            && po.faces@ == obj_faces_from(obj_data.spec_bytes(), 0),
{
    let bytes = obj_data.as_bytes();
    let ghost s = obj_data.spec_bytes();
    let n = bytes.len();
    let mut vertices: Vec<Fx> = Vec::new();
    let mut faces: Vec<u32> = Vec::new();
    let mut i: usize = 0;
    while i < n
        invariant
            i <= n,
            n == s.len(),
            bytes@ == s,
            obj_verts_from(s, 0) == vertices@.map_values(|f: Fx| f.v()) + obj_verts_from(
                s,
                i as int,
            ),
            obj_faces_from(s, 0) == faces@ + obj_faces_from(s, i as int),
        decreases n - i,
    {
        let e = line_end_exec(bytes, i);
        proof {
            lemma_line_end(s, i as int);
        }
        let lend: usize = if e > i && bytes[e - 1] == 13 {
            e - 1
        } else {
            e
        };
        let ghost l = line_at(s, i as int);
        proof {
            assert(l =~= s.subrange(i as int, lend as int));
        }

        // Trim the line's leading whitespace.
        let mut q: usize = i;
        while q < lend && is_ws_b(bytes[q])
            invariant
                i <= q <= lend,
                lend <= n,
                n == s.len(),
                bytes@ == s,
                forall|j2: int| i <= j2 < q ==> is_ws(#[trigger] s[j2]),
            decreases lend - q,
        {
            q += 1;
        }
        let ghost t = trim_start_s(l);
        proof {
            assert(forall|j2: int| 0 <= j2 < q - i ==> l[j2] == #[trigger] s[j2 + i]);
            lemma_skip_ws_at(l, 0, q - i as int);
            assert(t =~= s.subrange(q as int, lend as int));
        }
        let trimmed = vstd::slice::slice_subrange(bytes, q, lend);
        let tlen = lend - q;

        let is_v = tlen > 0 && trimmed[0] == 118 && !(tlen > 1 && (trimmed[1] == 112
            || trimmed[1] == 110 || trimmed[1] == 116));
        let is_f = tlen > 0 && trimmed[0] == 102;
        proof {
            assert(is_v == is_vertex_line(t));
            assert(is_f == is_face_line(t));
        }

        if is_v {
            let mut vals: [Option<Fx>; 4] = [None, None, None, None];
            parse_line_bytes(&mut vals, trimmed);
            let ghost toks = toks_from(t, 0);
            let ghost base = vertices@.map_values(|f: Fx| f.v());
            let mut k: usize = 0;
            while k < 4
                invariant
                    k <= 4,
                    toks == toks_from(t, 0),
                    forall|k2: int|
                        0 <= k2 < 4 ==> opt_fx_bits(vals[k2]) == (if 1 + k2 < toks.len() {
                            parse_fx_s(toks[1 + k2])
                        } else {
                            None
                        }),
                    base + vert_vals(toks, 0) == vertices@.map_values(|f: Fx| f.v())
                        + vert_vals(toks, k as int),
                decreases 4 - k,
            {
                let ghost before = vertices@;
                match vals[k] {
                    Some(v) => {
                        vertices.push(v);
                    },
                    None => {
                        if k == 3 {
                            vertices.push(Fx { bits: ONE_B });
                        }
                    },
                }
                proof {
                    assert(vertices@.map_values(|f: Fx| f.v()) =~= before.map_values(
                        |f: Fx| f.v(),
                    ) + vert_vals(toks, k as int).take(
                        vert_vals(toks, k as int).len() - vert_vals(toks, k as int + 1).len(),
                    ));
                    assert(before.map_values(|f: Fx| f.v()) + vert_vals(toks, k as int)
                        =~= vertices@.map_values(|f: Fx| f.v()) + vert_vals(toks, k as int + 1));
                }
                k += 1;
            }
            proof {
                assert(vert_vals(toks, 4) =~= Seq::<int>::empty());
                assert(base + vert_vals(toks, 0) =~= vertices@.map_values(|f: Fx| f.v()));
            }
        } else if is_f {
            let mut vals: [Option<u32>; 4] = [None, None, None, None];
            parse_line_u32_bytes(&mut vals, trimmed);
            let ghost toks = toks_from(t, 0);
            let ghost fbase = faces@;
            let mut k: usize = 0;
            while k < 3
                invariant
                    k <= 3,
                    toks == toks_from(t, 0),
                    forall|k2: int|
                        0 <= k2 < 4 ==> vals[k2] == (if 1 + k2 < toks.len() {
                            parse_u32_s(toks[1 + k2])
                        } else {
                            None
                        }),
                    fbase + face_vals(toks, 0) == faces@ + face_vals(toks, k as int),
                decreases 3 - k,
            {
                let ghost before = faces@;
                match vals[k] {
                    Some(v) => {
                        faces.push(v);
                    },
                    None => {},
                }
                proof {
                    assert(before + face_vals(toks, k as int) =~= faces@ + face_vals(
                        toks,
                        k as int + 1,
                    ));
                }
                k += 1;
            }
            proof {
                assert(face_vals(toks, 3) =~= Seq::<u32>::empty());
                assert(fbase + face_vals(toks, 0) =~= faces@);
            }
        }

        proof {
            if e >= n {
                assert(obj_verts_from(s, i as int) == line_verts(l));
                assert(obj_faces_from(s, i as int) == line_faces(l));
            } else {
                assert(obj_verts_from(s, i as int) == line_verts(l) + obj_verts_from(
                    s,
                    e + 1,
                ));
                assert(obj_faces_from(s, i as int) == line_faces(l) + obj_faces_from(
                    s,
                    e + 1,
                ));
            }
            assert(obj_verts_from(s, n as int) =~= Seq::<int>::empty());
            assert(obj_faces_from(s, n as int) =~= Seq::<u32>::empty());
        }
        if e >= n {
            i = n;
        } else {
            i = e + 1;
        }
    }
    proof {
        assert(obj_verts_from(s, n as int) =~= Seq::<int>::empty());
        assert(obj_faces_from(s, n as int) =~= Seq::<u32>::empty());
        assert(obj_verts_from(s, 0) =~= vertices@.map_values(|f: Fx| f.v()));
        assert(obj_faces_from(s, 0) =~= faces@);
    }
    Ok(ParsedObj { vertices, faces })
}

/// Face numbers shifted from the file's one-based convention to zero-based
/// buffer indices, for upload.
pub fn decrement_faces(faces: &Vec<u32>) -> (r: Vec<u32>)
    requires
        forall|k: int| 0 <= k < faces@.len() ==> (#[trigger] faces@[k]) >= 1,
    ensures
        r@.len() == faces@.len(),
        forall|k: int| 0 <= k < faces@.len() ==> (#[trigger] r@[k]) == faces@[k] - 1,
{
    let mut r: Vec<u32> = Vec::new();
    let mut k: usize = 0;
    while k < faces.len()
        invariant
            k <= faces@.len(),
            r@.len() == k,
            forall|t: int| 0 <= t < faces@.len() ==> (#[trigger] faces@[t]) >= 1,
            forall|t: int| 0 <= t < k ==> (#[trigger] r@[t]) == faces@[t] - 1,
        decreases faces@.len() - k,
    {
        r.push(faces[k] - 1);
        k += 1;
    }
    r
}

} // verus!
