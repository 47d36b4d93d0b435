//! Fixed-point amount codec.
//!
//! An amount is a non-negative decimal quantity with four fractional digits
//! of significance, held as an unsigned integer count of ticks, where one
//! tick is 0.0001 of the decimal unit.  [`to_ticks`] parses decimal text
//! into ticks, rounding to the nearest tick (half away from zero) and
//! enforcing the range cap [`MAX_TICKS`]; [`to_decimal`] formats ticks back
//! to decimal text with exactly four fractional digits, which is exact.

use vstd::prelude::*;
use vstd::string::StrSliceExecFns;
use vstd::string::StringExecFns;

verus! {

/// Largest representable amount, in ticks (10^11 in decimal units).
/// Keeping every balance at or below this cap keeps all balance
/// arithmetic far away from `u64` overflow.
pub const MAX_TICKS: u64 = 1_000_000_000_000_000;

pub open spec fn is_digit(c: char) -> bool {
    '0' <= c && c <= '9'
}

pub open spec fn digit_val(c: char) -> int {
    c as int - '0' as int
}

pub open spec fn all_digits(s: Seq<char>) -> bool {
    forall|i: int| 0 <= i < s.len() ==> is_digit(#[trigger] s[i])
}

/// The character for a single decimal digit.
pub open spec fn digit_char(d: int) -> char {
    if d == 0 {
        '0'
    } else if d == 1 {
        '1'
    } else if d == 2 {
        '2'
    } else if d == 3 {
        '3'
    } else if d == 4 {
        '4'
    } else if d == 5 {
        '5'
    } else if d == 6 {
        '6'
    } else if d == 7 {
        '7'
    } else if d == 8 {
        '8'
    } else {
        '9'
    }
}

/// Decimal digit string of a non-negative integer, most significant first,
/// with no leading zeros except for the number 0 itself.
pub open spec fn dec_digits(n: int) -> Seq<char>
    decreases n,
    when n >= 0
{
    if n < 10 {
        seq![digit_char(n)]
    } else {
        dec_digits(n / 10).push(digit_char(n % 10))
    }
}

/// Exactly four digit characters for `m`, zero-padded (intended for m < 10000).
pub open spec fn pad4_chars(m: int) -> Seq<char> {
    seq![
        digit_char(m / 1000 % 10),
        digit_char(m / 100 % 10),
        digit_char(m / 10 % 10),
        digit_char(m % 10),
    ]
}

/// The decimal text form of a tick count: integer part, '.', then the
/// fractional part as exactly four digits.
pub open spec fn dec_str_of(t: u64) -> Seq<char> {
    dec_digits(t as int / 10000) + seq!['.'] + pad4_chars(t as int % 10000)
}

/// The digit characters of `v`, read back-to-front (v holds least
/// significant digit first).
pub open spec fn rev_chars(v: Seq<u64>) -> Seq<char> {
    Seq::new(v.len(), |i: int| digit_char(v[v.len() - 1 - i] as int))
}

/// Index of the first '.' in `s`, or `s.len()` if there is none.
pub open spec fn first_dot(s: Seq<char>) -> int
    decreases s.len(),
{
    if s.len() == 0 {
        0
    } else if s[0] == '.' {
        0
    } else {
        1 + first_dot(s.skip(1))
    }
}

/// The digits before the first '.' (the whole string if there is no '.').
pub open spec fn int_part(s: Seq<char>) -> Seq<char> {
    s.take(first_dot(s))
}

/// The characters after the first '.', or empty if there is no '.'.
pub open spec fn frac_part(s: Seq<char>) -> Seq<char> {
    if first_dot(s) < s.len() {
        s.skip(first_dot(s) + 1)
    } else {
        Seq::<char>::empty()
    }
}

/// A well-formed decimal string: digits, at most one '.', and at least one
/// digit somewhere.  A sign, an exponent, or any other character makes the
/// string malformed.
pub open spec fn wf_decimal(s: Seq<char>) -> bool {
    &&& all_digits(int_part(s))
    &&& all_digits(frac_part(s))
    &&& int_part(s).len() + frac_part(s).len() > 0
}

/// Value of a digit string read as a base-10 number.
pub open spec fn digits_val(s: Seq<char>) -> int
    decreases s.len(),
{
    if s.len() == 0 {
        0
    } else {
        digits_val(s.drop_last()) * 10 + digit_val(s.last())
    }
}

pub open spec fn pow10(n: int) -> int
    decreases n,
    when n >= 0
{
    if n <= 0 {
        1
    } else {
        10 * pow10(n - 1)
    }
}

/// The fractional digits, truncated or zero-padded to exactly four.
pub open spec fn pad4(f: Seq<char>) -> Seq<char> {
    if f.len() >= 4 {
        f.take(4)
    } else {
        f + Seq::new((4 - f.len()) as nat, |i: int| '0')
    }
}

/// Tick count contributed by the fractional digits: the first four digits,
/// rounded to the nearest tick by the fifth digit (half away from zero).
pub open spec fn frac_ticks(f: Seq<char>) -> int {
    digits_val(pad4(f)) + if f.len() > 4 && digit_val(f[4]) >= 5 {
        1int
    } else {
        0int
    }
}

/// Tick value of a well-formed decimal string.
pub open spec fn ticks_value(s: Seq<char>) -> int {
    digits_val(int_part(s)) * 10000 + frac_ticks(frac_part(s))
}

/// What [`to_ticks`] returns: the rounded tick value for a well-formed
/// decimal string within range, and nothing otherwise.
pub open spec fn spec_to_ticks(s: Seq<char>) -> Option<u64> {
    if wf_decimal(s) && ticks_value(s) <= MAX_TICKS {
        Some(ticks_value(s) as u64)
    } else {
        None
    }
}

proof fn lemma_first_dot(s: Seq<char>)
    ensures
        0 <= first_dot(s) <= s.len(),
        first_dot(s) < s.len() ==> s[first_dot(s)] == '.',
        forall|j: int| 0 <= j < first_dot(s) ==> s[j] != '.',
    decreases s.len(),
{
    if s.len() == 0 {
    } else if s[0] == '.' {
    } else {
        lemma_first_dot(s.skip(1));
        assert forall|j: int| 0 <= j < first_dot(s) implies s[j] != '.' by {
            if j > 0 {
                assert(s.skip(1)[j - 1] == s[j]);
            }
        }
        if first_dot(s) < s.len() {
            assert(s.skip(1)[first_dot(s) - 1] == s[first_dot(s)]);
        }
    }
}

/// `first_dot` is the index of the dot when one exists with no dot before it.
proof fn lemma_first_dot_at(s: Seq<char>, d: int)
    requires
        0 <= d < s.len(),
        s[d] == '.',
        forall|j: int| 0 <= j < d ==> s[j] != '.',
    ensures
        first_dot(s) == d,
{
    lemma_first_dot(s);
}

/// `first_dot` is the length when the string has no dot.
proof fn lemma_first_dot_none(s: Seq<char>)
    requires
        forall|j: int| 0 <= j < s.len() ==> s[j] != '.',
    ensures
        first_dot(s) == s.len(),
{
    lemma_first_dot(s);
}

proof fn lemma_digits_val_nonneg(s: Seq<char>)
    requires
        all_digits(s),
    ensures
        digits_val(s) >= 0,
    decreases s.len(),
{
    if s.len() > 0 {
        assert(forall|i: int| 0 <= i < s.len() - 1 ==> s.drop_last()[i] == s[i]);
        lemma_digits_val_nonneg(s.drop_last());
    }
}

/// A digit string is worth at least any of its prefixes.
proof fn lemma_digits_val_prefix(s: Seq<char>, i: int)
    requires
        all_digits(s),
        0 <= i <= s.len(),
    ensures
        digits_val(s.take(i)) <= digits_val(s),
    decreases s.len(),
{
    if i == s.len() {
        assert(s.take(i) =~= s);
    } else {
        assert(forall|j: int| 0 <= j < s.len() - 1 ==> s.drop_last()[j] == s[j]);
        assert(s.drop_last().take(i) =~= s.take(i));
        lemma_digits_val_prefix(s.drop_last(), i);
        lemma_digits_val_nonneg(s.drop_last());
    }
}

/// A one-character string for the decimal digit `d`.
fn digit_str(d: u64) -> (r: &'static str)
    requires
        d < 10,
    ensures
        r@.len() == 1,
        r@[0] == digit_char(d as int),
{
    if d == 0 {
        proof {
            reveal_strlit("0");
        }
        "0"
    } else if d == 1 {
        proof {
            reveal_strlit("1");
        }
        "1"
    } else if d == 2 {
        proof {
            reveal_strlit("2");
        }
        "2"
    } else if d == 3 {
        proof {
            reveal_strlit("3");
        }
        "3"
    } else if d == 4 {
        proof {
            reveal_strlit("4");
        }
        "4"
    } else if d == 5 {
        proof {
            reveal_strlit("5");
        }
        "5"
    } else if d == 6 {
        proof {
            reveal_strlit("6");
        }
        "6"
    } else if d == 7 {
        proof {
            reveal_strlit("7");
        }
        "7"
    } else if d == 8 {
        proof {
            reveal_strlit("8");
        }
        "8"
    } else {
        proof {
            reveal_strlit("9");
        }
        "9"
    }
}

/// Formats a tick count as decimal text with exactly four fractional
/// digits.  This direction is exact: no rounding is involved.
pub fn to_decimal(t: u64) -> (r: String)
    ensures
        r@ == dec_str_of(t),
{
    let ip: u64 = t / 10_000;
    let fp: u64 = t % 10_000;

    // Collect the integer part's digits, least significant first.
    let mut rev: Vec<u64> = Vec::new();
    if ip == 0 {
        rev.push(0);
        proof {
            assert(rev_chars(rev@) =~= dec_digits(ip as int));
        }
    } else {
        let mut n: u64 = ip;
        while n > 0
            invariant
                forall|j: int| 0 <= j < rev@.len() ==> #[trigger] rev@[j] < 10,
                n > 0 ==> dec_digits(ip as int) =~= dec_digits(n as int) + rev_chars(rev@),
                n == 0 ==> dec_digits(ip as int) =~= rev_chars(rev@),
            decreases n,
        {
            let ghost prev_rev: Seq<u64> = rev@;
            let ghost prev_n: u64 = n;
            rev.push(n % 10);
            n = n / 10;
            proof {
                assert(rev_chars(rev@) =~= seq![digit_char(prev_n as int % 10)] + rev_chars(
                    prev_rev,
                ));
                if prev_n >= 10 {
                    assert(dec_digits(prev_n as int) == dec_digits(prev_n as int / 10).push(
                        digit_char(prev_n as int % 10),
                    ));
                    assert(dec_digits(ip as int) =~= dec_digits(n as int) + rev_chars(rev@));
                } else {
                    assert(dec_digits(prev_n as int) =~= seq![digit_char(prev_n as int)]);
                    assert(dec_digits(ip as int) =~= rev_chars(rev@));
                }
            }
        }
    }

    // Emit the digits most significant first.
    let mut out: String = String::new();
    let mut i: usize = rev.len();
    while i > 0
        invariant
            i <= rev.len(),
            forall|j: int| 0 <= j < rev@.len() ==> #[trigger] rev@[j] < 10,
            out@ =~= rev_chars(rev@).take(rev@.len() - i),
        decreases i,
    {
        i = i - 1;
        let d: u64 = rev[i];
        out.append(digit_str(d));
        proof {
            assert(out@ =~= rev_chars(rev@).take(rev@.len() - i));
        }
    }
    proof {
        assert(out@ =~= rev_chars(rev@));
    }

    proof {
        reveal_strlit(".");
    }
    out.append(".");
    out.append(digit_str(fp / 1000));
    out.append(digit_str(fp / 100 % 10));
    out.append(digit_str(fp / 10 % 10));
    out.append(digit_str(fp % 10));
    proof {
        assert(out@ =~= dec_str_of(t));
    }
    out
}

/// Parses decimal text into a tick count, rounding to the nearest tick
/// (half away from zero) and rejecting malformed text, any sign, and any
/// value above [`MAX_TICKS`].
pub fn to_ticks(s: &str) -> (r: Option<u64>)
    ensures
        r == spec_to_ticks(s@),
{
    let n: usize = s.unicode_len();

    // Scan: find the dot (if any) and reject any other non-digit.
    let mut dot: Option<usize> = None;
    let mut i: usize = 0;
    while i < n
        invariant
            n == s@.len(),
            i <= n,
            match dot {
                Some(d) => {
                    &&& d < i
                    &&& s@[d as int] == '.'
                    &&& forall|j: int| 0 <= j < d ==> s@[j] != '.'
                    &&& forall|j: int| 0 <= j < i && j != d ==> is_digit(#[trigger] s@[j])
                },
                None => forall|j: int|
                    0 <= j < i ==> is_digit(#[trigger] s@[j]) && s@[j] != '.',
            },
        decreases n - i,
    {
        let c: char = s.get_char(i);
        let u: u32 = c as u32;
        if u == 46 {
            // '.'
            match dot {
                Some(d) => {
                    // A second dot sits in the fractional part, which is
                    // therefore not all digits.
                    proof {
                        lemma_first_dot_at(s@, d as int);
                        assert(frac_part(s@)[i - d - 1] == s@[i as int]);
                        assert(!is_digit(s@[i as int]));
                    }
                    return None;
                },
                None => {
                    dot = Some(i);
                },
            }
        } else if 48 <= u && u <= 57 {
            // a digit
        } else {
            // Neither a digit nor a dot: the string is malformed.
            proof {
                lemma_first_dot(s@);
                match dot {
                    Some(d) => {
                        lemma_first_dot_at(s@, d as int);
                        assert(frac_part(s@)[i - d - 1] == s@[i as int]);
                    },
                    None => {
                        if first_dot(s@) <= i {
                            assert(s@[first_dot(s@)] == '.');
                            assert(false);
                        }
                        assert(int_part(s@)[i as int] == s@[i as int]);
                    },
                }
            }
            return None;
        }
        i = i + 1;
    }

    proof {
        match dot {
            Some(d) => lemma_first_dot_at(s@, d as int),
            None => lemma_first_dot_none(s@),
        }
    }

    let int_len: usize = match dot {
        Some(d) => d,
        None => n,
    };
    let frac_start: usize = match dot {
        Some(d) => d + 1,
        None => n,
    };
    let ghost ip: Seq<char> = int_part(s@);
    let ghost fp: Seq<char> = frac_part(s@);
    proof {
        assert(ip =~= s@.take(int_len as int));
        assert(fp =~= s@.skip(frac_start as int));
        assert(all_digits(ip));
        assert(all_digits(fp));
    }

    // At least one digit somewhere.
    if n == 0 || (int_len == 0 && frac_start >= n) {
        proof {
            assert(ip.len() + fp.len() == 0);
        }
        return None;
    }

    // Integer part, with an early exit once the cap is exceeded.
    let mut acc: u64 = 0;
    let mut k: usize = 0;
    while k < int_len
        invariant
            n == s@.len(),
            int_len <= n,
            ip == int_part(s@),
            fp == frac_part(s@),
            ip =~= s@.take(int_len as int),
            all_digits(ip),
            all_digits(fp),
            k <= int_len,
            acc <= MAX_TICKS,
            acc == digits_val(ip.take(k as int)),
        decreases int_len - k,
    {
        let c: char = s.get_char(k);
        proof {
            assert(ip[k as int] == s@[k as int]);
            assert(is_digit(ip[k as int]));
            assert(48 <= c as u32 && c as u32 <= 57);
        }
        let d: u64 = ((c as u32) - 48) as u64;
        let next: u64 = acc * 10 + d;
        proof {
            assert(ip.take(k + 1).drop_last() =~= ip.take(k as int));
            assert(ip.take(k + 1).last() == c);
            assert(digit_val(c) == d);
        }
        if next > MAX_TICKS {
            proof {
                assert(digits_val(ip.take(k + 1)) == digits_val(ip.take(k as int)) * 10
                    + digit_val(c));
                lemma_digits_val_prefix(ip, k + 1);
                lemma_frac_ticks_nonneg(fp);
                assert(digits_val(ip) > MAX_TICKS);
                assert(ticks_value(s@) == digits_val(ip) * 10000 + frac_ticks(fp));
                assert(digits_val(ip) * 10000 >= digits_val(ip) * 1) by (nonlinear_arith)
                    requires
                        digits_val(ip) >= 0,
                ;
                assert(ticks_value(s@) > MAX_TICKS);
            }
            return None;
        }
        acc = next;
        k = k + 1;
    }
    proof {
        assert(ip.take(int_len as int) =~= ip);
    }

    // Fractional part, padded or truncated to four digits.
    let mut fval: u64 = 0;
    let mut k4: usize = 0;
    while k4 < 4
        invariant
            n == s@.len(),
            frac_start <= n,
            fp == frac_part(s@),
            fp =~= s@.skip(frac_start as int),
            all_digits(fp),
            k4 <= 4,
            fval < pow10(k4 as int),
            fval == digits_val(pad4(fp).take(k4 as int)),
        decreases 4 - k4,
    {
        let d: u64 = if k4 < n - frac_start {
            let idx: usize = frac_start + k4;
            let c: char = s.get_char(idx);
            proof {
                assert(fp[k4 as int] == s@[idx as int]);
                assert(is_digit(fp[k4 as int]));
                assert(48 <= c as u32 && c as u32 <= 57);
            }
            ((c as u32) - 48) as u64
        } else {
            0
        };
        proof {
            assert(pad4(fp).take(k4 + 1).drop_last() =~= pad4(fp).take(k4 as int));
            assert(pad4(fp).take(k4 + 1).last() == pad4(fp)[k4 as int]);
            if k4 < fp.len() {
                assert(pad4(fp)[k4 as int] == fp[k4 as int]);
                assert(fp[k4 as int] == s@[frac_start + k4]);
            } else {
                assert(pad4(fp)[k4 as int] == '0');
            }
        }
        proof {
            assert(pow10(0) == 1);
            assert(pow10(1) == 10);
            assert(pow10(2) == 100);
            assert(pow10(3) == 1000);
            assert(pow10(4) == 10000);
            assert(d <= 9);
        }
        fval = fval * 10 + d;
        k4 = k4 + 1;
    }
    proof {
        assert(pad4(fp).take(4) =~= pad4(fp));
        assert(pow10(0) == 1);
        assert(pow10(1) == 10);
        assert(pow10(2) == 100);
        assert(pow10(3) == 1000);
        assert(pow10(4) == 10000);
    }

    // Round half away from zero on the fifth fractional digit.
    if n - frac_start > 4 {
        let idx5: usize = frac_start + 4;
        let c5: char = s.get_char(idx5);
        proof {
            assert(fp[4] == s@[idx5 as int]);
            assert(is_digit(fp[4]));
        }
        if (c5 as u32) >= 53 {
            fval = fval + 1;
        }
    }
    proof {
        assert(fval == frac_ticks(fp));
    }

    let total: u64 = acc * 10_000 + fval;
    proof {
        assert(total == ticks_value(s@));
    }
    if total > MAX_TICKS {
        None
    } else {
        Some(total)
    }
}

proof fn lemma_frac_ticks_nonneg(f: Seq<char>)
    requires
        all_digits(f),
    ensures
        frac_ticks(f) >= 0,
{
    assert forall|i: int| 0 <= i < pad4(f).len() implies is_digit(#[trigger] pad4(f)[i]) by {
        if f.len() >= 4 {
            assert(pad4(f)[i] == f[i]);
        } else if i < f.len() {
            assert(pad4(f)[i] == f[i]);
        } else {
            assert(pad4(f)[i] == '0');
        }
    }
    lemma_digits_val_nonneg(pad4(f));
}

} // verus!
