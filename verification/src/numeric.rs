//! Parsing of decimal feed strings into fixed-point integers.
//!
//! Feed values such as `"123.456"` become integers carrying a fixed number of
//! decimal places (`fd`): `"1.5"` with `fd == 8` is `150_000_000`.  A string
//! is accepted exactly when it is a non-empty digit run, optionally followed
//! by a dot and a further non-empty digit run; fractional digits beyond `fd`
//! are truncated.  Anything else — or a value that does not fit the result
//! type — is rejected.

use vstd::prelude::*;

verus! {

/// `a - b`, floored at zero.
pub open spec fn sat_sub(a: int, b: int) -> int {
    if a >= b {
        a - b
    } else {
        0
    }
}

/// `a - b` on machine words, floored at zero.
pub fn sat_sub_u64(a: u64, b: u64) -> (r: u64)
    ensures
        r == sat_sub(a as int, b as int),
{
    if a >= b {
        a - b
    } else {
        0
    }
}

pub open spec fn is_digit(c: char) -> bool {
    48 <= c as u32 && c as u32 <= 57
}

pub open spec fn digit_of(c: char) -> int {
    c as u32 - 48
}

pub open spec fn all_digits(s: Seq<char>) -> bool {
    forall|i: int| 0 <= i < s.len() ==> is_digit(#[trigger] s[i])
}

/// Value of a digit run read in base ten.
pub open spec fn digits_val(s: Seq<char>) -> int
    decreases s.len(),
{
    if s.len() == 0 {
        0
    } else {
        digits_val(s.drop_last()) * 10 + digit_of(s.last())
    }
}

pub open spec fn pow10(n: nat) -> int
    decreases n,
{
    if n == 0 {
        1
    } else {
        10 * pow10((n - 1) as nat)
    }
}

/// Index of the first `'.'`, or the length if there is none.
pub open spec fn first_dot(s: Seq<char>) -> int
    decreases s.len(),
{
    if s.len() == 0 {
        0
    } else if s[0] as u32 == 46 {
        0
    } else {
        1 + first_dot(s.drop_first())
    }
}

/// A non-empty digit run, optionally followed by `'.'` and a non-empty digit
/// run.
pub open spec fn dec_shape_ok(s: Seq<char>) -> bool {
    let d = first_dot(s);
    &&& d >= 1
    &&& all_digits(s.take(d))
    &&& d < s.len() ==> d + 1 < s.len() && all_digits(s.skip(d + 1))
}

/// The fractional digit run scaled to exactly `fd` decimal places; digits
/// beyond `fd` are truncated.
pub open spec fn frac_scaled(frac: Seq<char>, fd: nat) -> int {
    if frac.len() >= fd {
        digits_val(frac.take(fd as int))
    } else {
        digits_val(frac) * pow10((fd - frac.len()) as nat)
    }
}

/// The value of a well-shaped decimal string at `fd` decimal places.
pub open spec fn dec_val(s: Seq<char>, fd: nat) -> int {
    let d = first_dot(s);
    if d == s.len() {
        digits_val(s) * pow10(fd)
    } else {
        digits_val(s.take(d)) * pow10(fd) + frac_scaled(s.skip(d + 1), fd)
    }
}

/// Shape of an optionally negated decimal string.
pub open spec fn sdec_shape_ok(s: Seq<char>) -> bool {
    if s.len() > 0 && s[0] as u32 == 45 {
        dec_shape_ok(s.drop_first())
    } else {
        dec_shape_ok(s)
    }
}

/// Value of an optionally negated decimal string at `fd` decimal places.
pub open spec fn sdec_val(s: Seq<char>, fd: nat) -> int {
    if s.len() > 0 && s[0] as u32 == 45 {
        -dec_val(s.drop_first(), fd)
    } else {
        dec_val(s, fd)
    }
}

pub proof fn lemma_pow10_pos(n: nat)
    ensures
        pow10(n) >= 1,
    decreases n,
{
    if n > 0 {
        lemma_pow10_pos((n - 1) as nat);
    }
}

pub proof fn lemma_pow10_monotone(a: nat, b: nat)
    requires
        a <= b,
    ensures
        pow10(a) <= pow10(b),
    decreases b,
{
    if a < b {
        lemma_pow10_monotone(a, (b - 1) as nat);
        lemma_pow10_pos((b - 1) as nat);
    }
}

pub proof fn lemma_pow10_add(a: nat, b: nat)
    ensures
        pow10(a) * pow10(b) == pow10(a + b),
    decreases a,
{
    if a == 0 {
    } else {
        lemma_pow10_add((a - 1) as nat, b);
        assert(pow10(a) == 10 * pow10((a - 1) as nat));
        assert(pow10(a) * pow10(b) == 10 * (pow10((a - 1) as nat) * pow10(b)))
            by (nonlinear_arith)
            requires
                pow10(a) == 10 * pow10((a - 1) as nat),
        ;
    }
}

pub proof fn lemma_digits_val_bounds(s: Seq<char>)
    requires
        all_digits(s),
    ensures
        0 <= digits_val(s),
        digits_val(s) < pow10(s.len()),
    decreases s.len(),
{
    if s.len() > 0 {
        assert(all_digits(s.drop_last()));
        lemma_digits_val_bounds(s.drop_last());
    }
}

/// Appending one digit multiplies by ten and adds it.
pub proof fn lemma_digits_val_step(s: Seq<char>, i: int)
    requires
        0 <= i < s.len(),
    ensures
        digits_val(s.take(i + 1)) == digits_val(s.take(i)) * 10 + digit_of(s[i]),
{
    assert(s.take(i + 1).drop_last() =~= s.take(i));
    assert(s.take(i + 1).last() == s[i]);
}

/// A digit run is worth at least any of its prefixes.
pub proof fn lemma_digits_val_prefix(s: Seq<char>, i: int)
    requires
        all_digits(s),
        0 <= i <= s.len(),
    ensures
        digits_val(s.take(i)) <= digits_val(s),
    decreases s.len() - i,
{
    if i < s.len() {
        lemma_digits_val_step(s, i);
        assert(all_digits(s.take(i)));
        lemma_digits_val_bounds(s.take(i));
        lemma_digits_val_prefix(s, i + 1);
    } else {
        assert(s.take(i) =~= s);
    }
}

/// The first dot lies within the string.
pub proof fn lemma_first_dot_le(s: Seq<char>)
    ensures
        0 <= first_dot(s) <= s.len(),
    decreases s.len(),
{
    if s.len() > 0 && s[0] as u32 != 46 {
        lemma_first_dot_le(s.drop_first());
    }
}

/// Characterises `first_dot` by its defining properties.
pub proof fn lemma_first_dot_is(s: Seq<char>, i: int)
    requires
        0 <= i <= s.len(),
        forall|j: int| 0 <= j < i ==> s[j] as u32 != 46,
        i < s.len() ==> s[i] as u32 == 46,
    ensures
        first_dot(s) == i,
    decreases i,
{
    if s.len() == 0 {
    } else if i == 0 {
    } else {
        lemma_first_dot_is(s.drop_first(), i - 1);
    }
}

/// When the integer part alone exceeds a bound, so does the whole value.
proof fn lemma_intpart_dominates(s: Seq<char>, fd: nat, bound: int)
    requires
        dec_shape_ok(s),
        digits_val(s.take(first_dot(s))) > bound,
        bound >= 0,
    ensures
        dec_val(s, fd) > bound,
{
    let d = first_dot(s);
    lemma_first_dot_le(s);
    let iv = digits_val(s.take(d));
    lemma_pow10_pos(fd);
    assert(iv * pow10(fd) >= iv) by (nonlinear_arith)
        requires
            iv > 0,
            pow10(fd) >= 1,
    ;
    if d == s.len() {
        assert(s.take(d) =~= s);
    } else {
        let frac = s.skip(d + 1);
        assert(frac_scaled(frac, fd) >= 0) by {
            if frac.len() >= fd {
                assert forall|i: int| 0 <= i < frac.take(fd as int).len() implies is_digit(
                    #[trigger] frac.take(fd as int)[i],
                ) by {
                    assert(frac.take(fd as int)[i] == frac[i]);
                }
                lemma_digits_val_bounds(frac.take(fd as int));
            } else {
                lemma_digits_val_bounds(frac);
                lemma_pow10_pos((fd - frac.len()) as nat);
                assert(digits_val(frac) * pow10((fd - frac.len()) as nat) >= 0)
                    by (nonlinear_arith)
                    requires
                        digits_val(frac) >= 0,
                        pow10((fd - frac.len()) as nat) >= 1,
                ;
            }
        }
    }
}

/// Powers of ten up to `10^8`, for scaling parsed fractions.
pub fn pow10_u64(n: usize) -> (r: u64)
    requires
        n <= 8,
    ensures
        r == pow10(n as nat),
{
    proof {
        reveal_with_fuel(pow10, 9);
    }
    let mut r: u64 = 1;
    let mut i: usize = 0;
    while i < n
        invariant
            i <= n <= 8,
            r == pow10(i as nat),
        decreases n - i,
    {
        proof {
            lemma_pow10_monotone((i + 1) as nat, 8);
            reveal_with_fuel(pow10, 9);
        }
        r = r * 10;
        i = i + 1;
    }
    r
}

/// Parses the decimal string found from character `st` onward into a
/// fixed-point integer with `fd` decimal places.
#[verifier::rlimit(100)]
fn parse_from(s: &str, st: usize, fd: usize) -> (r: Option<u64>)
    requires
        fd <= 8,
        st <= s@.len(),
    ensures
        match r {
            Some(v) => dec_shape_ok(s@.skip(st as int)) && v == dec_val(
                s@.skip(st as int),
                fd as nat,
            ),
            None => !dec_shape_ok(s@.skip(st as int)) || dec_val(s@.skip(st as int), fd as nat)
                > u64::MAX,
        },
{
    let ghost t = s@.skip(st as int);
    let n = s.unicode_len();
    let len = n - st;
    // Locate the first dot.
    let mut d: usize = 0;
    while d < len && (s.get_char(st + d) as u32) != 46
        invariant
            0 <= d <= len,
            st + len == n == s@.len(),
            t == s@.skip(st as int),
            forall|j: int| 0 <= j < d ==> t[j] as u32 != 46,
        decreases len - d,
    {
        proof {
            assert(t[d as int] == s@[st + d]);
        }
        d = d + 1;
    }
    proof {
        if d < len {
            assert(t[d as int] == s@[st + d]);
        }
        lemma_first_dot_is(t, d as int);
    }
    if d == 0 {
        return None;
    }
    if d < len && d + 1 == len {
        return None;
    }
    // Integer part: characters st .. st + d.
    let mut acc: u128 = 0;
    let mut i: usize = 0;
    while i < d
        invariant
            0 <= i <= d <= len,
            st + len == n == s@.len(),
            t == s@.skip(st as int),
            first_dot(t) == d,
            1 <= d,
            d < len ==> d + 1 < len,
            acc == digits_val(t.take(i as int)),
            acc <= u64::MAX,
            all_digits(t.take(i as int)),
            fd <= 8,
        decreases d - i,
    {
        let c = s.get_char(st + i) as u32;
        proof {
            assert(t[i as int] == s@[st + i]);
        }
        if c < 48 || c > 57 {
            proof {
                assert(t.take(d as int)[i as int] == t[i as int]);
                assert(!is_digit(t[i as int]));
            }
            return None;
        }
        proof {
            lemma_digits_val_step(t, i as int);
        }
        acc = acc * 10 + ((c - 48) as u128);
        i = i + 1;
        if acc > u64::MAX as u128 {
            proof {
                if dec_shape_ok(t) {
                    assert(t.take(d as int).take(i as int) =~= t.take(i as int));
                    lemma_digits_val_prefix(t.take(d as int), i as int);
                    lemma_intpart_dominates(t, fd as nat, u64::MAX as int);
                }
            }
            return None;
        }
    }
    // Fractional part, if any: first `fd` digits carry value, the rest only
    // need to be digits.
    let mut f: u64 = 0;
    let ghost mut fval: int = 0int;
    if d < len {
        let flen = len - d - 1;
        let m = if flen < fd {
            flen
        } else {
            fd
        };
        let ghost frac = t.skip(d + 1);
        let mut j: usize = 0;
        while j < m
            invariant
                0 <= j <= m <= fd <= 8,
                m <= flen,
                st + len == n == s@.len(),
                d + 1 + flen == len,
                t == s@.skip(st as int),
                frac == t.skip(d + 1),
                first_dot(t) == d,
                f == digits_val(frac.take(j as int)),
                all_digits(frac.take(j as int)),
                f < pow10(j as nat),
            decreases m - j,
        {
            let c = s.get_char(st + d + 1 + j) as u32;
            proof {
                assert(frac[j as int] == t[d + 1 + j]);
                assert(t[d + 1 + j] == s@[st + d + 1 + j]);
            }
            if c < 48 || c > 57 {
                proof {
                    assert(frac[j as int] == t[d + 1 + j]);
                    assert(!is_digit(frac[j as int]));
                }
                return None;
            }
            proof {
                lemma_digits_val_step(frac, j as int);
                reveal_with_fuel(pow10, 9);
                lemma_pow10_monotone((j + 1) as nat, 8nat);
            }
            f = f * 10 + ((c - 48) as u64);
            j = j + 1;
        }
        // Validate the remaining fractional digits.
        let mut k: usize = m;
        while k < flen
            invariant
                m <= k <= flen,
                st + len == n == s@.len(),
                d + 1 + flen == len,
                t == s@.skip(st as int),
                frac == t.skip(d + 1),
                first_dot(t) == d,
                forall|q: int| m <= q < k ==> is_digit(#[trigger] frac[q]),
            decreases flen - k,
        {
            let c = s.get_char(st + d + 1 + k) as u32;
            proof {
                assert(frac[k as int] == t[d + 1 + k]);
                assert(t[d + 1 + k] == s@[st + d + 1 + k]);
            }
            if c < 48 || c > 57 {
                proof {
                    assert(frac[k as int] == t[d + 1 + k]);
                    assert(!is_digit(frac[k as int]));
                }
                return None;
            }
            k = k + 1;
        }
        proof {
            assert(all_digits(frac)) by {
                assert(forall|q: int| 0 <= q < m ==> is_digit(#[trigger] frac[q])) by {
                    assert(forall|q: int|
                        0 <= q < m ==> frac.take(m as int)[q] == #[trigger] frac[q]);
                }
            }
            if flen >= fd {
                assert(m == fd);
                assert(fval == 0int);
            }
        }
        if m < fd {
            proof {
                assert(frac.take(m as int) =~= frac);
                lemma_digits_val_bounds(frac);
                lemma_pow10_add((fd - m) as nat, m as nat);
                lemma_pow10_pos((fd - m) as nat);
                assert(digits_val(frac) * pow10((fd - m) as nat) < pow10(m as nat) * pow10(
                    (fd - m) as nat,
                )) by (nonlinear_arith)
                    requires
                        digits_val(frac) < pow10(m as nat),
                        digits_val(frac) >= 0,
                        pow10((fd - m) as nat) >= 1,
                ;
                reveal_with_fuel(pow10, 9);
                lemma_pow10_monotone(fd as nat, 8nat);
                lemma_pow10_add(m as nat, (fd - m) as nat);
                assert(f == digits_val(frac));
                assert(pow10(m as nat) * pow10((fd - m) as nat) == pow10(fd as nat));
                assert(f * pow10((fd - m) as nat) < pow10(fd as nat));
                assert(pow10(fd as nat) <= 100_000_000);
            }
            f = f * pow10_u64(fd - m);
            proof {
                fval = frac_scaled(frac, fd as nat);
                assert(f == fval);
            }
        } else {
            proof {
                assert(frac.take(fd as int) =~= frac.take(m as int));
                fval = frac_scaled(frac, fd as nat);
                assert(f == fval);
            }
        }
        proof {
            reveal_with_fuel(pow10, 9);
            lemma_pow10_monotone(fd as nat, 8nat);
            assert(fval < pow10(fd as nat)) by {
                if frac.len() >= fd {
                    assert(all_digits(frac.take(fd as int)));
                    lemma_digits_val_bounds(frac.take(fd as int));
                }
            }
        }
    }
    let scale = pow10_u64(fd);
    proof {
        reveal_with_fuel(pow10, 9);
        lemma_pow10_monotone(fd as nat, 8nat);
        assert(scale <= 100_000_000u64);
        assert(acc * (scale as u128) <= (u64::MAX as u128) * 100_000_000u128)
            by (nonlinear_arith)
            requires
                acc <= u64::MAX as u128,
                scale as u128 <= 100_000_000u128,
        ;
    }
    let vi: u128 = acc * (scale as u128) + (f as u128);
    proof {
        if d < len {
            assert(dec_val(t, fd as nat) == digits_val(t.take(d as int)) * pow10(fd as nat)
                + fval);
            assert(f == fval);
        } else {
            assert(t.take(d as int) =~= t);
            assert(f == 0);
        }
        assert(dec_shape_ok(t));
    }
    if vi > u64::MAX as u128 {
        None
    } else {
        Some(vi as u64)
    }
}

/// Parses a non-negative decimal string into a fixed-point integer with `fd`
/// decimal places, rejecting malformed strings and values over `u64::MAX`.
pub fn parse_fixed_u64(s: &str, fd: usize) -> (r: Option<u64>)
    requires
        fd <= 8,
    ensures
        match r {
            Some(v) => dec_shape_ok(s@) && v == dec_val(s@, fd as nat),
            None => !dec_shape_ok(s@) || dec_val(s@, fd as nat) > u64::MAX,
        },
{
    proof {
        assert(s@.skip(0) =~= s@);
    }
    parse_from(s, 0, fd)
}

/// Parses an optionally negated decimal string into a fixed-point integer
/// with `fd` decimal places; magnitudes over `i64::MAX` are rejected.
pub fn parse_fixed_i64(s: &str, fd: usize) -> (r: Option<i64>)
    requires
        fd <= 8,
    ensures
        match r {
            Some(v) => sdec_shape_ok(s@) && v == sdec_val(s@, fd as nat) && -i64::MAX <= v,
            None => !sdec_shape_ok(s@) || sdec_val(s@, fd as nat) > i64::MAX || sdec_val(
                s@,
                fd as nat,
            ) < -i64::MAX,
        },
{
    let n = s.unicode_len();
    if n > 0 && (s.get_char(0) as u32) == 45 {
        proof {
            assert(s@[0] as u32 == 45);
        }
        match parse_from(s, 1, fd) {
            Some(v) => {
                if v <= i64::MAX as u64 {
                    proof {
                        assert(s@.skip(1) =~= s@.drop_first());
                    }
                    Some(-(v as i64))
                } else {
                    proof {
                        assert(s@.skip(1) =~= s@.drop_first());
                    }
                    None
                }
            },
            None => {
                proof {
                    assert(s@.skip(1) =~= s@.drop_first());
                }
                None
            },
        }
    } else {
        proof {
            if s@.len() > 0 {
                assert(s@[0] as u32 != 45);
            }
        }
        match parse_from(s, 0, fd) {
            Some(v) => {
                proof {
                    assert(s@.skip(0) =~= s@);
                }
                if v <= i64::MAX as u64 {
                    Some(v as i64)
                } else {
                    None
                }
            },
            None => {
                proof {
                    assert(s@.skip(0) =~= s@);
                }
                None
            },
        }
    }
}


/// A decimal string this library accepts whose value fits a `u64`.
pub open spec fn parse_ok_u64(s: Seq<char>, fd: nat) -> bool {
    dec_shape_ok(s) && dec_val(s, fd) <= u64::MAX
}

/// The accepted value, or zero for a rejected string.
pub open spec fn parse_val_u64(s: Seq<char>, fd: nat) -> int {
    if parse_ok_u64(s, fd) {
        dec_val(s, fd)
    } else {
        0
    }
}

/// An optionally negated decimal string whose magnitude fits an `i64`.
pub open spec fn parse_ok_i64(s: Seq<char>, fd: nat) -> bool {
    sdec_shape_ok(s) && -i64::MAX <= sdec_val(s, fd) <= i64::MAX
}

/// The accepted value, or zero for a rejected string.
pub open spec fn parse_val_i64(s: Seq<char>, fd: nat) -> int {
    if parse_ok_i64(s, fd) {
        sdec_val(s, fd)
    } else {
        0
    }
}

/// Parses at `fd` decimal places, treating rejection as zero.
pub fn parse_u64_or_zero(s: &str, fd: usize) -> (r: u64)
    requires
        fd <= 8,
    ensures
        r == parse_val_u64(s@, fd as nat),
{
    match parse_fixed_u64(s, fd) {
        Some(v) => v,
        None => 0,
    }
}

/// Parses at `fd` decimal places, treating rejection as zero.
pub fn parse_i64_or_zero(s: &str, fd: usize) -> (r: i64)
    requires
        fd <= 8,
    ensures
        r == parse_val_i64(s@, fd as nat),
{
    match parse_fixed_i64(s, fd) {
        Some(v) => v,
        None => 0,
    }
}


/// `a * b`, capped at the machine maximum.
pub open spec fn sat_mul(a: int, b: int) -> int {
    if a * b > u64::MAX {
        u64::MAX as int
    } else {
        a * b
    }
}

/// `a + b`, capped at the machine maximum.
pub open spec fn sat_add(a: int, b: int) -> int {
    if a + b > u64::MAX {
        u64::MAX as int
    } else {
        a + b
    }
}

/// Saturating multiplication on machine words.
pub fn sat_mul_u64(a: u64, b: u64) -> (r: u64)
    ensures
        r == sat_mul(a as int, b as int),
{
    match a.checked_mul(b) {
        Some(v) => v,
        None => u64::MAX,
    }
}

/// Saturating addition on machine words.
pub fn sat_add_u64(a: u64, b: u64) -> (r: u64)
    ensures
        r == sat_add(a as int, b as int),
{
    match a.checked_add(b) {
        Some(v) => v,
        None => u64::MAX,
    }
}

} // verus!
