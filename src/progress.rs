use vstd::prelude::*;
use crate::text::{has_sub, contains_text};

verus! {

/// Unicode `White_Space`, the separator of words in an installer line.
pub open spec fn is_space(c: char) -> bool {
    let u = c as u32;
    (9 <= u <= 13) || u == 32 || u == 0x85 || u == 0xA0 || u == 0x1680 || (0x2000 <= u
        <= 0x200A) || u == 0x2028 || u == 0x2029 || u == 0x202F || u == 0x205F || u == 0x3000
}

pub open spec fn is_digit(c: char) -> bool {
    '0' <= c <= '9'
}

/// Index one past the word that starts at `i`.
pub open spec fn word_end(s: Seq<char>, i: int) -> int
    decreases s.len() - i,
{
    if i < 0 || i >= s.len() || is_space(s[i]) {
        i
    } else {
        word_end(s, i + 1)
    }
}

/// A word with every trailing `%` removed.
pub open spec fn trim_pct(w: Seq<char>) -> Seq<char>
    decreases w.len(),
{
    if w.len() > 0 && w.last() == '%' {
        trim_pct(w.drop_last())
    } else {
        w
    }
}

/// Index of the first non-digit at or after `i`.
pub open spec fn digits_end(t: Seq<char>, i: int) -> int
    decreases t.len() - i,
{
    if i < 0 || i >= t.len() || !is_digit(t[i]) {
        i
    } else {
        digits_end(t, i + 1)
    }
}

/// Decimal value of a run of digits.
pub open spec fn digits_value(d: Seq<char>) -> nat
    decreases d.len(),
{
    if d.len() == 0 {
        0
    } else {
        digits_value(d.drop_last()) * 10 + (d.last() as nat - '0' as nat) as nat
    }
}

/// Length of a leading `+` or `-`.
pub open spec fn sign_len(t: Seq<char>) -> int {
    if t.len() > 0 && (t[0] == '+' || t[0] == '-') {
        1
    } else {
        0
    }
}

/// A numeral without its sign.
pub open spec fn body_of(t: Seq<char>) -> Seq<char> {
    t.subrange(sign_len(t), t.len() as int)
}

/// `c` is the lower-case letter `lower` in either case.
pub open spec fn same_letter(c: char, lower: char) -> bool {
    c == lower || c as u32 + 32 == lower as u32
}

/// `b` spells the lower-case word `w`, ignoring case.
pub open spec fn is_word_ci(b: Seq<char>, w: Seq<char>) -> bool {
    b.len() == w.len() && forall|i: int| 0 <= i < b.len() ==> same_letter(#[trigger] b[i], w[i])
}

pub open spec fn is_nan_word(b: Seq<char>) -> bool {
    is_word_ci(b, "nan"@)
}

pub open spec fn is_inf_word(b: Seq<char>) -> bool {
    is_word_ci(b, "inf"@) || is_word_ci(b, "infinity"@)
}

/// End of the digits before the point.
pub open spec fn int_end(b: Seq<char>) -> int {
    digits_end(b, 0)
}

pub open spec fn has_point(b: Seq<char>) -> bool {
    int_end(b) < b.len() && b[int_end(b)] == '.'
}

/// Start of the digits after the point.
pub open spec fn frac_start(b: Seq<char>) -> int {
    if has_point(b) {
        int_end(b) + 1
    } else {
        int_end(b)
    }
}

/// End of the digits after the point.
pub open spec fn frac_end(b: Seq<char>) -> int {
    digits_end(b, frac_start(b))
}

/// Start of the exponent's digits, past the `e` and its sign.
pub open spec fn exp_digits_start(b: Seq<char>) -> int {
    let q = frac_end(b) + 1;
    if q < b.len() && (b[q] == '+' || b[q] == '-') {
        q + 1
    } else {
        q
    }
}

/// A decimal number: digits, optionally a point and digits (at least one
/// digit in all), then optionally `e` or `E`, a sign and at least one digit.
pub open spec fn is_decimal(b: Seq<char>) -> bool {
    &&& (int_end(b) > 0 || frac_end(b) > frac_start(b))
    &&& (frac_end(b) == b.len() || ((b[frac_end(b)] == 'e' || b[frac_end(b)] == 'E')
        && exp_digits_start(b) < b.len() && digits_end(b, exp_digits_start(b)) == b.len()))
}

/// All digits of a decimal number, those before the point and those after.
pub open spec fn mantissa(b: Seq<char>) -> Seq<char> {
    b.subrange(0, int_end(b)) + b.subrange(frac_start(b), frac_end(b))
}

/// The exponent of a decimal number (0 without one).
pub open spec fn exponent(b: Seq<char>) -> int {
    if frac_end(b) >= b.len() {
        0
    } else {
        let v = digits_value(b.subrange(exp_digits_start(b), b.len() as int)) as int;
        if b[frac_end(b) + 1] == '-' {
            -v
        } else {
            v
        }
    }
}

/// Value of the digit at `j`, zero past either end.
pub open spec fn digit_at(s: Seq<char>, j: int) -> nat {
    if 0 <= j < s.len() {
        (s[j] as nat - '0' as nat) as nat
    } else {
        0
    }
}

/// The number written by the first `p` digits of `s`, zeros following its end.
pub open spec fn prefix_value(s: Seq<char>, p: int) -> nat
    decreases p,
{
    if p <= 0 {
        0
    } else {
        prefix_value(s, p - 1) * 10 + digit_at(s, p - 1)
    }
}

/// `x` saturated at 255.
pub open spec fn cap255(x: nat) -> u8 {
    if x > 255 {
        255
    } else {
        x as u8
    }
}

/// A number as a float parser reads it: an optional sign, then a decimal
/// number or `inf`, `infinity` or `nan` in any case.
pub open spec fn is_numeral(t: Seq<char>) -> bool {
    let b = body_of(t);
    is_nan_word(b) || is_inf_word(b) || is_decimal(b)
}

/// `b` to the power `e`.
pub open spec fn pow_nat(b: nat, e: nat) -> nat
    decreases e,
{
    if e == 0 {
        1
    } else {
        b * pow_nat(b, (e - 1) as nat)
    }
}

/// Number of binary digits of a byte value `w`.
pub open spec fn bit_len(w: nat) -> nat {
    if w == 0 {
        0
    } else if w < 2 {
        1
    } else if w < 4 {
        2
    } else if w < 8 {
        3
    } else if w < 16 {
        4
    } else if w < 32 {
        5
    } else if w < 64 {
        6
    } else if w < 128 {
        7
    } else {
        8
    }
}

/// The `k` digits of `s` from index `p` on (zeros outside `s`) as a number.
pub open spec fn window(s: Seq<char>, p: int, k: nat) -> nat
    decreases k,
{
    if k == 0 {
        0
    } else {
        window(s, p, (k - 1) as nat) * 10 + digit_at(s, p + k - 1)
    }
}

/// Bits of an `f32` between 1 and the half step just below `w + 1`, for a
/// whole part `w < 255`: the significand has 24 bits, so numbers below
/// `w + 1` are `2^(bit_len(w) - 24)` apart and the half step is `2^-s`.
pub open spec fn half_step_bits(w: nat) -> nat {
    (25 - bit_len(w)) as nat
}

/// The digits of `s` after the point at `p`, read as a fraction, are at least
/// `1 - 2^-k`. That bound is `(10^k - 5^k) / 10^k`, which has `k` decimal
/// places, so the first `k` digits decide.
pub open spec fn fraction_reaches(s: Seq<char>, p: int, k: nat) -> bool {
    window(s, p, k) >= pow_nat(10, k) - pow_nat(5, k)
}

/// The number with digits `s` and its point at `p`, rounded to the nearest
/// `f32` (ties to even) and cast to a byte. Whole numbers up to 2^24 are
/// `f32`s, so rounding can only carry a number up to the next whole number,
/// and does so when it lies within half a step below it; a tie goes up too,
/// as the whole number's significand is even.
pub open spec fn rounded_whole(s: Seq<char>, p: int) -> u8 {
    let w = prefix_value(s, p);
    if w >= 255 {
        255
    } else if fraction_reaches(s, p, half_step_bits(w)) {
        (w + 1) as u8
    } else {
        w as u8
    }
}

/// The numeral's value as an `f32` cast to a byte: rounded to the nearest
/// `f32`, then truncated toward zero and saturated at 255; negative numbers
/// and `nan` give 0, infinity gives 255.
pub open spec fn numeral_percent(t: Seq<char>) -> u8 {
    let b = body_of(t);
    if (t.len() > 0 && t[0] == '-') || is_nan_word(b) {
        0
    } else if is_inf_word(b) {
        255
    } else {
        rounded_whole(mantissa(b), int_end(b) + exponent(b))
    }
}

/// The percentage reported by the first word at or after `i` that ends with
/// `%` and holds a numeral before its `%` signs.
pub open spec fn percent_from(s: Seq<char>, i: int) -> Option<u8>
    decreases s.len() - i via percent_from_decreases
{
    if i < 0 || i >= s.len() {
        None
    } else if is_space(s[i]) {
        percent_from(s, i + 1)
    } else {
        let e = word_end(s, i);
        let w = s.subrange(i, e);
        if w.last() == '%' && is_numeral(trim_pct(w)) {
            Some(numeral_percent(trim_pct(w)))
        } else {
            percent_from(s, e)
        }
    }
}

#[via_fn]
proof fn percent_from_decreases(s: Seq<char>, i: int) {
    if 0 <= i < s.len() && !is_space(s[i]) {
        lemma_word_end_bounds(s, i + 1);
    }
}

proof fn lemma_word_end_bounds(s: Seq<char>, i: int)
    requires
        0 <= i <= s.len(),
    ensures
        i <= word_end(s, i) <= s.len(),
        forall|j: int| i <= j < word_end(s, i) ==> !is_space(#[trigger] s[j]),
        word_end(s, i) < s.len() ==> is_space(s[word_end(s, i)]),
    decreases s.len() - i,
{
    if i < s.len() && !is_space(s[i]) {
        lemma_word_end_bounds(s, i + 1);
    }
}

/// `digits_end` is the first index from `i` on whose character is no digit.
proof fn lemma_digits_end_unique(t: Seq<char>, i: int, k: int)
    requires
        0 <= i <= k <= t.len(),
        forall|j: int| i <= j < k ==> is_digit(#[trigger] t[j]),
        k == t.len() || !is_digit(t[k]),
    ensures
        digits_end(t, i) == k,
    decreases k - i,
{
    if i < k {
        lemma_digits_end_unique(t, i + 1, k);
    }
}

/// The same for `word_end`.
proof fn lemma_word_end_unique(s: Seq<char>, i: int, k: int)
    requires
        0 <= i <= k <= s.len(),
        forall|j: int| i <= j < k ==> !is_space(#[trigger] s[j]),
        k == s.len() || is_space(s[k]),
    ensures
        word_end(s, i) == k,
    decreases k - i,
{
    if i < k {
        lemma_word_end_unique(s, i + 1, k);
    }
}

/// Position one past the last character of the word `[i, e)` that is not a
/// trailing `%`, with `trim_pct` of the word as its prefix.
fn trimmed_end(line: &str, i: usize, e: usize) -> (t: usize)
    requires
        i <= e <= line@.len(),
    ensures
        i <= t <= e,
        trim_pct(line@.subrange(i as int, e as int)) == line@.subrange(i as int, t as int),
{
    let mut t = e;
    while t > i && line.get_char(t - 1) == '%'
        invariant
            i <= t <= e <= line@.len(),
            trim_pct(line@.subrange(i as int, e as int)) == trim_pct(
                line@.subrange(i as int, t as int),
            ),
        decreases t,
    {
        assert(line@.subrange(i as int, t as int).drop_last() =~= line@.subrange(
            i as int,
            t - 1,
        ));
        t = t - 1;
    }
    t
}

/// With `p` past the end of `s` by three or more, the saturated value no
/// longer changes: it is 0 if `s` is all zeros and 255 otherwise.
proof fn lemma_tail_saturates(s: Seq<char>, p: int)
    requires
        p >= s.len() + 3,
    ensures
        prefix_value(s, s.len() as int) == 0 ==> prefix_value(s, p) == 0,
        prefix_value(s, s.len() as int) > 0 ==> prefix_value(s, p) >= 1000,
    decreases p,
{
    let n = s.len() as int;
    if p == n + 3 {
        assert(prefix_value(s, n + 1) == prefix_value(s, n) * 10);
        assert(prefix_value(s, n + 2) == prefix_value(s, n + 1) * 10);
        assert(prefix_value(s, n + 3) == prefix_value(s, n + 2) * 10);
    } else {
        lemma_tail_saturates(s, p - 1);
        assert(prefix_value(s, p) == prefix_value(s, p - 1) * 10);
    }
}

/// A scan of digits in `line` from `from` stopping at `r` gives `digits_end`
/// of the part `[s0, t)`.
proof fn lemma_scan_is_digits_end(line: Seq<char>, s0: int, t: int, from: int, r: int)
    requires
        0 <= s0 <= from <= r <= t <= line.len(),
        forall|j: int| from <= j < r ==> is_digit(#[trigger] line[j]),
        r == t || !is_digit(line[r]),
    ensures
        digits_end(line.subrange(s0, t), from - s0) == r - s0,
{
    let b = line.subrange(s0, t);
    assert forall|j: int| from - s0 <= j < r - s0 implies is_digit(#[trigger] b[j]) by {
        assert(b[j] == line[s0 + j]);
    }
    if r < t {
        assert(b[r - s0] == line[r]);
    }
    lemma_digits_end_unique(b, from - s0, r - s0);
}

/// One past the digits of `line` from `from` on, stopping at `to`.
fn scan_digits(line: &str, from: usize, to: usize) -> (r: usize)
    requires
        from <= to <= line@.len(),
    ensures
        from <= r <= to,
        forall|j: int| from <= j < r ==> is_digit(#[trigger] line@[j]),
        r == to || !is_digit(line@[r as int]),
{
    let mut k = from;
    while k < to && '0' <= line.get_char(k) && line.get_char(k) <= '9'
        invariant
            from <= k <= to <= line@.len(),
            forall|j: int| from <= j < k ==> is_digit(#[trigger] line@[j]),
        decreases to - k,
    {
        k = k + 1;
    }
    k
}

/// The value of the digits `line[from..to]`, saturated at `limit`.
fn digits_saturated(line: &str, from: usize, to: usize, limit: u128) -> (r: u128)
    requires
        from <= to <= line@.len(),
        limit as int <= u64::MAX as int + 64,
        forall|j: int| from <= j < to ==> is_digit(#[trigger] line@[j]),
    ensures
        r == (if digits_value(line@.subrange(from as int, to as int)) > limit {
            limit as int
        } else {
            digits_value(line@.subrange(from as int, to as int)) as int
        }),
{
    let mut k = from;
    let mut v: u128 = 0;
    assert(line@.subrange(from as int, from as int).len() == 0);
    while k < to
        invariant
            from <= k <= to <= line@.len(),
            limit as int <= u64::MAX as int + 64,
            forall|j: int| from <= j < to ==> is_digit(#[trigger] line@[j]),
            v == (if digits_value(line@.subrange(from as int, k as int)) > limit {
                limit as int
            } else {
                digits_value(line@.subrange(from as int, k as int)) as int
            }),
        decreases to - k,
    {
        let c = line.get_char(k);
        proof {
            assert(line@.subrange(from as int, k + 1).drop_last() =~= line@.subrange(
                from as int,
                k as int,
            ));
            assert(line@.subrange(from as int, k + 1).last() == c);
            assert(is_digit(line@[k as int]));
        }
        let d = (c as u32 - '0' as u32) as u128;
        v = v * 10 + d;
        if v > limit {
            v = limit;
        }
        k = k + 1;
    }
    v
}

/// Whether `line[from..to]` spells the lower-case word `w`, ignoring case.
fn word_ci(line: &str, from: usize, to: usize, w: &str) -> (r: bool)
    requires
        from <= to <= line@.len(),
    ensures
        r == is_word_ci(line@.subrange(from as int, to as int), w@),
{
    let ghost b = line@.subrange(from as int, to as int);
    let n = w.unicode_len();
    if to - from != n {
        return false;
    }
    let mut k: usize = 0;
    while k < n
        invariant
            b == line@.subrange(from as int, to as int),
            from <= to <= line@.len(),
            to - from == n,
            n == w@.len(),
            k <= n,
            forall|i: int| 0 <= i < k ==> same_letter(#[trigger] b[i], w@[i]),
        decreases n - k,
    {
        let c = line.get_char(from + k);
        let l = w.get_char(k);
        if !(c == l || c as u32 + 32 == l as u32) {
            assert(!same_letter(b[k as int], w@[k as int]));
            return false;
        }
        k = k + 1;
    }
    true
}

/// Reads the exponent of the decimal number `line[s0..t]`, whose digits after
/// the point end at `fe < t`: its sign and its value saturated at `limit`,
/// or `None` when what follows the digits is no exponent.
fn parse_exponent(line: &str, s0: usize, fe: usize, t: usize, limit: u128) -> (r: Option<
    (bool, u128),
>)
    requires
        s0 <= fe < t <= line@.len(),
        limit as int <= u64::MAX as int + 64,
        frac_end(line@.subrange(s0 as int, t as int)) == fe - s0,
    ensures
        ({
            let b = line@.subrange(s0 as int, t as int);
            &&& r is Some <==> ((b[frac_end(b)] == 'e' || b[frac_end(b)] == 'E')
                && exp_digits_start(b) < b.len() && digits_end(b, exp_digits_start(b)) == b.len())
            &&& r matches Some(x) ==> x.0 == (b[frac_end(b) + 1] == '-') && x.1 == (if exponent(
                b,
            ) < 0 {
                if -exponent(b) > limit {
                    limit as int
                } else {
                    -exponent(b)
                }
            } else {
                if exponent(b) > limit {
                    limit as int
                } else {
                    exponent(b)
                }
            })
        }),
{
    let ghost b = line@.subrange(s0 as int, t as int);
    let m = line.get_char(fe);
    assert(b[frac_end(b)] == m);
    if !(m == 'e' || m == 'E') {
        return None;
    }
    let mut negative = false;
    let mut ds = fe + 1;
    if ds < t {
        let sc = line.get_char(ds);
        if sc == '+' || sc == '-' {
            negative = sc == '-';
            ds = ds + 1;
        }
    }
    assert(exp_digits_start(b) == ds - s0);
    if ds >= t {
        return None;
    }
    assert(negative == (b[frac_end(b) + 1] == '-'));
    let de = scan_digits(line, ds, t);
    proof {
        lemma_scan_is_digits_end(line@, s0 as int, t as int, ds as int, de as int);
    }
    if de != t {
        return None;
    }
    let v = digits_saturated(line, ds, t, limit);
    assert(b.subrange(exp_digits_start(b), b.len() as int) =~= line@.subrange(
        ds as int,
        t as int,
    ));
    Some((negative, v))
}

/// The first `m` digits of `line[s0..ie]` followed by `line[fs..fe]` (zeros
/// past their end) as a number saturated at 255.
fn whole_part(line: &str, s0: usize, ie: usize, fs: usize, fe: usize, m: u128) -> (r: u8)
    requires
        s0 <= ie <= fs <= fe <= line@.len(),
        m <= (ie - s0) + (fe - fs) + 3,
        forall|k: int| s0 <= k < ie ==> is_digit(#[trigger] line@[k]),
        forall|k: int| fs <= k < fe ==> is_digit(#[trigger] line@[k]),
    ensures
        r == cap255(
            prefix_value(
                line@.subrange(s0 as int, ie as int) + line@.subrange(fs as int, fe as int),
                m as int,
            ),
        ),
{
    let ghost ms = line@.subrange(s0 as int, ie as int) + line@.subrange(fs as int, fe as int);
    let ilen = (ie - s0) as u128;
    let mlen = ilen + (fe - fs) as u128;
    let mut j: u128 = 0;
    let mut v: u32 = 0;
    while j < m
        invariant
            s0 <= ie <= fs <= fe <= line@.len(),
            ilen == ie - s0,
            mlen == ilen + (fe - fs),
            ms.len() == mlen,
            ms == line@.subrange(s0 as int, ie as int) + line@.subrange(fs as int, fe as int),
            forall|k: int| s0 <= k < ie ==> is_digit(#[trigger] line@[k]),
            forall|k: int| fs <= k < fe ==> is_digit(#[trigger] line@[k]),
            j <= m,
            v == (if prefix_value(ms, j as int) > 255 {
                255
            } else {
                prefix_value(ms, j as int)
            }),
        decreases m - j,
    {
        let d: u32 = if j < ilen {
            let c = line.get_char(s0 + j as usize);
            assert(ms[j as int] == line@[s0 + j]);
            c as u32 - '0' as u32
        } else if j < mlen {
            let c = line.get_char(fs + (j - ilen) as usize);
            assert(ms[j as int] == line@[fs + (j - ilen)]);
            c as u32 - '0' as u32
        } else {
            0
        };
        assert(d == digit_at(ms, j as int));
        v = v * 10 + d;
        if v > 255 {
            v = 255;
        }
        j = j + 1;
    }
    v as u8
}

proof fn lemma_window_zero(s: Seq<char>, p: int, k: nat)
    requires
        p + k <= 0 || p >= s.len(),
    ensures
        window(s, p, k) == 0,
    decreases k,
{
    if k > 0 {
        lemma_window_zero(s, p, (k - 1) as nat);
    }
}

proof fn lemma_pow_bounds(i: nat)
    requires
        i <= 25,
    ensures
        pow_nat(5, i) <= pow_nat(10, i),
        pow_nat(10, i) <= 10000000000000000000000000,
{
    lemma_pow_monotone(i, 25);
    lemma_pow_five_below_ten(i);
    lemma_pow_ten_25();
}

proof fn lemma_pow_ten_25()
    ensures
        pow_nat(10, 25) == 10000000000000000000000000,
{
    reveal_with_fuel(pow_nat, 26);
}

proof fn lemma_pow_monotone(i: nat, j: nat)
    requires
        i <= j,
    ensures
        pow_nat(10, i) <= pow_nat(10, j),
    decreases j,
{
    if i < j {
        lemma_pow_monotone(i, (j - 1) as nat);
        assert(pow_nat(10, j) == 10 * pow_nat(10, (j - 1) as nat));
    }
}

proof fn lemma_pow_five_below_ten(i: nat)
    ensures
        pow_nat(5, i) <= pow_nat(10, i),
    decreases i,
{
    if i > 0 {
        lemma_pow_five_below_ten((i - 1) as nat);
        assert(pow_nat(10, i) == 10 * pow_nat(10, (i - 1) as nat));
        assert(pow_nat(5, i) == 5 * pow_nat(5, (i - 1) as nat));
    }
}

/// The rounded value with the point at `p` is that with `p` clamped as the
/// parser clamps it.
proof fn lemma_clamped_point(ms: Seq<char>, p_true: int, p: int)
    requires
        p == p_true || (p_true <= p && p <= -30) || (p >= ms.len() + 30 && p_true >= ms.len()
            + 30),
    ensures
        rounded_whole(ms, p_true) == rounded_whole(ms, p),
{
    if p != p_true {
        if p <= -30 {
            lemma_window_zero(ms, p, 25);
            lemma_window_zero(ms, p_true, 25);
        } else {
            lemma_tail_saturates(ms, p);
            lemma_tail_saturates(ms, p_true);
            lemma_window_zero(ms, p, 25);
            lemma_window_zero(ms, p_true, 25);
        }
    }
}

/// `10^k - 5^k`.
fn round_threshold(k: u32) -> (r: u128)
    requires
        k <= 25,
    ensures
        r == pow_nat(10, k as nat) - pow_nat(5, k as nat),
{
    let mut i: u32 = 0;
    let mut t10: u128 = 1;
    let mut t5: u128 = 1;
    while i < k
        invariant
            i <= k <= 25,
            t10 == pow_nat(10, i as nat),
            t5 == pow_nat(5, i as nat),
        decreases k - i,
    {
        proof {
            lemma_pow_bounds((i + 1) as nat);
        }
        assert(pow_nat(10, (i + 1) as nat) == 10 * pow_nat(10, i as nat));
        assert(pow_nat(5, (i + 1) as nat) == 5 * pow_nat(5, i as nat));
        t10 = t10 * 10;
        t5 = t5 * 5;
        i = i + 1;
    }
    proof {
        lemma_pow_bounds(k as nat);
    }
    t10 - t5
}

/// The `k` mantissa digits from index `p` on, as `window` reads them.
fn fraction_window(line: &str, s0: usize, ie: usize, fs: usize, fe: usize, p: i128, k: u32) -> (r:
    u128)
    requires
        s0 <= ie <= fs <= fe <= line@.len(),
        k <= 25,
        -0x1_0000_0000_0000_0000_0000 <= p <= 0x1_0000_0000_0000_0000_0000,
        forall|j: int| s0 <= j < ie ==> is_digit(#[trigger] line@[j]),
        forall|j: int| fs <= j < fe ==> is_digit(#[trigger] line@[j]),
    ensures
        r == window(
            line@.subrange(s0 as int, ie as int) + line@.subrange(fs as int, fe as int),
            p as int,
            k as nat,
        ),
{
    let ghost ms = line@.subrange(s0 as int, ie as int) + line@.subrange(fs as int, fe as int);
    let ilen = (ie - s0) as i128;
    let mlen = ilen + (fe - fs) as i128;
    let mut i: u32 = 0;
    let mut f: u128 = 0;
    while i < k
        invariant
            s0 <= ie <= fs <= fe <= line@.len(),
            ilen == ie - s0,
            mlen == ilen + (fe - fs),
            ms.len() == mlen,
            ms == line@.subrange(s0 as int, ie as int) + line@.subrange(fs as int, fe as int),
            forall|j: int| s0 <= j < ie ==> is_digit(#[trigger] line@[j]),
            forall|j: int| fs <= j < fe ==> is_digit(#[trigger] line@[j]),
            -0x1_0000_0000_0000_0000_0000 <= p <= 0x1_0000_0000_0000_0000_0000,
            i <= k <= 25,
            f == window(ms, p as int, i as nat),
            f < pow_nat(10, i as nat),
        decreases k - i,
    {
        let idx: i128 = p + i as i128;
        let d: u128 = if 0 <= idx && idx < ilen {
            let c = line.get_char(s0 + idx as usize);
            assert(ms[idx as int] == line@[s0 + idx]);
            (c as u32 - '0' as u32) as u128
        } else if ilen <= idx && idx < mlen {
            let c = line.get_char(fs + (idx - ilen) as usize);
            assert(ms[idx as int] == line@[fs + (idx - ilen)]);
            (c as u32 - '0' as u32) as u128
        } else {
            0
        };
        assert(d == digit_at(ms, p + i));
        proof {
            lemma_pow_bounds((i + 1) as nat);
            assert(pow_nat(10, (i + 1) as nat) == 10 * pow_nat(10, i as nat));
        }
        f = f * 10 + d;
        i = i + 1;
    }
    f
}

/// Number of binary digits of `w`.
fn bit_length(w: u32) -> (r: u32)
    ensures
        r == bit_len(w as nat),
{
    if w == 0 {
        0
    } else if w < 2 {
        1
    } else if w < 4 {
        2
    } else if w < 8 {
        3
    } else if w < 16 {
        4
    } else if w < 32 {
        5
    } else if w < 64 {
        6
    } else if w < 128 {
        7
    } else {
        8
    }
}

/// The mantissa `line[s0..ie]` followed by `line[fs..fe]` with its point at
/// `p`, rounded to an `f32` and cast to a byte.
fn round_mantissa(line: &str, s0: usize, ie: usize, fs: usize, fe: usize, p: i128) -> (r: u8)
    requires
        s0 <= ie <= fs <= fe <= line@.len(),
        -0x1_0000_0000_0000_0000_0000 <= p <= 0x1_0000_0000_0000_0000_0000,
        forall|j: int| s0 <= j < ie ==> is_digit(#[trigger] line@[j]),
        forall|j: int| fs <= j < fe ==> is_digit(#[trigger] line@[j]),
    ensures
        r == rounded_whole(
            line@.subrange(s0 as int, ie as int) + line@.subrange(fs as int, fe as int),
            p as int,
        ),
{
    let ghost ms = line@.subrange(s0 as int, ie as int) + line@.subrange(fs as int, fe as int);
    let mlen = (ie - s0) as u128 + (fe - fs) as u128;
    let m: u128 = if p <= 0 {
        0
    } else if p as u128 > mlen + 3 {
        mlen + 3
    } else {
        p as u128
    };
    let v = whole_part(line, s0, ie, fs, fe, m);
    proof {
        if p > mlen + 3 {
            lemma_tail_saturates(ms, p as int);
            lemma_tail_saturates(ms, mlen + 3);
        }
    }
    assert(v == cap255(prefix_value(ms, p as int)));
    if v == 255 {
        return 255;
    }
    let k = 25 - bit_length(v as u32);
    let f = fraction_window(line, s0, ie, fs, fe, p, k);
    let threshold = round_threshold(k);
    if f >= threshold {
        v + 1
    } else {
        v
    }
}

/// Reads the unsigned decimal number `line[s0..t]` as a float parser would
/// and casts it to a byte, or gives `None` when it is no decimal number.
fn parse_decimal(line: &str, s0: usize, t: usize) -> (r: Option<u8>)
    requires
        s0 <= t <= line@.len(),
    ensures
        ({
            let b = line@.subrange(s0 as int, t as int);
            r == (if is_decimal(b) {
                Some(rounded_whole(mantissa(b), int_end(b) + exponent(b)))
            } else {
                None
            })
        }),
{
    let ghost b = line@.subrange(s0 as int, t as int);
    let ie = scan_digits(line, s0, t);
    proof {
        lemma_scan_is_digits_end(line@, s0 as int, t as int, s0 as int, ie as int);
    }
    let point = ie < t && line.get_char(ie) == '.';
    let fs = if point { ie + 1 } else { ie };
    assert(has_point(b) == point);
    let fe = scan_digits(line, fs, t);
    proof {
        lemma_scan_is_digits_end(line@, s0 as int, t as int, fs as int, fe as int);
    }
    assert(frac_end(b) == fe - s0);
    if !(ie > s0 || fe > fs) {
        return None;
    }
    let limit: u128 = (t - s0) as u128 + 30;
    let mut exp_negative = false;
    let mut e_val: u128 = 0;
    if fe < t {
        match parse_exponent(line, s0, fe, t, limit) {
            None => {
                return None;
            },
            Some((n, v)) => {
                exp_negative = n;
                e_val = v;
            },
        }
    }
    let ghost ms = mantissa(b);
    assert(ms =~= line@.subrange(s0 as int, ie as int) + line@.subrange(fs as int, fe as int));
    let ilen = (ie - s0) as u128;
    let mlen = ilen + (fe - fs) as u128;
    let p: i128 = if exp_negative {
        ilen as i128 - e_val as i128
    } else {
        ilen as i128 + e_val as i128
    };
    proof {
        lemma_clamped_point(ms, int_end(b) + exponent(b), p as int);
    }
    Some(round_mantissa(line, s0, ie, fs, fe, p))
}

/// Reads the numeral `line[i..t]` as a float parser would and casts it to a
/// byte, or gives `None` when it is no numeral.
fn parse_numeral(line: &str, i: usize, t: usize) -> (r: Option<u8>)
    requires
        i <= t <= line@.len(),
    ensures
        r == (if is_numeral(line@.subrange(i as int, t as int)) {
            Some(numeral_percent(line@.subrange(i as int, t as int)))
        } else {
            None
        }),
{
    let ghost w = line@.subrange(i as int, t as int);
    let mut s0 = i;
    let mut negative = false;
    if i < t {
        let c = line.get_char(i);
        if c == '+' || c == '-' {
            s0 = i + 1;
            negative = c == '-';
        }
    }
    assert(body_of(w) =~= line@.subrange(s0 as int, t as int));
    assert(negative == (w.len() > 0 && w[0] == '-'));
    if word_ci(line, s0, t, "nan") {
        return Some(0);
    }
    if word_ci(line, s0, t, "inf") || word_ci(line, s0, t, "infinity") {
        return Some(if negative { 0 } else { 255 });
    }
    match parse_decimal(line, s0, t) {
        None => None,
        Some(v) => Some(if negative { 0 } else { v }),
    }
}

/// Finds the first word of `line` that ends with `%` and holds a numeral in
/// front of its `%` signs, and casts that number to a byte: `"50.5%"` gives
/// 50, `"1e2%"` 100, `"-5%"` 0, `"inf%"` 255.
pub fn extract_percentage(line: &str) -> (r: Option<u8>)
    ensures
        r == percent_from(line@, 0),
{
    let n = line.unicode_len();
    let mut i: usize = 0;
    while i < n
        invariant
            n == line@.len(),
            i <= n,
            percent_from(line@, 0) == percent_from(line@, i as int),
        decreases n - i,
    {
        if is_space_char(line.get_char(i)) {
            i = i + 1;
        } else {
            let mut e = i + 1;
            while e < n && !is_space_char(line.get_char(e))
                invariant
                    n == line@.len(),
                    i < e <= n,
                    forall|j: int| i <= j < e ==> !is_space(#[trigger] line@[j]),
                decreases n - e,
            {
                e = e + 1;
            }
            proof {
                lemma_word_end_unique(line@, i as int, e as int);
            }
            if line.get_char(e - 1) == '%' {
                let t = trimmed_end(line, i, e);
                let p = parse_numeral(line, i, t);
                if p.is_some() {
                    return p;
                }
            }
            i = e;
        }
    }
    None
}

fn is_space_char(c: char) -> (r: bool)
    ensures
        r == is_space(c),
{
    let u = c as u32;
    (9 <= u && u <= 13) || u == 32 || u == 0x85 || u == 0xA0 || u == 0x1680 || (0x2000 <= u
        && u <= 0x200A) || u == 0x2028 || u == 0x2029 || u == 0x202F || u == 0x205F || u
        == 0x3000
}

/// A percentage mapped into the download band: `10 + 0.8 * p`, at most 90.
pub open spec fn scaled_percent(p: u8) -> u8 {
    let v = 10 + (4 * p) / 5;
    if v > 90 {
        90
    } else {
        v as u8
    }
}

/// The installer's progress after it printed `line`, having stood at `prev`.
pub open spec fn estimate(line: Seq<char>, prev: u8) -> u8 {
    if has_sub(line, "Downloading"@) {
        10
    } else if has_sub(line, "%"@) {
        match percent_from(line, 0) {
            Some(p) => scaled_percent(p),
            None => prev,
        }
    } else if has_sub(line, "Extracting"@) || has_sub(line, "Installing"@) {
        95
    } else {
        prev
    }
}

/// Progress estimate after one line of installer output.
pub fn estimate_progress(line: &str, previous: u8) -> (r: u8)
    ensures
        r == estimate(line@, previous),
{
    if contains_text(line, "Downloading") {
        10
    } else if contains_text(line, "%") {
        match extract_percentage(line) {
            Some(p) => {
                let v: u32 = 10 + (4 * (p as u32)) / 5;
                if v > 90 {
                    90
                } else {
                    v as u8
                }
            },
            None => previous,
        }
    } else if contains_text(line, "Extracting") || contains_text(line, "Installing") {
        95
    } else {
        previous
    }
}

} // verus!
