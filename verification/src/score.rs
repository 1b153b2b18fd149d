//! Point-value computation for a trivia board.
//!
//! Every result row carries a terminal numeric field, its difficulty stat.
//! Points are distributed out of 1000 so that rows with a *lower* stat are
//! worth *more*: the most famous, highest-stat answer earns the least credit.
//!
//! Stats arrive as decimal text. They are read as fixed-point numbers with
//! six fractional digits (`SCALE` units per whole unit), which keeps the
//! arithmetic exact; a field that is not a plain nonnegative decimal numeral
//! (or whose whole part exceeds [`MAX_WHOLE`]) makes the whole board fall
//! back to an equal split of the 1000 points.

use vstd::prelude::*;

verus! {

/// Fixed-point units per whole unit of a stat.
pub const SCALE: u64 = 1_000_000;

/// Two stats within this distance (0.01 in whole units) count as equal.
pub const TOLERANCE: u64 = 10_000;

/// Largest whole part a stat may have before parsing rejects it.
pub const MAX_WHOLE: u64 = 1_000_000_000;

/// Whether `c` is a decimal digit.
pub open spec fn is_digit(c: char) -> bool {
    '0' as u32 <= c as u32 && c as u32 <= '9' as u32
}

/// The numeric value of the digit `c`.
pub open spec fn digit_val(c: char) -> int {
    c as u32 - '0' as u32
}

/// Whether every character of `s` is a decimal digit.
pub open spec fn all_digits(s: Seq<char>) -> bool {
    forall|i: int| 0 <= i < s.len() ==> is_digit(#[trigger] s[i])
}

/// The value of the digit string `s`, most significant digit first.
pub open spec fn digits_val(s: Seq<char>) -> int
    decreases s.len(),
{
    if s.len() == 0 {
        0
    } else {
        digits_val(s.drop_last()) * 10 + digit_val(s.last())
    }
}

/// Ten to the power `k`.
pub open spec fn pow10(k: nat) -> int
    decreases k,
{
    if k == 0 {
        1
    } else {
        10 * pow10((k - 1) as nat)
    }
}

/// The index of the first `.` in `s`, or -1 when there is none.
pub open spec fn first_dot(s: Seq<char>) -> int
    decreases s.len(),
{
    if s.len() == 0 {
        -1
    } else if s[0] == '.' {
        0
    } else if first_dot(s.drop_first()) < 0 {
        -1
    } else {
        1 + first_dot(s.drop_first())
    }
}

/// The fractional digit string `s`, scaled to six fixed-point digits;
/// digits beyond the sixth are truncated.
pub open spec fn frac_scaled(s: Seq<char>) -> int {
    if s.len() <= 6 {
        digits_val(s) * pow10((6 - s.len()) as nat)
    } else {
        digits_val(s.take(6))
    }
}

/// The stat denoted by `s`, in fixed-point `SCALE` units.
///
/// `s` must be a nonnegative decimal numeral: digits, optionally split by
/// one `.`, with at least one digit overall and a whole part of at most
/// [`MAX_WHOLE`]. Anything else yields `None`.
pub open spec fn spec_parse_stat(s: Seq<char>) -> Option<u64> {
    let d = first_dot(s);
    if d >= 0 {
        let whole = s.take(d);
        let frac = s.skip(d + 1);
        if all_digits(whole) && all_digits(frac) && whole.len() + frac.len() > 0 && digits_val(
            whole,
        ) <= MAX_WHOLE {
            Some((digits_val(whole) * SCALE + frac_scaled(frac)) as u64)
        } else {
            None
        }
    } else {
        if all_digits(s) && s.len() > 0 && digits_val(s) <= MAX_WHOLE {
            Some((digits_val(s) * SCALE) as u64)
        } else {
            None
        }
    }
}

/// Digit strings denote nonnegative values.
proof fn lemma_digits_val_nonneg(s: Seq<char>)
    requires
        all_digits(s),
    ensures
        digits_val(s) >= 0,
    decreases s.len(),
{
    if s.len() > 0 {
        assert(all_digits(s.drop_last()));
        lemma_digits_val_nonneg(s.drop_last());
    }
}

/// A digit string of length `n` denotes a value below `pow10(n)`.
proof fn lemma_digits_val_bound(s: Seq<char>)
    requires
        all_digits(s),
    ensures
        digits_val(s) < pow10(s.len()),
    decreases s.len(),
{
    if s.len() > 0 {
        assert(all_digits(s.drop_last()));
        lemma_digits_val_bound(s.drop_last());
    }
}

/// Appending one character multiplies the value by ten and adds the digit.
proof fn lemma_digits_val_step(s: Seq<char>, k: int)
    requires
        0 <= k < s.len(),
    ensures
        digits_val(s.take(k + 1)) == digits_val(s.take(k)) * 10 + digit_val(s[k]),
{
    assert(s.take(k + 1).drop_last() =~= s.take(k));
    assert(s.take(k + 1).last() == s[k]);
}

/// Once a digit prefix exceeds `MAX_WHOLE`, the whole string does too.
proof fn lemma_digits_val_exceeds(s: Seq<char>, k: int)
    requires
        0 <= k <= s.len(),
        digits_val(s.take(k)) > MAX_WHOLE,
    ensures
        digits_val(s) > MAX_WHOLE,
    decreases s.len() - k,
{
    if k < s.len() {
        lemma_digits_val_step(s, k);
        assert(digit_val(s[k]) >= -48);
        lemma_digits_val_exceeds(s, k + 1);
    } else {
        assert(s.take(k) =~= s);
    }
}

/// `pow10` splits over addition of exponents.
proof fn lemma_pow10_adds(a: nat, b: nat)
    ensures
        pow10(a + b) == pow10(a) * pow10(b),
    decreases a,
{
    if a == 0 {
        assert(pow10(0 + b) == 1 * pow10(b)) by {
            assert(pow10(b) >= 1) by {
                lemma_pow10_pos(b);
            }
        }
    } else {
        lemma_pow10_adds((a - 1) as nat, b);
        assert(pow10(a + b) == 10 * pow10((a + b - 1) as nat));
        assert(10 * (pow10((a - 1) as nat) * pow10(b)) == (10 * pow10((a - 1) as nat)) * pow10(
            b,
        )) by (nonlinear_arith);
    }
}

/// `pow10` is positive.
proof fn lemma_pow10_pos(k: nat)
    ensures
        pow10(k) >= 1,
    decreases k,
{
    if k > 0 {
        lemma_pow10_pos((k - 1) as nat);
    }
}

/// A well-formed fractional part scales to less than one whole `SCALE` unit.
proof fn lemma_frac_scaled_bound(s: Seq<char>)
    requires
        all_digits(s),
    ensures
        0 <= frac_scaled(s) < SCALE,
{
    reveal_with_fuel(pow10, 8);
    if s.len() <= 6 {
        lemma_digits_val_nonneg(s);
        lemma_digits_val_bound(s);
        let p = pow10((6 - s.len()) as nat);
        lemma_pow10_pos((6 - s.len()) as nat);
        lemma_pow10_adds(s.len(), (6 - s.len()) as nat);
        assert(digits_val(s) * p <= (pow10(s.len()) - 1) * p) by (nonlinear_arith)
            requires
                digits_val(s) <= pow10(s.len()) - 1,
                p >= 1,
        ;
        assert((pow10(s.len()) - 1) * p == pow10(s.len()) * p - p) by (nonlinear_arith);
        assert(digits_val(s) * p >= 0) by (nonlinear_arith)
            requires
                digits_val(s) >= 0,
                p >= 1,
        ;
    } else {
        assert(all_digits(s.take(6)));
        lemma_digits_val_nonneg(s.take(6));
        lemma_digits_val_bound(s.take(6));
    }
}

/// Any stat the parser accepts fits comfortably in 51 bits.
pub proof fn lemma_parse_stat_bound(s: Seq<char>)
    ensures
        spec_parse_stat(s) is Some ==> spec_parse_stat(s).unwrap() <= MAX_WHOLE * SCALE + SCALE,
{
    let d = first_dot(s);
    if d >= 0 {
        let whole = s.take(d);
        let frac = s.skip(d + 1);
        if all_digits(whole) && all_digits(frac) && whole.len() + frac.len() > 0 && digits_val(
            whole,
        ) <= MAX_WHOLE {
            lemma_digits_val_nonneg(whole);
            lemma_frac_scaled_bound(frac);
            assert(digits_val(whole) * SCALE <= MAX_WHOLE * SCALE) by (nonlinear_arith)
                requires
                    0 <= digits_val(whole) <= MAX_WHOLE,
            ;
            assert(digits_val(whole) * SCALE >= 0) by (nonlinear_arith)
                requires
                    digits_val(whole) >= 0,
            ;
        }
    } else {
        if all_digits(s) && s.len() > 0 && digits_val(s) <= MAX_WHOLE {
            lemma_digits_val_nonneg(s);
            assert(digits_val(s) * SCALE <= MAX_WHOLE * SCALE) by (nonlinear_arith)
                requires
                    0 <= digits_val(s) <= MAX_WHOLE,
            ;
        }
    }
}

/// Characterize `first_dot` as the least index holding a dot.
proof fn lemma_first_dot_at(s: Seq<char>, k: int)
    requires
        0 <= k < s.len(),
        s[k] == '.',
        forall|j: int| 0 <= j < k ==> s[j] != '.',
    ensures
        first_dot(s) == k,
    decreases s.len(),
{
    if k == 0 {
    } else {
        assert forall|j: int| 0 <= j < k - 1 implies s.drop_first()[j] != '.' by {
            assert(s.drop_first()[j] == s[j + 1]);
        }
        assert(s.drop_first()[k - 1] == s[k]);
        lemma_first_dot_at(s.drop_first(), k - 1);
    }
}

/// A string with no dot has `first_dot` equal to -1.
proof fn lemma_first_dot_none(s: Seq<char>)
    requires
        forall|j: int| 0 <= j < s.len() ==> s[j] != '.',
    ensures
        first_dot(s) == -1,
    decreases s.len(),
{
    if s.len() > 0 {
        assert forall|j: int| 0 <= j < s.drop_first().len() implies s.drop_first()[j] != '.' by {
            assert(s.drop_first()[j] == s[j + 1]);
        }
        lemma_first_dot_none(s.drop_first());
    }
}

/// Read a stat string as a fixed-point number in `SCALE` units.
#[verifier::loop_isolation(false)]
pub fn parse_stat(s: &str) -> (r: Option<u64>)
    ensures
        r == spec_parse_stat(s@),
{
    let v = crate::text::chars_of(s);
    let n = v.len();

    // Locate the first dot, if any.
    let mut i: usize = 0;
    while i < n && v[i] != '.'
        invariant
            i <= n,
            n == v@.len(),
            v@ == s@,
            forall|j: int| 0 <= j < i ==> v@[j] != '.',
        decreases n - i,
    {
        i = i + 1;
    }
    proof {
        if i < n {
            lemma_first_dot_at(s@, i as int);
        } else {
            lemma_first_dot_none(s@);
        }
    }

    // Parse the whole part, capped at MAX_WHOLE.
    let mut acc: u64 = 0;
    let mut j: usize = 0;
    while j < i
        invariant
            j <= i <= n,
            n == v@.len(),
            v@ == s@,
            i < n ==> first_dot(s@) == i,
            i == n ==> first_dot(s@) == -1,
            forall|k: int| 0 <= k < j ==> is_digit(#[trigger] s@[k]),
            acc == digits_val(s@.take(j as int)),
            acc <= MAX_WHOLE,
        decreases i - j,
    {
        let u = v[j] as u32;
        if !(48 <= u && u <= 57) {
            proof {
                assert(!is_digit(s@[j as int]));
                if i < n {
                    assert(s@.take(i as int)[j as int] == s@[j as int]);
                    assert(!all_digits(s@.take(i as int)));
                } else {
                    assert(!all_digits(s@));
                }
            }
            return None;
        }
        proof {
            lemma_digits_val_step(s@, j as int);
        }
        acc = acc * 10 + ((u - 48) as u64);
        j = j + 1;
        if acc > MAX_WHOLE {
            proof {
                if i < n {
                    assert(s@.take(i as int).take(j as int) =~= s@.take(j as int));
                    lemma_digits_val_exceeds(s@.take(i as int), j as int);
                } else {
                    lemma_digits_val_exceeds(s@, j as int);
                }
            }
            return None;
        }
    }

    if i == n {
        // No dot: the whole string must be a nonempty digit run.
        if n == 0 {
            return None;
        }
        proof {
            assert(s@.take(n as int) =~= s@);
            assert(all_digits(s@));
        }
        return Some(acc * SCALE);
    }

    // There is a dot at index i.
    proof {
        assert(s@.take(i as int).take(i as int) =~= s@.take(i as int));
        assert(all_digits(s@.take(i as int)));
    }
    if i == 0 && i + 1 == n {
        // A lone dot has no digits at all.
        proof {
            assert(s@.take(0).len() + s@.skip(1).len() == 0);
        }
        return None;
    }

    // Parse the fractional part; only the first six digits carry value.
    let ghost frac = s@.skip(i as int + 1);
    let mut f: u64 = 0;
    let mut k: usize = i + 1;
    while k < n
        invariant
            i < k <= n,
            n == v@.len(),
            v@ == s@,
            frac == s@.skip(i as int + 1),
            forall|t: int| 0 <= t < k - i - 1 ==> is_digit(#[trigger] frac[t]),
            k - i - 1 <= 6 ==> f == digits_val(frac.take(k - i - 1)),
            k - i - 1 > 6 ==> f == digits_val(frac.take(6)),
            f < 1_000_000,
        decreases n - k,
    {
        let u = v[k] as u32;
        if !(48 <= u && u <= 57) {
            proof {
                assert(frac[k - i - 1] == s@[k as int]);
                assert(!all_digits(frac));
            }
            return None;
        }
        proof {
            assert(frac[k - i - 1] == s@[k as int]);
        }
        if k - i - 1 < 6 {
            proof {
                lemma_digits_val_step(frac, k - i - 1);
                assert(all_digits(frac.take(k - i - 1)));
                lemma_digits_val_nonneg(frac.take(k - i - 1));
                lemma_digits_val_bound(frac.take(k - i - 1));
                reveal_with_fuel(pow10, 8);
            }
            f = f * 10 + ((u - 48) as u64);
        }
        k = k + 1;
    }

    // Scale a short fractional part up to six digits.
    let flen = n - i - 1;
    let ghost fdigits = if flen <= 6 {
        flen as int
    } else {
        6
    };
    let mut t: usize = if flen > 6 {
        6
    } else {
        flen
    };
    proof {
        reveal_with_fuel(pow10, 8);
        if flen <= 6 {
            assert(frac.take(flen as int) =~= frac);
        }
        assert(f == digits_val(frac.take(fdigits)) * pow10((fdigits - fdigits) as nat));
        assert(all_digits(frac.take(fdigits)));
        lemma_digits_val_nonneg(frac.take(fdigits));
        lemma_digits_val_bound(frac.take(fdigits));
    }
    proof {
        assert(f < pow10(t as nat)) by {
            lemma_pow10_adds(fdigits as nat, 0);
        }
    }
    while t < 6
        invariant
            t <= 6,
            fdigits <= t,
            f == digits_val(frac.take(fdigits)) * pow10((t - fdigits) as nat),
            0 <= digits_val(frac.take(fdigits)) < pow10(fdigits as nat),
            f < pow10(t as nat),
        decreases 6 - t,
    {
        proof {
            let dv = digits_val(frac.take(fdigits));
            let p = pow10((t - fdigits) as nat);
            lemma_pow10_pos((t - fdigits) as nat);
            lemma_pow10_bound(t as nat);
            assert(pow10((t + 1 - fdigits) as nat) == 10 * p);
            assert((dv * p) * 10 == dv * (10 * p)) by (nonlinear_arith);
            lemma_pow10_adds(fdigits as nat, (t + 1 - fdigits) as nat);
            assert(dv * (10 * p) < pow10(fdigits as nat) * (10 * p)) by (nonlinear_arith)
                requires
                    dv < pow10(fdigits as nat),
                    p >= 1,
            ;
        }
        f = f * 10;
        t = t + 1;
    }
    proof {
        assert(frac_scaled(frac) == f) by {
            if frac.len() <= 6 {
                assert(fdigits == frac.len());
                assert(frac.take(fdigits) =~= frac);
            }
        }
    }
    Some(acc * SCALE + f)
}

/// `pow10(k)` is at most a million for `k` up to six.
proof fn lemma_pow10_bound(k: nat)
    requires
        k <= 6,
    ensures
        pow10(k) <= 1_000_000,
{
    reveal_with_fuel(pow10, 8);
}

/// The index of the stat column: the last field of the first row.
pub open spec fn stat_col(ds: Seq<Seq<Seq<char>>>) -> int {
    ds[0].len() - 1
}

/// Whether `row` reaches the stat column and its stat parses.
pub open spec fn row_ok(row: Seq<Seq<char>>, sc: int) -> bool {
    row.len() > sc && spec_parse_stat(row[sc]) is Some
}

/// Whether every row's stat field parses.
pub open spec fn stats_ok(ds: Seq<Seq<Seq<char>>>, sc: int) -> bool {
    forall|i: int| 0 <= i < ds.len() ==> row_ok(#[trigger] ds[i], sc)
}

/// The parsed stat of every row, in `SCALE` units.
pub open spec fn stat_vals(ds: Seq<Seq<Seq<char>>>, sc: int) -> Seq<int> {
    Seq::new(ds.len(), |i: int| spec_parse_stat(ds[i][sc]).unwrap() as int)
}

/// Whether `a` and `b` lie strictly within the tolerance of each other.
pub open spec fn within_tol(a: int, b: int) -> bool {
    -(TOLERANCE as int) < a - b < TOLERANCE as int
}

/// Whether every value lies within the tolerance of the first.
pub open spec fn all_near_first(vals: Seq<int>) -> bool {
    forall|i: int| 0 <= i < vals.len() ==> within_tol(#[trigger] vals[i], vals[0])
}

/// The largest value of `s` (0 for an empty sequence).
pub open spec fn seq_max(s: Seq<int>) -> int
    decreases s.len(),
{
    if s.len() == 0 {
        0
    } else if s.len() == 1 {
        s[0]
    } else if seq_max(s.drop_last()) >= s.last() {
        seq_max(s.drop_last())
    } else {
        s.last()
    }
}

/// The smallest value of `s` (0 for an empty sequence).
pub open spec fn seq_min(s: Seq<int>) -> int
    decreases s.len(),
{
    if s.len() == 0 {
        0
    } else if s.len() == 1 {
        s[0]
    } else if seq_min(s.drop_last()) <= s.last() {
        seq_min(s.drop_last())
    } else {
        s.last()
    }
}

/// The inverse weight of row `i`: low stats weigh more, and even the
/// highest stat keeps the smallest stat as its weight.
pub open spec fn inv_weight(vals: Seq<int>, i: int) -> int {
    seq_max(vals) - vals[i] + seq_min(vals)
}

/// All inverse weights, in row order.
pub open spec fn inv_weights(vals: Seq<int>) -> Seq<int> {
    Seq::new(vals.len(), |i: int| inv_weight(vals, i))
}

/// The sum of a sequence of integers.
pub open spec fn sum_int(s: Seq<int>) -> int
    decreases s.len(),
{
    if s.len() == 0 {
        0
    } else {
        sum_int(s.drop_last()) + s.last()
    }
}

/// `x / d` rounded to the nearest integer, halves away from zero.
pub open spec fn round_div(x: int, d: int) -> int {
    (x + d / 2) / d
}

/// An equal split: every row gets `1000 / n`, rounded down.
pub open spec fn equal_points(n: nat) -> Seq<u32> {
    Seq::new(n, |i: int| (1000int / n as int) as u32)
}

/// The point value of every row of `ds`.
///
/// With no rows the result is empty. When any stat fails to parse, or all
/// stats lie within the tolerance of the first, the 1000 points are split
/// equally. Otherwise each row gets its inverse weight's share of 1000,
/// rounded to the nearest integer.
pub open spec fn spec_points(ds: Seq<Seq<Seq<char>>>) -> Seq<u32> {
    let n = ds.len();
    if n == 0 {
        Seq::empty()
    } else {
        let sc = stat_col(ds);
        if !stats_ok(ds, sc) {
            equal_points(n)
        } else {
            let vals = stat_vals(ds, sc);
            if all_near_first(vals) {
                equal_points(n)
            } else {
                let d = sum_int(inv_weights(vals));
                Seq::new(n, |i: int| round_div(inv_weight(vals, i) * 1000, d) as u32)
            }
        }
    }
}

/// The maximum bounds every element from above.
proof fn lemma_seq_max_ge(s: Seq<int>, i: int)
    requires
        0 <= i < s.len(),
    ensures
        seq_max(s) >= s[i],
    decreases s.len(),
{
    if s.len() > 1 && i < s.len() - 1 {
        lemma_seq_max_ge(s.drop_last(), i);
    }
}

/// The minimum bounds every element from below.
proof fn lemma_seq_min_le(s: Seq<int>, i: int)
    requires
        0 <= i < s.len(),
    ensures
        seq_min(s) <= s[i],
    decreases s.len(),
{
    if s.len() > 1 && i < s.len() - 1 {
        lemma_seq_min_le(s.drop_last(), i);
    }
}

/// The minimum of a nonempty sequence is attained.
proof fn lemma_seq_min_attained(s: Seq<int>)
    requires
        s.len() >= 1,
    ensures
        exists|i: int| 0 <= i < s.len() && s[i] == seq_min(s),
    decreases s.len(),
{
    if s.len() == 1 {
        assert(s[0] == seq_min(s));
    } else if seq_min(s.drop_last()) <= s.last() {
        lemma_seq_min_attained(s.drop_last());
        let j = choose|j: int| 0 <= j < s.drop_last().len() && s.drop_last()[j] == seq_min(
            s.drop_last(),
        );
        assert(s[j] == seq_min(s));
    } else {
        assert(s[s.len() - 1] == seq_min(s));
    }
}

/// The maximum of a nonempty sequence is attained.
proof fn lemma_seq_max_attained(s: Seq<int>)
    requires
        s.len() >= 1,
    ensures
        exists|i: int| 0 <= i < s.len() && s[i] == seq_max(s),
    decreases s.len(),
{
    if s.len() == 1 {
        assert(s[0] == seq_max(s));
    } else if seq_max(s.drop_last()) >= s.last() {
        lemma_seq_max_attained(s.drop_last());
        let j = choose|j: int| 0 <= j < s.drop_last().len() && s.drop_last()[j] == seq_max(
            s.drop_last(),
        );
        assert(s[j] == seq_max(s));
    } else {
        assert(s[s.len() - 1] == seq_max(s));
    }
}

/// A sum of nonnegative values is at least any one of them.
proof fn lemma_sum_ge_elem(s: Seq<int>, i: int)
    requires
        0 <= i < s.len(),
        forall|j: int| 0 <= j < s.len() ==> #[trigger] s[j] >= 0,
    ensures
        sum_int(s) >= s[i],
    decreases s.len(),
{
    if i < s.len() - 1 {
        assert(forall|j: int| 0 <= j < s.drop_last().len() ==> #[trigger] s.drop_last()[j] >= 0);
        lemma_sum_ge_elem(s.drop_last(), i);
    } else {
        lemma_sum_nonneg(s.drop_last());
    }
}

/// A sum of nonnegative values is nonnegative.
proof fn lemma_sum_nonneg(s: Seq<int>)
    requires
        forall|j: int| 0 <= j < s.len() ==> #[trigger] s[j] >= 0,
    ensures
        sum_int(s) >= 0,
    decreases s.len(),
{
    if s.len() > 0 {
        assert(forall|j: int| 0 <= j < s.drop_last().len() ==> #[trigger] s.drop_last()[j] >= 0);
        lemma_sum_nonneg(s.drop_last());
    }
}

/// A nonnegative share of at most the whole rounds to at most 1000.
proof fn lemma_round_share_bounds(w: int, d: int)
    requires
        0 <= w <= d,
        d > 0,
    ensures
        0 <= round_div(w * 1000, d) <= 1000,
{
    let x = w * 1000 + d / 2;
    let q = x / d;
    vstd::arithmetic::div_mod::lemma_fundamental_div_mod(x, d);
    vstd::arithmetic::mul::lemma_mul_inequality(w, d, 1000);
    assert(w * 1000 >= 0) by (nonlinear_arith)
        requires
            w >= 0,
    ;
    assert(q >= 0) by (nonlinear_arith)
        requires
            d * q + x % d == x,
            0 <= x % d < d,
            x >= 0,
            d > 0,
    ;
    assert(q <= 1000) by (nonlinear_arith)
        requires
            d * q + x % d == x,
            0 <= x % d < d,
            x <= d * 1000 + d / 2,
            d > 0,
    ;
}

/// The sum of a sequence of point values.
pub open spec fn sum_points(s: Seq<u32>) -> int {
    sum_int(Seq::new(s.len(), |i: int| s[i] as int))
}

/// The rounded 1000-point shares of the weights `ws` against the total `d`.
pub open spec fn points_of(ws: Seq<int>, d: int) -> Seq<int> {
    Seq::new(ws.len(), |i: int| round_div(ws[i] * 1000, d))
}

/// The sum of `k` copies of `c`.
proof fn lemma_sum_const(c: int, k: nat)
    ensures
        sum_int(Seq::new(k, |i: int| c)) == k * c,
    decreases k,
{
    if k == 0 {
        assert(Seq::new(0, |i: int| c) =~= Seq::<int>::empty());
    } else {
        lemma_sum_const(c, (k - 1) as nat);
        assert(Seq::new(k, |i: int| c).drop_last() =~= Seq::new((k - 1) as nat, |i: int| c));
        assert(k * c == (k - 1) * c + c) by (nonlinear_arith);
    }
}

/// Partial sums of rounded shares stay within the rounding slack of the
/// exact shares: summing `k` terms can overshoot by at most `d/2` each and
/// undershoot by strictly less than `d` each, measured at scale `d`.
proof fn lemma_points_partial_sums(ws: Seq<int>, d: int, k: int)
    requires
        d > 0,
        0 <= k <= ws.len(),
    ensures
        d * sum_int(points_of(ws, d).take(k)) <= sum_int(ws.take(k)) * 1000 + k * (d / 2),
        sum_int(ws.take(k)) * 1000 + k * (d / 2) <= d * sum_int(points_of(ws, d).take(k)) + k * (d
            - 1),
    decreases k,
{
    let ps = points_of(ws, d);
    if k == 0 {
        assert(ps.take(0) =~= Seq::<int>::empty());
        assert(ws.take(0) =~= Seq::<int>::empty());
    } else {
        lemma_points_partial_sums(ws, d, k - 1);
        let s0 = sum_int(ps.take(k - 1));
        let w = ws[k - 1];
        let p = ps[k - 1];
        let x = w * 1000 + d / 2;
        assert(ps.take(k).drop_last() =~= ps.take(k - 1));
        assert(ws.take(k).drop_last() =~= ws.take(k - 1));
        assert(sum_int(ps.take(k)) == s0 + p);
        assert(sum_int(ws.take(k)) == sum_int(ws.take(k - 1)) + w);
        vstd::arithmetic::div_mod::lemma_fundamental_div_mod(x, d);
        assert(p == x / d);
        assert(d * p <= x <= d * p + (d - 1)) by (nonlinear_arith)
            requires
                x == d * (x / d) + x % d,
                0 <= x % d < d,
                p == x / d,
        ;
        assert(d * (s0 + p) == d * s0 + d * p) by (nonlinear_arith);
        assert((sum_int(ws.take(k - 1)) + w) * 1000 == sum_int(ws.take(k - 1)) * 1000 + w * 1000)
            by (nonlinear_arith);
        assert(k * (d / 2) == (k - 1) * (d / 2) + d / 2) by (nonlinear_arith);
        assert(k * (d - 1) == (k - 1) * (d - 1) + (d - 1)) by (nonlinear_arith);
    }
}

/// With nonnegative weights summing to `d`, the rounded shares of 1000
/// total at least `1995/2` scaled and at most `2000 + n` halves.
proof fn lemma_points_total(ws: Seq<int>, d: int)
    requires
        ws.len() >= 1,
        forall|i: int| 0 <= i < ws.len() ==> #[trigger] ws[i] >= 0,
        d == sum_int(ws),
        d > 0,
    ensures
        2 * sum_int(points_of(ws, d)) <= 2000 + ws.len(),
        2 * (d * sum_int(points_of(ws, d))) >= 2000 * d - (ws.len() as int) * d,
{
    let n = ws.len() as int;
    let s = sum_int(points_of(ws, d));
    lemma_points_partial_sums(ws, d, n);
    assert(points_of(ws, d).take(n) =~= points_of(ws, d));
    assert(ws.take(n) =~= ws);
    // Upper bound: d * s <= 1000 * d + n * (d / 2).
    assert(2 * s <= 2000 + n) by (nonlinear_arith)
        requires
            d * s <= d * 1000 + n * (d / 2),
            n >= 0,
            d > 0,
    ;
    // Lower bound: d * 1000 + n * (d / 2) <= d * s + n * (d - 1).
    assert(2 * (d * s) >= 2000 * d - n * d) by (nonlinear_arith)
        requires
            d * 1000 + n * (d / 2) <= d * s + n * (d - 1),
            n >= 0,
            d > 0,
    ;
}

/// One equal share of 1000 points per row.
fn equal_split(n: usize) -> (r: Vec<u32>)
    requires
        n >= 1,
    ensures
        r@ == equal_points(n as nat),
{
    let e = (1000 / n) as u32;
    let mut out: Vec<u32> = Vec::new();
    let mut i: usize = 0;
    while i < n
        invariant
            i <= n,
            n >= 1,
            e == (1000int / n as int) as u32,
            out@ =~= equal_points(n as nat).take(i as int),
        decreases n - i,
    {
        out.push(e);
        i = i + 1;
        proof {
            assert(out@ =~= equal_points(n as nat).take(i as int));
        }
    }
    proof {
        assert(equal_points(n as nat).take(n as int) =~= equal_points(n as nat));
    }
    out
}

/// Point values for every row: one nonnegative value per row, summing to
/// roughly 1000, weighted towards the rows with the smallest stats.
#[verifier::loop_isolation(false)]
pub fn calculate_point_values(rows: &Vec<Vec<String>>, _column_names: &Vec<String>) -> (r: Vec<
    u32,
>)
    requires
        rows.deep_view().len() > 0 ==> rows.deep_view()[0].len() >= 1,
    ensures
        r@ == spec_points(rows.deep_view()),
{
    let ghost ds = rows.deep_view();
    let n = rows.len();
    if n == 0 {
        let out: Vec<u32> = Vec::new();
        proof {
            assert(out@ =~= spec_points(ds));
        }
        return out;
    }
    let sc = rows[0].len() - 1;
    proof {
        assert(ds[0] == rows@[0].deep_view());
        assert(sc as int == stat_col(ds));
    }

    // Parse every row's stat; any failure falls back to an equal split.
    let mut vals: Vec<u64> = Vec::new();
    let mut i: usize = 0;
    while i < n
        invariant
            i <= n,
            vals@.len() == i,
            forall|k: int| 0 <= k < i ==> row_ok(#[trigger] ds[k], sc as int),
            forall|k: int|
                0 <= k < i ==> #[trigger] vals@[k] == spec_parse_stat(ds[k][sc as int]).unwrap(),
            forall|k: int| 0 <= k < i ==> #[trigger] vals@[k] <= MAX_WHOLE * SCALE + SCALE,
        decreases n - i,
    {
        let row = &rows[i];
        proof {
            assert(ds[i as int] == rows@[i as int].deep_view());
        }
        if row.len() <= sc {
            proof {
                assert(!row_ok(ds[i as int], sc as int));
            }
            return equal_split(n);
        }
        let cell = &row[sc];
        proof {
            assert(ds[i as int][sc as int] == cell@);
        }
        match parse_stat(cell.as_str()) {
            None => {
                proof {
                    assert(!row_ok(ds[i as int], sc as int));
                }
                return equal_split(n);
            },
            Some(v) => {
                proof {
                    lemma_parse_stat_bound(cell@);
                }
                vals.push(v);
            },
        }
        i = i + 1;
    }
    proof {
        assert(stats_ok(ds, sc as int));
    }
    let ghost vseq = stat_vals(ds, sc as int);
    proof {
        assert(vseq.len() == n);
        assert(forall|k: int| 0 <= k < n ==> vseq[k] == vals@[k] as int);
    }

    // If every stat sits within the tolerance of the first, split equally.
    let v0 = vals[0];
    let mut all_same = true;
    i = 1;
    while i < n
        invariant
            1 <= i <= n,
            all_same ==> forall|k: int| 0 <= k < i ==> within_tol(#[trigger] vseq[k], vseq[0]),
            !all_same ==> !all_near_first(vseq),
        decreases n - i,
    {
        let d = if vals[i] >= v0 {
            vals[i] - v0
        } else {
            v0 - vals[i]
        };
        if d >= TOLERANCE {
            proof {
                assert(!within_tol(vseq[i as int], vseq[0]));
            }
            all_same = false;
        }
        i = i + 1;
    }
    if all_same {
        proof {
            assert(all_near_first(vseq));
        }
        return equal_split(n);
    }

    // Find the extremes of the stats.
    let mut mx = vals[0];
    let mut mn = vals[0];
    i = 1;
    while i < n
        invariant
            1 <= i <= n,
            mx as int == seq_max(vseq.take(i as int)),
            mn as int == seq_min(vseq.take(i as int)),
            mx <= MAX_WHOLE * SCALE + SCALE,
            mn <= MAX_WHOLE * SCALE + SCALE,
        decreases n - i,
    {
        proof {
            assert(vals@[i as int] <= MAX_WHOLE * SCALE + SCALE);
            assert(vseq[i as int] == vals@[i as int] as int);
            assert(vseq.take(i as int + 1).drop_last() =~= vseq.take(i as int));
            assert(vseq.take(i as int + 1).last() == vseq[i as int]);
        }
        if vals[i] > mx {
            mx = vals[i];
        }
        if vals[i] < mn {
            mn = vals[i];
        }
        i = i + 1;
    }
    proof {
        assert(vseq.take(n as int) =~= vseq);
    }

    // Inverse weights and their total.
    let mut invs: Vec<u64> = Vec::new();
    let mut dsum: u128 = 0;
    i = 0;
    while i < n
        invariant
            i <= n,
            invs@.len() == i,
            mx as int == seq_max(vseq),
            mn as int == seq_min(vseq),
            forall|k: int| 0 <= k < i ==> invs@[k] as int == inv_weight(vseq, k),
            dsum as int == sum_int(inv_weights(vseq).take(i as int)),
            dsum <= (i as int) * (2 * (MAX_WHOLE * SCALE + SCALE)),
        decreases n - i,
    {
        proof {
            lemma_seq_max_ge(vseq, i as int);
            lemma_seq_min_le(vseq, i as int);
            assert(vals@[i as int] <= MAX_WHOLE * SCALE + SCALE);
            assert(vseq[i as int] == vals@[i as int] as int);
            assert(mx <= MAX_WHOLE * SCALE + SCALE && mn <= MAX_WHOLE * SCALE + SCALE) by {
                lemma_seq_min_attained(vseq);
                let jm = choose|t: int| 0 <= t < n && vseq[t] == seq_min(vseq);
                lemma_seq_max_attained(vseq);
                let jx = choose|t: int| 0 <= t < n && vseq[t] == seq_max(vseq);
                assert(vals@[jm] <= MAX_WHOLE * SCALE + SCALE);
                assert(vals@[jx] <= MAX_WHOLE * SCALE + SCALE);
            }
            assert(inv_weights(vseq).take(i as int + 1).drop_last() =~= inv_weights(vseq).take(
                i as int,
            ));
            assert(inv_weights(vseq).take(i as int + 1).last() == inv_weight(vseq, i as int));
        }
        let w = mx - vals[i] + mn;
        proof {
            let b2 = (2 * (MAX_WHOLE * SCALE + SCALE)) as int;
            assert(w as int <= b2);
            assert(dsum as int + w as int <= (i as int + 1) * b2 && (i as int + 1) * b2
                < 0xffff_ffff_ffff_ffff_ffff_ffff_ffff_ffffu128) by (nonlinear_arith)
                requires
                    dsum as int <= (i as int) * b2,
                    0 <= w as int <= b2,
                    b2 == 2_000_000_002_000_000int,
                    0 <= i as int + 1 <= 0xffff_ffff_ffff_ffffu64,
            ;
        }
        invs.push(w);
        dsum = dsum + (w as u128);
        i = i + 1;
    }
    proof {
        assert(inv_weights(vseq).take(n as int) =~= inv_weights(vseq));
    }

    // The total weight is positive: some stat strays from the first by at
    // least the tolerance, so the spread, and hence the weight of the row
    // at the minimum, is at least the tolerance.
    proof {
        let bad = choose|k: int| 0 <= k < n && !within_tol(vseq[k], vseq[0]);
        lemma_seq_max_ge(vseq, bad);
        lemma_seq_max_ge(vseq, 0);
        lemma_seq_min_le(vseq, bad);
        lemma_seq_min_le(vseq, 0);
        lemma_seq_min_attained(vseq);
        let jm = choose|j: int| 0 <= j < n && vseq[j] == seq_min(vseq);
        assert(inv_weight(vseq, jm) >= TOLERANCE);
        assert(forall|j: int| 0 <= j < n ==> #[trigger] inv_weights(vseq)[j] >= 0) by {
            assert forall|j: int| 0 <= j < n implies #[trigger] inv_weights(vseq)[j] >= 0 by {
                lemma_seq_max_ge(vseq, j);
                lemma_seq_min_le(vseq, jm);
            }
        }
        lemma_sum_ge_elem(inv_weights(vseq), jm);
        assert(dsum > 0);
    }

    // Each row's share of 1000, rounded to the nearest point.
    let half = dsum / 2;
    let mut out: Vec<u32> = Vec::new();
    i = 0;
    while i < n
        invariant
            i <= n,
            out@.len() == i,
            dsum as int == sum_int(inv_weights(vseq)),
            dsum > 0,
            half == dsum / 2,
            invs@.len() == n,
            forall|k: int| 0 <= k < n ==> invs@[k] as int == inv_weight(vseq, k),
            forall|k: int|
                0 <= k < i ==> out@[k] == round_div(inv_weight(vseq, k) * 1000, dsum as int) as u32,
        decreases n - i,
    {
        proof {
            assert forall|j: int| 0 <= j < n implies #[trigger] inv_weights(vseq)[j] >= 0 by {
                lemma_seq_max_ge(vseq, j);
                lemma_seq_min_attained(vseq);
                let jm = choose|t: int| 0 <= t < n && vseq[t] == seq_min(vseq);
                lemma_seq_min_le(vseq, jm);
            }
            lemma_sum_ge_elem(inv_weights(vseq), i as int);
            lemma_round_share_bounds(inv_weight(vseq, i as int), dsum as int);
        }
        let p = ((invs[i] as u128) * 1000 + half) / dsum;
        out.push(p as u32);
        i = i + 1;
    }
    proof {
        assert(out@ =~= spec_points(ds));
    }
    out
}

/// Facts about the inverse weights of stat values that are not all within
/// tolerance of the first: every weight is nonnegative, none exceeds the
/// total, and the total is at least the tolerance.
proof fn lemma_weight_facts(vals: Seq<int>)
    requires
        vals.len() >= 1,
        forall|i: int| 0 <= i < vals.len() ==> #[trigger] vals[i] >= 0,
        !all_near_first(vals),
    ensures
        forall|i: int| 0 <= i < vals.len() ==> 0 <= #[trigger] inv_weights(vals)[i] <= sum_int(
            inv_weights(vals),
        ),
        sum_int(inv_weights(vals)) >= TOLERANCE,
{
    let n = vals.len() as int;
    lemma_seq_min_attained(vals);
    let jm = choose|t: int| 0 <= t < n && vals[t] == seq_min(vals);
    assert forall|i: int| 0 <= i < n implies #[trigger] inv_weights(vals)[i] >= 0 by {
        lemma_seq_max_ge(vals, i);
    }
    assert forall|i: int| 0 <= i < n implies #[trigger] inv_weights(vals)[i] <= sum_int(
        inv_weights(vals),
    ) by {
        assert(inv_weights(vals)[i] == inv_weight(vals, i));
        lemma_sum_ge_elem(inv_weights(vals), i);
    }
    let bad = choose|k: int| 0 <= k < n && !within_tol(vals[k], vals[0]);
    lemma_seq_max_ge(vals, bad);
    lemma_seq_max_ge(vals, 0);
    lemma_seq_min_le(vals, bad);
    lemma_seq_min_le(vals, 0);
    assert(inv_weights(vals)[jm] >= TOLERANCE);
    lemma_sum_ge_elem(inv_weights(vals), jm);
}

/// In the fallback and near-equal cases the board's points are an equal
/// split; its sum is exactly `1000 - 1000 % n`.
proof fn lemma_equal_points_sum(n: nat)
    requires
        n >= 1,
    ensures
        sum_points(equal_points(n)) == 1000 - 1000int % (n as int),
{
    let share = 1000int / n as int;
    vstd::arithmetic::div_mod::lemma_fundamental_div_mod(1000, n as int);
    assert(0 <= 1000int % (n as int) < n as int) by {
        vstd::arithmetic::div_mod::lemma_mod_bound(1000, n as int);
    }
    assert(0 <= share <= 1000) by (nonlinear_arith)
        requires
            1000int == (n as int) * share + 1000int % (n as int),
            0 <= 1000int % (n as int) < n as int,
            n >= 1,
    ;
    assert(Seq::new(n, |i: int| (equal_points(n)[i]) as int) =~= Seq::new(n, |i: int| share));
    lemma_sum_const(share, n);
    assert((n as int) * share == 1000 - 1000int % (n as int));
}

/// In the inverse-weighted case, the points of row `i` are the rounded
/// 1000-point share of its weight, and their sum obeys the rounding slack.
proof fn lemma_inverse_case(ds: Seq<Seq<Seq<char>>>)
    requires
        ds.len() >= 1,
        stats_ok(ds, stat_col(ds)),
        !all_near_first(stat_vals(ds, stat_col(ds))),
    ensures
        ({
            let vals = stat_vals(ds, stat_col(ds));
            let d = sum_int(inv_weights(vals));
            &&& d >= TOLERANCE
            &&& sum_points(spec_points(ds)) == sum_int(points_of(inv_weights(vals), d))
            &&& forall|i: int|
                0 <= i < ds.len() ==> #[trigger] spec_points(ds)[i] as int == round_div(
                    inv_weight(vals, i) * 1000,
                    d,
                )
        }),
{
    let n = ds.len() as int;
    let vals = stat_vals(ds, stat_col(ds));
    let d = sum_int(inv_weights(vals));
    assert(forall|i: int| 0 <= i < n ==> #[trigger] vals[i] >= 0);
    lemma_weight_facts(vals);
    assert forall|i: int|
        0 <= i < n implies #[trigger] spec_points(ds)[i] as int == round_div(
        inv_weight(vals, i) * 1000,
        d,
    ) by {
        assert(inv_weights(vals)[i] == inv_weight(vals, i));
        lemma_round_share_bounds(inv_weight(vals, i), d);
    }
    assert(Seq::new(spec_points(ds).len(), |i: int| spec_points(ds)[i] as int) =~= points_of(
        inv_weights(vals),
        d,
    )) by {
        assert forall|i: int| 0 <= i < n implies spec_points(ds)[i] as int == points_of(
            inv_weights(vals),
            d,
        )[i] by {
            assert(inv_weights(vals)[i] == inv_weight(vals, i));
            lemma_round_share_bounds(inv_weight(vals, i), d);
        }
    }
}

/// Scoring assigns one value per row, and the total stays within the
/// rounding slack of 1000: at most half a point per row above, and less
/// than a point per row below.
pub proof fn lemma_points_sum_range(ds: Seq<Seq<Seq<char>>>)
    requires
        ds.len() >= 1,
    ensures
        spec_points(ds).len() == ds.len(),
        1000 - ds.len() < sum_points(spec_points(ds)) <= 1000 + ds.len() / 2,
{
    let n = ds.len() as int;
    let sc = stat_col(ds);
    if !stats_ok(ds, sc) || all_near_first(stat_vals(ds, sc)) {
        lemma_equal_points_sum(ds.len());
        vstd::arithmetic::div_mod::lemma_mod_bound(1000, n);
    } else {
        let vals = stat_vals(ds, sc);
        let d = sum_int(inv_weights(vals));
        assert(forall|i: int| 0 <= i < n ==> #[trigger] vals[i] >= 0);
        lemma_weight_facts(vals);
        lemma_inverse_case(ds);
        lemma_points_total(inv_weights(vals), d);
        let s = sum_int(points_of(inv_weights(vals), d));
        assert(2 * s > 2000 - 2 * n) by (nonlinear_arith)
            requires
                2 * (d * s) >= 2000 * d - n * d,
                d > 0,
                n >= 1,
        ;
    }
}

/// For a board of at most five rows, the total is 1000 give or take 2.
pub proof fn lemma_points_sum_small(ds: Seq<Seq<Seq<char>>>)
    requires
        1 <= ds.len() <= 5,
    ensures
        spec_points(ds).len() == ds.len(),
        998 <= sum_points(spec_points(ds)) <= 1002,
{
    let n = ds.len() as int;
    let sc = stat_col(ds);
    if !stats_ok(ds, sc) || all_near_first(stat_vals(ds, sc)) {
        lemma_equal_points_sum(ds.len());
        assert(1000int % n <= 1) by {
            if n == 1 {
                assert(1000int % 1 == 0);
            } else if n == 2 {
                assert(1000int % 2 == 0);
            } else if n == 3 {
                assert(1000int % 3 == 1);
            } else if n == 4 {
                assert(1000int % 4 == 0);
            } else {
                assert(n == 5);
                assert(1000int % 5 == 0);
            }
        }
    } else {
        let vals = stat_vals(ds, sc);
        let d = sum_int(inv_weights(vals));
        assert(forall|i: int| 0 <= i < n ==> #[trigger] vals[i] >= 0);
        lemma_weight_facts(vals);
        lemma_inverse_case(ds);
        lemma_points_total(inv_weights(vals), d);
        let s = sum_int(points_of(inv_weights(vals), d));
        assert(2 * s >= 2000 - n) by (nonlinear_arith)
            requires
                2 * (d * s) >= 2000 * d - n * d,
                d > 0,
                n >= 1,
        ;
    }
}

/// Rows whose stats are all equal share the 1000 points equally: each row
/// earns `1000 / n`, rounded down.
pub proof fn lemma_equal_stats_equal_points(ds: Seq<Seq<Seq<char>>>)
    requires
        ds.len() >= 1,
        stats_ok(ds, stat_col(ds)),
        forall|i: int|
            0 <= i < ds.len() ==> #[trigger] stat_vals(ds, stat_col(ds))[i] == stat_vals(
                ds,
                stat_col(ds),
            )[0],
    ensures
        forall|i: int|
            0 <= i < ds.len() ==> #[trigger] spec_points(ds)[i] == (1000int / ds.len() as int)
                as u32,
{
    assert(all_near_first(stat_vals(ds, stat_col(ds))));
}

/// A row with a stat no larger than another's never earns fewer points.
pub proof fn lemma_lower_stat_at_least(ds: Seq<Seq<Seq<char>>>, i: int, j: int)
    requires
        ds.len() >= 1,
        stats_ok(ds, stat_col(ds)),
        !all_near_first(stat_vals(ds, stat_col(ds))),
        0 <= i < ds.len(),
        0 <= j < ds.len(),
        stat_vals(ds, stat_col(ds))[i] <= stat_vals(ds, stat_col(ds))[j],
    ensures
        spec_points(ds)[i] >= spec_points(ds)[j],
{
    let vals = stat_vals(ds, stat_col(ds));
    let d = sum_int(inv_weights(vals));
    assert(forall|k: int| 0 <= k < ds.len() ==> #[trigger] vals[k] >= 0);
    lemma_weight_facts(vals);
    lemma_inverse_case(ds);
    let wi = inv_weight(vals, i);
    let wj = inv_weight(vals, j);
    assert(wj <= wi);
    vstd::arithmetic::mul::lemma_mul_inequality(wj, wi, 1000);
    vstd::arithmetic::div_mod::lemma_div_is_ordered(wj * 1000 + d / 2, wi * 1000 + d / 2, d);
}

/// With a gap of at least a thousandth of the total weight between two
/// stats, the row with the smaller stat earns strictly more points.
pub proof fn lemma_lower_stat_more_points(ds: Seq<Seq<Seq<char>>>, i: int, j: int)
    requires
        ds.len() >= 1,
        stats_ok(ds, stat_col(ds)),
        !all_near_first(stat_vals(ds, stat_col(ds))),
        0 <= i < ds.len(),
        0 <= j < ds.len(),
        stat_vals(ds, stat_col(ds))[i] < stat_vals(ds, stat_col(ds))[j],
        (stat_vals(ds, stat_col(ds))[j] - stat_vals(ds, stat_col(ds))[i]) * 1000 >= sum_int(
            inv_weights(stat_vals(ds, stat_col(ds))),
        ),
    ensures
        spec_points(ds)[i] > spec_points(ds)[j],
{
    let vals = stat_vals(ds, stat_col(ds));
    let d = sum_int(inv_weights(vals));
    assert(forall|k: int| 0 <= k < ds.len() ==> #[trigger] vals[k] >= 0);
    lemma_weight_facts(vals);
    lemma_inverse_case(ds);
    let wi = inv_weight(vals, i);
    let wj = inv_weight(vals, j);
    assert(wi - wj == vals[j] - vals[i]);
    assert((wi - wj) * 1000 == wi * 1000 - wj * 1000) by (nonlinear_arith);
    let x = wj * 1000 + d / 2;
    let y = wi * 1000 + d / 2;
    assert(y >= x + d);
    let q = x / d;
    vstd::arithmetic::div_mod::lemma_fundamental_div_mod(x, d);
    assert(d * (q + 1) <= y) by (nonlinear_arith)
        requires
            x == d * q + x % d,
            0 <= x % d < d,
            y >= x + d,
    ;
    vstd::arithmetic::div_mod::lemma_div_is_ordered(d * (q + 1), y, d);
    vstd::arithmetic::div_mod::lemma_div_multiples_vanish(q + 1, d);
}

} // verus!
