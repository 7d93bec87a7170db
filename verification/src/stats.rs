//! Order statistics and clock arithmetic on whole numbers.
//!
//! Inputs are whole numbers (minutes, scores). A percentile interpolates
//! between two of them, so results are given exactly in hundredths of the
//! input unit: a result of 4550 stands for 45.5. The standard deviation is
//! rounded down to the hundredth. Times of day live on a circle of 1440
//! minutes (144 000 hundredths).

use vstd::prelude::*;
use vstd::relations::{sorted_by, total_ordering};

verus! {

/// Minutes on the clock face.
pub const MINUTES_PER_DAY: i64 = 1440;

/// Hundredths of a minute on the clock face.
pub const CENTI_PER_DAY: i64 = 144_000;

/// Largest sample size for which the sums of the standard deviation fit in
/// 128 bits whatever the values.
pub const MAX_SAMPLES: usize = 16_777_216;

/// The order on values.
pub open spec fn leq() -> spec_fn(i32, i32) -> bool {
    |a: i32, b: i32| a <= b
}

/// Whether a sequence is in non-decreasing order.
pub open spec fn is_sorted(s: Seq<i32>) -> bool {
    forall|i: int, j: int| 0 <= i <= j < s.len() ==> s[i] <= s[j]
}

/// The values of a sequence in non-decreasing order.
pub open spec fn sorted_values(s: Seq<i32>) -> Seq<i32> {
    s.sort_by(leq())
}

/// A percentage above 100 counts as 100.
pub open spec fn clamp_percent(pct: int) -> int {
    if pct > 100 {
        100
    } else {
        pct
    }
}

/// Value, in hundredths, at the rank `t / 100` of a sorted sequence: the
/// element at the whole part of the rank, moved towards the next element by
/// the fractional part.
pub open spec fn interpolate(sorted: Seq<i32>, t: int) -> int {
    let lo = t / 100;
    let part = t % 100;
    if part == 0 {
        100 * sorted[lo]
    } else {
        (100 - part) * sorted[lo] + part * sorted[lo + 1]
    }
}

/// Linear-interpolated percentile in hundredths: the value at rank
/// `pct / 100 * (n - 1)` of the sorted values; nothing for no values.
pub open spec fn percentile_linear_spec(values: Seq<i32>, pct: int) -> Option<int> {
    if values.len() == 0 {
        None
    } else {
        Some(interpolate(sorted_values(values), clamp_percent(pct) * (values.len() - 1)))
    }
}

/// Median in hundredths: the 50th percentile.
pub open spec fn median_spec(values: Seq<i32>) -> Option<int> {
    percentile_linear_spec(values, 50)
}

/// Whether an executable optional number is the given mathematical one.
pub open spec fn same_optional(r: Option<i64>, expected: Option<int>) -> bool {
    match r {
        Some(v) => expected == Some(v as int),
        None => expected.is_none(),
    }
}

/// Distance between two points on a circle of circumference `m`: the shorter way round.
pub open spec fn circular_diff_spec(a: int, b: int, m: int) -> int {
    let d = (a - b) % m;
    if d <= m - d {
        d
    } else {
        m - d
    }
}

/// Signed shortest way from `earlier` to `later` on a circle of
/// circumference `m`, from `-(m / 2)` up to (not including) `m - m / 2`.
pub open spec fn circular_signed_delta_spec(later: int, earlier: int, m: int) -> int {
    ((later - earlier + m / 2) % m) - m / 2
}

/// Distance in minutes between two times of day, the shorter way round the clock.
pub open spec fn circular_minutes_diff_spec(a: int, b: int) -> int {
    circular_diff_spec(a, b, MINUTES_PER_DAY as int)
}

/// Signed shortest way in minutes from `earlier` to `later` round the clock.
pub open spec fn circular_signed_minutes_delta_spec(later: int, earlier: int) -> int {
    circular_signed_delta_spec(later, earlier, MINUTES_PER_DAY as int)
}

proof fn lemma_leq_total()
    ensures
        total_ordering(leq()),
{
}

proof fn lemma_sorted_by_iff(s: Seq<i32>)
    ensures
        sorted_by(s, leq()) <==> is_sorted(s),
{
    if sorted_by(s, leq()) {
        assert forall|i: int, j: int| 0 <= i <= j < s.len() implies s[i] <= s[j] by {
            if i < j {
                assert(leq()(s[i], s[j]));
            }
        }
    }
    if is_sorted(s) {
        assert forall|i: int, j: int| 0 <= i < j < s.len() implies #[trigger] leq()(s[i], s[j]) by {
            assert(s[i] <= s[j]);
        }
    }
}

/// The sorted values are in order and are the same values, each as often.
pub proof fn lemma_sorted_values(s: Seq<i32>)
    ensures
        is_sorted(sorted_values(s)),
        sorted_values(s).to_multiset() == s.to_multiset(),
        sorted_values(s).len() == s.len(),
{
    lemma_leq_total();
    s.lemma_sort_by_ensures(leq());
    lemma_sorted_by_iff(sorted_values(s));
    s.to_multiset_ensures();
    sorted_values(s).to_multiset_ensures();
}

/// Only one sequence is in order and holds the same values as `s`, each as often.
pub proof fn lemma_sort_unique(s: Seq<i32>, t: Seq<i32>)
    requires
        is_sorted(t),
        t.to_multiset() == s.to_multiset(),
    ensures
        t == sorted_values(s),
{
    lemma_sorted_values(s);
    lemma_leq_total();
    lemma_sorted_by_iff(t);
    lemma_sorted_by_iff(sorted_values(s));
    vstd::seq_lib::lemma_sorted_unique(t, sorted_values(s), leq());
}

/// Sorting leaves a sorted sequence as it is.
pub proof fn lemma_sorted_is_fixed(s: Seq<i32>)
    requires
        is_sorted(s),
    ensures
        sorted_values(s) == s,
{
    lemma_sort_unique(s, s);
}

/// A copy of the values in non-decreasing order.
pub fn sorted_copy(values: &Vec<i32>) -> (out: Vec<i32>)
    ensures
        out@ == sorted_values(values@),
        out@.len() == values@.len(),
        is_sorted(out@),
{
    let mut out: Vec<i32> = Vec::new();
    let mut i: usize = 0;
    assert(out@ =~= values@.take(0));
    while i < values.len()
        invariant
            i <= values.len(),
            out@.len() == i,
            is_sorted(out@),
            out@.to_multiset() == values@.take(i as int).to_multiset(),
        decreases values.len() - i,
    {
        let x = values[i];
        let mut pos: usize = 0;
        while pos < out.len() && out[pos] <= x
            invariant
                pos <= out.len(),
                forall|k: int| 0 <= k < pos ==> out@[k] <= x,
            decreases out.len() - pos,
        {
            pos += 1;
        }
        let ghost before = out@;
        out.insert(pos, x);
        proof {
            vstd::seq_lib::to_multiset_insert(before, pos as int, x);
            assert(values@.take(i + 1) =~= values@.take(i as int).push(x));
            vstd::seq_lib::to_multiset_build(values@.take(i as int), x);
            assert forall|a: int, b: int| 0 <= a <= b < out@.len() implies out@[a] <= out@[b] by {
                if b < pos {
                    assert(out@[a] == before[a] && out@[b] == before[b]);
                } else if b == pos {
                    if a < pos {
                        assert(out@[a] == before[a]);
                    }
                } else {
                    assert(out@[b] == before[b - 1]);
                    assert(before[pos as int] > x);
                    assert(before[pos as int] <= before[b - 1]);
                    if a < pos {
                        assert(out@[a] == before[a]);
                    } else if a > pos {
                        assert(out@[a] == before[a - 1]);
                    }
                }
            }
        }
        i += 1;
    }
    proof {
        assert(values@.take(values@.len() as int) =~= values@);
        lemma_sort_unique(values@, out@);
    }
    out
}

/// Linear-interpolated percentile, in hundredths.
///
/// The values are sorted; the rank `pct / 100 * (n - 1)` is split in its
/// whole part and its fractional part; the result is the element at the whole
/// part, moved towards the next element by the fractional part. A `pct` above
/// 100 counts as 100. Returns `None` for no values.
pub fn percentile_linear(values: &Vec<i32>, pct: u32) -> (r: Option<i64>)
    ensures
        same_optional(r, percentile_linear_spec(values@, pct as int)),
        r.is_some() <==> values@.len() > 0,
{
    let n = values.len();
    if n == 0 {
        return None;
    }
    let sorted = sorted_copy(values);
    let p: u128 = if pct > 100 {
        100
    } else {
        pct as u128
    };
    let last: u128 = (n - 1) as u128;
    assert(p * last <= 100 * last) by (nonlinear_arith)
        requires
            p <= 100,
            0 <= last,
    ;
    let t: u128 = p * last;
    let lo: usize = (t / 100) as usize;
    let part: i64 = (t % 100) as i64;
    if part == 0 {
        Some(100 * (sorted[lo] as i64))
    } else {
        let below: i64 = sorted[lo] as i64;
        let above: i64 = sorted[lo + 1] as i64;
        proof {
            lemma_weighted_bounds(100 - part as int, below as int);
            lemma_weighted_bounds(part as int, above as int);
        }
        Some((100 - part) * below + part * above)
    }
}

proof fn lemma_weighted_bounds(w: int, v: int)
    requires
        0 <= w <= 100,
        -0x8000_0000 <= v <= 0x7fff_ffff,
    ensures
        -0x32_0000_0000 <= w * v <= 0x32_0000_0000,
{
    assert(-0x32_0000_0000 <= w * v <= 0x32_0000_0000) by (nonlinear_arith)
        requires
            0 <= w <= 100,
            -0x8000_0000 <= v <= 0x7fff_ffff,
    ;
}

/// Median, in hundredths: the 50th percentile. `None` for no values.
pub fn median(values: &Vec<i32>) -> (r: Option<i64>)
    ensures
        same_optional(r, median_spec(values@)),
        r.is_some() <==> values@.len() > 0,
{
    percentile_linear(values, 50)
}

/// Distance between two points on a circle of circumference `m`: the shorter
/// way round, between 0 and `m / 2`.
pub fn circular_diff(a: i64, b: i64, m: i64) -> (r: i64)
    requires
        m > 0,
    ensures
        r == circular_diff_spec(a as int, b as int, m as int),
        0 <= r,
        2 * r <= m,
{
    let d: i128 = euclid_rem(a as i128 - b as i128, m);
    let other: i128 = m as i128 - d;
    if d <= other {
        d as i64
    } else {
        other as i64
    }
}

/// Remainder of `x` by `m`, between 0 and `m - 1` also for negative `x`.
fn euclid_rem(x: i128, m: i64) -> (r: i128)
    requires
        m > 0,
        -0x1_0000_0000_0000_0000_0000 <= x <= 0x1_0000_0000_0000_0000_0000,
    ensures
        r == (x as int) % (m as int),
        0 <= r < m,
{
    let m_wide: u128 = m as u128;
    if x >= 0 {
        ((x as u128) % m_wide) as i128
    } else {
        let back: u128 = ((-x) as u128) % m_wide;
        proof {
            lemma_rem_of_negative(x as int, m as int);
        }
        if back == 0 {
            0
        } else {
            m as i128 - back as i128
        }
    }
}

proof fn lemma_rem_of_negative(x: int, m: int)
    requires
        m > 0,
    ensures
        x % m == if (-x) % m == 0 {
            0
        } else {
            m - (-x) % m
        },
{
    let q = (-x) / m;
    let r = (-x) % m;
    vstd::arithmetic::div_mod::lemma_fundamental_div_mod(-x, m);
    if r == 0 {
        assert(x == m * (-q) + 0) by (nonlinear_arith)
            requires
                -x == m * q + r,
                r == 0,
        ;
        vstd::arithmetic::div_mod::lemma_fundamental_div_mod_converse(x, m, -q, 0);
    } else {
        assert(x == (-q - 1) * m + (m - r)) by (nonlinear_arith)
            requires
                -x == m * q + r,
        ;
        vstd::arithmetic::div_mod::lemma_fundamental_div_mod_converse(x, m, -q - 1, m - r);
    }
}

/// Signed shortest way from `earlier` to `later` on a circle of
/// circumference `m`: at least `-(m / 2)` and less than `m - m / 2`, which
/// for an even circumference is half of it.
pub fn circular_signed_delta(later: i64, earlier: i64, m: i64) -> (r: i64)
    requires
        m > 0,
    ensures
        r == circular_signed_delta_spec(later as int, earlier as int, m as int),
        -(m / 2) <= r < m - m / 2,
{
    let half: i64 = m / 2;
    let d: i128 = euclid_rem(later as i128 - earlier as i128 + half as i128, m);
    (d - half as i128) as i64
}

/// Distance in minutes between two times of day, the shorter way round the
/// clock: `min((a - b) mod 1440, 1440 - (a - b) mod 1440)`, between 0 and 720.
pub fn circular_minutes_diff(a: i32, b: i32) -> (r: i32)
    ensures
        r == circular_minutes_diff_spec(a as int, b as int),
        0 <= r <= 720,
{
    circular_diff(a as i64, b as i64, MINUTES_PER_DAY) as i32
}

/// Signed shortest way in minutes from `earlier` to `later` round the clock:
/// `((later - earlier + 720) mod 1440) - 720`, at least -720 and less than 720.
pub fn circular_signed_minutes_delta(later: i32, earlier: i32) -> (r: i32)
    ensures
        r == circular_signed_minutes_delta_spec(later as int, earlier as int),
        -720 <= r < 720,
{
    circular_signed_delta(later as i64, earlier as i64, MINUTES_PER_DAY) as i32
}

/// Whether a time of day lies within `threshold` minutes of `center`, the
/// shorter way round the clock.
pub fn within_clock_minute_band(value: i32, center: i32, threshold: i32) -> (r: bool)
    ensures
        r == (circular_minutes_diff_spec(value as int, center as int) <= threshold),
{
    circular_minutes_diff(value, center) <= threshold
}

/// The distance round the circle is the same in both directions, and never
/// more than half the circumference.
pub proof fn lemma_circular_diff_symmetric(a: int, b: int, m: int)
    requires
        m > 0,
    ensures
        circular_diff_spec(a, b, m) == circular_diff_spec(b, a, m),
        0 <= circular_diff_spec(a, b, m),
        2 * circular_diff_spec(a, b, m) <= m,
{
    lemma_rem_of_negative(a - b, m);
    assert(-(a - b) == b - a);
    vstd::arithmetic::div_mod::lemma_mod_bound(a - b, m);
    vstd::arithmetic::div_mod::lemma_mod_bound(b - a, m);
}

/// The distance in minutes between two times of day does not depend on their
/// order, and lies between 0 and 720.
pub proof fn lemma_circular_minutes_diff_symmetric(a: int, b: int)
    ensures
        circular_minutes_diff_spec(a, b) == circular_minutes_diff_spec(b, a),
        0 <= circular_minutes_diff_spec(a, b) <= 720,
{
    lemma_circular_diff_symmetric(a, b, MINUTES_PER_DAY as int);
}

proof fn lemma_interpolate_step(s: Seq<i32>, t: int)
    requires
        is_sorted(s),
        0 <= t < 100 * (s.len() - 1),
    ensures
        interpolate(s, t) <= interpolate(s, t + 1),
{
    let lo = t / 100;
    let part = t % 100;
    assert(0 <= lo < s.len() - 1);
    let a = s[lo] as int;
    let b = s[lo + 1] as int;
    assert(a <= b);
    if part == 99 {
        assert((t + 1) / 100 == lo + 1 && (t + 1) % 100 == 0);
        assert(interpolate(s, t + 1) == 100 * b);
        assert(interpolate(s, t) == 1 * a + 99 * b);
    } else {
        assert((t + 1) / 100 == lo && (t + 1) % 100 == part + 1);
        assert(interpolate(s, t + 1) == (99 - part) * a + (part + 1) * b);
        assert((100 - part) * a + part * b <= (99 - part) * a + (part + 1) * b)
            by (nonlinear_arith)
            requires
                a <= b,
        ;
        if part == 0 {
            assert(interpolate(s, t) == 100 * a);
            assert((100 - part) * a + part * b == 100 * a) by (nonlinear_arith)
                requires
                    part == 0,
            ;
        }
    }
}

proof fn lemma_interpolate_monotonic(s: Seq<i32>, t: int, u: int)
    requires
        is_sorted(s),
        0 <= t <= u <= 100 * (s.len() - 1),
    ensures
        interpolate(s, t) <= interpolate(s, u),
    decreases u - t,
{
    if t < u {
        lemma_interpolate_monotonic(s, t, u - 1);
        lemma_interpolate_step(s, u - 1);
    }
}

/// The percentile of a fixed input does not decrease when the percentage grows.
pub proof fn lemma_percentile_monotonic(values: Seq<i32>, p: int, q: int)
    requires
        values.len() > 0,
        0 <= p <= q,
    ensures
        percentile_linear_spec(values, p).unwrap() <= percentile_linear_spec(values, q).unwrap(),
{
    lemma_sorted_values(values);
    let last = values.len() - 1;
    let cp = clamp_percent(p);
    let cq = clamp_percent(q);
    assert(0 <= cp * last <= cq * last <= 100 * last) by (nonlinear_arith)
        requires
            0 <= cp <= cq <= 100,
            0 <= last,
    ;
    lemma_interpolate_monotonic(sorted_values(values), cp * last, cq * last);
}

/// The median of an odd number of values is the middle one of them in order;
/// for an input that is already in order, its own middle element.
pub proof fn lemma_median_of_odd(values: Seq<i32>)
    requires
        values.len() % 2 == 1,
    ensures
        sorted_values(values).len() == values.len(),
        median_spec(values) == Some(100 * sorted_values(values)[values.len() as int / 2]),
        is_sorted(values) ==> median_spec(values) == Some(100 * values[values.len() as int / 2]),
        percentile_linear_spec(values, 50) == median_spec(values),
{
    lemma_sorted_values(values);
    let half = values.len() as int / 2;
    let last = values.len() - 1;
    assert(clamp_percent(50) == 50);
    assert(clamp_percent(50) * last == 100 * half) by (nonlinear_arith)
        requires
            clamp_percent(50) == 50,
            last == 2 * half,
    ;
    if is_sorted(values) {
        lemma_sorted_is_fixed(values);
    }
}

/// Sum of the values.
pub open spec fn sum_of(s: Seq<i32>) -> int
    decreases s.len(),
{
    if s.len() == 0 {
        0
    } else {
        sum_of(s.drop_last()) + s.last()
    }
}

/// Sum of the squares of the values.
pub open spec fn sum_of_squares(s: Seq<i32>) -> int
    decreases s.len(),
{
    if s.len() == 0 {
        0
    } else {
        sum_of_squares(s.drop_last()) + s.last() * s.last()
    }
}

/// The population variance times the square of the number of values:
/// `n * sum(x^2) - sum(x)^2`.
pub open spec fn spread(s: Seq<i32>) -> int {
    s.len() * sum_of_squares(s) - sum_of(s) * sum_of(s)
}

/// Whether `r` is the population standard deviation in hundredths, rounded
/// down: `r / 100 <= sqrt(spread) / n < (r + 1) / 100`, written without roots.
pub open spec fn is_std_dev(s: Seq<i32>, r: int) -> bool {
    let n = s.len() as int;
    &&& r >= 0
    &&& (r * n) * (r * n) <= 10_000 * spread(s)
    &&& 10_000 * spread(s) < ((r + 1) * n) * ((r + 1) * n)
}

/// Population standard deviation in hundredths, rounded down; nothing for
/// fewer than two values.
pub open spec fn std_dev_spec(s: Seq<i32>) -> Option<int> {
    if s.len() < 2 {
        None
    } else {
        Some(choose|r: int| is_std_dev(s, r))
    }
}

/// At most one number is the rounded-down standard deviation of given values.
pub proof fn lemma_std_dev_unique(s: Seq<i32>, a: int, b: int)
    requires
        s.len() > 0,
        is_std_dev(s, a),
        is_std_dev(s, b),
    ensures
        a == b,
{
    let n = s.len() as int;
    if a < b {
        assert((a + 1) * n <= b * n) by (nonlinear_arith)
            requires
                a + 1 <= b,
                n > 0,
        ;
        assert(0 <= (a + 1) * n) by (nonlinear_arith)
            requires
                a >= 0,
                n > 0,
        ;
        lemma_square_order((a + 1) * n, b * n);
    } else if b < a {
        assert((b + 1) * n <= a * n) by (nonlinear_arith)
            requires
                b + 1 <= a,
                n > 0,
        ;
        assert(0 <= (b + 1) * n) by (nonlinear_arith)
            requires
                b >= 0,
                n > 0,
        ;
        lemma_square_order((b + 1) * n, a * n);
    }
}

/// Sum of the squared distances of the values from `x`.
spec fn sum_sq_dev(s: Seq<i32>, x: int) -> int
    decreases s.len(),
{
    if s.len() == 0 {
        0
    } else {
        sum_sq_dev(s.drop_last(), x) + (s.last() - x) * (s.last() - x)
    }
}

proof fn lemma_sum_sq_dev(s: Seq<i32>, x: int)
    ensures
        sum_sq_dev(s, x) >= 0,
        sum_sq_dev(s, x) == sum_of_squares(s) - 2 * x * sum_of(s) + s.len() * x * x,
    decreases s.len(),
{
    if s.len() > 0 {
        let rest = s.drop_last();
        let y = s.last() as int;
        lemma_sum_sq_dev(rest, x);
        let q = sum_of_squares(rest);
        let t = sum_of(rest);
        let n = rest.len() as int;
        assert((y - x) * (y - x) >= 0) by (nonlinear_arith);
        assert((q - 2 * x * t + n * x * x) + (y - x) * (y - x) == (q + y * y) - 2 * x * (t + y) + (n
            + 1) * x * x) by (nonlinear_arith);
    }
}

proof fn lemma_spread_bounds(s: Seq<i32>)
    ensures
        spread(s) >= 0,
        0 <= sum_of_squares(s) <= s.len() * 0x4000_0000_0000_0000,
        -(s.len() * 0x8000_0000) <= sum_of(s) <= s.len() * 0x8000_0000,
    decreases s.len(),
{
    if s.len() > 0 {
        let rest = s.drop_last();
        let y = s.last() as int;
        lemma_spread_bounds(rest);
        lemma_sum_sq_dev(rest, y);
        let q = sum_of_squares(rest);
        let t = sum_of(rest);
        let n = rest.len() as int;
        assert(0 <= y * y <= 0x4000_0000_0000_0000) by (nonlinear_arith)
            requires
                -0x8000_0000 <= y <= 0x7fff_ffff,
        ;
        assert((n + 1) * (q + y * y) - (t + y) * (t + y) == (n * q - t * t) + (q - 2 * y * t + n * y
            * y)) by (nonlinear_arith);
        assert((n + 1) * 0x4000_0000_0000_0000 == n * 0x4000_0000_0000_0000
            + 0x4000_0000_0000_0000);
    }
}

proof fn lemma_sums_extend(s: Seq<i32>, i: int)
    requires
        0 <= i < s.len(),
    ensures
        sum_of(s.take(i + 1)) == sum_of(s.take(i)) + s[i],
        sum_of_squares(s.take(i + 1)) == sum_of_squares(s.take(i)) + s[i] * s[i],
{
    assert(s.take(i + 1).drop_last() =~= s.take(i));
}

proof fn lemma_square_order(a: int, b: int)
    requires
        0 <= a <= b,
    ensures
        a * a <= b * b,
{
    assert(a * a <= b * b) by (nonlinear_arith)
        requires
            0 <= a <= b,
    ;
}

/// Population standard deviation in hundredths, rounded down.
///
/// Returns `None` for fewer than two values. The sample may hold at most
/// [`MAX_SAMPLES`] values, so that the sums fit in 128 bits.
pub fn std_dev(values: &Vec<i32>) -> (r: Option<i64>)
    requires
        values.len() <= MAX_SAMPLES,
    ensures
        same_optional(r, std_dev_spec(values@)),
        values@.len() < 2 ==> r.is_none(),
        values@.len() >= 2 ==> r.is_some() && is_std_dev(values@, r.unwrap() as int),
        r.is_some() ==> 0 <= r.unwrap() < 0x80_0000_0000,
{
    let n = values.len();
    if n < 2 {
        return None;
    }
    let mut total: i128 = 0;
    let mut squares: i128 = 0;
    let mut i: usize = 0;
    while i < n
        invariant
            i <= n,
            n == values.len(),
            n <= MAX_SAMPLES,
            total == sum_of(values@.take(i as int)),
            squares == sum_of_squares(values@.take(i as int)),
            -(i * 0x8000_0000) <= total <= i * 0x8000_0000,
            0 <= squares <= i * 0x4000_0000_0000_0000,
        decreases n - i,
    {
        let x: i128 = values[i] as i128;
        proof {
            lemma_sums_extend(values@, i as int);
            lemma_spread_bounds(values@.take(i + 1));
            assert(0 <= x * x <= 0x4000_0000_0000_0000) by (nonlinear_arith)
                requires
                    -0x8000_0000 <= x <= 0x7fff_ffff,
            ;
        }
        total = total + x;
        squares = squares + x * x;
        i += 1;
    }
    proof {
        assert(values@.take(n as int) =~= values@);
        lemma_spread_bounds(values@);
    }
    let count: i128 = n as i128;
    assert(0 <= count * squares <= 0x100_0000 * 0x100_0000 * 0x4000_0000_0000_0000)
        by (nonlinear_arith)
        requires
            0 <= count <= 0x100_0000,
            0 <= squares <= count * 0x4000_0000_0000_0000,
    ;
    assert(0 <= total * total <= 0x100_0000 * 0x8000_0000 * (0x100_0000 * 0x8000_0000))
        by (nonlinear_arith)
        requires
            0 <= count <= 0x100_0000,
            -(count * 0x8000_0000) <= total <= count * 0x8000_0000,
    ;
    let target: i128 = 10_000 * (count * squares - total * total);
    assert(target == 10_000 * spread(values@));
    let mut lo: i128 = 0;
    let mut hi: i128 = 0x80_0000_0000;
    proof {
        assert((lo * count) * (lo * count) == 0) by (nonlinear_arith)
            requires
                lo == 0,
        ;
        assert(target < (hi * count) * (hi * count)) by (nonlinear_arith)
            requires
                hi == 0x80_0000_0000,
                count >= 2,
                target <= 10_000 * (count * squares),
                0 <= squares <= count * 0x4000_0000_0000_0000,
        ;
    }
    while hi - lo > 1
        invariant
            0 <= lo < hi <= 0x80_0000_0000,
            2 <= count <= 0x100_0000,
            (lo * count) * (lo * count) <= target,
            target < (hi * count) * (hi * count),
        decreases hi - lo,
    {
        let mid: i128 = lo + (hi - lo) / 2;
        assert(0 <= mid * count <= 0x80_0000_0000 * 0x100_0000) by (nonlinear_arith)
            requires
                0 <= mid <= 0x80_0000_0000,
                0 <= count <= 0x100_0000,
        ;
        let side: i128 = mid * count;
        assert(0 <= side * side <= 0x80_0000_0000 * 0x100_0000 * (0x80_0000_0000 * 0x100_0000))
            by (nonlinear_arith)
            requires
                0 <= side <= 0x80_0000_0000 * 0x100_0000,
        ;
        if side * side <= target {
            lo = mid;
        } else {
            hi = mid;
        }
    }
    assert(hi == lo + 1);
    proof {
        assert(is_std_dev(values@, lo as int));
        lemma_std_dev_unique(values@, lo as int, choose|r: int| is_std_dev(values@, r));
    }
    Some(lo as i64)
}

/// Smallest of the values; `i32::MAX` for no values.
pub open spec fn min_of(s: Seq<i32>) -> int
    decreases s.len(),
{
    if s.len() == 0 {
        i32::MAX as int
    } else if s.last() < min_of(s.drop_last()) {
        s.last() as int
    } else {
        min_of(s.drop_last())
    }
}

/// Largest of the values; `i32::MIN` for no values.
pub open spec fn max_of(s: Seq<i32>) -> int
    decreases s.len(),
{
    if s.len() == 0 {
        i32::MIN as int
    } else if s.last() > max_of(s.drop_last()) {
        s.last() as int
    } else {
        max_of(s.drop_last())
    }
}

/// What one more value does to the sum, the sum of squares, the smallest and the largest.
pub proof fn lemma_push_value(s: Seq<i32>, x: i32)
    ensures
        sum_of(s.push(x)) == sum_of(s) + x,
        sum_of_squares(s.push(x)) == sum_of_squares(s) + x * x,
        min_of(s.push(x)) == if x < min_of(s) {
            x as int
        } else {
            min_of(s)
        },
        max_of(s.push(x)) == if x > max_of(s) {
            x as int
        } else {
            max_of(s)
        },
{
    assert(s.push(x).drop_last() =~= s);
}

/// The sum of `n` values lies within `n` times the range of a value.
pub proof fn lemma_sum_bounds(s: Seq<i32>)
    ensures
        -(s.len() * 0x8000_0000) <= sum_of(s) <= s.len() * 0x8000_0000,
{
    lemma_spread_bounds(s);
}

/// What the next element does to the selection of a prefix: it joins the
/// selection where it meets the condition, and leaves it unchanged otherwise.
pub proof fn lemma_filter_next<A>(s: Seq<A>, pred: spec_fn(A) -> bool, i: int)
    requires
        0 <= i < s.len(),
    ensures
        s.take(i + 1).filter(pred) == if pred(s[i]) {
            s.take(i).filter(pred).push(s[i])
        } else {
            s.take(i).filter(pred)
        },
{
    let t = s.take(i + 1);
    assert(t.len() == i + 1);
    assert(t.drop_last() =~= s.take(i));
    assert(t.last() == s[i]);
    reveal_with_fuel(Seq::filter, 2);
    assert(t.filter(pred) == if pred(t.last()) {
        t.drop_last().filter(pred).push(t.last())
    } else {
        t.drop_last().filter(pred)
    });
}

} // verus!
