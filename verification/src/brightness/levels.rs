//! Conversions between hardware brightness values and percentages.
use vstd::prelude::*;

verus! {

/// `x / y` rounded to the nearest integer, halves rounded up (`y > 0`, `x >= 0`).
pub open spec fn div_round(x: int, y: int) -> int {
    (2 * x + y) / (2 * y)
}

/// `raw` clamped into `[min, max]`.
pub open spec fn clamp_spec(raw: int, min: int, max: int) -> int {
    if raw < min {
        min
    } else if raw > max {
        max
    } else {
        raw
    }
}

/// The percentage of the range `[min, max]` that `raw` stands at, rounded.
pub open spec fn percent_of(raw: u32, min: u32, max: u32) -> int {
    if max <= min {
        0
    } else {
        div_round(100 * (clamp_spec(raw as int, min as int, max as int) - min), max - min)
    }
}

/// The raw value that stands at `percent` (capped at 100) of `[min, max]`, rounded.
pub open spec fn raw_of(percent: u32, min: u32, max: u32) -> int {
    if max <= min {
        min as int
    } else {
        let p = if percent > 100 { 100int } else { percent as int };
        min + div_round(p * (max - min), 100)
    }
}

proof fn lemma_div_round_bounds(x: int, y: int, k: int)
    requires
        y > 0,
        0 <= x <= k * y,
        k >= 0,
    ensures
        0 <= div_round(x, y) <= k,
{
    let n = 2 * x + y;
    let d = 2 * y;
    vstd::arithmetic::div_mod::lemma_fundamental_div_mod(n, d);
    vstd::arithmetic::div_mod::lemma_mod_bound(n, d);
    let q = n / d;
    let r = n % d;
    assert(0 <= q <= k) by (nonlinear_arith)
        requires
            n == d * q + r,
            0 <= r < d,
            n == 2 * x + y,
            d == 2 * y,
            0 <= x <= k * y,
            y > 0,
            k >= 0,
    ;
}

/// The percentage at which `raw` stands in `[min, max]` (0 for an empty
/// range), computed exactly in integers and rounded half up. Floating-point
/// arithmetic can land just below an exact half and round down: 23 in
/// `[0, 40]` is 57.5%, which gives 58 here.
pub fn raw_to_percent(raw: u32, min: u32, max: u32) -> (p: u32)
    ensures
        p == percent_of(raw, min, max),
        p <= 100,
{
    if max <= min {
        return 0;
    }
    let c = if raw < min {
        min
    } else if raw > max {
        max
    } else {
        raw
    };
    let num: u64 = 100 * ((c - min) as u64);
    let den: u64 = (max - min) as u64;
    proof {
        lemma_div_round_bounds(num as int, den as int, 100);
    }
    let q: u64 = (2 * num + den) / (2 * den);
    q as u32
}

/// The raw value at `percent` (capped at 100) of `[min, max]` (`min` for an
/// empty range), computed exactly in integers and rounded half up. Floating-
/// point arithmetic can land just below an exact half and round down: 29% of
/// `[0, 50]` is 14.5, which gives 15 here.
pub fn percent_to_raw(percent: u32, min: u32, max: u32) -> (r: u32)
    ensures
        r == raw_of(percent, min, max),
        max > min ==> min <= r <= max,
        max <= min ==> r == min,
{
    if max <= min {
        return min;
    }
    let p: u64 = if percent > 100 {
        100
    } else {
        percent as u64
    };
    let span: u64 = (max - min) as u64;
    assert(p * span <= 100 * 0xffff_ffff) by (nonlinear_arith)
        requires
            p <= 100,
            span <= 0xffff_ffff,
    ;
    let num: u64 = p * span;
    proof {
        assert(p * span <= 100 * span) by (nonlinear_arith)
            requires
                p <= 100,
        ;
        lemma_div_round_bounds(num as int, 100, span as int);
    }
    let q: u64 = (2 * num + 100) / 200;
    (min as u64 + q) as u32
}

/// Converting a percentage to a raw value and back gives the percentage again
/// (capped at 100) when the raw range has at least 100 steps.
pub proof fn lemma_percent_round_trip(percent: u32, min: u32, max: u32)
    requires
        max >= min + 100,
    ensures
        percent_of(raw_of(percent, min, max) as u32, min, max) == if percent > 100 {
            100
        } else {
            percent as int
        },
{
    let p: int = if percent > 100 { 100 } else { percent as int };
    let s: int = max - min;
    let q = div_round(p * s, 100);
    // q = round(p * s / 100): |100 q - p s| <= 50
    assert(200 * q <= 2 * p * s + 100 && 2 * p * s + 100 < 200 * q + 200) by (nonlinear_arith)
        requires
            q == (2 * (p * s) + 100) / 200,
    ;
    assert(0 <= q <= s) by {
        assert(p * s <= 100 * s) by (nonlinear_arith)
            requires
                0 <= p <= 100,
                s >= 0,
        ;
        assert(0 <= p * s) by (nonlinear_arith)
            requires
                0 <= p,
                s >= 0,
        ;
        lemma_div_round_bounds(p * s, 100, s);
    }
    let r = min + q;
    assert(raw_of(percent, min, max) == r);
    assert(clamp_spec(r, min as int, max as int) == r);
    // percent_of(r) = (200 q + s) / (2 s)
    let t = (2 * (100 * q) + s) / (2 * s);
    assert(t == p) by (nonlinear_arith)
        requires
            t == (2 * (100 * q) + s) / (2 * s),
            200 * q <= 2 * p * s + 100,
            2 * p * s + 100 < 200 * q + 200,
            s >= 100,
    {
        // 200 q + s >= 2 p s - 100 + s >= 2 p s   and   200 q + s < 2 p s + 100 + s <= 2 p s + 2 s
        assert(2 * s * p <= 200 * q + s);
        assert(200 * q + s < 2 * s * (p + 1));
    }
}

/// `target` widened to a signed 32-bit value the way `u32 as i32` reinterprets it.
pub open spec fn as_i32(x: u32) -> int {
    if x <= 0x7fff_ffff {
        x as int
    } else {
        x - 0x1_0000_0000
    }
}

/// Distance between two levels as the level search measures it.
pub open spec fn level_distance(a: u32, b: u32) -> int {
    let d = as_i32(a) - as_i32(b);
    if d < 0 {
        -d
    } else {
        d
    }
}

/// The signed difference of two levels stays inside the 32-bit range.
pub open spec fn distance_in_range(a: u32, b: u32) -> bool {
    -0x7fff_ffff <= as_i32(a) - as_i32(b) <= 0x7fff_ffff
}

fn level_distance_exec(a: u32, b: u32) -> (d: i64)
    requires
        distance_in_range(a, b),
    ensures
        d == level_distance(a, b),
{
    let ai: i64 = if a <= 0x7fff_ffff {
        a as i64
    } else {
        a as i64 - 0x1_0000_0000
    };
    let bi: i64 = if b <= 0x7fff_ffff {
        b as i64
    } else {
        b as i64 - 0x1_0000_0000
    };
    let d = ai - bi;
    if d < 0 {
        -d
    } else {
        d
    }
}

/// Index of the first level closest to `target` among `levels[0..n]`.
pub open spec fn nearest_index(target: u32, levels: Seq<u32>, n: int) -> int
    decreases n,
{
    if n <= 1 {
        0
    } else {
        let i = nearest_index(target, levels, n - 1);
        if level_distance(target, levels[n - 1]) < level_distance(target, levels[i]) {
            n - 1
        } else {
            i
        }
    }
}

/// The supported level closest to `target`; the first one on a tie. Without
/// levels, `target` capped at 100.
pub open spec fn nearest_level(target: u32, levels: Seq<u32>) -> u32 {
    if levels.len() == 0 {
        if target > 100 {
            100
        } else {
            target
        }
    } else {
        levels[nearest_index(target, levels, levels.len() as int)]
    }
}

proof fn lemma_nearest_index_props(target: u32, levels: Seq<u32>, n: int)
    requires
        1 <= n <= levels.len(),
    ensures
        0 <= nearest_index(target, levels, n) < n,
        forall|j: int|
            0 <= j < n ==> level_distance(target, levels[nearest_index(target, levels, n)])
                <= level_distance(target, #[trigger] levels[j]),
        forall|j: int|
            0 <= j < nearest_index(target, levels, n) ==> level_distance(
                target,
                levels[nearest_index(target, levels, n)],
            ) < level_distance(target, #[trigger] levels[j]),
    decreases n,
{
    if n > 1 {
        lemma_nearest_index_props(target, levels, n - 1);
    }
}

/// The level the search picks is one of the levels, is at least as close to
/// `target` as every other level, and is strictly closer than every earlier one.
pub proof fn lemma_nearest_level_is_nearest(target: u32, levels: Seq<u32>)
    requires
        levels.len() > 0,
    ensures
        levels.contains(nearest_level(target, levels)),
        forall|j: int|
            0 <= j < levels.len() ==> level_distance(target, nearest_level(target, levels))
                <= level_distance(target, #[trigger] levels[j]),
{
    lemma_nearest_index_props(target, levels, levels.len() as int);
}

pub fn find_nearest_level(target: u32, levels: &[u32]) -> (r: u32)
    requires
        forall|j: int| 0 <= j < levels@.len() ==> distance_in_range(target, #[trigger] levels@[j]),
    ensures
        r == nearest_level(target, levels@),
{
    if levels.len() == 0 {
        return if target > 100 {
            100
        } else {
            target
        };
    }
    let mut best_i: usize = 0;
    let mut min_diff = level_distance_exec(target, levels[0]);
    let mut k: usize = 1;
    while k < levels.len()
        invariant
            1 <= k <= levels@.len(),
            best_i < k,
            best_i == nearest_index(target, levels@, k as int),
            min_diff == level_distance(target, levels@[best_i as int]),
            forall|j: int| 0 <= j < levels@.len() ==> distance_in_range(target, #[trigger] levels@[j]),
        decreases levels.len() - k,
    {
        proof {
            lemma_nearest_index_props(target, levels@, k as int);
        }
        let diff = level_distance_exec(target, levels[k]);
        if diff < min_diff {
            min_diff = diff;
            best_i = k;
        }
        k = k + 1;
    }
    levels[best_i]
}

} // verus!
