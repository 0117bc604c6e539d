//! Axis-tick placement: choosing a legible byte interval for a visible byte
//! range and enumerating the tick values inside it.
//!
//! Tick candidates are the powers of four from `1` to `4^15`. For a visible
//! span the coarsest candidate that still yields more than `min_ticks`
//! gridlines is chosen; the ticks themselves are the non-negative multiples of
//! that interval inside the visible range, in ascending order.
use crate::fixed::{
    div_floor_i128, fx_mul, lemma_div_floor_magnitude, lemma_mul_magnitude, WorldVec, FX_ONE,
};
use crate::utils::{format_bytes_precision, spec_format_bytes};
use vstd::arithmetic::div_mod::lemma_fundamental_div_mod;
use vstd::prelude::*;

verus! {

/// Number of candidate intervals (powers of four `4^0 .. 4^(NUM_CANDIDATES-1)`).
pub const NUM_CANDIDATES: u64 = 16;

/// `4^k`.
pub open spec fn pow4(k: nat) -> int
    decreases k,
{
    if k == 0 {
        1
    } else {
        4 * pow4((k - 1) as nat)
    }
}

/// Absolute value.
pub open spec fn abs_spec(x: int) -> int {
    if x < 0 {
        -x
    } else {
        x
    }
}

/// The interval picked for a span among the candidates `4^0 ..= 4^k`: the
/// largest one whose gridline count exceeds `min_ticks`, or `1` if none
/// qualifies.
pub open spec fn best_interval(k: nat, span: int, min_ticks: int) -> int
    decreases k,
{
    if span > min_ticks * pow4(k) {
        pow4(k)
    } else if k == 0 {
        1
    } else {
        best_interval((k - 1) as nat, span, min_ticks)
    }
}

/// The interval `choose_interval` returns for the byte range `[a, b]`.
pub open spec fn spec_choose_interval(a: int, b: int, min_ticks: int) -> int {
    best_interval((NUM_CANDIDATES - 1) as nat, abs_spec(b - a), min_ticks)
}

proof fn lemma_pow4_positive(k: nat)
    ensures
        pow4(k) >= 1,
    decreases k,
{
    if k > 0 {
        lemma_pow4_positive((k - 1) as nat);
    }
}

/// From the fixed ascending list of candidate intervals (powers of four),
/// select the largest one that still yields more than `min_ticks` gridlines
/// over the byte range `[a, b]`; fall back to the smallest candidate.
pub fn choose_interval(a: i64, b: i64, min_ticks: u64) -> (interval: i64)
    ensures
        interval == spec_choose_interval(a as int, b as int, min_ticks as int),
        1 <= interval <= 1073741824,
{
    let span: i128 = if b >= a {
        (b as i128) - (a as i128)
    } else {
        (a as i128) - (b as i128)
    };
    assert(span == abs_spec(b - a));

    let mut k: u64 = NUM_CANDIDATES - 1;
    let mut cand: i64 = 1073741824;
    proof {
        reveal_with_fuel(pow4, 17);
        assert(cand == pow4((NUM_CANDIDATES - 1) as nat));
    }

    loop
        invariant
            k < NUM_CANDIDATES,
            cand == pow4(k as nat),
            1 <= cand <= 1073741824,
            span == abs_spec(b - a),
            best_interval((NUM_CANDIDATES - 1) as nat, span as int, min_ticks as int)
                == best_interval(k as nat, span as int, min_ticks as int),
        decreases k,
    {
        proof {
            assert((min_ticks as int) * (cand as int) <= 0x10000000000000000 * 0x40000000)
                by (nonlinear_arith)
                requires
                    0 <= min_ticks as int <= 0x10000000000000000,
                    0 <= cand as int <= 0x40000000,
            ;
        }
        if span > (min_ticks as i128) * (cand as i128) {
            return cand;
        }
        if k == 0 {
            return 1;
        }
        k = k - 1;
        proof {
            lemma_pow4_positive(k as nat);
            assert(cand == 4 * pow4(k as nat));
            assert(4 * pow4(k as nat) / 4 == pow4(k as nat)) by (nonlinear_arith)
                requires
                    pow4(k as nat) >= 1,
            ;
        }
        cand = cand / 4;
    }
}

/// Index of the first non-negative tick at or above `lo`: the smallest
/// `k >= 0` with `k * interval >= lo`.
pub open spec fn first_tick_index(lo: int, interval: int) -> int {
    if lo <= 0 {
        0
    } else {
        (lo + interval - 1) / interval
    }
}

/// Index of the last tick at or below `hi`: the largest `k` with
/// `k * interval <= hi` (negative when `hi < 0`, making the range empty).
pub open spec fn last_tick_index(hi: int, interval: int) -> int {
    hi / interval
}

/// How many ticks `[lo, hi]` holds for a given interval.
pub open spec fn tick_count(lo: int, hi: int, interval: int) -> int {
    if last_tick_index(hi, interval) >= first_tick_index(lo, interval) {
        last_tick_index(hi, interval) - first_tick_index(lo, interval) + 1
    } else {
        0
    }
}

/// Enumerate the non-negative multiples of the chosen interval that lie in
/// `[min(low, high), max(low, high)]`, in ascending order.
pub fn generate_ticks(low_bytes: i64, high_bytes: i64) -> (ticks: Vec<i64>)
    ensures
        ({
            let lo = if low_bytes <= high_bytes { low_bytes as int } else { high_bytes as int };
            let hi = if low_bytes <= high_bytes { high_bytes as int } else { low_bytes as int };
            let interval = spec_choose_interval(low_bytes as int, high_bytes as int, 8);
            &&& ticks@.len() == tick_count(lo, hi, interval)
            &&& forall|i: int|
                0 <= i < ticks@.len() ==> #[trigger] ticks@[i] == (first_tick_index(lo, interval)
                    + i) * interval
            &&& forall|i: int| 0 <= i < ticks@.len() ==> 0 <= #[trigger] ticks@[i] <= hi
            &&& forall|i: int| 0 <= i < ticks@.len() ==> lo <= #[trigger] ticks@[i]
        }),
{
    let interval: i64 = choose_interval(low_bytes, high_bytes, 8);
    let lo: i64 = if low_bytes <= high_bytes {
        low_bytes
    } else {
        high_bytes
    };
    let hi: i64 = if low_bytes <= high_bytes {
        high_bytes
    } else {
        low_bytes
    };
    let iv: i128 = interval as i128;
    let hi128: i128 = hi as i128;

    let first: i128 = if lo <= 0 {
        0
    } else {
        (((lo as u128) + (interval as u128) - 1) / (interval as u128)) as i128
    };
    proof {
        if lo > 0 {
            assert(first == first_tick_index(lo as int, interval as int));
            lemma_fundamental_div_mod(lo as int + interval as int - 1, interval as int);
            assert(first * iv >= lo && first <= lo) by (nonlinear_arith)
                requires
                    iv == interval as int,
                    1 <= iv,
                    1 <= lo,
                    lo as int + iv - 1 == (iv as int) * first + ((lo as int + iv - 1) % (iv as int)),
                    0 <= ((lo as int + iv - 1) % (iv as int)) < (iv as int),
            ;
        }
    }

    let mut ticks: Vec<i64> = Vec::new();
    let mut k: i128 = first;
    proof {
        assert(first * (iv as int) <= 0x7fffffffffffffff * 0x40000000 && first * (iv as int) >= 0)
            by (nonlinear_arith)
            requires
                0 <= first <= 0x7fffffffffffffff,
                1 <= iv as int <= 0x40000000,
        ;
        if lo <= 0 {
            assert(first == 0);
            assert(first * (iv as int) == 0) by (nonlinear_arith)
                requires
                    first == 0,
            ;
        }
        assert(first * (iv as int) >= lo);
    }
    let mut tick: i128 = first * iv;
    while tick <= hi128
        invariant
            iv == interval as int,
            1 <= iv <= 1073741824,
            hi128 == hi as int,
            first == first_tick_index(lo as int, iv as int),
            0 <= first <= 0x7fffffffffffffff,
            first <= k,
            first * (iv as int) >= lo,
            tick == k * (iv as int),
            0 <= tick <= 0x7fffffffffffffff + 0x40000000,
            k == first || k <= last_tick_index(hi as int, iv as int) + 1,
            ticks@.len() == k - first,
            forall|i: int| 0 <= i < ticks@.len() ==> #[trigger] ticks@[i] == (first + i) * (iv as int),
            forall|i: int| 0 <= i < ticks@.len() ==> 0 <= #[trigger] ticks@[i] <= hi as int,
            forall|i: int| 0 <= i < ticks@.len() ==> lo as int <= #[trigger] ticks@[i],
            tick >= lo || k == first,
        decreases hi128 + iv - tick,
    {
        proof {
            lemma_fundamental_div_mod(hi as int, iv as int);
            assert(k <= last_tick_index(hi as int, iv as int)) by (nonlinear_arith)
                requires
                    k * (iv as int) <= hi as int,
                    0 <= k,
                    1 <= iv as int,
                    hi as int == (iv as int) * (hi as int / (iv as int)) + (hi as int % (iv as int)),
                    0 <= (hi as int % (iv as int)) < (iv as int),
            ;
            assert((k + 1) * (iv as int) == k * (iv as int) + (iv as int)) by (nonlinear_arith);
        }
        ticks.push(tick as i64);
        k = k + 1;
        tick = tick + iv;
    }
    proof {
        lemma_fundamental_div_mod(hi as int, iv as int);
        assert(k > last_tick_index(hi as int, iv as int)) by (nonlinear_arith)
            requires
                k * (iv as int) > hi as int,
                1 <= iv,
                hi as int == (iv as int) * (hi as int / (iv as int)) + (hi as int % (iv as int)),
                0 <= (hi as int % (iv as int)) < (iv as int),
        ;
    }
    ticks
}

/// Axis-tick placement for the memory axis: a tick value, its world
/// position, and its formatted label.
pub struct PlacedTick {
    pub bytes: i64,
    pub world_x: i64,
    pub world_y: i64,
    pub label: String,
}

/// Generates placed, labelled ticks for the visible byte range, using the
/// camera's current scale and center.
pub struct TickGenerator {
    pub resolution: (u32, u32),
    pub fontsize_px: i64,
}

impl TickGenerator {
    /// Invariant: positive, machine-sized viewport; a sane font height in
    /// grid units.
    pub open spec fn wf(self) -> bool {
        &&& 1 <= self.resolution.0 <= 0x100000000
        &&& 1 <= self.resolution.1 <= 0x100000000
        &&& 0 <= self.fontsize_px <= 0x10000000
    }

    /// A tick generator for the given viewport and font height (grid units).
    pub fn new(resolution: (u32, u32), fontsize_px: i64) -> (g: TickGenerator)
        requires
            1 <= resolution.0 <= 0x100000000,
            1 <= resolution.1 <= 0x100000000,
            0 <= fontsize_px <= 0x10000000,
        ensures
            g.wf(),
            g.resolution == resolution,
            g.fontsize_px == fontsize_px,
    {
        TickGenerator { resolution, fontsize_px }
    }

    /// The world y position of a tick value: its fraction of the visible
    /// byte range becomes a viewport pixel height (center-aligned on the
    /// font), which is converted to world coordinates exactly as the camera
    /// converts screen positions.
    pub open spec fn spec_tick_world_y(
        self,
        t: int,
        low: int,
        high: int,
        scale: int,
        cy: int,
    ) -> int {
        let ratio = ((t - low) * (FX_ONE as int)) / (high - low);
        let spy = ratio * (self.resolution.1 as int) - self.fontsize_px / 2;
        cy + fx_mul(spy - (self.resolution.1 as int / 2) * (FX_ONE as int), scale)
    }

    /// The world x position every memory tick shares: the viewport's left
    /// edge.
    pub open spec fn spec_tick_world_x(self, scale: int, cx: int) -> int {
        cx + fx_mul(-((self.resolution.0 as int / 2) * (FX_ONE as int)), scale)
    }

    /// Place and label one tick per value of `generate_ticks(low, high)`.
    pub fn generate_memory_ticks(
        &self,
        low_bytes: i64,
        high_bytes: i64,
        scale: i64,
        screen_center_world: WorldVec,
    ) -> (placed: Vec<PlacedTick>)
        requires
            self.wf(),
            low_bytes < high_bytes,
            0 < scale <= 2 * FX_ONE,
            -0x100000000000000 <= screen_center_world.x <= 0x100000000000000,
            -0x100000000000000 <= screen_center_world.y <= 0x100000000000000,
        ensures
            ({
                let interval = spec_choose_interval(low_bytes as int, high_bytes as int, 8);
                &&& placed@.len() == tick_count(low_bytes as int, high_bytes as int, interval)
                &&& forall|i: int|
                    0 <= i < placed@.len() ==> #[trigger] placed@[i].bytes == (first_tick_index(
                        low_bytes as int,
                        interval,
                    ) + i) * interval
                &&& forall|i: int|
                    0 <= i < placed@.len() ==> #[trigger] placed@[i].world_y
                        == self.spec_tick_world_y(
                        placed@[i].bytes as int,
                        low_bytes as int,
                        high_bytes as int,
                        scale as int,
                        screen_center_world.y as int,
                    )
                &&& forall|i: int|
                    0 <= i < placed@.len() ==> #[trigger] placed@[i].world_x
                        == self.spec_tick_world_x(scale as int, screen_center_world.x as int)
                &&& forall|i: int|
                    0 <= i < placed@.len() ==> #[trigger] placed@[i].label@ == "\u{2014}\u{2014} "@
                        + spec_format_bytes(placed@[i].bytes as int, 4)
            }),
    {
        let ticks: Vec<i64> = generate_ticks(low_bytes, high_bytes);
        let n: usize = ticks.len();
        let mut placed: Vec<PlacedTick> = Vec::new();
        let mut i: usize = 0;
        let span: i128 = (high_bytes as i128) - (low_bytes as i128);
        while i < n
            invariant
                self.wf(),
                low_bytes < high_bytes,
                0 < scale <= 2 * FX_ONE,
                -0x100000000000000 <= screen_center_world.x <= 0x100000000000000,
                -0x100000000000000 <= screen_center_world.y <= 0x100000000000000,
                span == high_bytes as int - low_bytes as int,
                n == ticks@.len(),
                0 <= i <= n,
                ({
                    let interval = spec_choose_interval(low_bytes as int, high_bytes as int, 8);
                    &&& ticks@.len() == tick_count(low_bytes as int, high_bytes as int, interval)
                    &&& forall|j: int|
                        0 <= j < ticks@.len() ==> #[trigger] ticks@[j] == (first_tick_index(
                            low_bytes as int,
                            interval,
                        ) + j) * interval
                }),
                forall|j: int|
                    0 <= j < ticks@.len() ==> low_bytes as int <= #[trigger] ticks@[j]
                        <= high_bytes as int,
                placed@.len() == i,
                forall|j: int| 0 <= j < i ==> #[trigger] placed@[j].bytes == ticks@[j],
                forall|j: int|
                    0 <= j < i ==> #[trigger] placed@[j].world_y == self.spec_tick_world_y(
                        ticks@[j] as int,
                        low_bytes as int,
                        high_bytes as int,
                        scale as int,
                        screen_center_world.y as int,
                    ),
                forall|j: int|
                    0 <= j < i ==> #[trigger] placed@[j].world_x == self.spec_tick_world_x(
                        scale as int,
                        screen_center_world.x as int,
                    ),
                forall|j: int|
                    0 <= j < i ==> #[trigger] placed@[j].label@ == "\u{2014}\u{2014} "@
                        + spec_format_bytes(ticks@[j] as int, 4),
            decreases n - i,
        {
            let t: i64 = ticks[i];
            proof {
                lemma_mul_magnitude(
                    t as int - low_bytes as int,
                    FX_ONE as int,
                    0x20000000000000000,
                    FX_ONE as int,
                );
            }
            let ratio: i128 = div_floor_i128(
                ((t as i128) - (low_bytes as i128)) * (FX_ONE as i128),
                span,
            );
            proof {
                vstd::arithmetic::div_mod::lemma_div_is_ordered(
                    (t as int - low_bytes as int) * (FX_ONE as int),
                    (high_bytes as int - low_bytes as int) * (FX_ONE as int),
                    span as int,
                );
                assert((t as int - low_bytes as int) * (FX_ONE as int) <= (high_bytes as int
                    - low_bytes as int) * (FX_ONE as int)) by (nonlinear_arith)
                    requires
                        t as int - low_bytes as int <= high_bytes as int - low_bytes as int,
                        FX_ONE as int > 0,
                ;
                vstd::arithmetic::div_mod::lemma_div_multiples_vanish(
                    FX_ONE as int,
                    span as int,
                );
                assert(span as int * FX_ONE as int == (high_bytes as int - low_bytes as int) * (
                FX_ONE as int));
                assert(ratio <= FX_ONE);
            }
            proof {
                assert(ratio >= 0) by {
                    assert((t as int - low_bytes as int) * (FX_ONE as int) >= 0)
                        by (nonlinear_arith)
                        requires
                            t as int - low_bytes as int >= 0,
                            FX_ONE as int > 0,
                    ;
                }
                lemma_mul_magnitude(ratio as int, self.resolution.1 as int, 0x10000, 0x100000000);
            }
            let spy: i128 = ratio * (self.resolution.1 as i128) - (((self.fontsize_px
                as u64) / 2) as i128);
            let mid_y: i128 = ((self.resolution.1 / 2) as i128) * (FX_ONE as i128);
            let mid_x: i128 = ((self.resolution.0 / 2) as i128) * (FX_ONE as i128);
            proof {
                lemma_mul_magnitude(spy as int - mid_y as int, scale as int, 0x10000000000000, 2
                    * FX_ONE as int);
                lemma_mul_magnitude(-mid_x as int, scale as int, 0x1000000000000, 2
                    * FX_ONE as int);
            }
            let wy_off: i128 = div_floor_i128(
                (spy - mid_y) * (scale as i128),
                FX_ONE as i128,
            );
            let wx_off: i128 = div_floor_i128(
                (-mid_x) * (scale as i128),
                FX_ONE as i128,
            );
            proof {
                lemma_div_floor_magnitude(
                    (spy as int - mid_y as int) * (scale as int),
                    FX_ONE as int,
                    wy_off as int,
                    0x200000000000000000,
                    FX_ONE as int,
                    0x20000000000000,
                );
                lemma_div_floor_magnitude(
                    (-mid_x as int) * (scale as int),
                    FX_ONE as int,
                    wx_off as int,
                    0x20000000000000000,
                    FX_ONE as int,
                    0x2000000000000,
                );
            }
            let world_y: i64 = ((screen_center_world.y as i128) + wy_off) as i64;
            let world_x: i64 = ((screen_center_world.x as i128) + wx_off) as i64;

            let mut label: String = String::new();
            label.append("\u{2014}\u{2014} ");
            let value: String = format_bytes_precision(t, 4);
            label.append(value.as_str());
            proof {
                assert(label@ =~= "\u{2014}\u{2014} "@ + spec_format_bytes(t as int, 4));
                assert(self.fontsize_px as int / 2 == ((self.fontsize_px as u64) / 2) as int);
            }
            placed.push(PlacedTick { bytes: t, world_x, world_y, label });
            proof {
                assert(placed@[i as int].label@ == "\u{2014}\u{2014} "@ + spec_format_bytes(
                    ticks@[i as int] as int,
                    4,
                ));
                assert(forall|j: int|
                    0 <= j < i ==> placed@[j] == placed@.subrange(0, i as int)[j]);
            }
            i = i + 1;
        }
        placed
    }
}


} // verus!
