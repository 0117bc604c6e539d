//! Derived, spatially-queryable allocation geometry: raw intervals rescaled
//! once into normalized world units, plus the hit test and the unit
//! conversions the cursor readouts use.
//!
//! Normalization is a per-axis affine rescale into grid units: a value `v`
//! on an axis with data extent `e` and target resolution `r` becomes
//! `v * r * FX_ONE / max(e, 1)` (the divisor is floored at one so a
//! degenerate, zero-extent snapshot still yields defined geometry).
use crate::allocation::{lemma_seq_u64_max_ge, max_value_u64, seq_u64_max, Allocation};
use crate::fixed::{clamp_spec, lemma_mul_magnitude, WorldVec, FX_ONE};
use vstd::arithmetic::div_mod::lemma_fundamental_div_mod;
use vstd::prelude::*;

verus! {

/// Largest normalized coordinate magnitude (resolution cap times `FX_ONE`).
pub const GEOM_CAP: i64 = 0x1000000000000;

/// A positive divisor for a data extent: the extent itself, floored at one.
pub open spec fn eff_extent(e: int) -> int {
    if e < 1 {
        1
    } else {
        e
    }
}

/// Normalized grid value of `v` on an axis with extent `extent` and target
/// resolution `res`.
pub open spec fn spec_norm(v: int, extent: int, res: int) -> int {
    (v * res * (FX_ONE as int)) / eff_extent(extent)
}

/// Rescale one value. The value must not exceed the axis extent.
fn norm_value(v: u64, extent: u64, res: u32) -> (r: i64)
    requires
        v as int <= eff_extent(extent as int),
    ensures
        r == spec_norm(v as int, extent as int, res as int),
        0 <= r <= res as int * FX_ONE as int,
{
    let eff: u64 = if extent < 1 {
        1
    } else {
        extent
    };
    proof {
        assert((v as int) * (res as int) <= 0x10000000000000000 * 0x100000000)
            by (nonlinear_arith)
            requires
                0 <= (v as int) <= 0x10000000000000000,
                0 <= (res as int) <= 0x100000000,
        ;
    }
    let num: u128 = (v as u128) * (res as u128) * (FX_ONE as u128);
    let q: u128 = num / (eff as u128);
    proof {
        lemma_fundamental_div_mod(num as int, eff as int);
        assert(q == spec_norm(v as int, extent as int, res as int));
        assert(q <= res as int * FX_ONE as int) by (nonlinear_arith)
            requires
                1 <= eff as int,
                v as int <= eff as int,
                0 <= res as int,
                num as int == (v as int) * (res as int) * (FX_ONE as int),
                num as int == (eff as int) * (q as int) + (num as int % (eff as int)),
                0 <= num as int % (eff as int) < eff as int,
                FX_ONE == 65536,
        ;
    }
    q as i64
}

/// Rescaling preserves order.
proof fn lemma_norm_monotone(v1: int, v2: int, extent: int, res: int)
    requires
        0 <= v1 <= v2,
        0 <= res,
    ensures
        spec_norm(v1, extent, res) <= spec_norm(v2, extent, res),
{
    let e = eff_extent(extent);
    assert(v1 * res * (FX_ONE as int) <= v2 * res * (FX_ONE as int)) by (nonlinear_arith)
        requires
            0 <= v1 <= v2,
            0 <= res,
    ;
    vstd::arithmetic::div_mod::lemma_div_is_ordered(
        v1 * res * (FX_ONE as int),
        v2 * res * (FX_ONE as int),
        e,
    );
}

/// Index of the first element of `s` at or past `i` that is at least `x`
/// (`s.len()` if there is none).
pub open spec fn least_geq(s: Seq<i64>, x: int, i: int) -> int
    decreases s.len() - i,
{
    if i < 0 || i >= s.len() {
        s.len() as int
    } else if s[i] >= x {
        i
    } else {
        least_geq(s, x, i + 1)
    }
}

/// `least_geq` is pinned down by a witness index: the first index whose
/// element reaches `x`.
proof fn lemma_least_geq_from(s: Seq<i64>, x: int, i: int, idx: int)
    requires
        0 <= i <= idx < s.len(),
        s[idx] >= x,
        forall|k: int| i <= k < idx ==> #[trigger] s[k] < x,
    ensures
        least_geq(s, x, i) == idx,
    decreases idx - i,
{
    if i < idx {
        lemma_least_geq_from(s, x, i + 1, idx);
    }
}

/// Per-allocation geometry: the raw trajectories rescaled into grid world
/// units.
pub struct AllocationGeometry {
    pub timesteps: Vec<i64>,
    pub offsets: Vec<i64>,
    pub size: i64,
}

impl AllocationGeometry {
    /// Invariant: index-aligned trajectories of length at least two,
    /// non-decreasing time samples, every value inside the normalized range.
    pub open spec fn wf(self) -> bool {
        &&& self.timesteps@.len() == self.offsets@.len()
        &&& self.timesteps@.len() >= 2
        &&& forall|i: int, j: int|
            0 <= i <= j < self.timesteps@.len() ==> #[trigger] self.timesteps@[i]
                <= #[trigger] self.timesteps@[j]
        &&& forall|i: int| 0 <= i < self.timesteps@.len() ==> 0 <= #[trigger] self.timesteps@[i] <= GEOM_CAP
        &&& forall|i: int| 0 <= i < self.offsets@.len() ==> 0 <= #[trigger] self.offsets@[i] <= GEOM_CAP
        &&& 0 <= self.size <= GEOM_CAP
    }

    /// Number of time samples (equal to the number of offset samples); the
    /// allocation draws one quad per adjacent pair, `num_steps() - 1` in all.
    pub fn num_steps(&self) -> (n: usize)
        requires
            self.wf(),
        ensures
            n == self.timesteps@.len(),
            n == self.offsets@.len(),
            n >= 2,
    {
        self.timesteps.len()
    }

    /// Whether `x` lies in the allocation's closed time range.
    pub open spec fn time_in_range(self, x: int) -> bool {
        self.timesteps@[0] <= x <= self.timesteps@[self.timesteps@.len() - 1]
    }

    /// The interpolation interval for a query time `x` inside the time
    /// range: the standard insertion point, with the first two samples used
    /// when `x` sits exactly on the first sample.
    pub open spec fn interp_interval(self, x: int) -> (int, int) {
        let idx = least_geq(self.timesteps@, x, 0);
        if idx == 0 {
            (0, 1)
        } else {
            (idx - 1, idx)
        }
    }

    /// Whether the world point `(x, y)` lies inside the allocation's
    /// interpolated byte interval at time `x`: with `t` the interpolation
    /// fraction `(x - lt) / (rt - lt)`, the interval's lower bound is
    /// `lerp(ol, or, t)` and its upper bound sits `size` above it; the
    /// comparison is exact (cross-multiplied by `rt - lt`). A zero-width
    /// interpolation interval (two equal rescaled time samples) contains no
    /// point.
    pub open spec fn hit(self, x: int, y: int) -> bool {
        &&& self.time_in_range(x)
        &&& ({
            let (l, r) = self.interp_interval(x);
            let lt = self.timesteps@[l] as int;
            let rt = self.timesteps@[r] as int;
            let ol = self.offsets@[l] as int;
            let onext = self.offsets@[r] as int;
            &&& lt < rt
            &&& (y - ol) * (rt - lt) >= (onext - ol) * (x - lt)
            &&& (y - ol) * (rt - lt) <= (onext - ol) * (x - lt) + self.size * (rt - lt)
        })
    }

    /// Binary search for the insertion point of `x`: the first index whose
    /// time sample is at least `x`.
    fn lookup(&self, x: i64) -> (idx: usize)
        requires
            self.wf(),
            self.time_in_range(x as int),
        ensures
            idx == least_geq(self.timesteps@, x as int, 0),
            idx < self.timesteps@.len(),
            self.timesteps@[idx as int] >= x,
            idx > 0 ==> self.timesteps@[idx as int - 1] < x,
    {
        let n: usize = self.timesteps.len();
        let mut lo: usize = 0;
        let mut hi: usize = n - 1;
        while lo < hi
            invariant
                self.wf(),
                lo <= hi < self.timesteps@.len(),
                self.timesteps@[hi as int] >= x,
                lo > 0 ==> self.timesteps@[lo as int - 1] < x,
            decreases hi - lo,
        {
            let mid: usize = lo + (hi - lo) / 2;
            if self.timesteps[mid] >= x {
                hi = mid;
            } else {
                lo = mid + 1;
            }
        }
        proof {
            assert(forall|k: int|
                0 <= k < lo ==> #[trigger] self.timesteps@[k] <= self.timesteps@[lo as int - 1]);
            lemma_least_geq_from(self.timesteps@, x as int, 0, lo as int);
        }
        lo
    }
}

/// All the derived geometry: the raw allocation records, their rescaled
/// counterparts (index-aligned), the normalization constants, and the target
/// resolution.
pub struct TraceGeometry {
    pub raw_allocs: Vec<Allocation>,
    pub allocations: Vec<AllocationGeometry>,
    pub max_size: u64,
    pub max_time: u64,
    pub resolution: (u32, u32),
}

/// Largest `offset + size` over the first `n` allocations (zero when there
/// are none).
pub open spec fn spec_max_size_upto(allocs: Seq<Allocation>, n: int) -> int
    decreases n,
{
    if n <= 0 {
        0
    } else {
        let rest = spec_max_size_upto(allocs, n - 1);
        let cur = seq_u64_max(allocs[n - 1].offsets@) + allocs[n - 1].size;
        if cur > rest {
            cur
        } else {
            rest
        }
    }
}

/// Largest final time sample over the first `n` allocations (zero when there
/// are none).
pub open spec fn spec_max_time_upto(allocs: Seq<Allocation>, n: int) -> int
    decreases n,
{
    if n <= 0 {
        0
    } else {
        let rest = spec_max_time_upto(allocs, n - 1);
        let cur = allocs[n - 1].timesteps@[allocs[n - 1].timesteps@.len() - 1] as int;
        if cur > rest {
            cur
        } else {
            rest
        }
    }
}

/// Each allocation's own maxima are below the set-wide maxima.
proof fn lemma_maxima_cover(allocs: Seq<Allocation>, a: int, n: int)
    requires
        0 <= a < n <= allocs.len(),
    ensures
        seq_u64_max(allocs[a].offsets@) + allocs[a].size <= spec_max_size_upto(allocs, n),
        allocs[a].timesteps@[allocs[a].timesteps@.len() - 1] <= spec_max_time_upto(allocs, n),
    decreases n,
{
    if a < n - 1 {
        lemma_maxima_cover(allocs, a, n - 1);
    }
}

/// Truncating division (rounding toward zero), for positive divisors; this
/// is how a real-valued quotient is turned into a signed integer readout.
pub open spec fn div_trunc(a: int, b: int) -> int {
    if a >= 0 {
        a / b
    } else {
        -((-a) / b)
    }
}

impl TraceGeometry {
    /// Invariant: geometry is index-aligned with the raw records, every
    /// geometry is well formed, and the resolution is positive.
    pub open spec fn wf(self) -> bool {
        &&& self.raw_allocs@.len() == self.allocations@.len()
        &&& forall|i: int|
            0 <= i < self.allocations@.len() ==> #[trigger] self.allocations@[i].wf()
        &&& forall|i: int|
            0 <= i < self.raw_allocs@.len() ==> (#[trigger] self.raw_allocs@[i]).wf()
                && self.raw_allocs@[i].size <= 0x7fffffffffffffff
                && self.raw_allocs@[i].peak_mem <= 0x7fffffffffffffff
        &&& 1 <= self.resolution.0 <= 0x100000000
        &&& 1 <= self.resolution.1 <= 0x100000000
    }

    /// Whether the point `(x, y)` hits the allocation at index `i`.
    pub open spec fn hit_at(self, i: int, x: int, y: int) -> bool {
        self.allocations@[i].hit(x, y)
    }

    /// Build the normalized geometry from the raw allocation set, once at
    /// load: compute the set-wide maxima, then rescale every trajectory to
    /// the target resolution.
    pub fn from_allocations(allocations: Vec<Allocation>, resolution: (u32, u32)) -> (tg:
        TraceGeometry)
        requires
            forall|i: int| 0 <= i < allocations@.len() ==> #[trigger] allocations@[i].wf(),
            forall|i: int|
                0 <= i < allocations@.len() ==> seq_u64_max(#[trigger] allocations@[i].offsets@)
                    + allocations@[i].size <= u64::MAX,
            forall|i: int|
                0 <= i < allocations@.len() ==> (#[trigger] allocations@[i]).size
                    <= 0x7fffffffffffffff && allocations@[i].peak_mem <= 0x7fffffffffffffff,
            1 <= resolution.0 <= 0x100000000,
            1 <= resolution.1 <= 0x100000000,
        ensures
            tg.wf(),
            tg.raw_allocs@ == allocations@,
            tg.resolution == resolution,
            tg.max_size == spec_max_size_upto(allocations@, allocations@.len() as int),
            tg.max_time == spec_max_time_upto(allocations@, allocations@.len() as int),
            forall|a: int|
                0 <= a < allocations@.len() ==> #[trigger] tg.allocations@[a].timesteps@.len()
                    == allocations@[a].timesteps@.len(),
            forall|a: int, i: int|
                0 <= a < allocations@.len() && 0 <= i < allocations@[a].timesteps@.len()
                    ==> #[trigger] tg.allocations@[a].timesteps@[i] == spec_norm(
                    allocations@[a].timesteps@[i] as int,
                    tg.max_time as int,
                    resolution.0 as int,
                ),
            forall|a: int, i: int|
                0 <= a < allocations@.len() && 0 <= i < allocations@[a].offsets@.len()
                    ==> #[trigger] tg.allocations@[a].offsets@[i] == spec_norm(
                    allocations@[a].offsets@[i] as int,
                    tg.max_size as int,
                    resolution.1 as int,
                ),
            forall|a: int|
                0 <= a < allocations@.len() ==> #[trigger] tg.allocations@[a].size == spec_norm(
                    allocations@[a].size as int,
                    tg.max_size as int,
                    resolution.1 as int,
                ),
    {
        let n: usize = allocations.len();

        let mut max_size: u64 = 0;
        let mut max_time: u64 = 0;
        let mut i: usize = 0;
        while i < n
            invariant
                n == allocations@.len(),
                0 <= i <= n,
                forall|k: int| 0 <= k < n ==> #[trigger] allocations@[k].wf(),
                forall|k: int|
                    0 <= k < n ==> seq_u64_max(#[trigger] allocations@[k].offsets@)
                        + allocations@[k].size <= u64::MAX,
                max_size == spec_max_size_upto(allocations@, i as int),
                max_time == spec_max_time_upto(allocations@, i as int),
            decreases n - i,
        {
            let a = &allocations[i];
            proof {
                assert(allocations@[i as int].wf());
            }
            let peak_base: u64 = max_value_u64(&a.offsets);
            let cur_size: u64 = peak_base + a.size;
            let last: usize = a.timesteps.len() - 1;
            let cur_time: u64 = a.timesteps[last];
            if cur_size > max_size {
                max_size = cur_size;
            }
            if cur_time > max_time {
                max_time = cur_time;
            }
            i = i + 1;
        }

        let mut geoms: Vec<AllocationGeometry> = Vec::new();
        let mut a: usize = 0;
        while a < n
            invariant
                n == allocations@.len(),
                0 <= a <= n,
                forall|k: int| 0 <= k < n ==> #[trigger] allocations@[k].wf(),
                forall|k: int|
                    0 <= k < n ==> seq_u64_max(#[trigger] allocations@[k].offsets@)
                        + allocations@[k].size <= u64::MAX,
                max_size == spec_max_size_upto(allocations@, n as int),
                max_time == spec_max_time_upto(allocations@, n as int),
                1 <= resolution.0 <= 0x100000000,
                1 <= resolution.1 <= 0x100000000,
                geoms@.len() == a,
                forall|k: int| 0 <= k < a ==> #[trigger] geoms@[k].wf(),
                forall|k: int|
                    0 <= k < a ==> #[trigger] geoms@[k].timesteps@.len()
                        == allocations@[k].timesteps@.len(),
                forall|k: int, i2: int|
                    0 <= k < a && 0 <= i2 < allocations@[k].timesteps@.len()
                        ==> #[trigger] geoms@[k].timesteps@[i2] == spec_norm(
                        allocations@[k].timesteps@[i2] as int,
                        max_time as int,
                        resolution.0 as int,
                    ),
                forall|k: int, i2: int|
                    0 <= k < a && 0 <= i2 < allocations@[k].offsets@.len()
                        ==> #[trigger] geoms@[k].offsets@[i2] == spec_norm(
                        allocations@[k].offsets@[i2] as int,
                        max_size as int,
                        resolution.1 as int,
                    ),
                forall|k: int|
                    0 <= k < a ==> #[trigger] geoms@[k].size == spec_norm(
                        allocations@[k].size as int,
                        max_size as int,
                        resolution.1 as int,
                    ),
            decreases n - a,
        {
            let alloc = &allocations[a];
            proof {
                lemma_maxima_cover(allocations@, a as int, n as int);
            }
            let m: usize = alloc.timesteps.len();

            let mut ts: Vec<i64> = Vec::new();
            let mut i2: usize = 0;
            while i2 < m
                invariant
                    alloc.wf(),
                    alloc == allocations@[a as int],
                    0 <= a < n == allocations@.len(),
                    m == alloc.timesteps@.len(),
                    0 <= i2 <= m,
                    alloc.timesteps@[m - 1] <= max_time,
                    1 <= resolution.0 <= 0x100000000,
                    ts@.len() == i2,
                    forall|j: int| 0 <= j < i2 ==> 0 <= #[trigger] ts@[j] <= GEOM_CAP,
                    forall|j: int|
                        0 <= j < i2 ==> #[trigger] ts@[j] == spec_norm(
                            alloc.timesteps@[j] as int,
                            max_time as int,
                            resolution.0 as int,
                        ),
                decreases m - i2,
            {
                proof {
                    if i2 + 1 < m {
                        assert(alloc.timesteps@[i2 as int] < alloc.timesteps@[m - 1]);
                    }
                }
                let v: i64 = norm_value(alloc.timesteps[i2], max_time, resolution.0);
                ts.push(v);
                i2 = i2 + 1;
            }

            let mut offs: Vec<i64> = Vec::new();
            let mut i3: usize = 0;
            while i3 < m
                invariant
                    alloc.wf(),
                    alloc == allocations@[a as int],
                    0 <= a < n == allocations@.len(),
                    m == alloc.offsets@.len(),
                    0 <= i3 <= m,
                    seq_u64_max(alloc.offsets@) + alloc.size <= max_size,
                    1 <= resolution.1 <= 0x100000000,
                    offs@.len() == i3,
                    forall|j: int| 0 <= j < i3 ==> 0 <= #[trigger] offs@[j] <= GEOM_CAP,
                    forall|j: int|
                        0 <= j < i3 ==> #[trigger] offs@[j] == spec_norm(
                            alloc.offsets@[j] as int,
                            max_size as int,
                            resolution.1 as int,
                        ),
                decreases m - i3,
            {
                proof {
                    lemma_seq_u64_max_ge(alloc.offsets@, i3 as int);
                }
                let v: i64 = norm_value(alloc.offsets[i3], max_size, resolution.1);
                offs.push(v);
                i3 = i3 + 1;
            }

            let size: i64 = norm_value(alloc.size, max_size, resolution.1);

            let geom = AllocationGeometry { timesteps: ts, offsets: offs, size };
            proof {
                assert forall|p: int, q: int| 0 <= p <= q < m implies #[trigger] geom.timesteps@[p]
                    <= #[trigger] geom.timesteps@[q] by {
                    if p < q {
                        assert(alloc.timesteps@[p] < alloc.timesteps@[q]);
                    }
                    lemma_norm_monotone(
                        alloc.timesteps@[p] as int,
                        alloc.timesteps@[q] as int,
                        max_time as int,
                        resolution.0 as int,
                    );
                }
                assert(geom.wf());
            }
            geoms.push(geom);
            a = a + 1;
        }

        TraceGeometry {
            raw_allocs: allocations,
            allocations: geoms,
            max_size,
            max_time,
            resolution,
        }
    }

    /// Spatial hit test: scan the allocations in ascending index order and
    /// return the first whose interpolated byte interval at time `pos.x`
    /// contains `pos.y` (first match wins; ties between overlapping
    /// allocations go to the lower index). `None` when no allocation
    /// contains the point; in particular any point whose `x` lies outside
    /// every allocation's time range yields `None`.
    pub fn find_by_pos(&self, pos: WorldVec) -> (found: Option<usize>)
        requires
            self.wf(),
        ensures
            match found {
                Some(i) => {
                    &&& 0 <= i < self.allocations@.len()
                    &&& self.hit_at(i as int, pos.x as int, pos.y as int)
                    &&& forall|j: int| 0 <= j < i ==> !self.hit_at(j, pos.x as int, pos.y as int)
                },
                None => forall|j: int|
                    0 <= j < self.allocations@.len() ==> !self.hit_at(
                        j,
                        pos.x as int,
                        pos.y as int,
                    ),
            },
    {
        let x: i64 = pos.x;
        let y: i64 = pos.y;
        let n: usize = self.allocations.len();
        let mut ia: usize = 0;
        while ia < n
            invariant
                self.wf(),
                n == self.allocations@.len(),
                0 <= ia <= n,
                x == pos.x,
                y == pos.y,
                forall|j: int| 0 <= j < ia ==> !self.hit_at(j, pos.x as int, pos.y as int),
            decreases n - ia,
        {
            let alloc = &self.allocations[ia];
            proof {
                assert(self.allocations@[ia as int].wf());
            }
            let m: usize = alloc.timesteps.len();
            if x < alloc.timesteps[0] || x > alloc.timesteps[m - 1] {
                ia = ia + 1;
                continue ;
            }
            let idx: usize = alloc.lookup(x);
            let l: usize = if idx == 0 {
                0
            } else {
                idx - 1
            };
            let r: usize = if idx == 0 {
                1
            } else {
                idx
            };
            let lt: i64 = alloc.timesteps[l];
            let rt: i64 = alloc.timesteps[r];
            if lt < rt {
                proof {
                    lemma_mul_magnitude(
                        y as int - alloc.offsets@[l as int] as int,
                        rt as int - lt as int,
                        0x10000000000000000,
                        0x1000000000000,
                    );
                    lemma_mul_magnitude(
                        alloc.offsets@[r as int] as int - alloc.offsets@[l as int] as int,
                        x as int - lt as int,
                        0x1000000000000,
                        0x1000000000000,
                    );
                    lemma_mul_magnitude(
                        alloc.size as int,
                        rt as int - lt as int,
                        0x1000000000000,
                        0x1000000000000,
                    );
                }
                let dy: i128 = (y as i128 - alloc.offsets[l] as i128) * ((rt - lt) as i128);
                let lo_num: i128 = ((alloc.offsets[r] as i128 - alloc.offsets[l] as i128)) * ((x as i128
                    - lt as i128));
                let hi_num: i128 = lo_num + (alloc.size as i128) * ((rt - lt) as i128);
                if lo_num <= dy && dy <= hi_num {
                    return Some(ia);
                }
            }
            ia = ia + 1;
        }
        None
    }

    /// A point whose time coordinate lies outside every allocation's time
    /// range hits nothing, so `find_by_pos` returns `None` on it.
    pub proof fn lemma_outside_time_ranges_misses(self, x: int, y: int)
        requires
            forall|j: int|
                0 <= j < self.allocations@.len() ==> !(#[trigger] self.allocations@[j]).time_in_range(x),
        ensures
            forall|j: int| 0 <= j < self.allocations@.len() ==> !self.hit_at(j, x, y),
    {
    }

    /// The details block of the allocation at `idx`.
    pub fn allocation_info(&self, idx: usize) -> (r: String)
        requires
            self.wf(),
            idx < self.raw_allocs@.len(),
        ensures
            r@ == self.raw_allocs@[idx as int].spec_summary(),
    {
        self.raw_allocs[idx].summary()
    }

    /// The message sent to the controller when the allocation at `idx` is
    /// clicked: its index, its details block, and the callstack part of the
    /// database's reply (everything after the first `callstack:` marker;
    /// `None` when the reply carries no such marker).
    pub fn clicked_allocation_message(&self, idx: usize, query_result: &str) -> (r: Option<
        String,
    >)
        requires
            self.wf(),
            idx < self.raw_allocs@.len(),
        ensures
            match r {
                Some(msg) => {
                    &&& crate::strings::contains_sub(query_result@, "callstack:"@)
                    &&& msg@ == "Allocation #"@ + crate::utils::dec_digits(idx as nat) + seq![
                        '\n',
                    ] + self.raw_allocs@[idx as int].spec_summary() + "|- callstack:\n"@
                        + query_result@.skip(
                        crate::strings::sub_match_from(query_result@, "callstack:"@, 0)
                            + "callstack:"@.len(),
                    )
                },
                None => !crate::strings::contains_sub(query_result@, "callstack:"@),
            },
    {
        let hay: Vec<char> = crate::strings::chars_of(query_result);
        let marker: Vec<char> = crate::strings::chars_of("callstack:");
        proof {
            reveal_strlit("callstack:");
            assert(marker@.len() == 10);
        }
        let found: Option<usize> = crate::strings::find_chars(&hay, &marker);
        match found {
            Some(k) => {
                let n: usize = query_result.unicode_len();
                let tail: &str = query_result.substring_char(k + 10, n);
                let mut msg: String = String::new();
                msg.append("Allocation #");
                crate::utils::push_u64(&mut msg, idx as u64);
                msg.append("\n");
                let header: String = self.raw_allocs[idx].summary();
                msg.append(header.as_str());
                msg.append("|- callstack:\n");
                msg.append(tail);
                proof {
                    reveal_strlit("\n");
                    assert(query_result@.subrange(k + 10, n as int) =~= query_result@.skip(
                        k + 10,
                    ));
                    assert(msg@ =~= "Allocation #"@ + crate::utils::dec_digits(idx as nat)
                        + seq!['\n'] + self.raw_allocs@[idx as int].spec_summary()
                        + "|- callstack:\n"@ + query_result@.skip(
                        crate::strings::sub_match_from(query_result@, "callstack:"@, 0) + 10,
                    ));
                }
                Some(msg)
            },
            None => None,
        }
    }

    /// Bytes under a world y coordinate: inverse of the vertical rescale,
    /// truncated toward zero and saturated to the machine word. Negative and
    /// out-of-data-range readouts are allowed (the viewport may extend past
    /// the data).
    pub fn yworld2memory(&self, y_world: i64) -> (bytes: i64)
        requires
            self.wf(),
        ensures
            bytes == clamp_spec(
                div_trunc(
                    y_world * self.max_size,
                    self.resolution.1 as int * FX_ONE as int,
                ),
                i64::MIN as int,
                i64::MAX as int,
            ),
    {
        inverse_scale(y_world, self.max_size, self.resolution.1)
    }

    /// Timestamp under a world x coordinate: inverse of the horizontal
    /// rescale, truncated toward zero and saturated to the machine word.
    pub fn xworld2timestamp(&self, x_world: i64) -> (ts: i64)
        requires
            self.wf(),
        ensures
            ts == clamp_spec(
                div_trunc(
                    x_world * self.max_time,
                    self.resolution.0 as int * FX_ONE as int,
                ),
                i64::MIN as int,
                i64::MAX as int,
            ),
    {
        inverse_scale(x_world, self.max_time, self.resolution.0)
    }
}

/// Shared body of the two inverse unit conversions.
fn inverse_scale(w: i64, extent: u64, res: u32) -> (v: i64)
    requires
        1 <= res,
    ensures
        v == clamp_spec(
            div_trunc(w * extent, res as int * FX_ONE as int),
            i64::MIN as int,
            i64::MAX as int,
        ),
{
    let den: u128 = (res as u128) * 65536;
    proof {
        assert(den >= 65536) by (nonlinear_arith)
            requires
                den as int == (res as int) * 65536,
                res >= 1,
        ;
        assert(den as int == res as int * FX_ONE as int);
    }
    if w >= 0 {
        proof {
            assert((w as int) * (extent as int) < 0x80000000000000000000000000000000)
                by (nonlinear_arith)
                requires
                    0 <= (w as int) < 0x8000000000000000,
                    0 <= (extent as int) < 0x10000000000000000,
            ;
        }
        let num: u128 = (w as u128) * (extent as u128);
        let q: u128 = num / den;
        proof {
            assert(num as int == (w as int) * (extent as int));
            assert(q as int == div_trunc(w as int * extent as int, res as int * FX_ONE as int));
        }
        if q > i64::MAX as u128 {
            i64::MAX
        } else {
            q as i64
        }
    } else {
        proof {
            assert((-(w as int)) * (extent as int) < 0x80000000000000000000000000000000)
                by (nonlinear_arith)
                requires
                    0 <= -(w as int) <= 0x8000000000000000,
                    0 <= (extent as int) < 0x10000000000000000,
            ;
        }
        let mag: u128 = (-(w as i128)) as u128;
        let num: u128 = mag * (extent as u128);
        let q: u128 = num / den;
        proof {
            assert(num as int == (-(w as int)) * (extent as int));
            assert((-(w as int)) * (extent as int) == -((w as int) * (extent as int)))
                by (nonlinear_arith);
            assert(-(q as int) == div_trunc(w as int * extent as int, res as int * FX_ONE as int));
        }
        if q >= 0x8000000000000000u128 {
            i64::MIN
        } else {
            -(q as i64)
        }
    }
}

} // verus!
