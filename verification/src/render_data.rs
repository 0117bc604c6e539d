//! Renderable data derived from allocation geometry: two triangles (one
//! quad) per adjacent pair of time samples, and a random mid-brightness
//! color per allocation.
use crate::geometry::AllocationGeometry;
use vstd::prelude::*;

use rand::RngExt;

verus! {

/// An sRGB color with alpha.
#[derive(Clone, Copy, Debug, PartialEq, Eq, Structural)]
pub struct Color {
    pub r: u8,
    pub g: u8,
    pub b: u8,
    pub a: u8,
}

/// A mesh vertex in grid world units.
#[derive(Clone, Copy, Debug, PartialEq, Eq, Structural)]
pub struct Vertex {
    pub x: i64,
    pub y: i64,
    pub z: i64,
}

/// Relies on rand's `random_range` over `0..=255`: the sample lies in the
/// range (nothing more is assumed of a random value).
#[verifier::external_body]
fn random_color_component() -> (r: u32)
    ensures
        r <= 255,
{
    rand::rng().random_range(0..=255u32)
}

/// Pick a random allocation color, rejecting shades that are too light or
/// too dark; the result is always mid-brightness and mostly transparent.
/// The rejection is retried a bounded number of times and then falls back
/// to a neutral mid-gray, so the draw always terminates.
pub fn random_alloc_color() -> (c: Color)
    ensures
        150 < c.r + c.g + c.b < 600,
        c.a == 30,
{
    let mut attempts: u32 = 0;
    while attempts < 64
        invariant
            attempts <= 64,
        decreases 64 - attempts,
    {
        let r: u32 = random_color_component();
        let g: u32 = random_color_component();
        let b: u32 = random_color_component();
        let sum: u32 = r + g + b;
        if 150 < sum && sum < 600 {
            return Color { r: r as u8, g: g as u8, b: b as u8, a: 30 };
        }
        attempts = attempts + 1;
    }
    Color { r: 100, g: 100, b: 100, a: 30 }
}

/// The vertex at position `i` of an allocation's triangle list: each quad
/// spans one time interval, as two triangles of three vertices each, listed
/// bottom-left, bottom-right, top-left, then top-left, bottom-right,
/// top-right.
pub open spec fn vertex_at(g: AllocationGeometry, z: int, i: int) -> Vertex {
    let q = i / 6;
    let r = i % 6;
    let this_time = g.timesteps@[q];
    let next_time = g.timesteps@[q + 1];
    let this_lo = g.offsets@[q];
    let next_lo = g.offsets@[q + 1];
    let this_hi = this_lo + g.size;
    let next_hi = next_lo + g.size;
    if r == 0 {
        Vertex { x: this_time as i64, y: this_lo as i64, z: z as i64 }
    } else if r == 1 {
        Vertex { x: next_time as i64, y: next_lo as i64, z: z as i64 }
    } else if r == 2 {
        Vertex { x: this_time as i64, y: (this_hi) as i64, z: z as i64 }
    } else if r == 3 {
        Vertex { x: this_time as i64, y: (this_hi) as i64, z: z as i64 }
    } else if r == 4 {
        Vertex { x: next_time as i64, y: next_lo as i64, z: z as i64 }
    } else {
        Vertex { x: next_time as i64, y: (next_hi) as i64, z: z as i64 }
    }
}

/// The whole triangle list of one allocation: six vertices per quad, one
/// quad per adjacent pair of samples — `num_steps() - 1` quads in all.
pub open spec fn quad_verts(g: AllocationGeometry, z: int) -> Seq<Vertex> {
    Seq::new((6 * (g.timesteps@.len() - 1)) as nat, |i: int| vertex_at(g, z, i))
}

/// Emit the triangle list for one allocation: one quad (two triangles, six
/// vertices) per adjacent pair of samples.
pub fn geometry_vertices(g: &AllocationGeometry, z: i64) -> (verts: Vec<Vertex>)
    requires
        g.wf(),
        -0x1000000000000 <= z <= 0x1000000000000,
    ensures
        verts@ == quad_verts(*g, z as int),
        verts@.len() == 6 * (g.timesteps@.len() - 1),
{
    let n: usize = g.timesteps.len();
    let mut verts: Vec<Vertex> = Vec::new();
    let mut q: usize = 0;
    while q < n - 1
        invariant
            g.wf(),
            n == g.timesteps@.len(),
            0 <= q <= n - 1,
            -0x1000000000000 <= z <= 0x1000000000000,
            verts@.len() == 6 * q,
            forall|i: int| 0 <= i < verts@.len() ==> #[trigger] verts@[i] == vertex_at(*g, z as int, i),
        decreases n - 1 - q,
    {
        let this_time: i64 = g.timesteps[q];
        let next_time: i64 = g.timesteps[q + 1];
        let this_lo: i64 = g.offsets[q];
        let next_lo: i64 = g.offsets[q + 1];
        let this_hi: i64 = this_lo + g.size;
        let next_hi: i64 = next_lo + g.size;
        verts.push(Vertex { x: this_time, y: this_lo, z });
        verts.push(Vertex { x: next_time, y: next_lo, z });
        verts.push(Vertex { x: this_time, y: this_hi, z });
        verts.push(Vertex { x: this_time, y: this_hi, z });
        verts.push(Vertex { x: next_time, y: next_lo, z });
        verts.push(Vertex { x: next_time, y: next_hi, z });
        proof {
            assert forall|i: int| 6 * q <= i < 6 * q + 6 implies verts@[i] == vertex_at(
                *g,
                z as int,
                i,
            ) by {
                assert(i / 6 == q && i % 6 == i - 6 * q) by (nonlinear_arith)
                    requires
                        6 * q <= i < 6 * q + 6,
                        q >= 0,
                ;
            }
        }
        q = q + 1;
    }
    proof {
        assert(verts@ =~= quad_verts(*g, z as int));
    }
    verts
}

/// Total number of vertices the first `n` allocations contribute.
pub open spec fn total_verts(geoms: Seq<AllocationGeometry>, n: int) -> int
    decreases n,
{
    if n <= 0 {
        0
    } else {
        total_verts(geoms, n - 1) + 6 * (geoms[n - 1].timesteps@.len() - 1)
    }
}

/// The triangle lists of the first `n` allocations, concatenated.
pub open spec fn all_quad_verts(geoms: Seq<AllocationGeometry>, z: int, n: int) -> Seq<Vertex>
    decreases n,
{
    if n <= 0 {
        Seq::empty()
    } else {
        all_quad_verts(geoms, z, n - 1) + quad_verts(geoms[n - 1], z)
    }
}

/// Build the combined triangle list for all allocations at a common depth,
/// pairing each allocation with the given color and repeating that color
/// for each of its vertices.
pub fn from_allocations_with_z(
    geoms: &Vec<AllocationGeometry>,
    alloc_colors: &Vec<Color>,
    z: i64,
) -> (out: (Vec<Vertex>, Vec<Color>))
    requires
        forall|i: int| 0 <= i < geoms@.len() ==> (#[trigger] geoms@[i]).wf(),
        alloc_colors@.len() == geoms@.len(),
        -0x1000000000000 <= z <= 0x1000000000000,
    ensures
        out.0@ == all_quad_verts(geoms@, z as int, geoms@.len() as int),
        out.0@.len() == total_verts(geoms@, geoms@.len() as int),
        out.1@.len() == out.0@.len(),
{
    let n: usize = geoms.len();
    let mut verts: Vec<Vertex> = Vec::new();
    let mut vert_colors: Vec<Color> = Vec::new();
    let mut a: usize = 0;
    while a < n
        invariant
            n == geoms@.len(),
            alloc_colors@.len() == n,
            0 <= a <= n,
            forall|i: int| 0 <= i < n ==> (#[trigger] geoms@[i]).wf(),
            -0x1000000000000 <= z <= 0x1000000000000,
            verts@ == all_quad_verts(geoms@, z as int, a as int),
            verts@.len() == total_verts(geoms@, a as int),
            vert_colors@.len() == verts@.len(),
        decreases n - a,
    {
        let g = &geoms[a];
        let color: Color = alloc_colors[a];
        let gv: Vec<Vertex> = geometry_vertices(g, z);
        let m: usize = gv.len();
        let ghost before = verts@;
        let mut i: usize = 0;
        while i < m
            invariant
                m == gv@.len(),
                0 <= i <= m,
                verts@ == before + gv@.take(i as int),
                before.len() == total_verts(geoms@, a as int),
                vert_colors@.len() == verts@.len(),
                n == geoms@.len(),
                alloc_colors@.len() == n,
                a < n,
                forall|k: int| 0 <= k < n ==> (#[trigger] geoms@[k]).wf(),
                -0x1000000000000 <= z <= 0x1000000000000,
            decreases m - i,
        {
            verts.push(gv[i]);
            vert_colors.push(color);
            proof {
                assert(verts@ =~= before + gv@.take(i + 1));
            }
            i = i + 1;
        }
        proof {
            assert(gv@.take(m as int) =~= gv@);
            assert(verts@ =~= all_quad_verts(geoms@, z as int, a + 1));
        }
        a = a + 1;
    }
    (verts, vert_colors)
}

/// Build the triangle list at depth zero, with a fresh random color per
/// allocation.
pub fn from_allocations(geoms: &Vec<AllocationGeometry>) -> (out: (
    Vec<Vertex>,
    Vec<Color>,
    Vec<Color>,
))
    requires
        forall|i: int| 0 <= i < geoms@.len() ==> (#[trigger] geoms@[i]).wf(),
    ensures
        out.0@ == all_quad_verts(geoms@, 0, geoms@.len() as int),
        out.0@.len() == total_verts(geoms@, geoms@.len() as int),
        out.1@.len() == out.0@.len(),
        out.2@.len() == geoms@.len(),
        forall|i: int|
            0 <= i < out.2@.len() ==> 150 < #[trigger] out.2@[i].r + out.2@[i].g + out.2@[i].b
                < 600,
{
    let n: usize = geoms.len();
    let mut alloc_colors: Vec<Color> = Vec::new();
    let mut i: usize = 0;
    while i < n
        invariant
            0 <= i <= n,
            alloc_colors@.len() == i,
            forall|k: int|
                0 <= k < i ==> 150 < #[trigger] alloc_colors@[k].r + alloc_colors@[k].g
                    + alloc_colors@[k].b < 600,
        decreases n - i,
    {
        let c: Color = random_alloc_color();
        alloc_colors.push(c);
        i = i + 1;
    }
    let (verts, vert_colors) = from_allocations_with_z(geoms, &alloc_colors, 0);
    (verts, vert_colors, alloc_colors)
}

} // verus!
