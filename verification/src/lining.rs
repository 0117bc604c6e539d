//! Outline segments for a highlighted allocation: its left and right
//! edges, and the bottom and top polylines along its offset trajectory.
use crate::geometry::AllocationGeometry;
use vstd::prelude::*;

verus! {

/// A line segment in grid world units.
#[derive(Clone, Copy, Debug, PartialEq, Eq, Structural)]
pub struct Segment {
    pub x1: i64,
    pub y1: i64,
    pub x2: i64,
    pub y2: i64,
}

/// The outline segment at position `i`: first the left and right vertical
/// edges, followed by the bottom and top segments of each time interval.
pub open spec fn segment_at(g: AllocationGeometry, i: int) -> Segment {
    let last = g.timesteps@.len() - 1;
    if i == 0 {
        (Segment {
            x1: g.timesteps@[0],
            y1: g.offsets@[0],
            x2: g.timesteps@[0],
            y2: (g.offsets@[0] + g.size) as i64,
        })
    } else if i == 1 {
        (Segment {
            x1: g.timesteps@[last],
            y1: g.offsets@[last],
            x2: g.timesteps@[last],
            y2: (g.offsets@[last] + g.size) as i64,
        })
    } else {
        let k = (i - 2) / 2;
        if (i - 2) % 2 == 0 {
            (Segment {
                x1: g.timesteps@[k],
                y1: g.offsets@[k],
                x2: g.timesteps@[k + 1],
                y2: g.offsets@[k + 1],
            })
        } else {
            (Segment {
                x1: g.timesteps@[k],
                y1: (g.offsets@[k] + g.size) as i64,
                x2: g.timesteps@[k + 1],
                y2: (g.offsets@[k + 1] + g.size) as i64,
            })
        }
    }
}

/// Emit the outline of one allocation: the two vertical edges, followed by
/// one bottom and one top segment per time interval.
pub fn generate_lining_segments(g: &AllocationGeometry) -> (segs: Vec<Segment>)
    requires
        g.wf(),
    ensures
        segs@.len() == 2 + 2 * (g.timesteps@.len() - 1),
        forall|i: int| 0 <= i < segs@.len() ==> #[trigger] segs@[i] == segment_at(*g, i),
{
    let n: usize = g.timesteps.len();
    let mut segs: Vec<Segment> = Vec::new();
    segs.push(
        Segment {
            x1: g.timesteps[0],
            y1: g.offsets[0],
            x2: g.timesteps[0],
            y2: g.offsets[0] + g.size,
        },
    );
    segs.push(
        Segment {
            x1: g.timesteps[n - 1],
            y1: g.offsets[n - 1],
            x2: g.timesteps[n - 1],
            y2: g.offsets[n - 1] + g.size,
        },
    );
    let mut k: usize = 0;
    while k < n - 1
        invariant
            g.wf(),
            n == g.timesteps@.len(),
            0 <= k <= n - 1,
            segs@.len() == 2 + 2 * k,
            forall|i: int| 0 <= i < segs@.len() ==> #[trigger] segs@[i] == segment_at(*g, i),
        decreases n - 1 - k,
    {
        segs.push(
            Segment {
                x1: g.timesteps[k],
                y1: g.offsets[k],
                x2: g.timesteps[k + 1],
                y2: g.offsets[k + 1],
            },
        );
        segs.push(
            Segment {
                x1: g.timesteps[k],
                y1: g.offsets[k] + g.size,
                x2: g.timesteps[k + 1],
                y2: g.offsets[k + 1] + g.size,
            },
        );
        proof {
            assert forall|i: int| 2 + 2 * k <= i < 2 + 2 * k + 2 implies segs@[i] == segment_at(
                *g,
                i,
            ) by {
                assert((i - 2) / 2 == k && (i - 2) % 2 == i - 2 - 2 * k) by (nonlinear_arith)
                    requires
                        2 * k <= i - 2 < 2 * k + 2,
                        k >= 0,
                ;
            }
        }
        k = k + 1;
    }
    segs
}

} // verus!
