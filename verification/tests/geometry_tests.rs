use snapviewer::allocation::{Allocation, RawAllocationData};
use snapviewer::fixed::WorldVec;
use snapviewer::geometry::TraceGeometry;
use snapviewer::render_data;

const K: i64 = 65536;

fn scenario_allocation() -> Allocation {
    RawAllocationData {
        timesteps: vec![0, 100, 200],
        offsets: vec![0, 50, 0],
        size: 50,
    }
    .into_allocation()
}

fn scenario_geometry() -> TraceGeometry {
    TraceGeometry::from_allocations(vec![scenario_allocation()], (200, 100))
}

#[test]
fn scenario_hit_at_interpolated_interval() {
    // max_time = 200 over a 200-wide viewport and max_size = 100 over a
    // 100-high one leave both axes unscaled; at x = 100 the interpolated
    // interval is [50, 100], so (100, 75) hits the allocation.
    let tg = scenario_geometry();
    assert_eq!(tg.max_time, 200);
    assert_eq!(tg.max_size, 100);
    let hit = tg.find_by_pos(WorldVec { x: 100 * K, y: 75 * K });
    assert_eq!(hit, Some(0));
}

#[test]
fn miss_outside_every_time_range() {
    let tg = scenario_geometry();
    assert_eq!(tg.find_by_pos(WorldVec { x: 300 * K, y: 50 * K }), None);
    assert_eq!(tg.find_by_pos(WorldVec { x: -5 * K, y: 50 * K }), None);
}

#[test]
fn miss_outside_byte_interval() {
    let tg = scenario_geometry();
    // at x = 100 the interval is [50, 100]; 25 lies below it
    assert_eq!(tg.find_by_pos(WorldVec { x: 100 * K, y: 25 * K }), None);
    // at x = 50 the interval is [25, 75]; 80 lies above it
    assert_eq!(tg.find_by_pos(WorldVec { x: 50 * K, y: 80 * K }), None);
    assert_eq!(tg.find_by_pos(WorldVec { x: 50 * K, y: 70 * K }), Some(0));
}

#[test]
fn first_match_wins_on_overlap() {
    let a = RawAllocationData {
        timesteps: vec![0, 200],
        offsets: vec![0, 0],
        size: 100,
    }
    .into_allocation();
    let b = RawAllocationData {
        timesteps: vec![0, 200],
        offsets: vec![0, 0],
        size: 100,
    }
    .into_allocation();
    let tg = TraceGeometry::from_allocations(vec![a, b], (200, 100));
    assert_eq!(tg.find_by_pos(WorldVec { x: 50 * K, y: 50 * K }), Some(0));
}

#[test]
fn unit_conversions_invert_the_rescale() {
    let tg = scenario_geometry();
    assert_eq!(tg.yworld2memory(50 * K), 50);
    assert_eq!(tg.xworld2timestamp(100 * K), 100);
    assert_eq!(tg.yworld2memory(-2 * K), -2);
    assert_eq!(tg.xworld2timestamp(0), 0);
}

#[test]
fn peak_data_is_derived_from_offsets() {
    let a = scenario_allocation();
    assert_eq!(a.peak_mem, 100);
    assert_eq!(a.peak_timestamps, vec![100]);
    assert!(a.is_alive_at(0));
    assert!(a.is_alive_at(200));
    assert!(!a.is_alive_at(201));
    assert!(a.is_alive_in_interval(10, 190));
    assert!(!a.is_alive_in_interval(10, 201));
    assert_eq!(a.start_end_time(), (0, 200));
}

#[test]
fn one_quad_per_adjacent_sample_pair() {
    let tg = scenario_geometry();
    let g = &tg.allocations[0];
    assert_eq!(g.num_steps(), 3);
    let verts = render_data::geometry_vertices(g, 0);
    // number of renderable quads = num_steps - 1, at six vertices per quad
    assert_eq!(verts.len(), 6 * (g.num_steps() - 1));
    // first quad's bottom-left vertex is the first sample
    assert_eq!(verts[0].x, g.timesteps[0]);
    assert_eq!(verts[0].y, g.offsets[0]);
}

#[test]
fn combined_mesh_counts_and_colors() {
    let tg = scenario_geometry();
    let (verts, vert_colors, alloc_colors) = render_data::from_allocations(&tg.allocations);
    assert_eq!(verts.len(), 12);
    assert_eq!(vert_colors.len(), verts.len());
    assert_eq!(alloc_colors.len(), 1);
    let c = alloc_colors[0];
    let sum = c.r as u32 + c.g as u32 + c.b as u32;
    assert!(150 < sum && sum < 600);
    assert_eq!(c.a, 30);
}

#[test]
fn degenerate_empty_set_uses_floored_extents() {
    let tg = TraceGeometry::from_allocations(vec![], (200, 100));
    assert_eq!(tg.max_size, 0);
    assert_eq!(tg.max_time, 0);
    assert_eq!(tg.find_by_pos(WorldVec { x: 0, y: 0 }), None);
    assert_eq!(tg.yworld2memory(7 * K), 0);
}
