use snapviewer::allocation::RawAllocationData;
use snapviewer::database::{format_query_rows, Frame};
use snapviewer::geometry::TraceGeometry;
use snapviewer::lining::generate_lining_segments;

fn scenario_geometry() -> TraceGeometry {
    let alloc = RawAllocationData {
        timesteps: vec![0, 100, 200],
        offsets: vec![0, 50, 0],
        size: 50,
    }
    .into_allocation();
    TraceGeometry::from_allocations(vec![alloc], (200, 100))
}

#[test]
fn allocation_summary_lists_the_details() {
    let tg = scenario_geometry();
    let info = tg.allocation_info(0);
    assert_eq!(
        info,
        "Allocation Details:\n\
         |- Size: 50.00 B\n\
         |- Peak Memory: 100.00 B\n\
         |- Peak Timestamps: [100]\n\
         |- Timesteps: start 0, stop 200\n\
         |- Offsets: omitted\n"
    );
}

#[test]
fn clicked_message_appends_the_callstack() {
    let tg = scenario_geometry();
    let reply = "| idx | 0 |\ncallstack:\n  at main (main.py:1)";
    let msg = tg.clicked_allocation_message(0, reply).unwrap();
    assert!(msg.starts_with("Allocation #0\nAllocation Details:\n"));
    assert!(msg.ends_with("|- callstack:\n\n  at main (main.py:1)"));
    assert_eq!(tg.clicked_allocation_message(0, "no marker here"), None);
}

#[test]
fn query_rows_format_as_a_fixed_width_table() {
    let cols = vec![
        String::from("idx"),
        String::from("size"),
        String::from("callstack"),
    ];
    let rows = vec![vec![
        String::from("1"),
        String::from("2048"),
        String::from("  at foo"),
    ]];
    let out = format_query_rows(&cols, &rows);
    let expected = "\n========== SQL Query Results ==========\n\
        \n\nRow   0:\n\
        +------------------------+------------------------+\n\
        | idx                    | 1                      |\n\
        | size                   | 2048                   |\n\
        +------------------------+------------------------+\n\
        callstack:\n  at foo";
    assert_eq!(out, expected);
}

#[test]
fn query_rows_without_rows_show_only_the_banner() {
    let cols = vec![String::from("idx")];
    let out = format_query_rows(&cols, &vec![]);
    assert_eq!(out, "\n========== SQL Query Results ==========\n");
}

#[test]
fn frame_lines_render_like_a_callstack() {
    let f = Frame {
        name: String::from("alloc"),
        filename: String::from("kernel.py"),
        line: 42,
    };
    assert_eq!(f.line_text(), "  at alloc (kernel.py:42)");
}

#[test]
fn lining_covers_edges_and_steps() {
    let tg = scenario_geometry();
    let g = &tg.allocations[0];
    let segs = generate_lining_segments(g);
    assert_eq!(segs.len(), 2 + 2 * (g.num_steps() - 1));
    // the left edge is vertical at the first sample
    assert_eq!(segs[0].x1, g.timesteps[0]);
    assert_eq!(segs[0].x2, g.timesteps[0]);
    assert_eq!(segs[0].y2 - segs[0].y1, g.size);
    // the first bottom segment follows the offset trajectory
    assert_eq!(segs[2].x1, g.timesteps[0]);
    assert_eq!(segs[2].x2, g.timesteps[1]);
    assert_eq!(segs[2].y2, g.offsets[1]);
}
