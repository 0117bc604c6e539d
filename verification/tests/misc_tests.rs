use snapviewer::cache;
use snapviewer::fixed::WorldVec;
use snapviewer::load;
use snapviewer::palette::PaletteName;
use snapviewer::render_loop::{FpsTimer, InputEvent, MouseButton, RendererCore, ViewerKey, FrameNotice};
use snapviewer::repl::{classify_db_command, DbCommand};
use snapviewer::utils::{format_bytes, format_bytes_precision};
use snapviewer::viewer_repl::{classify_viewer_command, make_communicate, Repl, ViewerCommand};
use snapviewer::allocation::RawAllocationData;
use snapviewer::strings::{parse_i64, parse_u64};
use snapviewer::geometry::TraceGeometry;

const K: i64 = 65536;

#[test]
fn format_bytes_uses_binary_prefixes() {
    assert_eq!(format_bytes(0), "0.00 B");
    assert_eq!(format_bytes(1023), "1023.00 B");
    assert_eq!(format_bytes(1536), "1.50 KiB");
    assert_eq!(format_bytes(-1536), "-1.50 KiB");
    assert_eq!(format_bytes_precision(1048576, 4), "1.0000 MiB");
    assert_eq!(format_bytes_precision(1048576 + 524288, 1), "1.5 MiB");
    assert_eq!(format_bytes_precision(3, 0), "3 B");
    assert_eq!(format_bytes_precision(1099511627776, 2), "1.00 TiB");
}

#[test]
fn content_hash_is_a_real_digest() {
    // the well-known blake3 digest of the empty input
    let h = cache::compute_content_hash(&vec![]);
    assert_eq!(h, "af1349b9f5f9a1a6a0404dea36dcc9499bcb25c9adc112b7cc9a93cae41f3262");
    let h2 = cache::compute_content_hash(&vec![0u8, 1, 2]);
    assert_eq!(h2.len(), 64);
    assert_ne!(h, h2);
    assert_eq!(cache::cache_key(&h2, 3), format!("{h2}_dev3_v0"));
}

#[test]
fn element_file_names_parse_exactly() {
    assert_eq!(load::element_file_name("elements_0.json"), Some(0));
    assert_eq!(load::element_file_name("elements_137.json"), Some(137));
    assert_eq!(load::element_file_name("elements_.json"), None);
    assert_eq!(load::element_file_name("elements_12.json5"), None);
    assert_eq!(load::element_file_name("allocations.json"), None);
    assert_eq!(load::element_file_name("elements_1x.json"), None);
}

#[test]
fn shard_bookkeeping() {
    assert!(load::all_shards_present(&vec![2, 0, 1], 3));
    assert!(!load::all_shards_present(&vec![2, 0], 3));
    assert!(load::all_shards_present(&vec![], 0));
    assert!(load::entry_counts_usable(3, 3));
    assert!(!load::entry_counts_usable(0, 0));
    assert!(!load::entry_counts_usable(3, 2));
}

#[test]
fn viewer_commands_classify() {
    assert!(matches!(classify_viewer_command("  "), ViewerCommand::Empty));
    assert!(matches!(classify_viewer_command("--help "), ViewerCommand::Help));
    assert!(matches!(classify_viewer_command("--quit"), ViewerCommand::Quit));
    assert!(matches!(classify_viewer_command("--show 12"), ViewerCommand::Show(a) if a == "12"));
    assert!(matches!(classify_viewer_command("--show"), ViewerCommand::ShowUsage));
    assert!(matches!(classify_viewer_command("--show 1 2"), ViewerCommand::ShowUsage));
    assert!(matches!(classify_viewer_command("hello"), ViewerCommand::Unknown));
}

#[test]
fn show_rejects_bad_arguments() {
    let (tx, rx) = make_communicate();
    let repl = Repl::new(tx);
    assert!(repl.show(&vec![]).is_err());
    assert!(repl.show(&vec![String::from("1"), String::from("2")]).is_err());
    assert!(repl.show(&vec![String::from("abc")]).is_err());
    // a well-formed index reaches the channel
    assert!(repl.show(&vec![String::from("7")]).is_ok());
    assert_eq!(rx.alloc_idx.recv(), Ok(7));
}

#[test]
fn db_commands_classify() {
    assert!(matches!(classify_db_command("\t\n"), DbCommand::Empty));
    assert!(matches!(classify_db_command(" --quit "), DbCommand::Quit));
    assert!(matches!(classify_db_command("--help"), DbCommand::Help));
    assert!(matches!(classify_db_command("--schema"), DbCommand::Schema));
    assert!(matches!(classify_db_command("--frobnicate"), DbCommand::UnknownSpecial(t) if t == "--frobnicate"));
    assert!(matches!(classify_db_command("SELECT 1"), DbCommand::Sql(t) if t == "SELECT 1"));
}

#[test]
fn palettes_and_labels() {
    assert_eq!(PaletteName::Cute.label(), "cute");
    assert_eq!(PaletteName::Default.label(), "default");
    assert_eq!(PaletteName::Night.label(), "night");
    let p = PaletteName::Night.palette();
    assert_eq!(p.window_bg.r, 0x12);
    assert_eq!(p.accent.a, 255);
}

#[test]
fn fps_timer_counts_frames() {
    let mut t = FpsTimer::new();
    assert_eq!(t.frame, 0);
    t.tick();
    assert!(t.frame <= 1);
}

fn demo_core() -> RendererCore {
    let alloc = RawAllocationData {
        timesteps: vec![0, 100, 200],
        offsets: vec![0, 50, 0],
        size: 50,
    }
    .into_allocation();
    let tg = TraceGeometry::from_allocations(vec![alloc], (200, 100));
    RendererCore::new(tg)
}

#[test]
fn render_loop_reacts_to_events() {
    let mut core = demo_core();
    let z0 = core.transform.zoom;
    let n = core.handle_event(InputEvent::MouseWheel { delta_y: 1, position: (0, 0) });
    assert!(n.is_none());
    assert!(core.transform.zoom > z0);
    let n = core.handle_event(InputEvent::KeyPress { key: ViewerKey::A });
    assert!(n.is_none());
    let n = core.handle_event(InputEvent::KeyPress { key: ViewerKey::Other });
    assert!(n.is_none());

    // a left click on the allocation reports its index
    let n = core.handle_event(InputEvent::MousePress {
        button: MouseButton::Middle,
        position: (100 * K, 50 * K),
    });
    assert!(n.is_none());
}

#[test]
fn right_click_reports_the_cursor_position() {
    let mut core = demo_core();
    // the fresh camera is centered on the plot middle at unit zoom, so the
    // viewport's pixel center maps to world (100, 50): 50 bytes, step 100
    let n = core.handle_event(InputEvent::MousePress {
        button: MouseButton::Right,
        position: (100 * K, 50 * K),
    });
    match n {
        Some(FrameNotice::CursorReadout(s)) => {
            assert_eq!(s, "Cursor is at :\n    memory: 50.000 B\n    timestamp: 100");
        }
        other => panic!("unexpected notice: {:?}", other.is_some()),
    }
}

#[test]
fn left_click_finds_the_allocation() {
    let mut core = demo_core();
    let n = core.handle_event(InputEvent::MousePress {
        button: MouseButton::Left,
        position: (100 * K, 75 * K),
    });
    assert!(matches!(n, Some(FrameNotice::AllocationClicked(0))));
    let n = core.handle_event(InputEvent::MousePress {
        button: MouseButton::Left,
        position: (100 * K, 10 * K),
    });
    assert!(n.is_none());
}

#[test]
fn parse_helpers_accept_exactly_numerals() {
    assert_eq!(parse_u64("0"), Some(0));
    assert_eq!(parse_u64("18446744073709551615"), Some(u64::MAX));
    assert_eq!(parse_u64("18446744073709551616"), None);
    assert_eq!(parse_u64(""), None);
    assert_eq!(parse_u64("12x"), None);
    assert_eq!(parse_i64("-42"), Some(-42));
    assert_eq!(parse_i64("9223372036854775807"), Some(i64::MAX));
    assert_eq!(parse_i64("-9223372036854775808"), Some(i64::MIN));
    assert_eq!(parse_i64("-9223372036854775809"), None);
}
