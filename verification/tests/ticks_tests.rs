use snapviewer::ticks;
use snapviewer::utils;

#[test]
fn test_ticks() {
    let ticks = ticks::generate_ticks(1244, 23509823);
    assert_eq!(
        ticks,
        vec![
            1048576, 2097152, 3145728, 4194304, 5242880, 6291456, 7340032, 8388608, 9437184,
            10485760, 11534336, 12582912, 13631488, 14680064, 15728640, 16777216, 17825792,
            18874368, 19922944, 20971520, 22020096, 23068672
        ]
    );

    let ticks = ticks::generate_ticks(121244, 239823);
    assert_eq!(
        ticks,
        vec![
            122880, 126976, 131072, 135168, 139264, 143360, 147456, 151552, 155648, 159744,
            163840, 167936, 172032, 176128, 180224, 184320, 188416, 192512, 196608, 200704,
            204800, 208896, 212992, 217088, 221184, 225280, 229376, 233472, 237568
        ]
    );
}

#[test]
fn utils_test_ticks() {
    let ticks = utils::generate_ticks(1244, 23509823);
    assert_eq!(
        ticks,
        vec![
            1048576, 2097152, 3145728, 4194304, 5242880, 6291456, 7340032, 8388608, 9437184,
            10485760, 11534336, 12582912, 13631488, 14680064, 15728640, 16777216, 17825792,
            18874368, 19922944, 20971520, 22020096, 23068672
        ]
    );

    let ticks = utils::generate_ticks(121244, 239823);
    assert_eq!(
        ticks,
        vec![
            122880, 126976, 131072, 135168, 139264, 143360, 147456, 151552, 155648, 159744,
            163840, 167936, 172032, 176128, 180224, 184320, 188416, 192512, 196608, 200704,
            204800, 208896, 212992, 217088, 221184, 225280, 229376, 233472, 237568
        ]
    );
}

#[test]
fn choose_interval_fixtures() {
    assert_eq!(ticks::choose_interval(1244, 23509823, 8), 1048576);
    // the ticks of the (121244, 239823) range step by 4096, the coarsest
    // power of four giving more than eight gridlines over the span
    assert_eq!(ticks::choose_interval(121244, 239823, 8), 4096);
    assert_eq!(ticks::choose_interval(5, 5, 8), 1);
    assert_eq!(ticks::choose_interval(23509823, 1244, 8), 1048576);
}

#[test]
fn ticks_negative_range_is_clipped_to_zero() {
    let t = ticks::generate_ticks(-100, 5);
    assert_eq!(t, vec![0, 4]);
    let t = ticks::generate_ticks(-10, -2);
    assert!(t.is_empty());
}

#[test]
fn placed_memory_ticks_carry_labels_and_positions() {
    let gen = ticks::TickGenerator::new((2400, 1000), 20 * 65536);
    let center = snapviewer::fixed::WorldVec { x: 0, y: 0 };
    let placed = gen.generate_memory_ticks(1244, 23509823, 65536, center);
    assert_eq!(placed.len(), 22);
    assert_eq!(placed[0].bytes, 1048576);
    assert_eq!(placed[0].label, "\u{2014}\u{2014} 1.0000 MiB");
    // every memory tick sits on the viewport's left edge
    let left = placed[0].world_x;
    assert!(placed.iter().all(|p| p.world_x == left));
    // higher byte values sit higher on the screen
    assert!(placed[0].world_y < placed[21].world_y);
}
