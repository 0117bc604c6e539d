use snapviewer::fixed::WorldVec;
use snapviewer::ui::{TranslateDir, WindowTransform};

const K: i64 = 65536;

#[test]
fn zoom_anchor_world_point_is_fixed() {
    let mut t = WindowTransform::new((2400, 1000));
    let anchor = (313 * K, 707 * K);
    let before = t.screen2world(anchor);
    t.zoom_in(anchor);
    let after = t.screen2world(anchor);
    assert_eq!(before, after);
    t.zoom_out(anchor);
    let again = t.screen2world(anchor);
    assert_eq!(before, again);
    // several steps in a row keep the anchor fixed too
    for _ in 0..10 {
        t.zoom_in(anchor);
        assert_eq!(t.screen2world(anchor), before);
    }
}

#[test]
fn zoom_respects_configured_bounds() {
    let mut t = WindowTransform::new((2400, 1000));
    let anchor = (0, 0);
    for _ in 0..100 {
        t.zoom_in(anchor);
    }
    assert_eq!(t.zoom, t.max_zoom);
    for _ in 0..100 {
        t.zoom_out(anchor);
    }
    assert_eq!(t.zoom, t.min_zoom);
}

#[test]
fn pan_stays_clamped_to_the_box() {
    let mut t = WindowTransform::new((2400, 1000));
    for _ in 0..500 {
        t.translate(TranslateDir::Left);
        t.translate(TranslateDir::Down);
        assert!(t.translate_min.x <= t.center.x && t.center.x <= t.translate_max.x);
        assert!(t.translate_min.y <= t.center.y && t.center.y <= t.translate_max.y);
    }
    assert_eq!(t.center.x, t.translate_min.x);
    assert_eq!(t.center.y, t.translate_min.y);
    for _ in 0..500 {
        t.translate(TranslateDir::Right);
        t.translate(TranslateDir::Up);
    }
    assert_eq!(t.center.x, t.translate_max.x);
    assert_eq!(t.center.y, t.translate_max.y);
}

#[test]
fn screen_world_round_trip_within_rounding() {
    let t = WindowTransform::new((2400, 1000));
    for &px in &[0, 17 * K, 1200 * K, 2399 * K + 13, -50 * K] {
        for &py in &[0, 499 * K + 7, 1000 * K] {
            let w = t.screen2world((px, py));
            let p2 = t.world2screen(w);
            let bound = t.zoom / K + 2;
            assert!(0 <= px - p2.0 && px - p2.0 <= bound);
            assert!(0 <= py - p2.1 && py - p2.1 <= bound);
        }
    }
}

#[test]
fn fresh_camera_is_centered_with_defaults() {
    let t = WindowTransform::new((2400, 1000));
    assert_eq!(t.center, WorldVec { x: 1200 * K, y: 500 * K });
    assert_eq!(t.zoom, K);
    assert_eq!(t.scale(), K);
    let cam = t.camera((2400, 1000));
    assert_eq!(cam.eye_x, 1200 * K);
    assert_eq!(cam.eye_z, K);
    assert_eq!(cam.target_z, 0);
    assert_eq!(cam.up_y, K);
    assert_eq!(cam.height, 1000 * K);
    assert_eq!(cam.near, 0);
    assert_eq!(cam.far, 10 * K);
}

#[test]
fn set_zoom_limits_replaces_the_bounds() {
    let mut t = WindowTransform::new((2400, 1000));
    t.set_zoom_limits(K, 40 * K);
    assert_eq!(t.min_zoom, K);
    assert_eq!(t.max_zoom, 40 * K);
}

#[test]
fn translate_step_shrinks_as_zoom_grows() {
    let mut t = WindowTransform::new((2400, 1000));
    let s1 = t.translate_step();
    for _ in 0..10 {
        t.zoom_in((0, 0));
    }
    let s2 = t.translate_step();
    assert!(s2 < s1);
    assert!(s2 > 0);
}

#[test]
fn visible_range_follows_scale() {
    let t = WindowTransform::new((2400, 1000));
    assert_eq!(t.ytop_world(), t.center.y + 500 * K);
    assert_eq!(t.ybot_world(), t.center.y - 500 * K);
}
