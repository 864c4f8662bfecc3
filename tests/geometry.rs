use hexgrid::{Hexagon, Point, TerrainColor, UNITS_PER_PIXEL, terrain_color};

fn px(v: i64) -> i64 {
    v * UNITS_PER_PIXEL
}

#[test]
fn corners_of_a_hexagon() {
    let h = Hexagon::new(0, 0, px(10), TerrainColor::Sand);
    let expected = vec![
        Point { x: 0, y: -10000 },
        Point { x: 8660, y: -5000 },
        Point { x: 8660, y: 5000 },
        Point { x: 0, y: 10000 },
        Point { x: -8660, y: 5000 },
        Point { x: -8660, y: -5000 },
    ];
    assert_eq!(h.corners, expected);
    assert_eq!(h.color, TerrainColor::Sand);
    assert_eq!(h.image, None);
}

#[test]
fn inner_radius_is_floor_of_exact_value() {
    // 100 px: 100000 * sqrt(3) / 2 = 86602.54...
    let h = Hexagon::new(0, 0, px(100), TerrainColor::Grass);
    assert_eq!(h.corners[1].x, 86602);
    // odd radius: half rounds toward zero
    let h = Hexagon::new(5, 7, 3, TerrainColor::Grass);
    assert_eq!(h.corners[1], Point { x: 7, y: 6 });
    assert_eq!(h.corners[4], Point { x: 3, y: 8 });
}

#[test]
fn center_is_inside() {
    for &(cx, cy, r) in &[(0i64, 0i64, 2i64), (px(3), -px(7), px(100)), (-123456, 98765, 17), (1, 1, 1_000_000_000)] {
        let h = Hexagon::new(cx, cy, r, TerrainColor::Snow);
        assert!(h.contains(cx, cy), "center of ({}, {}, {})", cx, cy, r);
    }
}

#[test]
fn one_unit_radius_has_no_interior() {
    let h = Hexagon::new(0, 0, 1, TerrainColor::Snow);
    assert!(!h.contains(0, 0));
}

#[test]
fn far_points_are_outside() {
    let r = px(10);
    let h = Hexagon::new(0, 0, r, TerrainColor::Rock);
    for &(x, y) in &[(r + 1, 0), (-r - 1, 0), (0, r + 1), (0, -r - 1), (7072, 7072), (-7072, -7072), (px(1000), px(1000))] {
        assert!(x * x + y * y > r * r);
        assert!(!h.contains(x, y), "({}, {})", x, y);
    }
}

#[test]
fn near_points_inside_and_outside() {
    let h = Hexagon::new(0, 0, px(10), TerrainColor::Rock);
    assert!(h.contains(8659, 0));
    assert!(!h.contains(8660, 0));
    assert!(h.contains(-8660, 0));
    assert!(!h.contains(-8661, 0));
    assert!(h.contains(0, 9999));
    assert!(!h.contains(0, 10001));
    assert!(h.contains(0, -9999));
    // just beyond the upper right slanted edge
    assert!(!h.contains(8000, -6000));
    assert!(h.contains(4000, -7000));
}

#[test]
fn rebuilt_hexagon_agrees_everywhere() {
    let a = Hexagon::new(px(4), px(5), px(10), TerrainColor::Sand);
    let b = Hexagon::new(px(4), px(5), px(10), TerrainColor::DeepWater);
    for x in (-20..=30).map(|v| v * 500) {
        for y in (-20..=30).map(|v| v * 500) {
            assert_eq!(a.contains(x, y), b.contains(x, y));
        }
    }
}

#[test]
fn terrain_bands() {
    assert_eq!(terrain_color(-501), TerrainColor::DeepWater);
    assert_eq!(terrain_color(-500), TerrainColor::ShallowWater);
    assert_eq!(terrain_color(-1), TerrainColor::ShallowWater);
    assert_eq!(terrain_color(0), TerrainColor::Sand);
    assert_eq!(terrain_color(99), TerrainColor::Sand);
    assert_eq!(terrain_color(100), TerrainColor::Grass);
    assert_eq!(terrain_color(399), TerrainColor::Grass);
    assert_eq!(terrain_color(400), TerrainColor::Meadow);
    assert_eq!(terrain_color(600), TerrainColor::Rock);
    assert_eq!(terrain_color(799), TerrainColor::Rock);
    assert_eq!(terrain_color(800), TerrainColor::Snow);
}
