use hexgrid::{Camera, Game, Key, MouseButton, Point, UNITS_PER_PIXEL, ZOOM_MAX, ZOOM_MIN, ZOOM_ONE};

fn px(v: i64) -> i64 {
    v * UNITS_PER_PIXEL
}

fn game(images: usize) -> Game {
    Game::new(&vec![0; 294], images)
}

#[test]
fn zoom_clamps_at_two() {
    let mut c = Camera::new();
    assert_eq!(c.zoom, ZOOM_ONE);
    for _ in 0..20 {
        c.scroll(1);
    }
    assert_eq!(c.zoom, 20);
    assert_eq!(c.zoom, ZOOM_MAX);
}

#[test]
fn zoom_clamps_at_point_four() {
    let mut c = Camera::new();
    for _ in 0..20 {
        c.scroll(-3);
    }
    assert_eq!(c.zoom, ZOOM_MIN);
    c.scroll(0);
    assert_eq!(c.zoom, 4);
    c.scroll(250);
    assert_eq!(c.zoom, 5);
}

#[test]
fn screen_to_grid_inverts_draw_transform() {
    let mut c = Camera::new();
    c.offset = Point { x: px(30), y: -px(40) };
    c.zoom = 15;
    let g = c.screen_to_grid(px(60), px(20));
    // (60 - 30) / 1.5 = 20 px, (20 + 40) / 0.75 = 80 px
    assert_eq!(g, Point { x: px(20), y: px(80) });
    // rounding down, also below zero
    let g = c.screen_to_grid(px(30) - 1, -px(40) - 1);
    assert_eq!(g, Point { x: -1, y: -2 });
}

#[test]
fn round_trip_stays_within_a_zoom_step() {
    let mut c = Camera::new();
    c.offset = Point { x: 12345, y: -6789 };
    for zoom in 4..=20u32 {
        c.zoom = zoom;
        for &(sx, sy) in &[(0i64, 0i64), (1, -1), (px(799), px(599)), (-px(3), px(2)) ] {
            let g = c.screen_to_grid(sx, sy);
            let back_x10 = 10 * c.offset.x + g.x * zoom as i64;
            let back_y20 = 20 * c.offset.y + g.y * zoom as i64;
            assert!(0 <= 10 * sx - back_x10 && 10 * sx - back_x10 < zoom as i64);
            assert!(0 <= 20 * sy - back_y20 && 20 * sy - back_y20 < zoom as i64);
        }
    }
}

#[test]
fn drag_pans_the_view() {
    let mut g = game(0);
    g.mouse_motion_event(px(50), px(50));
    assert_eq!(g.camera.offset, Point { x: 0, y: 0 });
    g.mouse_button_down_event(MouseButton::Left, px(10), px(10));
    assert!(g.camera.dragging);
    g.mouse_motion_event(px(15), px(7));
    assert_eq!(g.camera.offset, Point { x: px(5), y: -px(3) });
    assert_eq!(g.camera.velocity, Point { x: px(5), y: -px(3) });
    g.mouse_motion_event(px(20), px(7));
    assert_eq!(g.camera.offset, Point { x: px(10), y: -px(3) });
    g.mouse_button_up_event(MouseButton::Left);
    assert!(!g.camera.dragging);
    g.mouse_motion_event(px(100), px(100));
    assert_eq!(g.camera.offset, Point { x: px(10), y: -px(3) });
    let t = g.draw_transform();
    assert_eq!(t.dest, Point { x: px(10), y: -px(3) });
    assert_eq!(t.zoom, 10);
}

#[test]
fn right_click_picks_through_the_transform() {
    let mut g = game(0);
    // at zoom 1.0 screen y is halved by foreshortening: grid (0, 0) is cell 0
    g.mouse_button_down_event(MouseButton::Right, 0, 0);
    assert_eq!(g.hexgrid.selected_index, Some(0));
    // grid (0, 150 px) is row 1 of column 0 (index 1) at screen y 75 px
    g.mouse_button_down_event(MouseButton::Right, 86602, px(75));
    assert_eq!(g.hexgrid.selected_index, Some(1));
    g.mouse_button_down_event(MouseButton::Right, 86602, px(75));
    assert_eq!(g.hexgrid.selected_index, None);
    g.mouse_button_down_event(MouseButton::Other, 0, 0);
    assert_eq!(g.hexgrid.selected_index, None);
}

#[test]
fn scroll_event_zooms() {
    let mut g = game(0);
    for _ in 0..20 {
        g.mouse_wheel_event(1);
    }
    assert_eq!(g.camera.zoom, 20);
}

#[test]
fn fullscreen_key_toggles() {
    let mut g = game(0);
    g.key_up_event(Key::F);
    assert!(g.window_settings.toggle_fullscreen);
    assert!(g.window_settings.is_fullscreen);
    g.key_up_event(Key::F);
    assert!(!g.window_settings.is_fullscreen);
}

#[test]
fn image_key_attaches_to_selected_cell() {
    let mut g = game(5);
    g.key_up_event(Key::B);
    assert!(g.hexgrid.cells.iter().all(|c| c.image.is_none()));
    g.mouse_button_down_event(MouseButton::Right, 0, 0);
    g.key_up_event(Key::B);
    let image = g.hexgrid.cells[0].image.expect("an image");
    assert!(image < 5);
    assert!(g.hexgrid.cells[1..].iter().all(|c| c.image.is_none()));
}

#[test]
fn image_key_without_images_does_nothing() {
    let mut g = game(0);
    g.mouse_button_down_event(MouseButton::Right, 0, 0);
    g.key_up_event(Key::B);
    assert!(g.hexgrid.cells[0].image.is_none());
}

#[test]
fn attach_image_wraps_the_pick() {
    let mut g = game(4);
    g.mouse_button_down_event(MouseButton::Right, 0, 0);
    g.attach_image(10);
    assert_eq!(g.hexgrid.cells[0].image, Some(2));
}

#[test]
fn inertia_carries_and_slows() {
    let mut c = Camera::new();
    c.velocity = Point { x: 1000, y: 200 };
    c.update();
    assert_eq!(c.offset, Point { x: 0, y: 0 });
    c.inertia = true;
    c.update();
    assert_eq!(c.offset, Point { x: 1000, y: 200 });
    assert_eq!(c.velocity, Point { x: 610, y: 122 });
    c.velocity = Point { x: 150, y: 50 };
    c.update();
    assert_eq!(c.offset, Point { x: 1000, y: 200 });
    assert_eq!(c.velocity, Point { x: 0, y: 0 });
}
