use dot_grid::camera::{
    Camera, CameraUniform, InputEvent, PointerButton, ScreenPoint, WorldPoint, MATRIX_ONE,
    WORLD_LIMIT, ZOOM_MAX, ZOOM_MIN, ZOOM_ONE,
};

fn at(x: i32, y: i32) -> ScreenPoint {
    ScreenPoint { x, y }
}

#[test]
fn new_camera_starts_at_origin() {
    let c = Camera::new();
    assert_eq!(c.position, WorldPoint { x: 0, y: 0 });
    assert_eq!(c.zoom, ZOOM_ONE);
    assert!(!c.is_panning);
}

#[test]
fn drag_moves_world_opposite_to_pointer() {
    let mut c = Camera::new();
    assert!(c.process_pointer_button(PointerButton::Left, true, at(10, 10)));
    assert!(c.is_panning);
    assert_eq!(c.last_pointer_position, at(10, 10));
    assert!(c.process_pointer_move(at(20, 20)));
    // (-10, -10) world units.
    assert_eq!(c.position, WorldPoint { x: -10_000, y: -10_000 });
    assert_eq!(c.last_pointer_position, at(20, 20));
}

#[test]
fn drag_is_divided_by_zoom() {
    let mut c = Camera::new();
    c.zoom = 2000;
    c.process_pointer_button(PointerButton::Left, true, at(0, 0));
    c.process_pointer_move(at(10, -4));
    assert_eq!(c.position, WorldPoint { x: -5_000, y: 2_000 });
    c.zoom = 3000;
    c.process_pointer_move(at(20, -4));
    // 10 px at zoom 3.0 is 3.333 world units, rounded toward zero.
    assert_eq!(c.position, WorldPoint { x: -8_333, y: 2_000 });
}

#[test]
fn drag_saturates_at_world_edge() {
    let mut c = Camera::new();
    c.zoom = ZOOM_MIN;
    c.position = WorldPoint { x: -WORLD_LIMIT + 5, y: 0 };
    c.process_pointer_button(PointerButton::Left, true, at(0, 0));
    c.process_pointer_move(at(1000, 0));
    assert_eq!(c.position.x, -WORLD_LIMIT);
}

#[test]
fn move_without_panning_keeps_position() {
    let mut c = Camera::new();
    assert!(!c.process_pointer_move(at(50, 70)));
    assert_eq!(c.position, WorldPoint { x: 0, y: 0 });
    assert_eq!(c.last_pointer_position, at(50, 70));
    c.process_pointer_button(PointerButton::Left, true, at(0, 0));
    c.process_pointer_button(PointerButton::Left, false, at(5, 5));
    assert!(!c.process_pointer_move(at(80, 90)));
    assert_eq!(c.position, WorldPoint { x: 0, y: 0 });
}

#[test]
fn other_buttons_only_record_position() {
    let mut c = Camera::new();
    assert!(!c.process_pointer_button(PointerButton::Right, true, at(3, 4)));
    assert!(!c.is_panning);
    assert_eq!(c.last_pointer_position, at(3, 4));
}

#[test]
fn scroll_steps_by_a_tenth() {
    let mut c = Camera::new();
    c.process_scroll(1);
    assert_eq!(c.zoom, 1100);
    let mut d = Camera::new();
    d.process_scroll(-3);
    assert_eq!(d.zoom, 909);
    let mut e = Camera::new();
    e.process_scroll(0);
    assert_eq!(e.zoom, ZOOM_ONE);
}

#[test]
fn scroll_up_run_rises_to_max() {
    let mut c = Camera::new();
    let mut prev = c.zoom;
    for _ in 0..100 {
        c.process_scroll(1);
        assert!(c.zoom >= prev);
        assert!(c.zoom <= ZOOM_MAX);
        prev = c.zoom;
    }
    assert_eq!(c.zoom, ZOOM_MAX);
}

#[test]
fn scroll_down_run_falls_to_min() {
    let mut c = Camera::new();
    let mut prev = c.zoom;
    for _ in 0..100 {
        c.process_scroll(-1);
        assert!(c.zoom <= prev);
        assert!(c.zoom >= ZOOM_MIN);
        prev = c.zoom;
    }
    assert_eq!(c.zoom, ZOOM_MIN);
}

#[test]
fn process_input_dispatches_events() {
    let mut c = Camera::new();
    let down = InputEvent::PointerButton { button: PointerButton::Left, pressed: true, position: at(10, 10) };
    assert!(c.process_input(&down));
    assert!(c.process_input(&InputEvent::PointerMoved { position: at(20, 20) }));
    assert_eq!(c.position, WorldPoint { x: -10_000, y: -10_000 });
    assert!(c.process_input(&InputEvent::Scroll { delta: 1 }));
    assert_eq!(c.zoom, 1100);
    assert!(!c.process_input(&InputEvent::Other));
    assert_eq!(c.zoom, 1100);
}

#[test]
fn view_transform_scales_then_translates() {
    let mut c = Camera::new();
    c.zoom = 2000;
    c.position = WorldPoint { x: 3_000, y: -5_000 };
    let m = c.view_transform();
    assert_eq!(m[0], [2 * MATRIX_ONE, 0, 0, 0]);
    assert_eq!(m[1], [0, 2 * MATRIX_ONE, 0, 0]);
    assert_eq!(m[2], [0, 0, 2 * MATRIX_ONE, 0]);
    // -zoom * position: (-6, 10) in millionths.
    assert_eq!(m[3], [-6 * MATRIX_ONE, 10 * MATRIX_ONE, 0, MATRIX_ONE]);
}

#[test]
fn uniform_starts_as_identity_and_takes_view() {
    let mut u = CameraUniform::new();
    for c in 0..4 {
        for r in 0..4 {
            assert_eq!(u.view_proj[c][r], if c == r { MATRIX_ONE } else { 0 });
        }
    }
    let mut cam = Camera::new();
    cam.zoom = ZOOM_MIN;
    cam.update_uniform(&mut u);
    assert_eq!(u.view_proj, cam.view_transform());
    assert_eq!(u.view_proj[0][0], MATRIX_ONE / 10);
}

#[test]
fn zoom_in_then_out_returns() {
    for start in [100, 999, 1000, 1234, 7272] {
        let mut c = Camera::new();
        c.zoom = start;
        c.process_scroll(1);
        c.process_scroll(-1);
        assert_eq!(c.zoom, start);
    }
    let mut c = Camera::new();
    c.zoom = 999;
    c.process_scroll(1);
    assert_eq!(c.zoom, 1099);
}
