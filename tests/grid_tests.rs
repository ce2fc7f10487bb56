use dot_grid::camera::{Camera, WorldPoint};
use dot_grid::frame::prepare_frame;
use dot_grid::grid::{
    generate_dots, to_world_length, visible_range, GridError, Vertex, Viewport, MAX_VERTICES,
};

#[test]
fn culler_covers_six_cells_per_axis() {
    let c = Camera::new();
    let r = visible_range(&c, Viewport { width: 100, height: 100 }, 20);
    assert!(r.columns >= 6);
    assert!(r.rows >= 6);
    assert_eq!(r.columns, 6);
    assert_eq!(r.start, WorldPoint { x: 0, y: 0 });
    assert_eq!(r.end, WorldPoint { x: 120_000, y: 120_000 });
}

#[test]
fn culler_aligns_start_to_grid_below_position() {
    let mut c = Camera::new();
    c.position = WorldPoint { x: -15_000, y: 25_000 };
    let r = visible_range(&c, Viewport { width: 50, height: 30 }, 10);
    assert_eq!((r.first_column, r.first_row), (-2, 2));
    assert_eq!((r.columns, r.rows), (6, 4));
    assert_eq!(r.start, WorldPoint { x: -20_000, y: 20_000 });
    assert_eq!(r.end, WorldPoint { x: 40_000, y: 60_000 });
}

#[test]
fn end_to_end_zoom_two() {
    let mut c = Camera::new();
    c.zoom = 2000;
    let vp = Viewport { width: 200, height: 200 };
    let r = visible_range(&c, vp, 20);
    assert_eq!((r.columns, r.rows), (11, 11));
    assert_eq!(to_world_length(200, 2000), 100_000);
    assert_eq!(r.start, WorldPoint { x: 0, y: 0 });
    assert_eq!(r.end, WorldPoint { x: 110_000, y: 110_000 });
    let v = generate_dots(&c, vp, 20, 2).unwrap();
    assert_eq!(v.len(), 726);
    assert_eq!(v.len() / 6, 121);
}

#[test]
fn each_dot_is_two_ccw_triangles() {
    let mut c = Camera::new();
    c.zoom = 2000;
    let v = generate_dots(&c, Viewport { width: 200, height: 200 }, 20, 2).unwrap();
    // Dot half-width: 2 px at zoom 2.0 is one world unit.
    let d = 1_000;
    let expected = [
        Vertex { x: -d, y: -d },
        Vertex { x: d, y: -d },
        Vertex { x: -d, y: d },
        Vertex { x: d, y: -d },
        Vertex { x: d, y: d },
        Vertex { x: -d, y: d },
    ];
    assert_eq!(&v[0..6], &expected[..]);
    // Second dot: same column, next row.
    assert_eq!(v[6], Vertex { x: -d, y: 10_000 - d });
    // First dot of the second column.
    assert_eq!(v[66], Vertex { x: 10_000 - d, y: -d });
    for q in v.chunks(6) {
        for t in [&q[0..3], &q[3..6]] {
            let area = (t[1].x - t[0].x) * (t[2].y - t[0].y) - (t[1].y - t[0].y) * (t[2].x - t[0].x);
            assert!(area > 0);
        }
    }
}

#[test]
fn generating_twice_gives_same_vertices() {
    let mut c = Camera::new();
    c.zoom = 1331;
    c.position = WorldPoint { x: 12_345, y: -6_789 };
    let vp = Viewport { width: 640, height: 480 };
    let a = generate_dots(&c, vp, 25, 3);
    let b = generate_dots(&c, vp, 25, 3);
    assert!(a.is_ok());
    assert_eq!(a, b);
}

#[test]
fn too_many_dots_is_an_error() {
    let mut c = Camera::new();
    c.zoom = 100;
    let r = generate_dots(&c, Viewport { width: 4000, height: 4000 }, 1, 1);
    assert_eq!(r, Err(GridError::CapacityExceeded));
}

#[test]
fn largest_grid_that_fits() {
    let c = Camera::new();
    // 999 + 1 cells per axis: exactly the buffer's capacity.
    let v = generate_dots(&c, Viewport { width: 999, height: 999 }, 1, 0).unwrap();
    assert_eq!(v.len() as i64, MAX_VERTICES);
    let r = generate_dots(&c, Viewport { width: 1000, height: 999 }, 1, 0);
    assert_eq!(r, Err(GridError::CapacityExceeded));
}

#[test]
fn empty_viewport_still_draws_margin_cell() {
    let c = Camera::new();
    let v = generate_dots(&c, Viewport { width: 0, height: 0 }, 10, 1).unwrap();
    assert_eq!(v.len(), 6);
}

#[test]
fn frame_holds_transform_and_vertices() {
    let mut c = Camera::new();
    c.zoom = 2000;
    let vp = Viewport { width: 200, height: 200 };
    let f = prepare_frame(&c, vp, 20, 2).unwrap();
    assert_eq!(f.uniform.view_proj, c.view_transform());
    assert_eq!(f.vertices.len(), 726);
    c.zoom = 100;
    let e = prepare_frame(&c, Viewport { width: 4000, height: 4000 }, 1, 1);
    assert!(matches!(e, Err(GridError::CapacityExceeded)));
}

#[test]
fn line_count_does_not_depend_on_zoom() {
    let mut c = Camera::new();
    c.zoom = 3000;
    let r = visible_range(&c, Viewport { width: 3, height: 3000 }, 1);
    assert_eq!(r.columns, 4);
    assert_eq!(r.rows, 3001);
    for zoom in [100, 777, 1000, 3000, 8000] {
        c.zoom = zoom;
        c.position = WorldPoint { x: -123_456, y: 98_765 };
        let r = visible_range(&c, Viewport { width: 640, height: 480 }, 25);
        assert_eq!((r.columns, r.rows), (27, 21));
    }
}

#[test]
fn lattice_lines_round_to_nearest() {
    let mut c = Camera::new();
    c.zoom = 3000;
    let v = generate_dots(&c, Viewport { width: 3, height: 0 }, 1, 0).unwrap();
    // One row, four columns at 0, 1/3, 2/3 and 1 world unit.
    let xs: Vec<i64> = v.chunks(6).map(|q| q[0].x).collect();
    assert_eq!(xs, vec![0, 333, 667, 1000]);
}
