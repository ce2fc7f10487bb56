//! Viewport culling and per-frame dot geometry.
//!
//! The grid is an implicit lattice whose spacing and dot size are given in
//! screen pixels at zoom 1.0 and shrink in world space as the zoom grows.
//! Each visible lattice point becomes a filled square drawn as two
//! counter-clockwise triangles, six vertices per dot.
use vstd::prelude::*;
use vstd::arithmetic::div_mod::{lemma_fundamental_div_mod, lemma_fundamental_div_mod_converse};
use crate::camera::{Camera, WorldPoint, WORLD_LIMIT, ZOOM_MIN, ZOOM_MAX};

verus! {

/// Number of dots the vertex buffer has room for.
pub const MAX_DOTS: i64 = 1_000_000;

/// Vertices emitted for each dot.
pub const VERTICES_PER_DOT: i64 = 6;

/// Number of vertices the vertex buffer has room for.
pub const MAX_VERTICES: i64 = 6_000_000;

/// Size of the drawing surface in pixels.
#[derive(Clone, Copy, Debug, PartialEq, Eq, Structural)]
pub struct Viewport {
    pub width: u32,
    pub height: u32,
}

/// A vertex in world space, in thousandths of a world unit.
#[derive(Clone, Copy, Debug, PartialEq, Eq, Structural)]
pub struct Vertex {
    pub x: i64,
    pub y: i64,
}

/// The window of lattice points to draw: columns `first_column ..
/// first_column + columns` and rows `first_row .. first_row + rows` of the
/// lattice whose line `k` lies `k * base_spacing / zoom` world units from the
/// origin. `start` is the first line along each axis and `end` the line one
/// past the last, so `[start, end)` stepped by the spacing holds every dot.
#[derive(Clone, Copy, Debug, PartialEq, Eq, Structural)]
pub struct VisibleRange {
    pub first_column: i64,
    pub first_row: i64,
    pub columns: i64,
    pub rows: i64,
    pub start: WorldPoint,
    pub end: WorldPoint,
    pub base_spacing: u32,
    pub zoom: i64,
}

/// Why a frame's geometry could not be produced.
#[derive(Clone, Copy, Debug, PartialEq, Eq, Structural)]
pub enum GridError {
    /// The visible dots need more vertices than the buffer holds.
    CapacityExceeded,
}

impl Vertex {
    pub open spec fn pos(self) -> (int, int) {
        (self.x as int, self.y as int)
    }
}

/// The coordinates of a sequence of vertices.
pub open spec fn points_of(vs: Seq<Vertex>) -> Seq<(int, int)> {
    vs.map_values(|v: Vertex| v.pos())
}

/// A screen length in pixels, as a world length at `zoom`.
pub open spec fn world_length(pixels: int, zoom: int) -> int {
    pixels * 1_000_000 / zoom
}

/// World coordinate, in thousandths, of lattice line `k`: `k * base_spacing /
/// zoom` world units rounded to the nearest thousandth, halves up.
pub open spec fn lattice_coord(k: int, base_spacing: int, zoom: int) -> int {
    (2 * (k * (base_spacing * 1_000_000)) + zoom) / (2 * zoom)
}

/// Index of the last lattice line at or before world coordinate `p`, that is
/// `floor(p / spacing)` with `spacing = base_spacing / zoom`.
pub open spec fn first_line(p: int, base_spacing: int, zoom: int) -> int {
    (p * zoom) / (base_spacing * 1_000_000)
}

/// Lattice lines drawn across a viewport side of `pixels`: the
/// `ceil(pixels / base_spacing)` that cover it plus one of margin. The count
/// does not depend on zoom or position.
pub open spec fn lines_across(pixels: int, base_spacing: int) -> int {
    (pixels + base_spacing - 1) / base_spacing + 1
}

/// The window the culler returns for a camera at `position` and `zoom`.
pub open spec fn visible_range_of(
    position: WorldPoint,
    zoom: int,
    viewport: Viewport,
    base_spacing: int,
) -> VisibleRange {
    let kx = first_line(position.x as int, base_spacing, zoom);
    let ky = first_line(position.y as int, base_spacing, zoom);
    let nx = lines_across(viewport.width as int, base_spacing);
    let ny = lines_across(viewport.height as int, base_spacing);
    VisibleRange {
        first_column: kx as i64,
        first_row: ky as i64,
        columns: nx as i64,
        rows: ny as i64,
        start: WorldPoint {
            x: lattice_coord(kx, base_spacing, zoom) as i64,
            y: lattice_coord(ky, base_spacing, zoom) as i64,
        },
        end: WorldPoint {
            x: lattice_coord(kx + nx, base_spacing, zoom) as i64,
            y: lattice_coord(ky + ny, base_spacing, zoom) as i64,
        },
        base_spacing: base_spacing as u32,
        zoom: zoom as i64,
    }
}

impl VisibleRange {
    pub open spec fn dots(self) -> int {
        self.columns * self.rows
    }

    /// Centre of the dot with index `c`; dots are ordered by column, then row.
    pub open spec fn dot_center(self, c: int) -> (int, int) {
        (
            lattice_coord(self.first_column + c / (self.rows as int), self.base_spacing as int, self.zoom as int),
            lattice_coord(self.first_row + c % (self.rows as int), self.base_spacing as int, self.zoom as int),
        )
    }
}

/// Corner `t` (in `0..6`) of the square of half-width `d` centred on `(x, y)`,
/// as the two triangles `(x-d,y-d),(x+d,y-d),(x-d,y+d)` and
/// `(x+d,y-d),(x+d,y+d),(x-d,y+d)`.
pub open spec fn quad_corner(x: int, y: int, d: int, t: int) -> (int, int) {
    if t == 0 {
        (x - d, y - d)
    } else if t == 1 {
        (x + d, y - d)
    } else if t == 2 {
        (x - d, y + d)
    } else if t == 3 {
        (x + d, y - d)
    } else if t == 4 {
        (x + d, y + d)
    } else {
        (x - d, y + d)
    }
}

/// The six vertices of one dot.
pub open spec fn dot_quad(x: int, y: int, d: int) -> Seq<(int, int)> {
    Seq::new(6, |t: int| quad_corner(x, y, d, t))
}

/// All vertices of the dots of `range`, each a square of half-width `d`.
pub open spec fn dot_grid(range: VisibleRange, d: int) -> Seq<(int, int)> {
    Seq::new(
        (6 * range.dots()) as nat,
        |k: int| {
            let c = range.dot_center(k / 6);
            quad_corner(c.0, c.1, d, k % 6)
        },
    )
}

/// What a frame's geometry is for a camera, viewport, lattice spacing and
/// dot half-width (both in pixels at zoom 1.0): the vertices of every dot of
/// the visible range, or an error where they would not fit in the buffer.
pub open spec fn frame_geometry(
    camera: Camera,
    viewport: Viewport,
    base_spacing: int,
    base_dot_size: int,
) -> Result<Seq<(int, int)>, GridError> {
    let range = visible_range_of(camera.position, camera.zoom as int, viewport, base_spacing);
    if VERTICES_PER_DOT * range.dots() > MAX_VERTICES {
        Err(GridError::CapacityExceeded)
    } else {
        Ok(dot_grid(range, world_length(base_dot_size, camera.zoom as int)))
    }
}

/// `r` is what the generator returns for these inputs.
pub open spec fn generates(
    r: Result<Vec<Vertex>, GridError>,
    camera: Camera,
    viewport: Viewport,
    base_spacing: int,
    base_dot_size: int,
) -> bool {
    match r {
        Ok(v) => frame_geometry(camera, viewport, base_spacing, base_dot_size) == Ok::<
            Seq<(int, int)>,
            GridError,
        >(points_of(v@)),
        Err(e) => frame_geometry(camera, viewport, base_spacing, base_dot_size) == Err::<
            Seq<(int, int)>,
            GridError,
        >(e),
    }
}

/// `pixels` screen pixels as a world length at `zoom`.
pub fn to_world_length(pixels: u32, zoom: i64) -> (r: i64)
    requires
        ZOOM_MIN <= zoom <= ZOOM_MAX,
    ensures
        r == world_length(pixels as int, zoom as int),
        0 <= r <= pixels as int * 10_000,
{
    let a: i64 = pixels as i64 * 1_000_000;
    assert(a / zoom <= (pixels as int) * 10_000) by (nonlinear_arith)
        requires a == pixels * 1_000_000, zoom >= 100, pixels >= 0;
    a / zoom
}

/// `a / b` rounded down.
fn floor_div(a: i128, b: i128) -> (r: i128)
    requires
        b > 0,
        -0x1_0000_0000_0000_0000_0000 <= a <= 0x1_0000_0000_0000_0000_0000,
    ensures
        r == a as int / b as int,
{
    if a >= 0 {
        a / b
    } else {
        let q: i128 = (-a) / b;
        let m: i128 = (-a) % b;
        proof {
            lemma_fundamental_div_mod(-a as int, b as int);
            if m == 0 {
                assert(a == (-q) * b + 0) by (nonlinear_arith)
                    requires -a == b * q + m, m == 0;
                lemma_fundamental_div_mod_converse(a as int, b as int, -q as int, 0);
            } else {
                assert(a == (-q - 1) * b + (b - m)) by (nonlinear_arith)
                    requires -a == b * q + m;
                lemma_fundamental_div_mod_converse(a as int, b as int, -q - 1, b - m);
            }
        }
        if m == 0 {
            -q
        } else {
            -q - 1
        }
    }
}

/// Bound on `k * base_spacing * 10^6` for every lattice line the culler
/// hands out.
const LINE_BOUND: i128 = 9_000_000_000_000_000_000;

/// World coordinate of lattice line `k`.
fn lattice_coordinate(k: i128, base_spacing: u32, zoom: i64) -> (r: i64)
    requires
        ZOOM_MIN <= zoom <= ZOOM_MAX,
        -LINE_BOUND <= k * (base_spacing * 1_000_000) <= LINE_BOUND,
    ensures
        r == lattice_coord(k as int, base_spacing as int, zoom as int),
        -100 * WORLD_LIMIT <= r <= 100 * WORLD_LIMIT,
{
    let kb: i128 = k * (base_spacing as i128 * 1_000_000);
    let z: i128 = zoom as i128;
    let num: i128 = 2 * kb + z;
    let r = floor_div(num, 2 * z);
    proof {
        lemma_fundamental_div_mod(num as int, 2 * z as int);
        assert(-100 * WORLD_LIMIT <= r <= 100 * WORLD_LIMIT) by (nonlinear_arith)
            requires
                num == 2 * z * r + (num as int) % (2 * z as int),
                0 <= (num as int) % (2 * z as int) < 2 * z,
                -2 * LINE_BOUND <= num <= 2 * LINE_BOUND + 8000,
                100 <= z <= 8000;
    }
    r as i64
}

/// Lattice line `first + i` stays within `LINE_BOUND` when `first` is the line
/// at or before a position and `i` is at most the line count across a viewport.
proof fn lemma_line_in_bounds(first: int, i: int, n: int, b: int, pz: int)
    requires
        1 <= b <= 0xffff_ffff,
        first * (b * 1_000_000) <= pz < first * (b * 1_000_000) + b * 1_000_000,
        -8 * WORLD_LIMIT * 1000 <= pz <= 8 * WORLD_LIMIT * 1000,
        0 <= i <= n,
        n * b <= 3 * 0xffff_ffff,
    ensures
        -LINE_BOUND <= (first + i) * (b * 1_000_000) <= LINE_BOUND,
{
    let big_b = b * 1_000_000;
    assert((first + i) * big_b == first * big_b + i * big_b) by (nonlinear_arith);
    assert(0 <= i * big_b <= n * big_b) by (nonlinear_arith)
        requires 0 <= i <= n, big_b > 0;
    assert(n * big_b == (n * b) * 1_000_000) by (nonlinear_arith)
        requires big_b == b * 1_000_000;
}

/// Lines across a viewport side, as `lines_across` states.
fn line_count(pixels: u32, base_spacing: u32) -> (r: i64)
    requires
        base_spacing > 0,
    ensures
        r == lines_across(pixels as int, base_spacing as int),
        1 <= r,
        r * base_spacing <= pixels + 2 * base_spacing - 1,
{
    let b: i64 = base_spacing as i64;
    let a: i64 = pixels as i64 + b - 1;
    let q = a / b;
    proof {
        lemma_fundamental_div_mod(a as int, b as int);
        assert(q >= 0 && q * b <= a) by (nonlinear_arith)
            requires a == b * q + (a as int) % (b as int), 0 <= (a as int) % (b as int) < b, a >= 0,
                b > 0;
        assert((q + 1) * b == q * b + b) by (nonlinear_arith);
    }
    q + 1
}

/// The grid window that covers the viewport: from the lattice line at or
/// before the camera position, `ceil(side / base_spacing) + 1` lines along
/// each axis, whatever the zoom.
pub fn visible_range(camera: &Camera, viewport: Viewport, base_spacing: u32) -> (r: VisibleRange)
    requires
        camera.wf(),
        base_spacing > 0,
    ensures
        r == visible_range_of(camera.position, camera.zoom as int, viewport, base_spacing as int),
        r.columns == lines_across(viewport.width as int, base_spacing as int),
        r.rows == lines_across(viewport.height as int, base_spacing as int),
        1 <= r.columns,
        1 <= r.rows,
        r.columns * base_spacing <= viewport.width + 2 * base_spacing - 1,
        r.rows * base_spacing <= viewport.height + 2 * base_spacing - 1,
        r.first_column * (base_spacing * 1_000_000) <= camera.position.x * camera.zoom
            < r.first_column * (base_spacing * 1_000_000) + base_spacing * 1_000_000,
        r.first_row * (base_spacing * 1_000_000) <= camera.position.y * camera.zoom
            < r.first_row * (base_spacing * 1_000_000) + base_spacing * 1_000_000,
{
    let big_b: i128 = base_spacing as i128 * 1_000_000;
    let z: i128 = camera.zoom as i128;
    let px: i128 = camera.position.x as i128;
    let py: i128 = camera.position.y as i128;
    assert(-8 * WORLD_LIMIT * 1000 <= px * z <= 8 * WORLD_LIMIT * 1000) by (nonlinear_arith)
        requires -WORLD_LIMIT <= px <= WORLD_LIMIT, 100 <= z <= 8000;
    assert(-8 * WORLD_LIMIT * 1000 <= py * z <= 8 * WORLD_LIMIT * 1000) by (nonlinear_arith)
        requires -WORLD_LIMIT <= py <= WORLD_LIMIT, 100 <= z <= 8000;
    let kx = floor_div(px * z, big_b);
    let ky = floor_div(py * z, big_b);
    proof {
        lemma_fundamental_div_mod((px * z) as int, big_b as int);
        lemma_fundamental_div_mod((py * z) as int, big_b as int);
        assert(kx * big_b == big_b * kx && ky * big_b == big_b * ky) by (nonlinear_arith);
        assert(-0x7fff_ffff_ffff_ffff <= kx <= 0x7fff_ffff_ffff_ffff) by (nonlinear_arith)
            requires kx * big_b <= px * z < kx * big_b + big_b, big_b >= 1_000_000,
                -8 * WORLD_LIMIT * 1000 <= px * z <= 8 * WORLD_LIMIT * 1000;
        assert(-0x7fff_ffff_ffff_ffff <= ky <= 0x7fff_ffff_ffff_ffff) by (nonlinear_arith)
            requires ky * big_b <= py * z < ky * big_b + big_b, big_b >= 1_000_000,
                -8 * WORLD_LIMIT * 1000 <= py * z <= 8 * WORLD_LIMIT * 1000;
    }
    let nx = line_count(viewport.width, base_spacing);
    let ny = line_count(viewport.height, base_spacing);
    proof {
        lemma_line_in_bounds(kx as int, 0, nx as int, base_spacing as int, (px * z) as int);
        lemma_line_in_bounds(kx as int, nx as int, nx as int, base_spacing as int, (px * z) as int);
        lemma_line_in_bounds(ky as int, 0, ny as int, base_spacing as int, (py * z) as int);
        lemma_line_in_bounds(ky as int, ny as int, ny as int, base_spacing as int, (py * z) as int);
    }
    let sx = lattice_coordinate(kx, base_spacing, camera.zoom);
    let sy = lattice_coordinate(ky, base_spacing, camera.zoom);
    let ex = lattice_coordinate(kx + nx as i128, base_spacing, camera.zoom);
    let ey = lattice_coordinate(ky + ny as i128, base_spacing, camera.zoom);
    VisibleRange {
        first_column: kx as i64,
        first_row: ky as i64,
        columns: nx,
        rows: ny,
        start: WorldPoint { x: sx, y: sy },
        end: WorldPoint { x: ex, y: ey },
        base_spacing,
        zoom: camera.zoom,
    }
}

/// Appends the six vertices of the dot centred on `(x, y)` with half-width `d`.
fn push_dot(v: &mut Vec<Vertex>, x: i64, y: i64, d: i64)
    requires
        -100 * WORLD_LIMIT <= x <= 100 * WORLD_LIMIT,
        -100 * WORLD_LIMIT <= y <= 100 * WORLD_LIMIT,
        0 <= d <= WORLD_LIMIT,
    ensures
        final(v)@.len() == old(v)@.len() + 6,
        forall|k: int| 0 <= k < old(v)@.len() ==> final(v)@[k] == old(v)@[k],
        forall|t: int|
            0 <= t < 6 ==> #[trigger] final(v)@[old(v)@.len() + t].pos() == quad_corner(
                x as int,
                y as int,
                d as int,
                t,
            ),
{
    v.push(Vertex { x: x - d, y: y - d });
    v.push(Vertex { x: x + d, y: y - d });
    v.push(Vertex { x: x - d, y: y + d });
    v.push(Vertex { x: x + d, y: y - d });
    v.push(Vertex { x: x + d, y: y + d });
    v.push(Vertex { x: x - d, y: y + d });
}

/// The vertices of every dot of the visible range for this frame: for each
/// lattice point `(x, y)` of the range, column by column, a square of
/// half-width `dot_size = base_dot_size / zoom` as two counter-clockwise
/// triangles. Fails, rather than truncating, where the dots would need more
/// than `MAX_VERTICES` vertices.
pub fn generate_dots(camera: &Camera, viewport: Viewport, base_spacing: u32, base_dot_size: u32) -> (r:
    Result<Vec<Vertex>, GridError>)
    requires
        camera.wf(),
        base_spacing > 0,
    ensures
        generates(r, *camera, viewport, base_spacing as int, base_dot_size as int),
{
    let range = visible_range(camera, viewport, base_spacing);
    let d = to_world_length(base_dot_size, camera.zoom);
    let nx = range.columns;
    let ny = range.rows;
    if nx > MAX_DOTS || ny > MAX_DOTS {
        proof {
            assert(nx * ny > MAX_DOTS) by (nonlinear_arith)
                requires nx > MAX_DOTS || ny > MAX_DOTS, nx >= 1, ny >= 1;
        }
        return Err(GridError::CapacityExceeded);
    }
    assert(0 <= nx * ny <= MAX_DOTS * MAX_DOTS) by (nonlinear_arith)
        requires 0 <= nx <= MAX_DOTS, 0 <= ny <= MAX_DOTS;
    let total: i64 = nx * ny;
    if total > MAX_DOTS {
        return Err(GridError::CapacityExceeded);
    }
    let ghost expected = dot_grid(range, d as int);
    let ghost pxz: int = camera.position.x * camera.zoom;
    let ghost pyz: int = camera.position.y * camera.zoom;
    proof {
        assert(-8 * WORLD_LIMIT * 1000 <= pxz <= 8 * WORLD_LIMIT * 1000) by (nonlinear_arith)
            requires -WORLD_LIMIT <= camera.position.x <= WORLD_LIMIT, 100 <= camera.zoom <= 8000,
                pxz == camera.position.x * camera.zoom;
        assert(-8 * WORLD_LIMIT * 1000 <= pyz <= 8 * WORLD_LIMIT * 1000) by (nonlinear_arith)
            requires -WORLD_LIMIT <= camera.position.y <= WORLD_LIMIT, 100 <= camera.zoom <= 8000,
                pyz == camera.position.y * camera.zoom;
    }
    let mut v: Vec<Vertex> = Vec::new();
    let mut c: i64 = 0;
    while c < total
        invariant
            0 <= c <= total,
            total == nx * ny,
            total <= MAX_DOTS,
            nx == range.columns,
            ny == range.rows,
            nx >= 1,
            ny >= 1,
            range.base_spacing == base_spacing,
            range.zoom == camera.zoom,
            ZOOM_MIN <= camera.zoom <= ZOOM_MAX,
            1 <= base_spacing,
            nx * base_spacing <= viewport.width + 2 * base_spacing - 1,
            ny * base_spacing <= viewport.height + 2 * base_spacing - 1,
            range.first_column * (base_spacing * 1_000_000) <= pxz
                < range.first_column * (base_spacing * 1_000_000) + base_spacing * 1_000_000,
            range.first_row * (base_spacing * 1_000_000) <= pyz
                < range.first_row * (base_spacing * 1_000_000) + base_spacing * 1_000_000,
            -8 * WORLD_LIMIT * 1000 <= pxz <= 8 * WORLD_LIMIT * 1000,
            -8 * WORLD_LIMIT * 1000 <= pyz <= 8 * WORLD_LIMIT * 1000,
            0 <= d <= WORLD_LIMIT,
            expected == dot_grid(range, d as int),
            v@.len() == 6 * c,
            forall|k: int| 0 <= k < v@.len() ==> #[trigger] v@[k].pos() == expected[k],
        decreases total - c,
    {
        let i = c / ny;
        let j = c % ny;
        proof {
            lemma_fundamental_div_mod(c as int, ny as int);
            assert(i < nx) by (nonlinear_arith)
                requires c == ny * i + j, 0 <= j < ny, c < nx * ny, i >= 0;
            lemma_line_in_bounds(range.first_column as int, i as int, nx as int, base_spacing as int, pxz);
            lemma_line_in_bounds(range.first_row as int, j as int, ny as int, base_spacing as int, pyz);
        }
        let x = lattice_coordinate(range.first_column as i128 + i as i128, base_spacing, camera.zoom);
        let y = lattice_coordinate(range.first_row as i128 + j as i128, base_spacing, camera.zoom);
        let ghost before = v@;
        push_dot(&mut v, x, y, d);
        proof {
            assert forall|k: int| 0 <= k < v@.len() implies #[trigger] v@[k].pos() == expected[k] by {
                if k >= before.len() {
                    let t = k - before.len();
                    assert(v@[before.len() + t].pos() == quad_corner(x as int, y as int, d as int, t));
                    lemma_fundamental_div_mod_converse(k, 6, c as int, t);
                    assert(range.dot_center(c as int) == (x as int, y as int));
                } else {
                    assert(v@[k] == before[k]);
                }
            }
        }
        c = c + 1;
    }
    proof {
        assert(points_of(v@) =~= expected);
    }
    Ok(v)
}

/// Twice the signed area of the triangle `(a, b, p)`: positive when the three
/// points turn counter-clockwise.
pub open spec fn orient(a: (int, int), b: (int, int), p: (int, int)) -> int {
    (b.0 - a.0) * (p.1 - a.1) - (b.1 - a.1) * (p.0 - a.0)
}

/// `p` lies in the closed counter-clockwise triangle `(a, b, c)`.
pub open spec fn in_triangle(a: (int, int), b: (int, int), c: (int, int), p: (int, int)) -> bool {
    orient(a, b, p) >= 0 && orient(b, c, p) >= 0 && orient(c, a, p) >= 0
}

/// `p` lies strictly inside the counter-clockwise triangle `(a, b, c)`.
pub open spec fn inside_triangle(a: (int, int), b: (int, int), c: (int, int), p: (int, int)) -> bool {
    orient(a, b, p) > 0 && orient(b, c, p) > 0 && orient(c, a, p) > 0
}

/// `p` lies in the closed square `[x-d, x+d] x [y-d, y+d]`.
pub open spec fn in_square(x: int, y: int, d: int, p: (int, int)) -> bool {
    x - d <= p.0 <= x + d && y - d <= p.1 <= y + d
}

proof fn lemma_scaled_sign(d: int, w: int)
    requires
        d > 0,
    ensures
        (2 * d * w >= 0) == (w >= 0),
        (2 * d * w > 0) == (w > 0),
{
    assert((2 * d * w >= 0) == (w >= 0) && (2 * d * w > 0) == (w > 0)) by (nonlinear_arith)
        requires d > 0;
}

/// A dot is six vertices forming two counter-clockwise triangles that
/// together cover exactly the square `[x-d, x+d] x [y-d, y+d]` and do not
/// overlap.
pub proof fn lemma_dot_quad_tiles_square(x: int, y: int, d: int)
    requires
        d > 0,
    ensures
        dot_quad(x, y, d).len() == 6,
        orient(quad_corner(x, y, d, 0), quad_corner(x, y, d, 1), quad_corner(x, y, d, 2)) > 0,
        orient(quad_corner(x, y, d, 3), quad_corner(x, y, d, 4), quad_corner(x, y, d, 5)) > 0,
        forall|p: (int, int)|
            #[trigger] in_square(x, y, d, p) == (in_triangle(
                quad_corner(x, y, d, 0),
                quad_corner(x, y, d, 1),
                quad_corner(x, y, d, 2),
                p,
            ) || in_triangle(quad_corner(x, y, d, 3), quad_corner(x, y, d, 4), quad_corner(x, y, d, 5), p)),
        forall|p: (int, int)|
            !(#[trigger] inside_triangle(
                quad_corner(x, y, d, 0),
                quad_corner(x, y, d, 1),
                quad_corner(x, y, d, 2),
                p,
            ) && inside_triangle(quad_corner(x, y, d, 3), quad_corner(x, y, d, 4), quad_corner(x, y, d, 5), p)),
{
    let a = (x - d, y - d);
    let b = (x + d, y - d);
    let c = (x - d, y + d);
    let e = (x + d, y + d);
    assert(orient(a, b, c) == 4 * d * d) by (nonlinear_arith)
        requires a == (x - d, y - d), b == (x + d, y - d), c == (x - d, y + d);
    assert(orient(b, e, c) == 4 * d * d) by (nonlinear_arith)
        requires b == (x + d, y - d), c == (x - d, y + d), e == (x + d, y + d);
    assert(4 * d * d > 0) by (nonlinear_arith)
        requires d > 0;
    assert forall|p: (int, int)| true implies {
        &&& in_square(x, y, d, p) == (in_triangle(a, b, c, p) || in_triangle(b, e, c, p))
        &&& !(inside_triangle(a, b, c, p) && inside_triangle(b, e, c, p))
    } by {
        let u = p.0 - (x - d);
        let v = p.1 - (y - d);
        assert(orient(a, b, p) == 2 * d * v) by (nonlinear_arith)
            requires a == (x - d, y - d), b == (x + d, y - d), u == p.0 - (x - d), v == p.1 - (y - d);
        assert(orient(b, c, p) == 2 * d * (2 * d - u - v)) by (nonlinear_arith)
            requires b == (x + d, y - d), c == (x - d, y + d), u == p.0 - (x - d), v == p.1 - (y - d);
        assert(orient(c, a, p) == 2 * d * u) by (nonlinear_arith)
            requires a == (x - d, y - d), c == (x - d, y + d), u == p.0 - (x - d), v == p.1 - (y - d);
        assert(orient(b, e, p) == 2 * d * (2 * d - u)) by (nonlinear_arith)
            requires b == (x + d, y - d), e == (x + d, y + d), u == p.0 - (x - d), v == p.1 - (y - d);
        assert(orient(e, c, p) == 2 * d * (2 * d - v)) by (nonlinear_arith)
            requires c == (x - d, y + d), e == (x + d, y + d), u == p.0 - (x - d), v == p.1 - (y - d);
        assert(orient(c, b, p) == 2 * d * (u + v - 2 * d)) by (nonlinear_arith)
            requires b == (x + d, y - d), c == (x - d, y + d), u == p.0 - (x - d), v == p.1 - (y - d);
        lemma_scaled_sign(d, v);
        lemma_scaled_sign(d, 2 * d - u - v);
        lemma_scaled_sign(d, u);
        lemma_scaled_sign(d, 2 * d - u);
        lemma_scaled_sign(d, 2 * d - v);
        lemma_scaled_sign(d, u + v - 2 * d);
    }
}

/// The vertices of dot `c` of a range are the six vertices of a single dot
/// centred on that dot's lattice point.
pub proof fn lemma_dot_grid_is_quads(range: VisibleRange, d: int, c: int)
    requires
        0 <= c < range.dots(),
    ensures
        dot_grid(range, d).subrange(6 * c, 6 * c + 6) == dot_quad(
            range.dot_center(c).0,
            range.dot_center(c).1,
            d,
        ),
{
    let g = dot_grid(range, d);
    assert(6 * c + 6 <= 6 * range.dots());
    assert forall|t: int| 0 <= t < 6 implies g.subrange(6 * c, 6 * c + 6)[t] == dot_quad(
        range.dot_center(c).0,
        range.dot_center(c).1,
        d,
    )[t] by {
        lemma_fundamental_div_mod_converse(6 * c + t, 6, c, t);
    }
    assert(g.subrange(6 * c, 6 * c + 6) =~= dot_quad(range.dot_center(c).0, range.dot_center(c).1, d));
}

/// The generator is a function of its inputs: two runs on the same camera,
/// viewport, spacing and dot size give the same outcome and, on success, the
/// same vertex sequence.
pub proof fn lemma_generation_deterministic(
    camera: Camera,
    viewport: Viewport,
    base_spacing: int,
    base_dot_size: int,
    first: Result<Vec<Vertex>, GridError>,
    second: Result<Vec<Vertex>, GridError>,
)
    requires
        generates(first, camera, viewport, base_spacing, base_dot_size),
        generates(second, camera, viewport, base_spacing, base_dot_size),
    ensures
        first is Ok <==> second is Ok,
        first is Ok ==> first->Ok_0@ == second->Ok_0@,
        first is Err ==> first == second,
{
    if let (Ok(v1), Ok(v2)) = (first, second) {
        assert(points_of(v1@) == points_of(v2@));
        assert forall|k: int| 0 <= k < v1@.len() implies v1@[k] == v2@[k] by {
            assert(points_of(v1@)[k] == points_of(v2@)[k]);
        }
        assert(v1@ =~= v2@);
    }
}

/// Along one axis: a lattice line `k` that lies in the window `[p, p + W /
/// zoom]` is one of the `lines_across(W)` lines from `first_line(p)`.
/// `pz` is `p * zoom` and `w` is `W * 10^6`, both in the units of `k * b * 10^6`.
proof fn lemma_axis_covered(pz: int, b: int, pixels: int, k: int)
    requires
        b >= 1,
        pixels >= 0,
        pz <= k * (b * 1_000_000) <= pz + pixels * 1_000_000,
    ensures
        pz / (b * 1_000_000) <= k < pz / (b * 1_000_000) + lines_across(pixels, b),
{
    let big_b = b * 1_000_000;
    let first = pz / big_b;
    lemma_fundamental_div_mod(pz, big_b);
    assert(first * big_b == big_b * first) by (nonlinear_arith);
    assert(k >= first) by (nonlinear_arith)
        requires k * big_b >= pz, pz >= first * big_b, big_b > 0;
    let i = k - first - 1;
    assert(i * big_b < pixels * 1_000_000) by (nonlinear_arith)
        requires i == k - first - 1, k * big_b <= pz + pixels * 1_000_000, pz < first * big_b + big_b;
    assert(i * b < pixels) by (nonlinear_arith)
        requires i * big_b < pixels * 1_000_000, big_b == b * 1_000_000;
    let m = (pixels + b - 1) / b;
    lemma_fundamental_div_mod(pixels + b - 1, b);
    assert(i < m) by (nonlinear_arith)
        requires
            i * b < pixels,
            pixels + b - 1 == b * m + (pixels + b - 1) % b,
            0 <= (pixels + b - 1) % b < b,
            b > 0;
}

/// Culling never omits a visible dot: every lattice line pair `(kx, ky)`
/// whose point lies in the viewport's world window `[position, position +
/// viewport / zoom]` is the centre of one of the dots of the visible range.
pub proof fn lemma_visible_range_covers_viewport(
    camera: Camera,
    viewport: Viewport,
    base_spacing: u32,
    kx: int,
    ky: int,
)
    requires
        camera.wf(),
        base_spacing > 0,
        camera.position.x * camera.zoom <= kx * (base_spacing * 1_000_000)
            <= camera.position.x * camera.zoom + viewport.width * 1_000_000,
        camera.position.y * camera.zoom <= ky * (base_spacing * 1_000_000)
            <= camera.position.y * camera.zoom + viewport.height * 1_000_000,
    ensures
        ({
            let range = visible_range_of(camera.position, camera.zoom as int, viewport, base_spacing as int);
            exists|c: int|
                0 <= c < range.dots() && #[trigger] range.dot_center(c) == (
                    lattice_coord(kx, base_spacing as int, camera.zoom as int),
                    lattice_coord(ky, base_spacing as int, camera.zoom as int),
                )
        }),
{
    let b = base_spacing as int;
    let z = camera.zoom as int;
    let pxz = camera.position.x * z;
    let pyz = camera.position.y * z;
    let range = visible_range_of(camera.position, z, viewport, b);
    lemma_axis_covered(pxz, b, viewport.width as int, kx);
    lemma_axis_covered(pyz, b, viewport.height as int, ky);
    let nx = lines_across(viewport.width as int, b);
    let ny = lines_across(viewport.height as int, b);
    let fx = first_line(camera.position.x as int, b, z);
    let fy = first_line(camera.position.y as int, b, z);
    // Each first line and count fits its field.
    assert(-8 * WORLD_LIMIT * 1000 <= pxz <= 8 * WORLD_LIMIT * 1000) by (nonlinear_arith)
        requires -WORLD_LIMIT <= camera.position.x <= WORLD_LIMIT, 100 <= z <= 8000,
            pxz == camera.position.x * z;
    assert(-8 * WORLD_LIMIT * 1000 <= pyz <= 8 * WORLD_LIMIT * 1000) by (nonlinear_arith)
        requires -WORLD_LIMIT <= camera.position.y <= WORLD_LIMIT, 100 <= z <= 8000,
            pyz == camera.position.y * z;
    lemma_fundamental_div_mod(pxz, b * 1_000_000);
    lemma_fundamental_div_mod(pyz, b * 1_000_000);
    assert(-0x7fff_ffff_ffff_ffff <= fx <= 0x7fff_ffff_ffff_ffff) by (nonlinear_arith)
        requires pxz == (b * 1_000_000) * fx + pxz % (b * 1_000_000), 0 <= pxz % (b * 1_000_000) < b * 1_000_000,
            b >= 1, b <= 0xffff_ffff, -8 * WORLD_LIMIT * 1000 <= pxz <= 8 * WORLD_LIMIT * 1000;
    assert(-0x7fff_ffff_ffff_ffff <= fy <= 0x7fff_ffff_ffff_ffff) by (nonlinear_arith)
        requires pyz == (b * 1_000_000) * fy + pyz % (b * 1_000_000), 0 <= pyz % (b * 1_000_000) < b * 1_000_000,
            b >= 1, b <= 0xffff_ffff, -8 * WORLD_LIMIT * 1000 <= pyz <= 8 * WORLD_LIMIT * 1000;
    let mx = (viewport.width as int + b - 1) / b;
    let my = (viewport.height as int + b - 1) / b;
    assert(0 <= mx <= viewport.width as int + b && 0 <= my <= viewport.height as int + b) by (nonlinear_arith)
        requires mx == (viewport.width as int + b - 1) / b, my == (viewport.height as int + b - 1) / b, b >= 1;
    assert(range.first_column == fx && range.first_row == fy);
    assert(range.columns == nx && range.rows == ny);
    assert(range.base_spacing as int == b && range.zoom as int == z);
    let i = kx - fx;
    let j = ky - fy;
    let c = i * ny + j;
    assert(0 <= c < nx * ny) by (nonlinear_arith)
        requires 0 <= i < nx, 0 <= j < ny, c == i * ny + j;
    lemma_fundamental_div_mod_converse(c, ny, i, j);
    assert(range.dot_center(c) == (lattice_coord(kx, b, z), lattice_coord(ky, b, z)));
}

} // verus!
