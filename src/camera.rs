//! Pan and zoom state driven by pointer and wheel input.
//!
//! All quantities are fixed-point integers:
//! - zoom is counted in thousandths (`ZOOM_ONE` is a zoom of 1.0);
//! - world coordinates are counted in thousandths of a world unit (`WORLD_ONE`);
//! - screen coordinates are whole pixels.
use vstd::prelude::*;

verus! {

/// Zoom of 1.0, in thousandths.
pub const ZOOM_ONE: i64 = 1000;

/// Smallest zoom the camera allows (0.1).
pub const ZOOM_MIN: i64 = 100;

/// Largest zoom the camera allows (8.0).
pub const ZOOM_MAX: i64 = 8000;

/// One world unit, in the fixed-point world coordinates.
pub const WORLD_ONE: i64 = 1000;

/// Bound on the magnitude of each camera position coordinate; panning
/// saturates at this edge of the world.
pub const WORLD_LIMIT: i64 = 1_000_000_000_000_000;

/// One in the fixed-point entries of a view matrix (millionths).
pub const MATRIX_ONE: i64 = 1_000_000;

/// A point in world space, in thousandths of a world unit.
#[derive(Clone, Copy, Debug, PartialEq, Eq, Structural)]
pub struct WorldPoint {
    pub x: i64,
    pub y: i64,
}

/// A point in window pixel space, origin top-left.
#[derive(Clone, Copy, Debug, PartialEq, Eq, Structural)]
pub struct ScreenPoint {
    pub x: i32,
    pub y: i32,
}

/// Identity of a pointer button.
#[derive(Clone, Copy, Debug, PartialEq, Eq, Structural)]
pub enum PointerButton {
    Left,
    Right,
    Middle,
    Other,
}

/// The raw input events the camera consumes.
#[derive(Clone, Copy, Debug, PartialEq, Eq, Structural)]
pub enum InputEvent {
    /// A button went down (`pressed`) or up at a screen position.
    PointerButton { button: PointerButton, pressed: bool, position: ScreenPoint },
    /// The pointer moved to a screen position.
    PointerMoved { position: ScreenPoint },
    /// The wheel turned; a positive delta zooms in, a negative one zooms out.
    Scroll { delta: i32 },
    /// Any event the camera does not handle.
    Other,
}

/// The button that drags the canvas.
pub const PAN_BUTTON: PointerButton = PointerButton::Left;

/// Camera state: pan offset, zoom, and the drag in progress.
pub struct Camera {
    pub position: WorldPoint,
    pub zoom: i64,
    pub is_panning: bool,
    /// Meaningful only while a drag is in progress.
    pub last_pointer_position: ScreenPoint,
}

/// A 4x4 column-major matrix with entries in millionths (`MATRIX_ONE` is 1.0).
#[derive(Clone, Copy, Debug, PartialEq, Eq)]
pub struct CameraUniform {
    pub view_proj: [[i64; 4]; 4],
}

pub open spec fn clamp(v: int, lo: int, hi: int) -> int {
    if v < lo {
        lo
    } else if v > hi {
        hi
    } else {
        v
    }
}

/// Division of `a` by a positive `b`, rounded toward zero.
pub open spec fn div_toward_zero(a: int, b: int) -> int {
    if a >= 0 {
        a / b
    } else {
        -((-a) / b)
    }
}

/// Zoom after one wheel step: times 1.1 for a positive delta, divided by 1.1
/// for a negative one, each rounded to the nearest thousandth, then clamped
/// into `[ZOOM_MIN, ZOOM_MAX]`.
pub open spec fn scrolled_zoom(zoom: int, delta: int) -> int {
    if delta > 0 {
        clamp((zoom * 11 + 5) / 10, ZOOM_MIN as int, ZOOM_MAX as int)
    } else if delta < 0 {
        clamp((zoom * 10 + 5) / 11, ZOOM_MIN as int, ZOOM_MAX as int)
    } else {
        clamp(zoom, ZOOM_MIN as int, ZOOM_MAX as int)
    }
}

/// World-space displacement produced by a screen-space pointer displacement.
pub open spec fn world_delta(screen_delta: int, zoom: int) -> int {
    div_toward_zero(screen_delta * (WORLD_ONE as int) * (ZOOM_ONE as int), zoom)
}

/// New position coordinate after dragging the pointer from `from` to `to`:
/// the world moves opposite to the pointer.
pub open spec fn panned(pos: int, from: int, to: int, zoom: int) -> int {
    clamp(pos - world_delta(to - from, zoom), -(WORLD_LIMIT as int), WORLD_LIMIT as int)
}

/// Entry at column `c`, row `r` of `scale(zoom) * translate(-position)`.
pub open spec fn view_entry(position: WorldPoint, zoom: int, c: int, r: int) -> int {
    if c == 3 && r == 3 {
        MATRIX_ONE as int
    } else if c == r {
        zoom * (MATRIX_ONE as int / ZOOM_ONE as int)
    } else if c == 3 && r == 0 {
        -(zoom * position.x)
    } else if c == 3 && r == 1 {
        -(zoom * position.y)
    } else {
        0
    }
}

/// Entry at column `c`, row `r` of the identity matrix.
pub open spec fn identity_entry(c: int, r: int) -> int {
    if c == r {
        MATRIX_ONE as int
    } else {
        0
    }
}

pub open spec fn is_view_matrix(m: [[i64; 4]; 4], position: WorldPoint, zoom: int) -> bool {
    forall|c: int, r: int|
        0 <= c < 4 && 0 <= r < 4 ==> #[trigger] m[c][r] == view_entry(position, zoom, c, r)
}

fn clamp_i64(v: i64, lo: i64, hi: i64) -> (r: i64)
    requires
        lo <= hi,
    ensures
        r == clamp(v as int, lo as int, hi as int),
{
    if v < lo {
        lo
    } else if v > hi {
        hi
    } else {
        v
    }
}

fn pan_coordinate(pos: i64, from: i32, to: i32, zoom: i64) -> (r: i64)
    requires
        ZOOM_MIN <= zoom <= ZOOM_MAX,
        -WORLD_LIMIT <= pos <= WORLD_LIMIT,
    ensures
        r == panned(pos as int, from as int, to as int, zoom as int),
        -WORLD_LIMIT <= r <= WORLD_LIMIT,
{
    let d: i64 = to as i64 - from as i64;
    let scale: i64 = WORLD_ONE * ZOOM_ONE;
    let delta: i64 = if d >= 0 {
        assert(0 <= d * scale <= 0x1_0000_0000 * 1_000_000) by (nonlinear_arith)
            requires 0 <= d < 0x1_0000_0000, scale == 1_000_000;
        (d * scale) / zoom
    } else {
        assert(0 < (-d) * scale <= 0x1_0000_0000 * 1_000_000) by (nonlinear_arith)
            requires 0 < -d <= 0x1_0000_0000, scale == 1_000_000;
        -(((-d) * scale) / zoom)
    };
    proof {
        let a: int = d as int * 1_000_000;
        assert(a >= 0 ==> a / (zoom as int) <= a) by (nonlinear_arith)
            requires zoom >= 1;
        assert(a < 0 ==> (-a) / (zoom as int) <= -a) by (nonlinear_arith)
            requires zoom >= 1;
        assert(d >= 0 ==> d * scale == a);
        assert(d < 0 ==> (-d) * scale == -a);
    }
    clamp_i64(pos - delta, -WORLD_LIMIT, WORLD_LIMIT)
}

/// Zoom after `n` wheel steps, each with a delta of the same sign as `delta`.
pub open spec fn zoom_after(zoom: int, delta: int, n: nat) -> int
    decreases n,
{
    if n == 0 {
        zoom
    } else {
        scrolled_zoom(zoom_after(zoom, delta, (n - 1) as nat), delta)
    }
}

/// Over a run of wheel steps that zoom in, the zoom never decreases and never
/// exceeds `ZOOM_MAX`; over a run that zooms out, it never increases and never
/// falls below `ZOOM_MIN`.
pub proof fn lemma_scroll_run_monotone(zoom: int, delta: int, i: nat, j: nat)
    requires
        ZOOM_MIN <= zoom <= ZOOM_MAX,
        i <= j,
    ensures
        ZOOM_MIN <= zoom_after(zoom, delta, j) <= ZOOM_MAX,
        delta > 0 ==> zoom_after(zoom, delta, i) <= zoom_after(zoom, delta, j),
        delta < 0 ==> zoom_after(zoom, delta, i) >= zoom_after(zoom, delta, j),
    decreases j,
{
    if j > 0 {
        let prev = (j - 1) as nat;
        if i < j {
            lemma_scroll_run_monotone(zoom, delta, i, prev);
        } else {
            lemma_scroll_run_monotone(zoom, delta, prev, prev);
        }
        let z = zoom_after(zoom, delta, prev);
        assert((z * 11 + 5) / 10 >= z) by (nonlinear_arith)
            requires z >= 0;
        assert((z * 10 + 5) / 11 <= z) by (nonlinear_arith)
            requires z >= 0;
    }
}

/// A wheel step in followed by a step out returns to the starting zoom,
/// wherever the step in is not clamped.
pub proof fn lemma_zoom_in_then_out(zoom: int, up: int, down: int)
    requires
        ZOOM_MIN <= zoom,
        (zoom * 11 + 5) / 10 <= ZOOM_MAX,
        up > 0,
        down < 0,
    ensures
        scrolled_zoom(scrolled_zoom(zoom, up), down) == zoom,
{
    let z1 = (zoom * 11 + 5) / 10;
    assert(zoom * 11 - 4 <= 10 * z1 <= zoom * 11 + 5) by (nonlinear_arith)
        requires z1 == (zoom * 11 + 5) / 10;
    assert(z1 >= zoom);
    let z2 = (z1 * 10 + 5) / 11;
    assert(z2 == zoom) by (nonlinear_arith)
        requires z2 == (z1 * 10 + 5) / 11, zoom * 11 + 1 <= 10 * z1 + 5 <= zoom * 11 + 10;
}

impl Camera {
    /// The camera's invariant: zoom within its clamp range, position within
    /// the world's bounds.
    pub open spec fn wf(&self) -> bool {
        &&& ZOOM_MIN <= self.zoom <= ZOOM_MAX
        &&& -WORLD_LIMIT <= self.position.x <= WORLD_LIMIT
        &&& -WORLD_LIMIT <= self.position.y <= WORLD_LIMIT
    }

    /// A camera at the world origin, zoom 1.0, not panning.
    pub fn new() -> (r: Self)
        ensures
            r.wf(),
            r.position == (WorldPoint { x: 0, y: 0 }),
            r.zoom == ZOOM_ONE,
            !r.is_panning,
            r.last_pointer_position == (ScreenPoint { x: 0, y: 0 }),
    {
        Camera {
            position: WorldPoint { x: 0, y: 0 },
            zoom: ZOOM_ONE,
            is_panning: false,
            last_pointer_position: ScreenPoint { x: 0, y: 0 },
        }
    }

    /// A pointer button went down or up. The pan button starts or ends a drag;
    /// every button records the pointer position. Returns whether the event
    /// was consumed, which it is for the pan button only.
    pub fn process_pointer_button(
        &mut self,
        button: PointerButton,
        pressed: bool,
        screen_pos: ScreenPoint,
    ) -> (consumed: bool)
        ensures
            consumed == (button == PAN_BUTTON),
            final(self).is_panning == if button == PAN_BUTTON {
                pressed
            } else {
                old(self).is_panning
            },
            final(self).last_pointer_position == screen_pos,
            final(self).position == old(self).position,
            final(self).zoom == old(self).zoom,
    {
        let consumed = button == PAN_BUTTON;
        if consumed {
            self.is_panning = pressed;
        }
        self.last_pointer_position = screen_pos;
        consumed
    }

    /// The pointer moved. While panning, the position moves by the pointer's
    /// displacement divided by the zoom, in the opposite direction. The
    /// pointer position is recorded either way. Returns whether panning.
    pub fn process_pointer_move(&mut self, screen_pos: ScreenPoint) -> (r: bool)
        requires
            old(self).wf(),
        ensures
            final(self).wf(),
            r == old(self).is_panning,
            final(self).is_panning == old(self).is_panning,
            final(self).last_pointer_position == screen_pos,
            final(self).zoom == old(self).zoom,
            old(self).is_panning ==> final(self).position == (WorldPoint {
                x: panned(
                    old(self).position.x as int,
                    old(self).last_pointer_position.x as int,
                    screen_pos.x as int,
                    old(self).zoom as int,
                ) as i64,
                y: panned(
                    old(self).position.y as int,
                    old(self).last_pointer_position.y as int,
                    screen_pos.y as int,
                    old(self).zoom as int,
                ) as i64,
            }),
            !old(self).is_panning ==> final(self).position == old(self).position,
    {
        if self.is_panning {
            let x = pan_coordinate(self.position.x, self.last_pointer_position.x, screen_pos.x, self.zoom);
            let y = pan_coordinate(self.position.y, self.last_pointer_position.y, screen_pos.y, self.zoom);
            self.position = WorldPoint { x, y };
        }
        self.last_pointer_position = screen_pos;
        self.is_panning
    }

    /// The wheel turned: zoom in by 1.1 for a positive delta, out by 1.1 for a
    /// negative one, then clamp. Zoom is anchored at the viewport centre.
    pub fn process_scroll(&mut self, delta: i32)
        requires
            old(self).wf(),
        ensures
            final(self).wf(),
            final(self).zoom == scrolled_zoom(old(self).zoom as int, delta as int),
            final(self).position == old(self).position,
            final(self).is_panning == old(self).is_panning,
            final(self).last_pointer_position == old(self).last_pointer_position,
    {
        let z = self.zoom;
        let next = if delta > 0 {
            (z * 11 + 5) / 10
        } else if delta < 0 {
            (z * 10 + 5) / 11
        } else {
            z
        };
        self.zoom = clamp_i64(next, ZOOM_MIN, ZOOM_MAX);
    }

    /// Dispatches one input event to the handler for its kind. Returns whether
    /// the event was consumed.
    pub fn process_input(&mut self, event: &InputEvent) -> (consumed: bool)
        requires
            old(self).wf(),
        ensures
            final(self).wf(),
            match *event {
                InputEvent::PointerButton { button, pressed, position } => {
                    &&& consumed == (button == PAN_BUTTON)
                    &&& final(self).is_panning == if button == PAN_BUTTON {
                        pressed
                    } else {
                        old(self).is_panning
                    }
                    &&& final(self).last_pointer_position == position
                    &&& final(self).position == old(self).position
                    &&& final(self).zoom == old(self).zoom
                },
                InputEvent::PointerMoved { position } => {
                    &&& consumed == old(self).is_panning
                    &&& final(self).is_panning == old(self).is_panning
                    &&& final(self).last_pointer_position == position
                    &&& final(self).zoom == old(self).zoom
                    &&& old(self).is_panning ==> final(self).position == (WorldPoint {
                        x: panned(
                            old(self).position.x as int,
                            old(self).last_pointer_position.x as int,
                            position.x as int,
                            old(self).zoom as int,
                        ) as i64,
                        y: panned(
                            old(self).position.y as int,
                            old(self).last_pointer_position.y as int,
                            position.y as int,
                            old(self).zoom as int,
                        ) as i64,
                    })
                    &&& !old(self).is_panning ==> final(self).position == old(self).position
                },
                InputEvent::Scroll { delta } => {
                    &&& consumed
                    &&& final(self).zoom == scrolled_zoom(old(self).zoom as int, delta as int)
                    &&& final(self).position == old(self).position
                    &&& final(self).is_panning == old(self).is_panning
                    &&& final(self).last_pointer_position == old(self).last_pointer_position
                },
                InputEvent::Other => {
                    &&& !consumed
                    &&& *final(self) == *old(self)
                },
            },
    {
        match *event {
            InputEvent::PointerButton { button, pressed, position } => {
                self.process_pointer_button(button, pressed, position)
            },
            InputEvent::PointerMoved { position } => self.process_pointer_move(position),
            InputEvent::Scroll { delta } => {
                self.process_scroll(delta);
                true
            },
            InputEvent::Other => false,
        }
    }

    /// `scale(zoom) * translate(-position)`, column-major, in millionths.
    pub fn view_transform(&self) -> (m: [[i64; 4]; 4])
        requires
            self.wf(),
        ensures
            is_view_matrix(m, self.position, self.zoom as int),
    {
        let s: i64 = self.zoom * (MATRIX_ONE / ZOOM_ONE);
        assert(0 <= self.zoom * WORLD_LIMIT <= ZOOM_MAX * WORLD_LIMIT) by (nonlinear_arith)
            requires ZOOM_MIN <= self.zoom <= ZOOM_MAX;
        assert(-(ZOOM_MAX * WORLD_LIMIT) <= self.zoom * self.position.x <= ZOOM_MAX * WORLD_LIMIT) by (nonlinear_arith)
            requires ZOOM_MIN <= self.zoom <= ZOOM_MAX, -WORLD_LIMIT <= self.position.x <= WORLD_LIMIT;
        assert(-(ZOOM_MAX * WORLD_LIMIT) <= self.zoom * self.position.y <= ZOOM_MAX * WORLD_LIMIT) by (nonlinear_arith)
            requires ZOOM_MIN <= self.zoom <= ZOOM_MAX, -WORLD_LIMIT <= self.position.y <= WORLD_LIMIT;
        let tx: i64 = -(self.zoom * self.position.x);
        let ty: i64 = -(self.zoom * self.position.y);
        let m = [[s, 0, 0, 0], [0, s, 0, 0], [0, 0, s, 0], [tx, ty, 0, MATRIX_ONE]];
        m
    }

    /// Writes this camera's view transform into `camera_uniform`.
    pub fn update_uniform(&self, camera_uniform: &mut CameraUniform)
        requires
            self.wf(),
        ensures
            is_view_matrix(final(camera_uniform).view_proj, self.position, self.zoom as int),
    {
        camera_uniform.view_proj = self.view_transform();
    }
}

impl CameraUniform {
    /// A uniform holding the identity matrix.
    pub fn new() -> (u: Self)
        ensures
            forall|c: int, r: int|
                0 <= c < 4 && 0 <= r < 4 ==> #[trigger] u.view_proj[c][r] == identity_entry(c, r),
    {
        let one = MATRIX_ONE;
        CameraUniform {
            view_proj: [[one, 0, 0, 0], [0, one, 0, 0], [0, 0, one, 0], [0, 0, 0, one]],
        }
    }
}

} // verus!
