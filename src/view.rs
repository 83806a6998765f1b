//! The view: zoom and pan state, the pointer/touch state machine that drives
//! it, the per-tick update and the aspect-corrected transform. Zoom, centre,
//! anchors and transform entries are fixed point with 16 fractional bits.
use vstd::prelude::*;

verus! {

/// The fixed-point representation of 1 in the view's numbers.
pub const VIEW_ONE: i64 = 65536;

/// Largest zoom (raw fixed point); zooming in stops there.
pub const MAX_ZOOM: i64 = 281474976710656;

/// Smallest zoom (raw fixed point); zooming out stops there.
pub const MIN_ZOOM: i64 = 1;

/// Zoom factor and pan centre.
#[derive(Debug, Clone, Copy, PartialEq, Eq, Structural)]
pub struct ViewState {
    pub zoom: i64,
    pub center_x: i64,
    pub center_y: i64,
}

/// What the pointer is doing, with the last normalized anchor.
#[derive(Debug, Clone, Copy, PartialEq, Eq, Structural)]
pub enum Action {
    Idle,
    ZoomingIn(i64, i64),
    ZoomingOut(i64, i64),
}

/// Mouse buttons as the windowing layer reports them.
#[derive(Debug, Clone, Copy, PartialEq, Eq, Structural)]
pub enum MouseButton {
    Left,
    Right,
    Middle,
    Unknown,
}

/// Phases of a touch.
#[derive(Debug, Clone, Copy, PartialEq, Eq, Structural)]
pub enum TouchPhase {
    Started,
    Moved,
    Ended,
    Cancelled,
}

/// The affine map handed to the renderer: `diag(sx, sy, 1, 1)` with
/// translation `(tx, ty)`, all fixed point.
#[derive(Debug, Clone, Copy, PartialEq, Eq, Structural)]
pub struct ViewTransform {
    pub sx: i64,
    pub sy: i64,
    pub tx: i128,
    pub ty: i128,
}

/// Division rounding toward zero.
pub open spec fn trunc_div(a: int, d: int) -> int {
    if a >= 0 {
        a / d
    } else {
        -((-a) / d)
    }
}

/// Clamps to the range of `i64`.
pub open spec fn saturate(a: int) -> int {
    if a > i64::MAX {
        i64::MAX as int
    } else if a < i64::MIN {
        i64::MIN as int
    } else {
        a
    }
}

/// An anchor is at most one half in magnitude.
pub open spec fn anchor_ok(a: i64) -> bool {
    -VIEW_ONE / 2 <= a <= VIEW_ONE / 2
}

impl ViewState {
    pub open spec fn wf(&self) -> bool {
        MIN_ZOOM <= self.zoom <= MAX_ZOOM
    }
}

impl Action {
    pub open spec fn wf(&self) -> bool {
        match *self {
            Action::Idle => true,
            Action::ZoomingIn(x, y) => anchor_ok(x) && anchor_ok(y),
            Action::ZoomingOut(x, y) => anchor_ok(x) && anchor_ok(y),
        }
    }
}

/// One zoom-in step: `zoom * 1.01`, rounded up, no higher than `MAX_ZOOM`.
pub open spec fn zoom_in(z: int) -> int {
    let u = (101 * z + 99) / 100;
    if u > MAX_ZOOM {
        MAX_ZOOM as int
    } else {
        u
    }
}

/// One zoom-out step: `zoom / 1.01`, rounded down, no lower than `MIN_ZOOM`.
pub open spec fn zoom_out(z: int) -> int {
    let d = (100 * z) / 101;
    if d < MIN_ZOOM {
        MIN_ZOOM as int
    } else {
        d
    }
}

/// `anchor / zoom` in fixed point.
pub open spec fn pan_shift(a: int, zoom: int) -> int {
    trunc_div(a * VIEW_ONE, zoom)
}

/// The view after one tick under `a`: zooming in multiplies the zoom and
/// moves the centre by `-anchor / zoom` (y flipped); zooming out divides it
/// and moves the other way; idle changes nothing.
pub open spec fn ticked(v: ViewState, a: Action) -> ViewState {
    match a {
        Action::Idle => v,
        Action::ZoomingIn(x, y) => {
            let z = zoom_in(v.zoom as int);
            ViewState {
                zoom: z as i64,
                center_x: saturate(v.center_x - pan_shift(x as int, z)) as i64,
                center_y: saturate(v.center_y + pan_shift(y as int, z)) as i64,
            }
        },
        Action::ZoomingOut(x, y) => {
            let z = zoom_out(v.zoom as int);
            ViewState {
                zoom: z as i64,
                center_x: saturate(v.center_x + pan_shift(x as int, z)) as i64,
                center_y: saturate(v.center_y - pan_shift(y as int, z)) as i64,
            }
        },
    }
}

/// The cubic normalization `4 * (x / w - 0.5)^3`, in fixed point.
pub open spec fn anchor_of(x: int, w: int) -> int {
    trunc_div(VIEW_ONE * ((2 * x - w) * (2 * x - w) * (2 * x - w)), 2 * (w * w * w))
}

/// The action after a button press at `anchor`.
pub open spec fn after_press(a: Action, b: MouseButton, anchor: (i64, i64)) -> Action {
    match b {
        MouseButton::Left => Action::ZoomingIn(anchor.0, anchor.1),
        MouseButton::Right => Action::ZoomingOut(anchor.0, anchor.1),
        _ => a,
    }
}

/// The action after the pointer moves to `anchor`: same direction, new anchor.
pub open spec fn after_motion(a: Action, anchor: (i64, i64)) -> Action {
    match a {
        Action::ZoomingIn(..) => Action::ZoomingIn(anchor.0, anchor.1),
        Action::ZoomingOut(..) => Action::ZoomingOut(anchor.0, anchor.1),
        Action::Idle => Action::Idle,
    }
}

/// The action after a button release.
pub open spec fn after_release(a: Action) -> Action {
    Action::Idle
}

/// The action after a touch event at `anchor`: a touch that starts or moves
/// always zooms in; one that ends or is cancelled stops.
pub open spec fn after_touch(p: TouchPhase, anchor: (i64, i64)) -> Action {
    match p {
        TouchPhase::Started => Action::ZoomingIn(anchor.0, anchor.1),
        TouchPhase::Moved => Action::ZoomingIn(anchor.0, anchor.1),
        _ => Action::Idle,
    }
}

/// Aspect-corrected scale for zoom `z` on a `w x h` screen.
pub open spec fn scale_of(z: int, w: int, h: int) -> (int, int) {
    if h <= w {
        ((z * h) / w, z)
    } else {
        (z, (z * w) / h)
    }
}

/// The transform for view `v` on a `w x h` screen.
pub open spec fn transform_of(v: ViewState, w: int, h: int) -> ViewTransform {
    let (sx, sy) = scale_of(v.zoom as int, w, h);
    ViewTransform {
        sx: sx as i64,
        sy: sy as i64,
        tx: trunc_div(sx * v.center_x, VIEW_ONE as int) as i128,
        ty: trunc_div(sy * v.center_y, VIEW_ONE as int) as i128,
    }
}

fn trunc_div_i64(a: i64, d: i64) -> (r: i64)
    requires
        a > i64::MIN,
        d > 0,
    ensures
        r == trunc_div(a as int, d as int),
{
    if a >= 0 {
        a / d
    } else {
        -((-a) / d)
    }
}

fn trunc_div_i128(a: i128, d: i128) -> (r: i128)
    requires
        a > i128::MIN,
        d > 0,
    ensures
        r == trunc_div(a as int, d as int),
{
    if a >= 0 {
        a / d
    } else {
        -((-a) / d)
    }
}

proof fn lemma_trunc_div_bound(a: int, d: int, m: int)
    requires
        -m <= a <= m,
        0 < d,
    ensures
        -m <= trunc_div(a, d) <= m,
{
    let b = if a >= 0 { a } else { -a };
    vstd::arithmetic::div_mod::lemma_div_pos_is_pos(b, d);
    vstd::arithmetic::div_mod::lemma_div_is_ordered_by_denominator(b, 1, d);
    vstd::arithmetic::div_mod::lemma_div_by_multiple(b, 1);
}

fn saturating_add(a: i64, b: i64) -> (r: i64)
    ensures
        r == saturate(a + b),
{
    let s: i128 = a as i128 + b as i128;
    if s > i64::MAX as i128 {
        i64::MAX
    } else if s < i64::MIN as i128 {
        i64::MIN
    } else {
        s as i64
    }
}

fn zoom_in_exec(z: i64) -> (r: i64)
    requires
        MIN_ZOOM <= z <= MAX_ZOOM,
    ensures
        r == zoom_in(z as int),
        MIN_ZOOM <= r <= MAX_ZOOM,
{
    let u: i64 = (101 * z + 99) / 100;
    if u > MAX_ZOOM {
        MAX_ZOOM
    } else {
        u
    }
}

fn zoom_out_exec(z: i64) -> (r: i64)
    requires
        MIN_ZOOM <= z <= MAX_ZOOM,
    ensures
        r == zoom_out(z as int),
        MIN_ZOOM <= r <= MAX_ZOOM,
{
    let d: i64 = (100 * z) / 101;
    if d < MIN_ZOOM {
        MIN_ZOOM
    } else {
        d
    }
}

fn pan_shift_exec(a: i64, zoom: i64) -> (r: i64)
    requires
        anchor_ok(a),
        MIN_ZOOM <= zoom,
    ensures
        r == pan_shift(a as int, zoom as int),
        -VIEW_ONE * VIEW_ONE <= r <= VIEW_ONE * VIEW_ONE,
{
    proof {
        lemma_trunc_div_bound(a * VIEW_ONE, zoom as int, VIEW_ONE * VIEW_ONE);
    }
    trunc_div_i64(a * VIEW_ONE, zoom)
}

/// Advances the view by one tick under `action`.
pub fn tick(view: ViewState, action: Action) -> (r: ViewState)
    requires
        view.wf(),
        action.wf(),
    ensures
        r == ticked(view, action),
        r.wf(),
{
    match action {
        Action::Idle => view,
        Action::ZoomingIn(x, y) => {
            let z = zoom_in_exec(view.zoom);
            ViewState {
                zoom: z,
                center_x: saturating_add(view.center_x, -pan_shift_exec(x, z)),
                center_y: saturating_add(view.center_y, pan_shift_exec(y, z)),
            }
        },
        Action::ZoomingOut(x, y) => {
            let z = zoom_out_exec(view.zoom);
            ViewState {
                zoom: z,
                center_x: saturating_add(view.center_x, pan_shift_exec(x, z)),
                center_y: saturating_add(view.center_y, -pan_shift_exec(y, z)),
            }
        },
    }
}

proof fn lemma_cube_bound(d: int, w: int)
    requires
        -w <= d <= w,
        0 < w,
    ensures
        -(w * w * w) <= d * d * d <= w * w * w,
        0 < w * w * w,
{
    assert(0 <= d * d <= w * w) by (nonlinear_arith)
        requires -w <= d <= w;
    assert(-(w * w * w) <= d * d * d <= w * w * w) by (nonlinear_arith)
        requires -w <= d <= w, 0 <= d * d <= w * w;
    assert(0 < w * w * w) by (nonlinear_arith)
        requires 0 < w;
}

fn anchor_exec(x: u32, w: u32) -> (r: i64)
    requires
        x <= w,
        0 < w,
    ensures
        r == anchor_of(x as int, w as int),
        anchor_ok(r),
{
    let d: i128 = 2 * (x as i128) - (w as i128);
    let ww: i128 = w as i128;
    proof {
        lemma_cube_bound(d as int, w as int);
        assert(w * w * w <= 4294967295 * 4294967295 * 4294967295) by (nonlinear_arith)
            requires w <= 4294967295, 0 < w;
        assert(d * d * d == d * (d * d)) by (nonlinear_arith);
        assert(ww * ww * ww == ww * (ww * ww)) by (nonlinear_arith);
        assert(-(w * w * w) <= d * (d * d) <= w * w * w);
        assert(0 <= d * d <= w * w) by (nonlinear_arith)
            requires -w <= d <= w;
        assert(0 <= ww * ww <= 4294967295 * 4294967295) by (nonlinear_arith)
            requires 0 < ww <= 4294967295;
    }
    let cube: i128 = d * (d * d);
    let den: i128 = 2 * (ww * (ww * ww));
    proof {
        let c3 = w * w * w;
        assert(-(VIEW_ONE * c3) <= VIEW_ONE * cube <= VIEW_ONE * c3) by (nonlinear_arith)
            requires -c3 <= cube <= c3;
        let q = trunc_div(VIEW_ONE * cube, den as int);
        let b = if VIEW_ONE * cube >= 0 { VIEW_ONE * cube } else { -(VIEW_ONE * cube) };
        assert(den == 2 * c3);
        assert((VIEW_ONE / 2) * den == VIEW_ONE * c3) by (nonlinear_arith)
            requires den == 2 * c3;
        assert(b <= (VIEW_ONE / 2) * den);
        vstd::arithmetic::div_mod::lemma_div_is_ordered(b, (VIEW_ONE / 2) * den, den as int);
        vstd::arithmetic::div_mod::lemma_div_by_multiple(VIEW_ONE / 2, den as int);
        vstd::arithmetic::div_mod::lemma_div_pos_is_pos(b, den as int);
    }
    trunc_div_i128(VIEW_ONE as i128 * cube, den) as i64
}

/// Normalizes a pointer position `(x, y)` on a `w x h` screen to the anchor
/// `(4 * (x / w - 0.5)^3, 4 * (y / h - 0.5)^3)`: zero at the screen's centre,
/// at most one half in magnitude at its edges.
pub fn norm_mouse_pos(x: u32, y: u32, w: u32, h: u32) -> (r: (i64, i64))
    requires
        x <= w,
        y <= h,
        0 < w,
        0 < h,
    ensures
        r.0 == anchor_of(x as int, w as int),
        r.1 == anchor_of(y as int, h as int),
        anchor_ok(r.0),
        anchor_ok(r.1),
{
    (anchor_exec(x, w), anchor_exec(y, h))
}

proof fn lemma_ratio_scale(z: int, a: int, b: int)
    requires
        0 <= z,
        0 <= a <= b,
        0 < b,
    ensures
        0 <= (z * a) / b <= z,
{
    assert(0 <= z * a <= z * b) by (nonlinear_arith)
        requires 0 <= z, 0 <= a <= b;
    vstd::arithmetic::div_mod::lemma_div_is_ordered(z * a, z * b, b);
    vstd::arithmetic::div_mod::lemma_div_by_multiple(z, b);
    vstd::arithmetic::div_mod::lemma_div_pos_is_pos(z * a, b);
}

/// The transform for `view` on a `w x h` screen: the aspect-correction scale
/// (`(h / w, 1)` when `h <= w`, else `(1, w / h)`) times the zoom, and the
/// translation `(sx * cx, sy * cy)`.
pub fn view_transform(view: ViewState, w: u32, h: u32) -> (r: ViewTransform)
    requires
        view.wf(),
        0 < w,
        0 < h,
    ensures
        r == transform_of(view, w as int, h as int),
{
    let z: i128 = view.zoom as i128;
    let (sx, sy): (i128, i128) = if h <= w {
        proof {
            lemma_ratio_scale(z as int, h as int, w as int);
            assert(z * h <= MAX_ZOOM * 4294967295) by (nonlinear_arith)
                requires 0 <= z <= MAX_ZOOM, 0 <= h <= 4294967295;
        }
        (z * (h as i128) / (w as i128), z)
    } else {
        proof {
            lemma_ratio_scale(z as int, w as int, h as int);
            assert(z * w <= MAX_ZOOM * 4294967295) by (nonlinear_arith)
                requires 0 <= z <= MAX_ZOOM, 0 <= w <= 4294967295;
        }
        (z, z * (w as i128) / (h as i128))
    };
    proof {
        assert(-(MAX_ZOOM * 9223372036854775808) <= sx * view.center_x <= MAX_ZOOM * 9223372036854775808)
            by (nonlinear_arith)
            requires 0 <= sx <= MAX_ZOOM, i64::MIN <= view.center_x <= i64::MAX;
        assert(-(MAX_ZOOM * 9223372036854775808) <= sy * view.center_y <= MAX_ZOOM * 9223372036854775808)
            by (nonlinear_arith)
            requires 0 <= sy <= MAX_ZOOM, i64::MIN <= view.center_y <= i64::MAX;
        lemma_trunc_div_bound(sx * view.center_x, VIEW_ONE as int, MAX_ZOOM * 9223372036854775808);
        lemma_trunc_div_bound(sy * view.center_y, VIEW_ONE as int, MAX_ZOOM * 9223372036854775808);
    }
    ViewTransform {
        sx: sx as i64,
        sy: sy as i64,
        tx: trunc_div_i128(sx * (view.center_x as i128), VIEW_ONE as i128),
        ty: trunc_div_i128(sy * (view.center_y as i128), VIEW_ONE as i128),
    }
}

/// For a fixed screen, the transform's scales never decrease as the zoom
/// grows.
pub proof fn lemma_scale_monotonic_in_zoom(z1: int, z2: int, w: int, h: int)
    requires
        0 <= z1 <= z2,
        0 < w,
        0 < h,
    ensures
        scale_of(z1, w, h).0 <= scale_of(z2, w, h).0,
        scale_of(z1, w, h).1 <= scale_of(z2, w, h).1,
{
    if h <= w {
        assert(z1 * h <= z2 * h) by (nonlinear_arith)
            requires z1 <= z2, 0 < h;
        vstd::arithmetic::div_mod::lemma_div_is_ordered(z1 * h, z2 * h, w);
    } else {
        assert(z1 * w <= z2 * w) by (nonlinear_arith)
            requires z1 <= z2, 0 < w;
        vstd::arithmetic::div_mod::lemma_div_is_ordered(z1 * w, z2 * w, h);
    }
}

/// Whatever the screen, a pointer at its exact centre gives a zero anchor.
pub proof fn lemma_center_anchor_is_zero(x: int, w: int)
    requires
        0 < w,
        2 * x == w,
    ensures
        anchor_of(x, w) == 0,
{
    assert(0int * 0 * 0 == 0);
    assert(0 < w * w * w) by (nonlinear_arith)
        requires 0 < w;
    assert(VIEW_ONE * 0 == 0);
    vstd::arithmetic::div_mod::lemma_div_pos_is_pos(0, 2 * (w * w * w));
    assert(0int / (2 * (w * w * w)) == 0) by (nonlinear_arith)
        requires 0 < w * w * w;
}

/// A zoom-in tick strictly raises the zoom below `MAX_ZOOM`; a zoom-out tick
/// strictly lowers it above `MIN_ZOOM`; both keep it within the bounds.
pub proof fn lemma_tick_zoom_direction(v: ViewState, x: i64, y: i64)
    requires
        v.wf(),
    ensures
        ticked(v, Action::ZoomingIn(x, y)).zoom == zoom_in(v.zoom as int),
        ticked(v, Action::ZoomingOut(x, y)).zoom == zoom_out(v.zoom as int),
        v.zoom < MAX_ZOOM ==> ticked(v, Action::ZoomingIn(x, y)).zoom > v.zoom,
        v.zoom > MIN_ZOOM ==> ticked(v, Action::ZoomingOut(x, y)).zoom < v.zoom,
        ticked(v, Action::ZoomingIn(x, y)).wf(),
        ticked(v, Action::ZoomingOut(x, y)).wf(),
{
    let z = v.zoom as int;
    vstd::arithmetic::div_mod::lemma_fundamental_div_mod(101 * z + 99, 100);
    vstd::arithmetic::div_mod::lemma_fundamental_div_mod(100 * z, 101);
}

/// After a button release, whatever the action was, a tick leaves the view
/// exactly as it was.
pub proof fn lemma_release_then_tick_is_still(v: ViewState, a: Action)
    ensures
        after_release(a) == Action::Idle,
        ticked(v, after_release(a)) == v,
{
}

/// The view after `n` ticks under the same action.
pub open spec fn ticked_times(v: ViewState, a: Action, n: nat) -> ViewState
    decreases n,
{
    if n == 0 {
        v
    } else {
        ticked(ticked_times(v, a, (n - 1) as nat), a)
    }
}

/// `n` zoom-out steps.
pub open spec fn zoom_out_times(z: int, n: nat) -> int
    decreases n,
{
    if n == 0 {
        z
    } else {
        zoom_out_times(zoom_out(z), (n - 1) as nat)
    }
}

/// `n` zoom-in steps.
pub open spec fn zoom_in_times(z: int, n: nat) -> int
    decreases n,
{
    if n == 0 {
        z
    } else {
        zoom_in(zoom_in_times(z, (n - 1) as nat))
    }
}

proof fn lemma_in_then_out(z: int)
    requires
        MIN_ZOOM <= z,
        (101 * z + 99) / 100 <= MAX_ZOOM,
    ensures
        zoom_out(zoom_in(z)) == z,
{
    vstd::arithmetic::div_mod::lemma_fundamental_div_mod(101 * z + 99, 100);
    let u = (101 * z + 99) / 100;
    vstd::arithmetic::div_mod::lemma_fundamental_div_mod(100 * u, 101);
}

proof fn lemma_zoom_in_times_grows(z: int, n: nat)
    requires
        MIN_ZOOM <= z <= MAX_ZOOM,
    ensures
        z <= zoom_in_times(z, n) <= MAX_ZOOM,
        n > 0 ==> zoom_in_times(z, (n - 1) as nat) <= zoom_in_times(z, n),
    decreases n,
{
    if n > 0 {
        lemma_zoom_in_times_grows(z, (n - 1) as nat);
        let p = zoom_in_times(z, (n - 1) as nat);
        vstd::arithmetic::div_mod::lemma_fundamental_div_mod(101 * p + 99, 100);
    }
}

proof fn lemma_zoom_round_trip(z: int, n: nat)
    requires
        MIN_ZOOM <= z <= MAX_ZOOM,
        zoom_in_times(z, n) < MAX_ZOOM,
    ensures
        zoom_out_times(zoom_in_times(z, n), n) == z,
    decreases n,
{
    if n > 0 {
        let m = (n - 1) as nat;
        let p = zoom_in_times(z, m);
        lemma_zoom_in_times_grows(z, n);
        vstd::arithmetic::div_mod::lemma_fundamental_div_mod(101 * p + 99, 100);
        lemma_in_then_out(p);
        lemma_zoom_round_trip_out(zoom_in_times(z, n), n);
        lemma_zoom_round_trip(z, m);
    }
}

proof fn lemma_zoom_round_trip_out(z: int, n: nat)
    requires
        n > 0,
    ensures
        zoom_out_times(z, n) == zoom_out_times(zoom_out(z), (n - 1) as nat),
{
}

proof fn lemma_ticked_times_zoom(v: ViewState, a: Action, n: nat)
    requires
        v.wf(),
        a is ZoomingIn || a is ZoomingOut,
    ensures
        ticked_times(v, a, n).wf(),
        a is ZoomingIn ==> ticked_times(v, a, n).zoom == zoom_in_times(v.zoom as int, n),
    decreases n,
{
    if n > 0 {
        lemma_ticked_times_zoom(v, a, (n - 1) as nat);
        let p = ticked_times(v, a, (n - 1) as nat);
        match a {
            Action::ZoomingIn(x, y) => lemma_tick_zoom_direction(p, x, y),
            Action::ZoomingOut(x, y) => lemma_tick_zoom_direction(p, x, y),
            Action::Idle => {},
        }
    }
}

proof fn lemma_ticked_times_out_zoom(v: ViewState, x: i64, y: i64, n: nat)
    requires
        v.wf(),
    ensures
        ticked_times(v, Action::ZoomingOut(x, y), n).zoom == zoom_out_times(v.zoom as int, n),
    decreases n,
{
    if n > 0 {
        let a = Action::ZoomingOut(x, y);
        let m = (n - 1) as nat;
        lemma_ticked_times_zoom(v, a, m);
        lemma_ticked_times_out_zoom(v, x, y, m);
        lemma_tick_zoom_direction(ticked_times(v, a, m), x, y);
        lemma_zoom_out_times_last(v.zoom as int, n);
    }
}

proof fn lemma_zoom_out_times_last(z: int, n: nat)
    requires
        n > 0,
    ensures
        zoom_out_times(z, n) == zoom_out(zoom_out_times(z, (n - 1) as nat)),
    decreases n,
{
    if n > 1 {
        lemma_zoom_out_times_last(zoom_out(z), (n - 1) as nat);
        assert(zoom_out_times(z, n) == zoom_out_times(zoom_out(z), (n - 1) as nat));
        assert(zoom_out_times(z, (n - 1) as nat) == zoom_out_times(zoom_out(z), (n - 2) as nat));
    } else {
        assert(zoom_out_times(z, 1) == zoom_out_times(zoom_out(z), 0));
    }
}

/// `n` zoom-in ticks followed by `n` zoom-out ticks, at any anchors, bring
/// the zoom back to exactly where it started, as long as zooming in never
/// reached `MAX_ZOOM`.
pub proof fn lemma_zoom_in_out_round_trip(v: ViewState, a: (i64, i64), b: (i64, i64), n: nat)
    requires
        v.wf(),
        ticked_times(v, Action::ZoomingIn(a.0, a.1), n).zoom < MAX_ZOOM,
    ensures
        ticked_times(
            ticked_times(v, Action::ZoomingIn(a.0, a.1), n),
            Action::ZoomingOut(b.0, b.1),
            n,
        ).zoom == v.zoom,
{
    let up = ticked_times(v, Action::ZoomingIn(a.0, a.1), n);
    lemma_ticked_times_zoom(v, Action::ZoomingIn(a.0, a.1), n);
    lemma_ticked_times_out_zoom(up, b.0, b.1, n);
    lemma_zoom_round_trip(v.zoom as int, n);
}

} // verus!
