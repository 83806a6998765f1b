//! Escape-time evaluation of the quadratic map `z -> z^2 + c` in fixed-point
//! arithmetic with `FRAC_BITS` fractional bits.
use vstd::prelude::*;

verus! {

/// Fractional bits of the evaluator's fixed-point numbers.
pub const FRAC_BITS: u32 = 24;

/// The fixed-point representation of 1.
pub const ONE: i64 = 16777216;

/// Iteration cap of the palette colouring.
pub const MAX_ITER: u32 = 500;

/// Iteration cap of the smooth-gradient colouring.
pub const GRADIENT_MAX_ITER: u32 = 120;

/// Division by `ONE`, rounding toward zero.
pub open spec fn scale_down(a: int) -> int {
    if a >= 0 {
        a / (ONE as int)
    } else {
        -((-a) / (ONE as int))
    }
}

/// One step of the map in fixed point: `(a, b)^2 + c` with
/// `(a, b)^2 = (a^2 - b^2, 2ab)`.
pub open spec fn step(z: (int, int), c: (int, int)) -> (int, int) {
    (scale_down(z.0 * z.0 - z.1 * z.1) + c.0, scale_down(2 * z.0 * z.1) + c.1)
}

/// `z_n` for the point `c`, starting from `z_0 = 0`.
pub open spec fn orbit(c: (int, int), n: nat) -> (int, int)
    decreases n,
{
    if n == 0 {
        (0, 0)
    } else {
        step(orbit(c, (n - 1) as nat), c)
    }
}

/// `|z|^2 > 4`.
pub open spec fn escaped(z: (int, int)) -> bool {
    z.0 * z.0 + z.1 * z.1 > 4 * ONE * ONE
}

/// The first index `k` in `n..max_iter` at which the orbit has escaped, or
/// `max_iter` if there is none.
pub open spec fn first_escape(c: (int, int), n: nat, max_iter: nat) -> nat
    decreases max_iter - n,
{
    if n >= max_iter {
        max_iter
    } else if escaped(orbit(c, n)) {
        n
    } else {
        first_escape(c, n + 1, max_iter)
    }
}

/// The escape index of `c`: the first `n < max_iter` with `|z_n|^2 > 4`, or
/// `max_iter` for a point that never escapes within the cap.
pub open spec fn escape_index_of(c: (int, int), max_iter: nat) -> nat {
    first_escape(c, 0, max_iter)
}

/// Maps a texture coordinate `(u, v)` in `[0, 1]^2` to the complex window
/// `[-2, 1] x [-1.5, 1.5]`.
pub open spec fn texcoord_point(u: int, v: int) -> (int, int) {
    (3 * u - 2 * ONE, 3 * v - 3 * ONE / 2)
}

fn scale_down_exec(a: i64) -> (r: i64)
    requires
        a > i64::MIN,
    ensures
        r == scale_down(a as int),
{
    if a >= 0 {
        a / ONE
    } else {
        -((-a) / ONE)
    }
}

proof fn lemma_scale_down_bound(a: int, m: int)
    requires
        -(m * ONE) <= a <= m * ONE,
        0 <= m,
    ensures
        -m <= scale_down(a) <= m,
{
    if a >= 0 {
        vstd::arithmetic::div_mod::lemma_div_is_ordered(a, m * ONE, ONE as int);
        vstd::arithmetic::div_mod::lemma_div_by_multiple(m, ONE as int);
    } else {
        vstd::arithmetic::div_mod::lemma_div_is_ordered(-a, m * ONE, ONE as int);
        vstd::arithmetic::div_mod::lemma_div_by_multiple(m, ONE as int);
    }
    vstd::arithmetic::div_mod::lemma_div_pos_is_pos(if a >= 0 { a } else { -a }, ONE as int);
}

proof fn lemma_step_bound(z: (int, int), c: (int, int))
    requires
        !escaped(z),
        -2 * ONE <= c.0 <= 2 * ONE,
        -2 * ONE <= c.1 <= 2 * ONE,
    ensures
        -6 * ONE <= step(z, c).0 <= 6 * ONE,
        -6 * ONE <= step(z, c).1 <= 6 * ONE,
{
    let s = ONE as int;
    let (x, y) = z;
    assert(0 <= x * x && 0 <= y * y) by (nonlinear_arith);
    assert(-(2 * x * y) <= x * x + y * y && 2 * x * y <= x * x + y * y) by (nonlinear_arith);
    assert(4 * s * s == 4 * s * s);
    lemma_scale_down_bound(x * x - y * y, 4 * s);
    lemma_scale_down_bound(2 * x * y, 4 * s);
}

/// The escape index of the point `(cx, cy)` (fixed point), the first `n`
/// below `max_iter` with `|z_n|^2 > 4`, or `max_iter` if the orbit stays
/// bounded that long.
pub fn escape_index(cx: i64, cy: i64, max_iter: u32) -> (r: u32)
    requires
        -2 * ONE <= cx <= 2 * ONE,
        -2 * ONE <= cy <= 2 * ONE,
    ensures
        r == escape_index_of((cx as int, cy as int), max_iter as nat),
{
    let ghost c = (cx as int, cy as int);
    let mut x: i64 = 0;
    let mut y: i64 = 0;
    let mut i: u32 = 0;
    while i < max_iter
        invariant
            i <= max_iter,
            (x as int, y as int) == orbit(c, i as nat),
            c == (cx as int, cy as int),
            -2 * ONE <= cx <= 2 * ONE,
            -2 * ONE <= cy <= 2 * ONE,
            -6 * ONE <= x <= 6 * ONE,
            -6 * ONE <= y <= 6 * ONE,
            first_escape(c, i as nat, max_iter as nat) == escape_index_of(c, max_iter as nat),
        decreases max_iter - i,
    {
        proof {
            assert(0 <= x * x <= 36 * ONE * ONE) by (nonlinear_arith)
                requires -6 * ONE <= x <= 6 * ONE;
            assert(0 <= y * y <= 36 * ONE * ONE) by (nonlinear_arith)
                requires -6 * ONE <= y <= 6 * ONE;
        }
        let xx: i64 = x * x;
        let yy: i64 = y * y;
        if xx + yy > 4 * ONE * ONE {
            return i;
        }
        proof {
            assert(-(2 * (x * y)) <= 4 * ONE * ONE && 2 * (x * y) <= 4 * ONE * ONE) by (nonlinear_arith)
                requires xx == x * x, yy == y * y, xx + yy <= 4 * ONE * ONE;
            assert(2 * x * y == 2 * (x * y)) by (nonlinear_arith);
            lemma_step_bound((x as int, y as int), c);
        }
        let xy: i64 = x * y;
        let nx: i64 = scale_down_exec(xx - yy) + cx;
        let ny: i64 = scale_down_exec(2 * xy) + cy;
        x = nx;
        y = ny;
        i = i + 1;
    }
    i
}

/// Maps a fixed-point texture coordinate `(u, v)` in `[0, 1]^2` to its point
/// of the complex window `[-2, 1] x [-1.5, 1.5]`.
pub fn texcoord_to_complex(u: i64, v: i64) -> (r: (i64, i64))
    requires
        0 <= u <= ONE,
        0 <= v <= ONE,
    ensures
        (r.0 as int, r.1 as int) == texcoord_point(u as int, v as int),
        -2 * ONE <= r.0 <= 2 * ONE,
        -2 * ONE <= r.1 <= 2 * ONE,
{
    (3 * u - 2 * ONE, 3 * v - 3 * ONE / 2)
}

/// The orbit of the origin stays at the origin, so the origin never escapes,
/// whatever the iteration cap.
pub proof fn lemma_origin_never_escapes(max_iter: nat)
    ensures
        escape_index_of((0, 0), max_iter) == max_iter,
{
    assert forall|n: nat| #[trigger] orbit((0, 0), n) == (0int, 0int) by {
        lemma_origin_orbit(n);
    }
    lemma_first_escape_origin(0, max_iter);
}

proof fn lemma_origin_orbit(n: nat)
    ensures
        orbit((0, 0), n) == (0int, 0int),
    decreases n,
{
    if n > 0 {
        lemma_origin_orbit((n - 1) as nat);
        assert(0int * 0 - 0int * 0 == 0 && 2 * 0int * 0 == 0);
        assert(scale_down(0) == 0);
        assert(step((0int, 0int), (0int, 0int)) == (0int, 0int));
        assert(orbit((0, 0), n) == step(orbit((0, 0), (n - 1) as nat), (0int, 0int)));
    }
}

proof fn lemma_first_escape_origin(n: nat, max_iter: nat)
    requires
        forall|k: nat| #[trigger] orbit((0, 0), k) == (0int, 0int),
    ensures
        first_escape((0, 0), n, max_iter) == max_iter,
    decreases max_iter - n,
{
    if n < max_iter {
        assert(orbit((0, 0), n) == (0int, 0int));
        lemma_first_escape_origin(n + 1, max_iter);
    }
}

} // verus!
