//! Colouring strategies for escape indices, and the whole per-pixel
//! evaluation from a texture coordinate to an RGBA colour.
use vstd::prelude::*;
use crate::escape::{escape_index, escape_index_of, texcoord_point, texcoord_to_complex, GRADIENT_MAX_ITER, MAX_ITER, ONE};
use crate::palette::{escape_color, lemma_scaled_fraction, palette_color};

verus! {

/// How escape indices are turned into colours.
#[derive(Debug, Clone, Copy, PartialEq, Eq, Structural)]
pub enum ColorMode {
    /// Cyclic palette lookup, black for interior points; `MAX_ITER` steps.
    Palette,
    /// Black to red to white ramp; `GRADIENT_MAX_ITER` steps.
    Gradient,
}

pub open spec fn mode_max_iter(m: ColorMode) -> nat {
    match m {
        ColorMode::Palette => MAX_ITER as nat,
        ColorMode::Gradient => GRADIENT_MAX_ITER as nat,
    }
}

/// The gradient colour of escape index `b` under cap `m`: with
/// `i = b / m` and `i' = 2i / (i + 1) = 2b / (b + m)`, red is
/// `max(0, 2i' - 1)` and green and blue are `i'`, each scaled to `0..=255`
/// by truncation, alpha 255.
pub open spec fn gradient_rgba(b: int, m: int) -> Seq<u8> {
    let red = if 3 * b > m { (255 * (3 * b - m)) / (b + m) } else { 0 };
    let gb = (255 * (2 * b)) / (b + m);
    seq![red as u8, gb as u8, gb as u8, 255u8]
}

/// The iteration cap of a colouring mode.
pub fn max_iter(mode: ColorMode) -> (r: u32)
    ensures
        r == mode_max_iter(mode),
{
    match mode {
        ColorMode::Palette => MAX_ITER,
        ColorMode::Gradient => GRADIENT_MAX_ITER,
    }
}

/// The smooth-gradient colour of escape index `b` under cap `m`.
pub fn gradient_color(b: u32, m: u32) -> (r: [u8; 4])
    requires
        b <= m,
        0 < m,
    ensures
        r@ == gradient_rgba(b as int, m as int),
{
    let bb: u64 = b as u64;
    let mm: u64 = m as u64;
    proof {
        lemma_scaled_fraction(2 * b, (b + m) as int);
        if 3 * b > m {
            lemma_scaled_fraction(3 * b - m, (b + m) as int);
        }
    }
    let red: u8 = if 3 * bb > mm { ((255 * (3 * bb - mm)) / (bb + mm)) as u8 } else { 0 };
    let gb: u8 = ((255 * (2 * bb)) / (bb + mm)) as u8;
    let c: [u8; 4] = [red, gb, gb, 255];
    assert(c@ =~= gradient_rgba(b as int, m as int));
    c
}

/// The colour of an escape index under a mode.
pub open spec fn mode_color(mode: ColorMode, b: int, pal: Seq<u8>) -> Seq<u8> {
    match mode {
        ColorMode::Palette => palette_color(b, MAX_ITER as int, pal),
        ColorMode::Gradient => gradient_rgba(b, GRADIENT_MAX_ITER as int),
    }
}

/// Evaluates one pixel: maps the fixed-point texture coordinate `(u, v)` to
/// the complex window, finds its escape index under the mode's cap and
/// colours it.
pub fn shade(mode: ColorMode, u: i64, v: i64, palette: &Vec<u8>) -> (r: [u8; 4])
    requires
        0 <= u <= ONE,
        0 <= v <= ONE,
        palette@.len() % 4 == 0,
        0 < palette@.len(),
    ensures
        r@ == mode_color(
            mode,
            escape_index_of(texcoord_point(u as int, v as int), mode_max_iter(mode)) as int,
            palette@,
        ),
{
    let c = texcoord_to_complex(u, v);
    let m = max_iter(mode);
    let b = escape_index(c.0, c.1, m);
    proof {
        lemma_escape_index_at_most(texcoord_point(u as int, v as int), 0, m as nat);
    }
    match mode {
        ColorMode::Palette => escape_color(b, m, palette),
        ColorMode::Gradient => gradient_color(b, m),
    }
}

proof fn lemma_escape_index_at_most(c: (int, int), n: nat, m: nat)
    ensures
        crate::escape::first_escape(c, n, m) <= m,
    decreases m - n,
{
    if n < m {
        lemma_escape_index_at_most(c, n + 1, m);
    }
}

} // verus!
