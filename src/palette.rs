//! Palette generation: HSV to RGB by the sector table, with exact rational
//! inputs and truncation of each channel to `0..=255`.
use vstd::prelude::*;

verus! {

/// Number of entries of the viewer's palette.
pub const NUM_COLORS: u32 = 12;

/// Largest denominator accepted for the rational HSV components.
pub const MAX_DEN: u32 = 65536;

/// Failure of the HSV conversion.
#[derive(Debug, Clone, Copy, PartialEq, Eq, Structural)]
pub enum PaletteError {
    /// The hue sector `floor(6 * h)` fell outside `0..=5`.
    InvalidHueSector(u64),
}

/// `floor(6 * h)` for `h = h_num / den`.
pub open spec fn hue_sector(h_num: int, den: int) -> int {
    (6 * h_num) / den
}

/// The fractional part of `6 * h`, scaled by `den`.
pub open spec fn hue_frac(h_num: int, den: int) -> int {
    6 * h_num - hue_sector(h_num, den) * den
}

/// `trunc(255 * v)`.
pub open spec fn chan_v(v_num: int, den: int) -> int {
    (255 * v_num) / den
}

/// `trunc(255 * v * (1 - s))`.
pub open spec fn chan_p(s_num: int, v_num: int, den: int) -> int {
    (255 * v_num * (den - s_num)) / (den * den)
}

/// `trunc(255 * v * (1 - f * s))`.
pub open spec fn chan_q(f: int, s_num: int, v_num: int, den: int) -> int {
    (255 * v_num * (den * den - f * s_num)) / (den * den * den)
}

/// `trunc(255 * v * (1 - (1 - f) * s))`.
pub open spec fn chan_t(f: int, s_num: int, v_num: int, den: int) -> int {
    (255 * v_num * (den * den - (den - f) * s_num)) / (den * den * den)
}

/// The sector table: which of `v`, `p`, `q`, `t` goes to red, green, blue.
pub open spec fn sector_rgb(k: int, v: int, p: int, q: int, t: int) -> (int, int, int) {
    if k == 0 {
        (v, t, p)
    } else if k == 1 {
        (q, v, p)
    } else if k == 2 {
        (p, v, t)
    } else if k == 3 {
        (p, q, v)
    } else if k == 4 {
        (t, p, v)
    } else {
        (v, p, q)
    }
}

/// The colour of `HSV(h_num / den, s_num / den, v_num / den)`, for a hue sector
/// in `0..=5`.
pub open spec fn hsv_rgb(h_num: int, s_num: int, v_num: int, den: int) -> (int, int, int) {
    let f = hue_frac(h_num, den);
    sector_rgb(
        hue_sector(h_num, den),
        chan_v(v_num, den),
        chan_p(s_num, v_num, den),
        chan_q(f, s_num, v_num, den),
        chan_t(f, s_num, v_num, den),
    )
}

/// The channels of an RGB triple as integers.
pub open spec fn rgb_of(c: [u8; 3]) -> (int, int, int) {
    (c[0] as int, c[1] as int, c[2] as int)
}

/// `a / d` in `[0, 1]` scaled to `0..=255` stays in that range.
pub(crate) proof fn lemma_scaled_fraction(a: int, d: int)
    requires
        0 <= a <= d,
        0 < d,
    ensures
        0 <= (255 * a) / d <= 255,
{
    assert(0 <= 255 * a <= 255 * d) by (nonlinear_arith)
        requires 0 <= a <= d;
    vstd::arithmetic::div_mod::lemma_div_is_ordered(255 * a, 255 * d, d);
    vstd::arithmetic::div_mod::lemma_div_by_multiple(255, d);
    vstd::arithmetic::div_mod::lemma_div_pos_is_pos(255 * a, d);
}

/// Converts `HSV(h, s, v)` with `h = h_num / den`, `s = s_num / den`,
/// `v = v_num / den` to RGB by the sector table, truncating each channel
/// scaled to `0..=255`. Fails when the hue sector `floor(6 * h)` exceeds 5,
/// that is when `h >= 1`.
pub fn hsv_to_rgb(h_num: u32, s_num: u32, v_num: u32, den: u32) -> (r: Result<[u8; 3], PaletteError>)
    requires
        0 < den <= MAX_DEN,
        s_num <= den,
        v_num <= den,
    ensures
        h_num >= den <==> r is Err,
        r matches Err(e) ==> e == PaletteError::InvalidHueSector(
            hue_sector(h_num as int, den as int) as u64,
        ),
        r matches Ok(c) ==> rgb_of(c) == hsv_rgb(h_num as int, s_num as int, v_num as int, den as int),
{
    let hh: u64 = 6 * (h_num as u64);
    let d: u64 = den as u64;
    let k: u64 = hh / d;
    proof {
        vstd::arithmetic::div_mod::lemma_fundamental_div_mod(hh as int, d as int);
        if h_num >= den {
            assert(6 * d <= hh);
            vstd::arithmetic::div_mod::lemma_div_is_ordered(6 * d as int, hh as int, d as int);
            vstd::arithmetic::div_mod::lemma_div_by_multiple(6, d as int);
        } else {
            assert(hh < 6 * d);
            vstd::arithmetic::div_mod::lemma_div_pos_is_pos(hh as int, d as int);
            assert(k < 6) by (nonlinear_arith)
                requires hh as int == d * k + hh as int % d as int, hh as int % d as int >= 0,
                    hh < 6 * d, d > 0;
        }
        assert(k as int * d == d * (hh as int / d as int)) by (nonlinear_arith)
            requires k as int == hh as int / d as int;
    }
    if k > 5 {
        return Err(PaletteError::InvalidHueSector(k));
    }
    proof {
        if h_num >= den {
            assert(k >= 6);
        }
    }
    let f: u64 = hh - k * d;
    let s: u64 = s_num as u64;
    let v: u64 = v_num as u64;
    proof {
        assert(d * d <= 65536 * 65536) by (nonlinear_arith)
            requires d <= 65536;
        assert(d * d * d <= 65536 * 65536 * 65536) by (nonlinear_arith)
            requires d <= 65536;
    }
    let d2: u64 = d * d;
    let d3: u64 = d2 * d;
    proof {
        assert(d2 <= 65536 * 65536) by (nonlinear_arith)
            requires d2 == d * d, d <= 65536;
        assert(d3 <= 65536 * 65536 * 65536) by (nonlinear_arith)
            requires d3 == d2 * d, d2 <= 65536 * 65536, d <= 65536;
        assert(f * s <= d2) by (nonlinear_arith)
            requires f < d, s <= d, d2 == d * d;
        assert((d - f) * s <= d2) by (nonlinear_arith)
            requires f < d, s <= d, d2 == d * d;
        assert(v * (d - s) <= d2) by (nonlinear_arith)
            requires s <= d, v <= d, d2 == d * d;
        let aq: int = d2 - f * s;
        let at: int = d2 - (d - f) * s;
        assert(v * aq <= d3) by (nonlinear_arith)
            requires v <= d, 0 <= aq <= d2, d3 == d2 * d, 0 <= v;
        assert(v * at <= d3) by (nonlinear_arith)
            requires v <= d, 0 <= at <= d2, d3 == d2 * d, 0 <= v;
        assert(0 <= v * aq && 0 <= v * at) by (nonlinear_arith)
            requires 0 <= aq, 0 <= at, 0 <= v;
        assert(0 < d2 && 0 < d3) by (nonlinear_arith)
            requires d2 == d * d, d3 == d2 * d, d > 0;
        lemma_scaled_fraction(v as int, d as int);
        lemma_scaled_fraction(v * (d - s) as int, d2 as int);
        lemma_scaled_fraction(v * (d2 - f * s) as int, d3 as int);
        lemma_scaled_fraction(v * (d2 - (d - f) * s) as int, d3 as int);
        assert(255 * (v * (d - s)) == 255 * v * (d - s)) by (nonlinear_arith);
        assert(255 * (v * (d2 - f * s)) == 255 * v * (d2 - f * s)) by (nonlinear_arith);
        assert(255 * (v * (d2 - (d - f) * s)) == 255 * v * (d2 - (d - f) * s)) by (nonlinear_arith);
    }
    let cv: u8 = ((255 * v) / d) as u8;
    let cp: u8 = ((255 * (v * (d - s))) / d2) as u8;
    let cq: u8 = ((255 * (v * (d2 - f * s))) / d3) as u8;
    let ct: u8 = ((255 * (v * (d2 - (d - f) * s))) / d3) as u8;
    let c: [u8; 3] = if k == 0 {
        [cv, ct, cp]
    } else if k == 1 {
        [cq, cv, cp]
    } else if k == 2 {
        [cp, cv, ct]
    } else if k == 3 {
        [cp, cq, cv]
    } else if k == 4 {
        [ct, cp, cv]
    } else {
        [cv, cp, cq]
    };
    Ok(c)
}

/// With full saturation and value, every hue in `[0, 1)` lands in one of the
/// six sectors, and its colour has one channel at 255, one at 0, and the
/// third given by the rising (`t`) or falling (`q`) ramp inside the sector.
pub proof fn lemma_full_saturation_sector_shape(h_num: int, den: int)
    requires
        0 <= h_num < den,
    ensures
        0 <= hue_sector(h_num, den) <= 5,
        ({
            let f = hue_frac(h_num, den);
            let q = chan_q(f, den, den, den);
            let t = chan_t(f, den, den, den);
            &&& 0 <= q <= 255
            &&& 0 <= t <= 255
            &&& hsv_rgb(h_num, den, den, den) == sector_rgb(hue_sector(h_num, den), 255, 0, q, t)
        }),
{
    let k = hue_sector(h_num, den);
    let f = hue_frac(h_num, den);
    vstd::arithmetic::div_mod::lemma_fundamental_div_mod(6 * h_num, den);
    vstd::arithmetic::div_mod::lemma_div_pos_is_pos(6 * h_num, den);
    assert(k < 6) by (nonlinear_arith)
        requires 6 * h_num == den * k + (6 * h_num) % den, (6 * h_num) % den >= 0,
            h_num < den, den > 0;
    assert(f == (6 * h_num) % den) by (nonlinear_arith)
        requires 6 * h_num == den * k + (6 * h_num) % den, f == 6 * h_num - k * den;
    vstd::arithmetic::div_mod::lemma_div_by_multiple(255, den);
    assert(255 * den * (den - den) == 0);
    assert(0int / (den * den) == 0) by (nonlinear_arith)
        requires den > 0;
    let d3 = den * den * den;
    assert(0 < d3) by (nonlinear_arith)
        requires d3 == den * den * den, den > 0;
    assert(0 <= 255 * den * (den * den - f * den) <= 255 * d3) by (nonlinear_arith)
        requires 0 <= f < den, d3 == den * den * den;
    assert(0 <= 255 * den * (den * den - (den - f) * den) <= 255 * d3) by (nonlinear_arith)
        requires 0 <= f < den, d3 == den * den * den;
    vstd::arithmetic::div_mod::lemma_div_by_multiple(255, d3);
    vstd::arithmetic::div_mod::lemma_div_is_ordered(255 * den * (den * den - f * den), 255 * d3, d3);
    vstd::arithmetic::div_mod::lemma_div_is_ordered(255 * den * (den * den - (den - f) * den), 255 * d3, d3);
    vstd::arithmetic::div_mod::lemma_div_pos_is_pos(255 * den * (den * den - f * den), d3);
    vstd::arithmetic::div_mod::lemma_div_pos_is_pos(255 * den * (den * den - (den - f) * den), d3);
}

/// Colour of palette entry `i` out of `n`: hue `i / n` at full saturation and
/// value.
pub open spec fn palette_rgb(i: int, n: int) -> (int, int, int) {
    hsv_rgb(i, n, n, n)
}

/// Builds the RGBA lookup table of `n` colours: entry `i` is the colour of
/// hue `i / n` at full saturation and value, with alpha 255.
pub fn build_palette(n: u32) -> (r: Vec<u8>)
    requires
        0 < n <= MAX_DEN,
    ensures
        r@.len() == 4 * n,
        forall|i: int|
            0 <= i < n ==> (#[trigger] r@[4 * i] as int, r@[4 * i + 1] as int, r@[4 * i + 2] as int)
                == palette_rgb(i, n as int) && r@[4 * i + 3] == 255,
{
    let mut r: Vec<u8> = Vec::new();
    let mut i: u32 = 0;
    while i < n
        invariant
            i <= n <= MAX_DEN,
            r@.len() == 4 * i,
            forall|j: int|
                0 <= j < i ==> (#[trigger] r@[4 * j] as int, r@[4 * j + 1] as int, r@[4 * j + 2] as int)
                    == palette_rgb(j, n as int) && r@[4 * j + 3] == 255,
        decreases n - i,
    {
        match hsv_to_rgb(i, n, n, n) {
            Ok(c) => {
                r.push(c[0]);
                r.push(c[1]);
                r.push(c[2]);
                r.push(255);
            },
            Err(_) => {
                assert(false);
            },
        }
        proof {
            assert forall|j: int| 0 <= j < i + 1 implies (#[trigger] r@[4 * j] as int, r@[4 * j + 1] as int, r@[4 * j + 2] as int)
                == palette_rgb(j, n as int) && r@[4 * j + 3] == 255 by {
                if j < i {
                    assert(4 * j + 3 < 4 * i);
                }
            }
        }
        i = i + 1;
    }
    r
}

/// Colour given to a point by the palette policy: opaque black for an
/// interior point (`b == max_iter`), otherwise palette entry `b mod n`.
pub open spec fn palette_color(b: int, max_iter: int, pal: Seq<u8>) -> Seq<u8> {
    if b == max_iter {
        seq![0u8, 0u8, 0u8, 255u8]
    } else {
        let k = b % (pal.len() as int / 4);
        pal.subrange(4 * k, 4 * k + 4)
    }
}

/// Colours an escape index with a palette of RGBA entries: black for an
/// interior point, otherwise the entry `b mod n`, so colours repeat every `n`
/// escape values.
pub fn escape_color(b: u32, max_iter: u32, palette: &Vec<u8>) -> (r: [u8; 4])
    requires
        palette@.len() % 4 == 0,
        0 < palette@.len(),
    ensures
        r@ == palette_color(b as int, max_iter as int, palette@),
{
    if b == max_iter {
        let c: [u8; 4] = [0, 0, 0, 255];
        assert(c@ =~= seq![0u8, 0u8, 0u8, 255u8]);
        c
    } else {
        let n: usize = palette.len() / 4;
        let k: usize = (b as usize) % n;
        assert(4 * k + 3 < palette@.len()) by (nonlinear_arith)
            requires k < n, n == palette@.len() / 4, palette@.len() % 4 == 0,
                palette@.len() == 4 * (palette@.len() / 4) + palette@.len() % 4;
        let c: [u8; 4] = [palette[4 * k], palette[4 * k + 1], palette[4 * k + 2], palette[4 * k + 3]];
        assert(c@ =~= palette@.subrange(4 * k as int, 4 * k as int + 4));
        c
    }
}

} // verus!
