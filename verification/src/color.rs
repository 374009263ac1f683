use vstd::prelude::*;
use vstd::arithmetic::div_mod::{lemma_div_is_ordered, lemma_div_pos_is_pos};
use crate::ops::FilterKind;
use crate::raster::{
    grid, grid_c, grid_x, grid_y, lemma_dims_pos, lemma_flat_decompose, Raster, RasterModel,
};

verus! {

/// The contrast amount actually applied: the raw amount saturated to the
/// meaningful range `[-255, 255]`.
pub open spec fn clamp_amount(a: int) -> int {
    if a < -255 {
        -255
    } else if a > 255 {
        255
    } else {
        a
    }
}

/// The contrast curve on one R/G/B sample: samples are pushed away from the
/// midpoint 128 by the factor `259 * (ca + 255) / (255 * (259 - ca))`, and
/// the result saturates at 0 and 255 instead of wrapping.
pub open spec fn contrast_channel(a: int, v: int) -> int {
    let ca = clamp_amount(a);
    let num = 259 * (ca + 255);
    let den = 255 * (259 - ca);
    if v >= 128 {
        let d = num * (v - 128) / den;
        if 128 + d > 255 {
            255
        } else {
            128 + d
        }
    } else {
        let d = num * (128 - v) / den;
        if 128 - d < 0 {
            0
        } else {
            128 - d
        }
    }
}

/// The contrast curve never leaves the valid sample range: it saturates.
pub proof fn lemma_contrast_channel_range(a: int, v: int)
    requires
        0 <= v < 256,
    ensures
        0 <= contrast_channel(a, v) <= 255,
        128 <= v ==> 128 <= contrast_channel(a, v),
        v < 128 ==> contrast_channel(a, v) <= 128,
{
    let ca = clamp_amount(a);
    let num = 259 * (ca + 255);
    let den = 255 * (259 - ca);
    if v >= 128 {
        lemma_div_pos_is_pos(num * (v - 128), den);
    } else {
        lemma_div_pos_is_pos(num * (128 - v), den);
    }
}

/// At the positive extreme the curve saturates sharply: every sample above
/// the midpoint is driven to 255 and every sample below it to 0.
pub proof fn lemma_contrast_extreme_positive(a: int, v: int)
    requires
        255 <= a,
        0 <= v < 256,
    ensures
        contrast_channel(a, v) == if v > 128 { 255int } else if v < 128 { 0int } else { 128int },
{
    let num: int = 259int * 510;
    let den: int = 255int * 4;
    if v > 128 {
        assert(num <= num * (v - 128)) by (nonlinear_arith)
            requires num == 132090 && v > 128;
        lemma_div_is_ordered(num, num * (v - 128), den);
        assert(num / den == 129);
    } else if v < 128 {
        assert(num <= num * (128 - v)) by (nonlinear_arith)
            requires num == 132090 && v < 128;
        lemma_div_is_ordered(num, num * (128 - v), den);
        assert(num / den == 129);
    } else {
        vstd::arithmetic::div_mod::lemma_div_of0(den);
    }
}

/// At the negative extreme the factor is zero: every R/G/B sample collapses
/// to the midpoint 128, and in particular nothing falls below 0.
pub proof fn lemma_contrast_extreme_negative(a: int, v: int)
    requires
        a <= -255,
        0 <= v < 256,
    ensures
        contrast_channel(a, v) == 128,
{
    let den = 255 * (259 - clamp_amount(a));
    vstd::arithmetic::div_mod::lemma_div_of0(den);
    assert(259 * (clamp_amount(a) + 255) == 0);
}

/// The model of a raster with the contrast curve applied to the R/G/B
/// samples of every pixel; alpha is untouched.
pub open spec fn contrast_model(m: RasterModel, a: int) -> RasterModel {
    RasterModel {
        width: m.width,
        height: m.height,
        pixels: grid(m.width, m.height, |x: int, y: int, c: int|
            if c == 3 {
                m.pix(x, y, c)
            } else {
                contrast_channel(a, m.pix(x, y, c) as int) as u8
            }),
    }
}

/// Applies the contrast curve to one sample.
fn contrast_sample(a: i32, v: u8) -> (out: u8)
    ensures
        out as int == contrast_channel(a as int, v as int),
{
    proof {
        lemma_contrast_channel_range(a as int, v as int);
    }
    let ca: i32 = if a < -255 { -255 } else if a > 255 { 255 } else { a };
    let num: u64 = 259 * ((ca + 255) as u64);
    let den: u64 = 255 * ((259 - ca) as u64);
    let diff: u64 = if v >= 128 { (v - 128) as u64 } else { (128 - v) as u64 };
    proof {
        assert(num as int * diff as int <= 132090int * 255) by (nonlinear_arith)
            requires
                num as int <= 132090,
                0 <= diff as int <= 255,
        ;
    }
    let d: u64 = num * diff / den;
    if v >= 128 {
        if 128 + d > 255 {
            255
        } else {
            (128 + d) as u8
        }
    } else {
        if d >= 128 {
            0
        } else {
            (128 - d) as u8
        }
    }
}

/// Per-pixel contrast adjustment, parameterized by the signed amount; the
/// R/G/B samples move along the contrast curve and alpha stays.
#[verifier::loop_isolation(false)]
pub fn contrast(r: &mut Raster, amount: i32)
    requires
        old(r).wf(),
    ensures
        final(r).wf(),
        final(r)@ == contrast_model(old(r)@, amount as int),
{
    let ghost m = old(r)@;
    let total: usize = r.pixels.len();
    let mut out: Vec<u8> = Vec::new();
    let mut i: usize = 0;
    while i < total
        invariant
            i <= total,
            out@.len() == i,
            r == old(r),
            forall|j: int| 0 <= j < i ==> out@[j] == (
                if grid_c(j) == 3 {
                    m.pixels[j]
                } else {
                    contrast_channel(amount as int, m.pixels[j] as int) as u8
                }),
        decreases total - i,
    {
        proof {
            lemma_dims_pos(m.width, m.height, i as int);
            lemma_flat_decompose(m.width, m.height, i as int);
        }
        let c: usize = i % 4;
        let v: u8 = r.pixels[i];
        if c == 3 {
            out.push(v);
        } else {
            out.push(contrast_sample(amount, v));
        }
        i = i + 1;
    }
    r.pixels = out;
    proof {
        let target = contrast_model(m, amount as int);
        assert forall|j: int| 0 <= j < total implies out@[j] == target.pixels[j] by {
            lemma_dims_pos(m.width, m.height, j);
            lemma_flat_decompose(m.width, m.height, j);
        }
        assert(r@.pixels =~= target.pixels);
        assert(r@ == target);
    }
}

/// The fixed per-channel boost of each preset filter (red, green, blue).
pub open spec fn filter_offset(kind: FilterKind, c: int) -> int {
    match kind {
        FilterKind::Oceanic => if c == 1 { 9 } else if c == 2 { 173 } else { 0 },
        FilterKind::Islands => if c == 1 { 24 } else if c == 2 { 95 } else { 0 },
        FilterKind::Marine => if c == 1 { 14 } else if c == 2 { 119 } else { 0 },
        FilterKind::Vintage => if c == 0 { 120 } else if c == 1 { 70 } else if c == 2 { 13 } else { 0 },
    }
}

/// Saturating add on one sample.
pub open spec fn sat_add(v: int, d: int) -> int {
    if v + d > 255 {
        255
    } else {
        v + d
    }
}

/// The model of a raster with a preset filter applied: each R/G/B sample is
/// boosted by the filter's fixed per-channel offset, saturating at 255;
/// alpha is untouched.
pub open spec fn filter_model(m: RasterModel, kind: FilterKind) -> RasterModel {
    RasterModel {
        width: m.width,
        height: m.height,
        pixels: grid(m.width, m.height, |x: int, y: int, c: int|
            if c == 3 {
                m.pix(x, y, c)
            } else {
                sat_add(m.pix(x, y, c) as int, filter_offset(kind, c)) as u8
            }),
    }
}

/// The per-channel boost of a preset filter, as a value.
fn filter_offset_of(kind: FilterKind, c: usize) -> (out: u32)
    requires
        c < 4,
    ensures
        out as int == filter_offset(kind, c as int),
{
    match kind {
        FilterKind::Oceanic => if c == 1 { 9 } else if c == 2 { 173 } else { 0 },
        FilterKind::Islands => if c == 1 { 24 } else if c == 2 { 95 } else { 0 },
        FilterKind::Marine => if c == 1 { 14 } else if c == 2 { 119 } else { 0 },
        FilterKind::Vintage => if c == 0 { 120 } else if c == 1 { 70 } else if c == 2 { 13 } else { 0 },
    }
}

/// Applies a named preset pixel transform: a fixed, deterministic boost of
/// the color channels, saturating at 255.
#[verifier::loop_isolation(false)]
pub fn filter(r: &mut Raster, kind: FilterKind)
    requires
        old(r).wf(),
    ensures
        final(r).wf(),
        final(r)@ == filter_model(old(r)@, kind),
{
    let ghost m = old(r)@;
    let total: usize = r.pixels.len();
    let mut out: Vec<u8> = Vec::new();
    let mut i: usize = 0;
    while i < total
        invariant
            i <= total,
            out@.len() == i,
            r == old(r),
            forall|j: int| 0 <= j < i ==> out@[j] == (
                if grid_c(j) == 3 {
                    m.pixels[j]
                } else {
                    sat_add(m.pixels[j] as int, filter_offset(kind, grid_c(j))) as u8
                }),
        decreases total - i,
    {
        proof {
            lemma_dims_pos(m.width, m.height, i as int);
            lemma_flat_decompose(m.width, m.height, i as int);
        }
        let c: usize = i % 4;
        let v: u8 = r.pixels[i];
        if c == 3 {
            out.push(v);
        } else {
            let s: u32 = v as u32 + filter_offset_of(kind, c);
            if s > 255 {
                out.push(255);
            } else {
                out.push(s as u8);
            }
        }
        i = i + 1;
    }
    r.pixels = out;
    proof {
        let target = filter_model(m, kind);
        assert forall|j: int| 0 <= j < total implies out@[j] == target.pixels[j] by {
            lemma_dims_pos(m.width, m.height, j);
            lemma_flat_decompose(m.width, m.height, j);
        }
        assert(r@.pixels =~= target.pixels);
        assert(r@ == target);
    }
}

} // verus!
