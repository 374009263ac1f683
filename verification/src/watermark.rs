use vstd::prelude::*;
use vstd::arithmetic::div_mod::{lemma_div_is_ordered, lemma_div_pos_is_pos};
use crate::raster::{
    grid, grid_c, grid_x, grid_y, lemma_dims_pos, lemma_flat_decompose, lemma_flat_index, Raster,
    RasterModel,
};

verus! {

/// One sample of the built-in watermark asset: white diagonal stripes,
/// alternating between translucent and fully transparent every four pixels.
pub open spec fn watermark_pattern(x: int, y: int, c: int) -> u8 {
    if c == 3 {
        if (x + y) % 8 < 4 {
            160
        } else {
            0
        }
    } else {
        255
    }
}

/// The model of the shared watermark asset: a fixed 64 x 64 raster.
pub open spec fn watermark_asset_model() -> RasterModel {
    RasterModel {
        width: 64,
        height: 64,
        pixels: grid(64, 64, |x: int, y: int, c: int| watermark_pattern(x, y, c)),
    }
}

/// Builds the shared watermark asset. The asset is part of the build, never
/// read from the outside, so producing it cannot fail; it is immutable and
/// identical for every engine instance.
#[verifier::loop_isolation(false)]
pub fn watermark_asset() -> (out: Raster)
    ensures
        out.wf(),
        out@ == watermark_asset_model(),
{
    let total: usize = 64 * 64 * 4;
    let mut pixels: Vec<u8> = Vec::new();
    let mut i: usize = 0;
    while i < total
        invariant
            i <= total,
            pixels@.len() == i,
            forall|j: int| 0 <= j < i ==> pixels@[j]
                == watermark_pattern(grid_x(j, 64), grid_y(j, 64), grid_c(j)),
        decreases total - i,
    {
        proof {
            lemma_dims_pos(64, 64, i as int);
            lemma_flat_decompose(64, 64, i as int);
        }
        let x: usize = (i / 4) % 64;
        let y: usize = i / 256;
        let c: usize = i % 4;
        if c == 3 {
            if (x + y) % 8 < 4 {
                pixels.push(160);
            } else {
                pixels.push(0);
            }
        } else {
            pixels.push(255);
        }
        i = i + 1;
    }
    let out = Raster { width: 64, height: 64, pixels };
    proof {
        let target = watermark_asset_model();
        assert(out@.pixels =~= target.pixels);
        assert(out@ == target);
    }
    out
}

/// Alpha blend of one color sample: the watermark sample `wc` with alpha
/// `wa` over the destination sample `dc`.
pub open spec fn blend_color(wc: int, wa: int, dc: int) -> int {
    (wa * wc + (255 - wa) * dc) / 255
}

/// Alpha blend of the alpha samples themselves (the standard "over"
/// operator).
pub open spec fn blend_alpha(wa: int, da: int) -> int {
    wa + da * (255 - wa) / 255
}

/// Blending never leaves the valid sample range.
pub proof fn lemma_blend_range(wc: int, wa: int, dc: int, da: int)
    requires
        0 <= wc <= 255,
        0 <= wa <= 255,
        0 <= dc <= 255,
        0 <= da <= 255,
    ensures
        0 <= blend_color(wc, wa, dc) <= 255,
        0 <= blend_alpha(wa, da) <= 255,
{
    let n = wa * wc + (255 - wa) * dc;
    assert(0 <= n <= 65025) by (nonlinear_arith)
        requires
            n == wa * wc + (255 - wa) * dc,
            0 <= wc <= 255 && 0 <= wa <= 255 && 0 <= dc <= 255,
    ;
    lemma_div_pos_is_pos(n, 255);
    lemma_div_is_ordered(n, 255int * 255, 255);
    let an = da * (255 - wa);
    assert(0 <= an <= 255 * (255 - wa)) by (nonlinear_arith)
        requires
            an == da * (255 - wa),
            0 <= da <= 255 && 0 <= wa <= 255,
    ;
    lemma_div_pos_is_pos(an, 255);
    lemma_div_is_ordered(an, 255 * (255 - wa), 255);
    assert(255 * (255 - wa) / 255 == 255 - wa) by {
        vstd::arithmetic::div_mod::lemma_div_multiples_vanish(255 - wa, 255);
    }
}

/// One sample of a raster with the watermark `wm` composited at offset
/// `(ox, oy)`: inside the overlap the samples are alpha-blended, outside it
/// the destination is untouched. Watermark pixels whose destination falls
/// outside the canvas are dropped by construction, since the grid only
/// ranges over the canvas.
pub open spec fn watermark_sample(
    m: RasterModel,
    wm: RasterModel,
    ox: int,
    oy: int,
    x: int,
    y: int,
    c: int,
) -> u8 {
    if ox <= x < ox + wm.width && oy <= y < oy + wm.height {
        let wa = wm.pix(x - ox, y - oy, 3) as int;
        if c == 3 {
            blend_alpha(wa, m.pix(x, y, 3) as int) as u8
        } else {
            blend_color(wm.pix(x - ox, y - oy, c) as int, wa, m.pix(x, y, c) as int) as u8
        }
    } else {
        m.pix(x, y, c)
    }
}

/// The model of a raster with the watermark `wm` composited at offset
/// `(ox, oy)`; dimensions unchanged.
pub open spec fn watermark_onto_model(m: RasterModel, wm: RasterModel, ox: int, oy: int) -> RasterModel {
    RasterModel {
        width: m.width,
        height: m.height,
        pixels: grid(m.width, m.height, |x: int, y: int, c: int|
            watermark_sample(m, wm, ox, oy, x, y, c)),
    }
}

/// Blend of one color sample, executable.
fn blend_color_sample(wc: u8, wa: u8, dc: u8) -> (out: u8)
    ensures
        out as int == blend_color(wc as int, wa as int, dc as int),
{
    proof {
        lemma_blend_range(wc as int, wa as int, dc as int, 0);
    }
    let n: u32 = (wa as u32) * (wc as u32) + (255 - wa as u32) * (dc as u32);
    (n / 255) as u8
}

/// Blend of the alpha samples, executable.
fn blend_alpha_sample(wa: u8, da: u8) -> (out: u8)
    ensures
        out as int == blend_alpha(wa as int, da as int),
{
    proof {
        lemma_blend_range(0, wa as int, 0, da as int);
    }
    let n: u32 = (da as u32) * (255 - wa as u32);
    (wa as u32 + n / 255) as u8
}

/// Composites the watermark raster `wm` onto `r` with its top-left corner at
/// `(ox, oy)`, alpha-blending per pixel. Any watermark pixel whose
/// destination falls outside the canvas is silently dropped; an offset that
/// puts the watermark fully outside leaves the raster unchanged.
#[verifier::loop_isolation(false)]
pub fn watermark_onto(r: &mut Raster, wm: &Raster, ox: u32, oy: u32)
    requires
        old(r).wf(),
        wm.wf(),
    ensures
        final(r).wf(),
        final(r)@ == watermark_onto_model(old(r)@, wm@, ox as int, oy as int),
{
    let ghost m = old(r)@;
    let total: usize = r.pixels.len();
    let mut out: Vec<u8> = Vec::new();
    let mut i: usize = 0;
    while i < total
        invariant
            i <= total,
            out@.len() == i,
            r == old(r),
            forall|j: int| 0 <= j < i ==> out@[j] == watermark_sample(
                m, wm@, ox as int, oy as int,
                grid_x(j, m.width), grid_y(j, m.width), grid_c(j)),
        decreases total - i,
    {
        proof {
            lemma_dims_pos(m.width, m.height, i as int);
            lemma_flat_decompose(m.width, m.height, i as int);
        }
        let w: usize = r.width as usize;
        let x: usize = (i / 4) % w;
        let y: usize = i / (4 * w);
        let c: usize = i % 4;
        let oxu: usize = ox as usize;
        let oyu: usize = oy as usize;
        let inside: bool = x >= oxu && x - oxu < wm.width as usize && y >= oyu && y - oyu
            < wm.height as usize;
        if inside {
            let wx: usize = x - oxu;
            let wy: usize = y - oyu;
            proof {
                lemma_flat_index(wm@.width, wm@.height, wx as int, wy as int, 3);
                lemma_flat_index(wm@.width, wm@.height, wx as int, wy as int, c as int);
            }
            let wmw: usize = wm.width as usize;
            let wml: usize = wm.pixels.len();
            let wbase: usize = (wy * wmw + wx) * 4;
            proof {
                assert(wbase + 3 < wml);
            }
            let wa: u8 = wm.pixels[wbase + 3];
            if c == 3 {
                out.push(blend_alpha_sample(wa, r.pixels[i]));
            } else {
                let wc: u8 = wm.pixels[wbase + c];
                out.push(blend_color_sample(wc, wa, r.pixels[i]));
            }
            proof {
                assert(m.pixels[i as int] == m.pix(x as int, y as int, c as int));
            }
        } else {
            out.push(r.pixels[i]);
            proof {
                assert(m.pixels[i as int] == m.pix(x as int, y as int, c as int));
            }
        }
        i = i + 1;
    }
    r.pixels = out;
    proof {
        let target = watermark_onto_model(m, wm@, ox as int, oy as int);
        assert(r@.pixels =~= target.pixels);
        assert(r@ == target);
    }
}

/// Watermark boundary law: an offset that places the watermark entirely
/// outside the canvas leaves the raster byte-for-byte unchanged.
pub proof fn lemma_watermark_outside(m: RasterModel, wm: RasterModel, ox: int, oy: int)
    requires
        m.wf(),
        0 <= ox,
        0 <= oy,
        ox >= m.width || oy >= m.height,
    ensures
        watermark_onto_model(m, wm, ox, oy) == m,
{
    let t = watermark_onto_model(m, wm, ox, oy);
    assert forall|j: int| 0 <= j < m.pixels.len() implies t.pixels[j] == m.pixels[j] by {
        lemma_dims_pos(m.width, m.height, j);
        lemma_flat_decompose(m.width, m.height, j);
    }
    assert(t.pixels =~= m.pixels);
    assert(t == m);
}

} // verus!
