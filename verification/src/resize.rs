use vstd::prelude::*;
use vstd::arithmetic::div_mod::{
    lemma_div_is_ordered, lemma_div_multiples_vanish, lemma_div_pos_is_pos,
    lemma_multiply_divide_lt,
};
use crate::ops::SamplingFilter;
use crate::raster::{
    grid, grid_c, grid_x, grid_y, lemma_dims_pos, lemma_flat_decompose, lemma_flat_index, Raster,
    RasterModel,
};

verus! {

/// The position in the source that target coordinate `x` maps to, in units
/// of 1/256 of a source pixel: the endpoints of the target range map onto
/// the endpoints of the source range. A single-pixel target sits on the
/// source origin.
pub open spec fn lerp_pos(x: int, src: int, dst: int) -> int {
    if dst <= 1 {
        0
    } else {
        x * (src - 1) * 256 / (dst - 1)
    }
}

/// The nearest-kernel sample: the source pixel under the scaled coordinate.
pub open spec fn nearest_sample(m: RasterModel, w2: int, h2: int, x: int, y: int, c: int) -> u8 {
    m.pix(x * m.width / w2, y * m.height / h2, c)
}

/// The interpolating-kernel sample: the four source pixels around the mapped
/// position, weighted bilinearly in 1/256 units.
pub open spec fn bilinear_sample(m: RasterModel, w2: int, h2: int, x: int, y: int, c: int) -> int {
    let px = lerp_pos(x, m.width, w2);
    let py = lerp_pos(y, m.height, h2);
    let x0 = px / 256;
    let fx = px % 256;
    let y0 = py / 256;
    let fy = py % 256;
    let x1 = if x0 + 1 < m.width { x0 + 1 } else { x0 };
    let y1 = if y0 + 1 < m.height { y0 + 1 } else { y0 };
    (m.pix(x0, y0, c) * (256 - fx) * (256 - fy) + m.pix(x1, y0, c) * fx * (256 - fy) + m.pix(
        x0,
        y1,
        c,
    ) * (256 - fx) * fy + m.pix(x1, y1, c) * fx * fy) / 65536
}

/// One sample of a resampled raster: the nearest kernel picks the nearest
/// source pixel, every other kernel interpolates bilinearly.
pub open spec fn normal_sample(
    m: RasterModel,
    w2: int,
    h2: int,
    kernel: SamplingFilter,
    x: int,
    y: int,
    c: int,
) -> u8 {
    if kernel is Nearest {
        nearest_sample(m, w2, h2, x, y, c)
    } else {
        bilinear_sample(m, w2, h2, x, y, c) as u8
    }
}

/// The model of a raster resampled to `w2 x h2` with the chosen kernel. A
/// degenerate source (zero width or height) has no pixels to sample, so the
/// target is fully transparent.
pub open spec fn resize_model(
    m: RasterModel,
    w2: int,
    h2: int,
    kernel: SamplingFilter,
) -> RasterModel {
    if m.width == 0 || m.height == 0 {
        RasterModel { width: w2, height: h2, pixels: grid(w2, h2, |x: int, y: int, c: int| 0u8) }
    } else {
        RasterModel {
            width: w2,
            height: h2,
            pixels: grid(w2, h2, |x: int, y: int, c: int| normal_sample(m, w2, h2, kernel, x, y, c)),
        }
    }
}

/// The mapped position stays within the source range.
pub proof fn lemma_lerp_pos_bounds(x: int, src: int, dst: int)
    requires
        0 <= x < dst,
        1 <= src,
    ensures
        0 <= lerp_pos(x, src, dst) <= (src - 1) * 256,
        0 <= lerp_pos(x, src, dst) / 256 <= src - 1,
{
    let p = lerp_pos(x, src, dst);
    if dst > 1 {
        lemma_div_pos_is_pos(x * (src - 1) * 256, dst - 1);
        assert(x * (src - 1) * 256 <= (dst - 1) * ((src - 1) * 256)) by (nonlinear_arith)
            requires 0 <= x <= dst - 1 && 1 <= src;
        lemma_div_is_ordered(x * (src - 1) * 256, (dst - 1) * ((src - 1) * 256), dst - 1);
        lemma_div_multiples_vanish((src - 1) * 256, dst - 1);
    }
    lemma_div_pos_is_pos(p, 256);
    lemma_div_is_ordered(p, (src - 1) * 256, 256);
    assert((src - 1) * 256 == 256 * (src - 1)) by (nonlinear_arith);
    lemma_div_multiples_vanish(src - 1, 256);
}

/// The bilinear blend never leaves the valid sample range: the four weights
/// sum to 65536.
pub proof fn lemma_bilinear_range(v00: int, v10: int, v01: int, v11: int, fx: int, fy: int)
    requires
        0 <= v00 <= 255,
        0 <= v10 <= 255,
        0 <= v01 <= 255,
        0 <= v11 <= 255,
        0 <= fx < 256,
        0 <= fy < 256,
    ensures
        0 <= (v00 * (256 - fx) * (256 - fy) + v10 * fx * (256 - fy) + v01 * (256 - fx) * fy + v11
            * fx * fy) / 65536 <= 255,
{
    let n = v00 * (256 - fx) * (256 - fy) + v10 * fx * (256 - fy) + v01 * (256 - fx) * fy + v11
        * fx * fy;
    assert(0 <= n <= 255 * 65536) by (nonlinear_arith)
        requires
            n == v00 * (256 - fx) * (256 - fy) + v10 * fx * (256 - fy) + v01 * (256 - fx) * fy
                + v11 * fx * fy,
            0 <= v00 <= 255 && 0 <= v10 <= 255 && 0 <= v01 <= 255 && 0 <= v11 <= 255,
            0 <= fx < 256 && 0 <= fy < 256,
    ;
    lemma_div_pos_is_pos(n, 65536);
    lemma_div_is_ordered(n, 255int * 65536, 65536);
    assert(255int * 65536 == 65536int * 255) by (nonlinear_arith);
    lemma_div_multiples_vanish(255, 65536);
}

/// The mapped position, executable.
fn lerp_pos_exec(x: usize, src: u32, dst: u32) -> (p: u64)
    requires
        1 <= src,
        x < dst,
    ensures
        p as int == lerp_pos(x as int, src as int, dst as int),
{
    if dst <= 1 {
        0
    } else {
        proof {
            assert((x as int) * ((src - 1) as int) * 256 < 0x100000000000000000000) by (nonlinear_arith)
                requires x < 0x100000000 && src <= 0x100000000;
            lemma_lerp_pos_bounds(x as int, src as int, dst as int);
        }
        let num: u128 = (x as u128) * ((src - 1) as u128) * 256;
        (num / ((dst - 1) as u128)) as u64
    }
}

/// One resampled sample, executable.
fn normal_sample_exec(
    r: &Raster,
    w2: u32,
    h2: u32,
    kernel: SamplingFilter,
    x: usize,
    y: usize,
    c: usize,
) -> (out: u8)
    requires
        r.wf(),
        1 <= r@.width,
        1 <= r@.height,
        1 <= w2,
        1 <= h2,
        x < w2,
        y < h2,
        c < 4,
    ensures
        out == normal_sample(r@, w2 as int, h2 as int, kernel, x as int, y as int, c as int),
{
    let m_w: usize = r.width as usize;
    let len: usize = r.pixels.len();
    match kernel {
        SamplingFilter::Nearest => {
            proof {
                assert(x * r@.width < w2 * r@.width) by (nonlinear_arith)
                    requires x < w2 && 0 < r@.width;
                lemma_multiply_divide_lt(x as int * r@.width, w2 as int, r@.width);
                assert(y * r@.height < h2 * r@.height) by (nonlinear_arith)
                    requires y < h2 && 0 < r@.height;
                lemma_multiply_divide_lt(y as int * r@.height, h2 as int, r@.height);
                assert(x * r@.width < 0x10000000000000000) by (nonlinear_arith)
                    requires x < 0x100000000 && r@.width < 0x100000000;
                assert(y * r@.height < 0x10000000000000000) by (nonlinear_arith)
                    requires y < 0x100000000 && r@.height < 0x100000000;
            }
            let sx: usize = ((x as u64) * (r.width as u64) / (w2 as u64)) as usize;
            let sy: usize = ((y as u64) * (r.height as u64) / (h2 as u64)) as usize;
            proof {
                lemma_flat_index(r@.width, r@.height, sx as int, sy as int, c as int);
                assert((sy * r@.width + sx) * 4 + c < len);
            }
            r.pixels[(sy * m_w + sx) * 4 + c]
        },
        _ => {
            proof {
                lemma_lerp_pos_bounds(x as int, r@.width, w2 as int);
                lemma_lerp_pos_bounds(y as int, r@.height, h2 as int);
            }
            let px: u64 = lerp_pos_exec(x, r.width, w2);
            let py: u64 = lerp_pos_exec(y, r.height, h2);
            let x0: usize = (px / 256) as usize;
            let fx: u64 = px % 256;
            let y0: usize = (py / 256) as usize;
            let fy: u64 = py % 256;
            let x1: usize = if x0 + 1 < m_w { x0 + 1 } else { x0 };
            let y1: usize = if y0 + 1 < (r.height as usize) { y0 + 1 } else { y0 };
            proof {
                lemma_flat_index(r@.width, r@.height, x0 as int, y0 as int, c as int);
                lemma_flat_index(r@.width, r@.height, x1 as int, y0 as int, c as int);
                lemma_flat_index(r@.width, r@.height, x0 as int, y1 as int, c as int);
                lemma_flat_index(r@.width, r@.height, x1 as int, y1 as int, c as int);
                assert((y1 * r@.width + x1) * 4 + c < len);
                assert((y0 * r@.width + x1) * 4 + c < len);
                assert((y1 * r@.width + x0) * 4 + c < len);
                assert((y0 * r@.width + x0) * 4 + c < len);
            }
            let v00: u64 = r.pixels[(y0 * m_w + x0) * 4 + c] as u64;
            let v10: u64 = r.pixels[(y0 * m_w + x1) * 4 + c] as u64;
            let v01: u64 = r.pixels[(y1 * m_w + x0) * 4 + c] as u64;
            let v11: u64 = r.pixels[(y1 * m_w + x1) * 4 + c] as u64;
            proof {
                lemma_bilinear_range(
                    v00 as int,
                    v10 as int,
                    v01 as int,
                    v11 as int,
                    fx as int,
                    fy as int,
                );
                assert(v00 as int * (256 - fx as int) <= 65280
                    && v00 as int * (256 - fx as int) * (256 - fy as int) <= 16711680
                    && v10 as int * (fx as int) <= 65280
                    && v10 as int * (fx as int) * (256 - fy as int) <= 16711680
                    && v01 as int * (256 - fx as int) <= 65280
                    && v01 as int * (256 - fx as int) * (fy as int) <= 16711680
                    && v11 as int * (fx as int) <= 65280
                    && v11 as int * (fx as int) * (fy as int) <= 16711680
                    && 0 <= v00 as int * (256 - fx as int) * (256 - fy as int)
                    && 0 <= v10 as int * (fx as int) * (256 - fy as int)
                    && 0 <= v01 as int * (256 - fx as int) * (fy as int)
                    && 0 <= v11 as int * (fx as int) * (fy as int)) by (nonlinear_arith)
                    requires
                        v00 as int <= 255 && v10 as int <= 255 && v01 as int <= 255 && v11 as int
                            <= 255,
                        fx as int <= 255,
                        fy as int <= 255,
                ;
            }
            let n: u64 = v00 * (256 - fx) * (256 - fy) + v10 * fx * (256 - fy) + v01 * (256 - fx)
                * fy + v11 * fx * fy;
            (n / 65536) as u8
        },
    }
}

/// Resamples the raster to the positive target dimensions with the chosen
/// kernel. The kernel selects interpolation quality only, never control
/// flow: the nearest kernel picks the nearest source pixel, every other
/// kernel interpolates bilinearly between the four surrounding ones.
#[verifier::loop_isolation(false)]
pub fn resize_normal(r: &mut Raster, width: u32, height: u32, kernel: SamplingFilter)
    requires
        old(r).wf(),
        1 <= width,
        1 <= height,
        width * height * 4 <= usize::MAX,
    ensures
        final(r).wf(),
        final(r)@ == resize_model(old(r)@, width as int, height as int, kernel),
        final(r)@.width == width,
        final(r)@.height == height,
{
    let ghost m = old(r)@;
    let total: usize = (width as usize) * (height as usize) * 4;
    let mut out: Vec<u8> = Vec::new();
    let mut i: usize = 0;
    if r.width == 0 || r.height == 0 {
        while i < total
            invariant
                i <= total,
                out@.len() == i,
                forall|j: int| 0 <= j < i ==> out@[j] == 0u8,
            decreases total - i,
        {
            out.push(0);
            i = i + 1;
        }
    } else {
        while i < total
            invariant
                i <= total,
                out@.len() == i,
                r == old(r),
                1 <= m.width && 1 <= m.height,
                total == width * height * 4,
                forall|j: int| 0 <= j < i ==> out@[j] == normal_sample(
                    m,
                    width as int,
                    height as int,
                    kernel,
                    grid_x(j, width as int),
                    grid_y(j, width as int),
                    grid_c(j)),
            decreases total - i,
        {
            proof {
                lemma_dims_pos(width as int, height as int, i as int);
                lemma_flat_decompose(width as int, height as int, i as int);
            }
            let wt: usize = width as usize;
            let x: usize = (i / 4) % wt;
            let y: usize = i / (4 * wt);
            let c: usize = i % 4;
            out.push(normal_sample_exec(r, width, height, kernel, x, y, c));
            i = i + 1;
        }
    }
    r.width = width;
    r.height = height;
    r.pixels = out;
    proof {
        let target = resize_model(m, width as int, height as int, kernel);
        assert(r@.pixels =~= target.pixels);
        assert(r@ == target);
    }
}

} // verus!
