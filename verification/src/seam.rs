use vstd::prelude::*;
use crate::raster::{
    grid, grid_c, grid_x, grid_y, lemma_dims_pos, lemma_flat_decompose, lemma_flat_index,
    lemma_mul_dims_le, Raster, RasterModel,
};

verus! {

/// Absolute difference of two samples.
pub open spec fn sample_diff(a: u8, b: u8) -> int {
    if a >= b {
        a - b
    } else {
        b - a
    }
}

/// The energy of the pixel at `(x, y)` toward its right-hand neighbour: the
/// sum of the absolute R/G/B differences. The last column, having no
/// right-hand neighbour, compares against itself and contributes zero.
pub open spec fn col_pair_energy(m: RasterModel, x: int, y: int) -> int {
    let x2 = if x + 1 < m.width {
        x + 1
    } else {
        x
    };
    sample_diff(m.pix(x, y, 0), m.pix(x2, y, 0)) + sample_diff(m.pix(x, y, 1), m.pix(x2, y, 1))
        + sample_diff(m.pix(x, y, 2), m.pix(x2, y, 2))
}

/// The energy of column `x` summed over rows `0 .. n`.
pub open spec fn col_energy_to(m: RasterModel, x: int, n: int) -> int
    decreases n,
{
    if n <= 0 {
        0
    } else {
        col_energy_to(m, x, n - 1) + col_pair_energy(m, x, n - 1)
    }
}

/// The energy of a whole column: how much it differs from its right-hand
/// neighbour. A low-energy column is visually unimportant.
pub open spec fn col_energy(m: RasterModel, x: int) -> int {
    col_energy_to(m, x, m.height)
}

/// The index of the lowest-energy column among `0 .. n`; ties go to the
/// leftmost.
pub open spec fn min_col_to(m: RasterModel, n: int) -> int
    decreases n,
{
    if n <= 1 {
        0
    } else {
        let p = min_col_to(m, n - 1);
        if col_energy(m, n - 1) < col_energy(m, p) {
            n - 1
        } else {
            p
        }
    }
}

/// The lowest-energy column of the raster: the straight seam that carving
/// removes or duplicates next.
pub open spec fn min_energy_col(m: RasterModel) -> int {
    min_col_to(m, m.width)
}

/// The model of a raster with column `k` removed.
pub open spec fn remove_col_model(m: RasterModel, k: int) -> RasterModel {
    RasterModel {
        width: m.width - 1,
        height: m.height,
        pixels: grid(m.width - 1, m.height, |x: int, y: int, c: int|
            m.pix(if x < k { x } else { x + 1 }, y, c)),
    }
}

/// The model of a raster with column `k` duplicated.
pub open spec fn dup_col_model(m: RasterModel, k: int) -> RasterModel {
    RasterModel {
        width: m.width + 1,
        height: m.height,
        pixels: grid(m.width + 1, m.height, |x: int, y: int, c: int|
            m.pix(if x <= k { x } else { x - 1 }, y, c)),
    }
}

/// The model of the transposed raster: rows become columns.
pub open spec fn transpose_model(m: RasterModel) -> RasterModel {
    RasterModel {
        width: m.height,
        height: m.width,
        pixels: grid(m.height, m.width, |x: int, y: int, c: int| m.pix(y, x, c)),
    }
}

/// Column carving: remove or duplicate the lowest-energy column, one seam at
/// a time, until the width is exactly `w2`.
pub open spec fn carve_cols_model(m: RasterModel, w2: int) -> RasterModel
    decreases (if m.width >= w2 { m.width - w2 } else { w2 - m.width }),
{
    if m.width > w2 {
        carve_cols_model(remove_col_model(m, min_energy_col(m)), w2)
    } else if m.width < w2 {
        carve_cols_model(dup_col_model(m, min_energy_col(m)), w2)
    } else {
        m
    }
}

/// Content-aware resize: carve the columns to the target width, then carve
/// the rows - the columns of the transpose - to the target height. A
/// degenerate source has no seams at all, so the result is fully
/// transparent.
pub open spec fn seam_carve_model(m: RasterModel, w2: int, h2: int) -> RasterModel {
    if m.width == 0 || m.height == 0 {
        RasterModel { width: w2, height: h2, pixels: grid(w2, h2, |x: int, y: int, c: int| 0u8) }
    } else {
        transpose_model(carve_cols_model(transpose_model(carve_cols_model(m, w2)), h2))
    }
}

/// Carving columns to `w2` yields a well-formed raster of width exactly `w2`
/// and unchanged height.
pub proof fn lemma_carve_cols_props(m: RasterModel, w2: int)
    requires
        m.wf(),
        1 <= m.width,
        1 <= w2,
    ensures
        carve_cols_model(m, w2).wf(),
        carve_cols_model(m, w2).width == w2,
        carve_cols_model(m, w2).height == m.height,
    decreases (if m.width >= w2 { m.width - w2 } else { w2 - m.width }),
{
    if m.width > w2 {
        let m1 = remove_col_model(m, min_energy_col(m));
        assert(m1.pixels.len() == m1.width * m1.height * 4) by (nonlinear_arith)
            requires
                m1.pixels.len() == ((m.width - 1) * m.height * 4) as nat,
                m1.width == m.width - 1 && 1 <= m1.width,
                m1.height == m.height && 0 <= m.height,
        ;
        lemma_carve_cols_props(m1, w2);
    } else if m.width < w2 {
        let m1 = dup_col_model(m, min_energy_col(m));
        assert(m1.pixels.len() == m1.width * m1.height * 4) by (nonlinear_arith)
            requires
                m1.pixels.len() == ((m.width + 1) * m.height * 4) as nat,
                m1.width == m.width + 1 && 1 <= m1.width,
                m1.height == m.height && 0 <= m.height,
        ;
        lemma_carve_cols_props(m1, w2);
    }
}

/// The energy of one pixel toward its right-hand neighbour, executable.
fn col_pair_energy_exec(r: &Raster, x: usize, y: usize) -> (e: u32)
    requires
        r.wf(),
        x < r@.width,
        y < r@.height,
    ensures
        e as int == col_pair_energy(r@, x as int, y as int),
        e <= 765,
{
    let w: usize = r.width as usize;
    let x2: usize = if x + 1 < w { x + 1 } else { x };
    let len: usize = r.pixels.len();
    proof {
        lemma_flat_index(r@.width, r@.height, x as int, y as int, 0);
        lemma_flat_index(r@.width, r@.height, x2 as int, y as int, 0);
        assert((y * r@.width + x) * 4 + 2 < len);
        assert((y * r@.width + x2) * 4 + 2 < len);
    }
    let b1: usize = (y * w + x) * 4;
    let b2: usize = (y * w + x2) * 4;
    let mut e: u32 = 0;
    let a0: u8 = r.pixels[b1];
    let d0: u8 = r.pixels[b2];
    e = e + (if a0 >= d0 { (a0 - d0) as u32 } else { (d0 - a0) as u32 });
    let a1: u8 = r.pixels[b1 + 1];
    let d1: u8 = r.pixels[b2 + 1];
    e = e + (if a1 >= d1 { (a1 - d1) as u32 } else { (d1 - a1) as u32 });
    let a2: u8 = r.pixels[b1 + 2];
    let d2: u8 = r.pixels[b2 + 2];
    e = e + (if a2 >= d2 { (a2 - d2) as u32 } else { (d2 - a2) as u32 });
    e
}

/// The energy of a whole column, executable.
#[verifier::loop_isolation(false)]
fn col_energy_exec(r: &Raster, x: usize) -> (e: u64)
    requires
        r.wf(),
        x < r@.width,
    ensures
        e as int == col_energy(r@, x as int),
{
    let h: usize = r.height as usize;
    let mut acc: u64 = 0;
    let mut y: usize = 0;
    while y < h
        invariant
            y <= h,
            acc as int == col_energy_to(r@, x as int, y as int),
            acc <= 765 * (y as u64),
        decreases h - y,
    {
        let e: u32 = col_pair_energy_exec(r, x, y);
        acc = acc + (e as u64);
        y = y + 1;
    }
    acc
}

/// The lowest-energy column, executable; ties go to the leftmost.
#[verifier::loop_isolation(false)]
fn min_energy_col_exec(r: &Raster) -> (k: usize)
    requires
        r.wf(),
        1 <= r@.width,
    ensures
        k as int == min_energy_col(r@),
        k < r@.width,
{
    let w: usize = r.width as usize;
    let mut best: usize = 0;
    let mut beste: u64 = col_energy_exec(r, 0);
    let mut x: usize = 1;
    while x < w
        invariant
            1 <= x <= w,
            best < x,
            best as int == min_col_to(r@, x as int),
            beste as int == col_energy(r@, best as int),
        decreases w - x,
    {
        let e: u64 = col_energy_exec(r, x);
        if e < beste {
            best = x;
            beste = e;
        }
        x = x + 1;
    }
    best
}

/// Removes column `k`.
#[verifier::loop_isolation(false)]
fn remove_col(r: &mut Raster, k: usize)
    requires
        old(r).wf(),
        2 <= old(r)@.width,
        k < old(r)@.width,
    ensures
        final(r).wf(),
        final(r)@ == remove_col_model(old(r)@, k as int),
{
    let ghost m = old(r)@;
    let nw: u32 = r.width - 1;
    let cap: usize = r.pixels.len();
    proof {
        lemma_mul_dims_le(nw as int, m.height, m.width, m.height);
        assert(nw * m.height * 4 <= cap);
    }
    let total: usize = (nw as usize) * (r.height as usize) * 4;
    let mut out: Vec<u8> = Vec::new();
    let mut i: usize = 0;
    while i < total
        invariant
            i <= total,
            out@.len() == i,
            r == old(r),
            total == nw * m.height * 4,
            forall|j: int| 0 <= j < i ==> out@[j] == m.pix(
                (if grid_x(j, nw as int) < k { grid_x(j, nw as int) } else { grid_x(j, nw as int) + 1 }),
                grid_y(j, nw as int),
                grid_c(j)),
        decreases total - i,
    {
        proof {
            lemma_dims_pos(nw as int, m.height, i as int);
            lemma_flat_decompose(nw as int, m.height, i as int);
        }
        let nwu: usize = nw as usize;
        let x: usize = (i / 4) % nwu;
        let y: usize = i / (4 * nwu);
        let c: usize = i % 4;
        let sx: usize = if x < k { x } else { x + 1 };
        let len: usize = r.pixels.len();
        proof {
            lemma_flat_index(m.width, m.height, sx as int, y as int, c as int);
            assert((y * m.width + sx) * 4 + c < len);
        }
        let w: usize = r.width as usize;
        let src: usize = (y * w + sx) * 4 + c;
        out.push(r.pixels[src]);
        i = i + 1;
    }
    r.width = nw;
    r.pixels = out;
    proof {
        let target = remove_col_model(m, k as int);
        assert(r@.pixels =~= target.pixels);
        assert(r@ == target);
    }
}

/// Duplicates column `k`.
#[verifier::loop_isolation(false)]
fn dup_col(r: &mut Raster, k: usize)
    requires
        old(r).wf(),
        1 <= old(r)@.width,
        k < old(r)@.width,
        old(r)@.width < u32::MAX,
        (old(r)@.width + 1) * old(r)@.height * 4 <= usize::MAX,
    ensures
        final(r).wf(),
        final(r)@ == dup_col_model(old(r)@, k as int),
{
    let ghost m = old(r)@;
    let nw: u32 = r.width + 1;
    let total: usize = (nw as usize) * (r.height as usize) * 4;
    let mut out: Vec<u8> = Vec::new();
    let mut i: usize = 0;
    while i < total
        invariant
            i <= total,
            out@.len() == i,
            r == old(r),
            total == nw * m.height * 4,
            forall|j: int| 0 <= j < i ==> out@[j] == m.pix(
                (if grid_x(j, nw as int) <= k { grid_x(j, nw as int) } else { grid_x(j, nw as int) - 1 }),
                grid_y(j, nw as int),
                grid_c(j)),
        decreases total - i,
    {
        proof {
            lemma_dims_pos(nw as int, m.height, i as int);
            lemma_flat_decompose(nw as int, m.height, i as int);
        }
        let nwu: usize = nw as usize;
        let x: usize = (i / 4) % nwu;
        let y: usize = i / (4 * nwu);
        let c: usize = i % 4;
        let sx: usize = if x <= k { x } else { x - 1 };
        let len: usize = r.pixels.len();
        proof {
            lemma_flat_index(m.width, m.height, sx as int, y as int, c as int);
            assert((y * m.width + sx) * 4 + c < len);
        }
        let w: usize = r.width as usize;
        let src: usize = (y * w + sx) * 4 + c;
        out.push(r.pixels[src]);
        i = i + 1;
    }
    r.width = nw;
    r.pixels = out;
    proof {
        let target = dup_col_model(m, k as int);
        assert(r@.pixels =~= target.pixels);
        assert(r@ == target);
    }
}

/// Transposes the raster: rows become columns.
#[verifier::loop_isolation(false)]
fn transpose(r: &mut Raster)
    requires
        old(r).wf(),
    ensures
        final(r).wf(),
        final(r)@ == transpose_model(old(r)@),
{
    let ghost m = old(r)@;
    let total: usize = r.pixels.len();
    proof {
        assert(m.height * m.width * 4 == m.width * m.height * 4) by (nonlinear_arith);
    }
    let mut out: Vec<u8> = Vec::new();
    let mut i: usize = 0;
    while i < total
        invariant
            i <= total,
            out@.len() == i,
            r == old(r),
            forall|j: int| 0 <= j < i ==> out@[j] == m.pix(
                grid_y(j, m.height), grid_x(j, m.height), grid_c(j)),
        decreases total - i,
    {
        proof {
            lemma_dims_pos(m.height, m.width, i as int);
            lemma_flat_decompose(m.height, m.width, i as int);
        }
        let nwu: usize = r.height as usize;
        let x: usize = (i / 4) % nwu;
        let y: usize = i / (4 * nwu);
        let c: usize = i % 4;
        let len: usize = r.pixels.len();
        proof {
            lemma_flat_index(m.width, m.height, y as int, x as int, c as int);
            assert((x * m.width + y) * 4 + c < len);
        }
        let w: usize = r.width as usize;
        let src: usize = (x * w + y) * 4 + c;
        out.push(r.pixels[src]);
        i = i + 1;
    }
    let nw: u32 = r.height;
    let nh: u32 = r.width;
    r.width = nw;
    r.height = nh;
    r.pixels = out;
    proof {
        let target = transpose_model(m);
        assert(r@.pixels =~= target.pixels);
        assert(r@ == target);
    }
}

/// Carves the columns, one lowest-energy seam at a time, until the width is
/// exactly `w2`; the height never changes.
#[verifier::loop_isolation(false)]
fn carve_cols(r: &mut Raster, w2: u32)
    requires
        old(r).wf(),
        1 <= old(r)@.width,
        1 <= w2,
        (if old(r)@.width >= w2 { old(r)@.width } else { w2 as int }) * old(r)@.height * 4
            <= usize::MAX,
    ensures
        final(r).wf(),
        final(r)@ == carve_cols_model(old(r)@, w2 as int),
        final(r)@.width == w2,
        final(r)@.height == old(r)@.height,
{
    let ghost m = old(r)@;
    let ghost hi: int = if m.width >= w2 { m.width } else { w2 as int };
    while r.width != w2
        invariant
            r.wf(),
            1 <= r@.width <= hi,
            r@.height == m.height,
            carve_cols_model(r@, w2 as int) == carve_cols_model(m, w2 as int),
        decreases (if r@.width >= w2 { r@.width - w2 } else { w2 as int - r@.width }),
    {
        let k: usize = min_energy_col_exec(r);
        if r.width > w2 {
            remove_col(r, k);
        } else {
            proof {
                lemma_mul_dims_le(r@.width + 1, m.height, hi, m.height);
            }
            dup_col(r, k);
        }
    }
    proof {
        lemma_carve_cols_props(m, w2 as int);
    }
}

/// Content-aware resize to the positive target dimensions: repeatedly
/// removes (or duplicates) the lowest-energy straight seam, columns first,
/// then rows, until the target is reached. A genuinely different path from
/// fixed-kernel resampling: no interpolation takes place, whole low-energy
/// seams leave or enter the raster.
#[verifier::loop_isolation(false)]
pub fn seam_carve(r: &mut Raster, width: u32, height: u32)
    requires
        old(r).wf(),
        1 <= width,
        1 <= height,
        (if old(r)@.width >= width { old(r)@.width } else { width as int })
            * (if old(r)@.height >= height { old(r)@.height } else { height as int }) * 4
            <= usize::MAX,
    ensures
        final(r).wf(),
        final(r)@ == seam_carve_model(old(r)@, width as int, height as int),
        final(r)@.width == width,
        final(r)@.height == height,
{
    let ghost m = old(r)@;
    let ghost maxw: int = if m.width >= width { m.width } else { width as int };
    let ghost maxh: int = if m.height >= height { m.height } else { height as int };
    if r.width == 0 || r.height == 0 {
        proof {
            lemma_mul_dims_le(width as int, height as int, maxw, maxh);
        }
        let total: usize = (width as usize) * (height as usize) * 4;
        let mut pixels: Vec<u8> = Vec::new();
        let mut i: usize = 0;
        while i < total
            invariant
                i <= total,
                pixels@.len() == i,
                forall|j: int| 0 <= j < i ==> pixels@[j] == 0u8,
            decreases total - i,
        {
            pixels.push(0);
            i = i + 1;
        }
        r.width = width;
        r.height = height;
        r.pixels = pixels;
        proof {
            let target = seam_carve_model(m, width as int, height as int);
            assert(r@.pixels =~= target.pixels);
            assert(r@ == target);
        }
    } else {
        proof {
            lemma_mul_dims_le(maxw, m.height, maxw, maxh);
        }
        carve_cols(r, width);
        let ghost m1 = carve_cols_model(m, width as int);
        transpose(r);
        proof {
            assert(r@ == transpose_model(m1));
            let t: int = if r@.width >= height { r@.width } else { height as int };
            assert(t <= maxh);
            assert(t * (width as int) * 4 <= maxh * (width as int) * 4) by (nonlinear_arith)
                requires
                    t <= maxh && 0 <= width as int,
            ;
            assert(maxh * (width as int) * 4 <= maxw * maxh * 4) by (nonlinear_arith)
                requires
                    width as int <= maxw && 0 <= width as int && 0 <= maxh,
            ;
        }
        carve_cols(r, height);
        transpose(r);
        proof {
            let target = seam_carve_model(m, width as int, height as int);
            assert(r@ == target);
        }
    }
}

} // verus!
