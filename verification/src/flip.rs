use vstd::prelude::*;
use crate::raster::{
    grid, grid_c, grid_x, grid_y, lemma_dims_pos, lemma_flat_decompose, lemma_flat_index, Raster,
    RasterModel,
};

verus! {

/// The model of a raster mirrored about its vertical midline: row `y` keeps
/// its place and column `x` moves to column `width - 1 - x`.
pub open spec fn flip_h_model(m: RasterModel) -> RasterModel {
    RasterModel {
        width: m.width,
        height: m.height,
        pixels: grid(m.width, m.height, |x: int, y: int, c: int| m.pix(m.width - 1 - x, y, c)),
    }
}

/// The model of a raster mirrored about its horizontal midline: column `x`
/// keeps its place and row `y` moves to row `height - 1 - y`.
pub open spec fn flip_v_model(m: RasterModel) -> RasterModel {
    RasterModel {
        width: m.width,
        height: m.height,
        pixels: grid(m.width, m.height, |x: int, y: int, c: int| m.pix(x, m.height - 1 - y, c)),
    }
}

/// Mirrors the pixel columns of each row; dimensions unchanged.
#[verifier::loop_isolation(false)]
pub fn flip_horizontal(r: &mut Raster)
    requires
        old(r).wf(),
    ensures
        final(r).wf(),
        final(r)@ == flip_h_model(old(r)@),
{
    let ghost m = old(r)@;
    let total: usize = r.pixels.len();
    let mut out: Vec<u8> = Vec::new();
    let mut i: usize = 0;
    while i < total
        invariant
            i <= total,
            out@.len() == i,
            r == old(r),
            forall|j: int| 0 <= j < i ==> out@[j]
                == m.pix(m.width - 1 - grid_x(j, m.width), grid_y(j, m.width), grid_c(j)),
        decreases total - i,
    {
        proof {
            lemma_dims_pos(m.width, m.height, i as int);
            lemma_flat_decompose(m.width, m.height, i as int);
        }
        let w: usize = r.width as usize;
        let x: usize = (i / 4) % w;
        let y: usize = i / (4 * w);
        let c: usize = i % 4;
        let sx: usize = w - 1 - x;
        proof {
            lemma_flat_index(m.width, m.height, m.width - 1 - x, y as int, c as int);
        }
        let src: usize = (y * w + sx) * 4 + c;
        out.push(r.pixels[src]);
        i = i + 1;
    }
    r.pixels = out;
    proof {
        let target = flip_h_model(m);
        assert(r@.pixels =~= target.pixels);
        assert(r@ == target);
    }
}

/// Mirrors the pixel rows of each column; dimensions unchanged.
#[verifier::loop_isolation(false)]
pub fn flip_vertical(r: &mut Raster)
    requires
        old(r).wf(),
    ensures
        final(r).wf(),
        final(r)@ == flip_v_model(old(r)@),
{
    let ghost m = old(r)@;
    let total: usize = r.pixels.len();
    let mut out: Vec<u8> = Vec::new();
    let mut i: usize = 0;
    while i < total
        invariant
            i <= total,
            out@.len() == i,
            r == old(r),
            forall|j: int| 0 <= j < i ==> out@[j]
                == m.pix(grid_x(j, m.width), m.height - 1 - grid_y(j, m.width), grid_c(j)),
        decreases total - i,
    {
        proof {
            lemma_dims_pos(m.width, m.height, i as int);
            lemma_flat_decompose(m.width, m.height, i as int);
        }
        let w: usize = r.width as usize;
        let h: usize = r.height as usize;
        let x: usize = (i / 4) % w;
        let y: usize = i / (4 * w);
        let c: usize = i % 4;
        let sy: usize = h - 1 - y;
        proof {
            lemma_flat_index(m.width, m.height, x as int, m.height - 1 - y, c as int);
        }
        let src: usize = (sy * w + x) * 4 + c;
        out.push(r.pixels[src]);
        i = i + 1;
    }
    r.pixels = out;
    proof {
        let target = flip_v_model(m);
        assert(r@.pixels =~= target.pixels);
        assert(r@ == target);
    }
}

/// Flip involution: mirroring about the vertical midline twice restores the
/// raster exactly.
pub proof fn lemma_flip_h_involution(m: RasterModel)
    requires
        m.wf(),
    ensures
        flip_h_model(flip_h_model(m)) == m,
{
    let m1 = flip_h_model(m);
    let m2 = flip_h_model(m1);
    assert forall|j: int| 0 <= j < m.pixels.len() implies m2.pixels[j] == m.pixels[j] by {
        lemma_dims_pos(m.width, m.height, j);
        lemma_flat_decompose(m.width, m.height, j);
        let x = grid_x(j, m.width);
        let y = grid_y(j, m.width);
        let c = grid_c(j);
        lemma_flat_index(m.width, m.height, m.width - 1 - x, y, c);
    }
    assert(m2.pixels =~= m.pixels);
    assert(m2 == m);
}

/// Flip involution: mirroring about the horizontal midline twice restores
/// the raster exactly.
pub proof fn lemma_flip_v_involution(m: RasterModel)
    requires
        m.wf(),
    ensures
        flip_v_model(flip_v_model(m)) == m,
{
    let m1 = flip_v_model(m);
    let m2 = flip_v_model(m1);
    assert forall|j: int| 0 <= j < m.pixels.len() implies m2.pixels[j] == m.pixels[j] by {
        lemma_dims_pos(m.width, m.height, j);
        lemma_flat_decompose(m.width, m.height, j);
        let x = grid_x(j, m.width);
        let y = grid_y(j, m.width);
        let c = grid_c(j);
        lemma_flat_index(m.width, m.height, x, m.height - 1 - y, c);
    }
    assert(m2.pixels =~= m.pixels);
    assert(m2 == m);
}

} // verus!
