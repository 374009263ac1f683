use vstd::prelude::*;
use crate::raster::{
    grid, grid_c, grid_x, grid_y, lemma_dims_pos, lemma_flat_decompose, lemma_flat_index,
    lemma_mul_dims_le, Raster, RasterModel,
};

verus! {

/// The model of a raster cropped to the rectangle `[x0, x1) x [y0, y1)`.
/// Out-of-bounds coordinates are clamped to the current raster bounds before
/// extraction, so the crop is total; a rectangle that clamps to nothing
/// yields a raster of zero width or height.
pub open spec fn crop_model(m: RasterModel, x0: int, y0: int, x1: int, y1: int) -> RasterModel {
    let cx1 = if x1 <= m.width { x1 } else { m.width };
    let cy1 = if y1 <= m.height { y1 } else { m.height };
    let cx0 = if x0 <= cx1 { x0 } else { cx1 };
    let cy0 = if y0 <= cy1 { y0 } else { cy1 };
    RasterModel {
        width: cx1 - cx0,
        height: cy1 - cy0,
        pixels: grid(cx1 - cx0, cy1 - cy0, |x: int, y: int, c: int| m.pix(cx0 + x, cy0 + y, c)),
    }
}

/// Replaces the raster with the sub-rectangle `[x0, x1) x [y0, y1)`, clamped
/// to the current bounds.
#[verifier::loop_isolation(false)]
pub fn crop(r: &mut Raster, x0: u32, y0: u32, x1: u32, y1: u32)
    requires
        old(r).wf(),
    ensures
        final(r).wf(),
        final(r)@ == crop_model(old(r)@, x0 as int, y0 as int, x1 as int, y1 as int),
{
    let ghost m = old(r)@;
    let cx1: u32 = if x1 <= r.width { x1 } else { r.width };
    let cy1: u32 = if y1 <= r.height { y1 } else { r.height };
    let cx0: u32 = if x0 <= cx1 { x0 } else { cx1 };
    let cy0: u32 = if y0 <= cy1 { y0 } else { cy1 };
    let nw: u32 = cx1 - cx0;
    let nh: u32 = cy1 - cy0;
    let cap: usize = r.pixels.len();
    proof {
        lemma_mul_dims_le(nw as int, nh as int, m.width, m.height);
        assert(nw * nh * 4 <= cap);
    }
    let total: usize = (nw as usize) * (nh as usize) * 4;
    let mut out: Vec<u8> = Vec::new();
    let mut i: usize = 0;
    while i < total
        invariant
            i <= total,
            out@.len() == i,
            r == old(r),
            total == nw * nh * 4,
            forall|j: int| 0 <= j < i ==> out@[j]
                == m.pix(cx0 + grid_x(j, nw as int), cy0 + grid_y(j, nw as int), grid_c(j)),
        decreases total - i,
    {
        proof {
            lemma_dims_pos(nw as int, nh as int, i as int);
            lemma_flat_decompose(nw as int, nh as int, i as int);
        }
        let w: usize = r.width as usize;
        let nwu: usize = nw as usize;
        let x: usize = (i / 4) % nwu;
        let y: usize = i / (4 * nwu);
        let c: usize = i % 4;
        let sx: usize = cx0 as usize + x;
        let sy: usize = cy0 as usize + y;
        proof {
            lemma_flat_index(m.width, m.height, cx0 + x, cy0 + y, c as int);
        }
        let src: usize = (sy * w + sx) * 4 + c;
        out.push(r.pixels[src]);
        i = i + 1;
    }
    r.width = nw;
    r.height = nh;
    r.pixels = out;
    proof {
        let target = crop_model(m, x0 as int, y0 as int, x1 as int, y1 as int);
        assert(r@.pixels =~= target.pixels);
        assert(r@ == target);
    }
}

} // verus!
