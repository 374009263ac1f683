use vstd::prelude::*;
use vstd::arithmetic::div_mod::lemma_fundamental_div_mod_converse;

verus! {

/// Mathematical model of a raster: its dimensions and the flat sequence of
/// RGBA8 samples in row-major order.
pub ghost struct RasterModel {
    pub width: int,
    pub height: int,
    pub pixels: Seq<u8>,
}

impl RasterModel {
    /// Well-formedness: the sample sequence holds exactly four bytes for each
    /// of the `width * height` pixels.
    pub open spec fn wf(self) -> bool {
        &&& 0 <= self.width
        &&& 0 <= self.height
        &&& self.pixels.len() == self.width * self.height * 4
    }

    /// Sample `c` (0 = red, 1 = green, 2 = blue, 3 = alpha) of the pixel at
    /// column `x`, row `y`.
    pub open spec fn pix(self, x: int, y: int, c: int) -> u8 {
        self.pixels[(y * self.width + x) * 4 + c]
    }
}

/// Column recovered from a flat sample index.
pub open spec fn grid_x(i: int, w: int) -> int {
    (i / 4) % w
}

/// Row recovered from a flat sample index.
pub open spec fn grid_y(i: int, w: int) -> int {
    i / (4 * w)
}

/// Channel recovered from a flat sample index.
pub open spec fn grid_c(i: int) -> int {
    i % 4
}

/// The sample sequence of a `w * h` raster whose sample at column `x`, row
/// `y`, channel `c` is `f(x, y, c)`.
pub open spec fn grid(w: int, h: int, f: spec_fn(int, int, int) -> u8) -> Seq<u8> {
    Seq::new((w * h * 4) as nat, |i: int| f(grid_x(i, w), grid_y(i, w), grid_c(i)))
}

/// For in-range coordinates, the flat index `(y * w + x) * 4 + c` lies within
/// the sample sequence of a `w * h` raster, and the coordinate-recovery
/// functions invert it.
pub proof fn lemma_flat_index(w: int, h: int, x: int, y: int, c: int)
    requires
        0 <= x < w,
        0 <= y < h,
        0 <= c < 4,
    ensures
        0 <= (y * w + x) * 4 + c < w * h * 4,
        grid_x((y * w + x) * 4 + c, w) == x,
        grid_y((y * w + x) * 4 + c, w) == y,
        grid_c((y * w + x) * 4 + c) == c,
{
    let i = (y * w + x) * 4 + c;
    assert(0 <= i < w * h * 4) by (nonlinear_arith)
        requires 0 <= x < w && 0 <= y < h && 0 <= c < 4 && i == (y * w + x) * 4 + c;
    lemma_fundamental_div_mod_converse(i, 4, y * w + x, c);
    assert(i / 4 == y * w + x);
    lemma_fundamental_div_mod_converse(y * w + x, w, y, x);
    assert(grid_x(i, w) == x);
    assert(i == y * (4 * w) + (4 * x + c)) by (nonlinear_arith)
        requires i == (y * w + x) * 4 + c;
    lemma_fundamental_div_mod_converse(i, 4 * w, y, 4 * x + c);
}

/// A raster with at least one sample has positive dimensions, and one of its
/// rows is no longer than the whole sample sequence.
pub proof fn lemma_dims_pos(w: int, h: int, i: int)
    requires
        0 <= w,
        0 <= h,
        0 <= i < w * h * 4,
    ensures
        1 <= w,
        1 <= h,
        w * 4 <= w * h * 4,
{
    assert(1 <= w && 1 <= h && w * 4 <= w * h * 4) by (nonlinear_arith)
        requires 0 <= w && 0 <= h && 0 <= i < w * h * 4;
}

/// Smaller dimensions never need more samples.
pub proof fn lemma_mul_dims_le(w1: int, h1: int, w2: int, h2: int)
    requires
        0 <= w1 <= w2,
        0 <= h1 <= h2,
    ensures
        w1 * h1 * 4 <= w2 * h2 * 4,
        0 <= w1 * h1 <= w1 * h1 * 4,
{
    assert(w1 * h1 * 4 <= w2 * h2 * 4 && 0 <= w1 * h1 <= w1 * h1 * 4) by (nonlinear_arith)
        requires 0 <= w1 <= w2 && 0 <= h1 <= h2;
}

/// In a flat sample index below `w * h * 4`, the recovered coordinates are in
/// range and recombine to the index itself.
pub proof fn lemma_flat_decompose(w: int, h: int, i: int)
    requires
        1 <= w,
        0 <= h,
        0 <= i < w * h * 4,
    ensures
        0 <= grid_x(i, w) < w,
        0 <= grid_y(i, w) < h,
        0 <= grid_c(i) < 4,
        (grid_y(i, w) * w + grid_x(i, w)) * 4 + grid_c(i) == i,
{
    let c = i % 4;
    let q = i / 4;
    let x = q % w;
    let y = q / w;
    assert(i == 4 * q + c && 0 <= c < 4) by {
        vstd::arithmetic::div_mod::lemma_fundamental_div_mod(i, 4);
    }
    assert(q == w * y + x && 0 <= x < w) by {
        vstd::arithmetic::div_mod::lemma_fundamental_div_mod(q, w);
    }
    assert(q < w * h) by (nonlinear_arith)
        requires i < w * h * 4 && i == 4 * q + c && 0 <= c;
    assert(y < h) by (nonlinear_arith)
        requires q < w * h && q == w * y + x && 0 <= x && 1 <= w;
    assert(0 <= y) by (nonlinear_arith)
        requires q == w * y + x && 0 <= q && x < w && 1 <= w;
    assert((y * w + x) * 4 + c == i) by (nonlinear_arith)
        requires i == 4 * q + c && q == w * y + x;
    assert(grid_y(i, w) == y) by {
        assert(i == y * (4 * w) + (4 * x + c)) by (nonlinear_arith)
            requires i == 4 * q + c && q == w * y + x;
        lemma_fundamental_div_mod_converse(i, 4 * w, y, 4 * x + c);
    }
}

/// Decoded pixel data: an RGBA8 sample grid in row-major order.
/// Invariant (`wf`): `pixels.len() == width * height * 4`.
pub struct Raster {
    pub width: u32,
    pub height: u32,
    pub pixels: Vec<u8>,
}

impl View for Raster {
    type V = RasterModel;

    open spec fn view(&self) -> RasterModel {
        RasterModel {
            width: self.width as int,
            height: self.height as int,
            pixels: self.pixels@,
        }
    }
}

/// The model of a uniformly filled raster.
pub open spec fn filled_model(w: int, h: int, r: u8, g: u8, b: u8, a: u8) -> RasterModel {
    RasterModel {
        width: w,
        height: h,
        pixels: grid(w, h, |x: int, y: int, c: int|
            if c == 0 { r } else if c == 1 { g } else if c == 2 { b } else { a }),
    }
}

impl Raster {
    /// Well-formedness of the executable raster, stated on its model.
    pub open spec fn wf(&self) -> bool {
        self@.wf()
    }

    /// Builds a raster of the given dimensions with every pixel set to the
    /// same RGBA sample values.
    #[verifier::loop_isolation(false)]
    pub fn filled(width: u32, height: u32, r: u8, g: u8, b: u8, a: u8) -> (out: Raster)
        requires
            width * height * 4 <= usize::MAX,
        ensures
            out.wf(),
            out@ == filled_model(width as int, height as int, r, g, b, a),
    {
        let ghost f = |x: int, y: int, c: int|
            if c == 0 { r } else if c == 1 { g } else if c == 2 { b } else { a };
        let total: usize = (width as usize) * (height as usize) * 4;
        let mut pixels: Vec<u8> = Vec::new();
        let mut i: usize = 0;
        while i < total
            invariant
                i <= total,
                total == width * height * 4,
                pixels@.len() == i,
                forall|j: int| 0 <= j < i ==> pixels@[j] == f(grid_x(j, width as int), grid_y(j, width as int), grid_c(j)),
            decreases total - i,
        {
            let c: usize = i % 4;
            if c == 0 {
                pixels.push(r);
            } else if c == 1 {
                pixels.push(g);
            } else if c == 2 {
                pixels.push(b);
            } else {
                pixels.push(a);
            }
            i = i + 1;
        }
        let out = Raster { width, height, pixels };
        proof {
            let target = filled_model(width as int, height as int, r, g, b, a);
            assert(out@.pixels =~= target.pixels);
            assert(out@ == target);
        }
        out
    }
}

} // verus!
