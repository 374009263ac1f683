use vstd::prelude::*;
use crate::codec::{decode, encode, jpeg_of, png_of, strip_alpha, DecodeError, EncodeError,
    OutputFormat};
use crate::color::{contrast, contrast_model, filter, filter_model};
use crate::crop::{crop, crop_model};
use crate::flip::{flip_h_model, flip_horizontal, flip_v_model, flip_vertical};
use crate::ops::{Operation, ResizeStrategy};
use crate::raster::{lemma_mul_dims_le, Raster, RasterModel};
use crate::resize::{resize_model, resize_normal};
use crate::seam::{seam_carve, seam_carve_model};
use crate::watermark::{watermark_asset, watermark_asset_model, watermark_onto,
    watermark_onto_model};

verus! {

/// The effect of one operation on a raster. An unknown operation kind leaves
/// the raster untouched: the pipeline stays forward-compatible with
/// operation kinds an older engine build does not understand.
pub open spec fn apply_op(m: RasterModel, op: Operation) -> RasterModel {
    match op {
        Operation::Crop { x0, y0, x1, y1 } => crop_model(
            m, x0 as int, y0 as int, x1 as int, y1 as int),
        Operation::Contrast { amount } => contrast_model(m, amount as int),
        Operation::Filter { kind } => filter_model(m, kind),
        Operation::FlipHorizontal => flip_h_model(m),
        Operation::FlipVertical => flip_v_model(m),
        Operation::Resize { width, height, strategy } => match strategy {
            ResizeStrategy::Normal(kernel) => resize_model(
                m, width as int, height as int, kernel),
            ResizeStrategy::SeamCarve => seam_carve_model(m, width as int, height as int),
        },
        Operation::Watermark { x, y } => watermark_onto_model(
            m, watermark_asset_model(), x as int, y as int),
        Operation::Unknown => m,
    }
}

/// The machine limit one operation asks of the raster it is applied to:
/// only a resize allocates at new dimensions, which must be positive (a
/// boundary-validated parameter domain) and, together with the current ones,
/// addressable.
pub open spec fn op_ok(m: RasterModel, op: Operation) -> bool {
    match op {
        Operation::Resize { width, height, strategy: _ } => {
            &&& 1 <= width
            &&& 1 <= height
            &&& (if m.width >= width { m.width } else { width as int })
                * (if m.height >= height { m.height } else { height as int }) * 4 <= usize::MAX
        },
        _ => true,
    }
}

/// The effect of an operation list, folded strictly left to right.
pub open spec fn apply_ops(m: RasterModel, ops: Seq<Operation>) -> RasterModel
    decreases ops.len(),
{
    if ops.len() == 0 {
        m
    } else {
        apply_ops(apply_op(m, ops[0]), ops.drop_first())
    }
}

/// Every operation of the list meets its machine limit on the raster state
/// it will actually see.
pub open spec fn ops_ok(m: RasterModel, ops: Seq<Operation>) -> bool
    decreases ops.len(),
{
    if ops.len() == 0 {
        true
    } else {
        op_ok(m, ops[0]) && ops_ok(apply_op(m, ops[0]), ops.drop_first())
    }
}

/// Idempotence law: applying an empty operation list leaves the raster
/// byte-for-byte unchanged.
pub proof fn lemma_apply_empty(m: RasterModel)
    ensures
        apply_ops(m, Seq::<Operation>::empty()) == m,
{
}

/// Flip involution law at the operation level: flipping horizontally twice
/// (and likewise vertically) restores the raster exactly.
pub proof fn lemma_flip_twice(m: RasterModel)
    requires
        m.wf(),
    ensures
        apply_ops(m, seq![Operation::FlipHorizontal, Operation::FlipHorizontal]) == m,
        apply_ops(m, seq![Operation::FlipVertical, Operation::FlipVertical]) == m,
{
    let sh = seq![Operation::FlipHorizontal, Operation::FlipHorizontal];
    let sv = seq![Operation::FlipVertical, Operation::FlipVertical];
    assert(sh.drop_first() =~= seq![Operation::FlipHorizontal]);
    assert(sv.drop_first() =~= seq![Operation::FlipVertical]);
    assert(sh.drop_first().drop_first() =~= Seq::<Operation>::empty());
    assert(sv.drop_first().drop_first() =~= Seq::<Operation>::empty());
    crate::flip::lemma_flip_h_involution(m);
    crate::flip::lemma_flip_v_involution(m);
    let mh = flip_h_model(m);
    let mv = flip_v_model(m);
    assert(apply_ops(m, sh) == apply_ops(mh, sh.drop_first()));
    assert(apply_ops(mh, sh.drop_first()) == apply_ops(flip_h_model(mh), sh.drop_first().drop_first()));
    assert(apply_ops(flip_h_model(mh), Seq::<Operation>::empty()) == flip_h_model(mh));
    assert(apply_ops(m, sv) == apply_ops(mv, sv.drop_first()));
    assert(apply_ops(mv, sv.drop_first()) == apply_ops(flip_v_model(mv), sv.drop_first().drop_first()));
    assert(apply_ops(flip_v_model(mv), Seq::<Operation>::empty()) == flip_v_model(mv));
}

/// The one-pixel crop at the origin: a crop rectangle that is not symmetric
/// about the vertical midline of any raster at least two pixels wide.
pub open spec fn corner_crop() -> Operation {
    Operation::Crop { x0: 0, y0: 0, x1: 1, y1: 1 }
}

/// Order-dependence law: flipping horizontally and then cropping differs
/// from cropping and then flipping, witnessed by the one-pixel corner crop
/// on any raster whose two top corner pixels differ in some channel. The
/// first order keeps the top-right source pixel, the second the top-left.
pub proof fn lemma_order_dependence(m: RasterModel, c: int)
    requires
        m.wf(),
        2 <= m.width,
        1 <= m.height,
        0 <= c < 4,
        m.pix(0, 0, c) != m.pix(m.width - 1, 0, c),
    ensures
        apply_ops(m, seq![Operation::FlipHorizontal, corner_crop()]) != apply_ops(
            m,
            seq![corner_crop(), Operation::FlipHorizontal],
        ),
{
    let s1 = seq![Operation::FlipHorizontal, corner_crop()];
    let s2 = seq![corner_crop(), Operation::FlipHorizontal];
    assert(s1.drop_first() =~= seq![corner_crop()]);
    assert(s2.drop_first() =~= seq![Operation::FlipHorizontal]);
    assert(s1.drop_first().drop_first() =~= Seq::<Operation>::empty());
    assert(s2.drop_first().drop_first() =~= Seq::<Operation>::empty());
    let m1 = flip_h_model(m);
    let m2 = crop_model(m, 0, 0, 1, 1);
    let a = crop_model(m1, 0, 0, 1, 1);
    let b = flip_h_model(m2);
    assert(apply_ops(m, s1) == apply_ops(m1, s1.drop_first()));
    assert(apply_ops(m1, s1.drop_first()) == apply_ops(a, s1.drop_first().drop_first()));
    assert(apply_ops(a, Seq::<Operation>::empty()) == a);
    assert(apply_ops(m, s2) == apply_ops(m2, s2.drop_first()));
    assert(apply_ops(m2, s2.drop_first()) == apply_ops(b, s2.drop_first().drop_first()));
    assert(apply_ops(b, Seq::<Operation>::empty()) == b);
    assert(1int * 1 * 4 == 4);
    crate::raster::lemma_flat_decompose(1, 1, c);
    assert(a.pixels[c] == m1.pix(0, 0, c));
    crate::raster::lemma_flat_index(m.width, m.height, 0, 0, c);
    assert(m1.pix(0, 0, c) == m.pix(m.width - 1, 0, c));
    assert(b.pixels[c] == m2.pix(0, 0, c));
    crate::raster::lemma_flat_index(1, 1, 0, 0, c);
    assert(m2.pix(0, 0, c) == m.pix(0, 0, c));
    assert(a.pixels[c] != b.pixels[c]);
}

/// Peeling the last operation off a prefix: applying the first `k + 1`
/// operations is applying the first `k`, then the operation at `k`.
pub proof fn lemma_apply_ops_snoc(m: RasterModel, s: Seq<Operation>, k: int)
    requires
        0 <= k < s.len(),
    ensures
        apply_ops(m, s.take(k + 1)) == apply_op(apply_ops(m, s.take(k)), s[k]),
    decreases k,
{
    if k == 0 {
        assert(s.take(1).drop_first() =~= Seq::<Operation>::empty());
        assert(s.take(0) =~= Seq::<Operation>::empty());
        assert(s.take(1)[0] == s[0]);
        assert(apply_ops(m, s.take(1)) == apply_ops(apply_op(m, s[0]), s.take(1).drop_first()));
    } else {
        let s1 = s.drop_first();
        let m1 = apply_op(m, s[0]);
        assert(s.take(k + 1).drop_first() =~= s1.take(k));
        assert(s.take(k).drop_first() =~= s1.take(k - 1));
        lemma_apply_ops_snoc(m1, s1, k - 1);
        assert(s.take(k + 1)[0] == s[0]);
        assert(s.take(k)[0] == s[0]);
        assert(s1[k - 1] == s[k]);
        assert(apply_ops(m, s.take(k + 1)) == apply_ops(m1, s1.take(k)));
        assert(apply_ops(m, s.take(k)) == apply_ops(m1, s1.take(k - 1)));
    }
}

/// The engine: owns one raster, decoded from input bytes, mutated in place
/// by `apply`, and consumed by `generate`. Consuming on generate makes
/// "apply after generate" unrepresentable.
pub struct Photon(pub Raster);

impl View for Photon {
    type V = RasterModel;

    open spec fn view(&self) -> RasterModel {
        self.0@
    }
}

impl Photon {
    /// Well-formedness of the engine's raster.
    pub open spec fn wf(&self) -> bool {
        self.0.wf()
    }

    /// Constructs an engine by decoding the input image bytes. Bytes that
    /// `generate` produced decode back: exactly for PNG, dimensions kept for
    /// JPEG.
    pub fn from_bytes(data: &[u8]) -> (out: Result<Photon, DecodeError>)
        ensures
            out is Ok ==> out->Ok_0.wf(),
            forall|w: int, h: int, p: Seq<u8>|
                1 <= w && 1 <= h && w * h * 4 <= 0x8000000 && p.len() == w * h * 4 && data@
                    == #[trigger] png_of(w, h, p) ==> out is Ok && out->Ok_0@ == (RasterModel {
                    width: w,
                    height: h,
                    pixels: p,
                }),
            forall|w: int, h: int, rgb: Seq<u8>|
                1 <= w <= 65535 && 1 <= h <= 65535 && w * h * 4 <= 0x8000000 && rgb.len() == w * h
                    * 3 && data@ == #[trigger] jpeg_of(w, h, rgb) ==> out is Ok
                    && out->Ok_0@.width == w && out->Ok_0@.height == h,
    {
        match decode(data) {
            Ok(raster) => Ok(Photon(raster)),
            Err(e) => Err(e),
        }
    }

    /// Dispatches one operation to its transform. An unknown operation kind
    /// is silently skipped, so the pipeline tolerates operation kinds this
    /// engine build does not understand.
    pub fn transform(&mut self, op: &Operation)
        requires
            old(self).wf(),
            op_ok(old(self)@, *op),
        ensures
            final(self).wf(),
            final(self)@ == apply_op(old(self)@, *op),
    {
        let ghost cur = self@;
        match *op {
            Operation::Crop { x0, y0, x1, y1 } => crop(&mut self.0, x0, y0, x1, y1),
            Operation::Contrast { amount } => contrast(&mut self.0, amount),
            Operation::Filter { kind } => filter(&mut self.0, kind),
            Operation::FlipHorizontal => flip_horizontal(&mut self.0),
            Operation::FlipVertical => flip_vertical(&mut self.0),
            Operation::Resize { width, height, strategy } => match strategy {
                ResizeStrategy::Normal(kernel) => {
                    proof {
                        lemma_mul_dims_le(
                            width as int,
                            height as int,
                            if cur.width >= width { cur.width } else { width as int },
                            if cur.height >= height { cur.height } else { height as int },
                        );
                    }
                    resize_normal(&mut self.0, width, height, kernel)
                },
                ResizeStrategy::SeamCarve => seam_carve(&mut self.0, width, height),
            },
            Operation::Watermark { x, y } => {
                let wm = watermark_asset();
                watermark_onto(&mut self.0, &wm, x, y)
            },
            Operation::Unknown => {},
        }
    }

    /// Applies each operation in order to the raster, strictly left to
    /// right; unknown operation kinds are silently skipped. No operation
    /// fails: each transform is total over its boundary-validated parameter
    /// domain.
    #[verifier::loop_isolation(false)]
    pub fn apply(&mut self, specs: &[Operation])
        requires
            old(self).wf(),
            ops_ok(old(self)@, specs@),
        ensures
            final(self).wf(),
            final(self)@ == apply_ops(old(self)@, specs@),
    {
        let ghost m0 = old(self)@;
        let n: usize = specs.len();
        let mut k: usize = 0;
        proof {
            assert(specs@.take(0) =~= Seq::<Operation>::empty());
            assert(specs@.skip(0) =~= specs@);
        }
        while k < n
            invariant
                k <= n,
                self.wf(),
                self@ == apply_ops(m0, specs@.take(k as int)),
                ops_ok(self@, specs@.skip(k as int)),
            decreases n - k,
        {
            let ghost cur = self@;
            let ghost rest = specs@.skip(k as int);
            proof {
                assert(rest[0] == specs@[k as int]);
            }
            let op = specs[k];
            self.transform(&op);
            proof {
                assert(self@ == apply_op(cur, specs@[k as int]));
                lemma_apply_ops_snoc(m0, specs@, k as int);
                assert(rest.drop_first() =~= specs@.skip(k as int + 1));
            }
            k = k + 1;
        }
        proof {
            assert(specs@.take(n as int) =~= specs@);
        }
    }

    /// Consumes the engine and encodes the final raster into the requested
    /// output format; a degenerate raster is rejected, PNG always succeeds
    /// otherwise, and JPEG drops the alpha samples the format cannot carry
    /// and succeeds exactly when both dimensions fit the format's 65535
    /// bound.
    pub fn generate(self, format: OutputFormat) -> (out: Result<Vec<u8>, EncodeError>)
        requires
            self.wf(),
        ensures
            (self@.width == 0 || self@.height == 0) <==> out is Err && out->Err_0 is Degenerate,
            format is Png && self@.width > 0 && self@.height > 0 ==> out is Ok && out->Ok_0@
                == png_of(self@.width, self@.height, self@.pixels),
            format is Jpeg && self@.width > 0 && self@.height > 0 ==> (out is Ok <==> self@.width
                <= 65535 && self@.height <= 65535),
            format is Jpeg && out is Ok ==> out->Ok_0@ == jpeg_of(
                self@.width,
                self@.height,
                strip_alpha(self@),
            ),
    {
        encode(&self.0, format)
    }
}

} // verus!
