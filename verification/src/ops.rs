use vstd::prelude::*;

verus! {

/// Named preset pixel filters. The set is closed: unrecognized names are a
/// parse-time error at the boundary that builds operations, never an
/// engine-time one.
#[derive(Clone, Copy, Debug)]
pub enum FilterKind {
    Oceanic,
    Islands,
    Marine,
    Vintage,
}

/// Resampling kernels for a plain resize. The kernel selects interpolation
/// quality only, never control flow: `Nearest` picks the nearest source
/// pixel, and every other kernel interpolates.
#[derive(Clone, Copy, Debug)]
pub enum SamplingFilter {
    Nearest,
    Triangle,
    CatmullRom,
    Gaussian,
    Lanczos3,
}

/// How a resize reaches the target dimensions: fixed-kernel resampling, or
/// content-aware seam carving.
#[derive(Clone, Copy, Debug)]
pub enum ResizeStrategy {
    Normal(SamplingFilter),
    SeamCarve,
}

/// One typed, immutable transform instruction. Operations are applied
/// strictly left to right; each one's parameters are relative to the raster
/// state that the previous operation produced.
#[derive(Clone, Copy, Debug)]
pub enum Operation {
    /// Replace the raster with the sub-rectangle `[x0, x1) x [y0, y1)`,
    /// clamped to the current bounds.
    Crop { x0: u32, y0: u32, x1: u32, y1: u32 },
    /// Adjust contrast of the R/G/B channels; negative reduces, positive
    /// increases, and the effective amount saturates at +/-255.
    Contrast { amount: i32 },
    /// Apply a named preset pixel transform.
    Filter { kind: FilterKind },
    /// Mirror each row.
    FlipHorizontal,
    /// Mirror each column.
    FlipVertical,
    /// Resample or carve to the target dimensions, which must be positive.
    Resize { width: u32, height: u32, strategy: ResizeStrategy },
    /// Composite the shared watermark asset with its top-left corner at
    /// `(x, y)`; parts falling outside the canvas are dropped.
    Watermark { x: u32, y: u32 },
    /// Forward-compatibility placeholder: an operation kind this engine build
    /// does not understand. The engine skips it silently.
    Unknown,
}

} // verus!
