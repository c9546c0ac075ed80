use vstd::prelude::*;

verus! {

/// Axis-aligned rectangle in image pixel space, top-left origin.
/// Degenerate boxes (zero width or height) are allowed; a well-formed box
/// never has a negative extent.
#[derive(Debug, Clone, Copy, PartialEq, Eq, Structural)]
pub struct BoundingBox {
    /// Horizontal coordinate of the left edge.
    pub x: i64,
    /// Vertical coordinate of the top edge.
    pub y: i64,
    /// Horizontal extent of the box.
    pub width: i64,
    /// Vertical extent of the box.
    pub height: i64,
}

/// A box whose coordinates lie within the pixel range a raster image can
/// have: positions within +/- 2^31 and non-negative extents up to 2^31.
/// Every rectangle the recognition engine reports fits here; keeping to this
/// range lets unions and gaps be computed exactly in 64-bit arithmetic.
pub open spec fn box_in_pixel_range(b: BoundingBox) -> bool {
    &&& -0x8000_0000 <= b.x <= 0x8000_0000
    &&& -0x8000_0000 <= b.y <= 0x8000_0000
    &&& 0 <= b.width <= 0x8000_0000
    &&& 0 <= b.height <= 0x8000_0000
}

/// The all-zero box used for a line that contains no words.
pub open spec fn zero_box() -> BoundingBox {
    BoundingBox { x: 0, y: 0, width: 0, height: 0 }
}

} // verus!
