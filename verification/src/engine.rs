use vstd::prelude::*;

use crate::geometry::box_in_pixel_range;
use crate::model::OcrWord;

verus! {

/// What the platform engine reported for the skew angle of the text block.
/// `Unreadable` stands for an angle the engine claims to have but whose
/// value cannot be read; the caller-facing model collapses it to absent.
#[derive(Debug, Clone, Copy, PartialEq, Eq, Structural)]
pub enum AngleReading {
    /// The engine reported no angle.
    Absent,
    /// The engine reported an angle whose value could not be read.
    Unreadable,
    /// A readable angle, in degrees, carried as the bit pattern of a
    /// 64-bit IEEE-754 value.
    Present(u64),
}

/// One line of the engine's hierarchical result, reduced to the values the
/// adapter reads: the line's words in engine order, each with its text and
/// rectangle.
#[derive(Debug, PartialEq, Eq)]
pub struct EngineLine {
    /// The words of the line, left to right as the engine reported them.
    pub words: Vec<OcrWord>,
}

/// The engine's hierarchical recognition result, reduced to plain values:
/// lines of words plus the optional skew angle.
#[derive(Debug, PartialEq, Eq)]
pub struct EngineResult {
    /// The recognized lines, in engine order.
    pub lines: Vec<EngineLine>,
    /// The engine's report of the text block's skew.
    pub angle: AngleReading,
}

/// Every word rectangle of the line lies in the pixel range.
pub open spec fn line_in_pixel_range(l: EngineLine) -> bool {
    forall|j: int| 0 <= j < l.words@.len() ==> box_in_pixel_range(#[trigger] l.words@[j].bounds)
}

/// Every word rectangle of the result lies in the pixel range.
pub open spec fn result_in_pixel_range(e: EngineResult) -> bool {
    forall|i: int| 0 <= i < e.lines@.len() ==> line_in_pixel_range(#[trigger] e.lines@[i])
}

/// The caller-facing angle: the bit pattern of a readable angle, absent
/// otherwise.
pub open spec fn angle_of(a: AngleReading) -> Option<u64> {
    match a {
        AngleReading::Present(bits) => Some(bits),
        _ => None,
    }
}

} // verus!
