//! The ways in which a render is refused.

use vstd::prelude::*;

verus! {

/// Why a render was abandoned. Every error is fatal to the render it occurs
/// in: nothing is painted for it.
#[derive(Clone, Copy, Debug, PartialEq, Eq, Structural)]
pub enum RenderError {
    /// Fewer than two control points, or fewer than four under a basis that
    /// interpolates with cubics.
    InvalidControlPoints,
    /// Inverse lookup was asked for, and the abscissae of the control points
    /// decrease somewhere.
    NonMonotonicKnots,
    /// The sample sequence is not one that the outline of the curve can be
    /// built from: it is empty, it is not the sequence that was asked for,
    /// or it misses a control point that pins an end of the curve.
    OutlineConstructionFailure,
}

} // verus!
