//! Quarter (90 degree) rotation.

use vstd::prelude::*;

verus! {

/// Clockwise quarter rotation; four applications return the original value.
///
/// `rotate_counter_clockwise` is three applications of `rotate_clockwise`,
/// which documents that the rotation group has order 4; it is not an
/// independent primitive.
pub trait QuarterRotation where Self: Sized {
    /// Rotate clockwise by 90 degrees
    fn rotate_clockwise(&self) -> Self;

    /// Rotate counter clockwise by 90 degrees
    fn rotate_counter_clockwise(&self) -> Self;
}

} // verus!
