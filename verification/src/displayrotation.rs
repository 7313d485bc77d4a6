//! Display rotation.

use vstd::prelude::*;

verus! {

/// Rotation of the display content in steps of 90 degrees.
///
/// The rotation decides both the logical-to-physical coordinate mapping of
/// drawing operations and the pair of direction-control commands
/// (segment remap, COM scan direction) sent to the controller.
#[derive(Debug, Clone, Copy, PartialEq, Eq, Structural)]
pub enum DisplayRotation {
    /// No rotation.
    Rotate0,
    /// Rotate by 90 degrees clockwise.
    Rotate90,
    /// Rotate by 180 degrees clockwise.
    Rotate180,
    /// Rotate by 270 degrees clockwise.
    Rotate270,
}

} // verus!
