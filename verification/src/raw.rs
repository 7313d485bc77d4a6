//! Raw mode for coercion into richer driver types
//!
//! A display driver instance without high level functionality, used as a
//! plain holder of the addressing engine. Hand its properties to
//! [`crate::graphics::GraphicsMode`] for drawing.

use vstd::prelude::*;

use crate::interface::DisplayInterface;
use crate::properties::{DisplayProperties, PropState};

verus! {

/// Raw display mode
pub struct RawMode<DI> {
    properties: DisplayProperties<DI>,
}

impl<DI> RawMode<DI> where DI: DisplayInterface {
    /// The held addressing engine's ghost state.
    pub closed spec fn props(self) -> PropState {
        self.properties@
    }

    /// Create a new raw display mode
    pub fn new(properties: DisplayProperties<DI>) -> (r: Self)
        ensures
            r.props() == properties@,
    {
        RawMode { properties }
    }

    /// Release all resources used by RawMode
    pub fn release(self) -> (r: DisplayProperties<DI>)
        ensures
            r@ == self.props(),
    {
        self.properties
    }
}

} // verus!
