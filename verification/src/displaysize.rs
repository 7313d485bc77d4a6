//! Display size.

use vstd::prelude::*;

verus! {

/// Physical panel geometry supported by the controller.
#[derive(Debug, Clone, Copy, PartialEq, Eq, Structural)]
pub enum DisplaySize {
    /// 128 by 64 pixels
    Display128x64,
    /// 128 by 64 pixels without 2px X offset
    Display128x64NoOffset,
    /// 128 by 32 pixels
    Display128x32,
    /// 132 by 64 pixels
    Display132x64,
}

impl DisplaySize {
    /// Width of the panel in pixels.
    pub open spec fn spec_width(self) -> u8 {
        match self {
            DisplaySize::Display128x64 => 128,
            DisplaySize::Display128x64NoOffset => 128,
            DisplaySize::Display128x32 => 128,
            DisplaySize::Display132x64 => 132,
        }
    }

    /// Height of the panel in pixels.
    pub open spec fn spec_height(self) -> u8 {
        match self {
            DisplaySize::Display128x64 => 64,
            DisplaySize::Display128x64NoOffset => 64,
            DisplaySize::Display128x32 => 32,
            DisplaySize::Display132x64 => 64,
        }
    }

    /// Horizontal shift of the visible area within the controller RAM.
    pub open spec fn spec_column_offset(self) -> u8 {
        match self {
            DisplaySize::Display128x64 => 2,
            DisplaySize::Display128x64NoOffset => 0,
            DisplaySize::Display128x32 => 2,
            DisplaySize::Display132x64 => 0,
        }
    }

    /// Get integral dimensions from DisplaySize
    pub fn dimensions(self) -> (r: (u8, u8))
        ensures
            r.0 == self.spec_width(),
            r.1 == self.spec_height(),
    {
        match self {
            DisplaySize::Display128x64 => (128, 64),
            DisplaySize::Display128x64NoOffset => (128, 64),
            DisplaySize::Display128x32 => (128, 32),
            DisplaySize::Display132x64 => (132, 64),
        }
    }

    /// Get the panel column offset from DisplaySize
    pub fn column_offset(self) -> (r: u8)
        ensures
            r == self.spec_column_offset(),
    {
        match self {
            DisplaySize::Display128x64 => 2,
            DisplaySize::Display128x64NoOffset => 0,
            DisplaySize::Display128x32 => 2,
            DisplaySize::Display132x64 => 0,
        }
    }
}

} // verus!
