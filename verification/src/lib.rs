//! Driver for the sh1106 monochrome OLED display controller.
//!
//! The driver exposes a pixel-addressable framebuffer over an abstract
//! command/data transport. Drawing operations mutate a packed in-memory
//! bitmap; a flush walks the touched region and streams it to the
//! controller's page-organised RAM through the transport.

use vstd::prelude::*;

pub use crate::builder::{Builder, NoOutputPin};

pub mod buffer;
pub mod builder;
pub mod command;
pub mod displayrotation;
pub mod graphics;
pub mod displaysize;
pub mod interface;
pub mod prelude;
pub mod properties;
pub mod raw;
pub mod test_helpers;

verus! {

/// Errors that operations on the display can surface.
///
/// The driver performs no recovery of its own: the first transport error
/// aborts the operation that met it and is handed to the caller unchanged.
#[derive(Debug)]
pub enum Error<CommE, PinE> {
    /// Communication error on the underlying bus.
    Comm(CommE),
    /// Error while setting a GPIO pin.
    Pin(PinE),
}

} // verus!
