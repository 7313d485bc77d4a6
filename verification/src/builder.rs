//! Interface factory
//!
//! The builder collects driver options — panel size, rotation, I2C address —
//! before a transport binding turns them into a driver instance. The options
//! are plain data; connecting a concrete bus peripheral happens outside the
//! core.

use vstd::prelude::*;
use core::marker::PhantomData;

use crate::displayrotation::DisplayRotation;
use crate::displaysize::DisplaySize;
use crate::interface::OutputPin;

verus! {

/// Builder struct. Driver options and interface are set using its methods.
#[derive(Debug, Clone, Copy)]
pub struct Builder {
    /// Panel size the driver will be built with.
    pub display_size: DisplaySize,
    /// Rotation the driver will be built with.
    pub rotation: DisplayRotation,
    /// I2C address for an I2C transport binding; ignored over SPI.
    pub i2c_addr: u8,
}

impl Builder {
    /// Create new builder with a default size of 128 x 64 pixels and no rotation.
    pub fn new() -> (r: Builder)
        ensures
            r.display_size == DisplaySize::Display128x64,
            r.rotation == DisplayRotation::Rotate0,
            r.i2c_addr == 0x3c,
    {
        Builder {
            display_size: DisplaySize::Display128x64,
            rotation: DisplayRotation::Rotate0,
            i2c_addr: 0x3c,
        }
    }

    /// Set the size of the display. Supported sizes are defined by [DisplaySize].
    pub fn with_size(self, display_size: DisplaySize) -> (r: Self)
        ensures
            r.display_size == display_size,
            r.rotation == self.rotation,
            r.i2c_addr == self.i2c_addr,
    {
        Self { display_size, ..self }
    }

    /// Set the I2C address to use. Defaults to 0x3C which is the most common
    /// address. The other address specified in the datasheet is 0x3D.
    /// Ignored when using SPI interface.
    pub fn with_i2c_addr(self, i2c_addr: u8) -> (r: Self)
        ensures
            r.i2c_addr == i2c_addr,
            r.display_size == self.display_size,
            r.rotation == self.rotation,
    {
        Self { i2c_addr, ..self }
    }

    /// Set the rotation of the display to one of four values. Defaults to no
    /// rotation.
    pub fn with_rotation(self, rotation: DisplayRotation) -> (r: Self)
        ensures
            r.rotation == rotation,
            r.display_size == self.display_size,
            r.i2c_addr == self.i2c_addr,
    {
        Self { rotation, ..self }
    }
}

impl Default for Builder {
    /// The options a fresh builder carries.
    fn default() -> (r: Self)
        ensures
            r.display_size == DisplaySize::Display128x64,
            r.rotation == DisplayRotation::Rotate0,
            r.i2c_addr == 0x3c,
    {
        Builder::new()
    }
}

/// Represents an unused output pin.
pub struct NoOutputPin<PinE = ()> {
    _m: PhantomData<PinE>,
}

impl<PinE> NoOutputPin<PinE> {
    /// Create a new instance of `NoOutputPin`
    pub fn new() -> (r: Self) {
        Self { _m: PhantomData }
    }
}

impl<PinE> OutputPin for NoOutputPin<PinE> {
    type Error = PinE;

    fn set_low(&mut self) -> (r: Result<(), PinE>)
        ensures
            r is Ok,
    {
        Ok(())
    }

    fn set_high(&mut self) -> (r: Result<(), PinE>)
        ensures
            r is Ok,
    {
        Ok(())
    }
}

} // verus!
