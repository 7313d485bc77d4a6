//! Communication interface to the display controller.
//!
//! The driver core never touches a bus directly: it goes through the
//! [`DisplayInterface`] capability, which a transport binding (I2C or SPI)
//! implements outside this crate. The capability carries a ghost model, the
//! `log`, so that the addressing engine can state exactly which bytes were
//! handed to the controller.

use vstd::prelude::*;

verus! {

/// One transmission to the controller, as the transport model records it.
pub enum Packet {
    /// A command burst: opcode and parameter bytes on the command channel.
    Commands(Seq<u8>),
    /// Pixel payload on the data channel.
    Data(Seq<u8>),
}

/// A method of communicating with the sh1106 controller.
///
/// `log` models the transport: the sequence of packets handed to the
/// controller so far. Each send states, on success, exactly what it appended
/// to the log. On an `Err` nothing is promised about the log: the bus
/// transaction may have partially happened, and the caller must treat the
/// controller state as unknown until the window is set again.
pub trait DisplayInterface: Sized {
    /// Interface error type
    type Error;
    /// Underlying interface type
    type Interface;

    /// The packets handed to the controller so far. A transport binding
    /// outside the verified world leaves this default, an unspecified
    /// sequence: nothing is then known of its log, and nothing needs to be.
    open spec fn log(&self) -> Seq<Packet> {
        vstd::pervasive::arbitrary()
    }

    /// Initialize the device. Bus-level setup only: hands no packet to the
    /// controller.
    fn init(&mut self) -> (r: Result<(), Self::Error>)
        ensures
            r is Ok ==> final(self).log() == old(self).log(),
    ;

    /// Send a batch of up to 7 command bytes to the display.
    fn send_commands(&mut self, cmd: &[u8]) -> (r: Result<(), Self::Error>)
        requires
            cmd@.len() <= 7,
        ensures
            r is Ok ==> final(self).log() == old(self).log().push(Packet::Commands(cmd@)),
    ;

    /// Send pixel data to the display.
    fn send_data(&mut self, buf: &[u8]) -> (r: Result<(), Self::Error>)
        ensures
            r is Ok ==> final(self).log() == old(self).log().push(Packet::Data(buf@)),
    ;

    /// Release the underlying interface, consuming the binding.
    fn release(self) -> Self::Interface;
}

/// A capability to drive a GPIO output pin, as SPI transport bindings need
/// for their chip-select and data/command lines.
pub trait OutputPin {
    /// Error the pin can fail with.
    type Error;

    /// Drive the pin low.
    fn set_low(&mut self) -> Result<(), Self::Error>;

    /// Drive the pin high.
    fn set_high(&mut self) -> Result<(), Self::Error>;
}

} // verus!
