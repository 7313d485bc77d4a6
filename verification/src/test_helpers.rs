//! Helpers for use in examples and tests: transport and pin stand-ins that
//! run without any bus and record what the driver hands them.

use vstd::prelude::*;

use crate::interface::{DisplayInterface, OutputPin, Packet};

verus! {

/// One recorded transmission: the channel it went on and its bytes.
pub struct SentPacket {
    /// True for the data channel, false for the command channel.
    pub is_data: bool,
    /// The bytes of the transmission.
    pub bytes: Vec<u8>,
}

impl View for SentPacket {
    type V = Packet;

    open spec fn view(&self) -> Packet {
        if self.is_data {
            Packet::Data(self.bytes@)
        } else {
            Packet::Commands(self.bytes@)
        }
    }
}

/// A transport stand-in for an I2C binding that records every packet.
pub struct I2cStub {
    /// Everything sent so far, oldest first.
    pub sent: Vec<SentPacket>,
}

impl I2cStub {
    /// An empty recording transport.
    pub fn new() -> (r: I2cStub)
        ensures
            r.log() == Seq::<Packet>::empty(),
    {
        let r = I2cStub { sent: Vec::new() };
        proof {
            assert(r.log() =~= Seq::<Packet>::empty());
        }
        r
    }
}

impl DisplayInterface for I2cStub {
    type Error = ();

    type Interface = Vec<SentPacket>;

    closed spec fn log(&self) -> Seq<Packet> {
        self.sent@.map_values(|p: SentPacket| p@)
    }

    fn init(&mut self) -> (r: Result<(), ()>) {
        Ok(())
    }

    fn send_commands(&mut self, cmd: &[u8]) -> (r: Result<(), ()>) {
        let rec = SentPacket { is_data: false, bytes: vstd::slice::slice_to_vec(cmd) };
        self.sent.push(rec);
        proof {
            assert(self.log() =~= old(self).log().push(Packet::Commands(cmd@)));
        }
        Ok(())
    }

    fn send_data(&mut self, buf: &[u8]) -> (r: Result<(), ()>) {
        let rec = SentPacket { is_data: true, bytes: vstd::slice::slice_to_vec(buf) };
        self.sent.push(rec);
        proof {
            assert(self.log() =~= old(self).log().push(Packet::Data(buf@)));
        }
        Ok(())
    }

    fn release(self) -> (r: Vec<SentPacket>) {
        self.sent
    }
}

/// A transport stand-in for an SPI binding that records every packet.
pub struct SpiStub {
    /// Everything sent so far, oldest first.
    pub sent: Vec<SentPacket>,
}

impl SpiStub {
    /// An empty recording transport.
    pub fn new() -> (r: SpiStub)
        ensures
            r.log() == Seq::<Packet>::empty(),
    {
        let r = SpiStub { sent: Vec::new() };
        proof {
            assert(r.log() =~= Seq::<Packet>::empty());
        }
        r
    }
}

impl DisplayInterface for SpiStub {
    type Error = ();

    type Interface = Vec<SentPacket>;

    closed spec fn log(&self) -> Seq<Packet> {
        self.sent@.map_values(|p: SentPacket| p@)
    }

    fn init(&mut self) -> (r: Result<(), ()>) {
        Ok(())
    }

    fn send_commands(&mut self, cmd: &[u8]) -> (r: Result<(), ()>) {
        let rec = SentPacket { is_data: false, bytes: vstd::slice::slice_to_vec(cmd) };
        self.sent.push(rec);
        proof {
            assert(self.log() =~= old(self).log().push(Packet::Commands(cmd@)));
        }
        Ok(())
    }

    fn send_data(&mut self, buf: &[u8]) -> (r: Result<(), ()>) {
        let rec = SentPacket { is_data: true, bytes: vstd::slice::slice_to_vec(buf) };
        self.sent.push(rec);
        proof {
            assert(self.log() =~= old(self).log().push(Packet::Data(buf@)));
        }
        Ok(())
    }

    fn release(self) -> (r: Vec<SentPacket>) {
        self.sent
    }
}

/// A pin stand-in whose operations always succeed.
#[derive(Debug, Clone, Copy)]
pub struct PinStub;

impl OutputPin for PinStub {
    type Error = ();

    fn set_low(&mut self) -> (r: Result<(), ()>)
        ensures
            r is Ok,
    {
        Ok(())
    }

    fn set_high(&mut self) -> (r: Result<(), ()>)
        ensures
            r is Ok,
    {
        Ok(())
    }
}

} // verus!
