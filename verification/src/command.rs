//! Controller commands and their wire encoding.

use vstd::prelude::*;

use crate::interface::{DisplayInterface, Packet};

verus! {

/// sh1106 commands.
///
/// Each command is a stateless value; [`Command::encode`] is the pure
/// function from a command to its byte encoding on the wire.
#[derive(Debug, Clone, Copy)]
pub enum Command {
    /// Set contrast. Higher number is higher contrast. Default = 0x7F
    Contrast(u8),
    /// Turn entire display on. If set, all pixels will
    /// be set to on, if not, the value in memory will be used.
    AllOn(bool),
    /// Invert display.
    Invert(bool),
    /// Turn display on or off.
    DisplayOn(bool),
    /// Set column address lower 4 bits
    ColumnAddressLow(u8),
    /// Set column address higher 4 bits
    ColumnAddressHigh(u8),
    /// Set page address
    PageAddress(Page),
    /// Set display start line from 0-63
    StartLine(u8),
    /// Reverse columns from 127-0
    SegmentRemap(bool),
    /// Set multipex ratio from 15-63 (MUX-1)
    Multiplex(u8),
    /// Scan from COM[n-1] to COM0 (where N is mux ratio)
    ReverseComDir(bool),
    /// Set vertical shift
    DisplayOffset(u8),
    /// Setup com hardware configuration
    /// First value indicates sequential (false) or alternative (true)
    /// pin configuration.
    ComPinConfig(bool),
    /// Set up display clock.
    /// First value is oscillator frequency, increasing with higher value
    /// Second value is divide ratio - 1
    DisplayClockDiv(u8, u8),
    /// Set up phase 1 and 2 of precharge period. each value is from 0-63
    PreChargePeriod(u8, u8),
    /// Set Vcomh Deselect level
    VcomhDeselect(VcomhLevel),
    /// NOOP
    Noop,
    /// Enable charge pump
    ChargePump(bool),
}

/// The bit a flag contributes to an opcode byte.
pub open spec fn spec_flag_bit(b: bool) -> u8 {
    if b {
        1
    } else {
        0
    }
}

/// The bit a flag contributes to an opcode byte.
#[verifier::when_used_as_spec(spec_flag_bit)]
pub fn flag_bit(b: bool) -> (r: u8)
    ensures
        r == spec_flag_bit(b),
{
    if b {
        1
    } else {
        0
    }
}

/// The significant bytes a command puts on the wire: a fixed opcode pattern,
/// OR'd with the range-constrained parameters, followed by at most one
/// parameter byte.
pub open spec fn spec_encode(c: Command) -> Seq<u8> {
    match c {
        Command::Contrast(val) => seq![0x81u8, val],
        Command::AllOn(on) => seq![0xA4u8 | spec_flag_bit(on)],
        Command::Invert(inv) => seq![0xA6u8 | spec_flag_bit(inv)],
        Command::DisplayOn(on) => seq![0xAEu8 | spec_flag_bit(on)],
        Command::ColumnAddressLow(addr) => seq![0xFu8 & addr],
        Command::ColumnAddressHigh(addr) => seq![0x10u8 | (0xFu8 & addr)],
        Command::PageAddress(page) => seq![0xB0u8 | page.spec_value()],
        Command::StartLine(line) => seq![0x40u8 | (0x3Fu8 & line)],
        Command::SegmentRemap(remap) => seq![0xA0u8 | spec_flag_bit(remap)],
        Command::Multiplex(ratio) => seq![0xA8u8, ratio],
        Command::ReverseComDir(rev) => seq![0xC0u8 | (spec_flag_bit(rev) << 3)],
        Command::DisplayOffset(offset) => seq![0xD3u8, offset],
        Command::ComPinConfig(alt) => seq![0xDAu8, 0x02u8 | (spec_flag_bit(alt) << 4)],
        Command::DisplayClockDiv(fosc, div) => seq![0xD5u8, ((0xFu8 & fosc) << 4) | (0xFu8 & div)],
        Command::PreChargePeriod(phase1, phase2) => seq![
            0x22u8,
            ((0xFu8 & phase2) << 4) | (0xFu8 & phase1),
        ],
        Command::VcomhDeselect(level) => seq![0x35u8, level.spec_value() << 4],
        Command::Noop => seq![0xE3u8],
        Command::ChargePump(en) => seq![0xADu8, 0x8Au8 | spec_flag_bit(en)],
    }
}

impl Command {
    /// Transform the command into a fixed size array of 7 bytes and the real
    /// length for sending. Every command encodes to 1 or 2 significant bytes;
    /// callers slice the valid prefix off the carrier.
    pub fn encode(self) -> (r: ([u8; 7], usize))
        ensures
            1 <= r.1 <= 2,
            r.1 == spec_encode(self).len(),
            r.0@.subrange(0, r.1 as int) == spec_encode(self),
    {
        let (data, len): ([u8; 7], usize) = match self {
            Command::Contrast(val) => ([0x81, val, 0, 0, 0, 0, 0], 2),
            Command::AllOn(on) => ([0xA4 | flag_bit(on), 0, 0, 0, 0, 0, 0], 1),
            Command::Invert(inv) => ([0xA6 | flag_bit(inv), 0, 0, 0, 0, 0, 0], 1),
            Command::DisplayOn(on) => ([0xAE | flag_bit(on), 0, 0, 0, 0, 0, 0], 1),
            Command::ColumnAddressLow(addr) => ([0xF & addr, 0, 0, 0, 0, 0, 0], 1),
            Command::ColumnAddressHigh(addr) => ([0x10 | (0xF & addr), 0, 0, 0, 0, 0, 0], 1),
            Command::PageAddress(page) => ([0xB0 | page.value(), 0, 0, 0, 0, 0, 0], 1),
            Command::StartLine(line) => ([0x40 | (0x3F & line), 0, 0, 0, 0, 0, 0], 1),
            Command::SegmentRemap(remap) => ([0xA0 | flag_bit(remap), 0, 0, 0, 0, 0, 0], 1),
            Command::Multiplex(ratio) => ([0xA8, ratio, 0, 0, 0, 0, 0], 2),
            Command::ReverseComDir(rev) => ([0xC0 | (flag_bit(rev) << 3), 0, 0, 0, 0, 0, 0], 1),
            Command::DisplayOffset(offset) => ([0xD3, offset, 0, 0, 0, 0, 0], 2),
            Command::ComPinConfig(alt) => ([0xDA, 0x02 | (flag_bit(alt) << 4), 0, 0, 0, 0, 0], 2),
            Command::DisplayClockDiv(fosc, div) => {
                ([0xD5, ((0xF & fosc) << 4) | (0xF & div), 0, 0, 0, 0, 0], 2)
            },
            Command::PreChargePeriod(phase1, phase2) => (
                [0x22, ((0xF & phase2) << 4) | (0xF & phase1), 0, 0, 0, 0, 0],
                2,
            ),
            Command::VcomhDeselect(level) => ([0x35, level.value() << 4, 0, 0, 0, 0, 0], 2),
            Command::Noop => ([0xE3, 0, 0, 0, 0, 0, 0], 1),
            Command::ChargePump(en) => ([0xAD, 0x8A | flag_bit(en), 0, 0, 0, 0, 0], 2),
        };
        proof {
            assert(data@.subrange(0, len as int) =~= spec_encode(self));
        }
        (data, len)
    }

    /// Send command to sh1106
    pub fn send<DI>(self, iface: &mut DI) -> (r: Result<(), DI::Error>)
        where DI: DisplayInterface,
        ensures
            r is Ok ==> final(iface).log() == old(iface).log().push(
                Packet::Commands(spec_encode(self)),
            ),
    {
        let (data, len) = self.encode();
        let prefix = vstd::slice::slice_subrange(data.as_slice(), 0, len);
        iface.send_commands(prefix)
    }
}

/// Display page
#[derive(Debug, Clone, Copy, PartialEq, Eq, Structural)]
pub enum Page {
    /// Page 0
    Page0,
    /// Page 1
    Page1,
    /// Page 2
    Page2,
    /// Page 3
    Page3,
    /// Page 4
    Page4,
    /// Page 5
    Page5,
    /// Page 6
    Page6,
    /// Page 7
    Page7,
}

impl Page {
    /// Index of the page, as the page-address opcode carries it.
    pub open spec fn spec_value(self) -> u8 {
        match self {
            Page::Page0 => 0,
            Page::Page1 => 1,
            Page::Page2 => 2,
            Page::Page3 => 3,
            Page::Page4 => 4,
            Page::Page5 => 5,
            Page::Page6 => 6,
            Page::Page7 => 7,
        }
    }

    /// Index of the page, as the page-address opcode carries it.
    #[verifier::when_used_as_spec(spec_value)]
    pub fn value(self) -> (r: u8)
        ensures
            r == self.spec_value(),
    {
        match self {
            Page::Page0 => 0,
            Page::Page1 => 1,
            Page::Page2 => 2,
            Page::Page3 => 3,
            Page::Page4 => 4,
            Page::Page5 => 5,
            Page::Page6 => 6,
            Page::Page7 => 7,
        }
    }

    /// The page a pixel row falls in: one page covers eight rows.
    pub open spec fn spec_from_row(row: u8) -> Page {
        if row < 8 {
            Page::Page0
        } else if row < 16 {
            Page::Page1
        } else if row < 24 {
            Page::Page2
        } else if row < 32 {
            Page::Page3
        } else if row < 40 {
            Page::Page4
        } else if row < 48 {
            Page::Page5
        } else if row < 56 {
            Page::Page6
        } else {
            Page::Page7
        }
    }

    /// The page a pixel row falls in: one page covers eight rows.
    pub fn from_row(row: u8) -> (r: Page)
        requires
            row < 64,
        ensures
            r == Page::spec_from_row(row),
            r.spec_value() == row / 8,
    {
        if row < 8 {
            Page::Page0
        } else if row < 16 {
            Page::Page1
        } else if row < 24 {
            Page::Page2
        } else if row < 32 {
            Page::Page3
        } else if row < 40 {
            Page::Page4
        } else if row < 48 {
            Page::Page5
        } else if row < 56 {
            Page::Page6
        } else {
            Page::Page7
        }
    }
}

/// Frame interval
#[derive(Debug, Clone, Copy)]
pub enum NFrames {
    /// 2 Frames
    F2,
    /// 3 Frames
    F3,
    /// 4 Frames
    F4,
    /// 5 Frames
    F5,
    /// 25 Frames
    F25,
    /// 64 Frames
    F64,
    /// 128 Frames
    F128,
    /// 256 Frames
    F256,
}

impl NFrames {
    /// Bit pattern of the frame interval in the controller's scroll setup.
    pub open spec fn spec_value(self) -> u8 {
        match self {
            NFrames::F2 => 0b111,
            NFrames::F3 => 0b100,
            NFrames::F4 => 0b101,
            NFrames::F5 => 0b000,
            NFrames::F25 => 0b110,
            NFrames::F64 => 0b001,
            NFrames::F128 => 0b010,
            NFrames::F256 => 0b011,
        }
    }

    /// Bit pattern of the frame interval in the controller's scroll setup.
    #[verifier::when_used_as_spec(spec_value)]
    pub fn value(self) -> (r: u8)
        ensures
            r == self.spec_value(),
    {
        match self {
            NFrames::F2 => 0b111,
            NFrames::F3 => 0b100,
            NFrames::F4 => 0b101,
            NFrames::F5 => 0b000,
            NFrames::F25 => 0b110,
            NFrames::F64 => 0b001,
            NFrames::F128 => 0b010,
            NFrames::F256 => 0b011,
        }
    }
}

/// Vcomh Deselect level
#[derive(Debug, Clone, Copy)]
pub enum VcomhLevel {
    /// 0.65 * Vcc
    V065,
    /// 0.77 * Vcc
    V077,
    /// 0.83 * Vcc
    V083,
    /// Auto
    Auto,
}

impl VcomhLevel {
    /// Bit pattern of the deselect level in the VCOM command parameter.
    pub open spec fn spec_value(self) -> u8 {
        match self {
            VcomhLevel::V065 => 0b001,
            VcomhLevel::V077 => 0b010,
            VcomhLevel::V083 => 0b011,
            VcomhLevel::Auto => 0b100,
        }
    }

    /// Bit pattern of the deselect level in the VCOM command parameter.
    #[verifier::when_used_as_spec(spec_value)]
    pub fn value(self) -> (r: u8)
        ensures
            r == self.spec_value(),
    {
        match self {
            VcomhLevel::V065 => 0b001,
            VcomhLevel::V077 => 0b010,
            VcomhLevel::V083 => 0b011,
            VcomhLevel::Auto => 0b100,
        }
    }
}

} // verus!
