//! Container to store and set display properties, and the paging algorithm
//! that streams a packed bitmap through the transport.

use vstd::prelude::*;

use crate::command::{spec_encode, Command, Page, VcomhLevel};
use crate::displayrotation::DisplayRotation;
use crate::displaysize::DisplaySize;
use crate::interface::{DisplayInterface, Packet};

verus! {

/// Ghost state of the addressing engine: the transport log, the
/// configuration, and the draw window with its cursor.
pub struct PropState {
    /// Packets handed to the controller so far.
    pub log: Seq<Packet>,
    /// Panel geometry.
    pub size: DisplaySize,
    /// Current rotation.
    pub rotation: DisplayRotation,
    /// Top-left corner (column, row) of the draw window.
    pub area_start: (u8, u8),
    /// Bottom-right corner (column, row) of the draw window, exclusive.
    pub area_end: (u8, u8),
    /// Column the next data byte lands in.
    pub col: u8,
    /// Top row of the page the next data byte lands in.
    pub row: u8,
}

/// The three commands that point the controller at `(col, row)`: page
/// address, then the low and high column-address nibbles.
pub open spec fn addr_packets(col: u8, row: u8) -> Seq<Packet> {
    seq![
        Packet::Commands(spec_encode(Command::PageAddress(Page::spec_from_row(row)))),
        Packet::Commands(spec_encode(Command::ColumnAddressLow(0xFu8 & col))),
        Packet::Commands(spec_encode(Command::ColumnAddressHigh(0xFu8 & (col >> 4)))),
    ]
}

/// Whether a rotation reverses the column scan (segment remap), by the
/// controller's truth table.
pub open spec fn rotation_remap(rot: DisplayRotation) -> bool {
    match rot {
        DisplayRotation::Rotate0 => true,
        DisplayRotation::Rotate90 => false,
        DisplayRotation::Rotate180 => false,
        DisplayRotation::Rotate270 => true,
    }
}

/// Whether a rotation reverses the COM scan direction, by the controller's
/// truth table.
pub open spec fn rotation_reverse(rot: DisplayRotation) -> bool {
    match rot {
        DisplayRotation::Rotate0 => true,
        DisplayRotation::Rotate90 => true,
        DisplayRotation::Rotate180 => false,
        DisplayRotation::Rotate270 => false,
    }
}

/// The two direction-control commands a rotation change sends, in order:
/// segment remap first, then COM scan direction.
pub open spec fn rotation_packets(rot: DisplayRotation) -> Seq<Packet> {
    seq![
        Packet::Commands(spec_encode(Command::SegmentRemap(rotation_remap(rot)))),
        Packet::Commands(spec_encode(Command::ReverseComDir(rotation_reverse(rot)))),
    ]
}

/// Whether a panel class uses the alternative COM pin configuration.
pub open spec fn com_pin_alt(size: DisplaySize) -> bool {
    match size {
        DisplaySize::Display128x32 => false,
        _ => true,
    }
}

/// The bring-up sequence of `init_column_mode`, in the order it goes out:
/// display off, clocking, multiplex ratio from the panel height, offsets,
/// charge pump, the current rotation's direction commands, COM pin
/// configuration by panel class, analog settings, and display on last.
pub open spec fn init_packets(size: DisplaySize, rot: DisplayRotation) -> Seq<Packet> {
    seq![
        Packet::Commands(spec_encode(Command::DisplayOn(false))),
        Packet::Commands(spec_encode(Command::DisplayClockDiv(0x8, 0x0))),
        Packet::Commands(spec_encode(Command::Multiplex((size.spec_height() - 1) as u8))),
        Packet::Commands(spec_encode(Command::DisplayOffset(0))),
        Packet::Commands(spec_encode(Command::StartLine(0))),
        Packet::Commands(spec_encode(Command::ChargePump(true))),
    ] + rotation_packets(rot) + seq![
        Packet::Commands(spec_encode(Command::ComPinConfig(com_pin_alt(size)))),
        Packet::Commands(spec_encode(Command::Contrast(0x80))),
        Packet::Commands(spec_encode(Command::PreChargePeriod(0x1, 0xF))),
        Packet::Commands(spec_encode(Command::VcomhDeselect(VcomhLevel::Auto))),
        Packet::Commands(spec_encode(Command::AllOn(false))),
        Packet::Commands(spec_encode(Command::Invert(false))),
        Packet::Commands(spec_encode(Command::DisplayOn(true))),
    ]
}

/// Where the cursor row lands after a wrap at the right edge: down one page,
/// and back to the window top when that passes the bottom.
pub open spec fn wrapped_row(start: (u8, u8), end: (u8, u8), row: u8) -> u8 {
    if row + 8 >= end.1 {
        start.1
    } else {
        (row + 8) as u8
    }
}

/// The cursor row after `k` wraps at the right edge of the window.
pub open spec fn wrapped_row_n(start: (u8, u8), end: (u8, u8), row: u8, k: nat) -> u8
    decreases k,
{
    if k == 0 {
        row
    } else {
        wrapped_row(start, end, wrapped_row_n(start, end, row, (k - 1) as nat))
    }
}

/// The packets a `draw` sends and the cursor it leaves behind: data bytes to
/// the right edge of the window, then the wrapped address, again and again
/// until the buffer is spent. The result is the packet sequence, the final
/// cursor column, and the final cursor row.
pub open spec fn draw_run(
    start: (u8, u8),
    end: (u8, u8),
    col: u8,
    row: u8,
    bytes: Seq<u8>,
) -> (Seq<Packet>, u8, u8)
    decreases bytes.len(),
{
    if bytes.len() == 0 || col >= end.0 || bytes.len() < end.0 - col {
        (seq![], col, row)
    } else {
        let count = (end.0 - col) as int;
        let row2 = wrapped_row(start, end, row);
        let rest = draw_run(start, end, start.0, row2, bytes.skip(count));
        (
            seq![Packet::Data(bytes.take(count))] + addr_packets(start.0, row2) + rest.0,
            rest.1,
            rest.2,
        )
    }
}

/// The cursor states from which `draw` can stream data: a nonempty window
/// within the controller's eight pages, with the cursor inside it.
pub open spec fn draw_ready(s: PropState) -> bool {
    &&& s.area_start.0 <= s.col < s.area_end.0
    &&& s.area_start.1 <= s.row < s.area_end.1
    &&& s.area_end.1 <= 64
}

/// The byte counts `draw` accepts for a cursor state: nothing, or the run to
/// the right edge of the window plus a whole number of window-wide rows, so
/// that every data packet ends exactly at the window's right edge.
pub open spec fn draw_len_ok(s: PropState, len: int) -> bool {
    ||| len == 0
    ||| {
        let first = s.area_end.0 - s.col;
        let width = s.area_end.0 - s.area_start.0;
        len >= first && (len - first) % width == 0
    }
}

/// Display properties struct. Owns the transport, the configured size and
/// rotation, and the draw-window cursor of the controller's page-organised
/// RAM.
pub struct DisplayProperties<DI> {
    iface: DI,
    display_size: DisplaySize,
    display_rotation: DisplayRotation,
    draw_area_start: (u8, u8),
    draw_area_end: (u8, u8),
    draw_column: u8,
    draw_row: u8,
}

impl<DI: DisplayInterface> View for DisplayProperties<DI> {
    type V = PropState;

    closed spec fn view(&self) -> PropState {
        PropState {
            log: self.iface.log(),
            size: self.display_size,
            rotation: self.display_rotation,
            area_start: self.draw_area_start,
            area_end: self.draw_area_end,
            col: self.draw_column,
            row: self.draw_row,
        }
    }
}

impl<DI> DisplayProperties<DI> where DI: DisplayInterface {
    /// Create new DisplayProperties instance
    pub fn new(
        iface: DI,
        display_size: DisplaySize,
        display_rotation: DisplayRotation,
    ) -> (r: DisplayProperties<DI>)
        ensures
            r@.log == iface.log(),
            r@.size == display_size,
            r@.rotation == display_rotation,
            r@.area_start == (0u8, 0u8),
            r@.area_end == (0u8, 0u8),
            r@.col == 0,
            r@.row == 0,
    {
        DisplayProperties {
            iface,
            display_size,
            display_rotation,
            draw_area_start: (0, 0),
            draw_area_end: (0, 0),
            draw_column: 0,
            draw_row: 0,
        }
    }

    /// Initialise the display in column mode (i.e. a byte walks down a
    /// column of 8 pixels) with column 0 on the left and column
    /// _(display_width - 1)_ on the right. On success the transport carried
    /// exactly the bring-up sequence of [`init_packets`]; the first failed
    /// send aborts the rest, so a partial initialisation is the caller's to
    /// detect through the returned error.
    pub fn init_column_mode(&mut self) -> (r: Result<(), DI::Error>)
        ensures
            final(self)@.size == old(self)@.size,
            final(self)@.rotation == old(self)@.rotation,
            final(self)@.area_start == old(self)@.area_start,
            final(self)@.area_end == old(self)@.area_end,
            final(self)@.col == old(self)@.col,
            final(self)@.row == old(self)@.row,
            r is Ok ==> final(self)@.log == old(self)@.log + init_packets(
                old(self)@.size,
                old(self)@.rotation,
            ),
    {
        self.iface.init()?;
        let (_, display_height) = self.display_size.dimensions();
        let display_rotation = self.display_rotation;

        Command::DisplayOn(false).send(&mut self.iface)?;
        Command::DisplayClockDiv(0x8, 0x0).send(&mut self.iface)?;
        Command::Multiplex(display_height - 1).send(&mut self.iface)?;
        Command::DisplayOffset(0).send(&mut self.iface)?;
        Command::StartLine(0).send(&mut self.iface)?;
        // The charge pump must be set while the display is off.
        Command::ChargePump(true).send(&mut self.iface)?;

        self.set_rotation(display_rotation)?;

        match self.display_size {
            DisplaySize::Display128x32 => Command::ComPinConfig(false).send(&mut self.iface),
            DisplaySize::Display128x64
            | DisplaySize::Display128x64NoOffset
            | DisplaySize::Display132x64 => Command::ComPinConfig(true).send(&mut self.iface),
        }?;

        Command::Contrast(0x80).send(&mut self.iface)?;
        Command::PreChargePeriod(0x1, 0xF).send(&mut self.iface)?;
        Command::VcomhDeselect(VcomhLevel::Auto).send(&mut self.iface)?;
        Command::AllOn(false).send(&mut self.iface)?;
        Command::Invert(false).send(&mut self.iface)?;
        Command::DisplayOn(true).send(&mut self.iface)?;

        proof {
            assert(self.iface.log() =~= old(self)@.log + init_packets(
                old(self)@.size,
                old(self)@.rotation,
            ));
        }
        Ok(())
    }

    /// Set the position in the framebuffer of the display where any sent
    /// data should be drawn: the window is stored, the cursor reset to its
    /// start, and the matching address commands sent at once. The cursor is
    /// updated before the send, so after a failed send the cursor is ahead
    /// of the controller and the caller must set the window again before
    /// drawing on.
    pub fn set_draw_area(&mut self, start: (u8, u8), end: (u8, u8)) -> (r: Result<
        (),
        DI::Error,
    >)
        requires
            start.1 < 64,
        ensures
            final(self)@.size == old(self)@.size,
            final(self)@.rotation == old(self)@.rotation,
            final(self)@.area_start == start,
            final(self)@.area_end == end,
            final(self)@.col == start.0,
            final(self)@.row == start.1,
            r is Ok ==> final(self)@.log == old(self)@.log + addr_packets(start.0, start.1),
    {
        self.draw_area_start = start;
        self.draw_area_end = end;
        self.draw_column = start.0;
        self.draw_row = start.1;

        self.send_draw_address()
    }

    /// Send the page and column address of the current cursor.
    fn send_draw_address(&mut self) -> (r: Result<(), DI::Error>)
        requires
            old(self)@.row < 64,
        ensures
            final(self)@.size == old(self)@.size,
            final(self)@.rotation == old(self)@.rotation,
            final(self)@.area_start == old(self)@.area_start,
            final(self)@.area_end == old(self)@.area_end,
            final(self)@.col == old(self)@.col,
            final(self)@.row == old(self)@.row,
            r is Ok ==> final(self)@.log == old(self)@.log + addr_packets(
                old(self)@.col,
                old(self)@.row,
            ),
    {
        Command::PageAddress(Page::from_row(self.draw_row)).send(&mut self.iface)?;
        Command::ColumnAddressLow(0xF & self.draw_column).send(&mut self.iface)?;
        let r = Command::ColumnAddressHigh(0xF & (self.draw_column >> 4)).send(&mut self.iface);
        proof {
            if r is Ok {
                assert(self.iface.log() =~= old(self)@.log + addr_packets(
                    old(self)@.col,
                    old(self)@.row,
                ));
            }
        }
        r
    }

    /// Send the data to the display for drawing at the current position in
    /// the framebuffer and advance the position accordingly: each send runs
    /// to the right edge of the draw window, then the cursor wraps to the
    /// window's left edge one page down (back to the top past the bottom)
    /// and the address is issued again, until the buffer is spent. Cf.
    /// `set_draw_area` to modify the affected area. On success the transport
    /// carried exactly the packets of [`draw_run`]; a failed send leaves the
    /// cursor ahead of the controller, and the caller must set the window
    /// again before drawing on.
    pub fn draw(&mut self, buffer: &[u8]) -> (r: Result<(), DI::Error>)
        requires
            draw_ready(old(self)@),
            draw_len_ok(old(self)@, buffer@.len() as int),
        ensures
            final(self)@.size == old(self)@.size,
            final(self)@.rotation == old(self)@.rotation,
            final(self)@.area_start == old(self)@.area_start,
            final(self)@.area_end == old(self)@.area_end,
            draw_ready(final(self)@),
            buffer@.len() == 0 ==> (r is Ok && final(self)@ == old(self)@),
            r is Err ==> exists|k: nat|
                {
                    &&& final(self)@.row == wrapped_row_n(
                        old(self)@.area_start,
                        old(self)@.area_end,
                        old(self)@.row,
                        k,
                    )
                    &&& final(self)@.col == (if k == 0 {
                        old(self)@.col
                    } else {
                        old(self)@.area_start.0
                    })
                },
            r is Ok ==> {
                let run = draw_run(
                    old(self)@.area_start,
                    old(self)@.area_end,
                    old(self)@.col,
                    old(self)@.row,
                    buffer@,
                );
                &&& final(self)@.log == old(self)@.log + run.0
                &&& final(self)@.col == run.1
                &&& final(self)@.row == run.2
            },
    {
        let ghost start = old(self)@.area_start;
        let ghost end = old(self)@.area_end;
        let ghost log0 = old(self)@.log;
        let ghost full = draw_run(start, end, old(self)@.col, old(self)@.row, buffer@);
        let ghost mut wraps: nat = 0;
        let mut pos: usize = 0;
        proof {
            assert(buffer@.skip(0) =~= buffer@);
            assert(log0.take(log0.len() as int) =~= log0);
            assert(old(self)@.log.skip(log0.len() as int) =~= Seq::<Packet>::empty());
            assert(Seq::<Packet>::empty() + full.0 =~= full.0);
        }
        while pos < buffer.len()
            invariant
                pos <= buffer@.len(),
                draw_ready(self@),
                start == old(self)@.area_start,
                end == old(self)@.area_end,
                log0 == old(self)@.log,
                full == draw_run(start, end, old(self)@.col, old(self)@.row, buffer@),
                self@.size == old(self)@.size,
                self@.rotation == old(self)@.rotation,
                self@.area_start == start,
                self@.area_end == end,
                draw_len_ok(self@, buffer@.len() - pos),
                self@.row == wrapped_row_n(start, end, old(self)@.row, wraps),
                self@.col == (if wraps == 0 {
                    old(self)@.col
                } else {
                    start.0
                }),
                log0.len() <= self@.log.len(),
                self@.log.take(log0.len() as int) == log0,
                full.0 == self@.log.skip(log0.len() as int) + draw_run(
                    start,
                    end,
                    self@.col,
                    self@.row,
                    buffer@.skip(pos as int),
                ).0,
                full.1 == draw_run(start, end, self@.col, self@.row, buffer@.skip(pos as int)).1,
                full.2 == draw_run(start, end, self@.col, self@.row, buffer@.skip(pos as int)).2,
            decreases buffer@.len() - pos,
        {
            let ghost pre = self@;
            let ghost rem = buffer@.skip(pos as int);
            let count = self.draw_area_end.0 - self.draw_column;
            let chunk = vstd::slice::slice_subrange(buffer, pos, pos + count as usize);
            proof {
                assert(chunk@ =~= rem.take(count as int));
            }
            match self.iface.send_data(chunk) {
                Ok(()) => (),
                Err(e) => {
                    proof {
                        assert(self@.row == wrapped_row_n(start, end, old(self)@.row, wraps));
                    }
                    return Err(e);
                },
            }
            self.draw_column += count;

            if self.draw_column >= self.draw_area_end.0 {
                self.draw_column = self.draw_area_start.0;

                self.draw_row += 8;
                if self.draw_row >= self.draw_area_end.1 {
                    self.draw_row = self.draw_area_start.1;
                }
                proof {
                    wraps = wraps + 1;
                    assert(self@.row == wrapped_row(
                        start,
                        end,
                        wrapped_row_n(start, end, old(self)@.row, (wraps - 1) as nat),
                    ));
                    assert(self@.row == wrapped_row_n(start, end, old(self)@.row, wraps));
                }

                match self.send_draw_address() {
                    Ok(()) => (),
                    Err(e) => {
                        proof {
                            assert(self@.row == wrapped_row_n(start, end, old(self)@.row, wraps));
                        }
                        return Err(e);
                    },
                }
            }

            pos += count as usize;
            proof {
                assert(self@.row == wrapped_row(start, end, pre.row));
                assert(buffer@.skip(pos as int) =~= rem.skip(count as int));
                let rest_pre = draw_run(start, end, pre.col, pre.row, rem);
                let rest_now = draw_run(start, end, self@.col, self@.row, buffer@.skip(pos as int));
                assert(rest_pre.0 =~= seq![Packet::Data(rem.take(count as int))] + addr_packets(
                    start.0,
                    self@.row,
                ) + rest_now.0);
                assert(self@.log.take(log0.len() as int) =~= log0);
                assert(self@.log.skip(log0.len() as int) =~= pre.log.skip(log0.len() as int) + seq![
                    Packet::Data(rem.take(count as int)),
                ] + addr_packets(start.0, self@.row));
                assert(full.0 =~= self@.log.skip(log0.len() as int) + rest_now.0);
                let width = end.0 - start.0;
                let remp = buffer@.len() - pos;
                if remp != 0 {
                    assert(remp % (width as int) == 0);
                    assert(remp >= width) by (nonlinear_arith)
                        requires
                            remp % (width as int) == 0,
                            remp > 0,
                            (width as int) > 0,
                    ;
                    assert((remp - width) % (width as int) == 0) by (nonlinear_arith)
                        requires
                            remp % (width as int) == 0,
                            remp >= width,
                            (width as int) > 0,
                    ;
                }
            }
        }
        proof {
            assert(buffer@.skip(pos as int) =~= Seq::<u8>::empty());
            assert(draw_run(start, end, self@.col, self@.row, buffer@.skip(pos as int)).0
                =~= Seq::<Packet>::empty());
            assert(self@.log =~= log0 + self@.log.skip(log0.len() as int));
            assert(full.0 =~= self@.log.skip(log0.len() as int));
        }
        Ok(())
    }

    /// Get the configured display size
    pub fn get_size(&self) -> (r: DisplaySize)
        ensures
            r == self@.size,
    {
        self.display_size
    }

    /// Get display dimensions, taking into account the current rotation of
    /// the display: width and height swap under 90- and 270-degree rotation.
    pub fn get_dimensions(&self) -> (r: (u8, u8))
        ensures
            r == spec_dimensions(self@.size, self@.rotation),
    {
        let (w, h) = self.display_size.dimensions();

        match self.display_rotation {
            DisplayRotation::Rotate0 | DisplayRotation::Rotate180 => (w, h),
            DisplayRotation::Rotate90 | DisplayRotation::Rotate270 => (h, w),
        }
    }

    /// Get the display rotation
    pub fn get_rotation(&self) -> (r: DisplayRotation)
        ensures
            r == self@.rotation,
    {
        self.display_rotation
    }

    /// Set the display rotation: the rotation is stored, then the two
    /// direction-control commands of [`rotation_packets`] are sent, segment
    /// remap first. The rotation is stored even when a send fails.
    pub fn set_rotation(&mut self, display_rotation: DisplayRotation) -> (r: Result<
        (),
        DI::Error,
    >)
        ensures
            final(self)@.size == old(self)@.size,
            final(self)@.rotation == display_rotation,
            final(self)@.area_start == old(self)@.area_start,
            final(self)@.area_end == old(self)@.area_end,
            final(self)@.col == old(self)@.col,
            final(self)@.row == old(self)@.row,
            r is Ok ==> final(self)@.log == old(self)@.log + rotation_packets(display_rotation),
    {
        self.display_rotation = display_rotation;

        let r = match display_rotation {
            DisplayRotation::Rotate0 => {
                Command::SegmentRemap(true).send(&mut self.iface)?;
                Command::ReverseComDir(true).send(&mut self.iface)
            },
            DisplayRotation::Rotate90 => {
                Command::SegmentRemap(false).send(&mut self.iface)?;
                Command::ReverseComDir(true).send(&mut self.iface)
            },
            DisplayRotation::Rotate180 => {
                Command::SegmentRemap(false).send(&mut self.iface)?;
                Command::ReverseComDir(false).send(&mut self.iface)
            },
            DisplayRotation::Rotate270 => {
                Command::SegmentRemap(true).send(&mut self.iface)?;
                Command::ReverseComDir(false).send(&mut self.iface)
            },
        };
        proof {
            if r is Ok {
                assert(self.iface.log() =~= old(self)@.log + rotation_packets(display_rotation));
            }
        }
        r
    }

    /// Set the display contrast
    pub fn set_contrast(&mut self, contrast: u8) -> (r: Result<(), DI::Error>)
        ensures
            final(self)@.size == old(self)@.size,
            final(self)@.rotation == old(self)@.rotation,
            final(self)@.area_start == old(self)@.area_start,
            final(self)@.area_end == old(self)@.area_end,
            final(self)@.col == old(self)@.col,
            final(self)@.row == old(self)@.row,
            r is Ok ==> final(self)@.log == old(self)@.log.push(
                Packet::Commands(spec_encode(Command::Contrast(contrast))),
            ),
    {
        Command::Contrast(contrast).send(&mut self.iface)
    }

    /// Reclaim the transport, consuming the driver.
    pub fn release(self) -> (r: DI)
        ensures
            r.log() == self@.log,
    {
        self.iface
    }
}

/// A buffer exactly filling one page-row of the draw window makes `draw`
/// issue exactly one data send, followed by the one re-issued address of the
/// wrap, the cursor back at the window's left edge on the wrapped row.
pub proof fn lemma_draw_run_one_page(start: (u8, u8), end: (u8, u8), col: u8, row: u8, bytes: Seq<u8>)
    requires
        start.0 <= col < end.0,
        bytes.len() == end.0 - col,
    ensures
        ({
            let run = draw_run(start, end, col, row, bytes);
            &&& run.0 == seq![Packet::Data(bytes)] + addr_packets(
                start.0,
                wrapped_row(start, end, row),
            )
            &&& run.1 == start.0
            &&& run.2 == wrapped_row(start, end, row)
        }),
{
    let count = (end.0 - col) as int;
    let row2 = wrapped_row(start, end, row);
    assert(bytes.skip(count) =~= Seq::<u8>::empty());
    assert(bytes.take(count) =~= bytes);
    let rest = draw_run(start, end, start.0, row2, bytes.skip(count));
    assert(rest.0 =~= Seq::<Packet>::empty());
    let run = draw_run(start, end, col, row, bytes);
    assert(run.0 =~= seq![Packet::Data(bytes)] + addr_packets(start.0, row2));
}

/// A buffer spanning two page-rows of the draw window makes `draw` issue two
/// data sends and two address sets, the cursor row advancing by exactly one
/// page (eight rows) between the first data send and the second.
pub proof fn lemma_draw_run_two_pages(start: (u8, u8), end: (u8, u8), row: u8, bytes: Seq<u8>)
    requires
        start.0 < end.0,
        row + 8 < end.1,
        bytes.len() == 2 * (end.0 - start.0),
    ensures
        ({
            let w = (end.0 - start.0) as int;
            let run = draw_run(start, end, start.0, row, bytes);
            run.0 == seq![Packet::Data(bytes.take(w))] + addr_packets(start.0, (row + 8) as u8)
                + seq![Packet::Data(bytes.skip(w).take(w))] + addr_packets(
                start.0,
                wrapped_row(start, end, (row + 8) as u8),
            )
        }),
{
    let w = (end.0 - start.0) as int;
    let row2 = (row + 8) as u8;
    assert(wrapped_row(start, end, row) == row2);
    let tail = bytes.skip(w);
    assert(tail.len() == w);
    lemma_draw_run_one_page(start, end, start.0, row2, tail);
    assert(tail.take(w) =~= tail);
    let rest = draw_run(start, end, start.0, row2, tail);
    let run = draw_run(start, end, start.0, row, bytes);
    assert(run.0 =~= seq![Packet::Data(bytes.take(w))] + addr_packets(start.0, row2) + rest.0);
    assert(run.0 =~= seq![Packet::Data(bytes.take(w))] + addr_packets(start.0, row2) + seq![
        Packet::Data(tail.take(w)),
    ] + addr_packets(start.0, wrapped_row(start, end, row2)));
}

/// Panel dimensions as a caller sees them under a rotation: width and height
/// swap at 90 and 270 degrees.
pub open spec fn spec_dimensions(size: DisplaySize, rot: DisplayRotation) -> (u8, u8) {
    match rot {
        DisplayRotation::Rotate0 | DisplayRotation::Rotate180 => (
            size.spec_width(),
            size.spec_height(),
        ),
        DisplayRotation::Rotate90 | DisplayRotation::Rotate270 => (
            size.spec_height(),
            size.spec_width(),
        ),
    }
}

} // verus!
