//! Buffered graphics mode: a packed framebuffer bound to the addressing
//! engine. Drawing mutates the buffer; a flush walks the touched page-rows
//! and streams exactly those bytes to the controller.

use vstd::prelude::*;

use crate::buffer::{
    model_wf, spec_block, spec_fill, spec_fill_contig, spec_contig_count, spec_set_pixel,
    ActiveArea, BufferModel, PackedBuffer, Rect,
};
use crate::displayrotation::DisplayRotation;
use crate::interface::{DisplayInterface, Packet};
use crate::properties::{
    addr_packets, draw_run, init_packets, rotation_packets, spec_dimensions, DisplayProperties,
    PropState,
};

verus! {

/// What to clear.
#[derive(Debug, Copy, Clone)]
pub enum Clear {
    /// Clear the display buffer only, leaving the display contents alone.
    Buffer,
    /// Clear both the buffer and display.
    BufferAndDisplay,
}

/// The logical-to-physical coordinate mapping of a rotation: 90- and
/// 270-degree rotations swap the axes; the mirroring itself is done by the
/// controller through the direction-control commands.
pub open spec fn spec_rotate_coords(rot: DisplayRotation, x: u32, y: u32) -> (u32, u32) {
    match rot {
        DisplayRotation::Rotate0 | DisplayRotation::Rotate180 => (x, y),
        DisplayRotation::Rotate90 | DisplayRotation::Rotate270 => (y, x),
    }
}

/// The coordinate mapping is its own inverse under every rotation, and
/// mapping under a rotation and then under the complementary one (0 then
/// 180, 90 then 270) gives the original point back: complementary rotations
/// share one mapping.
pub proof fn lemma_rotate_coords_involution(rot: DisplayRotation, x: u32, y: u32)
    ensures
        spec_rotate_coords(
            rot,
            spec_rotate_coords(rot, x, y).0,
            spec_rotate_coords(rot, x, y).1,
        ) == (x, y),
        spec_rotate_coords(
            DisplayRotation::Rotate180,
            spec_rotate_coords(DisplayRotation::Rotate0, x, y).0,
            spec_rotate_coords(DisplayRotation::Rotate0, x, y).1,
        ) == (x, y),
        spec_rotate_coords(
            DisplayRotation::Rotate270,
            spec_rotate_coords(DisplayRotation::Rotate90, x, y).0,
            spec_rotate_coords(DisplayRotation::Rotate90, x, y).1,
        ) == (x, y),
{
}

/// The packets a flush of one touched page carries: the window address over
/// the touched columns, the page's bytes, and the address re-issued by the
/// wrap at the window's right edge.
pub open spec fn flush_page_packets(m: BufferModel, offset: u8, a: ActiveArea, p: int) -> Seq<
    Packet,
> {
    let col = (offset + a.min_x) as u8;
    let row = (8 * p) as u8;
    addr_packets(col, row) + seq![
        Packet::Data(spec_block(m, p, a.min_x as int, a.max_x as int)),
    ] + addr_packets(col, row)
}

/// The packets a flush carries for the first `n` touched pages, top to
/// bottom.
pub open spec fn flush_pages_packets(m: BufferModel, offset: u8, a: ActiveArea, n: nat) -> Seq<
    Packet,
>
    decreases n,
{
    if n == 0 {
        seq![]
    } else {
        flush_pages_packets(m, offset, a, (n - 1) as nat) + flush_page_packets(
            m,
            offset,
            a,
            a.min_y as int / 8 + n - 1,
        )
    }
}

/// Everything a flush hands the controller: one page-row at a time over the
/// touched bounding rectangle, shifted right by the panel's column offset;
/// nothing at all when nothing was touched.
pub open spec fn flush_packets(m: BufferModel, offset: u8) -> Seq<Packet> {
    match m.active {
        None => seq![],
        Some(a) => flush_pages_packets(
            m,
            offset,
            a,
            (a.max_y as int / 8 - a.min_y as int / 8 + 1) as nat,
        ),
    }
}

/// Graphics mode handler
pub struct GraphicsMode<DI> {
    properties: DisplayProperties<DI>,
    buffer: PackedBuffer,
}

impl<DI> GraphicsMode<DI> where DI: DisplayInterface {
    /// The addressing engine's ghost state.
    pub closed spec fn props(self) -> PropState {
        self.properties@
    }

    /// The framebuffer's ghost state.
    pub closed spec fn buf(self) -> BufferModel {
        self.buffer@
    }

    /// Well-formedness: the buffer is well formed and sized to the panel.
    pub open spec fn wf(self) -> bool {
        &&& model_wf(self.buf())
        &&& self.buf().width == self.props().size.spec_width()
        &&& self.buf().height == self.props().size.spec_height()
    }

    /// Create a new graphics mode around an addressing engine, with a
    /// panel-sized buffer, every pixel off and nothing touched.
    pub fn new(properties: DisplayProperties<DI>) -> (r: GraphicsMode<DI>)
        ensures
            r.wf(),
            r.props() == properties@,
            r.buf().active is None,
            forall|i: int| 0 <= i < r.buf().bytes.len() ==> r.buf().bytes[i] == 0u8,
    {
        let (w, h) = properties.get_size().dimensions();
        let buffer = PackedBuffer::new(w, h);
        GraphicsMode { properties, buffer }
    }

    /// Release all resources used by GraphicsMode
    pub fn release(self) -> (r: DisplayProperties<DI>)
        ensures
            r@ == self.props(),
    {
        self.properties
    }

    /// Clear the display buffer; with [`Clear::BufferAndDisplay`] also blank
    /// the controller RAM by writing all eight pages of zeroes, shifted by
    /// the panel's column offset.
    pub fn clear(&mut self, clear: Clear) -> (r: Result<(), DI::Error>)
        requires
            old(self).wf(),
        ensures
            final(self).wf(),
            final(self).buf().width == old(self).buf().width,
            final(self).buf().height == old(self).buf().height,
            final(self).buf().active is None,
            forall|i: int|
                0 <= i < final(self).buf().bytes.len() ==> final(self).buf().bytes[i] == 0u8,
            final(self).props().size == old(self).props().size,
            final(self).props().rotation == old(self).props().rotation,
            matches!(clear, Clear::Buffer) ==> (r is Ok && final(self).props() == old(
                self,
            ).props()),
            (r is Ok && matches!(clear, Clear::BufferAndDisplay)) ==> final(self).props().log
                == old(self).props().log + clear_packets(old(self).props().size.spec_column_offset()),
    {
        self.buffer.clear();

        if matches!(clear, Clear::BufferAndDisplay) {
            let display_size = self.properties.get_size();
            let column_offset = display_size.column_offset();

            let mut zeros: Vec<u8> = Vec::new();
            while zeros.len() < 128
                invariant
                    zeros@.len() <= 128,
                    forall|i: int| 0 <= i < zeros@.len() ==> zeros@[i] == 0u8,
                decreases 128 - zeros@.len(),
            {
                zeros.push(0);
            }
            proof {
                assert(zeros@ =~= Seq::new(128, |i: int| 0u8));
            }

            let ghost log0 = self.props().log;
            let mut i: u8 = 0;
            while i < 8
                invariant
                    i <= 8,
                    matches!(clear, Clear::BufferAndDisplay),
                    zeros@ == Seq::new(128, |k: int| 0u8),
                    column_offset == old(self).props().size.spec_column_offset(),
                    column_offset <= 2,
                    self.wf(),
                    self.buf().width == old(self).buf().width,
                    self.buf().height == old(self).buf().height,
                    self.buf().active is None,
                    forall|k: int| 0 <= k < self.buf().bytes.len() ==> self.buf().bytes[k] == 0u8,
                    self.props().size == old(self).props().size,
                    self.props().rotation == old(self).props().rotation,
                    self.props().log == log0 + clear_packets_upto(column_offset, i as nat),
                    clear_packets_upto(column_offset, 8) == clear_packets(
                        old(self).props().size.spec_column_offset(),
                    ),
                decreases 8 - i,
            {
                let ghost logp = self.props().log;
                let row: u8 = i * 8;
                self.properties.set_draw_area(
                    (column_offset, row),
                    (column_offset + 128, row + 8),
                )?;
                let r = self.properties.draw(zeros.as_slice());
                match r {
                    Ok(()) => (),
                    Err(e) => {
                        return Err(e);
                    },
                }
                proof {
                    let start = (column_offset, row);
                    let end = ((column_offset + 128) as u8, (row + 8) as u8);
                    assert(zeros@.skip(128) =~= Seq::<u8>::empty());
                    assert(zeros@.take(128) =~= zeros@);
                    let rest = draw_run(start, end, column_offset, row, Seq::<u8>::empty());
                    assert(rest.0 =~= Seq::<Packet>::empty());
                    let run = draw_run(start, end, column_offset, row, zeros@);
                    assert(run.0 =~= seq![Packet::Data(zeros@)] + addr_packets(column_offset, row));
                    assert(self.props().log =~= log0 + clear_packets_upto(
                        column_offset,
                        (i + 1) as nat,
                    ));
                }
                i += 1;
            }
        }

        Ok(())
    }

    /// Write the touched part of the buffer out to the display, one
    /// page-row at a time; a buffer with nothing touched sends nothing. On
    /// success the transport carried exactly the packets of
    /// [`flush_packets`]. The touched-area record is kept, as the buffer
    /// contents are.
    pub fn flush(&mut self) -> (r: Result<(), DI::Error>)
        requires
            old(self).wf(),
        ensures
            final(self).wf(),
            final(self).buf() == old(self).buf(),
            final(self).props().size == old(self).props().size,
            final(self).props().rotation == old(self).props().rotation,
            old(self).buf().active is None ==> (r is Ok && final(self).props() == old(
                self,
            ).props()),
            r is Ok ==> final(self).props().log == old(self).props().log + flush_packets(
                old(self).buf(),
                old(self).props().size.spec_column_offset(),
            ),
    {
        match self.buffer.active_area() {
            None => Ok(()),
            Some(a) => {
                let display_size = self.properties.get_size();
                let column_offset = display_size.column_offset();

                let p0 = a.min_y / 8;
                let p1 = a.max_y / 8;
                let ghost log0 = self.props().log;
                let ghost m0 = self.buf();
                let mut p = p0;
                while p <= p1
                    invariant
                        p0 <= p <= p1 + 1,
                        p0 == a.min_y / 8,
                        p1 == a.max_y / 8,
                        column_offset == old(self).props().size.spec_column_offset(),
                        column_offset <= 2,
                        log0 == old(self).props().log,
                        m0 == old(self).buf(),
                        self.wf(),
                        self.buf() == old(self).buf(),
                        self.buf().active == Some(a),
                        self.props().size == old(self).props().size,
                        self.props().rotation == old(self).props().rotation,
                        self.props().log == log0 + flush_pages_packets(
                            m0,
                            column_offset,
                            a,
                            (p - p0) as nat,
                        ),
                    decreases p1 + 1 - p,
                {
                    proof {
                        assert(8 * (p as int) <= 8 * (a.max_y as int / 8));
                        assert(8 * (a.max_y as int / 8) <= a.max_y as int);
                    }
                    let block = self.buffer.page_block(p, a.min_x, a.max_x);
                    let col: u8 = column_offset + a.min_x;
                    let row: u8 = p * 8;
                    self.properties.set_draw_area(
                        (col, row),
                        (col + (a.max_x - a.min_x) + 1, row + 8),
                    )?;
                    let r = self.properties.draw(block.as_slice());
                    match r {
                        Ok(()) => (),
                        Err(e) => {
                            return Err(e);
                        },
                    }
                    proof {
                        let start = (col, row);
                        let end = (((col + (a.max_x - a.min_x)) + 1) as u8, (row + 8) as u8);
                        assert(block@.len() == a.max_x - a.min_x + 1);
                        assert(block@.skip(end.0 - col) =~= Seq::<u8>::empty());
                        assert(block@.take(end.0 - col) =~= block@);
                        let rest = draw_run(start, end, col, row, Seq::<u8>::empty());
                        assert(rest.0 =~= Seq::<Packet>::empty());
                        let run = draw_run(start, end, col, row, block@);
                        assert(run.0 =~= seq![Packet::Data(block@)] + addr_packets(col, row));
                        assert(flush_pages_packets(m0, column_offset, a, (p + 1 - p0) as nat)
                            =~= flush_pages_packets(m0, column_offset, a, (p - p0) as nat)
                            + flush_page_packets(m0, column_offset, a, p as int));
                        assert(self.props().log =~= log0 + flush_pages_packets(
                            m0,
                            column_offset,
                            a,
                            (p + 1 - p0) as nat,
                        ));
                    }
                    p += 1;
                }
                Ok(())
            },
        }
    }

    /// Turn a pixel on or off. A non-zero `value` is treated as on, `0` as
    /// off. The coordinates are mapped through the current rotation; if they
    /// fall outside the panel, this method call is a noop.
    pub fn set_pixel(&mut self, x: u32, y: u32, value: u8)
        requires
            old(self).wf(),
        ensures
            final(self).wf(),
            final(self).props() == old(self).props(),
            final(self).buf() == ({
                let p = spec_rotate_coords(old(self).props().rotation, x, y);
                spec_set_pixel(old(self).buf(), p.0 as int, p.1 as int, value != 0)
            }),
    {
        let display_rotation = self.properties.get_rotation();

        let (px, py) = match display_rotation {
            DisplayRotation::Rotate0 | DisplayRotation::Rotate180 => (x, y),
            DisplayRotation::Rotate90 | DisplayRotation::Rotate270 => (y, x),
        };

        self.buffer.set_pixel(px, py, value != 0);
    }

    /// Read a pixel of the buffer back, after the same rotation mapping that
    /// `set_pixel` applies; `None` outside the panel.
    pub fn get_pixel(&self, x: u32, y: u32) -> (r: Option<bool>)
        requires
            self.wf(),
        ensures
            r == ({
                let p = spec_rotate_coords(self.props().rotation, x, y);
                if p.0 < self.buf().width && p.1 < self.buf().height {
                    Some(crate::buffer::model_pixel(self.buf(), p.0 as int, p.1 as int))
                } else {
                    None::<bool>
                }
            }),
    {
        let display_rotation = self.properties.get_rotation();

        let (px, py) = match display_rotation {
            DisplayRotation::Rotate0 | DisplayRotation::Rotate180 => (x, y),
            DisplayRotation::Rotate90 | DisplayRotation::Rotate270 => (y, x),
        };

        self.buffer.get_pixel(px, py)
    }

    /// Fill a rectangle of the buffer with one color, in buffer coordinates;
    /// bit for bit what per-pixel writes of the same rectangle would leave.
    pub fn fill_solid(&mut self, area: Rect, on: bool)
        requires
            old(self).wf(),
        ensures
            final(self).wf(),
            final(self).props() == old(self).props(),
            final(self).buf() == spec_fill(
                old(self).buf(),
                area.x as int,
                area.y as int,
                area.width as nat,
                area.height as nat,
                on,
            ),
    {
        self.buffer.fill_solid(area, on);
    }

    /// Fill a rectangle of the buffer with a row-major sequence of colors,
    /// in buffer coordinates; bit for bit what per-pixel writes of the same
    /// points in the same order would leave.
    pub fn fill_contiguous(&mut self, area: Rect, colors: &[bool])
        requires
            old(self).wf(),
        ensures
            final(self).wf(),
            final(self).props() == old(self).props(),
            final(self).buf() == spec_fill_contig(
                old(self).buf(),
                area.x as int,
                area.y as int,
                area.width as nat,
                spec_contig_count(area.width as nat, area.height as nat, colors@.len()),
                colors@,
            ),
    {
        self.buffer.fill_contiguous(area, colors);
    }

    /// Display is set up in column mode, i.e. a byte walks down a column of
    /// 8 pixels from column 0 on the left, to column _n_ on the right. On
    /// success the transport carried exactly the bring-up sequence.
    pub fn init(&mut self) -> (r: Result<(), DI::Error>)
        requires
            old(self).wf(),
        ensures
            final(self).wf(),
            final(self).buf() == old(self).buf(),
            final(self).props().size == old(self).props().size,
            final(self).props().rotation == old(self).props().rotation,
            final(self).props().area_start == old(self).props().area_start,
            final(self).props().area_end == old(self).props().area_end,
            final(self).props().col == old(self).props().col,
            final(self).props().row == old(self).props().row,
            r is Ok ==> final(self).props().log == old(self).props().log + init_packets(
                old(self).props().size,
                old(self).props().rotation,
            ),
    {
        self.properties.init_column_mode()
    }

    /// Get display dimensions, taking into account the current rotation of
    /// the display
    pub fn get_dimensions(&self) -> (r: (u8, u8))
        ensures
            r == spec_dimensions(self.props().size, self.props().rotation),
    {
        self.properties.get_dimensions()
    }

    /// Set the display rotation: stored, then announced to the controller
    /// through the two direction-control commands.
    pub fn set_rotation(&mut self, rot: DisplayRotation) -> (r: Result<(), DI::Error>)
        requires
            old(self).wf(),
        ensures
            final(self).wf(),
            final(self).buf() == old(self).buf(),
            final(self).props().size == old(self).props().size,
            final(self).props().rotation == rot,
            r is Ok ==> final(self).props().log == old(self).props().log + rotation_packets(rot),
    {
        self.properties.set_rotation(rot)
    }

    /// Set the display contrast
    pub fn set_contrast(&mut self, contrast: u8) -> (r: Result<(), DI::Error>)
        requires
            old(self).wf(),
        ensures
            final(self).wf(),
            final(self).buf() == old(self).buf(),
            final(self).props().size == old(self).props().size,
            final(self).props().rotation == old(self).props().rotation,
            r is Ok ==> final(self).props().log == old(self).props().log.push(
                Packet::Commands(
                    crate::command::spec_encode(crate::command::Command::Contrast(contrast)),
                ),
            ),
    {
        self.properties.set_contrast(contrast)
    }
}

/// Writing a pixel and reading it back through the same rotation mapping
/// gives the value written, for every point that lands within the panel
/// bounds and every rotation; every other pixel keeps its value.
pub proof fn lemma_set_pixel_readback(
    m: BufferModel,
    rot: DisplayRotation,
    x: u32,
    y: u32,
    on: bool,
)
    requires
        model_wf(m),
        spec_rotate_coords(rot, x, y).0 < m.width,
        spec_rotate_coords(rot, x, y).1 < m.height,
    ensures
        ({
            let p = spec_rotate_coords(rot, x, y);
            let m2 = spec_set_pixel(m, p.0 as int, p.1 as int, on);
            &&& crate::buffer::model_pixel(m2, p.0 as int, p.1 as int) == on
            &&& forall|i: int, j: int|
                0 <= i < m.width && 0 <= j < m.height && !(i == p.0 && j == p.1)
                    ==> crate::buffer::model_pixel(m2, i, j) == crate::buffer::model_pixel(m, i, j)
        }),
{
    let p = spec_rotate_coords(rot, x, y);
    crate::buffer::lemma_set_pixel_pixels(m, p.0 as int, p.1 as int, on);
}

/// With nothing touched, one written pixel makes the touched area exactly
/// the one-pixel rectangle at its point.
pub proof fn lemma_active_area_single(m: BufferModel, x: u32, y: u32, on: bool)
    requires
        model_wf(m),
        m.active is None,
        x < m.width,
        y < m.height,
    ensures
        spec_set_pixel(m, x as int, y as int, on).active == Some(
            ActiveArea { min_x: x as u8, min_y: y as u8, max_x: x as u8, max_y: y as u8 },
        ),
{
}

/// The packets one cleared page carries: the window address at the panel's
/// column offset, 128 zero bytes, and the address re-issued by the wrap.
pub open spec fn clear_page_packets(offset: u8, page: int) -> Seq<Packet> {
    let row = (8 * page) as u8;
    addr_packets(offset, row) + seq![Packet::Data(Seq::new(128, |i: int| 0u8))] + addr_packets(
        offset,
        row,
    )
}

/// The packets a display clear carries for its first `n` pages.
pub open spec fn clear_packets_upto(offset: u8, n: nat) -> Seq<Packet>
    decreases n,
{
    if n == 0 {
        seq![]
    } else {
        clear_packets_upto(offset, (n - 1) as nat) + clear_page_packets(offset, n - 1)
    }
}

/// Everything a display clear hands the controller: all eight pages of the
/// controller RAM, 128 zero bytes each, at the panel's column offset.
pub open spec fn clear_packets(offset: u8) -> Seq<Packet> {
    clear_packets_upto(offset, 8)
}

} // verus!
