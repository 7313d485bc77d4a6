//! Packed one-bit-per-pixel framebuffer with dirty-region tracking.
//!
//! The buffer is sized to the physical panel: one byte covers a column of
//! eight vertically adjacent pixels (one page-column intersection), so the
//! byte for pixel `(x, y)` sits at index `(y / 8) * width + x` and the pixel
//! is bit `y % 8` of it. Alongside the bits the buffer keeps the bounding
//! rectangle of every pixel touched since the last clear, so a flush can
//! skip rows that never changed.

use vstd::prelude::*;
use vstd::pervasive::VecAdditionalExecFns;

verus! {

/// Whether bit `k` of `b` is set.
pub open spec fn spec_bit(b: u8, k: u8) -> bool {
    (b >> k) & 1 == 1
}

/// `b` with bit `k` set to `on`.
pub open spec fn spec_set_bit(b: u8, k: u8, on: bool) -> u8 {
    if on {
        b | (1u8 << k)
    } else {
        b & !(1u8 << k)
    }
}

/// Setting one bit changes that bit to the written value and no other.
pub proof fn lemma_set_bit(b: u8, k: u8, j: u8, on: bool)
    by (bit_vector)
    requires
        k < 8,
        j < 8,
    ensures
        spec_bit(spec_set_bit(b, k, on), j) == (if j == k {
            on
        } else {
            spec_bit(b, j)
        }),
{
}

/// `b` with bit `k` set to `on`.
fn set_bit(b: u8, k: u8, on: bool) -> (r: u8)
    requires
        k < 8,
    ensures
        r == spec_set_bit(b, k, on),
{
    if on {
        b | (1u8 << k)
    } else {
        b & !(1u8 << k)
    }
}

/// Bounding rectangle of the pixels touched since the last clear, by its
/// inclusive corners.
#[derive(Debug, Clone, Copy, PartialEq, Eq, Structural)]
pub struct ActiveArea {
    /// Leftmost touched column.
    pub min_x: u8,
    /// Topmost touched row.
    pub min_y: u8,
    /// Rightmost touched column (inclusive).
    pub max_x: u8,
    /// Bottommost touched row (inclusive).
    pub max_y: u8,
}

/// The tracked area grown to cover the point `(x, y)`.
pub open spec fn spec_expand(a: Option<ActiveArea>, x: u8, y: u8) -> Option<ActiveArea> {
    match a {
        None => Some(ActiveArea { min_x: x, min_y: y, max_x: x, max_y: y }),
        Some(r) => Some(
            ActiveArea {
                min_x: if x < r.min_x {
                    x
                } else {
                    r.min_x
                },
                min_y: if y < r.min_y {
                    y
                } else {
                    r.min_y
                },
                max_x: if x > r.max_x {
                    x
                } else {
                    r.max_x
                },
                max_y: if y > r.max_y {
                    y
                } else {
                    r.max_y
                },
            },
        ),
    }
}

/// Mathematical model of a [`PackedBuffer`]: panel dimensions, the packed
/// bytes, and the touched bounding rectangle.
pub struct BufferModel {
    /// Panel width in pixels.
    pub width: u8,
    /// Panel height in pixels.
    pub height: u8,
    /// The packed bytes, one page-column intersection each.
    pub bytes: Seq<u8>,
    /// The touched bounding rectangle, if any pixel was touched.
    pub active: Option<ActiveArea>,
}

/// Well-formedness of a buffer model: dimensions in range, byte count equal
/// to `width * height / 8`, and a tracked area that lies within the panel.
pub open spec fn model_wf(m: BufferModel) -> bool {
    &&& 1 <= m.width
    &&& 8 <= m.height
    &&& m.height % 8 == 0
    &&& m.bytes.len() == (m.width as int) * (m.height as int / 8)
    &&& match m.active {
        None => true,
        Some(a) => a.min_x <= a.max_x < m.width && a.min_y <= a.max_y < m.height,
    }
}

/// Index of the byte holding pixel `(x, y)`.
pub open spec fn byte_index(m: BufferModel, x: int, y: int) -> int {
    (y / 8) * (m.width as int) + x
}

/// The value of pixel `(x, y)` in the model.
pub open spec fn model_pixel(m: BufferModel, x: int, y: int) -> bool {
    spec_bit(m.bytes[byte_index(m, x, y)], (y % 8) as u8)
}

/// The complete effect of writing one pixel: out-of-bounds coordinates leave
/// the buffer untouched; in-bounds ones set the packed bit and grow the
/// tracked area to cover the point.
pub open spec fn spec_set_pixel(m: BufferModel, x: int, y: int, on: bool) -> BufferModel {
    if 0 <= x < m.width && 0 <= y < m.height {
        BufferModel {
            bytes: m.bytes.update(
                byte_index(m, x, y),
                spec_set_bit(m.bytes[byte_index(m, x, y)], (y % 8) as u8, on),
            ),
            active: spec_expand(m.active, x as u8, y as u8),
            ..m
        }
    } else {
        m
    }
}

/// Byte indices of distinct in-bounds pixels coincide exactly when the
/// pixels share a column and a page.
proof fn lemma_byte_index_same(m: BufferModel, x1: int, y1: int, x2: int, y2: int)
    requires
        0 <= x1 < m.width,
        0 <= x2 < m.width,
        0 <= y1,
        0 <= y2,
    ensures
        byte_index(m, x1, y1) == byte_index(m, x2, y2) <==> (x1 == x2 && y1 / 8 == y2 / 8),
{
    let w = m.width as int;
    if byte_index(m, x1, y1) == byte_index(m, x2, y2) {
        assert((y1 / 8 - y2 / 8) * w == x2 - x1) by (nonlinear_arith)
            requires
                (y1 / 8) * w + x1 == (y2 / 8) * w + x2,
        ;
        if y1 / 8 != y2 / 8 {
            assert((y1 / 8 - y2 / 8) * w >= w || (y1 / 8 - y2 / 8) * w <= -w) by (nonlinear_arith)
                requires
                    y1 / 8 != y2 / 8,
                    w >= 1,
            ;
        }
    }
}

/// Writing one pixel changes that pixel to the written value and leaves
/// every other pixel of the panel as it was.
pub proof fn lemma_set_pixel_pixels(m: BufferModel, x: int, y: int, on: bool)
    requires
        model_wf(m),
        0 <= x < m.width,
        0 <= y < m.height,
    ensures
        model_pixel(spec_set_pixel(m, x, y, on), x, y) == on,
        forall|i: int, j: int|
            0 <= i < m.width && 0 <= j < m.height && !(i == x && j == y)
                ==> model_pixel(spec_set_pixel(m, x, y, on), i, j) == model_pixel(m, i, j),
{
    let m2 = spec_set_pixel(m, x, y, on);
    lemma_byte_index_in_range(m, x, y);
    lemma_set_bit(m.bytes[byte_index(m, x, y)], (y % 8) as u8, (y % 8) as u8, on);
    assert forall|i: int, j: int|
        0 <= i < m.width && 0 <= j < m.height && !(i == x && j == y)
        implies model_pixel(m2, i, j) == model_pixel(m, i, j) by {
        lemma_byte_index_in_range(m, i, j);
        lemma_byte_index_same(m, i, j, x, y);
        if byte_index(m, i, j) == byte_index(m, x, y) {
            // Same byte: the pixels differ in their bit position.
            assert(j != y && j / 8 == y / 8);
            assert(j % 8 != y % 8) by (nonlinear_arith)
                requires
                    j != y,
                    j / 8 == y / 8,
                    0 <= j,
                    0 <= y,
            ;
            lemma_set_bit(m.bytes[byte_index(m, x, y)], (y % 8) as u8, (j % 8) as u8, on);
        }
    }
}

/// The byte index of an in-bounds pixel lies inside the byte vector.
proof fn lemma_byte_index_in_range(m: BufferModel, x: int, y: int)
    requires
        model_wf(m),
        0 <= x < m.width,
        0 <= y < m.height,
    ensures
        0 <= byte_index(m, x, y) < m.bytes.len(),
{
    let w = m.width as int;
    let pages = m.height as int / 8;
    assert(0 <= y / 8 < pages) by (nonlinear_arith)
        requires
            0 <= y < m.height,
            m.height % 8 == 0,
            pages == m.height as int / 8,
    ;
    assert((y / 8) * w + x < pages * w) by (nonlinear_arith)
        requires
            0 <= y / 8 < pages,
            0 <= x < w,
    ;
    assert((y / 8) * w >= 0) by (nonlinear_arith)
        requires
            y / 8 >= 0,
            w >= 1,
    ;
    assert(pages * w == w * pages) by (nonlinear_arith);
}

/// A rectangle given by its top-left corner and its size in pixels.
#[derive(Debug, Clone, Copy, PartialEq, Eq, Structural)]
pub struct Rect {
    /// Leftmost column of the rectangle.
    pub x: u32,
    /// Topmost row of the rectangle.
    pub y: u32,
    /// Width in pixels.
    pub width: u32,
    /// Height in pixels.
    pub height: u32,
}

/// The effect of writing one row of `nx` pixels left to right, each through
/// [`spec_set_pixel`].
pub open spec fn spec_fill_row(m: BufferModel, y: int, x0: int, nx: nat, on: bool) -> BufferModel
    decreases nx,
{
    if nx == 0 {
        m
    } else {
        spec_fill_row(spec_set_pixel(m, x0, y, on), y, x0 + 1, (nx - 1) as nat, on)
    }
}

/// The effect of filling a rectangle in row-major order, each pixel through
/// [`spec_set_pixel`].
pub open spec fn spec_fill(m: BufferModel, x0: int, y0: int, nx: nat, ny: nat, on: bool) -> BufferModel
    decreases ny,
{
    if ny == 0 {
        m
    } else {
        spec_fill(spec_fill_row(m, y0, x0, nx, on), x0, y0 + 1, nx, (ny - 1) as nat, on)
    }
}

/// The effect of writing the first `n` row-major points of a rectangle of
/// width `nx` with the first `n` entries of a color sequence, each through
/// [`spec_set_pixel`].
pub open spec fn spec_fill_contig(
    m: BufferModel,
    x0: int,
    y0: int,
    nx: nat,
    n: nat,
    colors: Seq<bool>,
) -> BufferModel
    decreases n,
{
    if n == 0 || nx == 0 {
        m
    } else {
        let k = n - 1;
        spec_set_pixel(
            spec_fill_contig(m, x0, y0, nx, (n - 1) as nat, colors),
            x0 + k % (nx as int),
            y0 + k / (nx as int),
            colors[k],
        )
    }
}

/// How many of `n` consecutive positions starting at `start` lie below
/// `limit`.
pub open spec fn clip_len(start: int, n: nat, limit: int) -> nat {
    if start >= limit {
        0
    } else if start + n > limit {
        (limit - start) as nat
    } else {
        n
    }
}

/// Writing a pixel never changes the panel dimensions.
proof fn lemma_fill_row_dims(m: BufferModel, y: int, x0: int, nx: nat, on: bool)
    ensures
        spec_fill_row(m, y, x0, nx, on).width == m.width,
        spec_fill_row(m, y, x0, nx, on).height == m.height,
    decreases nx,
{
    if nx != 0 {
        lemma_fill_row_dims(spec_set_pixel(m, x0, y, on), y, x0 + 1, (nx - 1) as nat, on);
    }
}

/// Extending a row write by one pixel appends one `spec_set_pixel` step.
proof fn lemma_fill_row_snoc(m: BufferModel, y: int, x0: int, nx: nat, on: bool)
    ensures
        spec_fill_row(m, y, x0, (nx + 1) as nat, on) == spec_set_pixel(
            spec_fill_row(m, y, x0, nx, on),
            x0 + nx,
            y,
            on,
        ),
    decreases nx,
{
    if nx == 0 {
        assert(spec_fill_row(m, y, x0, 1, on) == spec_fill_row(
            spec_set_pixel(m, x0, y, on),
            y,
            x0 + 1,
            0,
            on,
        ));
    } else {
        let m2 = spec_set_pixel(m, x0, y, on);
        lemma_fill_row_snoc(m2, y, x0 + 1, (nx - 1) as nat, on);
        assert(spec_fill_row(m, y, x0, (nx + 1) as nat, on) == spec_fill_row(
            m2,
            y,
            x0 + 1,
            ((nx - 1) + 1) as nat,
            on,
        ));
    }
}

/// Extending a rectangle write by one row appends one row write.
proof fn lemma_fill_snoc(m: BufferModel, x0: int, y0: int, nx: nat, ny: nat, on: bool)
    ensures
        spec_fill(m, x0, y0, nx, (ny + 1) as nat, on) == spec_fill_row(
            spec_fill(m, x0, y0, nx, ny, on),
            y0 + ny,
            x0,
            nx,
            on,
        ),
    decreases ny,
{
    if ny == 0 {
        assert(spec_fill(m, x0, y0, nx, 1, on) == spec_fill(
            spec_fill_row(m, y0, x0, nx, on),
            x0,
            y0 + 1,
            nx,
            0,
            on,
        ));
    } else {
        let m2 = spec_fill_row(m, y0, x0, nx, on);
        lemma_fill_snoc(m2, x0, y0 + 1, nx, (ny - 1) as nat, on);
        assert(spec_fill(m, x0, y0, nx, (ny + 1) as nat, on) == spec_fill(
            m2,
            x0,
            y0 + 1,
            nx,
            ((ny - 1) + 1) as nat,
            on,
        ));
    }
}

/// A row write beyond the panel's right edge does nothing, so a row write is
/// the write of its in-panel prefix.
proof fn lemma_fill_row_clip(m: BufferModel, y: int, x0: int, nx: nat, on: bool)
    requires
        0 <= x0,
    ensures
        spec_fill_row(m, y, x0, nx, on) == spec_fill_row(
            m,
            y,
            x0,
            clip_len(x0, nx, m.width as int),
            on,
        ),
    decreases nx,
{
    if nx != 0 {
        if x0 >= m.width {
            assert(spec_set_pixel(m, x0, y, on) == m);
            lemma_fill_row_clip(m, y, x0 + 1, (nx - 1) as nat, on);
        } else {
            lemma_fill_row_clip(spec_set_pixel(m, x0, y, on), y, x0 + 1, (nx - 1) as nat, on);
        }
    }
}

/// A row write on a row outside the panel does nothing.
proof fn lemma_fill_row_oob(m: BufferModel, y: int, x0: int, nx: nat, on: bool)
    requires
        !(0 <= y < m.height),
    ensures
        spec_fill_row(m, y, x0, nx, on) == m,
    decreases nx,
{
    if nx != 0 {
        assert(spec_set_pixel(m, x0, y, on) == m);
        lemma_fill_row_oob(m, y, x0 + 1, (nx - 1) as nat, on);
    }
}

/// A rectangle write is the write of its columns clipped to the panel.
proof fn lemma_fill_clip_cols(m: BufferModel, x0: int, y0: int, nx: nat, ny: nat, on: bool)
    requires
        0 <= x0,
    ensures
        spec_fill(m, x0, y0, nx, ny, on) == spec_fill(
            m,
            x0,
            y0,
            clip_len(x0, nx, m.width as int),
            ny,
            on,
        ),
    decreases ny,
{
    if ny != 0 {
        lemma_fill_row_clip(m, y0, x0, nx, on);
        lemma_fill_row_dims(m, y0, x0, nx, on);
        lemma_fill_clip_cols(
            spec_fill_row(m, y0, x0, nx, on),
            x0,
            y0 + 1,
            nx,
            (ny - 1) as nat,
            on,
        );
    }
}

/// A rectangle write is the write of its rows clipped to the panel.
proof fn lemma_fill_clip_rows(m: BufferModel, x0: int, y0: int, nx: nat, ny: nat, on: bool)
    requires
        0 <= y0,
    ensures
        spec_fill(m, x0, y0, nx, ny, on) == spec_fill(
            m,
            x0,
            y0,
            nx,
            clip_len(y0, ny, m.height as int),
            on,
        ),
    decreases ny,
{
    if ny != 0 {
        if y0 >= m.height {
            lemma_fill_row_oob(m, y0, x0, nx, on);
            lemma_fill_clip_rows(m, x0, y0 + 1, nx, (ny - 1) as nat, on);
        } else {
            lemma_fill_row_dims(m, y0, x0, nx, on);
            lemma_fill_clip_rows(spec_fill_row(m, y0, x0, nx, on), x0, y0 + 1, nx, (ny - 1) as nat, on);
        }
    }
}

/// Writing a pixel keeps the buffer well formed.
pub proof fn lemma_set_pixel_wf(m: BufferModel, x: int, y: int, on: bool)
    requires
        model_wf(m),
    ensures
        model_wf(spec_set_pixel(m, x, y, on)),
{
    if 0 <= x < m.width && 0 <= y < m.height {
        let m2 = spec_set_pixel(m, x, y, on);
        assert((x as u8) < m.width);
        assert((y as u8) < m.height);
        lemma_byte_index_in_range(m, x, y);
        let idx = byte_index(m, x, y);
        let nb = spec_set_bit(m.bytes[idx], (y % 8) as u8, on);
        assert(m2.bytes == m.bytes.update(idx, nb));
        assert(m.bytes.update(idx, nb).len() == m.bytes.len());
        assert(m2.active == spec_expand(m.active, x as u8, y as u8));
        match m.active {
            None => {
                assert(model_wf(m2));
            },
            Some(a) => {
                assert(model_wf(m2));
            },
        }
    }
}

/// With nothing touched, two written pixels leave the tracked area exactly
/// the rectangle they span.
pub proof fn lemma_expand_bounding(x1: u8, y1: u8, x2: u8, y2: u8)
    ensures
        spec_expand(spec_expand(None, x1, y1), x2, y2) == Some(
            ActiveArea {
                min_x: if x1 < x2 {
                    x1
                } else {
                    x2
                },
                min_y: if y1 < y2 {
                    y1
                } else {
                    y2
                },
                max_x: if x1 > x2 {
                    x1
                } else {
                    x2
                },
                max_y: if y1 > y2 {
                    y1
                } else {
                    y2
                },
            },
        ),
{
}

/// A row write turns exactly the panel pixels of its row segment to the
/// written value and leaves every other pixel as it was.
proof fn lemma_fill_row_pixels(m: BufferModel, y: int, x0: int, nx: nat, on: bool)
    requires
        model_wf(m),
        0 <= x0,
    ensures
        model_wf(spec_fill_row(m, y, x0, nx, on)),
        forall|i: int, j: int|
            0 <= i < m.width && 0 <= j < m.height ==> model_pixel(
                spec_fill_row(m, y, x0, nx, on),
                i,
                j,
            ) == (if j == y && x0 <= i < x0 + nx {
                on
            } else {
                model_pixel(m, i, j)
            }),
    decreases nx,
{
    if nx != 0 {
        let m2 = spec_set_pixel(m, x0, y, on);
        lemma_set_pixel_wf(m, x0, y, on);
        if 0 <= x0 < m.width && 0 <= y < m.height {
            lemma_set_pixel_pixels(m, x0, y, on);
        }
        lemma_fill_row_pixels(m2, y, x0 + 1, (nx - 1) as nat, on);
    }
}

/// Filling a rectangle turns exactly the panel pixels inside it to the fill
/// value and leaves every other pixel as it was: the fill is bit for bit the
/// per-pixel writes of the rectangle.
pub proof fn lemma_fill_pixels(m: BufferModel, x0: int, y0: int, nx: nat, ny: nat, on: bool)
    requires
        model_wf(m),
        0 <= x0,
        0 <= y0,
    ensures
        model_wf(spec_fill(m, x0, y0, nx, ny, on)),
        forall|i: int, j: int|
            0 <= i < m.width && 0 <= j < m.height ==> model_pixel(
                spec_fill(m, x0, y0, nx, ny, on),
                i,
                j,
            ) == (if x0 <= i < x0 + nx && y0 <= j < y0 + ny {
                on
            } else {
                model_pixel(m, i, j)
            }),
    decreases ny,
{
    if ny != 0 {
        let m2 = spec_fill_row(m, y0, x0, nx, on);
        lemma_fill_row_pixels(m, y0, x0, nx, on);
        lemma_fill_row_dims(m, y0, x0, nx, on);
        lemma_fill_pixels(m2, x0, y0 + 1, nx, (ny - 1) as nat, on);
    }
}

/// How many pixels a contiguous fill writes: one per color, but never more
/// than the rectangle holds.
pub open spec fn spec_contig_count(nx: nat, ny: nat, len: nat) -> nat {
    if len < nx * ny {
        len
    } else {
        nx * ny
    }
}

/// The bytes of one page-row between two inclusive columns: byte `i` of the
/// result is the packed byte of column `x0 + i` in the given page.
pub open spec fn spec_block(m: BufferModel, page: int, x0: int, x1: int) -> Seq<u8> {
    Seq::new((x1 - x0 + 1) as nat, |i: int| m.bytes[page * (m.width as int) + x0 + i])
}

/// Packed one-bit-per-pixel bitmap sized to the physical panel, with a
/// record of the touched bounding rectangle.
pub struct PackedBuffer {
    width: u8,
    height: u8,
    buf: Vec<u8>,
    active: Option<ActiveArea>,
}

impl View for PackedBuffer {
    type V = BufferModel;

    closed spec fn view(&self) -> BufferModel {
        BufferModel { width: self.width, height: self.height, bytes: self.buf@, active: self.active }
    }
}

impl PackedBuffer {
    /// Well-formedness of the buffer: see [`model_wf`].
    pub open spec fn wf(self) -> bool {
        model_wf(self@)
    }

    /// Create a buffer of the given panel dimensions with every pixel off
    /// and nothing touched.
    pub fn new(width: u8, height: u8) -> (r: PackedBuffer)
        requires
            1 <= width,
            8 <= height,
            height % 8 == 0,
        ensures
            r.wf(),
            r@.width == width,
            r@.height == height,
            r@.active is None,
            r@.bytes == Seq::new((width as int * (height as int / 8)) as nat, |i: int| 0u8),
    {
        proof {
            assert(height as int / 8 <= 31);
            assert((width as int) * (height as int / 8) <= 255 * 31) by (nonlinear_arith)
                requires
                    0 <= width <= 255,
                    0 <= height as int / 8 <= 31,
            ;
        }
        let n: usize = (width as usize) * (height as usize / 8);
        let mut buf: Vec<u8> = Vec::new();
        while buf.len() < n
            invariant
                buf@.len() <= n,
                forall|i: int| 0 <= i < buf@.len() ==> buf@[i] == 0u8,
            decreases n - buf@.len(),
        {
            buf.push(0);
        }
        proof {
            assert(buf@ =~= Seq::new((width as int * (height as int / 8)) as nat, |i: int| 0u8));
        }
        PackedBuffer { width, height, buf, active: None }
    }

    /// Turn a pixel on or off. Out-of-bounds coordinates are a silent no-op:
    /// drawing code is expected to clip against the panel bounds itself.
    pub fn set_pixel(&mut self, x: u32, y: u32, on: bool)
        requires
            old(self).wf(),
        ensures
            final(self).wf(),
            final(self)@ == spec_set_pixel(old(self)@, x as int, y as int, on),
    {
        if x < self.width as u32 && y < self.height as u32 {
            proof {
                lemma_byte_index_in_range(self@, x as int, y as int);
                assert(y as int / 8 <= 31);
                assert((y as int / 8) * (self.width as int) <= 31 * 255) by (nonlinear_arith)
                    requires
                        0 <= y as int / 8 <= 31,
                        0 <= self.width <= 255,
                ;
            }
            let idx: usize = (y as usize / 8) * (self.width as usize) + (x as usize);
            let b = self.buf[idx];
            let nb = set_bit(b, (y % 8) as u8, on);
            self.buf.set(idx, nb);
            let xs = x as u8;
            let ys = y as u8;
            self.active = match self.active {
                None => Some(ActiveArea { min_x: xs, min_y: ys, max_x: xs, max_y: ys }),
                Some(r) => Some(
                    ActiveArea {
                        min_x: if xs < r.min_x {
                            xs
                        } else {
                            r.min_x
                        },
                        min_y: if ys < r.min_y {
                            ys
                        } else {
                            r.min_y
                        },
                        max_x: if xs > r.max_x {
                            xs
                        } else {
                            r.max_x
                        },
                        max_y: if ys > r.max_y {
                            ys
                        } else {
                            r.max_y
                        },
                    },
                ),
            };
        }
    }

    /// Read a pixel back from the packed bytes. Out-of-bounds coordinates
    /// give `None`.
    pub fn get_pixel(&self, x: u32, y: u32) -> (r: Option<bool>)
        requires
            self.wf(),
        ensures
            r == if x < self@.width && y < self@.height {
                Some(model_pixel(self@, x as int, y as int))
            } else {
                None::<bool>
            },
    {
        if x < self.width as u32 && y < self.height as u32 {
            proof {
                lemma_byte_index_in_range(self@, x as int, y as int);
                assert(y as int / 8 <= 31);
                assert((y as int / 8) * (self.width as int) <= 31 * 255) by (nonlinear_arith)
                    requires
                        0 <= y as int / 8 <= 31,
                        0 <= self.width <= 255,
                ;
            }
            let idx: usize = (y as usize / 8) * (self.width as usize) + (x as usize);
            let b = self.buf[idx];
            Some((b >> (y % 8) as u8) & 1 == 1)
        } else {
            None
        }
    }

    /// Reset every pixel to off and the touched area to empty.
    pub fn clear(&mut self)
        requires
            old(self).wf(),
        ensures
            final(self).wf(),
            final(self)@.width == old(self)@.width,
            final(self)@.height == old(self)@.height,
            final(self)@.active is None,
            final(self)@.bytes.len() == old(self)@.bytes.len(),
            forall|i: int| 0 <= i < final(self)@.bytes.len() ==> final(self)@.bytes[i] == 0u8,
    {
        let n = self.buf.len();
        let mut i: usize = 0;
        while i < n
            invariant
                n == self.buf@.len(),
                i <= n,
                self.width == old(self)@.width,
                self.height == old(self)@.height,
                self.active == old(self)@.active,
                forall|j: int| 0 <= j < i ==> self.buf@[j] == 0u8,
            decreases n - i,
        {
            self.buf.set(i, 0);
            i += 1;
        }
        self.active = None;
    }

    /// Panel dimensions the buffer was created with.
    pub fn dimensions(&self) -> (r: (u8, u8))
        ensures
            r.0 == self@.width,
            r.1 == self@.height,
    {
        (self.width, self.height)
    }

    /// The bounding rectangle of every pixel touched since the last clear,
    /// or `None` if nothing was touched.
    pub fn active_area(&self) -> (r: Option<ActiveArea>)
        ensures
            r == self@.active,
    {
        self.active
    }

    /// Fill a rectangle with one color. The resulting state is bit for bit
    /// the state that writing every point of the rectangle through
    /// [`PackedBuffer::set_pixel`], row by row, would produce; points outside
    /// the panel are skipped, as `set_pixel` skips them.
    pub fn fill_solid(&mut self, area: Rect, on: bool)
        requires
            old(self).wf(),
        ensures
            final(self).wf(),
            final(self)@.width == old(self)@.width,
            final(self)@.height == old(self)@.height,
            final(self)@ == spec_fill(
                old(self)@,
                area.x as int,
                area.y as int,
                area.width as nat,
                area.height as nat,
                on,
            ),
    {
        let w = self.width as u32;
        let h = self.height as u32;
        let nx: u32 = if area.x >= w {
            0
        } else if area.width > w - area.x {
            w - area.x
        } else {
            area.width
        };
        let ny: u32 = if area.y >= h {
            0
        } else if area.height > h - area.y {
            h - area.y
        } else {
            area.height
        };
        proof {
            lemma_fill_clip_cols(
                self@,
                area.x as int,
                area.y as int,
                area.width as nat,
                area.height as nat,
                on,
            );
            lemma_fill_clip_rows(
                self@,
                area.x as int,
                area.y as int,
                nx as nat,
                area.height as nat,
                on,
            );
            assert(nx as nat == clip_len(area.x as int, area.width as nat, self@.width as int));
            assert(ny as nat == clip_len(area.y as int, area.height as nat, self@.height as int));
        }
        let ghost m0 = self@;
        let mut j: u32 = 0;
        while j < ny
            invariant
                self.wf(),
                j <= ny,
                self@.width == m0.width,
                self@.height == m0.height,
                area.x as int + nx as int <= m0.width as int || nx == 0,
                area.y as int + ny as int <= m0.height as int || ny == 0,
                self@ == spec_fill(m0, area.x as int, area.y as int, nx as nat, j as nat, on),
            decreases ny - j,
        {
            let y = area.y + j;
            let ghost mj = self@;
            let mut i: u32 = 0;
            while i < nx
                invariant
                    self.wf(),
                    i <= nx,
                    self@.width == m0.width,
                    self@.height == m0.height,
                    area.x as int + nx as int <= m0.width as int || nx == 0,
                    y == area.y + j,
                    self@ == spec_fill_row(mj, y as int, area.x as int, i as nat, on),
                decreases nx - i,
            {
                proof {
                    lemma_fill_row_snoc(mj, y as int, area.x as int, i as nat, on);
                }
                self.set_pixel(area.x + i, y, on);
                i += 1;
            }
            proof {
                lemma_fill_snoc(m0, area.x as int, area.y as int, nx as nat, j as nat, on);
            }
            j += 1;
        }
    }

    /// Fill a rectangle in row-major order with a sequence of colors, one
    /// pixel per entry, stopping when the colors or the rectangle's points
    /// run out. The resulting state is bit for bit the state that writing
    /// the same points through [`PackedBuffer::set_pixel`] in the same order
    /// would produce.
    pub fn fill_contiguous(&mut self, area: Rect, colors: &[bool])
        requires
            old(self).wf(),
        ensures
            final(self).wf(),
            final(self)@.width == old(self)@.width,
            final(self)@.height == old(self)@.height,
            final(self)@ == spec_fill_contig(
                old(self)@,
                area.x as int,
                area.y as int,
                area.width as nat,
                spec_contig_count(area.width as nat, area.height as nat, colors@.len()),
                colors@,
            ),
    {
        proof {
            assert((area.width as int) * (area.height as int) < 0x10000000000000000)
                by (nonlinear_arith)
                requires
                    0 <= area.width < 0x100000000,
                    0 <= area.height < 0x100000000,
            ;
        }
        let total: u64 = (area.width as u64) * (area.height as u64);
        let n: usize = if (colors.len() as u64) < total {
            colors.len()
        } else {
            total as usize
        };
        let ghost m0 = self@;
        let mut k: usize = 0;
        while k < n
            invariant
                self.wf(),
                k <= n,
                n <= colors@.len(),
                n as nat == spec_contig_count(area.width as nat, area.height as nat, colors@.len()),
                n as int <= area.width as int * area.height as int,
                self@.width == m0.width,
                self@.height == m0.height,
                self@ == spec_fill_contig(
                    m0,
                    area.x as int,
                    area.y as int,
                    area.width as nat,
                    k as nat,
                    colors@,
                ),
            decreases n - k,
        {
            proof {
                if area.width == 0 {
                    assert(area.width as int * area.height as int == 0);
                }
                assert((k as int) / (area.width as int) < area.height as int) by (nonlinear_arith)
                    requires
                        0 <= (k as int),
                        (k as int) < (area.width as int) * (area.height as int),
                        (area.width as int) >= 1,
                ;
            }
            let i: u64 = (k as u64) % (area.width as u64);
            let j: u64 = (k as u64) / (area.width as u64);
            let px: u64 = (area.x as u64) + i;
            let py: u64 = (area.y as u64) + j;
            let c = colors[k];
            if px < self.width as u64 && py < self.height as u64 {
                self.set_pixel(px as u32, py as u32, c);
            }
            k += 1;
        }
    }

    /// Copy the bytes of one page-row between two inclusive columns, as a
    /// flush sends them to the controller.
    pub fn page_block(&self, page: u8, x0: u8, x1: u8) -> (r: Vec<u8>)
        requires
            self.wf(),
            x0 <= x1 < self@.width,
            8 * (page as int) < self@.height,
        ensures
            r@ == spec_block(self@, page as int, x0 as int, x1 as int),
    {
        let count: usize = (x1 - x0) as usize + 1;
        let mut r: Vec<u8> = Vec::new();
        while r.len() < count
            invariant
                self.wf(),
                x0 <= x1 < self@.width,
                8 * (page as int) < self@.height,
                count == x1 - x0 + 1,
                r@.len() <= count,
                forall|i: int|
                    0 <= i < r@.len() ==> r@[i] == self@.bytes[(page as int) * (self@.width as int)
                        + x0 + i],
            decreases count - r@.len(),
        {
            proof {
                lemma_byte_index_in_range(self@, x0 as int + r@.len(), 8 * (page as int));
                assert(byte_index(self@, x0 as int + r@.len(), 8 * (page as int)) == (page as int)
                    * (self@.width as int) + x0 + r@.len());
                assert((page as int) * (self@.width as int) <= 31 * 255) by (nonlinear_arith)
                    requires
                        0 <= page as int <= 31,
                        0 <= self@.width <= 255,
                ;
                assert(page as int <= 31) by {
                    assert(8 * (page as int) < 256);
                }
            }
            let idx: usize = (page as usize) * (self.width as usize) + (x0 as usize) + r.len();
            let b = self.buf[idx];
            r.push(b);
        }
        proof {
            assert(r@ =~= spec_block(self@, page as int, x0 as int, x1 as int));
        }
        r
    }

    /// The touched page-rows, clipped to the touched columns, top to bottom:
    /// one vector of bytes per page-row that intersects the touched area.
    /// Empty when nothing was touched, so a flush of an untouched buffer
    /// sends nothing.
    pub fn active_blocks(&self) -> (r: Vec<Vec<u8>>)
        requires
            self.wf(),
        ensures
            match self@.active {
                None => r@.len() == 0,
                Some(a) => {
                    &&& r@.len() == a.max_y as int / 8 - a.min_y as int / 8 + 1
                    &&& forall|p: int|
                        0 <= p < r@.len() ==> r@[p]@ == spec_block(
                            self@,
                            a.min_y as int / 8 + p,
                            a.min_x as int,
                            a.max_x as int,
                        )
                },
            },
    {
        match self.active {
            None => Vec::new(),
            Some(a) => {
                let p0 = a.min_y / 8;
                let p1 = a.max_y / 8;
                let mut r: Vec<Vec<u8>> = Vec::new();
                let mut p = p0;
                while p <= p1
                    invariant
                        self.wf(),
                        self@.active == Some(a),
                        p0 == a.min_y / 8,
                        p1 == a.max_y / 8,
                        p0 <= p <= p1 + 1,
                        r@.len() == p - p0,
                        forall|q: int|
                            0 <= q < r@.len() ==> r@[q]@ == spec_block(
                                self@,
                                p0 as int + q,
                                a.min_x as int,
                                a.max_x as int,
                            ),
                    decreases p1 + 1 - p,
                {
                    proof {
                        assert(8 * (p as int) <= 8 * (a.max_y as int / 8));
                        assert(8 * (a.max_y as int / 8) <= a.max_y as int);
                    }
                    let block = self.page_block(p, a.min_x, a.max_x);
                    r.push(block);
                    p += 1;
                }
                r
            },
        }
    }
}

} // verus!