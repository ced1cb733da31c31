//! The framebuffer console's rendering state.
//!
//! The writer renders 8x8 font glyphs, doubled to 16x16 pixel cells, into
//! the bottom text row of a 640x480 pixel buffer, scrolling the whole
//! buffer up one text row on each newline. The buffer models the
//! framebuffer; the boot path points the real framebuffer at it.

use vstd::prelude::*;

use vstd::string::StringSliceAdditionalSpecFns;

verus! {

/// Width of the framebuffer in pixels.
pub const VGA_WIDTH: usize = 640;
/// Height of the framebuffer in pixels.
pub const VGA_HEIGHT: usize = 480;
/// Side of one character cell in pixels.
pub const LINE_SIZE: usize = 16;
/// Text rows on screen.
pub const BUFFER_HEIGHT: usize = VGA_HEIGHT / LINE_SIZE;
/// Text columns on screen.
pub const BUFFER_WIDTH: usize = VGA_WIDTH / LINE_SIZE;
/// The glyph drawn in place of a byte the font has no glyph for.
pub const FALLBACK_BYTE: u8 = 0x7f;

/// Index of pixel `(x, y)` in the flat framebuffer.
pub open spec fn pixel_index(x: int, y: int) -> int {
    x + VGA_WIDTH * y
}

/// Distinct on-screen coordinates have distinct flat indices.
pub proof fn lemma_pixel_index_injective(x1: int, y1: int, x2: int, y2: int)
    requires
        0 <= x1 < VGA_WIDTH,
        0 <= y1 < VGA_HEIGHT,
        0 <= x2 < VGA_WIDTH,
        0 <= y2 < VGA_HEIGHT,
        x1 != x2 || y1 != y2,
    ensures
        pixel_index(x1, y1) != pixel_index(x2, y2),
{
}

/// The 8-byte row bitmap of one of the font's 128 glyphs.
pub uninterp spec fn glyph_of(byte: u8) -> Seq<u8>;

/// Relies on font8x8's legacy glyph table: a constant array of an 8-byte
/// row bitmap for each of the 128 ASCII code points.
#[verifier::external_body]
fn basic_glyph(byte: u8) -> (r: [u8; 8])
    requires
        byte < 128,
    ensures
        r@ == glyph_of(byte),
{
    font8x8::legacy::BASIC_LEGACY[byte as usize]
}

/// The colour a glyph bitmap gives pixel `(bx, by)` of its 8x8 grid:
/// the selected row byte masked to the selected bit, spread to a pixel
/// value.
pub open spec fn glyph_pixel(g: Seq<u8>, bx: int, by: int) -> u32
    recommends
        g.len() == 8,
        0 <= bx < 8,
        0 <= by < 8,
{
    (((g[by] & (1u8 << (bx as u8))) as int) * 0xFFFFFF) as u32
}

/// Whether pixel `(x, y)` lies in the 16x16 cell of text column `col`
/// of the bottom text row.
pub open spec fn in_glyph_cell(col: int, x: int, y: int) -> bool {
    &&& LINE_SIZE * (BUFFER_HEIGHT - 1) <= y < VGA_HEIGHT
    &&& LINE_SIZE * col <= x < LINE_SIZE * (col + 1)
}

/// What pixel `(x, y)` shows after the screen scrolls up one text row:
/// the pixel one text row below, or black in the fresh bottom row.
pub open spec fn scrolled_at(b: Seq<u32>, x: int, y: int) -> u32 {
    if y < VGA_HEIGHT - LINE_SIZE {
        b[pixel_index(x, y + LINE_SIZE)]
    } else {
        0u32
    }
}

/// The byte actually rendered: printable ASCII and newlines pass
/// through, anything else becomes the fallback glyph.
pub open spec fn sanitize_byte(b: u8) -> u8 {
    if (0x20 <= b && b <= 0x7e) || b == 10 {
        b
    } else {
        FALLBACK_BYTE
    }
}

/// The whole buffer after a scroll, flat and row-major.
pub open spec fn scrolled_buffer(b: Seq<u32>) -> Seq<u32> {
    Seq::new(
        (VGA_WIDTH * VGA_HEIGHT) as nat,
        |i: int| scrolled_at(b, i % (VGA_WIDTH as int), i / (VGA_WIDTH as int)),
    )
}

/// The whole buffer after a glyph is drawn at text column `col` of the
/// bottom row.
pub open spec fn glyph_buffer(b: Seq<u32>, col: int, byte: u8) -> Seq<u32> {
    Seq::new(
        (VGA_WIDTH * VGA_HEIGHT) as nat,
        |i: int| if in_glyph_cell(col, i % (VGA_WIDTH as int), i / (VGA_WIDTH as int)) {
            glyph_pixel(
                glyph_of(byte),
                (i % (VGA_WIDTH as int) % 16) / 2,
                (i / (VGA_WIDTH as int) % 16) / 2,
            )
        } else {
            b[i]
        },
    )
}

/// The console state — cursor column and buffer — after one byte is
/// rendered: a newline scrolls; anything else draws its glyph in the
/// bottom row and advances the cursor, scrolling first when the row is
/// full.
pub open spec fn console_step(st: (int, Seq<u32>), byte: u8) -> (int, Seq<u32>) {
    let b = sanitize_byte(byte);
    if b == 10 {
        (0, scrolled_buffer(st.1))
    } else if st.0 < BUFFER_WIDTH {
        (st.0 + 1, glyph_buffer(st.1, st.0, b))
    } else {
        (1, glyph_buffer(scrolled_buffer(st.1), 0, b))
    }
}

/// The console state after a sequence of bytes is rendered.
pub open spec fn console_after_bytes(st: (int, Seq<u32>), bytes: Seq<u8>) -> (int, Seq<u32>)
    decreases bytes.len(),
{
    if bytes.len() == 0 {
        st
    } else {
        console_after_bytes(console_step(st, bytes[0]), bytes.drop_first())
    }
}

/// Rendering one more byte at the end extends the rendering of the
/// prefix by one step.
pub proof fn lemma_console_after_bytes_snoc(st: (int, Seq<u32>), bytes: Seq<u8>, byte: u8)
    ensures
        console_after_bytes(st, bytes.push(byte))
            == console_step(console_after_bytes(st, bytes), byte),
    decreases bytes.len(),
{
    if bytes.len() == 0 {
        assert(bytes.push(byte)[0] == byte);
        assert(bytes.push(byte).drop_first() =~= Seq::<u8>::empty());
        assert(console_after_bytes(console_step(st, byte), Seq::<u8>::empty())
            == console_step(st, byte));
        assert(console_after_bytes(st, bytes) == st);
    } else {
        assert(bytes.push(byte)[0] == bytes[0]);
        assert(bytes.push(byte).drop_first() =~= bytes.drop_first().push(byte));
        lemma_console_after_bytes_snoc(console_step(st, bytes[0]), bytes.drop_first(), byte);
        assert(console_after_bytes(st, bytes)
            == console_after_bytes(console_step(st, bytes[0]), bytes.drop_first()));
        assert(console_after_bytes(st, bytes.push(byte))
            == console_after_bytes(console_step(st, bytes[0]), bytes.drop_first().push(byte)));
    }
}

/// A buffer that scrolls pointwise in coordinates is the scrolled
/// buffer.
proof fn lemma_scrolled_buffer_pointwise(b: Seq<u32>, b2: Seq<u32>)
    requires
        b2.len() == VGA_WIDTH * VGA_HEIGHT,
        forall|x: int, y: int| 0 <= x < VGA_WIDTH && 0 <= y < VGA_HEIGHT
            ==> b2[#[trigger] pixel_index(x, y)] == scrolled_at(b, x, y),
    ensures
        b2 =~= scrolled_buffer(b),
{
    let w = VGA_WIDTH as int;
    assert forall|i: int| 0 <= i < VGA_WIDTH * VGA_HEIGHT
        implies b2[i] == scrolled_buffer(b)[i] by {
        let x = i % w;
        let y = i / w;
        vstd::arithmetic::div_mod::lemma_fundamental_div_mod(i, w);
        assert(0 <= y < VGA_HEIGHT) by (nonlinear_arith)
            requires 0 <= i < 307200, w == 640, y == i / w;
        assert(i == pixel_index(x, y));
        assert(b2[pixel_index(x, y)] == scrolled_at(b, x, y));
    }
}

/// A buffer whose cell holds the glyph and whose remainder holds `base`
/// pointwise in coordinates is the glyph buffer over `base`.
proof fn lemma_glyph_buffer_pointwise(base: Seq<u32>, b2: Seq<u32>, col: int, byte: u8)
    requires
        b2.len() == VGA_WIDTH * VGA_HEIGHT,
        base.len() == VGA_WIDTH * VGA_HEIGHT,
        forall|x: int, y: int| 0 <= x < VGA_WIDTH && 0 <= y < VGA_HEIGHT
            ==> b2[#[trigger] pixel_index(x, y)] == (if in_glyph_cell(col, x, y) {
                glyph_pixel(glyph_of(byte), (x % 16) / 2, (y % 16) / 2)
            } else {
                base[pixel_index(x, y)]
            }),
    ensures
        b2 =~= glyph_buffer(base, col, byte),
{
    let w = VGA_WIDTH as int;
    assert forall|i: int| 0 <= i < VGA_WIDTH * VGA_HEIGHT
        implies b2[i] == glyph_buffer(base, col, byte)[i] by {
        let x = i % w;
        let y = i / w;
        vstd::arithmetic::div_mod::lemma_fundamental_div_mod(i, w);
        assert(0 <= y < VGA_HEIGHT) by (nonlinear_arith)
            requires 0 <= i < 307200, w == 640, y == i / w;
        assert(i == pixel_index(x, y));
    }
}

/// The console renderer: a cursor column and the pixel buffer.
pub struct Writer {
    column_position: usize,
    buffer: Vec<u32>,
}

impl Writer {
    /// The cursor's text column in the bottom row.
    pub closed spec fn spec_column(self) -> usize {
        self.column_position
    }

    /// The pixel buffer, row-major.
    pub closed spec fn spec_buffer(self) -> Seq<u32> {
        self.buffer@
    }

    /// The buffer covers the screen and the cursor is on screen or just
    /// past the last column.
    pub open spec fn wf(self) -> bool {
        &&& self.spec_buffer().len() == VGA_WIDTH * VGA_HEIGHT
        &&& self.spec_column() <= BUFFER_WIDTH
    }

    /// A writer over a cleared screen.
    pub fn new() -> (r: Self)
        ensures
            r.wf(),
            r.spec_column() == 0,
            forall|i: int| 0 <= i < VGA_WIDTH * VGA_HEIGHT ==> #[trigger] r.spec_buffer()[i] == 0,
    {
        let mut buffer: Vec<u32> = Vec::new();
        let mut i: usize = 0;
        while i < VGA_WIDTH * VGA_HEIGHT
            invariant
                buffer@.len() == i,
                i <= VGA_WIDTH * VGA_HEIGHT,
                forall|k: int| 0 <= k < i ==> #[trigger] buffer@[k] == 0,
            decreases VGA_WIDTH * VGA_HEIGHT - i,
        {
            buffer.push(0);
            i = i + 1;
        }
        Writer { column_position: 0, buffer }
    }

    /// One pixel of the buffer.
    pub fn pixel(&self, x: usize, y: usize) -> (r: u32)
        requires
            self.wf(),
            x < VGA_WIDTH,
            y < VGA_HEIGHT,
        ensures
            r == self.spec_buffer()[pixel_index(x as int, y as int)],
    {
        self.buffer[x + VGA_WIDTH * y]
    }

    /// The cursor's text column.
    pub fn column(&self) -> (r: usize)
        ensures
            r == self.spec_column(),
    {
        self.column_position
    }

    /// Blacks out one text row.
    pub fn clear_row(&mut self, row: usize)
        requires
            old(self).wf(),
            row < BUFFER_HEIGHT,
        ensures
            final(self).wf(),
            final(self).spec_column() == old(self).spec_column(),
            forall|x: int, y: int| 0 <= x < VGA_WIDTH && LINE_SIZE * row <= y < LINE_SIZE * (row + 1)
                ==> final(self).spec_buffer()[#[trigger] pixel_index(x, y)] == 0,
            forall|x: int, y: int| 0 <= x < VGA_WIDTH && 0 <= y < VGA_HEIGHT
                && !(LINE_SIZE * row <= y < LINE_SIZE * (row + 1))
                ==> final(self).spec_buffer()[#[trigger] pixel_index(x, y)]
                    == old(self).spec_buffer()[pixel_index(x, y)],
    {
        let lo = VGA_WIDTH * (LINE_SIZE * row);
        let hi = VGA_WIDTH * (LINE_SIZE * (row + 1));
        let mut col = lo;
        while col < hi
            invariant
                old(self).wf(),
                self.spec_buffer().len() == VGA_WIDTH * VGA_HEIGHT,
                self.spec_column() == old(self).spec_column(),
                lo == VGA_WIDTH * (LINE_SIZE * row),
                hi == VGA_WIDTH * (LINE_SIZE * (row + 1)),
                row < BUFFER_HEIGHT,
                lo <= col <= hi,
                forall|j: int| lo <= j < col ==> #[trigger] self.spec_buffer()[j] == 0,
                forall|j: int| 0 <= j < VGA_WIDTH * VGA_HEIGHT && !(lo <= j < col)
                    ==> #[trigger] self.spec_buffer()[j] == old(self).spec_buffer()[j],
            decreases hi - col,
        {
            self.buffer.set(col, 0);
            col = col + 1;
        }
    }

    /// Scrolls the screen up one text row, blacks out the fresh bottom
    /// row, and returns the cursor to the first column.
    pub fn new_line(&mut self)
        requires
            old(self).wf(),
        ensures
            final(self).wf(),
            final(self).spec_column() == 0,
            forall|x: int, y: int| 0 <= x < VGA_WIDTH && 0 <= y < VGA_HEIGHT
                ==> final(self).spec_buffer()[#[trigger] pixel_index(x, y)]
                    == scrolled_at(old(self).spec_buffer(), x, y),
    {
        let hi = VGA_WIDTH * (VGA_HEIGHT - LINE_SIZE);
        let mut i: usize = 0;
        while i < hi
            invariant
                old(self).wf(),
                self.spec_buffer().len() == VGA_WIDTH * VGA_HEIGHT,
                self.spec_column() == old(self).spec_column(),
                hi == VGA_WIDTH * (VGA_HEIGHT - LINE_SIZE),
                0 <= i <= hi,
                forall|j: int| 0 <= j < i ==> #[trigger] self.spec_buffer()[j]
                    == old(self).spec_buffer()[j + VGA_WIDTH * LINE_SIZE],
                forall|j: int| i <= j < VGA_WIDTH * VGA_HEIGHT
                    ==> #[trigger] self.spec_buffer()[j] == old(self).spec_buffer()[j],
            decreases hi - i,
        {
            let shifted = self.buffer[i + VGA_WIDTH * LINE_SIZE];
            self.buffer.set(i, shifted);
            i = i + 1;
        }
        let ghost mid = self.spec_buffer();
        self.clear_row(BUFFER_HEIGHT - 1);
        self.column_position = 0;
        proof {
            let b0 = old(self).spec_buffer();
            assert forall|x: int, y: int| 0 <= x < VGA_WIDTH && 0 <= y < VGA_HEIGHT
                implies self.spec_buffer()[#[trigger] pixel_index(x, y)]
                    == scrolled_at(b0, x, y) by {
                if y < VGA_HEIGHT - LINE_SIZE {
                    assert(!(LINE_SIZE * (BUFFER_HEIGHT - 1) <= y < LINE_SIZE * BUFFER_HEIGHT));
                    assert(self.spec_buffer()[pixel_index(x, y)] == mid[pixel_index(x, y)]);
                    assert(pixel_index(x, y) < hi);
                    assert(mid[pixel_index(x, y)] == b0[pixel_index(x, y) + VGA_WIDTH * LINE_SIZE]);
                    assert(pixel_index(x, y) + VGA_WIDTH * LINE_SIZE == pixel_index(x, y + LINE_SIZE));
                } else {
                    assert(LINE_SIZE * (BUFFER_HEIGHT - 1) <= y < LINE_SIZE * BUFFER_HEIGHT);
                }
            }
        }
    }

    /// Renders one byte at the cursor: a newline scrolls; anything else
    /// draws the byte's font glyph (doubled to a 16x16 cell) in the
    /// bottom text row and advances the cursor, scrolling first when the
    /// row is full.
    pub fn write_byte(&mut self, byte: u8)
        requires
            old(self).wf(),
            byte == 10 || byte < 128,
        ensures
            final(self).wf(),
            byte == 10 ==> final(self).spec_column() == 0
                && (forall|x: int, y: int| 0 <= x < VGA_WIDTH && 0 <= y < VGA_HEIGHT
                    ==> final(self).spec_buffer()[#[trigger] pixel_index(x, y)]
                        == scrolled_at(old(self).spec_buffer(), x, y)),
            byte != 10 && old(self).spec_column() < BUFFER_WIDTH ==> {
                &&& final(self).spec_column() == old(self).spec_column() + 1
                &&& forall|x: int, y: int| 0 <= x < VGA_WIDTH && 0 <= y < VGA_HEIGHT
                    ==> final(self).spec_buffer()[#[trigger] pixel_index(x, y)]
                        == (if in_glyph_cell(old(self).spec_column() as int, x, y) {
                            glyph_pixel(glyph_of(byte), (x % 16) / 2, (y % 16) / 2)
                        } else {
                            old(self).spec_buffer()[pixel_index(x, y)]
                        })
            },
            byte != 10 && old(self).spec_column() >= BUFFER_WIDTH ==> {
                &&& final(self).spec_column() == 1
                &&& forall|x: int, y: int| 0 <= x < VGA_WIDTH && 0 <= y < VGA_HEIGHT
                    ==> final(self).spec_buffer()[#[trigger] pixel_index(x, y)]
                        == (if in_glyph_cell(0, x, y) {
                            glyph_pixel(glyph_of(byte), (x % 16) / 2, (y % 16) / 2)
                        } else {
                            scrolled_at(old(self).spec_buffer(), x, y)
                        })
            },
    {
        if byte == 10 {
            self.new_line();
            return;
        }
        if self.column_position >= BUFFER_WIDTH {
            self.new_line();
        }
        let ghost b0 = self.spec_buffer();
        let col = self.column_position;
        let bm = basic_glyph(byte);
        let ghost g = glyph_of(byte);

        let row = BUFFER_HEIGHT - 1;
        let y_lo = LINE_SIZE * row;
        let y_hi = LINE_SIZE * (row + 1);
        let x_lo = LINE_SIZE * col;
        let x_hi = LINE_SIZE * (col + 1);
        let mut y = y_lo;
        while y < y_hi
            invariant
                self.spec_buffer().len() == VGA_WIDTH * VGA_HEIGHT,
                self.spec_column() == col,
                col < BUFFER_WIDTH,
                bm@ == g,
                y_lo == LINE_SIZE * (BUFFER_HEIGHT - 1),
                y_hi == VGA_HEIGHT,
                x_lo == LINE_SIZE * col,
                x_hi == LINE_SIZE * (col + 1),
                y_lo <= y <= y_hi,
                forall|xx: int, yy: int| 0 <= xx < VGA_WIDTH && 0 <= yy < VGA_HEIGHT
                    && in_glyph_cell(col as int, xx, yy) && yy < y
                    ==> self.spec_buffer()[#[trigger] pixel_index(xx, yy)]
                        == glyph_pixel(g, (xx % 16) / 2, (yy % 16) / 2),
                forall|xx: int, yy: int| 0 <= xx < VGA_WIDTH && 0 <= yy < VGA_HEIGHT
                    && !(in_glyph_cell(col as int, xx, yy) && yy < y)
                    ==> self.spec_buffer()[#[trigger] pixel_index(xx, yy)]
                        == b0[pixel_index(xx, yy)],
            decreases y_hi - y,
        {
            let mut x = x_lo;
            while x < x_hi
                invariant
                    self.spec_buffer().len() == VGA_WIDTH * VGA_HEIGHT,
                    self.spec_column() == col,
                    col < BUFFER_WIDTH,
                    bm@ == g,
                    y_lo == LINE_SIZE * (BUFFER_HEIGHT - 1),
                    y_hi == VGA_HEIGHT,
                    x_lo == LINE_SIZE * col,
                    x_hi == LINE_SIZE * (col + 1),
                    y_lo <= y < y_hi,
                    x_lo <= x <= x_hi,
                    forall|xx: int, yy: int| 0 <= xx < VGA_WIDTH && 0 <= yy < VGA_HEIGHT
                        && in_glyph_cell(col as int, xx, yy) && (yy < y || (yy == y && xx < x))
                        ==> self.spec_buffer()[#[trigger] pixel_index(xx, yy)]
                            == glyph_pixel(g, (xx % 16) / 2, (yy % 16) / 2),
                    forall|xx: int, yy: int| 0 <= xx < VGA_WIDTH && 0 <= yy < VGA_HEIGHT
                        && !(in_glyph_cell(col as int, xx, yy) && (yy < y || (yy == y && xx < x)))
                        ==> self.spec_buffer()[#[trigger] pixel_index(xx, yy)]
                            == b0[pixel_index(xx, yy)],
                decreases x_hi - x,
            {
                let bm_y = y % LINE_SIZE / 2;
                let bm_x = x % LINE_SIZE / 2;
                let bit = bm[bm_y] & (1u8 << bm_x);
                let value = (bit as u32) * 0xFFFFFF;
                let idx = x + VGA_WIDTH * y;
                proof {
                    assert(idx == pixel_index(x as int, y as int));
                    assert(value == glyph_pixel(g, (x as int % 16) / 2, (y as int % 16) / 2));
                }
                self.buffer.set(idx, value);
                proof {
                    assert forall|xx: int, yy: int| 0 <= xx < VGA_WIDTH && 0 <= yy < VGA_HEIGHT
                        && (xx != x || yy != y)
                        implies #[trigger] pixel_index(xx, yy) != idx by {
                        lemma_pixel_index_injective(xx, yy, x as int, y as int);
                    }
                }
                x = x + 1;
            }
            y = y + 1;
        }
        self.column_position = col + 1;
    }

    /// Renders a string byte by byte: printable ASCII and newlines as
    /// themselves, anything else as the fallback glyph.
    pub fn write_string(&mut self, s: &str)
        requires
            old(self).wf(),
        ensures
            final(self).wf(),
            (final(self).spec_column() as int, final(self).spec_buffer())
                == console_after_bytes(
                    (old(self).spec_column() as int, old(self).spec_buffer()),
                    s.spec_bytes(),
                ),
    {
        let ghost st0 = (old(self).spec_column() as int, old(self).spec_buffer());
        let bytes = s.as_bytes();
        let mut i: usize = 0;
        while i < bytes.len()
            invariant
                self.wf(),
                i <= bytes@.len(),
                bytes@ == s.spec_bytes(),
                st0 == (old(self).spec_column() as int, old(self).spec_buffer()),
                (self.spec_column() as int, self.spec_buffer())
                    == console_after_bytes(st0, bytes@.take(i as int)),
            decreases bytes@.len() - i,
        {
            let ghost prev_col = self.spec_column() as int;
            let ghost prev_buf = self.spec_buffer();
            let byte = bytes[i];
            let rendered: u8 = if (0x20 <= byte && byte <= 0x7e) || byte == 10 {
                byte
            } else {
                FALLBACK_BYTE
            };
            proof {
                assert(rendered == sanitize_byte(byte));
            }
            self.write_byte(rendered);
            proof {
                if rendered == 10 {
                    lemma_scrolled_buffer_pointwise(prev_buf, self.spec_buffer());
                } else if prev_col < BUFFER_WIDTH {
                    lemma_glyph_buffer_pointwise(prev_buf, self.spec_buffer(), prev_col, rendered);
                } else {
                    assert forall|x: int, y: int| 0 <= x < VGA_WIDTH && 0 <= y < VGA_HEIGHT
                        implies scrolled_buffer(prev_buf)[#[trigger] pixel_index(x, y)]
                            == scrolled_at(prev_buf, x, y) by {
                        lemma_scrolled_buffer_pointwise(prev_buf, scrolled_buffer(prev_buf));
                    }
                    lemma_glyph_buffer_pointwise(
                        scrolled_buffer(prev_buf),
                        self.spec_buffer(),
                        0,
                        rendered,
                    );
                }
                assert((self.spec_column() as int, self.spec_buffer())
                    =~= console_step((prev_col, prev_buf), byte));
                assert(bytes@.take((i + 1) as int) =~= bytes@.take(i as int).push(byte));
                lemma_console_after_bytes_snoc(st0, bytes@.take(i as int), byte);
            }
            i = i + 1;
        }
        proof {
            assert(bytes@.take(i as int) =~= bytes@);
        }
    }
}

} // verus!
