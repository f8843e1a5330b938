//! Packed 1-bit-per-pixel framebuffer for a fixed 128x64 monochrome display,
//! and the page-addressed transfer protocol that pushes it to the display
//! controller. The buffer holds `HEIGHT / 8` pages of `WIDTH` bytes; the byte
//! at `(x, page)` stacks 8 pixels vertically, bit `y % 8` selecting the row
//! within the page. The hardware bus itself lives outside the library; it is
//! handed the exact command and data bytes that `render` lays out.

use vstd::prelude::*;

verus! {

/// Display width in pixels.
pub const WIDTH: usize = 128;

/// Display height in pixels.
pub const HEIGHT: usize = 64;

/// Number of 8-pixel-tall pages: `HEIGHT / 8`.
pub const PAGES: usize = 8;

/// Byte count of the packed buffer: `WIDTH * HEIGHT / 8`.
pub const BUFFER_LEN: usize = 1024;

/// Index of the byte that holds pixel `(x, y)`.
pub open spec fn spec_byte_index(x: int, y: int) -> int {
    x + (y / 8) * (WIDTH as int)
}

/// Whether bit `y % 8` is set in byte `b`.
pub open spec fn spec_bit_set(b: u8, y: int) -> bool {
    b >> ((y % 8) as u8) & 1u8 == 1u8
}

/// The packed framebuffer and the fixed display geometry.
pub struct Display {
    pub buffer: Vec<u8>,
}

/// One page of the wire protocol: three command bytes (page select,
/// low column address, high column address), then `WIDTH` data bytes.
pub struct PageTransfer {
    pub page_select: u8,
    pub column_low: u8,
    pub column_high: u8,
    pub data: Vec<u8>,
}

impl Display {
    /// The buffer always holds exactly one byte per 8-pixel column cell.
    pub open spec fn wf(&self) -> bool {
        self.buffer@.len() == BUFFER_LEN
    }

    /// Value of pixel `(x, y)`: bit `y % 8` of byte `x + (y / 8) * WIDTH`.
    pub open spec fn pixel(&self, x: int, y: int) -> bool {
        spec_bit_set(self.buffer@[spec_byte_index(x, y)], y)
    }

    /// A fresh, all-dark framebuffer.
    pub fn new() -> (d: Display)
        ensures
            d.wf(),
            forall|k: int| 0 <= k < BUFFER_LEN ==> d.buffer@[k] == 0u8,
    {
        let mut buffer: Vec<u8> = Vec::new();
        let mut k: usize = 0;
        while k < BUFFER_LEN
            invariant
                buffer@.len() == k,
                k <= BUFFER_LEN,
                forall|i: int| 0 <= i < k ==> buffer@[i] == 0u8,
            decreases BUFFER_LEN - k,
        {
            buffer.push(0u8);
            k = k + 1;
        }
        Display { buffer }
    }

    pub fn width(&self) -> (w: i32)
        ensures
            w == WIDTH,
    {
        128
    }

    pub fn height(&self) -> (h: i32)
        ensures
            h == HEIGHT,
    {
        64
    }

    /// Set every byte of the buffer: `0xFF` when lit, `0x00` when dark,
    /// so every pixel takes `color`.
    pub fn fill(&mut self, color: bool)
        requires
            old(self).wf(),
        ensures
            final(self).wf(),
            forall|k: int|
                0 <= k < BUFFER_LEN ==> final(self).buffer@[k] == (if color {
                    0xFFu8
                } else {
                    0x00u8
                }),
            forall|x: int, y: int|
                0 <= x < WIDTH && 0 <= y < HEIGHT ==> final(self).pixel(x, y) == color,
    {
        let byte: u8 = if color {
            0xFF
        } else {
            0x00
        };
        let mut k: usize = 0;
        while k < BUFFER_LEN
            invariant
                self.wf(),
                k <= BUFFER_LEN,
                forall|i: int| 0 <= i < k ==> self.buffer@[i] == byte,
                byte == (if color {
                    0xFFu8
                } else {
                    0x00u8
                }),
            decreases BUFFER_LEN - k,
        {
            self.buffer.set(k, byte);
            k = k + 1;
        }
        proof {
            assert forall|x: int, y: int|
                0 <= x < WIDTH && 0 <= y < HEIGHT implies self.pixel(x, y) == color by {
                lemma_byte_index_range(x, y);
                let b = self.buffer@[spec_byte_index(x, y)];
                let k = (y % 8) as u8;
                assert(k < 8);
                assert(0xFFu8 >> k & 1u8 == 1u8 && 0x00u8 >> k & 1u8 == 0u8) by (bit_vector)
                    requires
                        k < 8,
                ;
            }
        }
    }

    /// Set or clear bit `y % 8` of the byte holding `(x, y)`. Out-of-range
    /// coordinates are a caller bug: callers must clip themselves.
    pub fn draw_pixel(&mut self, x: u8, y: u8, color: bool)
        requires
            old(self).wf(),
            x < WIDTH,
            y < HEIGHT,
        ensures
            final(self).wf(),
            final(self).pixel(x as int, y as int) == color,
            forall|i: int, j: int|
                0 <= i < WIDTH && 0 <= j < HEIGHT && !(i == x && j == y)
                    ==> final(self).pixel(i, j) == old(self).pixel(i, j),
            forall|k: int|
                0 <= k < BUFFER_LEN && k != spec_byte_index(x as int, y as int)
                    ==> final(self).buffer@[k] == old(self).buffer@[k],
            !old(self).pixel(x as int, y as int) && !color ==> final(self).buffer@
                =~= old(self).buffer@,
    {
        let index: usize = x as usize + (y as usize / 8) * WIDTH;
        proof {
            lemma_byte_index_range(x as int, y as int);
        }
        let shift: u8 = y % 8;
        let b = self.buffer[index];
        let nb: u8 = if color {
            b | (1u8 << shift)
        } else {
            b & !(1u8 << shift)
        };
        self.buffer.set(index, nb);
        proof {
            let yk = shift;
            assert((b | (1u8 << yk)) >> yk & 1u8 == 1u8 && (b & !(1u8 << yk)) >> yk & 1u8 == 0u8)
                by (bit_vector)
                requires
                    yk < 8,
            ;
            assert forall|j: u8| j < 8 && j != yk implies ((b | (1u8 << yk)) >> j & 1u8 == b >> j
                & 1u8) && ((b & !(1u8 << yk)) >> j & 1u8 == b >> j & 1u8) by {
                assert(((b | (1u8 << yk)) >> j & 1u8 == b >> j & 1u8) && ((b & !(1u8 << yk)) >> j
                    & 1u8 == b >> j & 1u8)) by (bit_vector)
                    requires
                        j < 8,
                        yk < 8,
                        j != yk,
                ;
            }
            assert(!spec_bit_set(b, y as int) && !color ==> nb == b) by {
                if !spec_bit_set(b, y as int) && !color {
                    assert(b >> yk & 1u8 != 1u8 ==> (b & !(1u8 << yk)) == b) by (bit_vector)
                        requires
                            yk < 8,
                    ;
                }
            }
            assert forall|i: int, j: int|
                0 <= i < WIDTH && 0 <= j < HEIGHT && !(i == x && j == y) implies self.pixel(i, j)
                == old(self).pixel(i, j) by {
                lemma_byte_index_range(i, j);
                if spec_byte_index(i, j) == spec_byte_index(x as int, y as int) {
                    lemma_byte_index_inverse(i, j);
                    lemma_byte_index_inverse(x as int, y as int);
                    assert(i == x && j / 8 == y / 8);
                    assert(j % 8 != y as int % 8);
                }
            }
        }
    }

    /// Apply `draw_pixel` to every cell of the `w` by `h` rectangle whose
    /// top-left corner is `(x, y)`. The whole rectangle must be in range.
    pub fn draw_rect(&mut self, x: u8, y: u8, w: u8, h: u8, color: bool)
        requires
            old(self).wf(),
            x + w <= WIDTH,
            y + h <= HEIGHT,
        ensures
            final(self).wf(),
            forall|i: int, j: int|
                x <= i < x + w && y <= j < y + h ==> final(self).pixel(i, j) == color,
            forall|i: int, j: int|
                0 <= i < WIDTH && 0 <= j < HEIGHT && !(x <= i < x + w && y <= j < y + h)
                    ==> final(self).pixel(i, j) == old(self).pixel(i, j),
    {
        let mut di: u8 = 0;
        while di < w
            invariant
                self.wf(),
                di <= w,
                x + w <= WIDTH,
                y + h <= HEIGHT,
                forall|i: int, j: int|
                    x <= i < x + di && y <= j < y + h ==> self.pixel(i, j) == color,
                forall|i: int, j: int|
                    0 <= i < WIDTH && 0 <= j < HEIGHT && !(x <= i < x + di && y <= j < y + h)
                        ==> self.pixel(i, j) == old(self).pixel(i, j),
            decreases w - di,
        {
            let mut dj: u8 = 0;
            while dj < h
                invariant
                    self.wf(),
                    di < w,
                    dj <= h,
                    x + w <= WIDTH,
                    y + h <= HEIGHT,
                    forall|i: int, j: int|
                        x <= i < x + di && y <= j < y + h ==> self.pixel(i, j) == color,
                    forall|j: int| y <= j < y + dj ==> #[trigger] self.pixel(x + di, j) == color,
                    forall|i: int, j: int|
                        0 <= i < WIDTH && 0 <= j < HEIGHT && !(x <= i < x + di && y <= j < y + h)
                            && !(i == x + di && y <= j < y + dj) ==> self.pixel(i, j) == old(
                            self,
                        ).pixel(i, j),
                decreases h - dj,
            {
                self.draw_pixel(x + di, y + dj, color);
                dj = dj + 1;
            }
            di = di + 1;
        }
    }

    /// Lay out the full page-addressed transfer: for each page `p` in
    /// `0 .. HEIGHT / 8`, a page-select command `0xB0 + p`, the two column
    /// address reset commands, then the page's `WIDTH` buffer bytes in order.
    pub fn render(&self) -> (plan: Vec<PageTransfer>)
        requires
            self.wf(),
        ensures
            plan@.len() == PAGES,
            forall|p: int|
                0 <= p < PAGES ==> {
                    &&& (#[trigger] plan@[p]).page_select == 0xB0u8 + p
                    &&& plan@[p].column_low == 0x02u8
                    &&& plan@[p].column_high == 0x10u8
                    &&& plan@[p].data@ =~= self.buffer@.subrange(
                        p * WIDTH as int,
                        (p + 1) * WIDTH as int,
                    )
                },
    {
        let mut plan: Vec<PageTransfer> = Vec::new();
        let mut p: usize = 0;
        while p < PAGES
            invariant
                self.wf(),
                p <= PAGES,
                plan@.len() == p,
                forall|q: int|
                    0 <= q < p ==> {
                        &&& (#[trigger] plan@[q]).page_select == 0xB0u8 + q
                        &&& plan@[q].column_low == 0x02u8
                        &&& plan@[q].column_high == 0x10u8
                        &&& plan@[q].data@ =~= self.buffer@.subrange(
                            q * WIDTH as int,
                            (q + 1) * WIDTH as int,
                        )
                    },
            decreases PAGES - p,
        {
            let mut data: Vec<u8> = Vec::new();
            let mut i: usize = 0;
            while i < WIDTH
                invariant
                    self.wf(),
                    p < PAGES,
                    i <= WIDTH,
                    data@.len() == i,
                    forall|k: int| 0 <= k < i ==> data@[k] == self.buffer@[p * WIDTH + k],
                decreases WIDTH - i,
            {
                data.push(self.buffer[i + WIDTH * p]);
                i = i + 1;
            }
            plan.push(
                PageTransfer {
                    page_select: 0xB0 + p as u8,
                    column_low: 0x02,
                    column_high: 0x10,
                    data,
                },
            );
            p = p + 1;
        }
        plan
    }

    /// The fixed power-on command sequence sent once at startup, before the
    /// first transfer.
    pub fn init_commands() -> (cmds: Vec<u8>)
        ensures
            cmds@ =~= seq![
                0xAEu8, 0x02u8, 0x10u8, 0x40u8, 0x81u8, 0xA0u8, 0xC0u8, 0xA6u8, 0xA8u8, 0x3Fu8,
                0xD3u8, 0x00u8, 0xD5u8, 0x80u8, 0xD9u8, 0xF1u8, 0xDAu8, 0x12u8, 0xDBu8, 0x40u8,
                0x20u8, 0x02u8, 0xA4u8, 0xA6u8,
            ],
    {
        let mut cmds: Vec<u8> = Vec::new();
        cmds.push(0xAE);
        cmds.push(0x02);
        cmds.push(0x10);
        cmds.push(0x40);
        cmds.push(0x81);
        cmds.push(0xA0);
        cmds.push(0xC0);
        cmds.push(0xA6);
        cmds.push(0xA8);
        cmds.push(0x3F);
        cmds.push(0xD3);
        cmds.push(0x00);
        cmds.push(0xD5);
        cmds.push(0x80);
        cmds.push(0xD9);
        cmds.push(0xF1);
        cmds.push(0xDA);
        cmds.push(0x12);
        cmds.push(0xDB);
        cmds.push(0x40);
        cmds.push(0x20);
        cmds.push(0x02);
        cmds.push(0xA4);
        cmds.push(0xA6);
        cmds
    }

    /// The display-on command sent after the settle delay that follows the
    /// power-on sequence.
    pub fn display_on_command() -> (c: u8)
        ensures
            c == 0xAFu8,
    {
        0xAF
    }
}

/// Byte indices of in-range pixels stay inside the buffer.
pub proof fn lemma_byte_index_range(x: int, y: int)
    requires
        0 <= x < WIDTH,
        0 <= y < HEIGHT,
    ensures
        0 <= spec_byte_index(x, y) < BUFFER_LEN,
        0 <= y % 8 < 8,
{
    assert(0 <= y / 8 < 8);
}

/// The byte index determines the column and the page.
pub proof fn lemma_byte_index_inverse(x: int, y: int)
    requires
        0 <= x < WIDTH,
        0 <= y < HEIGHT,
    ensures
        spec_byte_index(x, y) % (WIDTH as int) == x,
        spec_byte_index(x, y) / (WIDTH as int) == y / 8,
{
    let p = y / 8;
    assert(0 <= p < 8);
    assert((x + p * 128) % 128 == x) by (nonlinear_arith)
        requires
            0 <= x < 128,
            0 <= p < 8,
    ;
    assert((x + p * 128) / 128 == p) by (nonlinear_arith)
        requires
            0 <= x < 128,
            0 <= p < 8,
    ;
}

/// Framebuffer round trip: lighting a dark pixel and then clearing it again
/// restores the original byte at its index. `draw_pixel` ors the mask in and
/// then ands its complement away, so this holds exactly when the pixel's bit
/// started clear; a byte whose bit was already set ends with it cleared
/// instead.
pub proof fn lemma_pixel_round_trip(b: u8, k: u8)
    requires
        k < 8,
        b >> k & 1u8 != 1u8,
    ensures
        (b | (1u8 << k)) & !(1u8 << k) == b,
{
    assert(b >> k & 1u8 != 1u8 ==> ((b | (1u8 << k)) & !(1u8 << k)) == b) by (bit_vector)
        requires
            k < 8,
    ;
}

} // verus!
