//! The framebuffer: pixels held in memory, cleared, set and filled by
//! rectangle, and the text console's cursor.
pub mod font;

use vstd::prelude::*;
use font::FONT_DATA;

verus! {

/// Glyph width and height of the text console, in pixels.
pub const FONT_WIDTH: u32 = 8;
pub const FONT_HEIGHT: u32 = 8;

/// Why a drawing request was refused.
#[derive(Debug, Clone, Copy, PartialEq, Eq, Structural)]
pub enum GraphicsError {
    OutOfBounds,
    AllocationFailed,
}

/// The text of each graphics error.
pub open spec fn graphics_error_text(e: GraphicsError) -> Seq<char> {
    match e {
        GraphicsError::OutOfBounds => "Pixel coordinates out of bounds"@,
        GraphicsError::AllocationFailed => "Failed to allocate framebuffer memory"@,
    }
}

impl GraphicsError {
    pub fn message(&self) -> (s: &'static str)
        ensures
            s@ == graphics_error_text(*self),
    {
        match self {
            GraphicsError::OutOfBounds => "Pixel coordinates out of bounds",
            GraphicsError::AllocationFailed => "Failed to allocate framebuffer memory",
        }
    }
}

/// A framebuffer of `width` by `height` pixels, row after row, mapped at
/// `addr`; `pixels` holds what the screen shows.
pub struct SimpleFramebuffer {
    pixels: Vec<u32>,
    addr: usize,
    width: u32,
    height: u32,
    pitch: u32,
    size: usize,
    bpp: u32,
}

/// Whether pixel `(x, y)` lies in the rectangle from `(x0, y0)` of `w` by
/// `h` pixels, clipped to a `width` by `height` screen.
pub open spec fn in_clipped_rect(x: int, y: int, x0: int, y0: int, w: int, h: int, width: int, height: int) -> bool {
    x0 <= x < x0 + w && x < width && y0 <= y < y0 + h && y < height
}

/// Background of the startup screen: dark blue.
pub const STARTUP_BACKGROUND: u32 = 0x0000_0080;

/// The rectangles of the startup screen, drawn in order, as (x, y, width,
/// height, colour): a white border, red, green and blue samples, a black
/// terminal area with a white frame, six white blocks standing for the
/// title and a green prompt block.
pub open spec fn startup_rects() -> Seq<(u32, u32, u32, u32, u32)> {
    seq![
        (0u32, 0u32, 640u32, 10u32, 0x00FF_FFFFu32),
        (0, 470, 640, 10, 0x00FF_FFFF),
        (0, 0, 10, 480, 0x00FF_FFFF),
        (630, 0, 10, 480, 0x00FF_FFFF),
        (50, 50, 100, 50, 0x00FF_0000),
        (200, 50, 100, 50, 0x0000_FF00),
        (350, 50, 100, 50, 0x0000_00FF),
        (20, 150, 600, 300, 0x0000_0000),
        (20, 150, 600, 2, 0x00FF_FFFF),
        (20, 448, 600, 2, 0x00FF_FFFF),
        (20, 150, 2, 300, 0x00FF_FFFF),
        (618, 150, 2, 300, 0x00FF_FFFF),
        (30, 160, 8, 12, 0x00FF_FFFF),
        (45, 160, 8, 12, 0x00FF_FFFF),
        (60, 160, 8, 12, 0x00FF_FFFF),
        (75, 160, 8, 12, 0x00FF_FFFF),
        (90, 160, 8, 12, 0x00FF_FFFF),
        (105, 160, 8, 12, 0x00FF_FFFF),
        (30, 400, 8, 12, 0x0000_FF00),
    ]
}

/// Whether `(x, y)` lies in rectangle `r` (x, y, width, height, colour).
pub open spec fn in_rect(r: (u32, u32, u32, u32, u32), x: int, y: int) -> bool {
    r.0 <= x < r.0 + r.2 && r.1 <= y < r.1 + r.3
}

/// The colour of `(x, y)` after the first `n` rectangles of `rs` are drawn
/// over the startup background: that of the last one holding it.
pub open spec fn painted(rs: Seq<(u32, u32, u32, u32, u32)>, n: int, x: int, y: int) -> u32
    decreases n,
{
    if n <= 0 {
        STARTUP_BACKGROUND
    } else if in_rect(rs[n - 1], x, y) {
        rs[n - 1].4
    } else {
        painted(rs, n - 1, x, y)
    }
}

impl SimpleFramebuffer {
    pub closed spec fn spec_width(&self) -> u32 { self.width }
    pub closed spec fn spec_height(&self) -> u32 { self.height }
    pub closed spec fn spec_addr(&self) -> usize { self.addr }
    pub closed spec fn spec_size(&self) -> usize { self.size }
    pub closed spec fn spec_bpp(&self) -> u32 { self.bpp }
    /// Bytes per row.
    pub closed spec fn spec_pitch(&self) -> u32 { self.pitch }

    /// The screen's pixels, row after row.
    pub closed spec fn view(&self) -> Seq<u32> {
        self.pixels@
    }

    /// The pixel at `(x, y)`.
    pub open spec fn pixel(&self, x: int, y: int) -> u32 {
        self@[y * self.spec_width() + x]
    }

    pub open spec fn wf(&self) -> bool {
        &&& self@.len() == self.spec_width() * self.spec_height()
        &&& self.spec_width() * self.spec_height() <= usize::MAX
    }

    /// A framebuffer of the given geometry in the memory `mapped` gave (the
    /// mapping of `width * height * bpp / 8` bytes); its pixels start black.
    pub fn new(width: u32, height: u32, bpp: u32, mapped: Result<usize, ()>) -> (r: Result<Self, GraphicsError>)
        requires
            width * height <= u32::MAX,
            width * height * (bpp / 8) <= u32::MAX,
        ensures
            mapped is Err ==> r == Err::<Self, GraphicsError>(GraphicsError::AllocationFailed),
            mapped matches Ok(a) ==> (r matches Ok(fb) && {
                &&& fb.wf()
                &&& fb.spec_width() == width
                &&& fb.spec_height() == height
                &&& fb.spec_addr() == a
                &&& fb.spec_size() == width * height * (bpp / 8)
                &&& fb.spec_bpp() == bpp
                &&& height > 0 ==> fb.spec_pitch() == width * (bpp / 8)
                &&& forall|i: int| 0 <= i < fb@.len() ==> fb@[i] == 0
            }),
    {
        let addr = match mapped {
            Ok(a) => a,
            Err(_) => {
                return Err(GraphicsError::AllocationFailed);
            },
        };
        let bytes_per_pixel = bpp / 8;
        proof {
            assert(width * bytes_per_pixel <= width * height * bytes_per_pixel || height == 0) by (nonlinear_arith)
                requires
                    bytes_per_pixel >= 0,
                    width >= 0,
                    height >= 0,
            ;
        }
        let pitch = if height == 0 { width.wrapping_mul(bytes_per_pixel) } else { width * bytes_per_pixel };
        let size = (width * height * bytes_per_pixel) as usize;
        let count = width as usize * height as usize;
        let mut pixels: Vec<u32> = Vec::new();
        while pixels.len() < count
            invariant
                pixels@.len() <= count,
                forall|i: int| 0 <= i < pixels@.len() ==> pixels@[i] == 0,
            decreases count - pixels@.len(),
        {
            pixels.push(0);
        }
        Ok(SimpleFramebuffer { pixels, addr, width, height, pitch, size, bpp })
    }

    /// Paints every pixel `color`.
    pub fn clear(&mut self, color: u32)
        requires
            old(self).wf(),
        ensures
            final(self).wf(),
            final(self).spec_width() == old(self).spec_width(),
            final(self).spec_height() == old(self).spec_height(),
            final(self).spec_addr() == old(self).spec_addr(),
            final(self).spec_size() == old(self).spec_size(),
            final(self).spec_bpp() == old(self).spec_bpp(),
            final(self)@.len() == old(self)@.len(),
            forall|i: int| 0 <= i < final(self)@.len() ==> final(self)@[i] == color,
            forall|px: int, py: int| 0 <= px < old(self).spec_width() && 0 <= py < old(self).spec_height()
                ==> #[trigger] final(self).pixel(px, py) == color,
    {
        let n = self.pixels.len();
        let mut i: usize = 0;
        while i < n
            invariant
                n == self.pixels@.len(),
                self.pixels@.len() == old(self).pixels@.len(),
                self.width == old(self).width,
                self.height == old(self).height,
                self.addr == old(self).addr,
                self.size == old(self).size,
                self.bpp == old(self).bpp,
                i <= n,
                forall|k: int| 0 <= k < i ==> self.pixels@[k] == color,
            decreases n - i,
        {
            self.pixels.set(i, color);
            i = i + 1;
        }
        proof {
            let w = self.width as int;
            let h = self.height as int;
            assert forall|px: int, py: int| 0 <= px < w && 0 <= py < h implies #[trigger] self.pixel(px, py) == color by {
                lemma_index_in_screen(px, py, w, h);
            }
        }
    }

    /// Paints pixel `(x, y)`; a pixel off the screen is refused.
    pub fn set_pixel(&mut self, x: u32, y: u32, color: u32) -> (r: Result<(), GraphicsError>)
        requires
            old(self).wf(),
        ensures
            final(self).wf(),
            final(self).spec_width() == old(self).spec_width(),
            final(self).spec_height() == old(self).spec_height(),
            final(self).spec_addr() == old(self).spec_addr(),
            final(self).spec_size() == old(self).spec_size(),
            final(self).spec_bpp() == old(self).spec_bpp(),
            x >= old(self).spec_width() || y >= old(self).spec_height() ==> r == Err::<(), GraphicsError>(GraphicsError::OutOfBounds)
                && final(self)@ == old(self)@,
            x < old(self).spec_width() && y < old(self).spec_height() ==> r is Ok
                && final(self)@ == old(self)@.update(y * old(self).spec_width() + x, color),
            x < old(self).spec_width() && y < old(self).spec_height() ==> forall|px: int, py: int|
                0 <= px < old(self).spec_width() && 0 <= py < old(self).spec_height() ==> #[trigger] final(self).pixel(px, py)
                    == if px == x && py == y {
                    color
                } else {
                    old(self).pixel(px, py)
                },
    {
        if x >= self.width || y >= self.height {
            return Err(GraphicsError::OutOfBounds);
        }
        let ghost before = *self;
        proof {
            assert(y * self.width + x < self.width * self.height) by (nonlinear_arith)
                requires
                    x < self.width,
                    y < self.height,
            ;
        }
        let offset = y as usize * self.width as usize + x as usize;
        self.pixels.set(offset, color);
        proof {
            let w = self.width as int;
            let h = self.height as int;
            assert forall|px: int, py: int| 0 <= px < w && 0 <= py < h implies #[trigger] self.pixel(px, py) == if px
                == x && py == y {
                color
            } else {
                before.pixel(px, py)
            } by {
                lemma_index_in_screen(px, py, w, h);
                lemma_index_distinct(px, py, x as int, y as int, w, h);
            }
        }
        Ok(())
    }

    /// Fills the rectangle from `(x, y)` of `width` by `height` pixels,
    /// clipped to the screen; a corner off the screen is refused.
    pub fn draw_rect(&mut self, x: u32, y: u32, width: u32, height: u32, color: u32) -> (r: Result<(), GraphicsError>)
        requires
            old(self).wf(),
            x + width <= u32::MAX,
            y + height <= u32::MAX,
        ensures
            final(self).wf(),
            final(self).spec_width() == old(self).spec_width(),
            final(self).spec_height() == old(self).spec_height(),
            final(self).spec_addr() == old(self).spec_addr(),
            final(self).spec_size() == old(self).spec_size(),
            final(self).spec_bpp() == old(self).spec_bpp(),
            x >= old(self).spec_width() || y >= old(self).spec_height() ==> r == Err::<(), GraphicsError>(GraphicsError::OutOfBounds)
                && final(self)@ == old(self)@,
            x < old(self).spec_width() && y < old(self).spec_height() ==> r is Ok && forall|px: int, py: int|
                0 <= px < old(self).spec_width() && 0 <= py < old(self).spec_height() ==> #[trigger] final(self).pixel(px, py) == if in_clipped_rect(
                    px, py, x as int, y as int, width as int, height as int, old(self).spec_width() as int, old(self).spec_height() as int) {
                    color
                } else {
                    old(self).pixel(px, py)
                },
    {
        if x >= self.width || y >= self.height {
            return Err(FramebufferRect::out_of_bounds());
        }
        let end_x = if x + width < self.width { x + width } else { self.width };
        let end_y = if y + height < self.height { y + height } else { self.height };
        let ghost w = self.width as int;
        let ghost h = self.height as int;
        let mut row = y;
        while row < end_y
            invariant
                self.wf(),
                self.width == w,
                self.height == h,
                self.addr == old(self).addr,
                self.size == old(self).size,
                self.bpp == old(self).bpp,
                self.pixels@.len() == old(self).pixels@.len(),
                y <= row <= end_y,
                end_y <= h,
                end_x <= w,
                x < w,
                end_x == (if x + width < w { x + width } else { w }),
                end_y == (if y + height < h { y + height } else { h }),
                forall|px: int, py: int| 0 <= px < w && 0 <= py < h ==> #[trigger] self.pixel(px, py) == if x <= px < end_x && y <= py < row {
                    color
                } else {
                    old(self).pixel(px, py)
                },
            decreases end_y - row,
        {
            let mut col = x;
            while col < end_x
                invariant
                    self.wf(),
                    self.width == w,
                    self.height == h,
                    self.addr == old(self).addr,
                    self.size == old(self).size,
                    self.bpp == old(self).bpp,
                self.size == old(self).size,
                self.bpp == old(self).bpp,
                    self.pixels@.len() == old(self).pixels@.len(),
                    y <= row < end_y,
                    end_y <= h,
                    end_x <= w,
                    x <= col <= end_x,
                    forall|px: int, py: int| 0 <= px < w && 0 <= py < h ==> #[trigger] self.pixel(px, py) == if (x <= px < end_x && y <= py < row) || (x <= px < col && py == row) {
                        color
                    } else {
                        old(self).pixel(px, py)
                    },
                decreases end_x - col,
            {
                let ghost before = self.pixels@;
                let ghost before_fb = *self;
                proof {
                    assert(row * w + col < w * h) by (nonlinear_arith)
                        requires
                            col < w,
                            row < h,
                    ;
                }
                let _ = self.set_pixel(col, row, color);
                proof {
                    assert(self@ == before.update(row * w + col, color));
                    assert forall|px: int, py: int| 0 <= px < w && 0 <= py < h implies #[trigger] self.pixel(px, py) == if (x <= px < end_x && y <= py < row) || (x <= px < col + 1 && py == row) {
                        color
                    } else {
                        old(self).pixel(px, py)
                    } by {
                        lemma_index_distinct(px, py, col as int, row as int, w, h);
                        assert(before_fb.pixel(px, py) == before[py * w + px]);
                        assert(self.pixel(px, py) == self@[py * w + px]);
                        assert(py * w + px < w * h) by (nonlinear_arith)
                            requires
                                0 <= px < w,
                                0 <= py < h,
                        ;
                        assert(0 <= py * w + px) by (nonlinear_arith)
                            requires
                                0 <= px,
                                0 <= py,
                                w >= 0,
                        ;
                        if px != col || py != row {
                            assert(row * w + col != py * w + px);
                            assert(self@[py * w + px] == before[py * w + px]);
                        }
                    }
                }
                col = col + 1;
            }
            row = row + 1;
        }
        Ok(())
    }

    /// Draws the startup screen on a 640 by 480 screen: the background,
    /// then the rectangles of `startup_rects` in order.
    pub fn draw_startup_screen(&mut self)
        requires
            old(self).wf(),
            old(self).spec_width() == 640,
            old(self).spec_height() == 480,
        ensures
            final(self).wf(),
            final(self).spec_width() == 640,
            final(self).spec_height() == 480,
            final(self).spec_addr() == old(self).spec_addr(),
            final(self).spec_size() == old(self).spec_size(),
            final(self).spec_bpp() == old(self).spec_bpp(),
            forall|px: int, py: int| 0 <= px < 640 && 0 <= py < 480
                ==> #[trigger] final(self).pixel(px, py) == painted(startup_rects(), startup_rects().len() as int, px, py),
    {
        let rects: [(u32, u32, u32, u32, u32); 19] = [
            (0, 0, 640, 10, 0x00FF_FFFF),
            (0, 470, 640, 10, 0x00FF_FFFF),
            (0, 0, 10, 480, 0x00FF_FFFF),
            (630, 0, 10, 480, 0x00FF_FFFF),
            (50, 50, 100, 50, 0x00FF_0000),
            (200, 50, 100, 50, 0x0000_FF00),
            (350, 50, 100, 50, 0x0000_00FF),
            (20, 150, 600, 300, 0x0000_0000),
            (20, 150, 600, 2, 0x00FF_FFFF),
            (20, 448, 600, 2, 0x00FF_FFFF),
            (20, 150, 2, 300, 0x00FF_FFFF),
            (618, 150, 2, 300, 0x00FF_FFFF),
            (30, 160, 8, 12, 0x00FF_FFFF),
            (45, 160, 8, 12, 0x00FF_FFFF),
            (60, 160, 8, 12, 0x00FF_FFFF),
            (75, 160, 8, 12, 0x00FF_FFFF),
            (90, 160, 8, 12, 0x00FF_FFFF),
            (105, 160, 8, 12, 0x00FF_FFFF),
            (30, 400, 8, 12, 0x0000_FF00),
        ];
        assert(rects@ =~= startup_rects());
        self.clear(STARTUP_BACKGROUND);
        let mut i: usize = 0;
        while i < 19
            invariant
                rects@ == startup_rects(),
                i <= 19,
                self.wf(),
                self.spec_width() == 640,
                self.spec_height() == 480,
                self.spec_addr() == old(self).spec_addr(),
                self.spec_size() == old(self).spec_size(),
                self.spec_bpp() == old(self).spec_bpp(),
                forall|px: int, py: int| 0 <= px < 640 && 0 <= py < 480
                    ==> #[trigger] self.pixel(px, py) == painted(startup_rects(), i as int, px, py),
            decreases 19 - i,
        {
            let (x, y, w, h, color) = rects[i];
            let _ = self.draw_rect(x, y, w, h, color);
            i = i + 1;
        }
    }

    /// The framebuffer's address and size in bytes.
    pub fn get_framebuffer_info(&self) -> (r: (usize, usize))
        ensures
            r == (self.spec_addr(), self.spec_size()),
    {
        (self.addr, self.size)
    }

    /// Bits per pixel.
    pub fn bpp(&self) -> (b: u32)
        ensures
            b == self.spec_bpp(),
    {
        self.bpp
    }

    pub fn get_dimensions(&self) -> (r: (u32, u32))
        ensures
            r == (self.spec_width(), self.spec_height()),
    {
        (self.width, self.height)
    }

    /// The pixel at `(x, y)`, if on the screen.
    pub fn get_pixel(&self, x: u32, y: u32) -> (r: Option<u32>)
        requires
            self.wf(),
        ensures
            x < self.spec_width() && y < self.spec_height() ==> r == Some(self.pixel(x as int, y as int)),
            x >= self.spec_width() || y >= self.spec_height() ==> r is None,
    {
        if x >= self.width || y >= self.height {
            return None;
        }
        proof {
            assert(y * self.width + x < self.width * self.height) by (nonlinear_arith)
                requires
                    x < self.width,
                    y < self.height,
            ;
        }
        Some(self.pixels[y as usize * self.width as usize + x as usize])
    }
}

/// Whether bit `col` (from the left) of row `row` of the glyph at `off` in
/// `font` is set.
pub open spec fn glyph_bit(font: Seq<u8>, off: int, row: int, col: int) -> bool {
    font[off + row] & (0x80u8 >> (col as u8)) != 0
}

/// Whether on-screen pixel `(px, py)` is painted by the glyph at `off` of
/// `font` drawn at `(x, y)`: it lies in the glyph's 8 by 8 box and its bit
/// is set.
pub open spec fn glyph_covers(font: Seq<u8>, off: int, x: int, y: int, px: int, py: int) -> bool {
    x <= px < x + 8 && y <= py < y + 8 && glyph_bit(font, off, py - y, px - x)
}

impl SimpleFramebuffer {
    /// Paints the set bits of the 8 by 8 glyph at `off` in `font` with its
    /// top left corner at `(x, y)`, one byte per row, leftmost pixel in the
    /// top bit; clear bits and pixels off the screen are left alone.
    pub fn draw_glyph(&mut self, font: &[u8], off: usize, x: u32, y: u32, color: u32)
        requires
            old(self).wf(),
            off + 8 <= font@.len(),
            x + 8 <= u32::MAX,
            y + 8 <= u32::MAX,
        ensures
            final(self).wf(),
            final(self).spec_width() == old(self).spec_width(),
            final(self).spec_height() == old(self).spec_height(),
            final(self).spec_addr() == old(self).spec_addr(),
            final(self).spec_size() == old(self).spec_size(),
            final(self).spec_bpp() == old(self).spec_bpp(),
            forall|px: int, py: int| 0 <= px < old(self).spec_width() && 0 <= py < old(self).spec_height()
                ==> #[trigger] final(self).pixel(px, py) == if glyph_covers(font@, off as int, x as int, y as int, px, py) {
                color
            } else {
                old(self).pixel(px, py)
            },
    {
        let ghost w = self.spec_width() as int;
        let ghost h = self.spec_height() as int;
        let _n = font.len();
        let mut k: u32 = 0;
        while k < 64
            invariant
                self.wf(),
                self.spec_width() == w,
                self.spec_height() == h,
                self.spec_addr() == old(self).spec_addr(),
                self.spec_size() == old(self).spec_size(),
                self.spec_bpp() == old(self).spec_bpp(),
                w == old(self).spec_width(),
                h == old(self).spec_height(),
                off + 8 <= font@.len(),
                _n == font@.len(),
                x + 8 <= u32::MAX,
                y + 8 <= u32::MAX,
                k <= 64,
                forall|px: int, py: int| 0 <= px < w && 0 <= py < h ==> #[trigger] self.pixel(px, py) == if glyph_covers(
                    font@,
                    off as int,
                    x as int,
                    y as int,
                    px,
                    py,
                ) && (py - y) * 8 + (px - x) < k {
                    color
                } else {
                    old(self).pixel(px, py)
                },
            decreases 64 - k,
        {
            let row = k / 8;
            let col = k % 8;
            let bits = font[off + row as usize];
            let ghost before = *self;
            if bits & (0x80u8 >> col) != 0 {
                let px = x + col;
                let py = y + row;
                if px < self.width && py < self.height {
                    self.set_pixel(px, py, color).unwrap();
                }
            }
            assert forall|qx: int, qy: int| 0 <= qx < w && 0 <= qy < h implies #[trigger] self.pixel(qx, qy) == if glyph_covers(
                font@,
                off as int,
                x as int,
                y as int,
                qx,
                qy,
            ) && (qy - y) * 8 + (qx - x) < k + 1 {
                color
            } else {
                old(self).pixel(qx, qy)
            } by {
                assert(before.pixel(qx, qy) == if glyph_covers(font@, off as int, x as int, y as int, qx, qy) && (qy - y) * 8
                    + (qx - x) < k {
                    color
                } else {
                    old(self).pixel(qx, qy)
                });
                if glyph_covers(font@, off as int, x as int, y as int, qx, qy) && (qy - y) * 8 + (qx - x) == k {
                    assert(qy - y == row && qx - x == col);
                }
                if qx == x + col && qy == y + row {
                    assert((qy - y) * 8 + (qx - x) == k);
                }
            }
            k = k + 1;
        }
    }

    /// Moves the text of a 640 by 480 screen up by one 8-pixel line, the
    /// bottom line becoming `bg`.
    pub fn scroll_text_up(&mut self, bg: u32)
        requires
            old(self).wf(),
            old(self).spec_width() == 640,
            old(self).spec_height() == 480,
        ensures
            final(self).wf(),
            final(self).spec_width() == 640,
            final(self).spec_height() == 480,
            final(self).spec_addr() == old(self).spec_addr(),
            final(self).spec_size() == old(self).spec_size(),
            final(self).spec_bpp() == old(self).spec_bpp(),
            forall|px: int, py: int| 0 <= px < 640 && 0 <= py < 480 ==> #[trigger] final(self).pixel(px, py) == if py < 472 {
                old(self).pixel(px, py + 8)
            } else {
                bg
            },
    {
        let n = self.pixels.len();
        let mut i: usize = 0;
        while i < 302080
            invariant
                n == self.pixels@.len(),
                n == 307200,
                self.width == old(self).width,
                self.height == old(self).height,
                self.addr == old(self).addr,
                self.size == old(self).size,
                self.bpp == old(self).bpp,
                self.width == 640,
                self.height == 480,
                i <= 302080,
                forall|j: int| 0 <= j < i ==> self.pixels@[j] == old(self).pixels@[j + 5120],
                forall|j: int| i <= j < n ==> self.pixels@[j] == old(self).pixels@[j],
            decreases 302080 - i,
        {
            let v = self.pixels[i + 5120];
            self.pixels.set(i, v);
            i = i + 1;
        }
        while i < n
            invariant
                n == self.pixels@.len(),
                n == 307200,
                self.width == old(self).width,
                self.height == old(self).height,
                self.addr == old(self).addr,
                self.size == old(self).size,
                self.bpp == old(self).bpp,
                self.width == 640,
                self.height == 480,
                302080 <= i <= n,
                forall|j: int| 0 <= j < 302080 ==> self.pixels@[j] == old(self).pixels@[j + 5120],
                forall|j: int| 302080 <= j < i ==> self.pixels@[j] == bg,
            decreases n - i,
        {
            self.pixels.set(i, bg);
            i = i + 1;
        }
        assert forall|px: int, py: int| 0 <= px < 640 && 0 <= py < 480 implies #[trigger] self.pixel(px, py) == if py < 472 {
            old(self).pixel(px, py + 8)
        } else {
            bg
        } by {
            assert(py * 640 + px == py * 640 + px);
            if py < 472 {
                assert((py + 8) * 640 + px == py * 640 + px + 5120);
            }
        }
    }
}

/// What printing one character asks of the screen.
#[derive(Debug, Clone, Copy)]
pub struct ConsoleStep {
    /// The text moved up one line first.
    pub scrolled: bool,
    /// The glyph goes at this pixel position.
    pub draw_at: Option<(u32, u32)>,
}

/// The text console's cursor on an 80 by 60 character screen.
#[derive(Debug, Clone, Copy, PartialEq, Eq, Structural)]
pub struct TextConsole {
    pub cursor_x: u32,
    pub cursor_y: u32,
    pub max_cols: u32,
    pub max_rows: u32,
    pub fg_color: u32,
    pub bg_color: u32,
}

/// The cursor after moving to the start of the next line: the screen
/// scrolls when that line is past the last one.
pub open spec fn next_line(c: TextConsole) -> (TextConsole, bool) {
    if c.cursor_y + 1 >= c.max_rows {
        (TextConsole { cursor_x: 0, cursor_y: (c.max_rows - 1) as u32, ..c }, true)
    } else {
        (TextConsole { cursor_x: 0, cursor_y: (c.cursor_y + 1) as u32, ..c }, false)
    }
}

/// Whether `ch` has a glyph.
pub open spec fn printable(ch: char) -> bool {
    ' ' <= ch && ch <= '~'
}

/// The console after printing `ch`, and what the screen is asked to do.
pub open spec fn print_step(c: TextConsole, ch: char) -> (TextConsole, ConsoleStep) {
    if ch == '\n' {
        let (c2, s) = next_line(c);
        (c2, ConsoleStep { scrolled: s, draw_at: None })
    } else if ch == '\r' {
        (TextConsole { cursor_x: 0, ..c }, ConsoleStep { scrolled: false, draw_at: None })
    } else if ch == '\t' {
        let x = ((c.cursor_x + 8) / 8) * 8;
        if x >= c.max_cols {
            let (c2, s) = next_line(c);
            (c2, ConsoleStep { scrolled: s, draw_at: None })
        } else {
            (TextConsole { cursor_x: x as u32, ..c }, ConsoleStep { scrolled: false, draw_at: None })
        }
    } else {
        let (c1, s) = if c.cursor_x >= c.max_cols { next_line(c) } else { (c, false) };
        (
            TextConsole { cursor_x: (c1.cursor_x + 1) as u32, ..c1 },
            ConsoleStep {
                scrolled: s,
                draw_at: if printable(ch) {
                    Some(((c1.cursor_x * FONT_WIDTH) as u32, (c1.cursor_y * FONT_HEIGHT) as u32))
                } else {
                    None
                },
            },
        )
    }
}

/// A carriage return moves the cursor to the start of its row and does
/// nothing else: the row, the colours and the screen stay, nothing scrolls
/// and nothing is drawn. A carriage return then a line feed leaves the
/// cursor at the start of the next row (the last row staying last).
pub proof fn law_carriage_return(c: TextConsole)
    requires
        c.wf(),
    ensures
        print_step(c, '\r').0.cursor_x == 0,
        print_step(c, '\r').0.cursor_y == c.cursor_y,
        print_step(c, '\r').0.max_cols == c.max_cols,
        print_step(c, '\r').0.max_rows == c.max_rows,
        print_step(c, '\r').0.fg_color == c.fg_color,
        print_step(c, '\r').0.bg_color == c.bg_color,
        !print_step(c, '\r').1.scrolled,
        print_step(c, '\r').1.draw_at is None,
        ({
            let c2 = print_step(print_step(c, '\r').0, '\n').0;
            &&& c2.cursor_x == 0
            &&& c2.cursor_y == if c.cursor_y + 1 < 60 { c.cursor_y + 1 } else { 59 }
        }),
{
}

/// A line feed moves the cursor to the start of the next row, scrolling
/// (and staying on the last row) only from the last row; nothing is drawn.
/// A printable character other than those is drawn at the cursor, 8 by 8
/// pixels per cell, and the cursor moves one column right (wrapping to the
/// next row first when the row is full).
pub proof fn law_line_feed_and_glyphs(c: TextConsole, ch: char)
    requires
        c.wf(),
    ensures
        print_step(c, '\n').0.cursor_x == 0,
        c.cursor_y + 1 < 60 ==> print_step(c, '\n').0.cursor_y == c.cursor_y + 1 && !print_step(c, '\n').1.scrolled,
        c.cursor_y + 1 >= 60 ==> print_step(c, '\n').0.cursor_y == 59 && print_step(c, '\n').1.scrolled,
        print_step(c, '\n').1.draw_at is None,
        ' ' <= ch <= '~' && c.cursor_x < 80 ==> {
            &&& print_step(c, ch).0.cursor_x == c.cursor_x + 1
            &&& print_step(c, ch).0.cursor_y == c.cursor_y
            &&& print_step(c, ch).1.draw_at == Some(((c.cursor_x * 8) as u32, (c.cursor_y * 8) as u32))
            &&& !print_step(c, ch).1.scrolled
        },
        ' ' <= ch <= '~' && c.cursor_x >= 80 ==> {
            &&& print_step(c, ch).0.cursor_x == 1
            &&& print_step(c, ch).1.draw_at == Some((0u32, (print_step(c, ch).0.cursor_y * 8) as u32))
        },
{
}

/// A tab moves the cursor to the next multiple of eight, or to the start
/// of the next line (the last line staying last) when that is past the
/// row; every character keeps the cursor on the screen.
pub proof fn law_console_tab_stop(c: TextConsole, ch: char)
    requires
        c.wf(),
    ensures
        print_step(c, ch).0.wf(),
        ({
            let x = ((c.cursor_x + 8) / 8) * 8;
            let c2 = print_step(c, '\t').0;
            &&& x < 80 ==> c2.cursor_x == x && c2.cursor_y == c.cursor_y
            &&& x >= 80 ==> c2.cursor_x == 0 && c2.cursor_y == if c.cursor_y + 1 < 60 { c.cursor_y + 1 } else { 59 }
        }),
{
}

impl TextConsole {
    pub open spec fn wf(&self) -> bool {
        &&& self.max_cols == 80
        &&& self.max_rows == 60
        &&& self.cursor_x <= self.max_cols
        &&& self.cursor_y < self.max_rows
    }

    /// White text on black, cursor at the top left.
    pub fn new() -> (c: Self)
        ensures
            c.wf(),
            c.cursor_x == 0 && c.cursor_y == 0,
            c.fg_color == 0x00FF_FFFF && c.bg_color == 0,
    {
        TextConsole { cursor_x: 0, cursor_y: 0, max_cols: 640 / FONT_WIDTH, max_rows: 480 / FONT_HEIGHT, fg_color: 0x00FF_FFFF, bg_color: 0 }
    }

    fn new_line(&mut self) -> (scrolled: bool)
        requires
            old(self).wf(),
        ensures
            final(self).wf(),
            (*final(self), scrolled) == next_line(*old(self)),
    {
        self.cursor_x = 0;
        if self.cursor_y + 1 >= self.max_rows {
            self.cursor_y = self.max_rows - 1;
            true
        } else {
            self.cursor_y = self.cursor_y + 1;
            false
        }
    }

    /// Moves the cursor for `ch`: newline, carriage return, tab to the next
    /// multiple of 8, or a glyph at the cursor; past the last column the
    /// cursor wraps, past the last row the screen scrolls.
    pub fn print_char(&mut self, ch: char) -> (step: ConsoleStep)
        requires
            old(self).wf(),
        ensures
            final(self).wf(),
            (*final(self), step) == print_step(*old(self), ch),
    {
        if ch == '\n' {
            let s = self.new_line();
            ConsoleStep { scrolled: s, draw_at: None }
        } else if ch == '\r' {
            self.cursor_x = 0;
            ConsoleStep { scrolled: false, draw_at: None }
        } else if ch == '\t' {
            let t = self.cursor_x + 8;
            let x = t & !7u32;
            assert(x == (t / 8) * 8) by (bit_vector)
                requires
                    x == t & !7u32,
            ;
            if x >= self.max_cols {
                let s = self.new_line();
                ConsoleStep { scrolled: s, draw_at: None }
            } else {
                self.cursor_x = x;
                ConsoleStep { scrolled: false, draw_at: None }
            }
        } else {
            let s = if self.cursor_x >= self.max_cols { self.new_line() } else { false };
            let draw_at = if ' ' <= ch && ch <= '~' {
                Some((self.cursor_x * FONT_WIDTH, self.cursor_y * FONT_HEIGHT))
            } else {
                None
            };
            self.cursor_x = self.cursor_x + 1;
            ConsoleStep { scrolled: s, draw_at }
        }
    }
}

impl TextConsole {
    /// Draws `ch` in the foreground colour with its glyph's top left corner
    /// at `(x, y)`; a character without a glyph draws nothing.
    pub fn draw_char(&self, fb: &mut SimpleFramebuffer, ch: char, x: u32, y: u32)
        requires
            old(fb).wf(),
            x + 8 <= u32::MAX,
            y + 8 <= u32::MAX,
        ensures
            final(fb).wf(),
            final(fb).spec_width() == old(fb).spec_width(),
            final(fb).spec_height() == old(fb).spec_height(),
            final(fb).spec_addr() == old(fb).spec_addr(),
            final(fb).spec_size() == old(fb).spec_size(),
            final(fb).spec_bpp() == old(fb).spec_bpp(),
            !printable(ch) ==> final(fb)@ == old(fb)@,
            printable(ch) ==> forall|px: int, py: int| 0 <= px < old(fb).spec_width() && 0 <= py < old(fb).spec_height()
                ==> #[trigger] final(fb).pixel(px, py) == if glyph_covers(
                FONT_DATA@,
                ((ch as u32) - 32) * 8,
                x as int,
                y as int,
                px,
                py,
            ) {
                self.fg_color
            } else {
                old(fb).pixel(px, py)
            },
    {
        if ch < ' ' || ch > '~' {
            return;
        }
        let font: [u8; 760] = FONT_DATA;
        let off = ((ch as u32 - 32) * 8) as usize;
        assert(font@ == FONT_DATA@);
        fb.draw_glyph(&font, off, x, y, self.fg_color);
    }

    /// Scrolls the screen up one text line for a full console: the text moves
    /// up, the bottom line is cleared to the background colour and the
    /// cursor goes to the last row.
    pub fn scroll_up(&mut self, fb: &mut SimpleFramebuffer)
        requires
            old(self).wf(),
            old(fb).wf(),
            old(fb).spec_width() == 640,
            old(fb).spec_height() == 480,
        ensures
            final(self).wf(),
            *final(self) == (TextConsole { cursor_y: (old(self).max_rows - 1) as u32, ..*old(self) }),
            final(fb).wf(),
            final(fb).spec_width() == 640,
            final(fb).spec_height() == 480,
            final(fb).spec_addr() == old(fb).spec_addr(),
            forall|px: int, py: int| 0 <= px < 640 && 0 <= py < 480 ==> #[trigger] final(fb).pixel(px, py) == if py < 472 {
                old(fb).pixel(px, py + 8)
            } else {
                old(self).bg_color
            },
    {
        fb.scroll_text_up(self.bg_color);
        self.cursor_y = self.max_rows - 1;
    }
}

struct FramebufferRect;

impl FramebufferRect {
    fn out_of_bounds() -> (e: GraphicsError)
        ensures
            e == GraphicsError::OutOfBounds,
    {
        GraphicsError::OutOfBounds
    }
}

/// The index of an on-screen pixel lies within the screen.
proof fn lemma_index_in_screen(px: int, py: int, w: int, h: int)
    requires
        0 <= px < w,
        0 <= py < h,
    ensures
        0 <= py * w + px < w * h,
{
    assert(0 <= py * w + px < w * h) by (nonlinear_arith)
        requires
            0 <= px < w,
            0 <= py < h,
    ;
}

/// Distinct pixels of a `w`-wide screen have distinct indices.
proof fn lemma_index_distinct(px: int, py: int, cx: int, cy: int, w: int, h: int)
    requires
        0 <= px < w,
        0 <= py < h,
        0 <= cx < w,
        0 <= cy < h,
    ensures
        (py * w + px == cy * w + cx) <==> (px == cx && py == cy),
{
    if py * w + px == cy * w + cx {
        if py < cy {
            assert(py * w + px < cy * w + cx) by (nonlinear_arith)
                requires
                    py < cy,
                    0 <= px < w,
                    0 <= cx,
            ;
        } else if cy < py {
            assert(cy * w + cx < py * w + px) by (nonlinear_arith)
                requires
                    cy < py,
                    0 <= cx < w,
                    0 <= px,
            ;
        }
    }
}

} // verus!
