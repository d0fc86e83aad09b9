//! Framebuffer console: pixels drawn into the framebuffer's bytes, which
//! lie row after row, `pitch` bytes apart, `bpp / 8` bytes per pixel,
//! least significant byte of the colour first.
use vstd::prelude::*;
use vstd::arithmetic::div_mod::{
    lemma_fundamental_div_mod,
    lemma_fundamental_div_mod_converse,
    lemma_mod_bound,
};
use crate::common::FramebufferInfo;

verus! {

/// The framebuffer console: the geometry the boot loader described and the
/// framebuffer's bytes. `present` is false where no framebuffer was given
/// (its address was null); then nothing is ever drawn.
pub struct FbCon {
    pub present: bool,
    pub width: usize,
    pub height: usize,
    pub pitch: usize,
    pub bpp: usize,
    pub mem: Vec<u8>,
}

/// A geometry that the console can draw into: a pixel has at most four
/// bytes, a row of pixels fits in the pitch, and the whole framebuffer
/// can be addressed.
pub open spec fn geometry_valid(info: &FramebufferInfo) -> bool {
    &&& info.bpp / 8 <= 4
    &&& info.width * (info.bpp / 8) <= info.pitch
    &&& info.pitch * info.height <= usize::MAX
}

/// The four bytes of a colour, least significant first.
pub open spec fn color_bytes(color: u32) -> Seq<u8> {
    seq![
        (color & 0xff) as u8,
        ((color >> 8u32) & 0xff) as u8,
        ((color >> 16u32) & 0xff) as u8,
        ((color >> 24u32) & 0xff) as u8,
    ]
}

impl FbCon {
    /// Bytes per pixel.
    pub open spec fn bytes_per_pixel(&self) -> int {
        (self.bpp / 8) as int
    }

    /// Well-formedness: the geometry is valid and, where a framebuffer is
    /// present, the bytes cover every row.
    pub open spec fn wf(&self) -> bool {
        &&& self.bpp / 8 <= 4
        &&& self.width * (self.bpp / 8) <= self.pitch
        &&& self.present ==> self.mem.len() == self.pitch * self.height
    }

    /// Whether drawing has any effect: a framebuffer is present and its
    /// pixel depth is not zero.
    pub open spec fn drawable(&self) -> bool {
        self.present && self.bpp != 0
    }

    /// The row of the byte at `i`.
    pub open spec fn row_of(&self, i: int) -> int {
        i / (self.pitch as int)
    }

    /// The column of the pixel that the byte at `i` belongs to.
    pub open spec fn col_of(&self, i: int) -> int {
        (i % (self.pitch as int)) / self.bytes_per_pixel()
    }

    /// Which byte of its pixel the byte at `i` is.
    pub open spec fn byte_in_pixel(&self, i: int) -> int {
        (i % (self.pitch as int)) % self.bytes_per_pixel()
    }

    /// Whether the byte at `i` belongs to a visible pixel (and not to the
    /// padding at the end of a row).
    pub open spec fn on_screen(&self, i: int) -> bool {
        &&& self.drawable()
        &&& self.bytes_per_pixel() > 0
        &&& self.pitch > 0
        &&& 0 <= i < self.mem.len()
        &&& self.row_of(i) < self.height
        &&& i % (self.pitch as int) < self.width * self.bytes_per_pixel()
    }

    /// Everything but the bytes is the same in both.
    pub open spec fn same_layout(&self, other: &Self) -> bool {
        &&& self.present == other.present
        &&& self.width == other.width
        &&& self.height == other.height
        &&& self.pitch == other.pitch
        &&& self.bpp == other.bpp
        &&& self.mem.len() == other.mem.len()
    }

    /// A console for the framebuffer that `info` describes, drawing over
    /// `mem`, the framebuffer's present bytes.
    pub fn init(info: &FramebufferInfo, mem: Vec<u8>) -> (fb: FbCon)
        requires
            geometry_valid(info),
            info.addr != 0 ==> mem.len() == info.pitch * info.height,
        ensures
            fb.wf(),
            fb.present == (info.addr != 0),
            fb.width == info.width,
            fb.height == info.height,
            fb.pitch == info.pitch,
            fb.bpp == info.bpp,
            fb.mem@ == mem@,
    {
        FbCon {
            present: info.addr != 0,
            width: info.width as usize,
            height: info.height as usize,
            pitch: info.pitch as usize,
            bpp: info.bpp as usize,
            mem,
        }
    }

    /// The framebuffer's bytes.
    pub fn bytes(&self) -> (b: &[u8])
        ensures
            b@ == self.mem@,
    {
        self.mem.as_slice()
    }

    /// Writes the first `bytes_per_pixel` bytes of `src` into the pixel at
    /// (`x`, `y`).
    fn put_pixel(&mut self, x: usize, y: usize, src: [u8; 4])
        requires
            old(self).wf(),
            old(self).drawable(),
            x < old(self).width,
            y < old(self).height,
        ensures
            final(self).same_layout(old(self)),
            final(self).wf(),
            forall|i: int|
                0 <= i < old(self).mem.len() ==> #[trigger] final(self).mem@[i] == if old(
                    self,
                ).on_screen(i) && old(self).row_of(i) == y && old(self).col_of(i) == x {
                    src@[old(self).byte_in_pixel(i)]
                } else {
                    old(self).mem@[i]
                },
    {
        let b = self.bpp / 8;
        proof {
            lemma_pixel_in_buffer(
                self.pitch as int,
                b as int,
                self.width as int,
                self.height as int,
                x as int,
                y as int,
            );
        }
        let off = y * self.pitch + x * b;
        let ghost before = self.mem@;
        let mut k: usize = 0;
        while k < b
            invariant
                b == self.bpp / 8,
                b <= 4,
                off + b <= self.mem.len(),
                off == y * self.pitch + x * b,
                self.same_layout(old(self)),
                before == old(self).mem@,
                k <= b,
                forall|j: int|
                    0 <= j < self.mem.len() ==> #[trigger] self.mem@[j] == if off <= j < off + k {
                        src@[j - off]
                    } else {
                        before[j]
                    },
            decreases b - k,
        {
            self.mem.set(off + k, src[k]);
            k = k + 1;
        }
        proof {
            assert forall|j: int| 0 <= j < self.mem.len() implies #[trigger] self.mem@[j] == if old(
                self,
            ).on_screen(j) && old(self).row_of(j) == y && old(self).col_of(j) == x {
                src@[old(self).byte_in_pixel(j)]
            } else {
                old(self).mem@[j]
            } by {
                if b > 0 {
                    lemma_pixel_bytes(
                        self.pitch as int,
                        b as int,
                        self.width as int,
                        x as int,
                        y as int,
                        j,
                    );
                }
            }
        }
    }
}

impl FbCon {
    /// Sets the pixel at (`x`, `y`) to `color`; a pixel outside the screen,
    /// or a console with nothing to draw on, is left alone.
    pub fn draw_pixel(&mut self, x: usize, y: usize, color: u32)
        requires
            old(self).wf(),
        ensures
            final(self).same_layout(old(self)),
            final(self).wf(),
            forall|i: int|
                0 <= i < old(self).mem.len() ==> #[trigger] final(self).mem@[i] == if old(
                    self,
                ).on_screen(i) && old(self).row_of(i) == y && old(self).col_of(i) == x {
                    color_bytes(color)[old(self).byte_in_pixel(i)]
                } else {
                    old(self).mem@[i]
                },
    {
        if !self.present || self.bpp == 0 || x >= self.width || y >= self.height {
            proof {
                assert forall|i: int| 0 <= i < self.mem.len() && #[trigger] self.on_screen(i)
                    implies !(self.row_of(i) == y && self.col_of(i) == x) by {
                    self.lemma_on_screen_bounds(i);
                }
            }
            return;
        }
        let src: [u8; 4] = [
            (color & 0xff) as u8,
            ((color >> 8u32) & 0xff) as u8,
            ((color >> 16u32) & 0xff) as u8,
            ((color >> 24u32) & 0xff) as u8,
        ];
        assert(src@ =~= color_bytes(color));
        self.put_pixel(x, y, src);
    }

    /// Fills every visible pixel's bytes with the low byte of `color`.
    pub fn clear(&mut self, color: u32)
        requires
            old(self).wf(),
        ensures
            final(self).same_layout(old(self)),
            final(self).wf(),
            forall|i: int|
                0 <= i < old(self).mem.len() ==> #[trigger] final(self).mem@[i] == if old(
                    self,
                ).on_screen(i) {
                    color as u8
                } else {
                    old(self).mem@[i]
                },
    {
        if !self.present || self.bpp == 0 {
            return;
        }
        let c = color as u8;
        let src: [u8; 4] = [c, c, c, c];
        let ghost start = *self;
        let mut y: usize = 0;
        while y < self.height
            invariant
                self.wf(),
                self.drawable(),
                self.same_layout(&start),
                start.wf(),
                start.drawable(),
                src@ == seq![c, c, c, c],
                c == color as u8,
                y <= self.height,
                forall|i: int|
                    0 <= i < self.mem.len() ==> #[trigger] self.mem@[i] == if start.on_screen(i)
                        && start.row_of(i) < y {
                        c
                    } else {
                        start.mem@[i]
                    },
            decreases self.height - y,
        {
            let mut x: usize = 0;
            while x < self.width
                invariant
                    self.wf(),
                    self.drawable(),
                    self.same_layout(&start),
                    start.wf(),
                    start.drawable(),
                    src@ == seq![c, c, c, c],
                    y < self.height,
                    x <= self.width,
                    forall|i: int|
                        0 <= i < self.mem.len() ==> #[trigger] self.mem@[i] == if start.on_screen(i)
                            && (start.row_of(i) < y || (start.row_of(i) == y && start.col_of(i)
                            < x)) {
                            c
                        } else {
                            start.mem@[i]
                        },
                decreases self.width - x,
            {
                self.put_pixel(x, y, src);
                proof {
                    assert forall|i: int| 0 <= i < self.mem.len() && #[trigger] start.on_screen(i)
                        implies 0 <= start.byte_in_pixel(i) < 4 by {
                        start.lemma_on_screen_bounds(i);
                    }
                }
                x = x + 1;
            }
            proof {
                assert forall|i: int| 0 <= i < self.mem.len() && #[trigger] start.on_screen(i)
                    implies start.col_of(i) < self.width by {
                    start.lemma_on_screen_bounds(i);
                }
            }
            y = y + 1;
        }
        proof {
            assert forall|i: int| 0 <= i < self.mem.len() && #[trigger] start.on_screen(i)
                implies start.row_of(i) < self.height by {
                start.lemma_on_screen_bounds(i);
            }
        }
    }

    /// Sets every pixel of the `w` by `h` rectangle whose top left corner
    /// is (`x`, `y`) to `color`; the part outside the screen is left out.
    pub fn draw_rect(&mut self, x: usize, y: usize, w: usize, h: usize, color: u32)
        requires
            old(self).wf(),
            w > 0 && h > 0 ==> x + w - 1 <= usize::MAX && y + h - 1 <= usize::MAX,
        ensures
            final(self).same_layout(old(self)),
            final(self).wf(),
            forall|i: int|
                0 <= i < old(self).mem.len() ==> #[trigger] final(self).mem@[i] == if old(
                    self,
                ).on_screen(i) && x <= old(self).col_of(i) < x + w && y <= old(self).row_of(i)
                    < y + h {
                    color_bytes(color)[old(self).byte_in_pixel(i)]
                } else {
                    old(self).mem@[i]
                },
    {
        let ghost start = *self;
        let mut dy: usize = 0;
        while dy < h
            invariant
                self.wf(),
                self.same_layout(&start),
                start.wf(),
                dy <= h,
                w > 0 && h > 0 ==> x + w - 1 <= usize::MAX && y + h - 1 <= usize::MAX,
                forall|i: int|
                    0 <= i < self.mem.len() ==> #[trigger] self.mem@[i] == if start.on_screen(i)
                        && x <= start.col_of(i) < x + w && y <= start.row_of(i) < y + dy {
                        color_bytes(color)[start.byte_in_pixel(i)]
                    } else {
                        start.mem@[i]
                    },
            decreases h - dy,
        {
            let mut dx: usize = 0;
            while dx < w
                invariant
                    self.wf(),
                    self.same_layout(&start),
                    start.wf(),
                    dy < h,
                    dx <= w,
                    w > 0 && h > 0 ==> x + w - 1 <= usize::MAX && y + h - 1 <= usize::MAX,
                    forall|i: int|
                        0 <= i < self.mem.len() ==> #[trigger] self.mem@[i] == if start.on_screen(i)
                            && x <= start.col_of(i) < x + w && y <= start.row_of(i) && (
                        start.row_of(i) < y + dy || (start.row_of(i) == y + dy && start.col_of(i)
                            < x + dx)) {
                            color_bytes(color)[start.byte_in_pixel(i)]
                        } else {
                            start.mem@[i]
                        },
                decreases w - dx,
            {
                self.draw_pixel(x + dx, y + dy, color);
                dx = dx + 1;
            }
            dy = dy + 1;
        }
    }

    /// A visible byte's row, column and place in its pixel are in range.
    pub proof fn lemma_on_screen_bounds(&self, i: int)
        requires
            self.wf(),
            self.on_screen(i),
        ensures
            0 <= self.row_of(i) < self.height,
            0 <= self.col_of(i) < self.width,
            0 <= self.byte_in_pixel(i) < self.bytes_per_pixel(),
    {
        let p = self.pitch as int;
        let b = self.bytes_per_pixel();
        let c = i % p;
        lemma_mod_bound(i, p);
        lemma_mod_bound(c, b);
        lemma_fundamental_div_mod(c, b);
        assert(0 <= c / b < self.width) by (nonlinear_arith)
            requires
                b > 0,
                0 <= c < self.width * b,
                c == b * (c / b) + c % b,
                0 <= c % b < b,
        ;
        assert(0 <= i / p) by (nonlinear_arith)
            requires
                p > 0,
                0 <= i,
        ;
    }
}

/// The last byte of a visible pixel lies inside the framebuffer.
proof fn lemma_pixel_in_buffer(pitch: int, b: int, width: int, height: int, x: int, y: int)
    requires
        0 <= b,
        width * b <= pitch,
        0 <= x < width,
        0 <= y < height,
    ensures
        0 <= y * pitch + x * b,
        y * pitch + x * b + b <= pitch * height,
{
    assert(0 <= y * pitch + x * b) by (nonlinear_arith)
        requires
            0 <= b,
            0 <= x,
            0 <= y,
            0 <= width * b <= pitch,
            x < width,
    ;
    assert(x * b + b <= width * b) by (nonlinear_arith)
        requires
            0 <= b,
            x < width,
    ;
    assert(y * pitch + pitch <= pitch * height) by (nonlinear_arith)
        requires
            0 <= pitch,
            y < height,
    ;
}

/// The bytes of the pixel at (`x`, `y`) are exactly those whose row is `y`
/// and whose column is `x`, the `k`-th of them at offset `k`.
proof fn lemma_pixel_bytes(pitch: int, b: int, width: int, x: int, y: int, j: int)
    requires
        0 < b,
        width * b <= pitch,
        0 <= x < width,
        0 <= y,
        0 <= j,
    ensures
        pitch > 0,
        (y * pitch + x * b <= j < y * pitch + x * b + b) <==> (j / pitch == y && j % pitch
            < width * b && (j % pitch) / b == x),
        (y * pitch + x * b <= j < y * pitch + x * b + b) ==> (j % pitch) % b == j - (y * pitch
            + x * b),
{
    assert(x * b + b <= width * b) by (nonlinear_arith)
        requires
            0 <= b,
            x < width,
    ;
    assert(0 <= x * b) by (nonlinear_arith)
        requires
            0 <= b,
            0 <= x,
    ;
    assert(pitch > 0) by (nonlinear_arith)
        requires
            0 < b,
            0 <= x < width,
            width * b <= pitch,
    ;
    let off = y * pitch + x * b;
    if off <= j < off + b {
        let k = j - off;
        let c = x * b + k;
        lemma_fundamental_div_mod_converse(j, pitch, y, c);
        lemma_fundamental_div_mod_converse(c, b, x, k);
    }
    if j / pitch == y && j % pitch < width * b && (j % pitch) / b == x {
        let c = j % pitch;
        lemma_fundamental_div_mod(j, pitch);
        lemma_fundamental_div_mod(c, b);
        lemma_mod_bound(c, b);
        assert(pitch * y == y * pitch) by (nonlinear_arith);
        assert(b * x == x * b) by (nonlinear_arith);
    }
}

} // verus!
