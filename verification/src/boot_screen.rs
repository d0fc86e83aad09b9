//! The boot screen: the framebuffer the boot loader hands over is painted in
//! four coloured quadrants, so that one sees the kernel is alive.
//!
//! The framebuffer here is the boot loader's: `stride` pixels from the start
//! of one line to the start of the next, `bytes_per_pixel` bytes per pixel,
//! pixel (x, y) at byte `(y * stride + x) * bytes_per_pixel`.
use vstd::prelude::*;
use vstd::arithmetic::div_mod::{
    lemma_fundamental_div_mod,
    lemma_fundamental_div_mod_converse,
    lemma_mod_bound,
};

verus! {

/// The colour of pixel (x, y): teal top left, purple top right, orange
/// bottom left, grey bottom right, as bytes in framebuffer order.
pub open spec fn quadrant_color_spec(x: int, y: int, width: int, height: int) -> Seq<u8> {
    if x < width / 2 && y < height / 2 {
        seq![0x00u8, 0x40, 0x80, 0x00]
    } else if x >= width / 2 && y < height / 2 {
        seq![0x40u8, 0x00, 0x80, 0x00]
    } else if x < width / 2 {
        seq![0x80u8, 0x40, 0x00, 0x00]
    } else {
        seq![0x20u8, 0x20, 0x20, 0x00]
    }
}

/// The colour of pixel (x, y) on a `width` by `height` screen.
pub fn quadrant_color(x: usize, y: usize, width: usize, height: usize) -> (c: [u8; 4])
    ensures
        c@ == quadrant_color_spec(x as int, y as int, width as int, height as int),
{
    let c: [u8; 4] = if x < width / 2 && y < height / 2 {
        [0x00, 0x40, 0x80, 0x00]
    } else if x >= width / 2 && y < height / 2 {
        [0x40, 0x00, 0x80, 0x00]
    } else if x < width / 2 {
        [0x80, 0x40, 0x00, 0x00]
    } else {
        [0x20, 0x20, 0x20, 0x00]
    };
    assert(c@ =~= quadrant_color_spec(x as int, y as int, width as int, height as int));
    c
}

/// The pixel that the byte at `i` belongs to, counted along the buffer.
pub open spec fn pixel_index(i: int, bytes_per_pixel: int) -> int {
    i / bytes_per_pixel
}

/// The line of the byte at `i`.
pub open spec fn line_of(i: int, stride: int, bytes_per_pixel: int) -> int {
    pixel_index(i, bytes_per_pixel) / stride
}

/// The column of the byte at `i`.
pub open spec fn column_of(i: int, stride: int, bytes_per_pixel: int) -> int {
    pixel_index(i, bytes_per_pixel) % stride
}

/// Whether the byte at `i` belongs to a pixel of the `width` by `height`
/// screen (and not to the padding at the end of a line).
pub open spec fn painted(i: int, width: int, height: int, stride: int, bytes_per_pixel: int) -> bool {
    &&& bytes_per_pixel > 0
    &&& stride > 0
    &&& 0 <= i
    &&& line_of(i, stride, bytes_per_pixel) < height
    &&& column_of(i, stride, bytes_per_pixel) < width
}

/// The value the byte at `i` has after painting, or `old` where the byte is
/// not part of the screen.
pub open spec fn boot_screen_byte(
    i: int,
    old: u8,
    width: int,
    height: int,
    stride: int,
    bytes_per_pixel: int,
) -> u8 {
    if painted(i, width, height, stride, bytes_per_pixel) {
        quadrant_color_spec(
            column_of(i, stride, bytes_per_pixel),
            line_of(i, stride, bytes_per_pixel),
            width,
            height,
        )[i % bytes_per_pixel]
    } else {
        old
    }
}

/// Paints every pixel of the screen in the colour of its quadrant; each
/// pixel takes the first `bytes_per_pixel` bytes of the colour.
pub fn paint_boot_screen(
    buffer: &mut Vec<u8>,
    width: usize,
    height: usize,
    stride: usize,
    bytes_per_pixel: usize,
)
    requires
        bytes_per_pixel <= 4,
        width <= stride,
        width > 0 && height > 0 ==> (height - 1) * stride + (width - 1) <= usize::MAX,
        width > 0 && height > 0 ==> ((height - 1) * stride + width) * bytes_per_pixel <= old(
            buffer,
        ).len(),
    ensures
        final(buffer).len() == old(buffer).len(),
        forall|i: int|
            0 <= i < old(buffer).len() ==> #[trigger] final(buffer)@[i] == boot_screen_byte(
                i,
                old(buffer)@[i],
                width as int,
                height as int,
                stride as int,
                bytes_per_pixel as int,
            ),
{
    let ghost start = buffer@;
    let mut y: usize = 0;
    while y < height
        invariant
            bytes_per_pixel <= 4,
            width <= stride,
            width > 0 && height > 0 ==> (height - 1) * stride + (width - 1) <= usize::MAX,
            width > 0 && height > 0 ==> ((height - 1) * stride + width) * bytes_per_pixel
                <= buffer.len(),
            buffer.len() == start.len(),
            y <= height,
            forall|i: int|
                0 <= i < buffer.len() ==> #[trigger] buffer@[i] == if line_of(
                    i,
                    stride as int,
                    bytes_per_pixel as int,
                ) < y {
                    boot_screen_byte(
                        i,
                        start[i],
                        width as int,
                        height as int,
                        stride as int,
                        bytes_per_pixel as int,
                    )
                } else {
                    start[i]
                },
        decreases height - y,
    {
        let mut x: usize = 0;
        while x < width
            invariant
                bytes_per_pixel <= 4,
                width <= stride,
                width > 0 && height > 0 ==> (height - 1) * stride + (width - 1) <= usize::MAX,
                width > 0 && height > 0 ==> ((height - 1) * stride + width) * bytes_per_pixel
                    <= buffer.len(),
                buffer.len() == start.len(),
                y < height,
                x <= width,
                forall|i: int|
                    0 <= i < buffer.len() ==> #[trigger] buffer@[i] == if line_of(
                        i,
                        stride as int,
                        bytes_per_pixel as int,
                    ) < y || (line_of(i, stride as int, bytes_per_pixel as int) == y && column_of(
                        i,
                        stride as int,
                        bytes_per_pixel as int,
                    ) < x) {
                        boot_screen_byte(
                            i,
                            start[i],
                            width as int,
                            height as int,
                            stride as int,
                            bytes_per_pixel as int,
                        )
                    } else {
                        start[i]
                    },
            decreases width - x,
        {
            proof {
                lemma_pixel_fits(
                    width as int,
                    height as int,
                    stride as int,
                    bytes_per_pixel as int,
                    x as int,
                    y as int,
                );
            }
            let offset = (y * stride + x) * bytes_per_pixel;
            let color = quadrant_color(x, y, width, height);
            let ghost before = buffer@;
            let mut k: usize = 0;
            while k < bytes_per_pixel
                invariant
                    bytes_per_pixel <= 4,
                    offset == (y * stride + x) * bytes_per_pixel,
                    offset + bytes_per_pixel <= buffer.len(),
                    buffer.len() == before.len(),
                    k <= bytes_per_pixel,
                    forall|j: int|
                        0 <= j < buffer.len() ==> #[trigger] buffer@[j] == if offset <= j < offset
                            + k {
                            color@[j - offset]
                        } else {
                            before[j]
                        },
                decreases bytes_per_pixel - k,
            {
                buffer.set(offset + k, color[k]);
                k = k + 1;
            }
            proof {
                assert forall|j: int| 0 <= j < buffer.len() implies #[trigger] buffer@[j] == if line_of(
                    j,
                    stride as int,
                    bytes_per_pixel as int,
                ) < y || (line_of(j, stride as int, bytes_per_pixel as int) == y && column_of(
                    j,
                    stride as int,
                    bytes_per_pixel as int,
                ) < x + 1) {
                    boot_screen_byte(
                        j,
                        start[j],
                        width as int,
                        height as int,
                        stride as int,
                        bytes_per_pixel as int,
                    )
                } else {
                    start[j]
                } by {
                    if bytes_per_pixel > 0 {
                        lemma_pixel_bytes(
                            stride as int,
                            bytes_per_pixel as int,
                            x as int,
                            y as int,
                            j,
                        );
                    }
                }
            }
            x = x + 1;
        }
        y = y + 1;
    }
}

/// The last byte of pixel (x, y) lies inside the screen's bytes.
proof fn lemma_pixel_fits(width: int, height: int, stride: int, b: int, x: int, y: int)
    requires
        0 <= b,
        0 <= x < width <= stride,
        0 <= y < height,
    ensures
        0 <= y * stride,
        y * stride + x <= (height - 1) * stride + (width - 1),
        0 <= (y * stride + x) * b,
        (y * stride + x) * b + b <= ((height - 1) * stride + width) * b,
{
    assert(0 <= y * stride <= (height - 1) * stride) by (nonlinear_arith)
        requires
            0 <= stride,
            0 <= y <= height - 1,
    ;
    assert(0 <= (y * stride + x) * b) by (nonlinear_arith)
        requires
            0 <= b,
            0 <= x,
            0 <= y,
            0 <= stride,
    ;
    assert((y * stride + x) * b + b <= ((height - 1) * stride + width) * b) by (nonlinear_arith)
        requires
            0 <= b,
            0 <= stride,
            x + 1 <= width,
            y <= height - 1,
    ;
}

/// The bytes of pixel (x, y) are exactly those whose line is `y` and whose
/// column is `x`, the `k`-th of them at offset `k`.
proof fn lemma_pixel_bytes(stride: int, b: int, x: int, y: int, j: int)
    requires
        0 < b,
        0 <= x < stride,
        0 <= y,
        0 <= j,
    ensures
        ((y * stride + x) * b <= j < (y * stride + x) * b + b) <==> (line_of(j, stride, b) == y
            && column_of(j, stride, b) == x),
        ((y * stride + x) * b <= j < (y * stride + x) * b + b) ==> j % b == j - (y * stride
            + x) * b,
{
    let p = y * stride + x;
    assert(0 <= p) by (nonlinear_arith)
        requires
            p == y * stride + x,
            0 <= y,
            0 <= x,
            0 <= stride,
    ;
    if p * b <= j < p * b + b {
        lemma_fundamental_div_mod_converse(j, b, p, j - p * b);
        lemma_fundamental_div_mod_converse(p, stride, y, x);
    }
    if line_of(j, stride, b) == y && column_of(j, stride, b) == x {
        let q = j / b;
        lemma_fundamental_div_mod(q, stride);
        lemma_fundamental_div_mod(j, b);
        lemma_mod_bound(j, b);
        assert(stride * y == y * stride) by (nonlinear_arith);
        assert(b * q == q * b) by (nonlinear_arith);
    }
}

} // verus!
