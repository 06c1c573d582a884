use vstd::prelude::*;

use crate::platform_interop::GameOffscreenBuffer;

verus! {

/// Blue channel of the gradient at column `x`: the low byte of `x + x_offset`.
pub open spec fn gradient_blue(x: int, x_offset: int) -> int {
    (x + x_offset) % 256
}

/// Green channel of the gradient at row `y`: the low byte of `y - y_offset`.
pub open spec fn gradient_green(y: int, y_offset: int) -> int {
    (y - y_offset) % 256
}

/// The 32-bit colour of the gradient at `(x, y)`: blue in the low byte,
/// green in the next one, red and padding zero.
pub open spec fn gradient_color(x: int, y: int, x_offset: int, y_offset: int) -> int {
    gradient_blue(x, x_offset) + 256 * gradient_green(y, y_offset)
}

/// Byte `k` (0 to 3, least significant first) of the gradient colour at `(x, y)`.
pub open spec fn gradient_byte(x: int, y: int, k: int, x_offset: int, y_offset: int) -> u8 {
    if k == 0 {
        gradient_blue(x, x_offset) as u8
    } else if k == 1 {
        gradient_green(y, y_offset) as u8
    } else {
        0u8
    }
}

/// The last of the rows `0 .. height` (rows start `pitch` bytes apart) whose
/// start is not after byte `i`; for overlapping rows, the one written last.
pub open spec fn last_row_at(i: int, height: int, pitch: int) -> int {
    if height <= 1 || pitch == 0 {
        height - 1
    } else if i / pitch < height - 1 {
        i / pitch
    } else {
        height - 1
    }
}

/// The value of byte `i` of a buffer whose byte was `old` once a gradient of
/// `width` by `height` pixels, rows `pitch` bytes apart, has been painted
/// over it row by row: the byte of the pixel written last over `i`, or `old`
/// where no pixel covers `i`.
pub open spec fn painted_byte(
    old: u8,
    i: int,
    width: int,
    height: int,
    pitch: int,
    x_offset: int,
    y_offset: int,
) -> u8 {
    let r = last_row_at(i, height, pitch);
    let off = i - r * pitch;
    if width > 0 && height > 0 && 0 <= off < 4 * width {
        gradient_byte(off / 4, r, off % 4, x_offset, y_offset)
    } else {
        old
    }
}

/// Every pixel of a gradient of `width` by `height` pixels, rows `pitch`
/// bytes apart, lies inside a buffer of `len` bytes.
pub open spec fn gradient_fits(len: int, width: int, height: int, pitch: int) -> bool {
    width <= 0 || height <= 0 || (pitch >= 0 && (height - 1) * pitch + 4 * width <= len)
}

/// The row width, height and bytes per pixel as the painter reads them: the
/// buffer's fields cut to 16 bits.
pub open spec fn painter_width(buffer: GameOffscreenBuffer) -> int {
    buffer.width as i16 as int
}

pub open spec fn painter_height(buffer: GameOffscreenBuffer) -> int {
    buffer.height as i16 as int
}

pub open spec fn painter_pitch(buffer: GameOffscreenBuffer) -> int {
    (buffer.width as i16) * (buffer.bytes_per_pixel as i16)
}

/// What the painter needs of a buffer and offsets: the row pitch fits in 16
/// bits, every pixel lies inside `memory`, and, when any pixel is painted,
/// the vertical offset can be negated in 16 bits.
pub open spec fn can_paint_gradient(buffer: GameOffscreenBuffer, y_offset: i16) -> bool {
    let w = painter_width(buffer);
    let h = painter_height(buffer);
    &&& i16::MIN <= painter_pitch(buffer) <= i16::MAX
    &&& gradient_fits(buffer.memory@.len() as int, w, h, painter_pitch(buffer))
    &&& (w > 0 && h > 0 ==> y_offset != i16::MIN)
}

/// The low byte of a 32-bit integer in `-65536 ..`, as a value `0 .. 256`.
fn low_byte(v: i32) -> (b: u8)
    requires
        -65536 <= v <= 65536,
    ensures
        b as int == v % 256,
{
    let shifted: i32 = v + 65536;
    assert(shifted % 256 == v % 256);
    (shifted % 256) as u8
}

/// A row of `width` pixels starting at byte `row` is painted: all bytes of
/// the row hold the gradient of row `y`, every other byte is as in `mem`.
spec fn row_painted(
    mem: Seq<u8>,
    base: Seq<u8>,
    row: int,
    upto: int,
    y: int,
    x_offset: int,
    y_offset: int,
) -> bool {
    &&& mem.len() == base.len()
    &&& forall|i: int|
        0 <= i < mem.len() ==> #[trigger] mem[i] == (if row <= i < row + 4 * upto {
            gradient_byte((i - row) / 4, y, (i - row) % 4, x_offset, y_offset)
        } else {
            base[i]
        })
}

/// Painting row `y` over the picture of rows `0 .. y` gives the picture of
/// rows `0 .. y + 1`.
proof fn lemma_next_row(
    old: u8,
    i: int,
    width: int,
    y: int,
    pitch: int,
    x_offset: int,
    y_offset: int,
)
    requires
        width > 0,
        y >= 0,
        pitch >= 0,
        i >= 0,
    ensures
        painted_byte(old, i, width, y + 1, pitch, x_offset, y_offset) == (if y * pitch <= i < y
            * pitch + 4 * width {
            gradient_byte((i - y * pitch) / 4, y, (i - y * pitch) % 4, x_offset, y_offset)
        } else {
            painted_byte(old, i, width, y, pitch, x_offset, y_offset)
        }),
{
    let row = y * pitch;
    if y == 0 {
        assert(row == 0);
    } else if pitch == 0 {
        assert(row == 0) by (nonlinear_arith)
            requires
                pitch == 0,
                row == y * pitch,
        ;
    } else {
        let q = i / pitch;
        assert(pitch * q <= i < pitch * q + pitch) by (nonlinear_arith)
            requires
                pitch > 0,
                i >= 0,
                q == i / pitch,
        ;
        if q >= y {
            assert(i >= row) by (nonlinear_arith)
                requires
                    q >= y,
                    pitch > 0,
                    pitch * q <= i,
                    row == y * pitch,
            ;
            assert(last_row_at(i, y + 1, pitch) == y);
            if y >= 2 {
                assert(last_row_at(i, y, pitch) == y - 1);
                assert((y - 1) * pitch == row - pitch) by (nonlinear_arith)
                    requires
                        row == y * pitch,
                ;
            } else {
                assert(last_row_at(i, y, pitch) == 0);
                assert(0int * pitch == 0);
            }
        } else {
            assert(i < row) by (nonlinear_arith)
                requires
                    q < y,
                    pitch > 0,
                    i < pitch * q + pitch,
                    row == y * pitch,
            ;
            assert(last_row_at(i, y + 1, pitch) == q);
            assert(last_row_at(i, y, pitch) == q);
        }
    }
}

/// Paints the gradient over `buffer`: the pixel in column `x` of row `y`
/// gets blue `x + x_offset` and green `y - y_offset`, both taken modulo
/// 256. Width, height and bytes per pixel are read as 16-bit values; rows
/// are painted top to bottom, so where rows overlap the later one shows.
pub fn draw_weird_gradient(buffer: &mut GameOffscreenBuffer, x_offset: i16, y_offset: i16)
    requires
        can_paint_gradient(*old(buffer), y_offset),
    ensures
        final(buffer).width == old(buffer).width,
        final(buffer).height == old(buffer).height,
        final(buffer).bytes_per_pixel == old(buffer).bytes_per_pixel,
        final(buffer).memory@.len() == old(buffer).memory@.len(),
        forall|i: int|
            0 <= i < old(buffer).memory@.len() ==> #[trigger] final(buffer).memory@[i]
                == painted_byte(
                old(buffer).memory@[i],
                i,
                painter_width(*old(buffer)),
                painter_height(*old(buffer)),
                painter_pitch(*old(buffer)),
                x_offset as int,
                y_offset as int,
            ),
{
    let ghost base = buffer.memory@;
    let width: i16 = #[verifier::truncate] (buffer.width as i16);
    let height: i16 = #[verifier::truncate] (buffer.height as i16);
    let bytes_per_pixel: i16 = #[verifier::truncate] (buffer.bytes_per_pixel as i16);
    let mem_len: usize = buffer.memory.len();
    let pitch: i16 = width * bytes_per_pixel;
    if width <= 0 || height <= 0 {
        return;
    }
    let ghost w = width as int;
    let ghost h = height as int;
    let ghost p = pitch as int;
    let ghost len = base.len() as int;
    let step: usize = pitch as usize;
    let mut row: usize = 0;
    let mut y: i16 = 0;
    assert((h - 1) * p >= 0) by (nonlinear_arith)
        requires
            h >= 1,
            p >= 0,
    ;
    while y < height
        invariant
            0 <= y <= height,
            w == width,
            h == height,
            p == pitch,
            w > 0,
            h > 0,
            p >= 0,
            step == p,
            len == base.len(),
            len == mem_len,
            (h - 1) * p + 4 * w <= len,
            y_offset != i16::MIN,
            y < h ==> row == y * p,
            buffer.width == old(buffer).width,
            buffer.height == old(buffer).height,
            buffer.bytes_per_pixel == old(buffer).bytes_per_pixel,
            buffer.memory@.len() == len,
            forall|i: int|
                0 <= i < len ==> #[trigger] buffer.memory@[i] == painted_byte(
                    base[i],
                    i,
                    w,
                    y as int,
                    p,
                    x_offset as int,
                    y_offset as int,
                ),
        decreases height - y,
    {
        let ghost before = buffer.memory@;
        assert(row + 4 * w <= len) by (nonlinear_arith)
            requires
                row == y * p,
                y <= h - 1,
                p >= 0,
                (h - 1) * p + 4 * w <= len,
        ;
        let green: u8 = low_byte(y as i32 - y_offset as i32);
        let mut x: i16 = 0;
        let mut pixel: usize = row;
        while x < width
            invariant
                0 <= x <= width,
                w == width,
                w > 0,
                row + 4 * w <= len,
                len == mem_len,
                pixel == row + 4 * x,
                green as int == gradient_green(y as int, y_offset as int),
                buffer.width == old(buffer).width,
                buffer.height == old(buffer).height,
                buffer.bytes_per_pixel == old(buffer).bytes_per_pixel,
                row_painted(
                    buffer.memory@,
                    before,
                    row as int,
                    x as int,
                    y as int,
                    x_offset as int,
                    y_offset as int,
                ),
                before.len() == len,
            decreases width - x,
        {
            let blue: u8 = low_byte(x as i32 + x_offset as i32);
            let ghost prev = buffer.memory@;
            buffer.memory[pixel] = blue;
            buffer.memory[pixel + 1] = green;
            buffer.memory[pixel + 2] = 0;
            buffer.memory[pixel + 3] = 0;
            proof {
                assert forall|i: int| 0 <= i < len implies #[trigger] buffer.memory@[i] == (if row
                    <= i < row + 4 * (x + 1) {
                    gradient_byte(
                        (i - row) / 4,
                        y as int,
                        (i - row) % 4,
                        x_offset as int,
                        y_offset as int,
                    )
                } else {
                    before[i]
                }) by {
                    if pixel <= i < pixel + 4 {
                        assert((i - row) / 4 == x as int);
                        assert((i - row) % 4 == i - pixel);
                    } else {
                        assert(buffer.memory@[i] == prev[i]);
                    }
                }
            }
            pixel = pixel + 4;
            x = x + 1;
        }
        proof {
            assert forall|i: int| 0 <= i < len implies #[trigger] buffer.memory@[i]
                == painted_byte(
                base[i],
                i,
                w,
                y as int + 1,
                p,
                x_offset as int,
                y_offset as int,
            ) by {
                lemma_next_row(base[i], i, w, y as int, p, x_offset as int, y_offset as int);
                assert(buffer.memory@[i] == (if row <= i < row + 4 * w {
                    gradient_byte(
                        (i - row) / 4,
                        y as int,
                        (i - row) % 4,
                        x_offset as int,
                        y_offset as int,
                    )
                } else {
                    before[i]
                }));
            }
        }
        y = y + 1;
        if y < height {
            assert(row + p == y * p) by (nonlinear_arith)
                requires
                    row == (y - 1) * p,
            ;
            assert(y * p <= (h - 1) * p) by (nonlinear_arith)
                requires
                    y <= h - 1,
                    p >= 0,
            ;
            row = row + step;
        }
    }
}

/// Where rows do not overlap (`pitch >= 4 * width`, or a single row), the
/// four bytes of pixel `(x, y)`, at byte `y * pitch + 4 * x`, hold its
/// gradient colour: blue, green, then two zero bytes.
pub proof fn lemma_pixel_holds_gradient_color(
    old: u8,
    x: int,
    y: int,
    k: int,
    width: int,
    height: int,
    pitch: int,
    x_offset: int,
    y_offset: int,
)
    requires
        0 <= x < width,
        0 <= y < height,
        0 <= k < 4,
        pitch >= 0,
        height == 1 || pitch >= 4 * width,
    ensures
        painted_byte(old, y * pitch + 4 * x + k, width, height, pitch, x_offset, y_offset)
            == gradient_byte(x, y, k, x_offset, y_offset),
        gradient_byte(x, y, 0, x_offset, y_offset) as int == gradient_blue(x, x_offset),
        gradient_byte(x, y, 1, x_offset, y_offset) as int == gradient_green(y, y_offset),
        k >= 2 ==> gradient_byte(x, y, k, x_offset, y_offset) == 0,
{
    let i = y * pitch + 4 * x + k;
    if height == 1 {
        assert(y == 0);
        assert(y * pitch == 0);
        assert(last_row_at(i, height, pitch) == 0);
        assert(0int * pitch == 0);
    } else {
        assert(pitch > 0);
        assert(y * pitch <= i < y * pitch + pitch);
        assert(i / pitch == y) by (nonlinear_arith)
            requires
                pitch > 0,
                y * pitch <= i < y * pitch + pitch,
        ;
        assert(last_row_at(i, height, pitch) == y);
    }
    assert((4 * x + k) / 4 == x);
    assert((4 * x + k) % 4 == k);
}

/// Bytes that no row of the gradient covers keep their value; in
/// particular every byte past the end of the last row.
pub proof fn lemma_bytes_past_last_row_unchanged(
    old: u8,
    i: int,
    width: int,
    height: int,
    pitch: int,
    x_offset: int,
    y_offset: int,
)
    requires
        pitch >= 0,
        height >= 1,
        i >= 0,
        i >= (height - 1) * pitch + 4 * width,
    ensures
        painted_byte(old, i, width, height, pitch, x_offset, y_offset) == old,
{
    let r = last_row_at(i, height, pitch);
    if height > 1 && pitch > 0 {
        assert(i / pitch >= 0) by (nonlinear_arith)
            requires
                i >= 0,
                pitch > 0,
        ;
        assert(0 <= r <= height - 1);
        assert(r * pitch <= (height - 1) * pitch) by (nonlinear_arith)
            requires
                r <= height - 1,
                pitch >= 0,
        ;
    } else if height > 1 {
        assert(r * pitch == 0) by (nonlinear_arith)
            requires
                pitch == 0,
        ;
        assert((height - 1) * pitch == 0) by (nonlinear_arith)
            requires
                pitch == 0,
        ;
    }
}

/// Moving the horizontal offset on by one shows the next column, moving the
/// vertical offset on by one shows the previous row, and offsets that differ
/// by a multiple of 256 paint the same picture.
pub proof fn lemma_offsets_scroll_the_gradient(x: int, y: int, k: int, x_offset: int, y_offset: int)
    ensures
        gradient_byte(x, y, k, x_offset + 1, y_offset) == gradient_byte(
            x + 1,
            y,
            k,
            x_offset,
            y_offset,
        ),
        gradient_byte(x, y, k, x_offset, y_offset + 1) == gradient_byte(
            x,
            y - 1,
            k,
            x_offset,
            y_offset,
        ),
        gradient_byte(x, y, k, x_offset + 256, y_offset + 256) == gradient_byte(
            x,
            y,
            k,
            x_offset,
            y_offset,
        ),
{
    assert((x + (x_offset + 256)) % 256 == (x + x_offset) % 256);
    assert((y - (y_offset + 256)) % 256 == (y - y_offset) % 256);
}

/// Painting the same gradient twice leaves the buffer as painting it once,
/// and the bytes a pixel covers do not depend on what was there before.
pub proof fn lemma_painting_is_idempotent(
    old: u8,
    other: u8,
    i: int,
    width: int,
    height: int,
    pitch: int,
    x_offset: int,
    y_offset: int,
)
    ensures
        painted_byte(
            painted_byte(old, i, width, height, pitch, x_offset, y_offset),
            i,
            width,
            height,
            pitch,
            x_offset,
            y_offset,
        ) == painted_byte(old, i, width, height, pitch, x_offset, y_offset),
        painted_byte(old, i, width, height, pitch, x_offset, y_offset) != old ==> painted_byte(
            other,
            i,
            width,
            height,
            pitch,
            x_offset,
            y_offset,
        ) == painted_byte(old, i, width, height, pitch, x_offset, y_offset),
{
}

/// On a bitmap of `width` by `height` pixels of four bytes each, rows packed
/// one after another (`width * height * 4` bytes, the bitmap the platform
/// layer allocates), with both sizes in `1 ..= 32767`: the painter paints
/// every row and every column, and pixel `(x, y)`, at bytes
/// `4 * (y * width + x) ..`, ends up as blue `(x + x_offset) mod 256`, green
/// `(y - y_offset) mod 256`, then two zero bytes, whatever was there before.
pub proof fn lemma_packed_bitmap_fully_painted(
    buffer: GameOffscreenBuffer,
    old: u8,
    x: int,
    y: int,
    k: int,
    x_offset: i16,
    y_offset: i16,
)
    requires
        0 < buffer.width <= i16::MAX,
        0 < buffer.height <= i16::MAX,
        buffer.bytes_per_pixel == 4,
        buffer.width * 4 <= i16::MAX,
        buffer.memory@.len() == buffer.width * buffer.height * 4,
        0 <= x < buffer.width,
        0 <= y < buffer.height,
        0 <= k < 4,
    ensures
        painted_byte(
            old,
            4 * (y * buffer.width + x) + k,
            painter_width(buffer),
            painter_height(buffer),
            painter_pitch(buffer),
            x_offset as int,
            y_offset as int,
        ) == (if k == 0 {
            ((x + x_offset) % 256) as u8
        } else if k == 1 {
            ((y - y_offset) % 256) as u8
        } else {
            0u8
        }),
{
    let w = buffer.width;
    let h = buffer.height;
    let bpp = buffer.bytes_per_pixel;
    assert(w as i16 == w) by (bit_vector)
        requires
            0 < w <= 0x7fff,
    ;
    assert(h as i16 == h) by (bit_vector)
        requires
            0 < h <= 0x7fff,
    ;
    assert(bpp as i16 == 4i16) by (bit_vector)
        requires
            bpp == 4,
    ;
    assert(painter_width(buffer) == w);
    assert(painter_height(buffer) == h);
    assert(painter_pitch(buffer) == 4 * w);
    assert(4 * (y * w + x) + k == y * (4 * w) + 4 * x + k) by (nonlinear_arith);
    lemma_pixel_holds_gradient_color(
        old,
        x,
        y,
        k,
        w as int,
        h as int,
        4 * w,
        x_offset as int,
        y_offset as int,
    );
}

} // verus!
