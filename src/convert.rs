use vstd::prelude::*;

verus! {

/// Bytes per pixel of a raw captured frame (four channels, one byte each).
pub const SOURCE_BPP: usize = 4;

/// Bytes per output pixel: RGBA when alpha is kept, RGB otherwise.
pub open spec fn output_bpp(alpha: bool) -> int {
    if alpha { 4 } else { 3 }
}

/// The byte of a four-byte source pixel that supplies output channel `c`:
/// the source channels are taken in reverse order.
pub open spec fn source_channel(c: int, alpha: bool) -> int {
    if alpha { 3 - c } else { 2 - c }
}

/// Output channel `c` of the pixel at column `col` of row `row` of a raw
/// frame whose rows start `stride` bytes apart.
pub open spec fn converted_byte(src: Seq<u8>, stride: int, col: int, row: int, c: int, alpha: bool) -> u8 {
    src[stride * row + SOURCE_BPP * col + source_channel(c, alpha)]
}

/// Index of channel `c` of pixel `(x, y)` in a tightly packed buffer `w`
/// pixels wide with `bpp` bytes per pixel.
pub open spec fn packed_index(w: int, x: int, y: int, bpp: int, c: int) -> int {
    (y * w + x) * bpp + c
}

pub proof fn lemma_packed_index_bounds(w: int, x: int, y: int, bpp: int, c: int)
    requires
        0 <= x < w,
        0 <= y,
        0 <= c < bpp,
    ensures
        y * w * bpp <= packed_index(w, x, y, bpp, c) < (y + 1) * w * bpp,
        packed_index(w, x, y, bpp, c) == y * w * bpp + x * bpp + c,
{
    assert(packed_index(w, x, y, bpp, c) == y * w * bpp + x * bpp + c) by (nonlinear_arith);
    assert(x * bpp + c < w * bpp) by (nonlinear_arith)
        requires 0 <= x < w, 0 <= c < bpp;
    assert((y + 1) * w * bpp == y * w * bpp + w * bpp) by (nonlinear_arith);
    assert(0 <= x * bpp) by (nonlinear_arith)
        requires 0 <= x, 0 <= bpp;
}

proof fn lemma_row_read_in_bounds(stride: int, row: int, width: int, col: int, len: int)
    requires
        0 <= col < width,
        0 <= row,
        0 <= stride,
        stride * row + SOURCE_BPP * width <= len,
    ensures
        stride * row + SOURCE_BPP * col + 3 < len,
{
}

/// Appends one converted scanline: `width` pixels read from row `row` of a
/// raw frame, each pixel starting `SOURCE_BPP` bytes after the previous
/// one and the row starting at `stride * row`.
pub fn convert_row(src: &Vec<u8>, stride: usize, row: usize, width: usize, alpha: bool, out: &mut Vec<u8>)
    requires
        stride * row + SOURCE_BPP * width <= src@.len(),
        old(out)@.len() + SOURCE_BPP * width <= usize::MAX,
    ensures
        final(out)@.len() == old(out)@.len() + width * output_bpp(alpha),
        final(out)@.subrange(0, old(out)@.len() as int) == old(out)@,
        forall|col: int, c: int|
            0 <= col < width && 0 <= c < output_bpp(alpha) ==> final(out)@[old(out)@.len() + col
                * output_bpp(alpha) + c] == #[trigger] converted_byte(src@, stride as int, col, row as int, c, alpha),
{
    let ghost base = old(out)@.len() as int;
    let ghost bpp = output_bpp(alpha);
    let len: usize = src.len();
    assert(stride * row <= len);
    let start: usize = stride * row;
    let mut col: usize = 0;
    while col < width
        invariant
            start == stride * row,
            len == src@.len(),
            stride * row + SOURCE_BPP * width <= src@.len(),
            base + SOURCE_BPP * width <= usize::MAX,
            base == old(out)@.len(),
            bpp == output_bpp(alpha),
            col <= width,
            out@.len() == base + col * bpp,
            out@.subrange(0, base) == old(out)@,
            forall|k: int, c: int|
                0 <= k < col && 0 <= c < bpp ==> out@[base + k * bpp + c] == #[trigger] converted_byte(
                    src@,
                    stride as int,
                    k,
                    row as int,
                    c,
                    alpha,
                ),
        decreases width - col,
    {
        proof {
            lemma_row_read_in_bounds(stride as int, row as int, width as int, col as int, src@.len() as int);
            assert(col * bpp + bpp <= SOURCE_BPP * width) by (nonlinear_arith)
                requires col < width, bpp <= 4;
        }
        let i: usize = start + SOURCE_BPP * col;
        let ghost prev = out@;
        if alpha {
            out.push(src[i + 3]);
            out.push(src[i + 2]);
            out.push(src[i + 1]);
            out.push(src[i]);
        } else {
            out.push(src[i + 2]);
            out.push(src[i + 1]);
            out.push(src[i]);
        }
        proof {
            assert(out@.subrange(0, base) =~= prev.subrange(0, base));
            assert forall|k: int, c: int|
                0 <= k < col + 1 && 0 <= c < bpp implies out@[base + k * bpp + c] == #[trigger] converted_byte(
                    src@,
                    stride as int,
                    k,
                    row as int,
                    c,
                    alpha,
                ) by {
                if k < col {
                    assert(k * bpp + c < col * bpp) by (nonlinear_arith)
                        requires 0 <= k < col, 0 <= c < bpp;
                    assert(out@[base + k * bpp + c] == prev[base + k * bpp + c]);
                } else {
                    assert(k * bpp == col * bpp);
                }
            }
        }
        col = col + 1;
    }
}

/// Converts a whole raw frame of `h` rows and `w` pixels per row into a
/// tightly packed buffer, reversing each pixel's channel order and keeping
/// the fourth channel only when `alpha` is set. The row stride is the
/// buffer's length divided by `h`.
pub fn flip_buffer(buffer: &Vec<u8>, w: usize, h: usize, alpha: bool) -> (r: Vec<u8>)
    requires
        h > 0 ==> SOURCE_BPP * w <= buffer@.len() as int / (h as int),
    ensures
        r@.len() == w * h * output_bpp(alpha),
        forall|x: int, y: int, c: int|
            0 <= x < w && 0 <= y < h && 0 <= c < output_bpp(alpha) ==> r@[packed_index(
                w as int,
                x,
                y,
                output_bpp(alpha),
                c,
            )] == #[trigger] converted_byte(buffer@, buffer@.len() as int / (h as int), x, y, c, alpha),
{
    let ghost bpp = output_bpp(alpha);
    if h == 0 {
        return Vec::new();
    }
    let blen: usize = buffer.len();
    let stride: usize = blen / h;
    proof {
        assert(stride * h <= buffer@.len()) by (nonlinear_arith)
            requires stride == buffer@.len() as int / (h as int), h > 0;
        assert(w * h * bpp <= SOURCE_BPP * w * h) by (nonlinear_arith)
            requires bpp <= 4;
        assert(SOURCE_BPP * w * h <= stride * h) by (nonlinear_arith)
            requires SOURCE_BPP * w <= stride;
    }
    let mut flipped: Vec<u8> = Vec::new();
    let mut y: usize = 0;
    while y < h
        invariant
            h > 0,
            stride == buffer@.len() as int / (h as int),
            SOURCE_BPP * w <= stride,
            stride * h <= buffer@.len(),
            blen == buffer@.len(),
            bpp == output_bpp(alpha),
            y <= h,
            flipped@.len() == y * w * bpp,
            forall|x: int, yy: int, c: int|
                0 <= x < w && 0 <= yy < y && 0 <= c < bpp ==> flipped@[packed_index(
                    w as int,
                    x,
                    yy,
                    bpp,
                    c,
                )] == #[trigger] converted_byte(buffer@, stride as int, x, yy, c, alpha),
        decreases h - y,
    {
        proof {
            assert(stride * y + SOURCE_BPP * w <= stride * h) by (nonlinear_arith)
                requires y < h, SOURCE_BPP * w <= stride;
            assert(y * w * bpp + SOURCE_BPP * w <= SOURCE_BPP * w * h) by (nonlinear_arith)
                requires y < h, bpp <= 4;
            assert(SOURCE_BPP * w * h <= stride * h) by (nonlinear_arith)
                requires SOURCE_BPP * w <= stride;
        }
        let ghost prev = flipped@;
        convert_row(buffer, stride, y, w, alpha, &mut flipped);
        proof {
            assert((y + 1) * w * bpp == y * w * bpp + w * bpp) by (nonlinear_arith);
            assert forall|x: int, yy: int, c: int|
                0 <= x < w && 0 <= yy < y + 1 && 0 <= c < bpp implies flipped@[packed_index(
                    w as int,
                    x,
                    yy,
                    bpp,
                    c,
                )] == #[trigger] converted_byte(buffer@, stride as int, x, yy, c, alpha) by {
                lemma_packed_index_bounds(w as int, x, yy, bpp, c);
                if yy < y {
                    assert((yy + 1) * w * bpp <= y * w * bpp) by (nonlinear_arith)
                        requires yy + 1 <= y, 0 <= w, 0 <= bpp;
                    assert(flipped@.subrange(0, prev.len() as int)[packed_index(w as int, x, yy, bpp, c)]
                        == flipped@[packed_index(w as int, x, yy, bpp, c)]);
                } else {
                    assert(converted_byte(buffer@, stride as int, x, y as int, c, alpha) == converted_byte(
                        buffer@,
                        stride as int,
                        x,
                        yy,
                        c,
                        alpha,
                    ));
                }
            }
        }
        y = y + 1;
    }
    assert(h * w * bpp == w * h * bpp) by (nonlinear_arith);
    flipped
}

} // verus!
