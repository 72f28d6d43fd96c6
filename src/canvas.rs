use vstd::prelude::*;
use crate::convert::{convert_row, converted_byte, packed_index, lemma_packed_index_bounds, SOURCE_BPP};
use crate::display::{
    bounding_box, bounds_of, seq_min, seq_max, left_edges, top_edges, right_edges, bottom_edges, lemma_seq_extremes,
    Bounds, DisplayDescriptor,
};
use crate::error::CaptureError;

verus! {

/// An RGB image buffer of the image crate, held opaquely: what the library
/// knows of it is given by `rgb_samples` and `rgb_dimensions`.
#[verifier::external_body]
pub struct RgbBuffer {
    img: image::RgbImage,
}

/// The samples of an RGB image, row by row, three bytes per pixel.
pub uninterp spec fn rgb_samples(img: RgbBuffer) -> Seq<u8>;

/// The width and height an RGB image was created with.
pub uninterp spec fn rgb_dimensions(img: RgbBuffer) -> (u32, u32);

/// Relies on image::ImageBuffer::new: a zero-filled buffer of
/// `3 * width * height` samples; it panics when that length, or `3 * width`
/// computed first, overflows usize.
#[verifier::external_body]
fn new_rgb_image(width: u32, height: u32) -> (r: RgbBuffer)
    requires
        3 * width <= usize::MAX,
        3 * width * height <= usize::MAX,
    ensures
        rgb_dimensions(r) == (width, height),
        rgb_samples(r) == Seq::new((3 * width * height) as nat, |i: int| 0u8),
{
    RgbBuffer { img: image::RgbImage::new(width, height) }
}

/// Relies on image::ImageBuffer::put_pixel: the three samples of pixel
/// `(x, y)` start at `(y * width + x) * 3`; it panics outside the image.
#[verifier::external_body]
fn put_rgb_pixel(img: &mut RgbBuffer, x: u32, y: u32, r: u8, g: u8, b: u8)
    requires
        x < rgb_dimensions(*old(img)).0,
        y < rgb_dimensions(*old(img)).1,
    ensures
        rgb_dimensions(*final(img)) == rgb_dimensions(*old(img)),
        rgb_samples(*final(img)) == rgb_samples(*old(img)).update(
            (y * rgb_dimensions(*old(img)).0 + x) * 3,
            r,
        ).update((y * rgb_dimensions(*old(img)).0 + x) * 3 + 1, g).update(
            (y * rgb_dimensions(*old(img)).0 + x) * 3 + 2,
            b,
        ),
{
    img.img.put_pixel(x, y, image::Rgb([r, g, b]));
}

/// Relies on image::ImageBuffer::into_raw: hands back the sample buffer.
#[verifier::external_body]
fn rgb_image_into_raw(img: RgbBuffer) -> (r: Vec<u8>)
    ensures
        r@ == rgb_samples(img),
{
    img.img.into_raw()
}

/// Bytes per canvas pixel (red, green, blue).
pub const CANVAS_BPP: usize = 3;

/// One display's raw frame: four bytes per pixel, rows `stride` bytes apart.
#[derive(Clone, Debug)]
pub struct RawFrame {
    pub display: DisplayDescriptor,
    pub bytes: Vec<u8>,
    pub stride: usize,
}

impl RawFrame {
    /// The display has an area, each row holds its pixels, and the buffer
    /// holds exactly `height` rows.
    pub open spec fn well_formed(&self) -> bool {
        &&& self.display.width > 0
        &&& self.display.height > 0
        &&& self.stride >= SOURCE_BPP * self.display.width
        &&& self.bytes@.len() == self.stride * self.display.height
    }

    /// Pairs a display with the frame captured from it, whose rows are taken
    /// to be evenly spread over the buffer.
    pub fn from_capture(display: DisplayDescriptor, bytes: Vec<u8>) -> (r: RawFrame)
        ensures
            r.display == display,
            r.bytes@ == bytes@,
            r.stride == (if display.height == 0 { 0 } else { bytes@.len() / (display.height as nat) }),
    {
        let stride: usize = if display.height == 0 {
            0
        } else {
            bytes.len() / (display.height as usize)
        };
        RawFrame { display, bytes, stride }
    }

    /// Checks `well_formed`.
    pub fn check_well_formed(&self) -> (r: bool)
        ensures
            r == self.well_formed(),
    {
        if self.display.width == 0 || self.display.height == 0 {
            return false;
        }
        let w: usize = self.display.width as usize;
        let h: usize = self.display.height as usize;
        match w.checked_mul(SOURCE_BPP) {
            Some(m) => {
                if self.stride < m {
                    return false;
                }
            },
            None => {
                return false;
            },
        }
        let blen: usize = self.bytes.len();
        match self.stride.checked_mul(h) {
            Some(n) => n == blen,
            None => {
                assert(self.stride * h > usize::MAX);
                false
            },
        }
    }
}

pub open spec fn displays_of(frames: Seq<RawFrame>) -> Seq<DisplayDescriptor> {
    frames.map_values(|f: RawFrame| f.display)
}

pub open spec fn all_well_formed(frames: Seq<RawFrame>) -> bool {
    forall|k: int| 0 <= k < frames.len() ==> (#[trigger] frames[k]).well_formed()
}

/// The canvas that the union bounding box `b` needs fits an image: width and
/// height in `u32`, and its bytes in `usize`.
pub open spec fn canvas_fits(b: Bounds) -> bool {
    &&& b.width_spec() <= u32::MAX
    &&& b.height_spec() <= u32::MAX
    &&& CANVAS_BPP * b.width_spec() * b.height_spec() <= usize::MAX
}

/// Channel `c` of canvas pixel `(px, py)` after the first `n` frames have
/// been painted in order onto a zero-filled canvas whose origin is the
/// bounding box's top-left corner: the last of them that covers the point
/// decides, and an uncovered point stays zero.
pub open spec fn composed_byte(frames: Seq<RawFrame>, n: int, b: Bounds, px: int, py: int, c: int) -> u8
    decreases n,
{
    if n <= 0 {
        0
    } else {
        let f = frames[n - 1];
        if f.display.contains(px + b.min_x, py + b.min_y) {
            converted_byte(
                f.bytes@,
                f.stride as int,
                px + b.min_x - f.display.x,
                py + b.min_y - f.display.y,
                c,
                false,
            )
        } else {
            composed_byte(frames, n - 1, b, px, py, c)
        }
    }
}

/// Why compositing `frames` fails, if it does: no display at all, or a
/// malformed frame or a canvas too large for an image.
pub open spec fn composite_failure(frames: Seq<RawFrame>) -> Option<CaptureError> {
    if frames.len() == 0 {
        Some(CaptureError::EnumerationFailure)
    } else if !all_well_formed(frames) || !canvas_fits(bounds_of(displays_of(frames))) {
        Some(CaptureError::CompositingBoundsError)
    } else {
        None
    }
}

/// A composited picture of all displays: RGB, row by row.
#[derive(Clone, Debug)]
pub struct Canvas {
    pub pixels: Vec<u8>,
    pub width: u32,
    pub height: u32,
}

impl Canvas {
    pub open spec fn well_formed(&self) -> bool {
        self.pixels@.len() == CANVAS_BPP * self.width * self.height
    }
}

/// The canvas holds exactly what painting `frames` in order onto the union
/// bounding box gives.
pub open spec fn composes(cv: Canvas, frames: Seq<RawFrame>) -> bool {
    let b = bounds_of(displays_of(frames));
    &&& cv.width == b.width_spec()
    &&& cv.height == b.height_spec()
    &&& cv.well_formed()
    &&& forall|px: int, py: int, c: int|
        0 <= px < cv.width && 0 <= py < cv.height && 0 <= c < CANVAS_BPP ==> cv.pixels@[packed_index(
            cv.width as int,
            px,
            py,
            CANVAS_BPP as int,
            c,
        )] == #[trigger] composed_byte(frames, frames.len() as int, b, px, py, c)
}

proof fn lemma_packed_index_injective(w: int, px: int, py: int, c: int, qx: int, qy: int, d: int)
    requires
        0 <= px < w,
        0 <= qx < w,
        0 <= py,
        0 <= qy,
        0 <= c < 3,
        0 <= d < 3,
        packed_index(w, px, py, 3, c) == packed_index(w, qx, qy, 3, d),
    ensures
        px == qx && py == qy && c == d,
{
    let i = py * w + px;
    let j = qy * w + qx;
    assert(i == j) by (nonlinear_arith)
        requires i * 3 + c == j * 3 + d, 0 <= c < 3, 0 <= d < 3;
    if py < qy {
        assert(py * w + px < qy * w + qx) by (nonlinear_arith)
            requires py < qy, 0 <= px < w, 0 <= qx;
    } else if qy < py {
        assert(qy * w + qx < py * w + px) by (nonlinear_arith)
            requires qy < py, 0 <= qx < w, 0 <= px;
    }
}

/// Whether pixel `(px, py)` of the canvas lies in `d`'s rectangle, at local
/// coordinates that come before `(col, row)` in row-major order.
pub open spec fn painted_before(d: DisplayDescriptor, b: Bounds, px: int, py: int, col: int, row: int) -> bool {
    let lx = px + b.min_x - d.x;
    let ly = py + b.min_y - d.y;
    &&& d.contains(px + b.min_x, py + b.min_y)
    &&& (ly < row || (ly == row && lx < col))
}

/// Paints one frame onto the image: each row goes through the row converter,
/// then pixel by pixel to its place on the canvas.
fn paint_frame(img: &mut RgbBuffer, f: &RawFrame, b: Bounds)
    requires
        f.well_formed(),
        b.min_x <= f.display.x,
        b.min_y <= f.display.y,
        f.display.x + f.display.width <= b.max_x,
        f.display.y + f.display.height <= b.max_y,
        rgb_dimensions(*old(img)) == (b.width_spec() as u32, b.height_spec() as u32),
        canvas_fits(b),
        rgb_samples(*old(img)).len() == CANVAS_BPP * b.width_spec() * b.height_spec(),
    ensures
        rgb_dimensions(*final(img)) == rgb_dimensions(*old(img)),
        rgb_samples(*final(img)).len() == rgb_samples(*old(img)).len(),
        forall|px: int, py: int, c: int|
            0 <= px < b.width_spec() && 0 <= py < b.height_spec() && 0 <= c < CANVAS_BPP
                ==> #[trigger] rgb_samples(*final(img))[packed_index(b.width_spec(), px, py, 3, c)] == if f.display.contains(px + b.min_x, py + b.min_y) {
                converted_byte(f.bytes@, f.stride as int, px + b.min_x - f.display.x, py + b.min_y - f.display.y, c, false)
            } else {
                rgb_samples(*old(img))[packed_index(b.width_spec(), px, py, 3, c)]
            },
{
    let ghost w = b.width_spec();
    let ghost h = b.height_spec();
    let ghost start = rgb_samples(*img);
    let d = f.display;
    let ox: u32 = (d.x as i64 - b.min_x) as u32;
    let oy: u32 = (d.y as i64 - b.min_y) as u32;
    let mut row: u32 = 0;
    while row < d.height
        invariant
            f.well_formed(),
            d == f.display,
            ox == d.x - b.min_x,
            oy == d.y - b.min_y,
            ox + d.width <= w,
            oy + d.height <= h,
            w == b.width_spec(),
            h == b.height_spec(),
            canvas_fits(b),
            row <= d.height,
            rgb_dimensions(*img) == (w as u32, h as u32),
            rgb_samples(*img).len() == start.len(),
            start.len() == 3 * w * h,
            forall|px: int, py: int, c: int|
                0 <= px < w && 0 <= py < h && 0 <= c < 3 ==> #[trigger] rgb_samples(*img)[packed_index(w, px, py, 3, c)]
                    == if painted_before(d, b, px, py, 0, row as int) {
                    converted_byte(f.bytes@, f.stride as int, px + b.min_x - d.x, py + b.min_y - d.y, c, false)
                } else {
                    start[packed_index(w, px, py, 3, c)]
                },
        decreases d.height - row,
    {
        proof {
            assert(f.stride * row + SOURCE_BPP * d.width <= f.bytes@.len()) by (nonlinear_arith)
                requires
                    f.stride >= SOURCE_BPP * d.width,
                    f.bytes@.len() == f.stride * d.height,
                    row < d.height;
        }
        let mut line: Vec<u8> = Vec::new();
        convert_row(&f.bytes, f.stride, row as usize, d.width as usize, false, &mut line);
        let mut col: u32 = 0;
        while col < d.width
            invariant
                line@.len() == d.width * 3,
                forall|k: int, c: int|
                    0 <= k < d.width && 0 <= c < 3 ==> line@[k * 3 + c] == #[trigger] converted_byte(
                        f.bytes@,
                        f.stride as int,
                        k,
                        row as int,
                        c,
                        false,
                    ),
                f.well_formed(),
                d == f.display,
                ox == d.x - b.min_x,
                oy == d.y - b.min_y,
                ox + d.width <= w,
                oy + d.height <= h,
                w == b.width_spec(),
                h == b.height_spec(),
                canvas_fits(b),
                row < d.height,
                col <= d.width,
                rgb_dimensions(*img) == (w as u32, h as u32),
                rgb_samples(*img).len() == start.len(),
                start.len() == 3 * w * h,
                forall|px: int, py: int, c: int|
                    0 <= px < w && 0 <= py < h && 0 <= c < 3 ==> #[trigger] rgb_samples(*img)[packed_index(w, px, py, 3, c)]
                        == if painted_before(d, b, px, py, col as int, row as int) {
                        converted_byte(f.bytes@, f.stride as int, px + b.min_x - d.x, py + b.min_y - d.y, c, false)
                    } else {
                        start[packed_index(w, px, py, 3, c)]
                    },
            decreases d.width - col,
        {
            let ghost before = rgb_samples(*img);
            let i: usize = 3 * (col as usize);
            proof {
                assert(converted_byte(f.bytes@, f.stride as int, col as int, row as int, 0, false) == line@[col * 3 + 0]);
                assert(converted_byte(f.bytes@, f.stride as int, col as int, row as int, 1, false) == line@[col * 3 + 1]);
                assert(converted_byte(f.bytes@, f.stride as int, col as int, row as int, 2, false) == line@[col * 3 + 2]);
            }
            let cx: u32 = ox + col;
            let cy: u32 = oy + row;
            proof {
                lemma_packed_index_bounds(w, cx as int, cy as int, 3, 2);
                assert((cy + 1) * w * 3 <= 3 * w * h) by (nonlinear_arith)
                    requires cy + 1 <= h, 0 <= w;
                assert(packed_index(w, cx as int, cy as int, 3, 2) == (cy * w + cx) * 3 + 2);
            }
            put_rgb_pixel(img, cx, cy, line[i], line[i + 1], line[i + 2]);
            proof {
                assert(rgb_dimensions(*img).0 as int == w);
                assert forall|px: int, py: int, c: int|
                    0 <= px < w && 0 <= py < h && 0 <= c < 3 implies #[trigger] rgb_samples(*img)[packed_index(w, px, py, 3, c)]
                        == if painted_before(d, b, px, py, col + 1, row as int) {
                        converted_byte(f.bytes@, f.stride as int, px + b.min_x - d.x, py + b.min_y - d.y, c, false)
                    } else {
                        start[packed_index(w, px, py, 3, c)]
                    } by {
                    let k = packed_index(w, px, py, 3, c);
                    lemma_packed_index_bounds(w, px, py, 3, c);
                    lemma_packed_index_bounds(w, cx as int, cy as int, 3, 0);
                    assert(packed_index(w, cx as int, cy as int, 3, 0) == (cy * w + cx) * 3);
                    if px == cx && py == cy {
                        assert(k == (cy * w + cx) * 3 + c);
                    } else {
                        if k == (cy * w + cx) * 3 + 0 {
                            lemma_packed_index_injective(w, px, py, c, cx as int, cy as int, 0);
                        }
                        if k == (cy * w + cx) * 3 + 1 {
                            assert((cy * w + cx) * 3 + 1 == packed_index(w, cx as int, cy as int, 3, 1));
                            lemma_packed_index_injective(w, px, py, c, cx as int, cy as int, 1);
                        }
                        if k == (cy * w + cx) * 3 + 2 {
                            assert((cy * w + cx) * 3 + 2 == packed_index(w, cx as int, cy as int, 3, 2));
                            lemma_packed_index_injective(w, px, py, c, cx as int, cy as int, 2);
                        }
                        let base = (cy * w + cx) * 3;
                        assert(k != base && k != base + 1 && k != base + 2);
                        assert((py + 1) * w * 3 <= 3 * w * h) by (nonlinear_arith)
                            requires py + 1 <= h, 0 <= w;
                        assert(0 <= k < before.len());
                        assert(rgb_samples(*img)[k] == before[k]);
                    }
                }
            }
            col = col + 1;
        }
        row = row + 1;
    }
}

/// Composites the frames of all displays onto one zero-filled RGB canvas
/// spanning the union bounding box. Each frame is painted in order, so where
/// rectangles overlap the later frame wins.
pub fn composite(frames: &Vec<RawFrame>) -> (r: Result<Canvas, CaptureError>)
    ensures
        composite_failure(frames@) matches Some(e) ==> r == Err::<Canvas, CaptureError>(e),
        composite_failure(frames@) is None ==> (r matches Ok(cv) && composes(cv, frames@)),
{
    let mut displays: Vec<DisplayDescriptor> = Vec::new();
    let mut k: usize = 0;
    while k < frames.len()
        invariant
            k <= frames@.len(),
            displays@ == displays_of(frames@).subrange(0, k as int),
            forall|j: int| 0 <= j < k ==> (#[trigger] frames@[j]).well_formed(),
        decreases frames@.len() - k,
    {
        if !frames[k].check_well_formed() {
            return Err(CaptureError::CompositingBoundsError);
        }
        displays.push(frames[k].display);
        proof {
            assert(displays@ =~= displays_of(frames@).subrange(0, k + 1));
        }
        k = k + 1;
    }
    proof {
        assert(displays@ =~= displays_of(frames@));
    }
    let b = match bounding_box(&displays) {
        Some(b) => b,
        None => {
            return Err(CaptureError::EnumerationFailure);
        },
    };
    let ghost ds = displays_of(frames@);
    proof {
        lemma_seq_extremes(left_edges(ds));
        lemma_seq_extremes(top_edges(ds));
        lemma_seq_extremes(right_edges(ds));
        lemma_seq_extremes(bottom_edges(ds));
        assert(left_edges(ds)[0] <= right_edges(ds)[0]);
        assert(top_edges(ds)[0] <= bottom_edges(ds)[0]);
    }
    let wide: i64 = b.max_x - b.min_x;
    let tall: i64 = b.max_y - b.min_y;
    if wide > u32::MAX as i64 || tall > u32::MAX as i64 {
        return Err(CaptureError::CompositingBoundsError);
    }
    let w: u32 = wide as u32;
    let h: u32 = tall as u32;
    let size: Option<usize> = (w as usize).checked_mul(h as usize);
    let size: Option<usize> = match size {
        Some(n) => n.checked_mul(CANVAS_BPP),
        None => None,
    };
    if size.is_none() {
        proof {
            assert(CANVAS_BPP * w * h == (w * h) * CANVAS_BPP) by (nonlinear_arith);
            if w * h <= usize::MAX {
            } else {
                assert(CANVAS_BPP * w * h >= w * h) by (nonlinear_arith)
                    requires 0 <= w, 0 <= h;
            }
        }
        return Err(CaptureError::CompositingBoundsError);
    }
    proof {
        assert(CANVAS_BPP * w * h == (w * h) * CANVAS_BPP) by (nonlinear_arith);
        assert(frames@[0].well_formed());
        assert(top_edges(ds)[0] == frames@[0].display.y);
        assert(bottom_edges(ds)[0] == frames@[0].display.y + frames@[0].display.height);
        assert(h >= 1);
        assert(3 * w <= 3 * w * h) by (nonlinear_arith)
            requires h >= 1, w >= 0;
    }
    let mut img = new_rgb_image(w, h);
    proof {
        assert forall|px: int, py: int, c: int|
            0 <= px < w && 0 <= py < h && 0 <= c < 3 implies #[trigger] rgb_samples(img)[packed_index(w as int, px, py, 3, c)]
                == composed_byte(frames@, 0, b, px, py, c) by {
            lemma_packed_index_bounds(w as int, px, py, 3, c);
            assert((py + 1) * w * 3 <= 3 * w * h) by (nonlinear_arith)
                requires py + 1 <= h, 0 <= w;
        }
    }
    let mut k: usize = 0;
    while k < frames.len()
        invariant
            k <= frames@.len(),
            ds == displays_of(frames@),
            b == bounds_of(ds),
            ds.len() == frames@.len(),
            all_well_formed(frames@),
            canvas_fits(b),
            w == b.width_spec(),
            h == b.height_spec(),
            forall|j: int| 0 <= j < ds.len() ==> b.min_x <= #[trigger] left_edges(ds)[j],
            forall|j: int| 0 <= j < ds.len() ==> b.min_y <= #[trigger] top_edges(ds)[j],
            forall|j: int| 0 <= j < ds.len() ==> #[trigger] right_edges(ds)[j] <= b.max_x,
            forall|j: int| 0 <= j < ds.len() ==> #[trigger] bottom_edges(ds)[j] <= b.max_y,
            rgb_dimensions(img) == (w, h),
            rgb_samples(img).len() == 3 * w * h,
            forall|px: int, py: int, c: int|
                0 <= px < w && 0 <= py < h && 0 <= c < 3 ==> #[trigger] rgb_samples(img)[packed_index(w as int, px, py, 3, c)]
                    == composed_byte(frames@, k as int, b, px, py, c),
        decreases frames@.len() - k,
    {
        proof {
            assert(frames@[k as int].well_formed());
            assert(left_edges(ds)[k as int] == frames@[k as int].display.x);
            assert(top_edges(ds)[k as int] == frames@[k as int].display.y);
            assert(right_edges(ds)[k as int] == frames@[k as int].display.x + frames@[k as int].display.width);
            assert(bottom_edges(ds)[k as int] == frames@[k as int].display.y + frames@[k as int].display.height);
        }
        let ghost prev = rgb_samples(img);
        paint_frame(&mut img, &frames[k], b);
        proof {
            assert forall|px: int, py: int, c: int|
                0 <= px < w && 0 <= py < h && 0 <= c < 3 implies #[trigger] rgb_samples(img)[packed_index(w as int, px, py, 3, c)]
                    == composed_byte(frames@, k + 1, b, px, py, c) by {
                assert(prev[packed_index(w as int, px, py, 3, c)] == composed_byte(frames@, k as int, b, px, py, c));
            }
        }
        k = k + 1;
    }
    let pixels = rgb_image_into_raw(img);
    Ok(Canvas { pixels, width: w, height: h })
}

/// No desktop point lies in two of the rectangles.
pub open spec fn pairwise_disjoint(ds: Seq<DisplayDescriptor>) -> bool {
    forall|i: int, j: int, px: int, py: int|
        #![trigger ds[i].contains(px, py), ds[j].contains(px, py)]
        0 <= i < ds.len() && 0 <= j < ds.len() && i != j && ds[i].contains(px, py) ==> !ds[j].contains(px, py)
}

proof fn lemma_composed_uncovered(frames: Seq<RawFrame>, n: int, b: Bounds, px: int, py: int, c: int)
    requires
        0 <= n <= frames.len(),
        forall|i: int| 0 <= i < n ==> !(#[trigger] frames[i].display.contains(px + b.min_x, py + b.min_y)),
    ensures
        composed_byte(frames, n, b, px, py, c) == 0,
    decreases n,
{
    if n > 0 {
        assert(!frames[n - 1].display.contains(px + b.min_x, py + b.min_y));
        lemma_composed_uncovered(frames, n - 1, b, px, py, c);
    }
}

proof fn lemma_composed_covered(frames: Seq<RawFrame>, n: int, b: Bounds, px: int, py: int, c: int, i: int)
    requires
        0 <= i < n <= frames.len(),
        pairwise_disjoint(displays_of(frames)),
        frames[i].display.contains(px + b.min_x, py + b.min_y),
    ensures
        composed_byte(frames, n, b, px, py, c) == converted_byte(
            frames[i].bytes@,
            frames[i].stride as int,
            px + b.min_x - frames[i].display.x,
            py + b.min_y - frames[i].display.y,
            c,
            false,
        ),
    decreases n,
{
    let ds = displays_of(frames);
    if i < n - 1 {
        assert(ds[i].contains(px + b.min_x, py + b.min_y));
        assert(!ds[n - 1].contains(px + b.min_x, py + b.min_y));
        lemma_composed_covered(frames, n - 1, b, px, py, c, i);
    }
}

/// The union bounding box encloses every display, and each of its four
/// edges is an edge of some display.
pub proof fn law_bounding_box_is_tight(ds: Seq<DisplayDescriptor>)
    requires
        ds.len() > 0,
    ensures
        forall|i: int|
            0 <= i < ds.len() ==> bounds_of(ds).min_x <= (#[trigger] ds[i]).x && bounds_of(ds).min_y <= ds[i].y
                && ds[i].x + ds[i].width <= bounds_of(ds).max_x && ds[i].y + ds[i].height <= bounds_of(ds).max_y,
        exists|i: int| 0 <= i < ds.len() && ds[i].x == bounds_of(ds).min_x,
        exists|i: int| 0 <= i < ds.len() && ds[i].y == bounds_of(ds).min_y,
        exists|i: int| 0 <= i < ds.len() && ds[i].x + ds[i].width == bounds_of(ds).max_x,
        exists|i: int| 0 <= i < ds.len() && ds[i].y + ds[i].height == bounds_of(ds).max_y,
{
    lemma_seq_extremes(left_edges(ds));
    lemma_seq_extremes(top_edges(ds));
    lemma_seq_extremes(right_edges(ds));
    lemma_seq_extremes(bottom_edges(ds));
    assert forall|i: int| 0 <= i < ds.len() implies bounds_of(ds).min_x <= (#[trigger] ds[i]).x && bounds_of(ds).min_y
        <= ds[i].y && ds[i].x + ds[i].width <= bounds_of(ds).max_x && ds[i].y + ds[i].height <= bounds_of(ds).max_y by {
        assert(left_edges(ds)[i] == ds[i].x);
        assert(top_edges(ds)[i] == ds[i].y);
        assert(right_edges(ds)[i] == ds[i].x + ds[i].width);
        assert(bottom_edges(ds)[i] == ds[i].y + ds[i].height);
    }
    let a = choose|k: int| 0 <= k < ds.len() && left_edges(ds)[k] == seq_min(left_edges(ds));
    assert(ds[a].x == bounds_of(ds).min_x);
    let a = choose|k: int| 0 <= k < ds.len() && top_edges(ds)[k] == seq_min(top_edges(ds));
    assert(ds[a].y == bounds_of(ds).min_y);
    let a = choose|k: int| 0 <= k < ds.len() && right_edges(ds)[k] == seq_max(right_edges(ds));
    assert(ds[a].x + ds[a].width == bounds_of(ds).max_x);
    let a = choose|k: int| 0 <= k < ds.len() && bottom_edges(ds)[k] == seq_max(bottom_edges(ds));
    assert(ds[a].y + ds[a].height == bounds_of(ds).max_y);
}

/// For displays that do not overlap, a composed canvas is as wide and as
/// tall as the union bounding box, shows every display's converted pixels at
/// the display's place, and holds zero wherever no display lies.
pub proof fn law_composite_places_displays(frames: Seq<RawFrame>, cv: Canvas)
    requires
        frames.len() > 0,
        composes(cv, frames),
        pairwise_disjoint(displays_of(frames)),
    ensures
        cv.width == bounds_of(displays_of(frames)).max_x - bounds_of(displays_of(frames)).min_x,
        cv.height == bounds_of(displays_of(frames)).max_y - bounds_of(displays_of(frames)).min_y,
        forall|i: int, col: int, row: int, c: int|
            0 <= i < frames.len() && 0 <= col < frames[i].display.width && 0 <= row < frames[i].display.height && 0
                <= c < CANVAS_BPP ==> cv.pixels@[packed_index(
                cv.width as int,
                frames[i].display.x - bounds_of(displays_of(frames)).min_x + col,
                frames[i].display.y - bounds_of(displays_of(frames)).min_y + row,
                CANVAS_BPP as int,
                c,
            )] == #[trigger] converted_byte(frames[i].bytes@, frames[i].stride as int, col, row, c, false),
        forall|px: int, py: int, c: int|
            0 <= px < cv.width && 0 <= py < cv.height && 0 <= c < CANVAS_BPP && (forall|i: int|
                0 <= i < frames.len() ==> !(#[trigger] frames[i].display.contains(
                    px + bounds_of(displays_of(frames)).min_x,
                    py + bounds_of(displays_of(frames)).min_y,
                ))) ==> cv.pixels@[#[trigger] packed_index(cv.width as int, px, py, CANVAS_BPP as int, c)] == 0,
{
    let ds = displays_of(frames);
    let b = bounds_of(ds);
    law_bounding_box_is_tight(ds);
    assert forall|i: int, col: int, row: int, c: int|
        0 <= i < frames.len() && 0 <= col < frames[i].display.width && 0 <= row < frames[i].display.height && 0 <= c
            < CANVAS_BPP implies cv.pixels@[packed_index(
            cv.width as int,
            frames[i].display.x - b.min_x + col,
            frames[i].display.y - b.min_y + row,
            CANVAS_BPP as int,
            c,
        )] == #[trigger] converted_byte(frames[i].bytes@, frames[i].stride as int, col, row, c, false) by {
        assert(ds[i] == frames[i].display);
        let px = frames[i].display.x - b.min_x + col;
        let py = frames[i].display.y - b.min_y + row;
        lemma_composed_covered(frames, frames.len() as int, b, px, py, c, i);
        assert(composed_byte(frames, frames.len() as int, b, px, py, c) == converted_byte(
            frames[i].bytes@,
            frames[i].stride as int,
            col,
            row,
            c,
            false,
        ));
    }
    assert forall|px: int, py: int, c: int|
        0 <= px < cv.width && 0 <= py < cv.height && 0 <= c < CANVAS_BPP && (forall|i: int|
            0 <= i < frames.len() ==> !(#[trigger] frames[i].display.contains(px + b.min_x, py + b.min_y)))
            implies cv.pixels@[#[trigger] packed_index(cv.width as int, px, py, CANVAS_BPP as int, c)] == 0 by {
        lemma_composed_uncovered(frames, frames.len() as int, b, px, py, c);
        assert(composed_byte(frames, frames.len() as int, b, px, py, c) == 0);
    }
}

} // verus!
