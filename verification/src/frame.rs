//! RGBA frames of the focus sweep and the pixel operations on them:
//! cropping, scaling, shifting and compositing.

use vstd::prelude::*;

verus! {

/// An RGBA image held row by row: pixel `(x, y)` is `pixels[y * width + x]`.
#[derive(Debug)]
pub struct RgbaFrame {
    pub width: u32,
    pub height: u32,
    pub pixels: Vec<[u8; 4]>,
}

impl RgbaFrame {
    /// Holds exactly one pixel per position.
    pub open spec fn well_formed(&self) -> bool {
        &&& self.pixels.len() == self.width * self.height
        &&& self.width * self.height * 4 <= usize::MAX
    }

    pub open spec fn pixel(&self, x: int, y: int) -> [u8; 4] {
        self.pixels@[y * self.width + x]
    }
}

/// `v` limited to `0..=max`.
pub open spec fn clamp_to(v: int, max: int) -> int {
    if v < 0 {
        0
    } else if v > max {
        max
    } else {
        v
    }
}

/// Whether shifting by `(dx, dy)` stays within `i32` arithmetic, as the
/// shift computes `x + dx` and `y + dy` in `i32`.
pub open spec fn shift_fits(image: &RgbaFrame, dx: i32, dy: i32) -> bool {
    image.width <= i32::MAX && image.height <= i32::MAX && (image.width == 0 || image.height == 0
        || (image.width - 1 + dx <= i32::MAX && image.height - 1 + dy <= i32::MAX))
}

proof fn lemma_row_index(x: int, y: int, w: int, h: int)
    requires
        0 <= x < w,
        0 <= y < h,
    ensures
        0 <= y * w + x < h * w,
        h * w == w * h,
        y * w + x < (y + 1) * w,
        y * w <= y * w + x,
{
    assert(y * w + x < (y + 1) * w) by (nonlinear_arith)
        requires
            0 <= x < w,
    ;
    assert((y + 1) * w <= h * w) by (nonlinear_arith)
        requires
            y + 1 <= h,
            0 <= w,
    ;
    assert(0 <= y * w) by (nonlinear_arith)
        requires
            0 <= y,
            0 <= w,
    ;
}

/// Shifts an image by `(dx, dy)`: each output pixel `(x, y)` takes the input
/// pixel at `(x + dx, y + dy)`, clamped to the image, so the border repeats.
pub fn translate(image: &RgbaFrame, dx: i32, dy: i32) -> (out: RgbaFrame)
    requires
        image.well_formed(),
        shift_fits(image, dx, dy),
    ensures
        out.well_formed(),
        out.width == image.width,
        out.height == image.height,
        forall|x: int, y: int|
            0 <= x < image.width && 0 <= y < image.height ==> #[trigger] out.pixel(x, y)
                == image.pixel(
                clamp_to(x + dx, image.width - 1),
                clamp_to(y + dy, image.height - 1),
            ),
{
    let w = image.width;
    let h = image.height;
    let mut pixels: Vec<[u8; 4]> = Vec::new();
    let mut y: u32 = 0;
    while y < h
        invariant
            image.well_formed(),
            shift_fits(image, dx, dy),
            w == image.width,
            h == image.height,
            y <= h,
            pixels.len() == y * w,
            forall|xx: int, yy: int|
                0 <= xx < w && 0 <= yy < y ==> #[trigger] pixels@[yy * w + xx] == image.pixel(
                    clamp_to(xx + dx, w - 1),
                    clamp_to(yy + dy, h - 1),
                ),
        decreases h - y,
    {
        let mut x: u32 = 0;
        while x < w
            invariant
                image.well_formed(),
                shift_fits(image, dx, dy),
                w == image.width,
                h == image.height,
                y < h,
                x <= w,
                pixels.len() == y * w + x,
                forall|xx: int, yy: int|
                    0 <= xx < w && 0 <= yy < y ==> #[trigger] pixels@[yy * w + xx] == image.pixel(
                        clamp_to(xx + dx, w - 1),
                        clamp_to(yy + dy, h - 1),
                    ),
                forall|xx: int|
                    0 <= xx < x ==> #[trigger] pixels@[y * w + xx] == image.pixel(
                        clamp_to(xx + dx, w - 1),
                        clamp_to(y + dy, h - 1),
                    ),
            decreases w - x,
        {
            let sy_wide = y as i32 + dy;
            let sy: u32 = if sy_wide < 0 {
                0
            } else if sy_wide > h as i32 - 1 {
                h - 1
            } else {
                sy_wide as u32
            };
            let sx_wide = x as i32 + dx;
            let sx: u32 = if sx_wide < 0 {
                0
            } else if sx_wide > w as i32 - 1 {
                w - 1
            } else {
                sx_wide as u32
            };
            proof {
                lemma_row_index(sx as int, sy as int, w as int, h as int);
                lemma_row_index(x as int, y as int, w as int, h as int);
            }
            let index = sy as usize * w as usize + sx as usize;
            let p = image.pixels[index];
            pixels.push(p);
            proof {
                assert forall|xx: int, yy: int|
                    0 <= xx < w && 0 <= yy < y implies #[trigger] pixels@[yy * w + xx] == image.pixel(
                    clamp_to(xx + dx, w - 1),
                    clamp_to(yy + dy, h - 1),
                ) by {
                    lemma_row_index(xx, yy, w as int, y as int);
                }
                assert forall|xx: int| 0 <= xx < x + 1 implies #[trigger] pixels@[y * w + xx]
                    == image.pixel(clamp_to(xx + dx, w - 1), clamp_to(y + dy, h - 1)) by {
                    lemma_row_index(xx, y as int, w as int, h as int);
                }
            }
            x += 1;
        }
        proof {
            assert(y * w + w == (y + 1) * w) by (nonlinear_arith);
            assert forall|xx: int, yy: int|
                0 <= xx < w && 0 <= yy < y + 1 implies #[trigger] pixels@[yy * w + xx] == image.pixel(
                clamp_to(xx + dx, w - 1),
                clamp_to(yy + dy, h - 1),
            ) by {
                if yy == y {
                    assert(pixels@[y * w + xx] == image.pixel(
                        clamp_to(xx + dx, w - 1),
                        clamp_to(y + dy, h - 1),
                    ));
                }
            }
        }
        y += 1;
    }
    proof {
        assert(h * w == w * h) by (nonlinear_arith);
    }
    let out = RgbaFrame { width: w, height: h, pixels };
    assert forall|x: int, y: int|
        0 <= x < image.width && 0 <= y < image.height implies #[trigger] out.pixel(x, y)
        == image.pixel(clamp_to(x + dx, image.width - 1), clamp_to(y + dy, image.height - 1)) by {
        assert(out.pixel(x, y) == pixels@[y * w + x]);
    }
    out
}


/// The pixels `image::imageops::resize` computes with the `Triangle` filter
/// when it scales a `width` × `height` image to `new_width` × `new_height`.
pub uninterp spec fn resized_pixels(
    pixels: Seq<[u8; 4]>,
    width: u32,
    height: u32,
    new_width: u32,
    new_height: u32,
) -> Seq<[u8; 4]>;

/// Whether scaling to `new_width` × `new_height` stays within what a buffer
/// can address: the result, and the column pass of `f32` pixels that
/// `resize` builds first.
pub open spec fn resize_fits(frame: &RgbaFrame, new_width: u32, new_height: u32) -> bool {
    &&& new_width * new_height * 4 <= isize::MAX
    &&& frame.width * new_height * 16 <= isize::MAX
}

/// Scales a frame with `image::imageops::resize` and the `Triangle` filter.
/// The result has the requested size and the pixels that `resize` computes
/// from the frame's pixels and both sizes; `resize` copies the frame when the
/// size does not change, and returns black transparent pixels for an empty
/// frame. The filter's arithmetic itself is not stated.
#[verifier::external_body]
pub(crate) fn resize_triangle(frame: &RgbaFrame, new_width: u32, new_height: u32) -> (out: RgbaFrame)
    requires
        frame.well_formed(),
        resize_fits(frame, new_width, new_height),
    ensures
        out.width == new_width,
        out.height == new_height,
        out.well_formed(),
        out.pixels@ == resized_pixels(
            frame.pixels@,
            frame.width,
            frame.height,
            new_width,
            new_height,
        ),
        new_width == frame.width && new_height == frame.height ==> out.pixels@ == frame.pixels@,
        frame.width == 0 || frame.height == 0 ==> forall|i: int|
            0 <= i < out.pixels.len() ==> #[trigger] out.pixels@[i] == [0u8, 0u8, 0u8, 0u8],
{
    let bytes: Vec<u8> = frame.pixels.iter().flat_map(|p| p.iter().copied()).collect();
    let image = image::RgbaImage::from_raw(frame.width, frame.height, bytes).unwrap();
    let resized = image::imageops::resize(
        &image,
        new_width,
        new_height,
        image::imageops::FilterType::Triangle,
    );
    RgbaFrame { width: new_width, height: new_height, pixels: resized.pixels().map(|p| p.0).collect() }
}

/// The rectangle that `image::imageops::crop_imm` keeps of a `frame_width` ×
/// `frame_height` image when asked for `width` × `height` at `(x, y)`: the
/// corner is moved inside the image and the size cut to what remains.
pub open spec fn crop_box(
    frame_width: u32,
    frame_height: u32,
    x: u32,
    y: u32,
    width: u32,
    height: u32,
) -> (u32, u32, u32, u32) {
    let cx = if x <= frame_width { x } else { frame_width };
    let cy = if y <= frame_height { y } else { frame_height };
    (
        cx,
        cy,
        if width <= frame_width - cx { width } else { (frame_width - cx) as u32 },
        if height <= frame_height - cy { height } else { (frame_height - cy) as u32 },
    )
}

/// `out` is the part of `frame` inside the rectangle at `(x, y)` of `width` × `height`.
pub open spec fn is_crop_of(out: &RgbaFrame, frame: &RgbaFrame, x: u32, y: u32, width: u32, height: u32) -> bool {
    let (cx, cy, cw, ch) = crop_box(frame.width, frame.height, x, y, width, height);
    &&& out.width == cw
    &&& out.height == ch
    &&& out.well_formed()
    &&& forall|i: int, j: int|
        0 <= i < cw && 0 <= j < ch ==> #[trigger] out.pixel(i, j) == frame.pixel(cx + i, cy + j)
}

/// Crops a frame with `image::imageops::crop_imm` and copies the part out
/// with `SubImage::to_image`: the result is the rectangle [`crop_box`] keeps.
#[verifier::external_body]
fn crop_imm_frame(frame: &RgbaFrame, x: u32, y: u32, width: u32, height: u32) -> (out: RgbaFrame)
    requires
        frame.well_formed(),
    ensures
        is_crop_of(&out, frame, x, y, width, height),
{
    let bytes: Vec<u8> = frame.pixels.iter().flat_map(|p| p.iter().copied()).collect();
    let image = image::RgbaImage::from_raw(frame.width, frame.height, bytes).unwrap();
    let part = image::imageops::crop_imm(&image, x, y, width, height).to_image();
    RgbaFrame { width: part.width(), height: part.height(), pixels: part.pixels().map(|p| p.0).collect() }
}

/// The extent of a crop from `start` to `end`: their distance, and at least one pixel.
pub open spec fn crop_extent(start: u32, end: u32) -> u32 {
    if end > start {
        (end - start) as u32
    } else {
        1
    }
}

/// Crops a frame to the pixel bounds `left..right` × `top..bottom`, keeping
/// at least one pixel in each direction before `crop_imm` clamps to the frame.
pub fn crop_pixels(frame: &RgbaFrame, left: u32, top: u32, right: u32, bottom: u32) -> (out: RgbaFrame)
    requires
        frame.well_formed(),
    ensures
        is_crop_of(&out, frame, left, top, crop_extent(left, right), crop_extent(top, bottom)),
{
    let width = if right > left { right - left } else { 1 };
    let height = if bottom > top { bottom - top } else { 1 };
    crop_imm_frame(frame, left, top, width, height)
}

/// Assembles the all-in-focus image: pixel `p` comes from frame `choice[p]`.
pub fn composite(frames: &Vec<RgbaFrame>, choice: &Vec<usize>, width: u32, height: u32) -> (out: RgbaFrame)
    requires
        width * height * 4 <= usize::MAX,
        choice.len() == width * height,
        forall|k: int|
            0 <= k < frames.len() ==> (#[trigger] frames@[k]).pixels.len() == width * height,
        forall|p: int| 0 <= p < choice.len() ==> #[trigger] choice@[p] < frames.len(),
    ensures
        out.width == width,
        out.height == height,
        out.well_formed(),
        forall|p: int|
            0 <= p < width * height ==> #[trigger] out.pixels@[p] == frames@[choice@[p] as int].pixels@[p],
{
    let mut pixels: Vec<[u8; 4]> = Vec::new();
    let mut p: usize = 0;
    while p < choice.len()
        invariant
            p <= choice.len(),
            choice.len() == width * height,
            pixels.len() == p,
            forall|k: int|
                0 <= k < frames.len() ==> (#[trigger] frames@[k]).pixels.len() == width * height,
            forall|q: int| 0 <= q < choice.len() ==> #[trigger] choice@[q] < frames.len(),
            forall|q: int| 0 <= q < p ==> #[trigger] pixels@[q] == frames@[choice@[q] as int].pixels@[q],
        decreases choice.len() - p,
    {
        let z = choice[p];
        let frame = &frames[z];
        pixels.push(frame.pixels[p]);
        p += 1;
    }
    RgbaFrame { width, height, pixels }
}

} // verus!
