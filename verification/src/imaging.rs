use vstd::prelude::*;
use crate::raster::{lemma_offset_in_grid, offset, Color, Raster};

verus! {

/// An 8-bit gray image in the pixel buffer of the `image` crate. Nothing
/// inside it is visible to the proofs: what it holds is spoken of through
/// `gray_extent` and `gray_pixels`.
#[verifier::external_body]
pub struct GrayBuffer {
    inner: image::GrayImage,
}

/// An 8-bit RGB image in the pixel buffer of the `image` crate, spoken of
/// through `rgb_extent` and `rgb_pixels`. Every such image is made by
/// `image_from_colors`, so its buffer holds its pixels and nothing more.
#[verifier::external_body]
pub struct RgbBuffer {
    inner: image::RgbImage,
}

/// Width and height of a gray image, as `dimensions` returns them.
pub uninterp spec fn gray_extent(img: GrayBuffer) -> (nat, nat);

/// The pixels of a gray image, row after row, as `get_pixel` reads them.
pub uninterp spec fn gray_pixels(img: GrayBuffer) -> Seq<u8>;

/// Width and height of a colour image, as `dimensions` returns them.
pub uninterp spec fn rgb_extent(img: RgbBuffer) -> (nat, nat);

/// The pixels of a colour image, row after row, as `get_pixel` reads them.
pub uninterp spec fn rgb_pixels(img: RgbBuffer) -> Seq<Color>;

/// The channel of `color` that is stored at place `k` of its three bytes:
/// red, green, blue.
pub open spec fn channel(color: Color, k: int) -> u8 {
    if k == 0 {
        color.red
    } else if k == 1 {
        color.green
    } else {
        color.blue
    }
}

/// The bytes of a sequence of colours laid end to end, three to a colour.
pub open spec fn interleaved(pixels: Seq<Color>) -> Seq<u8> {
    Seq::new(3 * pixels.len(), |i: int| channel(pixels[i / 3], i % 3))
}

/// Whether a grid of this size can be held as a colour image: both sides
/// fit in 32 bits and three bytes a pixel can be allocated.
pub open spec fn fits_image(width: nat, height: nat) -> bool {
    width <= u32::MAX && height <= u32::MAX && 3 * width * height <= isize::MAX
}

/// `ImageBuffer::from_raw` for a gray image: the buffer is accepted when it
/// holds at least `width * height` bytes, and the pixels are then the first
/// `width * height` of them, row after row.
#[verifier::external_body]
fn gray_from_raw(width: u32, height: u32, bytes: Vec<u8>) -> (result: Option<GrayBuffer>)
    ensures
        result.is_some() <==> width * height <= bytes@.len(),
        result matches Some(img) ==> gray_extent(img) == (width as nat, height as nat)
            && gray_pixels(img) == bytes@.subrange(0, width * height),
{
    match image::GrayImage::from_raw(width, height, bytes) {
        Some(inner) => Some(GrayBuffer { inner }),
        None => None,
    }
}

/// `ImageBuffer::dimensions` on a gray image: returns the stored width and
/// height. The image has one pixel for each position within them.
#[verifier::external_body]
fn gray_dimensions(img: &GrayBuffer) -> (d: (u32, u32))
    ensures
        gray_extent(*img) == (d.0 as nat, d.1 as nat),
        gray_pixels(*img).len() == d.0 * d.1,
{
    img.inner.dimensions()
}

/// `ImageBuffer::get_pixel` on a gray image: returns the pixel in column `x`
/// of row `y`. It panics outside the image, which the precondition excludes.
#[verifier::external_body]
fn gray_pixel(img: &GrayBuffer, x: u32, y: u32) -> (v: u8)
    requires
        x < gray_extent(*img).0,
        y < gray_extent(*img).1,
    ensures
        v == gray_pixels(*img)[offset(gray_extent(*img).0, x as int, y as int)],
{
    img.inner.get_pixel(x, y).0[0]
}

/// `ImageBuffer::dimensions` on a colour image: returns the stored width and
/// height. The image has one pixel for each position within them.
#[verifier::external_body]
fn rgb_dimensions(img: &RgbBuffer) -> (d: (u32, u32))
    ensures
        rgb_extent(*img) == (d.0 as nat, d.1 as nat),
        rgb_pixels(*img).len() == d.0 * d.1,
{
    img.inner.dimensions()
}

/// `ImageBuffer::get_pixel` on a colour image: returns the three channels of
/// the pixel in column `x` of row `y`. It panics outside the image, which the
/// precondition excludes.
#[verifier::external_body]
fn rgb_pixel(img: &RgbBuffer, x: u32, y: u32) -> (c: Color)
    requires
        x < rgb_extent(*img).0,
        y < rgb_extent(*img).1,
    ensures
        c == rgb_pixels(*img)[offset(rgb_extent(*img).0, x as int, y as int)],
{
    let p = img.inner.get_pixel(x, y);
    Color { red: p.0[0], green: p.0[1], blue: p.0[2] }
}

/// `ImageBuffer::new` for a colour image: an image of the given size whose
/// channels are all zero. It panics when three bytes per pixel cannot be
/// counted or allocated, which the precondition excludes.
#[verifier::external_body]
fn rgb_blank(width: u32, height: u32) -> (img: RgbBuffer)
    requires
        3 * width * height <= isize::MAX,
    ensures
        rgb_extent(img) == (width as nat, height as nat),
        rgb_pixels(img) == Seq::new(
            (width * height) as nat,
            |i: int| (Color { red: 0, green: 0, blue: 0 }),
        ),
{
    RgbBuffer { inner: image::RgbImage::new(width, height) }
}

/// `ImageBuffer::put_pixel` on a colour image: replaces the pixel in column
/// `x` of row `y` and leaves every other pixel and the size as they were. It
/// panics outside the image, which the precondition excludes.
#[verifier::external_body]
fn rgb_put(img: &mut RgbBuffer, x: u32, y: u32, color: Color)
    requires
        x < rgb_extent(*old(img)).0,
        y < rgb_extent(*old(img)).1,
    ensures
        rgb_extent(*final(img)) == rgb_extent(*old(img)),
        rgb_pixels(*final(img)) == rgb_pixels(*old(img)).update(
            offset(rgb_extent(*old(img)).0, x as int, y as int),
            color,
        ),
{
    img.inner.put_pixel(x, y, image::Rgb([color.red, color.green, color.blue]))
}

/// `ImageBuffer::into_raw` on a colour image: gives up the underlying bytes.
/// The buffer of an image made by `new` holds three bytes for each pixel,
/// red, green, blue, row after row, and nothing else.
#[verifier::external_body]
fn rgb_into_raw(img: RgbBuffer) -> (bytes: Vec<u8>)
    ensures
        bytes@ == interleaved(rgb_pixels(img)),
{
    img.inner.into_raw()
}

impl GrayBuffer {
    /// Makes a gray image of the given size from its pixels, row after row.
    /// The bytes are accepted exactly when there is one for each pixel.
    pub fn from_bytes(width: u32, height: u32, bytes: Vec<u8>) -> (result: Option<GrayBuffer>)
        ensures
            result.is_some() <==> bytes@.len() == width * height,
            result matches Some(img) ==> gray_extent(img) == (width as nat, height as nat)
                && gray_pixels(img) == bytes@,
    {
        let given: usize = bytes.len();
        match (width as usize).checked_mul(height as usize) {
            Some(count) => {
                if given == count {
                    proof {
                        assert(bytes@.subrange(0, width * height) =~= bytes@);
                    }
                    gray_from_raw(width, height, bytes)
                } else {
                    None
                }
            },
            None => None,
        }
    }
}

impl RgbBuffer {
    /// Gives up the image as its size and its bytes: three for each pixel,
    /// red, green, blue, row after row.
    pub fn into_bytes(self) -> (result: (u32, u32, Vec<u8>))
        ensures
            rgb_extent(self) == (result.0 as nat, result.1 as nat),
            result.2@ == interleaved(rgb_pixels(self)),
            result.2@.len() == 3 * (result.0 * result.1),
    {
        let d: (u32, u32) = rgb_dimensions(&self);
        let bytes: Vec<u8> = rgb_into_raw(self);
        (d.0, d.1, bytes)
    }
}

/// Reads a gray image into an elevation raster of the same size, pixel for
/// pixel.
pub fn elevation_from_image(img: &GrayBuffer) -> (out: Raster<u8>)
    ensures
        out.spec_width() == gray_extent(*img).0,
        out.spec_height() == gray_extent(*img).1,
        out@ == gray_pixels(*img),
{
    let d: (u32, u32) = gray_dimensions(img);
    let width: u32 = d.0;
    let height: u32 = d.1;
    let mut samples: Vec<u8> = Vec::new();
    let mut y: u32 = 0;
    while y < height
        invariant
            gray_extent(*img) == (width as nat, height as nat),
            gray_pixels(*img).len() == width * height,
            y <= height,
            samples@.len() == y * width,
            forall|k: int| 0 <= k < samples@.len() ==> samples@[k] == gray_pixels(*img)[k],
        decreases height - y,
    {
        let mut x: u32 = 0;
        while x < width
            invariant
                gray_extent(*img) == (width as nat, height as nat),
                y < height,
                x <= width,
                samples@.len() == y * width + x,
                forall|k: int| 0 <= k < samples@.len() ==> samples@[k] == gray_pixels(*img)[k],
            decreases width - x,
        {
            let v: u8 = gray_pixel(img, x, y);
            samples.push(v);
            x = x + 1;
        }
        proof {
            assert((y + 1) * width == y * width + width) by (nonlinear_arith);
        }
        y = y + 1;
    }
    proof {
        assert(height * width == width * height) by (nonlinear_arith);
        assert(samples@ =~= gray_pixels(*img));
    }
    Raster::from_vec(width as usize, height as usize, samples).unwrap()
}

/// Reads a colour image into a raster of the same size, pixel for pixel.
pub fn colors_from_image(img: &RgbBuffer) -> (out: Raster<Color>)
    ensures
        out.spec_width() == rgb_extent(*img).0,
        out.spec_height() == rgb_extent(*img).1,
        out@ == rgb_pixels(*img),
{
    let d: (u32, u32) = rgb_dimensions(img);
    let width: u32 = d.0;
    let height: u32 = d.1;
    let mut samples: Vec<Color> = Vec::new();
    let mut y: u32 = 0;
    while y < height
        invariant
            rgb_extent(*img) == (width as nat, height as nat),
            rgb_pixels(*img).len() == width * height,
            y <= height,
            samples@.len() == y * width,
            forall|k: int| 0 <= k < samples@.len() ==> samples@[k] == rgb_pixels(*img)[k],
        decreases height - y,
    {
        let mut x: u32 = 0;
        while x < width
            invariant
                rgb_extent(*img) == (width as nat, height as nat),
                y < height,
                x <= width,
                samples@.len() == y * width + x,
                forall|k: int| 0 <= k < samples@.len() ==> samples@[k] == rgb_pixels(*img)[k],
            decreases width - x,
        {
            let c: Color = rgb_pixel(img, x, y);
            samples.push(c);
            x = x + 1;
        }
        proof {
            assert((y + 1) * width == y * width + width) by (nonlinear_arith);
        }
        y = y + 1;
    }
    proof {
        assert(height * width == width * height) by (nonlinear_arith);
        assert(samples@ =~= rgb_pixels(*img));
    }
    Raster::from_vec(width as usize, height as usize, samples).unwrap()
}

/// Whether a grid of this size can be held as a colour image.
pub fn can_hold(width: usize, height: usize) -> (ok: bool)
    ensures
        ok == fits_image(width as nat, height as nat),
{
    if width > u32::MAX as usize || height > u32::MAX as usize {
        return false;
    }
    match width.checked_mul(height) {
        Some(count) => match count.checked_mul(3) {
            Some(bytes) => {
                proof {
                    assert(3 * width * height == (width * height) * 3) by (nonlinear_arith);
                }
                bytes <= isize::MAX as usize
            },
            None => {
                proof {
                    assert(3 * width * height == (width * height) * 3) by (nonlinear_arith);
                }
                false
            },
        },
        None => {
            proof {
                assert(3 * width * height >= width * height) by (nonlinear_arith)
                    requires
                        width * height >= 0,
                ;
            }
            false
        },
    }
}

/// Writes a colour raster into an image of the same size, pixel for pixel.
/// A raster too large for an image gives `None`.
pub fn image_from_colors(colors: &Raster<Color>) -> (result: Option<RgbBuffer>)
    ensures
        result.is_some() <==> fits_image(colors.spec_width(), colors.spec_height()),
        result matches Some(img) ==> {
            &&& rgb_extent(img) == (colors.spec_width(), colors.spec_height())
            &&& rgb_pixels(img) == colors@
        },
{
    if !can_hold(colors.width(), colors.height()) {
        return None;
    }
    let count: usize = colors.len();
    let width: u32 = colors.width() as u32;
    let height: u32 = colors.height() as u32;
    proof {
        assert(3 * width * height == 3 * (width * height)) by (nonlinear_arith);
    }
    let mut img: RgbBuffer = rgb_blank(width, height);
    let mut y: u32 = 0;
    while y < height
        invariant
            width == colors.spec_width(),
            height == colors.spec_height(),
            count == colors@.len(),
            count == width * height,
            rgb_extent(img) == (width as nat, height as nat),
            rgb_pixels(img).len() == count,
            y <= height,
            forall|k: int| 0 <= k < y * width ==> rgb_pixels(img)[k] == colors@[k],
        decreases height - y,
    {
        let mut x: u32 = 0;
        while x < width
            invariant
                width == colors.spec_width(),
                height == colors.spec_height(),
                count == colors@.len(),
                count == width * height,
                rgb_extent(img) == (width as nat, height as nat),
                rgb_pixels(img).len() == count,
                y < height,
                x <= width,
                forall|k: int| 0 <= k < y * width + x ==> rgb_pixels(img)[k] == colors@[k],
            decreases width - x,
        {
            proof {
                lemma_offset_in_grid(width as nat, height as nat, x as int, y as int);
            }
            let c: Color = *colors.pixel(x as usize, y as usize);
            rgb_put(&mut img, x, y, c);
            x = x + 1;
        }
        proof {
            assert((y + 1) * width == y * width + width) by (nonlinear_arith);
        }
        y = y + 1;
    }
    proof {
        assert(height * width == width * height) by (nonlinear_arith);
        assert(rgb_pixels(img) =~= colors@);
    }
    Some(img)
}

} // verus!
