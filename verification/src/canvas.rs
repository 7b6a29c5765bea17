//! The two pixel buffers of the `image` crate that QR rendering works with:
//! an RGBA canvas that the styles paint on, and the grey-scale picture of a
//! QR code that they read. Each is held in a struct of this crate whose
//! contents the contracts describe as a map from positions to pixel values.

use vstd::prelude::*;
use image::{DynamicImage, GrayImage, ImageError, ImageFormat, Rgba, RgbaImage};
use image::imageops::FilterType;
use std::io::Cursor;

verus! {

#[verifier::external_type_specification]
#[verifier::external_body]
pub struct ExImageError(ImageError);

/// The set of positions inside a picture of the given width and height.
pub open spec fn grid(dims: (u32, u32)) -> Set<(u32, u32)> {
    Set::new(|p: (u32, u32)| p.0 < dims.0 && p.1 < dims.1)
}

/// An RGBA picture (`image::RgbaImage`) that the QR styles paint on.
#[verifier::external_body]
pub struct Canvas {
    img: RgbaImage,
}

/// The colour of each pixel of a canvas, by `(x, y)`.
pub uninterp spec fn canvas_pixels(c: Canvas) -> Map<(u32, u32), [u8; 4]>;

/// The width and height that a canvas was made with.
pub uninterp spec fn canvas_dims(c: Canvas) -> (u32, u32);

/// A canvas knows the colour of exactly the positions inside it.
pub open spec fn canvas_wf(c: Canvas) -> bool {
    canvas_pixels(c).dom() == grid(canvas_dims(c))
}

/// The map that a `width` by `height` canvas filled with `color` holds.
pub open spec fn filled_pixels(dims: (u32, u32), color: [u8; 4]) -> Map<(u32, u32), [u8; 4]> {
    Map::new(|p: (u32, u32)| grid(dims).contains(p), |p: (u32, u32)| color)
}

/// What `DynamicImage::resize` with the triangle filter makes of a canvas
/// with the given size and pixels, when asked for the given bounds: the new
/// size and pixels.
pub uninterp spec fn triangle_resized(
    dims: (u32, u32),
    pixels: Map<(u32, u32), [u8; 4]>,
    bounds: (u32, u32),
) -> ((u32, u32), Map<(u32, u32), [u8; 4]>);

/// What `DynamicImage::write_to` with `ImageFormat::Png` writes for an RGBA
/// picture with the given size and pixels.
pub uninterp spec fn png_encoding(dims: (u32, u32), pixels: Map<(u32, u32), [u8; 4]>) -> Result<
    Seq<u8>,
    ImageError,
>;

impl Canvas {
    /// `ImageBuffer::from_pixel`: a canvas of the given size in which every
    /// pixel is `color`. It panics when the byte length, four bytes a pixel,
    /// does not fit in a vector; `requires` leaves such sizes out.
    #[verifier::external_body]
    pub(crate) fn filled(width: u32, height: u32, color: [u8; 4]) -> (c: Canvas)
        requires
            4 * (width as int) * (height as int) <= isize::MAX,
        ensures
            canvas_dims(c) == (width, height),
            canvas_pixels(c) == filled_pixels((width, height), color),
    {
        Canvas { img: RgbaImage::from_pixel(width, height, Rgba(color)) }
    }

    /// `ImageBuffer::width`.
    #[verifier::external_body]
    pub fn width(&self) -> (w: u32)
        ensures
            w == canvas_dims(*self).0,
    {
        self.img.width()
    }

    /// `ImageBuffer::height`.
    #[verifier::external_body]
    pub fn height(&self) -> (h: u32)
        ensures
            h == canvas_dims(*self).1,
    {
        self.img.height()
    }

    /// `ImageBuffer::put_pixel`: the pixel at `(x, y)` becomes `color`, and
    /// nothing else changes. It panics outside the picture; `requires`
    /// leaves that out.
    #[verifier::external_body]
    pub(crate) fn put_pixel(&mut self, x: u32, y: u32, color: [u8; 4])
        requires
            x < canvas_dims(*old(self)).0,
            y < canvas_dims(*old(self)).1,
        ensures
            canvas_dims(*final(self)) == canvas_dims(*old(self)),
            canvas_pixels(*final(self)) == canvas_pixels(*old(self)).insert((x, y), color),
    {
        self.img.put_pixel(x, y, Rgba(color))
    }

    /// `DynamicImage::resize` with `FilterType::Triangle`, which keeps the
    /// aspect ratio and fits the picture inside `new_width` by
    /// `new_height`. The result is named by `triangle_resized`. Stated: a
    /// resized canvas knows exactly the positions inside it, and a square
    /// one fitted into a square becomes that square; its colours are not
    /// stated. Empty pictures are left out.
    #[verifier::external_body]
    pub(crate) fn resized(self, new_width: u32, new_height: u32) -> (r: Canvas)
        requires
            canvas_dims(self).0 > 0,
            canvas_dims(self).1 > 0,
        ensures
            (canvas_dims(r), canvas_pixels(r)) == triangle_resized(
                canvas_dims(self),
                canvas_pixels(self),
                (new_width, new_height),
            ),
            canvas_wf(r),
            canvas_dims(self).0 == canvas_dims(self).1 && 0 < new_width && new_width == new_height ==> canvas_dims(r)
                == (new_width, new_height),
    {
        let img = DynamicImage::ImageRgba8(self.img).resize(new_width, new_height, FilterType::Triangle);
        Canvas { img: img.into_rgba8() }
    }

    /// `DynamicImage::write_to` with `ImageFormat::Png` into a byte vector:
    /// the PNG file of the canvas, or the encoder's error, as named by
    /// `png_encoding`.
    #[verifier::external_body]
    pub(crate) fn into_png(self) -> (r: Result<Vec<u8>, ImageError>)
        ensures
            match png_encoding(canvas_dims(self), canvas_pixels(self)) {
                Ok(bytes) => r matches Ok(v) && v@ == bytes,
                Err(e) => r == Err::<Vec<u8>, ImageError>(e),
            },
    {
        let mut buffer = Vec::new();
        let res = DynamicImage::ImageRgba8(self.img).write_to(&mut Cursor::new(&mut buffer), ImageFormat::Png);
        res.map(|_| buffer)
    }

    /// `ImageBuffer::into_raw`: the canvas as bytes, four a pixel (red,
    /// green, blue, alpha), row after row from the top left.
    #[verifier::external_body]
    fn into_raw(self) -> (r: Vec<u8>)
        ensures
            r@ == raw_bytes(canvas_dims(self), canvas_pixels(self)),
    {
        self.img.into_raw()
    }

    /// The width, the height and the bytes of the canvas, four a pixel
    /// (red, green, blue, alpha), row after row from the top left.
    pub fn into_rgba(self) -> (r: (u32, u32, Vec<u8>))
        ensures
            r.0 == canvas_dims(self).0,
            r.1 == canvas_dims(self).1,
            r.2@ == raw_bytes(canvas_dims(self), canvas_pixels(self)),
    {
        let width = self.width();
        let height = self.height();
        (width, height, self.into_raw())
    }
}

/// The bytes of a picture of size `dims` with the given pixels, four a
/// pixel, row after row: byte `4 * (y * width + x) + k` is channel `k` of
/// the pixel at `(x, y)`.
pub open spec fn raw_bytes(dims: (u32, u32), pixels: Map<(u32, u32), [u8; 4]>) -> Seq<u8> {
    Seq::new(
        (4 * dims.0 * dims.1) as nat,
        |i: int| pixels[(((i / 4) % dims.0 as int) as u32, ((i / 4) / dims.0 as int) as u32)][i % 4],
    )
}

/// A grey-scale picture (`image::GrayImage`) of a QR code: dark pixels are
/// 0, light ones 255.
#[verifier::external_body]
pub struct QrPicture {
    pub(crate) img: GrayImage,
}

/// The grey level of each pixel of a picture, by `(x, y)`.
pub uninterp spec fn picture_pixels(p: QrPicture) -> Map<(u32, u32), u8>;

/// The width and height of a picture.
pub uninterp spec fn picture_dims(p: QrPicture) -> (u32, u32);

impl QrPicture {
    /// `ImageBuffer::width`.
    #[verifier::external_body]
    pub(crate) fn width(&self) -> (w: u32)
        ensures
            w == picture_dims(*self).0,
    {
        self.img.width()
    }

    /// `ImageBuffer::height`.
    #[verifier::external_body]
    pub(crate) fn height(&self) -> (h: u32)
        ensures
            h == picture_dims(*self).1,
    {
        self.img.height()
    }

    /// `ImageBuffer::get_pixel`, first channel: the grey level at `(x, y)`.
    /// It panics outside the picture; `requires` leaves that out.
    #[verifier::external_body]
    pub(crate) fn luma(&self, x: u32, y: u32) -> (v: u8)
        requires
            x < picture_dims(*self).0,
            y < picture_dims(*self).1,
        ensures
            v == picture_pixels(*self)[(x, y)],
    {
        self.img.get_pixel(x, y).0[0]
    }
}

} // verus!
