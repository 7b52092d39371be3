//! Grayscale rasters. The pixels live in an `image::GrayImage`; Verus sees
//! them through three uninterpreted functions, the rows of samples, the
//! width and the length of the buffer, and reaches them through the
//! wrappers of this module.

use vstd::prelude::*;

verus! {

/// An 8-bit grayscale raster (0 is black, 255 is white), stored by the
/// `image` crate. Trusted: the field is hidden from Verus, which cannot
/// take `image::ImageBuffer` itself, a type whose pixel parameter is bound
/// by a trait of that crate.
#[verifier::external_body]
pub struct GrayImage {
    buf: image::GrayImage,
}

/// The samples of a raster, row by row from the top, each row from the left.
pub uninterp spec fn image_rows(img: GrayImage) -> Seq<Seq<u8>>;

/// The width of a raster in pixels. It is kept apart from the rows because a
/// raster without rows still has a width.
pub uninterp spec fn image_width(img: GrayImage) -> nat;

/// The number of samples in the buffer under a raster. It is at least
/// `width * height`; a buffer handed in from outside may be longer.
pub uninterp spec fn image_buffer_len(img: GrayImage) -> nat;

/// The longest side, of the source or of the result, with which a raster is
/// resampled.
pub const MAX_RESAMPLE_SIDE: u32 = 65536;

/// The kernels that `image::imageops::resize` can resample with.
#[verifier::external_type_specification]
#[verifier::external_body]
pub struct ExFilterType(image::imageops::FilterType);

/// A grid of `height` rows of `width` samples, all equal to `value`.
pub open spec fn uniform_rows(width: nat, height: nat, value: u8) -> Seq<Seq<u8>> {
    Seq::new(height, |y: int| Seq::new(width, |x: int| value))
}

/// The grid that a row-major buffer holds in its first `width * height`
/// samples.
pub open spec fn rows_of_raw(width: nat, height: nat, data: Seq<u8>) -> Seq<Seq<u8>> {
    Seq::new(height, |y: int| Seq::new(width, |x: int| data[y * width + x]))
}

/// The row-major buffer that holds the samples of a grid and nothing else.
pub open spec fn raw_of_rows(width: nat, rows: Seq<Seq<u8>>) -> Seq<u8> {
    Seq::new(width * rows.len(), |i: int| rows[i / (width as int)][i % (width as int)])
}

/// Whether every row of a grid has the given width.
pub open spec fn rectangular(rows: Seq<Seq<u8>>, width: nat) -> bool {
    forall|y: int| 0 <= y < rows.len() ==> (#[trigger] rows[y]).len() == width
}

impl GrayImage {
    /// The samples, row by row.
    pub open spec fn rows(&self) -> Seq<Seq<u8>> {
        image_rows(*self)
    }

    /// The width in pixels.
    pub open spec fn spec_width(&self) -> nat {
        image_width(*self)
    }

    /// The height in pixels.
    pub open spec fn spec_height(&self) -> nat {
        image_rows(*self).len()
    }

    /// The number of samples in the buffer under the raster.
    pub open spec fn buffer_len(&self) -> nat {
        image_buffer_len(*self)
    }

    /// The buffer holds the pixels and nothing after them.
    pub open spec fn packed(&self) -> bool {
        self.buffer_len() == self.spec_width() * self.spec_height()
    }

    /// Every row is as long as the raster is wide, and both dimensions fit
    /// in 32 bits. This holds of every raster; Verus learns it from the
    /// function that made the raster or that read its dimensions.
    pub open spec fn wf(&self) -> bool {
        &&& rectangular(self.rows(), self.spec_width())
        &&& self.spec_width() <= u32::MAX
        &&& self.spec_height() <= u32::MAX
    }

    /// Trusted wrapper of `image::ImageBuffer::dimensions`: width and height
    /// as stored. The buffer is a `Vec<u8>` that the constructors of
    /// `ImageBuffer` have checked to hold `width * height` samples, and a
    /// `Vec` never holds more than `isize::MAX` bytes, so every row has the
    /// full width and the product of the two fits.
    #[verifier::external_body]
    pub(crate) fn dimensions(&self) -> (d: (u32, u32))
        ensures
            d.0 == image_width(*self),
            d.1 == image_rows(*self).len(),
            rectangular(image_rows(*self), d.0 as nat),
            d.0 * d.1 <= image_buffer_len(*self) <= isize::MAX,
    {
        self.buf.dimensions()
    }

    /// Trusted wrapper of `image::ImageBuffer::get_pixel`, which panics
    /// outside the raster: the sample at column `x` of row `y`.
    #[verifier::external_body]
    pub(crate) fn sample(&self, x: u32, y: u32) -> (value: u8)
        requires
            x < image_width(*self),
            y < image_rows(*self).len(),
        ensures
            value == image_rows(*self)[y as int][x as int],
    {
        self.buf.get_pixel(x, y).0[0]
    }

    /// Trusted wrapper of `image::ImageBuffer::put_pixel`, which panics
    /// outside the raster: it replaces the sample at column `x` of row `y`
    /// and nothing else; the buffer keeps its length.
    #[verifier::external_body]
    pub(crate) fn set_sample(&mut self, x: u32, y: u32, value: u8)
        requires
            x < image_width(*old(self)),
            y < image_rows(*old(self)).len(),
        ensures
            image_width(*final(self)) == image_width(*old(self)),
            image_buffer_len(*final(self)) == image_buffer_len(*old(self)),
            image_rows(*final(self)) == image_rows(*old(self)).update(
                y as int,
                image_rows(*old(self))[y as int].update(x as int, value),
            ),
    {
        self.buf.put_pixel(x, y, image::Luma([value]))
    }

    /// Trusted wrapper of `image::ImageBuffer::from_pixel`, which panics when
    /// `width * height` samples do not fit in a vector: a raster of the given
    /// size with every sample equal to `value`, over a buffer of exactly
    /// that many samples.
    #[verifier::external_body]
    pub(crate) fn filled(width: u32, height: u32, value: u8) -> (img: GrayImage)
        requires
            width * height <= isize::MAX,
        ensures
            image_width(img) == width,
            image_rows(img) == uniform_rows(width as nat, height as nat, value),
            image_buffer_len(img) == width * height,
    {
        GrayImage { buf: image::GrayImage::from_pixel(width, height, image::Luma([value])) }
    }

    /// Trusted wrapper of `image::ImageBuffer::new`, which panics when
    /// `width * height` samples do not fit in a vector: a raster of the given
    /// size with every sample zero, over a buffer of exactly that many
    /// samples.
    #[verifier::external_body]
    pub(crate) fn blank(width: u32, height: u32) -> (img: GrayImage)
        requires
            width * height <= isize::MAX,
        ensures
            image_width(img) == width,
            image_rows(img) == uniform_rows(width as nat, height as nat, 0u8),
            image_buffer_len(img) == width * height,
    {
        GrayImage { buf: image::GrayImage::new(width, height) }
    }

    /// Trusted wrapper of `image::ImageBuffer::from_raw`: the raster over a
    /// row-major buffer, or nothing when the buffer holds fewer than
    /// `width * height` samples. The buffer is taken as it is: samples
    /// beyond that count stay in it and belong to no pixel.
    #[verifier::external_body]
    pub(crate) fn over_buffer(width: u32, height: u32, data: Vec<u8>) -> (made: Option<GrayImage>)
        ensures
            made is Some <==> width * height <= data@.len(),
            made matches Some(img) ==> image_width(img) == width && image_rows(img) == rows_of_raw(
                width as nat,
                height as nat,
                data@,
            ) && image_buffer_len(img) == data@.len(),
    {
        match image::GrayImage::from_raw(width, height, data) {
            Some(buf) => Some(GrayImage { buf }),
            None => None,
        }
    }

    /// Trusted wrapper of `image::ImageBuffer::into_raw`: the row-major
    /// buffer under the raster, whole. It starts with the pixels.
    #[verifier::external_body]
    pub(crate) fn buffer(self) -> (data: Vec<u8>)
        ensures
            data@.len() == image_buffer_len(self),
            data@.len() >= image_width(self) * image_rows(self).len(),
            image_rows(self) == rows_of_raw(image_width(self), image_rows(self).len(), data@),
    {
        self.buf.into_raw()
    }

    /// Trusted wrapper of `image::imageops::resize`: a raster of exactly the
    /// asked size, over a buffer of exactly that many samples. Its samples
    /// are computed in floating point, with kernels whose precision the
    /// standard library leaves open, and are not described, but for one case
    /// that the function treats first: asked for the size it already has,
    /// the raster is copied sample for sample.
    ///
    /// For any other size the function panics on two kinds of input, which
    /// the precondition leaves out.
    ///
    /// It allocates a `width x new_height` buffer of four 32-bit floats per
    /// pixel and the `new_width x new_height` result, and panics when one of
    /// them cannot be a vector.
    ///
    /// It computes in `f32` where the window of source pixels of each result
    /// pixel lies, weighs the pixels of the window by the kernel, and divides
    /// by the sum of the weights. On sides of millions of pixels the
    /// positions are so coarse that every pixel of a window can fall where
    /// the kernel is zero; the division of zero by zero then gives no
    /// number, and the conversion of the result to a sample panics. With
    /// every side at most `MAX_RESAMPLE_SIDE` a position is off by less
    /// than 1/64 of a pixel. The window then holds the pixel next to its
    /// centre, at most 0.52 pixels away, to which every kernel gives a
    /// weight of at least 0.46. The box, triangle and Gaussian kernels give
    /// no negative weight. The cubic and Lanczos kernels do, in lobes that
    /// take less away than the middle adds: a window that the border of the
    /// raster cuts keeps at least the half of the kernel that holds the
    /// centre, and the weights of such a half sum to about half the scale
    /// factor. So no sum of weights is zero.
    #[verifier::external_body]
    pub(crate) fn resampled(
        &self,
        new_width: u32,
        new_height: u32,
        filter: image::imageops::FilterType,
    ) -> (img: GrayImage)
        requires
            (new_width == image_width(*self) && new_height == image_rows(*self).len()) || {
                &&& image_width(*self) <= MAX_RESAMPLE_SIDE
                &&& image_rows(*self).len() <= MAX_RESAMPLE_SIDE
                &&& new_width <= MAX_RESAMPLE_SIDE
                &&& new_height <= MAX_RESAMPLE_SIDE
                &&& 16 * (image_width(*self) * new_height) <= isize::MAX
                &&& new_width * new_height <= isize::MAX
            },
        ensures
            image_width(img) == new_width,
            image_rows(img).len() == new_height,
            rectangular(image_rows(img), new_width as nat),
            image_buffer_len(img) == new_width * new_height,
            new_width == image_width(*self) && new_height == image_rows(*self).len()
                ==> image_rows(img) == image_rows(*self),
    {
        GrayImage { buf: image::imageops::resize(&self.buf, new_width, new_height, filter) }
    }

    /// The width in pixels.
    pub fn width(&self) -> (w: u32)
        ensures
            w == self.spec_width(),
            self.wf(),
    {
        self.dimensions().0
    }

    /// The height in pixels.
    pub fn height(&self) -> (h: u32)
        ensures
            h == self.spec_height(),
            self.wf(),
    {
        self.dimensions().1
    }

    /// The sample at column `x` of row `y`, if the raster has such a pixel.
    pub fn get_pixel(&self, x: u32, y: u32) -> (value: Option<u8>)
        ensures
            value is Some <==> x < self.spec_width() && y < self.spec_height(),
            value matches Some(v) ==> v == self.rows()[y as int][x as int],
    {
        let (width, height) = self.dimensions();
        if x < width && y < height {
            Some(self.sample(x, y))
        } else {
            None
        }
    }

    /// A raster over a row-major buffer of samples, or nothing when the
    /// buffer is too short for `width * height` pixels. The raster keeps the
    /// whole buffer.
    pub fn from_raw(width: u32, height: u32, data: Vec<u8>) -> (made: Option<GrayImage>)
        ensures
            made is Some <==> width * height <= data@.len(),
            made matches Some(img) ==> {
                &&& img.wf()
                &&& img.spec_width() == width
                &&& img.rows() == rows_of_raw(width as nat, height as nat, data@)
                &&& img.buffer_len() == data@.len()
            },
    {
        GrayImage::over_buffer(width, height, data)
    }

    /// The row-major buffer of the raster, whole: the sample at column `x`
    /// of row `y` stands at index `y * width + x`. Of a packed raster this
    /// is every sample of the buffer.
    pub fn into_raw(self) -> (data: Vec<u8>)
        ensures
            data@.len() == self.buffer_len(),
            data@.len() >= self.spec_width() * self.spec_height(),
            self.rows() == rows_of_raw(self.spec_width(), self.spec_height(), data@),
            self.packed() ==> data@ == raw_of_rows(self.spec_width(), self.rows()),
    {
        let ghost width = self.spec_width() as int;
        let ghost height = self.spec_height() as int;
        let ghost rows = self.rows();
        let ghost packed = self.packed();
        let data = self.buffer();
        proof {
            if packed {
                assert forall|i: int| 0 <= i < data@.len() implies data@[i] == raw_of_rows(
                    width as nat,
                    rows,
                )[i] by {
                    assert(width > 0) by (nonlinear_arith)
                        requires
                            0 <= i < width * height,
                            0 <= width,
                    ;
                    let x = i % width;
                    let y = i / width;
                    vstd::arithmetic::div_mod::lemma_fundamental_div_mod(i, width);
                    vstd::arithmetic::div_mod::lemma_mod_bound(i, width);
                    vstd::arithmetic::div_mod::lemma_div_pos_is_pos(i, width);
                    vstd::arithmetic::div_mod::lemma_multiply_divide_lt(i, width, height);
                    assert(width * y == y * width) by (nonlinear_arith);
                    assert(rows[y][x] == data@[y * width + x]);
                }
                assert(data@ =~= raw_of_rows(width as nat, rows));
            }
        }
        data
    }
}

} // verus!
