//! Decoded pictures: eight-bit RGB pixels, row by row, and the grid size
//! that a picture is resampled to before it is mapped to characters.

use vstd::prelude::*;
use vstd::string::*;
use crate::error::ConvertError;
use crate::layout::lemma_product_fits;
use crate::text::equal_ignoring_case;

verus! {

/// The failure that the `image` crate reports.
#[verifier::external_type_specification]
#[verifier::external_body]
pub struct ExImageError(image::ImageError);

/// What a picture holds.
pub struct ImageView {
    pub width: nat,
    pub height: nat,
    pub pixels: Seq<u8>,
}

impl ImageView {
    /// A picture has at least one pixel, and three bytes for each pixel.
    pub open spec fn wf(self) -> bool {
        &&& self.width >= 1
        &&& self.height >= 1
        &&& self.pixels.len() == 3 * (self.width * self.height)
    }
}

/// A decoded picture.
pub struct RasterImage {
    width: u32,
    height: u32,
    pixels: Vec<u8>,
}

impl View for RasterImage {
    type V = ImageView;

    closed spec fn view(&self) -> ImageView {
        ImageView {
            width: self.width as nat,
            height: self.height as nat,
            pixels: self.pixels@,
        }
    }
}

impl RasterImage {
    #[verifier::type_invariant]
    spec fn inv(self) -> bool {
        self@.wf()
    }

    /// Makes a picture of raw pixels. A picture without pixels, or one
    /// whose buffer does not hold exactly three bytes for each pixel, is
    /// refused.
    pub fn from_raw(
        width: u32,
        height: u32,
        pixels: Vec<u8>,
    ) -> (r: Result<RasterImage, ConvertError>)
        ensures
            r is Ok <==> (ImageView {
                width: width as nat,
                height: height as nat,
                pixels: pixels@,
            }).wf(),
            r matches Ok(img) ==> img@ == (ImageView {
                width: width as nat,
                height: height as nat,
                pixels: pixels@,
            }),
            r matches Err(e) ==> e is Decode,
    {
        proof {
            lemma_product_fits(width, height);
        }
        let count: u128 = 3 * ((width as u128) * (height as u128));
        if width == 0 || height == 0 {
            Err(ConvertError::Decode { detail: String::from_str("the image has no pixels") })
        } else if (pixels.len() as u128) != count {
            Err(
                ConvertError::Decode {
                    detail: String::from_str("the pixel data does not match the image size"),
                },
            )
        } else {
            Ok(RasterImage { width, height, pixels })
        }
    }

    /// The number of pixels in a row.
    pub fn width(&self) -> (w: u32)
        ensures
            w == self@.width,
            self@.wf(),
    {
        proof {
            use_type_invariant(self);
        }
        self.width
    }

    /// The number of rows.
    pub fn height(&self) -> (h: u32)
        ensures
            h == self@.height,
            self@.wf(),
    {
        proof {
            use_type_invariant(self);
        }
        self.height
    }

    /// The pixels, three bytes each, row by row.
    pub fn pixels(&self) -> (p: &Vec<u8>)
        ensures
            p@ == self@.pixels,
            self@.wf(),
    {
        proof {
            use_type_invariant(self);
        }
        &self.pixels
    }
}

/// The formats of picture files that are decoded.
#[derive(Debug, Clone, Copy, PartialEq, Eq)]
pub enum PictureFormat {
    /// Portable Network Graphics.
    Png,
    /// JPEG.
    Jpeg,
}

/// The format that the extension of a file name stands for, without
/// regard to the case of ASCII letters: `png` and `apng` are PNG, `jpg`,
/// `jpeg` and `jfif` are JPEG, and no other extension names a format that
/// is decoded.
pub open spec fn format_of_extension(extension: Seq<char>) -> Option<PictureFormat> {
    if equal_ignoring_case(extension, "png"@) || equal_ignoring_case(extension, "apng"@) {
        Some(PictureFormat::Png)
    } else if equal_ignoring_case(extension, "jpg"@) || equal_ignoring_case(extension, "jpeg"@)
        || equal_ignoring_case(extension, "jfif"@) {
        Some(PictureFormat::Jpeg)
    } else {
        None
    }
}

/// What the decoder makes of the bytes of a picture file in a format:
/// width, height and the pixels as eight-bit RGB, or nothing where it
/// refuses the bytes.
pub uninterp spec fn decoded_rgb8(data: Seq<u8>, format: PictureFormat) -> Option<(u32, u32, Seq<u8>)>;

/// Looks a format up with `image::ImageFormat::from_extension`, which
/// compares the extension in small ASCII letters with the extensions it
/// knows. The two formats that are decoded are told apart; every other
/// answer counts as none.
#[verifier::external_body]
fn picture_format(extension: &str) -> (format: Option<PictureFormat>)
    ensures
        format == format_of_extension(extension@),
{
    match image::ImageFormat::from_extension(extension) {
        Some(image::ImageFormat::Png) => Some(PictureFormat::Png),
        Some(image::ImageFormat::Jpeg) => Some(PictureFormat::Jpeg),
        _ => None,
    }
}

/// Decodes a picture with `image::load_from_memory_with_format` and hands
/// out its size and its pixels as eight-bit RGB. What comes back depends
/// on the bytes and the format alone, and has the name `decoded_rgb8`;
/// nothing more is claimed of it.
#[verifier::external_body]
fn decode_rgb8(
    data: &[u8],
    format: PictureFormat,
) -> (r: Result<(u32, u32, Vec<u8>), image::ImageError>)
    ensures
        r matches Ok(t) ==> decoded_rgb8(data@, format) == Some((t.0, t.1, t.2@)),
        r is Err ==> decoded_rgb8(data@, format) is None,
{
    let outside = match format {
        PictureFormat::Png => image::ImageFormat::Png,
        PictureFormat::Jpeg => image::ImageFormat::Jpeg,
    };
    let rgb = image::load_from_memory_with_format(data, outside)?.to_rgb8();
    Ok((rgb.width(), rgb.height(), rgb.into_raw()))
}

/// The text of a failure of the `image` crate, as its `Display` gives it.
/// Nothing is claimed of it.
#[verifier::external_body]
fn describe_image_error(e: &image::ImageError) -> (detail: String) {
    e.to_string()
}

/// The picture that the bytes of a file decode to, if they do: the
/// extension names a format, the decoder accepts the bytes in that format,
/// and what it hands out is a picture with pixels.
pub open spec fn decoded_picture(data: Seq<u8>, extension: Seq<char>) -> Option<ImageView> {
    match format_of_extension(extension) {
        Some(format) => match decoded_rgb8(data, format) {
            Some(t) => {
                let view = ImageView { width: t.0 as nat, height: t.1 as nat, pixels: t.2 };
                if view.wf() {
                    Some(view)
                } else {
                    None
                }
            },
            None => None,
        },
        None => None,
    }
}

/// Decodes the bytes of a picture file. The extension of the file's
/// name says in which format the bytes are read.
///
/// Bytes that the decoder refuses, extensions that name no format that is
/// decoded, and decoded pictures without pixels are all refused.
pub fn decode_image(data: &[u8], extension: &str) -> (r: Result<RasterImage, ConvertError>)
    ensures
        r is Ok <==> decoded_picture(data@, extension@) is Some,
        r matches Ok(img) ==> decoded_picture(data@, extension@) == Some(img@),
        r matches Err(e) ==> e is Decode,
{
    match picture_format(extension) {
        None => {
            let mut detail = String::from_str("unsupported image format: ");
            detail.append(extension);
            Err(ConvertError::Decode { detail })
        },
        Some(format) => match decode_rgb8(data, format) {
            Ok((width, height, pixels)) => RasterImage::from_raw(width, height, pixels),
            Err(e) => Err(ConvertError::Decode { detail: describe_image_error(&e) }),
        },
    }
}

/// The longest side, in pixels, that a picture may have before and after
/// it is resampled.
///
/// The resampler places its samples with 32-bit floating point numbers.
/// With no side longer than this every position is off by less than a
/// hundredth of a pixel. The pixel nearest to a position then lies well
/// inside the window of the filter, and the weights of the samples add up
/// to more than a third of the number of pixels that one new pixel
/// spans, so that no weight is divided by zero.
pub const RESAMPLE_SIDE_LIMIT: u32 = 65536;

/// Whether a picture of `width` by `height` pixels can be resampled to
/// `new_width` by `new_height` pixels: no side is longer than the limit,
/// and the resampler's buffers can be allocated. It holds four 32-bit
/// numbers for each pixel of a picture of the old width and the new
/// height, and three bytes for each pixel of the result.
pub open spec fn resample_fits(width: nat, height: nat, new_width: nat, new_height: nat) -> bool {
    &&& width <= RESAMPLE_SIDE_LIMIT
    &&& height <= RESAMPLE_SIDE_LIMIT
    &&& new_width <= RESAMPLE_SIDE_LIMIT
    &&& new_height <= RESAMPLE_SIDE_LIMIT
    &&& 16 * (width * new_height) <= isize::MAX
    &&& 3 * (new_width * new_height) <= isize::MAX
}

/// Tells whether a picture can be resampled on this machine.
pub fn can_resample(width: u32, height: u32, new_width: u32, new_height: u32) -> (ok: bool)
    ensures
        ok == resample_fits(width as nat, height as nat, new_width as nat, new_height as nat),
{
    proof {
        lemma_product_fits(width, new_height);
        lemma_product_fits(new_width, new_height);
    }
    let between: u128 = 16 * ((width as u128) * (new_height as u128));
    let result: u128 = 3 * ((new_width as u128) * (new_height as u128));
    width <= RESAMPLE_SIDE_LIMIT && height <= RESAMPLE_SIDE_LIMIT && new_width
        <= RESAMPLE_SIDE_LIMIT && new_height <= RESAMPLE_SIDE_LIMIT && between
        <= isize::MAX as u128 && result <= isize::MAX as u128
}

/// Resamples pixels with `image::imageops::resize` and the Lanczos filter
/// of window 3. The result has three bytes for each pixel of the new
/// size, and for an unchanged size it is a copy of the pixels; which
/// bytes it holds otherwise is not claimed. The sides are bounded because
/// the resampler panics where its weights add up to zero; see
/// `RESAMPLE_SIDE_LIMIT`.
#[verifier::external_body]
fn resize_lanczos3(
    width: u32,
    height: u32,
    pixels: &Vec<u8>,
    new_width: u32,
    new_height: u32,
) -> (r: Option<Vec<u8>>)
    requires
        width >= 1,
        height >= 1,
        new_width >= 1,
        new_height >= 1,
        pixels@.len() == 3 * (width * height),
        resample_fits(width as nat, height as nat, new_width as nat, new_height as nat),
    ensures
        r is Some,
        r matches Some(out) ==> out@.len() == 3 * (new_width * new_height),
        r matches Some(out) ==> (new_width == width && new_height == height ==> out@ == pixels@),
{
    image::RgbImage::from_raw(width, height, pixels.clone()).map(
        |source|
            image::imageops::resize(
                &source,
                new_width,
                new_height,
                image::imageops::FilterType::Lanczos3,
            ).into_raw(),
    )
}

impl RasterImage {
    /// Resamples the picture to a new size. The result has that size;
    /// its pixels are the resampler's, and the picture's own where the
    /// size does not change.
    pub fn resized(&self, new_width: u32, new_height: u32) -> (r: Result<RasterImage, ConvertError>)
        requires
            new_width >= 1,
            new_height >= 1,
            resample_fits(self@.width, self@.height, new_width as nat, new_height as nat),
        ensures
            r matches Ok(img) && img@.wf() && img@.width == new_width && img@.height == new_height,
            r matches Ok(img) ==> (new_width == self@.width && new_height == self@.height ==> img@
                == self@),
    {
        proof {
            use_type_invariant(self);
        }
        match resize_lanczos3(self.width, self.height, &self.pixels, new_width, new_height) {
            Some(out) => RasterImage::from_raw(new_width, new_height, out),
            None => Err(
                ConvertError::Decode { detail: String::from_str("the image could not be resampled") },
            ),
        }
    }
}

/// The ratio of the width of a character to its height, as a fraction.
pub struct FontRatio {
    numerator: u32,
    denominator: u32,
}

impl View for FontRatio {
    type V = (nat, nat);

    closed spec fn view(&self) -> (nat, nat) {
        (self.numerator as nat, self.denominator as nat)
    }
}

impl FontRatio {
    #[verifier::type_invariant]
    spec fn inv(self) -> bool {
        self.denominator >= 1
    }

    /// Makes the ratio `numerator / denominator`; there is none with a
    /// denominator of zero.
    pub fn new(numerator: u32, denominator: u32) -> (r: Option<FontRatio>)
        ensures
            r is Some <==> denominator >= 1,
            r matches Some(ratio) ==> ratio@ == (numerator as nat, denominator as nat),
    {
        if denominator == 0 {
            None
        } else {
            Some(FontRatio { numerator, denominator })
        }
    }

    /// The numerator.
    pub fn numerator(&self) -> (n: u32)
        ensures
            n == self@.0,
    {
        self.numerator
    }

    /// The denominator, which is never zero.
    pub fn denominator(&self) -> (d: u32)
        ensures
            d == self@.1,
            d >= 1,
    {
        proof {
            use_type_invariant(self);
        }
        self.denominator
    }
}

/// The number of columns of the grid: the number asked for, or the width
/// of the picture where none is asked for.
pub open spec fn target_width(image_width: nat, columns: Option<u32>) -> int {
    match columns {
        Some(c) => c as int,
        None => image_width as int,
    }
}

/// `image_height / image_width * columns * ratio`, rounded to the nearest
/// whole number, halves upwards.
pub open spec fn rounded_height(
    image_width: nat,
    image_height: nat,
    columns: int,
    ratio: (nat, nat),
) -> int {
    (2 * (image_height * columns * ratio.0) + image_width * ratio.1) / (2 * (image_width
        * ratio.1) as int)
}

/// The number of rows of the grid: the rounded height, but at least one
/// and no more than 32 bits hold.
pub open spec fn target_height(
    image_width: nat,
    image_height: nat,
    columns: int,
    ratio: (nat, nat),
) -> int {
    let rounded = rounded_height(image_width, image_height, columns, ratio);
    if rounded < 1 {
        1
    } else if rounded > u32::MAX {
        u32::MAX as int
    } else {
        rounded
    }
}

/// Computes the size of the grid that a picture is mapped to.
pub fn target_dimensions(
    image_width: u32,
    image_height: u32,
    columns: Option<u32>,
    ratio: &FontRatio,
) -> (size: (u32, u32))
    requires
        image_width >= 1,
    ensures
        size.0 == target_width(image_width as nat, columns),
        size.1 == target_height(image_width as nat, image_height as nat, size.0 as int, ratio@),
        size.1 >= 1,
{
    let width = match columns {
        Some(c) => c,
        None => image_width,
    };
    let numerator = ratio.numerator();
    let denominator = ratio.denominator();
    proof {
        lemma_product_fits(image_height, width);
        lemma_product_fits(image_width, denominator);
        assert(image_height * width * numerator <= 0xffff_fffe_0000_0001 * 0xffff_ffff)
            by (nonlinear_arith)
            requires
                0 <= image_height * width <= 0xffff_fffe_0000_0001,
                0 <= numerator <= 0xffff_ffff,
        ;
        assert(0 <= image_height * width * numerator) by (nonlinear_arith)
            requires
                0 <= image_height * width,
                0 <= numerator,
        ;
        assert(image_width * denominator >= 1) by (nonlinear_arith)
            requires
                image_width >= 1,
                denominator >= 1,
        ;
    }
    let scaled: u128 = (image_height as u128) * (width as u128) * (numerator as u128);
    let unit: u128 = (image_width as u128) * (denominator as u128);
    let rounded: u128 = (2 * scaled + unit) / (2 * unit);
    let height: u32 = if rounded < 1 {
        1
    } else if rounded > 0xffff_ffff {
        0xffff_ffff
    } else {
        rounded as u32
    };
    (width, height)
}

} // verus!
