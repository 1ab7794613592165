//! Conversion of a picture into a frame of characters.
//!
//! The picture is resampled to the size of the grid, then every pixel
//! becomes one cell: its brightness chooses the character, its color is
//! kept as the color of the cell.

use vstd::prelude::*;
use crate::cframe::{storable, write_cframe_binary, cframe_bytes};
use crate::error::{ConfigFault, ConvertError};
use crate::frame::{
    grid_text, lemma_cells_of_grid_text, lemma_grid_text_len, newline_free,
    AsciiFrameData, NEWLINE,
};
use crate::layout::lemma_position_bound;
use crate::luminance::{
    char_for, lemma_luminance_bounds, luminance, luminance_of, mapped_byte, CharacterRamp,
};
use crate::raster::{
    can_resample, resample_fits, target_dimensions, target_height, target_width, FontRatio,
    ImageView, RasterImage,
};

verus! {

/// Which files a conversion produces.
#[derive(Debug, Clone, Copy, PartialEq, Eq)]
pub enum OutputMode {
    /// Only the text of each frame.
    TextOnly,
    /// Only the binary frame, which holds text and colors.
    ColorOnly,
    /// Both the text and the binary frame.
    TextAndColor,
}

/// The name of an output mode.
pub open spec fn mode_label(mode: OutputMode) -> Seq<char> {
    match mode {
        OutputMode::TextOnly => "text-only"@,
        OutputMode::ColorOnly => "color-only"@,
        OutputMode::TextAndColor => "text+color"@,
    }
}

/// Names an output mode.
pub fn output_mode_label(mode: OutputMode) -> (label: &'static str)
    ensures
        label@ == mode_label(mode),
{
    match mode {
        OutputMode::TextOnly => "text-only",
        OutputMode::ColorOnly => "color-only",
        OutputMode::TextAndColor => "text+color",
    }
}

/// The character of one pixel.
pub open spec fn pixel_byte(pixels: Seq<u8>, i: int, threshold: u8, ramp: Seq<u8>) -> u8 {
    mapped_byte(
        luminance_of(pixels[3 * i], pixels[3 * i + 1], pixels[3 * i + 2]) as u8,
        threshold,
        ramp,
    )
}

/// The characters of the pixels of a picture, in the order of the pixels.
pub open spec fn mapped_cells(pixels: Seq<u8>, threshold: u8, ramp: Seq<u8>) -> Seq<u8> {
    Seq::new((pixels.len() / 3) as nat, |i: int| pixel_byte(pixels, i, threshold, ramp))
}

/// The text of a picture: the characters of its pixels in rows, a
/// newline after each row.
pub open spec fn mapped_text(img: ImageView, threshold: u8, ramp: Seq<u8>) -> Seq<u8> {
    grid_text(mapped_cells(img.pixels, threshold, ramp), img.width, img.height)
}

/// A character of the ramp or a space is never a newline, as long as the
/// ramp holds none.
pub proof fn lemma_mapped_cells_newline_free(pixels: Seq<u8>, threshold: u8, ramp: Seq<u8>)
    requires
        ramp.len() >= 1,
        newline_free(ramp),
    ensures
        newline_free(mapped_cells(pixels, threshold, ramp)),
{
    assert forall|i: int| 0 <= i < mapped_cells(pixels, threshold, ramp).len() implies mapped_cells(
        pixels,
        threshold,
        ramp,
    )[i] != NEWLINE by {
        let luma = luminance_of(pixels[3 * i], pixels[3 * i + 1], pixels[3 * i + 2]) as u8;
        if luma >= threshold {
            crate::luminance::lemma_ramp_index_in_range(luma, threshold, ramp.len());
        }
    }
}

/// Maps every pixel of a picture to a character, without resampling.
///
/// The frame has the size of the picture, one cell for each pixel, and
/// the pixels themselves as colors.
pub fn map_image(img: &RasterImage, threshold: u8, ramp: &CharacterRamp) -> (frame: AsciiFrameData)
    ensures
        frame.width_chars == img@.width,
        frame.height_chars == img@.height,
        frame.ascii_text@ == mapped_text(img@, threshold, ramp@),
        frame.rgb_colors@ == img@.pixels,
        frame.colors_match(),
        newline_free(ramp@) ==> frame.text_matches() && frame.cells() == mapped_cells(
            img@.pixels,
            threshold,
            ramp@,
        ),
{
    let width = img.width();
    let height = img.height();
    let pixels = img.pixels();
    let chars = ramp.as_bytes();
    let ghost cells = mapped_cells(pixels@, threshold, chars@);
    let ghost w = width as nat;
    let total = pixels.len();
    let mut ascii_text: Vec<u8> = Vec::new();
    let mut rgb_colors: Vec<u8> = Vec::new();
    let mut cell: usize = 0;
    let mut y: u32 = 0;
    while y < height
        invariant
            y <= height,
            cell == y * width,
            width >= 1,
            w == width,
            total == 3 * (width * height),
            pixels@.len() == total,
            chars@.len() >= 1,
            cells == mapped_cells(pixels@, threshold, chars@),
            ascii_text@ == grid_text(cells, w, y as nat),
            rgb_colors@ == pixels@.take(3 * cell as int),
        decreases height - y,
    {
        proof {
            lemma_position_bound(0, y as int, width as int, height as int);
        }
        let ghost row_start = cell as int;
        let ghost above = ascii_text@;
        let mut x: u32 = 0;
        while x < width
            invariant
                x <= width,
                y < height,
                cell == row_start + x,
                row_start == y * width,
                row_start + width <= width * height,
                total == 3 * (width * height),
                pixels@.len() == total,
                chars@.len() >= 1,
                cells == mapped_cells(pixels@, threshold, chars@),
                ascii_text@ == above + cells.subrange(row_start, row_start + x),
                rgb_colors@ == pixels@.take(3 * cell as int),
            decreases width - x,
        {
            let red = pixels[3 * cell];
            let green = pixels[3 * cell + 1];
            let blue = pixels[3 * cell + 2];
            ascii_text.push(char_for(luminance(red, green, blue), threshold, chars));
            rgb_colors.push(red);
            rgb_colors.push(green);
            rgb_colors.push(blue);
            proof {
                lemma_luminance_bounds(red, green, blue);
                assert(ascii_text@ =~= above + cells.subrange(row_start, row_start + x + 1));
                assert(rgb_colors@ =~= pixels@.take(3 * (cell + 1) as int));
            }
            cell += 1;
            x += 1;
        }
        ascii_text.push(NEWLINE);
        proof {
            assert((y + 1) * width == y * width + width) by (nonlinear_arith);
            assert(ascii_text@ =~= above + cells.subrange(y * w as int, (y + 1) * w as int).push(
                NEWLINE,
            ));
        }
        y += 1;
    }
    proof {
        assert(height * width == width * height) by (nonlinear_arith);
        assert(rgb_colors@ =~= pixels@);
        assert(cells.len() == w * (height as nat));
        if newline_free(chars@) {
            lemma_mapped_cells_newline_free(pixels@, threshold, chars@);
            lemma_cells_of_grid_text(cells, w, height as nat);
            assert(cells.take((w * (height as nat)) as int) =~= cells);
        }
    }
    AsciiFrameData { ascii_text, width_chars: width, height_chars: height, rgb_colors }
}

/// The size of the grid that a picture is converted to.
pub open spec fn grid_size(
    img: ImageView,
    font_ratio: (nat, nat),
    columns: Option<u32>,
) -> (int, int) {
    let width = target_width(img.width, columns);
    (width, target_height(img.width, img.height, width, font_ratio))
}

/// Whether the picture already has the size of the grid.
pub open spec fn keeps_size(img: ImageView, font_ratio: (nat, nat), columns: Option<u32>) -> bool {
    grid_size(img, font_ratio, columns) == (img.width as int, img.height as int)
}

/// The fault for which a conversion with these settings is refused, if
/// there is one: a grid without columns, or a grid of another size than
/// the picture that the picture cannot be resampled to.
pub open spec fn conversion_fault(
    img: ImageView,
    font_ratio: (nat, nat),
    columns: Option<u32>,
) -> Option<ConfigFault> {
    let size = grid_size(img, font_ratio, columns);
    if size.0 == 0 {
        Some(ConfigFault::ZeroColumns)
    } else if !keeps_size(img, font_ratio, columns) && !resample_fits(
        img.width,
        img.height,
        size.0 as nat,
        size.1 as nat,
    ) {
        Some(ConfigFault::TargetTooLarge { target_width: size.0 as u32, target_height: size.1 as u32 })
    } else {
        None
    }
}

/// Whether a frame is a conversion of a picture under these settings: it
/// has the size of the grid, its colors are pixels of that size, the
/// picture's own where the picture has the size of the grid, and its text
/// is the mapping of its colors.
pub open spec fn is_conversion_of(
    frame: AsciiFrameData,
    img: ImageView,
    font_ratio: (nat, nat),
    threshold: u8,
    columns: Option<u32>,
    ramp: Seq<u8>,
) -> bool {
    let size = grid_size(img, font_ratio, columns);
    &&& frame.width_chars == size.0
    &&& frame.height_chars == size.1
    &&& frame.rgb_colors@.len() == 3 * (size.0 * size.1)
    &&& frame.ascii_text@ == grid_text(
        mapped_cells(frame.rgb_colors@, threshold, ramp),
        size.0 as nat,
        size.1 as nat,
    )
    &&& frame.ascii_text@.len() == (size.0 + 1) * size.1
    &&& keeps_size(img, font_ratio, columns) ==> frame.rgb_colors@ == img.pixels
    &&& newline_free(ramp) ==> frame.wf()
}

/// Converts a picture into a frame with colors.
///
/// The grid has as many columns as asked for, or as the picture has
/// pixels in a row; the number of rows follows from the picture's shape
/// and the font ratio. A picture of another size is resampled first. The
/// colors of the frame are the pixels that were mapped, and its text is
/// their mapping.
pub fn image_to_ascii_with_colors(
    img: &RasterImage,
    font_ratio: &FontRatio,
    threshold: u8,
    columns: Option<u32>,
    ramp: &CharacterRamp,
) -> (r: Result<AsciiFrameData, ConvertError>)
    ensures
        r is Ok <==> conversion_fault(img@, font_ratio@, columns) is None,
        r matches Err(e) ==> e == ConvertError::Config(
            conversion_fault(img@, font_ratio@, columns)->0,
        ),
        r matches Ok(frame) ==> is_conversion_of(
            frame,
            img@,
            font_ratio@,
            threshold,
            columns,
            ramp@,
        ),
{
    let (width, height) = target_dimensions(img.width(), img.height(), columns, font_ratio);
    if width == 0 {
        return Err(ConvertError::Config(ConfigFault::ZeroColumns));
    }
    let frame = if width == img.width() && height == img.height() {
        map_image(img, threshold, ramp)
    } else {
        if !can_resample(img.width(), img.height(), width, height) {
            return Err(ConvertError::Config(ConfigFault::TargetTooLarge { target_width: width, target_height: height }));
        }
        match img.resized(width, height) {
            Ok(resampled) => map_image(&resampled, threshold, ramp),
            Err(e) => {
                return Err(e);
            },
        }
    };
    proof {
        lemma_grid_text_len(
            mapped_cells(frame.rgb_colors@, threshold, ramp@),
            width as nat,
            height as nat,
        );
    }
    Ok(frame)
}

/// Converts a picture into the text of a frame: the text of what
/// `image_to_ascii_with_colors` gives.
pub fn image_to_ascii_string(
    img: &RasterImage,
    font_ratio: &FontRatio,
    threshold: u8,
    columns: Option<u32>,
    ramp: &CharacterRamp,
) -> (r: Result<Vec<u8>, ConvertError>)
    ensures
        r is Ok <==> conversion_fault(img@, font_ratio@, columns) is None,
        r matches Err(e) ==> e == ConvertError::Config(
            conversion_fault(img@, font_ratio@, columns)->0,
        ),
        r matches Ok(text) ==> exists|frame: AsciiFrameData|
            #![trigger frame.ascii_text]
            frame.ascii_text@ == text@ && is_conversion_of(
                frame,
                img@,
                font_ratio@,
                threshold,
                columns,
                ramp@,
            ),
        r matches Ok(text) ==> (keeps_size(img@, font_ratio@, columns) ==> text@ == mapped_text(
            img@,
            threshold,
            ramp@,
        )),
{
    match image_to_ascii_with_colors(img, font_ratio, threshold, columns, ramp) {
        Ok(frame) => {
            let text = frame.ascii_text;
            assert(frame.ascii_text@ == text@);
            Ok(text)
        },
        Err(e) => Err(e),
    }
}

/// The contents of the files that the conversion of one picture produces.
#[derive(Debug, Clone, PartialEq, Eq)]
pub struct ConvertedFrame {
    /// The text file, where the mode asks for one.
    pub text: Option<Vec<u8>>,
    /// The binary frame file, where the mode asks for one.
    pub cframe: Option<Vec<u8>>,
}

/// Whether a mode asks for the text file.
pub open spec fn wants_text(mode: OutputMode) -> bool {
    mode is TextOnly || mode is TextAndColor
}

/// Whether a mode asks for the binary frame file.
pub open spec fn wants_cframe(mode: OutputMode) -> bool {
    mode is ColorOnly || mode is TextAndColor
}

/// Whether files are those of a frame under a mode: the text file holds
/// the text of the frame, the binary file its encoding, and each is there
/// if and only if the mode asks for it.
pub open spec fn files_of(files: ConvertedFrame, frame: AsciiFrameData, mode: OutputMode) -> bool {
    &&& files.text is Some <==> wants_text(mode)
    &&& files.cframe is Some <==> wants_cframe(mode)
    &&& files.text matches Some(text) ==> text@ == frame.ascii_text@
    &&& files.cframe matches Some(bytes) ==> bytes@ == cframe_bytes(
        frame.width_chars,
        frame.height_chars,
        frame.cells(),
        frame.rgb_colors@,
    )
}

/// Encodes the files that a mode asks for of a frame.
///
/// A frame that cannot be stored in the binary format is refused where
/// the mode asks for the binary file.
pub fn encode_outputs(
    frame: AsciiFrameData,
    output_mode: OutputMode,
) -> (r: Result<ConvertedFrame, ConvertError>)
    ensures
        r is Ok <==> !wants_cframe(output_mode) || storable(
            frame.width_chars,
            frame.height_chars,
            frame.ascii_text@,
            frame.rgb_colors@,
        ),
        r matches Ok(files) ==> files_of(files, frame, output_mode),
        r matches Err(e) ==> e is CorruptFrame,
{
    match output_mode {
        OutputMode::TextOnly => Ok(ConvertedFrame { text: Some(frame.ascii_text), cframe: None }),
        OutputMode::ColorOnly => {
            match write_cframe_binary(
                frame.width_chars,
                frame.height_chars,
                frame.ascii_text.as_slice(),
                frame.rgb_colors.as_slice(),
            ) {
                Ok(bytes) => Ok(ConvertedFrame { text: None, cframe: Some(bytes) }),
                Err(e) => Err(e),
            }
        },
        OutputMode::TextAndColor => {
            match write_cframe_binary(
                frame.width_chars,
                frame.height_chars,
                frame.ascii_text.as_slice(),
                frame.rgb_colors.as_slice(),
            ) {
                Ok(bytes) => Ok(ConvertedFrame { text: Some(frame.ascii_text), cframe: Some(bytes) }),
                Err(e) => Err(e),
            }
        },
    }
}

/// Converts a picture and encodes the files that the mode asks for: the
/// files of a conversion of the picture.
pub fn convert_image_to_ascii(
    img: &RasterImage,
    font_ratio: &FontRatio,
    threshold: u8,
    columns: Option<u32>,
    ramp: &CharacterRamp,
    output_mode: OutputMode,
) -> (r: Result<ConvertedFrame, ConvertError>)
    ensures
        conversion_fault(img@, font_ratio@, columns) matches Some(fault) ==> r == Err::<
            ConvertedFrame,
            ConvertError,
        >(ConvertError::Config(fault)),
        conversion_fault(img@, font_ratio@, columns) is None && (newline_free(ramp@)
            || !wants_cframe(output_mode)) ==> r is Ok,
        conversion_fault(img@, font_ratio@, columns) is None ==> (r matches Err(e) ==> e
            is CorruptFrame && wants_cframe(output_mode) && !newline_free(ramp@)),
        conversion_fault(img@, font_ratio@, columns) is None && keeps_size(
            img@,
            font_ratio@,
            columns,
        ) ==> (r is Ok <==> !wants_cframe(output_mode) || storable(
            img@.width as u32,
            img@.height as u32,
            mapped_text(img@, threshold, ramp@),
            img@.pixels,
        )),
        r matches Err(e) ==> e is Config || e is CorruptFrame,
        r matches Ok(files) ==> exists|frame: AsciiFrameData|
            #![trigger files_of(files, frame, output_mode)]
            files_of(files, frame, output_mode) && is_conversion_of(
                frame,
                img@,
                font_ratio@,
                threshold,
                columns,
                ramp@,
            ),
{
    match image_to_ascii_with_colors(img, font_ratio, threshold, columns, ramp) {
        Ok(frame) => {
            let ghost converted = frame;
            let r = encode_outputs(frame, output_mode);
            proof {
                if r is Ok {
                    assert(files_of(r->Ok_0, converted, output_mode));
                }
            }
            r
        },
        Err(e) => Err(e),
    }
}

} // verus!
