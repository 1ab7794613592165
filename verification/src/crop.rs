//! Cropping of frames: rows are removed at the top and at the bottom,
//! columns at the left and at the right.

use vstd::prelude::*;
use crate::cframe::{
    cframe_bytes, cframe_colors, cframe_height, cframe_is_complete, cframe_text, cframe_width,
    read_cframe_to_frame_data, write_cframe_binary,
};
use crate::error::{ConfigFault, ConvertError, FrameFault, GridFault};
use crate::frame::{cells_of, grid_text, AsciiFrameData, NEWLINE};
use crate::layout::{lemma_position_bound, lemma_product_fits};
use crate::textgrid::{
    grid_fault, line_views, lines_text, read_txt_to_frame_data, split_lines, text_lines,
};

verus! {

/// What a crop of the frames of a directory has done.
#[derive(Debug, Clone, Copy, PartialEq, Eq)]
pub struct CropResult {
    /// The number of frames that were cropped.
    pub frame_count: usize,
    /// The width of the cropped frames in characters.
    pub new_width: u32,
    /// The height of the cropped frames in characters.
    pub new_height: u32,
    /// The size of all files written, in bytes.
    pub total_size: u64,
}

/// The rows and columns that a crop removes.
#[derive(Debug, Clone, Copy, PartialEq, Eq)]
pub struct CropMargins {
    pub top: usize,
    pub bottom: usize,
    pub left: usize,
    pub right: usize,
}

/// The fault for which a crop of a frame of this size is refused, if
/// there is one: it removes every row, or every column.
pub open spec fn crop_fault(margins: CropMargins, width: int, height: int) -> Option<ConfigFault> {
    if margins.top + margins.bottom >= height {
        Some(
            ConfigFault::CropRows {
                top: margins.top,
                bottom: margins.bottom,
                rows: height as usize,
            },
        )
    } else if margins.left + margins.right >= width {
        Some(
            ConfigFault::CropColumns {
                left: margins.left,
                right: margins.right,
                columns: width as usize,
            },
        )
    } else {
        None
    }
}

/// Checks a crop against the size of a frame, and computes the size that
/// is left.
pub fn cropped_size(
    margins: CropMargins,
    width: usize,
    height: usize,
) -> (r: Result<(usize, usize), ConvertError>)
    ensures
        r is Ok <==> crop_fault(margins, width as int, height as int) is None,
        r matches Ok(size) ==> size.0 == width - margins.left - margins.right && size.1 == height
            - margins.top - margins.bottom && size.0 >= 1 && size.1 >= 1,
        r matches Err(e) ==> crop_fault(margins, width as int, height as int) matches Some(fault)
            && e == ConvertError::Config(fault),
{
    let rows = (margins.top as u128) + (margins.bottom as u128);
    let columns = (margins.left as u128) + (margins.right as u128);
    if rows >= height as u128 {
        Err(
            ConvertError::Config(
                ConfigFault::CropRows { top: margins.top, bottom: margins.bottom, rows: height },
            ),
        )
    } else if columns >= width as u128 {
        Err(
            ConvertError::Config(
                ConfigFault::CropColumns {
                    left: margins.left,
                    right: margins.right,
                    columns: width,
                },
            ),
        )
    } else {
        Ok((width - margins.left - margins.right, height - margins.top - margins.bottom))
    }
}

/// The part of a line that a crop keeps: at most `new_width` bytes from
/// place `left` on.
pub open spec fn cropped_line(line: Seq<u8>, left: int, new_width: int) -> Seq<u8> {
    if left >= line.len() {
        Seq::empty()
    } else if left + new_width >= line.len() {
        line.skip(left)
    } else {
        line.subrange(left, left + new_width)
    }
}

/// The number of lines that a crop keeps: at most `new_height` from line
/// `top` on.
pub open spec fn kept_lines(count: int, top: int, new_height: int) -> int {
    if top >= count {
        0
    } else if top + new_height >= count {
        count - top
    } else {
        new_height
    }
}

/// The lines that a crop keeps, each cropped.
pub open spec fn cropped_lines(
    lines: Seq<Seq<u8>>,
    top: int,
    left: int,
    new_width: int,
    new_height: int,
) -> Seq<Seq<u8>> {
    Seq::new(
        kept_lines(lines.len() as int, top, new_height) as nat,
        |r: int| cropped_line(lines[top + r], left, new_width),
    )
}

/// The text of cropped lines: the lines, each followed by a newline; a
/// single newline where no line is kept.
pub open spec fn cropped_text(lines: Seq<Seq<u8>>) -> Seq<u8> {
    if lines.len() == 0 {
        seq![NEWLINE]
    } else {
        lines_text(lines)
    }
}

/// Crops a text frame: of its lines, `new_height` are kept from line
/// `top` on, and of each of these `new_width` bytes from place `left`
/// on; a text that is too short gives what it has.
pub fn crop_text(
    content: &[u8],
    top: usize,
    left: usize,
    new_width: usize,
    new_height: usize,
) -> (out: Vec<u8>)
    ensures
        out@ == cropped_text(
            cropped_lines(
                text_lines(content@),
                top as int,
                left as int,
                new_width as int,
                new_height as int,
            ),
        ),
{
    let lines = split_lines(content);
    let ghost views = text_lines(content@);
    let ghost wanted = cropped_lines(
        views,
        top as int,
        left as int,
        new_width as int,
        new_height as int,
    );
    let count = lines.len();
    let kept: usize = if top >= count {
        0
    } else if new_height >= count - top {
        count - top
    } else {
        new_height
    };
    let mut out: Vec<u8> = Vec::new();
    if kept == 0 {
        out.push(NEWLINE);
        assert(out@ =~= seq![NEWLINE]);
        return out;
    }
    let mut r: usize = 0;
    proof {
        assert(wanted.take(0) =~= Seq::<Seq<u8>>::empty());
    }
    while r < kept
        invariant
            r <= kept,
            kept == wanted.len(),
            top + kept <= lines@.len(),
            count == lines@.len(),
            views == line_views(lines@),
            wanted == cropped_lines(
                views,
                top as int,
                left as int,
                new_width as int,
                new_height as int,
            ),
            out@ == lines_text(wanted.take(r as int)),
        decreases kept - r,
    {
        let line = &lines[top + r];
        assert(views[top + r] == line@);
        let len = line.len();
        let start: usize = if left >= len {
            len
        } else {
            left
        };
        let end: usize = if left >= len {
            len
        } else if new_width >= len - left {
            len
        } else {
            left + new_width
        };
        let ghost above = out@;
        let ghost row = cropped_line(line@, left as int, new_width as int);
        let mut c: usize = start;
        proof {
            assert(above + line@.subrange(start as int, start as int) =~= above);
        }
        while c < end
            invariant
                start <= c <= end,
                end <= len,
                len == line@.len(),
                out@ == above + line@.subrange(start as int, c as int),
            decreases end - c,
        {
            out.push(line[c]);
            proof {
                assert(out@ =~= above + line@.subrange(start as int, c + 1));
            }
            c += 1;
        }
        out.push(NEWLINE);
        proof {
            assert(line@.subrange(start as int, end as int) =~= row);
            assert(wanted.take(r + 1).drop_last() =~= wanted.take(r as int));
            assert(wanted.take(r + 1).last() == row);
            assert(out@ =~= lines_text(wanted.take(r + 1)));
        }
        r += 1;
    }
    proof {
        assert(wanted.take(r as int) =~= wanted);
    }
    out
}

/// Whether the text of a frame holds its rows one after another, each
/// followed by one byte, and its colors three bytes for each cell.
pub open spec fn is_laid_out(frame: AsciiFrameData) -> bool {
    &&& frame.ascii_text@.len() == (frame.width_chars + 1) * frame.height_chars
    &&& frame.rgb_colors@.len() == 3 * (frame.width_chars * frame.height_chars)
}

/// The cells that a crop keeps of a text that is laid out in rows of
/// `width` cells and one more byte, row by row.
pub open spec fn cropped_cells(
    text: Seq<u8>,
    width: int,
    height: int,
    margins: CropMargins,
) -> Seq<u8> {
    let new_width = width - margins.left - margins.right;
    let new_height = height - margins.top - margins.bottom;
    Seq::new(
        (new_width * new_height) as nat,
        |i: int| text[(margins.top + i / new_width) * (width + 1) + margins.left + i % new_width],
    )
}

/// The colors that a crop keeps of the colors of a grid of `width`
/// columns, three bytes for each cell.
pub open spec fn cropped_colors(
    colors: Seq<u8>,
    width: int,
    height: int,
    margins: CropMargins,
) -> Seq<u8> {
    let new_width = width - margins.left - margins.right;
    let new_height = height - margins.top - margins.bottom;
    Seq::new(
        (3 * (new_width * new_height)) as nat,
        |k: int|
            colors[3 * ((margins.top + (k / 3) / new_width) * width + margins.left + (k / 3)
                % new_width) + k % 3],
    )
}

/// The cells that a crop keeps of a frame.
pub open spec fn kept_cells(frame: AsciiFrameData, margins: CropMargins) -> Seq<u8> {
    cropped_cells(
        frame.ascii_text@,
        frame.width_chars as int,
        frame.height_chars as int,
        margins,
    )
}

/// The colors that a crop keeps of a frame.
pub open spec fn kept_colors(frame: AsciiFrameData, margins: CropMargins) -> Seq<u8> {
    cropped_colors(
        frame.rgb_colors@,
        frame.width_chars as int,
        frame.height_chars as int,
        margins,
    )
}

/// The fault for which the crop of a frame with colors is refused, if
/// there is one.
pub open spec fn frame_crop_fault(
    frame: AsciiFrameData,
    margins: CropMargins,
) -> Option<ConvertError> {
    if !is_laid_out(frame) {
        Some(
            ConvertError::CorruptFrame(
                FrameFault::Mismatch {
                    expected_cells: (frame.width_chars * frame.height_chars) as u64,
                    text_cells: frame.ascii_text@.len() as usize,
                    color_bytes: frame.rgb_colors@.len() as usize,
                },
            ),
        )
    } else {
        match crop_fault(margins, frame.width_chars as int, frame.height_chars as int) {
            Some(fault) => Some(ConvertError::Config(fault)),
            None => None,
        }
    }
}

/// Crops a frame with colors.
///
/// The cell in column `c` of row `r` of the result is the cell in column
/// `left + c` of row `top + r` of the frame, with its color.
pub fn crop_frame_data(
    frame: &AsciiFrameData,
    margins: CropMargins,
) -> (r: Result<AsciiFrameData, ConvertError>)
    ensures
        r is Ok <==> frame_crop_fault(*frame, margins) is None,
        r matches Err(e) ==> frame_crop_fault(*frame, margins) == Some(e),
        r matches Ok(out) ==> {
            &&& out.width_chars == frame.width_chars - margins.left - margins.right
            &&& out.height_chars == frame.height_chars - margins.top - margins.bottom
            &&& out.ascii_text@ == grid_text(
                kept_cells(*frame, margins),
                out.width_chars as nat,
                out.height_chars as nat,
            )
            &&& out.rgb_colors@ == kept_colors(*frame, margins)
            &&& is_laid_out(out)
        },
{
    let width = frame.width_chars as usize;
    let height = frame.height_chars as usize;
    proof {
        lemma_product_fits(frame.width_chars, frame.height_chars);
        assert(0 <= (frame.width_chars + 1) * frame.height_chars <= 0x1_0000_0000 * 0xffff_ffff)
            by (nonlinear_arith)
            requires
                0 <= frame.width_chars <= 0xffff_ffff,
                0 <= frame.height_chars <= 0xffff_ffff,
        ;
    }
    let text_total = frame.ascii_text.len();
    let color_total = frame.rgb_colors.len();
    let cell_count: u64 = (frame.width_chars as u64) * (frame.height_chars as u64);
    let text_len: u128 = (frame.width_chars as u128 + 1) * (frame.height_chars as u128);
    if frame.ascii_text.len() as u128 != text_len || frame.rgb_colors.len() as u128 != 3 * (
    cell_count as u128) {
        return Err(
            ConvertError::CorruptFrame(
                FrameFault::Mismatch {
                    expected_cells: cell_count,
                    text_cells: frame.ascii_text.len(),
                    color_bytes: frame.rgb_colors.len(),
                },
            ),
        );
    }
    let (new_width, new_height) = match cropped_size(margins, width, height) {
        Ok(size) => size,
        Err(e) => {
            return Err(e);
        },
    };
    let ghost cells = kept_cells(*frame, margins);
    let ghost colors = kept_colors(*frame, margins);
    let ghost nw = new_width as nat;
    let mut ascii_text: Vec<u8> = Vec::new();
    let mut rgb_colors: Vec<u8> = Vec::new();
    let mut row: usize = 0;
    proof {
        assert(0 * nw == 0) by (nonlinear_arith);
    }
    while row < new_height
        invariant
            row <= new_height,
            nw == new_width,
            new_width >= 1,
            width == frame.width_chars,
            height == frame.height_chars,
            new_width == width - margins.left - margins.right,
            new_height == height - margins.top - margins.bottom,
            is_laid_out(*frame),
            text_total == frame.ascii_text@.len(),
            color_total == frame.rgb_colors@.len(),
            cells == kept_cells(*frame, margins),
            colors == kept_colors(*frame, margins),
            ascii_text@ == grid_text(cells, nw, row as nat),
            rgb_colors@ == colors.take(3 * (row * nw)),
        decreases new_height - row,
    {
        let ghost above = ascii_text@;
        let ghost row_start = row * nw;
        proof {
            lemma_position_bound(0, row as int, nw as int, new_height as int);
            lemma_position_bound(0, (margins.top + row) as int, width as int, height as int);
            lemma_position_bound(
                0,
                (margins.top + row) as int,
                (width + 1) as int,
                height as int,
            );
            assert(0 <= (margins.top + row) * (width + 1) && 0 <= (margins.top + row) * width)
                by (nonlinear_arith)
                requires
                    0 <= margins.top + row,
                    0 <= width,
            ;
        }
        let text_base: usize = (margins.top + row) * (width + 1) + margins.left;
        let color_base: usize = (margins.top + row) * width + margins.left;
        let mut col: usize = 0;
        while col < new_width
            invariant
                col <= new_width,
                row < new_height,
                nw == new_width,
                new_width >= 1,
                width == frame.width_chars,
                height == frame.height_chars,
                new_width == width - margins.left - margins.right,
                new_height == height - margins.top - margins.bottom,
                is_laid_out(*frame),
                text_total == frame.ascii_text@.len(),
                color_total == frame.rgb_colors@.len(),
                row_start == row * nw,
                0 <= row_start,
                row_start + nw <= nw * new_height,
                text_base == (margins.top + row) * (width + 1) + margins.left,
                color_base == (margins.top + row) * width + margins.left,
                (margins.top + row) * (width + 1) + (width + 1) <= (width + 1) * height,
                (margins.top + row) * width + width <= width * height,
                cells == kept_cells(*frame, margins),
                colors == kept_colors(*frame, margins),
                ascii_text@ == above + cells.subrange(row_start as int, row_start + col),
                rgb_colors@ == colors.take(3 * (row_start + col)),
            decreases new_width - col,
        {
            proof {
                crate::layout::lemma_position_splits(col as int, row as int, nw as int);
            }
            ascii_text.push(frame.ascii_text[text_base + col]);
            let at: usize = 3 * (color_base + col);
            rgb_colors.push(frame.rgb_colors[at]);
            rgb_colors.push(frame.rgb_colors[at + 1]);
            rgb_colors.push(frame.rgb_colors[at + 2]);
            proof {
                assert(ascii_text@ =~= above + cells.subrange(
                    row_start as int,
                    row_start + col + 1,
                ));
                assert(rgb_colors@ =~= colors.take(3 * (row_start + col + 1)));
            }
            col += 1;
        }
        ascii_text.push(NEWLINE);
        proof {
            assert((row + 1) * nw == row * nw + nw) by (nonlinear_arith);
            assert(ascii_text@ =~= above + cells.subrange(row * nw as int, (row + 1) * nw as int).push(
                NEWLINE,
            ));
        }
        row += 1;
    }
    proof {
        assert(new_height * nw == nw * new_height) by (nonlinear_arith);
        assert(rgb_colors@ =~= colors);
        crate::frame::lemma_grid_text_len(cells, nw, new_height as nat);
    }
    Ok(
        AsciiFrameData {
            ascii_text,
            width_chars: new_width as u32,
            height_chars: new_height as u32,
            rgb_colors,
        },
    )
}

/// The contents of the files of one frame: its text, and its binary
/// form where there is one.
#[derive(Debug, Clone, PartialEq, Eq)]
pub struct FrameFiles {
    pub text: Vec<u8>,
    pub cframe: Option<Vec<u8>>,
}

/// The binary frame that a crop makes of a binary frame: the cells and
/// colors that are kept, under the size that is left.
pub open spec fn cropped_cframe(data: Seq<u8>, margins: CropMargins) -> Seq<u8> {
    let width = cframe_width(data);
    let height = cframe_height(data);
    let new_width = width - margins.left - margins.right;
    let new_height = height - margins.top - margins.bottom;
    cframe_bytes(
        new_width as u32,
        new_height as u32,
        cells_of(
            grid_text(
                cropped_cells(cframe_text(data), width, height, margins),
                new_width as nat,
                new_height as nat,
            ),
        ),
        cropped_colors(cframe_colors(data), width, height, margins),
    )
}

/// Whether a binary frame can be cropped: it is complete, the crop
/// leaves rows and columns, and no cell that is kept is a newline.
pub open spec fn cframe_croppable(data: Seq<u8>, margins: CropMargins) -> bool {
    let width = cframe_width(data);
    let height = cframe_height(data);
    let new_width = width - margins.left - margins.right;
    let new_height = height - margins.top - margins.bottom;
    &&& cframe_is_complete(data)
    &&& crop_fault(margins, width, height) is None
    &&& cells_of(
        grid_text(
            cropped_cells(cframe_text(data), width, height, margins),
            new_width as nat,
            new_height as nat,
        ),
    ).len() == new_width * new_height
}

/// Whether the files of a frame can be cropped.
pub open spec fn croppable(input: FrameFiles, margins: CropMargins) -> bool {
    input.cframe matches Some(data) ==> cframe_croppable(data@, margins)
}

/// Whether files are the crop of the files of a frame: the text is
/// cropped to the new size, and the binary frame, where there is one, by
/// the same margins.
pub open spec fn is_crop_of(
    out: FrameFiles,
    input: FrameFiles,
    margins: CropMargins,
    new_width: int,
    new_height: int,
) -> bool {
    &&& out.text@ == cropped_text(
        cropped_lines(
            text_lines(input.text@),
            margins.top as int,
            margins.left as int,
            new_width,
            new_height,
        ),
    )
    &&& match input.cframe {
        Some(data) => out.cframe matches Some(cropped) && cropped@ == cropped_cframe(
            data@,
            margins,
        ),
        None => out.cframe is None,
    }
}

/// Crops the files of one frame.
pub fn crop_frame_files(
    input: &FrameFiles,
    margins: CropMargins,
    new_width: usize,
    new_height: usize,
) -> (r: Result<FrameFiles, ConvertError>)
    ensures
        r is Ok <==> croppable(*input, margins),
        r matches Ok(out) ==> is_crop_of(out, *input, margins, new_width as int, new_height as int),
        r matches Err(e) ==> e is CorruptFrame || e is Config,
{
    let text = crop_text(input.text.as_slice(), margins.top, margins.left, new_width, new_height);
    match &input.cframe {
        None => Ok(FrameFiles { text, cframe: None }),
        Some(data) => {
            let frame = match read_cframe_to_frame_data(data.as_slice()) {
                Ok(frame) => frame,
                Err(e) => {
                    return Err(e);
                },
            };
            proof {
                lemma_product_fits(frame.width_chars, frame.height_chars);
                crate::frame::lemma_grid_text_len(
                    crate::cframe::cframe_cells(data@),
                    frame.width_chars as nat,
                    frame.height_chars as nat,
                );
            }
            let cropped = match crop_frame_data(&frame, margins) {
                Ok(cropped) => cropped,
                Err(e) => {
                    return Err(e);
                },
            };
            match write_cframe_binary(
                cropped.width_chars,
                cropped.height_chars,
                cropped.ascii_text.as_slice(),
                cropped.rgb_colors.as_slice(),
            ) {
                Ok(bytes) => Ok(FrameFiles { text, cframe: Some(bytes) }),
                Err(e) => Err(e),
            }
        },
    }
}

/// The number of bytes in the files of frames.
pub open spec fn files_size(files: Seq<FrameFiles>) -> int
    decreases files.len(),
{
    if files.len() == 0 {
        0
    } else {
        files_size(files.drop_last()) + files.last().text@.len() + match files.last().cframe {
            Some(data) => data@.len() as int,
            None => 0,
        }
    }
}

/// The size of the grid of the first of some frames: the length of the
/// first line of its text, and the number of its lines.
pub open spec fn first_size(frames: Seq<FrameFiles>) -> (int, int) {
    let lines = text_lines(frames[0].text@);
    (lines[0].len() as int, lines.len() as int)
}

/// The fault for which the crop of some frames is refused before any
/// frame is cropped, if there is one: there is no frame, the first frame
/// has no line, the crop leaves no row or no column, or what it leaves
/// is more than 32 bits count.
pub open spec fn crop_frames_fault(
    frames: Seq<FrameFiles>,
    margins: CropMargins,
) -> Option<ConvertError> {
    if frames.len() == 0 {
        Some(ConvertError::NoFrames)
    } else if text_lines(frames[0].text@).len() == 0 {
        Some(ConvertError::MalformedGrid(GridFault::Empty))
    } else {
        let size = first_size(frames);
        match crop_fault(margins, size.0, size.1) {
            Some(fault) => Some(ConvertError::Config(fault)),
            None => if size.0 - margins.left - margins.right > u32::MAX || size.1 - margins.top
                - margins.bottom > u32::MAX {
                Some(
                    ConvertError::MalformedGrid(
                        GridFault::TooLarge {
                            rows: (size.1 - margins.top - margins.bottom) as usize,
                            columns: (size.0 - margins.left - margins.right) as usize,
                        },
                    ),
                )
            } else {
                None
            },
        }
    }
}

/// Crops the frames of a directory, given the contents of their files in
/// the order of their names.
///
/// The size of the grid is read from the text of the first frame. Every
/// text is cropped to the size that is left; every binary frame is
/// cropped by the same margins. The result counts the frames and the
/// bytes of all the files to write.
pub fn crop_frames(
    frames: &Vec<FrameFiles>,
    top: usize,
    bottom: usize,
    left: usize,
    right: usize,
) -> (r: Result<(Vec<FrameFiles>, CropResult), ConvertError>)
    ensures
        ({
            let margins = CropMargins { top, bottom, left, right };
            let fault = crop_frames_fault(frames@, margins);
            &&& fault matches Some(e) ==> r == Err::<(Vec<FrameFiles>, CropResult), ConvertError>(e)
            &&& r is Ok <==> fault is None && forall|i: int|
                0 <= i < frames@.len() ==> croppable(#[trigger] frames@[i], margins)
            &&& r matches Err(e) ==> fault == Some(e) || (fault is None && (e is CorruptFrame
                || e is Config))
            &&& r matches Ok((files, result)) ==> {
                let size = first_size(frames@);
                &&& files@.len() == frames@.len()
                &&& result.frame_count == frames@.len()
                &&& result.new_width == size.0 - left - right
                &&& result.new_height == size.1 - top - bottom
                &&& result.total_size == least_size(files_size(files@))
                &&& forall|i: int|
                    0 <= i < frames@.len() ==> is_crop_of(
                        #[trigger] files@[i],
                        frames@[i],
                        margins,
                        result.new_width as int,
                        result.new_height as int,
                    )
            }
        }),
{
    let margins = CropMargins { top, bottom, left, right };
    if frames.len() == 0 {
        return Err(ConvertError::NoFrames);
    }
    let first_lines = split_lines(frames[0].text.as_slice());
    if first_lines.len() == 0 {
        return Err(ConvertError::MalformedGrid(GridFault::Empty));
    }
    assert(text_lines(frames@[0].text@)[0] == first_lines@[0]@);
    let (new_width, new_height) = match cropped_size(
        margins,
        first_lines[0].len(),
        first_lines.len(),
    ) {
        Ok(size) => size,
        Err(e) => {
            return Err(e);
        },
    };
    if new_width > 0xffff_ffff || new_height > 0xffff_ffff {
        return Err(
            ConvertError::MalformedGrid(GridFault::TooLarge { rows: new_height, columns: new_width }),
        );
    }
    let mut files: Vec<FrameFiles> = Vec::new();
    let mut total_size: u64 = 0;
    let mut i: usize = 0;
    while i < frames.len()
        invariant
            i <= frames@.len(),
            files@.len() == i,
            margins == (CropMargins { top, bottom, left, right }),
            crop_frames_fault(frames@, margins) is None,
            new_width == first_size(frames@).0 - left - right,
            new_height == first_size(frames@).1 - top - bottom,
            new_width <= u32::MAX,
            new_height <= u32::MAX,
            total_size == least_size(files_size(files@)),
            forall|j: int| 0 <= j < i ==> croppable(#[trigger] frames@[j], margins),
            forall|j: int|
                0 <= j < i ==> is_crop_of(
                    #[trigger] files@[j],
                    frames@[j],
                    margins,
                    new_width as int,
                    new_height as int,
                ),
        decreases frames@.len() - i,
    {
        let out = match crop_frame_files(&frames[i], margins, new_width, new_height) {
            Ok(out) => out,
            Err(e) => {
                return Err(e);
            },
        };
        let text_len = out.text.len();
        let cframe_len = match &out.cframe {
            Some(data) => data.len(),
            None => 0,
        };
        let ghost before = files@;
        let added: u128 = (total_size as u128) + (text_len as u128) + (cframe_len as u128);
        files.push(out);
        proof {
            assert(files@.drop_last() =~= before);
            lemma_files_size_nonnegative(before);
        }
        total_size = if added > u64::MAX as u128 {
            u64::MAX
        } else {
            added as u64
        };
        i += 1;
    }
    Ok(
        (
            files,
            CropResult {
                frame_count: frames.len(),
                new_width: new_width as u32,
                new_height: new_height as u32,
                total_size,
            },
        ),
    )
}

/// A size in bytes as 64 bits hold it: the size, or the largest number
/// where it is more.
pub open spec fn least_size(size: int) -> int {
    if size > u64::MAX {
        u64::MAX as int
    } else {
        size
    }
}

/// Files never have a negative size.
pub proof fn lemma_files_size_nonnegative(files: Seq<FrameFiles>)
    ensures
        files_size(files) >= 0,
    decreases files.len(),
{
    if files.len() > 0 {
        lemma_files_size_nonnegative(files.drop_last());
    }
}

/// The fault for which the trimming of a text frame is refused, if there
/// is one: the text is no rectangle, or the trim leaves no row or no
/// column.
pub open spec fn trim_fault(content: Seq<u8>, margins: CropMargins) -> Option<ConvertError> {
    let lines = text_lines(content);
    match grid_fault(lines) {
        Some(fault) => Some(ConvertError::MalformedGrid(fault)),
        None => match crop_fault(margins, lines[0].len() as int, lines.len() as int) {
            Some(fault) => Some(ConvertError::Config(fault)),
            None => None,
        },
    }
}

/// Trims a text frame: checks that it is a rectangle, and crops it by
/// the margins.
pub fn trim_text(content: &[u8], margins: CropMargins) -> (r: Result<Vec<u8>, ConvertError>)
    ensures
        r is Ok <==> trim_fault(content@, margins) is None,
        r matches Err(e) ==> trim_fault(content@, margins) == Some(e),
        r matches Ok(out) ==> {
            let lines = text_lines(content@);
            out@ == cropped_text(
                cropped_lines(
                    lines,
                    margins.top as int,
                    margins.left as int,
                    lines[0].len() - margins.left - margins.right,
                    lines.len() - margins.top - margins.bottom,
                ),
            )
        },
{
    let frame = match read_txt_to_frame_data(content) {
        Ok(frame) => frame,
        Err(e) => {
            return Err(e);
        },
    };
    let (new_width, new_height) = match cropped_size(
        margins,
        frame.width_chars as usize,
        frame.height_chars as usize,
    ) {
        Ok(size) => size,
        Err(e) => {
            return Err(e);
        },
    };
    Ok(crop_text(content, margins.top, margins.left, new_width, new_height))
}

} // verus!
