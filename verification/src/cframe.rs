//! The binary frame format.
//!
//! A binary frame is an eight byte header, the width and the height as
//! little-endian 32-bit numbers, followed by one record of four bytes for
//! each cell, row by row: the character, then red, green and blue. Row
//! ends are not stored.

use vstd::prelude::*;
use crate::error::{ConvertError, FrameFault};
use crate::layout::lemma_product_fits;
use crate::frame::{
    cells_of, count_cells, grid_text, lemma_cells_of_grid_text, lemma_cells_of_prefix,
    lemma_cells_of_properties, lemma_cells_of_push, AsciiFrameData, NEWLINE,
};

verus! {

/// The length of the header.
pub const HEADER_LEN: usize = 8;

/// The color channel written for a cell of a frame without colors.
pub const WHITE: u8 = 255;

/// The number that four little-endian bytes stand for.
pub open spec fn le_u32(b0: u8, b1: u8, b2: u8, b3: u8) -> int {
    b0 + 256 * b1 + 65536 * b2 + 16777216 * b3
}

/// The four little-endian bytes of a number.
pub open spec fn le_bytes(value: u32) -> Seq<u8> {
    seq![
        (value % 256) as u8,
        ((value / 256) % 256) as u8,
        ((value / 65536) % 256) as u8,
        ((value / 16777216) % 256) as u8,
    ]
}

/// One channel of the color of a cell: the cell's own, or white where the
/// frame has no colors.
pub open spec fn color_channel(colors: Seq<u8>, cell: int, channel: int) -> u8 {
    if colors.len() == 0 {
        WHITE
    } else {
        colors[3 * cell + channel]
    }
}

/// The records of a frame, one after another.
pub open spec fn cframe_body(cells: Seq<u8>, colors: Seq<u8>) -> Seq<u8> {
    Seq::new(
        4 * cells.len(),
        |k: int|
            if k % 4 == 0 {
                cells[k / 4]
            } else {
                color_channel(colors, k / 4, k % 4 - 1)
            },
    )
}

/// The binary form of a frame with these dimensions, cells and colors.
pub open spec fn cframe_bytes(width: u32, height: u32, cells: Seq<u8>, colors: Seq<u8>) -> Seq<u8> {
    le_bytes(width) + le_bytes(height) + cframe_body(cells, colors)
}

/// Whether text and colors can be stored under these dimensions: there is
/// one cell for each position, and the colors are absent or complete.
pub open spec fn storable(width: u32, height: u32, text: Seq<u8>, colors: Seq<u8>) -> bool {
    &&& cells_of(text).len() == width * height
    &&& (colors.len() == 0 || colors.len() == 3 * (width * height))
}

/// The width that a binary frame announces.
pub open spec fn cframe_width(data: Seq<u8>) -> int
    recommends
        data.len() >= HEADER_LEN,
{
    le_u32(data[0], data[1], data[2], data[3])
}

/// The height that a binary frame announces.
pub open spec fn cframe_height(data: Seq<u8>) -> int
    recommends
        data.len() >= HEADER_LEN,
{
    le_u32(data[4], data[5], data[6], data[7])
}

/// The length of the body that the header of a binary frame announces.
pub open spec fn cframe_expected_body(data: Seq<u8>) -> int
    recommends
        data.len() >= HEADER_LEN,
{
    4 * (cframe_width(data) * cframe_height(data))
}

/// Whether the data holds a header and all the records it announces.
pub open spec fn cframe_is_complete(data: Seq<u8>) -> bool {
    &&& data.len() >= HEADER_LEN
    &&& data.len() >= HEADER_LEN + cframe_expected_body(data)
}

/// The characters of the records of a binary frame.
pub open spec fn cframe_cells(data: Seq<u8>) -> Seq<u8>
    recommends
        cframe_is_complete(data),
{
    Seq::new(
        (cframe_width(data) * cframe_height(data)) as nat,
        |i: int| data[HEADER_LEN + 4 * i],
    )
}

/// The colors of the records of a binary frame, three bytes for each.
pub open spec fn cframe_colors(data: Seq<u8>) -> Seq<u8>
    recommends
        cframe_is_complete(data),
{
    Seq::new(
        (3 * (cframe_width(data) * cframe_height(data))) as nat,
        |k: int| data[HEADER_LEN + 4 * (k / 3) + 1 + k % 3],
    )
}

/// The text of a binary frame: its characters in rows, a newline after
/// each row.
pub open spec fn cframe_text(data: Seq<u8>) -> Seq<u8>
    recommends
        cframe_is_complete(data),
{
    grid_text(cframe_cells(data), cframe_width(data) as nat, cframe_height(data) as nat)
}

/// Four bytes and the number they stand for determine each other.
pub proof fn lemma_le_round_trip(value: u32)
    ensures
        le_bytes(value).len() == 4,
        le_u32(le_bytes(value)[0], le_bytes(value)[1], le_bytes(value)[2], le_bytes(value)[3])
            == value,
{
}

fn push_le_u32(out: &mut Vec<u8>, value: u32)
    ensures
        final(out)@ == old(out)@ + le_bytes(value),
{
    out.push((value % 256) as u8);
    out.push(((value / 256) % 256) as u8);
    out.push(((value / 65536) % 256) as u8);
    out.push(((value / 16777216) % 256) as u8);
    assert(out@ =~= old(out)@ + le_bytes(value));
}

fn read_le_u32(data: &[u8], at: usize) -> (value: u32)
    requires
        at + 4 <= data@.len(),
    ensures
        value == le_u32(
            data@[at as int],
            data@[at + 1],
            data@[at + 2],
            data@[at + 3],
        ),
{
    (data[at] as u32) + 256 * (data[at + 1] as u32) + 65536 * (data[at + 2] as u32) + 16777216
        * (data[at + 3] as u32)
}

/// Encodes a frame in the binary format.
///
/// The newlines of `ascii_content` are not stored. A frame whose text or
/// colors disagree with its dimensions is refused; a frame without colors
/// is stored with every cell white.
pub fn write_cframe_binary(
    width: u32,
    height: u32,
    ascii_content: &[u8],
    rgb_data: &[u8],
) -> (r: Result<Vec<u8>, ConvertError>)
    ensures
        r is Ok <==> storable(width, height, ascii_content@, rgb_data@),
        r matches Ok(bytes) ==> bytes@ == cframe_bytes(
            width,
            height,
            cells_of(ascii_content@),
            rgb_data@,
        ),
        r matches Err(e) ==> e == (ConvertError::CorruptFrame(
            FrameFault::Mismatch {
                expected_cells: (width * height) as u64,
                text_cells: cells_of(ascii_content@).len() as usize,
                color_bytes: rgb_data@.len() as usize,
            },
        )),
{
    proof {
        lemma_product_fits(width, height);
    }
    let expected_cells: u64 = (width as u64) * (height as u64);
    let text_cells = count_cells(ascii_content);
    proof {
        lemma_cells_of_properties(ascii_content@);
    }
    let colors_ok = rgb_data.len() == 0 || (rgb_data.len() as u128) == 3 * (expected_cells as u128);
    if (text_cells as u64) != expected_cells || !colors_ok {
        return Err(
            ConvertError::CorruptFrame(
                FrameFault::Mismatch {
                    expected_cells,
                    text_cells,
                    color_bytes: rgb_data.len(),
                },
            ),
        );
    }
    let ghost cells = cells_of(ascii_content@);
    let mut out: Vec<u8> = Vec::new();
    push_le_u32(&mut out, width);
    push_le_u32(&mut out, height);
    let ghost header = out@;
    let mut cell: usize = 0;
    let mut i: usize = 0;
    while i < ascii_content.len()
        invariant
            i <= ascii_content@.len(),
            cells == cells_of(ascii_content@),
            cells.len() == width * height,
            rgb_data@.len() == 0 || rgb_data@.len() == 3 * cells.len(),
            cell == cells_of(ascii_content@.take(i as int)).len(),
            cell <= i,
            out@ == header + cframe_body(cells_of(ascii_content@.take(i as int)), rgb_data@),
        decreases ascii_content@.len() - i,
    {
        let ghost before = cells_of(ascii_content@.take(i as int));
        proof {
            assert(ascii_content@.take(i as int + 1) =~= ascii_content@.take(i as int).push(
                ascii_content@[i as int],
            ));
            lemma_cells_of_push(ascii_content@.take(i as int), ascii_content@[i as int]);
            lemma_cells_of_prefix(ascii_content@, i as int + 1);
        }
        let ch = ascii_content[i];
        if ch != NEWLINE {
            let (red, green, blue) = if rgb_data.len() == 0 {
                (WHITE, WHITE, WHITE)
            } else {
                (rgb_data[3 * cell], rgb_data[3 * cell + 1], rgb_data[3 * cell + 2])
            };
            out.push(ch);
            out.push(red);
            out.push(green);
            out.push(blue);
            proof {
                let after = before.push(ch);
                assert(out@ =~= header + cframe_body(after, rgb_data@));
            }
            cell += 1;
        }
        i += 1;
    }
    proof {
        assert(ascii_content@.take(ascii_content@.len() as int) =~= ascii_content@);
        assert(header =~= le_bytes(width) + le_bytes(height));
    }
    Ok(out)
}

/// Decodes a binary frame.
///
/// Data shorter than the header, or shorter than the header and the body
/// that it announces, is refused. Bytes after the announced body are
/// ignored. The text of the result has a newline after each row.
pub fn read_cframe_to_frame_data(data: &[u8]) -> (r: Result<AsciiFrameData, ConvertError>)
    ensures
        r is Ok <==> cframe_is_complete(data@),
        r matches Ok(frame) ==> {
            &&& frame.width_chars == cframe_width(data@)
            &&& frame.height_chars == cframe_height(data@)
            &&& frame.ascii_text@ == cframe_text(data@)
            &&& frame.rgb_colors@ == cframe_colors(data@)
        },
        data@.len() < HEADER_LEN ==> r == Err::<AsciiFrameData, ConvertError>(
            ConvertError::CorruptFrame(FrameFault::TooSmall { len: data@.len() as usize }),
        ),
        data@.len() >= HEADER_LEN && !cframe_is_complete(data@) ==> r == Err::<
            AsciiFrameData,
            ConvertError,
        >(
            ConvertError::CorruptFrame(
                FrameFault::Truncated {
                    expected_body: cframe_expected_body(data@) as u128,
                    actual_body: (data@.len() - HEADER_LEN) as usize,
                },
            ),
        ),
{
    if data.len() < HEADER_LEN {
        return Err(ConvertError::CorruptFrame(FrameFault::TooSmall { len: data.len() }));
    }
    let width = read_le_u32(data, 0);
    let height = read_le_u32(data, 4);
    proof {
        lemma_product_fits(width, height);
    }
    let cell_count: u64 = (width as u64) * (height as u64);
    let expected_body: u128 = 4 * (cell_count as u128);
    let actual_body: usize = data.len() - HEADER_LEN;
    if (actual_body as u128) < expected_body {
        return Err(
            ConvertError::CorruptFrame(FrameFault::Truncated { expected_body, actual_body }),
        );
    }
    let ghost cells = cframe_cells(data@);
    let ghost colors = cframe_colors(data@);
    let ghost w = width as nat;
    let mut ascii_text: Vec<u8> = Vec::new();
    let mut rgb_colors: Vec<u8> = Vec::new();
    let mut cell: usize = 0;
    let mut row: u32 = 0;
    while row < height
        invariant
            row <= height,
            cell == row * width,
            cells == cframe_cells(data@),
            colors == cframe_colors(data@),
            cells.len() == width * height,
            colors.len() == 3 * (width * height),
            w == width,
            data@.len() >= HEADER_LEN + 4 * (width * height),
            data@.len() <= usize::MAX,
            width == cframe_width(data@),
            height == cframe_height(data@),
            ascii_text@ == grid_text(cells, w, row as nat),
            rgb_colors@ == colors.take(3 * cell as int),
        decreases height - row,
    {
        proof {
            assert(row * width + width <= width * height) by (nonlinear_arith)
                requires
                    row < height,
            ;
        }
        let ghost row_start = cell as int;
        let ghost above = ascii_text@;
        let mut col: u32 = 0;
        while col < width
            invariant
                col <= width,
                row < height,
                cell == row_start + col,
                row_start == row * width,
                row_start + width <= width * height,
                cells == cframe_cells(data@),
                colors == cframe_colors(data@),
                cells.len() == width * height,
                colors.len() == 3 * (width * height),
                data@.len() >= HEADER_LEN + 4 * (width * height),
                data@.len() <= usize::MAX,
                width == cframe_width(data@),
                height == cframe_height(data@),
                ascii_text@ == above + cells.subrange(row_start, row_start + col),
                rgb_colors@ == colors.take(3 * cell as int),
            decreases width - col,
        {
            let at: usize = HEADER_LEN + 4 * cell;
            ascii_text.push(data[at]);
            rgb_colors.push(data[at + 1]);
            rgb_colors.push(data[at + 2]);
            rgb_colors.push(data[at + 3]);
            proof {
                assert(ascii_text@ =~= above + cells.subrange(row_start, row_start + col + 1));
                assert(rgb_colors@ =~= colors.take(3 * (cell + 1) as int));
            }
            cell += 1;
            col += 1;
        }
        ascii_text.push(NEWLINE);
        proof {
            assert((row + 1) * width == row * width + width) by (nonlinear_arith);
            assert(row * w == row * width);
            assert(ascii_text@ =~= above + cells.subrange(
                row * w as int,
                (row + 1) * w as int,
            ).push(NEWLINE));
        }
        row += 1;
    }
    proof {
        assert(height * width == width * height) by (nonlinear_arith);
        assert(rgb_colors@ =~= colors);
    }
    Ok(AsciiFrameData { ascii_text, width_chars: width, height_chars: height, rgb_colors })
}

/// Encoding a frame that has colors and decoding the result gives the
/// same width, height and colors, and the same cells; the text that comes
/// back differs from the one that went in by row newlines at most.
pub proof fn lemma_cframe_round_trip(width: u32, height: u32, text: Seq<u8>, colors: Seq<u8>)
    requires
        cells_of(text).len() == width * height,
        colors.len() == 3 * (width * height),
    ensures
        ({
            let bytes = cframe_bytes(width, height, cells_of(text), colors);
            &&& cframe_is_complete(bytes)
            &&& cframe_width(bytes) == width
            &&& cframe_height(bytes) == height
            &&& cframe_colors(bytes) == colors
            &&& cframe_cells(bytes) == cells_of(text)
            &&& cframe_text(bytes) == grid_text(cells_of(text), width as nat, height as nat)
            &&& cells_of(cframe_text(bytes)) == cells_of(text)
        }),
{
    let cells = cells_of(text);
    let bytes = cframe_bytes(width, height, cells, colors);
    lemma_le_round_trip(width);
    lemma_le_round_trip(height);
    lemma_cframe_header(width, height, cells, colors);
    assert(cframe_cells(bytes) =~= cells);
    if cells.len() > 0 {
        assert(cframe_colors(bytes) =~= colors);
    } else {
        assert(cframe_colors(bytes) =~= colors);
    }
    lemma_cells_of_properties(text);
    lemma_cells_of_grid_text(cells, width as nat, height as nat);
    assert(cells.take((width as nat * height as nat) as int) =~= cells);
}

/// Encoding a frame that has no colors and decoding the result gives the
/// same width, height and cells, and every cell white.
pub proof fn lemma_cframe_round_trip_without_colors(width: u32, height: u32, text: Seq<u8>)
    requires
        cells_of(text).len() == width * height,
    ensures
        ({
            let bytes = cframe_bytes(width, height, cells_of(text), Seq::empty());
            &&& cframe_is_complete(bytes)
            &&& cframe_width(bytes) == width
            &&& cframe_height(bytes) == height
            &&& cframe_cells(bytes) == cells_of(text)
            &&& cells_of(cframe_text(bytes)) == cells_of(text)
            &&& cframe_colors(bytes) == Seq::new((3 * (width * height)) as nat, |k: int| WHITE)
        }),
{
    let cells = cells_of(text);
    let bytes = cframe_bytes(width, height, cells, Seq::empty());
    lemma_cframe_header(width, height, cells, Seq::empty());
    assert(cframe_cells(bytes) =~= cells);
    assert(cframe_colors(bytes) =~= Seq::new((3 * (width * height)) as nat, |k: int| WHITE));
    lemma_cells_of_properties(text);
    lemma_cells_of_grid_text(cells, width as nat, height as nat);
    assert(cells.take((width as nat * height as nat) as int) =~= cells);
}

/// The layout of an encoded frame: where the header ends and where each
/// record's bytes stand.
pub proof fn lemma_cframe_header(width: u32, height: u32, cells: Seq<u8>, colors: Seq<u8>)
    ensures
        ({
            let bytes = cframe_bytes(width, height, cells, colors);
            &&& bytes.len() == HEADER_LEN + 4 * cells.len()
            &&& cframe_width(bytes) == width
            &&& cframe_height(bytes) == height
            &&& forall|k: int|
                0 <= k < 4 * cells.len() ==> bytes[HEADER_LEN + k] == cframe_body(cells, colors)[k]
        }),
{
    let bytes = cframe_bytes(width, height, cells, colors);
    lemma_le_round_trip(width);
    lemma_le_round_trip(height);
    assert(bytes[0] == le_bytes(width)[0]);
    assert(bytes[1] == le_bytes(width)[1]);
    assert(bytes[2] == le_bytes(width)[2]);
    assert(bytes[3] == le_bytes(width)[3]);
    assert(bytes[4] == le_bytes(height)[0]);
    assert(bytes[5] == le_bytes(height)[1]);
    assert(bytes[6] == le_bytes(height)[2]);
    assert(bytes[7] == le_bytes(height)[3]);
}

/// Data that is shorter than its header and the body that the header
/// announces is never complete, so decoding refuses it.
pub proof fn lemma_truncated_is_incomplete(data: Seq<u8>)
    requires
        data.len() < HEADER_LEN || data.len() < HEADER_LEN + 4 * (cframe_width(data)
            * cframe_height(data)),
    ensures
        !cframe_is_complete(data),
{
}

} // verus!
