//! Rendering of a frame into RGB pixels.
//!
//! Each cell of the frame becomes a rectangle of the atlas's cell size,
//! filled with the cell's color weighted by the coverage of its glyph.
//! Width and height of the picture are rounded up to even numbers; what
//! the rounding adds stays black.

use vstd::prelude::*;
use crate::atlas::{AtlasView, GlyphAtlas};
use crate::cframe::WHITE;
use crate::frame::{
    cells_of, lemma_cells_of_prefix, lemma_cells_of_push, AsciiFrameData, NEWLINE,
};
use crate::layout::{
    lemma_position_bound, lemma_position_joins, lemma_position_row, lemma_position_splits,
    lemma_position_unique, lemma_product_fits,
};
use crate::luminance::SPACE;

verus! {

/// Whether a number is even.
pub open spec fn is_even(n: int) -> bool {
    n % 2 == 0
}

/// The smallest even number that is not below `n`.
pub open spec fn even_up(n: int) -> int {
    if n % 2 == 0 {
        n
    } else {
        n + 1
    }
}

/// `even_up(n)` is even, it is not below `n`, and no even number that is
/// not below `n` is smaller.
pub proof fn lemma_even_up_is_least_even(n: int)
    ensures
        is_even(even_up(n)),
        even_up(n) >= n,
        forall|m: int| m >= n && #[trigger] is_even(m) ==> even_up(n) <= m,
{
}

/// The width in pixels of a picture of `width_chars` cells, each
/// `cell_width` pixels wide. The height follows the same rule.
pub open spec fn pixel_extent(chars: u32, cell: nat) -> int {
    even_up(chars * cell)
}

/// Whether a picture of these dimensions can be addressed: both sides fit
/// 32 bits, and its bytes can be counted.
pub open spec fn render_fits(
    width_chars: u32,
    height_chars: u32,
    cell_width: nat,
    cell_height: nat,
) -> bool {
    &&& pixel_extent(width_chars, cell_width) <= u32::MAX
    &&& pixel_extent(height_chars, cell_height) <= u32::MAX
    &&& 3 * (pixel_extent(width_chars, cell_width) * pixel_extent(height_chars, cell_height))
        <= usize::MAX
}

/// The position in the pixel buffer of one channel of the pixel in column
/// `px` of row `py`.
pub open spec fn pixel_offset(pixel_width: int, px: int, py: int, channel: int) -> int {
    3 * (py * pixel_width + px) + channel
}

/// A color channel weighted by a coverage level.
pub open spec fn blend(color: u8, level: u8) -> u8 {
    ((color * level) / 255) as u8
}

/// The color of a cell: its own where colors are wanted and the frame
/// holds them for that cell, white otherwise.
pub open spec fn cell_color(colors: Seq<u8>, use_colors: bool, cell: int, channel: int) -> u8 {
    if use_colors && 3 * cell + 2 < colors.len() {
        colors[3 * cell + channel]
    } else {
        WHITE
    }
}

/// One channel of the pixel in column `gx` of row `gy` of a cell. Cells
/// that the text does not reach, spaces and bytes without a glyph stay
/// black.
pub open spec fn cell_pixel(
    cells: Seq<u8>,
    colors: Seq<u8>,
    atlas: AtlasView,
    use_colors: bool,
    cell: int,
    gx: int,
    gy: int,
    channel: int,
) -> u8 {
    if 0 <= cell < cells.len() && cells[cell] != SPACE && atlas.glyphs.contains_key(cells[cell]) {
        blend(
            cell_color(colors, use_colors, cell, channel),
            atlas.glyphs[cells[cell]][gy * atlas.cell_width + gx],
        )
    } else {
        0
    }
}

/// Whether a pixel lies in the part of the picture that the cells cover.
pub open spec fn in_grid(
    width_chars: u32,
    height_chars: u32,
    atlas: AtlasView,
    px: int,
    py: int,
) -> bool {
    &&& 0 <= px < width_chars * atlas.cell_width
    &&& 0 <= py < height_chars * atlas.cell_height
}

/// The cell that a pixel of the covered part belongs to.
pub open spec fn cell_index(width_chars: u32, atlas: AtlasView, px: int, py: int) -> int {
    (py / atlas.cell_height as int) * width_chars + px / atlas.cell_width as int
}

/// One channel of one pixel of the picture of a frame.
pub open spec fn frame_pixel(
    frame: AsciiFrameData,
    atlas: AtlasView,
    use_colors: bool,
    px: int,
    py: int,
    channel: int,
) -> u8 {
    if in_grid(frame.width_chars, frame.height_chars, atlas, px, py) {
        cell_pixel(
            frame.cells(),
            frame.rgb_colors@,
            atlas,
            use_colors,
            cell_index(frame.width_chars, atlas, px, py),
            px % atlas.cell_width as int,
            py % atlas.cell_height as int,
            channel,
        )
    } else {
        0
    }
}

/// The picture of a frame: three bytes for each pixel, row by row.
pub open spec fn rendered_frame(
    frame: AsciiFrameData,
    atlas: AtlasView,
    use_colors: bool,
) -> Seq<u8> {
    let pixel_width = pixel_extent(frame.width_chars, atlas.cell_width);
    let pixel_height = pixel_extent(frame.height_chars, atlas.cell_height);
    Seq::new(
        (3 * (pixel_width * pixel_height)) as nat,
        |i: int|
            frame_pixel(
                frame,
                atlas,
                use_colors,
                (i / 3) % pixel_width,
                (i / 3) / pixel_width,
                i % 3,
            ),
    )
}

/// Rendering depends on nothing but the frame, the atlas and the flag:
/// equal inputs give pictures that are equal byte for byte.
pub proof fn lemma_render_is_deterministic(
    frame1: AsciiFrameData,
    atlas1: AtlasView,
    use_colors1: bool,
    frame2: AsciiFrameData,
    atlas2: AtlasView,
    use_colors2: bool,
)
    requires
        frame1.width_chars == frame2.width_chars,
        frame1.height_chars == frame2.height_chars,
        frame1.ascii_text@ == frame2.ascii_text@,
        frame1.rgb_colors@ == frame2.rgb_colors@,
        atlas1 == atlas2,
        use_colors1 == use_colors2,
    ensures
        rendered_frame(frame1, atlas1, use_colors1) == rendered_frame(
            frame2,
            atlas2,
            use_colors2,
        ),
{
    assert(rendered_frame(frame1, atlas1, use_colors1) =~= rendered_frame(
        frame2,
        atlas2,
        use_colors2,
    ));
}

/// Two channels of two pixels share a position in the buffer only if they
/// are the same channel of the same pixel.
pub proof fn lemma_pixel_offset_unique(
    pixel_width: int,
    px1: int,
    py1: int,
    c1: int,
    px2: int,
    py2: int,
    c2: int,
)
    requires
        0 <= px1 < pixel_width,
        0 <= px2 < pixel_width,
        0 <= py1,
        0 <= py2,
        0 <= c1 < 3,
        0 <= c2 < 3,
    ensures
        pixel_offset(pixel_width, px1, py1, c1) == pixel_offset(pixel_width, px2, py2, c2) ==> px1
            == px2 && py1 == py2 && c1 == c2,
{
    if pixel_offset(pixel_width, px1, py1, c1) == pixel_offset(pixel_width, px2, py2, c2) {
        lemma_position_unique(px1, py1, px2, py2, pixel_width);
    }
}

/// The position of a pixel of the picture lies inside the buffer.
pub proof fn lemma_pixel_offset_bound(
    pixel_width: int,
    pixel_height: int,
    px: int,
    py: int,
    channel: int,
)
    requires
        0 <= px < pixel_width,
        0 <= py < pixel_height,
        0 <= channel < 3,
    ensures
        0 <= pixel_offset(pixel_width, px, py, channel) < 3 * (pixel_width * pixel_height),
{
    lemma_position_bound(px, py, pixel_width, pixel_height);
}

/// Every position of the buffer is that of one channel of one pixel.
pub proof fn lemma_pixel_offset_covers(pixel_width: int, pixel_height: int, i: int)
    requires
        0 <= i < 3 * (pixel_width * pixel_height),
        0 < pixel_width,
    ensures
        i == pixel_offset(pixel_width, (i / 3) % pixel_width, (i / 3) / pixel_width, i % 3),
        0 <= (i / 3) % pixel_width < pixel_width,
        0 <= (i / 3) / pixel_width < pixel_height,
        0 <= i % 3 < 3,
{
    lemma_position_row(i / 3, pixel_width, pixel_height);
    lemma_position_joins(i / 3, pixel_width);
}

/// Computes the width and the height in pixels of the picture of a grid,
/// each rounded up to an even number. There is no result where a side does
/// not fit 32 bits.
pub fn pixel_dimensions(
    width_chars: u32,
    height_chars: u32,
    cell_width: u32,
    cell_height: u32,
) -> (r: Option<(u32, u32)>)
    ensures
        r is Some <==> pixel_extent(width_chars, cell_width as nat) <= u32::MAX && pixel_extent(
            height_chars,
            cell_height as nat,
        ) <= u32::MAX,
        r matches Some((pixel_width, pixel_height)) ==> {
            &&& pixel_width == pixel_extent(width_chars, cell_width as nat)
            &&& pixel_height == pixel_extent(height_chars, cell_height as nat)
            &&& pixel_width % 2 == 0
            &&& pixel_height % 2 == 0
        },
{
    proof {
        lemma_product_fits(width_chars, cell_width);
        lemma_product_fits(height_chars, cell_height);
    }
    let w: u64 = (width_chars as u64) * (cell_width as u64);
    let h: u64 = (height_chars as u64) * (cell_height as u64);
    let w: u64 = if w % 2 == 0 {
        w
    } else {
        w + 1
    };
    let h: u64 = if h % 2 == 0 {
        h
    } else {
        h + 1
    };
    if w > 0xffff_ffff || h > 0xffff_ffff {
        None
    } else {
        Some((w as u32, h as u32))
    }
}

/// Tells whether the picture of a grid can be rendered on this machine.
pub fn can_render(
    width_chars: u32,
    height_chars: u32,
    cell_width: u32,
    cell_height: u32,
) -> (ok: bool)
    ensures
        ok == render_fits(width_chars, height_chars, cell_width as nat, cell_height as nat),
{
    match pixel_dimensions(width_chars, height_chars, cell_width, cell_height) {
        None => false,
        Some((pixel_width, pixel_height)) => {
            proof {
                lemma_product_fits(pixel_width, pixel_height);
            }
            let pixels: u128 = (pixel_width as u128) * (pixel_height as u128);
            3 * pixels <= usize::MAX as u128
        },
    }
}

/// Weighs a color channel by a coverage level.
pub fn blend_channel(color: u8, level: u8) -> (v: u8)
    ensures
        v == blend(color, level),
        level == 0 ==> v == 0,
{
    assert(color * level <= 255 * 255) by (nonlinear_arith)
        requires
            color <= 255,
            level <= 255,
    ;
    assert(level == 0 ==> color * level == 0) by (nonlinear_arith);
    (((color as u32) * (level as u32)) / 255) as u8
}

/// Whether the pixel in column `gx` of row `gy` of a cell comes before
/// the pixel in column `next_x` of row `next_y`, reading row by row.
pub open spec fn comes_before(gx: int, gy: int, next_x: int, next_y: int) -> bool {
    gy < next_y || (gy == next_y && gx < next_x)
}

/// One channel of a pixel while a glyph is being drawn: the weighted color
/// where the glyph's pixel has been drawn, the earlier value elsewhere.
pub open spec fn drawn_pixel(
    earlier: Seq<u8>,
    pixel_width: int,
    base_x: int,
    base_y: int,
    alpha: Seq<u8>,
    cell_width: int,
    cell_height: int,
    color: (u8, u8, u8),
    next_x: int,
    next_y: int,
    px: int,
    py: int,
    channel: int,
) -> u8 {
    let gx = px - base_x;
    let gy = py - base_y;
    if 0 <= gx < cell_width && 0 <= gy < cell_height && comes_before(gx, gy, next_x, next_y) {
        blend(
            if channel == 0 {
                color.0
            } else if channel == 1 {
                color.1
            } else {
                color.2
            },
            alpha[gy * cell_width + gx],
        )
    } else {
        earlier[pixel_offset(pixel_width, px, py, channel)]
    }
}

/// Draws one glyph into the rectangle of its cell. Pixels without
/// coverage are left as they are, which is black.
fn draw_glyph(
    buffer: &mut Vec<u8>,
    pixel_width: usize,
    pixel_height: usize,
    base_x: usize,
    base_y: usize,
    alpha: &Vec<u8>,
    cell_width: usize,
    cell_height: usize,
    color: (u8, u8, u8),
)
    requires
        old(buffer)@.len() == 3 * (pixel_width * pixel_height),
        base_x + cell_width <= pixel_width,
        base_y + cell_height <= pixel_height,
        alpha@.len() == cell_width * cell_height,
        forall|gx: int, gy: int, channel: int|
            0 <= gx < cell_width && 0 <= gy < cell_height && 0 <= channel < 3 ==> old(buffer)@[#[trigger] pixel_offset(
                pixel_width as int,
                base_x + gx,
                base_y + gy,
                channel,
            )] == 0,
    ensures
        final(buffer)@.len() == old(buffer)@.len(),
        forall|px: int, py: int, channel: int|
            0 <= px < pixel_width && 0 <= py < pixel_height && 0 <= channel < 3 ==> final(buffer)@[#[trigger] pixel_offset(
                pixel_width as int,
                px,
                py,
                channel,
            )] == drawn_pixel(
                old(buffer)@,
                pixel_width as int,
                base_x as int,
                base_y as int,
                alpha@,
                cell_width as int,
                cell_height as int,
                color,
                0,
                cell_height as int,
                px,
                py,
                channel,
            ),
{
    let ghost earlier = buffer@;
    let levels = alpha.len();
    let total = buffer.len();
    let mut gy: usize = 0;
    while gy < cell_height
        invariant
            gy <= cell_height,
            earlier == old(buffer)@,
            levels == cell_width * cell_height,
            total == 3 * (pixel_width * pixel_height),
            buffer@.len() == 3 * (pixel_width * pixel_height),
            base_x + cell_width <= pixel_width,
            base_y + cell_height <= pixel_height,
            alpha@.len() == cell_width * cell_height,
            forall|gx: int, gy: int, channel: int|
                0 <= gx < cell_width && 0 <= gy < cell_height && 0 <= channel < 3 ==> earlier[#[trigger] pixel_offset(
                    pixel_width as int,
                    base_x + gx,
                    base_y + gy,
                    channel,
                )] == 0,
            forall|px: int, py: int, channel: int|
                0 <= px < pixel_width && 0 <= py < pixel_height && 0 <= channel < 3 ==> buffer@[#[trigger] pixel_offset(
                    pixel_width as int,
                    px,
                    py,
                    channel,
                )] == drawn_pixel(
                    earlier,
                    pixel_width as int,
                    base_x as int,
                    base_y as int,
                    alpha@,
                    cell_width as int,
                    cell_height as int,
                    color,
                    0,
                    gy as int,
                    px,
                    py,
                    channel,
                ),
        decreases cell_height - gy,
    {
        let mut gx: usize = 0;
        while gx < cell_width
            invariant
                gx <= cell_width,
                gy < cell_height,
                levels == cell_width * cell_height,
                total == 3 * (pixel_width * pixel_height),
                buffer@.len() == 3 * (pixel_width * pixel_height),
                base_x + cell_width <= pixel_width,
                base_y + cell_height <= pixel_height,
                alpha@.len() == cell_width * cell_height,
                forall|gx: int, gy: int, channel: int|
                    0 <= gx < cell_width && 0 <= gy < cell_height && 0 <= channel < 3 ==> earlier[#[trigger] pixel_offset(
                        pixel_width as int,
                        base_x + gx,
                        base_y + gy,
                        channel,
                    )] == 0,
                forall|px: int, py: int, channel: int|
                    0 <= px < pixel_width && 0 <= py < pixel_height && 0 <= channel < 3 ==> buffer@[#[trigger] pixel_offset(
                        pixel_width as int,
                        px,
                        py,
                        channel,
                    )] == drawn_pixel(
                        earlier,
                        pixel_width as int,
                        base_x as int,
                        base_y as int,
                        alpha@,
                        cell_width as int,
                        cell_height as int,
                        color,
                        gx as int,
                        gy as int,
                        px,
                        py,
                        channel,
                    ),
            decreases cell_width - gx,
        {
            proof {
                lemma_position_bound(gx as int, gy as int, cell_width as int, cell_height as int);
                lemma_pixel_offset_bound(
                    pixel_width as int,
                    pixel_height as int,
                    base_x + gx,
                    base_y + gy,
                    0,
                );
                lemma_pixel_offset_bound(
                    pixel_width as int,
                    pixel_height as int,
                    base_x + gx,
                    base_y + gy,
                    2,
                );
                lemma_position_bound(
                    base_x + gx,
                    base_y + gy,
                    pixel_width as int,
                    pixel_height as int,
                );
            }
            let level = alpha[gy * cell_width + gx];
            let at: usize = 3 * ((base_y + gy) * pixel_width + base_x + gx);
            let ghost before = buffer@;
            if level > 0 {
                buffer.set(at, blend_channel(color.0, level));
                buffer.set(at + 1, blend_channel(color.1, level));
                buffer.set(at + 2, blend_channel(color.2, level));
            }
            proof {
                let pw = pixel_width as int;
                let after = buffer@;
                assert(at == pixel_offset(pw, base_x + gx, base_y + gy, 0));
                assert(level > 0 ==> after == before.update(at as int, blend(color.0, level)).update(
                    at + 1,
                    blend(color.1, level),
                ).update(at + 2, blend(color.2, level)));
                assert forall|px: int, py: int, channel: int|
                    0 <= px < pixel_width && 0 <= py < pixel_height && 0 <= channel
                        < 3 implies after[#[trigger] pixel_offset(pw, px, py, channel)]
                    == drawn_pixel(
                    earlier,
                    pw,
                    base_x as int,
                    base_y as int,
                    alpha@,
                    cell_width as int,
                    cell_height as int,
                    color,
                    gx + 1,
                    gy as int,
                    px,
                    py,
                    channel,
                ) by {
                    assert(before[pixel_offset(pw, px, py, channel)] == drawn_pixel(
                        earlier,
                        pw,
                        base_x as int,
                        base_y as int,
                        alpha@,
                        cell_width as int,
                        cell_height as int,
                        color,
                        gx as int,
                        gy as int,
                        px,
                        py,
                        channel,
                    ));
                    assert(earlier[pixel_offset(pw, base_x + gx, base_y + gy, channel)] == 0);
                    lemma_draw_step(
                        earlier,
                        before,
                        after,
                        pw,
                        pixel_height as int,
                        base_x as int,
                        base_y as int,
                        alpha@,
                        cell_width as int,
                        cell_height as int,
                        color,
                        gx as int,
                        gy as int,
                        level,
                        px,
                        py,
                        channel,
                    );
                }
            }
            gx += 1;
        }
        proof {
            assert forall|px: int, py: int, channel: int|
                0 <= px < pixel_width && 0 <= py < pixel_height && 0 <= channel
                    < 3 implies buffer@[#[trigger] pixel_offset(pixel_width as int, px, py, channel)]
                == drawn_pixel(
                earlier,
                pixel_width as int,
                base_x as int,
                base_y as int,
                alpha@,
                cell_width as int,
                cell_height as int,
                color,
                0,
                gy + 1,
                px,
                py,
                channel,
            ) by {
                assert(buffer@[pixel_offset(pixel_width as int, px, py, channel)] == drawn_pixel(
                    earlier,
                    pixel_width as int,
                    base_x as int,
                    base_y as int,
                    alpha@,
                    cell_width as int,
                    cell_height as int,
                    color,
                    cell_width as int,
                    gy as int,
                    px,
                    py,
                    channel,
                ));
            }
        }
        gy += 1;
    }
}

/// One pixel of a glyph is drawn: the buffer then holds what is drawn up
/// to and with that pixel.
proof fn lemma_draw_step(
    earlier: Seq<u8>,
    before: Seq<u8>,
    after: Seq<u8>,
    pixel_width: int,
    pixel_height: int,
    base_x: int,
    base_y: int,
    alpha: Seq<u8>,
    cell_width: int,
    cell_height: int,
    color: (u8, u8, u8),
    gx: int,
    gy: int,
    level: u8,
    px: int,
    py: int,
    channel: int,
)
    requires
        0 <= gx < cell_width,
        0 <= gy < cell_height,
        0 <= base_x,
        0 <= base_y,
        base_x + cell_width <= pixel_width,
        base_y + cell_height <= pixel_height,
        0 <= px < pixel_width,
        0 <= py < pixel_height,
        0 <= channel < 3,
        before.len() == 3 * (pixel_width * pixel_height),
        level == alpha[gy * cell_width + gx],
        before[pixel_offset(pixel_width, px, py, channel)] == drawn_pixel(
            earlier,
            pixel_width,
            base_x,
            base_y,
            alpha,
            cell_width,
            cell_height,
            color,
            gx,
            gy,
            px,
            py,
            channel,
        ),
        earlier[pixel_offset(pixel_width, base_x + gx, base_y + gy, channel)] == 0,
        level == 0 ==> after == before,
        level > 0 ==> after == before.update(
            pixel_offset(pixel_width, base_x + gx, base_y + gy, 0),
            blend(color.0, level),
        ).update(
            pixel_offset(pixel_width, base_x + gx, base_y + gy, 0) + 1,
            blend(color.1, level),
        ).update(
            pixel_offset(pixel_width, base_x + gx, base_y + gy, 0) + 2,
            blend(color.2, level),
        ),
    ensures
        after[pixel_offset(pixel_width, px, py, channel)] == drawn_pixel(
            earlier,
            pixel_width,
            base_x,
            base_y,
            alpha,
            cell_width,
            cell_height,
            color,
            gx + 1,
            gy,
            px,
            py,
            channel,
        ),
{
    let target = pixel_offset(pixel_width, px, py, channel);
    let at = pixel_offset(pixel_width, base_x + gx, base_y + gy, 0);
    lemma_pixel_offset_bound(pixel_width, pixel_height, px, py, channel);
    lemma_pixel_offset_bound(pixel_width, pixel_height, base_x + gx, base_y + gy, 0);
    lemma_pixel_offset_bound(pixel_width, pixel_height, base_x + gx, base_y + gy, 2);
    lemma_pixel_offset_unique(pixel_width, px, py, channel, base_x + gx, base_y + gy, 0);
    lemma_pixel_offset_unique(pixel_width, px, py, channel, base_x + gx, base_y + gy, 1);
    lemma_pixel_offset_unique(pixel_width, px, py, channel, base_x + gx, base_y + gy, 2);
    if px == base_x + gx && py == base_y + gy {
        assert(target == at + channel);
        assert(!comes_before(gx, gy, gx, gy));
        assert(comes_before(gx, gy, gx + 1, gy));
        assert(before[target] == earlier[target]);
        if level == 0 {
            assert(color.0 * level == 0 && color.1 * level == 0 && color.2 * level == 0)
                by (nonlinear_arith)
                requires
                    level == 0,
            ;
            assert(blend(color.0, level) == 0);
            assert(blend(color.1, level) == 0);
            assert(blend(color.2, level) == 0);
        }
    } else {
        assert(target != at && target != at + 1 && target != at + 2);
        assert(after[target] == before[target]);
        assert(comes_before(px - base_x, py - base_y, gx + 1, gy) == comes_before(
            px - base_x,
            py - base_y,
            gx,
            gy,
        ));
    }
}

/// One channel of a pixel while a frame is being rendered: as in the
/// finished picture where the pixel's cell has been drawn, black elsewhere.
pub open spec fn partial_pixel(
    frame: AsciiFrameData,
    atlas: AtlasView,
    use_colors: bool,
    done: int,
    px: int,
    py: int,
    channel: int,
) -> u8 {
    if in_grid(frame.width_chars, frame.height_chars, atlas, px, py) && cell_index(
        frame.width_chars,
        atlas,
        px,
        py,
    ) < done {
        frame_pixel(frame, atlas, use_colors, px, py, channel)
    } else {
        0
    }
}

/// A pixel of the covered part lies in the rectangle of its cell, and in
/// no other.
pub proof fn lemma_pixel_cell(
    width_chars: u32,
    height_chars: u32,
    atlas: AtlasView,
    px: int,
    py: int,
)
    requires
        in_grid(width_chars, height_chars, atlas, px, py),
    ensures
        atlas.cell_width > 0,
        atlas.cell_height > 0,
        0 <= px / (atlas.cell_width as int) && px / (atlas.cell_width as int) < width_chars,
        0 <= py / (atlas.cell_height as int) && py / (atlas.cell_height as int) < height_chars,
        0 <= cell_index(width_chars, atlas, px, py) < width_chars * height_chars,
        cell_index(width_chars, atlas, px, py) / width_chars as int == py
            / atlas.cell_height as int,
        cell_index(width_chars, atlas, px, py) % width_chars as int == px
            / atlas.cell_width as int,
{
    let cw = atlas.cell_width as int;
    let ch = atlas.cell_height as int;
    let w = width_chars as int;
    let h = height_chars as int;
    assert(cw > 0 && w > 0) by (nonlinear_arith)
        requires
            0 <= px < w * cw,
            0 <= cw,
            0 <= w,
    ;
    assert(ch > 0 && h > 0) by (nonlinear_arith)
        requires
            0 <= py < h * ch,
            0 <= ch,
            0 <= h,
    ;
    assert(w * cw == cw * w && h * ch == ch * h) by (nonlinear_arith);
    lemma_position_row(px, cw, w);
    lemma_position_row(py, ch, h);
    lemma_position_bound(px / cw, py / ch, w, h);
    lemma_position_splits(px / cw, py / ch, w);
}

/// Renders a frame into RGB pixels.
///
/// The cells are laid out row by row, `width_chars` to a row; cells after
/// the last row are not drawn. With `use_colors` each cell has its own
/// color where the frame holds one, and is white otherwise.
pub fn render_ascii_frame_to_rgb(
    frame: &AsciiFrameData,
    atlas: &GlyphAtlas,
    use_colors: bool,
) -> (buffer: Vec<u8>)
    requires
        render_fits(
            frame.width_chars,
            frame.height_chars,
            atlas@.cell_width,
            atlas@.cell_height,
        ),
    ensures
        buffer@ == rendered_frame(*frame, atlas@, use_colors),
        buffer@.len() == 3 * (pixel_extent(frame.width_chars, atlas@.cell_width) * pixel_extent(
            frame.height_chars,
            atlas@.cell_height,
        )),
{
    let cell_width = atlas.cell_width();
    let cell_height = atlas.cell_height();
    let dims = pixel_dimensions(frame.width_chars, frame.height_chars, cell_width, cell_height);
    let (pixel_width, pixel_height) = dims.unwrap();
    let pw = pixel_width as usize;
    let ph = pixel_height as usize;
    let cw = cell_width as usize;
    let ch = cell_height as usize;
    let width = frame.width_chars as usize;
    proof {
        lemma_product_fits(frame.width_chars, frame.height_chars);
    }
    let cell_limit: u64 = (frame.width_chars as u64) * (frame.height_chars as u64);
    let mut buffer: Vec<u8> = vec![0u8; 3 * (pw * ph)];
    let ghost text = frame.ascii_text@;
    let ghost cells = frame.cells();
    let mut cell: usize = 0;
    let mut i: usize = 0;
    proof {
        assert(text.take(0) =~= Seq::<u8>::empty());
        assert forall|px: int, py: int, channel: int|
            0 <= px < pw && 0 <= py < ph && 0 <= channel
                < 3 implies buffer@[#[trigger] pixel_offset(pw as int, px, py, channel)]
            == partial_pixel(*frame, atlas@, use_colors, 0, px, py, channel) by {
            lemma_pixel_offset_bound(pw as int, ph as int, px, py, channel);
            if in_grid(frame.width_chars, frame.height_chars, atlas@, px, py) {
                lemma_pixel_cell(frame.width_chars, frame.height_chars, atlas@, px, py);
            }
        }
    }
    while i < frame.ascii_text.len() && (cell as u64) < cell_limit
        invariant
            i <= text.len(),
            text == frame.ascii_text@,
            cells == cells_of(text),
            atlas@.wf(),
            cw == atlas@.cell_width,
            ch == atlas@.cell_height,
            width == frame.width_chars,
            cell_limit == frame.width_chars * frame.height_chars,
            pw == pixel_extent(frame.width_chars, atlas@.cell_width),
            ph == pixel_extent(frame.height_chars, atlas@.cell_height),
            3 * (pw * ph) <= usize::MAX,
            buffer@.len() == 3 * (pw * ph),
            cell == cells_of(text.take(i as int)).len(),
            cell <= cell_limit,
            cell <= i,
            forall|px: int, py: int, channel: int|
                0 <= px < pw && 0 <= py < ph && 0 <= channel < 3 ==> buffer@[#[trigger] pixel_offset(
                    pw as int,
                    px,
                    py,
                    channel,
                )] == partial_pixel(*frame, atlas@, use_colors, cell as int, px, py, channel),
        decreases text.len() - i,
    {
        let byte = frame.ascii_text[i];
        proof {
            assert(text.take(i as int + 1) =~= text.take(i as int).push(byte));
            lemma_cells_of_push(text.take(i as int), byte);
            lemma_cells_of_prefix(text, i as int + 1);
        }
        if byte != NEWLINE {
            proof {
                assert(cells.take(cell + 1)[cell as int] == byte);
                assert(width > 0) by (nonlinear_arith)
                    requires
                        cell < width * frame.height_chars,
                        0 <= cell,
                ;
            }
            let row = cell / width;
            let col = cell % width;
            proof {
                lemma_position_row(
                    cell as int,
                    frame.width_chars as int,
                    frame.height_chars as int,
                );
                lemma_position_joins(cell as int, width as int);
                assert(col * cw + cw <= width * cw) by (nonlinear_arith)
                    requires
                        col < width,
                        0 <= cw,
                ;
                assert(row * ch + ch <= frame.height_chars * ch) by (nonlinear_arith)
                    requires
                        row < frame.height_chars,
                        0 <= ch,
                ;
                assert(0 <= col * cw && 0 <= row * ch) by (nonlinear_arith)
                    requires
                        0 <= col,
                        0 <= row,
                        0 <= cw,
                        0 <= ch,
                ;
            }
            let ghost before = buffer@;
            let mut drawn = false;
            if byte != SPACE {
                match atlas.glyph(byte) {
                    Some(bitmap) => {
                        let color = if use_colors && cell < frame.rgb_colors.len() / 3 {
                            (
                                frame.rgb_colors[3 * cell],
                                frame.rgb_colors[3 * cell + 1],
                                frame.rgb_colors[3 * cell + 2],
                            )
                        } else {
                            (WHITE, WHITE, WHITE)
                        };
                        let base_x = col * cw;
                        let base_y = row * ch;
                        proof {
                            assert forall|gx: int, gy: int, channel: int|
                                0 <= gx < cw && 0 <= gy < ch && 0 <= channel
                                    < 3 implies buffer@[#[trigger] pixel_offset(
                                pw as int,
                                base_x + gx,
                                base_y + gy,
                                channel,
                            )] == 0 by {
                                lemma_cell_rectangle(
                                    frame.width_chars,
                                    frame.height_chars,
                                    atlas@,
                                    col as int,
                                    row as int,
                                    gx,
                                    gy,
                                );
                            }
                        }
                        draw_glyph(
                            &mut buffer,
                            pw,
                            ph,
                            base_x,
                            base_y,
                            &bitmap.alpha,
                            cw,
                            ch,
                            color,
                        );
                        proof {
                            assert forall|px: int, py: int, channel: int|
                                0 <= px < pw && 0 <= py < ph && 0 <= channel
                                    < 3 implies buffer@[#[trigger] pixel_offset(
                                pw as int,
                                px,
                                py,
                                channel,
                            )] == partial_pixel(
                                *frame,
                                atlas@,
                                use_colors,
                                cell + 1,
                                px,
                                py,
                                channel,
                            ) by {
                                let gx = px - base_x;
                                let gy = py - base_y;
                                if 0 <= gx < cw && 0 <= gy < ch {
                                    lemma_cell_rectangle(
                                        frame.width_chars,
                                        frame.height_chars,
                                        atlas@,
                                        col as int,
                                        row as int,
                                        gx,
                                        gy,
                                    );
                                } else if in_grid(
                                    frame.width_chars,
                                    frame.height_chars,
                                    atlas@,
                                    px,
                                    py,
                                ) {
                                    lemma_other_cell(
                                        frame.width_chars,
                                        frame.height_chars,
                                        atlas@,
                                        col as int,
                                        row as int,
                                        px,
                                        py,
                                    );
                                }
                            }
                        }
                        drawn = true;
                    },
                    None => {},
                }
            }
            proof {
                if !drawn {
                    assert forall|px: int, py: int, channel: int|
                        0 <= px < pw && 0 <= py < ph && 0 <= channel
                            < 3 implies buffer@[#[trigger] pixel_offset(pw as int, px, py, channel)]
                        == partial_pixel(*frame, atlas@, use_colors, cell + 1, px, py, channel) by {
                        if in_grid(frame.width_chars, frame.height_chars, atlas@, px, py) {
                            lemma_pixel_cell(
                                frame.width_chars,
                                frame.height_chars,
                                atlas@,
                                px,
                                py,
                            );
                        }
                    }
                }
            }
            cell += 1;
        }
        i += 1;
    }
    proof {
        lemma_cells_of_prefix(text, i as int);
        let rendered = rendered_frame(*frame, atlas@, use_colors);
        assert(buffer@.len() == rendered.len());
        assert forall|k: int| 0 <= k < buffer@.len() implies buffer@[k] == rendered[k] by {
            if pw > 0 {
                lemma_pixel_offset_covers(pw as int, ph as int, k);
                let px = (k / 3) % (pw as int);
                let py = (k / 3) / (pw as int);
                let channel = k % 3;
                assert(buffer@[pixel_offset(pw as int, px, py, channel)] == partial_pixel(
                    *frame,
                    atlas@,
                    use_colors,
                    cell as int,
                    px,
                    py,
                    channel,
                ));
                if in_grid(frame.width_chars, frame.height_chars, atlas@, px, py) {
                    lemma_pixel_cell(frame.width_chars, frame.height_chars, atlas@, px, py);
                    if i < text.len() {
                        assert(cell >= cell_limit);
                    } else {
                        assert(text.take(i as int) =~= text);
                    }
                }
            } else {
                assert(pw * ph == 0) by (nonlinear_arith)
                    requires
                        pw == 0,
                ;
            }
        }
        assert(buffer@ =~= rendered);
    }
    buffer
}

/// A pixel in the rectangle of the cell in column `col` of row `row`
/// belongs to that cell, at the place where it lies in the rectangle.
pub proof fn lemma_cell_rectangle(
    width_chars: u32,
    height_chars: u32,
    atlas: AtlasView,
    col: int,
    row: int,
    gx: int,
    gy: int,
)
    requires
        0 <= col < width_chars,
        0 <= row < height_chars,
        0 <= gx < atlas.cell_width,
        0 <= gy < atlas.cell_height,
    ensures
        in_grid(
            width_chars,
            height_chars,
            atlas,
            col * atlas.cell_width + gx,
            row * atlas.cell_height + gy,
        ),
        cell_index(
            width_chars,
            atlas,
            col * atlas.cell_width + gx,
            row * atlas.cell_height + gy,
        ) == row * width_chars + col,
        (col * atlas.cell_width + gx) % atlas.cell_width as int == gx,
        (row * atlas.cell_height + gy) % atlas.cell_height as int == gy,
{
    let cw = atlas.cell_width as int;
    let ch = atlas.cell_height as int;
    lemma_position_splits(gx, col, cw);
    lemma_position_splits(gy, row, ch);
    lemma_position_bound(gx, col, cw, width_chars as int);
    lemma_position_bound(gy, row, ch, height_chars as int);
    assert(cw * width_chars == width_chars * cw && ch * height_chars == height_chars * ch)
        by (nonlinear_arith);
}

/// A pixel of the covered part outside the rectangle of a cell belongs to
/// another cell.
pub proof fn lemma_other_cell(
    width_chars: u32,
    height_chars: u32,
    atlas: AtlasView,
    col: int,
    row: int,
    px: int,
    py: int,
)
    requires
        0 <= col < width_chars,
        0 <= row < height_chars,
        in_grid(width_chars, height_chars, atlas, px, py),
        !(0 <= px - col * atlas.cell_width < atlas.cell_width && 0 <= py - row * atlas.cell_height
            < atlas.cell_height),
    ensures
        cell_index(width_chars, atlas, px, py) != row * width_chars + col,
{
    let cw = atlas.cell_width as int;
    let ch = atlas.cell_height as int;
    lemma_pixel_cell(width_chars, height_chars, atlas, px, py);
    if cell_index(width_chars, atlas, px, py) == row * width_chars + col {
        lemma_position_unique(px / cw, py / ch, col, row, width_chars as int);
        lemma_position_joins(px, cw);
        lemma_position_joins(py, ch);
    }
}

} // verus!
