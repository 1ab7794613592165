//! The glyph atlas: one bitmap of coverage levels for each printable ASCII
//! byte, all of one cell size.
//!
//! Coverage is held in 255 steps: level 0 leaves a pixel untouched, level
//! 255 gives it the full color of its cell.

use std::collections::HashMap;
use vstd::prelude::*;
use crate::layout::{lemma_position_joins, lemma_position_row, lemma_position_splits};

verus! {

/// The first byte that has a glyph.
pub const FIRST_GLYPH: u8 = 32;

/// The last byte that has a glyph.
pub const LAST_GLYPH: u8 = 126;

/// How strongly an outline covers one pixel of its cell.
#[derive(Debug, Clone, Copy, PartialEq, Eq)]
pub struct CoverageSample {
    /// The pixel's column in the cell.
    pub x: u32,
    /// The pixel's row in the cell.
    pub y: u32,
    /// The coverage, from 0 (none) to 255 (full).
    pub level: u8,
}

/// The bitmap of one glyph: a coverage level for each pixel of the cell,
/// row by row.
#[derive(Debug, Clone, PartialEq, Eq)]
pub struct GlyphBitmap {
    pub alpha: Vec<u8>,
}

/// The bitmaps of all printable ASCII bytes at one cell size.
pub struct GlyphAtlas {
    glyphs: HashMap<u8, GlyphBitmap>,
    cell_width: u32,
    cell_height: u32,
}

/// What an atlas holds.
pub struct AtlasView {
    pub cell_width: nat,
    pub cell_height: nat,
    pub glyphs: Map<u8, Seq<u8>>,
}

/// Whether a byte has a glyph.
pub open spec fn is_printable(byte: u8) -> bool {
    FIRST_GLYPH <= byte <= LAST_GLYPH
}

impl AtlasView {
    /// Exactly the printable bytes have a bitmap, and each bitmap has one
    /// level for each pixel of the cell.
    pub open spec fn wf(self) -> bool {
        &&& forall|byte: u8| self.glyphs.contains_key(byte) <==> is_printable(byte)
        &&& forall|byte: u8| #[trigger]
            self.glyphs.contains_key(byte) ==> self.glyphs[byte].len() == self.cell_width
                * self.cell_height
    }
}

/// The coverage that a run of samples leaves at a pixel: the level of the
/// last sample for that pixel, or none where no sample names it.
pub open spec fn coverage_at(samples: Seq<CoverageSample>, x: int, y: int) -> u8
    decreases samples.len(),
{
    if samples.len() == 0 {
        0
    } else if samples.last().x == x && samples.last().y == y {
        samples.last().level
    } else {
        coverage_at(samples.drop_last(), x, y)
    }
}

/// The bitmap that a run of samples leaves in a cell. Samples outside the
/// cell name none of its pixels, so they are dropped.
pub open spec fn rasterized(
    cell_width: nat,
    cell_height: nat,
    samples: Seq<CoverageSample>,
) -> Seq<u8> {
    Seq::new(
        cell_width * cell_height,
        |i: int| coverage_at(samples, i % cell_width as int, i / cell_width as int),
    )
}

/// The samples given for a byte: those at its place in `outlines`, or none
/// where `outlines` is too short to have that place.
pub open spec fn outline_for(outlines: Seq<Vec<CoverageSample>>, byte: u8) -> Seq<CoverageSample> {
    if byte - FIRST_GLYPH < outlines.len() {
        outlines[byte - FIRST_GLYPH]@
    } else {
        Seq::empty()
    }
}

impl View for GlyphAtlas {
    type V = AtlasView;

    closed spec fn view(&self) -> AtlasView {
        AtlasView {
            cell_width: self.cell_width as nat,
            cell_height: self.cell_height as nat,
            glyphs: Map::new(
                |byte: u8| self.glyphs@.contains_key(byte),
                |byte: u8| self.glyphs@[byte].alpha@,
            ),
        }
    }
}

impl GlyphAtlas {
    #[verifier::type_invariant]
    spec fn inv(self) -> bool {
        self@.wf()
    }

    /// The width of a cell in pixels.
    pub fn cell_width(&self) -> (w: u32)
        ensures
            w == self@.cell_width,
            self@.wf(),
    {
        proof {
            use_type_invariant(self);
        }
        self.cell_width
    }

    /// The height of a cell in pixels.
    pub fn cell_height(&self) -> (h: u32)
        ensures
            h == self@.cell_height,
            self@.wf(),
    {
        proof {
            use_type_invariant(self);
        }
        self.cell_height
    }

    /// The bitmap of a byte, if it has one.
    pub fn glyph(&self, byte: u8) -> (g: Option<&GlyphBitmap>)
        ensures
            self@.wf(),
            g is Some <==> is_printable(byte),
            g matches Some(bitmap) ==> bitmap.alpha@ == self@.glyphs[byte],
    {
        broadcast use vstd::std_specs::hash::group_hash_axioms;

        proof {
            use_type_invariant(self);
        }
        let g = self.glyphs.get(&byte);
        proof {
            assert(self@.glyphs.contains_key(byte) <==> self.glyphs@.contains_key(byte));
        }
        g
    }
}

/// Turns a run of coverage samples into the bitmap of one glyph.
pub fn rasterize_glyph(
    cell_width: u32,
    cell_height: u32,
    samples: &[CoverageSample],
) -> (bitmap: GlyphBitmap)
    requires
        cell_width * cell_height <= usize::MAX,
    ensures
        bitmap.alpha@ == rasterized(cell_width as nat, cell_height as nat, samples@),
{
    let cw = cell_width as usize;
    let ch = cell_height as usize;
    let mut alpha: Vec<u8> = vec![0u8; cw * ch];
    let mut k: usize = 0;
    while k < samples.len()
        invariant
            k <= samples@.len(),
            cw == cell_width,
            ch == cell_height,
            cw * ch <= usize::MAX,
            alpha@.len() == cw * ch,
            forall|i: int|
                0 <= i < cw * ch ==> alpha@[i] == coverage_at(
                    samples@.take(k as int),
                    i % cw as int,
                    i / cw as int,
                ),
        decreases samples@.len() - k,
    {
        let sample = samples[k];
        let ghost before = samples@.take(k as int);
        let ghost after = samples@.take(k as int + 1);
        proof {
            assert(after.drop_last() =~= before);
            assert(after.last() == sample);
        }
        if sample.x < cell_width && sample.y < cell_height {
            proof {
                lemma_position_splits(sample.x as int, sample.y as int, cw as int);
                assert(sample.y * cw + sample.x < cw * ch) by (nonlinear_arith)
                    requires
                        sample.x < cw,
                        sample.y < ch,
                ;
            }
            let at: usize = (sample.y as usize) * cw + (sample.x as usize);
            let ghost old_alpha = alpha@;
            alpha.set(at, sample.level);
            proof {
                assert forall|i: int| 0 <= i < cw * ch implies alpha@[i] == coverage_at(
                    after,
                    i % cw as int,
                    i / cw as int,
                ) by {
                    lemma_position_joins(i, cw as int);
                    if i != at {
                        assert(alpha@[i] == old_alpha[i]);
                    }
                }
            }
        } else {
            proof {
                assert forall|i: int| 0 <= i < cw * ch implies alpha@[i] == coverage_at(
                    after,
                    i % cw as int,
                    i / cw as int,
                ) by {
                    lemma_position_row(i, cw as int, ch as int);
                }
            }
        }
        k += 1;
    }
    proof {
        assert(samples@.take(samples@.len() as int) =~= samples@);
        assert(alpha@ =~= rasterized(cell_width as nat, cell_height as nat, samples@));
    }
    GlyphBitmap { alpha }
}

/// Builds the atlas for one cell size.
///
/// `outlines` holds the coverage samples of the printable bytes in their
/// order, those of the space first. A byte whose place is empty or missing
/// gets a bitmap without coverage; places after the last printable byte
/// are not read.
pub fn build_glyph_atlas(
    cell_width: u32,
    cell_height: u32,
    outlines: &[Vec<CoverageSample>],
) -> (atlas: GlyphAtlas)
    requires
        cell_width * cell_height <= usize::MAX,
    ensures
        atlas@.wf(),
        atlas@.cell_width == cell_width,
        atlas@.cell_height == cell_height,
        forall|byte: u8|
            is_printable(byte) ==> #[trigger] atlas@.glyphs[byte] == rasterized(
                cell_width as nat,
                cell_height as nat,
                outline_for(outlines@, byte),
            ),
{
    broadcast use vstd::std_specs::hash::group_hash_axioms;

    let mut glyphs: HashMap<u8, GlyphBitmap> = HashMap::new();
    let mut byte: u8 = FIRST_GLYPH;
    while byte <= LAST_GLYPH
        invariant
            FIRST_GLYPH <= byte <= LAST_GLYPH + 1,
            cell_width * cell_height <= usize::MAX,
            forall|b: u8| glyphs@.contains_key(b) <==> FIRST_GLYPH <= b < byte,
            forall|b: u8|
                FIRST_GLYPH <= b < byte ==> (#[trigger] glyphs@[b]).alpha@ == rasterized(
                    cell_width as nat,
                    cell_height as nat,
                    outline_for(outlines@, b),
                ),
        decreases LAST_GLYPH + 1 - byte,
    {
        let place = (byte - FIRST_GLYPH) as usize;
        let bitmap = if place < outlines.len() {
            rasterize_glyph(cell_width, cell_height, outlines[place].as_slice())
        } else {
            let none: Vec<CoverageSample> = Vec::new();
            rasterize_glyph(cell_width, cell_height, none.as_slice())
        };
        glyphs.insert(byte, bitmap);
        byte += 1;
    }
    let atlas = GlyphAtlas { glyphs, cell_width, cell_height };
    proof {
        assert forall|b: u8| is_printable(b) implies #[trigger] atlas@.glyphs[b] == rasterized(
            cell_width as nat,
            cell_height as nat,
            outline_for(outlines@, b),
        ) by {
            assert(atlas.glyphs@.contains_key(b));
        }
    }
    atlas
}

} // verus!
