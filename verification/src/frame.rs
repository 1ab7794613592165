//! The in-memory form of one converted frame: a grid of characters with an
//! optional color for every cell.

use vstd::prelude::*;

verus! {

/// The byte that ends a row in a frame's text.
pub const NEWLINE: u8 = 10;

/// One converted frame.
///
/// `ascii_text` holds the characters row by row; a newline may follow each
/// row and carries no cell. `rgb_colors` is either empty, which means that
/// every cell is white, or holds three bytes for each cell, in the order of
/// the cells.
#[derive(Debug, Clone, PartialEq, Eq)]
pub struct AsciiFrameData {
    pub ascii_text: Vec<u8>,
    pub width_chars: u32,
    pub height_chars: u32,
    pub rgb_colors: Vec<u8>,
}

/// The cells of a text: its bytes without the newlines.
pub open spec fn cells_of(text: Seq<u8>) -> Seq<u8>
    decreases text.len(),
{
    if text.len() == 0 {
        Seq::empty()
    } else if text.last() == NEWLINE {
        cells_of(text.drop_last())
    } else {
        cells_of(text.drop_last()).push(text.last())
    }
}

/// The text that holds the first `height` rows of `cells`, each `width`
/// cells long and followed by a newline.
pub open spec fn grid_text(cells: Seq<u8>, width: nat, height: nat) -> Seq<u8>
    decreases height,
{
    if height == 0 {
        Seq::empty()
    } else {
        grid_text(cells, width, (height - 1) as nat) + cells.subrange(
            (height - 1) * width as int,
            height * width as int,
        ).push(NEWLINE)
    }
}

/// Whether no byte of `cells` is a newline.
pub open spec fn newline_free(cells: Seq<u8>) -> bool {
    forall|i: int| 0 <= i < cells.len() ==> cells[i] != NEWLINE
}

impl AsciiFrameData {
    /// The cells of this frame, row by row.
    pub open spec fn cells(&self) -> Seq<u8> {
        cells_of(self.ascii_text@)
    }

    /// The number of cells that the dimensions announce.
    pub open spec fn cell_count(&self) -> int {
        self.width_chars * self.height_chars
    }

    /// The text holds exactly one cell for every position of the grid.
    pub open spec fn text_matches(&self) -> bool {
        self.cells().len() == self.cell_count()
    }

    /// The colors are absent, or there are three bytes for every position.
    pub open spec fn colors_match(&self) -> bool {
        self.rgb_colors@.len() == 0 || self.rgb_colors@.len() == 3 * self.cell_count()
    }

    /// Text and colors both agree with the dimensions.
    pub open spec fn wf(&self) -> bool {
        self.text_matches() && self.colors_match()
    }

    /// Whether every cell has a color of its own.
    pub open spec fn has_colors(&self) -> bool {
        self.rgb_colors@.len() > 0
    }
}

/// Appending one byte to a text appends it to the cells, unless it is a
/// newline.
pub proof fn lemma_cells_of_push(text: Seq<u8>, byte: u8)
    ensures
        cells_of(text.push(byte)) == if byte == NEWLINE {
            cells_of(text)
        } else {
            cells_of(text).push(byte)
        },
{
    assert(text.push(byte).drop_last() =~= text);
}

/// The cells of two texts in a row are the cells of the first followed by
/// those of the second.
pub proof fn lemma_cells_of_concat(a: Seq<u8>, b: Seq<u8>)
    ensures
        cells_of(a + b) == cells_of(a) + cells_of(b),
    decreases b.len(),
{
    if b.len() == 0 {
        assert(a + b =~= a);
        assert(cells_of(a) + cells_of(b) =~= cells_of(a));
    } else {
        lemma_cells_of_concat(a, b.drop_last());
        assert((a + b).drop_last() =~= a + b.drop_last());
        assert((a + b).last() == b.last());
        if b.last() != NEWLINE {
            assert((cells_of(a) + cells_of(b.drop_last())).push(b.last()) =~= cells_of(a)
                + cells_of(b.drop_last()).push(b.last()));
        }
    }
}

/// No cell is a newline, and there are never more cells than bytes.
pub proof fn lemma_cells_of_properties(text: Seq<u8>)
    ensures
        newline_free(cells_of(text)),
        cells_of(text).len() <= text.len(),
    decreases text.len(),
{
    if text.len() > 0 {
        lemma_cells_of_properties(text.drop_last());
    }
}

/// The cells of a prefix of a text are a prefix of the cells of the text.
pub proof fn lemma_cells_of_prefix(text: Seq<u8>, n: int)
    requires
        0 <= n <= text.len(),
    ensures
        cells_of(text.take(n)).len() <= cells_of(text).len(),
        cells_of(text.take(n)) == cells_of(text).take(cells_of(text.take(n)).len() as int),
    decreases text.len() - n,
{
    if n < text.len() {
        assert(text.take(n + 1) =~= text.take(n).push(text[n]));
        lemma_cells_of_push(text.take(n), text[n]);
        lemma_cells_of_prefix(text, n + 1);
        let longer = cells_of(text.take(n + 1));
        assert(cells_of(text.take(n)) =~= cells_of(text).take(
            cells_of(text.take(n)).len() as int,
        ));
    } else {
        assert(text.take(n) =~= text);
        assert(cells_of(text) =~= cells_of(text).take(cells_of(text).len() as int));
    }
}

/// A run of bytes without a newline is its own run of cells.
pub proof fn lemma_cells_of_newline_free(cells: Seq<u8>)
    requires
        newline_free(cells),
    ensures
        cells_of(cells) == cells,
    decreases cells.len(),
{
    if cells.len() > 0 {
        lemma_cells_of_newline_free(cells.drop_last());
        assert(cells.drop_last().push(cells.last()) =~= cells);
    } else {
        assert(cells =~= Seq::<u8>::empty());
    }
}

/// The length of a grid's text: one byte for each cell and one newline for
/// each row.
pub proof fn lemma_grid_text_len(cells: Seq<u8>, width: nat, height: nat)
    requires
        cells.len() >= width * height,
    ensures
        grid_text(cells, width, height).len() == (width + 1) * height,
    decreases height,
{
    if height == 0 {
        assert((width + 1) * height == 0) by (nonlinear_arith)
            requires
                height == 0,
        ;
    } else {
        let above = (height - 1) as nat;
        assert(above * width + width == height * width && width * above + width == width
            * height && 0 <= above * width) by (nonlinear_arith)
            requires
                above + 1 == height,
        ;
        assert((width + 1) * above + width + 1 == (width + 1) * height) by (nonlinear_arith)
            requires
                above + 1 == height,
        ;
        lemma_grid_text_len(cells, width, above);
        let row = cells.subrange(above * width as int, height * width as int);
        assert(row.len() == width);
        assert(grid_text(cells, width, height) == grid_text(cells, width, above) + row.push(
            NEWLINE,
        ));
    }
}

/// Laying cells out in rows and taking the cells of that text gives the
/// cells back: the row newlines are all that the layout adds.
pub proof fn lemma_cells_of_grid_text(cells: Seq<u8>, width: nat, height: nat)
    requires
        cells.len() >= width * height,
        newline_free(cells),
    ensures
        cells_of(grid_text(cells, width, height)) == cells.take((width * height) as int),
    decreases height,
{
    if height == 0 {
        assert(width * height == 0) by (nonlinear_arith)
            requires
                height == 0,
        ;
        assert(cells.take(0) =~= Seq::<u8>::empty());
    } else {
        let above = (height - 1) as nat;
        assert(width * above + width == width * height) by (nonlinear_arith)
            requires
                above + 1 == height,
        ;
        assert(0 <= width * above) by (nonlinear_arith);
        lemma_cells_of_grid_text(cells, width, above);
        let row = cells.subrange((above * width) as int, (height * width) as int);
        assert(above * width == width * above) by (nonlinear_arith);
        assert(height * width == width * height) by (nonlinear_arith);
        lemma_cells_of_concat(grid_text(cells, width, above), row.push(NEWLINE));
        lemma_cells_of_push(row, NEWLINE);
        lemma_cells_of_newline_free(row);
        assert(cells.take((width * above) as int) + row =~= cells.take((width * height) as int));
    }
}

/// Counts the cells of a text.
pub fn count_cells(text: &[u8]) -> (n: usize)
    ensures
        n == cells_of(text@).len(),
{
    let mut n: usize = 0;
    let mut i: usize = 0;
    while i < text.len()
        invariant
            i <= text@.len(),
            n == cells_of(text@.take(i as int)).len(),
            n <= i,
        decreases text@.len() - i,
    {
        proof {
            assert(text@.take(i as int + 1) =~= text@.take(i as int).push(text@[i as int]));
            lemma_cells_of_push(text@.take(i as int), text@[i as int]);
        }
        if text[i] != NEWLINE {
            n += 1;
        }
        i += 1;
    }
    proof {
        assert(text@.take(text@.len() as int) =~= text@);
    }
    n
}

} // verus!
