//! Text frames: rows of characters, one row on each line.

use vstd::prelude::*;
use crate::error::{ConvertError, GridFault};
use crate::frame::{
    cells_of, lemma_cells_of_concat, lemma_cells_of_newline_free, lemma_cells_of_push,
    newline_free, AsciiFrameData, NEWLINE,
};

verus! {

/// The byte that may stand before the newline at the end of a line.
pub const CARRIAGE_RETURN: u8 = 13;

/// The place of the first newline of a text, or the length of the text
/// where it holds none.
pub open spec fn first_newline(s: Seq<u8>) -> int
    decreases s.len(),
{
    if s.len() == 0 || s[0] == NEWLINE {
        0
    } else {
        1 + first_newline(s.drop_first())
    }
}

/// A line without the carriage return at its end, if it has one.
pub open spec fn without_return(line: Seq<u8>) -> Seq<u8> {
    if line.len() > 0 && line.last() == CARRIAGE_RETURN {
        line.drop_last()
    } else {
        line
    }
}

/// The lines of a text. A line ends with a newline, or with a carriage
/// return and a newline, neither of which belongs to the line; the last
/// line may lack its end, and then keeps a carriage return if it has one.
pub open spec fn text_lines(s: Seq<u8>) -> Seq<Seq<u8>>
    decreases s.len(),
{
    if s.len() == 0 {
        Seq::empty()
    } else {
        let n = first_newline(s);
        if n < 0 || n >= s.len() {
            seq![s]
        } else {
            seq![without_return(s.take(n))] + text_lines(s.skip(n + 1))
        }
    }
}

/// The text that holds these lines, each followed by a newline.
pub open spec fn lines_text(lines: Seq<Seq<u8>>) -> Seq<u8>
    decreases lines.len(),
{
    if lines.len() == 0 {
        Seq::empty()
    } else {
        lines_text(lines.drop_last()) + lines.last().push(NEWLINE)
    }
}

/// The contents of a list of lines.
pub open spec fn line_views(lines: Seq<Vec<u8>>) -> Seq<Seq<u8>> {
    Seq::new(lines.len(), |i: int| lines[i]@)
}

/// The first newline of a text stands where no newline comes before.
pub proof fn lemma_first_newline(s: Seq<u8>, n: int)
    requires
        0 <= n <= s.len(),
        forall|k: int| 0 <= k < n ==> s[k] != NEWLINE,
        n == s.len() || s[n] == NEWLINE,
    ensures
        first_newline(s) == n,
    decreases n,
{
    if n > 0 {
        let rest = s.drop_first();
        assert forall|k: int| 0 <= k < n - 1 implies rest[k] != NEWLINE by {
            assert(rest[k] == s[k + 1]);
        }
        lemma_first_newline(rest, n - 1);
    }
}

/// No line holds a newline.
pub proof fn lemma_lines_newline_free(s: Seq<u8>)
    ensures
        forall|i: int| 0 <= i < text_lines(s).len() ==> newline_free(#[trigger] text_lines(s)[i]),
    decreases s.len(),
{
    if s.len() > 0 {
        let n = first_newline(s);
        lemma_first_newline_properties(s);
        if n < s.len() {
            lemma_lines_newline_free(s.skip(n + 1));
            let head = without_return(s.take(n));
            assert(newline_free(head));
            assert forall|i: int| 0 <= i < text_lines(s).len() implies newline_free(
                #[trigger] text_lines(s)[i],
            ) by {
                if i > 0 {
                    assert(text_lines(s)[i] == text_lines(s.skip(n + 1))[i - 1]);
                }
            }
        }
    }
}

/// The first newline lies inside the text or at its end, and nothing
/// before it is a newline.
pub proof fn lemma_first_newline_properties(s: Seq<u8>)
    ensures
        0 <= first_newline(s) <= s.len(),
        forall|k: int| 0 <= k < first_newline(s) ==> s[k] != NEWLINE,
        first_newline(s) < s.len() ==> s[first_newline(s)] == NEWLINE,
    decreases s.len(),
{
    if s.len() > 0 && s[0] != NEWLINE {
        let rest = s.drop_first();
        lemma_first_newline_properties(rest);
        assert forall|k: int| 0 <= k < first_newline(s) implies s[k] != NEWLINE by {
            if k > 0 {
                assert(s[k] == rest[k - 1]);
            }
        }
    }
}

/// Splits a text into its lines.
pub fn split_lines(content: &[u8]) -> (lines: Vec<Vec<u8>>)
    ensures
        line_views(lines@) == text_lines(content@),
{
    let mut lines: Vec<Vec<u8>> = Vec::new();
    let mut start: usize = 0;
    proof {
        assert(content@.skip(0) =~= content@);
        assert(line_views(lines@) + text_lines(content@.skip(0)) =~= text_lines(content@));
    }
    while start < content.len()
        invariant
            start <= content@.len(),
            line_views(lines@) + text_lines(content@.skip(start as int)) == text_lines(content@),
        decreases content@.len() - start,
    {
        let ghost rest = content@.skip(start as int);
        let mut end: usize = start;
        let mut line: Vec<u8> = Vec::new();
        while end < content.len() && content[end] != NEWLINE
            invariant
                start <= end <= content@.len(),
                forall|k: int| start <= k < end ==> content@[k] != NEWLINE,
                line@ == content@.subrange(start as int, end as int),
            decreases content@.len() - end,
        {
            line.push(content[end]);
            proof {
                assert(line@ =~= content@.subrange(start as int, end + 1));
            }
            end += 1;
        }
        proof {
            assert forall|k: int| 0 <= k < end - start implies rest[k] != NEWLINE by {
                assert(rest[k] == content@[start + k]);
            }
            lemma_first_newline(rest, end - start);
            assert(rest.take(end - start) =~= line@);
        }
        let ghost before = lines@;
        if end < content.len() {
            let n = line.len();
            if n > 0 && line[n - 1] == CARRIAGE_RETURN {
                line.pop();
                proof {
                    assert(line@ =~= without_return(rest.take(end - start)));
                }
            }
            let ghost pushed = line@;
            lines.push(line);
            proof {
                assert(rest.skip(end - start + 1) =~= content@.skip(end + 1));
                assert(line_views(lines@) =~= line_views(before) + seq![pushed]);
                assert(line_views(lines@) + text_lines(content@.skip(end + 1)) =~= line_views(
                    before,
                ) + text_lines(rest));
            }
            start = end + 1;
        } else {
            let ghost pushed = line@;
            lines.push(line);
            proof {
                assert(rest =~= pushed);
                assert(content@.skip(end as int) =~= Seq::<u8>::empty());
                assert(line_views(lines@) =~= line_views(before) + seq![pushed]);
                assert(line_views(lines@) + text_lines(content@.skip(end as int)) =~= line_views(
                    before,
                ) + text_lines(rest));
            }
            start = end;
        }
    }
    proof {
        assert(content@.skip(start as int) =~= Seq::<u8>::empty());
        assert(line_views(lines@) + text_lines(content@.skip(start as int)) =~= line_views(
            lines@,
        ));
    }
    lines
}

/// Whether all lines are as long as the first one.
pub open spec fn is_rectangular(lines: Seq<Seq<u8>>) -> bool {
    forall|i: int| 0 <= i < lines.len() ==> (#[trigger] lines[i]).len() == lines[0].len()
}

/// The first line from place `from` on that is not as long as the first
/// line of all, or the number of lines where there is none.
pub open spec fn first_ragged(lines: Seq<Seq<u8>>, from: int) -> int
    decreases lines.len() - from,
{
    if from < 0 || from >= lines.len() {
        lines.len() as int
    } else if lines[from].len() != lines[0].len() {
        from
    } else {
        first_ragged(lines, from + 1)
    }
}

/// The fault of a text frame, if it has one: no line, a line of another
/// length than the first, or more rows or columns than 32 bits count.
pub open spec fn grid_fault(lines: Seq<Seq<u8>>) -> Option<GridFault> {
    if lines.len() == 0 {
        Some(GridFault::Empty)
    } else if first_ragged(lines, 0) < lines.len() {
        Some(
            GridFault::Ragged {
                line: first_ragged(lines, 0) as usize,
                expected: lines[0].len() as usize,
                found: lines[first_ragged(lines, 0)].len() as usize,
            },
        )
    } else if lines.len() > u32::MAX || lines[0].len() > u32::MAX {
        Some(GridFault::TooLarge { rows: lines.len() as usize, columns: lines[0].len() as usize })
    } else {
        None
    }
}

/// Where no line is ragged, all lines are as long as the first.
pub proof fn lemma_first_ragged(lines: Seq<Seq<u8>>, from: int)
    requires
        0 <= from <= lines.len(),
    ensures
        from <= first_ragged(lines, from) <= lines.len(),
        forall|i: int|
            from <= i < first_ragged(lines, from) ==> (#[trigger] lines[i]).len()
                == lines[0].len(),
        first_ragged(lines, from) < lines.len() ==> lines[first_ragged(lines, from)].len()
            != lines[0].len(),
    decreases lines.len() - from,
{
    if from < lines.len() && lines[from].len() == lines[0].len() {
        lemma_first_ragged(lines, from + 1);
    }
}

/// The cells of the text of newline-free lines of one length: as many as
/// the lines have characters together.
pub proof fn lemma_lines_text_cells(lines: Seq<Seq<u8>>, width: nat)
    requires
        forall|i: int| 0 <= i < lines.len() ==> newline_free(#[trigger] lines[i]),
        forall|i: int| 0 <= i < lines.len() ==> (#[trigger] lines[i]).len() == width,
    ensures
        cells_of(lines_text(lines)).len() == width * lines.len(),
    decreases lines.len(),
{
    if lines.len() == 0 {
        assert(width * lines.len() == 0) by (nonlinear_arith)
            requires
                lines.len() == 0,
        ;
    } else {
        let above = lines.drop_last();
        assert forall|i: int| 0 <= i < above.len() implies newline_free(#[trigger] above[i]) by {
            assert(above[i] == lines[i]);
        }
        assert forall|i: int| 0 <= i < above.len() implies (#[trigger] above[i]).len()
            == width by {
            assert(above[i] == lines[i]);
        }
        lemma_lines_text_cells(above, width);
        lemma_cells_of_concat(lines_text(above), lines.last().push(NEWLINE));
        lemma_cells_of_push(lines.last(), NEWLINE);
        lemma_cells_of_newline_free(lines.last());
        assert(width * above.len() + width == width * lines.len()) by (nonlinear_arith)
            requires
                above.len() + 1 == lines.len(),
        ;
    }
}

/// Reads a text frame.
///
/// The width of the grid is the length of the first line, its height the
/// number of lines. A text without a line, or with a line of another
/// length than the first, is refused. The frame has no colors, and its
/// text holds the lines, each followed by a newline.
pub fn read_txt_to_frame_data(content: &[u8]) -> (r: Result<AsciiFrameData, ConvertError>)
    ensures
        r is Ok <==> grid_fault(text_lines(content@)) is None,
        r matches Err(e) ==> grid_fault(text_lines(content@)) matches Some(fault) && e
            == ConvertError::MalformedGrid(fault),
        r matches Ok(frame) ==> {
            &&& frame.width_chars == text_lines(content@)[0].len()
            &&& frame.height_chars == text_lines(content@).len()
            &&& frame.ascii_text@ == lines_text(text_lines(content@))
            &&& frame.rgb_colors@.len() == 0
            &&& frame.wf()
        },
{
    let lines = split_lines(content);
    let ghost views = text_lines(content@);
    if lines.len() == 0 {
        return Err(ConvertError::MalformedGrid(GridFault::Empty));
    }
    assert(views[0] == lines@[0]@);
    let width = lines[0].len();
    let mut ascii_text: Vec<u8> = Vec::new();
    let mut row: usize = 0;
    while row < lines.len()
        invariant
            row <= lines@.len(),
            lines@.len() > 0,
            views == line_views(lines@),
            views == text_lines(content@),
            width == views[0].len(),
            first_ragged(views, 0) == first_ragged(views, row as int),
            ascii_text@ == lines_text(views.take(row as int)),
        decreases lines@.len() - row,
    {
        assert(views[row as int] == lines@[row as int]@);
        let line = &lines[row];
        if line.len() != width {
            proof {
                assert(first_ragged(views, row as int) == row);
            }
            return Err(
                ConvertError::MalformedGrid(
                    GridFault::Ragged { line: row, expected: width, found: line.len() },
                ),
            );
        }
        let ghost above = ascii_text@;
        let mut col: usize = 0;
        while col < width
            invariant
                col <= width,
                width == line@.len(),
                ascii_text@ == above + line@.take(col as int),
            decreases width - col,
        {
            ascii_text.push(line[col]);
            proof {
                assert(ascii_text@ =~= above + line@.take(col + 1));
            }
            col += 1;
        }
        ascii_text.push(NEWLINE);
        proof {
            assert(line@.take(width as int) =~= line@);
            assert(views.take(row + 1).drop_last() =~= views.take(row as int));
            assert(views.take(row + 1).last() == line@);
            assert(ascii_text@ =~= lines_text(views.take(row + 1)));
        }
        row += 1;
    }
    proof {
        assert(views.take(row as int) =~= views);
        lemma_first_ragged(views, 0);
    }
    if lines.len() > 0xffff_ffff || width > 0xffff_ffff {
        return Err(
            ConvertError::MalformedGrid(GridFault::TooLarge { rows: lines.len(), columns: width }),
        );
    }
    proof {
        lemma_lines_newline_free(content@);
        lemma_lines_text_cells(views, width as nat);
    }
    Ok(
        AsciiFrameData {
            ascii_text,
            width_chars: width as u32,
            height_chars: lines.len() as u32,
            rgb_colors: Vec::new(),
        },
    )
}

} // verus!
