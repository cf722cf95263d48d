//! The glyphs that stand for counter values, and the framed text block that
//! shows a whole grid.

use vstd::prelude::*;

use crate::model::GridModel;

verus! {

/// The glyphs for the counter values from -10 to 10, lowest first. An
/// untouched cell is a space; a cell counted down once is `[`, twice `&`,
/// and a cell counted up once is a dot.
pub open spec fn palette() -> Seq<char> {
    seq![
        ']', '`', '~', '%', '$', '^', '/', '#', '&', '[', ' ', '.', 'o', '+', '=', '*', 'B', 'O',
        'X', '@', '\\',
    ]
}

/// The glyph that stands for every counter value below -10.
pub open spec fn underflow_glyph() -> char {
    'U'
}

/// The glyph that stands for every counter value above 10.
pub open spec fn overflow_glyph() -> char {
    'H'
}

/// The glyph of a counter value: the palette entry at `v + 10`, or one of
/// the two sentinels where that index falls off the palette.
pub open spec fn glyph(v: int) -> char {
    let index = v + 10;
    if index < 0 {
        underflow_glyph()
    } else if index >= palette().len() {
        overflow_glyph()
    } else {
        palette()[index]
    }
}

/// Every glyph in use, from the one for the lowest counters to the one for
/// the highest.
pub open spec fn scale() -> Seq<char> {
    seq![underflow_glyph()] + palette() + seq![overflow_glyph()]
}

/// The place on the scale of the glyph of a counter value.
pub open spec fn rank(v: int) -> int {
    if v < -10 {
        0
    } else if v > 10 {
        22
    } else {
        v + 11
    }
}

/// Every counter value has a glyph, the glyph on the scale at the rank of
/// the value. Zero is shown as a space, -1 as `[`, -2 as `&`, 1 as a dot,
/// -10 as `]`, 10 as a backslash, and all that lies beyond as the
/// sentinels.
pub proof fn lemma_glyph_total(v: int)
    ensures
        0 <= rank(v) < scale().len(),
        glyph(v) == scale()[rank(v)],
        v == 0 ==> glyph(v) == ' ',
        v == -1 ==> glyph(v) == '[',
        v == -2 ==> glyph(v) == '&',
        v == 1 ==> glyph(v) == '.',
        v == -10 ==> glyph(v) == ']',
        v == 10 ==> glyph(v) == '\\',
        v < -10 ==> glyph(v) == underflow_glyph(),
        v > 10 ==> glyph(v) == overflow_glyph(),
{
}

/// A larger counter value never has a glyph further down the scale.
pub proof fn lemma_glyph_monotonic(v: int, w: int)
    requires
        v <= w,
    ensures
        rank(v) <= rank(w),
{
}

/// No glyph occurs twice on the scale, so a glyph tells its rank.
pub proof fn lemma_scale_distinct(i: int, j: int)
    requires
        0 <= i < scale().len(),
        0 <= j < scale().len(),
        scale()[i] == scale()[j],
    ensures
        i == j,
{
}

/// The glyph of a counter.
pub fn alphabet(i: i8) -> (c: char)
    ensures
        c == glyph(i as int),
{
    let chars: [char; 21] = [
        ']', '`', '~', '%', '$', '^', '/', '#', '&', '[', ' ', '.', 'o', '+', '=', '*', 'B', 'O',
        'X', '@', '\\',
    ];
    if i < -10 {
        'U'
    } else if i > 10 {
        'H'
    } else {
        let idx: i8 = i + 10;
        chars[idx as usize]
    }
}

/// The first line of every picture.
pub open spec fn header() -> Seq<char> {
    seq!['G', 'r', 'i', 'd', ':', '\n']
}

/// The line above and below the rows: one dash for each column between two
/// plus signs.
pub open spec fn border(cols: nat) -> Seq<char> {
    seq!['+'] + Seq::new(cols, |i: int| '-') + seq!['+', '\n']
}

/// The line of one row: the glyphs of its counters, unseparated, between
/// two bars.
pub open spec fn row_line(row: Seq<i8>) -> Seq<char> {
    seq!['|'] + Seq::new(row.len(), |i: int| glyph(row[i] as int)) + seq!['|', '\n']
}

/// The lines of the rows, top row first.
pub open spec fn row_lines(cells: Seq<Seq<i8>>) -> Seq<char>
    decreases cells.len(),
{
    if cells.len() == 0 {
        Seq::empty()
    } else {
        row_lines(cells.drop_last()) + row_line(cells.last())
    }
}

/// The picture of a grid: the header, a border, one line for each row, and
/// the border again. Every line ends with a line feed.
pub open spec fn picture(grid: GridModel) -> Seq<char> {
    header() + border(grid.cols) + row_lines(grid.cells) + border(grid.cols)
}

} // verus!
