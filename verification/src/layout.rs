//! Placing the logo on the terminal grid.

use vstd::prelude::*;
use crate::text::{logo_width_of, max_line_len};

verus! {

/// A character of the logo at a cell of the terminal.
#[derive(Clone, Copy, Debug, PartialEq, Eq)]
pub struct Glyph {
    pub x: u16,
    pub y: u16,
    pub ch: char,
}

/// Where a block of `size` cells starts so that it stands centred in `total`
/// cells: `total.saturating_sub(size) / 2`.
pub open spec fn centered(total: u16, size: u16) -> u16 {
    if total > size {
        ((total - size) / 2) as u16
    } else {
        0
    }
}

/// The offset that centres a block of `size` cells in `total` cells (0 where
/// the block does not fit).
pub fn center_offset(total: u16, size: u16) -> (offset: u16)
    ensures
        offset == centered(total, size),
        size <= total ==> offset + size <= total && total - (offset + size) - offset <= 1,
        size >= total ==> offset == 0,
{
    total.saturating_sub(size) / 2
}

/// The glyphs of row `row` of the logo, whose characters are `line`, placed
/// with the logo's top left corner at `(ox, oy)`: every character but `' '`,
/// left to right. Offsets are cut to 16 bits, as `as u16` does.
pub open spec fn row_glyphs(line: Seq<char>, ox: u16, oy: u16, row: int) -> Seq<Glyph>
    decreases line.len(),
{
    if line.len() == 0 {
        Seq::empty()
    } else {
        let c = line.len() - 1;
        let g = glyph_at(ox, oy, row, c, line.last());
        let prev = row_glyphs(line.drop_last(), ox, oy, row);
        if line.last() == ' ' {
            prev
        } else {
            prev.push(g)
        }
    }
}

/// The glyph of character `ch` at row `r` and column `c` of a logo placed at
/// `(ox, oy)`; offsets are cut to 16 bits, as `as u16` does.
pub open spec fn glyph_at(ox: u16, oy: u16, r: int, c: int, ch: char) -> Glyph {
    Glyph { x: (ox + (c as u16)) as u16, y: (oy + (r as u16)) as u16, ch }
}

/// The glyph of the last character of `line` in row `row` at `(ox, oy)`.
pub open spec fn last_glyph(line: Seq<char>, ox: u16, oy: u16, row: int) -> Glyph {
    glyph_at(ox, oy, row, (line.len() - 1), line.last())
}

/// A last character other than a space adds its glyph to the row.
pub proof fn lemma_row_glyphs_ink(line: Seq<char>, ox: u16, oy: u16, row: int)
    requires
        line.len() > 0,
        line.last() != ' ',
    ensures
        row_glyphs(line, ox, oy, row) == row_glyphs(line.drop_last(), ox, oy, row).push(
            last_glyph(line, ox, oy, row),
        ),
{
    let prev = row_glyphs(line.drop_last(), ox, oy, row);
    let g = last_glyph(line, ox, oy, row);
    let all = row_glyphs(line, ox, oy, row);
    assert(all == (if line.last() == ' ' {
        prev
    } else {
        prev.push(g)
    }));
}

/// A trailing space adds nothing to the row.
pub proof fn lemma_row_glyphs_space(line: Seq<char>, ox: u16, oy: u16, row: int)
    requires
        line.len() > 0,
        line.last() == ' ',
    ensures
        row_glyphs(line, ox, oy, row) == row_glyphs(line.drop_last(), ox, oy, row),
{
}

/// The glyphs of the logo `lines` placed at `(ox, oy)`, row by row.
pub open spec fn logo_glyphs(lines: Seq<Seq<char>>, ox: u16, oy: u16) -> Seq<Glyph>
    decreases lines.len(),
{
    if lines.len() == 0 {
        Seq::empty()
    } else {
        logo_glyphs(lines.drop_last(), ox, oy) + row_glyphs(lines.last(), ox, oy, lines.len() - 1)
    }
}

/// The sequences of characters that `lines` holds.
pub open spec fn line_views(lines: Seq<Vec<char>>) -> Seq<Seq<char>> {
    lines.map_values(|l: Vec<char>| l@)
}

/// Placing every non-space character of the logo at `(ox, oy)` adds no two
/// 16-bit numbers whose sum overflows.
pub open spec fn placement_fits(lines: Seq<Seq<char>>, ox: u16, oy: u16) -> bool {
    forall|r: int, c: int|
        0 <= r < lines.len() && 0 <= c < lines[r].len() && #[trigger] lines[r][c] != ' ' ==> ox
            + (c as u16) <= u16::MAX && oy + (r as u16) <= u16::MAX
}

/// Whether the logo can be placed at `(ox, oy)` without an overflow.
pub fn placement_fits_at(lines: &Vec<Vec<char>>, ox: u16, oy: u16) -> (r: bool)
    ensures
        r == placement_fits(line_views(lines@), ox, oy),
{
    let ghost views = line_views(lines@);
    let mut i: usize = 0;
    while i < lines.len()
        invariant
            i <= lines@.len(),
            views == line_views(lines@),
            forall|r: int, c: int|
                0 <= r < i && 0 <= c < views[r].len() && #[trigger] views[r][c] != ' ' ==> ox + (c
                    as u16) <= u16::MAX && oy + (r as u16) <= u16::MAX,
        decreases lines@.len() - i,
    {
        let line = &lines[i];
        let mut j: usize = 0;
        while j < line.len()
            invariant
                i < lines@.len(),
                *line == lines@[i as int],
                views == line_views(lines@),
                j <= line@.len(),
                forall|c: int|
                    0 <= c < j && #[trigger] views[i as int][c] != ' ' ==> ox + (c as u16)
                        <= u16::MAX && oy + (i as u16) <= u16::MAX,
            decreases line@.len() - j,
        {
            if line[j] != ' ' {
                let cx = #[verifier::truncate] (j as u16);
                let cy = #[verifier::truncate] (i as u16);
                if ox as u32 + cx as u32 > 0xffff || oy as u32 + cy as u32 > 0xffff {
                    assert(views[i as int][j as int] != ' ');
                    return false;
                }
            }
            j += 1;
        }
        i += 1;
    }
    true
}

/// The cells that the logo `lines` takes when its top left corner stands at
/// `(ox, oy)`: one glyph for each character but `' '`, row by row and left to
/// right.
pub fn place_logo(lines: &Vec<Vec<char>>, ox: u16, oy: u16) -> (glyphs: Vec<Glyph>)
    requires
        placement_fits(line_views(lines@), ox, oy),
    ensures
        glyphs@ == logo_glyphs(line_views(lines@), ox, oy),
{
    let ghost views = line_views(lines@);
    let mut out: Vec<Glyph> = Vec::new();
    let mut i: usize = 0;
    while i < lines.len()
        invariant
            i <= lines@.len(),
            views == line_views(lines@),
            placement_fits(views, ox, oy),
            out@ == logo_glyphs(views.take(i as int), ox, oy),
        decreases lines@.len() - i,
    {
        let line = &lines[i];
        let ghost before = out@;
        let mut j: usize = 0;
        while j < line.len()
            invariant
                i < lines@.len(),
                *line == lines@[i as int],
                views == line_views(lines@),
                placement_fits(views, ox, oy),
                j <= line@.len(),
                out@ == before + row_glyphs(line@.take(j as int), ox, oy, i as int),
            decreases line@.len() - j,
        {
            assert(line@.take(j + 1).drop_last() == line@.take(j as int));
            let ch = line[j];
            assert(line@.take(j + 1).last() == ch);
            assert(line@.take(j + 1).len() - 1 == j);
            if ch != ' ' {
                assert(views[i as int][j as int] == ch);
                let cx = #[verifier::truncate] (j as u16);
                let cy = #[verifier::truncate] (i as u16);
                let g = Glyph { x: ox + cx, y: oy + cy, ch };
                out.push(g);
                proof { lemma_row_glyphs_ink(line@.take(j + 1), ox, oy, i as int); }
                assert(out@ =~= before + row_glyphs(line@.take(j + 1), ox, oy, i as int));
            } else {
                proof { lemma_row_glyphs_space(line@.take(j + 1), ox, oy, i as int); }
                assert(row_glyphs(line@.take(j + 1), ox, oy, i as int)
                    == row_glyphs(line@.take(j as int), ox, oy, i as int));
            }
            j += 1;
        }
        assert(line@.take(line@.len() as int) == line@);
        assert(views.take(i + 1).drop_last() == views.take(i as int));
        i += 1;
    }
    assert(views.take(lines@.len() as int) == views);
    out
}


/// Every glyph of a row stands for a character of the line other than a
/// space, at the column of that character.
pub proof fn lemma_row_glyph_source(line: Seq<char>, ox: u16, oy: u16, row: int, k: int)
    requires
        0 <= k < row_glyphs(line, ox, oy, row).len(),
    ensures
        exists|c: int|
            0 <= c < line.len() && line[c] != ' ' && #[trigger] row_glyphs(line, ox, oy, row)[k]
                == glyph_at(ox, oy, row, c, line[c]),
    decreases line.len(),
{
    let prev = row_glyphs(line.drop_last(), ox, oy, row);
    if line.last() == ' ' {
        lemma_row_glyphs_space(line, ox, oy, row);
        lemma_row_glyph_source(line.drop_last(), ox, oy, row, k);
        let c = choose|c: int|
            0 <= c < line.drop_last().len() && line.drop_last()[c] != ' ' && #[trigger] prev[k]
                == glyph_at(ox, oy, row, c, line.drop_last()[c]);
        assert(line[c] == line.drop_last()[c]);
    } else {
        lemma_row_glyphs_ink(line, ox, oy, row);
        if k < prev.len() {
            lemma_row_glyph_source(line.drop_last(), ox, oy, row, k);
            let c = choose|c: int|
                0 <= c < line.drop_last().len() && line.drop_last()[c] != ' ' && #[trigger] prev[k]
                    == glyph_at(ox, oy, row, c, line.drop_last()[c]);
            assert(line[c] == line.drop_last()[c]);
            assert(row_glyphs(line, ox, oy, row)[k] == prev[k]);
        } else {
            let c = line.len() - 1;
            assert(row_glyphs(line, ox, oy, row)[k] == last_glyph(line, ox, oy, row));
            assert(line[c] == line.last());
        }
    }
}

/// Every glyph of the logo stands for a character other than a space, at the
/// row and column of that character.
pub proof fn lemma_logo_glyph_source(lines: Seq<Seq<char>>, ox: u16, oy: u16, k: int)
    requires
        0 <= k < logo_glyphs(lines, ox, oy).len(),
    ensures
        exists|r: int, c: int|
            0 <= r < lines.len() && 0 <= c < lines[r].len() && lines[r][c] != ' ' && #[trigger] logo_glyphs(lines, ox, oy)[k]
                == glyph_at(ox, oy, r, c, lines[r][c]),
    decreases lines.len(),
{
    let init = lines.drop_last();
    let prev = logo_glyphs(init, ox, oy);
    let row = row_glyphs(lines.last(), ox, oy, lines.len() - 1);
    assert(logo_glyphs(lines, ox, oy) == prev + row);
    if k < prev.len() {
        lemma_logo_glyph_source(init, ox, oy, k);
        let (r, c) = choose|r: int, c: int|
            0 <= r < init.len() && 0 <= c < init[r].len() && init[r][c] != ' ' && #[trigger] prev[k]
                == glyph_at(ox, oy, r, c, init[r][c]);
        assert(lines[r] == init[r]);
        assert(logo_glyphs(lines, ox, oy)[k] == prev[k]);
    } else {
        lemma_row_glyph_source(lines.last(), ox, oy, lines.len() - 1, k - prev.len());
        let c = choose|c: int|
            0 <= c < lines.last().len() && lines.last()[c] != ' ' && #[trigger] row[k - prev.len()]
                == glyph_at(ox, oy, (lines.len() - 1), c, lines.last()[c]);
        assert(logo_glyphs(lines, ox, oy)[k] == row[k - prev.len()]);
        assert(lines[lines.len() - 1] == lines.last());
    }
}

/// No line is longer than the longest line.
pub proof fn lemma_max_line_len(lines: Seq<Seq<char>>, r: int)
    requires
        0 <= r < lines.len(),
    ensures
        lines[r].len() <= max_line_len(lines),
    decreases lines.len(),
{
    if r < lines.len() - 1 {
        lemma_max_line_len(lines.drop_last(), r);
        assert(lines.drop_last()[r] == lines[r]);
    }
}

/// A logo whose line count and line lengths all fit in 16 bits.
pub open spec fn fits_grid(lines: Seq<Seq<char>>) -> bool {
    &&& lines.len() <= u16::MAX
    &&& forall|r: int| 0 <= r < lines.len() ==> #[trigger] lines[r].len() <= u16::MAX
}

/// Whether the logo's line count and every line length fit in 16 bits.
pub fn logo_fits_grid(lines: &Vec<Vec<char>>) -> (r: bool)
    ensures
        r == fits_grid(line_views(lines@)),
{
    if lines.len() > 0xffff {
        return false;
    }
    let mut i: usize = 0;
    while i < lines.len()
        invariant
            i <= lines@.len(),
            forall|k: int| 0 <= k < i ==> #[trigger] line_views(lines@)[k].len() <= u16::MAX,
        decreases lines@.len() - i,
    {
        if lines[i].len() > 0xffff {
            assert(line_views(lines@)[i as int].len() > u16::MAX);
            return false;
        }
        i += 1;
    }
    true
}

/// A centred logo never overflows its placement, and a logo no larger than
/// the screen, placed centred, has every glyph on the screen.
pub proof fn centered_logo_stays_on_screen(lines: Seq<Seq<char>>, width: u16, height: u16)
    requires
        fits_grid(lines),
    ensures
        ({
            let lw = logo_width_of(lines) as u16;
            let lh = lines.len() as u16;
            let ox = centered(width, lw);
            let oy = centered(height, lh);
            &&& placement_fits(lines, ox, oy)
            &&& (logo_width_of(lines) <= width && lines.len() <= height) ==> forall|k: int|
                0 <= k < logo_glyphs(lines, ox, oy).len() ==> #[trigger] logo_glyphs(lines, ox, oy)[k].x
                    < width && logo_glyphs(lines, ox, oy)[k].y < height
        }),
{
    let lw = logo_width_of(lines) as u16;
    let lh = lines.len() as u16;
    let ox = centered(width, lw);
    let oy = centered(height, lh);
    assert(lines.len() > 0 ==> logo_width_of(lines) <= u16::MAX) by {
        if lines.len() > 0 {
            lemma_max_line_len_bounded(lines);
        }
    }
    assert forall|r: int, c: int|
        0 <= r < lines.len() && 0 <= c < lines[r].len() && #[trigger] lines[r][c] != ' ' implies ox
            + (c as u16) <= u16::MAX && oy + (r as u16) <= u16::MAX by {
        lemma_max_line_len(lines, r);
    }
    if logo_width_of(lines) <= width && lines.len() <= height {
        assert forall|k: int| 0 <= k < logo_glyphs(lines, ox, oy).len() implies #[trigger] logo_glyphs(
            lines,
            ox,
            oy,
        )[k].x < width && logo_glyphs(lines, ox, oy)[k].y < height by {
            lemma_logo_glyph_source(lines, ox, oy, k);
            let (r, c) = choose|r: int, c: int|
                0 <= r < lines.len() && 0 <= c < lines[r].len() && lines[r][c] != ' ' && #[trigger] logo_glyphs(lines, ox, oy)[k]
                    == glyph_at(ox, oy, r, c, lines[r][c]);
            lemma_max_line_len(lines, r);
        }
    }
}

/// The longest line of a logo that fits the grid fits in 16 bits too.
pub proof fn lemma_max_line_len_bounded(lines: Seq<Seq<char>>)
    requires
        forall|r: int| 0 <= r < lines.len() ==> #[trigger] lines[r].len() <= u16::MAX,
    ensures
        max_line_len(lines) <= u16::MAX,
    decreases lines.len(),
{
    if lines.len() > 0 {
        assert forall|r: int| 0 <= r < lines.drop_last().len() implies #[trigger] lines.drop_last()[r].len() <= u16::MAX by {
            assert(lines.drop_last()[r] == lines[r]);
        }
        lemma_max_line_len_bounded(lines.drop_last());
        assert(lines.last() == lines[lines.len() - 1]);
    }
}


/// The cells the logo takes centred on a `width` by `height` screen: it is
/// measured as [`crate::text::logo_size`] does and placed at the offsets
/// that centre it (0 along an axis where it does not fit).
pub fn centered_logo(lines: &Vec<Vec<char>>, width: u16, height: u16) -> (glyphs: Vec<Glyph>)
    requires
        placement_fits(
            line_views(lines@),
            centered(width, logo_width_of(line_views(lines@)) as u16),
            centered(height, lines@.len() as u16),
        ),
    ensures
        glyphs@ == logo_glyphs(
            line_views(lines@),
            centered(width, logo_width_of(line_views(lines@)) as u16),
            centered(height, lines@.len() as u16),
        ),
{
    let size = crate::text::logo_size(lines);
    assert(lines@.map_values(|l: Vec<char>| l@) == line_views(lines@));
    let ox = center_offset(width, size.width);
    let oy = center_offset(height, size.height);
    place_logo(lines, ox, oy)
}

/// Whether the logo, measured and centred as [`centered_logo`] does it, can
/// be placed without an overflow.
pub fn centered_logo_fits(lines: &Vec<Vec<char>>, width: u16, height: u16) -> (r: bool)
    ensures
        r == placement_fits(
            line_views(lines@),
            centered(width, logo_width_of(line_views(lines@)) as u16),
            centered(height, lines@.len() as u16),
        ),
{
    let size = crate::text::logo_size(lines);
    assert(lines@.map_values(|l: Vec<char>| l@) == line_views(lines@));
    placement_fits_at(lines, center_offset(width, size.width), center_offset(height, size.height))
}

/// The glyphs that fall on a `width` by `height` screen.
pub open spec fn on_screen(glyphs: Seq<Glyph>, width: u16, height: u16) -> Seq<Glyph> {
    glyphs.filter(|g: Glyph| g.x < width && g.y < height)
}

/// The glyphs that fall on a `width` by `height` screen, in their order.
pub fn visible_glyphs(glyphs: &Vec<Glyph>, width: u16, height: u16) -> (shown: Vec<Glyph>)
    ensures
        shown@ == on_screen(glyphs@, width, height),
{
    let mut shown: Vec<Glyph> = Vec::new();
    let mut i: usize = 0;
    while i < glyphs.len()
        invariant
            i <= glyphs@.len(),
            shown@ == on_screen(glyphs@.take(i as int), width, height),
        decreases glyphs@.len() - i,
    {
        proof {
            reveal(Seq::filter);
        }
        assert(glyphs@.take(i + 1).drop_last() == glyphs@.take(i as int));
        assert(glyphs@.take(i + 1).last() == glyphs@[i as int]);
        let g = glyphs[i];
        if g.x < width && g.y < height {
            shown.push(g);
        }
        i += 1;
    }
    assert(glyphs@.take(glyphs@.len() as int) == glyphs@);
    shown
}
} // verus!
