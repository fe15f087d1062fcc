//! The pour screensaver's board: glyphs pour from above and build the logo,
//! which holds for a while and is then washed away cell by cell.

use vstd::prelude::*;
use crate::layout::Glyph;
use crate::bounce::Rgb;
use crate::random::random_below;

verus! {

/// Where the pour cycle stands.
#[derive(Clone, Copy, Debug, PartialEq, Eq, Structural)]
pub enum PourPhase {
    /// Drops land on the logo's unlit cells and light them.
    Building,
    /// Every cell is lit; drops splash off the logo's top edges.
    Complete,
    /// Lit cells go dark a few at a time.
    WashingAway,
}

/// A cell of the logo on the board.
#[derive(Clone, Copy, Debug, PartialEq, Eq, Structural)]
pub struct PourCell {
    pub x: u16,
    pub y: u16,
    pub ch: char,
    pub active: bool,
}

/// Every cell is lit.
pub open spec fn all_lit(cells: Seq<PourCell>) -> bool {
    forall|i: int| 0 <= i < cells.len() ==> (#[trigger] cells[i]).active
}

/// No cell is lit.
pub open spec fn none_lit(cells: Seq<PourCell>) -> bool {
    forall|i: int| 0 <= i < cells.len() ==> !(#[trigger] cells[i]).active
}

/// Some lit cell stands at `(x, y)`.
pub open spec fn lit_at(cells: Seq<PourCell>, x: u16, y: u16) -> bool {
    exists|i: int| 0 <= i < cells.len() && (#[trigger] cells[i]).x == x && cells[i].y == y && cells[i].active
}

/// Cell `i` is an unlit cell at `(x, y)`.
pub open spec fn unlit_at(cells: Seq<PourCell>, i: int, x: u16, y: u16) -> bool {
    0 <= i < cells.len() && cells[i].x == x && cells[i].y == y && !cells[i].active
}

/// `(col, row)` is on a lit cell with no lit cell right above it; row 0
/// never counts, as `row.saturating_sub(1)` looks at the row itself.
pub open spec fn top_edge(cells: Seq<PourCell>, col: u16, row: u16) -> bool {
    lit_at(cells, col, row) && !lit_at(cells, col, if row > 0 { (row - 1) as u16 } else { 0 })
}

/// The indices of the lit cells, in order.
pub open spec fn lit_indices(cells: Seq<PourCell>) -> Seq<int>
    decreases cells.len(),
{
    if cells.len() == 0 {
        Seq::empty()
    } else {
        let prev = lit_indices(cells.drop_last());
        if cells.last().active {
            prev.push(cells.len() - 1)
        } else {
            prev
        }
    }
}

/// The indices of the unlit cells, in order.
pub open spec fn unlit_indices(cells: Seq<PourCell>) -> Seq<int>
    decreases cells.len(),
{
    if cells.len() == 0 {
        Seq::empty()
    } else {
        let prev = unlit_indices(cells.drop_last());
        if !cells.last().active {
            prev.push(cells.len() - 1)
        } else {
            prev
        }
    }
}


/// The lit indices are exactly the lit cells, each once, in order.
pub proof fn lemma_lit_indices(cells: Seq<PourCell>)
    ensures
        forall|j: int|
            0 <= j < lit_indices(cells).len() ==> 0 <= #[trigger] lit_indices(cells)[j] < cells.len()
                && cells[lit_indices(cells)[j]].active,
        forall|i: int| 0 <= i < cells.len() && (#[trigger] cells[i]).active ==> lit_indices(cells).contains(i),
        lit_indices(cells).len() == 0 <==> none_lit(cells),
    decreases cells.len(),
{
    if cells.len() > 0 {
        let init = cells.drop_last();
        lemma_lit_indices(init);
        assert forall|i: int| 0 <= i < cells.len() && (#[trigger] cells[i]).active implies lit_indices(
            cells,
        ).contains(i) by {
            if i < cells.len() - 1 {
                assert(init[i] == cells[i]);
                let j = choose|j: int| 0 <= j < lit_indices(init).len() && lit_indices(init)[j] == i;
                assert(lit_indices(cells)[j] == i);
            } else {
                assert(lit_indices(cells)[lit_indices(cells).len() - 1] == i);
            }
        }
        if lit_indices(cells).len() == 0 {
            assert forall|i: int| 0 <= i < cells.len() implies !(#[trigger] cells[i]).active by {
                if cells[i].active {
                    assert(lit_indices(cells).contains(i));
                }
            }
        }
        if none_lit(cells) {
            assert forall|i: int| 0 <= i < init.len() implies !(#[trigger] init[i]).active by {
                assert(init[i] == cells[i]);
            }
            assert(!cells[cells.len() - 1].active);
        }
    }
}

/// The unlit indices are exactly the unlit cells, in order.
pub proof fn lemma_unlit_indices(cells: Seq<PourCell>)
    ensures
        forall|j: int|
            0 <= j < unlit_indices(cells).len() ==> 0 <= #[trigger] unlit_indices(cells)[j] < cells.len()
                && !cells[unlit_indices(cells)[j]].active,
        unlit_indices(cells).len() == 0 <==> all_lit(cells),
    decreases cells.len(),
{
    if cells.len() > 0 {
        let init = cells.drop_last();
        lemma_unlit_indices(init);
        if unlit_indices(cells).len() == 0 {
            assert forall|i: int| 0 <= i < cells.len() implies (#[trigger] cells[i]).active by {
                if i < cells.len() - 1 {
                    assert(init[i] == cells[i]);
                    if !init[i].active {
                        assert(!all_lit(init));
                    }
                }
            }
        }
        if all_lit(cells) {
            assert forall|i: int| 0 <= i < init.len() implies (#[trigger] init[i]).active by {
                assert(init[i] == cells[i]);
            }
            assert(cells[cells.len() - 1].active);
        }
    }
}

/// Darkening one lit cell leaves one lit cell fewer.
pub proof fn lemma_darken_one(cells: Seq<PourCell>, i: int)
    requires
        0 <= i < cells.len(),
        cells[i].active,
    ensures
        lit_indices(cells.update(i, PourCell { active: false, ..cells[i] })).len() == lit_indices(cells).len() - 1,
    decreases cells.len(),
{
    let dark = cells.update(i, PourCell { active: false, ..cells[i] });
    if i == cells.len() - 1 {
        assert(dark.drop_last() == cells.drop_last());
    } else {
        let init = cells.drop_last();
        assert(dark.drop_last() == init.update(i, PourCell { active: false, ..init[i] }));
        lemma_darken_one(init, i);
    }
}

/// What the board shows as lit is exactly its lit cells: a spot is lit only
/// where a lit cell stands, every lit cell lights its own spot, and a board
/// with no lit cell shows nothing lit and no top edge anywhere.
pub proof fn lit_spots_are_lit_cells(cells: Seq<PourCell>, x: u16, y: u16)
    ensures
        lit_at(cells, x, y) ==> exists|i: int|
            0 <= i < cells.len() && (#[trigger] cells[i]).x == x && cells[i].y == y && cells[i].active,
        forall|i: int|
            0 <= i < cells.len() && (#[trigger] cells[i]).x == x && cells[i].y == y && cells[i].active
                ==> lit_at(cells, x, y),
        (forall|i: int| 0 <= i < cells.len() ==> !(#[trigger] cells[i]).active) ==> !lit_at(cells, x, y)
            && !top_edge(cells, x, y),
{
}

/// A drop meets an unlit cell only at that cell's own column and row.
pub proof fn drop_meets_only_its_own_cell(cells: Seq<PourCell>, i: int, x: u16, y: u16)
    ensures
        unlit_at(cells, i, x, y) ==> 0 <= i < cells.len() && cells[i].x == x && cells[i].y == y && !cells[i].active,
        (0 <= i < cells.len() && cells[i].x == x && cells[i].y == y && !cells[i].active) ==> unlit_at(cells, i, x, y),
        (0 <= i < cells.len() && (cells[i].x != x || cells[i].y != y)) ==> !unlit_at(cells, i, x, y),
{
}

/// A top edge stands on a lit cell, with no lit cell in the row above.
pub proof fn top_edge_is_on_a_lit_cell(cells: Seq<PourCell>, col: u16, row: u16)
    ensures
        top_edge(cells, col, row) ==> exists|i: int|
            0 <= i < cells.len() && (#[trigger] cells[i]).x == col && cells[i].y == row && cells[i].active,
        (top_edge(cells, col, row) && row > 0) ==> forall|i: int|
            0 <= i < cells.len() && (#[trigger] cells[i]).x == col && cells[i].y == row - 1 ==> !cells[i].active,
        row == 0 ==> !top_edge(cells, col, row),
{
}

/// `after` holds the same cells as `before`, at the same places with the same
/// characters; only whether they are lit may differ.
pub open spec fn same_layout(before: Seq<PourCell>, after: Seq<PourCell>) -> bool {
    &&& after.len() == before.len()
    &&& forall|i: int|
        0 <= i < before.len() ==> (#[trigger] after[i]).x == before[i].x && after[i].y == before[i].y
            && after[i].ch == before[i].ch
}

/// What a drop can do to the board: nothing but light cells while
/// building, and nothing at all otherwise; no cell moves.
pub open spec fn strike_step(before: Seq<PourCell>, after: Seq<PourCell>, phase: PourPhase) -> bool {
    &&& same_layout(before, after)
    &&& phase == PourPhase::Building ==> forall|i: int| 0 <= i < before.len() && (#[trigger] before[i]).active ==> after[i].active
    &&& phase != PourPhase::Building ==> after == before
}

/// What a frame's phase update can do to the board: while building or
/// holding, nothing to the cells, and a phase change only to the next phase
/// (to the finished logo only once every cell is lit); while washing, with
/// lit cells left, some of them go dark and none lights up; with none left,
/// back to building.
pub open spec fn phase_step(before: Seq<PourCell>, p: PourPhase, after: Seq<PourCell>, q: PourPhase) -> bool {
    &&& same_layout(before, after)
    &&& match p {
        PourPhase::Building => after == before && (q == PourPhase::Building || (q == PourPhase::Complete && all_lit(before))),
        PourPhase::Complete => after == before && (q == PourPhase::Complete || q == PourPhase::WashingAway),
        PourPhase::WashingAway => if lit_indices(before).len() == 0 {
            after == before && q == PourPhase::Building
        } else {
            &&& q == PourPhase::WashingAway
            &&& lit_indices(after).len() < lit_indices(before).len()
            &&& forall|i: int| 0 <= i < before.len() && (#[trigger] after[i]).active ==> before[i].active
        },
    }
}

/// Over any run of drops in one phase, cells only light up while building
/// and nothing changes otherwise.
pub proof fn strikes_only_light(states: Seq<Seq<PourCell>>, phase: PourPhase)
    requires
        states.len() > 0,
        forall|k: int| 0 <= k < states.len() - 1 ==> strike_step(#[trigger] states[k], states[k + 1], phase),
    ensures
        same_layout(states[0], states.last()),
        phase == PourPhase::Building ==> forall|i: int|
            0 <= i < states[0].len() && (#[trigger] states[0][i]).active ==> states.last()[i].active,
        phase != PourPhase::Building ==> states.last() == states[0],
    decreases states.len(),
{
    if states.len() > 1 {
        let init = states.drop_last();
        assert forall|k: int| 0 <= k < init.len() - 1 implies strike_step(#[trigger] init[k], init[k + 1], phase) by {
            assert(init[k] == states[k] && init[k + 1] == states[k + 1]);
        }
        strikes_only_light(init, phase);
        assert(init.last() == states[states.len() - 2]);
        assert(strike_step(states[states.len() - 2], states[states.len() - 1], phase));
        let a = init.last();
        let b = states.last();
        if phase == PourPhase::Building {
            assert forall|i: int| 0 <= i < states[0].len() && (#[trigger] states[0][i]).active implies states.last()[i].active by {
                assert(init[0] == states[0]);
                assert(a[i].active);
            }
        }
        assert(init[0] == states[0]);
    }
}

/// One frame of the pour screensaver, its phase update followed by any run
/// of drops: cells only light up in a frame that starts building, nothing
/// changes in one that starts with the finished logo, and in one that starts
/// washing with lit cells, fewer stay lit and none lights up.
pub proof fn pour_frame_law(c0: Seq<PourCell>, p0: PourPhase, c1: Seq<PourCell>, p1: PourPhase, drops: Seq<Seq<PourCell>>)
    requires
        phase_step(c0, p0, c1, p1),
        drops.len() > 0,
        drops[0] == c1,
        forall|k: int| 0 <= k < drops.len() - 1 ==> strike_step(#[trigger] drops[k], drops[k + 1], p1),
    ensures
        same_layout(c0, drops.last()),
        p0 == PourPhase::Building ==> forall|i: int| 0 <= i < c0.len() && (#[trigger] c0[i]).active ==> drops.last()[i].active,
        p0 == PourPhase::Complete ==> drops.last() == c0,
        (p0 == PourPhase::WashingAway && lit_indices(c0).len() > 0) ==> {
            &&& lit_indices(drops.last()).len() < lit_indices(c0).len()
            &&& forall|i: int| 0 <= i < c0.len() && (#[trigger] drops.last()[i]).active ==> c0[i].active
        },
{
    strikes_only_light(drops, p1);
    if p0 == PourPhase::Building && p1 == PourPhase::Building {
        assert forall|i: int| 0 <= i < c0.len() && (#[trigger] c0[i]).active implies drops.last()[i].active by {
            assert(drops[0][i].active);
        }
    }
}

/// Washing away ends: frames that each start with lit cells and leave fewer
/// lit follow one another at most `n` times from `n` lit cells, so the board
/// is back to building within `n + 1` frames.
pub proof fn washing_ends(counts: Seq<nat>)
    requires
        counts.len() > 0,
        forall|k: int| 0 <= k < counts.len() - 1 ==> #[trigger] counts[k] > 0 && counts[k + 1] < counts[k],
    ensures
        counts.len() <= counts[0] + 1,
    decreases counts.len(),
{
    if counts.len() > 1 {
        let tail = counts.drop_first();
        assert forall|k: int| 0 <= k < tail.len() - 1 implies #[trigger] tail[k] > 0 && tail[k + 1] < tail[k] by {
            assert(tail[k] == counts[k + 1] && tail[k + 1] == counts[k + 2]);
        }
        washing_ends(tail);
        assert(counts[1] < counts[0]);
    }
}

/// What a frame's phase update did.
pub struct PhaseTick {
    /// The phase changed, so its timer starts again.
    pub restarted: bool,
    /// The cells washed away this frame, in the order they went dark.
    pub washed: Vec<usize>,
}

/// What a drop at a cell met.
#[derive(Clone, Copy, Debug, PartialEq, Eq, Structural)]
pub enum Strike {
    /// It landed on the unlit cell with this index and lit it.
    Landed(usize),
    /// It reached the top edge of the finished logo.
    TopEdge,
    /// Nothing.
    Miss,
}

/// The glyphs that pour down: the letters of OMARA, shade blocks and a few
/// symbols.
pub open spec fn pour_chars() -> Seq<char> {
    seq!['O', 'M', 'A', 'R', 'A', '\u{2591}', '\u{2592}', '\u{2593}', '\u{2588}', '*', '+', '=', ':', '-']
}

/// The glyphs that pour down.
pub fn pour_glyphs() -> (chars: Vec<char>)
    ensures
        chars@ == pour_chars(),
        chars@ == seq!['O', 'M', 'A', 'R', 'A', '\u{2591}', '\u{2592}', '\u{2593}', '\u{2588}', '*', '+', '=', ':', '-'],
{
    let chars = vec!['O', 'M', 'A', 'R', 'A', '\u{2591}', '\u{2592}', '\u{2593}', '\u{2588}', '*', '+', '=', ':', '-'];
    assert(chars@ =~= pour_chars());
    chars
}

/// Glyph number `k` of the pool.
pub fn pour_glyph_at(k: usize) -> (c: char)
    requires
        k < pour_chars().len(),
    ensures
        c == pour_chars()[k as int],
{
    let chars = pour_glyphs();
    chars[k]
}

/// A glyph of the pool picked at random.
pub fn random_pour_glyph(rng: &mut rand::rngs::ThreadRng) -> (c: char)
    ensures
        pour_chars().contains(c),
{
    let k = random_below(rng, 0, 14);
    let c = pour_glyph_at(k);
    assert(pour_chars()[k as int] == c);
    c
}

/// The colour of cell `tail` of a falling stream, counted up from its head:
/// cyan, dimming by 60 a cell.
pub open spec fn tail_color(tail: int) -> Rgb {
    let b = (200 - 60 * tail) as u8;
    (0u8, b, (b + 55) as u8)
}

/// The three cells of the stream whose head is in row `dy`: the head, then
/// the rows above it (row 0 repeats where the stream reaches the top), each
/// with its colour.
pub fn stream_tail(dy: u16) -> (cells: Vec<(u16, Rgb)>)
    ensures
        cells@.len() == 3,
        forall|t: int|
            0 <= t < 3 ==> #[trigger] cells@[t] == ((if dy >= t { (dy - t) as u16 } else { 0u16 }), tail_color(t)),
        cells@[0].1 == (0u8, 200u8, 255u8),
        cells@[1].1 == (0u8, 140u8, 195u8),
        cells@[2].1 == (0u8, 80u8, 135u8),
        cells@[0].0 == dy,
{
    let mut cells: Vec<(u16, Rgb)> = Vec::new();
    let mut tail: u16 = 0;
    while tail < 3
        invariant
            tail <= 3,
            cells@.len() == tail,
            forall|t: int|
                0 <= t < tail ==> #[trigger] cells@[t] == ((if dy >= t { (dy - t) as u16 } else { 0u16 }), tail_color(t)),
        decreases 3 - tail,
    {
        let b: u8 = 200 - (tail as u8) * 60;
        cells.push((dy.saturating_sub(tail), (0, b, b + 55)));
        tail += 1;
    }
    cells
}

/// The logo's cells and the phase of the pour cycle.
pub struct PourBoard {
    cells: Vec<PourCell>,
    phase: PourPhase,
}

impl PourBoard {
    /// The board's cells.
    pub closed spec fn cells_view(&self) -> Seq<PourCell> {
        self.cells@
    }

    /// The board's phase.
    pub closed spec fn phase_view(&self) -> PourPhase {
        self.phase
    }

    /// A finished logo has every cell lit.
    #[verifier::type_invariant]
    spec fn finished_is_whole(&self) -> bool {
        self.phase == PourPhase::Complete ==> all_lit(self.cells@)
    }

    /// A new board for the logo's glyphs: every cell unlit, building.
    pub fn new(glyphs: &Vec<Glyph>) -> (board: PourBoard)
        ensures
            board.phase_view() == PourPhase::Building,
            board.cells_view().len() == glyphs@.len(),
            forall|i: int|
                0 <= i < glyphs@.len() ==> #[trigger] board.cells_view()[i] == (PourCell {
                    x: glyphs@[i].x,
                    y: glyphs@[i].y,
                    ch: glyphs@[i].ch,
                    active: false,
                }),
            none_lit(board.cells_view()),
            forall|x: u16, y: u16| !#[trigger] lit_at(board.cells_view(), x, y),
    {
        let mut cells: Vec<PourCell> = Vec::new();
        let mut i: usize = 0;
        while i < glyphs.len()
            invariant
                i <= glyphs@.len(),
                cells@.len() == i,
                forall|k: int|
                    0 <= k < i ==> #[trigger] cells@[k] == (PourCell {
                        x: glyphs@[k].x,
                        y: glyphs@[k].y,
                        ch: glyphs@[k].ch,
                        active: false,
                    }),
            decreases glyphs@.len() - i,
        {
            let g = glyphs[i];
            cells.push(PourCell { x: g.x, y: g.y, ch: g.ch, active: false });
            i += 1;
        }
        PourBoard { cells, phase: PourPhase::Building }
    }

    /// The board's cells.
    pub fn cells(&self) -> (cells: &Vec<PourCell>)
        ensures
            cells@ == self.cells_view(),
    {
        &self.cells
    }

    /// The board's phase. A finished logo has every cell lit.
    pub fn phase(&self) -> (phase: PourPhase)
        ensures
            phase == self.phase_view(),
            phase == PourPhase::Complete ==> all_lit(self.cells_view()),
    {
        proof {
            use_type_invariant(self);
        }
        self.phase
    }

    /// Whether every cell is lit.
    pub fn all_active(&self) -> (r: bool)
        ensures
            r == all_lit(self.cells_view()),
            r <==> forall|i: int| 0 <= i < self.cells_view().len() ==> (#[trigger] self.cells_view()[i]).active,
    {
        let mut i: usize = 0;
        while i < self.cells.len()
            invariant
                i <= self.cells@.len(),
                forall|k: int| 0 <= k < i ==> (#[trigger] self.cells@[k]).active,
            decreases self.cells@.len() - i,
        {
            if !self.cells[i].active {
                return false;
            }
            i += 1;
        }
        true
    }

    /// Whether a lit cell stands at `(x, y)`.
    pub fn active_at(&self, x: u16, y: u16) -> (r: bool)
        ensures
            r == lit_at(self.cells_view(), x, y),
            r ==> exists|i: int|
                0 <= i < self.cells_view().len() && (#[trigger] self.cells_view()[i]).x == x
                    && self.cells_view()[i].y == y && self.cells_view()[i].active,
            forall|i: int|
                0 <= i < self.cells_view().len() && (#[trigger] self.cells_view()[i]).x == x
                    && self.cells_view()[i].y == y && self.cells_view()[i].active ==> r,
    {
        let mut i: usize = 0;
        while i < self.cells.len()
            invariant
                i <= self.cells@.len(),
                forall|k: int|
                    0 <= k < i ==> !((#[trigger] self.cells@[k]).x == x && self.cells@[k].y == y
                        && self.cells@[k].active),
            decreases self.cells@.len() - i,
        {
            let c = self.cells[i];
            if c.x == x && c.y == y && c.active {
                return true;
            }
            i += 1;
        }
        false
    }

    /// Whether `(col, row)` lies on the top edge of the lit logo.
    pub fn is_top_edge(&self, col: u16, row: u16) -> (r: bool)
        ensures
            r == top_edge(self.cells_view(), col, row),
    {
        self.active_at(col, row) && !self.active_at(col, row.saturating_sub(1))
    }

    /// The indices of the lit cells, in order.
    pub fn active_indices(&self) -> (idx: Vec<usize>)
        ensures
            idx@.map_values(|i: usize| i as int) == lit_indices(self.cells_view()),
    {
        let mut idx: Vec<usize> = Vec::new();
        let mut i: usize = 0;
        while i < self.cells.len()
            invariant
                i <= self.cells@.len(),
                idx@.map_values(|k: usize| k as int) == lit_indices(self.cells@.take(i as int)),
            decreases self.cells@.len() - i,
        {
            assert(self.cells@.take(i + 1).drop_last() == self.cells@.take(i as int));
            if self.cells[i].active {
                idx.push(i);
            }
            assert(idx@.map_values(|k: usize| k as int) =~= lit_indices(self.cells@.take(i + 1)));
            i += 1;
        }
        assert(self.cells@.take(self.cells@.len() as int) == self.cells@);
        idx
    }

    /// The indices of the unlit cells, in order.
    pub fn inactive_indices(&self) -> (idx: Vec<usize>)
        ensures
            idx@.map_values(|i: usize| i as int) == unlit_indices(self.cells_view()),
    {
        let mut idx: Vec<usize> = Vec::new();
        let mut i: usize = 0;
        while i < self.cells.len()
            invariant
                i <= self.cells@.len(),
                idx@.map_values(|k: usize| k as int) == unlit_indices(self.cells@.take(i as int)),
            decreases self.cells@.len() - i,
        {
            assert(self.cells@.take(i + 1).drop_last() == self.cells@.take(i as int));
            if !self.cells[i].active {
                idx.push(i);
            }
            assert(idx@.map_values(|k: usize| k as int) =~= unlit_indices(self.cells@.take(i + 1)));
            i += 1;
        }
        assert(self.cells@.take(self.cells@.len() as int) == self.cells@);
        idx
    }

    /// The column of an unlit cell picked at random, where drops are sent
    /// to build the logo; `None` once every cell is lit.
    pub fn random_inactive_column(&self, rng: &mut rand::rngs::ThreadRng) -> (x: Option<u16>)
        ensures
            x is None <==> all_lit(self.cells_view()),
            x matches Some(col) ==> exists|i: int|
                0 <= i < self.cells_view().len() && !(#[trigger] self.cells_view()[i]).active
                    && self.cells_view()[i].x == col,
    {
        proof {
            lemma_unlit_indices(self.cells@);
        }
        let idle = self.inactive_indices();
        if idle.len() == 0 {
            None
        } else {
            assert(idle@.map_values(|i: usize| i as int).len() == idle@.len());
            let k = random_below(rng, 0, idle.len());
            let x = self.inactive_column(k);
            assert(unlit_indices(self.cells@)[k as int] == idle@[k as int] as int);
            Some(x)
        }
    }

    /// The column of the `k`-th unlit cell.
    pub fn inactive_column(&self, k: usize) -> (x: u16)
        requires
            k < unlit_indices(self.cells_view()).len(),
        ensures
            x == self.cells_view()[unlit_indices(self.cells_view())[k as int]].x,
    {
        proof {
            lemma_unlit_indices(self.cells@);
        }
        let idle = self.inactive_indices();
        assert(idle@.map_values(|i: usize| i as int)[k as int] == idle@[k as int] as int);
        self.cells[idle[k]].x
    }

    /// A drop at cell `(col, row)` of a `width` by `height` screen. While
    /// building, it lands on the first unlit cell there and lights it; on the
    /// finished logo, it reports reaching the logo's top edge. Off screen, or
    /// in any other case, it meets nothing and the board is unchanged.
    pub fn strike(&mut self, col: u16, row: u16, width: u16, height: u16) -> (s: Strike)
        ensures
            final(self).phase_view() == old(self).phase_view(),
            strike_step(old(self).cells_view(), final(self).cells_view(), old(self).phase_view()),
            s matches Strike::Landed(i) ==> {
                &&& i < old(self).cells_view().len()
                &&& old(self).cells_view()[i as int].x == col
                &&& old(self).cells_view()[i as int].y == row
                &&& !old(self).cells_view()[i as int].active
                &&& final(self).cells_view()[i as int].active
            },
            (forall|j: int|
                0 <= j < old(self).cells_view().len() ==> !((#[trigger] old(self).cells_view()[j]).x == col
                    && old(self).cells_view()[j].y == row)) ==> (s == Strike::Miss && final(self).cells_view()
                == old(self).cells_view()),
            ({
                let cells = old(self).cells_view();
                let on_screen = col < width && row < height;
                let building = old(self).phase_view() == PourPhase::Building;
                &&& (on_screen && building && exists|i: int| unlit_at(cells, i, col, row)) ==> (s matches Strike::Landed(i) && unlit_at(cells, i as int, col, row)
                    && (forall|j: int| 0 <= j < i ==> !unlit_at(cells, j, col, row))
                    && final(self).cells_view() == cells.update(i as int, PourCell { active: true, ..cells[i as int] }))
                &&& !(on_screen && building && exists|i: int| unlit_at(cells, i, col, row)) ==> final(self).cells_view() == cells
                &&& s == Strike::TopEdge <==> (on_screen && old(self).phase_view() == PourPhase::Complete && top_edge(cells, col, row))
                &&& s == Strike::Miss <==> !(on_screen && building && exists|i: int| unlit_at(cells, i, col, row)) && !(on_screen && old(self).phase_view() == PourPhase::Complete && top_edge(cells, col, row))
            }),
    {
        proof {
            use_type_invariant(&*self);
        }
        if col >= width || row >= height {
            return Strike::Miss;
        }
        if self.phase == PourPhase::Building {
            let mut i: usize = 0;
            while i < self.cells.len()
                invariant
                    i <= self.cells@.len(),
                    self.phase == PourPhase::Building,
                    self.phase == old(self).phase_view(),
                    self.cells@ == old(self).cells_view(),
                    col < width && row < height,
                    forall|j: int| 0 <= j < i ==> !unlit_at(self.cells@, j, col, row),
                decreases self.cells@.len() - i,
            {
                let c = self.cells[i];
                if c.x == col && c.y == row && !c.active {
                    let lit = PourCell { active: true, ..c };
                    let mut cells: Vec<PourCell> = Vec::new();
                    std::mem::swap(&mut cells, &mut self.cells);
                    cells.set(i, lit);
                    self.cells = cells;
                    assert(self.cells@ == old(self).cells_view().update(i as int, PourCell { active: true, ..old(self).cells_view()[i as int] }));
                    assert(unlit_at(old(self).cells_view(), i as int, col, row));
                    assert(old(self).phase_view() != PourPhase::Complete);
                    return Strike::Landed(i);
                }
                i += 1;
            }
            Strike::Miss
        } else if self.phase == PourPhase::Complete && self.is_top_edge(col, row) {
            Strike::TopEdge
        } else {
            Strike::Miss
        }
    }

    /// Washes away one lit cell while the logo is being washed away: the
    /// `draw`-th lit cell, counted in board order, goes dark. Gives its
    /// index.
    pub fn wash_one(&mut self, draw: usize) -> (idx: usize)
        requires
            old(self).phase_view() == PourPhase::WashingAway,
            draw < lit_indices(old(self).cells_view()).len(),
        ensures
            final(self).phase_view() == PourPhase::WashingAway,
            idx as int == lit_indices(old(self).cells_view())[draw as int],
            idx < old(self).cells_view().len(),
            old(self).cells_view()[idx as int].active,
            final(self).cells_view() == old(self).cells_view().update(
                idx as int,
                PourCell { active: false, ..old(self).cells_view()[idx as int] },
            ),
            lit_indices(final(self).cells_view()).len() == lit_indices(old(self).cells_view()).len() - 1,
    {
        let lit = self.active_indices();
        proof {
            lemma_lit_indices(self.cells@);
        }
        assert(lit@.map_values(|i: usize| i as int)[draw as int] == lit@[draw as int] as int);
        let idx = lit[draw];
        let mut cells: Vec<PourCell> = Vec::new();
        std::mem::swap(&mut cells, &mut self.cells);
        let c = cells[idx];
        proof {
            lemma_darken_one(cells@, idx as int);
        }
        cells.set(idx, PourCell { active: false, ..c });
        self.cells = cells;
        idx
    }

    /// Washes away `count` distinct lit cells picked at random while the
    /// logo is being washed away, one after another. Gives their indices in
    /// the order they went dark.
    pub fn wash(&mut self, count: usize, rng: &mut rand::rngs::ThreadRng) -> (washed: Vec<usize>)
        requires
            old(self).phase_view() == PourPhase::WashingAway,
            count <= lit_indices(old(self).cells_view()).len(),
        ensures
            final(self).phase_view() == PourPhase::WashingAway,
            same_layout(old(self).cells_view(), final(self).cells_view()),
            washed@.len() == count,
            washed@.no_duplicates(),
            forall|j: int| 0 <= j < washed@.len() ==> lit_indices(old(self).cells_view()).contains(#[trigger] washed@[j] as int),
            forall|i: int|
                0 <= i < old(self).cells_view().len() ==> (#[trigger] final(self).cells_view()[i]).active == (old(self).cells_view()[i].active
                    && !washed@.contains(i as usize)),
            lit_indices(final(self).cells_view()).len() == lit_indices(old(self).cells_view()).len() - count,
    {
        let ghost before = self.cells@;
        let total = self.cells.len();
        let ghost n = lit_indices(before).len();
        let mut washed: Vec<usize> = Vec::new();
        while washed.len() < count
            invariant
                self.phase_view() == PourPhase::WashingAway,
                count <= n,
                before.len() == total,
                n == lit_indices(before).len(),
                washed@.len() <= count,
                lit_indices(self.cells_view()).len() == n - washed@.len(),
                same_layout(before, self.cells_view()),
                washed@.no_duplicates(),
                forall|j: int| 0 <= j < washed@.len() ==> #[trigger] washed@[j] < before.len() && before[washed@[j] as int].active,
                forall|i: int| 0 <= i < before.len() ==> (#[trigger] self.cells_view()[i]).active == (before[i].active && !washed@.contains(i as usize)),
            decreases count - washed@.len(),
        {
            let now_lit = self.active_indices();
            assert(now_lit@.map_values(|i: usize| i as int).len() == now_lit@.len());
            let pick = random_below(rng, 0, now_lit.len());
            let ghost mid = self.cells_view();
            let idx = self.wash_one(pick);
            let ghost prev_washed = washed@;
            assert(!prev_washed.contains(idx)) by {
                if prev_washed.contains(idx) {
                    let j = choose|j: int| 0 <= j < prev_washed.len() && prev_washed[j] == idx;
                    assert(!mid[idx as int].active);
                }
            }
            washed.push(idx);
            assert forall|i: int| 0 <= i < before.len() implies (#[trigger] self.cells_view()[i]).active == (before[i].active && !washed@.contains(i as usize)) by {
                assert((i as usize) as int == i);
                if i == idx as int {
                    assert(washed@[washed@.len() - 1] == idx);
                } else {
                    assert(washed@.contains(i as usize) == prev_washed.contains(i as usize)) by {
                        if washed@.contains(i as usize) {
                            let j = choose|j: int| 0 <= j < washed@.len() && washed@[j] == i as usize;
                            assert(j < prev_washed.len());
                            assert(prev_washed[j] == i as usize);
                        }
                        if prev_washed.contains(i as usize) {
                            let j = choose|j: int| 0 <= j < prev_washed.len() && prev_washed[j] == i as usize;
                            assert(washed@[j] == i as usize);
                        }
                    }
                }
            }
            assert(before[idx as int].active) by {
                assert(mid[idx as int].active);
                assert(!prev_washed.contains(idx));
            }
        }
        proof {
            lemma_lit_indices(before);
            assert forall|j: int| 0 <= j < washed@.len() implies lit_indices(before).contains(#[trigger] washed@[j] as int) by {
                assert(before[washed@[j] as int].active);
            }
        }
        washed
    }

    /// One frame of the pour cycle. Building ends once every cell is lit;
    /// the finished logo holds until `hold_over` says its time is up; washing
    /// darkens two to four distinct lit cells picked at random (all of them
    /// where fewer are lit) and ends, back to building, once none is lit.
    pub fn update_phase(&mut self, hold_over: bool, rng: &mut rand::rngs::ThreadRng) -> (tick: PhaseTick)
        ensures
            same_layout(old(self).cells_view(), final(self).cells_view()),
            phase_step(old(self).cells_view(), old(self).phase_view(), final(self).cells_view(), final(self).phase_view()),
            ({
                let before = old(self).cells_view();
                let after = final(self).cells_view();
                let phase = old(self).phase_view();
                let lit = lit_indices(before);
                match phase {
                    PourPhase::Building => {
                        &&& after == before
                        &&& tick.washed@.len() == 0
                        &&& final(self).phase_view() == (if all_lit(before) { PourPhase::Complete } else { PourPhase::Building })
                        &&& tick.restarted == all_lit(before)
                    },
                    PourPhase::Complete => {
                        &&& after == before
                        &&& tick.washed@.len() == 0
                        &&& final(self).phase_view() == (if hold_over { PourPhase::WashingAway } else { PourPhase::Complete })
                        &&& tick.restarted == hold_over
                    },
                    PourPhase::WashingAway => {
                        &&& lit.len() == 0 ==> (after == before && tick.washed@.len() == 0 && final(self).phase_view() == PourPhase::Building && tick.restarted)
                        &&& lit.len() > 0 ==> {
                            &&& final(self).phase_view() == PourPhase::WashingAway
                            &&& !tick.restarted
                            &&& (if lit.len() < 2 { lit.len() as int } else { 2 }) <= tick.washed@.len() <= (if lit.len() < 4 { lit.len() as int } else { 4 })
                            &&& tick.washed@.no_duplicates()
                            &&& forall|j: int| 0 <= j < tick.washed@.len() ==> lit.contains(#[trigger] tick.washed@[j] as int)
                            &&& forall|i: int| 0 <= i < before.len() ==> (#[trigger] after[i]).active == (before[i].active && !tick.washed@.contains(i as usize))
                            &&& lit_indices(after).len() == lit.len() - tick.washed@.len()
                        }
                    },
                }
            }),
    {
        proof {
            use_type_invariant(&*self);
        }
        match self.phase {
            PourPhase::Building => {
                if self.all_active() {
                    self.phase = PourPhase::Complete;
                    PhaseTick { restarted: true, washed: Vec::new() }
                } else {
                    PhaseTick { restarted: false, washed: Vec::new() }
                }
            },
            PourPhase::Complete => {
                if hold_over {
                    self.phase = PourPhase::WashingAway;
                    PhaseTick { restarted: true, washed: Vec::new() }
                } else {
                    PhaseTick { restarted: false, washed: Vec::new() }
                }
            },
            PourPhase::WashingAway => {
                let lit = self.active_indices();
                proof {
                    lemma_lit_indices(self.cells@);
                }
                if lit.len() == 0 {
                    self.phase = PourPhase::Building;
                    return PhaseTick { restarted: true, washed: Vec::new() };
                }
                let k = random_below(rng, 2, 5);
                let count = if k < lit.len() { k } else { lit.len() };
                assert(lit@.map_values(|i: usize| i as int).len() == lit@.len());
                let washed = self.wash(count, rng);
                PhaseTick { restarted: false, washed }
            },
        }
    }
}

} // verus!
