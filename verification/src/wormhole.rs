//! The wormhole screensaver: tunnel star symbols and letters of the logo
//! that zoom out of the tunnel.

use vstd::prelude::*;
use crate::random::random_below;
use crate::layout::line_views;

verus! {

/// The symbols of the tunnel stars.
pub open spec fn star_chars() -> Seq<char> {
    seq!['.', '*', 'o', 'O', '+', 'x']
}

/// The symbols of the tunnel stars.
pub fn star_symbols() -> (chars: Vec<char>)
    ensures
        chars@ == star_chars(),
        chars@ == seq!['.', '*', 'o', 'O', '+', 'x'],
{
    let chars = vec!['.', '*', 'o', 'O', '+', 'x'];
    assert(chars@ =~= star_chars());
    chars
}

/// Star symbol number `k`.
pub fn star_symbol_at(k: usize) -> (c: char)
    requires
        k < star_chars().len(),
    ensures
        c == star_chars()[k as int],
{
    let chars = star_symbols();
    chars[k]
}

/// A star symbol picked at random.
pub fn random_star_symbol(rng: &mut rand::rngs::ThreadRng) -> (c: char)
    ensures
        star_chars().contains(c),
{
    let k = random_below(rng, 0, 6);
    let c = star_symbol_at(k);
    assert(star_chars()[k as int] == c);
    c
}

/// Most zoom letters in flight at once.
pub const MAX_ZOOM_LETTERS: usize = 16;

/// Whether another zoom letter may be launched while `count` are in flight.
pub fn zoom_room(count: usize) -> (r: bool)
    ensures
        r == (count < MAX_ZOOM_LETTERS),
{
    count < MAX_ZOOM_LETTERS
}

/// Launching a letter only where [`zoom_room`] allows keeps at most 16 in
/// flight.
pub proof fn zoom_letters_capped(count: usize)
    requires
        count <= MAX_ZOOM_LETTERS,
    ensures
        (if count < MAX_ZOOM_LETTERS { count + 1 } else { count as int }) <= MAX_ZOOM_LETTERS,
{
}

/// The characters of `line` other than spaces, in order.
pub open spec fn ink(line: Seq<char>) -> Seq<char> {
    line.filter(|c: char| c != ' ')
}

/// The characters of `line` other than spaces, in order.
pub fn ink_chars(line: &Vec<char>) -> (chars: Vec<char>)
    ensures
        chars@ == ink(line@),
{
    let mut chars: Vec<char> = Vec::new();
    let mut i: usize = 0;
    while i < line.len()
        invariant
            i <= line@.len(),
            chars@ == ink(line@.take(i as int)),
        decreases line@.len() - i,
    {
        proof {
            reveal(Seq::filter);
        }
        assert(line@.take(i + 1).drop_last() == line@.take(i as int));
        assert(line@.take(i + 1).last() == line@[i as int]);
        if line[i] != ' ' {
            chars.push(line[i]);
        }
        i += 1;
    }
    assert(line@.take(line@.len() as int) == line@);
    chars
}

/// Character number `k` of `line` other than spaces.
pub fn ink_char_at(line: &Vec<char>, k: usize) -> (c: char)
    requires
        k < ink(line@).len(),
    ensures
        c == ink(line@)[k as int],
{
    let chars = ink_chars(line);
    chars[k]
}

/// A character of `line` other than a space, picked at random; `None`
/// where the line has none.
pub fn zoom_glyph_in_line(line: &Vec<char>, rng: &mut rand::rngs::ThreadRng) -> (c: Option<char>)
    ensures
        c is None <==> ink(line@).len() == 0,
        c matches Some(ch) ==> ch != ' ' && ink(line@).contains(ch) && line@.contains(ch),
{
    let inked = ink_chars(line);
    if inked.len() == 0 {
        None
    } else {
        let k = random_below(rng, 0, inked.len());
        let ch = ink_char_at(line, k);
        proof {
            lemma_ink_source(line@, k as int);
        }
        Some(ch)
    }
}

/// A letter of the logo to send zooming out of the tunnel: a line among the
/// first `logo_height` is picked at random, then one of its characters other
/// than a space; `None` where that line has none.
pub fn pick_zoom_glyph(lines: &Vec<Vec<char>>, logo_height: u16, rng: &mut rand::rngs::ThreadRng) -> (c: Option<char>)
    requires
        0 < logo_height <= lines@.len(),
    ensures
        exists|r: int|
            0 <= r < logo_height && (c is None <==> #[trigger] ink(line_views(lines@)[r]).len() == 0)
                && (c matches Some(ch) ==> ch != ' ' && ink(line_views(lines@)[r]).contains(ch)),
{
    let r = random_below(rng, 0, logo_height as usize);
    let c = zoom_glyph_in_line(&lines[r], rng);
    assert(line_views(lines@)[r as int] == lines@[r as int]@);
    c
}

/// A line's ink is exactly its characters other than spaces: every one of
/// them is kept, no space is, and nothing else comes in.
pub proof fn ink_is_the_non_spaces(line: Seq<char>, c: char)
    ensures
        (line.contains(c) && c != ' ') ==> ink(line).contains(c),
        ink(line).contains(c) ==> line.contains(c) && c != ' ',
        ink(line).len() <= line.len(),
        (forall|i: int| 0 <= i < line.len() ==> #[trigger] line[i] == ' ') ==> ink(line).len() == 0,
{
    broadcast use vstd::seq_lib::group_filter_ensures;
    if line.contains(c) && c != ' ' {
        let i = choose|i: int| 0 <= i < line.len() && line[i] == c;
        line.lemma_filter_contains(|x: char| x != ' ', i);
    }
    if ink(line).contains(c) {
        let k = choose|k: int| 0 <= k < ink(line).len() && ink(line)[k] == c;
        lemma_ink_source(line, k);
    }
    if forall|i: int| 0 <= i < line.len() ==> #[trigger] line[i] == ' ' {
        if ink(line).len() > 0 {
            lemma_ink_source(line, 0);
            let j = choose|j: int| 0 <= j < line.len() && line[j] == ink(line)[0];
            assert(line[j] == ' ');
        }
    }
}

/// Character `k` of a line's ink is no space and stands in the line.
pub proof fn lemma_ink_source(line: Seq<char>, k: int)
    requires
        0 <= k < ink(line).len(),
    ensures
        ink(line)[k] != ' ',
        line.contains(ink(line)[k]),
{
    line.lemma_filter_pred(|c: char| c != ' ', k);
    assert(ink(line).contains(ink(line)[k]));
    lemma_filter_member(line, ink(line)[k]);
}

/// A character kept by the filter comes from the line.
pub proof fn lemma_filter_member(line: Seq<char>, ch: char)
    requires
        ink(line).contains(ch),
    ensures
        line.contains(ch),
    decreases line.len(),
{
    reveal(Seq::filter);
    if line.len() > 0 {
        let init = line.drop_last();
        if ink(init).contains(ch) {
            lemma_filter_member(init, ch);
            let j = choose|j: int| 0 <= j < init.len() && init[j] == ch;
            assert(line[j] == ch);
        } else {
            assert(line[line.len() - 1] == ch);
        }
    }
}

} // verus!
