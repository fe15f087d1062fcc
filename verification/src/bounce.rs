//! The bouncing logo: its colour cycle, the starfield and its lens flares.

use vstd::prelude::*;

verus! {

/// A colour as red, green and blue levels.
pub type Rgb = (u8, u8, u8);

/// The colours the bouncing logo cycles through.
pub open spec fn palette() -> Seq<Rgb> {
    seq![(180, 0, 255), (0, 200, 255), (255, 200, 0), (0, 255, 150), (255, 100, 180)]
}

/// The colours the bouncing logo cycles through, in order.
pub fn bounce_palette() -> (colors: Vec<Rgb>)
    ensures
        colors@ == palette(),
        colors@.len() == 5,
        colors@[0] == (180u8, 0u8, 255u8),
        colors@[1] == (0u8, 200u8, 255u8),
        colors@[2] == (255u8, 200u8, 0u8),
        colors@[3] == (0u8, 255u8, 150u8),
        colors@[4] == (255u8, 100u8, 180u8),
{
    let colors = vec![(180u8, 0u8, 255u8), (0, 200, 255), (255, 200, 0), (0, 255, 150), (255, 100, 180)];
    assert(colors@ =~= palette());
    colors
}

/// The logo's colour after a frame: each frame in which it hit an edge moves
/// it to the next colour of a palette of `len` colours, wrapping round.
pub fn next_color_index(index: usize, hit: bool, len: usize) -> (next: usize)
    requires
        len > 0,
        index < len,
    ensures
        next < len,
        hit ==> next == (index + 1) % (len as int),
        !hit ==> next == index,
{
    if hit {
        (index + 1) % len
    } else {
        index
    }
}

/// Number of stars in the bouncing logo's starfield.
pub const STAR_COUNT: usize = 160;

/// The glyph of star `i`: a four-pointed star for every 17th, a bullet for
/// every 7th, a dot otherwise.
pub open spec fn star_char(i: int) -> char {
    if i % 17 == 0 {
        '\u{2726}'
    } else if i % 7 == 0 {
        '\u{2022}'
    } else {
        '.'
    }
}

/// The glyph of star `i` of the starfield.
pub fn star_glyph(i: usize) -> (c: char)
    ensures
        c == star_char(i as int),
        i % 17 == 0 ==> c == '\u{2726}',
        i % 17 != 0 && i % 7 == 0 ==> c == '\u{2022}',
        i % 17 != 0 && i % 7 != 0 ==> c == '.',
{
    if i % 17 == 0 {
        '\u{2726}'
    } else if i % 7 == 0 {
        '\u{2022}'
    } else {
        '.'
    }
}

/// The starfield's glyphs: a four-pointed star on every multiple of 17, a
/// bullet on every other multiple of 7, a dot elsewhere; the pattern repeats
/// every 119 stars.
pub proof fn starfield_pattern(i: int)
    requires
        0 <= i,
    ensures
        i % 17 == 0 ==> star_char(i) == '\u{2726}',
        (i % 17 != 0 && i % 7 == 0) ==> star_char(i) == '\u{2022}',
        (i % 17 != 0 && i % 7 != 0) ==> star_char(i) == '.',
        star_char(i + 119) == star_char(i),
        star_level(i + 36) == star_level(i),
        i % 9 == 0 ==> star_level(i) == 200,
        (i % 9 != 0 && i % 4 == 0) ==> star_level(i) == 140,
        (i % 9 != 0 && i % 4 != 0) ==> star_level(i) == 80,
{
    assert((i + 119) % 17 == i % 17 && (i + 119) % 7 == i % 7) by (nonlinear_arith)
        requires 0 <= i;
    assert((i + 36) % 9 == i % 9 && (i + 36) % 4 == i % 4) by (nonlinear_arith)
        requires 0 <= i;
}

/// The grey level of star `i`: 200 for every 9th, 140 for every 4th, 80
/// otherwise.
pub open spec fn star_level(i: int) -> u8 {
    if i % 9 == 0 {
        200
    } else if i % 4 == 0 {
        140
    } else {
        80
    }
}

/// The resting colour of star `i`: grey with a touch more blue.
pub fn star_base_color(i: usize) -> (c: Rgb)
    ensures
        c == (star_level(i as int), star_level(i as int), (star_level(i as int) + 25) as u8),
        c.0 == c.1 && c.2 == c.0 + 25,
        i % 9 == 0 ==> c.0 == 200,
        i % 9 != 0 && i % 4 == 0 ==> c.0 == 140,
        i % 9 != 0 && i % 4 != 0 ==> c.0 == 80,
{
    let level: u8 = if i % 9 == 0 {
        200
    } else if i % 4 == 0 {
        140
    } else {
        80
    };
    (level, level, level + 25)
}

/// `v` cut to 8 bits, as `as u8` does for a value of `-128..=127`.
pub open spec fn wrap_u8(v: int) -> int {
    if v < 0 {
        v + 256
    } else {
        v
    }
}

/// `a + b` held at 255, as `u8::saturating_add` does.
pub open spec fn sat_add(a: int, b: int) -> int {
    if a + b > 255 {
        255
    } else {
        a + b
    }
}

/// The tint a star gets from its sparkle: the sparkle held to `-55..=55`
/// and cut to 8 bits is added, held at 255, to red, its half to green and its
/// third to blue.
pub open spec fn sparkle_tint(base: Rgb, sparkle: i16) -> Rgb {
    let s: int = if sparkle < -55 {
        -55
    } else if sparkle > 55 {
        55
    } else {
        sparkle as int
    };
    let adj = wrap_u8(s);
    (sat_add(base.0 as int, adj) as u8, sat_add(base.1 as int, adj / 2) as u8, sat_add(base.2 as int, adj / 3) as u8)
}

/// A star's colour for a frame, given its resting colour and its sparkle.
pub fn sparkle_color(base: Rgb, sparkle: i16) -> (c: Rgb)
    ensures
        c == sparkle_tint(base, sparkle),
{
    let held: i16 = if sparkle < -55 {
        -55
    } else if sparkle > 55 {
        55
    } else {
        sparkle
    };
    let adj: u8 = if held < 0 {
        (held + 256) as u8
    } else {
        held as u8
    };
    (base.0.saturating_add(adj), base.1.saturating_add(adj / 2), base.2.saturating_add(adj / 3))
}

/// The stars that carry lens flares.
pub fn flare_stars() -> (stars: Vec<usize>)
    ensures
        stars@ == seq![7usize, 29, 61],
{
    let stars = vec![7usize, 29, 61];
    assert(stars@ =~= seq![7usize, 29, 61]);
    stars
}

/// One cell of a lens flare.
#[derive(Clone, Copy, Debug, PartialEq, Eq)]
pub struct FlareCell {
    pub x: u16,
    pub y: u16,
    pub ch: char,
    pub color: Rgb,
}

/// The horizontal rays of a flare on `(sx, sy)`, out to `n` cells on each
/// side: at distance `d` a ray cell to the right (where it falls left of
/// column `w`), then one to the left (where there is room), dimming with
/// distance.
pub open spec fn ray_cells_h(sx: u16, sy: u16, w: u16, n: int) -> Seq<FlareCell>
    decreases n,
{
    if n <= 0 {
        Seq::empty()
    } else {
        let a = (80 - 12 * n) as u8;
        let color: Rgb = (a, a, (a + 30) as u8);
        let right = if sx + n < w {
            seq![FlareCell { x: (sx + n) as u16, y: sy, ch: '\u{2500}', color }]
        } else {
            Seq::empty()
        };
        let left = if sx >= n {
            seq![FlareCell { x: (sx - n) as u16, y: sy, ch: '\u{2500}', color }]
        } else {
            Seq::empty()
        };
        ray_cells_h(sx, sy, w, n - 1) + right + left
    }
}

/// The vertical rays of a flare on `(sx, sy)`, out to `n` cells above and
/// below: at distance `d` a cell below (where it falls above row `h`), then
/// one above (where there is room), dimming with distance.
pub open spec fn ray_cells_v(sx: u16, sy: u16, h: u16, n: int) -> Seq<FlareCell>
    decreases n,
{
    if n <= 0 {
        Seq::empty()
    } else {
        let a = (70 - 15 * n) as u8;
        let color: Rgb = (a, a, (a + 20) as u8);
        let down = if sy + n < h {
            seq![FlareCell { x: sx, y: (sy + n) as u16, ch: '\u{2502}', color }]
        } else {
            Seq::empty()
        };
        let up = if sy >= n {
            seq![FlareCell { x: sx, y: (sy - n) as u16, ch: '\u{2502}', color }]
        } else {
            Seq::empty()
        };
        ray_cells_v(sx, sy, h, n - 1) + down + up
    }
}

/// The cells of the lens flare on the star at `(sx, sy)` of a `w` by `h`
/// screen: five cells of horizontal ray each side, then three of vertical ray
/// each side.
pub fn flare_cells(sx: u16, sy: u16, w: u16, h: u16) -> (cells: Vec<FlareCell>)
    requires
        sx + 5 <= u16::MAX,
        sy + 3 <= u16::MAX,
    ensures
        cells@ == ray_cells_h(sx, sy, w, 5) + ray_cells_v(sx, sy, h, 3),
{
    let mut cells: Vec<FlareCell> = Vec::new();
    let mut dx: u16 = 1;
    while dx < 6
        invariant
            1 <= dx <= 6,
            sx + 5 <= u16::MAX,
            cells@ == ray_cells_h(sx, sy, w, dx - 1),
        decreases 6 - dx,
    {
        let a: u8 = 80 - (dx as u8) * 12;
        let color: Rgb = (a, a, a + 30);
        if sx + dx < w {
            cells.push(FlareCell { x: sx + dx, y: sy, ch: '\u{2500}', color });
        }
        if sx >= dx {
            cells.push(FlareCell { x: sx - dx, y: sy, ch: '\u{2500}', color });
        }
        assert(cells@ =~= ray_cells_h(sx, sy, w, dx as int)) by {
            assert(ray_cells_h(sx, sy, w, dx as int) == ray_cells_h(sx, sy, w, dx - 1) + (if sx + dx < w {
                seq![FlareCell { x: (sx + dx) as u16, y: sy, ch: '\u{2500}', color }]
            } else {
                Seq::empty()
            }) + (if sx >= dx {
                seq![FlareCell { x: (sx - dx) as u16, y: sy, ch: '\u{2500}', color }]
            } else {
                Seq::empty()
            }));
        }
        dx += 1;
    }
    let ghost horizontal = cells@;
    let mut dy: u16 = 1;
    while dy < 4
        invariant
            1 <= dy <= 4,
            sy + 3 <= u16::MAX,
            horizontal == ray_cells_h(sx, sy, w, 5),
            cells@ == horizontal + ray_cells_v(sx, sy, h, dy - 1),
        decreases 4 - dy,
    {
        let a: u8 = 70 - (dy as u8) * 15;
        let color: Rgb = (a, a, a + 20);
        if sy + dy < h {
            cells.push(FlareCell { x: sx, y: sy + dy, ch: '\u{2502}', color });
        }
        if sy >= dy {
            cells.push(FlareCell { x: sx, y: sy - dy, ch: '\u{2502}', color });
        }
        assert(cells@ =~= horizontal + ray_cells_v(sx, sy, h, dy as int)) by {
            assert(ray_cells_v(sx, sy, h, dy as int) == ray_cells_v(sx, sy, h, dy - 1) + (if sy + dy < h {
                seq![FlareCell { x: sx, y: (sy + dy) as u16, ch: '\u{2502}', color }]
            } else {
                Seq::empty()
            }) + (if sy >= dy {
                seq![FlareCell { x: sx, y: (sy - dy) as u16, ch: '\u{2502}', color }]
            } else {
                Seq::empty()
            }));
        }
        dy += 1;
    }
    cells
}

} // verus!
