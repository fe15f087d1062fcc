//! How many stars, particles and drops each screensaver keeps on screen.

use vstd::prelude::*;

verus! {

/// `v` held between `lo` and `hi`, as `Ord::clamp` does.
pub open spec fn clamped(v: int, lo: int, hi: int) -> int {
    if v < lo {
        lo
    } else if v > hi {
        hi
    } else {
        v
    }
}

/// Holding a value between two bounds: the result always lies between
/// them, a value already between them is kept, one below is raised to the
/// lower bound and one above lowered to the upper, and holding never
/// reverses the order of two values.
pub proof fn clamping_holds_between(v: int, w: int, lo: int, hi: int)
    requires
        lo <= hi,
    ensures
        lo <= clamped(v, lo, hi) <= hi,
        lo <= v <= hi ==> clamped(v, lo, hi) == v,
        v < lo ==> clamped(v, lo, hi) == lo,
        v > hi ==> clamped(v, lo, hi) == hi,
        v <= w ==> clamped(v, lo, hi) <= clamped(w, lo, hi),
{
}

/// `v` held between `lo` and `hi`.
pub fn clamp_count(v: usize, lo: usize, hi: usize) -> (r: usize)
    requires
        lo <= hi,
    ensures
        r == clamped(v as int, lo as int, hi as int),
{
    if v < lo {
        lo
    } else if v > hi {
        hi
    } else {
        v
    }
}

/// The larger of `v` and `floor`.
pub fn at_least(v: usize, floor: usize) -> (r: usize)
    ensures
        r == if v > floor { v } else { floor },
{
    if v > floor {
        v
    } else {
        floor
    }
}

/// The cell count of a terminal fits in `usize` on every platform.
pub proof fn lemma_area_fits(width: u16, height: u16)
    ensures
        width * height <= 0xfffe0001,
{
    assert(width * height <= 0xffff * 0xffff) by (nonlinear_arith)
        requires
            width <= 0xffff,
            height <= 0xffff,
    ;
}

/// Stars of the beams screensaver: about one per 32 cells, between 30 and
/// 300.
pub fn beams_star_target(width: u16, height: u16) -> (n: usize)
    ensures
        n == clamped(width * height / 32, 30, 300),
        30 <= n <= 300,
{
    proof {
        lemma_area_fits(width, height);
    }
    let area = width as usize * height as usize;
    clamp_count(area / 32, 30, 300)
}

/// Dust particles of the beams screensaver: about one per 24 cells, between
/// 30 and 250.
pub fn beams_dust_target(width: u16, height: u16) -> (n: usize)
    ensures
        n == clamped(width * height / 24, 30, 250),
        30 <= n <= 250,
{
    proof {
        lemma_area_fits(width, height);
    }
    let area = width as usize * height as usize;
    clamp_count(area / 24, 30, 250)
}

/// Falling drops of the pour screensaver: four per three columns, between 20
/// and 150.
pub fn pour_drop_target(width: u16) -> (n: usize)
    ensures
        n == clamped(width * 4 / 3, 20, 150),
        20 <= n <= 150,
{
    clamp_count(width as usize * 4 / 3, 20, 150)
}

/// Tunnel stars of the wormhole screensaver: two per column, between 80 and
/// 240.
pub fn wormhole_star_target(width: u16) -> (n: usize)
    ensures
        n == clamped(width * 2, 80, 240),
        80 <= n <= 240,
{
    clamp_count(width as usize * 2, 80, 240)
}

/// Rain drops the matrix screensaver starts with: three per column, at least
/// 60.
pub fn matrix_initial_drops(width: u16) -> (n: usize)
    ensures
        n == if width * 3 > 60 { width * 3 } else { 60 },
{
    at_least(width as usize * 3, 60)
}

/// The matrix screensaver's density cap: three drops per column, at least 80.
pub fn matrix_density_cap(width: u16) -> (n: usize)
    ensures
        n == if width * 3 > 80 { width * 3 } else { 80 },
{
    at_least(width as usize * 3, 80)
}

/// The matrix screensaver's density cap: three drops per column, at least 80.
pub open spec fn matrix_cap(width: u16) -> int {
    if width * 3 > 80 {
        width * 3
    } else {
        80
    }
}

/// How many drops are left after the density trim.
pub open spec fn matrix_trimmed(count: int, width: u16) -> int {
    if count > matrix_cap(width) + 80 {
        matrix_cap(width)
    } else {
        count
    }
}

/// After the trim the classic rain never holds more than its cap plus 80
/// drops, and a frame that adds at most one drop to a trimmed rain keeps
/// it so.
pub proof fn matrix_rain_stays_bounded(count: int, width: u16)
    requires
        0 <= count,
    ensures
        matrix_trimmed(count, width) <= matrix_cap(width) + 80,
        count <= matrix_cap(width) + 80 ==> matrix_trimmed(count + 1, width) <= matrix_cap(width) + 80,
{
}

/// The length to which the matrix screensaver cuts its drops: the density
/// cap, once more than 80 drops above it have piled up; `None` otherwise.
pub fn matrix_trim(count: usize, width: u16) -> (cut: Option<usize>)
    ensures
        count > matrix_cap(width) + 80 ==> cut == Some(matrix_cap(width) as usize),
        count <= matrix_cap(width) + 80 ==> cut is None,
{
    let target = matrix_density_cap(width);
    if count > target + 80 {
        Some(target)
    } else {
        None
    }
}

/// How a collection of `current` items reaches `target` items.
#[derive(Clone, Copy, Debug, PartialEq, Eq)]
pub enum Adjust {
    /// Add this many fresh items at the end.
    Grow(usize),
    /// Keep the first `target` items and drop the rest.
    Shrink(usize),
    /// Already the right size.
    Keep,
}

/// The change that brings `current` items to `target`, as a value.
pub open spec fn adjustment(current: int, target: int) -> Adjust {
    if current < target {
        Adjust::Grow((target - current) as usize)
    } else if current > target {
        Adjust::Shrink(target as usize)
    } else {
        Adjust::Keep
    }
}

/// The number of items after applying `a` to `current` items.
pub open spec fn adjusted(current: int, a: Adjust) -> int {
    match a {
        Adjust::Grow(n) => current + n,
        Adjust::Shrink(to) => if to < current { to as int } else { current },
        Adjust::Keep => current,
    }
}

/// Applying the change gives exactly the target, and what was there stays:
/// growing only appends and shrinking only cuts the tail.
pub proof fn adjust_reaches_target(current: usize, target: usize)
    ensures
        adjusted(current as int, adjustment(current as int, target as int)) == target,
        adjustment(current as int, target as int) matches Adjust::Shrink(to) ==> to < current,
{
}

/// The change that brings `current` items to `target`: fresh items are
/// added while there are too few, surplus items at the end are dropped.
pub fn adjust_count(current: usize, target: usize) -> (a: Adjust)
    ensures
        a == adjustment(current as int, target as int),
        current < target ==> a == Adjust::Grow((target - current) as usize),
        current > target ==> a == Adjust::Shrink(target),
        current == target ==> a == Adjust::Keep,
{
    if current < target {
        Adjust::Grow(target - current)
    } else if current > target {
        Adjust::Shrink(target)
    } else {
        Adjust::Keep
    }
}

} // verus!
