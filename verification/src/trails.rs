//! Matrix rain: the character set, trail lengths, brightness along a trail.

use vstd::prelude::*;
use crate::random::{random_below, random_u16};

verus! {

/// The characters of the rain: the letters of OMARA, then the classic
/// matrix symbols.
pub open spec fn rain_chars() -> Seq<char> {
    seq!['O', 'M', 'A', 'R', 'A', ':', '.', '*', '"', '=', '+', '-', '>', '<', '|', '/', '\\', '0', '1']
}

/// The character pool every rain drop cycles through.
pub fn rain_charset() -> (chars: Vec<char>)
    ensures
        chars@ == rain_chars(),
        chars@ == seq!['O', 'M', 'A', 'R', 'A', ':', '.', '*', '"', '=', '+', '-', '>', '<', '|', '/', '\\', '0', '1'],
{
    let chars = vec!['O', 'M', 'A', 'R', 'A', ':', '.', '*', '"', '=', '+', '-', '>', '<', '|', '/', '\\', '0', '1'];
    assert(chars@ =~= rain_chars());
    chars
}

/// The character shown at position `i` of a trail: the pool is walked
/// cyclically from the head.
pub fn trail_glyph(chars: &Vec<char>, i: u16) -> (c: char)
    requires
        chars@.len() > 0,
    ensures
        c == chars@[(i as int) % (chars@.len() as int)],
{
    chars[i as usize % chars.len()]
}

/// Green level of trail position `i` in the dense rain: the head at 230,
/// then 180 fading by 9 a step, never below 30.
pub open spec fn dense_level(i: int) -> int {
    if i == 0 {
        230
    } else if 180 - 9 * i > 30 {
        180 - 9 * i
    } else {
        30
    }
}

/// Green level of trail position `i` in the dense rain, for any position:
/// from position 17 on the fade has reached its floor of 30.
pub fn dense_trail_level(i: u16) -> (level: u8)
    ensures
        level == dense_level(i as int),
        i == 0 ==> level == 230,
        1 <= i <= 16 ==> level == 180 - 9 * i,
        i >= 17 ==> level == 30,
{
    if i == 0 {
        230
    } else if i >= 17 {
        30
    } else {
        let fade: u16 = 180 - i * 9;
        let level: u16 = if fade > 30 { fade } else { 30 };
        level as u8
    }
}

/// Green level of trail position `i` in the classic rain: the head at 230,
/// then 195 fading by 10 a step, down to 0.
pub open spec fn rain_level(i: int) -> int {
    if i == 0 {
        230
    } else if 195 - 10 * i > 0 {
        195 - 10 * i
    } else {
        0
    }
}

/// Green level of trail position `i` in the classic rain. The product
/// `10 * i` must fit in 16 bits.
pub fn rain_trail_level(i: u16) -> (level: u8)
    requires
        i <= 6553,
    ensures
        level == rain_level(i as int),
        i == 0 ==> level == 230,
        1 <= i <= 19 ==> level == 195 - 10 * i,
        i >= 20 ==> level == 0,
{
    if i == 0 {
        230
    } else {
        let level: u16 = 195u16.saturating_sub(i * 10);
        level as u8
    }
}

/// Along a trail the light only fades: the head is the brightest cell and no
/// cell is brighter than one nearer the head, in either rain.
pub proof fn trails_fade(i: int, j: int)
    requires
        0 <= i <= j,
    ensures
        dense_level(j) <= dense_level(i),
        rain_level(j) <= rain_level(i),
        dense_level(j) <= dense_level(0),
        rain_level(j) <= rain_level(0),
{
}

/// How the trails fade, step by step: the head shines at 230; in the dense
/// rain the next cell is 171 and each further cell is 9 darker down to
/// position 16, after which the trail rests at 30; in the classic rain the
/// next cell is 185 and each further cell is 10 darker until it goes dark at
/// position 20.
pub proof fn trail_fade_steps(i: int)
    requires
        0 <= i,
    ensures
        dense_level(0) == 230,
        dense_level(1) == 171,
        (1 <= i < 16) ==> dense_level(i) - dense_level(i + 1) == 9,
        16 <= i ==> dense_level(i + 1) == 30,
        rain_level(0) == 230,
        rain_level(1) == 185,
        (1 <= i < 19) ==> rain_level(i) - rain_level(i + 1) == 10,
        19 <= i ==> rain_level(i + 1) == 0,
{
}

/// `chars` rotated left by `r`: the character at `k` is the one `r` places
/// further on, cyclically.
pub open spec fn rotated(chars: Seq<char>, r: int) -> Seq<char> {
    Seq::new(chars.len(), |k: int| chars[(k + r) % (chars.len() as int)])
}

/// `chars` rotated left by `r` places, as `slice::rotate_left` does.
pub fn rotate_charset(chars: &Vec<char>, r: usize) -> (out: Vec<char>)
    requires
        r <= chars@.len(),
    ensures
        out@ == rotated(chars@, r as int),
{
    let n = chars.len();
    let mut out: Vec<char> = Vec::new();
    let mut k: usize = 0;
    while k < n
        invariant
            n == chars@.len(),
            r <= n,
            k <= n,
            out@.len() == k,
            forall|m: int| 0 <= m < k ==> #[trigger] out@[m] == chars@[(m + r) % (n as int)],
        decreases n - k,
    {
        let idx = if k < n - r {
            k + r
        } else {
            k - (n - r)
        };
        assert(idx == (k + r) % (n as int)) by {
            let a = k + r;
            let nn = n as int;
            if a < nn {
                assert(a % nn == a) by (nonlinear_arith)
                    requires 0 <= a < nn;
            } else {
                assert(a % nn == a - nn) by (nonlinear_arith)
                    requires nn <= a < 2 * nn;
            }
        }
        out.push(chars[idx]);
        k += 1;
    }
    assert(out@ =~= rotated(chars@, r as int));
    out
}

/// Rotating left by `r` and then by the rest of the length gives the pool
/// back.
pub proof fn rotation_round_trip(chars: Seq<char>, r: int)
    requires
        0 <= r <= chars.len(),
    ensures
        rotated(rotated(chars, r), chars.len() - r) == chars,
        rotated(chars, 0) == chars,
        rotated(chars, r).len() == chars.len(),
        (0 <= r < chars.len()) ==> rotated(chars, r)[0] == chars[r],
        (0 < r <= chars.len()) ==> rotated(chars, r)[chars.len() - r] == chars[0],
{
    assert forall|k: int| 0 <= k < chars.len() implies #[trigger] rotated(chars, 0)[k] == chars[k] by {
        assert(k % (chars.len() as int) == k) by (nonlinear_arith)
            requires 0 <= k < chars.len();
    }
    assert(rotated(chars, 0) =~= chars);
    if 0 <= r < chars.len() {
        assert(r % (chars.len() as int) == r) by (nonlinear_arith)
            requires 0 <= r < chars.len();
    }
    if 0 < r <= chars.len() {
        let n = chars.len() as int;
        assert((n - r + r) % n == 0) by (nonlinear_arith)
            requires n > 0;
    }
    let n = chars.len() as int;
    let once = rotated(chars, r);
    let twice = rotated(once, n - r);
    assert forall|k: int| 0 <= k < n implies #[trigger] twice[k] == chars[k] by {
        let m = (k + (n - r)) % n;
        assert(0 <= m < n) by (nonlinear_arith)
            requires n > 0, m == (k + (n - r)) % n;
        assert((m + r) % n == k) by (nonlinear_arith)
            requires n > 0, 0 <= k < n, 0 <= r <= n, m == (k + (n - r)) % n;
    }
    assert(twice =~= chars);
}

/// The pool rotated left by a random number of places below its length.
pub fn random_rotation(chars: &Vec<char>, rng: &mut rand::rngs::ThreadRng) -> (out: Vec<char>)
    requires
        chars@.len() > 0,
    ensures
        exists|r: int| 0 <= r < chars@.len() && out@ == rotated(chars@, r),
{
    let r = random_below(rng, 0, chars.len());
    rotate_charset(chars, r)
}

/// Trail length of a fresh classic drop made from a 16-bit sample: 6 to 23.
pub fn trail_length_from(sample: u16) -> (len: u16)
    ensures
        len == sample % 18 + 6,
        6 <= len <= 23,
{
    sample % 18 + 6
}

/// Trail length of a drop added for density, from a 16-bit sample: 5 to 18.
pub fn extra_trail_length_from(sample: u16) -> (len: u16)
    ensures
        len == sample % 14 + 5,
        5 <= len <= 18,
{
    sample % 14 + 5
}

/// A random trail length for a fresh classic drop, between 6 and 23.
pub fn fresh_trail_length(rng: &mut rand::rngs::ThreadRng) -> (len: u16)
    ensures
        6 <= len <= 23,
{
    trail_length_from(random_u16(rng))
}

/// A random trail length for a drop added for density, between 5 and 18.
pub fn extra_trail_length(rng: &mut rand::rngs::ThreadRng) -> (len: u16)
    ensures
        5 <= len <= 18,
{
    extra_trail_length_from(random_u16(rng))
}

/// The three layers of the dense rain, from the main column to the rarest.
#[derive(Clone, Copy, Debug, PartialEq, Eq)]
pub enum Layer {
    Primary,
    Extra,
    Deep,
}

/// The trail lengths each layer draws from: `[lo, hi)`.
pub open spec fn layer_bounds(layer: Layer) -> (int, int) {
    match layer {
        Layer::Primary => (12, 28),
        Layer::Extra => (7, 18),
        Layer::Deep => (5, 14),
    }
}

/// A random trail length for a drop of the given layer of the dense rain.
pub fn layer_trail_length(layer: Layer, rng: &mut rand::rngs::ThreadRng) -> (len: u16)
    ensures
        layer_bounds(layer).0 <= len < layer_bounds(layer).1,
        layer == Layer::Primary ==> 12 <= len < 28,
        layer == Layer::Extra ==> 7 <= len < 18,
        layer == Layer::Deep ==> 5 <= len < 14,
{
    let (lo, hi): (usize, usize) = match layer {
        Layer::Primary => (12, 28),
        Layer::Extra => (7, 18),
        Layer::Deep => (5, 14),
    };
    let len = random_below(rng, lo, hi);
    len as u16
}

} // verus!
