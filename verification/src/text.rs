//! Logo text: splitting into lines, blankness, and the logo's extent.

use vstd::prelude::*;

verus! {

/// The lines of `s` read by scanning it from the front: the lines already
/// ended by a `'\n'` (each without that `'\n'` and without one `'\r'` just
/// before it), and the characters read since the last `'\n'`.
pub open spec fn scan_lines(s: Seq<char>) -> (Seq<Seq<char>>, Seq<char>)
    decreases s.len(),
{
    if s.len() == 0 {
        (Seq::empty(), Seq::empty())
    } else {
        let prev = scan_lines(s.drop_last());
        if s.last() == '\n' {
            (prev.0.push(strip_cr(prev.1)), Seq::empty())
        } else {
            (prev.0, prev.1.push(s.last()))
        }
    }
}

/// `line` without one trailing carriage return.
pub open spec fn strip_cr(line: Seq<char>) -> Seq<char> {
    if line.len() > 0 && line.last() == '\r' {
        line.drop_last()
    } else {
        line
    }
}

/// The lines of a text as `str::lines` yields them: split at `"\n"` or
/// `"\r\n"`, the final line ending optional, a final line without ending kept
/// as it stands.
pub open spec fn text_lines(s: Seq<char>) -> Seq<Seq<char>> {
    let (done, rest) = scan_lines(s);
    if rest.len() == 0 {
        done
    } else {
        done.push(rest)
    }
}

/// While scanning, neither a finished line nor the line being read holds a
/// line feed.
pub proof fn lemma_scan_has_no_newline(s: Seq<char>)
    ensures
        forall|i: int| 0 <= i < scan_lines(s).0.len() ==> !(#[trigger] scan_lines(s).0[i]).contains('\n'),
        !scan_lines(s).1.contains('\n'),
    decreases s.len(),
{
    if s.len() > 0 {
        let prev = scan_lines(s.drop_last());
        lemma_scan_has_no_newline(s.drop_last());
        if s.last() == '\n' {
            let line = strip_cr(prev.1);
            assert(!line.contains('\n')) by {
                if line.contains('\n') {
                    let j = choose|j: int| 0 <= j < line.len() && line[j] == '\n';
                    assert(prev.1[j] == '\n');
                }
            }
            assert forall|i: int| 0 <= i < scan_lines(s).0.len() implies !(#[trigger] scan_lines(s).0[i]).contains('\n') by {
                if i < prev.0.len() {
                    assert(scan_lines(s).0[i] == prev.0[i]);
                }
            }
            assert(scan_lines(s).1 =~= Seq::<char>::empty());
        } else {
            let cur = prev.1.push(s.last());
            assert(!cur.contains('\n')) by {
                if cur.contains('\n') {
                    let j = choose|j: int| 0 <= j < cur.len() && cur[j] == '\n';
                    if j < prev.1.len() {
                        assert(prev.1[j] == '\n');
                    }
                }
            }
        }
    }
}

/// No line of a text holds a line feed.
pub proof fn lines_hold_no_newline(s: Seq<char>)
    ensures
        forall|i: int| 0 <= i < text_lines(s).len() ==> !(#[trigger] text_lines(s)[i]).contains('\n'),
{
    lemma_scan_has_no_newline(s);
    let (done, rest) = scan_lines(s);
    if rest.len() > 0 {
        assert forall|i: int| 0 <= i < text_lines(s).len() implies !(#[trigger] text_lines(s)[i]).contains('\n') by {
            if i < done.len() {
                assert(text_lines(s)[i] == done[i]);
            } else {
                assert(text_lines(s)[i] == rest);
            }
        }
    }
}

/// The final line ending is optional: a text that does not already end in a
/// line ending (nor in a carriage return, which would pair up with it) has
/// the same lines once a line feed is added. The empty text is left out: it
/// has no line, and a lone line feed is one empty line.
pub proof fn final_newline_is_optional(s: Seq<char>)
    requires
        s.len() > 0,
        s.last() != '\n',
        s.last() != '\r',
    ensures
        text_lines(s.push('\n')) == text_lines(s),
{
    let t = s.push('\n');
    assert(t.drop_last() == s);
    let prev = scan_lines(s.drop_last());
    assert(s.drop_last().push(s.last()) == s);
    assert(scan_lines(s).1 == prev.1.push(s.last()));
    assert(scan_lines(s).1.len() > 0);
    assert(strip_cr(scan_lines(s).1) == scan_lines(s).1);
    assert(scan_lines(t).1.len() == 0);
}

/// Scanning text without a line feed finishes no line.
pub proof fn lemma_scan_without_newline(s: Seq<char>)
    requires
        !s.contains('\n'),
    ensures
        scan_lines(s).0.len() == 0,
        scan_lines(s).1 == s,
    decreases s.len(),
{
    if s.len() > 0 {
        assert(!s.drop_last().contains('\n')) by {
            if s.drop_last().contains('\n') {
                let j = choose|j: int| 0 <= j < s.drop_last().len() && s.drop_last()[j] == '\n';
                assert(s[j] == '\n');
            }
        }
        lemma_scan_without_newline(s.drop_last());
        assert(s.last() != '\n') by {
            assert(s[s.len() - 1] == s.last());
        }
        assert(s.drop_last().push(s.last()) == s);
    }
}

/// Scanning a first line and its line feed, then the rest.
pub proof fn lemma_scan_after_first_line(a: Seq<char>, b: Seq<char>)
    requires
        !a.contains('\n'),
    ensures
        scan_lines(a.push('\n') + b).0 == seq![strip_cr(a)] + scan_lines(b).0,
        scan_lines(a.push('\n') + b).1 == scan_lines(b).1,
    decreases b.len(),
{
    let p = a.push('\n');
    if b.len() == 0 {
        assert(p + b == p);
        assert(p.drop_last() == a);
        lemma_scan_without_newline(a);
        assert(scan_lines(b).0 =~= Seq::<Seq<char>>::empty());
        assert(seq![strip_cr(a)] + scan_lines(b).0 =~= Seq::<Seq<char>>::empty().push(strip_cr(a)));
    } else {
        assert((p + b).drop_last() == p + b.drop_last());
        assert((p + b).last() == b.last());
        lemma_scan_after_first_line(a, b.drop_last());
        assert((seq![strip_cr(a)] + scan_lines(b.drop_last()).0).push(strip_cr(scan_lines(b.drop_last()).1))
            =~= seq![strip_cr(a)] + scan_lines(b.drop_last()).0.push(strip_cr(scan_lines(b.drop_last()).1)));
    }
}

/// A text is cut into lines at each line feed: its first line (without a
/// carriage return that ends it) comes first, then the lines of the rest;
/// a text without a line feed is a single line, or none when empty.
pub proof fn lines_split_at_line_feeds(a: Seq<char>, b: Seq<char>)
    requires
        !a.contains('\n'),
    ensures
        text_lines(a.push('\n') + b) == seq![strip_cr(a)] + text_lines(b),
        a.len() > 0 ==> text_lines(a) == seq![a],
        a.len() == 0 ==> text_lines(a).len() == 0,
        strip_cr(a.push('\r')) == a,
        (a.len() == 0 || a.last() != '\r') ==> strip_cr(a) == a,
{
    lemma_scan_after_first_line(a, b);
    lemma_scan_without_newline(a);
    let rest = scan_lines(b);
    if rest.1.len() > 0 {
        assert((seq![strip_cr(a)] + rest.0).push(rest.1) =~= seq![strip_cr(a)] + rest.0.push(rest.1));
    }
    if a.len() > 0 {
        assert(Seq::<Seq<char>>::empty().push(a) =~= seq![a]);
    }
    assert(a.push('\r').drop_last() == a);
}

/// Splits `text` into its lines, as `str::lines` does.
pub fn split_lines(text: &str) -> (lines: Vec<Vec<char>>)
    ensures
        lines@.len() == text_lines(text@).len(),
        forall|i: int| 0 <= i < lines@.len() ==> #[trigger] lines@[i]@ == text_lines(text@)[i],
{
    let mut done: Vec<Vec<char>> = Vec::new();
    let mut cur: Vec<char> = Vec::new();
    for c in it: text.chars()
        invariant
            it.seq() == text@,
            done@.len() == scan_lines(text@.take(it.index() as int)).0.len(),
            forall|i: int|
                0 <= i < done@.len() ==> #[trigger] done@[i]@ == scan_lines(
                    text@.take(it.index() as int),
                ).0[i],
            cur@ == scan_lines(text@.take(it.index() as int)).1,
    {
        let ghost before = text@.take(it.index() as int);
        assert(text@.take(it.index() + 1).drop_last() == before);
        if c == '\n' {
            if cur.len() > 0 && cur[cur.len() - 1] == '\r' {
                cur.pop();
            }
            let line = cur;
            cur = Vec::new();
            done.push(line);
        } else {
            cur.push(c);
        }
    }
    assert(text@.take(text@.len() as int) == text@);
    if cur.len() > 0 {
        done.push(cur);
    }
    done
}


/// Whether `c` has the Unicode `White_Space` property, the set that
/// `char::is_whitespace` and `str::trim` go by.
pub open spec fn is_white_space(c: char) -> bool {
    let u = c as u32;
    ||| 0x9 <= u <= 0xd
    ||| u == 0x20
    ||| u == 0x85
    ||| u == 0xa0
    ||| u == 0x1680
    ||| 0x2000 <= u <= 0x200a
    ||| u == 0x2028
    ||| u == 0x2029
    ||| u == 0x202f
    ||| u == 0x205f
    ||| u == 0x3000
}

/// A text is blank when nothing is left of it after trimming white space.
pub open spec fn is_blank(s: Seq<char>) -> bool {
    forall|i: int| 0 <= i < s.len() ==> is_white_space(#[trigger] s[i])
}

/// Whether `c` has the Unicode `White_Space` property.
pub fn white_space(c: char) -> (r: bool)
    ensures
        r == is_white_space(c),
{
    let u = c as u32;
    (0x9 <= u && u <= 0xd) || u == 0x20 || u == 0x85 || u == 0xa0 || u == 0x1680 || (0x2000 <= u
        && u <= 0x200a) || u == 0x2028 || u == 0x2029 || u == 0x202f || u == 0x205f || u == 0x3000
}

/// Whether `text` is empty once trimmed (`text.trim().is_empty()`).
pub fn blank(text: &str) -> (r: bool)
    ensures
        r == is_blank(text@),
{
    for c in it: text.chars()
        invariant
            it.seq() == text@,
            forall|i: int| 0 <= i < it.index() ==> is_white_space(#[trigger] text@[i]),
    {
        if !white_space(c) {
            return false;
        }
    }
    true
}

/// The branding text shown by the screensavers: the user's own file when it
/// was read and holds more than white space, the built-in art otherwise.
/// `user_art` is what reading the user's branding file gave, `None` where
/// there is no such file or it could not be read.
pub fn load_branding(user_art: Option<String>, default_art: &str) -> (art: String)
    ensures
        art@ == (match user_art {
            Some(content) => if is_blank(content@) {
                default_art@
            } else {
                content@
            },
            None => default_art@,
        }),
{
    if let Some(content) = user_art {
        if !blank(content.as_str()) {
            return content;
        }
    }
    default_art.to_string()
}

/// The length of the longest of `lines`, 0 for none.
pub open spec fn max_line_len(lines: Seq<Seq<char>>) -> nat
    decreases lines.len(),
{
    if lines.len() == 0 {
        0
    } else {
        let rest = max_line_len(lines.drop_last());
        if lines.last().len() > rest {
            lines.last().len()
        } else {
            rest
        }
    }
}

/// The longest line is one of the lines, and none is longer.
pub proof fn longest_line_is_a_line(lines: Seq<Seq<char>>)
    ensures
        forall|r: int| 0 <= r < lines.len() ==> (#[trigger] lines[r]).len() <= max_line_len(lines),
        lines.len() > 0 ==> exists|r: int| 0 <= r < lines.len() && (#[trigger] lines[r]).len() == max_line_len(lines),
        lines.len() == 0 ==> max_line_len(lines) == 0,
    decreases lines.len(),
{
    if lines.len() > 0 {
        let init = lines.drop_last();
        longest_line_is_a_line(init);
        assert forall|r: int| 0 <= r < lines.len() implies (#[trigger] lines[r]).len() <= max_line_len(lines) by {
            if r < lines.len() - 1 {
                assert(init[r] == lines[r]);
            }
        }
        if lines.last().len() > max_line_len(init) {
            assert(lines[lines.len() - 1].len() == max_line_len(lines));
        } else if init.len() > 0 {
            let r = choose|r: int| 0 <= r < init.len() && (#[trigger] init[r]).len() == max_line_len(init);
            assert(lines[r] == init[r]);
        } else {
            assert(lines[0].len() == max_line_len(lines));
        }
    }
}

/// Width the logo takes when it has no lines.
pub const FALLBACK_LOGO_WIDTH: usize = 56;

/// The logo's width in cells: its longest line counted in characters, or the
/// fallback width for a logo without lines.
pub open spec fn logo_width_of(lines: Seq<Seq<char>>) -> nat {
    if lines.len() == 0 {
        FALLBACK_LOGO_WIDTH as nat
    } else {
        max_line_len(lines)
    }
}

/// The logo's extent in terminal cells.
#[derive(Clone, Copy, Debug, PartialEq, Eq)]
pub struct LogoSize {
    pub width: u16,
    pub height: u16,
}

/// The logo's extent as the screensavers measure it: the number of lines and
/// the longest line (56 for no lines), each cut to 16 bits as `as u16` does.
pub fn logo_size(lines: &Vec<Vec<char>>) -> (size: LogoSize)
    ensures
        size.height == lines@.len() as u16,
        size.width == logo_width_of(lines@.map_values(|l: Vec<char>| l@)) as u16,
{
    let ghost views = lines@.map_values(|l: Vec<char>| l@);
    let mut longest: usize = 0;
    let mut i: usize = 0;
    while i < lines.len()
        invariant
            i <= lines@.len(),
            views == lines@.map_values(|l: Vec<char>| l@),
            longest == max_line_len(views.take(i as int)),
        decreases lines@.len() - i,
    {
        assert(views.take(i + 1).drop_last() == views.take(i as int));
        if lines[i].len() > longest {
            longest = lines[i].len();
        }
        i += 1;
    }
    assert(views.take(lines@.len() as int) == views);
    let width = if lines.len() == 0 {
        FALLBACK_LOGO_WIDTH
    } else {
        longest
    };
    LogoSize { width: #[verifier::truncate] (width as u16), height: #[verifier::truncate] (lines.len() as u16) }
}

} // verus!
