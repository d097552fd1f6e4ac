//! Glyph measurements and the selection of printable characters.

use vstd::prelude::*;

verus! {

/// How many ASCII code points there are; the size table holds one entry for
/// each of them.
pub const ASCII_COUNT: usize = 128;

/// The measured bounding-box sizes of a font at one fixed scale, one
/// `(width, height)` pair per ASCII code point.
///
/// The pipeline enumerates the code points 0 through 255 and rejects those
/// that are not ASCII, so only the code points 0 through 127 can ever appear
/// in the atlas; this table holds, for each of those, the size that the font
/// reports for the corresponding one-character string at the chosen scale.
pub struct GlyphSizes {
    sizes: Vec<(u32, u32)>,
}

impl GlyphSizes {
    /// The table is well formed when it holds exactly one entry per ASCII
    /// code point.
    pub closed spec fn wf(&self) -> bool {
        self.sizes@.len() == ASCII_COUNT
    }

    /// The measured (width, height) of code point `c`.
    pub closed spec fn size_of(&self, c: int) -> (u32, u32) {
        self.sizes@[c]
    }

    /// Builds a size table from one `(width, height)` pair per ASCII code
    /// point, in code-point order; rejects a table of any other length.
    pub fn new(sizes: Vec<(u32, u32)>) -> (r: Option<GlyphSizes>)
        ensures
            r is Some <==> sizes@.len() == ASCII_COUNT,
            r matches Some(g) ==> g.wf()
                && (forall|c: int| 0 <= c < ASCII_COUNT ==> g.size_of(c) == sizes@[c]),
    {
        if sizes.len() == ASCII_COUNT {
            Some(GlyphSizes { sizes })
        } else {
            None
        }
    }

    /// The measured size of the ASCII character `c`.
    pub fn size(&self, c: char) -> (r: (u32, u32))
        requires
            self.wf(),
            c as u32 <= 127,
        ensures
            r == self.size_of(c as int),
    {
        let code: usize = c as usize;
        self.sizes[code]
    }
}

/// A code point is selected for the atlas when it is ASCII and the font
/// measures it with an extent other than exactly (0, 0) on both axes.
pub open spec fn selected(g: &GlyphSizes, c: int) -> bool {
    &&& 0 <= c <= 127
    &&& !(g.size_of(c).0 == 0 && g.size_of(c).1 == 0)
}

/// The selected characters among the code points below `n`, in ascending
/// code-point order.
pub open spec fn selection_upto(g: &GlyphSizes, n: int) -> Seq<char>
    decreases n,
{
    if n <= 0 {
        Seq::empty()
    } else if selected(g, n - 1) {
        selection_upto(g, n - 1).push(((n - 1) as u8) as char)
    } else {
        selection_upto(g, n - 1)
    }
}

/// The full selected character sequence of a size table: the atlas's
/// left-to-right glyph order.
pub open spec fn selection(g: &GlyphSizes) -> Seq<char> {
    selection_upto(g, ASCII_COUNT as int)
}

/// Every character of `selection_upto(g, n)` has a code point below `n` and
/// is selected, and the sequence is strictly ascending.
pub proof fn lemma_selection_upto(g: &GlyphSizes, n: int)
    requires
        n <= 128,
    ensures
        forall|i: int| 0 <= i < selection_upto(g, n).len()
            ==> ((#[trigger] selection_upto(g, n)[i]) as u32) < n
                && selected(g, selection_upto(g, n)[i] as int),
        forall|i: int, j: int| 0 <= i < j < selection_upto(g, n).len()
            ==> ((#[trigger] selection_upto(g, n)[i]) as u32)
                < ((#[trigger] selection_upto(g, n)[j]) as u32),
    decreases n,
{
    if n > 0 {
        lemma_selection_upto(g, n - 1);
        let prev = selection_upto(g, n - 1);
        let s = selection_upto(g, n);
        if selected(g, n - 1) {
            let ch = ((n - 1) as u8) as char;
            assert(ch as u32 == n - 1);
            assert(s == prev.push(ch));
            assert forall|i: int| 0 <= i < s.len()
                implies ((#[trigger] s[i]) as u32) < n && selected(g, s[i] as int) by {
                if i < prev.len() {
                    assert(s[i] == prev[i]);
                } else {
                    assert(s[i] == ch);
                }
            }
            assert forall|i: int, j: int| 0 <= i < j < s.len()
                implies ((#[trigger] s[i]) as u32) < ((#[trigger] s[j]) as u32) by {
                if j < prev.len() {
                    assert(s[i] == prev[i] && s[j] == prev[j]);
                } else {
                    assert(s[j] == ch);
                    assert(s[i] == prev[i]);
                    assert((prev[i] as u32) < n - 1);
                }
            }
        } else {
            assert(s == prev);
        }
    }
}

/// A character is in `selection_upto(g, n)` exactly when its code point is
/// below `n` and it is selected.
pub proof fn lemma_selection_upto_contains(g: &GlyphSizes, n: int, c: char)
    requires
        n <= 128,
    ensures
        selection_upto(g, n).contains(c) <==> ((c as int) < n && selected(g, c as int)),
    decreases n,
{
    let s = selection_upto(g, n);
    if n > 0 {
        lemma_selection_upto_contains(g, n - 1, c);
        let prev = selection_upto(g, n - 1);
        if selected(g, n - 1) {
            let ch = ((n - 1) as u8) as char;
            assert(ch as u32 == n - 1);
            assert(s == prev.push(ch));
            if s.contains(c) {
                let i = choose|i: int| 0 <= i < s.len() && s[i] == c;
                if i < prev.len() {
                    assert(prev[i] == c);
                    assert(prev.contains(c));
                } else {
                    assert(c == ch);
                }
            }
            if (c as int) < n && selected(g, c as int) {
                if (c as int) < n - 1 {
                    assert(prev.contains(c));
                    let i = choose|i: int| 0 <= i < prev.len() && prev[i] == c;
                    assert(s[i] == c);
                    assert(s.contains(c));
                } else {
                    assert(c as int == ch as int);
                    assert(c == ch);
                    assert(s[prev.len() as int] == c);
                    assert(s.contains(c));
                }
            }
        } else {
            assert(s == prev);
        }
    }
}

/// The selection over the code points below `n` never holds more than `n`
/// characters.
pub proof fn lemma_selection_upto_len(g: &GlyphSizes, n: int)
    requires
        n >= 0,
    ensures
        selection_upto(g, n).len() <= n,
    decreases n,
{
    if n > 0 {
        lemma_selection_upto_len(g, n - 1);
    }
}

/// Law: the selected character sequence is strictly ascending in code-point
/// order and contains only ASCII characters.
pub proof fn lemma_selection_ascending(g: &GlyphSizes)
    ensures
        forall|i: int, j: int| 0 <= i < j < selection(g).len()
            ==> ((#[trigger] selection(g)[i]) as u32)
                < ((#[trigger] selection(g)[j]) as u32),
        forall|i: int| 0 <= i < selection(g).len()
            ==> ((#[trigger] selection(g)[i]) as u32) <= 127,
{
    lemma_selection_upto(g, 128);
}

/// Law: every character of the selected sequence has a measured bounding box
/// other than exactly (0, 0) on both axes.
pub proof fn lemma_selection_visible(g: &GlyphSizes)
    ensures
        forall|i: int| 0 <= i < selection(g).len()
            ==> selected(g, (#[trigger] selection(g)[i]) as int),
{
    lemma_selection_upto(g, 128);
}

/// Law: the selection holds a character exactly when it is ASCII and its
/// measured size is not exactly (0, 0); nothing else is ever included, and
/// nothing eligible is ever dropped.
pub proof fn lemma_selection_complete(g: &GlyphSizes, c: char)
    ensures
        selection(g).contains(c) <==> selected(g, c as int),
{
    lemma_selection_upto_contains(g, 128, c);
}

/// Enumerates the code points 0 through 255, rejects those that are not
/// ASCII, and keeps each remaining character whose measured size is not
/// exactly (0, 0): the atlas's character sequence, in ascending code-point
/// order.
pub fn get_printable_chars(font: &GlyphSizes) -> (r: Vec<char>)
    requires
        font.wf(),
    ensures
        r@ == selection(font),
{
    let mut chars: Vec<char> = Vec::new();
    let mut code: u32 = 0;
    while code < 256
        invariant
            font.wf(),
            code <= 256,
            chars@ == selection_upto(font, if code <= 128 { code as int } else { 128 }),
        decreases 256 - code,
    {
        if code <= 127 {
            let c: char = (code as u8) as char;
            assert(c as u32 == code);
            let (w, h) = font.size(c);
            if !(w == 0 && h == 0) {
                chars.push(c);
            }
            assert(chars@ =~= selection_upto(font, code + 1));
        }
        code = code + 1;
    }
    chars
}

/// Law: the selection is non-empty exactly when some code point qualifies:
/// the pipeline runs out of glyphs precisely when no ASCII code point
/// measures a nonzero extent.
pub proof fn lemma_selection_nonempty(g: &GlyphSizes)
    ensures
        selection(g).len() > 0 <==> exists|c: int| selected(g, c),
{
    if selection(g).len() > 0 {
        lemma_selection_visible(g);
        assert(selected(g, selection(g)[0] as int));
    }
    if exists|c: int| selected(g, c) {
        let c = choose|c: int| selected(g, c);
        let ch = (c as u8) as char;
        assert(ch as int == c);
        lemma_selection_upto_contains(g, 128, ch);
        assert(selection(g).contains(ch));
    }
}

/// The larger of the two measured axes of code point `c`: what one
/// character asks of the square cell's edge.
pub open spec fn cell_of(g: &GlyphSizes, c: int) -> u32 {
    let wh = g.size_of(c);
    if wh.0 >= wh.1 {
        wh.0
    } else {
        wh.1
    }
}

/// The maximum, over a character sequence, of each character's
/// max(width, height); 0 for the empty sequence.
pub open spec fn max_cell(g: &GlyphSizes, chars: Seq<char>) -> u32
    decreases chars.len(),
{
    if chars.len() == 0 {
        0u32
    } else {
        let rest = max_cell(g, chars.drop_last());
        let last = cell_of(g, chars.last() as int);
        if last >= rest {
            last
        } else {
            rest
        }
    }
}

/// Law: the cell size is an upper bound on every listed character's
/// max(width, height), and is attained by one of them — it is the maximum
/// of the per-character maxima, not of the widths or heights alone.
pub proof fn lemma_max_cell_bounds(g: &GlyphSizes, chars: Seq<char>)
    requires
        chars.len() > 0,
    ensures
        forall|i: int| 0 <= i < chars.len()
            ==> cell_of(g, (#[trigger] chars[i]) as int) <= max_cell(g, chars),
        exists|i: int| 0 <= i < chars.len()
            && cell_of(g, (#[trigger] chars[i]) as int) == max_cell(g, chars),
    decreases chars.len(),
{
    if chars.len() == 1 {
        assert(chars.drop_last().len() == 0);
        assert(max_cell(g, chars.drop_last()) == 0);
        assert(cell_of(g, chars[0] as int) == max_cell(g, chars));
    } else {
        let prev = chars.drop_last();
        lemma_max_cell_bounds(g, prev);
        assert forall|i: int| 0 <= i < chars.len()
            implies cell_of(g, (#[trigger] chars[i]) as int) <= max_cell(g, chars) by {
            if i < prev.len() {
                assert(chars[i] == prev[i]);
            }
        }
        if cell_of(g, chars.last() as int) >= max_cell(g, prev) {
            assert(cell_of(g, chars[chars.len() - 1] as int) == max_cell(g, chars));
        } else {
            let k = choose|k: int| 0 <= k < prev.len()
                && cell_of(g, (#[trigger] prev[k]) as int) == max_cell(g, prev);
            assert(chars[k] == prev[k]);
            assert(cell_of(g, chars[k] as int) == max_cell(g, chars));
        }
    }
}

/// Law: with a non-empty selection the cell size is at least 1: every
/// selected character has a nonzero extent on at least one axis.
pub proof fn lemma_cell_size_positive(g: &GlyphSizes)
    requires
        selection(g).len() > 0,
    ensures
        max_cell(g, selection(g)) >= 1,
{
    lemma_selection_visible(g);
    lemma_max_cell_bounds(g, selection(g));
    let s = selection(g);
    let k = choose|k: int| 0 <= k < s.len()
        && cell_of(g, (#[trigger] s[k]) as int) == max_cell(g, s);
    assert(selected(g, s[k] as int));
}

/// Two size tables that agree on every ASCII code point select the same
/// characters among the code points below `n`.
proof fn lemma_selection_upto_deterministic(g1: &GlyphSizes, g2: &GlyphSizes, n: int)
    requires
        n <= 128,
        forall|c: int| 0 <= c <= 127 ==> g1.size_of(c) == g2.size_of(c),
    ensures
        selection_upto(g1, n) == selection_upto(g2, n),
    decreases n,
{
    if n > 0 {
        lemma_selection_upto_deterministic(g1, g2, n - 1);
        assert(selected(g1, n - 1) <==> selected(g2, n - 1));
    }
}

/// Law: the selection is a function of the measured sizes alone — two size
/// tables that agree on every ASCII code point select the same characters.
pub proof fn lemma_selection_deterministic(g1: &GlyphSizes, g2: &GlyphSizes)
    requires
        forall|c: int| 0 <= c <= 127 ==> g1.size_of(c) == g2.size_of(c),
    ensures
        selection(g1) == selection(g2),
{
    lemma_selection_upto_deterministic(g1, g2, 128);
}

/// Law: the cell size is a function of the measured sizes alone — over ASCII
/// characters, two size tables that agree on every ASCII code point give
/// every character sequence the same maximum.
pub proof fn lemma_max_cell_deterministic(g1: &GlyphSizes, g2: &GlyphSizes, chars: Seq<char>)
    requires
        forall|c: int| 0 <= c <= 127 ==> g1.size_of(c) == g2.size_of(c),
        forall|i: int| 0 <= i < chars.len() ==> 0 <= ((#[trigger] chars[i]) as int) <= 127,
    ensures
        max_cell(g1, chars) == max_cell(g2, chars),
    decreases chars.len(),
{
    if chars.len() > 0 {
        let prev = chars.drop_last();
        assert forall|i: int| 0 <= i < prev.len()
            implies 0 <= ((#[trigger] prev[i]) as int) <= 127 by {
            assert(prev[i] == chars[i]);
        }
        lemma_max_cell_deterministic(g1, g2, prev);
        let c = chars.last();
        assert(chars[chars.len() - 1] == c);
        assert(0 <= c as int <= 127);
        assert(g1.size_of(c as int) == g2.size_of(c as int));
        assert(cell_of(g1, c as int) == cell_of(g2, c as int));
    }
}

/// The fixed cell edge length: the maximum, over the given characters, of
/// max(width, height) for that character. A maximum over an empty sequence
/// is undefined, and an empty selection is a fatal error of the pipeline, so
/// the sequence must be non-empty here.
pub fn max_size(font: &GlyphSizes, printable_chars: &Vec<char>) -> (r: u32)
    requires
        font.wf(),
        printable_chars@.len() > 0,
        forall|i: int| 0 <= i < printable_chars@.len()
            ==> ((#[trigger] printable_chars@[i]) as u32) <= 127,
    ensures
        r == max_cell(font, printable_chars@),
{
    let mut best: u32 = 0;
    let mut i: usize = 0;
    while i < printable_chars.len()
        invariant
            font.wf(),
            i <= printable_chars@.len(),
            forall|k: int| 0 <= k < printable_chars@.len()
                ==> ((#[trigger] printable_chars@[k]) as u32) <= 127,
            best == max_cell(font, printable_chars@.take(i as int)),
        decreases printable_chars@.len() - i,
    {
        let c = printable_chars[i];
        let (w, h) = font.size(c);
        let m = if w >= h { w } else { h };
        if m > best {
            best = m;
        }
        proof {
            let taken = printable_chars@.take(i + 1);
            assert(taken.drop_last() =~= printable_chars@.take(i as int));
            assert(taken.last() == printable_chars@[i as int]);
        }
        i = i + 1;
    }
    proof {
        assert(printable_chars@.take(printable_chars@.len() as int) =~= printable_chars@);
    }
    best
}

} // verus!
