//! The atlas layout: cell size, image dimensions, and per-glyph draw
//! positions, computed from a font's measured glyph sizes.

use vstd::prelude::*;
use crate::glyphs::{
    GlyphSizes, get_printable_chars, max_size, selection, max_cell, cell_of,
    lemma_selection_upto, lemma_selection_upto_len, lemma_cell_size_positive,
    lemma_selection_deterministic, lemma_max_cell_deterministic,
};

verus! {

/// Why no atlas could be laid out; every failure of the pipeline's
/// computation is fatal.
#[derive(Clone, Copy, Debug, PartialEq, Eq, Structural)]
pub enum AtlasError {
    /// No ASCII character measured a nonzero extent at the given scale:
    /// a maximum over the empty selection is undefined.
    EmptySelection,
    /// The atlas dimensions would not fit the image's 32-bit size type.
    TooLarge,
}

/// The computed layout of the atlas: the selected characters in atlas order,
/// the square cell's edge length, the image dimensions, and where each glyph
/// is drawn.
pub struct AtlasPlan {
    /// The selected characters, in ascending code-point order: the atlas's
    /// left-to-right glyph order.
    pub printable_chars: Vec<char>,
    /// The edge length of every (square) cell.
    pub cell_size: u32,
    /// Image width: `cell_size * count + cell_size / 2`.
    pub width: u32,
    /// Image height: exactly one cell.
    pub height: u32,
    /// The (x, y) pixel position where each glyph is drawn, index for index
    /// with `printable_chars`.
    pub positions: Vec<(u32, u32)>,
}

/// The atlas width called for by `cell` and `n` glyphs: `cell * n + cell / 2`
/// with truncating division, as a mathematical integer.
pub open spec fn atlas_width(cell: u32, n: int) -> int {
    cell * n + cell / 2
}

/// The atlas dimensions and every draw position fit the image's 32-bit size
/// type.
pub open spec fn layout_fits(cell: u32, n: int) -> bool {
    atlas_width(cell, n) <= u32::MAX
}

/// Where each of `count` glyphs is drawn: glyph `i` at
/// `(i * cell_size + cell_size / 2, 0)` — left-to-right in selection order,
/// each glyph top-anchored at row 0.
pub fn draw_positions(count: usize, cell_size: u32) -> (r: Vec<(u32, u32)>)
    requires
        count <= u32::MAX,
        layout_fits(cell_size, count as int),
    ensures
        r@.len() == count,
        forall|i: int| 0 <= i < count
            ==> (#[trigger] r@[i]).0 == i * cell_size + cell_size / 2
                && r@[i].1 == 0,
{
    let mut v: Vec<(u32, u32)> = Vec::new();
    let half: u32 = cell_size / 2;
    let mut i: usize = 0;
    while i < count
        invariant
            count <= u32::MAX,
            layout_fits(cell_size, count as int),
            half == cell_size / 2,
            i <= count,
            v@.len() == i,
            forall|k: int| 0 <= k < i
                ==> (#[trigger] v@[k]).0 == k * cell_size + cell_size / 2
                    && v@[k].1 == 0,
        decreases count - i,
    {
        proof {
            assert((i as int) * (cell_size as int) <= (count as int) * (cell_size as int))
                by (nonlinear_arith)
                requires
                    (i as int) < (count as int),
                    0 <= (cell_size as int),
            ;
        }
        let x: u32 = (i as u32) * cell_size + half;
        v.push((x, 0));
        i = i + 1;
    }
    v
}

/// Lays the atlas out from a font's measured sizes: selects the printable
/// characters, takes the largest per-character maximum as the cell size, and
/// sizes the image as `cell_size * count + cell_size / 2` wide by `cell_size`
/// high, with glyph `i` drawn at `(i * cell_size + cell_size / 2, 0)`.
///
/// Fails exactly when no character is selected, or when the atlas would not
/// fit the image's 32-bit size type.
pub fn atlas_plan(font: &GlyphSizes) -> (r: Result<AtlasPlan, AtlasError>)
    requires
        font.wf(),
    ensures
        r == Result::<AtlasPlan, AtlasError>::Err(AtlasError::EmptySelection)
            <==> selection(font).len() == 0,
        r == Result::<AtlasPlan, AtlasError>::Err(AtlasError::TooLarge)
            <==> selection(font).len() > 0
                && !layout_fits(max_cell(font, selection(font)), selection(font).len() as int),
        r is Ok <==> selection(font).len() > 0
            && layout_fits(max_cell(font, selection(font)), selection(font).len() as int),
        r matches Ok(p) ==> {
            &&& p.printable_chars@ == selection(font)
            &&& p.cell_size == max_cell(font, selection(font))
            &&& p.cell_size >= 1
            &&& p.width == atlas_width(p.cell_size, p.printable_chars@.len() as int)
            &&& p.height == p.cell_size
            &&& p.positions@.len() == p.printable_chars@.len()
            &&& forall|i: int| 0 <= i < p.positions@.len()
                ==> (#[trigger] p.positions@[i]).0 == i * p.cell_size + p.cell_size / 2
                    && p.positions@[i].1 == 0
        },
{
    let printable_chars = get_printable_chars(font);
    if printable_chars.len() == 0 {
        return Err(AtlasError::EmptySelection);
    }
    proof {
        lemma_selection_upto(font, 128);
        lemma_selection_upto_len(font, 128);
        lemma_cell_size_positive(font);
    }
    let cell_size = max_size(font, &printable_chars);
    let count = printable_chars.len();
    proof {
        assert(printable_chars@.len() <= 128);
        assert((cell_size as int) * (count as int) <= (u32::MAX as int) * 128)
            by (nonlinear_arith)
            requires
                0 <= (cell_size as int) <= u32::MAX,
                0 <= (count as int) <= 128,
        ;
    }
    let needed: u64 = (cell_size as u64) * (count as u64) + (cell_size as u64) / 2;
    if needed > u32::MAX as u64 {
        return Err(AtlasError::TooLarge);
    }
    let positions = draw_positions(count, cell_size);
    let width: u32 = cell_size * (count as u32) + cell_size / 2;
    Ok(AtlasPlan {
        printable_chars,
        cell_size,
        width,
        height: cell_size,
        positions,
    })
}

/// Law: the whole layout is a function of the measured sizes alone. Two size
/// tables that agree on every ASCII code point yield the same selection and
/// the same cell size — and so, through `atlas_plan`'s contract, the same
/// dimensions and positions: re-running the pipeline on identical
/// measurements reproduces the identical atlas layout.
pub proof fn lemma_plan_deterministic(g1: &GlyphSizes, g2: &GlyphSizes)
    requires
        forall|c: int| 0 <= c <= 127 ==> g1.size_of(c) == g2.size_of(c),
    ensures
        selection(g1) == selection(g2),
        max_cell(g1, selection(g1)) == max_cell(g2, selection(g2)),
{
    lemma_selection_deterministic(g1, g2);
    lemma_selection_upto(g1, 128);
    lemma_max_cell_deterministic(g1, g2, selection(g1));
}

} // verus!
