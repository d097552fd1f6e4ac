use font_atlas::glyphs::GlyphSizes;
use font_atlas::glyphs::get_printable_chars;

fn table(entries: &[(usize, (u32, u32))]) -> GlyphSizes {
    let mut sizes: Vec<(u32, u32)> = vec![(0, 0); 128];
    for &(code, wh) in entries {
        sizes[code] = wh;
    }
    GlyphSizes::new(sizes).unwrap()
}

#[test]
fn new_accepts_exactly_one_entry_per_ascii_code_point() {
    let sizes: Vec<(u32, u32)> = vec![(1, 1); 128];
    assert!(GlyphSizes::new(sizes).is_some());
    let short: Vec<(u32, u32)> = vec![(1, 1); 127];
    assert!(GlyphSizes::new(short).is_none());
    let long: Vec<(u32, u32)> = vec![(1, 1); 129];
    assert!(GlyphSizes::new(long).is_none());
}

#[test]
fn selection_is_ascending_regardless_of_measured_values() {
    let g = table(&[(90, (9, 9)), (48, (1, 2)), (65, (30, 1))]);
    let chars = get_printable_chars(&g);
    assert_eq!(chars, vec!['0', 'A', 'Z']);
}

#[test]
fn selection_excludes_exact_zero_size() {
    // Space measures (0, 0) and is dropped; 'A' stays.
    let g = table(&[(32, (0, 0)), (65, (3, 4))]);
    let chars = get_printable_chars(&g);
    assert_eq!(chars, vec!['A']);
}

#[test]
fn selection_keeps_glyphs_with_one_zero_axis() {
    // Only an exact (0, 0) on both axes excludes a character: a zero on a
    // single axis is kept.
    let g = table(&[(39, (0, 7)), (95, (5, 0))]);
    let chars = get_printable_chars(&g);
    assert_eq!(chars, vec!['\'', '_']);
}

#[test]
fn selection_of_blank_font_is_empty() {
    let g = table(&[]);
    let chars = get_printable_chars(&g);
    assert!(chars.is_empty());
}

#[test]
fn selection_covers_every_nonzero_code_point() {
    let mut entries: Vec<(usize, (u32, u32))> = Vec::new();
    for code in 0..128usize {
        entries.push((code, (1, 1)));
    }
    let g = table(&entries);
    let chars = get_printable_chars(&g);
    assert_eq!(chars.len(), 128);
    for (i, c) in chars.iter().enumerate() {
        assert_eq!(*c as u32, i as u32);
    }
}
