use font_atlas::glyphs::{get_printable_chars, max_size, GlyphSizes};
use font_atlas::atlas::{atlas_plan, draw_positions, AtlasError};

fn table(entries: &[(usize, (u32, u32))]) -> GlyphSizes {
    let mut sizes: Vec<(u32, u32)> = vec![(0, 0); 128];
    for &(code, wh) in entries {
        sizes[code] = wh;
    }
    GlyphSizes::new(sizes).unwrap()
}

#[test]
fn cell_size_is_max_of_per_character_maxima() {
    // Widest glyph is 10 wide, tallest is 8 high: the cell is 10 — the
    // largest per-character max(width, height), not the largest height,
    // nor any per-axis or area combination.
    let g = table(&[(65, (10, 3)), (66, (2, 8))]);
    let chars = get_printable_chars(&g);
    assert_eq!(max_size(&g, &chars), 10);

    // The same with the axes swapped: still 10.
    let g = table(&[(65, (3, 10)), (66, (8, 2))]);
    let chars = get_printable_chars(&g);
    assert_eq!(max_size(&g, &chars), 10);
}

#[test]
fn atlas_dimensions_follow_the_formula() {
    let g = table(&[(65, (7, 7)), (66, (4, 9))]);
    let plan = atlas_plan(&g).unwrap();
    assert_eq!(plan.cell_size, 9);
    assert_eq!(plan.printable_chars, vec!['A', 'B']);
    // width = cell_size * count + cell_size / 2, height = cell_size.
    assert_eq!(plan.width, 9 * 2 + 9 / 2);
    assert_eq!(plan.height, 9);
    assert_eq!(plan.positions, vec![(4, 0), (13, 0)]);
}

#[test]
fn positions_step_one_cell_at_a_time() {
    let v = draw_positions(3, 10);
    assert_eq!(v, vec![(5, 0), (15, 0), (25, 0)]);
}

#[test]
fn full_printable_range_gives_ninety_five_cells() {
    let mut entries: Vec<(usize, (u32, u32))> = Vec::new();
    for code in 32..=126usize {
        entries.push((code, (3, 5)));
    }
    let g = table(&entries);
    let plan = atlas_plan(&g).unwrap();
    assert_eq!(plan.printable_chars.len(), 95);
    assert_eq!(plan.cell_size, 5);
    assert_eq!(plan.width, 5 * 95 + 5 / 2);
    assert_eq!(plan.height, 5);
}

#[test]
fn identical_measurements_reproduce_the_identical_plan() {
    let entries = [(65, (10, 3)), (97, (2, 8)), (48, (4, 4))];
    let first = atlas_plan(&table(&entries)).unwrap();
    let second = atlas_plan(&table(&entries)).unwrap();
    assert_eq!(first.printable_chars, second.printable_chars);
    assert_eq!(first.cell_size, second.cell_size);
    assert_eq!(first.width, second.width);
    assert_eq!(first.height, second.height);
    assert_eq!(first.positions, second.positions);
}

#[test]
fn empty_selection_is_a_fatal_error() {
    let g = table(&[]);
    assert!(matches!(atlas_plan(&g), Err(AtlasError::EmptySelection)));
}

#[test]
fn different_measurements_give_different_cell_sizes() {
    let narrow = atlas_plan(&table(&[(65, (10, 10))])).unwrap();
    let wide = atlas_plan(&table(&[(65, (17, 3))])).unwrap();
    assert_eq!(narrow.cell_size, 10);
    assert_eq!(wide.cell_size, 17);
    assert_ne!(narrow.cell_size, wide.cell_size);
}

#[test]
fn oversized_atlas_is_a_fatal_error() {
    let g = table(&[(65, (u32::MAX, 1)), (66, (1, 1))]);
    assert!(matches!(atlas_plan(&g), Err(AtlasError::TooLarge)));
}

#[test]
fn atlas_width_may_fill_the_size_type_exactly() {
    // cell + cell / 2 == u32::MAX for this cell, with a single glyph.
    let cell: u32 = 2863311530;
    let g = table(&[(65, (cell, 1))]);
    let plan = atlas_plan(&g).unwrap();
    assert_eq!(plan.width, u32::MAX);
    assert_eq!(plan.positions, vec![(cell / 2, 0)]);
}
