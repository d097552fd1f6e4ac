use font_atlas::font::{load_font, FontError};

#[test]
fn invalid_bytes_are_a_format_failure() {
    let garbage: Vec<u8> = vec![0x42; 64];
    assert_eq!(load_font(&garbage).err(), Some(FontError::InvalidFontData));
}

#[test]
fn empty_bytes_are_a_format_failure() {
    let empty: Vec<u8> = Vec::new();
    assert!(load_font(&empty).is_err());
}
