use owning_view::trim::is_space_char;
use owning_view::trim::trim_range;

#[test]
fn trim_range_selects_inner_region() {
    assert_eq!(trim_range(" ab "), (1, 3));
    assert_eq!(trim_range("ab"), (0, 2));
    assert_eq!(trim_range("  "), (2, 2));
    assert_eq!(trim_range(""), (0, 0));
}

#[test]
fn space_set_matches_unicode_whitespace() {
    for u in 0..=0x10ffffu32 {
        if let Some(c) = char::from_u32(u) {
            assert_eq!(is_space_char(c), c.is_whitespace(), "disagree on U+{:04X}", u);
        }
    }
}
