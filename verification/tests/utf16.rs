use read_strategy::utf16::utf16_to_string;

#[test]
fn decodes_the_basic_plane() {
    assert_eq!(utf16_to_string(&[0x0041, 0x0042]), Some("AB".to_string()));
    assert_eq!(
        utf16_to_string(&[0x00E4, 0x20AC, 0xFFFD, 0xD7FF, 0xE000]),
        Some("\u{e4}\u{20ac}\u{fffd}\u{d7ff}\u{e000}".to_string())
    );
}

#[test]
fn decodes_nothing_to_the_empty_string() {
    assert_eq!(utf16_to_string(&[]), Some(String::new()));
}

#[test]
fn decodes_surrogate_pairs() {
    assert_eq!(
        utf16_to_string(&[0xD83D, 0xDE00]),
        Some("\u{1F600}".to_string())
    );
    assert_eq!(
        utf16_to_string(&[0xD800, 0xDC00, 0x0061, 0xDBFF, 0xDFFF]),
        Some("\u{10000}a\u{10FFFF}".to_string())
    );
}

#[test]
fn decodes_as_the_standard_library_does() {
    let text = "K\u{f6}ln \u{4e2d}\u{6587} \u{1F980}\u{1D11E} end";
    let units: Vec<u16> = text.encode_utf16().collect();
    assert_eq!(utf16_to_string(&units), Some(text.to_string()));
    assert_eq!(utf16_to_string(&units), String::from_utf16(&units).ok());
}

#[test]
fn refuses_a_leading_surrogate_without_its_pair() {
    assert_eq!(utf16_to_string(&[0xD83D]), None);
    assert_eq!(utf16_to_string(&[0x0041, 0xD83D]), None);
    assert_eq!(utf16_to_string(&[0xD83D, 0x0041]), None);
    assert_eq!(utf16_to_string(&[0xD83D, 0xD83D, 0xDE00]), None);
}

#[test]
fn refuses_a_trailing_surrogate_without_its_pair() {
    assert_eq!(utf16_to_string(&[0xDE00]), None);
    assert_eq!(utf16_to_string(&[0xDE00, 0xD83D]), None);
    assert_eq!(utf16_to_string(&[0x0041, 0xDC00, 0x0042]), None);
}
