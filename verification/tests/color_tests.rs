use everwall::color::parse_hex;

#[test]
fn parses_hash_prefixed_upper_case() {
    assert_eq!(parse_hex("#D3C6AA"), Some([0xD3, 0xC6, 0xAA]));
}

#[test]
fn parses_without_hash() {
    assert_eq!(parse_hex("D3C6AA"), Some([0xD3, 0xC6, 0xAA]));
}

#[test]
fn parses_lower_case_digits() {
    assert_eq!(parse_hex("#a7c080"), Some([0xA7, 0xC0, 0x80]));
    assert_eq!(parse_hex("#a7C08f"), Some([0xA7, 0xC0, 0x8F]));
}

#[test]
fn parses_extremes() {
    assert_eq!(parse_hex("#000000"), Some([0, 0, 0]));
    assert_eq!(parse_hex("#FFFFFF"), Some([255, 255, 255]));
    assert_eq!(parse_hex("ffffff"), Some([255, 255, 255]));
}

#[test]
fn rejects_wrong_lengths() {
    assert_eq!(parse_hex(""), None);
    assert_eq!(parse_hex("#"), None);
    assert_eq!(parse_hex("#D3C6A"), None);
    assert_eq!(parse_hex("#D3C6AAA"), None);
    assert_eq!(parse_hex("D3C6AAA"), None);
    assert_eq!(parse_hex("#FFF"), None);
}

#[test]
fn strips_only_one_hash() {
    assert_eq!(parse_hex("##D3C6AA"), None);
    assert_eq!(parse_hex("##D3C6A"), None);
}

#[test]
fn rejects_non_hex_digits() {
    assert_eq!(parse_hex("#GG0000"), None);
    assert_eq!(parse_hex("#00GG00"), None);
    assert_eq!(parse_hex("#0000GG"), None);
    assert_eq!(parse_hex("#00 000"), None);
    assert_eq!(parse_hex("#-10000"), None);
    assert_eq!(parse_hex("#0x0000"), None);
}

#[test]
fn rejects_signs() {
    // Only six hex digits make a color; a `+` or `-` sign is no digit.
    assert_eq!(parse_hex("#+F0000"), None);
    assert_eq!(parse_hex("+1+2+3"), None);
    assert_eq!(parse_hex("#+1+2+3"), None);
    assert_eq!(parse_hex("00+a+1"), None);
    assert_eq!(parse_hex("#++0000"), None);
    assert_eq!(parse_hex("#F+0000"), None);
}

#[test]
fn rejects_non_ascii() {
    // Two-byte characters that sit exactly in a pair.
    assert_eq!(parse_hex("é0000"), None);
    assert_eq!(parse_hex("#00é00"), None);
    // Two-byte characters that straddle a pair boundary.
    assert_eq!(parse_hex("aébcd"), None);
    assert_eq!(parse_hex("#aébcd"), None);
    assert_eq!(parse_hex("abcéd"), None);
    assert_eq!(parse_hex("0é€"), None);
    // Wrong byte length.
    assert_eq!(parse_hex("é"), None);
}

#[test]
fn hash_is_optional_on_many_colors() {
    for hex in ["D3C6AA", "1e2326", "+a0000", "aébcd", "GG0000", "12345", "ABCDEF0"] {
        assert_eq!(parse_hex(&format!("#{hex}")), parse_hex(hex), "{hex}");
    }
}

#[test]
fn encoding_round_trips() {
    for r in 0..=255u8 {
        for &(g, b) in &[(0u8, 0u8), (0x7F, 0x80), (0xFF, 0x01), (r, 255 - r)] {
            let upper = format!("#{r:02X}{g:02X}{b:02X}");
            let lower = format!("#{r:02x}{g:02x}{b:02x}");
            assert_eq!(parse_hex(&upper), Some([r, g, b]), "{upper}");
            assert_eq!(parse_hex(&lower), Some([r, g, b]), "{lower}");
        }
    }
}
