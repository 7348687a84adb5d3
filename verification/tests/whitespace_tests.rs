use hd_analyzer_core::commands::trim;

#[test]
fn trim_agrees_with_std_on_every_character() {
    for code in 0u32..=0x10FFFF {
        if let Some(c) = char::from_u32(code) {
            let text = format!("{c}x{c}");
            assert_eq!(trim(&text), text.trim(), "character U+{code:04X}");
        }
    }
}

#[test]
fn trim_removes_unicode_spaces() {
    assert_eq!(trim("\u{3000}\t a b \u{85}\u{2009}"), "a b");
    assert_eq!(trim("\u{200B}a"), "\u{200B}a");
    assert_eq!(trim("   "), "");
}
