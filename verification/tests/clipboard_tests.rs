use material_icon_browser::clipboard::{copy_text, CopyType};
use material_icon_browser::models::MaterialFontMeta;

fn icon(name: &str, codepoint: u32) -> MaterialFontMeta {
    MaterialFontMeta::new(name.to_string(), codepoint, Vec::new(), Vec::new(), None)
}

#[test]
fn copy_text_gives_the_name_or_the_codepoint() {
    let home = icon("home", 0xE88A);
    assert_eq!(copy_text(&home, CopyType::Name), "home");
    assert_eq!(copy_text(&home, CopyType::Codepoint), "59530");
    assert_eq!(copy_text(&home, CopyType::HexCodepoint), "e88a");
}

#[test]
fn copy_text_pads_the_hexadecimal_codepoint_only() {
    let small = icon("", 0x1F);
    assert_eq!(copy_text(&small, CopyType::Name), "");
    assert_eq!(copy_text(&small, CopyType::Codepoint), "31");
    assert_eq!(copy_text(&small, CopyType::HexCodepoint), "001f");
    let large = icon("large", 0x10_FFFF);
    assert_eq!(copy_text(&large, CopyType::Codepoint), "1114111");
    assert_eq!(copy_text(&large, CopyType::HexCodepoint), "10ffff");
}

#[test]
fn an_icon_is_found_by_what_was_copied_of_its_codepoint() {
    for codepoint in [0u32, 9, 0xE88A, 0x10_FFFF, u32::MAX] {
        let item = icon("x", codepoint);
        assert!(item.matches_codepoint(&copy_text(&item, CopyType::Codepoint)));
        assert!(item.matches_hex_codepoint(&copy_text(&item, CopyType::HexCodepoint)));
    }
}
