use rnk::color::Color;
use rnk::element::{ElementId, ElementType, IdCounter};
use rnk::style::BorderStyle;

#[test]
fn test_hex_color() {
    assert_eq!(Color::hex("#ff0000"), Color::Rgb(255, 0, 0));
    assert_eq!(Color::hex("00ff00"), Color::Rgb(0, 255, 0));
    assert_eq!(Color::hex("#0000ff"), Color::Rgb(0, 0, 255));
}

#[test]
fn test_hex_invalid_returns_reset() {
    assert_eq!(Color::hex("invalid"), Color::Reset);
    assert_eq!(Color::hex("#fff"), Color::Reset);
    assert_eq!(Color::hex("#gg0000"), Color::Reset);
}

#[test]
fn test_try_hex_valid() {
    assert_eq!(Color::try_hex("#ff0000"), Some(Color::Rgb(255, 0, 0)));
    assert_eq!(Color::try_hex("00ff00"), Some(Color::Rgb(0, 255, 0)));
    assert_eq!(Color::try_hex("#AABBCC"), Some(Color::Rgb(170, 187, 204)));
}

#[test]
fn test_try_hex_invalid() {
    assert_eq!(Color::try_hex("invalid"), None);
    assert_eq!(Color::try_hex("#fff"), None);
    assert_eq!(Color::try_hex("#gg0000"), None);
    assert_eq!(Color::try_hex(""), None);
}

#[test]
fn test_rgb_color() {
    assert_eq!(Color::rgb(128, 64, 32), Color::Rgb(128, 64, 32));
}

#[test]
fn test_ansi256_color() {
    assert_eq!(Color::ansi256(196), Color::Ansi256(196));
}

#[test]
fn hex_accepts_any_number_of_leading_hashes_and_plus_signs() {
    assert_eq!(Color::try_hex("##0a0B0c"), Some(Color::Rgb(10, 11, 12)));
    assert_eq!(Color::try_hex("+f0000"), Some(Color::Rgb(15, 0, 0)));
    assert_eq!(Color::try_hex("#ff00000"), None);
    assert_eq!(Color::try_hex("#ff00é"), None);
}

#[test]
fn hex_round_trip_of_lowercase_rgb() {
    for (r, g, b) in [(0u8, 0u8, 0u8), (1, 2, 3), (255, 254, 16), (171, 205, 239)] {
        let s = format!("#{:02x}{:02x}{:02x}", r, g, b);
        assert_eq!(Color::try_hex(&s), Some(Color::Rgb(r, g, b)));
    }
}

#[test]
fn foreground_sequences() {
    assert_eq!(Color::Red.to_ansi_fg(), "\x1b[31m");
    assert_eq!(Color::BrightBlue.to_ansi_fg(), "\x1b[94m");
    assert_eq!(Color::Ansi256(200).to_ansi_fg(), "\x1b[38;5;200m");
    assert_eq!(Color::Rgb(1, 2, 3).to_ansi_fg(), "\x1b[38;2;1;2;3m");
    assert_eq!(Color::Reset.to_ansi_fg(), "");
}

#[test]
fn test_element_id_unique() {
    let mut counter = IdCounter::new();
    let id1 = ElementId::new(&mut counter);
    let id2 = ElementId::new(&mut counter);
    assert_ne!(id1, id2);
}

#[test]
fn test_root_element_id() {
    let root = ElementId::root();
    assert_eq!(root.as_u64(), 0);
}

#[test]
fn element_ids_count_up_from_one_and_wrap() {
    let mut counter = IdCounter::new();
    assert_eq!(ElementId::new(&mut counter).as_u64(), 1);
    assert_eq!(ElementId::new(&mut counter).as_u64(), 2);
    let mut last = IdCounter { next: u64::MAX };
    assert_eq!(ElementId::new(&mut last).as_u64(), u64::MAX);
    assert_eq!(last.next, 0);
    assert_eq!(ElementId::from_raw(7).as_u64(), 7);
}

#[test]
fn element_kinds() {
    assert!(ElementType::Text.is_text());
    assert!(ElementType::VirtualText.is_text());
    assert!(!ElementType::Box.is_text());
    assert!(ElementType::Box.is_box());
    assert!(ElementType::Root.is_root());
}

#[test]
fn test_border_chars() {
    let chars = BorderStyle::Single.chars();
    assert_eq!(chars.0, "┌");
    assert_eq!(chars.4, "─");
}

#[test]
fn border_styles_without_border() {
    assert!(!BorderStyle::NoBorder.is_visible());
    assert!(BorderStyle::Round.is_visible());
    let chars = BorderStyle::Round.chars();
    assert_eq!(chars.0, "╭");
    assert_eq!(chars.3, "╯");
}
