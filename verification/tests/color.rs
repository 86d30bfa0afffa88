use gekkemieren::color_scheme::{hex_to_srgb8, Palette, PaletteSrgb8, Srgb8};

fn rgb(r: u8, g: u8, b: u8) -> Srgb8 {
    Srgb8 { r, g, b }
}

#[test]
fn hex_black_reads_as_zero() {
    assert_eq!(hex_to_srgb8("#000000"), rgb(0, 0, 0));
}

#[test]
fn hex_white_reads_as_full() {
    assert_eq!(hex_to_srgb8("#ffffff"), rgb(255, 255, 255));
}

#[test]
fn hex_gray_reads_as_128() {
    assert_eq!(hex_to_srgb8("#808080"), rgb(128, 128, 128));
}

#[test]
fn hex_red_reads_as_red() {
    assert_eq!(hex_to_srgb8("#ff0000"), rgb(255, 0, 0));
}

#[test]
fn test_hex_without_hash() {
    let with_hash = hex_to_srgb8("#4c054d");
    let without_hash = hex_to_srgb8("4c054d");
    assert_eq!(with_hash, without_hash);
    assert_eq!(with_hash, rgb(0x4c, 0x05, 0x4d));
}

#[test]
fn hex_upper_case_and_repeated_hashes() {
    assert_eq!(hex_to_srgb8("##A9DEF9"), rgb(0xa9, 0xde, 0xf9));
}

#[test]
fn hex_invalid_fields_read_as_zero() {
    assert_eq!(hex_to_srgb8("#zz10g1"), rgb(0, 0x10, 0));
    // a field may carry a plus sign in front of one digit
    assert_eq!(hex_to_srgb8("+f+ff-"), rgb(0x0f, 0x0f, 0));
    // only the first six bytes count
    assert_eq!(hex_to_srgb8("#123456789"), rgb(0x12, 0x34, 0x56));
}

#[test]
fn pastel_palette_colors() {
    let colors = Palette::Pastel.srgb8_colors().unwrap();
    assert_eq!(
        colors,
        PaletteSrgb8 {
            background: hex_to_srgb8("#0c090d"),
            forager: hex_to_srgb8("#d0f4de"),
            scout: hex_to_srgb8("#a9def9"),
            homing_pheromone: hex_to_srgb8("#e4c1f9"),
            food_pheromone: hex_to_srgb8("#fcf6bd"),
            food: hex_to_srgb8("#fcf6bd"),
        }
    );
    assert_eq!(colors.background, rgb(0x0c, 0x09, 0x0d));
}

#[test]
fn light_palette_colors() {
    let colors = Palette::Light.srgb8_colors().unwrap();
    assert_eq!(colors.background, rgb(0xe7, 0xec, 0xef));
    assert_eq!(colors.forager, rgb(0x0c, 0x09, 0x0d));
    assert_eq!(colors.scout, rgb(0x27, 0x4c, 0x77));
    assert_eq!(colors.homing_pheromone, rgb(0x60, 0x96, 0xba));
    assert_eq!(colors.food_pheromone, rgb(0xa3, 0xce, 0xf1));
    assert_eq!(colors.food, rgb(0xa3, 0xce, 0xf1));
}

#[test]
fn debug_palette_has_no_hex_colors() {
    assert_eq!(Palette::Debug.srgb8_colors(), None);
}
