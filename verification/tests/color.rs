use retrotex::color::{Color, EditableColor};

#[test]
fn test_new() {
    let c = Color::new(10, 20, 30, 40);
    assert_eq!(c.rgba[0], 10);
    assert_eq!(c.rgba[1], 20);
    assert_eq!(c.rgba[2], 30);
    assert_eq!(c.rgba[3], 40);
}

#[test]
fn test_newi_normal() {
    let c = Color::newi(100, 150, 200, 255);
    assert_eq!(c.rgba[0], 100);
    assert_eq!(c.rgba[1], 150);
    assert_eq!(c.rgba[2], 200);
    assert_eq!(c.rgba[3], 255);
}

#[test]
fn test_newi_clamp_low() {
    let c = Color::newi(-10, -1, -100, -255);
    assert_eq!(c.rgba[0], 0);
    assert_eq!(c.rgba[1], 0);
    assert_eq!(c.rgba[2], 0);
    assert_eq!(c.rgba[3], 0);
}

#[test]
fn test_newi_clamp_high() {
    let c = Color::newi(300, 256, 1000, 999);
    assert_eq!(c.rgba[0], 255);
    assert_eq!(c.rgba[1], 255);
    assert_eq!(c.rgba[2], 255);
    assert_eq!(c.rgba[3], 255);
}

#[test]
fn test_to_hex_with_alpha() {
    let c = Color::new(255, 0, 128, 255);
    assert_eq!(c.to_hex(), "#ff0080ff");
}

#[test]
fn test_to_hex_black() {
    let c = Color::new(0, 0, 0, 0);
    assert_eq!(c.to_hex(), "#00000000");
}

#[test]
fn test_to_hex_white() {
    let c = Color::new(255, 255, 255, 255);
    assert_eq!(c.to_hex(), "#ffffffff");
}

#[test]
fn test_write_hex() {
    let c = Color::new(16, 32, 48, 64);
    let mut s = String::new();
    c.write_hex(&mut s).unwrap();
    assert_eq!(s, "#10203040");
}

#[test]
fn test_from_hex_6_chars() {
    let c = Color::from_hex("#FF8000").unwrap();
    assert_eq!(c.rgba[0], 255);
    assert_eq!(c.rgba[1], 128);
    assert_eq!(c.rgba[2], 0);
    assert_eq!(c.rgba[3], 255);
}

#[test]
fn test_from_hex_8_chars() {
    let c = Color::from_hex("#FF800080").unwrap();
    assert_eq!(c.rgba[0], 255);
    assert_eq!(c.rgba[1], 128);
    assert_eq!(c.rgba[2], 0);
    assert_eq!(c.rgba[3], 128);
}

#[test]
fn test_from_hex_no_hash() {
    let c = Color::from_hex("FF8000").unwrap();
    assert_eq!(c.rgba[0], 255);
    assert_eq!(c.rgba[1], 128);
    assert_eq!(c.rgba[2], 0);
    assert_eq!(c.rgba[3], 255);
}

#[test]
fn test_from_hex_lowercase() {
    let c = Color::from_hex("#ff8000").unwrap();
    assert_eq!(c.rgba[0], 255);
    assert_eq!(c.rgba[1], 128);
    assert_eq!(c.rgba[2], 0);
    assert_eq!(c.rgba[3], 255);
}

#[test]
fn test_from_hex_invalid_length() {
    assert!(Color::from_hex("#FFF").is_err());
    assert!(Color::from_hex("#FFFFF").is_err());
    assert!(Color::from_hex("#FFFFFFF").is_err());
}

#[test]
fn test_from_hex_invalid_chars() {
    assert!(Color::from_hex("#GGGGGG").is_err());
    assert!(Color::from_hex("#ZZZZZZZZ").is_err());
}

#[test]
fn test_hex_roundtrip() {
    let before = Color::new(12, 34, 56, 78);
    let hex = before.to_hex();
    let recovered = Color::from_hex(&hex).unwrap();
    assert_eq!(recovered.rgba[0], before.rgba[0]);
    assert_eq!(recovered.rgba[1], before.rgba[1]);
    assert_eq!(recovered.rgba[2], before.rgba[2]);
    assert_eq!(recovered.rgba[3], before.rgba[3]);
}

#[test]
fn test_from_u8_array() {
    let c: Color = [10u8, 20, 30, 40].into();
    assert_eq!(c.rgba[0], 10);
    assert_eq!(c.rgba[1], 20);
    assert_eq!(c.rgba[2], 30);
    assert_eq!(c.rgba[3], 40);
}

#[test]
fn test_into_u8_array() {
    let c = Color::new(10, 20, 30, 40);
    let arr: [u8; 4] = c.into();
    assert_eq!(arr, [10, 20, 30, 40]);
}

#[test]
fn test_u8_array_roundtrip() {
    let before = [100u8, 150, 200, 255];
    let c: Color = before.into();
    let back: [u8; 4] = c.into();
    assert_eq!(back, before);
}

#[test]
fn from_hex_error_messages() {
    assert_eq!(Color::from_hex("#FFF").unwrap_err(), "Hex color must be 6 or 8 characters long");
    assert_eq!(Color::from_hex("#GGGGGG").unwrap_err(), "Invalid hex color");
}

#[test]
fn from_hex_accepts_several_hashes_and_plus_signs_like_u8_parsing() {
    let c = Color::from_hex("##0a0b0c").unwrap();
    assert_eq!(c.rgba, [10, 11, 12, 255]);
    let d = Color::from_hex("+a0b0c0d").unwrap();
    assert_eq!(d.rgba, [10, 11, 12, 13]);
}

#[test]
fn with_alpha_keeps_the_color() {
    let c = Color::new(1, 2, 3, 4).with_alpha(200);
    assert_eq!(c.rgba, [1, 2, 3, 200]);
}

#[test]
fn random_color_is_opaque() {
    for _ in 0..32 {
        assert_eq!(Color::random().rgba[3], 255);
    }
}

#[test]
fn editable_color_text_follows_the_color() {
    let mut e: EditableColor<true> = EditableColor::new(Color::new(1, 2, 3, 4));
    assert_eq!(e.edit_str, "#01020304");
    e.set_color_while_editing(Color::new(5, 6, 7, 8));
    assert_eq!(e.edit_str, "#01020304");
    assert_eq!(e.color().rgba, [5, 6, 7, 8]);
    e.update_edit_str();
    assert_eq!(e.edit_str, "#05060708");
    let mut opaque: EditableColor<false> = EditableColor::new(Color::new(255, 0, 128, 9));
    assert_eq!(opaque.edit_str, "#ff0080");
    opaque.set_color(Color::new(0, 0, 0, 0));
    assert_eq!(opaque.edit_str, "#000000");
}

#[test]
fn editable_color_from_color_keeps_the_full_hex() {
    let c = Color::new(1, 2, 3, 4);
    let e: EditableColor<false> = EditableColor::from(c);
    assert_eq!(e.color().rgba, c.rgba);
    assert_eq!(e.edit_str, c.to_hex());
    let f: EditableColor<true> = c.into();
    assert_eq!(f.edit_str, c.to_hex());
}
