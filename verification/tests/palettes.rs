use retrotex::palettes::{
    decode_png, expand_to_rgba, load_palette_from_png, palette_from_frame, palettes_dir, Palette, PaletteImage,
    PaletteManager, PngColorType, PngFrame,
};

fn encode(width: u32, height: u32, color: png::ColorType, depth: png::BitDepth, data: &[u8]) -> Vec<u8> {
    let mut out = Vec::new();
    {
        let mut enc = png::Encoder::new(&mut out, width, height);
        enc.set_color(color);
        enc.set_depth(depth);
        let mut w = enc.write_header().unwrap();
        w.write_image_data(data).unwrap();
    }
    out
}

fn palette(name: &str, byte: u8) -> Palette {
    Palette { name: name.to_string(), image: Some(PaletteImage { size: [1, 1], rgba: vec![byte, byte, byte, 255] }) }
}

#[test]
fn folder_name() {
    assert_eq!(palettes_dir(), "palettes");
}

#[test]
fn rgb_gets_opaque_alpha() {
    let v = expand_to_rgba(PngColorType::Rgb, &[1, 2, 3, 4, 5, 6], 2).unwrap();
    assert_eq!(v, vec![1, 2, 3, 255, 4, 5, 6, 255]);
}

#[test]
fn gray_is_spread_over_the_channels() {
    assert_eq!(expand_to_rgba(PngColorType::Grayscale, &[7, 9], 2).unwrap(), vec![7, 7, 7, 255, 9, 9, 9, 255]);
    assert_eq!(expand_to_rgba(PngColorType::GrayscaleAlpha, &[7, 1, 9, 2], 2).unwrap(), vec![7, 7, 7, 1, 9, 9, 9, 2]);
    assert_eq!(expand_to_rgba(PngColorType::Rgba, &[1, 2, 3, 4], 1).unwrap(), vec![1, 2, 3, 4]);
}

#[test]
fn byte_count_mismatch_messages() {
    assert_eq!(
        expand_to_rgba(PngColorType::Rgb, &[1, 2, 3, 4], 2).unwrap_err(),
        "Decoded RGB byte count mismatch: expected 6, got 4"
    );
    assert_eq!(
        expand_to_rgba(PngColorType::Rgba, &[1, 2, 3], 1).unwrap_err(),
        "Decoded RGBA byte count mismatch: expected 4, got 3"
    );
    assert_eq!(
        expand_to_rgba(PngColorType::Grayscale, &[], 3).unwrap_err(),
        "Decoded grayscale byte count mismatch: expected 3, got 0"
    );
    assert_eq!(
        expand_to_rgba(PngColorType::GrayscaleAlpha, &[1], 1).unwrap_err(),
        "Decoded grayscale-alpha byte count mismatch: expected 2, got 1"
    );
    assert_eq!(
        expand_to_rgba(PngColorType::Indexed, &[1], 1).unwrap_err(),
        "Indexed PNG output was not expanded as expected"
    );
}

#[test]
fn palette_of_a_frame() {
    let frame = PngFrame { width: 2, height: 1, color_type: PngColorType::Grayscale, data: vec![10, 20] };
    let p = palette_from_frame(Some("gray".to_string()), &frame).unwrap();
    assert_eq!(p.name, "gray");
    let img = p.image.unwrap();
    assert_eq!(img.size, [2, 1]);
    assert_eq!(img.rgba, vec![10, 10, 10, 255, 20, 20, 20, 255]);
    assert_eq!(palette_from_frame(None, &frame).err().unwrap(), "Invalid UTF-8 file name");
    let short = PngFrame { width: 2, height: 2, color_type: PngColorType::Rgb, data: vec![0; 3] };
    assert_eq!(
        palette_from_frame(None, &short).err().unwrap(),
        "Decoded RGB byte count mismatch: expected 12, got 3"
    );
}

#[test]
fn png_files_are_decoded_and_widened() {
    let bytes = encode(2, 1, png::ColorType::Rgb, png::BitDepth::Eight, &[255, 0, 0, 0, 0, 255]);
    let frame = decode_png(bytes.clone()).unwrap();
    assert_eq!((frame.width, frame.height), (2, 1));
    assert_eq!(frame.color_type, PngColorType::Rgb);
    assert_eq!(frame.data, vec![255, 0, 0, 0, 0, 255]);
    let p = load_palette_from_png(Some("rb".to_string()), bytes).unwrap();
    assert_eq!(p.image.unwrap().rgba, vec![255, 0, 0, 255, 0, 0, 255, 255]);
}

#[test]
fn sixteen_bit_gray_is_narrowed() {
    let bytes = encode(1, 1, png::ColorType::Grayscale, png::BitDepth::Sixteen, &[0x12, 0x34]);
    let p = load_palette_from_png(Some("g".to_string()), bytes).unwrap();
    assert_eq!(p.image.unwrap().rgba, vec![0x12, 0x12, 0x12, 255]);
}

#[test]
fn garbage_is_refused() {
    let e = load_palette_from_png(Some("x".to_string()), vec![1, 2, 3]).err().unwrap();
    assert!(e.starts_with("Failed to decode PNG info: "), "{}", e);
}

#[test]
fn manager_keeps_names_sorted_and_unique() {
    let mut m = PaletteManager::new();
    assert!(m.is_empty());
    m.insert(palette("pico", 1));
    m.insert(palette("db16", 2));
    m.insert(palette("gameboy", 3));
    m.insert(palette("db16", 4));
    assert_eq!(m.names(), ["db16", "gameboy", "pico"]);
    assert!(!m.is_empty());
    assert_eq!(m.get("db16").unwrap().image.as_ref().unwrap().rgba[0], 4);
    assert_eq!(m.get("pico").unwrap().image.as_ref().unwrap().rgba[0], 1);
    assert!(m.get("nes").is_none());
    let images = m.take_images();
    let names: Vec<&str> = images.iter().map(|(n, _)| n.as_str()).collect();
    assert_eq!(names, ["db16", "gameboy", "pico"]);
    assert!(images.iter().all(|(_, i)| i.is_some()));
    assert!(m.get("db16").unwrap().image.is_none());
    assert!(m.take_images().iter().all(|(_, i)| i.is_none()));
}

#[test]
fn names_order_like_strings() {
    let mut m = PaletteManager::new();
    for n in ["b", "B", "ab", "a", "ä", "Z"] {
        m.insert(palette(n, 0));
    }
    let mut expected = vec!["b", "B", "ab", "a", "ä", "Z"];
    expected.sort();
    assert_eq!(m.names(), expected.as_slice());
}

#[test]
fn a_png_and_its_decoded_frame_give_the_same_palette() {
    let bytes = encode(1, 2, png::ColorType::GrayscaleAlpha, png::BitDepth::Eight, &[9, 8, 7, 6]);
    let frame = decode_png(bytes.clone()).unwrap();
    let from_frame = palette_from_frame(Some("p".to_string()), &frame).unwrap();
    let loaded = load_palette_from_png(Some("p".to_string()), bytes).unwrap();
    assert_eq!(loaded.name, from_frame.name);
    assert_eq!(loaded.image.as_ref().unwrap().rgba, from_frame.image.as_ref().unwrap().rgba);
    assert_eq!(loaded.image.unwrap().rgba, vec![9, 9, 9, 8, 7, 7, 7, 6]);
}
