use retrotex::color::Color;
use retrotex::definition::{
    BlendMode, Coverage, NoiseType, PassOperation, TextureDefinition, TexturePass, TileShiftDirection,
};
use retrotex::IMG_SIZE;

fn rect_pass(x: i32, y: i32, w: i32, h: i32) -> TexturePass {
    let mut p = TexturePass::default();
    p.coverage = Coverage::Rectangle;
    p.feature_x = x;
    p.feature_y = y;
    p.rect.width = w;
    p.rect.height = h;
    p
}

#[test]
fn default_pass() {
    let p = TexturePass::default();
    assert_eq!(p.coverage, Coverage::Full);
    assert_eq!(p.color.color().rgba, [0xf4, 0x8a, 0x71, 0xff]);
    assert_eq!(p.feature_x, IMG_SIZE / 4);
    assert_eq!(p.rect.width, IMG_SIZE / 2);
    assert!(p.enabled);
    assert!(!p.uses_noise());
    assert!(!p.can_use_tilinging());
}

#[test]
fn new_pass_lies_in_the_texture() {
    for _ in 0..50 {
        let p = TexturePass::new();
        assert!(p.feature_x >= 0 && p.feature_x + p.rect.width <= IMG_SIZE);
        assert!(p.feature_y >= 0 && p.feature_y + p.rect.height <= IMG_SIZE);
        assert!(p.rect.width >= 20 && p.rect.height >= 20);
        assert_eq!(p.color.color().rgba[3], 255);
        assert_eq!(p.noise.noise_type, NoiseType::NoNoise);
    }
}

#[test]
fn pass_names() {
    let mut p = TexturePass::default();
    let mut s = String::new();
    p.write_name(&mut s, 3).unwrap();
    assert_eq!(s, "Pass 3");
    p.name = Some("Bricks".to_string());
    let mut s = String::from("> ");
    p.write_name(&mut s, 3).unwrap();
    assert_eq!(s, "> Bricks");
}

#[test]
fn blend_modes() {
    assert_eq!(BlendMode::all(), [BlendMode::Alpha, BlendMode::Additive, BlendMode::Multiply]);
    assert_eq!(BlendMode::Alpha.display_name(), "Normal");
    assert_eq!(BlendMode::Multiply.display_name(), "Multiply");
}

#[test]
fn gizmos_only_for_rectangles() {
    assert!(!Coverage::Full.is_gizmo_editable());
    assert!(Coverage::Rectangle.is_gizmo_editable());
    assert!(!Coverage::Pattern.is_gizmo_editable());
}

#[test]
fn full_pass_paints_everything() {
    let p = TexturePass::default();
    assert_eq!(p.locate(0, 0), Some((0, 0, 0, 0)));
    assert_eq!(p.locate(127, 5), Some((127, 5, 0, 0)));
    assert!(!p.locate_fails(-4, 900));
}

#[test]
fn untiled_rectangle_paints_its_area() {
    let p = rect_pass(10, 20, 5, 3);
    assert_eq!(p.locate(10, 20), Some((0, 0, 0, 0)));
    assert_eq!(p.locate(14, 22), Some((4, 2, 0, 0)));
    assert_eq!(p.locate(15, 22), None);
    assert_eq!(p.locate(9, 20), None);
    assert_eq!(p.locate(12, 23), None);
}

#[test]
fn tiles_repeat_with_gaps() {
    let mut p = rect_pass(0, 0, 4, 4);
    p.tile.enabled = true;
    p.tile.x_gap = 2;
    p.tile.y_gap = 1;
    p.tile.x_count = 3;
    p.tile.y_count = 2;
    p.tile.shift = 0;
    assert_eq!(p.tile_dim(), (6, 5));
    assert_eq!(p.locate(1, 1), Some((1, 1, 0, 0)));
    assert_eq!(p.locate(7, 1), Some((1, 1, 1, 0)));
    assert_eq!(p.locate(13, 6), Some((1, 1, 2, 1)));
    assert_eq!(p.locate(4, 1), None);
    assert_eq!(p.locate(19, 1), None);
    assert_eq!(p.locate(1, 10), None);
}

#[test]
fn shifted_rows() {
    let mut p = rect_pass(0, 0, 4, 2);
    p.tile.enabled = true;
    p.tile.x_gap = 0;
    p.tile.y_gap = 0;
    p.tile.x_count = 4;
    p.tile.y_count = 4;
    p.tile.shift = 2;
    p.tile.shift_direction = TileShiftDirection::Horizontal;
    assert_eq!(p.locate(0, 0), Some((0, 0, 0, 0)));
    assert_eq!(p.locate(0, 2), None);
    assert_eq!(p.locate(2, 2), Some((0, 0, 0, 1)));
    p.tile.shift_direction = TileShiftDirection::Vertical;
    assert_eq!(p.locate(4, 2), Some((0, 0, 1, 0)));
}

#[test]
fn pattern_coverage() {
    let mut p = TexturePass::default();
    p.coverage = Coverage::Pattern;
    p.feature_x = 0;
    p.feature_y = 0;
    p.pattern.rows = [0; 16];
    p.pattern.scale = 2;
    p.pattern.rows[1] = 1 << 2;
    assert_eq!(p.locate(4, 2), Some((4, 2, 0, 0)));
    assert_eq!(p.locate(5, 3), Some((5, 3, 0, 0)));
    assert_eq!(p.locate(6, 2), None);
    assert_eq!(p.locate(40, 2), None);
}

#[test]
fn overflowing_placement_is_reported() {
    let mut p = rect_pass(i32::MIN, 0, 4, 4);
    assert!(p.locate_fails(10, 0));
    p.feature_x = 0;
    p.tile.enabled = true;
    p.rect.width = i32::MAX;
    p.tile.x_gap = 1;
    assert!(p.locate_fails(0, 0));
    p.rect.width = 4;
    p.tile.x_gap = -4;
    p.tile.shift_direction = TileShiftDirection::Horizontal;
    assert!(!p.locate_fails(0, 0));
    assert_eq!(p.locate(0, 0), None);
    p.tile.shift_direction = TileShiftDirection::Vertical;
    assert!(p.locate_fails(0, 0));
}

#[test]
fn tile_seeds_differ_per_tile() {
    let mut p = TexturePass::default();
    p.noise.seed = 5;
    assert_eq!(p.tile_seed(0, 0), 5);
    assert_eq!(p.tile_seed(1, 0), 5 ^ 0x1f1f1f1f);
    assert_eq!(p.tile_seed(0, 1), 5 ^ 0x1e1e1e1e);
    assert_eq!(p.tile_seed(-1, 0), 5 ^ 0xffffffffu32.wrapping_mul(0x1f1f1f1f));
}

#[test]
fn demo_definition() {
    let d = TextureDefinition::demo();
    assert_eq!(d.passes.len(), 5);
    let names: Vec<&str> = d.passes.iter().map(|p| p.name.as_deref().unwrap()).collect();
    assert_eq!(names, ["Background", "Rust", "Frame", "Handle", "Window"]);
    assert_eq!(d.passes[0].color.color().rgba, Color::from_hex("#3E3E3EFF").unwrap().rgba);
    assert_eq!(d.passes[2].coverage, Coverage::Rectangle);
    assert_eq!((d.passes[4].feature_x, d.passes[4].feature_y), (51, 36));
    assert_eq!(d.lighting_settings.direction, [20, -50, 20]);
}

#[test]
fn default_definition_and_removal() {
    let mut d = TextureDefinition::default();
    assert!(d.passes.is_empty());
    assert_eq!(d.lighting_settings.direction, [10, -50, 20]);
    d.passes.push(rect_pass(1, 1, 1, 1));
    d.passes.push(rect_pass(2, 2, 2, 2));
    d.apply_pass_operation(PassOperation::Remove(0));
    assert_eq!(d.passes.len(), 1);
    assert_eq!(d.passes[0].feature_x, 2);
}

fn passes_at(xs: &[i32]) -> TextureDefinition {
    let mut d = TextureDefinition::default();
    for &x in xs {
        d.passes.push(rect_pass(x, 0, 1, 1));
    }
    d
}

fn order(d: &TextureDefinition) -> Vec<i32> {
    d.passes.iter().map(|p| p.feature_x).collect()
}

#[test]
fn dropping_a_pass_trades_places() {
    let mut d = passes_at(&[0, 1, 2, 3]);
    d.drop_pass(0, 3);
    assert_eq!(order(&d), vec![2, 1, 0, 3]);
    let mut d = passes_at(&[0, 1, 2, 3]);
    d.drop_pass(3, 0);
    assert_eq!(order(&d), vec![3, 1, 2, 0]);
    let mut d = passes_at(&[0, 1, 2, 3]);
    d.drop_pass(1, 4);
    assert_eq!(order(&d), vec![0, 3, 2, 1]);
    let mut d = passes_at(&[0, 1, 2, 3]);
    d.drop_pass(2, 2);
    assert_eq!(order(&d), vec![0, 1, 2, 3]);
    d.drop_pass(2, 3);
    assert_eq!(order(&d), vec![0, 1, 2, 3]);
}
