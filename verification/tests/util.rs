use retrotex::text::decimal_string;
use retrotex::util::{idx, idx2coords, idx_safe, in_bounds, single_hash};
use retrotex::{IMG_PIXEL_COUNT, IMG_SIZE};
use std::hash::Hasher;

#[test]
fn indices_and_coordinates() {
    assert_eq!(idx(0, 0), 0);
    assert_eq!(idx(5, 2), 2 * 128 + 5);
    assert_eq!(idx2coords(2 * 128 + 5), (5, 2));
    for i in [0usize, 1, 127, 128, 16383] {
        let (x, y) = idx2coords(i);
        assert_eq!(idx(x, y), i);
    }
    assert_eq!(IMG_PIXEL_COUNT, (IMG_SIZE * IMG_SIZE) as usize);
}

#[test]
fn safe_index_clamps() {
    assert_eq!(idx_safe(-5, -5), 0);
    assert_eq!(idx_safe(500, 500), IMG_PIXEL_COUNT - 1);
    assert_eq!(idx_safe(3, 200), 127 * 128 + 3);
}

#[test]
fn bounds() {
    assert!(in_bounds((0, 0)));
    assert!(in_bounds((127, 127)));
    assert!(!in_bounds((128, 0)));
    assert!(!in_bounds((0, -1)));
}

#[test]
fn hashing_is_repeatable() {
    assert_eq!(single_hash(&42u128), single_hash(&42u128));
    assert_ne!(single_hash(&42u128), single_hash(&43u128));
}

#[test]
fn decimals() {
    assert_eq!(decimal_string(0), "0");
    assert_eq!(decimal_string(1234567890), "1234567890");
    assert_eq!(decimal_string(u128::MAX), u128::MAX.to_string());
}

#[test]
fn idx2coords_wraps_like_a_cast() {
    assert_eq!(idx2coords(0xFFFF_FFFF), (-1, 0));
    assert_eq!(idx2coords(0xFFFF_FF7F), (-1, -1));
    assert_eq!(idx2coords(0x8000_0000), (0, -16777216));
    assert_eq!(idx2coords(0x1_0000_0081), (1, 1));
}

fn std_hash<T: std::hash::Hash>(t: &T) -> u64 {
    let mut hasher = std::hash::DefaultHasher::new();
    t.hash(&mut hasher);
    hasher.finish()
}

#[test]
fn single_hash_writes_what_derived_hashing_writes() {
    assert_eq!(single_hash(&42u128), std_hash(&42u128));
    let demo = retrotex::definition::TextureDefinition::demo();
    assert_eq!(single_hash(&demo), std_hash(&demo));
    let mut d = retrotex::definition::TextureDefinition::default();
    d.passes.push(retrotex::definition::TexturePass::default());
    assert_eq!(single_hash(&d), std_hash(&d));
}
