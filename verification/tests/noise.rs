use retrotex::noise::{perm, white_noise_bits, PERMUTATION};
use std::hash::Hasher;

#[test]
fn permutation_wraps() {
    assert_eq!(perm(0), 151);
    assert_eq!(perm(255), 180);
    assert_eq!(perm(256), 151);
    assert_eq!(perm(-1), 180);
    let mut seen = [false; 256];
    for v in PERMUTATION {
        seen[v as usize] = true;
    }
    assert!(seen.iter().all(|&s| s));
}

fn reference_bits(x: i32, y: i32, seed: u32) -> u32 {
    let mut h = twox_hash::XxHash32::with_seed(seed);
    h.write(&x.to_le_bytes());
    h.write(&y.to_le_bytes());
    (h.finish() as u32) >> 8
}

#[test]
fn white_noise_is_the_hash_of_the_cell() {
    assert_eq!(white_noise_bits(3, 4, 1, 9), reference_bits(3, 4, 9));
    assert_eq!(white_noise_bits(-7, 11, 0, 123), reference_bits(-7, 11, 123));
    assert_eq!(white_noise_bits(7, 9, 4, 5), reference_bits(1, 2, 5));
    assert_eq!(white_noise_bits(-7, -9, 4, 5), reference_bits(-1, -2, 5));
    assert!(white_noise_bits(1000, -1000, 3, 77) < (1 << 24));
}

#[test]
fn white_noise_is_constant_over_a_cell_and_varies_with_the_seed() {
    let a = white_noise_bits(8, 8, 4, 1);
    assert_eq!(white_noise_bits(11, 11, 4, 1), a);
    assert_ne!(white_noise_bits(12, 8, 4, 1), a);
    assert_ne!(white_noise_bits(8, 8, 4, 2), a);
}
