//! The integer side of the noise functions: the permutation table of Perlin
//! noise and the hash bits of white noise.
use vstd::prelude::*;

verus! {

/// Ken Perlin's permutation of `0..256`.
pub const PERMUTATION: [u8; 256] = [
    151, 160, 137, 91, 90, 15, 131, 13, 201, 95, 96, 53, 194, 233, 7, 225, 140, 36, 103, 30, 69,
    142, 8, 99, 37, 240, 21, 10, 23, 190, 6, 148, 247, 120, 234, 75, 0, 26, 197, 62, 94, 252, 219,
    203, 117, 35, 11, 32, 57, 177, 33, 88, 237, 149, 56, 87, 174, 20, 125, 136, 171, 168, 68, 175,
    74, 165, 71, 134, 139, 48, 27, 166, 77, 146, 158, 231, 83, 111, 229, 122, 60, 211, 133, 230,
    220, 105, 92, 41, 55, 46, 245, 40, 244, 102, 143, 54, 65, 25, 63, 161, 1, 216, 80, 73, 209, 76,
    132, 187, 208, 89, 18, 169, 200, 196, 135, 130, 116, 188, 159, 86, 164, 100, 109, 198, 173, 186,
    3, 64, 52, 217, 226, 250, 124, 123, 5, 202, 38, 147, 118, 126, 255, 82, 85, 212, 207, 206, 59,
    227, 47, 16, 58, 17, 182, 189, 28, 42, 223, 183, 170, 213, 119, 248, 152, 2, 44, 154, 163, 70,
    221, 153, 101, 155, 167, 43, 172, 9, 129, 22, 39, 253, 19, 98, 108, 110, 79, 113, 224, 232, 178,
    185, 112, 104, 218, 246, 97, 228, 251, 34, 242, 193, 238, 210, 144, 12, 191, 179, 162, 241, 81,
    51, 145, 235, 249, 14, 239, 107, 49, 192, 214, 31, 181, 199, 106, 157, 184, 84, 204, 176, 115,
    121, 50, 45, 127, 4, 150, 254, 138, 236, 205, 93, 222, 114, 67, 29, 24, 72, 243, 141, 128, 195,
    78, 66, 215, 61, 156, 180,
];

/// The permutation table at `i`, wrapped to `0..256`.
pub fn perm(i: i32) -> (r: u32)
    ensures
        r == PERMUTATION@[(i as u32 % 256) as int],
        r < 256,
{
    let k: usize = (i as u32 % 256) as usize;
    PERMUTATION[k] as u32
}

/// The XXH32 hash of `data` with `seed`, as the `twox_hash` crate computes it.
pub uninterp spec fn xxh32(seed: u32, data: Seq<u8>) -> u32;

/// `twox_hash::XxHash32::oneshot`: the XXH32 hash of the bytes with the seed.
#[verifier::external_body]
fn xxhash32_oneshot(seed: u32, data: &[u8]) -> (r: u32)
    ensures
        r == xxh32(seed, data@),
{
    twox_hash::XxHash32::oneshot(seed, data)
}

/// The little-endian bytes of an `i32`.
pub open spec fn le_bytes(v: i32) -> Seq<u8> {
    let u = v as u32;
    seq![(u % 256) as u8, (u / 256 % 256) as u8, (u / 65536 % 256) as u8, (u / 16777216) as u8]
}

/// Appends the little-endian bytes of `v`.
fn push_le_bytes(out: &mut Vec<u8>, v: i32)
    ensures
        final(out)@ == old(out)@ + le_bytes(v),
{
    let u = v as u32;
    out.push((u % 256) as u8);
    out.push((u / 256 % 256) as u8);
    out.push((u / 65536 % 256) as u8);
    out.push((u / 16777216) as u8);
    assert(final(out)@ =~= old(out)@ + le_bytes(v)) by {
        assert(out@ =~= old(out)@ + le_bytes(v));
    }
}

/// The cell of a coordinate: pixels are grouped in blocks of `scale`, by
/// division toward zero, when `scale` exceeds 1.
pub open spec fn noise_cell(v: i32, scale: i32) -> i32 {
    if scale > 1 {
        crate::pattern::tdiv(v as int, scale as int) as i32
    } else {
        v
    }
}

/// The 24 high bits of the hash of a cell: white noise at pixel `(x, y)` is
/// these bits over 2^24. The cell's coordinates are hashed as little-endian
/// bytes, `x` then `y`.
pub open spec fn white_noise_bits_of(x: i32, y: i32, scale: i32, seed: u32) -> u32 {
    xxh32(seed, le_bytes(noise_cell(x, scale)) + le_bytes(noise_cell(y, scale))) / 256
}

/// The 24 random bits of white noise at pixel `(x, y)`.
pub fn white_noise_bits(x: i32, y: i32, scale: i32, seed: u32) -> (r: u32)
    ensures
        r == white_noise_bits_of(x, y, scale, seed),
        r < 0x100_0000,
{
    let (cx, cy) = if scale > 1 {
        (crate::pattern::div_trunc(x, scale), crate::pattern::div_trunc(y, scale))
    } else {
        (x, y)
    };
    let mut data: Vec<u8> = Vec::new();
    push_le_bytes(&mut data, cx);
    push_le_bytes(&mut data, cy);
    let h = xxhash32_oneshot(seed, data.as_slice());
    assert(data@ =~= le_bytes(noise_cell(x, scale)) + le_bytes(noise_cell(y, scale)));
    h / 256
}

/// White noise is blocky: pixels whose coordinates fall in the same cells
/// get the same bits.
pub proof fn lemma_white_noise_cells(x1: i32, y1: i32, x2: i32, y2: i32, scale: i32, seed: u32)
    requires
        noise_cell(x1, scale) == noise_cell(x2, scale),
        noise_cell(y1, scale) == noise_cell(y2, scale),
    ensures
        white_noise_bits_of(x1, y1, scale, seed) == white_noise_bits_of(x2, y2, scale, seed),
{
}

} // verus!
