//! Pixel indices of the square texture and hashing.
use vstd::prelude::*;
use crate::IMG_SIZE;
use core::hash::Hasher;
use std::collections::hash_map::DefaultHasher;
use vstd::std_specs::hash::DefaultHasherAdditionalSpecFns;

verus! {

/// Whether a point lies in the texture.
pub open spec fn spec_in_bounds(x: int, y: int) -> bool {
    0 <= x < IMG_SIZE && 0 <= y < IMG_SIZE
}

pub fn in_bounds(p: (i32, i32)) -> (r: bool)
    ensures
        r == spec_in_bounds(p.0 as int, p.1 as int),
{
    p.0 >= 0 && p.1 >= 0 && p.0 < IMG_SIZE && p.1 < IMG_SIZE
}

/// The row-major index of pixel `(x, y)` (a negative index wraps around, as
/// `as usize` does).
pub fn idx(x: i32, y: i32) -> (r: usize)
    requires
        i32::MIN <= y * IMG_SIZE <= i32::MAX,
        i32::MIN <= y * IMG_SIZE + x <= i32::MAX,
    ensures
        r == (y * IMG_SIZE + x) as usize,
{
    (y * IMG_SIZE + x) as usize
}

/// The index of the pixel nearest to `(x, y)` within the texture.
pub fn idx_safe(x: i32, y: i32) -> (r: usize)
    ensures
        r == crate::pattern::clamp(y as int, 0, IMG_SIZE - 1) * IMG_SIZE + crate::pattern::clamp(
            x as int,
            0,
            IMG_SIZE - 1,
        ),
        r < crate::IMG_PIXEL_COUNT,
{
    let x = crate::pattern::clamp_i32(x, 0, IMG_SIZE - 1);
    let y = crate::pattern::clamp_i32(y, 0, IMG_SIZE - 1);
    idx(x, y)
}

/// The value of the low 32 bits of `v` read as a two's-complement `i32`:
/// what `v as i32` gives.
pub open spec fn wrap_i32(v: nat) -> int {
    let t = v % 0x1_0000_0000;
    if t >= 0x8000_0000 {
        t - 0x1_0000_0000
    } else {
        t as int
    }
}

/// The pixel `(x, y)` of a row-major index. The index is first taken as an
/// `i32` (its low 32 bits, two's complement); a negative value is divided
/// and reduced rounding toward zero, as `/` and `%` do.
pub fn idx2coords(index: usize) -> (r: (i32, i32))
    ensures
        r.0 == wrap_i32(index as nat) - IMG_SIZE as int * trunc_div(wrap_i32(index as nat), IMG_SIZE as int),
        r.1 == trunc_div(wrap_i32(index as nat), IMG_SIZE as int),
        index <= i32::MAX ==> r.0 == index as int % IMG_SIZE as int && r.1 == index as int / IMG_SIZE as int,
{
    let low: u64 = index as u64 % 0x1_0000_0000;
    let v: i32 = if low >= 0x8000_0000 {
        (low as i64 - 0x1_0000_0000) as i32
    } else {
        low as i32
    };
    let x = v % IMG_SIZE;
    let y = v / IMG_SIZE;
    (x, y)
}

/// Integer division rounding toward zero, for a positive divisor.
pub open spec fn trunc_div(a: int, b: int) -> int {
    if a >= 0 {
        a / b
    } else {
        -((-a) / b)
    }
}

/// The `n` low bytes of `v`, least significant first.
pub open spec fn le_bytes(v: nat, n: nat) -> Seq<u8>
    decreases n,
{
    if n == 0 {
        Seq::empty()
    } else {
        seq![(v % 256) as u8] + le_bytes(v / 256, (n - 1) as nat)
    }
}

/// The `n` low bytes of `v`, least significant first.
pub fn le_chunk(v: u128, n: usize) -> (r: Vec<u8>)
    requires
        n <= 16,
    ensures
        r@ == le_bytes(v as nat, n as nat),
{
    let mut out: Vec<u8> = Vec::new();
    let mut rest: u128 = v;
    let mut i: usize = 0;
    assert(out@ + le_bytes(rest as nat, n as nat) =~= le_bytes(v as nat, n as nat));
    while i < n
        invariant
            i <= n,
            out@ + le_bytes(rest as nat, (n - i) as nat) == le_bytes(v as nat, n as nat),
        decreases n - i,
    {
        let ghost before = out@;
        out.push((rest % 256) as u8);
        assert(le_bytes(rest as nat, (n - i) as nat) == seq![(rest % 256) as u8] + le_bytes(
            (rest / 256) as nat,
            (n - i - 1) as nat,
        ));
        assert(out@ + le_bytes((rest / 256) as nat, (n - i - 1) as nat) =~= before + le_bytes(
            rest as nat,
            (n - i) as nat,
        ));
        rest = rest / 256;
        i += 1;
    }
    assert(le_bytes(rest as nat, 0) =~= Seq::<u8>::empty());
    assert(out@ =~= le_bytes(v as nat, n as nat));
    out
}

/// The bits of an `i32` in two's complement, as a number.
pub open spec fn i32_bits(v: i32) -> nat {
    if v < 0 {
        (v + 0x1_0000_0000) as nat
    } else {
        v as nat
    }
}

/// Writes one chunk of bytes into the hasher.
pub fn write_chunk(hasher: &mut DefaultHasher, bytes: Vec<u8>)
    ensures
        final(hasher)@ == old(hasher)@.push(bytes@),
{
    hasher.write(bytes.as_slice());
}

/// Writes the `n` little-endian bytes of `v` into the hasher as one chunk.
pub fn write_le(hasher: &mut DefaultHasher, v: u128, n: usize)
    requires
        n <= 16,
    ensures
        final(hasher)@ == old(hasher)@.push(le_bytes(v as nat, n as nat)),
{
    let bytes = le_chunk(v, n);
    write_chunk(hasher, bytes);
}

/// The bytes of an `i32` as hashing writes them.
pub open spec fn i32_chunk(v: i32) -> Seq<u8> {
    le_bytes(i32_bits(v), 4)
}

/// Writes the four little-endian bytes of an `i32` (two's complement).
pub fn write_i32(hasher: &mut DefaultHasher, v: i32)
    ensures
        final(hasher)@ == old(hasher)@.push(i32_chunk(v)),
{
    let bits: u128 = if v < 0 {
        (v as i64 + 0x1_0000_0000) as u128
    } else {
        v as u128
    };
    write_le(hasher, bits, 4);
}

/// The chunk that a length, or an enum's variant index, is written as: eight
/// little-endian bytes, as a 64-bit `usize` or `isize` is.
pub open spec fn word_chunk(v: nat) -> Seq<u8> {
    le_bytes(v, 8)
}

/// Writes a length or a variant index as eight little-endian bytes.
pub fn write_word(hasher: &mut DefaultHasher, v: u64)
    ensures
        final(hasher)@ == old(hasher)@.push(word_chunk(v as nat)),
{
    write_le(hasher, v as u128, 8);
}

/// The chunk a `bool` is written as: one byte, 1 for true.
pub open spec fn bool_chunk(b: bool) -> Seq<u8> {
    seq![if b { 1u8 } else { 0u8 }]
}

/// Writes a `bool` as one byte.
pub fn write_bool(hasher: &mut DefaultHasher, b: bool)
    ensures
        final(hasher)@ == old(hasher)@.push(bool_chunk(b)),
{
    let mut bytes: Vec<u8> = Vec::new();
    bytes.push(if b { 1u8 } else { 0u8 });
    assert(bytes@ =~= bool_chunk(b));
    write_chunk(hasher, bytes);
}

/// A value that can be written into a `DefaultHasher`: the chunks of bytes
/// it writes, one `DefaultHasher::write` each, in the order in which the
/// derived `Hash` impl hashes its parts.
pub trait HashData {
    spec fn hash_chunks(&self) -> Seq<Seq<u8>>;

    fn feed(&self, hasher: &mut DefaultHasher)
        ensures
            final(hasher)@ == old(hasher)@ + self.hash_chunks(),
    ;
}

/// What `single_hash` gives for `t`: `DefaultHasher::finish` after a fresh
/// hasher took the chunks of `t`.
pub open spec fn hash_of<T: HashData>(t: &T) -> u64 {
    DefaultHasher::spec_finish(t.hash_chunks())
}

/// The hash of a value under a fresh `DefaultHasher` (fixed keys): the same
/// value gives the same hash on every call.
pub fn single_hash<T: HashData>(t: &T) -> (r: u64)
    ensures
        r == hash_of(t),
{
    let mut hasher = DefaultHasher::new();
    t.feed(&mut hasher);
    assert(hasher@ =~= t.hash_chunks());
    hasher.finish()
}

impl HashData for u128 {
    open spec fn hash_chunks(&self) -> Seq<Seq<u8>> {
        seq![le_bytes(*self as nat, 16)]
    }

    fn feed(&self, hasher: &mut DefaultHasher) {
        write_le(hasher, *self, 16);
        assert(hasher@ =~= old(hasher)@ + self.hash_chunks());
    }
}

/// Index and pixel correspond one to one over the texture.
pub proof fn lemma_idx_coords(x: int, y: int)
    requires
        spec_in_bounds(x, y),
    ensures
        0 <= y * IMG_SIZE + x < crate::IMG_PIXEL_COUNT,
        (y * IMG_SIZE + x) % IMG_SIZE as int == x,
        (y * IMG_SIZE + x) / IMG_SIZE as int == y,
{
    assert(0 <= y * 128 + x < 16384) by (nonlinear_arith)
        requires
            0 <= x < 128,
            0 <= y < 128,
    ;
    vstd::arithmetic::div_mod::lemma_fundamental_div_mod_converse(y * 128 + x, 128, y, x);
}

} // verus!
