//! The bytes that hashing a texture definition writes, part by part, in the
//! order of its derived `Hash` impls: integers little-endian, lengths and
//! variant indices as eight bytes, a string's UTF-8 bytes followed by 0xff.
use vstd::prelude::*;
use std::collections::hash_map::DefaultHasher;
use core::hash::Hasher;
use vstd::string::StringSliceAdditionalSpecFns;
use vstd::utf8::encode_utf8;
use crate::color::{Color, EditableColor};
use crate::definition::{
    AOSettings, BevelOptions, BlendMode, Coverage, FloatAsInt, LightingSettings, NoiseMode,
    NoiseSettings, NoiseType, RectSettings, RoundOptions, TextureDefinition, TexturePass,
    TileOptions, TileShiftDirection,
};
use crate::pattern::Pattern;
use crate::util::{
    HashData, bool_chunk, i32_bits, i32_chunk, le_bytes, le_chunk, word_chunk, write_bool, write_chunk,
    write_i32, write_le, write_word,
};

verus! {

/// Appends the `n` little-endian bytes of `v`.
fn append_le(out: &mut Vec<u8>, v: u128, n: usize)
    requires
        n <= 16,
    ensures
        final(out)@ == old(out)@ + le_bytes(v as nat, n as nat),
{
    let mut bytes = le_chunk(v, n);
    out.append(&mut bytes);
}

/// The bytes of a run of `i32` values, each little-endian.
pub open spec fn i32s_bytes(s: Seq<i32>) -> Seq<u8>
    decreases s.len(),
{
    if s.len() == 0 {
        Seq::empty()
    } else {
        i32s_bytes(s.drop_last()) + i32_chunk(s.last())
    }
}

/// The bytes of a run of `u16` values, each little-endian.
pub open spec fn u16s_bytes(s: Seq<u16>) -> Seq<u8>
    decreases s.len(),
{
    if s.len() == 0 {
        Seq::empty()
    } else {
        u16s_bytes(s.drop_last()) + le_bytes(s.last() as nat, 2)
    }
}

/// Writes three `i32` values as their length and then one chunk of bytes.
fn write_i32_triple(hasher: &mut DefaultHasher, a: &[i32; 3])
    ensures
        final(hasher)@ == old(hasher)@ + seq![word_chunk(3), i32s_bytes(a@)],
{
    write_word(hasher, 3);
    let mut bytes: Vec<u8> = Vec::new();
    let mut i: usize = 0;
    while i < 3
        invariant
            i <= 3,
            a@.len() == 3,
            bytes@ == i32s_bytes(a@.take(i as int)),
        decreases 3 - i,
    {
        let v = a[i];
        let bits: u128 = if v < 0 {
            (v as i64 + 0x1_0000_0000) as u128
        } else {
            v as u128
        };
        append_le(&mut bytes, bits, 4);
        assert(a@.take(i + 1).drop_last() =~= a@.take(i as int));
        i += 1;
    }
    assert(a@.take(3) =~= a@);
    write_chunk(hasher, bytes);
    assert(hasher@ =~= old(hasher)@ + seq![word_chunk(3), i32s_bytes(a@)]);
}

/// Writes sixteen `u16` values as their length and then one chunk of bytes.
fn write_u16_rows(hasher: &mut DefaultHasher, a: &[u16; 16])
    ensures
        final(hasher)@ == old(hasher)@ + seq![word_chunk(16), u16s_bytes(a@)],
{
    write_word(hasher, 16);
    let mut bytes: Vec<u8> = Vec::new();
    let mut i: usize = 0;
    while i < 16
        invariant
            i <= 16,
            a@.len() == 16,
            bytes@ == u16s_bytes(a@.take(i as int)),
        decreases 16 - i,
    {
        append_le(&mut bytes, a[i] as u128, 2);
        assert(a@.take(i + 1).drop_last() =~= a@.take(i as int));
        i += 1;
    }
    assert(a@.take(16) =~= a@);
    write_chunk(hasher, bytes);
    assert(hasher@ =~= old(hasher)@ + seq![word_chunk(16), u16s_bytes(a@)]);
}

impl<const F: u32> HashData for FloatAsInt<F> {
    open spec fn hash_chunks(&self) -> Seq<Seq<u8>> {
        seq![i32_chunk(self.v)]
    }

    fn feed(&self, hasher: &mut DefaultHasher) {
        write_i32(hasher, self.v);
        assert(hasher@ =~= old(hasher)@ + self.hash_chunks());
    }
}

impl HashData for Coverage {
    open spec fn hash_chunks(&self) -> Seq<Seq<u8>> {
        seq![
            word_chunk(
                match self {
                    Coverage::Full => 0,
                    Coverage::Rectangle => 1,
                    Coverage::Pattern => 2,
                },
            ),
        ]
    }

    fn feed(&self, hasher: &mut DefaultHasher) {
        let index: u64 = match self {
            Coverage::Full => 0,
            Coverage::Rectangle => 1,
            Coverage::Pattern => 2,
        };
        write_word(hasher, index);
        assert(hasher@ =~= old(hasher)@ + self.hash_chunks());
    }
}

impl HashData for BlendMode {
    open spec fn hash_chunks(&self) -> Seq<Seq<u8>> {
        seq![
            word_chunk(
                match self {
                    BlendMode::Alpha => 0,
                    BlendMode::Additive => 1,
                    BlendMode::Multiply => 2,
                },
            ),
        ]
    }

    fn feed(&self, hasher: &mut DefaultHasher) {
        let index: u64 = match self {
            BlendMode::Alpha => 0,
            BlendMode::Additive => 1,
            BlendMode::Multiply => 2,
        };
        write_word(hasher, index);
        assert(hasher@ =~= old(hasher)@ + self.hash_chunks());
    }
}

impl HashData for NoiseType {
    open spec fn hash_chunks(&self) -> Seq<Seq<u8>> {
        seq![
            word_chunk(
                match self {
                    NoiseType::NoNoise => 0,
                    NoiseType::Perlin => 1,
                    NoiseType::Gaussian => 2,
                    NoiseType::White => 3,
                },
            ),
        ]
    }

    fn feed(&self, hasher: &mut DefaultHasher) {
        let index: u64 = match self {
            NoiseType::NoNoise => 0,
            NoiseType::Perlin => 1,
            NoiseType::Gaussian => 2,
            NoiseType::White => 3,
        };
        write_word(hasher, index);
        assert(hasher@ =~= old(hasher)@ + self.hash_chunks());
    }
}

impl HashData for NoiseMode {
    open spec fn hash_chunks(&self) -> Seq<Seq<u8>> {
        seq![
            word_chunk(
                match self {
                    NoiseMode::Color => 0,
                    NoiseMode::Alpha => 1,
                },
            ),
        ]
    }

    fn feed(&self, hasher: &mut DefaultHasher) {
        let index: u64 = match self {
            NoiseMode::Color => 0,
            NoiseMode::Alpha => 1,
        };
        write_word(hasher, index);
        assert(hasher@ =~= old(hasher)@ + self.hash_chunks());
    }
}

impl HashData for TileShiftDirection {
    open spec fn hash_chunks(&self) -> Seq<Seq<u8>> {
        seq![
            word_chunk(
                match self {
                    TileShiftDirection::Horizontal => 0,
                    TileShiftDirection::Vertical => 1,
                },
            ),
        ]
    }

    fn feed(&self, hasher: &mut DefaultHasher) {
        let index: u64 = match self {
            TileShiftDirection::Horizontal => 0,
            TileShiftDirection::Vertical => 1,
        };
        write_word(hasher, index);
        assert(hasher@ =~= old(hasher)@ + self.hash_chunks());
    }
}

impl HashData for LightingSettings {
    open spec fn hash_chunks(&self) -> Seq<Seq<u8>> {
        seq![word_chunk(3), i32s_bytes(self.direction@), i32_chunk(self.impact)]
    }

    fn feed(&self, hasher: &mut DefaultHasher) {
        write_i32_triple(hasher, &self.direction);
        write_i32(hasher, self.impact);
        assert(hasher@ =~= old(hasher)@ + self.hash_chunks());
    }
}

impl HashData for AOSettings {
    open spec fn hash_chunks(&self) -> Seq<Seq<u8>> {
        seq![
            i32_chunk(self.radius),
            i32_chunk(self.strength),
            i32_chunk(self.bias),
            bool_chunk(self.ignore_surface_normal),
        ]
    }

    fn feed(&self, hasher: &mut DefaultHasher) {
        write_i32(hasher, self.radius);
        write_i32(hasher, self.strength);
        write_i32(hasher, self.bias);
        write_bool(hasher, self.ignore_surface_normal);
        assert(hasher@ =~= old(hasher)@ + self.hash_chunks());
    }
}

impl HashData for NoiseSettings {
    open spec fn hash_chunks(&self) -> Seq<Seq<u8>> {
        self.noise_type.hash_chunks() + self.mode.hash_chunks() + seq![i32_chunk(self.pixel_scale)]
            + self.perlin_scale.hash_chunks() + seq![i32_chunk(self.perlin_octaves)]
            + self.perlin_strength.hash_chunks() + seq![le_bytes(self.seed as nat, 4)]
            + self.std.hash_chunks() + seq![bool_chunk(self.use_threshold)]
            + self.threshold.hash_chunks()
    }

    fn feed(&self, hasher: &mut DefaultHasher) {
        self.noise_type.feed(hasher);
        self.mode.feed(hasher);
        write_i32(hasher, self.pixel_scale);
        self.perlin_scale.feed(hasher);
        write_i32(hasher, self.perlin_octaves);
        self.perlin_strength.feed(hasher);
        write_le(hasher, self.seed as u128, 4);
        self.std.feed(hasher);
        write_bool(hasher, self.use_threshold);
        self.threshold.feed(hasher);
        assert(hasher@ =~= old(hasher)@ + self.hash_chunks());
    }
}

impl HashData for RoundOptions {
    open spec fn hash_chunks(&self) -> Seq<Seq<u8>> {
        seq![bool_chunk(self.enabled), i32_chunk(self.radius), bool_chunk(self.anti_alias)]
    }

    fn feed(&self, hasher: &mut DefaultHasher) {
        write_bool(hasher, self.enabled);
        write_i32(hasher, self.radius);
        write_bool(hasher, self.anti_alias);
        assert(hasher@ =~= old(hasher)@ + self.hash_chunks());
    }
}

impl HashData for BevelOptions {
    open spec fn hash_chunks(&self) -> Seq<Seq<u8>> {
        seq![
            bool_chunk(self.enabled),
            bool_chunk(self.convex),
            i32_chunk(self.size),
            i32_chunk(self.steepness),
            bool_chunk(self.ease_in),
            bool_chunk(self.ease_out),
        ]
    }

    fn feed(&self, hasher: &mut DefaultHasher) {
        write_bool(hasher, self.enabled);
        write_bool(hasher, self.convex);
        write_i32(hasher, self.size);
        write_i32(hasher, self.steepness);
        write_bool(hasher, self.ease_in);
        write_bool(hasher, self.ease_out);
        assert(hasher@ =~= old(hasher)@ + self.hash_chunks());
    }
}

impl HashData for RectSettings {
    open spec fn hash_chunks(&self) -> Seq<Seq<u8>> {
        seq![i32_chunk(self.width), i32_chunk(self.height)] + self.round.hash_chunks()
            + self.bevel.hash_chunks()
    }

    fn feed(&self, hasher: &mut DefaultHasher) {
        write_i32(hasher, self.width);
        write_i32(hasher, self.height);
        self.round.feed(hasher);
        self.bevel.feed(hasher);
        assert(hasher@ =~= old(hasher)@ + self.hash_chunks());
    }
}

impl HashData for TileOptions {
    open spec fn hash_chunks(&self) -> Seq<Seq<u8>> {
        seq![
            bool_chunk(self.enabled),
            i32_chunk(self.x_gap),
            i32_chunk(self.y_gap),
            i32_chunk(self.x_count),
            i32_chunk(self.y_count),
            i32_chunk(self.shift),
        ] + self.shift_direction.hash_chunks() + seq![bool_chunk(self.variation_enabled)]
            + self.variation.hash_chunks() + seq![le_bytes(self.variation_seed as nat, 4)]
    }

    fn feed(&self, hasher: &mut DefaultHasher) {
        write_bool(hasher, self.enabled);
        write_i32(hasher, self.x_gap);
        write_i32(hasher, self.y_gap);
        write_i32(hasher, self.x_count);
        write_i32(hasher, self.y_count);
        write_i32(hasher, self.shift);
        self.shift_direction.feed(hasher);
        write_bool(hasher, self.variation_enabled);
        self.variation.feed(hasher);
        write_le(hasher, self.variation_seed as u128, 4);
        assert(hasher@ =~= old(hasher)@ + self.hash_chunks());
    }
}

impl HashData for Pattern {
    open spec fn hash_chunks(&self) -> Seq<Seq<u8>> {
        seq![word_chunk(16), u16s_bytes(self.rows@), i32_chunk(self.scale), bool_chunk(self.mirror_x)]
    }

    fn feed(&self, hasher: &mut DefaultHasher) {
        write_u16_rows(hasher, &self.rows);
        write_i32(hasher, self.scale);
        write_bool(hasher, self.mirror_x);
        assert(hasher@ =~= old(hasher)@ + self.hash_chunks());
    }
}

impl HashData for Color {
    open spec fn hash_chunks(&self) -> Seq<Seq<u8>> {
        seq![word_chunk(4), self.rgba@]
    }

    fn feed(&self, hasher: &mut DefaultHasher) {
        write_word(hasher, 4);
        let mut bytes: Vec<u8> = Vec::new();
        bytes.push(self.rgba[0]);
        bytes.push(self.rgba[1]);
        bytes.push(self.rgba[2]);
        bytes.push(self.rgba[3]);
        assert(bytes@ =~= self.rgba@);
        write_chunk(hasher, bytes);
        assert(hasher@ =~= old(hasher)@ + self.hash_chunks());
    }
}

/// An editable color hashes its color alone, not the text being edited.
impl<const ALPHA: bool> HashData for EditableColor<ALPHA> {
    open spec fn hash_chunks(&self) -> Seq<Seq<u8>> {
        self@.hash_chunks()
    }

    fn feed(&self, hasher: &mut DefaultHasher) {
        self.color().feed(hasher);
    }
}

/// An optional name: the variant index, then the text's UTF-8 bytes and 0xff.
impl HashData for Option<String> {
    open spec fn hash_chunks(&self) -> Seq<Seq<u8>> {
        match self {
            None => seq![word_chunk(0)],
            Some(s) => seq![word_chunk(1), encode_utf8(s@), seq![0xffu8]],
        }
    }

    fn feed(&self, hasher: &mut DefaultHasher) {
        match self {
            None => {
                write_word(hasher, 0);
            },
            Some(s) => {
                write_word(hasher, 1);
                let text: &str = s.as_str();
                hasher.write(text.as_bytes());
                let mut end: Vec<u8> = Vec::new();
                end.push(0xffu8);
                write_chunk(hasher, end);
            },
        }
        assert(hasher@ =~= old(hasher)@ + self.hash_chunks());
    }
}

impl HashData for TexturePass {
    open spec fn hash_chunks(&self) -> Seq<Seq<u8>> {
        self.name.hash_chunks() + self.coverage.hash_chunks() + seq![bool_chunk(self.enabled)]
            + self.color.hash_chunks() + self.noise.hash_chunks() + self.blend_mode.hash_chunks()
            + seq![i32_chunk(self.feature_x), i32_chunk(self.feature_y)]
            + self.rect.hash_chunks() + self.tile.hash_chunks() + self.pattern.hash_chunks()
    }

    fn feed(&self, hasher: &mut DefaultHasher) {
        let ghost h0 = hasher@;
        self.name.feed(hasher);
        self.coverage.feed(hasher);
        write_bool(hasher, self.enabled);
        let ghost a = self.name.hash_chunks() + self.coverage.hash_chunks() + seq![bool_chunk(self.enabled)];
        assert(hasher@ =~= h0 + a);
        self.color.feed(hasher);
        self.noise.feed(hasher);
        self.blend_mode.feed(hasher);
        let ghost b = a + self.color.hash_chunks() + self.noise.hash_chunks() + self.blend_mode.hash_chunks();
        assert(hasher@ =~= h0 + b);
        write_i32(hasher, self.feature_x);
        write_i32(hasher, self.feature_y);
        let ghost c = b + seq![i32_chunk(self.feature_x), i32_chunk(self.feature_y)];
        assert(hasher@ =~= h0 + c);
        self.rect.feed(hasher);
        self.tile.feed(hasher);
        self.pattern.feed(hasher);
        assert(hasher@ =~= h0 + (c + self.rect.hash_chunks() + self.tile.hash_chunks() + self.pattern.hash_chunks()));
        assert(c + self.rect.hash_chunks() + self.tile.hash_chunks() + self.pattern.hash_chunks() == self.hash_chunks());
    }
}

/// The chunks of a run of passes, one after another.
pub open spec fn passes_chunks(passes: Seq<TexturePass>) -> Seq<Seq<u8>>
    decreases passes.len(),
{
    if passes.len() == 0 {
        Seq::empty()
    } else {
        passes_chunks(passes.drop_last()) + passes.last().hash_chunks()
    }
}

impl HashData for TextureDefinition {
    open spec fn hash_chunks(&self) -> Seq<Seq<u8>> {
        self.ao_settings.hash_chunks() + self.lighting_settings.hash_chunks() + seq![
            word_chunk(self.passes.len() as nat),
        ] + passes_chunks(self.passes@)
    }

    fn feed(&self, hasher: &mut DefaultHasher) {
        self.ao_settings.feed(hasher);
        self.lighting_settings.feed(hasher);
        write_word(hasher, self.passes.len() as u64);
        let ghost start = hasher@;
        let n = self.passes.len();
        let mut i: usize = 0;
        while i < n
            invariant
                i <= n,
                n == self.passes.len(),
                hasher@ == start + passes_chunks(self.passes@.take(i as int)),
            decreases n - i,
        {
            self.passes[i].feed(hasher);
            assert(self.passes@.take(i + 1).drop_last() =~= self.passes@.take(i as int));
            assert(hasher@ =~= start + passes_chunks(self.passes@.take(i + 1)));
            i += 1;
        }
        assert(self.passes@.take(n as int) =~= self.passes@);
        assert(hasher@ =~= old(hasher)@ + self.hash_chunks());
    }
}

/// The number that little-endian bytes denote.
pub open spec fn le_value(s: Seq<u8>) -> nat
    decreases s.len(),
{
    if s.len() == 0 {
        0
    } else {
        s[0] as nat + 256 * le_value(s.drop_first())
    }
}

/// `256` to the power `n`: the numbers that `n` bytes can hold.
pub open spec fn byte_bound(n: nat) -> nat
    decreases n,
{
    if n == 0 {
        1
    } else {
        256 * byte_bound((n - 1) as nat)
    }
}

/// Little-endian bytes give back the number they were made from.
proof fn lemma_le_value(v: nat, n: nat)
    requires
        v < byte_bound(n),
    ensures
        le_value(le_bytes(v, n)) == v,
        le_bytes(v, n).len() == n,
    decreases n,
{
    if n == 0 {
    } else {
        let b = byte_bound((n - 1) as nat);
        assert(v / 256 < b) by (nonlinear_arith)
            requires
                v < 256 * b,
        ;
        lemma_le_value(v / 256, (n - 1) as nat);
        let s = le_bytes(v, n);
        assert(s.drop_first() =~= le_bytes(v / 256, (n - 1) as nat));
        assert(v == v % 256 + 256 * (v / 256)) by (nonlinear_arith);
        assert(s[0] as nat == v % 256);
    }
}

proof fn lemma_byte_bounds()
    ensures
        byte_bound(2) == 0x1_0000,
        byte_bound(4) == 0x1_0000_0000,
        byte_bound(8) == 0x1_0000_0000_0000_0000,
{
    assert(byte_bound(0) == 1);
    assert(byte_bound(1) == 256);
    assert(byte_bound(2) == 0x1_0000);
    assert(byte_bound(3) == 0x100_0000);
    assert(byte_bound(4) == 0x1_0000_0000);
    assert(byte_bound(5) == 0x100_0000_0000);
    assert(byte_bound(6) == 0x1_0000_0000_0000);
    assert(byte_bound(7) == 0x100_0000_0000_0000);
}

/// Equal little-endian bytes of numbers that fit in them come from equal
/// numbers.
proof fn lemma_le_bytes_injective(a: nat, b: nat, n: nat)
    requires
        a < byte_bound(n),
        b < byte_bound(n),
        le_bytes(a, n) == le_bytes(b, n),
    ensures
        a == b,
{
    lemma_le_value(a, n);
    lemma_le_value(b, n);
}

proof fn lemma_i32_chunk_injective(a: i32, b: i32)
    requires
        i32_chunk(a) == i32_chunk(b),
    ensures
        a == b,
{
    lemma_byte_bounds();
    lemma_le_bytes_injective(i32_bits(a), i32_bits(b), 4);
}

proof fn lemma_u32_chunk_injective(a: u32, b: u32)
    requires
        le_bytes(a as nat, 4) == le_bytes(b as nat, 4),
    ensures
        a == b,
{
    lemma_byte_bounds();
    lemma_le_bytes_injective(a as nat, b as nat, 4);
}

proof fn lemma_word_chunk_injective(a: nat, b: nat)
    requires
        a < 0x1_0000_0000_0000_0000,
        b < 0x1_0000_0000_0000_0000,
        word_chunk(a) == word_chunk(b),
    ensures
        a == b,
{
    lemma_byte_bounds();
    lemma_le_bytes_injective(a, b, 8);
}

proof fn lemma_u16s_bytes_injective(a: Seq<u16>, b: Seq<u16>)
    requires
        a.len() == b.len(),
        u16s_bytes(a) == u16s_bytes(b),
    ensures
        a == b,
    decreases a.len(),
{
    if a.len() > 0 {
        lemma_u16s_bytes_len(a.drop_last());
        lemma_u16s_bytes_len(b.drop_last());
        let (pa, pb) = (u16s_bytes(a.drop_last()), u16s_bytes(b.drop_last()));
        let (la, lb) = (le_bytes(a.last() as nat, 2), le_bytes(b.last() as nat, 2));
        lemma_byte_bounds();
        lemma_le_value(a.last() as nat, 2);
        lemma_le_value(b.last() as nat, 2);
        assert(pa =~= u16s_bytes(a).subrange(0, pa.len() as int));
        assert(pb =~= u16s_bytes(b).subrange(0, pb.len() as int));
        assert(la =~= u16s_bytes(a).subrange(pa.len() as int, u16s_bytes(a).len() as int));
        assert(lb =~= u16s_bytes(b).subrange(pb.len() as int, u16s_bytes(b).len() as int));
        lemma_u16s_bytes_injective(a.drop_last(), b.drop_last());
        lemma_le_bytes_injective(a.last() as nat, b.last() as nat, 2);
        assert(a =~= a.drop_last().push(a.last()));
        assert(b =~= b.drop_last().push(b.last()));
    }
}

proof fn lemma_u16s_bytes_len(a: Seq<u16>)
    ensures
        u16s_bytes(a).len() == 2 * a.len(),
    decreases a.len(),
{
    if a.len() > 0 {
        lemma_u16s_bytes_len(a.drop_last());
        lemma_byte_bounds();
        lemma_le_value(a.last() as nat, 2);
    }
}

proof fn lemma_bool_chunk_injective(a: bool, b: bool)
    requires
        bool_chunk(a) == bool_chunk(b),
    ensures
        a == b,
{
    assert(bool_chunk(a)[0] == if a { 1u8 } else { 0u8 });
    assert(bool_chunk(b)[0] == if b { 1u8 } else { 0u8 });
    assert(bool_chunk(a)[0] == bool_chunk(b)[0]);
}

/// The first byte of a word is its value's lowest byte.
proof fn lemma_word_first_byte(a: nat)
    ensures
        word_chunk(a)[0] == (a % 256) as u8,
{
    assert(le_bytes(a, 8) == seq![(a % 256) as u8] + le_bytes(a / 256, 7));
}

proof fn lemma_coverage_injective(a: Coverage, b: Coverage)
    requires
        a.hash_chunks()[0] == b.hash_chunks()[0],
    ensures
        a == b,
{
    let (i, j) = (a.hash_chunks()[0], b.hash_chunks()[0]);
    lemma_word_first_byte(match a { Coverage::Full => 0, Coverage::Rectangle => 1, Coverage::Pattern => 2 });
    lemma_word_first_byte(match b { Coverage::Full => 0, Coverage::Rectangle => 1, Coverage::Pattern => 2 });
    assert(i[0] == j[0]);
}

proof fn lemma_blend_mode_injective(a: BlendMode, b: BlendMode)
    requires
        a.hash_chunks()[0] == b.hash_chunks()[0],
    ensures
        a == b,
{
    let (i, j) = (a.hash_chunks()[0], b.hash_chunks()[0]);
    lemma_word_first_byte(match a { BlendMode::Alpha => 0, BlendMode::Additive => 1, BlendMode::Multiply => 2 });
    lemma_word_first_byte(match b { BlendMode::Alpha => 0, BlendMode::Additive => 1, BlendMode::Multiply => 2 });
    assert(i[0] == j[0]);
}

proof fn lemma_noise_type_injective(a: NoiseType, b: NoiseType)
    requires
        a.hash_chunks()[0] == b.hash_chunks()[0],
    ensures
        a == b,
{
    let (i, j) = (a.hash_chunks()[0], b.hash_chunks()[0]);
    lemma_word_first_byte(
        match a { NoiseType::NoNoise => 0, NoiseType::Perlin => 1, NoiseType::Gaussian => 2, NoiseType::White => 3 },
    );
    lemma_word_first_byte(
        match b { NoiseType::NoNoise => 0, NoiseType::Perlin => 1, NoiseType::Gaussian => 2, NoiseType::White => 3 },
    );
    assert(i[0] == j[0]);
}

proof fn lemma_noise_mode_injective(a: NoiseMode, b: NoiseMode)
    requires
        a.hash_chunks()[0] == b.hash_chunks()[0],
    ensures
        a == b,
{
    let (i, j) = (a.hash_chunks()[0], b.hash_chunks()[0]);
    lemma_word_first_byte(match a { NoiseMode::Color => 0, NoiseMode::Alpha => 1 });
    lemma_word_first_byte(match b { NoiseMode::Color => 0, NoiseMode::Alpha => 1 });
    assert(i[0] == j[0]);
}

proof fn lemma_shift_direction_injective(a: TileShiftDirection, b: TileShiftDirection)
    requires
        a.hash_chunks()[0] == b.hash_chunks()[0],
    ensures
        a == b,
{
    let (i, j) = (a.hash_chunks()[0], b.hash_chunks()[0]);
    lemma_word_first_byte(match a { TileShiftDirection::Horizontal => 0, TileShiftDirection::Vertical => 1 });
    lemma_word_first_byte(match b { TileShiftDirection::Horizontal => 0, TileShiftDirection::Vertical => 1 });
    assert(i[0] == j[0]);
}

/// Equal names write equal chunks, and only they do.
proof fn lemma_name_injective(a: Option<String>, b: Option<String>)
    requires
        a.hash_chunks() == b.hash_chunks(),
    ensures
        match (a, b) {
            (None, None) => true,
            (Some(x), Some(y)) => x@ == y@,
            _ => false,
        },
{
    assert(a.hash_chunks().len() == if a is None { 1int } else { 3 });
    assert(b.hash_chunks().len() == if b is None { 1int } else { 3 });
    if let (Some(x), Some(y)) = (a, b) {
        assert(a.hash_chunks()[1] == encode_utf8(x@));
        assert(b.hash_chunks()[1] == encode_utf8(y@));
        vstd::utf8::encode_utf8_decode_utf8(x@);
        vstd::utf8::encode_utf8_decode_utf8(y@);
    }
}

/// Two joined sequences with equal right parts of equal length: the parts
/// are equal.
proof fn lemma_split<T>(x1: Seq<T>, y1: Seq<T>, x2: Seq<T>, y2: Seq<T>)
    requires
        x1 + y1 == x2 + y2,
        y1.len() == y2.len(),
    ensures
        x1 == x2,
        y1 == y2,
{
    let z = x1 + y1;
    assert(x1 =~= z.subrange(0, x1.len() as int));
    assert(x2 =~= z.subrange(0, x2.len() as int));
    assert(y1 =~= z.subrange(x1.len() as int, z.len() as int));
    assert(y2 =~= z.subrange(x2.len() as int, z.len() as int));
}

proof fn lemma_noise_injective(a: NoiseSettings, b: NoiseSettings)
    requires
        a.hash_chunks() == b.hash_chunks(),
    ensures
        a == b,
{
    let (x, y) = (a.hash_chunks(), b.hash_chunks());
    assert(x[0] == y[0] && x[1] == y[1] && x[2] == y[2] && x[3] == y[3] && x[4] == y[4]);
    assert(x[5] == y[5] && x[6] == y[6] && x[7] == y[7] && x[8] == y[8] && x[9] == y[9]);
    lemma_noise_type_injective(a.noise_type, b.noise_type);
    lemma_noise_mode_injective(a.mode, b.mode);
    lemma_i32_chunk_injective(a.pixel_scale, b.pixel_scale);
    lemma_i32_chunk_injective(a.perlin_scale.v, b.perlin_scale.v);
    lemma_i32_chunk_injective(a.perlin_octaves, b.perlin_octaves);
    lemma_i32_chunk_injective(a.perlin_strength.v, b.perlin_strength.v);
    lemma_u32_chunk_injective(a.seed, b.seed);
    lemma_i32_chunk_injective(a.std.v, b.std.v);
    lemma_bool_chunk_injective(a.use_threshold, b.use_threshold);
    lemma_i32_chunk_injective(a.threshold.v, b.threshold.v);
}

proof fn lemma_rect_injective(a: RectSettings, b: RectSettings)
    requires
        a.hash_chunks() == b.hash_chunks(),
    ensures
        a == b,
{
    let (x, y) = (a.hash_chunks(), b.hash_chunks());
    assert(x[0] == y[0] && x[1] == y[1] && x[2] == y[2] && x[3] == y[3] && x[4] == y[4]);
    assert(x[5] == y[5] && x[6] == y[6] && x[7] == y[7] && x[8] == y[8] && x[9] == y[9]);
    assert(x[10] == y[10]);
    lemma_i32_chunk_injective(a.width, b.width);
    lemma_i32_chunk_injective(a.height, b.height);
    lemma_bool_chunk_injective(a.round.enabled, b.round.enabled);
    lemma_i32_chunk_injective(a.round.radius, b.round.radius);
    lemma_bool_chunk_injective(a.round.anti_alias, b.round.anti_alias);
    lemma_bool_chunk_injective(a.bevel.enabled, b.bevel.enabled);
    lemma_bool_chunk_injective(a.bevel.convex, b.bevel.convex);
    lemma_i32_chunk_injective(a.bevel.size, b.bevel.size);
    lemma_i32_chunk_injective(a.bevel.steepness, b.bevel.steepness);
    lemma_bool_chunk_injective(a.bevel.ease_in, b.bevel.ease_in);
    lemma_bool_chunk_injective(a.bevel.ease_out, b.bevel.ease_out);
}

proof fn lemma_tile_injective(a: TileOptions, b: TileOptions)
    requires
        a.hash_chunks() == b.hash_chunks(),
    ensures
        a == b,
{
    let (x, y) = (a.hash_chunks(), b.hash_chunks());
    assert(x[0] == y[0] && x[1] == y[1] && x[2] == y[2] && x[3] == y[3] && x[4] == y[4]);
    assert(x[5] == y[5] && x[6] == y[6] && x[7] == y[7] && x[8] == y[8] && x[9] == y[9]);
    lemma_bool_chunk_injective(a.enabled, b.enabled);
    lemma_i32_chunk_injective(a.x_gap, b.x_gap);
    lemma_i32_chunk_injective(a.y_gap, b.y_gap);
    lemma_i32_chunk_injective(a.x_count, b.x_count);
    lemma_i32_chunk_injective(a.y_count, b.y_count);
    lemma_i32_chunk_injective(a.shift, b.shift);
    lemma_shift_direction_injective(a.shift_direction, b.shift_direction);
    lemma_bool_chunk_injective(a.variation_enabled, b.variation_enabled);
    lemma_i32_chunk_injective(a.variation.v, b.variation.v);
    lemma_u32_chunk_injective(a.variation_seed, b.variation_seed);
}

proof fn lemma_pattern_injective(a: Pattern, b: Pattern)
    requires
        a.hash_chunks() == b.hash_chunks(),
    ensures
        a.rows@ == b.rows@,
        a.scale == b.scale,
        a.mirror_x == b.mirror_x,
{
    let (x, y) = (a.hash_chunks(), b.hash_chunks());
    assert(x[1] == y[1] && x[2] == y[2] && x[3] == y[3]);
    lemma_u16s_bytes_injective(a.rows@, b.rows@);
    lemma_i32_chunk_injective(a.scale, b.scale);
    lemma_bool_chunk_injective(a.mirror_x, b.mirror_x);
}

/// The hash of a pass sees every field it hashes: passes that write the same
/// chunks agree on their name's text, coverage, whether they are enabled,
/// color, noise, blend mode, place, rectangle, tiling and pattern. So passes
/// that differ in any of these (switching a pass off, say) write different
/// bytes into the hasher.
pub proof fn lemma_pass_hash_sees_every_field(a: TexturePass, b: TexturePass)
    requires
        a.hash_chunks() == b.hash_chunks(),
    ensures
        match (a.name, b.name) {
            (None, None) => true,
            (Some(x), Some(y)) => x@ == y@,
            _ => false,
        },
        a.coverage == b.coverage,
        a.enabled == b.enabled,
        a.color@.rgba@ == b.color@.rgba@,
        a.noise == b.noise,
        a.blend_mode == b.blend_mode,
        a.feature_x == b.feature_x,
        a.feature_y == b.feature_y,
        a.rect == b.rect,
        a.tile == b.tile,
        a.pattern.rows@ == b.pattern.rows@,
        a.pattern.scale == b.pattern.scale,
        a.pattern.mirror_x == b.pattern.mirror_x,
{
    let a1 = a.name.hash_chunks();
    let b1 = b.name.hash_chunks();
    let a2 = a1 + a.coverage.hash_chunks();
    let b2 = b1 + b.coverage.hash_chunks();
    let a3 = a2 + seq![bool_chunk(a.enabled)];
    let b3 = b2 + seq![bool_chunk(b.enabled)];
    let a4 = a3 + a.color.hash_chunks();
    let b4 = b3 + b.color.hash_chunks();
    let a5 = a4 + a.noise.hash_chunks();
    let b5 = b4 + b.noise.hash_chunks();
    let a6 = a5 + a.blend_mode.hash_chunks();
    let b6 = b5 + b.blend_mode.hash_chunks();
    let a7 = a6 + seq![i32_chunk(a.feature_x), i32_chunk(a.feature_y)];
    let b7 = b6 + seq![i32_chunk(b.feature_x), i32_chunk(b.feature_y)];
    let a8 = a7 + a.rect.hash_chunks();
    let b8 = b7 + b.rect.hash_chunks();
    let a9 = a8 + a.tile.hash_chunks();
    let b9 = b8 + b.tile.hash_chunks();
    assert(a.hash_chunks() == a9 + a.pattern.hash_chunks());
    assert(b.hash_chunks() == b9 + b.pattern.hash_chunks());
    lemma_split(a9, a.pattern.hash_chunks(), b9, b.pattern.hash_chunks());
    lemma_split(a8, a.tile.hash_chunks(), b8, b.tile.hash_chunks());
    lemma_split(a7, a.rect.hash_chunks(), b7, b.rect.hash_chunks());
    lemma_split(
        a6,
        seq![i32_chunk(a.feature_x), i32_chunk(a.feature_y)],
        b6,
        seq![i32_chunk(b.feature_x), i32_chunk(b.feature_y)],
    );
    lemma_split(a5, a.blend_mode.hash_chunks(), b5, b.blend_mode.hash_chunks());
    lemma_split(a4, a.noise.hash_chunks(), b4, b.noise.hash_chunks());
    lemma_split(a3, a.color.hash_chunks(), b3, b.color.hash_chunks());
    lemma_split(a2, seq![bool_chunk(a.enabled)], b2, seq![bool_chunk(b.enabled)]);
    lemma_split(a1, a.coverage.hash_chunks(), b1, b.coverage.hash_chunks());
    lemma_pattern_injective(a.pattern, b.pattern);
    lemma_tile_injective(a.tile, b.tile);
    lemma_rect_injective(a.rect, b.rect);
    assert(seq![i32_chunk(a.feature_x), i32_chunk(a.feature_y)][0] == seq![i32_chunk(b.feature_x), i32_chunk(b.feature_y)][0]);
    assert(seq![i32_chunk(a.feature_x), i32_chunk(a.feature_y)][1] == seq![i32_chunk(b.feature_x), i32_chunk(b.feature_y)][1]);
    lemma_i32_chunk_injective(a.feature_x, b.feature_x);
    lemma_i32_chunk_injective(a.feature_y, b.feature_y);
    lemma_blend_mode_injective(a.blend_mode, b.blend_mode);
    lemma_noise_injective(a.noise, b.noise);
    assert(a.color.hash_chunks()[1] == b.color.hash_chunks()[1]);
    assert(seq![bool_chunk(a.enabled)][0] == seq![bool_chunk(b.enabled)][0]);
    lemma_bool_chunk_injective(a.enabled, b.enabled);
    lemma_coverage_injective(a.coverage, b.coverage);
    lemma_name_injective(a.name, b.name);
}

proof fn lemma_i32s_bytes_len(a: Seq<i32>)
    ensures
        i32s_bytes(a).len() == 4 * a.len(),
    decreases a.len(),
{
    if a.len() > 0 {
        lemma_i32s_bytes_len(a.drop_last());
        lemma_byte_bounds();
        lemma_le_value(i32_bits(a.last()), 4);
    }
}

proof fn lemma_i32s_bytes_injective(a: Seq<i32>, b: Seq<i32>)
    requires
        a.len() == b.len(),
        i32s_bytes(a) == i32s_bytes(b),
    ensures
        a == b,
    decreases a.len(),
{
    if a.len() > 0 {
        lemma_i32s_bytes_len(a.drop_last());
        lemma_i32s_bytes_len(b.drop_last());
        lemma_byte_bounds();
        lemma_le_value(i32_bits(a.last()), 4);
        lemma_le_value(i32_bits(b.last()), 4);
        lemma_split(i32s_bytes(a.drop_last()), i32_chunk(a.last()), i32s_bytes(b.drop_last()), i32_chunk(b.last()));
        lemma_i32s_bytes_injective(a.drop_last(), b.drop_last());
        lemma_i32_chunk_injective(a.last(), b.last());
        assert(a =~= a.drop_last().push(a.last()));
        assert(b =~= b.drop_last().push(b.last()));
    }
}

/// Two joined sequences with equal left parts: the right parts are equal.
proof fn lemma_split_left<T>(x: Seq<T>, y1: Seq<T>, y2: Seq<T>)
    requires
        x + y1 == x + y2,
    ensures
        y1 == y2,
{
    assert(y1 =~= (x + y1).subrange(x.len() as int, (x + y1).len() as int));
    assert(y2 =~= (x + y2).subrange(x.len() as int, (x + y2).len() as int));
}

/// The chunks of passes written one after another.
proof fn lemma_passes_chunks_concat(s: Seq<TexturePass>, t: Seq<TexturePass>)
    ensures
        passes_chunks(s + t) == passes_chunks(s) + passes_chunks(t),
    decreases t.len(),
{
    if t.len() == 0 {
        assert(s + t =~= s);
        assert(passes_chunks(s) + passes_chunks(t) =~= passes_chunks(s));
    } else {
        assert((s + t).drop_last() =~= s + t.drop_last());
        lemma_passes_chunks_concat(s, t.drop_last());
        assert(passes_chunks(s + t) =~= passes_chunks(s) + passes_chunks(t));
    }
}

/// The hash of a definition sees its shading settings and its number of
/// passes: definitions that write the same chunks agree on all of them.
pub proof fn lemma_definition_hash_sees_settings(a: TextureDefinition, b: TextureDefinition)
    requires
        a.hash_chunks() == b.hash_chunks(),
    ensures
        a.ao_settings == b.ao_settings,
        a.lighting_settings.direction@ == b.lighting_settings.direction@,
        a.lighting_settings.impact == b.lighting_settings.impact,
        a.passes.len() == b.passes.len(),
{
    let (x, y) = (a.hash_chunks(), b.hash_chunks());
    assert(x[0] == y[0] && x[1] == y[1] && x[2] == y[2] && x[3] == y[3]);
    assert(x[5] == y[5] && x[6] == y[6] && x[7] == y[7]);
    lemma_i32_chunk_injective(a.ao_settings.radius, b.ao_settings.radius);
    lemma_i32_chunk_injective(a.ao_settings.strength, b.ao_settings.strength);
    lemma_i32_chunk_injective(a.ao_settings.bias, b.ao_settings.bias);
    lemma_bool_chunk_injective(
        a.ao_settings.ignore_surface_normal,
        b.ao_settings.ignore_surface_normal,
    );
    lemma_i32s_bytes_injective(a.lighting_settings.direction@, b.lighting_settings.direction@);
    lemma_i32_chunk_injective(a.lighting_settings.impact, b.lighting_settings.impact);
    lemma_word_chunk_injective(a.passes.len() as nat, b.passes.len() as nat);
}

/// The hash of a definition sees every field of every pass: two definitions
/// that are alike but for pass `i` write the same chunks only when that pass
/// agrees in every field its hash covers. So switching one pass off, moving
/// it or recoloring it changes what the definition writes into the hasher.
pub proof fn lemma_definition_hash_sees_pass(a: TextureDefinition, b: TextureDefinition, i: int)
    requires
        a.ao_settings == b.ao_settings,
        a.lighting_settings == b.lighting_settings,
        a.passes.len() == b.passes.len(),
        0 <= i < a.passes.len(),
        forall|j: int| 0 <= j < a.passes.len() && j != i ==> a.passes@[j] == b.passes@[j],
        a.hash_chunks() == b.hash_chunks(),
    ensures
        match (a.passes@[i].name, b.passes@[i].name) {
            (None, None) => true,
            (Some(x), Some(y)) => x@ == y@,
            _ => false,
        },
        a.passes@[i].coverage == b.passes@[i].coverage,
        a.passes@[i].enabled == b.passes@[i].enabled,
        a.passes@[i].color@.rgba@ == b.passes@[i].color@.rgba@,
        a.passes@[i].noise == b.passes@[i].noise,
        a.passes@[i].blend_mode == b.passes@[i].blend_mode,
        a.passes@[i].feature_x == b.passes@[i].feature_x,
        a.passes@[i].feature_y == b.passes@[i].feature_y,
        a.passes@[i].rect == b.passes@[i].rect,
        a.passes@[i].tile == b.passes@[i].tile,
        a.passes@[i].pattern.rows@ == b.passes@[i].pattern.rows@,
        a.passes@[i].pattern.scale == b.passes@[i].pattern.scale,
        a.passes@[i].pattern.mirror_x == b.passes@[i].pattern.mirror_x,
{
    let pre = a.ao_settings.hash_chunks() + a.lighting_settings.hash_chunks() + seq![
        word_chunk(a.passes.len() as nat),
    ];
    assert(a.hash_chunks() == pre + passes_chunks(a.passes@));
    assert(b.hash_chunks() == pre + passes_chunks(b.passes@));
    lemma_split_left(pre, passes_chunks(a.passes@), passes_chunks(b.passes@));
    lemma_passes_chunks_one_differs(a.passes@, b.passes@, i);
    lemma_pass_hash_sees_every_field(a.passes@[i], b.passes@[i]);
}

proof fn lemma_passes_chunks_single(x: TexturePass)
    ensures
        passes_chunks(seq![x]) == x.hash_chunks(),
{
    assert(seq![x].drop_last() =~= Seq::<TexturePass>::empty());
    assert(passes_chunks(Seq::<TexturePass>::empty()) == Seq::<Seq<u8>>::empty());
    assert(Seq::<Seq<u8>>::empty() + x.hash_chunks() =~= x.hash_chunks());
}

/// Runs of passes alike but at `i` that write the same chunks write the same
/// chunks for the passes at `i`.
proof fn lemma_passes_chunks_one_differs(sa: Seq<TexturePass>, sb: Seq<TexturePass>, i: int)
    requires
        sa.len() == sb.len(),
        0 <= i < sa.len(),
        forall|j: int| 0 <= j < sa.len() && j != i ==> sa[j] == sb[j],
        passes_chunks(sa) == passes_chunks(sb),
    ensures
        sa[i].hash_chunks() == sb[i].hash_chunks(),
{
    let head = sa.take(i);
    let tail = sa.skip(i + 1);
    assert(head =~= sb.take(i));
    assert(tail =~= sb.skip(i + 1));
    assert(sa =~= head + seq![sa[i]] + tail);
    assert(sb =~= head + seq![sb[i]] + tail);
    lemma_passes_chunks_concat(head + seq![sa[i]], tail);
    lemma_passes_chunks_concat(head + seq![sb[i]], tail);
    lemma_passes_chunks_concat(head, seq![sa[i]]);
    lemma_passes_chunks_concat(head, seq![sb[i]]);
    lemma_passes_chunks_single(sa[i]);
    lemma_passes_chunks_single(sb[i]);
    let pc = passes_chunks(head);
    let tc = passes_chunks(tail);
    lemma_split(pc + sa[i].hash_chunks(), tc, pc + sb[i].hash_chunks(), tc);
    lemma_split_left(pc, sa[i].hash_chunks(), sb[i].hash_chunks());
}

} // verus!
