//! The texture definition: settings, passes and how a pass places itself
//! over the pixels of the texture.
use vstd::prelude::*;
use crate::color::{Color, EditableColor};
use crate::pattern::Pattern;

verus! {

/// A fixed-point number stored as `v / F`.
#[derive(Debug, Clone, Copy, Hash)]
pub struct FloatAsInt<const F: u32> {
    pub v: i32,
}

impl<const F: u32> Default for FloatAsInt<F> {
    fn default() -> (r: Self)
        ensures
            r.v == 0,
    {
        Self { v: 0 }
    }
}

/// Which pixels a pass paints.
#[derive(Debug, Clone, Copy, Hash, PartialEq, Eq, Structural)]
pub enum Coverage {
    Full,
    Rectangle,
    Pattern,
}

impl Default for Coverage {
    fn default() -> (r: Self)
        ensures
            r == Coverage::Full,
    {
        Coverage::Full
    }
}

impl Coverage {
    pub fn is_gizmo_editable(&self) -> (r: bool)
        ensures
            r == (*self == Coverage::Rectangle),
    {
        match self {
            Coverage::Rectangle => true,
            _ => false,
        }
    }
}

/// How a pass combines with what lies below it.
#[derive(Debug, Clone, Copy, Hash, PartialEq, Eq, Structural)]
pub enum BlendMode {
    Alpha,
    Additive,
    Multiply,
}

impl BlendMode {
    /// Every blend mode, in menu order.
    pub fn all() -> (r: [BlendMode; 3])
        ensures
            r@ == seq![BlendMode::Alpha, BlendMode::Additive, BlendMode::Multiply],
    {
        let r = [BlendMode::Alpha, BlendMode::Additive, BlendMode::Multiply];
        assert(r@ =~= seq![BlendMode::Alpha, BlendMode::Additive, BlendMode::Multiply]);
        r
    }

    /// The name shown for the mode.
    pub fn display_name(&self) -> (r: &'static str)
        ensures
            r@ == match *self {
                BlendMode::Alpha => "Normal"@,
                BlendMode::Additive => "Additive"@,
                BlendMode::Multiply => "Multiply"@,
            },
    {
        match self {
            BlendMode::Alpha => "Normal",
            BlendMode::Additive => "Additive",
            BlendMode::Multiply => "Multiply",
        }
    }
}

/// Direction and strength of the light that shades the texture.
#[derive(Debug, Clone, Copy, Hash)]
pub struct LightingSettings {
    pub direction: [i32; 3],
    pub impact: i32,
}

impl Default for LightingSettings {
    fn default() -> (r: Self)
        ensures
            r.direction@ == seq![10i32, -50i32, 20i32],
            r.impact == 50,
    {
        let r = Self { direction: [10, -50, 20], impact: 50 };
        assert(r.direction@ =~= seq![10i32, -50i32, 20i32]);
        r
    }
}

/// Ambient occlusion settings.
#[derive(Debug, Clone, Copy, Hash)]
pub struct AOSettings {
    pub radius: i32,
    pub strength: i32,
    pub bias: i32,
    pub ignore_surface_normal: bool,
}

impl Default for AOSettings {
    fn default() -> (r: Self)
        ensures
            r.radius == 4,
            r.strength == 50,
            r.bias == 50,
            !r.ignore_surface_normal,
    {
        Self { radius: 4, strength: 50, bias: 50, ignore_surface_normal: false }
    }
}

#[derive(Debug, Clone, Copy, Hash, PartialEq, Eq, Structural)]
pub enum NoiseType {
    NoNoise,
    Perlin,
    Gaussian,
    White,
}

impl Default for NoiseType {
    fn default() -> (r: Self)
        ensures
            r == NoiseType::NoNoise,
    {
        NoiseType::NoNoise
    }
}

#[derive(Debug, Clone, Copy, Hash, PartialEq, Eq, Structural)]
pub enum NoiseMode {
    Color,
    Alpha,
}

impl Default for NoiseMode {
    fn default() -> (r: Self)
        ensures
            r == NoiseMode::Color,
    {
        NoiseMode::Color
    }
}

/// Noise added to the color or the alpha of a pass.
#[derive(Debug, Clone, Copy, Hash)]
pub struct NoiseSettings {
    pub noise_type: NoiseType,
    pub mode: NoiseMode,
    pub pixel_scale: i32,
    pub perlin_scale: FloatAsInt<500>,
    pub perlin_octaves: i32,
    pub perlin_strength: FloatAsInt<100>,
    pub seed: u32,
    pub std: FloatAsInt<400>,
    pub use_threshold: bool,
    pub threshold: FloatAsInt<100>,
}

impl NoiseSettings {
    /// Perlin seeds are kept below this mask, to stay exact as floats.
    pub const PERLIN_SEED_MASK: u32 = 0xff_ffff;

    /// The default settings apart from the seed.
    pub open spec fn is_default_except_seed(&self) -> bool {
        &&& self.noise_type == NoiseType::NoNoise
        &&& self.mode == NoiseMode::Color
        &&& self.pixel_scale == 1
        &&& self.perlin_scale.v == 10
        &&& self.perlin_octaves == 4
        &&& self.perlin_strength.v == 100
        &&& self.std.v == 40
        &&& !self.use_threshold
        &&& self.threshold.v == 50
    }
}

impl Default for NoiseSettings {
    /// No noise; the fixed-point fields hold 0.02, 1.0, 0.1 and 0.5.
    fn default() -> (r: Self)
        ensures
            r.is_default_except_seed(),
            r.seed == 0,
    {
        Self {
            noise_type: NoiseType::NoNoise,
            mode: NoiseMode::Color,
            pixel_scale: 1,
            perlin_scale: FloatAsInt { v: 10 },
            perlin_octaves: 4,
            perlin_strength: FloatAsInt { v: 100 },
            seed: 0,
            std: FloatAsInt { v: 40 },
            use_threshold: false,
            threshold: FloatAsInt { v: 50 },
        }
    }
}

#[derive(Debug, Clone, Copy, Hash)]
pub struct RoundOptions {
    pub enabled: bool,
    pub radius: i32,
    pub anti_alias: bool,
}

impl Default for RoundOptions {
    fn default() -> (r: Self)
        ensures
            !r.enabled,
            r.radius == 4,
            !r.anti_alias,
    {
        Self { enabled: false, radius: 4, anti_alias: false }
    }
}

#[derive(Debug, Clone, Copy, Hash)]
pub struct BevelOptions {
    pub enabled: bool,
    pub convex: bool,
    pub size: i32,
    pub steepness: i32,
    pub ease_in: bool,
    pub ease_out: bool,
}

impl Default for BevelOptions {
    fn default() -> (r: Self)
        ensures
            !r.enabled,
            !r.convex,
            r.size == 3,
            r.steepness == 1,
            !r.ease_in,
            !r.ease_out,
    {
        Self { enabled: false, convex: false, size: 3, steepness: 1, ease_in: false, ease_out: false }
    }
}

#[derive(Debug, Clone, Copy, Hash)]
pub struct RectSettings {
    pub width: i32,
    pub height: i32,
    pub round: RoundOptions,
    pub bevel: BevelOptions,
}

impl RectSettings {
    pub open spec fn is_default_options(&self) -> bool {
        &&& !self.round.enabled && self.round.radius == 4 && !self.round.anti_alias
        &&& !self.bevel.enabled && !self.bevel.convex && self.bevel.size == 3
        &&& self.bevel.steepness == 1 && !self.bevel.ease_in && !self.bevel.ease_out
    }
}

impl Default for RectSettings {
    /// Half the texture in each direction, no rounding, no bevel.
    fn default() -> (r: Self)
        ensures
            r.width == crate::IMG_SIZE / 2,
            r.height == crate::IMG_SIZE / 2,
            r.is_default_options(),
    {
        Self {
            width: crate::IMG_SIZE / 2,
            height: crate::IMG_SIZE / 2,
            round: RoundOptions::default(),
            bevel: BevelOptions::default(),
        }
    }
}

#[derive(Debug, Clone, Copy, Hash, PartialEq, Eq, Structural)]
pub enum TileShiftDirection {
    Horizontal,
    Vertical,
}

/// Repetition of a rectangle or pattern over a grid of tiles.
#[derive(Debug, Clone, Copy, Hash)]
pub struct TileOptions {
    pub enabled: bool,
    pub x_gap: i32,
    pub y_gap: i32,
    pub x_count: i32,
    pub y_count: i32,
    pub shift: i32,
    pub shift_direction: TileShiftDirection,
    pub variation_enabled: bool,
    pub variation: FloatAsInt<400>,
    pub variation_seed: u32,
}

impl TileOptions {
    pub open spec fn is_default(&self) -> bool {
        &&& !self.enabled
        &&& self.x_gap == 4 && self.y_gap == 4
        &&& self.x_count == 3 && self.y_count == 3
        &&& self.shift == 0
        &&& self.shift_direction == TileShiftDirection::Horizontal
        &&& !self.variation_enabled
        &&& self.variation.v == 20
        &&& self.variation_seed == 0
    }
}

impl Default for TileOptions {
    /// Tiling off; a 3 by 3 grid with gaps of 4 and a variation of 0.05.
    fn default() -> (r: Self)
        ensures
            r.is_default(),
    {
        Self {
            enabled: false,
            x_gap: 4,
            y_gap: 4,
            x_count: 3,
            y_count: 3,
            shift: 0,
            shift_direction: TileShiftDirection::Horizontal,
            variation_enabled: false,
            variation: FloatAsInt { v: 20 },
            variation_seed: 0,
        }
    }
}

/// The rows of the pattern that a new pass starts with.
pub open spec fn default_pattern_rows() -> Seq<u16> {
    seq![
        6168u16,
        15420,
        26214,
        50115,
        33153,
        33153,
        32769,
        49155,
        24582,
        12300,
        6168,
        3120,
        1632,
        960,
        384,
        0,
    ]
}

impl Default for Pattern {
    fn default() -> (r: Self)
        ensures
            r.rows@ == default_pattern_rows(),
            r.scale == 4,
            !r.mirror_x,
    {
        let r = Self {
            rows: [
                6168,
                15420,
                26214,
                50115,
                33153,
                33153,
                32769,
                49155,
                24582,
                12300,
                6168,
                3120,
                1632,
                960,
                384,
                0,
            ],
            scale: 4,
            mirror_x: false,
        };
        assert(r.rows@ =~= default_pattern_rows());
        r
    }
}

} // verus!

verus! {

/// Whether a value fits in an `i32`.
pub open spec fn fits_i32(v: int) -> bool {
    i32::MIN <= v <= i32::MAX
}

/// Where a pixel falls relative to a pass.
pub enum Placement {
    /// Placing the pixel would divide by zero or overflow.
    Fails,
    /// The pass does not paint the pixel.
    Outside,
    /// The pass paints the pixel: its coordinates within the tile and the
    /// column and row of the tile.
    Inside(int, int, int, int),
}

/// The label of a pass: its name, or `Pass` and its index.
pub open spec fn pass_label(name: Option<String>, idx: usize) -> Seq<char> {
    match name {
        Some(n) => n@,
        None => "Pass "@ + crate::text::decimal(idx as nat),
    }
}

/// One layer of a texture: a color, optionally noisy, over the whole texture,
/// a (tiled) rectangle or a (tiled) pattern.
#[derive(Debug, Clone, Hash)]
pub struct TexturePass {
    pub name: Option<String>,
    pub coverage: Coverage,
    pub enabled: bool,
    pub color: EditableColor<true>,
    pub noise: NoiseSettings,
    pub blend_mode: BlendMode,
    pub feature_x: i32,
    pub feature_y: i32,
    pub rect: RectSettings,
    pub tile: TileOptions,
    pub pattern: Pattern,
}

impl TexturePass {
    /// The fields of a new pass that do not depend on chance.
    pub open spec fn has_default_layout(&self) -> bool {
        &&& self.name is None
        &&& self.enabled
        &&& self.coverage == Coverage::Full
        &&& self.blend_mode == BlendMode::Alpha
        &&& self.noise.is_default_except_seed()
        &&& self.rect.is_default_options()
        &&& self.tile.is_default()
        &&& self.pattern.rows@ == default_pattern_rows()
        &&& self.pattern.scale == 4
        &&& !self.pattern.mirror_x
    }

    /// A pass at a random place with a random color and noise seed: its
    /// rectangle is at least 20 pixels wide and high and lies in the texture.
    pub fn new() -> (p: Self)
        ensures
            p.has_default_layout(),
            p.color@.rgba[3] == 255,
            p.color.text() == crate::color::hex_text(p.color@, true),
            0 <= p.feature_x <= crate::IMG_SIZE - 40,
            0 <= p.feature_y <= crate::IMG_SIZE - 40,
            20 <= p.rect.width && p.feature_x + p.rect.width <= crate::IMG_SIZE,
            20 <= p.rect.height && p.feature_y + p.rect.height <= crate::IMG_SIZE,
    {
        let l = crate::rng::random_range_inclusive(0, crate::IMG_SIZE - 40);
        let r = crate::rng::random_range_inclusive(l + 20, crate::IMG_SIZE);
        let t = crate::rng::random_range_inclusive(0, crate::IMG_SIZE - 40);
        let b = crate::rng::random_range_inclusive(t + 20, crate::IMG_SIZE);
        let mut noise = NoiseSettings::default();
        noise.seed = crate::rng::random_u32();
        let mut rect = RectSettings::default();
        rect.width = r - l;
        rect.height = b - t;
        let mut pass = Self::default();
        pass.color = EditableColor::from(Color::random());
        pass.noise = noise;
        pass.feature_x = l;
        pass.feature_y = t;
        pass.rect = rect;
        pass
    }

    /// Appends the label of the pass: its name, or `Pass` and its index.
    pub fn write_name(&self, w: &mut String, idx: usize) -> (r: Result<(), core::fmt::Error>)
        ensures
            final(w)@ == old(w)@ + pass_label(self.name, idx),
            r is Ok,
    {
        match &self.name {
            Some(name) => {
                crate::text::push_str(w, name.as_str());
            },
            None => {
                let ghost start = w@;
                proof {
                    reveal_strlit("Pass ");
                }
                crate::text::push_str(w, "Pass ");
                crate::text::push_decimal(w, idx as u128);
                assert(w@ =~= start + pass_label(self.name, idx));
            },
        }
        Ok(())
    }

    pub fn is_rect(&self) -> (r: bool)
        ensures
            r == (self.coverage == Coverage::Rectangle),
    {
        self.coverage == Coverage::Rectangle
    }

    pub fn is_pattern(&self) -> (r: bool)
        ensures
            r == (self.coverage == Coverage::Pattern),
    {
        self.coverage == Coverage::Pattern
    }

    pub fn uses_noise(&self) -> (r: bool)
        ensures
            r == (self.noise.noise_type != NoiseType::NoNoise),
    {
        self.noise.noise_type != NoiseType::NoNoise
    }

    /// Rectangles and patterns can be offset and tiled; full coverage cannot.
    pub open spec fn can_tile(&self) -> bool {
        self.coverage == Coverage::Rectangle || self.coverage == Coverage::Pattern
    }

    pub fn can_use_tilinging(&self) -> (r: bool)
        ensures
            r == self.can_tile(),
    {
        match self.coverage {
            Coverage::Rectangle | Coverage::Pattern => true,
            _ => false,
        }
    }

    /// The width and height of one tile, gap included; `None` when computing
    /// them overflows.
    pub open spec fn spec_tile_dim(&self) -> Option<(int, int)> {
        match self.coverage {
            Coverage::Rectangle => {
                let w = self.rect.width + self.tile.x_gap;
                let h = self.rect.height + self.tile.y_gap;
                if fits_i32(w) && fits_i32(h) {
                    Some((w, h))
                } else {
                    None
                }
            },
            Coverage::Pattern => {
                let s = 16 * self.pattern.scale;
                if fits_i32(s) && fits_i32(s + self.tile.x_gap) && fits_i32(s + self.tile.y_gap) {
                    Some((s + self.tile.x_gap, s + self.tile.y_gap))
                } else {
                    None
                }
            },
            Coverage::Full => Some((crate::IMG_SIZE as int, crate::IMG_SIZE as int)),
        }
    }

    pub fn tile_dim(&self) -> (r: (i32, i32))
        requires
            self.spec_tile_dim() is Some,
        ensures
            self.spec_tile_dim() == Some((r.0 as int, r.1 as int)),
    {
        match self.coverage {
            Coverage::Rectangle => (
                self.rect.width + self.tile.x_gap,
                self.rect.height + self.tile.y_gap,
            ),
            Coverage::Pattern => (
                16 * self.pattern.scale + self.tile.x_gap,
                16 * self.pattern.scale + self.tile.y_gap,
            ),
            _ => (crate::IMG_SIZE, crate::IMG_SIZE),
        }
    }
}

} // verus!

verus! {

impl Default for TexturePass {
    /// A full-coverage pass in `#f48a71`, placed at a quarter of the texture.
    fn default() -> (p: Self)
        ensures
            p.has_default_layout(),
            p.color@.rgba@ == seq![0xf4u8, 0x8a, 0x71, 0xff],
            p.color.text() == crate::color::hex_text(p.color@, true),
            p.feature_x == crate::IMG_SIZE / 4,
            p.feature_y == crate::IMG_SIZE / 4,
            p.rect.width == crate::IMG_SIZE / 2,
            p.rect.height == crate::IMG_SIZE / 2,
            p.noise.seed == 0,
    {
        Self {
            name: None,
            enabled: true,
            color: EditableColor::from(Color::new(0xf4, 0x8a, 0x71, 0xff)),
            coverage: Coverage::default(),
            feature_x: crate::IMG_SIZE / 4,
            feature_y: crate::IMG_SIZE / 4,
            blend_mode: BlendMode::Alpha,
            noise: NoiseSettings::default(),
            rect: RectSettings::default(),
            tile: TileOptions::default(),
            pattern: Pattern::default(),
        }
    }
}

/// Remainder of a non-negative `i32` by a non-zero one (`%`, which keeps the
/// sign of the dividend).
fn rem_nonneg(a: i32, b: i32) -> (r: i32)
    requires
        a >= 0,
        b != 0,
    ensures
        r == a as int % crate::line::iabs(b as int),
{
    if b > 0 {
        a % b
    } else if b == i32::MIN {
        proof {
            vstd::arithmetic::div_mod::lemma_small_mod(a as nat, 0x8000_0000nat);
        }
        a
    } else {
        a % (-b)
    }
}

impl TexturePass {
    /// Whether the coverage of the pass includes the point `(gx, gy)` of a tile.
    pub open spec fn covers(&self, gx: int, gy: int, tx: int, ty: int) -> Placement {
        match self.coverage {
            Coverage::Full => Placement::Inside(gx, gy, tx, ty),
            Coverage::Rectangle => if gx < 0 || gy < 0 || gx >= self.rect.width || gy
                >= self.rect.height {
                Placement::Outside
            } else {
                Placement::Inside(gx, gy, tx, ty)
            },
            Coverage::Pattern => if !fits_i32(16 * self.pattern.scale) {
                Placement::Fails
            } else if 0 <= gx < 16 * self.pattern.scale && 0 <= gy < 16 * self.pattern.scale
                && self.pattern.spec_sample(gx, gy) {
                Placement::Inside(gx, gy, tx, ty)
            } else {
                Placement::Outside
            },
        }
    }

    /// The tiled placement of pixel `(x, y)`: relative to the feature origin,
    /// shifted row by row (or column by column), then split into the tile and
    /// the point within it.
    pub open spec fn spec_locate(&self, x: int, y: int) -> Placement {
        if !self.can_tile() {
            self.covers(x, y, 0, 0)
        } else {
            let gx0 = x - self.feature_x;
            let gy0 = y - self.feature_y;
            if !fits_i32(gx0) || !fits_i32(gy0) {
                Placement::Fails
            } else if !self.tile.enabled {
                if gx0 < 0 || gy0 < 0 {
                    Placement::Outside
                } else {
                    self.covers(gx0, gy0, 0, 0)
                }
            } else {
                match self.spec_tile_dim() {
                    None => Placement::Fails,
                    Some((tw, th)) => {
                        let horizontal = self.tile.shift_direction == TileShiftDirection::Horizontal;
                        let (num, den) = if horizontal {
                            (gy0, th)
                        } else {
                            (gx0, tw)
                        };
                        let m = crate::pattern::tdiv(num, den) * self.tile.shift;
                        let gx1 = if horizontal {
                            gx0 - m
                        } else {
                            gx0
                        };
                        let gy1 = if horizontal {
                            gy0
                        } else {
                            gy0 - m
                        };
                        if den == 0 || (num == i32::MIN && den == -1) || !fits_i32(m) || !fits_i32(
                            gx1,
                        ) || !fits_i32(gy1) {
                            Placement::Fails
                        } else if gx1 < 0 || gy1 < 0 {
                            Placement::Outside
                        } else if !fits_i32(tw * self.tile.x_count) {
                            Placement::Fails
                        } else if gx1 >= tw * self.tile.x_count {
                            Placement::Outside
                        } else if !fits_i32(th * self.tile.y_count) {
                            Placement::Fails
                        } else if gy1 >= th * self.tile.y_count {
                            Placement::Outside
                        } else {
                            self.covers(
                                gx1 % crate::line::iabs(tw),
                                gy1 % crate::line::iabs(th),
                                crate::pattern::tdiv(gx1, tw),
                                crate::pattern::tdiv(gy1, th),
                            )
                        }
                    },
                }
            }
        }
    }

    fn check_coverage(&self, gx: i32, gy: i32, tx: i32, ty: i32) -> (r: Option<(i32, i32, i32, i32)>)
        requires
            !(self.covers(gx as int, gy as int, tx as int, ty as int) is Fails),
        ensures
            match self.covers(gx as int, gy as int, tx as int, ty as int) {
                Placement::Inside(a, b, c, d) => r == Some((a as i32, b as i32, c as i32, d as i32)),
                _ => r is None,
            },
    {
        match self.coverage {
            Coverage::Full => {},
            Coverage::Rectangle => {
                if gx < 0 || gy < 0 || gx >= self.rect.width || gy >= self.rect.height {
                    return None;
                }
            },
            Coverage::Pattern => {
                if !self.pattern.sample_safe(gx, gy) {
                    return None;
                }
            },
        }
        Some((gx, gy, tx, ty))
    }

    /// Where pixel `(x, y)` falls within the pass: `None` where the pass does
    /// not paint, otherwise the point within its tile and the tile's column and
    /// row. This is the placement step of rendering a pass.
    pub fn locate(&self, x: i32, y: i32) -> (r: Option<(i32, i32, i32, i32)>)
        requires
            !(self.spec_locate(x as int, y as int) is Fails),
        ensures
            match self.spec_locate(x as int, y as int) {
                Placement::Inside(a, b, c, d) => r == Some((a as i32, b as i32, c as i32, d as i32)),
                _ => r is None,
            },
    {
        if !self.can_use_tilinging() {
            return self.check_coverage(x, y, 0, 0);
        }
        let mut gen_x = x - self.feature_x;
        let mut gen_y = y - self.feature_y;
        if !self.tile.enabled {
            if gen_x < 0 || gen_y < 0 {
                return None;
            }
            return self.check_coverage(gen_x, gen_y, 0, 0);
        }
        let (tile_width, tile_height) = self.tile_dim();
        match self.tile.shift_direction {
            TileShiftDirection::Horizontal => {
                gen_x -= crate::pattern::div_trunc(gen_y, tile_height) * self.tile.shift;
            },
            TileShiftDirection::Vertical => {
                gen_y -= crate::pattern::div_trunc(gen_x, tile_width) * self.tile.shift;
            },
        }
        if gen_x < 0 || gen_y < 0 || gen_x >= tile_width * self.tile.x_count || gen_y
            >= tile_height * self.tile.y_count {
            return None;
        }
        let tile_x = crate::pattern::div_trunc(gen_x, tile_width);
        gen_x = rem_nonneg(gen_x, tile_width);
        let tile_y = crate::pattern::div_trunc(gen_y, tile_height);
        gen_y = rem_nonneg(gen_y, tile_height);
        self.check_coverage(gen_x, gen_y, tile_x, tile_y)
    }

    /// Whether placing pixel `(x, y)` overflows or divides by zero: there the
    /// placement cannot be computed and rendering the pass panics.
    pub fn locate_fails(&self, x: i32, y: i32) -> (r: bool)
        ensures
            r == (self.spec_locate(x as int, y as int) is Fails),
    {
        if !self.can_use_tilinging() {
            return self.coverage_fails();
        }
        let gx0: i64 = x as i64 - self.feature_x as i64;
        let gy0: i64 = y as i64 - self.feature_y as i64;
        if gx0 < i32::MIN as i64 || gx0 > i32::MAX as i64 || gy0 < i32::MIN as i64 || gy0
            > i32::MAX as i64 {
            return true;
        }
        if !self.tile.enabled {
            if gx0 < 0 || gy0 < 0 {
                return false;
            }
            return self.coverage_fails();
        }
        if self.tile_dim_fails() {
            return true;
        }
        let (tw, th) = self.tile_dim();
        let horizontal = self.tile.shift_direction == TileShiftDirection::Horizontal;
        let (num, den) = if horizontal {
            (gy0 as i32, th)
        } else {
            (gx0 as i32, tw)
        };
        if den == 0 || (num == i32::MIN && den == -1) {
            return true;
        }
        let q: i64 = crate::pattern::div_trunc(num, den) as i64;
        let shift: i64 = self.tile.shift as i64;
        assert(-0x8000_0000 * 0x8000_0000 <= q * shift <= 0x8000_0000 * 0x8000_0000)
            by (nonlinear_arith)
            requires
                -0x8000_0000 <= q <= 0x8000_0000,
                -0x8000_0000 <= shift <= 0x8000_0000,
        ;
        let m: i128 = q as i128 * shift as i128;
        if m < i32::MIN as i128 || m > i32::MAX as i128 {
            return true;
        }
        let gx1: i64 = if horizontal {
            gx0 - m as i64
        } else {
            gx0
        };
        let gy1: i64 = if horizontal {
            gy0
        } else {
            gy0 - m as i64
        };
        if gx1 < i32::MIN as i64 || gx1 > i32::MAX as i64 || gy1 < i32::MIN as i64 || gy1
            > i32::MAX as i64 {
            return true;
        }
        if gx1 < 0 || gy1 < 0 {
            return false;
        }
        let (twl, xcl): (i64, i64) = (tw as i64, self.tile.x_count as i64);
        assert(-0x8000_0000 * 0x8000_0000 <= twl * xcl <= 0x8000_0000 * 0x8000_0000)
            by (nonlinear_arith)
            requires
                -0x8000_0000 <= twl <= 0x8000_0000,
                -0x8000_0000 <= xcl <= 0x8000_0000,
        ;
        let wx: i64 = twl * xcl;
        if wx < i32::MIN as i64 || wx > i32::MAX as i64 {
            return true;
        }
        if gx1 >= wx {
            return false;
        }
        let (thl, ycl): (i64, i64) = (th as i64, self.tile.y_count as i64);
        assert(-0x8000_0000 * 0x8000_0000 <= thl * ycl <= 0x8000_0000 * 0x8000_0000)
            by (nonlinear_arith)
            requires
                -0x8000_0000 <= thl <= 0x8000_0000,
                -0x8000_0000 <= ycl <= 0x8000_0000,
        ;
        let hy: i64 = thl * ycl;
        if hy < i32::MIN as i64 || hy > i32::MAX as i64 {
            return true;
        }
        if gy1 >= hy {
            return false;
        }
        self.coverage_fails()
    }

    /// Whether testing the coverage overflows: only a pattern so scaled that
    /// its size does not fit in an `i32`.
    fn coverage_fails(&self) -> (r: bool)
        ensures
            r == (self.coverage == Coverage::Pattern && !fits_i32(16 * self.pattern.scale)),
    {
        self.coverage == Coverage::Pattern && (self.pattern.scale as i64 * 16 > i32::MAX as i64
            || (self.pattern.scale as i64) * 16 < i32::MIN as i64)
    }

    /// Whether computing the tile size overflows.
    fn tile_dim_fails(&self) -> (r: bool)
        ensures
            r == (self.spec_tile_dim() is None),
    {
        let (w, h): (i64, i64) = match self.coverage {
            Coverage::Rectangle => (
                self.rect.width as i64 + self.tile.x_gap as i64,
                self.rect.height as i64 + self.tile.y_gap as i64,
            ),
            Coverage::Pattern => {
                let s: i64 = 16 * self.pattern.scale as i64;
                if s < i32::MIN as i64 || s > i32::MAX as i64 {
                    return true;
                }
                (s + self.tile.x_gap as i64, s + self.tile.y_gap as i64)
            },
            Coverage::Full => {
                return false;
            },
        };
        w < i32::MIN as i64 || w > i32::MAX as i64 || h < i32::MIN as i64 || h > i32::MAX as i64
    }

    /// The noise seed of a tile, so that noise does not continue across tiles.
    pub fn tile_seed(&self, tile_x: i32, tile_y: i32) -> (r: u32)
        ensures
            r == self.noise.seed ^ (tile_x as u32).wrapping_mul(0x1f1f1f1fu32) ^ (
            tile_y as u32).wrapping_mul(0x1e1e1e1eu32),
    {
        self.noise.seed ^ (tile_x as u32).wrapping_mul(0x1f1f1f1f) ^ (tile_y as u32).wrapping_mul(
            0x1e1e1e1e,
        )
    }
}

/// A full-coverage pass paints every pixel, as the single tile at its place.
pub proof fn lemma_full_covers_all(p: TexturePass, x: i32, y: i32)
    requires
        p.coverage == Coverage::Full,
    ensures
        p.spec_locate(x as int, y as int) == Placement::Inside(x as int, y as int, 0, 0),
{
}

/// An untiled rectangle pass paints exactly the pixels of its rectangle, and
/// there each pixel at its offset from the rectangle's corner.
pub proof fn lemma_untiled_rect(p: TexturePass, x: i32, y: i32)
    requires
        p.coverage == Coverage::Rectangle,
        !p.tile.enabled,
        fits_i32(x - p.feature_x),
        fits_i32(y - p.feature_y),
    ensures
        (p.spec_locate(x as int, y as int) is Inside) <==> (p.feature_x <= x < p.feature_x
            + p.rect.width && p.feature_y <= y < p.feature_y + p.rect.height),
        p.spec_locate(x as int, y as int) is Inside ==> p.spec_locate(x as int, y as int)
            == Placement::Inside(x - p.feature_x, y - p.feature_y, 0, 0),
        !(p.spec_locate(x as int, y as int) is Fails),
{
}

/// Without a shift the tiles lie side by side from the feature origin, each
/// `tw` by `th` pixels (gap included): the pixel at offset `(a, b)` within
/// tile column `c` and row `d` is placed at that offset in that tile, and a
/// rectangle pass paints it exactly when the offset lies inside its
/// rectangle, leaving the gap unpainted.
pub proof fn lemma_tile_grid(p: TexturePass, a: int, b: int, c: int, d: int, tw: int, th: int)
    requires
        p.coverage == Coverage::Rectangle,
        p.tile.enabled,
        p.tile.shift == 0,
        p.spec_tile_dim() == Some((tw, th)),
        tw > 0,
        th > 0,
        0 <= a < tw,
        0 <= b < th,
        0 <= c < p.tile.x_count,
        0 <= d < p.tile.y_count,
        fits_i32(tw * p.tile.x_count),
        fits_i32(th * p.tile.y_count),
        fits_i32(p.feature_x + c * tw + a),
        fits_i32(p.feature_y + d * th + b),
    ensures
        p.spec_locate(p.feature_x + c * tw + a, p.feature_y + d * th + b) == if a < p.rect.width
            && b < p.rect.height {
            Placement::Inside(a, b, c, d)
        } else {
            Placement::Outside
        },
{
    let gx = c * tw + a;
    let gy = d * th + b;
    vstd::arithmetic::div_mod::lemma_fundamental_div_mod_converse(gx, tw, c, a);
    vstd::arithmetic::div_mod::lemma_fundamental_div_mod_converse(gy, th, d, b);
    assert(0 <= gx < tw * p.tile.x_count) by (nonlinear_arith)
        requires
            gx == c * tw + a,
            0 <= a < tw,
            0 <= c < p.tile.x_count,
    ;
    assert(0 <= gy < th * p.tile.y_count) by (nonlinear_arith)
        requires
            gy == d * th + b,
            0 <= b < th,
            0 <= d < p.tile.y_count,
    ;
    assert(crate::pattern::tdiv(gy, th) * 0 == 0);
    assert(crate::pattern::tdiv(gx, tw) * 0 == 0);
}

/// A shifted tiling moves tile row `k` (tile column `k` for a vertical
/// shift) by `k` times the shift, for every `k`: the pixel `k * shift` further
/// along in that row is placed as the pixel itself is when the tiles are not
/// shifted at all. Here `k` is the row of `y` (the column of `x`), counted
/// from the feature origin in whole tiles.
pub proof fn lemma_shift_moves_tile_rows(
    p: TexturePass,
    q: TexturePass,
    x: int,
    y: int,
    tw: int,
    th: int,
)
    requires
        p.can_tile(),
        p.tile.enabled,
        q == (TexturePass { tile: TileOptions { shift: 0, ..p.tile }, ..p }),
        p.spec_tile_dim() == Some((tw, th)),
    ensures
        p.tile.shift_direction == TileShiftDirection::Horizontal ==> ({
            let m = crate::pattern::tdiv(y - p.feature_y, th) * p.tile.shift;
            fits_i32(x - p.feature_x) && fits_i32(x + m - p.feature_x) && fits_i32(m)
                ==> p.spec_locate(x + m, y) == q.spec_locate(x, y)
        }),
        p.tile.shift_direction == TileShiftDirection::Vertical ==> ({
            let m = crate::pattern::tdiv(x - p.feature_x, tw) * p.tile.shift;
            fits_i32(y - p.feature_y) && fits_i32(y + m - p.feature_y) && fits_i32(m)
                ==> p.spec_locate(x, y + m) == q.spec_locate(x, y)
        }),
{
    assert(q.spec_tile_dim() == p.spec_tile_dim());
    assert(crate::pattern::tdiv(y - p.feature_y, th) * 0 == 0);
    assert(crate::pattern::tdiv(x - p.feature_x, tw) * 0 == 0);
}

/// Tiles repeat: without a shift, the pixel one tile width further right
/// falls on the same point of the next tile in the row.
pub proof fn lemma_tiles_repeat(p: TexturePass, x: i32, y: i32, tw: int, th: int)
    requires
        p.can_tile(),
        p.tile.enabled,
        p.tile.shift == 0,
        p.spec_tile_dim() == Some((tw, th)),
        tw > 0,
        th > 0,
        fits_i32(x + tw),
        fits_i32(x + tw - p.feature_x),
        p.spec_locate(x as int, y as int) matches Placement::Inside(a, b, c, d) && c + 1
            < p.tile.x_count,
    ensures
        p.spec_locate(x + tw, y as int) matches Placement::Inside(a, b, c, d) && p.spec_locate(
            x as int,
            y as int,
        ) == Placement::Inside(a, b, c - 1, d),
{
    let gx = x - p.feature_x;
    let gy = y - p.feature_y;
    assert(crate::pattern::tdiv(gy, th) * 0 == 0);
    assert(crate::pattern::tdiv(gx, tw) * 0 == 0);
    assert(crate::pattern::tdiv(gy, th) * p.tile.shift == 0);
    assert(crate::pattern::tdiv(gx, tw) * p.tile.shift == 0);
    assert(crate::pattern::tdiv(gx + tw, tw) * p.tile.shift == 0);
    assert(gx >= 0);
    assert((gx + tw) % tw == gx % tw) by {
        vstd::arithmetic::div_mod::lemma_mod_add_multiples_vanish(gx, tw);
    }
    assert((gx + tw) / tw == gx / tw + 1) by {
        vstd::arithmetic::div_mod::lemma_div_plus_one(gx, tw);
    }
    assert(tw * p.tile.x_count >= tw * (gx / tw + 2)) by (nonlinear_arith)
        requires
            gx / tw + 1 < p.tile.x_count,
            tw > 0,
    ;
    assert(gx + tw < tw * (gx / tw + 2)) by (nonlinear_arith)
        requires
            tw > 0,
            gx >= 0,
    {
        vstd::arithmetic::div_mod::lemma_fundamental_div_mod(gx, tw);
    }
}

} // verus!

verus! {

/// A texture: its shading settings and the passes painted one over another.
#[derive(Debug, Clone, Hash)]
pub struct TextureDefinition {
    pub ao_settings: AOSettings,
    pub lighting_settings: LightingSettings,
    pub passes: Vec<TexturePass>,
}

impl TextureDefinition {
    /// Version of the file format that stores a definition.
    pub const VERSION: u32 = 1;

    /// Removes, adds or reorders nothing but what the operation names.
    pub fn apply_pass_operation(&mut self, op: PassOperation)
        requires
            match op {
                PassOperation::Remove(i) => i < old(self).passes.len(),
            },
        ensures
            match op {
                PassOperation::Remove(i) => final(self).passes@ == old(self).passes@.remove(i as int),
            },
            final(self).ao_settings == old(self).ao_settings,
            final(self).lighting_settings == old(self).lighting_settings,
    {
        match op {
            PassOperation::Remove(idx) => {
                self.passes.remove(idx);
            },
        }
    }

    /// Drops the dragged pass `pass_idx` on the drop slot `slot` (slots lie
    /// before each pass and after the last): the pass trades places with the
    /// one at the slot, counted without the dragged pass itself.
    pub fn drop_pass(&mut self, pass_idx: usize, slot: usize)
        requires
            pass_idx < old(self).passes.len(),
            slot <= old(self).passes.len(),
        ensures
            ({
                let target = if slot > pass_idx {
                    slot - 1
                } else {
                    slot as int
                };
                let p = old(self).passes@;
                final(self).passes@ == p.update(target, p[pass_idx as int]).update(
                    pass_idx as int,
                    p[target],
                )
            }),
            final(self).ao_settings == old(self).ao_settings,
            final(self).lighting_settings == old(self).lighting_settings,
    {
        let target = if slot > pass_idx {
            slot - 1
        } else {
            slot
        };
        if target == pass_idx {
            assert(self.passes@ =~= old(self).passes@.update(target as int, old(self).passes@[pass_idx as int]).update(pass_idx as int, old(self).passes@[target as int]));
            return;
        }
        let (lo, hi) = if target < pass_idx {
            (target, pass_idx)
        } else {
            (pass_idx, target)
        };
        let ghost p = self.passes@;
        let upper = self.passes.remove(hi);
        let lower = self.passes.remove(lo);
        self.passes.insert(lo, upper);
        self.passes.insert(hi, lower);
        assert(self.passes@ =~= p.update(target as int, p[pass_idx as int]).update(pass_idx as int, p[target as int]));
    }
}

impl Default for TextureDefinition {
    fn default() -> (d: Self)
        ensures
            d.passes.len() == 0,
            d.ao_settings.radius == 4 && d.ao_settings.strength == 50 && d.ao_settings.bias == 50
                && !d.ao_settings.ignore_surface_normal,
            d.lighting_settings.direction@ == seq![10i32, -50i32, 20i32],
            d.lighting_settings.impact == 50,
    {
        Self {
            ao_settings: AOSettings::default(),
            lighting_settings: LightingSettings::default(),
            passes: Vec::new(),
        }
    }
}

/// An edit of the list of passes.
#[derive(Debug, Clone, Copy, PartialEq, Eq, Structural)]
pub enum PassOperation {
    Remove(usize),
}

/// A pass of the demo texture: a named color with the given placement and
/// rectangle, all else as in a default pass.
pub open spec fn is_demo_pass(
    p: TexturePass,
    name: Seq<char>,
    rgba: Seq<u8>,
    coverage: Coverage,
    feature: (int, int),
    size: (int, int),
) -> bool {
    &&& p.name matches Some(n) && n@ == name
    &&& p.color@.rgba@ == rgba
    &&& p.color.text() == crate::color::hex_text(p.color@, true)
    &&& p.coverage == coverage
    &&& p.enabled
    &&& p.blend_mode == BlendMode::Alpha
    &&& p.feature_x == feature.0 && p.feature_y == feature.1
    &&& p.rect.width == size.0 && p.rect.height == size.1
    &&& p.tile.is_default()
    &&& p.pattern.rows@ == default_pattern_rows() && p.pattern.scale == 4 && !p.pattern.mirror_x
}

/// Rounding, then bevel (enabled, convex, size, steepness) of a demo pass.
pub open spec fn has_rect_style(
    p: TexturePass,
    round: Option<int>,
    bevel: Option<(bool, int, int)>,
) -> bool {
    &&& match round {
        Some(r) => p.rect.round.enabled && p.rect.round.radius == r,
        None => !p.rect.round.enabled && p.rect.round.radius == 4,
    }
    &&& !p.rect.round.anti_alias
    &&& match bevel {
        Some((convex, size, steep)) => p.rect.bevel.enabled && p.rect.bevel.convex == convex
            && p.rect.bevel.size == size && p.rect.bevel.steepness == steep,
        None => !p.rect.bevel.enabled && !p.rect.bevel.convex && p.rect.bevel.size == 3
            && p.rect.bevel.steepness == 1,
    }
    &&& !p.rect.bevel.ease_in && !p.rect.bevel.ease_out
}

fn named_pass(name: &str, color: Color) -> (p: TexturePass)
    ensures
        p.name matches Some(n) && n@ == name@,
        p.color@ == color,
        p.color.text() == crate::color::hex_text(color, true),
        p.enabled,
        p.coverage == Coverage::Full,
        p.blend_mode == BlendMode::Alpha,
        p.feature_x == crate::IMG_SIZE / 4,
        p.feature_y == crate::IMG_SIZE / 4,
        p.rect.width == crate::IMG_SIZE / 2,
        p.rect.height == crate::IMG_SIZE / 2,
        p.rect.is_default_options(),
        p.noise.is_default_except_seed(),
        p.noise.seed == 0,
        p.tile.is_default(),
        p.pattern.rows@ == default_pattern_rows(),
        p.pattern.scale == 4,
        !p.pattern.mirror_x,
{
    let mut p = TexturePass::default();
    p.name = Some(name.to_owned());
    p.color = EditableColor::from(color);
    p
}

fn demo_rect_pass(
    name: &str,
    color: Color,
    fx: i32,
    fy: i32,
    w: i32,
    h: i32,
    round: Option<i32>,
    bevel: Option<(bool, i32, i32)>,
) -> (p: TexturePass)
    ensures
        is_demo_pass(
            p,
            name@,
            color.rgba@,
            Coverage::Rectangle,
            (fx as int, fy as int),
            (w as int, h as int),
        ),
        has_rect_style(
            p,
            match round {
                Some(r) => Some(r as int),
                None => None,
            },
            match bevel {
                Some((c, s, t)) => Some((c, s as int, t as int)),
                None => None,
            },
        ),
        p.noise.is_default_except_seed(),
        p.noise.seed == 0,
{
    let mut p = named_pass(name, color);
    p.coverage = Coverage::Rectangle;
    p.feature_x = fx;
    p.feature_y = fy;
    p.rect.width = w;
    p.rect.height = h;
    if let Some(r) = round {
        p.rect.round.enabled = true;
        p.rect.round.radius = r;
    }
    if let Some((convex, size, steepness)) = bevel {
        p.rect.bevel.enabled = true;
        p.rect.bevel.convex = convex;
        p.rect.bevel.size = size;
        p.rect.bevel.steepness = steepness;
    }
    p
}

/// The texture that a new file starts with: a grey background, perlin rust
/// with any seed, and a framed, beveled window with a handle.
pub open spec fn is_demo_definition(d: TextureDefinition) -> bool {
    &&& d.ao_settings.radius == 4 && d.ao_settings.strength == 50 && d.ao_settings.bias == 50
        && !d.ao_settings.ignore_surface_normal
    &&& d.lighting_settings.direction@ == seq![20i32, -50i32, 20i32]
    &&& d.lighting_settings.impact == 50
    &&& d.passes.len() == 5
    &&& is_demo_pass(
        d.passes[0],
        "Background"@,
        seq![0x3Eu8, 0x3E, 0x3E, 0xFF],
        Coverage::Full,
        (32, 32),
        (64, 64),
    )
    &&& d.passes[0].rect.is_default_options()
    &&& d.passes[0].noise.is_default_except_seed() && d.passes[0].noise.seed == 0
    &&& is_demo_pass(
        d.passes[1],
        "Rust"@,
        seq![0x70u8, 0x31, 0x00, 0x54],
        Coverage::Full,
        (32, 32),
        (64, 64),
    )
    &&& d.passes[1].rect.is_default_options()
    &&& d.passes[1].noise.noise_type == NoiseType::Perlin
    &&& d.passes[1].noise.mode == NoiseMode::Alpha
    &&& d.passes[1].noise.perlin_scale.v == 15
    &&& d.passes[1].noise.perlin_octaves == 4
    &&& d.passes[1].noise.pixel_scale == 1 && d.passes[1].noise.perlin_strength.v == 100
        && d.passes[1].noise.std.v == 40 && !d.passes[1].noise.use_threshold
        && d.passes[1].noise.threshold.v == 50
    &&& is_demo_pass(
        d.passes[2],
        "Frame"@,
        seq![0x00u8, 0x00, 0x00, 0x22],
        Coverage::Rectangle,
        (37, 25),
        (53, 98),
    )
    &&& has_rect_style(d.passes[2], Some(4), Some((false, 3, 1)))
    &&& d.passes[2].noise.is_default_except_seed() && d.passes[2].noise.seed == 0
    &&& is_demo_pass(
        d.passes[3],
        "Handle"@,
        seq![0x00u8, 0x00, 0x00, 0x00],
        Coverage::Rectangle,
        (79, 70),
        (6, 6),
    )
    &&& has_rect_style(d.passes[3], Some(6), Some((true, 3, 1)))
    &&& d.passes[3].noise.is_default_except_seed() && d.passes[3].noise.seed == 0
    &&& is_demo_pass(
        d.passes[4],
        "Window"@,
        seq![0x30u8, 0x4A, 0x4F, 0xFF],
        Coverage::Rectangle,
        (51, 36),
        (26, 17),
    )
    &&& has_rect_style(d.passes[4], None, Some((false, 1, -8)))
    &&& d.passes[4].noise.is_default_except_seed() && d.passes[4].noise.seed == 0
}

impl TextureDefinition {
    /// The texture that a new file starts with: a grey background, perlin rust
    /// with a random seed, and a framed, beveled window with a handle.
    pub fn demo() -> (d: Self)
        ensures
            is_demo_definition(d),
    {
        let mut ao = AOSettings::default();
        ao.radius = 4;
        ao.strength = 50;
        ao.bias = 50;
        let lighting = LightingSettings { direction: [20, -50, 20], impact: 50 };
        let background = named_pass("Background", Color::new(0x3E, 0x3E, 0x3E, 0xFF));
        let mut rust = named_pass("Rust", Color::new(0x70, 0x31, 0x00, 0x54));
        rust.noise.noise_type = NoiseType::Perlin;
        rust.noise.mode = NoiseMode::Alpha;
        rust.noise.perlin_scale = FloatAsInt { v: 15 };
        rust.noise.perlin_octaves = 4;
        rust.noise.seed = crate::rng::random_u32();
        let frame = demo_rect_pass(
            "Frame",
            Color::new(0x00, 0x00, 0x00, 0x22),
            37,
            25,
            53,
            98,
            Some(4),
            Some((false, 3, 1)),
        );
        let handle = demo_rect_pass(
            "Handle",
            Color::new(0x00, 0x00, 0x00, 0x00),
            79,
            70,
            6,
            6,
            Some(6),
            Some((true, 3, 1)),
        );
        let window = demo_rect_pass(
            "Window",
            Color::new(0x30, 0x4A, 0x4F, 0xFF),
            51,
            36,
            26,
            17,
            None,
            Some((false, 1, -8)),
        );
        let mut passes = Vec::new();
        passes.push(background);
        passes.push(rust);
        passes.push(frame);
        passes.push(handle);
        passes.push(window);
        proof {
            reveal_strlit("Background");
            reveal_strlit("Rust");
            reveal_strlit("Frame");
            reveal_strlit("Handle");
            reveal_strlit("Window");
        }
        let d = Self { ao_settings: ao, lighting_settings: lighting, passes };
        assert(d.lighting_settings.direction@ =~= seq![20i32, -50i32, 20i32]);
        d
    }
}

} // verus!
