//! Palettes: PNG images, decoded by the `png` crate and widened to RGBA
//! pixels, kept in the order of their names.
use vstd::prelude::*;
use crate::text::{decimal, text_lt};
use png::{ColorType, Decoder, Transformations};
use std::io::Cursor;
use PngDecodeStage::{BufferSize, Frame, Info};

verus! {

/// Folder that holds the palette images.
pub const PALETTES_DIR: &'static str = "palettes";

/// The folder that holds the palette images.
pub fn palettes_dir() -> (r: &'static str)
    ensures
        r@ == "palettes"@,
{
    PALETTES_DIR
}

/// The layout of the samples of a decoded PNG frame.
#[derive(Debug, Clone, Copy, PartialEq, Eq, Structural)]
pub enum PngColorType {
    Grayscale,
    Rgb,
    Indexed,
    GrayscaleAlpha,
    Rgba,
}

/// What the decoder tells of a frame it wrote.
#[derive(Debug, Clone, Copy, PartialEq, Eq, Structural)]
pub struct PngFrameInfo {
    pub width: u32,
    pub height: u32,
    pub color_type: PngColorType,
    /// Number of bytes of the frame at the start of the output buffer.
    pub buffer_size: usize,
}

/// The step of decoding that failed.
#[derive(Debug, Clone, Copy, PartialEq, Eq, Structural)]
pub enum PngDecodeStage {
    /// Reading the header.
    Info,
    /// Sizing the output buffer.
    BufferSize,
    /// Decoding the first frame.
    Frame,
}

/// A decoded frame: its size, the layout of its samples, and the samples.
pub struct PngFrame {
    pub width: u32,
    pub height: u32,
    pub color_type: PngColorType,
    pub data: Vec<u8>,
}

/// `Transformations::EXPAND` of the `png` crate: palettes and samples of
/// fewer than eight bits widened to 8-bit samples, transparency to alpha.
pub const PNG_EXPAND: u32 = 0x10;

/// `Transformations::STRIP_16` of the `png` crate: 16-bit samples narrowed to
/// eight bits.
pub const PNG_STRIP_16: u32 = 0x1;

/// The transformations that palettes are decoded with.
pub const PALETTE_TRANSFORMATIONS: u32 = PNG_EXPAND | PNG_STRIP_16;

/// What the `png` crate makes of the bytes of a file under the given
/// transformation bits, on a machine whose largest `isize` is `isize_max`, as
/// `png_decode` gives it.
pub uninterp spec fn png_decoded(data: Seq<u8>, transformations: u32, isize_max: int) -> Result<(PngFrameInfo, Seq<u8>), (PngDecodeStage, Seq<char>)>;

/// Decodes the first frame of a PNG file with the `png` crate: `Decoder::new`,
/// `Decoder::set_transformations` with the given bits
/// (`Transformations::from_bits_truncate`), `Decoder::read_info`,
/// `Reader::output_buffer_size` and `Reader::next_frame` into a zeroed buffer
/// of that size. The steps stand in one item because the reader's type, bound
/// by `std::io` traits, cannot be declared to Verus. Gives the frame's info and
/// the whole buffer, or the failed step and the error's `Display` text. The
/// outcome is a function of the bytes, the transformations and the machine's
/// address width (`output_buffer_size` refuses a frame larger than
/// `isize::MAX` bytes), named `png_decoded`.
#[verifier::external_body]
fn png_decode(data: Vec<u8>, transformations: u32) -> (r: Result<(PngFrameInfo, Vec<u8>), (PngDecodeStage, String)>)
    ensures
        png_decoded(data@, transformations, isize::MAX as int) == match r {
            Ok((info, buf)) => Ok((info, buf@)),
            Err((stage, text)) => Err((stage, text@)),
        },
{
    let mut decoder = Decoder::new(Cursor::new(data));
    decoder.set_transformations(Transformations::from_bits_truncate(transformations));
    let mut reader = decoder.read_info().map_err(|e| (Info, e.to_string()))?;
    let mut buf = vec![0u8; reader.output_buffer_size().ok_or((BufferSize, String::new()))?];
    let i = reader.next_frame(&mut buf).map_err(|e| (Frame, e.to_string()))?;
    let color_type = match i.color_type {
        ColorType::Grayscale => PngColorType::Grayscale,
        ColorType::Rgb => PngColorType::Rgb,
        ColorType::Indexed => PngColorType::Indexed,
        ColorType::GrayscaleAlpha => PngColorType::GrayscaleAlpha,
        ColorType::Rgba => PngColorType::Rgba,
    };
    Ok((PngFrameInfo { width: i.width, height: i.height, color_type, buffer_size: i.buffer_size() }, buf))
}

/// The frame that decoding gives, or the error text of the failed step.
pub open spec fn decode_result(decoded: Result<(PngFrameInfo, Seq<u8>), (PngDecodeStage, Seq<char>)>) -> Result<(PngFrameInfo, Seq<u8>), Seq<char>> {
    match decoded {
        Err((PngDecodeStage::Info, t)) => Err("Failed to decode PNG info: "@ + t),
        Err((PngDecodeStage::BufferSize, _)) => Err("Unable to determine PNG output buffer size"@),
        Err((PngDecodeStage::Frame, t)) => Err("Failed to read PNG frame: "@ + t),
        Ok((info, buf)) => if info.buffer_size > buf.len() {
            Err("PNG frame larger than its buffer"@)
        } else {
            Ok((info, buf.take(info.buffer_size as int)))
        },
    }
}

/// The frame as decoding gave it, or the error text of the failed step.
pub fn frame_from_decoded(decoded: Result<(PngFrameInfo, Vec<u8>), (PngDecodeStage, String)>) -> (r: Result<PngFrame, String>)
    ensures
        match (r, decode_result(match decoded {
            Ok((info, buf)) => Ok((info, buf@)),
            Err((stage, text)) => Err((stage, text@)),
        })) {
            (Ok(f), Ok((info, bytes))) => f.width == info.width && f.height == info.height
                && f.color_type == info.color_type && f.data@ == bytes,
            (Err(e), Err(t)) => e@ == t,
            _ => false,
        },
{
    match decoded {
        Err((stage, text)) => {
            let mut s = String::new();
            match stage {
                PngDecodeStage::Info => {
                    proof {
                        reveal_strlit("Failed to decode PNG info: ");
                    }
                    crate::text::push_str(&mut s, "Failed to decode PNG info: ");
                    crate::text::push_str(&mut s, text.as_str());
                },
                PngDecodeStage::BufferSize => {
                    proof {
                        reveal_strlit("Unable to determine PNG output buffer size");
                    }
                    crate::text::push_str(&mut s, "Unable to determine PNG output buffer size");
                },
                PngDecodeStage::Frame => {
                    proof {
                        reveal_strlit("Failed to read PNG frame: ");
                    }
                    crate::text::push_str(&mut s, "Failed to read PNG frame: ");
                    crate::text::push_str(&mut s, text.as_str());
                },
            }
            Err(s)
        },
        Ok((info, buf)) => {
            if info.buffer_size > buf.len() {
                return Err("PNG frame larger than its buffer".to_owned());
            }
            let mut buf = buf;
            buf.truncate(info.buffer_size);
            Ok(
                PngFrame {
                    width: info.width,
                    height: info.height,
                    color_type: info.color_type,
                    data: buf,
                },
            )
        },
    }
}

/// The frame that the `png` crate decodes from the bytes of a palette file on
/// this machine.
pub open spec fn palette_decoded(data: Seq<u8>) -> Result<(PngFrameInfo, Seq<u8>), (PngDecodeStage, Seq<char>)> {
    png_decoded(data, PALETTE_TRANSFORMATIONS, isize::MAX as int)
}

/// Decodes the first frame of a PNG file, palettes and small depths widened
/// and 16-bit samples narrowed to 8-bit samples: the frame that
/// `palette_decoded` names, cut to the bytes the decoder reports as written.
pub fn decode_png(data: Vec<u8>) -> (r: Result<PngFrame, String>)
    ensures
        match (r, decode_result(palette_decoded(data@))) {
            (Ok(f), Ok((info, bytes))) => f.width == info.width && f.height == info.height
                && f.color_type == info.color_type && f.data@ == bytes,
            (Err(e), Err(t)) => e@ == t,
            _ => false,
        },
{
    frame_from_decoded(png_decode(data, PALETTE_TRANSFORMATIONS))
}

/// Number of samples of one pixel.
pub open spec fn samples(ct: PngColorType) -> nat {
    match ct {
        PngColorType::Grayscale => 1,
        PngColorType::Rgb => 3,
        PngColorType::Indexed => 1,
        PngColorType::GrayscaleAlpha => 2,
        PngColorType::Rgba => 4,
    }
}

/// The first `n` pixels of `bytes` as RGBA, four bytes each: gray widened to
/// the three color channels, a missing alpha made opaque.
pub open spec fn rgba_pixels(ct: PngColorType, bytes: Seq<u8>, n: nat) -> Seq<u8> {
    Seq::new(
        4 * n,
        |i: int|
            {
                let p = i / 4;
                let c = i % 4;
                match ct {
                    PngColorType::Rgb => if c < 3 {
                        bytes[3 * p + c]
                    } else {
                        255u8
                    },
                    PngColorType::Rgba => bytes[i],
                    PngColorType::Grayscale => if c < 3 {
                        bytes[p]
                    } else {
                        255u8
                    },
                    PngColorType::GrayscaleAlpha => if c < 3 {
                        bytes[2 * p]
                    } else {
                        bytes[2 * p + 1]
                    },
                    PngColorType::Indexed => 0u8,
                }
            },
    )
}

/// Widening works pixel by pixel, in order: pixel `p` of the RGBA output is
/// made from input pixel `p` alone (its `samples(ct)` bytes), as RGBA samples
/// unchanged, RGB samples with full alpha, a gray sample copied into red,
/// green and blue (with its alpha, or full alpha). RGBA input comes out as it
/// went in.
pub proof fn lemma_widen_pixelwise(ct: PngColorType, bytes: Seq<u8>, n: nat, p: int)
    requires
        ct != PngColorType::Indexed,
        bytes.len() == samples(ct) * n,
        0 <= p < n,
    ensures
        expand_result(ct, bytes, n) matches Ok(out) && out.len() == 4 * n && ({
            let k = samples(ct) as int;
            let px = bytes.subrange(k * p, k * p + k);
            out.subrange(4 * p, 4 * p + 4) == match ct {
                PngColorType::Rgba => px,
                PngColorType::Rgb => px.push(255u8),
                PngColorType::Grayscale => seq![px[0], px[0], px[0], 255u8],
                _ => seq![px[0], px[0], px[0], px[1]],
            }
        }),
        ct == PngColorType::Rgba ==> expand_result(ct, bytes, n) == Ok::<Seq<u8>, Seq<char>>(bytes),
{
    let out = rgba_pixels(ct, bytes, n);
    let k = samples(ct) as int;
    assert(k * p + k <= k * n) by (nonlinear_arith)
        requires
            0 <= p < n,
            k >= 0,
    ;
    assert(4 * p + 4 <= 4 * n);
    let px = bytes.subrange(k * p, k * p + k);
    let want = match ct {
        PngColorType::Rgba => px,
        PngColorType::Rgb => px.push(255u8),
        PngColorType::Grayscale => seq![px[0], px[0], px[0], 255u8],
        _ => seq![px[0], px[0], px[0], px[1]],
    };
    assert(out.subrange(4 * p, 4 * p + 4) =~= want) by {
        assert forall|c: int| 0 <= c < 4 implies out.subrange(4 * p, 4 * p + 4)[c] == want[c] by {
            vstd::arithmetic::div_mod::lemma_fundamental_div_mod_converse(4 * p + c, 4, p, c);
            assert(out[4 * p + c] == out.subrange(4 * p, 4 * p + 4)[c]);
        }
    }
    if ct == PngColorType::Rgba {
        assert(out =~= bytes);
    }
}

/// How a layout is named in error messages.
pub open spec fn layout_label(ct: PngColorType) -> Seq<char> {
    match ct {
        PngColorType::Rgb => "RGB"@,
        PngColorType::Rgba => "RGBA"@,
        PngColorType::Grayscale => "grayscale"@,
        PngColorType::GrayscaleAlpha => "grayscale-alpha"@,
        PngColorType::Indexed => "indexed"@,
    }
}

/// The error for a frame whose byte count does not match its size.
pub open spec fn count_mismatch_text(ct: PngColorType, expected: nat, got: nat) -> Seq<char> {
    "Decoded "@ + layout_label(ct) + " byte count mismatch: expected "@ + decimal(expected)
        + ", got "@ + decimal(got)
}

/// The RGBA pixels of a frame of `n` pixels, or why there are none.
pub open spec fn expand_result(ct: PngColorType, bytes: Seq<u8>, n: nat) -> Result<
    Seq<u8>,
    Seq<char>,
> {
    if ct == PngColorType::Indexed {
        Err("Indexed PNG output was not expanded as expected"@)
    } else if bytes.len() != samples(ct) * n {
        Err(count_mismatch_text(ct, samples(ct) * n, bytes.len()))
    } else {
        Ok(rgba_pixels(ct, bytes, n))
    }
}

/// The label of a layout.
fn push_layout_label(out: &mut String, ct: PngColorType)
    ensures
        final(out)@ == old(out)@ + layout_label(ct),
{
    let label = match ct {
        PngColorType::Rgb => "RGB",
        PngColorType::Rgba => "RGBA",
        PngColorType::Grayscale => "grayscale",
        PngColorType::GrayscaleAlpha => "grayscale-alpha",
        PngColorType::Indexed => "indexed",
    };
    proof {
        reveal_strlit("RGB");
        reveal_strlit("RGBA");
        reveal_strlit("grayscale");
        reveal_strlit("grayscale-alpha");
        reveal_strlit("indexed");
    }
    crate::text::push_str(out, label);
}

/// Widens the samples of a frame of `n` pixels to RGBA.
pub fn expand_to_rgba(ct: PngColorType, bytes: &[u8], n: usize) -> (r: Result<Vec<u8>, String>)
    ensures
        match (r, expand_result(ct, bytes@, n as nat)) {
            (Ok(v), Ok(w)) => v@ == w,
            (Err(e), Err(f)) => e@ == f,
            _ => false,
        },
{
    if ct == PngColorType::Indexed {
        return Err("Indexed PNG output was not expanded as expected".to_owned());
    }
    let k: u128 = match ct {
        PngColorType::Rgb => 3,
        PngColorType::Rgba => 4,
        PngColorType::GrayscaleAlpha => 2,
        _ => 1,
    };
    let expected: u128 = k * n as u128;
    if bytes.len() as u128 != expected {
        let mut s = String::new();
        proof {
            reveal_strlit("Decoded ");
            reveal_strlit(" byte count mismatch: expected ");
            reveal_strlit(", got ");
        }
        crate::text::push_str(&mut s, "Decoded ");
        push_layout_label(&mut s, ct);
        crate::text::push_str(&mut s, " byte count mismatch: expected ");
        crate::text::push_decimal(&mut s, expected);
        crate::text::push_str(&mut s, ", got ");
        crate::text::push_decimal(&mut s, bytes.len() as u128);
        assert(s@ =~= count_mismatch_text(ct, samples(ct) * (n as nat), bytes@.len()));
        return Err(s);
    }
    let mut out: Vec<u8> = Vec::new();
    let mut p: usize = 0;
    let len = bytes.len();
    assert(bytes@.len() == samples(ct) * n);
    while p < n
        invariant
            0 <= p <= n,
            len == bytes@.len(),
            bytes@.len() == samples(ct) * n,
            ct == PngColorType::Rgb ==> bytes@.len() == 3 * n,
            ct == PngColorType::Rgba ==> bytes@.len() == 4 * n,
            ct == PngColorType::GrayscaleAlpha ==> bytes@.len() == 2 * n,
            ct == PngColorType::Grayscale ==> bytes@.len() == n,
            ct != PngColorType::Indexed,
            out@ =~= rgba_pixels(ct, bytes@, p as nat),
        decreases n - p,
    {
        let (a, b, c, d): (u8, u8, u8, u8) = match ct {
            PngColorType::Rgb => (bytes[3 * p], bytes[3 * p + 1], bytes[3 * p + 2], 255),
            PngColorType::Rgba => (bytes[4 * p], bytes[4 * p + 1], bytes[4 * p + 2], bytes[4 * p
                + 3]),
            PngColorType::Grayscale => (bytes[p], bytes[p], bytes[p], 255),
            _ => (bytes[2 * p], bytes[2 * p], bytes[2 * p], bytes[2 * p + 1]),
        };
        out.push(a);
        out.push(b);
        out.push(c);
        out.push(d);
        p += 1;
        assert(out@ =~= rgba_pixels(ct, bytes@, p as nat));
    }
    Ok(out)
}

/// The pixels of a palette, four bytes (red, green, blue, alpha) each, row by
/// row.
pub struct PaletteImage {
    pub size: [usize; 2],
    pub rgba: Vec<u8>,
}

/// A palette: its name and its image, until the image is handed to the
/// renderer.
pub struct Palette {
    pub name: String,
    pub image: Option<PaletteImage>,
}

/// The palette of a decoded frame, named `name` (`None` when the file name is
/// not valid UTF-8), or why there is none.
pub open spec fn palette_result(name: Option<Seq<char>>, width: u32, height: u32, ct: PngColorType, bytes: Seq<u8>) -> Result<(Seq<char>, Seq<u8>), Seq<char>> {
    if width * height > usize::MAX {
        Err("Palette image dimensions overflowed"@)
    } else {
        match expand_result(ct, bytes, (width * height) as nat) {
            Err(e) => Err(e),
            Ok(rgba) => match name {
                None => Err("Invalid UTF-8 file name"@),
                Some(n) => Ok((n, rgba)),
            },
        }
    }
}

/// The palette of a decoded frame, named `name` (`None` when the file name is
/// not valid UTF-8).
pub fn palette_from_frame(name: Option<String>, frame: &PngFrame) -> (r: Result<Palette, String>)
    ensures
        match (r, palette_result(
            match name {
                Some(n) => Some(n@),
                None => None,
            },
            frame.width,
            frame.height,
            frame.color_type,
            frame.data@,
        )) {
            (Ok(p), Ok((n, rgba))) => p.name@ == n && (p.image matches Some(img) && img.rgba@
                == rgba && img.size[0] == frame.width && img.size[1] == frame.height),
            (Err(e), Err(f)) => e@ == f,
            _ => false,
        },
{
    assert(frame.width * frame.height <= 0xffff_ffff * 0xffff_ffff) by (nonlinear_arith);
    let wh: u64 = frame.width as u64 * frame.height as u64;
    if wh > usize::MAX as u64 {
        return Err("Palette image dimensions overflowed".to_owned());
    }
    let n: usize = wh as usize;
    let rgba = match expand_to_rgba(frame.color_type, frame.data.as_slice(), n) {
        Ok(v) => v,
        Err(e) => {
            return Err(e);
        },
    };
    match name {
        None => Err("Invalid UTF-8 file name".to_owned()),
        Some(name) => Ok(
            Palette {
                name,
                image: Some(
                    PaletteImage { size: [frame.width as usize, frame.height as usize], rgba },
                ),
            },
        ),
    }
}

/// What reading a palette from the bytes of a PNG file gives: its name, its
/// RGBA pixels, width and height, or the error text of the first step that
/// failed (decoding, widening, the name).
pub open spec fn load_result(name: Option<Seq<char>>, data: Seq<u8>) -> Result<
    (Seq<char>, Seq<u8>, u32, u32),
    Seq<char>,
> {
    match decode_result(palette_decoded(data)) {
        Err(t) => Err(t),
        Ok((info, bytes)) => match palette_result(
            name,
            info.width,
            info.height,
            info.color_type,
            bytes,
        ) {
            Err(e) => Err(e),
            Ok((n, rgba)) => Ok((n, rgba, info.width, info.height)),
        },
    }
}

/// Reads a palette from the bytes of a PNG file, named `name` (`None` when
/// the file name is not valid UTF-8). The decoded frame is widened to RGBA.
pub fn load_palette_from_png(name: Option<String>, data: Vec<u8>) -> (r: Result<Palette, String>)
    ensures
        match (r, load_result(
            match name {
                Some(n) => Some(n@),
                None => None,
            },
            data@,
        )) {
            (Ok(p), Ok((n, rgba, w, h))) => p.name@ == n && (p.image matches Some(img)
                && img.rgba@ == rgba && img.size[0] == w && img.size[1] == h),
            (Err(e), Err(t)) => e@ == t,
            _ => false,
        },
        r matches Ok(p) ==> (p.image matches Some(img) && img.rgba@.len() == 4 * img.size[0]
            * img.size[1]) && (name matches Some(n) && p.name@ == n@),
{
    let ghost bytes = data@;
    let frame = match decode_png(data) {
        Ok(f) => f,
        Err(e) => {
            return Err(e);
        },
    };
    assert(decode_result(palette_decoded(bytes)) matches Ok((info, b)) && info.width == frame.width
        && info.height == frame.height && info.color_type == frame.color_type && b == frame.data@);
    let r = palette_from_frame(name, &frame);
    proof {
        if r is Ok {
            let n = (frame.width * frame.height) as nat;
            assert(rgba_pixels(frame.color_type, frame.data@, n).len() == 4 * n);
            assert(4 * n == 4 * frame.width * frame.height) by (nonlinear_arith)
                requires
                    n == frame.width * frame.height,
            ;
        }
    }
    r
}

/// Palettes by name, in the order of their names.
pub struct PaletteManager {
    palettes: Vec<Palette>,
    names: Vec<String>,
}

/// Names strictly ascending in the order of strings.
pub open spec fn names_sorted(names: Seq<Seq<char>>) -> bool {
    forall|i: int, j: int| 0 <= i < j < names.len() ==> text_lt(names[i], names[j])
}

/// Names in ascending order are distinct: each names one palette.
pub proof fn lemma_sorted_names_distinct(names: Seq<Seq<char>>, i: int, j: int)
    requires
        names_sorted(names),
        0 <= i < names.len(),
        0 <= j < names.len(),
        names[i] == names[j],
    ensures
        i == j,
{
    if i < j || j < i {
        crate::text::lemma_text_lt_irreflexive(names[i]);
    }
}

impl PaletteManager {
    #[verifier::type_invariant]
    closed spec fn inv(&self) -> bool {
        &&& self.palettes.len() == self.names.len()
        &&& forall|i: int| 0 <= i < self.names.len() ==> #[trigger] self.names@[i]@ == self.palettes@[i].name@
        &&& names_sorted(self.spec_names())
    }

    /// The names, in order.
    pub closed spec fn spec_names(&self) -> Seq<Seq<char>> {
        self.names@.map_values(|n: String| n@)
    }

    /// The palettes, in the order of their names.
    pub closed spec fn spec_palettes(&self) -> Seq<Palette> {
        self.palettes@
    }

    /// No palette.
    pub fn new() -> (m: Self)
        ensures
            m.spec_palettes().len() == 0,
            m.spec_names().len() == 0,
    {
        let m = Self { palettes: Vec::new(), names: Vec::new() };
        assert(m.spec_names() =~= Seq::<Seq<char>>::empty());
        m
    }

    /// Adds a palette; one of the same name is replaced.
    pub fn insert(&mut self, palette: Palette)
        ensures
            old(self).spec_names().contains(palette.name@) ==> exists|i: int|
                0 <= i < old(self).spec_names().len() && old(self).spec_names()[i] == palette.name@
                    && final(self).spec_palettes() == old(self).spec_palettes().update(i, palette)
                    && final(self).spec_names() == old(self).spec_names(),
            !old(self).spec_names().contains(palette.name@) ==> exists|i: int|
                0 <= i <= old(self).spec_names().len() && final(self).spec_palettes()
                    == old(self).spec_palettes().insert(i, palette) && final(self).spec_names()
                    == old(self).spec_names().insert(i, palette.name@),
            names_sorted(final(self).spec_names()),
    {
        proof {
            use_type_invariant(&*self);
        }
        let ghost names0 = self.spec_names();
        let ghost pal0 = self.spec_palettes();
        let n = self.names.len();
        let mut i: usize = 0;
        while i < n && crate::text::str_lt(self.names[i].as_str(), palette.name.as_str())
            invariant
                0 <= i <= n,
                n == self.names.len(),
                names0 == self.spec_names(),
                forall|j: int| 0 <= j < i ==> text_lt(#[trigger] names0[j], palette.name@),
            decreases n - i,
        {
            i += 1;
        }
        let mut taken = PaletteManager::new();
        core::mem::swap(&mut taken, self);
        let PaletteManager { mut palettes, mut names } = taken;
        proof {
            assert forall|j: int| 0 <= j < i implies names0[j] != palette.name@ by {
                crate::text::lemma_text_lt_irreflexive(palette.name@);
            }
        }
        if i < n && crate::text::str_eq(names[i].as_str(), palette.name.as_str()) {
            let ghost new_palette = palette;
            palettes.set(i, palette);
            *self = PaletteManager { palettes, names };
            assert(self.spec_names() =~= names0);
            assert(names0[i as int] == new_palette.name@);
            assert(self.spec_palettes() =~= pal0.update(i as int, new_palette));
        } else {
            proof {
                if i < n {
                    crate::text::lemma_text_lt_total(names0[i as int], palette.name@);
                }
                assert forall|j: int| i <= j < n implies text_lt(palette.name@, #[trigger] names0[j]) by {
                    if j > i {
                        crate::text::lemma_text_lt_transitive(palette.name@, names0[i as int], names0[j]);
                    }
                }
                assert forall|j: int| 0 <= j < n implies names0[j] != palette.name@ by {
                    if j >= i {
                        crate::text::lemma_text_lt_irreflexive(palette.name@);
                    }
                }
            }
            let name = palette.name.clone();
            let ghost new_palette = palette;
            palettes.insert(i, palette);
            names.insert(i, name);
            assert(names@.map_values(|n: String| n@) =~= names0.insert(i as int, new_palette.name@));
            *self = PaletteManager { palettes, names };
            assert(self.spec_palettes() =~= pal0.insert(i as int, new_palette));
            assert(!names0.contains(new_palette.name@));
        }
    }

    /// The names of the palettes, ascending.
    pub fn names(&self) -> (r: &[String])
        ensures
            r@.map_values(|n: String| n@) == self.spec_names(),
            self.spec_names().len() == self.spec_palettes().len(),
            forall|i: int| 0 <= i < self.spec_names().len() ==> #[trigger] self.spec_names()[i] == self.spec_palettes()[i].name@,
            names_sorted(self.spec_names()),
    {
        proof {
            use_type_invariant(self);
        }
        self.names.as_slice()
    }

    /// The palette of the given name.
    pub fn get(&self, name: &str) -> (r: Option<&Palette>)
        ensures
            r matches Some(p) ==> exists|i: int| 0 <= i < self.spec_names().len() && self.spec_names()[i] == name@ && *p == self.spec_palettes()[i],
            r is None <==> !self.spec_names().contains(name@),
    {
        proof {
            use_type_invariant(self);
        }
        let n = self.names.len();
        let mut i: usize = 0;
        while i < n
            invariant
                0 <= i <= n,
                n == self.names.len(),
                n == self.palettes.len(),
                forall|j: int| 0 <= j < n ==> #[trigger] self.names@[j]@ == self.palettes@[j].name@,
                forall|j: int| 0 <= j < i ==> #[trigger] self.spec_names()[j] != name@,
            decreases n - i,
        {
            if crate::text::str_eq(self.names[i].as_str(), name) {
                assert(self.spec_names()[i as int] == name@);
                return Some(&self.palettes[i]);
            }
            i += 1;
        }
        None
    }

    /// Whether there is no palette.
    pub fn is_empty(&self) -> (r: bool)
        ensures
            r == (self.spec_palettes().len() == 0),
    {
        self.palettes.len() == 0
    }

    /// Hands out the images of all palettes, in the order of their names,
    /// leaving none behind.
    pub fn take_images(&mut self) -> (r: Vec<(String, Option<PaletteImage>)>)
        ensures
            r@.len() == old(self).spec_palettes().len(),
            forall|i: int| 0 <= i < r@.len() ==> (#[trigger] r@[i]).0@ == old(self).spec_names()[i] && r@[i].1 == old(self).spec_palettes()[i].image,
            final(self).spec_names() == old(self).spec_names(),
            final(self).spec_palettes().len() == old(self).spec_palettes().len(),
            forall|i: int| 0 <= i < final(self).spec_palettes().len() ==> (#[trigger] final(self).spec_palettes()[i]).image is None && final(self).spec_palettes()[i].name@ == old(self).spec_palettes()[i].name@,
    {
        proof {
            use_type_invariant(&*self);
        }
        let mut taken = PaletteManager::new();
        core::mem::swap(&mut taken, self);
        let PaletteManager { palettes: mut rest, names } = taken;
        let ghost old_palettes = rest@;
        let n = rest.len();
        let mut out: Vec<(String, Option<PaletteImage>)> = Vec::new();
        let mut kept: Vec<Palette> = Vec::new();
        let mut i: usize = 0;
        while i < n
            invariant
                0 <= i <= n,
                n == old_palettes.len(),
                n == names.len(),
                rest@ == old_palettes.skip(i as int),
                out@.len() == i,
                kept@.len() == i,
                forall|j: int| 0 <= j < i ==> (#[trigger] out@[j]).0@ == old_palettes[j].name@ && out@[j].1 == old_palettes[j].image,
                forall|j: int| 0 <= j < i ==> (#[trigger] kept@[j]).image is None && kept@[j].name@ == old_palettes[j].name@,
            decreases n - i,
        {
            assert(rest@[0] == old_palettes[i as int]);
            let p = rest.remove(0);
            assert(rest@ =~= old_palettes.skip(i + 1));
            let Palette { name, image } = p;
            let copy = name.clone();
            out.push((name, image));
            kept.push(Palette { name: copy, image: None });
            i += 1;
        }
        *self = PaletteManager { palettes: kept, names };
        out
    }
}

} // verus!
