use vstd::prelude::*;
use vstd::string::StringSliceAdditionalSpecFns;
use vstd::utf8::{encode_utf8, is_ascii_chars, is_ascii_chars_encode_utf8};

verus! {

/// An sRGB color with straight (non-premultiplied) alpha, one byte per channel.
#[derive(Debug, Clone, Copy, Hash)]
pub struct Color {
    pub rgba: [u8; 4],
}

/// Why a hex color could not be read.
#[derive(Debug, Clone, Copy, PartialEq, Eq, Structural)]
pub enum HexError {
    /// After the leading `#` signs, the text is neither 6 nor 8 bytes long.
    WrongLength,
    /// One of the two-byte channel groups is not a hexadecimal byte.
    InvalidDigit,
}

/// Clamps an integer into the byte range, as `i32::clamp(0, 255)` does.
pub open spec fn clamp_byte(v: int) -> u8 {
    if v < 0 {
        0
    } else if v > 255 {
        255
    } else {
        v as u8
    }
}

/// The lowercase hexadecimal digit of a value below 16.
pub open spec fn hex_digit(n: int) -> char {
    if n < 10 {
        (n + 48) as char
    } else {
        (n + 87) as char
    }
}

/// The two lowercase hexadecimal digits of a byte, high nibble first (`{:02x}`).
pub open spec fn byte_hex(b: u8) -> Seq<char> {
    seq![hex_digit(b as int / 16), hex_digit(b as int % 16)]
}

/// `#rrggbbaa` when `alpha` holds, `#rrggbb` otherwise.
pub open spec fn hex_text(c: Color, alpha: bool) -> Seq<char> {
    seq!['#'] + byte_hex(c.rgba[0]) + byte_hex(c.rgba[1]) + byte_hex(c.rgba[2]) + if alpha {
        byte_hex(c.rgba[3])
    } else {
        Seq::<char>::empty()
    }
}

/// The value of an ASCII hexadecimal digit, either case.
pub open spec fn hex_value(b: u8) -> Option<u8> {
    if 48 <= b <= 57 {
        Some((b - 48) as u8)
    } else if 97 <= b <= 102 {
        Some((b - 87) as u8)
    } else if 65 <= b <= 70 {
        Some((b - 55) as u8)
    } else {
        None
    }
}

/// `u8::from_str_radix` with radix 16 on a two-byte text: one optional leading
/// `+`, then one or two hexadecimal digits.
pub open spec fn hex_pair(b0: u8, b1: u8) -> Option<u8> {
    if b0 == 43 {
        hex_value(b1)
    } else {
        match (hex_value(b0), hex_value(b1)) {
            (Some(hi), Some(lo)) => Some((hi * 16 + lo) as u8),
            _ => None,
        }
    }
}

/// The text with all its leading `#` signs removed (`trim_start_matches('#')`).
pub open spec fn strip_hashes(s: Seq<u8>) -> Seq<u8>
    decreases s.len(),
{
    if s.len() > 0 && s[0] == 35 {
        strip_hashes(s.drop_first())
    } else {
        s
    }
}

/// A UTF-8 continuation byte: never the first byte of a character.
pub open spec fn is_continuation(b: u8) -> bool {
    128 <= b < 192
}

/// Slicing the stripped text into two-byte groups would cut a character apart.
pub open spec fn hex_slicing_panics(bytes: Seq<u8>) -> bool {
    let h = strip_hashes(bytes);
    &&& (h.len() == 6 || h.len() == 8)
    &&& (is_continuation(h[2]) || is_continuation(h[4]) || (h.len() == 8 && is_continuation(h[6])))
}

/// The color that a hex text (as UTF-8 bytes) denotes: `#` signs are skipped,
/// then three or four channel groups of two bytes follow; alpha is 255 when absent.
pub open spec fn parse_hex(bytes: Seq<u8>) -> Result<Color, HexError> {
    let h = strip_hashes(bytes);
    if h.len() != 6 && h.len() != 8 {
        Err(HexError::WrongLength)
    } else {
        let r = hex_pair(h[0], h[1]);
        let g = hex_pair(h[2], h[3]);
        let b = hex_pair(h[4], h[5]);
        let a = if h.len() == 8 { hex_pair(h[6], h[7]) } else { Some(255u8) };
        if r is Some && g is Some && b is Some && a is Some {
            Ok(Color { rgba: [r->0, g->0, b->0, a->0] })
        } else {
            Err(HexError::InvalidDigit)
        }
    }
}

/// The error text that `Color::from_hex` reports for each kind of error.
pub open spec fn hex_error_text(e: HexError) -> Seq<char> {
    match e {
        HexError::WrongLength => "Hex color must be 6 or 8 characters long"@,
        HexError::InvalidDigit => "Invalid hex color"@,
    }
}

/// The error type of `core::fmt::Write`, carried through unchanged.
#[verifier::external_type_specification]
#[verifier::external_body]
pub struct ExFmtError(core::fmt::Error);

/// Appends one character to a string (`String::push`).
#[verifier::external_body]
pub(crate) fn string_push(s: &mut String, c: char)
    ensures
        final(s)@ == old(s)@.push(c),
{
    s.push(c);
}

/// The lowercase hexadecimal digit character of a nibble.
fn nibble_char(n: u8) -> (c: char)
    requires
        n < 16,
    ensures
        c == hex_digit(n as int),
{
    if n < 10 {
        (n + 48) as char
    } else {
        (n + 87) as char
    }
}

/// The value of one hexadecimal digit byte.
fn digit_value(b: u8) -> (r: Option<u8>)
    ensures
        r == hex_value(b),
{
    if 48 <= b && b <= 57 {
        Some(b - 48)
    } else if 97 <= b && b <= 102 {
        Some(b - 87)
    } else if 65 <= b && b <= 70 {
        Some(b - 55)
    } else {
        None
    }
}

/// Reads one two-byte channel group.
fn pair_value(b0: u8, b1: u8) -> (r: Option<u8>)
    ensures
        r == hex_pair(b0, b1),
{
    if b0 == 43 {
        digit_value(b1)
    } else {
        match (digit_value(b0), digit_value(b1)) {
            (Some(hi), Some(lo)) => Some(hi * 16 + lo),
            _ => None,
        }
    }
}

impl Color {
    pub fn new(r: u8, g: u8, b: u8, a: u8) -> (c: Self)
        ensures
            c.rgba@ == seq![r, g, b, a],
    {
        Self { rgba: [r, g, b, a] }
    }

    fn clamp_channel(v: i32) -> (r: u8)
        ensures
            r == clamp_byte(v as int),
    {
        if v < 0 {
            0
        } else if v > 255 {
            255
        } else {
            v as u8
        }
    }

    pub fn newi(r: i32, g: i32, b: i32, a: i32) -> (c: Self)
        ensures
            c.rgba@ == seq![
                clamp_byte(r as int),
                clamp_byte(g as int),
                clamp_byte(b as int),
                clamp_byte(a as int),
            ],
    {
        Self {
            rgba: [
                Self::clamp_channel(r),
                Self::clamp_channel(g),
                Self::clamp_channel(b),
                Self::clamp_channel(a),
            ],
        }
    }

    fn push_byte_hex(out: &mut String, b: u8)
        ensures
            final(out)@ == old(out)@ + byte_hex(b),
    {
        string_push(out, nibble_char(b / 16));
        string_push(out, nibble_char(b % 16));
        assert(final(out)@ =~= old(out)@ + byte_hex(b));
    }

    /// Appends `#rrggbb`, followed by `aa` when `alpha` holds.
    pub(crate) fn push_hex(&self, out: &mut String, alpha: bool)
        ensures
            final(out)@ == old(out)@ + hex_text(*self, alpha),
    {
        let ghost start = out@;
        string_push(out, '#');
        Self::push_byte_hex(out, self.rgba[0]);
        Self::push_byte_hex(out, self.rgba[1]);
        Self::push_byte_hex(out, self.rgba[2]);
        if alpha {
            Self::push_byte_hex(out, self.rgba[3]);
        }
        assert(out@ =~= start + hex_text(*self, alpha));
    }

    /// Appends `#rrggbbaa` in lowercase hexadecimal; writing to a string never fails.
    pub fn write_hex(&self, out: &mut String) -> (r: Result<(), core::fmt::Error>)
        ensures
            final(out)@ == old(out)@ + hex_text(*self, true),
            r is Ok,
    {
        self.push_hex(out, true);
        Ok(())
    }

    pub fn to_hex(&self) -> (s: String)
        ensures
            s@ == hex_text(*self, true),
    {
        let mut s = String::new();
        let _ = self.write_hex(&mut s);
        assert(s@ =~= hex_text(*self, true));
        s
    }

    pub fn from_hex(hex: &str) -> (r: Result<Self, &'static str>)
        requires
            !hex_slicing_panics(hex.spec_bytes()),
        ensures
            match parse_hex(hex.spec_bytes()) {
                Ok(c) => r matches Ok(d) && d == c,
                Err(e) => r matches Err(m) && m@ == hex_error_text(e),
            },
    {
        let bytes = hex.as_bytes();
        let len = bytes.len();
        let mut start: usize = 0;
        assert(bytes@.subrange(0, len as int) =~= bytes@);
        while start < len && bytes[start] == 35
            invariant
                len == bytes@.len(),
                start <= len,
                strip_hashes(bytes@) == strip_hashes(bytes@.subrange(start as int, len as int)),
            decreases len - start,
        {
            assert(bytes@.subrange(start as int, len as int).drop_first() =~= bytes@.subrange(
                start + 1,
                len as int,
            ));
            start += 1;
        }
        let ghost h = bytes@.subrange(start as int, len as int);
        assert(strip_hashes(h) == h);
        let n = len - start;
        if n != 6 && n != 8 {
            proof {
                reveal_strlit("Hex color must be 6 or 8 characters long");
            }
            return Err("Hex color must be 6 or 8 characters long");
        }
        let r = pair_value(bytes[start], bytes[start + 1]);
        let g = pair_value(bytes[start + 2], bytes[start + 3]);
        let b = pair_value(bytes[start + 4], bytes[start + 5]);
        let a = if n == 8 {
            pair_value(bytes[start + 6], bytes[start + 7])
        } else {
            Some(255u8)
        };
        match (r, g, b, a) {
            (Some(r), Some(g), Some(b), Some(a)) => {
                let c = Self { rgba: [r, g, b, a] };
                assert(c.rgba@ =~= parse_hex(bytes@)->Ok_0.rgba@);
                Ok(c)
            },
            _ => {
                proof {
                    reveal_strlit("Invalid hex color");
                }
                Err("Invalid hex color")
            },
        }
    }

    pub fn with_alpha(&self, alpha: u8) -> (c: Self)
        ensures
            c.rgba@ == self.rgba@.update(3, alpha),
    {
        let mut ret = *self;
        ret.rgba[3] = alpha;
        ret
    }
}

} // verus!

verus! {

proof fn lemma_hex_digit_value(n: int)
    requires
        0 <= n < 16,
    ensures
        hex_digit(n) as u8 as int == hex_digit(n) as int,
        hex_value(hex_digit(n) as u8) == Some(n as u8),
        hex_digit(n) as u8 != 35,
        hex_digit(n) as u8 != 43,
        !is_continuation(hex_digit(n) as u8),
{
}

proof fn lemma_byte_hex_pair(b: u8)
    ensures
        hex_pair(byte_hex(b)[0] as u8, byte_hex(b)[1] as u8) == Some(b),
        byte_hex(b)[0] as u8 != 35,
        !is_continuation(byte_hex(b)[0] as u8),
        is_ascii_chars(byte_hex(b)),
{
    lemma_hex_digit_value(b as int / 16);
    lemma_hex_digit_value(b as int % 16);
}

/// The ASCII lowercase of a byte: `A`..`Z` become `a`..`z`, all else stays.
pub open spec fn ascii_lower(b: u8) -> u8 {
    if 65 <= b <= 90 {
        (b + 32) as u8
    } else {
        b
    }
}

/// A text with every ASCII letter in lowercase.
pub open spec fn lower_bytes(s: Seq<u8>) -> Seq<u8> {
    s.map_values(|b: u8| ascii_lower(b))
}

proof fn lemma_strip_hashes_lower(s: Seq<u8>)
    ensures
        strip_hashes(lower_bytes(s)) == lower_bytes(strip_hashes(s)),
    decreases s.len(),
{
    if s.len() > 0 && s[0] == 35 {
        assert(lower_bytes(s).drop_first() =~= lower_bytes(s.drop_first()));
        lemma_strip_hashes_lower(s.drop_first());
    }
}

/// Hex digits are read without regard to case: a text and its lowercase
/// give the same color, or the same error, and cut a character apart alike.
pub proof fn lemma_hex_case_insensitive(bytes: Seq<u8>)
    ensures
        parse_hex(lower_bytes(bytes)) == parse_hex(bytes),
        hex_slicing_panics(lower_bytes(bytes)) == hex_slicing_panics(bytes),
        forall|b: u8| 65 <= b <= 90 ==> hex_value(b) == #[trigger] hex_value((b + 32) as u8),
{
    lemma_strip_hashes_lower(bytes);
    let h = strip_hashes(bytes);
    let l = strip_hashes(lower_bytes(bytes));
    assert(l.len() == h.len());
    assert forall|i: int| 0 <= i < h.len() implies hex_value(#[trigger] l[i]) == hex_value(h[i])
        && (l[i] == 43) == (h[i] == 43) && is_continuation(l[i]) == is_continuation(h[i]) by {
        assert(l[i] == ascii_lower(h[i]));
    }
    if h.len() == 6 || h.len() == 8 {
        assert(hex_pair(l[0], l[1]) == hex_pair(h[0], h[1]));
        assert(hex_pair(l[2], l[3]) == hex_pair(h[2], h[3]));
        assert(hex_pair(l[4], l[5]) == hex_pair(h[4], h[5]));
        if h.len() == 8 {
            assert(hex_pair(l[6], l[7]) == hex_pair(h[6], h[7]));
        }
    }
}

/// Hex notation is an exact encoding: reading back the text that `to_hex`
/// writes (`#rrggbbaa`) gives the same color, and reading `#rrggbb` gives the
/// color with full alpha. Neither text makes `from_hex` cut a character apart.
pub proof fn lemma_hex_roundtrip(c: Color, alpha: bool)
    ensures
        !hex_slicing_panics(encode_utf8(hex_text(c, alpha))),
        parse_hex(encode_utf8(hex_text(c, alpha))) matches Ok(d) && d.rgba@ == (if alpha {
            c.rgba@
        } else {
            c.rgba@.update(3, 255)
        }),
{
    let t = hex_text(c, alpha);
    lemma_byte_hex_pair(c.rgba[0]);
    lemma_byte_hex_pair(c.rgba[1]);
    lemma_byte_hex_pair(c.rgba[2]);
    lemma_byte_hex_pair(c.rgba[3]);
    assert(is_ascii_chars(t));
    is_ascii_chars_encode_utf8(t);
    let bytes = encode_utf8(t);
    assert(bytes.len() > 1 && bytes[0] == 35 && bytes[1] != 35);
    assert(strip_hashes(bytes.drop_first()) == bytes.drop_first());
    let h = strip_hashes(bytes);
    assert(h =~= bytes.drop_first());
    let d = parse_hex(bytes)->Ok_0;
    if alpha {
        assert(d.rgba@ =~= c.rgba@);
    } else {
        assert(d.rgba@ =~= c.rgba@.update(3, 255));
    }
}

} // verus!

verus! {

impl Color {
    /// A color with random red, green and blue channels and full alpha.
    pub fn random() -> (c: Self)
        ensures
            c.rgba[3] == 255,
    {
        Self { rgba: [crate::rng::random_u8(), crate::rng::random_u8(), crate::rng::random_u8(), 255] }
    }
}

impl From<[u8; 4]> for Color {
    fn from(c: [u8; 4]) -> (r: Self) {
        Color { rgba: c }
    }
}

impl vstd::std_specs::convert::FromSpecImpl<[u8; 4]> for Color {
    open spec fn obeys_from_spec() -> bool {
        true
    }

    open spec fn from_spec(c: [u8; 4]) -> Color {
        Color { rgba: c }
    }
}

impl From<Color> for [u8; 4] {
    fn from(c: Color) -> (r: Self) {
        c.rgba
    }
}

impl vstd::std_specs::convert::FromSpecImpl<Color> for [u8; 4] {
    open spec fn obeys_from_spec() -> bool {
        true
    }

    open spec fn from_spec(c: Color) -> [u8; 4] {
        c.rgba
    }
}

/// A color together with the text of its hex field, which the user may be
/// editing; with `ALPHA` false the text omits the alpha byte.
#[derive(Debug)]
pub struct EditableColor<const ALPHA: bool> {
    c: Color,
    pub edit_str: String,
}

impl<const ALPHA: bool> View for EditableColor<ALPHA> {
    type V = Color;

    closed spec fn view(&self) -> Color {
        self.c
    }
}

impl<const ALPHA: bool> EditableColor<ALPHA> {
    /// The text of the hex field.
    pub closed spec fn text(&self) -> Seq<char> {
        self.edit_str@
    }

    fn hex_string(c: Color) -> (s: String)
        ensures
            s@ == hex_text(c, ALPHA),
    {
        let mut s = String::new();
        c.push_hex(&mut s, ALPHA);
        assert(s@ =~= hex_text(c, ALPHA));
        s
    }

    pub fn new(c: Color) -> (e: Self)
        ensures
            e@ == c,
            e.text() == hex_text(c, ALPHA),
    {
        Self { c, edit_str: Self::hex_string(c) }
    }

    pub fn color(&self) -> (c: Color)
        ensures
            c == self@,
    {
        self.c
    }

    /// Sets the color and rewrites the text to match it.
    pub fn set_color(&mut self, new_color: Color)
        ensures
            final(self)@ == new_color,
            final(self).text() == hex_text(new_color, ALPHA),
    {
        self.c = new_color;
        self.edit_str = Self::hex_string(new_color);
    }

    /// Sets the color and leaves the text as the user typed it.
    pub fn set_color_while_editing(&mut self, new_color: Color)
        ensures
            final(self)@ == new_color,
            final(self).text() == old(self).text(),
    {
        self.c = new_color;
    }

    /// Rewrites the text to match the color.
    pub fn update_edit_str(&mut self)
        ensures
            final(self)@ == old(self)@,
            final(self).text() == hex_text(old(self)@, ALPHA),
    {
        self.edit_str = Self::hex_string(self.c);
    }
}

impl<const ALPHA: bool> Clone for EditableColor<ALPHA> {
    fn clone(&self) -> (r: Self)
        ensures
            r@ == self@,
            r.text() == self.text(),
    {
        Self { c: self.c, edit_str: self.edit_str.clone() }
    }
}

/// The color with the full hex text, alpha included, whatever `ALPHA` is.
impl<const ALPHA: bool> From<Color> for EditableColor<ALPHA> {
    fn from(c: Color) -> (r: Self)
        ensures
            r@ == c,
            r.text() == hex_text(c, true),
    {
        Self { c, edit_str: c.to_hex() }
    }
}

impl<const ALPHA: bool> vstd::std_specs::convert::FromSpecImpl<Color> for EditableColor<ALPHA> {
    open spec fn obeys_from_spec() -> bool {
        false
    }

    open spec fn from_spec(c: Color) -> EditableColor<ALPHA> {
        vstd::pervasive::arbitrary()
    }
}

impl<const ALPHA: bool> core::hash::Hash for EditableColor<ALPHA> {
    /// Hashes the color only, not the text being edited: `Hash::hash` of the
    /// color (std's derived impl). Nothing is claimed of the hasher's state.
    #[verifier::external_body]
    fn hash<H: core::hash::Hasher>(&self, state: &mut H) {
        self.c.hash(state);
    }
}

} // verus!
