//! Decimal numbers, whitespace trimming and line splitting on character
//! sequences, with the exact behaviour of the standard library's `str::trim`,
//! `str::parse` for unsigned integers and `BufRead::read_line`.
use vstd::prelude::*;
use vstd::string::*;

verus! {

/// Why an unsigned decimal number could not be read (`IntErrorKind`).
#[derive(Debug, Clone, Copy, PartialEq, Eq, Structural)]
pub enum ParseIntKind {
    /// The text is empty.
    Empty,
    /// A character is not a decimal digit (a lone `+` included).
    InvalidDigit,
    /// The number does not fit in the target type.
    PosOverflow,
}

/// `char::is_whitespace`: the Unicode `White_Space` property.
pub open spec fn is_whitespace(c: char) -> bool {
    ||| c == '\t' || c == '\n' || c == '\u{0B}' || c == '\u{0C}' || c == '\r'
    ||| c == ' ' || c == '\u{85}' || c == '\u{A0}' || c == '\u{1680}'
    ||| ('\u{2000}' <= c && c <= '\u{200A}')
    ||| c == '\u{2028}' || c == '\u{2029}' || c == '\u{202F}' || c == '\u{205F}'
    ||| c == '\u{3000}'
}

/// The text without its leading whitespace.
pub open spec fn trim_start(s: Seq<char>) -> Seq<char>
    decreases s.len(),
{
    if s.len() > 0 && is_whitespace(s[0]) {
        trim_start(s.drop_first())
    } else {
        s
    }
}

/// The text without its trailing whitespace.
pub open spec fn trim_end(s: Seq<char>) -> Seq<char>
    decreases s.len(),
{
    if s.len() > 0 && is_whitespace(s.last()) {
        trim_end(s.drop_last())
    } else {
        s
    }
}

/// `str::trim`: the text without whitespace at either end.
pub open spec fn trim(s: Seq<char>) -> Seq<char> {
    trim_end(trim_start(s))
}

/// The decimal digit character of a value below 10.
pub open spec fn digit_char(d: int) -> char {
    (d + 48) as char
}

/// The value of a decimal digit character.
pub open spec fn digit_value(c: char) -> Option<nat> {
    if '0' <= c && c <= '9' {
        Some((c as int - 48) as nat)
    } else {
        None
    }
}

/// The decimal notation of a number, without leading zeros (`{}` of an integer).
pub open spec fn decimal(n: nat) -> Seq<char>
    decreases n,
{
    if n < 10 {
        seq![digit_char(n as int)]
    } else {
        decimal(n / 10).push(digit_char(n as int % 10))
    }
}

/// Reads digits from left to right onto `acc`: the first character that is not
/// a digit is an invalid digit, a value above `max` an overflow.
pub open spec fn digits_value(acc: nat, s: Seq<char>, max: nat) -> Result<nat, ParseIntKind>
    decreases s.len(),
{
    if s.len() == 0 {
        Ok(acc)
    } else {
        match digit_value(s[0]) {
            None => Err(ParseIntKind::InvalidDigit),
            Some(d) => if acc * 10 + d > max {
                Err(ParseIntKind::PosOverflow)
            } else {
                digits_value(acc * 10 + d, s.drop_first(), max)
            },
        }
    }
}

/// `str::parse` of an unsigned integer type whose largest value is `max`: one
/// optional leading `+`, then at least one decimal digit.
pub open spec fn parse_unsigned(s: Seq<char>, max: nat) -> Result<nat, ParseIntKind> {
    if s.len() == 0 {
        Err(ParseIntKind::Empty)
    } else if s[0] == '+' {
        if s.len() == 1 {
            Err(ParseIntKind::InvalidDigit)
        } else {
            digits_value(0, s.drop_first(), max)
        }
    } else {
        digits_value(0, s, max)
    }
}

/// The position of the first line feed at or after `from`, or the length.
pub open spec fn newline_from(s: Seq<char>, from: int) -> int
    decreases s.len() - from,
{
    if from < 0 || from >= s.len() {
        s.len() as int
    } else if s[from] == '\n' {
        from
    } else {
        newline_from(s, from + 1)
    }
}

/// Where the line that starts at `from` ends, its line feed included
/// (what `BufRead::read_line` consumes).
pub open spec fn line_end(s: Seq<char>, from: int) -> int {
    let e = newline_from(s, from);
    if e < s.len() {
        e + 1
    } else {
        e
    }
}

pub(crate) fn char_is_whitespace(c: char) -> (r: bool)
    ensures
        r == is_whitespace(c),
{
    c == '\t' || c == '\n' || c == '\u{0B}' || c == '\u{0C}' || c == '\r' || c == ' ' || c
        == '\u{85}' || c == '\u{A0}' || c == '\u{1680}' || ('\u{2000}' <= c && c <= '\u{200A}')
        || c == '\u{2028}' || c == '\u{2029}' || c == '\u{202F}' || c == '\u{205F}' || c
        == '\u{3000}'
}

/// The range of `s[from..to]` that remains after trimming whitespace.
pub(crate) fn trim_range(s: &str, from: usize, to: usize) -> (r: (usize, usize))
    requires
        from <= to <= s@.len(),
    ensures
        from <= r.0 <= r.1 <= to,
        s@.subrange(r.0 as int, r.1 as int) == trim(s@.subrange(from as int, to as int)),
{
    let mut i = from;
    while i < to && char_is_whitespace(s.get_char(i))
        invariant
            from <= i <= to <= s@.len(),
            trim_start(s@.subrange(from as int, to as int)) == trim_start(
                s@.subrange(i as int, to as int),
            ),
        decreases to - i,
    {
        assert(s@.subrange(i as int, to as int).drop_first() =~= s@.subrange(i + 1, to as int));
        i += 1;
    }
    assert(trim_start(s@.subrange(i as int, to as int)) == s@.subrange(i as int, to as int));
    let mut j = to;
    while j > i && char_is_whitespace(s.get_char(j - 1))
        invariant
            from <= i <= j <= to <= s@.len(),
            trim_end(s@.subrange(i as int, to as int)) == trim_end(s@.subrange(i as int, j as int)),
        decreases j - i,
    {
        assert(s@.subrange(i as int, j as int).drop_last() =~= s@.subrange(i as int, j - 1));
        j -= 1;
    }
    assert(trim_end(s@.subrange(i as int, j as int)) == s@.subrange(i as int, j as int));
    (i, j)
}

/// The end of the line that starts at `from`, its line feed included.
pub(crate) fn find_line_end(s: &str, from: usize) -> (r: usize)
    requires
        from <= s@.len(),
    ensures
        r == line_end(s@, from as int),
        from <= r <= s@.len(),
{
    let len = s.unicode_len();
    let mut i = from;
    while i < len && s.get_char(i) != '\n'
        invariant
            len == s@.len(),
            from <= i <= len,
            newline_from(s@, from as int) == newline_from(s@, i as int),
        decreases len - i,
    {
        i += 1;
    }
    if i < len {
        i + 1
    } else {
        i
    }
}

/// Reads `s[from..to]` as an unsigned number no larger than `max`.
pub(crate) fn parse_unsigned_range(s: &str, from: usize, to: usize, max: u128) -> (r: Result<
    u128,
    ParseIntKind,
>)
    requires
        from <= to <= s@.len(),
    ensures
        match parse_unsigned(s@.subrange(from as int, to as int), max as nat) {
            Ok(v) => r == Ok::<u128, ParseIntKind>(v as u128) && v <= max,
            Err(k) => r == Err::<u128, ParseIntKind>(k),
        },
{
    let ghost t = s@.subrange(from as int, to as int);
    if from == to {
        return Err(ParseIntKind::Empty);
    }
    let mut i = from;
    if s.get_char(from) == '+' {
        if to - from == 1 {
            return Err(ParseIntKind::InvalidDigit);
        }
        assert(t.drop_first() =~= s@.subrange(from + 1, to as int));
        i = from + 1;
    }
    let ghost start = i;
    proof {
        lemma_digits_bounded(0, s@.subrange(start as int, to as int), max as nat);
    }
    let mut acc: u128 = 0;
    while i < to
        invariant
            from <= start <= i <= to <= s@.len(),
            acc <= max,
            t == s@.subrange(from as int, to as int),
            parse_unsigned(t, max as nat) == digits_value(0, s@.subrange(start as int, to as int), max as nat),
            digits_value(0, s@.subrange(start as int, to as int), max as nat) == digits_value(
                acc as nat,
                s@.subrange(i as int, to as int),
                max as nat,
            ),
        decreases to - i,
    {
        let c = s.get_char(i);
        assert(s@.subrange(i as int, to as int)[0] == c);
        assert(s@.subrange(i as int, to as int).drop_first() =~= s@.subrange(i + 1, to as int));
        let ghost rest = s@.subrange(i as int, to as int);
        if c < '0' || c > '9' {
            assert(digit_value(c) is None);
            assert(digits_value(acc as nat, rest, max as nat) == Err::<nat, ParseIntKind>(
                ParseIntKind::InvalidDigit,
            ));
            return Err(ParseIntKind::InvalidDigit);
        }
        let d = (c as u32 - 48) as u128;
        assert(digit_value(c) == Some(d as nat));
        let next = match acc.checked_mul(10) {
            Some(m) => m.checked_add(d),
            None => None,
        };
        match next {
            Some(n) if n <= max => {
                acc = n;
            },
            _ => {
                assert(acc * 10 + d > max);
                assert(digits_value(acc as nat, rest, max as nat) == Err::<nat, ParseIntKind>(
                    ParseIntKind::PosOverflow,
                ));
                return Err(ParseIntKind::PosOverflow);
            },
        }
        i += 1;
    }
    Ok(acc)
}

/// Whether two strings are equal.
pub(crate) fn str_eq(a: &str, b: &str) -> (r: bool)
    ensures
        r == (a@ == b@),
{
    let n = a.unicode_len();
    if n != b.unicode_len() {
        return false;
    }
    let mut i: usize = 0;
    while i < n
        invariant
            n == a@.len(),
            n == b@.len(),
            i <= n,
            forall|j: int| 0 <= j < i ==> a@[j] == b@[j],
        decreases n - i,
    {
        if a.get_char(i) != b.get_char(i) {
            return false;
        }
        i += 1;
    }
    assert(a@ =~= b@);
    true
}

/// Appends a string.
pub(crate) fn push_str(out: &mut String, s: &str)
    ensures
        final(out)@ == old(out)@ + s@,
{
    out.append(s);
}

/// Appends the decimal notation of `n`.
pub(crate) fn push_decimal(out: &mut String, n: u128)
    ensures
        final(out)@ == old(out)@ + decimal(n as nat),
    decreases n,
{
    let ghost start = out@;
    if n >= 10 {
        push_decimal(out, n / 10);
    }
    crate::color::string_push(out, ((n % 10) as u8 + 48) as char);
    assert(out@ =~= start + decimal(n as nat));
}

/// The decimal notation of `n`.
pub fn decimal_string(n: u128) -> (s: String)
    ensures
        s@ == decimal(n as nat),
{
    let mut s = String::new();
    push_decimal(&mut s, n);
    assert(s@ =~= decimal(n as nat));
    s
}

} // verus!

verus! {

/// A decimal notation holds digits only: no sign, no whitespace, no line feed.
pub open spec fn all_digits(s: Seq<char>) -> bool {
    forall|i: int| 0 <= i < s.len() ==> '0' <= #[trigger] s[i] && s[i] <= '9'
}

proof fn lemma_digits_concat(acc: nat, s1: Seq<char>, s2: Seq<char>, max: nat)
    ensures
        digits_value(acc, s1 + s2, max) == match digits_value(acc, s1, max) {
            Ok(a) => digits_value(a, s2, max),
            Err(e) => Err(e),
        },
    decreases s1.len(),
{
    if s1.len() > 0 {
        assert((s1 + s2).drop_first() =~= s1.drop_first() + s2);
        assert((s1 + s2)[0] == s1[0]);
        if let Some(d) = digit_value(s1[0]) {
            if acc * 10 + d <= max {
                lemma_digits_concat(acc * 10 + d, s1.drop_first(), s2, max);
            }
        }
    } else {
        assert(s1 + s2 =~= s2);
    }
}

proof fn lemma_digit_char(k: int)
    requires
        0 <= k < 10,
    ensures
        digit_char(k) as int == k + 48,
        '0' <= digit_char(k) && digit_char(k) <= '9',
        digit_value(digit_char(k)) == Some(k as nat),
{
    assert(digit_char(k) as int == k + 48);
}

/// A number that was read fits the target type.
pub proof fn lemma_digits_bounded(acc: nat, s: Seq<char>, max: nat)
    requires
        acc <= max,
    ensures
        digits_value(acc, s, max) matches Ok(v) ==> v <= max,
    decreases s.len(),
{
    if s.len() > 0 {
        if let Some(d) = digit_value(s[0]) {
            if acc * 10 + d <= max {
                lemma_digits_bounded(acc * 10 + d, s.drop_first(), max);
            }
        }
    }
}

/// Reading back the decimal notation of a number gives the number, when it
/// fits the target type; the notation is made of digits only.
pub proof fn lemma_decimal_roundtrip(n: nat, max: nat)
    requires
        n <= max,
    ensures
        all_digits(decimal(n)),
        decimal(n).len() >= 1,
        digits_value(0, decimal(n), max) == Ok::<nat, ParseIntKind>(n),
        parse_unsigned(decimal(n), max) == Ok::<nat, ParseIntKind>(n),
    decreases n,
{
    lemma_digit_char(n as int % 10);
    if n < 10 {
        assert(decimal(n).drop_first() =~= Seq::<char>::empty());
        assert(digits_value(n, decimal(n).drop_first(), max) == Ok::<nat, ParseIntKind>(n));
    } else {
        let q = n / 10;
        let d = digit_char(n as int % 10);
        lemma_decimal_roundtrip(q, max);
        lemma_digits_concat(0, decimal(q), seq![d], max);
        assert(decimal(n) == decimal(q) + seq![d]);
        assert(seq![d].drop_first() =~= Seq::<char>::empty());
        assert(q * 10 + n % 10 == n);
        assert(digits_value(q * 10 + n % 10, Seq::<char>::empty(), max) == Ok::<nat, ParseIntKind>(n));
        assert(digits_value(q, seq![d], max) == Ok::<nat, ParseIntKind>(n));
    }
    assert(decimal(n)[0] != '+');
}

/// A text made of digits only has no whitespace to trim and no line feed.
pub proof fn lemma_digits_untrimmed(s: Seq<char>)
    requires
        all_digits(s),
    ensures
        trim(s) == s,
        forall|i: int| 0 <= i < s.len() ==> #[trigger] s[i] != '\n' && !is_whitespace(s[i]),
{
    if s.len() > 0 {
        assert(!is_whitespace(s[0]));
        assert(!is_whitespace(s.last()));
    }
    assert(trim_start(s) == s);
}

} // verus!

verus! {

/// The order of `str` and `String`: lexicographic on characters, a proper
/// prefix first (the order of the UTF-8 bytes, which is that of the code
/// points).
pub open spec fn text_lt(a: Seq<char>, b: Seq<char>) -> bool
    decreases a.len(),
{
    if a.len() == 0 {
        b.len() > 0
    } else if b.len() == 0 {
        false
    } else if a[0] != b[0] {
        a[0] < b[0]
    } else {
        text_lt(a.drop_first(), b.drop_first())
    }
}

/// No text comes before itself.
pub proof fn lemma_text_lt_irreflexive(a: Seq<char>)
    ensures
        !text_lt(a, a),
    decreases a.len(),
{
    if a.len() > 0 {
        lemma_text_lt_irreflexive(a.drop_first());
    }
}

/// The order of texts is transitive.
pub proof fn lemma_text_lt_transitive(a: Seq<char>, b: Seq<char>, c: Seq<char>)
    requires
        text_lt(a, b),
        text_lt(b, c),
    ensures
        text_lt(a, c),
    decreases a.len(),
{
    if a.len() > 0 && b.len() > 0 && c.len() > 0 && a[0] == b[0] && b[0] == c[0] {
        lemma_text_lt_transitive(a.drop_first(), b.drop_first(), c.drop_first());
    }
}

/// Of two different texts, one comes before the other.
pub proof fn lemma_text_lt_total(a: Seq<char>, b: Seq<char>)
    ensures
        a == b || text_lt(a, b) || text_lt(b, a),
    decreases a.len(),
{
    if a.len() > 0 && b.len() > 0 && a[0] == b[0] {
        lemma_text_lt_total(a.drop_first(), b.drop_first());
        if a.drop_first() == b.drop_first() {
            assert(a =~= seq![a[0]] + a.drop_first());
            assert(b =~= seq![b[0]] + b.drop_first());
        }
    } else if a.len() == 0 && b.len() == 0 {
        assert(a =~= b);
    }
}

/// Whether `a` comes before `b` in the order of strings.
pub(crate) fn str_lt(a: &str, b: &str) -> (r: bool)
    ensures
        r == text_lt(a@, b@),
{
    let na = a.unicode_len();
    let nb = b.unicode_len();
    let mut i: usize = 0;
    assert(a@.skip(0) =~= a@);
    assert(b@.skip(0) =~= b@);
    while i < na && i < nb
        invariant
            na == a@.len(),
            nb == b@.len(),
            i <= na,
            i <= nb,
            text_lt(a@, b@) == text_lt(a@.skip(i as int), b@.skip(i as int)),
        decreases na - i,
    {
        let ca = a.get_char(i);
        let cb = b.get_char(i);
        assert(a@.skip(i as int)[0] == ca);
        assert(b@.skip(i as int)[0] == cb);
        if ca != cb {
            return ca < cb;
        }
        assert(a@.skip(i as int).drop_first() =~= a@.skip(i + 1));
        assert(b@.skip(i as int).drop_first() =~= b@.skip(i + 1));
        i += 1;
    }
    na < nb
}

} // verus!
