//! Colour values: hex strings (#AARRGGBB / #RRGGBB), ARGB32 words,
//! 16-bit-per-channel X11 render colours and opacity percentages.

use vstd::prelude::*;
use crate::text::{push_char, has_prefix};

verus! {

/// Value of a hexadecimal digit, if `c` is one (0-9, a-f, A-F).
pub open spec fn hex_digit(c: char) -> Option<nat> {
    if '0' <= c && c <= '9' {
        Some((c as int - '0' as int) as nat)
    } else if 'a' <= c && c <= 'f' {
        Some((c as int - 'a' as int + 10) as nat)
    } else if 'A' <= c && c <= 'F' {
        Some((c as int - 'A' as int + 10) as nat)
    } else {
        None
    }
}

/// Whether every character of `s` is a hexadecimal digit.
pub open spec fn all_hex(s: Seq<char>) -> bool {
    forall|i: int| 0 <= i < s.len() ==> #[trigger] hex_digit(s[i]) is Some
}

/// Numeric value of a sequence of hexadecimal digits (most significant first).
pub open spec fn hex_value(s: Seq<char>) -> nat
    decreases s.len(),
{
    if s.len() == 0 {
        0
    } else {
        hex_value(s.drop_last()) * 16 + hex_digit(s.last()).unwrap_or(0)
    }
}

/// What `u32::from_str_radix(s, 16)` accepts: an optional '+', then at least
/// one hex digit, with a value that fits in 32 bits.
pub open spec fn parse_hex_u32(s: Seq<char>) -> Option<u32> {
    let digits = if s.len() > 0 && s[0] == '+' { s.drop_first() } else { s };
    if digits.len() == 0 || !all_hex(digits) || hex_value(digits) > u32::MAX {
        None
    } else {
        Some(hex_value(digits) as u32)
    }
}

/// `s` without one leading '#', if it has one.
pub open spec fn strip_hash(s: Seq<char>) -> Seq<char> {
    if s.len() > 0 && s[0] == '#' { s.drop_first() } else { s }
}

/// The digits of a hex number: `s` without one leading '+', if it has one.
pub open spec fn unsigned_part(s: Seq<char>) -> Seq<char> {
    if s.len() > 0 && s[0] == '+' { s.drop_first() } else { s }
}

/// The ARGB word a hex colour string denotes: eight digits (AARRGGBB)
/// carry their own alpha as written; otherwise a value that fits in 24
/// bits (RRGGBB) gets full opacity and a larger one is taken as it is.
pub open spec fn spec_parse_color(s: Seq<char>) -> Option<u32> {
    match parse_hex_u32(strip_hash(s)) {
        Some(v) => Some(
            if unsigned_part(strip_hash(s)).len() == 8 {
                v
            } else if v <= 0xFF_FF_FF {
                (v + 0xFF00_0000) as u32
            } else {
                v
            },
        ),
        None => None,
    }
}

/// Channel `k` (0 = blue, 1 = green, 2 = red, 3 = alpha) of an ARGB word.
pub open spec fn channel(argb: u32, k: nat) -> nat {
    if k == 0 {
        (argb % 256) as nat
    } else if k == 1 {
        ((argb / 256) % 256) as nat
    } else if k == 2 {
        ((argb / 65536) % 256) as nat
    } else {
        ((argb / 16777216) % 256) as nat
    }
}

proof fn lemma_hex_value_step(s: Seq<char>, d: nat)
    ensures
        hex_value(s.push(hex_digit_char(d))) == hex_value(s) * 16 + hex_digit(hex_digit_char(d)).unwrap_or(0),
{
    assert(s.push(hex_digit_char(d)).drop_last() =~= s);
}

/// Upper-case hexadecimal digit for `d < 16`.
pub open spec fn hex_digit_char(d: nat) -> char {
    if d < 10 {
        ((d + '0' as nat) as u8) as char
    } else {
        ((d - 10 + 'A' as nat) as u8) as char
    }
}

/// Two upper-case hex digits of a byte.
pub open spec fn hex_byte(b: nat) -> Seq<char> {
    seq![hex_digit_char(b / 16), hex_digit_char(b % 16)]
}

fn nibble_char(d: u32) -> (c: char)
    requires
        d < 16,
    ensures
        c == hex_digit_char(d as nat),
        hex_digit(c) == Some(d as nat),
{
    let c = if d < 10 {
        ((d as u8) + 48) as char
    } else {
        ((d as u8) - 10 + 65) as char
    };
    c
}

fn push_hex_byte(out: &mut String, b: u32)
    requires
        b < 256,
    ensures
        final(out)@ == old(out)@ + hex_byte(b as nat),
{
    push_char(out, nibble_char(b / 16));
    push_char(out, nibble_char(b % 16));
    assert(final(out)@ =~= old(out)@ + hex_byte(b as nat));
}

/// Hex colour in ARGB32 format (#AARRGGBB).
#[derive(Debug, Clone, Copy, PartialEq, Eq, Structural)]
pub struct HexColor(u32);

impl View for HexColor {
    type V = u32;

    closed spec fn view(&self) -> u32 {
        self.0
    }
}

/// An X11 render colour: 16 bits per channel (0-65535).
#[derive(Debug, Clone, Copy, PartialEq, Eq, Structural)]
pub struct X11Color {
    pub red: u16,
    pub green: u16,
    pub blue: u16,
    pub alpha: u16,
}

fn u32_hex_digits_value(s: &str, start: usize) -> (r: Option<u32>)
    requires
        start <= s@.len(),
    ensures
        r == (if s@.subrange(start as int, s@.len() as int).len() == 0
            || !all_hex(s@.subrange(start as int, s@.len() as int))
            || hex_value(s@.subrange(start as int, s@.len() as int)) > u32::MAX {
            None::<u32>
        } else {
            Some(hex_value(s@.subrange(start as int, s@.len() as int)) as u32)
        }),
{
    let n = s.unicode_len();
    let ghost digits = s@.subrange(start as int, n as int);
    if start == n {
        return None;
    }
    let mut acc: u64 = 0;
    let mut i: usize = start;
    while i < n
        invariant
            start <= i <= n,
            n == s@.len(),
            digits == s@.subrange(start as int, n as int),
            all_hex(s@.subrange(start as int, i as int)),
            acc as nat == hex_value(s@.subrange(start as int, i as int)),
            acc <= u32::MAX,
        decreases n - i,
    {
        let c = s.get_char(i);
        let d: u64 = if '0' <= c && c <= '9' {
            (c as u64) - 48
        } else if 'a' <= c && c <= 'f' {
            (c as u64) - 97 + 10
        } else if 'A' <= c && c <= 'F' {
            (c as u64) - 65 + 10
        } else {
            assert(digits[i - start] == c);
            return None;
        };
        let ghost prev = s@.subrange(start as int, i as int);
        let ghost next = s@.subrange(start as int, i + 1);
        assert(next.drop_last() =~= prev);
        assert(next.last() == c);
        assert(hex_digit(c) == Some(d as nat));
        assert(hex_value(next) == hex_value(prev) * 16 + d);
        acc = acc * 16 + d;
        if acc > 0xFFFF_FFFF {
            proof {
                lemma_hex_value_monotone(digits, (i + 1 - start) as nat);
                assert(digits.subrange(0, (i + 1 - start) as int) =~= next);
            }
            return None;
        }
        i = i + 1;
        assert forall|j: int| 0 <= j < next.len() implies #[trigger] hex_digit(next[j]) is Some by {
            if j < prev.len() {
                assert(next[j] == prev[j]);
            }
        };
    }
    assert(s@.subrange(start as int, n as int) =~= digits);
    Some(acc as u32)
}

/// A prefix of a hex string never has a larger value than the whole string.
proof fn lemma_hex_value_monotone(s: Seq<char>, k: nat)
    requires
        k <= s.len(),
    ensures
        hex_value(s.subrange(0, k as int)) <= hex_value(s),
    decreases s.len() - k,
{
    if k < s.len() {
        lemma_hex_value_monotone(s, k + 1);
        let a = s.subrange(0, k as int);
        let b = s.subrange(0, (k + 1) as int);
        assert(b.drop_last() =~= a);
        assert(hex_value(b) == hex_value(a) * 16 + hex_digit(b.last()).unwrap_or(0));
    } else {
        assert(s.subrange(0, k as int) =~= s);
    }
}

impl HexColor {
    /// Parse a hex colour: optional '#', then `RRGGBB` (full opacity
    /// assumed, becomes FFRRGGBB) or `AARRGGBB` (alpha as written, `00`
    /// included).
    pub fn parse(hex: &str) -> (r: Option<HexColor>)
        ensures
            r matches Some(c) ==> spec_parse_color(hex@) == Some(c@),
            r is None <==> spec_parse_color(hex@) is None,
    {
        let n = hex.unicode_len();
        let mut start: usize = 0;
        if n > 0 && hex.get_char(0) == '#' {
            start = 1;
        }
        assert(strip_hash(hex@) =~= hex@.subrange(start as int, n as int));
        let ghost h = strip_hash(hex@);
        if start < n && hex.get_char(start) == '+' {
            if start + 1 == n {
                assert(h =~= seq!['+']);
                assert(h.drop_first().len() == 0);
                return None;
            }
            assert(h.drop_first() =~= hex@.subrange(start + 1, n as int));
            start = start + 1;
        } else {
            assert(!(h.len() > 0 && h[0] == '+'));
        }
        assert(unsigned_part(h) =~= hex@.subrange(start as int, n as int));
        match u32_hex_digits_value(hex, start) {
            Some(v) => {
                let argb = if n - start == 8 {
                    v
                } else if v <= 0xFF_FF_FF {
                    v + 0xFF00_0000
                } else {
                    v
                };
                Some(HexColor(argb))
            },
            None => None,
        }
    }

    /// Create from an ARGB32 value.
    pub fn from_argb32(argb: u32) -> (r: HexColor)
        ensures
            r@ == argb,
    {
        HexColor(argb)
    }

    /// The raw ARGB32 value.
    pub fn argb32(self) -> (r: u32)
        ensures
            r == self@,
    {
        self.0
    }

    /// Convert to an X11 colour: each 8-bit channel `v` becomes `v * 257`
    /// (0xAB becomes 0xABAB).
    pub fn to_x11_color(self) -> (r: X11Color)
        ensures
            r.alpha == channel(self@, 3) * 257,
            r.red == channel(self@, 2) * 257,
            r.green == channel(self@, 1) * 257,
            r.blue == channel(self@, 0) * 257,
    {
        let a = (self.0 / 16777216) % 256;
        let r = (self.0 / 65536) % 256;
        let g = (self.0 / 256) % 256;
        let b = self.0 % 256;
        X11Color { red: (r * 257) as u16, green: (g * 257) as u16, blue: (b * 257) as u16, alpha: (a * 257) as u16 }
    }
}

/// An 8-bit-per-channel colour as the manager's UI holds it (red, green,
/// blue, alpha).
#[derive(Debug, Clone, Copy, PartialEq, Eq, Structural)]
pub struct Color32 {
    pub r: u8,
    pub g: u8,
    pub b: u8,
    pub a: u8,
}

/// The "#AARRGGBB" rendering of a colour, upper-case.
pub open spec fn spec_color_hex(c: Color32) -> Seq<char> {
    seq!['#'] + hex_byte(c.a as nat) + hex_byte(c.r as nat) + hex_byte(c.g as nat) + hex_byte(c.b as nat)
}

/// Convert a hex string to a colour with the channels of `HexColor::parse`.
pub fn hex_to_color32(hex: &str) -> (r: Option<Color32>)
    ensures
        r is None <==> spec_parse_color(hex@) is None,
        r matches Some(c) ==> {
            let v = spec_parse_color(hex@).unwrap();
            &&& c.a == channel(v, 3)
            &&& c.r == channel(v, 2)
            &&& c.g == channel(v, 1)
            &&& c.b == channel(v, 0)
        },
{
    match HexColor::parse(hex) {
        Some(color) => {
            let v = color.argb32();
            Some(Color32 {
                r: ((v / 65536) % 256) as u8,
                g: ((v / 256) % 256) as u8,
                b: (v % 256) as u8,
                a: ((v / 16777216) % 256) as u8,
            })
        },
        None => None,
    }
}

/// Render a colour as "#AARRGGBB" (upper-case hex).
pub fn color32_to_hex(color: Color32) -> (s: String)
    ensures
        s@ == spec_color_hex(color),
{
    let mut s = String::new();
    push_char(&mut s, '#');
    push_hex_byte(&mut s, color.a as u32);
    push_hex_byte(&mut s, color.r as u32);
    push_hex_byte(&mut s, color.g as u32);
    push_hex_byte(&mut s, color.b as u32);
    assert(s@ =~= spec_color_hex(color));
    s
}

/// The UTF-8 bytes of a text.
pub open spec fn utf8_bytes(s: &str) -> Seq<u8> {
    vstd::utf8::encode_utf8(s@)
}

/// Value of an ASCII hexadecimal digit byte (0-9, a-f, A-F).
pub open spec fn hex_byte_digit(b: u8) -> Option<nat> {
    if 48 <= b <= 57 {
        Some((b - 48) as nat)
    } else if 97 <= b <= 102 {
        Some((b - 87) as nat)
    } else if 65 <= b <= 70 {
        Some((b - 55) as nat)
    } else {
        None
    }
}

/// What `u8::from_str_radix` gives for the two bytes `x y` in base 16:
/// two hex digits, or '+' followed by one.
pub open spec fn radix16_pair(x: u8, y: u8) -> Option<u8> {
    if x == 43 {
        match hex_byte_digit(y) {
            Some(d) => Some(d as u8),
            None => None,
        }
    } else {
        match (hex_byte_digit(x), hex_byte_digit(y)) {
            (Some(h), Some(l)) => Some((h * 16 + l) as u8),
            _ => None,
        }
    }
}

/// The bytes after every leading '#'.
pub open spec fn strip_hashes(b: Seq<u8>) -> Seq<u8>
    decreases b.len(),
{
    if b.len() > 0 && b[0] == 35 {
        strip_hashes(b.drop_first())
    } else {
        b
    }
}

/// The colour a "#RRGGBB" (opaque) or "#AARRGGBB" text denotes, read from
/// its UTF-8 bytes; any number of leading '#' is allowed. Channels are as
/// written (not premultiplied by alpha).
pub open spec fn spec_parse_hex_color(b: Seq<u8>) -> Option<Color32> {
    let t = strip_hashes(b);
    if t.len() == 6 {
        match (radix16_pair(t[0], t[1]), radix16_pair(t[2], t[3]), radix16_pair(t[4], t[5])) {
            (Some(r), Some(g), Some(bl)) => Some(Color32 { r, g, b: bl, a: 255 }),
            _ => None,
        }
    } else if t.len() == 8 {
        match (
            radix16_pair(t[0], t[1]),
            radix16_pair(t[2], t[3]),
            radix16_pair(t[4], t[5]),
            radix16_pair(t[6], t[7]),
        ) {
            (Some(a), Some(r), Some(g), Some(bl)) => Some(Color32 { r, g, b: bl, a }),
            _ => None,
        }
    } else {
        None
    }
}

/// The text is cut into two-byte pairs, one after the other, until a pair
/// does not parse; each cut falls between two characters.
pub open spec fn hex_pairs_cut_cleanly(b: Seq<u8>) -> bool {
    let t = strip_hashes(b);
    let start = b.len() - t.len();
    &&& (t.len() == 6 || t.len() == 8) ==> vstd::utf8::is_char_boundary(b, start + 2)
    &&& (t.len() == 6 || t.len() == 8) && radix16_pair(t[0], t[1]) is Some
        ==> vstd::utf8::is_char_boundary(b, start + 4)
    &&& t.len() == 8 && radix16_pair(t[0], t[1]) is Some && radix16_pair(t[2], t[3]) is Some
        ==> vstd::utf8::is_char_boundary(b, start + 6)
}

fn byte_hex_digit(b: u8) -> (r: Option<u8>)
    ensures
        r matches Some(d) ==> hex_byte_digit(b) == Some(d as nat),
        r is None <==> hex_byte_digit(b) is None,
{
    if 48 <= b && b <= 57 {
        Some(b - 48)
    } else if 97 <= b && b <= 102 {
        Some(b - 87)
    } else if 65 <= b && b <= 70 {
        Some(b - 55)
    } else {
        None
    }
}

fn parse_radix16_pair(x: u8, y: u8) -> (r: Option<u8>)
    ensures
        r == radix16_pair(x, y),
{
    if x == 43 {
        byte_hex_digit(y)
    } else {
        match (byte_hex_digit(x), byte_hex_digit(y)) {
            (Some(h), Some(l)) => Some(h * 16 + l),
            _ => None,
        }
    }
}

/// Parse "#RRGGBB" (full opacity) or "#AARRGGBB"; leading '#'s are
/// skipped. The channels come back as written; a UI that stores colours
/// premultiplied applies the alpha itself.
pub fn parse_hex_color(hex: &str) -> (r: Result<Color32, ()>)
    requires
        hex_pairs_cut_cleanly(utf8_bytes(hex)),
    ensures
        r matches Ok(c) ==> spec_parse_hex_color(utf8_bytes(hex)) == Some(c),
        r is Err <==> spec_parse_hex_color(utf8_bytes(hex)) is None,
{
    let b = hex.as_bytes();
    let n = b.len();
    let ghost bytes = utf8_bytes(hex);
    let mut i: usize = 0;
    assert(bytes.subrange(0, n as int) =~= bytes);
    while i < n && b[i] == 35
        invariant
            i <= n,
            n == bytes.len(),
            b@ == bytes,
            strip_hashes(bytes) == strip_hashes(bytes.subrange(i as int, n as int)),
        decreases n - i,
    {
        assert(bytes.subrange(i as int, n as int).drop_first() =~= bytes.subrange(i + 1, n as int));
        i = i + 1;
    }
    let ghost t = bytes.subrange(i as int, n as int);
    assert(strip_hashes(t) == t);
    let len = n - i;
    if len == 6 {
        match (
            parse_radix16_pair(b[i], b[i + 1]),
            parse_radix16_pair(b[i + 2], b[i + 3]),
            parse_radix16_pair(b[i + 4], b[i + 5]),
        ) {
            (Some(r), Some(g), Some(bl)) => Ok(Color32 { r, g, b: bl, a: 255 }),
            _ => Err(()),
        }
    } else if len == 8 {
        match (
            parse_radix16_pair(b[i], b[i + 1]),
            parse_radix16_pair(b[i + 2], b[i + 3]),
            parse_radix16_pair(b[i + 4], b[i + 5]),
            parse_radix16_pair(b[i + 6], b[i + 7]),
        ) {
            (Some(a), Some(r), Some(g), Some(bl)) => Ok(Color32 { r, g, b: bl, a }),
            _ => Err(()),
        }
    } else {
        Err(())
    }
}

/// The text `format_hex_color` gives: "#RRGGBB" for an opaque colour,
/// "#AARRGGBB" otherwise, upper-case.
pub open spec fn spec_format_hex_color(c: Color32) -> Seq<char> {
    if c.a == 255 {
        seq!['#'] + hex_byte(c.r as nat) + hex_byte(c.g as nat) + hex_byte(c.b as nat)
    } else {
        spec_color_hex(c)
    }
}

/// Render a colour as "#RRGGBB" when fully opaque, else "#AARRGGBB".
pub fn format_hex_color(color: Color32) -> (s: String)
    ensures
        s@ == spec_format_hex_color(color),
{
    if color.a == 255 {
        let mut s = String::new();
        push_char(&mut s, '#');
        push_hex_byte(&mut s, color.r as u32);
        push_hex_byte(&mut s, color.g as u32);
        push_hex_byte(&mut s, color.b as u32);
        assert(s@ =~= spec_format_hex_color(color));
        s
    } else {
        color32_to_hex(color)
    }
}

proof fn lemma_hex_digit_char_byte(d: nat)
    requires
        d < 16,
    ensures
        hex_byte_digit(hex_digit_char(d) as u8) == Some(d),
        hex_digit_char(d) as u8 != 43,
        hex_digit_char(d) as u8 != 35,
        '\0' <= hex_digit_char(d) <= '\u{7f}',
{
}

/// Two upper-case digits of a byte read back, as `u8::from_str_radix` does, give the byte.
proof fn lemma_radix16_pair_of_hex_byte(b: nat)
    requires
        b < 256,
    ensures
        radix16_pair(hex_byte(b)[0] as u8, hex_byte(b)[1] as u8) == Some(b as u8),
{
    lemma_hex_digit_char_byte(b / 16);
    lemma_hex_digit_char_byte(b % 16);
}

/// Formatting a colour and parsing the text back gives the same channels,
/// for every colour: opaque colours take the six-digit form, the others
/// the eight-digit one.
pub proof fn lemma_format_parse_round_trip(c: Color32)
    ensures
        spec_parse_hex_color(vstd::utf8::encode_utf8(spec_format_hex_color(c))) == Some(c),
{
    let s = spec_format_hex_color(c);
    lemma_hex_digit_char_byte(c.a as nat / 16);
    lemma_hex_digit_char_byte(c.a as nat % 16);
    lemma_hex_digit_char_byte(c.r as nat / 16);
    lemma_hex_digit_char_byte(c.r as nat % 16);
    lemma_hex_digit_char_byte(c.g as nat / 16);
    lemma_hex_digit_char_byte(c.g as nat % 16);
    lemma_hex_digit_char_byte(c.b as nat / 16);
    lemma_hex_digit_char_byte(c.b as nat % 16);
    lemma_radix16_pair_of_hex_byte(c.a as nat);
    lemma_radix16_pair_of_hex_byte(c.r as nat);
    lemma_radix16_pair_of_hex_byte(c.g as nat);
    lemma_radix16_pair_of_hex_byte(c.b as nat);
    assert(vstd::utf8::is_ascii_chars(s));
    vstd::utf8::is_ascii_chars_encode_utf8(s);
    let bytes = vstd::utf8::encode_utf8(s);
    assert(bytes[0] == 35);
    assert(bytes[1] != 35);
    assert(strip_hashes(bytes.drop_first()) == bytes.drop_first());
    let t = bytes.drop_first();
    assert(strip_hashes(bytes) == t);
    if c.a == 255 {
        assert(t.len() == 6);
        assert(t[0] == hex_byte(c.r as nat)[0] as u8 && t[1] == hex_byte(c.r as nat)[1] as u8);
        assert(t[2] == hex_byte(c.g as nat)[0] as u8 && t[3] == hex_byte(c.g as nat)[1] as u8);
        assert(t[4] == hex_byte(c.b as nat)[0] as u8 && t[5] == hex_byte(c.b as nat)[1] as u8);
    } else {
        assert(t.len() == 8);
        assert(t[0] == hex_byte(c.a as nat)[0] as u8 && t[1] == hex_byte(c.a as nat)[1] as u8);
        assert(t[2] == hex_byte(c.r as nat)[0] as u8 && t[3] == hex_byte(c.r as nat)[1] as u8);
        assert(t[4] == hex_byte(c.g as nat)[0] as u8 && t[5] == hex_byte(c.g as nat)[1] as u8);
        assert(t[6] == hex_byte(c.b as nat)[0] as u8 && t[7] == hex_byte(c.b as nat)[1] as u8);
    }
}

/// Opacity as a percentage (0-100).
#[derive(Debug, Clone, Copy, PartialEq, Eq, Structural)]
pub struct Opacity(u8);

impl View for Opacity {
    type V = u8;

    closed spec fn view(&self) -> u8 {
        self.0
    }
}

impl Opacity {
    #[verifier::type_invariant]
    spec fn within_range(self) -> bool {
        self.0 <= 100
    }

    /// Create from a percentage, clamped to 0-100.
    pub fn from_percent(percent: u8) -> (r: Opacity)
        ensures
            r@ == (if percent <= 100 { percent } else { 100 }),
    {
        Opacity(if percent <= 100 { percent } else { 100 })
    }

    /// Create from an ARGB32 value: the alpha channel scaled to a percentage,
    /// rounded to the nearest integer.
    pub fn from_argb32(argb: u32) -> (r: Opacity)
        ensures
            r@ == (channel(argb, 3) * 200 + 255) / 510,
    {
        let alpha = (argb / 16777216) % 256;
        let p = (alpha * 200 + 255) / 510;
        assert(p <= 100);
        Opacity(p as u8)
    }

    /// The percentage (0-100).
    pub fn percent(self) -> (r: u8)
        ensures
            r == self@,
            r <= 100,
    {
        proof { use_type_invariant(&self); }
        self.0
    }

    /// The ARGB32 word whose alpha is this opacity scaled to 0-255
    /// (rounded down), with zero colour channels.
    pub fn to_argb32(self) -> (r: u32)
        ensures
            r == (self@ * 255 / 100) * 16777216,
    {
        proof { use_type_invariant(&self); }
        let alpha = (self.0 as u32) * 255 / 100;
        alpha * 16777216
    }
}

/// Converting an opacity to an ARGB word and back gives the same opacity:
/// for every percentage `p` up to 100, the alpha `p * 255 / 100` (rounded
/// down) maps back to `p` when rounded to the nearest percent.
pub proof fn lemma_opacity_round_trip(p: u8)
    requires
        p <= 100,
    ensures
        (channel(((p * 255 / 100) * 16777216) as u32, 3) * 200 + 255) / 510 == p,
{
    let a: int = p * 255 / 100;
    assert(0 <= a <= 255) by (nonlinear_arith)
        requires a == p * 255 / 100, p <= 100;
    let w: int = a * 16777216;
    assert(w <= u32::MAX) by (nonlinear_arith)
        requires w == a * 16777216, a <= 255;
    vstd::arithmetic::div_mod::lemma_fundamental_div_mod_converse(w, 16777216, a, 0);
    vstd::arithmetic::div_mod::lemma_small_mod(a as nat, 256);
    assert(channel(w as u32, 3) == a);
    assert(100 * a <= 255 * p < 100 * a + 100) by (nonlinear_arith)
        requires a == p * 255 / 100, p >= 0;
    assert((a * 200 + 255) / 510 == p) by (nonlinear_arith)
        requires 100 * a <= 255 * p, 255 * p < 100 * a + 100, a >= 0, p >= 0;
}

proof fn lemma_hex_digit_char(d: nat)
    requires
        d < 16,
    ensures
        hex_digit(hex_digit_char(d)) == Some(d),
        hex_digit_char(d) != '+',
{
}

/// Appending a byte's two digits shifts the value by a byte.
proof fn lemma_hex_value_byte(s: Seq<char>, b: nat)
    requires
        b < 256,
    ensures
        hex_value(s + hex_byte(b)) == hex_value(s) * 256 + b,
{
    lemma_hex_digit_char(b / 16);
    lemma_hex_digit_char(b % 16);
    let t = s.push(hex_digit_char(b / 16));
    lemma_hex_value_step(s, b / 16);
    lemma_hex_value_step(t, b % 16);
    assert(s + hex_byte(b) =~= t.push(hex_digit_char(b % 16)));
    assert(hex_value(s) * 256 + b == (hex_value(s) * 16 + b / 16) * 16 + b % 16) by (nonlinear_arith)
        requires b < 256;
}

/// The ARGB word of a colour's channels.
pub open spec fn color32_argb(c: Color32) -> int {
    ((c.a * 256 + c.r) * 256 + c.g) * 256 + c.b
}

/// Rendering a colour as "#AARRGGBB" and parsing it back gives the same
/// channels, for every colour (a transparent one included).
pub proof fn lemma_hex_round_trip(c: Color32)
    ensures
        spec_parse_color(spec_color_hex(c)) matches Some(v) && channel(v, 3) == c.a && channel(v, 2) == c.r
            && channel(v, 1) == c.g && channel(v, 0) == c.b,
{
    let e = Seq::<char>::empty();
    let s1 = e + hex_byte(c.a as nat);
    let s2 = s1 + hex_byte(c.r as nat);
    let s3 = s2 + hex_byte(c.g as nat);
    let s4 = s3 + hex_byte(c.b as nat);
    lemma_hex_value_byte(e, c.a as nat);
    lemma_hex_value_byte(s1, c.r as nat);
    lemma_hex_value_byte(s2, c.g as nat);
    lemma_hex_value_byte(s3, c.b as nat);
    assert(hex_value(e) == 0);
    let text = spec_color_hex(c);
    assert(strip_hash(text) =~= s4);
    lemma_hex_digit_char(c.a as nat / 16);
    lemma_hex_digit_char(c.a as nat % 16);
    lemma_hex_digit_char(c.r as nat / 16);
    lemma_hex_digit_char(c.r as nat % 16);
    lemma_hex_digit_char(c.g as nat / 16);
    lemma_hex_digit_char(c.g as nat % 16);
    lemma_hex_digit_char(c.b as nat / 16);
    lemma_hex_digit_char(c.b as nat % 16);
    assert(s4[0] != '+');
    assert(all_hex(s4)) by {
        assert forall|i: int| 0 <= i < s4.len() implies #[trigger] hex_digit(s4[i]) is Some by {
            if i < 2 {
                assert(s4[i] == hex_byte(c.a as nat)[i]);
            } else if i < 4 {
                assert(s4[i] == hex_byte(c.r as nat)[i - 2]);
            } else if i < 6 {
                assert(s4[i] == hex_byte(c.g as nat)[i - 4]);
            } else {
                assert(s4[i] == hex_byte(c.b as nat)[i - 6]);
            }
        };
    };
    let v = color32_argb(c);
    assert(hex_value(s4) == v);
    assert(unsigned_part(s4) == s4);
    assert(0 <= v <= u32::MAX) by (nonlinear_arith)
        requires v == ((c.a * 256 + c.r) * 256 + c.g) * 256 + c.b, c.a <= 255, c.r <= 255, c.g <= 255, c.b <= 255;
    let w = v as u32;
    assert(w as int == v);
    let q3 = (c.a * 256 + c.r) * 256 + c.g;
    let q2 = c.a * 256 + c.r;
    vstd::arithmetic::div_mod::lemma_fundamental_div_mod_converse(v, 256, q3, c.b as int);
    assert(v == q2 * 65536 + (c.g * 256 + c.b)) by (nonlinear_arith)
        requires v == (q2 * 256 + c.g) * 256 + c.b;
    vstd::arithmetic::div_mod::lemma_fundamental_div_mod_converse(v, 65536, q2, c.g * 256 + c.b);
    assert(v == c.a * 16777216 + (c.r * 65536 + c.g * 256 + c.b)) by (nonlinear_arith)
        requires v == ((c.a * 256 + c.r) * 256 + c.g) * 256 + c.b;
    vstd::arithmetic::div_mod::lemma_fundamental_div_mod_converse(v, 16777216, c.a as int, c.r * 65536 + c.g * 256 + c.b);
    vstd::arithmetic::div_mod::lemma_fundamental_div_mod_converse(q3, 256, q2, c.g as int);
    vstd::arithmetic::div_mod::lemma_fundamental_div_mod_converse(q2, 256, c.a as int, c.r as int);
    vstd::arithmetic::div_mod::lemma_small_mod(c.a as nat, 256);
}

} // verus!
