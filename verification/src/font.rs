//! Font names: splitting "Family Style" strings such as "Open Sans
//! Condensed Bold" into a family and a known style, and naming the fonts
//! that fontconfig lists.

use vstd::prelude::*;
use crate::text::{char_is_whitespace, ends_with, has_suffix, is_whitespace, owned, str_eq};

verus! {

/// Number of known style names.
pub const STYLE_COUNT: usize = 28;

/// The known style names, tried in this order (longer combinations
/// before their parts).
pub open spec fn known_styles() -> Seq<Seq<char>> {
    seq![
        "Condensed Bold Oblique"@, "Condensed Bold Italic"@, "Condensed Bold"@, "Condensed Oblique"@,
        "Condensed Italic"@, "Condensed"@, "ExtraBold Italic"@, "ExtraLight Italic"@, "SemiBold Italic"@,
        "Black Italic"@, "Medium Italic"@, "Light Italic"@, "Thin Italic"@, "Bold Oblique"@, "Bold Italic"@,
        "ExtraBold"@, "Black"@, "Bold"@, "SemiBold"@, "Medium"@, "Book"@, "Regular"@, "Light"@,
        "ExtraLight"@, "Thin"@, "Oblique"@, "Italic"@, "Expanded"@,
    ]
}

/// Known style `i`.
pub fn known_style(i: usize) -> (s: &'static str)
    requires
        i < STYLE_COUNT,
    ensures
        s@ == known_styles()[i as int],
{
    match i {
        0 => "Condensed Bold Oblique",
        1 => "Condensed Bold Italic",
        2 => "Condensed Bold",
        3 => "Condensed Oblique",
        4 => "Condensed Italic",
        5 => "Condensed",
        6 => "ExtraBold Italic",
        7 => "ExtraLight Italic",
        8 => "SemiBold Italic",
        9 => "Black Italic",
        10 => "Medium Italic",
        11 => "Light Italic",
        12 => "Thin Italic",
        13 => "Bold Oblique",
        14 => "Bold Italic",
        15 => "ExtraBold",
        16 => "Black",
        17 => "Bold",
        18 => "SemiBold",
        19 => "Medium",
        20 => "Book",
        21 => "Regular",
        22 => "Light",
        23 => "ExtraLight",
        24 => "Thin",
        25 => "Oblique",
        26 => "Italic",
        _ => "Expanded",
    }
}

/// `s` without leading whitespace.
pub open spec fn trim_start(s: Seq<char>) -> Seq<char>
    decreases s.len(),
{
    if s.len() > 0 && is_whitespace(s[0]) {
        trim_start(s.drop_first())
    } else {
        s
    }
}

/// `s` without trailing whitespace.
pub open spec fn trim_end(s: Seq<char>) -> Seq<char>
    decreases s.len(),
{
    if s.len() > 0 && is_whitespace(s.last()) {
        trim_end(s.drop_last())
    } else {
        s
    }
}

/// `s` without leading and trailing whitespace (`str::trim`).
pub open spec fn trim(s: Seq<char>) -> Seq<char> {
    trim_end(trim_start(s))
}

/// The family that `name` has when it ends with `style`: the text before
/// the style, which must end with a space, trimmed, when not empty.
pub open spec fn family_before(name: Seq<char>, style: Seq<char>) -> Option<Seq<char>> {
    if has_suffix(name, style) {
        let prefix = name.subrange(0, name.len() - style.len());
        if prefix.len() > 0 && prefix.last() == ' ' && trim(prefix).len() > 0 {
            Some(trim(prefix))
        } else {
            None
        }
    } else {
        None
    }
}

/// The split of `name` by the first known style from `k` on that fits.
pub open spec fn split_from(name: Seq<char>, k: int) -> (Seq<char>, Option<Seq<char>>)
    decreases known_styles().len() - k,
{
    if k < 0 || k >= known_styles().len() {
        (name, None)
    } else {
        match family_before(name, known_styles()[k]) {
            Some(f) => (f, Some(known_styles()[k])),
            None => split_from(name, k + 1),
        }
    }
}

/// `s` without leading and trailing whitespace.
pub fn trim_str<'a>(s: &'a str) -> (r: &'a str)
    ensures
        r@ == trim(s@),
{
    let n = s.unicode_len();
    let mut i: usize = 0;
    assert(s@.subrange(0, n as int) =~= s@);
    while i < n && char_is_whitespace(s.get_char(i))
        invariant
            i <= n,
            n == s@.len(),
            trim_start(s@) == trim_start(s@.subrange(i as int, n as int)),
        decreases n - i,
    {
        proof {
            let rest = s@.subrange(i as int, n as int);
            assert(rest.drop_first() =~= s@.subrange(i + 1, n as int));
        }
        i = i + 1;
    }
    proof {
        let rest = s@.subrange(i as int, n as int);
        if i == 0 {
            assert(rest =~= s@);
        }
        assert(trim_start(rest) == rest);
    }
    let mut j: usize = n;
    while j > i && char_is_whitespace(s.get_char(j - 1))
        invariant
            i <= j <= n,
            n == s@.len(),
            trim(s@) == trim_end(s@.subrange(i as int, j as int)),
        decreases j - i,
    {
        proof {
            let part = s@.subrange(i as int, j as int);
            assert(part.drop_last() =~= s@.subrange(i as int, j - 1));
        }
        j = j - 1;
    }
    proof {
        let part = s@.subrange(i as int, j as int);
        assert(trim_end(part) == part);
    }
    s.substring_char(i, j)
}

/// Split a font name into its family and, when it ends with one of the
/// known styles after a space, that style: "Open Sans Condensed Bold"
/// gives ("Open Sans", "Condensed Bold"); a name without a known style is
/// all family.
pub fn parse_font_name<'a>(font_name: &'a str) -> (r: (&'a str, Option<&'static str>))
    ensures
        r.0@ == split_from(font_name@, 0).0,
        match r.1 {
            Some(s) => split_from(font_name@, 0).1 == Some(s@),
            None => split_from(font_name@, 0).1 is None,
        },
{
    let n = font_name.unicode_len();
    let mut k: usize = 0;
    while k < STYLE_COUNT
        invariant
            k <= STYLE_COUNT,
            n == font_name@.len(),
            split_from(font_name@, 0) == split_from(font_name@, k as int),
        decreases STYLE_COUNT - k,
    {
        let style = known_style(k);
        if ends_with(font_name, style) {
            let m = style.unicode_len();
            let prefix = font_name.substring_char(0, n - m);
            let p = prefix.unicode_len();
            if p > 0 && prefix.get_char(p - 1) == ' ' {
                let family = trim_str(prefix);
                if family.unicode_len() > 0 {
                    return (family, Some(style));
                }
            }
        }
        k = k + 1;
    }
    (font_name, None)
}

/// The name of a font that fontconfig lists: its family, followed by its
/// style unless the style is "Regular" or missing.
pub fn font_display_name(family: &str, style: Option<&str>) -> (r: String)
    ensures
        r@ == (match style {
            Some(s) => if s@ == "Regular"@ { family@ } else { family@ + " "@ + s@ },
            None => family@,
        }),
{
    match style {
        Some(s) => {
            if str_eq(s, "Regular") {
                owned(family)
            } else {
                let mut r = owned(family);
                r.append(" ");
                r.append(s);
                r
            }
        },
        None => owned(family),
    }
}

} // verus!
