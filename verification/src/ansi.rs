//! Reading text with ANSI SGR escape sequences back into styled text.

use vstd::prelude::*;
use crate::color::{Color, ColorValue, all_digits, digits_value, parse_u8, parse_u8_spec, unsigned_digits};
use crate::markup::{StyleView, null_view, style_view};
use crate::strutil::{chars_of, push_char, string_of};
use crate::style::{Attributes, Style};
use crate::text::{Span, Text};
use crate::highlighter::{advance_to_byte, char_at_byte, match_ranges_ok, regex_find_ranges, regex_matches, regex_valid};
use crate::strutil::utf8_len;

verus! {

/// Reads ANSI-escaped text into styled text.
pub struct AnsiDecoder;

/// `s` cut at every `c`: `str::split` with one separator character.
pub open spec fn split_char(s: Seq<char>, c: char) -> Seq<Seq<char>>
    decreases s.len(),
{
    if s.len() == 0 {
        seq![seq![]]
    } else {
        let rest = split_char(s.drop_last(), c);
        if s.last() == c {
            rest.push(seq![])
        } else {
            rest.update(rest.len() - 1, rest.last().push(s.last()))
        }
    }
}

/// `split_char` never gives an empty list.
proof fn lemma_split_nonempty(s: Seq<char>, c: char)
    ensures
        split_char(s, c).len() >= 1,
    decreases s.len(),
{
    if s.len() > 0 {
        lemma_split_nonempty(s.drop_last(), c);
    }
}

/// `s` cut at every `;`.
pub fn split_semi(s: &str) -> (r: Vec<String>)
    ensures
        r@.map_values(|p: String| p@) == split_char(s@, ';'),
{
    let cs = chars_of(s);
    let mut out: Vec<String> = Vec::new();
    let mut cur: Vec<char> = Vec::new();
    let mut i: usize = 0;
    assert(cs@.take(0) =~= Seq::<char>::empty());
    while i < cs.len()
        invariant
            i <= cs@.len(),
            cs@ == s@,
            out@.map_values(|p: String| p@).push(cur@) == split_char(cs@.take(i as int), ';'),
        decreases cs.len() - i,
    {
        let ghost prev = cs@.take(i as int);
        assert(cs@.take(i + 1).drop_last() =~= prev);
        proof {
            lemma_split_nonempty(prev, ';');
        }
        let ch = cs[i];
        if ch == ';' {
            let ghost o0 = out@.map_values(|p: String| p@);
            let w = string_of(&cur);
            out.push(w);
            cur = Vec::new();
            assert(out@.map_values(|p: String| p@) =~= o0.push(w@));
            assert(out@.map_values(|p: String| p@).push(cur@) =~= split_char(cs@.take(i + 1), ';'));
        } else {
            let ghost o0 = out@.map_values(|p: String| p@);
            cur.push(ch);
            assert(o0.push(cur@) =~= split_char(cs@.take(i + 1), ';'));
        }
        i = i + 1;
    }
    assert(cs@.take(cs@.len() as int) =~= cs@);
    let ghost o0 = out@.map_values(|p: String| p@);
    let w = string_of(&cur);
    out.push(w);
    assert(out@.map_values(|p: String| p@) =~= o0.push(cur@));
    out
}

/// The number a parameter reads as: its decimal value when it is one and
/// below 1000, else 999 (a code with no effect).
pub open spec fn code_spec(p: Seq<char>) -> nat {
    let d = unsigned_digits(p);
    if d.len() > 0 && all_digits(d) && digits_value(d) < 1000 {
        digits_value(d)
    } else {
        999
    }
}

/// A `u8` parameter, or 0 when it reads as none.
pub open spec fn u8_or_zero(p: Seq<char>) -> u8 {
    match parse_u8_spec(p) {
        Some(v) => v,
        None => 0,
    }
}

/// `digits_value` grows with each digit.
proof fn lemma_digits_grow(d: Seq<char>, k: int)
    requires
        0 <= k <= d.len(),
        all_digits(d),
    ensures
        digits_value(d.take(k)) <= digits_value(d),
    decreases d.len() - k,
{
    if k < d.len() {
        lemma_digits_grow(d, k + 1);
        assert(d.take(k + 1).drop_last() =~= d.take(k));
    } else {
        assert(d.take(k) =~= d);
    }
}

/// The number parameter `p` reads as.
pub fn sgr_code(p: &str) -> (n: u32)
    ensures
        n == code_spec(p@),
{
    let cs = chars_of(p);
    let len = cs.len();
    let start: usize = if len > 0 && cs[0] == '+' {
        1
    } else {
        0
    };
    let ghost d = unsigned_digits(p@);
    assert(d =~= cs@.skip(start as int));
    if start == len {
        return 999;
    }
    let mut acc: u32 = 0;
    let mut i: usize = start;
    while i < len
        invariant
            len == cs@.len(),
            cs@ == p@,
            start <= i <= len,
            d == cs@.skip(start as int),
            d == unsigned_digits(p@),
            all_digits(cs@.subrange(start as int, i as int)),
            acc == digits_value(cs@.subrange(start as int, i as int)),
            acc < 1000,
        decreases len - i,
    {
        let c = cs[i];
        if !('0' <= c && c <= '9') {
            assert(!all_digits(d)) by {
                assert(d[i - start] == c);
            }
            return 999;
        }
        let ghost pre = cs@.subrange(start as int, i as int);
        let ghost post = cs@.subrange(start as int, i + 1);
        assert(post.drop_last() =~= pre);
        let v: u32 = c as u32 - 48;
        let next: u32 = acc * 10 + v;
        if next >= 1000 {
            proof {
                if all_digits(d) {
                    assert(post =~= d.take(i + 1 - start));
                    lemma_digits_grow(d, i + 1 - start);
                }
            }
            return 999;
        }
        acc = next;
        i = i + 1;
    }
    assert(cs@.subrange(start as int, len as int) =~= d);
    acc
}

/// The attributes with `which` set to `v`.
pub open spec fn set_attr(a: Attributes, which: nat, v: bool) -> Attributes {
    if which == 1 {
        Attributes { bold: Some(v), ..a }
    } else if which == 2 {
        Attributes { dim: Some(v), ..a }
    } else if which == 3 {
        Attributes { italic: Some(v), ..a }
    } else if which == 4 {
        Attributes { underline: Some(v), ..a }
    } else if which == 5 {
        Attributes { blink: Some(v), ..a }
    } else if which == 6 {
        Attributes { blink2: Some(v), ..a }
    } else if which == 7 {
        Attributes { reverse: Some(v), ..a }
    } else if which == 8 {
        Attributes { conceal: Some(v), ..a }
    } else if which == 9 {
        Attributes { strike: Some(v), ..a }
    } else if which == 21 {
        Attributes { underline2: Some(v), ..a }
    } else if which == 51 {
        Attributes { frame: Some(v), ..a }
    } else if which == 52 {
        Attributes { encircle: Some(v), ..a }
    } else {
        Attributes { overline: Some(v), ..a }
    }
}

/// The view with its attributes replaced.
pub open spec fn with_attrs(v: StyleView, a: Attributes) -> StyleView {
    (v.0, v.1, a, v.3)
}

/// The view with the foreground (or background) color replaced.
pub open spec fn with_color(v: StyleView, bg: bool, c: ColorValue) -> StyleView {
    if bg {
        (v.0, Some(c), v.2, v.3)
    } else {
        (Some(c), v.1, v.2, v.3)
    }
}

/// What one SGR code other than 38 and 48 does to a style.
pub open spec fn code_effect(v: StyleView, n: nat) -> StyleView {
    if n == 0 {
        null_view()
    } else if (1 <= n <= 9) || n == 21 || n == 51 || n == 52 || n == 53 {
        with_attrs(v, set_attr(v.2, n, true))
    } else if n == 22 {
        with_attrs(v, set_attr(set_attr(v.2, 1, false), 2, false))
    } else if n == 23 || n == 24 || n == 27 || n == 28 || n == 29 {
        with_attrs(v, set_attr(v.2, (n - 20) as nat, false))
    } else if n == 25 {
        with_attrs(v, set_attr(set_attr(v.2, 5, false), 6, false))
    } else if n == 54 {
        with_attrs(v, set_attr(set_attr(v.2, 51, false), 52, false))
    } else if n == 55 {
        with_attrs(v, set_attr(v.2, 53, false))
    } else if 30 <= n <= 37 {
        with_color(v, false, ColorValue::EightBit((n - 30) as u8))
    } else if n == 39 {
        with_color(v, false, ColorValue::Default)
    } else if 40 <= n <= 47 {
        with_color(v, true, ColorValue::EightBit((n - 40) as u8))
    } else if n == 49 {
        with_color(v, true, ColorValue::Default)
    } else if 90 <= n <= 97 {
        with_color(v, false, ColorValue::EightBit((n - 90 + 8) as u8))
    } else if 100 <= n <= 107 {
        with_color(v, true, ColorValue::EightBit((n - 100 + 8) as u8))
    } else {
        v
    }
}

/// The style after the parameters from index `i` on: each code applied in
/// turn; 38 and 48 read `5;N` (an 8-bit color) or `2;R;G;B` (a true color,
/// when all three are there) from the parameters after them.
pub open spec fn sgr_run(v: StyleView, parts: Seq<Seq<char>>, i: nat) -> StyleView
    decreases parts.len() - i,
{
    if i >= parts.len() {
        v
    } else {
        let n = code_spec(parts[i as int]);
        if n == 38 || n == 48 {
            let bg = n == 48;
            if i + 1 >= parts.len() {
                v
            } else if parts[i + 1int] == "5"@ {
                if i + 2 >= parts.len() {
                    v
                } else {
                    let v2 = match parse_u8_spec(parts[i + 2int]) {
                        Some(c) => with_color(v, bg, ColorValue::EightBit(c)),
                        None => v,
                    };
                    sgr_run(v2, parts, i + 3)
                }
            } else if parts[i + 1int] == "2"@ && i + 4 < parts.len() {
                let c = ColorValue::TrueColor(
                    u8_or_zero(parts[i + 2int]),
                    u8_or_zero(parts[i + 3int]),
                    u8_or_zero(parts[i + 4int]),
                );
                sgr_run(with_color(v, bg, c), parts, i + 5)
            } else {
                sgr_run(v, parts, i + 2)
            }
        } else {
            sgr_run(code_effect(v, n), parts, i + 1)
        }
    }
}

/// The style after the parameters `params` of an SGR sequence: none, or
/// just `0`, resets it.
pub open spec fn apply_sgr_spec(v: StyleView, params: Seq<char>) -> StyleView {
    if params.len() == 0 || params == "0"@ {
        null_view()
    } else {
        sgr_run(v, split_char(params, ';'), 0)
    }
}

/// Text with no separator splits into itself alone.
proof fn lemma_split_without_sep(p: Seq<char>, c: char)
    requires
        forall|k: int| 0 <= k < p.len() ==> p[k] != c,
    ensures
        split_char(p, c) == seq![p],
    decreases p.len(),
{
    if p.len() > 0 {
        lemma_split_without_sep(p.drop_last(), c);
        assert(p.drop_last().push(p.last()) =~= p);
        assert(seq![p.drop_last()].update(0, p.drop_last().push(p.last())) =~= seq![p]);
    } else {
        assert(p =~= Seq::<char>::empty());
    }
}

/// The parameters of an SGR sequence holding one code (other than the
/// extended-color codes 38 and 48) change the style as that code does.
pub proof fn lemma_sgr_single_code(v: StyleView, p: Seq<char>)
    requires
        p.len() > 0,
        forall|k: int| 0 <= k < p.len() ==> p[k] != ';',
        code_spec(p) != 38,
        code_spec(p) != 48,
    ensures
        apply_sgr_spec(v, p) == if p == "0"@ {
            null_view()
        } else {
            code_effect(v, code_spec(p))
        },
{
    lemma_split_without_sep(p, ';');
    let n = code_spec(p);
    assert(sgr_run(code_effect(v, n), seq![p], 1) == code_effect(v, n));
    assert(sgr_run(v, seq![p], 0) == sgr_run(code_effect(v, n), seq![p], 1));
}

/// What each SGR code does: 0 resets; 1–9, 21 and 51–53 turn on bold,
/// dim, italic, underline, blink, rapid blink, reverse, conceal, strike,
/// double underline, frame, encircle and overline; 22–29, 54 and 55 turn
/// them off again; 30–37 and 90–97 set the foreground to palette color
/// 0–7 or 8–15, 40–47 and 100–107 the background, and 39 and 49 set them
/// to the default; any other code changes nothing. Only what the code names
/// changes.
pub proof fn lemma_sgr_code_meanings(v: StyleView, n: nat)
    ensures
        n == 0 ==> code_effect(v, n) == null_view(),
        n == 1 ==> code_effect(v, n) == (v.0, v.1, Attributes { bold: Some(true), ..v.2 }, v.3),
        n == 2 ==> code_effect(v, n) == (v.0, v.1, Attributes { dim: Some(true), ..v.2 }, v.3),
        n == 3 ==> code_effect(v, n) == (v.0, v.1, Attributes { italic: Some(true), ..v.2 }, v.3),
        n == 4 ==> code_effect(v, n) == (v.0, v.1, Attributes { underline: Some(true), ..v.2 }, v.3),
        n == 5 ==> code_effect(v, n) == (v.0, v.1, Attributes { blink: Some(true), ..v.2 }, v.3),
        n == 6 ==> code_effect(v, n) == (v.0, v.1, Attributes { blink2: Some(true), ..v.2 }, v.3),
        n == 7 ==> code_effect(v, n) == (v.0, v.1, Attributes { reverse: Some(true), ..v.2 }, v.3),
        n == 8 ==> code_effect(v, n) == (v.0, v.1, Attributes { conceal: Some(true), ..v.2 }, v.3),
        n == 9 ==> code_effect(v, n) == (v.0, v.1, Attributes { strike: Some(true), ..v.2 }, v.3),
        n == 21 ==> code_effect(v, n) == (v.0, v.1, Attributes { underline2: Some(true), ..v.2 }, v.3),
        n == 22 ==> code_effect(v, n) == (v.0, v.1, Attributes { bold: Some(false), dim: Some(false), ..v.2 }, v.3),
        n == 23 ==> code_effect(v, n) == (v.0, v.1, Attributes { italic: Some(false), ..v.2 }, v.3),
        n == 24 ==> code_effect(v, n) == (v.0, v.1, Attributes { underline: Some(false), ..v.2 }, v.3),
        n == 25 ==> code_effect(v, n) == (
            v.0,
            v.1,
            Attributes { blink: Some(false), blink2: Some(false), ..v.2 },
            v.3,
        ),
        n == 27 ==> code_effect(v, n) == (v.0, v.1, Attributes { reverse: Some(false), ..v.2 }, v.3),
        n == 28 ==> code_effect(v, n) == (v.0, v.1, Attributes { conceal: Some(false), ..v.2 }, v.3),
        n == 29 ==> code_effect(v, n) == (v.0, v.1, Attributes { strike: Some(false), ..v.2 }, v.3),
        n == 51 ==> code_effect(v, n) == (v.0, v.1, Attributes { frame: Some(true), ..v.2 }, v.3),
        n == 52 ==> code_effect(v, n) == (v.0, v.1, Attributes { encircle: Some(true), ..v.2 }, v.3),
        n == 53 ==> code_effect(v, n) == (v.0, v.1, Attributes { overline: Some(true), ..v.2 }, v.3),
        n == 54 ==> code_effect(v, n) == (
            v.0,
            v.1,
            Attributes { frame: Some(false), encircle: Some(false), ..v.2 },
            v.3,
        ),
        n == 55 ==> code_effect(v, n) == (v.0, v.1, Attributes { overline: Some(false), ..v.2 }, v.3),
        30 <= n <= 37 ==> code_effect(v, n) == (Some(ColorValue::EightBit((n - 30) as u8)), v.1, v.2, v.3),
        n == 39 ==> code_effect(v, n) == (Some(ColorValue::Default), v.1, v.2, v.3),
        40 <= n <= 47 ==> code_effect(v, n) == (v.0, Some(ColorValue::EightBit((n - 40) as u8)), v.2, v.3),
        n == 49 ==> code_effect(v, n) == (v.0, Some(ColorValue::Default), v.2, v.3),
        90 <= n <= 97 ==> code_effect(v, n) == (Some(ColorValue::EightBit((n - 82) as u8)), v.1, v.2, v.3),
        100 <= n <= 107 ==> code_effect(v, n) == (v.0, Some(ColorValue::EightBit((n - 92) as u8)), v.2, v.3),
        !((n <= 9) || (21 <= n <= 25) || (27 <= n <= 37) || n == 39 || (40 <= n <= 47) || n == 49 || (51 <= n
            <= 55) || (90 <= n <= 97) || (100 <= n <= 107)) ==> code_effect(v, n) == v,
{
}

/// One extended-color sequence changes the foreground (38) or background
/// (48) alone: `5;N` to palette color N, `2;R;G;B` to that true color.
pub proof fn lemma_sgr_extended_color(v: StyleView, parts: Seq<Seq<char>>)
    requires
        parts.len() >= 3,
        code_spec(parts[0]) == 38 || code_spec(parts[0]) == 48,
        parts[1] == "5"@,
        parse_u8_spec(parts[2]) is Some,
    ensures
        sgr_run(v, parts, 0) == sgr_run(
            if code_spec(parts[0]) == 48 {
                (v.0, Some(ColorValue::EightBit(parse_u8_spec(parts[2]).unwrap())), v.2, v.3)
            } else {
                (Some(ColorValue::EightBit(parse_u8_spec(parts[2]).unwrap())), v.1, v.2, v.3)
            },
            parts,
            3,
        ),
{
}

/// Whether `a` is the string "5" (or "2" for `two`).
fn is_digit_str(a: &str, d: char) -> (b: bool)
    ensures
        b == (a@ == seq![d]),
{
    let cs = chars_of(a);
    if cs.len() == 1 && cs[0] == d {
        assert(a@ =~= seq![d]);
        true
    } else {
        false
    }
}

/// The style with code `n` (other than 38 and 48) applied.
fn code_apply(s: Style, n: u32) -> (r: Style)
    ensures
        style_view(r) == code_effect(style_view(s), n as nat),
        named_colors_kept(r, s),
{
    match n {
        0 => Style::new(),
        1 => s.bold(true),
        2 => s.dim(true),
        3 => s.italic(true),
        4 => s.underline(true),
        5 => s.blink(true),
        6 => s.blink2(true),
        7 => s.reverse(true),
        8 => s.conceal(true),
        9 => s.strike(true),
        21 => s.underline2(true),
        22 => s.bold(false).dim(false),
        23 => s.italic(false),
        24 => s.underline(false),
        25 => s.blink(false).blink2(false),
        27 => s.reverse(false),
        28 => s.conceal(false),
        29 => s.strike(false),
        30..=37 => s.color(Color::from_8bit((n - 30) as u8)),
        39 => s.color(Color::default()),
        40..=47 => s.bgcolor(Color::from_8bit((n - 40) as u8)),
        49 => s.bgcolor(Color::default()),
        51 => s.frame(true),
        52 => s.encircle(true),
        53 => s.overline(true),
        54 => s.frame(false).encircle(false),
        55 => s.overline(false),
        90..=97 => s.color(Color::from_8bit((n - 90 + 8) as u8)),
        100..=107 => s.bgcolor(Color::from_8bit((n - 100 + 8) as u8)),
        _ => s,
    }
}

/// The style with color `c` as foreground, or background when `bg`.
fn set_color(s: Style, bg: bool, c: Color) -> (r: Style)
    requires
        c.label() is None,
    ensures
        style_view(r) == with_color(style_view(s), bg, c@),
        named_colors_kept(r, s),
{
    if bg {
        s.bgcolor(c)
    } else {
        s.color(c)
    }
}

/// Whether each color of `r` either carries no name or is the color of
/// `s`: SGR codes make colors without names.
pub open spec fn named_colors_kept(r: Style, s: Style) -> bool {
    &&& (r.color matches Some(c) ==> c.label() is None || r.color == s.color)
    &&& (r.bgcolor matches Some(c) ==> c.label() is None || r.bgcolor == s.bgcolor)
}

/// `style` changed by the parameters of an SGR sequence.
pub fn apply_sgr(style: &Style, params: &str) -> (r: Style)
    ensures
        style_view(r) == apply_sgr_spec(style_view(*style), params@),
        named_colors_kept(r, *style),
{
    proof {
        reveal_strlit("5");
        reveal_strlit("2");
        reveal_strlit("0");
        assert("0"@ =~= seq!['0']);
        assert("5"@ =~= seq!['5']);
        assert("2"@ =~= seq!['2']);
    }
    let plen = params.unicode_len();
    if plen == 0 || is_digit_str(params, '0') {
        let r = Style::new();
        assert(style_view(r) == null_view());
        return r;
    }
    let parts = split_semi(params);
    let ghost ps = parts@.map_values(|p: String| p@);
    let mut s = style.clone();
    let mut i: usize = 0;
    while i < parts.len()
        invariant
            ps == parts@.map_values(|p: String| p@),
            ps == split_char(params@, ';'),
            "5"@ == seq!['5'],
            "2"@ == seq!['2'],
            apply_sgr_spec(style_view(*style), params@) == sgr_run(style_view(*style), ps, 0),
            sgr_run(style_view(s), ps, i as nat) == sgr_run(style_view(*style), ps, 0),
            named_colors_kept(s, *style),
        decreases parts.len() - i,
    {
        let n = sgr_code(parts[i].as_str());
        assert(ps[i as int] == parts@[i as int]@);
        let ghost v0 = style_view(s);
        if n == 38 || n == 48 {
            let bg = n == 48;
            let left = parts.len() - i;
            if left <= 1 {
                return s;
            }
            assert(ps[i + 1] == parts@[i + 1]@);
            if is_digit_str(parts[i + 1].as_str(), '5') {
                if left <= 2 {
                    return s;
                }
                assert(ps[i + 2] == parts@[i + 2]@);
                match parse_u8(parts[i + 2].as_str()) {
                    Some(c) => {
                        s = set_color(s, bg, Color::from_8bit(c));
                    },
                    None => {},
                }
                assert(sgr_run(v0, ps, i as nat) == sgr_run(style_view(s), ps, (i + 3) as nat));
                if left <= 3 {
                    return s;
                }
                i = i + 3;
            } else if is_digit_str(parts[i + 1].as_str(), '2') && left > 4 {
                assert(ps[i + 2] == parts@[i + 2]@);
                assert(ps[i + 3] == parts@[i + 3]@);
                assert(ps[i + 4] == parts@[i + 4]@);
                let r = match parse_u8(parts[i + 2].as_str()) {
                    Some(v) => v,
                    None => 0,
                };
                let g = match parse_u8(parts[i + 3].as_str()) {
                    Some(v) => v,
                    None => 0,
                };
                let b = match parse_u8(parts[i + 4].as_str()) {
                    Some(v) => v,
                    None => 0,
                };
                s = set_color(s, bg, Color::from_rgb(r, g, b));
                assert(sgr_run(v0, ps, i as nat) == sgr_run(style_view(s), ps, (i + 5) as nat));
                if left <= 5 {
                    return s;
                }
                i = i + 5;
            } else {
                assert(!(ps[i + 1] == "5"@));
                assert(!(ps[i + 1] == "2"@ && i + 4 < ps.len()));
                assert(sgr_run(v0, ps, i as nat) == sgr_run(v0, ps, (i + 2) as nat));
                if left <= 2 {
                    return s;
                }
                i = i + 2;
            }
        } else {
            s = code_apply(s, n);
            i = i + 1;
        }
    }
    s
}

/// The pattern of an SGR sequence: `ESC [`, digits and semicolons, `m`.
pub open spec fn sgr_pattern() -> Seq<char> {
    "\\x1b\\[([\\d;]*)m"@
}

/// The parameters of the match from character `s` to `e`: what lies
/// between its `ESC [` and its `m`.
pub open spec fn match_params(cs: Seq<char>, s: nat, e: nat) -> Seq<char> {
    if e >= s + 3 {
        cs.subrange(s + 2int, e - 1int)
    } else {
        seq![]
    }
}

/// The pieces of text of `cs` around the SGR matches `ms` (byte ranges)
/// from match `k` on, the text so far ending at character `i` and in the
/// style `st`: the text before each match in the style in force, each
/// match changing the style by its parameters, then the rest of the text.
pub open spec fn match_pieces(cs: Seq<char>, ms: Seq<(usize, usize)>, k: nat, i: nat, st: StyleView) -> Seq<
    (Seq<char>, StyleView),
>
    decreases ms.len() - k,
{
    if k >= ms.len() {
        if i < cs.len() {
            seq![(cs.subrange(i as int, cs.len() as int), st)]
        } else {
            seq![]
        }
    } else {
        let s = char_at_byte(cs, ms[k as int].0 as nat);
        let e = char_at_byte(cs, ms[k as int].1 as nat);
        (if s > i {
            seq![(cs.subrange(i as int, s as int), st)]
        } else {
            seq![]
        }) + match_pieces(cs, ms, k + 1, e, apply_sgr_spec(st, match_params(cs, s, e)))
    }
}

/// The pieces `decode` reads from `text`: around the matches of the SGR
/// pattern, starting unstyled (the whole text, unstyled, if the regex
/// crate were to refuse the pattern).
pub open spec fn decoded_pieces(text: Seq<char>) -> Seq<(Seq<char>, StyleView)> {
    if regex_valid(sgr_pattern()) {
        match_pieces(text, regex_matches(sgr_pattern(), text), 0, 0, null_view())
    } else if text.len() > 0 {
        seq![(text, null_view())]
    } else {
        seq![]
    }
}

/// The plain text and the spans (start, end, style) of a text built from
/// `pieces`, starting at offset `at`: each piece adds its text, and a span
/// when its style sets something and the piece is not empty.
pub open spec fn pieces_text(pieces: Seq<(Seq<char>, StyleView)>) -> (Seq<char>, Seq<(nat, nat, StyleView)>)
    decreases pieces.len(),
{
    if pieces.len() == 0 {
        (seq![], seq![])
    } else {
        let prev = pieces_text(pieces.drop_last());
        let p = pieces.last();
        let start = prev.0.len();
        (prev.0 + p.0, if p.1 == null_view() || p.0.len() == 0 {
            prev.1
        } else {
            prev.1.push((start, start + p.0.len(), p.1))
        })
    }
}

/// The plain text and spans of a text, with span styles as views.
pub open spec fn text_view(t: Text) -> (Seq<char>, Seq<(nat, nat, StyleView)>) {
    (t.plain@, t.spans@.map_values(|sp: Span| (sp.start as nat, sp.end as nat, style_view(sp.style))))
}

/// The characters `from..to` of `cs` as a string.
fn slice_chars(cs: &Vec<char>, from: usize, to: usize) -> (r: String)
    requires
        from <= to <= cs@.len(),
    ensures
        r@ == cs@.subrange(from as int, to as int),
{
    let mut r = String::new();
    let mut k: usize = from;
    while k < to
        invariant
            from <= k <= to,
            to <= cs@.len(),
            r@ == cs@.subrange(from as int, k as int),
        decreases to - k,
    {
        push_char(&mut r, cs[k]);
        k = k + 1;
        assert(r@ =~= cs@.subrange(from as int, k as int));
    }
    r
}

/// Whether a style sets nothing, seen through its view.
proof fn lemma_null_view(st: Style)
    ensures
        st.is_null_spec() <==> style_view(st) == null_view(),
{
}

impl AnsiDecoder {
    /// The styled text that `ansi_text` shows: its SGR sequences, found
    /// with the regex crate, become styles of the text after them.
    pub fn decode(ansi_text: &str) -> (t: Text)
        ensures
            text_view(t) == pieces_text(decoded_pieces(ansi_text@)),
            t.style == crate::style::empty_style(),
    {
        let cs = chars_of(ansi_text);
        let n = cs.len();
        let mut text = Text::new("");
        proof {
            reveal_strlit("");
            assert(text.plain@ =~= Seq::<char>::empty());
            assert(text_view(text).0 =~= pieces_text(Seq::empty()).0);
            assert(text_view(text).1 =~= pieces_text(Seq::empty()).1);
        }
        let mut style = Style::new();
        proof {
            reveal_strlit("\\x1b\\[([\\d;]*)m");
        }
        match regex_find_ranges("\\x1b\\[([\\d;]*)m", ansi_text) {
            None => {
                if n > 0 {
                    let piece = slice_chars(&cs, 0, n);
                    text.append_styled(piece.as_str(), style.clone());
                    proof {
                        lemma_null_view(style);
                        let p = (cs@.subrange(0, n as int), null_view());
                        assert(cs@.subrange(0, n as int) =~= cs@);
                        assert(seq![p].drop_last() =~= Seq::<(Seq<char>, StyleView)>::empty());
                        assert(text_view(text).0 =~= pieces_text(seq![p]).0);
                        assert(text_view(text).1 =~= pieces_text(seq![p]).1);
                    }
                }
                text
            },
            Some(ranges) => {
                let ghost ms = ranges@;
                let mut ci: usize = 0;
                let mut cb: usize = 0;
                let mut k: usize = 0;
                let ghost mut done: Seq<(Seq<char>, StyleView)> = Seq::empty();
                assert(cs@.take(0) =~= Seq::<char>::empty());
                assert(utf8_len(Seq::<char>::empty()) == 0);
                assert(done + match_pieces(cs@, ms, 0, 0, style_view(style)) =~= match_pieces(cs@, ms, 0, 0, null_view()));
                while k < ranges.len()
                    invariant
                        ranges@ == ms,
                        ms == regex_matches(sgr_pattern(), ansi_text@),
                        match_ranges_ok(cs@, ms),
                        cs@ == ansi_text@,
                        n == cs@.len(),
                        k <= ms.len(),
                        ci <= n,
                        cb == utf8_len(cs@.take(ci as int)),
                        k == 0 ==> cb == 0 && ci == 0,
                        k > 0 ==> cb == ms[k - 1].1,
                        text.style == crate::style::empty_style(),
                        text_view(text) == pieces_text(done),
                        done + match_pieces(cs@, ms, k as nat, ci as nat, style_view(style)) == match_pieces(
                            cs@,
                            ms,
                            0,
                            0,
                            null_view(),
                        ),
                    decreases ms.len() - k,
                {
                    let (s, e) = ranges[k];
                    assert(ms[k as int].0 <= ms[k as int].1);
                    if k > 0 {
                        assert(ms[k - 1].1 <= ms[k as int].0);
                    }
                    let (si, sb) = advance_to_byte(&cs, ci, cb, s);
                    let (ei, eb) = advance_to_byte(&cs, si, sb, e);
                    let ghost st = style_view(style);
                    let ghost d0 = done;
                    if si > ci {
                        let piece = slice_chars(&cs, ci, si);
                        text.append_styled(piece.as_str(), style.clone());
                        proof {
                            lemma_null_view(style);
                            let p = (cs@.subrange(ci as int, si as int), st);
                            assert(done.push(p).drop_last() =~= done);
                            assert(text_view(text).0 =~= pieces_text(done.push(p)).0);
                            assert(text_view(text).1 =~= pieces_text(done.push(p)).1);
                            done = done.push(p);
                        }
                    }
                    let params = if ei >= 3 && ei - 3 >= si {
                        slice_chars(&cs, si + 2, ei - 1)
                    } else {
                        String::new()
                    };
                    proof {
                        assert(params@ =~= match_params(cs@, si as nat, ei as nat));
                    }
                    style = apply_sgr(&style, params.as_str());
                    proof {
                        let head = if si > ci {
                            seq![(cs@.subrange(ci as int, si as int), st)]
                        } else {
                            seq![]
                        };
                        assert(done == d0 + head);
                        assert(match_pieces(cs@, ms, k as nat, ci as nat, st) == head + match_pieces(
                            cs@,
                            ms,
                            (k + 1) as nat,
                            ei as nat,
                            style_view(style),
                        ));
                        assert(d0 + (head + match_pieces(cs@, ms, (k + 1) as nat, ei as nat, style_view(style)))
                            =~= done + match_pieces(cs@, ms, (k + 1) as nat, ei as nat, style_view(style)));
                    }
                    ci = ei;
                    cb = eb;
                    k = k + 1;
                }
                let ghost st = style_view(style);
                if ci < n {
                    let piece = slice_chars(&cs, ci, n);
                    text.append_styled(piece.as_str(), style.clone());
                    proof {
                        lemma_null_view(style);
                        let p = (cs@.subrange(ci as int, n as int), st);
                        assert(match_pieces(cs@, ms, k as nat, ci as nat, st) == seq![p]);
                        assert(done.push(p).drop_last() =~= done);
                        assert(text_view(text).0 =~= pieces_text(done.push(p)).0);
                        assert(text_view(text).1 =~= pieces_text(done.push(p)).1);
                        assert(done + seq![p] =~= done.push(p));
                    }
                } else {
                    proof {
                        assert(match_pieces(cs@, ms, k as nat, ci as nat, st) =~= Seq::<(Seq<char>, StyleView)>::empty());
                        assert(done + Seq::<(Seq<char>, StyleView)>::empty() =~= done);
                    }
                }
                text
            },
        }
    }
}

} // verus!
