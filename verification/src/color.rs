//! Terminal colors: the default color, the 16 standard ANSI colors, the
//! 256-color palette and 24-bit RGB, with parsing from names and hex codes,
//! SGR code generation and downgrading to a smaller color system.

use vstd::prelude::*;
use crate::strutil::{
    push_char, push_decimal, push_str, decimal_chars, owned, str_eq, substring, to_lowercase,
    unicode_lowercase, utf8_len, utf8_len_is, is_byte_boundary, byte_boundary, all_ascii,
    is_all_ascii, starts_with,
};
use crate::color_names::{
    lookup_entry,
    table_lookup, ansi_names, css_names, ansi_name_table, css_name_table, lookup_in,
};

verus! {

/// An RGB color triplet.
#[derive(Debug, Clone, Copy, PartialEq, Eq, Hash, Default)]
pub struct ColorTriplet {
    pub red: u8,
    pub green: u8,
    pub blue: u8,
}

/// The two lowercase hex digits of `b`.
pub open spec fn hex_digit_char(d: int) -> char {
    if d < 10 {
        (48 + d) as char
    } else {
        (87 + d) as char
    }
}

/// `b` as two lowercase hexadecimal digits.
pub open spec fn hex2(b: u8) -> Seq<char> {
    seq![hex_digit_char(b as int / 16), hex_digit_char(b as int % 16)]
}

/// Appends `b` as two lowercase hexadecimal digits.
fn push_hex2(s: &mut String, b: u8)
    ensures
        final(s)@ == old(s)@ + hex2(b),
{
    let hi = b / 16;
    let lo = b % 16;
    let c1: char = if hi < 10 { (48u8 + hi) as char } else { (87u8 + hi) as char };
    let c2: char = if lo < 10 { (48u8 + lo) as char } else { (87u8 + lo) as char };
    push_char(s, c1);
    push_char(s, c2);
    assert(final(s)@ =~= old(s)@ + hex2(b));
}

/// `#rrggbb` in lowercase hexadecimal.
pub open spec fn hex_color_chars(r: u8, g: u8, b: u8) -> Seq<char> {
    seq!['#'] + hex2(r) + hex2(g) + hex2(b)
}

/// `#rrggbb` in lowercase hexadecimal, as a string.
fn hex_color_string(r: u8, g: u8, b: u8) -> (s: String)
    ensures
        s@ == hex_color_chars(r, g, b),
{
    let mut s = String::new();
    push_char(&mut s, '#');
    push_hex2(&mut s, r);
    push_hex2(&mut s, g);
    push_hex2(&mut s, b);
    assert(s@ =~= hex_color_chars(r, g, b));
    s
}

impl ColorTriplet {
    /// A triplet from its three components.
    pub fn new(red: u8, green: u8, blue: u8) -> (t: Self)
        ensures
            t == (ColorTriplet { red, green, blue }),
    {
        ColorTriplet { red, green, blue }
    }

    /// `#rrggbb` in lowercase hexadecimal.
    pub fn to_string(&self) -> (s: String)
        ensures
            s@ == hex_color_chars(self.red, self.green, self.blue),
    {
        hex_color_string(self.red, self.green, self.blue)
    }
}

/// The color system a terminal supports.
#[derive(Debug, Clone, Copy, PartialEq, Eq, PartialOrd, Ord, Hash)]
pub enum ColorSystem {
    /// 16 ANSI colors.
    Standard,
    /// The 256-color palette.
    EightBit,
    /// 24-bit color.
    TrueColor,
}

impl ColorSystem {
    /// `standard`, `256` or `truecolor`.
    pub fn to_string(&self) -> (s: String)
        ensures
            s@ == match self {
                ColorSystem::Standard => "standard"@,
                ColorSystem::EightBit => "256"@,
                ColorSystem::TrueColor => "truecolor"@,
            },
    {
        match self {
            ColorSystem::Standard => owned("standard"),
            ColorSystem::EightBit => owned("256"),
            ColorSystem::TrueColor => owned("truecolor"),
        }
    }
}

/// How a color value is stored.
#[derive(Debug, Clone, Copy, PartialEq, Eq, Hash)]
pub enum ColorType {
    /// No color: inherit.
    Default,
    /// One of the 16 standard colors.
    Standard,
    /// A 256-color palette entry.
    EightBit,
    /// A 24-bit RGB color.
    TrueColor,
}

/// The value a color denotes.
#[derive(Debug, Clone, Copy, PartialEq, Eq)]
pub enum ColorValue {
    /// Inherit the surrounding color.
    Default,
    /// Standard color 0–15.
    Standard(u8),
    /// Palette entry 0–255.
    EightBit(u8),
    /// An RGB triple.
    TrueColor(u8, u8, u8),
}

/// A terminal color.
#[derive(Debug, Clone, Copy, PartialEq, Eq, Hash)]
pub struct Color {
    pub(crate) color_type: ColorType,
    pub(crate) number: Option<u8>,
    pub(crate) triplet: Option<(u8, u8, u8)>,
    pub(crate) name: Option<&'static str>,
}

impl View for Color {
    type V = ColorValue;

    closed spec fn view(&self) -> ColorValue {
        match self.color_type {
            ColorType::Default => ColorValue::Default,
            ColorType::Standard => ColorValue::Standard(self.number.unwrap()),
            ColorType::EightBit => ColorValue::EightBit(self.number.unwrap()),
            ColorType::TrueColor => ColorValue::TrueColor(
                self.triplet.unwrap().0,
                self.triplet.unwrap().1,
                self.triplet.unwrap().2,
            ),
        }
    }
}

/// The storage kind of a color value.
pub open spec fn value_type(v: ColorValue) -> ColorType {
    match v {
        ColorValue::Default => ColorType::Default,
        ColorValue::Standard(_) => ColorType::Standard,
        ColorValue::EightBit(_) => ColorType::EightBit,
        ColorValue::TrueColor(_, _, _) => ColorType::TrueColor,
    }
}

/// The palette number of a color value, if it has one.
pub open spec fn value_number(v: ColorValue) -> Option<u8> {
    match v {
        ColorValue::Standard(n) => Some(n),
        ColorValue::EightBit(n) => Some(n),
        _ => None,
    }
}

/// The RGB triple of a color value: its own for a 24-bit color, the
/// palette's for a standard or 8-bit one, none for the default.
pub open spec fn rgb_of(v: ColorValue) -> Option<(u8, u8, u8)> {
    match v {
        ColorValue::TrueColor(r, g, b) => Some((r, g, b)),
        ColorValue::Standard(n) => Some(eight_bit_rgb(n)),
        ColorValue::EightBit(n) => Some(eight_bit_rgb(n)),
        ColorValue::Default => None,
    }
}

/// The color value a palette index names: standard below 16, else 8-bit.
pub open spec fn named_value(n: u8) -> ColorValue {
    if n < 16 {
        ColorValue::Standard(n)
    } else {
        ColorValue::EightBit(n)
    }
}

/// The RGB values of the 16 standard colors.
pub open spec fn standard_rgb(i: int) -> (u8, u8, u8) {
    if i == 0 {
        (0, 0, 0)
    } else if i == 1 {
        (128, 0, 0)
    } else if i == 2 {
        (0, 128, 0)
    } else if i == 3 {
        (128, 128, 0)
    } else if i == 4 {
        (0, 0, 128)
    } else if i == 5 {
        (128, 0, 128)
    } else if i == 6 {
        (0, 128, 128)
    } else if i == 7 {
        (192, 192, 192)
    } else if i == 8 {
        (128, 128, 128)
    } else if i == 9 {
        (255, 0, 0)
    } else if i == 10 {
        (0, 255, 0)
    } else if i == 11 {
        (255, 255, 0)
    } else if i == 12 {
        (0, 0, 255)
    } else if i == 13 {
        (255, 0, 255)
    } else if i == 14 {
        (0, 255, 255)
    } else {
        (255, 255, 255)
    }
}

/// The RGB value of the standard color `i` (0–15).
pub fn standard_palette_rgb(i: u8) -> (t: (u8, u8, u8))
    requires
        i < 16,
    ensures
        t == standard_rgb(i as int),
{
    if i == 0 {
        (0, 0, 0)
    } else if i == 1 {
        (128, 0, 0)
    } else if i == 2 {
        (0, 128, 0)
    } else if i == 3 {
        (128, 128, 0)
    } else if i == 4 {
        (0, 0, 128)
    } else if i == 5 {
        (128, 0, 128)
    } else if i == 6 {
        (0, 128, 128)
    } else if i == 7 {
        (192, 192, 192)
    } else if i == 8 {
        (128, 128, 128)
    } else if i == 9 {
        (255, 0, 0)
    } else if i == 10 {
        (0, 255, 0)
    } else if i == 11 {
        (255, 255, 0)
    } else if i == 12 {
        (0, 0, 255)
    } else if i == 13 {
        (255, 0, 255)
    } else if i == 14 {
        (0, 255, 255)
    } else {
        (255, 255, 255)
    }
}

/// The name of standard color `i` (0–15).
pub fn standard_color_name(i: u8) -> (s: &'static str)
    requires
        i < 16,
    ensures
        s@ == standard_name(i as int),
{
    if i == 0 {
        "black"
    } else if i == 1 {
        "red"
    } else if i == 2 {
        "green"
    } else if i == 3 {
        "yellow"
    } else if i == 4 {
        "blue"
    } else if i == 5 {
        "magenta"
    } else if i == 6 {
        "cyan"
    } else if i == 7 {
        "white"
    } else if i == 8 {
        "bright_black"
    } else if i == 9 {
        "bright_red"
    } else if i == 10 {
        "bright_green"
    } else if i == 11 {
        "bright_yellow"
    } else if i == 12 {
        "bright_blue"
    } else if i == 13 {
        "bright_magenta"
    } else if i == 14 {
        "bright_cyan"
    } else {
        "bright_white"
    }
}

/// The names of the 16 standard colors, in palette order.
pub open spec fn standard_name(i: int) -> Seq<char> {
    if i == 0 {
        "black"@
    } else if i == 1 {
        "red"@
    } else if i == 2 {
        "green"@
    } else if i == 3 {
        "yellow"@
    } else if i == 4 {
        "blue"@
    } else if i == 5 {
        "magenta"@
    } else if i == 6 {
        "cyan"@
    } else if i == 7 {
        "white"@
    } else if i == 8 {
        "bright_black"@
    } else if i == 9 {
        "bright_red"@
    } else if i == 10 {
        "bright_green"@
    } else if i == 11 {
        "bright_yellow"@
    } else if i == 12 {
        "bright_blue"@
    } else if i == 13 {
        "bright_magenta"@
    } else if i == 14 {
        "bright_cyan"@
    } else {
        "bright_white"@
    }
}

/// The intensity of level `x` (0–5) of the 6×6×6 color cube.
pub open spec fn cube_level(x: int) -> u8 {
    if x == 0 {
        0
    } else {
        (55 + 40 * x) as u8
    }
}

/// The RGB value of palette entry `n`: the 16 standard colors, the 6×6×6
/// cube for 16–231 and a 24-step grey ramp for 232–255.
pub open spec fn eight_bit_rgb(n: u8) -> (u8, u8, u8) {
    if n < 16 {
        standard_rgb(n as int)
    } else if n < 232 {
        let i = n - 16;
        (cube_level(i / 36), cube_level((i / 6) % 6), cube_level(i % 6))
    } else {
        let v = ((n - 232) * 10 + 8) as u8;
        (v, v, v)
    }
}

/// The RGB value of palette entry `n`.
pub fn eight_bit_palette_rgb(n: u8) -> (t: (u8, u8, u8))
    ensures
        t == eight_bit_rgb(n),
{
    if n < 16 {
        standard_palette_rgb(n)
    } else if n < 232 {
        let i = n - 16;
        let r = i / 36;
        let g = (i / 6) % 6;
        let b = i % 6;
        let rl: u8 = if r == 0 { 0 } else { 55 + 40 * r };
        let gl: u8 = if g == 0 { 0 } else { 55 + 40 * g };
        let bl: u8 = if b == 0 { 0 } else { 55 + 40 * b };
        (rl, gl, bl)
    } else {
        let v: u8 = (n - 232) * 10 + 8;
        (v, v, v)
    }
}

/// The nearest cube level (0–5) to intensity `x`: `x · 5 / 255` rounded.
pub open spec fn cube_index(x: u8) -> int {
    (2 * x + 51) / 102
}

/// The palette index chosen for an RGB color: a grey-ramp entry (or the
/// cube's black and white corners, for greys below 8 and from 248 on, past
/// the ramp's last entry) when the three components are equal,
/// otherwise the nearest cube entry.
pub open spec fn rgb_to_8bit_spec(r: u8, g: u8, b: u8) -> u8 {
    if r == g && g == b {
        if r < 8 {
            16
        } else if r >= 248 {
            231
        } else {
            (232 + (r - 8) / 10) as u8
        }
    } else {
        (16 + 36 * cube_index(r) + 6 * cube_index(g) + cube_index(b)) as u8
    }
}

/// The nearest 256-color palette index for an RGB color.
pub fn rgb_to_8bit(r: u8, g: u8, b: u8) -> (n: u8)
    ensures
        n == rgb_to_8bit_spec(r, g, b),
{
    if r == g && g == b {
        if r < 8 {
            return 16;
        }
        if r >= 248 {
            return 231;
        }
        return 232 + (r - 8) / 10;
    }
    let r6: u8 = ((2 * (r as u32) + 51) / 102) as u8;
    let g6: u8 = ((2 * (g as u32) + 51) / 102) as u8;
    let b6: u8 = ((2 * (b as u32) + 51) / 102) as u8;
    16 + 36 * r6 + 6 * g6 + b6
}

/// The squared distance from `(r, g, b)` to standard color `i`.
pub open spec fn standard_dist(r: u8, g: u8, b: u8, i: int) -> int {
    let p = standard_rgb(i);
    (r - p.0) * (r - p.0) + (g - p.1) * (g - p.1) + (b - p.2) * (b - p.2)
}

/// The first index among `0..k` of a standard color nearest to `(r, g, b)`.
pub open spec fn nearest_standard_upto(r: u8, g: u8, b: u8, k: nat) -> nat
    decreases k,
{
    if k <= 1 {
        0
    } else {
        let best = nearest_standard_upto(r, g, b, (k - 1) as nat);
        if standard_dist(r, g, b, k - 1) < standard_dist(r, g, b, best as int) {
            (k - 1) as nat
        } else {
            best
        }
    }
}

/// The index `nearest_standard_upto` picks among the first `k` colors is
/// one of them, no farther than any of them, and strictly nearer than every
/// one before it.
proof fn lemma_nearest_upto(r: u8, g: u8, b: u8, k: nat)
    requires
        k >= 1,
    ensures
        nearest_standard_upto(r, g, b, k) < k,
        forall|j: int| 0 <= j < k ==> standard_dist(r, g, b, nearest_standard_upto(r, g, b, k) as int) <= #[trigger] standard_dist(r, g, b, j),
        forall|j: int| 0 <= j < nearest_standard_upto(r, g, b, k) ==> #[trigger] standard_dist(r, g, b, j) > standard_dist(r, g, b, nearest_standard_upto(r, g, b, k) as int),
    decreases k,
{
    if k > 1 {
        lemma_nearest_upto(r, g, b, (k - 1) as nat);
    }
}

/// `rgb_to_standard` picks the nearest standard color: none is nearer, and
/// every color before it is farther (the first on ties).
pub proof fn lemma_rgb_to_standard_nearest(r: u8, g: u8, b: u8)
    ensures
        nearest_standard_upto(r, g, b, 16) < 16,
        forall|j: int| 0 <= j < 16 ==> standard_dist(r, g, b, nearest_standard_upto(r, g, b, 16) as int) <= #[trigger] standard_dist(r, g, b, j),
        forall|j: int| 0 <= j < nearest_standard_upto(r, g, b, 16) ==> #[trigger] standard_dist(r, g, b, j) > standard_dist(r, g, b, nearest_standard_upto(r, g, b, 16) as int),
{
    lemma_nearest_upto(r, g, b, 16);
}

/// The first standard color nearest to an RGB color by Euclidean distance.
pub fn rgb_to_standard(r: u8, g: u8, b: u8) -> (n: u8)
    ensures
        n < 16,
        n == nearest_standard_upto(r, g, b, 16),
{
    let mut best_idx: u8 = 0;
    let mut best_dist: u32 = u32::MAX;
    let mut i: u8 = 0;
    while i < 16
        invariant
            i <= 16,
            i == 0 ==> best_dist == u32::MAX && best_idx == 0,
            i > 0 ==> best_idx == nearest_standard_upto(r, g, b, i as nat),
            i > 0 ==> best_dist == standard_dist(r, g, b, best_idx as int),
            best_idx < 16,
        decreases 16 - i,
    {
        let p = standard_palette_rgb(i);
        let dr: i32 = r as i32 - p.0 as i32;
        let dg: i32 = g as i32 - p.1 as i32;
        let db: i32 = b as i32 - p.2 as i32;
        assert(0 <= dr * dr <= 65025) by (nonlinear_arith)
            requires -255 <= dr <= 255;
        assert(0 <= dg * dg <= 65025) by (nonlinear_arith)
            requires -255 <= dg <= 255;
        assert(0 <= db * db <= 65025) by (nonlinear_arith)
            requires -255 <= db <= 255;
        let dist: u32 = (dr * dr + dg * dg + db * db) as u32;
        if dist < best_dist {
            best_dist = dist;
            best_idx = i;
        }
        i = i + 1;
    }
    best_idx
}

/// The value of a hex digit, if `c` is one.
pub open spec fn hex_value(c: char) -> Option<int> {
    if '0' <= c && c <= '9' {
        Some(c as int - 48)
    } else if 'a' <= c && c <= 'f' {
        Some(c as int - 87)
    } else if 'A' <= c && c <= 'F' {
        Some(c as int - 55)
    } else {
        None
    }
}

/// A two-character base-16 number as `u8::from_str_radix` reads it: two hex
/// digits, or `+` followed by one hex digit.
pub open spec fn hex_pair(a: char, b: char) -> Option<u8> {
    if a == '+' {
        match hex_value(b) {
            Some(v) => Some(v as u8),
            None => None,
        }
    } else {
        match (hex_value(a), hex_value(b)) {
            (Some(x), Some(y)) => Some((16 * x + y) as u8),
            _ => None,
        }
    }
}

/// The RGB triple denoted by six hex characters, if they are valid.
pub open spec fn hex_rgb(t: Seq<char>) -> Option<(u8, u8, u8)> {
    if t.len() == 6 {
        match (hex_pair(t[0], t[1]), hex_pair(t[2], t[3]), hex_pair(t[4], t[5])) {
            (Some(r), Some(g), Some(b)) => Some((r, g, b)),
            _ => None,
        }
    } else {
        None
    }
}

/// `s` without its leading `c` characters.
pub open spec fn drop_leading(s: Seq<char>, c: char) -> Seq<char>
    decreases s.len(),
{
    if s.len() > 0 && s[0] == c {
        drop_leading(s.drop_first(), c)
    } else {
        s
    }
}

/// Whether cutting the six-byte text `t` at bytes 2 and 4 splits no
/// character (reading a non-ASCII text of six bytes otherwise fails).
pub open spec fn hex_cut_ok(t: Seq<char>) -> bool {
    !(utf8_len(t) == 6 && !all_ascii(t)) || (is_byte_boundary(t, 2) && is_byte_boundary(t, 4))
}

/// The value of one hex digit.
fn hex_digit_value(c: char) -> (r: Option<u8>)
    ensures
        match r {
            Some(v) => hex_value(c) == Some(v as int),
            None => hex_value(c) is None,
        },
{
    if '0' <= c && c <= '9' {
        Some((c as u32 - 48) as u8)
    } else if 'a' <= c && c <= 'f' {
        Some((c as u32 - 87) as u8)
    } else if 'A' <= c && c <= 'F' {
        Some((c as u32 - 55) as u8)
    } else {
        None
    }
}

/// Reads a two-character base-16 number.
fn read_hex_pair(a: char, b: char) -> (r: Option<u8>)
    ensures
        r == hex_pair(a, b),
{
    if a == '+' {
        hex_digit_value(b)
    } else {
        match (hex_digit_value(a), hex_digit_value(b)) {
            (Some(x), Some(y)) => Some(16 * x + y),
            _ => None,
        }
    }
}

/// The digits of a decimal number with an optional leading `+`.
pub open spec fn unsigned_digits(t: Seq<char>) -> Seq<char> {
    if t.len() > 0 && t[0] == '+' {
        t.drop_first()
    } else {
        t
    }
}

/// Whether every character of `d` is an ASCII digit.
pub open spec fn all_digits(d: Seq<char>) -> bool {
    forall|i: int| 0 <= i < d.len() ==> '0' <= #[trigger] d[i] && d[i] <= '9'
}

/// The value of a string of decimal digits.
pub open spec fn digits_value(d: Seq<char>) -> nat
    decreases d.len(),
{
    if d.len() == 0 {
        0
    } else {
        digits_value(d.drop_last()) * 10 + (d.last() as nat - 48) as nat
    }
}

/// A decimal `u8` as `str::parse::<u8>` reads it: an optional `+` and at
/// least one digit, with a value of at most 255.
pub open spec fn parse_u8_spec(t: Seq<char>) -> Option<u8> {
    let d = unsigned_digits(t);
    if d.len() > 0 && all_digits(d) && digits_value(d) <= 255 {
        Some(digits_value(d) as u8)
    } else {
        None
    }
}

/// Reads a decimal `u8`.
pub fn parse_u8(t: &str) -> (r: Option<u8>)
    ensures
        r == parse_u8_spec(t@),
{
    let n = t.unicode_len();
    let start: usize = if n > 0 && t.get_char(0) == '+' { 1 } else { 0 };
    let ghost d = unsigned_digits(t@);
    assert(d =~= t@.skip(start as int));
    if start == n {
        return None;
    }
    let mut acc: u32 = 0;
    let mut i: usize = start;
    while i < n
        invariant
            n == t@.len(),
            start <= i <= n,
            d == t@.skip(start as int),
            d == unsigned_digits(t@),
            all_digits(t@.subrange(start as int, i as int)),
            acc == if digits_value(t@.subrange(start as int, i as int)) > 256 {
                256
            } else {
                digits_value(t@.subrange(start as int, i as int))
            },
        decreases n - i,
    {
        let c = t.get_char(i);
        if !('0' <= c && c <= '9') {
            assert(!all_digits(d)) by {
                assert(d[i - start] == c);
            }
            return None;
        }
        let ghost pre = t@.subrange(start as int, i as int);
        let ghost post = t@.subrange(start as int, i + 1);
        assert(post.drop_last() =~= pre);
        let v: u32 = c as u32 - 48;
        let next: u32 = acc * 10 + v;
        acc = if next > 256 { 256 } else { next };
        i = i + 1;
    }
    assert(t@.subrange(start as int, n as int) =~= d);
    if acc > 255 {
        None
    } else {
        Some(acc as u8)
    }
}

/// Errors from parsing a color.
#[derive(Debug, Clone)]
pub enum ColorParseError {
    /// The name is not a known color.
    UnknownName(String),
    /// The text is not a six-digit hex color.
    InvalidHex(String),
}

impl ColorParseError {
    /// Whether this is `InvalidHex`, and the text it carries.
    pub open spec fn describe(&self) -> (bool, Seq<char>) {
        match self {
            ColorParseError::UnknownName(s) => (false, s@),
            ColorParseError::InvalidHex(s) => (true, s@),
        }
    }

    /// `unknown color name: <text>` or `invalid hex color: <text>`.
    pub fn to_string(&self) -> (s: String)
        ensures
            s@ == match self {
                ColorParseError::UnknownName(n) => "unknown color name: "@ + n@,
                ColorParseError::InvalidHex(h) => "invalid hex color: "@ + h@,
            },
    {
        match self {
            ColorParseError::UnknownName(n) => {
                let mut s = owned("unknown color name: ");
                push_str(&mut s, n.as_str());
                s
            },
            ColorParseError::InvalidHex(h) => {
                let mut s = owned("invalid hex color: ");
                push_str(&mut s, h.as_str());
                s
            },
        }
    }
}

/// The default foreground and background of a terminal.
#[derive(Debug, Clone, Copy)]
pub struct TerminalTheme {
    pub foreground_color: (u8, u8, u8),
    pub background_color: (u8, u8, u8),
}

impl Default for TerminalTheme {
    fn default() -> (t: Self)
        ensures
            t.foreground_color == (255u8, 255u8, 255u8),
            t.background_color == (0u8, 0u8, 0u8),
    {
        TerminalTheme { foreground_color: (255, 255, 255), background_color: (0, 0, 0) }
    }
}

/// The RGB value a color takes against `theme`: its own triple, the
/// palette entry of its number, or the theme foreground for the default.
pub open spec fn truecolor_of(v: ColorValue, theme: TerminalTheme) -> (u8, u8, u8) {
    match v {
        ColorValue::TrueColor(r, g, b) => (r, g, b),
        ColorValue::Default => theme.foreground_color,
        ColorValue::Standard(n) => eight_bit_rgb(n),
        ColorValue::EightBit(n) => eight_bit_rgb(n),
    }
}

/// The color a value becomes in a smaller color system.
pub open spec fn downgrade_value(v: ColorValue, system: ColorSystem) -> ColorValue {
    match system {
        ColorSystem::TrueColor => v,
        ColorSystem::EightBit => match v {
            ColorValue::TrueColor(r, g, b) => ColorValue::EightBit(rgb_to_8bit_spec(r, g, b)),
            _ => v,
        },
        ColorSystem::Standard => match v {
            ColorValue::TrueColor(r, g, b) => ColorValue::Standard(
                nearest_standard_upto(r, g, b, 16) as u8,
            ),
            ColorValue::EightBit(n) => ColorValue::Standard(n % 16),
            _ => v,
        },
    }
}

/// The SGR parameter text that selects a color, if it is not the default.
pub open spec fn ansi_code(v: ColorValue, background: bool) -> Option<Seq<char>> {
    match v {
        ColorValue::Default => None,
        ColorValue::Standard(n) => Some(
            decimal_chars(
                ((if background { 40int } else { 30int }) + (if n >= 8 { 90int - 30int + n - 8 } else { n as int })) as nat,
            ),
        ),
        ColorValue::EightBit(n) => Some(
            (if background { seq!['4', '8'] } else { seq!['3', '8'] }) + seq![';', '5', ';']
                + decimal_chars(n as nat),
        ),
        ColorValue::TrueColor(r, g, b) => Some(
            (if background { seq!['4', '8'] } else { seq!['3', '8'] }) + seq![';', '2', ';']
                + decimal_chars(r as nat) + seq![';'] + decimal_chars(g as nat) + seq![';']
                + decimal_chars(b as nat),
        ),
    }
}

/// The color a lowercase name denotes: `default` or nothing, a palette
/// name, a CSS name, a hex color (text starting with `#` or of six bytes),
/// or `color<N>` for palette entry `N`.
pub open spec fn parse_value(l: Seq<char>) -> Option<ColorValue> {
    if l.len() == 0 || l == "default"@ {
        Some(ColorValue::Default)
    } else if table_lookup(ansi_names(), l) is Some {
        Some(named_value(table_lookup(ansi_names(), l).unwrap()))
    } else if table_lookup(css_names(), l) is Some {
        let t = table_lookup(css_names(), l).unwrap();
        Some(ColorValue::TrueColor(t.0, t.1, t.2))
    } else if is_hex_form(l) {
        match hex_rgb(drop_leading(l, '#')) {
            Some(t) => Some(ColorValue::TrueColor(t.0, t.1, t.2)),
            None => None,
        }
    } else if l.len() >= 5 && l.take(5) == seq!['c', 'o', 'l', 'o', 'r'] && parse_u8_spec(l.skip(5))
        is Some {
        Some(ColorValue::EightBit(parse_u8_spec(l.skip(5)).unwrap()))
    } else {
        None
    }
}

/// Whether the name `parse` keeps on `c`, read from the lowercase text `l`,
/// is right: the text itself for a palette name, none otherwise.
pub open spec fn parse_label_ok(l: Seq<char>, c: Color) -> bool {
    if l.len() > 0 && l != "default"@ && table_lookup(ansi_names(), l) is Some {
        c.label() matches Some(x) && x@ == l
    } else {
        c.label() is None
    }
}

/// Whether downgrading `v` for `system` makes a new color (which carries no
/// name) rather than keeping the color as it is.
pub open spec fn downgrade_converts(v: ColorValue, system: ColorSystem) -> bool {
    match system {
        ColorSystem::TrueColor => false,
        ColorSystem::EightBit => v is TrueColor,
        ColorSystem::Standard => v is TrueColor || v is EightBit,
    }
}

/// Whether a lowercase name that is neither default nor a known name is read
/// as a hex color.
pub open spec fn is_hex_form(l: Seq<char>) -> bool {
    (l.len() > 0 && l[0] == '#') || utf8_len(l) == 6
}

/// The error `parse` reports for a lowercase name that is not a color:
/// whether it is `InvalidHex`, and the text it carries.
pub open spec fn parse_error_of(l: Seq<char>) -> (bool, Seq<char>) {
    if l.len() > 0 && l != "default"@ && table_lookup(ansi_names(), l) is None && table_lookup(
        css_names(),
        l,
    ) is None && is_hex_form(l) {
        (true, drop_leading(l, '#'))
    } else {
        (false, l)
    }
}

/// Whether reading the lowercase name `l` would cut a character apart.
pub open spec fn parse_cut_ok(l: Seq<char>) -> bool {
    !(l.len() > 0 && l != "default"@ && table_lookup(ansi_names(), l) is None && table_lookup(
        css_names(),
        l,
    ) is None && is_hex_form(l)) || hex_cut_ok(drop_leading(l, '#'))
}

/// The position after the leading `#` characters of `s`.
fn leading_hashes(s: &str) -> (k: usize)
    ensures
        k <= s@.len(),
        drop_leading(s@, '#') == s@.skip(k as int),
{
    let n = s.unicode_len();
    let mut k: usize = 0;
    assert(s@.skip(0) =~= s@);
    while k < n && s.get_char(k) == '#'
        invariant
            n == s@.len(),
            k <= n,
            drop_leading(s@, '#') == drop_leading(s@.skip(k as int), '#'),
        decreases n - k,
    {
        assert(s@.skip(k as int).drop_first() =~= s@.skip(k + 1));
        k = k + 1;
    }
    assert(drop_leading(s@.skip(k as int), '#') == s@.skip(k as int));
    k
}

impl Color {
    #[verifier::type_invariant]
    spec fn well_formed(self) -> bool {
        match self.color_type {
            ColorType::Default => self.number is None && self.triplet is None,
            ColorType::Standard => self.number is Some && self.number.unwrap() < 16
                && self.triplet is None,
            ColorType::EightBit => self.number is Some && self.triplet is None,
            ColorType::TrueColor => self.number is None && self.triplet is Some,
        }
    }

    /// The stored name, if any.
    pub closed spec fn label(self) -> Option<&'static str> {
        self.name
    }

    /// The default (inherit) color.
    pub fn default() -> (c: Self)
        ensures
            c@ == ColorValue::Default,
            c.label() is None,
    {
        Color { color_type: ColorType::Default, number: None, triplet: None, name: None }
    }

    fn of_value(n: u8) -> (c: Self)
        ensures
            c@ == named_value(n),
            c.label() is None,
    {
        Color {
            color_type: if n < 16 {
                ColorType::Standard
            } else {
                ColorType::EightBit
            },
            number: Some(n),
            triplet: None,
            name: None,
        }
    }

    /// A color from a palette name (`red`, `bright_blue`, `grey50`, …):
    /// standard for indices below 16, 8-bit otherwise.
    pub fn from_ansi_name(name: &str) -> (r: Option<Self>)
        ensures
            match r {
                Some(c) => table_lookup(ansi_names(), name@) is Some && c@ == named_value(
                    table_lookup(ansi_names(), name@).unwrap(),
                ) && (c.label() matches Some(l) && l@ == name@),
                None => table_lookup(ansi_names(), name@) is None,
            },
    {
        let t = ansi_name_table();
        match lookup_entry(&t, name) {
            Some(e) => {
                let c = Self::of_value(e.1);
                proof {
                    use_type_invariant(&c);
                }
                Some(Color { color_type: c.color_type, number: c.number, triplet: c.triplet, name: Some(e.0) })
            },
            None => None,
        }
    }

    /// A 256-color palette entry.
    pub fn from_8bit(n: u8) -> (c: Self)
        ensures
            c@ == ColorValue::EightBit(n),
            c.label() is None,
    {
        Color { color_type: ColorType::EightBit, number: Some(n), triplet: None, name: None }
    }

    /// A 24-bit color.
    pub fn from_rgb(r: u8, g: u8, b: u8) -> (c: Self)
        ensures
            c@ == ColorValue::TrueColor(r, g, b),
            c.label() is None,
    {
        Color {
            color_type: ColorType::TrueColor,
            number: None,
            triplet: Some((r, g, b)),
            name: None,
        }
    }

    fn from_hex_checked(hex: &str) -> (r: Option<Result<Self, ColorParseError>>)
        ensures
            ({
                let t = drop_leading(hex@, '#');
                match r {
                    None => !hex_cut_ok(t),
                    Some(Ok(c)) => hex_cut_ok(t) && hex_rgb(t) is Some && c@ == ColorValue::TrueColor(
                        hex_rgb(t).unwrap().0,
                        hex_rgb(t).unwrap().1,
                        hex_rgb(t).unwrap().2,
                    ) && c.label() is None,
                    Some(Err(e)) => hex_cut_ok(t) && hex_rgb(t) is None && e.describe() == (
                        true,
                        t,
                    ),
                }
            }),
    {
        let k = leading_hashes(hex);
        let n = hex.unicode_len();
        let t = substring(hex, k, n);
        let ts = t.as_str();
        let ghost tv = drop_leading(hex@, '#');
        assert(ts@ == tv);
        if !utf8_len_is(ts, 6) {
            proof { lemma_hex_needs_six_bytes(tv); }
            return Some(Err(ColorParseError::InvalidHex(t)));
        }
        if !is_all_ascii(ts) {
            let ok = byte_boundary(ts, 2) && byte_boundary(ts, 4);
            if !ok {
                return None;
            }
            proof { lemma_hex_needs_ascii(tv); }
            return Some(Err(ColorParseError::InvalidHex(t)));
        }
        proof { lemma_ascii_six_bytes(tv); }
        let c0 = ts.get_char(0);
        let c1 = ts.get_char(1);
        let c2 = ts.get_char(2);
        let c3 = ts.get_char(3);
        let c4 = ts.get_char(4);
        let c5 = ts.get_char(5);
        match (read_hex_pair(c0, c1), read_hex_pair(c2, c3), read_hex_pair(c4, c5)) {
            (Some(r), Some(g), Some(b)) => Some(Ok(Self::from_rgb(r, g, b))),
            _ => Some(Err(ColorParseError::InvalidHex(t))),
        }
    }

    /// A color from six hex digits, with any leading `#` characters ignored.
    /// Cutting a six-byte non-ASCII text at bytes 2 and 4 must not split a
    /// character.
    pub fn from_hex(hex: &str) -> (r: Result<Self, ColorParseError>)
        requires
            hex_cut_ok(drop_leading(hex@, '#')),
        ensures
            ({
                let t = drop_leading(hex@, '#');
                match r {
                    Ok(c) => hex_rgb(t) is Some && c@ == ColorValue::TrueColor(
                        hex_rgb(t).unwrap().0,
                        hex_rgb(t).unwrap().1,
                        hex_rgb(t).unwrap().2,
                    ),
                    Err(e) => hex_rgb(t) is None && e.describe() == (true, t),
                }
            }),
    {
        match Self::from_hex_checked(hex) {
            Some(r) => r,
            None => Err(ColorParseError::InvalidHex(String::new())),
        }
    }

    #[verifier::rlimit(60)]
    fn parse_checked(s: &str) -> (r: Option<Result<Self, ColorParseError>>)
        ensures
            ({
                let l = unicode_lowercase(s@);
                match r {
                    None => !parse_cut_ok(l),
                    Some(Ok(c)) => parse_cut_ok(l) && parse_value(l) == Some(c@) && parse_label_ok(l, c),
                    Some(Err(e)) => parse_cut_ok(l) && parse_value(l) is None && e.describe()
                        == parse_error_of(l),
                }
            }),
    {
        let lower = to_lowercase(s);
        let ls = lower.as_str();
        let ghost l = unicode_lowercase(s@);
        let n = ls.unicode_len();
        if n == 0 || str_eq(ls, "default") {
            return Some(Ok(Self::default()));
        }
        match Self::from_ansi_name(ls) {
            Some(c) => {
                return Some(Ok(c));
            },
            None => {},
        }
        let css = css_name_table();
        match lookup_in(&css, ls) {
            Some(t) => {
                return Some(Ok(Self::from_rgb(t.0, t.1, t.2)));
            },
            None => {},
        }
        if ls.get_char(0) == '#' || utf8_len_is(ls, 6) {
            return Self::from_hex_checked(ls);
        }
        if starts_with(ls, "color") {
            proof {
                reveal_strlit("color");
                assert("color"@ =~= seq!['c', 'o', 'l', 'o', 'r']);
            }
            let rest = substring(ls, 5, n);
            match parse_u8(rest.as_str()) {
                Some(v) => {
                    return Some(Ok(Self::from_8bit(v)));
                },
                None => {},
            }
        } else {
            proof {
                reveal_strlit("color");
                assert("color"@ =~= seq!['c', 'o', 'l', 'o', 'r']);
            }
        }
        Some(Err(ColorParseError::UnknownName(lower)))
    }

    /// Parses a color from text, compared in lowercase: `default` (or empty),
    /// a palette name, a CSS name, a hex color, or `color<N>`. A hex reading
    /// of six bytes must not split a character at bytes 2 or 4.
    pub fn parse(s: &str) -> (r: Result<Self, ColorParseError>)
        requires
            parse_cut_ok(unicode_lowercase(s@)),
        ensures
            ({
                let l = unicode_lowercase(s@);
                match r {
                    Ok(c) => parse_value(l) == Some(c@) && parse_label_ok(l, c),
                    Err(e) => parse_value(l) is None && e.describe() == parse_error_of(l),
                }
            }),
    {
        match Self::parse_checked(s) {
            Some(r) => r,
            None => Err(ColorParseError::UnknownName(String::new())),
        }
    }

    /// `parse` where its reading cannot cut a character apart; `None` on the
    /// texts where it would.
    pub fn try_parse(s: &str) -> (r: Option<Result<Self, ColorParseError>>)
        ensures
            ({
                let l = unicode_lowercase(s@);
                match r {
                    None => !parse_cut_ok(l),
                    Some(Ok(c)) => parse_cut_ok(l) && parse_value(l) == Some(c@) && parse_label_ok(l, c),
                    Some(Err(e)) => parse_cut_ok(l) && parse_value(l) is None && e.describe()
                        == parse_error_of(l),
                }
            }),
    {
        match Self::parse_checked(s) {
            None => None,
            Some(_) => Some(Self::parse(s)),
        }
    }

    /// Whether this is the default color.
    pub fn is_default(&self) -> (b: bool)
        ensures
            b == (self@ == ColorValue::Default),
    {
        proof { use_type_invariant(self); }
        match self.color_type {
            ColorType::Default => true,
            _ => false,
        }
    }

    /// A 24-bit color from a triplet.
    pub fn from_triplet(triplet: &ColorTriplet) -> (c: Self)
        ensures
            c@ == ColorValue::TrueColor(triplet.red, triplet.green, triplet.blue),
            c.label() is None,
    {
        Self::from_rgb(triplet.red, triplet.green, triplet.blue)
    }

    /// Whether this is a standard or palette color.
    pub fn is_system_defined(&self) -> (b: bool)
        ensures
            b == (value_type(self@) == ColorType::Standard || value_type(self@)
                == ColorType::EightBit),
    {
        proof { use_type_invariant(self); }
        match self.color_type {
            ColorType::Standard | ColorType::EightBit => true,
            _ => false,
        }
    }

    /// The SGR parameters selecting this color as foreground (first) or as
    /// background (second); the other position is `None`, and both are
    /// `None` for the default color.
    pub fn get_ansi_codes(&self, background: bool) -> (r: (Option<String>, Option<String>))
        ensures
            ({
                let code = ansi_code(self@, background);
                if background {
                    r.0 is None && crate::strutil::opt_view(r.1) == code
                } else {
                    crate::strutil::opt_view(r.0) == code && r.1 is None
                }
            }),
    {
        proof { use_type_invariant(self); }
        let code: Option<String> = match self.color_type {
            ColorType::Default => None,
            ColorType::Standard => {
                let n = self.number.unwrap();
                let base: u8 = if background { 40 } else { 30 };
                let code: u8 = if n >= 8 { base + 60 + (n - 8) } else { base + n };
                let mut s = String::new();
                push_decimal(&mut s, code as u64);
                Some(s)
            },
            ColorType::EightBit => {
                let n = self.number.unwrap();
                let mut s = String::new();
                if background {
                    push_char(&mut s, '4');
                    push_char(&mut s, '8');
                } else {
                    push_char(&mut s, '3');
                    push_char(&mut s, '8');
                }
                push_char(&mut s, ';');
                push_char(&mut s, '5');
                push_char(&mut s, ';');
                push_decimal(&mut s, n as u64);
                Some(s)
            },
            ColorType::TrueColor => {
                let (r, g, b) = self.triplet.unwrap();
                let mut s = String::new();
                if background {
                    push_char(&mut s, '4');
                    push_char(&mut s, '8');
                } else {
                    push_char(&mut s, '3');
                    push_char(&mut s, '8');
                }
                push_char(&mut s, ';');
                push_char(&mut s, '2');
                push_char(&mut s, ';');
                push_decimal(&mut s, r as u64);
                push_char(&mut s, ';');
                push_decimal(&mut s, g as u64);
                push_char(&mut s, ';');
                push_decimal(&mut s, b as u64);
                Some(s)
            },
        };
        assert(crate::strutil::opt_view(code) =~~= ansi_code(self@, background));
        if background {
            (None, code)
        } else {
            (code, None)
        }
    }

    /// The stored name, if any.
    pub fn name(&self) -> (r: Option<&'static str>)
        ensures
            r == self.label(),
    {
        self.name
    }

    /// How the color is stored.
    pub fn color_type(&self) -> (r: ColorType)
        ensures
            r == value_type(self@),
    {
        proof { use_type_invariant(self); }
        self.color_type
    }

    /// The palette number of a standard or 8-bit color.
    pub fn number(&self) -> (r: Option<u8>)
        ensures
            r == value_number(self@),
    {
        proof { use_type_invariant(self); }
        self.number
    }

    /// The RGB triple of the color: its own for a 24-bit color, the
    /// palette's for a standard or 8-bit one, none for the default.
    pub fn triplet(&self) -> (r: Option<(u8, u8, u8)>)
        ensures
            r == rgb_of(self@),
    {
        proof { use_type_invariant(self); }
        match self.color_type {
            ColorType::TrueColor => self.triplet,
            ColorType::Default => None,
            _ => Some(eight_bit_palette_rgb(self.number.unwrap())),
        }
    }

    /// The RGB value of this color against `theme`.
    pub fn get_truecolor(&self, theme: &TerminalTheme) -> (t: (u8, u8, u8))
        ensures
            t == truecolor_of(self@, *theme),
    {
        proof { use_type_invariant(self); }
        match self.color_type {
            ColorType::TrueColor => self.triplet.unwrap(),
            ColorType::Default => theme.foreground_color,
            _ => eight_bit_palette_rgb(self.number.unwrap()),
        }
    }

    /// This color as the given color system can show it.
    pub fn downgrade(&self, system: ColorSystem) -> (c: Self)
        ensures
            c@ == downgrade_value(self@, system),
            c.label() == (if downgrade_converts(self@, system) {
                None
            } else {
                self.label()
            }),
    {
        proof { use_type_invariant(self); }
        match system {
            ColorSystem::TrueColor => *self,
            ColorSystem::EightBit => {
                match self.color_type {
                    ColorType::TrueColor => {
                        let (r, g, b) = self.triplet.unwrap();
                        Self::from_8bit(rgb_to_8bit(r, g, b))
                    },
                    _ => *self,
                }
            },
            ColorSystem::Standard => {
                match self.color_type {
                    ColorType::TrueColor => {
                        let (r, g, b) = self.triplet.unwrap();
                        let idx = rgb_to_standard(r, g, b);
                        Color {
                            color_type: ColorType::Standard,
                            number: Some(idx),
                            triplet: None,
                            name: None,
                        }
                    },
                    ColorType::EightBit => {
                        let n = self.number.unwrap();
                        Color { color_type: ColorType::Standard, number: Some(n % 16), triplet: None, name: None }
                    },
                    _ => *self,
                }
            },
        }
    }

    /// The palette index of a palette name.
    pub fn name_to_index(name: &str) -> (r: Option<u8>)
        ensures
            r == table_lookup(ansi_names(), name@),
    {
        let t = ansi_name_table();
        lookup_in(&t, name)
    }

    /// `default`, the standard color's name, `color(N)`, or `#rrggbb`.
    pub fn to_string(&self) -> (s: String)
        ensures
            s@ == color_text(self@),
    {
        proof { use_type_invariant(self); }
        match self.color_type {
            ColorType::Default => owned("default"),
            ColorType::Standard => owned(standard_color_name(self.number.unwrap())),
            ColorType::EightBit => {
                let mut s = String::new();
                push_char(&mut s, 'c');
                push_char(&mut s, 'o');
                push_char(&mut s, 'l');
                push_char(&mut s, 'o');
                push_char(&mut s, 'r');
                push_char(&mut s, '(');
                push_decimal(&mut s, self.number.unwrap() as u64);
                push_char(&mut s, ')');
                assert(s@ =~= seq!['c', 'o', 'l', 'o', 'r', '('] + decimal_chars(
                    self.number.unwrap() as nat,
                ) + seq![')']);
                s
            },
            ColorType::TrueColor => {
                let (r, g, b) = self.triplet.unwrap();
                hex_color_string(r, g, b)
            },
        }
    }
}

/// The text of a color value: `default`, the standard color's name,
/// `color(N)`, or `#rrggbb`.
pub open spec fn color_text(v: ColorValue) -> Seq<char> {
    match v {
        ColorValue::Default => "default"@,
        ColorValue::Standard(n) => standard_name(n as int),
        ColorValue::EightBit(n) => seq!['c', 'o', 'l', 'o', 'r', '('] + decimal_chars(n as nat) + seq![')'],
        ColorValue::TrueColor(r, g, b) => hex_color_chars(r, g, b),
    }
}

/// Whether `level` (0–5) is the nearest of the six evenly spaced levels to
/// intensity `x`: `x · 5 / 255` lies within half a step of it.
pub open spec fn nearest_level(x: u8, level: int) -> bool {
    &&& 0 <= level <= 5
    &&& -255 <= 2 * (5 * x - 255 * level) <= 255
}

proof fn lemma_cube_index_nearest(x: u8)
    ensures
        nearest_level(x, cube_index(x)),
{
    let q = cube_index(x);
    assert(0 <= q <= 5) by (nonlinear_arith)
        requires
            q == (2 * x + 51) / 102,
            0 <= x <= 255,
    ;
    assert(102 * q <= 2 * x + 51 < 102 * q + 102) by (nonlinear_arith)
        requires
            q == (2 * x + 51) / 102,
            0 <= x <= 255,
    ;
}

/// An RGB color whose components are not all equal maps to the 6×6×6 cube
/// entry whose red, green and blue levels are each the level nearest to
/// that component; a grey maps to the grey ramp entry at or just below it,
/// or to the cube's black below 8 and its white from 248 on.
pub proof fn lemma_rgb_to_8bit_nearest(r: u8, g: u8, b: u8)
    ensures
        !(r == g && g == b) ==> {
            let n = rgb_to_8bit_spec(r, g, b);
            &&& 16 <= n < 232
            &&& nearest_level(r, (n - 16) / 36)
            &&& nearest_level(g, ((n - 16) / 6) % 6)
            &&& nearest_level(b, (n - 16) % 6)
        },
        (r == g && g == b) ==> {
            let n = rgb_to_8bit_spec(r, g, b);
            &&& r < 8 ==> n == 16
            &&& r >= 248 ==> n == 231
            &&& 8 <= r < 248 ==> 232 <= n && eight_bit_rgb(n).0 <= r < eight_bit_rgb(n).0 + 10 && eight_bit_rgb(n).0
                == eight_bit_rgb(n).1 && eight_bit_rgb(n).1 == eight_bit_rgb(n).2
        },
{
    if !(r == g && g == b) {
        lemma_cube_index_nearest(r);
        lemma_cube_index_nearest(g);
        lemma_cube_index_nearest(b);
        let a = cube_index(r);
        let c = cube_index(g);
        let d = cube_index(b);
        let i = 36 * a + 6 * c + d;
        assert(0 <= i < 216);
        assert(i / 36 == a && (i / 6) % 6 == c && i % 6 == d) by (nonlinear_arith)
            requires
                i == 36 * a + 6 * c + d,
                0 <= a <= 5,
                0 <= c <= 5,
                0 <= d <= 5,
        ;
        assert(rgb_to_8bit_spec(r, g, b) == (16 + i) as u8);
    } else if 8 <= r < 248 {
        let n = rgb_to_8bit_spec(r, g, b);
        assert(n == 232 + (r - 8) / 10);
        assert(((n - 232) * 10 + 8) <= r < ((n - 232) * 10 + 8) + 10);
    }
}

/// Downgrading is idempotent: a color already downgraded for a system is
/// left as it is (value and name) by downgrading it for that system again.
pub proof fn lemma_downgrade_idempotent(v: ColorValue, system: ColorSystem)
    ensures
        downgrade_value(downgrade_value(v, system), system) == downgrade_value(v, system),
        !downgrade_converts(downgrade_value(v, system), system),
{
}

/// A hex color needs six bytes of text.
proof fn lemma_hex_needs_six_bytes(t: Seq<char>)
    requires
        utf8_len(t) != 6,
    ensures
        hex_rgb(t) is None,
{
    if hex_rgb(t) is Some {
        lemma_hex_chars_ascii(t);
        lemma_ascii_six_bytes(t);
    }
}

/// A hex color is ASCII.
proof fn lemma_hex_needs_ascii(t: Seq<char>)
    requires
        !all_ascii(t),
    ensures
        hex_rgb(t) is None,
{
    if hex_rgb(t) is Some {
        lemma_hex_chars_ascii(t);
    }
}

/// The characters of a valid hex color are ASCII.
proof fn lemma_hex_chars_ascii(t: Seq<char>)
    requires
        hex_rgb(t) is Some,
    ensures
        t.len() == 6,
        all_ascii(t),
{
    assert forall|i: int| 0 <= i < t.len() implies (t[i] as u32) < 0x80 by {
        if i % 2 == 0 {
            assert(t[i] == '+' || hex_value(t[i]) is Some);
        } else {
            assert(hex_value(t[i]) is Some);
        }
    }
}

/// ASCII text has one byte per character.
proof fn lemma_ascii_six_bytes(t: Seq<char>)
    requires
        all_ascii(t),
    ensures
        utf8_len(t) == t.len(),
    decreases t.len(),
{
    if t.len() > 0 {
        assert forall|i: int| 0 <= i < t.drop_last().len() implies (t.drop_last()[i] as u32)
            < 0x80 by {
            assert(t.drop_last()[i] == t[i]);
        }
        lemma_ascii_six_bytes(t.drop_last());
    }
}

/// The color a name reads as, or the default color when it reads as none.
pub open spec fn named_color_spec(name: Seq<char>) -> ColorValue {
    let l = unicode_lowercase(name);
    if parse_cut_ok(l) && parse_value(l) is Some {
        parse_value(l).unwrap()
    } else {
        ColorValue::Default
    }
}

/// The color `name` reads as, or the default color.
pub fn named_color(name: &str) -> (c: Color)
    ensures
        c@ == named_color_spec(name@),
{
    match Color::try_parse(name) {
        Some(Ok(c)) => c,
        _ => Color::default(),
    }
}

} // verus!
