//! Text styles: a foreground and a background color, thirteen attributes
//! (each set on, set off or left unset), and a hyperlink. A style renders as
//! one ANSI SGR escape sequence.

use vstd::prelude::*;
use crate::color::{Color, ColorValue, ansi_code};
use crate::strutil::{push_char, push_str, owned, opt_view, decimal_chars, decimal_string};

verus! {

/// One of the thirteen text attributes.
#[derive(Debug, Clone, Copy, PartialEq, Eq)]
pub enum Attribute {
    Bold,
    Dim,
    Italic,
    Underline,
    Blink,
    Blink2,
    Reverse,
    Conceal,
    Strike,
    Underline2,
    Frame,
    Encircle,
    Overline,
}

/// The attribute settings of a style: `Some(true)` on, `Some(false)` off,
/// `None` unset.
#[derive(Debug, Clone, Copy, PartialEq, Eq, Default)]
pub struct Attributes {
    pub bold: Option<bool>,
    pub dim: Option<bool>,
    pub italic: Option<bool>,
    pub underline: Option<bool>,
    pub blink: Option<bool>,
    pub blink2: Option<bool>,
    pub reverse: Option<bool>,
    pub conceal: Option<bool>,
    pub strike: Option<bool>,
    pub underline2: Option<bool>,
    pub frame: Option<bool>,
    pub encircle: Option<bool>,
    pub overline: Option<bool>,
}

impl Attributes {
    pub const BOLD: Attribute = Attribute::Bold;
    pub const DIM: Attribute = Attribute::Dim;
    pub const ITALIC: Attribute = Attribute::Italic;
    pub const UNDERLINE: Attribute = Attribute::Underline;
    pub const BLINK: Attribute = Attribute::Blink;
    pub const BLINK2: Attribute = Attribute::Blink2;
    pub const REVERSE: Attribute = Attribute::Reverse;
    pub const CONCEAL: Attribute = Attribute::Conceal;
    pub const STRIKE: Attribute = Attribute::Strike;
    pub const UNDERLINE2: Attribute = Attribute::Underline2;
    pub const FRAME: Attribute = Attribute::Frame;
    pub const ENCIRCLE: Attribute = Attribute::Encircle;
    pub const OVERLINE: Attribute = Attribute::Overline;

    /// The setting of attribute `a`.
    pub open spec fn setting(self, a: Attribute) -> Option<bool> {
        match a {
            Attribute::Bold => self.bold,
            Attribute::Dim => self.dim,
            Attribute::Italic => self.italic,
            Attribute::Underline => self.underline,
            Attribute::Blink => self.blink,
            Attribute::Blink2 => self.blink2,
            Attribute::Reverse => self.reverse,
            Attribute::Conceal => self.conceal,
            Attribute::Strike => self.strike,
            Attribute::Underline2 => self.underline2,
            Attribute::Frame => self.frame,
            Attribute::Encircle => self.encircle,
            Attribute::Overline => self.overline,
        }
    }

    /// Whether attribute `a` is on.
    pub fn get(&self, a: Attribute) -> (b: bool)
        ensures
            b == (self.setting(a) == Some(true)),
    {
        let v = match a {
            Attribute::Bold => self.bold,
            Attribute::Dim => self.dim,
            Attribute::Italic => self.italic,
            Attribute::Underline => self.underline,
            Attribute::Blink => self.blink,
            Attribute::Blink2 => self.blink2,
            Attribute::Reverse => self.reverse,
            Attribute::Conceal => self.conceal,
            Attribute::Strike => self.strike,
            Attribute::Underline2 => self.underline2,
            Attribute::Frame => self.frame,
            Attribute::Encircle => self.encircle,
            Attribute::Overline => self.overline,
        };
        match v {
            Some(true) => true,
            _ => false,
        }
    }
}

/// The attributes in the order their SGR codes are written.
pub open spec fn attribute_order() -> Seq<Attribute> {
    seq![Attribute::Bold, Attribute::Dim, Attribute::Italic, Attribute::Underline, Attribute::Blink, Attribute::Blink2, Attribute::Reverse, Attribute::Conceal, Attribute::Strike, Attribute::Underline2, Attribute::Frame, Attribute::Encircle, Attribute::Overline]
}

/// The SGR number of an attribute.
pub open spec fn attribute_number(a: Attribute) -> nat {
    match a {
        Attribute::Bold => 1,
        Attribute::Dim => 2,
        Attribute::Italic => 3,
        Attribute::Underline => 4,
        Attribute::Blink => 5,
        Attribute::Blink2 => 6,
        Attribute::Reverse => 7,
        Attribute::Conceal => 8,
        Attribute::Strike => 9,
        Attribute::Underline2 => 21,
        Attribute::Frame => 51,
        Attribute::Encircle => 52,
        Attribute::Overline => 53,
    }
}

/// The SGR code of an attribute.
pub open spec fn attribute_code(a: Attribute) -> Seq<char> {
    decimal_chars(attribute_number(a))
}

/// A text style.
#[derive(Debug)]
pub struct Style {
    /// The foreground color, if set.
    pub color: Option<Color>,
    /// The background color, if set.
    pub bgcolor: Option<Color>,
    /// The attribute settings.
    pub attributes: Attributes,
    /// A hyperlink target, if set.
    pub link: Option<String>,
}

/// The SGR codes of the attributes in `order` that `a` turns on.
pub open spec fn attr_codes(a: Attributes, order: Seq<Attribute>) -> Seq<Seq<char>>
    decreases order.len(),
{
    if order.len() == 0 {
        seq![]
    } else {
        let rest = attr_codes(a, order.drop_last());
        if a.setting(order.last()) == Some(true) {
            rest.push(attribute_code(order.last()))
        } else {
            rest
        }
    }
}

/// The SGR code of an optional color.
pub open spec fn color_codes(c: Option<ColorValue>, background: bool) -> Seq<Seq<char>> {
    match c {
        Some(v) => match ansi_code(v, background) {
            Some(code) => seq![code],
            None => seq![],
        },
        None => seq![],
    }
}

/// The view of an optional color.
pub open spec fn opt_color(c: Option<Color>) -> Option<ColorValue> {
    match c {
        Some(c) => Some(c@),
        None => None,
    }
}

/// All SGR codes of a style: the attributes that are on, then the
/// foreground color, then the background color.
pub open spec fn sgr_codes(s: Style) -> Seq<Seq<char>> {
    attr_codes(s.attributes, attribute_order()) + color_codes(opt_color(s.color), false) + color_codes(
        opt_color(s.bgcolor),
        true,
    )
}

/// `parts` joined with `;`.
pub open spec fn join_semi(parts: Seq<Seq<char>>) -> Seq<char>
    decreases parts.len(),
{
    if parts.len() == 0 {
        seq![]
    } else if parts.len() == 1 {
        parts[0]
    } else {
        join_semi(parts.drop_last()) + seq![';'] + parts.last()
    }
}

/// The escape sequence that turns a style on: empty when it has no code.
pub open spec fn sgr_of(s: Style) -> Seq<char> {
    let codes = sgr_codes(s);
    if codes.len() == 0 {
        seq![]
    } else {
        seq!['\x1b', '['] + join_semi(codes) + seq!['m']
    }
}

/// The escape sequence that turns every style off.
pub open spec fn reset_seq() -> Seq<char> {
    seq!['\x1b', '[', '0', 'm']
}

/// `text` in style `s`: unchanged when the style has no code, else wrapped
/// in the style's sequence and the reset sequence.
pub open spec fn render_spec(s: Style, text: Seq<char>) -> Seq<char> {
    if sgr_codes(s).len() == 0 {
        text
    } else {
        sgr_of(s) + text + reset_seq()
    }
}

/// `a` with every setting that `b` makes taking precedence.
pub open spec fn combine_attrs(a: Attributes, b: Attributes) -> Attributes {
    Attributes {
        bold: if b.bold is Some { b.bold } else { a.bold },
        dim: if b.dim is Some { b.dim } else { a.dim },
        italic: if b.italic is Some { b.italic } else { a.italic },
        underline: if b.underline is Some { b.underline } else { a.underline },
        blink: if b.blink is Some { b.blink } else { a.blink },
        blink2: if b.blink2 is Some { b.blink2 } else { a.blink2 },
        reverse: if b.reverse is Some { b.reverse } else { a.reverse },
        conceal: if b.conceal is Some { b.conceal } else { a.conceal },
        strike: if b.strike is Some { b.strike } else { a.strike },
        underline2: if b.underline2 is Some { b.underline2 } else { a.underline2 },
        frame: if b.frame is Some { b.frame } else { a.frame },
        encircle: if b.encircle is Some { b.encircle } else { a.encircle },
        overline: if b.overline is Some { b.overline } else { a.overline },
    }
}

/// `a` with everything that `b` sets taking precedence.
pub open spec fn combine_spec(a: Style, b: Style) -> Style {
    Style {
        color: if b.color is Some { b.color } else { a.color },
        bgcolor: if b.bgcolor is Some { b.bgcolor } else { a.bgcolor },
        attributes: combine_attrs(a.attributes, b.attributes),
        link: if b.link is Some { b.link } else { a.link },
    }
}

/// The style that sets nothing.
pub open spec fn empty_style() -> Style {
    Style {
        color: None,
        bgcolor: None,
        attributes: Attributes {
            bold: None,
            dim: None,
            italic: None,
            underline: None,
            blink: None,
            blink2: None,
            reverse: None,
            conceal: None,
            strike: None,
            underline2: None,
            frame: None,
            encircle: None,
            overline: None,
        },
        link: None,
    }
}

/// Appends the attribute codes for `order` to `parts`.
fn push_attr_codes(a: &Attributes, parts: &mut Vec<String>)
    ensures
        final(parts)@.map_values(|p: String| p@) == old(parts)@.map_values(|p: String| p@) + attr_codes(
            *a,
            attribute_order(),
        ),
{
    let ghost start = parts@.map_values(|p: String| p@);
    let order: [Attribute; 13] = [Attribute::Bold, Attribute::Dim, Attribute::Italic, Attribute::Underline, Attribute::Blink, Attribute::Blink2, Attribute::Reverse, Attribute::Conceal, Attribute::Strike, Attribute::Underline2, Attribute::Frame, Attribute::Encircle, Attribute::Overline];
    let codes: [u64; 13] = [1, 2, 3, 4, 5, 6, 7, 8, 9, 21, 51, 52, 53];
    assert(codes@ =~= seq![1u64, 2u64, 3u64, 4u64, 5u64, 6u64, 7u64, 8u64, 9u64, 21u64, 51u64, 52u64, 53u64]);
    assert(order@ =~= attribute_order());
    let mut i: usize = 0;
    while i < 13
        invariant
            i <= 13,
            order@ == attribute_order(),
            forall|j: int| 0 <= j < 13 ==> #[trigger] codes@[j] == attribute_number(order@[j]),
            parts@.map_values(|p: String| p@) == start + attr_codes(*a, attribute_order().take(i as int)),
        decreases 13 - i,
    {
        let ghost before = parts@.map_values(|p: String| p@);
        assert(attribute_order().take(i + 1).drop_last() =~= attribute_order().take(i as int));
        if a.get(order[i]) {
            parts.push(decimal_string(codes[i]));
            assert(parts@.map_values(|p: String| p@) =~= before.push(decimal_chars(codes@[i as int] as nat)));
        }
        i = i + 1;
    }
    assert(attribute_order().take(13) =~= attribute_order());
}

/// `parts` joined with `;`.
fn join_parts(parts: &Vec<String>) -> (r: String)
    ensures
        r@ == join_semi(parts@.map_values(|p: String| p@)),
{
    let mut s = String::new();
    let mut i: usize = 0;
    while i < parts.len()
        invariant
            i <= parts.len(),
            s@ == join_semi(parts@.map_values(|p: String| p@).take(i as int)),
        decreases parts.len() - i,
    {
        let ghost pv = parts@.map_values(|p: String| p@);
        assert(pv.take(i + 1).drop_last() =~= pv.take(i as int));
        if i > 0 {
            push_char(&mut s, ';');
        } else {
            assert(pv.take(0) =~= Seq::<Seq<char>>::empty());
        }
        push_str(&mut s, parts[i].as_str());
        i = i + 1;
        assert(s@ =~= join_semi(pv.take(i as int)));
    }
    assert(parts@.map_values(|p: String| p@).take(parts.len() as int) =~= parts@.map_values(
        |p: String| p@,
    ));
    s
}

impl Clone for Style {
    fn clone(&self) -> (r: Self)
        ensures
            r == *self,
    {
        Style {
            color: self.color,
            bgcolor: self.bgcolor,
            attributes: self.attributes,
            link: match &self.link {
                Some(l) => Some(l.clone()),
                None => None,
            },
        }
    }
}

impl Style {
    /// The style that sets nothing.
    pub fn new() -> (s: Self)
        ensures
            s == empty_style(),
    {
        Style {
            color: None,
            bgcolor: None,
            attributes: Attributes {
                bold: None,
                dim: None,
                italic: None,
                underline: None,
                blink: None,
                blink2: None,
                reverse: None,
                conceal: None,
                strike: None,
                underline2: None,
                frame: None,
                encircle: None,
                overline: None,
            },
            link: None,
        }
    }

    /// The null style, which sets nothing.
    pub fn null() -> (s: Self)
        ensures
            s == empty_style(),
    {
        Style::new()
    }

    /// This style with `bold` set on or off.
    pub fn bold(self, value: bool) -> (s: Self)
        ensures
            s == (Style { attributes: Attributes { bold: Some(value), ..self.attributes }, ..self }),
    {
        let mut st = self;
        st.attributes.bold = Some(value);
        st
    }

    /// This style with `dim` set on or off.
    pub fn dim(self, value: bool) -> (s: Self)
        ensures
            s == (Style { attributes: Attributes { dim: Some(value), ..self.attributes }, ..self }),
    {
        let mut st = self;
        st.attributes.dim = Some(value);
        st
    }

    /// This style with `italic` set on or off.
    pub fn italic(self, value: bool) -> (s: Self)
        ensures
            s == (Style { attributes: Attributes { italic: Some(value), ..self.attributes }, ..self }),
    {
        let mut st = self;
        st.attributes.italic = Some(value);
        st
    }

    /// This style with `underline` set on or off.
    pub fn underline(self, value: bool) -> (s: Self)
        ensures
            s == (Style { attributes: Attributes { underline: Some(value), ..self.attributes }, ..self }),
    {
        let mut st = self;
        st.attributes.underline = Some(value);
        st
    }

    /// This style with `blink` set on or off.
    pub fn blink(self, value: bool) -> (s: Self)
        ensures
            s == (Style { attributes: Attributes { blink: Some(value), ..self.attributes }, ..self }),
    {
        let mut st = self;
        st.attributes.blink = Some(value);
        st
    }

    /// This style with `blink2` set on or off.
    pub fn blink2(self, value: bool) -> (s: Self)
        ensures
            s == (Style { attributes: Attributes { blink2: Some(value), ..self.attributes }, ..self }),
    {
        let mut st = self;
        st.attributes.blink2 = Some(value);
        st
    }

    /// This style with `reverse` set on or off.
    pub fn reverse(self, value: bool) -> (s: Self)
        ensures
            s == (Style { attributes: Attributes { reverse: Some(value), ..self.attributes }, ..self }),
    {
        let mut st = self;
        st.attributes.reverse = Some(value);
        st
    }

    /// This style with `conceal` set on or off.
    pub fn conceal(self, value: bool) -> (s: Self)
        ensures
            s == (Style { attributes: Attributes { conceal: Some(value), ..self.attributes }, ..self }),
    {
        let mut st = self;
        st.attributes.conceal = Some(value);
        st
    }

    /// This style with `strike` set on or off.
    pub fn strike(self, value: bool) -> (s: Self)
        ensures
            s == (Style { attributes: Attributes { strike: Some(value), ..self.attributes }, ..self }),
    {
        let mut st = self;
        st.attributes.strike = Some(value);
        st
    }

    /// This style with `underline2` set on or off.
    pub fn underline2(self, value: bool) -> (s: Self)
        ensures
            s == (Style { attributes: Attributes { underline2: Some(value), ..self.attributes }, ..self }),
    {
        let mut st = self;
        st.attributes.underline2 = Some(value);
        st
    }

    /// This style with `frame` set on or off.
    pub fn frame(self, value: bool) -> (s: Self)
        ensures
            s == (Style { attributes: Attributes { frame: Some(value), ..self.attributes }, ..self }),
    {
        let mut st = self;
        st.attributes.frame = Some(value);
        st
    }

    /// This style with `encircle` set on or off.
    pub fn encircle(self, value: bool) -> (s: Self)
        ensures
            s == (Style { attributes: Attributes { encircle: Some(value), ..self.attributes }, ..self }),
    {
        let mut st = self;
        st.attributes.encircle = Some(value);
        st
    }

    /// This style with `overline` set on or off.
    pub fn overline(self, value: bool) -> (s: Self)
        ensures
            s == (Style { attributes: Attributes { overline: Some(value), ..self.attributes }, ..self }),
    {
        let mut st = self;
        st.attributes.overline = Some(value);
        st
    }

    /// This style with foreground `color`.
    pub fn color(self, color: Color) -> (s: Self)
        ensures
            s == (Style { color: Some(color), ..self }),
    {
        let mut st = self;
        st.color = Some(color);
        st
    }

    /// This style with background `color`.
    pub fn bgcolor(self, color: Color) -> (s: Self)
        ensures
            s == (Style { bgcolor: Some(color), ..self }),
    {
        let mut st = self;
        st.bgcolor = Some(color);
        st
    }

    /// This style with a hyperlink to `url`.
    pub fn link(self, url: &str) -> (s: Self)
        ensures
            s.color == self.color && s.bgcolor == self.bgcolor && s.attributes == self.attributes,
            opt_view(s.link) == Some(url@),
    {
        let mut st = self;
        st.link = Some(owned(url));
        st
    }

    /// Whether the style sets nothing at all.
    pub fn is_null(&self) -> (b: bool)
        ensures
            b == (self.color is None && self.bgcolor is None && self.attributes == empty_style().attributes
                && self.link is None),
    {
        self.color.is_none() && self.bgcolor.is_none() && self.link.is_none()
            && self.attributes.bold.is_none()
            && self.attributes.dim.is_none()
            && self.attributes.italic.is_none()
            && self.attributes.underline.is_none()
            && self.attributes.blink.is_none()
            && self.attributes.blink2.is_none()
            && self.attributes.reverse.is_none()
            && self.attributes.conceal.is_none()
            && self.attributes.strike.is_none()
            && self.attributes.underline2.is_none()
            && self.attributes.frame.is_none()
            && self.attributes.encircle.is_none()
            && self.attributes.overline.is_none()
    }

    /// Whether the style writes no escape code (nothing is on and no color
    /// is set).
    pub fn is_plain(&self) -> (b: bool)
        ensures
            b == (sgr_codes(*self).len() == 0),
    {
        let mut parts: Vec<String> = Vec::new();
        self.push_codes(&mut parts);
        parts.len() == 0
    }

    /// Appends all SGR codes of the style to `parts`.
    fn push_codes(&self, parts: &mut Vec<String>)
        ensures
            final(parts)@.map_values(|p: String| p@) == old(parts)@.map_values(|p: String| p@) + sgr_codes(
                *self,
            ),
    {
        let ghost start = parts@.map_values(|p: String| p@);
        push_attr_codes(&self.attributes, parts);
        let ghost mid = parts@.map_values(|p: String| p@);
        match &self.color {
            Some(c) => {
                let (fg, _bg) = c.get_ansi_codes(false);
                match fg {
                    Some(code) => {
                        parts.push(code);
                        assert(parts@.map_values(|p: String| p@) =~= mid.push(code@));
                    },
                    None => {},
                }
            },
            None => {},
        }
        let ghost mid2 = parts@.map_values(|p: String| p@);
        match &self.bgcolor {
            Some(c) => {
                let (_fg, bg) = c.get_ansi_codes(true);
                match bg {
                    Some(code) => {
                        parts.push(code);
                        assert(parts@.map_values(|p: String| p@) =~= mid2.push(code@));
                    },
                    None => {},
                }
            },
            None => {},
        }
        assert(parts@.map_values(|p: String| p@) =~= start + sgr_codes(*self));
    }

    /// The escape sequence that turns this style on (empty when it writes
    /// no code).
    pub fn to_ansi(&self) -> (r: String)
        ensures
            r@ == sgr_of(*self),
    {
        let mut parts: Vec<String> = Vec::new();
        self.push_codes(&mut parts);
        assert(parts@.map_values(|p: String| p@) =~= sgr_codes(*self));
        if parts.len() == 0 {
            return String::new();
        }
        let mut s = String::new();
        push_char(&mut s, '\x1b');
        push_char(&mut s, '[');
        let body = join_parts(&parts);
        push_str(&mut s, body.as_str());
        push_char(&mut s, 'm');
        s
    }

    /// The sequence that ends this style: the reset sequence, or nothing
    /// when the style writes no code.
    pub fn reset_ansi(&self) -> (r: String)
        ensures
            r@ == (if sgr_codes(*self).len() == 0 { seq![] } else { reset_seq() }),
    {
        if self.is_plain() {
            String::new()
        } else {
            let mut s = String::new();
            push_char(&mut s, '\x1b');
            push_char(&mut s, '[');
            push_char(&mut s, '0');
            push_char(&mut s, 'm');
            assert(s@ =~= reset_seq());
            s
        }
    }

    /// `text` in this style.
    pub fn render(&self, text: &str) -> (r: String)
        ensures
            r@ == render_spec(*self, text@),
    {
        let on = self.to_ansi();
        if on.unicode_len() == 0 {
            assert(sgr_codes(*self).len() == 0) by {
                if sgr_codes(*self).len() > 0 {
                    assert(sgr_of(*self).len() > 0);
                }
            }
            return owned(text);
        }
        let mut s = on;
        push_str(&mut s, text);
        let off = self.reset_ansi();
        push_str(&mut s, off.as_str());
        s
    }

    /// This style with everything `other` sets taking precedence.
    pub fn combine(&self, other: &Style) -> (r: Style)
        ensures
            r == combine_spec(*self, *other),
    {
        Style {
            color: if other.color.is_some() { other.color } else { self.color },
            bgcolor: if other.bgcolor.is_some() { other.bgcolor } else { self.bgcolor },
            attributes: Attributes {
                bold: if other.attributes.bold.is_some() { other.attributes.bold } else { self.attributes.bold },
                dim: if other.attributes.dim.is_some() { other.attributes.dim } else { self.attributes.dim },
                italic: if other.attributes.italic.is_some() { other.attributes.italic } else { self.attributes.italic },
                underline: if other.attributes.underline.is_some() { other.attributes.underline } else { self.attributes.underline },
                blink: if other.attributes.blink.is_some() { other.attributes.blink } else { self.attributes.blink },
                blink2: if other.attributes.blink2.is_some() { other.attributes.blink2 } else { self.attributes.blink2 },
                reverse: if other.attributes.reverse.is_some() { other.attributes.reverse } else { self.attributes.reverse },
                conceal: if other.attributes.conceal.is_some() { other.attributes.conceal } else { self.attributes.conceal },
                strike: if other.attributes.strike.is_some() { other.attributes.strike } else { self.attributes.strike },
                underline2: if other.attributes.underline2.is_some() { other.attributes.underline2 } else { self.attributes.underline2 },
                frame: if other.attributes.frame.is_some() { other.attributes.frame } else { self.attributes.frame },
                encircle: if other.attributes.encircle.is_some() { other.attributes.encircle } else { self.attributes.encircle },
                overline: if other.attributes.overline.is_some() { other.attributes.overline } else { self.attributes.overline },
            },
            link: if other.link.is_some() {
                match &other.link {
                    Some(l) => Some(l.clone()),
                    None => None,
                }
            } else {
                match &self.link {
                    Some(l) => Some(l.clone()),
                    None => None,
                }
            },
        }
    }
}

/// A stack of styles: each pushed style is combined with the one below it.
#[derive(Debug, Clone)]
pub struct StyleStack {
    /// The styles, the base first.
    pub stack: Vec<Style>,
}

impl StyleStack {
    /// The styles on the stack, the base first.
    pub open spec fn styles(self) -> Seq<Style> {
        self.stack@
    }

    /// Whether the stack holds at least its base style.
    pub open spec fn wf(self) -> bool {
        self.stack@.len() >= 1
    }

    /// A stack holding only `default`.
    pub fn new(default: Style) -> (s: Self)
        ensures
            s.wf(),
            s.styles() == seq![default],
    {
        let mut v: Vec<Style> = Vec::new();
        v.push(default);
        StyleStack { stack: v }
    }

    /// The style on top.
    pub fn current(&self) -> (s: Style)
        requires
            self.wf(),
        ensures
            s == self.styles().last(),
    {
        self.stack[self.stack.len() - 1].clone()
    }

    /// The number of styles pushed above the base.
    pub fn len(&self) -> (n: usize)
        requires
            self.wf(),
        ensures
            n == self.styles().len() - 1,
    {
        self.stack.len() - 1
    }

    /// Pushes `style` combined with the current top.
    pub fn push(&mut self, style: Style)
        requires
            old(self).wf(),
        ensures
            final(self).wf(),
            final(self).styles() == old(self).styles().push(combine_spec(old(self).styles().last(), style)),
    {
        let top = self.current();
        let combined = top.combine(&style);
        self.stack.push(combined);
    }

    /// Removes the top style, unless only the base is left.
    pub fn pop(&mut self)
        requires
            old(self).wf(),
        ensures
            final(self).wf(),
            old(self).styles().len() > 1 ==> final(self).styles() == old(self).styles().drop_last(),
            old(self).styles().len() == 1 ==> final(self).styles() == old(self).styles(),
    {
        if self.stack.len() > 1 {
            self.stack.pop();
            assert(self.stack@ =~= old(self).stack@.drop_last());
        }
    }
}

} // verus!
