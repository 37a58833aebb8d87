//! Console markup: `[bold red]text[/]` style tags in text, `[[` for a
//! literal bracket.

use vstd::prelude::*;
use crate::color::{Color, ColorValue};
use crate::style::{Style, StyleStack, combine_spec, empty_style};
use crate::text::{Text, Span};
use crate::strutil::{
    chars_of, owned, push_char, push_str, replace_all, replace_spec, str_eq, string_of, opt_view,
};

verus! {

/// A markup tag: a name and optional parameters.
#[derive(Debug, Clone, PartialEq)]
pub struct Tag {
    /// The tag name (`/name` for a closing tag).
    pub name: String,
    /// The parameters, if any.
    pub parameters: Option<String>,
}

/// Whether a tag name closes: `/` or anything starting with `/`.
pub open spec fn is_closing_name(n: Seq<char>) -> bool {
    n.len() > 0 && n[0] == '/'
}

/// The markup text of a tag: `[name=parameters]` or `[name]`.
pub open spec fn tag_markup(name: Seq<char>, params: Option<Seq<char>>) -> Seq<char> {
    match params {
        Some(p) => seq!['['] + name + seq!['='] + p + seq![']'],
        None => seq!['['] + name + seq![']'],
    }
}

impl Tag {
    /// A tag with no parameters.
    pub fn new(name: &str) -> (t: Self)
        ensures
            t.name@ == name@,
            t.parameters is None,
    {
        Tag { name: owned(name), parameters: None }
    }

    /// A tag with parameters.
    pub fn with_params(name: &str, params: &str) -> (t: Self)
        ensures
            t.name@ == name@,
            opt_view(t.parameters) == Some(params@),
    {
        Tag { name: owned(name), parameters: Some(owned(params)) }
    }

    /// Whether the tag closes styles (`/` or `/name`).
    pub fn is_closing(&self) -> (b: bool)
        ensures
            b == is_closing_name(self.name@),
    {
        let n = self.name.as_str();
        n.unicode_len() > 0 && n.get_char(0) == '/'
    }

    /// The name after the leading `/` (empty for `/` itself).
    pub fn closing_name(&self) -> (r: String)
        requires
            self.name@.len() > 0,
            (self.name@[0] as u32) < 0x80,
        ensures
            r@ == self.name@.skip(1),
    {
        let n = self.name.as_str();
        owned(n.substring_char(1, n.unicode_len()))
    }

    /// The markup text of the tag.
    pub fn markup(&self) -> (r: String)
        ensures
            r@ == tag_markup(self.name@, opt_view(self.parameters)),
    {
        let mut s = String::new();
        push_char(&mut s, '[');
        push_str(&mut s, self.name.as_str());
        match &self.parameters {
            Some(p) => {
                push_char(&mut s, '=');
                push_str(&mut s, p.as_str());
            },
            None => {},
        }
        push_char(&mut s, ']');
        assert(s@ =~= tag_markup(self.name@, opt_view(self.parameters)));
        s
    }
}

/// The index of the first `c` in `s`, if any.
pub open spec fn first_index(s: Seq<char>, c: char) -> Option<nat> {
    if exists|i: int| 0 <= i < s.len() && s[i] == c {
        Some(choose|i: nat| i < s.len() && s[i as int] == c && (forall|j: int| 0 <= j < i ==> s[j] != c))
    } else {
        None
    }
}

/// `s` without leading and trailing `c`.
pub open spec fn trim_char(s: Seq<char>, c: char) -> Seq<char>
    decreases s.len(),
{
    if s.len() > 0 && s[0] == c {
        trim_char(s.drop_first(), c)
    } else if s.len() > 0 && s.last() == c {
        trim_char(s.drop_last(), c)
    } else {
        s
    }
}

/// The tag a tag text denotes: a closing tag as it is; `name=value` with
/// quotes trimmed from the value; `name(params)`; else a bare name.
pub open spec fn parse_tag_spec(s: Seq<char>) -> (Seq<char>, Option<Seq<char>>) {
    if s.len() > 0 && s[0] == '/' {
        (s, None)
    } else if first_index(s, '=') is Some {
        let eq = first_index(s, '=').unwrap() as int;
        (s.take(eq), Some(trim_char(trim_char(s.skip(eq + 1), '"'), '\'')))
    } else if first_index(s, '(') is Some && s.len() > 0 && s.last() == ')' {
        let lp = first_index(s, '(').unwrap() as int;
        (s.take(lp), Some(s.subrange(lp + 1, s.len() - 1)))
    } else {
        (s, None)
    }
}

/// The index of the first `c` in `v`.
fn find_char(v: &Vec<char>, c: char) -> (r: Option<usize>)
    ensures
        match r {
            Some(i) => first_index(v@, c) == Some(i as nat) && i < v@.len() && v@[i as int] == c,
            None => first_index(v@, c) is None,
        },
{
    let mut i: usize = 0;
    while i < v.len()
        invariant
            i <= v.len(),
            forall|j: int| 0 <= j < i ==> v@[j] != c,
        decreases v.len() - i,
    {
        if v[i] == c {
            let ghost w = choose|k: nat| k < v@.len() && v@[k as int] == c && (forall|j: int| 0 <= j < k ==> v@[j] != c);
            assert(i < v@.len() && v@[i as int] == c && (forall|j: int| 0 <= j < i ==> v@[j] != c));
            assert(w == i) by {
                if w < i {
                    assert(v@[w as int] != c);
                } else if w > i {
                }
            }
            return Some(i);
        }
        i = i + 1;
    }
    None
}

/// `v[a..b]` with leading and trailing `c` removed.
fn trim_vec(v: &Vec<char>, c: char) -> (r: Vec<char>)
    ensures
        r@ == trim_char(v@, c),
{
    let mut a: usize = 0;
    let mut b: usize = v.len();
    assert(v@.subrange(0, v@.len() as int) =~= v@);
    while a < b && (v[a] == c || v[b - 1] == c)
        invariant
            a <= b <= v.len(),
            trim_char(v@.subrange(a as int, b as int), c) == trim_char(v@, c),
        decreases b - a,
    {
        let ghost s = v@.subrange(a as int, b as int);
        if v[a] == c {
            assert(s.drop_first() =~= v@.subrange(a + 1, b as int));
            a = a + 1;
        } else {
            assert(s.drop_last() =~= v@.subrange(a as int, b - 1));
            b = b - 1;
        }
    }
    assert(v@.subrange(0, v@.len() as int) =~= v@);
    let mut out: Vec<char> = Vec::new();
    let mut k = a;
    while k < b
        invariant
            a <= k <= b <= v.len(),
            out@ == v@.subrange(a as int, k as int),
        decreases b - k,
    {
        out.push(v[k]);
        k = k + 1;
        assert(out@ =~= v@.subrange(a as int, k as int));
    }
    out
}

/// `v[a..b]` as a string.
fn sub_string(v: &Vec<char>, a: usize, b: usize) -> (r: String)
    requires
        a <= b <= v.len(),
    ensures
        r@ == v@.subrange(a as int, b as int),
{
    let mut s = String::new();
    let mut k = a;
    while k < b
        invariant
            a <= k <= b <= v.len(),
            s@ == v@.subrange(a as int, k as int),
        decreases b - k,
    {
        push_char(&mut s, v[k]);
        k = k + 1;
        assert(s@ =~= v@.subrange(a as int, k as int));
    }
    s
}

/// `name=value`, the value with quotes trimmed.
fn eq_tag(v: &Vec<char>, eq: usize) -> (t: Tag)
    requires
        eq < v.len(),
    ensures
        t.name@ == v@.take(eq as int),
        opt_view(t.parameters) == Some(trim_char(trim_char(v@.skip(eq + 1), '"'), '\'')),
{
    let name = sub_string(v, 0, eq);
    let rest = sub_string(v, eq + 1, v.len());
    let rv = chars_of(rest.as_str());
    assert(name@ =~= v@.take(eq as int));
    assert(rv@ =~= v@.skip(eq + 1));
    let t1 = trim_vec(&rv, '"');
    let t2 = trim_vec(&t1, '\'');
    let value = string_of(&t2);
    Tag { name, parameters: Some(value) }
}

/// `name(params)`.
fn paren_tag(v: &Vec<char>, lp: usize) -> (t: Tag)
    requires
        lp + 1 <= v.len() - 1,
        v.len() > 0,
    ensures
        t.name@ == v@.take(lp as int),
        opt_view(t.parameters) == Some(v@.subrange(lp + 1, v.len() - 1)),
{
    let name = sub_string(v, 0, lp);
    let params = sub_string(v, lp + 1, v.len() - 1);
    assert(name@ =~= v@.take(lp as int));
    Tag { name, parameters: Some(params) }
}

/// Reads a tag from the text between brackets.
pub fn parse_tag(s: &str) -> (t: Tag)
    ensures
        (t.name@, opt_view(t.parameters)) == parse_tag_spec(s@),
{
    let v = chars_of(s);
    let n = v.len();
    if n > 0 && v[0] == '/' {
        return Tag::new(s);
    }
    match find_char(&v, '=') {
        Some(eq) => eq_tag(&v, eq),
        None => match find_char(&v, '(') {
            Some(lp) => {
                if n > 0 && v[n - 1] == ')' {
                    assert(lp != n - 1);
                    paren_tag(&v, lp)
                } else {
                    Tag::new(s)
                }
            },
            None => Tag::new(s),
        },
    }
}

/// A style seen as values: colors, attributes and link text.
pub type StyleView = (Option<ColorValue>, Option<ColorValue>, crate::style::Attributes, Option<Seq<char>>);

/// The view of a style.
pub open spec fn style_view(st: Style) -> StyleView {
    (crate::style::opt_color(st.color), crate::style::opt_color(st.bgcolor), st.attributes, opt_view(st.link))
}

/// The view of the style that sets nothing.
pub open spec fn null_view() -> StyleView {
    (None, None, empty_style().attributes, None)
}

/// The view of `a` combined with `b`.
pub open spec fn combine_view(a: StyleView, b: StyleView) -> StyleView {
    (
        if b.0 is Some { b.0 } else { a.0 },
        if b.1 is Some { b.1 } else { a.1 },
        crate::style::combine_attrs(a.2, b.2),
        if b.3 is Some { b.3 } else { a.3 },
    )
}

/// Attributes with only `a` set on.
pub open spec fn only_attr(a: crate::style::Attribute) -> crate::style::Attributes {
    let e = empty_style().attributes;
    match a {
        crate::style::Attribute::Bold => crate::style::Attributes { bold: Some(true), ..e },
        crate::style::Attribute::Dim => crate::style::Attributes { dim: Some(true), ..e },
        crate::style::Attribute::Italic => crate::style::Attributes { italic: Some(true), ..e },
        crate::style::Attribute::Underline => crate::style::Attributes { underline: Some(true), ..e },
        crate::style::Attribute::Blink => crate::style::Attributes { blink: Some(true), ..e },
        crate::style::Attribute::Reverse => crate::style::Attributes { reverse: Some(true), ..e },
        crate::style::Attribute::Strike => crate::style::Attributes { strike: Some(true), ..e },
        _ => e,
    }
}

/// The color a name denotes, when it can be read.
pub open spec fn color_of(name: Seq<char>) -> Option<ColorValue> {
    let l = crate::strutil::unicode_lowercase(name);
    if crate::color::parse_cut_ok(l) {
        crate::color::parse_value(l)
    } else {
        None
    }
}

/// Whether ` on ` occurs in `s` at index `i`.
pub open spec fn on_at(s: Seq<char>, i: int) -> bool {
    0 <= i && i + 4 <= s.len() && s.subrange(i, i + 4) == " on "@
}

/// The first index of ` on ` in `s`, if any.
pub open spec fn on_index(s: Seq<char>) -> Option<nat> {
    if exists|i: int| #[trigger] on_at(s, i) {
        Some(choose|i: nat| #[trigger] on_at(s, i as int) && (forall|j: int| 0 <= j < i ==> !on_at(s, j)))
    } else {
        None
    }
}

/// The attribute a style tag name turns on, if it is one.
pub open spec fn attr_tag(n: Seq<char>) -> Option<crate::style::Attribute> {
    if n == "bold"@ || n == "b"@ {
        Some(crate::style::Attribute::Bold)
    } else if n == "dim"@ || n == "d"@ {
        Some(crate::style::Attribute::Dim)
    } else if n == "italic"@ || n == "i"@ {
        Some(crate::style::Attribute::Italic)
    } else if n == "underline"@ || n == "u"@ {
        Some(crate::style::Attribute::Underline)
    } else if n == "blink"@ {
        Some(crate::style::Attribute::Blink)
    } else if n == "reverse"@ || n == "r"@ {
        Some(crate::style::Attribute::Reverse)
    } else if n == "strike"@ || n == "s"@ {
        Some(crate::style::Attribute::Strike)
    } else {
        None
    }
}

/// Each attribute tag (`bold`/`b`, `dim`/`d`, `italic`/`i`,
/// `underline`/`u`, `blink`, `reverse`/`r`, `strike`/`s`) stands for the
/// style that turns that attribute on and sets nothing else, whatever its
/// parameters.
pub proof fn lemma_attribute_tag_styles(params: Option<Seq<char>>)
    ensures
        tag_style_spec("bold"@, params) == (None::<ColorValue>, None::<ColorValue>, crate::style::Attributes { bold: Some(true), ..empty_style().attributes }, None::<Seq<char>>),
        tag_style_spec("b"@, params) == (None::<ColorValue>, None::<ColorValue>, crate::style::Attributes { bold: Some(true), ..empty_style().attributes }, None::<Seq<char>>),
        tag_style_spec("dim"@, params) == (None::<ColorValue>, None::<ColorValue>, crate::style::Attributes { dim: Some(true), ..empty_style().attributes }, None::<Seq<char>>),
        tag_style_spec("d"@, params) == (None::<ColorValue>, None::<ColorValue>, crate::style::Attributes { dim: Some(true), ..empty_style().attributes }, None::<Seq<char>>),
        tag_style_spec("italic"@, params) == (None::<ColorValue>, None::<ColorValue>, crate::style::Attributes { italic: Some(true), ..empty_style().attributes }, None::<Seq<char>>),
        tag_style_spec("i"@, params) == (None::<ColorValue>, None::<ColorValue>, crate::style::Attributes { italic: Some(true), ..empty_style().attributes }, None::<Seq<char>>),
        tag_style_spec("underline"@, params) == (None::<ColorValue>, None::<ColorValue>, crate::style::Attributes { underline: Some(true), ..empty_style().attributes }, None::<Seq<char>>),
        tag_style_spec("u"@, params) == (None::<ColorValue>, None::<ColorValue>, crate::style::Attributes { underline: Some(true), ..empty_style().attributes }, None::<Seq<char>>),
        tag_style_spec("blink"@, params) == (None::<ColorValue>, None::<ColorValue>, crate::style::Attributes { blink: Some(true), ..empty_style().attributes }, None::<Seq<char>>),
        tag_style_spec("reverse"@, params) == (None::<ColorValue>, None::<ColorValue>, crate::style::Attributes { reverse: Some(true), ..empty_style().attributes }, None::<Seq<char>>),
        tag_style_spec("r"@, params) == (None::<ColorValue>, None::<ColorValue>, crate::style::Attributes { reverse: Some(true), ..empty_style().attributes }, None::<Seq<char>>),
        tag_style_spec("strike"@, params) == (None::<ColorValue>, None::<ColorValue>, crate::style::Attributes { strike: Some(true), ..empty_style().attributes }, None::<Seq<char>>),
        tag_style_spec("s"@, params) == (None::<ColorValue>, None::<ColorValue>, crate::style::Attributes { strike: Some(true), ..empty_style().attributes }, None::<Seq<char>>),
{
    reveal_strlit("bold");
    reveal_strlit("b");
    reveal_strlit("dim");
    reveal_strlit("d");
    reveal_strlit("italic");
    reveal_strlit("i");
    reveal_strlit("underline");
    reveal_strlit("u");
    reveal_strlit("blink");
    reveal_strlit("reverse");
    reveal_strlit("r");
    reveal_strlit("strike");
    reveal_strlit("s");
    assert("d"@ != "b"@) by { assert("d"@[0] != "b"@[0]); }
    assert("i"@ != "b"@) by { assert("i"@[0] != "b"@[0]); }
    assert("i"@ != "d"@) by { assert("i"@[0] != "d"@[0]); }
    assert("u"@ != "b"@) by { assert("u"@[0] != "b"@[0]); }
    assert("u"@ != "d"@) by { assert("u"@[0] != "d"@[0]); }
    assert("u"@ != "i"@) by { assert("u"@[0] != "i"@[0]); }
    assert("r"@ != "b"@) by { assert("r"@[0] != "b"@[0]); }
    assert("r"@ != "d"@) by { assert("r"@[0] != "d"@[0]); }
    assert("r"@ != "i"@) by { assert("r"@[0] != "i"@[0]); }
    assert("r"@ != "u"@) by { assert("r"@[0] != "u"@[0]); }
    assert("strike"@ != "italic"@) by { assert("strike"@[0] != "italic"@[0]); }
    assert("s"@ != "b"@) by { assert("s"@[0] != "b"@[0]); }
    assert("s"@ != "d"@) by { assert("s"@[0] != "d"@[0]); }
    assert("s"@ != "i"@) by { assert("s"@[0] != "i"@[0]); }
    assert("s"@ != "u"@) by { assert("s"@[0] != "u"@[0]); }
    assert("s"@ != "r"@) by { assert("s"@[0] != "r"@[0]); }
}

/// Whether `n` is the closing name of an attribute tag.
pub open spec fn attr_close_tag(n: Seq<char>) -> bool {
    n == "/bold"@ || n == "/b"@ || n == "/dim"@ || n == "/d"@ || n == "/italic"@ || n == "/i"@ || n
        == "/underline"@ || n == "/u"@ || n == "/blink"@ || n == "/reverse"@ || n == "/r"@ || n
        == "/strike"@ || n == "/s"@
}

/// The style an opening tag stands for: an attribute; `on COLOR`;
/// `COLOR on COLOR`; a color; a color given as parameters; else nothing.
pub open spec fn tag_style_spec(n: Seq<char>, params: Option<Seq<char>>) -> StyleView {
    let e = empty_style().attributes;
    if attr_tag(n) is Some {
        (None, None, only_attr(attr_tag(n).unwrap()), None)
    } else if attr_close_tag(n) {
        null_view()
    } else if n.len() >= 3 && n.take(3) == "on "@ && color_of(n.skip(3)) is Some {
        (None, color_of(n.skip(3)), e, None)
    } else if on_index(n) is Some && color_of(n.take(on_index(n).unwrap() as int)) is Some {
        let k = on_index(n).unwrap() as int;
        (color_of(n.take(k)), color_of(n.skip(k + 4)), e, None)
    } else if color_of(n) is Some {
        (color_of(n), None, e, None)
    } else if params is Some && color_of(params.unwrap()) is Some {
        (color_of(params.unwrap()), None, e, None)
    } else {
        null_view()
    }
}

/// Parses a color name, failing also where the reading would cut a
/// character apart.
fn parse_color(s: &str) -> (r: Option<Color>)
    ensures
        match r {
            Some(c) => color_of(s@) == Some(c@),
            None => color_of(s@) is None,
        },
{
    match Color::try_parse(s) {
        Some(Ok(c)) => Some(c),
        _ => None,
    }
}

/// The index of the first ` on ` in `v`.
fn find_on(v: &Vec<char>) -> (r: Option<usize>)
    ensures
        match r {
            Some(i) => on_index(v@) == Some(i as nat) && i + 4 <= v@.len(),
            None => on_index(v@) is None,
        },
{
    proof {
        reveal_strlit(" on ");
    }
    assert(" on "@ =~= seq![' ', 'o', 'n', ' ']);
    let n = v.len();
    if n < 4 {
        assert forall|i: int| !#[trigger] on_at(v@, i) by {}
        return None;
    }
    let mut i: usize = 0;
    while i <= n - 4
        invariant
            " on "@ == seq![' ', 'o', 'n', ' '],
            n == v.len(),
            n >= 4,
            i <= n - 3,
            forall|j: int| 0 <= j < i ==> !#[trigger] on_at(v@, j),
        decreases n - i,
    {
        if v[i] == ' ' && v[i + 1] == 'o' && v[i + 2] == 'n' && v[i + 3] == ' ' {
            assert(v@.subrange(i as int, i + 4) =~= seq![' ', 'o', 'n', ' ']);
            assert(on_at(v@, i as int));
            let ghost w = choose|k: nat| #[trigger] on_at(v@, k as int) && (forall|j: int| 0 <= j < k ==> !on_at(v@, j));
            assert(w == i) by {
                if w < i {
                    assert(!on_at(v@, w as int));
                } else if w > i {
                    assert(!on_at(v@, i as int));
                }
            }
            return Some(i);
        }
        assert(!on_at(v@, i as int)) by {
            if on_at(v@, i as int) {
                assert(v@.subrange(i as int, i + 4)[0] == ' ');
                assert(v@.subrange(i as int, i + 4)[1] == 'o');
                assert(v@.subrange(i as int, i + 4)[2] == 'n');
                assert(v@.subrange(i as int, i + 4)[3] == ' ');
            }
        }
        i = i + 1;
    }
    assert forall|j: int| !#[trigger] on_at(v@, j) by {
        if 0 <= j && j < i {
        }
    }
    None
}

/// A style with one attribute on.
fn attr_style(a: crate::style::Attribute) -> (st: Style)
    ensures
        style_view(st) == (None::<ColorValue>, None::<ColorValue>, only_attr(a), None::<Seq<char>>),
{
    let s = Style::new();
    match a {
        crate::style::Attribute::Bold => s.bold(true),
        crate::style::Attribute::Dim => s.dim(true),
        crate::style::Attribute::Italic => s.italic(true),
        crate::style::Attribute::Underline => s.underline(true),
        crate::style::Attribute::Blink => s.blink(true),
        crate::style::Attribute::Reverse => s.reverse(true),
        crate::style::Attribute::Strike => s.strike(true),
        _ => s,
    }
}

/// Which attribute tag `n` names, if any.
fn attr_of_tag(n: &str) -> (r: Option<crate::style::Attribute>)
    ensures
        r == attr_tag(n@),
{
    if str_eq(n, "bold") || str_eq(n, "b") {
        Some(crate::style::Attribute::Bold)
    } else if str_eq(n, "dim") || str_eq(n, "d") {
        Some(crate::style::Attribute::Dim)
    } else if str_eq(n, "italic") || str_eq(n, "i") {
        Some(crate::style::Attribute::Italic)
    } else if str_eq(n, "underline") || str_eq(n, "u") {
        Some(crate::style::Attribute::Underline)
    } else if str_eq(n, "blink") {
        Some(crate::style::Attribute::Blink)
    } else if str_eq(n, "reverse") || str_eq(n, "r") {
        Some(crate::style::Attribute::Reverse)
    } else if str_eq(n, "strike") || str_eq(n, "s") {
        Some(crate::style::Attribute::Strike)
    } else {
        None
    }
}

/// Whether `n` closes an attribute tag.
fn is_attr_close(n: &str) -> (b: bool)
    ensures
        b == attr_close_tag(n@),
{
    str_eq(n, "/bold") || str_eq(n, "/b") || str_eq(n, "/dim") || str_eq(n, "/d") || str_eq(
        n,
        "/italic",
    ) || str_eq(n, "/i") || str_eq(n, "/underline") || str_eq(n, "/u") || str_eq(n, "/blink")
        || str_eq(n, "/reverse") || str_eq(n, "/r") || str_eq(n, "/strike") || str_eq(n, "/s")
}

/// The style an opening tag stands for.
pub fn tag_to_style(tag: &Tag) -> (st: Style)
    ensures
        style_view(st) == tag_style_spec(tag.name@, opt_view(tag.parameters)),
{
    let name = tag.name.as_str();
    proof {
        reveal_strlit("on ");
    }
    match attr_of_tag(name) {
        Some(a) => return attr_style(a),
        None => {},
    }
    if is_attr_close(name) {
        return Style::null();
    }
    let v = chars_of(name);
    let n = v.len();
    if n >= 3 && v[0] == 'o' && v[1] == 'n' && v[2] == ' ' {
        assert(v@.take(3) =~= "on "@);
        let rest = crate::strutil::substring(name, 3, n);
        assert(rest@ =~= name@.skip(3));
        match parse_color(rest.as_str()) {
            Some(c) => return Style::new().bgcolor(c),
            None => {},
        }
    } else {
        assert(!(n >= 3 && v@.take(3) == "on "@)) by {
            if n >= 3 && v@.take(3) == "on "@ {
                assert(v@.take(3)[0] == 'o');
                assert(v@.take(3)[1] == 'n');
                assert(v@.take(3)[2] == ' ');
            }
        }
    }
    match find_on(&v) {
        Some(k) => {
            let fg_name = crate::strutil::substring(name, 0, k);
            assert(fg_name@ =~= name@.take(k as int));
            match parse_color(fg_name.as_str()) {
                Some(fg) => {
                    let bg_name = crate::strutil::substring(name, k + 4, n);
                    assert(bg_name@ =~= name@.skip(k + 4));
                    let st = Style::new().color(fg);
                    return match parse_color(bg_name.as_str()) {
                        Some(bg) => st.bgcolor(bg),
                        None => st,
                    };
                },
                None => {},
            }
        },
        None => {},
    }
    match parse_color(name) {
        Some(c) => return Style::new().color(c),
        None => {},
    }
    match &tag.parameters {
        Some(p) => match parse_color(p.as_str()) {
            Some(c) => return Style::new().color(c),
            None => {},
        },
        None => {},
    }
    Style::new()
}

/// `markup` with every `[` doubled, so that it reads as literal text.
pub fn escape(markup: &str) -> (r: String)
    ensures
        r@ == replace_spec(markup@, "["@, "[["@),
{
    replace_all(markup, "[", "[[")
}

/// A span seen as its range and style view.
pub type SpanView = (nat, nat, StyleView);

/// The view of a text's spans.
pub open spec fn spans_view(spans: Seq<Span>) -> Seq<SpanView> {
    spans.map_values(|sp: Span| (sp.start as nat, sp.end as nat, style_view(sp.style)))
}

/// The view of a stack of styles.
pub open spec fn stack_view(st: Seq<Style>) -> Seq<StyleView> {
    st.map_values(|x: Style| style_view(x))
}

/// Text and spans after appending `chunk` in style `sv`: a span records the
/// style unless it sets nothing or the chunk is empty.
pub open spec fn append_view(plain: Seq<char>, spans: Seq<SpanView>, chunk: Seq<char>, sv: StyleView) -> (
    Seq<char>,
    Seq<SpanView>,
) {
    (
        plain + chunk,
        if sv == null_view() || chunk.len() == 0 {
            spans
        } else {
            spans.push((plain.len(), plain.len() + chunk.len(), sv))
        },
    )
}

/// The index of the first `c` at or after `pos`, if any.
pub open spec fn find_from(cs: Seq<char>, pos: int, c: char) -> Option<int>
    decreases cs.len() - pos,
{
    if pos < 0 || pos >= cs.len() {
        None
    } else if cs[pos] == c {
        Some(pos)
    } else {
        find_from(cs, pos + 1, c)
    }
}

/// The end of the plain chunk starting at `pos`: the next `[` or the end.
pub open spec fn chunk_end(cs: Seq<char>, pos: int) -> int {
    match find_from(cs, pos, '[') {
        Some(e) => e,
        None => cs.len() as int,
    }
}

proof fn lemma_find_from_bounds(cs: Seq<char>, pos: int, c: char)
    requires
        0 <= pos,
    ensures
        find_from(cs, pos, c) matches Some(e) ==> pos <= e < cs.len() && cs[e] == c,
    decreases cs.len() - pos,
{
    if pos < cs.len() && cs[pos] != c {
        lemma_find_from_bounds(cs, pos + 1, c);
    }
}

/// The text and spans markup gives from position `pos` on, given the text,
/// spans and style stack built so far.
pub open spec fn markup_from(
    cs: Seq<char>,
    pos: int,
    plain: Seq<char>,
    spans: Seq<SpanView>,
    stack: Seq<StyleView>,
) -> (Seq<char>, Seq<SpanView>)
    decreases cs.len() - pos,
{
    if pos < 0 || pos >= cs.len() || stack.len() == 0 {
        (plain, spans)
    } else {
        let cur = stack.last();
        if cs[pos] == '[' {
            if pos + 1 < cs.len() && cs[pos + 1] == '[' {
                let (p2, s2) = append_view(plain, spans, seq!['['], cur);
                markup_from(cs, pos + 2, p2, s2, stack)
            } else {
                match find_from(cs, pos, ']') {
                    None => {
                        let (p2, s2) = append_view(plain, spans, seq!['['], cur);
                        markup_from(cs, pos + 1, p2, s2, stack)
                    },
                    Some(e) => if pos < e < cs.len() {
                        let tag_str = cs.subrange(pos + 1, e);
                        if tag_str.len() == 0 {
                            markup_from(cs, e + 1, plain, spans, stack)
                        } else {
                            let (name, params) = parse_tag_spec(tag_str);
                            if is_closing_name(name) {
                                let closing = name.skip(1);
                                if closing.len() == 0 {
                                    markup_from(cs, e + 1, plain, spans, stack.take(1))
                                } else {
                                    markup_from(
                                        cs,
                                        e + 1,
                                        plain,
                                        spans,
                                        if stack.len() > 1 {
                                            stack.drop_last()
                                        } else {
                                            stack
                                        },
                                    )
                                }
                            } else {
                                markup_from(
                                    cs,
                                    e + 1,
                                    plain,
                                    spans,
                                    stack.push(combine_view(cur, tag_style_spec(name, params))),
                                )
                            }
                        }
                    } else {
                        (plain, spans)
                    },
                }
            }
        } else {
            let e = chunk_end(cs, pos);
            if pos < e <= cs.len() {
                let (p2, s2) = append_view(plain, spans, cs.subrange(pos, e), cur);
                markup_from(cs, e, p2, s2, stack)
            } else {
                (plain, spans)
            }
        }
    }
}

/// The text and spans of a markup string.
pub open spec fn markup_spec(cs: Seq<char>) -> (Seq<char>, Seq<SpanView>) {
    markup_from(cs, 0, seq![], seq![], seq![null_view()])
}

/// `s` with each `[` doubled, character by character.
pub open spec fn doubled_brackets(s: Seq<char>) -> Seq<char>
    decreases s.len(),
{
    if s.len() == 0 {
        seq![]
    } else {
        (if s[0] == '[' {
            seq!['[', '[']
        } else {
            seq![s[0]]
        }) + doubled_brackets(s.drop_first())
    }
}

/// How many characters of `s` come before its first `[`.
pub open spec fn before_bracket(s: Seq<char>) -> nat
    decreases s.len(),
{
    if s.len() == 0 || s[0] == '[' {
        0
    } else {
        1 + before_bracket(s.drop_first())
    }
}

proof fn lemma_before_bracket(s: Seq<char>)
    ensures
        before_bracket(s) <= s.len(),
        forall|k: int| 0 <= k < before_bracket(s) ==> s[k] != '[',
        before_bracket(s) < s.len() ==> s[before_bracket(s) as int] == '[',
        doubled_brackets(s) == s.take(before_bracket(s) as int) + doubled_brackets(s.skip(before_bracket(s) as int)),
    decreases s.len(),
{
    if s.len() == 0 || s[0] == '[' {
        assert(s.take(0) =~= Seq::<char>::empty());
        assert(s.skip(0) =~= s);
        assert(doubled_brackets(s) =~= s.take(0) + doubled_brackets(s.skip(0)));
    } else {
        let r = s.drop_first();
        lemma_before_bracket(r);
        let m: int = before_bracket(r) as int;
        assert forall|k: int| 0 <= k < before_bracket(s) implies s[k] != '[' by {
            if k > 0 {
                assert(s[k] == r[k - 1]);
            }
        }
        assert(s.take(m + 1) =~= seq![s[0]] + r.take(m));
        assert(s.skip(m + 1) =~= r.skip(m));
        assert(doubled_brackets(s) =~= seq![s[0]] + doubled_brackets(r));
        assert(doubled_brackets(s) =~= s.take(m + 1) + doubled_brackets(s.skip(m + 1)));
    }
}

/// Escaping doubles each `[`.
proof fn lemma_escape_doubles(s: Seq<char>)
    ensures
        replace_spec(s, "["@, "[["@) == doubled_brackets(s),
    decreases s.len(),
{
    reveal_strlit("[");
    reveal_strlit("[[");
    if s.len() > 0 {
        lemma_escape_doubles(s.skip(1));
        assert(s.skip(1) =~= s.drop_first());
        if s[0] == '[' {
            assert(s.take(1) =~= "["@);
        } else {
            assert(s.take(1) != "["@) by {
                assert(s.take(1)[0] == s[0]);
            }
        }
    }
}

/// No `[` stands in `cs` from `pos` for `m` characters.
proof fn lemma_find_past(cs: Seq<char>, pos: int, m: int, c: char)
    requires
        0 <= pos,
        0 <= m,
        pos + m <= cs.len(),
        forall|k: int| pos <= k < pos + m ==> cs[k] != c,
    ensures
        find_from(cs, pos, c) == find_from(cs, pos + m, c),
    decreases m,
{
    if m > 0 {
        lemma_find_past(cs, pos + 1, m - 1, c);
    }
}

/// Plain text `t` (no `[`) between an opening tag named `n` and its
/// closing tag `[/n]` renders as `t`, styled over its whole length by the
/// tag's style (no span when that style sets nothing).
pub proof fn lemma_tagged_text(n: Seq<char>, t: Seq<char>)
    requires
        n.len() > 0,
        n[0] != '/',
        n[0] != '[',
        forall|k: int| 0 <= k < n.len() ==> n[k] != ']' && n[k] != '=' && n[k] != '(',
        t.len() > 0,
        forall|k: int| 0 <= k < t.len() ==> t[k] != '[',
    ensures
        ({
            let v = combine_view(null_view(), tag_style_spec(n, None));
            markup_spec(seq!['['] + n + seq![']'] + t + seq!['[', '/'] + n + seq![']']) == (t, if v == null_view() {
                Seq::<SpanView>::empty()
            } else {
                seq![(0nat, t.len(), v)]
            })
        }),
{
    let cs = seq!['['] + n + seq![']'] + t + seq!['[', '/'] + n + seq![']'];
    let nl = n.len() as int;
    let a = nl + 2;
    let b = a + t.len();
    assert(cs.len() == b + n.len() + 3);
    assert(cs[0] == '[');
    assert(cs[1] == n[0]);
    assert forall|k: int| 1 <= k < 1 + n.len() implies cs[k] == n[k - 1] by {}
    assert(cs[1 + nl] == ']');
    assert forall|k: int| a <= k < b implies cs[k] == t[k - a] by {}
    assert(cs[b] == '[');
    assert(cs[b + 1] == '/');
    assert forall|k: int| b + 2 <= k < b + 2 + n.len() implies cs[k] == n[k - b - 2] by {}
    assert(cs[b + 2 + n.len()] == ']');
    // the opening tag
    lemma_find_past(cs, 0, nl + 1, ']');
    assert(find_from(cs, 0, ']') == Some(nl + 1));
    assert(cs.subrange(1, nl + 1) =~= n);
    assert(!(exists|i: int| 0 <= i < n.len() && n[i] == '='));
    assert(!(exists|i: int| 0 <= i < n.len() && n[i] == '('));
    assert(parse_tag_spec(n) == (n, None::<Seq<char>>));
    let v = combine_view(null_view(), tag_style_spec(n, None));
    let st = seq![null_view(), v];
    assert(seq![null_view()].push(v) =~= st);
    assert(markup_spec(cs) == markup_from(cs, a, seq![], seq![], st));
    // the text
    lemma_find_past(cs, a, t.len() as int, '[');
    assert(find_from(cs, b, '[') == Some(b));
    assert(chunk_end(cs, a) == b);
    assert(cs.subrange(a, b) =~= t);
    let sp = if v == null_view() {
        Seq::<SpanView>::empty()
    } else {
        seq![(0nat, t.len(), v)]
    };
    assert(append_view(seq![], seq![], t, v) =~= (t, sp));
    assert(markup_from(cs, a, seq![], seq![], st) == markup_from(cs, b, t, sp, st));
    // the closing tag
    lemma_find_past(cs, b, nl + 2, ']');
    assert(find_from(cs, b, ']') == Some(b + 2 + nl));
    let close = cs.subrange(b + 1, b + 2 + nl);
    assert(close =~= seq!['/'] + n);
    assert(parse_tag_spec(close) == (close, None::<Seq<char>>));
    assert(close.skip(1) =~= n);
    assert(st.drop_last() =~= seq![null_view()]);
    assert(markup_from(cs, b, t, sp, st) == markup_from(cs, b + 3 + nl, t, sp, seq![null_view()]));
}

/// Plain text (no `[`) in `[bold]` … `[/bold]` renders as that text, bold
/// over its whole length and with nothing else set.
pub proof fn lemma_bold_markup(t: Seq<char>)
    requires
        t.len() > 0,
        forall|k: int| 0 <= k < t.len() ==> t[k] != '[',
    ensures
        markup_spec("[bold]"@ + t + "[/bold]"@) == (t, seq![
            (
                0nat,
                t.len(),
                (
                    None::<ColorValue>,
                    None::<ColorValue>,
                    crate::style::Attributes { bold: Some(true), ..empty_style().attributes },
                    None::<Seq<char>>,
                ),
            ),
        ]),
{
    reveal_strlit("[bold]");
    reveal_strlit("[/bold]");
    reveal_strlit("bold");
    let n = "bold"@;
    assert("[bold]"@ =~= seq!['['] + n + seq![']']);
    assert("[/bold]"@ =~= seq!['[', '/'] + n + seq![']']);
    assert("[bold]"@ + t + "[/bold]"@ =~= seq!['['] + n + seq![']'] + t + seq!['[', '/'] + n + seq![']']);
    let x = (
        None::<ColorValue>,
        None::<ColorValue>,
        crate::style::Attributes { bold: Some(true), ..empty_style().attributes },
        None::<Seq<char>>,
    );
    assert(tag_style_spec(n, None) == x) by {
        lemma_attribute_tag_styles(None);
    }
    assert(combine_view(null_view(), x) == x);
    assert(x != null_view());
    assert(n[0] == 'b' && n[1] == 'o' && n[2] == 'l' && n[3] == 'd');
    lemma_tagged_text(n, t);
}

proof fn lemma_markup_of_doubled(cs: Seq<char>, pos: int, t: Seq<char>, plain: Seq<char>, spans: Seq<SpanView>)
    requires
        0 <= pos <= cs.len(),
        cs.skip(pos) == doubled_brackets(t),
    ensures
        markup_from(cs, pos, plain, spans, seq![null_view()]).0 == plain + t,
    decreases t.len(),
{
    if t.len() == 0 {
        assert(cs.skip(pos).len() == 0);
        assert(plain + t =~= plain);
    } else if t[0] == '[' {
        assert(doubled_brackets(t) == seq!['[', '['] + doubled_brackets(t.drop_first()));
        assert(cs[pos] == cs.skip(pos)[0]);
        assert(cs[pos + 1] == cs.skip(pos)[1]);
        assert(cs.skip(pos + 2) =~= cs.skip(pos).skip(2));
        assert(cs.skip(pos).skip(2) =~= doubled_brackets(t.drop_first()));
        lemma_markup_of_doubled(cs, pos + 2, t.drop_first(), plain + seq!['['], append_view(plain, spans, seq!['['], null_view()).1);
        assert(plain + seq!['['] + t.drop_first() =~= plain + t);
    } else {
        lemma_before_bracket(t);
        let m = before_bracket(t) as int;
        let d = doubled_brackets(t);
        assert(d == t.take(m) + doubled_brackets(t.skip(m)));
        assert(m >= 1);
        assert forall|k: int| pos <= k < pos + m implies cs[k] != '[' by {
            assert(cs[k] == cs.skip(pos)[k - pos]);
            assert(d[k - pos] == t.take(m)[k - pos]);
        }
        assert(cs.skip(pos).len() == d.len());
        lemma_find_past(cs, pos, m, '[');
        let rest = t.skip(m);
        assert(cs.skip(pos + m) =~= cs.skip(pos).skip(m));
        assert(cs.skip(pos).skip(m) =~= doubled_brackets(rest));
        if m < t.len() {
            assert(rest[0] == '[');
            assert(doubled_brackets(rest) == seq!['[', '['] + doubled_brackets(rest.drop_first()));
            assert(cs[pos + m] == cs.skip(pos + m)[0]);
            assert(find_from(cs, pos + m, '[') == Some(pos + m));
        } else {
            assert(rest.len() == 0);
            assert(pos + m == cs.len());
        }
        assert(chunk_end(cs, pos) == pos + m);
        assert(cs[pos] == cs.skip(pos)[0]);
        assert(cs.subrange(pos, pos + m) =~= t.take(m));
        lemma_markup_of_doubled(cs, pos + m, rest, plain + t.take(m), append_view(plain, spans, t.take(m), null_view()).1);
        assert(plain + t.take(m) + rest =~= plain + t);
    }
}

/// Escaped markup renders back to the text: no tag is read from it.
pub proof fn lemma_escape_renders_back(s: Seq<char>)
    ensures
        markup_spec(replace_spec(s, "["@, "[["@)).0 == s,
{
    lemma_escape_doubles(s);
    let cs = doubled_brackets(s);
    assert(cs.skip(0) =~= cs);
    lemma_markup_of_doubled(cs, 0, s, seq![], seq![]);
    assert(Seq::<char>::empty() + s =~= s);
}

proof fn lemma_combine_view(a: Style, b: Style)
    ensures
        style_view(combine_spec(a, b)) == combine_view(style_view(a), style_view(b)),
{
}

/// The index of the first `c` at or after `pos`.
fn find_char_from(v: &Vec<char>, pos: usize, c: char) -> (r: Option<usize>)
    requires
        pos <= v.len(),
    ensures
        r matches Some(e) ==> find_from(v@, pos as int, c) == Some(e as int),
        r is None ==> find_from(v@, pos as int, c) is None,
        r matches Some(e) ==> pos <= e < v.len() && v@[e as int] == c,
{
    proof {
        lemma_find_from_bounds(v@, pos as int, c);
    }
    let mut i = pos;
    while i < v.len()
        invariant
            pos <= i <= v.len(),
            find_from(v@, i as int, c) == find_from(v@, pos as int, c),
        decreases v.len() - i,
    {
        if v[i] == c {
            return Some(i);
        }
        i = i + 1;
    }
    None
}

/// Appends `chunk` to `text` in the current style of `stack`.
fn append_current(text: &mut Text, chunk: &str, stack: &StyleStack)
    requires
        stack.wf(),
    ensures
        final(text).plain@ == old(text).plain@ + chunk@,
        final(text).style == old(text).style,
        spans_view(final(text).spans@) == append_view(
            old(text).plain@,
            spans_view(old(text).spans@),
            chunk@,
            style_view(stack.styles().last()),
        ).1,
{
    let cur = stack.current();
    let ghost before = text.spans@;
    text.append_styled(chunk, cur);
    proof {
        if !(cur.is_null_spec() || chunk@.len() == 0) {
            assert(text.spans@ =~= before.push(text.spans@.last()));
            assert(spans_view(text.spans@) =~= spans_view(before).push(
                (old(text).plain@.len(), old(text).plain@.len() + chunk@.len(), style_view(cur)),
            ));
        } else {
            assert(style_view(cur) == null_view() || chunk@.len() == 0);
        }
    }
}

/// Parses markup into styled text: `[style]` opens a style (combined with
/// the ones open), `[/name]` closes the last one, `[/]` closes all, `[[` is
/// a literal `[`, and a `[` with no closing `]` is literal too.
pub fn render(markup: &str) -> (t: Text)
    ensures
        (t.plain@, spans_view(t.spans@)) == markup_spec(markup@),
        t.style == crate::style::empty_style(),
{
    let v = chars_of(markup);
    let n = v.len();
    let mut text = Text::new("");
    let mut stack = StyleStack::new(Style::new());
    let mut pos: usize = 0;
    proof {
        reveal_strlit("");
        assert(text.plain@ =~= Seq::<char>::empty());
        assert(spans_view(text.spans@) =~= Seq::<SpanView>::empty());
        assert(stack_view(stack.styles()) =~= seq![null_view()]);
    }
    while pos < n
        invariant
            v@ == markup@,
            n == v.len(),
            pos <= n,
            stack.wf(),
            text.style == crate::style::empty_style(),
            markup_from(v@, pos as int, text.plain@, spans_view(text.spans@), stack_view(stack.styles()))
                == markup_spec(markup@),
        decreases n - pos,
    {
        let ghost sv = stack_view(stack.styles());
        let ghost plain0 = text.plain@;
        let ghost spans0 = spans_view(text.spans@);
        let ghost pos0 = pos as int;
        proof {
            reveal_strlit("[");
            assert("["@ =~= seq!['[']);
        }
        assert(sv.last() == style_view(stack.styles().last()));
        if v[pos] == '[' {
            if pos + 1 < n && v[pos + 1] == '[' {
                append_current(&mut text, "[", &stack);
                pos = pos + 2;
                assert((text.plain@, spans_view(text.spans@)) == append_view(plain0, spans0, seq!['['], sv.last()));
            } else {
                match find_char_from(&v, pos, ']') {
                    None => {
                        append_current(&mut text, "[", &stack);
                        pos = pos + 1;
                        assert((text.plain@, spans_view(text.spans@)) == append_view(plain0, spans0, seq!['['], sv.last()));
                    },
                    Some(e) => {
                        assert(e != pos);
                        let tag_str = sub_string(&v, pos + 1, e);
                        pos = e + 1;
                        assert(find_from(v@, pos0, ']') == Some(e as int));
                        if tag_str.as_str().unicode_len() > 0 {
                            let tag = parse_tag(tag_str.as_str());
                            if tag.is_closing() {
                                let closing = tag.closing_name();
                                if closing.as_str().unicode_len() == 0 {
                                    let ghost base = stack.styles().take(1);
                                    while stack.len() > 0
                                        invariant
                                            stack.wf(),
                                            stack.styles().take(1) == base,
                                        decreases stack.styles().len(),
                                    {
                                        let ghost st0 = stack.styles();
                                        stack.pop();
                                        assert(stack.styles().take(1) =~= st0.take(1));
                                    }
                                    assert(stack.styles() =~= base);
                                    assert(stack_view(stack.styles()) =~= sv.take(1));
                                } else {
                                    let ghost st0 = stack.styles();
                                    stack.pop();
                                    assert(stack_view(stack.styles()) =~= (if sv.len() > 1 {
                                        sv.drop_last()
                                    } else {
                                        sv
                                    }));
                                }
                            } else {
                                let st = tag_to_style(&tag);
                                let ghost top = stack.styles().last();
                                let ghost st0 = stack.styles();
                                stack.push(st);
                                proof {
                                    lemma_combine_view(top, st);
                                }
                                assert(stack_view(stack.styles()) =~= sv.push(
                                    combine_view(sv.last(), style_view(st)),
                                ));
                            }
                        }
                    },
                }
            }
        } else {
            let e = match find_char_from(&v, pos, '[') {
                Some(e) => e,
                None => n,
            };
            assert(e > pos) by {
                if e == pos {
                    assert(v@[pos as int] == '[');
                }
            }
            assert(e as int == chunk_end(v@, pos as int));
            let chunk = sub_string(&v, pos, e);
            append_current(&mut text, chunk.as_str(), &stack);
            pos = e;
            assert((text.plain@, spans_view(text.spans@)) == append_view(plain0, spans0, v@.subrange(pos0, e as int), sv.last()));
        }
    }
    text
}

} // verus!
