//! JSON values drawn with one entry per line, indented, each kind of token
//! in its theme style.

use vstd::prelude::*;
use crate::console::{ConsoleOptions, RenderResult, Renderable};
use crate::strutil::{chars_of, owned, push_char, push_spaces, push_str, spaces};
use crate::style::{Style, reset_seq, sgr_codes, sgr_of};
use crate::text::{plain_lines, str_lines};
use crate::theme::{Theme, default_theme, lookup};

verus! {

#[verifier::external_type_specification]
#[verifier::external_body]
pub struct ExSerdeJsonValue(serde_json::Value);

/// A JSON value. A number is held as the text it is written as.
#[derive(Debug)]
pub enum JsonValue {
    /// `null`.
    Null,
    /// `true` or `false`.
    Bool(bool),
    /// A number, as written.
    Number(String),
    /// A string.
    String(String),
    /// An array.
    Array(Vec<JsonValue>),
    /// An object: its keys and values, in order.
    Object(Vec<(String, JsonValue)>),
}

/// The lowercase hexadecimal digit of `d`.
pub open spec fn hex_digit(d: nat) -> char {
    if d == 0 { '0' } else if d == 1 { '1' } else if d == 2 { '2' } else if d == 3 { '3' }
    else if d == 4 { '4' } else if d == 5 { '5' } else if d == 6 { '6' } else if d == 7 { '7' }
    else if d == 8 { '8' } else if d == 9 { '9' } else if d == 10 { 'a' } else if d == 11 { 'b' }
    else if d == 12 { 'c' } else if d == 13 { 'd' } else if d == 14 { 'e' } else { 'f' }
}

/// `n` in lowercase hexadecimal, without leading zeros.
pub open spec fn hex_chars(n: nat) -> Seq<char>
    decreases n,
{
    if n < 16 {
        seq![hex_digit(n)]
    } else {
        hex_chars(n / 16).push(hex_digit(n % 16))
    }
}

/// A character as `char::escape_default` writes it: `\t`, `\r`, `\n`,
/// a backslash before `\`, `'` and `"`, printable ASCII as it is, and
/// anything else as `\u{…}` with its code in hexadecimal.
pub open spec fn escape_char(c: char) -> Seq<char> {
    if c == '\t' {
        seq!['\\', 't']
    } else if c == '\r' {
        seq!['\\', 'r']
    } else if c == '\n' {
        seq!['\\', 'n']
    } else if c == '\\' || c == '\'' || c == '"' {
        seq!['\\', c]
    } else if 0x20 <= (c as nat) <= 0x7e {
        seq![c]
    } else {
        seq!['\\', 'u', '{'] + hex_chars(c as nat) + seq!['}']
    }
}

/// A text as `str::escape_default` writes it, character by character.
pub open spec fn escape_default_spec(s: Seq<char>) -> Seq<char>
    decreases s.len(),
{
    if s.len() == 0 {
        seq![]
    } else {
        escape_default_spec(s.drop_last()) + escape_char(s.last())
    }
}

/// The styles of the kinds of JSON tokens.
#[derive(Debug, Clone)]
pub struct JsonStyles {
    /// Of `null`.
    pub null: Style,
    /// Of `true` and `false`.
    pub boolean: Style,
    /// Of numbers.
    pub number: Style,
    /// Of strings.
    pub string: Style,
    /// Of brackets and braces.
    pub brace: Style,
    /// Of object keys.
    pub key: Style,
}

/// The sequence that ends text in style `st`: the reset sequence, or
/// nothing when the style writes no code.
pub open spec fn reset_of(st: Style) -> Seq<char> {
    if sgr_codes(st).len() == 0 {
        seq![]
    } else {
        reset_seq()
    }
}

/// `body` in style `st`.
pub open spec fn in_style(st: Style, body: Seq<char>) -> Seq<char> {
    sgr_of(st) + body + reset_of(st)
}

/// A quoted, escaped string.
pub open spec fn quoted(s: Seq<char>) -> Seq<char> {
    seq!['"'] + escape_default_spec(s) + seq!['"']
}

/// The text of `v` with `pad` before its closing bracket and `ind` more
/// before each of its entries.
pub open spec fn json_text(v: JsonValue, ind: Seq<char>, pad: Seq<char>, st: JsonStyles) -> Seq<char>
    decreases v, 1nat, 0nat,
{
    match v {
        JsonValue::Null => in_style(st.null, seq!['n', 'u', 'l', 'l']),
        JsonValue::Bool(b) => in_style(st.boolean, if b { seq!['t', 'r', 'u', 'e'] } else { seq!['f', 'a', 'l', 's', 'e'] }),
        JsonValue::Number(n) => in_style(st.number, n@),
        JsonValue::String(s) => in_style(st.string, quoted(s@)),
        JsonValue::Array(items) => if items@.len() == 0 {
            seq!['[', ']']
        } else {
            in_style(st.brace, seq!['[']) + array_entries(v, ind, pad + ind, st, 0) + seq!['\n'] + pad
                + in_style(st.brace, seq![']'])
        },
        JsonValue::Object(entries) => if entries@.len() == 0 {
            seq!['{', '}']
        } else {
            in_style(st.brace, seq!['{']) + object_entries(v, ind, pad + ind, st, 0) + seq!['\n'] + pad
                + in_style(st.brace, seq!['}'])
        },
    }
}

/// The entries of array `v` from `i` on, each on a new line after `pad`,
/// all but the last followed by a comma.
pub open spec fn array_entries(v: JsonValue, ind: Seq<char>, pad: Seq<char>, st: JsonStyles, i: nat) -> Seq<char>
    decreases v, 0nat, (match v { JsonValue::Array(items) => items@.len(), _ => 0 }) - i,
{
    match v {
        JsonValue::Array(items) => if i >= items@.len() {
            seq![]
        } else {
            seq!['\n'] + pad + json_text(items@[i as int], ind, pad, st) + (if i + 1 < items@.len() {
                seq![',']
            } else {
                seq![]
            }) + array_entries(v, ind, pad, st, i + 1)
        },
        _ => seq![],
    }
}

/// The entries of object `v` from `i` on: each on a new line after `pad`,
/// its quoted key in the key style, `: ` and its value; all but the last
/// followed by a comma.
pub open spec fn object_entries(v: JsonValue, ind: Seq<char>, pad: Seq<char>, st: JsonStyles, i: nat) -> Seq<char>
    decreases v, 0nat, (match v { JsonValue::Object(entries) => entries@.len(), _ => 0 }) - i,
{
    match v {
        JsonValue::Object(entries) => if i >= entries@.len() {
            seq![]
        } else {
            seq!['\n'] + pad + in_style(st.key, quoted(entries@[i as int].0@)) + seq![':', ' '] + json_text(
                entries@[i as int].1,
                ind,
                pad,
                st,
            ) + (if i + 1 < entries@.len() {
                seq![',']
            } else {
                seq![]
            }) + object_entries(v, ind, pad, st, i + 1)
        },
        _ => seq![],
    }
}

/// The hexadecimal digit of `d`.
fn hex_digit_char(d: u32) -> (c: char)
    requires
        d < 16,
    ensures
        c == hex_digit(d as nat),
{
    if d == 0 { '0' } else if d == 1 { '1' } else if d == 2 { '2' } else if d == 3 { '3' }
    else if d == 4 { '4' } else if d == 5 { '5' } else if d == 6 { '6' } else if d == 7 { '7' }
    else if d == 8 { '8' } else if d == 9 { '9' } else if d == 10 { 'a' } else if d == 11 { 'b' }
    else if d == 12 { 'c' } else if d == 13 { 'd' } else if d == 14 { 'e' } else { 'f' }
}

/// Appends `n` in hexadecimal.
fn push_hex(s: &mut String, n: u32)
    ensures
        final(s)@ == old(s)@ + hex_chars(n as nat),
    decreases n,
{
    if n >= 16 {
        push_hex(s, n / 16);
    }
    push_char(s, hex_digit_char(n % 16));
}

/// Appends `c` as `char::escape_default` writes it.
fn push_escaped_char(s: &mut String, c: char)
    ensures
        final(s)@ == old(s)@ + escape_char(c),
{
    let ghost s0 = s@;
    if c == '\t' {
        push_char(s, '\\');
        push_char(s, 't');
    } else if c == '\r' {
        push_char(s, '\\');
        push_char(s, 'r');
    } else if c == '\n' {
        push_char(s, '\\');
        push_char(s, 'n');
    } else if c == '\\' || c == '\'' || c == '"' {
        push_char(s, '\\');
        push_char(s, c);
    } else if 0x20 <= (c as u32) && (c as u32) <= 0x7e {
        push_char(s, c);
    } else {
        push_char(s, '\\');
        push_char(s, 'u');
        push_char(s, '{');
        push_hex(s, c as u32);
        push_char(s, '}');
    }
    assert(s@ =~= s0 + escape_char(c));
}

/// `text` as `str::escape_default` writes it.
pub fn escape_default(text: &str) -> (r: String)
    ensures
        r@ == escape_default_spec(text@),
{
    let cs = chars_of(text);
    let mut r = String::new();
    let mut i: usize = 0;
    while i < cs.len()
        invariant
            i <= cs@.len(),
            cs@ == text@,
            r@ == escape_default_spec(cs@.take(i as int)),
        decreases cs.len() - i,
    {
        push_escaped_char(&mut r, cs[i]);
        i = i + 1;
        assert(cs@.take(i as int).drop_last() =~= cs@.take(i - 1));
    }
    assert(cs@.take(cs@.len() as int) =~= cs@);
    r
}

/// Appends `body` in style `st`.
fn push_in_style(out: &mut String, st: &Style, body: &str)
    ensures
        final(out)@ == old(out)@ + in_style(*st, body@),
{
    let a = st.to_ansi();
    let z = st.reset_ansi();
    push_str(out, a.as_str());
    push_str(out, body);
    push_str(out, z.as_str());
    assert(out@ =~= old(out)@ + in_style(*st, body@));
}

/// Appends the quoted, escaped `s` in style `st`.
fn push_quoted(out: &mut String, st: &Style, s: &str)
    ensures
        final(out)@ == old(out)@ + in_style(*st, quoted(s@)),
{
    let mut q = String::new();
    push_char(&mut q, '"');
    let e = escape_default(s);
    push_str(&mut q, e.as_str());
    push_char(&mut q, '"');
    assert(q@ =~= quoted(s@));
    push_in_style(out, st, q.as_str());
}

/// Appends the text of `v`, with `pad` before its closing bracket and
/// `ind` more before each of its entries.
fn write_json(out: &mut String, v: &JsonValue, ind: &str, pad: &str, st: &JsonStyles)
    ensures
        final(out)@ == old(out)@ + json_text(*v, ind@, pad@, *st),
    decreases v, 1nat,
{
    let ghost o0 = out@;
    match v {
        JsonValue::Null => {
            push_in_style(out, &st.null, "null");
            proof {
                reveal_strlit("null");
            }
            assert(out@ =~= o0 + json_text(*v, ind@, pad@, *st));
        },
        JsonValue::Bool(b) => {
            if *b {
                push_in_style(out, &st.boolean, "true");
                proof {
                    reveal_strlit("true");
                }
            } else {
                push_in_style(out, &st.boolean, "false");
                proof {
                    reveal_strlit("false");
                }
            }
        },
        JsonValue::Number(n) => {
            push_in_style(out, &st.number, n.as_str());
        },
        JsonValue::String(s) => {
            push_quoted(out, &st.string, s.as_str());
        },
        JsonValue::Array(items) => {
            write_array(out, v, items, ind, pad, st);
        },
        JsonValue::Object(entries) => {
            write_object(out, v, entries, ind, pad, st);
        },
    }
}

/// Appends the text of array `v`, whose items are `items`.
fn write_array(out: &mut String, v: &JsonValue, items: &Vec<JsonValue>, ind: &str, pad: &str, st: &JsonStyles)
    requires
        *v == JsonValue::Array(*items),
    ensures
        final(out)@ == old(out)@ + json_text(*v, ind@, pad@, *st),
    decreases v, 0nat,
{
    let ghost o0 = out@;
    if items.len() == 0 {
        push_char(out, '[');
        push_char(out, ']');
        assert(out@ =~= o0 + json_text(*v, ind@, pad@, *st));
        return;
    }
    push_in_style(out, &st.brace, "[");
    proof {
        reveal_strlit("[");
        reveal_strlit("]");
    }
    let mut inner = owned(pad);
    push_str(&mut inner, ind);
    let ghost o1 = out@;
    let n = items.len();
    let mut i: usize = 0;
    while i < n
        invariant
            n == items@.len(),
            i <= n,
            inner@ == pad@ + ind@,
            out@ + array_entries(*v, ind@, inner@, *st, i as nat) == o1 + array_entries(*v, ind@, inner@, *st, 0),
            *v == JsonValue::Array(*items),
        decreases n - i,
    {
        let ghost before = out@;
        push_char(out, '\n');
        push_str(out, inner.as_str());
        proof {
            vstd::std_specs::vec::axiom_vec_index_decreases(*items, i as int);
            assert(decreases_to!(*v => *items));
        }
        write_json(out, &items[i], ind, inner.as_str(), st);
        if i + 1 < n {
            push_char(out, ',');
        }
        assert(out@ =~= before + (seq!['\n'] + inner@ + json_text(items@[i as int], ind@, inner@, *st) + (if i + 1
            < items@.len() { seq![','] } else { seq![] })));
        i = i + 1;
    }
    push_char(out, '\n');
    push_str(out, pad);
    push_in_style(out, &st.brace, "]");
    assert(out@ =~= o0 + json_text(*v, ind@, pad@, *st));
}

/// Appends the text of object `v`, whose entries are `entries`.
fn write_object(out: &mut String, v: &JsonValue, entries: &Vec<(String, JsonValue)>, ind: &str, pad: &str, st: &JsonStyles)
    requires
        *v == JsonValue::Object(*entries),
    ensures
        final(out)@ == old(out)@ + json_text(*v, ind@, pad@, *st),
    decreases v, 0nat,
{
    let ghost o0 = out@;
    if entries.len() == 0 {
        push_char(out, '{');
        push_char(out, '}');
        assert(out@ =~= o0 + json_text(*v, ind@, pad@, *st));
        return;
    }
    push_in_style(out, &st.brace, "{");
    proof {
        reveal_strlit("{");
        reveal_strlit("}");
    }
    let mut inner = owned(pad);
    push_str(&mut inner, ind);
    let ghost o1 = out@;
    let n = entries.len();
    let mut i: usize = 0;
    while i < n
        invariant
            n == entries@.len(),
            i <= n,
            inner@ == pad@ + ind@,
            out@ + object_entries(*v, ind@, inner@, *st, i as nat) == o1 + object_entries(*v, ind@, inner@, *st, 0),
            *v == JsonValue::Object(*entries),
        decreases n - i,
    {
        let ghost before = out@;
        push_char(out, '\n');
        push_str(out, inner.as_str());
        push_quoted(out, &st.key, entries[i].0.as_str());
        push_char(out, ':');
        push_char(out, ' ');
        proof {
            vstd::std_specs::vec::axiom_vec_index_decreases(*entries, i as int);
            assert(decreases_to!(*v => *entries));
        }
        write_json(out, &entries[i].1, ind, inner.as_str(), st);
        if i + 1 < n {
            push_char(out, ',');
        }
        assert(out@ =~= before + (seq!['\n'] + inner@ + in_style(st.key, quoted(entries@[i as int].0@)) + seq![
            ':',
            ' ',
        ] + json_text(entries@[i as int].1, ind@, inner@, *st) + (if i + 1 < entries@.len() {
            seq![',']
        } else {
            seq![]
        })));
        i = i + 1;
    }
    push_char(out, '\n');
    push_str(out, pad);
    push_in_style(out, &st.brace, "}");
    assert(out@ =~= o0 + json_text(*v, ind@, pad@, *st));
}

/// `pad` repeated `level` times.
pub open spec fn repeat_seq(pad: Seq<char>, level: nat) -> Seq<char>
    decreases level,
{
    if level == 0 {
        seq![]
    } else {
        repeat_seq(pad, (level - 1) as nat) + pad
    }
}

/// The text of `value` nested `level` deep, indented `indent` spaces a
/// level, its tokens in `styles`.
pub fn format_json_value(value: &JsonValue, indent: usize, level: usize, styles: &JsonStyles) -> (r: String)
    ensures
        r@ == json_text(*value, spaces(indent as nat), repeat_seq(spaces(indent as nat), level as nat), *styles),
{
    let mut ind = String::new();
    push_spaces(&mut ind, indent);
    let mut pad = String::new();
    let mut k: usize = 0;
    while k < level
        invariant
            k <= level,
            ind@ == spaces(indent as nat),
            pad@ == repeat_seq(spaces(indent as nat), k as nat),
        decreases level - k,
    {
        push_str(&mut pad, ind.as_str());
        k = k + 1;
    }
    let mut out = String::new();
    write_json(&mut out, value, ind.as_str(), pad.as_str(), styles);
    assert(out@ =~= json_text(*value, spaces(indent as nat), repeat_seq(spaces(indent as nat), level as nat), *styles));
    out
}

/// The style found, or no style.
pub open spec fn style_or_empty(s: Option<Style>) -> Style {
    match s {
        Some(st) => st,
        None => crate::style::empty_style(),
    }
}

/// A JSON value to draw, with its indentation and theme.
#[derive(Debug)]
pub struct JsonRender {
    /// The value.
    pub value: JsonValue,
    /// Spaces per level.
    pub indent: usize,
    /// The theme its styles come from; the default theme when none.
    pub theme: Option<Theme>,
}

/// A drawing of `value`, indented two spaces a level, in the default theme.
pub fn render_json(value: JsonValue) -> (r: JsonRender)
    ensures
        r.value == value,
        r.indent == 2,
        r.theme is None,
{
    JsonRender { value, indent: 2, theme: None }
}

/// The names of the theme styles of JSON tokens, in the order of the
/// fields of `JsonStyles`.
pub open spec fn json_style_names() -> Seq<Seq<char>> {
    seq!["json.null"@, "json.bool"@, "json.number"@, "json.str"@, "json.brace"@, "json.key"@]
}

/// Whether `st` holds, for each kind of token, the style `f` gives its name.
pub open spec fn styles_from(st: JsonStyles, f: spec_fn(Seq<char>) -> Style) -> bool {
    &&& st.null == f("json.null"@)
    &&& st.boolean == f("json.bool"@)
    &&& st.number == f("json.number"@)
    &&& st.string == f("json.str"@)
    &&& st.brace == f("json.brace"@)
    &&& st.key == f("json.key"@)
}

impl JsonRender {
    /// The drawing indented `n` spaces a level.
    pub fn indent(self, n: usize) -> (r: Self)
        ensures
            r.indent == n,
            r.value == self.value,
            r.theme == self.theme,
    {
        JsonRender { indent: n, ..self }
    }

    /// The drawing in theme `t`.
    pub fn theme(self, t: Theme) -> (r: Self)
        ensures
            r.theme == Some(t),
            r.value == self.value,
            r.indent == self.indent,
    {
        JsonRender { theme: Some(t), ..self }
    }

    /// The style called `name` in the drawing's theme (the default theme
    /// when it has none), or no style.
    pub fn style_for(&self, name: &str) -> (r: Style)
        ensures
            self.theme matches Some(t) ==> r == style_or_empty(lookup(t.styles@, name@)),
            self.theme is None ==> exists|e: Seq<(String, Style)>|
                #![trigger lookup(e, name@)]
                crate::theme::default_entries(e) && r == style_or_empty(lookup(e, name@)),
    {
        match &self.theme {
            Some(t) => match t.get(name) {
                Some(st) => st,
                None => Style::new(),
            },
            None => {
                let t = default_theme();
                match t.get(name) {
                    Some(st) => st,
                    None => Style::new(),
                }
            },
        }
    }

    /// The styles of the kinds of tokens, from the theme.
    pub fn styles(&self) -> (st: JsonStyles)
        ensures
            self.theme matches Some(t) ==> styles_from(st, |n: Seq<char>| style_or_empty(lookup(t.styles@, n))),
    {
        proof {
            reveal_strlit("json.null");
            reveal_strlit("json.bool");
            reveal_strlit("json.number");
            reveal_strlit("json.str");
            reveal_strlit("json.brace");
            reveal_strlit("json.key");
        }
        JsonStyles {
            null: self.style_for("json.null"),
            boolean: self.style_for("json.bool"),
            number: self.style_for("json.number"),
            string: self.style_for("json.str"),
            brace: self.style_for("json.brace"),
            key: self.style_for("json.key"),
        }
    }

    /// The lines of the drawing: the value's text split into lines, each
    /// one plain segment.
    pub fn render_lines(&self) -> (lines: Vec<Vec<crate::segment::Segment>>)
        ensures
            exists|st: JsonStyles|
                #![trigger json_text(self.value, spaces(self.indent as nat), seq![], st)]
                (self.theme matches Some(t) ==> styles_from(st, |n: Seq<char>| style_or_empty(lookup(t.styles@, n))))
                    && plain_lines(lines@, crate::strutil::lines_spec(json_text(self.value, spaces(self.indent as nat), seq![], st))),
    {
        let st = self.styles();
        let text = format_json_value(&self.value, self.indent, 0, &st);
        assert(repeat_seq(spaces(self.indent as nat), 0) =~= Seq::<char>::empty());
        str_lines(text.as_str())
    }
}

/// Whether `lines` are the drawing of `r`: its value's text, in the
/// styles of its theme, split into lines of one plain segment each.
pub open spec fn json_lines_ok(r: JsonRender, lines: Seq<Vec<crate::segment::Segment>>) -> bool {
    exists|st: JsonStyles|
        #![trigger json_text(r.value, spaces(r.indent as nat), seq![], st)]
        (r.theme matches Some(t) ==> styles_from(st, |n: Seq<char>| style_or_empty(lookup(t.styles@, n))))
            && plain_lines(lines, crate::strutil::lines_spec(json_text(r.value, spaces(r.indent as nat), seq![], st)))
}

impl Renderable for JsonRender {
    fn measure(&self, options: &ConsoleOptions) -> Option<crate::measure::Measurement> {
        None
    }

    open spec fn renders(&self, options: ConsoleOptions, r: RenderResult) -> bool {
        &&& r.items@.len() == 0
        &&& json_lines_ok(*self, r.lines@)
    }

    fn render(&self, options: &ConsoleOptions) -> (r: RenderResult) {
        RenderResult::from_lines(self.render_lines())
    }
}

/// The value `serde_json` reads from JSON text `text`, if it is valid
/// JSON.
pub uninterp spec fn json_parse(text: Seq<char>) -> Option<JsonValue>;

/// The library's value for a `serde_json` value: numbers as
/// `serde_json` writes them, object entries in the map's order.
#[verifier::external_body]
fn json_value(value: &serde_json::Value) -> JsonValue {
    match value {
        serde_json::Value::Null => JsonValue::Null,
        serde_json::Value::Bool(b) => JsonValue::Bool(*b),
        serde_json::Value::Number(n) => JsonValue::Number(n.to_string()),
        serde_json::Value::String(s) => JsonValue::String(s.clone()),
        serde_json::Value::Array(items) => JsonValue::Array(items.iter().map(json_value).collect()),
        serde_json::Value::Object(map) => JsonValue::Object(map.iter().map(|(k, v)| (k.clone(), json_value(v))).collect()),
    }
}

/// `serde_json::from_str` reading `text` as a JSON value: the value, or
/// none when the text is not valid JSON.
#[verifier::external_body]
pub(crate) fn parse_json_text(text: &str) -> (r: Option<JsonValue>)
    ensures
        r == json_parse(text@),
{
    serde_json::from_str::<serde_json::Value>(text).ok().map(|v| json_value(&v))
}

} // verus!
