//! A panel that shows a value: its representation, its documentation, and
//! tables of its attributes and methods.

use vstd::prelude::*;
use crate::color::{Color, ColorValue, named_color, named_color_spec};
use crate::console::{ConsoleOptions, RenderResult, Renderable};
use crate::panel::{Panel, plain, newline, SegLine, lines_views, panel_drawn, safe_box_is};
use crate::box_drawing::BoxStyle;
use crate::columns::seg_views;
use crate::segment::Segment;
use crate::align::AlignMethod;
use crate::strutil::{chars_of, join_strings, join_with, lines_spec, owned, push_str, split_lines, to_lowercase, unicode_lowercase, views};
use crate::style::{Style, empty_style, render_spec, Attributes};
use crate::table::{Cell, Column, Table, table_texts};

verus! {

/// What an inspection shows of a value.
#[derive(Debug)]
pub struct Inspect {
    /// The representation of the value.
    pub value_repr: String,
    /// The title; "Object" when there is none.
    pub title: Option<String>,
    /// Whether everything is shown in detail.
    pub help: bool,
    /// Whether the methods are shown.
    pub methods: bool,
    /// Whether documentation is shown.
    pub docs: bool,
    /// Whether attributes whose names start with `_` are shown.
    pub private: bool,
    /// Whether attributes named `__...__` are shown.
    pub dunder: bool,
    /// Whether attributes are sorted by name.
    pub sort: bool,
    /// Whether every attribute is shown, whatever its name.
    pub all: bool,
    /// Whether the value is shown.
    pub value: bool,
    /// Attributes: name, type, value and documentation.
    pub attrs: Vec<(String, String, String, Option<String>)>,
    /// Methods: name, signature and documentation.
    pub method_list: Vec<(String, String, Option<String>)>,
    /// Documentation of the value itself.
    pub doc_text: Option<String>,
}

/// The `Debug` representation of a value.
#[verifier::external_body]
fn debug_repr(value: &dyn std::fmt::Debug) -> (s: String) {
    format!("{value:?}")
}

/// Whether `name` starts and ends with two underscores.
pub open spec fn is_dunder(name: Seq<char>) -> bool {
    name.len() >= 2 && name[0] == '_' && name[1] == '_' && name[name.len() - 1] == '_' && name[name.len()
        - 2] == '_'
}

/// Whether an attribute named `name` is shown.
pub open spec fn visible_spec(i: Inspect, name: Seq<char>) -> bool {
    if i.all {
        true
    } else if is_dunder(name) {
        i.dunder
    } else if name.len() > 0 && name[0] == '_' {
        i.private
    } else {
        true
    }
}

/// `s` without its leading copies of `c`.
pub open spec fn trim_leading(s: Seq<char>, c: char) -> Seq<char>
    decreases s.len(),
{
    if s.len() > 0 && s[0] == c {
        trim_leading(s.skip(1), c)
    } else {
        s
    }
}

/// The key attributes are sorted by: the name without leading underscores,
/// in lower case.
pub open spec fn sort_key(name: Seq<char>) -> Seq<char> {
    unicode_lowercase(trim_leading(name, '_'))
}

/// Whether `a` comes no later than `b` in the order of their characters.
pub open spec fn lex_le(a: Seq<char>, b: Seq<char>) -> bool
    decreases a.len(),
{
    if a.len() == 0 {
        true
    } else if b.len() == 0 {
        false
    } else if a[0] < b[0] {
        true
    } else if a[0] > b[0] {
        false
    } else {
        lex_le(a.skip(1), b.skip(1))
    }
}

/// Either of two sequences comes no later than the other.
pub proof fn lemma_lex_total(a: Seq<char>, b: Seq<char>)
    ensures
        lex_le(a, b) || lex_le(b, a),
    decreases a.len(),
{
    if a.len() > 0 && b.len() > 0 && a[0] == b[0] {
        lemma_lex_total(a.skip(1), b.skip(1));
    }
}

/// The order of sequences is transitive.
pub proof fn lemma_lex_trans(a: Seq<char>, b: Seq<char>, c: Seq<char>)
    requires
        lex_le(a, b),
        lex_le(b, c),
    ensures
        lex_le(a, c),
    decreases a.len(),
{
    if a.len() > 0 && b.len() > 0 && c.len() > 0 && a[0] == b[0] && b[0] == c[0] {
        lemma_lex_trans(a.skip(1), b.skip(1), c.skip(1));
    }
}

/// Whether `a` comes no later than `b`.
fn lex_le_exec(a: &Vec<char>, b: &Vec<char>) -> (r: bool)
    ensures
        r == lex_le(a@, b@),
{
    let mut i: usize = 0;
    assert(a@.skip(0) =~= a@);
    assert(b@.skip(0) =~= b@);
    while i < a.len() && i < b.len()
        invariant
            i <= a@.len(),
            i <= b@.len(),
            lex_le(a@, b@) == lex_le(a@.skip(i as int), b@.skip(i as int)),
            forall|k: int| 0 <= k < i ==> a@[k] == b@[k],
        decreases a.len() - i,
    {
        let x = a[i];
        let y = b[i];
        if x < y {
            return true;
        }
        if x > y {
            return false;
        }
        assert(a@.skip(i as int).skip(1) =~= a@.skip(i + 1));
        assert(b@.skip(i as int).skip(1) =~= b@.skip(i + 1));
        i = i + 1;
    }
    i == a.len()
}

/// Whether the indices in `order` are sorted by the keys, items of equal
/// keys keeping their order.
pub open spec fn sorted_stable(keys: Seq<Seq<char>>, order: Seq<usize>) -> bool {
    &&& forall|p: int, q: int|
        0 <= p < q < order.len() ==> lex_le(keys[order[p] as int], keys[order[q] as int])
    &&& forall|p: int, q: int|
        0 <= p < q < order.len() && lex_le(keys[order[q] as int], keys[order[p] as int]) ==> order[p]
            < order[q]
}

/// Whether `order` holds each of `items` exactly once.
pub open spec fn same_items(order: Seq<usize>, items: Seq<usize>) -> bool {
    &&& order.len() == items.len()
    &&& forall|p: int| 0 <= p < order.len() ==> items.contains(#[trigger] order[p])
    &&& forall|p: int, q: int| 0 <= p < q < order.len() ==> order[p] != order[q]
}

/// `items` sorted stably by their keys: a stable insertion sort.
pub fn stable_sort(keys: &Vec<Vec<char>>, items: &Vec<usize>) -> (order: Vec<usize>)
    requires
        forall|p: int| 0 <= p < items@.len() ==> (#[trigger] items@[p] as int) < keys@.len(),
        forall|p: int, q: int| 0 <= p < q < items@.len() ==> items@[p] < items@[q],
    ensures
        same_items(order@, items@),
        sorted_stable(keys@.map_values(|k: Vec<char>| k@), order@),
{
    let ghost ks = keys@.map_values(|k: Vec<char>| k@);
    let mut order: Vec<usize> = Vec::new();
    let mut i: usize = 0;
    while i < items.len()
        invariant
            i <= items@.len(),
            ks == keys@.map_values(|k: Vec<char>| k@),
            forall|p: int| 0 <= p < items@.len() ==> (#[trigger] items@[p] as int) < keys@.len(),
            forall|p: int, q: int| 0 <= p < q < items@.len() ==> items@[p] < items@[q],
            same_items(order@, items@.take(i as int)),
            sorted_stable(ks, order@),
        decreases items.len() - i,
    {
        let x = items[i];
        let mut pos: usize = 0;
        while pos < order.len() && lex_le_exec(&keys[order[pos]], &keys[x])
            invariant
                pos <= order@.len(),
                ks == keys@.map_values(|k: Vec<char>| k@),
                x as int == items@[i as int],
                i < items@.len(),
                forall|p: int| 0 <= p < items@.len() ==> (#[trigger] items@[p] as int) < keys@.len(),
                same_items(order@, items@.take(i as int)),
                forall|p: int| 0 <= p < pos ==> lex_le(ks[#[trigger] order@[p] as int], ks[x as int]),
            decreases order.len() - pos,
        {
            proof {
                assert(items@.take(i as int).contains(order@[pos as int]));
            }
            pos = pos + 1;
        }
        let ghost old_order = order@;
        proof {
            assert forall|p: int| 0 <= p < old_order.len() implies (#[trigger] old_order[p]) < x by {
                let k = choose|k: int| 0 <= k < i && items@.take(i as int)[k] == old_order[p];
                assert(items@[k] < items@[i as int]);
            }
            if pos < old_order.len() {
                assert(!lex_le(ks[old_order[pos as int] as int], ks[x as int]));
                lemma_lex_total(ks[old_order[pos as int] as int], ks[x as int]);
            }
        }
        order.insert(pos, x);
        proof {
            let o = order@;
            assert(o =~= old_order.take(pos as int).push(x) + old_order.skip(pos as int));
            assert forall|p: int, q: int| 0 <= p < q < o.len() implies lex_le(ks[o[p] as int], ks[o[q] as int]) by {
                if q < pos {
                    assert(o[p] == old_order[p] && o[q] == old_order[q]);
                } else if q == pos {
                    assert(o[p] == old_order[p]);
                } else if p == pos {
                    assert(o[q] == old_order[q - 1]);
                    if q - 1 > pos {
                        lemma_lex_trans(ks[x as int], ks[old_order[pos as int] as int], ks[old_order[q - 1] as int]);
                    }
                } else if p < pos {
                    assert(o[p] == old_order[p] && o[q] == old_order[q - 1]);
                } else {
                    assert(o[p] == old_order[p - 1] && o[q] == old_order[q - 1]);
                }
            }
            assert forall|p: int, q: int|
                0 <= p < q < o.len() && lex_le(ks[o[q] as int], ks[o[p] as int]) implies o[p] < o[q] by {
                if q < pos {
                    assert(o[p] == old_order[p] && o[q] == old_order[q]);
                } else if q == pos {
                    assert(o[p] == old_order[p]);
                } else if p == pos {
                    assert(o[q] == old_order[q - 1]);
                    if q - 1 > pos {
                        lemma_lex_trans(ks[old_order[pos as int] as int], ks[old_order[q - 1] as int], ks[x as int]);
                    }
                } else if p < pos {
                    assert(o[p] == old_order[p] && o[q] == old_order[q - 1]);
                } else {
                    assert(o[p] == old_order[p - 1] && o[q] == old_order[q - 1]);
                }
            }
            let t = items@.take(i + 1);
            assert forall|p: int| 0 <= p < o.len() implies t.contains(#[trigger] o[p]) by {
                if p < pos {
                    assert(o[p] == old_order[p]);
                    let k = choose|k: int| 0 <= k < i && items@.take(i as int)[k] == old_order[p];
                    assert(t[k] == o[p]);
                } else if p == pos {
                    assert(t[i as int] == x);
                } else {
                    assert(o[p] == old_order[p - 1]);
                    let k = choose|k: int| 0 <= k < i && items@.take(i as int)[k] == old_order[p - 1];
                    assert(t[k] == o[p]);
                }
            }
            assert forall|p: int, q: int| 0 <= p < q < o.len() implies o[p] != o[q] by {
                if p < pos && q < pos {
                    assert(o[p] == old_order[p] && o[q] == old_order[q]);
                } else if p < pos && q == pos {
                    assert(o[p] == old_order[p]);
                } else if p < pos {
                    assert(o[p] == old_order[p] && o[q] == old_order[q - 1]);
                } else if p == pos {
                    assert(o[q] == old_order[q - 1]);
                } else {
                    assert(o[p] == old_order[p - 1] && o[q] == old_order[q - 1]);
                }
            }
        }
        i = i + 1;
    }
    assert(items@.take(items@.len() as int) =~= items@);
    order
}

/// The title shown: the given one, or "Object".
pub open spec fn title_spec(i: Inspect) -> Seq<char> {
    match i.title {
        Some(t) => t@,
        None => "Object"@,
    }
}

/// A style with bold set.
pub open spec fn bold_style() -> Style {
    Style { attributes: Attributes { bold: Some(true), ..empty_style().attributes }, ..empty_style() }
}

/// The segments of the lines of documentation: each indented by two
/// spaces in the documentation style, then a newline.
pub open spec fn doc_segs(lines: Seq<Seq<char>>, doc_style: Style) -> SegLine
    decreases lines.len(),
{
    if lines.len() == 0 {
        seq![]
    } else {
        doc_segs(lines.drop_last(), doc_style) + seq![
            (seq![' ', ' '] + lines.last(), Some(doc_style)),
            newline(),
        ]
    }
}

/// The segments shown above the tables: a newline, the title in bold, the
/// value and a newline when the value is shown, and the documentation
/// when it is shown and there is some.
pub open spec fn intro_spec(i: Inspect, doc_style: Style) -> SegLine {
    seq![newline(), plain(render_spec(bold_style(), title_spec(i)))] + (if i.value {
        seq![plain(i.value_repr@), newline()]
    } else {
        seq![]
    }) + (match i.doc_text {
        Some(d) => if i.docs {
            seq![newline()] + doc_segs(lines_spec(d@), doc_style)
        } else {
            seq![]
        },
        None => seq![],
    })
}

/// The styles an inspection is drawn in.
pub struct InspectStyles {
    /// Documentation lines.
    pub doc: Style,
    /// Headers of the attribute table: name, type, value.
    pub attr_heads: (Style, Style, Style),
    /// Attribute names.
    pub name: Style,
    /// Attribute types.
    pub type_text: Style,
    /// Headers of the method table: name, signature.
    pub method_heads: (Style, Style),
    /// Method names.
    pub method_name: Style,
    /// Method signatures.
    pub signature: Style,
    /// The border.
    pub border: Style,
}

/// A style of the color `name`.
fn color_style(name: &str) -> (s: Style)
    ensures
        s.color matches Some(c) && c@ == named_color_spec(name@),
        s.bgcolor is None,
        s.link is None,
        s.attributes == empty_style().attributes,
{
    Style::new().color(named_color(name))
}

/// A bold style of the color `name`.
fn bold_color_style(name: &str) -> (s: Style)
    ensures
        s.color matches Some(c) && c@ == named_color_spec(name@),
        s.bgcolor is None,
        s.link is None,
        s.attributes == bold_style().attributes,
{
    Style::new().bold(true).color(named_color(name))
}

/// The styles of an inspection: bright black italic documentation; bold
/// bright cyan, bright green and bright yellow attribute headers; cyan
/// names and green italic types; bold bright magenta and bright blue method
/// headers; bold magenta method names and italic signatures; a bright blue
/// border.
pub fn inspect_styles() -> (s: InspectStyles)
    ensures
        styles_ok(s),
{
    InspectStyles {
        doc: Style::new().italic(true).color(named_color("bright_black")),
        attr_heads: (
            bold_color_style("bright_cyan"),
            bold_color_style("bright_green"),
            bold_color_style("bright_yellow"),
        ),
        name: color_style("cyan"),
        type_text: Style::new().color(named_color("green")).italic(true),
        method_heads: (bold_color_style("bright_magenta"), bold_color_style("bright_blue")),
        method_name: bold_color_style("magenta"),
        signature: Style::new().italic(true),
        border: color_style("bright_blue"),
    }
}

/// Whether `s` are the styles an inspection is drawn in.
pub open spec fn styles_ok(s: InspectStyles) -> bool {
    &&& (s.doc.color matches Some(c) && c@ == named_color_spec("bright_black"@))
    &&& s.doc.attributes.italic == Some(true)
    &&& (s.attr_heads.0.color matches Some(c) && c@ == named_color_spec("bright_cyan"@))
    &&& (s.attr_heads.1.color matches Some(c) && c@ == named_color_spec("bright_green"@))
    &&& (s.attr_heads.2.color matches Some(c) && c@ == named_color_spec("bright_yellow"@))
    &&& s.attr_heads.0.attributes == bold_style().attributes
    &&& s.attr_heads.1.attributes == bold_style().attributes
    &&& s.attr_heads.2.attributes == bold_style().attributes
    &&& (s.name.color matches Some(c) && c@ == named_color_spec("cyan"@))
    &&& (s.type_text.color matches Some(c) && c@ == named_color_spec("green"@))
    &&& s.type_text.attributes.italic == Some(true)
    &&& (s.method_heads.0.color matches Some(c) && c@ == named_color_spec("bright_magenta"@))
    &&& (s.method_heads.1.color matches Some(c) && c@ == named_color_spec("bright_blue"@))
    &&& (s.method_name.color matches Some(c) && c@ == named_color_spec("magenta"@))
    &&& s.method_name.attributes.bold == Some(true)
    &&& s.signature.attributes.italic == Some(true)
    &&& (s.border.color matches Some(c) && c@ == named_color_spec("bright_blue"@))
}

/// The texts of the cells of a table's rows.
pub open spec fn rows_view(t: Table) -> Seq<Seq<Seq<char>>> {
    t.rows@.map_values(|r: Vec<Cell>| r@.map_values(|c: Cell| c.text@))
}

/// The headers of a table's columns, with their styles.
pub open spec fn heads_view(t: Table) -> Seq<(Seq<char>, Style)> {
    t.columns@.map_values(|c: Column| (c.header@, c.header_style))
}

/// The rows of the attribute table for the attributes at `order`: the
/// name and type in their styles and the value as it is.
pub open spec fn attr_rows_spec(i: Inspect, order: Seq<usize>, st: InspectStyles) -> Seq<Seq<Seq<char>>> {
    Seq::new(
        order.len(),
        |p: int|
            {
                let a = i.attrs@[order[p] as int];
                seq![render_spec(st.name, a.0@), render_spec(st.type_text, a.1@), a.2@]
            },
    )
}

/// The rows of the method table: the name and signature in their styles.
pub open spec fn method_rows_spec(i: Inspect, st: InspectStyles) -> Seq<Seq<Seq<char>>> {
    Seq::new(
        i.method_list@.len(),
        |p: int|
            {
                let m = i.method_list@[p];
                seq![render_spec(st.method_name, m.0@), render_spec(st.signature, m.1@)]
            },
    )
}

/// Whether `t` is a table without edges or row lines, with a header, and
/// with the given columns and rows.
pub open spec fn table_is(t: Table, heads: Seq<(Seq<char>, Style)>, rows: Seq<Seq<Seq<char>>>) -> bool {
    &&& t.show_header
    &&& !t.show_edge
    &&& !t.show_lines
    &&& heads_view(t) == heads
    &&& rows_view(t) == rows
    &&& forall|j: int| 0 <= j < t.columns@.len() ==> (#[trigger] t.columns@[j]).justify == AlignMethod::Left
}

/// Whether `ts` are the tables an inspection `i` shows in styles `st`.
pub open spec fn tables_ok(i: Inspect, st: InspectStyles, ts: Seq<Table>) -> bool {
    &&& ts.len() <= 2
    &&& ({
            let vis = visible_upto(i, i.attrs@.len());
            let nt = if vis.len() > 0 { 1int } else { 0int };
            &&& (vis.len() > 0 ==> table_is(
                ts[0],
                seq![("Attribute"@, st.attr_heads.0), ("Type"@, st.attr_heads.1), ("Value"@, st.attr_heads.2)],
                rows_view(ts[0]),
            ))
            &&& (i.methods && i.method_list@.len() > 0) ==> ts.len() == nt + 1 && table_is(
                ts[nt],
                seq![("Method"@, st.method_heads.0), ("Signature"@, st.method_heads.1)],
                method_rows_spec(i, st),
            )
            &&& !(i.methods && i.method_list@.len() > 0) ==> ts.len() == nt
        })
    &&& visible_upto(i, i.attrs@.len()).len() > 0 ==> exists|order: Seq<usize>|
            #![trigger attr_rows_spec(i, order, st)]
            rows_view(ts[0]) == attr_rows_spec(i, order, st) && (!i.sort ==> order
                == visible_upto(i, i.attrs@.len())) && (i.sort ==> same_items(
                order,
                visible_upto(i, i.attrs@.len()),
            ) && sorted_stable(
                Seq::new(i.attrs@.len(), |k: int| sort_key(i.attrs@[k].0@)),
                order,
            ))
}

/// The indices of the attributes shown, in their order.
pub open spec fn visible_upto(i: Inspect, k: nat) -> Seq<usize>
    decreases k,
{
    if k == 0 || k > i.attrs@.len() {
        seq![]
    } else {
        visible_upto(i, (k - 1) as nat) + (if visible_spec(i, i.attrs@[k - 1].0@) {
            seq![(k - 1) as usize]
        } else {
            seq![]
        })
    }
}

/// Every index that `visible_upto` gives is below its bound and they rise.
proof fn lemma_visible_upto(i: Inspect, k: nat)
    requires
        k <= i.attrs@.len(),
        k <= usize::MAX,
    ensures
        forall|p: int| 0 <= p < visible_upto(i, k).len() ==> (#[trigger] visible_upto(i, k)[p] as int) < k,
        forall|p: int, q: int|
            0 <= p < q < visible_upto(i, k).len() ==> visible_upto(i, k)[p] < visible_upto(i, k)[q],
    decreases k,
{
    if k > 0 {
        lemma_visible_upto(i, (k - 1) as nat);
        let a = visible_upto(i, (k - 1) as nat);
        let v = visible_upto(i, k);
        assert forall|p: int| 0 <= p < v.len() implies (#[trigger] v[p] as int) < k by {
            if p < a.len() {
                assert(v[p] == a[p]);
            }
        }
        assert forall|p: int, q: int| 0 <= p < q < v.len() implies v[p] < v[q] by {
            if q < a.len() {
                assert(v[p] == a[p] && v[q] == a[q]);
            } else {
                assert(v[p] == a[p]);
                assert(v[q] == (k - 1) as usize);
            }
        }
    }
}

/// The texts of all segments of `lines`, line after line.
pub open spec fn line_texts(lines: Seq<Seq<char>>) -> Seq<Seq<char>>
    decreases lines.len(),
{
    if lines.len() == 0 {
        seq![]
    } else {
        line_texts(lines.drop_last()) + seq![lines.last(), seq!['\n']]
    }
}

/// The text inside the panel: the texts of the intro segments and of the
/// table lines, joined by newlines.
pub open spec fn content_spec(intro: SegLine, tables: Seq<Table>) -> Seq<char> {
    join_with(
        intro.map_values(|s: (Seq<char>, Option<Style>)| s.0) + tables_texts(tables, tables.len()),
        seq!['\n'],
    )
}

/// The texts of the lines of the first `k` tables.
pub open spec fn tables_texts(tables: Seq<Table>, k: nat) -> Seq<Seq<char>>
    decreases k,
{
    if k == 0 || k > tables.len() {
        seq![]
    } else {
        tables_texts(tables, (k - 1) as nat) + line_texts(table_texts(tables[k - 1]))
    }
}

impl Inspect {
    /// An inspection of the `Debug` representation of `value`.
    pub fn new(value: &dyn std::fmt::Debug) -> (i: Self)
        ensures
            i.title is None,
            !i.help && !i.methods && i.docs && !i.private && !i.dunder && i.sort && !i.all && i.value,
            i.attrs@.len() == 0,
            i.method_list@.len() == 0,
            i.doc_text is None,
    {
        Inspect::from_str(debug_repr(value).as_str())
    }

    /// An inspection of a value represented by `value_repr`: documentation
    /// and value shown, attributes sorted, nothing hidden shown.
    pub fn from_str(value_repr: &str) -> (i: Self)
        ensures
            i.value_repr@ == value_repr@,
            i.title is None,
            !i.help && !i.methods && i.docs && !i.private && !i.dunder && i.sort && !i.all && i.value,
            i.attrs@.len() == 0,
            i.method_list@.len() == 0,
            i.doc_text is None,
    {
        Inspect {
            value_repr: owned(value_repr),
            title: None,
            help: false,
            methods: false,
            docs: true,
            private: false,
            dunder: false,
            sort: true,
            all: false,
            value: true,
            attrs: Vec::new(),
            method_list: Vec::new(),
            doc_text: None,
        }
    }

    /// The inspection with a title.
    pub fn title(self, title: &str) -> (i: Self)
        ensures
            i.title matches Some(t) && t@ == title@,
            i.value_repr == self.value_repr,
            i.attrs == self.attrs,
            i.method_list == self.method_list,
            i.doc_text == self.doc_text,
            i.help == self.help && i.methods == self.methods && i.docs == self.docs,
            i.private == self.private && i.dunder == self.dunder && i.sort == self.sort,
            i.all == self.all && i.value == self.value,
    {
        Inspect { title: Some(owned(title)), ..self }
    }

    /// The inspection in detail, or not.
    pub fn help(self, value: bool) -> (i: Self)
        ensures
            i == (Inspect { help: value, ..self }),
    {
        Inspect { help: value, ..self }
    }

    /// The inspection showing methods, or not.
    pub fn methods(self, value: bool) -> (i: Self)
        ensures
            i == (Inspect { methods: value, ..self }),
    {
        Inspect { methods: value, ..self }
    }

    /// The inspection showing documentation, or not.
    pub fn docs(self, value: bool) -> (i: Self)
        ensures
            i == (Inspect { docs: value, ..self }),
    {
        Inspect { docs: value, ..self }
    }

    /// The inspection showing `_`-named attributes, or not.
    pub fn private(self, value: bool) -> (i: Self)
        ensures
            i == (Inspect { private: value, ..self }),
    {
        Inspect { private: value, ..self }
    }

    /// The inspection showing `__`-named attributes, or not.
    pub fn dunder(self, value: bool) -> (i: Self)
        ensures
            i == (Inspect { dunder: value, ..self }),
    {
        Inspect { dunder: value, ..self }
    }

    /// The inspection sorting attributes, or not.
    pub fn sort(self, value: bool) -> (i: Self)
        ensures
            i == (Inspect { sort: value, ..self }),
    {
        Inspect { sort: value, ..self }
    }

    /// The inspection showing every attribute, or not.
    pub fn all(self, value: bool) -> (i: Self)
        ensures
            i == (Inspect { all: value, ..self }),
    {
        Inspect { all: value, ..self }
    }

    /// The inspection showing the value, or not.
    pub fn value(self, value: bool) -> (i: Self)
        ensures
            i == (Inspect { value: value, ..self }),
    {
        Inspect { value: value, ..self }
    }

    /// The inspection with an attribute added.
    pub fn add_attr(self, name: &str, type_text: &str, value: &str) -> (i: Self)
        ensures
            i.attrs@.len() == self.attrs@.len() + 1,
            forall|k: int| 0 <= k < self.attrs@.len() ==> i.attrs@[k] == self.attrs@[k],
            i.attrs@.last().0@ == name@,
            i.attrs@.last().1@ == type_text@,
            i.attrs@.last().2@ == value@,
            i.attrs@.last().3 is None,
            i.method_list == self.method_list,
            i.title == self.title,
    {
        let mut i = self;
        i.attrs.push((owned(name), owned(type_text), owned(value), None));
        i
    }

    /// The inspection with a documented attribute added.
    pub fn add_attr_doc(self, name: &str, type_text: &str, value: &str, doc: &str) -> (i: Self)
        ensures
            i.attrs@.len() == self.attrs@.len() + 1,
            forall|k: int| 0 <= k < self.attrs@.len() ==> i.attrs@[k] == self.attrs@[k],
            i.attrs@.last().0@ == name@,
            i.attrs@.last().1@ == type_text@,
            i.attrs@.last().2@ == value@,
            i.attrs@.last().3 matches Some(d) && d@ == doc@,
            i.method_list == self.method_list,
            i.title == self.title,
    {
        let mut i = self;
        i.attrs.push((owned(name), owned(type_text), owned(value), Some(owned(doc))));
        i
    }

    /// The inspection with a method added.
    pub fn add_method(self, name: &str, signature: &str) -> (i: Self)
        ensures
            i.method_list@.len() == self.method_list@.len() + 1,
            forall|k: int| 0 <= k < self.method_list@.len() ==> i.method_list@[k] == self.method_list@[k],
            i.method_list@.last().0@ == name@,
            i.method_list@.last().1@ == signature@,
            i.method_list@.last().2 is None,
            i.attrs == self.attrs,
            i.title == self.title,
    {
        let mut i = self;
        i.method_list.push((owned(name), owned(signature), None));
        i
    }

    /// The inspection with a documented method added.
    pub fn add_method_doc(self, name: &str, signature: &str, doc: &str) -> (i: Self)
        ensures
            i.method_list@.len() == self.method_list@.len() + 1,
            forall|k: int| 0 <= k < self.method_list@.len() ==> i.method_list@[k] == self.method_list@[k],
            i.method_list@.last().0@ == name@,
            i.method_list@.last().1@ == signature@,
            i.method_list@.last().2 matches Some(d) && d@ == doc@,
            i.attrs == self.attrs,
            i.title == self.title,
    {
        let mut i = self;
        i.method_list.push((owned(name), owned(signature), Some(owned(doc))));
        i
    }

    /// The inspection with documentation for the value itself.
    pub fn doc_text(self, doc: &str) -> (i: Self)
        ensures
            i.doc_text matches Some(d) && d@ == doc@,
            i.attrs == self.attrs,
            i.method_list == self.method_list,
            i.title == self.title,
            i.value_repr == self.value_repr,
            i.docs == self.docs && i.value == self.value,
    {
        Inspect { doc_text: Some(owned(doc)), ..self }
    }

    /// The inspection with the given attributes, none documented.
    pub fn with_attrs(self, attrs: Vec<(String, String, String)>) -> (i: Self)
        ensures
            i.attrs@.len() == attrs@.len(),
            forall|k: int|
                0 <= k < attrs@.len() ==> (#[trigger] i.attrs@[k]).0 == attrs@[k].0 && i.attrs@[k].1
                    == attrs@[k].1 && i.attrs@[k].2 == attrs@[k].2 && i.attrs@[k].3 is None,
            i.method_list == self.method_list,
            i.title == self.title,
    {
        let mut out: Vec<(String, String, String, Option<String>)> = Vec::new();
        let mut attrs = attrs;
        let ghost a0 = attrs@;
        let mut k: usize = 0;
        while k < attrs.len()
            invariant
                k <= attrs@.len(),
                attrs@ == a0,
                out@.len() == k,
                forall|j: int|
                    0 <= j < k ==> (#[trigger] out@[j]).0 == a0[j].0 && out@[j].1 == a0[j].1 && out@[j].2
                        == a0[j].2 && out@[j].3 is None,
            decreases attrs.len() - k,
        {
            let (n, t, v) = (attrs[k].0.clone(), attrs[k].1.clone(), attrs[k].2.clone());
            out.push((n, t, v, None));
            k = k + 1;
        }
        Inspect { attrs: out, ..self }
    }

    /// The title shown: the given one, or "Object".
    pub fn effective_title(&self) -> (t: String)
        ensures
            t@ == title_spec(*self),
    {
        match &self.title {
            Some(t) => t.clone(),
            None => owned("Object"),
        }
    }

    /// Whether an attribute named `name` is shown: every one when all are
    /// asked for; `__...__` names when those are asked for; other
    /// `_`-names when private ones are; every other name.
    pub fn is_visible(&self, name: &str) -> (b: bool)
        ensures
            b == visible_spec(*self, name@),
    {
        if self.all {
            return true;
        }
        let cs = chars_of(name);
        let n = cs.len();
        if n >= 2 && cs[0] == '_' && cs[1] == '_' && cs[n - 1] == '_' && cs[n - 2] == '_' {
            return self.dunder;
        }
        if n > 0 && cs[0] == '_' {
            return self.private;
        }
        true
    }

    /// The indices of the attributes shown, in the order they were added.
    pub fn visible_attrs(&self) -> (v: Vec<usize>)
        ensures
            v@ == visible_upto(*self, self.attrs@.len()),
    {
        let mut v: Vec<usize> = Vec::new();
        let mut k: usize = 0;
        while k < self.attrs.len()
            invariant
                k <= self.attrs@.len(),
                v@ == visible_upto(*self, k as nat),
            decreases self.attrs.len() - k,
        {
            if self.is_visible(self.attrs[k].0.as_str()) {
                v.push(k);
            }
            k = k + 1;
        }
        v
    }

    /// The sort key of each attribute.
    fn attr_keys(&self) -> (keys: Vec<Vec<char>>)
        ensures
            keys@.len() == self.attrs@.len(),
            forall|k: int| 0 <= k < keys@.len() ==> (#[trigger] keys@[k])@ == sort_key(self.attrs@[k].0@),
    {
        let mut keys: Vec<Vec<char>> = Vec::new();
        let mut k: usize = 0;
        while k < self.attrs.len()
            invariant
                k <= self.attrs@.len(),
                keys@.len() == k,
                forall|j: int| 0 <= j < k ==> (#[trigger] keys@[j])@ == sort_key(self.attrs@[j].0@),
            decreases self.attrs.len() - k,
        {
            let cs = chars_of(self.attrs[k].0.as_str());
            let mut start: usize = 0;
            assert(cs@.skip(0) =~= cs@);
            while start < cs.len() && cs[start] == '_'
                invariant
                    start <= cs@.len(),
                    trim_leading(cs@, '_') == trim_leading(cs@.skip(start as int), '_'),
                decreases cs.len() - start,
            {
                assert(cs@.skip(start as int).skip(1) =~= cs@.skip(start + 1));
                start = start + 1;
            }
            let mut rest = String::new();
            let mut j: usize = start;
            while j < cs.len()
                invariant
                    start <= j <= cs@.len(),
                    rest@ == cs@.subrange(start as int, j as int),
                decreases cs.len() - j,
            {
                crate::strutil::push_char(&mut rest, cs[j]);
                j = j + 1;
                assert(rest@ =~= cs@.subrange(start as int, j as int));
            }
            assert(cs@.subrange(start as int, cs@.len() as int) =~= cs@.skip(start as int));
            let low = to_lowercase(rest.as_str());
            keys.push(chars_of(low.as_str()));
            k = k + 1;
        }
        keys
    }

    /// The indices of the attributes shown, in the order they are shown:
    /// sorted stably by `sort_key` when sorting is on.
    pub fn attr_order(&self) -> (v: Vec<usize>)
        ensures
            !self.sort ==> v@ == visible_upto(*self, self.attrs@.len()),
            self.sort ==> same_items(v@, visible_upto(*self, self.attrs@.len())),
            self.sort ==> sorted_stable(
                Seq::new(self.attrs@.len(), |k: int| sort_key(self.attrs@[k].0@)),
                v@,
            ),
    {
        let vis = self.visible_attrs();
        if !self.sort {
            return vis;
        }
        let na = self.attrs.len();
        proof {
            lemma_visible_upto(*self, self.attrs@.len());
        }
        let keys = self.attr_keys();
        let v = stable_sort(&keys, &vis);
        assert(keys@.map_values(|k: Vec<char>| k@) =~= Seq::new(
            self.attrs@.len(),
            |k: int| sort_key(self.attrs@[k].0@),
        ));
        v
    }

    /// The segments shown above the tables.
    pub fn intro_segments(&self, doc_style: &Style) -> (segs: Vec<Segment>)
        ensures
            seg_views(segs@) == intro_spec(*self, *doc_style),
    {
        let mut segs: Vec<Segment> = Vec::new();
        segs.push(Segment::line());
        let title = self.effective_title();
        let bold = Style::new().bold(true);
        segs.push(Segment::new(bold.render(title.as_str()).as_str()));
        assert(seg_views(segs@) =~= seq![newline(), plain(render_spec(bold_style(), title_spec(*self)))]);
        let ghost s1 = seg_views(segs@);
        if self.value {
            segs.push(Segment::new(self.value_repr.as_str()));
            segs.push(Segment::line());
        }
        assert(seg_views(segs@) =~= s1 + (if self.value {
            seq![plain(self.value_repr@), newline()]
        } else {
            seq![]
        }));
        let ghost s2 = seg_views(segs@);
        if self.docs {
            match &self.doc_text {
                Some(d) => {
                    segs.push(Segment::line());
                    let lines = split_lines(d.as_str());
                    let ghost ls = lines@.map_values(|l: String| l@);
                    let ghost s3 = seg_views(segs@);
                    assert(s3 =~= s2 + seq![newline()]);
                    let mut k: usize = 0;
                    while k < lines.len()
                        invariant
                            k <= lines@.len(),
                            ls == lines@.map_values(|l: String| l@),
                            seg_views(segs@) == s3 + doc_segs(ls.take(k as int), *doc_style),
                        decreases lines.len() - k,
                    {
                        let mut t = owned("  ");
                        push_str(&mut t, lines[k].as_str());
                        proof {
                            reveal_strlit("  ");
                            assert(t@ =~= seq![' ', ' '] + ls[k as int]);
                            assert(ls.take(k + 1).drop_last() =~= ls.take(k as int));
                        }
                        let ghost before = seg_views(segs@);
                        segs.push(Segment::styled(t.as_str(), doc_style.clone()));
                        segs.push(Segment::line());
                        k = k + 1;
                        assert(seg_views(segs@) =~= before + seq![
                            (seq![' ', ' '] + ls[k - 1], Some(*doc_style)),
                            newline(),
                        ]);
                    }
                    assert(ls.take(lines@.len() as int) =~= ls);
                    assert(seg_views(segs@) =~= s2 + (seq![newline()] + doc_segs(lines_spec(d@), *doc_style)));
                },
                None => {},
            }
        }
        segs
    }

    /// The attribute table for the attributes at `order`.
    pub fn attr_table(&self, order: &Vec<usize>, st: &InspectStyles) -> (t: Table)
        requires
            forall|p: int| 0 <= p < order@.len() ==> (#[trigger] order@[p] as int) < self.attrs@.len(),
        ensures
            table_is(
                t,
                seq![("Attribute"@, st.attr_heads.0), ("Type"@, st.attr_heads.1), ("Value"@, st.attr_heads.2)],
                attr_rows_spec(*self, order@, *st),
            ),
    {
        let mut t = Table::new();
        t.show_header = true;
        t.show_edge = false;
        t.show_lines = false;
        t.add_column(Column::new("Attribute").header_style(st.attr_heads.0.clone()));
        t.add_column(Column::new("Type").header_style(st.attr_heads.1.clone()));
        t.add_column(Column::new("Value").header_style(st.attr_heads.2.clone()));
        assert(heads_view(t) =~= seq![
            ("Attribute"@, st.attr_heads.0),
            ("Type"@, st.attr_heads.1),
            ("Value"@, st.attr_heads.2),
        ]);
        assert(forall|j: int| 0 <= j < t.columns@.len() ==> (#[trigger] t.columns@[j]).justify == AlignMethod::Left);
        let mut p: usize = 0;
        while p < order.len()
            invariant
                p <= order@.len(),
                forall|q: int| 0 <= q < order@.len() ==> (#[trigger] order@[q] as int) < self.attrs@.len(),
                t.show_header && !t.show_edge && !t.show_lines,
                heads_view(t) == seq![
                    ("Attribute"@, st.attr_heads.0),
                    ("Type"@, st.attr_heads.1),
                    ("Value"@, st.attr_heads.2),
                ],
                rows_view(t) == attr_rows_spec(*self, order@, *st).take(p as int),
                forall|j: int| 0 <= j < t.columns@.len() ==> (#[trigger] t.columns@[j]).justify == AlignMethod::Left,
            decreases order.len() - p,
        {
            let a = &self.attrs[order[p]];
            let mut cells: Vec<Cell> = Vec::new();
            cells.push(Cell::new(st.name.render(a.0.as_str()).as_str()));
            cells.push(Cell::new(st.type_text.render(a.1.as_str()).as_str()));
            cells.push(Cell::new(a.2.as_str()));
            let ghost rv = rows_view(t);
            let ghost cv = cells@.map_values(|c: Cell| c.text@);
            assert(cv =~= attr_rows_spec(*self, order@, *st)[p as int]);
            t.add_row(cells);
            assert(rows_view(t) =~= rv.push(cv));
            p = p + 1;
            assert(rows_view(t) =~= attr_rows_spec(*self, order@, *st).take(p as int));
        }
        assert(attr_rows_spec(*self, order@, *st).take(order@.len() as int) =~= attr_rows_spec(*self, order@, *st));
        t
    }

    /// The method table.
    pub fn method_table(&self, st: &InspectStyles) -> (t: Table)
        ensures
            table_is(
                t,
                seq![("Method"@, st.method_heads.0), ("Signature"@, st.method_heads.1)],
                method_rows_spec(*self, *st),
            ),
    {
        let mut t = Table::new();
        t.show_header = true;
        t.show_edge = false;
        t.show_lines = false;
        t.add_column(Column::new("Method").header_style(st.method_heads.0.clone()));
        t.add_column(Column::new("Signature").header_style(st.method_heads.1.clone()));
        assert(heads_view(t) =~= seq![("Method"@, st.method_heads.0), ("Signature"@, st.method_heads.1)]);
        assert(forall|j: int| 0 <= j < t.columns@.len() ==> (#[trigger] t.columns@[j]).justify == AlignMethod::Left);
        let mut p: usize = 0;
        while p < self.method_list.len()
            invariant
                p <= self.method_list@.len(),
                t.show_header && !t.show_edge && !t.show_lines,
                heads_view(t) == seq![("Method"@, st.method_heads.0), ("Signature"@, st.method_heads.1)],
                rows_view(t) == method_rows_spec(*self, *st).take(p as int),
                forall|j: int| 0 <= j < t.columns@.len() ==> (#[trigger] t.columns@[j]).justify == AlignMethod::Left,
            decreases self.method_list.len() - p,
        {
            let m = &self.method_list[p];
            let mut cells: Vec<Cell> = Vec::new();
            cells.push(Cell::new(st.method_name.render(m.0.as_str()).as_str()));
            cells.push(Cell::new(st.signature.render(m.1.as_str()).as_str()));
            let ghost rv = rows_view(t);
            let ghost cv = cells@.map_values(|c: Cell| c.text@);
            assert(cv =~= method_rows_spec(*self, *st)[p as int]);
            t.add_row(cells);
            assert(rows_view(t) =~= rv.push(cv));
            p = p + 1;
            assert(rows_view(t) =~= method_rows_spec(*self, *st).take(p as int));
        }
        assert(method_rows_spec(*self, *st).take(self.method_list@.len() as int) =~= method_rows_spec(*self, *st));
        t
    }

    /// The tables shown: the attribute table when an attribute is shown,
    /// and the method table when methods are asked for and there are some.
    pub fn tables(&self, st: &InspectStyles) -> (ts: Vec<Table>)
        ensures
            tables_ok(*self, *st, ts@),
    {
        let mut ts: Vec<Table> = Vec::new();
        let order = self.attr_order();
        let na = self.attrs.len();
        proof {
            lemma_visible_upto(*self, self.attrs@.len());
            let vis = visible_upto(*self, self.attrs@.len());
            if self.sort {
                assert forall|p: int| 0 <= p < order@.len() implies (#[trigger] order@[p] as int) < self.attrs@.len() by {
                    assert(vis.contains(order@[p]));
                    let k = choose|k: int| 0 <= k < vis.len() && vis[k] == order@[p];
                }
            }
        }
        if order.len() > 0 {
            let t = self.attr_table(&order, st);
            ts.push(t);
        }
        if self.methods && self.method_list.len() > 0 {
            ts.push(self.method_table(st));
        }
        ts
    }
}

/// The text inside the panel: the texts of `intro` and of the lines of the
/// tables, joined by newlines.
pub fn panel_content(intro: &Vec<Segment>, ts: &Vec<Table>) -> (s: String)
    ensures
        s@ == content_spec(seg_views(intro@), ts@),
{
    let mut texts: Vec<String> = Vec::new();
    let mut k: usize = 0;
    while k < intro.len()
        invariant
            k <= intro@.len(),
            views(texts@) == seg_views(intro@).map_values(|s: (Seq<char>, Option<Style>)| s.0).take(k as int),
        decreases intro.len() - k,
    {
        let ghost before = views(texts@);
        texts.push(intro[k].text.clone());
        assert(views(texts@) =~= before.push(intro@[k as int].text@));
        k = k + 1;
        assert(views(texts@) =~= seg_views(intro@).map_values(|s: (Seq<char>, Option<Style>)| s.0).take(k as int));
    }
    let ghost head = views(texts@);
    assert(head =~= seg_views(intro@).map_values(|s: (Seq<char>, Option<Style>)| s.0));
    let mut t: usize = 0;
    while t < ts.len()
        invariant
            t <= ts@.len(),
            views(texts@) == head + tables_texts(ts@, t as nat),
        decreases ts.len() - t,
    {
        let lines = ts[t].render_lines();
        let ghost tt = table_texts(ts@[t as int]);
        let ghost base = views(texts@);
        let mut j: usize = 0;
        while j < lines.len()
            invariant
                j <= lines@.len(),
                t < ts@.len(),
                tt == table_texts(ts@[t as int]),
                crate::table::first_texts(lines@) == tt,
                forall|i: int| 0 <= i < lines@.len() ==> #[trigger] crate::table::line_shaped(lines@[i]@),
                views(texts@) == base + line_texts(tt.take(j as int)),
            decreases lines.len() - j,
        {
            assert(crate::table::line_shaped(lines@[j as int]@));
            assert(tt[j as int] == lines@[j as int]@[0].text@);
            assert(tt.take(j + 1).drop_last() =~= tt.take(j as int));
            let ghost b0 = views(texts@);
            texts.push(lines[j][0].text.clone());
            texts.push(lines[j][1].text.clone());
            assert(views(texts@) =~= b0 + seq![tt[j as int], seq!['\n']]);
            assert(tt.take(j + 1).last() == tt[j as int]);
            assert(line_texts(tt.take(j + 1)) == line_texts(tt.take(j as int)) + seq![tt[j as int], seq!['\n']]);
            assert(views(texts@) =~= base + (line_texts(tt.take(j as int)) + seq![tt[j as int], seq!['\n']]));
            j = j + 1;
        }
        assert(tt.take(lines@.len() as int) =~= tt);
        t = t + 1;
    }
    let s = join_strings(&texts, "\n");
    proof {
        reveal_strlit("\n");
        assert("\n"@ =~= seq!['\n']);
    }
    s
}

/// Whether `p` is the panel an inspection `i` is drawn in with styles
/// `st`: a rounded box titled with the inspection's title, centred, its
/// border in the border style, expanded, one cell of padding left and
/// right.
pub open spec fn inspect_panel(i: Inspect, st: InspectStyles, p: Panel<String>) -> bool {
    &&& p.box_style.rows() == seq![
        seq!['╭', '─', '┬', '╮'],
        seq!['│', ' ', '│', '│'],
        seq!['├', '─', '┼', '┤'],
        seq!['│', ' ', '│', '│'],
        seq!['├', '─', '┼', '┤'],
        seq!['├', '─', '┼', '┤'],
        seq!['│', ' ', '│', '│'],
        seq!['╰', '─', '┴', '╯'],
    ]
    &&& !p.box_style.ascii
    &&& (p.title matches Some(t) && t@ == title_spec(i))
    &&& p.subtitle is None
    &&& p.title_align == crate::align::AlignMethod::Center
    &&& p.subtitle_align == crate::align::AlignMethod::Center
    &&& p.expand
    &&& p.style == empty_style()
    &&& p.border_style == st.border
    &&& p.width is None
    &&& p.height is None
    &&& p.padding == (0usize, 1usize, 0usize, 1usize)
    &&& !p.highlight
}

/// Whether `lines` is one line of one unstyled segment of `text`.
pub open spec fn one_plain_line(lines: Seq<Vec<Segment>>, text: Seq<char>) -> bool {
    lines.len() == 1 && lines[0]@.len() == 1 && lines[0]@[0].text@ == text && lines[0]@[0].style is None
}

impl Renderable for Inspect {
    fn measure(&self, options: &ConsoleOptions) -> Option<crate::measure::Measurement> {
        None
    }

    /// A rounded panel titled with the inspection's title, its border in
    /// bright blue, around one line: the texts of the intro and of the
    /// tables' lines, joined by newlines.
    open spec fn renders(&self, options: ConsoleOptions, r: RenderResult) -> bool {
        &&& r.items@.len() == 0
        &&& exists|st: InspectStyles, ts: Seq<Table>, p: Panel<String>, content: Seq<Vec<Segment>>, b: BoxStyle|
            #![trigger panel_drawn(p, b, content, options.max_width), tables_ok(*self, st, ts)]
            styles_ok(st) && tables_ok(*self, st, ts) && inspect_panel(*self, st, p) && one_plain_line(
                content,
                content_spec(intro_spec(*self, st.doc), ts),
            ) && safe_box_is(p.box_style, options.ascii_only, b) && lines_views(r.lines@) == panel_drawn(
                p,
                b,
                content,
                options.max_width,
            )
    }

    #[verifier::rlimit(60)]
    fn render(&self, options: &ConsoleOptions) -> (r: RenderResult) {
        let st = inspect_styles();
        let intro = self.intro_segments(&st.doc);
        let ts = self.tables(&st);
        let content = panel_content(&intro, &ts);
        let text = RenderResult::from_text(content.as_str());
        let panel = Panel::new(content).title(self.effective_title().as_str()).border_style(st.border.clone());
        let r = panel.draw(options, &text.lines);
        proof {
            let b = choose|b: BoxStyle|
                safe_box_is(panel.box_style, options.ascii_only, b) && lines_views(r.lines@) == #[trigger] panel_drawn(
                    panel,
                    b,
                    text.lines@,
                    options.max_width,
                );
            assert(inspect_panel(*self, st, panel));
            assert(one_plain_line(text.lines@, content_spec(intro_spec(*self, st.doc), ts@)));
            assert(tables_ok(*self, st, ts@));
        }
        r
    }
}

/// An inspection of the `Debug` representation of `value`.
pub fn inspect(value: &dyn std::fmt::Debug) -> (i: Inspect)
    ensures
        i.title is None,
        i.attrs@.len() == 0,
        i.method_list@.len() == 0,
{
    Inspect::new(value)
}

/// An inspection of a value represented by `value`, titled `title`.
pub fn inspect_str(title: &str, value: &str) -> (i: Inspect)
    ensures
        i.value_repr@ == value@,
        i.title matches Some(t) && t@ == title@,
        i.attrs@.len() == 0,
        i.method_list@.len() == 0,
{
    Inspect::from_str(value).title(title)
}

} // verus!
