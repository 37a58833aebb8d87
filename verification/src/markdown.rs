//! Markdown drawn for the terminal: the events of a Markdown parser turned
//! into lines of segments.

use vstd::prelude::*;
use pulldown_cmark::Tag as CmarkTag;
use pulldown_cmark::{Alignment, CodeBlockKind, Event, TagEnd};
use crate::align::AlignMethod;
use crate::columns::seg_views;
use crate::console::{ConsoleOptions, RenderResult, Renderable};
use crate::panel::{SegLine, lines_views, newline, plain, sat_sub};
use crate::segment::Segment;
use crate::strutil::{lines_spec, owned, push_char, push_str, split_lines, spaces};
use crate::style::{Attributes, Style, empty_style, render_spec};
use crate::table::{Cell, Column, Table, first_texts, line_shaped, table_texts};
use crate::theme::{default_entries, default_theme, lookup};

verus! {

#[verifier::external_type_specification]
#[verifier::external_body]
pub struct ExMdEvent<'a>(Event<'a>);

#[verifier::external_type_specification]
#[verifier::external_body]
pub struct ExMdTag<'a>(CmarkTag<'a>);

#[verifier::external_type_specification]
#[verifier::external_body]
pub struct ExMdTagEnd(TagEnd);

#[verifier::external_type_specification]
#[verifier::external_body]
pub struct ExMdAlignment(Alignment);

#[verifier::external_type_specification]
#[verifier::external_body]
pub struct ExMdCodeBlockKind<'a>(CodeBlockKind<'a>);

/// The alignment of a table column, as the parser gives it.
#[derive(Debug, Clone, Copy, PartialEq, Eq, Structural)]
pub enum MdAlign {
    /// No alignment given.
    Unset,
    Left,
    Center,
    Right,
}

/// A start tag as the parser gives it: the tags the drawing reads with
/// their fields as plain values, any other by the name `pulldown_cmark`
/// writes for its end tag.
#[derive(Debug)]
pub enum MdTag {
    /// A heading of the given level.
    Heading(u8),
    /// A code block: the language of a fenced one, none for an indented one.
    CodeBlock(Option<String>),
    /// A list, with the number of its first item when ordered.
    List(Option<u64>),
    /// A table, with the alignment of each column.
    Table(Vec<MdAlign>),
    /// A link, with its address and title.
    Link(String, String),
    /// An image, with its address and title.
    Image(String, String),
    /// Any other tag, by the name of its end tag (`Paragraph`, `Item`,
    /// `BlockQuote(None)`, `Emphasis`, `TableRow`, ...).
    Named(String),
}

/// A parser event, with its fields as plain values: an end tag by its
/// name, and the events the drawing does not read (math, HTML, footnote
/// references, task markers) by the text `pulldown_cmark`'s `Debug` writes
/// for them.
#[derive(Debug)]
pub enum CmarkEvent {
    Start(MdTag),
    End(String),
    Text(String),
    Code(String),
    SoftBreak,
    HardBreak,
    Rule,
    Unread(String),
}

/// What a start tag holds, as values.
pub enum MdTagView {
    Heading(u8),
    CodeBlock(Option<Seq<char>>),
    List(Option<u64>),
    Table(Seq<MdAlign>),
    Link(Seq<char>, Seq<char>),
    Image(Seq<char>, Seq<char>),
    Named(Seq<char>),
}

/// What a parser event holds, as values.
pub enum CmarkView {
    Start(MdTagView),
    End(Seq<char>),
    Text(Seq<char>),
    Code(Seq<char>),
    SoftBreak,
    HardBreak,
    Rule,
    Unread(Seq<char>),
}

/// The view of a start tag.
pub open spec fn tag_view(t: MdTag) -> MdTagView {
    match t {
        MdTag::Heading(l) => MdTagView::Heading(l),
        MdTag::CodeBlock(l) => MdTagView::CodeBlock(
            match l {
                Some(x) => Some(x@),
                None => None,
            },
        ),
        MdTag::List(n) => MdTagView::List(n),
        MdTag::Table(a) => MdTagView::Table(a@),
        MdTag::Link(u, t) => MdTagView::Link(u@, t@),
        MdTag::Image(u, t) => MdTagView::Image(u@, t@),
        MdTag::Named(x) => MdTagView::Named(x@),
    }
}

/// The view of a parser event.
pub open spec fn cmark_view(e: CmarkEvent) -> CmarkView {
    match e {
        CmarkEvent::Start(t) => CmarkView::Start(tag_view(t)),
        CmarkEvent::End(x) => CmarkView::End(x@),
        CmarkEvent::Text(x) => CmarkView::Text(x@),
        CmarkEvent::Code(x) => CmarkView::Code(x@),
        CmarkEvent::SoftBreak => CmarkView::SoftBreak,
        CmarkEvent::HardBreak => CmarkView::HardBreak,
        CmarkEvent::Rule => CmarkView::Rule,
        CmarkEvent::Unread(x) => CmarkView::Unread(x@),
    }
}

/// The views of parser events.
pub open spec fn cmark_views(es: Seq<CmarkEvent>) -> Seq<CmarkView> {
    es.map_values(|e: CmarkEvent| cmark_view(e))
}

/// Whether `s` begins with `p`.
pub open spec fn begins(s: Seq<char>, p: Seq<char>) -> bool {
    p.len() <= s.len() && s.take(p.len() as int) == p
}

/// The event the drawing takes from a start tag: headings, code blocks,
/// lists, items, quotes, emphasis, links, tables, their rows and cells,
/// and images; any other tag is left aside.
pub open spec fn draw_start(t: MdTagView) -> MdEventView {
    match t {
        MdTagView::Heading(l) => MdEventView::HeadingStart(l),
        MdTagView::CodeBlock(l) => MdEventView::CodeStart(
            match l {
                Some(x) => x,
                None => seq![],
            },
        ),
        MdTagView::List(_) => MdEventView::ListStart,
        MdTagView::Table(a) => MdEventView::TableStart(a),
        MdTagView::Link(u, _) => MdEventView::LinkStart(u),
        MdTagView::Image(u, t) => MdEventView::Image(u, t),
        MdTagView::Named(n) => if n == "Item"@ {
            MdEventView::ItemStart
        } else if begins(n, "BlockQuote("@) {
            MdEventView::QuoteStart
        } else if n == "Emphasis"@ {
            MdEventView::EmphasisStart
        } else if n == "TableRow"@ {
            MdEventView::RowStart
        } else if n == "TableCell"@ {
            MdEventView::CellStart
        } else {
            MdEventView::Other
        },
    }
}

/// The event the drawing takes from an end tag, by its name.
pub open spec fn draw_end(n: Seq<char>) -> MdEventView {
    if begins(n, "Heading("@) {
        MdEventView::HeadingEnd
    } else if n == "Paragraph"@ {
        MdEventView::ParagraphEnd
    } else if n == "CodeBlock"@ {
        MdEventView::CodeEnd
    } else if begins(n, "List("@) {
        MdEventView::ListEnd
    } else if n == "Item"@ {
        MdEventView::ItemEnd
    } else if begins(n, "BlockQuote("@) {
        MdEventView::QuoteEnd
    } else if n == "Link"@ {
        MdEventView::LinkEnd
    } else if n == "Table"@ {
        MdEventView::TableEnd
    } else if n == "TableRow"@ {
        MdEventView::RowEnd
    } else if n == "TableCell"@ {
        MdEventView::CellEnd
    } else {
        MdEventView::Other
    }
}

/// The event the drawing takes from a parser event: start and end tags as
/// above, text and inline code as text, breaks and rules; the events it
/// does not read are left aside.
pub open spec fn draw_event(e: CmarkView) -> MdEventView {
    match e {
        CmarkView::Start(t) => draw_start(t),
        CmarkView::End(n) => draw_end(n),
        CmarkView::Text(x) => MdEventView::Text(x),
        CmarkView::Code(x) => MdEventView::Text(x),
        CmarkView::SoftBreak => MdEventView::SoftBreak,
        CmarkView::HardBreak => MdEventView::HardBreak,
        CmarkView::Rule => MdEventView::Rule,
        CmarkView::Unread(_) => MdEventView::Other,
    }
}

/// The events the drawing takes from parser events.
pub open spec fn draw_events(es: Seq<CmarkView>) -> Seq<MdEventView> {
    es.map_values(|e: CmarkView| draw_event(e))
}

/// A Markdown parser event, as far as the drawing uses it.
#[derive(Debug)]
pub enum MdEvent {
    /// A heading of the given level starts.
    HeadingStart(u8),
    /// A heading ends.
    HeadingEnd,
    /// A paragraph ends.
    ParagraphEnd,
    /// A code block in the given language (empty when none) starts.
    CodeStart(String),
    /// A code block ends.
    CodeEnd,
    /// A list starts.
    ListStart,
    /// A list ends.
    ListEnd,
    /// A list item starts.
    ItemStart,
    /// A list item ends.
    ItemEnd,
    /// A block quote starts.
    QuoteStart,
    /// A block quote ends.
    QuoteEnd,
    /// Emphasis starts.
    EmphasisStart,
    /// A link to the given address starts.
    LinkStart(String),
    /// A link ends.
    LinkEnd,
    /// Text, or inline code.
    Text(String),
    /// A soft line break.
    SoftBreak,
    /// A hard line break.
    HardBreak,
    /// A horizontal rule.
    Rule,
    /// A table with the given column alignments starts.
    TableStart(Vec<MdAlign>),
    /// A table ends.
    TableEnd,
    /// A table row starts.
    RowStart,
    /// A table row ends.
    RowEnd,
    /// A table cell starts.
    CellStart,
    /// A table cell ends.
    CellEnd,
    /// An image with the given address and title.
    Image(String, String),
    /// Anything else.
    Other,
}

/// What an event holds, as values.
pub enum MdEventView {
    HeadingStart(u8),
    HeadingEnd,
    ParagraphEnd,
    CodeStart(Seq<char>),
    CodeEnd,
    ListStart,
    ListEnd,
    ItemStart,
    ItemEnd,
    QuoteStart,
    QuoteEnd,
    EmphasisStart,
    LinkStart(Seq<char>),
    LinkEnd,
    Text(Seq<char>),
    SoftBreak,
    HardBreak,
    Rule,
    TableStart(Seq<MdAlign>),
    TableEnd,
    RowStart,
    RowEnd,
    CellStart,
    CellEnd,
    Image(Seq<char>, Seq<char>),
    Other,
}

/// The view of an event.
pub open spec fn event_view(e: MdEvent) -> MdEventView {
    match e {
        MdEvent::HeadingStart(l) => MdEventView::HeadingStart(l),
        MdEvent::HeadingEnd => MdEventView::HeadingEnd,
        MdEvent::ParagraphEnd => MdEventView::ParagraphEnd,
        MdEvent::CodeStart(l) => MdEventView::CodeStart(l@),
        MdEvent::CodeEnd => MdEventView::CodeEnd,
        MdEvent::ListStart => MdEventView::ListStart,
        MdEvent::ListEnd => MdEventView::ListEnd,
        MdEvent::ItemStart => MdEventView::ItemStart,
        MdEvent::ItemEnd => MdEventView::ItemEnd,
        MdEvent::QuoteStart => MdEventView::QuoteStart,
        MdEvent::QuoteEnd => MdEventView::QuoteEnd,
        MdEvent::EmphasisStart => MdEventView::EmphasisStart,
        MdEvent::LinkStart(u) => MdEventView::LinkStart(u@),
        MdEvent::LinkEnd => MdEventView::LinkEnd,
        MdEvent::Text(t) => MdEventView::Text(t@),
        MdEvent::SoftBreak => MdEventView::SoftBreak,
        MdEvent::HardBreak => MdEventView::HardBreak,
        MdEvent::Rule => MdEventView::Rule,
        MdEvent::TableStart(a) => MdEventView::TableStart(a@),
        MdEvent::TableEnd => MdEventView::TableEnd,
        MdEvent::RowStart => MdEventView::RowStart,
        MdEvent::RowEnd => MdEventView::RowEnd,
        MdEvent::CellStart => MdEventView::CellStart,
        MdEvent::CellEnd => MdEventView::CellEnd,
        MdEvent::Image(u, t) => MdEventView::Image(u@, t@),
        MdEvent::Other => MdEventView::Other,
    }
}

/// The views of events.
pub open spec fn events_view(es: Seq<MdEvent>) -> Seq<MdEventView> {
    es.map_values(|e: MdEvent| event_view(e))
}

/// The events the Markdown parser reads from a source, with every
/// extension on.
pub uninterp spec fn markdown_events(source: Seq<char>) -> Seq<CmarkView>;

/// A column alignment of `pulldown_cmark`, as a value.
#[verifier::external_body]
fn md_align(a: &Alignment) -> (r: MdAlign) {
    match a {
        Alignment::None => MdAlign::Unset,
        Alignment::Left => MdAlign::Left,
        Alignment::Center => MdAlign::Center,
        Alignment::Right => MdAlign::Right,
    }
}

/// The language of a code block of `pulldown_cmark`: a fenced one's, none
/// for an indented one.
#[verifier::external_body]
fn md_code_lang(k: CodeBlockKind) -> (r: Option<String>) {
    match k {
        CodeBlockKind::Fenced(lang) => Some(lang.to_string()),
        CodeBlockKind::Indented => None,
    }
}

/// A start tag of `pulldown_cmark`, its fields as plain values, a tag
/// without fields the drawing reads by the `Debug` name of its end tag.
#[verifier::external_body]
fn md_start(tag: CmarkTag) -> MdTag {
    match tag {
        CmarkTag::Heading { level, .. } => MdTag::Heading(level as u8),
        CmarkTag::CodeBlock(k) => MdTag::CodeBlock(md_code_lang(k)),
        CmarkTag::List(n) => MdTag::List(n),
        CmarkTag::Table(a) => MdTag::Table(a.iter().map(md_align).collect()),
        CmarkTag::Link { dest_url, title, .. } => MdTag::Link(dest_url.into(), title.into()),
        CmarkTag::Image { dest_url, title, .. } => MdTag::Image(dest_url.into(), title.into()),
        other => MdTag::Named(md_end(other.to_end())),
    }
}

/// An end tag of `pulldown_cmark`, by the name its `Debug` writes.
#[verifier::external_body]
fn md_end(tag: TagEnd) -> (e: String) {
    format!("{:?}", tag)
}

/// A parser event of `pulldown_cmark`, its fields as plain values, an
/// event the drawing does not read by its `Debug` text.
#[verifier::external_body]
fn md_event(ev: Event) -> CmarkEvent {
    match ev {
        Event::Start(tag) => CmarkEvent::Start(md_start(tag)),
        Event::End(tag) => CmarkEvent::End(md_end(tag)),
        Event::Text(t) => CmarkEvent::Text(t.into()),
        Event::Code(t) => CmarkEvent::Code(t.into()),
        Event::SoftBreak => CmarkEvent::SoftBreak,
        Event::HardBreak => CmarkEvent::HardBreak,
        Event::Rule => CmarkEvent::Rule,
        other => CmarkEvent::Unread(format!("{:?}", other)),
    }
}

/// The events `pulldown_cmark::Parser::new_ext` reads from `source` with
/// every option on.
#[verifier::external_body]
fn parse_markdown(source: &str) -> (r: Vec<CmarkEvent>)
    ensures
        cmark_views(r@) == markdown_events(source@),
{
    pulldown_cmark::Parser::new_ext(source, pulldown_cmark::Options::all()).map(md_event).collect()
}

/// The event the drawing takes from start tag `t`.
fn to_draw_start(t: MdTag) -> (r: MdEvent)
    ensures
        event_view(r) == draw_start(tag_view(t)),
{
    proof {
        reveal_strlit("Item");
        reveal_strlit("BlockQuote(");
        reveal_strlit("Emphasis");
        reveal_strlit("TableRow");
        reveal_strlit("TableCell");
    }
    match t {
        MdTag::Heading(l) => MdEvent::HeadingStart(l),
        MdTag::CodeBlock(l) => MdEvent::CodeStart(
            match l {
                Some(x) => x,
                None => String::new(),
            },
        ),
        MdTag::List(_) => MdEvent::ListStart,
        MdTag::Table(a) => MdEvent::TableStart(a),
        MdTag::Link(u, _) => MdEvent::LinkStart(u),
        MdTag::Image(u, t) => MdEvent::Image(u, t),
        MdTag::Named(n) => {
            let n = n.as_str();
            if crate::strutil::str_eq(n, "Item") {
                MdEvent::ItemStart
            } else if crate::strutil::starts_with(n, "BlockQuote(") {
                MdEvent::QuoteStart
            } else if crate::strutil::str_eq(n, "Emphasis") {
                MdEvent::EmphasisStart
            } else if crate::strutil::str_eq(n, "TableRow") {
                MdEvent::RowStart
            } else if crate::strutil::str_eq(n, "TableCell") {
                MdEvent::CellStart
            } else {
                MdEvent::Other
            }
        },
    }
}

/// The event the drawing takes from the end tag named `n`.
fn to_draw_end(n: &str) -> (r: MdEvent)
    ensures
        event_view(r) == draw_end(n@),
{
    proof {
        reveal_strlit("Heading(");
        reveal_strlit("Paragraph");
        reveal_strlit("CodeBlock");
        reveal_strlit("List(");
        reveal_strlit("Item");
        reveal_strlit("BlockQuote(");
        reveal_strlit("Link");
        reveal_strlit("Table");
        reveal_strlit("TableRow");
        reveal_strlit("TableCell");
    }
    if crate::strutil::starts_with(n, "Heading(") {
        MdEvent::HeadingEnd
    } else if crate::strutil::str_eq(n, "Paragraph") {
        MdEvent::ParagraphEnd
    } else if crate::strutil::str_eq(n, "CodeBlock") {
        MdEvent::CodeEnd
    } else if crate::strutil::starts_with(n, "List(") {
        MdEvent::ListEnd
    } else if crate::strutil::str_eq(n, "Item") {
        MdEvent::ItemEnd
    } else if crate::strutil::starts_with(n, "BlockQuote(") {
        MdEvent::QuoteEnd
    } else if crate::strutil::str_eq(n, "Link") {
        MdEvent::LinkEnd
    } else if crate::strutil::str_eq(n, "Table") {
        MdEvent::TableEnd
    } else if crate::strutil::str_eq(n, "TableRow") {
        MdEvent::RowEnd
    } else if crate::strutil::str_eq(n, "TableCell") {
        MdEvent::CellEnd
    } else {
        MdEvent::Other
    }
}

/// The event the drawing takes from parser event `e`.
fn to_draw_event(e: CmarkEvent) -> (r: MdEvent)
    ensures
        event_view(r) == draw_event(cmark_view(e)),
{
    match e {
        CmarkEvent::Start(t) => to_draw_start(t),
        CmarkEvent::End(n) => to_draw_end(n.as_str()),
        CmarkEvent::Text(x) => MdEvent::Text(x),
        CmarkEvent::Code(x) => MdEvent::Text(x),
        CmarkEvent::SoftBreak => MdEvent::SoftBreak,
        CmarkEvent::HardBreak => MdEvent::HardBreak,
        CmarkEvent::Rule => MdEvent::Rule,
        CmarkEvent::Unread(_) => MdEvent::Other,
    }
}

/// The events the drawing takes from the parser events `es`.
fn to_draw_events(es: Vec<CmarkEvent>) -> (r: Vec<MdEvent>)
    ensures
        events_view(r@) == draw_events(cmark_views(es@)),
{
    let ghost all = cmark_views(es@);
    let mut es = es;
    let mut rev: Vec<MdEvent> = Vec::new();
    while es.len() > 0
        invariant
            all.len() == es@.len() + rev@.len(),
            forall|k: int| 0 <= k < es@.len() ==> cmark_view(#[trigger] es@[k]) == all[k],
            forall|k: int|
                0 <= k < rev@.len() ==> event_view(#[trigger] rev@[k]) == draw_event(all[all.len() - 1 - k]),
        decreases es@.len(),
    {
        let ghost n = es@.len();
        let e = es.pop().unwrap();
        assert(cmark_view(e) == all[n - 1]);
        rev.push(to_draw_event(e));
    }
    let mut r: Vec<MdEvent> = Vec::new();
    while rev.len() > 0
        invariant
            all.len() == rev@.len() + r@.len(),
            forall|k: int|
                0 <= k < rev@.len() ==> event_view(#[trigger] rev@[k]) == draw_event(all[all.len() - 1 - k]),
            forall|k: int| 0 <= k < r@.len() ==> event_view(#[trigger] r@[k]) == draw_event(all[k]),
        decreases rev@.len(),
    {
        let ghost n = rev@.len();
        let e = rev.pop().unwrap();
        assert(event_view(e) == draw_event(all[all.len() - n]));
        r.push(e);
    }
    assert(events_view(r@) =~= draw_events(all));
    r
}

/// Markdown to be drawn.
#[derive(Debug)]
pub struct MarkdownRender {
    /// The Markdown source.
    pub source: String,
    /// The width, when fixed.
    pub width: Option<usize>,
    /// The name of the code theme.
    pub code_theme: String,
    /// Whether links show their address after their text.
    pub hyperlinks: bool,
}

/// Markdown `md` to be drawn: the default code theme, links with their
/// addresses.
pub fn render_markdown(md: &str) -> (m: MarkdownRender)
    ensures
        m.source@ == md@,
        m.width is None,
        m.code_theme@ == "default"@,
        m.hyperlinks,
{
    MarkdownRender { source: owned(md), width: None, code_theme: owned("default"), hyperlinks: true }
}

/// The styles Markdown is drawn in.
pub struct MdStyles {
    /// First-level headings.
    pub h1: Style,
    /// Second-level headings.
    pub h2: Style,
    /// Code blocks.
    pub code: Style,
    /// Block quotes.
    pub quote: Style,
    /// Links.
    pub link: Style,
    /// Images.
    pub image: Style,
}

/// The drawing so far: finished lines, the line being built, and what the
/// events so far have opened.
pub struct MdView {
    pub lines: Seq<SegLine>,
    pub cur: SegLine,
    pub in_code: bool,
    pub heading: u8,
    pub list_depth: nat,
    pub link: Option<Seq<char>>,
    pub link_text: Option<Seq<char>>,
    pub in_table: bool,
    pub aligns: Seq<MdAlign>,
    pub rows: Seq<Seq<Seq<char>>>,
    pub row: Seq<Seq<char>>,
    pub cell: Seq<char>,
}

/// A bold style.
pub open spec fn md_bold() -> Style {
    Style { attributes: Attributes { bold: Some(true), ..empty_style().attributes }, ..empty_style() }
}

/// An italic style.
pub open spec fn md_italic() -> Style {
    Style { attributes: Attributes { italic: Some(true), ..empty_style().attributes }, ..empty_style() }
}

/// `n` copies of `c`.
pub open spec fn rep(c: char, n: nat) -> Seq<char> {
    Seq::new(n, |i: int| c)
}

/// Lines of code, each `│ ` and the line, a newline, and a line of its own.
pub open spec fn code_lines(lines: Seq<SegLine>, cur: SegLine, ls: Seq<Seq<char>>) -> (Seq<SegLine>, SegLine)
    decreases ls.len(),
{
    if ls.len() == 0 {
        (lines, cur)
    } else {
        let prev = code_lines(lines, cur, ls.drop_last());
        (prev.0.push(prev.1 + seq![plain(seq!['│', ' '] + ls.last()), newline()]), seq![])
    }
}

/// The drawing after one event. `width` is the width of rules under
/// headings and of code block ends; `rule_width` that of horizontal
/// rules; `table` the lines of the table a table end draws.
pub open spec fn md_step(
    s: MdView,
    e: MdEventView,
    st: MdStyles,
    width: nat,
    rule_width: nat,
    hyperlinks: bool,
    table: Seq<SegLine>,
) -> MdView {
    match e {
        MdEventView::HeadingStart(l) => {
            let style = if l == 1 {
                st.h1
            } else if l == 2 {
                st.h2
            } else {
                md_bold()
            };
            MdView { heading: l, cur: s.cur.push((rep('#', l as nat) + seq![' '], Some(style))), ..s }
        },
        MdEventView::HeadingEnd => {
            let ls = s.lines.push(s.cur);
            let ls2 = if s.heading <= 2 {
                ls.push(seq![plain(rep(if s.heading == 1 { '═' } else { '─' }, width)), newline()])
            } else {
                ls
            };
            MdView { lines: ls2, cur: seq![], ..s }
        },
        MdEventView::ParagraphEnd => {
            let ls = if s.cur.len() > 0 {
                s.lines.push(s.cur.push(newline()))
            } else {
                s.lines
            };
            MdView { lines: ls.push(seq![newline()]), cur: seq![], ..s }
        },
        MdEventView::CodeStart(lang) => {
            let title = if lang.len() == 0 {
                "Code"@
            } else {
                "Code: "@ + lang
            };
            let line = s.cur + seq![(seq!['┌', '─', ' '] + title + seq![' '], Some(st.code)), newline()];
            MdView { in_code: true, lines: s.lines.push(line), cur: seq![], ..s }
        },
        MdEventView::CodeEnd => {
            let ls = if s.cur.len() > 0 {
                s.lines.push(s.cur)
            } else {
                s.lines
            };
            MdView {
                in_code: false,
                lines: ls.push(seq![(seq!['└'] + rep('─', sat_sub(width, 2)), Some(st.code)), newline()]),
                cur: seq![],
                ..s
            }
        },
        MdEventView::ListStart => MdView {
            list_depth: if s.list_depth < usize::MAX {
                s.list_depth + 1
            } else {
                s.list_depth
            },
            ..s
        },
        MdEventView::ListEnd => MdView { list_depth: sat_sub(s.list_depth, 1), ..s },
        MdEventView::ItemStart => {
            let indent = Seq::new(2 * sat_sub(s.list_depth, 1), |i: int| ' ');
            let bullet = if s.list_depth > 1 {
                seq!['◦']
            } else {
                seq!['•']
            };
            MdView { cur: s.cur.push(plain(indent + bullet + seq![' '])), ..s }
        },
        MdEventView::ItemEnd => MdView { lines: s.lines.push(s.cur), cur: seq![], ..s },
        MdEventView::QuoteStart => MdView { cur: s.cur.push((seq!['▌', ' '], Some(st.quote))), ..s },
        MdEventView::QuoteEnd => MdView { lines: s.lines.push(s.cur), cur: seq![], ..s },
        MdEventView::EmphasisStart => MdView { cur: s.cur.push((seq![], Some(md_italic()))), ..s },
        MdEventView::LinkStart(u) => MdView { link: Some(u), link_text: Some(seq![]), ..s },
        MdEventView::LinkEnd => {
            let cur = match (s.link, s.link_text) {
                (Some(u), Some(t)) => {
                    let display = if t.len() == 0 {
                        u
                    } else if hyperlinks {
                        t + seq![' ', '('] + u + seq![')']
                    } else {
                        t
                    };
                    s.cur.push((display, Some(st.link)))
                },
                _ => s.cur,
            };
            MdView { link: None, link_text: None, cur: cur, ..s }
        },
        MdEventView::Text(t) => {
            let lt = match (s.link, s.link_text) {
                (Some(_), Some(x)) => Some(x + t),
                _ => s.link_text,
            };
            if s.in_table {
                MdView { cell: s.cell + t, link_text: lt, ..s }
            } else if s.in_code {
                let r = code_lines(s.lines, s.cur, lines_spec(t));
                MdView { lines: r.0, cur: r.1, link_text: lt, ..s }
            } else {
                MdView { cur: s.cur.push(plain(t)), link_text: lt, ..s }
            }
        },
        MdEventView::SoftBreak => MdView { cur: s.cur.push(plain(seq![' '])), ..s },
        MdEventView::HardBreak => MdView { lines: s.lines.push(s.cur.push(newline())), cur: seq![], ..s },
        MdEventView::Rule => MdView { lines: s.lines.push(seq![plain(rep('─', rule_width)), newline()]), ..s },
        MdEventView::TableStart(a) => MdView { in_table: true, aligns: a, rows: seq![], ..s },
        MdEventView::TableEnd => MdView {
            in_table: false,
            lines: if s.rows.len() > 0 {
                s.lines + table
            } else {
                s.lines
            },
            ..s
        },
        MdEventView::RowStart => MdView { row: seq![], ..s },
        MdEventView::RowEnd => MdView { rows: s.rows.push(s.row), row: seq![], ..s },
        MdEventView::CellStart => MdView { cell: seq![], ..s },
        MdEventView::CellEnd => MdView { row: s.row.push(s.cell), cell: seq![], ..s },
        MdEventView::Image(u, t) => {
            let title = if t.len() == 0 {
                seq![]
            } else {
                seq![' ', '"'] + t + seq!['"']
            };
            let line = s.cur + seq![("🖼 [Image: "@ + u + title + seq![']'], Some(st.image)), newline()];
            MdView { lines: s.lines.push(line), cur: seq![], ..s }
        },
        MdEventView::Other => s,
    }
}

/// The drawing before any event.
pub open spec fn md_start_view() -> MdView {
    MdView {
        lines: seq![],
        cur: seq![],
        in_code: false,
        heading: 0,
        list_depth: 0,
        link: None,
        link_text: None,
        in_table: false,
        aligns: seq![],
        rows: seq![],
        row: seq![],
        cell: seq![],
    }
}

/// The drawing after the first `k` events, table `j` drawn as
/// `tables[j]`, with how many tables have ended.
pub open spec fn md_run(
    es: Seq<MdEventView>,
    k: nat,
    st: MdStyles,
    width: nat,
    rule_width: nat,
    hyperlinks: bool,
    tables: Seq<Seq<SegLine>>,
) -> (MdView, nat)
    decreases k,
{
    if k == 0 || k > es.len() {
        (md_start_view(), 0)
    } else {
        let prev = md_run(es, (k - 1) as nat, st, width, rule_width, hyperlinks, tables);
        let e = es[k - 1];
        let t = if e is TableEnd && prev.1 < tables.len() {
            tables[prev.1 as int]
        } else {
            seq![]
        };
        (md_step(prev.0, e, st, width, rule_width, hyperlinks, t), prev.1 + if e is TableEnd {
            1nat
        } else {
            0nat
        })
    }
}

/// The finished lines: the drawing's lines, and the line being built with
/// a newline when it is not empty.
pub open spec fn md_finish(s: MdView) -> Seq<SegLine> {
    if s.cur.len() > 0 {
        s.lines.push(s.cur.push(newline()))
    } else {
        s.lines
    }
}

/// How a table column with alignment `a` is justified: as it says, left
/// when it says nothing.
pub open spec fn column_justify(a: MdAlign) -> AlignMethod {
    match a {
        MdAlign::Left => AlignMethod::Left,
        MdAlign::Center => AlignMethod::Center,
        MdAlign::Right => AlignMethod::Right,
        MdAlign::Unset => AlignMethod::Left,
    }
}

/// The cell texts of a table's rows.
pub open spec fn table_rows_view(t: Table) -> Seq<Seq<Seq<char>>> {
    t.rows@.map_values(|r: Vec<Cell>| r@.map_values(|c: Cell| c.text@))
}

/// The rows of a Markdown table as drawn: the first row's cells in bold.
pub open spec fn bold_first(rows: Seq<Seq<Seq<char>>>) -> Seq<Seq<Seq<char>>> {
    Seq::new(
        rows.len(),
        |i: int| if i == 0 { rows[0].map_values(|c: Seq<char>| render_spec(md_bold(), c)) } else { rows[i] },
    )
}

/// Whether `t` is the table a Markdown table with column alignments
/// `aligns` and rows `rows` is drawn as: no header, edges drawn, one
/// unnamed column per alignment justified as it says, the first row in
/// bold.
pub open spec fn md_table_is(t: Table, aligns: Seq<MdAlign>, rows: Seq<Seq<Seq<char>>>) -> bool {
    &&& !t.show_header && t.show_edge && !t.show_lines
    &&& t.columns@.len() == aligns.len()
    &&& forall|j: int|
        0 <= j < aligns.len() ==> (#[trigger] t.columns@[j]).justify == column_justify(aligns[j])
            && t.columns@[j].header@ == Seq::<char>::empty() && t.columns@[j].header_style == empty_style()
    &&& table_rows_view(t) == bold_first(rows)
}

/// Lines each holding one unstyled text of `texts` and a newline.
pub open spec fn shaped_lines(texts: Seq<Seq<char>>) -> Seq<SegLine> {
    texts.map_values(|x: Seq<char>| seq![plain(x), newline()])
}

/// Whether `lines` draw the Markdown table with alignments `aligns` and
/// rows `rows`.
pub open spec fn table_drawn(aligns: Seq<MdAlign>, rows: Seq<Seq<Seq<char>>>, lines: Seq<SegLine>) -> bool {
    exists|t: Table| md_table_is(t, aligns, rows) && lines == #[trigger] shaped_lines(table_texts(t))
}

/// Whether the tables `tables` are the drawings of the tables that end
/// among the first `k` events.
pub open spec fn tables_drawn(
    es: Seq<MdEventView>,
    k: nat,
    st: MdStyles,
    width: nat,
    rule_width: nat,
    hyperlinks: bool,
    tables: Seq<Seq<SegLine>>,
) -> bool
    decreases k,
{
    if k == 0 || k > es.len() {
        true
    } else {
        let prev = md_run(es, (k - 1) as nat, st, width, rule_width, hyperlinks, tables);
        &&& tables_drawn(es, (k - 1) as nat, st, width, rule_width, hyperlinks, tables)
        &&& (es[k - 1] is TableEnd && prev.1 < tables.len() && prev.0.rows.len() > 0) ==> table_drawn(
            prev.0.aligns,
            prev.0.rows,
            tables[prev.1 as int],
        )
    }
}

/// The drawing state while events are read.
pub struct MdState {
    pub lines: Vec<Vec<Segment>>,
    pub cur: Vec<Segment>,
    pub in_code: bool,
    pub heading: u8,
    pub list_depth: usize,
    pub link: Option<String>,
    pub link_text: Option<String>,
    pub in_table: bool,
    pub aligns: Vec<MdAlign>,
    pub rows: Vec<Vec<String>>,
    pub row: Vec<String>,
    pub cell: String,
}

/// The view of the drawing state.
pub open spec fn state_view(s: MdState) -> MdView {
    MdView {
        lines: lines_views(s.lines@),
        cur: seg_views(s.cur@),
        in_code: s.in_code,
        heading: s.heading,
        list_depth: s.list_depth as nat,
        link: match s.link {
            Some(u) => Some(u@),
            None => None,
        },
        link_text: match s.link_text {
            Some(u) => Some(u@),
            None => None,
        },
        in_table: s.in_table,
        aligns: s.aligns@,
        rows: s.rows@.map_values(|r: Vec<String>| r@.map_values(|c: String| c@)),
        row: s.row@.map_values(|c: String| c@),
        cell: s.cell@,
    }
}

/// A segment of text in a style.
fn seg(text: String, style: Option<Style>) -> (s: Segment)
    ensures
        seg_view_of(s) == (text@, style),
{
    Segment { text, style }
}

/// The view of a segment.
pub open spec fn seg_view_of(s: Segment) -> (Seq<char>, Option<Style>) {
    (s.text@, s.style)
}

/// `n` copies of `c`.
fn rep_string(c: char, n: usize) -> (s: String)
    ensures
        s@ == rep(c, n as nat),
{
    let mut s = String::new();
    let mut i: usize = 0;
    while i < n
        invariant
            i <= n,
            s@ == rep(c, i as nat),
        decreases n - i,
    {
        push_char(&mut s, c);
        i = i + 1;
        assert(s@ =~= rep(c, i as nat));
    }
    s
}

/// Pushes the current line as a finished line and starts a new one.
fn flush_cur(s: &mut MdState)
    ensures
        state_view(*final(s)) == (MdView {
            lines: state_view(*old(s)).lines.push(state_view(*old(s)).cur),
            cur: seq![],
            ..state_view(*old(s))
        }),
{
    let mut cur: Vec<Segment> = Vec::new();
    std::mem::swap(&mut cur, &mut s.cur);
    let ghost l0 = s.lines@;
    let ghost cv = seg_views(cur@);
    s.lines.push(cur);
    assert(lines_views(s.lines@) =~= lines_views(l0).push(cv));
    assert(seg_views(s.cur@) =~= Seq::<(Seq<char>, Option<Style>)>::empty());
}

/// Pushes a segment onto the current line.
fn push_seg(s: &mut MdState, x: Segment)
    ensures
        state_view(*final(s)) == (MdView { cur: state_view(*old(s)).cur.push(seg_view_of(x)), ..state_view(*old(s)) }),
{
    let ghost c0 = s.cur@;
    s.cur.push(x);
    assert(seg_views(s.cur@) =~= seg_views(c0).push(seg_view_of(x)));
}

/// Pushes a finished line.
fn push_line(s: &mut MdState, l: Vec<Segment>)
    ensures
        state_view(*final(s)) == (MdView { lines: state_view(*old(s)).lines.push(seg_views(l@)), ..state_view(*old(s)) }),
{
    let ghost l0 = s.lines@;
    let ghost lv = seg_views(l@);
    s.lines.push(l);
    assert(lines_views(s.lines@) =~= lines_views(l0).push(lv));
}

/// Appends finished lines.
fn append_lines(s: &mut MdState, ls: Vec<Vec<Segment>>)
    ensures
        state_view(*final(s)) == (MdView { lines: state_view(*old(s)).lines + lines_views(ls@), ..state_view(*old(s)) }),
{
    let ghost v0 = state_view(*s);
    let mut k: usize = 0;
    while k < ls.len()
        invariant
            k <= ls@.len(),
            state_view(*s) == (MdView { lines: v0.lines + lines_views(ls@).take(k as int), ..v0 }),
        decreases ls.len() - k,
    {
        let l = ls[k].clone();
        let ghost before = lines_views(s.lines@);
        let ghost lvv = seg_views(l@);
        s.lines.push(l);
        assert(lines_views(s.lines@) =~= before.push(lvv));
        k = k + 1;
        assert(lines_views(s.lines@) =~= v0.lines + lines_views(ls@).take(k as int));
    }
    assert(lines_views(ls@).take(ls@.len() as int) =~= lines_views(ls@));
}

/// A line of one segment and a newline.
fn one_seg_line(text: String, style: Option<Style>) -> (l: Vec<Segment>)
    ensures
        seg_views(l@) == seq![(text@, style), newline()],
{
    let mut l: Vec<Segment> = Vec::new();
    l.push(seg(text, style));
    l.push(Segment::line());
    assert(seg_views(l@) =~= seq![(text@, style), newline()]);
    l
}

impl MarkdownRender {
    /// Drawn `w` wide.
    pub fn width(self, w: usize) -> (m: Self)
        ensures
            m.width == Some(w),
            m.source == self.source && m.code_theme == self.code_theme && m.hyperlinks == self.hyperlinks,
    {
        MarkdownRender { width: Some(w), ..self }
    }

    /// With the code theme `theme`.
    pub fn code_theme(self, theme: &str) -> (m: Self)
        ensures
            m.code_theme@ == theme@,
            m.source == self.source && m.width == self.width && m.hyperlinks == self.hyperlinks,
    {
        MarkdownRender { code_theme: owned(theme), ..self }
    }

    /// With link addresses shown, or not.
    pub fn hyperlinks(self, enabled: bool) -> (m: Self)
        ensures
            m.hyperlinks == enabled,
            m.source == self.source && m.width == self.width && m.code_theme == self.code_theme,
    {
        MarkdownRender { hyperlinks: enabled, ..self }
    }

    /// The theme style called `name`, or a plain style.
    pub fn get_style(name: &str) -> (st: Style)
        ensures
            exists|e: Seq<(String, Style)>|
                #![trigger lookup(e, name@)]
                default_entries(e) && st == match lookup(e, name@) {
                    Some(s) => s,
                    None => empty_style(),
                },
    {
        let theme = default_theme();
        let st = match theme.get(name) {
            Some(s) => s,
            None => Style::new(),
        };
        assert(default_entries(theme.styles@) && st == match lookup(theme.styles@, name@) {
            Some(s) => s,
            None => empty_style(),
        });
        st
    }

    /// The style of code: the theme's `markdown.code.<code theme>` style,
    /// else its `markdown.code` style, else plain.
    pub fn code_style(&self) -> (st: Style)
        ensures
            exists|e: Seq<(String, Style)>|
                #![trigger lookup(e, "markdown.code."@ + self.code_theme@)]
                default_entries(e) && st == match lookup(e, "markdown.code."@ + self.code_theme@) {
                    Some(s) => s,
                    None => match lookup(e, "markdown.code"@) {
                        Some(s) => s,
                        None => empty_style(),
                    },
                },
    {
        let theme = default_theme();
        let mut key = owned("markdown.code.");
        push_str(&mut key, self.code_theme.as_str());
        proof {
            reveal_strlit("markdown.code.");
        }
        let st = match theme.get(key.as_str()) {
            Some(s) => s,
            None => match theme.get("markdown.code") {
                Some(s) => s,
                None => Style::new(),
            },
        };
        assert(default_entries(theme.styles@) && st == match lookup(theme.styles@, "markdown.code."@ + self.code_theme@) {
            Some(s) => s,
            None => match lookup(theme.styles@, "markdown.code"@) {
                Some(s) => s,
                None => empty_style(),
            },
        });
        st
    }

    /// The table of the rows gathered: no header, edges drawn, one column
    /// per alignment justified as it says (left when it says nothing), the
    /// first row in bold.
    fn md_table(aligns: &Vec<MdAlign>, rows: &Vec<Vec<String>>) -> (t: Table)
        ensures
            !t.show_header && t.show_edge && !t.show_lines,
            t.columns@.len() == aligns@.len(),
            forall|j: int| 0 <= j < aligns@.len() ==> (#[trigger] t.columns@[j]).justify == column_justify(aligns@[j]),
            t.rows@.len() == rows@.len(),
            md_table_is(t, aligns@, rows@.map_values(|r: Vec<String>| r@.map_values(|c: String| c@))),
    {
        proof {
            reveal_strlit("");
            assert(""@ =~= Seq::<char>::empty());
        }
        let mut t = Table::new();
        t.show_header = false;
        t.show_edge = true;
        let mut j: usize = 0;
        while j < aligns.len()
            invariant
                j <= aligns@.len(),
                t.columns@.len() == j,
                t.rows@.len() == 0,
                !t.show_header && t.show_edge && !t.show_lines,
                forall|k: int|
                    0 <= k < j ==> (#[trigger] t.columns@[k]).justify == column_justify(aligns@[k])
                        && t.columns@[k].header@ == Seq::<char>::empty() && t.columns@[k].header_style == empty_style(),
            decreases aligns.len() - j,
        {
            let justify = match aligns[j] {
                MdAlign::Left => AlignMethod::Left,
                MdAlign::Center => AlignMethod::Center,
                MdAlign::Right => AlignMethod::Right,
                MdAlign::Unset => AlignMethod::Left,
            };
            let c = Column::new("").justify(justify);
            assert(c.header@ == Seq::<char>::empty()) by {
                reveal_strlit("");
                assert(""@ =~= Seq::<char>::empty());
            }
            let ghost c0 = t.columns@;
            t.add_column(c);
            assert(t.columns@ == c0.push(c));
            assert(t.columns@[j as int] == c);
            j = j + 1;
        }
        let bold = Style::new().bold(true);
        let ghost rv = rows@.map_values(|r: Vec<String>| r@.map_values(|c: String| c@));
        let ghost want = bold_first(rv);
        let mut i: usize = 0;
        while i < rows.len()
            invariant
                i <= rows@.len(),
                bold == md_bold(),
                rv == rows@.map_values(|r: Vec<String>| r@.map_values(|c: String| c@)),
                want == bold_first(rv),
                t.columns@.len() == aligns@.len(),
                forall|k: int|
                    0 <= k < aligns@.len() ==> (#[trigger] t.columns@[k]).justify == column_justify(aligns@[k])
                        && t.columns@[k].header@ == Seq::<char>::empty() && t.columns@[k].header_style == empty_style(),
                t.rows@.len() == i,
                table_rows_view(t) == want.take(i as int),
                !t.show_header && t.show_edge && !t.show_lines,
            decreases rows.len() - i,
        {
            let mut cells: Vec<Cell> = Vec::new();
            let mut k: usize = 0;
            while k < rows[i].len()
                invariant
                    i < rows@.len(),
                    k <= rows@[i as int]@.len(),
                    bold == md_bold(),
                    rv == rows@.map_values(|r: Vec<String>| r@.map_values(|c: String| c@)),
                    want == bold_first(rv),
                    cells@.map_values(|c: Cell| c.text@) == want[i as int].take(k as int),
                decreases rows@[i as int]@.len() - k,
            {
                let ghost before = cells@.map_values(|c: Cell| c.text@);
                assert(rv[i as int] == rows@[i as int]@.map_values(|c: String| c@));
                assert(rv[i as int][k as int] == rows@[i as int]@[k as int]@);
                assert(want[i as int][k as int] == if i == 0 {
                    render_spec(md_bold(), rv[0][k as int])
                } else {
                    rv[i as int][k as int]
                });
                let cell = if i == 0 {
                    Cell::new(bold.render(rows[i][k].as_str()).as_str())
                } else {
                    Cell::new(rows[i][k].as_str())
                };
                assert(cell.text@ == want[i as int][k as int]);
                let ghost c0 = cells@;
                cells.push(cell);
                assert(cells@.map_values(|c: Cell| c.text@) =~= before.push(cell.text@)) by {
                    assert(cells@ == c0.push(cell));
                }
                k = k + 1;
                assert(cells@.map_values(|c: Cell| c.text@) =~= want[i as int].take(k as int));
            }
            assert(want[i as int].take(k as int) =~= want[i as int]);
            let ghost r0 = table_rows_view(t);
            t.add_row(cells);
            i = i + 1;
            assert(table_rows_view(t) =~= want.take(i as int));
        }
        assert(want.take(rows@.len() as int) =~= want);
        t
    }

    /// The drawing after one event.
    #[verifier::rlimit(60)]
    fn step(&self, s: &mut MdState, e: &MdEvent, st: &MdStyles, width: usize, rule_width: usize) -> (table: Ghost<Seq<SegLine>>)
        ensures
            state_view(*final(s)) == md_step(
                state_view(*old(s)),
                event_view(*e),
                *st,
                width as nat,
                rule_width as nat,
                self.hyperlinks,
                table@,
            ),
            (event_view(*e) is TableEnd && state_view(*old(s)).rows.len() > 0) ==> table_drawn(
                state_view(*old(s)).aligns,
                state_view(*old(s)).rows,
                table@,
            ),
    {
        let ghost v0 = state_view(*s);
        match e {
            MdEvent::HeadingStart(l) => {
                s.heading = *l;
                let style = if *l == 1 {
                    st.h1.clone()
                } else if *l == 2 {
                    st.h2.clone()
                } else {
                    Style::new().bold(true)
                };
                let mut t = rep_string('#', *l as usize);
                push_char(&mut t, ' ');
                assert(t@ =~= rep('#', *l as nat) + seq![' ']);
                push_seg(s, seg(t, Some(style)));
            },
            MdEvent::HeadingEnd => {
                flush_cur(s);
                if s.heading <= 2 {
                    let c = if s.heading == 1 {
                        '═'
                    } else {
                        '─'
                    };
                    push_line(s, one_seg_line(rep_string(c, width), None));
                }
            },
            MdEvent::ParagraphEnd => {
                if s.cur.len() > 0 {
                    push_seg(s, Segment::line());
                    flush_cur(s);
                } else {
                    assert(seg_views(s.cur@) =~= Seq::<(Seq<char>, Option<Style>)>::empty());
                }
                let mut l: Vec<Segment> = Vec::new();
                l.push(Segment::line());
                assert(seg_views(l@) =~= seq![newline()]);
                push_line(s, l);
            },
            MdEvent::CodeStart(lang) => {
                s.in_code = true;
                let mut t = owned("┌─ ");
                if lang.as_str().unicode_len() == 0 {
                    push_str(&mut t, "Code");
                } else {
                    push_str(&mut t, "Code: ");
                    push_str(&mut t, lang.as_str());
                }
                push_char(&mut t, ' ');
                proof {
                    reveal_strlit("┌─ ");
                    reveal_strlit("Code");
                    reveal_strlit("Code: ");
                    let title = if lang@.len() == 0 {
                        "Code"@
                    } else {
                        "Code: "@ + lang@
                    };
                    assert(t@ =~= seq!['┌', '─', ' '] + title + seq![' ']);
                }
                let ghost c0 = state_view(*s).cur;
                let ghost tv = t@;
                push_seg(s, seg(t, Some(st.code.clone())));
                push_seg(s, Segment::line());
                assert(state_view(*s).cur =~= c0 + seq![(tv, Some(st.code)), newline()]);
                flush_cur(s);
            },
            MdEvent::CodeEnd => {
                s.in_code = false;
                if s.cur.len() > 0 {
                    flush_cur(s);
                } else {
                    assert(seg_views(s.cur@) =~= Seq::<(Seq<char>, Option<Style>)>::empty());
                }
                let mut t = String::new();
                push_char(&mut t, '└');
                let r = rep_string('─', if width > 2 {
                    width - 2
                } else {
                    0
                });
                push_str(&mut t, r.as_str());
                push_line(s, one_seg_line(t, Some(st.code.clone())));
            },
            MdEvent::ListStart => {
                if s.list_depth < usize::MAX {
                    s.list_depth = s.list_depth + 1;
                }
            },
            MdEvent::ListEnd => {
                if s.list_depth > 0 {
                    s.list_depth = s.list_depth - 1;
                }
            },
            MdEvent::ItemStart => {
                let d = if s.list_depth > 0 {
                    s.list_depth - 1
                } else {
                    0
                };
                let mut t = String::new();
                let mut k: usize = 0;
                while k < d
                    invariant
                        k <= d,
                        t@ == Seq::new(2 * k as nat, |i: int| ' '),
                    decreases d - k,
                {
                    push_char(&mut t, ' ');
                    push_char(&mut t, ' ');
                    k = k + 1;
                    assert(t@ =~= Seq::new(2 * k as nat, |i: int| ' '));
                }
                let ghost t0 = t@;
                if s.list_depth > 1 {
                    push_char(&mut t, '◦');
                } else {
                    push_char(&mut t, '•');
                }
                push_char(&mut t, ' ');
                assert(t@ =~= Seq::new(2 * sat_sub(s.list_depth as nat, 1), |i: int| ' ') + (if s.list_depth > 1 {
                    seq!['◦']
                } else {
                    seq!['•']
                }) + seq![' ']);
                push_seg(s, seg(t, None));
            },
            MdEvent::ItemEnd => {
                flush_cur(s);
            },
            MdEvent::QuoteStart => {
                let mut t = String::new();
                push_char(&mut t, '▌');
                push_char(&mut t, ' ');
                assert(t@ =~= seq!['▌', ' ']);
                push_seg(s, seg(t, Some(st.quote.clone())));
            },
            MdEvent::QuoteEnd => {
                flush_cur(s);
            },
            MdEvent::EmphasisStart => {
                push_seg(s, seg(String::new(), Some(Style::new().italic(true))));
            },
            MdEvent::LinkStart(u) => {
                s.link = Some(u.clone());
                s.link_text = Some(String::new());
            },
            MdEvent::LinkEnd => {
                let mut link: Option<String> = None;
                std::mem::swap(&mut link, &mut s.link);
                let mut text: Option<String> = None;
                std::mem::swap(&mut text, &mut s.link_text);
                match (link, text) {
                    (Some(u), Some(t)) => {
                        let ghost uv = u@;
                        let ghost tv0 = t@;
                        let display = if t.as_str().unicode_len() == 0 {
                            u
                        } else if self.hyperlinks {
                            let mut d = t;
                            push_char(&mut d, ' ');
                            push_char(&mut d, '(');
                            push_str(&mut d, u.as_str());
                            push_char(&mut d, ')');
                            assert(d@ =~= tv0 + seq![' ', '('] + uv + seq![')']);
                            d
                        } else {
                            t
                        };
                        push_seg(s, seg(display, Some(st.link.clone())));
                    },
                    _ => {},
                }
            },
            MdEvent::Text(t) => {
                if s.link.is_some() {
                    let mut lt: Option<String> = None;
                    std::mem::swap(&mut lt, &mut s.link_text);
                    match lt {
                        Some(x) => {
                            let mut x = x;
                            push_str(&mut x, t.as_str());
                            s.link_text = Some(x);
                        },
                        None => {},
                    }
                }
                if s.in_table {
                    push_str(&mut s.cell, t.as_str());
                } else if s.in_code {
                    let ls = split_lines(t.as_str());
                    let ghost lv = ls@.map_values(|l: String| l@);
                    let ghost base = state_view(*s);
                    let mut k: usize = 0;
                    while k < ls.len()
                        invariant
                            k <= ls@.len(),
                            lv == ls@.map_values(|l: String| l@),
                            state_view(*s) == (MdView {
                                lines: code_lines(base.lines, base.cur, lv.take(k as int)).0,
                                cur: code_lines(base.lines, base.cur, lv.take(k as int)).1,
                                ..base
                            }),
                        decreases ls.len() - k,
                    {
                        assert(lv.take(k + 1).drop_last() =~= lv.take(k as int));
                        let ghost prev = code_lines(base.lines, base.cur, lv.take(k as int));
                        let mut x = String::new();
                        push_char(&mut x, '│');
                        push_char(&mut x, ' ');
                        push_str(&mut x, ls[k].as_str());
                        assert(x@ =~= seq!['│', ' '] + lv.take(k + 1).last());
                        let ghost xv = x@;
                        push_seg(s, seg(x, None));
                        push_seg(s, Segment::line());
                        assert(state_view(*s).cur =~= prev.1 + seq![plain(xv), newline()]);
                        flush_cur(s);
                        k = k + 1;
                    }
                    assert(lv.take(ls@.len() as int) =~= lv);
                } else {
                    push_seg(s, seg(t.clone(), None));
                }
            },
            MdEvent::SoftBreak => {
                let mut t = String::new();
                push_char(&mut t, ' ');
                push_seg(s, seg(t, None));
            },
            MdEvent::HardBreak => {
                push_seg(s, Segment::line());
                flush_cur(s);
            },
            MdEvent::Rule => {
                push_line(s, one_seg_line(rep_string('─', rule_width), None));
            },
            MdEvent::TableStart(a) => {
                s.in_table = true;
                s.aligns = a.clone();
                s.rows = Vec::new();
                assert(s.rows@.map_values(|r: Vec<String>| r@.map_values(|c: String| c@)) =~= Seq::<Seq<Seq<char>>>::empty());
            },
            MdEvent::TableEnd => {
                s.in_table = false;
                if s.rows.len() > 0 {
                    let t = MarkdownRender::md_table(&s.aligns, &s.rows);
                    let tl = t.render_lines();
                    let ghost tv = lines_views(tl@);
                    proof {
                        assert(tv =~= shaped_lines(table_texts(t))) by {
                            assert forall|q: int| 0 <= q < tv.len() implies tv[q] == shaped_lines(table_texts(t))[q] by {
                                assert(line_shaped(tl@[q]@));
                                assert(first_texts(tl@)[q] == tl@[q]@[0].text@);
                                assert(seg_views(tl@[q]@) =~= seq![plain(tl@[q]@[0].text@), newline()]);
                            }
                        }
                    }
                    append_lines(s, tl);
                    return Ghost(tv);
                }
            },
            MdEvent::RowStart => {
                s.row = Vec::new();
                assert(s.row@.map_values(|c: String| c@) =~= Seq::<Seq<char>>::empty());
            },
            MdEvent::RowEnd => {
                let mut row: Vec<String> = Vec::new();
                std::mem::swap(&mut row, &mut s.row);
                let ghost r0 = s.rows@.map_values(|r: Vec<String>| r@.map_values(|c: String| c@));
                let ghost rv = row@.map_values(|c: String| c@);
                s.rows.push(row);
                assert(s.rows@.map_values(|r: Vec<String>| r@.map_values(|c: String| c@)) =~= r0.push(rv));
                assert(s.row@.map_values(|c: String| c@) =~= Seq::<Seq<char>>::empty());
            },
            MdEvent::CellStart => {
                s.cell = String::new();
            },
            MdEvent::CellEnd => {
                let mut cell = String::new();
                std::mem::swap(&mut cell, &mut s.cell);
                let ghost r0 = s.row@.map_values(|c: String| c@);
                let ghost cv = cell@;
                s.row.push(cell);
                assert(s.row@.map_values(|c: String| c@) =~= r0.push(cv));
            },
            MdEvent::Image(u, t) => {
                let mut x = owned("🖼 [Image: ");
                push_str(&mut x, u.as_str());
                if t.as_str().unicode_len() > 0 {
                    push_char(&mut x, ' ');
                    push_char(&mut x, '"');
                    push_str(&mut x, t.as_str());
                    push_char(&mut x, '"');
                }
                push_char(&mut x, ']');
                proof {
                    reveal_strlit("🖼 [Image: ");
                    let title = if t@.len() == 0 {
                        seq![]
                    } else {
                        seq![' ', '"'] + t@ + seq!['"']
                    };
                    assert(x@ =~= "🖼 [Image: "@ + u@ + title + seq![']']);
                }
                let ghost c0 = state_view(*s).cur;
                let ghost xv = x@;
                push_seg(s, seg(x, Some(st.image.clone())));
                push_seg(s, Segment::line());
                assert(state_view(*s).cur =~= c0 + seq![(xv, Some(st.image)), newline()]);
                flush_cur(s);
            },
            MdEvent::Other => {},
        }
        proof {
            let goal = md_step(v0, event_view(*e), *st, width as nat, rule_width as nat, self.hyperlinks, Seq::empty());
            match e {
                MdEvent::HeadingStart(_) => { assert(state_view(*s) == goal); },
                MdEvent::HeadingEnd => { assert(state_view(*s) == goal); },
                MdEvent::ParagraphEnd => { assert(state_view(*s) == goal); },
                MdEvent::CodeStart(_) => { assert(state_view(*s) == goal); },
                MdEvent::CodeEnd => { assert(state_view(*s) == goal); },
                MdEvent::ItemStart => { assert(state_view(*s) == goal); },
                MdEvent::LinkEnd => { assert(state_view(*s) == goal); },
                MdEvent::Text(_) => { assert(state_view(*s) == goal); },
                MdEvent::TableEnd => { assert(state_view(*s) == goal); },
                MdEvent::Image(_, _) => { assert(state_view(*s) == goal); },
                MdEvent::ListStart => { assert(state_view(*s) == goal); },
                MdEvent::ListEnd => { assert(state_view(*s) == goal); },
                MdEvent::ItemEnd => { assert(state_view(*s) == goal); },
                MdEvent::QuoteStart => { assert(state_view(*s) == goal); },
                MdEvent::QuoteEnd => { assert(state_view(*s) == goal); },
                MdEvent::EmphasisStart => { assert(state_view(*s) == goal); },
                MdEvent::LinkStart(_) => { assert(state_view(*s) == goal); },
                MdEvent::SoftBreak => { assert(state_view(*s) == goal); },
                MdEvent::HardBreak => { assert(state_view(*s) == goal); },
                MdEvent::Rule => { assert(state_view(*s) == goal); },
                MdEvent::TableStart(_) => { assert(state_view(*s) == goal); },
                MdEvent::RowStart => { assert(state_view(*s) == goal); },
                MdEvent::RowEnd => { assert(state_view(*s) == goal); },
                MdEvent::CellStart => { assert(state_view(*s) == goal); },
                MdEvent::CellEnd => { assert(state_view(*s) == goal); },
                MdEvent::Other => { assert(state_view(*s) == goal); },
            }
        }
        Ghost(Seq::empty())
    }
}

/// Tables beyond those that have ended do not change the drawing.
proof fn lemma_md_run_prefix(
    es: Seq<MdEventView>,
    k: nat,
    st: MdStyles,
    width: nat,
    rule_width: nat,
    hyperlinks: bool,
    tables: Seq<Seq<SegLine>>,
    more: Seq<Seq<SegLine>>,
)
    requires
        md_run(es, k, st, width, rule_width, hyperlinks, tables).1 <= tables.len(),
    ensures
        md_run(es, k, st, width, rule_width, hyperlinks, tables + more) == md_run(es, k, st, width, rule_width, hyperlinks, tables),
    decreases k,
{
    if k > 0 && k <= es.len() {
        let prev = md_run(es, (k - 1) as nat, st, width, rule_width, hyperlinks, tables);
        assert(prev.1 <= md_run(es, k, st, width, rule_width, hyperlinks, tables).1);
        lemma_md_run_prefix(es, (k - 1) as nat, st, width, rule_width, hyperlinks, tables, more);
        if es[k - 1] is TableEnd && prev.1 < tables.len() {
            assert((tables + more)[prev.1 as int] == tables[prev.1 as int]);
        }
    }
}

/// Tables beyond those that have ended do not change which tables are
/// drawn.
proof fn lemma_tables_drawn_prefix(
    es: Seq<MdEventView>,
    k: nat,
    st: MdStyles,
    width: nat,
    rule_width: nat,
    hyperlinks: bool,
    tables: Seq<Seq<SegLine>>,
    more: Seq<Seq<SegLine>>,
)
    requires
        md_run(es, k, st, width, rule_width, hyperlinks, tables).1 <= tables.len(),
    ensures
        tables_drawn(es, k, st, width, rule_width, hyperlinks, tables + more) == tables_drawn(
            es,
            k,
            st,
            width,
            rule_width,
            hyperlinks,
            tables,
        ),
    decreases k,
{
    if k > 0 && k <= es.len() {
        let prev = md_run(es, (k - 1) as nat, st, width, rule_width, hyperlinks, tables);
        assert(prev.1 <= md_run(es, k, st, width, rule_width, hyperlinks, tables).1);
        lemma_tables_drawn_prefix(es, (k - 1) as nat, st, width, rule_width, hyperlinks, tables, more);
        lemma_md_run_prefix(es, (k - 1) as nat, st, width, rule_width, hyperlinks, tables, more);
        if prev.1 < tables.len() {
            assert((tables + more)[prev.1 as int] == tables[prev.1 as int]);
        }
    }
}

impl MarkdownRender {
    /// The lines drawn for `events` in the styles `st`: each event applied
    /// in turn as `md_step` says, then the line being built finished; each
    /// table is drawn by `Table` as `table_drawn` says.
    pub fn render_events(&self, events: &Vec<MdEvent>, st: &MdStyles, width: usize, rule_width: usize) -> (lines: Vec<Vec<Segment>>)
        ensures
            exists|tables: Seq<Seq<SegLine>>|
                #![trigger md_run(events_view(events@), events@.len(), *st, width as nat, rule_width as nat, self.hyperlinks, tables)]
                tables_drawn(events_view(events@), events@.len(), *st, width as nat, rule_width as nat, self.hyperlinks, tables)
                    && lines_views(lines@) == md_finish(
                    md_run(events_view(events@), events@.len(), *st, width as nat, rule_width as nat, self.hyperlinks, tables).0,
                ),
    {
        let ghost es = events_view(events@);
        let mut s = MdState {
            lines: Vec::new(),
            cur: Vec::new(),
            in_code: false,
            heading: 0,
            list_depth: 0,
            link: None,
            link_text: None,
            in_table: false,
            aligns: Vec::new(),
            rows: Vec::new(),
            row: Vec::new(),
            cell: String::new(),
        };
        let ghost mut tables: Seq<Seq<SegLine>> = Seq::empty();
        proof {
            assert(state_view(s).lines =~= Seq::<SegLine>::empty());
            assert(state_view(s).cur =~= Seq::<(Seq<char>, Option<Style>)>::empty());
            assert(state_view(s).rows =~= Seq::<Seq<Seq<char>>>::empty());
            assert(state_view(s).row =~= Seq::<Seq<char>>::empty());
            assert(state_view(s) == md_start_view());
        }
        let mut i: usize = 0;
        while i < events.len()
            invariant
                i <= events@.len(),
                es == events_view(events@),
                state_view(s) == md_run(es, i as nat, *st, width as nat, rule_width as nat, self.hyperlinks, tables).0,
                md_run(es, i as nat, *st, width as nat, rule_width as nat, self.hyperlinks, tables).1 == tables.len(),
                tables_drawn(es, i as nat, *st, width as nat, rule_width as nat, self.hyperlinks, tables),
            decreases events.len() - i,
        {
            let t = self.step(&mut s, &events[i], st, width, rule_width);
            proof {
                let e = es[i as int];
                assert(e == event_view(events@[i as int]));
                let more: Seq<Seq<SegLine>> = if e is TableEnd {
                    seq![t@]
                } else {
                    seq![]
                };
                lemma_md_run_prefix(es, i as nat, *st, width as nat, rule_width as nat, self.hyperlinks, tables, more);
                lemma_tables_drawn_prefix(es, i as nat, *st, width as nat, rule_width as nat, self.hyperlinks, tables, more);
                if !(e is TableEnd) {
                    assert(tables + more =~= tables);
                } else {
                    assert((tables + more)[tables.len() as int] == t@);
                }
                tables = tables + more;
            }
            i = i + 1;
        }
        if s.cur.len() > 0 {
            push_seg(&mut s, Segment::line());
            flush_cur(&mut s);
        }
        proof {
            if state_view(s).cur.len() == 0 {
                assert(seg_views(s.cur@).len() == 0);
            }
        }
        assert(lines_views(s.lines@) == md_finish(
            md_run(es, events@.len(), *st, width as nat, rule_width as nat, self.hyperlinks, tables).0,
        ));
        s.lines
    }
}

/// The width of a drawing: its own, or the available one.
pub open spec fn draw_width(width: Option<usize>, max: usize) -> nat {
    match width {
        Some(w) => w as nat,
        None => max as nat,
    }
}

/// The style `lookup` finds, or no style.
pub open spec fn found_or_empty(s: Option<Style>) -> Style {
    match s {
        Some(x) => x,
        None => empty_style(),
    }
}

/// Whether `st` are the styles a drawing with code theme `code_theme`
/// takes from the theme entries `e`.
pub open spec fn md_styles_from(e: Seq<(String, Style)>, code_theme: Seq<char>, st: MdStyles) -> bool {
    &&& st.h1 == found_or_empty(lookup(e, "markdown.h1"@))
    &&& st.h2 == found_or_empty(lookup(e, "markdown.h2"@))
    &&& st.quote == found_or_empty(lookup(e, "markdown.blockquote"@))
    &&& st.link == found_or_empty(lookup(e, "markdown.link"@))
    &&& st.image == found_or_empty(lookup(e, "markdown.image"@))
    &&& st.code == match lookup(e, "markdown.code."@ + code_theme) {
        Some(s) => s,
        None => found_or_empty(lookup(e, "markdown.code"@)),
    }
}

/// The style called `name` in `theme`, or no style.
fn style_in(theme: &crate::theme::Theme, name: &str) -> (st: Style)
    ensures
        st == found_or_empty(lookup(theme.styles@, name@)),
{
    match theme.get(name) {
        Some(s) => s,
        None => Style::new(),
    }
}

/// The styles of a drawing with code theme `code_theme`, from `theme`.
fn md_styles_in(theme: &crate::theme::Theme, code_theme: &str) -> (st: MdStyles)
    ensures
        md_styles_from(theme.styles@, code_theme@, st),
{
    let mut key = owned("markdown.code.");
    push_str(&mut key, code_theme);
    proof {
        reveal_strlit("markdown.code.");
    }
    let code = match theme.get(key.as_str()) {
        Some(s) => s,
        None => style_in(theme, "markdown.code"),
    };
    MdStyles {
        h1: style_in(theme, "markdown.h1"),
        h2: style_in(theme, "markdown.h2"),
        code,
        quote: style_in(theme, "markdown.blockquote"),
        link: style_in(theme, "markdown.link"),
        image: style_in(theme, "markdown.image"),
    }
}

impl Renderable for MarkdownRender {
    fn measure(&self, options: &ConsoleOptions) -> Option<crate::measure::Measurement> {
        None
    }

    /// The drawing of the source's parsed events, at the drawing's width
    /// (the available width when it has none), rules as wide as available,
    /// each table drawn as `table_drawn` says.
    open spec fn renders(&self, options: ConsoleOptions, r: RenderResult) -> bool {
        &&& r.items@.len() == 0
        &&& exists|e: Seq<(String, Style)>, st: MdStyles, tables: Seq<Seq<SegLine>>|
                default_entries(e) && #[trigger] md_styles_from(e, self.code_theme@, st) && tables_drawn(
                    draw_events(markdown_events(self.source@)),
                    markdown_events(self.source@).len(),
                    st,
                    draw_width(self.width, options.max_width),
                    options.max_width as nat,
                    self.hyperlinks,
                    tables,
                ) && lines_views(r.lines@)
                    == md_finish(
                    #[trigger] md_run(
                        draw_events(markdown_events(self.source@)),
                        markdown_events(self.source@).len(),
                        st,
                        draw_width(self.width, options.max_width),
                        options.max_width as nat,
                        self.hyperlinks,
                        tables,
                    ).0,
                )
    }

    fn render(&self, options: &ConsoleOptions) -> (r: RenderResult) {
        let width = match self.width {
            Some(w) => w,
            None => options.max_width,
        };
        let theme = default_theme();
        let st = md_styles_in(&theme, self.code_theme.as_str());
        let events = to_draw_events(parse_markdown(self.source.as_str()));
        assert(events@.len() == events_view(events@).len());
        let lines = self.render_events(&events, &st, width, options.max_width);
        proof {
            let tables = choose|tables: Seq<Seq<SegLine>>|
                #![trigger md_run(events_view(events@), events@.len(), st, width as nat, options.max_width as nat, self.hyperlinks, tables)]
                tables_drawn(events_view(events@), events@.len(), st, width as nat, options.max_width as nat, self.hyperlinks, tables)
                    && lines_views(lines@) == md_finish(
                    md_run(events_view(events@), events@.len(), st, width as nat, options.max_width as nat, self.hyperlinks, tables).0,
                );
            assert(draw_width(self.width, options.max_width) == width as nat);
            assert(md_styles_from(theme.styles@, self.code_theme@, st));
            assert(events_view(events@).len() == markdown_events(self.source@).len());
            assert(lines_views(lines@) == md_finish(
                md_run(
                    draw_events(markdown_events(self.source@)),
                    markdown_events(self.source@).len(),
                    st,
                    draw_width(self.width, options.max_width),
                    options.max_width as nat,
                    self.hyperlinks,
                    tables,
                ).0,
            ));
        }
        RenderResult::from_lines(lines)
    }
}

} // verus!
