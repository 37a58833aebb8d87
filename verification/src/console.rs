//! The rendering protocol: options passed to renderables, the results they
//! produce (lines of segments, or items that may nest other renderables),
//! and the `Renderable` trait itself.

use vstd::prelude::*;
use crate::align::AlignMethod;
use crate::measure::Measurement;
use crate::segment::{Segment, segments_ansi, segment_ansi};
use crate::strutil::{owned, push_str};

verus! {

/// The size of a terminal, in cells.
#[derive(Debug, Clone, Copy, PartialEq, Eq)]
pub struct ConsoleDimensions {
    /// Columns.
    pub width: usize,
    /// Rows.
    pub height: usize,
}

/// `terminal_size::terminal_size`: the size of the terminal on standard
/// output (or standard error, or standard input), as columns and rows.
/// It depends on the terminal the process runs in, so nothing is stated of
/// the result.
#[verifier::external_body]
fn query_terminal_size() -> (r: Option<(u16, u16)>) {
    match terminal_size::terminal_size() {
        Some((w, h)) => Some((w.0, h.0)),
        None => None,
    }
}

/// The dimensions a terminal size query gives: the size found, or 80×25
/// when there is none.
pub open spec fn dimensions_of(q: Option<(u16, u16)>) -> ConsoleDimensions {
    match q {
        Some((w, h)) => ConsoleDimensions { width: w as usize, height: h as usize },
        None => ConsoleDimensions { width: 80, height: 25 },
    }
}

impl ConsoleDimensions {
    /// The dimensions of a terminal whose size query answered `q`.
    pub fn from_query(q: Option<(u16, u16)>) -> (d: Self)
        ensures
            d == dimensions_of(q),
    {
        match q {
            Some((w, h)) => ConsoleDimensions { width: w as usize, height: h as usize },
            None => ConsoleDimensions { width: 80, height: 25 },
        }
    }

    /// The size of the current terminal, or 80×25 when it cannot be found.
    pub fn detect() -> (d: Self)
        ensures
            exists|q: Option<(u16, u16)>| d == dimensions_of(q),
    {
        let q = query_terminal_size();
        Self::from_query(q)
    }
}

/// What to do with text wider than the space it has.
#[derive(Debug, Clone, Copy, PartialEq, Eq, Hash)]
pub enum OverflowMethod {
    /// Wrap onto the next line.
    Fold,
    /// Cut at the edge.
    Crop,
    /// Cut and end with an ellipsis.
    Ellipsis,
    /// Let it overflow.
    Ignore,
}

/// The options a renderable is rendered with.
#[derive(Debug)]
pub struct ConsoleOptions {
    /// Terminal size.
    pub size: ConsoleDimensions,
    /// Whether output goes to a terminal.
    pub is_terminal: bool,
    /// The output encoding.
    pub encoding: String,
    /// Narrowest width to render at.
    pub min_width: usize,
    /// Widest width to render at.
    pub max_width: usize,
    /// Most lines to render.
    pub max_height: usize,
    /// Justification override.
    pub justify: Option<AlignMethod>,
    /// Overflow override.
    pub overflow: Option<OverflowMethod>,
    /// Whether wrapping is off.
    pub no_wrap: bool,
    /// Whether only ASCII box characters may be used.
    pub ascii_only: bool,
    /// Whether markup is interpreted.
    pub markup: bool,
    /// Whether strings are highlighted.
    pub highlight: bool,
    /// A fixed height, if any.
    pub height: Option<usize>,
    /// Whether the output is a legacy Windows console.
    pub legacy_windows: bool,
}

impl Clone for ConsoleOptions {
    fn clone(&self) -> (r: Self)
        ensures
            r == *self,
    {
        ConsoleOptions {
            size: self.size,
            is_terminal: self.is_terminal,
            encoding: self.encoding.clone(),
            min_width: self.min_width,
            max_width: self.max_width,
            max_height: self.max_height,
            justify: self.justify,
            overflow: self.overflow,
            no_wrap: self.no_wrap,
            ascii_only: self.ascii_only,
            markup: self.markup,
            highlight: self.highlight,
            height: self.height,
            legacy_windows: self.legacy_windows,
        }
    }
}

impl ConsoleOptions {
    /// The default options for a terminal of size `size`: a UTF-8 terminal,
    /// widths 1 to 80, 25 lines, markup and highlighting on.
    pub open spec fn defaults_for(self, size: ConsoleDimensions) -> bool {
        &&& self.size == size
        &&& self.is_terminal
        &&& self.encoding@ == "utf-8"@
        &&& self.min_width == 1
        &&& self.max_width == 80
        &&& self.max_height == 25
        &&& self.justify is None
        &&& self.overflow is None
        &&& !self.no_wrap
        &&& !self.ascii_only
        &&& self.markup
        &&& self.highlight
        &&& self.height is None
        &&& !self.legacy_windows
    }

    /// The default options for a terminal of size `size`.
    pub fn with_size(size: ConsoleDimensions) -> (o: Self)
        ensures
            o.defaults_for(size),
    {
        ConsoleOptions {
            size,
            is_terminal: true,
            encoding: owned("utf-8"),
            min_width: 1,
            max_width: 80,
            max_height: 25,
            justify: None,
            overflow: None,
            no_wrap: false,
            ascii_only: false,
            markup: true,
            highlight: true,
            height: None,
            legacy_windows: false,
        }
    }

    /// These options with widest width `max_width`.
    pub fn update_width(&self, max_width: usize) -> (o: Self)
        ensures
            o == (ConsoleOptions { max_width, ..*self }),
    {
        let mut o = self.clone();
        o.max_width = max_width;
        o
    }

    /// These options with fixed height `height`.
    pub fn update_height(&self, height: usize) -> (o: Self)
        ensures
            o == (ConsoleOptions { height: Some(height), ..*self }),
    {
        let mut o = self.clone();
        o.height = Some(height);
        o
    }

    /// These options with the widest width reduced by `amount` (not below
    /// zero).
    pub fn shrink_width(&self, amount: usize) -> (o: Self)
        ensures
            o == (ConsoleOptions {
                max_width: if self.max_width > amount { (self.max_width - amount) as usize } else { 0 },
                ..*self
            }),
    {
        let mut o = self.clone();
        o.max_width = if self.max_width > amount {
            self.max_width - amount
        } else {
            0
        };
        o
    }
}

/// Whether `o` are the default options for some terminal size (the size is
/// what the terminal reports, else the fallback).
pub open spec fn is_default_options(o: ConsoleOptions) -> bool {
    exists|q: Option<(u16, u16)>| o.defaults_for(dimensions_of(q))
}

impl Default for ConsoleOptions {
    /// The default options for the current terminal's size.
    fn default() -> (o: Self)
        ensures
            is_default_options(o),
    {
        ConsoleOptions::with_size(ConsoleDimensions::detect())
    }
}

/// Anything that can be rendered.
pub trait Renderable {
    /// Whether `r` is what this renderable gives when rendered with `options`.
    spec fn renders(&self, options: ConsoleOptions, r: RenderResult) -> bool;

    /// Renders with `options`.
    fn render(&self, options: &ConsoleOptions) -> (r: RenderResult)
        ensures
            self.renders(*options, r),
    ;

    /// The measurement this renderable gives of itself with `options`, if
    /// it gives one.
    open spec fn own_measure(&self, options: ConsoleOptions) -> Option<Measurement> {
        None
    }

    /// The widths this renderable can take, if it knows them.
    fn measure(&self, options: &ConsoleOptions) -> (r: Option<Measurement>)
        ensures
            r == self.own_measure(*options),
    ;
}

/// A renderable of any type, boxed.
pub struct DynRenderable {
    pub(crate) inner: Box<dyn Renderable>,
}

impl DynRenderable {
    /// Boxes `r`.
    pub fn new<R: Renderable + 'static>(r: R) -> (d: Self)
        ensures
            d.holds(r),
    {
        let b: Box<dyn Renderable> = Box::new(r);
        DynRenderable { inner: b }
    }

    /// Whether this box holds `r`.
    pub closed spec fn holds<R: Renderable + 'static>(&self, r: R) -> bool {
        self.inner == boxed_renderable(r)
    }
}

/// `h` in a box of its own.
pub open spec fn boxed_hook<F: Fn(&[Vec<Segment>]) -> Vec<Vec<Segment>> + Send + 'static>(h: RenderHook<F>) -> Box<
    dyn LineHook,
> {
    Box::new(h)
}

/// `r` in a box of its own.
pub open spec fn boxed_renderable<R: Renderable + 'static>(r: R) -> Box<dyn Renderable> {
    Box::new(r)
}

impl DynRenderable {
}

impl Renderable for DynRenderable {
    closed spec fn renders(&self, options: ConsoleOptions, r: RenderResult) -> bool {
        self.inner.renders(options, r)
    }

    fn render(&self, options: &ConsoleOptions) -> RenderResult {
        self.inner.render(options)
    }

    closed spec fn own_measure(&self, options: ConsoleOptions) -> Option<Measurement> {
        self.inner.own_measure(options)
    }

    fn measure(&self, options: &ConsoleOptions) -> Option<Measurement> {
        self.inner.measure(options)
    }
}

/// One item of a render result: a finished segment.
pub enum RenderItem {
    /// A finished segment.
    Segment(Segment),
}

/// What rendering produces: lines of segments, and items to flatten.
pub struct RenderResult {
    /// Lines of segments.
    pub lines: Vec<Vec<Segment>>,
    /// Items, possibly nesting renderables.
    pub items: Vec<RenderItem>,
}

/// The segments of `lines`, one line after another.
pub open spec fn flatten_lines(lines: Seq<Vec<Segment>>) -> Seq<Segment>
    decreases lines.len(),
{
    if lines.len() == 0 {
        seq![]
    } else {
        flatten_lines(lines.drop_last()) + lines.last()@
    }
}

/// The segments of items that are all finished segments.
pub open spec fn item_segments(items: Seq<RenderItem>) -> Seq<Segment> {
    Seq::new(items.len(), |i: int| items[i]->Segment_0)
}

/// The segments of a render result: of its items when it has items, else
/// of its lines.
pub open spec fn result_segments(res: RenderResult) -> Seq<Segment> {
    if res.items@.len() == 0 {
        flatten_lines(res.lines@)
    } else {
        item_segments(res.items@)
    }
}

/// The ANSI text of the first `k` results, separated by `sep`.
pub open spec fn joined_results(rs: Seq<RenderResult>, sep: Seq<char>, k: nat) -> Seq<char>
    decreases k,
{
    if k == 0 || k > rs.len() {
        seq![]
    } else {
        joined_results(rs, sep, (k - 1) as nat) + (if k > 1 { sep } else { seq![] }) + crate::segment::segments_ansi(
            result_segments(rs[k - 1]),
        )
    }
}

/// Whether each result of `rs` is what the object at its place renders with
/// `options`.
pub open spec fn all_render(objects: Seq<&dyn Renderable>, options: ConsoleOptions, rs: Seq<RenderResult>) -> bool {
    &&& rs.len() == objects.len()
    &&& forall|i: int| 0 <= i < rs.len() ==> objects[i].renders(options, #[trigger] rs[i])
}

/// Whether each result of `rs` is what the child at its place renders with
/// `options`.
pub open spec fn children_render(children: Seq<DynRenderable>, options: ConsoleOptions, rs: Seq<RenderResult>) -> bool {
    &&& rs.len() == children.len()
    &&& forall|i: int| 0 <= i < rs.len() ==> children[i].renders(options, #[trigger] rs[i])
}

/// The lines of each result of `rs`.
pub open spec fn results_lines(rs: Seq<RenderResult>) -> Seq<Seq<Vec<Segment>>> {
    Seq::new(rs.len(), |i: int| rs[i].lines@)
}

/// The lines of the results `rs`, one result after another.
pub open spec fn lines_of_results(rs: Seq<RenderResult>) -> Seq<Vec<Segment>> {
    results_lines(rs).flatten()
}

/// Whether `r` are the lines of result `res`: its lines, or, when it has
/// none but has items, the items as one line.
pub open spec fn result_lines(res: RenderResult, r: Seq<Vec<Segment>>) -> bool {
    &&& !(res.lines@.len() == 0 && res.items@.len() > 0) ==> r == res.lines@
    &&& res.lines@.len() == 0 && res.items@.len() > 0 ==> r.len() == 1 && r[0]@ == item_segments(res.items@)
}

/// Whether `r` is one line holding one plain segment of `text`, the same
/// segment being its one item.
pub open spec fn text_result(r: RenderResult, text: Seq<char>) -> bool {
    &&& r.lines@.len() == 1
    &&& r.lines@[0]@.len() == 1
    &&& r.lines@[0]@[0].text@ == text
    &&& r.lines@[0]@[0].style is None
    &&& r.items@.len() == 1
    &&& r.items@[0] matches RenderItem::Segment(s) && s.text@ == text && s.style is None
}

/// Whether `b` is `a` after writing the time `now` in brackets in a dim
/// style and the results `rs` separated by spaces, and a newline.
pub open spec fn logged(a: Console, b: Console, now: Seq<char>, rs: Seq<RenderResult>) -> bool {
    wrote(
        a,
        b,
        crate::style::sgr_of(crate::logging::dim_only()) + seq![' ', '['] + now + seq![']', ' '] + joined_results(
            rs,
            seq![' '],
            rs.len(),
        ) + seq!['\n'],
    )
}

/// Whether `m` is the measurement of a renderable that measures itself as
/// `own`, or, when it does not, whose rendering gives `segs`: from the
/// widest segment to the available width.
pub open spec fn measured(own: Option<Measurement>, segs: Seq<Segment>, max_width: usize, m: Measurement) -> bool {
    match own {
        Some(x) => m == x,
        None => (exists|res: RenderResult| segs == #[trigger] result_segments(res)) && m == Measurement {
            minimum: widest_segment(segs, segs.len()) as usize,
            maximum: max_width,
        },
    }
}

/// The joined text of a prefix does not depend on the results after it.
pub proof fn lemma_joined_push(rs: Seq<RenderResult>, x: RenderResult, sep: Seq<char>, k: nat)
    requires
        k <= rs.len(),
    ensures
        joined_results(rs.push(x), sep, k) == joined_results(rs, sep, k),
    decreases k,
{
    if k > 0 {
        lemma_joined_push(rs, x, sep, (k - 1) as nat);
        assert(rs.push(x)[k - 1] == rs[k - 1]);
    }
}

/// The widest cell length among the first `k` segments.
pub open spec fn widest_segment(segs: Seq<Segment>, k: nat) -> nat
    decreases k,
{
    if k == 0 || k > segs.len() {
        0
    } else {
        let w = widest_segment(segs, (k - 1) as nat);
        let c = crate::cells::unicode_str_width(segs[k - 1].text@) as nat;
        if c > w {
            c
        } else {
            w
        }
    }
}

/// Appends the segments of `line` to `out`.
fn push_line_segments(out: &mut Vec<Segment>, line: &Vec<Segment>)
    ensures
        final(out)@ == old(out)@ + line@,
{
    let mut j: usize = 0;
    while j < line.len()
        invariant
            j <= line.len(),
            out@ == old(out)@ + line@.take(j as int),
        decreases line.len() - j,
    {
        out.push(line[j].clone());
        j = j + 1;
        assert(out@ =~= old(out)@ + line@.take(j as int));
    }
    assert(line@.take(line.len() as int) =~= line@);
}

/// Appends the segments of `items` to `out`.
fn flatten_items(items: &Vec<RenderItem>, out: &mut Vec<Segment>)
    ensures
        final(out)@ == old(out)@ + item_segments(items@),
{
    let mut i: usize = 0;
    while i < items.len()
        invariant
            i <= items.len(),
            out@ == old(out)@ + item_segments(items@).take(i as int),
        decreases items.len() - i,
    {
        match &items[i] {
            RenderItem::Segment(seg) => {
                out.push(seg.clone());
            },
        }
        i = i + 1;
        assert(out@ =~= old(out)@ + item_segments(items@).take(i as int));
    }
    assert(item_segments(items@).take(items.len() as int) =~= item_segments(items@));
}

impl RenderResult {
    /// An empty result.
    pub fn new() -> (r: Self)
        ensures
            r.lines@.len() == 0,
            r.items@.len() == 0,
    {
        RenderResult { lines: Vec::new(), items: Vec::new() }
    }

    /// One line holding `text` as one segment, also as the single item.
    pub fn from_text(text: &str) -> (r: Self)
        ensures
            r.lines@.len() == 1,
            r.lines@[0]@.len() == 1,
            r.lines@[0]@[0].text@ == text@,
            r.lines@[0]@[0].style is None,
            r.items@.len() == 1,
            r.items@[0] matches RenderItem::Segment(s) && s.text@ == text@ && s.style is None,
    {
        let mut line: Vec<Segment> = Vec::new();
        line.push(Segment::new(text));
        let mut lines: Vec<Vec<Segment>> = Vec::new();
        lines.push(line);
        let mut items: Vec<RenderItem> = Vec::new();
        items.push(RenderItem::Segment(Segment::new(text)));
        RenderResult { lines, items }
    }

    /// One line of `segments`, which are also the items.
    pub fn from_segments(segments: Vec<Segment>) -> (r: Self)
        ensures
            r.lines@.len() == 1,
            r.lines@[0]@ == segments@,
            item_segments(r.items@) == segments@,
    {
        let mut items: Vec<RenderItem> = Vec::new();
        let mut i: usize = 0;
        while i < segments.len()
            invariant
                i <= segments.len(),
                items@.len() == i,
                forall|j: int| 0 <= j < i ==> (#[trigger] items@[j] matches RenderItem::Segment(s) && s
                    == segments@[j]),
            decreases segments.len() - i,
        {
            items.push(RenderItem::Segment(segments[i].clone()));
            i = i + 1;
        }
        assert(item_segments(items@) =~= segments@);
        let mut lines: Vec<Vec<Segment>> = Vec::new();
        lines.push(segments);
        RenderResult { lines, items }
    }

    /// A result of the given lines, with no items.
    pub fn from_lines(lines: Vec<Vec<Segment>>) -> (r: Self)
        ensures
            r.lines@ == lines@,
            r.items@.len() == 0,
    {
        RenderResult { lines, items: Vec::new() }
    }

    /// A result of the given items, with no lines.
    pub fn from_items(items: Vec<RenderItem>) -> (r: Self)
        ensures
            r.lines@.len() == 0,
            r.items@ == items@,
    {
        RenderResult { lines: Vec::new(), items }
    }

    /// Appends an item.
    pub fn push_item(&mut self, item: RenderItem)
        ensures
            final(self).items@ == old(self).items@.push(item),
            final(self).lines@ == old(self).lines@,
    {
        self.items.push(item);
    }

    /// The segments of the result: those of the items, or the segments of
    /// the lines when there are no items.
    pub fn flatten(&self, options: &ConsoleOptions) -> (r: Vec<Segment>)
        ensures
            self.items@.len() == 0 ==> r@ == flatten_lines(self.lines@),
            self.items@.len() > 0 ==> r@ == item_segments(self.items@),
    {
        let mut out: Vec<Segment> = Vec::new();
        flatten_items(&self.items, &mut out);
        if out.len() == 0 {
            let mut k: usize = 0;
            assert(self.lines@.take(0) =~= Seq::<Vec<Segment>>::empty());
            while k < self.lines.len()
                invariant
                    k <= self.lines.len(),
                    out@ == flatten_lines(self.lines@.take(k as int)),
                decreases self.lines.len() - k,
            {
                assert(self.lines@.take(k + 1).drop_last() =~= self.lines@.take(k as int));
                push_line_segments(&mut out, &self.lines[k]);
                k = k + 1;
            }
            assert(self.lines@.take(self.lines.len() as int) =~= self.lines@);
        }
        out
    }

    /// The ANSI text of the result: of the items when there are items, else
    /// of the lines.
    pub fn to_ansi(&self) -> (r: String)
        ensures
            self.items@.len() == 0 ==> r@ == segments_ansi(flatten_lines(self.lines@)),
            self.items@.len() > 0 ==> r@ == segments_ansi(item_segments(self.items@)),
    {
        let opts = ConsoleOptions::with_size(ConsoleDimensions { width: 80, height: 25 });
        let flat = self.flatten(&opts);
        crate::segment::segments_to_ansi(&flat)
    }
}

impl Renderable for String {
    fn measure(&self, options: &ConsoleOptions) -> Option<crate::measure::Measurement> {
        None
    }

    /// A string renders as one line of plain text.
    open spec fn renders(&self, options: ConsoleOptions, r: RenderResult) -> bool {
        text_result(r, self@)
    }

    fn render(&self, options: &ConsoleOptions) -> (r: RenderResult) {
        RenderResult::from_text(self.as_str())
    }
}

impl<'a> Renderable for &'a str {
    /// A string renders as one line of plain text.
    open spec fn renders(&self, options: ConsoleOptions, r: RenderResult) -> bool {
        text_result(r, self@)
    }

    fn render(&self, options: &ConsoleOptions) -> (r: RenderResult) {
        RenderResult::from_text(*self)
    }

    fn measure(&self, options: &ConsoleOptions) -> Option<Measurement> {
        None
    }
}

/// Renderables shown one after another, top to bottom.
pub struct Group {
    /// The children, in order.
    pub children: Vec<DynRenderable>,
}

impl Group {
    /// An empty group.
    pub fn new() -> (g: Self)
        ensures
            g.children@.len() == 0,
    {
        Group { children: Vec::new() }
    }

    /// Adds a child at the end.
    pub fn add<R: Renderable + 'static>(&mut self, renderable: R)
        ensures
            final(self).children@.len() == old(self).children@.len() + 1,
            final(self).children@.drop_last() == old(self).children@,
            final(self).children@.last().holds(renderable),
    {
        self.children.push(DynRenderable::new(renderable));
    }
}

impl Renderable for Group {
    fn measure(&self, options: &ConsoleOptions) -> Option<crate::measure::Measurement> {
        None
    }

    /// The lines of every child, in order.
    open spec fn renders(&self, options: ConsoleOptions, r: RenderResult) -> bool {
        &&& r.items@.len() == 0
        &&& exists|rs: Seq<RenderResult>|
            children_render(self.children@, options, rs) && r.lines@ == #[trigger] lines_of_results(rs)
    }

    fn render(&self, options: &ConsoleOptions) -> (r: RenderResult) {
        let mut all: Vec<Vec<Segment>> = Vec::new();
        let ghost mut rs: Seq<RenderResult> = seq![];
        let mut i: usize = 0;
        assert(lines_of_results(rs) =~= Seq::<Vec<Segment>>::empty());
        while i < self.children.len()
            invariant
                i <= self.children.len(),
                rs.len() == i,
                forall|j: int| 0 <= j < i ==> self.children@[j].renders(*options, #[trigger] rs[j]),
                all@ == lines_of_results(rs),
            decreases self.children.len() - i,
        {
            let mut r = self.children[i].render(options);
            let ghost res = r;
            let ghost before = all@;
            all.append(&mut r.lines);
            proof {
                let parts = results_lines(rs);
                parts.lemma_flatten_push(res.lines@);
                rs = rs.push(res);
                assert(results_lines(rs) =~= parts.push(res.lines@));
            }
            assert(all@ =~= before + res.lines@);
            i = i + 1;
        }
        let out = RenderResult { lines: all, items: Vec::new() };
        assert(children_render(self.children@, *options, rs));
        out
    }
}

/// A renderable that is a single newline.
pub struct NewLine;

impl Renderable for NewLine {
    fn measure(&self, options: &ConsoleOptions) -> Option<crate::measure::Measurement> {
        None
    }

    open spec fn renders(&self, options: ConsoleOptions, r: RenderResult) -> bool {
        text_result(r, seq!['\n'])
    }

    fn render(&self, options: &ConsoleOptions) -> (r: RenderResult) {
        proof {
            reveal_strlit("\n");
            assert("\n"@ =~= seq!['\n']);
        }
        RenderResult::from_text("\n")
    }
}

/// A renderable that renders nothing.
pub struct NoChange;

impl Renderable for NoChange {
    fn measure(&self, options: &ConsoleOptions) -> Option<crate::measure::Measurement> {
        None
    }

    open spec fn renders(&self, options: ConsoleOptions, r: RenderResult) -> bool {
        r.lines@.len() == 0 && r.items@.len() == 0
    }

    fn render(&self, options: &ConsoleOptions) -> (r: RenderResult) {
        RenderResult::new()
    }
}

/// Why ending a capture failed.
#[derive(Debug, Clone, Copy, PartialEq, Eq)]
pub enum CaptureError {
    /// A capture was already running.
    AlreadyCapturing,
    /// No capture was running.
    NotCapturing,
    /// The captured bytes were not UTF-8.
    InvalidUtf8,
}

impl CaptureError {
    /// The message for the error.
    pub fn to_string(&self) -> (s: String)
        ensures
            s@ == match *self {
                CaptureError::AlreadyCapturing => "capture already in progress"@,
                CaptureError::NotCapturing => "no capture active"@,
                CaptureError::InvalidUtf8 => "captured output is not valid UTF-8"@,
            },
    {
        match self {
            CaptureError::AlreadyCapturing => owned("capture already in progress"),
            CaptureError::NotCapturing => owned("no capture active"),
            CaptureError::InvalidUtf8 => owned("captured output is not valid UTF-8"),
        }
    }
}

} // verus!

verus! {

use crate::color::{Color, ColorSystem};
use crate::style::Style;
use crate::theme::{Theme, default_theme};
use crate::text::Text;

/// Something that rewrites rendered lines before they are written.
pub trait LineHook: Send {
    /// Whether `out` is what this hook makes of `lines`.
    spec fn rewrites(&self, lines: Seq<Vec<Segment>>, out: Seq<Vec<Segment>>) -> bool;

    /// The lines this hook makes of `lines`.
    fn apply_lines(&self, lines: &[Vec<Segment>]) -> (out: Vec<Vec<Segment>>)
        ensures
            self.rewrites(lines@, out@),
    ;
}

/// A function applied to rendered lines before they are written.
pub struct RenderHook<F: Fn(&[Vec<Segment>]) -> Vec<Vec<Segment>>> {
    hook: F,
}

impl<F: Fn(&[Vec<Segment>]) -> Vec<Vec<Segment>>> RenderHook<F> {
    /// Whether the function accepts every list of lines.
    #[verifier::type_invariant]
    spec fn callable(self) -> bool {
        forall|l: &[Vec<Segment>]| #[trigger] self.hook.requires((l,))
    }

    /// The function this hook runs.
    pub closed spec fn function(self) -> F {
        self.hook
    }

    /// A hook running `hook`.
    pub fn new(hook: F) -> (h: Self)
        requires
            forall|l: &[Vec<Segment>]| #[trigger] hook.requires((l,)),
        ensures
            h.function() == hook,
    {
        RenderHook { hook }
    }

    /// The lines the function makes of `lines`.
    pub fn apply(&self, lines: &[Vec<Segment>]) -> (out: Vec<Vec<Segment>>)
        ensures
            self.function().ensures((lines,), out),
    {
        proof {
            use_type_invariant(self);
        }
        (self.hook)(lines)
    }
}

impl<F: Fn(&[Vec<Segment>]) -> Vec<Vec<Segment>> + Send> LineHook for RenderHook<F> {
    /// What the function can give for the lines.
    open spec fn rewrites(&self, lines: Seq<Vec<Segment>>, out: Seq<Vec<Segment>>) -> bool {
        exists|l: &[Vec<Segment>], o: Vec<Vec<Segment>>|
            l@ == lines && o@ == out && #[trigger] self.function().ensures((l,), o)
    }

    fn apply_lines(&self, lines: &[Vec<Segment>]) -> (out: Vec<Vec<Segment>>) {
        let out = self.apply(lines);
        assert(self.function().ensures((lines,), out));
        out
    }
}

/// A hook of any kind, boxed.
pub struct HookBox {
    /// The hook.
    pub inner: Box<dyn LineHook>,
}

impl HookBox {
    /// Boxes `hook`.
    pub fn new<F: Fn(&[Vec<Segment>]) -> Vec<Vec<Segment>> + Send + 'static>(hook: RenderHook<F>) -> (b: Self)
        ensures
            b.inner == boxed_hook(hook),
    {
        let inner: Box<dyn LineHook> = Box::new(hook);
        HookBox { inner }
    }
}

#[verifier::external_type_specification]
#[verifier::external_body]
pub struct ExFormatter<'a>(core::fmt::Formatter<'a>);

#[verifier::external_type_specification]
#[verifier::external_body]
pub struct ExFmtError(core::fmt::Error);

impl core::fmt::Debug for HookBox {
    /// Writes the name of the type (`core::fmt::Formatter::write_str`).
    #[verifier::external_body]
    fn fmt(&self, f: &mut core::fmt::Formatter<'_>) -> core::fmt::Result {
        f.write_str("HookBox")
    }
}

/// Whether `out` is what the hooks `hs` make of `lines`, applied in order.
pub open spec fn hooks_rewrite(hs: Seq<HookBox>, lines: Seq<Vec<Segment>>, out: Seq<Vec<Segment>>) -> bool
    decreases hs.len(),
{
    if hs.len() == 0 {
        out == lines
    } else {
        exists|mid: Seq<Vec<Segment>>|
            hooks_rewrite(hs.drop_last(), lines, mid) && #[trigger] hs.last().inner.rewrites(mid, out)
    }
}

/// Hooks applied to rendered lines one after another, in the order they
/// were added.
#[derive(Debug)]
pub struct RenderHooks {
    /// The hooks, first added first.
    pub hooks: Vec<HookBox>,
}

impl RenderHooks {
    /// No hooks.
    pub fn new() -> (r: Self)
        ensures
            r.hooks@.len() == 0,
    {
        RenderHooks { hooks: Vec::new() }
    }

    /// Adds a hook after the others.
    pub fn push<F: Fn(&[Vec<Segment>]) -> Vec<Vec<Segment>> + Send + 'static>(&mut self, hook: RenderHook<F>)
        ensures
            final(self).hooks@.len() == old(self).hooks@.len() + 1,
            final(self).hooks@.drop_last() == old(self).hooks@,
            final(self).hooks@.last().inner == boxed_hook(hook),
    {
        let b = HookBox::new(hook);
        self.hooks.push(b);
    }

    /// Removes the hook added last and returns it; none when there is none.
    pub fn pop(&mut self) -> (r: Option<HookBox>)
        ensures
            old(self).hooks@.len() == 0 ==> r is None && final(self).hooks@.len() == 0,
            old(self).hooks@.len() > 0 ==> r == Some(old(self).hooks@.last()) && final(self).hooks@
                == old(self).hooks@.drop_last(),
    {
        self.hooks.pop()
    }

    /// The number of hooks.
    pub fn len(&self) -> (n: usize)
        ensures
            n == self.hooks@.len(),
    {
        self.hooks.len()
    }

    /// Whether there are no hooks.
    pub fn is_empty(&self) -> (b: bool)
        ensures
            b == (self.hooks@.len() == 0),
    {
        self.hooks.len() == 0
    }

    /// `lines` put through every hook in turn.
    pub fn apply(&self, lines: Vec<Vec<Segment>>) -> (r: Vec<Vec<Segment>>)
        ensures
            hooks_rewrite(self.hooks@, lines@, r@),
    {
        let ghost base = lines@;
        let mut out = lines;
        let mut k: usize = 0;
        assert(self.hooks@.take(0) =~= Seq::<HookBox>::empty());
        while k < self.hooks.len()
            invariant
                k <= self.hooks@.len(),
                hooks_rewrite(self.hooks@.take(k as int), base, out@),
            decreases self.hooks.len() - k,
        {
            out = self.hooks[k].inner.apply_lines(out.as_slice());
            assert(self.hooks@.take(k + 1).drop_last() =~= self.hooks@.take(k as int));
            assert(self.hooks@.take(k + 1).last() == self.hooks@[k as int]);
            k = k + 1;
        }
        assert(self.hooks@.take(k as int) =~= self.hooks@);
        out
    }
}

/// The console: its size, color system, theme and flags, and the output it
/// has produced. Output is collected here, in the order it was written,
/// for the caller to send to the terminal or file (`take_output`); while a
/// capture runs it is collected in the capture instead.
#[derive(Debug)]
pub struct Console {
    /// The color system output is written for.
    pub color_system: ColorSystem,
    /// The current theme.
    pub theme: Theme,
    /// The options renderables are rendered with.
    pub options: ConsoleOptions,
    /// A width set by the caller, if any.
    pub width_override: Option<usize>,
    /// A height set by the caller, if any.
    pub height_override: Option<usize>,
    /// Whether output goes to a terminal.
    pub terminal: bool,
    /// Whether output is suppressed.
    pub quiet: bool,
    /// Whether text wraps at word boundaries.
    pub soft_wrap: bool,
    /// Whether the alternate screen is active.
    pub alt_screen: bool,
    /// Whether the cursor is visible.
    pub cursor_visible: bool,
    /// Spaces per tab.
    pub tab_size: usize,
    /// Whether ASCII-safe boxes are used.
    pub safe_box: bool,
    /// Output written and not yet taken.
    pub output: String,
    /// The capture buffer, while a capture runs.
    pub capture_buf: Option<String>,
    /// The hooks rendered lines go through, in the order they were added.
    pub render_hooks: RenderHooks,
}

/// Output captured from a console.
#[derive(Debug)]
pub struct Capture {
    /// The captured text.
    pub buf: String,
}

impl Capture {
    /// An empty capture.
    pub fn new(console: &Console) -> (c: Self)
        ensures
            c.buf@.len() == 0,
    {
        Capture { buf: String::new() }
    }

    /// The captured text.
    pub fn get(&self) -> (s: String)
        ensures
            s@ == self.buf@,
    {
        self.buf.clone()
    }
}

/// The console state after writing `text`: appended to the capture when
/// one runs, else to the output.
pub open spec fn wrote(before: Console, after: Console, text: Seq<char>) -> bool {
    &&& match before.capture_buf {
        Some(b) => after.capture_buf matches Some(a) && a@ == b@ + text && after.output@ == before.output@,
        None => after.capture_buf is None && after.output@ == before.output@ + text,
    }
}

/// Whether `after` is `before` with an empty capture begun.
pub open spec fn capture_begun(before: Console, after: Console) -> bool {
    &&& after.capture_buf matches Some(b) && b@.len() == 0
    &&& after.output == before.output
    &&& same_settings(before, after)
}

/// Two writes in turn write what both wrote.
pub proof fn lemma_wrote_trans(a: Console, b: Console, c: Console, x: Seq<char>, y: Seq<char>)
    requires
        wrote(a, b, x),
        wrote(b, c, y),
    ensures
        wrote(a, c, x + y),
{
    match a.capture_buf {
        Some(p) => {
            assert(c.capture_buf->0@ =~= p@ + (x + y));
        },
        None => {
            assert(c.output@ =~= a.output@ + (x + y));
        },
    }
}

/// Writing nothing leaves the console as it was written.
pub proof fn lemma_wrote_nothing(a: Console)
    ensures
        wrote(a, a, seq![]),
{
    match a.capture_buf {
        Some(p) => {
            assert(p@ =~= p@ + Seq::<char>::empty());
        },
        None => {
            assert(a.output@ =~= a.output@ + Seq::<char>::empty());
        },
    }
}

/// `c` with `theme` pushed over its theme.
pub open spec fn theme_pushed(c: Console, theme: Theme) -> Console {
    Console { theme: Theme { styles: theme.styles, inherit: Some(Box::new(c.theme)) }, ..c }
}

/// `c` with its theme popped: the theme it was pushed over, or the same
/// styles with nothing under them.
pub open spec fn theme_popped(c: Console) -> Console {
    Console {
        theme: match c.theme.inherit {
            Some(b) => *b,
            None => Theme { styles: c.theme.styles, inherit: None },
        },
        ..c
    }
}

/// Popping a theme undoes pushing it: the console is as it was.
pub proof fn lemma_pop_undoes_push(c: Console, theme: Theme)
    ensures
        theme_popped(theme_pushed(c, theme)) == c,
{
}

/// What is written while a capture runs, begun empty, is what the capture
/// then holds; ending the capture gives it back.
pub proof fn lemma_capture_holds_writes(a: Console, b: Console, text: Seq<char>)
    requires
        a.capture_buf matches Some(buf) && buf@.len() == 0,
        wrote(a, b, text),
    ensures
        b.capture_buf matches Some(buf) && buf@ == text,
        b.output@ == a.output@,
{
    let buf = a.capture_buf->0;
    assert(buf@ + text =~= text);
}

/// Whether two consoles agree on everything but their output.
pub open spec fn same_settings(a: Console, b: Console) -> bool {
    &&& a.color_system == b.color_system
    &&& a.options == b.options
    &&& a.width_override == b.width_override
    &&& a.height_override == b.height_override
    &&& a.terminal == b.terminal
    &&& a.quiet == b.quiet
    &&& a.soft_wrap == b.soft_wrap
    &&& a.alt_screen == b.alt_screen
    &&& a.cursor_visible == b.cursor_visible
    &&& a.tab_size == b.tab_size
    &&& a.safe_box == b.safe_box
    &&& a.render_hooks.hooks@ == b.render_hooks.hooks@
}

impl Console {
    /// A console for output that is not a terminal: standard colors, 80×25,
    /// the default theme.
    pub fn with_file() -> (c: Self)
        ensures
            c.color_system == ColorSystem::Standard,
            !c.terminal,
            c.options.size == (ConsoleDimensions { width: 80, height: 25 }),
            !c.options.is_terminal,
            c.options.max_width == 80,
            c.options.max_height == 25,
            c.width_override is None && c.height_override is None,
            !c.quiet && !c.soft_wrap && !c.alt_screen && c.cursor_visible,
            c.tab_size == 8 && c.safe_box,
            c.output@.len() == 0,
            c.capture_buf is None,
            c.render_hooks.hooks@.len() == 0,
    {
        let mut options = ConsoleOptions::with_size(ConsoleDimensions { width: 80, height: 25 });
        options.is_terminal = false;
        Console {
            color_system: ColorSystem::Standard,
            theme: default_theme(),
            options,
            width_override: None,
            height_override: None,
            terminal: false,
            quiet: false,
            soft_wrap: false,
            alt_screen: false,
            cursor_visible: true,
            tab_size: 8,
            safe_box: true,
            output: String::new(),
            capture_buf: None,
            render_hooks: RenderHooks::new(),
        }
    }

    /// A console for a terminal (or not) of the given size and color system:
    /// it renders one column narrower than the terminal, so that a full line
    /// does not wrap.
    pub fn for_terminal(is_terminal: bool, color_system: ColorSystem, size: ConsoleDimensions) -> (c: Self)
        ensures
            c.color_system == color_system,
            c.terminal == is_terminal,
            c.options.size == size,
            c.options.is_terminal == is_terminal,
            c.options.max_width == if size.width > 0 { size.width - 1 } else { 0 },
            c.options.max_height == size.height,
            c.width_override is None && c.height_override is None,
            !c.quiet && !c.soft_wrap && !c.alt_screen && c.cursor_visible,
            c.tab_size == 8 && c.safe_box,
            c.output@.len() == 0,
            c.capture_buf is None,
            c.render_hooks.hooks@.len() == 0,
    {
        let mut options = ConsoleOptions::with_size(size);
        options.is_terminal = is_terminal;
        options.max_width = if size.width > 0 {
            size.width - 1
        } else {
            0
        };
        options.max_height = size.height;
        Console {
            color_system,
            theme: default_theme(),
            options,
            width_override: None,
            height_override: None,
            terminal: is_terminal,
            quiet: false,
            soft_wrap: false,
            alt_screen: false,
            cursor_visible: true,
            tab_size: 8,
            safe_box: true,
            output: String::new(),
            capture_buf: None,
            render_hooks: RenderHooks::new(),
        }
    }

    /// Writes `text` to the capture when one runs, else to the output.
    pub fn write_str(&mut self, text: &str)
        ensures
            wrote(*old(self), *final(self), text@),
            same_settings(*old(self), *final(self)),
    {
        match &mut self.capture_buf {
            Some(b) => push_str(b, text),
            None => push_str(&mut self.output, text),
        }
    }

    /// Takes the output written so far, leaving none.
    pub fn take_output(&mut self) -> (s: String)
        ensures
            s@ == old(self).output@,
            final(self).output@.len() == 0,
            final(self).capture_buf == old(self).capture_buf,
            same_settings(*old(self), *final(self)),
    {
        let mut s = String::new();
        std::mem::swap(&mut s, &mut self.output);
        s
    }

    /// Sets the width.
    pub fn set_width(&mut self, width: usize)
        ensures
            *final(self) == (Console {
                width_override: Some(width),
                options: ConsoleOptions { max_width: width, ..old(self).options },
                ..*old(self)
            }),
    {
        self.width_override = Some(width);
        self.options.max_width = width;
    }

    /// Sets the height.
    pub fn set_height(&mut self, height: usize)
        ensures
            *final(self) == (Console {
                height_override: Some(height),
                options: ConsoleOptions { max_height: height, ..old(self).options },
                ..*old(self)
            }),
    {
        self.height_override = Some(height);
        self.options.max_height = height;
    }

    /// The width: the one set, else the terminal's.
    pub fn width(&self) -> (w: usize)
        ensures
            w == match self.width_override {
                Some(v) => v,
                None => self.options.size.width,
            },
    {
        match self.width_override {
            Some(v) => v,
            None => self.options.size.width,
        }
    }

    /// The height: the one set, else the terminal's.
    pub fn height(&self) -> (h: usize)
        ensures
            h == match self.height_override {
                Some(v) => v,
                None => self.options.size.height,
            },
    {
        match self.height_override {
            Some(v) => v,
            None => self.options.size.height,
        }
    }

    /// Sets both dimensions.
    pub fn set_size(&mut self, width: usize, height: usize)
        ensures
            final(self).width_override == Some(width),
            final(self).height_override == Some(height),
            final(self).options == (ConsoleOptions {
                max_width: width,
                max_height: height,
                size: ConsoleDimensions { width, height },
                ..old(self).options
            }),
            final(self).output == old(self).output,
    {
        self.width_override = Some(width);
        self.height_override = Some(height);
        self.options.max_width = width;
        self.options.max_height = height;
        self.options.size = ConsoleDimensions { width, height };
    }

    /// The width and height.
    pub fn size(&self) -> (d: ConsoleDimensions)
        ensures
            d.width == match self.width_override {
                Some(v) => v,
                None => self.options.size.width,
            },
            d.height == match self.height_override {
                Some(v) => v,
                None => self.options.size.height,
            },
    {
        ConsoleDimensions { width: self.width(), height: self.height() }
    }

    /// Whether output goes to a terminal.
    pub fn is_terminal(&self) -> (b: bool)
        ensures
            b == self.terminal,
    {
        self.terminal
    }

    /// Whether the alternate screen is active.
    pub fn is_alt_screen(&self) -> (b: bool)
        ensures
            b == self.alt_screen,
    {
        self.alt_screen
    }

    /// Sets whether output is suppressed.
    pub fn set_quiet(&mut self, quiet: bool)
        ensures
            *final(self) == (Console { quiet, ..*old(self) }),
    {
        self.quiet = quiet;
    }

    /// This console with output suppressed or not.
    pub fn quiet(self, quiet: bool) -> (c: Self)
        ensures
            c == (Console { quiet, ..self }),
    {
        let mut c = self;
        c.quiet = quiet;
        c
    }

    /// Sets whether text wraps at word boundaries.
    pub fn set_soft_wrap(&mut self, soft_wrap: bool)
        ensures
            *final(self) == (Console { soft_wrap, ..*old(self) }),
    {
        self.soft_wrap = soft_wrap;
    }

    /// This console with soft wrapping on or off.
    pub fn soft_wrap(self, soft_wrap: bool) -> (c: Self)
        ensures
            c == (Console { soft_wrap, ..self }),
    {
        let mut c = self;
        c.soft_wrap = soft_wrap;
        c
    }

    /// Broken pipes need no handling: writes here cannot fail.
    pub fn on_broken_pipe(&self) {
    }

    /// Clears the screen, unless quiet.
    pub fn clear(&mut self)
        ensures
            old(self).quiet ==> *final(self) == *old(self),
            !old(self).quiet ==> wrote(*old(self), *final(self), crate::control::CLEAR_HOME@),
    {
        if self.quiet {
            return;
        }
        self.write_str(crate::control::CLEAR_HOME);
    }

    /// Shows the cursor.
    pub fn show_cursor(&mut self)
        ensures
            final(self).cursor_visible,
            wrote(*old(self), *final(self), crate::control::CURSOR_SHOW@),
    {
        self.cursor_visible = true;
        self.write_str(crate::control::CURSOR_SHOW);
    }

    /// Hides the cursor.
    pub fn hide_cursor(&mut self)
        ensures
            !final(self).cursor_visible,
            wrote(*old(self), *final(self), crate::control::CURSOR_HIDE@),
    {
        self.cursor_visible = false;
        self.write_str(crate::control::CURSOR_HIDE);
    }

    /// Shows or hides the cursor.
    pub fn set_cursor_visible(&mut self, visible: bool)
        ensures
            final(self).cursor_visible == visible,
            wrote(
                *old(self),
                *final(self),
                if visible { crate::control::CURSOR_SHOW@ } else { crate::control::CURSOR_HIDE@ },
            ),
    {
        self.cursor_visible = visible;
        if visible {
            self.write_str(crate::control::CURSOR_SHOW);
        } else {
            self.write_str(crate::control::CURSOR_HIDE);
        }
    }

    /// Sets the terminal window title (`ESC ] 0 ; title BEL`).
    pub fn set_window_title(&mut self, title: &str)
        ensures
            wrote(*old(self), *final(self), seq!['\u{1b}', ']', '0', ';'] + title@ + seq!['\u{7}']),
    {
        let mut s = String::new();
        crate::strutil::push_char(&mut s, '\u{1b}');
        crate::strutil::push_char(&mut s, ']');
        crate::strutil::push_char(&mut s, '0');
        crate::strutil::push_char(&mut s, ';');
        push_str(&mut s, title);
        crate::strutil::push_char(&mut s, '\u{7}');
        assert(s@ =~= seq!['\u{1b}', ']', '0', ';'] + title@ + seq!['\u{7}']);
        self.write_str(s.as_str());
    }

    /// Enters or leaves the alternate screen.
    pub fn set_alt_screen(&mut self, enable: bool)
        ensures
            final(self).alt_screen == enable,
            wrote(
                *old(self),
                *final(self),
                if enable { crate::control::ALT_SCREEN_ENTER@ } else { crate::control::ALT_SCREEN_EXIT@ },
            ),
    {
        self.alt_screen = enable;
        if enable {
            self.write_str(crate::control::ALT_SCREEN_ENTER);
        } else {
            self.write_str(crate::control::ALT_SCREEN_EXIT);
        }
    }

    /// Clears the live display area.
    pub fn clear_live(&mut self)
        ensures
            wrote(*old(self), *final(self), crate::control::CLEAR_HOME@),
    {
        self.write_str(crate::control::CLEAR_HOME);
    }

    /// Rings the bell, unless quiet.
    pub fn bell(&mut self)
        ensures
            old(self).quiet ==> *final(self) == *old(self),
            !old(self).quiet ==> wrote(*old(self), *final(self), seq!['\x07']),
    {
        if self.quiet {
            return;
        }
        proof {
            reveal_strlit("\x07");
        }
        assert("\x07"@ =~= seq!['\x07']);
        self.write_str("\x07");
    }

    /// Writes `count` empty lines, unless quiet.
    pub fn line(&mut self, count: usize)
        ensures
            old(self).quiet ==> *final(self) == *old(self),
            !old(self).quiet ==> wrote(*old(self), *final(self), Seq::new(count as nat, |i: int| '\n')),
    {
        if self.quiet {
            return;
        }
        let mut s = String::new();
        let mut i: usize = 0;
        while i < count
            invariant
                i <= count,
                s@ == Seq::new(i as nat, |k: int| '\n'),
            decreases count - i,
        {
            crate::strutil::push_char(&mut s, '\n');
            i = i + 1;
            assert(s@ =~= Seq::new(i as nat, |k: int| '\n'));
        }
        self.write_str(s.as_str());
    }

    /// Starts capturing output.
    pub fn begin_capture(&mut self)
        ensures
            final(self).capture_buf matches Some(b) && b@.len() == 0,
            final(self).output == old(self).output,
            same_settings(*old(self), *final(self)),
    {
        self.capture_buf = Some(String::new());
    }

    /// Stops capturing and returns what was captured; an error when no
    /// capture runs.
    pub fn end_capture(&mut self) -> (r: Result<Capture, CaptureError>)
        ensures
            final(self).capture_buf is None,
            final(self).output == old(self).output,
            same_settings(*old(self), *final(self)),
            match old(self).capture_buf {
                Some(b) => r matches Ok(c) && c.buf@ == b@,
                None => r == Err::<Capture, CaptureError>(CaptureError::NotCapturing),
            },
    {
        let mut taken: Option<String> = None;
        std::mem::swap(&mut taken, &mut self.capture_buf);
        match taken {
            Some(b) => Ok(Capture { buf: b }),
            None => Err(CaptureError::NotCapturing),
        }
    }

    /// Runs `f` on this console with its output captured, and returns what it
    /// wrote while the capture ran; an error when `f` ended the capture
    /// itself.
    pub fn capture<F: FnOnce(&mut Console)>(&mut self, f: F) -> (r: Result<String, CaptureError>)
        requires
            forall|c: &mut Console| #[trigger] f.requires((c,)),
        ensures
            final(self).capture_buf is None,
            exists|m: &mut Console|
                capture_begun(*old(self), *m) && #[trigger] f.ensures((m,), ()) && final(self).output == final(m).output
                    && same_settings(*final(m), *final(self)) && match final(m).capture_buf {
                    Some(b) => r matches Ok(t) && t@ == b@,
                    None => r == Err::<String, CaptureError>(CaptureError::NotCapturing),
                },
    {
        self.begin_capture();
        let ghost pre = *self;
        f(self);
        let ghost post = *self;
        assert(exists|m: &mut Console| *m == pre && *final(m) == post && #[trigger] f.ensures((m,), ()));
        let r = match self.end_capture() {
            Ok(cap) => Ok(cap.buf),
            Err(e) => Err(e),
        };
        r
    }

    /// Renders `renderable` and writes its ANSI text, separated by `sep` and
    /// ended by `end`, unless quiet.
    pub fn print(&mut self, objects: &[&dyn Renderable], sep: &str, end: &str)
        ensures
            old(self).quiet ==> *final(self) == *old(self),
            !old(self).quiet ==> exists|rs: Seq<RenderResult>|
                all_render(objects@, old(self).options, rs) && wrote(
                    *old(self),
                    *final(self),
                    #[trigger] joined_results(rs, sep@, rs.len()) + end@,
                ),
            same_settings(*old(self), *final(self)),
    {
        if self.quiet {
            return;
        }
        let ghost c0 = *self;
        let ghost mut rs: Seq<RenderResult> = seq![];
        proof {
            lemma_wrote_nothing(c0);
        }
        let mut i: usize = 0;
        while i < objects.len()
            invariant
                i <= objects@.len(),
                same_settings(c0, *self),
                rs.len() == i,
                c0 == *old(self),
                forall|j: int| 0 <= j < i ==> objects@[j].renders(c0.options, #[trigger] rs[j]),
                wrote(c0, *self, joined_results(rs, sep@, i as nat)),
            decreases objects@.len() - i,
        {
            let ghost c1 = *self;
            if i > 0 {
                self.write_str(sep);
            }
            let ghost c2 = *self;
            let result = objects[i].render(&self.options);
            let ansi = result.to_ansi();
            self.write_str(ansi.as_str());
            proof {
                if i > 0 {
                    lemma_wrote_trans(c0, c1, c2, joined_results(rs, sep@, i as nat), sep@);
                } else {
                    lemma_wrote_nothing(c1);
                    assert(joined_results(rs, sep@, i as nat) + Seq::<char>::empty() =~= joined_results(rs, sep@, i as nat));
                }
                let pre = joined_results(rs, sep@, i as nat) + (if i > 0 { sep@ } else { seq![] });
                lemma_wrote_trans(c0, c2, *self, pre, ansi@);
                lemma_joined_push(rs, result, sep@, i as nat);
                rs = rs.push(result);
                assert(ansi@ == crate::segment::segments_ansi(result_segments(result)));
                assert(joined_results(rs, sep@, (i + 1) as nat) =~= pre + ansi@);
            }
            i = i + 1;
        }
        let ghost c3 = *self;
        self.write_str(end);
        proof {
            lemma_wrote_trans(c0, c3, *self, joined_results(rs, sep@, i as nat), end@);
            assert(all_render(objects@, c0.options, rs));
        }
    }

    /// Renders `renderable` and writes its ANSI text and a newline, unless
    /// quiet.
    pub fn println(&mut self, renderable: &dyn Renderable)
        ensures
            old(self).quiet ==> *final(self) == *old(self),
            !old(self).quiet ==> exists|res: RenderResult|
                renderable.renders(old(self).options, res) && wrote(
                    *old(self),
                    *final(self),
                    crate::segment::segments_ansi(#[trigger] result_segments(res)) + seq!['\n'],
                ),
            same_settings(*old(self), *final(self)),
    {
        if self.quiet {
            return;
        }
        let result = renderable.render(&self.options);
        let mut ansi = result.to_ansi();
        crate::strutil::push_char(&mut ansi, '\n');
        self.write_str(ansi.as_str());
        assert(ansi@ == crate::segment::segments_ansi(result_segments(result)) + seq!['\n']);
    }

    /// Writes `text`, read as markup when markup is on (else with escape
    /// sequences removed), unless quiet.
    pub fn print_str(&mut self, text: &str)
        ensures
            old(self).quiet ==> *final(self) == *old(self),
            same_settings(*old(self), *final(self)),
            !old(self).quiet && !old(self).options.markup ==> wrote(
                *old(self),
                *final(self),
                crate::export::strip_from(text@, 0),
            ),
            !old(self).quiet && old(self).options.markup ==> exists|t: Text|
                (t.plain@, crate::markup::spans_view(t.spans@)) == crate::markup::markup_spec(text@)
                    && wrote(*old(self), *final(self), crate::text::text_render_spec(t)),
    {
        if self.quiet {
            return;
        }
        if self.options.markup {
            let t = crate::markup::render(text);
            let ansi = t.render();
            self.write_str(ansi.as_str());
        } else {
            let s = crate::export::strip_ansi_escapes(text);
            self.write_str(s.as_str());
        }
    }

    /// The ANSI code of `color` as this console's color system shows it.
    pub fn color_ansi(&self, color: &Color) -> (s: String)
        ensures
            s@ == crate::color::color_text(crate::color::downgrade_value(color@, self.color_system)),
    {
        let d = color.downgrade(self.color_system);
        d.to_string()
    }

    /// The segments of `renderable` rendered with `options`.
    pub fn render(&self, renderable: &dyn Renderable, options: &ConsoleOptions) -> (r: Vec<Segment>)
        ensures
            exists|res: RenderResult| renderable.renders(*options, res) && r@ == #[trigger] result_segments(res),
    {
        let result = renderable.render(options);
        let r = result.flatten(options);
        assert(r@ == result_segments(result));
        r
    }

    /// The widths `renderable` can take: its own measure when it has one,
    /// else from its widest segment up to the available width.
    pub fn measure(&self, renderable: &dyn Renderable, options: &ConsoleOptions) -> (m: Measurement)
        ensures
            exists|segs: Seq<Segment>|
                #[trigger] measured(renderable.own_measure(*options), segs, options.max_width, m) && (
                renderable.own_measure(*options) is None ==> exists|res: RenderResult|
                    renderable.renders(*options, res) && segs == #[trigger] result_segments(res)),
    {
        match renderable.measure(options) {
            Some(m) => {
                assert(measured(Some(m), Seq::<Segment>::empty(), options.max_width, m));
                m
            },
            None => {
                let result = renderable.render(options);
                let segs = result.flatten(options);
                assert(segs@ == result_segments(result));
                let mut w: usize = 0;
                let mut i: usize = 0;
                while i < segs.len()
                    invariant
                        i <= segs.len(),
                        w == widest_segment(segs@, i as nat),
                    decreases segs.len() - i,
                {
                    let c = segs[i].cell_length();
                    if c > w {
                        w = c;
                    }
                    i = i + 1;
                }
                let m = Measurement::new(w, options.max_width);
                assert(widest_segment(segs@, segs@.len()) == w);
                assert(measured(None, segs@, options.max_width, m));
                m
            },
        }
    }

    /// Pushes `theme`, which inherits the current one.
    pub fn push_theme(&mut self, theme: Theme)
        ensures
            *final(self) == theme_pushed(*old(self), theme),
    {
        let mut t = theme;
        let mut prev = Theme::new();
        std::mem::swap(&mut prev, &mut self.theme);
        t.inherit = Some(Box::new(prev));
        self.theme = t;
    }

    /// Restores the theme the current one was pushed over, if any.
    pub fn pop_theme(&mut self)
        ensures
            *final(self) == theme_popped(*old(self)),
    {
        let mut cur = Theme::new();
        std::mem::swap(&mut cur, &mut self.theme);
        match cur.inherit {
            Some(b) => {
                self.theme = *b;
            },
            None => {
                self.theme = Theme { styles: cur.styles, inherit: None };
            },
        }
    }

    /// The lines `renderable` renders to: its lines, or its items as one
    /// line when it has items but no lines.
    pub fn render_to_lines(&self, renderable: &dyn Renderable, options: &ConsoleOptions) -> (r: Vec<Vec<Segment>>)
        ensures
            exists|res: RenderResult, base: Seq<Vec<Segment>>|
                renderable.renders(*options, res) && #[trigger] result_lines(res, base) && hooks_rewrite(
                    self.render_hooks.hooks@,
                    base,
                    r@,
                ),
    {
        let result = renderable.render(options);
        let ghost res = result;
        let lines = lines_of_result(result, options);
        let ghost base = lines@;
        assert(result_lines(res, base));
        let r = self.render_hooks.apply(lines);
        assert(renderable.renders(*options, res) && result_lines(res, base) && hooks_rewrite(
            self.render_hooks.hooks@,
            base,
            r@,
        ));
        r
    }

    /// Adds a hook that rendered lines go through after the others.
    pub fn push_render_hook<F: Fn(&[Vec<Segment>]) -> Vec<Vec<Segment>> + Send + 'static>(&mut self, hook: RenderHook<F>)
        ensures
            final(self).render_hooks.hooks@.len() == old(self).render_hooks.hooks@.len() + 1,
            final(self).render_hooks.hooks@.drop_last() == old(self).render_hooks.hooks@,
            final(self).render_hooks.hooks@.last().inner == boxed_hook(hook),
            final(self).output == old(self).output,
            final(self).capture_buf == old(self).capture_buf,
            final(self).theme == old(self).theme,
            final(self).options == old(self).options,
    {
        self.render_hooks.push(hook);
    }

    /// Removes the hook added last and returns it; none when there is none.
    pub fn pop_render_hook(&mut self) -> (r: Option<HookBox>)
        ensures
            old(self).render_hooks.hooks@.len() == 0 ==> r is None && final(self).render_hooks.hooks@.len() == 0,
            old(self).render_hooks.hooks@.len() > 0 ==> r == Some(old(self).render_hooks.hooks@.last())
                && final(self).render_hooks.hooks@ == old(self).render_hooks.hooks@.drop_last(),
            final(self).output == old(self).output,
            final(self).capture_buf == old(self).capture_buf,
            final(self).theme == old(self).theme,
            final(self).options == old(self).options,
    {
        self.render_hooks.pop()
    }

    /// `text` as ANSI text with no style.
    pub fn render_ansi(&self, text: &str) -> (r: String)
        ensures
            r@ == text@,
    {
        let t = Text::new(text);
        proof {
            crate::text::lemma_plain_render(t);
        }
        t.render()
    }

    /// `renderable` exported as an SVG document with default options.
    pub fn export_svg(&self, renderable: &dyn Renderable) -> (r: String)
        ensures
            exists|res: RenderResult, o: crate::export::ExportSvgOptions, th: crate::export::ExportTheme|
                renderable.renders(self.options, res) && o.font_family@ == "'Fira Code', 'Cascadia Code', 'JetBrains Mono', monospace"@ && o.font_size == 14
                    && crate::export::is_svg_theme(o.theme) && o.width == 800 && o.height == 600
                    && th.background == (0u8, 0u8, 0u8) && th.foreground == (255u8, 255u8, 255u8)
                    && th.ansi_colors@ == seq![(0u8, 0u8, 0u8), (128u8, 0u8, 0u8), (0u8, 128u8, 0u8), (128u8, 128u8, 0u8), (0u8, 0u8, 128u8), (128u8, 0u8, 128u8), (0u8, 128u8, 128u8), (192u8, 192u8, 192u8), (128u8, 128u8, 128u8), (255u8, 0u8, 0u8), (0u8, 255u8, 0u8), (255u8, 255u8, 0u8), (0u8, 0u8, 255u8), (255u8, 0u8, 255u8), (0u8, 255u8, 255u8), (255u8, 255u8, 255u8)]
                    && o.code@ == #[trigger] crate::export::concat_upto(result_segments(res), th, result_segments(res).len(), true)
                    && r@ == #[trigger] crate::export::export_svg_spec(o),
    {
        let result = renderable.render(&self.options);
        let segments = result.flatten(&self.options);
        let theme = crate::export::ExportTheme::default();
        let code = crate::export::segments_to_svg(segments.as_slice(), &theme);
        let mut o = crate::export::ExportSvgOptions::default();
        o.code = code;
        assert(segments@ == result_segments(result));
        crate::export::export_svg(&o)
    }

    /// `renderable` exported as an HTML document with default options.
    pub fn export_html(&self, renderable: &dyn Renderable) -> (r: String)
        ensures
            exists|res: RenderResult, o: crate::export::ExportHtmlOptions, th: crate::export::ExportTheme|
                renderable.renders(self.options, res)
                    && o.font_family@ == "'Fira Code', 'Cascadia Code', 'JetBrains Mono', 'Source Code Pro', Menlo, Consolas, monospace"@
                    && o.font_size == 14 && o.line_height@ == "1.45"@ && o.theme.background == (0u8, 0u8, 0u8)
                    && o.theme.foreground == (255u8, 255u8, 255u8)
                    && th.background == (0u8, 0u8, 0u8) && th.foreground == (255u8, 255u8, 255u8)
                    && th.ansi_colors@ == seq![(0u8, 0u8, 0u8), (128u8, 0u8, 0u8), (0u8, 128u8, 0u8), (128u8, 128u8, 0u8), (0u8, 0u8, 128u8), (128u8, 0u8, 128u8), (0u8, 128u8, 128u8), (192u8, 192u8, 192u8), (128u8, 128u8, 128u8), (255u8, 0u8, 0u8), (0u8, 255u8, 0u8), (255u8, 255u8, 0u8), (0u8, 0u8, 255u8), (255u8, 0u8, 255u8), (0u8, 255u8, 255u8), (255u8, 255u8, 255u8)]
                    && o.code@ == #[trigger] crate::export::concat_upto(result_segments(res), th, result_segments(res).len(), false)
                    && r@ == #[trigger] crate::export::export_html_spec(o),
    {
        let result = renderable.render(&self.options);
        let segments = result.flatten(&self.options);
        let theme = crate::export::ExportTheme::default();
        let code = crate::export::segments_to_html(segments.as_slice(), &theme);
        let mut o = crate::export::ExportHtmlOptions::default();
        o.code = code;
        assert(segments@ == result_segments(result));
        crate::export::export_html(&o)
    }

    /// An SVG document for `options`.
    pub fn export_svg_opts(&self, options: &crate::export::ExportSvgOptions) -> (r: String)
        ensures
            r@ == crate::export::export_svg_spec(*options),
    {
        crate::export::export_svg(options)
    }

    /// `renderable` exported as plain text, escape sequences removed.
    pub fn export_text(&self, renderable: &dyn Renderable) -> (r: String)
        ensures
            exists|res: RenderResult|
                renderable.renders(self.options, res) && r@ == crate::export::strip_from(crate::segment::segments_ansi(#[trigger] result_segments(res)), 0),
    {
        let result = renderable.render(&self.options);
        let ansi = result.to_ansi();
        assert(ansi@ == crate::segment::segments_ansi(result_segments(result)));
        let o = crate::export::ExportTextOptions { text: ansi, strip_ansi: true };
        crate::export::export_text(&o)
    }

    /// Clears the screen and writes the segments of `renderable`.
    pub fn update_screen(&mut self, renderable: &dyn Renderable, options: Option<&ConsoleOptions>)
        ensures
            same_settings(*old(self), *final(self)),
            exists|res: RenderResult|
                renderable.renders(
                    match options {
                        Some(o) => *o,
                        None => old(self).options,
                    },
                    res,
                ) && wrote(*old(self), *final(self), crate::control::CLEAR_HOME@ + crate::segment::segments_ansi(#[trigger] result_segments(res))),
    {
        let opts = match options {
            Some(o) => o.clone(),
            None => self.options.clone(),
        };
        let result = renderable.render(&opts);
        let segments = result.flatten(&opts);
        let body = crate::segment::segments_to_ansi(&segments);
        let mut s = owned(crate::control::CLEAR_HOME);
        push_str(&mut s, body.as_str());
        let ghost res = result;
        self.write_str(s.as_str());
        assert(s@ == crate::control::CLEAR_HOME@ + crate::segment::segments_ansi(result_segments(res)));
    }

    /// Clears the screen and writes `lines`, each followed by a newline.
    pub fn update_screen_lines(&mut self, lines: &Vec<Vec<Segment>>, options: Option<&ConsoleOptions>)
        ensures
            wrote(*old(self), *final(self), crate::control::CLEAR_HOME@ + lines_ansi(lines@, lines@.len())),
    {
        let mut s = owned(crate::control::CLEAR_HOME);
        let mut i: usize = 0;
        while i < lines.len()
            invariant
                i <= lines.len(),
                s@ == crate::control::CLEAR_HOME@ + lines_ansi(lines@, i as nat),
            decreases lines.len() - i,
        {
            let a = crate::segment::segments_to_ansi(&lines[i]);
            push_str(&mut s, a.as_str());
            crate::strutil::push_char(&mut s, '\n');
            i = i + 1;
            assert(s@ =~= crate::control::CLEAR_HOME@ + lines_ansi(lines@, i as nat));
        }
        self.write_str(s.as_str());
    }
}

/// The ANSI text of the first `k` lines, each followed by a newline.
pub open spec fn lines_ansi(lines: Seq<Vec<Segment>>, k: nat) -> Seq<char>
    decreases k,
{
    if k == 0 || k > lines.len() {
        seq![]
    } else {
        lines_ansi(lines, (k - 1) as nat) + segments_ansi(lines[k - 1]@) + seq!['\n']
    }
}

/// The lines of a render result: its lines, or, when it has none but has
/// items, the items as one line (no lines when they flatten to nothing).
pub fn lines_of_result(result: RenderResult, options: &ConsoleOptions) -> (r: Vec<Vec<Segment>>)
    ensures
        !(result.lines@.len() == 0 && result.items@.len() > 0) ==> r@ == result.lines@,
        result.lines@.len() == 0 && result.items@.len() > 0 ==> r@.len() == 1 && r@[0]@ == item_segments(
            result.items@,
        ),
{
    if result.lines.len() == 0 && result.items.len() > 0 {
        let flat = result.flatten(options);
        let mut v: Vec<Vec<Segment>> = Vec::new();
        if flat.len() > 0 {
            v.push(flat);
        }
        v
    } else {
        result.lines
    }
}

/// Sets the width, height and color system of `console` where given.
pub fn reconfigure(
    console: &mut Console,
    width: Option<usize>,
    height: Option<usize>,
    color_system: Option<ColorSystem>,
)
    ensures
        final(console).width_override == match width {
            Some(w) => Some(w),
            None => old(console).width_override,
        },
        final(console).height_override == match height {
            Some(h) => Some(h),
            None => old(console).height_override,
        },
        final(console).color_system == match color_system {
            Some(c) => c,
            None => old(console).color_system,
        },
        final(console).output == old(console).output,
{
    match width {
        Some(w) => console.set_width(w),
        None => {},
    }
    match height {
        Some(h) => console.set_height(h),
        None => {},
    }
    match color_system {
        Some(c) => {
            console.color_system = c;
        },
        None => {},
    }
}


impl Console {
    /// The theme style called `name`; else, when `default` is not empty,
    /// the style `default` names as a markup tag would.
    pub fn get_style(&self, name: &str, default: &str) -> (r: Option<Style>)
        ensures
            crate::theme::lookup(self.theme.styles@, name@) matches Some(st) ==> r == Some(st),
            crate::theme::lookup(self.theme.styles@, name@) is None && default@.len() == 0 ==> r is None,
            crate::theme::lookup(self.theme.styles@, name@) is None && default@.len() > 0 ==> (r matches Some(st)
                && crate::markup::style_view(st) == crate::markup::tag_style_spec(default@, None)),
    {
        match self.theme.get(name) {
            Some(st) => Some(st),
            None => {
                if default.unicode_len() == 0 {
                    None
                } else {
                    let tag = crate::markup::Tag::new(default);
                    Some(crate::markup::tag_to_style(&tag))
                }
            },
        }
    }

    /// A text of `text` in the theme style called `style`, if there is one.
    pub fn render_str(&self, text: &str, style: &str) -> (t: Text)
        ensures
            t.plain@ == text@,
            t.spans@.len() == 0,
            crate::theme::lookup(self.theme.styles@, style@) matches Some(st) ==> t.style == st,
            crate::theme::lookup(self.theme.styles@, style@) is None ==> t.style == crate::style::empty_style(),
    {
        let t = Text::new(text);
        proof {
            reveal_strlit("");
        }
        match self.get_style(style, "") {
            Some(st) => t.style(st),
            None => t,
        }
    }

    /// Writes that there is no exception to report, in bold red, and a
    /// newline.
    pub fn print_exception(&mut self, width: Option<usize>, extra_lines: usize)
        ensures
            old(self).quiet ==> *final(self) == *old(self),
            !old(self).quiet ==> exists|t: Text|
                (t.plain@, crate::markup::spans_view(t.spans@)) == crate::markup::markup_spec(
                    "[bold red]Exception[/bold red]: No current exception info. "@,
                ) && t.style == crate::style::empty_style() && wrote(
                    *old(self),
                    *final(self),
                    #[trigger] crate::text::text_render_spec(t) + seq!['\n'],
                ),
            same_settings(*old(self), *final(self)),
    {
        if self.quiet {
            return;
        }
        let t = crate::markup::render("[bold red]Exception[/bold red]: No current exception info. ");
        let mut out = t.render();
        crate::strutil::push_char(&mut out, '\n');
        self.write_str(out.as_str());
        assert(out@ == crate::text::text_render_spec(t) + seq!['\n']);
    }

    /// Puts `theme` in use and gives back the theme it replaces, to be put
    /// back when done.
    pub fn use_theme(&mut self, theme: Theme) -> (prev: Theme)
        ensures
            final(self).theme == theme,
            prev == old(self).theme,
            same_settings(*old(self), *final(self)),
            final(self).output == old(self).output,
    {
        let mut t = theme;
        std::mem::swap(&mut t, &mut self.theme);
        t
    }

    /// A context that gathers text for the pager running `command`,
    /// keeping styles when `styles` is set.
    pub fn pager(&self, styles: bool, command: &str) -> (c: crate::pager::PagerContext)
        ensures
            c.enabled,
            c.pager.color == styles,
            c.pager.command@ == command@,
            c.content@.len() == 0,
    {
        crate::pager::PagerContext::new(crate::pager::Pager::new(command).color(styles))
    }
}

/// The color system the environment calls for: truecolor when `COLORTERM`
/// is `truecolor` or `24bit`; 256 colors when `TERM` contains `256color`;
/// truecolor for `xterm-kitty`; standard colors when `NO_COLOR` is set;
/// else truecolor for a terminal and standard colors otherwise.
pub open spec fn color_system_spec(colorterm: Option<Seq<char>>, term: Option<Seq<char>>, no_color: bool, is_terminal: bool) -> ColorSystem {
    if colorterm == Some("truecolor"@) || colorterm == Some("24bit"@) {
        ColorSystem::TrueColor
    } else if term is Some && crate::strutil::contains_spec(term->0, "256color"@) {
        ColorSystem::EightBit
    } else if term == Some("xterm-kitty"@) {
        ColorSystem::TrueColor
    } else if no_color {
        ColorSystem::Standard
    } else if is_terminal {
        ColorSystem::TrueColor
    } else {
        ColorSystem::Standard
    }
}

/// The color system for the values of `COLORTERM` and `TERM` (when set),
/// whether `NO_COLOR` is set, and whether output goes to a terminal.
pub fn color_system_for(colorterm: Option<&str>, term: Option<&str>, no_color: bool, is_terminal: bool) -> (c: ColorSystem)
    ensures
        c == color_system_spec(
            match colorterm {
                Some(v) => Some(v@),
                None => None,
            },
            match term {
                Some(v) => Some(v@),
                None => None,
            },
            no_color,
            is_terminal,
        ),
{
    match colorterm {
        Some(v) => {
            if crate::strutil::str_eq(v, "truecolor") || crate::strutil::str_eq(v, "24bit") {
                return ColorSystem::TrueColor;
            }
        },
        None => {},
    }
    match term {
        Some(t) => {
            if crate::strutil::contains_str(t, "256color") {
                return ColorSystem::EightBit;
            }
            if crate::strutil::str_eq(t, "xterm-kitty") {
                return ColorSystem::TrueColor;
            }
        },
        None => {},
    }
    if no_color {
        return ColorSystem::Standard;
    }
    if is_terminal {
        ColorSystem::TrueColor
    } else {
        ColorSystem::Standard
    }
}

impl Console {
    /// Writes `value` drawn as indented JSON and a newline, unless quiet.
    pub fn print_json(&mut self, value: crate::json::JsonValue)
        ensures
            old(self).quiet ==> *final(self) == *old(self),
            !old(self).quiet ==> exists|r: crate::json::JsonRender, lines: Seq<Vec<Segment>>|
                r.value == value && r.indent == 2 && r.theme is None && #[trigger] crate::json::json_lines_ok(r, lines) && wrote(
                    *old(self),
                    *final(self),
                    segments_ansi(flatten_lines(lines)) + seq!['\n'],
                ),
            same_settings(*old(self), *final(self)),
    {
        if self.quiet {
            return;
        }
        let r = crate::json::render_json(value);
        let result = r.render(&self.options);
        let mut ansi = result.to_ansi();
        crate::strutil::push_char(&mut ansi, '\n');
        self.write_str(ansi.as_str());
        assert(ansi@ == segments_ansi(flatten_lines(result.lines@)) + seq!['\n']);
    }

    /// Reads `json` as JSON and prints it as `print_json` does, or writes
    /// `[invalid JSON]` and a newline when it is not valid JSON; nothing
    /// when quiet.
    pub fn print_json_str(&mut self, json: &str)
        ensures
            old(self).quiet ==> *final(self) == *old(self),
            !old(self).quiet ==> match crate::json::json_parse(json@) {
                Some(v) => exists|r: crate::json::JsonRender, lines: Seq<Vec<Segment>>|
                    r.value == v && r.indent == 2 && r.theme is None && #[trigger] crate::json::json_lines_ok(r, lines)
                        && wrote(*old(self), *final(self), segments_ansi(flatten_lines(lines)) + seq!['\n']),
                None => wrote(*old(self), *final(self), "[invalid JSON]\n"@),
            },
            same_settings(*old(self), *final(self)),
    {
        if self.quiet {
            return;
        }
        match crate::json::parse_json_text(json) {
            Some(v) => self.print_json(v),
            None => self.write_str("[invalid JSON]\n"),
        }
    }

    /// Writes the time `now` (`HH:MM:SS`) in brackets between a dim style
    /// and a reset, then prints `objects`, unless quiet.
    pub fn log_at(&mut self, now: &str, objects: &[&dyn Renderable])
        ensures
            old(self).quiet ==> *final(self) == *old(self),
            !old(self).quiet ==> exists|rs: Seq<RenderResult>|
                all_render(objects@, old(self).options, rs) && wrote(
                    *old(self),
                    *final(self),
                    crate::style::sgr_of(crate::logging::dim_only()) + seq![' ', '['] + now@ + seq![']', ' ']
                        + #[trigger] joined_results(rs, seq![' '], rs.len()) + seq!['\n'],
                ),
            same_settings(*old(self), *final(self)),
    {
        if self.quiet {
            return;
        }
        let dim = Style::new().dim(true).to_ansi();
        let mut head = dim;
        crate::strutil::push_char(&mut head, ' ');
        crate::strutil::push_char(&mut head, '[');
        push_str(&mut head, now);
        crate::strutil::push_char(&mut head, ']');
        crate::strutil::push_char(&mut head, ' ');
        let reset = Style::new().reset_ansi();
        push_str(&mut head, reset.as_str());
        let ghost c0 = *self;
        self.write_str(head.as_str());
        let ghost c1 = *self;
        proof {
            reveal_strlit(" ");
            reveal_strlit("\n");
            crate::text::lemma_empty_style_no_codes();
        }
        self.print(objects, " ", "\n");
        proof {
            let rs = choose|rs: Seq<RenderResult>|
                all_render(objects@, c1.options, rs) && wrote(c1, *self, #[trigger] joined_results(rs, " "@, rs.len()) + "\n"@);
            assert(head@ =~= crate::style::sgr_of(crate::logging::dim_only()) + seq![' ', '['] + now@ + seq![']', ' ']);
            assert(" "@ =~= seq![' ']);
            assert("\n"@ =~= seq!['\n']);
            lemma_wrote_trans(c0, c1, *self, head@, joined_results(rs, " "@, rs.len()) + "\n"@);
            assert(head@ + (joined_results(rs, " "@, rs.len()) + "\n"@) =~= crate::style::sgr_of(crate::logging::dim_only())
                + seq![' ', '['] + now@ + seq![']', ' '] + joined_results(rs, seq![' '], rs.len()) + seq!['\n']);
        }
    }

    /// `log_at` with the current local time.
    pub fn log(&mut self, objects: &[&dyn Renderable])
        ensures
            old(self).quiet ==> *final(self) == *old(self),
            !old(self).quiet ==> exists|now: Seq<char>, rs: Seq<RenderResult>|
                all_render(objects@, old(self).options, rs) && #[trigger] logged(*old(self), *final(self), now, rs),
            same_settings(*old(self), *final(self)),
    {
        let now = crate::logging::local_time_hms();
        self.log_at(now.as_str(), objects);
        proof {
            if !old(self).quiet {
                let rs = choose|rs: Seq<RenderResult>|
                    all_render(objects@, old(self).options, rs) && wrote(
                        *old(self),
                        *self,
                        crate::style::sgr_of(crate::logging::dim_only()) + seq![' ', '['] + now@ + seq![']', ' ']
                            + #[trigger] joined_results(rs, seq![' '], rs.len()) + seq!['\n'],
                    );
                assert(logged(*old(self), *self, now@, rs));
            }
        }
    }
}

} // verus!
