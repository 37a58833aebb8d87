//! Renderables one after another: as lines (one of them highlighted) or
//! simply in order.

use vstd::prelude::*;
use crate::console::{ConsoleOptions, DynRenderable, RenderResult, Renderable, children_render, lines_of_results, results_lines};
use crate::segment::Segment;
use crate::style::{Attributes, Style, empty_style, sgr_codes};

verus! {

/// Renderables shown one after another, one of them in bold.
pub struct Lines {
    /// The renderables.
    pub lines: Vec<DynRenderable>,
    /// The one shown in bold, if any.
    pub highlight: Option<usize>,
    /// The style of segments that have none.
    pub style: Style,
}

/// Renderables shown one after another.
pub struct Renderables {
    /// The renderables.
    pub items: Vec<DynRenderable>,
}

/// `s` with bold on.
pub open spec fn bold_of(s: Style) -> Style {
    Style { attributes: Attributes { bold: Some(true), ..s.attributes }, ..s }
}

/// The style a segment gets: in the highlighted item its own style (or
/// the container's) in bold; elsewhere the container's style when it has
/// none and the container's style writes a code; else its own.
pub open spec fn restyled(own: Option<Style>, highlighted: bool, style: Style) -> Option<Style> {
    if highlighted {
        match own {
            Some(s) => Some(bold_of(s)),
            None => Some(bold_of(style)),
        }
    } else if sgr_codes(style).len() > 0 && own is None {
        Some(style)
    } else {
        own
    }
}

/// Whether `out` is `inp` with every segment restyled.
pub open spec fn restyled_lines(inp: Seq<Vec<Segment>>, out: Seq<Vec<Segment>>, highlighted: bool, style: Style) -> bool {
    &&& out.len() == inp.len()
    &&& forall|i: int|
        0 <= i < inp.len() ==> (#[trigger] out[i])@.len() == inp[i]@.len() && forall|j: int|
            0 <= j < inp[i]@.len() ==> (#[trigger] out[i]@[j]).text == inp[i]@[j].text && out[i]@[j].style
                == restyled(inp[i]@[j].style, highlighted, style)
}

/// The lines with every segment restyled.
pub fn restyle(lines: Vec<Vec<Segment>>, highlighted: bool, style: &Style) -> (out: Vec<Vec<Segment>>)
    ensures
        restyled_lines(lines@, out@, highlighted, *style),
{
    let plain = style.is_plain();
    let mut out: Vec<Vec<Segment>> = Vec::new();
    let mut i: usize = 0;
    while i < lines.len()
        invariant
            i <= lines@.len(),
            plain == (sgr_codes(*style).len() == 0),
            out@.len() == i,
            forall|k: int|
                0 <= k < i ==> (#[trigger] out@[k])@.len() == lines@[k]@.len() && forall|j: int|
                    0 <= j < lines@[k]@.len() ==> (#[trigger] out@[k]@[j]).text == lines@[k]@[j].text
                        && out@[k]@[j].style == restyled(lines@[k]@[j].style, highlighted, *style),
        decreases lines.len() - i,
    {
        let mut line: Vec<Segment> = Vec::new();
        let mut j: usize = 0;
        while j < lines[i].len()
            invariant
                i < lines@.len(),
                j <= lines@[i as int]@.len(),
                plain == (sgr_codes(*style).len() == 0),
                line@.len() == j,
                forall|q: int|
                    0 <= q < j ==> (#[trigger] line@[q]).text == lines@[i as int]@[q].text && line@[q].style
                        == restyled(lines@[i as int]@[q].style, highlighted, *style),
            decreases lines@[i as int]@.len() - j,
        {
            let seg = &lines[i][j];
            let st = if highlighted {
                match &seg.style {
                    Some(s) => Some(s.clone().bold(true)),
                    None => Some(style.clone().bold(true)),
                }
            } else if !plain && seg.style.is_none() {
                Some(style.clone())
            } else {
                match &seg.style {
                    Some(s) => Some(s.clone()),
                    None => None,
                }
            };
            line.push(Segment { text: seg.text.clone(), style: st });
            j = j + 1;
        }
        out.push(line);
        i = i + 1;
    }
    out
}

impl Lines {
    /// No renderables, none highlighted, plain style.
    pub fn new() -> (l: Self)
        ensures
            l.lines@.len() == 0,
            l.highlight is None,
            l.style == empty_style(),
    {
        Lines { lines: Vec::new(), highlight: None, style: Style::new() }
    }

    /// Adds a renderable after the others.
    pub fn add<R: Renderable + 'static>(&mut self, renderable: R) -> (r: &mut Self)
        ensures
            *final(self) == *final(r),
            (*r).lines@.len() == old(self).lines@.len() + 1,
            (*r).lines@.drop_last() == old(self).lines@,
            (*r).lines@.last().holds(renderable),
            (*r).highlight == old(self).highlight,
            (*r).style == old(self).style,
    {
        self.lines.push(DynRenderable::new(renderable));
        self
    }

    /// The lines with item `index` (counting from 0) in bold.
    pub fn highlight(self, index: usize) -> (l: Self)
        ensures
            l == (Lines { highlight: Some(index), ..self }),
    {
        Lines { highlight: Some(index), ..self }
    }

    /// The lines with `style` for segments without one.
    pub fn style(self, style: Style) -> (l: Self)
        ensures
            l == (Lines { style: style, ..self }),
    {
        Lines { style: style, ..self }
    }
}

impl Default for Lines {
    fn default() -> (l: Self)
        ensures
            l.lines@.len() == 0,
            l.highlight is None,
    {
        Lines::new()
    }
}

/// Whether `outs` are the pieces `ins` restyled, the piece at `highlight`
/// as the highlighted one.
pub open spec fn restyled_parts(
    ins: Seq<Seq<Vec<Segment>>>,
    outs: Seq<Seq<Vec<Segment>>>,
    highlight: Option<usize>,
    style: Style,
) -> bool {
    &&& outs.len() == ins.len()
    &&& forall|i: int|
        0 <= i < ins.len() ==> restyled_lines(#[trigger] ins[i], outs[i], highlight == Some(i as usize), style)
}

impl Renderable for Lines {
    fn measure(&self, options: &ConsoleOptions) -> Option<crate::measure::Measurement> {
        None
    }

    /// The lines of every item in order, each restyled: the highlighted
    /// item in bold, the others in the container's style where they have
    /// none.
    open spec fn renders(&self, options: ConsoleOptions, r: RenderResult) -> bool {
        &&& r.items@.len() == 0
        &&& exists|rs: Seq<RenderResult>, outs: Seq<Seq<Vec<Segment>>>|
            children_render(self.lines@, options, rs) && #[trigger] restyled_parts(
                results_lines(rs),
                outs,
                self.highlight,
                self.style,
            ) && r.lines@ == outs.flatten()
    }

    fn render(&self, options: &ConsoleOptions) -> (r: RenderResult) {
        let mut all: Vec<Vec<Segment>> = Vec::new();
        let ghost mut rs: Seq<RenderResult> = seq![];
        let ghost mut ins: Seq<Seq<Vec<Segment>>> = seq![];
        let ghost mut outs: Seq<Seq<Vec<Segment>>> = seq![];
        assert(outs.flatten() =~= Seq::<Vec<Segment>>::empty());
        let mut i: usize = 0;
        while i < self.lines.len()
            invariant
                i <= self.lines@.len(),
                ins.len() == i,
                rs.len() == i,
                ins == results_lines(rs),
                forall|j: int| 0 <= j < i ==> self.lines@[j].renders(*options, #[trigger] rs[j]),
                restyled_parts(ins, outs, self.highlight, self.style),
                all@ == outs.flatten(),
            decreases self.lines.len() - i,
        {
            let result = self.lines[i].render(options);
            let ghost res = result;
            let hl = match self.highlight {
                Some(h) => h == i,
                None => false,
            };
            let ghost inp = result.lines@;
            let lines = restyle(result.lines, hl, &self.style);
            let ghost before = all@;
            let ghost lv = lines@;
            let mut lines = lines;
            all.append(&mut lines);
            assert(all@ =~= before + lv);
            proof {
                outs.lemma_flatten_push(lv);
                ins = ins.push(inp);
                rs = rs.push(res);
                assert(ins =~= results_lines(rs));
                outs = outs.push(lv);
                assert(hl == (self.highlight == Some(i)));
                assert forall|j: int| 0 <= j < ins.len() implies restyled_lines(#[trigger] ins[j], outs[j], self.highlight == Some(j as usize), self.style) by {
                    if j < i {
                        assert(ins[j] == ins.drop_last()[j]);
                    }
                }
            }
            i = i + 1;
        }
        assert(children_render(self.lines@, *options, rs));
        RenderResult::from_lines(all)
    }
}

impl Renderables {
    /// No renderables.
    pub fn new() -> (r: Self)
        ensures
            r.items@.len() == 0,
    {
        Renderables { items: Vec::new() }
    }

    /// Adds a renderable after the others.
    pub fn add<R: Renderable + 'static>(&mut self, renderable: R) -> (r: &mut Self)
        ensures
            *final(self) == *final(r),
            (*r).items@.len() == old(self).items@.len() + 1,
            (*r).items@.drop_last() == old(self).items@,
            (*r).items@.last().holds(renderable),
    {
        self.items.push(DynRenderable::new(renderable));
        self
    }
}

impl Default for Renderables {
    fn default() -> (r: Self)
        ensures
            r.items@.len() == 0,
    {
        Renderables::new()
    }
}

impl Renderable for Renderables {
    fn measure(&self, options: &ConsoleOptions) -> Option<crate::measure::Measurement> {
        None
    }

    /// The lines of every item, in order.
    open spec fn renders(&self, options: ConsoleOptions, r: RenderResult) -> bool {
        &&& r.items@.len() == 0
        &&& exists|rs: Seq<RenderResult>|
            children_render(self.items@, options, rs) && r.lines@ == #[trigger] lines_of_results(rs)
    }

    fn render(&self, options: &ConsoleOptions) -> (r: RenderResult) {
        let mut all: Vec<Vec<Segment>> = Vec::new();
        let ghost mut rs: Seq<RenderResult> = seq![];
        assert(lines_of_results(rs) =~= Seq::<Vec<Segment>>::empty());
        let mut i: usize = 0;
        while i < self.items.len()
            invariant
                i <= self.items@.len(),
                rs.len() == i,
                forall|j: int| 0 <= j < i ==> self.items@[j].renders(*options, #[trigger] rs[j]),
                all@ == lines_of_results(rs),
            decreases self.items.len() - i,
        {
            let mut result = self.items[i].render(options);
            let ghost res = result;
            let ghost before = all@;
            all.append(&mut result.lines);
            assert(all@ =~= before + res.lines@);
            proof {
                let parts = results_lines(rs);
                parts.lemma_flatten_push(res.lines@);
                rs = rs.push(res);
                assert(results_lines(rs) =~= parts.push(res.lines@));
            }
            i = i + 1;
        }
        assert(children_render(self.items@, *options, rs));
        RenderResult::from_lines(all)
    }
}

} // verus!
