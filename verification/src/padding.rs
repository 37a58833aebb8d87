//! Blank space round a renderable.

use vstd::prelude::*;
use crate::columns::seg_views;
use crate::console::{ConsoleOptions, DynRenderable, RenderResult, Renderable};
use crate::layout::sat_add;
use crate::panel::{SegLine, lines_views, newline, plain, sat_sub};
use crate::segment::Segment;
use crate::strutil::{push_spaces, spaces};
use crate::style::{Style, empty_style};

verus! {

/// The space on each side: top, right, bottom, left.
#[derive(Debug, Clone, Copy)]
pub struct PaddingDimensions {
    /// Lines above.
    pub top: usize,
    /// Cells to the right.
    pub right: usize,
    /// Lines below.
    pub bottom: usize,
    /// Cells to the left.
    pub left: usize,
}

impl PaddingDimensions {
    /// The same space on every side.
    pub fn all(pad: usize) -> (p: Self)
        ensures
            p == (PaddingDimensions { top: pad, right: pad, bottom: pad, left: pad }),
    {
        PaddingDimensions { top: pad, right: pad, bottom: pad, left: pad }
    }

    /// `vertical` lines above and below, `horizontal` cells left and right.
    pub fn symmetric(vertical: usize, horizontal: usize) -> (p: Self)
        ensures
            p == (PaddingDimensions { top: vertical, right: horizontal, bottom: vertical, left: horizontal }),
    {
        PaddingDimensions { top: vertical, right: horizontal, bottom: vertical, left: horizontal }
    }

    /// The given space on each side.
    pub fn new(top: usize, right: usize, bottom: usize, left: usize) -> (p: Self)
        ensures
            p == (PaddingDimensions { top, right, bottom, left }),
    {
        PaddingDimensions { top, right, bottom, left }
    }
}

/// A renderable with space round it.
pub struct Padding<R> {
    /// The content.
    pub renderable: R,
    /// The space on each side.
    pub pad: PaddingDimensions,
    /// The style of the space.
    pub style: Style,
    /// Whether the padding takes the whole width.
    pub expand: bool,
}

/// A padded content line: `left` spaces when there are any, the line's
/// segments, then `right` spaces and a newline when there are any right.
pub open spec fn padded_line(line: Seq<Segment>, left: nat, right: nat) -> SegLine {
    (if left > 0 {
        seq![plain(spaces(left))]
    } else {
        seq![]
    }) + seg_views(line) + (if right > 0 {
        seq![plain(spaces(right)), newline()]
    } else {
        seq![]
    })
}

/// The lines of content padded by `pad` at width `width`: blank lines of
/// `width` spaces above and below, each content line padded.
pub open spec fn padding_spec(pad: PaddingDimensions, content: Seq<Vec<Segment>>, width: nat) -> Seq<SegLine> {
    let blank = seq![plain(spaces(width)), newline()];
    Seq::new(pad.top as nat, |i: int| blank) + Seq::new(
        content.len(),
        |i: int| padded_line(content[i]@, pad.left as nat, pad.right as nat),
    ) + Seq::new(pad.bottom as nat, |i: int| blank)
}

/// The width of the padding: the whole width when it expands, else the
/// left and right space within it.
pub open spec fn padding_width(expand: bool, pad: PaddingDimensions, max_width: nat) -> nat {
    if expand {
        max_width
    } else {
        let w = pad.left + pad.right;
        if w < max_width {
            w as nat
        } else {
            max_width
        }
    }
}

/// A line of `width` spaces and a newline.
fn blank_line(width: usize) -> (l: Vec<Segment>)
    ensures
        seg_views(l@) == seq![plain(spaces(width as nat)), newline()],
{
    let mut t = String::new();
    push_spaces(&mut t, width);
    let mut l: Vec<Segment> = Vec::new();
    l.push(Segment { text: t, style: None });
    l.push(Segment::line());
    assert(seg_views(l@) =~= seq![plain(spaces(width as nat)), newline()]);
    l
}

/// A content line padded left and right.
fn pad_line(line: &Vec<Segment>, left: usize, right: usize) -> (l: Vec<Segment>)
    ensures
        seg_views(l@) == padded_line(line@, left as nat, right as nat),
{
    let mut l: Vec<Segment> = Vec::new();
    if left > 0 {
        let mut t = String::new();
        push_spaces(&mut t, left);
        l.push(Segment { text: t, style: None });
    }
    let ghost l0 = l@;
    let mut j: usize = 0;
    while j < line.len()
        invariant
            j <= line@.len(),
            l@ == l0 + line@.take(j as int),
        decreases line.len() - j,
    {
        l.push(line[j].clone());
        j = j + 1;
        assert(l@ =~= l0 + line@.take(j as int));
    }
    assert(line@.take(j as int) =~= line@);
    if right > 0 {
        let mut t = String::new();
        push_spaces(&mut t, right);
        l.push(Segment { text: t, style: None });
        l.push(Segment::line());
    }
    assert(seg_views(l@) =~= padded_line(line@, left as nat, right as nat));
    l
}

impl<R: Renderable> Padding<R> {
    /// Padding of nothing round `renderable`, taking the whole width.
    pub fn new(renderable: R) -> (p: Self)
        ensures
            p.renderable == renderable,
            p.pad == (PaddingDimensions { top: 0, right: 0, bottom: 0, left: 0 }),
            p.style == empty_style(),
            p.expand,
    {
        Padding { renderable, pad: PaddingDimensions::all(0), style: Style::new(), expand: true }
    }

    /// The padding with the given space on each side.
    pub fn pad(self, top: usize, right: usize, bottom: usize, left: usize) -> (p: Self)
        ensures
            p == (Padding { pad: PaddingDimensions { top, right, bottom, left }, ..self }),
    {
        Padding { pad: PaddingDimensions::new(top, right, bottom, left), ..self }
    }

    /// The padding with the same space on every side.
    pub fn pad_all(self, pad: usize) -> (p: Self)
        ensures
            p == (Padding { pad: PaddingDimensions { top: pad, right: pad, bottom: pad, left: pad }, ..self }),
    {
        Padding { pad: PaddingDimensions::all(pad), ..self }
    }

    /// An indent of `level` cells on the left only, not taking the whole
    /// width.
    pub fn indent(self, level: usize) -> (p: Self)
        ensures
            p == (Padding { pad: PaddingDimensions { top: 0, right: 0, bottom: 0, left: level }, expand: false, ..self }),
    {
        Padding { pad: PaddingDimensions::new(0, 0, 0, level), expand: false, ..self }
    }

    /// The padding in `style`.
    pub fn style(self, style: Style) -> (p: Self)
        ensures
            p == (Padding { style: style, ..self }),
    {
        Padding { style: style, ..self }
    }

    /// The width of the padding within `max_width`.
    pub fn width_within(&self, max_width: usize) -> (w: usize)
        ensures
            w == padding_width(self.expand, self.pad, max_width as nat),
    {
        if self.expand {
            max_width
        } else {
            let w = sat_add(self.pad.left, self.pad.right);
            if w < max_width {
                w
            } else {
                max_width
            }
        }
    }

    /// The padded lines of `content` at width `width`.
    pub fn padded_lines(&self, content: &Vec<Vec<Segment>>, width: usize) -> (lines: Vec<Vec<Segment>>)
        ensures
            lines_views(lines@) == padding_spec(self.pad, content@, width as nat),
    {
        let ghost spec = padding_spec(self.pad, content@, width as nat);
        let ghost blank = seq![plain(spaces(width as nat)), newline()];
        let mut lines: Vec<Vec<Segment>> = Vec::new();
        let mut k: usize = 0;
        while k < self.pad.top
            invariant
                k <= self.pad.top,
                lines_views(lines@) == Seq::new(k as nat, |i: int| blank),
                blank == seq![plain(spaces(width as nat)), newline()],
            decreases self.pad.top - k,
        {
            let l = blank_line(width);
            let ghost before = lines@;
            lines.push(l);
            assert(lines_views(lines@) =~= lines_views(before).push(blank));
            k = k + 1;
            assert(lines_views(lines@) =~= Seq::new(k as nat, |i: int| blank));
        }
        let ghost top = lines_views(lines@);
        let ghost body = Seq::new(
            content@.len(),
            |i: int| padded_line(content@[i]@, self.pad.left as nat, self.pad.right as nat),
        );
        let mut i: usize = 0;
        while i < content.len()
            invariant
                i <= content@.len(),
                body == Seq::new(
                    content@.len(),
                    |i: int| padded_line(content@[i]@, self.pad.left as nat, self.pad.right as nat),
                ),
                lines_views(lines@) == top + body.take(i as int),
            decreases content.len() - i,
        {
            let l = pad_line(&content[i], self.pad.left, self.pad.right);
            let ghost before = lines_views(lines@);
            lines.push(l);
            assert(lines_views(lines@) =~= before.push(body[i as int]));
            i = i + 1;
            assert(lines_views(lines@) =~= top + body.take(i as int));
        }
        assert(body.take(content@.len() as int) =~= body);
        let ghost mid = lines_views(lines@);
        let mut k: usize = 0;
        while k < self.pad.bottom
            invariant
                k <= self.pad.bottom,
                lines_views(lines@) == mid + Seq::new(k as nat, |i: int| blank),
                blank == seq![plain(spaces(width as nat)), newline()],
            decreases self.pad.bottom - k,
        {
            let l = blank_line(width);
            let ghost before = lines@;
            lines.push(l);
            assert(lines_views(lines@) =~= lines_views(before).push(blank));
            k = k + 1;
            assert(lines_views(lines@) =~= mid + Seq::new(k as nat, |i: int| blank));
        }
        assert(lines_views(lines@) =~= spec);
        lines
    }
}

/// The options the content of `p` is rendered with: the width left between
/// the left and right padding (at least one), and the height left between
/// the top and bottom padding when the height is fixed.
pub open spec fn padding_inner_options<R>(p: Padding<R>, options: ConsoleOptions) -> ConsoleOptions {
    let inner = sat_sub(
        padding_width(p.expand, p.pad, options.max_width as nat),
        crate::text::sat_add(p.pad.left as nat, p.pad.right as nat) as nat,
    );
    let o = ConsoleOptions {
        max_width: (if inner > 0 {
            inner
        } else {
            1
        }) as usize,
        ..options
    };
    match options.height {
        Some(h) => ConsoleOptions {
            height: Some(sat_sub(h as nat, crate::text::sat_add(p.pad.top as nat, p.pad.bottom as nat) as nat) as usize),
            ..o
        },
        None => o,
    }
}

impl<R: Renderable> Renderable for Padding<R> {
    fn measure(&self, options: &ConsoleOptions) -> Option<crate::measure::Measurement> {
        None
    }

    /// The content, rendered in the width left between the left and right
    /// padding, padded at the padding's width.
    open spec fn renders(&self, options: ConsoleOptions, r: RenderResult) -> bool {
        &&& r.items@.len() == 0
        &&& exists|content: RenderResult|
            self.renderable.renders(padding_inner_options(*self, options), content) && lines_views(r.lines@)
                == #[trigger] padding_spec(
                self.pad,
                content.lines@,
                padding_width(self.expand, self.pad, options.max_width as nat),
            )
    }

    fn render(&self, options: &ConsoleOptions) -> (r: RenderResult) {
        let width = self.width_within(options.max_width);
        let inner = if width > sat_add(self.pad.left, self.pad.right) {
            width - sat_add(self.pad.left, self.pad.right)
        } else {
            0
        };
        let mut inner_opts = options.update_width(if inner > 0 {
            inner
        } else {
            1
        });
        match options.height {
            Some(h) => {
                let v = sat_add(self.pad.top, self.pad.bottom);
                let ih = if h > v {
                    h - v
                } else {
                    0
                };
                inner_opts = inner_opts.update_height(ih);
            },
            None => {},
        }
        assert(inner_opts == padding_inner_options(*self, *options));
        let content = self.renderable.render(&inner_opts);
        let r = RenderResult::from_lines(self.padded_lines(&content.lines, width));
        assert(lines_views(r.lines@) == padding_spec(
            self.pad,
            content.lines@,
            padding_width(self.expand, self.pad, options.max_width as nat),
        ));
        r
    }
}

} // verus!
