//! A renderable that is redrawn in place: cropping to the screen height
//! and the escape codes that move back over the last drawing.

use vstd::prelude::*;
use crate::color::{named_color, named_color_spec};
use crate::columns::seg_views;
use crate::panel::{SegLine, lines_views, newline};
use crate::console::{ConsoleOptions, DynRenderable, RenderResult, Renderable};
use crate::control::{Control, csi, csi_num};
use crate::segment::Segment;
use crate::style::{Style, empty_style};
use crate::theme::{bold_attrs, colored};

verus! {

/// What to do with output taller than the screen.
#[derive(Debug, Clone, Copy, PartialEq, Eq)]
pub enum VerticalOverflow {
    /// Cut at the bottom.
    Crop,
    /// Cut, with `...` as the last line.
    Ellipsis,
    /// Show everything.
    Visible,
}

/// A renderable drawn again and again in the same place.
pub struct LiveRender {
    /// The content.
    pub renderable: DynRenderable,
    /// The style of the content.
    pub style: Style,
    /// What to do with output taller than the screen.
    pub vertical_overflow: VerticalOverflow,
    /// The width and height of the last drawing, if any.
    pub last_shape: Option<(usize, usize)>,
}

/// The sequences that move up over `k` lines, erasing each.
pub open spec fn up_erase(k: nat) -> Seq<Seq<char>>
    decreases k,
{
    if k == 0 {
        seq![]
    } else {
        up_erase((k - 1) as nat) + seq![csi_num(1, 'A'), csi(seq!['2', 'K'])]
    }
}

/// The sequences that put the cursor at the start of the last drawing of
/// `height` lines: a carriage return, then up and erase for each line
/// above the last.
pub open spec fn position_spec(shape: Option<(usize, usize)>) -> Seq<Seq<char>> {
    match shape {
        Some((_, h)) => if h > 1 {
            seq![seq!['\r']] + up_erase((h - 1) as nat)
        } else if h == 1 {
            seq![seq!['\r']]
        } else {
            seq![]
        },
        None => seq![],
    }
}

/// The sequences that erase the last drawing of `height` lines: a
/// carriage return, then up and erase for each line.
pub open spec fn restore_spec(shape: Option<(usize, usize)>) -> Seq<Seq<char>> {
    match shape {
        Some((_, h)) => if h > 0 {
            seq![seq!['\r']] + up_erase(h as nat)
        } else {
            seq![]
        },
        None => seq![],
    }
}

/// The ansi texts of `k` sequences moving up and erasing.
fn up_erase_strings(out: &mut Vec<String>, k: usize)
    ensures
        final(out)@.map_values(|s: String| s@) == old(out)@.map_values(|s: String| s@) + up_erase(k as nat),
{
    let ghost o0 = old(out)@.map_values(|s: String| s@);
    let mut i: usize = 0;
    while i < k
        invariant
            i <= k,
            out@.map_values(|s: String| s@) == o0 + up_erase(i as nat),
        decreases k - i,
    {
        let ghost b = out@.map_values(|s: String| s@);
        let up = Control::cursor_up(1).to_ansi();
        let er = Control::erase_line().to_ansi();
        proof {
            assert(seq![csi_num(1, 'A')].flatten() =~= csi_num(1, 'A')) by {
                seq![csi_num(1, 'A')].lemma_flatten_one_element();
            }
            assert(seq![csi(seq!['2', 'K'])].flatten() =~= csi(seq!['2', 'K'])) by {
                seq![csi(seq!['2', 'K'])].lemma_flatten_one_element();
            }
        }
        out.push(up);
        out.push(er);
        i = i + 1;
        assert(out@.map_values(|s: String| s@) =~= b + seq![csi_num(1, 'A'), csi(seq!['2', 'K'])]);
    }
}

/// A control of the given sequences.
fn control_of(seqs: &Vec<String>) -> (c: Control)
    ensures
        c@ == seqs@.map_values(|s: String| s@),
{
    let mut refs: Vec<&str> = Vec::new();
    let mut i: usize = 0;
    while i < seqs.len()
        invariant
            i <= seqs@.len(),
            refs@.len() == i,
            forall|j: int| 0 <= j < i ==> (#[trigger] refs@[j])@ == seqs@[j]@,
        decreases seqs.len() - i,
    {
        refs.push(seqs[i].as_str());
        i = i + 1;
    }
    let c = Control::new(refs.as_slice());
    assert(c@ =~= seqs@.map_values(|s: String| s@));
    c
}

/// A carriage return as a string.
fn cr_string() -> (s: String)
    ensures
        s@ == seq!['\r'],
{
    let c = Control::carriage_return();
    let s = c.to_ansi();
    proof {
        seq![seq!['\r']].lemma_flatten_one_element();
    }
    s
}

/// Whether `out` is `inp` cut to the screen height as `overflow` says,
/// with `ellipsis` as the last line when cut with an ellipsis.
pub open spec fn crop_spec(
    inp: Seq<Vec<Segment>>,
    max_height: nat,
    overflow: VerticalOverflow,
    ellipsis: Vec<Segment>,
) -> Seq<Vec<Segment>> {
    if inp.len() > max_height && max_height > 0 {
        match overflow {
            VerticalOverflow::Crop => inp.take(max_height as int),
            VerticalOverflow::Ellipsis => inp.take(max_height - 1).push(ellipsis),
            VerticalOverflow::Visible => inp,
        }
    } else {
        inp
    }
}

/// The lines `lines`, each but those from `height - 1` on followed by a
/// line holding only a newline.
pub open spec fn spaced(lines: Seq<Vec<Segment>>, height: nat) -> Seq<SegLine>
    decreases lines.len(),
{
    if lines.len() == 0 {
        seq![]
    } else {
        let i = lines.len() - 1;
        spaced(lines.drop_last(), height) + seq![seg_views(lines.last()@)] + (if i + 1 < height {
            seq![seq![newline()]]
        } else {
            seq![]
        })
    }
}

impl LiveRender {
    /// `renderable` drawn plain, cut with an ellipsis when too tall, not
    /// drawn yet.
    pub fn new<R: Renderable + 'static>(renderable: R) -> (l: Self)
        ensures
            l.renderable.holds(renderable),
            l.style == empty_style(),
            l.vertical_overflow == VerticalOverflow::Ellipsis,
            l.last_shape is None,
    {
        LiveRender {
            renderable: DynRenderable::new(renderable),
            style: Style::new(),
            vertical_overflow: VerticalOverflow::Ellipsis,
            last_shape: None,
        }
    }

    /// Records the shape of the last drawing.
    pub fn set_shape(&mut self, shape: Option<(usize, usize)>)
        ensures
            final(self).last_shape == shape,
            final(self).style == old(self).style,
            final(self).vertical_overflow == old(self).vertical_overflow,
    {
        self.last_shape = shape;
    }

    /// Drawn in `style`.
    pub fn style(self, style: Style) -> (l: Self)
        ensures
            l == (LiveRender { style: style, ..self }),
    {
        LiveRender { style: style, ..self }
    }

    /// With the overflow method `method`.
    pub fn vertical_overflow(self, method: VerticalOverflow) -> (l: Self)
        ensures
            l == (LiveRender { vertical_overflow: method, ..self }),
    {
        LiveRender { vertical_overflow: method, ..self }
    }

    /// Replaces the content.
    pub fn set_renderable<R: Renderable + 'static>(&mut self, renderable: R)
        ensures
            final(self).renderable.holds(renderable),
            final(self).last_shape == old(self).last_shape,
            final(self).style == old(self).style,
            final(self).vertical_overflow == old(self).vertical_overflow,
    {
        self.renderable = DynRenderable::new(renderable);
    }

    /// Sets the overflow method.
    pub fn set_vertical_overflow(&mut self, method: VerticalOverflow)
        ensures
            final(self).vertical_overflow == method,
            final(self).last_shape == old(self).last_shape,
            final(self).style == old(self).style,
    {
        self.vertical_overflow = method;
    }

    /// The height of the last drawing, 0 when there was none.
    pub fn last_render_height(&self) -> (h: usize)
        ensures
            h == match self.last_shape {
                Some((_, h)) => h,
                None => 0,
            },
    {
        match self.last_shape {
            Some((_, h)) => h,
            None => 0,
        }
    }

    /// The shape of the last drawing.
    pub fn last_shape(&self) -> (s: Option<(usize, usize)>)
        ensures
            s == self.last_shape,
    {
        self.last_shape
    }

    /// The control that puts the cursor at the start of the last drawing.
    pub fn position_cursor(&self) -> (c: Control)
        ensures
            c@ == position_spec(self.last_shape),
    {
        let mut seqs: Vec<String> = Vec::new();
        match self.last_shape {
            Some((_, h)) => {
                if h > 1 {
                    seqs.push(cr_string());
                    up_erase_strings(&mut seqs, h - 1);
                } else if h == 1 {
                    seqs.push(cr_string());
                }
            },
            None => {},
        }
        let c = control_of(&seqs);
        assert(c@ =~= position_spec(self.last_shape));
        c
    }

    /// The control that erases the last drawing.
    pub fn restore_cursor(&self) -> (c: Control)
        ensures
            c@ == restore_spec(self.last_shape),
    {
        let mut seqs: Vec<String> = Vec::new();
        match self.last_shape {
            Some((_, h)) => {
                if h > 0 {
                    seqs.push(cr_string());
                    up_erase_strings(&mut seqs, h);
                }
            },
            None => {},
        }
        let c = control_of(&seqs);
        assert(c@ =~= restore_spec(self.last_shape));
        c
    }

    /// The line shown in place of the cut lines: `...` in bold red.
    pub fn ellipsis_line() -> (l: Vec<Segment>)
        ensures
            l@.len() == 1,
            l@[0].text@ == seq!['.', '.', '.'],
            l@[0].style matches Some(s) && colored(s, "red"@, bold_attrs(false)),
    {
        let st = Style::new().bold(true).color(named_color("red"));
        let mut l: Vec<Segment> = Vec::new();
        l.push(Segment::styled("...", st));
        proof {
            reveal_strlit("...");
        }
        l
    }

    /// The lines cut to `max_height` as the overflow method says.
    pub fn crop(&self, lines: Vec<Vec<Segment>>, max_height: usize, ellipsis: Vec<Segment>) -> (out: Vec<Vec<Segment>>)
        ensures
            out@ == crop_spec(lines@, max_height as nat, self.vertical_overflow, ellipsis),
    {
        let mut lines = lines;
        if lines.len() > max_height && max_height > 0 {
            match self.vertical_overflow {
                VerticalOverflow::Crop => {
                    lines.truncate(max_height);
                },
                VerticalOverflow::Ellipsis => {
                    lines.truncate(max_height - 1);
                    lines.push(ellipsis);
                },
                VerticalOverflow::Visible => {},
            }
        }
        lines
    }

    /// The lines with a newline line after each of the first
    /// `height - 1`.
    pub fn space_lines(lines: Vec<Vec<Segment>>, height: usize) -> (out: Vec<Vec<Segment>>)
        ensures
            lines_views(out@) == spaced(lines@, height as nat),
    {
        let mut out: Vec<Vec<Segment>> = Vec::new();
        let mut i: usize = 0;
        while i < lines.len()
            invariant
                i <= lines@.len(),
                lines_views(out@) == spaced(lines@.take(i as int), height as nat),
            decreases lines.len() - i,
        {
            let ghost o0 = lines_views(out@);
            assert(lines@.take(i + 1).drop_last() =~= lines@.take(i as int));
            let l = lines[i].clone();
            let ghost lv = seg_views(l@);
            out.push(l);
            assert(lines_views(out@) =~= o0.push(lv));
            if i + 1 < height {
                let mut nl: Vec<Segment> = Vec::new();
                nl.push(Segment::line());
                let ghost o1 = lines_views(out@);
                assert(seg_views(nl@) =~= seq![newline()]);
                out.push(nl);
                assert(lines_views(out@) =~= o1.push(seq![newline()]));
            }
            assert(lines_views(out@) =~= spaced(lines@.take(i + 1), height as nat));
            i = i + 1;
        }
        assert(lines@.take(lines@.len() as int) =~= lines@);
        out
    }
}

impl Renderable for LiveRender {
    fn measure(&self, options: &ConsoleOptions) -> Option<crate::measure::Measurement> {
        None
    }

    /// The content's lines cut to the height as the overflow method says,
    /// with a newline line after each of them but the last of the content.
    open spec fn renders(&self, options: ConsoleOptions, r: RenderResult) -> bool {
        exists|content: RenderResult, ell: Vec<Segment>|
            self.renderable.renders(options, content) && r.items == content.items && ell@.len() == 1
                && ell@[0].text@ == seq!['.', '.', '.'] && #[trigger] lines_views(r.lines@) == spaced(
                crop_spec(content.lines@, options.max_height as nat, self.vertical_overflow, ell),
                content.lines@.len(),
            )
    }

    fn render(&self, options: &ConsoleOptions) -> (r: RenderResult) {
        let result = self.renderable.render(options);
        let ghost res = result;
        let height = result.lines.len();
        let ghost inner = result.lines@;
        let ell = LiveRender::ellipsis_line();
        let ghost ellv = ell;
        let lines = self.crop(result.lines, options.max_height, ell);
        let out = LiveRender::space_lines(lines, height);
        assert(lines_views(out@) == spaced(crop_spec(inner, options.max_height as nat, self.vertical_overflow, ellv), inner.len()));
        let r = RenderResult { lines: out, items: result.items };
        assert(self.renderable.renders(*options, res) && r.items == res.items);
        r
    }
}

} // verus!
