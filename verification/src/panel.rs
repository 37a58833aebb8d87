//! A border drawn round a renderable, with an optional title and subtitle.

use vstd::prelude::*;
use crate::align::{AlignMethod, align_text_spec, fits_full};
use crate::box_drawing::{BoxStyle, box_rounded, get_safe_box};
use crate::cells::{cell_len, unicode_str_width};
use crate::columns::{seg_views, segs_width, seg_view};
use crate::console::{ConsoleOptions, DynRenderable, RenderResult, Renderable};
use crate::layout::{sat_add};
use crate::segment::Segment;
use crate::strutil::{owned, push_char, push_spaces, push_str, spaces};
use crate::style::{Style, empty_style, reset_seq, sgr_of};

verus! {

/// What a line of segments shows, segment by segment.
pub type SegLine = Seq<(Seq<char>, Option<Style>)>;

/// A renderable with a border round it.
pub struct Panel<R> {
    /// The content.
    pub renderable: R,
    /// The characters of the border.
    pub box_style: BoxStyle,
    /// A title in the top border.
    pub title: Option<String>,
    /// Where the title stands.
    pub title_align: AlignMethod,
    /// A subtitle in the bottom border.
    pub subtitle: Option<String>,
    /// Where the subtitle stands.
    pub subtitle_align: AlignMethod,
    /// Whether the panel takes the whole width.
    pub expand: bool,
    /// The style of the content area.
    pub style: Style,
    /// The style of the border.
    pub border_style: Style,
    /// A fixed width, if any.
    pub width: Option<usize>,
    /// A fixed height, if any.
    pub height: Option<usize>,
    /// Padding inside the border: top, right, bottom, left.
    pub padding: (usize, usize, usize, usize),
    /// Whether string titles are highlighted.
    pub highlight: bool,
}

/// `a - b`, or 0 when `b` is larger.
pub open spec fn sat_sub(a: nat, b: nat) -> nat {
    if a > b {
        (a - b) as nat
    } else {
        0
    }
}

/// `s` in the border's escape sequence: unchanged when there is none,
/// else between it and the reset sequence.
pub open spec fn wrap_spec(ansi: Seq<char>, s: Seq<char>) -> Seq<char> {
    if ansi.len() == 0 {
        s
    } else {
        ansi + s + reset_seq()
    }
}

/// `n` copies of `c`.
pub open spec fn repeat_spec(c: char, n: nat) -> Seq<char> {
    Seq::new(n, |i: int| c)
}

/// An unstyled segment view.
pub open spec fn plain(s: Seq<char>) -> (Seq<char>, Option<Style>) {
    (s, None::<Style>)
}

/// The newline segment view.
pub open spec fn newline() -> (Seq<char>, Option<Style>) {
    plain(seq!['\n'])
}

/// How many border characters stand left and right of a label, when `rem`
/// are left over.
pub open spec fn label_split(align: AlignMethod, rem: nat) -> (nat, nat) {
    match align {
        AlignMethod::Right => (sat_sub(rem, 1), 1),
        AlignMethod::Center => (rem / 2, (rem - rem / 2) as nat),
        _ => (1, sat_sub(rem, 1)),
    }
}

/// A top or bottom border `width` cells wide: its corners and fill, with
/// the label set into it when the label and a space either side fit.
pub open spec fn border_line(
    left: char,
    fill: char,
    right: char,
    label: Option<Seq<char>>,
    align: AlignMethod,
    width: nat,
    ansi: Seq<char>,
) -> SegLine {
    let inner = sat_sub(width, 2);
    let bare = seq![
        plain(wrap_spec(ansi, seq![left])),
        plain(wrap_spec(ansi, repeat_spec(fill, inner))),
        plain(wrap_spec(ansi, seq![right])),
        newline(),
    ];
    match label {
        Some(t) => if unicode_str_width(t) + 2 <= inner {
            let rem = (inner - unicode_str_width(t) - 2) as nat;
            let lr = label_split(align, rem);
            seq![
                plain(wrap_spec(ansi, seq![left])),
                plain(wrap_spec(ansi, repeat_spec(fill, lr.0))),
                plain(seq![' '] + t + seq![' ']),
                plain(wrap_spec(ansi, repeat_spec(fill, lr.1))),
                plain(wrap_spec(ansi, seq![right])),
                newline(),
            ]
        } else {
            bare
        },
        None => bare,
    }
}

/// A border with a label that fits (with a space either side) is: its left
/// corner, `l` fill characters, the label between spaces, `r` fill
/// characters and its right corner. Centred, the fill is split evenly
/// (the right side taking the odd one); placed left or right, one fill
/// character stands on that side and the rest on the other.
pub proof fn lemma_border_label_placement(
    left: char,
    fill: char,
    right: char,
    t: Seq<char>,
    align: AlignMethod,
    width: nat,
    ansi: Seq<char>,
)
    requires
        unicode_str_width(t) + 2 <= sat_sub(width, 2),
    ensures
        exists|l: nat, r: nat|
            {
                &&& #[trigger] border_line(left, fill, right, Some(t), align, width, ansi) == seq![
                    plain(wrap_spec(ansi, seq![left])),
                    plain(wrap_spec(ansi, repeat_spec(fill, l))),
                    plain(seq![' '] + t + seq![' ']),
                    plain(wrap_spec(ansi, repeat_spec(fill, r))),
                    plain(wrap_spec(ansi, seq![right])),
                    newline(),
                ]
                &&& align == AlignMethod::Center ==> l + r + unicode_str_width(t) + 2 == sat_sub(width, 2) && l <= r
                    && r <= l + 1
                &&& (align == AlignMethod::Left || align == AlignMethod::Full) && unicode_str_width(t) + 3 <= sat_sub(
                    width,
                    2,
                ) ==> l == 1 && l + r + unicode_str_width(t) + 2 == sat_sub(width, 2)
                &&& align == AlignMethod::Right && unicode_str_width(t) + 3 <= sat_sub(width, 2) ==> r == 1 && l + r
                    + unicode_str_width(t) + 2 == sat_sub(width, 2)
            },
{
    let rem = (sat_sub(width, 2) - unicode_str_width(t) - 2) as nat;
    let lr = label_split(align, rem);
    assert(border_line(left, fill, right, Some(t), align, width, ansi) == seq![
        plain(wrap_spec(ansi, seq![left])),
        plain(wrap_spec(ansi, repeat_spec(fill, lr.0))),
        plain(seq![' '] + t + seq![' ']),
        plain(wrap_spec(ansi, repeat_spec(fill, lr.1))),
        plain(wrap_spec(ansi, seq![right])),
        newline(),
    ]);
}

/// A label that does not fit (with a space either side) is left out: the
/// border is its corners and fill alone.
pub proof fn lemma_border_label_too_wide(
    left: char,
    fill: char,
    right: char,
    t: Seq<char>,
    align: AlignMethod,
    width: nat,
    ansi: Seq<char>,
)
    requires
        unicode_str_width(t) + 2 > sat_sub(width, 2),
    ensures
        border_line(left, fill, right, Some(t), align, width, ansi) == border_line(
            left,
            fill,
            right,
            None,
            align,
            width,
            ansi,
        ),
        border_line(left, fill, right, None, align, width, ansi) == seq![
            plain(wrap_spec(ansi, seq![left])),
            plain(wrap_spec(ansi, repeat_spec(fill, sat_sub(width, 2)))),
            plain(wrap_spec(ansi, seq![right])),
            newline(),
        ],
{
}

/// A padding line inside the border.
pub open spec fn pad_line_spec(b: BoxStyle, width: nat, ansi: Seq<char>) -> SegLine {
    seq![
        plain(wrap_spec(ansi, seq![b.mid_left])),
        plain(spaces(sat_sub(width, 2))),
        plain(wrap_spec(ansi, seq![b.mid_right])),
        newline(),
    ]
}

/// A line of content: the left edge, padding, as many of its segments as
/// its width and the space allow, spaces to fill, padding, the right edge.
pub open spec fn content_line_spec(
    b: BoxStyle,
    line: Seq<Segment>,
    width: nat,
    right: nat,
    left: nat,
    ansi: Seq<char>,
    edge: bool,
) -> SegLine {
    let avail = if edge {
        sat_sub(width, 2 + right + left)
    } else {
        sat_sub(width, right + left)
    };
    let sw = segs_width(line);
    let k = if sw < avail {
        sw
    } else {
        avail
    };
    let kept = if k < line.len() {
        line.take(k as int)
    } else {
        line
    };
    let fill = sat_sub(avail, sw);
    line_prefix(b, left, ansi, edge) + seg_views(kept) + line_suffix(b, fill, right, ansi, edge)
}

/// The left edge and padding of a content line.
pub open spec fn line_prefix(b: BoxStyle, left: nat, ansi: Seq<char>, edge: bool) -> SegLine {
    (if edge {
        seq![plain(wrap_spec(ansi, seq![b.mid_left]))]
    } else {
        seq![]
    }) + (if left > 0 {
        seq![plain(spaces(left))]
    } else {
        seq![]
    })
}

/// The fill, padding, right edge and newline of a content line.
pub open spec fn line_suffix(b: BoxStyle, fill: nat, right: nat, ansi: Seq<char>, edge: bool) -> SegLine {
    (if fill > 0 {
        seq![plain(spaces(fill))]
    } else {
        seq![]
    }) + (if right > 0 {
        seq![plain(spaces(right))]
    } else {
        seq![]
    }) + (if edge {
        seq![plain(wrap_spec(ansi, seq![b.mid_right]))]
    } else {
        seq![]
    }) + seq![newline()]
}

/// A title or subtitle shown without a border: aligned to the width
/// (as it is when full justification cannot be computed).
pub open spec fn bare_label_line(t: Seq<char>, align: AlignMethod, width: nat) -> SegLine {
    let a = if align == AlignMethod::Full && !crate::align::full_fits(t, width) {
        t
    } else {
        align_text_spec(align, t, width)
    };
    seq![plain(a), newline()]
}

/// The content lines of the panel.
pub open spec fn content_lines_spec(
    b: BoxStyle,
    content: Seq<Vec<Segment>>,
    width: nat,
    right: nat,
    left: nat,
    ansi: Seq<char>,
    edge: bool,
) -> Seq<SegLine> {
    Seq::new(content.len(), |i: int| content_line_spec(b, content[i]@, width, right, left, ansi, edge))
}

/// `n` copies of `line`.
pub open spec fn repeat_lines(line: SegLine, n: nat) -> Seq<SegLine> {
    Seq::new(n, |i: int| line)
}

/// The lines of a panel `width` cells wide round `content`.
pub open spec fn panel_spec<R>(p: Panel<R>, b: BoxStyle, content: Seq<Vec<Segment>>, width: nat) -> Seq<SegLine> {
    let ansi = sgr_of(p.border_style);
    let edge = b.top_left != ' ' || b.top_right != ' ' || b.bottom_left != ' ' || b.bottom_right != ' ';
    let body = content_lines_spec(b, content, width, p.padding.1 as nat, p.padding.3 as nat, ansi, edge);
    if edge {
        let pad = pad_line_spec(b, width, ansi);
        seq![border_line(b.top_left, b.top, b.top_right, opt_view(p.title), p.title_align, width, ansi)]
            + repeat_lines(pad, p.padding.0 as nat) + body + repeat_lines(pad, p.padding.2 as nat) + seq![
            border_line(b.bottom_left, b.bottom, b.bottom_right, opt_view(p.subtitle), p.subtitle_align, width, ansi),
        ]
    } else {
        let blank = seq![plain(spaces(width)), newline()];
        (match p.title {
            Some(t) => seq![bare_label_line(t@, p.title_align, width)],
            None => seq![],
        }) + repeat_lines(blank, p.padding.0 as nat) + body + repeat_lines(blank, p.padding.2 as nat) + (
        match p.subtitle {
            Some(t) => seq![bare_label_line(t@, p.subtitle_align, width)],
            None => seq![],
        })
    }
}

/// The characters of an optional string.
pub open spec fn opt_view(s: Option<String>) -> Option<Seq<char>> {
    match s {
        Some(t) => Some(t@),
        None => None,
    }
}

/// The views of lines of segments.
pub open spec fn lines_views(ls: Seq<Vec<Segment>>) -> Seq<SegLine> {
    ls.map_values(|l: Vec<Segment>| seg_views(l@))
}

/// The width of a panel: the whole width when it expands, else its content
/// with edges and padding, within the width and at least three cells.
pub open spec fn panel_width_spec(expand: bool, content_width: nat, edge: bool, right: nat, left: nat, max_width: nat) -> nat {
    if expand {
        max_width
    } else {
        let w = content_width + (if edge { 2nat } else { 0nat }) + right + left;
        let m = if w < max_width {
            w
        } else {
            max_width
        };
        if m > 3 {
            m
        } else {
            3
        }
    }
}

/// A segment of the given text.
fn seg_of(s: String) -> (r: Segment)
    ensures
        seg_view(r) == plain(s@),
{
    Segment { text: s, style: None }
}

/// `s` wrapped in the border's escape sequence.
fn wrap(ansi: &str, s: &str) -> (r: String)
    ensures
        r@ == wrap_spec(ansi@, s@),
{
    if ansi.unicode_len() == 0 {
        return owned(s);
    }
    let mut r = owned(ansi);
    push_str(&mut r, s);
    push_char(&mut r, '\x1b');
    push_char(&mut r, '[');
    push_char(&mut r, '0');
    push_char(&mut r, 'm');
    assert(r@ =~= ansi@ + s@ + reset_seq());
    r
}

/// `n` copies of `c`.
fn repeat_char(c: char, n: usize) -> (r: String)
    ensures
        r@ == repeat_spec(c, n as nat),
{
    let mut r = String::new();
    let mut i: usize = 0;
    while i < n
        invariant
            i <= n,
            r@ == repeat_spec(c, i as nat),
        decreases n - i,
    {
        push_char(&mut r, c);
        i = i + 1;
        assert(r@ =~= repeat_spec(c, i as nat));
    }
    r
}

/// One character as a string.
fn char_string(c: char) -> (r: String)
    ensures
        r@ == seq![c],
{
    let mut r = String::new();
    push_char(&mut r, c);
    r
}

/// A segment of `n` spaces.
fn spaces_seg(n: usize) -> (r: Segment)
    ensures
        seg_view(r) == plain(spaces(n as nat)),
{
    let mut t = String::new();
    push_spaces(&mut t, n);
    seg_of(t)
}

/// A wrapped border character as a segment.
fn edge_seg(ansi: &str, c: char) -> (r: Segment)
    ensures
        seg_view(r) == plain(wrap_spec(ansi@, seq![c])),
{
    let s = char_string(c);
    seg_of(wrap(ansi, s.as_str()))
}

/// `a - b`, or 0 when `b` is larger.
fn sub_or_zero(a: usize, b: usize) -> (r: usize)
    ensures
        r == sat_sub(a as nat, b as nat),
{
    if a > b {
        a - b
    } else {
        0
    }
}

/// A top or bottom border.
fn make_border_line(
    left: char,
    fill: char,
    right: char,
    label: &Option<String>,
    align: AlignMethod,
    width: usize,
    ansi: &str,
) -> (line: Vec<Segment>)
    ensures
        seg_views(line@) == border_line(left, fill, right, opt_view(*label), align, width as nat, ansi@),
{
    let inner = sub_or_zero(width, 2);
    let mut line: Vec<Segment> = Vec::new();
    match label {
        Some(t) => {
            let tw = cell_len(t.as_str());
            if tw <= inner && inner - tw >= 2 {
                let rem = inner - tw - 2;
                let (lw, rw) = match align {
                    AlignMethod::Right => (sub_or_zero(rem, 1), 1usize),
                    AlignMethod::Center => (rem / 2, rem - rem / 2),
                    _ => (1usize, sub_or_zero(rem, 1)),
                };
                line.push(edge_seg(ansi, left));
                let l = repeat_char(fill, lw);
                line.push(seg_of(wrap(ansi, l.as_str())));
                let mut mid = String::new();
                push_char(&mut mid, ' ');
                push_str(&mut mid, t.as_str());
                push_char(&mut mid, ' ');
                assert(mid@ =~= seq![' '] + t@ + seq![' ']);
                line.push(seg_of(mid));
                let r = repeat_char(fill, rw);
                line.push(seg_of(wrap(ansi, r.as_str())));
                line.push(edge_seg(ansi, right));
                line.push(Segment::line());
                proof {
                    assert(opt_view(*label) == Some(t@));
                    assert(tw == unicode_str_width(t@));
                    assert(label_split(align, rem as nat) == (lw as nat, rw as nat));
                    let lr = label_split(align, rem as nat);
                    assert(seg_views(line@) =~= seq![
                        plain(wrap_spec(ansi@, seq![left])),
                        plain(wrap_spec(ansi@, repeat_spec(fill, lr.0))),
                        plain(seq![' '] + t@ + seq![' ']),
                        plain(wrap_spec(ansi@, repeat_spec(fill, lr.1))),
                        plain(wrap_spec(ansi@, seq![right])),
                        newline(),
                    ]);
                }
                return line;
            }
        },
        None => {},
    }
    line.push(edge_seg(ansi, left));
    let f = repeat_char(fill, inner);
    line.push(seg_of(wrap(ansi, f.as_str())));
    line.push(edge_seg(ansi, right));
    line.push(Segment::line());
    assert(seg_views(line@) =~= border_line(left, fill, right, opt_view(*label), align, width as nat, ansi@));
    line
}

/// A padding line inside the border.
fn make_pad_line(b: &BoxStyle, width: usize, ansi: &str) -> (line: Vec<Segment>)
    ensures
        seg_views(line@) == pad_line_spec(*b, width as nat, ansi@),
{
    let mut line: Vec<Segment> = Vec::new();
    line.push(edge_seg(ansi, b.mid_left));
    line.push(spaces_seg(sub_or_zero(width, 2)));
    line.push(edge_seg(ansi, b.mid_right));
    line.push(Segment::line());
    assert(seg_views(line@) =~= pad_line_spec(*b, width as nat, ansi@));
    line
}

/// A line of `width` spaces.
fn make_blank_line(width: usize) -> (line: Vec<Segment>)
    ensures
        seg_views(line@) == seq![plain(spaces(width as nat)), newline()],
{
    let mut line: Vec<Segment> = Vec::new();
    line.push(spaces_seg(width));
    line.push(Segment::line());
    assert(seg_views(line@) =~= seq![plain(spaces(width as nat)), newline()]);
    line
}

/// A title or subtitle line without a border.
fn make_bare_label(t: &String, align: AlignMethod, width: usize) -> (line: Vec<Segment>)
    ensures
        seg_views(line@) == bare_label_line(t@, align, width as nat),
{
    let a = match align {
        AlignMethod::Full => {
            if fits_full(t.as_str(), width) {
                align.align_text(t.as_str(), width)
            } else {
                owned(t.as_str())
            }
        },
        _ => align.align_text(t.as_str(), width),
    };
    let mut line: Vec<Segment> = Vec::new();
    line.push(seg_of(a));
    line.push(Segment::line());
    assert(seg_views(line@) =~= bare_label_line(t@, align, width as nat));
    line
}

/// The display width of `segs`, or `usize::MAX` when it is larger.
fn width_of(segs: &Vec<Segment>) -> (w: usize)
    ensures
        w == (if segs_width(segs@) <= usize::MAX {
            segs_width(segs@)
        } else {
            usize::MAX as nat
        }),
{
    let mut w: usize = 0;
    let mut i: usize = 0;
    while i < segs.len()
        invariant
            i <= segs.len(),
            w == (if segs_width(segs@.take(i as int)) <= usize::MAX {
                segs_width(segs@.take(i as int))
            } else {
                usize::MAX as nat
            }),
        decreases segs.len() - i,
    {
        assert(segs@.take(i + 1).drop_last() =~= segs@.take(i as int));
        let c = segs[i].cell_length();
        w = sat_add(w, c);
        i = i + 1;
    }
    assert(segs@.take(segs.len() as int) =~= segs@);
    w
}

/// A line of content.
fn make_content_line(
    b: &BoxStyle,
    content: &Vec<Segment>,
    width: usize,
    right: usize,
    left: usize,
    ansi: &str,
    edge: bool,
) -> (line: Vec<Segment>)
    ensures
        seg_views(line@) == content_line_spec(*b, content@, width as nat, right as nat, left as nat, ansi@, edge),
{
    let used = if edge {
        sat_add(2, sat_add(right, left))
    } else {
        sat_add(right, left)
    };
    let avail = sub_or_zero(width, used);
    let sw = width_of(content);
    let k = if sw < avail {
        sw
    } else {
        avail
    };
    let fill = sub_or_zero(avail, sw);
    let ghost kept = if k < content@.len() {
        content@.take(k as int)
    } else {
        content@
    };
    let mut line: Vec<Segment> = Vec::new();
    if edge {
        line.push(edge_seg(ansi, b.mid_left));
    }
    if left > 0 {
        line.push(spaces_seg(left));
    }
    let ghost pre = seg_views(line@);
    assert(pre =~= line_prefix(*b, left as nat, ansi@, edge));
    push_prefix(&mut line, content, k);
    let ghost mid = seg_views(line@);
    let mut tail: Vec<Segment> = Vec::new();
    if fill > 0 {
        tail.push(spaces_seg(fill));
    }
    if right > 0 {
        tail.push(spaces_seg(right));
    }
    if edge {
        tail.push(edge_seg(ansi, b.mid_right));
    }
    tail.push(Segment::line());
    let ghost tv = seg_views(tail@);
    assert(tv =~= line_suffix(*b, fill as nat, right as nat, ansi@, edge));
    append_segs(&mut line, tail);
    line
}

/// The views of two runs of segments, one after the other.
proof fn lemma_views_concat(a: Seq<Segment>, b: Seq<Segment>)
    ensures
        seg_views(a + b) == seg_views(a) + seg_views(b),
{
    assert(seg_views(a + b) =~= seg_views(a) + seg_views(b));
}

/// Appends the first `k` segments of `src` (all of them when it has fewer).
fn push_prefix(out: &mut Vec<Segment>, src: &Vec<Segment>, k: usize)
    ensures
        seg_views(final(out)@) == seg_views(old(out)@) + seg_views(if k < src@.len() {
            src@.take(k as int)
        } else {
            src@
        }),
{
    let mut i: usize = 0;
    while i < k && i < src.len()
        invariant
            i <= src@.len(),
            i <= k,
            out@ == old(out)@ + src@.take(i as int),
        decreases src.len() - i,
    {
        out.push(src[i].clone());
        i = i + 1;
        assert(out@ =~= old(out)@ + src@.take(i as int));
    }
    proof {
        if k < src@.len() {
            assert(i == k);
        } else {
            assert(src@.take(i as int) =~= src@);
        }
        lemma_views_concat(old(out)@, src@.take(i as int));
    }
}

/// Appends the segments of `tail`.
fn append_segs(out: &mut Vec<Segment>, tail: Vec<Segment>)
    ensures
        seg_views(final(out)@) == seg_views(old(out)@) + seg_views(tail@),
{
    let mut tail = tail;
    let ghost t0 = tail@;
    let mut i: usize = 0;
    while i < tail.len()
        invariant
            i <= tail@.len(),
            tail@ == t0,
            out@ == old(out)@ + t0.take(i as int),
        decreases tail.len() - i,
    {
        out.push(tail[i].clone());
        i = i + 1;
        assert(out@ =~= old(out)@ + t0.take(i as int));
    }
    assert(t0.take(i as int) =~= t0);
    proof {
        lemma_views_concat(old(out)@, t0);
    }
}

impl<R: Renderable> Panel<R> {
    /// A panel round `renderable`: rounded border, centred labels, one
    /// space of padding left and right, taking the whole width.
    pub fn new(renderable: R) -> (p: Self)
        ensures
            p.renderable == renderable,
            p.box_style.rows() == seq![
                seq!['╭', '─', '┬', '╮'],
                seq!['│', ' ', '│', '│'],
                seq!['├', '─', '┼', '┤'],
                seq!['│', ' ', '│', '│'],
                seq!['├', '─', '┼', '┤'],
                seq!['├', '─', '┼', '┤'],
                seq!['│', ' ', '│', '│'],
                seq!['╰', '─', '┴', '╯'],
            ],
            !p.box_style.ascii,
            p.title is None,
            p.subtitle is None,
            p.title_align == AlignMethod::Center,
            p.subtitle_align == AlignMethod::Center,
            p.expand,
            p.style == empty_style(),
            p.border_style == empty_style(),
            p.width is None,
            p.height is None,
            p.padding == (0usize, 1usize, 0usize, 1usize),
            !p.highlight,
    {
        Panel {
            renderable,
            box_style: box_rounded(),
            title: None,
            title_align: AlignMethod::Center,
            subtitle: None,
            subtitle_align: AlignMethod::Center,
            expand: true,
            style: Style::new(),
            border_style: Style::new(),
            width: None,
            height: None,
            padding: (0, 1, 0, 1),
            highlight: false,
        }
    }

    /// The panel drawn with `bs`.
    pub fn box_style(self, bs: BoxStyle) -> (p: Self)
        ensures
            p == (Panel { box_style: bs, ..self }),
    {
        Panel { box_style: bs, ..self }
    }

    /// The panel with a title.
    pub fn title(self, title: &str) -> (p: Self)
        ensures
            p.title matches Some(t) && t@ == title@,
            p.subtitle == self.subtitle,
            p.box_style == self.box_style,
            p.border_style == self.border_style,
            p.padding == self.padding,
            p.expand == self.expand,
            p.title_align == self.title_align,
            p.subtitle_align == self.subtitle_align,
            p.style == self.style,
            p.width == self.width,
            p.height == self.height,
            p.highlight == self.highlight,
    {
        Panel { title: Some(owned(title)), ..self }
    }

    /// The panel with a subtitle.
    pub fn subtitle(self, subtitle: &str) -> (p: Self)
        ensures
            p.subtitle matches Some(t) && t@ == subtitle@,
            p.title == self.title,
            p.box_style == self.box_style,
            p.border_style == self.border_style,
            p.padding == self.padding,
            p.expand == self.expand,
            p.title_align == self.title_align,
            p.subtitle_align == self.subtitle_align,
    {
        Panel { subtitle: Some(owned(subtitle)), ..self }
    }

    /// The panel with its border in `style`.
    pub fn border_style(self, style: Style) -> (p: Self)
        ensures
            p == (Panel { border_style: style, ..self }),
    {
        Panel { border_style: style, ..self }
    }

    /// The panel with its content area in `style`.
    pub fn style(self, style: Style) -> (p: Self)
        ensures
            p == (Panel { style: style, ..self }),
    {
        Panel { style: style, ..self }
    }

    /// The panel with a fixed width.
    pub fn width(self, width: usize) -> (p: Self)
        ensures
            p == (Panel { width: Some(width), ..self }),
    {
        Panel { width: Some(width), ..self }
    }

    /// The panel with a fixed height.
    pub fn height(self, height: usize) -> (p: Self)
        ensures
            p == (Panel { height: Some(height), ..self }),
    {
        Panel { height: Some(height), ..self }
    }

    /// The panel with the given padding.
    pub fn padding(self, top: usize, right: usize, bottom: usize, left: usize) -> (p: Self)
        ensures
            p == (Panel { padding: (top, right, bottom, left), ..self }),
    {
        Panel { padding: (top, right, bottom, left), ..self }
    }

    /// The panel fitted to its content rather than the whole width.
    pub fn fit(self) -> (p: Self)
        ensures
            p == (Panel { expand: false, ..self }),
    {
        Panel { expand: false, ..self }
    }

    /// The panel with its title aligned as `align` says.
    pub fn title_align(self, align: AlignMethod) -> (p: Self)
        ensures
            p == (Panel { title_align: align, ..self }),
    {
        Panel { title_align: align, ..self }
    }

    /// The width of the panel for content `content_width` wide.
    pub fn panel_width(&self, content_width: usize, edge: bool, max_width: usize) -> (w: usize)
        ensures
            w == panel_width_spec(
                self.expand,
                content_width as nat,
                edge,
                self.padding.1 as nat,
                self.padding.3 as nat,
                max_width as nat,
            ),
    {
        if self.expand {
            return max_width;
        }
        let e: usize = if edge {
            2
        } else {
            0
        };
        let total = sat_add(sat_add(sat_add(content_width, e), self.padding.1), self.padding.3);
        let m = if total < max_width {
            total
        } else {
            max_width
        };
        if m > 3 {
            m
        } else {
            3
        }
    }

    /// The lines of the panel `width` cells wide drawn with `b` round
    /// `content`.
    pub fn panel_lines(&self, b: &BoxStyle, content: &Vec<Vec<Segment>>, width: usize) -> (lines: Vec<Vec<Segment>>)
        ensures
            lines_views(lines@) == panel_spec(*self, *b, content@, width as nat),
    {
        let ansi = self.border_style.to_ansi();
        let edge = b.has_visible_edges();
        let right = self.padding.1;
        let left = self.padding.3;
        let ghost body = content_lines_spec(*b, content@, width as nat, right as nat, left as nat, ansi@, edge);
        let mut lines: Vec<Vec<Segment>> = Vec::new();
        if edge {
            lines.push(make_border_line(b.top_left, b.top, b.top_right, &self.title, self.title_align, width, ansi.as_str()));
        } else {
            match &self.title {
                Some(t) => {
                    lines.push(make_bare_label(t, self.title_align, width));
                },
                None => {},
            }
        }
        let ghost first = lines_views(lines@);
        let ghost padl = if edge {
            pad_line_spec(*b, width as nat, ansi@)
        } else {
            seq![plain(spaces(width as nat)), newline()]
        };
        let mut k: usize = 0;
        while k < self.padding.0
            invariant
                k <= self.padding.0,
                lines_views(lines@) == first + repeat_lines(padl, k as nat),
                padl == (if edge {
                    pad_line_spec(*b, width as nat, ansi@)
                } else {
                    seq![plain(spaces(width as nat)), newline()]
                }),
                edge == (b.top_left != ' ' || b.top_right != ' ' || b.bottom_left != ' ' || b.bottom_right != ' '),
            decreases self.padding.0 - k,
        {
            let l = if edge {
                make_pad_line(b, width, ansi.as_str())
            } else {
                make_blank_line(width)
            };
            assert(seg_views(l@) == padl);
            let ghost before = lines@;
            lines.push(l);
            assert(lines_views(lines@) =~= lines_views(before).push(padl));
            k = k + 1;
            assert(lines_views(lines@) =~= first + repeat_lines(padl, k as nat));
        }
        let ghost second = lines_views(lines@);
        let mut i: usize = 0;
        while i < content.len()
            invariant
                i <= content@.len(),
                lines_views(lines@) == second + body.take(i as int),
                body == content_lines_spec(*b, content@, width as nat, right as nat, left as nat, ansi@, edge),
                right == self.padding.1,
                left == self.padding.3,
            decreases content.len() - i,
        {
            let l = make_content_line(b, &content[i], width, right, left, ansi.as_str(), edge);
            let ghost before = lines@;
            lines.push(l);
            assert(lines_views(lines@) =~= lines_views(before).push(body[i as int]));
            i = i + 1;
            assert(lines_views(lines@) =~= second + body.take(i as int));
        }
        assert(body.take(content@.len() as int) =~= body);
        let ghost third = lines_views(lines@);
        let mut k: usize = 0;
        while k < self.padding.2
            invariant
                k <= self.padding.2,
                lines_views(lines@) == third + repeat_lines(padl, k as nat),
                edge == (b.top_left != ' ' || b.top_right != ' ' || b.bottom_left != ' ' || b.bottom_right != ' '),
                padl == (if edge {
                    pad_line_spec(*b, width as nat, ansi@)
                } else {
                    seq![plain(spaces(width as nat)), newline()]
                }),
            decreases self.padding.2 - k,
        {
            let l = if edge {
                make_pad_line(b, width, ansi.as_str())
            } else {
                make_blank_line(width)
            };
            assert(seg_views(l@) == padl);
            let ghost before = lines@;
            lines.push(l);
            assert(lines_views(lines@) =~= lines_views(before).push(padl));
            k = k + 1;
            assert(lines_views(lines@) =~= third + repeat_lines(padl, k as nat));
        }
        let ghost fourth = lines_views(lines@);
        if edge {
            lines.push(make_border_line(b.bottom_left, b.bottom, b.bottom_right, &self.subtitle, self.subtitle_align, width, ansi.as_str()));
            assert(lines_views(lines@) =~= fourth + seq![border_line(b.bottom_left, b.bottom, b.bottom_right, opt_view(self.subtitle), self.subtitle_align, width as nat, ansi@)]);
        } else {
            match &self.subtitle {
                Some(t) => {
                    lines.push(make_bare_label(t, self.subtitle_align, width));
                    assert(lines_views(lines@) =~= fourth + seq![bare_label_line(t@, self.subtitle_align, width as nat)]);
                },
                None => {
                    assert(lines_views(lines@) =~= fourth);
                },
            }
        }
        assert(lines_views(lines@) =~= panel_spec(*self, *b, content@, width as nat));
        lines
    }
}

/// Whether a box draws any corner.
pub open spec fn visible_edges(b: BoxStyle) -> bool {
    b.top_left != ' ' || b.top_right != ' ' || b.bottom_left != ' ' || b.bottom_right != ' '
}

/// The width of a line, or the largest `usize` when wider.
pub open spec fn capped_width(l: Seq<Segment>) -> nat {
    if segs_width(l) <= usize::MAX {
        segs_width(l)
    } else {
        usize::MAX as nat
    }
}

/// The widest of the first `k` lines of `content` (each width capped at the
/// largest `usize`); zero when there are none.
pub open spec fn widest(content: Seq<Vec<Segment>>, k: nat) -> nat
    decreases k,
{
    if k == 0 || k > content.len() {
        0
    } else {
        let w = widest(content, (k - 1) as nat);
        let lw = capped_width(content[k - 1]@);
        if lw > w {
            lw
        } else {
            w
        }
    }
}

/// The widest of the lines of `content`.
fn content_width(content: &Vec<Vec<Segment>>) -> (w: usize)
    ensures
        w == widest(content@, content@.len()),
{
    let mut w: usize = 0;
    let mut i: usize = 0;
    while i < content.len()
        invariant
            i <= content.len(),
            w == widest(content@, i as nat),
        decreases content.len() - i,
    {
        let lw = width_of(&content[i]);
        if lw > w {
            w = lw;
        }
        i = i + 1;
    }
    w
}

/// Whether `b` is the box drawn for `style`: an ASCII box where only ASCII
/// may be drawn and `style` is not ASCII, else `style` itself.
pub open spec fn safe_box_is(style: BoxStyle, ascii_only: bool, b: BoxStyle) -> bool {
    &&& (ascii_only && !style.ascii) ==> b.rows() == crate::box_drawing::box_ascii_rows() && b.ascii
    &&& !(ascii_only && !style.ascii) ==> b == style
}

/// The options the content of `p` is rendered with in box `b`: the width
/// left inside the border and the padding (at least one).
pub open spec fn panel_inner_options<R>(p: Panel<R>, b: BoxStyle, options: ConsoleOptions) -> ConsoleOptions {
    let inner = sat_sub(
        options.max_width as nat,
        crate::text::sat_add(
            (if visible_edges(b) {
                2nat
            } else {
                0nat
            }),
            crate::text::sat_add(p.padding.1 as nat, p.padding.3 as nat) as nat,
        ) as nat,
    );
    ConsoleOptions {
        max_width: (if inner > 0 {
            inner
        } else {
            1
        }) as usize,
        ..options
    }
}

/// The lines of panel `p` drawn in box `b` around `content` within
/// `max_width`.
pub open spec fn panel_drawn<R>(p: Panel<R>, b: BoxStyle, content: Seq<Vec<Segment>>, max_width: usize) -> Seq<SegLine> {
    panel_spec(
        p,
        b,
        content,
        panel_width_spec(
            p.expand,
            widest(content, content.len()),
            visible_edges(b),
            p.padding.1 as nat,
            p.padding.3 as nat,
            max_width as nat,
        ),
    )
}

impl<R: Renderable> Renderable for Panel<R> {
    fn measure(&self, options: &ConsoleOptions) -> Option<crate::measure::Measurement> {
        None
    }

    /// The content, rendered in the width left inside the border and
    /// padding, drawn in the panel (an ASCII border where only ASCII may be
    /// drawn).
    open spec fn renders(&self, options: ConsoleOptions, r: RenderResult) -> bool {
        &&& r.items@.len() == 0
        &&& exists|content: RenderResult, b: BoxStyle|
            safe_box_is(self.box_style, options.ascii_only, b) && self.renderable.renders(
                panel_inner_options(*self, b, options),
                content,
            ) && lines_views(r.lines@) == #[trigger] panel_drawn(*self, b, content.lines@, options.max_width)
    }

    fn render(&self, options: &ConsoleOptions) -> (r: RenderResult) {
        let b = get_safe_box(&self.box_style, options.ascii_only);
        let edge = b.has_visible_edges();
        let e: usize = if edge {
            2
        } else {
            0
        };
        let inner = sub_or_zero(options.max_width, sat_add(e, sat_add(self.padding.1, self.padding.3)));
        let inner_options = options.update_width(if inner > 0 {
            inner
        } else {
            1
        });
        assert(inner_options == panel_inner_options(*self, b, *options));
        let content = self.renderable.render(&inner_options);
        let r = self.draw_in(&b, &content.lines, options.max_width);
        assert(lines_views(r.lines@) == panel_drawn(*self, b, content.lines@, options.max_width));
        r
    }
}

impl<R: Renderable> Panel<R> {
    /// The panel drawn in box `b` around the lines `content`, within
    /// `max_width`.
    fn draw_in(&self, b: &BoxStyle, content: &Vec<Vec<Segment>>, max_width: usize) -> (r: RenderResult)
        ensures
            r.items@.len() == 0,
            lines_views(r.lines@) == panel_drawn(*self, *b, content@, max_width),
    {
        let edge = b.has_visible_edges();
        let cw = content_width(content);
        let width = self.panel_width(cw, edge, max_width);
        let lines = self.panel_lines(b, content, width);
        assert(lines_views(lines@) == panel_spec(
            *self,
            *b,
            content@,
            panel_width_spec(
                self.expand,
                widest(content@, content@.len()),
                visible_edges(*b),
                self.padding.1 as nat,
                self.padding.3 as nat,
                max_width as nat,
            ),
        ));
        RenderResult::from_lines(lines)
    }

    /// The panel drawn around the lines `content` with `options`: in an
    /// ASCII box where only ASCII may be drawn and its box is not ASCII.
    pub fn draw(&self, options: &ConsoleOptions, content: &Vec<Vec<Segment>>) -> (r: RenderResult)
        ensures
            r.items@.len() == 0,
            exists|b: BoxStyle|
                safe_box_is(self.box_style, options.ascii_only, b) && lines_views(r.lines@) == #[trigger] panel_drawn(
                    *self,
                    b,
                    content@,
                    options.max_width,
                ),
    {
        let b = get_safe_box(&self.box_style, options.ascii_only);
        let r = self.draw_in(&b, content, options.max_width);
        assert(safe_box_is(self.box_style, options.ascii_only, b));
        r
    }
}

} // verus!
