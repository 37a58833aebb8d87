//! Horizontal and vertical alignment of text and of rendered lines.

use vstd::prelude::*;
use crate::cells::{cell_len, unicode_str_width};
use crate::console::{ConsoleOptions, RenderResult, Renderable};
use crate::segment::Segment;
use crate::style::Style;
use crate::strutil::{owned, push_char, push_spaces, push_str, spaces, str_eq};

verus! {

/// Horizontal alignment.
#[derive(Debug, Clone, Copy, PartialEq, Eq, Hash)]
pub enum AlignMethod {
    /// Against the left edge.
    Left,
    /// Centred.
    Center,
    /// Against the right edge.
    Right,
    /// Justified: spaces spread between the words.
    Full,
}

/// Whether `c` is white space as `char::is_whitespace` defines it (the
/// Unicode `White_Space` property).
pub open spec fn is_ws(c: char) -> bool {
    ('\t' <= c && c <= '\r') || c == ' ' || c == '\u{85}' || c == '\u{a0}' || c == '\u{1680}' || (
    '\u{2000}' <= c && c <= '\u{200a}') || c == '\u{2028}' || c == '\u{2029}' || c == '\u{202f}'
        || c == '\u{205f}' || c == '\u{3000}'
}

pub fn char_is_ws(c: char) -> (b: bool)
    ensures
        b == is_ws(c),
{
    ('\t' <= c && c <= '\r') || c == ' ' || c == '\u{85}' || c == '\u{a0}' || c == '\u{1680}' || (
    '\u{2000}' <= c && c <= '\u{200a}') || c == '\u{2028}' || c == '\u{2029}' || c == '\u{202f}'
        || c == '\u{205f}' || c == '\u{3000}'
}

/// The words (maximal runs of non-white-space characters) of the rest `cs`
/// of a text, given the word being read and the words already read.
pub open spec fn words_from(cs: Seq<char>, cur: Seq<char>, acc: Seq<Seq<char>>) -> Seq<Seq<char>>
    decreases cs.len(),
{
    if cs.len() == 0 {
        if cur.len() > 0 {
            acc.push(cur)
        } else {
            acc
        }
    } else if is_ws(cs[0]) {
        words_from(cs.drop_first(), seq![], if cur.len() > 0 { acc.push(cur) } else { acc })
    } else {
        words_from(cs.drop_first(), cur.push(cs[0]), acc)
    }
}

/// The words of `cs`, as `str::split_whitespace` yields them.
pub open spec fn words_spec(cs: Seq<char>) -> Seq<Seq<char>> {
    words_from(cs, seq![], seq![])
}

/// The words of `s` (`str::split_whitespace`).
pub fn split_words(s: &str) -> (r: Vec<String>)
    ensures
        crate::strutil::views(r@) == words_spec(s@),
{
    let n = s.unicode_len();
    let mut out: Vec<String> = Vec::new();
    let mut cur: Vec<char> = Vec::new();
    let mut i: usize = 0;
    assert(s@.skip(0) =~= s@);
    assert(crate::strutil::views(out@) =~= Seq::<Seq<char>>::empty());
    while i < n
        invariant
            n == s@.len(),
            i <= n,
            words_from(s@.skip(i as int), cur@, crate::strutil::views(out@)) == words_spec(s@),
        decreases n - i,
    {
        let c = s.get_char(i);
        let ghost rest = s@.skip(i as int);
        let ghost before = crate::strutil::views(out@);
        assert(rest[0] == c);
        assert(rest.drop_first() =~= s@.skip(i + 1));
        if char_is_ws(c) {
            if cur.len() > 0 {
                let w = crate::strutil::string_of(&cur);
                out.push(w);
                assert(crate::strutil::views(out@) =~= before.push(cur@));
            }
            cur = Vec::new();
        } else {
            cur.push(c);
        }
        i = i + 1;
    }
    if cur.len() > 0 {
        let ghost before = crate::strutil::views(out@);
        let w = crate::strutil::string_of(&cur);
        out.push(w);
        assert(crate::strutil::views(out@) =~= before.push(cur@));
    }
    out
}

/// The total cell width of the first `k` words.
pub open spec fn widths_upto(words: Seq<Seq<char>>, k: nat) -> nat
    decreases k,
{
    if k == 0 || k > words.len() {
        0
    } else {
        widths_upto(words, (k - 1) as nat) + unicode_str_width(words[k - 1]) as nat
    }
}

/// The first `k` words, each but the last `gap_count` followed by
/// `gap + 1` spaces when its index is below `extra`, else `gap` spaces.
pub open spec fn justify_upto(words: Seq<Seq<char>>, gap: nat, extra: nat, k: nat) -> Seq<char>
    decreases k,
{
    if k == 0 || k > words.len() {
        seq![]
    } else {
        let i = (k - 1) as nat;
        justify_upto(words, gap, extra, i) + words[i as int] + (if i + 1 < words.len() {
            spaces(gap + if i < extra { 1nat } else { 0nat })
        } else {
            seq![]
        })
    }
}

/// Whether full justification can be computed for `text` at `width`: with
/// two or more words their cells must fit in the width.
pub open spec fn full_fits(text: Seq<char>, width: nat) -> bool {
    let words = words_spec(text);
    words.len() <= 1 || widths_upto(words, words.len()) <= width
}

/// `text` aligned within `width` cells.
pub open spec fn align_text_spec(m: AlignMethod, text: Seq<char>, width: nat) -> Seq<char> {
    let tw = unicode_str_width(text) as nat;
    if tw >= width {
        text
    } else {
        let padding = (width - tw) as nat;
        match m {
            AlignMethod::Left => text + spaces(padding),
            AlignMethod::Right => spaces(padding) + text,
            AlignMethod::Center => spaces(padding / 2) + text + spaces((padding - padding / 2) as nat),
            AlignMethod::Full => {
                let words = words_spec(text);
                if words.len() <= 1 {
                    text + spaces(padding)
                } else {
                    let total = (width - widths_upto(words, words.len())) as nat;
                    let gaps = (words.len() - 1) as nat;
                    justify_upto(words, total / gaps, total % gaps, words.len())
                }
            },
        }
    }
}

/// Whether full justification of `text` at `width` can be computed.
pub fn fits_full(text: &str, width: usize) -> (b: bool)
    ensures
        b == full_fits(text@, width as nat),
{
    let words = split_words(text);
    let ghost ws = crate::strutil::views(words@);
    if words.len() <= 1 {
        return true;
    }
    let mut total: usize = 0;
    let mut i: usize = 0;
    while i < words.len()
        invariant
            ws == crate::strutil::views(words@),
            ws == words_spec(text@),
            words@.len() > 1,
            i <= words.len(),
            total == widths_upto(ws, i as nat),
            total <= width,
        decreases words.len() - i,
    {
        let c = cell_len(words[i].as_str());
        if c > width - total {
            proof {
                assert(ws[i as int] == words@[i as int]@);
                assert(widths_upto(ws, (i + 1) as nat) == total + c);
                lemma_widths_upto_mono(ws, (i + 1) as nat, ws.len());
                assert(ws.len() == words@.len());
                assert(words_spec(text@) == ws);
                assert(widths_upto(ws, ws.len()) > width);
            }
            return false;
        }
        assert(ws[i as int] == words@[i as int]@);
        total = total + c;
        i = i + 1;
    }
    true
}

impl AlignMethod {
    /// `text` padded with spaces to `width` cells according to the
    /// alignment; text at least that wide is returned as it is. Full
    /// justification spreads the spaces between the words, counting each
    /// word's characters.
    pub fn align_text(&self, text: &str, width: usize) -> (r: String)
        requires
            *self == AlignMethod::Full ==> full_fits(text@, width as nat),
        ensures
            r@ == align_text_spec(*self, text@, width as nat),
    {
        let tw = cell_len(text);
        if tw >= width {
            return owned(text);
        }
        let padding = width - tw;
        match self {
            AlignMethod::Left => {
                let mut s = owned(text);
                push_spaces(&mut s, padding);
                s
            },
            AlignMethod::Right => {
                let mut s = String::new();
                push_spaces(&mut s, padding);
                push_str(&mut s, text);
                assert(s@ =~= spaces(padding as nat) + text@);
                s
            },
            AlignMethod::Center => {
                let left = padding / 2;
                let right = padding - left;
                let mut s = String::new();
                push_spaces(&mut s, left);
                push_str(&mut s, text);
                push_spaces(&mut s, right);
                s
            },
            AlignMethod::Full => {
                let words = split_words(text);
                let ghost ws = crate::strutil::views(words@);
                if words.len() <= 1 {
                    let mut s = owned(text);
                    push_spaces(&mut s, padding);
                    return s;
                }
                let mut word_chars: usize = 0;
                let mut i: usize = 0;
                while i < words.len()
                    invariant
                        ws == crate::strutil::views(words@),
                        i <= words.len(),
                        word_chars == widths_upto(ws, i as nat),
                        widths_upto(ws, ws.len()) <= width,
                    decreases words.len() - i,
                {
                    proof {
                        lemma_widths_upto_mono(ws, (i + 1) as nat, ws.len());
                    }
                    word_chars = word_chars + cell_len(words[i].as_str());
                    i = i + 1;
                }
                let total_gaps = width - word_chars;
                let gap_count = words.len() - 1;
                let gap_size = total_gaps / gap_count;
                let extra = total_gaps % gap_count;
                proof {
                    vstd::arithmetic::div_mod::lemma_fundamental_div_mod(total_gaps as int, gap_count as int);
                }
                let mut out = String::new();
                let mut j: usize = 0;
                while j < words.len()
                    invariant
                        ws == crate::strutil::views(words@),
                        j <= words.len(),
                        gap_count == words.len() - 1,
                        gap_count * gap_size + extra == total_gaps,
                        extra < gap_count,
                        total_gaps <= width,
                        out@ == justify_upto(ws, gap_size as nat, extra as nat, j as nat),
                    decreases words.len() - j,
                {
                    push_str(&mut out, words[j].as_str());
                    if j < gap_count {
                        assert(gap_size + (if j < extra { 1int } else { 0int }) <= total_gaps) by (nonlinear_arith)
                            requires
                                gap_count * gap_size + extra == total_gaps,
                                gap_count >= 1,
                                j < extra ==> extra >= 1,
                        ;
                        let spaces_n: usize = gap_size + if j < extra { 1 } else { 0 };
                        push_spaces(&mut out, spaces_n);
                    }
                    j = j + 1;
                }
                out
            },
        }
    }

    /// The alignment a name selects: `left` (or `default`), `center`,
    /// `right` or `full`; any other name selects left.
    pub fn from_str(s: &str) -> (m: Self)
        ensures
            m == (if s@ == "center"@ {
                AlignMethod::Center
            } else if s@ == "right"@ {
                AlignMethod::Right
            } else if s@ == "full"@ {
                AlignMethod::Full
            } else {
                AlignMethod::Left
            }),
    {
        if str_eq(s, "center") {
            AlignMethod::Center
        } else if str_eq(s, "right") {
            AlignMethod::Right
        } else if str_eq(s, "full") {
            AlignMethod::Full
        } else {
            AlignMethod::Left
        }
    }

    /// The name of the alignment.
    pub fn to_string(&self) -> (s: String)
        ensures
            s@ == match *self {
                AlignMethod::Left => "left"@,
                AlignMethod::Center => "center"@,
                AlignMethod::Right => "right"@,
                AlignMethod::Full => "full"@,
            },
    {
        match self {
            AlignMethod::Left => owned("left"),
            AlignMethod::Center => owned("center"),
            AlignMethod::Right => owned("right"),
            AlignMethod::Full => owned("full"),
        }
    }
}

proof fn lemma_widths_upto_mono(words: Seq<Seq<char>>, a: nat, b: nat)
    requires
        a <= b <= words.len(),
    ensures
        widths_upto(words, a) <= widths_upto(words, b),
    decreases b - a,
{
    if a < b {
        lemma_widths_upto_mono(words, a, (b - 1) as nat);
    }
}

impl Default for AlignMethod {
    /// Left alignment.
    fn default() -> (m: Self)
        ensures
            m == AlignMethod::Left,
    {
        AlignMethod::Left
    }
}

/// Vertical alignment.
#[derive(Debug, Clone, Copy, PartialEq, Eq, Hash)]
pub enum VerticalAlignMethod {
    /// Against the top edge.
    Top,
    /// Centred.
    Middle,
    /// Against the bottom edge.
    Bottom,
}

impl VerticalAlignMethod {
    /// The alignment a name selects: `top`, `middle` or `bottom`; any other
    /// name selects top.
    pub fn from_str(s: &str) -> (m: Self)
        ensures
            m == (if s@ == "middle"@ {
                VerticalAlignMethod::Middle
            } else if s@ == "bottom"@ {
                VerticalAlignMethod::Bottom
            } else {
                VerticalAlignMethod::Top
            }),
    {
        if str_eq(s, "middle") {
            VerticalAlignMethod::Middle
        } else if str_eq(s, "bottom") {
            VerticalAlignMethod::Bottom
        } else {
            VerticalAlignMethod::Top
        }
    }

    /// The name of the alignment.
    pub fn to_string(&self) -> (s: String)
        ensures
            s@ == match *self {
                VerticalAlignMethod::Top => "top"@,
                VerticalAlignMethod::Middle => "middle"@,
                VerticalAlignMethod::Bottom => "bottom"@,
            },
    {
        match self {
            VerticalAlignMethod::Top => owned("top"),
            VerticalAlignMethod::Middle => owned("middle"),
            VerticalAlignMethod::Bottom => owned("bottom"),
        }
    }
}

impl Default for VerticalAlignMethod {
    /// Top alignment.
    fn default() -> (m: Self)
        ensures
            m == VerticalAlignMethod::Top,
    {
        VerticalAlignMethod::Top
    }
}

} // verus!

verus! {

/// A segment seen as its text and style.
pub open spec fn seg_view(s: Segment) -> (Seq<char>, Option<Style>) {
    (s.text@, s.style)
}

/// A line of segments seen as texts and styles.
pub open spec fn line_view(l: Seq<Segment>) -> Seq<(Seq<char>, Option<Style>)> {
    l.map_values(|s: Segment| seg_view(s))
}

/// The text of a line of segments.
pub open spec fn line_text(l: Seq<Segment>) -> Seq<char>
    decreases l.len(),
{
    if l.len() == 0 {
        seq![]
    } else {
        line_text(l.drop_last()) + l.last().text@
    }
}

/// An unstyled segment of `n` spaces.
pub open spec fn pad_seg(n: nat) -> (Seq<char>, Option<Style>) {
    (spaces(n), None)
}

/// An unstyled newline segment.
pub open spec fn newline_seg() -> (Seq<char>, Option<Style>) {
    (seq!['\n'], None)
}

/// A line of `width` spaces and a newline.
pub open spec fn blank_line(width: nat) -> Seq<(Seq<char>, Option<Style>)> {
    seq![pad_seg(width), newline_seg()]
}

/// One line aligned within `width`: unchanged when it is at least that
/// wide, else padded on the side(s) the alignment asks for and ended with a
/// newline.
pub open spec fn aligned_line(l: Seq<Segment>, width: nat, m: AlignMethod) -> Seq<(Seq<char>, Option<Style>)> {
    let lw = unicode_str_width(line_text(l)) as nat;
    if lw >= width {
        line_view(l)
    } else {
        let padding = (width - lw) as nat;
        let left: nat = match m {
            AlignMethod::Right => padding,
            AlignMethod::Center => padding / 2,
            _ => 0,
        };
        (if left > 0 { seq![pad_seg(left)] } else { seq![] }) + line_view(l) + (if padding - left > 0 {
            seq![pad_seg((padding - left) as nat)]
        } else {
            seq![]
        }) + seq![newline_seg()]
    }
}

/// `n` blank lines of `width` spaces.
pub open spec fn blank_lines(width: nat, n: nat) -> Seq<Seq<(Seq<char>, Option<Style>)>> {
    Seq::new(n, |i: int| blank_line(width))
}

/// The lines aligned horizontally, then padded with blank lines to
/// `height` (when given and not reached) on the side(s) the vertical
/// alignment asks for.
pub open spec fn align_lines_spec(
    lines: Seq<Vec<Segment>>,
    width: nat,
    m: AlignMethod,
    v: VerticalAlignMethod,
    height: Option<usize>,
) -> Seq<Seq<(Seq<char>, Option<Style>)>> {
    let h = Seq::new(lines.len(), |i: int| aligned_line(lines[i]@, width, m));
    match height {
        Some(hh) => if h.len() < hh {
            let empty = (hh - h.len()) as nat;
            match v {
                VerticalAlignMethod::Bottom => blank_lines(width, empty) + h,
                VerticalAlignMethod::Middle => blank_lines(width, empty / 2) + h + blank_lines(
                    width,
                    (empty - empty / 2) as nat,
                ),
                VerticalAlignMethod::Top => h + blank_lines(width, empty),
            }
        } else {
            h
        },
        None => h,
    }
}

/// The view of a list of lines.
pub open spec fn lines_view(ls: Seq<Vec<Segment>>) -> Seq<Seq<(Seq<char>, Option<Style>)>> {
    ls.map_values(|l: Vec<Segment>| line_view(l@))
}

proof fn lemma_line_view_push(s: Seq<Segment>, x: Segment)
    ensures
        line_view(s.push(x)) == line_view(s).push(seg_view(x)),
{
    assert(line_view(s.push(x)) =~= line_view(s).push(seg_view(x)));
}

proof fn lemma_lines_view_push(s: Seq<Vec<Segment>>, x: Vec<Segment>)
    ensures
        lines_view(s.push(x)) == lines_view(s).push(line_view(x@)),
{
    assert(lines_view(s.push(x)) =~= lines_view(s).push(line_view(x@)));
}

/// An unstyled segment of `n` spaces.
fn pad_segment(n: usize) -> (s: Segment)
    ensures
        seg_view(s) == pad_seg(n as nat),
{
    let mut t = String::new();
    push_spaces(&mut t, n);
    Segment { text: t, style: None }
}

/// The text of a line of segments.
fn line_string(l: &Vec<Segment>) -> (s: String)
    ensures
        s@ == line_text(l@),
{
    let mut s = String::new();
    let mut i: usize = 0;
    while i < l.len()
        invariant
            i <= l.len(),
            s@ == line_text(l@.take(i as int)),
        decreases l.len() - i,
    {
        assert(l@.take(i + 1).drop_last() =~= l@.take(i as int));
        push_str(&mut s, l[i].text.as_str());
        i = i + 1;
    }
    assert(l@.take(l.len() as int) =~= l@);
    s
}

/// A copy of a line of segments.
pub fn clone_line(l: &Vec<Segment>) -> (r: Vec<Segment>)
    ensures
        r@ == l@,
{
    let mut out: Vec<Segment> = Vec::new();
    let mut i: usize = 0;
    while i < l.len()
        invariant
            i <= l.len(),
            out@ == l@.take(i as int),
        decreases l.len() - i,
    {
        out.push(l[i].clone());
        i = i + 1;
        assert(out@ =~= l@.take(i as int));
    }
    assert(l@.take(l.len() as int) =~= l@);
    out
}

/// One line aligned within `width`.
fn align_one(l: Vec<Segment>, width: usize, m: AlignMethod) -> (r: Vec<Segment>)
    ensures
        line_view(r@) == aligned_line(l@, width as nat, m),
{
    let lw = cell_len(line_string(&l).as_str());
    if lw >= width {
        return l;
    }
    let padding = width - lw;
    let left: usize = match m {
        AlignMethod::Right => padding,
        AlignMethod::Center => padding / 2,
        _ => 0,
    };
    let mut out: Vec<Segment> = Vec::new();
    if left > 0 {
        let p = pad_segment(left);
        out.push(p);
        proof {
            lemma_line_view_push(Seq::<Segment>::empty(), p);
            assert(Seq::<Segment>::empty().push(p) =~= out@);
        }
    }
    let ghost pre = line_view(out@);
    assert(pre =~= (if left > 0 { seq![pad_seg(left as nat)] } else { seq![] }));
    let mut i: usize = 0;
    while i < l.len()
        invariant
            i <= l.len(),
            line_view(out@) == pre + line_view(l@.take(i as int)),
        decreases l.len() - i,
    {
        let ghost o = out@;
        out.push(l[i].clone());
        proof {
            lemma_line_view_push(o, l@[i as int]);
            lemma_line_view_push(l@.take(i as int), l@[i as int]);
            assert(l@.take(i + 1) =~= l@.take(i as int).push(l@[i as int]));
        }
        i = i + 1;
        assert(line_view(out@) =~= pre + line_view(l@.take(i as int)));
    }
    assert(l@.take(l.len() as int) =~= l@);
    let ghost mid = out@;
    if padding - left > 0 {
        let p = pad_segment(padding - left);
        out.push(p);
        proof {
            lemma_line_view_push(mid, p);
        }
    }
    let ghost mid2 = out@;
    let nl = Segment::line();
    out.push(nl);
    proof {
        lemma_line_view_push(mid2, nl);
    }
    assert(line_view(out@) =~= aligned_line(l@, width as nat, m));
    out
}

/// A line of `width` spaces and a newline.
fn blank(width: usize) -> (r: Vec<Segment>)
    ensures
        line_view(r@) == blank_line(width as nat),
{
    let mut v: Vec<Segment> = Vec::new();
    v.push(pad_segment(width));
    v.push(Segment::line());
    assert(line_view(v@) =~= blank_line(width as nat));
    v
}

/// Appends `n` blank lines of `width` spaces.
fn push_blanks(out: &mut Vec<Vec<Segment>>, width: usize, n: usize)
    ensures
        lines_view(final(out)@) == lines_view(old(out)@) + blank_lines(width as nat, n as nat),
{
    let mut i: usize = 0;
    while i < n
        invariant
            i <= n,
            lines_view(out@) == lines_view(old(out)@) + blank_lines(width as nat, i as nat),
        decreases n - i,
    {
        let ghost o = out@;
        let b = blank(width);
        out.push(b);
        proof {
            lemma_lines_view_push(o, b);
        }
        i = i + 1;
        assert(lines_view(out@) =~= lines_view(old(out)@) + blank_lines(width as nat, i as nat));
    }
}

/// Aligns rendered lines horizontally within `width` and pads them
/// vertically to `height`.
pub fn align_lines(
    lines: Vec<Vec<Segment>>,
    width: usize,
    m: AlignMethod,
    v: VerticalAlignMethod,
    height: Option<usize>,
) -> (r: Vec<Vec<Segment>>)
    ensures
        lines_view(r@) == align_lines_spec(lines@, width as nat, m, v, height),
{
    let ghost h = Seq::new(lines@.len(), |i: int| aligned_line(lines@[i]@, width as nat, m));
    let mut body: Vec<Vec<Segment>> = Vec::new();
    let n = lines.len();
    let ghost orig = lines@;
    let mut i: usize = 0;
    while i < n
        invariant
            n == orig.len(),
            orig == lines@,
            i <= n,
            h == Seq::new(orig.len(), |k: int| aligned_line(orig[k]@, width as nat, m)),
            lines_view(body@) == h.take(i as int),
        decreases n - i,
    {
        let l = clone_line(&lines[i]);
        let a = align_one(l, width, m);
        let ghost b0 = body@;
        body.push(a);
        proof {
            lemma_lines_view_push(b0, a);
        }
        i = i + 1;
        assert(lines_view(body@) =~= h.take(i as int));
    }
    assert(h.take(n as int) =~= h);
    match height {
        Some(hh) => {
            if body.len() < hh {
                let empty = hh - body.len();
                match v {
                    VerticalAlignMethod::Bottom => {
                        let mut out: Vec<Vec<Segment>> = Vec::new();
                        push_blanks(&mut out, width, empty);
                        let ghost pre = lines_view(out@);
                        out.append(&mut body);
                        assert(lines_view(out@) =~= pre + h);
                        out
                    },
                    VerticalAlignMethod::Middle => {
                        let top = empty / 2;
                        let mut out: Vec<Vec<Segment>> = Vec::new();
                        push_blanks(&mut out, width, top);
                        let ghost pre = lines_view(out@);
                        out.append(&mut body);
                        assert(lines_view(out@) =~= pre + h);
                        push_blanks(&mut out, width, empty - top);
                        out
                    },
                    VerticalAlignMethod::Top => {
                        push_blanks(&mut body, width, empty);
                        body
                    },
                }
            } else {
                body
            }
        },
        None => body,
    }
}

/// A renderable placed with horizontal and vertical alignment.
pub struct Align<T: Renderable> {
    /// What is aligned.
    pub renderable: T,
    /// Horizontal alignment.
    pub align: AlignMethod,
    /// Vertical alignment.
    pub vertical: VerticalAlignMethod,
    /// The width to align within (the available width when `None`).
    pub width: Option<usize>,
    /// The height to fill, if any.
    pub height: Option<usize>,
}

impl<T: Renderable> Align<T> {
    /// `renderable` aligned left and top.
    pub fn new(renderable: T) -> (a: Self)
        ensures
            a.renderable == renderable,
            a.align == AlignMethod::Left,
            a.vertical == VerticalAlignMethod::Top,
            a.width is None,
            a.height is None,
    {
        Align {
            renderable,
            align: AlignMethod::Left,
            vertical: VerticalAlignMethod::Top,
            width: None,
            height: None,
        }
    }

    /// This with horizontal alignment `align`.
    pub fn align(self, align: AlignMethod) -> (a: Self)
        ensures
            a == (Align { align, ..self }),
    {
        Align { align, ..self }
    }

    /// This with vertical alignment `vertical`.
    pub fn vertical(self, vertical: VerticalAlignMethod) -> (a: Self)
        ensures
            a == (Align { vertical, ..self }),
    {
        Align { vertical, ..self }
    }

    /// `renderable` centred horizontally.
    pub fn center(renderable: T) -> (a: Self)
        ensures
            a.renderable == renderable,
            a.align == AlignMethod::Center,
            a.vertical == VerticalAlignMethod::Top,
            a.width is None && a.height is None,
    {
        Self::new(renderable).align(AlignMethod::Center)
    }

    /// `renderable` centred vertically.
    pub fn middle(renderable: T) -> (a: Self)
        ensures
            a.renderable == renderable,
            a.align == AlignMethod::Left,
            a.vertical == VerticalAlignMethod::Middle,
            a.width is None && a.height is None,
    {
        Self::new(renderable).vertical(VerticalAlignMethod::Middle)
    }
}

/// A width, or `max` when none is given.
pub open spec fn width_or(width: Option<usize>, max: usize) -> nat {
    match width {
        Some(w) => w as nat,
        None => max as nat,
    }
}

impl<T: Renderable> Renderable for Align<T> {
    fn measure(&self, options: &ConsoleOptions) -> Option<crate::measure::Measurement> {
        None
    }

    /// The lines of the renderable, aligned by `align_lines` within the
    /// width (or the available width).
    open spec fn renders(&self, options: ConsoleOptions, r: RenderResult) -> bool {
        &&& r.items@.len() == 0
        &&& exists|inner: RenderResult|
            self.renderable.renders(options, inner) && lines_view(r.lines@) == #[trigger] align_lines_spec(
                inner.lines@,
                width_or(self.width, options.max_width),
                self.align,
                self.vertical,
                self.height,
            )
    }

    fn render(&self, options: &ConsoleOptions) -> (r: RenderResult) {
        let inner = self.renderable.render(options);
        let ghost res = inner;
        let width = match self.width {
            Some(w) => w,
            None => options.max_width,
        };
        let ghost iv = inner.lines@;
        let lines = align_lines(inner.lines, width, self.align, self.vertical, self.height);
        assert(width_or(self.width, options.max_width) == width as nat);
        assert(lines_view(lines@) == align_lines_spec(iv, width_or(self.width, options.max_width), self.align, self.vertical, self.height));
        RenderResult { lines, items: Vec::new() }
    }
}

} // verus!
