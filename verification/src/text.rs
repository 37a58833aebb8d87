//! Styled text: a plain string with a base style and spans that style
//! ranges of its characters.

use vstd::prelude::*;
use crate::style::{Style, combine_spec, empty_style, sgr_of, sgr_codes, reset_seq};
use crate::strutil::{owned, push_char, push_str};

verus! {

/// A style applied to the characters `start..end` of a text.
#[derive(Debug)]
pub struct Span {
    /// First character covered.
    pub start: usize,
    /// One past the last character covered.
    pub end: usize,
    /// The style of the covered characters.
    pub style: Style,
}

impl Clone for Span {
    fn clone(&self) -> (r: Self)
        ensures
            r == *self,
    {
        Span { start: self.start, end: self.end, style: self.style.clone() }
    }
}

/// A text with styled spans.
#[derive(Debug)]
pub struct Text {
    /// The characters, without styling.
    pub plain: String,
    /// Styled ranges, applied in order over the base style.
    pub spans: Vec<Span>,
    /// The base style of every character.
    pub style: Style,
}

/// Whether span `s` covers character `i`.
pub open spec fn covers(s: Span, i: int) -> bool {
    s.start <= i < s.end
}

/// Whether the same spans cover characters `i` and `k`.
pub open spec fn same_cover(spans: Seq<Span>, i: int, k: int) -> bool {
    forall|j: int| 0 <= j < spans.len() ==> (covers(#[trigger] spans[j], i) == covers(spans[j], k))
}

/// The style of character `i`: the base combined with every covering span
/// among the first `m` spans, in order.
pub open spec fn style_upto(base: Style, spans: Seq<Span>, i: int, m: nat) -> Style
    decreases m,
{
    if m == 0 || m > spans.len() {
        base
    } else {
        let prev = style_upto(base, spans, i, (m - 1) as nat);
        if covers(spans[m - 1], i) {
            combine_spec(prev, spans[m - 1].style)
        } else {
            prev
        }
    }
}

/// The style of character `i` of `t`.
pub open spec fn style_at(t: Text, i: int) -> Style {
    style_upto(t.style, t.spans@, i, t.spans@.len())
}

/// What character `i` of `t` contributes to the rendered text: the style's
/// sequence where a run of equally covered characters starts, the character,
/// and the reset sequence where the run ends (if the style writes a code).
pub open spec fn piece(t: Text, i: int) -> Seq<char> {
    let n = t.plain@.len();
    let starts = i == 0 || !same_cover(t.spans@, i, i - 1);
    let ends = i == n - 1 || !same_cover(t.spans@, i, i + 1);
    let st = style_at(t, i);
    (if starts { sgr_of(st) } else { seq![] }) + seq![t.plain@[i]] + (if ends && sgr_codes(st).len()
        > 0 {
        reset_seq()
    } else {
        seq![]
    })
}

/// The pieces of the first `k` characters of `t`.
pub open spec fn pieces_upto(t: Text, k: nat) -> Seq<char>
    decreases k,
{
    if k == 0 {
        seq![]
    } else {
        pieces_upto(t, (k - 1) as nat) + piece(t, k - 1)
    }
}

/// The ANSI text of `t`.
pub open spec fn text_render_spec(t: Text) -> Seq<char> {
    pieces_upto(t, t.plain@.len())
}

/// Whether span `s` covers character `i`.
fn span_covers(s: &Span, i: usize) -> (b: bool)
    ensures
        b == covers(*s, i as int),
{
    s.start <= i && i < s.end
}

impl Clone for Text {
    fn clone(&self) -> (r: Self)
        ensures
            r.plain@ == self.plain@,
            r.spans@ == self.spans@,
            r.style == self.style,
    {
        let mut spans: Vec<Span> = Vec::new();
        let mut j: usize = 0;
        while j < self.spans.len()
            invariant
                j <= self.spans.len(),
                spans@ == self.spans@.take(j as int),
            decreases self.spans.len() - j,
        {
            spans.push(self.spans[j].clone());
            j = j + 1;
            assert(spans@ =~= self.spans@.take(j as int));
        }
        assert(self.spans@.take(self.spans.len() as int) =~= self.spans@);
        Text { plain: self.plain.clone(), spans, style: self.style.clone() }
    }
}

impl Text {
    /// Whether every span lies within the text.
    pub open spec fn spans_in_bounds(self) -> bool {
        forall|j: int| 0 <= j < self.spans@.len() ==> #[trigger] self.spans@[j].start
            <= self.spans@[j].end <= self.plain@.len()
    }

    /// An unstyled text.
    pub fn new(text: &str) -> (t: Self)
        ensures
            t.plain@ == text@,
            t.spans@.len() == 0,
            t.style == empty_style(),
    {
        Text { plain: owned(text), spans: Vec::new(), style: Style::new() }
    }

    /// A text whose characters are all in `style`.
    pub fn styled(text: &str, style: Style) -> (t: Self)
        ensures
            t.plain@ == text@,
            t.spans@.len() == 0,
            t.style == style,
    {
        Text { plain: owned(text), spans: Vec::new(), style }
    }

    /// This text with base style `style`.
    pub fn style(self, style: Style) -> (t: Self)
        ensures
            t.plain@ == self.plain@,
            t.spans@ == self.spans@,
            t.style == style,
    {
        Text { plain: self.plain, spans: self.spans, style }
    }

    /// The number of characters.
    pub fn len(&self) -> (n: usize)
        ensures
            n == self.plain@.len(),
    {
        self.plain.as_str().unicode_len()
    }

    /// Appends unstyled `text`.
    pub fn append(&mut self, text: &str)
        ensures
            final(self).plain@ == old(self).plain@ + text@,
            final(self).spans@ == old(self).spans@,
            final(self).style == old(self).style,
    {
        push_str(&mut self.plain, text);
    }

    /// Appends `text` in `style`: a span records the style unless the style
    /// sets nothing or the text is empty.
    pub fn append_styled(&mut self, text: &str, style: Style)
        ensures
            final(self).plain@ == old(self).plain@ + text@,
            final(self).style == old(self).style,
            (style.is_null_spec() || text@.len() == 0) ==> final(self).spans@ == old(self).spans@,
            !(style.is_null_spec() || text@.len() == 0) ==> {
                &&& final(self).spans@.len() == old(self).spans@.len() + 1
                &&& final(self).spans@.drop_last() == old(self).spans@
                &&& final(self).spans@.last().start == old(self).plain@.len()
                &&& final(self).spans@.last().end == old(self).plain@.len() + text@.len()
                &&& final(self).spans@.last().style == style
            },
    {
        let start = self.plain.as_str().unicode_len();
        let n = text.unicode_len();
        push_str(&mut self.plain, text);
        if !style.is_null() && n > 0 {
            let end = self.plain.as_str().unicode_len();
            self.spans.push(Span { start, end, style });
            assert(self.spans@.drop_last() =~= old(self).spans@);
        }
    }

    /// Whether characters `i` and `k` are covered by the same spans.
    fn same_cover_at(&self, i: usize, k: usize) -> (b: bool)
        ensures
            b == same_cover(self.spans@, i as int, k as int),
    {
        let mut j: usize = 0;
        while j < self.spans.len()
            invariant
                j <= self.spans.len(),
                forall|q: int| 0 <= q < j ==> (covers(#[trigger] self.spans@[q], i as int) == covers(
                    self.spans@[q],
                    k as int,
                )),
            decreases self.spans.len() - j,
        {
            if span_covers(&self.spans[j], i) != span_covers(&self.spans[j], k) {
                return false;
            }
            j = j + 1;
        }
        true
    }

    /// The style of character `i`.
    pub fn style_at(&self, i: usize) -> (s: Style)
        ensures
            s == style_at(*self, i as int),
    {
        let mut st = self.style.clone();
        let mut j: usize = 0;
        while j < self.spans.len()
            invariant
                j <= self.spans.len(),
                st == style_upto(self.style, self.spans@, i as int, j as nat),
            decreases self.spans.len() - j,
        {
            if span_covers(&self.spans[j], i) {
                st = st.combine(&self.spans[j].style);
            }
            j = j + 1;
        }
        st
    }

    /// The text with its styles as ANSI escape sequences: each run of
    /// characters covered by the same spans is written in its style.
    pub fn render(&self) -> (r: String)
        ensures
            r@ == text_render_spec(*self),
    {
        let chars = crate::strutil::chars_of(self.plain.as_str());
        let n = chars.len();
        let mut out = String::new();
        let mut i: usize = 0;
        while i < n
            invariant
                chars@ == self.plain@,
                n == chars@.len(),
                i <= n,
                out@ == pieces_upto(*self, i as nat),
            decreases n - i,
        {
            let starts = i == 0 || !self.same_cover_at(i, i - 1);
            let ends = i == n - 1 || !self.same_cover_at(i, i + 1);
            let st = self.style_at(i);
            let ghost before = out@;
            if starts {
                let on = st.to_ansi();
                push_str(&mut out, on.as_str());
            }
            push_char(&mut out, chars[i]);
            if ends {
                let off = st.reset_ansi();
                push_str(&mut out, off.as_str());
            }
            assert(out@ =~= before + piece(*self, i as int));
            i = i + 1;
        }
        out
    }
}

impl Style {
    /// Whether the style sets nothing at all.
    pub open spec fn is_null_spec(self) -> bool {
        self.color is None && self.bgcolor is None && self.attributes == empty_style().attributes
            && self.link is None
    }
}

/// No attribute in `order` is on when none is set.
proof fn lemma_attr_codes_empty(order: Seq<crate::style::Attribute>)
    ensures
        crate::style::attr_codes(empty_style().attributes, order) == Seq::<Seq<char>>::empty(),
    decreases order.len(),
{
    if order.len() > 0 {
        lemma_attr_codes_empty(order.drop_last());
    }
}

/// The empty style writes no code.
pub proof fn lemma_empty_style_no_codes()
    ensures
        sgr_codes(empty_style()) == Seq::<Seq<char>>::empty(),
{
    lemma_attr_codes_empty(crate::style::attribute_order());
    assert(sgr_codes(empty_style()) =~= Seq::<Seq<char>>::empty());
}

/// A text with no spans and no base style renders as its plain characters.
pub proof fn lemma_plain_render(t: Text)
    requires
        t.spans@.len() == 0,
        t.style == empty_style(),
    ensures
        text_render_spec(t) == t.plain@,
{
    lemma_attr_codes_empty(crate::style::attribute_order());
    assert(sgr_codes(empty_style()) =~= Seq::<Seq<char>>::empty());
    lemma_pieces_plain(t, t.plain@.len());
    assert(t.plain@.take(t.plain@.len() as int) =~= t.plain@);
}

proof fn lemma_pieces_plain(t: Text, k: nat)
    requires
        t.spans@.len() == 0,
        t.style == empty_style(),
        sgr_codes(empty_style()) == Seq::<Seq<char>>::empty(),
        k <= t.plain@.len(),
    ensures
        pieces_upto(t, k) == t.plain@.take(k as int),
    decreases k,
{
    if k > 0 {
        lemma_pieces_plain(t, (k - 1) as nat);
        let i = k - 1;
        assert(style_at(t, i) == empty_style());
        assert(piece(t, i) =~= seq![t.plain@[i]]);
        assert(t.plain@.take(k as int) =~= t.plain@.take(i).push(t.plain@[i]));
    }
}


/// Whether `lines` holds one plain segment per line of `ls`.
pub open spec fn plain_lines(lines: Seq<Vec<crate::segment::Segment>>, ls: Seq<Seq<char>>) -> bool {
    &&& lines.len() == ls.len()
    &&& forall|i: int|
        0 <= i < ls.len() ==> (#[trigger] lines[i])@.len() == 1 && lines[i]@[0].text@ == ls[i]
            && lines[i]@[0].style is None
}

/// The lines of `s` (as `str::lines` splits them), each as one plain
/// segment.
pub fn str_lines(s: &str) -> (lines: Vec<Vec<crate::segment::Segment>>)
    ensures
        plain_lines(lines@, crate::strutil::lines_spec(s@)),
{
    let ls = crate::strutil::split_lines(s);
    let ghost spec_ls = crate::strutil::lines_spec(s@);
    let mut lines: Vec<Vec<crate::segment::Segment>> = Vec::new();
    let mut i: usize = 0;
    while i < ls.len()
        invariant
            i <= ls@.len(),
            ls@.map_values(|l: String| l@) == spec_ls,
            plain_lines(lines@, spec_ls.take(i as int)),
        decreases ls.len() - i,
    {
        let mut line: Vec<crate::segment::Segment> = Vec::new();
        line.push(crate::segment::Segment::new(ls[i].as_str()));
        assert(ls@.map_values(|l: String| l@)[i as int] == ls@[i as int]@);
        lines.push(line);
        i = i + 1;
        assert(spec_ls.take(i as int).drop_last() =~= spec_ls.take(i - 1));
        assert forall|k: int| 0 <= k < i implies (#[trigger] lines@[k])@.len() == 1
            && lines@[k]@[0].text@ == spec_ls.take(i as int)[k] && lines@[k]@[0].style is None by {
            if k < i - 1 {
                assert(spec_ls.take(i as int)[k] == spec_ls.take(i - 1)[k]);
            }
        }
    }
    assert(spec_ls.take(ls@.len() as int) =~= spec_ls);
    lines
}

impl Text {
    /// The lines of the text's ANSI rendering, each as one plain segment.
    pub fn render_lines(&self) -> (lines: Vec<Vec<crate::segment::Segment>>)
        ensures
            plain_lines(lines@, crate::strutil::lines_spec(text_render_spec(*self))),
    {
        let ansi = self.render();
        str_lines(ansi.as_str())
    }
}

impl crate::console::Renderable for Text {
    fn measure(&self, options: &crate::console::ConsoleOptions) -> Option<crate::measure::Measurement> {
        None
    }

    /// A text renders as the lines of its ANSI rendering, each one plain
    /// segment.
    open spec fn renders(&self, options: crate::console::ConsoleOptions, r: crate::console::RenderResult) -> bool {
        r.items@.len() == 0 && plain_lines(r.lines@, crate::strutil::lines_spec(text_render_spec(*self)))
    }

    fn render(&self, options: &crate::console::ConsoleOptions) -> crate::console::RenderResult {
        crate::console::RenderResult::from_lines(self.render_lines())
    }
}

/// `a + b`, or the largest `usize` when that is larger.
pub open spec fn sat_add(a: nat, b: nat) -> usize {
    if a + b <= usize::MAX {
        (a + b) as usize
    } else {
        usize::MAX
    }
}

/// `spans` moved `off` characters to the right.
pub open spec fn shifted(spans: Seq<Span>, off: nat) -> Seq<Span> {
    Seq::new(
        spans.len(),
        |j: int| Span { start: sat_add(spans[j].start as nat, off), end: sat_add(spans[j].end as nat, off), style: spans[j].style },
    )
}

/// The spans a text gains when `other` is appended after `len` characters:
/// one over the whole of `other` in its base style (unless that style sets
/// nothing or `other` is empty), then `other`'s spans moved along.
pub open spec fn appended_spans(spans: Seq<Span>, len: nat, other: Text) -> Seq<Span> {
    spans + (if other.style.is_null_spec() || other.plain@.len() == 0 {
        seq![]
    } else {
        seq![Span { start: sat_add(len, 0), end: sat_add(len, other.plain@.len()), style: other.style }]
    }) + shifted(other.spans@, len)
}

/// Whether `w` is not empty and occurs in `s` at `i`.
pub open spec fn occurs_at(s: Seq<char>, i: int, w: Seq<char>) -> bool {
    w.len() > 0 && 0 <= i && i + w.len() <= s.len() && s.subrange(i, i + w.len()) == w
}

/// The index of the first of the first `k` of `words` that occurs in `s`
/// at `i`, if any.
pub open spec fn word_at_upto(s: Seq<char>, i: int, words: Seq<Seq<char>>, k: nat) -> Option<nat>
    decreases k,
{
    if k == 0 || k > words.len() {
        None
    } else {
        match word_at_upto(s, i, words, (k - 1) as nat) {
            Some(w) => Some(w),
            None => if occurs_at(s, i, words[k - 1]) {
                Some((k - 1) as nat)
            } else {
                None
            },
        }
    }
}

/// The first of `words` occurring in `s` at `i`, if any.
pub open spec fn word_at(s: Seq<char>, i: int, words: Seq<Seq<char>>) -> Option<nat> {
    word_at_upto(s, i, words, words.len())
}

/// The length of the word found at `i`, or zero.
pub open spec fn found_len(s: Seq<char>, i: int, words: Seq<Seq<char>>) -> nat {
    match word_at(s, i, words) {
        Some(w) => if w < words.len() { words[w as int].len() } else { 0 },
        None => 0,
    }
}

/// The occurrences of `words` in `s` from `i` on, as `(start, end)`, found
/// left to right without overlap, the earlier word winning at a position.
pub open spec fn word_matches(s: Seq<char>, words: Seq<Seq<char>>, i: nat) -> Seq<(nat, nat)>
    decreases s.len() - i,
{
    if i >= s.len() {
        seq![]
    } else {
        let len = found_len(s, i as int, words);
        if len > 0 && i + len <= s.len() {
            seq![(i, i + len)] + word_matches(s, words, i + len)
        } else {
            word_matches(s, words, i + 1)
        }
    }
}

/// Spans in `style` over the given ranges.
pub open spec fn spans_over(ms: Seq<(nat, nat)>, style: Style) -> Seq<Span> {
    Seq::new(ms.len(), |j: int| Span { start: ms[j].0 as usize, end: ms[j].1 as usize, style })
}

/// Whether `w` occurs in `cs` at `i`.
fn occurs_at_exec(cs: &Vec<char>, i: usize, w: &Vec<char>) -> (b: bool)
    ensures
        b == occurs_at(cs@, i as int, w@),
{
    let n = w.len();
    if n == 0 || i > cs.len() || n > cs.len() - i {
        return false;
    }
    let mut j: usize = 0;
    while j < n
        invariant
            j <= n,
            n == w@.len(),
            i + n <= cs@.len(),
            cs@.len() == cs.len(),
            cs@.subrange(i as int, i + j) == w@.take(j as int),
        decreases n - j,
    {
        if cs[i + j] != w[j] {
            assert(cs@.subrange(i as int, i + n)[j as int] != w@[j as int]);
            return false;
        }
        j = j + 1;
        assert(cs@.subrange(i as int, i + j) =~= w@.take(j as int));
    }
    assert(w@.take(n as int) =~= w@);
    true
}

/// A word found among the first `k` is still the one found among more.
proof fn lemma_word_at_upto_stable(s: Seq<char>, i: int, words: Seq<Seq<char>>, k: nat, m: nat)
    requires
        k <= m <= words.len(),
        word_at_upto(s, i, words, k) is Some,
    ensures
        word_at_upto(s, i, words, m) == word_at_upto(s, i, words, k),
    decreases m - k,
{
    if k < m {
        lemma_word_at_upto_stable(s, i, words, k, (m - 1) as nat);
    }
}

/// The index of the first of `words` occurring in `cs` at `i`.
fn first_word_at(cs: &Vec<char>, i: usize, words: &Vec<Vec<char>>) -> (r: Option<usize>)
    ensures
        match r {
            Some(w) => w < words@.len() && word_at(cs@, i as int, words@.map_values(|v: Vec<char>| v@)) == Some(
                w as nat,
            ),
            None => word_at(cs@, i as int, words@.map_values(|v: Vec<char>| v@)) is None,
        },
{
    let ghost ws = words@.map_values(|v: Vec<char>| v@);
    let mut k: usize = 0;
    while k < words.len()
        invariant
            k <= words@.len(),
            ws == words@.map_values(|v: Vec<char>| v@),
            word_at_upto(cs@, i as int, ws, k as nat) is None,
        decreases words.len() - k,
    {
        assert(ws[k as int] == words@[k as int]@);
        if occurs_at_exec(cs, i, &words[k]) {
            assert(word_at_upto(cs@, i as int, ws, (k + 1) as nat) == Some(k as nat));
            proof {
                lemma_word_at_upto_stable(cs@, i as int, ws, (k + 1) as nat, ws.len());
            }
            return Some(k);
        }
        k = k + 1;
    }
    None
}

impl Text {
    /// Appends `other`: its characters, a span over them in its base style,
    /// and its spans moved along.
    pub fn append_text(&mut self, other: &Text)
        ensures
            final(self).plain@ == old(self).plain@ + other.plain@,
            final(self).style == old(self).style,
            final(self).spans@ == appended_spans(old(self).spans@, old(self).plain@.len(), *other),
    {
        let off = self.plain.as_str().unicode_len();
        let n = other.plain.as_str().unicode_len();
        push_str(&mut self.plain, other.plain.as_str());
        if !other.style.is_null() && n > 0 {
            self.spans.push(Span { start: off, end: off.saturating_add(n), style: other.style.clone() });
        }
        let ghost s1 = self.spans@;
        let mut j: usize = 0;
        while j < other.spans.len()
            invariant
                j <= other.spans@.len(),
                off == old(self).plain@.len(),
                self.plain@ == old(self).plain@ + other.plain@,
                self.style == old(self).style,
                self.spans@ == s1 + shifted(other.spans@, off as nat).take(j as int),
            decreases other.spans.len() - j,
        {
            let sp = &other.spans[j];
            self.spans.push(Span { start: sp.start.saturating_add(off), end: sp.end.saturating_add(off), style: sp.style.clone() });
            j = j + 1;
            assert(self.spans@ =~= s1 + shifted(other.spans@, off as nat).take(j as int));
        }
        assert(shifted(other.spans@, off as nat).take(other.spans@.len() as int) =~= shifted(other.spans@, off as nat));
        assert(self.spans@ =~= appended_spans(old(self).spans@, old(self).plain@.len(), *other));
    }

    /// Adds a span in `style` over each occurrence of any of `words`
    /// (found left to right, without overlap, the earlier word winning).
    pub fn highlight_words(&mut self, words: &Vec<String>, style: Style)
        ensures
            final(self).plain@ == old(self).plain@,
            final(self).style == old(self).style,
            final(self).spans@ == old(self).spans@ + spans_over(
                word_matches(old(self).plain@, words@.map_values(|w: String| w@), 0),
                style,
            ),
    {
        let cs = crate::strutil::chars_of(self.plain.as_str());
        let ghost wv = words@.map_values(|w: String| w@);
        let mut ws: Vec<Vec<char>> = Vec::new();
        let mut k: usize = 0;
        while k < words.len()
            invariant
                k <= words@.len(),
                wv == words@.map_values(|w: String| w@),
                ws@.map_values(|v: Vec<char>| v@) == wv.take(k as int),
            decreases words.len() - k,
        {
            let ghost before = ws@;
            let c = crate::strutil::chars_of(words[k].as_str());
            ws.push(c);
            assert(ws@ == before.push(c));
            assert(ws@.map_values(|v: Vec<char>| v@) =~= before.map_values(|v: Vec<char>| v@).push(c@));
            k = k + 1;
            assert(wv.take(k as int) =~= wv.take(k - 1).push(wv[k - 1]));
        }
        assert(wv.take(words@.len() as int) =~= wv);
        let ghost s0 = self.spans@;
        let ghost all = word_matches(cs@, wv, 0);
        assert(Seq::<(nat, nat)>::empty() + word_matches(cs@, wv, 0) =~= all);
        assert(spans_over(Seq::<(nat, nat)>::empty(), style) =~= Seq::<Span>::empty());
        assert(self.spans@ =~= s0 + spans_over(Seq::<(nat, nat)>::empty(), style));
        let n = cs.len();
        let mut i: usize = 0;
        while i < n
            invariant
                i <= n,
                n == cs@.len(),
                cs@ == old(self).plain@,
                self.plain@ == old(self).plain@,
                self.style == old(self).style,
                ws@.map_values(|v: Vec<char>| v@) == wv,
                exists|done: Seq<(nat, nat)>|
                    #![trigger spans_over(done, style)]
                    done + word_matches(cs@, wv, i as nat) == all && self.spans@ == s0 + spans_over(done, style),
            decreases n - i,
        {
            let ghost done = choose|done: Seq<(nat, nat)>|
                #![trigger spans_over(done, style)]
                done + word_matches(cs@, wv, i as nat) == all && self.spans@ == s0 + spans_over(done, style);
            match first_word_at(&cs, i, &ws) {
                Some(w) => {
                    let len = ws[w].len();
                    assert(ws@.map_values(|v: Vec<char>| v@)[w as int] == ws@[w as int]@);
                    proof {
                        lemma_word_at_fits(cs@, i as int, wv);
                    }
                    assert(found_len(cs@, i as int, wv) == len);
                    let ghost before = self.spans@;
                    self.spans.push(Span { start: i, end: i + len, style: style.clone() });
                    let ghost done2 = done.push((i as nat, (i + len) as nat));
                    assert(word_matches(cs@, wv, i as nat) == seq![(i as nat, (i + len) as nat)] + word_matches(
                        cs@,
                        wv,
                        (i + len) as nat,
                    ));
                    assert(done2 + word_matches(cs@, wv, (i + len) as nat) =~= done + word_matches(cs@, wv, i as nat));
                    assert(spans_over(done2, style) =~= spans_over(done, style).push(
                        Span { start: i, end: (i + len) as usize, style },
                    ));
                    assert(self.spans@ =~= s0 + spans_over(done2, style));
                    i = i + len;
                },
                None => {
                    assert(found_len(cs@, i as int, wv) == 0);
                    assert(word_matches(cs@, wv, i as nat) == word_matches(cs@, wv, (i + 1) as nat));
                    i = i + 1;
                },
            }
        }
        let ghost done = choose|done: Seq<(nat, nat)>|
            #![trigger spans_over(done, style)]
            done + word_matches(cs@, wv, i as nat) == all && self.spans@ == s0 + spans_over(done, style);
        assert(done =~= all);
    }
}

/// A word found at `i` is not empty and fits in `s`.
proof fn lemma_word_at_fits(s: Seq<char>, i: int, words: Seq<Seq<char>>)
    requires
        word_at(s, i, words) is Some,
    ensures
        ({
            let w = word_at(s, i, words)->0;
            w < words.len() && words[w as int].len() > 0 && i + words[w as int].len() <= s.len()
        }),
{
    lemma_word_at_upto_fits(s, i, words, words.len());
}

proof fn lemma_word_at_upto_fits(s: Seq<char>, i: int, words: Seq<Seq<char>>, k: nat)
    requires
        word_at_upto(s, i, words, k) is Some,
    ensures
        ({
            let w = word_at_upto(s, i, words, k)->0;
            w < k <= words.len() && words[w as int].len() > 0 && i + words[w as int].len() <= s.len()
        }),
    decreases k,
{
    if k > 0 && k <= words.len() {
        if word_at_upto(s, i, words, (k - 1) as nat) is Some {
            lemma_word_at_upto_fits(s, i, words, (k - 1) as nat);
        }
    }
}

} // verus!
