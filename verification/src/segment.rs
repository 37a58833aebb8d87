//! Segments: the smallest unit of rendered output, a piece of text with an
//! optional style.

use vstd::prelude::*;
use crate::style::{Style, render_spec};
use crate::strutil::owned;
use crate::cells::{cell_len, unicode_str_width};

verus! {

/// A piece of text with an optional style.
#[derive(Debug)]
pub struct Segment {
    /// The text.
    pub text: String,
    /// The style, if any.
    pub style: Option<Style>,
}

impl Clone for Segment {
    fn clone(&self) -> (r: Self)
        ensures
            r == *self,
    {
        Segment {
            text: self.text.clone(),
            style: match &self.style {
                Some(s) => Some(s.clone()),
                None => None,
            },
        }
    }
}

/// The ANSI text of a segment: its text in its style, or the bare text.
pub open spec fn segment_ansi(s: Segment) -> Seq<char> {
    match s.style {
        Some(st) => render_spec(st, s.text@),
        None => s.text@,
    }
}

/// The ANSI text of a run of segments, one after another.
pub open spec fn segments_ansi(segs: Seq<Segment>) -> Seq<char>
    decreases segs.len(),
{
    if segs.len() == 0 {
        seq![]
    } else {
        segments_ansi(segs.drop_last()) + segment_ansi(segs.last())
    }
}

impl Segment {
    /// An unstyled segment.
    pub fn new(text: &str) -> (s: Self)
        ensures
            s.text@ == text@,
            s.style is None,
    {
        Segment { text: owned(text), style: None }
    }

    /// A segment in `style`.
    pub fn styled(text: &str, style: Style) -> (s: Self)
        ensures
            s.text@ == text@,
            s.style == Some(style),
    {
        Segment { text: owned(text), style: Some(style) }
    }

    /// A segment holding one newline.
    pub fn line() -> (s: Self)
        ensures
            s.text@ == seq!['\n'],
            s.style is None,
    {
        let mut t = String::new();
        crate::strutil::push_char(&mut t, '\n');
        Segment { text: t, style: None }
    }

    /// The segment's text in its style.
    pub fn to_ansi(&self) -> (r: String)
        ensures
            r@ == segment_ansi(*self),
    {
        match &self.style {
            Some(st) => st.render(self.text.as_str()),
            None => self.text.clone(),
        }
    }

    /// The display width of the segment's text.
    pub fn cell_length(&self) -> (n: usize)
        ensures
            n == unicode_str_width(self.text@),
    {
        cell_len(self.text.as_str())
    }
}

/// The ANSI text of `segs`, one after another.
pub fn segments_to_ansi(segs: &Vec<Segment>) -> (r: String)
    ensures
        r@ == segments_ansi(segs@),
{
    let mut out = String::new();
    let mut i: usize = 0;
    while i < segs.len()
        invariant
            i <= segs.len(),
            out@ == segments_ansi(segs@.take(i as int)),
        decreases segs.len() - i,
    {
        assert(segs@.take(i + 1).drop_last() =~= segs@.take(i as int));
        let a = segs[i].to_ansi();
        crate::strutil::push_str(&mut out, a.as_str());
        i = i + 1;
    }
    assert(segs@.take(segs.len() as int) =~= segs@);
    out
}

} // verus!
