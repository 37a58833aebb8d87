//! The contents of a file shown as lines; reading the file is left to the
//! caller.

use vstd::prelude::*;
use crate::console::{ConsoleOptions, RenderResult, Renderable};
use crate::segment::Segment;
use crate::strutil::{lines_spec, split_lines, views};
use crate::style::{Style, empty_style};

verus! {

/// The last contents read of a file.
#[derive(Debug)]
pub struct FileProxy {
    /// The file's path.
    pub path: String,
    /// The contents last read.
    pub content: String,
    /// When the file was last changed, as seconds and nanoseconds, if
    /// known.
    pub last_modified: Option<(u64, u32)>,
    /// The most lines shown.
    pub max_lines: Option<usize>,
    /// The style of the lines.
    pub style: Style,
}

/// Whether one time (seconds and nanoseconds) is later than another.
pub open spec fn later(a: (u64, u32), b: (u64, u32)) -> bool {
    a.0 > b.0 || (a.0 == b.0 && a.1 > b.1)
}

/// The lines shown: those of the contents, at most `max` of them.
pub open spec fn shown_lines(content: Seq<char>, max: Option<usize>) -> Seq<Seq<char>> {
    let ls = lines_spec(content);
    match max {
        Some(m) => if m < ls.len() {
            ls.take(m as int)
        } else {
            ls
        },
        None => ls,
    }
}

impl FileProxy {
    /// A proxy of the file at `path` read as `content`, changed at
    /// `modified`.
    pub fn from_parts(path: String, content: String, modified: Option<(u64, u32)>) -> (f: Self)
        ensures
            f.path == path,
            f.content == content,
            f.last_modified == modified,
            f.max_lines is None,
            f.style == empty_style(),
    {
        FileProxy { path, content, last_modified: modified, max_lines: None, style: Style::new() }
    }

    /// Showing at most `max` lines.
    pub fn max_lines(self, max: usize) -> (f: Self)
        ensures
            f == (FileProxy { max_lines: Some(max), ..self }),
    {
        FileProxy { max_lines: Some(max), ..self }
    }

    /// In `style`.
    pub fn style(self, style: Style) -> (f: Self)
        ensures
            f == (FileProxy { style: style, ..self }),
    {
        FileProxy { style: style, ..self }
    }

    /// Takes new contents read at change time `modified`: they replace the
    /// old ones when the file changed later than last read (or it was not
    /// known when) and they could be read. Whether they did.
    pub fn refresh_with(&mut self, modified: Option<(u64, u32)>, content: Option<String>) -> (changed: bool)
        ensures
            changed == (modified is Some && content is Some && (old(self).last_modified is None || later(
                modified->0,
                old(self).last_modified->0,
            ))),
            changed ==> final(self).content == content->0 && final(self).last_modified == modified,
            !changed ==> *final(self) == *old(self),
    {
        match (modified, content) {
            (Some(m), Some(c)) => {
                let newer = match self.last_modified {
                    None => true,
                    Some(l) => m.0 > l.0 || (m.0 == l.0 && m.1 > l.1),
                };
                if newer {
                    self.content = c;
                    self.last_modified = Some(m);
                    return true;
                }
                false
            },
            _ => false,
        }
    }

    /// The contents last read.
    pub fn content(&self) -> (s: &str)
        ensures
            s@ == self.content@,
    {
        self.content.as_str()
    }

    /// The lines shown, each one segment (without a newline).
    pub fn lines(&self) -> (r: Vec<Vec<Segment>>)
        ensures
            r@.len() == shown_lines(self.content@, self.max_lines).len(),
            forall|i: int|
                0 <= i < r@.len() ==> (#[trigger] r@[i])@.len() == 1 && r@[i]@[0].text@ == shown_lines(
                    self.content@,
                    self.max_lines,
                )[i] && r@[i]@[0].style is None,
    {
        let ls = split_lines(self.content.as_str());
        let ghost lv = ls@.map_values(|l: String| l@);
        let n = match self.max_lines {
            Some(m) => if m < ls.len() {
                m
            } else {
                ls.len()
            },
            None => ls.len(),
        };
        let ghost shown = shown_lines(self.content@, self.max_lines);
        assert(shown.len() == n);
        let mut r: Vec<Vec<Segment>> = Vec::new();
        let mut i: usize = 0;
        while i < n
            invariant
                i <= n,
                n <= ls@.len(),
                n == shown.len(),
                lv == ls@.map_values(|l: String| l@),
                shown == shown_lines(self.content@, self.max_lines),
                lv == lines_spec(self.content@),
                r@.len() == i,
                forall|k: int|
                    0 <= k < i ==> (#[trigger] r@[k])@.len() == 1 && r@[k]@[0].text@ == shown[k] && r@[k]@[0].style
                        is None,
            decreases n - i,
        {
            let mut l: Vec<Segment> = Vec::new();
            l.push(Segment::new(ls[i].as_str()));
            assert(shown[i as int] == lv[i as int]);
            r.push(l);
            i = i + 1;
        }
        r
    }
}

impl Renderable for FileProxy {
    fn measure(&self, options: &ConsoleOptions) -> Option<crate::measure::Measurement> {
        None
    }

    /// The lines shown, each one plain segment.
    open spec fn renders(&self, options: ConsoleOptions, r: RenderResult) -> bool {
        &&& r.items@.len() == 0
        &&& r.lines@.len() == shown_lines(self.content@, self.max_lines).len()
        &&& forall|i: int|
            0 <= i < r.lines@.len() ==> (#[trigger] r.lines@[i])@.len() == 1 && r.lines@[i]@[0].text@
                == shown_lines(self.content@, self.max_lines)[i] && r.lines@[i]@[0].style is None
    }

    fn render(&self, options: &ConsoleOptions) -> (r: RenderResult) {
        RenderResult::from_lines(self.lines())
    }
}

} // verus!
