//! Paging long output: which program shows it, what text it is given, and
//! the text gathered for it. Running the program is left to the caller.

use vstd::prelude::*;
use crate::align::{split_words, words_spec};
use crate::export::{strip_ansi_escapes, strip_from};
use crate::strutil::{owned, push_str, views};

verus! {

/// A pager program and its arguments.
#[derive(Debug)]
pub struct SystemPager {
    /// The program.
    pub program: String,
    /// Its arguments.
    pub args: Vec<String>,
}

/// The program and arguments of a pager command: its first word and the
/// words after it; an empty program and no arguments for a blank command.
pub open spec fn split_command_spec(cmd: Seq<char>) -> (Seq<char>, Seq<Seq<char>>) {
    let w = words_spec(cmd);
    if w.len() == 0 {
        (seq![], seq![])
    } else {
        (w[0], w.drop_first())
    }
}

/// The program and arguments of a pager command.
pub fn split_pager_command(cmd: &str) -> (r: (String, Vec<String>))
    ensures
        (r.0@, views(r.1@)) == split_command_spec(cmd@),
{
    let words = split_words(cmd);
    if words.len() == 0 {
        let empty: Vec<String> = Vec::new();
        assert(views(empty@) =~= Seq::<Seq<char>>::empty());
        return (String::new(), empty);
    }
    let program = words[0].clone();
    let mut args: Vec<String> = Vec::new();
    let mut i: usize = 1;
    while i < words.len()
        invariant
            1 <= i <= words@.len(),
            views(args@) == views(words@).subrange(1, i as int),
        decreases words.len() - i,
    {
        let ghost a0 = views(args@);
        args.push(words[i].clone());
        assert(views(args@) =~= a0.push(words@[i as int]@));
        i = i + 1;
        assert(views(args@) =~= views(words@).subrange(1, i as int));
    }
    assert(views(words@).subrange(1, words@.len() as int) =~= views(words@).drop_first());
    (program, args)
}

impl SystemPager {
    /// The pager running `cmd`.
    pub fn from_command(cmd: &str) -> (p: Self)
        ensures
            (p.program@, views(p.args@)) == split_command_spec(cmd@),
    {
        let (program, args) = split_pager_command(cmd);
        SystemPager { program, args }
    }
}

/// Whether and how output is paged.
#[derive(Debug)]
pub struct Pager {
    /// Whether output goes through the pager.
    pub enabled: bool,
    /// The pager command.
    pub command: String,
    /// Whether colors are kept.
    pub color: bool,
}

impl Pager {
    /// A pager running `command`, enabled, keeping colors.
    pub fn new(command: &str) -> (p: Self)
        ensures
            p.enabled,
            p.command@ == command@,
            p.color,
    {
        Pager { enabled: true, command: owned(command), color: true }
    }

    /// The pager enabled or not.
    pub fn enabled(self, value: bool) -> (p: Self)
        ensures
            p.enabled == value,
            p.command == self.command,
            p.color == self.color,
    {
        Pager { enabled: value, ..self }
    }

    /// The pager running `cmd`.
    pub fn command(self, cmd: &str) -> (p: Self)
        ensures
            p.command@ == cmd@,
            p.enabled == self.enabled,
            p.color == self.color,
    {
        Pager { command: owned(cmd), ..self }
    }

    /// The pager keeping colors or not.
    pub fn color(self, value: bool) -> (p: Self)
        ensures
            p.color == value,
            p.command == self.command,
            p.enabled == self.enabled,
    {
        Pager { color: value, ..self }
    }

    /// Whether output goes through the pager.
    pub fn is_enabled(&self) -> (b: bool)
        ensures
            b == self.enabled,
    {
        self.enabled
    }

    /// The pager command.
    pub fn command_str(&self) -> (s: &str)
        ensures
            s@ == self.command@,
    {
        self.command.as_str()
    }

    /// Whether colors are kept.
    pub fn is_color(&self) -> (b: bool)
        ensures
            b == self.color,
    {
        self.color
    }

    /// The text the pager is given: the content, without escape sequences
    /// when colors are not kept.
    pub fn display_text(&self, content: &str) -> (s: String)
        ensures
            s@ == (if self.color {
                content@
            } else {
                strip_from(content@, 0)
            }),
    {
        if self.color {
            owned(content)
        } else {
            strip_ansi_escapes(content)
        }
    }

    /// The program the pager runs.
    pub fn system_pager(&self) -> (p: SystemPager)
        ensures
            (p.program@, views(p.args@)) == split_command_spec(self.command@),
    {
        SystemPager::from_command(self.command.as_str())
    }
}

/// Text gathered to be shown through a pager.
#[derive(Debug)]
pub struct PagerContext {
    /// The pager.
    pub pager: Pager,
    /// The text gathered.
    pub content: String,
    /// Whether the pager was enabled when the context was made.
    pub enabled: bool,
}

impl PagerContext {
    /// No text yet.
    pub fn new(pager: Pager) -> (c: Self)
        ensures
            c.enabled == pager.enabled,
            c.pager == pager,
            c.content@.len() == 0,
    {
        let enabled = pager.enabled;
        PagerContext { pager, content: String::new(), enabled }
    }

    /// Adds `text` to the text gathered.
    pub fn feed(&mut self, text: &str)
        ensures
            final(self).content@ == old(self).content@ + text@,
            final(self).pager == old(self).pager,
            final(self).enabled == old(self).enabled,
    {
        push_str(&mut self.content, text);
    }

    /// The text gathered, if any, which is then cleared: what the pager is
    /// to show.
    pub fn take_content(&mut self) -> (r: Option<String>)
        ensures
            old(self).content@.len() == 0 ==> r is None && final(self).content@ == old(self).content@,
            old(self).content@.len() > 0 ==> (r matches Some(s) && s@ == old(self).content@
                && final(self).content@.len() == 0),
            final(self).pager == old(self).pager,
            final(self).enabled == old(self).enabled,
    {
        if self.content.as_str().unicode_len() == 0 {
            return None;
        }
        let c = self.content.clone();
        self.content = String::new();
        Some(c)
    }

    /// The text gathered.
    pub fn content(&self) -> (s: &str)
        ensures
            s@ == self.content@,
    {
        self.content.as_str()
    }

    /// Whether the pager was enabled.
    pub fn is_enabled(&self) -> (b: bool)
        ensures
            b == self.enabled,
    {
        self.enabled
    }
}

} // verus!
