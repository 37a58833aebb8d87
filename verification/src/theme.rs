//! Themes: named styles that renderables look up by name, with an optional
//! parent theme that was active before.

use vstd::prelude::*;
use crate::color::{Color, named_color, named_color_spec};
use crate::style::{Style, Attributes, empty_style};
use crate::strutil::{owned, str_eq};

verus! {

/// A set of named styles.
#[derive(Debug)]
pub struct Theme {
    /// The styles, by name; a later entry with the same name wins.
    pub styles: Vec<(String, Style)>,
    /// The theme this one was pushed over, if any.
    pub inherit: Option<Box<Theme>>,
}

/// The style the last entry named `name` among the first `k` entries gives,
/// if any.
pub open spec fn lookup_upto(entries: Seq<(String, Style)>, name: Seq<char>, k: nat) -> Option<Style>
    decreases k,
{
    if k == 0 || k > entries.len() {
        None
    } else if entries[k - 1].0@ == name {
        Some(entries[k - 1].1)
    } else {
        lookup_upto(entries, name, (k - 1) as nat)
    }
}

/// The style named `name` in a list of entries.
pub open spec fn lookup(entries: Seq<(String, Style)>, name: Seq<char>) -> Option<Style> {
    lookup_upto(entries, name, entries.len())
}

impl Theme {
    /// An empty theme.
    pub fn new() -> (t: Self)
        ensures
            t.styles@.len() == 0,
            t.inherit is None,
    {
        Theme { styles: Vec::new(), inherit: None }
    }

    /// Adds (or replaces) the style called `name`.
    pub fn add(&mut self, name: &str, style: Style)
        ensures
            final(self).styles@.len() == old(self).styles@.len() + 1,
            final(self).styles@.last().0@ == name@,
            final(self).styles@.last().1 == style,
            final(self).styles@.drop_last() == old(self).styles@,
            final(self).inherit == old(self).inherit,
    {
        self.styles.push((owned(name), style));
        assert(self.styles@.drop_last() =~= old(self).styles@);
    }

    /// The style called `name`, if the theme has one.
    pub fn get(&self, name: &str) -> (r: Option<Style>)
        ensures
            r == lookup(self.styles@, name@),
    {
        let mut k = self.styles.len();
        while k > 0
            invariant
                k <= self.styles.len(),
                lookup(self.styles@, name@) == lookup_upto(self.styles@, name@, k as nat),
            decreases k,
        {
            if str_eq(self.styles[k - 1].0.as_str(), name) {
                return Some(self.styles[k - 1].1.clone());
            }
            k = k - 1;
        }
        None
    }
}

impl Clone for Theme {
    fn clone(&self) -> (r: Self)
        ensures
            r.styles@.len() == self.styles@.len(),
        decreases self,
    {
        let mut styles: Vec<(String, Style)> = Vec::new();
        let mut i: usize = 0;
        while i < self.styles.len()
            invariant
                i <= self.styles.len(),
                styles@.len() == i,
            decreases self.styles.len() - i,
        {
            let (n, s) = (&self.styles[i].0, &self.styles[i].1);
            styles.push((n.clone(), s.clone()));
            i = i + 1;
        }
        let inherit = match &self.inherit {
            Some(b) => Some(Box::new((**b).clone())),
            None => None,
        };
        Theme { styles, inherit }
    }
}

/// Whether `s` has only the color `name` (by the name's reading) and the
/// attributes `a` set.
pub open spec fn colored(s: Style, name: Seq<char>, a: Attributes) -> bool {
    &&& s.color matches Some(c) && c@ == named_color_spec(name)
    &&& s.bgcolor is None
    &&& s.link is None
    &&& s.attributes == a
}

/// The attributes with just bold set on, or bold and reverse.
pub open spec fn bold_attrs(reverse: bool) -> Attributes {
    if reverse {
        Attributes { bold: Some(true), reverse: Some(true), ..empty_style().attributes }
    } else {
        Attributes { bold: Some(true), ..empty_style().attributes }
    }
}

/// Whether `e` are the entries of the default theme: the plain prompt
/// style; magenta bold choices; cyan bold defaults; red invalid answers;
/// and the log levels green, blue, red, bold red and bold reverse red.
#[verifier::opaque]
pub open spec fn default_entries(e: Seq<(String, Style)>) -> bool {
    let none = empty_style().attributes;
    &&& e.len() == 9
    &&& e[0].0@ == "prompt"@ && e[0].1 == empty_style()
    &&& e[1].0@ == "prompt.choices"@ && colored(e[1].1, "magenta"@, bold_attrs(false))
    &&& e[2].0@ == "prompt.default"@ && colored(e[2].1, "cyan"@, bold_attrs(false))
    &&& e[3].0@ == "prompt.invalid"@ && colored(e[3].1, "red"@, none)
    &&& e[4].0@ == "logging.level.debug"@ && colored(e[4].1, "green"@, none)
    &&& e[5].0@ == "logging.level.info"@ && colored(e[5].1, "blue"@, none)
    &&& e[6].0@ == "logging.level.warning"@ && colored(e[6].1, "red"@, none)
    &&& e[7].0@ == "logging.level.error"@ && colored(e[7].1, "red"@, bold_attrs(false))
    &&& e[8].0@ == "logging.level.critical"@ && colored(e[8].1, "red"@, bold_attrs(true))
}

/// The theme used when none is given: the prompt and log-level styles.
pub fn default_theme() -> (t: Theme)
    ensures
        t.inherit is None,
        default_entries(t.styles@),
{
    let mut e: Vec<(String, Style)> = Vec::new();
    e.push((owned("prompt"), Style::new()));
    e.push((owned("prompt.choices"), Style::new().color(named_color("magenta")).bold(true)));
    e.push((owned("prompt.default"), Style::new().color(named_color("cyan")).bold(true)));
    e.push((owned("prompt.invalid"), Style::new().color(named_color("red"))));
    e.push((owned("logging.level.debug"), Style::new().color(named_color("green"))));
    e.push((owned("logging.level.info"), Style::new().color(named_color("blue"))));
    e.push((owned("logging.level.warning"), Style::new().color(named_color("red"))));
    e.push((owned("logging.level.error"), Style::new().color(named_color("red")).bold(true)));
    e.push((owned("logging.level.critical"), Style::new().color(named_color("red")).bold(true).reverse(true)));
    let t = Theme { styles: e, inherit: None };
    proof {
        reveal(default_entries);
    }
    t
}

} // verus!
