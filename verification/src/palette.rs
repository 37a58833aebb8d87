//! Named lists of colors.

use vstd::prelude::*;
use crate::color::{Color, ColorValue, named_color, named_color_spec};
use crate::strutil::owned;

verus! {

/// A named list of colors.
#[derive(Debug)]
pub struct Palette {
    /// The colors, in order.
    pub colors: Vec<Color>,
    /// The name.
    pub name: String,
}

/// The color values of the colors.
pub open spec fn color_views(cs: Seq<Color>) -> Seq<ColorValue> {
    cs.map_values(|c: Color| c@)
}

/// The readings of the given color names.
pub open spec fn named_views(names: Seq<Seq<char>>) -> Seq<ColorValue> {
    names.map_values(|n: Seq<char>| named_color_spec(n))
}

/// The eight standard color names.
pub open spec fn standard_names() -> Seq<Seq<char>> {
    seq!["black"@, "red"@, "green"@, "yellow"@, "blue"@, "magenta"@, "cyan"@, "white"@]
}

/// The eight bright color names.
pub open spec fn bright_names() -> Seq<Seq<char>> {
    seq![
        "bright_black"@,
        "bright_red"@,
        "bright_green"@,
        "bright_yellow"@,
        "bright_blue"@,
        "bright_magenta"@,
        "bright_cyan"@,
        "bright_white"@,
    ]
}

/// Appends the colors of `names`.
fn push_named(colors: &mut Vec<Color>, names: &[&str])
    ensures
        color_views(final(colors)@) == color_views(old(colors)@) + named_views(names@.map_values(|n: &str| n@)),
{
    let ghost c0 = color_views(old(colors)@);
    let mut i: usize = 0;
    while i < names.len()
        invariant
            i <= names@.len(),
            color_views(colors@) == c0 + named_views(names@.map_values(|n: &str| n@)).take(i as int),
        decreases names.len() - i,
    {
        let ghost b = color_views(colors@);
        colors.push(named_color(names[i]));
        assert(color_views(colors@) =~= b.push(named_color_spec(names@[i as int]@)));
        i = i + 1;
        assert(color_views(colors@) =~= c0 + named_views(names@.map_values(|n: &str| n@)).take(i as int));
    }
    assert(named_views(names@.map_values(|n: &str| n@)).take(names@.len() as int) =~= named_views(
        names@.map_values(|n: &str| n@),
    ));
}

impl Palette {
    /// An empty palette called `name`.
    pub fn new(name: &str) -> (p: Self)
        ensures
            p.colors@.len() == 0,
            p.name@ == name@,
    {
        Palette { colors: Vec::new(), name: owned(name) }
    }

    /// Adds a color at the end.
    pub fn add(&mut self, color: Color) -> (r: &mut Self)
        ensures
            (*r).colors@ == old(self).colors@.push(color),
            (*r).name == old(self).name,
            *final(self) == *final(r),
    {
        self.colors.push(color);
        self
    }

    /// The color at `index`, counting round the palette.
    pub fn get(&self, index: usize) -> (c: &Color)
        requires
            self.colors@.len() > 0,
        ensures
            *c == self.colors@[(index as nat % self.colors@.len()) as int],
    {
        &self.colors[index % self.colors.len()]
    }

    /// The eight standard colors.
    pub fn standard() -> (p: Self)
        ensures
            p.name@ == "standard"@,
            color_views(p.colors@) == named_views(standard_names()),
    {
        let mut colors: Vec<Color> = Vec::new();
        push_named(&mut colors, &["black", "red", "green", "yellow", "blue", "magenta", "cyan", "white"]);
        assert(color_views(colors@) =~= named_views(standard_names()));
        Palette { colors, name: owned("standard") }
    }

    /// The eight standard colors and their eight bright forms.
    pub fn extended() -> (p: Self)
        ensures
            p.name@ == "extended"@,
            color_views(p.colors@) == named_views(standard_names() + bright_names()),
    {
        let mut colors: Vec<Color> = Vec::new();
        push_named(&mut colors, &["black", "red", "green", "yellow", "blue", "magenta", "cyan", "white"]);
        push_named(
            &mut colors,
            &[
                "bright_black",
                "bright_red",
                "bright_green",
                "bright_yellow",
                "bright_blue",
                "bright_magenta",
                "bright_cyan",
                "bright_white",
            ],
        );
        assert(color_views(colors@) =~= named_views(standard_names() + bright_names()));
        Palette { colors, name: owned("extended") }
    }
}

} // verus!
