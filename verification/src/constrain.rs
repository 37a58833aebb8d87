//! A renderable held to a width.

use vstd::prelude::*;
use crate::console::{ConsoleOptions, DynRenderable, OverflowMethod, RenderResult, Renderable};
use crate::measure::Measurement;

verus! {

/// A renderable rendered at most `width` wide.
pub struct Constrain<R> {
    /// The content.
    pub renderable: R,
    /// The width, if limited.
    pub width: Option<usize>,
    /// What to do with text wider than the width.
    pub overflow: OverflowMethod,
}

impl<R: Renderable> Constrain<R> {
    /// `renderable` with no limit, folding long text.
    pub fn new(renderable: R) -> (c: Self)
        ensures
            c.renderable == renderable,
            c.width is None,
            c.overflow == OverflowMethod::Fold,
    {
        Constrain { renderable, width: None, overflow: OverflowMethod::Fold }
    }

    /// Held to `width`.
    pub fn width(self, width: usize) -> (c: Self)
        ensures
            c == (Constrain { width: Some(width), ..self }),
    {
        Constrain { width: Some(width), ..self }
    }

    /// With the overflow method `overflow`.
    pub fn overflow(self, overflow: OverflowMethod) -> (c: Self)
        ensures
            c == (Constrain { overflow: overflow, ..self }),
    {
        Constrain { overflow: overflow, ..self }
    }

    /// The options the content is rendered with: the width limit (or the
    /// given width) and this overflow method.
    pub fn inner_options(&self, options: &ConsoleOptions) -> (o: ConsoleOptions)
        ensures
            o == (ConsoleOptions {
                max_width: match self.width {
                    Some(w) => w,
                    None => options.max_width,
                },
                overflow: Some(self.overflow),
                ..*options
            }),
    {
        let w = match self.width {
            Some(w) => w,
            None => options.max_width,
        };
        ConsoleOptions { max_width: w, overflow: Some(self.overflow), ..options.clone() }
    }

    /// The content's measurement with its maximum held to the width.
    pub fn constrain_measure(&self, m: Measurement) -> (r: Measurement)
        ensures
            r.minimum == m.minimum,
            r.maximum == match self.width {
                Some(w) => if m.maximum < w {
                    m.maximum
                } else {
                    w
                },
                None => m.maximum,
            },
    {
        let max = match self.width {
            Some(w) => if m.maximum < w {
                m.maximum
            } else {
                w
            },
            None => m.maximum,
        };
        Measurement { minimum: m.minimum, maximum: max }
    }
}

/// `max` held to `width` when there is one.
pub open spec fn capped_max(width: Option<usize>, max: usize) -> usize {
    match width {
        Some(w) => if max < w { max } else { w },
        None => max,
    }
}

/// The options the content of `c` is rendered with, given `options`.
pub open spec fn constrained_options<R>(c: Constrain<R>, options: ConsoleOptions) -> ConsoleOptions {
    ConsoleOptions {
        max_width: match c.width {
            Some(w) => w,
            None => options.max_width,
        },
        overflow: Some(c.overflow),
        ..options
    }
}

impl<R: Renderable> Renderable for Constrain<R> {
    /// What the content renders with the width limit and overflow method.
    open spec fn renders(&self, options: ConsoleOptions, r: RenderResult) -> bool {
        self.renderable.renders(constrained_options(*self, options), r)
    }

    fn render(&self, options: &ConsoleOptions) -> RenderResult {
        let o = self.inner_options(options);
        self.renderable.render(&o)
    }

    /// The content's own measurement, if it gives one, its maximum held to
    /// the width.
    open spec fn own_measure(&self, options: ConsoleOptions) -> Option<Measurement> {
        match self.renderable.own_measure(options) {
            Some(m) => Some(Measurement { minimum: m.minimum, maximum: capped_max(self.width, m.maximum) }),
            None => None,
        }
    }

    fn measure(&self, options: &ConsoleOptions) -> (r: Option<Measurement>) {
        match self.renderable.measure(options) {
            Some(m) => {
                let x = self.constrain_measure(m);
                assert(x.maximum == capped_max(self.width, m.maximum));
                Some(x)
            },
            None => None,
        }
    }
}

} // verus!
