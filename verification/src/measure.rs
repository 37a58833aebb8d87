//! Width measurements: the narrowest and the widest a renderable can be.

use vstd::prelude::*;
use crate::console::ConsoleOptions;
use crate::cells::{cell_len, unicode_str_width};

verus! {

/// A range of widths, `minimum` to `maximum`.
#[derive(Debug, Clone, Copy, PartialEq, Eq)]
pub struct Measurement {
    /// The narrowest width.
    pub minimum: usize,
    /// The widest width.
    pub maximum: usize,
}

impl Measurement {
    /// A measurement from its two bounds.
    pub fn new(minimum: usize, maximum: usize) -> (m: Self)
        ensures
            m.minimum == minimum,
            m.maximum == maximum,
    {
        Measurement { minimum, maximum }
    }

    /// Both bounds capped at `maximum`.
    pub fn with_maximum(self, maximum: usize) -> (m: Self)
        ensures
            m.minimum == if self.minimum < maximum { self.minimum } else { maximum },
            m.maximum == if self.maximum < maximum { self.maximum } else { maximum },
    {
        Measurement {
            minimum: if self.minimum < maximum { self.minimum } else { maximum },
            maximum: if self.maximum < maximum { self.maximum } else { maximum },
        }
    }

    /// Both bounds raised to at least `minimum`.
    pub fn with_minimum(self, minimum: usize) -> (m: Self)
        ensures
            m.minimum == if self.minimum > minimum { self.minimum } else { minimum },
            m.maximum == if self.maximum > minimum { self.maximum } else { minimum },
    {
        Measurement {
            minimum: if self.minimum > minimum { self.minimum } else { minimum },
            maximum: if self.maximum > minimum { self.maximum } else { minimum },
        }
    }

    /// Both bounds reduced by `amount`, stopping at zero.
    pub fn shrink(self, amount: usize) -> (m: Self)
        ensures
            m.minimum == if self.minimum > amount { self.minimum - amount } else { 0 },
            m.maximum == if self.maximum > amount { self.maximum - amount } else { 0 },
    {
        Measurement {
            minimum: if self.minimum > amount { self.minimum - amount } else { 0 },
            maximum: if self.maximum > amount { self.maximum - amount } else { 0 },
        }
    }

    /// Both bounds increased by `amount`.
    pub fn grow(self, amount: usize) -> (m: Self)
        requires
            self.minimum + amount <= usize::MAX,
            self.maximum + amount <= usize::MAX,
        ensures
            m.minimum == self.minimum + amount,
            m.maximum == self.maximum + amount,
    {
        Measurement { minimum: self.minimum + amount, maximum: self.maximum + amount }
    }

    /// The measurement of exactly `width` cells.
    pub fn fixed(width: usize) -> (m: Self)
        ensures
            m.minimum == width,
            m.maximum == width,
    {
        Measurement { minimum: width, maximum: width }
    }
}

/// Something that can report the range of widths it needs.
pub trait Measurable {
    /// The widths this value can be rendered at.
    fn measure(&self, options: &ConsoleOptions) -> Measurement;
}

impl Measurable for String {
    /// A string is exactly as wide as its text.
    fn measure(&self, options: &ConsoleOptions) -> (m: Measurement)
        ensures
            m.minimum == crate::cells::unicode_str_width(self@) && m.maximum == crate::cells::unicode_str_width(self@),
    {
        Measurement::fixed(cell_len(self.as_str()))
    }
}

impl<'a> Measurable for &'a str {
    /// A string is exactly as wide as its text.
    fn measure(&self, options: &ConsoleOptions) -> (m: Measurement)
        ensures
            m.minimum == crate::cells::unicode_str_width(self@) && m.maximum == crate::cells::unicode_str_width(self@),
    {
        Measurement::fixed(cell_len(*self))
    }
}

/// The largest minimum and the largest maximum of the first `k` entries
/// (zero when there are none).
pub open spec fn max_bounds(ms: Seq<Measurement>, k: nat) -> (nat, nat)
    decreases k,
{
    if k == 0 || k > ms.len() {
        (0, 0)
    } else {
        let (a, b) = max_bounds(ms, (k - 1) as nat);
        let m = ms[k - 1];
        (if m.minimum > a { m.minimum as nat } else { a }, if m.maximum > b { m.maximum as nat } else { b })
    }
}

/// The measurement of values stacked one above another: the largest
/// minimum and the largest maximum.
pub fn combine_measurements(ms: &Vec<Measurement>) -> (m: Measurement)
    ensures
        (m.minimum as nat, m.maximum as nat) == max_bounds(ms@, ms@.len()),
{
    let mut lo: usize = 0;
    let mut hi: usize = 0;
    let mut i: usize = 0;
    while i < ms.len()
        invariant
            i <= ms.len(),
            (lo as nat, hi as nat) == max_bounds(ms@, i as nat),
        decreases ms.len() - i,
    {
        let m = ms[i];
        if m.minimum > lo {
            lo = m.minimum;
        }
        if m.maximum > hi {
            hi = m.maximum;
        }
        i = i + 1;
    }
    Measurement::new(lo, hi)
}

/// Measures each item and combines the results as `combine_measurements`
/// does.
pub fn measure_renderables(items: &[&dyn Measurable], options: &ConsoleOptions) -> (m: Measurement)
    ensures
        exists|ms: Seq<Measurement>|
            ms.len() == items@.len() && (m.minimum as nat, m.maximum as nat) == #[trigger] max_bounds(ms, ms.len()),
{
    let mut ms: Vec<Measurement> = Vec::new();
    let mut i: usize = 0;
    while i < items.len()
        invariant
            i <= items@.len(),
            ms@.len() == i,
        decreases items@.len() - i,
    {
        ms.push(items[i].measure(options));
        i = i + 1;
    }
    combine_measurements(&ms)
}

} // verus!
