//! Columns of a progress display: their settings, and the text each shows
//! for the values of a task.

use vstd::prelude::*;
use crate::color::named_color;
use crate::strutil::{decimal_chars, owned, push_char, push_decimal, push_str};
use crate::style::{Style, empty_style, reset_seq, sgr_codes, sgr_of};
use crate::theme::{bold_attrs, colored};

verus! {

/// `text` between a style's escape sequence and its reset (both empty for
/// a style that writes no code).
pub open spec fn styled_spec(st: Style, text: Seq<char>) -> Seq<char> {
    sgr_of(st) + text + (if sgr_codes(st).len() == 0 {
        seq![]
    } else {
        reset_seq()
    })
}

/// `text` between `style`'s escape sequence and its reset.
pub fn styled_text(style: &Style, text: &str) -> (s: String)
    ensures
        s@ == styled_spec(*style, text@),
{
    let mut s = style.to_ansi();
    push_str(&mut s, text);
    let r = style.reset_ansi();
    push_str(&mut s, r.as_str());
    s
}

/// A duration in seconds as `m:ss`, or `h:mm:ss` from an hour on (minutes
/// and seconds two digits wide).
pub open spec fn duration_spec(secs: nat) -> Seq<char> {
    if secs < 60 {
        seq!['0', ':'] + two_digits(secs)
    } else if secs < 3600 {
        decimal_chars(secs / 60) + seq![':'] + two_digits(secs % 60)
    } else {
        decimal_chars(secs / 3600) + seq![':'] + two_digits((secs % 3600) / 60) + seq![':'] + two_digits(
            secs % 60,
        )
    }
}

/// A number below 100 as two digits.
pub open spec fn two_digits(n: nat) -> Seq<char> {
    if n < 10 {
        seq!['0'] + decimal_chars(n)
    } else {
        decimal_chars(n)
    }
}

/// Appends `n` (below 100) as two digits.
fn push_two(s: &mut String, n: u64)
    requires
        n < 100,
    ensures
        final(s)@ == old(s)@ + two_digits(n as nat),
{
    if n < 10 {
        push_char(s, '0');
    }
    push_decimal(s, n);
    proof {
        if n < 10 {
            assert(final(s)@ =~= old(s)@ + two_digits(n as nat));
        }
    }
}

/// A duration in seconds as a clock reading.
pub fn format_duration_short(secs: u64) -> (s: String)
    ensures
        s@ == duration_spec(secs as nat),
{
    let mut s = String::new();
    if secs < 60 {
        push_char(&mut s, '0');
        push_char(&mut s, ':');
        push_two(&mut s, secs);
    } else if secs < 3600 {
        push_decimal(&mut s, secs / 60);
        push_char(&mut s, ':');
        push_two(&mut s, secs % 60);
    } else {
        push_decimal(&mut s, secs / 3600);
        push_char(&mut s, ':');
        assert((secs % 3600) / 60 < 100) by (nonlinear_arith);
        push_two(&mut s, (secs % 3600) / 60);
        push_char(&mut s, ':');
        push_two(&mut s, secs % 60);
    }
    s
}

/// A column showing a field of the task.
#[derive(Debug)]
pub struct TextColumn {
    /// The field shown.
    pub key: String,
    /// The format, kept as it is given.
    pub format: String,
    /// The style of the text.
    pub style: Style,
}

impl TextColumn {
    /// A column showing the field `key`.
    pub fn new(key: &str) -> (c: Self)
        ensures
            c.key@ == key@,
            c.format@ == "{:>11}"@,
            c.style == empty_style(),
    {
        TextColumn { key: owned(key), format: owned("{:>11}"), style: Style::new() }
    }

    /// The column with the format `fmt`.
    pub fn format(self, fmt: &str) -> (c: Self)
        ensures
            c.format@ == fmt@,
            c.key == self.key,
            c.style == self.style,
    {
        TextColumn { format: owned(fmt), ..self }
    }

    /// The column in `s`.
    pub fn style(self, s: Style) -> (c: Self)
        ensures
            c == (TextColumn { style: s, ..self }),
    {
        TextColumn { style: s, ..self }
    }

    /// The text shown for the field's value, `?` when the task has none.
    pub fn render_value(&self, value: Option<&str>) -> (s: String)
        ensures
            s@ == styled_spec(
                self.style,
                match value {
                    Some(v) => v@,
                    None => seq!['?'],
                },
            ),
    {
        match value {
            Some(v) => styled_text(&self.style, v),
            None => {
                proof {
                    reveal_strlit("?");
                }
                styled_text(&self.style, "?")
            },
        }
    }
}

/// A column showing a spinner, or a mark once the task is finished.
#[derive(Debug)]
pub struct SpinnerColumn {
    /// The style of the spinner.
    pub style: Style,
    /// The style of the mark.
    pub finished_style: Style,
    /// The mark.
    pub finished_text: String,
}

impl SpinnerColumn {
    /// A plain spinner; a bold green check mark when finished.
    pub fn new() -> (c: Self)
        ensures
            c.style == empty_style(),
            colored(c.finished_style, "green"@, bold_attrs(false)),
            c.finished_text@ == "✓"@,
    {
        SpinnerColumn {
            style: Style::new(),
            finished_style: Style::new().color(named_color("green")).bold(true),
            finished_text: owned("✓"),
        }
    }

    /// The spinner in `s`.
    pub fn style(self, s: Style) -> (c: Self)
        ensures
            c == (SpinnerColumn { style: s, ..self }),
    {
        SpinnerColumn { style: s, ..self }
    }

    /// The mark in `s`.
    pub fn finished_style(self, s: Style) -> (c: Self)
        ensures
            c == (SpinnerColumn { finished_style: s, ..self }),
    {
        SpinnerColumn { finished_style: s, ..self }
    }

    /// The text shown: the mark when finished, else the spinner's frame.
    pub fn render_frame(&self, finished: bool, frame: &str) -> (s: String)
        ensures
            s@ == (if finished {
                styled_spec(self.finished_style, self.finished_text@)
            } else {
                styled_spec(self.style, frame@)
            }),
    {
        if finished {
            styled_text(&self.finished_style, self.finished_text.as_str())
        } else {
            styled_text(&self.style, frame)
        }
    }
}

impl Default for SpinnerColumn {
    fn default() -> (c: Self)
        ensures
            c.style == empty_style(),
    {
        SpinnerColumn::new()
    }
}

/// A column showing the time since the task started.
#[derive(Debug)]
pub struct TimeElapsedColumn {
    /// The style of the time.
    pub style: Style,
    /// The style while paused.
    pub paused_style: Style,
}

impl TimeElapsedColumn {
    /// A plain column, dim while paused.
    pub fn new() -> (c: Self)
        ensures
            c.style == empty_style(),
            c.paused_style == (Style { attributes: crate::style::Attributes { dim: Some(true), ..empty_style().attributes }, ..empty_style() }),
    {
        TimeElapsedColumn { style: Style::new(), paused_style: Style::new().dim(true) }
    }

    /// The text shown for `secs` seconds elapsed.
    pub fn render_secs(&self, secs: u64) -> (s: String)
        ensures
            s@ == styled_spec(self.style, duration_spec(secs as nat)),
    {
        let d = format_duration_short(secs);
        styled_text(&self.style, d.as_str())
    }
}

impl Default for TimeElapsedColumn {
    fn default() -> (c: Self)
        ensures
            c.style == empty_style(),
    {
        TimeElapsedColumn::new()
    }
}

/// A column showing the time left.
#[derive(Debug)]
pub struct TimeRemainingColumn {
    /// The style of the time.
    pub style: Style,
    /// Whether the elapsed time is shown once finished.
    pub elapsed_when_finished: bool,
}

impl TimeRemainingColumn {
    /// A plain column, blank once finished.
    pub fn new() -> (c: Self)
        ensures
            c.style == empty_style(),
            !c.elapsed_when_finished,
    {
        TimeRemainingColumn { style: Style::new(), elapsed_when_finished: false }
    }

    /// The text shown: once finished the elapsed time (or nothing), else
    /// the time left, `?` when it is not known.
    pub fn render_times(&self, finished: bool, elapsed_secs: u64, remaining_secs: Option<u64>) -> (s: String)
        ensures
            s@ == styled_spec(
                self.style,
                if finished {
                    if self.elapsed_when_finished {
                        duration_spec(elapsed_secs as nat)
                    } else {
                        seq![]
                    }
                } else {
                    match remaining_secs {
                        Some(r) => duration_spec(r as nat),
                        None => seq!['?'],
                    }
                },
            ),
    {
        let text = if finished {
            if self.elapsed_when_finished {
                format_duration_short(elapsed_secs)
            } else {
                String::new()
            }
        } else {
            match remaining_secs {
                Some(r) => format_duration_short(r),
                None => {
                    let mut q = String::new();
                    push_char(&mut q, '?');
                    q
                },
            }
        };
        styled_text(&self.style, text.as_str())
    }
}

impl Default for TimeRemainingColumn {
    fn default() -> (c: Self)
        ensures
            c.style == empty_style(),
    {
        TimeRemainingColumn::new()
    }
}

/// `n` right-aligned to three characters.
pub open spec fn pad3(n: nat) -> Seq<char> {
    let d = decimal_chars(n);
    if d.len() < 3 {
        Seq::new((3 - d.len()) as nat, |i: int| ' ') + d
    } else {
        d
    }
}

/// A column showing the percentage done.
#[derive(Debug)]
pub struct TaskProgressColumn {
    /// The style of the percentage.
    pub style: Style,
}

impl TaskProgressColumn {
    /// A plain column.
    pub fn new() -> (c: Self)
        ensures
            c.style == empty_style(),
    {
        TaskProgressColumn { style: Style::new() }
    }

    /// The column in `s`.
    pub fn style(self, s: Style) -> (c: Self)
        ensures
            c.style == s,
    {
        TaskProgressColumn { style: s }
    }

    /// The text shown for a whole percentage: right-aligned to three and a
    /// `%`; nothing when the task has no total.
    pub fn render_percent(&self, percent: Option<u64>) -> (s: String)
        ensures
            s@ == match percent {
                Some(p) => styled_spec(self.style, pad3(p as nat) + seq!['%']),
                None => seq![],
            },
    {
        match percent {
            Some(p) => {
                let d = crate::strutil::decimal_string(p);
                let mut t = String::new();
                let n = d.unicode_len();
                if n < 3 {
                    crate::strutil::push_spaces(&mut t, 3 - n);
                }
                push_str(&mut t, d.as_str());
                push_char(&mut t, '%');
                proof {
                    assert(crate::strutil::spaces((3 - n) as nat) =~= Seq::new((3 - n) as nat, |i: int| ' '));
                }
                styled_text(&self.style, t.as_str())
            },
            None => String::new(),
        }
    }
}

impl Default for TaskProgressColumn {
    fn default() -> (c: Self)
        ensures
            c.style == empty_style(),
    {
        TaskProgressColumn::new()
    }
}

/// A column showing `completed/total`.
#[derive(Debug)]
pub struct MofNCompleteColumn {
    /// The style of the text.
    pub style: Style,
    /// What stands between the two counts.
    pub separator: String,
}

impl MofNCompleteColumn {
    /// A plain column with `/` between the counts.
    pub fn new() -> (c: Self)
        ensures
            c.style == empty_style(),
            c.separator@ == "/"@,
    {
        MofNCompleteColumn { style: Style::new(), separator: owned("/") }
    }

    /// The text shown: the completed count, then the separator and the
    /// total in the style when there is a total, else the bare count.
    pub fn render_counts(&self, completed: u64, total: Option<u64>) -> (s: String)
        ensures
            s@ == match total {
                Some(t) => styled_spec(self.style, decimal_chars(completed as nat) + self.separator@ + decimal_chars(t as nat)),
                None => decimal_chars(completed as nat),
            },
    {
        match total {
            Some(t) => {
                let mut x = String::new();
                push_decimal(&mut x, completed);
                push_str(&mut x, self.separator.as_str());
                push_decimal(&mut x, t);
                styled_text(&self.style, x.as_str())
            },
            None => crate::strutil::decimal_string(completed),
        }
    }
}

impl Default for MofNCompleteColumn {
    fn default() -> (c: Self)
        ensures
            c.style == empty_style(),
    {
        MofNCompleteColumn::new()
    }
}

/// A column showing the size done.
#[derive(Debug)]
pub struct FileSizeColumn {
    /// The style of the size.
    pub style: Style,
}

impl FileSizeColumn {
    /// A plain column.
    pub fn new() -> (c: Self)
        ensures
            c.style == empty_style(),
    {
        FileSizeColumn { style: Style::new() }
    }

    /// The column in `s`.
    pub fn style(self, s: Style) -> (c: Self)
        ensures
            c.style == s,
    {
        FileSizeColumn { style: s }
    }

    /// The text shown for the size written out as `size`.
    pub fn render_size(&self, size: &str) -> (s: String)
        ensures
            s@ == styled_spec(self.style, size@),
    {
        styled_text(&self.style, size)
    }
}

impl Default for FileSizeColumn {
    fn default() -> (c: Self)
        ensures
            c.style == empty_style(),
    {
        FileSizeColumn::new()
    }
}

/// A column showing the total size.
#[derive(Debug)]
pub struct TotalFileSizeColumn {
    /// The style of the size.
    pub style: Style,
}

impl TotalFileSizeColumn {
    /// A plain column.
    pub fn new() -> (c: Self)
        ensures
            c.style == empty_style(),
    {
        TotalFileSizeColumn { style: Style::new() }
    }

    /// The column in `s`.
    pub fn style(self, s: Style) -> (c: Self)
        ensures
            c.style == s,
    {
        TotalFileSizeColumn { style: s }
    }

    /// The text shown for the total written out as `size`; nothing when
    /// there is no total.
    pub fn render_total(&self, size: Option<&str>) -> (s: String)
        ensures
            s@ == match size {
                Some(t) => styled_spec(self.style, t@),
                None => seq![],
            },
    {
        match size {
            Some(t) => styled_text(&self.style, t),
            None => String::new(),
        }
    }
}

impl Default for TotalFileSizeColumn {
    fn default() -> (c: Self)
        ensures
            c.style == empty_style(),
    {
        TotalFileSizeColumn::new()
    }
}

/// A column showing the size done out of the total.
#[derive(Debug)]
pub struct DownloadColumn {
    /// The style of the text.
    pub style: Style,
    /// What stands between the two sizes.
    pub separator: String,
}

impl DownloadColumn {
    /// A plain column with `/` between the sizes.
    pub fn new() -> (c: Self)
        ensures
            c.style == empty_style(),
            c.separator@ == "/"@,
    {
        DownloadColumn { style: Style::new(), separator: owned("/") }
    }

    /// The column in `s`.
    pub fn style(self, s: Style) -> (c: Self)
        ensures
            c.style == s,
            c.separator == self.separator,
    {
        DownloadColumn { style: s, ..self }
    }

    /// The column with `sep` between the sizes.
    pub fn separator(self, sep: &str) -> (c: Self)
        ensures
            c.separator@ == sep@,
            c.style == self.style,
    {
        DownloadColumn { separator: owned(sep), ..self }
    }

    /// The text shown for the sizes written out: done, then the separator
    /// and the total when there is one.
    pub fn render_sizes(&self, completed: &str, total: Option<&str>) -> (s: String)
        ensures
            s@ == styled_spec(
                self.style,
                match total {
                    Some(t) => completed@ + self.separator@ + t@,
                    None => completed@,
                },
            ),
    {
        let mut x = owned(completed);
        match total {
            Some(t) => {
                push_str(&mut x, self.separator.as_str());
                push_str(&mut x, t);
            },
            None => {},
        }
        styled_text(&self.style, x.as_str())
    }
}

impl Default for DownloadColumn {
    fn default() -> (c: Self)
        ensures
            c.style == empty_style(),
    {
        DownloadColumn::new()
    }
}

/// A column showing the transfer speed.
#[derive(Debug)]
pub struct TransferSpeedColumn {
    /// The style of the speed.
    pub style: Style,
}

impl TransferSpeedColumn {
    /// A plain column.
    pub fn new() -> (c: Self)
        ensures
            c.style == empty_style(),
    {
        TransferSpeedColumn { style: Style::new() }
    }

    /// The column in `s`.
    pub fn style(self, s: Style) -> (c: Self)
        ensures
            c.style == s,
    {
        TransferSpeedColumn { style: s }
    }

    /// The text shown for the speed written out as `speed`, or `0 B/s`
    /// when there is none yet.
    pub fn render_speed(&self, speed: Option<&str>) -> (s: String)
        ensures
            s@ == styled_spec(
                self.style,
                match speed {
                    Some(t) => t@,
                    None => "0 B/s"@,
                },
            ),
    {
        match speed {
            Some(t) => styled_text(&self.style, t),
            None => styled_text(&self.style, "0 B/s"),
        }
    }
}

impl Default for TransferSpeedColumn {
    fn default() -> (c: Self)
        ensures
            c.style == empty_style(),
    {
        TransferSpeedColumn::new()
    }
}

} // verus!
