//! Log records laid out for the terminal: time, level, message and path.

use vstd::prelude::*;
use crate::align::{char_is_ws, is_ws};
use crate::color::{named_color, named_color_spec};
use crate::columns::seg_views;
use crate::console::{ConsoleOptions, RenderResult, Renderable};
use crate::panel::{SegLine, newline, plain};
use crate::segment::Segment;
use crate::strutil::{chars_of, decimal_chars, owned, push_char, push_decimal, push_spaces, push_str, spaces, string_of, str_eq, to_lowercase, unicode_lowercase};
use crate::style::{Style, empty_style, render_spec};
use crate::table::{Cell, Column, Table, first_texts, table_texts};
use crate::theme::{bold_attrs, colored, default_entries, default_theme, lookup};

verus! {

/// How log records are laid out.
#[derive(Debug)]
pub struct LogRender {
    /// Whether the time is shown.
    pub show_time: bool,
    /// Whether the level is shown.
    pub show_level: bool,
    /// Whether the path is shown.
    pub show_path: bool,
    /// The time format, kept as it is given.
    pub time_format: String,
    /// The width the level is right-aligned to.
    pub level_width: usize,
    /// Whether a time equal to the last one shown is left out.
    pub omit_repeated_times: bool,
    /// The last time shown.
    pub last_time: Option<String>,
}

/// A log record laid out: each part as it is shown (empty when hidden).
#[derive(Debug)]
pub struct LogRecord {
    /// The time, or empty.
    pub time: String,
    /// The level, right-aligned, or empty.
    pub level: String,
    /// The message.
    pub message: String,
    /// The path and line, or empty.
    pub path: String,
    /// Whether the time column is shown.
    pub show_time: bool,
    /// Whether the level column is shown.
    pub show_level: bool,
    /// Whether the path column is shown.
    pub show_path: bool,
}

/// Several log records, shown as a table.
#[derive(Debug)]
pub struct LogTable {
    /// The records.
    pub records: Vec<LogRecord>,
}

/// What a record shows: time, level, message and path, and which columns
/// are on.
pub type RecordView = (Seq<char>, Seq<char>, Seq<char>, Seq<char>, bool, bool, bool);

/// The view of a record.
pub open spec fn record_view(r: LogRecord) -> RecordView {
    (r.time@, r.level@, r.message@, r.path@, r.show_time, r.show_level, r.show_path)
}

/// The time shown and the last time kept, for a record with time `t` when
/// the last time shown was `last`: with repeated times left out, a time
/// equal to the last is shown as empty and the last stays; any other time
/// is shown and becomes the last.
pub open spec fn time_step(show_time: bool, omit: bool, last: Option<Seq<char>>, t: Seq<char>) -> (
    Seq<char>,
    Option<Seq<char>>,
) {
    if !show_time {
        (seq![], last)
    } else if !omit {
        (t, last)
    } else if last == Some(t) {
        (seq![], last)
    } else {
        (t, Some(t))
    }
}

/// The path shown: `path:line`, the path alone, `<unknown>:line`, or empty.
pub open spec fn path_spec(path: Option<Seq<char>>, line_no: Option<u32>) -> Seq<char> {
    match (path, line_no) {
        (Some(p), Some(l)) => p + seq![':'] + decimal_chars(l as nat),
        (Some(p), None) => p,
        (None, Some(l)) => "<unknown>:"@ + decimal_chars(l as nat),
        (None, None) => seq![],
    }
}

/// `level` right-aligned to `width` characters.
pub open spec fn pad_level(level: Seq<char>, width: nat) -> Seq<char> {
    if level.len() < width {
        spaces((width - level.len()) as nat) + level
    } else {
        level
    }
}

/// The characters of an optional string.
pub open spec fn opt_chars(s: Option<&str>) -> Option<Seq<char>> {
    match s {
        Some(t) => Some(t@),
        None => None,
    }
}

/// The last time kept, as characters.
pub open spec fn last_view(l: Option<String>) -> Option<Seq<char>> {
    match l {
        Some(t) => Some(t@),
        None => None,
    }
}

/// The record laid out by `lr` (whose last time is `last`) for the inputs,
/// and the last time after it.
pub open spec fn log_step(
    lr: LogRender,
    last: Option<Seq<char>>,
    time: Option<Seq<char>>,
    level: Seq<char>,
    message: Seq<char>,
    path: Option<Seq<char>>,
    line_no: Option<u32>,
) -> (RecordView, Option<Seq<char>>) {
    let t = match time {
        Some(t) => t,
        None => seq![],
    };
    let ts = time_step(lr.show_time, lr.omit_repeated_times, last, t);
    (
        (
            ts.0,
            if lr.show_level {
                pad_level(level, lr.level_width as nat)
            } else {
                seq![]
            },
            message,
            if lr.show_path {
                path_spec(path, line_no)
            } else {
                seq![]
            },
            lr.show_time,
            lr.show_level,
            lr.show_path,
        ),
        ts.1,
    )
}

/// Whether the settings (everything but the last time) of two renderers
/// agree.
pub open spec fn same_settings(a: LogRender, b: LogRender) -> bool {
    &&& a.show_time == b.show_time
    &&& a.show_level == b.show_level
    &&& a.show_path == b.show_path
    &&& a.time_format == b.time_format
    &&& a.level_width == b.level_width
    &&& a.omit_repeated_times == b.omit_repeated_times
}

/// With repeated times left out, a record with the same time as the one
/// before it shows no time.
pub proof fn lemma_repeated_time_omitted(last: Option<Seq<char>>, t: Seq<char>)
    ensures
        time_step(true, true, time_step(true, true, last, t).1, t).0 == Seq::<char>::empty(),
        time_step(true, true, last, t).1 == Some(t),
{
}

/// The fallback style of a level name in lower case when the theme has
/// none: debug bright black, info bright cyan, warning bright yellow,
/// error bold bright red, critical bold reverse red, else plain.
pub open spec fn fallback_level_style(l: Seq<char>, st: Style) -> bool {
    let none = empty_style().attributes;
    if l == "debug"@ {
        colored(st, "bright_black"@, none)
    } else if l == "info"@ {
        colored(st, "bright_cyan"@, none)
    } else if l == "warning"@ {
        colored(st, "bright_yellow"@, none)
    } else if l == "error"@ {
        colored(st, "bright_red"@, bold_attrs(false))
    } else if l == "critical"@ {
        colored(st, "red"@, bold_attrs(true))
    } else {
        st == empty_style()
    }
}

/// The key of a level in the theme: `logging.level.` and the level in
/// lower case.
pub open spec fn level_key(level: Seq<char>) -> Seq<char> {
    "logging.level."@ + unicode_lowercase(level)
}

/// Whether `st` is the style of `level` in the theme entries `e`, or the
/// fallback when the theme has none.
pub open spec fn level_style_is(e: Seq<(String, Style)>, level: Seq<char>, st: Style) -> bool {
    match lookup(e, level_key(level)) {
        Some(s) => st == s,
        None => fallback_level_style(unicode_lowercase(level), st),
    }
}

/// `s` without white space at either end.
pub open spec fn trim_ws(s: Seq<char>) -> Seq<char>
    decreases s.len(),
{
    if s.len() > 0 && is_ws(s[0]) {
        trim_ws(s.drop_first())
    } else if s.len() > 0 && is_ws(s.last()) {
        trim_ws(s.drop_last())
    } else {
        s
    }
}

/// `s` without white space at either end.
pub fn trim(s: &str) -> (r: String)
    ensures
        r@ == trim_ws(s@),
{
    let cs = chars_of(s);
    let mut a: usize = 0;
    let mut b: usize = cs.len();
    assert(cs@.subrange(0, cs@.len() as int) =~= cs@);
    while a < b && char_is_ws(cs[a])
        invariant
            a <= b <= cs@.len(),
            b == cs@.len(),
            cs@ == s@,
            trim_ws(s@) == trim_ws(cs@.subrange(a as int, b as int)),
        decreases b - a,
    {
        assert(cs@.subrange(a as int, b as int).drop_first() =~= cs@.subrange(a + 1, b as int));
        a = a + 1;
    }
    while a < b && char_is_ws(cs[b - 1])
        invariant
            a <= b <= cs@.len(),
            cs@ == s@,
            a == b || !is_ws(cs@[a as int]),
            trim_ws(s@) == trim_ws(cs@.subrange(a as int, b as int)),
        decreases b - a,
    {
        assert(cs@.subrange(a as int, b as int).drop_last() =~= cs@.subrange(a as int, b - 1));
        b = b - 1;
    }
    let mut r = String::new();
    let mut k: usize = a;
    while k < b
        invariant
            a <= k <= b <= cs@.len(),
            r@ == cs@.subrange(a as int, k as int),
        decreases b - k,
    {
        push_char(&mut r, cs[k]);
        k = k + 1;
        assert(r@ =~= cs@.subrange(a as int, k as int));
    }
    r
}

/// A style of the color `name` and nothing else.
fn color_only(name: &str) -> (s: Style)
    ensures
        colored(s, name@, empty_style().attributes),
{
    Style::new().color(named_color(name))
}

impl LogRender {
    /// Time, level and path shown; `[%x %X]` as time format; levels eight
    /// wide; repeated times left out; no time shown yet.
    pub fn new() -> (lr: Self)
        ensures
            lr.show_time && lr.show_level && lr.show_path,
            lr.time_format@ == "[%x %X]"@,
            lr.level_width == 8,
            lr.omit_repeated_times,
            lr.last_time is None,
    {
        LogRender {
            show_time: true,
            show_level: true,
            show_path: true,
            time_format: owned("[%x %X]"),
            level_width: 8,
            omit_repeated_times: true,
            last_time: None,
        }
    }

    /// The renderer showing the time, or not.
    pub fn show_time(self, value: bool) -> (lr: Self)
        ensures
            lr == (LogRender { show_time: value, ..self }),
    {
        LogRender { show_time: value, ..self }
    }

    /// The renderer showing the level, or not.
    pub fn show_level(self, value: bool) -> (lr: Self)
        ensures
            lr == (LogRender { show_level: value, ..self }),
    {
        LogRender { show_level: value, ..self }
    }

    /// The renderer showing the path, or not.
    pub fn show_path(self, value: bool) -> (lr: Self)
        ensures
            lr == (LogRender { show_path: value, ..self }),
    {
        LogRender { show_path: value, ..self }
    }

    /// The renderer with the given time format.
    pub fn time_format(self, format: &str) -> (lr: Self)
        ensures
            lr.time_format@ == format@,
            lr.show_time == self.show_time && lr.show_level == self.show_level && lr.show_path == self.show_path,
            lr.level_width == self.level_width,
            lr.omit_repeated_times == self.omit_repeated_times,
            lr.last_time == self.last_time,
    {
        LogRender { time_format: owned(format), ..self }
    }

    /// The renderer aligning levels to `width`.
    pub fn level_width(self, width: usize) -> (lr: Self)
        ensures
            lr == (LogRender { level_width: width, ..self }),
    {
        LogRender { level_width: width, ..self }
    }

    /// The renderer leaving out repeated times, or not.
    pub fn omit_repeated_times(self, value: bool) -> (lr: Self)
        ensures
            lr == (LogRender { omit_repeated_times: value, ..self }),
    {
        LogRender { omit_repeated_times: value, ..self }
    }

    /// The style of a level: the theme's `logging.level.<level>` style,
    /// or a fallback by the level's name.
    pub fn get_level_style(level: &str) -> (st: Style)
        ensures
            exists|e: Seq<(String, Style)>|
                #![trigger lookup(e, level_key(level@))]
                default_entries(e) && level_style_is(e, level@, st),
    {
        let theme = default_theme();
        let lower = to_lowercase(level);
        let mut key = owned("logging.level.");
        push_str(&mut key, lower.as_str());
        proof {
            reveal_strlit("logging.level.");
        }
        assert(key@ == level_key(level@));
        let st = match theme.get(key.as_str()) {
            Some(s) => s,
            None => {
                let l = lower.as_str();
                if str_eq(l, "debug") {
                    color_only("bright_black")
                } else if str_eq(l, "info") {
                    color_only("bright_cyan")
                } else if str_eq(l, "warning") {
                    color_only("bright_yellow")
                } else if str_eq(l, "error") {
                    color_only("bright_red").bold(true)
                } else if str_eq(l, "critical") {
                    color_only("red").bold(true).reverse(true)
                } else {
                    Style::new()
                }
            },
        };
        assert(default_entries(theme.styles@) && level_style_is(theme.styles@, level@, st));
        st
    }

    /// The style of the time: bright black.
    pub fn get_time_style() -> (st: Style)
        ensures
            colored(st, "bright_black"@, empty_style().attributes),
    {
        color_only("bright_black")
    }

    /// The style of the message: plain.
    pub fn get_message_style() -> (st: Style)
        ensures
            st == empty_style(),
    {
        Style::new()
    }

    /// The style of the path: bright black.
    pub fn get_path_style() -> (st: Style)
        ensures
            colored(st, "bright_black"@, empty_style().attributes),
    {
        color_only("bright_black")
    }

    /// Lays out a record, and keeps its time as the last one shown when it
    /// is shown.
    pub fn render_log(
        &mut self,
        time: Option<&str>,
        level: &str,
        message: &str,
        path: Option<&str>,
        line_no: Option<u32>,
    ) -> (r: LogRecord)
        ensures
            same_settings(*final(self), *old(self)),
            (record_view(r), last_view(final(self).last_time)) == log_step(
                *old(self),
                last_view(old(self).last_time),
                opt_chars(time),
                level@,
                message@,
                opt_chars(path),
                line_no,
            ),
    {
        let ts: &str = match time {
            Some(t) => t,
            None => "",
        };
        proof {
            reveal_strlit("");
        }
        let time_str = if self.show_time {
            if self.omit_repeated_times {
                let same = match &self.last_time {
                    Some(last) => str_eq(last.as_str(), ts),
                    None => false,
                };
                if same {
                    String::new()
                } else {
                    self.last_time = Some(owned(ts));
                    owned(ts)
                }
            } else {
                owned(ts)
            }
        } else {
            String::new()
        };
        let path_str = if self.show_path {
            match (path, line_no) {
                (Some(p), Some(l)) => {
                    let mut s = owned(p);
                    push_char(&mut s, ':');
                    push_decimal(&mut s, l as u64);
                    s
                },
                (Some(p), None) => owned(p),
                (None, Some(l)) => {
                    let mut s = owned("<unknown>:");
                    push_decimal(&mut s, l as u64);
                    proof {
                        reveal_strlit("<unknown>:");
                    }
                    s
                },
                (None, None) => String::new(),
            }
        } else {
            String::new()
        };
        let level_str = if self.show_level {
            let n = level.unicode_len();
            let mut s = String::new();
            if n < self.level_width {
                push_spaces(&mut s, self.level_width - n);
            }
            push_str(&mut s, level);
            s
        } else {
            String::new()
        };
        LogRecord {
            time: time_str,
            level: level_str,
            message: owned(message),
            path: path_str,
            show_time: self.show_time,
            show_level: self.show_level,
            show_path: self.show_path,
        }
    }

    /// Lays out records one after another, as `render_log` does each.
    pub fn render_batch(&mut self, records: &[(Option<&str>, &str, &str, Option<&str>, Option<u32>)]) -> (t: LogTable)
        ensures
            same_settings(*final(self), *old(self)),
            t.records@.len() == records@.len(),
            batch_spec(*old(self), last_view(old(self).last_time), records@, records@.len()) == (
                t.records@.map_values(|r: LogRecord| record_view(r)),
                last_view(final(self).last_time),
            ),
    {
        let mut out: Vec<LogRecord> = Vec::new();
        let mut i: usize = 0;
        while i < records.len()
            invariant
                i <= records@.len(),
                same_settings(*self, *old(self)),
                out@.len() == i,
                batch_spec(*old(self), last_view(old(self).last_time), records@, i as nat) == (
                    out@.map_values(|r: LogRecord| record_view(r)),
                    last_view(self.last_time),
                ),
            decreases records.len() - i,
        {
            let (t, l, m, p, n) = records[i];
            let ghost before = out@.map_values(|r: LogRecord| record_view(r));
            let ghost last0 = last_view(self.last_time);
            let r = self.render_log(t, l, m, p, n);
            let ghost rv = record_view(r);
            out.push(r);
            assert(out@.map_values(|r: LogRecord| record_view(r)) =~= before.push(rv));
            i = i + 1;
        }
        LogTable { records: out }
    }

    /// Forgets the last time shown.
    pub fn reset_time_cache(&mut self)
        ensures
            same_settings(*final(self), *old(self)),
            final(self).last_time is None,
    {
        self.last_time = None;
    }
}

/// The records laid out for the first `k` inputs, and the last time after
/// them.
pub open spec fn batch_spec(
    lr: LogRender,
    last: Option<Seq<char>>,
    records: Seq<(Option<&str>, &str, &str, Option<&str>, Option<u32>)>,
    k: nat,
) -> (Seq<RecordView>, Option<Seq<char>>)
    decreases k,
{
    if k == 0 || k > records.len() {
        (seq![], last)
    } else {
        let prev = batch_spec(lr, last, records, (k - 1) as nat);
        let r = records[k - 1];
        let step = log_step(lr, prev.1, opt_chars(r.0), r.1@, r.2@, opt_chars(r.3), r.4);
        (prev.0.push(step.0), step.1)
    }
}

impl Default for LogRender {
    fn default() -> (lr: Self)
        ensures
            lr.show_time && lr.show_level && lr.show_path,
            lr.level_width == 8,
            lr.omit_repeated_times,
            lr.last_time is None,
    {
        LogRender::new()
    }
}

/// The segments of a record, given its styles: the time and a space when
/// shown and not empty, the level and a space likewise, the message, a
/// space and the path when shown and not empty, and a newline.
pub open spec fn record_segs(r: RecordView, time_style: Style, level_style: Style, path_style: Style) -> SegLine {
    (if r.4 && r.0.len() > 0 {
        seq![(r.0, Some(time_style)), plain(seq![' '])]
    } else {
        seq![]
    }) + (if r.5 && r.1.len() > 0 {
        seq![(r.1, Some(level_style)), plain(seq![' '])]
    } else {
        seq![]
    }) + seq![(r.2, Some(empty_style()))] + (if r.6 && r.3.len() > 0 {
        seq![plain(seq![' ']), (r.3, Some(path_style))]
    } else {
        seq![]
    }) + seq![newline()]
}

impl LogRecord {
    /// The segments of the record in the given styles.
    pub fn segments(&self, time_style: &Style, level_style: &Style, path_style: &Style) -> (line: Vec<Segment>)
        ensures
            seg_views(line@) == record_segs(record_view(*self), *time_style, *level_style, *path_style),
    {
        let mut line: Vec<Segment> = Vec::new();
        if self.show_time && self.time.as_str().unicode_len() > 0 {
            line.push(Segment::styled(self.time.as_str(), time_style.clone()));
            line.push(Segment::new(" "));
        }
        if self.show_level && self.level.as_str().unicode_len() > 0 {
            line.push(Segment::styled(self.level.as_str(), level_style.clone()));
            line.push(Segment::new(" "));
        }
        line.push(Segment::styled(self.message.as_str(), LogRender::get_message_style()));
        if self.show_path && self.path.as_str().unicode_len() > 0 {
            line.push(Segment::new(" "));
            line.push(Segment::styled(self.path.as_str(), path_style.clone()));
        }
        line.push(Segment::line());
        proof {
            reveal_strlit(" ");
            assert(" "@ =~= seq![' ']);
            assert(seg_views(line@) =~= record_segs(record_view(*self), *time_style, *level_style, *path_style));
        }
        line
    }
}

impl Renderable for LogRecord {
    fn measure(&self, options: &ConsoleOptions) -> Option<crate::measure::Measurement> {
        None
    }

    open spec fn renders(&self, options: ConsoleOptions, r: RenderResult) -> bool {
        &&& r.items@.len() == 0
        &&& r.lines@.len() == 1
        &&& exists|ts: Style, ls: Style, ps: Style, e: Seq<(String, Style)>|
                colored(ts, "bright_black"@, empty_style().attributes) && colored(ps, "bright_black"@, empty_style().attributes)
                    && default_entries(e) && level_style_is(e, trim_ws(self.level@), ls)
                    && #[trigger] seg_views(r.lines@[0]@) == record_segs(record_view(*self), ts, ls, ps)
    }

    fn render(&self, options: &ConsoleOptions) -> (r: RenderResult) {
        let time_style = LogRender::get_time_style();
        let lvl = trim(self.level.as_str());
        let level_style = LogRender::get_level_style(lvl.as_str());
        let path_style = LogRender::get_path_style();
        let line = self.segments(&time_style, &level_style, &path_style);
        let mut lines: Vec<Vec<Segment>> = Vec::new();
        lines.push(line);
        RenderResult::from_lines(lines)
    }
}

/// The cells of one record in the table, given the styles: the time (empty
/// when there is none) when the time is shown, the level when it is shown,
/// the message, and the path when shown and not empty.
pub open spec fn record_cells(r: RecordView, time_style: Style, level_style: Style, path_style: Style) -> Seq<
    Seq<char>,
> {
    (if r.4 {
        seq![if r.0.len() == 0 { seq![] } else { render_spec(time_style, r.0) }]
    } else {
        seq![]
    }) + (if r.5 {
        seq![render_spec(level_style, r.1)]
    } else {
        seq![]
    }) + seq![render_spec(empty_style(), r.2)] + (if r.6 && r.3.len() > 0 {
        seq![render_spec(path_style, r.3)]
    } else {
        seq![]
    })
}

impl LogTable {
    /// The cells of record `k` in the given styles.
    pub fn cells_of(r: &LogRecord, time_style: &Style, level_style: &Style, path_style: &Style) -> (cells: Vec<Cell>)
        ensures
            cells@.map_values(|c: Cell| c.text@) == record_cells(record_view(*r), *time_style, *level_style, *path_style),
    {
        let mut cells: Vec<Cell> = Vec::new();
        if r.show_time {
            let t = if r.time.as_str().unicode_len() == 0 {
                String::new()
            } else {
                time_style.render(r.time.as_str())
            };
            cells.push(Cell::new(t.as_str()));
        }
        if r.show_level {
            cells.push(Cell::new(level_style.render(r.level.as_str()).as_str()));
        }
        cells.push(Cell::new(LogRender::get_message_style().render(r.message.as_str()).as_str()));
        if r.show_path && r.path.as_str().unicode_len() > 0 {
            cells.push(Cell::new(path_style.render(r.path.as_str()).as_str()));
        }
        assert(cells@.map_values(|c: Cell| c.text@) =~= record_cells(
            record_view(*r),
            *time_style,
            *level_style,
            *path_style,
        ));
        cells
    }

    /// The columns of the table: a time column, a level column, the
    /// message column and a path column, as the first record shows them.
    pub open spec fn heads_spec(self) -> Seq<Seq<char>> {
        if self.records@.len() == 0 {
            seq![]
        } else {
            (if self.records@[0].show_time {
                seq!["Time"@]
            } else {
                seq![]
            }) + (if self.records@[0].show_level {
                seq!["Level"@]
            } else {
                seq![]
            }) + seq!["Message"@] + (if self.records@[0].show_path {
                seq!["Path"@]
            } else {
                seq![]
            })
        }
    }

    /// The table of the records in the given styles, record `k`'s level in
    /// `level_styles[k]`: no header, no edges, one row per record.
    pub fn table_with(&self, time_style: &Style, path_style: &Style, level_styles: &Vec<Style>) -> (t: Table)
        requires
            level_styles@.len() == self.records@.len(),
        ensures
            !t.show_header && !t.show_edge && !t.show_lines,
            t.columns@.map_values(|c: Column| c.header@) == self.heads_spec(),
            t.rows@.len() == self.records@.len(),
            forall|k: int|
                0 <= k < t.rows@.len() ==> (#[trigger] t.rows@[k])@.map_values(|c: Cell| c.text@) == record_cells(
                    record_view(self.records@[k]),
                    *time_style,
                    level_styles@[k],
                    *path_style,
                ),
    {
        let mut table = Table::new();
        table.show_header = false;
        table.show_edge = false;
        table.show_lines = false;
        if self.records.len() > 0 {
            let first = &self.records[0];
            if first.show_time {
                table.add_column(Column::new("Time"));
            }
            if first.show_level {
                table.add_column(Column::new("Level"));
            }
            table.add_column(Column::new("Message"));
            if first.show_path {
                table.add_column(Column::new("Path"));
            }
        }
        assert(table.columns@.map_values(|c: Column| c.header@) =~= self.heads_spec());
        let ghost heads = table.columns@;
        let mut k: usize = 0;
        while k < self.records.len()
            invariant
                k <= self.records@.len(),
                level_styles@.len() == self.records@.len(),
                table.rows@.len() == k,
                table.columns@ == heads,
                !table.show_header && !table.show_edge && !table.show_lines,
                forall|q: int|
                    0 <= q < k ==> (#[trigger] table.rows@[q])@.map_values(|c: Cell| c.text@) == record_cells(
                        record_view(self.records@[q]),
                        *time_style,
                        level_styles@[q],
                        *path_style,
                    ),
            decreases self.records.len() - k,
        {
            let cells = LogTable::cells_of(&self.records[k], time_style, &level_styles[k], path_style);
            let ghost rows0 = table.rows@;
            table.add_row(cells);
            assert forall|q: int| 0 <= q < k implies table.rows@[q] == rows0[q] by {}
            k = k + 1;
        }
        table
    }

    /// The table of the records, each level in its style.
    pub fn table(&self) -> (t: Table)
        ensures
            !t.show_header && !t.show_edge && !t.show_lines,
            t.columns@.map_values(|c: Column| c.header@) == self.heads_spec(),
            t.rows@.len() == self.records@.len(),
    {
        let time_style = LogRender::get_time_style();
        let path_style = LogRender::get_path_style();
        let mut levels: Vec<Style> = Vec::new();
        let mut k: usize = 0;
        while k < self.records.len()
            invariant
                k <= self.records@.len(),
                levels@.len() == k,
            decreases self.records.len() - k,
        {
            let lvl = trim(self.records[k].level.as_str());
            levels.push(LogRender::get_level_style(lvl.as_str()));
            k = k + 1;
        }
        self.table_with(&time_style, &path_style, &levels)
    }
}

impl Renderable for LogTable {
    fn measure(&self, options: &ConsoleOptions) -> Option<crate::measure::Measurement> {
        None
    }

    open spec fn renders(&self, options: ConsoleOptions, r: RenderResult) -> bool {
        &&& r.items@.len() == 0
        &&& self.records@.len() == 0 ==> r.lines@.len() == 0
        &&& self.records@.len() > 0 ==> exists|t: Table|
                !t.show_header && !t.show_edge && !t.show_lines && t.columns@.map_values(|c: Column| c.header@)
                    == self.heads_spec() && t.rows@.len() == self.records@.len() && #[trigger] table_texts(t)
                    == first_texts(r.lines@)
    }

    fn render(&self, options: &ConsoleOptions) -> (r: RenderResult) {
        if self.records.len() == 0 {
            return RenderResult::new();
        }
        let t = self.table();
        t.render(options)
    }
}

} // verus!
