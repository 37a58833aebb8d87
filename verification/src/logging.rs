//! Styles of log levels.

use vstd::prelude::*;
use crate::color::named_color;
use crate::console::Console;
use crate::log_render::LogRender;
use crate::markup::{markup_spec, spans_view};
use crate::strutil::{chars_of, decimal_chars, owned, push_char, push_decimal, push_str, spaces, str_eq, utf8_len};
use crate::style::{Attributes, Style, empty_style};
use crate::text::{Span, Text, appended_spans, spans_over, text_render_spec, word_matches};
use crate::theme::{bold_attrs, colored};

verus! {

/// The levels of log records, most severe first.
#[derive(Debug, Clone, Copy, PartialEq, Eq)]
pub enum LogLevel {
    Error,
    Warn,
    Info,
    Debug,
    Trace,
}

/// The methods a log message may name, highlighted in messages by default.
pub const DEFAULT_KEYWORDS: [&'static str; 8] = ["GET", "POST", "HEAD", "PUT", "DELETE", "OPTIONS", "TRACE", "PATCH"];

/// Whether `st` is the style of `level`: bold red errors, yellow
/// warnings, green information, blue debugging, bright black tracing.
pub open spec fn level_style_spec(level: LogLevel, st: Style) -> bool {
    let none = empty_style().attributes;
    match level {
        LogLevel::Error => colored(st, "red"@, bold_attrs(false)),
        LogLevel::Warn => colored(st, "yellow"@, none),
        LogLevel::Info => colored(st, "green"@, none),
        LogLevel::Debug => colored(st, "blue"@, none),
        LogLevel::Trace => colored(st, "bright_black"@, none),
    }
}

/// The style of a level.
pub fn level_style(level: LogLevel) -> (st: Style)
    ensures
        level_style_spec(level, st),
{
    match level {
        LogLevel::Error => Style::new().color(named_color("red")).bold(true),
        LogLevel::Warn => Style::new().color(named_color("yellow")),
        LogLevel::Info => Style::new().color(named_color("green")),
        LogLevel::Debug => Style::new().color(named_color("blue")),
        LogLevel::Trace => Style::new().color(named_color("bright_black")),
    }
}

/// The style of a record level.
pub fn style_level(level: LogLevel) -> (st: Style)
    ensures
        level_style_spec(level, st),
{
    level_style(level)
}

/// The number of bytes UTF-8 takes for `c`.
fn char_bytes(c: char) -> (w: usize)
    ensures
        w == crate::strutil::char_utf8_len(c),
{
    let u = c as u32;
    if u < 0x80 {
        1
    } else if u < 0x800 {
        2
    } else if u < 0x10000 {
        3
    } else {
        4
    }
}

/// The name `log` writes for a level.
pub open spec fn level_name(l: LogLevel) -> Seq<char> {
    match l {
        LogLevel::Error => "ERROR"@,
        LogLevel::Warn => "WARN"@,
        LogLevel::Info => "INFO"@,
        LogLevel::Debug => "DEBUG"@,
        LogLevel::Trace => "TRACE"@,
    }
}

/// `s` padded with spaces on the right to `w` characters.
pub open spec fn pad_right(s: Seq<char>, w: nat) -> Seq<char> {
    if s.len() < w {
        s + spaces((w - s.len()) as nat)
    } else {
        s
    }
}

/// The name of a level, padded to eight characters.
fn level_label(l: LogLevel) -> (s: String)
    ensures
        s@ == pad_right(level_name(l), 8),
{
    proof {
        reveal_strlit("ERROR   ");
        reveal_strlit("WARN    ");
        reveal_strlit("INFO    ");
        reveal_strlit("DEBUG   ");
        reveal_strlit("TRACE   ");
        reveal_strlit("ERROR");
        reveal_strlit("WARN");
        reveal_strlit("INFO");
        reveal_strlit("DEBUG");
        reveal_strlit("TRACE");
    }
    let r = match l {
        LogLevel::Error => owned("ERROR   "),
        LogLevel::Warn => owned("WARN    "),
        LogLevel::Info => owned("INFO    "),
        LogLevel::Debug => owned("DEBUG   "),
        LogLevel::Trace => owned("TRACE   "),
    };
    assert(r@ =~= pad_right(level_name(l), 8));
    r
}

/// The keywords highlighted when none are given, as character sequences.
pub open spec fn default_keyword_seqs() -> Seq<Seq<char>> {
    seq!["GET"@, "POST"@, "HEAD"@, "PUT"@, "DELETE"@, "OPTIONS"@, "TRACE"@, "PATCH"@]
}

/// `DEFAULT_KEYWORDS` as owned strings.
fn default_keyword_list() -> (v: Vec<String>)
    ensures
        v@.map_values(|w: String| w@) == default_keyword_seqs(),
{
    let mut v: Vec<String> = Vec::new();
    let mut i: usize = 0;
    while i < 8
        invariant
            i <= 8,
            v@.len() == i,
            forall|k: int| 0 <= k < i ==> (#[trigger] v@[k])@ == DEFAULT_KEYWORDS@[k]@,
        decreases 8 - i,
    {
        v.push(owned(DEFAULT_KEYWORDS[i]));
        i = i + 1;
    }
    proof {
        reveal_strlit("GET");
        reveal_strlit("POST");
        reveal_strlit("HEAD");
        reveal_strlit("PUT");
        reveal_strlit("DELETE");
        reveal_strlit("OPTIONS");
        reveal_strlit("TRACE");
        reveal_strlit("PATCH");
    }
    assert(v@.map_values(|w: String| w@) =~= default_keyword_seqs());
    v
}

/// The style of highlighted keywords: bold yellow.
pub fn keyword_style() -> (st: Style)
    ensures
        colored(st, "yellow"@, bold_attrs(false)),
{
    Style::new().color(named_color("yellow")).bold(true)
}

/// A dim style.
pub open spec fn dim_only() -> Style {
    Style { attributes: Attributes { dim: Some(true), ..empty_style().attributes }, ..empty_style() }
}

/// A dim italic style.
pub open spec fn dim_italic() -> Style {
    Style { attributes: Attributes { dim: Some(true), italic: Some(true), ..empty_style().attributes }, ..empty_style() }
}

/// The text and spans after appending `s` in `st`, as `Text::append_styled`
/// does.
pub open spec fn add_styled(p: (Seq<char>, Seq<Span>), s: Seq<char>, st: Style) -> (Seq<char>, Seq<Span>) {
    (p.0 + s, if st.is_null_spec() || s.len() == 0 {
        p.1
    } else {
        p.1.push(Span { start: p.0.len() as usize, end: (p.0.len() + s.len()) as usize, style: st })
    })
}

/// The text and spans after appending text `t`, as `Text::append_text` does.
pub open spec fn add_text(p: (Seq<char>, Seq<Span>), t: Text) -> (Seq<char>, Seq<Span>) {
    (p.0 + t.plain@, appended_spans(p.1, p.0.len(), t))
}

/// `file:line`.
pub open spec fn location_spec(file: Seq<char>, line: u32) -> Seq<char> {
    file + seq![':'] + decimal_chars(line as nat)
}

/// The location as shown: as a terminal hyperlink to the file when links
/// are on.
pub open spec fn shown_location(link: bool, file: Seq<char>, line: u32) -> Seq<char> {
    if link {
        "\x1b]8;;file://"@ + file + seq!['\x1b', '\\'] + location_spec(file, line) + "\x1b]8;;"@ + seq!['\x1b', '\\']
    } else {
        location_spec(file, line)
    }
}

/// The time as shown when it is `now`: bracketed, or blanked (as many
/// spaces as it has bytes) when the last time shown was the same; the time
/// then last shown.
pub open spec fn display_time_spec(h: RichHandler, now: Seq<char>) -> (Seq<char>, Option<Seq<char>>) {
    let ts = seq!['['] + now + seq![']'];
    let last = match h.last_time {
        Some(l) => Some(l@),
        None => None,
    };
    if h.show_time && h.omit_repeated_times {
        if last == Some(ts) {
            (spaces(utf8_len(ts)), last)
        } else {
            (ts, Some(ts))
        }
    } else if h.show_time {
        (ts, last)
    } else {
        (seq![], last)
    }
}

/// The keywords of a handler.
pub open spec fn keyword_seqs(h: RichHandler) -> Seq<Seq<char>> {
    match h.keywords {
        Some(v) => v@.map_values(|w: String| w@),
        None => default_keyword_seqs(),
    }
}

/// Whether `t` is the styled label of `level`.
pub open spec fn level_text_ok(t: Text, level: LogLevel) -> bool {
    &&& t.plain@ == pad_right(level_name(level), 8)
    &&& t.spans@.len() == 0
    &&& level_style_spec(level, t.style)
}

/// Whether `t` is the message text of `h` for `message`: read as markup
/// when markup is on, then each keyword occurrence in the keyword style.
pub open spec fn message_text_ok(h: RichHandler, t: Text, message: Seq<char>) -> bool {
    let kw = keyword_seqs(h);
    let found = if kw.len() > 0 { word_matches(t.plain@, kw, 0) } else { seq![] };
    let k = t.spans@.len() - found.len();
    &&& t.spans@.len() >= found.len()
    &&& t.style == empty_style()
    &&& exists|st: Style| #[trigger] colored(st, "yellow"@, bold_attrs(false)) && t.spans@.skip(k) == spans_over(found, st)
    &&& h.markup ==> (t.plain@, spans_view(t.spans@.take(k))) == markup_spec(message)
    &&& !h.markup ==> t.plain@ == message && k == 0
}

/// The text and spans of a log line: the shown time in dim and a space,
/// the level label and a space, the message, and a space and the location
/// in dim italic, each part as its flag says.
pub open spec fn line_parts(
    h: RichHandler,
    shown: Seq<char>,
    lt: Text,
    mt: Text,
    file: Option<Seq<char>>,
    line: Option<u32>,
) -> (Seq<char>, Seq<Span>) {
    let p0 = (Seq::<char>::empty(), Seq::<Span>::empty());
    let p1 = if h.show_time && shown.len() > 0 {
        add_styled(add_styled(p0, shown, dim_only()), seq![' '], empty_style())
    } else {
        p0
    };
    let p2 = if h.show_level {
        add_styled(add_text(p1, lt), seq![' '], empty_style())
    } else {
        p1
    };
    let p3 = add_text(p2, mt);
    if h.show_path && file is Some && line is Some {
        add_styled(add_styled(p3, seq![' '], empty_style()), shown_location(h.enable_link_path, file->0, line->0), dim_italic())
    } else {
        p3
    }
}

/// Whether `r` is the log line handler `h` writes for a record with the
/// given time (as shown), level, message and location.
pub open spec fn record_line(
    h: RichHandler,
    shown: Seq<char>,
    level: LogLevel,
    message: Seq<char>,
    file: Option<Seq<char>>,
    line: Option<u32>,
    r: Seq<char>,
) -> bool {
    exists|lt: Text, mt: Text, t: Text|
        level_text_ok(lt, level) && message_text_ok(h, mt, message) && t.style == empty_style() && (
        t.plain@,
        t.spans@,
    ) == line_parts(h, shown, lt, mt, file, line) && r == text_render_spec(t)
}

/// The view of an optional string.
pub open spec fn opt_seq(o: Option<&str>) -> Option<Seq<char>> {
    match o {
        Some(f) => Some(f@),
        None => None,
    }
}

/// The characters of an error report: the error's `Debug` text, then each
/// cause after a new line and `Caused by: `.
pub open spec fn error_plain(debug: Seq<char>, causes: Seq<Seq<char>>) -> Seq<char>
    decreases causes.len(),
{
    if causes.len() == 0 {
        debug
    } else {
        error_plain(debug, causes.drop_last()) + "\nCaused by: "@ + causes.last()
    }
}

/// A handler that writes log records as styled lines: time, level, message
/// and location.
#[derive(Debug)]
pub struct RichHandler {
    /// Where the lines are written.
    pub console: Console,
    /// Whether the time is shown.
    pub show_time: bool,
    /// Whether the level is shown.
    pub show_level: bool,
    /// Whether the location is shown.
    pub show_path: bool,
    /// Whether the location is a terminal hyperlink.
    pub enable_link_path: bool,
    /// Whether messages are read as markup.
    pub markup: bool,
    /// Whether a time equal to the last one shown is blanked.
    pub omit_repeated_times: bool,
    /// The layout settings of the columns.
    pub log_render: LogRender,
    /// The keywords to highlight; the default ones when none.
    pub keywords: Option<Vec<String>>,
    /// Whether errors get tracebacks.
    pub rich_tracebacks: bool,
    /// The width of tracebacks.
    pub tracebacks_width: Option<usize>,
    /// The width of code in tracebacks.
    pub tracebacks_code_width: usize,
    /// Lines of context around traceback lines.
    pub tracebacks_extra_lines: usize,
    /// The theme of traceback code.
    pub tracebacks_theme: Option<String>,
    /// Whether traceback lines wrap.
    pub tracebacks_word_wrap: bool,
    /// Whether tracebacks show local variables.
    pub tracebacks_show_locals: bool,
    /// Most frames in a traceback.
    pub tracebacks_max_frames: usize,
    /// Most items shown of a container among the locals.
    pub locals_max_length: usize,
    /// Most characters shown of a string among the locals.
    pub locals_max_string: usize,
    /// The last time shown.
    pub last_time: Option<String>,
}

/// The current local time as `HH:MM:SS` (chrono's `Local::now()` formatted
/// with `%H:%M:%S`). It depends on the clock, so nothing is stated of it.
#[verifier::external_body]
pub(crate) fn local_time_hms() -> (s: String) {
    chrono::Local::now().format("%H:%M:%S").to_string()
}

impl RichHandler {
    /// A handler writing to `console`: time, level and location shown,
    /// repeated times blanked, the default keywords, tracebacks off.
    pub fn with_console(console: Console) -> (h: Self)
        ensures
            h.console == console,
            h.show_time && h.show_level && h.show_path,
            !h.enable_link_path && !h.markup && h.omit_repeated_times,
            h.keywords is None && h.last_time is None,
            !h.rich_tracebacks && h.tracebacks_width is None,
            h.tracebacks_code_width == 88 && h.tracebacks_extra_lines == 3,
            h.tracebacks_theme is None && h.tracebacks_word_wrap && !h.tracebacks_show_locals,
            h.tracebacks_max_frames == 100 && h.locals_max_length == 10 && h.locals_max_string == 80,
    {
        RichHandler {
            console,
            show_time: true,
            show_level: true,
            show_path: true,
            enable_link_path: false,
            markup: false,
            omit_repeated_times: true,
            log_render: LogRender::new().show_time(true).show_level(true).show_path(true),
            keywords: None,
            rich_tracebacks: false,
            tracebacks_width: None,
            tracebacks_code_width: 88,
            tracebacks_extra_lines: 3,
            tracebacks_theme: None,
            tracebacks_word_wrap: true,
            tracebacks_show_locals: false,
            tracebacks_max_frames: 100,
            locals_max_length: 10,
            locals_max_string: 80,
            last_time: None,
        }
    }

    /// A handler writing to a console that collects its output.
    pub fn new() -> (h: Self)
        ensures
            h.show_time && h.show_level && h.show_path,
            !h.enable_link_path && !h.markup && h.omit_repeated_times,
            h.keywords is None && h.last_time is None,
            !h.console.quiet && h.console.capture_buf is None && h.console.output@.len() == 0,
    {
        RichHandler::with_console(Console::with_file())
    }

    /// The handler showing the time, or not.
    pub fn show_time(self, value: bool) -> (h: Self)
        ensures
            h == (RichHandler { show_time: value, log_render: LogRender { show_time: value, ..self.log_render }, ..self }),
    {
        let lr = self.log_render.show_time(value);
        RichHandler { show_time: value, log_render: lr, ..self }
    }

    /// The handler showing the level, or not.
    pub fn show_level(self, value: bool) -> (h: Self)
        ensures
            h == (RichHandler { show_level: value, log_render: LogRender { show_level: value, ..self.log_render }, ..self }),
    {
        let lr = self.log_render.show_level(value);
        RichHandler { show_level: value, log_render: lr, ..self }
    }

    /// The handler showing the location, or not.
    pub fn show_path(self, value: bool) -> (h: Self)
        ensures
            h == (RichHandler { show_path: value, log_render: LogRender { show_path: value, ..self.log_render }, ..self }),
    {
        let lr = self.log_render.show_path(value);
        RichHandler { show_path: value, log_render: lr, ..self }
    }

    /// The handler linking locations, or not.
    pub fn enable_link_path(self, value: bool) -> (h: Self)
        ensures
            h == (RichHandler { enable_link_path: value, ..self }),
    {
        RichHandler { enable_link_path: value, ..self }
    }

    /// The handler reading messages as markup, or not.
    pub fn markup(self, value: bool) -> (h: Self)
        ensures
            h == (RichHandler { markup: value, ..self }),
    {
        RichHandler { markup: value, ..self }
    }

    /// The handler blanking repeated times, or not.
    pub fn omit_repeated_times(self, value: bool) -> (h: Self)
        ensures
            h == (RichHandler { omit_repeated_times: value, ..self }),
    {
        RichHandler { omit_repeated_times: value, ..self }
    }

    /// The handler highlighting `keywords`.
    pub fn keywords(self, keywords: Vec<String>) -> (h: Self)
        ensures
            h == (RichHandler { keywords: Some(keywords), ..self }),
    {
        RichHandler { keywords: Some(keywords), ..self }
    }

    /// The handler with tracebacks for errors, or not.
    pub fn rich_tracebacks(self, value: bool) -> (h: Self)
        ensures
            h == (RichHandler { rich_tracebacks: value, ..self }),
    {
        RichHandler { rich_tracebacks: value, ..self }
    }

    /// The handler with tracebacks `width` wide.
    pub fn tracebacks_width(self, width: usize) -> (h: Self)
        ensures
            h == (RichHandler { tracebacks_width: Some(width), ..self }),
    {
        RichHandler { tracebacks_width: Some(width), ..self }
    }

    /// The handler with traceback code `width` wide.
    pub fn tracebacks_code_width(self, width: usize) -> (h: Self)
        ensures
            h == (RichHandler { tracebacks_code_width: width, ..self }),
    {
        RichHandler { tracebacks_code_width: width, ..self }
    }

    /// The handler with `lines` lines of traceback context.
    pub fn tracebacks_extra_lines(self, lines: usize) -> (h: Self)
        ensures
            h == (RichHandler { tracebacks_extra_lines: lines, ..self }),
    {
        RichHandler { tracebacks_extra_lines: lines, ..self }
    }

    /// The handler with traceback code in `theme`.
    pub fn tracebacks_theme(self, theme: &str) -> (h: Self)
        ensures
            h.tracebacks_theme matches Some(t) && t@ == theme@,
            h.keywords == self.keywords && h.markup == self.markup && h.show_time == self.show_time,
    {
        RichHandler { tracebacks_theme: Some(owned(theme)), ..self }
    }

    /// The handler wrapping traceback lines, or not.
    pub fn tracebacks_word_wrap(self, value: bool) -> (h: Self)
        ensures
            h == (RichHandler { tracebacks_word_wrap: value, ..self }),
    {
        RichHandler { tracebacks_word_wrap: value, ..self }
    }

    /// The handler showing locals in tracebacks, or not.
    pub fn tracebacks_show_locals(self, value: bool) -> (h: Self)
        ensures
            h == (RichHandler { tracebacks_show_locals: value, ..self }),
    {
        RichHandler { tracebacks_show_locals: value, ..self }
    }

    /// The handler showing at most `max` traceback frames.
    pub fn tracebacks_max_frames(self, max: usize) -> (h: Self)
        ensures
            h == (RichHandler { tracebacks_max_frames: max, ..self }),
    {
        RichHandler { tracebacks_max_frames: max, ..self }
    }

    /// The handler showing at most `max` items of a container among locals.
    pub fn locals_max_length(self, max: usize) -> (h: Self)
        ensures
            h == (RichHandler { locals_max_length: max, ..self }),
    {
        RichHandler { locals_max_length: max, ..self }
    }

    /// The handler showing at most `max` characters of a string among locals.
    pub fn locals_max_string(self, max: usize) -> (h: Self)
        ensures
            h == (RichHandler { locals_max_string: max, ..self }),
    {
        RichHandler { locals_max_string: max, ..self }
    }

    /// The label of `level`: its name padded to eight, in its style.
    pub fn get_level_text(&self, level: LogLevel) -> (t: Text)
        ensures
            level_text_ok(t, level),
    {
        let l = level;
        Text::styled(level_label(l).as_str(), level_style(l))
    }

    /// The keywords to highlight.
    fn keyword_list(&self) -> (v: Vec<String>)
        ensures
            v@.map_values(|w: String| w@) == keyword_seqs(*self),
    {
        match &self.keywords {
            Some(k) => {
                let mut v: Vec<String> = Vec::new();
                let mut i: usize = 0;
                while i < k.len()
                    invariant
                        i <= k@.len(),
                        v@.map_values(|w: String| w@) == k@.map_values(|w: String| w@).take(i as int),
                    decreases k.len() - i,
                {
                    let ghost before = v@;
                    let w = k[i].clone();
                    v.push(w);
                    assert(v@.map_values(|w: String| w@) =~= before.map_values(|w: String| w@).push(k@[i as int]@));
                    i = i + 1;
                    assert(k@.map_values(|w: String| w@).take(i as int) =~= k@.map_values(|w: String| w@).take(i - 1).push(k@[i - 1]@));
                }
                assert(k@.map_values(|w: String| w@).take(k@.len() as int) =~= k@.map_values(|w: String| w@));
                v
            },
            None => default_keyword_list(),
        }
    }

    /// The message as a text: read as markup when markup is on, with every
    /// keyword in bold yellow.
    pub fn render_message(&self, message: &str) -> (t: Text)
        ensures
            message_text_ok(*self, t, message@),
    {
        let mut text = if self.markup {
            crate::markup::render(message)
        } else {
            Text::new(message)
        };
        let ghost base = text.spans@;
        let kws = self.keyword_list();
        let st = keyword_style();
        if kws.len() > 0 {
            text.highlight_words(&kws, st);
        }
        proof {
            let kw = keyword_seqs(*self);
            let found = if kw.len() > 0 { word_matches(text.plain@, kw, 0) } else { seq![] };
            assert(spans_over(found, st).len() == found.len());
            assert(text.spans@ =~= base + spans_over(found, st));
            assert(text.spans@.skip(base.len() as int) =~= spans_over(found, st));
            assert(text.spans@.take(base.len() as int) =~= base);
            assert(colored(st, "yellow"@, bold_attrs(false)));
        }
        text
    }

    /// The time to show for `now`, remembering it as the last time shown
    /// when it is shown in full.
    fn shown_time(&mut self, now: &str) -> (shown: String)
        ensures
            ({
                let (sh, last) = display_time_spec(*old(self), now@);
                &&& shown@ == sh
                &&& match final(self).last_time {
                    Some(l) => last == Some(l@),
                    None => last is None,
                }
            }),
            *final(self) == (RichHandler { last_time: final(self).last_time, ..*old(self) }),
    {
        let mut ts = String::new();
        push_char(&mut ts, '[');
        push_str(&mut ts, now);
        push_char(&mut ts, ']');
        assert(ts@ =~= seq!['['] + now@ + seq![']']);
        if self.show_time && self.omit_repeated_times {
            let same = match &self.last_time {
                Some(l) => str_eq(l.as_str(), ts.as_str()),
                None => false,
            };
            assert(same == (match self.last_time {
                Some(l) => Some(l@),
                None => None,
            } == Some(ts@)));
            if same {
                let cs = chars_of(ts.as_str());
                let mut blank = String::new();
                let mut i: usize = 0;
                while i < cs.len()
                    invariant
                        i <= cs@.len(),
                        blank@ == spaces(utf8_len(cs@.take(i as int))),
                    decreases cs.len() - i,
                {
                    let w = char_bytes(cs[i]);
                    let mut k: usize = 0;
                    let ghost b0 = blank@;
                    while k < w
                        invariant
                            k <= w,
                            blank@ == b0 + spaces(k as nat),
                        decreases w - k,
                    {
                        push_char(&mut blank, ' ');
                        k = k + 1;
                        assert(blank@ =~= b0 + spaces(k as nat));
                    }
                    assert(cs@.take(i + 1).drop_last() =~= cs@.take(i as int));
                    i = i + 1;
                    assert(blank@ =~= spaces(utf8_len(cs@.take(i as int))));
                }
                assert(cs@.take(cs@.len() as int) =~= cs@);
                blank
            } else {
                self.last_time = Some(ts.clone());
                ts
            }
        } else if self.show_time {
            ts
        } else {
            String::new()
        }
    }

    /// The line of a record: the shown time, the level label, the message
    /// text and the location, each as the handler's flags say.
    fn compose_line(&self, shown: &str, lt: &Text, mt: &Text, file: Option<&str>, line: Option<u32>) -> (t: Text)
        ensures
            t.style == empty_style(),
            (t.plain@, t.spans@) == line_parts(
                *self,
                shown@,
                *lt,
                *mt,
                match file {
                    Some(f) => Some(f@),
                    None => None,
                },
                line,
            ),
    {
        let mut text = Text::new("");
        proof {
            reveal_strlit("");
            reveal_strlit(" ");
        }
        let ghost fv: Option<Seq<char>> = match file {
            Some(f) => Some(f@),
            None => None,
        };
        let ghost p0 = (Seq::<char>::empty(), Seq::<Span>::empty());
        assert((text.plain@, text.spans@) == p0);
        if self.show_time && shown.unicode_len() > 0 {
            let ghost q = (text.plain@, text.spans@);
            text.append_styled(shown, Style::new().dim(true));
            assert(text.spans@ =~= add_styled(q, shown@, dim_only()).1);
            let ghost q2 = (text.plain@, text.spans@);
            text.append_styled(" ", Style::new());
            assert(text.spans@ =~= add_styled(q2, seq![' '], empty_style()).1);
            assert(text.plain@ =~= add_styled(q2, seq![' '], empty_style()).0);
        }
        let ghost p1 = (text.plain@, text.spans@);
        if self.show_level {
            text.append_text(lt);
            let ghost q2 = (text.plain@, text.spans@);
            assert(q2 == add_text(p1, *lt));
            text.append_styled(" ", Style::new());
            assert(text.spans@ =~= add_styled(q2, seq![' '], empty_style()).1);
            assert(text.plain@ =~= add_styled(q2, seq![' '], empty_style()).0);
        }
        let ghost p2 = (text.plain@, text.spans@);
        text.append_text(mt);
        let ghost p3 = (text.plain@, text.spans@);
        assert(p3 == add_text(p2, *mt));
        if self.show_path {
            match (file, line) {
                (Some(f), Some(l)) => {
                    text.append_styled(" ", Style::new());
                    assert(text.spans@ =~= add_styled(p3, seq![' '], empty_style()).1);
                    assert(text.plain@ =~= add_styled(p3, seq![' '], empty_style()).0);
                    let ghost q4 = (text.plain@, text.spans@);
                    let mut loc = owned(f);
                    push_char(&mut loc, ':');
                    push_decimal(&mut loc, l as u64);
                    let ghost shownloc = shown_location(self.enable_link_path, f@, l);
                    if self.enable_link_path {
                        let mut link = owned("\x1b]8;;file://");
                        push_str(&mut link, f);
                        push_char(&mut link, '\x1b');
                        push_char(&mut link, '\\');
                        push_str(&mut link, loc.as_str());
                        push_str(&mut link, "\x1b]8;;");
                        push_char(&mut link, '\x1b');
                        push_char(&mut link, '\\');
                        proof {
                            reveal_strlit("\x1b]8;;file://");
                            reveal_strlit("\x1b]8;;");
                        }
                        assert(link@ =~= shownloc);
                        text.append_styled(link.as_str(), Style::new().dim(true).italic(true));
                    } else {
                        assert(loc@ =~= shownloc);
                        text.append_styled(loc.as_str(), Style::new().dim(true).italic(true));
                    }
                    assert(text.spans@ =~= add_styled(q4, shownloc, dim_italic()).1);
                    assert(text.plain@ =~= add_styled(q4, shownloc, dim_italic()).0);
                },
                _ => {},
            }
        }
        text
    }

    /// The log line for a record at time `now` (`HH:MM:SS`), remembering the
    /// time shown.
    #[verifier::rlimit(40)]
    pub fn render_at(
        &mut self,
        now: &str,
        level: LogLevel,
        message: &str,
        module: Option<&str>,
        file: Option<&str>,
        line: Option<u32>,
    ) -> (r: String)
        ensures
            ({
                let (shown, last) = display_time_spec(*old(self), now@);
                &&& match final(self).last_time {
                    Some(l) => last == Some(l@),
                    None => last is None,
                }
                &&& record_line(*old(self), shown, level, message@, opt_seq(file), line, r@)
            }),
            *final(self) == (RichHandler { last_time: final(self).last_time, ..*old(self) }),
    {
        let ghost h0 = *self;
        let lt = self.get_level_text(level);
        let mt = self.render_message(message);
        let shown = self.shown_time(now);
        let t = self.compose_line(shown.as_str(), &lt, &mt, file, line);
        let ghost fv = opt_seq(file);
        assert(line_parts(*self, shown@, lt, mt, fv, line) == line_parts(h0, shown@, lt, mt, fv, line));
        let r = t.render();
        assert(level_text_ok(lt, level) && message_text_ok(h0, mt, message@) && t.style == empty_style()
            && (t.plain@, t.spans@) == line_parts(h0, display_time_spec(h0, now@).0, lt, mt, fv, line) && r@
            == text_render_spec(t));
        r
    }

    /// The log line for a record at the current local time.
    pub fn render(
        &mut self,
        level: LogLevel,
        message: &str,
        module: Option<&str>,
        file: Option<&str>,
        line: Option<u32>,
    ) -> (r: String)
        ensures
            exists|now: Seq<char>|
                #![trigger display_time_spec(*old(self), now)]
                record_line(*old(self), display_time_spec(*old(self), now).0, level, message@, opt_seq(file), line, r@),
            *final(self) == (RichHandler { last_time: final(self).last_time, ..*old(self) }),
    {
        let now = local_time_hms();
        self.render_at(now.as_str(), level, message, module, file, line)
    }

    /// Writes the line of a record at time `now`, and a newline, to the
    /// console.
    pub fn emit_at(
        &mut self,
        now: &str,
        level: LogLevel,
        message: &str,
        module: Option<&str>,
        file: Option<&str>,
        line: Option<u32>,
    )
        ensures
            exists|r: Seq<char>|
                record_line(*old(self), display_time_spec(*old(self), now@).0, level, message@, opt_seq(file), line, r)
                    && crate::console::wrote(old(self).console, final(self).console, r + seq!['\n']),
            crate::console::same_settings(old(self).console, final(self).console),
    {
        let formatted = self.render_at(now, level, message, module, file, line);
        let ghost r = formatted@;
        let mut out = formatted;
        push_char(&mut out, '\n');
        assert(out@ == r + seq!['\n']);
        self.console.write_str(out.as_str());
        assert(record_line(*old(self), display_time_spec(*old(self), now@).0, level, message@, opt_seq(file), line, r));
    }

    /// Writes the line of a record at the current local time, and a newline,
    /// to the console.
    pub fn emit(&mut self, level: LogLevel, message: &str, module: Option<&str>, file: Option<&str>, line: Option<u32>)
        ensures
            exists|now: Seq<char>, r: Seq<char>|
                #![trigger display_time_spec(*old(self), now), record_line(*old(self), display_time_spec(*old(self), now).0, level, message@, opt_seq(file), line, r)]
                record_line(*old(self), display_time_spec(*old(self), now).0, level, message@, opt_seq(file), line, r)
                    && crate::console::wrote(old(self).console, final(self).console, r + seq!['\n']),
            crate::console::same_settings(old(self).console, final(self).console),
    {
        let now = local_time_hms();
        self.emit_at(now.as_str(), level, message, module, file, line);
    }

    /// Writes the line of a record, then the error's `Debug` text in red and
    /// each cause in its chain, after `Caused by: `, in yellow.
    pub fn emit_error(
        &mut self,
        level: LogLevel,
        message: &str,
        module: Option<&str>,
        file: Option<&str>,
        line: Option<u32>,
        error_debug: &str,
        causes: &Vec<String>,
    )
        ensures
            exists|now: Seq<char>, r: Seq<char>, et: Text|
                #![trigger display_time_spec(*old(self), now), text_render_spec(et), record_line(*old(self), display_time_spec(*old(self), now).0, level, message@, opt_seq(file), line, r)]
                record_line(*old(self), display_time_spec(*old(self), now).0, level, message@, opt_seq(file), line, r)
                    && et.plain@ == error_plain(error_debug@, causes@.map_values(|c: String| c@)) && et.style == empty_style()
                    && crate::console::wrote(old(self).console, final(self).console, r + seq!['\n'] + text_render_spec(et) + seq!['\n']),
            crate::console::same_settings(old(self).console, final(self).console),
    {
        let formatted = self.render(level, message, module, file, line);
        let ghost h1 = *self;
        let mut et = Text::new("");
        proof {
            reveal_strlit("");
            reveal_strlit("\nCaused by: ");
        }
        et.append_styled(error_debug, Style::new().color(named_color("red")));
        let ghost cv = causes@.map_values(|c: String| c@);
        assert(et.plain@ =~= error_plain(error_debug@, cv.take(0)));
        let mut i: usize = 0;
        while i < causes.len()
            invariant
                i <= causes@.len(),
                cv == causes@.map_values(|c: String| c@),
                et.plain@ == error_plain(error_debug@, cv.take(i as int)),
                et.style == empty_style(),
            decreases causes.len() - i,
        {
            et.append("\nCaused by: ");
            et.append_styled(causes[i].as_str(), Style::new().color(named_color("yellow")));
            i = i + 1;
            assert(cv.take(i as int).drop_last() =~= cv.take(i - 1));
            assert(et.plain@ =~= error_plain(error_debug@, cv.take(i as int)));
        }
        assert(cv.take(causes@.len() as int) =~= cv);
        let ghost r = formatted@;
        let mut out = formatted;
        push_char(&mut out, '\n');
        let er = et.render();
        push_str(&mut out, er.as_str());
        push_char(&mut out, '\n');
        assert(out@ =~= r + seq!['\n'] + text_render_spec(et) + seq!['\n']);
        self.console.write_str(out.as_str());
    }
}

impl Default for RichHandler {
    fn default() -> (h: Self)
        ensures
            h.show_time && h.show_level && h.show_path,
            h.keywords is None && h.last_time is None,
    {
        RichHandler::new()
    }
}

} // verus!
