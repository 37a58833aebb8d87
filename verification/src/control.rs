//! Terminal control sequences: cursor movement, screen and line erasure,
//! window titles and the bell, composed as lists of escape sequences.

use vstd::prelude::*;
use crate::strutil::{push_char, push_decimal, decimal_chars, push_str, owned};

verus! {

/// Clear entire screen and move cursor to home: `\x1b[2J\x1b[H`
pub const CLEAR_HOME: &'static str = "\x1b[2J\x1b[H";
/// Clear entire screen: `\x1b[2J`
pub const CLEAR_SCREEN: &'static str = "\x1b[2J";
/// Move cursor to home: `\x1b[H`
pub const CURSOR_HOME: &'static str = "\x1b[H";
/// Show cursor: `\x1b[?25h`
pub const CURSOR_SHOW: &'static str = "\x1b[?25h";
/// Hide cursor: `\x1b[?25l`
pub const CURSOR_HIDE: &'static str = "\x1b[?25l";
/// Enter alternate screen buffer: `\x1b[?1049h`
pub const ALT_SCREEN_ENTER: &'static str = "\x1b[?1049h";
/// Exit alternate screen buffer: `\x1b[?1049l`
pub const ALT_SCREEN_EXIT: &'static str = "\x1b[?1049l";
/// Erase the current line: `\x1b[2K`
pub const ERASE_LINE: &'static str = "\x1b[2K";
/// Move cursor up one row: `\x1b[1A`
pub const CURSOR_UP: &'static str = "\x1b[1A";
/// Carriage return: `\r`
pub const CARRIAGE_RETURN: &'static str = "\r";
/// Newline: `\n`
pub const NEWLINE: &'static str = "\n";
/// Operating System Command (OSC) introducer: `\x1b]`
pub const OSC: &'static str = "\x1b]";
/// String Terminator (ST) for OSC sequences: `\x07`
pub const ST: &'static str = "\x07";


/// The escape character.
pub open spec fn esc() -> char {
    '\u{1b}'
}

/// A control sequence introducer (`ESC [`) followed by `body`.
pub open spec fn csi(body: Seq<char>) -> Seq<char> {
    seq![esc(), '['] + body
}

/// `ESC [ n letter`: a parameterised cursor or line command.
pub open spec fn csi_num(n: nat, letter: char) -> Seq<char> {
    csi(decimal_chars(n).push(letter))
}

/// A composable list of terminal escape sequences.
#[derive(Debug, Clone)]
pub struct Control {
    sequences: Vec<String>,
}

impl View for Control {
    type V = Seq<Seq<char>>;

    closed spec fn view(&self) -> Seq<Seq<char>> {
        self.sequences@.map_values(|s: String| s@)
    }
}

/// A control holding the single sequence `s`.
fn single(s: String) -> (c: Control)
    ensures
        c@ == seq![s@],
{
    let mut v: Vec<String> = Vec::new();
    v.push(s);
    let c = Control { sequences: v };
    assert(c@ =~= seq![s@]);
    c
}

/// `ESC [ n letter` as a string.
fn csi_num_string(n: u16, letter: char) -> (s: String)
    ensures
        s@ == csi_num(n as nat, letter),
{
    let mut s = String::new();
    push_char(&mut s, '\u{1b}');
    push_char(&mut s, '[');
    push_decimal(&mut s, n as u64);
    push_char(&mut s, letter);
    assert(s@ =~= csi_num(n as nat, letter));
    s
}

/// `ESC [` followed by the given characters, as a string.
fn csi_string(body: &str) -> (s: String)
    ensures
        s@ == csi(body@),
{
    let mut s = String::new();
    push_char(&mut s, '\u{1b}');
    push_char(&mut s, '[');
    push_str(&mut s, body);
    assert(s@ =~= csi(body@));
    s
}

impl Control {
    /// A control made of the given sequences, in order.
    pub fn new(sequences: &[&str]) -> (c: Self)
        ensures
            c@ == sequences@.map_values(|s: &str| s@),
    {
        let mut v: Vec<String> = Vec::new();
        let mut i: usize = 0;
        while i < sequences.len()
            invariant
                i <= sequences@.len(),
                v@.len() == i,
                forall|j: int| 0 <= j < i ==> #[trigger] v@[j]@ == sequences@[j]@,
            decreases sequences.len() - i,
        {
            let s = owned(sequences[i]);
            v.push(s);
            i = i + 1;
        }
        let c = Control { sequences: v };
        assert(c@ =~= sequences@.map_values(|s: &str| s@));
        c
    }

    /// Rings the terminal bell (`BEL`).
    pub fn bell() -> (c: Self)
        ensures
            c@ == seq![seq!['\u{7}']],
    {
        let mut s = String::new();
        push_char(&mut s, '\u{7}');
        single(s)
    }

    /// Moves the cursor to the home position (`ESC [ H`).
    pub fn home() -> (c: Self)
        ensures
            c@ == seq![csi(seq!['H'])],
    {
        let s = csi_string("H");
        proof { reveal_strlit("H"); assert("H"@ =~= seq!['H']); }
        single(s)
    }

    /// Clears the entire screen (`ESC [ 2 J`).
    pub fn clear() -> (c: Self)
        ensures
            c@ == seq![csi(seq!['2', 'J'])],
    {
        let s = csi_string("2J");
        proof { reveal_strlit("2J"); assert("2J"@ =~= seq!['2', 'J']); }
        single(s)
    }

    /// Clears the screen, then moves the cursor home.
    pub fn clear_home() -> (c: Self)
        ensures
            c@ == seq![csi(seq!['2', 'J']), csi(seq!['H'])],
    {
        let a = csi_string("2J");
        let b = csi_string("H");
        proof {
            reveal_strlit("2J"); assert("2J"@ =~= seq!['2', 'J']);
            reveal_strlit("H"); assert("H"@ =~= seq!['H']);
        }
        let mut v: Vec<String> = Vec::new();
        v.push(a);
        v.push(b);
        let c = Control { sequences: v };
        assert(c@ =~= seq![csi(seq!['2', 'J']), csi(seq!['H'])]);
        c
    }

    /// Moves the cursor up by `n` rows.
    pub fn cursor_up(n: u16) -> (c: Self)
        ensures
            c@ == seq![csi_num(n as nat, 'A')],
    {
        single(csi_num_string(n, 'A'))
    }

    /// Moves the cursor down by `n` rows.
    pub fn cursor_down(n: u16) -> (c: Self)
        ensures
            c@ == seq![csi_num(n as nat, 'B')],
    {
        single(csi_num_string(n, 'B'))
    }

    /// Moves the cursor forward by `n` columns.
    pub fn cursor_forward(n: u16) -> (c: Self)
        ensures
            c@ == seq![csi_num(n as nat, 'C')],
    {
        single(csi_num_string(n, 'C'))
    }

    /// Moves the cursor back by `n` columns.
    pub fn cursor_back(n: u16) -> (c: Self)
        ensures
            c@ == seq![csi_num(n as nat, 'D')],
    {
        single(csi_num_string(n, 'D'))
    }

    /// Moves the cursor to a 1-based `row` and `col` (`ESC [ row ; col H`).
    pub fn cursor_to(row: u16, col: u16) -> (c: Self)
        ensures
            c@ == seq![csi(decimal_chars(row as nat).push(';') + decimal_chars(col as nat).push('H'))],
    {
        let mut s = String::new();
        push_char(&mut s, '\u{1b}');
        push_char(&mut s, '[');
        push_decimal(&mut s, row as u64);
        push_char(&mut s, ';');
        push_decimal(&mut s, col as u64);
        push_char(&mut s, 'H');
        assert(s@ =~= csi(decimal_chars(row as nat).push(';') + decimal_chars(col as nat).push('H')));
        single(s)
    }

    /// Moves the cursor to a 1-based row (`ESC [ row d`).
    pub fn cursor_to_row(row: u16) -> (c: Self)
        ensures
            c@ == seq![csi_num(row as nat, 'd')],
    {
        single(csi_num_string(row, 'd'))
    }

    /// Moves the cursor to a 1-based column (`ESC [ col G`).
    pub fn cursor_to_column(col: u16) -> (c: Self)
        ensures
            c@ == seq![csi_num(col as nat, 'G')],
    {
        single(csi_num_string(col, 'G'))
    }

    /// Enters (`ESC [ ? 1049 h`) or leaves (`ESC [ ? 1049 l`) the alternate
    /// screen buffer.
    pub fn alt_screen(enable: bool) -> (c: Self)
        ensures
            c@ == seq![csi(seq!['?', '1', '0', '4', '9', if enable { 'h' } else { 'l' }])],
    {
        let s = if enable { csi_string("?1049h") } else { csi_string("?1049l") };
        proof {
            reveal_strlit("?1049h"); assert("?1049h"@ =~= seq!['?', '1', '0', '4', '9', 'h']);
            reveal_strlit("?1049l"); assert("?1049l"@ =~= seq!['?', '1', '0', '4', '9', 'l']);
        }
        single(s)
    }

    /// Shows (`ESC [ ? 25 h`) or hides (`ESC [ ? 25 l`) the cursor.
    pub fn show_cursor(show: bool) -> (c: Self)
        ensures
            c@ == seq![csi(seq!['?', '2', '5', if show { 'h' } else { 'l' }])],
    {
        let s = if show { csi_string("?25h") } else { csi_string("?25l") };
        proof {
            reveal_strlit("?25h"); assert("?25h"@ =~= seq!['?', '2', '5', 'h']);
            reveal_strlit("?25l"); assert("?25l"@ =~= seq!['?', '2', '5', 'l']);
        }
        single(s)
    }

    /// Sets the window title (`ESC ] 0 ; title BEL`).
    pub fn title(title: &str) -> (c: Self)
        ensures
            c@ == seq![seq![esc(), ']', '0', ';'] + title@ + seq!['\u{7}']],
    {
        let mut s = String::new();
        push_char(&mut s, '\u{1b}');
        push_char(&mut s, ']');
        push_char(&mut s, '0');
        push_char(&mut s, ';');
        push_str(&mut s, title);
        push_char(&mut s, '\u{7}');
        assert(s@ =~= seq![esc(), ']', '0', ';'] + title@ + seq!['\u{7}']);
        single(s)
    }

    /// Erases from the cursor to the end of the line (`ESC [ K`).
    pub fn erase_end_line() -> (c: Self)
        ensures
            c@ == seq![csi(seq!['K'])],
    {
        let s = csi_string("K");
        proof { reveal_strlit("K"); assert("K"@ =~= seq!['K']); }
        single(s)
    }

    /// Erases from the start of the line to the cursor (`ESC [ 1 K`).
    pub fn erase_start_line() -> (c: Self)
        ensures
            c@ == seq![csi(seq!['1', 'K'])],
    {
        let s = csi_string("1K");
        proof { reveal_strlit("1K"); assert("1K"@ =~= seq!['1', 'K']); }
        single(s)
    }

    /// Erases the whole current line (`ESC [ 2 K`).
    pub fn erase_line() -> (c: Self)
        ensures
            c@ == seq![csi(seq!['2', 'K'])],
    {
        let s = csi_string("2K");
        proof { reveal_strlit("2K"); assert("2K"@ =~= seq!['2', 'K']); }
        single(s)
    }

    /// Erases from the cursor to the end of the screen (`ESC [ J`).
    pub fn erase_end_screen() -> (c: Self)
        ensures
            c@ == seq![csi(seq!['J'])],
    {
        let s = csi_string("J");
        proof { reveal_strlit("J"); assert("J"@ =~= seq!['J']); }
        single(s)
    }

    /// Erases from the start of the screen to the cursor (`ESC [ 1 J`).
    pub fn erase_start_screen() -> (c: Self)
        ensures
            c@ == seq![csi(seq!['1', 'J'])],
    {
        let s = csi_string("1J");
        proof { reveal_strlit("1J"); assert("1J"@ =~= seq!['1', 'J']); }
        single(s)
    }

    /// Inserts `n` blank lines at the cursor (`ESC [ n L`).
    pub fn insert_lines(n: u16) -> (c: Self)
        ensures
            c@ == seq![csi_num(n as nat, 'L')],
    {
        single(csi_num_string(n, 'L'))
    }

    /// Deletes `n` lines at the cursor (`ESC [ n M`).
    pub fn delete_lines(n: u16) -> (c: Self)
        ensures
            c@ == seq![csi_num(n as nat, 'M')],
    {
        single(csi_num_string(n, 'M'))
    }

    /// A carriage return.
    pub fn carriage_return() -> (c: Self)
        ensures
            c@ == seq![seq!['\r']],
    {
        let mut s = String::new();
        push_char(&mut s, '\r');
        single(s)
    }

    /// A newline.
    pub fn newline() -> (c: Self)
        ensures
            c@ == seq![seq!['\n']],
    {
        let mut s = String::new();
        push_char(&mut s, '\n');
        single(s)
    }

    /// All sequences joined into one string.
    pub fn to_ansi(&self) -> (s: String)
        ensures
            s@ == self@.flatten(),
    {
        let mut out = String::new();
        let mut i: usize = 0;
        while i < self.sequences.len()
            invariant
                i <= self.sequences@.len(),
                out@ == self@.subrange(0, i as int).flatten(),
            decreases self.sequences.len() - i,
        {
            proof {
                self@.subrange(0, i as int).lemma_flatten_push(self@[i as int]);
                assert(self@.subrange(0, i as int).push(self@[i as int]) =~= self@.subrange(
                    0,
                    i + 1,
                ));
            }
            out.append(self.sequences[i].as_str());
            i = i + 1;
        }
        assert(self@.subrange(0, self@.len() as int) =~= self@);
        out
    }

    /// The individual sequences.
    pub fn sequences(&self) -> (r: &[String])
        ensures
            r@.map_values(|s: String| s@) == self@,
    {
        self.sequences.as_slice()
    }

    /// The number of sequences.
    pub fn len(&self) -> (n: usize)
        ensures
            n == self@.len(),
    {
        self.sequences.len()
    }

    /// Whether there are no sequences.
    pub fn is_empty(&self) -> (b: bool)
        ensures
            b == (self@.len() == 0),
    {
        self.sequences.len() == 0
    }
}

/// Rings the terminal bell.
pub fn control_bell() -> (c: Control)
    ensures
        c@ == seq![seq!['\u{7}']],
{
    Control::bell()
}

/// Moves the cursor to the home position.
pub fn control_home() -> (c: Control)
    ensures
        c@ == seq![csi(seq!['H'])],
{
    Control::home()
}

/// Clears the screen.
pub fn control_clear() -> (c: Control)
    ensures
        c@ == seq![csi(seq!['2', 'J'])],
{
    Control::clear()
}

/// Moves the cursor to a 1-based position.
pub fn control_move_to(row: u16, col: u16) -> (c: Control)
    ensures
        c@ == seq![csi(decimal_chars(row as nat).push(';') + decimal_chars(col as nat).push('H'))],
{
    Control::cursor_to(row, col)
}

/// Shows or hides the cursor.
pub fn control_show_cursor(show: bool) -> (c: Control)
    ensures
        c@ == seq![csi(seq!['?', '2', '5', if show { 'h' } else { 'l' }])],
{
    Control::show_cursor(show)
}

/// Sets the window title.
pub fn control_title(title: &str) -> (c: Control)
    ensures
        c@ == seq![seq![esc(), ']', '0', ';'] + title@ + seq!['\u{7}']],
{
    Control::title(title)
}

/// The characters removed by `strip_control_codes`: bell, backspace,
/// vertical tab and form feed.
pub open spec fn is_strippable_control(c: char) -> bool {
    c == '\u{7}' || c == '\u{8}' || c == '\u{b}' || c == '\u{c}'
}

/// `s` without bell, backspace, vertical-tab and form-feed characters.
pub open spec fn strip_controls(s: Seq<char>) -> Seq<char>
    decreases s.len(),
{
    if s.len() == 0 {
        seq![]
    } else if is_strippable_control(s.last()) {
        strip_controls(s.drop_last())
    } else {
        strip_controls(s.drop_last()).push(s.last())
    }
}

/// Removes bell, backspace, vertical-tab and form-feed characters.
pub fn strip_control_codes(text: &str) -> (r: String)
    ensures
        r@ == strip_controls(text@),
{
    let mut out = String::new();
    let n = text.unicode_len();
    let mut i: usize = 0;
    while i < n
        invariant
            n == text@.len(),
            i <= n,
            out@ == strip_controls(text@.subrange(0, i as int)),
        decreases n - i,
    {
        let c = text.get_char(i);
        assert(text@.subrange(0, i + 1).drop_last() =~= text@.subrange(0, i as int));
        if !(c == '\u{7}' || c == '\u{8}' || c == '\u{b}' || c == '\u{c}') {
            push_char(&mut out, c);
        }
        i = i + 1;
    }
    assert(text@.subrange(0, n as int) =~= text@);
    out
}

/// The visible escape written for one character by `escape_control_codes`.
pub open spec fn escape_control_char(c: char) -> Seq<char> {
    if c == '\u{7}' {
        seq!['\\', 'a']
    } else if c == '\u{8}' {
        seq!['\\', 'b']
    } else if c == '\u{b}' {
        seq!['\\', 'v']
    } else if c == '\u{c}' {
        seq!['\\', 'f']
    } else if c == '\r' {
        seq!['\\', 'r']
    } else if c == '\n' {
        seq!['\\', 'n']
    } else if c == '\t' {
        seq!['\\', 't']
    } else {
        seq![c]
    }
}

/// `s` with every control character replaced by its visible escape.
pub open spec fn escape_controls(s: Seq<char>) -> Seq<char>
    decreases s.len(),
{
    if s.len() == 0 {
        seq![]
    } else {
        escape_controls(s.drop_last()) + escape_control_char(s.last())
    }
}

/// Replaces bell, backspace, vertical tab, form feed, carriage return,
/// newline and tab with `\a`, `\b`, `\v`, `\f`, `\r`, `\n` and `\t`.
pub fn escape_control_codes(text: &str) -> (r: String)
    ensures
        r@ == escape_controls(text@),
{
    let mut out = String::new();
    let n = text.unicode_len();
    let mut i: usize = 0;
    while i < n
        invariant
            n == text@.len(),
            i <= n,
            out@ == escape_controls(text@.subrange(0, i as int)),
        decreases n - i,
    {
        let c = text.get_char(i);
        assert(text@.subrange(0, i + 1).drop_last() =~= text@.subrange(0, i as int));
        let esc_letter: Option<char> = if c == '\u{7}' {
            Some('a')
        } else if c == '\u{8}' {
            Some('b')
        } else if c == '\u{b}' {
            Some('v')
        } else if c == '\u{c}' {
            Some('f')
        } else if c == '\r' {
            Some('r')
        } else if c == '\n' {
            Some('n')
        } else if c == '\t' {
            Some('t')
        } else {
            None
        };
        match esc_letter {
            Some(l) => {
                push_char(&mut out, '\\');
                push_char(&mut out, l);
            },
            None => {
                push_char(&mut out, c);
            },
        }
        assert(out@ =~= escape_controls(text@.subrange(0, i + 1)));
        i = i + 1;
    }
    assert(text@.subrange(0, n as int) =~= text@);
    out
}

} // verus!
