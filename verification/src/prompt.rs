//! Prompts for input: the prompt texts, and what an answer means. Reading
//! the answer and writing the prompt are left to the caller.

use vstd::prelude::*;
use crate::console::Console;
use crate::strutil::{chars_of, decimal_chars, decimal_string, join_strings, join_with, owned, push_char, push_decimal, push_str, str_eq, to_lowercase, unicode_lowercase, views};
use crate::style::{Style, sgr_of};
use crate::theme::{Theme, default_entries, default_theme, lookup};
use crate::color::{all_digits, digits_value};

verus! {

#[verifier::external_type_specification]
#[verifier::external_body]
pub struct ExIoError(std::io::Error);

/// Why a prompt failed.
#[derive(Debug)]
pub enum PromptError {
    /// The answer was not acceptable.
    InvalidResponse(String),
    /// Reading or writing failed.
    IOError(std::io::Error),
    /// The user gave up (end of input, or escape).
    Cancelled,
}

impl PromptError {
    /// The message of the error: the reason given, `I/O error: ` and the
    /// I/O error's message, or `cancelled`.
    pub fn to_string(&self) -> (s: String)
        ensures
            self matches PromptError::InvalidResponse(m) ==> s@ == m@,
            self is Cancelled ==> s@ == "cancelled"@,
            self is IOError ==> s@.len() >= 11 && s@.take(11) == "I/O error: "@,
    {
        match self {
            PromptError::InvalidResponse(m) => m.clone(),
            PromptError::IOError(e) => {
                let mut s = owned("I/O error: ");
                let m = io_error_message(e);
                push_str(&mut s, m.as_str());
                proof {
                    reveal_strlit("I/O error: ");
                    assert(s@.take(11) =~= "I/O error: "@);
                }
                s
            },
            PromptError::Cancelled => owned("cancelled"),
        }
    }

    /// The error this one stands on: the I/O error, for an I/O failure.
    pub fn source(&self) -> (r: Option<&std::io::Error>)
        ensures
            r is Some <==> self is IOError,
            self matches PromptError::IOError(e) ==> r matches Some(x) && *x == e,
    {
        match self {
            PromptError::IOError(e) => Some(e),
            _ => None,
        }
    }
}

impl From<std::io::Error> for PromptError {
    fn from(e: std::io::Error) -> (r: Self)
        ensures
            r == PromptError::IOError(e),
    {
        PromptError::IOError(e)
    }
}

impl vstd::std_specs::convert::FromSpecImpl<std::io::Error> for PromptError {
    open spec fn obeys_from_spec() -> bool {
        true
    }

    open spec fn from_spec(e: std::io::Error) -> Self {
        PromptError::IOError(e)
    }
}

/// The message of an I/O error, as its `Display` writes it.
#[verifier::external_body]
fn io_error_message(e: &std::io::Error) -> (s: String) {
    format!("{}", e)
}

/// `text` between the escape sequence `ESC [ a m` and the reset sequence,
/// or unchanged when `a` is empty.
pub open spec fn wrap_codes(a: Seq<char>, text: Seq<char>) -> Seq<char> {
    if a.len() == 0 {
        text
    } else {
        seq!['\x1b', '['] + a + seq!['m'] + text + seq!['\x1b', '[', '0', 'm']
    }
}

/// `text` in the theme style `name` of the entries `e`, or unchanged when
/// there is no such style.
pub open spec fn theme_style_spec(e: Seq<(String, Style)>, text: Seq<char>, name: Seq<char>) -> Seq<char> {
    match lookup(e, name) {
        Some(st) => wrap_codes(sgr_of(st), text),
        None => text,
    }
}

/// `text` wrapped in the escape codes of `style`.
pub fn apply_raw_style(text: &str, style: &Style) -> (r: String)
    ensures
        r@ == wrap_codes(sgr_of(*style), text@),
{
    let a = style.to_ansi();
    if a.unicode_len() == 0 {
        return owned(text);
    }
    let mut r = String::new();
    push_char(&mut r, '\x1b');
    push_char(&mut r, '[');
    push_str(&mut r, a.as_str());
    push_char(&mut r, 'm');
    push_str(&mut r, text);
    push_char(&mut r, '\x1b');
    push_char(&mut r, '[');
    push_char(&mut r, '0');
    push_char(&mut r, 'm');
    assert(r@ =~= wrap_codes(sgr_of(*style), text@));
    r
}

/// `text` in the style called `name` in `theme`.
fn style_in(theme: &Theme, text: &str, name: &str) -> (r: String)
    ensures
        r@ == theme_style_spec(theme.styles@, text@, name@),
{
    match theme.get(name) {
        Some(st) => apply_raw_style(text, &st),
        None => owned(text),
    }
}

/// `text` in the style called `style_name` in the default theme.
pub fn apply_style(text: &str, style_name: &str) -> (r: String)
    ensures
        exists|e: Seq<(String, Style)>|
            #![trigger theme_style_spec(e, text@, style_name@)]
            default_entries(e) && r@ == theme_style_spec(e, text@, style_name@),
{
    let theme = default_theme();
    let r = match theme.get(style_name) {
        Some(st) => apply_raw_style(text, &st),
        None => owned(text),
    };
    assert(default_entries(theme.styles@) && r@ == theme_style_spec(theme.styles@, text@, style_name@));
    r
}

/// What an answer to a prompt leads to.
pub enum PromptStep<T> {
    /// The answer, read.
    Done(T),
    /// Ask again, after showing the message if there is one.
    Retry(Option<String>),
}

/// The settings every prompt shares.
pub struct PromptBase {
    /// The prompt text.
    pub prompt: String,
    /// The console to write to, if any.
    pub console: Option<Console>,
    /// Whether the answer is hidden as it is typed.
    pub password: bool,
    /// The answers accepted, if limited.
    pub choices: Option<Vec<String>>,
    /// Whether choices are matched with case.
    pub case_sensitive: bool,
    /// Whether the default is shown.
    pub show_default: bool,
    /// Whether the choices are shown.
    pub show_choices: bool,
}

/// Whether `value` is one of `choices`, compared exactly or in lower case.
pub open spec fn choice_ok(choices: Option<Vec<String>>, case_sensitive: bool, value: Seq<char>) -> bool {
    match choices {
        None => true,
        Some(cs) => if case_sensitive {
            exists|i: int| 0 <= i < cs@.len() && (#[trigger] cs@[i])@ == value
        } else {
            exists|i: int|
                0 <= i < cs@.len() && unicode_lowercase((#[trigger] cs@[i])@) == unicode_lowercase(value)
        },
    }
}

/// The prompt line: the prompt in the `prompt` style, the choices joined
/// by `/` in brackets in the `prompt.choices` style when shown, and `: `.
pub open spec fn make_prompt_spec(e: Seq<(String, Style)>, p: PromptBase) -> Seq<char> {
    let suffix = match p.choices {
        Some(cs) => if p.show_choices {
            seq![' ', '['] + theme_style_spec(e, join_with(views(cs@), seq!['/']), "prompt.choices"@) + seq![
                ']',
                ' ',
            ]
        } else {
            seq![]
        },
        None => seq![],
    };
    theme_style_spec(e, p.prompt@, "prompt"@) + suffix + seq![':', ' ']
}

impl PromptBase {
    /// A prompt with `prompt` as its text: no console, visible input, any
    /// answer, choices matched without case, default and choices shown.
    pub fn new(prompt: &str) -> (p: Self)
        ensures
            p.prompt@ == prompt@,
            p.console is None,
            !p.password,
            p.choices is None,
            !p.case_sensitive,
            p.show_default,
            p.show_choices,
    {
        PromptBase {
            prompt: owned(prompt),
            console: None,
            password: false,
            choices: None,
            case_sensitive: false,
            show_default: true,
            show_choices: true,
        }
    }

    /// The prompt writing to `console`.
    pub fn console(self, console: Console) -> (p: Self)
        ensures
            p == (PromptBase { console: Some(console), ..self }),
    {
        PromptBase { console: Some(console), ..self }
    }

    /// The prompt hiding the answer, or not.
    pub fn password(self, yes: bool) -> (p: Self)
        ensures
            p == (PromptBase { password: yes, ..self }),
    {
        PromptBase { password: yes, ..self }
    }

    /// The prompt accepting only `choices`.
    pub fn choices(self, choices: Vec<String>) -> (p: Self)
        ensures
            p == (PromptBase { choices: Some(choices), ..self }),
    {
        PromptBase { choices: Some(choices), ..self }
    }

    /// The prompt matching choices with case, or not.
    pub fn case_sensitive(self, yes: bool) -> (p: Self)
        ensures
            p == (PromptBase { case_sensitive: yes, ..self }),
    {
        PromptBase { case_sensitive: yes, ..self }
    }

    /// The prompt showing its default, or not.
    pub fn show_default(self, yes: bool) -> (p: Self)
        ensures
            p == (PromptBase { show_default: yes, ..self }),
    {
        PromptBase { show_default: yes, ..self }
    }

    /// The prompt showing its choices, or not.
    pub fn show_choices(self, yes: bool) -> (p: Self)
        ensures
            p == (PromptBase { show_choices: yes, ..self }),
    {
        PromptBase { show_choices: yes, ..self }
    }

    /// ` (default)` with the default in the `prompt.default` style; empty
    /// when the default is not shown or is empty.
    pub fn render_default(&self, default: &str) -> (r: String)
        ensures
            (!self.show_default || default@.len() == 0) ==> r@.len() == 0,
            !(!self.show_default || default@.len() == 0) ==> exists|e: Seq<(String, Style)>|
                #![trigger theme_style_spec(e, default@, "prompt.default"@)]
                default_entries(e) && r@ == seq![' ', '('] + theme_style_spec(
                    e,
                    default@,
                    "prompt.default"@,
                ) + seq![')'],
    {
        if !self.show_default || default.unicode_len() == 0 {
            return String::new();
        }
        let styled = apply_style(default, "prompt.default");
        let mut r = String::new();
        push_char(&mut r, ' ');
        push_char(&mut r, '(');
        push_str(&mut r, styled.as_str());
        push_char(&mut r, ')');
        assert(r@ =~= seq![' ', '('] + styled@ + seq![')']);
        r
    }

    /// The prompt line.
    pub fn make_prompt(&self) -> (r: String)
        ensures
            exists|e: Seq<(String, Style)>|
                #![trigger make_prompt_spec(e, *self)]
                default_entries(e) && r@ == make_prompt_spec(e, *self),
    {
        let theme = default_theme();
        let ghost e = theme.styles@;
        let mut suffix = String::new();
        if self.show_choices {
            match &self.choices {
                Some(cs) => {
                    let joined = join_strings(cs, "/");
                    proof {
                        reveal_strlit("/");
                        assert("/"@ =~= seq!['/']);
                    }
                    let styled = style_in(&theme, joined.as_str(), "prompt.choices");
                    push_char(&mut suffix, ' ');
                    push_char(&mut suffix, '[');
                    push_str(&mut suffix, styled.as_str());
                    push_char(&mut suffix, ']');
                    push_char(&mut suffix, ' ');
                    assert(suffix@ =~= seq![' ', '['] + styled@ + seq![']', ' ']);
                },
                None => {},
            }
        }
        let head = style_in(&theme, self.prompt.as_str(), "prompt");
        let mut r = head;
        push_str(&mut r, suffix.as_str());
        push_char(&mut r, ':');
        push_char(&mut r, ' ');
        proof {
            assert(suffix@ == (match self.choices {
                Some(cs) => if self.show_choices {
                    seq![' ', '['] + theme_style_spec(e, join_with(views(cs@), seq!['/']), "prompt.choices"@)
                        + seq![']', ' ']
                } else {
                    seq![]
                },
                None => seq![],
            }));
            assert(r@ =~= make_prompt_spec(e, *self));
        }
        r
    }

    /// Whether `value` is an accepted answer: any answer when the choices
    /// are not limited, else one of the choices, matched with or without
    /// case.
    pub fn check_choice(&self, value: &str) -> (b: bool)
        ensures
            b == choice_ok(self.choices, self.case_sensitive, value@),
    {
        match &self.choices {
            None => true,
            Some(cs) => {
                let lower = to_lowercase(value);
                let mut i: usize = 0;
                while i < cs.len()
                    invariant
                        i <= cs@.len(),
                        self.choices == Some(*cs),
                        lower@ == unicode_lowercase(value@),
                        self.case_sensitive ==> forall|k: int| 0 <= k < i ==> (#[trigger] cs@[k])@ != value@,
                        !self.case_sensitive ==> forall|k: int|
                            0 <= k < i ==> unicode_lowercase((#[trigger] cs@[k])@) != unicode_lowercase(value@),
                    decreases cs.len() - i,
                {
                    if self.case_sensitive {
                        if str_eq(cs[i].as_str(), value) {
                            let ghost vc = self.choices->0;
                            assert(vc@[i as int]@ == value@);
                            return true;
                        }
                    } else {
                        let l = to_lowercase(cs[i].as_str());
                        if str_eq(l.as_str(), lower.as_str()) {
                            let ghost vc = self.choices->0;
                            assert(unicode_lowercase(vc@[i as int]@) == unicode_lowercase(value@));
                            return true;
                        }
                    }
                    i = i + 1;
                }
                false
            },
        }
    }
}

/// The error for an answer that is not one of the choices.
pub open spec fn invalid_choice_msg(value: Seq<char>) -> Seq<char> {
    "invalid choice: '"@ + value + seq!['\'']
}

/// What an answer to a string prompt gives: the answer itself when it is
/// accepted, else an invalid-response error.
pub open spec fn judge_text_spec(p: PromptBase, value: Seq<char>) -> Result<Seq<char>, Seq<char>> {
    if choice_ok(p.choices, p.case_sensitive, value) {
        Ok(value)
    } else {
        Err(invalid_choice_msg(value))
    }
}

/// A prompt for a line of text.
pub struct Prompt {
    /// The shared settings.
    pub base: PromptBase,
}

impl Prompt {
    /// A text prompt.
    pub fn new(prompt: &str) -> (p: Self)
        ensures
            p.base.prompt@ == prompt@,
            p.base.console is None,
            !p.base.password,
            p.base.choices is None,
            !p.base.case_sensitive,
            p.base.show_default,
            p.base.show_choices,
    {
        Prompt { base: PromptBase::new(prompt) }
    }

    /// The prompt writing to `console`.
    pub fn console(self, console: Console) -> (p: Self)
        ensures
            p.base == (PromptBase { console: Some(console), ..self.base }),
    {
        Prompt { base: self.base.console(console) }
    }

    /// The prompt hiding the answer, or not.
    pub fn password(self, yes: bool) -> (p: Self)
        ensures
            p.base == (PromptBase { password: yes, ..self.base }),
    {
        Prompt { base: self.base.password(yes) }
    }

    /// The prompt accepting only `choices`.
    pub fn choices(self, choices: Vec<String>) -> (p: Self)
        ensures
            p.base == (PromptBase { choices: Some(choices), ..self.base }),
    {
        Prompt { base: self.base.choices(choices) }
    }

    /// The prompt matching choices with case, or not.
    pub fn case_sensitive(self, yes: bool) -> (p: Self)
        ensures
            p.base == (PromptBase { case_sensitive: yes, ..self.base }),
    {
        Prompt { base: self.base.case_sensitive(yes) }
    }

    /// The prompt showing its choices, or not.
    pub fn show_choices(self, yes: bool) -> (p: Self)
        ensures
            p.base == (PromptBase { show_choices: yes, ..self.base }),
    {
        Prompt { base: self.base.show_choices(yes) }
    }

    /// The prompt showing its default, or not.
    pub fn show_default(self, yes: bool) -> (p: Self)
        ensures
            p.base == (PromptBase { show_default: yes, ..self.base }),
    {
        Prompt { base: self.base.show_default(yes) }
    }

    /// The prompt line.
    pub fn render(&self) -> (r: String)
        ensures
            exists|e: Seq<(String, Style)>|
                #![trigger make_prompt_spec(e, self.base)]
                default_entries(e) && r@ == make_prompt_spec(e, self.base),
    {
        self.base.make_prompt()
    }

    /// What the answer `value` gives: the answer when accepted, else an
    /// invalid-response error.
    pub fn judge(&self, value: &str) -> (r: Result<String, PromptError>)
        ensures
            match r {
                Ok(s) => judge_text_spec(self.base, value@) == Ok::<Seq<char>, Seq<char>>(s@),
                Err(PromptError::InvalidResponse(m)) => judge_text_spec(self.base, value@) == Err::<
                    Seq<char>,
                    Seq<char>,
                >(m@),
                Err(_) => false,
            },
    {
        if self.base.check_choice(value) {
            Ok(owned(value))
        } else {
            let mut m = owned("invalid choice: '");
            push_str(&mut m, value);
            push_char(&mut m, '\'');
            assert(m@ =~= invalid_choice_msg(value@));
            Err(PromptError::InvalidResponse(m))
        }
    }
}

/// The value of a decimal `i64` as `str::parse::<i64>` reads it: an
/// optional sign, then one or more ASCII digits, within range.
pub open spec fn parse_i64_spec(t: Seq<char>) -> Option<i64> {
    let neg = t.len() > 0 && t[0] == '-';
    let d = if t.len() > 0 && (t[0] == '+' || t[0] == '-') {
        t.drop_first()
    } else {
        t
    };
    if d.len() > 0 && all_digits(d) {
        let v: int = if neg {
            -(digits_value(d) as int)
        } else {
            digits_value(d) as int
        };
        if i64::MIN <= v <= i64::MAX {
            Some(v as i64)
        } else {
            None
        }
    } else {
        None
    }
}

/// `digits_value` of a prefix is at most that of the whole.
proof fn lemma_digits_prefix(d: Seq<char>, k: int)
    requires
        0 <= k <= d.len(),
        all_digits(d),
    ensures
        digits_value(d.take(k)) <= digits_value(d),
    decreases d.len() - k,
{
    if k < d.len() {
        lemma_digits_prefix(d, k + 1);
        assert(d.take(k + 1).drop_last() =~= d.take(k));
    } else {
        assert(d.take(k) =~= d);
    }
}

/// Reads a decimal `i64`.
pub fn parse_i64(t: &str) -> (r: Option<i64>)
    ensures
        r == parse_i64_spec(t@),
{
    let cs = chars_of(t);
    let n = cs.len();
    let neg = n > 0 && cs[0] == '-';
    let start: usize = if n > 0 && (cs[0] == '+' || cs[0] == '-') {
        1
    } else {
        0
    };
    let ghost d = if t@.len() > 0 && (t@[0] == '+' || t@[0] == '-') {
        t@.drop_first()
    } else {
        t@
    };
    assert(d =~= cs@.skip(start as int));
    if start == n {
        return None;
    }
    let limit: u64 = if neg {
        9223372036854775808
    } else {
        9223372036854775807
    };
    let mut acc: u64 = 0;
    let mut i: usize = start;
    while i < n
        invariant
            n == cs@.len(),
            cs@ == t@,
            start <= i <= n,
            d == cs@.skip(start as int),
            d == (if t@.len() > 0 && (t@[0] == '+' || t@[0] == '-') {
                t@.drop_first()
            } else {
                t@
            }),
            neg == (t@.len() > 0 && t@[0] == '-'),
            limit == (if neg { 9223372036854775808u64 } else { 9223372036854775807u64 }),
            all_digits(cs@.subrange(start as int, i as int)),
            acc == digits_value(cs@.subrange(start as int, i as int)),
            acc <= limit,
        decreases n - i,
    {
        let c = cs[i];
        if !('0' <= c && c <= '9') {
            assert(!all_digits(d)) by {
                assert(d[i - start] == c);
            }
            return None;
        }
        let ghost pre = cs@.subrange(start as int, i as int);
        let ghost post = cs@.subrange(start as int, i + 1);
        assert(post.drop_last() =~= pre);
        assert((c as u64) <= 57);
        let v: u64 = c as u64 - 48;
        if acc > (limit - v) / 10 {
            proof {
                assert(digits_value(post) == acc * 10 + v);
                assert(acc * 10 + v > limit) by (nonlinear_arith)
                    requires
                        acc > (limit - v) / 10,
                        v <= 9,
                        v <= limit,
                ;
                if all_digits(d) {
                    assert(post =~= d.take(i + 1 - start));
                    lemma_digits_prefix(d, i + 1 - start);
                }
            }
            return None;
        }
        assert(acc * 10 + v <= limit) by (nonlinear_arith)
            requires
                acc <= (limit - v) / 10,
                v <= 9,
                v <= limit,
        ;
        acc = acc * 10 + v;
        i = i + 1;
    }
    assert(cs@.subrange(start as int, n as int) =~= d);
    if neg {
        if acc == 9223372036854775808 {
            Some(i64::MIN)
        } else {
            Some(-(acc as i64))
        }
    } else {
        Some(acc as i64)
    }
}

/// The message shown for an answer that is not a choice.
pub open spec fn retry_choice_msg(value: Seq<char>) -> Seq<char> {
    "Invalid choice: '"@ + value + "'. Please try again.\n"@
}

/// What an answer to an integer prompt leads to: an empty answer asks
/// again; an answer that is not a choice asks again with a message; an
/// integer is the result; anything else asks again with a message.
pub open spec fn judge_int_spec(p: PromptBase, value: Seq<char>) -> (Option<i64>, Option<Seq<char>>) {
    if value.len() == 0 {
        (None, None)
    } else if !choice_ok(p.choices, p.case_sensitive, value) {
        (None, Some(retry_choice_msg(value)))
    } else {
        match parse_i64_spec(value) {
            Some(n) => (Some(n), None),
            None => (None, Some("Please enter a valid integer.\n"@)),
        }
    }
}

/// The message for a rejected choice.
fn retry_choice(value: &str) -> (m: String)
    ensures
        m@ == retry_choice_msg(value@),
{
    let mut m = owned("Invalid choice: '");
    push_str(&mut m, value);
    push_str(&mut m, "'. Please try again.\n");
    m
}

/// A prompt for an integer.
pub struct IntPrompt {
    /// The shared settings.
    pub base: PromptBase,
}

impl IntPrompt {
    /// An integer prompt.
    pub fn new(prompt: &str) -> (p: Self)
        ensures
            p.base.prompt@ == prompt@,
            p.base.console is None,
            !p.base.password,
            p.base.choices is None,
            !p.base.case_sensitive,
            p.base.show_default,
            p.base.show_choices,
    {
        IntPrompt { base: PromptBase::new(prompt) }
    }

    /// The prompt writing to `console`.
    pub fn console(self, console: Console) -> (p: Self)
        ensures
            p.base == (PromptBase { console: Some(console), ..self.base }),
    {
        IntPrompt { base: self.base.console(console) }
    }

    /// The prompt hiding the answer, or not.
    pub fn password(self, yes: bool) -> (p: Self)
        ensures
            p.base == (PromptBase { password: yes, ..self.base }),
    {
        IntPrompt { base: self.base.password(yes) }
    }

    /// The prompt accepting only `choices`.
    pub fn choices(self, choices: Vec<String>) -> (p: Self)
        ensures
            p.base == (PromptBase { choices: Some(choices), ..self.base }),
    {
        IntPrompt { base: self.base.choices(choices) }
    }

    /// The prompt matching choices with case, or not.
    pub fn case_sensitive(self, yes: bool) -> (p: Self)
        ensures
            p.base == (PromptBase { case_sensitive: yes, ..self.base }),
    {
        IntPrompt { base: self.base.case_sensitive(yes) }
    }

    /// What the answer `value` leads to.
    pub fn judge(&self, value: &str) -> (r: PromptStep<i64>)
        ensures
            match r {
                PromptStep::Done(n) => judge_int_spec(self.base, value@) == (Some(n), None::<Seq<char>>),
                PromptStep::Retry(None) => judge_int_spec(self.base, value@) == (None::<i64>, None::<Seq<char>>),
                PromptStep::Retry(Some(m)) => judge_int_spec(self.base, value@) == (None::<i64>, Some(m@)),
            },
    {
        if value.unicode_len() == 0 {
            return PromptStep::Retry(None);
        }
        if !self.base.check_choice(value) {
            return PromptStep::Retry(Some(retry_choice(value)));
        }
        match parse_i64(value) {
            Some(n) => PromptStep::Done(n),
            None => PromptStep::Retry(Some(owned("Please enter a valid integer.\n"))),
        }
    }
}

/// A prompt for a number with a fraction.
pub struct FloatPrompt {
    /// The shared settings.
    pub base: PromptBase,
}

impl FloatPrompt {
    /// A number prompt.
    pub fn new(prompt: &str) -> (p: Self)
        ensures
            p.base.prompt@ == prompt@,
            p.base.console is None,
            !p.base.password,
            p.base.choices is None,
            !p.base.case_sensitive,
            p.base.show_default,
            p.base.show_choices,
    {
        FloatPrompt { base: PromptBase::new(prompt) }
    }

    /// The prompt writing to `console`.
    pub fn console(self, console: Console) -> (p: Self)
        ensures
            p.base == (PromptBase { console: Some(console), ..self.base }),
    {
        FloatPrompt { base: self.base.console(console) }
    }

    /// The prompt hiding the answer, or not.
    pub fn password(self, yes: bool) -> (p: Self)
        ensures
            p.base == (PromptBase { password: yes, ..self.base }),
    {
        FloatPrompt { base: self.base.password(yes) }
    }

    /// The prompt accepting only `choices`.
    pub fn choices(self, choices: Vec<String>) -> (p: Self)
        ensures
            p.base == (PromptBase { choices: Some(choices), ..self.base }),
    {
        FloatPrompt { base: self.base.choices(choices) }
    }

    /// The prompt matching choices with case, or not.
    pub fn case_sensitive(self, yes: bool) -> (p: Self)
        ensures
            p.base == (PromptBase { case_sensitive: yes, ..self.base }),
    {
        FloatPrompt { base: self.base.case_sensitive(yes) }
    }

    /// Whether the answer `value` is to be read as a number: an empty
    /// answer asks again, an answer that is not a choice asks again with a
    /// message (`Retry`); otherwise it is to be parsed (`Done`).
    pub fn screen(&self, value: &str) -> (r: PromptStep<()>)
        ensures
            match r {
                PromptStep::Done(_) => value@.len() > 0 && choice_ok(self.base.choices, self.base.case_sensitive, value@),
                PromptStep::Retry(None) => value@.len() == 0,
                PromptStep::Retry(Some(m)) => value@.len() > 0 && !choice_ok(
                    self.base.choices,
                    self.base.case_sensitive,
                    value@,
                ) && m@ == retry_choice_msg(value@),
            },
    {
        if value.unicode_len() == 0 {
            return PromptStep::Retry(None);
        }
        if !self.base.check_choice(value) {
            return PromptStep::Retry(Some(retry_choice(value)));
        }
        PromptStep::Done(())
    }
}

/// What an answer to a yes/no prompt means: nothing typed is the default;
/// `y`, `yes`, `true`, `1` (in any case) are yes; `n`, `no`, `false`, `0`
/// are no; anything else asks again.
pub open spec fn judge_confirm_spec(default: bool, value: Seq<char>) -> Option<bool> {
    let l = unicode_lowercase(value);
    if l.len() == 0 {
        Some(default)
    } else if l == "y"@ || l == "yes"@ || l == "true"@ || l == "1"@ {
        Some(true)
    } else if l == "n"@ || l == "no"@ || l == "false"@ || l == "0"@ {
        Some(false)
    } else {
        None
    }
}

/// The bracketed yes/no hint: `[Y/n]` when yes is the default, else `[y/N]`.
pub open spec fn confirm_hint(default: bool) -> Seq<char> {
    if default {
        "[Y/n]"@
    } else {
        "[y/N]"@
    }
}

/// A yes/no prompt.
pub struct Confirm {
    /// The shared settings.
    pub base: PromptBase,
    /// The answer when nothing is typed.
    pub default: bool,
}

impl Confirm {
    /// A yes/no prompt with the given default.
    pub fn new(prompt: &str, default: bool) -> (c: Self)
        ensures
            c.base.prompt@ == prompt@,
            c.base.console is None,
            c.default == default,
    {
        Confirm { base: PromptBase::new(prompt), default }
    }

    /// The prompt writing to `console`.
    pub fn console(self, console: Console) -> (c: Self)
        ensures
            c.base == (PromptBase { console: Some(console), ..self.base }),
            c.default == self.default,
    {
        Confirm { base: self.base.console(console), default: self.default }
    }

    /// The prompt line: the prompt in the `prompt` style, a space, the
    /// yes/no hint in the `prompt.choices` style, and `: `.
    pub fn make_confirm_prompt(&self) -> (r: String)
        ensures
            exists|e: Seq<(String, Style)>|
                #![trigger theme_style_spec(e, self.base.prompt@, "prompt"@)]
                default_entries(e) && r@ == theme_style_spec(e, self.base.prompt@, "prompt"@) + seq![' ']
                    + theme_style_spec(e, confirm_hint(self.default), "prompt.choices"@) + seq![':', ' '],
    {
        let theme = default_theme();
        let hint = if self.default {
            owned("[Y/n]")
        } else {
            owned("[y/N]")
        };
        let head = style_in(&theme, self.base.prompt.as_str(), "prompt");
        let styled = style_in(&theme, hint.as_str(), "prompt.choices");
        proof {
            reveal_strlit("[Y/n]");
            reveal_strlit("[y/N]");
            assert(hint@ == confirm_hint(self.default));
        }
        let mut r = head;
        push_char(&mut r, ' ');
        push_str(&mut r, styled.as_str());
        push_char(&mut r, ':');
        push_char(&mut r, ' ');
        assert(r@ =~= theme_style_spec(theme.styles@, self.base.prompt@, "prompt"@) + seq![' ']
            + theme_style_spec(theme.styles@, confirm_hint(self.default), "prompt.choices"@) + seq![':', ' ']);
        r
    }

    /// What the answer `value` leads to: the answer, or asking again with
    /// `Please answer y or n.`.
    pub fn judge(&self, value: &str) -> (r: PromptStep<bool>)
        ensures
            match r {
                PromptStep::Done(b) => judge_confirm_spec(self.default, value@) == Some(b),
                PromptStep::Retry(m) => judge_confirm_spec(self.default, value@) is None && (m matches Some(
                    t,
                ) && t@ == "Please answer y or n.\n"@),
            },
    {
        let l = to_lowercase(value);
        let s = l.as_str();
        if s.unicode_len() == 0 {
            return PromptStep::Done(self.default);
        }
        if str_eq(s, "y") || str_eq(s, "yes") || str_eq(s, "true") || str_eq(s, "1") {
            return PromptStep::Done(true);
        }
        if str_eq(s, "n") || str_eq(s, "no") || str_eq(s, "false") || str_eq(s, "0") {
            return PromptStep::Done(false);
        }
        PromptStep::Retry(Some(owned("Please answer y or n.\n")))
    }
}

/// A prompt that picks one of a list of labelled values by number.
pub struct Select<T> {
    /// The shared settings.
    pub base: PromptBase,
    /// The choices: label and value.
    pub choices: Vec<(String, T)>,
}

/// The numbered list of labels from `k` on: `  N) label` and a newline each.
pub open spec fn numbered(labels: Seq<Seq<char>>, k: nat) -> Seq<char>
    decreases k,
{
    if k == 0 || k > labels.len() {
        seq![]
    } else {
        numbered(labels, (k - 1) as nat) + seq![' ', ' '] + decimal_chars(k) + seq![')', ' '] + labels[k
            - 1] + seq!['\n']
    }
}

/// What an answer to a select prompt leads to: nothing typed asks again;
/// a number from 1 to the number of choices (spaces round it allowed)
/// picks that choice; anything else asks again with a message.
pub open spec fn select_pick_spec(count: nat, value: Seq<char>) -> Option<nat> {
    let t = trim_spaces(value);
    if value.len() > 0 && t.len() > 0 && all_digits(t) && 1 <= digits_value(t) <= count {
        Some(digits_value(t))
    } else {
        None
    }
}

/// Whether `c` is an ASCII space, tab, newline or carriage return.
pub open spec fn is_space(c: char) -> bool {
    c == ' ' || c == '\t' || c == '\n' || c == '\r' || c == '\x0b' || c == '\x0c'
}

/// `s` without leading and trailing ASCII white space.
pub open spec fn trim_spaces(s: Seq<char>) -> Seq<char>
    decreases s.len(),
{
    if s.len() > 0 && is_space(s[0]) {
        trim_spaces(s.drop_first())
    } else if s.len() > 0 && is_space(s.last()) {
        trim_spaces(s.drop_last())
    } else {
        s
    }
}

impl<T> Select<T> {
    /// A select prompt with no choices yet.
    pub fn new(prompt: &str) -> (s: Self)
        ensures
            s.base.prompt@ == prompt@,
            s.base.console is None,
            s.choices@.len() == 0,
    {
        Select { base: PromptBase::new(prompt), choices: Vec::new() }
    }

    /// The prompt writing to `console`.
    pub fn console(self, console: Console) -> (s: Self)
        ensures
            s.base == (PromptBase { console: Some(console), ..self.base }),
            s.choices == self.choices,
    {
        Select { base: self.base.console(console), choices: self.choices }
    }

    /// The prompt with a choice labelled `label` added.
    pub fn choice(self, label: &str, value: T) -> (s: Self)
        ensures
            s.base == self.base,
            s.choices@.len() == self.choices@.len() + 1,
            s.choices@.drop_last() == self.choices@,
            s.choices@.last().0@ == label@,
            s.choices@.last().1 == value,
    {
        let mut choices = self.choices;
        choices.push((owned(label), value));
        assert(choices@.drop_last() =~= self.choices@);
        Select { base: self.base, choices }
    }

    /// The labels of the choices.
    pub open spec fn labels(self) -> Seq<Seq<char>> {
        self.choices@.map_values(|c: (String, T)| c.0@)
    }

    /// The prompt: the prompt text in the `prompt` style and a newline,
    /// the numbered choices, then `Enter number [1-N]` in the
    /// `prompt.choices` style and `: `.
    pub fn render(&self) -> (r: String)
        requires
            self.choices@.len() <= u64::MAX,
        ensures
            exists|e: Seq<(String, Style)>|
                #![trigger theme_style_spec(e, self.base.prompt@, "prompt"@)]
                default_entries(e) && r@ == theme_style_spec(e, self.base.prompt@, "prompt"@) + seq!['\n']
                    + numbered(self.labels(), self.choices@.len()) + theme_style_spec(
                    e,
                    "Enter number [1-"@ + decimal_chars(self.choices@.len()) + seq![']'],
                    "prompt.choices"@,
                ) + seq![':', ' '],
    {
        let theme = default_theme();
        let mut out = style_in(&theme, self.base.prompt.as_str(), "prompt");
        push_char(&mut out, '\n');
        let ghost head = out@;
        let mut i: usize = 0;
        while i < self.choices.len()
            invariant
                i <= self.choices@.len(),
                self.choices@.len() <= u64::MAX,
                out@ == head + numbered(self.labels(), i as nat),
            decreases self.choices.len() - i,
        {
            push_char(&mut out, ' ');
            push_char(&mut out, ' ');
            push_decimal(&mut out, (i + 1) as u64);
            push_char(&mut out, ')');
            push_char(&mut out, ' ');
            push_str(&mut out, self.choices[i].0.as_str());
            push_char(&mut out, '\n');
            i = i + 1;
            assert(out@ =~= head + numbered(self.labels(), i as nat));
        }
        let mut hint = owned("Enter number [1-");
        push_decimal(&mut hint, self.choices.len() as u64);
        push_char(&mut hint, ']');
        let styled = style_in(&theme, hint.as_str(), "prompt.choices");
        push_str(&mut out, styled.as_str());
        push_char(&mut out, ':');
        push_char(&mut out, ' ');
        assert(out@ =~= theme_style_spec(theme.styles@, self.base.prompt@, "prompt"@) + seq!['\n'] + numbered(
            self.labels(),
            self.choices@.len(),
        ) + theme_style_spec(
            theme.styles@,
            "Enter number [1-"@ + decimal_chars(self.choices@.len()) + seq![']'],
            "prompt.choices"@,
        ) + seq![':', ' ']);
        out
    }

    /// Whether the prompt can be asked: an error when there are no choices.
    pub fn check_ready(&self) -> (r: Result<(), PromptError>)
        ensures
            r is Ok <==> self.choices@.len() > 0,
            r matches Err(PromptError::InvalidResponse(m)) ==> m@ == "no choices available"@,
            !(r matches Err(PromptError::IOError(_))),
            !(r matches Err(PromptError::Cancelled)),
    {
        if self.choices.len() == 0 {
            Err(PromptError::InvalidResponse(owned("no choices available")))
        } else {
            Ok(())
        }
    }

    /// Which choice the answer `value` picks (counting from 1), or the
    /// message to ask again with (none for an empty answer).
    pub fn judge(&self, value: &str) -> (r: PromptStep<usize>)
        requires
            self.choices@.len() <= u64::MAX,
        ensures
            match r {
                PromptStep::Done(n) => select_pick_spec(self.choices@.len(), value@) == Some(n as nat),
                PromptStep::Retry(None) => value@.len() == 0,
                PromptStep::Retry(Some(m)) => value@.len() > 0 && select_pick_spec(self.choices@.len(), value@)
                    is None && m@ == "Please enter a number between 1 and "@ + decimal_chars(
                    self.choices@.len(),
                ) + seq!['.', '\n'],
            },
    {
        let cs = chars_of(value);
        if cs.len() == 0 {
            return PromptStep::Retry(None);
        }
        // Trim white space at both ends.
        let mut a: usize = 0;
        let mut b: usize = cs.len();
        assert(cs@.subrange(0, cs@.len() as int) =~= cs@);
        while a < b && (cs[a] == ' ' || cs[a] == '\t' || cs[a] == '\n' || cs[a] == '\r' || cs[a] == '\x0b'
            || cs[a] == '\x0c')
            invariant
                a <= b <= cs@.len(),
                b == cs@.len(),
                trim_spaces(cs@) == trim_spaces(cs@.subrange(a as int, b as int)),
            decreases b - a,
        {
            assert(cs@.subrange(a as int, b as int).drop_first() =~= cs@.subrange(a + 1, b as int));
            a = a + 1;
        }
        while a < b && (cs[b - 1] == ' ' || cs[b - 1] == '\t' || cs[b - 1] == '\n' || cs[b - 1] == '\r'
            || cs[b - 1] == '\x0b' || cs[b - 1] == '\x0c')
            invariant
                a <= b <= cs@.len(),
                a == b || !is_space(cs@[a as int]),
                trim_spaces(cs@) == trim_spaces(cs@.subrange(a as int, b as int)),
            decreases b - a,
        {
            assert(cs@.subrange(a as int, b as int).drop_last() =~= cs@.subrange(a as int, b - 1));
            b = b - 1;
        }
        let ghost t = cs@.subrange(a as int, b as int);
        assert(trim_spaces(t) == t);
        let count = self.choices.len();
        let mut acc: u64 = 0;
        let mut ok = a < b;
        let mut k: usize = a;
        let ghost mut big = false;
        while ok && k < b
            invariant
                a <= k <= b <= cs@.len(),
                ok ==> all_digits(cs@.subrange(a as int, k as int)),
                ok ==> acc == digits_value(cs@.subrange(a as int, k as int)),
                ok ==> acc <= count,
                count == self.choices@.len(),
                count <= u64::MAX,
                !ok ==> (a == b || !all_digits(t) || digits_value(t) > count),
                t == cs@.subrange(a as int, b as int),
            decreases b - k + (if ok { 1int } else { 0int }),
        {
            let c = cs[k];
            if !('0' <= c && c <= '9') {
                assert(t[k - a] == c);
                ok = false;
            } else {
                let ghost pre = cs@.subrange(a as int, k as int);
                assert(cs@.subrange(a as int, k + 1).drop_last() =~= pre);
                assert((c as u64) <= 57);
                let v: u64 = c as u64 - 48;
                if v > count as u64 || acc > (count as u64 - v) / 10 {
                    proof {
                        assert(digits_value(cs@.subrange(a as int, k + 1)) == acc * 10 + v);
                        assert(acc * 10 + v > count) by (nonlinear_arith)
                            requires
                                v > count || acc > (count - v) / 10,
                                v <= 9,
                        ;
                        if all_digits(t) {
                            assert(cs@.subrange(a as int, k + 1) =~= t.take(k + 1 - a));
                            lemma_digits_prefix(t, k + 1 - a);
                        }
                    }
                    ok = false;
                } else {
                    assert(acc * 10 + v <= count) by (nonlinear_arith)
                        requires
                            acc <= (count - v) / 10,
                            v <= count,
                    ;
                    acc = acc * 10 + v;
                    k = k + 1;
                }
            }
        }
        if ok && acc >= 1 {
            assert(cs@.subrange(a as int, k as int) =~= t);
            return PromptStep::Done(acc as usize);
        }
        let mut m = owned("Please enter a number between 1 and ");
        push_decimal(&mut m, count as u64);
        push_char(&mut m, '.');
        push_char(&mut m, '\n');
        proof {
            if ok {
                assert(cs@.subrange(a as int, k as int) =~= t);
            }
        }
        PromptStep::Retry(Some(m))
    }
}

} // verus!
