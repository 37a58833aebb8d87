//! Highlighters: turning text into text with styled spans.

use vstd::prelude::*;
use crate::color::{named_color, named_color_spec};
use crate::strutil::{chars_of, is_byte_boundary, push_char, utf8_len, char_utf8_len};
use crate::style::{Attributes, Style, empty_style};
use crate::text::{Span, Text};

verus! {

/// Something that styles parts of a text.
pub trait Highlighter {
    /// The text with its highlights.
    fn highlight(&self, text: &Text) -> Text;
}

/// A highlighter that changes nothing.
pub struct NullHighlighter;

impl NullHighlighter {
    /// The text as it is.
    pub fn highlight_text(&self, text: &Text) -> (t: Text)
        ensures
            t.plain@ == text.plain@,
            t.spans@ == text.spans@,
            t.style == text.style,
    {
        text.clone()
    }
}

impl Highlighter for NullHighlighter {
    fn highlight(&self, text: &Text) -> (t: Text)
        ensures
            t.plain@ == text.plain@,
            t.spans@ == text.spans@,
            t.style == text.style,
    {
        self.highlight_text(text)
    }
}

#[verifier::external_type_specification]
#[verifier::external_body]
pub struct ExRegexError(regex::Error);

/// Whether `regex::Regex::new` accepts `pattern`.
pub uninterp spec fn regex_valid(pattern: Seq<char>) -> bool;

/// The byte ranges of the successive matches `regex::Regex::find_iter`
/// finds in `text` for `pattern`.
pub uninterp spec fn regex_matches(pattern: Seq<char>, text: Seq<char>) -> Seq<(usize, usize)>;

/// Whether `ms` are byte ranges of `text` as `find_iter` yields them: each
/// starts no later than it ends, both ends fall between characters, and
/// each starts no earlier than the one before ends.
pub open spec fn match_ranges_ok(text: Seq<char>, ms: Seq<(usize, usize)>) -> bool {
    &&& forall|k: int| 0 <= k < ms.len() ==> #[trigger] ms[k].0 <= ms[k].1 && ms[k].1 <= utf8_len(text)
        && is_byte_boundary(text, ms[k].0 as nat) && is_byte_boundary(text, ms[k].1 as nat)
    &&& forall|k: int, l: int| 0 <= k < l < ms.len() ==> #[trigger] ms[k].1 <= #[trigger] ms[l].0
}

/// `regex::Regex::new(pattern)`, its value dropped: `Ok` exactly when the
/// pattern is accepted, else the crate's error.
#[verifier::external_body]
fn regex_check(pattern: &str) -> (r: Result<(), regex::Error>)
    ensures
        r is Ok <==> regex_valid(pattern@),
{
    regex::Regex::new(pattern).map(|_| ())
}

/// The byte ranges of the matches of `pattern` in `text`
/// (`Regex::new(pattern)` then `find_iter(text)`, each match's `start()`
/// and `end()`), or `None` when the pattern is not accepted. As the crate
/// documents, the matches come in order without overlapping, each with
/// `start() <= end()`, both at character boundaries of `text`.
#[verifier::external_body]
pub(crate) fn regex_find_ranges(pattern: &str, text: &str) -> (r: Option<Vec<(usize, usize)>>)
    ensures
        r is Some <==> regex_valid(pattern@),
        r matches Some(v) ==> v@ == regex_matches(pattern@, text@) && match_ranges_ok(text@, v@),
{
    regex::Regex::new(pattern).ok().map(|re| re.find_iter(text).map(|m| (m.start(), m.end())).collect())
}

/// The index of the character that starts at byte `b` of `cs`.
pub open spec fn char_at_byte(cs: Seq<char>, b: nat) -> nat {
    choose|i: nat| i <= cs.len() && utf8_len(cs.take(i as int)) == b
}

/// Each character takes at least one byte.
proof fn lemma_utf8_prefix_grows(cs: Seq<char>, i: int, j: int)
    requires
        0 <= i <= j <= cs.len(),
    ensures
        utf8_len(cs.take(i)) + (j - i) <= utf8_len(cs.take(j)),
    decreases j - i,
{
    if i < j {
        lemma_utf8_prefix_grows(cs, i, j - 1);
        assert(cs.take(j).drop_last() =~= cs.take(j - 1));
    }
}

/// The character index at byte `b`, found walking on from character `i`
/// at byte `n`.
pub(crate) fn advance_to_byte(cs: &Vec<char>, i: usize, n: usize, b: usize) -> (r: (usize, usize))
    requires
        i <= cs@.len(),
        n == utf8_len(cs@.take(i as int)),
        n <= b,
        is_byte_boundary(cs@, b as nat),
    ensures
        i <= r.0 <= cs@.len(),
        r.1 == b,
        utf8_len(cs@.take(r.0 as int)) == b,
        r.0 == char_at_byte(cs@, b as nat),
{
    let ghost j = choose|j: int| 0 <= j <= cs@.len() && #[trigger] utf8_len(cs@.take(j)) == b;
    let i0 = i;
    let mut i = i;
    let mut n = n;
    proof {
        if j < i {
            lemma_utf8_prefix_grows(cs@, j, i as int);
        }
    }
    while n < b
        invariant
            i0 <= i <= j <= cs@.len(),
            cs@.len() == cs.len(),
            n == utf8_len(cs@.take(i as int)),
            n <= b,
            utf8_len(cs@.take(j)) == b,
        decreases j - i,
    {
        proof {
            if i == j {
                assert(false);
            }
            lemma_utf8_prefix_grows(cs@, i + 1, j);
            assert(cs@.take(i + 1).drop_last() =~= cs@.take(i as int));
        }
        let c = cs[i];
        let u = c as u32;
        let w: usize = if u < 0x80 { 1 } else if u < 0x800 { 2 } else if u < 0x10000 { 3 } else { 4 };
        n = n + w;
        i = i + 1;
    }
    proof {
        if i < j {
            lemma_utf8_prefix_grows(cs@, i as int + 1, j);
            assert(cs@.take(i + 1).drop_last() =~= cs@.take(i as int));
        }
        assert(i == j);
        let k = char_at_byte(cs@, b as nat);
        assert(utf8_len(cs@.take(i as int)) == b);
        assert(k <= cs@.len() && utf8_len(cs@.take(k as int)) == b);
        if k < i {
            lemma_utf8_prefix_grows(cs@, k as int + 1, i as int);
            assert(cs@.take(k as int + 1).drop_last() =~= cs@.take(k as int));
        } else if k > i {
            lemma_utf8_prefix_grows(cs@, i as int + 1, k as int);
            assert(cs@.take(i + 1).drop_last() =~= cs@.take(i as int));
        }
    }
    (i, n)
}

/// The spans a rule gives: one in `style` over each match that is not
/// empty (unless the style sets nothing), by character positions.
pub open spec fn rule_spans(cs: Seq<char>, ms: Seq<(usize, usize)>, style: Style) -> Seq<Span>
    decreases ms.len(),
{
    if ms.len() == 0 {
        seq![]
    } else {
        let m = ms.last();
        let s = char_at_byte(cs, m.0 as nat);
        let e = char_at_byte(cs, m.1 as nat);
        rule_spans(cs, ms.drop_last(), style) + (if e > s && !style.is_null_spec() {
            seq![Span { start: s as usize, end: e as usize, style }]
        } else {
            seq![]
        })
    }
}

/// The text `highlight` makes from `t` with the rule `pattern` in `style`:
/// the same characters, no base style, and just this rule's spans.
pub open spec fn rule_result(t: Text, pattern: Seq<char>, style: Style, r: Text) -> bool {
    &&& r.plain@ == t.plain@
    &&& r.style == crate::style::empty_style()
    &&& r.spans@ == rule_spans(t.plain@, regex_matches(pattern, t.plain@), style)
}

/// The spans the rules `rules` give over the characters `cs`: those of
/// each rule in turn.
pub open spec fn all_rule_spans(cs: Seq<char>, rules: Seq<(Seq<char>, Style)>) -> Seq<Span>
    decreases rules.len(),
{
    if rules.len() == 0 {
        seq![]
    } else {
        all_rule_spans(cs, rules.drop_last()) + rule_spans(cs, regex_matches(rules.last().0, cs), rules.last().1)
    }
}

/// Highlights with the rules of a `RegexHighlighter`, each given by its
/// pattern and style: every rule marks its matches, and the spans of all
/// rules are kept, in the order of the rules.
pub struct RegexHighlighter {
    rules: Vec<(String, Style)>,
}

impl RegexHighlighter {
    /// Every rule's pattern is accepted.
    #[verifier::type_invariant]
    spec fn valid_rules(self) -> bool {
        forall|k: int| 0 <= k < self.rules@.len() ==> #[trigger] regex_valid(self.rules@[k].0@)
    }

    /// The patterns and styles of the rules, in order.
    pub closed spec fn rule_list(self) -> Seq<(Seq<char>, Style)> {
        self.rules@.map_values(|r: (String, Style)| (r.0@, r.1))
    }

    /// No rules.
    pub fn new() -> (h: Self)
        ensures
            h.rule_list().len() == 0,
    {
        let h = RegexHighlighter { rules: Vec::new() };
        assert(h.rule_list() =~= Seq::<(Seq<char>, Style)>::empty());
        h
    }

    /// The number of rules.
    pub fn rule_count(&self) -> (n: usize)
        ensures
            n == self.rule_list().len(),
    {
        self.rules.len()
    }

    /// Adds a rule styling the matches of `pattern` in `style`; the regex
    /// crate's error, and no rule added, when it does not accept the
    /// pattern.
    pub fn add_rule(&mut self, pattern: &str, style: Style) -> (r: Result<(), regex::Error>)
        ensures
            r is Ok <==> regex_valid(pattern@),
            r is Ok ==> final(self).rule_list() == old(self).rule_list().push((pattern@, style)),
            r is Err ==> final(self).rule_list() == old(self).rule_list(),
    {
        proof {
            use_type_invariant(&*self);
        }
        match regex_check(pattern) {
            Ok(()) => {
                let mut rules: Vec<(String, Style)> = Vec::new();
                std::mem::swap(&mut rules, &mut self.rules);
                let ghost before = rules@;
                rules.push((crate::strutil::owned(pattern), style));
                assert(rules@ == before.push((rules@.last().0, style)));
                assert(forall|k: int| 0 <= k < rules@.len() ==> #[trigger] regex_valid(rules@[k].0@)) by {
                    assert forall|k: int| 0 <= k < rules@.len() implies #[trigger] regex_valid(rules@[k].0@) by {
                        if k < before.len() {
                            assert(rules@[k] == old(self).rules@[k]);
                        }
                    }
                }
                self.rules = rules;
                assert(self.rule_list() =~= old(self).rule_list().push((pattern@, style)));
                Ok(())
            },
            Err(e) => Err(e),
        }
    }

    /// `t` highlighted by the rule `pattern` in `style`.
    fn apply_rule(t: &Text, pattern: &str, style: &Style) -> (r: Text)
        requires
            regex_valid(pattern@),
        ensures
            rule_result(*t, pattern@, *style, r),
    {
        let ranges = match regex_find_ranges(pattern, t.plain.as_str()) {
            Some(v) => v,
            None => Vec::new(),
        };
        let cs = chars_of(t.plain.as_str());
        let ghost ms = regex_matches(pattern@, t.plain@);
        let mut out = Text::new("");
        proof {
            reveal_strlit("");
        }
        let mut ci: usize = 0;
        let mut cb: usize = 0;
        let mut k: usize = 0;
        assert(cs@.take(0) =~= Seq::<char>::empty());
        assert(utf8_len(Seq::<char>::empty()) == 0);
        while k < ranges.len()
            invariant
                ranges@ == ms,
                match_ranges_ok(t.plain@, ms),
                cs@ == t.plain@,
                k <= ms.len(),
                ci <= cs@.len(),
                cb == utf8_len(cs@.take(ci as int)),
                out.plain@ == cs@.take(ci as int),
                out.style == crate::style::empty_style(),
                out.spans@ == rule_spans(cs@, ms.take(k as int), *style),
                k == 0 ==> cb == 0,
                k > 0 ==> cb == ms[k - 1].1,
                k > 0 ==> ci == char_at_byte(cs@, ms[k - 1].1 as nat),
            decreases ms.len() - k,
        {
            let (s, e) = ranges[k];
            assert(ms[k as int].0 <= ms[k as int].1);
            if k > 0 {
                assert(ms[k - 1].1 <= ms[k as int].0);
            }
            let (si, sb) = advance_to_byte(&cs, ci, cb, s);
            let (ei, eb) = advance_to_byte(&cs, si, sb, e);
            proof {
                if ei < si {
                    lemma_utf8_prefix_grows(cs@, ei as int + 1, si as int);
                    assert(cs@.take(ei + 1).drop_last() =~= cs@.take(ei as int));
                }
            }
            if si > ci {
                let gap = crate::strutil::string_of(&slice_chars(&cs, ci, si));
                out.append(gap.as_str());
            }
            assert(out.plain@ =~= cs@.take(si as int));
            let piece = crate::strutil::string_of(&slice_chars(&cs, si, ei));
            out.append_styled(piece.as_str(), style.clone());
            assert(out.plain@ =~= cs@.take(ei as int));
            assert(ms.take(k + 1).drop_last() =~= ms.take(k as int));
            assert(ms.take(k + 1).last() == ms[k as int]);
            ci = ei;
            cb = eb;
            k = k + 1;
        }
        assert(ms.take(ms.len() as int) =~= ms);
        if ci < cs.len() {
            let rest = crate::strutil::string_of(&slice_chars(&cs, ci, cs.len()));
            out.append(rest.as_str());
        }
        assert(out.plain@ =~= cs@);
        out
    }

    /// `text` with each rule applied in turn: the same characters, no base
    /// style, and the spans of every rule (the text as it is when there
    /// are no rules).
    pub fn highlight_text(&self, text: &Text) -> (r: Text)
        ensures
            self.rule_list().len() == 0 ==> r.plain@ == text.plain@ && r.spans@ == text.spans@ && r.style
                == text.style,
            self.rule_list().len() > 0 ==> r.plain@ == text.plain@ && r.style == empty_style() && r.spans@
                == all_rule_spans(text.plain@, self.rule_list()),
    {
        proof {
            use_type_invariant(self);
        }
        if self.rules.len() == 0 {
            return text.clone();
        }
        let mut spans: Vec<Span> = Vec::new();
        let mut k: usize = 0;
        assert(self.rule_list().take(0) =~= Seq::<(Seq<char>, Style)>::empty());
        while k < self.rules.len()
            invariant
                k <= self.rules@.len(),
                forall|q: int| 0 <= q < self.rules@.len() ==> #[trigger] regex_valid(self.rules@[q].0@),
                spans@ == all_rule_spans(text.plain@, self.rule_list().take(k as int)),
            decreases self.rules.len() - k,
        {
            let r = Self::apply_rule(text, self.rules[k].0.as_str(), &self.rules[k].1);
            let mut j: usize = 0;
            let ghost s0 = spans@;
            while j < r.spans.len()
                invariant
                    j <= r.spans@.len(),
                    spans@ == s0 + r.spans@.take(j as int),
                decreases r.spans.len() - j,
            {
                spans.push(r.spans[j].clone());
                j = j + 1;
                assert(spans@ =~= s0 + r.spans@.take(j as int));
            }
            assert(r.spans@.take(j as int) =~= r.spans@);
            proof {
                let rl = self.rule_list();
                assert(rl.take(k + 1).drop_last() =~= rl.take(k as int));
                assert(rl.take(k + 1).last() == rl[k as int]);
                assert(rl[k as int] == (self.rules@[k as int].0@, self.rules@[k as int].1));
            }
            k = k + 1;
        }
        assert(self.rule_list().take(k as int) =~= self.rule_list());
        Text { plain: text.plain.clone(), spans, style: Style::new() }
    }
}

/// The characters `from..to` of `cs`.
fn slice_chars(cs: &Vec<char>, from: usize, to: usize) -> (r: Vec<char>)
    requires
        from <= to <= cs@.len(),
    ensures
        r@ == cs@.subrange(from as int, to as int),
{
    let mut r: Vec<char> = Vec::new();
    let mut i = from;
    while i < to
        invariant
            from <= i <= to,
            to <= cs@.len(),
            r@ == cs@.subrange(from as int, i as int),
        decreases to - i,
    {
        r.push(cs[i]);
        i = i + 1;
        assert(r@ =~= cs@.subrange(from as int, i as int));
    }
    r
}

impl Highlighter for RegexHighlighter {
    fn highlight(&self, text: &Text) -> (r: Text)
        ensures
            self.rule_list().len() == 0 ==> r.plain@ == text.plain@ && r.spans@ == text.spans@ && r.style
                == text.style,
            self.rule_list().len() > 0 ==> r.plain@ == text.plain@ && r.style == empty_style() && r.spans@
                == all_rule_spans(text.plain@, self.rule_list()),
    {
        self.highlight_text(text)
    }
}

/// Whether `s` is the plain style in the color named `name`, with the
/// given underline and bold settings.
pub open spec fn colored_style(s: Style, name: Seq<char>, underline: Option<bool>, bold: Option<bool>) -> bool {
    &&& s.color matches Some(c) && c@ == named_color_spec(name)
    &&& (Style { color: None, ..s }) == (Style {
        attributes: Attributes { underline: underline, bold: bold, ..empty_style().attributes },
        ..empty_style()
    })
}

/// The rules of `rs` whose pattern the regex crate accepts, in order.
pub open spec fn kept_rules(rs: Seq<(Seq<char>, Style)>) -> Seq<(Seq<char>, Style)>
    decreases rs.len(),
{
    if rs.len() == 0 {
        rs
    } else if regex_valid(rs.last().0) {
        kept_rules(rs.drop_last()).push(rs.last())
    } else {
        kept_rules(rs.drop_last())
    }
}

/// Whether `ss` are the five styles of the repr rules: underlined bright
/// blue, bold cyan, magenta, green and green.
pub open spec fn repr_styles(ss: Seq<Style>) -> bool {
    &&& ss.len() == 5
    &&& colored_style(ss[0], "bright_blue"@, Some(true), None)
    &&& colored_style(ss[1], "cyan"@, None, Some(true))
    &&& colored_style(ss[2], "magenta"@, None, None)
    &&& colored_style(ss[3], "green"@, None, None)
    &&& colored_style(ss[4], "green"@, None, None)
}

/// The repr rules, each pattern with its style from `ss`: URLs, numbers,
/// paths, double- and single-quoted strings.
pub open spec fn repr_pairs(ss: Seq<Style>) -> Seq<(Seq<char>, Style)> {
    seq![
        ("https?://[^\\s)\\]}>]+"@, ss[0]),
        ("(?<!\\w)(-?\\d+\\.?\\d*(?:e[+-]?\\d+)?)(?!\\w)"@, ss[1]),
        ("(?<!\\w)(?:/[\\w.-]+)+/?(?!\\w)"@, ss[2]),
        ("\"(?:[^\"\\\\]|\\\\.)*\""@, ss[3]),
        ("'(?:[^'\\\\]|\\\\.)*'"@, ss[4]),
    ]
}

/// Highlights repr-like output: URLs, numbers, paths and quoted strings.
pub struct ReprHighlighter {
    /// The rules, when there are any.
    pub highlighter: Option<RegexHighlighter>,
}

impl ReprHighlighter {
    /// The rules for URLs in underlined bright blue, numbers in bold cyan,
    /// paths in magenta, and single- and double-quoted strings in green; a
    /// rule whose pattern the regex crate does not accept is left out.
    pub fn new() -> (h: Self)
        ensures
            h.highlighter matches Some(rh) && exists|ss: Seq<Style>|
                #[trigger] repr_styles(ss) && rh.rule_list() == kept_rules(repr_pairs(ss)),
    {
        let s0 = Style::new().color(named_color("bright_blue")).underline(true);
        let s1 = Style::new().color(named_color("cyan")).bold(true);
        let s2 = Style::new().color(named_color("magenta"));
        let s3 = Style::new().color(named_color("green"));
        let s4 = Style::new().color(named_color("green"));
        let ghost ss = seq![s0, s1, s2, s3, s4];
        let ghost ps = repr_pairs(ss);
        let mut rh = RegexHighlighter::new();
        assert(rh.rule_list() =~= kept_rules(ps.take(0)));
        let _ = rh.add_rule("https?://[^\\s)\\]}>]+", s0);
        assert(ps.take(1).drop_last() =~= ps.take(0));
        assert(rh.rule_list() =~= kept_rules(ps.take(1)));
        let _ = rh.add_rule("(?<!\\w)(-?\\d+\\.?\\d*(?:e[+-]?\\d+)?)(?!\\w)", s1);
        assert(ps.take(2).drop_last() =~= ps.take(1));
        assert(rh.rule_list() =~= kept_rules(ps.take(2)));
        let _ = rh.add_rule("(?<!\\w)(?:/[\\w.-]+)+/?(?!\\w)", s2);
        assert(ps.take(3).drop_last() =~= ps.take(2));
        assert(rh.rule_list() =~= kept_rules(ps.take(3)));
        let _ = rh.add_rule("\"(?:[^\"\\\\]|\\\\.)*\"", s3);
        assert(ps.take(4).drop_last() =~= ps.take(3));
        assert(rh.rule_list() =~= kept_rules(ps.take(4)));
        let _ = rh.add_rule("'(?:[^'\\\\]|\\\\.)*'", s4);
        assert(ps.take(5).drop_last() =~= ps.take(4));
        assert(ps.take(5) =~= ps);
        assert(repr_styles(ss));
        ReprHighlighter { highlighter: Some(rh) }
    }

    /// `text` highlighted: plain, when there are no rules; else with the
    /// spans of every rule's matches, rule by rule.
    pub fn highlight_str(&self, text: &str) -> (t: Text)
        ensures
            t.plain@ == text@,
            self.highlighter is None ==> t.spans@.len() == 0,
            self.highlighter matches Some(h) ==> (h.rule_list().len() == 0 ==> t.spans@.len() == 0 && t.style
                == empty_style()) && (h.rule_list().len() > 0 ==> t.style == empty_style() && t.spans@
                == all_rule_spans(text@, h.rule_list())),
    {
        let t = Text::new(text);
        match &self.highlighter {
            Some(h) => h.highlight_text(&t),
            None => t,
        }
    }
}

} // verus!
