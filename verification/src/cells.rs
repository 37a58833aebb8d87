//! Terminal cell widths of text: measuring, padding or cropping to a width,
//! breaking into lines of a width, and splitting at a cell offset.

use vstd::prelude::*;
use crate::layout::joined;
use crate::strutil::{push_char, push_spaces, spaces, owned};

verus! {

/// The display width that `UnicodeWidthChar::width` reports for a
/// character (`None` for control characters).
pub uninterp spec fn unicode_char_width(c: char) -> Option<usize>;

/// The display width that `UnicodeWidthStr::width` reports for a string.
pub uninterp spec fn unicode_str_width(s: Seq<char>) -> usize;

/// `unicode_width::UnicodeWidthChar::width`. Its result is named
/// `unicode_char_width`; the crate's source gives the printable ASCII range
/// `U+0020..U+007E` width 1, control characters (below `U+0020` and
/// `U+007F..U+009F`) no width, and no character a width above 3.
#[verifier::external_body]
fn char_width_opt(c: char) -> (r: Option<usize>)
    ensures
        r == unicode_char_width(c),
        (' ' <= c && c <= '~') ==> r == Some(1usize),
        (c < ' ' || ('\u{7f}' <= c && c < '\u{a0}')) ==> r is None,
        r matches Some(w) ==> w <= 3,
{
    unicode_width::UnicodeWidthChar::width(c)
}

/// `unicode_width::UnicodeWidthStr::width`. Its result is named
/// `unicode_str_width`; it is not in general the sum of the character widths
/// (the crate treats `\r\n`, emoji sequences and some ligatures as units), so
/// nothing more is stated.
#[verifier::external_body]
fn str_width(s: &str) -> (r: usize)
    ensures
        r == unicode_str_width(s@),
{
    unicode_width::UnicodeWidthStr::width(s)
}

/// The cells a character takes: its Unicode width, or 0 for control
/// characters.
pub open spec fn char_cells(c: char) -> nat {
    match unicode_char_width(c) {
        Some(w) => w as nat,
        None => 0,
    }
}

/// The total display width of `text`.
pub fn cell_len(text: &str) -> (n: usize)
    ensures
        n == unicode_str_width(text@),
{
    str_width(text)
}

/// The display width of one character: 0 for control characters.
pub fn get_character_cell_size(ch: char) -> (n: usize)
    ensures
        n == char_cells(ch),
        n <= 3,
        (' ' <= ch && ch <= '~') ==> n == 1,
{
    match char_width_opt(ch) {
        Some(w) => w,
        None => 0,
    }
}

/// The characters of `cs` that fit within `target` cells when `used` cells
/// are already taken; a character that would cross the limit is replaced by
/// spaces up to it, and nothing after it is kept.
pub open spec fn crop_cells(cs: Seq<char>, target: nat, used: nat) -> Seq<char>
    decreases cs.len(),
{
    if cs.len() == 0 {
        seq![]
    } else if used + char_cells(cs[0]) > target {
        spaces((target - used) as nat)
    } else {
        seq![cs[0]] + crop_cells(cs.drop_first(), target, used + char_cells(cs[0]))
    }
}

/// `text` padded with spaces or cropped so that it is `target` cells wide,
/// measuring the whole text with `unicode_str_width` and cropping character
/// by character.
pub open spec fn set_cell_size_spec(text: Seq<char>, target: nat) -> Seq<char> {
    let current = unicode_str_width(text);
    if current == target {
        text
    } else if current > target {
        crop_cells(text, target, 0)
    } else {
        text + spaces((target - current) as nat)
    }
}

/// The characters of `text` that fit within `target` cells, with the
/// character that would cross the limit replaced by spaces up to it.
fn crop_to_cells(text: &str, target: usize) -> (out: String)
    ensures
        out@ == crop_cells(text@, target as nat, 0),
{
    let mut out = String::new();
    let mut w: usize = 0;
    let n = text.unicode_len();
    let mut i: usize = 0;
    assert(text@.skip(0) =~= text@);
    while i < n
        invariant
            n == text@.len(),
            i <= n,
            w <= target,
            out@ + crop_cells(text@.skip(i as int), target as nat, w as nat) == crop_cells(
                text@,
                target as nat,
                0,
            ),
        decreases n - i,
    {
        let ch = text.get_char(i);
        let cw = get_character_cell_size(ch);
        let ghost rest = text@.skip(i as int);
        assert(rest[0] == ch);
        assert(rest.drop_first() =~= text@.skip(i + 1));
        if cw > target - w {
            assert(crop_cells(rest, target as nat, w as nat) == spaces((target - w) as nat));
            push_spaces(&mut out, target - w);
            return out;
        }
        push_char(&mut out, ch);
        w = w + cw;
        i = i + 1;
        assert(out@ + crop_cells(text@.skip(i as int), target as nat, w as nat) =~= crop_cells(
            text@,
            target as nat,
            0,
        ));
    }
    assert(crop_cells(text@.skip(n as int), target as nat, w as nat) =~= seq![]);
    assert(out@ =~= crop_cells(text@, target as nat, 0));
    out
}

/// Pads `text` with spaces, or crops it, to `target_width` cells.
pub fn set_cell_size(text: &str, target_width: usize) -> (r: String)
    ensures
        r@ == set_cell_size_spec(text@, target_width as nat),
{
    let current = cell_len(text);
    if current == target_width {
        owned(text)
    } else if current > target_width {
        crop_to_cells(text, target_width)
    } else {
        let mut out = owned(text);
        push_spaces(&mut out, target_width - current);
        out
    }
}

/// The lines that `chop_cells` produces from the rest `cs` of the text,
/// given the line being built (`cur`, `cur_w` cells wide) and the lines
/// already finished.
pub open spec fn chop_from(
    cs: Seq<char>,
    width: nat,
    cur: Seq<char>,
    cur_w: nat,
    lines: Seq<Seq<char>>,
) -> Seq<Seq<char>>
    decreases cs.len(),
{
    if cs.len() == 0 {
        let done = if cur.len() > 0 {
            lines.push(cur)
        } else {
            lines
        };
        if done.len() == 0 {
            seq![seq![]]
        } else {
            done
        }
    } else {
        let ch = cs[0];
        let cw = char_cells(ch);
        if ch == '\n' {
            chop_from(cs.drop_first(), width, seq![], 0, lines.push(cur))
        } else if cur_w + cw > width {
            chop_from(cs.drop_first(), width, seq![ch], cw, lines.push(cur))
        } else {
            chop_from(cs.drop_first(), width, cur.push(ch), cur_w + cw, lines)
        }
    }
}

/// The cells of the characters of `cs`.
pub open spec fn cells_sum(cs: Seq<char>) -> nat
    decreases cs.len(),
{
    if cs.len() == 0 {
        0
    } else {
        cells_sum(cs.drop_last()) + char_cells(cs.last())
    }
}

/// Whether every line of `lines` fits in `width` cells or is one character
/// that alone is wider.
pub open spec fn lines_fit(lines: Seq<Seq<char>>, width: nat) -> bool {
    forall|k: int| 0 <= k < lines.len() ==> cells_sum(#[trigger] lines[k]) <= width || lines[k].len() == 1
}

proof fn lemma_chop_from_fits(cs: Seq<char>, width: nat, cur: Seq<char>, cur_w: nat, lines: Seq<Seq<char>>)
    requires
        lines_fit(lines, width),
        cur_w == cells_sum(cur),
        cur_w <= width || cur.len() == 1,
    ensures
        lines_fit(chop_from(cs, width, cur, cur_w, lines), width),
    decreases cs.len(),
{
    if cs.len() == 0 {
        assert(cells_sum(Seq::<char>::empty()) == 0);
    } else {
        let ch = cs[0];
        let cw = char_cells(ch);
        assert(lines_fit(lines.push(cur), width)) by {
            assert forall|k: int| 0 <= k < lines.push(cur).len() implies cells_sum(#[trigger] lines.push(cur)[k])
                <= width || lines.push(cur)[k].len() == 1 by {
                if k < lines.len() {
                    assert(lines.push(cur)[k] == lines[k]);
                }
            }
        }
        if ch == '\n' {
            lemma_chop_from_fits(cs.drop_first(), width, seq![], 0, lines.push(cur));
        } else if cur_w + cw > width {
            assert(seq![ch].drop_last() =~= Seq::<char>::empty());
            assert(cells_sum(Seq::<char>::empty()) == 0);
            assert(seq![ch].last() == ch);
            assert(cells_sum(seq![ch]) == cw);
            lemma_chop_from_fits(cs.drop_first(), width, seq![ch], cw, lines.push(cur));
        } else {
            assert(cur.push(ch).drop_last() =~= cur);
            lemma_chop_from_fits(cs.drop_first(), width, cur.push(ch), cur_w + cw, lines);
        }
    }
}

/// Every line `chop_cells` gives for a positive width fits in the width,
/// but for a line of one character that alone is wider.
pub proof fn lemma_chop_cells_fit(text: Seq<char>, width: nat)
    requires
        width > 0,
    ensures
        lines_fit(chop_cells_spec(text, width), width),
{
    assert(cells_sum(Seq::<char>::empty()) == 0);
    lemma_chop_from_fits(text, width, seq![], 0, seq![]);
}

/// The characters of `cs` but its newlines.
pub open spec fn without_newlines(cs: Seq<char>) -> Seq<char>
    decreases cs.len(),
{
    if cs.len() == 0 {
        seq![]
    } else {
        (if cs[0] == '\n' {
            seq![]
        } else {
            seq![cs[0]]
        }) + without_newlines(cs.drop_first())
    }
}

proof fn lemma_chop_from_joins(cs: Seq<char>, width: nat, cur: Seq<char>, cur_w: nat, lines: Seq<Seq<char>>)
    ensures
        chop_from(cs, width, cur, cur_w, lines).len() >= 1,
        joined(chop_from(cs, width, cur, cur_w, lines)) == joined(lines) + cur + without_newlines(cs),
    decreases cs.len(),
{
    assert(lines.push(cur).drop_last() =~= lines);
    assert(joined(lines.push(cur)) == joined(lines) + cur);
    if cs.len() == 0 {
        let e = Seq::<Seq<char>>::empty();
        assert(seq![Seq::<char>::empty()].drop_last() =~= e);
        assert(joined(e) =~= Seq::<char>::empty());
        assert(seq![Seq::<char>::empty()].last() =~= Seq::<char>::empty());
        assert(joined(seq![Seq::<char>::empty()]) =~= joined(e) + Seq::<char>::empty());
        assert(joined(seq![Seq::<char>::empty()]) =~= Seq::<char>::empty());
        assert(without_newlines(cs) =~= Seq::<char>::empty());
        if cur.len() == 0 {
            assert(cur =~= Seq::<char>::empty());
            assert(lines.len() == 0 ==> joined(lines) =~= Seq::<char>::empty());
            assert(joined(lines) + cur + without_newlines(cs) =~= joined(lines));
        } else {
            assert(joined(lines) + cur + without_newlines(cs) =~= joined(lines) + cur);
        }
    } else {
        let ch = cs[0];
        let cw = char_cells(ch);
        let rest = cs.drop_first();
        if ch == '\n' {
            lemma_chop_from_joins(rest, width, seq![], 0, lines.push(cur));
            assert(without_newlines(cs) =~= without_newlines(rest));
            assert(joined(lines.push(cur)) + Seq::<char>::empty() + without_newlines(rest) =~= joined(lines) + cur
                + without_newlines(cs));
        } else if cur_w + cw > width {
            lemma_chop_from_joins(rest, width, seq![ch], cw, lines.push(cur));
            assert(without_newlines(cs) =~= seq![ch] + without_newlines(rest));
            assert(joined(lines.push(cur)) + seq![ch] + without_newlines(rest) =~= joined(lines) + cur
                + without_newlines(cs));
        } else {
            lemma_chop_from_joins(rest, width, cur.push(ch), cur_w + cw, lines);
            assert(without_newlines(cs) =~= seq![ch] + without_newlines(rest));
            assert(joined(lines) + cur.push(ch) + without_newlines(rest) =~= joined(lines) + cur + without_newlines(
                cs,
            ));
        }
    }
}

/// For a positive width, `chop_cells` gives at least one line, and its
/// lines, put together, are the text without its newlines.
pub proof fn lemma_chop_cells_joins(text: Seq<char>, width: nat)
    requires
        width > 0,
    ensures
        chop_cells_spec(text, width).len() >= 1,
        joined(chop_cells_spec(text, width)) == without_newlines(text),
{
    lemma_chop_from_joins(text, width, seq![], 0, seq![]);
    assert(joined(Seq::<Seq<char>>::empty()) + Seq::<char>::empty() + without_newlines(text) =~= without_newlines(
        text,
    ));
}

/// The lines `chop_cells` breaks `text` into: a newline ends a line, and a
/// character that would make its line wider than `width` starts a new one;
/// an empty text gives one empty line, and width 0 gives the text itself.
pub open spec fn chop_cells_spec(text: Seq<char>, width: nat) -> Seq<Seq<char>> {
    if width == 0 {
        seq![text]
    } else {
        chop_from(text, width, seq![], 0, seq![])
    }
}

/// Breaks `text` into lines that fit within `width` cells.
pub fn chop_cells(text: &str, width: usize) -> (r: Vec<String>)
    ensures
        r@.map_values(|s: String| s@) == chop_cells_spec(text@, width as nat),
{
    if width == 0 {
        let mut v: Vec<String> = Vec::new();
        v.push(owned(text));
        assert(v@.map_values(|s: String| s@) =~= seq![text@]);
        return v;
    }
    let mut lines: Vec<String> = Vec::new();
    let mut current = String::new();
    let mut current_w: usize = 0;
    let n = text.unicode_len();
    let mut i: usize = 0;
    assert(text@.skip(0) =~= text@);
    assert(lines@.map_values(|s: String| s@) =~= Seq::<Seq<char>>::empty());
    while i < n
        invariant
            n == text@.len(),
            i <= n,
            width > 0,
            current_w <= width || current_w <= 3,
            chop_from(text@.skip(i as int), width as nat, current@, current_w as nat, lines@.map_values(
                |s: String| s@,
            )) == chop_from(text@, width as nat, seq![], 0, seq![]),
        decreases n - i,
    {
        let ch = text.get_char(i);
        let cw = get_character_cell_size(ch);
        let ghost rest = text@.skip(i as int);
        let ghost old_lines = lines@.map_values(|s: String| s@);
        assert(rest[0] == ch);
        assert(rest.drop_first() =~= text@.skip(i + 1));
        if ch == '\n' {
            let finished = current;
            lines.push(finished);
            current = String::new();
            current_w = 0;
            assert(lines@.map_values(|s: String| s@) =~= old_lines.push(finished@));
        } else if current_w > width || cw > width - current_w {
            let finished = current;
            lines.push(finished);
            current = String::new();
            push_char(&mut current, ch);
            current_w = cw;
            assert(lines@.map_values(|s: String| s@) =~= old_lines.push(finished@));
            assert(current@ =~= seq![ch]);
        } else {
            push_char(&mut current, ch);
            current_w = current_w + cw;
        }
        i = i + 1;
    }
    let ghost old_lines = lines@.map_values(|s: String| s@);
    if current.unicode_len() > 0 {
        let finished = current;
        lines.push(finished);
        assert(lines@.map_values(|s: String| s@) =~= old_lines.push(finished@));
    }
    if lines.len() == 0 {
        lines.push(String::new());
        assert(lines@.map_values(|s: String| s@) =~= seq![Seq::<char>::empty()]);
    }
    lines
}

/// The two parts `split_text` cuts the rest `cs` of a text into, given the
/// left part so far (`used` cells wide).
pub open spec fn split_from(cs: Seq<char>, offset: nat, left: Seq<char>, used: nat) -> (
    Seq<char>,
    Seq<char>,
)
    decreases cs.len(),
{
    if cs.len() == 0 {
        (left, seq![])
    } else {
        let ch = cs[0];
        let cw = char_cells(ch);
        if used + cw > offset {
            (left + spaces((offset - used) as nat), cs)
        } else if used + cw == offset {
            (left.push(ch), cs.drop_first())
        } else {
            split_from(cs.drop_first(), offset, left.push(ch), used + cw)
        }
    }
}

/// The cells of two texts together are the cells of each.
proof fn lemma_cells_concat(a: Seq<char>, b: Seq<char>)
    ensures
        cells_sum(a + b) == cells_sum(a) + cells_sum(b),
    decreases b.len(),
{
    if b.len() == 0 {
        assert(a + b =~= a);
    } else {
        lemma_cells_concat(a, b.drop_last());
        assert((a + b).drop_last() =~= a + b.drop_last());
        assert((a + b).last() == b.last());
    }
}

/// The cells of one character followed by the rest.
proof fn lemma_cells_first(cs: Seq<char>)
    requires
        cs.len() > 0,
    ensures
        cells_sum(cs) == char_cells(cs[0]) + cells_sum(cs.drop_first()),
{
    lemma_cells_concat(seq![cs[0]], cs.drop_first());
    assert(seq![cs[0]] + cs.drop_first() =~= cs);
    assert(seq![cs[0]].drop_last() =~= Seq::<char>::empty());
    assert(cells_sum(Seq::<char>::empty()) == 0);
    assert(seq![cs[0]].last() == cs[0]);
    assert(cells_sum(seq![cs[0]]) == char_cells(cs[0]));
}

/// `n` spaces take `n` cells when a space takes one.
proof fn lemma_cells_spaces(n: nat)
    requires
        char_cells(' ') == 1,
    ensures
        cells_sum(spaces(n)) == n,
    decreases n,
{
    if n > 0 {
        lemma_cells_spaces((n - 1) as nat);
        assert(spaces(n).drop_last() =~= spaces((n - 1) as nat));
    }
}

proof fn lemma_split_from_law(cs: Seq<char>, off: nat, left: Seq<char>, used: nat)
    requires
        used == cells_sum(left),
        used <= off,
        char_cells(' ') == 1,
    ensures
        cells_sum(split_from(cs, off, left, used).0) == if off < used + cells_sum(cs) {
            off
        } else {
            used + cells_sum(cs)
        },
        split_from(cs, off, left, used).0 + split_from(cs, off, left, used).1 == left + cs || exists|k: int|
            0 <= k < cs.len() && used + cells_sum(cs.take(k)) < off < used + cells_sum(#[trigger] cs.take(k + 1)),
    decreases cs.len(),
{
    if cs.len() == 0 {
        assert(left + cs =~= left);
    } else {
        let ch = cs[0];
        let cw = char_cells(ch);
        let rest = cs.drop_first();
        lemma_cells_first(cs);
        assert(cs.take(0) =~= Seq::<char>::empty());
        assert(cs.take(1) =~= seq![ch]);
        lemma_cells_first(cs.take(1));
        assert(cs.take(1).drop_first() =~= Seq::<char>::empty());
        if used + cw > off {
            lemma_cells_concat(left, spaces((off - used) as nat));
            lemma_cells_spaces((off - used) as nat);
            if used == off {
                assert(left + spaces(0) =~= left);
            } else {
                assert(used + cells_sum(cs.take(0)) < off < used + cells_sum(cs.take(0int + 1)));
            }
        } else if used + cw == off {
            assert(left.push(ch).drop_last() =~= left);
            assert(left.push(ch) + rest =~= left + cs);
        } else {
            assert(left.push(ch).drop_last() =~= left);
            lemma_split_from_law(rest, off, left.push(ch), used + cw);
            let r = split_from(rest, off, left.push(ch), used + cw);
            assert(left.push(ch) + rest =~= left + cs);
            if r.0 + r.1 != left.push(ch) + rest {
                let k = choose|k: int|
                    0 <= k < rest.len() && used + cw + cells_sum(rest.take(k)) < off < used + cw + cells_sum(
                        #[trigger] rest.take(k + 1),
                    );
                assert(cs.take(k + 1) =~= seq![ch] + rest.take(k));
                assert(cs.take(k + 2) =~= seq![ch] + rest.take(k + 1));
                lemma_cells_first(cs.take(k + 1));
                lemma_cells_first(cs.take(k + 2));
                assert(cs.take(k + 1).drop_first() =~= rest.take(k));
                assert(cs.take(k + 2).drop_first() =~= rest.take(k + 1));
                assert(used + cells_sum(cs.take(k + 1)) < off < used + cells_sum(cs.take((k + 1) + 1)));
            }
        }
    }
}

/// Where a space takes one cell, the left part of `split_text` takes as
/// many cells (counting each character's cells) as the offset, or as the
/// whole text when that is narrower; and the two parts put together are the
/// text, unless a character straddles the offset.
pub proof fn lemma_split_text_law(text: Seq<char>, off: nat)
    requires
        char_cells(' ') == 1,
    ensures
        cells_sum(split_from(text, off, seq![], 0).0) == if off < cells_sum(text) {
            off
        } else {
            cells_sum(text)
        },
        split_from(text, off, seq![], 0).0 + split_from(text, off, seq![], 0).1 == text || exists|k: int|
            0 <= k < text.len() && cells_sum(text.take(k)) < off < cells_sum(#[trigger] text.take(k + 1)),
{
    assert(cells_sum(Seq::<char>::empty()) == 0);
    lemma_split_from_law(text, off, seq![], 0);
    assert(Seq::<char>::empty() + text =~= text);
}

proof fn lemma_crop_cells_width(cs: Seq<char>, t: nat, u: nat)
    requires
        u <= t,
        char_cells(' ') == 1,
    ensures
        cells_sum(crop_cells(cs, t, u)) == if cells_sum(cs) < t - u {
            cells_sum(cs)
        } else {
            (t - u) as nat
        },
    decreases cs.len(),
{
    if cs.len() == 0 {
    } else {
        lemma_cells_first(cs);
        if u + char_cells(cs[0]) > t {
            lemma_cells_spaces((t - u) as nat);
        } else {
            lemma_crop_cells_width(cs.drop_first(), t, u + char_cells(cs[0]));
            let r = crop_cells(cs.drop_first(), t, u + char_cells(cs[0]));
            lemma_cells_first(seq![cs[0]] + r);
            assert((seq![cs[0]] + r).drop_first() =~= r);
        }
    }
}

/// Where the width of `text` is the sum of its characters' cells and a
/// space takes one cell, `set_cell_size` gives text exactly `target` cells
/// wide, which begins with `text` when `text` fits.
pub proof fn lemma_set_cell_size_width(text: Seq<char>, target: nat)
    requires
        unicode_str_width(text) == cells_sum(text),
        char_cells(' ') == 1,
    ensures
        cells_sum(set_cell_size_spec(text, target)) == target,
        cells_sum(text) <= target ==> set_cell_size_spec(text, target).take(text.len() as int) == text,
{
    if cells_sum(text) > target {
        lemma_crop_cells_width(text, target, 0);
    } else if cells_sum(text) < target {
        let k = (target - cells_sum(text)) as nat;
        lemma_cells_concat(text, spaces(k));
        lemma_cells_spaces(k);
        assert((text + spaces(k)).take(text.len() as int) =~= text);
    } else {
        assert(text.take(text.len() as int) =~= text);
    }
}

/// Cuts `text` at cell offset `cell_offset`: a character that straddles the
/// offset goes to the right part and the left part is padded with spaces to
/// the offset.
pub fn split_text(text: &str, cell_offset: usize) -> (r: (String, String))
    ensures
        (r.0@, r.1@) == split_from(text@, cell_offset as nat, seq![], 0),
{
    let mut left = String::new();
    let mut right = String::new();
    let mut w: usize = 0;
    let n = text.unicode_len();
    let mut i: usize = 0;
    assert(text@.skip(0) =~= text@);
    while i < n
        invariant
            n == text@.len(),
            i <= n,
            w <= cell_offset,
            i > 0 ==> w < cell_offset,
            split_from(text@.skip(i as int), cell_offset as nat, left@, w as nat) == split_from(
                text@,
                cell_offset as nat,
                seq![],
                0,
            ),
            right@ == Seq::<char>::empty(),
        decreases n - i,
    {
        let ch = text.get_char(i);
        let cw = get_character_cell_size(ch);
        let ghost rest = text@.skip(i as int);
        assert(rest[0] == ch);
        assert(rest.drop_first() =~= text@.skip(i + 1));
        if cw > cell_offset - w {
            push_spaces(&mut left, cell_offset - w);
            let tail = crate::strutil::substring(text, i, n);
            return (left, tail);
        }
        push_char(&mut left, ch);
        w = w + cw;
        i = i + 1;
        if w == cell_offset {
            let tail = crate::strutil::substring(text, i, n);
            return (left, tail);
        }
    }
    assert(text@.skip(n as int) =~= Seq::<char>::empty());
    (left, right)
}

} // verus!
