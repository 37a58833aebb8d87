//! Emoji shortcodes: `:name:` in text stands for a Unicode emoji.

use vstd::prelude::*;
use crate::color_names::{keyed_view, lookup_in, table_lookup};
use crate::strutil::{contains_spec, contains_str, occurs_at, owned, push_char, push_str};

verus! {

/// The shortcode table: each name with the emoji that `:name:` stands for
/// (the first entry of a name is the one used).
pub open spec fn emoji_table() -> Seq<(Seq<char>, Seq<char>)> {
    seq![
        ("smile"@, "\u{1F60A}"@),
        ("smiley"@, "\u{1F603}"@),
        ("grin"@, "\u{1F601}"@),
        ("joy"@, "\u{1F602}"@),
        ("laughing"@, "\u{1F606}"@),
        ("sweat_smile"@, "\u{1F605}"@),
        ("wink"@, "\u{1F609}"@),
        ("blush"@, "\u{1F60A}"@),
        ("heart_eyes"@, "\u{1F60D}"@),
        ("kiss"@, "\u{1F618}"@),
        ("thinking"@, "\u{1F914}"@),
        ("sunglasses"@, "\u{1F60E}"@),
        ("neutral"@, "\u{1F610}"@),
        ("expressionless"@, "\u{1F611}"@),
        ("confused"@, "\u{1F615}"@),
        ("worried"@, "\u{1F61F}"@),
        ("frowning"@, "\u{1F626}"@),
        ("anguished"@, "\u{1F627}"@),
        ("cry"@, "\u{1F622}"@),
        ("sob"@, "\u{1F62D}"@),
        ("angry"@, "\u{1F620}"@),
        ("rage"@, "\u{1F621}"@),
        ("sleeping"@, "\u{1F634}"@),
        ("mask"@, "\u{1F637}"@),
        ("nerd"@, "\u{1F913}"@),
        ("party"@, "\u{1F973}"@),
        ("pleading"@, "\u{1F97A}"@),
        ("yawning"@, "\u{1F971}"@),
        ("smirk"@, "\u{1F60F}"@),
        ("disappointed"@, "\u{1F61E}"@),
        ("heart"@, "\u{2764}\u{FE0F}"@),
        ("orange_heart"@, "\u{1F9E1}"@),
        ("yellow_heart"@, "\u{1F49B}"@),
        ("green_heart"@, "\u{1F49A}"@),
        ("blue_heart"@, "\u{1F499}"@),
        ("purple_heart"@, "\u{1F49C}"@),
        ("black_heart"@, "\u{1F5A4}"@),
        ("broken_heart"@, "\u{1F494}"@),
        ("sparkles"@, "\u{2728}"@),
        ("star"@, "\u{2B50}"@),
        ("glowing_star"@, "\u{1F31F}"@),
        ("dizzy"@, "\u{1F4AB}"@),
        ("boom"@, "\u{1F4A5}"@),
        ("fire"@, "\u{1F525}"@),
        ("zap"@, "\u{26A1}"@),
        ("check"@, "\u{2705}"@),
        ("cross"@, "\u{274C}"@),
        ("warning"@, "\u{26A0}\u{FE0F}"@),
        ("info"@, "\u{2139}\u{FE0F}"@),
        ("100"@, "\u{1F4AF}"@),
        ("bulb"@, "\u{1F4A1}"@),
        ("gear"@, "\u{2699}\u{FE0F}"@),
        ("wrench"@, "\u{1F527}"@),
        ("lock"@, "\u{1F512}"@),
        ("unlock"@, "\u{1F513}"@),
        ("key"@, "\u{1F511}"@),
        ("bell"@, "\u{1F514}"@),
        ("book"@, "\u{1F4D6}"@),
        ("pencil"@, "\u{270F}\u{FE0F}"@),
        ("paperclip"@, "\u{1F4CE}"@),
        ("scissors"@, "\u{2702}\u{FE0F}"@),
        ("pin"@, "\u{1F4CC}"@),
        ("email"@, "\u{1F4E7}"@),
        ("phone"@, "\u{1F4DE}"@),
        ("calendar"@, "\u{1F4C5}"@),
        ("clock"@, "\u{1F550}"@),
        ("hourglass"@, "\u{23F3}"@),
        ("stopwatch"@, "\u{23F1}\u{FE0F}"@),
        ("timer"@, "\u{23F2}\u{FE0F}"@),
        ("microscope"@, "\u{1F52C}"@),
        ("bug"@, "\u{1F41B}"@),
        ("rocket"@, "\u{1F680}"@),
        ("satellite"@, "\u{1F4E1}"@),
        ("thumbs_up"@, "\u{1F44D}"@),
        ("thumbs_down"@, "\u{1F44E}"@),
        ("clap"@, "\u{1F44F}"@),
        ("wave"@, "\u{1F44B}"@),
        ("pray"@, "\u{1F64F}"@),
        ("muscle"@, "\u{1F4AA}"@),
        ("raised_hands"@, "\u{1F64C}"@),
        ("point_up"@, "\u{261D}\u{FE0F}"@),
        ("point_down"@, "\u{1F447}"@),
        ("point_left"@, "\u{1F448}"@),
        ("point_right"@, "\u{1F449}"@),
        ("arrow_right"@, "\u{27A1}\u{FE0F}"@),
        ("arrow_left"@, "\u{2B05}\u{FE0F}"@),
        ("arrow_up"@, "\u{2B06}\u{FE0F}"@),
        ("arrow_down"@, "\u{2B07}\u{FE0F}"@),
        ("arrow_up_down"@, "\u{2195}\u{FE0F}"@),
        ("left_right_arrow"@, "\u{2194}\u{FE0F}"@),
        ("twisted_rightwards_arrows"@, "\u{1F500}"@),
        ("repeat"@, "\u{1F501}"@),
        ("beetle"@, "\u{1FAB2}"@),
        ("ant"@, "\u{1F41C}"@),
        ("bee"@, "\u{1F41D}"@),
        ("snake"@, "\u{1F40D}"@),
        ("turtle"@, "\u{1F422}"@),
        ("rabbit"@, "\u{1F430}"@),
        ("fox"@, "\u{1F98A}"@),
        ("dog"@, "\u{1F436}"@),
        ("cat"@, "\u{1F431}"@),
        ("paw_prints"@, "\u{1F43E}"@),
        ("sunflower"@, "\u{1F33B}"@),
        ("cherry_blossom"@, "\u{1F338}"@),
        ("seedling"@, "\u{1F331}"@),
        ("globe"@, "\u{1F30E}"@),
        ("moon"@, "\u{1F319}"@),
        ("rainbow"@, "\u{1F308}"@),
        ("tada"@, "\u{1F389}"@),
        ("confetti"@, "\u{1F38A}"@),
        ("gift"@, "\u{1F381}"@),
        ("crown"@, "\u{1F451}"@),
        ("medal"@, "\u{1F3C5}"@),
        ("trophy"@, "\u{1F3C6}"@),
        ("moneybag"@, "\u{1F4B0}"@),
        ("chart"@, "\u{1F4CA}"@),
        ("bar_chart"@, "\u{1F4CA}"@),
        ("clipboard"@, "\u{1F4CB}"@),
        ("page_facing_up"@, "\u{1F4C4}"@),
        ("folder"@, "\u{1F4C1}"@),
        ("open_folder"@, "\u{1F4C2}"@),
        ("computer"@, "\u{1F4BB}"@),
        ("printer"@, "\u{1F5A8}\u{FE0F}"@),
        ("game_die"@, "\u{1F3B2}"@),
        ("alien"@, "\u{1F47D}"@),
        ("robot"@, "\u{1F916}"@),
        ("ghost"@, "\u{1F47B}"@),
    ]
}

/// The shortcode table, as `(name, emoji)` pairs.
pub fn get_emoji_map() -> (r: Vec<(&'static str, &'static str)>)
    ensures
        r@.map_values(|e: (&str, &str)| (e.0@, e.1@)) == emoji_table(),
{
    let v = vec![
        ("smile", "\u{1F60A}"),
        ("smiley", "\u{1F603}"),
        ("grin", "\u{1F601}"),
        ("joy", "\u{1F602}"),
        ("laughing", "\u{1F606}"),
        ("sweat_smile", "\u{1F605}"),
        ("wink", "\u{1F609}"),
        ("blush", "\u{1F60A}"),
        ("heart_eyes", "\u{1F60D}"),
        ("kiss", "\u{1F618}"),
        ("thinking", "\u{1F914}"),
        ("sunglasses", "\u{1F60E}"),
        ("neutral", "\u{1F610}"),
        ("expressionless", "\u{1F611}"),
        ("confused", "\u{1F615}"),
        ("worried", "\u{1F61F}"),
        ("frowning", "\u{1F626}"),
        ("anguished", "\u{1F627}"),
        ("cry", "\u{1F622}"),
        ("sob", "\u{1F62D}"),
        ("angry", "\u{1F620}"),
        ("rage", "\u{1F621}"),
        ("sleeping", "\u{1F634}"),
        ("mask", "\u{1F637}"),
        ("nerd", "\u{1F913}"),
        ("party", "\u{1F973}"),
        ("pleading", "\u{1F97A}"),
        ("yawning", "\u{1F971}"),
        ("smirk", "\u{1F60F}"),
        ("disappointed", "\u{1F61E}"),
        ("heart", "\u{2764}\u{FE0F}"),
        ("orange_heart", "\u{1F9E1}"),
        ("yellow_heart", "\u{1F49B}"),
        ("green_heart", "\u{1F49A}"),
        ("blue_heart", "\u{1F499}"),
        ("purple_heart", "\u{1F49C}"),
        ("black_heart", "\u{1F5A4}"),
        ("broken_heart", "\u{1F494}"),
        ("sparkles", "\u{2728}"),
        ("star", "\u{2B50}"),
        ("glowing_star", "\u{1F31F}"),
        ("dizzy", "\u{1F4AB}"),
        ("boom", "\u{1F4A5}"),
        ("fire", "\u{1F525}"),
        ("zap", "\u{26A1}"),
        ("check", "\u{2705}"),
        ("cross", "\u{274C}"),
        ("warning", "\u{26A0}\u{FE0F}"),
        ("info", "\u{2139}\u{FE0F}"),
        ("100", "\u{1F4AF}"),
        ("bulb", "\u{1F4A1}"),
        ("gear", "\u{2699}\u{FE0F}"),
        ("wrench", "\u{1F527}"),
        ("lock", "\u{1F512}"),
        ("unlock", "\u{1F513}"),
        ("key", "\u{1F511}"),
        ("bell", "\u{1F514}"),
        ("book", "\u{1F4D6}"),
        ("pencil", "\u{270F}\u{FE0F}"),
        ("paperclip", "\u{1F4CE}"),
        ("scissors", "\u{2702}\u{FE0F}"),
        ("pin", "\u{1F4CC}"),
        ("email", "\u{1F4E7}"),
        ("phone", "\u{1F4DE}"),
        ("calendar", "\u{1F4C5}"),
        ("clock", "\u{1F550}"),
        ("hourglass", "\u{23F3}"),
        ("stopwatch", "\u{23F1}\u{FE0F}"),
        ("timer", "\u{23F2}\u{FE0F}"),
        ("microscope", "\u{1F52C}"),
        ("bug", "\u{1F41B}"),
        ("rocket", "\u{1F680}"),
        ("satellite", "\u{1F4E1}"),
        ("thumbs_up", "\u{1F44D}"),
        ("thumbs_down", "\u{1F44E}"),
        ("clap", "\u{1F44F}"),
        ("wave", "\u{1F44B}"),
        ("pray", "\u{1F64F}"),
        ("muscle", "\u{1F4AA}"),
        ("raised_hands", "\u{1F64C}"),
        ("point_up", "\u{261D}\u{FE0F}"),
        ("point_down", "\u{1F447}"),
        ("point_left", "\u{1F448}"),
        ("point_right", "\u{1F449}"),
        ("arrow_right", "\u{27A1}\u{FE0F}"),
        ("arrow_left", "\u{2B05}\u{FE0F}"),
        ("arrow_up", "\u{2B06}\u{FE0F}"),
        ("arrow_down", "\u{2B07}\u{FE0F}"),
        ("arrow_up_down", "\u{2195}\u{FE0F}"),
        ("left_right_arrow", "\u{2194}\u{FE0F}"),
        ("twisted_rightwards_arrows", "\u{1F500}"),
        ("repeat", "\u{1F501}"),
        ("beetle", "\u{1FAB2}"),
        ("ant", "\u{1F41C}"),
        ("bee", "\u{1F41D}"),
        ("snake", "\u{1F40D}"),
        ("turtle", "\u{1F422}"),
        ("rabbit", "\u{1F430}"),
        ("fox", "\u{1F98A}"),
        ("dog", "\u{1F436}"),
        ("cat", "\u{1F431}"),
        ("paw_prints", "\u{1F43E}"),
        ("sunflower", "\u{1F33B}"),
        ("cherry_blossom", "\u{1F338}"),
        ("seedling", "\u{1F331}"),
        ("globe", "\u{1F30E}"),
        ("moon", "\u{1F319}"),
        ("rainbow", "\u{1F308}"),
        ("tada", "\u{1F389}"),
        ("confetti", "\u{1F38A}"),
        ("gift", "\u{1F381}"),
        ("crown", "\u{1F451}"),
        ("medal", "\u{1F3C5}"),
        ("trophy", "\u{1F3C6}"),
        ("moneybag", "\u{1F4B0}"),
        ("chart", "\u{1F4CA}"),
        ("bar_chart", "\u{1F4CA}"),
        ("clipboard", "\u{1F4CB}"),
        ("page_facing_up", "\u{1F4C4}"),
        ("folder", "\u{1F4C1}"),
        ("open_folder", "\u{1F4C2}"),
        ("computer", "\u{1F4BB}"),
        ("printer", "\u{1F5A8}\u{FE0F}"),
        ("game_die", "\u{1F3B2}"),
        ("alien", "\u{1F47D}"),
        ("robot", "\u{1F916}"),
        ("ghost", "\u{1F47B}"),
    ];
    assert(v@.map_values(|e: (&str, &str)| (e.0@, e.1@)) =~= emoji_table());
    v
}

/// `:code:`, the shortcode written in text for the emoji named `code`.
pub open spec fn shortcode(code: Seq<char>) -> Seq<char> {
    seq![':'] + code + seq![':']
}

/// Whether `c` is white space, as a shortcode may not hold it.
pub open spec fn shortcode_space(c: char) -> bool {
    ||| c == ' ' || c == '\t' || c == '\n' || c == '\r' || c == '\x0b' || c == '\x0c'
    ||| ('\x1c' <= c && c <= '\x1f') || c == '\u{85}' || c == '\u{a0}' || c == '\u{1680}'
    ||| ('\u{2000}' <= c && c <= '\u{200a}') || c == '\u{2028}' || c == '\u{2029}' || c == '\u{202f}'
    ||| c == '\u{205f}' || c == '\u{3000}'
}

/// The first `:` at or after `k` with no white space before it (from `k`
/// on), if there is one.
pub open spec fn close_colon(t: Seq<char>, k: int) -> Option<int>
    decreases t.len() - k,
{
    if k < 0 || k >= t.len() || shortcode_space(t[k]) {
        None
    } else if t[k] == ':' {
        Some(k)
    } else {
        close_colon(t, k + 1)
    }
}

/// The emoji of shortcode name `code`, if the table has it.
pub open spec fn emoji_for(code: Seq<char>) -> Option<Seq<char>> {
    table_lookup(emoji_table(), code)
}

/// `t` from index `i` on with its shortcodes replaced, read left to right:
/// a `:` followed by a name without white space and a closing `:` is
/// replaced by the name's emoji when the table has it, else kept as it
/// is; either way the reading goes on after the closing `:`.
pub open spec fn emoji_from(t: Seq<char>, i: int) -> Seq<char>
    decreases t.len() - i,
{
    if i < 0 || i >= t.len() {
        seq![]
    } else if t[i] == ':' && close_colon(t, i + 1) is Some {
        let j = close_colon(t, i + 1).unwrap();
        if i < j < t.len() {
            (match emoji_for(t.subrange(i + 1, j)) {
                Some(e) => e,
                None => t.subrange(i, j + 1),
            }) + emoji_from(t, j + 1)
        } else {
            seq![]
        }
    } else {
        seq![t[i]] + emoji_from(t, i + 1)
    }
}

/// `text` with every known shortcode replaced by its emoji.
pub open spec fn replace_emoji_spec(text: Seq<char>) -> Seq<char> {
    emoji_from(text, 0)
}

proof fn lemma_close_colon_bounds(t: Seq<char>, k: int)
    ensures
        close_colon(t, k) matches Some(j) ==> 0 <= k <= j < t.len() && t[j] == ':',
    decreases t.len() - k,
{
    if !(k < 0 || k >= t.len() || shortcode_space(t[k])) && t[k] != ':' {
        lemma_close_colon_bounds(t, k + 1);
    }
}

/// A lookup in the table of `&str` pairs agrees with the lookup in its
/// character view.
proof fn lemma_lookup_views(m: Seq<(&'static str, &'static str)>, k: Seq<char>)
    ensures
        match table_lookup(keyed_view(m), k) {
            Some(s) => table_lookup(m.map_values(|e: (&str, &str)| (e.0@, e.1@)), k) == Some(s@),
            None => table_lookup(m.map_values(|e: (&str, &str)| (e.0@, e.1@)), k) is None,
        },
    decreases m.len(),
{
    if m.len() > 0 {
        assert(keyed_view(m).drop_first() =~= keyed_view(m.drop_first()));
        assert(m.map_values(|e: (&str, &str)| (e.0@, e.1@)).drop_first() =~= m.drop_first().map_values(
            |e: (&str, &str)| (e.0@, e.1@),
        ));
        lemma_lookup_views(m.drop_first(), k);
    }
}

/// The first `:` at or after `k` with no white space before it.
fn find_close(v: &Vec<char>, k: usize) -> (r: Option<usize>)
    ensures
        match r {
            Some(j) => close_colon(v@, k as int) == Some(j as int),
            None => close_colon(v@, k as int) is None,
        },
{
    let mut j = k;
    while j < v.len()
        invariant
            k <= j,
            close_colon(v@, k as int) == close_colon(v@, j as int),
        decreases v.len() - j,
    {
        let c = v[j];
        if c == ' ' || c == '\t' || c == '\n' || c == '\r' || c == '\x0b' || c == '\x0c' || ('\x1c' <= c
            && c <= '\x1f') || c == '\u{85}' || c == '\u{a0}' || c == '\u{1680}' || ('\u{2000}' <= c && c
            <= '\u{200a}') || c == '\u{2028}' || c == '\u{2029}' || c == '\u{202f}' || c == '\u{205f}' || c
            == '\u{3000}' {
            return None;
        }
        if c == ':' {
            return Some(j);
        }
        j = j + 1;
    }
    None
}

/// The characters `v[a..b]` as a string.
fn chars_between(v: &Vec<char>, a: usize, b: usize) -> (r: String)
    requires
        a <= b <= v.len(),
    ensures
        r@ == v@.subrange(a as int, b as int),
{
    let mut r = String::new();
    let mut k = a;
    while k < b
        invariant
            a <= k <= b,
            b <= v.len(),
            r@ == v@.subrange(a as int, k as int),
        decreases b - k,
    {
        push_char(&mut r, v[k]);
        k = k + 1;
        assert(r@ =~= v@.subrange(a as int, k as int));
    }
    r
}

/// Whether `text` holds the shortcode of some entry of the table.
pub open spec fn has_emoji_spec(text: Seq<char>) -> bool {
    exists|i: int| 0 <= i < emoji_table().len() && #[trigger] contains_spec(text, shortcode(emoji_table()[i].0))
}

/// A name the table finds is the name of one of its entries.
proof fn lemma_lookup_found(t: Seq<(Seq<char>, Seq<char>)>, k: Seq<char>)
    ensures
        table_lookup(t, k) is Some ==> exists|i: int| 0 <= i < t.len() && (#[trigger] t[i]).0 == k,
    decreases t.len(),
{
    if t.len() > 0 && t[0].0 != k {
        lemma_lookup_found(t.drop_first(), k);
        if table_lookup(t, k) is Some {
            let i = choose|i: int| 0 <= i < t.drop_first().len() && (#[trigger] t.drop_first()[i]).0 == k;
            assert(t[i + 1] == t.drop_first()[i]);
        }
    }
}

proof fn lemma_emoji_from_plain(t: Seq<char>, i: int)
    requires
        0 <= i <= t.len(),
        !has_emoji_spec(t),
    ensures
        emoji_from(t, i) == t.subrange(i, t.len() as int),
    decreases t.len() - i,
{
    if i < t.len() {
        if t[i] == ':' && close_colon(t, i + 1) is Some {
            lemma_close_colon_bounds(t, i + 1);
            let j = close_colon(t, i + 1).unwrap();
            let code = t.subrange(i + 1, j);
            lemma_emoji_from_plain(t, j + 1);
            lemma_lookup_found(emoji_table(), code);
            if emoji_for(code) is Some {
                let k = choose|k: int| 0 <= k < emoji_table().len() && (#[trigger] emoji_table()[k]).0 == code;
                assert(t.subrange(i, i + shortcode(code).len()) =~= shortcode(code));
                assert(occurs_at(t, shortcode(emoji_table()[k].0), i));
                assert(contains_spec(t, shortcode(emoji_table()[k].0)));
            }
            assert(t.subrange(i, j + 1) + t.subrange(j + 1, t.len() as int) =~= t.subrange(i, t.len() as int));
        } else {
            lemma_emoji_from_plain(t, i + 1);
            assert(seq![t[i]] + t.subrange(i + 1, t.len() as int) =~= t.subrange(i, t.len() as int));
        }
    } else {
        assert(t.subrange(i, t.len() as int) =~= Seq::<char>::empty());
    }
}

/// Text that holds no known shortcode is left as it is by `replace`.
pub proof fn lemma_replace_without_emoji(text: Seq<char>)
    requires
        !has_emoji_spec(text),
    ensures
        replace_emoji_spec(text) == text,
{
    lemma_emoji_from_plain(text, 0);
    assert(text.subrange(0, text.len() as int) =~= text);
}

/// Builds `:code:`.
fn make_shortcode(code: &str) -> (r: String)
    ensures
        r@ == shortcode(code@),
{
    let mut s = String::new();
    push_char(&mut s, ':');
    push_str(&mut s, code);
    push_char(&mut s, ':');
    assert(s@ =~= shortcode(code@));
    s
}

/// Replaces emoji shortcodes in text.
pub struct Emoji;

impl Emoji {
    /// Replaces every known `:shortcode:` in `text` by its emoji; unknown
    /// shortcodes are left as they are.
    pub fn replace(text: &str) -> (r: String)
        ensures
            r@ == replace_emoji_spec(text@),
    {
        let map = get_emoji_map();
        let v = crate::strutil::chars_of(text);
        let n = v.len();
        let mut out = String::new();
        let mut i: usize = 0;
        while i < n
            invariant
                v@ == text@,
                n == v.len(),
                i <= n,
                map@.map_values(|e: (&str, &str)| (e.0@, e.1@)) == emoji_table(),
                out@ + emoji_from(v@, i as int) == emoji_from(v@, 0),
            decreases n - i,
        {
            let c = v[i];
            let close = if c == ':' {
                find_close(&v, i + 1)
            } else {
                None
            };
            match close {
                Some(j) => {
                    proof {
                        lemma_close_colon_bounds(v@, i + 1);
                    }
                    let code = chars_between(&v, i + 1, j);
                    let ghost before = out@;
                    match lookup_in(&map, code.as_str()) {
                        Some(e) => {
                            proof {
                                lemma_lookup_views(map@, code@);
                            }
                            push_str(&mut out, e);
                        },
                        None => {
                            proof {
                                lemma_lookup_views(map@, code@);
                            }
                            let whole = chars_between(&v, i, j + 1);
                            push_str(&mut out, whole.as_str());
                        },
                    }
                    assert(out@ + emoji_from(v@, j + 1) =~= before + emoji_from(v@, i as int));
                    i = j + 1;
                },
                None => {
                    let ghost before = out@;
                    push_char(&mut out, c);
                    assert(out@ + emoji_from(v@, i + 1) =~= before + emoji_from(v@, i as int));
                    i = i + 1;
                },
            }
        }
        assert(out@ =~= emoji_from(v@, 0));
        out
    }

    /// Whether `text` holds any known shortcode.
    pub fn has_emoji(text: &str) -> (b: bool)
        ensures
            b == has_emoji_spec(text@),
    {
        let map = get_emoji_map();
        let ghost table = map@.map_values(|e: (&str, &str)| (e.0@, e.1@));
        let mut i: usize = 0;
        while i < map.len()
            invariant
                table == emoji_table(),
                table == map@.map_values(|e: (&str, &str)| (e.0@, e.1@)),
                i <= map.len(),
                forall|j: int| 0 <= j < i ==> !#[trigger] contains_spec(text@, shortcode(emoji_table()[j].0)),
            decreases map.len() - i,
        {
            let (code, _emoji) = map[i];
            assert(table[i as int] == (code@, _emoji@));
            let pattern = make_shortcode(code);
            if contains_str(text, pattern.as_str()) {
                assert(contains_spec(text@, shortcode(emoji_table()[i as int].0)));
                return true;
            }
            i = i + 1;
        }
        false
    }
}

/// Leaves shortcodes as they are.
pub struct NoEmoji;

impl NoEmoji {
    /// `text`, unchanged.
    pub fn replace(text: &str) -> (r: String)
        ensures
            r@ == text@,
    {
        owned(text)
    }
}

} // verus!
