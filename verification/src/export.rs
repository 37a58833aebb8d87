//! Exporting rendered output: plain text without escape sequences, and
//! SVG documents whose colors come from a terminal theme; styled segments
//! become HTML spans or SVG tspans.

use vstd::prelude::*;
use crate::color::{Color, ColorType, ColorValue, standard_rgb, standard_palette_rgb};
use crate::segment::Segment;
use crate::style::{Style, Attribute};
use crate::strutil::{
    decimal_chars, owned, push_char, push_decimal, push_str, replace_all, replace_spec, join_with, views, lacks, lemma_replace_leaves_none,
};

verus! {

/// The colors of a terminal, for export.
#[derive(Debug, Clone, Copy, PartialEq, Eq)]
pub struct ExportTheme {
    /// Background color.
    pub background: (u8, u8, u8),
    /// Default text color.
    pub foreground: (u8, u8, u8),
    /// The 16 standard ANSI colors.
    pub ansi_colors: [(u8, u8, u8); 16],
}

impl Default for ExportTheme {
    /// Black background, white text and the classic VGA-style palette.
    fn default() -> (t: Self)
        ensures
            t.background == (0u8, 0u8, 0u8),
            t.foreground == (255u8, 255u8, 255u8),
            t.ansi_colors@ == seq![(0u8, 0u8, 0u8), (128u8, 0u8, 0u8), (0u8, 128u8, 0u8), (128u8, 128u8, 0u8), (0u8, 0u8, 128u8), (128u8, 0u8, 128u8), (0u8, 128u8, 128u8), (192u8, 192u8, 192u8), (128u8, 128u8, 128u8), (255u8, 0u8, 0u8), (0u8, 255u8, 0u8), (255u8, 255u8, 0u8), (0u8, 0u8, 255u8), (255u8, 0u8, 255u8), (0u8, 255u8, 255u8), (255u8, 255u8, 255u8)],
    {
        let t = ExportTheme {
            background: (0, 0, 0),
            foreground: (255, 255, 255),
            ansi_colors: [
                (0, 0, 0),
                (128, 0, 0),
                (0, 128, 0),
                (128, 128, 0),
                (0, 0, 128),
                (128, 0, 128),
                (0, 128, 128),
                (192, 192, 192),
                (128, 128, 128),
                (255, 0, 0),
                (0, 255, 0),
                (255, 255, 0),
                (0, 0, 255),
                (255, 0, 255),
                (0, 255, 255),
                (255, 255, 255),
            ],
        };
        assert(t.ansi_colors@ =~= seq![(0u8, 0u8, 0u8), (128u8, 0u8, 0u8), (0u8, 128u8, 0u8), (128u8, 128u8, 0u8), (0u8, 0u8, 128u8), (128u8, 0u8, 128u8), (0u8, 128u8, 128u8), (192u8, 192u8, 192u8), (128u8, 128u8, 128u8), (255u8, 0u8, 0u8), (0u8, 255u8, 0u8), (255u8, 255u8, 0u8), (0u8, 0u8, 255u8), (255u8, 0u8, 255u8), (0u8, 255u8, 255u8), (255u8, 255u8, 255u8)]);
        t
    }
}

/// Monokai-inspired dark theme for HTML/SVG export.
pub fn export_theme_monokai() -> (t: ExportTheme)
    ensures
        t.background == (39u8, 40u8, 34u8),
        t.foreground == (248u8, 248u8, 242u8),
        t.ansi_colors@ == seq![(39u8, 40u8, 34u8), (249u8, 38u8, 114u8), (166u8, 226u8, 46u8), (230u8, 219u8, 116u8), (102u8, 217u8, 239u8), (174u8, 129u8, 255u8), (161u8, 239u8, 228u8), (248u8, 248u8, 242u8), (117u8, 113u8, 94u8), (249u8, 38u8, 114u8), (166u8, 226u8, 46u8), (230u8, 219u8, 116u8), (102u8, 217u8, 239u8), (174u8, 129u8, 255u8), (161u8, 239u8, 228u8), (248u8, 248u8, 242u8)],
{
    let t = ExportTheme {
    background: (39, 40, 34),
    foreground: (248, 248, 242),
    ansi_colors: [
        (39, 40, 34),
        (249, 38, 114),
        (166, 226, 46),
        (230, 219, 116),
        (102, 217, 239),
        (174, 129, 255),
        (161, 239, 228),
        (248, 248, 242),
        (117, 113, 94),
        (249, 38, 114),
        (166, 226, 46),
        (230, 219, 116),
        (102, 217, 239),
        (174, 129, 255),
        (161, 239, 228),
        (248, 248, 242),
    ],
};
    assert(t.ansi_colors@ =~= seq![(39u8, 40u8, 34u8), (249u8, 38u8, 114u8), (166u8, 226u8, 46u8), (230u8, 219u8, 116u8), (102u8, 217u8, 239u8), (174u8, 129u8, 255u8), (161u8, 239u8, 228u8), (248u8, 248u8, 242u8), (117u8, 113u8, 94u8), (249u8, 38u8, 114u8), (166u8, 226u8, 46u8), (230u8, 219u8, 116u8), (102u8, 217u8, 239u8), (174u8, 129u8, 255u8), (161u8, 239u8, 228u8), (248u8, 248u8, 242u8)]);
    t
}

/// Dimmed Monokai variant -- lower contrast, suitable for comfortable reading.
pub fn export_theme_dimmed_monokai() -> (t: ExportTheme)
    ensures
        t.background == (35u8, 35u8, 35u8),
        t.foreground == (185u8, 188u8, 186u8),
        t.ansi_colors@ == seq![(35u8, 35u8, 35u8), (190u8, 63u8, 72u8), (135u8, 154u8, 59u8), (197u8, 166u8, 56u8), (79u8, 118u8, 161u8), (133u8, 92u8, 141u8), (87u8, 143u8, 164u8), (185u8, 188u8, 186u8), (83u8, 83u8, 83u8), (240u8, 80u8, 80u8), (148u8, 166u8, 73u8), (215u8, 180u8, 66u8), (108u8, 147u8, 177u8), (152u8, 117u8, 171u8), (101u8, 164u8, 179u8), (230u8, 235u8, 235u8)],
{
    let t = ExportTheme {
    background: (35, 35, 35),
    foreground: (185, 188, 186),
    ansi_colors: [
        (35, 35, 35),
        (190, 63, 72),
        (135, 154, 59),
        (197, 166, 56),
        (79, 118, 161),
        (133, 92, 141),
        (87, 143, 164),
        (185, 188, 186),
        (83, 83, 83),
        (240, 80, 80),
        (148, 166, 73),
        (215, 180, 66),
        (108, 147, 177),
        (152, 117, 171),
        (101, 164, 179),
        (230, 235, 235),
    ],
};
    assert(t.ansi_colors@ =~= seq![(35u8, 35u8, 35u8), (190u8, 63u8, 72u8), (135u8, 154u8, 59u8), (197u8, 166u8, 56u8), (79u8, 118u8, 161u8), (133u8, 92u8, 141u8), (87u8, 143u8, 164u8), (185u8, 188u8, 186u8), (83u8, 83u8, 83u8), (240u8, 80u8, 80u8), (148u8, 166u8, 73u8), (215u8, 180u8, 66u8), (108u8, 147u8, 177u8), (152u8, 117u8, 171u8), (101u8, 164u8, 179u8), (230u8, 235u8, 235u8)]);
    t
}

/// Night Owl-inspired dark theme with deep blue background.
pub fn export_theme_night_owlish() -> (t: ExportTheme)
    ensures
        t.background == (1u8, 22u8, 39u8),
        t.foreground == (214u8, 222u8, 235u8),
        t.ansi_colors@ == seq![(1u8, 22u8, 39u8), (255u8, 88u8, 116u8), (173u8, 219u8, 103u8), (255u8, 203u8, 107u8), (130u8, 170u8, 255u8), (199u8, 146u8, 234u8), (137u8, 221u8, 255u8), (214u8, 222u8, 235u8), (84u8, 94u8, 109u8), (255u8, 88u8, 116u8), (173u8, 219u8, 103u8), (255u8, 203u8, 107u8), (130u8, 170u8, 255u8), (199u8, 146u8, 234u8), (137u8, 221u8, 255u8), (255u8, 255u8, 255u8)],
{
    let t = ExportTheme {
    background: (1, 22, 39),
    foreground: (214, 222, 235),
    ansi_colors: [
        (1, 22, 39),
        (255, 88, 116),
        (173, 219, 103),
        (255, 203, 107),
        (130, 170, 255),
        (199, 146, 234),
        (137, 221, 255),
        (214, 222, 235),
        (84, 94, 109),
        (255, 88, 116),
        (173, 219, 103),
        (255, 203, 107),
        (130, 170, 255),
        (199, 146, 234),
        (137, 221, 255),
        (255, 255, 255),
    ],
};
    assert(t.ansi_colors@ =~= seq![(1u8, 22u8, 39u8), (255u8, 88u8, 116u8), (173u8, 219u8, 103u8), (255u8, 203u8, 107u8), (130u8, 170u8, 255u8), (199u8, 146u8, 234u8), (137u8, 221u8, 255u8), (214u8, 222u8, 235u8), (84u8, 94u8, 109u8), (255u8, 88u8, 116u8), (173u8, 219u8, 103u8), (255u8, 203u8, 107u8), (130u8, 170u8, 255u8), (199u8, 146u8, 234u8), (137u8, 221u8, 255u8), (255u8, 255u8, 255u8)]);
    t
}

/// Light theme with white background, suitable for SVG export snippets.
pub fn export_theme_svg() -> (t: ExportTheme)
    ensures
        is_svg_theme(t),
{
    let t = ExportTheme {
    background: (255, 255, 255),
    foreground: (0, 0, 0),
    ansi_colors: [
        (0, 0, 0),
        (204, 0, 0),
        (0, 170, 0),
        (204, 102, 0),
        (0, 0, 204),
        (170, 0, 170),
        (0, 170, 170),
        (170, 170, 170),
        (102, 102, 102),
        (255, 0, 0),
        (0, 255, 0),
        (255, 255, 0),
        (0, 0, 255),
        (255, 0, 255),
        (0, 255, 255),
        (255, 255, 255),
    ],
};
    assert(t.ansi_colors@ =~= seq![(0u8, 0u8, 0u8), (204u8, 0u8, 0u8), (0u8, 170u8, 0u8), (204u8, 102u8, 0u8), (0u8, 0u8, 204u8), (170u8, 0u8, 170u8), (0u8, 170u8, 170u8), (170u8, 170u8, 170u8), (102u8, 102u8, 102u8), (255u8, 0u8, 0u8), (0u8, 255u8, 0u8), (255u8, 255u8, 0u8), (0u8, 0u8, 255u8), (255u8, 0u8, 255u8), (0u8, 255u8, 255u8), (255u8, 255u8, 255u8)]);
    t
}

/// The HTML page that exported output is placed in.
pub const CONSOLE_HTML_FORMAT: &'static str = r#"<!DOCTYPE html>
<html lang="en">
<head>
<meta charset="UTF-8">
<meta name="viewport" content="width=device-width, initial-scale=1.0">
<title>rusty-rich</title>
<style>
    body {{
        margin: 0;
        padding: 0;
    }}
    pre.rich-html {{
        font-family: {font_family};
        font-size: {font_size}px;
        line-height: {line_height};
        color: {foreground};
        background-color: {background};
        margin: 0;
        padding: 16px 24px;
        white-space: pre-wrap;
        word-wrap: break-word;
        overflow-x: auto;
    }}
</style>
</head>
<body>
<pre class="rich-html">
{code}
</pre>
</body>
</html>"#;

/// The SVG document that exported output is placed in.
pub const CONSOLE_SVG_FORMAT: &'static str = r#"<svg class="rich-svg" xmlns="http://www.w3.org/2000/svg" width="{width}" height="{height}" viewBox="0 0 {width} {height}">
<style>
    text {{ font-family: {font_family}; font-size: {font_size}px; }}
</style>
<rect width="100%" height="100%" fill="{background}"/>
<text x="0" y="{baseline}" xml:space="preserve">
{code}
</text>
</svg>"#;


/// `text` with `&`, `<`, `>` and `"` replaced by HTML entities (in that
/// order).
pub open spec fn escape_html_spec(t: Seq<char>) -> Seq<char> {
    replace_spec(
        replace_spec(
            replace_spec(replace_spec(t, "&"@, "&amp;"@), "<"@, "&lt;"@),
            ">"@,
            "&gt;"@,
        ),
        "\""@,
        "&quot;"@,
    )
}

/// `text` with `&`, `<`, `>`, `"` and `'` replaced by XML entities (in that
/// order).
pub open spec fn escape_xml_spec(t: Seq<char>) -> Seq<char> {
    replace_spec(escape_html_spec(t), "'"@, "&apos;"@)
}

/// Escaped XML text has no `<`, `>`, `"` or `'` left.
pub proof fn lemma_escape_xml_leaves_no_specials(t: Seq<char>)
    ensures
        lacks(escape_xml_spec(t), '<'),
        lacks(escape_xml_spec(t), '>'),
        lacks(escape_xml_spec(t), '"'),
        lacks(escape_xml_spec(t), '\''),
{
    reveal_strlit("&");
    reveal_strlit("&amp;");
    reveal_strlit("<");
    reveal_strlit("&lt;");
    reveal_strlit(">");
    reveal_strlit("&gt;");
    reveal_strlit("\"");
    reveal_strlit("&quot;");
    reveal_strlit("'");
    reveal_strlit("&apos;");
    let a = replace_spec(t, "&"@, "&amp;"@);
    let b = replace_spec(a, "<"@, "&lt;"@);
    let c = replace_spec(b, ">"@, "&gt;"@);
    let e = replace_spec(c, "\""@, "&quot;"@);
    let x = replace_spec(e, "'"@, "&apos;"@);
    lemma_replace_leaves_none(a, "<"@, "&lt;"@, '<');
    lemma_replace_leaves_none(b, ">"@, "&gt;"@, '<');
    lemma_replace_leaves_none(c, "\""@, "&quot;"@, '<');
    lemma_replace_leaves_none(e, "'"@, "&apos;"@, '<');
    lemma_replace_leaves_none(b, ">"@, "&gt;"@, '>');
    lemma_replace_leaves_none(c, "\""@, "&quot;"@, '>');
    lemma_replace_leaves_none(e, "'"@, "&apos;"@, '>');
    lemma_replace_leaves_none(c, "\""@, "&quot;"@, '"');
    lemma_replace_leaves_none(e, "'"@, "&apos;"@, '"');
    lemma_replace_leaves_none(e, "'"@, "&apos;"@, '\'');
}

/// `s` with each character `x` replaced by `f(x)`.
pub open spec fn mapped(s: Seq<char>, f: spec_fn(char) -> Seq<char>) -> Seq<char>
    decreases s.len(),
{
    if s.len() == 0 {
        seq![]
    } else {
        f(s[0]) + mapped(s.drop_first(), f)
    }
}

/// Whether no match of `pat` can start inside `p`, in `p` followed by
/// anything, but at its start where `p` is `pat` itself.
pub open spec fn no_inner_match(p: Seq<char>, pat: Seq<char>) -> bool {
    &&& p.len() >= 1
    &&& forall|j: int| 1 <= j < p.len() ==> p[j] != pat[0]
    &&& p[0] == pat[0] ==> exists|j: int| 0 <= j < p.len() && j < pat.len() && #[trigger] p[j] != pat[j]
}

proof fn lemma_replace_past(p: Seq<char>, m: Seq<char>, pat: Seq<char>, rep: Seq<char>)
    requires
        pat.len() >= 1,
        p.len() == 0 || no_inner_match(p, pat) || (forall|j: int| 0 <= j < p.len() ==> p[j] != pat[0]),
    ensures
        replace_spec(p + m, pat, rep) == p + replace_spec(m, pat, rep),
    decreases p.len(),
{
    if p.len() == 0 {
        assert(p + m =~= m);
    } else {
        let s = p + m;
        if s.len() < pat.len() {
            // too short for a match anywhere
            assert(replace_spec(m, pat, rep) == m);
        } else {
            if s.take(pat.len() as int) == pat {
                assert(s[0] == s.take(pat.len() as int)[0]);
                assert(p[0] == pat[0]);
                let j = choose|j: int| 0 <= j < p.len() && j < pat.len() && #[trigger] p[j] != pat[j];
                assert(s.take(pat.len() as int)[j] == s[j]);
                assert(false);
            }
            let q = p.drop_first();
            assert(s.skip(1) =~= q + m);
            assert forall|j: int| 0 <= j < q.len() implies q[j] != pat[0] by {
                assert(q[j] == p[j + 1]);
            }
            lemma_replace_past(q, m, pat, rep);
            assert(seq![s[0]] + (q + m) =~= s.skip(0));
            assert(seq![p[0]] + q =~= p);
            assert(seq![s[0]] + (q + replace_spec(m, pat, rep)) =~= p + replace_spec(m, pat, rep));
        }
    }
}

/// Replacing `pat` in a text made of pieces `f(x)`, none of which holds a
/// match but where it is `pat` itself, replaces exactly those pieces.
proof fn lemma_replace_mapped(
    s: Seq<char>,
    f: spec_fn(char) -> Seq<char>,
    g: spec_fn(char) -> Seq<char>,
    pat: Seq<char>,
    rep: Seq<char>,
)
    requires
        pat.len() >= 1,
        forall|x: char| #[trigger] f(x) == pat || no_inner_match(f(x), pat),
        forall|x: char| #[trigger] g(x) == if f(x) == pat { rep } else { f(x) },
    ensures
        replace_spec(mapped(s, f), pat, rep) == mapped(s, g),
    decreases s.len(),
{
    if s.len() == 0 {
    } else {
        let x = s[0];
        let m = mapped(s.drop_first(), f);
        lemma_replace_mapped(s.drop_first(), f, g, pat, rep);
        assert(mapped(s, f) == f(x) + m);
        if f(x) == pat {
            let t = f(x) + m;
            assert(t.take(pat.len() as int) =~= pat);
            assert(t.skip(pat.len() as int) =~= m);
        } else {
            lemma_replace_past(f(x), m, pat, rep);
        }
    }
}

/// Mapping each character to itself leaves the text.
proof fn lemma_mapped_identity(s: Seq<char>, f: spec_fn(char) -> Seq<char>)
    requires
        forall|x: char| #[trigger] f(x) == seq![x],
    ensures
        mapped(s, f) == s,
    decreases s.len(),
{
    if s.len() > 0 {
        lemma_mapped_identity(s.drop_first(), f);
        assert(seq![s[0]] + s.drop_first() =~= s);
    }
}

/// Unescaping XML text: the entities `&lt;`, `&gt;`, `&quot;` and `&apos;`
/// back to their characters, then `&amp;` back to `&`.
pub open spec fn unescape_xml_spec(e: Seq<char>) -> Seq<char> {
    replace_spec(
        replace_spec(
            replace_spec(replace_spec(replace_spec(e, "&lt;"@, "<"@), "&gt;"@, ">"@), "&quot;"@, "\""@),
            "&apos;"@,
            "'"@,
        ),
        "&amp;"@,
        "&"@,
    )
}

/// Unescaping escaped XML text gives the text back.
pub proof fn lemma_escape_xml_round_trip(t: Seq<char>)
    ensures
        unescape_xml_spec(escape_xml_spec(t)) == t,
{
    reveal_strlit("&");
    reveal_strlit("&amp;");
    reveal_strlit("<");
    reveal_strlit("&lt;");
    reveal_strlit(">");
    reveal_strlit("&gt;");
    reveal_strlit("\"");
    reveal_strlit("&quot;");
    reveal_strlit("'");
    reveal_strlit("&apos;");
    let amp = "&amp;"@;
    let lt = "&lt;"@;
    let gt = "&gt;"@;
    let quot = "&quot;"@;
    let apos = "&apos;"@;
    let f0 = |x: char| seq![x];
    let f1 = |x: char| if x == '&' { amp } else { seq![x] };
    let f2 = |x: char| if x == '&' { amp } else if x == '<' { lt } else { seq![x] };
    let f3 = |x: char| if x == '&' { amp } else if x == '<' { lt } else if x == '>' { gt } else { seq![x] };
    let f4 = |x: char|
        if x == '&' {
            amp
        } else if x == '<' {
            lt
        } else if x == '>' {
            gt
        } else if x == '"' {
            quot
        } else {
            seq![x]
        };
    let f5 = |x: char|
        if x == '&' {
            amp
        } else if x == '<' {
            lt
        } else if x == '>' {
            gt
        } else if x == '"' {
            quot
        } else if x == '\'' {
            apos
        } else {
            seq![x]
        };
    // escaping, one character at a time
    lemma_mapped_identity(t, f0);
    assert forall|x: char| #[trigger] f0(x) == "&"@ || no_inner_match(f0(x), "&"@) by {
        if x == '&' {
            assert(f0(x) =~= "&"@);
        }
    }
    assert forall|x: char| #[trigger] f1(x) == (if f0(x) == "&"@ { amp } else { f0(x) }) by {
        if x == '&' {
            assert(f0(x) =~= "&"@);
        } else {
            assert(f0(x) != "&"@) by { assert(f0(x)[0] == x); }
        }
    }
    lemma_replace_mapped(t, f0, f1, "&"@, amp);
    assert forall|x: char| #[trigger] f1(x) == "<"@ || no_inner_match(f1(x), "<"@) by {
        if x == '<' {
            assert(f1(x) =~= "<"@);
        }
    }
    assert forall|x: char| #[trigger] f2(x) == (if f1(x) == "<"@ { lt } else { f1(x) }) by {
        if x == '<' {
            assert(f1(x) =~= "<"@);
        } else if x != '&' {
            assert(f1(x) != "<"@) by { assert(f1(x)[0] == x); }
        } else {
            assert(f1(x) != "<"@) by { assert(f1(x).len() == 5); }
        }
    }
    lemma_replace_mapped(mapped(t, f0), f1, f2, "<"@, lt);
    assert forall|x: char| #[trigger] f2(x) == ">"@ || no_inner_match(f2(x), ">"@) by {
        if x == '>' {
            assert(f2(x) =~= ">"@);
        }
    }
    assert forall|x: char| #[trigger] f3(x) == (if f2(x) == ">"@ { gt } else { f2(x) }) by {
        if x == '>' {
            assert(f2(x) =~= ">"@);
        } else if x != '&' && x != '<' {
            assert(f2(x) != ">"@) by { assert(f2(x)[0] == x); }
        } else {
            assert(f2(x) != ">"@) by { assert(f2(x).len() > 1); }
        }
    }
    lemma_replace_mapped(t, f2, f3, ">"@, gt);
    assert forall|x: char| #[trigger] f3(x) == "\""@ || no_inner_match(f3(x), "\""@) by {
        if x == '"' {
            assert(f3(x) =~= "\""@);
        }
    }
    assert forall|x: char| #[trigger] f4(x) == (if f3(x) == "\""@ { quot } else { f3(x) }) by {
        if x == '"' {
            assert(f3(x) =~= "\""@);
        } else if x != '&' && x != '<' && x != '>' {
            assert(f3(x) != "\""@) by { assert(f3(x)[0] == x); }
        } else {
            assert(f3(x) != "\""@) by { assert(f3(x).len() > 1); }
        }
    }
    lemma_replace_mapped(t, f3, f4, "\""@, quot);
    assert forall|x: char| #[trigger] f4(x) == "'"@ || no_inner_match(f4(x), "'"@) by {
        if x == '\'' {
            assert(f4(x) =~= "'"@);
        }
    }
    assert forall|x: char| #[trigger] f5(x) == (if f4(x) == "'"@ { apos } else { f4(x) }) by {
        if x == '\'' {
            assert(f4(x) =~= "'"@);
        } else if x != '&' && x != '<' && x != '>' && x != '"' {
            assert(f4(x) != "'"@) by { assert(f4(x)[0] == x); }
        } else {
            assert(f4(x) != "'"@) by { assert(f4(x).len() > 1); }
        }
    }
    lemma_replace_mapped(t, f4, f5, "'"@, apos);
    assert(escape_xml_spec(t) == mapped(t, f5));
    // unescaping, one entity at a time
    assert(amp =~= seq!['&', 'a', 'm', 'p', ';']);
    assert(lt =~= seq!['&', 'l', 't', ';']);
    assert(gt =~= seq!['&', 'g', 't', ';']);
    assert(quot =~= seq!['&', 'q', 'u', 'o', 't', ';']);
    assert(apos =~= seq!['&', 'a', 'p', 'o', 's', ';']);
    let u1 = |x: char|
        if x == '&' {
            amp
        } else if x == '>' {
            gt
        } else if x == '"' {
            quot
        } else if x == '\'' {
            apos
        } else {
            seq![x]
        };
    let u2 = |x: char|
        if x == '&' {
            amp
        } else if x == '"' {
            quot
        } else if x == '\'' {
            apos
        } else {
            seq![x]
        };
    let u3 = |x: char| if x == '&' { amp } else if x == '\'' { apos } else { seq![x] };
    let u4 = |x: char| if x == '&' { amp } else { seq![x] };
    let u5 = |x: char| seq![x];
    assert forall|x: char| #[trigger] f5(x) == lt || no_inner_match(f5(x), lt) by {
        if x == '&' {
            assert(f5(x)[1] != lt[1]);
        } else if x == '>' {
            assert(f5(x)[1] != lt[1]);
        } else if x == '"' {
            assert(f5(x)[1] != lt[1]);
        } else if x == '\'' {
            assert(f5(x)[1] != lt[1]);
        }
    }
    assert forall|x: char| #[trigger] u1(x) == (if f5(x) == lt { "<"@ } else { f5(x) }) by {
        if x == '<' {
        } else if x == '&' || x == '>' || x == '"' || x == '\'' {
            assert(f5(x) != lt) by { assert(f5(x)[1] != lt[1]); }
        } else {
            assert(f5(x) != lt) by { assert(f5(x).len() == 1); }
        }
    }
    lemma_replace_mapped(t, f5, u1, lt, "<"@);
    assert forall|x: char| #[trigger] u1(x) == gt || no_inner_match(u1(x), gt) by {
        if x == '&' || x == '"' || x == '\'' {
            assert(u1(x)[1] != gt[1]);
        }
    }
    assert forall|x: char| #[trigger] u2(x) == (if u1(x) == gt { ">"@ } else { u1(x) }) by {
        if x == '>' {
        } else if x == '&' || x == '"' || x == '\'' {
            assert(u1(x) != gt) by { assert(u1(x)[1] != gt[1]); }
        } else {
            assert(u1(x) != gt) by { assert(u1(x).len() == 1); }
        }
    }
    lemma_replace_mapped(t, u1, u2, gt, ">"@);
    assert forall|x: char| #[trigger] u2(x) == quot || no_inner_match(u2(x), quot) by {
        if x == '&' || x == '\'' {
            assert(u2(x)[1] != quot[1]);
        }
    }
    assert forall|x: char| #[trigger] u3(x) == (if u2(x) == quot { "\""@ } else { u2(x) }) by {
        if x == '"' {
        } else if x == '&' || x == '\'' {
            assert(u2(x) != quot) by { assert(u2(x)[1] != quot[1]); }
        } else {
            assert(u2(x) != quot) by { assert(u2(x).len() == 1); }
        }
    }
    lemma_replace_mapped(t, u2, u3, quot, "\""@);
    assert forall|x: char| #[trigger] u3(x) == apos || no_inner_match(u3(x), apos) by {
        if x == '&' {
            assert(u3(x)[2] != apos[2]);
        }
    }
    assert forall|x: char| #[trigger] u4(x) == (if u3(x) == apos { "'"@ } else { u3(x) }) by {
        if x == '\'' {
        } else if x == '&' {
            assert(u3(x) != apos) by { assert(u3(x).len() == 5); }
        } else {
            assert(u3(x) != apos) by { assert(u3(x).len() == 1); }
        }
    }
    lemma_replace_mapped(t, u3, u4, apos, "'"@);
    assert forall|x: char| #[trigger] u4(x) == amp || no_inner_match(u4(x), amp) by {
    }
    assert forall|x: char| #[trigger] u5(x) == (if u4(x) == amp { "&"@ } else { u4(x) }) by {
        if x == '&' {
        } else {
            assert(u4(x) != amp) by { assert(u4(x).len() == 1); }
        }
    }
    lemma_replace_mapped(t, u4, u5, amp, "&"@);
    lemma_mapped_identity(t, u5);
}

/// Escapes the characters that HTML treats specially.
pub fn escape_html(text: &str) -> (r: String)
    ensures
        r@ == escape_html_spec(text@),
{
    let a = replace_all(text, "&", "&amp;");
    let b = replace_all(a.as_str(), "<", "&lt;");
    let c = replace_all(b.as_str(), ">", "&gt;");
    replace_all(c.as_str(), "\"", "&quot;")
}

/// Escapes the characters that XML treats specially.
pub fn escape_xml(text: &str) -> (r: String)
    ensures
        r@ == escape_xml_spec(text@),
{
    let a = escape_html(text);
    replace_all(a.as_str(), "'", "&apos;")
}

/// Whether `c` is a CSI parameter byte (`U+0030..U+003F`: digits and
/// `: ; < = > ?`).
pub open spec fn csi_param_char(c: char) -> bool {
    0x30 <= (c as u32) && (c as u32) <= 0x3F
}

/// Whether `c` is a CSI intermediate byte (`U+0020..U+002F`).
pub open spec fn csi_intermediate_char(c: char) -> bool {
    0x20 <= (c as u32) && (c as u32) <= 0x2F
}

/// The first index from `i` on whose character is not a CSI parameter.
pub open spec fn params_end(cs: Seq<char>, i: int) -> int
    decreases cs.len() - i,
{
    if i >= cs.len() || !csi_param_char(cs[i]) {
        i
    } else {
        params_end(cs, i + 1)
    }
}

/// The first index from `i` on whose character is not a CSI intermediate.
pub open spec fn intermediates_end(cs: Seq<char>, i: int) -> int
    decreases cs.len() - i,
{
    if i >= cs.len() || !csi_intermediate_char(cs[i]) {
        i
    } else {
        intermediates_end(cs, i + 1)
    }
}

/// Where a CSI sequence whose parameters start at `i` ends: after its
/// parameters, its intermediates and one final character (if any is left).
pub open spec fn csi_end(cs: Seq<char>, i: int) -> int {
    let j = intermediates_end(cs, params_end(cs, i));
    if j < cs.len() {
        j + 1
    } else {
        j
    }
}

/// Where a string sequence (OSC, DCS, APC, PM, SOS) whose body starts at
/// `i` ends: after a BEL, after an ESC followed by a backslash, or at the
/// end of the text.
pub open spec fn string_end(cs: Seq<char>, i: int) -> int
    decreases cs.len() - i,
{
    if i >= cs.len() {
        i
    } else if cs[i] == '\x07' {
        i + 1
    } else if cs[i] == '\x1b' && i + 1 < cs.len() && cs[i + 1] == '\\' {
        i + 2
    } else {
        string_end(cs, i + 1)
    }
}

/// Whether `c` introduces a string sequence after ESC.
pub open spec fn string_intro(c: char) -> bool {
    c == ']' || c == 'P' || c == '_' || c == '^' || c == 'X'
}

/// The characters of `cs` from index `i` on, without escape sequences: a
/// CSI or string sequence is dropped whole, any other ESC alone.
pub open spec fn strip_from(cs: Seq<char>, i: int) -> Seq<char>
    decreases cs.len() - i,
{
    if i < 0 || i >= cs.len() {
        seq![]
    } else if cs[i] != '\x1b' {
        seq![cs[i]] + strip_from(cs, i + 1)
    } else if i + 1 < cs.len() && cs[i + 1] == '[' {
        let e = csi_end(cs, i + 2);
        if i < e <= cs.len() {
            strip_from(cs, e)
        } else {
            seq![]
        }
    } else if i + 1 < cs.len() && string_intro(cs[i + 1]) {
        let e = string_end(cs, i + 2);
        if i < e <= cs.len() {
            strip_from(cs, e)
        } else {
            seq![]
        }
    } else {
        strip_from(cs, i + 1)
    }
}

/// Stripping escape sequences leaves no escape character.
pub proof fn lemma_strip_leaves_no_escape(cs: Seq<char>, i: int)
    ensures
        forall|k: int| 0 <= k < strip_from(cs, i).len() ==> strip_from(cs, i)[k] != '\x1b',
    decreases cs.len() - i,
{
    if i < 0 || i >= cs.len() {
    } else if cs[i] != '\x1b' {
        lemma_strip_leaves_no_escape(cs, i + 1);
        let rest = strip_from(cs, i + 1);
        assert(strip_from(cs, i) == seq![cs[i]] + rest);
        assert forall|k: int| 0 <= k < strip_from(cs, i).len() implies strip_from(cs, i)[k] != '\x1b' by {
            if k > 0 {
                assert(strip_from(cs, i)[k] == rest[k - 1]);
            }
        }
    } else if i + 1 < cs.len() && cs[i + 1] == '[' {
        let e = csi_end(cs, i + 2);
        if i < e <= cs.len() {
            lemma_strip_leaves_no_escape(cs, e);
            assert(strip_from(cs, i) == strip_from(cs, e));
        } else {
            assert(strip_from(cs, i) == Seq::<char>::empty());
        }
    } else if i + 1 < cs.len() && string_intro(cs[i + 1]) {
        let e = string_end(cs, i + 2);
        if i < e <= cs.len() {
            lemma_strip_leaves_no_escape(cs, e);
            assert(strip_from(cs, i) == strip_from(cs, e));
        } else {
            assert(strip_from(cs, i) == Seq::<char>::empty());
        }
    } else {
        lemma_strip_leaves_no_escape(cs, i + 1);
        assert(strip_from(cs, i) == strip_from(cs, i + 1));
    }
}

/// Whether `a` is a subsequence of `b`: its characters appear in `b` in
/// the same order, at increasing positions `f`.
pub open spec fn subsequence_at(a: Seq<char>, b: Seq<char>, f: Seq<int>) -> bool {
    &&& f.len() == a.len()
    &&& forall|k: int| 0 <= k < f.len() ==> 0 <= #[trigger] f[k] < b.len() && a[k] == b[f[k]]
    &&& forall|k: int, l: int| 0 <= k < l < f.len() ==> #[trigger] f[k] < #[trigger] f[l]
}

/// Positions in `cs`, from `i` on, of the characters stripping keeps.
proof fn lemma_strip_positions(cs: Seq<char>, i: int) -> (f: Seq<int>)
    requires
        0 <= i,
    ensures
        subsequence_at(strip_from(cs, i), cs, f),
        forall|k: int| 0 <= k < f.len() ==> i <= #[trigger] f[k],
    decreases cs.len() - i,
{
    if i >= cs.len() {
        Seq::empty()
    } else if cs[i] != '\x1b' {
        let g = lemma_strip_positions(cs, i + 1);
        let f = seq![i] + g;
        let rest = strip_from(cs, i + 1);
        assert(strip_from(cs, i) == seq![cs[i]] + rest);
        assert forall|k: int| 0 <= k < f.len() implies 0 <= #[trigger] f[k] < cs.len() && strip_from(cs, i)[k]
            == cs[f[k]] && i <= f[k] by {
            if k > 0 {
                assert(f[k] == g[k - 1]);
                assert(strip_from(cs, i)[k] == rest[k - 1]);
            }
        }
        assert forall|k: int, l: int| 0 <= k < l < f.len() implies #[trigger] f[k] < #[trigger] f[l] by {
            assert(f[l] == g[l - 1]);
            if k > 0 {
                assert(f[k] == g[k - 1]);
            }
        }
        f
    } else if i + 1 < cs.len() && cs[i + 1] == '[' {
        let e = csi_end(cs, i + 2);
        if i < e <= cs.len() {
            assert(strip_from(cs, i) == strip_from(cs, e));
            lemma_strip_positions(cs, e)
        } else {
            assert(strip_from(cs, i) == Seq::<char>::empty());
            Seq::empty()
        }
    } else if i + 1 < cs.len() && string_intro(cs[i + 1]) {
        let e = string_end(cs, i + 2);
        if i < e <= cs.len() {
            assert(strip_from(cs, i) == strip_from(cs, e));
            lemma_strip_positions(cs, e)
        } else {
            assert(strip_from(cs, i) == Seq::<char>::empty());
            Seq::empty()
        }
    } else {
        assert(strip_from(cs, i) == strip_from(cs, i + 1));
        lemma_strip_positions(cs, i + 1)
    }
}

/// Stripping keeps a subsequence of the text: the characters it keeps
/// appear in the text in the same order.
pub proof fn lemma_strip_is_subsequence(cs: Seq<char>)
    ensures
        exists|f: Seq<int>| subsequence_at(strip_from(cs, 0), cs, f),
{
    let f = lemma_strip_positions(cs, 0);
    assert(subsequence_at(strip_from(cs, 0), cs, f));
}

/// Text with no escape character is left as it is by stripping.
pub proof fn lemma_strip_keeps_plain(cs: Seq<char>, i: int)
    requires
        0 <= i <= cs.len(),
        forall|k: int| 0 <= k < cs.len() ==> cs[k] != '\x1b',
    ensures
        strip_from(cs, i) == cs.skip(i),
    decreases cs.len() - i,
{
    if i < cs.len() {
        lemma_strip_keeps_plain(cs, i + 1);
        assert(seq![cs[i]] + cs.skip(i + 1) =~= cs.skip(i));
    } else {
        assert(cs.skip(i) =~= Seq::<char>::empty());
    }
}

/// Stripping is idempotent: stripped text strips to itself.
pub proof fn lemma_strip_idempotent(cs: Seq<char>)
    ensures
        strip_from(strip_from(cs, 0), 0) == strip_from(cs, 0),
{
    let s = strip_from(cs, 0);
    lemma_strip_leaves_no_escape(cs, 0);
    lemma_strip_keeps_plain(s, 0);
    assert(s.skip(0) =~= s);
}

proof fn lemma_params_end_bounds(cs: Seq<char>, i: int)
    requires
        0 <= i,
    ensures
        i <= params_end(cs, i),
        i <= cs.len() ==> params_end(cs, i) <= cs.len(),
    decreases cs.len() - i,
{
    if !(i >= cs.len() || !csi_param_char(cs[i])) {
        lemma_params_end_bounds(cs, i + 1);
    }
}

proof fn lemma_intermediates_end_bounds(cs: Seq<char>, i: int)
    requires
        0 <= i,
    ensures
        i <= intermediates_end(cs, i),
        i <= cs.len() ==> intermediates_end(cs, i) <= cs.len(),
    decreases cs.len() - i,
{
    if !(i >= cs.len() || !csi_intermediate_char(cs[i])) {
        lemma_intermediates_end_bounds(cs, i + 1);
    }
}

proof fn lemma_string_end_bounds(cs: Seq<char>, i: int)
    requires
        0 <= i,
    ensures
        i <= string_end(cs, i),
        i <= cs.len() ==> string_end(cs, i) <= cs.len(),
    decreases cs.len() - i,
{
    if i < cs.len() && cs[i] != '\x07' && !(cs[i] == '\x1b' && i + 1 < cs.len() && cs[i + 1]
        == '\\') {
        lemma_string_end_bounds(cs, i + 1);
    }
}

/// The end of a CSI sequence whose parameters start at `i`.
fn find_csi_end(v: &Vec<char>, i: usize) -> (e: usize)
    requires
        i <= v.len(),
    ensures
        e == csi_end(v@, i as int),
        i <= e <= v.len(),
{
    let n = v.len();
    let mut j = i;
    proof {
        lemma_params_end_bounds(v@, i as int);
    }
    while j < n && 0x30 <= (v[j] as u32) && (v[j] as u32) <= 0x3F
        invariant
            i <= j <= n,
            n == v.len(),
            params_end(v@, j as int) == params_end(v@, i as int),
        decreases n - j,
    {
        j = j + 1;
    }
    let p = j;
    proof {
        lemma_intermediates_end_bounds(v@, p as int);
    }
    while j < n && 0x20 <= (v[j] as u32) && (v[j] as u32) <= 0x2F
        invariant
            p <= j <= n,
            n == v.len(),
            intermediates_end(v@, j as int) == intermediates_end(v@, p as int),
        decreases n - j,
    {
        j = j + 1;
    }
    if j < n {
        j + 1
    } else {
        j
    }
}

/// The end of a string sequence whose body starts at `i`.
fn find_string_end(v: &Vec<char>, i: usize) -> (e: usize)
    requires
        i <= v.len(),
    ensures
        e == string_end(v@, i as int),
        i <= e <= v.len(),
{
    let n = v.len();
    let mut j = i;
    while j < n
        invariant
            i <= j <= n,
            n == v.len(),
            string_end(v@, j as int) == string_end(v@, i as int),
        decreases n - j,
    {
        if v[j] == '\x07' {
            return j + 1;
        }
        if v[j] == '\x1b' && j + 1 < n && v[j + 1] == '\\' {
            return j + 2;
        }
        j = j + 1;
    }
    j
}

/// `text` without ANSI escape sequences: CSI sequences (`ESC [` ...), the
/// string sequences OSC, DCS, APC, PM and SOS (ended by BEL or `ESC \`), and
/// any other lone ESC.
pub fn strip_ansi_escapes(text: &str) -> (r: String)
    ensures
        r@ == strip_from(text@, 0),
{
    let v = crate::strutil::chars_of(text);
    let n = v.len();
    let mut out = String::new();
    let mut i: usize = 0;
    while i < n
        invariant
            v@ == text@,
            n == v.len(),
            i <= n,
            out@ + strip_from(v@, i as int) == strip_from(v@, 0),
        decreases n - i,
    {
        let c = v[i];
        if c != '\x1b' {
            push_char(&mut out, c);
            i = i + 1;
        } else if i + 1 < n && v[i + 1] == '[' {
            i = find_csi_end(&v, i + 2);
        } else if i + 1 < n && (v[i + 1] == ']' || v[i + 1] == 'P' || v[i + 1] == '_' || v[i + 1]
            == '^' || v[i + 1] == 'X') {
            i = find_string_end(&v, i + 2);
        } else {
            i = i + 1;
        }
    }
    assert(out@ =~= strip_from(v@, 0));
    out
}

} // verus!

verus! {

/// The RGB value of entry `index` of the 256-color palette, for export: the
/// standard colors, the 6×6×6 cube in steps of 51, and the grey ramp
/// `8 + 10k` (kept to its low eight bits past the ramp).
pub open spec fn rgb_for_8bit_spec(index: nat) -> (u8, u8, u8) {
    if index < 16 {
        standard_rgb(index as int)
    } else if index < 232 {
        let idx = (index - 16) as nat;
        (((idx / 36) * 51) as u8, (((idx / 6) % 6) * 51) as u8, ((idx % 6) * 51) as u8)
    } else {
        let g = (((index - 232) * 10 + 8) % 256) as u8;
        (g, g, g)
    }
}

/// The RGB value of palette entry `index`.
pub fn rgb_for_8bit(index: usize) -> (t: (u8, u8, u8))
    requires
        index < 232 || (index - 232) * 10 + 8 <= usize::MAX,
    ensures
        t == rgb_for_8bit_spec(index as nat),
{
    if index < 16 {
        standard_palette_rgb(index as u8)
    } else if index < 232 {
        let idx = index - 16;
        let r: u8 = ((idx / 36) as u8) * 51;
        let g: u8 = (((idx / 6) % 6) as u8) * 51;
        let b: u8 = ((idx % 6) as u8) * 51;
        (r, g, b)
    } else {
        let v: usize = (index - 232) * 10 + 8;
        let g: u8 = (v % 256) as u8;
        (g, g, g)
    }
}

/// The RGB value a color takes in `theme`.
pub open spec fn resolve_spec(v: ColorValue, theme: ExportTheme) -> (u8, u8, u8) {
    match v {
        ColorValue::Default => theme.foreground,
        ColorValue::Standard(n) => theme.ansi_colors@[(n % 16) as int],
        ColorValue::EightBit(n) => rgb_for_8bit_spec(n as nat),
        ColorValue::TrueColor(r, g, b) => (r, g, b),
    }
}

/// The RGB value `color` takes in `theme`.
pub fn resolve_color(color: &Color, theme: &ExportTheme) -> (t: (u8, u8, u8))
    ensures
        t == resolve_spec(color@, *theme),
{
    match color.color_type() {
        ColorType::Default => theme.foreground,
        ColorType::Standard => {
            let n = color.number().unwrap();
            theme.ansi_colors[(n % 16) as usize]
        },
        ColorType::EightBit => rgb_for_8bit(color.number().unwrap() as usize),
        ColorType::TrueColor => color.triplet().unwrap(),
    }
}

/// `rgb(r,g,b)` in CSS notation.
pub open spec fn rgb_css(t: (u8, u8, u8)) -> Seq<char> {
    "rgb("@ + decimal_chars(t.0 as nat) + seq![','] + decimal_chars(t.1 as nat) + seq![','] + decimal_chars(
        t.2 as nat,
    ) + seq![')']
}

/// Appends `rgb(r,g,b)`.
fn push_rgb(s: &mut String, t: (u8, u8, u8))
    ensures
        final(s)@ == old(s)@ + rgb_css(t),
{
    push_str(s, "rgb(");
    push_decimal(s, t.0 as u64);
    push_char(s, ',');
    push_decimal(s, t.1 as u64);
    push_char(s, ',');
    push_decimal(s, t.2 as u64);
    push_char(s, ')');
    assert(s@ =~= old(s)@ + rgb_css(t));
}

/// `prop:rgb(r,g,b)` as a new string.
fn css_color(prop: &str, t: (u8, u8, u8)) -> (r: String)
    ensures
        r@ == prop@ + rgb_css(t),
{
    let mut s = owned(prop);
    push_rgb(&mut s, t);
    s
}

/// `[text]` when `on`, else nothing.
pub open spec fn flag(on: bool, text: Seq<char>) -> Seq<Seq<char>> {
    if on {
        seq![text]
    } else {
        seq![]
    }
}

/// Whether a style turns attribute `a` on.
pub open spec fn attr_on(st: Style, a: Attribute) -> bool {
    st.attributes.setting(a) == Some(true)
}

/// The foreground of a style in `theme`: its color, or the theme's text
/// color.
pub open spec fn style_fg(st: Style, theme: ExportTheme) -> (u8, u8, u8) {
    match st.color {
        Some(c) => resolve_spec(c@, theme),
        None => theme.foreground,
    }
}

/// The CSS declarations for the attributes of a style that export shows.
pub open spec fn attr_props(st: Style) -> Seq<Seq<char>> {
    flag(attr_on(st, Attribute::Bold), "font-weight:bold"@) + flag(
        attr_on(st, Attribute::Italic),
        "font-style:italic"@,
    ) + flag(
        attr_on(st, Attribute::Underline) || attr_on(st, Attribute::Underline2),
        "text-decoration:underline"@,
    ) + flag(attr_on(st, Attribute::Strike), "text-decoration:line-through"@) + flag(
        attr_on(st, Attribute::Dim),
        "opacity:0.7"@,
    ) + flag(attr_on(st, Attribute::Conceal), "visibility:hidden"@)
}

/// The CSS declarations of a segment in HTML export.
pub open spec fn html_props(seg: Segment, theme: ExportTheme) -> Seq<Seq<char>> {
    match seg.style {
        Some(st) => seq!["color:"@ + rgb_css(style_fg(st, theme))] + (match st.bgcolor {
            Some(b) => seq!["background-color:"@ + rgb_css(resolve_spec(b@, theme))],
            None => seq![],
        }) + attr_props(st),
        None => seq!["color:"@ + rgb_css(theme.foreground)],
    }
}

proof fn lemma_contains_concat(a: Seq<Seq<char>>, b: Seq<Seq<char>>, x: Seq<char>)
    ensures
        (a + b).contains(x) <==> a.contains(x) || b.contains(x),
{
    if (a + b).contains(x) {
        let k = choose|k: int| 0 <= k < (a + b).len() && (a + b)[k] == x;
        if k < a.len() {
            assert(a[k] == x);
        } else {
            assert(b[k - a.len()] == x);
        }
    }
    if a.contains(x) {
        let k = choose|k: int| 0 <= k < a.len() && a[k] == x;
        assert((a + b)[k] == x);
    }
    if b.contains(x) {
        let k = choose|k: int| 0 <= k < b.len() && b[k] == x;
        assert((a + b)[k + a.len()] == x);
    }
}

proof fn lemma_flag_contains(on: bool, t: Seq<char>, x: Seq<char>)
    ensures
        flag(on, t).contains(x) <==> on && x == t,
{
    if on && x == t {
        assert(flag(on, t)[0] == x);
    }
}

/// Which attribute declarations a style's CSS holds: each exactly when its
/// attribute is on (`text-decoration:underline` for either underline).
proof fn lemma_attr_props_contains(st: Style, x: Seq<char>)
    ensures
        attr_props(st).contains(x) <==> (x == "font-weight:bold"@ && st.attributes.bold == Some(true)) || (x
            == "font-style:italic"@ && st.attributes.italic == Some(true)) || (x == "text-decoration:underline"@
            && (st.attributes.underline == Some(true) || st.attributes.underline2 == Some(true))) || (x
            == "text-decoration:line-through"@ && st.attributes.strike == Some(true)) || (x == "opacity:0.7"@
            && st.attributes.dim == Some(true)) || (x == "visibility:hidden"@ && st.attributes.conceal == Some(
            true,
        )),
{
    let f1 = flag(attr_on(st, Attribute::Bold), "font-weight:bold"@);
    let f2 = flag(attr_on(st, Attribute::Italic), "font-style:italic"@);
    let f3 = flag(
        attr_on(st, Attribute::Underline) || attr_on(st, Attribute::Underline2),
        "text-decoration:underline"@,
    );
    let f4 = flag(attr_on(st, Attribute::Strike), "text-decoration:line-through"@);
    let f5 = flag(attr_on(st, Attribute::Dim), "opacity:0.7"@);
    let f6 = flag(attr_on(st, Attribute::Conceal), "visibility:hidden"@);
    lemma_contains_concat(f1, f2, x);
    lemma_contains_concat(f1 + f2, f3, x);
    lemma_contains_concat(f1 + f2 + f3, f4, x);
    lemma_contains_concat(f1 + f2 + f3 + f4, f5, x);
    lemma_contains_concat(f1 + f2 + f3 + f4 + f5, f6, x);
    lemma_flag_contains(attr_on(st, Attribute::Bold), "font-weight:bold"@, x);
    lemma_flag_contains(attr_on(st, Attribute::Italic), "font-style:italic"@, x);
    lemma_flag_contains(
        attr_on(st, Attribute::Underline) || attr_on(st, Attribute::Underline2),
        "text-decoration:underline"@,
        x,
    );
    lemma_flag_contains(attr_on(st, Attribute::Strike), "text-decoration:line-through"@, x);
    lemma_flag_contains(attr_on(st, Attribute::Dim), "opacity:0.7"@, x);
    lemma_flag_contains(attr_on(st, Attribute::Conceal), "visibility:hidden"@, x);
}

/// The first character of each attribute declaration.
proof fn lemma_decl_heads()
    ensures
        "font-weight:bold"@.len() > 1 && "font-weight:bold"@[0] == 'f' && "font-weight:bold"@[1] == 'o',
        "font-style:italic"@.len() > 1 && "font-style:italic"@[0] == 'f' && "font-style:italic"@[1] == 'o',
        "text-decoration:underline"@.len() > 0 && "text-decoration:underline"@[0] == 't',
        "text-decoration:line-through"@.len() > 0 && "text-decoration:line-through"@[0] == 't',
        "opacity:0.7"@.len() > 0 && "opacity:0.7"@[0] == 'o',
        "visibility:hidden"@.len() > 0 && "visibility:hidden"@[0] == 'v',
        "color:"@.len() > 0 && "color:"@[0] == 'c',
        "background-color:"@.len() > 0 && "background-color:"@[0] == 'b',
        "fill:"@.len() > 1 && "fill:"@[0] == 'f' && "fill:"@[1] == 'i',
{
    reveal_strlit("font-weight:bold");
    reveal_strlit("font-style:italic");
    reveal_strlit("text-decoration:underline");
    reveal_strlit("text-decoration:line-through");
    reveal_strlit("opacity:0.7");
    reveal_strlit("visibility:hidden");
    reveal_strlit("color:");
    reveal_strlit("background-color:");
    reveal_strlit("fill:");
}

/// Whether `x` is one of the attribute declarations export writes.
pub open spec fn attr_decl(x: Seq<char>) -> bool {
    x == "font-weight:bold"@ || x == "font-style:italic"@ || x == "text-decoration:underline"@ || x
        == "text-decoration:line-through"@ || x == "opacity:0.7"@ || x == "visibility:hidden"@
}

/// In HTML and SVG export, a styled segment's CSS holds each attribute
/// declaration exactly when its attribute is on: `font-weight:bold` for
/// bold, `font-style:italic` for italic, `text-decoration:underline` for
/// either underline, `text-decoration:line-through` for strike,
/// `opacity:0.7` for dim and `visibility:hidden` for conceal.
pub proof fn lemma_export_attribute_decls(seg: Segment, theme: ExportTheme, x: Seq<char>)
    requires
        seg.style is Some,
        attr_decl(x),
    ensures
        ({
            let a = seg.style.unwrap().attributes;
            let on = (x == "font-weight:bold"@ && a.bold == Some(true)) || (x == "font-style:italic"@ && a.italic
                == Some(true)) || (x == "text-decoration:underline"@ && (a.underline == Some(true) || a.underline2
                == Some(true))) || (x == "text-decoration:line-through"@ && a.strike == Some(true)) || (x
                == "opacity:0.7"@ && a.dim == Some(true)) || (x == "visibility:hidden"@ && a.conceal == Some(true));
            &&& html_props(seg, theme).contains(x) <==> on
            &&& svg_props(seg, theme).contains(x) <==> on
        }),
{
    let st = seg.style.unwrap();
    lemma_decl_heads();
    lemma_attr_props_contains(st, x);
    let c = "color:"@ + rgb_css(style_fg(st, theme));
    assert(c[0] == 'c');
    assert(x[0] != 'c');
    assert(c != x);
    let bg: Seq<Seq<char>> = match st.bgcolor {
        Some(b) => seq!["background-color:"@ + rgb_css(resolve_spec(b@, theme))],
        None => seq![],
    };
    if bg.len() > 0 {
        assert(bg[0][0] == 'b');
        assert(x[0] != 'b');
    }
    assert(!bg.contains(x));
    assert(!seq![c].contains(x));
    lemma_contains_concat(seq![c], bg, x);
    lemma_contains_concat(seq![c] + bg, attr_props(st), x);
    let fl = "fill:"@ + rgb_css(style_fg(st, theme));
    assert(fl[0] == 'f' && fl[1] == 'i');
    assert(x[0] != 'f' || x[1] != 'i');
    assert(fl != x);
    assert(!seq![fl].contains(x));
    lemma_contains_concat(seq![fl], attr_props(st), x);
}

/// The HTML of one segment: a link when its style has one, else a span.
pub open spec fn html_segment(seg: Segment, theme: ExportTheme) -> Seq<char> {
    let css = join_with(html_props(seg, theme), "; "@);
    let body = escape_html_spec(seg.text@);
    match seg.style {
        Some(st) => match st.link {
            Some(l) => "<a href=\""@ + escape_html_spec(l@) + "\" style=\""@ + css + "\">"@ + body
                + "</a>"@,
            None => "<span style=\""@ + css + "\">"@ + body + "</span>"@,
        },
        None => "<span style=\""@ + css + "\">"@ + body + "</span>"@,
    }
}

/// The CSS declarations of a segment in SVG export.
pub open spec fn svg_props(seg: Segment, theme: ExportTheme) -> Seq<Seq<char>> {
    match seg.style {
        Some(st) => seq!["fill:"@ + rgb_css(style_fg(st, theme))] + attr_props(st),
        None => seq!["fill:"@ + rgb_css(theme.foreground)],
    }
}

/// The SVG of one segment: a styled `tspan`.
pub open spec fn svg_segment(seg: Segment, theme: ExportTheme) -> Seq<char> {
    "<tspan style=\""@ + join_with(svg_props(seg, theme), "; "@) + "\">"@ + escape_xml_spec(seg.text@)
        + "</tspan>"@
}

/// The export of the first `k` segments, one after another.
pub open spec fn concat_upto(segs: Seq<Segment>, theme: ExportTheme, k: nat, svg: bool) -> Seq<char>
    decreases k,
{
    if k == 0 || k > segs.len() {
        seq![]
    } else {
        concat_upto(segs, theme, (k - 1) as nat, svg) + (if svg {
            svg_segment(segs[k - 1], theme)
        } else {
            html_segment(segs[k - 1], theme)
        })
    }
}

/// Appends `text` to `props` when `on`.
fn push_flag(props: &mut Vec<String>, on: bool, text: &str)
    ensures
        views(final(props)@) == views(old(props)@) + flag(on, text@),
{
    let ghost before = views(props@);
    if on {
        props.push(owned(text));
        assert(views(props@) =~= before.push(text@));
    } else {
        assert(views(props@) =~= before + flag(on, text@));
    }
}

/// Appends the CSS declarations for the attributes of `st`.
fn push_attr_props(props: &mut Vec<String>, st: &Style)
    ensures
        views(final(props)@) == views(old(props)@) + attr_props(*st),
{
    let ghost v0 = views(props@);
    let a = &st.attributes;
    push_flag(props, a.get(Attribute::Bold), "font-weight:bold");
    push_flag(props, a.get(Attribute::Italic), "font-style:italic");
    push_flag(
        props,
        a.get(Attribute::Underline) || a.get(Attribute::Underline2),
        "text-decoration:underline",
    );
    push_flag(props, a.get(Attribute::Strike), "text-decoration:line-through");
    push_flag(props, a.get(Attribute::Dim), "opacity:0.7");
    push_flag(props, a.get(Attribute::Conceal), "visibility:hidden");
    assert(views(props@) =~= v0 + attr_props(*st));
}

/// The HTML of one segment.
fn segment_html(seg: &Segment, theme: &ExportTheme) -> (r: String)
    ensures
        r@ == html_segment(*seg, *theme),
{
    let mut props: Vec<String> = Vec::new();
    match &seg.style {
        Some(st) => {
            let fg = match &st.color {
                Some(c) => resolve_color(c, theme),
                None => theme.foreground,
            };
            props.push(css_color("color:", fg));
            match &st.bgcolor {
                Some(b) => {
                    let bg = resolve_color(b, theme);
                    props.push(css_color("background-color:", bg));
                },
                None => {},
            }
            let ghost before = views(props@);
            push_attr_props(&mut props, st);
            assert(views(props@) =~= html_props(*seg, *theme));
        },
        None => {
            props.push(css_color("color:", theme.foreground));
            assert(views(props@) =~= html_props(*seg, *theme));
        },
    }
    let css = crate::strutil::join_strings(&props, "; ");
    let body = escape_html(seg.text.as_str());
    let mut out = String::new();
    let link: Option<&String> = match &seg.style {
        Some(st) => match &st.link {
            Some(l) => Some(l),
            None => None,
        },
        None => None,
    };
    match link {
        Some(l) => {
            push_str(&mut out, "<a href=\"");
            let el = escape_html(l.as_str());
            push_str(&mut out, el.as_str());
            push_str(&mut out, "\" style=\"");
            push_str(&mut out, css.as_str());
            push_str(&mut out, "\">");
            push_str(&mut out, body.as_str());
            push_str(&mut out, "</a>");
        },
        None => {
            push_str(&mut out, "<span style=\"");
            push_str(&mut out, css.as_str());
            push_str(&mut out, "\">");
            push_str(&mut out, body.as_str());
            push_str(&mut out, "</span>");
        },
    }
    assert(out@ =~= html_segment(*seg, *theme));
    out
}

/// The SVG of one segment.
fn segment_svg(seg: &Segment, theme: &ExportTheme) -> (r: String)
    ensures
        r@ == svg_segment(*seg, *theme),
{
    let mut props: Vec<String> = Vec::new();
    match &seg.style {
        Some(st) => {
            let fg = match &st.color {
                Some(c) => resolve_color(c, theme),
                None => theme.foreground,
            };
            props.push(css_color("fill:", fg));
            push_attr_props(&mut props, st);
            assert(views(props@) =~= svg_props(*seg, *theme));
        },
        None => {
            props.push(css_color("fill:", theme.foreground));
            assert(views(props@) =~= svg_props(*seg, *theme));
        },
    }
    let css = crate::strutil::join_strings(&props, "; ");
    let body = escape_xml(seg.text.as_str());
    let mut out = String::new();
    push_str(&mut out, "<tspan style=\"");
    push_str(&mut out, css.as_str());
    push_str(&mut out, "\">");
    push_str(&mut out, body.as_str());
    push_str(&mut out, "</tspan>");
    assert(out@ =~= svg_segment(*seg, *theme));
    out
}

/// Styled segments as HTML: each segment a `span` (or a link) whose inline
/// CSS gives its colors and attributes.
pub fn segments_to_html(segments: &[Segment], theme: &ExportTheme) -> (r: String)
    ensures
        r@ == concat_upto(segments@, *theme, segments@.len(), false),
{
    let mut out = String::new();
    let mut i: usize = 0;
    while i < segments.len()
        invariant
            i <= segments@.len(),
            out@ == concat_upto(segments@, *theme, i as nat, false),
        decreases segments@.len() - i,
    {
        let piece = segment_html(&segments[i], theme);
        push_str(&mut out, piece.as_str());
        i = i + 1;
    }
    out
}

/// Styled segments as SVG: each segment a `tspan` whose inline CSS gives
/// its fill color and attributes.
pub fn segments_to_svg(segments: &[Segment], theme: &ExportTheme) -> (r: String)
    ensures
        r@ == concat_upto(segments@, *theme, segments@.len(), true),
{
    let mut out = String::new();
    let mut i: usize = 0;
    while i < segments.len()
        invariant
            i <= segments@.len(),
            out@ == concat_upto(segments@, *theme, i as nat, true),
        decreases segments@.len() - i,
    {
        let piece = segment_svg(&segments[i], theme);
        push_str(&mut out, piece.as_str());
        i = i + 1;
    }
    out
}

} // verus!

verus! {

/// Whether `t` holds the colors of the light SVG theme.
pub open spec fn is_svg_theme(t: ExportTheme) -> bool {
    (t.background == (255u8, 255u8, 255u8)) && (t.foreground == (0u8, 0u8, 0u8)) && (t.ansi_colors@ == seq![(0u8, 0u8, 0u8), (204u8, 0u8, 0u8), (0u8, 170u8, 0u8), (204u8, 102u8, 0u8), (0u8, 0u8, 204u8), (170u8, 0u8, 170u8), (0u8, 170u8, 170u8), (170u8, 170u8, 170u8), (102u8, 102u8, 102u8), (255u8, 0u8, 0u8), (0u8, 255u8, 0u8), (255u8, 255u8, 0u8), (0u8, 0u8, 255u8), (255u8, 0u8, 255u8), (0u8, 255u8, 255u8), (255u8, 255u8, 255u8)])
}

/// Options for SVG export.
#[derive(Debug, Clone)]
pub struct ExportSvgOptions {
    /// The CSS font family of the text.
    pub font_family: String,
    /// The font size in pixels.
    pub font_size: u32,
    /// The terminal colors.
    pub theme: ExportTheme,
    /// The content placed in the document.
    pub code: String,
    /// Width of the canvas.
    pub width: u32,
    /// Height of the canvas.
    pub height: u32,
}

impl Default for ExportSvgOptions {
    /// A 14 px monospace font, the light SVG theme, an 800×600 canvas and no
    /// content.
    fn default() -> (o: Self)
        ensures
            o.font_family@ == "'Fira Code', 'Cascadia Code', 'JetBrains Mono', monospace"@,
            o.font_size == 14,
            is_svg_theme(o.theme),
            o.code@.len() == 0,
            o.width == 800,
            o.height == 600,
    {
        ExportSvgOptions {
            font_family: owned("'Fira Code', 'Cascadia Code', 'JetBrains Mono', monospace"),
            font_size: 14,
            theme: export_theme_svg(),
            code: String::new(),
            width: 800,
            height: 600,
        }
    }
}

/// The baseline of the first line of text for a font size: `1.2 × size`,
/// rounded to the nearest integer.
pub open spec fn baseline(font_size: nat) -> nat {
    (6 * font_size + 2) / 5
}

/// The SVG document for `o`: the template with each placeholder replaced in
/// turn (the content first), every value but the text color XML-escaped.
pub open spec fn export_svg_spec(o: ExportSvgOptions) -> Seq<char> {
    let t0 = CONSOLE_SVG_FORMAT@;
    let t1 = replace_spec(t0, "{code}"@, escape_xml_spec(o.code@));
    let t2 = replace_spec(t1, "{font_family}"@, escape_xml_spec(o.font_family@));
    let t3 = replace_spec(t2, "{font_size}"@, escape_xml_spec(decimal_chars(o.font_size as nat)));
    let t4 = replace_spec(t3, "{width}"@, escape_xml_spec(decimal_chars(o.width as nat)));
    let t5 = replace_spec(t4, "{height}"@, escape_xml_spec(decimal_chars(o.height as nat)));
    let t6 = replace_spec(t5, "{background}"@, escape_xml_spec(rgb_css(o.theme.background)));
    let t7 = replace_spec(t6, "{baseline}"@, escape_xml_spec(decimal_chars(baseline(o.font_size as nat))));
    replace_spec(t7, "{foreground}"@, rgb_css(o.theme.foreground))
}

/// The decimal text of `n`.
fn dec(n: u64) -> (s: String)
    ensures
        s@ == decimal_chars(n as nat),
{
    crate::strutil::decimal_string(n)
}

/// `rgb(r,g,b)` as a new string.
fn rgb_string(t: (u8, u8, u8)) -> (s: String)
    ensures
        s@ == rgb_css(t),
{
    let mut s = String::new();
    push_rgb(&mut s, t);
    s
}

/// A full SVG document holding the exported content.
pub fn export_svg(options: &ExportSvgOptions) -> (r: String)
    ensures
        r@ == export_svg_spec(*options),
{
    let code = escape_xml(options.code.as_str());
    let t1 = replace_all(CONSOLE_SVG_FORMAT, "{code}", code.as_str());
    let ff = escape_xml(options.font_family.as_str());
    let t2 = replace_all(t1.as_str(), "{font_family}", ff.as_str());
    let fs = escape_xml(dec(options.font_size as u64).as_str());
    let t3 = replace_all(t2.as_str(), "{font_size}", fs.as_str());
    let w = escape_xml(dec(options.width as u64).as_str());
    let t4 = replace_all(t3.as_str(), "{width}", w.as_str());
    let h = escape_xml(dec(options.height as u64).as_str());
    let t5 = replace_all(t4.as_str(), "{height}", h.as_str());
    let bg = escape_xml(rgb_string(options.theme.background).as_str());
    let t6 = replace_all(t5.as_str(), "{background}", bg.as_str());
    let base: u64 = (6 * (options.font_size as u64) + 2) / 5;
    let bl = escape_xml(dec(base).as_str());
    let t7 = replace_all(t6.as_str(), "{baseline}", bl.as_str());
    let fg = rgb_string(options.theme.foreground);
    replace_all(t7.as_str(), "{foreground}", fg.as_str())
}

/// Options for plain-text export.
#[derive(Debug, Clone)]
pub struct ExportTextOptions {
    /// The text, possibly holding escape sequences.
    pub text: String,
    /// Whether to remove escape sequences.
    pub strip_ansi: bool,
}

impl Default for ExportTextOptions {
    /// No text, escape sequences removed.
    fn default() -> (o: Self)
        ensures
            o.text@.len() == 0,
            o.strip_ansi,
    {
        ExportTextOptions { text: String::new(), strip_ansi: true }
    }
}

/// The exported text: without escape sequences when asked, else as given.
pub fn export_text(options: &ExportTextOptions) -> (r: String)
    ensures
        options.strip_ansi ==> r@ == strip_from(options.text@, 0),
        !options.strip_ansi ==> r@ == options.text@,
{
    if options.strip_ansi {
        strip_ansi_escapes(options.text.as_str())
    } else {
        options.text.clone()
    }
}

/// Options for HTML export. The line height is held as the text it is
/// written as in the style sheet.
#[derive(Debug, Clone)]
pub struct ExportHtmlOptions {
    /// The CSS font family of the text.
    pub font_family: String,
    /// The font size in pixels.
    pub font_size: u32,
    /// The line height, as written (`1.45` by default).
    pub line_height: String,
    /// The terminal colors.
    pub theme: ExportTheme,
    /// The content placed in the document.
    pub code: String,
}

impl Default for ExportHtmlOptions {
    /// A 14 px monospace font, line height 1.45, the default theme and no
    /// content.
    fn default() -> (o: Self)
        ensures
            o.font_family@ == "'Fira Code', 'Cascadia Code', 'JetBrains Mono', 'Source Code Pro', Menlo, Consolas, monospace"@,
            o.font_size == 14,
            o.line_height@ == "1.45"@,
            o.theme.background == (0u8, 0u8, 0u8),
            o.theme.foreground == (255u8, 255u8, 255u8),
            o.code@.len() == 0,
    {
        ExportHtmlOptions {
            font_family: owned("'Fira Code', 'Cascadia Code', 'JetBrains Mono', 'Source Code Pro', Menlo, Consolas, monospace"),
            font_size: 14,
            line_height: owned("1.45"),
            theme: ExportTheme::default(),
            code: String::new(),
        }
    }
}

/// The HTML document for `o`: the template with each placeholder replaced
/// in turn (the content first), every value HTML-escaped.
pub open spec fn export_html_spec(o: ExportHtmlOptions) -> Seq<char> {
    let t0 = CONSOLE_HTML_FORMAT@;
    let t1 = replace_spec(t0, "{code}"@, escape_html_spec(o.code@));
    let t2 = replace_spec(t1, "{font_family}"@, escape_html_spec(o.font_family@));
    let t3 = replace_spec(t2, "{font_size}"@, escape_html_spec(decimal_chars(o.font_size as nat)));
    let t4 = replace_spec(t3, "{line_height}"@, escape_html_spec(o.line_height@));
    let t5 = replace_spec(t4, "{foreground}"@, escape_html_spec(rgb_css(o.theme.foreground)));
    replace_spec(t5, "{background}"@, escape_html_spec(rgb_css(o.theme.background)))
}

/// A full HTML document holding the exported content.
pub fn export_html(options: &ExportHtmlOptions) -> (r: String)
    ensures
        r@ == export_html_spec(*options),
{
    let code = escape_html(options.code.as_str());
    let t1 = replace_all(CONSOLE_HTML_FORMAT, "{code}", code.as_str());
    let ff = escape_html(options.font_family.as_str());
    let t2 = replace_all(t1.as_str(), "{font_family}", ff.as_str());
    let fs = escape_html(dec(options.font_size as u64).as_str());
    let t3 = replace_all(t2.as_str(), "{font_size}", fs.as_str());
    let lh = escape_html(options.line_height.as_str());
    let t4 = replace_all(t3.as_str(), "{line_height}", lh.as_str());
    let fg = escape_html(rgb_string(options.theme.foreground).as_str());
    let t5 = replace_all(t4.as_str(), "{foreground}", fg.as_str());
    let bg = escape_html(rgb_string(options.theme.background).as_str());
    replace_all(t5.as_str(), "{background}", bg.as_str())
}

} // verus!
