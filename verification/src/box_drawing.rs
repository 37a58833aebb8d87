//! Box-drawing character sets for borders: eight rows of four characters
//! (top, head, head row, mid, row, foot row, foot, bottom), each row giving
//! the left edge, the horizontal line, the divider and the right edge.

use vstd::prelude::*;
use crate::strutil::{lines_from, lines_spec, split_lines, strip_cr, push_char};

verus! {

/// The characters of a box border.
#[derive(Debug, Clone, PartialEq, Eq)]
pub struct BoxStyle {
    pub top_left: char,
    pub top: char,
    pub top_divider: char,
    pub top_right: char,
    pub head_left: char,
    pub head_horizontal: char,
    pub head_vertical: char,
    pub head_right: char,
    pub head_row_left: char,
    pub head_row_horizontal: char,
    pub head_row_cross: char,
    pub head_row_right: char,
    pub mid_left: char,
    pub mid_horizontal: char,
    pub mid_vertical: char,
    pub mid_right: char,
    pub row_left: char,
    pub row_horizontal: char,
    pub row_cross: char,
    pub row_right: char,
    pub foot_row_left: char,
    pub foot_row_horizontal: char,
    pub foot_row_cross: char,
    pub foot_row_right: char,
    pub foot_left: char,
    pub foot_horizontal: char,
    pub foot_vertical: char,
    pub foot_right: char,
    pub bottom_left: char,
    pub bottom: char,
    pub bottom_divider: char,
    pub bottom_right: char,
    /// Whether the box uses only ASCII characters.
    pub ascii: bool,
}

/// Whether `cs` is a box definition: exactly eight lines of four characters.
pub open spec fn box_def_ok(cs: Seq<char>) -> bool {
    &&& lines_spec(cs).len() == 8
    &&& forall|i: int| 0 <= i < 8 ==> #[trigger] lines_spec(cs)[i].len() == 4
}

/// The eight rows of `text` written one after another, each followed by a
/// newline but the last.
pub open spec fn join_rows(r: Seq<Seq<char>>) -> Seq<char> {
    r[0] + seq!['\n'] + r[1] + seq!['\n'] + r[2] + seq!['\n'] + r[3] + seq!['\n'] + r[4] + seq!['\n']
        + r[5] + seq!['\n'] + r[6] + seq!['\n'] + r[7]
}

impl BoxStyle {
    /// The eight rows of the box, four characters each.
    pub open spec fn rows(self) -> Seq<Seq<char>> {
        seq![
            seq![self.top_left, self.top, self.top_divider, self.top_right],
            seq![self.head_left, self.head_horizontal, self.head_vertical, self.head_right],
            seq![self.head_row_left, self.head_row_horizontal, self.head_row_cross, self.head_row_right],
            seq![self.mid_left, self.mid_horizontal, self.mid_vertical, self.mid_right],
            seq![self.row_left, self.row_horizontal, self.row_cross, self.row_right],
            seq![self.foot_row_left, self.foot_row_horizontal, self.foot_row_cross, self.foot_row_right],
            seq![self.foot_left, self.foot_horizontal, self.foot_vertical, self.foot_right],
            seq![self.bottom_left, self.bottom, self.bottom_divider, self.bottom_right],
        ]
    }

    /// Whether any corner of the box is not a space.
    pub fn has_visible_edges(&self) -> (b: bool)
        ensures
            b == (self.top_left != ' ' || self.top_right != ' ' || self.bottom_left != ' '
                || self.bottom_right != ' '),
    {
        self.top_left != ' ' || self.top_right != ' ' || self.bottom_left != ' ' || self.bottom_right
            != ' '
    }

    /// Reads a box from its eight-line definition.
    pub fn from_str(box_str: &str, ascii: bool) -> (r: Self)
        requires
            box_def_ok(box_str@),
        ensures
            r.rows() == lines_spec(box_str@),
            r.ascii == ascii,
    {
        let lines = split_lines(box_str);
        let ghost ls = lines@.map_values(|l: String| l@);
        assert(ls.len() == 8);
        assert(ls[0].len() == 4);
        assert(ls[1].len() == 4);
        assert(ls[2].len() == 4);
        assert(ls[3].len() == 4);
        assert(ls[4].len() == 4);
        assert(ls[5].len() == 4);
        assert(ls[6].len() == 4);
        assert(ls[7].len() == 4);
        let l0 = lines[0].as_str();
        let l1 = lines[1].as_str();
        let l2 = lines[2].as_str();
        let l3 = lines[3].as_str();
        let l4 = lines[4].as_str();
        let l5 = lines[5].as_str();
        let l6 = lines[6].as_str();
        let l7 = lines[7].as_str();
        assert(l0@ == ls[0]);
        assert(l1@ == ls[1]);
        assert(l2@ == ls[2]);
        assert(l3@ == ls[3]);
        assert(l4@ == ls[4]);
        assert(l5@ == ls[5]);
        assert(l6@ == ls[6]);
        assert(l7@ == ls[7]);
        let r = BoxStyle {
            top_left: l0.get_char(0),
            top: l0.get_char(1),
            top_divider: l0.get_char(2),
            top_right: l0.get_char(3),
            head_left: l1.get_char(0),
            head_horizontal: l1.get_char(1),
            head_vertical: l1.get_char(2),
            head_right: l1.get_char(3),
            head_row_left: l2.get_char(0),
            head_row_horizontal: l2.get_char(1),
            head_row_cross: l2.get_char(2),
            head_row_right: l2.get_char(3),
            mid_left: l3.get_char(0),
            mid_horizontal: l3.get_char(1),
            mid_vertical: l3.get_char(2),
            mid_right: l3.get_char(3),
            row_left: l4.get_char(0),
            row_horizontal: l4.get_char(1),
            row_cross: l4.get_char(2),
            row_right: l4.get_char(3),
            foot_row_left: l5.get_char(0),
            foot_row_horizontal: l5.get_char(1),
            foot_row_cross: l5.get_char(2),
            foot_row_right: l5.get_char(3),
            foot_left: l6.get_char(0),
            foot_horizontal: l6.get_char(1),
            foot_vertical: l6.get_char(2),
            foot_right: l6.get_char(3),
            bottom_left: l7.get_char(0),
            bottom: l7.get_char(1),
            bottom_divider: l7.get_char(2),
            bottom_right: l7.get_char(3),
            ascii,
        };
        assert(r.rows()[0] =~= ls[0]);
        assert(r.rows()[1] =~= ls[1]);
        assert(r.rows()[2] =~= ls[2]);
        assert(r.rows()[3] =~= ls[3]);
        assert(r.rows()[4] =~= ls[4]);
        assert(r.rows()[5] =~= ls[5]);
        assert(r.rows()[6] =~= ls[6]);
        assert(r.rows()[7] =~= ls[7]);
        assert(r.rows() =~= ls);
        r
    }

    /// The eight-line definition of the box.
    pub fn to_string(&self) -> (s: String)
        ensures
            s@ == join_rows(self.rows()),
    {
        let mut s = String::new();
        push_char(&mut s, self.top_left);
        push_char(&mut s, self.top);
        push_char(&mut s, self.top_divider);
        push_char(&mut s, self.top_right);
        push_char(&mut s, '\n');
        push_char(&mut s, self.head_left);
        push_char(&mut s, self.head_horizontal);
        push_char(&mut s, self.head_vertical);
        push_char(&mut s, self.head_right);
        push_char(&mut s, '\n');
        push_char(&mut s, self.head_row_left);
        push_char(&mut s, self.head_row_horizontal);
        push_char(&mut s, self.head_row_cross);
        push_char(&mut s, self.head_row_right);
        push_char(&mut s, '\n');
        push_char(&mut s, self.mid_left);
        push_char(&mut s, self.mid_horizontal);
        push_char(&mut s, self.mid_vertical);
        push_char(&mut s, self.mid_right);
        push_char(&mut s, '\n');
        push_char(&mut s, self.row_left);
        push_char(&mut s, self.row_horizontal);
        push_char(&mut s, self.row_cross);
        push_char(&mut s, self.row_right);
        push_char(&mut s, '\n');
        push_char(&mut s, self.foot_row_left);
        push_char(&mut s, self.foot_row_horizontal);
        push_char(&mut s, self.foot_row_cross);
        push_char(&mut s, self.foot_row_right);
        push_char(&mut s, '\n');
        push_char(&mut s, self.foot_left);
        push_char(&mut s, self.foot_horizontal);
        push_char(&mut s, self.foot_vertical);
        push_char(&mut s, self.foot_right);
        push_char(&mut s, '\n');
        push_char(&mut s, self.bottom_left);
        push_char(&mut s, self.bottom);
        push_char(&mut s, self.bottom_divider);
        push_char(&mut s, self.bottom_right);
        assert(s@ =~= join_rows(self.rows()));
        s
    }
}

/// The lines read from `a`, a newline and `rest`, when `a` holds no newline:
/// `a` ends the line being read.
pub proof fn lemma_lines_from_chunk(
    a: Seq<char>,
    rest: Seq<char>,
    cur: Seq<char>,
    acc: Seq<Seq<char>>,
)
    requires
        !a.contains('\n'),
    ensures
        lines_from(a + seq!['\n'] + rest, cur, acc) == lines_from(rest, seq![], acc.push(strip_cr(cur + a))),
    decreases a.len(),
{
    if a.len() == 0 {
        assert(a + seq!['\n'] + rest =~= seq!['\n'] + rest);
        assert((seq!['\n'] + rest).drop_first() =~= rest);
        assert(cur + a =~= cur);
    } else {
        assert((a + seq!['\n'] + rest)[0] == a[0]);
        assert((a + seq!['\n'] + rest).drop_first() =~= a.drop_first() + seq!['\n'] + rest);
        assert(!a.drop_first().contains('\n')) by {
            if a.drop_first().contains('\n') {
                let k = choose|k: int| 0 <= k < a.drop_first().len() && a.drop_first()[k] == '\n';
                assert(a[k + 1] == '\n');
            }
        }
        assert(a[0] != '\n') by {
            if a[0] == '\n' {
                assert(a.contains('\n'));
            }
        }
        lemma_lines_from_chunk(a.drop_first(), rest, cur.push(a[0]), acc);
        assert(cur.push(a[0]) + a.drop_first() =~= cur + a);
    }
}

/// The lines read from a last piece `a` that holds no newline: it completes
/// the line being read, which is then yielded if it is not empty.
pub proof fn lemma_lines_from_last(a: Seq<char>, cur: Seq<char>, acc: Seq<Seq<char>>)
    requires
        !a.contains('\n'),
        (cur + a).len() > 0,
    ensures
        lines_from(a, cur, acc) == acc.push(cur + a),
    decreases a.len(),
{
    if a.len() == 0 {
        assert(cur + a =~= cur);
    } else {
        assert(!a.drop_first().contains('\n')) by {
            if a.drop_first().contains('\n') {
                let k = choose|k: int| 0 <= k < a.drop_first().len() && a.drop_first()[k] == '\n';
                assert(a[k + 1] == '\n');
            }
        }
        assert(a[0] != '\n') by {
            if a[0] == '\n' {
                assert(a.contains('\n'));
            }
        }
        lemma_lines_from_last(a.drop_first(), cur.push(a[0]), acc);
        assert(cur.push(a[0]) + a.drop_first() =~= cur + a);
    }
}

/// Writing a box out as its definition and reading the definition back gives
/// the same box, when no border character is a newline or a carriage return.
pub proof fn lemma_box_round_trip(b: BoxStyle)
    requires
        forall|i: int, j: int| 0 <= i < 8 && 0 <= j < 4 ==> #[trigger] b.rows()[i][j] != '\n'
            && b.rows()[i][j] != '\r',
    ensures
        lines_spec(join_rows(b.rows())) == b.rows(),
        box_def_ok(join_rows(b.rows())),
{
    let r = b.rows();
    let nl = seq!['\n'];
    assert forall|i: int| 0 <= i < 8 implies !(#[trigger] r[i]).contains('\n') && strip_cr(r[i]) == r[i] by {
        if r[i].contains('\n') {
            let k = choose|k: int| 0 <= k < r[i].len() && r[i][k] == '\n';
            assert(b.rows()[i][k] != '\n');
        }
        assert(b.rows()[i][3] != '\r');
    }
    let e = Seq::<Seq<char>>::empty();
    let t7 = r[7];
    let t6 = r[6] + nl + t7;
    let t5 = r[5] + nl + t6;
    let t4 = r[4] + nl + t5;
    let t3 = r[3] + nl + t4;
    let t2 = r[2] + nl + t3;
    let t1 = r[1] + nl + t2;
    let t0 = r[0] + nl + t1;
    assert(join_rows(r) =~= t0);
    assert(Seq::<char>::empty() + r[0] =~= r[0]);
    assert(Seq::<char>::empty() + r[1] =~= r[1]);
    assert(Seq::<char>::empty() + r[2] =~= r[2]);
    assert(Seq::<char>::empty() + r[3] =~= r[3]);
    assert(Seq::<char>::empty() + r[4] =~= r[4]);
    assert(Seq::<char>::empty() + r[5] =~= r[5]);
    assert(Seq::<char>::empty() + r[6] =~= r[6]);
    assert(Seq::<char>::empty() + r[7] =~= r[7]);
    lemma_lines_from_chunk(r[0], t1, seq![], e);
    lemma_lines_from_chunk(r[1], t2, seq![], e.push(r[0]));
    lemma_lines_from_chunk(r[2], t3, seq![], e.push(r[0]).push(r[1]));
    lemma_lines_from_chunk(r[3], t4, seq![], e.push(r[0]).push(r[1]).push(r[2]));
    lemma_lines_from_chunk(r[4], t5, seq![], e.push(r[0]).push(r[1]).push(r[2]).push(r[3]));
    lemma_lines_from_chunk(r[5], t6, seq![], e.push(r[0]).push(r[1]).push(r[2]).push(r[3]).push(r[4]));
    lemma_lines_from_chunk(
        r[6],
        t7,
        seq![],
        e.push(r[0]).push(r[1]).push(r[2]).push(r[3]).push(r[4]).push(r[5]),
    );
    lemma_lines_from_last(
        r[7],
        seq![],
        e.push(r[0]).push(r[1]).push(r[2]).push(r[3]).push(r[4]).push(r[5]).push(r[6]),
    );
    assert(lines_spec(join_rows(r)) =~= r);
}

/// ASCII-only box.
pub const ASCII: &'static str = "+--+\n| ||\n|-+|\n| ||\n|-+|\n|-+|\n| ||\n+--+";

/// ASCII with double edges (no distinct header).
pub const ASCII2: &'static str = "+-++\n| ||\n+-++\n| ||\n+-++\n+-++\n| ||\n+-++";

/// Square box with double horizontal header separator.
pub const SQUARE_DOUBLE_HEAD: &'static str = "┌─┬┐\n│ ││\n╞═╪╡\n│ ││\n├─┼┤\n├─┼┤\n│ ││\n└─┴┘";

/// Minimal box with double horizontal separator (head row only).
pub const MINIMAL_DOUBLE_HEAD: &'static str = "  ╷ \n  │ \n ═╪ \n  │ \n ─┼ \n ─┼ \n  │ \n  ╵ ";

/// Simple box with a single horizontal rule under the header.
pub const SIMPLE_HEAD: &'static str = "    \n    \n ── \n    \n    \n    \n    \n    ";

/// ASCII box style with a double header line.
pub const ASCII_DOUBLE_HEAD: &'static str = "+-++\n| ||\n+=++\n| ||\n+-++\n+-++\n| ||\n+-++";

/// Rounded corners.
pub const ROUNDED: &'static str = "╭─┬╮\n│ ││\n├─┼┤\n│ ││\n├─┼┤\n├─┼┤\n│ ││\n╰─┴╯";

/// Square corners.
pub const SQUARE: &'static str = "┌─┬┐\n│ ││\n├─┼┤\n│ ││\n├─┼┤\n├─┼┤\n│ ││\n└─┴┘";

/// Heavy borders.
pub const HEAVY: &'static str = "┏━┳┓\n┃ ┃┃\n┣━╋┫\n┃ ┃┃\n┣━╋┫\n┣━╋┫\n┃ ┃┃\n┗━┻┛";

/// Heavy edge, light inner.
pub const HEAVY_EDGE: &'static str = "┏━┯┓\n┃ │┃\n┠─┼┨\n┃ │┃\n┠─┼┨\n┠─┼┨\n┃ │┃\n┗━┷┛";

/// Heavy header.
pub const HEAVY_HEAD: &'static str = "┏━┳┓\n┃ ┃┃\n┡━╇┩\n│ ││\n├─┼┤\n├─┼┤\n│ ││\n└─┴┘";

/// Double borders.
pub const DOUBLE: &'static str = "╔═╦╗\n║ ║║\n╠═╬╣\n║ ║║\n╠═╬╣\n╠═╬╣\n║ ║║\n╚═╩╝";

/// Double edge (like DOUBLE but inner is single).
pub const DOUBLE_EDGE: &'static str = "╔═╤╗\n║ │║\n╟─┼╢\n║ │║\n╟─┼╢\n╟─┼╢\n║ │║\n╚═╧╝";

/// Simple (no borders, just vertical separators).
pub const SIMPLE: &'static str = "    \n    \n ── \n    \n    \n ── \n    \n    ";

/// Simple with heavy header.
pub const SIMPLE_HEAVY: &'static str = "    \n    \n ━━ \n    \n    \n ━━ \n    \n    ";

/// Minimal (thin rule, vertical separators, no outer edges).
pub const MINIMAL: &'static str = "  ╷ \n  │ \n╶─┼╴\n  │ \n╶─┼╴\n╶─┼╴\n  │ \n  ╵ ";

/// Minimal with a heavy header separator.
pub const MINIMAL_HEAVY: &'static str = "  ╷ \n  │ \n╺━┿╸\n  │ \n╶─┼╴\n╶─┼╴\n  │ \n  ╵ ";

/// Markdown-style box definition string (no outer borders).
pub const MARKDOWN: &'static str = "    \n| ||\n|-||\n| ||\n|-||\n|-||\n| ||\n    ";

/// ASCII-only box (uses `+`, `-`, `|` characters).
pub fn box_ascii() -> (b: BoxStyle)
    ensures
        b.rows() == seq![
            seq!['+', '-', '-', '+'],
            seq!['|', ' ', '|', '|'],
            seq!['|', '-', '+', '|'],
            seq!['|', ' ', '|', '|'],
            seq!['|', '-', '+', '|'],
            seq!['|', '-', '+', '|'],
            seq!['|', ' ', '|', '|'],
            seq!['+', '-', '-', '+'],
        ],
        b.ascii == true,
{
    let b = BoxStyle {
        top_left: '+',
        top: '-',
        top_divider: '-',
        top_right: '+',
        head_left: '|',
        head_horizontal: ' ',
        head_vertical: '|',
        head_right: '|',
        head_row_left: '|',
        head_row_horizontal: '-',
        head_row_cross: '+',
        head_row_right: '|',
        mid_left: '|',
        mid_horizontal: ' ',
        mid_vertical: '|',
        mid_right: '|',
        row_left: '|',
        row_horizontal: '-',
        row_cross: '+',
        row_right: '|',
        foot_row_left: '|',
        foot_row_horizontal: '-',
        foot_row_cross: '+',
        foot_row_right: '|',
        foot_left: '|',
        foot_horizontal: ' ',
        foot_vertical: '|',
        foot_right: '|',
        bottom_left: '+',
        bottom: '-',
        bottom_divider: '-',
        bottom_right: '+',
        ascii: true,
    };
    assert(b.rows() =~= seq![
        seq!['+', '-', '-', '+'],
        seq!['|', ' ', '|', '|'],
        seq!['|', '-', '+', '|'],
        seq!['|', ' ', '|', '|'],
        seq!['|', '-', '+', '|'],
        seq!['|', '-', '+', '|'],
        seq!['|', ' ', '|', '|'],
        seq!['+', '-', '-', '+'],
    ]);
    b
}

/// ASCII box with doubled edges.
pub fn box_ascii2() -> (b: BoxStyle)
    ensures
        b.rows() == seq![
            seq!['+', '-', '+', '+'],
            seq!['|', ' ', '|', '|'],
            seq!['+', '-', '+', '+'],
            seq!['|', ' ', '|', '|'],
            seq!['+', '-', '+', '+'],
            seq!['+', '-', '+', '+'],
            seq!['|', ' ', '|', '|'],
            seq!['+', '-', '+', '+'],
        ],
        b.ascii == true,
{
    let b = BoxStyle {
        top_left: '+',
        top: '-',
        top_divider: '+',
        top_right: '+',
        head_left: '|',
        head_horizontal: ' ',
        head_vertical: '|',
        head_right: '|',
        head_row_left: '+',
        head_row_horizontal: '-',
        head_row_cross: '+',
        head_row_right: '+',
        mid_left: '|',
        mid_horizontal: ' ',
        mid_vertical: '|',
        mid_right: '|',
        row_left: '+',
        row_horizontal: '-',
        row_cross: '+',
        row_right: '+',
        foot_row_left: '+',
        foot_row_horizontal: '-',
        foot_row_cross: '+',
        foot_row_right: '+',
        foot_left: '|',
        foot_horizontal: ' ',
        foot_vertical: '|',
        foot_right: '|',
        bottom_left: '+',
        bottom: '-',
        bottom_divider: '+',
        bottom_right: '+',
        ascii: true,
    };
    assert(b.rows() =~= seq![
        seq!['+', '-', '+', '+'],
        seq!['|', ' ', '|', '|'],
        seq!['+', '-', '+', '+'],
        seq!['|', ' ', '|', '|'],
        seq!['+', '-', '+', '+'],
        seq!['+', '-', '+', '+'],
        seq!['|', ' ', '|', '|'],
        seq!['+', '-', '+', '+'],
    ]);
    b
}

/// Square box with a double horizontal header separator.
pub fn box_square_double_head() -> (b: BoxStyle)
    ensures
        b.rows() == seq![
            seq!['┌', '─', '┬', '┐'],
            seq!['│', ' ', '│', '│'],
            seq!['╞', '═', '╪', '╡'],
            seq!['│', ' ', '│', '│'],
            seq!['├', '─', '┼', '┤'],
            seq!['├', '─', '┼', '┤'],
            seq!['│', ' ', '│', '│'],
            seq!['└', '─', '┴', '┘'],
        ],
        b.ascii == false,
{
    let b = BoxStyle {
        top_left: '┌',
        top: '─',
        top_divider: '┬',
        top_right: '┐',
        head_left: '│',
        head_horizontal: ' ',
        head_vertical: '│',
        head_right: '│',
        head_row_left: '╞',
        head_row_horizontal: '═',
        head_row_cross: '╪',
        head_row_right: '╡',
        mid_left: '│',
        mid_horizontal: ' ',
        mid_vertical: '│',
        mid_right: '│',
        row_left: '├',
        row_horizontal: '─',
        row_cross: '┼',
        row_right: '┤',
        foot_row_left: '├',
        foot_row_horizontal: '─',
        foot_row_cross: '┼',
        foot_row_right: '┤',
        foot_left: '│',
        foot_horizontal: ' ',
        foot_vertical: '│',
        foot_right: '│',
        bottom_left: '└',
        bottom: '─',
        bottom_divider: '┴',
        bottom_right: '┘',
        ascii: false,
    };
    assert(b.rows() =~= seq![
        seq!['┌', '─', '┬', '┐'],
        seq!['│', ' ', '│', '│'],
        seq!['╞', '═', '╪', '╡'],
        seq!['│', ' ', '│', '│'],
        seq!['├', '─', '┼', '┤'],
        seq!['├', '─', '┼', '┤'],
        seq!['│', ' ', '│', '│'],
        seq!['└', '─', '┴', '┘'],
    ]);
    b
}

/// Minimal box with a double horizontal header separator.
pub fn box_minimal_double_head() -> (b: BoxStyle)
    ensures
        b.rows() == seq![
            seq![' ', ' ', '╷', ' '],
            seq![' ', ' ', '│', ' '],
            seq![' ', '═', '╪', ' '],
            seq![' ', ' ', '│', ' '],
            seq![' ', '─', '┼', ' '],
            seq![' ', '─', '┼', ' '],
            seq![' ', ' ', '│', ' '],
            seq![' ', ' ', '╵', ' '],
        ],
        b.ascii == false,
{
    let b = BoxStyle {
        top_left: ' ',
        top: ' ',
        top_divider: '╷',
        top_right: ' ',
        head_left: ' ',
        head_horizontal: ' ',
        head_vertical: '│',
        head_right: ' ',
        head_row_left: ' ',
        head_row_horizontal: '═',
        head_row_cross: '╪',
        head_row_right: ' ',
        mid_left: ' ',
        mid_horizontal: ' ',
        mid_vertical: '│',
        mid_right: ' ',
        row_left: ' ',
        row_horizontal: '─',
        row_cross: '┼',
        row_right: ' ',
        foot_row_left: ' ',
        foot_row_horizontal: '─',
        foot_row_cross: '┼',
        foot_row_right: ' ',
        foot_left: ' ',
        foot_horizontal: ' ',
        foot_vertical: '│',
        foot_right: ' ',
        bottom_left: ' ',
        bottom: ' ',
        bottom_divider: '╵',
        bottom_right: ' ',
        ascii: false,
    };
    assert(b.rows() =~= seq![
        seq![' ', ' ', '╷', ' '],
        seq![' ', ' ', '│', ' '],
        seq![' ', '═', '╪', ' '],
        seq![' ', ' ', '│', ' '],
        seq![' ', '─', '┼', ' '],
        seq![' ', '─', '┼', ' '],
        seq![' ', ' ', '│', ' '],
        seq![' ', ' ', '╵', ' '],
    ]);
    b
}

/// Simple box with a single horizontal rule under the header.
pub fn box_simple_head() -> (b: BoxStyle)
    ensures
        b.rows() == seq![
            seq![' ', ' ', ' ', ' '],
            seq![' ', ' ', ' ', ' '],
            seq![' ', '─', '─', ' '],
            seq![' ', ' ', ' ', ' '],
            seq![' ', ' ', ' ', ' '],
            seq![' ', ' ', ' ', ' '],
            seq![' ', ' ', ' ', ' '],
            seq![' ', ' ', ' ', ' '],
        ],
        b.ascii == false,
{
    let b = BoxStyle {
        top_left: ' ',
        top: ' ',
        top_divider: ' ',
        top_right: ' ',
        head_left: ' ',
        head_horizontal: ' ',
        head_vertical: ' ',
        head_right: ' ',
        head_row_left: ' ',
        head_row_horizontal: '─',
        head_row_cross: '─',
        head_row_right: ' ',
        mid_left: ' ',
        mid_horizontal: ' ',
        mid_vertical: ' ',
        mid_right: ' ',
        row_left: ' ',
        row_horizontal: ' ',
        row_cross: ' ',
        row_right: ' ',
        foot_row_left: ' ',
        foot_row_horizontal: ' ',
        foot_row_cross: ' ',
        foot_row_right: ' ',
        foot_left: ' ',
        foot_horizontal: ' ',
        foot_vertical: ' ',
        foot_right: ' ',
        bottom_left: ' ',
        bottom: ' ',
        bottom_divider: ' ',
        bottom_right: ' ',
        ascii: false,
    };
    assert(b.rows() =~= seq![
        seq![' ', ' ', ' ', ' '],
        seq![' ', ' ', ' ', ' '],
        seq![' ', '─', '─', ' '],
        seq![' ', ' ', ' ', ' '],
        seq![' ', ' ', ' ', ' '],
        seq![' ', ' ', ' ', ' '],
        seq![' ', ' ', ' ', ' '],
        seq![' ', ' ', ' ', ' '],
    ]);
    b
}

/// ASCII box with a double header line.
pub fn box_ascii_double_head() -> (b: BoxStyle)
    ensures
        b.rows() == seq![
            seq!['+', '-', '+', '+'],
            seq!['|', ' ', '|', '|'],
            seq!['+', '=', '+', '+'],
            seq!['|', ' ', '|', '|'],
            seq!['+', '-', '+', '+'],
            seq!['+', '-', '+', '+'],
            seq!['|', ' ', '|', '|'],
            seq!['+', '-', '+', '+'],
        ],
        b.ascii == true,
{
    let b = BoxStyle {
        top_left: '+',
        top: '-',
        top_divider: '+',
        top_right: '+',
        head_left: '|',
        head_horizontal: ' ',
        head_vertical: '|',
        head_right: '|',
        head_row_left: '+',
        head_row_horizontal: '=',
        head_row_cross: '+',
        head_row_right: '+',
        mid_left: '|',
        mid_horizontal: ' ',
        mid_vertical: '|',
        mid_right: '|',
        row_left: '+',
        row_horizontal: '-',
        row_cross: '+',
        row_right: '+',
        foot_row_left: '+',
        foot_row_horizontal: '-',
        foot_row_cross: '+',
        foot_row_right: '+',
        foot_left: '|',
        foot_horizontal: ' ',
        foot_vertical: '|',
        foot_right: '|',
        bottom_left: '+',
        bottom: '-',
        bottom_divider: '+',
        bottom_right: '+',
        ascii: true,
    };
    assert(b.rows() =~= seq![
        seq!['+', '-', '+', '+'],
        seq!['|', ' ', '|', '|'],
        seq!['+', '=', '+', '+'],
        seq!['|', ' ', '|', '|'],
        seq!['+', '-', '+', '+'],
        seq!['+', '-', '+', '+'],
        seq!['|', ' ', '|', '|'],
        seq!['+', '-', '+', '+'],
    ]);
    b
}

/// Rounded box (default for Panel).
pub fn box_rounded() -> (b: BoxStyle)
    ensures
        b.rows() == seq![
            seq!['╭', '─', '┬', '╮'],
            seq!['│', ' ', '│', '│'],
            seq!['├', '─', '┼', '┤'],
            seq!['│', ' ', '│', '│'],
            seq!['├', '─', '┼', '┤'],
            seq!['├', '─', '┼', '┤'],
            seq!['│', ' ', '│', '│'],
            seq!['╰', '─', '┴', '╯'],
        ],
        b.ascii == false,
{
    let b = BoxStyle {
        top_left: '╭',
        top: '─',
        top_divider: '┬',
        top_right: '╮',
        head_left: '│',
        head_horizontal: ' ',
        head_vertical: '│',
        head_right: '│',
        head_row_left: '├',
        head_row_horizontal: '─',
        head_row_cross: '┼',
        head_row_right: '┤',
        mid_left: '│',
        mid_horizontal: ' ',
        mid_vertical: '│',
        mid_right: '│',
        row_left: '├',
        row_horizontal: '─',
        row_cross: '┼',
        row_right: '┤',
        foot_row_left: '├',
        foot_row_horizontal: '─',
        foot_row_cross: '┼',
        foot_row_right: '┤',
        foot_left: '│',
        foot_horizontal: ' ',
        foot_vertical: '│',
        foot_right: '│',
        bottom_left: '╰',
        bottom: '─',
        bottom_divider: '┴',
        bottom_right: '╯',
        ascii: false,
    };
    assert(b.rows() =~= seq![
        seq!['╭', '─', '┬', '╮'],
        seq!['│', ' ', '│', '│'],
        seq!['├', '─', '┼', '┤'],
        seq!['│', ' ', '│', '│'],
        seq!['├', '─', '┼', '┤'],
        seq!['├', '─', '┼', '┤'],
        seq!['│', ' ', '│', '│'],
        seq!['╰', '─', '┴', '╯'],
    ]);
    b
}

/// Square-cornered box.
pub fn box_square() -> (b: BoxStyle)
    ensures
        b.rows() == seq![
            seq!['┌', '─', '┬', '┐'],
            seq!['│', ' ', '│', '│'],
            seq!['├', '─', '┼', '┤'],
            seq!['│', ' ', '│', '│'],
            seq!['├', '─', '┼', '┤'],
            seq!['├', '─', '┼', '┤'],
            seq!['│', ' ', '│', '│'],
            seq!['└', '─', '┴', '┘'],
        ],
        b.ascii == false,
{
    let b = BoxStyle {
        top_left: '┌',
        top: '─',
        top_divider: '┬',
        top_right: '┐',
        head_left: '│',
        head_horizontal: ' ',
        head_vertical: '│',
        head_right: '│',
        head_row_left: '├',
        head_row_horizontal: '─',
        head_row_cross: '┼',
        head_row_right: '┤',
        mid_left: '│',
        mid_horizontal: ' ',
        mid_vertical: '│',
        mid_right: '│',
        row_left: '├',
        row_horizontal: '─',
        row_cross: '┼',
        row_right: '┤',
        foot_row_left: '├',
        foot_row_horizontal: '─',
        foot_row_cross: '┼',
        foot_row_right: '┤',
        foot_left: '│',
        foot_horizontal: ' ',
        foot_vertical: '│',
        foot_right: '│',
        bottom_left: '└',
        bottom: '─',
        bottom_divider: '┴',
        bottom_right: '┘',
        ascii: false,
    };
    assert(b.rows() =~= seq![
        seq!['┌', '─', '┬', '┐'],
        seq!['│', ' ', '│', '│'],
        seq!['├', '─', '┼', '┤'],
        seq!['│', ' ', '│', '│'],
        seq!['├', '─', '┼', '┤'],
        seq!['├', '─', '┼', '┤'],
        seq!['│', ' ', '│', '│'],
        seq!['└', '─', '┴', '┘'],
    ]);
    b
}

/// Heavy (thick) borders.
pub fn box_heavy() -> (b: BoxStyle)
    ensures
        b.rows() == seq![
            seq!['┏', '━', '┳', '┓'],
            seq!['┃', ' ', '┃', '┃'],
            seq!['┣', '━', '╋', '┫'],
            seq!['┃', ' ', '┃', '┃'],
            seq!['┣', '━', '╋', '┫'],
            seq!['┣', '━', '╋', '┫'],
            seq!['┃', ' ', '┃', '┃'],
            seq!['┗', '━', '┻', '┛'],
        ],
        b.ascii == false,
{
    let b = BoxStyle {
        top_left: '┏',
        top: '━',
        top_divider: '┳',
        top_right: '┓',
        head_left: '┃',
        head_horizontal: ' ',
        head_vertical: '┃',
        head_right: '┃',
        head_row_left: '┣',
        head_row_horizontal: '━',
        head_row_cross: '╋',
        head_row_right: '┫',
        mid_left: '┃',
        mid_horizontal: ' ',
        mid_vertical: '┃',
        mid_right: '┃',
        row_left: '┣',
        row_horizontal: '━',
        row_cross: '╋',
        row_right: '┫',
        foot_row_left: '┣',
        foot_row_horizontal: '━',
        foot_row_cross: '╋',
        foot_row_right: '┫',
        foot_left: '┃',
        foot_horizontal: ' ',
        foot_vertical: '┃',
        foot_right: '┃',
        bottom_left: '┗',
        bottom: '━',
        bottom_divider: '┻',
        bottom_right: '┛',
        ascii: false,
    };
    assert(b.rows() =~= seq![
        seq!['┏', '━', '┳', '┓'],
        seq!['┃', ' ', '┃', '┃'],
        seq!['┣', '━', '╋', '┫'],
        seq!['┃', ' ', '┃', '┃'],
        seq!['┣', '━', '╋', '┫'],
        seq!['┣', '━', '╋', '┫'],
        seq!['┃', ' ', '┃', '┃'],
        seq!['┗', '━', '┻', '┛'],
    ]);
    b
}

/// Heavy outer edges with light inner dividers.
pub fn box_heavy_edge() -> (b: BoxStyle)
    ensures
        b.rows() == seq![
            seq!['┏', '━', '┯', '┓'],
            seq!['┃', ' ', '│', '┃'],
            seq!['┠', '─', '┼', '┨'],
            seq!['┃', ' ', '│', '┃'],
            seq!['┠', '─', '┼', '┨'],
            seq!['┠', '─', '┼', '┨'],
            seq!['┃', ' ', '│', '┃'],
            seq!['┗', '━', '┷', '┛'],
        ],
        b.ascii == false,
{
    let b = BoxStyle {
        top_left: '┏',
        top: '━',
        top_divider: '┯',
        top_right: '┓',
        head_left: '┃',
        head_horizontal: ' ',
        head_vertical: '│',
        head_right: '┃',
        head_row_left: '┠',
        head_row_horizontal: '─',
        head_row_cross: '┼',
        head_row_right: '┨',
        mid_left: '┃',
        mid_horizontal: ' ',
        mid_vertical: '│',
        mid_right: '┃',
        row_left: '┠',
        row_horizontal: '─',
        row_cross: '┼',
        row_right: '┨',
        foot_row_left: '┠',
        foot_row_horizontal: '─',
        foot_row_cross: '┼',
        foot_row_right: '┨',
        foot_left: '┃',
        foot_horizontal: ' ',
        foot_vertical: '│',
        foot_right: '┃',
        bottom_left: '┗',
        bottom: '━',
        bottom_divider: '┷',
        bottom_right: '┛',
        ascii: false,
    };
    assert(b.rows() =~= seq![
        seq!['┏', '━', '┯', '┓'],
        seq!['┃', ' ', '│', '┃'],
        seq!['┠', '─', '┼', '┨'],
        seq!['┃', ' ', '│', '┃'],
        seq!['┠', '─', '┼', '┨'],
        seq!['┠', '─', '┼', '┨'],
        seq!['┃', ' ', '│', '┃'],
        seq!['┗', '━', '┷', '┛'],
    ]);
    b
}

/// Heavy header row with regular body borders.
pub fn box_heavy_head() -> (b: BoxStyle)
    ensures
        b.rows() == seq![
            seq!['┏', '━', '┳', '┓'],
            seq!['┃', ' ', '┃', '┃'],
            seq!['┡', '━', '╇', '┩'],
            seq!['│', ' ', '│', '│'],
            seq!['├', '─', '┼', '┤'],
            seq!['├', '─', '┼', '┤'],
            seq!['│', ' ', '│', '│'],
            seq!['└', '─', '┴', '┘'],
        ],
        b.ascii == false,
{
    let b = BoxStyle {
        top_left: '┏',
        top: '━',
        top_divider: '┳',
        top_right: '┓',
        head_left: '┃',
        head_horizontal: ' ',
        head_vertical: '┃',
        head_right: '┃',
        head_row_left: '┡',
        head_row_horizontal: '━',
        head_row_cross: '╇',
        head_row_right: '┩',
        mid_left: '│',
        mid_horizontal: ' ',
        mid_vertical: '│',
        mid_right: '│',
        row_left: '├',
        row_horizontal: '─',
        row_cross: '┼',
        row_right: '┤',
        foot_row_left: '├',
        foot_row_horizontal: '─',
        foot_row_cross: '┼',
        foot_row_right: '┤',
        foot_left: '│',
        foot_horizontal: ' ',
        foot_vertical: '│',
        foot_right: '│',
        bottom_left: '└',
        bottom: '─',
        bottom_divider: '┴',
        bottom_right: '┘',
        ascii: false,
    };
    assert(b.rows() =~= seq![
        seq!['┏', '━', '┳', '┓'],
        seq!['┃', ' ', '┃', '┃'],
        seq!['┡', '━', '╇', '┩'],
        seq!['│', ' ', '│', '│'],
        seq!['├', '─', '┼', '┤'],
        seq!['├', '─', '┼', '┤'],
        seq!['│', ' ', '│', '│'],
        seq!['└', '─', '┴', '┘'],
    ]);
    b
}

/// Double-line borders.
pub fn box_double() -> (b: BoxStyle)
    ensures
        b.rows() == seq![
            seq!['╔', '═', '╦', '╗'],
            seq!['║', ' ', '║', '║'],
            seq!['╠', '═', '╬', '╣'],
            seq!['║', ' ', '║', '║'],
            seq!['╠', '═', '╬', '╣'],
            seq!['╠', '═', '╬', '╣'],
            seq!['║', ' ', '║', '║'],
            seq!['╚', '═', '╩', '╝'],
        ],
        b.ascii == false,
{
    let b = BoxStyle {
        top_left: '╔',
        top: '═',
        top_divider: '╦',
        top_right: '╗',
        head_left: '║',
        head_horizontal: ' ',
        head_vertical: '║',
        head_right: '║',
        head_row_left: '╠',
        head_row_horizontal: '═',
        head_row_cross: '╬',
        head_row_right: '╣',
        mid_left: '║',
        mid_horizontal: ' ',
        mid_vertical: '║',
        mid_right: '║',
        row_left: '╠',
        row_horizontal: '═',
        row_cross: '╬',
        row_right: '╣',
        foot_row_left: '╠',
        foot_row_horizontal: '═',
        foot_row_cross: '╬',
        foot_row_right: '╣',
        foot_left: '║',
        foot_horizontal: ' ',
        foot_vertical: '║',
        foot_right: '║',
        bottom_left: '╚',
        bottom: '═',
        bottom_divider: '╩',
        bottom_right: '╝',
        ascii: false,
    };
    assert(b.rows() =~= seq![
        seq!['╔', '═', '╦', '╗'],
        seq!['║', ' ', '║', '║'],
        seq!['╠', '═', '╬', '╣'],
        seq!['║', ' ', '║', '║'],
        seq!['╠', '═', '╬', '╣'],
        seq!['╠', '═', '╬', '╣'],
        seq!['║', ' ', '║', '║'],
        seq!['╚', '═', '╩', '╝'],
    ]);
    b
}

/// Double outer edge with single inner dividers.
pub fn box_double_edge() -> (b: BoxStyle)
    ensures
        b.rows() == seq![
            seq!['╔', '═', '╤', '╗'],
            seq!['║', ' ', '│', '║'],
            seq!['╟', '─', '┼', '╢'],
            seq!['║', ' ', '│', '║'],
            seq!['╟', '─', '┼', '╢'],
            seq!['╟', '─', '┼', '╢'],
            seq!['║', ' ', '│', '║'],
            seq!['╚', '═', '╧', '╝'],
        ],
        b.ascii == false,
{
    let b = BoxStyle {
        top_left: '╔',
        top: '═',
        top_divider: '╤',
        top_right: '╗',
        head_left: '║',
        head_horizontal: ' ',
        head_vertical: '│',
        head_right: '║',
        head_row_left: '╟',
        head_row_horizontal: '─',
        head_row_cross: '┼',
        head_row_right: '╢',
        mid_left: '║',
        mid_horizontal: ' ',
        mid_vertical: '│',
        mid_right: '║',
        row_left: '╟',
        row_horizontal: '─',
        row_cross: '┼',
        row_right: '╢',
        foot_row_left: '╟',
        foot_row_horizontal: '─',
        foot_row_cross: '┼',
        foot_row_right: '╢',
        foot_left: '║',
        foot_horizontal: ' ',
        foot_vertical: '│',
        foot_right: '║',
        bottom_left: '╚',
        bottom: '═',
        bottom_divider: '╧',
        bottom_right: '╝',
        ascii: false,
    };
    assert(b.rows() =~= seq![
        seq!['╔', '═', '╤', '╗'],
        seq!['║', ' ', '│', '║'],
        seq!['╟', '─', '┼', '╢'],
        seq!['║', ' ', '│', '║'],
        seq!['╟', '─', '┼', '╢'],
        seq!['╟', '─', '┼', '╢'],
        seq!['║', ' ', '│', '║'],
        seq!['╚', '═', '╧', '╝'],
    ]);
    b
}

/// Simple borders (no vertical edges, horizontal rules only).
pub fn box_simple() -> (b: BoxStyle)
    ensures
        b.rows() == seq![
            seq![' ', ' ', ' ', ' '],
            seq![' ', ' ', ' ', ' '],
            seq![' ', '─', '─', ' '],
            seq![' ', ' ', ' ', ' '],
            seq![' ', ' ', ' ', ' '],
            seq![' ', '─', '─', ' '],
            seq![' ', ' ', ' ', ' '],
            seq![' ', ' ', ' ', ' '],
        ],
        b.ascii == false,
{
    let b = BoxStyle {
        top_left: ' ',
        top: ' ',
        top_divider: ' ',
        top_right: ' ',
        head_left: ' ',
        head_horizontal: ' ',
        head_vertical: ' ',
        head_right: ' ',
        head_row_left: ' ',
        head_row_horizontal: '─',
        head_row_cross: '─',
        head_row_right: ' ',
        mid_left: ' ',
        mid_horizontal: ' ',
        mid_vertical: ' ',
        mid_right: ' ',
        row_left: ' ',
        row_horizontal: ' ',
        row_cross: ' ',
        row_right: ' ',
        foot_row_left: ' ',
        foot_row_horizontal: '─',
        foot_row_cross: '─',
        foot_row_right: ' ',
        foot_left: ' ',
        foot_horizontal: ' ',
        foot_vertical: ' ',
        foot_right: ' ',
        bottom_left: ' ',
        bottom: ' ',
        bottom_divider: ' ',
        bottom_right: ' ',
        ascii: false,
    };
    assert(b.rows() =~= seq![
        seq![' ', ' ', ' ', ' '],
        seq![' ', ' ', ' ', ' '],
        seq![' ', '─', '─', ' '],
        seq![' ', ' ', ' ', ' '],
        seq![' ', ' ', ' ', ' '],
        seq![' ', '─', '─', ' '],
        seq![' ', ' ', ' ', ' '],
        seq![' ', ' ', ' ', ' '],
    ]);
    b
}

/// Simple borders with heavy horizontal rules.
pub fn box_simple_heavy() -> (b: BoxStyle)
    ensures
        b.rows() == seq![
            seq![' ', ' ', ' ', ' '],
            seq![' ', ' ', ' ', ' '],
            seq![' ', '━', '━', ' '],
            seq![' ', ' ', ' ', ' '],
            seq![' ', ' ', ' ', ' '],
            seq![' ', '━', '━', ' '],
            seq![' ', ' ', ' ', ' '],
            seq![' ', ' ', ' ', ' '],
        ],
        b.ascii == false,
{
    let b = BoxStyle {
        top_left: ' ',
        top: ' ',
        top_divider: ' ',
        top_right: ' ',
        head_left: ' ',
        head_horizontal: ' ',
        head_vertical: ' ',
        head_right: ' ',
        head_row_left: ' ',
        head_row_horizontal: '━',
        head_row_cross: '━',
        head_row_right: ' ',
        mid_left: ' ',
        mid_horizontal: ' ',
        mid_vertical: ' ',
        mid_right: ' ',
        row_left: ' ',
        row_horizontal: ' ',
        row_cross: ' ',
        row_right: ' ',
        foot_row_left: ' ',
        foot_row_horizontal: '━',
        foot_row_cross: '━',
        foot_row_right: ' ',
        foot_left: ' ',
        foot_horizontal: ' ',
        foot_vertical: ' ',
        foot_right: ' ',
        bottom_left: ' ',
        bottom: ' ',
        bottom_divider: ' ',
        bottom_right: ' ',
        ascii: false,
    };
    assert(b.rows() =~= seq![
        seq![' ', ' ', ' ', ' '],
        seq![' ', ' ', ' ', ' '],
        seq![' ', '━', '━', ' '],
        seq![' ', ' ', ' ', ' '],
        seq![' ', ' ', ' ', ' '],
        seq![' ', '━', '━', ' '],
        seq![' ', ' ', ' ', ' '],
        seq![' ', ' ', ' ', ' '],
    ]);
    b
}

/// Minimal box (just horizontal separators between header/body).
pub fn box_minimal() -> (b: BoxStyle)
    ensures
        b.rows() == seq![
            seq![' ', ' ', '╷', ' '],
            seq![' ', ' ', '│', ' '],
            seq!['╶', '─', '┼', '╴'],
            seq![' ', ' ', '│', ' '],
            seq!['╶', '─', '┼', '╴'],
            seq!['╶', '─', '┼', '╴'],
            seq![' ', ' ', '│', ' '],
            seq![' ', ' ', '╵', ' '],
        ],
        b.ascii == false,
{
    let b = BoxStyle {
        top_left: ' ',
        top: ' ',
        top_divider: '╷',
        top_right: ' ',
        head_left: ' ',
        head_horizontal: ' ',
        head_vertical: '│',
        head_right: ' ',
        head_row_left: '╶',
        head_row_horizontal: '─',
        head_row_cross: '┼',
        head_row_right: '╴',
        mid_left: ' ',
        mid_horizontal: ' ',
        mid_vertical: '│',
        mid_right: ' ',
        row_left: '╶',
        row_horizontal: '─',
        row_cross: '┼',
        row_right: '╴',
        foot_row_left: '╶',
        foot_row_horizontal: '─',
        foot_row_cross: '┼',
        foot_row_right: '╴',
        foot_left: ' ',
        foot_horizontal: ' ',
        foot_vertical: '│',
        foot_right: ' ',
        bottom_left: ' ',
        bottom: ' ',
        bottom_divider: '╵',
        bottom_right: ' ',
        ascii: false,
    };
    assert(b.rows() =~= seq![
        seq![' ', ' ', '╷', ' '],
        seq![' ', ' ', '│', ' '],
        seq!['╶', '─', '┼', '╴'],
        seq![' ', ' ', '│', ' '],
        seq!['╶', '─', '┼', '╴'],
        seq!['╶', '─', '┼', '╴'],
        seq![' ', ' ', '│', ' '],
        seq![' ', ' ', '╵', ' '],
    ]);
    b
}

/// Minimal box with heavy horizontal separators.
pub fn box_minimal_heavy() -> (b: BoxStyle)
    ensures
        b.rows() == seq![
            seq![' ', ' ', '╷', ' '],
            seq![' ', ' ', '│', ' '],
            seq!['╺', '━', '┿', '╸'],
            seq![' ', ' ', '│', ' '],
            seq!['╶', '─', '┼', '╴'],
            seq!['╶', '─', '┼', '╴'],
            seq![' ', ' ', '│', ' '],
            seq![' ', ' ', '╵', ' '],
        ],
        b.ascii == false,
{
    let b = BoxStyle {
        top_left: ' ',
        top: ' ',
        top_divider: '╷',
        top_right: ' ',
        head_left: ' ',
        head_horizontal: ' ',
        head_vertical: '│',
        head_right: ' ',
        head_row_left: '╺',
        head_row_horizontal: '━',
        head_row_cross: '┿',
        head_row_right: '╸',
        mid_left: ' ',
        mid_horizontal: ' ',
        mid_vertical: '│',
        mid_right: ' ',
        row_left: '╶',
        row_horizontal: '─',
        row_cross: '┼',
        row_right: '╴',
        foot_row_left: '╶',
        foot_row_horizontal: '─',
        foot_row_cross: '┼',
        foot_row_right: '╴',
        foot_left: ' ',
        foot_horizontal: ' ',
        foot_vertical: '│',
        foot_right: ' ',
        bottom_left: ' ',
        bottom: ' ',
        bottom_divider: '╵',
        bottom_right: ' ',
        ascii: false,
    };
    assert(b.rows() =~= seq![
        seq![' ', ' ', '╷', ' '],
        seq![' ', ' ', '│', ' '],
        seq!['╺', '━', '┿', '╸'],
        seq![' ', ' ', '│', ' '],
        seq!['╶', '─', '┼', '╴'],
        seq!['╶', '─', '┼', '╴'],
        seq![' ', ' ', '│', ' '],
        seq![' ', ' ', '╵', ' '],
    ]);
    b
}

/// Markdown-style box (no outer edges, vertical separators only).
pub fn box_markdown() -> (b: BoxStyle)
    ensures
        b.rows() == seq![
            seq![' ', ' ', ' ', ' '],
            seq!['|', ' ', '|', '|'],
            seq!['|', '-', '|', '|'],
            seq!['|', ' ', '|', '|'],
            seq!['|', '-', '|', '|'],
            seq!['|', '-', '|', '|'],
            seq!['|', ' ', '|', '|'],
            seq![' ', ' ', ' ', ' '],
        ],
        b.ascii == false,
{
    let b = BoxStyle {
        top_left: ' ',
        top: ' ',
        top_divider: ' ',
        top_right: ' ',
        head_left: '|',
        head_horizontal: ' ',
        head_vertical: '|',
        head_right: '|',
        head_row_left: '|',
        head_row_horizontal: '-',
        head_row_cross: '|',
        head_row_right: '|',
        mid_left: '|',
        mid_horizontal: ' ',
        mid_vertical: '|',
        mid_right: '|',
        row_left: '|',
        row_horizontal: '-',
        row_cross: '|',
        row_right: '|',
        foot_row_left: '|',
        foot_row_horizontal: '-',
        foot_row_cross: '|',
        foot_row_right: '|',
        foot_left: '|',
        foot_horizontal: ' ',
        foot_vertical: '|',
        foot_right: '|',
        bottom_left: ' ',
        bottom: ' ',
        bottom_divider: ' ',
        bottom_right: ' ',
        ascii: false,
    };
    assert(b.rows() =~= seq![
        seq![' ', ' ', ' ', ' '],
        seq!['|', ' ', '|', '|'],
        seq!['|', '-', '|', '|'],
        seq!['|', ' ', '|', '|'],
        seq!['|', '-', '|', '|'],
        seq!['|', '-', '|', '|'],
        seq!['|', ' ', '|', '|'],
        seq![' ', ' ', ' ', ' '],
    ]);
    b
}

/// The box to draw with: the ASCII box when only ASCII may be used and
/// `box_style` is not ASCII, else `box_style` itself.
pub fn get_safe_box(box_style: &BoxStyle, ascii_only: bool) -> (b: BoxStyle)
    ensures
        (ascii_only && !box_style.ascii) ==> b.rows() == box_ascii_rows() && b.ascii,
        !(ascii_only && !box_style.ascii) ==> b == *box_style,
{
    if ascii_only && !box_style.ascii {
        box_ascii()
    } else {
        BoxStyle {
            top_left: box_style.top_left,
            top: box_style.top,
            top_divider: box_style.top_divider,
            top_right: box_style.top_right,
            head_left: box_style.head_left,
            head_horizontal: box_style.head_horizontal,
            head_vertical: box_style.head_vertical,
            head_right: box_style.head_right,
            head_row_left: box_style.head_row_left,
            head_row_horizontal: box_style.head_row_horizontal,
            head_row_cross: box_style.head_row_cross,
            head_row_right: box_style.head_row_right,
            mid_left: box_style.mid_left,
            mid_horizontal: box_style.mid_horizontal,
            mid_vertical: box_style.mid_vertical,
            mid_right: box_style.mid_right,
            row_left: box_style.row_left,
            row_horizontal: box_style.row_horizontal,
            row_cross: box_style.row_cross,
            row_right: box_style.row_right,
            foot_row_left: box_style.foot_row_left,
            foot_row_horizontal: box_style.foot_row_horizontal,
            foot_row_cross: box_style.foot_row_cross,
            foot_row_right: box_style.foot_row_right,
            foot_left: box_style.foot_left,
            foot_horizontal: box_style.foot_horizontal,
            foot_vertical: box_style.foot_vertical,
            foot_right: box_style.foot_right,
            bottom_left: box_style.bottom_left,
            bottom: box_style.bottom,
            bottom_divider: box_style.bottom_divider,
            bottom_right: box_style.bottom_right,
            ascii: box_style.ascii,
        }
    }
}

/// The rows of the ASCII box.
pub open spec fn box_ascii_rows() -> Seq<Seq<char>> {
    seq![
        seq!['+', '-', '-', '+'],
        seq!['|', ' ', '|', '|'],
        seq!['|', '-', '+', '|'],
        seq!['|', ' ', '|', '|'],
        seq!['|', '-', '+', '|'],
        seq!['|', '-', '+', '|'],
        seq!['|', ' ', '|', '|'],
        seq!['+', '-', '-', '+'],
    ]
}

} // verus!
