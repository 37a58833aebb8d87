//! Simple tables: a header row and rows of cells, each column as wide as
//! its widest cell, drawn with box lines.

use vstd::prelude::*;
use crate::align::{AlignMethod, align_text_spec};
use crate::cells::{cell_len, unicode_str_width};
use crate::console::{ConsoleOptions, RenderResult, Renderable};
use crate::segment::Segment;
use crate::style::{Style, render_spec};
use crate::strutil::{owned, push_char, push_spaces, push_str, spaces};

verus! {

/// A column: its header, the style of the header, and how its cells are
/// justified.
#[derive(Debug, Clone)]
pub struct Column {
    /// The header text.
    pub header: String,
    /// The style of the header.
    pub header_style: Style,
    /// How the texts of the column are justified in its width.
    pub justify: AlignMethod,
}

impl Column {
    /// A column headed `header`, unstyled, justified left.
    pub fn new(header: &str) -> (c: Self)
        ensures
            c.header@ == header@,
            c.header_style == crate::style::empty_style(),
            c.justify == AlignMethod::Left,
    {
        Column { header: owned(header), header_style: Style::new(), justify: AlignMethod::Left }
    }

    /// This column with header style `style`.
    pub fn header_style(self, style: Style) -> (c: Self)
        ensures
            c.header@ == self.header@,
            c.header_style == style,
            c.justify == self.justify,
    {
        Column { header: self.header, header_style: style, justify: self.justify }
    }

    /// This column with its texts justified as `justify` says.
    pub fn justify(self, justify: AlignMethod) -> (c: Self)
        ensures
            c.header@ == self.header@,
            c.header_style == self.header_style,
            c.justify == justify,
    {
        Column { header: self.header, header_style: self.header_style, justify }
    }
}

/// A table cell.
#[derive(Debug, Clone)]
pub struct Cell {
    /// The text of the cell.
    pub text: String,
}

impl Cell {
    /// A cell holding `text`.
    pub fn new(text: &str) -> (c: Self)
        ensures
            c.text@ == text@,
    {
        Cell { text: owned(text) }
    }
}

/// A table.
#[derive(Debug, Clone)]
pub struct Table {
    /// The columns.
    pub columns: Vec<Column>,
    /// The rows; cells past the last column are not shown, missing ones are
    /// empty.
    pub rows: Vec<Vec<Cell>>,
    /// Whether the header row is shown.
    pub show_header: bool,
    /// Whether the outer border is drawn.
    pub show_edge: bool,
    /// Whether a line is drawn between rows.
    pub show_lines: bool,
}

/// The text of cell `j` of a row: its text, or nothing when the row is
/// short.
pub open spec fn cell_text(row: Seq<Cell>, j: int) -> Seq<char> {
    if 0 <= j < row.len() {
        row[j].text@
    } else {
        seq![]
    }
}

/// The widest of the first `k` rows' cell `j` (and the header when shown).
pub open spec fn width_upto(t: Table, j: int, k: nat) -> nat
    decreases k,
{
    if k == 0 || k > t.rows@.len() {
        if t.show_header {
            unicode_str_width(t.columns@[j].header@) as nat
        } else {
            0
        }
    } else {
        let prev = width_upto(t, j, (k - 1) as nat);
        let w = unicode_str_width(cell_text(t.rows@[k - 1]@, j)) as nat;
        if w > prev {
            w
        } else {
            prev
        }
    }
}

/// The width of column `j`: its widest cell.
pub open spec fn col_width(t: Table, j: int) -> nat {
    width_upto(t, j, t.rows@.len())
}

/// `text` padded with spaces to `w` cells (unchanged when wider).
pub open spec fn pad_to(text: Seq<char>, w: nat) -> Seq<char> {
    let tw = unicode_str_width(text) as nat;
    if tw >= w {
        text
    } else {
        text + spaces((w - tw) as nat)
    }
}

/// `text` justified in `w` cells: to the right or centred when asked,
/// else to the left (unchanged when wider).
pub open spec fn fill_to(text: Seq<char>, w: nat, justify: AlignMethod) -> Seq<char> {
    match justify {
        AlignMethod::Right => align_text_spec(AlignMethod::Right, text, w),
        AlignMethod::Center => align_text_spec(AlignMethod::Center, text, w),
        _ => pad_to(text, w),
    }
}

/// The text of a row from the first `k` of its column texts, separated by
/// ` │ `.
pub open spec fn join_cells(cells: Seq<Seq<char>>, k: nat) -> Seq<char>
    decreases k,
{
    if k == 0 || k > cells.len() {
        seq![]
    } else if k == 1 {
        cells[0]
    } else {
        join_cells(cells, (k - 1) as nat) + " │ "@ + cells[k - 1]
    }
}

/// A row with its outer border when edges are shown.
pub open spec fn with_edges(body: Seq<char>, edge: bool) -> Seq<char> {
    if edge {
        "│ "@ + body + " │"@
    } else {
        body
    }
}

/// The padded texts of a row's cells.
pub open spec fn row_cells(t: Table, row: Seq<Cell>) -> Seq<Seq<char>> {
    Seq::new(t.columns@.len(), |j: int| fill_to(cell_text(row, j), col_width(t, j), t.columns@[j].justify))
}

/// The text of a row.
pub open spec fn row_text(t: Table, row: Seq<Cell>) -> Seq<char> {
    with_edges(join_cells(row_cells(t, row), t.columns@.len()), t.show_edge)
}

/// The text of the header row: each header padded and in its style.
pub open spec fn header_text(t: Table) -> Seq<char> {
    with_edges(
        join_cells(
            Seq::new(
                t.columns@.len(),
                |j: int| render_spec(t.columns@[j].header_style, fill_to(t.columns@[j].header@, col_width(t, j), t.columns@[j].justify)),
            ),
            t.columns@.len(),
        ),
        t.show_edge,
    )
}

/// A rule line: each column's width in `─`, joined by `─X─` where X is the
/// crossing character, with the left and right ends when edges are shown.
pub open spec fn rule_text(t: Table, left: char, cross: char, right: char) -> Seq<char> {
    let body = join_rule(Seq::new(t.columns@.len(), |j: int| Seq::new(col_width(t, j), |i: int| '─')), cross, t.columns@.len());
    if t.show_edge {
        seq![left, '─'] + body + seq!['─', right]
    } else {
        body
    }
}

/// Rule pieces joined by `─X─`.
pub open spec fn join_rule(parts: Seq<Seq<char>>, cross: char, k: nat) -> Seq<char>
    decreases k,
{
    if k == 0 || k > parts.len() {
        seq![]
    } else if k == 1 {
        parts[0]
    } else {
        join_rule(parts, cross, (k - 1) as nat) + seq!['─', cross, '─'] + parts[k - 1]
    }
}

/// The texts of the table's lines: top rule (with edges), header and its
/// rule (when shown), the rows with rules between them (when asked), and the
/// bottom rule (with edges).
pub open spec fn table_texts(t: Table) -> Seq<Seq<char>> {
    (if t.show_edge { seq![rule_text(t, '┌', '┬', '┐')] } else { seq![] }) + (if t.show_header {
        seq![header_text(t), rule_text(t, '├', '┼', '┤')]
    } else {
        seq![]
    }) + rows_texts(t, t.rows@.len()) + (if t.show_edge { seq![rule_text(t, '└', '┴', '┘')] } else { seq![] })
}

/// The texts of the first `k` rows, with rules between them when asked.
pub open spec fn rows_texts(t: Table, k: nat) -> Seq<Seq<char>>
    decreases k,
{
    if k == 0 || k > t.rows@.len() {
        seq![]
    } else {
        rows_texts(t, (k - 1) as nat) + (if t.show_lines && k > 1 {
            seq![rule_text(t, '├', '┼', '┤')]
        } else {
            seq![]
        }) + seq![row_text(t, t.rows@[k - 1]@)]
    }
}

/// The texts of lines that are each a text segment and a newline.
pub open spec fn first_texts(lines: Seq<Vec<Segment>>) -> Seq<Seq<char>> {
    lines.map_values(|l: Vec<Segment>| l@[0].text@)
}

/// Whether a line is one unstyled text segment and a newline.
pub open spec fn line_shaped(l: Seq<Segment>) -> bool {
    l.len() == 2 && l[0].style is None && l[1].text@ == seq!['\n'] && l[1].style is None
}

/// A line of one unstyled text segment and a newline.
fn one_line(text: String) -> (l: Vec<Segment>)
    ensures
        line_shaped(l@),
        l@.len() == 2,
        l@[0].text@ == text@,
        l@[0].style is None,
        l@[1].text@ == seq!['\n'],
{
    let mut l: Vec<Segment> = Vec::new();
    l.push(Segment::new(text.as_str()));
    l.push(Segment::line());
    l
}

/// `text` justified in `w` cells.
fn pad(text: &str, w: usize, justify: AlignMethod) -> (s: String)
    ensures
        s@ == fill_to(text@, w as nat, justify),
{
    match justify {
        AlignMethod::Right => AlignMethod::Right.align_text(text, w),
        AlignMethod::Center => AlignMethod::Center.align_text(text, w),
        _ => {
            let tw = cell_len(text);
            let mut s = owned(text);
            if tw < w {
                push_spaces(&mut s, w - tw);
            }
            s
        },
    }
}

impl Table {
    /// An empty table with header and edges shown.
    pub fn new() -> (t: Self)
        ensures
            t.columns@.len() == 0,
            t.rows@.len() == 0,
            t.show_header && t.show_edge && !t.show_lines,
    {
        Table { columns: Vec::new(), rows: Vec::new(), show_header: true, show_edge: true, show_lines: false }
    }

    /// Adds a column.
    pub fn add_column(&mut self, column: Column)
        ensures
            final(self).columns@ == old(self).columns@.push(column),
            final(self).rows@ == old(self).rows@,
            final(self).show_header == old(self).show_header,
            final(self).show_edge == old(self).show_edge,
            final(self).show_lines == old(self).show_lines,
    {
        self.columns.push(column);
    }

    /// Adds a row of cells.
    pub fn add_row(&mut self, cells: Vec<Cell>)
        ensures
            final(self).rows@ == old(self).rows@.push(cells),
            final(self).columns@ == old(self).columns@,
            final(self).show_header == old(self).show_header,
            final(self).show_edge == old(self).show_edge,
            final(self).show_lines == old(self).show_lines,
    {
        self.rows.push(cells);
    }

    /// Adds a row of texts.
    pub fn add_row_str(&mut self, texts: Vec<String>)
        ensures
            final(self).rows@.len() == old(self).rows@.len() + 1,
            forall|j: int| 0 <= j < texts@.len() ==> #[trigger] final(self).rows@.last()@[j].text@ == texts@[j]@,
            final(self).rows@.last()@.len() == texts@.len(),
            final(self).columns@ == old(self).columns@,
    {
        let mut cells: Vec<Cell> = Vec::new();
        let mut i: usize = 0;
        while i < texts.len()
            invariant
                i <= texts.len(),
                cells@.len() == i,
                forall|j: int| 0 <= j < i ==> #[trigger] cells@[j].text@ == texts@[j]@,
            decreases texts.len() - i,
        {
            cells.push(Cell::new(texts[i].as_str()));
            i = i + 1;
        }
        self.rows.push(cells);
    }

    /// The width of column `j`.
    fn column_width(&self, j: usize) -> (w: usize)
        requires
            j < self.columns@.len(),
        ensures
            w == col_width(*self, j as int),
    {
        let mut w: usize = if self.show_header {
            cell_len(self.columns[j].header.as_str())
        } else {
            0
        };
        let mut k: usize = 0;
        while k < self.rows.len()
            invariant
                j < self.columns@.len(),
                k <= self.rows.len(),
                w == width_upto(*self, j as int, k as nat),
            decreases self.rows.len() - k,
        {
            let c = if j < self.rows[k].len() {
                cell_len(self.rows[k][j].text.as_str())
            } else {
                cell_len("")
            };
            proof {
                reveal_strlit("");
                assert(""@ =~= Seq::<char>::empty());
            }
            if c > w {
                w = c;
            }
            k = k + 1;
        }
        w
    }

    /// The width of every column.
    fn widths(&self) -> (ws: Vec<usize>)
        ensures
            ws@.len() == self.columns@.len(),
            forall|j: int| 0 <= j < ws@.len() ==> ws@[j] == col_width(*self, j),
    {
        let mut ws: Vec<usize> = Vec::new();
        let mut j: usize = 0;
        while j < self.columns.len()
            invariant
                j <= self.columns.len(),
                ws@.len() == j,
                forall|k: int| 0 <= k < j ==> ws@[k] == col_width(*self, k),
            decreases self.columns.len() - j,
        {
            ws.push(self.column_width(j));
            j = j + 1;
        }
        ws
    }

    /// Joins cell texts with ` │ ` and adds the edges when shown.
    fn assemble(&self, cells: Vec<String>) -> (s: String)
        ensures
            s@ == with_edges(join_cells(crate::strutil::views(cells@), cells@.len()), self.show_edge),
    {
        let mut body = String::new();
        let mut j: usize = 0;
        let ghost cv = crate::strutil::views(cells@);
        while j < cells.len()
            invariant
                j <= cells.len(),
                cv == crate::strutil::views(cells@),
                body@ == join_cells(cv, j as nat),
            decreases cells.len() - j,
        {
            if j > 0 {
                push_str(&mut body, " │ ");
            }
            push_str(&mut body, cells[j].as_str());
            j = j + 1;
        }
        if self.show_edge {
            let mut s = owned("│ ");
            push_str(&mut s, body.as_str());
            push_str(&mut s, " │");
            s
        } else {
            body
        }
    }

    /// The text of a row.
    fn row_line(&self, row: &Vec<Cell>, ws: &Vec<usize>) -> (s: String)
        requires
            ws@.len() == self.columns@.len(),
            forall|j: int| 0 <= j < ws@.len() ==> ws@[j] == col_width(*self, j),
        ensures
            s@ == row_text(*self, row@),
    {
        let mut cells: Vec<String> = Vec::new();
        let mut j: usize = 0;
        while j < ws.len()
            invariant
                j <= ws.len(),
                ws@.len() == self.columns@.len(),
                forall|k: int| 0 <= k < ws@.len() ==> ws@[k] == col_width(*self, k),
                crate::strutil::views(cells@) == row_cells(*self, row@).take(j as int),
            decreases ws.len() - j,
        {
            let t = if j < row.len() {
                pad(row[j].text.as_str(), ws[j], self.columns[j].justify)
            } else {
                proof {
                    reveal_strlit("");
                    assert(""@ =~= Seq::<char>::empty());
                }
                pad("", ws[j], self.columns[j].justify)
            };
            let ghost c0 = crate::strutil::views(cells@);
            cells.push(t);
            assert(crate::strutil::views(cells@) =~= c0.push(t@));
            j = j + 1;
            assert(crate::strutil::views(cells@) =~= row_cells(*self, row@).take(j as int));
        }
        assert(row_cells(*self, row@).take(ws.len() as int) =~= row_cells(*self, row@));
        self.assemble(cells)
    }

    /// The text of the header row.
    fn header_line(&self, ws: &Vec<usize>) -> (s: String)
        requires
            ws@.len() == self.columns@.len(),
            forall|j: int| 0 <= j < ws@.len() ==> ws@[j] == col_width(*self, j),
        ensures
            s@ == header_text(*self),
    {
        let ghost hs = Seq::new(
            self.columns@.len(),
            |j: int| render_spec(self.columns@[j].header_style, fill_to(self.columns@[j].header@, col_width(*self, j), self.columns@[j].justify)),
        );
        let mut cells: Vec<String> = Vec::new();
        let mut j: usize = 0;
        while j < ws.len()
            invariant
                j <= ws.len(),
                ws@.len() == self.columns@.len(),
                forall|k: int| 0 <= k < ws@.len() ==> ws@[k] == col_width(*self, k),
                hs == Seq::new(
                    self.columns@.len(),
                    |k: int| render_spec(self.columns@[k].header_style, fill_to(self.columns@[k].header@, col_width(*self, k), self.columns@[k].justify)),
                ),
                crate::strutil::views(cells@) == hs.take(j as int),
            decreases ws.len() - j,
        {
            let p = pad(self.columns[j].header.as_str(), ws[j], self.columns[j].justify);
            let t = self.columns[j].header_style.render(p.as_str());
            let ghost c0 = crate::strutil::views(cells@);
            cells.push(t);
            assert(crate::strutil::views(cells@) =~= c0.push(t@));
            j = j + 1;
            assert(crate::strutil::views(cells@) =~= hs.take(j as int));
        }
        assert(hs.take(ws.len() as int) =~= hs);
        self.assemble(cells)
    }

    /// A rule line with the given end and crossing characters.
    fn rule_line(&self, ws: &Vec<usize>, left: char, cross: char, right: char) -> (s: String)
        requires
            ws@.len() == self.columns@.len(),
            forall|j: int| 0 <= j < ws@.len() ==> ws@[j] == col_width(*self, j),
        ensures
            s@ == rule_text(*self, left, cross, right),
    {
        let ghost parts = Seq::new(self.columns@.len(), |j: int| Seq::new(col_width(*self, j), |i: int| '─'));
        let mut body = String::new();
        let mut j: usize = 0;
        while j < ws.len()
            invariant
                j <= ws.len(),
                ws@.len() == self.columns@.len(),
                forall|k: int| 0 <= k < ws@.len() ==> ws@[k] == col_width(*self, k),
                parts == Seq::new(self.columns@.len(), |k: int| Seq::new(col_width(*self, k), |i: int| '─')),
                body@ == join_rule(parts, cross, j as nat),
            decreases ws.len() - j,
        {
            if j > 0 {
                push_char(&mut body, '─');
                push_char(&mut body, cross);
                push_char(&mut body, '─');
            }
            let ghost b0 = body@;
            let mut k: usize = 0;
            while k < ws[j]
                invariant
                    k <= ws@[j as int],
                    j < ws@.len(),
                    body@ == b0 + Seq::new(k as nat, |i: int| '─'),
                decreases ws@[j as int] - k,
            {
                push_char(&mut body, '─');
                k = k + 1;
                assert(body@ =~= b0 + Seq::new(k as nat, |i: int| '─'));
            }
            assert(Seq::new(ws@[j as int] as nat, |i: int| '─') =~= parts[j as int]);
            j = j + 1;
            assert(body@ =~= join_rule(parts, cross, j as nat));
        }
        if self.show_edge {
            let mut s = String::new();
            push_char(&mut s, left);
            push_char(&mut s, '─');
            push_str(&mut s, body.as_str());
            push_char(&mut s, '─');
            push_char(&mut s, right);
            assert(s@ =~= seq![left, '─'] + body@ + seq!['─', right]);
            s
        } else {
            body
        }
    }

    /// The lines of the table, as `table_texts` gives their texts, each a
    /// text segment followed by a newline.
    pub fn render_lines(&self) -> (lines: Vec<Vec<Segment>>)
        ensures
            first_texts(lines@) == table_texts(*self),
            forall|i: int| 0 <= i < lines@.len() ==> #[trigger] line_shaped(lines@[i]@),
    {
        let ws = self.widths();
        let mut lines: Vec<Vec<Segment>> = Vec::new();
        let ghost e = first_texts(lines@);
        assert(e =~= Seq::<Seq<char>>::empty());
        if self.show_edge {
            let l = one_line(self.rule_line(&ws, '┌', '┬', '┐'));
            lines.push(l);
        }
        assert(first_texts(lines@) =~= (if self.show_edge { seq![rule_text(*self, '┌', '┬', '┐')] } else { seq![] }));
        let ghost top = first_texts(lines@);
        if self.show_header {
            let ghost l0 = lines@;
            lines.push(one_line(self.header_line(&ws)));
            lines.push(one_line(self.rule_line(&ws, '├', '┼', '┤')));
            assert(first_texts(lines@) =~= top + seq![header_text(*self), rule_text(*self, '├', '┼', '┤')]);
        }
        let ghost head = first_texts(lines@);
        assert(head =~= top + (if self.show_header {
            seq![header_text(*self), rule_text(*self, '├', '┼', '┤')]
        } else {
            seq![]
        }));
        let mut k: usize = 0;
        while k < self.rows.len()
            invariant
                k <= self.rows.len(),
                ws@.len() == self.columns@.len(),
                forall|j: int| 0 <= j < ws@.len() ==> ws@[j] == col_width(*self, j),
                first_texts(lines@) == head + rows_texts(*self, k as nat),
                forall|i: int| 0 <= i < lines@.len() ==> #[trigger] line_shaped(lines@[i]@),
            decreases self.rows.len() - k,
        {
            let ghost l0 = first_texts(lines@);
            if self.show_lines && k > 0 {
                lines.push(one_line(self.rule_line(&ws, '├', '┼', '┤')));
                assert(first_texts(lines@) =~= l0.push(rule_text(*self, '├', '┼', '┤')));
            }
            let ghost l1 = first_texts(lines@);
            let row = one_line(self.row_line(&self.rows[k], &ws));
            lines.push(row);
            assert(first_texts(lines@) =~= l1.push(row_text(*self, self.rows@[k as int]@)));
            k = k + 1;
            assert(first_texts(lines@) =~= head + rows_texts(*self, k as nat));
        }
        if self.show_edge {
            let ghost l1 = first_texts(lines@);
            lines.push(one_line(self.rule_line(&ws, '└', '┴', '┘')));
            assert(first_texts(lines@) =~= l1.push(rule_text(*self, '└', '┴', '┘')));
        }
        assert(first_texts(lines@) =~= table_texts(*self));
        lines
    }
}

impl Renderable for Table {
    fn measure(&self, options: &ConsoleOptions) -> Option<crate::measure::Measurement> {
        None
    }

    open spec fn renders(&self, options: ConsoleOptions, r: RenderResult) -> bool {
        &&& r.items@.len() == 0
        &&& first_texts(r.lines@) == table_texts(*self)
        &&& forall|i: int| 0 <= i < r.lines@.len() ==> #[trigger] line_shaped(r.lines@[i]@)
    }

    fn render(&self, options: &ConsoleOptions) -> (r: RenderResult) {
        RenderResult { lines: self.render_lines(), items: Vec::new() }
    }
}

} // verus!
