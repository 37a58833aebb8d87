//! Renderables laid out side by side in columns.

use vstd::prelude::*;
use crate::align::AlignMethod;
use crate::cells::unicode_str_width;
use crate::console::{ConsoleOptions, DynRenderable, RenderItem, RenderResult, Renderable, flatten_lines, is_default_options};
use crate::layout::{sat_add, sat_mul};
use crate::measure::Measurement;
use crate::segment::Segment;
use crate::strutil::{owned, push_spaces, spaces};
use crate::style::Style;

verus! {

/// Renderables shown side by side, as many columns as fit.
pub struct Columns {
    /// The renderables, in the order they were added.
    pub renderables: Vec<DynRenderable>,
    /// Whether every column takes the width of the widest item.
    pub equal: bool,
    /// Whether to fill the available width.
    pub expand: bool,
    /// Padding round the columns: top, right, bottom, left.
    pub padding: (usize, usize, usize, usize),
    /// A fixed column width, if any.
    pub width: Option<usize>,
    /// Whether items run down the columns rather than across the rows.
    pub column_first: bool,
    /// Whether each row runs from right to left.
    pub right_to_left: bool,
    /// How items are aligned within their column, if at all.
    pub align: Option<AlignMethod>,
    /// A title shown above the columns.
    pub title: Option<String>,
    /// The title's style.
    pub title_style: Option<Style>,
}

/// What a segment shows: its text and its style.
pub open spec fn seg_view(s: Segment) -> (Seq<char>, Option<Style>) {
    (s.text@, s.style)
}

/// The views of a run of segments.
pub open spec fn seg_views(s: Seq<Segment>) -> Seq<(Seq<char>, Option<Style>)> {
    s.map_values(|x: Segment| seg_view(x))
}

/// The largest of the first `k` widths (0 for none).
pub open spec fn max_of(ws: Seq<usize>, k: nat) -> nat
    decreases k,
{
    if k == 0 || k > ws.len() {
        0
    } else {
        let m = max_of(ws, (k - 1) as nat);
        if ws[k - 1] > m {
            ws[k - 1] as nat
        } else {
            m
        }
    }
}

/// The width left to each of `c` columns once the gaps between them are
/// taken from `max_width`: each gap is twice `pad` wide.
pub open spec fn avail_spec(max_width: nat, pad: nat, c: nat) -> nat {
    let gaps = (pad * (c - 1) as nat) * 2;
    if max_width > gaps {
        ((max_width - gaps) as nat) / c
    } else {
        0
    }
}

/// The most columns, counting down from `c`, whose width holds the widest
/// item; one column when none does.
pub open spec fn count_from(max_width: nat, pad: nat, widest: nat, c: nat) -> nat
    decreases c,
{
    if c <= 1 {
        1
    } else if avail_spec(max_width, pad, c) >= widest {
        c
    } else {
        count_from(max_width, pad, widest, (c - 1) as nat)
    }
}

/// The count `count_from` settles on, stepping down from `c`, is the
/// largest count up to `c` whose columns have room for the widest item
/// (one column when none has).
proof fn lemma_count_from_largest(max_width: nat, pad: nat, widest: nat, c: nat)
    requires
        c >= 1,
    ensures
        1 <= count_from(max_width, pad, widest, c) <= c,
        count_from(max_width, pad, widest, c) == 1 || avail_spec(max_width, pad, count_from(max_width, pad, widest, c))
            >= widest,
        forall|k: nat| count_from(max_width, pad, widest, c) < k <= c ==> #[trigger] avail_spec(max_width, pad, k)
            < widest,
    decreases c,
{
    if c > 1 && avail_spec(max_width, pad, c) < widest {
        lemma_count_from_largest(max_width, pad, widest, (c - 1) as nat);
    }
}

/// The number of columns is the largest count, up to the number of items,
/// whose columns have room for the widest item (one column when none has;
/// none for no items).
pub proof fn lemma_column_count_largest(widths: Seq<usize>, max_width: nat, pad: nat)
    ensures
        widths.len() == 0 ==> column_count_spec(widths, max_width, pad) == 0,
        widths.len() > 0 ==> {
            let cc = column_count_spec(widths, max_width, pad);
            let w = max_of(widths, widths.len());
            &&& 1 <= cc <= widths.len()
            &&& cc == 1 || avail_spec(max_width, pad, cc) >= w
            &&& forall|k: nat| cc < k <= widths.len() ==> #[trigger] avail_spec(max_width, pad, k) < w
        },
{
    if widths.len() > 1 {
        lemma_count_from_largest(max_width, pad, max_of(widths, widths.len()), widths.len());
    }
}

/// How many columns items of the given widths are shown in.
pub open spec fn column_count_spec(widths: Seq<usize>, max_width: nat, pad: nat) -> nat {
    if widths.len() == 0 {
        0
    } else if widths.len() == 1 {
        1
    } else {
        count_from(max_width, pad, max_of(widths, widths.len()), widths.len())
    }
}

/// The items `idx`, `idx + rc`, `idx + 2 * rc`, ... below `n`: one row of
/// items filled down columns of `rc` rows.
pub open spec fn row_from(n: nat, rc: nat, idx: nat) -> Seq<usize>
    decreases (if idx < n { n - idx } else { 0 }),
{
    if idx >= n || rc == 0 {
        seq![]
    } else {
        seq![idx as usize] + row_from(n, rc, idx + rc)
    }
}

/// The number of rows `n` items take in `cc` columns.
pub open spec fn row_count(n: nat, cc: nat) -> nat {
    if n % cc == 0 {
        n / cc
    } else {
        n / cc + 1
    }
}

/// `order` cut into rows of `cc` items (the last may be shorter).
pub open spec fn rows_of(order: Seq<usize>, cc: nat) -> Seq<Seq<usize>>
    decreases order.len(),
{
    if order.len() == 0 || cc == 0 {
        seq![]
    } else if order.len() <= cc {
        seq![order]
    } else {
        seq![order.take(cc as int)] + rows_of(order.skip(cc as int), cc)
    }
}

/// The rows of item indices of `n` items in `cc` columns: filled down the
/// columns (row `r` holding items `r`, `r + rc`, ... for `rc` rows) when
/// column first, else across the rows.
pub open spec fn grid_rows(n: nat, cc: nat, column_first: bool) -> Seq<Seq<usize>> {
    if column_first {
        let rc = row_count(n, cc);
        Seq::new(rc, |r: int| row_from(n, rc, r as nat))
    } else {
        rows_of(Seq::new(n, |i: int| i as usize), cc)
    }
}

/// The rows of item indices, each reversed when the rows run right to left.
pub open spec fn rows_spec(n: nat, cc: nat, column_first: bool, right_to_left: bool) -> Seq<Seq<usize>> {
    grid_rows(n, cc, column_first).map_values(|r: Seq<usize>| if right_to_left { r.reverse() } else { r })
}

/// The display width of a run of segments.
pub open spec fn segs_width(s: Seq<Segment>) -> nat
    decreases s.len(),
{
    if s.len() == 0 {
        0
    } else {
        segs_width(s.drop_last()) + unicode_str_width(s.last().text@) as nat
    }
}

/// The display width of the first line, 0 when there is none.
pub open spec fn first_line_width(lines: Seq<Vec<Segment>>) -> nat {
    if lines.len() == 0 {
        0
    } else {
        segs_width(lines[0]@)
    }
}

/// The segments one rendered item adds to its row: all its lines, one after
/// another, with spaces before and after as its alignment asks when its
/// first line is narrower than the column.
pub open spec fn cell_segs(res: RenderResult, col_width: nat, align: Option<AlignMethod>) -> Seq<
    (Seq<char>, Option<Style>),
> {
    let flat = seg_views(flatten_lines(res.lines@));
    let rw = first_line_width(res.lines@);
    match align {
        Some(a) => if rw < col_width {
            let pad = (col_width - rw) as nat;
            match a {
                AlignMethod::Right => seq![(spaces(pad), None::<Style>)] + flat,
                AlignMethod::Center => seq![(spaces(pad / 2), None::<Style>)] + flat + seq![
                    (spaces((pad - pad / 2) as nat), None::<Style>),
                ],
                _ => flat,
            }
        } else {
            flat
        },
        None => flat,
    }
}

/// The width of the gap between two columns: twice the padding, or as
/// much as a `usize` holds.
pub open spec fn gap_spec(pad: nat) -> nat {
    if 2 * pad <= usize::MAX {
        2 * pad
    } else {
        usize::MAX as nat
    }
}

/// The segments of a row made of the first `k` rendered items.
pub open spec fn row_segs(
    results: Seq<RenderResult>,
    col_width: nat,
    pad: nat,
    align: Option<AlignMethod>,
    k: nat,
) -> Seq<(Seq<char>, Option<Style>)>
    decreases k,
{
    if k == 0 {
        seq![]
    } else {
        row_segs(results, col_width, pad, align, (k - 1) as nat) + (if k > 1 {
            seq![(spaces(gap_spec(pad)), None::<Style>)]
        } else {
            seq![]
        }) + cell_segs(results[k - 1], col_width, align)
    }
}

/// The width of each column.
pub open spec fn col_width_spec(
    fixed: Option<usize>,
    equal: bool,
    max_width: nat,
    pad: nat,
    cc: nat,
    widest: nat,
) -> nat {
    match fixed {
        Some(w) => w as nat,
        None => {
            let avail = avail_spec(max_width, pad, cc);
            if equal && widest < avail {
                widest
            } else {
                avail
            }
        },
    }
}

/// The number of columns of a fixed width: as many as fit, at least one.
pub open spec fn fixed_count_spec(max_width: nat, fixed: nat, pad: nat) -> nat {
    let wp = if fixed + pad <= usize::MAX {
        fixed + pad
    } else {
        usize::MAX as nat
    };
    if wp > 0 && max_width / wp > 1 {
        max_width / wp
    } else {
        1
    }
}

/// The width left to each of `c` columns once the gaps are taken.
fn avail_per_col(max_width: usize, pad: usize, c: usize) -> (r: usize)
    requires
        c >= 1,
    ensures
        r == avail_spec(max_width as nat, pad as nat, c as nat),
{
    let p1 = sat_mul(pad, c - 1);
    let gaps = sat_mul(p1, 2);
    proof {
        if pad * (c - 1) as nat > usize::MAX {
            assert(p1 == usize::MAX);
            assert(p1 * 2 > usize::MAX);
        }
    }
    let rest = if max_width > gaps {
        max_width - gaps
    } else {
        0
    };
    rest / c
}

/// The largest of `ws`.
fn widest(ws: &Vec<usize>) -> (m: usize)
    ensures
        m == max_of(ws@, ws@.len()),
{
    let mut m: usize = 0;
    let mut i: usize = 0;
    while i < ws.len()
        invariant
            i <= ws.len(),
            m == max_of(ws@, i as nat),
        decreases ws.len() - i,
    {
        if ws[i] > m {
            m = ws[i];
        }
        i = i + 1;
    }
    m
}

/// How many columns items of widths `widths` are shown in, within
/// `max_width` and with gaps of twice `pad` between columns.
pub fn column_count_for(widths: &Vec<usize>, max_width: usize, pad: usize) -> (c: usize)
    ensures
        c == column_count_spec(widths@, max_width as nat, pad as nat),
{
    let n = widths.len();
    if n == 0 {
        return 0;
    }
    if n == 1 {
        return 1;
    }
    let w = widest(widths);
    let mut c: usize = n;
    while c > 1
        invariant
            1 <= c <= n,
            n == widths@.len(),
            w == max_of(widths@, n as nat),
            count_from(max_width as nat, pad as nat, w as nat, n as nat) == count_from(
                max_width as nat,
                pad as nat,
                w as nat,
                c as nat,
            ),
        decreases c,
    {
        if avail_per_col(max_width, pad, c) >= w {
            return c;
        }
        c = c - 1;
    }
    1
}

/// Row `r` of `n` items filled down columns of `rc` rows: items `r`,
/// `r + rc`, `r + 2 * rc`, ... below `n`.
fn row_down(n: usize, rc: usize, r: usize) -> (v: Vec<usize>)
    requires
        rc >= 1,
    ensures
        v@ == row_from(n as nat, rc as nat, r as nat),
{
    let mut v: Vec<usize> = Vec::new();
    let mut idx: usize = r;
    while idx < n
        invariant
            rc >= 1,
            r <= idx,
            v@ + row_from(n as nat, rc as nat, idx as nat) == row_from(n as nat, rc as nat, r as nat),
        decreases n - idx,
    {
        let ghost v0 = v@;
        v.push(idx);
        assert(row_from(n as nat, rc as nat, idx as nat) == seq![idx] + row_from(
            n as nat,
            rc as nat,
            (idx + rc) as nat,
        ));
        assert(v@ + row_from(n as nat, rc as nat, (idx + rc) as nat) =~= v0 + row_from(
            n as nat,
            rc as nat,
            idx as nat,
        ));
        if rc > n - idx {
            assert(row_from(n as nat, rc as nat, (idx + rc) as nat) =~= Seq::<usize>::empty());
            idx = n;
        } else {
            idx = idx + rc;
        }
    }
    assert(row_from(n as nat, rc as nat, idx as nat) =~= Seq::<usize>::empty());
    assert(v@ =~= row_from(n as nat, rc as nat, r as nat));
    v
}

/// The indices `0..n`.
fn indices(n: usize) -> (v: Vec<usize>)
    ensures
        v@ == Seq::new(n as nat, |j: int| j as usize),
{
    let mut v: Vec<usize> = Vec::new();
    let mut i: usize = 0;
    while i < n
        invariant
            i <= n,
            v@ == Seq::new(i as nat, |j: int| j as usize),
        decreases n - i,
    {
        v.push(i);
        i = i + 1;
        assert(v@ =~= Seq::new(i as nat, |j: int| j as usize));
    }
    v
}

/// The items `order[start..end]`, reversed when asked.
fn slice_row(order: &Vec<usize>, start: usize, end: usize, reverse: bool) -> (r: Vec<usize>)
    requires
        start <= end <= order@.len(),
    ensures
        r@ == (if reverse {
            order@.subrange(start as int, end as int).reverse()
        } else {
            order@.subrange(start as int, end as int)
        }),
{
    let mut r: Vec<usize> = Vec::new();
    if reverse {
        let mut k: usize = end;
        while k > start
            invariant
                start <= k <= end,
                end <= order@.len(),
                r@ == order@.subrange(k as int, end as int).reverse(),
            decreases k - start,
        {
            k = k - 1;
            r.push(order[k]);
            assert(r@ =~= order@.subrange(k as int, end as int).reverse());
        }
    } else {
        let mut k: usize = start;
        while k < end
            invariant
                start <= k <= end,
                end <= order@.len(),
                r@ == order@.subrange(start as int, k as int),
            decreases end - k,
        {
            r.push(order[k]);
            k = k + 1;
            assert(r@ =~= order@.subrange(start as int, k as int));
        }
    }
    r
}

/// The rows of item indices for `n` items in `cc` columns.
pub fn plan_rows(n: usize, cc: usize, column_first: bool, right_to_left: bool) -> (rows: Vec<Vec<usize>>)
    requires
        cc >= 1,
    ensures
        rows@.len() == rows_spec(n as nat, cc as nat, column_first, right_to_left).len(),
        forall|i: int|
            0 <= i < rows@.len() ==> #[trigger] rows@[i]@ == rows_spec(
                n as nat,
                cc as nat,
                column_first,
                right_to_left,
            )[i],
{
    if column_first {
        proof {
            if cc >= 2 {
                assert(n / cc <= n / 2) by (nonlinear_arith)
                    requires
                        cc >= 2,
                ;
            }
        }
        let rc = if n % cc == 0 {
            n / cc
        } else {
            n / cc + 1
        };
        let mut rows: Vec<Vec<usize>> = Vec::new();
        let mut r: usize = 0;
        while r < rc
            invariant
                r <= rc,
                rc == row_count(n as nat, cc as nat),
                rows@.len() == r,
                forall|i: int|
                    0 <= i < r ==> #[trigger] rows@[i]@ == (if right_to_left {
                        row_from(n as nat, rc as nat, i as nat).reverse()
                    } else {
                        row_from(n as nat, rc as nat, i as nat)
                    }),
            decreases rc - r,
        {
            let row = row_down(n, rc, r);
            let row = slice_row(&row, 0, row.len(), right_to_left);
            assert(row_from(n as nat, rc as nat, r as nat).subrange(0, row_from(n as nat, rc as nat, r as nat).len() as int)
                =~= row_from(n as nat, rc as nat, r as nat));
            rows.push(row);
            r = r + 1;
        }
        return rows;
    }
    let order = indices(n);
    let ghost all = rows_of(order@, cc as nat);
    let mut rows: Vec<Vec<usize>> = Vec::new();
    let mut start: usize = 0;
    assert(order@.skip(0) =~= order@);
    while start < order.len()
        invariant
            start <= order@.len(),
            cc >= 1,
            all == rows_of(order@, cc as nat),
            rows@.len() + rows_of(order@.skip(start as int), cc as nat).len() == all.len(),
            forall|i: int|
                0 <= i < rows@.len() ==> #[trigger] rows@[i]@ == (if right_to_left {
                    all[i].reverse()
                } else {
                    all[i]
                }),
            forall|i: int|
                0 <= i < rows_of(order@.skip(start as int), cc as nat).len() ==> #[trigger] all[rows@.len()
                    + i] == rows_of(order@.skip(start as int), cc as nat)[i],
        decreases order@.len() - start,
    {
        let ghost rest = order@.skip(start as int);
        let end = if cc <= order.len() - start {
            start + cc
        } else {
            order.len()
        };
        let row = slice_row(&order, start, end, right_to_left);
        let ghost k = rows@.len();
        proof {
            assert(rest.len() > 0);
            assert(all[k as int + 0] == rows_of(rest, cc as nat)[0]);
            if rest.len() <= cc {
                assert(rest =~= order@.subrange(start as int, end as int));
                assert(order@.skip(end as int) =~= Seq::<usize>::empty());
                assert(rows_of(order@.skip(end as int), cc as nat) =~= Seq::<Seq<usize>>::empty());
            } else {
                assert(rest.take(cc as int) =~= order@.subrange(start as int, end as int));
                assert(rest.skip(cc as int) =~= order@.skip(end as int));
                let tail = rows_of(order@.skip(end as int), cc as nat);
                assert(rows_of(rest, cc as nat) == seq![rest.take(cc as int)] + tail);
                assert forall|i: int| 0 <= i < tail.len() implies #[trigger] all[k + 1 + i] == tail[i] by {
                    assert(all[k + (i + 1)] == rows_of(rest, cc as nat)[i + 1]);
                }
            }
            assert(all[k as int] == order@.subrange(start as int, end as int));
        }
        rows.push(row);
        start = end;
    }
    proof {
        assert(order@.skip(start as int) =~= Seq::<usize>::empty());
        let spec = rows_spec(n as nat, cc as nat, column_first, right_to_left);
        assert forall|i: int| 0 <= i < rows@.len() implies #[trigger] rows@[i]@ == spec[i] by {}
    }
    rows
}

/// The display width of `segs`, or `usize::MAX` when it is larger.
fn line_width(segs: &Vec<Segment>) -> (w: usize)
    ensures
        w == (if segs_width(segs@) <= usize::MAX {
            segs_width(segs@)
        } else {
            usize::MAX as nat
        }),
{
    let mut w: usize = 0;
    let mut i: usize = 0;
    while i < segs.len()
        invariant
            i <= segs.len(),
            w == (if segs_width(segs@.take(i as int)) <= usize::MAX {
                segs_width(segs@.take(i as int))
            } else {
                usize::MAX as nat
            }),
        decreases segs.len() - i,
    {
        assert(segs@.take(i + 1).drop_last() =~= segs@.take(i as int));
        let c = segs[i].cell_length();
        w = sat_add(w, c);
        i = i + 1;
    }
    assert(segs@.take(segs.len() as int) =~= segs@);
    w
}

/// A segment of `n` spaces.
fn blank(n: usize) -> (s: Segment)
    ensures
        seg_view(s) == (spaces(n as nat), None::<Style>),
{
    let mut t = String::new();
    push_spaces(&mut t, n);
    Segment { text: t, style: None }
}

/// Appends every segment of every line of `lines` to `out`.
fn push_all_lines(out: &mut Vec<Segment>, lines: &Vec<Vec<Segment>>)
    ensures
        seg_views(final(out)@) == seg_views(old(out)@) + seg_views(flatten_lines(lines@)),
{
    let mut k: usize = 0;
    while k < lines.len()
        invariant
            k <= lines.len(),
            seg_views(out@) == seg_views(old(out)@) + seg_views(flatten_lines(lines@.take(k as int))),
        decreases lines.len() - k,
    {
        assert(lines@.take(k + 1).drop_last() =~= lines@.take(k as int));
        let ghost o0 = out@;
        let mut j: usize = 0;
        while j < lines[k].len()
            invariant
                k < lines.len(),
                j <= lines@[k as int]@.len(),
                out@ == o0 + lines@[k as int]@.take(j as int),
            decreases lines@[k as int]@.len() - j,
        {
            out.push(lines[k][j].clone());
            j = j + 1;
            assert(out@ =~= o0 + lines@[k as int]@.take(j as int));
        }
        assert(lines@[k as int]@.take(j as int) =~= lines@[k as int]@);
        assert(seg_views(o0 + lines@[k as int]@) =~= seg_views(o0) + seg_views(lines@[k as int]@));
        assert(seg_views(flatten_lines(lines@.take(k as int)) + lines@[k as int]@) =~= seg_views(
            flatten_lines(lines@.take(k as int)),
        ) + seg_views(lines@[k as int]@));
        k = k + 1;
    }
    assert(lines@.take(lines.len() as int) =~= lines@);
}

/// Appends the segments one rendered item adds to its row.
fn push_cell(out: &mut Vec<Segment>, res: &RenderResult, col_width: usize, align: Option<AlignMethod>)
    ensures
        seg_views(final(out)@) == seg_views(old(out)@) + cell_segs(*res, col_width as nat, align),
{
    let ghost flat = seg_views(flatten_lines(res.lines@));
    let rw: usize = if res.lines.len() > 0 {
        line_width(&res.lines[0])
    } else {
        0
    };
    let narrower = rw < col_width;
    match align {
        Some(a) if narrower => {
            let pad = col_width - rw;
            match a {
                AlignMethod::Right => {
                    let ghost o0 = seg_views(out@);
                    out.push(blank(pad));
                    assert(seg_views(out@) =~= o0 + seq![(spaces(pad as nat), None::<Style>)]);
                    push_all_lines(out, &res.lines);
                },
                AlignMethod::Center => {
                    let ghost o0 = seg_views(out@);
                    out.push(blank(pad / 2));
                    assert(seg_views(out@) =~= o0 + seq![(spaces((pad / 2) as nat), None::<Style>)]);
                    push_all_lines(out, &res.lines);
                    let ghost o1 = seg_views(out@);
                    out.push(blank(pad - pad / 2));
                    assert(seg_views(out@) =~= o1 + seq![(spaces((pad - pad / 2) as nat), None::<Style>)]);
                },
                _ => {
                    push_all_lines(out, &res.lines);
                },
            }
        },
        _ => {
            push_all_lines(out, &res.lines);
        },
    }
}

/// The segments of a row of rendered items, with gaps between them, as
/// `row_segs` gives them.
pub fn assemble_row(results: &Vec<RenderResult>, col_width: usize, pad: usize, align: Option<AlignMethod>) -> (r: Vec<Segment>)
    ensures
        seg_views(r@) == row_segs(results@, col_width as nat, pad as nat, align, results@.len()),
{
    let gap = sat_mul(pad, 2);
    let mut out: Vec<Segment> = Vec::new();
    let mut i: usize = 0;
    assert(seg_views(out@) =~= Seq::<(Seq<char>, Option<Style>)>::empty());
    while i < results.len()
        invariant
            i <= results.len(),
            gap == gap_spec(pad as nat),
            seg_views(out@) == row_segs(results@, col_width as nat, pad as nat, align, i as nat),
        decreases results.len() - i,
    {
        if i > 0 {
            let ghost o0 = seg_views(out@);
            out.push(blank(gap));
            assert(seg_views(out@) =~= o0 + seq![(spaces(gap as nat), None::<Style>)]);
        }
        push_cell(&mut out, &results[i], col_width, align);
        i = i + 1;
    }
    out
}

/// Every item of a row filled down the columns is below `n`.
proof fn lemma_row_from_bound(n: nat, rc: nat, idx: nat)
    ensures
        forall|k: int| 0 <= k < row_from(n, rc, idx).len() ==> (#[trigger] row_from(n, rc, idx)[k]) < n,
    decreases (if idx < n { n - idx } else { 0 }),
{
    if idx < n && rc > 0 {
        lemma_row_from_bound(n, rc, idx + rc);
        assert forall|k: int| 0 <= k < row_from(n, rc, idx).len() implies (#[trigger] row_from(n, rc, idx)[k]) < n by {
            if k > 0 {
                assert(row_from(n, rc, idx)[k] == row_from(n, rc, idx + rc)[k - 1]);
            }
        }
    }
}

/// Every row cut from `order` holds only items of `order`'s bound.
proof fn lemma_rows_of_bound(order: Seq<usize>, cc: nat, n: nat)
    requires
        forall|k: int| 0 <= k < order.len() ==> (#[trigger] order[k]) < n,
    ensures
        forall|i: int, j: int|
            0 <= i < rows_of(order, cc).len() && 0 <= j < rows_of(order, cc)[i].len() ==> (
            #[trigger] rows_of(order, cc)[i][j]) < n,
    decreases order.len(),
{
    if order.len() > 0 && cc > 0 && order.len() > cc {
        let rest = order.skip(cc as int);
        assert forall|k: int| 0 <= k < rest.len() implies (#[trigger] rest[k]) < n by {
            assert(rest[k] == order[k + cc]);
        }
        lemma_rows_of_bound(rest, cc, n);
        assert forall|i: int, j: int|
            0 <= i < rows_of(order, cc).len() && 0 <= j < rows_of(order, cc)[i].len() implies (
            #[trigger] rows_of(order, cc)[i][j]) < n by {
            if i > 0 {
                assert(rows_of(order, cc)[i] == rows_of(rest, cc)[i - 1]);
            } else {
                assert(rows_of(order, cc)[0] == order.take(cc as int));
                assert(order.take(cc as int)[j] == order[j]);
            }
        }
    }
}

/// Every item index in the rows is below the number of items.
pub proof fn lemma_rows_in_range(n: nat, cc: nat, column_first: bool, right_to_left: bool)
    requires
        cc >= 1,
    ensures
        forall|i: int, j: int|
            0 <= i < rows_spec(n, cc, column_first, right_to_left).len() && 0 <= j < rows_spec(
                n,
                cc,
                column_first,
                right_to_left,
            )[i].len() ==> (#[trigger] rows_spec(n, cc, column_first, right_to_left)[i][j]) < n,
{
    let rows = grid_rows(n, cc, column_first);
    if column_first {
        let rc = row_count(n, cc);
        assert forall|i: int, j: int| 0 <= i < rows.len() && 0 <= j < rows[i].len() implies (#[trigger] rows[i][j]) < n by {
            lemma_row_from_bound(n, rc, i as nat);
        }
    } else {
        let order = Seq::new(n, |i: int| i as usize);
        assert forall|k: int| 0 <= k < order.len() implies (#[trigger] order[k]) < n by {}
        lemma_rows_of_bound(order, cc, n);
    }
    assert forall|i: int, j: int|
        0 <= i < rows_spec(n, cc, column_first, right_to_left).len() && 0 <= j < rows_spec(
            n,
            cc,
            column_first,
            right_to_left,
        )[i].len() implies (#[trigger] rows_spec(n, cc, column_first, right_to_left)[i][j]) < n by {
        let row = rows[i];
        if right_to_left {
            assert(row.reverse()[j] == row[row.len() - 1 - j]);
        }
        assert(rows[i][j] < n);
    }
}

impl Columns {
    /// No renderables, one space of padding left and right, items across
    /// the rows.
    pub fn new() -> (c: Self)
        ensures
            c.renderables@.len() == 0,
            !c.equal,
            !c.expand,
            c.padding == (0usize, 1usize, 0usize, 1usize),
            c.width is None,
            !c.column_first,
            !c.right_to_left,
            c.align is None,
            c.title is None,
            c.title_style is None,
    {
        Columns {
            renderables: Vec::new(),
            equal: false,
            expand: false,
            padding: (0, 1, 0, 1),
            width: None,
            column_first: false,
            right_to_left: false,
            align: None,
            title: None,
            title_style: None,
        }
    }

    /// Adds a renderable after the others.
    pub fn add<R: Renderable + 'static>(&mut self, renderable: R)
        ensures
            final(self).renderables@.len() == old(self).renderables@.len() + 1,
            forall|i: int|
                0 <= i < old(self).renderables@.len() ==> final(self).renderables@[i] == old(
                    self,
                ).renderables@[i],
            final(self).renderables@.last().holds(renderable),
            final(self).padding == old(self).padding,
            final(self).equal == old(self).equal,
            final(self).width == old(self).width,
    {
        self.renderables.push(DynRenderable::new(renderable));
    }

    /// The columns with a renderable added after the others.
    pub fn with_renderable<R: Renderable + 'static>(self, renderable: R) -> (c: Self)
        ensures
            c.renderables@.len() == self.renderables@.len() + 1,
            c.padding == self.padding,
    {
        let mut c = self;
        c.add(renderable);
        c
    }

    /// The columns with `pad` spaces of padding left and right.
    pub fn padding(self, pad: usize) -> (c: Self)
        ensures
            c.padding == (0usize, pad, 0usize, pad),
            c.renderables == self.renderables,
    {
        let mut c = self;
        c.padding = (0, pad, 0, pad);
        c
    }

    /// The columns with `h` spaces left and right and `v` lines above and
    /// below.
    pub fn padding_hv(self, h: usize, v: usize) -> (c: Self)
        ensures
            c.padding == (v, h, v, h),
            c.renderables == self.renderables,
    {
        let mut c = self;
        c.padding = (v, h, v, h);
        c
    }

    /// The columns with the given padding on each side.
    pub fn padding_full(self, top: usize, right: usize, bottom: usize, left: usize) -> (c: Self)
        ensures
            c.padding == (top, right, bottom, left),
            c.renderables == self.renderables,
    {
        let mut c = self;
        c.padding = (top, right, bottom, left);
        c
    }

    /// The columns with every column as wide as the widest item.
    pub fn equal(self) -> (c: Self)
        ensures
            c.equal,
            c.renderables == self.renderables,
            c.padding == self.padding,
    {
        let mut c = self;
        c.equal = true;
        c
    }

    /// The columns filling the available width.
    pub fn expand(self) -> (c: Self)
        ensures
            c.expand,
            c.renderables == self.renderables,
            c.padding == self.padding,
    {
        let mut c = self;
        c.expand = true;
        c
    }

    /// The columns with a fixed column width.
    pub fn width(self, width: usize) -> (c: Self)
        ensures
            c.width == Some(width),
            c.renderables == self.renderables,
            c.padding == self.padding,
    {
        let mut c = self;
        c.width = Some(width);
        c
    }

    /// The columns with items filling each column top to bottom before the
    /// next (when `value`), or each row left to right.
    pub fn column_first(self, value: bool) -> (c: Self)
        ensures
            c == (Columns { column_first: value, ..self }),
    {
        let mut c = self;
        c.column_first = value;
        c
    }

    /// The columns with rows running right to left, or not.
    pub fn right_to_left(self, value: bool) -> (c: Self)
        ensures
            c == (Columns { right_to_left: value, ..self }),
    {
        let mut c = self;
        c.right_to_left = value;
        c
    }

    /// The columns with items aligned as `align` says.
    pub fn align(self, align: AlignMethod) -> (c: Self)
        ensures
            c.align == Some(align),
            c.renderables == self.renderables,
            c.padding == self.padding,
    {
        let mut c = self;
        c.align = Some(align);
        c
    }

    /// The columns with a title above them.
    pub fn title(self, title: &str) -> (c: Self)
        ensures
            c.title matches Some(t) && t@ == title@,
            c.renderables == self.renderables,
            c.padding == self.padding,
    {
        let mut c = self;
        c.title = Some(owned(title));
        c
    }

    /// The columns with the title in `style`.
    pub fn title_style(self, style: Style) -> (c: Self)
        ensures
            c.title_style == Some(style),
            c.renderables == self.renderables,
            c.padding == self.padding,
    {
        let mut c = self;
        c.title_style = Some(style);
        c
    }

    /// The gap padding: the larger of the left and right padding.
    pub open spec fn pad_spec(self) -> nat {
        if self.padding.3 > self.padding.1 {
            self.padding.3 as nat
        } else {
            self.padding.1 as nat
        }
    }

    fn gap_pad(&self) -> (p: usize)
        ensures
            p == self.pad_spec(),
    {
        if self.padding.3 > self.padding.1 {
            self.padding.3
        } else {
            self.padding.1
        }
    }

    /// The width each item asks for: its measured maximum, or else the
    /// widest segment it renders.
    fn item_widths(&self, options: &ConsoleOptions) -> (ws: Vec<usize>)
        ensures
            ws@.len() == self.renderables@.len(),
            forall|i: int| 0 <= i < ws@.len() ==> item_width_ok(self.renderables@[i], *options, #[trigger] ws@[i]),
    {
        let mut ws: Vec<usize> = Vec::new();
        let mut i: usize = 0;
        while i < self.renderables.len()
            invariant
                i <= self.renderables.len(),
                ws@.len() == i,
                forall|k: int| 0 <= k < i ==> item_width_ok(self.renderables@[k], *options, #[trigger] ws@[k]),
            decreases self.renderables.len() - i,
        {
            let w = match self.renderables[i].measure(options) {
                Some(m) => m.maximum,
                None => {
                    let res = self.renderables[i].render(options);
                    let mut best: usize = 0;
                    let mut k: usize = 0;
                    while k < res.lines.len()
                        invariant
                            k <= res.lines.len(),
                            best == lines_widest(res.lines@, k as nat),
                        decreases res.lines.len() - k,
                    {
                        let ghost before = best;
                        let mut j: usize = 0;
                        while j < res.lines[k].len()
                            invariant
                                k < res.lines.len(),
                                j <= res.lines@[k as int]@.len(),
                                best == (if line_widest(res.lines@[k as int]@, j as nat) > before {
                                    line_widest(res.lines@[k as int]@, j as nat)
                                } else {
                                    before
                                }),
                            decreases res.lines@[k as int]@.len() - j,
                        {
                            let c = res.lines[k][j].cell_length();
                            if c > best {
                                best = c;
                            }
                            j = j + 1;
                        }
                        k = k + 1;
                    }
                    assert(item_width_ok(self.renderables@[i as int], *options, best));
                    best
                },
            };
            ws.push(w);
            i = i + 1;
        }
        ws
    }

    /// The number of columns within `max_width`, for the widths the items
    /// measure at.
    pub fn compute_column_count(&self, max_width: usize) -> (c: usize)
        ensures
            exists|o: ConsoleOptions, ws: Seq<usize>|
                is_default_options(o) && #[trigger] widths_asked(*self, o, ws) && c == column_count_spec(
                    ws,
                    max_width as nat,
                    self.pad_spec(),
                ),
    {
        let opts = ConsoleOptions::default();
        let ws = self.item_widths(&opts);
        let c = column_count_for(&ws, max_width, self.gap_pad());
        assert(widths_asked(*self, opts, ws@));
        c
    }

    /// The number of columns of the fixed width `w` within `max_width`.
    fn fixed_count(max_width: usize, w: usize, pad: usize) -> (c: usize)
        ensures
            c == fixed_count_spec(max_width as nat, w as nat, pad as nat),
            c >= 1,
    {
        let wp = sat_add(w, pad);
        if wp > 0 && max_width / wp > 1 {
            max_width / wp
        } else {
            1
        }
    }

    /// The column width for `cc` columns within `max_width`, where the
    /// widest item measures `widest`.
    pub fn column_width(&self, max_width: usize, cc: usize, widest: usize) -> (w: usize)
        requires
            cc >= 1,
        ensures
            w == col_width_spec(self.width, self.equal, max_width as nat, self.pad_spec(), cc as nat, widest as nat),
    {
        match self.width {
            Some(w) => w,
            None => {
                let avail = avail_per_col(max_width, self.gap_pad(), cc);
                if self.equal && widest < avail {
                    widest
                } else {
                    avail
                }
            },
        }
    }
}

/// The views of the segments of each line.
pub open spec fn seg_lines(ls: Seq<Vec<Segment>>) -> Seq<Seq<(Seq<char>, Option<Style>)>> {
    ls.map_values(|l: Vec<Segment>| seg_views(l@))
}

/// `a + b`, or the largest `usize` when that is larger.
pub open spec fn sat_add_spec(a: nat, b: nat) -> nat {
    if a + b <= usize::MAX { a + b } else { usize::MAX as nat }
}

/// The drawn lines of a prefix of rows do not depend on the rows after it.
proof fn lemma_rows_lines_prefix(
    rows: Seq<Seq<RenderResult>>,
    x: Seq<RenderResult>,
    cw: nat,
    pad: nat,
    align: Option<AlignMethod>,
    k: nat,
)
    requires
        k <= rows.len(),
    ensures
        rows_lines(rows.push(x), cw, pad, align, k) == rows_lines(rows, cw, pad, align, k),
    decreases k,
{
    if k > 0 {
        lemma_rows_lines_prefix(rows, x, cw, pad, align, (k - 1) as nat);
        assert(rows.push(x)[k - 1] == rows[k - 1]);
    }
}

/// The drawn lines of rows of rendered items: for each of the first `k`
/// rows whose assembled segments are not empty, those segments and a
/// newline.
pub open spec fn rows_lines(
    rows: Seq<Seq<RenderResult>>,
    cw: nat,
    pad: nat,
    align: Option<AlignMethod>,
    k: nat,
) -> Seq<Seq<(Seq<char>, Option<Style>)>>
    decreases k,
{
    if k == 0 || k > rows.len() {
        seq![]
    } else {
        let prev = rows_lines(rows, cw, pad, align, (k - 1) as nat);
        let segs = row_segs(rows[k - 1], cw, pad, align, rows[k - 1].len());
        if segs.len() > 0 {
            prev.push(segs.push((seq!['\n'], None)))
        } else {
            prev
        }
    }
}

/// Whether `cc` is the number of columns of `c` at `max_width`: from the
/// fixed width when there is one, else as many as the items' widths allow
/// (at least one).
pub open spec fn column_count_ok(c: Columns, max_width: nat, cc: nat) -> bool {
    match c.width {
        Some(w) => cc == fixed_count_spec(max_width, w as nat, c.pad_spec()),
        None => exists|o: ConsoleOptions, ws: Seq<usize>|
            is_default_options(o) && #[trigger] widths_asked(c, o, ws) && cc == (if column_count_spec(ws, max_width, c.pad_spec()) == 0 {
                1
            } else {
                column_count_spec(ws, max_width, c.pad_spec())
            }),
    }
}

/// `options` at column width `cw` (at least one).
pub open spec fn column_options(options: ConsoleOptions, cw: nat) -> ConsoleOptions {
    ConsoleOptions {
        max_width: (if cw > 0 {
            cw
        } else {
            1
        }) as usize,
        ..options
    }
}

/// Whether `rows` are the results of the items of `c` placed as `plan`
/// says, each rendered with `opts`.
pub open spec fn rows_rendered(c: Columns, rows: Seq<Seq<RenderResult>>, plan: Seq<Seq<usize>>, opts: ConsoleOptions) -> bool {
    &&& rows.len() == plan.len()
    &&& forall|i: int| 0 <= i < rows.len() ==> (#[trigger] rows[i]).len() == plan[i].len()
    &&& forall|i: int, j: int|
        0 <= i < rows.len() && 0 <= j < rows[i].len() ==> c.renderables@[plan[i][j] as int].renders(
            opts,
            #[trigger] rows[i][j],
        )
}

/// The largest maximum among the first `k` measurements given.
pub open spec fn max_measured(ms: Seq<Option<Measurement>>, k: nat) -> usize
    decreases k,
{
    if k == 0 || k > ms.len() {
        0
    } else {
        let p = max_measured(ms, (k - 1) as nat);
        match ms[k - 1] {
            Some(m) => if m.maximum > p {
                m.maximum
            } else {
                p
            },
            None => p,
        }
    }
}

/// The measurements the items of `c` give of themselves with `options`.
pub open spec fn own_measures(c: Columns, options: ConsoleOptions) -> Seq<Option<Measurement>> {
    Seq::new(c.renderables@.len(), |i: int| c.renderables@[i].own_measure(options))
}

/// The largest maximum among the measurements the items of `c` give of
/// themselves with `options` (zero when none does).
pub open spec fn widest_measured(c: Columns, options: ConsoleOptions) -> usize {
    max_measured(own_measures(c, options), c.renderables@.len())
}

impl Columns {
    /// The largest maximum among the items' own measurements.
    fn widest_own(&self, options: &ConsoleOptions) -> (w: usize)
        ensures
            w == widest_measured(*self, *options),
    {
        let mut widest_item: usize = 0;
        let ghost mut ms: Seq<Option<Measurement>> = seq![];
        let mut i: usize = 0;
        while i < self.renderables.len()
            invariant
                i <= self.renderables.len(),
                ms.len() == i,
                ms == own_measures(*self, *options).take(i as int),
                widest_item == max_measured(ms, ms.len()),
            decreases self.renderables.len() - i,
        {
            let om = self.renderables[i].measure(options);
            proof {
                let m0 = ms;
                ms = ms.push(om);
                assert(ms =~= own_measures(*self, *options).take(i + 1));
                assert forall|k: int| 0 <= k < m0.len() implies ms[k] == m0[k] by {}
                assert(max_measured(ms, (ms.len() - 1) as nat) == max_measured(m0, m0.len())) by {
                    lemma_max_measured_prefix(m0, om, m0.len());
                }
            }
            match om {
                Some(m) => {
                    if m.maximum > widest_item {
                        widest_item = m.maximum;
                    }
                },
                None => {},
            }
            i = i + 1;
        }
        assert(ms =~= own_measures(*self, *options));
        widest_item
    }
}

proof fn lemma_max_measured_prefix(ms: Seq<Option<Measurement>>, x: Option<Measurement>, k: nat)
    requires
        k <= ms.len(),
    ensures
        max_measured(ms.push(x), k) == max_measured(ms, k),
    decreases k,
{
    if k > 0 {
        lemma_max_measured_prefix(ms, x, (k - 1) as nat);
        assert(ms.push(x)[k - 1] == ms[k - 1]);
    }
}

/// The widest of the first `k` segments of `l`, in cells.
pub open spec fn line_widest(l: Seq<Segment>, k: nat) -> usize
    decreases k,
{
    if k == 0 || k > l.len() {
        0
    } else {
        let p = line_widest(l, (k - 1) as nat);
        let w = unicode_str_width(l[k - 1].text@);
        if w > p {
            w
        } else {
            p
        }
    }
}

/// The widest segment of the first `k` lines of `ls`, in cells.
pub open spec fn lines_widest(ls: Seq<Vec<Segment>>, k: nat) -> usize
    decreases k,
{
    if k == 0 || k > ls.len() {
        0
    } else {
        let p = lines_widest(ls, (k - 1) as nat);
        let w = line_widest(ls[k - 1]@, ls[k - 1]@.len());
        if w > p {
            w
        } else {
            p
        }
    }
}

/// Whether `ws` are the widths the items of `c` ask for with `options`.
pub open spec fn widths_asked(c: Columns, options: ConsoleOptions, ws: Seq<usize>) -> bool {
    &&& ws.len() == c.renderables@.len()
    &&& forall|i: int| 0 <= i < ws.len() ==> item_width_ok(c.renderables@[i], options, #[trigger] ws[i])
}

/// Whether `w` is the width item `r` asks for with `options`: the maximum
/// of the measurement it gives of itself when it gives one, else the
/// widest segment of what it renders.
pub open spec fn item_width_ok(r: DynRenderable, options: ConsoleOptions, w: usize) -> bool {
    match r.own_measure(options) {
        Some(m) => w == m.maximum,
        None => exists|res: RenderResult| r.renders(options, res) && w == lines_widest(res.lines@, res.lines@.len()),
    }
}

impl Renderable for Columns {
    /// The title and a newline as items, and the items laid out in rows:
    /// each row's items rendered at the column width and assembled side by
    /// side, a row with nothing to show left out.
    open spec fn renders(&self, options: ConsoleOptions, r: RenderResult) -> bool {
        &&& self.renderables@.len() == 0 ==> r.lines@.len() == 0 && r.items@.len() == 0
        &&& self.renderables@.len() > 0 ==> {
                &&& self.title is None ==> r.items@.len() == 0
                &&& self.title matches Some(t) ==> r.items@.len() == 2 && (r.items@[0] matches RenderItem::Segment(s)
                    && s.text@ == t@ && s.style == self.title_style) && (r.items@[1] matches RenderItem::Segment(l)
                    && l.text@ == seq!['\n'] && l.style is None)
                &&& exists|cc: nat, widest: nat, rows: Seq<Seq<RenderResult>>|
                    cc >= 1 && column_count_ok(*self, options.max_width as nat, cc) && (self.width is None
                        && self.equal ==> widest == widest_measured(*self, options)) && #[trigger] rows_rendered(
                        *self,
                        rows,
                        rows_spec(self.renderables@.len() as nat, cc, self.column_first, self.right_to_left),
                        column_options(
                            options,
                            col_width_spec(self.width, self.equal, options.max_width as nat, self.pad_spec(), cc, widest),
                        ),
                    ) && seg_lines(r.lines@) == rows_lines(
                        rows,
                        col_width_spec(self.width, self.equal, options.max_width as nat, self.pad_spec(), cc, widest),
                        self.pad_spec(),
                        self.align,
                        rows.len(),
                    )
            }
    }

    #[verifier::rlimit(60)]
    fn render(&self, options: &ConsoleOptions) -> (r: RenderResult) {
        let n = self.renderables.len();
        if n == 0 {
            return RenderResult::new();
        }
        let pad = self.gap_pad();
        let max_width = options.max_width;
        let mut items: Vec<RenderItem> = Vec::new();
        match &self.title {
            Some(t) => {
                let seg = match &self.title_style {
                    Some(st) => Segment::styled(t.as_str(), st.clone()),
                    None => Segment::new(t.as_str()),
                };
                items.push(RenderItem::Segment(seg));
                items.push(RenderItem::Segment(Segment::line()));
            },
            None => {},
        }
        let cc = match self.width {
            Some(w) => Columns::fixed_count(max_width, w, pad),
            None => {
                let c = self.compute_column_count(max_width);
                if c == 0 {
                    1
                } else {
                    c
                }
            },
        };
        let widest_item: usize = if self.width.is_none() && self.equal {
            self.widest_own(options)
        } else {
            0
        };
        let col_width = self.column_width(max_width, cc, widest_item);
        let rows = plan_rows(n, cc, self.column_first, self.right_to_left);
        let ghost plan = rows_spec(n as nat, cc as nat, self.column_first, self.right_to_left);
        proof {
            lemma_rows_in_range(n as nat, cc as nat, self.column_first, self.right_to_left);
        }
        let render_opts = options.update_width(if col_width > 0 {
            col_width
        } else {
            1
        });
        assert(render_opts == column_options(*options, col_width as nat));
        let mut lines: Vec<Vec<Segment>> = Vec::new();
        let ghost mut done: Seq<Seq<RenderResult>> = seq![];
        let mut r: usize = 0;
        while r < rows.len()
            invariant
                r <= rows.len(),
                n == self.renderables@.len(),
                forall|i: int, j: int|
                    0 <= i < rows@.len() && 0 <= j < rows@[i]@.len() ==> #[trigger] rows@[i]@[j] < n,
                done.len() == r,
                rows@.len() == plan.len(),
                forall|i: int| 0 <= i < rows@.len() ==> #[trigger] rows@[i]@ == plan[i],
                rows_rendered(*self, done, plan.take(r as int), render_opts),
                seg_lines(lines@) == rows_lines(done, col_width as nat, pad as nat, self.align, r as nat),
            decreases rows.len() - r,
        {
            let mut results: Vec<RenderResult> = Vec::new();
            let mut j: usize = 0;
            while j < rows[r].len()
                invariant
                    r < rows.len(),
                    j <= rows@[r as int]@.len(),
                    n == self.renderables@.len(),
                    forall|i: int, k: int|
                        0 <= i < rows@.len() && 0 <= k < rows@[i]@.len() ==> #[trigger] rows@[i]@[k] < n,
                    results@.len() == j,
                    forall|k: int|
                        0 <= k < j ==> self.renderables@[rows@[r as int]@[k] as int].renders(
                            render_opts,
                            #[trigger] results@[k],
                        ),
                decreases rows@[r as int]@.len() - j,
            {
                let idx = rows[r][j];
                results.push(self.renderables[idx].render(&render_opts));
                j = j + 1;
            }
            let mut row = assemble_row(&results, col_width, pad, self.align);
            proof {
                lemma_rows_lines_prefix(done, results@, col_width as nat, pad as nat, self.align, r as nat);
                let d0 = done;
                done = done.push(results@);
                assert(plan.take(r + 1) =~= plan.take(r as int).push(plan[r as int]));
                assert forall|i: int, j: int|
                    0 <= i < done.len() && 0 <= j < done[i].len() implies self.renderables@[plan.take(r + 1)[i][j] as int].renders(
                    render_opts,
                    #[trigger] done[i][j],
                ) by {
                    if i < r {
                        assert(done[i] == d0[i]);
                        assert(plan.take(r + 1)[i] == plan.take(r as int)[i]);
                    }
                }
            }
            if row.len() > 0 {
                let ghost rv = row@;
                row.push(Segment::line());
                assert(seg_views(row@) =~= seg_views(rv).push((seq!['\n'], None)));
                let ghost lb = lines@;
                lines.push(row);
                assert(seg_lines(lines@) =~= seg_lines(lb).push(seg_views(row@)));
            }
            r = r + 1;
        }
        proof {
            let ws_cc = cc as nat;
            assert(column_count_ok(*self, options.max_width as nat, ws_cc));
            assert(plan.take(rows@.len() as int) =~= plan);
            assert(rows_rendered(*self, done, plan, column_options(*options, col_width as nat)));
        }
        RenderResult { lines, items }
    }

    /// Zero for no items; else the widest item's own measure (among those
    /// that measure themselves) plus the gaps on both sides, at least one.
    open spec fn own_measure(&self, options: ConsoleOptions) -> Option<Measurement> {
        if self.renderables@.len() == 0 {
            Some(Measurement { minimum: 0, maximum: 0 })
        } else {
            let total = sat_add_spec(widest_measured(*self, options) as nat, 2 * self.pad_spec());
            Some(Measurement { minimum: if total < 1 { 0 } else { 1 }, maximum: total as usize })
        }
    }

    fn measure(&self, options: &ConsoleOptions) -> (r: Option<Measurement>)
        ensures
            r is Some,
    {
        if self.renderables.len() == 0 {
            return Some(Measurement::new(0, 0));
        }
        let widest_item = self.widest_own(options);
        let total = sat_add(widest_item, sat_mul(self.gap_pad(), 2));
        assert(total as nat == sat_add_spec(widest_item as nat, 2 * self.pad_spec()));
        Some(Measurement::new(if total < 1 { total } else { 1 }, total))
    }
}

impl Default for Columns {
    fn default() -> (c: Self)
        ensures
            c.renderables@.len() == 0,
            c.padding == (0usize, 1usize, 0usize, 1usize),
            !c.equal,
            !c.column_first,
            !c.right_to_left,
    {
        Columns::new()
    }
}

} // verus!
