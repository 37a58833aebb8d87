//! Split-pane layouts: a tree of splits and named leaves, and the regions
//! of the screen each leaf gets.

use vstd::prelude::*;
use crate::console::{Console, ConsoleOptions, DynRenderable, RenderResult, Renderable};
use crate::segment::Segment;
use crate::strutil::{owned, push_str, str_eq, push_decimal, decimal_chars};

verus! {

/// A rectangle of the screen.
#[derive(Debug, Clone, Copy, PartialEq, Eq)]
pub struct Region {
    /// Column of the left edge.
    pub x: usize,
    /// Row of the top edge.
    pub y: usize,
    /// Width in columns.
    pub width: usize,
    /// Height in rows.
    pub height: usize,
}

/// The direction of a split.
#[derive(Debug, Clone, Copy, PartialEq, Eq)]
pub enum Direction {
    /// Children side by side, left to right.
    Horizontal,
    /// Children stacked, top to bottom.
    Vertical,
}

/// A node of a layout: a split into children, or a named leaf.
#[derive(Debug)]
pub enum LayoutNode {
    /// A split.
    Split {
        /// The direction children are laid out in.
        direction: Direction,
        /// The share of each child (children without one get 1).
        sizes: Vec<usize>,
        /// The children.
        children: Vec<LayoutNode>,
    },
    /// A leaf.
    Leaf {
        /// The leaf's name.
        name: String,
        /// A label for its renderable, if any.
        renderable: Option<String>,
        /// A fixed size, if any.
        size: Option<usize>,
    },
}

/// Whether `b` is a copy of the tree `a`: the same leaves, and splits with
/// the same direction and shares whose children are copies in turn.
pub open spec fn same_tree(a: LayoutNode, b: LayoutNode) -> bool
    decreases a, 1nat, 0nat,
{
    match a {
        LayoutNode::Leaf { .. } => b == a,
        LayoutNode::Split { direction, sizes, children } => b is Split && b->direction == direction && b->sizes@
            == sizes@ && b->children@.len() == children@.len() && same_children(a, b, children@.len()),
    }
}

/// Whether the first `k` children of split `b` are copies of those of `a`.
pub open spec fn same_children(a: LayoutNode, b: LayoutNode, k: nat) -> bool
    decreases a, 0nat, k,
{
    if k == 0 {
        true
    } else {
        match a {
            LayoutNode::Split { children, .. } => k <= children@.len() && same_children(a, b, (k - 1) as nat)
                && same_tree(children@[k - 1], b->children@[k - 1]),
            _ => false,
        }
    }
}

proof fn lemma_same_children(a: LayoutNode, b: LayoutNode, k: nat)
    requires
        a is Split,
        b is Split,
        k <= a->children@.len(),
        k <= b->children@.len(),
        forall|i: int| 0 <= i < k ==> same_tree(a->children@[i], #[trigger] b->children@[i]),
    ensures
        same_children(a, b, k),
    decreases k,
{
    if k > 0 {
        lemma_same_children(a, b, (k - 1) as nat);
    }
}

impl Clone for LayoutNode {
    /// A copy of the node and its subtree.
    fn clone(&self) -> (r: Self)
        ensures
            same_tree(*self, r),
        decreases self,
    {
        match self {
            LayoutNode::Split { direction, sizes, children } => {
                let mut cs: Vec<LayoutNode> = Vec::new();
                let mut i: usize = 0;
                while i < children.len()
                    invariant
                        i <= children.len(),
                        *self is Split,
                        *children == (*self)->children,
                        cs@.len() == i,
                        forall|k: int| 0 <= k < i ==> same_tree(children@[k], #[trigger] cs@[k]),
                    decreases children.len() - i,
                {
                    proof {
                        vstd::std_specs::vec::axiom_vec_index_decreases(*children, i as int);
                        assert(decreases_to!(*self => (*self)->children));
                        assert(decreases_to!(*self => children[i as int]));
                    }
                    cs.push(children[i].clone());
                    i = i + 1;
                }
                let sz = sizes.clone();
                assert(sz@ =~= sizes@);
                let r = LayoutNode::Split { direction: *direction, sizes: sz, children: cs };
                proof {
                    lemma_same_children(*self, r, children@.len());
                }
                r
            },
            LayoutNode::Leaf { name, renderable, size } => LayoutNode::Leaf {
                name: name.clone(),
                renderable: match renderable {
                    Some(r) => Some(r.clone()),
                    None => None,
                },
                size: *size,
            },
        }
    }
}

/// `n` ones.
pub open spec fn ones(n: nat) -> Seq<usize> {
    Seq::new(n, |i: int| 1usize)
}

impl LayoutNode {
    /// A split whose children all have share 1.
    pub fn split(direction: Direction, children: Vec<LayoutNode>) -> (n: Self)
        ensures
            n matches LayoutNode::Split { direction: d, sizes: s, children: c } && d == direction
                && s@ == ones(children@.len()) && c@ == children@,
    {
        let mut sizes: Vec<usize> = Vec::new();
        let mut i: usize = 0;
        while i < children.len()
            invariant
                i <= children.len(),
                sizes@ == ones(i as nat),
            decreases children.len() - i,
        {
            sizes.push(1);
            i = i + 1;
            assert(sizes@ =~= ones(i as nat));
        }
        LayoutNode::Split { direction, sizes, children }
    }

    /// This node with the children's shares set to `sizes` (a leaf is left
    /// as it is).
    pub fn sizes(self, sizes: Vec<usize>) -> (n: Self)
        ensures
            match self {
                LayoutNode::Split { direction, children, .. } => n == (LayoutNode::Split {
                    direction,
                    sizes,
                    children,
                }),
                LayoutNode::Leaf { .. } => n == self,
            },
    {
        match self {
            LayoutNode::Split { direction, children, .. } => LayoutNode::Split {
                direction,
                sizes,
                children,
            },
            LayoutNode::Leaf { name, renderable, size } => LayoutNode::Leaf { name, renderable, size },
        }
    }
}

/// The share of child `i`: its size, or 1 when it has none.
pub open spec fn ratio_at(sizes: Seq<usize>, i: int) -> nat {
    if 0 <= i < sizes.len() {
        sizes[i] as nat
    } else {
        1
    }
}

/// The sum of the first `k` sizes.
pub open spec fn sum_upto(sizes: Seq<usize>, k: nat) -> nat
    decreases k,
{
    if k == 0 || k > sizes.len() {
        0
    } else {
        sum_upto(sizes, (k - 1) as nat) + sizes[k - 1] as nat
    }
}

/// The sum of all sizes.
pub open spec fn total_of(sizes: Seq<usize>) -> nat {
    sum_upto(sizes, sizes.len())
}

/// The shares of `n` children: their sizes, or one each when the sizes add
/// up to nothing.
pub open spec fn shares(sizes: Seq<usize>, n: nat) -> Seq<usize> {
    if total_of(sizes) == 0 {
        ones(n)
    } else {
        sizes
    }
}

/// One share each adds up to the number of children.
proof fn lemma_total_ones(n: nat, k: nat)
    requires
        k <= n,
    ensures
        sum_upto(ones(n), k) == k,
    decreases k,
{
    if k > 0 {
        lemma_total_ones(n, (k - 1) as nat);
    }
}

/// The region a leaf gets: capped at its fixed size in both directions, or
/// at least 2 wide and 1 high.
pub open spec fn leaf_region(r: Region, size: Option<usize>) -> Region {
    match size {
        Some(s) => Region {
            width: if r.width < s { r.width } else { s },
            height: if r.height < s { r.height } else { s },
            ..r
        },
        None => Region {
            width: if r.width > 2 { r.width } else { 2 },
            height: if r.height > 1 { r.height } else { 1 },
            ..r
        },
    }
}

/// One child's width in a horizontal split: its share of the width left
/// after one column of gutter between neighbours.
pub open spec fn child_width(avail: nat, ratio: nat, total: nat) -> nat {
    (avail * ratio) / total
}

/// The space left for children in a horizontal split of `count` children:
/// the width less the gutters.
pub open spec fn avail_width(r: Region, count: nat) -> nat {
    if r.width as nat > (count - 1) as nat {
        (r.width - (count - 1)) as nat
    } else {
        0
    }
}

/// `(name, region)` for each leaf of `node` laid out in `r`, by ratio:
/// children of a horizontal split get the width less gutters in proportion
/// to their shares, one gutter column after each; children of a vertical
/// split get the height in proportion. Sizes that add up to nothing count
/// as one share each; a split with no children gives nothing.
pub open spec fn layout_spec(node: LayoutNode, r: Region) -> Seq<(Seq<char>, Region)>
    decreases node, 1nat, 0nat,
{
    match node {
        LayoutNode::Leaf { name, size, .. } => seq![(name@, leaf_region(r, size))],
        LayoutNode::Split { direction, sizes, children } => {
            if children@.len() == 0 || total_of(shares(sizes@, children@.len())) == 0 {
                seq![]
            } else {
                layout_children(node, r, 0, match direction {
                    Direction::Horizontal => r.x as nat,
                    Direction::Vertical => r.y as nat,
                })
            }
        },
    }
}

/// The layout of the children of split `node` from child `i` on, the next
/// child starting at `pos` (a column for horizontal splits, a row for
/// vertical ones).
pub open spec fn layout_children(node: LayoutNode, r: Region, i: nat, pos: nat) -> Seq<
    (Seq<char>, Region),
>
    decreases node, 0nat, (match node {
        LayoutNode::Split { children, .. } => children@.len(),
        _ => 0,
    }) - i,
{
    match node {
        LayoutNode::Split { direction, sizes, children } => {
            if i >= children@.len() || total_of(shares(sizes@, children@.len())) == 0 {
                seq![]
            } else {
                let total = total_of(shares(sizes@, children@.len()));
                let ratio = ratio_at(shares(sizes@, children@.len()), i as int);
                match direction {
                    Direction::Horizontal => {
                        let w = child_width(avail_width(r, children@.len()), ratio, total);
                        let cr = Region {
                            x: pos as usize,
                            y: r.y,
                            width: (if w > 1 { w } else { 1 }) as usize,
                            height: r.height,
                        };
                        layout_spec(children@[i as int], cr) + layout_children(node, r, i + 1, pos + w + 1)
                    },
                    Direction::Vertical => {
                        let h = (r.height as nat * ratio) / total;
                        let cr = Region {
                            x: r.x,
                            y: pos as usize,
                            width: r.width,
                            height: (if h > 1 { h } else { 1 }) as usize,
                        };
                        layout_spec(children@[i as int], cr) + layout_children(node, r, i + 1, pos + h)
                    },
                }
            }
        },
        _ => seq![],
    }
}

/// Whether laying out `node` in `r` stays within machine integers: the
/// sum of shares, the products of space and share, and the positions of
/// all children fit in `usize`.
pub open spec fn layout_fits(node: LayoutNode, r: Region) -> bool
    decreases node, 1nat, 0nat,
{
    match node {
        LayoutNode::Leaf { .. } => true,
        LayoutNode::Split { direction, sizes, children } => {
            &&& total_of(shares(sizes@, children@.len())) <= usize::MAX
            &&& (children@.len() == 0 || total_of(shares(sizes@, children@.len())) == 0 || children_fit(node, r, 0, match direction {
                Direction::Horizontal => r.x as nat,
                Direction::Vertical => r.y as nat,
            }))
        },
    }
}

/// Whether laying out the children of `node` from child `i` on, starting
/// at `pos`, stays within machine integers.
pub open spec fn children_fit(node: LayoutNode, r: Region, i: nat, pos: nat) -> bool
    decreases node, 0nat, (match node {
        LayoutNode::Split { children, .. } => children@.len(),
        _ => 0,
    }) - i,
{
    match node {
        LayoutNode::Split { direction, sizes, children } => {
            if i >= children@.len() || total_of(shares(sizes@, children@.len())) == 0 {
                true
            } else {
                let total = total_of(shares(sizes@, children@.len()));
                let ratio = ratio_at(shares(sizes@, children@.len()), i as int);
                match direction {
                    Direction::Horizontal => {
                        let avail = avail_width(r, children@.len());
                        let w = child_width(avail, ratio, total);
                        let cr = Region {
                            x: pos as usize,
                            y: r.y,
                            width: (if w > 1 { w } else { 1 }) as usize,
                            height: r.height,
                        };
                        &&& avail * ratio <= usize::MAX
                        &&& pos + w + 1 <= usize::MAX
                        &&& layout_fits(children@[i as int], cr)
                        &&& children_fit(node, r, i + 1, pos + w + 1)
                    },
                    Direction::Vertical => {
                        let h = (r.height as nat * ratio) / total;
                        let cr = Region {
                            x: r.x,
                            y: pos as usize,
                            width: r.width,
                            height: (if h > 1 { h } else { 1 }) as usize,
                        };
                        &&& r.height as nat * ratio <= usize::MAX
                        &&& pos + h <= usize::MAX
                        &&& layout_fits(children@[i as int], cr)
                        &&& children_fit(node, r, i + 1, pos + h)
                    },
                }
            }
        },
        _ => true,
    }
}

} // verus!

verus! {

/// A way of dividing a region among the children of a split.
pub trait Splitter {
    /// One region per child.
    fn split(&self, region: &Region, children: &[LayoutNode], direction: &Direction) -> Vec<Region>;
}

/// `a + b`, or `usize::MAX` when that does not fit.
pub fn sat_add(a: usize, b: usize) -> (r: usize)
    ensures
        a + b <= usize::MAX ==> r == a + b,
        a + b > usize::MAX ==> r == usize::MAX,
{
    if a <= usize::MAX - b {
        a + b
    } else {
        usize::MAX
    }
}

/// `a * b`, or `usize::MAX` when that does not fit.
pub fn sat_mul(a: usize, b: usize) -> (r: usize)
    ensures
        a * b <= usize::MAX ==> r == a * b,
        a * b > usize::MAX ==> r == usize::MAX,
{
    match a.checked_mul(b) {
        Some(p) => p,
        None => usize::MAX,
    }
}

/// Regions of equal size along a row (`columns`) or a column of the screen:
/// child `i` gets the `i`-th of `count` equal parts (rounded down), where
/// `count` is the number of children (at least one).
pub open spec fn equal_parts(region: Region, n: nat, columns: bool, i: int) -> Region {
    let count: nat = if n > 0 { n } else { 1 };
    if columns {
        let w = region.width as nat / count;
        Region { x: (region.x + i * w) as usize, y: region.y, width: w as usize, height: region.height }
    } else {
        let h = region.height as nat / count;
        Region { x: region.x, y: (region.y + i * h) as usize, width: region.width, height: h as usize }
    }
}

/// Whether `r` are the `n` equal parts of `region` (columns or rows), as
/// `equal_parts` describes, where their positions fit in `usize`.
pub open spec fn equal_split_ok(region: Region, n: nat, columns: bool, r: Seq<Region>) -> bool {
    &&& r.len() == n
    &&& forall|i: int| 0 <= i < n && (if columns {
        region.x + i * (region.width as nat / (if n > 0 { n } else { 1 })) <= usize::MAX
    } else {
        region.y + i * (region.height as nat / (if n > 0 { n } else { 1 })) <= usize::MAX
    }) ==> #[trigger] r[i] == equal_parts(region, n, columns, i)
}

/// Equal parts, as `equal_parts` describes, for each of `n` children;
/// positions that would not fit in `usize` are capped at `usize::MAX`.
fn equal_split(region: &Region, n: usize, columns: bool) -> (r: Vec<Region>)
    ensures
        r@.len() == n,
        forall|i: int| 0 <= i < n && (if columns {
            region.x + i * (region.width as nat / (if n > 0 { n as nat } else { 1 })) <= usize::MAX
        } else {
            region.y + i * (region.height as nat / (if n > 0 { n as nat } else { 1 })) <= usize::MAX
        }) ==> #[trigger] r@[i] == equal_parts(*region, n as nat, columns, i),
{
    let count: usize = if n > 0 { n } else { 1 };
    let part: usize = if columns { region.width / count } else { region.height / count };
    let mut out: Vec<Region> = Vec::new();
    let mut i: usize = 0;
    while i < n
        invariant
            i <= n,
            out@.len() == i,
            count == (if n > 0 { n } else { 1 }),
            part == (if columns { region.width / count } else { region.height / count }),
            forall|k: int| 0 <= k < i && (if columns {
                region.x + k * (region.width as nat / (if n > 0 { n as nat } else { 1 })) <= usize::MAX
            } else {
                region.y + k * (region.height as nat / (if n > 0 { n as nat } else { 1 })) <= usize::MAX
            }) ==> #[trigger] out@[k] == equal_parts(*region, n as nat, columns, k),
        decreases n - i,
    {
        let off = sat_mul(i, part);
        if columns {
            out.push(Region { x: sat_add(region.x, off), y: region.y, width: part, height: region.height });
        } else {
            out.push(Region { x: region.x, y: sat_add(region.y, off), width: region.width, height: part });
        }
        proof {
            if i * part <= usize::MAX {
            } else {
                assert(region.x + i * part > usize::MAX && region.y + i * part > usize::MAX) by (nonlinear_arith)
                    requires
                        i * part > usize::MAX,
                ;
            }
        }
        i = i + 1;
    }
    out
}

/// A splitter of any type, boxed.
pub struct DynSplitter {
    pub(crate) inner: Box<dyn Splitter>,
}

impl DynSplitter {
    /// Boxes `s`.
    pub fn new<S: Splitter + 'static>(s: S) -> (d: Self) {
        DynSplitter { inner: Box::new(s) }
    }
}

impl Splitter for DynSplitter {
    fn split(&self, region: &Region, children: &[LayoutNode], direction: &Direction) -> Vec<Region> {
        self.inner.split(region, children, direction)
    }
}

/// Divides the region into equal parts along the split's direction.
#[derive(Debug)]
pub struct NoSplitter;

impl Splitter for NoSplitter {
    fn split(&self, region: &Region, children: &[LayoutNode], direction: &Direction) -> (r: Vec<Region>)
        ensures
            equal_split_ok(*region, children@.len(), *direction == Direction::Horizontal, r@),
    {
        let columns = match direction {
            Direction::Horizontal => true,
            Direction::Vertical => false,
        };
        equal_split(region, children.len(), columns)
    }
}

/// Divides the region into equal columns, whatever the direction.
#[derive(Debug)]
pub struct ColumnSplitter;

impl Splitter for ColumnSplitter {
    fn split(&self, region: &Region, children: &[LayoutNode], direction: &Direction) -> (r: Vec<Region>)
        ensures
            equal_split_ok(*region, children@.len(), true, r@),
    {
        equal_split(region, children.len(), true)
    }
}

/// Divides the region into equal rows, whatever the direction.
#[derive(Debug)]
pub struct RowSplitter;

impl Splitter for RowSplitter {
    fn split(&self, region: &Region, children: &[LayoutNode], direction: &Direction) -> (r: Vec<Region>)
        ensures
            equal_split_ok(*region, children@.len(), false, r@),
    {
        equal_split(region, children.len(), false)
    }
}

} // verus!

verus! {

/// Whether `root` is what splitting the root of `l` in `direction` makes:
/// a split of the old root and a new leaf, one share each.
pub open spec fn root_split(l: Layout, root: LayoutNode, direction: Direction) -> bool {
    root matches LayoutNode::Split { direction: d, sizes: s, children: c } && d == direction && s@ == seq![
        1usize,
        1usize,
    ] && c@.len() == 2 && c@[0] == l.root && is_plain_leaf(
        c@[1],
        "_split_b_"@ + decimal_chars((l.next_pane_id + 1) as nat),
    )
}

/// Whether `after` is what undoing a split of `before` leaves: its first
/// child, or the root itself when it is a leaf or has no children.
pub open spec fn root_unsplit(before: LayoutNode, after: LayoutNode) -> bool {
    match before {
        LayoutNode::Split { children, .. } => if children@.len() > 0 {
            after == children@[0]
        } else {
            after == before
        },
        _ => after == before,
    }
}

/// Undoing a split of the root gives back the root from before the split.
pub proof fn lemma_unsplit_undoes_split(l: Layout, split: LayoutNode, direction: Direction, back: LayoutNode)
    requires
        root_split(l, split, direction),
        root_unsplit(split, back),
    ensures
        back == l.root,
{
}

/// The sequences of `gs`, one after another.
pub open spec fn joined<T>(gs: Seq<Seq<T>>) -> Seq<T>
    decreases gs.len(),
{
    if gs.len() == 0 {
        Seq::empty()
    } else {
        joined(gs.drop_last()) + gs.last()
    }
}

/// A split with a child that splitter `k` splits is not free of splitters.
proof fn lemma_splitting_not_free(node: LayoutNode, names: Seq<Seq<char>>, k: nat, l: Layout)
    requires
        node is Split,
        names == l.splitter_names(),
        exists|i: int| 0 <= i < node->children@.len() && #[trigger] l.split_by(node->children@[i], k),
    ensures
        !node_free(node, names),
        exists|j: int| 0 <= j < node->children@.len() && #[trigger] l.splits(node->children@[j]),
{
    let i = choose|i: int| 0 <= i < node->children@.len() && #[trigger] l.split_by(node->children@[i], k);
    assert(l.splits(node->children@[i]));
    if node_free(node, names) {
        lemma_free_children_leaves(node, names, 0);
        assert(match node->children@[i] {
            LayoutNode::Leaf { name, .. } => !names.contains(name@),
            _ => true,
        });
    }
}

/// What `c` gained after `a` is what it gained after `b`, and what `b`
/// gained after `a` before that, when each extends the one before.
proof fn lemma_gain(a: Seq<(String, Region)>, b: Seq<(String, Region)>, c: Seq<(String, Region)>)
    requires
        a.len() <= b.len() <= c.len(),
        b.take(a.len() as int) == a,
        c.take(b.len() as int) == b,
    ensures
        c.take(a.len() as int) == a,
        regions_view(c).skip(a.len() as int) == regions_view(b).skip(a.len() as int) + regions_view(c).skip(
            b.len() as int,
        ),
{
    assert(c.take(a.len() as int) =~= b.take(a.len() as int));
    let x = regions_view(c).skip(a.len() as int);
    let y = regions_view(b).skip(a.len() as int) + regions_view(c).skip(b.len() as int);
    assert forall|k: int| 0 <= k < x.len() implies x[k] == y[k] by {
        if k < b.len() - a.len() {
            assert(c[a.len() + k] == b[a.len() + k]);
        }
    }
    assert(x =~= y);
}

/// Whether no child leaf of any split in `node` is named in `names`, so
/// that no registered splitter applies anywhere.
pub open spec fn node_free(node: LayoutNode, names: Seq<Seq<char>>) -> bool
    decreases node, 1nat, 0nat,
{
    match node {
        LayoutNode::Leaf { .. } => true,
        LayoutNode::Split { .. } => children_free(node, names, 0),
    }
}

/// Whether `node_free` holds of the children of `node` from `i` on.
pub open spec fn children_free(node: LayoutNode, names: Seq<Seq<char>>, i: nat) -> bool
    decreases node, 0nat, (match node {
        LayoutNode::Split { children, .. } => children@.len(),
        _ => 0,
    }) - i,
{
    match node {
        LayoutNode::Split { children, .. } => {
            if i >= children@.len() {
                true
            } else {
                &&& (match children@[i as int] {
                    LayoutNode::Leaf { name, .. } => !names.contains(name@),
                    _ => true,
                })
                &&& node_free(children@[i as int], names)
                &&& children_free(node, names, i + 1)
            }
        },
        _ => true,
    }
}

/// The names and regions of a list of pairs.
pub open spec fn regions_view(v: Seq<(String, Region)>) -> Seq<(Seq<char>, Region)> {
    v.map_values(|p: (String, Region)| (p.0@, p.1))
}

/// A layout: a tree of splits and leaves, the renderables of the leaves by
/// name, and splitters registered by child name.
pub struct Layout {
    /// The tree.
    pub root: LayoutNode,
    /// Whether the layout is shown.
    pub visible: bool,
    /// The smallest size of a region.
    pub minimum_size: usize,
    /// The renderables of the leaves, by name (each name at most once).
    pub renderables: Vec<(String, DynRenderable)>,
    /// The registered splitters, by child name (each name at most once).
    pub splitters: Vec<(String, DynSplitter)>,
    /// The number used to name the next new pane.
    pub next_pane_id: usize,
}

impl Layout {
    /// The names splitters are registered under.
    pub open spec fn splitter_names(self) -> Seq<Seq<char>> {
        self.splitters@.map_values(|e: (String, DynSplitter)| e.0@)
    }

    /// The names renderables are registered under.
    pub open spec fn renderable_names(self) -> Seq<Seq<char>> {
        self.renderables@.map_values(|e: (String, DynRenderable)| e.0@)
    }

    /// The index of the splitter registered under `name`.
    fn splitter_index(&self, name: &str) -> (r: Option<usize>)
        ensures
            match r {
                Some(i) => i < self.splitters@.len() && self.splitter_names()[i as int] == name@ && forall|j: int|
                    0 <= j < i ==> self.splitter_names()[j] != name@,
                None => !self.splitter_names().contains(name@),
            },
    {
        let mut i: usize = 0;
        while i < self.splitters.len()
            invariant
                i <= self.splitters.len(),
                forall|j: int| 0 <= j < i ==> self.splitter_names()[j] != name@,
            decreases self.splitters.len() - i,
        {
            if str_eq(self.splitters[i].0.as_str(), name) {
                return Some(i);
            }
            i = i + 1;
        }
        None
    }

    /// The renderable registered under `name` (its first entry), if any.
    pub open spec fn renderable_named(self, name: Seq<char>) -> Option<DynRenderable> {
        if self.renderable_names().contains(name) {
            Some(self.renderables@[first_index(self.renderable_names(), name)].1)
        } else {
            None
        }
    }

    /// The index of the renderable registered under `name`.
    fn renderable_index(&self, name: &str) -> (r: Option<usize>)
        ensures
            match r {
                Some(i) => i < self.renderables@.len() && self.renderable_names()[i as int] == name@ && i
                    == first_index(self.renderable_names(), name@),
                None => !self.renderable_names().contains(name@),
            },
    {
        let mut i: usize = 0;
        while i < self.renderables.len()
            invariant
                i <= self.renderables.len(),
                forall|j: int| 0 <= j < i ==> self.renderable_names()[j] != name@,
            decreases self.renderables.len() - i,
        {
            if str_eq(self.renderables[i].0.as_str(), name) {
                proof {
                    lemma_first_index(self.renderable_names(), name@, i as int);
                }
                return Some(i);
            }
            i = i + 1;
        }
        None
    }

    /// Whether `g` is what laying out `node` in `region` gives: the ratio
    /// layout when no registered splitter applies anywhere in `node` (and
    /// the arithmetic fits); when a registered splitter applies to the
    /// children of `node`, for some regions `rs` that it returned, the
    /// layouts of the children, each in its region, one after another (as
    /// many children as there are both children and regions).
    pub open spec fn lays_out(self, node: LayoutNode, region: Region, g: Seq<(Seq<char>, Region)>) -> bool
        decreases node,
    {
        &&& layout_fits(node, region) && node_free(node, self.splitter_names()) ==> g == layout_spec(node, region)
        &&& match node {
            LayoutNode::Split { children, .. } => (exists|j: int|
                0 <= j < children@.len() && #[trigger] self.splits(children@[j])) ==> exists|
                rs: Seq<Region>,
                gs: Seq<Seq<(Seq<char>, Region)>>,
            |
                #![trigger joined(gs), rs.len()]
                gs.len() == (if children@.len() < rs.len() { children@.len() } else { rs.len() }) && g
                    == joined(gs) && forall|i: int|
                    0 <= i < gs.len() ==> self.lays_out(children@[i], rs[i], #[trigger] gs[i]),
            _ => true,
        }
    }

    /// Whether `n` is a leaf whose name has a registered splitter.
    pub open spec fn splits(self, n: LayoutNode) -> bool {
        n matches LayoutNode::Leaf { name, .. } && self.splitter_names().contains(name@)
    }

    /// Whether `n` is a leaf whose name is first registered as splitter `k`.
    pub open spec fn split_by(self, n: LayoutNode, k: nat) -> bool {
        n matches LayoutNode::Leaf { name, .. } && k < self.splitter_names().len() && self.splitter_names()[k as int]
            == name@ && forall|j: int| 0 <= j < k ==> self.splitter_names()[j] != name@
    }

    /// The first child leaf of `children` with a registered splitter: the
    /// index of the splitter its name is first registered under.
    fn find_splitter(&self, children: &Vec<LayoutNode>) -> (r: Option<usize>)
        ensures
            r matches Some(k) ==> k < self.splitters@.len(),
            match r {
                Some(k) => exists|i: int|
                    0 <= i < children@.len() && #[trigger] self.split_by(children@[i], k as nat) && forall|j: int|
                        0 <= j < i ==> !self.splits(#[trigger] children@[j]),
                None => forall|i: int| 0 <= i < children@.len() ==> !self.splits(#[trigger] children@[i]),
            },
            (forall|i: int| 0 <= i < children@.len() ==> (match #[trigger] children@[i] {
                LayoutNode::Leaf { name, .. } => !self.splitter_names().contains(name@),
                _ => true,
            })) ==> r is None,
    {
        let mut i: usize = 0;
        while i < children.len()
            invariant
                i <= children.len(),
                forall|j: int| 0 <= j < i ==> !self.splits(#[trigger] children@[j]),
            decreases children.len() - i,
        {
            match &children[i] {
                LayoutNode::Leaf { name, .. } => {
                    match self.splitter_index(name.as_str()) {
                        Some(k) => {
                            assert(self.splitter_names().contains(name@));
                            assert(self.split_by(children@[i as int], k as nat));
                            return Some(k);
                        },
                        None => {},
                    }
                },
                _ => {},
            }
            i = i + 1;
        }
        None
    }

    /// Appends the regions of the leaves of `node` laid out in `region`:
    /// through a registered splitter where one applies, else by ratio.
    fn layout_node(&self, node: &LayoutNode, region: Region, out: &mut Vec<(String, Region)>)
        ensures
            old(out)@.len() <= final(out)@.len(),
            final(out)@.take(old(out)@.len() as int) == old(out)@,
            self.lays_out(*node, region, regions_view(final(out)@).skip(old(out)@.len() as int)),
            layout_fits(*node, region) && node_free(*node, self.splitter_names()) ==> regions_view(
                final(out)@,
            ) == regions_view(old(out)@) + layout_spec(*node, region),
        decreases node, 1nat, 0nat,
    {
        match node {
            LayoutNode::Leaf { name, size, .. } => {
                let r = match size {
                    Some(s) => Region {
                        width: if region.width < *s { region.width } else { *s },
                        height: if region.height < *s { region.height } else { *s },
                        ..region
                    },
                    None => Region {
                        width: if region.width > 2 { region.width } else { 2 },
                        height: if region.height > 1 { region.height } else { 1 },
                        ..region
                    },
                };
                let ghost o = out@;
                out.push((name.clone(), r));
                assert(regions_view(out@) =~= regions_view(o) + layout_spec(*node, region));
                assert(out@.take(o.len() as int) =~= o);
                assert(regions_view(out@).skip(o.len() as int) =~= layout_spec(*node, region));
            },
            LayoutNode::Split { direction, sizes, children } => {
                if children.len() == 0 {
                    assert(out@.take(out@.len() as int) =~= out@);
                    assert(regions_view(out@).skip(out@.len() as int) =~= Seq::<(Seq<char>, Region)>::empty());
                    assert(regions_view(out@) =~= regions_view(out@) + layout_spec(*node, region));
                    return;
                }
                proof {
                    if node_free(*node, self.splitter_names()) {
                        lemma_free_children_leaves(*node, self.splitter_names(), 0);
                    }
                }
                match self.find_splitter(children) {
                    Some(k) => {
                        let regions = self.splitters[k].1.split(&region, children.as_slice(), direction);
                        let ghost o0 = out@;
                        let ghost mut gs: Seq<Seq<(Seq<char>, Region)>> = Seq::empty();
                        assert(out@.take(o0.len() as int) =~= o0);
                        assert(regions_view(out@).skip(o0.len() as int) =~= joined(gs));
                        let mut i: usize = 0;
                        while i < children.len() && i < regions.len()
                            invariant
                                i <= children.len(),
                                i <= regions.len(),
                                *node is Split,
                                *children == (*node)->children,
                                o0.len() <= out@.len(),
                                out@.take(o0.len() as int) == o0,
                                gs.len() == i,
                                regions_view(out@).skip(o0.len() as int) == joined(gs),
                                forall|q: int| 0 <= q < i ==> self.lays_out(children@[q], regions@[q], #[trigger] gs[q]),
                            decreases children.len() - i,
                        {
                            proof {
                                vstd::std_specs::vec::axiom_vec_index_decreases(*children, i as int);
                                assert(decreases_to!(*node => (*node)->children));
                            }
                            let ghost before = out@;
                            self.layout_node(&children[i], regions[i], out);
                            proof {
                                let g = regions_view(out@).skip(before.len() as int);
                                lemma_gain(o0, before, out@);
                                let gs2 = gs.push(g);
                                assert(gs2.drop_last() =~= gs);
                                assert(joined(gs2) == joined(gs) + g);
                                assert forall|q: int| 0 <= q < i + 1 implies self.lays_out(children@[q], regions@[q], #[trigger] gs2[q]) by {
                                    if q < i {
                                        assert(gs2[q] == gs[q]);
                                    }
                                }
                                gs = gs2;
                            }
                            i = i + 1;
                        }
                        proof {
                            let rs = regions@;
                            assert(gs.len() == (if children@.len() < rs.len() { children@.len() } else { rs.len() }));
                            assert(regions_view(out@).skip(o0.len() as int) == joined(gs));
                            lemma_splitting_not_free(*node, self.splitter_names(), k as nat, *self);
                        }
                    },
                    None => {
                        let mut total: usize = 0;
                        let mut j: usize = 0;
                        while j < sizes.len()
                            invariant
                                j <= sizes.len(),
                                sum_upto(sizes@, j as nat) <= usize::MAX ==> total == sum_upto(sizes@, j as nat),
                                (total == 0) == (sum_upto(sizes@, j as nat) == 0),
                            decreases sizes.len() - j,
                        {
                            proof {
                                lemma_sum_upto_mono(sizes@, j as nat, (j + 1) as nat);
                            }
                            total = sat_add(total, sizes[j]);
                            j = j + 1;
                        }
                        // Sizes that add up to nothing count as one share each.
                        let use_ones = total == 0;
                        if use_ones {
                            total = children.len();
                            proof {
                                lemma_total_ones(children@.len(), children@.len());
                            }
                        }
                        let ghost o = out@;
                        self.layout_split(node, region, total, use_ones, out);
                        proof {
                            if layout_fits(*node, region) && node_free(*node, self.splitter_names()) {
                                assert(regions_view(out@).skip(o.len() as int) =~= layout_spec(*node, region));
                            }
                        }
                    },
                }
            },
        }
    }

    /// Lays out the children of split `node` by ratio, given the total of
    /// the shares.
    fn layout_split(
        &self,
        node: &LayoutNode,
        region: Region,
        total: usize,
        use_ones: bool,
        out: &mut Vec<(String, Region)>,
    )
        requires
            node is Split,
            total > 0,
            node->children@.len() > 0,
            total_of(shares(node->sizes@, node->children@.len())) <= usize::MAX ==> total == total_of(
                shares(node->sizes@, node->children@.len()),
            ),
            use_ones == (total_of(node->sizes@) == 0),
        ensures
            old(out)@.len() <= final(out)@.len(),
            final(out)@.take(old(out)@.len() as int) == old(out)@,
            layout_fits(*node, region) && children_free(*node, self.splitter_names(), 0) ==> regions_view(
                final(out)@,
            ) == regions_view(old(out)@) + layout_children(*node, region, 0, match node->direction {
                Direction::Horizontal => region.x as nat,
                Direction::Vertical => region.y as nat,
            }),
        decreases node, 0nat, node->children@.len() + 1,
    {
        match node {
            LayoutNode::Split { direction, sizes, children } => {
                let count = children.len();
                let horizontal = match direction {
                    Direction::Horizontal => true,
                    Direction::Vertical => false,
                };
                let avail: usize = if region.width > count - 1 { region.width - (count - 1) } else { 0 };
                let mut pos: usize = if horizontal { region.x } else { region.y };
                let ghost start = regions_view(out@);
                let ghost o0 = out@;
                assert(out@.take(o0.len() as int) =~= o0);
                let mut i: usize = 0;
                while i < count
                    invariant
                        o0.len() <= out@.len(),
                        out@.take(o0.len() as int) == o0,
                        start == regions_view(o0),
                        i <= count,
                        count == children@.len(),
                        *node is Split,
                        *children == (*node)->children,
                        *sizes == (*node)->sizes,
                        *direction == (*node)->direction,
                        horizontal == (*direction == Direction::Horizontal),
                        total > 0,
                        total_of(shares(sizes@, children@.len())) <= usize::MAX ==> total == total_of(shares(sizes@, children@.len())),
                        use_ones == (total_of(sizes@) == 0),
                        avail as nat == avail_width(region, count as nat),
                        layout_fits(*node, region) && children_free(*node, self.splitter_names(), 0) ==> {
                            &&& children_fit(*node, region, i as nat, pos as nat)
                            &&& children_free(*node, self.splitter_names(), i as nat)
                            &&& start + layout_children(*node, region, 0, if horizontal { region.x as nat } else { region.y as nat })
                                == regions_view(out@) + layout_children(*node, region, i as nat, pos as nat)
                        },
                    decreases count - i,
                {
                    let ratio: usize = if use_ones {
                        1
                    } else if i < sizes.len() {
                        sizes[i]
                    } else {
                        1
                    };
                    proof {
                        vstd::std_specs::vec::axiom_vec_index_decreases(*children, i as int);
                        assert(decreases_to!(*node => (*node)->children));
                    }
                    let ghost before = out@;
                    if horizontal {
                        let w = sat_mul(avail, ratio) / total;
                        let cr = Region { x: pos, y: region.y, width: if w > 1 { w } else { 1 }, height: region.height };
                        self.layout_node(&children[i], cr, out);
                        pos = sat_add(sat_add(pos, w), 1);
                    } else {
                        let h = sat_mul(region.height, ratio) / total;
                        let cr = Region { x: region.x, y: pos, width: region.width, height: if h > 1 { h } else { 1 } };
                        self.layout_node(&children[i], cr, out);
                        pos = sat_add(pos, h);
                    }
                    proof {
                        lemma_gain(o0, before, out@);
                    }
                    i = i + 1;
                }
            },
            _ => {},
        }
    }

    /// The region of each leaf when the layout fills `total_width` ×
    /// `total_height`, in tree order.
    pub fn compute(&self, total_width: usize, total_height: usize) -> (r: Vec<(String, Region)>)
        ensures
            self.lays_out(self.root, Region { x: 0, y: 0, width: total_width, height: total_height }, regions_view(r@)),
            layout_fits(self.root, Region { x: 0, y: 0, width: total_width, height: total_height })
                && node_free(self.root, self.splitter_names()) ==> regions_view(r@) == layout_spec(
                self.root,
                Region { x: 0, y: 0, width: total_width, height: total_height },
            ),
    {
        let mut out: Vec<(String, Region)> = Vec::new();
        let region = Region { x: 0, y: 0, width: total_width, height: total_height };
        self.layout_node(&self.root, region, &mut out);
        assert(regions_view(Seq::<(String, Region)>::empty()) =~= Seq::<(Seq<char>, Region)>::empty());
        assert(regions_view(out@).skip(0) =~= regions_view(out@));
        proof {
            if layout_fits(self.root, region) && node_free(self.root, self.splitter_names()) {
                assert(regions_view(out@) =~= layout_spec(self.root, region));
            }
        }
        out
    }
}

proof fn lemma_sum_upto_mono(sizes: Seq<usize>, a: nat, b: nat)
    requires
        a <= b,
    ensures
        b <= sizes.len() ==> sum_upto(sizes, a) <= sum_upto(sizes, b),
    decreases b - a,
{
    if a < b && b <= sizes.len() {
        lemma_sum_upto_mono(sizes, a, (b - 1) as nat);
    }
}

/// A split free of registered splitters has no child leaf with one.
proof fn lemma_free_children_leaves(node: LayoutNode, names: Seq<Seq<char>>, i: nat)
    requires
        node is Split,
        children_free(node, names, i),
    ensures
        forall|k: int| i <= k < node->children@.len() ==> (match #[trigger] node->children@[k] {
            LayoutNode::Leaf { name, .. } => !names.contains(name@),
            _ => true,
        }),
    decreases node->children@.len() - i,
{
    if i < node->children@.len() {
        lemma_free_children_leaves(node, names, i + 1);
    }
}

} // verus!

verus! {

/// A leaf named `name` with no renderable label and no fixed size.
pub open spec fn is_plain_leaf(n: LayoutNode, name: Seq<char>) -> bool {
    n matches LayoutNode::Leaf { name: nm, renderable: r, size: s } && nm@ == name && r is None && s is None
}

/// `prefix` followed by the decimal digits of `n`.
fn pane_name(prefix: &str, n: usize) -> (s: String)
    ensures
        s@ == prefix@ + decimal_chars(n as nat),
{
    let mut s = owned(prefix);
    push_decimal(&mut s, n as u64);
    s
}

/// A plain leaf named `name`.
fn leaf(name: String) -> (n: LayoutNode)
    ensures
        is_plain_leaf(n, name@),
{
    LayoutNode::Leaf { name, renderable: None, size: None }
}

/// The first leaf named `name` in `node`, depth first.
pub open spec fn find_spec(node: LayoutNode, name: Seq<char>) -> Option<LayoutNode>
    decreases node, 1nat, 0nat,
{
    match node {
        LayoutNode::Leaf { name: n, .. } => if n@ == name {
            Some(node)
        } else {
            None
        },
        LayoutNode::Split { .. } => find_in_children(node, name, 0),
    }
}

/// The first leaf named `name` among the children of `node` from `i` on.
pub open spec fn find_in_children(node: LayoutNode, name: Seq<char>, i: nat) -> Option<LayoutNode>
    decreases node, 0nat, (match node {
        LayoutNode::Split { children, .. } => children@.len(),
        _ => 0,
    }) - i,
{
    match node {
        LayoutNode::Split { children, .. } => {
            if i >= children@.len() {
                None
            } else {
                match find_spec(children@[i as int], name) {
                    Some(f) => Some(f),
                    None => find_in_children(node, name, i + 1),
                }
            }
        },
        _ => None,
    }
}

/// Finds the first leaf named `name`, depth first.
pub fn find_layout_node<'a>(node: &'a LayoutNode, name: &str) -> (r: Option<&'a LayoutNode>)
    ensures
        match r {
            Some(f) => find_spec(*node, name@) == Some(*f),
            None => find_spec(*node, name@) is None,
        },
    decreases node,
{
    match node {
        LayoutNode::Leaf { name: n, .. } => {
            if str_eq(n.as_str(), name) {
                Some(node)
            } else {
                None
            }
        },
        LayoutNode::Split { children, .. } => {
            let mut i: usize = 0;
            while i < children.len()
                invariant
                    i <= children.len(),
                    *node is Split,
                    *children == (*node)->children,
                    find_in_children(*node, name@, i as nat) == find_spec(*node, name@),
                decreases children.len() - i,
            {
                proof {
                    vstd::std_specs::vec::axiom_vec_index_decreases(*children, i as int);
                    assert(decreases_to!(*node => (*node)->children));
                }
                match find_layout_node(&children[i], name) {
                    Some(f) => return Some(f),
                    None => {},
                }
                i = i + 1;
            }
            None
        },
    }
}

/// The leaves' names of `node` in tree order.
pub open spec fn leaf_names(node: LayoutNode) -> Seq<Seq<char>>
    decreases node, 1nat, 0nat,
{
    match node {
        LayoutNode::Leaf { name, .. } => seq![name@],
        LayoutNode::Split { sizes, children, .. } => if children@.len() == 0 || total_of(shares(sizes@, children@.len())) == 0 {
            seq![]
        } else {
            names_from(node, 0)
        },
    }
}

/// The leaves' names of the children of `node` from `i` on.
pub open spec fn names_from(node: LayoutNode, i: nat) -> Seq<Seq<char>>
    decreases node, 0nat, (match node {
        LayoutNode::Split { children, .. } => children@.len(),
        _ => 0,
    }) - i,
{
    match node {
        LayoutNode::Split { sizes, children, .. } => if i >= children@.len() || total_of(shares(sizes@, children@.len())) == 0 {
            seq![]
        } else {
            leaf_names(children@[i as int]) + names_from(node, i + 1)
        },
        _ => seq![],
    }
}

/// The names in a layout result.
pub open spec fn names_of(v: Seq<(Seq<char>, Region)>) -> Seq<Seq<char>> {
    v.map_values(|p: (Seq<char>, Region)| p.0)
}

/// Laying out a tree gives exactly one region per leaf, in tree order,
/// whatever the region it is laid out in.
pub proof fn lemma_one_region_per_leaf(node: LayoutNode, r: Region)
    ensures
        names_of(layout_spec(node, r)) == leaf_names(node),
    decreases node, 1nat, 0nat,
{
    match node {
        LayoutNode::Leaf { .. } => {
            assert(names_of(layout_spec(node, r)) =~= leaf_names(node));
        },
        LayoutNode::Split { direction, sizes, children } => {
            if children@.len() == 0 || total_of(shares(sizes@, children@.len())) == 0 {
                assert(names_of(layout_spec(node, r)) =~= leaf_names(node));
            } else {
                let pos = match direction {
                    Direction::Horizontal => r.x as nat,
                    Direction::Vertical => r.y as nat,
                };
                lemma_children_names(node, r, 0, pos);
            }
        },
    }
}

proof fn lemma_children_names(node: LayoutNode, r: Region, i: nat, pos: nat)
    ensures
        names_of(layout_children(node, r, i, pos)) == names_from(node, i),
    decreases node, 0nat, (match node {
        LayoutNode::Split { children, .. } => children@.len(),
        _ => 0,
    }) - i,
{
    match node {
        LayoutNode::Split { direction, sizes, children } => {
            if i >= children@.len() || total_of(shares(sizes@, children@.len())) == 0 {
                assert(names_of(layout_children(node, r, i, pos)) =~= names_from(node, i));
            } else {
                let total = total_of(shares(sizes@, children@.len()));
                let ratio = ratio_at(shares(sizes@, children@.len()), i as int);
                match direction {
                    Direction::Horizontal => {
                        let w = child_width(avail_width(r, children@.len()), ratio, total);
                        let cr = Region {
                            x: pos as usize,
                            y: r.y,
                            width: (if w > 1 { w } else { 1 }) as usize,
                            height: r.height,
                        };
                        lemma_one_region_per_leaf(children@[i as int], cr);
                        lemma_children_names(node, r, i + 1, pos + w + 1);
                        assert(names_of(layout_children(node, r, i, pos)) =~= names_from(node, i));
                    },
                    Direction::Vertical => {
                        let h = (r.height as nat * ratio) / total;
                        let cr = Region {
                            x: r.x,
                            y: pos as usize,
                            width: r.width,
                            height: (if h > 1 { h } else { 1 }) as usize,
                        };
                        lemma_one_region_per_leaf(children@[i as int], cr);
                        lemma_children_names(node, r, i + 1, pos + h);
                        assert(names_of(layout_children(node, r, i, pos)) =~= names_from(node, i));
                    },
                }
            }
        },
        _ => {},
    }
}

} // verus!

verus! {

impl Layout {
    /// A layout of `root` with no renderables and no splitters.
    pub fn new(root: LayoutNode) -> (l: Self)
        ensures
            l.root == root,
            l.visible,
            l.minimum_size == 1,
            l.renderables@.len() == 0,
            l.splitters@.len() == 0,
            l.next_pane_id == 0,
    {
        Layout {
            root,
            visible: true,
            minimum_size: 1,
            renderables: Vec::new(),
            splitters: Vec::new(),
            next_pane_id: 0,
        }
    }

    /// A layout of one leaf named `name` showing `renderable`.
    pub fn from_renderable<R: Renderable + 'static>(name: &str, renderable: R) -> (l: Self)
        ensures
            is_plain_leaf(l.root, name@),
            l.visible,
            l.minimum_size == 1,
            l.renderable_names() == seq![name@],
            l.renderables@[0].1.holds(renderable),
            l.splitters@.len() == 0,
            l.next_pane_id == 1,
    {
        let mut renderables: Vec<(String, DynRenderable)> = Vec::new();
        renderables.push((owned(name), DynRenderable::new(renderable)));
        let l = Layout {
            root: leaf(owned(name)),
            visible: true,
            minimum_size: 1,
            renderables,
            splitters: Vec::new(),
            next_pane_id: 1,
        };
        assert(l.renderable_names() =~= seq![name@]);
        l
    }

    /// Splits the root in `direction`: the old root becomes the first child
    /// and a new leaf `_split_b_<id + 1>` the second, both with share 1.
    pub fn split(&mut self, direction: Direction)
        requires
            old(self).next_pane_id + 2 <= usize::MAX,
        ensures
            root_split(*old(self), final(self).root, direction),
            final(self).next_pane_id == old(self).next_pane_id + 2,
            final(self).renderables == old(self).renderables,
            final(self).splitters == old(self).splitters,
            final(self).visible == old(self).visible,
            final(self).minimum_size == old(self).minimum_size,
    {
        let name_b = pane_name("_split_b_", self.next_pane_id + 1);
        self.next_pane_id = self.next_pane_id + 2;
        let mut old_root = leaf(String::new());
        std::mem::swap(&mut old_root, &mut self.root);
        let mut children: Vec<LayoutNode> = Vec::new();
        children.push(old_root);
        children.push(leaf(name_b));
        let mut sizes: Vec<usize> = Vec::new();
        sizes.push(1);
        sizes.push(1);
        assert(sizes@ =~= seq![1usize, 1usize]);
        self.root = LayoutNode::Split { direction, sizes, children };
    }

    /// Undoes a split of the root: the root becomes its first child (a leaf
    /// root, or a split with no children, stays).
    pub fn unsplit(&mut self)
        ensures
            root_unsplit(old(self).root, final(self).root),
            final(self).renderables == old(self).renderables,
            final(self).splitters == old(self).splitters,
            final(self).next_pane_id == old(self).next_pane_id,
    {
        let mut cur = leaf(String::new());
        std::mem::swap(&mut cur, &mut self.root);
        match cur {
            LayoutNode::Split { direction, sizes, mut children } => {
                if children.len() > 0 {
                    self.root = children.remove(0);
                } else {
                    self.root = LayoutNode::Split { direction, sizes, children };
                }
            },
            other => {
                self.root = other;
            },
        }
    }

    /// Replaces the root by a split of `children` in `direction`, each with
    /// share 1.
    pub fn split_with(&mut self, direction: Direction, children: Vec<LayoutNode>) -> (r: &mut Self)
        ensures
            r.root matches LayoutNode::Split { direction: d, sizes: s, children: c } && d == direction
                && s@ == ones(children@.len()) && c@ == children@,
            r.renderables == old(self).renderables,
            r.splitters == old(self).splitters,
            r.next_pane_id == old(self).next_pane_id,
            *final(self) == *final(r),
    {
        self.root = LayoutNode::split(direction, children);
        self
    }

    /// Registers `renderable` under `name` (replacing one of that name) and
    /// returns a plain leaf of that name.
    fn register(&mut self, name: &str, renderable: DynRenderable) -> (n: LayoutNode)
        ensures
            is_plain_leaf(n, name@),
            final(self).renderable_names().contains(name@),
            final(self).root == old(self).root,
            final(self).splitters == old(self).splitters,
            final(self).next_pane_id == old(self).next_pane_id,
            final(self).visible == old(self).visible,
            forall|x: Seq<char>| old(self).renderable_names().contains(x) ==> final(self).renderable_names().contains(x),
            final(self).renderable_named(name@) == Some(renderable),
    {
        match self.renderable_index(name) {
            Some(i) => {
                self.renderables.set(i, (owned(name), renderable));
                assert(self.renderable_names()[i as int] == name@);
                assert(self.renderable_names() =~= old(self).renderable_names());
                assert forall|x: Seq<char>| old(self).renderable_names().contains(x) implies self.renderable_names().contains(x) by {
                    let k = choose|k: int| 0 <= k < old(self).renderable_names().len() && old(self).renderable_names()[k] == x;
                    assert(self.renderable_names()[k] == x);
                }
            },
            None => {
                self.renderables.push((owned(name), renderable));
                assert(self.renderable_names()[self.renderables@.len() - 1] == name@);
                proof {
                    let names = self.renderable_names();
                    assert forall|j: int| 0 <= j < names.len() - 1 implies names[j] != name@ by {
                        assert(names[j] == old(self).renderable_names()[j]);
                    }
                    lemma_first_index(names, name@, names.len() - 1);
                }
                assert forall|x: Seq<char>| old(self).renderable_names().contains(x) implies self.renderable_names().contains(x) by {
                    let k = choose|k: int| 0 <= k < old(self).renderable_names().len() && old(self).renderable_names()[k] == x;
                    assert(self.renderable_names()[k] == x);
                }
            },
        }
        leaf(owned(name))
    }

    /// Replaces the root by a row of one named leaf per child, side by side
    /// (a horizontal split), registering each child's renderable under its
    /// name.
    pub fn split_row_with<R: Renderable + 'static>(&mut self, children: Vec<(&str, R)>) -> (r: &mut Self)
        ensures
            *final(self) == *final(r),
            r.root matches LayoutNode::Split { direction: d, sizes: s, children: c } && d
                == Direction::Horizontal && s@ == ones(children@.len()) && c@.len() == children@.len()
                && forall|i: int| 0 <= i < c@.len() ==> is_plain_leaf(#[trigger] c@[i], children@[i].0@),
    {
        let nodes = self.register_all(children);
        self.split_with(Direction::Horizontal, nodes)
    }

    /// Replaces the root by a column of one named leaf per child, stacked
    /// top to bottom (a vertical split), registering each child's renderable
    /// under its name.
    pub fn split_column_with<R: Renderable + 'static>(&mut self, children: Vec<(&str, R)>) -> (r: &mut Self)
        ensures
            *final(self) == *final(r),
            r.root matches LayoutNode::Split { direction: d, sizes: s, children: c } && d
                == Direction::Vertical && s@ == ones(children@.len()) && c@.len() == children@.len()
                && forall|i: int| 0 <= i < c@.len() ==> is_plain_leaf(#[trigger] c@[i], children@[i].0@),
    {
        let nodes = self.register_all(children);
        self.split_with(Direction::Vertical, nodes)
    }

    /// Registers each child's renderable and returns their leaves.
    fn register_all<R: Renderable + 'static>(&mut self, children: Vec<(&str, R)>) -> (nodes: Vec<LayoutNode>)
        ensures
            nodes@.len() == children@.len(),
            forall|i: int| 0 <= i < nodes@.len() ==> is_plain_leaf(#[trigger] nodes@[i], children@[i].0@),
            forall|i: int| 0 <= i < children@.len() ==> final(self).renderable_names().contains(#[trigger] children@[i].0@),
            forall|x: Seq<char>| old(self).renderable_names().contains(x) ==> final(self).renderable_names().contains(x),
            final(self).root == old(self).root,
            final(self).splitters == old(self).splitters,
            final(self).next_pane_id == old(self).next_pane_id,
            final(self).visible == old(self).visible,
    {
        let ghost names = children@.map_values(|c: (&str, R)| c.0@);
        let mut nodes: Vec<LayoutNode> = Vec::new();
        let mut rest = children;
        let ghost orig = rest@;
        let mut rev: Vec<(&str, R)> = Vec::new();
        while rest.len() > 0
            invariant
                rev@.len() + rest@.len() == orig.len(),
                rest@ == orig.take(rest@.len() as int),
                forall|k: int| 0 <= k < rev@.len() ==> #[trigger] rev@[k].0@ == orig[orig.len() - 1 - k].0@,
            decreases rest@.len(),
        {
            let item = rest.pop().unwrap();
            rev.push(item);
            assert(rest@ =~= orig.take(rest@.len() as int));
        }
        while rev.len() > 0
            invariant
                rev@.len() + nodes@.len() == orig.len(),
                forall|k: int| 0 <= k < rev@.len() ==> #[trigger] rev@[k].0@ == orig[orig.len() - 1 - k].0@,
                forall|k: int| 0 <= k < nodes@.len() ==> is_plain_leaf(#[trigger] nodes@[k], orig[k].0@),
                forall|k: int| 0 <= k < nodes@.len() ==> self.renderable_names().contains(#[trigger] orig[k].0@),
                forall|x: Seq<char>| old(self).renderable_names().contains(x) ==> self.renderable_names().contains(x),
                self.root == old(self).root,
                self.splitters == old(self).splitters,
                self.next_pane_id == old(self).next_pane_id,
                self.visible == old(self).visible,
            decreases rev@.len(),
        {
            let (name, r) = rev.pop().unwrap();
            let n = self.register(name, DynRenderable::new(r));
            nodes.push(n);
        }
        nodes
    }

    /// Splits the root horizontally (see `split`).
    pub fn split_column(&mut self) -> (r: &mut Self)
        requires
            old(self).next_pane_id + 2 <= usize::MAX,
        ensures
            r.root matches LayoutNode::Split { direction: d, children: c, .. } && d
                == Direction::Horizontal && c@.len() == 2 && c@[0] == old(self).root,
            *final(self) == *final(r),
    {
        self.split(Direction::Horizontal);
        self
    }

    /// Splits the root vertically (see `split`).
    pub fn split_row(&mut self) -> (r: &mut Self)
        requires
            old(self).next_pane_id + 2 <= usize::MAX,
        ensures
            r.root matches LayoutNode::Split { direction: d, children: c, .. } && d
                == Direction::Vertical && c@.len() == 2 && c@[0] == old(self).root,
            *final(self) == *final(r),
    {
        self.split(Direction::Vertical);
        self
    }

    /// The first leaf named `name`, depth first.
    pub fn find_node(&self, name: &str) -> (r: Option<&LayoutNode>)
        ensures
            match r {
                Some(f) => find_spec(self.root, name@) == Some(*f),
                None => find_spec(self.root, name@) is None,
            },
    {
        find_layout_node(&self.root, name)
    }

    /// Adds a pane showing `renderable` with share `ratio`, named
    /// `_pane_<id>`: appended to a split root, or, for a leaf root, forming
    /// a vertical split of the old root (share 1) and the pane. Returns the
    /// pane's index among the root's children.
    pub fn add_split<R: Renderable + 'static>(&mut self, renderable: R, ratio: usize) -> (idx: usize)
        requires
            old(self).next_pane_id < usize::MAX,
        ensures
            final(self).next_pane_id == old(self).next_pane_id + 1,
            final(self).renderable_names().contains("_pane_"@ + decimal_chars(old(self).next_pane_id as nat)),
            final(self).renderable_named("_pane_"@ + decimal_chars(old(self).next_pane_id as nat)) matches Some(d)
                && d.holds(renderable),
            match old(self).root {
                LayoutNode::Split { direction, sizes, children } => {
                    &&& final(self).root matches LayoutNode::Split { direction: d, sizes: s, children: c }
                        && d == direction && s@ == sizes@.push(ratio) && c@.len() == children@.len() + 1
                        && c@.drop_last() == children@ && is_plain_leaf(
                        c@.last(),
                        "_pane_"@ + decimal_chars(old(self).next_pane_id as nat),
                    )
                    &&& idx == children@.len()
                },
                LayoutNode::Leaf { .. } => {
                    &&& final(self).root matches LayoutNode::Split { direction: d, sizes: s, children: c }
                        && d == Direction::Vertical && s@ == seq![1usize, ratio] && c@.len() == 2 && c@[0]
                        == old(self).root && is_plain_leaf(
                        c@[1],
                        "_pane_"@ + decimal_chars(old(self).next_pane_id as nat),
                    )
                    &&& idx == 1
                },
            },
    {
        let id = self.next_pane_id;
        self.next_pane_id = id + 1;
        let name = pane_name("_pane_", id);
        let node = self.register(name.as_str(), DynRenderable::new(renderable));
        let mut cur = leaf(String::new());
        std::mem::swap(&mut cur, &mut self.root);
        match cur {
            LayoutNode::Split { direction, mut sizes, mut children } => {
                let ghost c0 = children@;
                children.push(node);
                sizes.push(ratio);
                let n = children.len() - 1;
                assert(children@.drop_last() =~= c0);
                self.root = LayoutNode::Split { direction, sizes, children };
                n
            },
            other => {
                let mut children: Vec<LayoutNode> = Vec::new();
                children.push(other);
                children.push(node);
                let mut sizes: Vec<usize> = Vec::new();
                sizes.push(1);
                sizes.push(ratio);
                assert(sizes@ =~= seq![1usize, ratio]);
                self.root = LayoutNode::Split { direction: Direction::Vertical, sizes, children };
                1
            },
        }
    }

    /// Adds each child as a pane with share 1 (see `add_split`) and returns
    /// how many were added.
    pub fn add_splits<R: Renderable + 'static>(&mut self, children: Vec<(&str, R)>) -> (n: usize)
        requires
            old(self).next_pane_id + children@.len() <= usize::MAX,
        ensures
            n == children@.len(),
            final(self).next_pane_id == old(self).next_pane_id + children@.len(),
    {
        let count = children.len();
        let mut rest = children;
        let mut done: usize = 0;
        while rest.len() > 0
            invariant
                done + rest@.len() == count,
                self.next_pane_id == old(self).next_pane_id + done,
                old(self).next_pane_id + count <= usize::MAX,
            decreases rest@.len(),
        {
            let (_name, r) = rest.remove(0);
            self.add_split(r, 1);
            done = done + 1;
        }
        count
    }

    /// The renderable of the root, when the root is a leaf with one.
    pub fn renderable(&self) -> (r: Option<&DynRenderable>)
        ensures
            r is Some ==> self.root is Leaf && self.renderable_names().contains(self.root->name@),
            (self.root is Leaf && self.renderable_names().contains(self.root->name@)) ==> r is Some,
    {
        match &self.root {
            LayoutNode::Leaf { name, .. } => match self.renderable_index(name.as_str()) {
                Some(i) => Some(&self.renderables[i].1),
                None => None,
            },
            _ => None,
        }
    }

    /// The children of the root (none when it is a leaf).
    pub fn children(&self) -> (r: &[LayoutNode])
        ensures
            match self.root {
                LayoutNode::Split { children, .. } => r@ == children@,
                _ => r@.len() == 0,
            },
    {
        match &self.root {
            LayoutNode::Split { children, .. } => children.as_slice(),
            _ => &[],
        }
    }

    /// The registered splitters.
    pub fn splitters(&self) -> (r: Vec<&DynSplitter>)
        ensures
            r@.len() == self.splitters@.len(),
    {
        let mut v: Vec<&DynSplitter> = Vec::new();
        let mut i: usize = 0;
        while i < self.splitters.len()
            invariant
                i <= self.splitters.len(),
                v@.len() == i,
            decreases self.splitters.len() - i,
        {
            v.push(&self.splitters[i].1);
            i = i + 1;
        }
        v
    }

    /// Registers `splitter` for splits with a child leaf named `name`
    /// (replacing one of that name).
    pub fn set_splitter<S: Splitter + 'static>(&mut self, name: &str, splitter: S)
        ensures
            final(self).splitter_names().contains(name@),
            final(self).root == old(self).root,
    {
        match self.splitter_index(name) {
            Some(i) => {
                let e = (owned(name), DynSplitter::new(splitter));
                self.splitters.set(i, e);
                assert(self.splitter_names()[i as int] == name@);
            },
            None => {
                let e = (owned(name), DynSplitter::new(splitter));
                self.splitters.push(e);
                assert(self.splitter_names()[self.splitters@.len() - 1] == name@);
            },
        }
    }

    /// Removes the splitter registered under `name`; whether there was one.
    pub fn remove_splitter(&mut self, name: &str) -> (b: bool)
        ensures
            b == old(self).splitter_names().contains(name@),
            b ==> final(self).splitters@.len() == old(self).splitters@.len() - 1,
            !b ==> final(self).splitters@.len() == old(self).splitters@.len(),
            final(self).root == old(self).root,
    {
        match self.splitter_index(name) {
            Some(i) => {
                self.splitters.remove(i);
                true
            },
            None => false,
        }
    }

    /// The root of the tree.
    pub fn tree(&self) -> (r: &LayoutNode)
        ensures
            *r == self.root,
    {
        &self.root
    }

    /// Replaces every registered renderable by what `f` makes of it.
    pub fn map<F: Fn(&DynRenderable) -> DynRenderable>(&mut self, f: F)
        requires
            forall|r: &DynRenderable| #[trigger] f.requires((r,)),
        ensures
            final(self).renderable_names() == old(self).renderable_names(),
            final(self).root == old(self).root,
            *final(self) == (Layout { renderables: final(self).renderables, ..*old(self) }),
            final(self).renderables@.len() == old(self).renderables@.len(),
            forall|i: int|
                0 <= i < old(self).renderables@.len() ==> f.ensures(
                    (&old(self).renderables@[i].1,),
                    #[trigger] final(self).renderables@[i].1,
                ),
    {
        let mut i: usize = 0;
        while i < self.renderables.len()
            invariant
                i <= self.renderables.len(),
                self.renderables@.len() == old(self).renderables@.len(),
                self.renderable_names() == old(self).renderable_names(),
                *self == (Layout { renderables: self.renderables, ..*old(self) }),
                forall|r: &DynRenderable| #[trigger] f.requires((r,)),
                forall|j: int| i <= j < self.renderables@.len() ==> #[trigger] self.renderables@[j] == old(self).renderables@[j],
                forall|j: int|
                    0 <= j < i ==> f.ensures((&old(self).renderables@[j].1,), #[trigger] self.renderables@[j].1),
            decreases self.renderables.len() - i,
        {
            let name = self.renderables[i].0.clone();
            let nr = f(&self.renderables[i].1);
            self.renderables.set(i, (name, nr));
            assert(self.renderable_names() =~= old(self).renderable_names());
            i = i + 1;
        }
    }

    /// The renderable registered under `name`.
    pub fn get_renderable(&self, name: &str) -> (r: Option<&DynRenderable>)
        ensures
            r is Some <==> self.renderable_names().contains(name@),
            r matches Some(d) ==> self.renderable_named(name@) == Some(*d),
    {
        match self.renderable_index(name) {
            Some(i) => Some(&self.renderables[i].1),
            None => None,
        }
    }

    /// The renderable of the first leaf named `name` in the tree.
    pub fn get(&self, name: &str) -> (r: Option<&DynRenderable>)
        ensures
            r is Some <==> (find_spec(self.root, name@) is Some && self.renderable_names().contains(name@)),
            r matches Some(d) ==> self.renderable_named(name@) == Some(*d),
    {
        match find_layout_node(&self.root, name) {
            Some(LayoutNode::Leaf { name: n, .. }) => {
                proof {
                    lemma_find_leaf_name(self.root, name@);
                }
                match self.renderable_index(n.as_str()) {
                    Some(i) => Some(&self.renderables[i].1),
                    None => None,
                }
            },
            Some(_) => {
                proof {
                    lemma_find_leaf_name(self.root, name@);
                }
                None
            },
            None => None,
        }
    }

    /// Replaces the renderable registered under `name`; false (and no
    /// change) when there is none.
    pub fn update<R: Renderable + 'static>(&mut self, name: &str, renderable: R) -> (b: bool)
        ensures
            b == old(self).renderable_names().contains(name@),
            final(self).renderable_names() == old(self).renderable_names(),
            final(self).root == old(self).root,
            final(self).splitters == old(self).splitters,
            final(self).visible == old(self).visible,
            final(self).minimum_size == old(self).minimum_size,
            final(self).next_pane_id == old(self).next_pane_id,
            !b ==> final(self).renderables == old(self).renderables,
            b ==> exists|i: int|
                0 <= i < old(self).renderables@.len() && old(self).renderable_names()[i] == name@
                    && final(self).renderables@ == old(self).renderables@.update(i, #[trigger] final(self).renderables@[i])
                    && final(self).renderables@[i].1.holds(renderable),
            b ==> (final(self).renderable_named(name@) matches Some(d) && d.holds(renderable)),
    {
        match self.renderable_index(name) {
            Some(i) => {
                self.renderables.set(i, (owned(name), DynRenderable::new(renderable)));
                assert(self.renderable_names() =~= old(self).renderable_names());
                assert(self.renderables@ =~= old(self).renderables@.update(i as int, self.renderables@[i as int]));
                true
            },
            None => false,
        }
    }

    /// Prints the renderable of each leaf, in the order `compute` gives for
    /// the current terminal size, when the layout is visible.
    pub fn refresh_screen(&mut self, console: &mut Console)
        ensures
            *final(self) == *old(self),
            !old(self).visible ==> *final(console) == *old(console),
            old(console).quiet ==> *final(console) == *old(console),
            old(self).renderables@.len() == 0 ==> *final(console) == *old(console),
            crate::console::same_settings(*old(console), *final(console)),
            exists|t: Seq<char>| crate::console::wrote(*old(console), *final(console), t),
    {
        proof {
            crate::console::lemma_wrote_nothing(*console);
        }
        if !self.visible {
            return;
        }
        let dims = crate::console::ConsoleDimensions::detect();
        let regions = self.compute(dims.width, dims.height);
        let ghost mut acc: Seq<char> = seq![];
        let mut i: usize = 0;
        while i < regions.len()
            invariant
                i <= regions.len(),
                *self == *old(self),
                crate::console::same_settings(*old(console), *console),
                old(console).quiet ==> *console == *old(console),
                self.renderables@.len() == 0 ==> *console == *old(console),
                crate::console::wrote(*old(console), *console, acc),
            decreases regions.len() - i,
        {
            match self.renderable_index(regions[i].0.as_str()) {
                Some(k) => {
                    let opts = crate::console::ConsoleOptions::default();
                    let rendered = self.renderables[k].1.render(&opts);
                    let text = rendered.to_ansi();
                    if text.as_str().unicode_len() > 0 {
                        let ghost before = *console;
                        console.print_str(text.as_str());
                        proof {
                            // A quiet console is left as it was; otherwise the text is appended.
                            if !before.quiet {
                                let w = if !before.options.markup {
                                    crate::export::strip_from(text@, 0)
                                } else {
                                    let t = choose|t: crate::text::Text|
                                        (t.plain@, crate::markup::spans_view(t.spans@)) == crate::markup::markup_spec(
                                            text@,
                                        ) && crate::console::wrote(before, *console, crate::text::text_render_spec(t));
                                    crate::text::text_render_spec(t)
                                };
                                crate::console::lemma_wrote_trans(*old(console), before, *console, acc, w);
                                acc = acc + w;
                            }
                        }
                    }
                },
                None => {},
            }
            i = i + 1;
        }
    }
}

/// What `find_spec` finds is a leaf with the name looked for.
proof fn lemma_find_leaf_name(node: LayoutNode, name: Seq<char>)
    ensures
        find_spec(node, name) matches Some(f) ==> f matches LayoutNode::Leaf { name: n, .. } && n@ == name,
    decreases node, 1nat, 0nat,
{
    match node {
        LayoutNode::Split { .. } => lemma_find_children_leaf(node, name, 0),
        _ => {},
    }
}

proof fn lemma_find_children_leaf(node: LayoutNode, name: Seq<char>, i: nat)
    ensures
        find_in_children(node, name, i) matches Some(f) ==> f matches LayoutNode::Leaf { name: n, .. } && n@
            == name,
    decreases node, 0nat, (match node {
        LayoutNode::Split { children, .. } => children@.len(),
        _ => 0,
    }) - i,
{
    match node {
        LayoutNode::Split { children, .. } => {
            if i < children@.len() {
                lemma_find_leaf_name(children@[i as int], name);
                lemma_find_children_leaf(node, name, i + 1);
            }
        },
        _ => {},
    }
}

} // verus!

verus! {

/// The sizes written as `a, b, c`.
pub open spec fn sizes_text(sizes: Seq<usize>) -> Seq<char>
    decreases sizes.len(),
{
    if sizes.len() == 0 {
        seq![]
    } else if sizes.len() == 1 {
        decimal_chars(sizes[0] as nat)
    } else {
        sizes_text(sizes.drop_last()) + ", "@ + decimal_chars(sizes.last() as nat)
    }
}

/// The label of a node: `📄 name` (with ` [size=N]` for a fixed size), or
/// `🔀 Split(Direction)` (with ` [a, b]` unless every share is 1).
pub open spec fn label_spec(node: LayoutNode) -> Seq<char> {
    match node {
        LayoutNode::Leaf { name, size, .. } => "📄 "@ + name@ + (match size {
            Some(s) => " [size="@ + decimal_chars(s as nat) + "]"@,
            None => seq![],
        }),
        LayoutNode::Split { direction, sizes, .. } => "🔀 Split("@ + (match direction {
            Direction::Horizontal => "Horizontal"@,
            Direction::Vertical => "Vertical"@,
        }) + ")"@ + (if (forall|i: int| 0 <= i < sizes@.len() ==> sizes@[i] == 1) {
            seq![]
        } else {
            " ["@ + sizes_text(sizes@) + "]"@
        }),
    }
}

/// The label of a node.
pub fn node_label(node: &LayoutNode) -> (s: String)
    ensures
        s@ == label_spec(*node),
{
    match node {
        LayoutNode::Leaf { name, size, .. } => {
            let mut s = owned("📄 ");
            push_str(&mut s, name.as_str());
            match size {
                Some(n) => {
                    push_str(&mut s, " [size=");
                    push_decimal(&mut s, *n as u64);
                    push_str(&mut s, "]");
                },
                None => {},
            }
            s
        },
        LayoutNode::Split { direction, sizes, .. } => {
            let mut s = owned("🔀 Split(");
            match direction {
                Direction::Horizontal => push_str(&mut s, "Horizontal"),
                Direction::Vertical => push_str(&mut s, "Vertical"),
            }
            push_str(&mut s, ")");
            let mut all_one = true;
            let mut i: usize = 0;
            while i < sizes.len()
                invariant
                    i <= sizes.len(),
                    all_one == (forall|k: int| 0 <= k < i ==> sizes@[k] == 1),
                decreases sizes.len() - i,
            {
                if sizes[i] != 1 {
                    all_one = false;
                }
                i = i + 1;
            }
            if !all_one {
                push_str(&mut s, " [");
                let mut t = String::new();
                let mut j: usize = 0;
                while j < sizes.len()
                    invariant
                        j <= sizes.len(),
                        t@ == sizes_text(sizes@.take(j as int)),
                    decreases sizes.len() - j,
                {
                    assert(sizes@.take(j + 1).drop_last() =~= sizes@.take(j as int));
                    if j > 0 {
                        push_str(&mut t, ", ");
                    } else {
                        assert(sizes@.take(0) =~= Seq::<usize>::empty());
                    }
                    push_decimal(&mut t, sizes[j] as u64);
                    j = j + 1;
                }
                assert(sizes@.take(sizes.len() as int) =~= sizes@);
                push_str(&mut s, t.as_str());
                push_str(&mut s, "]");
            }
            s
        },
    }
}

/// The lines (as text) the tree drawing of `node` gives under `prefix`: the
/// node's label, then for each child a line with a branch and the child's
/// label, followed by the child's own drawing one level deeper.
pub open spec fn tree_lines(node: LayoutNode, prefix: Seq<char>) -> Seq<Seq<char>>
    decreases node, 1nat, 0nat,
{
    seq![prefix + label_spec(node)] + match node {
        LayoutNode::Split { .. } => child_lines(node, prefix, 0),
        _ => seq![],
    }
}

/// The lines of the children of `node` from `i` on.
pub open spec fn child_lines(node: LayoutNode, prefix: Seq<char>, i: nat) -> Seq<Seq<char>>
    decreases node, 0nat, (match node {
        LayoutNode::Split { children, .. } => children@.len(),
        _ => 0,
    }) - i,
{
    match node {
        LayoutNode::Split { children, .. } => if i >= children@.len() {
            seq![]
        } else {
            let last = i + 1 == children@.len();
            let connector = if last { "└── "@ } else { "├── "@ };
            let continuation = if last { "    "@ } else { "│   "@ };
            seq![prefix + connector + label_spec(children@[i as int])] + tree_lines(
                children@[i as int],
                prefix + continuation,
            ) + child_lines(node, prefix, i + 1)
        },
        _ => seq![],
    }
}

/// The texts of lines that are each a text segment and a newline.
pub open spec fn line_texts(lines: Seq<Vec<Segment>>) -> Seq<Seq<char>> {
    lines.map_values(|l: Vec<Segment>| l@[0].text@)
}

/// Whether every line is a text segment followed by a newline segment.
pub open spec fn two_segment_lines(lines: Seq<Vec<Segment>>) -> bool {
    forall|i: int| 0 <= i < lines.len() ==> (#[trigger] lines[i])@.len() == 2 && lines[i]@[1].text@
        == seq!['\n']
}

/// A line of one text segment and a newline.
fn text_line(text: String) -> (l: Vec<Segment>)
    ensures
        l@.len() == 2,
        l@[0].text@ == text@,
        l@[1].text@ == seq!['\n'],
{
    let mut l: Vec<Segment> = Vec::new();
    l.push(Segment::new(text.as_str()));
    l.push(Segment::line());
    l
}

/// Appends the tree drawing of `node` under `prefix`.
fn render_layout_node(node: &LayoutNode, lines: &mut Vec<Vec<Segment>>, prefix: &str)
    requires
        two_segment_lines(old(lines)@),
    ensures
        two_segment_lines(final(lines)@),
        line_texts(final(lines)@) == line_texts(old(lines)@) + tree_lines(*node, prefix@),
    decreases node, 1nat, 0nat,
{
    let mut first = owned(prefix);
    let label = node_label(node);
    push_str(&mut first, label.as_str());
    let ghost l0 = lines@;
    lines.push(text_line(first));
    assert(line_texts(lines@) =~= line_texts(l0) + seq![prefix@ + label_spec(*node)]);
    match node {
        LayoutNode::Split { children, .. } => {
            let n = children.len();
            let ghost base = line_texts(lines@);
            let mut i: usize = 0;
            while i < n
                invariant
                    i <= n,
                    n == children@.len(),
                    *node is Split,
                    *children == (*node)->children,
                    two_segment_lines(lines@),
                    base + child_lines(*node, prefix@, 0) == line_texts(lines@) + child_lines(*node, prefix@, i as nat),
                decreases n - i,
            {
                proof {
                    vstd::std_specs::vec::axiom_vec_index_decreases(*children, i as int);
                    assert(decreases_to!(*node => (*node)->children));
                }
                let last = i + 1 == n;
                let mut child_line = owned(prefix);
                let mut deeper = owned(prefix);
                if last {
                    push_str(&mut child_line, "└── ");
                    push_str(&mut deeper, "    ");
                } else {
                    push_str(&mut child_line, "├── ");
                    push_str(&mut deeper, "│   ");
                }
                let cl = node_label(&children[i]);
                push_str(&mut child_line, cl.as_str());
                let ghost l1 = lines@;
                lines.push(text_line(child_line));
                assert(line_texts(lines@) =~= line_texts(l1).push(child_line@));
                render_layout_node(&children[i], lines, deeper.as_str());
                i = i + 1;
                assert(line_texts(lines@) + child_lines(*node, prefix@, i as nat) =~= line_texts(l1)
                    + child_lines(*node, prefix@, (i - 1) as nat));
            }
            assert(line_texts(lines@) =~= base + child_lines(*node, prefix@, 0));
        },
        _ => {},
    }
}

/// What `LayoutRender` draws: the tree of a layout.
#[derive(Debug, Clone)]
pub struct LayoutSnapshot {
    /// The tree.
    pub root: LayoutNode,
    /// Whether the layout is shown.
    pub visible: bool,
    /// The smallest size of a region.
    pub minimum_size: usize,
}

impl LayoutSnapshot {
    /// A snapshot of `layout`'s tree and settings.
    pub fn from_layout(layout: &Layout) -> (s: Self)
        ensures
            s.visible == layout.visible,
            s.minimum_size == layout.minimum_size,
    {
        LayoutSnapshot { root: layout.root.clone(), visible: layout.visible, minimum_size: layout.minimum_size }
    }
}

/// A renderable drawing a layout's tree, for debugging layouts.
#[derive(Debug, Clone)]
pub struct LayoutRender {
    /// The layout drawn.
    pub layout: LayoutSnapshot,
}

impl LayoutRender {
    /// Draws `layout`.
    pub fn new(layout: &Layout) -> (r: Self)
        ensures
            r.layout.visible == layout.visible,
            r.layout.minimum_size == layout.minimum_size,
    {
        LayoutRender { layout: LayoutSnapshot::from_layout(layout) }
    }

    /// Draws the tree of `snapshot`.
    pub fn from_snapshot(snapshot: LayoutSnapshot) -> (r: Self)
        ensures
            r.layout == snapshot,
    {
        LayoutRender { layout: snapshot }
    }

    /// The lines of the drawing: one per node label, as `tree_lines` gives
    /// them, each followed by a newline.
    pub fn tree_lines(&self) -> (lines: Vec<Vec<Segment>>)
        ensures
            two_segment_lines(lines@),
            line_texts(lines@) == tree_lines(self.layout.root, seq![]),
    {
        let mut lines: Vec<Vec<Segment>> = Vec::new();
        proof {
            reveal_strlit("");
        }
        assert(""@ =~= Seq::<char>::empty());
        render_layout_node(&self.layout.root, &mut lines, "");
        assert(line_texts(Seq::<Vec<Segment>>::empty()) =~= Seq::<Seq<char>>::empty());
        assert(line_texts(lines@) =~= tree_lines(self.layout.root, seq![]));
        lines
    }
}

impl Renderable for LayoutRender {
    fn measure(&self, options: &ConsoleOptions) -> Option<crate::measure::Measurement> {
        None
    }

    /// The tree of the layout's nodes, one line each.
    open spec fn renders(&self, options: ConsoleOptions, r: RenderResult) -> bool {
        &&& r.items@.len() == 0
        &&& two_segment_lines(r.lines@)
        &&& line_texts(r.lines@) == tree_lines(self.layout.root, seq![])
    }

    fn render(&self, options: &ConsoleOptions) -> (r: RenderResult) {
        RenderResult { lines: self.tree_lines(), items: Vec::new() }
    }
}

/// A drawing of the layout of `root`.
pub fn make_layout(root: LayoutNode) -> (r: LayoutRender)
    ensures
        r.layout.root == root,
        r.layout.visible,
        r.layout.minimum_size == 1,
{
    LayoutRender::from_snapshot(LayoutSnapshot { root, visible: true, minimum_size: 1 })
}

/// The first position of `name` in `names`, when it occurs there.
pub open spec fn first_index(names: Seq<Seq<char>>, name: Seq<char>) -> int {
    choose|i: int| 0 <= i < names.len() && names[i] == name && forall|j: int| 0 <= j < i ==> names[j] != name
}

/// A position of `name` with no earlier one is its first position.
proof fn lemma_first_index(names: Seq<Seq<char>>, name: Seq<char>, i: int)
    requires
        0 <= i < names.len(),
        names[i] == name,
        forall|j: int| 0 <= j < i ==> names[j] != name,
    ensures
        first_index(names, name) == i,
{
    let c = first_index(names, name);
    assert(0 <= c < names.len() && names[c] == name && forall|j: int| 0 <= j < c ==> names[j] != name);
    if c < i {
        assert(names[c] != name);
    }
    if i < c {
        assert(names[i] != name);
    }
}

} // verus!
