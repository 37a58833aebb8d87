//! Trees of values drawn with indentation, and reading a value's
//! pretty-printed `Debug` form into such a tree.

use vstd::prelude::*;
use crate::console::{Console, ConsoleOptions, RenderResult, Renderable};
use crate::log_render::{trim, trim_ws};
use crate::panel::{SegLine, lines_views, newline, plain};
use crate::columns::seg_views;
use crate::segment::Segment;
use crate::strutil::{chars_of, decimal_chars, lines_spec, owned, push_decimal, push_str, split_lines};
use crate::text::Text;
use crate::json::JsonValue;

verus! {

/// A value in a tree: an optional key, an optional value, and children.
#[derive(Debug)]
pub struct Node {
    /// The key, for an entry of a map or a field.
    pub key: Option<String>,
    /// The value, for a leaf.
    pub value: Option<String>,
    /// The entries of a container.
    pub children: Vec<Node>,
    /// Whether the node is a container.
    pub is_container: bool,
    /// Whether the node is a sequence.
    pub is_iter: bool,
    /// Whether the node is a map.
    pub is_mapping: bool,
    /// Whether the node is a set of named fields.
    pub is_attrs: bool,
    /// What opens the container.
    pub open_brace: String,
    /// What closes the container.
    pub close_brace: String,
    /// What an empty container shows.
    pub empty: String,
    /// Whether the node is the last of its siblings.
    pub last: bool,
}

impl Node {
    /// A leaf with the given key and value, braces `(` and `)`.
    pub fn new(key: Option<String>, value: Option<String>) -> (n: Self)
        ensures
            n.key == key,
            n.value == value,
            n.children@.len() == 0,
            !n.is_container && !n.is_iter && !n.is_mapping && !n.is_attrs,
            n.open_brace@ == "("@,
            n.close_brace@ == ")"@,
            n.empty@.len() == 0,
            n.last,
    {
        Node {
            key,
            value,
            children: Vec::new(),
            is_container: false,
            is_iter: false,
            is_mapping: false,
            is_attrs: false,
            open_brace: owned("("),
            close_brace: owned(")"),
            empty: String::new(),
            last: true,
        }
    }

    /// Adds a child after the others.
    pub fn add_child(&mut self, child: Node)
        ensures
            final(self).children@ == old(self).children@.push(child),
            final(self).key == old(self).key,
            final(self).value == old(self).value,
            final(self).open_brace == old(self).open_brace,
            final(self).close_brace == old(self).close_brace,
    {
        self.children.push(child);
    }
}

/// A tree of values drawn with indentation.
#[derive(Debug)]
pub struct Pretty {
    /// The tree.
    pub node: Node,
    /// Whether guide lines mark the indentation.
    pub indent_guides: bool,
    /// The depth below which nodes are shown as `...`.
    pub max_depth: Option<usize>,
    /// The longest value shown in full.
    pub max_string: Option<usize>,
    /// The most children shown of a container.
    pub max_length: Option<usize>,
    /// Whether every level is shown whatever the depth limit.
    pub expand_all: bool,
}

/// A key and `: `, or nothing.
pub open spec fn key_part(key: Option<String>) -> Seq<char> {
    match key {
        Some(k) => k@ + seq![':', ' '],
        None => seq![],
    }
}

/// A leaf's value as shown: cut to `max_string` characters with `...`
/// after when longer; nothing when there is no value.
pub open spec fn value_part(max_string: Option<usize>, value: Option<String>) -> Seq<char> {
    match value {
        Some(v) => match max_string {
            Some(m) => if v@.len() > m {
                v@.take(m as int) + seq!['.', '.', '.']
            } else {
                v@
            },
            None => v@,
        },
        None => seq![],
    }
}

/// The indentation of a child: a guide when guides are on, the child is
/// not the last, and more than ASCII may be drawn; else four spaces.
pub open spec fn child_indent(p: Pretty, ascii: bool, last: bool) -> Seq<char> {
    if p.indent_guides && !last && !ascii {
        seq!['│', ' ', ' ', ' ']
    } else {
        seq![' ', ' ', ' ', ' ']
    }
}

/// The lines drawing `node` under `prefix` at `depth`.
pub open spec fn node_lines(p: Pretty, ascii: bool, node: Node, prefix: Seq<char>, depth: nat) -> Seq<SegLine>
    decreases node, 1nat, 0nat,
{
    if p.max_depth is Some && depth > p.max_depth->0 && !p.expand_all {
        seq![seq![plain(prefix), plain(seq!['.', '.', '.']), newline()]]
    } else {
        let head = prefix + key_part(node.key);
        if node.children@.len() == 0 {
            seq![seq![plain(head + value_part(p.max_string, node.value)), newline()]]
        } else {
            seq![seq![plain(head + node.open_brace@), newline()]] + children_lines(p, ascii, node, prefix, depth, 0)
                + seq![seq![plain(prefix + node.close_brace@), newline()]]
        }
    }
}

/// The lines drawing the children of `node` from `i` on.
pub open spec fn children_lines(p: Pretty, ascii: bool, node: Node, prefix: Seq<char>, depth: nat, i: nat) -> Seq<SegLine>
    decreases node, 0nat, node.children@.len() - i,
{
    let n = node.children@.len();
    if i >= n {
        seq![]
    } else if p.max_length is Some && i >= p.max_length->0 {
        seq![
            seq![
                plain(prefix + seq![' ', ' ', ' ', ' '] + "... ("@ + decimal_chars((n - p.max_length->0) as nat) + " more)"@),
                newline(),
            ],
        ]
    } else {
        let child_prefix = if p.indent_guides && i + 1 < n {
            prefix + child_indent(p, ascii, false)
        } else {
            prefix + seq![' ', ' ', ' ', ' ']
        };
        node_lines(p, ascii, node.children@[i as int], child_prefix, depth + 1) + children_lines(
            p,
            ascii,
            node,
            prefix,
            depth,
            i + 1,
        )
    }
}

/// A line of plain texts and a newline.
fn text_line(parts: &[&str]) -> (l: Vec<Segment>)
    ensures
        seg_views(l@) == parts@.map_values(|s: &str| plain(s@)).push(newline()),
{
    let mut l: Vec<Segment> = Vec::new();
    let mut i: usize = 0;
    while i < parts.len()
        invariant
            i <= parts@.len(),
            seg_views(l@) == parts@.map_values(|s: &str| plain(s@)).take(i as int),
        decreases parts.len() - i,
    {
        let ghost b = seg_views(l@);
        l.push(Segment::new(parts[i]));
        assert(seg_views(l@) =~= b.push(plain(parts@[i as int]@)));
        i = i + 1;
        assert(seg_views(l@) =~= parts@.map_values(|s: &str| plain(s@)).take(i as int));
    }
    let ghost b = seg_views(l@);
    l.push(Segment::line());
    assert(seg_views(l@) =~= b.push(newline()));
    assert(parts@.map_values(|s: &str| plain(s@)).take(parts@.len() as int) =~= parts@.map_values(
        |s: &str| plain(s@),
    ));
    l
}

impl Pretty {
    /// The tree drawn with guides, no limits.
    pub fn new(node: Node) -> (p: Self)
        ensures
            p.node == node,
            p.indent_guides,
            p.max_depth is None && p.max_string is None && p.max_length is None,
            !p.expand_all,
    {
        Pretty { node, indent_guides: true, max_depth: None, max_string: None, max_length: None, expand_all: false }
    }

    /// With guides on or off.
    pub fn indent_guides(self, value: bool) -> (p: Self)
        ensures
            p == (Pretty { indent_guides: value, ..self }),
    {
        Pretty { indent_guides: value, ..self }
    }

    /// Showing nodes deeper than `depth` as `...`.
    pub fn max_depth(self, depth: usize) -> (p: Self)
        ensures
            p == (Pretty { max_depth: Some(depth), ..self }),
    {
        Pretty { max_depth: Some(depth), ..self }
    }

    /// Cutting values longer than `max` characters.
    pub fn max_string(self, max: usize) -> (p: Self)
        ensures
            p == (Pretty { max_string: Some(max), ..self }),
    {
        Pretty { max_string: Some(max), ..self }
    }

    /// Showing at most `max` children of a container.
    pub fn max_length(self, max: usize) -> (p: Self)
        ensures
            p == (Pretty { max_length: Some(max), ..self }),
    {
        Pretty { max_length: Some(max), ..self }
    }

    /// Showing every level.
    pub fn expand_all(self) -> (p: Self)
        ensures
            p == (Pretty { expand_all: true, ..self }),
    {
        Pretty { expand_all: true, ..self }
    }

    /// The tree read from the pretty `Debug` form of `value`.
    pub fn from_debug(value: &dyn std::fmt::Debug) -> (p: Self)
        ensures
            p.indent_guides,
            p.max_depth is None && p.max_string is None && p.max_length is None,
    {
        let s = pretty_debug(value);
        Pretty::new(parse_debug_to_node(s.as_str()))
    }

    /// Appends the lines drawing `node` under `prefix` at `depth`.
    pub fn render_node(&self, node: &Node, lines: &mut Vec<Vec<Segment>>, prefix: &str, depth: usize, ascii: bool)
        requires
            depth + node_height(*node) <= usize::MAX,
        ensures
            lines_views(final(lines)@) == lines_views(old(lines)@) + node_lines(*self, ascii, *node, prefix@, depth as nat),
        decreases node, 1nat, 0nat,
    {
        let ghost l0 = lines_views(lines@);
        match self.max_depth {
            Some(m) => {
                if depth > m && !self.expand_all {
                    proof {
                        reveal_strlit("...");
                        assert("..."@ =~= seq!['.', '.', '.']);
                    }
                    let l = text_line(&[prefix, "..."]);
                    let ghost lv = seg_views(l@);
                    lines.push(l);
                    assert(lines_views(lines@) =~= l0.push(lv));
                    assert(lv =~= seq![plain(prefix@), plain(seq!['.', '.', '.']), newline()]);
                    return;
                }
            },
            None => {},
        }
        let mut head = owned(prefix);
        match &node.key {
            Some(k) => {
                push_str(&mut head, k.as_str());
                push_str(&mut head, ": ");
                proof {
                    reveal_strlit(": ");
                }
            },
            None => {},
        }
        assert(head@ =~= prefix@ + key_part(node.key));
        if node.children.len() == 0 {
            match &node.value {
                Some(v) => {
                    let cut = match self.max_string {
                        Some(m) => {
                            let cs = chars_of(v.as_str());
                            if cs.len() > m {
                                let mut t = String::new();
                                let mut k: usize = 0;
                                while k < m
                                    invariant
                                        k <= m,
                                        m < cs@.len(),
                                        t@ == cs@.take(k as int),
                                    decreases m - k,
                                {
                                    crate::strutil::push_char(&mut t, cs[k]);
                                    k = k + 1;
                                    assert(t@ =~= cs@.take(k as int));
                                }
                                push_str(&mut t, "...");
                                proof {
                                    reveal_strlit("...");
                                }
                                t
                            } else {
                                v.clone()
                            }
                        },
                        None => v.clone(),
                    };
                    assert(cut@ =~= value_part(self.max_string, node.value));
                    push_str(&mut head, cut.as_str());
                },
                None => {},
            }
            let l = text_line(&[head.as_str()]);
            let ghost lv = seg_views(l@);
            lines.push(l);
            assert(lines_views(lines@) =~= l0.push(lv));
            assert(lv =~= seq![plain(prefix@ + key_part(node.key) + value_part(self.max_string, node.value)), newline()]);
            return;
        }
        push_str(&mut head, node.open_brace.as_str());
        let l = text_line(&[head.as_str()]);
        let ghost lv = seg_views(l@);
        lines.push(l);
        assert(lines_views(lines@) =~= l0.push(lv));
        assert(lv =~= seq![plain(prefix@ + key_part(node.key) + node.open_brace@), newline()]);
        let ghost base = lines_views(lines@);
        let n = node.children.len();
        let mut i: usize = 0;
        let guide = if self.indent_guides && !ascii {
            "│   "
        } else {
            "    "
        };
        proof {
            reveal_strlit("│   ");
            reveal_strlit("    ");
            reveal_strlit("... (");
            reveal_strlit(" more)");
        }
        while i < n
            invariant
                i <= n,
                n == node.children@.len(),
                depth + node_height(*node) <= usize::MAX,
                guide@ == child_indent(*self, ascii, false),
                "    "@ == seq![' ', ' ', ' ', ' '],
                base + children_lines(*self, ascii, *node, prefix@, depth as nat, 0) == lines_views(lines@)
                    + children_lines(*self, ascii, *node, prefix@, depth as nat, i as nat),
            decreases n - i,
        {
            proof {
                vstd::std_specs::vec::axiom_vec_index_decreases(node.children, i as int);
                assert(decreases_to!(*node => node.children));
            }
            let ghost lb = lines_views(lines@);
            let over = match self.max_length {
                Some(m) => i >= m,
                None => false,
            };
            if over {
                proof {
                    reveal_strlit("... (");
                    reveal_strlit(" more)");
                }
                let m = match self.max_length {
                    Some(m) => m,
                    None => 0,
                };
                let mut t = owned(prefix);
                push_str(&mut t, "    ");
                push_str(&mut t, "... (");
                push_decimal(&mut t, (n - m) as u64);
                push_str(&mut t, " more)");
                assert(t@ =~= prefix@ + seq![' ', ' ', ' ', ' '] + "... ("@ + decimal_chars((n - m) as nat) + " more)"@);
                let l = text_line(&[t.as_str()]);
                let ghost lv = seg_views(l@);
                assert(lv =~= seq![plain(t@), newline()]);
                lines.push(l);
                assert(lines_views(lines@) =~= lb.push(lv));
                assert(children_lines(*self, ascii, *node, prefix@, depth as nat, i as nat) == seq![lv]);
                assert(children_lines(*self, ascii, *node, prefix@, depth as nat, n as nat) =~= Seq::<SegLine>::empty());
                assert(lines_views(lines@) + children_lines(*self, ascii, *node, prefix@, depth as nat, n as nat)
                    =~= lb + children_lines(*self, ascii, *node, prefix@, depth as nat, i as nat));
                i = n;
            } else {
            let mut cp = owned(prefix);
            if self.indent_guides && i + 1 < n {
                push_str(&mut cp, guide);
            } else {
                push_str(&mut cp, "    ");
            }
            proof {
                lemma_child_height(*node, i as int);
            }
            self.render_node(&node.children[i], lines, cp.as_str(), depth + 1, ascii);
            i = i + 1;
            assert(lines_views(lines@) + children_lines(*self, ascii, *node, prefix@, depth as nat, i as nat)
                =~= lb + children_lines(*self, ascii, *node, prefix@, depth as nat, (i - 1) as nat));
            }
        }
        assert(children_lines(*self, ascii, *node, prefix@, depth as nat, i as nat) =~= Seq::<SegLine>::empty());
        assert(lines_views(lines@) =~= base + children_lines(*self, ascii, *node, prefix@, depth as nat, 0));
        let mut close = owned(prefix);
        push_str(&mut close, node.close_brace.as_str());
        let l = text_line(&[close.as_str()]);
        let ghost lv = seg_views(l@);
        assert(lv =~= seq![plain(prefix@ + node.close_brace@), newline()]);
        let ghost lc = lines_views(lines@);
        lines.push(l);
        assert(lines_views(lines@) =~= lc.push(lv));
        assert(lines_views(lines@) =~= l0 + node_lines(*self, ascii, *node, prefix@, depth as nat));
    }
}

/// How deep a tree goes: 0 for a leaf.
pub open spec fn node_height(node: Node) -> nat
    decreases node, 1nat, 0nat,
{
    if node.children@.len() == 0 {
        0
    } else {
        1 + children_height(node, 0)
    }
}

/// The deepest of the children of `node` from `i` on.
pub open spec fn children_height(node: Node, i: nat) -> nat
    decreases node, 0nat, node.children@.len() - i,
{
    if i >= node.children@.len() {
        0
    } else {
        let h = node_height(node.children@[i as int]);
        let rest = children_height(node, i + 1);
        if h > rest {
            h
        } else {
            rest
        }
    }
}

/// A child is at least one level less deep than its parent.
proof fn lemma_child_height(node: Node, i: int)
    requires
        0 <= i < node.children@.len(),
    ensures
        node_height(node.children@[i]) + 1 <= node_height(node),
{
    lemma_children_height(node, 0, i);
}

/// `children_height` from `j` is at least the height of child `i >= j`.
proof fn lemma_children_height(node: Node, j: nat, i: int)
    requires
        j <= i < node.children@.len(),
    ensures
        node_height(node.children@[i]) <= children_height(node, j),
    decreases node.children@.len() - j,
{
    if j < i {
        lemma_children_height(node, j + 1, i);
    }
}

/// The pretty `Debug` form of a value.
#[verifier::external_body]
fn pretty_debug(value: &dyn std::fmt::Debug) -> (s: String) {
    format!("{:#?}", value)
}

/// Where `: ` first occurs in `s`, if it does.
pub open spec fn find_colon(s: Seq<char>, i: nat) -> Option<nat>
    decreases s.len() - i,
{
    if i + 1 >= s.len() {
        None
    } else if s[i as int] == ':' && s[i + 1int] == ' ' {
        Some(i)
    } else {
        find_colon(s, i + 1)
    }
}

/// The child read from a line of a `Debug` form (already trimmed): a
/// key and value split at the first `: `, each trimmed; or just a value.
pub open spec fn child_of(t: Seq<char>) -> (Option<Seq<char>>, Seq<char>) {
    match find_colon(t, 0) {
        Some(k) => (Some(trim_ws(t.take(k as int))), trim_ws(t.skip(k + 2int))),
        None => (None, t),
    }
}

/// The children read from the lines after the first, skipping blank lines
/// and the closing brace.
pub open spec fn children_of(lines: Seq<Seq<char>>, close: Seq<char>, k: nat) -> Seq<(Option<Seq<char>>, Seq<char>)>
    decreases k,
{
    if k <= 1 || k > lines.len() {
        seq![]
    } else {
        let t = trim_ws(lines[k - 1]);
        children_of(lines, close, (k - 1) as nat) + (if t.len() == 0 || t == close {
            seq![]
        } else {
            seq![child_of(t)]
        })
    }
}

/// The braces of a `Debug` form by its first character.
pub open spec fn braces_of(trimmed: Seq<char>) -> (Seq<char>, Seq<char>) {
    if trimmed.len() > 0 && trimmed[0] == '{' {
        (seq!['{'], seq!['}'])
    } else if trimmed.len() > 0 && trimmed[0] == '[' {
        (seq!['['], seq![']'])
    } else {
        (seq!['('], seq![')'])
    }
}

/// The view of a leaf read from a line: key and value.
pub open spec fn leaf_view(n: Node) -> (Option<Seq<char>>, Seq<char>) {
    (
        match n.key {
            Some(k) => Some(k@),
            None => None,
        },
        match n.value {
            Some(v) => v@,
            None => seq![],
        },
    )
}

/// Where `: ` first occurs in `cs` at or after `i`.
fn find_colon_exec(cs: &Vec<char>) -> (r: Option<usize>)
    ensures
        match r {
            Some(k) => find_colon(cs@, 0) == Some(k as nat) && k + 1 < cs@.len(),
            None => find_colon(cs@, 0) is None,
        },
{
    let mut i: usize = 0;
    while i < cs.len() && i + 1 < cs.len()
        invariant
            i <= cs@.len(),
            find_colon(cs@, 0) == find_colon(cs@, i as nat),
        decreases cs.len() - i,
    {
        if cs[i] == ':' && cs[i + 1] == ' ' {
            return Some(i);
        }
        i = i + 1;
    }
    None
}

/// The characters `from..to` of `cs`.
fn slice(cs: &Vec<char>, from: usize, to: usize) -> (s: String)
    requires
        from <= to <= cs@.len(),
    ensures
        s@ == cs@.subrange(from as int, to as int),
{
    let mut s = String::new();
    let mut k: usize = from;
    while k < to
        invariant
            from <= k <= to <= cs@.len(),
            s@ == cs@.subrange(from as int, k as int),
        decreases to - k,
    {
        crate::strutil::push_char(&mut s, cs[k]);
        k = k + 1;
        assert(s@ =~= cs@.subrange(from as int, k as int));
    }
    s
}

/// Whether `n` is neither an iterable, a mapping nor an attribute holder,
/// with no empty marker and marked last.
pub open spec fn plain_flags(n: Node) -> bool {
    !n.is_iter && !n.is_mapping && !n.is_attrs && n.empty@.len() == 0 && n.last
}

/// Whether `n` is a fresh leaf: no children, not a container, plain flags
/// and the default round braces.
pub open spec fn fresh_leaf(n: Node) -> bool {
    &&& n.children@.len() == 0
    &&& !n.is_container
    &&& plain_flags(n)
    &&& n.open_brace@ == "("@ && n.close_brace@ == ")"@
    &&& n.value is Some
}

/// Whether `n` is the tree read from the pretty `Debug` text `debug`: a
/// leaf of its one line (trimmed), an empty leaf when there is no line, or
/// a container with the braces of the text (by its first character) and a
/// leaf child for each inner line (a key and value split at `: `, or a
/// value), blank lines and the closing brace skipped.
pub open spec fn debug_node(debug: Seq<char>, n: Node) -> bool {
    let ls = lines_spec(debug);
    if ls.len() == 0 {
        leaf_view(n) == (None::<Seq<char>>, Seq::<char>::empty()) && fresh_leaf(n)
    } else if ls.len() == 1 {
        leaf_view(n) == (None::<Seq<char>>, trim_ws(ls[0])) && fresh_leaf(n)
    } else {
        let br = braces_of(trim_ws(debug));
        &&& n.key is None && n.value is None
        &&& n.is_container
        &&& plain_flags(n)
        &&& n.open_brace@ == br.0 && n.close_brace@ == br.1
        &&& n.children@.map_values(|c: Node| leaf_view(c)) == children_of(ls, br.1, ls.len())
        &&& forall|i: int| 0 <= i < n.children@.len() ==> fresh_leaf(#[trigger] n.children@[i])
    }
}

pub fn parse_debug_to_node(debug: &str) -> (n: Node)
    ensures
        debug_node(debug@, n),
{
    let lines = split_lines(debug);
    let ghost ls = lines@.map_values(|l: String| l@);
    if lines.len() == 0 {
        return Node::new(None, Some(String::new()));
    }
    if lines.len() == 1 {
        let t = trim(lines[0].as_str());
        return Node::new(None, Some(t));
    }
    let whole = trim(debug);
    let wc = chars_of(whole.as_str());
    let (open, close) = if wc.len() > 0 && wc[0] == '{' {
        ("{", "}")
    } else if wc.len() > 0 && wc[0] == '[' {
        ("[", "]")
    } else {
        ("(", ")")
    };
    proof {
        reveal_strlit("{");
        reveal_strlit("}");
        reveal_strlit("[");
        reveal_strlit("]");
        reveal_strlit("(");
        reveal_strlit(")");
    }
    let mut node = Node::new(None, None);
    node.open_brace = owned(open);
    node.close_brace = owned(close);
    node.is_container = true;
    let ghost br = braces_of(trim_ws(debug@));
    assert(node.close_brace@ == br.1);
    let mut k: usize = 1;
    assert(node.children@.map_values(|c: Node| leaf_view(c)) =~= children_of(ls, br.1, 1));
    while k < lines.len()
        invariant
            1 <= k <= lines@.len(),
            ls == lines@.map_values(|l: String| l@),
            node.close_brace@ == br.1,
            node.key is None && node.value is None && node.is_container,
            node.open_brace@ == br.0,
            plain_flags(node),
            node.children@.map_values(|c: Node| leaf_view(c)) == children_of(ls, br.1, k as nat),
            forall|i: int| 0 <= i < node.children@.len() ==> fresh_leaf(#[trigger] node.children@[i]),
        decreases lines.len() - k,
    {
        let t = trim(lines[k].as_str());
        let tc = chars_of(t.as_str());
        let ghost before = node.children@.map_values(|c: Node| leaf_view(c));
        if tc.len() == 0 || crate::strutil::str_eq(t.as_str(), node.close_brace.as_str()) {
            k = k + 1;
            assert(node.children@.map_values(|c: Node| leaf_view(c)) =~= children_of(ls, br.1, k as nat));
        } else {
            let child = match find_colon_exec(&tc) {
                Some(idx) => {
                    let key = trim(slice(&tc, 0, idx).as_str());
                    let value = trim(slice(&tc, idx + 2, tc.len()).as_str());
                    assert(tc@.subrange(0, idx as int) =~= tc@.take(idx as int));
                    assert(tc@.subrange(idx + 2, tc@.len() as int) =~= tc@.skip(idx + 2));
                    Node::new(Some(key), Some(value))
                },
                None => Node::new(None, Some(t)),
            };
            let ghost cv = leaf_view(child);
            assert(cv == child_of(trim_ws(ls[k as int])));
            node.children.push(child);
            assert(node.children@.map_values(|c: Node| leaf_view(c)) =~= before.push(cv));
            k = k + 1;
            assert(node.children@.map_values(|c: Node| leaf_view(c)) =~= children_of(ls, br.1, k as nat));
        }
    }
    node
}

impl Renderable for Pretty {
    fn measure(&self, options: &ConsoleOptions) -> Option<crate::measure::Measurement> {
        None
    }

    open spec fn renders(&self, options: ConsoleOptions, r: RenderResult) -> bool {
        &&& r.items@.len() == 0
        &&& node_height(self.node) < usize::MAX ==> lines_views(r.lines@) == node_lines(
                *self,
                options.ascii_only,
                self.node,
                seq![],
                0,
            )
        &&& node_height(self.node) >= usize::MAX ==> r.lines@.len() == 0
    }

    fn render(&self, options: &ConsoleOptions) -> (r: RenderResult) {
        let mut lines: Vec<Vec<Segment>> = Vec::new();
        proof {
            reveal_strlit("");
            assert(""@ =~= Seq::<char>::empty());
        }
        if tree_height(&self.node) < usize::MAX {
            self.render_node(&self.node, &mut lines, "", 0, options.ascii_only);
            assert(lines_views(Seq::<Vec<Segment>>::empty()) =~= Seq::<SegLine>::empty());
            assert(lines_views(lines@) =~= node_lines(*self, options.ascii_only, self.node, seq![], 0));
        }
        RenderResult::from_lines(lines)
    }
}

/// How deep `node` goes, or `usize::MAX` when deeper.
fn tree_height(node: &Node) -> (h: usize)
    ensures
        h < usize::MAX ==> h == node_height(*node),
        h == usize::MAX ==> node_height(*node) >= usize::MAX,
    decreases node, 1nat, 0nat,
{
    if node.children.len() == 0 {
        return 0;
    }
    let mut best: usize = 0;
    let mut i: usize = 0;
    let n = node.children.len();
    while i < n
        invariant
            i <= n,
            n == node.children@.len(),
            best < usize::MAX,
            children_height(*node, 0) == max_nat(best as nat, children_height(*node, i as nat)),
        decreases n - i,
    {
        proof {
            vstd::std_specs::vec::axiom_vec_index_decreases(node.children, i as int);
            assert(decreases_to!(*node => node.children));
        }
        let h = tree_height(&node.children[i]);
        if h == usize::MAX {
            proof {
                lemma_children_height(*node, 0, i as int);
            }
            return usize::MAX;
        }
        if h > best {
            best = h;
        }
        i = i + 1;
    }
    if best == usize::MAX - 1 {
        return usize::MAX;
    }
    best + 1
}

/// The larger of two numbers.
pub open spec fn max_nat(a: nat, b: nat) -> nat {
    if a > b {
        a
    } else {
        b
    }
}

/// Does nothing: values already print through `Debug`.
pub fn install() {
}

/// Prints the tree of `value`'s pretty `Debug` form to `console`.
pub fn pprint(value: &dyn std::fmt::Debug, console: &mut Console)
    ensures
        old(console).quiet ==> *final(console) == *old(console),
        crate::console::same_settings(*old(console), *final(console)),
        !old(console).quiet ==> exists|res: RenderResult|
            crate::console::wrote(
                *old(console),
                *final(console),
                crate::segment::segments_ansi(#[trigger] crate::console::result_segments(res)) + seq!['\n'],
            ),
{
    let p = Pretty::from_debug(value);
    console.println(&p);
}

/// A text holding `value`'s pretty `Debug` form.
pub fn pretty_repr(value: &dyn std::fmt::Debug) -> (t: Text)
    ensures
        t.spans@.len() == 0,
        t.style == crate::style::empty_style(),
{
    let mut t = Text::new("");
    t.plain = pretty_debug(value);
    t
}

/// The tree read from `value`'s pretty `Debug` form.
pub fn traverse(value: &dyn std::fmt::Debug) -> (n: Node)
    ensures
        exists|s: Seq<char>| #[trigger] debug_node(s, n),
{
    let s = pretty_debug(value);
    parse_debug_to_node(s.as_str())
}

/// The view of an optional string.
pub open spec fn opt_chars(o: Option<String>) -> Option<Seq<char>> {
    match o {
        Some(s) => Some(s@),
        None => None,
    }
}

/// Whether `n` is a leaf showing `text`, as `Node::new` makes one.
pub open spec fn json_leaf(n: Node, text: Seq<char>) -> bool {
    &&& n.value matches Some(x) && x@ == text
    &&& n.children@.len() == 0
    &&& !n.is_container && !n.is_iter && !n.is_mapping && !n.is_attrs
    &&& n.open_brace@ == "("@ && n.close_brace@ == ")"@ && n.empty@.len() == 0
    &&& n.last
}

/// Whether `n` is a container with the given braces and its empty form.
pub open spec fn json_container(n: Node, open: Seq<char>, close: Seq<char>, empty: Seq<char>, iter: bool) -> bool {
    &&& n.value is None
    &&& n.is_container && n.is_iter == iter && n.is_mapping == !iter && !n.is_attrs
    &&& n.open_brace@ == open && n.close_brace@ == close && n.empty@ == empty
    &&& n.last
}

/// Whether `n` is the tree of JSON value `v` under `key`: scalars as
/// leaves (a string quoted), an array as a `[...]` container of its items,
/// an object as a `{...}` container of its values under their keys.
pub open spec fn json_node(n: Node, v: JsonValue, key: Option<Seq<char>>) -> bool
    decreases v, 1nat, 0nat,
{
    &&& opt_chars(n.key) == key
    &&& match v {
        JsonValue::Null => json_leaf(n, "null"@),
        JsonValue::Bool(b) => json_leaf(n, if b { "true"@ } else { "false"@ }),
        JsonValue::Number(x) => json_leaf(n, x@),
        JsonValue::String(x) => json_leaf(n, seq!['"'] + x@ + seq!['"']),
        JsonValue::Array(items) => json_container(n, "["@, "]"@, "[]"@, true) && n.children@.len()
            == items@.len() && json_children(n.children@, v, items@.len()),
        JsonValue::Object(entries) => json_container(n, "{"@, "}"@, "{}"@, false) && n.children@.len()
            == entries@.len() && json_children(n.children@, v, entries@.len()),
    }
}

/// Whether the first `k` of `cs` are the trees of the first `k` items of
/// array or object `v`.
pub open spec fn json_children(cs: Seq<Node>, v: JsonValue, k: nat) -> bool
    decreases v, 0nat, k,
{
    if k == 0 {
        true
    } else {
        json_children(cs, v, (k - 1) as nat) && match v {
            JsonValue::Array(items) => k <= items@.len() && json_node(cs[k - 1], items@[k - 1], None),
            JsonValue::Object(entries) => k <= entries@.len() && json_node(
                cs[k - 1],
                entries@[k - 1].1,
                Some(entries@[k - 1].0@),
            ),
            _ => false,
        }
    }
}

/// The trees of a prefix do not depend on what follows it.
proof fn lemma_json_children_push(cs: Seq<Node>, x: Node, v: JsonValue, k: nat)
    requires
        k <= cs.len(),
    ensures
        json_children(cs.push(x), v, k) == json_children(cs, v, k),
    decreases k,
{
    if k > 0 {
        lemma_json_children_push(cs, x, v, (k - 1) as nat);
        assert(cs.push(x)[k - 1] == cs[k - 1]);
    }
}

/// The tree of JSON value `value` under `key`.
pub fn json_to_node(value: &JsonValue, key: Option<String>) -> (n: Node)
    ensures
        json_node(n, *value, opt_chars(key)),
    decreases value, 1nat,
{
    proof {
        reveal_strlit("null");
        reveal_strlit("true");
        reveal_strlit("false");
    }
    match value {
        JsonValue::Null => Node::new(key, Some(owned("null"))),
        JsonValue::Bool(b) => if *b {
            Node::new(key, Some(owned("true")))
        } else {
            Node::new(key, Some(owned("false")))
        },
        JsonValue::Number(x) => Node::new(key, Some(x.clone())),
        JsonValue::String(x) => {
            let mut d = String::new();
            crate::strutil::push_char(&mut d, '"');
            push_str(&mut d, x.as_str());
            crate::strutil::push_char(&mut d, '"');
            assert(d@ =~= seq!['"'] + x@ + seq!['"']);
            Node::new(key, Some(d))
        },
        JsonValue::Array(items) => json_array_node(value, items, key),
        JsonValue::Object(entries) => json_object_node(value, entries, key),
    }
}

/// The tree of array `v`, whose items are `items`, under `key`.
fn json_array_node(v: &JsonValue, items: &Vec<JsonValue>, key: Option<String>) -> (n: Node)
    requires
        *v == JsonValue::Array(*items),
    ensures
        json_node(n, *v, opt_chars(key)),
    decreases v, 0nat,
{
    let mut node = Node::new(key, None);
    node.is_container = true;
    node.is_iter = true;
    node.open_brace = owned("[");
    node.close_brace = owned("]");
    node.empty = owned("[]");
    let mut children: Vec<Node> = Vec::new();
    let mut i: usize = 0;
    while i < items.len()
        invariant
            i <= items@.len(),
            children@.len() == i,
            *v == JsonValue::Array(*items),
            json_children(children@, *v, i as nat),
        decreases items.len() - i,
    {
        proof {
            vstd::std_specs::vec::axiom_vec_index_decreases(*items, i as int);
            assert(decreases_to!(*v => *items));
        }
        let c = json_to_node(&items[i], None);
        proof {
            lemma_json_children_push(children@, c, *v, i as nat);
        }
        children.push(c);
        i = i + 1;
    }
    node.children = children;
    node
}

/// The tree of object `v`, whose entries are `entries`, under `key`.
fn json_object_node(v: &JsonValue, entries: &Vec<(String, JsonValue)>, key: Option<String>) -> (n: Node)
    requires
        *v == JsonValue::Object(*entries),
    ensures
        json_node(n, *v, opt_chars(key)),
    decreases v, 0nat,
{
    let mut node = Node::new(key, None);
    node.is_container = true;
    node.is_mapping = true;
    node.open_brace = owned("{");
    node.close_brace = owned("}");
    node.empty = owned("{}");
    let mut children: Vec<Node> = Vec::new();
    let mut i: usize = 0;
    while i < entries.len()
        invariant
            i <= entries@.len(),
            children@.len() == i,
            *v == JsonValue::Object(*entries),
            json_children(children@, *v, i as nat),
        decreases entries.len() - i,
    {
        proof {
            vstd::std_specs::vec::axiom_vec_index_decreases(*entries, i as int);
            assert(decreases_to!(*v => *entries));
        }
        let k = entries[i].0.clone();
        let c = json_to_node(&entries[i].1, Some(k));
        proof {
            lemma_json_children_push(children@, c, *v, i as nat);
        }
        children.push(c);
        i = i + 1;
    }
    node.children = children;
    node
}

impl Pretty {
    /// The tree of JSON value `value`.
    pub fn from_json(value: &JsonValue) -> (p: Self)
        ensures
            json_node(p.node, *value, None),
            p.indent_guides,
            p.max_depth is None && p.max_string is None && p.max_length is None,
            !p.expand_all,
    {
        Pretty::new(json_to_node(value, None))
    }
}

} // verus!
