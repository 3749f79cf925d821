//! A tree of labelled nodes kept in an arena, and its rendering as coloured
//! text segments: one line per node, with box-drawing branches.
use vstd::prelude::*;
use vstd::string::*;

use crate::text::{
    byte_len, byte_prefix, byte_prefix_chars, cut_inside_char, decimal, from_chars,
    lemma_fits_iff_within, push_str, to_chars, u64_to_decimal,
};

verus! {

/// The colour a segment is printed in; `Reset` returns to the terminal's own.
#[derive(Clone, Copy, PartialEq, Eq, Structural, Debug)]
pub enum TreeColor {
    Green,
    Blue,
    Red,
    Magenta,
    White,
    Yellow,
    Cyan,
    DarkGrey,
    Reset,
}

/// A node of the tree.
#[derive(Debug)]
pub struct Node {
    parent: Option<usize>,
    children: Vec<usize>,
    prefix: Option<String>,
    count: Option<usize>,
    color: TreeColor,
    text: String,
}

/// A node as values.
pub struct NodeView {
    pub parent: Option<usize>,
    pub children: Seq<usize>,
    pub prefix: Option<Seq<char>>,
    pub count: Option<usize>,
    pub color: TreeColor,
    pub text: Seq<char>,
}

impl View for Node {
    type V = NodeView;

    closed spec fn view(&self) -> NodeView {
        NodeView {
            parent: self.parent,
            children: self.children@,
            prefix: match self.prefix {
                Some(p) => Some(p@),
                None => None,
            },
            count: self.count,
            color: self.color,
            text: self.text@,
        }
    }
}

/// A printed piece of text and its colour.
pub type Segment = (TreeColor, Seq<char>);

/// The nodes of a tree, addressed by their index.
#[derive(Debug)]
pub struct Arena {
    nodes: Vec<Node>,
}

/// The parent and the children of `n` are below `len`.
pub open spec fn node_links(len: nat, n: NodeView) -> bool {
    &&& (n.parent matches Some(p) ==> p < len)
    &&& forall|j: int| 0 <= j < n.children.len() ==> #[trigger] n.children[j] < len
}

/// Every parent and child index names a node.
pub open spec fn links_in_range(ns: Seq<NodeView>) -> bool {
    forall|i: int| 0 <= i < ns.len() ==> node_links(ns.len(), #[trigger] ns[i])
}

/// The branch and the continuation drawn before a node at `level`.
pub open spec fn glyphs(level: nat, is_last: bool) -> (Seq<char>, Seq<char>) {
    if level == 1 {
        if is_last {
            ("└──"@, "   "@)
        } else {
            ("├──"@, "│  "@)
        }
    } else {
        if is_last {
            ("└─"@, "  "@)
        } else {
            ("├─"@, "│ "@)
        }
    }
}

/// The segments of the line of one node.
pub open spec fn line_segments(n: NodeView, indent: Seq<char>, is_last: bool, level: nat) -> Seq<
    Segment,
> {
    seq![(TreeColor::DarkGrey, indent + glyphs(level, is_last).0 + " "@)] + (match n.prefix {
        Some(p) => seq![(n.color, p + " "@)],
        None => Seq::empty(),
    }) + seq![(n.color, n.text)] + (match n.count {
        Some(c) => seq![(TreeColor::DarkGrey, " ["@ + decimal(c as nat) + "]"@)],
        None => Seq::empty(),
    }) + seq![(TreeColor::Reset, "\n"@)]
}

/// The segments of node `id` and its descendants, at most `fuel` levels deep.
pub open spec fn render_node(
    ns: Seq<NodeView>,
    id: int,
    indent: Seq<char>,
    is_last: bool,
    level: nat,
    fuel: nat,
) -> Seq<Segment>
    decreases fuel, 0int,
{
    if fuel == 0 || id < 0 || id >= ns.len() {
        Seq::empty()
    } else {
        let ch = ns[id].children;
        line_segments(ns[id], indent, is_last, level) + render_children(
            ns,
            ch,
            ch.len() as int,
            indent + glyphs(level, is_last).1,
            level + 1,
            (fuel - 1) as nat,
        )
    }
}

/// The segments of the first `n` children in `ch`.
pub open spec fn render_children(
    ns: Seq<NodeView>,
    ch: Seq<usize>,
    n: int,
    indent: Seq<char>,
    level: nat,
    fuel: nat,
) -> Seq<Segment>
    decreases fuel, n + 1,
{
    if n <= 0 || n > ch.len() {
        Seq::empty()
    } else {
        render_children(ns, ch, n - 1, indent, level, fuel) + render_node(
            ns,
            ch[n - 1] as int,
            indent,
            n - 1 == ch.len() - 1,
            level,
            fuel,
        )
    }
}

/// The indices of the nodes without a parent among the first `n`, in order.
pub open spec fn roots(ns: Seq<NodeView>, n: int) -> Seq<usize>
    decreases n,
{
    if n <= 0 {
        Seq::empty()
    } else if ns[n - 1].parent is None {
        roots(ns, n - 1).push((n - 1) as usize)
    } else {
        roots(ns, n - 1)
    }
}

/// The segments of the first `k` of the trees rooted at `rs`.
pub open spec fn render_roots(ns: Seq<NodeView>, rs: Seq<usize>, k: int) -> Seq<Segment>
    decreases k,
{
    if k <= 0 || k > rs.len() {
        Seq::empty()
    } else {
        render_roots(ns, rs, k - 1) + render_node(
            ns,
            rs[k - 1] as int,
            Seq::empty(),
            k - 1 == rs.len() - 1,
            0,
            ns.len(),
        )
    }
}

/// The segments of the whole forest: each tree from its root, in the order of
/// the roots. A node is rendered at most as many levels deep as there are
/// nodes, which only a cycle of children can reach.
pub open spec fn render_forest(ns: Seq<NodeView>) -> Seq<Segment> {
    let rs = roots(ns, ns.len() as int);
    render_roots(ns, rs, rs.len() as int)
}

/// The segments as values.
pub open spec fn segments_view(v: Seq<(TreeColor, String)>) -> Seq<Segment> {
    v.map_values(|s: (TreeColor, String)| (s.0, s.1@))
}

/// The first `max` bytes of `text` and "...", when `text` is longer.
pub open spec fn truncated(text: Seq<char>, max: nat) -> Seq<char> {
    if byte_len(text) > max {
        byte_prefix(text, max) + "..."@
    } else {
        text
    }
}

impl Arena {
    /// The nodes as values.
    pub closed spec fn spec_nodes(&self) -> Seq<NodeView> {
        self.nodes@.map_values(|n: Node| n@)
    }

    #[verifier::type_invariant]
    spec fn well_linked(&self) -> bool {
        links_in_range(self.spec_nodes())
    }

    /// An empty arena.
    pub fn new() -> (r: Arena)
        ensures
            r.spec_nodes() == Seq::<NodeView>::empty(),
    {
        Arena { nodes: Vec::new() }
    }

    /// Number of nodes.
    pub fn len(&self) -> (r: usize)
        ensures
            r == self.spec_nodes().len(),
    {
        self.nodes.len()
    }

    /// Adds a node without parent, children, prefix or count; returns its index.
    pub fn new_node(&mut self, text: String, color: TreeColor) -> (r: usize)
        ensures
            r == old(self).spec_nodes().len(),
            final(self).spec_nodes() == old(self).spec_nodes().push(
                NodeView {
                    parent: None,
                    children: Seq::empty(),
                    prefix: None,
                    count: None,
                    color,
                    text: text@,
                },
            ),
            children_after_parents(old(self).spec_nodes()) ==> children_after_parents(
                final(self).spec_nodes(),
            ),
    {
        proof {
            use_type_invariant(&*self);
        }
        let idx = self.nodes.len();
        let ghost before = self.spec_nodes();
        let node = Node {
            parent: None,
            children: Vec::new(),
            prefix: None,
            count: None,
            color,
            text,
        };
        let mut nodes = Vec::new();
        std::mem::swap(&mut nodes, &mut self.nodes);
        nodes.push(node);
        proof {
            let ns = nodes@.map_values(|n: Node| n@);
            assert(ns == before.push(node@));
            assert forall|i: int| 0 <= i < ns.len() implies node_links(ns.len(), ns[i]) by {
                if i < before.len() {
                    assert(ns[i] == before[i]);
                }
            }
            if children_after_parents(before) {
                assert forall|i: int, j: int|
                    0 <= i < ns.len() && 0 <= j < ns[i].children.len() implies i
                        < #[trigger] ns[i].children[j] by {
                    assert(ns[i] == before[i]);
                }
            }
        }
        self.nodes = nodes;
        idx
    }

    /// Sets the prefix of a node, such as "M" for a modified file.
    pub fn set_prefix(&mut self, node_id: usize, prefix: String)
        requires
            node_id < old(self).spec_nodes().len(),
        ensures
            final(self).spec_nodes() == old(self).spec_nodes().update(
                node_id as int,
                NodeView { prefix: Some(prefix@), ..old(self).spec_nodes()[node_id as int] },
            ),
            children_after_parents(old(self).spec_nodes()) ==> children_after_parents(
                final(self).spec_nodes(),
            ),
    {
        proof {
            use_type_invariant(&*self);
        }
        let ghost before = self.spec_nodes();
        let mut nodes = Vec::new();
        std::mem::swap(&mut nodes, &mut self.nodes);
        let mut node = nodes.remove(node_id);
        node.prefix = Some(prefix);
        nodes.insert(node_id, node);
        proof {
            let ns = nodes@.map_values(|n: Node| n@);
            assert(ns == before.update(
                node_id as int,
                NodeView { prefix: Some(prefix@), ..before[node_id as int] },
            ));
            assert forall|i: int| 0 <= i < ns.len() implies node_links(ns.len(), ns[i]) by {
                assert(ns[i].parent == before[i].parent);
                assert(ns[i].children == before[i].children);
            }
            if children_after_parents(before) {
                assert forall|i: int, j: int|
                    0 <= i < ns.len() && 0 <= j < ns[i].children.len() implies i
                        < #[trigger] ns[i].children[j] by {
                    assert(ns[i].children == before[i].children);
                }
            }
        }
        self.nodes = nodes;
    }

    /// Sets the count shown after a node's text.
    pub fn set_count(&mut self, node_id: usize, count: usize)
        requires
            node_id < old(self).spec_nodes().len(),
        ensures
            final(self).spec_nodes() == old(self).spec_nodes().update(
                node_id as int,
                NodeView { count: Some(count), ..old(self).spec_nodes()[node_id as int] },
            ),
            children_after_parents(old(self).spec_nodes()) ==> children_after_parents(
                final(self).spec_nodes(),
            ),
    {
        proof {
            use_type_invariant(&*self);
        }
        let ghost before = self.spec_nodes();
        let mut nodes = Vec::new();
        std::mem::swap(&mut nodes, &mut self.nodes);
        let mut node = nodes.remove(node_id);
        node.count = Some(count);
        nodes.insert(node_id, node);
        proof {
            let ns = nodes@.map_values(|n: Node| n@);
            assert(ns == before.update(
                node_id as int,
                NodeView { count: Some(count), ..before[node_id as int] },
            ));
            assert forall|i: int| 0 <= i < ns.len() implies node_links(ns.len(), ns[i]) by {
                assert(ns[i].parent == before[i].parent);
                assert(ns[i].children == before[i].children);
            }
            if children_after_parents(before) {
                assert forall|i: int, j: int|
                    0 <= i < ns.len() && 0 <= j < ns[i].children.len() implies i
                        < #[trigger] ns[i].children[j] by {
                    assert(ns[i].children == before[i].children);
                }
            }
        }
        self.nodes = nodes;
    }

    /// Makes `child_id` the last child of `parent_id`.
    pub fn add_child(&mut self, parent_id: usize, child_id: usize)
        requires
            parent_id < old(self).spec_nodes().len(),
            child_id < old(self).spec_nodes().len(),
        ensures
            final(self).spec_nodes() == ({
                let ns = old(self).spec_nodes();
                let with_child = ns.update(
                    parent_id as int,
                    NodeView {
                        children: ns[parent_id as int].children.push(child_id),
                        ..ns[parent_id as int]
                    },
                );
                with_child.update(
                    child_id as int,
                    NodeView { parent: Some(parent_id), ..with_child[child_id as int] },
                )
            }),
            parent_id < child_id && children_after_parents(old(self).spec_nodes())
                ==> children_after_parents(final(self).spec_nodes()),
    {
        proof {
            use_type_invariant(&*self);
        }
        let ghost before = self.spec_nodes();
        let mut nodes = Vec::new();
        std::mem::swap(&mut nodes, &mut self.nodes);
        let mut parent = nodes.remove(parent_id);
        parent.children.push(child_id);
        nodes.insert(parent_id, parent);
        let ghost mid = nodes@.map_values(|n: Node| n@);
        assert(mid == before.update(
            parent_id as int,
            NodeView {
                children: before[parent_id as int].children.push(child_id),
                ..before[parent_id as int]
            },
        ));
        let mut child = nodes.remove(child_id);
        child.parent = Some(parent_id);
        nodes.insert(child_id, child);
        proof {
            let ns = nodes@.map_values(|n: Node| n@);
            assert(ns == mid.update(
                child_id as int,
                NodeView { parent: Some(parent_id), ..mid[child_id as int] },
            ));
            assert forall|i: int| 0 <= i < ns.len() implies node_links(ns.len(), ns[i]) by {
                assert(node_links(before.len(), before[i]));
                if i == parent_id {
                    assert forall|j: int| 0 <= j < ns[i].children.len() implies #[trigger] ns[
                        i
                    ].children[j] < ns.len() by {
                        if j < before[i].children.len() {
                            assert(ns[i].children[j] == before[i].children[j]);
                        }
                    }
                } else {
                    assert(ns[i].children == before[i].children);
                }
            }
            if parent_id < child_id && children_after_parents(before) {
                assert forall|i: int, j: int|
                    0 <= i < ns.len() && 0 <= j < ns[i].children.len() implies i
                        < #[trigger] ns[i].children[j] by {
                    if i == parent_id {
                        if j < before[i].children.len() {
                            assert(ns[i].children[j] == before[i].children[j]);
                        } else {
                            assert(ns[i].children[j] == child_id);
                        }
                    } else {
                        assert(ns[i].children == before[i].children);
                    }
                }
            }
        }
        self.nodes = nodes;
    }

    /// The first `max_len` bytes of `text` followed by "..." when `text` is
    /// longer than that, else `text`.
    pub fn truncate(&self, text: &str, max_len: usize) -> (r: String)
        requires
            byte_len(text@) > max_len ==> !cut_inside_char(text@, max_len as nat),
        ensures
            r@ == truncated(text@, max_len as nat),
    {
        let v = to_chars(text);
        proof {
            lemma_fits_iff_within(text@, max_len as nat);
        }
        match byte_prefix_chars(&v, max_len) {
            Some(p) => {
                if p.len() < v.len() {
                    let mut s = from_chars(&p);
                    push_str(&mut s, "...");
                    s
                } else {
                    String::from_str(text)
                }
            },
            None => String::new(),
        }
    }

    /// The segments of node `id` and its descendants, appended to `out`.
    fn render_node_into(
        &self,
        out: &mut Vec<(TreeColor, String)>,
        id: usize,
        indent: &str,
        is_last: bool,
        level: usize,
        fuel: usize,
    )
        requires
            id < self.spec_nodes().len(),
            level <= usize::MAX - fuel,
        ensures
            segments_view(final(out)@) == segments_view(old(out)@) + render_node(
                self.spec_nodes(),
                id as int,
                indent@,
                is_last,
                level as nat,
                fuel as nat,
            ),
        decreases fuel,
    {
        proof {
            use_type_invariant(self);
        }
        let ghost ns = self.spec_nodes();
        let ghost start = segments_view(out@);
        if fuel == 0 {
            return;
        }
        let node = &self.nodes[id];
        assert(node@ == ns[id as int]);
        let (branch, continuation) = if level == 1 {
            if is_last {
                ("└──", "   ")
            } else {
                ("├──", "│  ")
            }
        } else {
            if is_last {
                ("└─", "  ")
            } else {
                ("├─", "│ ")
            }
        };
        assert(branch@ == glyphs(level as nat, is_last).0 && continuation@ == glyphs(
            level as nat,
            is_last,
        ).1);
        let mut lead = String::from_str(indent);
        push_str(&mut lead, branch);
        push_str(&mut lead, " ");
        out.push((TreeColor::DarkGrey, lead));
        match &node.prefix {
            Some(p) => {
                let mut s = p.clone();
                push_str(&mut s, " ");
                out.push((node.color, s));
            },
            None => {},
        }
        out.push((node.color, node.text.clone()));
        match node.count {
            Some(c) => {
                let mut s = String::from_str(" [");
                let d = u64_to_decimal(c as u64);
                push_str(&mut s, d.as_str());
                push_str(&mut s, "]");
                out.push((TreeColor::DarkGrey, s));
            },
            None => {},
        }
        out.push((TreeColor::Reset, String::from_str("\n")));
        let ghost after_line = segments_view(out@);
        assert(after_line == start + line_segments(ns[id as int], indent@, is_last, level as nat));
        let mut new_indent = String::from_str(indent);
        push_str(&mut new_indent, continuation);
        let n = node.children.len();
        let mut i: usize = 0;
        while i < n
            invariant
                i <= n,
                n == ns[id as int].children.len(),
                ns == self.spec_nodes(),
                links_in_range(ns),
                0 <= id < ns.len(),
                fuel > 0,
                level <= usize::MAX - fuel,
                new_indent@ == indent@ + glyphs(level as nat, is_last).1,
                segments_view(out@) == after_line + render_children(
                    ns,
                    ns[id as int].children,
                    i as int,
                    new_indent@,
                    (level + 1) as nat,
                    (fuel - 1) as nat,
                ),
            decreases n - i,
        {
            let c = self.nodes[id].children[i];
            assert(c == ns[id as int].children[i as int]);
            self.render_node_into(out, c, new_indent.as_str(), i == n - 1, level + 1, fuel - 1);
            i = i + 1;
        }
    }

    /// The segments of the whole forest, each tree from its root in the order
    /// the roots were made.
    pub fn print_tree(&self) -> (r: Vec<(TreeColor, String)>)
        ensures
            segments_view(r@) == render_forest(self.spec_nodes()),
    {
        proof {
            use_type_invariant(self);
        }
        let ghost ns = self.spec_nodes();
        let mut rs: Vec<usize> = Vec::new();
        let mut k: usize = 0;
        while k < self.nodes.len()
            invariant
                k <= self.nodes.len(),
                ns == self.spec_nodes(),
                rs@ == roots(ns, k as int),
                forall|j: int| 0 <= j < rs@.len() ==> #[trigger] rs@[j] < k,
            decreases self.nodes.len() - k,
        {
            assert(self.nodes[k as int]@ == ns[k as int]);
            if self.nodes[k].parent.is_none() {
                rs.push(k);
            }
            k = k + 1;
        }
        let mut out: Vec<(TreeColor, String)> = Vec::new();
        let total = self.nodes.len();
        let mut i: usize = 0;
        while i < rs.len()
            invariant
                i <= rs.len(),
                ns == self.spec_nodes(),
                total == ns.len(),
                rs@ == roots(ns, ns.len() as int),
                forall|j: int| 0 <= j < rs@.len() ==> #[trigger] rs@[j] < ns.len(),
                segments_view(out@) == render_roots(ns, rs@, i as int),
            decreases rs.len() - i,
        {
            let root = rs[i];
            assert(rs@[i as int] < ns.len());
            proof {
                reveal_strlit("");
                assert(""@ =~= Seq::<char>::empty());
            }
            self.render_node_into(&mut out, root, "", i == rs.len() - 1, 0, total);
            i = i + 1;
        }
        out
    }
}

/// Every child comes after its parent, as it does when nodes are made before
/// their children.
pub open spec fn children_after_parents(ns: Seq<NodeView>) -> bool {
    forall|i: int, j: int|
        0 <= i < ns.len() && 0 <= j < ns[i].children.len() ==> i < #[trigger] ns[i].children[j]
}

/// When children come after their parents, a node is rendered in full once
/// the depth bound reaches the number of nodes after it: any larger bound
/// gives the same segments.
pub proof fn lemma_render_depth_enough(
    ns: Seq<NodeView>,
    id: int,
    indent: Seq<char>,
    is_last: bool,
    level: nat,
    f1: nat,
    f2: nat,
)
    requires
        links_in_range(ns),
        children_after_parents(ns),
        0 <= id < ns.len(),
        f1 >= ns.len() - id,
        f2 >= ns.len() - id,
    ensures
        render_node(ns, id, indent, is_last, level, f1) == render_node(
            ns,
            id,
            indent,
            is_last,
            level,
            f2,
        ),
    decreases ns.len() - id, ns[id].children.len() + 1,
{
    let ch = ns[id].children;
    lemma_children_depth_enough(
        ns,
        id,
        ch.len() as int,
        indent + glyphs(level, is_last).1,
        level + 1,
        (f1 - 1) as nat,
        (f2 - 1) as nat,
    );
}

/// The children of `parent` are rendered in full by any bound that renders
/// the parent in full.
proof fn lemma_children_depth_enough(
    ns: Seq<NodeView>,
    parent: int,
    k: int,
    indent: Seq<char>,
    level: nat,
    g1: nat,
    g2: nat,
)
    requires
        links_in_range(ns),
        children_after_parents(ns),
        0 <= parent < ns.len(),
        0 <= k <= ns[parent].children.len(),
        g1 + 1 >= ns.len() - parent,
        g2 + 1 >= ns.len() - parent,
    ensures
        render_children(ns, ns[parent].children, k, indent, level, g1) == render_children(
            ns,
            ns[parent].children,
            k,
            indent,
            level,
            g2,
        ),
    decreases ns.len() - parent, k,
{
    let ch = ns[parent].children;
    if k > 0 {
        lemma_children_depth_enough(ns, parent, k - 1, indent, level, g1, g2);
        let c = ch[k - 1] as int;
        assert(node_links(ns.len(), ns[parent]));
        assert(parent < c < ns.len());
        lemma_render_depth_enough(ns, c, indent, k - 1 == ch.len() - 1, level, g1, g2);
    }
}

} // verus!
