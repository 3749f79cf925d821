//! The trees printed for the status of the working tree and for the commits a
//! model proposes.
use vstd::prelude::*;
use vstd::string::*;

use crate::graph::{Arena, NodeView, TreeColor, children_after_parents, truncated};
use crate::repo::{GaiStatus, paths_view, renames_view};
use crate::response::{ResponseCommit, commit_prefix_text, lowercase_text};
use crate::text::{byte_len, cut_inside_char, decimal, push_str, u64_to_decimal};

verus! {

/// A node with a text and a colour and nothing else set.
pub open spec fn plain_node(text: Seq<char>, color: TreeColor) -> NodeView {
    NodeView {
        parent: None,
        children: Seq::empty(),
        prefix: None,
        count: None,
        color,
        text,
    }
}

/// The nodes after `add_child(p, c)`.
pub open spec fn attach(ns: Seq<NodeView>, p: int, c: int) -> Seq<NodeView> {
    let w = ns.update(p, NodeView { children: ns[p].children.push(c as usize), ..ns[p] });
    w.update(c, NodeView { parent: Some(p as usize), ..w[c] })
}

/// The nodes after a leaf is made for each of the first `n` labels and put
/// under `parent`, with the given prefix.
pub open spec fn add_leaves(
    ns: Seq<NodeView>,
    parent: int,
    labels: Seq<Seq<char>>,
    color: TreeColor,
    prefix: Option<Seq<char>>,
    n: int,
) -> Seq<NodeView>
    decreases n,
{
    if n <= 0 || n > labels.len() {
        ns
    } else {
        let m = add_leaves(ns, parent, labels, color, prefix, n - 1);
        attach(
            m.push(NodeView { prefix, ..plain_node(labels[n - 1], color) }),
            parent,
            m.len() as int,
        )
    }
}

/// The nodes after a group node that counts `labels` is put under `root`,
/// with a leaf per label under it; unchanged when there are no labels.
pub open spec fn add_group(
    ns: Seq<NodeView>,
    root: int,
    label: Seq<char>,
    color: TreeColor,
    labels: Seq<Seq<char>>,
    leaf_color: TreeColor,
    prefix: Seq<char>,
) -> Seq<NodeView> {
    if labels.len() == 0 {
        ns
    } else {
        let g = ns.len() as int;
        let with_group = attach(
            ns.push(NodeView { count: Some(labels.len() as usize), ..plain_node(label, color) }),
            root,
            g,
        );
        add_leaves(with_group, g, labels, leaf_color, Some(prefix), labels.len() as int)
    }
}

/// The label of a rename: the old path, an arrow, the new path.
pub open spec fn rename_label(r: (Seq<char>, Seq<char>)) -> Seq<char> {
    r.0 + " → "@ + r.1
}

/// The labels of the renames.
pub open spec fn rename_labels(rs: Seq<(Seq<char>, Seq<char>)>) -> Seq<Seq<char>> {
    rs.map_values(|r: (Seq<char>, Seq<char>)| rename_label(r))
}

/// The nodes after a section: a root counting `count` paths, then a group
/// for the new, modified, deleted and renamed paths that it has.
pub open spec fn add_section(
    ns: Seq<NodeView>,
    title: Seq<char>,
    color: TreeColor,
    count: nat,
    new_tag: Seq<char>,
    new: Seq<Seq<char>>,
    modified: Seq<Seq<char>>,
    deleted: Seq<Seq<char>>,
    renamed: Seq<(Seq<char>, Seq<char>)>,
) -> Seq<NodeView> {
    let root = ns.len() as int;
    let n0 = ns.push(NodeView { count: Some(count as usize), ..plain_node(title, color) });
    let n1 = add_group(n0, root, "New"@, TreeColor::Green, new, TreeColor::Green, new_tag);
    let n2 = add_group(n1, root, "Modified"@, TreeColor::Blue, modified, TreeColor::Blue, "M"@);
    let n3 = add_group(n2, root, "Deleted"@, TreeColor::Red, deleted, TreeColor::Red, "D"@);
    add_group(
        n3,
        root,
        "Renamed"@,
        TreeColor::Magenta,
        rename_labels(renamed),
        TreeColor::White,
        "R"@,
    )
}

/// The nodes of the status tree: a "✓ Staged" section when paths are
/// staged, then a "⚠ Unstaged" section when paths are not.
pub open spec fn status_nodes(s: &GaiStatus) -> Seq<NodeView> {
    let staged = if s.spec_staged_len() > 0 {
        add_section(
            Seq::empty(),
            "✓ Staged"@,
            TreeColor::Green,
            s.spec_staged_len(),
            "A"@,
            paths_view(s.s_new@),
            paths_view(s.s_modified@),
            paths_view(s.s_deleted@),
            renames_view(s.s_renamed@),
        )
    } else {
        Seq::empty()
    };
    if s.spec_unstaged_len() > 0 {
        add_section(
            staged,
            "⚠ Unstaged"@,
            TreeColor::Yellow,
            s.spec_unstaged_len(),
            "?"@,
            paths_view(s.u_new@),
            paths_view(s.u_modified@),
            paths_view(s.u_deleted@),
            renames_view(s.u_renamed@),
        )
    } else {
        staged
    }
}

/// Adds a leaf for each label under `parent`, with the given prefix.
fn push_leaves(
    arena: &mut Arena,
    parent: usize,
    labels: &Vec<String>,
    color: TreeColor,
    prefix: Option<&str>,
)
    requires
        parent < old(arena).spec_nodes().len(),
    ensures
        final(arena).spec_nodes() == add_leaves(
            old(arena).spec_nodes(),
            parent as int,
            paths_view(labels@),
            color,
            match prefix {
                Some(p) => Some(p@),
                None => None,
            },
            labels@.len() as int,
        ),
        final(arena).spec_nodes().len() == old(arena).spec_nodes().len() + labels@.len(),
        children_after_parents(old(arena).spec_nodes()) ==> children_after_parents(
            final(arena).spec_nodes(),
        ),
{
    let ghost ls = paths_view(labels@);
    let ghost start = arena.spec_nodes();
    let ghost pv = match prefix {
        Some(p) => Some(p@),
        None => None,
    };
    let mut i: usize = 0;
    while i < labels.len()
        invariant
            i <= labels.len(),
            ls == paths_view(labels@),
            pv == (match prefix {
                Some(p) => Some(p@),
                None => None::<Seq<char>>,
            }),
            parent < start.len(),
            arena.spec_nodes() == add_leaves(start, parent as int, ls, color, pv, i as int),
            arena.spec_nodes().len() == start.len() + i,
            children_after_parents(start) ==> children_after_parents(arena.spec_nodes()),
        decreases labels.len() - i,
    {
        let ghost m = arena.spec_nodes();
        let id = arena.new_node(labels[i].clone(), color);
        match prefix {
            Some(p) => arena.set_prefix(id, String::from_str(p)),
            None => {},
        }
        arena.add_child(parent, id);
        assert(ls[i as int] == labels@[i as int]@);
        assert(m.push(NodeView { prefix: pv, ..plain_node(ls[i as int], color) }).update(
            id as int,
            NodeView { prefix: pv, ..plain_node(ls[i as int], color) },
        ) == m.push(NodeView { prefix: pv, ..plain_node(ls[i as int], color) }));
        i = i + 1;
    }
}

/// Adds a group node counting `labels` under `root`, with a leaf per label
/// under it, when there are labels.
fn push_group(
    arena: &mut Arena,
    root: usize,
    label: &str,
    color: TreeColor,
    labels: &Vec<String>,
    leaf_color: TreeColor,
    prefix: &str,
)
    requires
        root < old(arena).spec_nodes().len(),
    ensures
        final(arena).spec_nodes() == add_group(
            old(arena).spec_nodes(),
            root as int,
            label@,
            color,
            paths_view(labels@),
            leaf_color,
            prefix@,
        ),
        final(arena).spec_nodes().len() >= old(arena).spec_nodes().len(),
        children_after_parents(old(arena).spec_nodes()) ==> children_after_parents(
            final(arena).spec_nodes(),
        ),
{
    if labels.len() == 0 {
        return;
    }
    let ghost ns = arena.spec_nodes();
    let g = arena.new_node(String::from_str(label), color);
    arena.set_count(g, labels.len());
    assert(arena.spec_nodes() == ns.push(
        NodeView { count: Some(labels.len()), ..plain_node(label@, color) },
    ));
    arena.add_child(root, g);
    push_leaves(arena, g, labels, leaf_color, Some(prefix));
}

/// The labels of the renames, as strings.
fn rename_strings(renames: &Vec<(String, String)>) -> (r: Vec<String>)
    ensures
        paths_view(r@) == rename_labels(renames_view(renames@)),
{
    let mut r: Vec<String> = Vec::new();
    let mut i: usize = 0;
    while i < renames.len()
        invariant
            i <= renames.len(),
            paths_view(r@) == rename_labels(renames_view(renames@)).take(i as int),
        decreases renames.len() - i,
    {
        let mut s = renames[i].0.clone();
        push_str(&mut s, " → ");
        push_str(&mut s, renames[i].1.as_str());
        r.push(s);
        assert(rename_labels(renames_view(renames@)).take(i + 1) == rename_labels(
            renames_view(renames@),
        ).take(i as int).push(rename_label(renames_view(renames@)[i as int])));
        i = i + 1;
    }
    assert(rename_labels(renames_view(renames@)).take(renames.len() as int) == rename_labels(
        renames_view(renames@),
    ));
    r
}

/// Adds a section: its root, then a group for each kind of change it has.
fn push_section(
    arena: &mut Arena,
    title: &str,
    color: TreeColor,
    count: usize,
    new_tag: &str,
    new: &Vec<String>,
    modified: &Vec<String>,
    deleted: &Vec<String>,
    renamed: &Vec<(String, String)>,
)
    ensures
        final(arena).spec_nodes() == add_section(
            old(arena).spec_nodes(),
            title@,
            color,
            count as nat,
            new_tag@,
            paths_view(new@),
            paths_view(modified@),
            paths_view(deleted@),
            renames_view(renamed@),
        ),
        children_after_parents(old(arena).spec_nodes()) ==> children_after_parents(
            final(arena).spec_nodes(),
        ),
{
    let ghost ns = arena.spec_nodes();
    let root = arena.new_node(String::from_str(title), color);
    arena.set_count(root, count);
    assert(arena.spec_nodes() == ns.push(
        NodeView { count: Some(count), ..plain_node(title@, color) },
    ));
    proof {
        reveal_strlit("M");
        reveal_strlit("D");
        reveal_strlit("R");
    }
    push_group(arena, root, "New", TreeColor::Green, new, TreeColor::Green, new_tag);
    push_group(arena, root, "Modified", TreeColor::Blue, modified, TreeColor::Blue, "M");
    push_group(arena, root, "Deleted", TreeColor::Red, deleted, TreeColor::Red, "D");
    let labels = rename_strings(renamed);
    push_group(arena, root, "Renamed", TreeColor::Magenta, &labels, TreeColor::White, "R");
}

/// The tree of the status: a "✓ Staged" section when paths are staged and a
/// "⚠ Unstaged" section when paths are not; `None` when there are neither.
pub fn status_arena(status: &GaiStatus) -> (r: Option<Arena>)
    requires
        status.spec_staged_len() <= usize::MAX,
        status.spec_unstaged_len() <= usize::MAX,
    ensures
        match r {
            None => status.spec_staged_len() == 0 && status.spec_unstaged_len() == 0,
            Some(a) => (status.spec_staged_len() > 0 || status.spec_unstaged_len() > 0)
                && a.spec_nodes() == status_nodes(status) && children_after_parents(
                a.spec_nodes(),
            ),
        },
{
    let staged_count = status.staged_len();
    let unstaged_count = status.unstaged_len();
    if staged_count == 0 && unstaged_count == 0 {
        return None;
    }
    let mut arena = Arena::new();
    if staged_count > 0 {
        push_section(
            &mut arena,
            "✓ Staged",
            TreeColor::Green,
            staged_count,
            "A",
            &status.s_new,
            &status.s_modified,
            &status.s_deleted,
            &status.s_renamed,
        );
    }
    if unstaged_count > 0 {
        push_section(
            &mut arena,
            "⚠ Unstaged",
            TreeColor::Yellow,
            unstaged_count,
            "?",
            &status.u_new,
            &status.u_modified,
            &status.u_deleted,
            &status.u_renamed,
        );
    }
    Some(arena)
}

/// What `format!("{:?}", v)` gives for a list of texts.
pub uninterp spec fn debug_list_text(v: Seq<Seq<char>>) -> Seq<char>;

/// Formats a list of strings with `Debug`: in brackets, each quoted and
/// escaped, separated by ", "; the result is named, not stated.
#[verifier::external_body]
fn debug_list(v: &Vec<String>) -> (r: String)
    ensures
        r@ == debug_list_text(paths_view(v@)),
{
    format!("{:?}", v)
}

/// The prefix shown for a commit.
pub open spec fn prefix_of(c: ResponseCommit, capitalize: bool, include_scope: bool) -> Seq<char> {
    commit_prefix_text(
        c.message.prefix,
        capitalize,
        c.message.breaking,
        if include_scope {
            Some(lowercase_text(c.message.scope@))
        } else {
            None
        },
    )
}

/// The nodes after the tree of the `i`-th commit (counted from 0) is added: a
/// root "Commit n", its prefix, its header, its body cut to 45 bytes when it
/// has one, then its hunks or its files.
pub open spec fn commit_nodes(
    ns: Seq<NodeView>,
    c: ResponseCommit,
    i: nat,
    capitalize: bool,
    include_scope: bool,
    stage_hunks: bool,
) -> Seq<NodeView> {
    let root = ns.len() as int;
    let n1 = ns.push(plain_node("Commit "@ + decimal(i + 1), TreeColor::DarkGrey));
    let n2 = attach(
        n1.push(plain_node(prefix_of(c, capitalize, include_scope), TreeColor::Green)),
        root,
        root + 1,
    );
    let n3 = attach(
        n2.push(plain_node("Header: "@ + c.message.header@, TreeColor::White)),
        root,
        root + 2,
    );
    let n4 = if c.message.body@.len() > 0 {
        attach(
            n3.push(plain_node("Body: "@ + truncated(c.message.body@, 45), TreeColor::Blue)),
            root,
            n3.len() as int,
        )
    } else {
        n3
    };
    if stage_hunks {
        attach(
            n4.push(
                plain_node(
                    "Hunks: "@ + debug_list_text(paths_view(c.hunk_ids@)),
                    TreeColor::Magenta,
                ),
            ),
            root,
            n4.len() as int,
        )
    } else {
        let f = n4.len() as int;
        let n5 = attach(
            n4.push(
                NodeView { count: Some(c.files@.len() as usize), ..plain_node("Files"@, TreeColor::Magenta) },
            ),
            root,
            f,
        );
        add_leaves(n5, f, paths_view(c.files@), TreeColor::White, None, c.files@.len() as int)
    }
}

/// The nodes of the trees of the first `n` commits.
pub open spec fn commits_nodes(
    cs: Seq<ResponseCommit>,
    n: int,
    capitalize: bool,
    include_scope: bool,
    stage_hunks: bool,
) -> Seq<NodeView>
    decreases n,
{
    if n <= 0 || n > cs.len() {
        Seq::empty()
    } else {
        commit_nodes(
            commits_nodes(cs, n - 1, capitalize, include_scope, stage_hunks),
            cs[n - 1],
            (n - 1) as nat,
            capitalize,
            include_scope,
            stage_hunks,
        )
    }
}

/// Whether the body of every commit can be cut at 45 bytes where it is
/// longer than that.
pub open spec fn bodies_cuttable(cs: Seq<ResponseCommit>) -> bool {
    forall|k: int|
        0 <= k < cs.len() ==> (byte_len(#[trigger] cs[k].message.body@) > 45
            ==> !cut_inside_char(cs[k].message.body@, 45))
}

/// Adds the tree of one commit.
fn push_commit(
    arena: &mut Arena,
    c: &ResponseCommit,
    i: usize,
    capitalize_prefix: bool,
    include_scope: bool,
    stage_hunks: bool,
)
    requires
        i < usize::MAX,
        byte_len(c.message.body@) > 45 ==> !cut_inside_char(c.message.body@, 45),
    ensures
        final(arena).spec_nodes() == commit_nodes(
            old(arena).spec_nodes(),
            *c,
            i as nat,
            capitalize_prefix,
            include_scope,
            stage_hunks,
        ),
        children_after_parents(old(arena).spec_nodes()) ==> children_after_parents(
            final(arena).spec_nodes(),
        ),
{
    let mut title = String::from_str("Commit ");
    let number = u64_to_decimal((i + 1) as u64);
    push_str(&mut title, number.as_str());
    let root = arena.new_node(title, TreeColor::DarkGrey);
    let prefix = c.get_commit_prefix(capitalize_prefix, include_scope);
    let prefix_node = arena.new_node(prefix, TreeColor::Green);
    arena.add_child(root, prefix_node);
    let mut header = String::from_str("Header: ");
    push_str(&mut header, c.message.header.as_str());
    let header_node = arena.new_node(header, TreeColor::White);
    arena.add_child(root, header_node);
    if !c.message.body.as_str().is_empty() {
        let body_text = arena.truncate(c.message.body.as_str(), 45);
        let mut body = String::from_str("Body: ");
        push_str(&mut body, body_text.as_str());
        let body_node = arena.new_node(body, TreeColor::Blue);
        arena.add_child(root, body_node);
    }
    if stage_hunks {
        let mut hunks = String::from_str("Hunks: ");
        let listed = debug_list(&c.hunk_ids);
        push_str(&mut hunks, listed.as_str());
        let hunks_node = arena.new_node(hunks, TreeColor::Magenta);
        arena.add_child(root, hunks_node);
    } else {
        let ghost n4 = arena.spec_nodes();
        let files_parent = arena.new_node(String::from_str("Files"), TreeColor::Magenta);
        arena.set_count(files_parent, c.files.len());
        assert(arena.spec_nodes() == n4.push(
            NodeView { count: Some(c.files@.len() as usize), ..plain_node("Files"@, TreeColor::Magenta) },
        ));
        arena.add_child(root, files_parent);
        push_leaves(arena, files_parent, &c.files, TreeColor::White, None);
    }
}

/// The trees of the commits a model proposes, one per commit in order.
pub fn commits_arena(
    commits: &[ResponseCommit],
    capitalize_prefix: bool,
    include_scope: bool,
    stage_hunks: bool,
) -> (r: Arena)
    requires
        bodies_cuttable(commits@),
    ensures
        r.spec_nodes() == commits_nodes(
            commits@,
            commits@.len() as int,
            capitalize_prefix,
            include_scope,
            stage_hunks,
        ),
        children_after_parents(r.spec_nodes()),
{
    let mut arena = Arena::new();
    let mut i: usize = 0;
    while i < commits.len()
        invariant
            i <= commits.len(),
            bodies_cuttable(commits@),
            arena.spec_nodes() == commits_nodes(
                commits@,
                i as int,
                capitalize_prefix,
                include_scope,
                stage_hunks,
            ),
            children_after_parents(arena.spec_nodes()),
        decreases commits.len() - i,
    {
        assert(byte_len(commits@[i as int].message.body@) > 45 ==> !cut_inside_char(
            commits@[i as int].message.body@,
            45,
        ));
        push_commit(&mut arena, &commits[i], i, capitalize_prefix, include_scope, stage_hunks);
        i = i + 1;
    }
    arena
}

} // verus!
