//! The scene hierarchy: an arena of nodes addressed by index. A node index
//! plays the part of a shared node handle; every node carries its name, the
//! anchor it is filed under, an optional parent and the list of its children.

use std::collections::HashMap;
use vstd::prelude::*;

verus! {

/// Root anchors under which every scene node is filed.
#[derive(Clone, Copy, Debug, PartialEq, Eq, Structural)]
pub enum Anchor {
    Management,
    Systems,
    Player,
    Environment,
    Lighting,
    UI,
}

/// The name under which an anchor is reported: the name of its variant.
pub open spec fn anchor_label(anchor: Anchor) -> Seq<char> {
    match anchor {
        Anchor::Management => "Management"@,
        Anchor::Systems => "Systems"@,
        Anchor::Player => "Player"@,
        Anchor::Environment => "Environment"@,
        Anchor::Lighting => "Lighting"@,
        Anchor::UI => "UI"@,
    }
}

impl Anchor {
    /// The anchor's name as text, as the perception view reports it.
    pub fn label(&self) -> (label: String)
        ensures
            label@ == anchor_label(*self),
    {
        match self {
            Anchor::Management => "Management".to_owned(),
            Anchor::Systems => "Systems".to_owned(),
            Anchor::Player => "Player".to_owned(),
            Anchor::Environment => "Environment".to_owned(),
            Anchor::Lighting => "Lighting".to_owned(),
            Anchor::UI => "UI".to_owned(),
        }
    }
}

/// One node of the scene hierarchy. `parent` and `children` hold indices
/// into the `SceneGraph` that owns the node.
pub struct SceneNode {
    pub name: String,
    pub anchor: Anchor,
    pub parent: Option<usize>,
    pub children: Vec<usize>,
    pub properties: HashMap<String, String>,
}

/// The arena that owns every scene node; a node is addressed by its index.
pub struct SceneGraph {
    nodes: Vec<SceneNode>,
}

impl View for SceneGraph {
    type V = Seq<SceneNode>;

    closed spec fn view(&self) -> Seq<SceneNode> {
        self.nodes@
    }
}

/// A freshly created node: the given name and anchor, no parent, no children
/// and no properties.
pub open spec fn is_fresh_node(node: SceneNode, name: Seq<char>, anchor: Anchor) -> bool {
    &&& node.name@ == name
    &&& node.anchor == anchor
    &&& node.parent is None
    &&& node.children@.len() == 0
    &&& node.properties@ == Map::<String, String>::empty()
}

/// The links of node `i` in `nodes`: each child index names a node, and a set
/// parent names another node that lists `i` among its children.
pub open spec fn node_links_ok(nodes: Seq<SceneNode>, i: int) -> bool {
    &&& forall|j: int|
        0 <= j < nodes[i].children@.len() ==> #[trigger] nodes[i].children@[j] < nodes.len()
    &&& match nodes[i].parent {
        Some(p) => {
            &&& p < nodes.len()
            &&& p != i
            &&& nodes[p as int].children@.contains(i as usize)
        },
        None => true,
    }
}

/// `after` is `before` with `child` attached under `parent`: the child's
/// parent is `parent`, the parent's children gain `child` at the end, and no
/// other parent or child link changes.
pub open spec fn child_added(before: Seq<SceneNode>, after: Seq<SceneNode>, parent: usize, child: usize) -> bool {
    &&& after.len() == before.len()
    &&& after[child as int].parent == Some(parent)
    &&& after[parent as int].children@ == before[parent as int].children@.push(child)
    &&& forall|i: int| 0 <= i < before.len() && i != child ==> #[trigger] after[i].parent == before[i].parent
    &&& forall|i: int| 0 <= i < before.len() && i != parent ==> #[trigger] after[i].children@ == before[i].children@
}

/// Node `i` after following `k` parent links from it, if the chain is that
/// long.
pub open spec fn nth_parent(nodes: Seq<SceneNode>, i: int, k: nat) -> Option<int>
    decreases k,
{
    if k == 0 {
        Some(i)
    } else {
        match nodes[i].parent {
            Some(p) => nth_parent(nodes, p as int, (k - 1) as nat),
            None => None,
        }
    }
}

/// Node `i` lies in the subtree of `root`: `root` is `i` or an ancestor of `i`.
pub open spec fn in_subtree(nodes: Seq<SceneNode>, root: int, i: int) -> bool {
    exists|k: nat| #[trigger] nth_parent(nodes, i, k) == Some(root)
}

/// Node `i` ranks above its parent, if it has one.
pub open spec fn rank_respected(nodes: Seq<SceneNode>, rank: Seq<nat>, i: int) -> bool {
    nodes[i].parent is Some ==> rank[nodes[i].parent.unwrap() as int] < rank[i]
}

/// Parent links never run in a circle: some ranking of the nodes puts every
/// node above its parent.
pub open spec fn acyclic(nodes: Seq<SceneNode>) -> bool {
    exists|rank: Seq<nat>|
        rank.len() == nodes.len() && forall|i: int| 0 <= i < nodes.len() ==> #[trigger] rank_respected(nodes, rank, i)
}

/// `p` lists `c` among its children exactly when `c`'s parent is `p`.
pub open spec fn link_mirrored(nodes: Seq<SceneNode>, p: int, c: int) -> bool {
    nodes[p].children@.contains(c as usize) <==> nodes[c].parent == Some(p as usize)
}

/// The node's own links are in range and its child list names no node twice.
pub open spec fn node_tree_ok(nodes: Seq<SceneNode>, i: int) -> bool {
    &&& node_links_ok(nodes, i)
    &&& nodes[i].children@.no_duplicates()
}

/// A well-formed hierarchy: every link is in range, and each parent lists
/// each of its children exactly once and lists no other node.
pub open spec fn links_consistent(nodes: Seq<SceneNode>) -> bool {
    &&& forall|i: int| 0 <= i < nodes.len() ==> #[trigger] node_tree_ok(nodes, i)
    &&& forall|p: int, c: int| 0 <= p < nodes.len() && 0 <= c < nodes.len() ==> #[trigger] link_mirrored(nodes, p, c)
}

/// A proper tree (or forest): a well-formed hierarchy whose parent links
/// have no cycle.
pub open spec fn is_tree(nodes: Seq<SceneNode>) -> bool {
    &&& links_consistent(nodes)
    &&& acyclic(nodes)
}

impl SceneGraph {
    /// Every link of every node is sound (see `node_links_ok`).
    pub open spec fn wf(&self) -> bool {
        forall|i: int| 0 <= i < self@.len() ==> #[trigger] node_links_ok(self@, i)
    }

    /// An empty hierarchy.
    pub fn new() -> (graph: SceneGraph)
        ensures
            graph@.len() == 0,
            graph.wf(),
    {
        SceneGraph { nodes: Vec::new() }
    }

    /// The number of nodes.
    pub fn len(&self) -> (n: usize)
        ensures
            n == self@.len(),
    {
        self.nodes.len()
    }

    /// The node at index `id`.
    pub fn node(&self, id: usize) -> (node: &SceneNode)
        requires
            id < self@.len(),
        ensures
            *node == self@[id as int],
    {
        &self.nodes[id]
    }
}

impl SceneNode {
    /// Creates a node with the given name and anchor, without parent,
    /// children or properties, adds it to `graph`, and returns its index.
    pub fn new(graph: &mut SceneGraph, name: &str, anchor: Anchor) -> (id: usize)
        requires
            old(graph).wf(),
        ensures
            id == old(graph)@.len(),
            final(graph)@.len() == old(graph)@.len() + 1,
            final(graph)@.drop_last() == old(graph)@,
            is_fresh_node(final(graph)@[id as int], name@, anchor),
            final(graph).wf(),
    {
        let node = SceneNode {
            name: name.to_owned(),
            anchor,
            parent: None,
            children: Vec::new(),
            properties: HashMap::new(),
        };
        let id: usize = graph.nodes.len();
        graph.nodes.push(node);
        proof {
            let old_nodes = old(graph)@;
            let nodes = graph@;
            assert(nodes.drop_last() =~= old_nodes);
            assert forall|i: int| 0 <= i < nodes.len() implies #[trigger] node_links_ok(nodes, i) by {
                if i < old_nodes.len() {
                    assert(node_links_ok(old_nodes, i));
                    assert(nodes[i] == old_nodes[i]);
                    if let Some(p) = nodes[i].parent {
                        assert(nodes[p as int] == old_nodes[p as int]);
                    }
                }
            }
        }
        id
    }

    /// Makes `child` a child of `parent`: the child's parent becomes
    /// `parent`, and `child` is appended to the parent's children. Nothing
    /// else changes; in particular a previous parent keeps listing `child`.
    pub fn add_child(graph: &mut SceneGraph, parent: usize, child: usize)
        requires
            old(graph).wf(),
            parent < old(graph)@.len(),
            child < old(graph)@.len(),
            parent != child,
        ensures
            final(graph).wf(),
            final(graph)@.len() == old(graph)@.len(),
            final(graph)@[child as int].parent == Some(parent),
            final(graph)@[child as int].children@ == old(graph)@[child as int].children@,
            final(graph)@[parent as int].children@ == old(graph)@[parent as int].children@.push(child),
            final(graph)@[parent as int].parent == old(graph)@[parent as int].parent,
            forall|i: int|
                0 <= i < old(graph)@.len() ==> {
                    &&& #[trigger] final(graph)@[i].name == old(graph)@[i].name
                    &&& final(graph)@[i].anchor == old(graph)@[i].anchor
                    &&& final(graph)@[i].properties == old(graph)@[i].properties
                },
            forall|i: int|
                0 <= i < old(graph)@.len() && i != parent && i != child ==> #[trigger] final(graph)@[i]
                    == old(graph)@[i],
            child_added(old(graph)@, final(graph)@, parent, child),
    {
        graph.nodes[child].parent = Some(parent);
        graph.nodes[parent].children.push(child);
        proof {
            let old_nodes = old(graph)@;
            let nodes = graph@;
            assert forall|i: int| 0 <= i < nodes.len() implies #[trigger] node_links_ok(nodes, i) by {
                assert(node_links_ok(old_nodes, i));
                if i == child {
                    assert(nodes[parent as int].children@[nodes[parent as int].children@.len() - 1] == child);
                } else if let Some(p) = nodes[i].parent {
                    assert(old_nodes[i].parent == Some(p));
                    assert(old_nodes[p as int].children@.contains(i as usize));
                    if p == parent {
                        let k: int = choose|k: int| 0 <= k < old_nodes[p as int].children@.len()
                            && old_nodes[p as int].children@[k] == i as usize;
                        assert(nodes[p as int].children@[k] == i as usize);
                    } else {
                        assert(nodes[p as int].children@ == old_nodes[p as int].children@);
                    }
                }
                if i == parent {
                    assert forall|j: int| 0 <= j < nodes[i].children@.len() implies #[trigger] nodes[i].children@[j] < nodes.len() by {
                        if j < old_nodes[i].children@.len() {
                            assert(old_nodes[i].children@[j] < old_nodes.len());
                        }
                    }
                }
            }
        }
    }
}

/// In a well-formed hierarchy a node whose parent is set is listed among that
/// parent's children, and the parent is another node of the hierarchy.
pub proof fn lemma_parent_lists_child(graph: &SceneGraph, i: int)
    requires
        graph.wf(),
        0 <= i < graph@.len(),
        graph@[i].parent is Some,
    ensures
        graph@[i].parent.unwrap() < graph@.len(),
        graph@[i].parent.unwrap() != i,
        graph@[graph@[i].parent.unwrap() as int].children@.contains(i as usize),
{
    assert(node_links_ok(graph@, i));
}

/// Attaching a parentless node under another node keeps a well-formed
/// hierarchy well formed, whether or not its parent links have cycles: the
/// links stay mirrored, the child is listed exactly once, in its new
/// parent's children, and its parent is that node.
pub proof fn lemma_add_child_keeps_links(before: Seq<SceneNode>, after: Seq<SceneNode>, parent: usize, child: usize)
    requires
        links_consistent(before),
        before.len() <= usize::MAX,
        parent < before.len(),
        child < before.len(),
        parent != child,
        before[child as int].parent is None,
        child_added(before, after, parent, child),
    ensures
        links_consistent(after),
        after[parent as int].children@.contains(child),
        after[parent as int].children@.no_duplicates(),
        after[child as int].parent == Some(parent),
{
    let n = before.len();
    assert(!before[parent as int].children@.contains(child)) by {
        assert(link_mirrored(before, parent as int, child as int));
    }
    let pushed = before[parent as int].children@.push(child);
    assert(pushed[pushed.len() - 1] == child);
    // Links in range, no duplicates.
    assert forall|i: int| 0 <= i < n implies #[trigger] node_tree_ok(after, i) by {
        assert(node_tree_ok(before, i));
        if i == parent as int {
            let old_children = before[i].children@;
            assert forall|j: int| 0 <= j < after[i].children@.len() implies #[trigger] after[i].children@[j] < after.len() by {
                if j < old_children.len() {
                    assert(after[i].children@[j] == old_children[j]);
                }
            }
            assert forall|a: int, b: int| 0 <= a < pushed.len() && 0 <= b < pushed.len() && a != b implies pushed[a] != pushed[b] by {
                if a == old_children.len() {
                    assert(old_children[b] == pushed[b]);
                } else if b == old_children.len() {
                    assert(old_children[a] == pushed[a]);
                } else {
                    assert(old_children[a] == pushed[a] && old_children[b] == pushed[b]);
                }
            }
        }
        if i != child as int {
            if let Some(p) = after[i].parent {
                assert(link_mirrored(after, p as int, i)) by {
                    assert(link_mirrored(before, p as int, i));
                    if p == parent {
                        assert(before[p as int].children@.contains(i as usize));
                        let k: int = choose|k: int| 0 <= k < before[p as int].children@.len() && before[p as int].children@[k] == i as usize;
                        assert(pushed[k] == i as usize);
                    }
                }
            }
        }
    }
    // Mirrored links.
    assert forall|p: int, c: int| 0 <= p < n && 0 <= c < n implies #[trigger] link_mirrored(after, p, c) by {
        assert(link_mirrored(before, p, c));
        assert(link_mirrored(before, p, child as int));
        if p == parent as int {
            let old_children = before[p].children@;
            if old_children.contains(c as usize) {
                let k: int = choose|k: int| 0 <= k < old_children.len() && old_children[k] == c as usize;
                assert(pushed[k] == c as usize);
            }
            if pushed.contains(c as usize) && c != child as int {
                let k: int = choose|k: int| 0 <= k < pushed.len() && pushed[k] == c as usize;
                assert(c as usize != child);
                assert(k < old_children.len());
                assert(old_children[k] == c as usize);
            }
        }
    }
    assert(node_tree_ok(after, parent as int));
}

proof fn lemma_chain_unchanged(before: Seq<SceneNode>, after: Seq<SceneNode>, parent: usize, child: usize, x: int, k: nat)
    requires
        forall|c: int| 0 <= c < before.len() ==> #[trigger] node_links_ok(before, c),
        child_added(before, after, parent, child),
        0 <= x < before.len(),
        forall|j: nat| j <= k ==> #[trigger] nth_parent(before, x, j) != Some(child as int),
    ensures
        nth_parent(after, x, k) == nth_parent(before, x, k),
    decreases k,
{
    if k > 0 {
        assert(nth_parent(before, x, 0) != Some(child as int));
        assert(after[x].parent == before[x].parent);
        assert(node_links_ok(before, x));
        if let Some(p) = before[x].parent {
            assert forall|j: nat| j <= (k - 1) as nat implies #[trigger] nth_parent(before, p as int, j) != Some(child as int) by {
                assert(nth_parent(before, x, j + 1) == nth_parent(before, p as int, j));
                assert(nth_parent(before, x, j + 1) != Some(child as int));
            }
            lemma_chain_unchanged(before, after, parent, child, p as int, (k - 1) as nat);
        }
    }
}

/// Attaching a node under a parent outside its subtree closes no cycle
/// through the new link: afterwards the child is still no ancestor of its
/// parent.
pub proof fn lemma_add_child_closes_no_cycle(before: Seq<SceneNode>, after: Seq<SceneNode>, parent: usize, child: usize)
    requires
        forall|c: int| 0 <= c < before.len() ==> #[trigger] node_links_ok(before, c),
        parent < before.len(),
        child < before.len(),
        !in_subtree(before, child as int, parent as int),
        child_added(before, after, parent, child),
    ensures
        !in_subtree(after, child as int, parent as int),
{
    assert forall|k: nat| #[trigger] nth_parent(after, parent as int, k) != Some(child as int) by {
        assert forall|j: nat| j <= k implies #[trigger] nth_parent(before, parent as int, j) != Some(child as int) by {
            if nth_parent(before, parent as int, j) == Some(child as int) {
                assert(in_subtree(before, child as int, parent as int));
            }
        }
        lemma_chain_unchanged(before, after, parent, child, parent as int, k);
    }
}

/// Attaching a parentless node under a node outside its subtree keeps a
/// tree a tree: the links stay mirrored, the child is listed exactly once,
/// in its new parent's children, and no cycle appears.
pub proof fn lemma_add_child_keeps_tree(before: Seq<SceneNode>, after: Seq<SceneNode>, parent: usize, child: usize)
    requires
        is_tree(before),
        before.len() <= usize::MAX,
        parent < before.len(),
        child < before.len(),
        before[child as int].parent is None,
        !in_subtree(before, child as int, parent as int),
        child_added(before, after, parent, child),
    ensures
        is_tree(after),
        after[parent as int].children@.contains(child),
        after[child as int].parent == Some(parent),
{
    let n = before.len();
    assert(nth_parent(before, parent as int, 0) == Some(parent as int));
    assert(parent != child);
    lemma_add_child_keeps_links(before, after, parent, child);
    // No cycle: shift the subtree of `child` above `parent`.
    let rank: Seq<nat> = choose|rank: Seq<nat>|
        rank.len() == before.len() && forall|i: int| 0 <= i < before.len() ==> #[trigger] rank_respected(before, rank, i);
    let shift: nat = if rank[parent as int] + 1 > rank[child as int] {
        (rank[parent as int] + 1 - rank[child as int]) as nat
    } else {
        0
    };
    let rank2: Seq<nat> = Seq::new(n, |i: int| if in_subtree(before, child as int, i) { rank[i] + shift } else { rank[i] });
    assert(nth_parent(before, child as int, 0) == Some(child as int));
    assert forall|i: int| 0 <= i < n implies #[trigger] rank_respected(after, rank2, i) by {
        assert(rank_respected(before, rank, i));
        assert(node_tree_ok(before, i));
        if i == child as int {
            assert(in_subtree(before, child as int, child as int));
            assert(rank2[child as int] == rank[child as int] + shift);
            assert(rank2[parent as int] == rank[parent as int]);
        }
        if i != child as int {
            if let Some(p) = after[i].parent {
                assert(before[i].parent == Some(p));
                if in_subtree(before, child as int, i) {
                    let k: nat = choose|k: nat| #[trigger] nth_parent(before, i, k) == Some(child as int);
                    assert(k != 0);
                    assert(nth_parent(before, p as int, (k - 1) as nat) == Some(child as int));
                    assert(in_subtree(before, child as int, p as int));
                    assert(rank2[p as int] == rank[p as int] + shift);
                    assert(rank2[i] == rank[i] + shift);
                } else {
                    if in_subtree(before, child as int, p as int) {
                        let k: nat = choose|k: nat| #[trigger] nth_parent(before, p as int, k) == Some(child as int);
                        assert(nth_parent(before, i, k + 1) == Some(child as int));
                    }
                    assert(rank2[p as int] == rank[p as int]);
                    assert(rank2[i] == rank[i]);
                }
            }
        }
    }
    assert(rank2.len() == after.len() && forall|i: int| 0 <= i < after.len() ==> #[trigger] rank_respected(after, rank2, i));
    assert(acyclic(after));
}

/// Appending a fresh node (no parent, no children) keeps a tree a tree, and
/// the empty hierarchy is one.
pub proof fn lemma_new_node_keeps_tree(before: Seq<SceneNode>, after: Seq<SceneNode>)
    requires
        is_tree(before),
        after.len() == before.len() + 1,
        after.len() <= usize::MAX,
        after.drop_last() == before,
        after.last().parent is None,
        after.last().children@.len() == 0,
    ensures
        is_tree(after),
        is_tree(Seq::<SceneNode>::empty()),
{
    let n = before.len();
    assert forall|i: int| 0 <= i < after.len() implies #[trigger] node_tree_ok(after, i) by {
        if i < n {
            assert(after[i] == before[i]);
            assert(node_tree_ok(before, i));
            if let Some(p) = after[i].parent {
                assert(after[p as int] == before[p as int]);
            }
        }
    }
    assert forall|p: int, c: int| 0 <= p < after.len() && 0 <= c < after.len() implies #[trigger] link_mirrored(after, p, c) by {
        if p < n && c < n {
            assert(after[p] == before[p] && after[c] == before[c]);
            assert(link_mirrored(before, p, c));
        } else if p < n {
            assert(after[p] == before[p]);
            assert(node_tree_ok(before, p));
            assert(c == n);
            if after[p].children@.contains(c as usize) {
                let k: int = choose|k: int| 0 <= k < after[p].children@.len() && after[p].children@[k] == c as usize;
                assert(after[p].children@[k] < n);
            }
            assert(!after[p].children@.contains(c as usize));
        } else if c < n {
            assert(after[c] == before[c]);
            assert(node_tree_ok(before, c));
            assert(node_links_ok(before, c));
        }
    }
    let rank: Seq<nat> = choose|rank: Seq<nat>|
        rank.len() == before.len() && forall|i: int| 0 <= i < before.len() ==> #[trigger] rank_respected(before, rank, i);
    let rank2: Seq<nat> = rank.push(0);
    assert forall|i: int| 0 <= i < after.len() implies #[trigger] rank_respected(after, rank2, i) by {
        if i < n {
            assert(after[i] == before[i]);
            assert(rank_respected(before, rank, i));
            assert(node_tree_ok(before, i));
        }
    }
    assert(rank2.len() == after.len() && forall|i: int| 0 <= i < after.len() ==> #[trigger] rank_respected(after, rank2, i));
    let empty = Seq::<SceneNode>::empty();
    assert(Seq::<nat>::empty().len() == empty.len() && forall|i: int| 0 <= i < empty.len() ==> #[trigger] rank_respected(empty, Seq::<nat>::empty(), i));
}

/// In a graph without cycles no node is its own strict ancestor: following
/// one or more parent links from a node never leads back to it.
pub proof fn lemma_acyclic_no_self_ancestor(nodes: Seq<SceneNode>, i: int, k: nat)
    requires
        acyclic(nodes),
        forall|c: int| 0 <= c < nodes.len() ==> #[trigger] node_links_ok(nodes, c),
        0 <= i < nodes.len(),
        k >= 1,
    ensures
        nth_parent(nodes, i, k) != Some(i),
{
    let rank: Seq<nat> = choose|rank: Seq<nat>|
        rank.len() == nodes.len() && forall|j: int| 0 <= j < nodes.len() ==> #[trigger] rank_respected(nodes, rank, j);
    lemma_rank_descends(nodes, rank, i, k);
}

proof fn lemma_rank_descends(nodes: Seq<SceneNode>, rank: Seq<nat>, i: int, k: nat)
    requires
        rank.len() == nodes.len(),
        forall|j: int| 0 <= j < nodes.len() ==> #[trigger] rank_respected(nodes, rank, j),
        forall|c: int| 0 <= c < nodes.len() ==> #[trigger] node_links_ok(nodes, c),
        0 <= i < nodes.len(),
        k >= 1,
    ensures
        nth_parent(nodes, i, k) matches Some(a) ==> 0 <= a < nodes.len() && rank[a] < rank[i],
    decreases k,
{
    assert(rank_respected(nodes, rank, i));
    assert(node_links_ok(nodes, i));
    if let Some(p) = nodes[i].parent {
        if k > 1 {
            lemma_rank_descends(nodes, rank, p as int, (k - 1) as nat);
        }
    }
}

} // verus!
