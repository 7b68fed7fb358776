//! The tree store: an arena of nodes linked by index, its well-formedness,
//! and the expansion-respecting projection of the forest into rows.
use vstd::prelude::*;

verus! {

/// Whether a node is a group (may hold children) or a project (a leaf).
#[derive(Clone, Copy, Debug, PartialEq, Eq, Structural)]
pub enum NodeKind {
    Group,
    Project,
}

/// One entry of the arena.
#[derive(Clone, Debug)]
pub struct Node {
    pub name: String,
    pub kind: NodeKind,
    pub children: Vec<usize>,
    pub expanded: bool,
    pub url: String,
    pub path: String,
    pub visibility: String,
    pub last_activity: Option<String>,
}

/// One row of the projection: an arena index and its depth below a root.
#[derive(Clone, Copy, Debug, PartialEq, Eq, Structural)]
pub struct VisibleNode {
    pub id: usize,
    pub depth: usize,
}

/// The child lists of all nodes, by arena index.
pub open spec fn kids(nodes: Seq<Node>) -> Seq<Seq<usize>> {
    Seq::new(nodes.len(), |i: int| nodes[i].children@)
}

/// `rank` witnesses that the child links form no cycle: every child index is
/// in range and has a smaller rank than its parent, and no rank exceeds the
/// number of nodes.
pub open spec fn ranked(kids: Seq<Seq<usize>>, rank: Seq<nat>) -> bool {
    &&& rank.len() == kids.len()
    &&& forall|i: int| 0 <= i < rank.len() ==> #[trigger] rank[i] <= kids.len()
    &&& forall|p: int, j: int|
        0 <= p < kids.len() && 0 <= j < kids[p].len() ==> {
            &&& (#[trigger] kids[p][j]) < kids.len()
            &&& rank[kids[p][j] as int] < rank[p]
        }
}

/// The child links form a forest-shaped graph without cycles.
pub open spec fn acyclic(nodes: Seq<Node>) -> bool {
    exists|rank: Seq<nat>| ranked(kids(nodes), rank)
}

/// A fixed rank for the child links of `nodes`; it depends on those links only.
pub open spec fn forest_rank(nodes: Seq<Node>) -> Seq<nat> {
    choose|rank: Seq<nat>| ranked(kids(nodes), rank)
}

/// Rows of the subtree at `id`, placed at `depth`: the node itself, then, if it
/// is expanded, the rows of its children in child order.
pub open spec fn subtree_rows(nodes: Seq<Node>, rank: Seq<nat>, id: int, depth: nat) -> Seq<
    VisibleNode,
>
    decreases rank[id], nodes[id].children@.len() + 1,
{
    let here = seq![VisibleNode { id: id as usize, depth: depth as usize }];
    if nodes[id].expanded {
        here + child_rows(nodes, rank, id, nodes[id].children@.len() as int, depth + 1)
    } else {
        here
    }
}

/// Rows of the first `k` children of `parent`, each subtree placed at `depth`.
pub open spec fn child_rows(nodes: Seq<Node>, rank: Seq<nat>, parent: int, k: int, depth: nat) -> Seq<
    VisibleNode,
>
    decreases rank[parent], k,
{
    if k <= 0 || k > nodes[parent].children@.len() {
        Seq::empty()
    } else {
        let c = nodes[parent].children@[k - 1] as int;
        let before = child_rows(nodes, rank, parent, k - 1, depth);
        if c < nodes.len() && rank[c] < rank[parent] {
            before + subtree_rows(nodes, rank, c, depth)
        } else {
            before
        }
    }
}

/// Rows of the first `k` roots, each at depth zero.
pub open spec fn root_rows(nodes: Seq<Node>, rank: Seq<nat>, roots: Seq<usize>, k: int) -> Seq<
    VisibleNode,
>
    decreases k,
{
    if k <= 0 {
        Seq::empty()
    } else {
        root_rows(nodes, rank, roots, k - 1) + subtree_rows(nodes, rank, roots[k - 1] as int, 0)
    }
}

/// The unfiltered projection of the forest: a depth-first pre-order walk from
/// each root in root order, entering only expanded nodes.
pub open spec fn forest_rows(nodes: Seq<Node>, roots: Seq<usize>) -> Seq<VisibleNode> {
    root_rows(nodes, forest_rank(nodes), roots, roots.len() as int)
}

/// The arena, its roots and its parent map can be projected.
pub open spec fn tree_wf(nodes: Seq<Node>, roots: Seq<usize>, parent: Seq<Option<usize>>) -> bool {
    &&& acyclic(nodes)
    &&& forall|i: int| 0 <= i < roots.len() ==> #[trigger] roots[i] < nodes.len()
    &&& parent.len() == nodes.len()
}

/// The node with its expansion flag set to `on`.
pub open spec fn with_expanded(node: Node, on: bool) -> Node {
    Node { expanded: on, ..node }
}

/// Changing expansion flags leaves the child links, hence the rank, unchanged.
pub proof fn lemma_rank_ignores_flags(nodes: Seq<Node>, id: int, on: bool)
    requires
        0 <= id < nodes.len(),
    ensures
        kids(nodes.update(id, with_expanded(nodes[id], on))) == kids(nodes),
        forest_rank(nodes.update(id, with_expanded(nodes[id], on))) == forest_rank(nodes),
        acyclic(nodes.update(id, with_expanded(nodes[id], on))) == acyclic(nodes),
{
    assert(kids(nodes.update(id, with_expanded(nodes[id], on))) =~= kids(nodes));
}

/// Appends a node with no children, collapsed, and returns its index.
pub fn push_node(
    nodes: &mut Vec<Node>,
    name: &str,
    kind: NodeKind,
    url: &str,
    path: &str,
    visibility: &str,
    last_activity: Option<String>,
) -> (id: usize)
    ensures
        id == old(nodes)@.len(),
        final(nodes)@.len() == old(nodes)@.len() + 1,
        final(nodes)@.subrange(0, id as int) == old(nodes)@,
        final(nodes)@[id as int].name@ == name@,
        final(nodes)@[id as int].kind == kind,
        final(nodes)@[id as int].children@ == Seq::<usize>::empty(),
        !final(nodes)@[id as int].expanded,
        final(nodes)@[id as int].url@ == url@,
        final(nodes)@[id as int].path@ == path@,
        final(nodes)@[id as int].visibility@ == visibility@,
        final(nodes)@[id as int].last_activity == last_activity,
{
    let id = nodes.len();
    nodes.push(
        Node {
            name: String::from_str(name),
            kind,
            children: Vec::new(),
            expanded: false,
            url: String::from_str(url),
            path: String::from_str(path),
            visibility: String::from_str(visibility),
            last_activity,
        },
    );
    assert(nodes@.subrange(0, id as int) =~= old(nodes)@);
    id
}

/// Every child index is in range.
pub open spec fn links_in_range(nodes: Seq<Node>) -> bool {
    forall|p: int, j: int|
        0 <= p < nodes.len() && 0 <= j < nodes[p].children@.len() ==> (#[trigger] nodes[p].children@[j])
            < nodes.len()
}

/// The parent of `c` among the first `k` nodes: the last of them whose child
/// list holds `c`, or none.
pub open spec fn parent_upto(nodes: Seq<Node>, c: int, k: int) -> Option<usize>
    decreases k,
{
    if k <= 0 {
        None
    } else if nodes[k - 1].children@.contains(c as usize) {
        Some((k - 1) as usize)
    } else {
        parent_upto(nodes, c, k - 1)
    }
}

/// The parent map derived from the child lists.
pub open spec fn parent_map(nodes: Seq<Node>) -> Seq<Option<usize>> {
    Seq::new(nodes.len(), |c: int| parent_upto(nodes, c, nodes.len() as int))
}

/// Derives the parent map from the child lists.
pub fn build_parent_map(nodes: &[Node]) -> (parent: Vec<Option<usize>>)
    requires
        links_in_range(nodes@),
    ensures
        parent@ == parent_map(nodes@),
{
    let n = nodes.len();
    let mut parent: Vec<Option<usize>> = Vec::new();
    let mut c: usize = 0;
    while c < n
        invariant
            n == nodes@.len(),
            c <= n,
            parent@.len() == c,
            forall|k: int| 0 <= k < c ==> #[trigger] parent@[k] == None::<usize>,
        decreases n - c,
    {
        parent.push(None);
        c = c + 1;
    }
    let mut idx: usize = 0;
    while idx < n
        invariant
            n == nodes@.len(),
            idx <= n,
            links_in_range(nodes@),
            parent@.len() == n,
            forall|k: int| 0 <= k < n ==> #[trigger] parent@[k] == parent_upto(nodes@, k, idx as int),
        decreases n - idx,
    {
        let kids_here = &nodes[idx].children;
        let mut j: usize = 0;
        while j < kids_here.len()
            invariant
                n == nodes@.len(),
                idx < n,
                kids_here@ == nodes@[idx as int].children@,
                j <= kids_here@.len(),
                links_in_range(nodes@),
                parent@.len() == n,
                forall|k: int|
                    0 <= k < n ==> #[trigger] parent@[k] == (if kids_here@.subrange(0, j as int).contains(
                        k as usize,
                    ) {
                        Some(idx)
                    } else {
                        parent_upto(nodes@, k, idx as int)
                    }),
            decreases kids_here@.len() - j,
        {
            let child = kids_here[j];
            assert(nodes@[idx as int].children@[j as int] < n);
            let ghost before = parent@;
            parent.set(child, Some(idx));
            assert forall|k: int| 0 <= k < n implies #[trigger] parent@[k] == (if kids_here@.subrange(
                0,
                j + 1,
            ).contains(k as usize) {
                Some(idx)
            } else {
                parent_upto(nodes@, k, idx as int)
            }) by {
                assert(kids_here@.subrange(0, j + 1) =~= kids_here@.subrange(0, j as int).push(child));
                if k == child as int {
                    assert(kids_here@.subrange(0, j + 1)[j as int] == child);
                } else {
                    assert(parent@[k] == before[k]);
                    assert(kids_here@.subrange(0, j + 1).contains(k as usize)
                        == kids_here@.subrange(0, j as int).contains(k as usize));
                }
            }
            j = j + 1;
        }
        assert(kids_here@.subrange(0, j as int) =~= kids_here@);
        idx = idx + 1;
    }
    assert(parent@ =~= parent_map(nodes@));
    parent
}

} // verus!
