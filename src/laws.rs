//! Properties that relate several operations of the tree engine.
use vstd::prelude::*;
use crate::nav::App;
use crate::tree::{Node, VisibleNode, forest_rows, root_rows, subtree_rows, child_rows, forest_rank, with_expanded, ranked, kids, lemma_rank_ignores_flags};
use crate::nav::{clamped, collapse_step, expand_step};
use crate::filter::rows_in_range;
use crate::forest::{built_kids, built_roots, built_children, built_rank, personal_root, personal_size, lemma_built_ranked};
use crate::records::{
    GitLabGroup, GroupProjects, PersonalProjects, linked, up, placed, project_owner, group_kids,
    project_kids, top_groups, index_run, increasing, lemma_group_kids_contains, lemma_top_groups_contains,
    lemma_project_kids_shape, lemma_project_owner_range, lemma_project_owner_group, lemma_group_kids_increasing,
    lemma_project_kids_members, lemma_group_kids_members, lemma_placed_grows, lemma_last_with_id_range,
};

verus! {

/// With every node collapsed, the projection is exactly one row per root, at
/// depth zero, in root order.
pub proof fn lemma_collapsed_forest_one_row_per_root(nodes: Seq<Node>, roots: Seq<usize>)
    requires
        forall|i: int| 0 <= i < roots.len() ==> #[trigger] roots[i] < nodes.len(),
        forall|i: int| 0 <= i < nodes.len() ==> !(#[trigger] nodes[i]).expanded,
    ensures
        forest_rows(nodes, roots) == Seq::new(roots.len(), |i: int| VisibleNode { id: roots[i], depth: 0 }),
{
    lemma_collapsed_prefix(nodes, forest_rank(nodes), roots, roots.len() as int);
}

proof fn lemma_collapsed_prefix(nodes: Seq<Node>, rank: Seq<nat>, roots: Seq<usize>, k: int)
    requires
        0 <= k <= roots.len(),
        forall|i: int| 0 <= i < roots.len() ==> #[trigger] roots[i] < nodes.len(),
        forall|i: int| 0 <= i < nodes.len() ==> !(#[trigger] nodes[i]).expanded,
    ensures
        root_rows(nodes, rank, roots, k) == Seq::new(k as nat, |i: int| VisibleNode { id: roots[i], depth: 0 }),
    decreases k,
{
    if k > 0 {
        lemma_collapsed_prefix(nodes, rank, roots, k - 1);
        let r = roots[k - 1] as int;
        assert(!nodes[r].expanded);
        assert(subtree_rows(nodes, rank, r, 0) == seq![VisibleNode { id: r as usize, depth: 0 }]);
        assert(root_rows(nodes, rank, roots, k) =~= Seq::new(k as nat, |i: int| VisibleNode { id: roots[i], depth: 0 }));
    } else {
        assert(root_rows(nodes, rank, roots, k) =~= Seq::new(k as nat, |i: int| VisibleNode { id: roots[i], depth: 0 }));
    }
}

/// Node `c` stands at position `j` of node `p`'s child list.
pub open spec fn held_at(kids: Seq<Seq<usize>>, p: int, j: int, c: int) -> bool {
    &&& 0 <= p < kids.len()
    &&& 0 <= j < kids[p].len()
    &&& kids[p][j] == c
}

/// Node `c` stands in exactly one child list, at exactly one position.
pub open spec fn single_parent(kids: Seq<Seq<usize>>, c: int) -> bool {
    exists|p: int, j: int|
        {
            &&& #[trigger] held_at(kids, p, j, c)
            &&& forall|p2: int, j2: int| #[trigger] held_at(kids, p2, j2, c) ==> p2 == p && j2 == j
        }
}

/// `path` follows child links: each node holds the next one as a child.
pub open spec fn child_path(kids: Seq<Seq<usize>>, path: Seq<usize>) -> bool {
    &&& path.len() >= 2
    &&& forall|i: int|
        0 <= i < path.len() - 1 ==> (#[trigger] path[i]) < kids.len() && kids[path[i] as int].contains(path[i + 1])
}

/// The group or root that holds node `c` in the built forest, if any.
pub open spec fn built_owner(
    groups: Seq<GitLabGroup>,
    entries: Seq<GroupProjects>,
    personal: Option<PersonalProjects>,
    c: int,
) -> Option<int> {
    let g = groups.len();
    let root = personal_root(groups, entries);
    if c < g {
        if linked(groups, c) {
            up(groups, c)
        } else {
            None
        }
    } else if c < root {
        project_owner(groups, entries, c, entries.len() as int)
    } else if personal is Some && c > root {
        Some(root as int)
    } else {
        None
    }
}

proof fn lemma_path_lowers_rank(kids: Seq<Seq<usize>>, rank: Seq<nat>, path: Seq<usize>, i: int)
    requires
        ranked(kids, rank),
        child_path(kids, path),
        1 <= i < path.len(),
    ensures
        path[i] < kids.len(),
        rank[path[i] as int] < rank[path[0] as int],
    decreases i,
{
    let p = path[i - 1] as int;
    assert(path[i - 1] < kids.len() && kids[p].contains(path[i]));
    let j = choose|j: int| 0 <= j < kids[p].len() && kids[p][j] == path[i];
    assert(kids[p][j] < kids.len() && rank[kids[p][j] as int] < rank[p]);
    if i > 1 {
        lemma_path_lowers_rank(kids, rank, path, i - 1);
    }
}

proof fn lemma_built_membership(
    groups: Seq<GitLabGroup>,
    entries: Seq<GroupProjects>,
    personal: Option<PersonalProjects>,
    p: int,
    c: int,
)
    requires
        groups.len() + placed(groups, entries, entries.len() as int) + personal_size(personal) < usize::MAX,
        0 <= p < built_kids(groups, entries, personal).len(),
        0 <= c < built_kids(groups, entries, personal).len(),
    ensures
        built_children(groups, entries, personal, p).contains(c as usize) <==> built_owner(groups, entries, personal, c) == Some(p),
        increasing(built_children(groups, entries, personal, p)),
{
    let g = groups.len() as int;
    let ee = entries.len() as int;
    let root = personal_root(groups, entries) as int;
    lemma_placed_grows(groups, entries, ee, ee);
    lemma_project_owner_range(groups, entries, c, ee);
    lemma_project_owner_group(groups, entries, c, ee);
    if let Some(pid) = groups[c].parent_id {
        lemma_last_with_id_range(groups, pid, g);
    }
    let ch = built_children(groups, entries, personal, p);
    if p < g {
        let gk = group_kids(groups, p, g);
        let pk = project_kids(groups, entries, p, ee);
        lemma_group_kids_contains(groups, p, g, c);
        lemma_project_kids_shape(groups, entries, p, ee);
        lemma_group_kids_increasing(groups, p, g);
        lemma_group_kids_members(groups, p, g);
        lemma_project_kids_members(groups, entries, p, ee);
        assert(ch == gk + pk);
        assert(pk.contains(c as usize) <==> project_owner(groups, entries, c, ee) == Some(p));
        if ch.contains(c as usize) {
            let q = choose|q: int| 0 <= q < ch.len() && ch[q] == c as usize;
            if q < gk.len() {
                assert(gk[q] == ch[q]);
                assert(gk.contains(c as usize));
            } else {
                assert(pk[q - gk.len()] == ch[q]);
                assert(pk.contains(c as usize));
            }
        }
        if built_owner(groups, entries, personal, c) == Some(p) {
            if c < g {
                assert(gk.contains(c as usize));
                let q = choose|q: int| 0 <= q < gk.len() && gk[q] == c as usize;
                assert(ch[q] == gk[q]);
            } else {
                assert(pk.contains(c as usize));
                let q = choose|q: int| 0 <= q < pk.len() && pk[q] == c as usize;
                assert(ch[gk.len() + q] == pk[q]);
            }
        }
        assert forall|a: int, b: int| 0 <= a < b < ch.len() implies ch[a] < ch[b] by {
            if b < gk.len() {
                assert(ch[a] == gk[a] && ch[b] == gk[b]);
            } else if a < gk.len() {
                assert(ch[a] == gk[a] && ch[b] == pk[b - gk.len()]);
            } else {
                assert(ch[a] == pk[a - gk.len()] && ch[b] == pk[b - gk.len()]);
            }
        }
    } else if personal is Some && p == root {
        let run = index_run((root + 1) as nat, personal->Some_0.projects@.len());
        assert(ch == run);
        if ch.contains(c as usize) {
            let q = choose|q: int| 0 <= q < ch.len() && ch[q] == c as usize;
            assert(run[q] == c as usize);
        }
        if built_owner(groups, entries, personal, c) == Some(p) {
            assert(run[c - root - 1] == c as usize);
        }
    } else {
        assert(ch.len() == 0);
    }
}

/// Every node of the forest built from any record set, except the roots,
/// stands in exactly one child list at exactly one position; a root stands
/// in none; and no node is its own ancestor.
pub proof fn lemma_built_forest_has_single_parents(
    groups: Seq<GitLabGroup>,
    entries: Seq<GroupProjects>,
    personal: Option<PersonalProjects>,
)
    requires
        groups.len() + placed(groups, entries, entries.len() as int) + personal_size(personal) < usize::MAX,
    ensures
        ({
            let kids = built_kids(groups, entries, personal);
            let roots = built_roots(groups, entries, personal);
            &&& forall|c: int, p: int, j: int|
                0 <= c < kids.len() && roots.contains(c as usize) ==> !#[trigger] held_at(kids, p, j, c)
            &&& forall|c: int| 0 <= c < kids.len() && !roots.contains(c as usize) ==> #[trigger] single_parent(kids, c)
            &&& forall|path: Seq<usize>| #[trigger] child_path(kids, path) ==> path.last() != path[0]
        }),
{
    let kids = built_kids(groups, entries, personal);
    let roots = built_roots(groups, entries, personal);
    let n = kids.len();
    let g = groups.len() as int;
    let ee = entries.len() as int;
    let root = personal_root(groups, entries) as int;
    lemma_placed_grows(groups, entries, ee, ee);
    assert forall|c: int| 0 <= c < n implies #[trigger] roots.contains(c as usize) <==> built_owner(groups, entries, personal, c) is None by {
        lemma_top_groups_contains(groups, g, c);
        lemma_project_owner_range(groups, entries, c, ee);
        let tg = top_groups(groups, g);
        if roots.contains(c as usize) {
            let q = choose|q: int| 0 <= q < roots.len() && roots[q] == c as usize;
            if q < tg.len() {
                assert(tg[q] == roots[q]);
                assert(tg.contains(c as usize));
            }
        }
        if built_owner(groups, entries, personal, c) is None {
            if c < g {
                assert(tg.contains(c as usize));
                let q = choose|q: int| 0 <= q < tg.len() && tg[q] == c as usize;
                assert(roots[q] == tg[q]);
            } else {
                assert(c == root && personal is Some);
                assert(roots[tg.len() as int] == root as usize);
            }
        }
    }
    assert forall|c: int, p: int, j: int| 0 <= c < n && roots.contains(c as usize) implies !#[trigger] held_at(kids, p, j, c) by {
        assert(roots.contains(c as usize));
        if held_at(kids, p, j, c) {
            lemma_built_membership(groups, entries, personal, p, c);
            assert(kids[p] == built_children(groups, entries, personal, p));
            assert(kids[p].contains(c as usize));
        }
    }
    assert forall|c: int| 0 <= c < n && !roots.contains(c as usize) implies #[trigger] single_parent(kids, c) by {
        assert(!roots.contains(c as usize));
        let p = built_owner(groups, entries, personal, c)->Some_0;
        lemma_project_owner_group(groups, entries, c, ee);
        if let Some(pid) = groups[c].parent_id {
            lemma_last_with_id_range(groups, pid, g);
        }
        assert(0 <= p < n);
        lemma_built_membership(groups, entries, personal, p, c);
        assert(kids[p] == built_children(groups, entries, personal, p));
        let j = choose|j: int| 0 <= j < kids[p].len() && kids[p][j] == c as usize;
        assert(held_at(kids, p, j, c));
        assert forall|p2: int, j2: int| #[trigger] held_at(kids, p2, j2, c) implies p2 == p && j2 == j by {
            lemma_built_membership(groups, entries, personal, p2, c);
            assert(kids[p2] == built_children(groups, entries, personal, p2));
            assert(kids[p2].contains(c as usize));
            if j2 < j {
                assert(kids[p][j2] < kids[p][j]);
            } else if j2 > j {
                assert(kids[p][j] < kids[p][j2]);
            }
        }
    }
    lemma_built_ranked(groups, entries, personal);
    let rank = built_rank(groups, entries, personal, n);
    assert forall|path: Seq<usize>| #[trigger] child_path(kids, path) implies path.last() != path[0] by {
        lemma_path_lowers_rank(kids, rank, path, path.len() - 1);
    }
}

/// `r2` agrees with `r` on every row up to and including the first row of
/// node `n`, and equals it when `n` has no row.
pub open spec fn same_until(r: Seq<VisibleNode>, r2: Seq<VisibleNode>, n: usize) -> bool {
    &&& clear_before(r, n, r.len() as int) ==> r2 == r
    &&& forall|i: int| 0 <= i < r.len() && #[trigger] clear_before(r, n, i) ==> i < r2.len() && r2[i] == r[i]
}

/// None of the first `i` rows shows node `n`.
pub open spec fn clear_before(r: Seq<VisibleNode>, n: usize, i: int) -> bool {
    forall|j: int| 0 <= j < i ==> (#[trigger] r[j]).id != n
}

proof fn lemma_same_until_concat(a: Seq<VisibleNode>, a2: Seq<VisibleNode>, b: Seq<VisibleNode>, b2: Seq<VisibleNode>, n: usize)
    requires
        same_until(a, a2, n),
        same_until(b, b2, n),
    ensures
        same_until(a + b, a2 + b2, n),
{
    let r = a + b;
    let r2 = a2 + b2;
    if clear_before(r, n, r.len() as int) {
        assert forall|j: int| 0 <= j < a.len() implies (#[trigger] a[j]).id != n by {
            assert(r[j] == a[j]);
        }
        assert forall|j: int| 0 <= j < b.len() implies (#[trigger] b[j]).id != n by {
            assert(r[a.len() + j] == b[j]);
        }
        assert(clear_before(a, n, a.len() as int));
        assert(clear_before(b, n, b.len() as int));
        assert(r2 =~= r);
    }
    assert forall|i: int| 0 <= i < r.len() && #[trigger] clear_before(r, n, i) implies i < r2.len() && r2[i] == r[i] by {
        if i < a.len() {
            assert forall|j: int| 0 <= j < i implies (#[trigger] a[j]).id != n by {
                assert(r[j] == a[j]);
            }
            assert(clear_before(a, n, i));
            assert(r2[i] == a2[i]);
        } else {
            assert forall|j: int| 0 <= j < a.len() implies (#[trigger] a[j]).id != n by {
                assert(r[j] == a[j]);
            }
            assert(clear_before(a, n, a.len() as int));
            assert(a2 == a);
            let k = i - a.len();
            assert forall|j: int| 0 <= j < k implies (#[trigger] b[j]).id != n by {
                assert(r[a.len() + j] == b[j]);
            }
            assert(clear_before(b, n, k));
            assert(r2[i] == b2[k]);
        }
    }
}

proof fn lemma_subtree_same_until(nodes: Seq<Node>, nodes2: Seq<Node>, rank: Seq<nat>, n: int, on: bool, x: int, d: nat)
    requires
        0 <= n < nodes.len(),
        nodes2 == nodes.update(n, with_expanded(nodes[n], on)),
        ranked(kids(nodes), rank),
        0 <= x < nodes.len(),
    ensures
        same_until(subtree_rows(nodes, rank, x, d), subtree_rows(nodes2, rank, x, d), n as usize),
    decreases rank[x], nodes[x].children@.len() + 1,
{
    let r = subtree_rows(nodes, rank, x, d);
    let r2 = subtree_rows(nodes2, rank, x, d);
    let here = seq![VisibleNode { id: x as usize, depth: d as usize }];
    if x == n {
        assert(r[0] == here[0]);
        assert(r2[0] == here[0]);
        assert(r[0].id == n as usize);
        assert(!clear_before(r, n as usize, r.len() as int));
        assert forall|i: int| 0 <= i < r.len() && #[trigger] clear_before(r, n as usize, i) implies i < r2.len() && r2[i] == r[i] by {
            if i > 0 {
                assert(r[0].id != n as usize);
            }
        }
    } else {
        assert(nodes2[x] == nodes[x]);
        if nodes[x].expanded {
            let len = nodes[x].children@.len() as int;
            lemma_child_same_until(nodes, nodes2, rank, n, on, x, len, d + 1);
            lemma_same_until_concat(here, here, child_rows(nodes, rank, x, len, d + 1), child_rows(nodes2, rank, x, len, d + 1), n as usize);
        }
    }
}

proof fn lemma_child_same_until(nodes: Seq<Node>, nodes2: Seq<Node>, rank: Seq<nat>, n: int, on: bool, p: int, k: int, d: nat)
    requires
        0 <= n < nodes.len(),
        nodes2 == nodes.update(n, with_expanded(nodes[n], on)),
        ranked(kids(nodes), rank),
        0 <= p < nodes.len(),
    ensures
        same_until(child_rows(nodes, rank, p, k, d), child_rows(nodes2, rank, p, k, d), n as usize),
    decreases rank[p], k,
{
    assert(nodes2[p].children == nodes[p].children);
    if k <= 0 || k > nodes[p].children@.len() {
    } else {
        let c = nodes[p].children@[k - 1] as int;
        lemma_child_same_until(nodes, nodes2, rank, n, on, p, k - 1, d);
        let before = child_rows(nodes, rank, p, k - 1, d);
        let before2 = child_rows(nodes2, rank, p, k - 1, d);
        if c < nodes.len() && rank[c] < rank[p] {
            lemma_subtree_same_until(nodes, nodes2, rank, n, on, c, d);
            lemma_same_until_concat(before, before2, subtree_rows(nodes, rank, c, d), subtree_rows(nodes2, rank, c, d), n as usize);
        }
    }
}

proof fn lemma_roots_same_until(nodes: Seq<Node>, nodes2: Seq<Node>, rank: Seq<nat>, n: int, on: bool, roots: Seq<usize>, k: int)
    requires
        0 <= n < nodes.len(),
        nodes2 == nodes.update(n, with_expanded(nodes[n], on)),
        ranked(kids(nodes), rank),
        0 <= k <= roots.len(),
        forall|i: int| 0 <= i < roots.len() ==> #[trigger] roots[i] < nodes.len(),
    ensures
        same_until(root_rows(nodes, rank, roots, k), root_rows(nodes2, rank, roots, k), n as usize),
    decreases k,
{
    if k > 0 {
        lemma_roots_same_until(nodes, nodes2, rank, n, on, roots, k - 1);
        lemma_subtree_same_until(nodes, nodes2, rank, n, on, roots[k - 1] as int, 0);
        lemma_same_until_concat(
            root_rows(nodes, rank, roots, k - 1),
            root_rows(nodes2, rank, roots, k - 1),
            subtree_rows(nodes, rank, roots[k - 1] as int, 0),
            subtree_rows(nodes2, rank, roots[k - 1] as int, 0),
            n as usize,
        );
    }
}

/// Changing one node's expansion flag leaves the unfiltered projection
/// unchanged up to and including that node's first row.
pub proof fn lemma_flag_change_keeps_rows_until_node(app: App, n: int, on: bool)
    requires
        app.wf(),
        0 <= n < app.nodes@.len(),
    ensures
        same_until(
            forest_rows(app.nodes@, app.roots@),
            forest_rows(app.nodes_with(n, on), app.roots@),
            n as usize,
        ),
{
    let nodes = app.nodes@;
    lemma_rank_ignores_flags(nodes, n, on);
    let rank = forest_rank(nodes);
    assert(ranked(kids(nodes), rank));
    lemma_roots_same_until(nodes, app.nodes_with(n, on), rank, n, on, app.roots@, app.roots@.len() as int);
}

/// Expanding the selected collapsed node and then collapsing it again, each
/// against the projection the user sees, gives back the same nodes, the
/// same projection and the same selection (no query applied, the selection
/// on the node's first row).
pub proof fn lemma_expand_then_collapse_round_trip(a0: App, v0: Seq<VisibleNode>, a1: App, v1: Seq<VisibleNode>, a2: App)
    requires
        a0.wf(),
        a0.search_query is None,
        v0 == a0.rows(),
        rows_in_range(v0, a0.nodes@),
        a0.selected < v0.len(),
        forall|j: int| 0 <= j < a0.selected ==> (#[trigger] v0[j]).id != v0[a0.selected as int].id,
        a0.nodes@[v0[a0.selected as int].id as int].children@.len() > 0,
        !a0.nodes@[v0[a0.selected as int].id as int].expanded,
        expand_step(a0, a1, v0),
        v1 == a1.rows(),
        collapse_step(a1, a2, v1),
    ensures
        a2.nodes@ == a0.nodes@,
        a2.rows() == v0,
        a2.selected == a0.selected,
{
    let s = a0.selected;
    let n = v0[s as int].id as int;
    assert(clamped(s, v0.len()) == s);
    assert(a1.nodes@ == a0.nodes_with(n, true));
    lemma_flag_change_keeps_rows_until_node(a0, n, true);
    lemma_rank_ignores_flags(a0.nodes@, n, true);
    assert(v1 == forest_rows(a0.nodes_with(n, true), a0.roots@));
    assert(clear_before(v0, n as usize, s as int));
    assert(v1[s as int] == v0[s as int]);
    assert(a1.selected == s);
    let nodes1 = a1.nodes@;
    assert(nodes1[n].expanded);
    assert(a2.nodes@ =~= a0.nodes@) by {
        assert(a2.nodes@ == nodes1.update(n, with_expanded(nodes1[n], false)));
    }
    assert(a2.rows() == v0);
}

} // verus!
