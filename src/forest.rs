//! Building the forest from raw records.
use vstd::prelude::*;
use vstd::string::*;
use std::collections::HashMap;
use crate::config::Config;
use crate::nav::App;
use crate::records::{
    GitLabGroup, GitLabProject, GroupProjects, PersonalProjects, last_with_id, group_index, up,
    grounded, dist, chain_fuel, linked, group_kids, top_groups, owner, placed, index_run,
    project_kids, lemma_grounded_more_fuel, lemma_group_kids_members, lemma_project_kids_members,
    lemma_placed_grows,
};
use crate::tree::{Node, NodeKind, push_node, build_parent_map, parent_map, ranked, kids, acyclic};

verus! {

/// A node made from a group record.
pub open spec fn group_node(n: Node, g: GitLabGroup) -> bool {
    &&& n.name@ == g.name@
    &&& n.kind == NodeKind::Group
    &&& n.url@ == g.web_url@
    &&& n.path@ == g.full_path@
    &&& n.visibility@ == g.visibility@
    &&& n.last_activity is None
}

/// A node made from a project record.
pub open spec fn project_node(n: Node, p: GitLabProject) -> bool {
    &&& n.name@ == p.name@
    &&& n.kind == NodeKind::Project
    &&& n.url@ == p.web_url@
    &&& n.path@ == p.path_with_namespace@
    &&& n.visibility@ == p.visibility@
    &&& n.last_activity == p.last_activity_at
}

/// The root made from a personal namespace.
pub open spec fn personal_node(n: Node, p: PersonalProjects) -> bool {
    &&& n.name@ == p.username@
    &&& n.kind == NodeKind::Group
    &&& n.url@ == p.web_url@
    &&& n.path@ == p.username@
    &&& n.visibility@ == "private"@
    &&& n.last_activity is None
}

/// The node made from project `t` of list `e` is in place.
pub open spec fn placed_project(
    nodes: Seq<Node>,
    groups: Seq<GitLabGroup>,
    entries: Seq<GroupProjects>,
    e: int,
    t: int,
) -> bool {
    project_node(nodes[groups.len() + placed(groups, entries, e) + t], entries[e].projects@[t])
}

/// Number of nodes a personal namespace adds.
pub open spec fn personal_size(personal: Option<PersonalProjects>) -> nat {
    match personal {
        Some(p) => 1 + p.projects@.len(),
        None => 0,
    }
}

/// Index of the personal root: after all group and project nodes.
pub open spec fn personal_root(groups: Seq<GitLabGroup>, entries: Seq<GroupProjects>) -> nat {
    groups.len() + placed(groups, entries, entries.len() as int)
}

/// The roots of the built forest: top-level groups in record order, then the
/// personal root.
pub open spec fn built_roots(
    groups: Seq<GitLabGroup>,
    entries: Seq<GroupProjects>,
    personal: Option<PersonalProjects>,
) -> Seq<usize> {
    top_groups(groups, groups.len() as int) + if personal is Some {
        seq![personal_root(groups, entries) as usize]
    } else {
        Seq::empty()
    }
}

/// The child list of node `i` in the built forest: a group's placed
/// subgroups in record order, then its projects in list order; the personal
/// root's projects; nothing for a project.
pub open spec fn built_children(
    groups: Seq<GitLabGroup>,
    entries: Seq<GroupProjects>,
    personal: Option<PersonalProjects>,
    i: int,
) -> Seq<usize> {
    if 0 <= i < groups.len() {
        group_kids(groups, i, groups.len() as int) + project_kids(groups, entries, i, entries.len() as int)
    } else if personal is Some && i == personal_root(groups, entries) {
        index_run(personal_root(groups, entries) + 1, personal->Some_0.projects@.len())
    } else {
        Seq::empty()
    }
}

/// The rank that witnesses acyclicity of the built forest.
pub open spec fn built_rank(
    groups: Seq<GitLabGroup>,
    entries: Seq<GroupProjects>,
    personal: Option<PersonalProjects>,
    n: nat,
) -> Seq<nat> {
    Seq::new(
        n,
        |i: int|
            if i < groups.len() {
                (groups.len() - dist(groups, i, chain_fuel(groups))) as nat
            } else if personal is Some && i == personal_root(groups, entries) {
                1
            } else {
                0
            },
    )
}

fn clone_text_opt(o: &Option<String>) -> (r: Option<String>)
    ensures
        r == *o,
{
    match o {
        Some(s) => Some(s.clone()),
        None => None,
    }
}

/// Child lists of the built forest, by node index.
pub open spec fn built_kids(
    groups: Seq<GitLabGroup>,
    entries: Seq<GroupProjects>,
    personal: Option<PersonalProjects>,
) -> Seq<Seq<usize>> {
    Seq::new(
        groups.len() + placed(groups, entries, entries.len() as int) + personal_size(personal),
        |i: int| built_children(groups, entries, personal, i),
    )
}

pub proof fn lemma_built_ranked(
    groups: Seq<GitLabGroup>,
    entries: Seq<GroupProjects>,
    personal: Option<PersonalProjects>,
)
    requires
        groups.len() + placed(groups, entries, entries.len() as int) + personal_size(personal) <= usize::MAX,
    ensures
        ranked(
            built_kids(groups, entries, personal),
            built_rank(groups, entries, personal, built_kids(groups, entries, personal).len()),
        ),
{
    let g = groups.len();
    let ee = entries.len() as int;
    let fuel = chain_fuel(groups);
    let k = built_kids(groups, entries, personal);
    let rank = built_rank(groups, entries, personal, k.len());
    assert forall|i: int| 0 <= i < rank.len() implies #[trigger] rank[i] <= k.len() by {
        if i < g {
            lemma_dist_bound(groups, i, fuel);
        }
    }
    assert forall|p: int, j: int| 0 <= p < k.len() && 0 <= j < k[p].len() implies {
        &&& (#[trigger] k[p][j]) < k.len()
        &&& rank[k[p][j] as int] < rank[p]
    } by {
        assert(k[p] == built_children(groups, entries, personal, p));
        if p < g {
            let gk = group_kids(groups, p, g as int);
            lemma_group_kids_members(groups, p, g as int);
            lemma_placed_grows(groups, entries, ee, ee);
            lemma_project_kids_members(groups, entries, p, ee);
            lemma_dist_bound(groups, p, fuel);
            if j < gk.len() {
                let c = gk[j] as int;
                assert(k[p][j] == gk[j]);
                assert(linked(groups, c));
                assert(fuel > 0);
                lemma_grounded_more_fuel(groups, p, (fuel - 1) as nat);
                assert(dist(groups, c, fuel) == 1 + dist(groups, p, (fuel - 1) as nat));
            } else {
                assert(k[p][j] == project_kids(groups, entries, p, ee)[j - gk.len()]);
            }
        } else if personal is Some && p == personal_root(groups, entries) {
            assert(k[p][j] == index_run(personal_root(groups, entries) + 1, personal->Some_0.projects@.len())[j]);
        }
    }
}

proof fn lemma_up_range(groups: Seq<GitLabGroup>, k: int)
    ensures
        up(groups, k) matches Some(p) ==> 0 <= p < groups.len(),
{
    if let Some(pid) = groups[k].parent_id {
        crate::records::lemma_last_with_id_range(groups, pid, groups.len() as int);
    }
}

proof fn lemma_dist_bound(groups: Seq<GitLabGroup>, i: int, f: nat)
    ensures
        dist(groups, i, f) <= f,
    decreases f,
{
    match up(groups, i) {
        None => {},
        Some(p) => {
            if f > 0 {
                lemma_dist_bound(groups, p, (f - 1) as nat);
            }
        },
    }
}

impl App {
    /// Builds the forest from raw records: one node per group, placed under
    /// its parent group when the parent id resolves and leads to a top-level
    /// group, else a root; one leaf per project under the group its list names,
    /// lists for unknown groups skipped; the personal namespace, if any, as a
    /// last root with its projects. Roots start expanded; the selection is the
    /// first row.
    pub fn from_gitlab_data(
        groups: Vec<GitLabGroup>,
        projects_by_group: Vec<GroupProjects>,
        personal: Option<PersonalProjects>,
        config: Config,
        status: String,
    ) -> (app: App)
        requires
            groups@.len() + placed(groups@, projects_by_group@, projects_by_group@.len() as int)
                + personal_size(personal) < usize::MAX,
        ensures
            app.wf(),
            app.nodes@.len() == groups@.len() + placed(groups@, projects_by_group@, projects_by_group@.len() as int)
                + personal_size(personal),
            forall|i: int| 0 <= i < groups@.len() ==> group_node(#[trigger] app.nodes@[i], groups@[i]),
            forall|e: int, t: int|
                0 <= e < projects_by_group@.len() && owner(groups@, projects_by_group@[e]) is Some && 0 <= t
                    < projects_by_group@[e].projects@.len() ==> #[trigger] placed_project(
                    app.nodes@,
                    groups@,
                    projects_by_group@,
                    e,
                    t,
                ),
            personal matches Some(pp) ==> {
                let r = personal_root(groups@, projects_by_group@) as int;
                &&& personal_node(app.nodes@[r], pp)
                &&& forall|t: int| 0 <= t < pp.projects@.len() ==> project_node(#[trigger] app.nodes@[r + 1 + t], pp.projects@[t])
            },
            forall|i: int| 0 <= i < app.nodes@.len() ==> (#[trigger] app.nodes@[i]).children@ == built_children(
                groups@,
                projects_by_group@,
                personal,
                i,
            ),
            app.roots@ == built_roots(groups@, projects_by_group@, personal),
            forall|i: int| 0 <= i < app.nodes@.len() ==> (#[trigger] app.nodes@[i]).expanded == app.roots@.contains(i as usize),
            app.parent@ == parent_map(app.nodes@),
            app.selected == 0,
            app.config == config,
            app.status == Some(status),
            !app.pending_g,
            app.toast is None,
            app.search_query is None,
            !app.search_mode,
    {
        let ghost gs = groups@;
        let ghost es = projects_by_group@;
        let gn = groups.len();
        let mut nodes: Vec<Node> = Vec::new();
        let mut index: HashMap<usize, usize> = HashMap::new();
        let mut i: usize = 0;
        while i < gn
            invariant
                gs == groups@,
                gn == gs.len(),
                i <= gn,
                nodes@.len() == i,
                forall|k: int| 0 <= k < i ==> group_node(#[trigger] nodes@[k], gs[k]),
                forall|k: int| 0 <= k < i ==> (#[trigger] nodes@[k]).children@.len() == 0 && !nodes@[k].expanded,
                forall|id: usize| #[trigger] index@.contains_key(id) == (last_with_id(gs, id, i as int) is Some),
                forall|id: usize| index@.contains_key(id) ==> #[trigger] index@[id] as int == last_with_id(gs, id, i as int)->Some_0,
            decreases gn - i,
        {
            let g = &groups[i];
            let ghost before = nodes@;
            push_node(&mut nodes, g.name.as_str(), NodeKind::Group, g.web_url.as_str(), g.full_path.as_str(), g.visibility.as_str(), None);
            assert forall|k: int| 0 <= k < i implies #[trigger] nodes@[k] == before[k] by {
                assert(nodes@.subrange(0, i as int)[k] == nodes@[k]);
            }
            index.insert(g.id, i);
            i = i + 1;
        }
        // Resolve each group's parent id to a group position.
        let mut ups: Vec<Option<usize>> = Vec::new();
        let mut i: usize = 0;
        while i < gn
            invariant
                gs == groups@,
                gn == gs.len(),
                i <= gn,
                ups@.len() == i,
                forall|k: int| 0 <= k < i ==> #[trigger] ups@[k] == match up(gs, k) {
                    Some(p) => Some(p as usize),
                    None => None::<usize>,
                },
                forall|id: usize| #[trigger] index@.contains_key(id) == (group_index(gs, id) is Some),
                forall|id: usize| index@.contains_key(id) ==> #[trigger] index@[id] as int == group_index(gs, id)->Some_0,
            decreases gn - i,
        {
            let u = match groups[i].parent_id {
                Some(pid) => match index.get(&pid) {
                    Some(j) => Some(*j),
                    None => None,
                },
                None => None,
            };
            ups.push(u);
            i = i + 1;
        }
        assert forall|k: int| 0 <= k < gn implies ((#[trigger] ups@[k]) matches Some(p) ==> p < gn) by {
            if let Some(pid) = gs[k].parent_id {
                crate::records::lemma_last_with_id_range(gs, pid, gn as int);
            }
        }
        // Place each group under its parent or among the roots.
        let fuel: usize = if gn == 0 { 0 } else { gn - 1 };
        let mut roots: Vec<usize> = Vec::new();
        let mut i: usize = 0;
        while i < gn
            invariant
                gs == groups@,
                gn == gs.len(),
                fuel as nat == chain_fuel(gs),
                i <= gn,
                nodes@.len() == gn,
                ups@.len() == gn,
                forall|k: int| 0 <= k < gn ==> #[trigger] ups@[k] == match up(gs, k) {
                    Some(p) => Some(p as usize),
                    None => None::<usize>,
                },
                forall|k: int| 0 <= k < gn ==> ((#[trigger] ups@[k]) matches Some(p) ==> p < gn),
                forall|k: int| 0 <= k < gn ==> group_node(#[trigger] nodes@[k], gs[k]),
                forall|k: int| 0 <= k < gn ==> (#[trigger] nodes@[k]).children@ == group_kids(gs, k, i as int),
                forall|k: int| 0 <= k < gn ==> !(#[trigger] nodes@[k]).expanded,
                roots@ == top_groups(gs, i as int),
            decreases gn - i,
        {
            let mut cur: usize = i;
            let mut f: usize = fuel;
            let mut ok: bool = true;
            loop
                invariant
                    gs == groups@,
                    gn == gs.len(),
                    ups@.len() == gn,
                    forall|k: int| 0 <= k < gn ==> #[trigger] ups@[k] == match up(gs, k) {
                        Some(p) => Some(p as usize),
                        None => None::<usize>,
                    },
                    forall|k: int| 0 <= k < gn ==> ((#[trigger] ups@[k]) matches Some(p) ==> p < gn),
                    cur < gn,
                    grounded(gs, i as int, fuel as nat) == grounded(gs, cur as int, f as nat),
                ensures
                    ok == grounded(gs, i as int, fuel as nat),
                decreases f,
            {
                proof {
                        lemma_up_range(gs, cur as int);
                        assert(ups@[cur as int] == match up(gs, cur as int) {
                            Some(p) => Some(p as usize),
                            None => None::<usize>,
                        });
                    }
                match ups[cur] {
                    None => {
                        ok = true;
                        break;
                    },
                    Some(p) => {
                        if f == 0 {
                            ok = false;
                            break;
                        }
                        cur = p;
                        f = f - 1;
                    },
                }
            }
            proof {
                lemma_up_range(gs, i as int);
                assert(ups@[i as int] == match up(gs, i as int) {
                    Some(p) => Some(p as usize),
                    None => None::<usize>,
                });
            }
            match ups[i] {
                Some(p) if ok => {
                    assert(linked(gs, i as int));
                    assert(up(gs, i as int) == Some(p as int));
                    let ghost before = nodes@;
                    nodes[p].children.push(i);
                    assert forall|k: int| 0 <= k < gn implies (#[trigger] nodes@[k]).children@ == group_kids(gs, k, i + 1) by {
                        if k != p {
                            assert(nodes@[k] == before[k]);
                        }
                    }
                    assert forall|k: int| 0 <= k < gn implies group_node(#[trigger] nodes@[k], gs[k]) by {
                        assert(group_node(before[k], gs[k]));
                    }
                    assert forall|k: int| 0 <= k < gn implies !(#[trigger] nodes@[k]).expanded by {
                        assert(!before[k].expanded);
                    }
                },
                _ => {
                    assert(!linked(gs, i as int));
                    roots.push(i);
                    assert forall|k: int| 0 <= k < gn implies (#[trigger] nodes@[k]).children@ == group_kids(gs, k, i + 1) by {}
                },
            }
            i = i + 1;
        }
        // Attach each project list's projects under the group it names.
        let en = projects_by_group.len();
        let mut e: usize = 0;
        while e < en
            invariant
                gs == groups@,
                es == projects_by_group@,
                gn == gs.len(),
                en == es.len(),
                e <= en,
                gs.len() + placed(gs, es, es.len() as int) + personal_size(personal) < usize::MAX,
                nodes@.len() == gn + placed(gs, es, e as int),
                forall|k: int| 0 <= k < gn ==> group_node(#[trigger] nodes@[k], gs[k]),
                forall|k: int| 0 <= k < gn ==> (#[trigger] nodes@[k]).children@ == group_kids(gs, k, gn as int) + project_kids(gs, es, k, e as int),
                forall|k: int| gn <= k < nodes@.len() ==> (#[trigger] nodes@[k]).children@.len() == 0,
                forall|k: int| 0 <= k < nodes@.len() ==> !(#[trigger] nodes@[k]).expanded,
                forall|e2: int, t: int|
                    0 <= e2 < e && owner(gs, es[e2]) is Some && 0 <= t < es[e2].projects@.len() ==> #[trigger] placed_project(nodes@, gs, es, e2, t),
                forall|id: usize| #[trigger] index@.contains_key(id) == (group_index(gs, id) is Some),
                forall|id: usize| index@.contains_key(id) ==> #[trigger] index@[id] as int == group_index(gs, id)->Some_0,
                roots@ == top_groups(gs, gn as int),
            decreases en - e,
        {
            proof {
                lemma_placed_grows(gs, es, e + 1, es.len() as int);
            }
            let entry = &projects_by_group[e];
            match index.get(&entry.group_id) {
                None => {
                    assert forall|k: int| 0 <= k < gn implies (#[trigger] nodes@[k]).children@ == group_kids(gs, k, gn as int) + project_kids(gs, es, k, e + 1) by {}
                },
                Some(gref) => {
                    let gidx = *gref;
                    proof {
                        crate::records::lemma_last_with_id_range(gs, entry.group_id, gn as int);
                    }
                    let pn = entry.projects.len();
                    let ghost base = nodes@.len();
                    let mut t: usize = 0;
                    while t < pn
                        invariant
                            gs == groups@,
                            es == projects_by_group@,
                            gn == gs.len(),
                            e < en == es.len(),
                            *entry == es[e as int],
                            owner(gs, es[e as int]) == Some(gidx as int),
                            gidx < gn,
                            pn == entry.projects@.len(),
                            t <= pn,
                            base == gn + placed(gs, es, e as int),
                            base + pn < usize::MAX,
                            nodes@.len() == base + t,
                            forall|k: int| 0 <= k < gn ==> group_node(#[trigger] nodes@[k], gs[k]),
                            forall|k: int| 0 <= k < gn ==> (#[trigger] nodes@[k]).children@ == group_kids(gs, k, gn as int) + project_kids(gs, es, k, e as int) + if k == gidx {
                                index_run(base, t as nat)
                            } else {
                                Seq::empty()
                            },
                            forall|k: int| gn <= k < nodes@.len() ==> (#[trigger] nodes@[k]).children@.len() == 0,
                            forall|k: int| 0 <= k < nodes@.len() ==> !(#[trigger] nodes@[k]).expanded,
                            forall|e2: int, t2: int|
                                0 <= e2 < e && owner(gs, es[e2]) is Some && 0 <= t2 < es[e2].projects@.len() ==> #[trigger] placed_project(nodes@, gs, es, e2, t2),
                            forall|t2: int| 0 <= t2 < t ==> #[trigger] placed_project(nodes@, gs, es, e as int, t2),
                        decreases pn - t,
                    {
                        let p = &entry.projects[t];
                        let ghost before = nodes@;
                        let id = push_node(
                            &mut nodes,
                            p.name.as_str(),
                            NodeKind::Project,
                            p.web_url.as_str(),
                            p.path_with_namespace.as_str(),
                            p.visibility.as_str(),
                            clone_text_opt(&p.last_activity_at),
                        );
                        assert forall|k: int| 0 <= k < before.len() implies #[trigger] nodes@[k] == before[k] by {
                            assert(nodes@.subrange(0, id as int)[k] == nodes@[k]);
                        }
                        let ghost mid = nodes@;
                        nodes[gidx].children.push(id);
                        assert forall|k: int| 0 <= k < gn implies (#[trigger] nodes@[k]).children@ == group_kids(gs, k, gn as int) + project_kids(gs, es, k, e as int) + if k == gidx {
                            index_run(base, (t + 1) as nat)
                        } else {
                            Seq::empty()
                        } by {
                            if k == gidx {
                                assert(index_run(base, (t + 1) as nat) =~= index_run(base, t as nat).push(id));
                            } else {
                                assert(nodes@[k] == mid[k]);
                            }
                        }
                        assert forall|k: int| 0 <= k < nodes@.len() && k != gidx implies #[trigger] nodes@[k] == mid[k] by {}
                        assert forall|k: int| 0 <= k < gn implies group_node(#[trigger] nodes@[k], gs[k]) by {
                            assert(group_node(before[k], gs[k]));
                        }
                        assert forall|e2: int, t2: int|
                            0 <= e2 < e && owner(gs, es[e2]) is Some && 0 <= t2 < es[e2].projects@.len() implies #[trigger] placed_project(nodes@, gs, es, e2, t2) by {
                            assert(placed_project(before, gs, es, e2, t2));
                            lemma_placed_grows(gs, es, e2 + 1, e as int);
                        }
                        assert forall|t2: int| 0 <= t2 < t + 1 implies #[trigger] placed_project(nodes@, gs, es, e as int, t2) by {
                            if t2 < t {
                                assert(placed_project(before, gs, es, e as int, t2));
                            }
                        }
                        t = t + 1;
                    }
                    assert forall|k: int| 0 <= k < gn implies (#[trigger] nodes@[k]).children@ == group_kids(gs, k, gn as int) + project_kids(gs, es, k, e + 1) by {
                        assert(project_kids(gs, es, k, e + 1) == project_kids(gs, es, k, e as int) + if k == gidx {
                            index_run(base, pn as nat)
                        } else {
                            Seq::<usize>::empty()
                        });
                        assert(group_kids(gs, k, gn as int) + project_kids(gs, es, k, e as int) + Seq::<usize>::empty() =~= group_kids(gs, k, gn as int) + project_kids(gs, es, k, e as int));
                        assert(group_kids(gs, k, gn as int) + project_kids(gs, es, k, e as int) + index_run(base, pn as nat) =~= group_kids(gs, k, gn as int) + (project_kids(gs, es, k, e as int) + index_run(base, pn as nat)));
                    }
                },
            }
            e = e + 1;
        }
        let ghost after_projects = nodes@;
        let pbase = nodes.len();
        // The personal namespace becomes the last root.
        match &personal {
            Some(pp) => {
                let root = push_node(&mut nodes, pp.username.as_str(), NodeKind::Group, pp.web_url.as_str(), pp.username.as_str(), "private", None);
                assert forall|k: int| 0 <= k < pbase implies #[trigger] nodes@[k] == after_projects[k] by {
                    assert(nodes@.subrange(0, root as int)[k] == nodes@[k]);
                }
                let pn = pp.projects.len();
                let mut t: usize = 0;
                while t < pn
                    invariant
                        pbase == after_projects.len(),
                        root == pbase,
                        personal == Some(*pp),
                        pn == pp.projects@.len(),
                        pbase + 1 + pn < usize::MAX,
                        t <= pn,
                        nodes@.len() == pbase + 1 + t,
                        forall|k: int| 0 <= k < pbase ==> #[trigger] nodes@[k] == after_projects[k],
                        personal_node(nodes@[root as int], *pp),
                        nodes@[root as int].children@ == index_run((pbase + 1) as nat, t as nat),
                        !nodes@[root as int].expanded,
                        forall|t2: int| 0 <= t2 < t ==> project_node(#[trigger] nodes@[root + 1 + t2], pp.projects@[t2]),
                        forall|k: int| root < k < nodes@.len() ==> (#[trigger] nodes@[k]).children@.len() == 0 && !nodes@[k].expanded,
                    decreases pn - t,
                {
                    let p = &pp.projects[t];
                    let ghost before = nodes@;
                    let id = push_node(
                        &mut nodes,
                        p.name.as_str(),
                        NodeKind::Project,
                        p.web_url.as_str(),
                        p.path_with_namespace.as_str(),
                        p.visibility.as_str(),
                        clone_text_opt(&p.last_activity_at),
                    );
                    assert forall|k: int| 0 <= k < before.len() implies #[trigger] nodes@[k] == before[k] by {
                        assert(nodes@.subrange(0, id as int)[k] == nodes@[k]);
                    }
                    let ghost mid = nodes@;
                    nodes[root].children.push(id);
                    assert(index_run((pbase + 1) as nat, (t + 1) as nat) =~= index_run((pbase + 1) as nat, t as nat).push(id));
                    assert forall|k: int| 0 <= k < nodes@.len() && k != root implies #[trigger] nodes@[k] == mid[k] by {}
                    assert forall|t2: int| 0 <= t2 < t + 1 implies project_node(#[trigger] nodes@[root + 1 + t2], pp.projects@[t2]) by {
                        if t2 < t {
                            assert(nodes@[root + 1 + t2] == before[root + 1 + t2]);
                        }
                    }
                    t = t + 1;
                }
                roots.push(root);
            },
            None => {},
        }
        let ghost n = nodes@.len();
        assert(n == gn + placed(gs, es, es.len() as int) + personal_size(personal));
        assert forall|k: int| 0 <= k < n implies (#[trigger] nodes@[k]).children@ == built_children(gs, es, personal, k) by {
            if k < gn {
                assert(nodes@[k] == after_projects[k]);
                assert(project_kids(gs, es, k, en as int) == project_kids(gs, es, k, es.len() as int));
            } else if k < pbase {
                assert(nodes@[k] == after_projects[k]);
            }
        }
        assert(roots@ =~= built_roots(gs, es, personal));
        proof {
            crate::records::lemma_top_groups_members(gs, gn as int);
            assert forall|r: int| 0 <= r < roots@.len() implies #[trigger] roots@[r] < n by {
                if r < top_groups(gs, gn as int).len() {
                    assert(roots@[r] == top_groups(gs, gn as int)[r]);
                }
            }
        }
        assert forall|i: int| 0 <= i < gn implies group_node(#[trigger] nodes@[i], gs[i]) by {
            assert(nodes@[i] == after_projects[i]);
        }
        assert forall|e2: int, t2: int|
            0 <= e2 < es.len() && owner(gs, es[e2]) is Some && 0 <= t2 < es[e2].projects@.len() implies #[trigger] placed_project(nodes@, gs, es, e2, t2) by {
            assert(placed_project(after_projects, gs, es, e2, t2));
            lemma_placed_grows(gs, es, e2 + 1, es.len() as int);
            assert(nodes@[gn + placed(gs, es, e2) + t2] == after_projects[gn + placed(gs, es, e2) + t2]);
        }
        let ghost pre = nodes@;
        let nn = nodes.len();
        // Roots start expanded.
        let rn = roots.len();
        let mut k: usize = 0;
        while k < rn
            invariant
                rn == roots@.len(),
                k <= rn,
                nodes@.len() == n,
                forall|r: int| 0 <= r < rn ==> #[trigger] roots@[r] < n,
                forall|j: int| 0 <= j < n ==> (#[trigger] nodes@[j]).children@ == built_children(gs, es, personal, j),
                forall|j: int| 0 <= j < n ==> (#[trigger] nodes@[j]).expanded == roots@.subrange(0, k as int).contains(j as usize),
                pre.len() == n,
                nn == n,
                forall|j: int| 0 <= j < n ==> #[trigger] nodes@[j] == (Node { expanded: nodes@[j].expanded, ..pre[j] }),
            decreases rn - k,
        {
            let r = roots[k];
            let ghost before = nodes@;
            nodes[r].expanded = true;
            assert(roots@.subrange(0, k + 1) =~= roots@.subrange(0, k as int).push(r));
            assert forall|j: int| 0 <= j < n implies (#[trigger] nodes@[j]).expanded == roots@.subrange(0, k + 1).contains(j as usize) by {
                if j != r as int {
                    assert(nodes@[j] == before[j]);
                    let a = roots@.subrange(0, k + 1);
                    let b = roots@.subrange(0, k as int);
                    if a.contains(j as usize) {
                        let q = choose|q: int| 0 <= q < a.len() && a[q] == j as usize;
                        assert(a[k as int] == r);
                        assert(q != k);
                        assert(b[q] == j as usize);
                    }
                    if b.contains(j as usize) {
                        let q = choose|q: int| 0 <= q < b.len() && b[q] == j as usize;
                        assert(a[q] == j as usize);
                    }
                } else {
                    assert(roots@.subrange(0, k + 1)[k as int] == r);
                }
            }
            assert forall|j: int| 0 <= j < n implies (#[trigger] nodes@[j]).children@ == built_children(gs, es, personal, j) by {
                assert(nodes@[j].children == before[j].children);
            }
            assert forall|j: int| 0 <= j < n implies #[trigger] nodes@[j] == (Node { expanded: nodes@[j].expanded, ..pre[j] }) by {
                assert(before[j] == (Node { expanded: before[j].expanded, ..pre[j] }));
            }
            k = k + 1;
        }
        assert(roots@.subrange(0, rn as int) =~= roots@);
        assert forall|i: int| 0 <= i < gn implies group_node(#[trigger] nodes@[i], gs[i]) by {
            assert(group_node(pre[i], gs[i]));
            assert(nodes@[i] == (Node { expanded: nodes@[i].expanded, ..pre[i] }));
        }
        assert forall|e2: int, t2: int|
            0 <= e2 < es.len() && owner(gs, es[e2]) is Some && 0 <= t2 < es[e2].projects@.len() implies #[trigger] placed_project(nodes@, gs, es, e2, t2) by {
            assert(placed_project(pre, gs, es, e2, t2));
            lemma_placed_grows(gs, es, e2 + 1, es.len() as int);
            let x = gn + placed(gs, es, e2) + t2;
            assert(nodes@[x] == (Node { expanded: nodes@[x].expanded, ..pre[x] }));
        }
        proof {
            lemma_built_ranked(gs, es, personal);
            assert(kids(nodes@) =~= built_kids(gs, es, personal));
            let rk = built_rank(gs, es, personal, n);
            assert(ranked(kids(nodes@), rk));
            assert forall|p: int, j: int| 0 <= p < nodes@.len() && 0 <= j < nodes@[p].children@.len() implies (#[trigger] nodes@[p].children@[j]) < nodes@.len() by {
                assert(kids(nodes@)[p] == nodes@[p].children@);
                assert(kids(nodes@)[p][j] < kids(nodes@).len());
            }
            assert(acyclic(nodes@));
        }
        let parent = build_parent_map(nodes.as_slice());
        App {
            nodes,
            roots,
            parent,
            selected: 0,
            config,
            status: Some(status),
            pending_g: false,
            toast: None,
            search_query: None,
            search_mode: false,
        }
    }
}

} // verus!
