//! Raw catalog records as fetched, and the rules that place them in a forest.
use vstd::prelude::*;

verus! {

/// A group as listed by the catalog.
#[derive(Clone, Debug)]
pub struct GitLabGroup {
    pub id: usize,
    pub name: String,
    pub web_url: String,
    pub full_path: String,
    pub visibility: String,
    pub parent_id: Option<usize>,
}

/// A project as listed by the catalog.
#[derive(Clone, Debug)]
pub struct GitLabProject {
    pub name: String,
    pub web_url: String,
    pub path_with_namespace: String,
    pub visibility: String,
    pub last_activity_at: Option<String>,
}

/// The projects listed for one group.
#[derive(Clone, Debug)]
pub struct GroupProjects {
    pub group_id: usize,
    pub projects: Vec<GitLabProject>,
}

/// The current user's own namespace and its projects.
#[derive(Clone, Debug)]
pub struct PersonalProjects {
    pub username: String,
    pub web_url: String,
    pub projects: Vec<GitLabProject>,
}

/// One complete ingestion result, with the time it was taken.
#[derive(Clone, Debug)]
pub struct CacheData {
    pub created_at: u64,
    pub groups: Vec<GitLabGroup>,
    pub projects_by_group: Vec<GroupProjects>,
    pub personal: Option<PersonalProjects>,
}

/// The position of the last of the first `k` groups with external id `id`.
pub open spec fn last_with_id(groups: Seq<GitLabGroup>, id: usize, k: int) -> Option<int>
    decreases k,
{
    if k <= 0 {
        None
    } else if groups[k - 1].id == id {
        Some(k - 1)
    } else {
        last_with_id(groups, id, k - 1)
    }
}

/// The group an external id resolves to; a later record with the same id
/// wins.
pub open spec fn group_index(groups: Seq<GitLabGroup>, id: usize) -> Option<int> {
    last_with_id(groups, id, groups.len() as int)
}

/// The group that group `i` names as its parent, when that id resolves.
pub open spec fn up(groups: Seq<GitLabGroup>, i: int) -> Option<int> {
    match groups[i].parent_id {
        Some(pid) => group_index(groups, pid),
        None => None,
    }
}

/// Following parent ids from group `i` reaches, within `f` steps, a group
/// whose parent does not resolve.
pub open spec fn grounded(groups: Seq<GitLabGroup>, i: int, f: nat) -> bool
    decreases f,
{
    match up(groups, i) {
        None => true,
        Some(p) => f > 0 && grounded(groups, p, (f - 1) as nat),
    }
}

/// Number of parent steps from group `i` to such a group, counting at most
/// `f` of them.
pub open spec fn dist(groups: Seq<GitLabGroup>, i: int, f: nat) -> nat
    decreases f,
{
    match up(groups, i) {
        None => 0,
        Some(p) => if f > 0 {
            1 + dist(groups, p, (f - 1) as nat)
        } else {
            0
        },
    }
}

/// The longest parent chain a set of groups can hold without a cycle.
pub open spec fn chain_fuel(groups: Seq<GitLabGroup>) -> nat {
    if groups.len() == 0 {
        0
    } else {
        (groups.len() - 1) as nat
    }
}

/// Group `i` is placed under its parent: the parent id resolves and the
/// chain of parents leads to a top-level group without a cycle. Any other
/// group becomes a root.
pub open spec fn linked(groups: Seq<GitLabGroup>, i: int) -> bool {
    up(groups, i) is Some && grounded(groups, i, chain_fuel(groups))
}

/// Among the first `k` groups, those placed under group `g`, in record order.
pub open spec fn group_kids(groups: Seq<GitLabGroup>, g: int, k: int) -> Seq<usize>
    decreases k,
{
    if k <= 0 {
        Seq::empty()
    } else {
        let before = group_kids(groups, g, k - 1);
        if linked(groups, k - 1) && up(groups, k - 1) == Some(g) {
            before.push((k - 1) as usize)
        } else {
            before
        }
    }
}

/// Among the first `k` groups, those that become roots, in record order.
pub open spec fn top_groups(groups: Seq<GitLabGroup>, k: int) -> Seq<usize>
    decreases k,
{
    if k <= 0 {
        Seq::empty()
    } else {
        let before = top_groups(groups, k - 1);
        if linked(groups, k - 1) {
            before
        } else {
            before.push((k - 1) as usize)
        }
    }
}

/// The group a project list belongs to, when its id resolves.
pub open spec fn owner(groups: Seq<GitLabGroup>, entry: GroupProjects) -> Option<int> {
    group_index(groups, entry.group_id)
}

/// Number of projects placed from the first `e` project lists; lists whose
/// group does not resolve are skipped.
pub open spec fn placed(groups: Seq<GitLabGroup>, entries: Seq<GroupProjects>, e: int) -> nat
    decreases e,
{
    if e <= 0 {
        0
    } else {
        placed(groups, entries, e - 1) + if owner(groups, entries[e - 1]) is Some {
            entries[e - 1].projects@.len()
        } else {
            0
        }
    }
}

/// Node indices `from .. from + len`.
pub open spec fn index_run(from: nat, len: nat) -> Seq<usize> {
    Seq::new(len, |t: int| (from + t) as usize)
}

/// The project nodes placed under group `g` from the first `e` lists.
pub open spec fn project_kids(groups: Seq<GitLabGroup>, entries: Seq<GroupProjects>, g: int, e: int) -> Seq<
    usize,
>
    decreases e,
{
    if e <= 0 {
        Seq::empty()
    } else {
        let before = project_kids(groups, entries, g, e - 1);
        if owner(groups, entries[e - 1]) == Some(g) {
            before + index_run(groups.len() + placed(groups, entries, e - 1), entries[e - 1].projects@.len())
        } else {
            before
        }
    }
}

pub proof fn lemma_grounded_more_fuel(groups: Seq<GitLabGroup>, i: int, f: nat)
    requires
        grounded(groups, i, f),
    ensures
        grounded(groups, i, f + 1),
        dist(groups, i, f + 1) == dist(groups, i, f),
        dist(groups, i, f) <= f,
    decreases f,
{
    match up(groups, i) {
        None => {},
        Some(p) => {
            lemma_grounded_more_fuel(groups, p, (f - 1) as nat);
        },
    }
}

pub proof fn lemma_last_with_id_range(groups: Seq<GitLabGroup>, id: usize, k: int)
    requires
        0 <= k <= groups.len(),
    ensures
        last_with_id(groups, id, k) matches Some(j) ==> 0 <= j < k && groups[j].id == id,
    decreases k,
{
    if k > 0 {
        lemma_last_with_id_range(groups, id, k - 1);
    }
}

pub proof fn lemma_group_kids_members(groups: Seq<GitLabGroup>, g: int, k: int)
    requires
        0 <= k <= groups.len() <= usize::MAX,
    ensures
        forall|j: int|
            0 <= j < group_kids(groups, g, k).len() ==> {
                let c = #[trigger] group_kids(groups, g, k)[j] as int;
                &&& 0 <= c < k
                &&& linked(groups, c)
                &&& up(groups, c) == Some(g)
            },
    decreases k,
{
    if k > 0 {
        lemma_group_kids_members(groups, g, k - 1);
        let before = group_kids(groups, g, k - 1);
        assert forall|j: int| 0 <= j < group_kids(groups, g, k).len() implies {
            let c = #[trigger] group_kids(groups, g, k)[j] as int;
            &&& 0 <= c < k
            &&& linked(groups, c)
            &&& up(groups, c) == Some(g)
        } by {
            if j < before.len() {
                assert(group_kids(groups, g, k)[j] == before[j]);
            }
        }
    }
}

pub proof fn lemma_top_groups_members(groups: Seq<GitLabGroup>, k: int)
    requires
        0 <= k <= groups.len() <= usize::MAX,
    ensures
        forall|j: int|
            0 <= j < top_groups(groups, k).len() ==> {
                let c = #[trigger] top_groups(groups, k)[j] as int;
                &&& 0 <= c < k
                &&& !linked(groups, c)
            },
    decreases k,
{
    if k > 0 {
        lemma_top_groups_members(groups, k - 1);
        let before = top_groups(groups, k - 1);
        assert forall|j: int| 0 <= j < top_groups(groups, k).len() implies {
            let c = #[trigger] top_groups(groups, k)[j] as int;
            &&& 0 <= c < k
            &&& !linked(groups, c)
        } by {
            if j < before.len() {
                assert(top_groups(groups, k)[j] == before[j]);
            }
        }
    }
}

pub proof fn lemma_placed_grows(groups: Seq<GitLabGroup>, entries: Seq<GroupProjects>, a: int, b: int)
    requires
        0 <= a <= b <= entries.len(),
    ensures
        placed(groups, entries, a) <= placed(groups, entries, b),
    decreases b,
{
    if a < b {
        lemma_placed_grows(groups, entries, a, b - 1);
    }
}

pub proof fn lemma_project_kids_members(groups: Seq<GitLabGroup>, entries: Seq<GroupProjects>, g: int, e: int)
    requires
        0 <= e <= entries.len(),
        groups.len() + placed(groups, entries, e) <= usize::MAX,
    ensures
        forall|j: int|
            0 <= j < project_kids(groups, entries, g, e).len() ==> {
                let c = #[trigger] project_kids(groups, entries, g, e)[j] as int;
                groups.len() <= c < groups.len() + placed(groups, entries, e)
            },
    decreases e,
{
    if e > 0 {
        lemma_placed_grows(groups, entries, e - 1, e);
        lemma_project_kids_members(groups, entries, g, e - 1);
        let before = project_kids(groups, entries, g, e - 1);
        assert forall|j: int| 0 <= j < project_kids(groups, entries, g, e).len() implies {
            let c = #[trigger] project_kids(groups, entries, g, e)[j] as int;
            groups.len() <= c < groups.len() + placed(groups, entries, e)
        } by {
            if j < before.len() {
                assert(project_kids(groups, entries, g, e)[j] == before[j]);
            }
        }
    }
}

/// The group whose list placed project node `c`, among the first `e` lists.
pub open spec fn project_owner(groups: Seq<GitLabGroup>, entries: Seq<GroupProjects>, c: int, e: int) -> Option<int>
    decreases e,
{
    if e <= 0 {
        None
    } else if owner(groups, entries[e - 1]) is Some && groups.len() + placed(groups, entries, e - 1) <= c
        < groups.len() + placed(groups, entries, e) {
        owner(groups, entries[e - 1])
    } else {
        project_owner(groups, entries, c, e - 1)
    }
}

/// A sequence of indices in strictly increasing order.
pub open spec fn increasing(s: Seq<usize>) -> bool {
    forall|a: int, b: int| 0 <= a < b < s.len() ==> s[a] < s[b]
}

pub proof fn lemma_group_kids_increasing(groups: Seq<GitLabGroup>, g: int, k: int)
    requires
        0 <= k <= groups.len() <= usize::MAX,
    ensures
        increasing(group_kids(groups, g, k)),
    decreases k,
{
    if k > 0 {
        lemma_group_kids_increasing(groups, g, k - 1);
        lemma_group_kids_members(groups, g, k - 1);
        let before = group_kids(groups, g, k - 1);
        let now = group_kids(groups, g, k);
        assert forall|a: int, b: int| 0 <= a < b < now.len() implies now[a] < now[b] by {
            if b < before.len() {
                assert(now[a] == before[a] && now[b] == before[b]);
            } else {
                assert(now[a] == before[a]);
            }
        }
    }
}

pub proof fn lemma_project_kids_shape(groups: Seq<GitLabGroup>, entries: Seq<GroupProjects>, g: int, e: int)
    requires
        0 <= e <= entries.len(),
        groups.len() + placed(groups, entries, e) <= usize::MAX,
    ensures
        increasing(project_kids(groups, entries, g, e)),
        forall|c: int|
            0 <= c <= usize::MAX ==> (#[trigger] project_kids(groups, entries, g, e).contains(c as usize)
                <==> project_owner(groups, entries, c, e) == Some(g)),
    decreases e,
{
    if e > 0 {
        lemma_placed_grows(groups, entries, e - 1, e);
        lemma_project_kids_shape(groups, entries, g, e - 1);
        lemma_project_kids_members(groups, entries, g, e - 1);
        let before = project_kids(groups, entries, g, e - 1);
        let now = project_kids(groups, entries, g, e);
        let lo = groups.len() + placed(groups, entries, e - 1);
        let len = entries[e - 1].projects@.len();
        if owner(groups, entries[e - 1]) == Some(g) {
            let run = index_run(lo, len);
            assert(now == before + run);
            assert forall|a: int, b: int| 0 <= a < b < now.len() implies now[a] < now[b] by {
                if b < before.len() {
                    assert(now[a] == before[a] && now[b] == before[b]);
                } else if a < before.len() {
                    assert(now[a] == before[a]);
                    assert(now[b] == run[b - before.len()]);
                } else {
                    assert(now[a] == run[a - before.len()]);
                    assert(now[b] == run[b - before.len()]);
                }
            }
            assert forall|c: int| 0 <= c <= usize::MAX implies (#[trigger] now.contains(c as usize)
                <==> project_owner(groups, entries, c, e) == Some(g)) by {
                if now.contains(c as usize) {
                    let q = choose|q: int| 0 <= q < now.len() && now[q] == c as usize;
                    if q >= before.len() {
                        assert(now[q] == run[q - before.len()]);
                    } else {
                        assert(before[q] == c as usize);
                        assert(before.contains(c as usize));
                    }
                }
                if project_owner(groups, entries, c, e) == Some(g) {
                    if lo <= c < lo + len {
                        let q = before.len() + (c - lo);
                        assert(now[q] == run[c - lo]);
                        assert(now[q] == c as usize);
                    } else {
                        assert(before.contains(c as usize));
                        let q = choose|q: int| 0 <= q < before.len() && before[q] == c as usize;
                        assert(now[q] == before[q]);
                    }
                }
            }
        } else {
            assert(now == before);
            assert forall|c: int| 0 <= c <= usize::MAX implies (#[trigger] now.contains(c as usize)
                <==> project_owner(groups, entries, c, e) == Some(g)) by {
                if before.contains(c as usize) {
                    let q = choose|q: int| 0 <= q < before.len() && before[q] == c as usize;
                    assert(before[q] < lo);
                }
            }
        }
    }
}

pub proof fn lemma_project_owner_range(groups: Seq<GitLabGroup>, entries: Seq<GroupProjects>, c: int, e: int)
    requires
        0 <= e <= entries.len(),
    ensures
        project_owner(groups, entries, c, e) is Some <==> groups.len() <= c < groups.len() + placed(groups, entries, e),
    decreases e,
{
    if e > 0 {
        lemma_placed_grows(groups, entries, e - 1, e);
        lemma_project_owner_range(groups, entries, c, e - 1);
    }
}

pub proof fn lemma_project_owner_group(groups: Seq<GitLabGroup>, entries: Seq<GroupProjects>, c: int, e: int)
    requires
        0 <= e <= entries.len(),
    ensures
        project_owner(groups, entries, c, e) matches Some(g) ==> 0 <= g < groups.len(),
    decreases e,
{
    if e > 0 {
        lemma_project_owner_group(groups, entries, c, e - 1);
        lemma_last_with_id_range(groups, entries[e - 1].group_id, groups.len() as int);
    }
}

pub proof fn lemma_group_kids_contains(groups: Seq<GitLabGroup>, g: int, k: int, c: int)
    requires
        0 <= k <= groups.len() <= usize::MAX,
        0 <= c <= usize::MAX,
    ensures
        group_kids(groups, g, k).contains(c as usize) <==> (c < k && linked(groups, c) && up(groups, c) == Some(g)),
    decreases k,
{
    if k > 0 {
        lemma_group_kids_contains(groups, g, k - 1, c);
        let before = group_kids(groups, g, k - 1);
        let now = group_kids(groups, g, k);
        if now.contains(c as usize) {
            let q = choose|q: int| 0 <= q < now.len() && now[q] == c as usize;
            if q < before.len() {
                assert(before[q] == now[q]);
            }
        }
        if c < k && linked(groups, c) && up(groups, c) == Some(g) {
            if c == k - 1 {
                assert(now[now.len() - 1] == c as usize);
            } else {
                let q = choose|q: int| 0 <= q < before.len() && before[q] == c as usize;
                assert(now[q] == before[q]);
            }
        }
    }
}

pub proof fn lemma_top_groups_contains(groups: Seq<GitLabGroup>, k: int, c: int)
    requires
        0 <= k <= groups.len() <= usize::MAX,
        0 <= c <= usize::MAX,
    ensures
        top_groups(groups, k).contains(c as usize) <==> (c < k && !linked(groups, c)),
        increasing(top_groups(groups, k)),
    decreases k,
{
    if k > 0 {
        lemma_top_groups_contains(groups, k - 1, c);
        lemma_top_groups_members(groups, k - 1);
        let before = top_groups(groups, k - 1);
        let now = top_groups(groups, k);
        if now.contains(c as usize) {
            let q = choose|q: int| 0 <= q < now.len() && now[q] == c as usize;
            if q < before.len() {
                assert(before[q] == now[q]);
            }
        }
        if c < k && !linked(groups, c) {
            if c == k - 1 {
                assert(now[now.len() - 1] == c as usize);
            } else {
                let q = choose|q: int| 0 <= q < before.len() && before[q] == c as usize;
                assert(now[q] == before[q]);
            }
        }
        assert forall|a: int, b: int| 0 <= a < b < now.len() implies now[a] < now[b] by {
            if b < before.len() {
                assert(now[a] == before[a] && now[b] == before[b]);
            } else {
                assert(now[a] == before[a]);
            }
        }
    }
}

} // verus!
