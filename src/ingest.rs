//! Decisions of the ingestion pipeline: where to ask, with which parameters,
//! when paging stops, and how a finished load is summarised.
use vstd::prelude::*;
use vstd::string::*;
use crate::config::ApiFilters;
use crate::records::{CacheData, GroupProjects};
use crate::text::{decimal_text, join_text, parse_usize, trim, trim_of, unsigned_value, usize_text};

verus! {

/// The text without its trailing `/` characters.
pub open spec fn strip_slashes(s: Seq<char>) -> Seq<char>
    decreases s.len(),
{
    if s.len() > 0 && s.last() == '/' {
        strip_slashes(s.drop_last())
    } else {
        s
    }
}

/// The server's base locator without trailing slashes.
pub fn api_base(url: &str) -> (r: String)
    ensures
        r@ == strip_slashes(url@),
{
    let mut k = url.unicode_len();
    assert(url@.subrange(0, k as int) =~= url@);
    while k > 0 && url.get_char(k - 1) == '/'
        invariant
            k <= url@.len(),
            strip_slashes(url@) == strip_slashes(url@.subrange(0, k as int)),
        decreases k,
    {
        assert(url@.subrange(0, k as int).drop_last() =~= url@.subrange(0, k - 1));
        k = k - 1;
    }
    String::from_str(url.substring_char(0, k))
}

/// The groups endpoint.
pub fn groups_url(base: &str) -> (r: String)
    ensures
        r@ == strip_slashes(base@) + "/api/v4/groups"@,
{
    let b = api_base(base);
    join_text(b.as_str(), "/api/v4/groups")
}

/// The endpoint listing one group's projects.
pub fn group_projects_url(base: &str, group_id: usize) -> (r: String)
    ensures
        r@ == strip_slashes(base@) + "/api/v4/groups/"@ + decimal_text(group_id as nat) + "/projects"@,
{
    let b = api_base(base);
    let a = join_text(b.as_str(), "/api/v4/groups/");
    let id = usize_text(group_id);
    let c = join_text(a.as_str(), id.as_str());
    join_text(c.as_str(), "/projects")
}

/// The current-user endpoint.
pub fn user_url(base: &str) -> (r: String)
    ensures
        r@ == strip_slashes(base@) + "/api/v4/user"@,
{
    let b = api_base(base);
    join_text(b.as_str(), "/api/v4/user")
}

/// The projects endpoint, used for the user's own projects.
pub fn owned_projects_url(base: &str) -> (r: String)
    ensures
        r@ == strip_slashes(base@) + "/api/v4/projects"@,
{
    let b = api_base(base);
    join_text(b.as_str(), "/api/v4/projects")
}

/// The web locator of a user's namespace.
pub fn personal_web_url(base: &str, username: &str) -> (r: String)
    ensures
        r@ == strip_slashes(base@) + "/"@ + username@,
{
    let b = api_base(base);
    let a = join_text(b.as_str(), "/");
    join_text(a.as_str(), username)
}

/// What query pairs say.
pub open spec fn pairs_view(v: Seq<(String, String)>) -> Seq<(Seq<char>, Seq<char>)> {
    Seq::new(v.len(), |i: int| (v[i].0@, v[i].1@))
}

pub open spec fn bool_text(b: bool) -> Seq<char> {
    if b {
        "true"@
    } else {
        "false"@
    }
}

/// A pair for an optional switch, or none.
pub open spec fn switch_pair(key: Seq<char>, v: Option<bool>) -> Seq<(Seq<char>, Seq<char>)> {
    match v {
        Some(b) => seq![(key, bool_text(b))],
        None => Seq::empty(),
    }
}

/// A pair for the optional visibility filter, or none.
pub open spec fn visibility_pair(v: Option<String>) -> Seq<(Seq<char>, Seq<char>)> {
    match v {
        Some(s) => seq![("visibility"@, s@)],
        None => Seq::empty(),
    }
}

/// The paging pairs every list request starts with.
pub open spec fn paging_pairs(filters: ApiFilters, page: usize) -> Seq<(Seq<char>, Seq<char>)> {
    seq![("per_page"@, decimal_text(filters.per_page as nat)), ("page"@, decimal_text(page as nat))]
}

fn push_pair(q: &mut Vec<(String, String)>, key: &str, value: String)
    ensures
        pairs_view(final(q)@) == pairs_view(old(q)@).push((key@, value@)),
{
    q.push((String::from_str(key), value));
    assert(pairs_view(q@) =~= pairs_view(old(q)@).push((key@, value@)));
}

fn push_switch(q: &mut Vec<(String, String)>, key: &str, v: Option<bool>)
    ensures
        pairs_view(final(q)@) == pairs_view(old(q)@) + switch_pair(key@, v),
{
    match v {
        Some(b) => {
            let t = if b {
                String::from_str("true")
            } else {
                String::from_str("false")
            };
            push_pair(q, key, t);
            assert(pairs_view(q@) =~= pairs_view(old(q)@) + switch_pair(key@, v));
        },
        None => {
            assert(pairs_view(q@) =~= pairs_view(old(q)@) + switch_pair(key@, v));
        },
    }
}

fn push_visibility(q: &mut Vec<(String, String)>, v: &Option<String>)
    ensures
        pairs_view(final(q)@) == pairs_view(old(q)@) + visibility_pair(*v),
{
    match v {
        Some(s) => {
            push_pair(q, "visibility", s.clone());
            assert(pairs_view(q@) =~= pairs_view(old(q)@) + visibility_pair(*v));
        },
        None => {
            assert(pairs_view(q@) =~= pairs_view(old(q)@) + visibility_pair(*v));
        },
    }
}

fn paging(filters: &ApiFilters, page: usize) -> (q: Vec<(String, String)>)
    ensures
        pairs_view(q@) == paging_pairs(*filters, page),
{
    let mut q: Vec<(String, String)> = Vec::new();
    push_pair(&mut q, "per_page", usize_text(filters.per_page as usize));
    push_pair(&mut q, "page", usize_text(page));
    assert(pairs_view(q@) =~= paging_pairs(*filters, page));
    q
}

/// Query pairs for one page of the user's groups.
pub fn group_query(filters: &ApiFilters, page: usize) -> (q: Vec<(String, String)>)
    ensures
        pairs_view(q@) == paging_pairs(*filters, page) + seq![("membership"@, "true"@)] + switch_pair(
            "all_available"@,
            filters.all_available,
        ) + switch_pair("owned"@, filters.owned) + switch_pair("top_level_only"@, filters.top_level_only)
            + visibility_pair(filters.visibility),
{
    let mut q = paging(filters, page);
    push_pair(&mut q, "membership", String::from_str("true"));
    push_switch(&mut q, "all_available", filters.all_available);
    push_switch(&mut q, "owned", filters.owned);
    push_switch(&mut q, "top_level_only", filters.top_level_only);
    push_visibility(&mut q, &filters.visibility);
    q
}

/// Query pairs for one page of a group's projects.
pub fn group_projects_query(filters: &ApiFilters, page: usize) -> (q: Vec<(String, String)>)
    ensures
        pairs_view(q@) == paging_pairs(*filters, page) + seq![("simple"@, "true"@)] + switch_pair(
            "include_subgroups"@,
            filters.include_subgroups,
        ) + visibility_pair(filters.visibility),
{
    let mut q = paging(filters, page);
    push_pair(&mut q, "simple", String::from_str("true"));
    push_switch(&mut q, "include_subgroups", filters.include_subgroups);
    push_visibility(&mut q, &filters.visibility);
    q
}

/// Query pairs for one page of the user's own projects.
pub fn owned_projects_query(filters: &ApiFilters, page: usize) -> (q: Vec<(String, String)>)
    ensures
        pairs_view(q@) == paging_pairs(*filters, page) + seq![("simple"@, "true"@), ("owned"@, "true"@)]
            + visibility_pair(filters.visibility),
{
    let mut q = paging(filters, page);
    push_pair(&mut q, "simple", String::from_str("true"));
    push_pair(&mut q, "owned", String::from_str("true"));
    push_visibility(&mut q, &filters.visibility);
    q
}

/// What the next-page indicator of a response says.
#[derive(Clone, Debug)]
pub enum NextPage {
    Done,
    Page(usize),
    Invalid(String),
}

/// What a next-page indicator means: the last page, a page number, or a
/// malformed value with its message.
pub enum PageStep {
    Last,
    To(usize),
    Bad(Seq<char>),
}

pub open spec fn page_step(header: Option<String>) -> PageStep {
    match header {
        None => PageStep::Last,
        Some(h) => {
            let t = trim_of(h@);
            if t.len() == 0 {
                PageStep::Last
            } else {
                match unsigned_value(t) {
                    Some(v) => if v <= usize::MAX {
                        PageStep::To(v as usize)
                    } else {
                        PageStep::Bad("invalid x-next-page header: "@ + t)
                    },
                    None => PageStep::Bad("invalid x-next-page header: "@ + t),
                }
            }
        },
    }
}

/// Reads the next-page indicator: absent or blank means the last page; else
/// it must be a page number.
pub fn next_page(header: &Option<String>) -> (r: NextPage)
    ensures
        match page_step(*header) {
            PageStep::Last => r is Done,
            PageStep::To(n) => r == NextPage::Page(n),
            PageStep::Bad(m) => r matches NextPage::Invalid(x) && x@ == m,
        },
{
    match header {
        None => NextPage::Done,
        Some(h) => {
            let t = trim(h.as_str());
            if t.unicode_len() == 0 {
                NextPage::Done
            } else {
                match parse_usize(t) {
                    Some(n) => NextPage::Page(n),
                    None => NextPage::Invalid(join_text("invalid x-next-page header: ", t)),
                }
            }
        },
    }
}

/// Cursor over the pages of one listing.
#[derive(Clone, Copy, Debug)]
pub struct Pager {
    pub page: usize,
    pub done: bool,
}

impl Pager {
    /// Starts at the first page.
    pub fn new() -> (r: Pager)
        ensures
            r.page == 1,
            !r.done,
    {
        Pager { page: 1, done: false }
    }

    /// Takes in a response's next-page indicator: stops on the last page,
    /// moves to the page it names, or fails on one that is not a number.
    pub fn advance(&mut self, header: &Option<String>) -> (r: Result<(), String>)
        ensures
            match page_step(*header) {
                PageStep::Last => r is Ok && final(self).done && final(self).page == old(self).page,
                PageStep::To(n) => r is Ok && !final(self).done && final(self).page == n,
                PageStep::Bad(m) => r matches Err(x) && x@ == m && *final(self) == *old(self),
            },
    {
        match next_page(header) {
            NextPage::Done => {
                self.done = true;
                Ok(())
            },
            NextPage::Page(n) => {
                self.page = n;
                self.done = false;
                Ok(())
            },
            NextPage::Invalid(m) => Err(m),
        }
    }
}

/// Number of projects in the first `k` project lists.
pub open spec fn project_total(entries: Seq<GroupProjects>, k: int) -> nat
    decreases k,
{
    if k <= 0 {
        0
    } else {
        project_total(entries, k - 1) + entries[k - 1].projects@.len()
    }
}

/// Number of projects over all lists, saturating at the largest `usize`.
pub fn total_projects(entries: &[GroupProjects]) -> (r: usize)
    ensures
        r == if project_total(entries@, entries@.len() as int) <= usize::MAX {
            project_total(entries@, entries@.len() as int)
        } else {
            usize::MAX as nat
        },
{
    let mut total: usize = 0;
    let mut k: usize = 0;
    let mut saturated = false;
    while k < entries.len()
        invariant
            k <= entries@.len(),
            saturated ==> total == usize::MAX && project_total(entries@, k as int) > usize::MAX,
            !saturated ==> total == project_total(entries@, k as int),
        decreases entries@.len() - k,
    {
        let n = entries[k].projects.len();
        if !saturated {
            if total <= usize::MAX - n {
                total = total + n;
            } else {
                total = usize::MAX;
                saturated = true;
            }
        }
        k = k + 1;
    }
    if saturated {
        proof {
            lemma_total_grows(entries@, k as int, entries@.len() as int);
        }
    }
    total
}

proof fn lemma_total_grows(entries: Seq<GroupProjects>, a: int, b: int)
    requires
        0 <= a <= b,
    ensures
        project_total(entries, a) <= project_total(entries, b),
    decreases b,
{
    if a < b {
        lemma_total_grows(entries, a, b - 1);
    }
}

/// The status line after a load: counts of groups, projects and personal
/// projects, marked when the data came from the cache.
pub fn load_status(cached: bool, groups: usize, projects: usize, personal: usize) -> (r: String)
    ensures
        r@ == (if cached {
            "cache hit | "@
        } else {
            Seq::<char>::empty()
        }) + "groups: "@ + decimal_text(groups as nat) + ", projects: "@ + decimal_text(projects as nat)
            + ", personal: "@ + decimal_text(personal as nat),
{
    let head = if cached {
        String::from_str("cache hit | ")
    } else {
        String::new()
    };
    let s = head.concat("groups: ");
    let g = usize_text(groups);
    let s = s.concat(g.as_str());
    let s = s.concat(", projects: ");
    let p = usize_text(projects);
    let s = s.concat(p.as_str());
    let s = s.concat(", personal: ");
    let q = usize_text(personal);
    let r = s.concat(q.as_str());
    assert(r@ =~= (if cached {
        "cache hit | "@
    } else {
        Seq::<char>::empty()
    }) + "groups: "@ + decimal_text(groups as nat) + ", projects: "@ + decimal_text(projects as nat)
        + ", personal: "@ + decimal_text(personal as nat));
    r
}

/// The status line summarising a snapshot.
pub fn snapshot_status(data: &CacheData, cached: bool) -> (r: String)
    ensures
        r@ == (if cached {
            "cache hit | "@
        } else {
            Seq::<char>::empty()
        }) + "groups: "@ + decimal_text(data.groups@.len()) + ", projects: "@ + decimal_text(
            if project_total(data.projects_by_group@, data.projects_by_group@.len() as int) <= usize::MAX {
                project_total(data.projects_by_group@, data.projects_by_group@.len() as int)
            } else {
                usize::MAX as nat
            },
        ) + ", personal: "@ + decimal_text(
            match data.personal {
                Some(p) => p.projects@.len(),
                None => 0,
            },
        ),
{
    let projects = total_projects(data.projects_by_group.as_slice());
    let personal = match &data.personal {
        Some(p) => p.projects.len(),
        None => 0,
    };
    load_status(cached, data.groups.len(), projects, personal)
}

/// The status line after a failed load.
pub fn load_error_status(err: &str) -> (r: String)
    ensures
        r@ == "load error: "@ + err@,
{
    join_text("load error: ", err)
}

} // verus!
