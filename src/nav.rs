//! The navigation state machine: selection, expansion, chord and search
//! state over the tree store, and the key handling that drives them.
use vstd::prelude::*;
use vstd::string::*;
use crate::config::Config;
use crate::filter::{filter_rows, filter_visible_nodes, rows_in_range};
use crate::tree::{Node, VisibleNode, tree_wf, lemma_rank_ignores_flags, forest_rows, forest_rank, with_expanded, ranked, kids, subtree_rows, child_rows, root_rows};

verus! {

/// A transient message and the number of ticks it stays on screen.
#[derive(Clone, Debug)]
pub struct Toast {
    pub message: String,
    pub remaining: u8,
}

/// The whole interactive state: the tree store and the navigation state.
pub struct App {
    pub nodes: Vec<Node>,
    pub roots: Vec<usize>,
    pub parent: Vec<Option<usize>>,
    pub selected: usize,
    pub config: Config,
    pub status: Option<String>,
    pub pending_g: bool,
    pub toast: Option<Toast>,
    pub search_query: Option<String>,
    pub search_mode: bool,
}

/// A selection index that is valid for a sequence of `len` rows: below `len`,
/// or zero when there are none.
pub open spec fn selection_ok(selected: usize, len: nat) -> bool {
    if len == 0 {
        selected == 0
    } else {
        selected < len
    }
}

/// The selection after clamping `selected` to `len` rows.
pub open spec fn clamped(selected: usize, len: nat) -> usize {
    if len == 0 {
        0
    } else if selected >= len {
        (len - 1) as usize
    } else {
        selected
    }
}

/// The selection after looking for node `id` among the rows: its first
/// position if it is there, else `cur`.
pub open spec fn selected_after(rows: Seq<VisibleNode>, id: usize, cur: usize) -> usize {
    if exists|i: int| 0 <= i < rows.len() && (#[trigger] rows[i]).id == id {
        (choose|i: int| first_at(rows, id, i)) as usize
    } else {
        cur
    }
}

/// `i` is the first position of node `id` among the rows.
pub open spec fn first_at(rows: Seq<VisibleNode>, id: usize, i: int) -> bool {
    &&& 0 <= i < rows.len()
    &&& rows[i].id == id
    &&& forall|j: int| 0 <= j < i ==> (#[trigger] rows[j]).id != id
}

/// The effect of collapsing at the selection: an expanded node is collapsed
/// in place, else the selection moves to the parent's row if there is one;
/// then the selection is clamped to the new projection. A selection beyond
/// the rows is first clamped to the last row.
pub open spec fn collapse_step(a: App, b: App, visible: Seq<VisibleNode>) -> bool {
    if visible.len() == 0 {
        b == a
    } else {
        let sel = clamped(a.selected, visible.len());
        let id = visible[sel as int].id as int;
        let was_open = a.nodes@[id].expanded;
        let moved = if !was_open && a.parent@[id] is Some {
            selected_after(visible, a.parent@[id]->Some_0, sel)
        } else {
            sel
        };
        let nodes = if was_open {
            a.nodes_with(id, false)
        } else {
            a.nodes@
        };
        &&& b.nodes@ == nodes
        &&& b.selected == clamped(moved, b.rows().len())
        &&& b == (App { nodes: b.nodes, selected: b.selected, ..a })
    }
}

/// The effect of expanding at the selection: a collapsed node with children
/// is expanded in place, an expanded one moves the selection to its first
/// child's row; then the selection is clamped to the new projection. A node
/// without children is left alone. A selection beyond the rows is first
/// clamped to the last row.
pub open spec fn expand_step(a: App, b: App, visible: Seq<VisibleNode>) -> bool {
    if visible.len() == 0 {
        b == a
    } else {
        let sel = clamped(a.selected, visible.len());
        let id = visible[sel as int].id as int;
        let node = a.nodes@[id];
        if node.children@.len() == 0 {
            b == (App { selected: sel, ..a })
        } else {
            let moved = if node.expanded {
                selected_after(visible, node.children@[0], sel)
            } else {
                sel
            };
            let nodes = if node.expanded {
                a.nodes@
            } else {
                a.nodes_with(id, true)
            };
            &&& b.nodes@ == nodes
            &&& b.selected == clamped(moved, b.rows().len())
            &&& b == (App { nodes: b.nodes, selected: b.selected, ..a })
        }
    }
}

/// The node at the selected row of the projection, if the selection is on
/// a row.
pub open spec fn selected_id(a: App) -> Option<usize> {
    if a.selected < a.rows().len() {
        Some(a.rows()[a.selected as int].id)
    } else {
        None
    }
}

/// The selection re-resolved against `rows`: the first row of node `prev`
/// if it is shown, else `sel` clamped to the rows.
pub open spec fn resolved(rows: Seq<VisibleNode>, prev: Option<usize>, sel: usize) -> usize {
    match prev {
        Some(id) => selected_after(rows, id, clamped(sel, rows.len())),
        None => clamped(sel, rows.len()),
    }
}

/// How many ticks a new toast stays.
pub const TOAST_TICKS: u8 = 10;

impl App {
    /// The tree store can be projected.
    pub open spec fn wf(&self) -> bool {
        tree_wf(self.nodes@, self.roots@, self.parent@)
    }

    /// The current projection: the forest's rows, narrowed by the applied query.
    pub open spec fn rows(&self) -> Seq<VisibleNode> {
        match self.search_query {
            Some(q) => filter_rows(forest_rows(self.nodes@, self.roots@), self.nodes@, q@),
            None => forest_rows(self.nodes@, self.roots@),
        }
    }

    /// The same state with node `id`'s expansion flag set to `on`.
    pub open spec fn nodes_with(&self, id: int, on: bool) -> Seq<Node> {
        self.nodes@.update(id, with_expanded(self.nodes@[id], on))
    }

    proof fn lemma_rank_facts(&self, p: int)
        requires
            self.wf(),
            0 <= p < self.nodes@.len(),
        ensures
            ranked(kids(self.nodes@), forest_rank(self.nodes@)),
            kids(self.nodes@)[p] == self.nodes@[p].children@,
            forall|j: int|
                0 <= j < self.nodes@[p].children@.len() ==> {
                    &&& (#[trigger] self.nodes@[p].children@[j]) < self.nodes@.len()
                    &&& forest_rank(self.nodes@)[self.nodes@[p].children@[j] as int] < forest_rank(
                        self.nodes@,
                    )[p]
                },
    {
        let k = kids(self.nodes@);
        assert(k[p] == self.nodes@[p].children@);
        assert forall|j: int| 0 <= j < self.nodes@[p].children@.len() implies {
            &&& (#[trigger] self.nodes@[p].children@[j]) < self.nodes@.len()
            &&& forest_rank(self.nodes@)[self.nodes@[p].children@[j] as int] < forest_rank(
                self.nodes@,
            )[p]
        } by {
            assert(k[p][j] == self.nodes@[p].children@[j]);
        }
    }

    /// Appends the rows of the subtree at `node_id`, placed at `depth`.
    pub fn walk_visible(&self, node_id: usize, depth: usize, out: &mut Vec<VisibleNode>)
        requires
            self.wf(),
            node_id < self.nodes@.len(),
            depth + forest_rank(self.nodes@)[node_id as int] <= self.nodes@.len(),
            rows_in_range(old(out)@, self.nodes@),
        ensures
            final(out)@ == old(out)@ + subtree_rows(
                self.nodes@,
                forest_rank(self.nodes@),
                node_id as int,
                depth as nat,
            ),
            rows_in_range(final(out)@, self.nodes@),
        decreases forest_rank(self.nodes@)[node_id as int],
    {
        let ghost rank = forest_rank(self.nodes@);
        let ghost start = out@;
        out.push(VisibleNode { id: node_id, depth });
        proof {
            self.lemma_rank_facts(node_id as int);
        }
        if self.nodes[node_id].expanded {
            let n_kids = self.nodes[node_id].children.len();
            let total = self.nodes.len();
            let mut k: usize = 0;
            while k < n_kids
                invariant
                    self.wf(),
                    rank == forest_rank(self.nodes@),
                    ranked(kids(self.nodes@), rank),
                    node_id < self.nodes@.len(),
                    total == self.nodes@.len(),
                    depth + rank[node_id as int] <= self.nodes@.len(),
                    self.nodes@[node_id as int].expanded,
                    n_kids == self.nodes@[node_id as int].children@.len(),
                    k <= n_kids,
                    forall|j: int|
                        0 <= j < self.nodes@[node_id as int].children@.len() ==> {
                            &&& (#[trigger] self.nodes@[node_id as int].children@[j]) < self.nodes@.len()
                            &&& rank[self.nodes@[node_id as int].children@[j] as int] < rank[node_id as int]
                        },
                    out@ == start + seq![VisibleNode { id: node_id, depth }] + child_rows(
                        self.nodes@,
                        rank,
                        node_id as int,
                        k as int,
                        (depth + 1) as nat,
                    ),
                    rows_in_range(out@, self.nodes@),
                decreases n_kids - k,
            {
                let child = self.nodes[node_id].children[k];
                assert(self.nodes@[node_id as int].children@[k as int] == child);
                assert(rank[child as int] < rank[node_id as int]);
                self.walk_visible(child, depth + 1, out);
                k = k + 1;
            }
            assert(subtree_rows(self.nodes@, rank, node_id as int, depth as nat) == seq![
                VisibleNode { id: node_id, depth },
            ] + child_rows(self.nodes@, rank, node_id as int, n_kids as int, (depth + 1) as nat));
            assert(out@ =~= start + subtree_rows(self.nodes@, rank, node_id as int, depth as nat));
        } else {
            assert(out@ =~= start + subtree_rows(self.nodes@, rank, node_id as int, depth as nat));
        }
    }

    /// The current projection, freshly computed.
    pub fn visible_nodes(&self) -> (r: Vec<VisibleNode>)
        requires
            self.wf(),
        ensures
            r@ == self.rows(),
            rows_in_range(r@, self.nodes@),
    {
        let ghost rank = forest_rank(self.nodes@);
        let mut out: Vec<VisibleNode> = Vec::new();
        let mut k: usize = 0;
        while k < self.roots.len()
            invariant
                self.wf(),
                rank == forest_rank(self.nodes@),
                k <= self.roots@.len(),
                out@ == root_rows(self.nodes@, rank, self.roots@, k as int),
                rows_in_range(out@, self.nodes@),
            decreases self.roots@.len() - k,
        {
            let root = self.roots[k];
            assert(ranked(kids(self.nodes@), rank));
            assert(self.roots@[k as int] < self.nodes@.len());
            assert(rank[root as int] <= kids(self.nodes@).len());
            self.walk_visible(root, 0, &mut out);
            k = k + 1;
        }
        match &self.search_query {
            Some(q) => filter_visible_nodes(out.as_slice(), self.nodes.as_slice(), q.as_str()),
            None => out,
        }
    }
}

impl App {
    /// How many ticks a new toast stays.
    pub const TOAST_TTL: u8 = TOAST_TICKS;

    /// Clamps the selection to a projection of `visible_len` rows.
    pub fn ensure_selection(&mut self, visible_len: usize)
        ensures
            *final(self) == (App { selected: clamped(old(self).selected, visible_len as nat), ..*old(self) }),
            selection_ok(final(self).selected, visible_len as nat),
    {
        if visible_len == 0 {
            self.selected = 0;
        } else if self.selected >= visible_len {
            self.selected = visible_len - 1;
        }
    }

    /// Moves the selection one row up; at the first row nothing changes.
    pub fn move_up(&mut self)
        ensures
            *final(self) == (App {
                selected: if old(self).selected > 0 {
                    (old(self).selected - 1) as usize
                } else {
                    old(self).selected
                },
                ..*old(self)
            }),
    {
        if self.selected > 0 {
            self.selected = self.selected - 1;
        }
    }

    /// Moves the selection one row down; at the last row nothing changes.
    pub fn move_down(&mut self, visible_len: usize)
        ensures
            *final(self) == (App {
                selected: if old(self).selected + 1 < visible_len {
                    (old(self).selected + 1) as usize
                } else {
                    old(self).selected
                },
                ..*old(self)
            }),
    {
        if self.selected < visible_len && self.selected + 1 < visible_len {
            self.selected = self.selected + 1;
        }
    }

    /// Selects the first row.
    pub fn move_top(&mut self)
        ensures
            *final(self) == (App { selected: 0, ..*old(self) }),
    {
        self.selected = 0;
    }

    /// Selects the last row; with no rows nothing changes.
    pub fn move_bottom(&mut self, visible_len: usize)
        ensures
            *final(self) == (App {
                selected: if visible_len > 0 {
                    (visible_len - 1) as usize
                } else {
                    old(self).selected
                },
                ..*old(self)
            }),
    {
        if visible_len > 0 {
            self.selected = visible_len - 1;
        }
    }

    /// Selects the first row showing node `node_id`, if any row does.
    pub fn select_node(&mut self, node_id: usize, visible: &[VisibleNode])
        ensures
            *final(self) == (App { selected: selected_after(visible@, node_id, old(self).selected), ..*old(self) }),
    {
        let mut i: usize = 0;
        while i < visible.len()
            invariant
                i <= visible@.len(),
                *self == *old(self),
                forall|j: int| 0 <= j < i ==> (#[trigger] visible@[j]).id != node_id,
            decreases visible@.len() - i,
        {
            if visible[i].id == node_id {
                assert(first_at(visible@, node_id, i as int));
                proof {
                    let c = choose|k: int| first_at(visible@, node_id, k);
                    assert(first_at(visible@, node_id, c));
                    if c < i {
                        assert(visible@[c].id != node_id);
                    }
                    if c > i {
                        assert(visible@[i as int].id != node_id);
                    }
                }
                self.selected = i;
                return;
            }
            i = i + 1;
        }
    }

    /// Collapses the selected node if it is expanded, else selects its
    /// parent's row; then clamps the selection to the new projection.
    pub fn collapse_or_parent(&mut self, visible: &[VisibleNode])
        requires
            old(self).wf(),
            rows_in_range(visible@, old(self).nodes@),
        ensures
            final(self).wf(),
            collapse_step(*old(self), *final(self), visible@),
            selection_ok(final(self).selected, final(self).rows().len()) || visible@.len() == 0,
    {
        if visible.len() == 0 {
            return;
        }
        self.ensure_selection(visible.len());
        let node_id = visible[self.selected].id;
        if self.nodes[node_id].expanded {
            proof {
                lemma_rank_ignores_flags(self.nodes@, node_id as int, false);
            }
            self.nodes[node_id].expanded = false;
            assert(self.nodes@ =~= old(self).nodes_with(node_id as int, false));
        } else {
            match self.parent[node_id] {
                Some(p) => self.select_node(p, visible),
                None => {},
            }
        }
        let len = self.visible_nodes().len();
        self.ensure_selection(len);
    }

    /// Expands the selected node if it is collapsed, else selects its first
    /// child's row; then clamps the selection to the new projection. A node
    /// without children is left alone.
    pub fn expand_or_child(&mut self, visible: &[VisibleNode])
        requires
            old(self).wf(),
            rows_in_range(visible@, old(self).nodes@),
        ensures
            final(self).wf(),
            expand_step(*old(self), *final(self), visible@),
            visible@.len() > 0 && old(self).nodes@[visible@[clamped(old(self).selected, visible@.len()) as int].id as int].children@.len() > 0
                ==> selection_ok(final(self).selected, final(self).rows().len()),
    {
        if visible.len() == 0 {
            return;
        }
        self.ensure_selection(visible.len());
        let node_id = visible[self.selected].id;
        if self.nodes[node_id].children.len() == 0 {
            return;
        }
        if !self.nodes[node_id].expanded {
            proof {
                lemma_rank_ignores_flags(self.nodes@, node_id as int, true);
            }
            self.nodes[node_id].expanded = true;
            assert(self.nodes@ =~= old(self).nodes_with(node_id as int, true));
        } else {
            let child = self.nodes[node_id].children[0];
            self.select_node(child, visible);
        }
        let len = self.visible_nodes().len();
        self.ensure_selection(len);
    }

    /// Replaces the status line.
    pub fn set_status(&mut self, message: String)
        ensures
            *final(self) == (App { status: Some(message), ..*old(self) }),
    {
        self.status = Some(message);
    }

    /// Shows a toast for the full number of ticks.
    pub fn set_toast(&mut self, message: String)
        ensures
            *final(self) == (App { toast: Some(Toast { message, remaining: TOAST_TICKS }), ..*old(self) }),
    {
        self.toast = Some(Toast { message, remaining: TOAST_TICKS });
    }

    /// Counts a toast down by one tick and drops it when none remain.
    pub fn tick_toast(&mut self)
        ensures
            match old(self).toast {
                None => *final(self) == *old(self),
                Some(t) => if t.remaining <= 1 {
                    *final(self) == (App { toast: None, ..*old(self) })
                } else {
                    *final(self) == (App {
                        toast: Some(Toast { remaining: (t.remaining - 1) as u8, ..t }),
                        ..*old(self)
                    })
                },
            },
    {
        match self.toast.take() {
            None => {},
            Some(t) => {
                if t.remaining > 1 {
                    self.toast = Some(Toast { message: t.message, remaining: t.remaining - 1 });
                }
            },
        }
    }

    /// Arms the two-key chord.
    pub fn set_pending_g(&mut self)
        ensures
            *final(self) == (App { pending_g: true, ..*old(self) }),
    {
        self.pending_g = true;
    }

    /// Disarms the two-key chord.
    pub fn clear_pending_g(&mut self)
        ensures
            *final(self) == (App { pending_g: false, ..*old(self) }),
    {
        self.pending_g = false;
    }

    /// Disarms the chord and says whether it was armed.
    pub fn consume_pending_g(&mut self) -> (was: bool)
        ensures
            was == old(self).pending_g,
            *final(self) == (App { pending_g: false, ..*old(self) }),
    {
        if self.pending_g {
            self.pending_g = false;
            true
        } else {
            false
        }
    }

    /// The node at the selected row of the current projection, if the
    /// selection is on a row.
    pub fn selected_node_id(&self) -> (r: Option<usize>)
        requires
            self.wf(),
        ensures
            r == selected_id(*self),
    {
        let rows = self.visible_nodes();
        if self.selected < rows.len() {
            Some(rows[self.selected].id)
        } else {
            None
        }
    }

    /// Re-resolves the selection against the current projection: the row of
    /// node `prev` if it is shown, else the selection clamped to the rows.
    pub fn reselect(&mut self, prev: Option<usize>)
        requires
            old(self).wf(),
        ensures
            *final(self) == (App { selected: resolved(old(self).rows(), prev, old(self).selected), ..*old(self) }),
    {
        let rows = self.visible_nodes();
        self.ensure_selection(rows.len());
        match prev {
            Some(id) => self.select_node(id, rows.as_slice()),
            None => {},
        }
    }

    /// Enters search editing with an empty query; the selection follows its
    /// node.
    pub fn start_search(&mut self)
        requires
            old(self).wf(),
        ensures
            final(self).search_mode,
            final(self).search_query is Some && final(self).search_query->Some_0@ == Seq::<char>::empty(),
            *final(self) == (App {
                search_mode: true,
                search_query: final(self).search_query,
                selected: final(self).selected,
                ..*old(self)
            }),
            final(self).selected == resolved(final(self).rows(), selected_id(*old(self)), old(self).selected),
    {
        let prev = self.selected_node_id();
        self.search_mode = true;
        self.search_query = Some(String::new());
        self.reselect(prev);
    }

    /// Leaves search editing, keeping the query applied; an empty query is
    /// dropped. The selection follows its node.
    pub fn exit_search_mode(&mut self)
        requires
            old(self).wf(),
        ensures
            *final(self) == (App {
                search_mode: false,
                search_query: match old(self).search_query {
                    Some(q) => if q@.len() == 0 {
                        None
                    } else {
                        Some(q)
                    },
                    None => None,
                },
                selected: final(self).selected,
                ..*old(self)
            }),
            final(self).selected == resolved(final(self).rows(), selected_id(*old(self)), old(self).selected),
    {
        let prev = self.selected_node_id();
        self.search_mode = false;
        match self.search_query.take() {
            Some(q) => {
                if q.unicode_len() != 0 {
                    self.search_query = Some(q);
                }
            },
            None => {},
        }
        self.reselect(prev);
    }

    /// Drops the query and leaves search editing; the selection follows its
    /// node.
    pub fn clear_search(&mut self)
        requires
            old(self).wf(),
        ensures
            *final(self) == (App { search_mode: false, search_query: None, selected: final(self).selected, ..*old(self) }),
            final(self).selected == resolved(final(self).rows(), selected_id(*old(self)), old(self).selected),
    {
        let prev = self.selected_node_id();
        self.search_query = None;
        self.search_mode = false;
        self.reselect(prev);
    }

    /// Appends a character to the query, starting one if there is none; the
    /// selection follows its node.
    pub fn push_search_char(&mut self, ch: char)
        requires
            old(self).wf(),
        ensures
            final(self).search_query is Some,
            final(self).search_query->Some_0@ == match old(self).search_query {
                Some(q) => q@.push(ch),
                None => seq![ch],
            },
            *final(self) == (App { search_query: final(self).search_query, selected: final(self).selected, ..*old(self) }),
            final(self).selected == resolved(final(self).rows(), selected_id(*old(self)), old(self).selected),
    {
        let prev = self.selected_node_id();
        let mut q = match self.search_query.take() {
            Some(q) => q,
            None => String::new(),
        };
        crate::text::push_char(&mut q, ch);
        self.search_query = Some(q);
        self.reselect(prev);
    }

    /// Removes the query's last character; outside search editing an
    /// emptied query is dropped. The selection follows its node. Without a
    /// query nothing changes.
    pub fn pop_search_char(&mut self)
        requires
            old(self).wf(),
        ensures
            match old(self).search_query {
                None => *final(self) == *old(self),
                Some(q) => {
                    let rest = if q@.len() == 0 {
                        q@
                    } else {
                        q@.drop_last()
                    };
                    &&& if rest.len() == 0 && !old(self).search_mode {
                        final(self).search_query is None
                    } else {
                        final(self).search_query is Some && final(self).search_query->Some_0@ == rest
                    }
                    &&& *final(self) == (App {
                        search_query: final(self).search_query,
                        selected: final(self).selected,
                        ..*old(self)
                    })
                    &&& final(self).selected == resolved(final(self).rows(), selected_id(*old(self)), old(self).selected)
                },
            },
    {
        if self.search_query.is_none() {
            return;
        }
        let prev = self.selected_node_id();
        match self.search_query.take() {
            None => {},
            Some(q) => {
                let mut q = q;
                let _ = crate::text::pop_char(&mut q);
                if q.unicode_len() == 0 && !self.search_mode {
                } else {
                    self.search_query = Some(q);
                }
            },
        }
        self.reselect(prev);
    }
}

} // verus!
