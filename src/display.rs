//! Plain-text pieces the renderer lays out: row labels, node details, the
//! loading spinner.
use vstd::prelude::*;
use vstd::string::*;
use crate::nav::App;
use crate::text::{join_text, push_char};
use crate::tree::{Node, NodeKind, VisibleNode};

verus! {

/// Capitalised label of a node kind.
pub open spec fn kind_title(kind: NodeKind) -> Seq<char> {
    match kind {
        NodeKind::Group => "Group"@,
        NodeKind::Project => "Project"@,
    }
}

/// Lower-case label of a node kind.
pub open spec fn kind_word(kind: NodeKind) -> Seq<char> {
    match kind {
        NodeKind::Group => "group"@,
        NodeKind::Project => "project"@,
    }
}

/// The detail lines of a node: name, kind, path, visibility and locator, then
/// the last activity when known.
pub open spec fn details_of(node: Node) -> Seq<Seq<char>> {
    seq![
        "Name: "@ + node.name@,
        "Kind: "@ + kind_title(node.kind),
        "Path: "@ + node.path@,
        "Visibility: "@ + node.visibility@,
        "URL: "@ + node.url@,
    ] + match node.last_activity {
        Some(t) => seq!["Last activity: "@ + t@],
        None => Seq::empty(),
    }
}

/// What a list of lines says.
pub open spec fn lines_view(lines: Seq<String>) -> Seq<Seq<char>> {
    Seq::new(lines.len(), |i: int| lines[i]@)
}

/// The detail lines of a node.
pub fn format_node_details(node: &Node) -> (lines: Vec<String>)
    ensures
        lines_view(lines@) == details_of(*node),
{
    let kind = match node.kind {
        NodeKind::Group => "Group",
        NodeKind::Project => "Project",
    };
    let mut lines: Vec<String> = Vec::new();
    lines.push(join_text("Name: ", node.name.as_str()));
    lines.push(join_text("Kind: ", kind));
    lines.push(join_text("Path: ", node.path.as_str()));
    lines.push(join_text("Visibility: ", node.visibility.as_str()));
    lines.push(join_text("URL: ", node.url.as_str()));
    match &node.last_activity {
        Some(t) => lines.push(join_text("Last activity: ", t.as_str())),
        None => {},
    }
    assert(lines_view(lines@) =~= details_of(*node));
    lines
}

/// Spinner frame `i` of four.
pub open spec fn spinner_frame(i: nat) -> Seq<char> {
    if i == 0 {
        "|"@
    } else if i == 1 {
        "/"@
    } else if i == 2 {
        "-"@
    } else {
        "\\"@
    }
}

/// The loading line for a spinner tick, cycling through four frames.
pub fn loading_message(tick: usize) -> (r: String)
    ensures
        r@ == spinner_frame((tick % 4) as nat) + " loading GitLab data..."@,
{
    let frame = match tick % 4 {
        0 => "|",
        1 => "/",
        2 => "-",
        _ => "\\",
    };
    join_text(frame, " loading GitLab data...")
}

/// Two spaces per level.
pub open spec fn indent(depth: nat) -> Seq<char> {
    Seq::new(2 * depth, |i: int| ' ')
}

/// The expansion marker of a node: a leaf, an open or a closed group.
pub open spec fn marker(node: Node) -> Seq<char> {
    if node.children@.len() == 0 {
        " * "@
    } else if node.expanded {
        "[-]"@
    } else {
        "[+]"@
    }
}

impl App {
    /// The text of one row: indentation, marker, kind and name.
    pub fn row_text(&self, row: VisibleNode) -> (r: String)
        requires
            row.id < self.nodes@.len(),
        ensures
            r@ == indent(row.depth as nat) + marker(self.nodes@[row.id as int]) + " "@ + kind_word(
                self.nodes@[row.id as int].kind,
            ) + " "@ + self.nodes@[row.id as int].name@,
    {
        let node = &self.nodes[row.id];
        let mut s = String::new();
        let mut d: usize = 0;
        while d < row.depth
            invariant
                d <= row.depth,
                s@ == indent(d as nat),
            decreases row.depth - d,
        {
            push_char(&mut s, ' ');
            push_char(&mut s, ' ');
            assert(s@ =~= indent((d + 1) as nat));
            d = d + 1;
        }
        let m = if node.children.len() == 0 {
            " * "
        } else if node.expanded {
            "[-]"
        } else {
            "[+]"
        };
        let k = match node.kind {
            NodeKind::Group => "group",
            NodeKind::Project => "project",
        };
        let s = s.concat(m);
        let s = s.concat(" ");
        let s = s.concat(k);
        let s = s.concat(" ");
        s.concat(node.name.as_str())
    }

    /// The detail lines of the selected row's node, or `No selection`.
    pub fn details_lines(&self, visible: &[VisibleNode]) -> (lines: Vec<String>)
        requires
            visible@.len() > 0 ==> self.selected < visible@.len() && visible@[self.selected as int].id < self.nodes@.len(),
        ensures
            lines_view(lines@) == if visible@.len() == 0 {
                seq!["No selection"@]
            } else {
                details_of(self.nodes@[visible@[self.selected as int].id as int])
            },
    {
        if visible.len() == 0 {
            let mut v: Vec<String> = Vec::new();
            v.push(String::from_str("No selection"));
            assert(lines_view(v@) =~= seq!["No selection"@]);
            v
        } else {
            format_node_details(&self.nodes[visible[self.selected].id])
        }
    }
}

} // verus!
