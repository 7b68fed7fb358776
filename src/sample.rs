//! The built-in sample catalog shown when loading fails.
use vstd::prelude::*;
use vstd::string::*;
use crate::config::Config;
use crate::nav::App;
use crate::tree::{Node, NodeKind, push_node, build_parent_map, parent_map, ranked, kids, acyclic};

verus! {

/// Child lists of the sample catalog, by node index.
pub open spec fn sample_kids() -> Seq<Seq<usize>> {
    seq![
        seq![3usize, 4, 5],
        seq![10usize, 11, 12],
        seq![17usize, 18],
        seq![6usize, 7],
        seq![8usize, 9],
        Seq::empty(),
        Seq::empty(),
        Seq::empty(),
        Seq::empty(),
        Seq::empty(),
        seq![13usize, 14],
        seq![15usize, 16],
        Seq::empty(),
        Seq::empty(),
        Seq::empty(),
        Seq::empty(),
        Seq::empty(),
        Seq::empty(),
        Seq::empty(),
    ]
}

/// Ranks that show the sample catalog has no cycle.
pub open spec fn sample_rank() -> Seq<nat> {
    seq![2nat, 2, 2, 1, 1, 0, 0, 0, 0, 0, 1, 1, 0, 0, 0, 0, 0, 0, 0]
}

/// Names of the sample nodes, by node index.
pub open spec fn sample_names() -> Seq<Seq<char>> {
    seq![
        "dev-platform"@,
        "data"@,
        "security"@,
        "backend"@,
        "frontend"@,
        "platform-tools"@,
        "api"@,
        "auth"@,
        "web"@,
        "design-system"@,
        "ingest"@,
        "models"@,
        "data-tools"@,
        "ingest"@,
        "pipeline"@,
        "fraud"@,
        "churn"@,
        "sec-tools"@,
        "audits"@,
    ]
}

/// Kinds of the sample nodes: groups at 0-4, 10 and 11.
pub open spec fn sample_is_group(i: int) -> bool {
    i <= 4 || i == 10 || i == 11
}

/// Appends a node under `parent` and returns its index.
fn add_child(nodes: &mut Vec<Node>, parent: usize, name: &str, kind: NodeKind, url: &str, path: &str) -> (id: usize)
    requires
        parent < old(nodes)@.len(),
    ensures
        id == old(nodes)@.len(),
        final(nodes)@.len() == id + 1,
        final(nodes)@ == old(nodes)@.update(parent as int, final(nodes)@[parent as int]).push(final(nodes)@[id as int]),
        final(nodes)@[parent as int] == (Node {
            children: final(nodes)@[parent as int].children,
            ..old(nodes)@[parent as int]
        }),
        final(nodes)@[parent as int].children@ == old(nodes)@[parent as int].children@.push(id),
        final(nodes)@[id as int].name@ == name@,
        final(nodes)@[id as int].kind == kind,
        final(nodes)@[id as int].children@.len() == 0,
        !final(nodes)@[id as int].expanded,
{
    let id = push_node(nodes, name, kind, url, path, "private", None);
    assert forall|k: int| 0 <= k < id implies #[trigger] nodes@[k] == old(nodes)@[k] by {
        assert(nodes@.subrange(0, id as int)[k] == nodes@[k]);
    }
    nodes[parent].children.push(id);
    assert(nodes@ =~= old(nodes)@.update(parent as int, nodes@[parent as int]).push(nodes@[id as int]));
    id
}

impl App {
    /// The sample catalog with a status message: three expanded top-level
    /// groups with subgroups and projects, the first row selected.
    pub fn sample_with_status(config: Config, status: String) -> (app: App)
        ensures
            app.wf(),
            app.nodes@.len() == 19,
            kids(app.nodes@) == sample_kids(),
            app.roots@ == seq![0usize, 1, 2],
            forall|i: int| 0 <= i < 19 ==> (#[trigger] app.nodes@[i]).expanded == (i <= 2),
            forall|i: int| 0 <= i < 19 ==> ((#[trigger] app.nodes@[i]).kind == NodeKind::Group) == sample_is_group(i),
            forall|i: int| 0 <= i < 19 ==> (#[trigger] app.nodes@[i]).name@ == sample_names()[i],
            app.parent@ == parent_map(app.nodes@),
            app.selected == 0,
            app.config == config,
            app.status == Some(status),
            !app.pending_g,
            app.toast is None,
            app.search_query is None,
            !app.search_mode,
    {
        let mut nodes: Vec<Node> = Vec::new();
        let dev_platform = push_node(&mut nodes, "dev-platform", NodeKind::Group, "https://gitlab.example.com/dev-platform", "dev-platform", "private", None);
        let data = push_node(&mut nodes, "data", NodeKind::Group, "https://gitlab.example.com/data", "data", "private", None);
        assert(nodes@[0] == nodes@.subrange(0, 1)[0]);
        let sec = push_node(&mut nodes, "security", NodeKind::Group, "https://gitlab.example.com/security", "security", "private", None);
        assert(nodes@[0] == nodes@.subrange(0, 2)[0]);
        assert(nodes@[1] == nodes@.subrange(0, 2)[1]);
        let dev_backend = add_child(&mut nodes, dev_platform, "backend", NodeKind::Group, "https://gitlab.example.com/dev-platform/backend", "dev-platform/backend");
        let dev_frontend = add_child(&mut nodes, dev_platform, "frontend", NodeKind::Group, "https://gitlab.example.com/dev-platform/frontend", "dev-platform/frontend");
        let _tools = add_child(&mut nodes, dev_platform, "platform-tools", NodeKind::Project, "https://gitlab.example.com/dev-platform/platform-tools", "dev-platform/platform-tools");
        let _api = add_child(&mut nodes, dev_backend, "api", NodeKind::Project, "https://gitlab.example.com/dev-platform/backend/api", "dev-platform/backend/api");
        let _auth = add_child(&mut nodes, dev_backend, "auth", NodeKind::Project, "https://gitlab.example.com/dev-platform/backend/auth", "dev-platform/backend/auth");
        let _web = add_child(&mut nodes, dev_frontend, "web", NodeKind::Project, "https://gitlab.example.com/dev-platform/frontend/web", "dev-platform/frontend/web");
        let _design = add_child(&mut nodes, dev_frontend, "design-system", NodeKind::Project, "https://gitlab.example.com/dev-platform/frontend/design-system", "dev-platform/frontend/design-system");
        let data_ingest = add_child(&mut nodes, data, "ingest", NodeKind::Group, "https://gitlab.example.com/data/ingest", "data/ingest");
        let data_models = add_child(&mut nodes, data, "models", NodeKind::Group, "https://gitlab.example.com/data/models", "data/models");
        let _data_tools = add_child(&mut nodes, data, "data-tools", NodeKind::Project, "https://gitlab.example.com/data/data-tools", "data/data-tools");
        let _ingest = add_child(&mut nodes, data_ingest, "ingest", NodeKind::Project, "https://gitlab.example.com/data/ingest/ingest", "data/ingest/ingest");
        let _pipeline = add_child(&mut nodes, data_ingest, "pipeline", NodeKind::Project, "https://gitlab.example.com/data/ingest/pipeline", "data/ingest/pipeline");
        let _fraud = add_child(&mut nodes, data_models, "fraud", NodeKind::Project, "https://gitlab.example.com/data/models/fraud", "data/models/fraud");
        let _churn = add_child(&mut nodes, data_models, "churn", NodeKind::Project, "https://gitlab.example.com/data/models/churn", "data/models/churn");
        let _sec_tools = add_child(&mut nodes, sec, "sec-tools", NodeKind::Project, "https://gitlab.example.com/security/sec-tools", "security/sec-tools");
        let _audits = add_child(&mut nodes, sec, "audits", NodeKind::Project, "https://gitlab.example.com/security/audits", "security/audits");
        nodes[dev_platform].expanded = true;
        nodes[data].expanded = true;
        nodes[sec].expanded = true;
        assert(nodes@[0].children@ =~= seq![3usize, 4, 5]);
        assert(nodes@[1].children@ =~= seq![10usize, 11, 12]);
        assert(nodes@[2].children@ =~= seq![17usize, 18]);
        assert(nodes@[3].children@ =~= seq![6usize, 7]);
        assert(nodes@[4].children@ =~= seq![8usize, 9]);
        assert(nodes@[10].children@ =~= seq![13usize, 14]);
        assert(nodes@[11].children@ =~= seq![15usize, 16]);
        assert(nodes@[5].children@ =~= Seq::<usize>::empty());
        assert(nodes@[6].children@ =~= Seq::<usize>::empty());
        assert(nodes@[7].children@ =~= Seq::<usize>::empty());
        assert(nodes@[8].children@ =~= Seq::<usize>::empty());
        assert(nodes@[9].children@ =~= Seq::<usize>::empty());
        assert(nodes@[12].children@ =~= Seq::<usize>::empty());
        assert(nodes@[13].children@ =~= Seq::<usize>::empty());
        assert(nodes@[14].children@ =~= Seq::<usize>::empty());
        assert(nodes@[15].children@ =~= Seq::<usize>::empty());
        assert(nodes@[16].children@ =~= Seq::<usize>::empty());
        assert(nodes@[17].children@ =~= Seq::<usize>::empty());
        assert(nodes@[18].children@ =~= Seq::<usize>::empty());
        assert(nodes@.len() == 19);
        assert(nodes@[0].name@ == sample_names()[0]);
        assert(nodes@[1].name@ == sample_names()[1]);
        assert(nodes@[2].name@ == sample_names()[2]);
        assert(nodes@[3].name@ == sample_names()[3]);
        assert(nodes@[4].name@ == sample_names()[4]);
        assert(nodes@[5].name@ == sample_names()[5]);
        assert(nodes@[6].name@ == sample_names()[6]);
        assert(nodes@[7].name@ == sample_names()[7]);
        assert(nodes@[8].name@ == sample_names()[8]);
        assert(nodes@[9].name@ == sample_names()[9]);
        assert(nodes@[10].name@ == sample_names()[10]);
        assert(nodes@[11].name@ == sample_names()[11]);
        assert(nodes@[12].name@ == sample_names()[12]);
        assert(nodes@[13].name@ == sample_names()[13]);
        assert(nodes@[14].name@ == sample_names()[14]);
        assert(nodes@[15].name@ == sample_names()[15]);
        assert(nodes@[16].name@ == sample_names()[16]);
        assert(nodes@[17].name@ == sample_names()[17]);
        assert(nodes@[18].name@ == sample_names()[18]);

        assert(kids(nodes@) =~= sample_kids());
        proof {
            let k = kids(nodes@);
            let rk = sample_rank();
            assert forall|p: int, j: int| 0 <= p < k.len() && 0 <= j < k[p].len() implies {
                &&& (#[trigger] k[p][j]) < k.len()
                &&& rk[k[p][j] as int] < rk[p]
            } by {}
            assert(ranked(k, rk));
            assert(acyclic(nodes@));
            assert forall|p: int, j: int| 0 <= p < nodes@.len() && 0 <= j < nodes@[p].children@.len() implies (#[trigger] nodes@[p].children@[j]) < nodes@.len() by {
                assert(k[p] == nodes@[p].children@);
            }
        }
        let parent = build_parent_map(nodes.as_slice());
        let mut roots: Vec<usize> = Vec::new();
        roots.push(dev_platform);
        roots.push(data);
        roots.push(sec);
        App {
            nodes,
            roots,
            parent,
            selected: 0,
            config,
            status: Some(status),
            pending_g: false,
            toast: None,
            search_query: None,
            search_mode: false,
        }
    }
}

} // verus!
