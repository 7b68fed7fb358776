use gitlab_tree::cache::cache_is_valid;
use gitlab_tree::config::{default_cache_path, ApiFilters, Config};
use gitlab_tree::display::{format_node_details, loading_message};
use gitlab_tree::filter::filter_visible_nodes;
use gitlab_tree::keys::{Key, KeyAction};
use gitlab_tree::nav::App;
use gitlab_tree::records::{GitLabGroup, GitLabProject, GroupProjects, PersonalProjects};
use gitlab_tree::sinks::{
    select_clipboard_backend, BrowserOpener, ClipboardBackend, ClipboardProbe, ClipboardSink,
};
use gitlab_tree::tree::{build_parent_map, push_node, Node, NodeKind, VisibleNode};
use std::path::PathBuf;

fn test_config() -> Config {
    Config {
        gitlab_url: "https://gitlab.com".to_string(),
        gitlab_token: "token".to_string(),
        filters: ApiFilters::default(),
        cache_path: default_cache_path(),
        cache_ttl_secs: 300,
    }
}

struct MockClipboardProbe {
    arboard_ok: bool,
    has_wayland: bool,
    has_display: bool,
    has_wl_copy: bool,
    has_xclip: bool,
}

impl ClipboardProbe for MockClipboardProbe {
    fn arboard_ok(&self) -> bool {
        self.arboard_ok
    }

    fn has_wayland(&self) -> bool {
        self.has_wayland
    }

    fn has_display(&self) -> bool {
        self.has_display
    }

    fn command_exists(&self, command: &str) -> bool {
        match command {
            "wl-copy" => self.has_wl_copy,
            "xclip" => self.has_xclip,
            _ => false,
        }
    }
}

struct MockClipboard {
    text: Option<String>,
}

impl ClipboardSink for MockClipboard {
    fn set_text(&mut self, text: String) -> Result<(), String> {
        self.text = Some(text);
        Ok(())
    }
}

struct MockBrowser {
    opened: Option<String>,
}

impl BrowserOpener for MockBrowser {
    fn open(&mut self, url: &str) -> Result<(), String> {
        self.opened = Some(url.to_string());
        Ok(())
    }
}

#[test]
fn visible_nodes_respects_expansion() {
    let mut nodes = Vec::new();
    let root = push_node(
        &mut nodes,
        "root",
        NodeKind::Group,
        "https://example.com/root",
        "root",
        "private",
        None,
    );
    let child = push_node(
        &mut nodes,
        "child",
        NodeKind::Project,
        "https://example.com/child",
        "root/child",
        "private",
        None,
    );
    nodes[root].children.push(child);

    let parent = build_parent_map(&nodes);
    let mut app = App {
        nodes,
        roots: vec![root],
        parent,
        selected: 0,
        config: test_config(),
        status: None,
        pending_g: false,
        toast: None,
        search_query: None,
        search_mode: false,
    };

    let visible = app.visible_nodes();
    assert_eq!(visible.len(), 1);
    assert_eq!(visible[0].id, root);

    app.nodes[root].expanded = true;
    let visible = app.visible_nodes();
    assert_eq!(visible.len(), 2);
    assert_eq!(visible[0].id, root);
    assert_eq!(visible[1].id, child);
}

#[test]
fn config_from_env_reader_requires_token_and_defaults_url() {
    let reader = |key: &str| match key {
        "GITLAB_TOKEN" => Some("token".to_string()),
        _ => None,
    };

    let config = Config::from_env_reader(reader).expect("config should load");
    assert_eq!(config.gitlab_url, "https://gitlab.com");
    assert_eq!(config.gitlab_token, "token");
    assert_eq!(config.filters.per_page, 100);
    assert!(config.filters.all_available.is_none());
    assert_eq!(config.cache_ttl_secs, 300);
    assert!(PathBuf::from(&config.cache_path).ends_with(PathBuf::from("gitlab-tree").join("cache.json")));
}

#[test]
fn config_from_env_reader_fails_without_token() {
    let reader = |_key: &str| None;
    let result = Config::from_env_reader(reader);
    assert!(result.is_err());
}

#[test]
fn config_from_env_reader_parses_filters() {
    let reader = |key: &str| match key {
        "GITLAB_TOKEN" => Some("token".to_string()),
        "GITLAB_ALL_AVAILABLE" => Some("true".to_string()),
        "GITLAB_OWNED" => Some("0".to_string()),
        "GITLAB_TOP_LEVEL_ONLY" => Some("yes".to_string()),
        "GITLAB_INCLUDE_SUBGROUPS" => Some("on".to_string()),
        "GITLAB_VISIBILITY" => Some("private".to_string()),
        "GITLAB_PER_PAGE" => Some("50".to_string()),
        "GITLAB_CACHE_TTL_SECONDS" => Some("120".to_string()),
        "GITLAB_CACHE_PATH" => Some("/tmp/gitlab-tree-cache.json".to_string()),
        _ => None,
    };

    let config = Config::from_env_reader(reader).expect("config should load");
    assert_eq!(config.filters.per_page, 50);
    assert_eq!(config.filters.all_available, Some(true));
    assert_eq!(config.filters.owned, Some(false));
    assert_eq!(config.filters.top_level_only, Some(true));
    assert_eq!(config.filters.include_subgroups, Some(true));
    assert_eq!(config.filters.visibility.as_deref(), Some("private"));
    assert_eq!(config.cache_ttl_secs, 120);
    assert_eq!(
        PathBuf::from(&config.cache_path),
        PathBuf::from("/tmp/gitlab-tree-cache.json")
    );
}

#[test]
fn config_from_env_reader_rejects_invalid_bool() {
    let reader = |key: &str| match key {
        "GITLAB_TOKEN" => Some("token".to_string()),
        "GITLAB_OWNED" => Some("maybe".to_string()),
        _ => None,
    };

    let result = Config::from_env_reader(reader);
    assert!(result.is_err());
}

#[test]
fn loading_message_cycles_frames() {
    assert_eq!(loading_message(0), "| loading GitLab data...");
    assert_eq!(loading_message(1), "/ loading GitLab data...");
    assert_eq!(loading_message(2), "- loading GitLab data...");
    assert_eq!(loading_message(3), "\\ loading GitLab data...");
    assert_eq!(loading_message(4), "| loading GitLab data...");
}

#[test]
fn format_node_details_includes_metadata() {
    let node = Node {
        name: "root".to_string(),
        kind: NodeKind::Group,
        children: Vec::new(),
        expanded: false,
        url: "https://example.com/root".to_string(),
        path: "root".to_string(),
        visibility: "private".to_string(),
        last_activity: None,
    };

    let lines = format_node_details(&node);
    assert!(lines.iter().any(|line| line == "Name: root"));
    assert!(lines.iter().any(|line| line == "Kind: Group"));
    assert!(lines.iter().any(|line| line == "Path: root"));
    assert!(lines.iter().any(|line| line == "Visibility: private"));
    assert!(lines.iter().any(|line| line == "URL: https://example.com/root"));
    assert!(!lines.iter().any(|line| line.starts_with("Last activity:")));
}

#[test]
fn format_node_details_includes_last_activity_when_present() {
    let node = Node {
        name: "proj".to_string(),
        kind: NodeKind::Project,
        children: Vec::new(),
        expanded: false,
        url: "https://example.com/root/proj".to_string(),
        path: "root/proj".to_string(),
        visibility: "internal".to_string(),
        last_activity: Some("2024-01-01T00:00:00Z".to_string()),
    };

    let lines = format_node_details(&node);
    assert!(lines
        .iter()
        .any(|line| line == "Last activity: 2024-01-01T00:00:00Z"));
}

#[test]
fn filter_visible_nodes_matches_query_case_insensitive() {
    let nodes = vec![
        Node {
            name: "API".to_string(),
            kind: NodeKind::Project,
            children: Vec::new(),
            expanded: false,
            url: "https://example.com/api".to_string(),
            path: "root/api".to_string(),
            visibility: "private".to_string(),
            last_activity: None,
        },
        Node {
            name: "web".to_string(),
            kind: NodeKind::Project,
            children: Vec::new(),
            expanded: false,
            url: "https://example.com/web".to_string(),
            path: "root/web".to_string(),
            visibility: "private".to_string(),
            last_activity: None,
        },
    ];
    let visible = vec![
        VisibleNode { id: 0, depth: 0 },
        VisibleNode { id: 1, depth: 0 },
    ];

    let filtered = filter_visible_nodes(&visible, &nodes, "api");
    assert_eq!(filtered.len(), 1);
    assert_eq!(filtered[0].id, 0);
}

#[test]
fn filter_visible_nodes_matches_fuzzy_subsequence() {
    let nodes = vec![Node {
        name: "gitlab".to_string(),
        kind: NodeKind::Project,
        children: Vec::new(),
        expanded: false,
        url: "https://example.com/gitlab".to_string(),
        path: "root/gitlab".to_string(),
        visibility: "private".to_string(),
        last_activity: None,
    }];
    let visible = vec![VisibleNode { id: 0, depth: 0 }];

    let filtered = filter_visible_nodes(&visible, &nodes, "glb");
    assert_eq!(filtered.len(), 1);
    assert_eq!(filtered[0].id, 0);
}

#[test]
fn handle_key_returns_reload_on_r() {
    let mut nodes = Vec::new();
    let root = push_node(
        &mut nodes,
        "root",
        NodeKind::Group,
        "https://example.com/root",
        "root",
        "private",
        None,
    );
    let parent = build_parent_map(&nodes);
    let mut app = App {
        nodes,
        roots: vec![root],
        parent,
        selected: 0,
        config: test_config(),
        status: None,
        pending_g: false,
        toast: None,
        search_query: None,
        search_mode: false,
    };

    let visible = app.visible_nodes();
    let mut browser = MockBrowser { opened: None };
    let action = app.handle_key(Key::Char('r'), &visible, None::<&mut MockClipboard>, &mut browser);

    if let KeyAction::Reload = action {
    } else {
        panic!("expected reload action");
    }
}

#[test]
fn select_clipboard_prefers_arboard() {
    let probe = MockClipboardProbe {
        arboard_ok: true,
        has_wayland: true,
        has_display: true,
        has_wl_copy: true,
        has_xclip: true,
    };

    assert_eq!(select_clipboard_backend(&probe), ClipboardBackend::Arboard);
}

#[test]
fn select_clipboard_uses_wl_copy_on_wayland() {
    let probe = MockClipboardProbe {
        arboard_ok: false,
        has_wayland: true,
        has_display: true,
        has_wl_copy: true,
        has_xclip: true,
    };

    assert_eq!(select_clipboard_backend(&probe), ClipboardBackend::WlCopy);
}

#[test]
fn select_clipboard_uses_xclip_on_x11() {
    let probe = MockClipboardProbe {
        arboard_ok: false,
        has_wayland: false,
        has_display: true,
        has_wl_copy: false,
        has_xclip: true,
    };

    assert_eq!(select_clipboard_backend(&probe), ClipboardBackend::Xclip);
}

#[test]
fn select_clipboard_none_when_unavailable() {
    let probe = MockClipboardProbe {
        arboard_ok: false,
        has_wayland: false,
        has_display: false,
        has_wl_copy: false,
        has_xclip: false,
    };

    assert_eq!(select_clipboard_backend(&probe), ClipboardBackend::Unavailable);
}

#[test]
fn from_gitlab_data_builds_parent_child_relationships() {
    let groups = vec![
        GitLabGroup {
            id: 1,
            name: "root".to_string(),
            web_url: "https://example.com/root".to_string(),
            full_path: "root".to_string(),
            visibility: "private".to_string(),
            parent_id: None,
        },
        GitLabGroup {
            id: 2,
            name: "child".to_string(),
            web_url: "https://example.com/root/child".to_string(),
            full_path: "root/child".to_string(),
            visibility: "private".to_string(),
            parent_id: Some(1),
        },
    ];
    let projects = vec![GroupProjects {
        group_id: 1,
        projects: vec![GitLabProject {
            name: "proj".to_string(),
            web_url: "https://example.com/root/proj".to_string(),
            path_with_namespace: "root/proj".to_string(),
            visibility: "private".to_string(),
            last_activity_at: Some("2024-01-01T00:00:00Z".to_string()),
        }],
    }];

    let app = App::from_gitlab_data(groups, projects, None, test_config(), "groups: 2".to_string());

    assert_eq!(app.roots.len(), 1);
    let root_id = app.roots[0];
    assert_eq!(app.nodes[root_id].name, "root");
    assert_eq!(app.nodes[root_id].children.len(), 2);
    let mut child_ids = app.nodes[root_id].children.clone();
    child_ids.sort_by_key(|id| app.nodes[*id].name.clone());

    let child_id = child_ids[0];
    let project_id = child_ids[1];
    assert_eq!(app.nodes[child_id].name, "child");
    assert_eq!(app.nodes[project_id].name, "proj");
    assert_eq!(app.parent[child_id], Some(root_id));
    assert_eq!(app.parent[project_id], Some(root_id));
}

#[test]
fn from_gitlab_data_adds_personal_projects_root() {
    let personal = PersonalProjects {
        username: "alice".to_string(),
        web_url: "https://example.com/alice".to_string(),
        projects: vec![GitLabProject {
            name: "notes".to_string(),
            web_url: "https://example.com/alice/notes".to_string(),
            path_with_namespace: "alice/notes".to_string(),
            visibility: "private".to_string(),
            last_activity_at: None,
        }],
    };

    let app = App::from_gitlab_data(
        Vec::new(),
        Vec::new(),
        Some(personal),
        test_config(),
        "personal: 1".to_string(),
    );

    assert_eq!(app.roots.len(), 1);
    let root_id = app.roots[0];
    assert_eq!(app.nodes[root_id].name, "alice");
    assert_eq!(app.nodes[root_id].children.len(), 1);
    let project_id = app.nodes[root_id].children[0];
    assert_eq!(app.nodes[project_id].name, "notes");
    assert_eq!(app.parent[project_id], Some(root_id));
}

#[test]
fn vim_navigation_helpers_update_selection() {
    let mut nodes = Vec::new();
    let root = push_node(
        &mut nodes,
        "root",
        NodeKind::Group,
        "https://example.com/root",
        "root",
        "private",
        None,
    );
    let child = push_node(
        &mut nodes,
        "child",
        NodeKind::Project,
        "https://example.com/child",
        "root/child",
        "private",
        None,
    );
    nodes[root].children.push(child);
    nodes[root].expanded = true;

    let parent = build_parent_map(&nodes);
    let mut app = App {
        nodes,
        roots: vec![root],
        parent,
        selected: 1,
        config: test_config(),
        status: None,
        pending_g: false,
        toast: None,
        search_query: None,
        search_mode: false,
    };

    app.move_top();
    assert_eq!(app.selected, 0);

    app.move_bottom(2);
    assert_eq!(app.selected, 1);
}

#[test]
fn vim_navigation_pending_g_toggles() {
    let mut app = App {
        nodes: Vec::new(),
        roots: Vec::new(),
        parent: Vec::new(),
        selected: 0,
        config: test_config(),
        status: None,
        pending_g: false,
        toast: None,
        search_query: None,
        search_mode: false,
    };

    assert!(!app.consume_pending_g());
    app.set_pending_g();
    assert!(app.consume_pending_g());
    assert!(!app.consume_pending_g());
}

#[test]
fn yank_selected_copies_url() {
    let mut nodes = Vec::new();
    let root = push_node(
        &mut nodes,
        "root",
        NodeKind::Group,
        "https://example.com/root",
        "root",
        "private",
        None,
    );
    let parent = build_parent_map(&nodes);
    let mut app = App {
        nodes,
        roots: vec![root],
        parent,
        selected: 0,
        config: test_config(),
        status: None,
        pending_g: false,
        toast: None,
        search_query: None,
        search_mode: false,
    };

    let visible = app.visible_nodes();
    let mut clipboard = MockClipboard { text: None };
    let url = app
        .yank_selected(&visible, &mut clipboard)
        .expect("yank should succeed");

    assert_eq!(url, "https://example.com/root");
    assert_eq!(clipboard.text.as_deref(), Some("https://example.com/root"));
}

#[test]
fn open_selected_opens_url() {
    let mut nodes = Vec::new();
    let root = push_node(
        &mut nodes,
        "root",
        NodeKind::Group,
        "https://example.com/root",
        "root",
        "private",
        None,
    );
    let parent = build_parent_map(&nodes);
    let mut app = App {
        nodes,
        roots: vec![root],
        parent,
        selected: 0,
        config: test_config(),
        status: None,
        pending_g: false,
        toast: None,
        search_query: None,
        search_mode: false,
    };

    let visible = app.visible_nodes();
    let mut browser = MockBrowser { opened: None };
    let url = app
        .open_selected(&visible, &mut browser)
        .expect("open should succeed");

    assert_eq!(url, "https://example.com/root");
    assert_eq!(browser.opened.as_deref(), Some("https://example.com/root"));
}

#[test]
fn toast_expires_after_ticks() {
    let mut app = App {
        nodes: Vec::new(),
        roots: Vec::new(),
        parent: Vec::new(),
        selected: 0,
        config: test_config(),
        status: None,
        pending_g: false,
        toast: None,
        search_query: None,
        search_mode: false,
    };

    app.set_toast("Copied URL".to_string());
    for _ in 0..App::TOAST_TTL {
        app.tick_toast();
    }

    assert!(app.toast.is_none());
}

#[test]
fn cache_is_valid_respects_ttl() {
    let ttl = 10;
    let now = 100;
    assert!(cache_is_valid(95, ttl, now));
    assert!(!cache_is_valid(80, ttl, now));
}
