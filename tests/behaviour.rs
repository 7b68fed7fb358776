use gitlab_tree::cache::{cache_is_valid, CacheStore};
use gitlab_tree::config::{
    default_cache_path, join_path, ApiFilters, Config, ConfigErrorKind, EnvValues,
};
use gitlab_tree::display::loading_message;
use gitlab_tree::filter::{filter_visible_nodes, fuzzy_match};
use gitlab_tree::ingest::{
    group_projects_query, group_projects_url, group_query, groups_url, load_error_status,
    load_status, next_page, owned_projects_query, personal_web_url, snapshot_status,
    total_projects, user_url, NextPage, Pager,
};
use gitlab_tree::keys::{Key, KeyAction};
use gitlab_tree::loader::Loader;
use gitlab_tree::nav::App;
use gitlab_tree::records::{CacheData, GitLabGroup, GitLabProject, GroupProjects, PersonalProjects};
use gitlab_tree::sinks::{copy_command, next_probe_step, probe_command, BrowserOpener, ClipboardBackend, ClipboardSink, ProbeStep};
use gitlab_tree::tree::{build_parent_map, push_node, Node, NodeKind, VisibleNode};

fn config() -> Config {
    Config {
        gitlab_url: "https://gitlab.com".to_string(),
        gitlab_token: "token".to_string(),
        filters: ApiFilters::default(),
        cache_path: "/tmp/cache.json".to_string(),
        cache_ttl_secs: 300,
    }
}

fn group(id: usize, name: &str, parent_id: Option<usize>) -> GitLabGroup {
    GitLabGroup {
        id,
        name: name.to_string(),
        web_url: format!("https://example.com/{name}"),
        full_path: name.to_string(),
        visibility: "private".to_string(),
        parent_id,
    }
}

fn project(name: &str) -> GitLabProject {
    GitLabProject {
        name: name.to_string(),
        web_url: format!("https://example.com/p/{name}"),
        path_with_namespace: format!("p/{name}"),
        visibility: "internal".to_string(),
        last_activity_at: None,
    }
}

fn names(app: &App, rows: &[VisibleNode]) -> Vec<String> {
    rows.iter().map(|r| app.nodes[r.id].name.clone()).collect()
}

/// root(1) > child(2) > leaf project, plus a second top-level group.
fn two_level_app() -> App {
    App::from_gitlab_data(
        vec![group(1, "root", None), group(2, "child", Some(1)), group(3, "other", None)],
        vec![GroupProjects { group_id: 2, projects: vec![project("leaf")] }],
        None,
        config(),
        "ok".to_string(),
    )
}

struct RecordingClipboard {
    text: Option<String>,
    fail: bool,
}

impl ClipboardSink for RecordingClipboard {
    fn set_text(&mut self, text: String) -> Result<(), String> {
        if self.fail {
            return Err("denied".to_string());
        }
        self.text = Some(text);
        Ok(())
    }
}

struct RecordingBrowser {
    opened: Option<String>,
}

impl BrowserOpener for RecordingBrowser {
    fn open(&mut self, url: &str) -> Result<(), String> {
        self.opened = Some(url.to_string());
        Ok(())
    }
}

#[test]
fn collapsed_forest_shows_one_row_per_root() {
    let mut app = two_level_app();
    for node in app.nodes.iter_mut() {
        node.expanded = false;
    }
    let rows = app.visible_nodes();
    assert_eq!(names(&app, &rows), vec!["root", "other"]);
    assert!(rows.iter().all(|r| r.depth == 0));
}

#[test]
fn expand_then_collapse_restores_rows() {
    let mut app = two_level_app();
    let before = app.visible_nodes();
    assert_eq!(names(&app, &before), vec!["root", "child", "other"]);
    app.selected = 1;
    app.expand_or_child(&before);
    let opened = app.visible_nodes();
    assert_eq!(names(&app, &opened), vec!["root", "child", "leaf", "other"]);
    assert_eq!(opened[2].depth, 2);
    assert_eq!(app.selected, 1);
    app.collapse_or_parent(&opened);
    let after = app.visible_nodes();
    assert_eq!(after, before);
    assert_eq!(app.selected, 1);
}

#[test]
fn expand_on_open_node_drills_into_first_child() {
    let mut app = two_level_app();
    let rows = app.visible_nodes();
    app.selected = 0;
    app.expand_or_child(&rows);
    assert_eq!(app.selected, 1);
}

#[test]
fn collapse_on_closed_node_selects_parent() {
    let mut app = two_level_app();
    let rows = app.visible_nodes();
    app.selected = 1;
    app.collapse_or_parent(&rows);
    assert_eq!(app.selected, 0);
    app.collapse_or_parent(&rows);
    let rows = app.visible_nodes();
    assert_eq!(names(&app, &rows), vec!["root", "other"]);
    assert!(app.selected < rows.len());
}

#[test]
fn moving_past_either_end_is_a_no_op() {
    let mut app = two_level_app();
    app.selected = 0;
    app.move_up();
    assert_eq!(app.selected, 0);
    app.selected = 2;
    app.move_down(3);
    assert_eq!(app.selected, 2);
    app.move_down(4);
    assert_eq!(app.selected, 3);
}

#[test]
fn selection_is_clamped_after_collapsing_below_it() {
    let mut app = two_level_app();
    let rows = app.visible_nodes();
    app.selected = 0;
    app.collapse_or_parent(&rows);
    let rows = app.visible_nodes();
    assert_eq!(rows.len(), 2);
    assert!(app.selected < rows.len());
    app.selected = 7;
    app.ensure_selection(rows.len());
    assert_eq!(app.selected, 1);
    app.ensure_selection(0);
    assert_eq!(app.selected, 0);
}

#[test]
fn fuzzy_match_examples() {
    assert!(fuzzy_match("glb", "gitlab"));
    assert!(fuzzy_match("", "anything"));
    assert!(!fuzzy_match("zzz", "gitlab"));
    assert!(!fuzzy_match("bg", "gitlab"));
    let app = two_level_app();
    let rows = app.visible_nodes();
    assert!(filter_visible_nodes(&rows, &app.nodes, "zzz").is_empty());
    assert_eq!(filter_visible_nodes(&rows, &app.nodes, "  ").len(), rows.len());
    assert_eq!(names(&app, &filter_visible_nodes(&rows, &app.nodes, "CHD")), vec!["child"]);
}

#[test]
fn search_filters_the_projection() {
    let mut app = two_level_app();
    app.search_query = Some("oth".to_string());
    let rows = app.visible_nodes();
    assert_eq!(names(&app, &rows), vec!["other"]);
}

#[test]
fn cache_validity_boundary() {
    assert!(cache_is_valid(95, 10, 100));
    assert!(!cache_is_valid(85, 10, 100));
    assert!(cache_is_valid(90, 10, 100));
    assert!(!cache_is_valid(89, 10, 100));
    assert!(cache_is_valid(200, 10, 100));
    let store = CacheStore::new("/tmp/x.json".to_string(), 10);
    let data = CacheData { created_at: 90, groups: vec![], projects_by_group: vec![], personal: None };
    assert!(store.accepts(&data, 100));
    assert!(!store.accepts(&data, 101));
}

#[test]
fn reload_discards_the_stale_result() {
    let mut loader = Loader::new();
    let first = loader.start();
    let second = loader.start();
    assert_ne!(first, second);
    assert!(!loader.deliver(first));
    assert!(loader.is_pending());
    assert!(loader.deliver(second));
    assert!(!loader.is_pending());
    assert!(!loader.deliver(second));
}

#[test]
fn build_scenario_root_with_child_and_project() {
    let app = App::from_gitlab_data(
        vec![group(1, "root", None), group(2, "child", Some(1))],
        vec![GroupProjects { group_id: 1, projects: vec![project("proj")] }],
        None,
        config(),
        "s".to_string(),
    );
    assert_eq!(app.roots, vec![0]);
    assert_eq!(app.nodes[0].children, vec![1, 2]);
    assert_eq!(app.nodes[2].name, "proj");
    assert_eq!(app.nodes[2].kind, NodeKind::Project);
    assert_eq!(app.parent, vec![None, Some(0), Some(0)]);
    assert!(app.nodes[0].expanded);
    assert!(!app.nodes[1].expanded);
    assert_eq!(app.status.as_deref(), Some("s"));
}

#[test]
fn build_places_out_of_order_children() {
    let app = App::from_gitlab_data(
        vec![group(2, "child", Some(1)), group(1, "root", None)],
        vec![],
        None,
        config(),
        "s".to_string(),
    );
    assert_eq!(app.roots, vec![1]);
    assert_eq!(app.nodes[1].children, vec![0]);
    assert_eq!(app.parent, vec![Some(1), None]);
}

#[test]
fn build_demotes_unresolved_and_cyclic_parents_to_roots() {
    let app = App::from_gitlab_data(
        vec![group(1, "a", Some(2)), group(2, "b", Some(1)), group(3, "c", Some(99))],
        vec![GroupProjects { group_id: 42, projects: vec![project("lost")] }],
        None,
        config(),
        "s".to_string(),
    );
    assert_eq!(app.roots, vec![0, 1, 2]);
    assert_eq!(app.nodes.len(), 3);
    assert!(app.nodes.iter().all(|n| n.children.is_empty()));
    assert_eq!(app.visible_nodes().len(), 3);
}

#[test]
fn build_personal_namespace_only() {
    let personal = PersonalProjects {
        username: "alice".to_string(),
        web_url: "https://example.com/alice".to_string(),
        projects: vec![project("notes")],
    };
    let app = App::from_gitlab_data(vec![], vec![], Some(personal), config(), "s".to_string());
    assert_eq!(app.roots, vec![0]);
    assert_eq!(app.nodes[0].name, "alice");
    assert_eq!(app.nodes[0].path, "alice");
    assert_eq!(app.nodes[0].visibility, "private");
    assert_eq!(app.nodes[0].children, vec![1]);
    assert_eq!(app.parent, vec![None, Some(0)]);
}

#[test]
fn config_errors_name_the_setting() {
    let missing = Config::from_env_reader(|_k: &str| None).unwrap_err();
    assert_eq!(missing.kind, ConfigErrorKind::MissingVariable);
    assert_eq!(missing.message(), "missing required environment variable: GITLAB_TOKEN");

    let blank = Config::from_env_reader(|k: &str| match k {
        "GITLAB_TOKEN" => Some("   ".to_string()),
        _ => None,
    })
    .unwrap_err();
    assert_eq!(blank.kind, ConfigErrorKind::MissingVariable);

    let bad_bool = Config::from_env_reader(|k: &str| match k {
        "GITLAB_TOKEN" => Some("t".to_string()),
        "GITLAB_OWNED" => Some("maybe".to_string()),
        _ => None,
    })
    .unwrap_err();
    assert_eq!(bad_bool.kind, ConfigErrorKind::InvalidBool);
    assert_eq!(bad_bool.message(), "invalid boolean for GITLAB_OWNED: maybe");

    let too_big = Config::from_env_reader(|k: &str| match k {
        "GITLAB_TOKEN" => Some("t".to_string()),
        "GITLAB_PER_PAGE" => Some("70000".to_string()),
        _ => None,
    })
    .unwrap_err();
    assert_eq!(too_big.kind, ConfigErrorKind::InvalidInteger);
    assert_eq!(too_big.message(), "invalid integer for GITLAB_PER_PAGE: 70000");

    let bad_ttl = Config::from_env_reader(|k: &str| match k {
        "GITLAB_TOKEN" => Some("t".to_string()),
        "GITLAB_CACHE_TTL_SECONDS" => Some("-1".to_string()),
        _ => None,
    })
    .unwrap_err();
    assert_eq!(bad_ttl.kind, ConfigErrorKind::InvalidInteger);
}

#[test]
fn config_values_case_and_blank_handling() {
    let values = EnvValues {
        gitlab_url: Some("  ".to_string()),
        gitlab_token: Some("tok".to_string()),
        all_available: Some("TRUE".to_string()),
        owned: Some("Off".to_string()),
        top_level_only: None,
        include_subgroups: Some(" ".to_string()),
        visibility: Some("\t".to_string()),
        per_page: Some("+7".to_string()),
        cache_ttl_seconds: Some("0".to_string()),
        cache_path: None,
    };
    let c = Config::from_values(&values, "/var/cache/x".to_string()).expect("valid");
    assert_eq!(c.gitlab_url, "https://gitlab.com");
    assert_eq!(c.filters.all_available, Some(true));
    assert_eq!(c.filters.owned, Some(false));
    assert_eq!(c.filters.include_subgroups, None);
    assert_eq!(c.filters.visibility, None);
    assert_eq!(c.filters.per_page, 7);
    assert_eq!(c.cache_ttl_secs, 0);
    assert_eq!(c.cache_path, "/var/cache/x");
}

#[test]
fn default_cache_path_ends_with_app_file() {
    assert!(default_cache_path().ends_with("gitlab-tree/cache.json"));
    assert_eq!(join_path("/home/a/.cache", "x"), "/home/a/.cache/x");
    assert_eq!(join_path("/home/a/.cache/", "x"), "/home/a/.cache/x");
    assert_eq!(join_path("", "x"), "x");
}

#[test]
fn key_chord_and_jumps() {
    let mut app = two_level_app();
    let rows = app.visible_nodes();
    let mut browser = RecordingBrowser { opened: None };
    app.selected = 2;
    let a = app.handle_key(Key::Char('g'), &rows, None::<&mut RecordingClipboard>, &mut browser);
    assert_eq!(a, KeyAction::Continue);
    assert!(app.pending_g);
    assert_eq!(app.selected, 2);
    app.handle_key(Key::Char('g'), &rows, None::<&mut RecordingClipboard>, &mut browser);
    assert_eq!(app.selected, 0);
    assert!(!app.pending_g);
    app.handle_key(Key::Char('g'), &rows, None::<&mut RecordingClipboard>, &mut browser);
    app.handle_key(Key::Char('j'), &rows, None::<&mut RecordingClipboard>, &mut browser);
    assert!(!app.pending_g);
    assert_eq!(app.selected, 1);
    app.handle_key(Key::Char('G'), &rows, None::<&mut RecordingClipboard>, &mut browser);
    assert_eq!(app.selected, 2);
    assert_eq!(
        app.handle_key(Key::Char('q'), &rows, None::<&mut RecordingClipboard>, &mut browser),
        KeyAction::Quit
    );
}

#[test]
fn search_editing_keys() {
    let mut app = two_level_app();
    let rows = app.visible_nodes();
    let mut browser = RecordingBrowser { opened: None };
    app.handle_key(Key::Char('/'), &rows, None::<&mut RecordingClipboard>, &mut browser);
    assert!(app.search_mode);
    assert_eq!(app.search_query.as_deref(), Some(""));
    for c in ['o', 't', 'x'] {
        app.handle_key(Key::Char(c), &rows, None::<&mut RecordingClipboard>, &mut browser);
    }
    assert_eq!(app.search_query.as_deref(), Some("otx"));
    assert_eq!(
        app.handle_key(Key::Char('q'), &rows, None::<&mut RecordingClipboard>, &mut browser),
        KeyAction::Continue
    );
    app.handle_key(Key::Backspace, &rows, None::<&mut RecordingClipboard>, &mut browser);
    app.handle_key(Key::Backspace, &rows, None::<&mut RecordingClipboard>, &mut browser);
    assert_eq!(app.search_query.as_deref(), Some("ot"));
    app.handle_key(Key::Enter, &rows, None::<&mut RecordingClipboard>, &mut browser);
    assert!(!app.search_mode);
    assert_eq!(app.search_query.as_deref(), Some("ot"));
    app.handle_key(Key::Esc, &rows, None::<&mut RecordingClipboard>, &mut browser);
    assert_eq!(app.search_query, None);

    app.start_search();
    app.exit_search_mode();
    assert_eq!(app.search_query, None);
    app.push_search_char('a');
    app.pop_search_char();
    assert_eq!(app.search_query, None);
}

#[test]
fn copy_and_open_report_their_outcome() {
    let mut app = two_level_app();
    let rows = app.visible_nodes();
    let mut browser = RecordingBrowser { opened: None };
    app.handle_key(Key::Char('y'), &rows, None::<&mut RecordingClipboard>, &mut browser);
    assert_eq!(app.status.as_deref(), Some("clipboard unavailable"));

    let mut cb = RecordingClipboard { text: None, fail: false };
    app.handle_key(Key::Char('y'), &rows, Some(&mut cb), &mut browser);
    assert_eq!(cb.text.as_deref(), Some("https://example.com/root"));
    assert_eq!(app.status.as_deref(), Some("copied https://example.com/root"));
    assert_eq!(app.toast.as_ref().map(|t| t.message.as_str()), Some("Copied URL"));

    let mut failing = RecordingClipboard { text: None, fail: true };
    app.handle_key(Key::Char('y'), &rows, Some(&mut failing), &mut browser);
    assert_eq!(app.status.as_deref(), Some("copy failed: denied"));

    app.handle_key(Key::Char('o'), &rows, None::<&mut RecordingClipboard>, &mut browser);
    assert_eq!(browser.opened.as_deref(), Some("https://example.com/root"));
    assert_eq!(app.status.as_deref(), Some("opened https://example.com/root"));

    let mut empty = App::from_gitlab_data(vec![], vec![], None, config(), "e".to_string());
    let none: Vec<VisibleNode> = vec![];
    let mut cb = RecordingClipboard { text: None, fail: false };
    empty.handle_key(Key::Char('y'), &none, Some(&mut cb), &mut browser);
    assert_eq!(empty.status.as_deref(), Some("copy failed: no selection"));
    empty.handle_key(Key::Char('o'), &none, Some(&mut cb), &mut browser);
    assert_eq!(empty.status.as_deref(), Some("open failed: no selection"));
}

#[test]
fn toast_counts_down() {
    let mut app = two_level_app();
    app.set_toast("hi".to_string());
    app.tick_toast();
    assert_eq!(app.toast.as_ref().map(|t| t.remaining), Some(9));
    for _ in 0..8 {
        app.tick_toast();
    }
    assert_eq!(app.toast.as_ref().map(|t| t.remaining), Some(1));
    app.tick_toast();
    assert!(app.toast.is_none());
}

#[test]
fn row_text_and_details() {
    let mut app = two_level_app();
    let rows = app.visible_nodes();
    assert_eq!(app.row_text(rows[0]), "[-] group root");
    assert_eq!(app.row_text(rows[1]), "  [+] group child");
    app.nodes[1].expanded = true;
    let rows = app.visible_nodes();
    assert_eq!(app.row_text(rows[2]), "     *  project leaf");
    app.selected = 2;
    let details = app.details_lines(&rows);
    assert_eq!(details[0], "Name: leaf");
    assert_eq!(details[1], "Kind: Project");
    assert_eq!(details[2], "Path: p/leaf");
    let none: Vec<VisibleNode> = vec![];
    assert_eq!(app.details_lines(&none), vec!["No selection".to_string()]);
    assert_eq!(loading_message(7), "\\ loading GitLab data...");
}

#[test]
fn sample_catalog_shape() {
    let app = App::sample_with_status(config(), "load error: boom".to_string());
    assert_eq!(app.nodes.len(), 19);
    assert_eq!(app.roots, vec![0, 1, 2]);
    assert_eq!(app.status.as_deref(), Some("load error: boom"));
    let rows = app.visible_nodes();
    assert_eq!(rows.len(), 11);
    assert_eq!(app.nodes[rows[1].id].name, "backend");
    assert_eq!(app.parent[6], Some(3));
}

#[test]
fn endpoints_and_queries() {
    assert_eq!(groups_url("https://gitlab.com//"), "https://gitlab.com/api/v4/groups");
    assert_eq!(group_projects_url("https://g.io", 42), "https://g.io/api/v4/groups/42/projects");
    assert_eq!(user_url("https://g.io/"), "https://g.io/api/v4/user");
    assert_eq!(personal_web_url("https://g.io/", "alice"), "https://g.io/alice");
    let mut filters = ApiFilters::default();
    filters.per_page = 50;
    filters.owned = Some(false);
    filters.visibility = Some("private".to_string());
    let pairs = |q: Vec<(String, String)>| {
        q.into_iter().map(|(k, v)| format!("{k}={v}")).collect::<Vec<_>>().join("&")
    };
    assert_eq!(
        pairs(group_query(&filters, 3)),
        "per_page=50&page=3&membership=true&owned=false&visibility=private"
    );
    filters.include_subgroups = Some(true);
    assert_eq!(
        pairs(group_projects_query(&filters, 1)),
        "per_page=50&page=1&simple=true&include_subgroups=true&visibility=private"
    );
    assert_eq!(
        pairs(owned_projects_query(&filters, 2)),
        "per_page=50&page=2&simple=true&owned=true&visibility=private"
    );
}

#[test]
fn paging_follows_the_next_page_indicator() {
    assert!(matches!(next_page(&None), NextPage::Done));
    assert!(matches!(next_page(&Some("  ".to_string())), NextPage::Done));
    assert!(matches!(next_page(&Some(" 3 ".to_string())), NextPage::Page(3)));
    match next_page(&Some("x".to_string())) {
        NextPage::Invalid(m) => assert_eq!(m, "invalid x-next-page header: x"),
        other => panic!("unexpected {other:?}"),
    }
    let mut pager = Pager::new();
    assert_eq!(pager.page, 1);
    pager.advance(&Some("2".to_string())).unwrap();
    assert_eq!(pager.page, 2);
    assert!(!pager.done);
    assert!(pager.advance(&Some("two".to_string())).is_err());
    pager.advance(&None).unwrap();
    assert!(pager.done);
}

#[test]
fn status_lines() {
    assert_eq!(load_status(false, 12, 3, 0), "groups: 12, projects: 3, personal: 0");
    assert_eq!(load_status(true, 0, 10, 2), "cache hit | groups: 0, projects: 10, personal: 2");
    assert_eq!(load_error_status("boom"), "load error: boom");
    let entries = vec![
        GroupProjects { group_id: 1, projects: vec![project("a"), project("b")] },
        GroupProjects { group_id: 2, projects: vec![project("c")] },
    ];
    assert_eq!(total_projects(&entries), 3);
    let data = CacheData {
        created_at: 0,
        groups: vec![group(1, "g", None)],
        projects_by_group: entries,
        personal: None,
    };
    assert_eq!(snapshot_status(&data, true), "cache hit | groups: 1, projects: 3, personal: 0");
}

#[test]
fn clipboard_priority_and_commands() {
    assert_eq!(next_probe_step(ProbeStep::AskNative, true), ProbeStep::Chosen(ClipboardBackend::Arboard));
    assert_eq!(next_probe_step(ProbeStep::AskNative, false), ProbeStep::AskWayland);
    assert_eq!(next_probe_step(ProbeStep::AskWayland, false), ProbeStep::AskDisplay);
    assert_eq!(next_probe_step(ProbeStep::AskWlCopy, false), ProbeStep::AskDisplay);
    assert_eq!(next_probe_step(ProbeStep::AskDisplay, true), ProbeStep::AskXclip);
    assert_eq!(next_probe_step(ProbeStep::AskXclip, false), ProbeStep::Chosen(ClipboardBackend::Unavailable));
    assert_eq!(probe_command(ProbeStep::AskWlCopy), Some("wl-copy"));
    assert_eq!(probe_command(ProbeStep::AskXclip), Some("xclip"));
    assert_eq!(probe_command(ProbeStep::AskDisplay), None);
    let wl = copy_command(ClipboardBackend::WlCopy).expect("command");
    assert_eq!(wl.command, "wl-copy");
    assert!(wl.args.is_empty());
    let x = copy_command(ClipboardBackend::Xclip).expect("command");
    assert_eq!(x.command, "xclip");
    assert_eq!(x.args, vec!["-selection".to_string(), "clipboard".to_string()]);
    assert!(copy_command(ClipboardBackend::Arboard).is_none());
}

#[test]
fn parent_map_follows_child_lists() {
    let mut nodes: Vec<Node> = Vec::new();
    let a = push_node(&mut nodes, "a", NodeKind::Group, "u", "a", "private", None);
    let b = push_node(&mut nodes, "b", NodeKind::Group, "u", "a/b", "private", None);
    let c = push_node(&mut nodes, "c", NodeKind::Project, "u", "a/b/c", "private", None);
    nodes[a].children.push(b);
    nodes[b].children.push(c);
    assert_eq!(build_parent_map(&nodes), vec![None, Some(a), Some(b)]);
}

#[test]
fn out_of_range_selection_is_clamped_before_acting() {
    let mut app = two_level_app();
    let rows = app.visible_nodes();
    app.selected = 9;
    app.collapse_or_parent(&rows);
    assert!(app.selected < app.visible_nodes().len());
    let mut app = two_level_app();
    let rows = app.visible_nodes();
    app.selected = 9;
    app.expand_or_child(&rows);
    assert_eq!(app.selected, 2);
    assert_eq!(app.selected_locator(&rows), Some("https://example.com/other".to_string()));
    let none: Vec<VisibleNode> = vec![];
    assert_eq!(app.selected_locator(&none), None);
}

#[test]
fn reports_follow_the_sink_answer() {
    let mut app = two_level_app();
    app.report_copy(Ok("u".to_string()));
    assert_eq!(app.status.as_deref(), Some("copied u"));
    assert_eq!(app.toast.as_ref().map(|t| t.message.as_str()), Some("Copied URL"));
    app.report_copy(Err("e".to_string()));
    assert_eq!(app.status.as_deref(), Some("copy failed: e"));
    app.report_open(Ok("u".to_string()));
    assert_eq!(app.status.as_deref(), Some("opened u"));
    app.report_open(Err("e".to_string()));
    assert_eq!(app.status.as_deref(), Some("open failed: e"));
}

#[test]
fn search_keeps_the_selected_node() {
    let mut app = two_level_app();
    app.selected = 2;
    app.push_search_char('o');
    app.push_search_char('t');
    app.push_search_char('h');
    let rows = app.visible_nodes();
    assert_eq!(names(&app, &rows), vec!["other"]);
    assert_eq!(app.selected, 0);
    app.clear_search();
    assert_eq!(app.selected, 2);
    app.selected = 1;
    app.push_search_char('z');
    assert_eq!(app.visible_nodes().len(), 0);
    assert_eq!(app.selected, 0);
}

#[test]
fn sample_rows_by_name_and_depth() {
    let app = App::sample_with_status(config(), "s".to_string());
    let rows = app.visible_nodes();
    let got: Vec<(String, usize)> = rows.iter().map(|r| (app.nodes[r.id].name.clone(), r.depth)).collect();
    let want = vec![
        ("dev-platform", 0), ("backend", 1), ("frontend", 1), ("platform-tools", 1),
        ("data", 0), ("ingest", 1), ("models", 1), ("data-tools", 1),
        ("security", 0), ("sec-tools", 1), ("audits", 1),
    ];
    let want: Vec<(String, usize)> = want.into_iter().map(|(n, d)| (n.to_string(), d)).collect();
    assert_eq!(got, want);
}
