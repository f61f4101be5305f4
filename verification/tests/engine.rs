use menubar_core::{
    compute_fingerprint, get_providers_inner, menu_budget, MenuNode, MenuStateEngine, SessionInfo,
};

fn session(
    id: &str,
    control_port: u16,
    switched: bool,
    provider: Option<&str>,
    model: Option<&str>,
    healthy: bool,
) -> SessionInfo {
    SessionInfo {
        session_id: id.to_string(),
        port: 8000,
        control_port,
        pid: 1234,
        started_at: 0,
        cwd: Some("/home/u/myproj".to_string()),
        project_name: "myproj".to_string(),
        switched,
        provider: provider.map(|s| s.to_string()),
        model: model.map(|s| s.to_string()),
        healthy,
    }
}

#[test]
fn fingerprint_is_deterministic() {
    let ss = vec![
        session("abc", 9000, true, Some("deepseek"), Some("deepseek-chat"), true),
        session("def", 9001, false, None, None, false),
    ];
    let a = compute_fingerprint(&ss);
    let b = compute_fingerprint(&ss);
    assert_eq!(a, b);
}

#[test]
fn fingerprint_exact_value() {
    let ss = vec![session("abc", 9000, true, Some("deepseek"), Some("deepseek-chat"), true)];
    assert_eq!(compute_fingerprint(&ss), "abc:true:true:deepseek:deepseek-chat|");
}

#[test]
fn fingerprint_of_empty_list_is_empty() {
    assert_eq!(compute_fingerprint(&Vec::new()), "");
}

#[test]
fn fingerprint_changes_with_each_field() {
    let base = vec![session("abc", 9000, true, Some("deepseek"), Some("deepseek-chat"), true)];
    let fp = compute_fingerprint(&base);
    let changed_id = vec![session("abd", 9000, true, Some("deepseek"), Some("deepseek-chat"), true)];
    assert_ne!(fp, compute_fingerprint(&changed_id));
    let changed_healthy =
        vec![session("abc", 9000, true, Some("deepseek"), Some("deepseek-chat"), false)];
    assert_ne!(fp, compute_fingerprint(&changed_healthy));
    let changed_switched =
        vec![session("abc", 9000, false, Some("deepseek"), Some("deepseek-chat"), true)];
    assert_ne!(fp, compute_fingerprint(&changed_switched));
    let changed_provider = vec![session("abc", 9000, true, Some("zhipu"), Some("deepseek-chat"), true)];
    assert_ne!(fp, compute_fingerprint(&changed_provider));
    let changed_model = vec![session("abc", 9000, true, Some("deepseek"), Some("GLM-5"), true)];
    assert_ne!(fp, compute_fingerprint(&changed_model));
}

#[test]
fn reconcile_rebuilds_once_for_same_input() {
    let mut engine = MenuStateEngine::new();
    let providers = get_providers_inner();
    let ss = vec![session("abc", 9000, false, None, None, true)];
    let first = engine.reconcile(&ss, &providers);
    assert!(first.is_some());
    let second = engine.reconcile(&ss, &providers);
    assert!(second.is_none());
}

#[test]
fn reconcile_skips_when_nothing_changed_from_start() {
    // a fresh engine caches the fingerprint of an empty list
    let mut engine = MenuStateEngine::new();
    let providers = get_providers_inner();
    let r = engine.reconcile(&Vec::new(), &providers);
    assert!(r.is_none());
}

fn all_ids(tree: &menubar_core::MenuTree) -> Vec<String> {
    let mut ids = Vec::new();
    for node in &tree.nodes {
        match node {
            MenuNode::Entry(e) => ids.push(e.id.clone()),
            MenuNode::Group { id, entries, .. } => {
                ids.push(id.clone());
                for e in entries {
                    ids.push(e.id.clone());
                }
            }
        }
    }
    ids
}

#[test]
fn identifiers_unique_within_and_across_rebuilds() {
    let mut engine = MenuStateEngine::new();
    let providers = get_providers_inner();
    let ss1 = vec![session("abc", 9000, true, Some("deepseek"), Some("deepseek-chat"), true)];
    let ss2 = vec![
        session("abc", 9000, false, None, None, true),
        session("def", 9001, true, Some("kimi"), Some("K2.5"), true),
    ];
    let t1 = engine.reconcile(&ss1, &providers).expect("first rebuild");
    let t2 = engine.reconcile(&ss2, &providers).expect("second rebuild");
    let mut ids = all_ids(&t1);
    ids.extend(all_ids(&t2));
    for i in 0..ids.len() {
        for j in (i + 1)..ids.len() {
            assert_ne!(ids[i], ids[j], "duplicate identifier");
        }
    }
}

#[test]
fn uid_counter_never_repeats() {
    let mut engine = MenuStateEngine::new();
    let a = engine.uid("quit");
    let b = engine.uid("quit");
    let c = engine.uid("header");
    assert_eq!(a, "quit_0");
    assert_eq!(b, "quit_1");
    assert_eq!(c, "header_2");
    assert_ne!(a, b);
}

#[test]
fn empty_menu_has_header_placeholder_quit() {
    let mut engine = MenuStateEngine::new();
    let tree = engine.build_empty_menu();
    assert_eq!(tree.nodes.len(), 3);
    match &tree.nodes[0] {
        MenuNode::Entry(e) => {
            assert_eq!(e.label, "oh-my-proxy");
            assert!(!e.enabled);
            assert_eq!(e.id, "header_0");
        }
        _ => panic!("expected header entry"),
    }
    match &tree.nodes[1] {
        MenuNode::Entry(e) => {
            assert_eq!(e.label, "No sessions running");
            assert!(!e.enabled);
            assert_eq!(e.id, "no_sessions_1");
        }
        _ => panic!("expected placeholder entry"),
    }
    match &tree.nodes[2] {
        MenuNode::Entry(e) => {
            assert_eq!(e.label, "Quit");
            assert!(e.enabled);
            assert_eq!(e.id, "quit_2");
        }
        _ => panic!("expected quit entry"),
    }
}

#[test]
fn rebuilt_menu_shows_sessions_and_actions() {
    let mut engine = MenuStateEngine::new();
    let providers = get_providers_inner();
    let ss = vec![session(
        "abcdef1234567890",
        9000,
        true,
        Some("deepseek"),
        Some("deepseek-chat"),
        true,
    )];
    let tree = engine.reconcile(&ss, &providers).expect("rebuild");
    // header, one group, quit
    assert_eq!(tree.nodes.len(), 3);
    match &tree.nodes[1] {
        MenuNode::Group { label, entries, .. } => {
            // session id truncated to eight characters
            assert_eq!(label, "abcdef12 - deepseek/deepseek-chat");
            // one switch entry per catalog pair, plus the revert entry
            assert_eq!(entries.len(), 8);
            assert_eq!(entries[0].label, "deepseek / DeepSeek Reasoner");
            assert!(entries[0].id.starts_with("switch:9000:abcdef1234567890:deepseek:deepseek-reasoner_"));
            let last = &entries[7];
            assert_eq!(last.label, "Revert to Native");
            assert!(last.id.starts_with("revert:9000:abcdef1234567890_"));
        }
        _ => panic!("expected a session group"),
    }
}

#[test]
fn unswitched_session_shows_native_label_and_no_revert() {
    let mut engine = MenuStateEngine::new();
    let providers = get_providers_inner();
    let ss = vec![session("short", 9000, false, None, None, true)];
    let tree = engine.reconcile(&ss, &providers).expect("rebuild");
    match &tree.nodes[1] {
        MenuNode::Group { label, entries, .. } => {
            assert_eq!(label, "short - Native (default)");
            // only the seven switch entries, no revert
            assert_eq!(entries.len(), 7);
        }
        _ => panic!("expected a session group"),
    }
}

#[test]
fn menu_budget_counts_identifiers() {
    let providers = get_providers_inner();
    assert_eq!(menu_budget(&Vec::new(), &providers), Some(3));
    let unswitched = vec![session("a", 9000, false, None, None, true)];
    // header + quit + group + seven switch entries
    assert_eq!(menu_budget(&unswitched, &providers), Some(10));
    let switched = vec![session("a", 9000, true, Some("kimi"), Some("K2.5"), true)];
    assert_eq!(menu_budget(&switched, &providers), Some(11));
}
