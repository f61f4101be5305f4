use menubar_core::{
    aggregate_sessions, build_session_view, dispatch, filter_live, get_providers_inner, health_url,
    project_name_of, revert_url, status_url, strip_counter_suffix, switch_url, u64_to_string,
    MenuAction, ProxySessionEntry, StatusOutcome, StatusResponse,
};

fn entry(id: &str, control_port: u16, pid: u32, cwd: Option<&str>) -> ProxySessionEntry {
    ProxySessionEntry {
        session_id: id.to_string(),
        port: 8000,
        control_port,
        pid,
        started_at: 0,
        cwd: cwd.map(|s| s.to_string()),
    }
}

fn status(switched: bool, provider: Option<&str>, model: Option<&str>) -> StatusResponse {
    StatusResponse {
        switched,
        provider: provider.map(|s| s.to_string()),
        model: model.map(|s| s.to_string()),
        switched_at: None,
        session_id: None,
    }
}

#[test]
fn strip_removes_trailing_counter() {
    assert_eq!(
        strip_counter_suffix("switch:9000:abc:deepseek:deepseek-chat_42"),
        "switch:9000:abc:deepseek:deepseek-chat"
    );
    assert_eq!(strip_counter_suffix("quit_7"), "quit");
    assert_eq!(strip_counter_suffix("quit"), "quit");
}

#[test]
fn strip_leaves_non_digit_suffix_alone() {
    assert_eq!(strip_counter_suffix("session_abc"), "session_abc");
    assert_eq!(strip_counter_suffix("no_sessions_3"), "no_sessions");
}

#[test]
fn dispatch_routes_switch() {
    let a = dispatch("switch:9000:abcdef1234567890:deepseek:deepseek-chat_3");
    match a {
        MenuAction::Switch { control_port, session_id, provider, model } => {
            assert_eq!(control_port, 9000);
            assert_eq!(session_id, "abcdef1234567890");
            assert_eq!(provider, "deepseek");
            assert_eq!(model, "deepseek-chat");
        }
        other => panic!("expected a switch action, got {:?}", other),
    }
}

#[test]
fn dispatch_routes_revert() {
    let a = dispatch("revert:9000:abcdef1234567890_9");
    match a {
        MenuAction::Revert { control_port, session_id } => {
            assert_eq!(control_port, 9000);
            assert_eq!(session_id, "abcdef1234567890");
        }
        other => panic!("expected a revert action, got {:?}", other),
    }
}

#[test]
fn dispatch_routes_quit_at_any_field_count() {
    assert_eq!(dispatch("quit_7"), MenuAction::Quit);
    assert_eq!(dispatch("quit"), MenuAction::Quit);
    assert_eq!(dispatch("quit:extra:fields_1"), MenuAction::Quit);
}

#[test]
fn dispatch_ignores_malformed_identifiers() {
    // wrong field counts
    assert_eq!(dispatch("switch:9000:abc:deepseek_1"), MenuAction::Ignore);
    assert_eq!(dispatch("revert:9000_1"), MenuAction::Ignore);
    assert_eq!(dispatch("revert:9000:abc:extra_1"), MenuAction::Ignore);
    // unknown tags
    assert_eq!(dispatch("header_0"), MenuAction::Ignore);
    assert_eq!(dispatch("no_sessions"), MenuAction::Ignore);
    assert_eq!(dispatch(""), MenuAction::Ignore);
}

#[test]
fn dispatch_falls_back_to_port_zero() {
    match dispatch("switch:notaport:abc:deepseek:deepseek-chat_1") {
        MenuAction::Switch { control_port, .. } => assert_eq!(control_port, 0),
        other => panic!("expected a switch action, got {:?}", other),
    }
    match dispatch("revert:70000:abc_1") {
        MenuAction::Revert { control_port, .. } => assert_eq!(control_port, 0),
        other => panic!("expected a revert action, got {:?}", other),
    }
}

#[test]
fn liveness_filter_drops_dead_entries() {
    let entries = vec![entry("alive", 9000, 10, None), entry("dead", 9001, 11, None)];
    let alive = vec![true, false];
    let live = filter_live(&entries, &alive);
    assert_eq!(live.len(), 1);
    assert_eq!(live[0].session_id, "alive");
}

#[test]
fn aggregation_isolates_one_failure() {
    let entries = vec![
        entry("s1", 9001, 1, Some("/work/one")),
        entry("s2", 9002, 2, Some("/work/two")),
        entry("s3", 9003, 3, Some("/work/three")),
    ];
    let outcomes = vec![
        StatusOutcome::Status(status(true, Some("deepseek"), Some("deepseek-chat"))),
        StatusOutcome::NoStatus { reachable: true },
        StatusOutcome::Status(status(false, None, None)),
    ];
    let views = aggregate_sessions(&entries, &outcomes);
    assert_eq!(views.len(), 3);
    assert!(views[0].switched && views[0].healthy);
    assert_eq!(views[0].provider.as_deref(), Some("deepseek"));
    // the failing entry keeps its place, healthy but with no status claims
    assert!(views[1].healthy);
    assert!(!views[1].switched);
    assert_eq!(views[1].provider, None);
    assert_eq!(views[1].model, None);
    assert!(!views[2].switched && views[2].healthy);
}

#[test]
fn end_to_end_view_from_registry_and_status() {
    let e = entry("abcdef1234567890", 9000, 4242, Some("/home/u/myproj"));
    let o = StatusOutcome::Status(status(true, Some("deepseek"), Some("deepseek-chat")));
    let v = build_session_view(&e, &o);
    assert_eq!(v.project_name, "myproj");
    assert!(v.switched);
    assert_eq!(v.provider.as_deref(), Some("deepseek"));
    assert_eq!(v.model.as_deref(), Some("deepseek-chat"));
    assert!(v.healthy);
    assert_eq!(v.session_id, "abcdef1234567890");
    assert_eq!(v.control_port, 9000);
}

#[test]
fn unreachable_session_carries_no_status_claims() {
    let e = entry("s", 9000, 1, None);
    let v = build_session_view(&e, &StatusOutcome::NoStatus { reachable: false });
    assert!(!v.healthy);
    assert!(!v.switched);
    assert_eq!(v.provider, None);
    assert_eq!(v.model, None);
    assert_eq!(v.project_name, "unknown");
}

#[test]
fn project_name_is_last_path_segment() {
    assert_eq!(project_name_of(&Some("/home/u/myproj".to_string())), "myproj");
    assert_eq!(project_name_of(&Some("plain".to_string())), "plain");
    assert_eq!(project_name_of(&Some("/trailing/".to_string())), "");
    assert_eq!(project_name_of(&None), "unknown");
}

#[test]
fn control_api_urls() {
    assert_eq!(health_url(9000), "http://localhost:9000/health");
    assert_eq!(status_url(9000, "abc"), "http://localhost:9000/status?session=abc");
    assert_eq!(switch_url(9001, "abc"), "http://localhost:9001/switch?session=abc");
    assert_eq!(revert_url(65535, "abc"), "http://localhost:65535/revert?session=abc");
}

#[test]
fn decimal_rendering() {
    assert_eq!(u64_to_string(0), "0");
    assert_eq!(u64_to_string(42), "42");
    assert_eq!(u64_to_string(18446744073709551615), "18446744073709551615");
}

#[test]
fn catalog_lists_providers_in_order() {
    let ps = get_providers_inner();
    assert_eq!(ps.len(), 5);
    assert_eq!(ps[0].name, "deepseek");
    assert_eq!(ps[0].models.len(), 2);
    assert_eq!(ps[0].models[0].id, "deepseek-reasoner");
    assert_eq!(ps[0].models[0].label, "DeepSeek Reasoner");
    assert_eq!(ps[0].models[1].id, "deepseek-chat");
    assert_eq!(ps[1].name, "zhipu");
    assert_eq!(ps[1].models[0].id, "GLM-5");
    assert_eq!(ps[1].models[1].id, "glm-4v-flash");
    assert_eq!(ps[2].name, "minimax");
    assert_eq!(ps[2].models[0].id, "MiniMax-M2.5");
    assert_eq!(ps[3].name, "kimi");
    assert_eq!(ps[3].models[0].id, "K2.5");
    assert_eq!(ps[4].name, "openai");
    assert_eq!(ps[4].models[0].id, "gpt-5.3-codex");
    assert_eq!(ps[4].models[0].label, "GPT-5.3 Codex");
}
