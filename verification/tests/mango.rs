use vibepanel::compositor::mango::{
    apply_focused_window_from_monitors, apply_keyboard_layout_from_monitors, apply_monitor_update,
    apply_window_list_focus, apply_workspace_from_monitors, mango_workspace_meta, MangoSharedState,
    OVERVIEW_WORKSPACE_ID, OVERVIEW_WORKSPACE_NAME,
};
use vibepanel::compositor::mango_backend::{
    dispatch_error, watch_step, MangoBackend, Start, WatchEvent, WatchStep,
};
use vibepanel::compositor::mango_windows::{apply_window_list_from_clients, window_output_sort_key};
use vibepanel::compositor::{PerOutputState, Window, WorkspaceSnapshot};
use vibepanel::json::{parse, parse_json_line, Json};

fn json(text: &str) -> Json {
    parse(text).unwrap()
}

/// A backend with no socket, as in another session.
fn backend_without_socket() -> MangoBackend {
    MangoBackend::new(None)
}

#[test]
fn start_without_socket_env_is_a_no_op() {
    let mut backend = backend_without_socket();

    assert!(matches!(backend.start(), Start::NoSocket));

    assert!(
        !backend.running,
        "backend must not report running without MANGO_INSTANCE_SIGNATURE"
    );
}

#[test]
fn commands_without_socket_do_not_panic() {
    let backend = backend_without_socket();

    assert!(backend.socket_path.is_none());
    assert_eq!(backend.switch_workspace(2), Some("dispatch view,2".to_string()));
    assert_eq!(backend.quit_compositor(), "dispatch quit");
    assert_eq!(
        backend.switch_keyboard_layout_next(),
        "dispatch switch_keyboard_layout"
    );
    assert_eq!(backend.focus_window(7), "dispatch focusid client,7");

    assert!(backend.shared.windows.is_empty());
    assert!(backend.get_focused_window().is_none());
}

#[test]
fn list_workspaces_adds_single_overview_when_any_output_active() {
    let mut snapshot = WorkspaceSnapshot::default();
    let mut overview_state = PerOutputState::default();
    overview_state.active_workspace.insert(OVERVIEW_WORKSPACE_ID);
    snapshot
        .per_output
        .insert("eDP-1".to_string(), overview_state);
    let mut other_overview_state = PerOutputState::default();
    other_overview_state
        .active_workspace
        .insert(OVERVIEW_WORKSPACE_ID);
    snapshot
        .per_output
        .insert("DP-1".to_string(), other_overview_state);

    let workspaces = mango_workspace_meta(2, &snapshot);

    assert_eq!(workspaces.len(), 3);
    assert_eq!(workspaces[0].id, 1);
    assert_eq!(workspaces[1].id, 2);
    assert_eq!(workspaces[2].id, OVERVIEW_WORKSPACE_ID);
    assert_eq!(workspaces[2].idx, OVERVIEW_WORKSPACE_ID);
    assert_eq!(workspaces[2].name, OVERVIEW_WORKSPACE_NAME);
    assert_eq!(workspaces[2].output, None);
}

#[test]
fn socket_workspace_parser_accepts_all_monitors_name_field() {
    let mut shared = MangoSharedState::default();
    let value = json(
        r#"{
            "monitors": [
                {
                    "name": "eDP-1",
                    "active": true,
                    "active_tags": [2],
                    "tags": [
                        {"index": 1, "is_active": false, "is_urgent": false, "client_count": 0},
                        {"index": 2, "is_active": true, "is_urgent": false, "client_count": 3}
                    ]
                }
            ]
        }"#,
    );

    assert!(apply_workspace_from_monitors(&mut shared, &value));
    let snapshot = &shared.snapshot;
    let output = snapshot.per_output.get_named("eDP-1").unwrap();

    assert!(output.active_workspace.contains(&2));
    assert_eq!(output.window_counts.get(&2), Some(&3));
    assert!(snapshot.active_workspace.contains(&2));
    assert!(snapshot.occupied_workspaces.contains(&2));
    assert!(!apply_workspace_from_monitors(&mut shared, &value));
}

#[test]
fn monitor_update_refreshes_window_list_for_workspace_only_change() {
    let mut shared = MangoSharedState::default();
    let initial = json(
        r#"{
            "monitors": [{
                "name": "eDP-1",
                "active": true,
                "active_tags": [1],
                "active_client": {"id": 7, "title": "Terminal", "appid": "foot"},
                "tags": [
                    {"index": 1, "is_urgent": false, "client_count": 1},
                    {"index": 2, "is_urgent": false, "client_count": 0}
                ]
            }]
        }"#,
    );
    let workspace_only = json(
        r#"{
            "monitors": [{
                "name": "eDP-1",
                "active": true,
                "active_tags": [1, 2],
                "active_client": {"id": 7, "title": "Terminal", "appid": "foot"},
                "tags": [
                    {"index": 1, "is_urgent": false, "client_count": 1},
                    {"index": 2, "is_urgent": false, "client_count": 0}
                ]
            }]
        }"#,
    );

    apply_monitor_update(&mut shared, &initial);
    let changes = apply_monitor_update(&mut shared, &workspace_only);

    assert!(changes.workspace);
    assert!(!changes.focused_window);
    assert!(changes.window_list);
    assert!(!changes.keyboard_layout);
}

#[test]
fn socket_workspace_parser_global_active_uses_active_monitor_only() {
    let mut shared = MangoSharedState::default();
    let value = json(
        r#"{
            "monitors": [
                {
                    "name": "eDP-1",
                    "active": true,
                    "active_tags": [2],
                    "tags": [
                        {"index": 1, "is_active": false, "is_urgent": false, "client_count": 0},
                        {"index": 2, "is_active": true, "is_urgent": false, "client_count": 1}
                    ]
                },
                {
                    "name": "DP-1",
                    "active": false,
                    "active_tags": [5],
                    "tags": [
                        {"index": 5, "is_active": true, "is_urgent": false, "client_count": 1}
                    ]
                }
            ]
        }"#,
    );

    assert!(apply_workspace_from_monitors(&mut shared, &value));
    let snapshot = &shared.snapshot;

    let output = |name: &str| snapshot.per_output.get_named(name).unwrap();
    assert!(output("eDP-1").active_workspace.contains(&2));
    assert!(output("DP-1").active_workspace.contains(&5));
    assert_eq!(snapshot.active_workspace.len(), 1);
    assert!(snapshot.active_workspace.contains(&2));
}

#[test]
fn socket_workspace_parser_tracks_urgency_per_output() {
    let mut shared = MangoSharedState::default();
    let value = json(
        r#"{
            "monitors": [
                {
                    "name": "eDP-1",
                    "active": true,
                    "active_tags": [2],
                    "tags": [
                        {"index": 1, "is_urgent": false, "client_count": 0},
                        {"index": 2, "is_urgent": false, "client_count": 1}
                    ]
                },
                {
                    "name": "HDMI-A-1",
                    "active": false,
                    "active_tags": [1],
                    "tags": [
                        {"index": 1, "is_urgent": true, "client_count": 1},
                        {"index": 2, "is_urgent": false, "client_count": 0}
                    ]
                }
            ]
        }"#,
    );

    assert!(apply_workspace_from_monitors(&mut shared, &value));
    let snapshot = &shared.snapshot;

    assert!(snapshot.urgent_workspaces.contains(&1));
    let urgent = |name: &str| {
        snapshot
            .per_output
            .get_named(name)
            .unwrap()
            .urgent_workspaces
            .as_ref()
            .unwrap()
    };
    assert!(urgent("eDP-1").is_empty());
    assert_eq!(urgent("HDMI-A-1").len(), 1);
    assert!(urgent("HDMI-A-1").contains(&1));
}

#[test]
fn socket_workspace_parser_suppresses_real_tags_in_overview() {
    let mut shared = MangoSharedState::default();
    let value = json(&format!(
        r#"{{
            "monitors": [
                {{
                    "name": "eDP-1",
                    "active": true,
                    "active_tags": [{OVERVIEW_WORKSPACE_ID}],
                    "tags": [
                        {{"index": 1, "is_active": false, "is_urgent": false, "client_count": 2}},
                        {{"index": 2, "is_active": false, "is_urgent": false, "client_count": 1}}
                    ]
                }}
            ]
        }}"#
    ));

    assert!(apply_workspace_from_monitors(&mut shared, &value));
    let snapshot = &shared.snapshot;
    let output = snapshot.per_output.get_named("eDP-1").unwrap();

    assert_eq!(output.active_workspace.len(), 1);
    assert!(output.active_workspace.contains(&OVERVIEW_WORKSPACE_ID));
    assert!(output.window_counts.is_empty());
    assert!(output.occupied_workspaces.is_empty());
    assert_eq!(snapshot.active_workspace.len(), 1);
    assert!(snapshot.active_workspace.contains(&OVERVIEW_WORKSPACE_ID));
    assert!(snapshot.window_counts.is_empty());
    assert!(snapshot.occupied_workspaces.is_empty());
}

#[test]
fn socket_focused_window_parser_scopes_no_client_to_active_monitor() {
    let mut shared = MangoSharedState::default();
    let value = json(
        r#"{
            "monitors": [
                {
                    "name": "DP-1",
                    "active": false,
                    "active_tags": [1],
                    "active_client": {"id": 10, "title": "Terminal", "appid": "foot"}
                },
                {
                    "name": "HDMI-A-1",
                    "active": true,
                    "active_tags": [3],
                    "active_client": {"id": null, "title": null, "appid": null}
                }
            ]
        }"#,
    );

    assert!(apply_focused_window_from_monitors(&mut shared, &value));
    assert!(!apply_focused_window_from_monitors(&mut shared, &value));

    let focused = shared.focused_window.as_ref().unwrap();
    assert_eq!(focused.output.as_deref(), Some("HDMI-A-1"));
    assert!(focused.title.is_empty() && focused.app_id.is_empty());
    assert_eq!(shared.focused_client_id, None);
}

fn window(shared: &MangoSharedState, id: u64) -> &Window {
    shared.windows.iter().find(|w| w.id == id).unwrap()
}

#[test]
fn socket_window_list_parser_maps_mango_clients() {
    let mut shared = MangoSharedState::default();
    let value = json(
        r#"{
            "clients": [
                {
                    "id": 7,
                    "title": "Terminal",
                    "appid": "foot",
                    "monitor": "eDP-1",
                    "tags": [2, 3],
                    "is_focused": true,
                    "is_urgent": false
                },
                {
                    "id": 8,
                    "title": "Browser",
                    "appid": "firefox",
                    "monitor": "DP-1",
                    "tags": [5],
                    "is_focused": false,
                    "is_urgent": true
                }
            ]
        }"#,
    );

    assert!(apply_window_list_from_clients(&mut shared, &value));
    assert!(!apply_window_list_from_clients(&mut shared, &value));

    assert_eq!(shared.windows.len(), 2);
    let terminal = window(&shared, 7);
    assert_eq!(terminal.title, "Terminal");
    assert_eq!(terminal.app_id, "foot");
    assert_eq!(terminal.workspace_id, Some(2));
    assert_eq!(terminal.output.as_deref(), Some("eDP-1"));
    assert!(terminal.is_focused);
    assert!(!terminal.is_urgent);

    let browser = window(&shared, 8);
    assert_eq!(browser.workspace_id, Some(5));
    assert_eq!(browser.output.as_deref(), Some("DP-1"));
    assert!(!browser.is_focused);
    assert!(browser.is_urgent);
}

fn ids(shared: &MangoSharedState) -> Vec<u64> {
    shared.windows.iter().map(|w| w.id).collect()
}

#[test]
fn socket_window_list_parser_orders_by_workspace() {
    let mut shared = MangoSharedState::default();
    let value = json(
        r#"{
            "clients": [
                {"id": 30, "monitor": "eDP-1", "tags": [3]},
                {"id": 10, "monitor": "eDP-1", "tags": [1]},
                {"id": 20, "monitor": "eDP-1", "tags": [2]}
            ]
        }"#,
    );

    assert!(apply_window_list_from_clients(&mut shared, &value));

    assert_eq!(ids(&shared), vec![10, 20, 30]);
}

#[test]
fn socket_window_list_parser_orders_outputs_by_geometry() {
    let mut shared = MangoSharedState::default();
    let monitors = json(
        r#"{
            "monitors": [
                {"name": "DP-1", "x": 1920, "y": 0, "tags": []},
                {"name": "HDMI-A-1", "x": 0, "y": 0, "tags": []}
            ]
        }"#,
    );
    let clients = json(
        r#"{
            "clients": [
                {"id": 20, "monitor": "DP-1", "tags": [1]},
                {"id": 10, "monitor": "HDMI-A-1", "tags": [1]}
            ]
        }"#,
    );

    assert!(apply_workspace_from_monitors(&mut shared, &monitors));
    assert!(apply_window_list_from_clients(&mut shared, &clients));

    assert_eq!(ids(&shared), vec![10, 20]);
    let key = window_output_sort_key(&shared.windows[1], &shared.output_geometry);
    assert_eq!((key.0, key.1, key.2.as_str()), (1920, 0, "DP-1"));
}

fn two_clients() -> Json {
    json(
        r#"{
            "clients": [
                {"id": 10, "tags": [1], "is_focused": true},
                {"id": 20, "tags": [2], "is_focused": false}
            ]
        }"#,
    )
}

#[test]
fn socket_window_list_focus_update_clears_empty_workspace_focus() {
    let mut shared = MangoSharedState::default();

    assert!(apply_window_list_from_clients(&mut shared, &two_clients()));
    assert!(shared.windows[0].is_focused);

    assert!(apply_window_list_focus(&mut shared, None));

    assert!(shared.windows.iter().all(|window| !window.is_focused));
}

#[test]
fn socket_window_list_focus_update_moves_active_window() {
    let mut shared = MangoSharedState::default();

    assert!(apply_window_list_from_clients(&mut shared, &two_clients()));
    assert!(apply_window_list_focus(&mut shared, Some(20)));

    assert!(!window(&shared, 10).is_focused);
    assert!(window(&shared, 20).is_focused);
}

#[test]
fn socket_window_list_parser_ignores_stale_all_clients_focus() {
    let mut shared = MangoSharedState::default();

    assert!(apply_focused_window_from_monitors(
        &mut shared,
        &json(
            r#"{
                "monitors": [{
                    "name": "DP-1",
                    "active": true,
                    "active_tags": [2],
                    "active_client": {"id": 20, "title": "Browser", "appid": "firefox"}
                }]
            }"#
        )
    ));
    assert!(apply_window_list_from_clients(&mut shared, &two_clients()));

    assert!(!window(&shared, 10).is_focused);
    assert!(window(&shared, 20).is_focused);
}

#[test]
fn socket_window_list_parser_handles_optional_fields() {
    let mut shared = MangoSharedState::default();
    let value = json(
        r#"{
            "clients": [
                {"id": 9, "tags": []},
                {"title": "missing id"}
            ]
        }"#,
    );

    assert!(apply_window_list_from_clients(&mut shared, &value));
    let windows = &shared.windows;

    assert_eq!(windows.len(), 1);
    assert_eq!(windows[0].id, 9);
    assert!(windows[0].title.is_empty());
    assert!(windows[0].app_id.is_empty());
    assert_eq!(windows[0].workspace_id, None);
    assert_eq!(windows[0].output, None);
    assert!(!windows[0].is_focused);
    assert!(!windows[0].is_urgent);
}

#[test]
fn socket_keyboard_layout_parser_uses_active_monitor() {
    let mut shared = MangoSharedState::default();
    let value = json(
        r#"{
            "monitors": [
                {"active": false, "keyboardlayout": "German"},
                {"active": true, "keyboardlayout": "English (US)"}
            ]
        }"#,
    );

    assert!(apply_keyboard_layout_from_monitors(&mut shared, &value));
    let info = shared.keyboard_layout.as_ref().unwrap();

    assert_eq!(info.layout_name, "English (US)");
    assert_eq!(info.layout_count, None);
    assert!(!apply_keyboard_layout_from_monitors(&mut shared, &value));
}

#[test]
fn socket_window_list_hides_dismissed_scratchpads() {
    let mut shared = MangoSharedState::default();
    // Dismissed scratchpads and swallowed clients are not actionable.
    let value = json(
        r#"{
            "clients": [
                {
                    "id": 1, "tags": [],
                    "is_scratchpad": true, "is_namedscratchpad": false
                },
                {
                    "id": 2, "tags": [],
                    "is_scratchpad": false, "is_namedscratchpad": true
                },
                {
                    "id": 3, "tags": [1],
                    "is_scratchpad": false, "is_namedscratchpad": false
                },
                {
                    "id": 4, "tags": [1],
                    "is_swallowedby": true
                }
            ]
        }"#,
    );

    assert!(apply_window_list_from_clients(&mut shared, &value));

    assert_eq!(
        shared.windows.len(),
        1,
        "only the normal client should remain"
    );
    assert_eq!(shared.windows[0].id, 3);
}

#[test]
fn socket_window_list_keeps_summoned_scratchpad() {
    let mut shared = MangoSharedState::default();
    let value = json(
        r#"{
            "clients": [
                {
                    "id": 5, "tags": [1],
                    "is_focused": false,
                    "is_scratchpad": false, "is_namedscratchpad": true
                },
                {
                    "id": 6, "tags": [2],
                    "is_focused": true,
                    "is_scratchpad": false, "is_namedscratchpad": false
                }
            ]
        }"#,
    );

    assert!(apply_window_list_from_clients(&mut shared, &value));

    assert_eq!(
        shared.windows.len(),
        2,
        "visible (tagged) scratchpad is kept"
    );
    assert!(
        window(&shared, 5).is_scratchpad,
        "visible scratchpad is flagged"
    );
    assert!(!window(&shared, 6).is_scratchpad);
}

#[test]
fn socket_window_list_keeps_summoned_scratchpad_when_unfocused() {
    let mut shared = MangoSharedState::default();
    let value = json(
        r#"{
            "clients": [
                {
                    "id": 10, "tags": [1],
                    "is_focused": false,
                    "is_scratchpad": true, "is_namedscratchpad": false
                }
            ]
        }"#,
    );

    assert!(apply_window_list_from_clients(&mut shared, &value));

    assert_eq!(
        shared.windows.len(),
        1,
        "unfocused but visible scratchpad is kept"
    );
    assert_eq!(shared.windows[0].id, 10);
}

#[test]
fn socket_window_list_hides_dismissed_scratchpad_missing_tags_field() {
    let mut shared = MangoSharedState::default();
    let value = json(
        r#"{
            "clients": [
                {"id": 20, "is_scratchpad": false, "is_namedscratchpad": true}
            ]
        }"#,
    );

    assert!(!apply_window_list_from_clients(&mut shared, &value));

    assert!(
        shared.windows.is_empty(),
        "scratchpad without tags should be hidden"
    );
}

#[test]
fn a_backend_runs_until_it_is_stopped() {
    let mut backend = MangoBackend::new(Some("/run/mango.sock".to_string()));
    assert_eq!(backend.name(), "MangoWC");
    match backend.start() {
        Start::Run { socket_path } => assert_eq!(socket_path, "/run/mango.sock"),
        other => panic!("{other:?}"),
    }
    assert!(matches!(backend.start(), Start::AlreadyRunning));
    assert_eq!(backend.watches().len(), 1);
    backend.set_window_list_callback();
    backend.set_keyboard_layout_callback();
    assert_eq!(backend.watches().len(), 2);
    backend.fetch_initial_state(
        Some(json(
            r#"{"monitors": [{"name": "eDP-1", "active": true, "active_tags": [1],
                "active_client": {"id": 10, "title": "T", "appid": "a"},
                "keyboardlayout": "German",
                "tags": [{"index": 1, "client_count": 1}, {"index": 2, "client_count": 0}]}]}"#,
        )),
        Some(two_clients()),
    );
    let told = backend.announcement();
    assert_eq!(told.focused_window.unwrap().title, "T");
    assert_eq!(told.keyboard_layout.unwrap().layout_name, "German");
    assert!(told.window_list);
    assert_eq!(backend.list_workspaces().len(), 2);
    assert!(backend.stop());
    assert!(!backend.stop());
    assert_eq!(backend.switch_workspace(0), None);
    assert!(MangoBackend::new(Some(String::new())).socket_path.is_none());
}

#[test]
fn watches_go_on_after_failures() {
    assert!(matches!(watch_step(true, &WatchEvent::Started), WatchStep::Connect));
    assert!(matches!(watch_step(false, &WatchEvent::Started), WatchStep::Stop));
    assert!(matches!(watch_step(true, &WatchEvent::ConnectFailed), WatchStep::Retry));
    assert!(matches!(watch_step(true, &WatchEvent::Closed), WatchStep::Retry));
    assert!(matches!(
        watch_step(true, &WatchEvent::Line("{\"monitors\": []}\n".to_string())),
        WatchStep::Handle(_)
    ));
    assert!(!matches!(
        watch_step(true, &WatchEvent::Line("not json".to_string())),
        WatchStep::Handle(_)
    ));
    assert_eq!(
        dispatch_error(&json(r#"{"error": "no such tag"}"#)),
        Some("no such tag".to_string())
    );
    assert_eq!(dispatch_error(&json("{}")), None);
    assert!(parse_json_line("  ").is_none());
    assert!(parse_json_line(" {\"a\": 1} ").is_some());
}
