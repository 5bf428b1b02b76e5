//! Concrete checks of the library's stated behavior: defaults on a fresh
//! document, set/get/remove, the save/load round trip, the split-panel
//! crossing rule, wizard cancellation from every flow, and number parsing.

use volt::app::{App, Focus, InputMode, McpFocus};
use volt::{Config, Json};

#[test]
fn fresh_document_resolves_known_defaults() {
    let config = Config::from_text("").unwrap();
    assert_eq!(config.get("amp.anthropic.thinking.enabled"), Json::Bool(true));
    assert_eq!(config.get("amp.bitbucketToken"), Json::Str(String::new()));
    assert_eq!(config.get("amp.tools.stopTimeout"), Json::Int(300));
    assert_eq!(config.get("amp.permissions"), Json::Arr(vec![]));
    assert_eq!(config.get("amp.mcpServers"), Json::Obj(vec![]));
    assert_eq!(config.get("definitely.unknown"), Json::Null);
}

#[test]
fn set_then_get_returns_value_and_raw_entry() {
    let mut config = Config::from_text("").unwrap();
    let v = Json::Str("auto".to_string());
    assert!(Config::validate_value("amp.updates.mode", &v).is_ok());
    config.set("amp.updates.mode", v.clone());
    assert_eq!(config.get("amp.updates.mode"), v);
    assert!(config.get_raw("amp.updates.mode").is_some());
}

#[test]
fn remove_after_set_reverts_to_default() {
    let mut config = Config::from_text("").unwrap();
    config.set("amp.showCosts", Json::Bool(false));
    config.remove("amp.showCosts");
    assert!(config.get_raw("amp.showCosts").is_none());
    assert_eq!(config.get("amp.showCosts"), Json::Bool(true));

    config.set("totally.unknown", Json::Int(1));
    config.remove("totally.unknown");
    assert!(config.get_raw("totally.unknown").is_none());
    assert_eq!(config.get("totally.unknown"), Json::Null);
}

#[test]
fn save_load_round_trip_preserves_every_entry() {
    let mut config = Config::from_text("").unwrap();
    config.set("amp.showCosts", Json::Bool(false));
    config.set("unknown.float", Json::Num("3.5".to_string()));
    config.set("unknown.exp", Json::Num("1e+30".to_string()));
    config.set("unknown.big", Json::Num("18446744073709551615".to_string()));
    config.set(
        "unknown.nested",
        Json::Obj(vec![
            ("a".to_string(), Json::Arr(vec![Json::Null, Json::Int(-7)])),
            ("b".to_string(), Json::Str("x \"quoted\"".to_string())),
        ]),
    );
    let reloaded = config.reparsed().unwrap();
    assert_eq!(reloaded.get_raw("amp.showCosts"), config.get_raw("amp.showCosts"));
    assert_eq!(reloaded.get_raw("unknown.float"), config.get_raw("unknown.float"));
    assert_eq!(reloaded.get_raw("unknown.exp"), config.get_raw("unknown.exp"));
    assert_eq!(reloaded.get_raw("unknown.big"), config.get_raw("unknown.big"));
    assert_eq!(reloaded.get_raw("unknown.nested"), config.get_raw("unknown.nested"));
    assert_eq!(reloaded.unknown_keys(), config.unknown_keys());
    assert!(!reloaded.is_dirty());
}

#[test]
fn split_panel_crossing_follows_one_logical_list() {
    let config = Config::from_text(
        r#"{
    "amp.mcpServers": {"one": {}},
    "amp.mcpPermissions": [
        {"matches": {"command": "a"}, "action": "allow"},
        {"matches": {"command": "b"}, "action": "reject"}
    ]
}"#,
    )
    .unwrap();
    let mut app = App::new(config);
    app.selected_section = 3;
    app.focus = Focus::Settings;
    assert_eq!(app.mcp_focus, McpFocus::Configs);
    assert_eq!(app.selected_setting, 0);

    app.move_down();
    assert_eq!(app.mcp_focus, McpFocus::Permissions);
    assert_eq!(app.selected_mcp_permission, 0);

    app.move_up();
    assert_eq!(app.mcp_focus, McpFocus::Configs);
    assert_eq!(app.selected_setting, 0);
}

fn assert_cleared(app: &App) {
    assert_eq!(app.input_mode, InputMode::Normal);
    assert!(app.edit_buffer.is_empty());
    assert!(app.pending_custom_key.is_none());
    assert_eq!(app.selected_type, 0);
    assert!(app.pending_permission_tool.is_none());
    assert_eq!(app.selected_permission_level, 0);
    assert!(app.pending_mcp_match_field.is_none());
    assert!(app.pending_mcp_match_value.is_none());
    assert_eq!(app.selected_mcp_permission_level, 0);
}

#[test]
fn cancel_clears_every_flow() {
    // Inline edit flow
    let mut app = App::new(Config::from_text("").unwrap());
    app.input_mode = InputMode::EditingValue;
    app.edit_buffer = "half-typed".to_string();
    app.cancel_edit();
    assert_cleared(&app);

    // Custom key flow
    app.input_mode = InputMode::SelectingType;
    app.pending_custom_key = Some("k".to_string());
    app.selected_type = 3;
    app.cancel_edit();
    assert_cleared(&app);

    // Permission flow
    app.input_mode = InputMode::EnteringDelegateTo;
    app.pending_permission_tool = Some("Bash".to_string());
    app.selected_permission_level = 3;
    app.edit_buffer = "helper".to_string();
    app.cancel_edit();
    assert_cleared(&app);

    // MCP permission flow
    app.input_mode = InputMode::SelectingMcpPermissionLevel;
    app.pending_mcp_match_field = Some("command".to_string());
    app.pending_mcp_match_value = Some("npx".to_string());
    app.selected_mcp_permission_level = 1;
    app.cancel_edit();
    assert_cleared(&app);

    // MCP server flow
    app.input_mode = InputMode::EnteringMcpServerName;
    app.edit_buffer = "srv".to_string();
    app.cancel_edit();
    assert_cleared(&app);
}

#[test]
fn delete_only_element_then_redelete_reports_already_empty() {
    let config = Config::from_text(
        r#"{"amp.permissions": [{"action": "allow", "tool": "Bash"}]}"#,
    )
    .unwrap();
    let mut app = App::new(config);
    app.selected_section = 1;
    app.focus = Focus::Settings;

    app.delete_array_item();
    assert_eq!(app.current_item_count(), 0);

    app.delete_array_item();
    assert!(app.status_message.clone().unwrap().contains("already empty"));
    assert_eq!(app.current_item_count(), 0);
}

#[test]
fn number_entry_accepts_integers_floats_and_rejects_junk() {
    let mut app = App::new(Config::from_text("").unwrap());
    app.selected_section = 2; // Tools: stopTimeout is second
    app.focus = Focus::Settings;
    app.selected_setting = 1;
    app.input_mode = InputMode::EditingValue;
    app.edit_buffer = "9007199254740993".to_string();
    app.commit_edit();
    assert_eq!(
        app.config.get("amp.tools.stopTimeout"),
        Json::Int(9007199254740993)
    );

    app.input_mode = InputMode::EditingValue;
    app.edit_buffer = "2.5".to_string();
    app.commit_edit();
    assert_eq!(
        app.config.get("amp.tools.stopTimeout"),
        Json::Num("2.5".to_string())
    );

    app.input_mode = InputMode::EditingValue;
    app.edit_buffer = "1e5".to_string();
    app.commit_edit();
    // The scanner stores the exponent in normalized spelling.
    assert_eq!(
        app.config.get("amp.tools.stopTimeout"),
        Json::Num("1e+5".to_string())
    );

    app.input_mode = InputMode::EditingValue;
    app.edit_buffer = " 5 ".to_string();
    app.commit_edit();
    assert_eq!(app.status_message.as_deref(), Some("Invalid number."));
    // A rejected commit keeps the wizard step open with the buffer intact.
    assert_eq!(app.input_mode, InputMode::EditingValue);
    assert_eq!(app.edit_buffer, " 5 ");
}

#[test]
fn validator_messages_name_the_expected_kind() {
    let err = Config::validate_value("amp.showCosts", &Json::Int(1)).unwrap_err();
    assert!(err.contains("boolean"));
    assert!(err.contains("amp.showCosts"));

    let err =
        Config::validate_value("amp.updates.mode", &Json::Str("nope".to_string())).unwrap_err();
    assert!(err.contains("nope"));
    assert!(err.contains("auto, warn, disabled"));
}

#[test]
fn object_array_item_entry_parses_json() {
    let mut app = App::new(Config::from_text("").unwrap());
    app.selected_section = 3; // MCPs holds amp.mcpPermissions at index 1
    app.focus = Focus::Settings;
    app.selected_setting = 1;
    app.input_mode = InputMode::EditingValue;
    app.edit_buffer = r#"{"action": "allow"}"#.to_string();
    app.commit_edit();
    let items = match app.config.get("amp.mcpPermissions") {
        Json::Arr(v) => v,
        _ => panic!("expected an array"),
    };
    assert_eq!(items.len(), 1);
    assert_eq!(items[0].get("action"), Some(&Json::Str("allow".to_string())));

    app.input_mode = InputMode::EditingValue;
    app.edit_buffer = "[1, 2]".to_string();
    app.commit_edit();
    assert_eq!(
        app.status_message.as_deref(),
        Some("Value must be a JSON object")
    );
    // A rejected commit keeps the wizard step open with the buffer intact.
    assert_eq!(app.input_mode, InputMode::EditingValue);
    assert_eq!(app.edit_buffer, "[1, 2]");

    app.edit_buffer = "{broken".to_string();
    app.commit_edit();
    assert!(app.status_message.clone().unwrap().starts_with("Invalid JSON: "));
    assert_eq!(app.input_mode, InputMode::EditingValue);
    assert_eq!(app.edit_buffer, "{broken");
}

#[test]
fn enum_cycle_just_before_custom_opens_editing() {
    let mut app = App::new(Config::from_text("").unwrap());
    app.focus = Focus::Settings;
    // amp.terminal.theme is at index 8 of General
    app.selected_setting = 8;
    app.config
        .set("amp.terminal.theme", Json::Str("nord".to_string()));
    let before = app.config.get("amp.terminal.theme");
    app.activate_setting();
    assert_eq!(app.input_mode, InputMode::EditingValue);
    // The literal "Custom" is not written
    assert_eq!(app.config.get("amp.terminal.theme"), before);
}

#[test]
fn saved_text_is_pretty_printed_with_trailing_newline() {
    let mut config = Config::from_text("").unwrap();
    config.set("amp.showCosts", Json::Bool(false));
    let text = config.to_text();
    assert!(text.starts_with("{"));
    assert!(text.ends_with("}\n"));
    assert!(text.contains("\"amp.showCosts\": false"));
}
