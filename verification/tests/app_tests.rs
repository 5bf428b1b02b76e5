use volt::app::{
    App, CustomKeyType, EditorRequest, Focus, InputMode, McpFocus, SettingEntry,
    CUSTOM_KEY_TYPE_COUNT, MCP_PERMISSION_LEVEL_COUNT, PERMISSION_LEVEL_COUNT,
};
use volt::settings::{Section, SECTION_COUNT};
use volt::{Config, Json};

fn test_app() -> App {
    let config = Config::from_text(
        r#"{
    "amp.showCosts": true,
    "amp.notifications.enabled": false,
    "amp.experimental.modes": ["bombadil"]
}"#,
    )
    .unwrap();
    App::new(config)
}

fn known_index(app: &App, key: &str) -> usize {
    let entries = app.current_settings();
    entries
        .iter()
        .position(|e| match e {
            SettingEntry::Known(d) => d.key == key,
            SettingEntry::Unknown(_) => false,
        })
        .unwrap()
}

fn as_array(v: Json) -> Vec<Json> {
    match v {
        Json::Arr(items) => items,
        _ => panic!("expected an array"),
    }
}

#[test]
fn test_initial_state() {
    let app = test_app();
    assert_eq!(app.current_section(), Section::General);
    assert_eq!(app.selected_setting, 0);
    assert_eq!(app.focus, Focus::Sidebar);
    assert!(!app.should_quit);
    assert_eq!(app.input_mode, InputMode::Normal);
}

#[test]
fn test_navigate_sections() {
    let mut app = test_app();
    assert_eq!(app.current_section(), Section::General);

    app.move_down();
    assert_eq!(app.current_section(), Section::Permissions);

    app.move_down();
    assert_eq!(app.current_section(), Section::Tools);

    app.move_up();
    assert_eq!(app.current_section(), Section::Permissions);
}

#[test]
fn test_toggle_focus() {
    let mut app = test_app();
    assert_eq!(app.focus, Focus::Sidebar);
    app.toggle_focus();
    assert_eq!(app.focus, Focus::Settings);
    app.toggle_focus();
    assert_eq!(app.focus, Focus::Sidebar);
}

#[test]
fn test_toggle_boolean() {
    let mut app = test_app();
    app.focus = Focus::Settings;
    // First setting in General is amp.anthropic.thinking.enabled (default true)
    app.activate_setting();
    assert_eq!(
        app.config.get("amp.anthropic.thinking.enabled"),
        Json::Bool(false)
    );
    app.activate_setting();
    assert_eq!(
        app.config.get("amp.anthropic.thinking.enabled"),
        Json::Bool(true)
    );
}

#[test]
fn test_cycle_enum() {
    let mut app = test_app();
    app.focus = Focus::Settings;
    app.selected_setting = known_index(&app, "amp.terminal.theme");

    // Default is empty string, cycling should go to first option
    app.activate_setting();
    assert_eq!(
        app.config.get("amp.terminal.theme"),
        Json::Str("terminal".to_string())
    );

    app.activate_setting();
    assert_eq!(
        app.config.get("amp.terminal.theme"),
        Json::Str("dark".to_string())
    );
}

#[test]
fn test_cycle_enum_custom_prompts_for_value() {
    let mut app = test_app();
    app.focus = Focus::Settings;
    app.selected_setting = known_index(&app, "amp.terminal.theme");

    // Set theme to "nord" (the option just before "Custom")
    app.config
        .set("amp.terminal.theme", Json::Str("nord".to_string()));

    // Cycling from "nord" should land on "Custom" and enter editing mode
    app.activate_setting();
    assert_eq!(app.input_mode, InputMode::EditingValue);
    assert_eq!(app.edit_buffer, "");

    // Typing a custom name and committing should set it
    app.edit_buffer = "my-custom-theme".to_string();
    app.commit_edit();
    assert_eq!(app.input_mode, InputMode::Normal);
    assert_eq!(
        app.config.get("amp.terminal.theme"),
        Json::Str("my-custom-theme".to_string())
    );
}

#[test]
fn test_reset_setting() {
    let mut app = test_app();
    app.focus = Focus::Settings;

    // notifications.enabled is set to false in our test data
    app.selected_setting = known_index(&app, "amp.notifications.enabled");

    assert_eq!(app.config.get("amp.notifications.enabled"), Json::Bool(false));

    app.reset_setting();
    // Should fall back to default (true)
    assert_eq!(app.config.get("amp.notifications.enabled"), Json::Bool(true));
}

#[test]
fn test_advanced_shows_unknown_keys() {
    let mut app = test_app();
    // Navigate to Advanced section
    app.selected_section = 4; // Advanced is index 4
    assert_eq!(app.current_section(), Section::Advanced);

    let entries = app.current_settings();
    assert!(entries.iter().any(|e| match e {
        SettingEntry::Unknown(k) => k == "amp.experimental.modes",
        SettingEntry::Known(_) => false,
    }));
}

#[test]
fn test_move_bounds() {
    let mut app = test_app();
    // At top, moving up should stay
    app.move_up();
    assert_eq!(app.selected_section, 0);

    // Move to bottom
    for _ in 0..10 {
        app.move_down();
    }
    assert_eq!(app.selected_section, SECTION_COUNT - 1);

    // Further down should stay
    app.move_down();
    assert_eq!(app.selected_section, SECTION_COUNT - 1);
}

#[test]
fn test_section_change_resets_setting_index() {
    let mut app = test_app();
    app.focus = Focus::Settings;
    app.selected_setting = 5;
    app.focus = Focus::Sidebar;
    app.move_down();
    assert_eq!(app.selected_setting, 0);
}

#[test]
fn test_inline_edit_string() {
    let mut app = test_app();
    app.focus = Focus::Settings;
    app.selected_setting = known_index(&app, "amp.bitbucketToken");

    app.activate_setting();
    assert!(app.is_editing());
    app.edit_buffer = "my-token".to_string();
    app.commit_edit();
    assert!(!app.is_editing());
    assert_eq!(
        app.config.get("amp.bitbucketToken"),
        Json::Str("my-token".to_string())
    );
}

#[test]
fn test_inline_edit_number() {
    let mut app = test_app();
    app.focus = Focus::Settings;
    // Navigate to Tools section
    app.selected_section = 2; // Tools
    app.selected_setting = known_index(&app, "amp.tools.stopTimeout");

    app.activate_setting();
    assert!(app.is_editing());
    app.edit_buffer = "120".to_string();
    app.commit_edit();
    assert!(!app.is_editing());
    assert_eq!(app.config.get("amp.tools.stopTimeout"), Json::Int(120));
}

#[test]
fn test_inline_edit_cancel() {
    let mut app = test_app();
    app.input_mode = InputMode::EditingValue;
    app.edit_buffer = "something".to_string();
    app.cancel_edit();
    assert!(!app.is_editing());
    assert!(app.edit_buffer.is_empty());
}

#[test]
fn test_object_returns_editor_request() {
    let mut app = test_app();
    app.focus = Focus::Settings;
    app.selected_setting = known_index(&app, "amp.defaultVisibility");

    let req = app.activate_setting();
    assert!(req.is_some());
    let req = req.unwrap();
    assert_eq!(req.key, "amp.defaultVisibility");
    assert!(req.array_index.is_none());
}

#[test]
fn test_array_string_add_item() {
    let mut app = test_app();
    app.focus = Focus::Settings;
    app.selected_setting = known_index(&app, "amp.fuzzy.alwaysIncludePaths");

    app.add_array_item();
    assert!(app.is_editing());
    app.edit_buffer = "*.rs".to_string();
    app.commit_edit();
    assert!(!app.is_editing());
    assert_eq!(
        app.config.get("amp.fuzzy.alwaysIncludePaths"),
        Json::Arr(vec![Json::Str("*.rs".to_string())])
    );
}

#[test]
fn test_array_string_delete_item() {
    let mut app = test_app();
    app.focus = Focus::Settings;
    app.config.set(
        "amp.fuzzy.alwaysIncludePaths",
        Json::Arr(vec![Json::Str("a".to_string()), Json::Str("b".to_string())]),
    );
    app.selected_setting = known_index(&app, "amp.fuzzy.alwaysIncludePaths");

    app.delete_array_item();
    assert_eq!(
        app.config.get("amp.fuzzy.alwaysIncludePaths"),
        Json::Arr(vec![Json::Str("a".to_string())])
    );
}

#[test]
fn test_delete_empty_array() {
    let mut app = test_app();
    app.focus = Focus::Settings;
    app.selected_setting = known_index(&app, "amp.fuzzy.alwaysIncludePaths");

    app.delete_array_item();
    assert!(app.status_message.is_some());
    assert!(app.status_message.unwrap().contains("empty"));
}

#[test]
fn test_force_editor() {
    let mut app = test_app();
    app.focus = Focus::Settings;
    // Any setting should produce an EditorRequest
    let req = app.force_editor();
    assert!(req.is_some());
}

#[test]
fn test_apply_editor_result() {
    let mut app = test_app();
    let req = EditorRequest {
        key: "amp.defaultVisibility".to_string(),
        value: Json::Obj(vec![]),
        array_index: None,
        object_key: None,
    };
    let edited = Json::Obj(vec![("origin".to_string(), Json::Str("private".to_string()))]);
    app.apply_editor_result(&req, edited);
    let val = app.config.get("amp.defaultVisibility");
    assert!(matches!(val, Json::Obj(_)));
    assert_eq!(
        val.get("origin"),
        Some(&Json::Str("private".to_string()))
    );
}

#[test]
fn test_apply_editor_result_array_index() {
    let mut app = test_app();
    app.config
        .set("amp.permissions", Json::Arr(vec![Json::Obj(vec![])]));
    let req = EditorRequest {
        key: "amp.permissions".to_string(),
        value: Json::Obj(vec![]),
        array_index: Some(0),
        object_key: None,
    };
    let edited = Json::Obj(vec![("tool".to_string(), Json::Str("Bash".to_string()))]);
    app.apply_editor_result(&req, edited);
    let items = as_array(app.config.get("amp.permissions"));
    assert_eq!(items[0].get("tool"), Some(&Json::Str("Bash".to_string())));
}

#[test]
fn test_unknown_key_returns_editor_request() {
    let mut app = test_app();
    app.selected_section = 4; // Advanced
    app.focus = Focus::Settings;
    let entries = app.current_settings();
    assert!(!entries.is_empty());
    app.selected_setting = 0;
    let req = app.activate_setting();
    assert!(req.is_some());
    assert_eq!(req.unwrap().key, "amp.experimental.modes");
}

fn test_app_with_permissions() -> App {
    let config = Config::from_text(
        r#"{
    "amp.permissions": [
        {"tool": "Bash", "decision": "allow"},
        {"tool": "Read", "decision": "allow"},
        {"tool": "edit_file", "decision": "ask"}
    ]
}"#,
    )
    .unwrap();
    let mut app = App::new(config);
    app.selected_section = 1; // Permissions
    app
}

#[test]
fn test_single_key_item_count() {
    let app = test_app_with_permissions();
    assert_eq!(app.current_section(), Section::Permissions);
    assert_eq!(app.current_item_count(), 3);
}

#[test]
fn test_single_key_navigate_items() {
    let mut app = test_app_with_permissions();
    app.focus = Focus::Settings;
    assert_eq!(app.selected_setting, 0);
    app.move_down();
    assert_eq!(app.selected_setting, 1);
    app.move_down();
    assert_eq!(app.selected_setting, 2);
    app.move_down();
    assert_eq!(app.selected_setting, 2); // stays at last
}

#[test]
fn test_single_key_activate_opens_item() {
    let mut app = test_app_with_permissions();
    app.focus = Focus::Settings;
    app.selected_setting = 1;
    let req = app.activate_setting();
    assert!(req.is_some());
    let req = req.unwrap();
    assert_eq!(req.key, "amp.permissions");
    assert_eq!(req.array_index, Some(1));
    assert_eq!(req.value.get("tool"), Some(&Json::Str("Read".to_string())));
}

#[test]
fn test_single_key_delete_selected_item() {
    let mut app = test_app_with_permissions();
    app.focus = Focus::Settings;
    app.selected_setting = 1; // "Read" item
    app.delete_array_item();
    assert_eq!(app.current_item_count(), 2);
    // The remaining items should be Bash and edit_file
    let items = as_array(app.config.get("amp.permissions"));
    assert_eq!(items[0].get("tool"), Some(&Json::Str("Bash".to_string())));
    assert_eq!(
        items[1].get("tool"),
        Some(&Json::Str("edit_file".to_string()))
    );
}

#[test]
fn test_single_key_delete_last_adjusts_selection() {
    let mut app = test_app_with_permissions();
    app.focus = Focus::Settings;
    app.selected_setting = 2; // last item
    app.delete_array_item();
    assert_eq!(app.current_item_count(), 2);
    assert_eq!(app.selected_setting, 1); // adjusted
}

#[test]
fn test_single_key_empty_item_count() {
    let mut app = test_app();
    app.selected_section = 1; // Permissions
    assert_eq!(app.current_item_count(), 0);
}

#[test]
fn test_single_key_reset_clears_array() {
    let mut app = test_app_with_permissions();
    app.focus = Focus::Settings;
    app.selected_setting = 1;
    app.reset_setting();
    assert_eq!(app.current_item_count(), 0);
    assert_eq!(app.selected_setting, 0);
}

#[test]
fn test_start_add_custom_key() {
    let mut app = test_app();
    app.selected_section = 4; // Advanced
    app.focus = Focus::Settings;
    app.start_add_custom_key();
    assert_eq!(app.input_mode, InputMode::EnteringKeyName);
    assert!(app.edit_buffer.is_empty());
}

#[test]
fn test_start_add_custom_key_not_advanced() {
    let mut app = test_app();
    app.selected_section = 0; // General
    app.start_add_custom_key();
    assert_eq!(app.input_mode, InputMode::Normal);
}

#[test]
fn test_commit_key_name_empty() {
    let mut app = test_app();
    app.selected_section = 4;
    app.input_mode = InputMode::EnteringKeyName;
    app.edit_buffer = "  ".to_string();
    app.commit_key_name();
    assert_eq!(app.input_mode, InputMode::EnteringKeyName);
    assert!(app.status_message.unwrap().contains("empty"));
}

#[test]
fn test_commit_key_name_duplicate() {
    let mut app = test_app();
    app.selected_section = 4;
    app.input_mode = InputMode::EnteringKeyName;
    app.edit_buffer = "amp.showCosts".to_string();
    app.commit_key_name();
    assert_eq!(app.input_mode, InputMode::EnteringKeyName);
    assert!(app.status_message.unwrap().contains("already exists"));
}

#[test]
fn test_commit_key_name_success() {
    let mut app = test_app();
    app.selected_section = 4;
    app.input_mode = InputMode::EnteringKeyName;
    app.edit_buffer = "my.custom.key".to_string();
    app.commit_key_name();
    assert_eq!(app.input_mode, InputMode::SelectingType);
    assert_eq!(app.pending_custom_key.as_deref(), Some("my.custom.key"));
    assert!(app.edit_buffer.is_empty());
}

#[test]
fn test_commit_type_boolean() {
    let mut app = test_app();
    app.pending_custom_key = Some("my.bool.key".to_string());
    app.selected_type = 0; // Boolean
    let req = app.commit_type_selection();
    assert!(req.is_none());
    assert_eq!(app.config.get("my.bool.key"), Json::Bool(false));
    assert_eq!(app.input_mode, InputMode::Normal);
    assert!(app.pending_custom_key.is_none());
}

#[test]
fn test_commit_type_string_enters_value_mode() {
    let mut app = test_app();
    app.pending_custom_key = Some("my.str.key".to_string());
    app.selected_type = 1; // String
    let req = app.commit_type_selection();
    assert!(req.is_none());
    assert_eq!(app.input_mode, InputMode::EnteringCustomValue);
    assert!(app.pending_custom_key.is_some());
}

#[test]
fn test_commit_type_number_enters_value_mode() {
    let mut app = test_app();
    app.pending_custom_key = Some("my.num.key".to_string());
    app.selected_type = 2; // Number
    let req = app.commit_type_selection();
    assert!(req.is_none());
    assert_eq!(app.input_mode, InputMode::EnteringCustomValue);
}

#[test]
fn test_commit_type_array() {
    let mut app = test_app();
    app.pending_custom_key = Some("my.arr.key".to_string());
    app.selected_type = 3; // Array
    let req = app.commit_type_selection();
    assert!(req.is_none());
    assert_eq!(app.config.get("my.arr.key"), Json::Arr(vec![]));
    assert_eq!(app.input_mode, InputMode::Normal);
}

#[test]
fn test_commit_type_object_returns_editor_request() {
    let mut app = test_app();
    app.pending_custom_key = Some("my.obj.key".to_string());
    app.selected_type = 4; // Object
    let req = app.commit_type_selection();
    assert!(req.is_some());
    let req = req.unwrap();
    assert_eq!(req.key, "my.obj.key");
    assert!(matches!(req.value, Json::Obj(_)));
    assert_eq!(app.input_mode, InputMode::Normal);
}

#[test]
fn test_commit_custom_value_string() {
    let mut app = test_app();
    app.pending_custom_key = Some("my.str.key".to_string());
    app.selected_type = 1; // String
    app.input_mode = InputMode::EnteringCustomValue;
    app.edit_buffer = "hello world".to_string();
    app.commit_custom_value();
    assert_eq!(
        app.config.get("my.str.key"),
        Json::Str("hello world".to_string())
    );
    assert_eq!(app.input_mode, InputMode::Normal);
}

#[test]
fn test_commit_custom_value_number() {
    let mut app = test_app();
    app.pending_custom_key = Some("my.num.key".to_string());
    app.selected_type = 2; // Number
    app.input_mode = InputMode::EnteringCustomValue;
    app.edit_buffer = "42".to_string();
    app.commit_custom_value();
    assert_eq!(app.config.get("my.num.key"), Json::Int(42));
    assert_eq!(app.input_mode, InputMode::Normal);
}

#[test]
fn test_commit_custom_value_invalid_number() {
    let mut app = test_app();
    app.pending_custom_key = Some("my.num.key".to_string());
    app.selected_type = 2; // Number
    app.input_mode = InputMode::EnteringCustomValue;
    app.edit_buffer = "not a number".to_string();
    app.commit_custom_value();
    assert!(app.status_message.unwrap().contains("Invalid"));
    assert!(app.pending_custom_key.is_some());
    assert_eq!(app.input_mode, InputMode::EnteringCustomValue);
}

#[test]
fn test_type_select_navigation() {
    let mut app = test_app();
    app.selected_type = 0;
    app.type_select_up();
    assert_eq!(app.selected_type, 0); // stays at 0
    app.type_select_down();
    assert_eq!(app.selected_type, 1);
    app.type_select_down();
    assert_eq!(app.selected_type, 2);
    // Go to last
    for _ in 0..10 {
        app.type_select_down();
    }
    assert_eq!(app.selected_type, CUSTOM_KEY_TYPE_COUNT - 1);
}

#[test]
fn test_cancel_edit_clears_custom_key_state() {
    let mut app = test_app();
    app.input_mode = InputMode::SelectingType;
    app.pending_custom_key = Some("my.key".to_string());
    app.selected_type = 2;
    app.cancel_edit();
    assert_eq!(app.input_mode, InputMode::Normal);
    assert!(app.pending_custom_key.is_none());
    assert_eq!(app.selected_type, 0);
}

#[test]
fn test_add_custom_key_full_flow_string() {
    let mut app = test_app();
    app.selected_section = 4; // Advanced
    app.focus = Focus::Settings;

    // Step 1: start
    app.add_array_item();
    assert_eq!(app.input_mode, InputMode::EnteringKeyName);

    // Step 2: enter key name
    app.edit_buffer = "my.custom.setting".to_string();
    app.commit_key_name();
    assert_eq!(app.input_mode, InputMode::SelectingType);

    // Step 3: select string type
    app.selected_type = 1; // String
    app.commit_type_selection();
    assert_eq!(app.input_mode, InputMode::EnteringCustomValue);

    // Step 4: enter value
    app.edit_buffer = "my value".to_string();
    app.commit_custom_value();
    assert_eq!(app.input_mode, InputMode::Normal);
    assert_eq!(
        app.config.get("my.custom.setting"),
        Json::Str("my value".to_string())
    );
}

#[test]
fn test_permission_add_starts_tool_prompt() {
    let mut app = test_app();
    app.selected_section = 1; // Permissions
    app.focus = Focus::Settings;
    app.add_array_item();
    assert_eq!(app.input_mode, InputMode::EnteringPermissionTool);
    assert!(app.edit_buffer.is_empty());
}

#[test]
fn test_permission_tool_empty_rejected() {
    let mut app = test_app();
    app.input_mode = InputMode::EnteringPermissionTool;
    app.edit_buffer = "  ".to_string();
    app.commit_permission_tool();
    assert_eq!(app.input_mode, InputMode::EnteringPermissionTool);
    assert!(app.status_message.unwrap().contains("empty"));
}

#[test]
fn test_permission_tool_moves_to_level_select() {
    let mut app = test_app();
    app.input_mode = InputMode::EnteringPermissionTool;
    app.edit_buffer = "Bash".to_string();
    app.commit_permission_tool();
    assert_eq!(app.input_mode, InputMode::SelectingPermissionLevel);
    assert_eq!(app.pending_permission_tool.as_deref(), Some("Bash"));
    assert_eq!(app.selected_permission_level, 0);
}

#[test]
fn test_permission_level_navigation() {
    let mut app = test_app();
    app.selected_permission_level = 0;
    app.permission_level_up();
    assert_eq!(app.selected_permission_level, 0);
    app.permission_level_down();
    assert_eq!(app.selected_permission_level, 1);
    app.permission_level_down();
    assert_eq!(app.selected_permission_level, 2);
    app.permission_level_down();
    assert_eq!(app.selected_permission_level, 3); // delegate
    app.permission_level_down();
    assert_eq!(app.selected_permission_level, 3); // stays at last
}

#[test]
fn test_permission_commit_adds_rule() {
    let mut app = test_app();
    app.pending_permission_tool = Some("Bash".to_string());
    app.selected_permission_level = 1; // allow
    app.commit_permission_level();
    assert_eq!(app.input_mode, InputMode::ConfirmAdvancedEdit);
    assert!(app.pending_permission_tool.is_none());

    let items = as_array(app.config.get("amp.permissions"));
    assert_eq!(items.len(), 1);
    assert_eq!(items[0].get("tool"), Some(&Json::Str("Bash".to_string())));
    assert_eq!(items[0].get("action"), Some(&Json::Str("allow".to_string())));
}

#[test]
fn test_permission_full_flow() {
    let mut app = test_app();
    app.selected_section = 1; // Permissions
    app.focus = Focus::Settings;

    // Step 1: press 'a' to start
    app.add_array_item();
    assert_eq!(app.input_mode, InputMode::EnteringPermissionTool);

    // Step 2: enter tool name
    app.edit_buffer = "Read".to_string();
    app.commit_permission_tool();
    assert_eq!(app.input_mode, InputMode::SelectingPermissionLevel);

    // Step 3: select "reject" (index 2)
    app.permission_level_down();
    app.permission_level_down();
    assert_eq!(app.selected_permission_level, 2);
    app.commit_permission_level();

    assert_eq!(app.input_mode, InputMode::ConfirmAdvancedEdit);
    let items = as_array(app.config.get("amp.permissions"));
    assert_eq!(items.len(), 1);
    assert_eq!(items[0].get("tool"), Some(&Json::Str("Read".to_string())));
    assert_eq!(
        items[0].get("action"),
        Some(&Json::Str("reject".to_string()))
    );
}

#[test]
fn test_cancel_permission_clears_state() {
    let mut app = test_app();
    app.input_mode = InputMode::SelectingPermissionLevel;
    app.pending_permission_tool = Some("Bash".to_string());
    app.selected_permission_level = 1;
    app.cancel_edit();
    assert_eq!(app.input_mode, InputMode::Normal);
    assert!(app.pending_permission_tool.is_none());
    assert_eq!(app.selected_permission_level, 0);
}

#[test]
fn test_confirm_advanced_edit_returns_editor_request() {
    let mut app = test_app();
    // Add a permission rule first
    app.pending_permission_tool = Some("Bash".to_string());
    app.selected_permission_level = 0; // ask
    app.commit_permission_level();
    assert_eq!(app.input_mode, InputMode::ConfirmAdvancedEdit);

    let req = app.confirm_advanced_edit();
    assert!(req.is_some());
    let req = req.unwrap();
    assert_eq!(req.key, "amp.permissions");
    assert_eq!(req.array_index, Some(0));
    assert_eq!(req.value.get("tool"), Some(&Json::Str("Bash".to_string())));
    assert_eq!(req.value.get("action"), Some(&Json::Str("ask".to_string())));
    assert_eq!(app.input_mode, InputMode::Normal);
}

#[test]
fn test_decline_advanced_edit_returns_to_normal() {
    let mut app = test_app();
    app.input_mode = InputMode::ConfirmAdvancedEdit;
    app.decline_advanced_edit();
    assert_eq!(app.input_mode, InputMode::Normal);
}

#[test]
fn test_permission_full_flow_with_decline() {
    let mut app = test_app();
    app.selected_section = 1; // Permissions
    app.focus = Focus::Settings;

    app.add_array_item();
    app.edit_buffer = "Bash".to_string();
    app.commit_permission_tool();
    app.commit_permission_level(); // defaults to "ask"
    assert_eq!(app.input_mode, InputMode::ConfirmAdvancedEdit);

    app.decline_advanced_edit();
    assert_eq!(app.input_mode, InputMode::Normal);

    let items = as_array(app.config.get("amp.permissions"));
    assert_eq!(items.len(), 1);
    assert_eq!(items[0].get("tool"), Some(&Json::Str("Bash".to_string())));
}

#[test]
fn test_delegate_level_prompts_for_to() {
    let mut app = test_app();
    app.pending_permission_tool = Some("Bash".to_string());
    app.selected_permission_level = 3; // Delegate
    app.commit_permission_level();
    assert_eq!(app.input_mode, InputMode::EnteringDelegateTo);
    assert!(app.pending_permission_tool.is_some());
}

#[test]
fn test_delegate_to_empty_rejected() {
    let mut app = test_app();
    app.input_mode = InputMode::EnteringDelegateTo;
    app.pending_permission_tool = Some("Bash".to_string());
    app.edit_buffer = "  ".to_string();
    app.commit_delegate_to();
    assert_eq!(app.input_mode, InputMode::EnteringDelegateTo);
    assert!(app.status_message.unwrap().contains("empty"));
}

#[test]
fn test_delegate_full_flow() {
    let mut app = test_app();
    app.selected_section = 1; // Permissions
    app.focus = Focus::Settings;

    app.add_array_item();
    app.edit_buffer = "*".to_string();
    app.commit_permission_tool();

    // Select delegate (index 3)
    app.selected_permission_level = 3;
    app.commit_permission_level();
    assert_eq!(app.input_mode, InputMode::EnteringDelegateTo);

    app.edit_buffer = "my-permission-helper".to_string();
    app.commit_delegate_to();
    assert_eq!(app.input_mode, InputMode::ConfirmAdvancedEdit);

    app.decline_advanced_edit();
    assert_eq!(app.input_mode, InputMode::Normal);

    let items = as_array(app.config.get("amp.permissions"));
    assert_eq!(items.len(), 1);
    assert_eq!(items[0].get("tool"), Some(&Json::Str("*".to_string())));
    assert_eq!(
        items[0].get("action"),
        Some(&Json::Str("delegate".to_string()))
    );
    assert_eq!(
        items[0].get("to"),
        Some(&Json::Str("my-permission-helper".to_string()))
    );
}

fn test_app_with_mcp_permissions() -> App {
    let config = Config::from_text(
        r#"{
    "amp.mcpServers": {"test-server": {"command": "npx"}},
    "amp.mcpPermissions": [
        {"matches": {"command": "npx"}, "action": "allow"},
        {"matches": {"url": "https://evil.com"}, "action": "reject"}
    ]
}"#,
    )
    .unwrap();
    let mut app = App::new(config);
    app.selected_section = 3; // MCPs
    app
}

#[test]
fn test_mcp_split_initial_focus() {
    let app = test_app_with_mcp_permissions();
    assert_eq!(app.current_section(), Section::Mcps);
    assert_eq!(app.mcp_focus, McpFocus::Configs);
    assert_eq!(app.selected_mcp_permission, 0);
}

#[test]
fn test_mcp_server_names() {
    let app = test_app_with_mcp_permissions();
    let names = app.mcp_server_names();
    assert_eq!(names, vec!["test-server".to_string()]);
}

#[test]
fn test_mcp_config_count() {
    let app = test_app_with_mcp_permissions();
    assert_eq!(app.mcp_config_count(), 1);
}

#[test]
fn test_mcp_navigate_configs_to_permissions() {
    let mut app = test_app_with_mcp_permissions();
    app.focus = Focus::Settings;
    assert_eq!(app.mcp_focus, McpFocus::Configs);

    // Move down past configs (only 1 entry) should go to permissions
    app.move_down();
    assert_eq!(app.mcp_focus, McpFocus::Permissions);
    assert_eq!(app.selected_mcp_permission, 0);
}

#[test]
fn test_mcp_navigate_permissions_to_configs() {
    let mut app = test_app_with_mcp_permissions();
    app.focus = Focus::Settings;
    app.mcp_focus = McpFocus::Permissions;
    app.selected_mcp_permission = 0;

    // Move up from top of permissions should go back to configs
    app.move_up();
    assert_eq!(app.mcp_focus, McpFocus::Configs);
}

#[test]
fn test_mcp_navigate_within_permissions() {
    let mut app = test_app_with_mcp_permissions();
    app.focus = Focus::Settings;
    app.mcp_focus = McpFocus::Permissions;
    app.selected_mcp_permission = 0;

    app.move_down();
    assert_eq!(app.selected_mcp_permission, 1);
    app.move_down();
    assert_eq!(app.selected_mcp_permission, 1); // stays at last

    app.move_up();
    assert_eq!(app.selected_mcp_permission, 0);
}

#[test]
fn test_mcp_permission_item_count() {
    let app = test_app_with_mcp_permissions();
    assert_eq!(app.mcp_permission_item_count(), 2);
}

#[test]
fn test_mcp_activate_config_opens_editor() {
    let mut app = test_app_with_mcp_permissions();
    app.focus = Focus::Settings;
    app.mcp_focus = McpFocus::Configs;
    app.selected_setting = 0;

    let req = app.activate_setting();
    assert!(req.is_some());
    let req = req.unwrap();
    assert_eq!(req.key, "amp.mcpServers");
    assert_eq!(req.object_key.as_deref(), Some("test-server"));
    assert!(req.array_index.is_none());
    assert_eq!(
        req.value.get("command"),
        Some(&Json::Str("npx".to_string()))
    );
}

#[test]
fn test_mcp_activate_permission_opens_item() {
    let mut app = test_app_with_mcp_permissions();
    app.focus = Focus::Settings;
    app.mcp_focus = McpFocus::Permissions;
    app.selected_mcp_permission = 1;

    let req = app.activate_setting();
    assert!(req.is_some());
    let req = req.unwrap();
    assert_eq!(req.key, "amp.mcpPermissions");
    assert_eq!(req.array_index, Some(1));
    assert_eq!(
        req.value.get("action"),
        Some(&Json::Str("reject".to_string()))
    );
}

#[test]
fn test_mcp_permission_add_starts_match_field() {
    let mut app = test_app_with_mcp_permissions();
    app.focus = Focus::Settings;
    app.mcp_focus = McpFocus::Permissions;
    app.add_array_item();
    assert_eq!(app.input_mode, InputMode::EnteringMcpMatchField);
}

#[test]
fn test_mcp_match_field_empty_rejected() {
    let mut app = test_app_with_mcp_permissions();
    app.input_mode = InputMode::EnteringMcpMatchField;
    app.edit_buffer = "  ".to_string();
    app.commit_mcp_match_field();
    assert_eq!(app.input_mode, InputMode::EnteringMcpMatchField);
    assert!(app.status_message.unwrap().contains("empty"));
}

#[test]
fn test_mcp_match_field_moves_to_value() {
    let mut app = test_app_with_mcp_permissions();
    app.input_mode = InputMode::EnteringMcpMatchField;
    app.edit_buffer = "command".to_string();
    app.commit_mcp_match_field();
    assert_eq!(app.input_mode, InputMode::EnteringMcpMatchValue);
    assert_eq!(app.pending_mcp_match_field.as_deref(), Some("command"));
}

#[test]
fn test_mcp_match_value_empty_rejected() {
    let mut app = test_app_with_mcp_permissions();
    app.input_mode = InputMode::EnteringMcpMatchValue;
    app.pending_mcp_match_field = Some("command".to_string());
    app.edit_buffer = "  ".to_string();
    app.commit_mcp_match_value();
    assert_eq!(app.input_mode, InputMode::EnteringMcpMatchValue);
    assert!(app.status_message.unwrap().contains("empty"));
}

#[test]
fn test_mcp_match_value_moves_to_level_select() {
    let mut app = test_app_with_mcp_permissions();
    app.input_mode = InputMode::EnteringMcpMatchValue;
    app.pending_mcp_match_field = Some("url".to_string());
    app.edit_buffer = "https://example.com".to_string();
    app.commit_mcp_match_value();
    assert_eq!(app.input_mode, InputMode::SelectingMcpPermissionLevel);
    assert_eq!(
        app.pending_mcp_match_value.as_deref(),
        Some("https://example.com")
    );
}

#[test]
fn test_mcp_permission_level_navigation() {
    let mut app = test_app_with_mcp_permissions();
    app.selected_mcp_permission_level = 0;
    app.mcp_permission_level_up();
    assert_eq!(app.selected_mcp_permission_level, 0); // stays at 0
    app.mcp_permission_level_down();
    assert_eq!(app.selected_mcp_permission_level, 1);
    app.mcp_permission_level_down();
    assert_eq!(
        app.selected_mcp_permission_level,
        MCP_PERMISSION_LEVEL_COUNT - 1
    ); // stays at last (only 2 options)
}

#[test]
fn test_mcp_permission_commit_adds_rule() {
    let mut app = test_app();
    app.pending_mcp_match_field = Some("command".to_string());
    app.pending_mcp_match_value = Some("npx".to_string());
    app.selected_mcp_permission_level = 0; // allow
    app.commit_mcp_permission_level();
    assert_eq!(app.input_mode, InputMode::ConfirmMcpEdit);

    let items = as_array(app.config.get("amp.mcpPermissions"));
    assert_eq!(items.len(), 1);
    assert_eq!(
        items[0].get("matches"),
        Some(&Json::Obj(vec![(
            "command".to_string(),
            Json::Str("npx".to_string())
        )]))
    );
    assert_eq!(items[0].get("action"), Some(&Json::Str("allow".to_string())));
}

#[test]
fn test_mcp_permission_full_flow() {
    let mut app = test_app();
    app.selected_section = 3; // MCPs
    app.focus = Focus::Settings;
    app.mcp_focus = McpFocus::Permissions;

    // Step 1: start add
    app.add_array_item();
    assert_eq!(app.input_mode, InputMode::EnteringMcpMatchField);

    // Step 2: enter match field
    app.edit_buffer = "url".to_string();
    app.commit_mcp_match_field();
    assert_eq!(app.input_mode, InputMode::EnteringMcpMatchValue);

    // Step 3: enter match value
    app.edit_buffer = "https://evil.com/*".to_string();
    app.commit_mcp_match_value();
    assert_eq!(app.input_mode, InputMode::SelectingMcpPermissionLevel);

    // Step 4: select reject (index 1)
    app.mcp_permission_level_down();
    assert_eq!(app.selected_mcp_permission_level, 1);
    app.commit_mcp_permission_level();
    assert_eq!(app.input_mode, InputMode::ConfirmMcpEdit);

    // Step 5: decline editor
    app.decline_mcp_edit();
    assert_eq!(app.input_mode, InputMode::Normal);

    let items = as_array(app.config.get("amp.mcpPermissions"));
    assert_eq!(items.len(), 1);
    assert_eq!(
        items[0].get("action"),
        Some(&Json::Str("reject".to_string()))
    );
}

#[test]
fn test_mcp_confirm_edit_returns_editor_request() {
    let mut app = test_app();
    app.pending_mcp_match_field = Some("command".to_string());
    app.pending_mcp_match_value = Some("npx".to_string());
    app.selected_mcp_permission_level = 0;
    app.commit_mcp_permission_level();
    assert_eq!(app.input_mode, InputMode::ConfirmMcpEdit);

    let req = app.confirm_mcp_edit();
    assert!(req.is_some());
    let req = req.unwrap();
    assert_eq!(req.key, "amp.mcpPermissions");
    assert_eq!(req.array_index, Some(0));
    assert_eq!(app.input_mode, InputMode::Normal);
}

#[test]
fn test_mcp_delete_permission_item() {
    let mut app = test_app_with_mcp_permissions();
    app.focus = Focus::Settings;
    app.mcp_focus = McpFocus::Permissions;
    app.selected_mcp_permission = 0;

    app.delete_array_item();
    assert_eq!(app.mcp_permission_item_count(), 1);
    let items = as_array(app.config.get("amp.mcpPermissions"));
    assert_eq!(
        items[0].get("action"),
        Some(&Json::Str("reject".to_string()))
    );
}

#[test]
fn test_mcp_delete_last_adjusts_selection() {
    let mut app = test_app_with_mcp_permissions();
    app.focus = Focus::Settings;
    app.mcp_focus = McpFocus::Permissions;
    app.selected_mcp_permission = 1; // last item

    app.delete_array_item();
    assert_eq!(app.mcp_permission_item_count(), 1);
    assert_eq!(app.selected_mcp_permission, 0);
}

#[test]
fn test_mcp_reset_permissions() {
    let mut app = test_app_with_mcp_permissions();
    app.focus = Focus::Settings;
    app.mcp_focus = McpFocus::Permissions;

    app.reset_setting();
    assert_eq!(app.mcp_permission_item_count(), 0);
    assert_eq!(app.selected_mcp_permission, 0);
}

#[test]
fn test_mcp_reset_configs_deletes_server() {
    let mut app = test_app_with_mcp_permissions();
    app.focus = Focus::Settings;
    app.mcp_focus = McpFocus::Configs;
    app.selected_setting = 0;

    app.reset_setting();
    let val = app.config.get("amp.mcpServers");
    assert_eq!(val, Json::Obj(vec![]));
    assert!(app.status_message.unwrap().contains("Removed server"));
}

#[test]
fn test_mcp_force_editor_configs() {
    let mut app = test_app_with_mcp_permissions();
    app.focus = Focus::Settings;
    app.mcp_focus = McpFocus::Configs;
    app.selected_setting = 0;

    let req = app.force_editor();
    assert!(req.is_some());
    let req = req.unwrap();
    assert_eq!(req.key, "amp.mcpServers");
    assert_eq!(req.object_key.as_deref(), Some("test-server"));
    assert!(req.array_index.is_none());
    assert_eq!(
        req.value.get("command"),
        Some(&Json::Str("npx".to_string()))
    );
}

#[test]
fn test_mcp_force_editor_permissions() {
    let mut app = test_app_with_mcp_permissions();
    app.focus = Focus::Settings;
    app.mcp_focus = McpFocus::Permissions;
    app.selected_mcp_permission = 1;

    let req = app.force_editor();
    assert!(req.is_some());
    let req = req.unwrap();
    assert_eq!(req.key, "amp.mcpPermissions");
    assert_eq!(req.array_index, Some(1));
}

#[test]
fn test_mcp_add_server_starts_name_entry() {
    let mut app = test_app_with_mcp_permissions();
    app.focus = Focus::Settings;
    app.mcp_focus = McpFocus::Configs;
    app.add_array_item();
    assert_eq!(app.input_mode, InputMode::EnteringMcpServerName);
    assert!(app.edit_buffer.is_empty());
}

#[test]
fn test_mcp_server_name_empty_rejected() {
    let mut app = test_app_with_mcp_permissions();
    app.input_mode = InputMode::EnteringMcpServerName;
    app.edit_buffer = "  ".to_string();
    let req = app.commit_mcp_server_name();
    assert!(req.is_none());
    assert_eq!(app.input_mode, InputMode::EnteringMcpServerName);
    assert!(app.status_message.unwrap().contains("empty"));
}

#[test]
fn test_mcp_server_name_duplicate_rejected() {
    let mut app = test_app_with_mcp_permissions();
    app.input_mode = InputMode::EnteringMcpServerName;
    app.edit_buffer = "test-server".to_string();
    let req = app.commit_mcp_server_name();
    assert!(req.is_none());
    assert_eq!(app.input_mode, InputMode::EnteringMcpServerName);
    assert!(app.status_message.unwrap().contains("already exists"));
}

#[test]
fn test_mcp_server_name_success_returns_editor_request() {
    let mut app = test_app_with_mcp_permissions();
    app.input_mode = InputMode::EnteringMcpServerName;
    app.edit_buffer = "new-server".to_string();
    let req = app.commit_mcp_server_name();
    assert!(req.is_some());
    let req = req.unwrap();
    assert_eq!(req.key, "amp.mcpServers");
    assert_eq!(req.object_key.as_deref(), Some("new-server"));
    assert!(matches!(req.value, Json::Obj(_)));
    assert_eq!(app.input_mode, InputMode::Normal);
}

#[test]
fn test_mcp_delete_config_item() {
    let mut app = test_app_with_mcp_permissions();
    app.focus = Focus::Settings;
    app.mcp_focus = McpFocus::Configs;
    app.selected_setting = 0;

    app.delete_array_item();
    assert_eq!(app.mcp_config_count(), 0);
    assert!(app.status_message.unwrap().contains("Removed server"));
}

#[test]
fn test_mcp_delete_config_empty() {
    let mut app = test_app();
    app.selected_section = 3; // MCPs
    app.focus = Focus::Settings;
    app.mcp_focus = McpFocus::Configs;

    app.delete_array_item();
    assert!(app.status_message.unwrap().contains("No servers"));
}

#[test]
fn test_mcp_apply_editor_result_with_object_key() {
    let mut app = test_app_with_mcp_permissions();
    let req = EditorRequest {
        key: "amp.mcpServers".to_string(),
        value: Json::Obj(vec![]),
        array_index: None,
        object_key: Some("test-server".to_string()),
    };
    let edited = Json::Obj(vec![
        (
            "args".to_string(),
            Json::Arr(vec![Json::Str("server.js".to_string())]),
        ),
        ("command".to_string(), Json::Str("node".to_string())),
    ]);
    app.apply_editor_result(&req, edited);
    let servers = app.config.get("amp.mcpServers");
    let server = servers.get("test-server").unwrap();
    assert_eq!(
        server.get("command"),
        Some(&Json::Str("node".to_string()))
    );
}

#[test]
fn test_mcp_apply_editor_result_new_server() {
    let mut app = test_app_with_mcp_permissions();
    let req = EditorRequest {
        key: "amp.mcpServers".to_string(),
        value: Json::Obj(vec![]),
        array_index: None,
        object_key: Some("brand-new".to_string()),
    };
    let edited = Json::Obj(vec![(
        "url".to_string(),
        Json::Str("https://example.com".to_string()),
    )]);
    app.apply_editor_result(&req, edited);
    let servers = app.config.get("amp.mcpServers");
    assert!(servers.get("brand-new").is_some());
    assert_eq!(app.mcp_config_count(), 2);
}

#[test]
fn test_mcp_cancel_edit_clears_state() {
    let mut app = test_app();
    app.input_mode = InputMode::SelectingMcpPermissionLevel;
    app.pending_mcp_match_field = Some("command".to_string());
    app.pending_mcp_match_value = Some("npx".to_string());
    app.selected_mcp_permission_level = 1;
    app.cancel_edit();
    assert_eq!(app.input_mode, InputMode::Normal);
    assert!(app.pending_mcp_match_field.is_none());
    assert!(app.pending_mcp_match_value.is_none());
    assert_eq!(app.selected_mcp_permission_level, 0);
}

#[test]
fn test_mcp_section_change_resets_mcp_state() {
    let mut app = test_app_with_mcp_permissions();
    app.focus = Focus::Settings;
    app.mcp_focus = McpFocus::Permissions;
    app.selected_mcp_permission = 1;

    // Switch to sidebar and move to different section
    app.focus = Focus::Sidebar;
    app.move_down(); // MCPs -> Advanced
    assert_eq!(app.mcp_focus, McpFocus::Configs);
    assert_eq!(app.selected_mcp_permission, 0);
}

#[test]
fn test_permission_level_count_is_fixed() {
    assert_eq!(PERMISSION_LEVEL_COUNT, 4);
    assert_eq!(CUSTOM_KEY_TYPE_COUNT, CustomKeyType::all().len());
}
