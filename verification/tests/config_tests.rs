use volt::{Config, Json};

fn sample_json() -> &'static str {
    r#"{
    "amp.showCosts": true,
    "amp.notifications.enabled": false,
    "amp.tools.stopTimeout": 600,
    "amp.experimental.modes": ["bombadil"]
}"#
}

#[test]
fn test_load_existing_file() {
    let config = Config::from_text(sample_json()).unwrap();
    assert_eq!(config.get("amp.showCosts"), Json::Bool(true));
    assert_eq!(config.get("amp.notifications.enabled"), Json::Bool(false));
    assert_eq!(config.get("amp.tools.stopTimeout"), Json::Int(600));
    assert!(!config.is_dirty());
}

#[test]
fn test_load_missing_file() {
    let config = Config::from_text("").unwrap();
    // Missing keys fall back to defaults
    assert_eq!(config.get("amp.showCosts"), Json::Bool(true));
    assert_eq!(config.get("amp.tools.stopTimeout"), Json::Int(300));
}

#[test]
fn test_load_invalid_json() {
    assert!(Config::from_text("not json").is_err());
}

#[test]
fn test_set_and_dirty() {
    let mut config = Config::from_text("").unwrap();
    assert!(!config.is_dirty());

    config.set("amp.showCosts", Json::Bool(false));
    assert!(config.is_dirty());
    assert_eq!(config.get("amp.showCosts"), Json::Bool(false));
}

#[test]
fn test_remove_resets_to_default() {
    let mut config = Config::from_text(r#"{"amp.showCosts": false}"#).unwrap();
    assert_eq!(config.get("amp.showCosts"), Json::Bool(false));

    config.remove("amp.showCosts");
    assert!(config.is_dirty());
    // Falls back to default
    assert_eq!(config.get("amp.showCosts"), Json::Bool(true));
}

#[test]
fn test_unknown_keys() {
    let config = Config::from_text(sample_json()).unwrap();
    let unknown = config.unknown_keys();
    assert!(unknown.contains(&"amp.experimental.modes".to_string()));
    assert!(!unknown.contains(&"amp.showCosts".to_string()));
}

#[test]
fn test_save_roundtrip() {
    let mut config = Config::from_text("").unwrap();
    config.set("amp.showCosts", Json::Bool(false));
    config.set("amp.tools.stopTimeout", Json::Int(120));
    let text = config.to_text();
    config.mark_saved();
    assert!(!config.is_dirty());

    let reloaded = Config::from_text(text.as_str()).unwrap();
    assert_eq!(reloaded.get("amp.showCosts"), Json::Bool(false));
    assert_eq!(reloaded.get("amp.tools.stopTimeout"), Json::Int(120));
}

#[test]
fn test_validate_boolean() {
    assert!(Config::validate_value("amp.showCosts", &Json::Bool(true)).is_ok());
    assert!(Config::validate_value("amp.showCosts", &Json::Str("yes".to_string())).is_err());
}

#[test]
fn test_validate_number() {
    assert!(Config::validate_value("amp.tools.stopTimeout", &Json::Int(100)).is_ok());
    assert!(Config::validate_value("amp.tools.stopTimeout", &Json::Bool(true)).is_err());
}

#[test]
fn test_validate_enum() {
    assert!(Config::validate_value("amp.updates.mode", &Json::Str("auto".to_string())).is_ok());
    assert!(Config::validate_value("amp.updates.mode", &Json::Str("invalid".to_string())).is_err());
}

#[test]
fn test_validate_array_string() {
    let val = Json::Arr(vec![Json::Str("*.rs".to_string())]);
    assert!(Config::validate_value("amp.fuzzy.alwaysIncludePaths", &val).is_ok());

    let bad = Json::Arr(vec![Json::Int(42)]);
    assert!(Config::validate_value("amp.fuzzy.alwaysIncludePaths", &bad).is_err());
}

#[test]
fn test_validate_unknown_key_always_ok() {
    assert!(Config::validate_value("some.unknown", &Json::Bool(true)).is_ok());
}

#[test]
fn test_preserve_unknown_keys_on_save() {
    let mut config = Config::from_text("").unwrap();
    config.set("amp.showCosts", Json::Bool(false));
    config.set(
        "amp.experimental.modes",
        Json::Arr(vec![Json::Str("test".to_string())]),
    );
    let text = config.to_text();

    let reloaded = Config::from_text(text.as_str()).unwrap();
    assert_eq!(
        reloaded.get("amp.experimental.modes"),
        Json::Arr(vec![Json::Str("test".to_string())])
    );
    assert_eq!(reloaded.get("amp.showCosts"), Json::Bool(false));
}
