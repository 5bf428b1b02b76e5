use volt::settings::{
    get_setting_def, known_settings, section_for_key, settings_for_section, Section, SettingType,
    SECTION_COUNT,
};
use volt::Json;

#[test]
fn test_section_labels() {
    assert_eq!(Section::General.label(), "General");
    assert_eq!(Section::Permissions.label(), "Permissions");
    assert_eq!(Section::Tools.label(), "Tools");
    assert_eq!(Section::Mcps.label(), "MCPs");
    assert_eq!(Section::Advanced.label(), "Advanced");
}

#[test]
fn test_section_for_known_keys() {
    assert_eq!(section_for_key("amp.showCosts"), Some(Section::General));
    assert_eq!(section_for_key("amp.permissions"), Some(Section::Permissions));
    assert_eq!(section_for_key("amp.tools.disable"), Some(Section::Tools));
    assert_eq!(section_for_key("amp.mcpServers"), Some(Section::Mcps));
}

#[test]
fn test_section_for_unknown_key() {
    assert_eq!(section_for_key("amp.experimental.modes"), None);
    assert_eq!(section_for_key("some.random.key"), None);
}

#[test]
fn test_get_setting_def() {
    let def = get_setting_def("amp.showCosts").unwrap();
    assert_eq!(def.key, "amp.showCosts");
    assert_eq!(def.setting_type, SettingType::Boolean);
    assert_eq!(def.default, Json::Bool(true));

    assert!(get_setting_def("nonexistent").is_none());
}

#[test]
fn test_settings_for_section() {
    let general = settings_for_section(Section::General);
    assert!(general.iter().any(|s| s.key == "amp.showCosts"));
    assert!(general.iter().all(|s| s.key != "amp.permissions"));

    let permissions = settings_for_section(Section::Permissions);
    assert_eq!(permissions.len(), 1);
    assert_eq!(permissions[0].key, "amp.permissions");

    let tools = settings_for_section(Section::Tools);
    assert_eq!(tools.len(), 2);

    let mcps = settings_for_section(Section::Mcps);
    assert_eq!(mcps.len(), 2);
}

#[test]
fn test_all_sections_covered() {
    for i in 0..SECTION_COUNT {
        let section = Section::at(i);
        if section != Section::Advanced {
            assert!(
                !settings_for_section(section).is_empty(),
                "Section {:?} has no settings",
                section
            );
        }
    }
}

#[test]
fn test_enum_options() {
    let theme = get_setting_def("amp.terminal.theme").unwrap();
    assert_eq!(theme.setting_type, SettingType::StringEnum);
    assert!(theme.enum_options.as_ref().unwrap().contains(&"terminal"));
    assert!(theme.enum_options.as_ref().unwrap().contains(&"Custom"));

    let update = get_setting_def("amp.updates.mode").unwrap();
    assert!(update.enum_options.as_ref().unwrap().contains(&"auto"));
}

#[test]
fn test_no_duplicate_keys() {
    let settings = known_settings();
    let mut keys: Vec<&str> = settings.iter().map(|s| s.key).collect();
    keys.sort();
    keys.dedup();
    assert_eq!(keys.len(), settings.len(), "Duplicate keys found");
}

#[test]
fn test_is_single_key() {
    assert!(Section::Permissions.is_single_key());
    assert!(!Section::General.is_single_key());
    assert!(!Section::Tools.is_single_key());
    assert!(!Section::Mcps.is_single_key());
    assert!(!Section::Advanced.is_single_key());
}

#[test]
fn test_is_split_panel() {
    assert!(Section::Mcps.is_split_panel());
    assert!(!Section::General.is_split_panel());
    assert!(!Section::Permissions.is_split_panel());
    assert!(!Section::Tools.is_split_panel());
    assert!(!Section::Advanced.is_split_panel());
}
