use file_manager::config::{
    configured_data_path, user_data_from, AppConfig, ConfigManager, DataManager, LoadedData,
    UserData,
};
use file_manager::file_entry::FileEntry;
use file_manager::theme::ThemeMode;

#[test]
fn default_config_and_data() {
    let c = AppConfig::default();
    assert_eq!(c.theme_mode, "Light");
    assert_eq!(c.data_file_path, None);
    assert!(!c.compact_mode);
    let d = UserData::default();
    assert!(d.entries.is_empty());
    assert_eq!(d.version, "0.2.0");
}

#[test]
fn managers_keep_their_paths() {
    let c = ConfigManager::new_with_path("/etc/fm.json".to_string());
    assert_eq!(c.get_config_path(), "/etc/fm.json");
    let d = DataManager::new_with_path("/var/fm.json".to_string());
    assert_eq!(d.get_data_path(), "/var/fm.json");
}

#[test]
fn loaded_data_formats() {
    let e = FileEntry::new("/a".to_string(), "a".to_string(), None, vec![], false);
    let current = user_data_from(LoadedData::Current(UserData {
        entries: vec![],
        version: "9".to_string(),
    }));
    assert_eq!(current.version, "9");
    let list = user_data_from(LoadedData::EntryList(vec![e.clone()]));
    assert_eq!(list.entries.len(), 1);
    assert_eq!(list.version, "0.2.0");
    let field = user_data_from(LoadedData::EntriesField(Some(vec![e])));
    assert_eq!(field.entries.len(), 1);
    assert_eq!(user_data_from(LoadedData::EntriesField(None)).entries.len(), 0);
    assert_eq!(user_data_from(LoadedData::OtherJson).version, "0.2.0");
    assert_eq!(user_data_from(LoadedData::Unreadable).entries.len(), 0);
}

#[test]
fn configured_data_path_needs_a_usable_path() {
    let mut c = AppConfig::default();
    assert_eq!(configured_data_path(&c, true), None);
    c.data_file_path = Some("".to_string());
    assert_eq!(configured_data_path(&c, true), None);
    c.data_file_path = Some("/d.json".to_string());
    assert_eq!(configured_data_path(&c, false), None);
    assert_eq!(configured_data_path(&c, true), Some("/d.json".to_string()));
}

#[test]
fn theme_names_round_trip() {
    for m in [ThemeMode::Light, ThemeMode::Dark, ThemeMode::System] {
        assert_eq!(ThemeMode::from_name(&m.name()), m);
    }
    assert_eq!(ThemeMode::from_name("Solarized"), ThemeMode::Light);
    assert_eq!(ThemeMode::Dark.name(), "Dark");
    assert_eq!(ThemeMode::default(), ThemeMode::System);
}
