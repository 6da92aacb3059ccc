use file_manager::app::{FileManagerApp, OpenTarget};
use file_manager::config::{AppConfig, UserData};
use file_manager::file_entry::{EntryType, FileEntry};
use file_manager::theme::ThemeMode;

fn entry(path: &str, name: &str, tags: &[&str]) -> FileEntry {
    FileEntry::new(
        path.to_string(),
        name.to_string(),
        None,
        tags.iter().map(|t| t.to_string()).collect(),
        false,
    )
}

fn app_with(entries: Vec<FileEntry>) -> FileManagerApp {
    FileManagerApp::new(
        AppConfig::default(),
        UserData { entries, version: "0.3.1".to_string() },
    )
}

fn sample() -> FileManagerApp {
    app_with(vec![
        entry("/docs/meeting.txt", "会议记录", &["#工作"]),
        entry("/docs/plan.txt", "项目计划", &["#工作", "#重要"]),
        entry("/code", "github", &["#开发"]),
        entry("/tmp/urgent.txt", "待办", &["#重要", "#紧急"]),
    ])
}

fn search(app: &mut FileManagerApp, q: &str) -> Vec<usize> {
    app.search_query = q.to_string();
    app.update_filter();
    app.filtered_indices().clone()
}

#[test]
fn new_shows_every_entry_and_collects_tags() {
    let app = sample();
    assert_eq!(app.filtered_indices(), &vec![0, 1, 2, 3]);
    assert_eq!(
        app.all_tags(),
        &vec!["#工作".to_string(), "#开发".to_string(), "#紧急".to_string(), "#重要".to_string()]
    );
    assert!(app.compact_mode);
    assert!(app.import_merge_mode);
    assert_eq!(app.theme_mode, ThemeMode::Light);
    assert!(!app.any_panel_open());
}

#[test]
fn new_restores_theme_and_data_path() {
    let config = AppConfig {
        theme_mode: "Dark".to_string(),
        data_file_path: Some("/data/file.json".to_string()),
        compact_mode: false,
    };
    let app = FileManagerApp::new(config, UserData::default());
    assert_eq!(app.theme_mode, ThemeMode::Dark);
    assert_eq!(app.custom_data_path, "/data/file.json");
    assert!(app.compact_mode);
    assert!(app.filtered_indices().is_empty());
}

#[test]
fn search_by_tag_and_name() {
    let mut app = sample();
    assert_eq!(search(&mut app, "#工作"), vec![0, 1]);
    assert_eq!(search(&mut app, "项目"), vec![1]);
    assert_eq!(search(&mut app, "#工作 会议"), vec![0]);
    assert_eq!(search(&mut app, "#重要 #紧急"), vec![3]);
    assert_eq!(search(&mut app, "GITHUB"), vec![2]);
    assert_eq!(search(&mut app, "nothing"), Vec::<usize>::new());
}

#[test]
fn empty_search_shows_all_again() {
    let mut app = sample();
    assert_eq!(search(&mut app, "#工作"), vec![0, 1]);
    assert_eq!(search(&mut app, ""), vec![0, 1, 2, 3]);
}

#[test]
fn search_by_pinyin_initials_and_full_pinyin() {
    let mut e1 = entry("/p", "folder", &[]);
    e1.nickname = Some("我的项目".to_string());
    let mut e2 = entry("/q", "other", &[]);
    e2.nickname = Some("我是谁".to_string());
    let mut app = app_with(vec![e1, e2]);
    assert_eq!(search(&mut app, "wdxm"), vec![0]);
    assert_eq!(search(&mut app, "woshi"), vec![1]);
    assert_eq!(search(&mut app, "WDXM"), vec![0]);
}

#[test]
fn search_changed_tracks_the_box() {
    let mut app = sample();
    assert!(!app.search_changed());
    app.search_query = "x".to_string();
    assert!(app.search_changed());
    app.update_filter();
    assert!(!app.search_changed());
}

#[test]
fn matches_search_query_uses_the_box() {
    let mut app = sample();
    app.search_query = "#紧急".to_string();
    let e = entry("/a", "a", &["#紧急"]);
    let f = entry("/b", "b", &["#其他"]);
    assert!(app.matches_search_query(&e));
    assert!(!app.matches_search_query(&f));
}

#[test]
fn toggle_panel_opens_only_the_named_one() {
    let mut app = sample();
    app.toggle_panel("settings");
    assert!(app.show_settings);
    assert!(!app.show_add_dialog);
    app.toggle_panel("add_dialog");
    assert!(app.show_add_dialog);
    assert!(!app.show_settings);
    assert!(app.any_panel_open());
    app.toggle_panel("unknown");
    assert!(!app.any_panel_open());
    app.toggle_panel("tag_manager");
    app.close_panels();
    assert!(!app.any_panel_open());
}

#[test]
fn add_file_entry_takes_name_from_path_and_parses_tags() {
    let mut app = sample();
    app.add_path_input = "/home/user/report.pdf".to_string();
    app.add_tags_input = "b #a,c".to_string();
    app.add_nickname_input = "报告".to_string();
    app.show_add_dialog = true;
    assert!(app.add_entry(false));
    let e = app.entries().last().unwrap();
    assert_eq!(e.name, "report.pdf");
    assert_eq!(e.path, "/home/user/report.pdf");
    assert_eq!(e.tags, vec!["#a".to_string(), "#b".to_string(), "#c".to_string()]);
    assert_eq!(e.nickname, Some("报告".to_string()));
    assert_eq!(e.description, None);
    assert_eq!(e.entry_type, EntryType::File);
    assert_eq!(e.id.len(), 36);
    assert!(app.add_path_input.is_empty() && app.add_tags_input.is_empty());
    assert!(!app.show_add_dialog);
    assert_eq!(app.filtered_indices().len(), 5);
    assert!(app.all_tags().contains(&"#a".to_string()));
}

#[test]
fn add_folder_entry() {
    let mut app = sample();
    app.add_path_input = "/srv/data".to_string();
    app.add_entry_type = EntryType::Directory;
    assert!(app.add_entry(false));
    let e = app.entries().last().unwrap();
    assert_eq!(e.entry_type, EntryType::Directory);
    assert!(e.is_directory);
    assert_eq!(app.add_entry_type, EntryType::File);

    app.add_path_input = "/srv/other".to_string();
    assert!(app.add_entry(true));
    assert_eq!(app.entries().last().unwrap().entry_type, EntryType::Directory);
}

#[test]
fn add_entry_without_last_component_is_unnamed() {
    let mut app = sample();
    app.add_path_input = "/".to_string();
    assert!(app.add_entry(false));
    assert_eq!(app.entries().last().unwrap().name, "未命名");
}

#[test]
fn add_web_link_takes_site_name() {
    let mut app = sample();
    app.add_entry_type = EntryType::WebLink;
    app.add_path_input = "https://www.example.com/page".to_string();
    assert!(app.can_add());
    assert!(app.add_entry(false));
    let e = app.entries().last().unwrap();
    assert_eq!(e.name, "example.com");
    assert_eq!(e.url, Some("https://www.example.com/page".to_string()));
    assert_eq!(e.path, "https://www.example.com/page");
    assert_eq!(e.entry_type, EntryType::WebLink);
    assert!(!e.is_directory);
}

#[test]
fn add_entry_with_empty_path_does_nothing() {
    let mut app = sample();
    app.add_name_input = "x".to_string();
    assert!(!app.can_add());
    assert!(!app.add_entry(false));
    assert_eq!(app.entries().len(), 4);
    assert_eq!(app.add_name_input, "x");
}

#[test]
fn remove_entry_undoes_add() {
    let mut app = sample();
    let before: Vec<String> = app.entries().iter().map(|e| e.id.clone()).collect();
    app.add_path_input = "/x/y".to_string();
    app.add_tags_input = "#new".to_string();
    assert!(app.add_entry(false));
    assert!(app.remove_entry(4));
    let after: Vec<String> = app.entries().iter().map(|e| e.id.clone()).collect();
    assert_eq!(before, after);
    assert!(!app.all_tags().contains(&"#new".to_string()));
    assert!(!app.remove_entry(10));
}

#[test]
fn remove_entry_drops_unused_tags() {
    let mut app = sample();
    assert!(app.remove_entry(2));
    assert!(!app.all_tags().contains(&"#开发".to_string()));
    assert_eq!(app.filtered_indices(), &vec![0, 1, 2]);
}

#[test]
fn edit_then_save_keeps_tags() {
    let mut app = sample();
    app.edit_entry_tags(1);
    assert!(app.show_tag_editor);
    assert_eq!(app.editing_entry_index, Some(1));
    assert_eq!(app.add_tags_input, "#工作 #重要");
    assert_eq!(app.add_nickname_input, "");
    assert!(app.save_entry_edit());
    assert_eq!(
        app.entries()[1].tags,
        vec!["#工作".to_string(), "#重要".to_string()]
    );
    assert!(!app.show_tag_editor);
    assert_eq!(app.editing_entry_index, None);
}

#[test]
fn save_entry_edit_changes_tags_nickname_description() {
    let mut app = sample();
    app.edit_entry_tags(0);
    app.add_tags_input = "#新 旧".to_string();
    app.add_nickname_input = "会".to_string();
    app.add_description_input = "每周".to_string();
    assert!(app.save_entry_edit());
    let e = &app.entries()[0];
    assert_eq!(e.tags, vec!["#新".to_string(), "#旧".to_string()]);
    assert_eq!(e.nickname, Some("会".to_string()));
    assert_eq!(e.description, Some("每周".to_string()));
    assert_eq!(e.name, "会议记录");
    assert!(app.add_tags_input.is_empty());
    assert!(app.add_description_input.is_empty());
    assert_eq!(app.add_nickname_input, "会");
    assert!(app.all_tags().contains(&"#新".to_string()));
}

#[test]
fn save_entry_edit_without_entry_only_closes() {
    let mut app = sample();
    app.show_tag_editor = true;
    app.add_tags_input = "#x".to_string();
    assert!(!app.save_entry_edit());
    assert!(!app.show_tag_editor);
    assert!(app.add_tags_input.is_empty());
    app.edit_entry_tags(99);
    assert_eq!(app.editing_entry_index, None);
}

#[test]
fn cancel_edit_and_add_clear_inputs() {
    let mut app = sample();
    app.edit_entry_tags(0);
    app.cancel_tag_edit();
    assert!(!app.show_tag_editor);
    assert!(app.add_tags_input.is_empty());
    app.add_path_input = "/p".to_string();
    app.add_entry_type = EntryType::WebLink;
    app.show_add_dialog = true;
    app.cancel_add();
    assert!(app.add_path_input.is_empty());
    assert_eq!(app.add_entry_type, EntryType::File);
    assert!(!app.show_add_dialog);
}

#[test]
fn batch_add_tags_to_shown_entries() {
    let mut app = sample();
    search(&mut app, "#工作");
    let n = app.batch_add_tags("#重要");
    assert_eq!(n, 1);
    assert_eq!(
        app.entries()[0].tags,
        vec!["#工作".to_string(), "#重要".to_string()]
    );
    assert_eq!(app.entries()[2].tags, vec!["#开发".to_string()]);
    assert_eq!(app.batch_add_tags("#重要"), 0);
    assert_eq!(app.batch_add_tags(""), 0);
}

#[test]
fn batch_remove_tags_from_shown_entries() {
    let mut app = sample();
    search(&mut app, "#重要");
    let n = app.batch_remove_tags("重要");
    assert_eq!(n, 2);
    assert_eq!(app.entries()[1].tags, vec!["#工作".to_string()]);
    assert_eq!(app.entries()[3].tags, vec!["#紧急".to_string()]);
    assert!(!app.all_tags().contains(&"#重要".to_string()));
    assert_eq!(app.filtered_indices(), &Vec::<usize>::new());
    assert_eq!(app.batch_remove_tags("#重要"), 0);
}

#[test]
fn tag_usage_stats_most_used_first() {
    let app = sample();
    let stats = app.get_tag_usage_stats();
    assert_eq!(
        stats,
        vec![
            ("#工作".to_string(), 2),
            ("#重要".to_string(), 2),
            ("#开发".to_string(), 1),
            ("#紧急".to_string(), 1),
        ]
    );
}

#[test]
fn tag_suggestions_filter_and_limit() {
    let app = app_with(vec![entry(
        "/a",
        "a",
        &["#work", "#Workshop", "#world", "#w1", "#w2", "#w3", "#w4", "#other"],
    )]);
    assert_eq!(
        app.tag_suggestions("WOR"),
        vec!["#Workshop".to_string(), "#work".to_string(), "#world".to_string()]
    );
    assert_eq!(app.tag_suggestions("w").len(), 6);
    assert_eq!(app.tag_suggestions("#work"), vec!["#Workshop".to_string()]);
    assert!(app.tag_suggestions("").is_empty());
}

#[test]
fn accept_tag_suggestion_appends_once() {
    let mut app = sample();
    app.accept_tag_suggestion("#a");
    assert_eq!(app.add_tags_input, "#a");
    app.accept_tag_suggestion("#b");
    assert_eq!(app.add_tags_input, "#a #b");
    app.accept_tag_suggestion("#a");
    assert_eq!(app.add_tags_input, "#a #b");
}

#[test]
fn add_tag_to_search_is_idempotent() {
    let mut app = sample();
    assert!(app.add_tag_to_search("工作"));
    assert_eq!(app.search_query, "#工作");
    assert!(app.add_tag_to_search("#重要"));
    assert_eq!(app.search_query, "#工作 #重要");
    assert_eq!(app.filtered_indices(), &vec![1]);
    assert!(!app.add_tag_to_search("#重要"));
    assert_eq!(app.search_query, "#工作 #重要");
}

#[test]
fn search_for_tag_strips_leading_hashes() {
    let mut app = sample();
    app.search_for_tag("##开发");
    assert_eq!(app.search_query, "#开发");
    assert_eq!(app.filtered_indices(), &vec![2]);
}

#[test]
fn selected_tags_filter() {
    let mut app = sample();
    app.set_tag_selected("#重要", true);
    app.set_tag_selected("#工作", true);
    app.set_tag_selected("#工作", true);
    assert!(app.is_tag_selected(&"#工作".to_string()));
    app.filter_by_selected_tags();
    assert_eq!(app.search_query, "#工作 #重要");
    assert_eq!(app.filtered_indices(), &vec![1]);
    app.set_tag_selected("#工作", false);
    assert!(!app.is_tag_selected(&"#工作".to_string()));
    app.clear_selected_tags();
    assert!(!app.is_tag_selected(&"#重要".to_string()));
    app.filter_by_selected_tags();
    assert_eq!(app.search_query, "");
    assert_eq!(app.filtered_indices().len(), 4);
}

#[test]
fn tag_cloud_filter() {
    let mut app = sample();
    assert!(app.tag_cloud_shows("#Anything"));
    app.tag_cloud_filter = "WO".to_string();
    assert!(app.tag_cloud_shows("#work"));
    assert!(!app.tag_cloud_shows("#play"));
}

#[test]
fn import_merge_skips_equal_paths() {
    let mut app = sample();
    let imported = vec![
        entry("/docs/meeting.txt/", "dup", &[]),
        entry("/new/one", "one", &["#导入"]),
        entry("/new/one", "again", &[]),
    ];
    assert_eq!(app.import_entries(imported), 3);
    assert_eq!(app.entries().len(), 5);
    assert_eq!(app.entries()[4].name, "one");
    assert!(app.all_tags().contains(&"#导入".to_string()));
    assert_eq!(app.filtered_indices().len(), 5);
}

#[test]
fn import_replace_mode() {
    let mut app = sample();
    app.import_merge_mode = false;
    let imported = vec![entry("/only", "only", &["#x"])];
    assert_eq!(app.import_entries(imported), 1);
    assert_eq!(app.entries().len(), 1);
    assert_eq!(app.all_tags(), &vec!["#x".to_string()]);
}

#[test]
fn valid_urls() {
    let app = sample();
    assert!(app.is_valid_url("https://www.example.com"));
    assert!(app.is_valid_url("http://example.com/path"));
    assert!(app.is_valid_url("ftp://files.org"));
    assert!(!app.is_valid_url(""));
    assert!(!app.is_valid_url("www.example.com"));
    assert!(!app.is_valid_url("https://"));
    assert!(!app.is_valid_url("https:///path"));
    assert!(!app.is_valid_url("http://localhost"));
    assert!(!app.is_valid_url("ftp://a.b"));
    assert!(app.is_valid_url("https://例.中"));
}

#[test]
fn site_names() {
    let app = sample();
    assert_eq!(app.extract_site_name("https://www.github.com/user/repo"), "github.com");
    assert_eq!(app.extract_site_name("https://docs.rs"), "docs.rs");
    assert_eq!(app.extract_site_name("www.example.com"), "www.example.com");
    assert_eq!(app.extract_site_name("a://www."), "");
}

#[test]
fn url_input_fills_empty_name() {
    let mut app = sample();
    app.add_path_input = "https://www.google.com".to_string();
    app.url_input_changed();
    assert_eq!(app.add_name_input, "google.com");
    app.add_path_input = "https://www.bing.com".to_string();
    app.url_input_changed();
    assert_eq!(app.add_name_input, "google.com");
    let mut other = sample();
    other.add_path_input = "not a url".to_string();
    other.url_input_changed();
    assert_eq!(other.add_name_input, "");
}

#[test]
fn open_targets() {
    let mut app = sample();
    app.add_entry_type = EntryType::WebLink;
    app.add_path_input = "https://example.com".to_string();
    app.add_entry(false);
    match app.open_target(0) {
        Some(OpenTarget::Path(p)) => assert_eq!(p, "/docs/meeting.txt"),
        _ => panic!("expected a path"),
    }
    match app.open_target(4) {
        Some(OpenTarget::Url(u)) => assert_eq!(u, "https://example.com"),
        _ => panic!("expected a url"),
    }
    assert!(app.open_target(5).is_none());
}

#[test]
fn expand_and_collapse_rows() {
    let mut app = sample();
    assert!(!app.is_expanded(1));
    app.expand_entry(1);
    assert!(app.is_expanded(1));
    app.collapse_entry(1);
    assert!(!app.is_expanded(1));
}

#[test]
fn dropped_paths_are_added() {
    let mut app = sample();
    app.add_dropped_path("/x/dropped.txt".to_string(), false);
    app.add_dropped_path("/x/folder".to_string(), true);
    let n = app.entries().len();
    assert_eq!(app.entries()[n - 2].name, "dropped.txt");
    assert_eq!(app.entries()[n - 1].entry_type, EntryType::Directory);
    assert!(app.entries()[n - 1].tags.is_empty());
    assert_eq!(app.filtered_indices().len(), 6);
}

#[test]
fn clear_all_entries_empties_everything() {
    let mut app = sample();
    app.clear_all_entries();
    assert!(app.entries().is_empty());
    assert!(app.all_tags().is_empty());
    assert!(app.filtered_indices().is_empty());
}

#[test]
fn sync_config_writes_theme_and_mode() {
    let mut app = sample();
    app.theme_mode = ThemeMode::System;
    app.compact_mode = false;
    app.sync_config();
    assert_eq!(app.config.theme_mode, "System");
    assert!(!app.config.compact_mode);
    let again = FileManagerApp::new(app.config, UserData::default());
    assert_eq!(again.theme_mode, ThemeMode::System);
}

#[test]
fn edit_then_save_keeps_nickname_and_description() {
    let mut e = entry("/n", "n", &["#b", "#a"]);
    e.tags = vec!["#a".to_string(), "#b".to_string()];
    e.nickname = Some("昵称".to_string());
    e.description = Some("说明".to_string());
    let mut app = app_with(vec![e]);
    app.edit_entry_tags(0);
    assert_eq!(app.add_nickname_input, "昵称");
    assert_eq!(app.add_description_input, "说明");
    assert!(app.save_entry_edit());
    let saved = &app.entries()[0];
    assert_eq!(saved.tags, vec!["#a".to_string(), "#b".to_string()]);
    assert_eq!(saved.nickname, Some("昵称".to_string()));
    assert_eq!(saved.description, Some("说明".to_string()));
}
