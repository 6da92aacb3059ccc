use file_manager::file_entry::{EntryType, FileEntry};

fn named(name: &str) -> FileEntry {
    FileEntry::new("/x".to_string(), name.to_string(), None, vec![], false)
}

#[test]
fn parse_tags_sorts_and_removes_repeats() {
    assert_eq!(
        FileEntry::parse_tags("#重要 工作,#重要  , #a"),
        vec!["#a".to_string(), "#工作".to_string(), "#重要".to_string()]
    );
    assert!(FileEntry::parse_tags("").is_empty());
    assert!(FileEntry::parse_tags(" # , ,").is_empty());
    assert_eq!(FileEntry::parse_tags("##x"), vec!["##x".to_string()]);
}

#[test]
fn tag_categories_keep_hash_tags_in_order() {
    let mut e = named("n");
    e.tags = vec!["#b".to_string(), "plain".to_string(), "#a".to_string()];
    let (hash, path) = e.get_tag_categories();
    assert_eq!(hash, vec!["#b".to_string(), "#a".to_string()]);
    assert!(path.is_empty());
}

#[test]
fn matches_query_on_every_field() {
    let mut e = named("Report");
    assert!(e.matches_query(""));
    assert!(e.matches_query("rep"));
    assert!(e.matches_query("REPORT"));
    assert!(!e.matches_query("xyz"));
    e.nickname = Some("季度".to_string());
    assert!(e.matches_query("jidu"));
    assert!(e.matches_query("JD"));
    e.tags = vec!["#Finance".to_string()];
    assert!(e.matches_query("finance"));
    e.description = Some("年度总结".to_string());
    assert!(e.matches_query("ndzj"));
    assert!(e.matches_query("总结"));
}

#[test]
fn migration_of_a_directory_without_id() {
    let mut e = named("dir");
    e.id = String::new();
    e.is_directory = true;
    e.entry_type = EntryType::File;
    let m = e.migrate_from_old();
    assert_eq!(m.entry_type, EntryType::Directory);
    assert_eq!(m.id.len(), 36);
}

#[test]
fn migration_keeps_ids_and_non_numeric_children() {
    let mut e = named("c");
    e.entry_type = EntryType::Collection;
    let id = e.id.clone();
    e.child_entries = vec!["abc".to_string()];
    let m = e.migrate_from_old();
    assert_eq!(m.id, id);
    assert_eq!(m.child_entries, vec!["abc".to_string()]);
    assert!(!m.has_legacy_child_entries());
}

#[test]
fn migration_reads_only_numeric_children() {
    let mut e = named("c");
    e.child_entries = vec!["3".to_string(), "x".to_string(), "12".to_string()];
    let mut m = e.migrate_from_old();
    assert_eq!(m.get_legacy_child_entries(), &vec![3, 12]);
    assert!(m.get_child_entries().is_empty());
    m.clear_legacy_child_entries();
    assert!(!m.has_legacy_child_entries());
}

#[test]
fn collection_path_and_children() {
    let mut c = FileEntry::new_collection(
        "工作".to_string(),
        Some("w".to_string()),
        None,
        vec![],
        vec!["a".to_string()],
    );
    assert_eq!(c.path, "collection://工作");
    c.add_child_entry("b");
    c.add_child_entry("a");
    assert_eq!(c.get_child_entries(), &vec!["a".to_string(), "b".to_string()]);
    c.remove_child_entry("a");
    assert_eq!(c.get_child_entries(), &vec!["b".to_string()]);
}

#[test]
fn new_with_nickname_and_duplicate() {
    let e = FileEntry::new_with_nickname(
        "/d".to_string(),
        "d".to_string(),
        Some("nick".to_string()),
        Some("desc".to_string()),
        vec!["#t".to_string()],
        true,
    );
    assert_eq!(e.entry_type, EntryType::Directory);
    assert_eq!(e.nickname, Some("nick".to_string()));
    let d = e.duplicate();
    assert_eq!(d.id, e.id);
    assert_eq!(d.tags, e.tags);
    assert_eq!(d.path, e.path);
}

use file_manager::tag_lists::join_with_spaces;

#[test]
fn parsed_tags_written_back_read_the_same() {
    let tags = FileEntry::parse_tags("b #a,c 工作");
    let text = join_with_spaces(&tags);
    assert_eq!(text, "#a #b #c #工作");
    assert_eq!(FileEntry::parse_tags(&text), tags);
}

#[test]
fn parse_tags_order_of_input_does_not_matter() {
    assert_eq!(FileEntry::parse_tags("z y x"), FileEntry::parse_tags("x,y,z"));
}

#[test]
fn migrating_twice_changes_nothing_more() {
    let mut e = named("c");
    e.id = String::new();
    e.child_entries = vec!["1".to_string(), "2".to_string()];
    let once = e.migrate_from_old();
    let id = once.id.clone();
    let twice = once.clone().migrate_from_old();
    assert_eq!(twice.id, id);
    assert_eq!(twice.legacy_child_entries, vec![1, 2]);
    assert!(twice.child_entries.is_empty());
    assert_eq!(twice.entry_type, once.entry_type);
}

#[test]
fn mixed_nickname_is_found_by_its_full_pinyin() {
    let e = FileEntry::new_with_nickname(
        "/p".to_string(),
        "项目资料".to_string(),
        Some("A项目文档".to_string()),
        None,
        vec!["#工作".to_string()],
        true,
    );
    assert!(e.matches_query("axiang"));
    assert!(e.matches_query("axiangmuwendang"));
    assert!(e.matches_query("AXMWD"));
    assert!(!e.matches_query("bxiang"));
}

#[test]
fn web_link_is_found_by_its_url() {
    let w = FileEntry::new_web_link(
        "GitHub".to_string(),
        "https://www.github.com".to_string(),
        None,
        None,
        vec![],
    );
    assert!(w.matches_query("github.com"));
    assert!(w.matches_query("WWW.GITHUB"));
    assert!(!w.matches_query("gitlab"));
}

#[test]
fn plain_text_is_searched_by_substring_only() {
    let mut e = named("Meeting Notes 20241201");
    e.description = Some("weekly".to_string());
    assert!(e.matches_query("notes 2024"));
    assert!(e.matches_query("WEEK"));
    assert!(!e.matches_query("mn"));
    assert!(!e.matches_query("/x"));
}
