use file_manager::file_entry::{EntryType, FileEntry};

#[test]
fn test_id_system_test_entry_id_generation() {
    let entry = FileEntry::new(
        "/test/path".to_string(),
        "Test Entry".to_string(),
        Some("Test description".to_string()),
        vec!["#tag1".to_string(), "#tag2".to_string()],
        false,
    );
    assert!(!entry.id.is_empty());
    assert_ne!(entry.id, "");
    let entry2 = FileEntry::new(
        "/test/path2".to_string(),
        "Test Entry 2".to_string(),
        None,
        vec![],
        false,
    );
    assert_ne!(entry.id, entry2.id);
}

#[test]
fn test_id_system_test_collection_with_id_system() {
    let file1 = FileEntry::new(
        "/test/file1.txt".to_string(),
        "File 1".to_string(),
        None,
        vec![],
        false,
    );
    let file2 = FileEntry::new(
        "/test/file2.txt".to_string(),
        "File 2".to_string(),
        None,
        vec![],
        false,
    );
    let child_ids = vec![file1.id.clone(), file2.id.clone()];
    let collection = FileEntry::new_collection(
        "Test Collection".to_string(),
        None,
        Some("A test collection".to_string()),
        vec!["#collection".to_string()],
        child_ids.clone(),
    );
    assert_eq!(collection.child_entries.len(), 2);
    assert!(collection.child_entries.contains(&file1.id));
    assert!(collection.child_entries.contains(&file2.id));
    assert_eq!(collection.entry_type, EntryType::Collection);
}

#[test]
fn test_id_system_test_legacy_migration() {
    let mut old_collection = FileEntry {
        path: "collection://Test".to_string(),
        name: "Test Collection".to_string(),
        nickname: None,
        description: None,
        tags: vec![],
        entry_type: EntryType::Collection,
        url: None,
        child_entries: vec!["0".to_string(), "1".to_string()],
        is_directory: false,
        id: "".to_string(),
        legacy_child_entries: vec![],
    };
    old_collection = old_collection.migrate_from_old();
    assert!(!old_collection.id.is_empty());
    assert!(old_collection.has_legacy_child_entries());
    assert_eq!(old_collection.get_legacy_child_entries(), &vec![0, 1]);
    assert!(old_collection.child_entries.is_empty());
}

#[test]
fn test_id_system_test_add_remove_child_entries_by_id() {
    let mut collection =
        FileEntry::new_collection("Test Collection".to_string(), None, None, vec![], vec![]);
    let test_id = "test-child-id-123".to_string();
    collection.add_child_entry(&test_id);
    assert!(collection.child_entries.contains(&test_id));
    assert_eq!(collection.child_entries.len(), 1);
    collection.add_child_entry(&test_id);
    assert_eq!(collection.child_entries.len(), 1);
    collection.remove_child_entry(&test_id);
    assert!(!collection.child_entries.contains(&test_id));
    assert_eq!(collection.child_entries.len(), 0);
}

#[test]
fn test_id_system_test_id_system_prevents_reference_errors() {
    let mut entries = vec![
        FileEntry::new("/file1".to_string(), "File 1".to_string(), None, vec![], false),
        FileEntry::new("/file2".to_string(), "File 2".to_string(), None, vec![], false),
        FileEntry::new("/file3".to_string(), "File 3".to_string(), None, vec![], false),
    ];
    let child_ids: Vec<String> = entries.iter().map(|e| e.id.clone()).collect();
    let collection = FileEntry::new_collection(
        "All Files".to_string(),
        None,
        None,
        vec![],
        child_ids.clone(),
    );
    entries.push(collection);
    let collection_ref = &entries[3];
    assert_eq!(collection_ref.child_entries.len(), 3);
    for entry in entries[0..3].iter() {
        assert!(collection_ref.child_entries.contains(&entry.id));
    }
    let removed_id = entries[1].id.clone();
    let remaining_file1_id = entries[0].id.clone();
    let remaining_file3_id = entries[2].id.clone();
    entries.remove(1);
    let collection_mut = &mut entries[2];
    collection_mut.child_entries.retain(|id| id != &removed_id);
    assert_eq!(collection_mut.child_entries.len(), 2);
    assert!(!collection_mut.child_entries.contains(&removed_id));
    assert!(collection_mut.child_entries.contains(&remaining_file1_id));
    assert!(collection_mut.child_entries.contains(&remaining_file3_id));
    let child_entries_clone = collection_mut.child_entries.clone();
    for child_id in &child_entries_clone {
        let found = entries.iter().find(|e| &e.id == child_id);
        assert!(found.is_some(), "应该能通过ID找到对应的文件");
    }
}

#[test]
fn test_id_system_test_web_link_entry_has_id() {
    let web_entry = FileEntry::new_web_link(
        "Test Website".to_string(),
        "https://example.com".to_string(),
        Some("Example".to_string()),
        Some("A test website".to_string()),
        vec!["#web".to_string()],
    );
    assert!(!web_entry.id.is_empty());
    assert_eq!(web_entry.entry_type, EntryType::WebLink);
    assert_eq!(web_entry.url, Some("https://example.com".to_string()));
}
