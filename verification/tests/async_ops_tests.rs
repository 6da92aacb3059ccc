use file_manager::async_ops::{
    batch_step, AsyncOperation, AsyncOperationBuilder, AsyncResult, FileInfo, FileMetadata,
};
use file_manager::file_entry::EntryType;
use std::time::Duration;

#[test]
fn test_async_result() {
    let success_result = AsyncResult::Success(42);
    assert!(success_result.is_success());
    assert_eq!(success_result.unwrap(), 42);

    let error_result: AsyncResult<i32> = AsyncResult::Error("test error".to_string());
    assert!(error_result.is_error());
    assert_eq!(error_result.unwrap_or(0), 0);

    let timeout_result: AsyncResult<i32> = AsyncResult::Timeout;
    assert_eq!(timeout_result.unwrap_or(42), 42);
}

#[test]
fn cancelled_result_is_neither_success_nor_error() {
    let r: AsyncResult<u8> = AsyncResult::Cancelled;
    assert!(!r.is_success());
    assert!(!r.is_error());
    assert_eq!(r.unwrap_or(7), 7);
}

#[test]
fn builder_collects_operations_in_order() {
    let b = AsyncOperationBuilder::new()
        .with_timeout(Duration::from_secs(5))
        .check_path_exists("/a")
        .get_file_info("/b")
        .read_directory("/c")
        .create_directory("/d")
        .delete("/e")
        .copy("/f", "/g")
        .move_path("/h", "/i");
    assert_eq!(b.operations.len(), 7);
    assert_eq!(b.timeout, Some(Duration::from_secs(5)));
    assert!(matches!(&b.operations[0], AsyncOperation::PathExists(p) if p == "/a"));
    assert!(matches!(&b.operations[1], AsyncOperation::GetFileInfo(p) if p == "/b"));
    assert!(matches!(&b.operations[2], AsyncOperation::ReadDirectory(p) if p == "/c"));
    assert!(matches!(&b.operations[3], AsyncOperation::CreateDirectory(p) if p == "/d"));
    assert!(matches!(&b.operations[4], AsyncOperation::Delete(p) if p == "/e"));
    assert!(matches!(&b.operations[5], AsyncOperation::Copy(s, d) if s == "/f" && d == "/g"));
    assert!(matches!(&b.operations[6], AsyncOperation::Move(s, d) if s == "/h" && d == "/i"));
}

#[test]
fn single_operation_needs_exactly_one() {
    let one = AsyncOperationBuilder::new().check_path_exists("/tmp");
    match one.single_operation() {
        Ok((AsyncOperation::PathExists(p), None)) => assert_eq!(p, "/tmp"),
        _ => panic!("expected the one operation"),
    }
    let none = AsyncOperationBuilder::default();
    assert_eq!(
        none.single_operation().err(),
        Some("构建单个操作时必须只有一个操作".to_string())
    );
    let two = AsyncOperationBuilder::new().delete("/a").delete("/b");
    assert!(two.single_operation().is_err());
}

#[test]
fn batch_operation_needs_some() {
    let b = AsyncOperationBuilder::new()
        .with_timeout(Duration::from_millis(10))
        .delete("/a")
        .delete("/b");
    match b.batch_operation() {
        Ok((AsyncOperation::Batch(ops), t)) => {
            assert_eq!(ops.len(), 2);
            assert_eq!(t, Some(Duration::from_millis(10)));
        }
        _ => panic!("expected a batch"),
    }
    assert_eq!(
        AsyncOperationBuilder::new().batch_operation().err(),
        Some("批量操作不能为空".to_string())
    );
}

#[test]
fn batch_steps_collect_until_failure() {
    let mut values: Vec<u32> = Vec::new();
    assert!(batch_step(&mut values, AsyncResult::Success(1)).is_none());
    assert!(batch_step(&mut values, AsyncResult::Success(2)).is_none());
    assert_eq!(values, vec![1, 2]);
    match batch_step(&mut values, AsyncResult::Error("磁盘已满".to_string())) {
        Some(AsyncResult::Error(e)) => assert_eq!(e, "批量操作失败: 磁盘已满"),
        _ => panic!("expected an error"),
    }
    match batch_step(&mut values, AsyncResult::Timeout) {
        Some(AsyncResult::Error(e)) => assert_eq!(e, "批量操作中的子操作超时"),
        _ => panic!("expected an error"),
    }
    match batch_step(&mut values, AsyncResult::Cancelled) {
        Some(AsyncResult::Error(e)) => assert_eq!(e, "批量操作中的子操作被取消"),
        _ => panic!("expected an error"),
    }
    assert_eq!(values, vec![1, 2]);
}

#[test]
fn file_info_from_metadata_reads_name_and_extension() {
    let meta = FileMetadata {
        size: 12,
        is_directory: false,
        is_file: true,
        modified: None,
        created: None,
        readonly: false,
    };
    let info = FileInfo::from_metadata("/tmp/dir/test.txt".to_string(), meta);
    assert_eq!(info.name, "test.txt");
    assert_eq!(info.extension, Some("txt".to_string()));
    assert_eq!(info.size, 12);
    assert!(info.is_file);
    let entry = info.to_file_entry();
    assert_eq!(entry.path, "/tmp/dir/test.txt");
    assert_eq!(entry.name, "test.txt");
    assert_eq!(entry.entry_type, EntryType::File);
    assert!(entry.tags.is_empty());
}

#[test]
fn file_info_of_a_folder_without_extension() {
    let meta = FileMetadata {
        size: 0,
        is_directory: true,
        is_file: false,
        modified: None,
        created: None,
        readonly: true,
    };
    let info = FileInfo::from_metadata("/srv/data".to_string(), meta);
    assert_eq!(info.name, "data");
    assert_eq!(info.extension, None);
    assert!(info.readonly);
    assert_eq!(info.to_file_entry().entry_type, EntryType::Directory);
    let root = FileInfo::from_metadata(
        "/".to_string(),
        FileMetadata {
            size: 0,
            is_directory: true,
            is_file: false,
            modified: None,
            created: None,
            readonly: false,
        },
    );
    assert_eq!(root.name, "");
}
