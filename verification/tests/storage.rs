use ftp_server::storage::{FsErrorKind, MemStorage};

fn stored(path: &str, content: &[u8]) -> MemStorage {
    let mut storage = MemStorage::new();
    storage.put(path, Ok(content.to_vec())).unwrap();
    storage
}

#[test]
fn metadata_reports_default_accessors() {
    let storage = stored("x.txt", b"x");

    let meta = storage.metadata("x.txt").unwrap();
    assert!(!meta.is_symlink());
    assert!(meta.modified().is_ok());
    assert_eq!(meta.gid(), 0);
    assert_eq!(meta.uid(), 0);
}

#[test]
fn put_propagates_a_read_error() {
    let mut storage = MemStorage::new();
    let err = storage
        .put("x.txt", Err("simulated read failure".to_string()))
        .err()
        .unwrap();
    assert_eq!(err.kind, FsErrorKind::LocalError);
    assert_eq!(err.message, "simulated read failure");
    assert!(storage.file_names().is_empty());
}

#[test]
fn metadata_of_root_is_an_empty_directory() {
    let storage = MemStorage::new();
    let meta = storage.metadata("/").unwrap();
    assert!(meta.is_dir());
    assert_eq!(meta.len(), 0);
}

#[test]
fn metadata_of_unknown_file_errors() {
    let storage = MemStorage::new();
    let err = storage.metadata("missing.txt").unwrap_err();
    assert_eq!(err.kind, FsErrorKind::PermanentFileNotAvailable);
    assert_eq!(err.message, "File not found");
}

#[test]
fn metadata_of_known_file_reports_its_size() {
    let storage = stored("hello.txt", b"hello");

    let meta = storage.metadata("hello.txt").unwrap();
    assert!(meta.is_file());
    assert_eq!(meta.len(), 5);
}

#[test]
fn put_then_get_round_trips_file_content() {
    let mut storage = MemStorage::new();
    let size = storage.put("hello.txt", Ok(b"hello world".to_vec())).unwrap();
    assert_eq!(size, 11);

    assert_eq!(storage.get("hello.txt", 0).unwrap(), b"hello world");
}

#[test]
fn get_honours_start_pos() {
    let storage = stored("hello.txt", b"hello world");
    assert_eq!(storage.get("hello.txt", 6).unwrap(), b"world");
}

#[test]
fn get_past_the_end_gives_nothing() {
    let storage = stored("hello.txt", b"hello world");
    assert_eq!(storage.get("hello.txt", 11).unwrap(), b"");
    assert_eq!(storage.get("hello.txt", u64::MAX).unwrap(), b"");
}

#[test]
fn get_of_unknown_file_errors() {
    let storage = MemStorage::new();
    let err = storage.get("missing.txt", 0).err().unwrap();
    assert_eq!(err.kind, FsErrorKind::PermanentFileNotAvailable);
}

#[test]
fn put_with_empty_path_errors() {
    let mut storage = MemStorage::new();
    let err = storage.put("/", Ok(Vec::new())).unwrap_err();
    assert_eq!(err.kind, FsErrorKind::PermanentFileNotAvailable);
    assert_eq!(err.message, "Invalid path");
}

#[test]
fn put_with_empty_path_errors_before_the_read_error() {
    let mut storage = MemStorage::new();
    let err = storage.put("//", Err("unread".to_string())).unwrap_err();
    assert_eq!(err.kind, FsErrorKind::PermanentFileNotAvailable);
}

#[test]
fn put_target_strips_leading_slashes() {
    assert_eq!(MemStorage::put_target("//dir/a.txt").unwrap(), "dir/a.txt");
    assert_eq!(MemStorage::put_target("/").unwrap_err().kind, FsErrorKind::PermanentFileNotAvailable);
}

#[test]
fn normalize_removes_only_leading_slashes() {
    assert_eq!(MemStorage::normalize("///a/b/"), "a/b/");
    assert_eq!(MemStorage::normalize("a"), "a");
    assert_eq!(MemStorage::normalize(""), "");
    assert_eq!(MemStorage::normalize("/héllo"), "héllo");
}

#[test]
fn a_leading_slash_names_the_same_file() {
    let storage = stored("/note.txt", b"n");
    assert_eq!(storage.get("note.txt", 0).unwrap(), b"n");
    assert_eq!(storage.file_names(), vec!["note.txt".to_string()]);
}

#[test]
fn put_replaces_earlier_content() {
    let mut storage = stored("a.txt", b"first");
    storage.put("a.txt", Ok(b"second".to_vec())).unwrap();
    assert_eq!(storage.get("a.txt", 0).unwrap(), b"second");
    assert_eq!(storage.file_names().len(), 1);
}

#[test]
fn list_of_root_returns_every_file() {
    let mut storage = MemStorage::new();
    storage.put("a.txt", Ok(b"a".to_vec())).unwrap();
    storage.put("b.txt", Ok(b"bb".to_vec())).unwrap();

    let mut entries = storage.list("/").unwrap();
    entries.sort_by(|a, b| a.path.cmp(&b.path));
    assert_eq!(entries.len(), 2);
    assert_eq!(entries[0].path, "a.txt");
    assert_eq!(entries[0].metadata.len(), 1);
    assert_eq!(entries[1].path, "b.txt");
    assert_eq!(entries[1].metadata.len(), 2);
    assert!(entries.iter().all(|e| e.metadata.is_file()));
}

#[test]
fn list_of_non_root_errors() {
    let storage = MemStorage::new();
    let err = storage.list("subdir").err().unwrap();
    assert_eq!(err.kind, FsErrorKind::PermanentDirectoryNotAvailable);
    assert_eq!(err.message, "Not a directory");
}

#[test]
fn del_removes_a_known_file() {
    let mut storage = stored("a.txt", b"a");

    storage.del("a.txt").unwrap();
    assert!(storage.file_names().is_empty());
}

#[test]
fn del_keeps_the_other_files() {
    let mut storage = stored("a.txt", b"a");
    storage.put("b.txt", Ok(b"b".to_vec())).unwrap();

    storage.del("/a.txt").unwrap();
    assert!(storage.get("a.txt", 0).is_err());
    assert_eq!(storage.get("b.txt", 0).unwrap(), b"b");
}

#[test]
fn del_of_unknown_file_errors() {
    let mut storage = MemStorage::new();
    let err = storage.del("missing.txt").unwrap_err();
    assert_eq!(err.kind, FsErrorKind::PermanentFileNotAvailable);
}

#[test]
fn rename_moves_file_content_to_the_new_name() {
    let mut storage = stored("old.txt", b"hello");

    storage.rename("old.txt", "new.txt").unwrap();

    assert!(storage.metadata("old.txt").is_err());
    assert_eq!(storage.get("new.txt", 0).unwrap(), b"hello");
}

#[test]
fn rename_onto_an_existing_file_replaces_it() {
    let mut storage = stored("a.txt", b"from a");
    storage.put("b.txt", Ok(b"from b".to_vec())).unwrap();

    storage.rename("a.txt", "b.txt").unwrap();
    assert_eq!(storage.get("b.txt", 0).unwrap(), b"from a");
    assert_eq!(storage.file_names(), vec!["b.txt".to_string()]);
}

#[test]
fn rename_to_the_same_name_keeps_the_file() {
    let mut storage = stored("a.txt", b"a");
    storage.rename("a.txt", "/a.txt").unwrap();
    assert_eq!(storage.get("a.txt", 0).unwrap(), b"a");
}

#[test]
fn rename_of_unknown_file_errors() {
    let mut storage = MemStorage::new();
    let err = storage.rename("missing.txt", "new.txt").unwrap_err();
    assert_eq!(err.kind, FsErrorKind::PermanentFileNotAvailable);
}

#[test]
fn mkd_is_not_supported() {
    let storage = MemStorage::new();
    let err = storage.mkd("subdir").unwrap_err();
    assert_eq!(err.kind, FsErrorKind::CommandNotImplemented);
}

#[test]
fn rmd_is_not_supported() {
    let storage = MemStorage::new();
    let err = storage.rmd("subdir").unwrap_err();
    assert_eq!(err.kind, FsErrorKind::CommandNotImplemented);
    assert_eq!(err.message, "Directories not supported");
}

#[test]
fn cwd_to_root_succeeds() {
    let storage = MemStorage::new();
    storage.cwd("/").unwrap();
}

#[test]
fn cwd_to_subdirectory_errors() {
    let storage = MemStorage::new();
    let err = storage.cwd("subdir").unwrap_err();
    assert_eq!(err.kind, FsErrorKind::PermanentDirectoryNotAvailable);
    assert_eq!(err.message, "Only root directory supported");
}

#[test]
fn sessions_get_independent_storage() {
    let mut a = MemStorage::new();
    let b = MemStorage::new();
    a.put("f.txt", Ok(b"only in a".to_vec())).unwrap();

    assert!(b.metadata("f.txt").is_err());
}

#[test]
fn store_upload_records_the_read_content() {
    let mut storage = MemStorage::new();
    let key = MemStorage::put_target("/up.bin").unwrap();
    assert_eq!(storage.store_upload(key, Ok(vec![1, 2, 3])).unwrap(), 3);
    assert_eq!(storage.get("up.bin", 1).unwrap(), vec![2, 3]);
}

#[test]
fn put_keeps_the_other_files() {
    let mut storage = stored("a.txt", b"a");
    storage.put("b.txt", Ok(b"b".to_vec())).unwrap();
    assert_eq!(storage.get("a.txt", 0).unwrap(), b"a");
}
