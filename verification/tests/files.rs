use chat_cli::fs::{append, normalized, Fs, FsError, Place};
use chat_cli::knowledge::{
    added_text, count_removed, create_progress_bar_snapshot, describe_text, format_duration, generate_operation_id,
    update_context, Addition, BackgroundOperation, ContextKey, KnowledgeContext, KnowledgeStore, OperationStatus,
    OperationType, ProgressInfo, ProgressStatus, WorkResult, CLEANUP_THRESHOLD,
};
use chat_cli::name_map::NameMap;

#[test]
fn test_fake() {
    let mut fs = Fs::from_slice(&vec![("/test", "test")]);
    assert_eq!(fs.memory_error(), FsError::Unimplemented);
    fs.write("/dir/write", &b"write".to_vec());
    assert_eq!(fs.read("/dir/write"), Ok(b"write".to_vec()));
    assert_eq!(fs.read_to_string("/dir/write"), Ok("write".to_string()));
    assert_eq!(fs.read_to_string("/test"), Ok("test".to_string()));
}

#[test]
fn test_read_to_string() {
    let mut fs = Fs::from_slice(&Vec::new());
    fs.write("fake", &b"contents".to_vec());
    fs.write("invalid_utf8", &vec![255]);
    assert_eq!(fs.read_to_string("fake"), Ok("contents".to_string()), "should read fake file");
    assert_eq!(fs.read_to_string("unknown"), Err(FsError::NotFound), "unknown path should return NotFound");
    assert_eq!(
        fs.read_to_string("invalid_utf8"),
        Err(FsError::InvalidData),
        "invalid utf8 should return InvalidData"
    );
}

#[test]
fn a_written_text_is_read_back() {
    let mut fs = Fs::from_slice(&vec![("/a/b", "old"), ("/c", "other")]);
    fs.write("/a//./b", &"neu ✓".as_bytes().to_vec());
    assert_eq!(fs.read_to_string("/a/b"), Ok("neu ✓".to_string()));
    assert_eq!(fs.read_to_string("/c"), Ok("other".to_string()));
}

#[test]
fn append_test_path_to_dir() {
    assert_eq!(append("/abc/test", "/test"), "/abc/test/test");
}

#[test]
fn append_absolute_to_tmp_dir() {
    assert_eq!(append("/tmp/.dir", "/tmp/.dir/home/myuser"), "/tmp/.dir/home/myuser");
}

#[test]
fn append_different_tmp_path() {
    assert_eq!(append("/tmp/.dir", "/tmp/hello"), "/tmp/.dir/tmp/hello");
}

#[test]
fn append_nested_path_to_tmpdir() {
    assert_eq!(append("/tmp/.dir", "/tmp/.dir/tmp/.dir/home/user"), "/tmp/.dir/home/user");
}

#[test]
fn paths_have_their_place() {
    let chroot = Fs::Chroot("/tmp/root".to_string());
    assert!(chroot.is_chroot());
    assert_eq!(chroot.place("/etc"), Place::Disk("/tmp/root/etc".to_string()));
    assert_eq!(chroot.chroot_path_str("/etc"), "/tmp/root/etc");
    assert_eq!(Fs::Real.place("/etc"), Place::Disk("/etc".to_string()));
    assert_eq!(Fs::Real.chroot_path_str("/etc"), "/etc");
    assert_eq!(Fs::from_slice(&Vec::new()).place("/etc"), Place::Memory);
    assert_eq!(normalized("/a/b"), "/a/b");
}

#[test]
fn durations_are_written_short() {
    assert_eq!(format_duration(0), "0s");
    assert_eq!(format_duration(59), "59s");
    assert_eq!(format_duration(60), "1m");
    assert_eq!(format_duration(61), "1m 1s");
    assert_eq!(format_duration(3600), "1h");
    assert_eq!(format_duration(3660), "1h 1m");
}

#[test]
fn progress_is_shown_as_a_bar() {
    let mut p = ProgressInfo::new(0);
    assert_eq!(p.message, "Starting...");
    p.update(50, 100, "half".to_string(), 5);
    let text = create_progress_bar_snapshot(&p, Some(90));
    assert!(text.starts_with("["), "{text}");
    assert!(text.contains("] 50% (50/100 (ETA: 1m 30s))"), "{text}");
    assert_eq!(text.chars().filter(|c| *c == '▓').count(), 1);
    p.update(100, 100, "done".to_string(), 9);
    assert!(create_progress_bar_snapshot(&p, None).contains(&"█".repeat(30)));
    assert!(create_progress_bar_snapshot(&ProgressInfo::new(0), None).contains(&"░".repeat(30)));
}

#[test]
fn work_is_followed_and_cancelled() {
    let mut store = KnowledgeStore::new();
    assert_eq!(store.get_status(&NameMap::new(), 0), "No background operations running.");
    let kind = OperationType::Indexing { name: "docs".to_string() };
    assert_eq!(kind.display_name(), "Indexing docs");
    let (id, text) = match store.add_background_with_type("docs", "/docs", true, kind, 1_700_000_000_000, 0) {
        Addition::Background { id, description, text } => {
            assert_eq!(description, "Knowledge context for docs");
            (id, text)
        },
        other => panic!("{:?}", other),
    };
    assert_eq!(id, generate_operation_id(1_700_000_000_000));
    assert_eq!(id, "op_1700000000000");
    assert!(text.starts_with("🚀 Started indexing 'docs' in background.\n"));
    assert!(text.ends_with("🆔 Operation ID: op_17000"));
    let status = store.get_status(&NameMap::new(), 2_000_000_000);
    assert!(status.contains("🔄 Indexing docs (op_17000)"), "{status}");
    assert!(status.contains("Duration: 2s"), "{status}");
    assert_eq!(store.cancel_operation("op_1").unwrap_err(), "Operation not found: op_1");
    assert_eq!(store.cancel_operation(&id).unwrap(), format!("Cancelled operation: {id}"));
    assert!(store.get_status(&NameMap::new(), 0).contains("📊 Status: Cancelled"));
    assert_eq!(store.cancel_operation("all").unwrap(), "Cancelled 0 background operations");
    store.clean_up(CLEANUP_THRESHOLD + 1);
    assert!(store.background_operations.is_empty());
}

#[test]
fn a_status_forgets_and_reports_once() {
    let mut store = KnowledgeStore::new();
    let text = Addition::Text { description: "Text knowledge notes...".to_string() };
    assert_eq!(store.add("n", "notes", false, 0, 0), text);
    assert!(store.background_operations.is_empty());
    for (name, milliseconds) in [("a", 1_700_000_000_001), ("b", 1_700_000_000_002), ("c", 1_700_000_000_003)] {
        match store.add(name, "/path", true, milliseconds, 0) {
            Addition::Background { text, .. } => assert!(text.starts_with("🚀 Started indexing '")),
            other => panic!("{:?}", other),
        }
    }
    store.cancel_operation("op_1700000000002").unwrap();
    let running = store.background_operations.get_mut("op_1700000000003").unwrap();
    running.on_progress(ProgressStatus::Indexing(1, 2), 1);
    let mut estimates = NameMap::new();
    estimates.insert("op_1700000000003".to_string(), 65);
    let status = store.get_status(&estimates, CLEANUP_THRESHOLD - 1);
    assert_eq!(status.matches("📊 Status:").count(), 3, "{status}");
    assert_eq!(status.matches("(ETA: 1m 5s)").count(), 1, "{status}");
    let status = store.get_status(&estimates, CLEANUP_THRESHOLD);
    assert_eq!(status.matches("📊 Status:").count(), 2, "{status}");
    assert!(!status.contains("Indexing b "), "{status}");
    assert!(!store.background_operations.contains_key("op_1700000000002"));
}

#[test]
fn work_reports_its_progress() {
    let mut op = BackgroundOperation::begin(OperationType::Updating { name: "docs".to_string() }, 0);
    assert!(matches!(op.status, OperationStatus::Running));
    op.on_progress(ProgressStatus::StartingIndexing(4), 1);
    assert_eq!(op.progress.message, "Starting indexing (4 files)");
    op.on_progress(ProgressStatus::Indexing(2, 4), 2);
    assert_eq!((op.progress.current, op.progress.total), (2, 4));
    op.on_progress(ProgressStatus::Complete, 3);
    assert_eq!(op.progress.message, "Indexing complete!");
    op.finish(WorkResult::Done);
    assert!(matches!(op.status, OperationStatus::Completed));
    op.finish(WorkResult::Broken("panic".to_string()));
    assert!(matches!(&op.status, OperationStatus::Failed(e) if e == "Task failed: panic"));
}

#[test]
fn contexts_are_updated_by_key() {
    let contexts = vec![KnowledgeContext {
        id: "1".to_string(),
        name: "docs".to_string(),
        source_path: Some("/docs".to_string()),
    }];
    assert!(update_context(&contexts, &ContextKey::Id("1".to_string()), "/new", true).is_ok());
    assert_eq!(
        update_context(&contexts, &ContextKey::Id("2".to_string()), "/new", true).unwrap_err(),
        "Context with ID '2' not found"
    );
    assert_eq!(
        update_context(&contexts, &ContextKey::Name("x".to_string()), "/new", true).unwrap_err(),
        "Context with name 'x' not found"
    );
    assert_eq!(
        update_context(&contexts, &ContextKey::Path("/x".to_string()), "/x", true).unwrap_err(),
        "No context found with path '/x'"
    );
    assert_eq!(
        update_context(&contexts, &ContextKey::Id("1".to_string()), "/new", false).unwrap_err(),
        "Path '/new' does not exist"
    );
    assert_eq!(count_removed(&vec![true, false, true]), 2);
    assert_eq!(describe_text("short"), "Text knowledge short...");
    assert_eq!(
        added_text("n", Ok(())).unwrap(),
        "✅ Added text content 'n' to knowledge base"
    );
    assert_eq!(added_text("n", Err("full".to_string())).unwrap_err().contains("full"), true);
}
