use triplewrapper_core::cli::{
    final_tick_totals, files_selection, modify_gate, parse_item_id, parse_operation_type,
    parse_priority, parse_status_filter, password_str, removed_bytes, resolve_password,
    run_is_test, tick_stage, truncate, worker_plan, ModifyGate, PreflightKind, WorkerAction,
};
use triplewrapper_core::engine::StorageVerdict;
use triplewrapper_core::error::TripleWrapperError;
use triplewrapper_core::queue::{Priority, QueueItemStatus};
use triplewrapper_core::types::{ArchiveEntry, CompressionEstimate, DiskInfo, OperationId, OperationType};

#[test]
fn password_sources() {
    let (pw, warn) = resolve_password(Some("flag".into()), Some("env".into()));
    assert!(warn);
    assert_eq!(password_str(pw.as_ref()), Some("flag"));
    let (pw, warn) = resolve_password(Some(String::new()), Some("env".into()));
    assert!(!warn);
    assert_eq!(password_str(pw.as_ref()), Some("env"));
    let (pw, warn) = resolve_password(None, Some(String::new()));
    assert!(!warn);
    assert!(pw.is_none());
    assert_eq!(password_str(None), None);
}

#[test]
fn names_parse_case_insensitively() {
    assert_eq!(parse_priority("HIGH"), Priority::High);
    assert_eq!(parse_priority("whatever"), Priority::Normal);
    assert_eq!(parse_priority("Critical"), Priority::Critical);
    assert_eq!(parse_operation_type("Clean"), OperationType::Clean);
    assert_eq!(parse_operation_type("???"), OperationType::Extract);
    assert_eq!(parse_status_filter("FAILED"), Some(QueueItemStatus::Failed));
    assert_eq!(parse_status_filter("all"), None);
}

#[test]
fn item_ids_and_their_errors() {
    assert_eq!(parse_item_id("42").unwrap(), OperationId(42));
    assert_eq!(parse_item_id("+7").unwrap(), OperationId(7));
    let text = |s: &str| match parse_item_id(s) {
        Err(TripleWrapperError::Internal(m)) => m,
        other => panic!("{other:?}"),
    };
    assert_eq!(text(""), "".parse::<u64>().unwrap_err().to_string());
    assert_eq!(text("abc"), "abc".parse::<u64>().unwrap_err().to_string());
    assert_eq!(text("-1"), "-1".parse::<u64>().unwrap_err().to_string());
    assert_eq!(text("+"), "+".parse::<u64>().unwrap_err().to_string());
    assert_eq!(text("99999999999999999999"), "99999999999999999999".parse::<u64>().unwrap_err().to_string());
}

fn entry(path: &str, size: u64, dir: bool) -> ArchiveEntry {
    ArchiveEntry { path: path.into(), size, compressed_size: 0, modified: None, is_directory: dir, crc32: None, sha256: None }
}

#[test]
fn removed_bytes_counts_selected_regular_files() {
    let entries = vec![entry("a/x.txt", 10, false), entry("a", 0, true), entry("b/y.txt", 5, false), entry("x.txt", 7, false)];
    assert_eq!(removed_bytes(&entries, &vec!["x.txt".into()]), Some(17));
    assert_eq!(removed_bytes(&entries, &vec!["b/y.txt".into(), "a".into()]), Some(5));
    assert_eq!(removed_bytes(&entries, &vec![]), Some(0));
    let big = vec![entry("a", u64::MAX, false), entry("b", 1, false)];
    assert_eq!(removed_bytes(&big, &vec!["a".into(), "b".into()]), None);
}

#[test]
fn gates_and_plans() {
    let est = CompressionEstimate::from_compressed_addition(1, 0, 0, 0, 0);
    let critical = StorageVerdict::CriticalError { source_disk: DiskInfo::default(), estimate: est.clone(), best_available_bytes: 0, space_needed: 2 };
    assert_eq!(modify_gate(&critical, true), ModifyGate::NoRoom);
    let ok = StorageVerdict::InternalOk { source_disk: DiskInfo::default(), estimate: est.clone(), space_needed: 2 };
    assert_eq!(modify_gate(&ok, false), ModifyGate::Proceed);
    let ext = StorageVerdict::ExternalRequired {
        source_disk: DiskInfo::default(),
        workspace_disk: DiskInfo::default(),
        estimate: est,
        workdir: "/mnt/x/.triplewrapper_cache".into(),
        sevenzip_workdir_param: "-w/mnt/x/.triplewrapper_cache".into(),
        space_needed: 2,
        requires_confirmation: true,
    };
    assert_eq!(modify_gate(&ext, false), ModifyGate::NeedsWorkspace);
    assert_eq!(modify_gate(&ext, true), ModifyGate::Proceed);
    assert_eq!(ext.kind_name(), "external_required");
    assert_eq!(worker_plan(OperationType::Modify), (PreflightKind::Extraction, WorkerAction::Extract));
    assert_eq!(worker_plan(OperationType::Clean), (PreflightKind::Rewrite, WorkerAction::Nothing));
    assert_eq!(worker_plan(OperationType::Test), (PreflightKind::NoCheck, WorkerAction::Test));
    assert!(files_selection(&vec![]).is_none());
    assert_eq!(files_selection(&vec!["a".to_string()]).map(|v| v.len()), Some(1));
    assert!(run_is_test("TEST"));
    assert!(!run_is_test("extract"));
    assert_eq!(tick_stage(""), "Extrayendo");
    assert_eq!(tick_stage("a.txt"), "a.txt");
    assert_eq!(final_tick_totals(0, 0), (0, 1));
    assert_eq!(final_tick_totals(10, 50), (50, 50));
}

#[test]
fn truncate_counts_bytes() {
    assert_eq!(truncate("short", 10), "short");
    assert_eq!(truncate("exactly10!", 10), "exactly10!");
    assert_eq!(truncate("a longer archive name.zip", 10), "a longer …");
    assert_eq!(truncate("ñandú.zip", 5), "ñan…");
    assert_eq!(truncate("abc", 0), "…");
}
