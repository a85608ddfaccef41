use triplewrapper_core::checksum::StreamingHasher;
use triplewrapper_core::integrity::{split_log_lines, IntegrityDb, IntegrityRecord};
use triplewrapper_core::types::ChecksumAlgorithm;

fn record(path: &str, blake3: &str, size: u64, at: u64) -> IntegrityRecord {
    IntegrityRecord {
        archive_path: path.to_string(),
        size_bytes: size,
        mtime_secs: 0,
        blake3: blake3.to_string(),
        operation: "test".to_string(),
        recorded_at: at,
    }
}

#[test]
fn last_record_wins_and_check_compares_hash_and_size() {
    let records = vec![
        record("/a", "h1", 10, 1),
        record("/b", "h2", 20, 2),
        record("/a", "h3", 30, 3),
    ];
    let last = IntegrityDb::last_for(&records, "/a").unwrap();
    assert_eq!(last.recorded_at, 3);
    assert!(IntegrityDb::last_for(&records, "/c").is_none());
    assert!(IntegrityDb::check(Some(&last), &record("/a", "h3", 30, 9)));
    assert!(!IntegrityDb::check(Some(&last), &record("/a", "h3", 31, 9)));
    assert!(!IntegrityDb::check(Some(&last), &record("/a", "tampered", 30, 9)));
    assert!(!IntegrityDb::check(None, &record("/a", "h3", 30, 9)));
}

#[test]
fn log_lines_skip_empty_ones() {
    let lines = split_log_lines(b"not json\n\n{\"archive_path\":1}\nlast");
    assert_eq!(lines, vec![b"not json".to_vec(), b"{\"archive_path\":1}".to_vec(), b"last".to_vec()]);
    assert!(split_log_lines(b"").is_empty());
    assert!(split_log_lines(b"\n\n").is_empty());
    assert_eq!(split_log_lines(b"x\n"), vec![b"x".to_vec()]);
}

#[test]
fn log_location() {
    assert_eq!(IntegrityDb::at_data_dir(Some("/home/u/.local/share")).path(), "/home/u/.local/share/triplewrapper/integrity.log");
    assert_eq!(IntegrityDb::at_data_dir(None).path(), "./triplewrapper/integrity.log");
    assert_eq!(IntegrityDb::at("/tmp/x.log").path(), "/tmp/x.log");
    assert!(IntegrityDb::at_user_data_dir().path().ends_with("/triplewrapper/integrity.log"));
}

#[test]
fn record_is_stamped_with_the_current_time() {
    let r = IntegrityRecord::recorded_now("/a.7z".to_string(), 10, 20, "ab".to_string(), "verify".to_string());
    assert_eq!(r.archive_path, "/a.7z");
    assert_eq!(r.size_bytes, 10);
    assert_eq!(r.mtime_secs, 20);
    assert_eq!(r.blake3, "ab");
    assert_eq!(r.operation, "verify");
    assert!(r.recorded_at > 1_600_000_000);
}

const ARCHIVE: &str = "/tmp/t/archive.bin";
const FIXTURE: &[u8] = b"triplewrapper-integrity-fixture";

/// The record of an archive's state given its contents (BLAKE3, size).
fn current_state(contents: &[u8], operation: &str) -> IntegrityRecord {
    let mut hasher = StreamingHasher::new(ChecksumAlgorithm::Blake3);
    hasher.update(contents);
    IntegrityRecord::recorded_now(ARCHIVE.to_string(), contents.len() as u64, 0, hasher.finalize_hex(), operation.to_string())
}

/// `check` against a log held as records, oldest first.
fn check(log: &Vec<IntegrityRecord>, contents: &[u8]) -> (bool, IntegrityRecord, Option<IntegrityRecord>) {
    let current = current_state(contents, "check");
    let previous = IntegrityDb::last_for(log, ARCHIVE);
    (IntegrityDb::check(previous.as_ref(), &current), current, previous)
}

#[test]
fn test_record_and_check_match() {
    let mut log = Vec::new();
    let record = current_state(FIXTURE, "test");
    assert_eq!(record.blake3.len(), 64);
    log.push(record);

    let (matches, _, previous) = check(&log, FIXTURE);
    assert!(matches);
    assert!(previous.is_some());
}

#[test]
fn test_check_mismatch_after_modification() {
    let mut log = Vec::new();
    log.push(current_state(FIXTURE, "test"));

    let (matches, _, _) = check(&log, b"tampered");
    assert!(!matches);
}

#[test]
fn test_check_without_history() {
    let log = Vec::new();
    let (matches, _, previous) = check(&log, FIXTURE);
    assert!(!matches);
    assert!(previous.is_none());
}
