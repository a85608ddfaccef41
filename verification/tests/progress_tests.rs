use triplewrapper_core::progress::{
    cpu_ticks, parse_cpu_fields, parse_io_stats, parse_memory_bytes, remaining_estimate,
    should_emit, InternalProgressUpdate, ProgressCounters, RateWindow,
};
use triplewrapper_core::types::{OperationId, OperationStatus};

#[test]
fn test_progress_monitor() {
    let mut counters = ProgressCounters::new(5);
    counters.status = OperationStatus::Running;
    counters.current_file = "test.txt".to_string();
    counters.bytes_written += 1024 * 1024;
    let telemetry = counters.snapshot(OperationId(1), 0, 0);
    assert_eq!(telemetry.bytes_processed, 1024 * 1024);
    assert_eq!(telemetry.current_file, "test.txt");
}

#[test]
fn updates_rates_and_estimates() {
    let mut c = ProgressCounters::new(4);
    c.apply(InternalProgressUpdate { bytes_processed_override: Some(300), file_name: Some("x".into()) });
    assert_eq!(c.bytes_written, 300);
    assert_eq!(c.current_file, "x");
    c.apply(InternalProgressUpdate::default());
    assert_eq!(c.bytes_written, 300);
    let mut w = RateWindow::new();
    c.bytes_read = 50;
    assert_eq!(w.advance(&c), (300, 50, 0));
    c.bytes_written = 100;
    assert_eq!(w.advance(&c), (0, 0, 0));
    assert!(should_emit(100));
    assert!(!should_emit(99));
    // 300 bytes for 1 of 4 files: 1200 in all, 900 to go.
    assert_eq!(remaining_estimate(300, 4, 1), Some(900));
    assert_eq!(remaining_estimate(300, 4, 0), Some(900));
    assert_eq!(remaining_estimate(300, 0, 1), None);
    assert_eq!(remaining_estimate(300, 1, 4), Some(0));
}

#[test]
fn proc_files_are_read() {
    let io = "rchar: 10\nwchar: 20\nread_bytes: 4096\nwrite_bytes: 8192\ncancelled_write_bytes: 0\n";
    assert_eq!(parse_io_stats(io), Some((4096, 8192)));
    assert_eq!(parse_io_stats("read_bytes: x\n"), None);
    assert_eq!(parse_io_stats("no colon here\n"), Some((0, 0)));
    let status = "Name:\tx\nVmPeak:\t 100 kB\nVmRSS:\t    2048 kB\nVmRSS: 1 kB\n";
    assert_eq!(parse_memory_bytes(status), Some(2048 * 1024));
    assert_eq!(parse_memory_bytes("Name: x\n"), None);
    assert_eq!(parse_memory_bytes("VmRSS:\n"), None);
    let stat = "1234 (tw) S 1 2 3 4 5 6 7 8 9 10 150 25 0 0 20 0 1 0 100 200 300";
    assert_eq!(parse_cpu_fields(stat), Some((150, 25)));
    assert_eq!(cpu_ticks(150, 25), 175);
    assert_eq!(parse_cpu_fields("1 2 3"), None);
}
