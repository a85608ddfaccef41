use triplewrapper_core::engine::{
    find_disk_for_path, select_best_disk, EngineConfig, ExtractSpaceCheck, StorageEngine, StorageVerdict,
};
use triplewrapper_core::types::{CompressionEstimate, DiskInfo};

fn fake_disk(label: &str, free: u64, removable: bool, system: bool) -> DiskInfo {
    DiskInfo {
        mount_point: format!("/mnt/{label}"),
        label: label.into(),
        filesystem: "ext4".into(),
        total_bytes: free.saturating_mul(2),
        free_bytes: free,
        used_bytes: free,
        is_removable: removable,
        is_system: system,
        device_path: String::new(),
    }
}

fn estimate(current: u64, remove: u64, add: u64, ratio: f32) -> CompressionEstimate {
    let added = (add as f64 * ratio as f64) as u64;
    CompressionEstimate::from_compressed_addition(current, remove, add, ratio.to_bits(), added)
}

#[test]
fn test_estimate_calculation() {
    let est = estimate(1000, 200, 500, 0.5);

    // current - removed + added * ratio = 1000 - 200 + 500*0.5 = 1050
    assert_eq!(est.estimated_final_size, 1050);
    // space needed = current + estimated = 1000 + 1050 = 2050
    assert_eq!(est.space_needed_for_rewrite, 2050);
}

#[test]
fn test_estimate_no_overflow() {
    let est = estimate(u64::MAX, 0, 0, 1.0);
    assert_eq!(est.estimated_final_size, u64::MAX);
    assert_eq!(est.space_needed_for_rewrite, u64::MAX);
}

#[test]
fn test_select_best_disk_prefers_removable_then_biggest() {
    let disks = vec![
        fake_disk("sys", 1_000_000, false, true),
        fake_disk("big-internal", 900_000, false, false),
        fake_disk("small-usb", 100_000, true, false),
        fake_disk("big-usb", 500_000, true, false),
    ];
    // Removable wins over bigger internal.
    assert_eq!(select_best_disk(&disks, 10_000).unwrap().label, "big-usb");
    // System disks never qualify, however roomy.
    assert_eq!(
        select_best_disk(&vec![fake_disk("sys", u64::MAX / 2, false, true)], 1).map(|d| d.label),
        None::<String>,
    );
    // Nothing fits the demand.
    assert!(select_best_disk(&disks, u64::MAX).is_none());
    // Empty inventory.
    assert!(select_best_disk(&vec![], 1).is_none());
}

fn engine_with(disks: Vec<DiskInfo>, margin: u64) -> StorageEngine {
    let mut engine = StorageEngine::new(EngineConfig { safety_margin_bytes: margin, ..Default::default() });
    engine.set_disks(disks);
    engine
}

fn root_disk(free: u64) -> DiskInfo {
    DiskInfo { mount_point: "/".into(), is_system: true, ..fake_disk("root", free, false, true) }
}

#[test]
fn decide_internal_external_and_critical() {
    let engine = engine_with(vec![root_disk(10_000), fake_disk("usb", 1_000_000, true, false)], 0);
    // Fits on the archive's own disk.
    let est = estimate(1000, 100, 100, 0.5);
    match engine.decide_workspace(Some("/home/u/test.zip"), &est) {
        StorageVerdict::InternalOk { space_needed, source_disk, .. } => {
            assert_eq!(space_needed, 1950);
            assert_eq!(source_disk.mount_point, "/");
        }
        _ => panic!("expected InternalOk"),
    }
    // Needs another disk: the removable one, with its cache directory.
    let est = estimate(9000, 0, 0, 1.0);
    match engine.decide_workspace(Some("/home/u/test.zip"), &est) {
        StorageVerdict::ExternalRequired { workspace_disk, workdir, sevenzip_workdir_param, requires_confirmation, .. } => {
            assert_eq!(workspace_disk.label, "usb");
            assert_eq!(workdir, "/mnt/usb/.triplewrapper_cache");
            assert_eq!(sevenzip_workdir_param, "-w/mnt/usb/.triplewrapper_cache");
            assert!(requires_confirmation);
        }
        _ => panic!("expected ExternalRequired"),
    }
    // No disk on earth complies.
    let est = estimate(100, 0, u64::MAX / 2, 1.0);
    match engine.decide_workspace(Some("/home/u/huge.zip"), &est) {
        StorageVerdict::CriticalError { best_available_bytes, .. } => assert_eq!(best_available_bytes, 1_000_000),
        _ => panic!("expected CriticalError"),
    }
}

#[test]
fn extract_space_check_fits_or_names_alternative() {
    let engine = engine_with(vec![root_disk(5000), fake_disk("usb", 1_000_000, true, false)], 0);
    assert!(matches!(engine.check_extract_space(Some("/home/u/out"), "/home/u/out", Ok(5000), 1024), ExtractSpaceCheck::Fits));
    match engine.check_extract_space(Some("/home/u/out"), "/home/u/out", Ok(5000), 200_000) {
        ExtractSpaceCheck::Insufficient { label, free_bytes, needed_bytes, alternative } => {
            assert_eq!(label, "/home/u/out");
            assert_eq!(free_bytes, 5000);
            assert_eq!(needed_bytes, 200_000);
            assert_eq!(alternative.map(|d| d.label), Some("usb".to_string()));
        }
        _ => panic!("expected Insufficient"),
    }
    assert!(matches!(
        engine.check_extract_space(None, "/x", Err("denied".into()), 1),
        ExtractSpaceCheck::Unmeasurable { .. }
    ));
}

#[test]
fn deepest_mount_holds_the_path() {
    let disks = vec![root_disk(1), fake_disk("usb", 1, true, false), DiskInfo { mount_point: "/mnt/usb/inner".into(), ..fake_disk("inner", 1, true, false) }];
    assert_eq!(find_disk_for_path("/mnt/usb/inner/a.zip", &disks), Some(2));
    assert_eq!(find_disk_for_path("/mnt/usb/a.zip", &disks), Some(1));
    assert_eq!(find_disk_for_path("/home/a.zip", &disks), Some(0));
    assert_eq!(find_disk_for_path("/mnt/usbx/a.zip", &disks), Some(0));
}

#[test]
fn test_decide_internal_ok() {
    // The disk holding the archive, with ordinary free space.
    let engine = engine_with(vec![root_disk(10 * 1024 * 1024 * 1024)], 0);

    let est = estimate(1000, 100, 100, 0.5); // needs ~2000
    let verdict = engine.decide_workspace(Some("/tmp/t/test.zip"), &est);

    match verdict {
        StorageVerdict::InternalOk { .. } => {}
        _ => panic!("Expected InternalOk"),
    }
}
