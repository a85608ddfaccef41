use triplewrapper_core::mount::{
    check_unmount_target, find_candidate, is_device_path, mount_failure, parse_mounted_at,
    udisks_args, unmount_outcome, unmounted_from_devices, LsblkDevice, UnmountedDevice,
};
use triplewrapper_core::error::TripleWrapperError;

fn dev(
    path: &str,
    mountpoint: Option<&str>,
    fstype: Option<&str>,
    size: u64,
    kind: &str,
    rm: bool,
    children: Vec<LsblkDevice>,
) -> LsblkDevice {
    LsblkDevice {
        path: Some(path.to_string()),
        mountpoint: mountpoint.map(|s| s.to_string()),
        fstype: fstype.map(|s| s.to_string()),
        size: Some(size),
        kind: Some(kind.to_string()),
        rm: Some(rm),
        children,
    }
}

/// The device tree of the `lsblk -J` listing used by the original test.
fn fixture() -> Vec<LsblkDevice> {
    vec![
        dev(
            "/dev/sda",
            None,
            None,
            500107862016,
            "disk",
            false,
            vec![dev("/dev/sda1", Some("/"), Some("btrfs"), 499000000000, "part", false, vec![])],
        ),
        dev(
            "/dev/sdb",
            None,
            None,
            500107862016,
            "disk",
            true,
            vec![
                dev("/dev/sdb1", None, Some("exfat"), 499000000000, "part", true, vec![]),
                dev("/dev/sdb2", None, Some("swap"), 1000000, "part", true, vec![]),
            ],
        ),
        dev(
            "/dev/sdc",
            None,
            None,
            8000000,
            "disk",
            true,
            vec![dev("/dev/sdc1", None, None, 7000000, "part", true, vec![])],
        ),
    ]
}

#[test]
fn test_parse_unmounted_skips_mounted_swap_and_unformatted() {
    let devs = unmounted_from_devices(&fixture());
    assert_eq!(devs.len(), 1);
    assert_eq!(devs[0].dev_path, "/dev/sdb1");
    assert_eq!(devs[0].fstype, "exfat");
    assert!(devs[0].removable);
}

#[test]
fn test_is_device_path_rejects_injection() {
    assert!(is_device_path("/dev/sdb1"));
    assert!(is_device_path("/dev/nvme0n1p2"));
    assert!(!is_device_path("/dev/sdb1; rm -rf /"));
    assert!(!is_device_path("/etc/passwd"));
    assert!(!is_device_path("sdb1"));
    assert!(!is_device_path("/dev/"));
}

#[test]
fn test_unmount_refuses_suspicious_path() {
    assert!(check_unmount_target("/etc/passwd").is_err());
    assert!(check_unmount_target("sdb1").is_err());
}

#[test]
fn test_mount_refuses_unknown_device() {
    // A device that was not enumerated is refused before udisksctl runs.
    let candidates = unmounted_from_devices(&fixture());
    match find_candidate(&candidates, "/dev/does-not-exist-xyz") {
        Err(TripleWrapperError::Internal(_)) | Err(TripleWrapperError::ToolNotFound(_)) => {}
        other => panic!("expected refusal, got {other:?}"),
    }
}

#[test]
fn listing_is_removable_first_then_biggest_and_stable() {
    let part = |p: &str, size: u64, rm: bool| dev(p, None, Some("ext4"), size, "part", rm, vec![]);
    let roots = vec![
        dev("/dev/sda", None, None, 0, "disk", false, vec![part("/dev/sda1", 50, false), part("/dev/sda2", 70, false)]),
        dev("/dev/sdb", None, None, 0, "disk", true, vec![part("/dev/sdb1", 10, true), part("/dev/sdb2", 10, true)]),
        part("/dev/sdc1", 90, true),
    ];
    let got: Vec<String> = unmounted_from_devices(&roots).into_iter().map(|d| d.dev_path).collect();
    // Walk order: sdc1, sdb, sdb2, sdb1, sda, sda2, sda1; then sorted.
    assert_eq!(got, vec!["/dev/sdc1", "/dev/sdb2", "/dev/sdb1", "/dev/sda2", "/dev/sda1"]);
}

#[test]
fn listing_labels_and_defaults() {
    let roots = vec![LsblkDevice {
        path: Some("/dev/mmcblk0p1".to_string()),
        mountpoint: Some(String::new()),
        fstype: Some("vfat".to_string()),
        size: None,
        kind: Some("part".to_string()),
        rm: None,
        children: vec![],
    }];
    let got: Vec<UnmountedDevice> = unmounted_from_devices(&roots);
    assert_eq!(got.len(), 1);
    assert_eq!(got[0].label, "mmcblk0p1");
    assert_eq!(got[0].size_bytes, 0);
    assert!(!got[0].removable);
}

#[test]
fn udisksctl_answers() {
    assert_eq!(
        parse_mounted_at("Mounted /dev/sdb1 at /run/media/user/Seagate.\n"),
        Some("/run/media/user/Seagate".to_string())
    );
    assert_eq!(parse_mounted_at("Error mounting /dev/sdb1: busy"), None);
    assert_eq!(parse_mounted_at("Mounted x at ...."), None);
    assert_eq!(parse_mounted_at("Mounted x at /a at /b"), Some("/a".to_string()));
    match mount_failure("  out  ", "  ") {
        TripleWrapperError::Internal(m) => assert_eq!(m, "out"),
        other => panic!("{other:?}"),
    }
    match mount_failure("out", " not authorized \n") {
        TripleWrapperError::Internal(m) => assert_eq!(m, "not authorized"),
        other => panic!("{other:?}"),
    }
    assert!(unmount_outcome(true, "ignored").is_ok());
    match unmount_outcome(false, " busy\n") {
        Err(TripleWrapperError::Internal(m)) => assert_eq!(m, "busy"),
        other => panic!("{other:?}"),
    }
    assert_eq!(
        udisks_args("mount", "/dev/sdb1"),
        vec!["mount", "-b", "/dev/sdb1", "--no-user-interaction"]
    );
    match check_unmount_target("/etc/passwd") {
        Err(TripleWrapperError::Internal(m)) => assert_eq!(m, "refusing to unmount suspicious path: /etc/passwd"),
        other => panic!("{other:?}"),
    }
}
