use triplewrapper_core::disk::{
    block_name, disk_usage, extract_device_name, external_disk, is_removable, is_system_mount,
    is_virtual_fs, scanned_disk, volume_label,
};

#[test]
fn scan_classification() {
    assert!(is_virtual_fs("tmpfs"));
    assert!(is_virtual_fs("fuse.lxcfs"));
    assert!(!is_virtual_fs("ext4"));
    assert!(is_system_mount("/boot/efi"));
    assert!(!is_system_mount("/home"));
    assert_eq!(extract_device_name("//dev/sda1"), "dev/sda1");
    assert_eq!(block_name("/dev/sdb"), "sdb");
    assert!(is_removable(Some("/dev/sdb"), Some(" 1\n")));
    assert!(!is_removable(Some("/dev/sdb"), Some("0\n")));
    assert!(is_removable(Some("/dev/mmcblk0"), None));
    assert!(!is_removable(Some("/dev/nvme0n1"), None));
    assert!(!is_removable(None, Some("1")));
}

#[test]
fn labels_and_records() {
    assert_eq!(volume_label(Some(" Seagate \n"), "/run/media/u/x", "Desconocido"), "Seagate");
    assert_eq!(volume_label(Some(""), "/run/media/u/x", "Desconocido"), "x");
    assert_eq!(volume_label(None, "/", "Desconocido"), "Desconocido");
    let d = scanned_disk("/".into(), "root".into(), "ext4".into(), 100, 150, false, "sda1".into());
    assert_eq!(d.used_bytes, 0);
    assert!(d.is_system);
    let e = external_disk("/mnt/usb", 1000, 400);
    assert_eq!(e.label, "usb");
    assert_eq!(e.used_bytes, 600);
    assert!(e.is_removable);
    assert_eq!(e.filesystem, "unknown");
    assert_eq!(disk_usage(10, 4, 4096), (40960, 16384));
}
