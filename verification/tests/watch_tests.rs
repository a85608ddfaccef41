use triplewrapper_core::watch::{classify_signal, is_interfaces_signal, DeviceEvent};

#[test]
fn test_filesystem_added_is_event() {
    assert_eq!(
        classify_signal(
            "InterfacesAdded",
            &[
                "org.freedesktop.UDisks2.Block".into(),
                "org.freedesktop.UDisks2.Filesystem".into()
            ]
        ),
        Some(DeviceEvent::Added)
    );
}

#[test]
fn test_partition_removed_is_event() {
    assert_eq!(
        classify_signal("InterfacesRemoved", &["org.freedesktop.UDisks2.Partition".into()]),
        Some(DeviceEvent::Removed)
    );
}

#[test]
fn test_job_signals_are_ignored() {
    assert_eq!(
        classify_signal("InterfacesAdded", &["org.freedesktop.UDisks2.Job".into()]),
        None
    );
}

#[test]
fn test_unknown_member_ignored() {
    assert_eq!(
        classify_signal("PropertiesChanged", &["org.freedesktop.UDisks2.Filesystem".into()]),
        None
    );
}

#[test]
fn encrypted_volumes_count_as_storage() {
    assert_eq!(
        classify_signal("InterfacesRemoved", &["org.freedesktop.UDisks2.Encrypted".into()]),
        Some(DeviceEvent::Removed)
    );
    assert_eq!(classify_signal("InterfacesAdded", &[]), None);
    assert!(is_interfaces_signal("InterfacesAdded"));
    assert!(!is_interfaces_signal("PropertiesChanged"));
}
