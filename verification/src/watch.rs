//! Which UDisks2 object-manager signals mean "a drive came or went".

use vstd::prelude::*;
use crate::text::{is_str, chars_of, string_views, str_eq};

verus! {

/// UDisks2 object-manager path.
pub const UDISKS2_PATH: &'static str = "/org/freedesktop/UDisks2";

/// Object-manager interface emitting the signals of interest.
pub const OBJECT_MANAGER_IFACE: &'static str = "org.freedesktop.DBus.ObjectManager";

/// A plug/unplug event worth rescanning for.
#[derive(Debug, Clone, Copy, PartialEq, Eq, Structural)]
pub enum DeviceEvent {
    Added,
    Removed,
}

/// Interfaces proving an object is storage (not a job, drive metadata...).
pub open spec fn is_storage_iface(i: Seq<char>) -> bool {
    i == "org.freedesktop.UDisks2.Filesystem"@ || i == "org.freedesktop.UDisks2.Block"@ || i
        == "org.freedesktop.UDisks2.Partition"@ || i == "org.freedesktop.UDisks2.Encrypted"@
}

/// The event an object-manager signal stands for: storage interfaces
/// added or removed; anything else is no event.
pub open spec fn signal_event(member: Seq<char>, interfaces: Seq<Seq<char>>) -> Option<DeviceEvent> {
    if !(exists|k: int| 0 <= k < interfaces.len() && is_storage_iface(#[trigger] interfaces[k])) {
        None
    } else if member == "InterfacesAdded"@ {
        Some(DeviceEvent::Added)
    } else if member == "InterfacesRemoved"@ {
        Some(DeviceEvent::Removed)
    } else {
        None
    }
}

fn is_storage_iface_exec(i: &str) -> (r: bool)
    ensures
        r == is_storage_iface(i@),
{
    let v = chars_of(i);
    is_str(&v, "org.freedesktop.UDisks2.Filesystem") || is_str(&v, "org.freedesktop.UDisks2.Block")
        || is_str(&v, "org.freedesktop.UDisks2.Partition") || is_str(
        &v,
        "org.freedesktop.UDisks2.Encrypted",
    )
}

/// Classifies an object-manager signal by its member and the interface
/// names it carries.
pub fn classify_signal(member: &str, interfaces: &[String]) -> (r: Option<DeviceEvent>)
    ensures
        r == signal_event(member@, string_views(interfaces@)),
{
    let ghost names = string_views(interfaces@);
    let mut storage = false;
    let mut i: usize = 0;
    while i < interfaces.len()
        invariant
            i <= interfaces@.len(),
            names == string_views(interfaces@),
            storage == exists|k: int| 0 <= k < i && is_storage_iface(#[trigger] names[k]),
        decreases interfaces.len() - i,
    {
        assert(names[i as int] == interfaces@[i as int]@);
        if is_storage_iface_exec(interfaces[i].as_str()) {
            storage = true;
        }
        i = i + 1;
    }
    if !storage {
        return None;
    }
    if str_eq(member, "InterfacesAdded") {
        Some(DeviceEvent::Added)
    } else if str_eq(member, "InterfacesRemoved") {
        Some(DeviceEvent::Removed)
    } else {
        None
    }
}

/// Whether a message member is one of the two signals worth decoding.
pub fn is_interfaces_signal(member: &str) -> (r: bool)
    ensures
        r == (member@ == "InterfacesAdded"@ || member@ == "InterfacesRemoved"@),
{
    str_eq(member, "InterfacesAdded") || str_eq(member, "InterfacesRemoved")
}

} // verus!
