//! What a disk scan decides about each volume: which file systems to skip,
//! how volumes are named and classified, and their space figures.

use vstd::prelude::*;
use crate::paths::{file_name, file_name_exec};
use crate::text::{chars_of, is_str, owned, slice_of, starts_with, starts_with_str, string_from, trim, trim_exec};
use crate::types::{sat_sub, DiskInfo};

verus! {

/// Pseudo and read-only image file systems that are never a workspace.
pub open spec fn is_virtual_fs_spec(fs: Seq<char>) -> bool {
    fs == "proc"@ || fs == "sysfs"@ || fs == "devtmpfs"@ || fs == "devpts"@ || fs == "tmpfs"@ || fs
        == "cgroup"@ || fs == "cgroup2"@ || fs == "pstore"@ || fs == "bpf"@ || fs == "tracefs"@ || fs
        == "securityfs"@ || fs == "configfs"@ || fs == "debugfs"@ || fs == "hugetlbfs"@ || fs
        == "mqueue"@ || fs == "nsfs"@ || fs == "rpc_pipefs"@ || fs == "autofs"@ || fs == "efivarfs"@
        || fs == "fuse.lxcfs"@ || fs == "fuse.portal"@ || fs == "overlay"@ || fs == "squashfs"@ || fs
        == "iso9660"@
}

/// Whether `fs` is a pseudo file system (skipped by the scan).
pub fn is_virtual_fs(fs: &str) -> (r: bool)
    ensures
        r == is_virtual_fs_spec(fs@),
{
    let v = chars_of(fs);
    is_str(&v, "proc") || is_str(&v, "sysfs") || is_str(&v, "devtmpfs") || is_str(&v, "devpts")
        || is_str(&v, "tmpfs") || is_str(&v, "cgroup") || is_str(&v, "cgroup2") || is_str(
        &v,
        "pstore",
    ) || is_str(&v, "bpf") || is_str(&v, "tracefs") || is_str(&v, "securityfs") || is_str(
        &v,
        "configfs",
    ) || is_str(&v, "debugfs") || is_str(&v, "hugetlbfs") || is_str(&v, "mqueue") || is_str(
        &v,
        "nsfs",
    ) || is_str(&v, "rpc_pipefs") || is_str(&v, "autofs") || is_str(&v, "efivarfs") || is_str(
        &v,
        "fuse.lxcfs",
    ) || is_str(&v, "fuse.portal") || is_str(&v, "overlay") || is_str(&v, "squashfs") || is_str(
        &v,
        "iso9660",
    )
}

/// `s` without its leading copies of `p` (`str::trim_start_matches`).
pub open spec fn strip_leading(s: Seq<char>, p: Seq<char>) -> Seq<char>
    decreases s.len(),
{
    if p.len() > 0 && starts_with(s, p) {
        strip_leading(s.subrange(p.len() as int, s.len() as int), p)
    } else {
        s
    }
}

fn strip_leading_exec(s: &Vec<char>, p: &Vec<char>) -> (r: Vec<char>)
    ensures
        r@ == strip_leading(s@, p@),
    decreases s@.len(),
{
    if p.len() > 0 && crate::text::starts_with_exec(s, p) {
        let rest = slice_of(s, p.len(), s.len());
        strip_leading_exec(&rest, p)
    } else {
        slice_of(s, 0, s.len())
    }
}

/// Device name as the scan reports it: the name without leading `/`.
pub fn extract_device_name(name: &str) -> (r: String)
    ensures
        r@ == strip_leading(name@, seq!['/']),
{
    let v = chars_of(name);
    let mut p: Vec<char> = Vec::new();
    p.push('/');
    assert(p@ =~= seq!['/']);
    let r = strip_leading_exec(&v, &p);
    string_from(&r)
}

/// Whether a device is removable: the kernel's `removable` flag when it
/// could be read (`sysfs_flag`), else the guess that `sd*` and `mmcblk*`
/// devices are.
pub open spec fn removable_spec(device: Option<Seq<char>>, sysfs_flag: Option<Seq<char>>) -> bool {
    match device {
        Some(dev) => match sysfs_flag {
            Some(content) => trim(content) == seq!['1'],
            None => {
                let block = strip_leading(dev, "/dev/"@);
                starts_with(block, "sd"@) || starts_with(block, "mmcblk"@)
            },
        },
        None => false,
    }
}

/// The block name under `/sys/block/` for a device (`/dev/` prefixes
/// removed).
pub fn block_name(device: &str) -> (r: String)
    ensures
        r@ == strip_leading(device@, "/dev/"@),
{
    let v = chars_of(device);
    let p = chars_of("/dev/");
    let r = strip_leading_exec(&v, &p);
    string_from(&r)
}

/// Decides whether a device is removable (see [`removable_spec`]).
pub fn is_removable(device: Option<&str>, sysfs_flag: Option<&str>) -> (r: bool)
    ensures
        r == removable_spec(
            match device {
                Some(d) => Some(d@),
                None => None,
            },
            match sysfs_flag {
                Some(c) => Some(c@),
                None => None,
            },
        ),
{
    match device {
        Some(dev) => match sysfs_flag {
            Some(content) => {
                let t = crate::text::trim_str(content);
                let one = t.len() == 1 && t[0] == '1';
                proof {
                    if t@.len() == 1 && t@[0] == '1' {
                        assert(t@ =~= seq!['1']);
                    }
                }
                one
            },
            None => {
                let block = block_name(dev);
                let bv = chars_of(block.as_str());
                crate::text::starts_with_str(&bv, "sd") || crate::text::starts_with_str(&bv, "mmcblk")
            },
        },
        None => false,
    }
}

/// Mount points that belong to the running system.
pub open spec fn is_system_mount_spec(mount: Seq<char>) -> bool {
    mount == "/"@ || mount == "/boot"@ || mount == "/boot/efi"@ || mount == "/efi"@ || mount
        == "/usr"@ || mount == "/var"@ || mount == "/etc"@
}

/// Whether `mount` is a system mount point.
pub fn is_system_mount(mount: &str) -> (r: bool)
    ensures
        r == is_system_mount_spec(mount@),
{
    let v = chars_of(mount);
    is_str(&v, "/") || is_str(&v, "/boot") || is_str(&v, "/boot/efi") || is_str(&v, "/efi")
        || is_str(&v, "/usr") || is_str(&v, "/var") || is_str(&v, "/etc")
}

/// A volume's label: the trimmed `lsblk` label when non-empty, else the
/// mount point's last component, else `fallback`.
pub open spec fn label_spec(lsblk_output: Option<Seq<char>>, mount_point: Seq<char>, fallback: Seq<char>) -> Seq<char> {
    let from_lsblk = match lsblk_output {
        Some(o) => trim(o),
        None => Seq::empty(),
    };
    if from_lsblk.len() > 0 {
        from_lsblk
    } else {
        match file_name(mount_point) {
            Some(n) => n,
            None => fallback,
        }
    }
}

/// Chooses a volume's label (see [`label_spec`]).
pub fn volume_label(lsblk_output: Option<&str>, mount_point: &str, fallback: &str) -> (r: String)
    ensures
        r@ == label_spec(
            match lsblk_output {
                Some(o) => Some(o@),
                None => None,
            },
            mount_point@,
            fallback@,
        ),
{
    match lsblk_output {
        Some(o) => {
            let t = crate::text::trim_str(o);
            if t.len() > 0 {
                return string_from(&t);
            }
        },
        None => {},
    }
    match file_name_exec(mount_point) {
        Some(n) => n,
        None => owned(fallback),
    }
}

/// A scanned volume: used space is total minus free, never below zero.
pub fn scanned_disk(
    mount_point: String,
    label: String,
    filesystem: String,
    total_bytes: u64,
    free_bytes: u64,
    is_removable: bool,
    device_path: String,
) -> (d: DiskInfo)
    ensures
        d.mount_point@ == mount_point@,
        d.label@ == label@,
        d.filesystem@ == filesystem@,
        d.total_bytes == total_bytes,
        d.free_bytes == free_bytes,
        d.used_bytes == sat_sub(total_bytes, free_bytes),
        d.is_removable == is_removable,
        d.is_system == is_system_mount_spec(mount_point@),
        d.device_path@ == device_path@,
{
    let is_system = is_system_mount(mount_point.as_str());
    DiskInfo {
        mount_point,
        label,
        filesystem,
        total_bytes,
        free_bytes,
        used_bytes: total_bytes.saturating_sub(free_bytes),
        is_removable,
        is_system,
        device_path,
    }
}

/// A volume found under the usual external mount directories: removable,
/// file system unknown, named after its directory (`Externo` otherwise).
pub fn external_disk(mount_point: &str, total_bytes: u64, free_bytes: u64) -> (d: DiskInfo)
    ensures
        d.mount_point@ == mount_point@,
        d.label@ == label_spec(None, mount_point@, "Externo"@),
        d.filesystem@ == "unknown"@,
        d.total_bytes == total_bytes,
        d.free_bytes == free_bytes,
        d.used_bytes == sat_sub(total_bytes, free_bytes),
        d.is_removable,
        !d.is_system,
        d.device_path@.len() == 0,
{
    DiskInfo {
        mount_point: owned(mount_point),
        label: volume_label(None, mount_point, "Externo"),
        filesystem: owned("unknown"),
        total_bytes,
        free_bytes,
        used_bytes: total_bytes.saturating_sub(free_bytes),
        is_removable: true,
        is_system: false,
        device_path: String::new(),
    }
}

/// Total and available bytes of a file system from its `statvfs` figures:
/// blocks times fragment size.
pub fn disk_usage(blocks: u64, available_blocks: u64, fragment_size: u64) -> (r: (u64, u64))
    requires
        blocks * fragment_size <= u64::MAX,
        available_blocks * fragment_size <= u64::MAX,
    ensures
        r.0 == blocks * fragment_size,
        r.1 == available_blocks * fragment_size,
{
    (blocks * fragment_size, available_blocks * fragment_size)
}

} // verus!
