use telemetroid::info_collector::hardware_info::DiskInfo;
use telemetroid::info_collector::linux_hardware_info_collector::{
    collect_disk_entries, disks_info, json_u64, push_mounted_filesystems, BlockDevice, JsonField,
};

fn text(s: &str) -> Option<String> {
    Some(s.to_string())
}

fn node(name: &str, kind: &str, fstype: Option<&str>, mount: Option<&str>) -> BlockDevice {
    BlockDevice {
        name: text(name),
        device_type: text(kind),
        fstype: fstype.map(|s| s.to_string()),
        mountpoint: mount.map(|s| s.to_string()),
        fsused: None,
        fssize: None,
        size: None,
        children: Vec::new(),
    }
}

fn row(d: &DiskInfo) -> (String, String, u64, Option<u64>) {
    (d.label.clone(), d.filesystem.clone(), d.size, d.used)
}

fn rows(v: &[DiskInfo]) -> Vec<(String, String, u64, Option<u64>)> {
    v.iter().map(row).collect()
}

fn r(label: &str, fs: &str, size: u64, used: Option<u64>) -> (String, String, u64, Option<u64>) {
    (label.to_string(), fs.to_string(), size, used)
}

#[test]
fn numeric_fields_accept_numbers_and_strings() {
    assert_eq!(json_u64(&Some(JsonField::Number(Some(42)))), Some(42));
    assert_eq!(json_u64(&Some(JsonField::Number(None))), None);
    assert_eq!(json_u64(&Some(JsonField::Text("1024".to_string()))), Some(1024));
    assert_eq!(json_u64(&Some(JsonField::Text("1 KiB".to_string()))), None);
    assert_eq!(json_u64(&Some(JsonField::Other)), None);
    assert_eq!(json_u64(&None), None);
}

#[test]
fn mounted_partitions_give_rows_in_tree_order() {
    let mut disk = node("nvme0n1", "disk", None, None);
    disk.size = Some(JsonField::Number(Some(1000)));
    let mut efi = node("nvme0n1p1", "part", Some("vfat"), Some("/boot/efi"));
    efi.fssize = Some(JsonField::Text("500".to_string()));
    efi.fsused = Some(JsonField::Number(Some(50)));
    let mut root = node("nvme0n1p2", "part", None, Some("/"));
    root.size = Some(JsonField::Number(Some(400)));
    let swap = node("nvme0n1p3", "part", Some("swap"), Some("[SWAP]"));
    let mut crypt = node("nvme0n1p4", "part", Some("crypto_LUKS"), None);
    let mut home = node("home", "crypt", Some("btrfs"), Some("/home"));
    home.fssize = Some(JsonField::Number(Some(300)));
    home.fsused = Some(JsonField::Text("bad".to_string()));
    crypt.children.push(home);
    disk.children = vec![efi, root, swap, crypt];

    let mut out = Vec::new();
    push_mounted_filesystems(&disk, &mut out);
    assert_eq!(
        rows(&out),
        vec![
            r("/boot/efi", "vfat", 500, Some(50)),
            r("/", "unknown", 400, Some(0)),
            r("/home", "btrfs", 300, Some(0)),
        ]
    );
    let mut again = Vec::new();
    collect_disk_entries(&disk, &mut again);
    assert_eq!(rows(&again), rows(&out));
}

#[test]
fn an_unmounted_disk_gets_a_bare_row() {
    let mut disk = node("sdb", "disk", Some("ntfs"), None);
    disk.size = Some(JsonField::Text("2000".to_string()));
    disk.children.push(node("sdb1", "part", Some("ntfs"), Some("")));
    let mut out = Vec::new();
    collect_disk_entries(&disk, &mut out);
    assert_eq!(rows(&out), vec![r("sdb", "ntfs, not mounted", 2000, None)]);

    let mut out = Vec::new();
    collect_disk_entries(&node("sdc", "disk", None, None), &mut out);
    assert_eq!(rows(&out), vec![r("sdc", "not mounted", 0, None)]);

    let mut out = Vec::new();
    collect_disk_entries(&node("sdd", "disk", Some(""), None), &mut out);
    assert_eq!(rows(&out), vec![r("sdd", "not mounted", 0, None)]);

    // Only whole disks get a bare row.
    let mut out = Vec::new();
    collect_disk_entries(&node("loop0", "loop", Some("squashfs"), None), &mut out);
    assert!(out.is_empty());
}

#[test]
fn repeated_mounts_keep_their_first_row() {
    let mut a = node("sda", "disk", Some("btrfs"), Some("/data"));
    a.fssize = Some(JsonField::Number(Some(10)));
    let mut b = node("sdb", "disk", Some("btrfs"), Some("/data"));
    b.fssize = Some(JsonField::Number(Some(20)));
    let c = node("sdc", "disk", None, None);
    let d = node("sdc", "disk", None, None);
    let mut e = node("sde", "disk", Some("ext4"), Some("/srv"));
    e.fsused = Some(JsonField::Number(Some(1)));
    let out = disks_info(&vec![a, b, c, d, e]);
    assert_eq!(
        rows(&out),
        vec![
            r("/data", "btrfs", 10, Some(0)),
            r("sdc", "not mounted", 0, None),
            r("sdc", "not mounted", 0, None),
            r("/srv", "ext4", 0, Some(1)),
        ]
    );
    assert!(disks_info(&Vec::new()).is_empty());
}
