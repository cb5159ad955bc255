use omafetch::probe::filesystem::{disk_candidates_from, pretty_mount};

#[test]
fn filters_disk_candidates_from_mounts() {
    let input = "/dev/mapper/root / btrfs rw,relatime 0 0\n/dev/mapper/home /home ext4 rw,relatime 0 0\n/dev/nvme0n1p1 /boot vfat rw,relatime 0 0\ntmpfs /tmp tmpfs rw 0 0\nproc /proc proc rw 0 0\n/dev/sdb1 /mnt/data ext4 rw,relatime 0 0\n/dev/sdb1 /mnt/data-dup ext4 rw,relatime 0 0\n";

    let candidates = disk_candidates_from(input);
    let summarized = candidates
        .iter()
        .map(|candidate| {
            (
                candidate.device.as_str(),
                pretty_mount(&candidate.mount),
                candidate.fs.as_str(),
            )
        })
        .collect::<Vec<_>>();

    assert_eq!(
        summarized,
        vec![
            ("/dev/mapper/root", "root".to_string(), "btrfs"),
            ("/dev/mapper/home", "home".to_string(), "ext4"),
            ("/dev/sdb1", "data".to_string(), "ext4"),
        ]
    );
}

#[test]
fn names_known_mounts() {
    assert_eq!(pretty_mount("/"), "root");
    assert_eq!(pretty_mount("/home"), "home");
    assert_eq!(pretty_mount("/boot"), "boot");
    assert_eq!(pretty_mount("/mnt/data"), "data");
}
