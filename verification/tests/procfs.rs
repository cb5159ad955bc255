use omafetch::probe::procfs::{cpu_model_from, meminfo_from, os_name_from, rootfs_from, MemInfo};

#[test]
fn parses_os_release() {
    assert_eq!(
        os_name_from("NAME=Arch Linux\nPRETTY_NAME=\"Arch Linux\""),
        Some("Arch Linux".to_string())
    );
}

#[test]
fn parses_cpuinfo() {
    assert_eq!(
        cpu_model_from("processor: 0\nmodel name\t: AMD Ryzen AI Max+ 395\n"),
        Some("AMD Ryzen AI Max+ 395".to_string())
    );
}

#[test]
fn parses_meminfo() {
    assert_eq!(
        meminfo_from(
            "MemTotal:       2048000 kB\nMemAvailable:   1024000 kB\nSwapTotal: 500 kB\nSwapFree: 200 kB\n"
        ),
        Some(MemInfo {
            total_kib: 2048000,
            available_kib: 1024000,
            swap_total_kib: 500,
            swap_free_kib: 200
        })
    );
}

#[test]
fn parses_rootfs() {
    assert_eq!(
        rootfs_from("/dev/mapper/root / btrfs rw,subvol=/@,compress=zstd:3 0 0"),
        Some("btrfs encrypted subvol=/@ compress=zstd:3".to_string())
    );
}
