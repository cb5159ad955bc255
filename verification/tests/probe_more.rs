use omafetch::probe::env::{
    basename, is_hyprland_name, shell_version_program, shell_with_version, terminal,
    terminal_version_program, terminal_with_version, wm, wm_with_version,
};
use omafetch::probe::filesystem::{
    age_days, disk_candidates_from, mounted_disk_usages, trimmed_nonempty, usage_from_blocks,
    FsUsage,
};
use omafetch::probe::fontconfig::{family_from_fc_match, monospace_family};
use omafetch::probe::procfs::{kernel, meminfo_from, os_name_from, rootfs_from, uptime, MemInfo};
use omafetch::probe::sysfs::{
    battery, battery_info, PowerSupply, cmdline_value, gtt_memory_bytes, host_model, kernel_runtime_config,
    selected_bracket_value, DrmCard,
};

fn s(v: &str) -> Option<String> {
    Some(v.to_string())
}

#[test]
fn os_name_falls_back_to_name_and_strips_quotes() {
    assert_eq!(os_name_from("NAME=\"Arch\"\nID=arch\n"), s("Arch"));
    assert_eq!(os_name_from("ID=arch\n"), None);
    assert_eq!(kernel(s("6.15.2-arch1-1")), s("Linux 6.15.2-arch1-1"));
    assert_eq!(kernel(None), None);
}

#[test]
fn meminfo_needs_total_and_available_and_last_line_wins() {
    assert_eq!(meminfo_from("MemTotal: 10 kB\n"), None);
    assert_eq!(
        meminfo_from("MemTotal: 10 kB\nMemAvailable: 4 kB\nMemTotal: 12 kB\n"),
        Some(MemInfo {
            total_kib: 12,
            available_kib: 4,
            swap_total_kib: 0,
            swap_free_kib: 0
        })
    );
    assert_eq!(meminfo_from("MemTotal: 10 kB\nMemAvailable: x kB\n"), None);
}

#[test]
fn rootfs_plain_device() {
    assert_eq!(
        rootfs_from("proc /proc proc rw 0 0\n/dev/nvme0n1p2 / ext4 rw,relatime 0 0\n"),
        s("ext4")
    );
    assert_eq!(rootfs_from("proc /proc proc rw 0 0\n"), None);
}

#[test]
fn uptime_reads_whole_seconds() {
    assert_eq!(uptime(s("13320.75 5000.10")), Some(13320));
    assert_eq!(uptime(s("abc")), None);
    assert_eq!(uptime(s("-3.5")), Some(0));
    assert_eq!(uptime(None), None);
}

#[test]
fn file_contents_are_trimmed() {
    assert_eq!(trimmed_nonempty("  x \n"), s("x"));
    assert_eq!(trimmed_nonempty(" \n\t"), None);
}

#[test]
fn filesystem_figures() {
    assert_eq!(
        usage_from_blocks(10, 4, 4096),
        FsUsage {
            total_bytes: 40960,
            available_bytes: 16384
        }
    );
    assert_eq!(usage_from_blocks(u64::MAX, 1, 2).total_bytes, u64::MAX);
    assert_eq!(age_days(0, 100), None);
    assert_eq!(age_days(86_400, 86_400 * 3 + 5), Some(2));
    assert_eq!(age_days(1000, 10), Some(0));
}

#[test]
fn usages_follow_the_candidates_that_answered() {
    let candidates = disk_candidates_from(
        "/dev/sda1 / ext4 rw 0 0\n/dev/sdb1 /mnt/usb/ exfat rw 0 0\n/dev/sdc1 /home xfs rw 0 0\n",
    );
    let usages = vec![
        Some(FsUsage {
            total_bytes: 2,
            available_bytes: 1,
        }),
        None,
        Some(FsUsage {
            total_bytes: 8,
            available_bytes: 3,
        }),
    ];
    let mounted = mounted_disk_usages(&candidates, &usages);
    assert_eq!(mounted.len(), 2);
    assert_eq!(mounted[0].mount, "root");
    assert_eq!(mounted[1].mount, "home");
    assert_eq!(mounted[1].total_bytes, 8);
}

#[test]
fn host_model_combines_vendor_and_product() {
    assert_eq!(host_model(s("Framework"), s("Laptop 13"), None), s("Framework Laptop 13"));
    assert_eq!(host_model(s("LENOVO"), s("LENOVO ThinkPad"), None), s("LENOVO ThinkPad"));
    assert_eq!(host_model(None, s("Box"), None), s("Box"));
    assert_eq!(host_model(s("Acme"), None, None), s("Acme"));
    assert_eq!(host_model(None, None, s("myhost")), s("myhost"));
}

#[test]
fn battery_status_is_lower_cased() {
    let info = battery_info(s("87"), s("Charging"));
    assert_eq!(info.capacity, Some(87));
    assert_eq!(info.status, s("charging"));
    let info = battery_info(s("300"), s("ÄUSSERST"));
    assert_eq!(info.capacity, None);
    assert_eq!(info.status, s("äusserst"));
}

#[test]
fn kernel_settings_summary() {
    assert_eq!(
        selected_bracket_value("always [madvise] never"),
        s("madvise")
    );
    assert_eq!(selected_bracket_value("none voluntary"), None);
    assert_eq!(cmdline_value("quiet iommu=pt ttm.pages_limit=4194304", "iommu"), s("pt"));
    assert_eq!(
        kernel_runtime_config(
            s("none voluntary [full] lazy"),
            s("active"),
            s("always [madvise] never"),
            s("Y"),
            s("root=/dev/x iommu=pt ttm.pages_limit=27648000"),
        ),
        vec![
            "preempt full".to_string(),
            "pstate active".to_string(),
            "THP madvise".to_string(),
            "zswap on".to_string(),
            "IOMMU pt".to_string(),
            "TTM 105G".to_string(),
        ]
    );
    assert_eq!(
        kernel_runtime_config(None, None, None, s("maybe"), s("ttm.pages_limit=x")),
        vec!["zswap maybe".to_string()]
    );
    assert_eq!(
        kernel_runtime_config(None, None, None, None, s("ttm.pages_limit=393216")),
        vec!["TTM 2G".to_string()]
    );
}

#[test]
fn gtt_size_of_first_amd_card() {
    let cards = vec![
        DrmCard {
            name: "card0-DP-1".to_string(),
            vendor: s("0x1002"),
            gtt_total: s("1"),
        },
        DrmCard {
            name: "card1".to_string(),
            vendor: s("0x8086"),
            gtt_total: s("2"),
        },
        DrmCard {
            name: "card2".to_string(),
            vendor: s("0x1002"),
            gtt_total: s("3"),
        },
    ];
    assert_eq!(gtt_memory_bytes(&cards), Some(3));
    assert_eq!(gtt_memory_bytes(&Vec::new()), None);
}

#[test]
fn fonts_fall_back_to_fc_match() {
    assert_eq!(monospace_family(None, s("Fira Code,Fira\n")), s("Fira Code"));
    assert_eq!(monospace_family(s("<fontconfig/>"), None), None);
    assert_eq!(family_from_fc_match(""), None);
}

#[test]
fn path_base_names() {
    assert_eq!(basename("/bin/"), s("bin"));
    assert_eq!(basename("/"), None);
    assert_eq!(basename("a/.."), None);
    assert_eq!(basename("a/."), s("a"));
    assert_eq!(basename(""), None);
}

#[test]
fn shell_versions() {
    assert_eq!(shell_version_program("zsh"), s("zsh"));
    assert_eq!(shell_version_program("nu"), None);
    assert_eq!(
        shell_with_version(s("bash"), s("GNU bash, version 5.2.37(1)-release (x86_64-pc-linux-gnu)\nmore")),
        s("bash v5.2.37")
    );
    assert_eq!(shell_with_version(s("zsh"), s("zsh 5.9 (x86_64)")), s("zsh v5.9"));
    assert_eq!(shell_with_version(s("fish"), s("fish, version 4.0.2")), s("fish v4.0.2"));
    assert_eq!(shell_with_version(s("nu"), s("0.1")), s("nu"));
    assert_eq!(shell_with_version(None, None), None);
}

#[test]
fn terminal_and_wm_choice() {
    assert_eq!(terminal(false, true, true, false, s("x"), None, None), s("Kitty"));
    assert_eq!(terminal(false, false, false, false, None, s("foot"), s("xterm")), s("foot"));
    assert_eq!(terminal_version_program("WezTerm"), s("wezterm"));
    assert_eq!(
        terminal_with_version(s("Ghostty"), s("Ghostty 1.1.3\nmore")),
        s("Ghostty v1.1.3")
    );
    assert_eq!(terminal_with_version(s("foot"), s("foot 1.2")), s("foot"));
    assert_eq!(wm(true, s("GNOME"), None), s("Hyprland"));
    assert_eq!(wm(false, None, s("sway")), s("sway"));
    assert!(is_hyprland_name("HyprLand"));
    assert_eq!(wm_with_version(s("Hyprland"), s("Hyprland v0.50.1 built")), s("Hyprland v0.50.1"));
    assert_eq!(wm_with_version(s("hyprland"), s("Hyprland 0.50 built")), s("hyprland v0.50"));
    assert_eq!(wm_with_version(s("sway"), s("x 1.0")), s("sway"));
}

#[test]
fn battery_is_the_first_battery_supply() {
    let supplies = vec![
        PowerSupply {
            kind: s("Mains"),
            capacity: None,
            status: None,
        },
        PowerSupply {
            kind: s("Battery"),
            capacity: s("55"),
            status: s("Discharging"),
        },
        PowerSupply {
            kind: s("Battery"),
            capacity: s("99"),
            status: None,
        },
    ];
    let info = battery(&supplies).unwrap();
    assert_eq!(info.capacity, Some(55));
    assert_eq!(info.status, s("discharging"));
    assert_eq!(battery(&Vec::new()), None);
}
