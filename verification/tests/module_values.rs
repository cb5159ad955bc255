use omafetch::modules::cpu::Cpu;
use omafetch::modules::disk::Disk;
use omafetch::modules::font::Font;
use omafetch::modules::gtt_memory::GttMemory;
use omafetch::modules::kernel_config::KernelConfig;
use omafetch::modules::memory::Memory;
use omafetch::modules::omarchy::Omarchy;
use omafetch::modules::omarchy_channel::OmarchyChannel;
use omafetch::modules::omarchy_source::OmarchySource;
use omafetch::modules::omarchy_updated::{format_pacman_timestamp, OmarchyUpdated};
use omafetch::modules::os_age::OsAge;
use omafetch::modules::packages::{aur_package_count, Packages};
use omafetch::modules::registry::{ModuleKey, ModuleRegistry};
use omafetch::modules::rootfs::RootFs;
use omafetch::modules::swap::Swap;
use omafetch::modules::types::{Module, ModuleOutput};
use omafetch::modules::uptime::Uptime;
use omafetch::probe::filesystem::MountUsage;
use omafetch::probe::procfs::MemInfo;

fn s(v: &str) -> Option<String> {
    Some(v.to_string())
}

#[test]
fn usage_values() {
    let mem = MemInfo {
        total_kib: 2_097_152,
        available_kib: 1_048_576,
        swap_total_kib: 0,
        swap_free_kib: 0,
    };
    assert_eq!(Memory::value(Some(mem)), "1.0 GiB / 2.0 GiB");
    assert_eq!(Swap::value(Some(mem)), "0.0 GiB / 0.0 GiB");
    assert_eq!(Memory::value(None), "unknown");
    assert_eq!(GttMemory::value(Some(3 * 1_073_741_824 / 2)), "1.5 GiB");
    assert_eq!(GttMemory::value(None), "unknown");
}

#[test]
fn disk_value_lists_each_disk() {
    let disks = vec![
        MountUsage {
            mount: "root".to_string(),
            total_bytes: 2_147_483_648,
            available_bytes: 1_073_741_824,
        },
        MountUsage {
            mount: "data".to_string(),
            total_bytes: 10,
            available_bytes: 20,
        },
    ];
    assert_eq!(
        Disk::value(&disks),
        "root  1.0 GiB / 2.0 GiB\ndata  0.0 GiB / 0.0 GiB"
    );
    assert_eq!(Disk::value(&Vec::new()), "unknown");
}

#[test]
fn small_values() {
    assert_eq!(Omarchy::value(s("3.0.1")), "v3.0.1");
    assert_eq!(OsAge::value(Some(12)), "12 days");
    assert_eq!(Uptime::value(Some(90_061)), "1d 1h 1m");
    assert_eq!(Uptime::value(None), "unknown");
    assert_eq!(KernelConfig::value(&vec!["a".to_string(), "b".to_string()]), "a\nb");
    assert_eq!(KernelConfig::value(&Vec::new()), "unknown");
    assert_eq!(RootFs::value(s("btrfs encrypted subvol=/@ compress=zstd:3")), "btrfs encrypted @ zstd:3");
    assert_eq!(OmarchySource::value(s("main"), s("abc")), "main (abc)");
    assert_eq!(OmarchySource::value(s("main"), None), "main");
    assert_eq!(OmarchySource::value(None, s("abc")), "unknown");
}

#[test]
fn channel_values() {
    let stable = s("Server = https://stable-mirror.omarchy.org/$repo");
    let edge = s("Include = https://pkgs.omarchy.org/edge/$repo");
    assert_eq!(OmarchyChannel::value(stable.clone(), stable.clone()), "stable");
    assert_eq!(OmarchyChannel::value(stable.clone(), edge.clone()), "mirror=stable packages=edge");
    assert_eq!(OmarchyChannel::value(None, edge), "packages=edge");
    assert_eq!(OmarchyChannel::value(stable, None), "mirror=stable");
    assert_eq!(OmarchyChannel::value(None, None), "unknown");
}

#[test]
fn updated_values() {
    assert_eq!(format_pacman_timestamp("2026-08-01T12:34:56-0400"), "2026-08-01 12:34:56");
    assert_eq!(format_pacman_timestamp("2026"), "2026");
    assert_eq!(
        OmarchyUpdated::value(s("upgraded foo\n[2026-01-02T03:04:05+0000] [ALPM] upgraded x (1 -> 2)")),
        "2026-01"
    );
    assert_eq!(OmarchyUpdated::value(s("x upgraded y")), "unknown");
}

#[test]
fn package_values() {
    assert_eq!(aur_package_count(s("yay\n\n  \nparu\n")), Some(2));
    assert_eq!(aur_package_count(None), None);
    assert_eq!(Packages::value(Some(1200), Some(3)), "Pacman (1200) AUR (3)");
    assert_eq!(Packages::value(Some(1200), None), "Pacman (1200)");
    assert_eq!(Packages::value(None, Some(3)), "unknown");
}

#[test]
fn module_names_match_the_registry() {
    assert_eq!(Cpu.name(), ModuleKey::Cpu.as_str());
    assert_eq!(Cpu.label(), "CPU");
    assert_eq!(Font.name(), "font");
    assert_eq!(ModuleRegistry::new().names().len(), 25);
    let unknown = ModuleOutput::unknown("cpu", "CPU");
    assert_eq!(unknown.value, "unknown");
}
