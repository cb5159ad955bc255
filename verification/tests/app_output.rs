use omafetch::app::{fetch_plan, public_disk, public_outputs, public_rootfs, public_source, visible_outputs};
use omafetch::cli::Cli;
use omafetch::modules::types::ModuleOutput;

fn out(name: &'static str, label: &str, value: &str) -> ModuleOutput {
    ModuleOutput::new(name, label, value)
}

#[test]
fn public_source_drops_commit() {
    assert_eq!(public_source("main (abc1234)"), "main");
    assert_eq!(public_source("main"), "main");
}

#[test]
fn public_rootfs_drops_subvolume_and_compression() {
    assert_eq!(public_rootfs("btrfs encrypted @ zstd:3"), "btrfs encrypted");
    assert_eq!(public_rootfs("btrfs compress=zstd:3 @home"), "btrfs @home");
}

#[test]
fn public_disk_hides_mount_names_after_the_first() {
    assert_eq!(
        public_disk("root  1.0 GiB / 2.0 GiB\ndata  3.0 GiB / 4.0 GiB\nodd"),
        "root  1.0 GiB / 2.0 GiB\ndisk  3.0 GiB / 4.0 GiB\nodd"
    );
}

#[test]
fn public_outputs_hide_identifying_details() {
    let outputs = vec![
        out("omarchy", "Omarchy", "v4"),
        out("localip", "IP", "192.168.1.2"),
        out("omarchy-source", "Source", "dev (abc)"),
        out("rootfs", "Root", "btrfs encrypted @ zstd:3"),
    ];
    let public = public_outputs(outputs);
    let summary = public
        .iter()
        .map(|o| format!("{}={}", o.name, o.value))
        .collect::<Vec<_>>();
    assert_eq!(
        summary,
        vec!["omarchy=v4", "omarchy-source=dev", "rootfs=btrfs encrypted"]
    );
}

#[test]
fn default_fetch_hides_absent_battery_and_gtt() {
    let outputs = vec![
        out("battery", "Battery", "unknown"),
        out("gtt-memory", "GTT", "unknown"),
        out("cpu", "CPU", "unknown"),
        out("battery", "Battery", "80%"),
    ];
    let shown = visible_outputs(outputs.clone(), true);
    assert_eq!(
        shown.iter().map(|o| o.name).collect::<Vec<_>>(),
        vec!["cpu", "battery"]
    );
    assert_eq!(visible_outputs(outputs, false).len(), 4);
}

#[test]
fn fetch_plans() {
    assert_eq!(fetch_plan(&Cli::parse(vec!["list".to_string()])), None);
    let public = fetch_plan(&Cli::parse(vec!["public".to_string(), "cpu".to_string()])).unwrap();
    assert!(public.names.is_empty() && public.is_default_output && public.is_public);
    let named = fetch_plan(&Cli::parse(vec!["cpu".to_string()])).unwrap();
    assert_eq!(named.names, vec!["cpu".to_string()]);
    assert!(!named.is_default_output && !named.is_public);
    let default = fetch_plan(&Cli::parse(Vec::new())).unwrap();
    assert!(default.names.is_empty() && default.is_default_output && !default.is_public);
}
