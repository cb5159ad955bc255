use omafetch::modules::registry::{module_line, ModuleKey, ModuleRegistry};

#[test]
fn default_order_is_curated() {
    assert_eq!(
        ModuleRegistry::new().defaults(),
        vec![
            ModuleKey::Omarchy,
            ModuleKey::OmarchySource,
            ModuleKey::OmarchyChannel,
            ModuleKey::Theme,
            ModuleKey::Host,
            ModuleKey::Os,
            ModuleKey::OsAge,
            ModuleKey::Kernel,
            ModuleKey::KernelConfig,
            ModuleKey::Wm,
            ModuleKey::Terminal,
            ModuleKey::Shell,
            ModuleKey::Display,
            ModuleKey::Cpu,
            ModuleKey::Gpu,
            ModuleKey::GttMemory,
            ModuleKey::Memory,
            ModuleKey::Swap,
            ModuleKey::Disk,
            ModuleKey::RootFs,
            ModuleKey::Packages,
            ModuleKey::OmarchyUpdated,
            ModuleKey::Uptime,
            ModuleKey::LocalIp,
            ModuleKey::Battery,
        ]
    );
}

#[test]
fn explicit_modules_keep_compact_identity_context() {
    let registry = ModuleRegistry::new();
    let modules = registry
        .resolve_or_defaults(&["cpu".to_string(), "memory".to_string(), "theme".to_string()])
        .expect("modules should resolve");
    let names = modules
        .iter()
        .map(|module| module.as_str())
        .collect::<Vec<_>>();

    assert_eq!(
        names,
        vec![
            "omarchy", "theme", "host", "os", "kernel", "wm", "cpu", "memory"
        ]
    );
}

#[test]
fn unknown_module_returns_clear_error() {
    let err = match ModuleRegistry::new().resolve_or_defaults(&["nope".to_string()]) {
        Ok(_) => panic!("expected unknown module error"),
        Err(err) => err.message(),
    };

    assert!(err.contains("unknown module: nope"));
    assert!(err.contains("available modules:"));
}

#[test]
fn empty_module_list_gives_defaults() {
    let registry = ModuleRegistry::new();
    assert_eq!(registry.resolve_or_defaults(&[]).unwrap(), registry.defaults());
}

#[test]
fn repeated_names_are_selected_once() {
    let registry = ModuleRegistry::new();
    let modules = registry
        .resolve_or_defaults(&["cpu".to_string(), "cpu".to_string(), "omarchy".to_string()])
        .unwrap();
    assert_eq!(
        modules,
        vec![
            ModuleKey::Omarchy,
            ModuleKey::Theme,
            ModuleKey::Host,
            ModuleKey::Os,
            ModuleKey::Kernel,
            ModuleKey::Wm,
            ModuleKey::Cpu
        ]
    );
}

#[test]
fn unknown_module_error_lists_every_module() {
    let err = ModuleRegistry::new()
        .resolve_or_defaults(&["cpu".to_string(), "bogus".to_string(), "also-bogus".to_string()])
        .unwrap_err();
    assert_eq!(err.name, "bogus");
    assert_eq!(
        err.message(),
        "unknown module: bogus\navailable modules: omarchy, omarchy-source, omarchy-channel, omarchy-updated, theme, host, os, os-age, kernel, kernel-config, wm, terminal, shell, display, cpu, gpu, gtt-memory, memory, swap, disk, rootfs, battery, localip, packages, uptime"
    );
}

#[test]
fn names_round_trip_through_parse() {
    let registry = ModuleRegistry::new();
    for name in registry.names() {
        let key = ModuleKey::parse(name).expect("registered name parses");
        assert_eq!(key.as_str(), name);
    }
    assert_eq!(ModuleKey::parse("Cpu"), None);
    assert_eq!(ModuleKey::parse(""), None);
}

#[test]
fn compact_defaults_are_the_identity_modules() {
    assert_eq!(
        ModuleRegistry::new().compact_defaults(),
        vec![
            ModuleKey::Omarchy,
            ModuleKey::Theme,
            ModuleKey::Host,
            ModuleKey::Os,
            ModuleKey::Kernel,
            ModuleKey::Wm
        ]
    );
}

#[test]
fn module_lines_carry_their_modules_name_and_label() {
    let registry = ModuleRegistry::new();
    for name in registry.names() {
        let key = ModuleKey::parse(name).expect("registered name");
        let line = module_line(key, "v");
        assert_eq!(line.name, key.as_str());
        assert_eq!(line.value, "v");
    }
    assert_eq!(module_line(ModuleKey::Cpu, "x").label, "CPU");
    assert_eq!(module_line(ModuleKey::Gpu, "x").label, "GPU");
    assert_eq!(module_line(ModuleKey::KernelConfig, "x").label, "Config");
    assert_eq!(module_line(ModuleKey::LocalIp, "x").label, "IP");
    assert_eq!(module_line(ModuleKey::Terminal, "x").label, "Term");
    assert_eq!(module_line(ModuleKey::RootFs, "x").name, "rootfs");
}

#[test]
fn list_text_names_modules_one_per_line() {
    let registry = ModuleRegistry::new();
    let text = registry.list_text();
    assert!(text.starts_with("omarchy\nomarchy-source\n"));
    assert!(text.ends_with("packages\nuptime\n"));
    assert_eq!(text.lines().count(), 25);
}
