//! The catalogue of fetch modules: their names, the default orders, and the
//! resolution of a user's module list.

use vstd::prelude::*;
use crate::text::{append, chars_of, eq_exec, join, join_exec, string_of, views};
use crate::modules::types::{Module, ModuleOutput};
use crate::modules::omarchy::Omarchy;
use crate::modules::omarchy_source::OmarchySource;
use crate::modules::omarchy_channel::OmarchyChannel;
use crate::modules::omarchy_updated::OmarchyUpdated;
use crate::modules::theme::Theme;
use crate::modules::host::Host;
use crate::modules::os::Os;
use crate::modules::os_age::OsAge;
use crate::modules::kernel::Kernel;
use crate::modules::kernel_config::KernelConfig;
use crate::modules::wm::Wm;
use crate::modules::terminal::Terminal;
use crate::modules::shell::Shell;
use crate::modules::display::Display;
use crate::modules::cpu::Cpu;
use crate::modules::gpu::Gpu;
use crate::modules::gtt_memory::GttMemory;
use crate::modules::memory::Memory;
use crate::modules::swap::Swap;
use crate::modules::disk::Disk;
use crate::modules::rootfs::RootFs;
use crate::modules::battery::Battery;
use crate::modules::localip::LocalIp;
use crate::modules::packages::Packages;
use crate::modules::uptime::Uptime;

verus! {

/// One fetch module, by identity.
#[derive(Debug, Clone, Copy, PartialEq, Eq, Structural)]
pub enum ModuleKey {
    Omarchy,
    OmarchySource,
    OmarchyChannel,
    OmarchyUpdated,
    Theme,
    Host,
    Os,
    OsAge,
    Kernel,
    KernelConfig,
    Wm,
    Terminal,
    Shell,
    Display,
    Cpu,
    Gpu,
    GttMemory,
    Memory,
    Swap,
    Disk,
    RootFs,
    Battery,
    LocalIp,
    Packages,
    Uptime,
}

/// The name under which a module is selected on the command line.
pub open spec fn key_name(k: ModuleKey) -> Seq<char> {
    match k {
        ModuleKey::Omarchy => "omarchy"@,
        ModuleKey::OmarchySource => "omarchy-source"@,
        ModuleKey::OmarchyChannel => "omarchy-channel"@,
        ModuleKey::OmarchyUpdated => "omarchy-updated"@,
        ModuleKey::Theme => "theme"@,
        ModuleKey::Host => "host"@,
        ModuleKey::Os => "os"@,
        ModuleKey::OsAge => "os-age"@,
        ModuleKey::Kernel => "kernel"@,
        ModuleKey::KernelConfig => "kernel-config"@,
        ModuleKey::Wm => "wm"@,
        ModuleKey::Terminal => "terminal"@,
        ModuleKey::Shell => "shell"@,
        ModuleKey::Display => "display"@,
        ModuleKey::Cpu => "cpu"@,
        ModuleKey::Gpu => "gpu"@,
        ModuleKey::GttMemory => "gtt-memory"@,
        ModuleKey::Memory => "memory"@,
        ModuleKey::Swap => "swap"@,
        ModuleKey::Disk => "disk"@,
        ModuleKey::RootFs => "rootfs"@,
        ModuleKey::Battery => "battery"@,
        ModuleKey::LocalIp => "localip"@,
        ModuleKey::Packages => "packages"@,
        ModuleKey::Uptime => "uptime"@,
    }
}

/// The label on the line of the module registered under a key.
pub open spec fn key_label(k: ModuleKey) -> Seq<char> {
    match k {
        ModuleKey::Omarchy => "Omarchy"@,
        ModuleKey::OmarchySource => "Source"@,
        ModuleKey::OmarchyChannel => "Channel"@,
        ModuleKey::OmarchyUpdated => "Updated"@,
        ModuleKey::Theme => "Theme"@,
        ModuleKey::Host => "Host"@,
        ModuleKey::Os => "OS"@,
        ModuleKey::OsAge => "Age"@,
        ModuleKey::Kernel => "Kernel"@,
        ModuleKey::KernelConfig => "Config"@,
        ModuleKey::Wm => "WM"@,
        ModuleKey::Terminal => "Term"@,
        ModuleKey::Shell => "Shell"@,
        ModuleKey::Display => "Display"@,
        ModuleKey::Cpu => "CPU"@,
        ModuleKey::Gpu => "GPU"@,
        ModuleKey::GttMemory => "GTT"@,
        ModuleKey::Memory => "Memory"@,
        ModuleKey::Swap => "Swap"@,
        ModuleKey::Disk => "Disk"@,
        ModuleKey::RootFs => "Root"@,
        ModuleKey::Battery => "Battery"@,
        ModuleKey::LocalIp => "IP"@,
        ModuleKey::Packages => "Packages"@,
        ModuleKey::Uptime => "Uptime"@,
    }
}

/// The line of the module registered under `key`, with the given value: the
/// module's own name and label, as its `Module` impl gives them.
pub fn module_line(key: ModuleKey, value: &str) -> (r: ModuleOutput)
    ensures
        r.name@ == key_name(key),
        r.label@ == key_label(key),
        r.value@ == value@,
{
    match key {
        ModuleKey::Omarchy => ModuleOutput::new(Omarchy.name(), Omarchy.label(), value),
        ModuleKey::OmarchySource => ModuleOutput::new(OmarchySource.name(), OmarchySource.label(), value),
        ModuleKey::OmarchyChannel => ModuleOutput::new(OmarchyChannel.name(), OmarchyChannel.label(), value),
        ModuleKey::OmarchyUpdated => ModuleOutput::new(OmarchyUpdated.name(), OmarchyUpdated.label(), value),
        ModuleKey::Theme => ModuleOutput::new(Theme.name(), Theme.label(), value),
        ModuleKey::Host => ModuleOutput::new(Host.name(), Host.label(), value),
        ModuleKey::Os => ModuleOutput::new(Os.name(), Os.label(), value),
        ModuleKey::OsAge => ModuleOutput::new(OsAge.name(), OsAge.label(), value),
        ModuleKey::Kernel => ModuleOutput::new(Kernel.name(), Kernel.label(), value),
        ModuleKey::KernelConfig => ModuleOutput::new(KernelConfig.name(), KernelConfig.label(), value),
        ModuleKey::Wm => ModuleOutput::new(Wm.name(), Wm.label(), value),
        ModuleKey::Terminal => ModuleOutput::new(Terminal.name(), Terminal.label(), value),
        ModuleKey::Shell => ModuleOutput::new(Shell.name(), Shell.label(), value),
        ModuleKey::Display => ModuleOutput::new(Display.name(), Display.label(), value),
        ModuleKey::Cpu => ModuleOutput::new(Cpu.name(), Cpu.label(), value),
        ModuleKey::Gpu => ModuleOutput::new(Gpu.name(), Gpu.label(), value),
        ModuleKey::GttMemory => ModuleOutput::new(GttMemory.name(), GttMemory.label(), value),
        ModuleKey::Memory => ModuleOutput::new(Memory.name(), Memory.label(), value),
        ModuleKey::Swap => ModuleOutput::new(Swap.name(), Swap.label(), value),
        ModuleKey::Disk => ModuleOutput::new(Disk.name(), Disk.label(), value),
        ModuleKey::RootFs => ModuleOutput::new(RootFs.name(), RootFs.label(), value),
        ModuleKey::Battery => ModuleOutput::new(Battery.name(), Battery.label(), value),
        ModuleKey::LocalIp => ModuleOutput::new(LocalIp.name(), LocalIp.label(), value),
        ModuleKey::Packages => ModuleOutput::new(Packages.name(), Packages.label(), value),
        ModuleKey::Uptime => ModuleOutput::new(Uptime.name(), Uptime.label(), value),
    }
}

/// Every module, in registration order.
pub open spec fn all_keys() -> Seq<ModuleKey> {
    seq![
        ModuleKey::Omarchy,
        ModuleKey::OmarchySource,
        ModuleKey::OmarchyChannel,
        ModuleKey::OmarchyUpdated,
        ModuleKey::Theme,
        ModuleKey::Host,
        ModuleKey::Os,
        ModuleKey::OsAge,
        ModuleKey::Kernel,
        ModuleKey::KernelConfig,
        ModuleKey::Wm,
        ModuleKey::Terminal,
        ModuleKey::Shell,
        ModuleKey::Display,
        ModuleKey::Cpu,
        ModuleKey::Gpu,
        ModuleKey::GttMemory,
        ModuleKey::Memory,
        ModuleKey::Swap,
        ModuleKey::Disk,
        ModuleKey::RootFs,
        ModuleKey::Battery,
        ModuleKey::LocalIp,
        ModuleKey::Packages,
        ModuleKey::Uptime,
    ]
}

/// The curated order of the full default fetch.
pub open spec fn default_keys() -> Seq<ModuleKey> {
    seq![
        ModuleKey::Omarchy,
        ModuleKey::OmarchySource,
        ModuleKey::OmarchyChannel,
        ModuleKey::Theme,
        ModuleKey::Host,
        ModuleKey::Os,
        ModuleKey::OsAge,
        ModuleKey::Kernel,
        ModuleKey::KernelConfig,
        ModuleKey::Wm,
        ModuleKey::Terminal,
        ModuleKey::Shell,
        ModuleKey::Display,
        ModuleKey::Cpu,
        ModuleKey::Gpu,
        ModuleKey::GttMemory,
        ModuleKey::Memory,
        ModuleKey::Swap,
        ModuleKey::Disk,
        ModuleKey::RootFs,
        ModuleKey::Packages,
        ModuleKey::OmarchyUpdated,
        ModuleKey::Uptime,
        ModuleKey::LocalIp,
        ModuleKey::Battery,
    ]
}

/// The identity modules that precede an explicit module list.
pub open spec fn compact_keys() -> Seq<ModuleKey> {
    seq![
        ModuleKey::Omarchy,
        ModuleKey::Theme,
        ModuleKey::Host,
        ModuleKey::Os,
        ModuleKey::Kernel,
        ModuleKey::Wm,
    ]
}

/// The module a command-line name selects, if any.
pub open spec fn key_of_name(v: Seq<char>) -> Option<ModuleKey> {
    if v == "omarchy"@ {
        Some(ModuleKey::Omarchy)
    } else if v == "omarchy-source"@ {
        Some(ModuleKey::OmarchySource)
    } else if v == "omarchy-channel"@ {
        Some(ModuleKey::OmarchyChannel)
    } else if v == "omarchy-updated"@ {
        Some(ModuleKey::OmarchyUpdated)
    } else if v == "theme"@ {
        Some(ModuleKey::Theme)
    } else if v == "host"@ {
        Some(ModuleKey::Host)
    } else if v == "os"@ {
        Some(ModuleKey::Os)
    } else if v == "os-age"@ {
        Some(ModuleKey::OsAge)
    } else if v == "kernel"@ {
        Some(ModuleKey::Kernel)
    } else if v == "kernel-config"@ {
        Some(ModuleKey::KernelConfig)
    } else if v == "wm"@ {
        Some(ModuleKey::Wm)
    } else if v == "terminal"@ {
        Some(ModuleKey::Terminal)
    } else if v == "shell"@ {
        Some(ModuleKey::Shell)
    } else if v == "display"@ {
        Some(ModuleKey::Display)
    } else if v == "cpu"@ {
        Some(ModuleKey::Cpu)
    } else if v == "gpu"@ {
        Some(ModuleKey::Gpu)
    } else if v == "gtt-memory"@ {
        Some(ModuleKey::GttMemory)
    } else if v == "memory"@ {
        Some(ModuleKey::Memory)
    } else if v == "swap"@ {
        Some(ModuleKey::Swap)
    } else if v == "disk"@ {
        Some(ModuleKey::Disk)
    } else if v == "rootfs"@ {
        Some(ModuleKey::RootFs)
    } else if v == "battery"@ {
        Some(ModuleKey::Battery)
    } else if v == "localip"@ {
        Some(ModuleKey::LocalIp)
    } else if v == "packages"@ {
        Some(ModuleKey::Packages)
    } else if v == "uptime"@ {
        Some(ModuleKey::Uptime)
    } else {
        None
    }
}

impl ModuleKey {
    /// The module's command-line name.
    pub fn as_str(self) -> (s: &'static str)
        ensures
            s@ == key_name(self),
    {
        match self {
            ModuleKey::Omarchy => "omarchy",
            ModuleKey::OmarchySource => "omarchy-source",
            ModuleKey::OmarchyChannel => "omarchy-channel",
            ModuleKey::OmarchyUpdated => "omarchy-updated",
            ModuleKey::Theme => "theme",
            ModuleKey::Host => "host",
            ModuleKey::Os => "os",
            ModuleKey::OsAge => "os-age",
            ModuleKey::Kernel => "kernel",
            ModuleKey::KernelConfig => "kernel-config",
            ModuleKey::Wm => "wm",
            ModuleKey::Terminal => "terminal",
            ModuleKey::Shell => "shell",
            ModuleKey::Display => "display",
            ModuleKey::Cpu => "cpu",
            ModuleKey::Gpu => "gpu",
            ModuleKey::GttMemory => "gtt-memory",
            ModuleKey::Memory => "memory",
            ModuleKey::Swap => "swap",
            ModuleKey::Disk => "disk",
            ModuleKey::RootFs => "rootfs",
            ModuleKey::Battery => "battery",
            ModuleKey::LocalIp => "localip",
            ModuleKey::Packages => "packages",
            ModuleKey::Uptime => "uptime",
        }
    }

    /// The module a command-line name selects; `None` for any other text.
    pub fn parse(value: &str) -> (r: Option<ModuleKey>)
        ensures
            r == key_of_name(value@),
    {
        let v = chars_of(value);
        let mut i: usize = 0;
        let keys = all_keys_exec();
        while i < keys.len()
            invariant
                i <= keys.len(),
                keys@ == all_keys(),
                v@ == value@,
                forall|j: int| 0 <= j < i ==> key_name(#[trigger] keys@[j]) != v@,
            decreases keys.len() - i,
        {
            let k = keys[i];
            let name = chars_of(k.as_str());
            if eq_exec(&name, &v) {
                proof {
                    lemma_key_of_name(k);
                }
                return Some(k);
            }
            i += 1;
        }
        proof {
            lemma_unknown_name(v@);
        }
        None
    }
}

/// The registration order, computed.
fn all_keys_exec() -> (r: Vec<ModuleKey>)
    ensures
        r@ == all_keys(),
{
    let r = vec![
        ModuleKey::Omarchy,
        ModuleKey::OmarchySource,
        ModuleKey::OmarchyChannel,
        ModuleKey::OmarchyUpdated,
        ModuleKey::Theme,
        ModuleKey::Host,
        ModuleKey::Os,
        ModuleKey::OsAge,
        ModuleKey::Kernel,
        ModuleKey::KernelConfig,
        ModuleKey::Wm,
        ModuleKey::Terminal,
        ModuleKey::Shell,
        ModuleKey::Display,
        ModuleKey::Cpu,
        ModuleKey::Gpu,
        ModuleKey::GttMemory,
        ModuleKey::Memory,
        ModuleKey::Swap,
        ModuleKey::Disk,
        ModuleKey::RootFs,
        ModuleKey::Battery,
        ModuleKey::LocalIp,
        ModuleKey::Packages,
        ModuleKey::Uptime,
    ];
    assert(r@ =~= all_keys());
    r
}

/// Each name selects the module that carries it.
pub proof fn lemma_key_of_name(k: ModuleKey)
    ensures
        key_of_name(key_name(k)) == Some(k),
{
    match k {
        ModuleKey::Omarchy => lemma_name_omarchy(),
        ModuleKey::OmarchySource => lemma_name_omarchy_source(),
        ModuleKey::OmarchyChannel => lemma_name_omarchy_channel(),
        ModuleKey::OmarchyUpdated => lemma_name_omarchy_updated(),
        ModuleKey::Theme => lemma_name_theme(),
        ModuleKey::Host => lemma_name_host(),
        ModuleKey::Os => lemma_name_os(),
        ModuleKey::OsAge => lemma_name_os_age(),
        ModuleKey::Kernel => lemma_name_kernel(),
        ModuleKey::KernelConfig => lemma_name_kernel_config(),
        ModuleKey::Wm => lemma_name_wm(),
        ModuleKey::Terminal => lemma_name_terminal(),
        ModuleKey::Shell => lemma_name_shell(),
        ModuleKey::Display => lemma_name_display(),
        ModuleKey::Cpu => lemma_name_cpu(),
        ModuleKey::Gpu => lemma_name_gpu(),
        ModuleKey::GttMemory => lemma_name_gtt_memory(),
        ModuleKey::Memory => lemma_name_memory(),
        ModuleKey::Swap => lemma_name_swap(),
        ModuleKey::Disk => lemma_name_disk(),
        ModuleKey::RootFs => lemma_name_rootfs(),
        ModuleKey::Battery => lemma_name_battery(),
        ModuleKey::LocalIp => lemma_name_localip(),
        ModuleKey::Packages => lemma_name_packages(),
        ModuleKey::Uptime => lemma_name_uptime(),
    }
}

proof fn lemma_name_omarchy()
    ensures
        key_of_name(key_name(ModuleKey::Omarchy)) == Some(ModuleKey::Omarchy),
{
    reveal_strlit("omarchy");
}

proof fn lemma_name_omarchy_source()
    ensures
        key_of_name(key_name(ModuleKey::OmarchySource)) == Some(ModuleKey::OmarchySource),
{
    reveal_strlit("omarchy-source");
    reveal_strlit("omarchy");
    assert("omarchy-source"@.len() != "omarchy"@.len());
}

proof fn lemma_name_omarchy_channel()
    ensures
        key_of_name(key_name(ModuleKey::OmarchyChannel)) == Some(ModuleKey::OmarchyChannel),
{
    reveal_strlit("omarchy-channel");
    reveal_strlit("omarchy");
    assert("omarchy-channel"@.len() != "omarchy"@.len());
    reveal_strlit("omarchy-source");
    assert("omarchy-channel"@.len() != "omarchy-source"@.len());
}

proof fn lemma_name_omarchy_updated()
    ensures
        key_of_name(key_name(ModuleKey::OmarchyUpdated)) == Some(ModuleKey::OmarchyUpdated),
{
    reveal_strlit("omarchy-updated");
    reveal_strlit("omarchy");
    assert("omarchy-updated"@.len() != "omarchy"@.len());
    reveal_strlit("omarchy-source");
    assert("omarchy-updated"@.len() != "omarchy-source"@.len());
    reveal_strlit("omarchy-channel");
    assert("omarchy-updated"@[8] != "omarchy-channel"@[8]);
}

proof fn lemma_name_theme()
    ensures
        key_of_name(key_name(ModuleKey::Theme)) == Some(ModuleKey::Theme),
{
    reveal_strlit("theme");
    reveal_strlit("omarchy");
    assert("theme"@.len() != "omarchy"@.len());
    reveal_strlit("omarchy-source");
    assert("theme"@.len() != "omarchy-source"@.len());
    reveal_strlit("omarchy-channel");
    assert("theme"@.len() != "omarchy-channel"@.len());
    reveal_strlit("omarchy-updated");
    assert("theme"@.len() != "omarchy-updated"@.len());
}

proof fn lemma_name_host()
    ensures
        key_of_name(key_name(ModuleKey::Host)) == Some(ModuleKey::Host),
{
    reveal_strlit("host");
    reveal_strlit("omarchy");
    assert("host"@.len() != "omarchy"@.len());
    reveal_strlit("omarchy-source");
    assert("host"@.len() != "omarchy-source"@.len());
    reveal_strlit("omarchy-channel");
    assert("host"@.len() != "omarchy-channel"@.len());
    reveal_strlit("omarchy-updated");
    assert("host"@.len() != "omarchy-updated"@.len());
    reveal_strlit("theme");
    assert("host"@.len() != "theme"@.len());
}

proof fn lemma_name_os()
    ensures
        key_of_name(key_name(ModuleKey::Os)) == Some(ModuleKey::Os),
{
    reveal_strlit("os");
    reveal_strlit("omarchy");
    assert("os"@.len() != "omarchy"@.len());
    reveal_strlit("omarchy-source");
    assert("os"@.len() != "omarchy-source"@.len());
    reveal_strlit("omarchy-channel");
    assert("os"@.len() != "omarchy-channel"@.len());
    reveal_strlit("omarchy-updated");
    assert("os"@.len() != "omarchy-updated"@.len());
    reveal_strlit("theme");
    assert("os"@.len() != "theme"@.len());
    reveal_strlit("host");
    assert("os"@.len() != "host"@.len());
}

proof fn lemma_name_os_age()
    ensures
        key_of_name(key_name(ModuleKey::OsAge)) == Some(ModuleKey::OsAge),
{
    reveal_strlit("os-age");
    reveal_strlit("omarchy");
    assert("os-age"@.len() != "omarchy"@.len());
    reveal_strlit("omarchy-source");
    assert("os-age"@.len() != "omarchy-source"@.len());
    reveal_strlit("omarchy-channel");
    assert("os-age"@.len() != "omarchy-channel"@.len());
    reveal_strlit("omarchy-updated");
    assert("os-age"@.len() != "omarchy-updated"@.len());
    reveal_strlit("theme");
    assert("os-age"@.len() != "theme"@.len());
    reveal_strlit("host");
    assert("os-age"@.len() != "host"@.len());
    reveal_strlit("os");
    assert("os-age"@.len() != "os"@.len());
}

proof fn lemma_name_kernel()
    ensures
        key_of_name(key_name(ModuleKey::Kernel)) == Some(ModuleKey::Kernel),
{
    reveal_strlit("kernel");
    reveal_strlit("omarchy");
    assert("kernel"@.len() != "omarchy"@.len());
    reveal_strlit("omarchy-source");
    assert("kernel"@.len() != "omarchy-source"@.len());
    reveal_strlit("omarchy-channel");
    assert("kernel"@.len() != "omarchy-channel"@.len());
    reveal_strlit("omarchy-updated");
    assert("kernel"@.len() != "omarchy-updated"@.len());
    reveal_strlit("theme");
    assert("kernel"@.len() != "theme"@.len());
    reveal_strlit("host");
    assert("kernel"@.len() != "host"@.len());
    reveal_strlit("os");
    assert("kernel"@.len() != "os"@.len());
    reveal_strlit("os-age");
    assert("kernel"@[0] != "os-age"@[0]);
}

proof fn lemma_name_kernel_config()
    ensures
        key_of_name(key_name(ModuleKey::KernelConfig)) == Some(ModuleKey::KernelConfig),
{
    reveal_strlit("kernel-config");
    reveal_strlit("omarchy");
    assert("kernel-config"@.len() != "omarchy"@.len());
    reveal_strlit("omarchy-source");
    assert("kernel-config"@.len() != "omarchy-source"@.len());
    reveal_strlit("omarchy-channel");
    assert("kernel-config"@.len() != "omarchy-channel"@.len());
    reveal_strlit("omarchy-updated");
    assert("kernel-config"@.len() != "omarchy-updated"@.len());
    reveal_strlit("theme");
    assert("kernel-config"@.len() != "theme"@.len());
    reveal_strlit("host");
    assert("kernel-config"@.len() != "host"@.len());
    reveal_strlit("os");
    assert("kernel-config"@.len() != "os"@.len());
    reveal_strlit("os-age");
    assert("kernel-config"@.len() != "os-age"@.len());
    reveal_strlit("kernel");
    assert("kernel-config"@.len() != "kernel"@.len());
}

proof fn lemma_name_wm()
    ensures
        key_of_name(key_name(ModuleKey::Wm)) == Some(ModuleKey::Wm),
{
    reveal_strlit("wm");
    reveal_strlit("omarchy");
    assert("wm"@.len() != "omarchy"@.len());
    reveal_strlit("omarchy-source");
    assert("wm"@.len() != "omarchy-source"@.len());
    reveal_strlit("omarchy-channel");
    assert("wm"@.len() != "omarchy-channel"@.len());
    reveal_strlit("omarchy-updated");
    assert("wm"@.len() != "omarchy-updated"@.len());
    reveal_strlit("theme");
    assert("wm"@.len() != "theme"@.len());
    reveal_strlit("host");
    assert("wm"@.len() != "host"@.len());
    reveal_strlit("os");
    assert("wm"@[0] != "os"@[0]);
    reveal_strlit("os-age");
    assert("wm"@.len() != "os-age"@.len());
    reveal_strlit("kernel");
    assert("wm"@.len() != "kernel"@.len());
    reveal_strlit("kernel-config");
    assert("wm"@.len() != "kernel-config"@.len());
}

proof fn lemma_name_terminal()
    ensures
        key_of_name(key_name(ModuleKey::Terminal)) == Some(ModuleKey::Terminal),
{
    reveal_strlit("terminal");
    reveal_strlit("omarchy");
    assert("terminal"@.len() != "omarchy"@.len());
    reveal_strlit("omarchy-source");
    assert("terminal"@.len() != "omarchy-source"@.len());
    reveal_strlit("omarchy-channel");
    assert("terminal"@.len() != "omarchy-channel"@.len());
    reveal_strlit("omarchy-updated");
    assert("terminal"@.len() != "omarchy-updated"@.len());
    reveal_strlit("theme");
    assert("terminal"@.len() != "theme"@.len());
    reveal_strlit("host");
    assert("terminal"@.len() != "host"@.len());
    reveal_strlit("os");
    assert("terminal"@.len() != "os"@.len());
    reveal_strlit("os-age");
    assert("terminal"@.len() != "os-age"@.len());
    reveal_strlit("kernel");
    assert("terminal"@.len() != "kernel"@.len());
    reveal_strlit("kernel-config");
    assert("terminal"@.len() != "kernel-config"@.len());
    reveal_strlit("wm");
    assert("terminal"@.len() != "wm"@.len());
}

proof fn lemma_name_shell()
    ensures
        key_of_name(key_name(ModuleKey::Shell)) == Some(ModuleKey::Shell),
{
    reveal_strlit("shell");
    reveal_strlit("omarchy");
    assert("shell"@.len() != "omarchy"@.len());
    reveal_strlit("omarchy-source");
    assert("shell"@.len() != "omarchy-source"@.len());
    reveal_strlit("omarchy-channel");
    assert("shell"@.len() != "omarchy-channel"@.len());
    reveal_strlit("omarchy-updated");
    assert("shell"@.len() != "omarchy-updated"@.len());
    reveal_strlit("theme");
    assert("shell"@[0] != "theme"@[0]);
    reveal_strlit("host");
    assert("shell"@.len() != "host"@.len());
    reveal_strlit("os");
    assert("shell"@.len() != "os"@.len());
    reveal_strlit("os-age");
    assert("shell"@.len() != "os-age"@.len());
    reveal_strlit("kernel");
    assert("shell"@.len() != "kernel"@.len());
    reveal_strlit("kernel-config");
    assert("shell"@.len() != "kernel-config"@.len());
    reveal_strlit("wm");
    assert("shell"@.len() != "wm"@.len());
    reveal_strlit("terminal");
    assert("shell"@.len() != "terminal"@.len());
}

proof fn lemma_name_display()
    ensures
        key_of_name(key_name(ModuleKey::Display)) == Some(ModuleKey::Display),
{
    reveal_strlit("display");
    reveal_strlit("omarchy");
    assert("display"@[0] != "omarchy"@[0]);
    reveal_strlit("omarchy-source");
    assert("display"@.len() != "omarchy-source"@.len());
    reveal_strlit("omarchy-channel");
    assert("display"@.len() != "omarchy-channel"@.len());
    reveal_strlit("omarchy-updated");
    assert("display"@.len() != "omarchy-updated"@.len());
    reveal_strlit("theme");
    assert("display"@.len() != "theme"@.len());
    reveal_strlit("host");
    assert("display"@.len() != "host"@.len());
    reveal_strlit("os");
    assert("display"@.len() != "os"@.len());
    reveal_strlit("os-age");
    assert("display"@.len() != "os-age"@.len());
    reveal_strlit("kernel");
    assert("display"@.len() != "kernel"@.len());
    reveal_strlit("kernel-config");
    assert("display"@.len() != "kernel-config"@.len());
    reveal_strlit("wm");
    assert("display"@.len() != "wm"@.len());
    reveal_strlit("terminal");
    assert("display"@.len() != "terminal"@.len());
    reveal_strlit("shell");
    assert("display"@.len() != "shell"@.len());
}

proof fn lemma_name_cpu()
    ensures
        key_of_name(key_name(ModuleKey::Cpu)) == Some(ModuleKey::Cpu),
{
    reveal_strlit("cpu");
    reveal_strlit("omarchy");
    assert("cpu"@.len() != "omarchy"@.len());
    reveal_strlit("omarchy-source");
    assert("cpu"@.len() != "omarchy-source"@.len());
    reveal_strlit("omarchy-channel");
    assert("cpu"@.len() != "omarchy-channel"@.len());
    reveal_strlit("omarchy-updated");
    assert("cpu"@.len() != "omarchy-updated"@.len());
    reveal_strlit("theme");
    assert("cpu"@.len() != "theme"@.len());
    reveal_strlit("host");
    assert("cpu"@.len() != "host"@.len());
    reveal_strlit("os");
    assert("cpu"@.len() != "os"@.len());
    reveal_strlit("os-age");
    assert("cpu"@.len() != "os-age"@.len());
    reveal_strlit("kernel");
    assert("cpu"@.len() != "kernel"@.len());
    reveal_strlit("kernel-config");
    assert("cpu"@.len() != "kernel-config"@.len());
    reveal_strlit("wm");
    assert("cpu"@.len() != "wm"@.len());
    reveal_strlit("terminal");
    assert("cpu"@.len() != "terminal"@.len());
    reveal_strlit("shell");
    assert("cpu"@.len() != "shell"@.len());
    reveal_strlit("display");
    assert("cpu"@.len() != "display"@.len());
}

proof fn lemma_name_gpu()
    ensures
        key_of_name(key_name(ModuleKey::Gpu)) == Some(ModuleKey::Gpu),
{
    reveal_strlit("gpu");
    reveal_strlit("omarchy");
    assert("gpu"@.len() != "omarchy"@.len());
    reveal_strlit("omarchy-source");
    assert("gpu"@.len() != "omarchy-source"@.len());
    reveal_strlit("omarchy-channel");
    assert("gpu"@.len() != "omarchy-channel"@.len());
    reveal_strlit("omarchy-updated");
    assert("gpu"@.len() != "omarchy-updated"@.len());
    reveal_strlit("theme");
    assert("gpu"@.len() != "theme"@.len());
    reveal_strlit("host");
    assert("gpu"@.len() != "host"@.len());
    reveal_strlit("os");
    assert("gpu"@.len() != "os"@.len());
    reveal_strlit("os-age");
    assert("gpu"@.len() != "os-age"@.len());
    reveal_strlit("kernel");
    assert("gpu"@.len() != "kernel"@.len());
    reveal_strlit("kernel-config");
    assert("gpu"@.len() != "kernel-config"@.len());
    reveal_strlit("wm");
    assert("gpu"@.len() != "wm"@.len());
    reveal_strlit("terminal");
    assert("gpu"@.len() != "terminal"@.len());
    reveal_strlit("shell");
    assert("gpu"@.len() != "shell"@.len());
    reveal_strlit("display");
    assert("gpu"@.len() != "display"@.len());
    reveal_strlit("cpu");
    assert("gpu"@[0] != "cpu"@[0]);
}

proof fn lemma_name_gtt_memory()
    ensures
        key_of_name(key_name(ModuleKey::GttMemory)) == Some(ModuleKey::GttMemory),
{
    reveal_strlit("gtt-memory");
    reveal_strlit("omarchy");
    assert("gtt-memory"@.len() != "omarchy"@.len());
    reveal_strlit("omarchy-source");
    assert("gtt-memory"@.len() != "omarchy-source"@.len());
    reveal_strlit("omarchy-channel");
    assert("gtt-memory"@.len() != "omarchy-channel"@.len());
    reveal_strlit("omarchy-updated");
    assert("gtt-memory"@.len() != "omarchy-updated"@.len());
    reveal_strlit("theme");
    assert("gtt-memory"@.len() != "theme"@.len());
    reveal_strlit("host");
    assert("gtt-memory"@.len() != "host"@.len());
    reveal_strlit("os");
    assert("gtt-memory"@.len() != "os"@.len());
    reveal_strlit("os-age");
    assert("gtt-memory"@.len() != "os-age"@.len());
    reveal_strlit("kernel");
    assert("gtt-memory"@.len() != "kernel"@.len());
    reveal_strlit("kernel-config");
    assert("gtt-memory"@.len() != "kernel-config"@.len());
    reveal_strlit("wm");
    assert("gtt-memory"@.len() != "wm"@.len());
    reveal_strlit("terminal");
    assert("gtt-memory"@.len() != "terminal"@.len());
    reveal_strlit("shell");
    assert("gtt-memory"@.len() != "shell"@.len());
    reveal_strlit("display");
    assert("gtt-memory"@.len() != "display"@.len());
    reveal_strlit("cpu");
    assert("gtt-memory"@.len() != "cpu"@.len());
    reveal_strlit("gpu");
    assert("gtt-memory"@.len() != "gpu"@.len());
}

proof fn lemma_name_memory()
    ensures
        key_of_name(key_name(ModuleKey::Memory)) == Some(ModuleKey::Memory),
{
    reveal_strlit("memory");
    reveal_strlit("omarchy");
    assert("memory"@.len() != "omarchy"@.len());
    reveal_strlit("omarchy-source");
    assert("memory"@.len() != "omarchy-source"@.len());
    reveal_strlit("omarchy-channel");
    assert("memory"@.len() != "omarchy-channel"@.len());
    reveal_strlit("omarchy-updated");
    assert("memory"@.len() != "omarchy-updated"@.len());
    reveal_strlit("theme");
    assert("memory"@.len() != "theme"@.len());
    reveal_strlit("host");
    assert("memory"@.len() != "host"@.len());
    reveal_strlit("os");
    assert("memory"@.len() != "os"@.len());
    reveal_strlit("os-age");
    assert("memory"@[0] != "os-age"@[0]);
    reveal_strlit("kernel");
    assert("memory"@[0] != "kernel"@[0]);
    reveal_strlit("kernel-config");
    assert("memory"@.len() != "kernel-config"@.len());
    reveal_strlit("wm");
    assert("memory"@.len() != "wm"@.len());
    reveal_strlit("terminal");
    assert("memory"@.len() != "terminal"@.len());
    reveal_strlit("shell");
    assert("memory"@.len() != "shell"@.len());
    reveal_strlit("display");
    assert("memory"@.len() != "display"@.len());
    reveal_strlit("cpu");
    assert("memory"@.len() != "cpu"@.len());
    reveal_strlit("gpu");
    assert("memory"@.len() != "gpu"@.len());
    reveal_strlit("gtt-memory");
    assert("memory"@.len() != "gtt-memory"@.len());
}

proof fn lemma_name_swap()
    ensures
        key_of_name(key_name(ModuleKey::Swap)) == Some(ModuleKey::Swap),
{
    reveal_strlit("swap");
    reveal_strlit("omarchy");
    assert("swap"@.len() != "omarchy"@.len());
    reveal_strlit("omarchy-source");
    assert("swap"@.len() != "omarchy-source"@.len());
    reveal_strlit("omarchy-channel");
    assert("swap"@.len() != "omarchy-channel"@.len());
    reveal_strlit("omarchy-updated");
    assert("swap"@.len() != "omarchy-updated"@.len());
    reveal_strlit("theme");
    assert("swap"@.len() != "theme"@.len());
    reveal_strlit("host");
    assert("swap"@[0] != "host"@[0]);
    reveal_strlit("os");
    assert("swap"@.len() != "os"@.len());
    reveal_strlit("os-age");
    assert("swap"@.len() != "os-age"@.len());
    reveal_strlit("kernel");
    assert("swap"@.len() != "kernel"@.len());
    reveal_strlit("kernel-config");
    assert("swap"@.len() != "kernel-config"@.len());
    reveal_strlit("wm");
    assert("swap"@.len() != "wm"@.len());
    reveal_strlit("terminal");
    assert("swap"@.len() != "terminal"@.len());
    reveal_strlit("shell");
    assert("swap"@.len() != "shell"@.len());
    reveal_strlit("display");
    assert("swap"@.len() != "display"@.len());
    reveal_strlit("cpu");
    assert("swap"@.len() != "cpu"@.len());
    reveal_strlit("gpu");
    assert("swap"@.len() != "gpu"@.len());
    reveal_strlit("gtt-memory");
    assert("swap"@.len() != "gtt-memory"@.len());
    reveal_strlit("memory");
    assert("swap"@.len() != "memory"@.len());
}

proof fn lemma_name_disk()
    ensures
        key_of_name(key_name(ModuleKey::Disk)) == Some(ModuleKey::Disk),
{
    reveal_strlit("disk");
    reveal_strlit("omarchy");
    assert("disk"@.len() != "omarchy"@.len());
    reveal_strlit("omarchy-source");
    assert("disk"@.len() != "omarchy-source"@.len());
    reveal_strlit("omarchy-channel");
    assert("disk"@.len() != "omarchy-channel"@.len());
    reveal_strlit("omarchy-updated");
    assert("disk"@.len() != "omarchy-updated"@.len());
    reveal_strlit("theme");
    assert("disk"@.len() != "theme"@.len());
    reveal_strlit("host");
    assert("disk"@[0] != "host"@[0]);
    reveal_strlit("os");
    assert("disk"@.len() != "os"@.len());
    reveal_strlit("os-age");
    assert("disk"@.len() != "os-age"@.len());
    reveal_strlit("kernel");
    assert("disk"@.len() != "kernel"@.len());
    reveal_strlit("kernel-config");
    assert("disk"@.len() != "kernel-config"@.len());
    reveal_strlit("wm");
    assert("disk"@.len() != "wm"@.len());
    reveal_strlit("terminal");
    assert("disk"@.len() != "terminal"@.len());
    reveal_strlit("shell");
    assert("disk"@.len() != "shell"@.len());
    reveal_strlit("display");
    assert("disk"@.len() != "display"@.len());
    reveal_strlit("cpu");
    assert("disk"@.len() != "cpu"@.len());
    reveal_strlit("gpu");
    assert("disk"@.len() != "gpu"@.len());
    reveal_strlit("gtt-memory");
    assert("disk"@.len() != "gtt-memory"@.len());
    reveal_strlit("memory");
    assert("disk"@.len() != "memory"@.len());
    reveal_strlit("swap");
    assert("disk"@[0] != "swap"@[0]);
}

proof fn lemma_name_rootfs()
    ensures
        key_of_name(key_name(ModuleKey::RootFs)) == Some(ModuleKey::RootFs),
{
    reveal_strlit("rootfs");
    reveal_strlit("omarchy");
    assert("rootfs"@.len() != "omarchy"@.len());
    reveal_strlit("omarchy-source");
    assert("rootfs"@.len() != "omarchy-source"@.len());
    reveal_strlit("omarchy-channel");
    assert("rootfs"@.len() != "omarchy-channel"@.len());
    reveal_strlit("omarchy-updated");
    assert("rootfs"@.len() != "omarchy-updated"@.len());
    reveal_strlit("theme");
    assert("rootfs"@.len() != "theme"@.len());
    reveal_strlit("host");
    assert("rootfs"@.len() != "host"@.len());
    reveal_strlit("os");
    assert("rootfs"@.len() != "os"@.len());
    reveal_strlit("os-age");
    assert("rootfs"@[0] != "os-age"@[0]);
    reveal_strlit("kernel");
    assert("rootfs"@[0] != "kernel"@[0]);
    reveal_strlit("kernel-config");
    assert("rootfs"@.len() != "kernel-config"@.len());
    reveal_strlit("wm");
    assert("rootfs"@.len() != "wm"@.len());
    reveal_strlit("terminal");
    assert("rootfs"@.len() != "terminal"@.len());
    reveal_strlit("shell");
    assert("rootfs"@.len() != "shell"@.len());
    reveal_strlit("display");
    assert("rootfs"@.len() != "display"@.len());
    reveal_strlit("cpu");
    assert("rootfs"@.len() != "cpu"@.len());
    reveal_strlit("gpu");
    assert("rootfs"@.len() != "gpu"@.len());
    reveal_strlit("gtt-memory");
    assert("rootfs"@.len() != "gtt-memory"@.len());
    reveal_strlit("memory");
    assert("rootfs"@[0] != "memory"@[0]);
    reveal_strlit("swap");
    assert("rootfs"@.len() != "swap"@.len());
    reveal_strlit("disk");
    assert("rootfs"@.len() != "disk"@.len());
}

proof fn lemma_name_battery()
    ensures
        key_of_name(key_name(ModuleKey::Battery)) == Some(ModuleKey::Battery),
{
    reveal_strlit("battery");
    reveal_strlit("omarchy");
    assert("battery"@[0] != "omarchy"@[0]);
    reveal_strlit("omarchy-source");
    assert("battery"@.len() != "omarchy-source"@.len());
    reveal_strlit("omarchy-channel");
    assert("battery"@.len() != "omarchy-channel"@.len());
    reveal_strlit("omarchy-updated");
    assert("battery"@.len() != "omarchy-updated"@.len());
    reveal_strlit("theme");
    assert("battery"@.len() != "theme"@.len());
    reveal_strlit("host");
    assert("battery"@.len() != "host"@.len());
    reveal_strlit("os");
    assert("battery"@.len() != "os"@.len());
    reveal_strlit("os-age");
    assert("battery"@.len() != "os-age"@.len());
    reveal_strlit("kernel");
    assert("battery"@.len() != "kernel"@.len());
    reveal_strlit("kernel-config");
    assert("battery"@.len() != "kernel-config"@.len());
    reveal_strlit("wm");
    assert("battery"@.len() != "wm"@.len());
    reveal_strlit("terminal");
    assert("battery"@.len() != "terminal"@.len());
    reveal_strlit("shell");
    assert("battery"@.len() != "shell"@.len());
    reveal_strlit("display");
    assert("battery"@[0] != "display"@[0]);
    reveal_strlit("cpu");
    assert("battery"@.len() != "cpu"@.len());
    reveal_strlit("gpu");
    assert("battery"@.len() != "gpu"@.len());
    reveal_strlit("gtt-memory");
    assert("battery"@.len() != "gtt-memory"@.len());
    reveal_strlit("memory");
    assert("battery"@.len() != "memory"@.len());
    reveal_strlit("swap");
    assert("battery"@.len() != "swap"@.len());
    reveal_strlit("disk");
    assert("battery"@.len() != "disk"@.len());
    reveal_strlit("rootfs");
    assert("battery"@.len() != "rootfs"@.len());
}

proof fn lemma_name_localip()
    ensures
        key_of_name(key_name(ModuleKey::LocalIp)) == Some(ModuleKey::LocalIp),
{
    reveal_strlit("localip");
    reveal_strlit("omarchy");
    assert("localip"@[0] != "omarchy"@[0]);
    reveal_strlit("omarchy-source");
    assert("localip"@.len() != "omarchy-source"@.len());
    reveal_strlit("omarchy-channel");
    assert("localip"@.len() != "omarchy-channel"@.len());
    reveal_strlit("omarchy-updated");
    assert("localip"@.len() != "omarchy-updated"@.len());
    reveal_strlit("theme");
    assert("localip"@.len() != "theme"@.len());
    reveal_strlit("host");
    assert("localip"@.len() != "host"@.len());
    reveal_strlit("os");
    assert("localip"@.len() != "os"@.len());
    reveal_strlit("os-age");
    assert("localip"@.len() != "os-age"@.len());
    reveal_strlit("kernel");
    assert("localip"@.len() != "kernel"@.len());
    reveal_strlit("kernel-config");
    assert("localip"@.len() != "kernel-config"@.len());
    reveal_strlit("wm");
    assert("localip"@.len() != "wm"@.len());
    reveal_strlit("terminal");
    assert("localip"@.len() != "terminal"@.len());
    reveal_strlit("shell");
    assert("localip"@.len() != "shell"@.len());
    reveal_strlit("display");
    assert("localip"@[0] != "display"@[0]);
    reveal_strlit("cpu");
    assert("localip"@.len() != "cpu"@.len());
    reveal_strlit("gpu");
    assert("localip"@.len() != "gpu"@.len());
    reveal_strlit("gtt-memory");
    assert("localip"@.len() != "gtt-memory"@.len());
    reveal_strlit("memory");
    assert("localip"@.len() != "memory"@.len());
    reveal_strlit("swap");
    assert("localip"@.len() != "swap"@.len());
    reveal_strlit("disk");
    assert("localip"@.len() != "disk"@.len());
    reveal_strlit("rootfs");
    assert("localip"@.len() != "rootfs"@.len());
    reveal_strlit("battery");
    assert("localip"@[0] != "battery"@[0]);
}

proof fn lemma_name_packages()
    ensures
        key_of_name(key_name(ModuleKey::Packages)) == Some(ModuleKey::Packages),
{
    reveal_strlit("packages");
    reveal_strlit("omarchy");
    assert("packages"@.len() != "omarchy"@.len());
    reveal_strlit("omarchy-source");
    assert("packages"@.len() != "omarchy-source"@.len());
    reveal_strlit("omarchy-channel");
    assert("packages"@.len() != "omarchy-channel"@.len());
    reveal_strlit("omarchy-updated");
    assert("packages"@.len() != "omarchy-updated"@.len());
    reveal_strlit("theme");
    assert("packages"@.len() != "theme"@.len());
    reveal_strlit("host");
    assert("packages"@.len() != "host"@.len());
    reveal_strlit("os");
    assert("packages"@.len() != "os"@.len());
    reveal_strlit("os-age");
    assert("packages"@.len() != "os-age"@.len());
    reveal_strlit("kernel");
    assert("packages"@.len() != "kernel"@.len());
    reveal_strlit("kernel-config");
    assert("packages"@.len() != "kernel-config"@.len());
    reveal_strlit("wm");
    assert("packages"@.len() != "wm"@.len());
    reveal_strlit("terminal");
    assert("packages"@[0] != "terminal"@[0]);
    reveal_strlit("shell");
    assert("packages"@.len() != "shell"@.len());
    reveal_strlit("display");
    assert("packages"@.len() != "display"@.len());
    reveal_strlit("cpu");
    assert("packages"@.len() != "cpu"@.len());
    reveal_strlit("gpu");
    assert("packages"@.len() != "gpu"@.len());
    reveal_strlit("gtt-memory");
    assert("packages"@.len() != "gtt-memory"@.len());
    reveal_strlit("memory");
    assert("packages"@.len() != "memory"@.len());
    reveal_strlit("swap");
    assert("packages"@.len() != "swap"@.len());
    reveal_strlit("disk");
    assert("packages"@.len() != "disk"@.len());
    reveal_strlit("rootfs");
    assert("packages"@.len() != "rootfs"@.len());
    reveal_strlit("battery");
    assert("packages"@.len() != "battery"@.len());
    reveal_strlit("localip");
    assert("packages"@.len() != "localip"@.len());
}

proof fn lemma_name_uptime()
    ensures
        key_of_name(key_name(ModuleKey::Uptime)) == Some(ModuleKey::Uptime),
{
    reveal_strlit("uptime");
    reveal_strlit("omarchy");
    assert("uptime"@.len() != "omarchy"@.len());
    reveal_strlit("omarchy-source");
    assert("uptime"@.len() != "omarchy-source"@.len());
    reveal_strlit("omarchy-channel");
    assert("uptime"@.len() != "omarchy-channel"@.len());
    reveal_strlit("omarchy-updated");
    assert("uptime"@.len() != "omarchy-updated"@.len());
    reveal_strlit("theme");
    assert("uptime"@.len() != "theme"@.len());
    reveal_strlit("host");
    assert("uptime"@.len() != "host"@.len());
    reveal_strlit("os");
    assert("uptime"@.len() != "os"@.len());
    reveal_strlit("os-age");
    assert("uptime"@[0] != "os-age"@[0]);
    reveal_strlit("kernel");
    assert("uptime"@[0] != "kernel"@[0]);
    reveal_strlit("kernel-config");
    assert("uptime"@.len() != "kernel-config"@.len());
    reveal_strlit("wm");
    assert("uptime"@.len() != "wm"@.len());
    reveal_strlit("terminal");
    assert("uptime"@.len() != "terminal"@.len());
    reveal_strlit("shell");
    assert("uptime"@.len() != "shell"@.len());
    reveal_strlit("display");
    assert("uptime"@.len() != "display"@.len());
    reveal_strlit("cpu");
    assert("uptime"@.len() != "cpu"@.len());
    reveal_strlit("gpu");
    assert("uptime"@.len() != "gpu"@.len());
    reveal_strlit("gtt-memory");
    assert("uptime"@.len() != "gtt-memory"@.len());
    reveal_strlit("memory");
    assert("uptime"@[0] != "memory"@[0]);
    reveal_strlit("swap");
    assert("uptime"@.len() != "swap"@.len());
    reveal_strlit("disk");
    assert("uptime"@.len() != "disk"@.len());
    reveal_strlit("rootfs");
    assert("uptime"@[0] != "rootfs"@[0]);
    reveal_strlit("battery");
    assert("uptime"@.len() != "battery"@.len());
    reveal_strlit("localip");
    assert("uptime"@.len() != "localip"@.len());
    reveal_strlit("packages");
    assert("uptime"@.len() != "packages"@.len());
}

proof fn lemma_unknown_name(v: Seq<char>)
    requires
        forall|j: int| 0 <= j < all_keys().len() ==> key_name(#[trigger] all_keys()[j]) != v,
    ensures
        key_of_name(v) is None,
{
    assert(key_name(all_keys()[0]) != v);
    assert(key_name(all_keys()[1]) != v);
    assert(key_name(all_keys()[2]) != v);
    assert(key_name(all_keys()[3]) != v);
    assert(key_name(all_keys()[4]) != v);
    assert(key_name(all_keys()[5]) != v);
    assert(key_name(all_keys()[6]) != v);
    assert(key_name(all_keys()[7]) != v);
    assert(key_name(all_keys()[8]) != v);
    assert(key_name(all_keys()[9]) != v);
    assert(key_name(all_keys()[10]) != v);
    assert(key_name(all_keys()[11]) != v);
    assert(key_name(all_keys()[12]) != v);
    assert(key_name(all_keys()[13]) != v);
    assert(key_name(all_keys()[14]) != v);
    assert(key_name(all_keys()[15]) != v);
    assert(key_name(all_keys()[16]) != v);
    assert(key_name(all_keys()[17]) != v);
    assert(key_name(all_keys()[18]) != v);
    assert(key_name(all_keys()[19]) != v);
    assert(key_name(all_keys()[20]) != v);
    assert(key_name(all_keys()[21]) != v);
    assert(key_name(all_keys()[22]) != v);
    assert(key_name(all_keys()[23]) != v);
    assert(key_name(all_keys()[24]) != v);
}


/// The names of a sequence of modules.
pub open spec fn key_names(ks: Seq<ModuleKey>) -> Seq<Seq<char>> {
    ks.map_values(|k: ModuleKey| key_name(k))
}

/// The character sequences of a sequence of string slices.
pub open spec fn str_views(v: Seq<&'static str>) -> Seq<Seq<char>> {
    v.map_values(|s: &'static str| s@)
}

/// Adds `k` unless it is already present.
pub open spec fn push_new(acc: Seq<ModuleKey>, k: ModuleKey) -> Seq<ModuleKey> {
    if acc.contains(k) {
        acc
    } else {
        acc.push(k)
    }
}

/// The selection an explicit name list makes, starting from `acc`: the keys
/// in first-mention order without repeats, or the first name that selects no
/// module.
pub open spec fn select(acc: Seq<ModuleKey>, names: Seq<Seq<char>>) -> Result<
    Seq<ModuleKey>,
    Seq<char>,
>
    decreases names.len(),
{
    if names.len() == 0 {
        Ok(acc)
    } else {
        match key_of_name(names[0]) {
            None => Err(names[0]),
            Some(k) => select(push_new(acc, k), names.drop_first()),
        }
    }
}

/// What `resolve_or_defaults` selects for a name list: the default order for
/// an empty list, otherwise the identity modules followed by the named ones.
pub open spec fn resolve_spec(names: Seq<Seq<char>>) -> Result<Seq<ModuleKey>, Seq<char>> {
    if names.len() == 0 {
        Ok(default_keys())
    } else {
        select(compact_keys(), names)
    }
}

/// The message of an unknown-module error.
pub open spec fn unknown_message(name: Seq<char>) -> Seq<char> {
    "unknown module: "@ + name + "\navailable modules: "@ + join(key_names(all_keys()), ", "@)
}

/// A module name that no module carries.
#[derive(Debug)]
pub struct RegistryError {
    /// The name that was not found.
    pub name: String,
    /// The full message, listing the available modules.
    pub message: String,
}

impl RegistryError {
    /// The error's message text.
    pub fn message(&self) -> (r: String)
        ensures
            r@ == self.message@,
    {
        self.message.clone()
    }
}

/// The registered fetch modules.
pub struct ModuleRegistry {
    modules: Vec<ModuleKey>,
}

impl ModuleRegistry {
    /// The registered modules, in registration order.
    pub closed spec fn keys(&self) -> Seq<ModuleKey> {
        self.modules@
    }

    /// A registry of every fetch module.
    pub fn new() -> (r: Self)
        ensures
            r.keys() == all_keys(),
    {
        ModuleRegistry { modules: all_keys_exec() }
    }

    /// What `omafetch list` prints: the module names in registration order,
    /// one per line.
    pub fn list_text(&self) -> (r: String)
        ensures
            r@ == join(key_names(self.keys()), "\n"@) + "\n"@,
    {
        let names = self.names();
        let mut parts: Vec<Vec<char>> = Vec::new();
        let mut i: usize = 0;
        while i < names.len()
            invariant
                i <= names.len(),
                views(parts@) == str_views(names@).take(i as int),
            decreases names.len() - i,
        {
            let ghost before = views(parts@);
            parts.push(chars_of(names[i]));
            assert(views(parts@) =~= before.push(names@[i as int]@));
            i += 1;
            assert(str_views(names@).take(i as int) =~= str_views(names@).take(i - 1).push(
                names@[i - 1]@,
            ));
        }
        assert(str_views(names@).take(names.len() as int) =~= str_views(names@));
        let mut out = join_exec(&parts, &chars_of("\n"));
        out.push('\n');
        proof {
            reveal_strlit("\n");
        }
        assert(out@ =~= join(key_names(self.keys()), "\n"@) + "\n"@);
        string_of(&out)
    }

    /// The names of the registered modules, in registration order.
    pub fn names(&self) -> (r: Vec<&'static str>)
        ensures
            str_views(r@) == key_names(self.keys()),
    {
        let mut r: Vec<&'static str> = Vec::new();
        let mut i: usize = 0;
        while i < self.modules.len()
            invariant
                i <= self.modules.len(),
                str_views(r@) == key_names(self.modules@.take(i as int)),
            decreases self.modules.len() - i,
        {
            let k = self.modules[i];
            let name = k.as_str();
            let ghost before = r@;
            r.push(name);
            assert(r@ == before.push(name));
            assert(str_views(r@) =~= str_views(before).push(key_name(k)));
            assert(self.modules@.take(i + 1) =~= self.modules@.take(i as int).push(k));
            i += 1;
            assert(str_views(r@) =~= key_names(
                self.modules@.take(i as int),
            ));
        }
        assert(self.modules@.take(self.modules.len() as int) =~= self.modules@);
        r
    }

    /// The curated default order.
    pub fn defaults(&self) -> (r: Vec<ModuleKey>)
        ensures
            r@ == default_keys(),
    {
        let r = vec![
            ModuleKey::Omarchy,
            ModuleKey::OmarchySource,
            ModuleKey::OmarchyChannel,
            ModuleKey::Theme,
            ModuleKey::Host,
            ModuleKey::Os,
            ModuleKey::OsAge,
            ModuleKey::Kernel,
            ModuleKey::KernelConfig,
            ModuleKey::Wm,
            ModuleKey::Terminal,
            ModuleKey::Shell,
            ModuleKey::Display,
            ModuleKey::Cpu,
            ModuleKey::Gpu,
            ModuleKey::GttMemory,
            ModuleKey::Memory,
            ModuleKey::Swap,
            ModuleKey::Disk,
            ModuleKey::RootFs,
            ModuleKey::Packages,
            ModuleKey::OmarchyUpdated,
            ModuleKey::Uptime,
            ModuleKey::LocalIp,
            ModuleKey::Battery,
        ];
        assert(r@ =~= default_keys());
        r
    }

    /// The identity modules shown before an explicit module list.
    pub fn compact_defaults(&self) -> (r: Vec<ModuleKey>)
        ensures
            r@ == compact_keys(),
    {
        let r = vec![
            ModuleKey::Omarchy,
            ModuleKey::Theme,
            ModuleKey::Host,
            ModuleKey::Os,
            ModuleKey::Kernel,
            ModuleKey::Wm,
        ];
        assert(r@ =~= compact_keys());
        r
    }

    /// The modules to fetch for a command-line module list: the default order
    /// for an empty list; otherwise the identity modules followed by each
    /// named module not already selected, in order of first mention. A name
    /// that selects no module is an error naming it.
    pub fn resolve_or_defaults(&self, names: &[String]) -> (r: Result<
        Vec<ModuleKey>,
        RegistryError,
    >)
        requires
            self.keys() == all_keys(),
        ensures
            match resolve_spec(names@.map_values(|s: String| s@)) {
                Ok(ks) => (r matches Ok(v) && v@ == ks),
                Err(bad) => (r matches Err(e) && e.name@ == bad && e.message@ == unknown_message(
                    bad,
                )),
            },
    {
        let ghost nv = names@.map_values(|s: String| s@);
        if names.len() == 0 {
            let d = self.defaults();
            let r = self.resolve_static(&d);
            proof {
                lemma_all_keys_contains(d@);
            }
            return r;
        }
        let mut selected = self.compact_defaults();
        let mut i: usize = 0;
        assert(nv.skip(0) =~= nv);
        while i < names.len()
            invariant
                i <= names.len(),
                nv == names@.map_values(|s: String| s@),
                self.keys() == all_keys(),
                names.len() > 0,
                select(compact_keys(), nv) == select(selected@, nv.skip(i as int)),
            decreases names.len() - i,
        {
            let name = &names[i];
            assert(nv.skip(i as int)[0] == name@);
            assert(nv.skip(i as int).drop_first() =~= nv.skip(i + 1));
            match ModuleKey::parse(name.as_str()) {
                None => {
                    let message = self.unknown(name.as_str());
                    return Err(RegistryError { name: name.clone(), message });
                },
                Some(key) => {
                    if !contains_key(&selected, key) {
                        selected.push(key);
                    }
                },
            }
            i += 1;
        }
        assert(nv.skip(names.len() as int).len() == 0);
        let r = self.resolve_static(&selected);
        proof {
            lemma_all_keys_contains(selected@);
        }
        r
    }

    /// The message for a name that selects no module.
    fn unknown(&self, name: &str) -> (m: String)
        requires
            self.keys() == all_keys(),
        ensures
            m@ == unknown_message(name@),
    {
        let mut m = chars_of("unknown module: ");
        append(&mut m, &chars_of(name));
        append(&mut m, &chars_of("\navailable modules: "));
        let names = self.names();
        let mut parts: Vec<Vec<char>> = Vec::new();
        let mut i: usize = 0;
        while i < names.len()
            invariant
                i <= names.len(),
                views(parts@) == str_views(names@).take(i as int),
            decreases names.len() - i,
        {
            let c = chars_of(names[i]);
            let ghost before = parts@;
            parts.push(c);
            assert(views(parts@) =~= views(before).push(names@[i as int]@));
            i += 1;
            assert(views(parts@) =~= str_views(names@).take(i as int));
        }
        assert(str_views(names@).take(names.len() as int)
            =~= str_views(names@));
        let joined = join_exec(&parts, &chars_of(", "));
        append(&mut m, &joined);
        string_of(&m)
    }

    /// The registered modules for each of `keys`, in order; an error names the
    /// first key that is not registered.
    pub fn resolve_static(&self, keys: &Vec<ModuleKey>) -> (r: Result<
        Vec<ModuleKey>,
        RegistryError,
    >)
        requires
            self.keys() == all_keys(),
        ensures
            (forall|j: int| 0 <= j < keys@.len() ==> self.keys().contains(#[trigger] keys@[j]))
                ==> (r matches Ok(v) && v@ == keys@),
            r is Err ==> exists|j: int|
                0 <= j < keys@.len() && !self.keys().contains(#[trigger] keys@[j]),
    {
        let mut resolved: Vec<ModuleKey> = Vec::new();
        let mut i: usize = 0;
        while i < keys.len()
            invariant
                i <= keys.len(),
                self.keys() == all_keys(),
                resolved@ == keys@.take(i as int),
                forall|j: int| 0 <= j < i ==> self.keys().contains(#[trigger] keys@[j]),
            decreases keys.len() - i,
        {
            let key = keys[i];
            if !contains_key(&self.modules, key) {
                let message = self.unknown(key.as_str());
                return Err(RegistryError { name: string_of(&chars_of(key.as_str())), message });
            }
            resolved.push(key);
            i += 1;
            assert(resolved@ =~= keys@.take(i as int));
        }
        assert(keys@.take(keys.len() as int) =~= keys@);
        Ok(resolved)
    }
}

/// Whether `k` is among `ks`.
fn contains_key(ks: &Vec<ModuleKey>, k: ModuleKey) -> (b: bool)
    ensures
        b == ks@.contains(k),
{
    let mut i: usize = 0;
    while i < ks.len()
        invariant
            i <= ks.len(),
            forall|j: int| 0 <= j < i ==> ks@[j] != k,
        decreases ks.len() - i,
    {
        if ks[i] == k {
            assert(ks@[i as int] == k);
            return true;
        }
        i += 1;
    }
    false
}

/// Every key is registered.
pub proof fn lemma_all_keys_contains(ks: Seq<ModuleKey>)
    ensures
        forall|j: int| 0 <= j < ks.len() ==> all_keys().contains(#[trigger] ks[j]),
{
    assert forall|j: int| 0 <= j < ks.len() implies all_keys().contains(#[trigger] ks[j]) by {
        let k = ks[j];
        let i: int = match k {
            ModuleKey::Omarchy => 0,
            ModuleKey::OmarchySource => 1,
            ModuleKey::OmarchyChannel => 2,
            ModuleKey::OmarchyUpdated => 3,
            ModuleKey::Theme => 4,
            ModuleKey::Host => 5,
            ModuleKey::Os => 6,
            ModuleKey::OsAge => 7,
            ModuleKey::Kernel => 8,
            ModuleKey::KernelConfig => 9,
            ModuleKey::Wm => 10,
            ModuleKey::Terminal => 11,
            ModuleKey::Shell => 12,
            ModuleKey::Display => 13,
            ModuleKey::Cpu => 14,
            ModuleKey::Gpu => 15,
            ModuleKey::GttMemory => 16,
            ModuleKey::Memory => 17,
            ModuleKey::Swap => 18,
            ModuleKey::Disk => 19,
            ModuleKey::RootFs => 20,
            ModuleKey::Battery => 21,
            ModuleKey::LocalIp => 22,
            ModuleKey::Packages => 23,
            ModuleKey::Uptime => 24,
        };
        assert(all_keys()[i] == k);
    }
}

/// No key occurs twice.
pub open spec fn distinct_keys(ks: Seq<ModuleKey>) -> bool {
    forall|i: int, j: int| 0 <= i < j < ks.len() ==> ks[i] != ks[j]
}

/// `push_new` keeps what was there in front and keeps the keys distinct.
proof fn lemma_push_new(acc: Seq<ModuleKey>, k: ModuleKey)
    requires
        distinct_keys(acc),
    ensures
        push_new(acc, k).len() >= acc.len(),
        push_new(acc, k).take(acc.len() as int) == acc,
        distinct_keys(push_new(acc, k)),
        push_new(acc, k).contains(k),
        forall|x: ModuleKey| acc.contains(x) ==> push_new(acc, k).contains(x),
{
    if acc.contains(k) {
        assert(acc.take(acc.len() as int) =~= acc);
    } else {
        assert(acc.push(k).take(acc.len() as int) =~= acc);
        assert(acc.push(k)[acc.len() as int] == k);
        assert forall|x: ModuleKey| acc.contains(x) implies acc.push(k).contains(x) by {
            let i = choose|i: int| 0 <= i < acc.len() && acc[i] == x;
            assert(acc.push(k)[i] == x);
        }
    }
}

/// What a successful selection from `acc` gives: `acc` in front, distinct
/// keys, and every named module in it.
proof fn lemma_select_ok(acc: Seq<ModuleKey>, names: Seq<Seq<char>>)
    requires
        distinct_keys(acc),
        select(acc, names) is Ok,
    ensures
        select(acc, names)->Ok_0.len() >= acc.len(),
        select(acc, names)->Ok_0.take(acc.len() as int) == acc,
        distinct_keys(select(acc, names)->Ok_0),
        forall|x: ModuleKey| acc.contains(x) ==> select(acc, names)->Ok_0.contains(x),
        forall|i: int|
            0 <= i < names.len() ==> select(acc, names)->Ok_0.contains(
                (#[trigger] key_of_name(names[i]))->Some_0,
            ),
    decreases names.len(),
{
    if names.len() > 0 {
        let k = key_of_name(names[0])->Some_0;
        let next = push_new(acc, k);
        lemma_push_new(acc, k);
        lemma_select_ok(next, names.drop_first());
        let ks = select(acc, names)->Ok_0;
        assert(ks == select(next, names.drop_first())->Ok_0);
        assert(next.len() >= acc.len());
        assert(ks.take(acc.len() as int) =~= ks.take(next.len() as int).take(acc.len() as int));
        assert forall|i: int| 0 <= i < names.len() implies ks.contains(
            (#[trigger] key_of_name(names[i]))->Some_0,
        ) by {
            if i > 0 {
                assert(names.drop_first()[i - 1] == names[i]);
            }
        }
    }
}

/// A selection fails exactly when some name selects no module, and the
/// error is the first such name.
proof fn lemma_select_err(acc: Seq<ModuleKey>, names: Seq<Seq<char>>)
    ensures
        select(acc, names) is Err <==> exists|i: int|
            0 <= i < names.len() && (#[trigger] key_of_name(names[i])) is None,
        select(acc, names) is Err ==> exists|i: int|
            0 <= i < names.len() && (#[trigger] key_of_name(names[i])) is None
                && select(acc, names) == Err::<Seq<ModuleKey>, Seq<char>>(names[i]) && forall|j: int|
                0 <= j < i ==> (#[trigger] key_of_name(names[j])) is Some,
    decreases names.len(),
{
    if names.len() > 0 {
        match key_of_name(names[0]) {
            None => {},
            Some(k) => {
                lemma_select_err(push_new(acc, k), names.drop_first());
                let rest = names.drop_first();
                if exists|i: int| 0 <= i < names.len() && (#[trigger] key_of_name(names[i])) is None {
                    let i = choose|i: int| 0 <= i < names.len() && (#[trigger] key_of_name(names[i])) is None;
                    assert(i > 0);
                    assert(rest[i - 1] == names[i]);
                    assert(key_of_name(rest[i - 1]) is None);
                }
                if exists|i: int| 0 <= i < rest.len() && (#[trigger] key_of_name(rest[i])) is None {
                    let i = choose|i: int| 0 <= i < rest.len() && (#[trigger] key_of_name(rest[i])) is None;
                    assert(names[i + 1] == rest[i]);
                    assert(key_of_name(names[i + 1]) is None);
                }
                if select(acc, names) is Err {
                    let i = choose|i: int|
                        0 <= i < rest.len() && (#[trigger] key_of_name(rest[i])) is None
                            && select(push_new(acc, k), rest) == Err::<Seq<ModuleKey>, Seq<char>>(rest[i])
                            && forall|j: int| 0 <= j < i ==> (#[trigger] key_of_name(rest[j])) is Some;
                    assert(names[i + 1] == rest[i]);
                    assert forall|j: int| 0 <= j < i + 1 implies (#[trigger] key_of_name(names[j])) is Some by {
                        if j > 0 {
                            assert(names[j] == rest[j - 1]);
                        }
                    }
                }
            },
        }
    }
}

/// The identity modules are six different modules.
proof fn lemma_compact_distinct()
    ensures
        distinct_keys(compact_keys()),
{
    let c = compact_keys();
    assert forall|i: int, j: int| 0 <= i < j < c.len() implies c[i] != c[j] by {
        assert(c[0] == ModuleKey::Omarchy);
        assert(c[1] == ModuleKey::Theme);
        assert(c[2] == ModuleKey::Host);
        assert(c[3] == ModuleKey::Os);
        assert(c[4] == ModuleKey::Kernel);
        assert(c[5] == ModuleKey::Wm);
    }
}

/// An explicit module list selects the identity modules first, then the
/// named modules in order of first mention: every named module is selected,
/// and none twice.
pub proof fn lemma_explicit_selection(names: Seq<Seq<char>>)
    requires
        names.len() > 0,
        resolve_spec(names) is Ok,
    ensures
        resolve_spec(names)->Ok_0.take(6) == compact_keys(),
        distinct_keys(resolve_spec(names)->Ok_0),
        forall|i: int|
            0 <= i < names.len() ==> resolve_spec(names)->Ok_0.contains(
                (#[trigger] key_of_name(names[i]))->Some_0,
            ),
{
    lemma_compact_distinct();
    lemma_select_ok(compact_keys(), names);
}

/// A module list is refused exactly when one of its names selects no
/// module; the error names the first such name.
pub proof fn lemma_unknown_name_refused(names: Seq<Seq<char>>)
    ensures
        resolve_spec(names) is Err <==> exists|i: int|
            0 <= i < names.len() && (#[trigger] key_of_name(names[i])) is None,
        resolve_spec(names) is Err ==> exists|i: int|
            0 <= i < names.len() && (#[trigger] key_of_name(names[i])) is None
                && resolve_spec(names) == Err::<Seq<ModuleKey>, Seq<char>>(names[i]) && forall|j: int|
                0 <= j < i ==> (#[trigger] key_of_name(names[j])) is Some,
{
    if names.len() > 0 {
        lemma_select_err(compact_keys(), names);
    }
}

/// The default fetch shows every registered module exactly once.
pub proof fn lemma_defaults_cover_registry()
    ensures
        distinct_keys(default_keys()),
        default_keys().len() == all_keys().len(),
        forall|k: ModuleKey| #[trigger] default_keys().contains(k),
        forall|k: ModuleKey| #[trigger] all_keys().contains(k),
{
    let d = default_keys();
    assert(d[0] == ModuleKey::Omarchy);
    assert(d[1] == ModuleKey::OmarchySource);
    assert(d[2] == ModuleKey::OmarchyChannel);
    assert(d[3] == ModuleKey::Theme);
    assert(d[4] == ModuleKey::Host);
    assert(d[5] == ModuleKey::Os);
    assert(d[6] == ModuleKey::OsAge);
    assert(d[7] == ModuleKey::Kernel);
    assert(d[8] == ModuleKey::KernelConfig);
    assert(d[9] == ModuleKey::Wm);
    assert(d[10] == ModuleKey::Terminal);
    assert(d[11] == ModuleKey::Shell);
    assert(d[12] == ModuleKey::Display);
    assert(d[13] == ModuleKey::Cpu);
    assert(d[14] == ModuleKey::Gpu);
    assert(d[15] == ModuleKey::GttMemory);
    assert(d[16] == ModuleKey::Memory);
    assert(d[17] == ModuleKey::Swap);
    assert(d[18] == ModuleKey::Disk);
    assert(d[19] == ModuleKey::RootFs);
    assert(d[20] == ModuleKey::Packages);
    assert(d[21] == ModuleKey::OmarchyUpdated);
    assert(d[22] == ModuleKey::Uptime);
    assert(d[23] == ModuleKey::LocalIp);
    assert(d[24] == ModuleKey::Battery);
    assert forall|i: int, j: int| 0 <= i < j < d.len() implies d[i] != d[j] by {
        assert(key_rank(d[i]) == i) by {
            key_rank_default(i);
        }
        assert(key_rank(d[j]) == j) by {
            key_rank_default(j);
        }
    }
    assert forall|k: ModuleKey| #[trigger] d.contains(k) by {
        let i = key_rank(k);
        key_rank_default(i);
        assert(d[i] == k);
    }
    lemma_all_keys_contains(seq![ModuleKey::Omarchy]);
    assert forall|k: ModuleKey| #[trigger] all_keys().contains(k) by {
        lemma_all_keys_contains(seq![k]);
        assert(seq![k][0] == k);
    }
}

/// The position of a module in the default order.
pub open spec fn key_rank(k: ModuleKey) -> int {
    match k {
        ModuleKey::Omarchy => 0,
        ModuleKey::OmarchySource => 1,
        ModuleKey::OmarchyChannel => 2,
        ModuleKey::Theme => 3,
        ModuleKey::Host => 4,
        ModuleKey::Os => 5,
        ModuleKey::OsAge => 6,
        ModuleKey::Kernel => 7,
        ModuleKey::KernelConfig => 8,
        ModuleKey::Wm => 9,
        ModuleKey::Terminal => 10,
        ModuleKey::Shell => 11,
        ModuleKey::Display => 12,
        ModuleKey::Cpu => 13,
        ModuleKey::Gpu => 14,
        ModuleKey::GttMemory => 15,
        ModuleKey::Memory => 16,
        ModuleKey::Swap => 17,
        ModuleKey::Disk => 18,
        ModuleKey::RootFs => 19,
        ModuleKey::Packages => 20,
        ModuleKey::OmarchyUpdated => 21,
        ModuleKey::Uptime => 22,
        ModuleKey::LocalIp => 23,
        ModuleKey::Battery => 24,
    }
}

proof fn key_rank_default(i: int)
    requires
        0 <= i < 25,
    ensures
        key_rank(default_keys()[i]) == i,
{
    let d = default_keys();
    assert(key_rank(d[0]) == 0);
    assert(key_rank(d[1]) == 1);
    assert(key_rank(d[2]) == 2);
    assert(key_rank(d[3]) == 3);
    assert(key_rank(d[4]) == 4);
    assert(key_rank(d[5]) == 5);
    assert(key_rank(d[6]) == 6);
    assert(key_rank(d[7]) == 7);
    assert(key_rank(d[8]) == 8);
    assert(key_rank(d[9]) == 9);
    assert(key_rank(d[10]) == 10);
    assert(key_rank(d[11]) == 11);
    assert(key_rank(d[12]) == 12);
    assert(key_rank(d[13]) == 13);
    assert(key_rank(d[14]) == 14);
    assert(key_rank(d[15]) == 15);
    assert(key_rank(d[16]) == 16);
    assert(key_rank(d[17]) == 17);
    assert(key_rank(d[18]) == 18);
    assert(key_rank(d[19]) == 19);
    assert(key_rank(d[20]) == 20);
    assert(key_rank(d[21]) == 21);
    assert(key_rank(d[22]) == 22);
    assert(key_rank(d[23]) == 23);
    assert(key_rank(d[24]) == 24);
}

/// A name selects a module only if it is that module's name.
pub proof fn lemma_name_of_key(v: Seq<char>)
    ensures
        key_of_name(v) matches Some(k) ==> key_name(k) == v,
{
}

} // verus!
