//! Fetch modules and their registry.

pub mod battery;
pub mod cpu;
pub mod disk;
pub mod display;
pub mod font;
pub mod gpu;
pub mod gtt_memory;
pub mod host;
pub mod kernel;
pub mod kernel_config;
pub mod localip;
pub mod memory;
pub mod omarchy;
pub mod omarchy_channel;
pub mod omarchy_source;
pub mod omarchy_updated;
pub mod os;
pub mod os_age;
pub mod packages;
pub mod registry;
pub mod rootfs;
pub mod shell;
pub mod swap;
pub mod terminal;
pub mod theme;
pub mod types;
pub mod uptime;
pub mod wm;
