pub mod env;
pub mod filesystem;
pub mod fontconfig;
pub mod procfs;
pub mod sysfs;
