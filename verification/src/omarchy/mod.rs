//! Omarchy installation, version and theme.

pub mod paths;
pub mod state;
pub mod theme;
