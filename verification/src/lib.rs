//! Verified core of a system-information fetch tool: text parsing of
//! kernel and package-manager files, module selection, and line layout.

pub mod app;
pub mod bind;
pub mod cli;
pub mod text;
pub mod modules;
pub mod omarchy;
pub mod probe;
pub mod render;
