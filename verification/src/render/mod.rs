//! Turning module outputs into the rendered fetch.

pub mod ansi;
pub mod document;
pub mod layout;
pub mod sparkle;
pub mod text;
