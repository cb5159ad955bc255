//! The GTT memory an AMD graphics card can map.

use vstd::prelude::*;
use crate::render::text::{format_bytes, gib_text};
use crate::modules::types::Module;
use crate::modules::registry::{key_name, ModuleKey};

verus! {

/// The GTT memory an AMD graphics card can map.
pub struct GttMemory;

impl Module for GttMemory {
    fn name(&self) -> (r: &'static str)
        ensures
            r@ == key_name(ModuleKey::GttMemory),
    {
        "gtt-memory"
    }

    fn label(&self) -> (r: &'static str)
        ensures
            r@ == "GTT"@,
    {
        "GTT"
    }
}

impl GttMemory {
    /// The GTT value for a size in bytes, `unknown` without one.
    pub fn value(bytes: Option<u64>) -> (r: String)
        ensures
            r@ == match bytes {
                Some(b) => gib_text(b as nat, 30),
                None => "unknown"@,
            },
    {
        match bytes {
            Some(b) => format_bytes(b),
            None => String::from_str("unknown"),
        }
    }
}

} // verus!
