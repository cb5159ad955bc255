//! Used and total swap.

use vstd::prelude::*;
use crate::probe::procfs::MemInfo;
use crate::modules::memory::{usage_line, usage_text};
use crate::modules::types::Module;
use crate::modules::registry::{key_name, ModuleKey};

verus! {

/// Used and total swap.
pub struct Swap;

impl Module for Swap {
    fn name(&self) -> (r: &'static str)
        ensures
            r@ == key_name(ModuleKey::Swap),
    {
        "swap"
    }

    fn label(&self) -> (r: &'static str)
        ensures
            r@ == "Swap"@,
    {
        "Swap"
    }
}

impl Swap {
    /// The swap value: used (total minus free) over total swap.
    pub fn value(mem: Option<MemInfo>) -> (r: String)
        ensures
            r@ == match mem {
                Some(m) => usage_text(m.swap_total_kib, m.swap_free_kib),
                None => "unknown"@,
            },
    {
        match mem {
            Some(m) => usage_line(m.swap_total_kib, m.swap_free_kib),
            None => String::from_str("unknown"),
        }
    }
}

} // verus!
