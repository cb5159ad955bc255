//! Kernel runtime settings: preemption, CPU frequency driver, huge pages, zswap, IOMMU and TTM limit.

use vstd::prelude::*;
use crate::text::{chars_of, join, join_exec, string_of, views};
use crate::modules::types::Module;
use crate::modules::registry::{key_name, ModuleKey};

verus! {

/// Kernel runtime settings: preemption, CPU frequency driver, huge pages, zswap, IOMMU and TTM limit.
pub struct KernelConfig;

impl Module for KernelConfig {
    fn name(&self) -> (r: &'static str)
        ensures
            r@ == key_name(ModuleKey::KernelConfig),
    {
        "kernel-config"
    }

    fn label(&self) -> (r: &'static str)
        ensures
            r@ == "Config"@,
    {
        "Config"
    }
}

/// The settings value: one setting per line, `unknown` without settings.
pub open spec fn kernel_config_value_of(values: Seq<Seq<char>>) -> Seq<char> {
    if values.len() == 0 {
        "unknown"@
    } else {
        join(values, "\n"@)
    }
}

impl KernelConfig {
    /// The settings value for the summary entries.
    pub fn value(values: &Vec<String>) -> (r: String)
        ensures
            r@ == kernel_config_value_of(values@.map_values(|s: String| s@)),
    {
        if values.len() == 0 {
            return String::from_str("unknown");
        }
        let mut parts: Vec<Vec<char>> = Vec::new();
        let mut i: usize = 0;
        while i < values.len()
            invariant
                i <= values.len(),
                views(parts@) == values@.map_values(|s: String| s@).take(i as int),
            decreases values.len() - i,
        {
            let ghost before = views(parts@);
            parts.push(chars_of(values[i].as_str()));
            assert(views(parts@) =~= before.push(values@[i as int]@));
            i += 1;
            assert(views(parts@) =~= values@.map_values(|s: String| s@).take(i as int));
        }
        assert(values@.map_values(|s: String| s@).take(values.len() as int) =~= values@.map_values(
            |s: String| s@,
        ));
        string_of(&join_exec(&parts, &chars_of("\n")))
    }
}

} // verus!
