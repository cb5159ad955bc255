//! Used and total memory.

use vstd::prelude::*;
use crate::probe::procfs::MemInfo;
use crate::render::text::{format_gib, gib_text};
use crate::text::{chars_of, concat, string_of};
use crate::modules::types::Module;
use crate::modules::registry::{key_name, ModuleKey};

verus! {

/// Used and total memory.
pub struct Memory;

impl Module for Memory {
    fn name(&self) -> (r: &'static str)
        ensures
            r@ == key_name(ModuleKey::Memory),
    {
        "memory"
    }

    fn label(&self) -> (r: &'static str)
        ensures
            r@ == "Memory"@,
    {
        "Memory"
    }
}

/// `used / total` for amounts in KiB, shown in GiB; `used` is the first
/// amount minus the second, or 0 when the second is larger.
pub open spec fn usage_text(total: u64, free: u64) -> Seq<char> {
    let used: nat = if total >= free {
        (total - free) as nat
    } else {
        0
    };
    gib_text(used, 20) + " / "@ + gib_text(total as nat, 20)
}

/// `used / total` for amounts in KiB.
pub fn usage_line(total: u64, free: u64) -> (r: String)
    ensures
        r@ == usage_text(total, free),
{
    let used = if total >= free {
        total - free
    } else {
        0
    };
    let mut out = concat(&chars_of(format_gib(used).as_str()), &chars_of(" / "));
    out = concat(&out, &chars_of(format_gib(total).as_str()));
    string_of(&out)
}

impl Memory {
    /// The memory value: used (total minus available) over total memory.
    pub fn value(mem: Option<MemInfo>) -> (r: String)
        ensures
            r@ == match mem {
                Some(m) => usage_text(m.total_kib, m.available_kib),
                None => "unknown"@,
            },
    {
        match mem {
            Some(m) => usage_line(m.total_kib, m.available_kib),
            None => String::from_str("unknown"),
        }
    }
}

} // verus!
