//! The battery's charge and state.

use vstd::prelude::*;
use crate::probe::sysfs::BatteryInfo;
use crate::text::{chars_of, concat, dec, dec_exec, opt_view, string_of};
use crate::modules::types::Module;
use crate::modules::registry::{key_name, ModuleKey};

verus! {

/// The battery's charge and state.
pub struct Battery;

impl Module for Battery {
    fn name(&self) -> (r: &'static str)
        ensures
            r@ == key_name(ModuleKey::Battery),
    {
        "battery"
    }

    fn label(&self) -> (r: &'static str)
        ensures
            r@ == "Battery"@,
    {
        "Battery"
    }
}

/// How a battery is shown: `87% charging`, the charge or the state alone
/// when only one is known, `unknown` when neither is.
pub open spec fn battery_text(capacity: Option<u8>, status: Option<Seq<char>>) -> Seq<char> {
    match (capacity, status) {
        (Some(c), Some(s)) => dec(c as nat) + "% "@ + s,
        (Some(c), None) => dec(c as nat) + "%"@,
        (None, Some(s)) => s,
        (None, None) => "unknown"@,
    }
}

/// The battery line for a battery's figures.
pub fn format_battery(info: BatteryInfo) -> (r: String)
    ensures
        r@ == battery_text(info.capacity, opt_view(info.status)),
{
    match (info.capacity, info.status) {
        (Some(c), Some(s)) => {
            let mut out = concat(&dec_exec(c as u128), &chars_of("% "));
            out = concat(&out, &chars_of(s.as_str()));
            string_of(&out)
        },
        (Some(c), None) => string_of(&concat(&dec_exec(c as u128), &chars_of("%"))),
        (None, Some(s)) => s,
        (None, None) => String::from_str("unknown"),
    }
}

} // verus!
