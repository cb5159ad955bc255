//! How long ago the root filesystem was created.

use vstd::prelude::*;
use crate::text::{chars_of, concat, dec, dec_exec, string_of};
use crate::modules::types::Module;
use crate::modules::registry::{key_name, ModuleKey};

verus! {

/// How long ago the root filesystem was created.
pub struct OsAge;

impl Module for OsAge {
    fn name(&self) -> (r: &'static str)
        ensures
            r@ == key_name(ModuleKey::OsAge),
    {
        "os-age"
    }

    fn label(&self) -> (r: &'static str)
        ensures
            r@ == "Age"@,
    {
        "Age"
    }
}

impl OsAge {
    /// The age value: `N days`, `unknown` without an age.
    pub fn value(days: Option<u64>) -> (r: String)
        ensures
            r@ == match days {
                Some(d) => dec(d as nat) + " days"@,
                None => "unknown"@,
            },
    {
        match days {
            Some(d) => string_of(&concat(&dec_exec(d as u128), &chars_of(" days"))),
            None => String::from_str("unknown"),
        }
    }
}

} // verus!
