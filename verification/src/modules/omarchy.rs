//! The Omarchy version.

use vstd::prelude::*;
use crate::text::{chars_of, concat, opt_view, string_of};
use crate::modules::types::Module;
use crate::modules::registry::{key_name, ModuleKey};

verus! {

/// The Omarchy version.
pub struct Omarchy;

impl Module for Omarchy {
    fn name(&self) -> (r: &'static str)
        ensures
            r@ == key_name(ModuleKey::Omarchy),
    {
        "omarchy"
    }

    fn label(&self) -> (r: &'static str)
        ensures
            r@ == "Omarchy"@,
    {
        "Omarchy"
    }
}

impl Omarchy {
    /// The version value: `v` and the version, `unknown` without one.
    pub fn value(version: Option<String>) -> (r: String)
        ensures
            r@ == match opt_view(version) {
                Some(v) => "v"@ + v,
                None => "unknown"@,
            },
    {
        match version {
            Some(v) => string_of(&concat(&chars_of("v"), &chars_of(v.as_str()))),
            None => String::from_str("unknown"),
        }
    }
}

} // verus!
