//! Time since boot.

use vstd::prelude::*;
use crate::render::text::{duration_text, format_duration};
use crate::modules::types::Module;
use crate::modules::registry::{key_name, ModuleKey};

verus! {

/// Time since boot.
pub struct Uptime;

impl Module for Uptime {
    fn name(&self) -> (r: &'static str)
        ensures
            r@ == key_name(ModuleKey::Uptime),
    {
        "uptime"
    }

    fn label(&self) -> (r: &'static str)
        ensures
            r@ == "Uptime"@,
    {
        "Uptime"
    }
}

impl Uptime {
    /// The uptime value for a number of seconds.
    pub fn value(seconds: Option<u64>) -> (r: String)
        ensures
            r@ == match seconds {
                Some(s) => duration_text(s as nat),
                None => "unknown"@,
            },
    {
        match seconds {
            Some(s) => format_duration(s),
            None => String::from_str("unknown"),
        }
    }
}

} // verus!
