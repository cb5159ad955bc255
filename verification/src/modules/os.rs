//! The operating system.

use vstd::prelude::*;
use crate::modules::types::Module;
use crate::modules::registry::{key_name, ModuleKey};

verus! {

/// The operating system.
pub struct Os;

impl Module for Os {
    fn name(&self) -> (r: &'static str)
        ensures
            r@ == key_name(ModuleKey::Os),
    {
        "os"
    }

    fn label(&self) -> (r: &'static str)
        ensures
            r@ == "OS"@,
    {
        "OS"
    }
}

} // verus!
