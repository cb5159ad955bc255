//! The running kernel.

use vstd::prelude::*;
use crate::modules::types::Module;
use crate::modules::registry::{key_name, ModuleKey};

verus! {

/// The running kernel.
pub struct Kernel;

impl Module for Kernel {
    fn name(&self) -> (r: &'static str)
        ensures
            r@ == key_name(ModuleKey::Kernel),
    {
        "kernel"
    }

    fn label(&self) -> (r: &'static str)
        ensures
            r@ == "Kernel"@,
    {
        "Kernel"
    }
}

} // verus!
