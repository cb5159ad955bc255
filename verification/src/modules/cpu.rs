//! The processor model.

use vstd::prelude::*;
use crate::modules::types::Module;
use crate::modules::registry::{key_name, ModuleKey};

verus! {

/// The processor model.
pub struct Cpu;

impl Module for Cpu {
    fn name(&self) -> (r: &'static str)
        ensures
            r@ == key_name(ModuleKey::Cpu),
    {
        "cpu"
    }

    fn label(&self) -> (r: &'static str)
        ensures
            r@ == "CPU"@,
    {
        "CPU"
    }
}

} // verus!
