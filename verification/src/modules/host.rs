//! The machine's model.

use vstd::prelude::*;
use crate::modules::types::Module;
use crate::modules::registry::{key_name, ModuleKey};

verus! {

/// The machine's model.
pub struct Host;

impl Module for Host {
    fn name(&self) -> (r: &'static str)
        ensures
            r@ == key_name(ModuleKey::Host),
    {
        "host"
    }

    fn label(&self) -> (r: &'static str)
        ensures
            r@ == "Host"@,
    {
        "Host"
    }
}

} // verus!
