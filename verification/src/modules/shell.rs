//! The login shell and its version.

use vstd::prelude::*;
use crate::modules::types::Module;
use crate::modules::registry::{key_name, ModuleKey};

verus! {

/// The login shell and its version.
pub struct Shell;

impl Module for Shell {
    fn name(&self) -> (r: &'static str)
        ensures
            r@ == key_name(ModuleKey::Shell),
    {
        "shell"
    }

    fn label(&self) -> (r: &'static str)
        ensures
            r@ == "Shell"@,
    {
        "Shell"
    }
}

} // verus!
