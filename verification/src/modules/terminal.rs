//! The terminal emulator and its version.

use vstd::prelude::*;
use crate::modules::types::Module;
use crate::modules::registry::{key_name, ModuleKey};

verus! {

/// The terminal emulator and its version.
pub struct Terminal;

impl Module for Terminal {
    fn name(&self) -> (r: &'static str)
        ensures
            r@ == key_name(ModuleKey::Terminal),
    {
        "terminal"
    }

    fn label(&self) -> (r: &'static str)
        ensures
            r@ == "Term"@,
    {
        "Term"
    }
}

} // verus!
