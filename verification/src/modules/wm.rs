//! The window manager and its version.

use vstd::prelude::*;
use crate::modules::types::Module;
use crate::modules::registry::{key_name, ModuleKey};

verus! {

/// The window manager and its version.
pub struct Wm;

impl Module for Wm {
    fn name(&self) -> (r: &'static str)
        ensures
            r@ == key_name(ModuleKey::Wm),
    {
        "wm"
    }

    fn label(&self) -> (r: &'static str)
        ensures
            r@ == "WM"@,
    {
        "WM"
    }
}

} // verus!
