//! The current Omarchy theme.

use vstd::prelude::*;
use crate::modules::types::Module;
use crate::modules::registry::{key_name, ModuleKey};

verus! {

/// The current Omarchy theme.
pub struct Theme;

impl Module for Theme {
    fn name(&self) -> (r: &'static str)
        ensures
            r@ == key_name(ModuleKey::Theme),
    {
        "theme"
    }

    fn label(&self) -> (r: &'static str)
        ensures
            r@ == "Theme"@,
    {
        "Theme"
    }
}

} // verus!
