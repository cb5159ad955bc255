//! The monospace font family.

use vstd::prelude::*;
use crate::modules::types::Module;

verus! {

/// The monospace font family.
pub struct Font;

impl Module for Font {
    fn name(&self) -> (r: &'static str)
        ensures
            r@ == "font"@,
    {
        "font"
    }

    fn label(&self) -> (r: &'static str)
        ensures
            r@ == "Font"@,
    {
        "Font"
    }
}

} // verus!
