//! The local IP address.

use vstd::prelude::*;
use crate::modules::types::Module;
use crate::modules::registry::{key_name, ModuleKey};

verus! {

/// The local IP address.
pub struct LocalIp;

impl Module for LocalIp {
    fn name(&self) -> (r: &'static str)
        ensures
            r@ == key_name(ModuleKey::LocalIp),
    {
        "localip"
    }

    fn label(&self) -> (r: &'static str)
        ensures
            r@ == "IP"@,
    {
        "IP"
    }
}

} // verus!
