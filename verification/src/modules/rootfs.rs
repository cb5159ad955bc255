//! The root filesystem's type and options.

use vstd::prelude::*;
use crate::text::{chars_of, opt_view, replace, replace_exec, string_of};
use crate::modules::types::Module;
use crate::modules::registry::{key_name, ModuleKey};

verus! {

/// The root filesystem's type and options.
pub struct RootFs;

impl Module for RootFs {
    fn name(&self) -> (r: &'static str)
        ensures
            r@ == key_name(ModuleKey::RootFs),
    {
        "rootfs"
    }

    fn label(&self) -> (r: &'static str)
        ensures
            r@ == "Root"@,
    {
        "Root"
    }
}

/// The root value: the root filesystem line with `subvol=/@` shortened to
/// `@`, `compress=` dropped and doubled spaces halved.
pub open spec fn rootfs_text(root: Seq<char>) -> Seq<char> {
    replace(replace(replace(root, "subvol=/@"@, "@"@), "compress="@, ""@), "  "@, " "@)
}

impl RootFs {
    /// The root value for the root filesystem line.
    pub fn value(root: Option<String>) -> (r: String)
        ensures
            r@ == match opt_view(root) {
                Some(v) => rootfs_text(v),
                None => "unknown"@,
            },
    {
        proof {
            reveal_strlit("subvol=/@");
            reveal_strlit("compress=");
            reveal_strlit("  ");
        }
        match root {
            Some(v) => {
                let a = replace_exec(&chars_of(v.as_str()), &chars_of("subvol=/@"), &chars_of("@"));
                let b = replace_exec(&a, &chars_of("compress="), &chars_of(""));
                string_of(&replace_exec(&b, &chars_of("  "), &chars_of(" ")))
            },
            None => String::from_str("unknown"),
        }
    }
}

} // verus!
