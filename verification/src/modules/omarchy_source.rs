//! The branch and commit of an Omarchy checkout.

use vstd::prelude::*;
use crate::text::{chars_of, concat, opt_view, string_of};
use crate::modules::types::Module;
use crate::modules::registry::{key_name, ModuleKey};

verus! {

/// The branch and commit of an Omarchy checkout.
pub struct OmarchySource;

impl Module for OmarchySource {
    fn name(&self) -> (r: &'static str)
        ensures
            r@ == key_name(ModuleKey::OmarchySource),
    {
        "omarchy-source"
    }

    fn label(&self) -> (r: &'static str)
        ensures
            r@ == "Source"@,
    {
        "Source"
    }
}

/// The source value: `branch (commit)`, the branch alone without a commit,
/// `unknown` without a branch.
pub open spec fn source_text(branch: Option<Seq<char>>, commit: Option<Seq<char>>) -> Seq<char> {
    match (branch, commit) {
        (Some(b), Some(c)) => b + " ("@ + c + ")"@,
        (Some(b), None) => b,
        _ => "unknown"@,
    }
}

impl OmarchySource {
    /// The source value, given the outputs of `git rev-parse --abbrev-ref
    /// HEAD` and `git rev-parse --short HEAD` in the install directory.
    pub fn value(branch: Option<String>, commit: Option<String>) -> (r: String)
        ensures
            r@ == source_text(opt_view(branch), opt_view(commit)),
    {
        match (branch, commit) {
            (Some(b), Some(c)) => {
                let mut out = concat(&chars_of(b.as_str()), &chars_of(" ("));
                out = concat(&out, &chars_of(c.as_str()));
                out = concat(&out, &chars_of(")"));
                string_of(&out)
            },
            (Some(b), None) => b,
            _ => String::from_str("unknown"),
        }
    }
}

} // verus!
