//! What every fetch module has: a name, a label, and the line it produces.

use vstd::prelude::*;
use crate::omarchy::state::OmarchyState;

verus! {

/// What modules may consult while collecting: the discovered Omarchy state.
pub struct ModuleContext<'a> {
    pub omarchy: &'a OmarchyState,
}

/// One fetched line: the module's name, its label and its value.
#[derive(Debug, Clone, PartialEq, Eq)]
pub struct ModuleOutput {
    pub name: &'static str,
    pub label: String,
    pub value: String,
}

impl ModuleOutput {
    /// A line for a module.
    pub fn new(name: &'static str, label: &str, value: &str) -> (r: Self)
        ensures
            r.name@ == name@,
            r.label@ == label@,
            r.value@ == value@,
    {
        ModuleOutput { name, label: String::from_str(label), value: String::from_str(value) }
    }

    /// The line of a module whose value could not be found.
    pub fn unknown(name: &'static str, label: &'static str) -> (r: Self)
        ensures
            r.name@ == name@,
            r.label@ == label@,
            r.value@ == "unknown"@,
    {
        Self::new(name, label, "unknown")
    }
}

/// A fetch module, known by its name on the command line and by the label
/// its line carries.
pub trait Module {
    fn name(&self) -> &'static str;

    fn label(&self) -> &'static str;
}

} // verus!
